use cue::win::{show_at, show_centered, Area, GAP};

fn screen() -> Option<Area> {
    Some(Area { left: 0, top: 0, right: 1920, bottom: 1040 })
}

#[test]
fn near_the_point() {
    assert_eq!(GAP, 8);
    assert_eq!(show_at(100, 200, 560, 600, screen()), (108, 208));
    assert_eq!(show_at(100, 200, 560, 600, None), (108, 208));
}

#[test]
fn clamped_to_the_work_area() {
    assert_eq!(show_at(1900, 1000, 560, 600, screen()), (1352, 432));
    assert_eq!(show_at(-500, -500, 560, 600, screen()), (8, 8));
    // too large to fit: the near edge counts
    assert_eq!(show_at(100, 100, 4000, 2000, screen()), (8, 8));
}

#[test]
fn in_the_middle() {
    assert_eq!(show_centered(560, 600, screen()), (680, 220));
    assert_eq!(show_centered(1921, 600, screen()), (0, 220));
    assert_eq!(show_centered(1923, 600, screen()), (-1, 220));
    assert_eq!(show_centered(560, 600, None), (200, 150));
    let second = Some(Area { left: -1280, top: 100, right: 0, bottom: 824 });
    assert_eq!(show_centered(560, 600, second), (-920, 162));
}
