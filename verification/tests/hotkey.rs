use cue::config::{DEFAULT_HEIGHT, DEFAULT_WIDTH};
use cue::hotkey::{
    active_id, is_activation, on_hotkey, on_menu, on_tray, spawn, start_notes, thread_notes, tray_img,
    MenuStep, Msg, Show, TRAY_SIDE,
};

#[test]
fn a_good_hotkey_needs_no_note() {
    assert_eq!(spawn("alt+q", Some(Vec::new())), None);
    assert_eq!(spawn("Ctrl+Shift+F5", Some(Vec::new())), None);
}

#[test]
fn a_bad_hotkey_is_noted() {
    let note = spawn("alt+nonsense", Some(Vec::new())).unwrap();
    assert!(note.starts_with("hotkey \"alt+nonsense\": "), "{note}");
    assert!(note.len() > "hotkey \"alt+nonsense\": ".len());
}

#[test]
fn notes_of_the_start() {
    assert_eq!(
        start_notes("x", Err("odd".to_string()), Some(vec!["hotkey: taken".to_string()])),
        Some("hotkey \"x\": odd\nhotkey: taken".to_string())
    );
    assert_eq!(
        start_notes("x", Ok(()), None),
        Some("hotkey thread failed to start".to_string())
    );
    assert_eq!(start_notes("x", Ok(()), Some(Vec::new())), None);
}

#[test]
fn notes_of_the_thread() {
    assert_eq!(
        thread_notes(Some("no window".to_string()), None),
        ["hotkeys unavailable: no window"]
    );
    assert_eq!(thread_notes(None, Some(Err("taken".to_string()))), ["hotkey: taken"]);
    assert!(thread_notes(None, Some(Ok(()))).is_empty());
    assert!(thread_notes(None, None).is_empty());
}

#[test]
fn only_a_press_of_the_hotkey_counts() {
    assert!(is_activation(true, 7, Some(7)));
    assert!(!is_activation(false, 7, Some(7)));
    assert!(!is_activation(true, 8, Some(7)));
    assert!(!is_activation(true, 7, None));
}

#[test]
fn the_hotkey_shows_the_assistant() {
    let s = on_hotkey(Some("sel".to_string()), Some((1, 2)), Some((3, 4)));
    let expected = Show {
        msg: Msg::Activate("sel".to_string()),
        at: Some((1, 2)),
        size: (3, 4),
        topmost: true,
    };
    assert_eq!(s, expected);
    let s = on_hotkey(None, None, None);
    assert_eq!(s.msg, Msg::Activate(String::new()));
    assert_eq!(s.at, Some((300, 300)));
    assert_eq!(s.size, (DEFAULT_WIDTH, DEFAULT_HEIGHT));
}

#[test]
fn the_tray_menu() {
    assert_eq!(on_menu("2", "1", "2"), MenuStep::Quit);
    assert_eq!(on_menu("3", "1", "2"), MenuStep::Nothing);
    let shown = Show {
        msg: Msg::Settings,
        at: None,
        size: (DEFAULT_WIDTH, DEFAULT_HEIGHT),
        topmost: false,
    };
    assert_eq!(on_menu("1", "1", "2"), MenuStep::Show(shown));
}

#[test]
fn the_tray_icon_shows_the_assistant() {
    let s = on_tray(true, true, Some((9, 9))).unwrap();
    assert_eq!(s.msg, Msg::Activate(String::new()));
    assert_eq!(s.at, None);
    assert!(s.topmost);
    assert_eq!(on_tray(true, false, None), None);
    assert_eq!(on_tray(false, true, None), None);
}

#[test]
fn the_tray_icon() {
    let img = tray_img();
    assert_eq!(img.len(), TRAY_SIDE * TRAY_SIDE * 4);
    let pixel = |x: usize, y: usize| img[(y * TRAY_SIDE + x) * 4..][..4].to_vec();
    let lit = vec![235, 235, 230, 255];
    let dark = vec![0; 4];
    assert_eq!(pixel(0, 0), dark);
    assert_eq!(pixel(3, 3), lit);
    assert_eq!(pixel(5, 15), lit);
    assert_eq!(pixel(6, 15), dark);
    assert_eq!(pixel(12, 19), lit);
    assert_eq!(pixel(20, 19), dark);
    assert_eq!(pixel(28, 28), lit);
    assert_eq!(pixel(29, 28), dark);
    assert_eq!(pixel(26, 4), lit);
}

#[test]
fn a_hotkey_counts_once_registered() {
    assert_eq!(active_id(Some(7), &Some(Ok(()))), Some(7));
    assert_eq!(active_id(Some(7), &Some(Err("taken".to_string()))), None);
    assert_eq!(active_id(Some(7), &None), None);
    assert_eq!(active_id(None, &Some(Ok(()))), None);
}
