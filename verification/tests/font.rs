use cue::font::{cjk_path, install, mono_path, Fonts};

fn base() -> Fonts {
    Fonts {
        data: vec![("Ubuntu".to_string(), vec![1])],
        proportional: vec!["Ubuntu".to_string()],
        monospace: vec!["Hack".to_string()],
    }
}

#[test]
fn all_fonts_installed() {
    let f = install(base(), vec![2], Some(vec![3]), Some(vec![4]));
    assert_eq!(f.proportional, ["inter", "Ubuntu", "cjk"]);
    assert_eq!(f.monospace, ["mono", "Hack", "cjk"]);
    let names: Vec<&str> = f.data.iter().map(|d| d.0.as_str()).collect();
    assert_eq!(names, ["Ubuntu", "inter", "mono", "cjk"]);
    assert_eq!(f.data[3].1, vec![4]);
}

#[test]
fn fonts_without_files_left_out() {
    let f = install(base(), vec![2], None, None);
    assert_eq!(f.proportional, ["inter", "Ubuntu"]);
    assert_eq!(f.monospace, ["Hack"]);
    assert_eq!(f.data.len(), 2);
}

#[test]
fn font_files() {
    assert_eq!(mono_path(), r"C:\Windows\Fonts\consola.ttf");
    assert_eq!(cjk_path(0), Some(r"C:\Windows\Fonts\msyh.ttc".to_string()));
    assert_eq!(cjk_path(1), Some(r"C:\Windows\Fonts\Deng.ttf".to_string()));
    assert_eq!(cjk_path(2), Some(r"C:\Windows\Fonts\simhei.ttf".to_string()));
    assert_eq!(cjk_path(3), None);
}
