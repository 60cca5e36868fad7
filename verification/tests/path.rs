use cue::path::file_stem;

fn stem(path: &str) -> Option<String> {
    file_stem(path)
}

fn some(name: &str) -> Option<String> {
    Some(name.to_string())
}

#[test]
fn stems_of_plain_paths() {
    let paths = [
        "/a/b.exe", "a.b.c", "x/.hidden", "noext", "a/.x.y", "", "..", "a/..", ".", "t.", "a/b/",
        "a/.", "a/./", "a//b.c//", "/", "//", "./", "./a.b", "a/../", "...", "a/...x", "/..",
    ];
    for p in paths {
        let expected =
            std::path::Path::new(p).file_stem().map(|s| s.to_str().unwrap().to_string());
        assert_eq!(stem(p), expected, "{p}");
        assert_eq!(stem(&p.replace('/', r"\")), expected, "{p}");
    }
}

#[test]
fn drives() {
    assert_eq!(stem(r"C:\dir.d\prog.exe"), some("prog"));
    assert_eq!(stem("C:Code.exe"), some("Code"));
    assert_eq!(stem(r"C:\a\Code.exe\"), some("Code"));
    assert_eq!(stem(r"C:\a\Code.exe\.\"), some("Code"));
    assert_eq!(stem("C:"), None);
    assert_eq!(stem(r"C:\"), None);
    assert_eq!(stem("C:."), None);
    assert_eq!(stem("C:.."), None);
    assert_eq!(stem("1:x.y"), some("1:x"));
}

#[test]
fn servers_and_devices() {
    assert_eq!(stem(r"\\server\share\Code.exe"), some("Code"));
    assert_eq!(stem(r"\\server\Code.exe"), None);
    assert_eq!(stem(r"\\server\Code.exe\"), None);
    assert_eq!(stem(r"//server/share/a.b"), some("a"));
    assert_eq!(stem(r"\\.\COM4.x"), None);
    assert_eq!(stem(r"\\.\dev\a.b"), some("a"));
    assert_eq!(stem(r"\\\a\b.c"), some("b"));
}

#[test]
fn verbatim_paths() {
    assert_eq!(stem(r"\\?\C:\a\Code.exe"), some("Code"));
    assert_eq!(stem(r"\\?\C:\a\."), None);
    assert_eq!(stem(r"\\?\C:\a/b.c"), some("a/b"));
    assert_eq!(stem(r"\\?\C:/b.c"), some("b"));
    assert_eq!(stem(r"\\?\C:"), None);
    assert_eq!(stem(r"\\?\name.x"), None);
    assert_eq!(stem(r"\\?\name\a.x\"), some("a"));
    assert_eq!(stem(r"\\?\UNC\server\share\a.x"), some("a"));
    assert_eq!(stem(r"\\?\UNC\server\share.x"), None);
}
