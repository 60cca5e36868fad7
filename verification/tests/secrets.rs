use cue::secrets::{load_secrets, with_secret, Secrets};

#[test]
fn secrets_are_read_from_toml() {
    let s = load_secrets(Some("default = \"sk-1\"\nwebdav = 'p\\w'\n".to_string()));
    assert_eq!(s.get("default"), "sk-1");
    assert_eq!(s.get("webdav"), "p\\w");
    assert_eq!(s.get("other"), "");
}

#[test]
fn unreadable_secrets_are_none() {
    assert_eq!(load_secrets(None).entries.len(), 0);
    assert_eq!(load_secrets(Some("not toml".to_string())).entries.len(), 0);
    assert_eq!(load_secrets(Some("n = 1\n".to_string())).entries.len(), 0);
    assert_eq!(load_secrets(Some("[t]\na = \"b\"\n".to_string())).entries.len(), 0);
}

#[test]
fn a_written_secret_is_read_back() {
    let odd = [
        "", "plain", "it's", "\"quoted\"", "'''", "\"\"\"", "a\nb", "a\r\nb", "\r", "\n", "\n\n",
        "tab\there", "back\\slash", "\u{0}\u{1}\u{1e}\u{7f}", "\u{85}\u{2028}", "\u{1f600}", "#x",
        " lead and trail ", "''\n'", "'''\n\"\"\"", "\\", "\\\n", "\u{feff}", "a\\u0041",
    ];
    for value in odd {
        for name in odd {
            let text = "default = \"sk\"\n".to_string();
            let written = with_secret(Some(text), name, value).unwrap();
            let read = load_secrets(Some(written));
            assert_eq!(read.get(name), value, "{name:?}");
            assert_eq!(read.get("default"), "sk");
        }
    }
}

#[test]
fn a_secret_written_over_another() {
    let written = with_secret(Some("a = \"1\"\nb = \"2\"\n".to_string()), "a", "3").unwrap();
    assert_eq!(written, "a = \"3\"\nb = \"2\"\n");
    let fresh = with_secret(None, "default", "x").unwrap();
    assert_eq!(fresh, "default = \"x\"\n");
    let invalid = with_secret(Some("= broken".to_string()), "default", "x").unwrap();
    assert_eq!(invalid, "default = \"x\"\n");
}

#[test]
fn the_later_entry_counts() {
    let mut s = Secrets {
        entries: vec![("k".to_string(), "1".to_string()), ("k".to_string(), "2".to_string())],
    };
    assert_eq!(s.get("k"), "2");
    s.insert("k".to_string(), "3".to_string());
    assert_eq!(s.get("k"), "3");
    s.insert("n".to_string(), "4".to_string());
    assert_eq!(s.get("n"), "4");
    assert_eq!(Secrets::new().get("k"), "");
}
