use cue::text::{
    before_str, contains_str, decimal_str, ends_with_str, is_before, is_white, join_strings,
    lower_str, padded_str, replace_str, same, split_str, starts_with_str, trim, trim_end_matches,
};

fn strings(v: &[&str]) -> Vec<String> {
    v.iter().map(|s| s.to_string()).collect()
}

#[test]
fn white_space_is_that_of_the_standard_library() {
    for n in 0..=0x10FFFFu32 {
        if let Some(c) = char::from_u32(n) {
            assert_eq!(is_white(c), c.is_whitespace(), "{n:x}");
        }
    }
}

#[test]
fn trimming() {
    for s in ["", " ", " a ", "\t\u{3000}b c\n", "x", "\u{200b}y", "  \r\n"] {
        assert_eq!(trim(s), s.trim());
    }
    for s in ["", "/", "a//", "/a/b/", "//"] {
        assert_eq!(trim_end_matches(s, '/'), s.trim_end_matches('/'));
    }
}

#[test]
fn splitting_and_joining() {
    let cases = [("a,b,,c", ","), ("", ","), (",", ","), ("aaa", "aa"), ("href>x</href>", "href>")];
    for (s, p) in cases {
        let expected: Vec<&str> = s.split(p).collect();
        assert_eq!(split_str(s, p), strings(&expected));
        assert_eq!(join_strings(&split_str(s, p), p), s);
        assert_eq!(replace_str(s, p, "-"), s.replace(p, "-"));
    }
    assert_eq!(join_strings(&Vec::new(), ","), "");
}

#[test]
fn finding() {
    assert!(contains_str("powershell, terminal", "terminal"));
    assert!(!contains_str("term", "terminal"));
    assert!(starts_with_str("https://x", "https://"));
    assert!(!starts_with_str("http", "http://"));
    assert!(ends_with_str("a.toml", ".toml"));
    assert!(!ends_with_str("toml", ".toml"));
    assert_eq!(before_str("a</b</c", "</"), Some("a".to_string()));
    assert_eq!(before_str("abc", "</"), None);
}

#[test]
fn lower_case_of_ascii_letters_only() {
    assert_eq!(lower_str("Code - INSIDERS \u{c4}"), "code - insiders \u{c4}");
}

#[test]
fn order_of_strings() {
    let words = ["", "a", "ab", "b", "B", "\u{e9}", "\u{1f600}", "\u{ffff}"];
    for a in words {
        for b in words {
            assert_eq!(is_before(a, b), a < b, "{a} {b}");
            assert_eq!(same(a, b), a == b);
        }
    }
}

#[test]
fn numbers() {
    assert_eq!(decimal_str(0), "0");
    assert_eq!(decimal_str(18446744073709551615), "18446744073709551615");
    assert_eq!(padded_str(7, 2), "07");
    assert_eq!(padded_str(123, 2), "123");
    assert_eq!(padded_str(0, 4), "0000");
}
