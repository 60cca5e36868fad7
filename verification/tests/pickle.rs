use cue::pickle::{chromium_custom_mime_value, pickle_read_string16};

fn put_string(out: &mut Vec<u8>, units: &[u16]) {
    out.extend((units.len() as u32).to_le_bytes());
    for u in units {
        out.extend(u.to_le_bytes());
    }
    while out.len() % 4 != 0 {
        out.push(0);
    }
}

fn utf16(s: &str) -> Vec<u16> {
    s.encode_utf16().collect()
}

fn pickled(pairs: &[(&str, &str)]) -> Vec<u8> {
    let mut body: Vec<u8> = (pairs.len() as u32).to_le_bytes().to_vec();
    for (k, v) in pairs {
        put_string(&mut body, &utf16(k));
        put_string(&mut body, &utf16(v));
    }
    let mut out = (body.len() as u32).to_le_bytes().to_vec();
    out.extend(body);
    out
}

#[test]
fn value_of_a_key() {
    let b = pickled(&[("odd", "a"), ("vscode-editor-data", "{\"x\":\"\u{1f600}\"}"), ("odd", "b")]);
    assert_eq!(
        chromium_custom_mime_value(&b, "vscode-editor-data"),
        Some("{\"x\":\"\u{1f600}\"}".to_string())
    );
    assert_eq!(chromium_custom_mime_value(&b, "odd"), Some("a".to_string()));
    assert_eq!(chromium_custom_mime_value(&b, "none"), None);
}

#[test]
fn trailing_bytes_are_ignored_and_missing_ones_noticed() {
    let mut b = pickled(&[("k", "value")]);
    b.extend([1, 2, 3]);
    assert_eq!(chromium_custom_mime_value(&b, "k"), Some("value".to_string()));
    let short = &pickled(&[("k", "value")])[..18];
    assert_eq!(chromium_custom_mime_value(short, "k"), None);
    assert_eq!(chromium_custom_mime_value(&[0; 7], "k"), None);
    assert_eq!(chromium_custom_mime_value(&[0; 8], "k"), None);
}

#[test]
fn a_payload_that_claims_too_much() {
    let mut b = pickled(&[("k", "v")]);
    b[0] = 0xff;
    b[3] = 0xff;
    assert_eq!(chromium_custom_mime_value(&b, "k"), Some("v".to_string()));
}

#[test]
fn reading_moves_to_the_next_value() {
    let mut b = Vec::new();
    put_string(&mut b, &utf16("abc"));
    put_string(&mut b, &utf16("de"));
    let mut i = 0;
    assert_eq!(pickle_read_string16(&b, &mut i), Some("abc".to_string()));
    assert_eq!(i, 12);
    assert_eq!(pickle_read_string16(&b, &mut i), Some("de".to_string()));
    assert_eq!(i, 20);
    assert_eq!(pickle_read_string16(&b, &mut i), None);
    assert_eq!(i, 20);
    let mut j = 0;
    assert_eq!(pickle_read_string16(&[9, 0, 0, 0, 65, 0], &mut j), None);
    assert_eq!(j, 4);
}

#[test]
fn broken_utf16_is_replaced_as_in_the_standard_library() {
    let cases: [&[u16]; 7] = [
        &[0xD800],
        &[0xDC00],
        &[0xD83D, 0xDE00],
        &[0xD83D, 65],
        &[0xD83D, 0xD83D, 0xDE00],
        &[0xDE00, 0xD83D],
        &[0xFFFF, 0xDBFF, 0xDFFF],
    ];
    for units in cases {
        let mut b = Vec::new();
        put_string(&mut b, units);
        let mut i = 0;
        assert_eq!(pickle_read_string16(&b, &mut i), Some(String::from_utf16_lossy(units)));
    }
}
