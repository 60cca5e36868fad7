use cue::markdown::{html_escape, md_html, neutralize, MdEvent, Piece};

#[test]
fn escaping() {
    assert_eq!(html_escape("a<b> & \"c\" 'd'"), "a&lt;b&gt; &amp; &quot;c&quot; 'd'");
    assert_eq!(html_escape(""), "");
    assert!(!html_escape("<script>\"").contains(['<', '>', '"']));
}

#[test]
fn markdown_becomes_html() {
    assert_eq!(md_html("a *b*"), "<p>a <em>b</em></p>\n");
    assert_eq!(md_html("~~x~~"), "<p><del>x</del></p>\n");
    assert!(md_html("|a|\n|-|\n|b|").starts_with("<table>"));
    assert!(md_html("- [x] done").contains("type=\"checkbox\""));
    assert_eq!(md_html(""), "");
}

#[test]
fn raw_html_is_shown_as_text() {
    assert_eq!(md_html("<b>x</b>"), "<p>&lt;b&gt;x&lt;/b&gt;</p>\n");
    let block = md_html("<script>\nalert(1)\n</script>");
    assert!(!block.contains("<script"));
    assert!(block.contains("&lt;script&gt;"));
}

#[test]
fn events_are_neutralized() {
    let events = vec![
        MdEvent::Other,
        MdEvent::Html("<x>".to_string()),
        MdEvent::InlineHtml("<y>".to_string()),
    ];
    assert_eq!(
        neutralize(events),
        [Piece::Keep, Piece::Text("<x>".to_string()), Piece::Text("<y>".to_string())]
    );
}

#[test]
fn questions_between_separators() {
    let html = md_html("*a*\u{1e}is 1 < 2?\u{1e}*b*");
    assert_eq!(
        html,
        "<p><em>a</em></p>\n<p class=\"ask\">is 1 &lt; 2?</p>\n<p><em>b</em></p>\n"
    );
    assert_eq!(md_html("\u{1e}*q*\u{1e}"), "<p class=\"ask\">*q*</p>\n");
    assert_eq!(md_html("a\u{1e}"), "<p>a</p>\n<p class=\"ask\"></p>\n");
}

#[test]
fn escaped_text_reads_back() {
    let unescape = |s: &str| {
        s.replace("&lt;", "<").replace("&gt;", ">").replace("&quot;", "\"").replace("&amp;", "&")
    };
    for s in ["&lt;", "a & b", "<&>\"", "&amp;amp;", ""] {
        assert_eq!(unescape(&html_escape(s)), s);
    }
    let both = format!("{}{}", html_escape("<a"), html_escape("&b>"));
    assert_eq!(html_escape("<a&b>"), both);
}
