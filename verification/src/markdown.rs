//! Responses as HTML: Markdown with raw HTML neutralized, and the questions between responses.
use crate::text::{
    chars_of, find, lemma_find_from, matches_at, rest, split, split_str, starts_with, views,
};
use pulldown_cmark::{html, Event, Options, Parser};
use vstd::prelude::*;
use vstd::string::StringExecFns;

verus! {

/// An event of a Markdown document, as far as it matters here.
#[derive(Debug, PartialEq, Eq)]
pub enum MdEvent<T> {
    /// A line of an HTML block.
    Html(T),
    /// An HTML tag inside a paragraph.
    InlineHtml(T),
    Other,
}

/// What is rendered in place of an event.
#[derive(Debug, PartialEq, Eq)]
pub enum Piece<T> {
    /// This text.
    Text(T),
    /// The event itself.
    Keep,
}

impl View for MdEvent<String> {
    type V = MdEvent<Seq<char>>;

    open spec fn view(&self) -> MdEvent<Seq<char>> {
        match self {
            MdEvent::Html(h) => MdEvent::Html(h@),
            MdEvent::InlineHtml(h) => MdEvent::InlineHtml(h@),
            MdEvent::Other => MdEvent::Other,
        }
    }
}

impl View for Piece<String> {
    type V = Piece<Seq<char>>;

    open spec fn view(&self) -> Piece<Seq<char>> {
        match self {
            Piece::Text(t) => Piece::Text(t@),
            Piece::Keep => Piece::Keep,
        }
    }
}

pub open spec fn event_views(v: Seq<MdEvent<String>>) -> Seq<MdEvent<Seq<char>>> {
    v.map_values(|e: MdEvent<String>| e@)
}

pub open spec fn piece_views(v: Seq<Piece<String>>) -> Seq<Piece<Seq<char>>> {
    v.map_values(|p: Piece<String>| p@)
}

/// The events of a Markdown document, read with or without tables, strikethrough and task lists.
pub uninterp spec fn markdown_events(
    chunk: Seq<char>,
    tables: bool,
    strikethrough: bool,
    tasklists: bool,
) -> Seq<MdEvent<Seq<char>>>;

/// The HTML of a Markdown document whose events are rendered as `pieces` says.
pub uninterp spec fn markdown_html(
    chunk: Seq<char>,
    tables: bool,
    strikethrough: bool,
    tasklists: bool,
    pieces: Seq<Piece<Seq<char>>>,
) -> Seq<char>;

/// `pulldown_cmark::Parser::new_ext`: the events of the document `chunk`, raw HTML told apart from
/// the rest. The contract says that they are a function of the text and the extensions.
#[verifier::external_body]
fn read_events(chunk: &str, tables: bool, strikethrough: bool, tasklists: bool) -> (r: Vec<
    MdEvent<String>,
>)
    ensures
        event_views(r@) == markdown_events(chunk@, tables, strikethrough, tasklists),
{
    let mut options = Options::empty();
    options.set(Options::ENABLE_TABLES, tables);
    options.set(Options::ENABLE_STRIKETHROUGH, strikethrough);
    options.set(Options::ENABLE_TASKLISTS, tasklists);
    let kind = |e| match e {
        Event::Html(h) => MdEvent::Html(h.into_string()),
        Event::InlineHtml(h) => MdEvent::InlineHtml(h.into_string()),
        _ => MdEvent::Other,
    };
    Parser::new_ext(chunk, options).map(kind).collect()
}

/// `pulldown_cmark::html::push_html`: the HTML of the document `chunk`, with each event rendered
/// as itself or as a text, as its piece says. Only raw HTML may be rendered as a text. The
/// contract says that the HTML is a function of the text, the extensions and the pieces.
#[verifier::external_body]
fn write_html(
    chunk: &str,
    tables: bool,
    strikethrough: bool,
    tasklists: bool,
    pieces: &Vec<Piece<String>>,
) -> (r: String)
    requires
        pieces@.len() == markdown_events(chunk@, tables, strikethrough, tasklists).len(),
        forall|i: int|
            0 <= i < pieces@.len() && #[trigger] pieces@[i] is Text ==> !(markdown_events(
                chunk@,
                tables,
                strikethrough,
                tasklists,
            )[i] is Other),
    ensures
        r@ == markdown_html(chunk@, tables, strikethrough, tasklists, piece_views(pieces@)),
{
    let mut options = Options::empty();
    options.set(Options::ENABLE_TABLES, tables);
    options.set(Options::ENABLE_STRIKETHROUGH, strikethrough);
    options.set(Options::ENABLE_TASKLISTS, tasklists);
    let rendered = |(e, p)| match p {
        &Piece::Text(ref t) => Event::Text(String::clone(t).into()),
        &Piece::Keep => e,
    };
    let mut out = String::new();
    html::push_html(&mut out, Parser::new_ext(chunk, options).zip(pieces).map(rendered));
    out
}

/// Raw HTML is rendered as the text that it is; all else is rendered as it stands.
pub open spec fn neutral(e: MdEvent<Seq<char>>) -> Piece<Seq<char>> {
    match e {
        MdEvent::Html(h) => Piece::Text(h),
        MdEvent::InlineHtml(h) => Piece::Text(h),
        MdEvent::Other => Piece::Keep,
    }
}

/// What the events of a response are rendered as.
pub open spec fn neutralized(events: Seq<MdEvent<Seq<char>>>) -> Seq<Piece<Seq<char>>> {
    events.map_values(|e: MdEvent<Seq<char>>| neutral(e))
}

/// The HTML of a stretch of Markdown, read with tables, strikethrough and task lists.
pub open spec fn chunk_html(chunk: Seq<char>) -> Seq<char> {
    markdown_html(
        chunk,
        true,
        true,
        true,
        neutralized(markdown_events(chunk, true, true, true)),
    )
}

pub open spec fn escaped_char(c: char) -> Seq<char> {
    if c == '&' {
        "&amp;"@
    } else if c == '<' {
        "&lt;"@
    } else if c == '>' {
        "&gt;"@
    } else if c == '"' {
        "&quot;"@
    } else {
        seq![c]
    }
}

/// `s` with the characters that have a meaning in HTML written as entities.
pub open spec fn escaped(s: Seq<char>) -> Seq<char>
    decreases s.len(),
{
    if s.len() == 0 {
        Seq::empty()
    } else {
        escaped(s.drop_last()) + escaped_char(s.last())
    }
}

/// The character that encloses a question in a transcript, as a text.
pub open spec fn separator() -> Seq<char> {
    "\u{1e}"@
}

/// The HTML of the part at position `i` of a transcript: a question at an odd position, Markdown
/// at an even one.
pub open spec fn part_html(part: Seq<char>, i: int) -> Seq<char> {
    if i % 2 == 1 {
        "<p class=\"ask\">"@ + escaped(part) + "</p>\n"@
    } else if part.len() == 0 {
        Seq::empty()
    } else {
        chunk_html(part)
    }
}

/// The HTML of the parts of a transcript, one after another.
pub open spec fn parts_html(parts: Seq<Seq<char>>) -> Seq<char>
    decreases parts.len(),
{
    if parts.len() == 0 {
        Seq::empty()
    } else {
        parts_html(parts.drop_last()) + part_html(parts.last(), parts.len() - 1)
    }
}

/// The HTML of a transcript: Markdown, with the questions between separators.
pub open spec fn transcript_html(text: Seq<char>) -> Seq<char> {
    parts_html(split(text, separator()))
}

/// `s` with the characters that have a meaning in HTML written as entities.
pub fn html_escape(s: &str) -> (r: String)
    ensures
        r@ == escaped(s@),
{
    let v = chars_of(s);
    let mut out = String::new();
    let mut i: usize = 0;
    while i < v.len()
        invariant
            i <= v.len(),
            out@ == escaped(v@.take(i as int)),
        decreases v.len() - i,
    {
        let c = v[i];
        assert(v@.take(i + 1).drop_last() == v@.take(i as int));
        let ghost done = out@;
        if c == '&' {
            out.append("&amp;");
        } else if c == '<' {
            out.append("&lt;");
        } else if c == '>' {
            out.append("&gt;");
        } else if c == '"' {
            out.append("&quot;");
        } else {
            out.push(c);
            assert(out@ =~= done + seq![c]);
        }
        i += 1;
    }
    assert(v@.take(v@.len() as int) == v@);
    out
}

/// What the events of a response are rendered as: raw HTML as the text that it is.
pub fn neutralize(events: Vec<MdEvent<String>>) -> (r: Vec<Piece<String>>)
    ensures
        piece_views(r@) == neutralized(event_views(events@)),
{
    let mut out: Vec<Piece<String>> = Vec::new();
    let ghost all = neutralized(event_views(events@));
    let n: usize = events.len();
    let mut i: usize = 0;
    while i < n
        invariant
            i <= n,
            n == events.len(),
            all == neutralized(event_views(events@)),
            piece_views(out@) == all.take(i as int),
        decreases n - i,
    {
        let ghost done = piece_views(out@);
        let p: Piece<String> = match &events[i] {
            MdEvent::Html(h) => Piece::Text(h.clone()),
            MdEvent::InlineHtml(h) => Piece::Text(h.clone()),
            MdEvent::Other => Piece::Keep,
        };
        assert(all[i as int] == neutral(events@[i as int]@));
        assert(p@ == all[i as int]);
        out.push(p);
        assert(piece_views(out@) =~= done.push(all[i as int]));
        i += 1;
        assert(all.take(i as int) =~= all.take(i - 1).push(all[i - 1]));
    }
    assert(all.take(all.len() as int) =~= all);
    out
}

fn md_chunk(chunk: &str) -> (r: String)
    ensures
        r@ == chunk_html(chunk@),
{
    let events = read_events(chunk, true, true, true);
    let ghost seen = event_views(events@);
    let pieces = neutralize(events);
    proof {
        let shown = piece_views(pieces@);
        assert(shown.len() == seen.len());
        assert forall|i: int| 0 <= i < pieces@.len() && #[trigger] pieces@[i] is Text implies !(
        seen[i] is Other) by {
            assert(shown[i] == pieces@[i]@);
            assert(shown[i] == neutral(seen[i]));
        }
    }
    write_html(chunk, true, true, true, &pieces)
}

/// Markdown to HTML. Raw HTML in a response is neutralized to text: the page can call back, so the
/// response must stay inert markup. Questions stand between U+001E separators in the transcript
/// and are shown as muted lines.
pub fn md_html(text: &str) -> (r: String)
    ensures
        r@ == transcript_html(text@),
{
    proof {
        reveal_strlit("\u{1e}");
    }
    let parts = split_str(text, "\u{1e}");
    let ghost all = views(parts@);
    let mut out = String::new();
    let mut odd: bool = false;
    let mut i: usize = 0;
    while i < parts.len()
        invariant
            i <= parts.len(),
            all == views(parts@),
            odd == (i % 2 == 1),
            out@ == parts_html(all.take(i as int)),
        decreases parts.len() - i,
    {
        let part = parts[i].as_str();
        assert(part@ == all[i as int]);
        assert(all.take(i + 1).drop_last() == all.take(i as int));
        let ghost done = out@;
        if odd {
            out.append("<p class=\"ask\">");
            out.append(html_escape(part).as_str());
            out.append("</p>\n");
            assert(out@ =~= done + part_html(part@, i as int));
        } else if !part.is_empty() {
            out.append(md_chunk(part).as_str());
        } else {
            assert(done + Seq::<char>::empty() =~= done);
        }
        odd = !odd;
        i += 1;
    }
    assert(all.take(all.len() as int) == all);
    out
}

/// No raw HTML of a response is rendered as HTML: each such event is rendered as its own text, and
/// every other event as itself.
pub proof fn law_raw_html_is_shown_as_text(events: Seq<MdEvent<Seq<char>>>, i: int)
    requires
        0 <= i < events.len(),
    ensures
        neutralized(events).len() == events.len(),
        neutralized(events)[i] == match events[i] {
            MdEvent::Html(h) => Piece::Text(h),
            MdEvent::InlineHtml(h) => Piece::Text(h),
            MdEvent::Other => Piece::Keep,
        },
{
}

/// A question can't open or close a tag or leave an attribute: its HTML has no angle bracket and
/// no quotation mark.
pub proof fn law_escaped_text_has_no_markup(s: Seq<char>)
    ensures
        forall|i: int|
            0 <= i < escaped(s).len() ==> #[trigger] escaped(s)[i] != '<' && escaped(s)[i] != '>'
                && escaped(s)[i] != '"',
    decreases s.len(),
{
    reveal_strlit("&amp;");
    reveal_strlit("&lt;");
    reveal_strlit("&gt;");
    reveal_strlit("&quot;");
    if s.len() > 0 {
        law_escaped_text_has_no_markup(s.drop_last());
        let head = escaped(s.drop_last());
        let tail = escaped_char(s.last());
        assert forall|i: int| 0 <= i < escaped(s).len() implies #[trigger] escaped(s)[i] != '<'
            && escaped(s)[i] != '>' && escaped(s)[i] != '"' by {
            if i < head.len() {
                assert(escaped(s)[i] == head[i]);
            } else {
                assert(escaped(s)[i] == tail[i - head.len()]);
            }
        }
    }
}

/// Escaping goes character by character: the HTML of two texts put together is their HTML put
/// together.
pub proof fn law_escaping_goes_by_characters(a: Seq<char>, b: Seq<char>)
    ensures
        escaped(a + b) == escaped(a) + escaped(b),
    decreases b.len(),
{
    if b.len() == 0 {
        assert(a + b =~= a);
        assert(escaped(a) + escaped(b) =~= escaped(a));
    } else {
        law_escaping_goes_by_characters(a, b.drop_last());
        assert((a + b).drop_last() =~= a + b.drop_last());
        assert(escaped(a + b) =~= escaped(a) + escaped(b));
    }
}

/// One of the entities that escaping writes stands at position `i`.
pub open spec fn entity_at(s: Seq<char>, i: int) -> bool {
    matches_at(s, "&amp;"@, i) || matches_at(s, "&lt;"@, i) || matches_at(s, "&gt;"@, i)
        || matches_at(s, "&quot;"@, i)
}

/// A text with its entities read as the characters that they stand for.
pub open spec fn unescaped(s: Seq<char>) -> Seq<char>
    decreases s.len(),
{
    if s.len() == 0 {
        Seq::empty()
    } else if starts_with(s, "&amp;"@) {
        seq!['&'] + unescaped(rest(s, 5))
    } else if starts_with(s, "&lt;"@) {
        seq!['<'] + unescaped(rest(s, 4))
    } else if starts_with(s, "&gt;"@) {
        seq!['>'] + unescaped(rest(s, 4))
    } else if starts_with(s, "&quot;"@) {
        seq!['"'] + unescaped(rest(s, 6))
    } else {
        seq![s[0]] + unescaped(s.drop_first())
    }
}

proof fn lemma_escaped_front(s: Seq<char>)
    requires
        s.len() > 0,
    ensures
        escaped(s) == escaped_char(s[0]) + escaped(s.drop_first()),
{
    law_escaping_goes_by_characters(s.take(1), s.skip(1));
    assert(s.take(1) + s.skip(1) =~= s);
    assert(s.take(1).drop_last() =~= Seq::empty());
    assert(escaped(Seq::empty()) =~= Seq::<char>::empty());
    assert(escaped(s.take(1)) =~= escaped_char(s[0]));
    assert(s.skip(1) =~= s.drop_first());
}

/// An ampersand in escaped text always starts an entity, and reading the entities gives the text
/// back.
pub proof fn law_escaped_text_reads_back(s: Seq<char>)
    ensures
        forall|i: int|
            0 <= i < escaped(s).len() && #[trigger] escaped(s)[i] == '&' ==> entity_at(escaped(s), i),
        unescaped(escaped(s)) == s,
    decreases s.len(),
{
    reveal_strlit("&amp;");
    reveal_strlit("&lt;");
    reveal_strlit("&gt;");
    reveal_strlit("&quot;");
    if s.len() > 0 {
        let behind = s.drop_first();
        let head = escaped_char(s[0]);
        let tail = escaped(behind);
        let all = escaped(s);
        law_escaped_text_reads_back(behind);
        lemma_escaped_front(s);
        assert(all == head + tail);
        assert(all.subrange(0, head.len() as int) =~= head);
        assert(rest(all, head.len()) =~= tail);
        assert forall|i: int| 0 <= i < all.len() && #[trigger] all[i] == '&' implies entity_at(
            all,
            i,
        ) by {
            if i < head.len() {
                assert(head[i] == '&');
                assert(i == 0);
            } else {
                let k = i - head.len();
                assert(tail[k] == '&');
                assert(entity_at(tail, k));
                lemma_matches_behind(head, tail, "&amp;"@, k);
                lemma_matches_behind(head, tail, "&lt;"@, k);
                lemma_matches_behind(head, tail, "&gt;"@, k);
                lemma_matches_behind(head, tail, "&quot;"@, k);
            }
        }
        if !(s[0] == '&' || s[0] == '<' || s[0] == '>' || s[0] == '"') {
            assert(all[0] == s[0]);
            assert(all.drop_first() =~= tail);
            assert forall|p: Seq<char>| p.len() > 0 && p[0] == '&' implies !(#[trigger] starts_with(
                all,
                p,
            )) by {
                if starts_with(all, p) {
                    assert(all.subrange(0, p.len() as int)[0] == all[0]);
                }
            }
        } else {
            assert(starts_with(all, head));
            lemma_entities_apart(all, head);
            assert("&lt;"@[1] != "&gt;"@[1]);
        }
        assert(unescaped(all) =~= seq![s[0]] + unescaped(tail));
        assert(seq![s[0]] + behind =~= s);
    }
}

proof fn lemma_matches_behind(head: Seq<char>, tail: Seq<char>, pat: Seq<char>, i: int)
    ensures
        matches_at(tail, pat, i) ==> matches_at(head + tail, pat, head.len() + i),
{
    if matches_at(tail, pat, i) {
        assert((head + tail).subrange(head.len() + i, head.len() + i + pat.len())
            =~= tail.subrange(i, i + pat.len()));
    }
}

/// A text that starts with one entity starts with no other.
proof fn lemma_entities_apart(s: Seq<char>, head: Seq<char>)
    requires
        starts_with(s, head),
        head == "&amp;"@ || head == "&lt;"@ || head == "&gt;"@ || head == "&quot;"@,
    ensures
        starts_with(s, "&amp;"@) ==> head == "&amp;"@,
        starts_with(s, "&lt;"@) ==> head == "&lt;"@,
        starts_with(s, "&gt;"@) ==> head == "&gt;"@,
        starts_with(s, "&quot;"@) ==> head == "&quot;"@,
{
    reveal_strlit("&amp;");
    reveal_strlit("&lt;");
    reveal_strlit("&gt;");
    reveal_strlit("&quot;");
    assert(s.subrange(0, head.len() as int)[1] == s[1]);
    if starts_with(s, "&amp;"@) {
        assert(s.subrange(0, 5)[1] == s[1]);
    }
    if starts_with(s, "&lt;"@) {
        assert(s.subrange(0, 4)[1] == s[1]);
    }
    if starts_with(s, "&gt;"@) {
        assert(s.subrange(0, 4)[1] == s[1]);
    }
    if starts_with(s, "&quot;"@) {
        assert(s.subrange(0, 6)[1] == s[1]);
    }
}

/// The HTML of parts one behind the other, where the first ones are even in number.
proof fn lemma_parts_html(a: Seq<Seq<char>>, b: Seq<Seq<char>>)
    requires
        a.len() % 2 == 0,
    ensures
        parts_html(a + b) == parts_html(a) + parts_html(b),
    decreases b.len(),
{
    if b.len() == 0 {
        assert(a + b =~= a);
        assert(parts_html(a) + parts_html(b) =~= parts_html(a));
    } else {
        lemma_parts_html(a, b.drop_last());
        assert((a + b).drop_last() =~= a + b.drop_last());
        assert((a + b).last() == b.last());
        assert(((a + b).len() - 1) % 2 == (b.len() - 1) % 2);
        assert(parts_html(a + b) =~= parts_html(a) + parts_html(b));
    }
}

/// A transcript without questions is Markdown as a whole, read with tables, strikethrough and task
/// lists; nothing gives nothing.
pub proof fn law_a_response_is_markdown(text: Seq<char>)
    requires
        !text.contains('\u{1e}'),
    ensures
        text.len() == 0 ==> transcript_html(text).len() == 0,
        text.len() > 0 ==> transcript_html(text) == markdown_html(
            text,
            true,
            true,
            true,
            markdown_events(text, true, true, true).map_values(
                |e: MdEvent<Seq<char>>|
                    match e {
                        MdEvent::Html(h) => Piece::Text(h),
                        MdEvent::InlineHtml(h) => Piece::Text(h),
                        MdEvent::Other => Piece::Keep,
                    },
            ),
        ),
{
    let parts = split(text, separator());
    lemma_no_separator(text);
    assert(parts =~= seq![text]);
    assert(parts.drop_last() =~= Seq::empty());
    assert(parts_html(Seq::empty()) =~= Seq::<char>::empty());
    assert(parts_html(parts) =~= part_html(text, 0));
    let events = markdown_events(text, true, true, true);
    assert(neutralized(events) =~= events.map_values(
        |e: MdEvent<Seq<char>>|
            match e {
                MdEvent::Html(h) => Piece::Text(h),
                MdEvent::InlineHtml(h) => Piece::Text(h),
                MdEvent::Other => Piece::Keep,
            },
    ));
}

proof fn lemma_no_separator(text: Seq<char>)
    requires
        !text.contains('\u{1e}'),
    ensures
        split(text, separator()) == seq![text],
{
    reveal_strlit("\u{1e}");
    lemma_find_from(text, separator(), 0);
    if let Some(i) = find(text, separator()) {
        assert(text.subrange(i, i + 1)[0] == text[i]);
        assert(text[i] == '\u{1e}');
    }
}

proof fn lemma_first_separator(a: Seq<char>, b: Seq<char>)
    requires
        !a.contains('\u{1e}'),
    ensures
        split(a + separator() + b, separator()) == seq![a] + split(b, separator()),
{
    reveal_strlit("\u{1e}");
    let all = a + separator() + b;
    let n = a.len() as int;
    lemma_find_from(all, separator(), 0);
    assert(all.subrange(n, n + 1) =~= separator());
    assert(matches_at(all, separator(), n));
    let i = find(all, separator())->0;
    if i < n {
        assert(all.subrange(i, i + 1)[0] == all[i]);
        assert(a[i] == '\u{1e}');
    }
    assert(all.take(n) =~= a);
    assert(all.skip(n + 1) =~= b);
}

/// A question between separators is shown as a line of its own, escaped and not read as Markdown;
/// what stands before it and what stands behind it are shown as if they stood alone.
pub proof fn law_a_question_is_a_line_of_its_own(before: Seq<char>, q: Seq<char>, behind: Seq<char>)
    requires
        !before.contains('\u{1e}'),
        !q.contains('\u{1e}'),
    ensures
        transcript_html(before + separator() + (q + separator() + behind)) == transcript_html(before)
            + ("<p class=\"ask\">"@ + escaped(q) + "</p>\n"@) + transcript_html(behind),
        separator() == seq!['\u{1e}'],
{
    reveal_strlit("\u{1e}");
    assert(separator() =~= seq!['\u{1e}']);
    lemma_first_separator(before, q + separator() + behind);
    lemma_first_separator(q, behind);
    lemma_no_separator(before);
    let first = seq![before] + seq![q];
    let others = split(behind, separator());
    assert(seq![before] + (seq![q] + others) =~= first + others);
    lemma_parts_html(first, others);
    assert(first.drop_last() =~= seq![before]);
    assert(parts_html(first) == parts_html(seq![before]) + part_html(q, 1));
}

} // verus!
