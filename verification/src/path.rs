//! Windows paths: the name of the file that a path ends in.
use crate::text::{chars_of, opt_view, rest, same, string_of};
use vstd::prelude::*;

verus! {

/// The character separates the parts of a path; in a verbatim path only the backslash does.
pub open spec fn separates(c: char, verbatim: bool) -> bool {
    c == '\\' || (c == '/' && !verbatim)
}

/// The path is passed on to the file system as it stands.
pub open spec fn is_verbatim(path: Seq<char>) -> bool {
    path.len() >= 4 && path[0] == '\\' && path[1] == '\\' && path[2] == '?' && path[3] == '\\'
}

/// The path starts with a drive.
pub open spec fn has_drive(path: Seq<char>) -> bool {
    path.len() >= 2 && ('a' <= path[0] <= 'z' || 'A' <= path[0] <= 'Z') && path[1] == ':'
}

/// The length of the first part of a path.
pub open spec fn part_len(path: Seq<char>, verbatim: bool) -> nat
    decreases path.len(),
{
    if path.len() == 0 || separates(path[0], verbatim) {
        0
    } else {
        1 + part_len(path.drop_first(), verbatim)
    }
}

/// The length of the second part of a path.
pub open spec fn second_len(path: Seq<char>, verbatim: bool) -> nat {
    part_len(rest(path, part_len(path, verbatim) + 1), verbatim)
}

/// The length of what stands before the directories: a drive, a server and its share, a device.
pub open spec fn prefix_len(path: Seq<char>) -> nat {
    let shared = path.len() >= 2 && separates(path[0], false) && separates(path[1], false);
    if is_verbatim(path) {
        let inner = path.skip(4);
        if inner.len() >= 4 && inner[0] == 'U' && inner[1] == 'N' && inner[2] == 'C' && separates(
            inner[3],
            false,
        ) {
            let server = part_len(inner.skip(4), true);
            let share = second_len(inner.skip(4), true);
            8 + server + if share > 0 {
                1 + share
            } else {
                0
            }
        } else if has_drive(inner) && (inner.len() == 2 || separates(inner[2], false)) {
            6
        } else {
            4 + part_len(inner, true)
        }
    } else if shared && path.len() >= 4 && path[2] == '.' && separates(path[3], false) {
        4 + part_len(path.skip(4), false)
    } else if shared {
        let server = part_len(path.skip(2), false);
        let share = second_len(path.skip(2), false);
        if server > 0 && share > 0 {
            2 + server + 1 + share
        } else {
            0
        }
    } else if has_drive(path) {
        2
    } else {
        0
    }
}

/// The path without its prefix and its root.
pub open spec fn body(path: Seq<char>) -> Seq<char> {
    let s = rest(path, prefix_len(path));
    if s.len() > 0 && separates(s[0], false) {
        s.drop_first()
    } else {
        s
    }
}

/// The last position of a separator, or -1.
pub open spec fn last_separator(s: Seq<char>, verbatim: bool) -> int
    decreases s.len(),
{
    if s.len() == 0 {
        -1
    } else if separates(s.last(), verbatim) {
        s.len() - 1
    } else {
        last_separator(s.drop_last(), verbatim)
    }
}

/// The last part of a path; empty parts, and dots in a path that is not verbatim, do not count
/// where another part stands before them.
pub open spec fn last_part(s: Seq<char>, verbatim: bool) -> Seq<char>
    decreases s.len(),
{
    let i = last_separator(s, verbatim);
    let part = s.skip(i + 1);
    if 0 <= i < s.len() && (part.len() == 0 || (part == "."@ && !verbatim)) {
        last_part(s.take(i), verbatim)
    } else {
        part
    }
}

/// The last position of a dot, or -1.
pub open spec fn last_dot(s: Seq<char>) -> int
    decreases s.len(),
{
    if s.len() == 0 {
        -1
    } else if s.last() == '.' {
        s.len() - 1
    } else {
        last_dot(s.drop_last())
    }
}

/// A name without its extension. A dot at the start of a name begins no extension.
pub open spec fn without_extension(name: Seq<char>) -> Seq<char> {
    let dot = last_dot(name);
    if dot <= 0 {
        name
    } else {
        name.take(dot)
    }
}

/// The name of the file that a path ends in, without its extension; none where the path is a mere
/// prefix or ends in a directory that is given by dots.
pub open spec fn stem_of(path: Seq<char>) -> Option<Seq<char>> {
    let name = last_part(body(path), is_verbatim(path));
    if name.len() == 0 || name == "."@ || name == ".."@ {
        None
    } else {
        Some(without_extension(name))
    }
}

fn is_separator(c: char, verbatim: bool) -> (r: bool)
    ensures
        r == separates(c, verbatim),
{
    c == '\\' || (c == '/' && !verbatim)
}

fn starts_with_drive(v: &Vec<char>, from: usize) -> (r: bool)
    requires
        from <= v@.len(),
    ensures
        r == has_drive(v@.skip(from as int)),
{
    v.len() - from >= 2 && (('a' <= v[from] && v[from] <= 'z') || ('A' <= v[from] && v[from]
        <= 'Z')) && v[from + 1] == ':'
}

/// Where the part that starts at `from` ends.
fn part_end(v: &Vec<char>, from: usize, verbatim: bool) -> (r: usize)
    requires
        from <= v@.len(),
    ensures
        r == from + part_len(v@.skip(from as int), verbatim),
        r <= v@.len(),
{
    let mut i: usize = from;
    while i < v.len() && !is_separator(v[i], verbatim)
        invariant
            from <= i <= v@.len(),
            part_len(v@.skip(from as int), verbatim) == i - from + part_len(
                v@.skip(i as int),
                verbatim,
            ),
        decreases v.len() - i,
    {
        assert(v@.skip(i as int).drop_first() =~= v@.skip(i + 1));
        i += 1;
    }
    i
}

/// Where the two parts that start at `from` end, the second of which may be missing.
fn parts_end(v: &Vec<char>, from: usize, verbatim: bool) -> (r: (usize, usize))
    requires
        from <= v@.len(),
    ensures
        r.0 == from + part_len(v@.skip(from as int), verbatim),
        second_len(v@.skip(from as int), verbatim) == if r.1 > r.0 {
            r.1 - r.0 - 1
        } else {
            0
        },
        r.0 <= r.1 <= v@.len(),
{
    let first: usize = part_end(v, from, verbatim);
    let ghost s = v@.skip(from as int);
    let ghost n = part_len(s, verbatim);
    if first < v.len() {
        assert(rest(s, n + 1) =~= v@.skip(first + 1));
        (first, part_end(v, first + 1, verbatim))
    } else {
        assert(rest(s, n + 1) =~= Seq::empty());
        (first, first)
    }
}

fn starts_verbatim(v: &Vec<char>) -> (r: bool)
    ensures
        r == is_verbatim(v@),
{
    v.len() >= 4 && v[0] == '\\' && v[1] == '\\' && v[2] == '?' && v[3] == '\\'
}

fn prefix_end(v: &Vec<char>) -> (r: usize)
    ensures
        r == prefix_len(v@),
        r <= v@.len(),
{
    let n: usize = v.len();
    let shared: bool = n >= 2 && is_separator(v[0], false) && is_separator(v[1], false);
    assert(v@.skip(0) =~= v@);
    if starts_verbatim(v) {
        let ghost inner = v@.skip(4);
        if n >= 8 && v[4] == 'U' && v[5] == 'N' && v[6] == 'C' && is_separator(v[7], false) {
            assert(inner.skip(4) =~= v@.skip(8));
            let (server, share) = parts_end(v, 8, true);
            if share - server > 1 {
                share
            } else {
                server
            }
        } else if starts_with_drive(v, 4) && (n == 6 || is_separator(v[6], false)) {
            6
        } else {
            part_end(v, 4, true)
        }
    } else if shared && n >= 4 && v[2] == '.' && is_separator(v[3], false) {
        part_end(v, 4, false)
    } else if shared {
        let (server, share) = parts_end(v, 2, false);
        if server > 2 && share - server > 1 {
            share
        } else {
            0
        }
    } else if starts_with_drive(v, 0) {
        2
    } else {
        0
    }
}

/// Where the last part of the text from `from` to `to` starts.
fn part_start(v: &Vec<char>, from: usize, to: usize, verbatim: bool) -> (r: usize)
    requires
        from <= to <= v@.len(),
    ensures
        from <= r <= to,
        r == from + last_separator(v@.subrange(from as int, to as int), verbatim) + 1,
{
    let ghost s = v@.subrange(from as int, to as int);
    let mut i: usize = to;
    while i > from && !is_separator(v[i - 1], verbatim)
        invariant
            from <= i <= to <= v@.len(),
            s == v@.subrange(from as int, to as int),
            last_separator(s, verbatim) == last_separator(
                v@.subrange(from as int, i as int),
                verbatim,
            ),
        decreases i,
    {
        let ghost t = v@.subrange(from as int, i as int);
        assert(t.drop_last() =~= v@.subrange(from as int, i - 1));
        assert(t.last() == v@[i - 1]);
        i -= 1;
    }
    let ghost t = v@.subrange(from as int, i as int);
    if i > from {
        assert(t.last() == v@[i - 1]);
    }
    i
}

/// The last part of the text from `from` on.
fn last_name(v: &Vec<char>, from: usize, verbatim: bool) -> (r: String)
    requires
        from <= v@.len(),
    ensures
        r@ == last_part(v@.skip(from as int), verbatim),
{
    let ghost s = v@.skip(from as int);
    let mut to: usize = v.len();
    assert(s =~= v@.subrange(from as int, to as int));
    loop
        invariant
            from <= to <= v@.len(),
            s == v@.skip(from as int),
            last_part(s, verbatim) == last_part(v@.subrange(from as int, to as int), verbatim),
        decreases to,
    {
        let start: usize = part_start(v, from, to, verbatim);
        let name = string_of(v, start, to);
        let ghost t = v@.subrange(from as int, to as int);
        assert(t.skip(start - from) =~= name@);
        let idle = name.as_str().is_empty() || (same(name.as_str(), ".") && !verbatim);
        if start == from || !idle {
            return name;
        }
        assert(t.take(start - from - 1) =~= v@.subrange(from as int, start - 1));
        to = start - 1;
    }
}

fn cut_extension(name: String) -> (r: String)
    ensures
        r@ == without_extension(name@),
{
    let chars = chars_of(name.as_str());
    assert(name@.take(name@.len() as int) =~= name@);
    let mut i: usize = chars.len();
    while i > 0
        invariant
            i <= chars@.len(),
            chars@ == name@,
            last_dot(name@) == last_dot(name@.take(i as int)),
        decreases i,
    {
        assert(name@.take(i as int).drop_last() =~= name@.take(i - 1));
        i -= 1;
        if chars[i] == '.' {
            if i == 0 {
                return name;
            }
            assert(chars@.subrange(0, i as int) =~= name@.take(i as int));
            return string_of(&chars, 0, i);
        }
    }
    name
}

/// The name of the file that a path ends in, without its extension.
pub fn file_stem(path: &str) -> (r: Option<String>)
    ensures
        opt_view(r) == stem_of(path@),
{
    let v = chars_of(path);
    let prefix: usize = prefix_end(&v);
    assert(rest(v@, prefix as nat) =~= v@.skip(prefix as int));
    let start: usize = if prefix < v.len() && is_separator(v[prefix], false) {
        prefix + 1
    } else {
        prefix
    };
    assert(body(path@) =~= v@.skip(start as int));
    let name = last_name(&v, start, starts_verbatim(&v));
    if name.as_str().is_empty() || same(name.as_str(), ".") || same(name.as_str(), "..") {
        return None;
    }
    Some(cut_extension(name))
}

proof fn lemma_last_separator(a: Seq<char>, s: char, b: Seq<char>)
    requires
        separates(s, false),
        forall|i: int| 0 <= i < b.len() ==> !separates(#[trigger] b[i], false),
    ensures
        last_separator(a.push(s) + b, false) == a.len(),
    decreases b.len(),
{
    let all = a.push(s) + b;
    if b.len() == 0 {
        assert(all =~= a.push(s));
    } else {
        assert(all.last() == b[b.len() - 1]);
        assert(all.drop_last() =~= a.push(s) + b.drop_last());
        lemma_last_separator(a, s, b.drop_last());
    }
}

proof fn lemma_no_separator(b: Seq<char>)
    requires
        forall|i: int| 0 <= i < b.len() ==> !separates(#[trigger] b[i], false),
    ensures
        last_separator(b, false) == -1,
    decreases b.len(),
{
    if b.len() > 0 {
        assert(b.last() == b[b.len() - 1]);
        lemma_no_separator(b.drop_last());
    }
}

proof fn lemma_last_dot(a: Seq<char>, b: Seq<char>)
    requires
        forall|i: int| 0 <= i < b.len() ==> #[trigger] b[i] != '.',
    ensures
        last_dot(a.push('.') + b) == a.len(),
    decreases b.len(),
{
    let all = a.push('.') + b;
    if b.len() == 0 {
        assert(all =~= a.push('.'));
    } else {
        assert(all.last() == b[b.len() - 1]);
        assert(all.drop_last() =~= a.push('.') + b.drop_last());
        lemma_last_dot(a, b.drop_last());
    }
}

/// The stem of a program on a drive is its name, whatever directories it lies in and whatever its
/// extension is.
pub proof fn law_the_stem_of_a_program_is_its_name(
    drive: char,
    dirs: Seq<char>,
    sep: char,
    name: Seq<char>,
    extension: Seq<char>,
)
    requires
        'a' <= drive <= 'z' || 'A' <= drive <= 'Z',
        sep == '\\' || sep == '/',
        name.len() > 0,
        extension.len() > 0,
        forall|i: int|
            0 <= i < name.len() ==> #[trigger] name[i] != '\\' && name[i] != '/',
        forall|i: int|
            0 <= i < extension.len() ==> #[trigger] extension[i] != '\\' && extension[i] != '/'
                && extension[i] != '.',
    ensures
        stem_of(seq![drive, ':'] + dirs.push(sep) + (name.push('.') + extension)) == Some(name),
{
    reveal_strlit(".");
    reveal_strlit("..");
    let file = name.push('.') + extension;
    let path = seq![drive, ':'] + dirs.push(sep) + file;
    assert(path[0] == drive && path[1] == ':');
    let inner = dirs.push(sep) + file;
    assert(rest(path, 2) =~= inner);
    assert(prefix_len(path) == 2);
    assert(!is_verbatim(path));
    assert forall|i: int| 0 <= i < file.len() implies !separates(#[trigger] file[i], false) by {
        if i < name.len() {
            assert(file[i] == name[i]);
        } else if i > name.len() {
            assert(file[i] == extension[i - name.len() - 1]);
        }
    }
    lemma_last_dot(name, extension);
    assert(file.take(name.len() as int) =~= name);
    assert(file[file.len() - 1] == extension[extension.len() - 1]);
    assert(file != ".."@);
    if dirs.len() == 0 {
        assert(inner[0] == sep);
        assert(body(path) =~= file);
        lemma_no_separator(file);
        assert(file.skip(0) =~= file);
    } else {
        let d = if separates(dirs[0], false) {
            dirs.drop_first()
        } else {
            dirs
        };
        assert(inner[0] == dirs[0]);
        assert(body(path) =~= d.push(sep) + file);
        lemma_last_separator(d, sep, file);
        assert((d.push(sep) + file).skip(d.len() as int + 1) =~= file);
    }
    assert(last_part(body(path), false) == file);
}

} // verus!
