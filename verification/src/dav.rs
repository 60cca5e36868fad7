//! Backups of the settings on a WebDAV server.
use crate::http::{header, Failure, Method, Reply, Request, RequestView};
use crate::text::{
    before, before_str, decimal, decimal_str, digit, ends_with, ends_with_str, head_before,
    is_before, law_a_run_at_the_end_is_taken_off, law_numbers_read_back,
    law_split_pieces_make_up_the_text, law_the_first_difference_decides, lemma_before_total,
    lemma_before_transitive, number_of, padded, padded_str, same, split, split_str, starts_with, starts_with_str, trim_end_char,
    trim_end_matches, views,
};
use base64::Engine;
use vstd::prelude::*;
use vstd::string::StringExecFns;
use vstd::utf8::encode_utf8;

verus! {

/// A connection to a WebDAV server.
#[derive(Debug, PartialEq, Eq)]
pub struct Cred {
    pub url: String,
    pub user: String,
    pub pass: String,
}

pub struct CredView {
    pub url: Seq<char>,
    pub user: Seq<char>,
    pub pass: Seq<char>,
}

impl View for Cred {
    type V = CredView;

    open spec fn view(&self) -> CredView {
        CredView { url: self.url@, user: self.user@, pass: self.pass@ }
    }
}

/// What came of an operation on the server.
#[derive(Debug, PartialEq, Eq)]
pub enum Done {
    Backup(Result<(), String>),
    Restore(Result<String, String>),
    List(Result<Vec<String>, String>),
}

/// A local date and time.
#[derive(Debug, PartialEq, Eq, Clone, Copy)]
pub struct Clock {
    pub year: u16,
    pub month: u16,
    pub day: u16,
    pub hour: u16,
    pub minute: u16,
    pub second: u16,
}

/// The base64 digit of a number below 64.
pub open spec fn base64_digit(n: int) -> char {
    if n < 26 {
        (65 + n) as u8 as char
    } else if n < 52 {
        (71 + n) as u8 as char
    } else if n < 62 {
        (n - 4) as u8 as char
    } else if n == 62 {
        '+'
    } else {
        '/'
    }
}

/// The standard base64 encoding of some bytes, with padding: four digits for three bytes.
pub open spec fn base64_of(b: Seq<u8>) -> Seq<char>
    decreases b.len(),
{
    if b.len() == 0 {
        Seq::empty()
    } else {
        let b0 = b[0] as int;
        let b1 = if b.len() > 1 {
            b[1] as int
        } else {
            0
        };
        let b2 = if b.len() > 2 {
            b[2] as int
        } else {
            0
        };
        seq![
            base64_digit(b0 / 4),
            base64_digit(b0 % 4 * 16 + b1 / 16),
            if b.len() > 1 {
                base64_digit(b1 % 16 * 4 + b2 / 64)
            } else {
                '='
            },
            if b.len() > 2 {
                base64_digit(b2 % 64)
            } else {
                '='
            },
        ] + if b.len() > 3 {
            base64_of(b.skip(3))
        } else {
            Seq::empty()
        }
    }
}

/// The base64 encoding of the UTF-8 bytes of a text.
pub open spec fn base64_text(raw: Seq<char>) -> Seq<char> {
    base64_of(encode_utf8(raw))
}

/// `base64::engine::general_purpose::STANDARD.encode`: the base64 text of the bytes of `raw`, in
/// the standard alphabet and with padding.
#[verifier::external_body]
fn base64_encode(raw: &str) -> (r: String)
    ensures
        r@ == base64_text(raw@),
{
    base64::engine::general_purpose::STANDARD.encode(raw)
}

/// A url without the slashes at its end.
pub open spec fn folder_of(base: Seq<char>) -> Seq<char> {
    trim_end_char(base, '/')
}

/// The url names a single file.
pub open spec fn names_file(base: Seq<char>) -> bool {
    ends_with(folder_of(base), ".toml"@)
}

/// Date and time as `YYYYMMDD-HHMMSS`.
pub open spec fn stamp_text(c: Clock) -> Seq<char> {
    padded(c.year as nat, 4) + padded(c.month as nat, 2) + padded(c.day as nat, 2) + "-"@ + padded(
        c.hour as nat,
        2,
    ) + padded(c.minute as nat, 2) + padded(c.second as nat, 2)
}

/// The name of the backup made at `c`.
pub open spec fn backup_file(c: Clock) -> Seq<char> {
    "cue-settings-"@ + stamp_text(c) + ".toml"@
}

pub open spec fn auth_text(c: CredView) -> Seq<char> {
    "Basic "@ + base64_text(c.user + ":"@ + c.pass)
}

/// The place of the file `name` in the folder, or the url itself for the empty name.
pub open spec fn file_url(base: Seq<char>, name: Seq<char>) -> Seq<char> {
    if name.len() == 0 {
        folder_of(base)
    } else {
        folder_of(base) + "/"@ + name
    }
}

pub open spec fn put_request(c: CredView, body: Seq<char>, now: Clock) -> RequestView {
    RequestView {
        method: Method::Put,
        url: if names_file(c.url) {
            folder_of(c.url)
        } else {
            folder_of(c.url) + "/"@ + backup_file(now)
        },
        headers: seq![("Authorization"@, auth_text(c))],
        body: Some(body),
    }
}

pub open spec fn get_request(c: CredView, name: Seq<char>) -> RequestView {
    RequestView {
        method: Method::Get,
        url: file_url(c.url, name),
        headers: seq![("Authorization"@, auth_text(c))],
        body: None,
    }
}

pub open spec fn list_request(c: CredView) -> RequestView {
    RequestView {
        method: Method::Propfind,
        url: folder_of(c.url),
        headers: seq![("Authorization"@, auth_text(c)), ("Depth"@, "1"@)],
        body: None,
    }
}

pub open spec fn failure_text(f: Failure) -> Seq<char> {
    match f {
        Failure::Status(code, _) => "HTTP "@ + decimal(code as nat),
        Failure::Transport(e) => e@,
    }
}

/// The status is a success. 207 is the Multi-Status of PROPFIND; a redirect is no success, since
/// a redirected PUT would turn into a body-less GET.
pub open spec fn good_status(status: u16) -> bool {
    status < 300 || status == 207
}

pub open spec fn redirect_text(status: u16) -> Seq<char> {
    "HTTP "@ + decimal(status as nat) + " (redirect - check the url)"@
}

/// The body of an answer, or why there is none.
pub open spec fn reply_text(r: Reply) -> Result<Seq<char>, Seq<char>> {
    match r {
        Reply::Failed(f) => Err(failure_text(f)),
        Reply::Answer(status, body) => if !good_status(status) {
            Err(redirect_text(status))
        } else {
            match body {
                Ok(s) => Ok(s@),
                Err(e) => Err(e@),
            }
        },
    }
}

/// The backup that one piece of a folder listing names, the pieces being what follows each
/// `href>`: the last part of the path before the closing tag, where it looks like a backup.
pub open spec fn backup_in(piece: Seq<char>) -> Option<Seq<char>> {
    match head_before(piece, "</"@) {
        None => None,
        Some(href) => {
            let name = split(trim_end_char(href, '/'), "/"@).last();
            if starts_with(name, "cue-settings"@) && ends_with(name, ".toml"@) {
                Some(name)
            } else {
                None
            }
        },
    }
}

/// A folder listing names the backup `name`.
pub open spec fn listed(xml: Seq<char>, name: Seq<char>) -> bool {
    exists|i: int|
        0 <= i < split(xml, "href>"@).len() && #[trigger] backup_in(split(xml, "href>"@)[i])
            == Some(name)
}

/// Later texts come first, and none comes twice.
pub open spec fn newest_first(names: Seq<Seq<char>>) -> bool {
    forall|i: int, j: int| 0 <= i < j < names.len() ==> before(#[trigger] names[j], #[trigger] names[i])
}

/// A url ending in .toml is used verbatim (single-file mode); otherwise it is a folder holding
/// timestamped backups.
pub fn is_file_url(base: &str) -> (r: bool)
    ensures
        r == names_file(base@),
{
    ends_with_str(trim_end_matches(base, '/').as_str(), ".toml")
}

pub fn folder(base: &str) -> (r: String)
    ensures
        r@ == folder_of(base@),
{
    trim_end_matches(base, '/')
}

pub fn stamp(c: Clock) -> (r: String)
    ensures
        r@ == stamp_text(c),
{
    let mut s = padded_str(c.year as u64, 4);
    s.append(padded_str(c.month as u64, 2).as_str());
    s.append(padded_str(c.day as u64, 2).as_str());
    s.append("-");
    s.append(padded_str(c.hour as u64, 2).as_str());
    s.append(padded_str(c.minute as u64, 2).as_str());
    s.append(padded_str(c.second as u64, 2).as_str());
    s
}

/// The value of the `Authorization` header.
pub fn auth(c: &Cred) -> (r: String)
    ensures
        r@ == auth_text(c@),
{
    let mut raw = c.user.clone();
    raw.append(":");
    raw.append(c.pass.as_str());
    let mut s = "Basic ".to_owned();
    s.append(base64_encode(raw.as_str()).as_str());
    s
}

pub fn fmt_err(f: Failure) -> (r: String)
    ensures
        r@ == failure_text(f),
{
    match f {
        Failure::Status(code, _) => {
            let mut s = "HTTP ".to_owned();
            s.append(decimal_str(code as u64).as_str());
            s
        },
        Failure::Transport(e) => e,
    }
}

/// Redirects are not followed; they are errors.
pub fn check(status: u16) -> (r: Result<(), String>)
    ensures
        match r {
            Ok(_) => good_status(status),
            Err(e) => !good_status(status) && e@ == redirect_text(status),
        },
{
    if status >= 300 && status != 207 {
        let mut s = "HTTP ".to_owned();
        s.append(decimal_str(status as u64).as_str());
        s.append(" (redirect - check the url)");
        Err(s)
    } else {
        Ok(())
    }
}

fn authorized(c: &Cred) -> (r: Vec<(String, String)>)
    ensures
        crate::json::member_views(r@) == seq![("Authorization"@, auth_text(c@))],
{
    let mut v: Vec<(String, String)> = Vec::new();
    v.push(header("Authorization", auth(c)));
    v
}

/// The upload of a backup: to the url itself in single-file mode, else to a new file in the
/// folder that bears the time.
pub fn put(c: &Cred, body: String, now: Clock) -> (r: Request)
    ensures
        r@ == put_request(c@, body@, now),
{
    let mut url = folder(c.url.as_str());
    if !is_file_url(c.url.as_str()) {
        url.append("/cue-settings-");
        url.append(stamp(now).as_str());
        url.append(".toml");
        proof {
            reveal_strlit("/cue-settings-");
            reveal_strlit("/");
            reveal_strlit("cue-settings-");
            assert("/cue-settings-"@ =~= "/"@ + "cue-settings-"@);
            assert(url@ =~= folder_of(c.url@) + "/"@ + backup_file(now));
        }
    }
    Request { method: Method::Put, url, headers: authorized(c), body: Some(body) }
}

/// The download of the file `name`, or of the url itself for the empty name.
pub fn get(c: &Cred, name: &str) -> (r: Request)
    ensures
        r@ == get_request(c@, name@),
{
    let mut url = folder(c.url.as_str());
    if !name.is_empty() {
        url.append("/");
        url.append(name);
    }
    Request { method: Method::Get, url, headers: authorized(c), body: None }
}

/// The request for the listing of the folder.
pub fn list(c: &Cred) -> (r: Request)
    ensures
        r@ == list_request(c@),
{
    let mut headers = authorized(c);
    let ghost first = crate::json::member_views(headers@);
    headers.push(header("Depth", "1".to_owned()));
    let url = folder(c.url.as_str());
    assert(crate::json::member_views(headers@) =~= first.push(("Depth"@, "1"@)));
    assert(crate::json::member_views(headers@) =~= list_request(c@).headers);
    Request { method: Method::Propfind, url, headers, body: None }
}

/// The body that a request brought, or the error to show.
pub fn reply_body(reply: Reply) -> (r: Result<String, String>)
    ensures
        match r {
            Ok(s) => reply_text(reply) == Ok::<Seq<char>, Seq<char>>(s@),
            Err(e) => reply_text(reply) == Err::<Seq<char>, Seq<char>>(e@),
        },
{
    match reply {
        Reply::Failed(f) => Err(fmt_err(f)),
        Reply::Answer(status, body) => match check(status) {
            Err(e) => Err(e),
            Ok(_) => body,
        },
    }
}

/// What came of an upload; the body of the answer does not matter.
pub fn put_outcome(reply: Reply) -> (r: Result<(), String>)
    ensures
        match r {
            Ok(_) => reply matches Reply::Answer(status, _) && good_status(status),
            Err(e) => match reply {
                Reply::Failed(f) => e@ == failure_text(f),
                Reply::Answer(status, _) => !good_status(status) && e@ == redirect_text(status),
            },
        },
{
    match reply {
        Reply::Failed(f) => Err(fmt_err(f)),
        Reply::Answer(status, _) => check(status),
    }
}

fn backup_name(piece: &str) -> (r: Option<String>)
    ensures
        crate::text::opt_view(r) == backup_in(piece@),
{
    proof {
        reveal_strlit("</");
        reveal_strlit("/");
    }
    match before_str(piece, "</") {
        None => None,
        Some(href) => {
            let path = trim_end_matches(href.as_str(), '/');
            let mut parts = split_str(path.as_str(), "/");
            let ghost all = views(parts@);
            match parts.pop() {
                None => None,
                Some(name) => {
                    assert(all.last() == name@);
                    if starts_with_str(name.as_str(), "cue-settings") && ends_with_str(
                        name.as_str(),
                        ".toml",
                    ) {
                        Some(name)
                    } else {
                        None
                    }
                },
            }
        },
    }
}

/// Puts a name at its place in a list with the newest first, unless it is there already.
fn insert_name(names: &mut Vec<String>, name: String)
    requires
        newest_first(views(old(names)@)),
    ensures
        newest_first(views(final(names)@)),
        forall|n: Seq<char>|
            views(final(names)@).contains(n) <==> views(old(names)@).contains(n) || n == name@,
{
    let ghost old_names = views(names@);
    let mut i: usize = 0;
    while i < names.len() && is_before(name.as_str(), names[i].as_str())
        invariant
            i <= names.len(),
            views(names@) == old_names,
            forall|k: int| 0 <= k < i ==> before(name@, #[trigger] names@[k]@),
        decreases names.len() - i,
    {
        i += 1;
    }
    if i < names.len() && same(name.as_str(), names[i].as_str()) {
        assert(old_names[i as int] == name@);
        return;
    }
    let ghost n = name@;
    let ghost was = names@;
    proof {
        if i < names.len() {
            lemma_before_total(n, names@[i as int]@);
        }
        assert forall|k: int| i <= k < was.len() implies before(#[trigger] was[k]@, n) by {
            assert(old_names[k] == was[k]@);
            assert(old_names[i as int] == was[i as int]@);
            if k > i {
                lemma_before_transitive(was[k]@, was[i as int]@, n);
            }
        }
    }
    names.insert(i, name);
    proof {
        let now = views(names@);
        assert(names@ == was.insert(i as int, name));
        assert(now =~= old_names.insert(i as int, n));
        assert forall|a: int, b: int| 0 <= a < b < now.len() implies before(
            #[trigger] now[b],
            #[trigger] now[a],
        ) by {
            if a < i && b > i {
                assert(before(old_names[b - 1], old_names[a]));
            } else if a > i {
                assert(before(old_names[b - 1], old_names[a - 1]));
            } else if a == i {
                assert(now[b] == old_names[b - 1]);
                assert(was[b - 1]@ == old_names[b - 1]);
            } else if b == i {
                assert(was[a]@ == old_names[a]);
            }
        }
        assert forall|m: Seq<char>| now.contains(m) <==> old_names.contains(m) || m == n by {
            if old_names.contains(m) {
                let k = choose|k: int| 0 <= k < old_names.len() && old_names[k] == m;
                if k < i {
                    assert(now[k] == m);
                } else {
                    assert(now[k + 1] == m);
                }
            }
            if m == n {
                assert(now[i as int] == m);
            }
            if now.contains(m) && m != n {
                let k = choose|k: int| 0 <= k < now.len() && now[k] == m;
                if k < i {
                    assert(old_names[k] == m);
                } else {
                    assert(old_names[k - 1] == m);
                }
            }
        }
    }
}

/// The backups that a folder listing names, newest first, each once.
pub fn backup_names(xml: &str) -> (r: Vec<String>)
    ensures
        newest_first(views(r@)),
        forall|n: Seq<char>| views(r@).contains(n) <==> listed(xml@, n),
{
    proof {
        reveal_strlit("href>");
    }
    let pieces = split_str(xml, "href>");
    let mut names: Vec<String> = Vec::new();
    let mut i: usize = 0;
    let ghost all = split(xml@, "href>"@);
    while i < pieces.len()
        invariant
            i <= pieces.len(),
            all == views(pieces@),
            newest_first(views(names@)),
            forall|n: Seq<char>|
                views(names@).contains(n) <==> exists|k: int|
                    0 <= k < i && #[trigger] backup_in(all[k]) == Some(n),
        decreases pieces.len() - i,
    {
        let ghost was = views(names@);
        assert(all[i as int] == pieces@[i as int]@);
        if let Some(name) = backup_name(pieces[i].as_str()) {
            let ghost n0 = name@;
            insert_name(&mut names, name);
            proof {
                assert forall|n: Seq<char>| views(names@).contains(n) <==> exists|k: int|
                    0 <= k < i + 1 && #[trigger] backup_in(all[k]) == Some(n) by {
                    if n == n0 {
                        assert(backup_in(all[i as int]) == Some(n));
                    }
                }
            }
        }
        i += 1;
    }
    names
}

/// Every field of the date and time is in its range.
pub open spec fn valid_clock(c: Clock) -> bool {
    c.year < 10000 && c.month < 100 && c.day < 100 && c.hour < 100 && c.minute < 100 && c.second
        < 100
}

/// `a` lies before `b` in time.
pub open spec fn earlier(a: Clock, b: Clock) -> bool {
    ||| a.year < b.year
    ||| a.year == b.year && a.month < b.month
    ||| a.year == b.year && a.month == b.month && a.day < b.day
    ||| a.year == b.year && a.month == b.month && a.day == b.day && a.hour < b.hour
    ||| a.year == b.year && a.month == b.month && a.day == b.day && a.hour == b.hour && a.minute
        < b.minute
    ||| a.year == b.year && a.month == b.month && a.day == b.day && a.hour == b.hour && a.minute
        == b.minute && a.second < b.second
}

proof fn lemma_padded2(n: nat)
    requires
        n < 100,
    ensures
        padded(n, 2) == seq![digit((n / 10) as int), digit((n % 10) as int)],
{
    reveal_with_fuel(decimal, 2);
}

proof fn lemma_padded4(n: nat)
    requires
        n < 10000,
    ensures
        padded(n, 4) == padded(n / 100, 2) + padded(n % 100, 2),
{
    reveal_with_fuel(decimal, 4);
    lemma_padded2(n / 100);
    lemma_padded2(n % 100);
    assert(n / 10 / 10 == n / 100);
    assert(n / 10 % 10 == n % 100 / 10);
    assert(n % 10 == n % 100 % 10);
    assert(padded(n, 4) =~= padded(n / 100, 2) + padded(n % 100, 2));
}

proof fn lemma_before_prefix(p: Seq<char>, a: Seq<char>, b: Seq<char>)
    ensures
        before(p + a, p + b) == before(a, b),
    decreases p.len(),
{
    if p.len() == 0 {
        assert(p + a == a && p + b == b);
    } else {
        lemma_before_prefix(p.drop_first(), a, b);
        assert((p + a).drop_first() == p.drop_first() + a);
        assert((p + b).drop_first() == p.drop_first() + b);
    }
}

proof fn lemma_before_extend(a: Seq<char>, b: Seq<char>, x: Seq<char>, y: Seq<char>)
    requires
        a.len() == b.len(),
        before(a, b),
    ensures
        before(a + x, b + y),
    decreases a.len(),
{
    if a[0] == b[0] {
        lemma_before_extend(a.drop_first(), b.drop_first(), x, y);
        assert((a + x).drop_first() == a.drop_first() + x);
        assert((b + y).drop_first() == b.drop_first() + y);
    }
}

proof fn lemma_padded2_order(n: nat, m: nat)
    requires
        n < m < 100,
    ensures
        before(padded(n, 2), padded(m, 2)),
{
    lemma_padded2(n);
    lemma_padded2(m);
    reveal_with_fuel(before, 3);
}

/// Two texts that begin with fields of equal width come in the order of these fields, or else in
/// the order of what follows them.
proof fn lemma_field_order(a: Seq<char>, b: Seq<char>, x: Seq<char>, y: Seq<char>)
    requires
        a.len() == b.len(),
        before(a, b) || a == b && before(x, y),
    ensures
        before(a + x, b + y),
{
    if before(a, b) {
        lemma_before_extend(a, b, x, y);
    } else {
        lemma_before_prefix(a, x, y);
    }
}

proof fn lemma_padded4_order(n: nat, m: nat)
    requires
        n < m < 10000,
    ensures
        before(padded(n, 4), padded(m, 4)),
{
    lemma_padded4(n);
    lemma_padded4(m);
    lemma_padded2(n / 100);
    lemma_padded2(m / 100);
    if n / 100 < m / 100 {
        lemma_padded2_order(n / 100, m / 100);
    } else {
        lemma_padded2_order(n % 100, m % 100);
    }
    lemma_field_order(
        padded(n / 100, 2),
        padded(m / 100, 2),
        padded(n % 100, 2),
        padded(m % 100, 2),
    );
}

spec fn time_tail(c: Clock) -> Seq<char> {
    padded(c.hour as nat, 2) + (padded(c.minute as nat, 2) + (padded(c.second as nat, 2)
        + ".toml"@))
}

spec fn date_tail(c: Clock) -> Seq<char> {
    padded(c.year as nat, 4) + (padded(c.month as nat, 2) + (padded(c.day as nat, 2) + ("-"@
        + time_tail(c))))
}

proof fn lemma_concat(a: Seq<char>, b: Seq<char>, c: Seq<char>)
    ensures
        a + b + c == a + (b + c),
{
    assert(a + b + c =~= a + (b + c));
}

proof fn lemma_backup_file_parts(c: Clock)
    ensures
        backup_file(c) == "cue-settings-"@ + date_tail(c),
{
    let y = padded(c.year as nat, 4);
    let m = padded(c.month as nat, 2);
    let d = padded(c.day as nat, 2);
    let o = padded(c.hour as nat, 2);
    let i = padded(c.minute as nat, 2);
    let z = padded(c.second as nat, 2);
    let s = "-"@;
    let t = ".toml"@;
    lemma_concat("cue-settings-"@, stamp_text(c), t);
    lemma_concat(y + m + d + s + o + i, z, t);
    lemma_concat(y + m + d + s + o, i, z + t);
    lemma_concat(y + m + d + s, o, i + (z + t));
    lemma_concat(y + m + d, s, o + (i + (z + t)));
    lemma_concat(y + m, d, s + (o + (i + (z + t))));
    lemma_concat(y, m, d + (s + (o + (i + (z + t)))));
}

proof fn lemma_order2(
    n: u16,
    m: u16,
    x: Seq<char>,
    y: Seq<char>,
)
    requires
        n < 100,
        m < 100,
        n < m || n == m && before(x, y),
    ensures
        before(padded(n as nat, 2) + x, padded(m as nat, 2) + y),
{
    lemma_padded2(n as nat);
    lemma_padded2(m as nat);
    if n < m {
        lemma_padded2_order(n as nat, m as nat);
    }
    lemma_field_order(padded(n as nat, 2), padded(m as nat, 2), x, y);
}

/// Names of backups sort by time: the earlier of two backups has the name that comes before.
pub proof fn law_backup_names_sort_by_time(a: Clock, b: Clock)
    requires
        valid_clock(a),
        valid_clock(b),
        earlier(a, b),
    ensures
        before(backup_file(a), backup_file(b)),
{
    let t = ".toml"@;
    let (a5, b5) = (padded(a.second as nat, 2) + t, padded(b.second as nat, 2) + t);
    let (a4, b4) = (padded(a.minute as nat, 2) + a5, padded(b.minute as nat, 2) + b5);
    let (a3, b3) = (padded(a.hour as nat, 2) + a4, padded(b.hour as nat, 2) + b4);
    let (a2, b2) = (padded(a.day as nat, 2) + ("-"@ + a3), padded(b.day as nat, 2) + ("-"@ + b3));
    let (a1, b1) = (padded(a.month as nat, 2) + a2, padded(b.month as nat, 2) + b2);
    if a.year == b.year {
        if a.month == b.month {
            if a.day == b.day {
                if a.hour == b.hour {
                    if a.minute == b.minute {
                        lemma_order2(a.second, b.second, t, t);
                    }
                    lemma_order2(a.minute, b.minute, a5, b5);
                }
                lemma_order2(a.hour, b.hour, a4, b4);
                lemma_before_prefix("-"@, a3, b3);
            }
            lemma_order2(a.day, b.day, "-"@ + a3, "-"@ + b3);
        }
        lemma_order2(a.month, b.month, a2, b2);
        lemma_field_order(padded(a.year as nat, 4), padded(b.year as nat, 4), a1, b1);
    } else {
        lemma_padded4(a.year as nat);
        lemma_padded4(b.year as nat);
        lemma_padded2(a.year as nat / 100);
        lemma_padded2(b.year as nat / 100);
        lemma_padded2(a.year as nat % 100);
        lemma_padded2(b.year as nat % 100);
        lemma_padded4_order(a.year as nat, b.year as nat);
        lemma_field_order(padded(a.year as nat, 4), padded(b.year as nat, 4), a1, b1);
    }
    lemma_backup_file_parts(a);
    lemma_backup_file_parts(b);
    lemma_before_prefix("cue-settings-"@, date_tail(a), date_tail(b));
}

/// A backup is fetched from where it was uploaded: in a folder by its name, in single-file mode
/// by the empty name.
pub proof fn law_backup_fetched_from_where_it_was_put(c: CredView, body: Seq<char>, now: Clock)
    ensures
        names_file(c.url) ==> get_request(c, Seq::empty()).url == put_request(c, body, now).url,
        !names_file(c.url) ==> get_request(c, backup_file(now)).url == put_request(
            c,
            body,
            now,
        ).url,
{
    reveal_strlit("cue-settings-");
    assert(backup_file(now).len() > 0);
}

proof fn lemma_decimal_digits(n: nat)
    ensures
        forall|i: int| 0 <= i < decimal(n).len() ==> '0' <= #[trigger] decimal(n)[i] <= '9',
    decreases n,
{
    assert(forall|d: int| 0 <= d < 10 ==> '0' <= #[trigger] digit(d) <= '9');
    let tens = decimal(n / 10);
    if n >= 10 {
        lemma_decimal_digits(n / 10);
        assert(decimal(n) == tens.push(digit((n % 10) as int)));
    } else {
        assert(decimal(n) == seq![digit(n as int)]);
    }
    assert forall|i: int| 0 <= i < decimal(n).len() implies '0' <= #[trigger] decimal(n)[i] <= '9' by {
        if n >= 10 && i < tens.len() {
            assert(decimal(n)[i] == tens[i]);
        }
    }
}

spec fn no_slash(s: Seq<char>) -> bool {
    forall|i: int| 0 <= i < s.len() ==> s[i] != '/'
}

proof fn lemma_padded_no_slash(n: nat, w: nat)
    ensures
        no_slash(padded(n, w)),
{
    lemma_decimal_digits(n);
}

proof fn lemma_backup_file_no_slash(c: Clock)
    ensures
        no_slash(backup_file(c)),
{
    reveal_strlit("cue-settings-");
    reveal_strlit("-");
    reveal_strlit(".toml");
    lemma_padded_no_slash(c.year as nat, 4);
    lemma_padded_no_slash(c.month as nat, 2);
    lemma_padded_no_slash(c.day as nat, 2);
    lemma_padded_no_slash(c.hour as nat, 2);
    lemma_padded_no_slash(c.minute as nat, 2);
    lemma_padded_no_slash(c.second as nat, 2);
    assert(no_slash("cue-settings-"@) && no_slash("-"@) && no_slash(".toml"@));
}

/// The last part of a path is what follows its last slash.
proof fn lemma_last_part(a: Seq<char>, b: Seq<char>)
    requires
        no_slash(b),
    ensures
        split(a + "/"@ + b, "/"@).last() == b,
    decreases a.len(),
{
    reveal_strlit("/");
    let s = a + "/"@ + b;
    let p = "/"@;
    crate::text::lemma_find_from(s, p, 0);
    crate::text::lemma_find_from(b, p, 0);
    assert(s.subrange(a.len() as int, a.len() as int + 1) =~= p);
    assert(crate::text::matches_at(s, p, a.len() as int));
    let i = crate::text::find(s, p)->0;
    assert(split(s, p) == seq![s.take(i)] + split(s.skip(i + 1), p));
    if i == a.len() {
        assert(s.skip(i + 1) =~= b);
        assert forall|j: int| !crate::text::matches_at(b, p, j) by {
            if crate::text::matches_at(b, p, j) {
                assert(b.subrange(j, j + 1)[0] == b[j]);
            }
        }
        assert(split(b, p) == seq![b]);
    } else {
        assert(s.skip(i + 1) =~= a.skip(i + 1) + p + b);
        lemma_last_part(a.skip(i + 1), b);
        assert(split(s.skip(i + 1), p).len() > 0);
    }
}

/// A folder listing that shows the path of a backup lists that backup, whatever its name is as long
/// as it starts and ends like one: a piece of the listing starts with the path and goes on with a
/// closing tag, whatever lies before the last part of the path and after the tag, as long as no
/// closing tag stands before the path's end.
pub proof fn law_a_backup_in_a_listing_is_listed(
    xml: Seq<char>,
    i: int,
    dir: Seq<char>,
    name: Seq<char>,
    rest: Seq<char>,
)
    requires
        0 <= i < split(xml, "href>"@).len(),
        split(xml, "href>"@)[i] == dir + "/"@ + name + "</"@ + rest,
        !crate::text::contains(dir + "/"@ + name, "</"@),
        !name.contains('/'),
        starts_with(name, "cue-settings"@),
        ends_with(name, ".toml"@),
    ensures
        listed(xml, name),
{
    reveal_strlit("/");
    reveal_strlit("</");
    reveal_strlit("cue-settings");
    reveal_strlit(".toml");
    let path = dir + "/"@ + name;
    let piece = path + "</"@ + rest;
    let p = "</"@;
    crate::text::lemma_find_from(piece, p, 0);
    assert(piece.subrange(path.len() as int, path.len() as int + 2) =~= p);
    assert(crate::text::matches_at(piece, p, path.len() as int));
    assert forall|j: int| 0 <= j < path.len() implies !crate::text::matches_at(piece, p, j) by {
        if crate::text::matches_at(piece, p, j) {
            assert(piece.subrange(j, j + 2)[1] == piece[j + 1]);
            if j + 1 < path.len() {
                assert(path.subrange(j, j + 2) =~= piece.subrange(j, j + 2));
                assert(crate::text::matches_at(path, p, j));
            }
        }
    }
    assert(piece.take(path.len() as int) =~= path);
    assert(head_before(piece, p) == Some(path));
    assert(path.last() == name.last());
    assert(name.subrange(name.len() - 5, name.len() as int)[4] == name.last());
    assert(name.last() == 'l');
    assert(trim_end_char(path, '/') == path);
    assert(no_slash(name)) by {
        assert forall|k: int| 0 <= k < name.len() implies name[k] != '/' by {
            assert(name.contains(name[k]));
        }
    }
    lemma_last_part(dir, name);
    assert(backup_in(split(xml, "href>"@)[i]) == Some(name));
}

/// A folder listing that shows the path of an uploaded backup lists that backup.
pub proof fn law_uploaded_backup_is_listed(
    xml: Seq<char>,
    i: int,
    dir: Seq<char>,
    now: Clock,
    rest: Seq<char>,
)
    requires
        0 <= i < split(xml, "href>"@).len(),
        split(xml, "href>"@)[i] == dir + "/"@ + backup_file(now) + "</"@ + rest,
        !crate::text::contains(dir + "/"@ + backup_file(now), "</"@),
    ensures
        listed(xml, backup_file(now)),
{
    reveal_strlit("cue-settings");
    reveal_strlit("cue-settings-");
    reveal_strlit(".toml");
    let name = backup_file(now);
    lemma_backup_file_no_slash(now);
    assert(name.subrange(0, 12) =~= "cue-settings"@);
    assert(name.subrange(name.len() - 5, name.len() as int) =~= ".toml"@);
    law_a_backup_in_a_listing_is_listed(xml, i, dir, name, rest);
}

/// Each piece of a split text stands in the text.
proof fn lemma_piece_stands_in_the_text(s: Seq<char>, pat: Seq<char>, k: int) -> (at: int)
    requires
        pat.len() > 0,
        0 <= k < split(s, pat).len(),
    ensures
        0 <= at,
        at + split(s, pat)[k].len() <= s.len(),
        s.subrange(at, at + split(s, pat)[k].len()) == split(s, pat)[k],
    decreases s.len(),
{
    crate::text::lemma_find_from(s, pat, 0);
    match crate::text::find(s, pat) {
        Some(i) => {
            let behind = s.skip(i + pat.len());
            if k == 0 {
                assert(s.subrange(0, i) =~= s.take(i));
                0
            } else {
                assert(split(s, pat)[k] == split(behind, pat)[k - 1]);
                let at = lemma_piece_stands_in_the_text(behind, pat, k - 1);
                let from = i + pat.len() + at;
                let n = split(s, pat)[k].len();
                assert(s.subrange(from, from + n) =~= behind.subrange(at, at + n));
                from
            }
        },
        None => {
            assert(s.subrange(0, s.len() as int) =~= s);
            0
        },
    }
}

/// The last part of a path stands in the path and holds no slash.
proof fn lemma_last_part_of_a_path(path: Seq<char>) -> (at: int)
    ensures
        ({
            let name = split(path, "/"@).last();
            &&& 0 <= at
            &&& at + name.len() <= path.len()
            &&& path.subrange(at, at + name.len()) == name
            &&& !name.contains('/')
        }),
{
    reveal_strlit("/");
    let slash = "/"@;
    let parts = split(path, slash);
    law_split_pieces_make_up_the_text(path, slash);
    let last = parts.len() - 1;
    let name = parts[last];
    assert(!crate::text::contains(name, slash));
    if name.contains('/') {
        let k = choose|k: int| 0 <= k < name.len() && name[k] == '/';
        assert(name.subrange(k, k + 1) =~= slash);
        assert(crate::text::matches_at(name, slash, k));
    }
    lemma_piece_stands_in_the_text(path, slash, last)
}

/// The name that a piece of a listing names stands in that piece, and is no path.
proof fn lemma_named_in_its_piece(piece: Seq<char>, name: Seq<char>) -> (at: int)
    requires
        backup_in(piece) == Some(name),
    ensures
        0 <= at,
        at + name.len() <= piece.len(),
        piece.subrange(at, at + name.len()) == name,
        !name.contains('/'),
{
    let tag = "</"@;
    crate::text::lemma_find_from(piece, tag, 0);
    let href = head_before(piece, tag)->0;
    let path = trim_end_char(href, '/');
    law_a_run_at_the_end_is_taken_off(href, '/');
    let at = lemma_last_part_of_a_path(path);
    assert(path == href.take(path.len() as int));
    assert(href == piece.take(href.len() as int));
    assert(piece.subrange(at, at + name.len()) =~= path.subrange(at, at + name.len()));
    at
}

/// Nothing is listed that the listing does not hold or that is no backup: a listed name stands in
/// the listing, starts and ends like a backup, and is no path.
pub proof fn law_only_backups_in_the_listing_are_listed(xml: Seq<char>, name: Seq<char>)
    requires
        listed(xml, name),
    ensures
        crate::text::contains(xml, name),
        starts_with(name, "cue-settings"@),
        ends_with(name, ".toml"@),
        !name.contains('/'),
{
    reveal_strlit("href>");
    let pieces = split(xml, "href>"@);
    let i = choose|i: int| 0 <= i < pieces.len() && #[trigger] backup_in(pieces[i]) == Some(name);
    let piece = pieces[i];
    let b = lemma_named_in_its_piece(piece, name);
    let a = lemma_piece_stands_in_the_text(xml, "href>"@, i);
    let n = name.len() as int;
    assert(xml.subrange(a + b, a + b + n) =~= piece.subrange(b, b + n));
    assert(crate::text::matches_at(xml, name, a + b));
}

/// Where a request goes and what it carries: the address without slashes at its end, or a file in
/// that folder; the user and the password of the connection; what is uploaded is the text as it is.
pub proof fn law_requests_go_to_the_folder(
    c: CredView,
    body: Seq<char>,
    now: Clock,
    name: Seq<char>,
)
    ensures
        exists|n: int|
            0 <= n <= c.url.len() && (n > 0 ==> c.url[n - 1] != '/') && (forall|k: int|
                n <= k < c.url.len() ==> #[trigger] c.url[k] == '/') && ({
                let base = #[trigger] c.url.take(n);
                let file = "cue-settings-"@ + stamp_text(now) + ".toml"@;
                &&& put_request(c, body, now).url == (if ends_with(base, ".toml"@) {
                    base
                } else {
                    base + "/"@ + file
                })
                &&& get_request(c, Seq::empty()).url == base
                &&& name.len() > 0 ==> get_request(c, name).url == base + "/"@ + name
                &&& list_request(c).url == base
            }),
        ({
            let auth = ("Authorization"@, "Basic "@ + base64_text(c.user + ":"@ + c.pass));
            &&& put_request(c, body, now).method is Put
            &&& put_request(c, body, now).body == Some(body)
            &&& put_request(c, body, now).headers == seq![auth]
            &&& get_request(c, name).method is Get
            &&& get_request(c, name).body is None
            &&& get_request(c, name).headers == seq![auth]
            &&& list_request(c).method is Propfind
            &&& list_request(c).body is None
            &&& list_request(c).headers == seq![auth, ("Depth"@, "1"@)]
        }),
{
    law_a_run_at_the_end_is_taken_off(c.url, '/');
    let n = trim_end_char(c.url, '/').len() as int;
    assert(c.url.take(n) == trim_end_char(c.url, '/'));
}

/// A stamp is made of fifteen characters that spell year, month, day, hour, minute and second, each
/// at its own place.
pub proof fn law_a_stamp_spells_the_time(c: Clock)
    requires
        valid_clock(c),
    ensures
        ({
            let s = stamp_text(c);
            &&& s.len() == 15
            &&& number_of(s.subrange(0, 4)) == c.year
            &&& number_of(s.subrange(4, 6)) == c.month
            &&& number_of(s.subrange(6, 8)) == c.day
            &&& s[8] == '-'
            &&& number_of(s.subrange(9, 11)) == c.hour
            &&& number_of(s.subrange(11, 13)) == c.minute
            &&& number_of(s.subrange(13, 15)) == c.second
        }),
{
    reveal_strlit("-");
    lemma_padded4(c.year as nat);
    lemma_padded2(c.year as nat / 100);
    lemma_padded2(c.year as nat % 100);
    lemma_padded2(c.month as nat);
    lemma_padded2(c.day as nat);
    lemma_padded2(c.hour as nat);
    lemma_padded2(c.minute as nat);
    lemma_padded2(c.second as nat);
    law_numbers_read_back(c.year as nat, 4);
    law_numbers_read_back(c.month as nat, 2);
    law_numbers_read_back(c.day as nat, 2);
    law_numbers_read_back(c.hour as nat, 2);
    law_numbers_read_back(c.minute as nat, 2);
    law_numbers_read_back(c.second as nat, 2);
    let s = stamp_text(c);
    assert(s.subrange(0, 4) =~= padded(c.year as nat, 4));
    assert(s.subrange(4, 6) =~= padded(c.month as nat, 2));
    assert(s.subrange(6, 8) =~= padded(c.day as nat, 2));
    assert(s.subrange(9, 11) =~= padded(c.hour as nat, 2));
    assert(s.subrange(11, 13) =~= padded(c.minute as nat, 2));
    assert(s.subrange(13, 15) =~= padded(c.second as nat, 2));
}

/// What came of a request is told: the body as it is where the server agreed, a redirect as an
/// error with its status, a refusal with its status, and a broken connection with its reason.
pub proof fn law_what_came_of_a_request_is_told(status: u16, text: String)
    ensures
        status < 300 ==> reply_text(Reply::Answer(status, Ok(text))) == Ok::<Seq<char>, Seq<char>>(
            text@,
        ),
        status < 300 ==> reply_text(Reply::Answer(status, Err(text))) == Err::<
            Seq<char>,
            Seq<char>,
        >(text@),
        status >= 300 ==> forall|b: Result<String, String>| #[trigger]
            reply_text(Reply::Answer(status, b)) == Err::<Seq<char>, Seq<char>>(
                "HTTP "@ + decimal(status as nat) + " (redirect - check the url)"@,
            ),
        reply_text(Reply::Failed(Failure::Status(status, text))) == Err::<Seq<char>, Seq<char>>(
            "HTTP "@ + decimal(status as nat),
        ),
        reply_text(Reply::Failed(Failure::Transport(text))) == Err::<Seq<char>, Seq<char>>(text@),
        good_status(status) <==> status < 300,
{
}

proof fn lemma_not_before_itself(a: Seq<char>)
    ensures
        !before(a, a),
{
    law_the_first_difference_decides(a, a);
}

/// In a list with the newest first, a later backup stands before an earlier one.
pub proof fn law_a_later_backup_stands_first(
    names: Seq<Seq<char>>,
    i: int,
    j: int,
    a: Clock,
    b: Clock,
)
    requires
        newest_first(names),
        0 <= i < names.len(),
        0 <= j < names.len(),
        valid_clock(a),
        valid_clock(b),
        names[i] == backup_file(a),
        names[j] == backup_file(b),
        earlier(a, b),
    ensures
        j < i,
{
    law_backup_names_sort_by_time(a, b);
    lemma_not_before_itself(backup_file(a));
    if i < j {
        lemma_before_transitive(names[i], names[j], names[i]);
    }
}

/// In a list with the newest first no name comes twice.
pub proof fn law_no_backup_is_listed_twice(names: Seq<Seq<char>>, i: int, j: int)
    requires
        newest_first(names),
        0 <= i < names.len(),
        0 <= j < names.len(),
        names[i] == names[j],
    ensures
        i == j,
{
    lemma_not_before_itself(names[i]);
}

/// The number that a base64 digit stands for.
pub open spec fn digit_value(c: char) -> int {
    if 'A' <= c <= 'Z' {
        c as u32 - 'A' as u32
    } else if 'a' <= c <= 'z' {
        26 + (c as u32 - 'a' as u32)
    } else if '0' <= c <= '9' {
        52 + (c as u32 - '0' as u32)
    } else if c == '+' {
        62
    } else {
        63
    }
}

/// The bytes that a base64 text spells.
pub open spec fn base64_bytes(s: Seq<char>) -> Seq<u8>
    decreases s.len(),
{
    if s.len() < 4 {
        Seq::empty()
    } else {
        let first = (digit_value(s[0]) * 4 + digit_value(s[1]) / 16) as u8;
        let second = (digit_value(s[1]) % 16 * 16 + digit_value(s[2]) / 4) as u8;
        let third = (digit_value(s[2]) % 4 * 64 + digit_value(s[3])) as u8;
        if s[2] == '=' {
            seq![first]
        } else if s[3] == '=' {
            seq![first, second]
        } else {
            seq![first, second, third] + base64_bytes(s.skip(4))
        }
    }
}

proof fn lemma_digit(n: int)
    requires
        0 <= n < 64,
    ensures
        digit_value(base64_digit(n)) == n,
        base64_digit(n) != '=',
{
}

/// A base64 text reads back as the bytes that it was made of.
pub proof fn law_base64_reads_back(b: Seq<u8>)
    ensures
        base64_bytes(base64_of(b)) == b,
    decreases b.len(),
{
    if b.len() > 0 {
        let s = base64_of(b);
        let b0 = b[0] as int;
        let b1 = if b.len() > 1 {
            b[1] as int
        } else {
            0
        };
        let b2 = if b.len() > 2 {
            b[2] as int
        } else {
            0
        };
        lemma_digit(b0 / 4);
        lemma_digit(b0 % 4 * 16 + b1 / 16);
        lemma_digit(b1 % 16 * 4 + b2 / 64);
        lemma_digit(b2 % 64);
        if b.len() > 3 {
            law_base64_reads_back(b.skip(3));
            assert(s.skip(4) =~= base64_of(b.skip(3)));
        } else {
            assert(s.skip(4) =~= Seq::empty());
            assert(base64_bytes(Seq::empty()) =~= Seq::empty());
        }
        assert(base64_bytes(s) =~= b);
    } else {
        assert(base64_bytes(base64_of(b)) =~= b);
    }
}

} // verus!
