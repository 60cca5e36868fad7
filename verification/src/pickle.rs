//! Reader for the custom MIME map that Chromium puts on the clipboard.
use crate::text::same;
use vstd::prelude::*;
use vstd::utf8::{char_is_scalar, char_u32_cast};

verus! {

/// The little-endian number in the four bytes from `i` on.
pub open spec fn le32(b: Seq<u8>, i: int) -> nat {
    (b[i] + 0x100 * b[i + 1] + 0x1_0000 * b[i + 2] + 0x100_0000 * b[i + 3]) as nat
}

/// The UTF-16 code units that the bytes spell, low byte first; an odd last byte is left out.
pub open spec fn units(b: Seq<u8>) -> Seq<u16> {
    Seq::new(b.len() / 2, |k: int| (b[2 * k] + 0x100 * b[2 * k + 1]) as u16)
}

pub open spec fn high_surrogate(u: u16) -> bool {
    0xD800 <= u < 0xDC00
}

pub open spec fn low_surrogate(u: u16) -> bool {
    0xDC00 <= u < 0xE000
}

/// The text of UTF-16 code units, with U+FFFD in place of each surrogate that has no partner.
pub open spec fn utf16_text(u: Seq<u16>) -> Seq<char>
    decreases u.len(),
{
    if u.len() == 0 {
        Seq::empty()
    } else if !high_surrogate(u[0]) && !low_surrogate(u[0]) {
        seq![u[0] as char] + utf16_text(u.skip(1))
    } else if high_surrogate(u[0]) && u.len() > 1 && low_surrogate(u[1]) {
        seq![(0x10000 + (u[0] - 0xD800) * 0x400 + (u[1] - 0xDC00)) as char] + utf16_text(u.skip(2))
    } else {
        seq!['\u{FFFD}'] + utf16_text(u.skip(1))
    }
}

/// `i` rounded up to a multiple of four.
pub open spec fn align4(i: int) -> int {
    (i + 3) / 4 * 4
}

/// The `String16` that starts at `i`, and where the next value starts: a count of code units,
/// then the units, then padding to a multiple of four bytes.
pub open spec fn string16_at(b: Seq<u8>, i: int) -> Option<(Seq<char>, int)> {
    if i + 4 > b.len() || i + 4 + 2 * le32(b, i) > b.len() {
        None
    } else {
        let end = i + 4 + 2 * le32(b, i);
        Some((utf16_text(units(b.subrange(i + 4, end))), align4(end)))
    }
}

/// The value of the first of `count` key/value pairs from `i` on whose key is `want`. A pair that
/// cannot be read ends the search.
pub open spec fn pair_value(b: Seq<u8>, i: int, count: nat, want: Seq<char>) -> Option<Seq<char>>
    decreases count,
{
    if count == 0 {
        None
    } else {
        match string16_at(b, i) {
            None => None,
            Some((key, j)) => match string16_at(b, j) {
                None => None,
                Some((val, k)) => if key == want {
                    Some(val)
                } else {
                    pair_value(b, k, (count - 1) as nat, want)
                },
            },
        }
    }
}

/// The bytes after the size field, as many as the size field says and there are.
pub open spec fn payload(b: Seq<u8>) -> Seq<u8> {
    let n = if le32(b, 0) < b.len() - 4 {
        le32(b, 0) as int
    } else {
        b.len() - 4
    };
    b.subrange(4, 4 + n)
}

/// The value that a pickled MIME map gives to the key `want`.
pub open spec fn mime_value(b: Seq<u8>, want: Seq<char>) -> Option<Seq<char>> {
    if b.len() < 8 || payload(b).len() < 4 {
        None
    } else {
        pair_value(payload(b), 4, le32(payload(b), 0), want)
    }
}

fn read_u32(b: &[u8], i: usize) -> (r: u32)
    requires
        i + 4 <= b@.len(),
    ensures
        r == le32(b@, i as int),
{
    let b0: u32 = b[i] as u32;
    let b1: u32 = b[i + 1] as u32;
    let b2: u32 = b[i + 2] as u32;
    let b3: u32 = b[i + 3] as u32;
    b0 + 0x100 * b1 + 0x1_0000 * b2 + 0x100_0000 * b3
}

fn decode_utf16(u: &Vec<u16>) -> (r: String)
    ensures
        r@ == utf16_text(u@),
{
    let mut out = String::new();
    let mut i: usize = 0;
    assert(u@.skip(0) == u@);
    assert(out@ + utf16_text(u@.skip(0)) == utf16_text(u@));
    while i < u.len()
        invariant
            i <= u.len(),
            out@ + utf16_text(u@.skip(i as int)) == utf16_text(u@),
        decreases u.len() - i,
    {
        let ghost rest = u@.skip(i as int);
        let ghost done = out@;
        let a: u16 = u[i];
        let mut code: u32 = 0xFFFD;
        let mut used: usize = 1;
        if a < 0xD800 || a >= 0xE000 {
            code = a as u32;
        } else if a < 0xDC00 && i + 1 < u.len() && 0xDC00 <= u[i + 1] && u[i + 1] < 0xE000 {
            code = 0x10000 + (a as u32 - 0xD800) * 0x400 + (u[i + 1] as u32 - 0xDC00);
            used = 2;
        }
        match char::from_u32(code) {
            Some(c) => {
                out.push(c);
                assert(rest[0] == a);
                assert(c == code as char);
                if used == 2 {
                    assert(0x10000 + (rest[0] - 0xD800) * 0x400 + (rest[1] - 0xDC00) == code);
                }
                assert(i + 1 < u@.len() ==> rest[1] == u@[i + 1]);
                assert(rest.skip(used as int) == u@.skip(i + used));
                assert(utf16_text(rest) == seq![c] + utf16_text(rest.skip(used as int)));
                assert(done + (seq![c] + utf16_text(u@.skip(i + used))) == out@ + utf16_text(
                    u@.skip(i + used),
                ));
            },
            None => {
                assert(false);
            },
        }
        i += used;
    }
    assert(u@.skip(i as int).len() == 0);
    assert(out@ + Seq::<char>::empty() == out@);
    out
}

/// Reads the `String16` at `*i` and moves `*i` to the next value. Where the text runs past the
/// end of the buffer `*i` stays behind the count; where the count itself does, it stays.
pub fn pickle_read_string16(buf: &[u8], i: &mut usize) -> (r: Option<String>)
    requires
        buf@.len() + 3 <= usize::MAX,
    ensures
        match r {
            Some(s) => string16_at(buf@, *old(i) as int) == Some((s@, *final(i) as int)),
            None => {
                &&& string16_at(buf@, *old(i) as int) is None
                &&& *final(i) == if *old(i) + 4 <= buf@.len() {
                    *old(i) + 4
                } else {
                    *old(i) as int
                }
            },
        },
{
    let start: usize = *i;
    if start > buf.len() || buf.len() - start < 4 {
        return None;
    }
    let count: u32 = read_u32(buf, start);
    let from: usize = start + 4;
    *i = from;
    let left: usize = buf.len() - from;
    if count as u64 * 2 > left as u64 {
        return None;
    }
    let end: usize = from + 2 * (count as usize);
    let mut u: Vec<u16> = Vec::new();
    let mut k: usize = from;
    let ghost bytes = buf@.subrange(from as int, end as int);
    while k < end
        invariant
            from <= k <= end <= buf@.len(),
            bytes == buf@.subrange(from as int, end as int),
            (end - from) % 2 == 0,
            (k - from) % 2 == 0,
            u@ == units(bytes).take((k - from) / 2),
        decreases end - k,
    {
        let lo: u16 = buf[k] as u16;
        let hi: u16 = buf[k + 1] as u16;
        u.push(lo + 0x100 * hi);
        proof {
            let n = (k - from) / 2;
            assert(bytes[2 * n] == buf@[k as int]);
            assert(bytes[2 * n + 1] == buf@[k + 1]);
            assert(units(bytes)[n] == lo + 0x100 * hi);
            assert(units(bytes).take(n + 1) == units(bytes).take(n).push(units(bytes)[n]));
        }
        k += 2;
    }
    assert(units(bytes).take((end - from) / 2) == units(bytes));
    *i = (end + 3) / 4 * 4;
    Some(decode_utf16(&u))
}

/// The value that a Chromium `base::Pickle` of a custom MIME map gives to `want_key`: `u32`
/// payload size, then `u32` count, then count pairs of `String16` key and `String16` value.
pub fn chromium_custom_mime_value(bytes: &[u8], want_key: &str) -> (r: Option<String>)
    ensures
        match r {
            Some(s) => mime_value(bytes@, want_key@) == Some(s@),
            None => mime_value(bytes@, want_key@) is None,
        },
{
    if bytes.len() < 8 {
        return None;
    }
    let size: u32 = read_u32(bytes, 0);
    let n: usize = if (size as u64) < (bytes.len() - 4) as u64 {
        size as usize
    } else {
        bytes.len() - 4
    };
    let body: &[u8] = vstd::slice::slice_subrange(bytes, 4, 4 + n);
    if body.len() < 4 {
        return None;
    }
    let count: u32 = read_u32(body, 0);
    let mut i: usize = 4;
    let mut left: u32 = count;
    while left > 0
        invariant
            body@.len() + 3 <= usize::MAX,
            mime_value(bytes@, want_key@) == pair_value(body@, i as int, left as nat, want_key@),
        decreases left,
    {
        let key = match pickle_read_string16(body, &mut i) {
            Some(k) => k,
            None => return None,
        };
        let val = match pickle_read_string16(body, &mut i) {
            Some(v) => v,
            None => return None,
        };
        if same(key.as_str(), want_key) {
            return Some(val);
        }
        left -= 1;
    }
    None
}

/// A number as four bytes, the lowest first.
pub open spec fn four_bytes(n: nat) -> Seq<u8> {
    seq![
        (n % 0x100) as u8,
        (n / 0x100 % 0x100) as u8,
        (n / 0x1_0000 % 0x100) as u8,
        (n / 0x100_0000 % 0x100) as u8,
    ]
}

/// A character in UTF-16.
pub open spec fn code_units(c: char) -> Seq<u16> {
    let u = c as u32;
    if u < 0x10000 {
        seq![u as u16]
    } else {
        seq![
            (0xD800 + (u - 0x10000) / 0x400) as u16,
            (0xDC00 + (u - 0x10000) % 0x400) as u16,
        ]
    }
}

/// A text in UTF-16.
pub open spec fn utf16_of(s: Seq<char>) -> Seq<u16>
    decreases s.len(),
{
    if s.len() == 0 {
        Seq::empty()
    } else {
        code_units(s[0]) + utf16_of(s.drop_first())
    }
}

/// Code units as bytes, the lower one first.
pub open spec fn unit_bytes(u: Seq<u16>) -> Seq<u8> {
    Seq::new(
        2 * u.len(),
        |i: int|
            if i % 2 == 0 {
                (u[i / 2] % 0x100) as u8
            } else {
                (u[i / 2] / 0x100) as u8
            },
    )
}

/// A text as it is written: the number of its code units, the units, and zeros up to a multiple of
/// four bytes.
#[verifier::opaque]
pub open spec fn string16(s: Seq<char>) -> Seq<u8> {
    let u = utf16_of(s);
    four_bytes(u.len()) + unit_bytes(u) + if u.len() % 2 == 0 {
        Seq::empty()
    } else {
        seq![0u8, 0u8]
    }
}

/// Keys and values as they are written, one behind the other.
pub open spec fn pairs_bytes(pairs: Seq<(Seq<char>, Seq<char>)>) -> Seq<u8>
    decreases pairs.len(),
{
    if pairs.len() == 0 {
        Seq::empty()
    } else {
        string16(pairs[0].0) + string16(pairs[0].1) + pairs_bytes(pairs.drop_first())
    }
}

/// A map as it is written: the size of what follows, the number of pairs, the pairs.
pub open spec fn pickled(pairs: Seq<(Seq<char>, Seq<char>)>) -> Seq<u8> {
    four_bytes(4 + pairs_bytes(pairs).len()) + (four_bytes(pairs.len()) + pairs_bytes(pairs))
}

/// The text is not too long to be written.
pub open spec fn writable(s: Seq<char>) -> bool {
    utf16_of(s).len() < 0x1_0000_0000
}

/// A text in UTF-16 reads back as itself.
pub proof fn law_utf16_reads_back(s: Seq<char>)
    ensures
        utf16_text(utf16_of(s)) == s,
    decreases s.len(),
{
    if s.len() > 0 {
        let tail = s.drop_first();
        let u = utf16_of(s);
        let c = s[0];
        let n = c as u32;
        char_is_scalar(c);
        char_u32_cast(c, n);
        law_utf16_reads_back(tail);
        assert(s =~= seq![c] + tail);
        if n < 0x10000 {
            assert(u[0] == n as u16);
            assert(u.skip(1) =~= utf16_of(tail));
            assert(!high_surrogate(u[0]) && !low_surrogate(u[0]));
            assert(u[0] as char == c);
        } else {
            assert(n <= 0x10FFFF);
            assert(u[0] == (0xD800 + (n - 0x10000) / 0x400) as u16);
            assert(u[1] == (0xDC00 + (n - 0x10000) % 0x400) as u16);
            assert(high_surrogate(u[0]) && low_surrogate(u[1]));
            assert(u.skip(2) =~= utf16_of(tail));
            assert((0x10000 + (u[0] - 0xD800) * 0x400 + (u[1] - 0xDC00)) as char == c);
        }
    }
}

proof fn lemma_four_bytes(n: nat, b: Seq<u8>, i: int)
    requires
        n < 0x1_0000_0000,
        0 <= i,
        i + 4 <= b.len(),
        b.subrange(i, i + 4) == four_bytes(n),
    ensures
        le32(b, i) == n,
{
    let f = b.subrange(i, i + 4);
    assert(f[0] == b[i] && f[1] == b[i + 1] && f[2] == b[i + 2] && f[3] == b[i + 3]);
    assert(b[i] as nat == n % 0x100);
    assert(b[i + 1] as nat == n / 0x100 % 0x100);
    assert(b[i + 2] as nat == n / 0x1_0000 % 0x100);
    assert(b[i + 3] as nat == n / 0x100_0000 % 0x100);
}

/// A written text is read where it stands, and what follows it starts right behind it.
pub proof fn law_a_written_text_is_read(before: Seq<u8>, s: Seq<char>, behind: Seq<u8>)
    requires
        before.len() % 4 == 0,
        writable(s),
    ensures
        string16_at(before + string16(s) + behind, before.len() as int) == Some(
            (s, before.len() as int + string16(s).len()),
        ),
        string16(s).len() % 4 == 0,
{
    reveal(string16);
    let b = before + string16(s) + behind;
    let i = before.len() as int;
    let u = utf16_of(s);
    assert(b.subrange(i, i + 4) =~= four_bytes(u.len()));
    lemma_four_bytes(u.len(), b, i);
    let bytes = b.subrange(i + 4, i + 4 + 2 * u.len());
    assert(bytes =~= unit_bytes(u));
    assert forall|k: int| 0 <= k < u.len() implies #[trigger] units(bytes)[k] == u[k] by {
        assert(bytes[2 * k] == (u[k] % 0x100) as u8);
        assert(bytes[2 * k + 1] == (u[k] / 0x100) as u8);
    }
    assert(units(bytes) =~= u);
    law_utf16_reads_back(s);
}

proof fn lemma_in_a_row(a: Seq<u8>, b: Seq<u8>, c: Seq<u8>, d: Seq<u8>)
    ensures
        a + (b + c + d) == a + b + (c + d),
        a + (b + c + d) == a + b + c + d,
{
    assert(a + (b + c + d) =~= a + b + (c + d));
    assert(a + (b + c + d) =~= a + b + c + d);
}

/// Where the first of some written pairs stands.
proof fn lemma_first_pair(before: Seq<u8>, pairs: Seq<(Seq<char>, Seq<char>)>)
    requires
        before.len() % 4 == 0,
        pairs.len() > 0,
        writable(pairs[0].0),
        writable(pairs[0].1),
    ensures
        ({
            let b = before + pairs_bytes(pairs);
            let first = before + string16(pairs[0].0);
            let second = first + string16(pairs[0].1);
            &&& string16_at(b, before.len() as int) == Some((pairs[0].0, first.len() as int))
            &&& string16_at(b, first.len() as int) == Some((pairs[0].1, second.len() as int))
            &&& b == second + pairs_bytes(pairs.drop_first())
            &&& second.len() % 4 == 0
        }),
{
    let (key, val) = pairs[0];
    let others = pairs_bytes(pairs.drop_first());
    lemma_in_a_row(before, string16(key), string16(val), others);
    law_a_written_text_is_read(before, key, string16(val) + others);
    law_a_written_text_is_read(before + string16(key), val, others);
}

proof fn lemma_pair_value(
    b: Seq<u8>,
    i: int,
    j: int,
    k: int,
    key: Seq<char>,
    val: Seq<char>,
    count: nat,
    want: Seq<char>,
)
    requires
        count > 0,
        string16_at(b, i) == Some((key, j)),
        string16_at(b, j) == Some((val, k)),
    ensures
        pair_value(b, i, count, want) == if key == want {
            Some(val)
        } else {
            pair_value(b, k, (count - 1) as nat, want)
        },
{
}

proof fn lemma_pairs(
    before: Seq<u8>,
    pairs: Seq<(Seq<char>, Seq<char>)>,
    want: Seq<char>,
    i: int,
)
    requires
        before.len() % 4 == 0,
        forall|k: int|
            0 <= k < pairs.len() ==> writable((#[trigger] pairs[k]).0) && writable(pairs[k].1),
        0 <= i <= pairs.len(),
        forall|k: int| 0 <= k < i ==> (#[trigger] pairs[k]).0 != want,
        i < pairs.len() ==> pairs[i].0 == want,
    ensures
        pair_value(before + pairs_bytes(pairs), before.len() as int, pairs.len(), want) == if i
            < pairs.len() {
            Some(pairs[i].1)
        } else {
            None
        },
    decreases pairs.len(),
{
    if pairs.len() > 0 {
        let others = pairs.drop_first();
        let b = before + pairs_bytes(pairs);
        let first = before + string16(pairs[0].0);
        let second = first + string16(pairs[0].1);
        lemma_first_pair(before, pairs);
        lemma_pair_value(
            b,
            before.len() as int,
            first.len() as int,
            second.len() as int,
            pairs[0].0,
            pairs[0].1,
            pairs.len(),
            want,
        );
        if i > 0 {
            assert forall|k: int| 0 <= k < others.len() implies writable((#[trigger] others[k]).0)
                && writable(others[k].1) by {
                assert(others[k] == pairs[k + 1]);
            }
            assert forall|k: int| 0 <= k < i - 1 implies (#[trigger] others[k]).0 != want by {
                assert(others[k] == pairs[k + 1]);
            }
            lemma_pairs(second, others, want, i - 1);
        }
    }
}

/// A written map gives each key its value: the one of the first pair with that key, and none where
/// there is no such pair.
pub proof fn law_a_written_map_is_read(
    pairs: Seq<(Seq<char>, Seq<char>)>,
    want: Seq<char>,
    i: int,
)
    requires
        forall|k: int|
            0 <= k < pairs.len() ==> writable((#[trigger] pairs[k]).0) && writable(pairs[k].1),
        pairs.len() < 0x1_0000_0000,
        4 + pairs_bytes(pairs).len() < 0x1_0000_0000,
        0 <= i <= pairs.len(),
        forall|k: int| 0 <= k < i ==> (#[trigger] pairs[k]).0 != want,
        i < pairs.len() ==> pairs[i].0 == want,
    ensures
        mime_value(pickled(pairs), want) == if i < pairs.len() {
            Some(pairs[i].1)
        } else {
            None
        },
{
    let b = pickled(pairs);
    let inner = four_bytes(pairs.len()) + pairs_bytes(pairs);
    assert(b.subrange(0, 4) =~= four_bytes(inner.len()));
    lemma_four_bytes(inner.len(), b, 0);
    assert(payload(b) =~= inner);
    assert(inner.subrange(0, 4) =~= four_bytes(pairs.len()));
    lemma_four_bytes(pairs.len(), inner, 0);
    lemma_pairs(four_bytes(pairs.len()), pairs, want, i);
}

} // verus!
