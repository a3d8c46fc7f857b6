//! The exclusion list given on the command line: comma-separated
//! hexadecimal fingerprints, each optionally written with a `0x` prefix.

use vstd::prelude::*;

verus! {

/// ASCII whitespace: tab, line feed, vertical tab, form feed, carriage
/// return and space.
pub open spec fn is_space(b: u8) -> bool {
    (0x09 <= b && b <= 0x0d) || b == 0x20
}

/// `s` without its leading whitespace.
pub open spec fn trim_start(s: Seq<u8>) -> Seq<u8>
    decreases s.len(),
{
    if s.len() > 0 && is_space(s[0]) {
        trim_start(s.skip(1))
    } else {
        s
    }
}

/// `s` without its trailing whitespace.
pub open spec fn trim_end(s: Seq<u8>) -> Seq<u8>
    decreases s.len(),
{
    if s.len() > 0 && is_space(s.last()) {
        trim_end(s.drop_last())
    } else {
        s
    }
}

/// What follows the last `0x` in `s` (all of `s` when there is none).
pub open spec fn after_last_0x(s: Seq<u8>) -> Seq<u8>
    decreases s.len(),
{
    if s.len() < 2 {
        s
    } else if s[s.len() - 2] == 0x30 && s[s.len() - 1] == 0x78 {
        Seq::empty()
    } else {
        after_last_0x(s.drop_last()).push(s.last())
    }
}

/// Whether `b` is a hexadecimal digit.
pub open spec fn is_hex(b: u8) -> bool {
    (0x30 <= b && b <= 0x39) || (0x41 <= b && b <= 0x46) || (0x61 <= b && b <= 0x66)
}

/// The value of the hexadecimal digit `b` (0 for anything else).
pub open spec fn hex_digit(b: u8) -> int {
    if 0x30 <= b && b <= 0x39 {
        b - 0x30
    } else if 0x41 <= b && b <= 0x46 {
        b - 0x41 + 10
    } else if 0x61 <= b && b <= 0x66 {
        b - 0x61 + 10
    } else {
        0
    }
}

/// The value of the digits `d`, most significant first.
pub open spec fn hex_value(d: Seq<u8>) -> int
    decreases d.len(),
{
    if d.len() == 0 {
        0
    } else {
        hex_value(d.drop_last()) * 16 + hex_digit(d.last())
    }
}

/// The number written in hexadecimal by `s`, optionally after a `+`, when
/// it has at least one digit, nothing but digits, and fits in 32 bits.
pub open spec fn parse_hex(s: Seq<u8>) -> Option<u32> {
    parse_digits(if s.len() > 0 && s[0] == 0x2b { s.skip(1) } else { s })
}

/// The number written by the hexadecimal digits `d`, when there is at least
/// one, all are digits, and it fits in 32 bits.
pub open spec fn parse_digits(d: Seq<u8>) -> Option<u32> {
    if d.len() > 0 && (forall|i: int| 0 <= i < d.len() ==> is_hex(#[trigger] d[i])) && hex_value(d)
        <= u32::MAX {
        Some(hex_value(d) as u32)
    } else {
        None
    }
}

/// The fingerprint written by one item of the list, if it is one.
pub open spec fn item_value(item: Seq<u8>) -> Option<u32> {
    parse_hex(after_last_0x(trim_end(trim_start(item))))
}

/// The items of `s` between commas.
pub open spec fn split_commas(s: Seq<u8>) -> Seq<Seq<u8>>
    decreases s.len(),
{
    if s.len() == 0 {
        seq![Seq::empty()]
    } else if s.last() == 0x2c {
        split_commas(s.drop_last()).push(Seq::empty())
    } else {
        let p = split_commas(s.drop_last());
        p.update(p.len() - 1, p.last().push(s.last()))
    }
}

/// The fingerprints written by `items`, in order, skipping invalid ones.
pub open spec fn values_of(items: Seq<Seq<u8>>) -> Seq<u32>
    decreases items.len(),
{
    if items.len() == 0 {
        Seq::empty()
    } else {
        match item_value(items.last()) {
            Some(v) => values_of(items.drop_last()).push(v),
            None => values_of(items.drop_last()),
        }
    }
}

/// How many of `items` are not fingerprints.
pub open spec fn invalid_count(items: Seq<Seq<u8>>) -> nat
    decreases items.len(),
{
    if items.len() == 0 {
        0
    } else {
        invalid_count(items.drop_last()) + if item_value(items.last()) is None { 1nat } else { 0nat }
    }
}

proof fn lemma_split_commas_nonempty(s: Seq<u8>)
    ensures
        split_commas(s).len() >= 1,
    decreases s.len(),
{
    if s.len() > 0 {
        lemma_split_commas_nonempty(s.drop_last());
    }
}

proof fn lemma_hex_value_nonneg(d: Seq<u8>)
    ensures
        hex_value(d) >= 0,
    decreases d.len(),
{
    if d.len() > 0 {
        lemma_hex_value_nonneg(d.drop_last());
    }
}

/// The value of the hexadecimal digit `b`, if it is one.
fn digit_of(b: u8) -> (r: Option<u64>)
    ensures
        r is Some == is_hex(b),
        r is Some ==> r->0 == hex_digit(b),
{
    if 0x30 <= b && b <= 0x39 {
        Some((b - 0x30) as u64)
    } else if 0x41 <= b && b <= 0x46 {
        Some((b - 0x41 + 10) as u64)
    } else if 0x61 <= b && b <= 0x66 {
        Some((b - 0x61 + 10) as u64)
    } else {
        None
    }
}

/// Parses `s` as `parse_hex` describes.
fn parse_hex_exec(s: &[u8]) -> (r: Option<u32>)
    ensures
        r == parse_hex(s@),
{
    let start: usize = if s.len() > 0 && s[0] == 0x2b { 1 } else { 0 };
    let ghost d = if s@.len() > 0 && s@[0] == 0x2b { s@.skip(1) } else { s@ };
    proof {
        assert(parse_hex(s@) == parse_digits(d));
        assert(d =~= s@.skip(start as int));
    }
    if s.len() == start {
        return None;
    }
    let mut acc: u64 = 0;
    let mut overflow = false;
    let mut i: usize = start;
    while i < s.len()
        invariant
            start <= i <= s@.len(),
            start == s@.len() - d.len(),
            d == s@.skip(start as int),
            parse_hex(s@) == parse_digits(d),
            forall|j: int| 0 <= j < i - start ==> is_hex(#[trigger] d[j]),
            !overflow ==> acc == hex_value(d.take(i - start)),
            !overflow ==> acc <= u32::MAX,
            overflow ==> hex_value(d.take(i - start)) > u32::MAX,
        decreases s.len() - i,
    {
        let ghost k = i - start;
        match digit_of(s[i]) {
            None => {
                proof {
                    assert(d[k] == s@[i as int]);
                    assert(!is_hex(d[k]));
                    assert(0 <= k < d.len());
                    assert(parse_digits(d) is None);
                    assert(parse_hex(s@) == parse_digits(d));
                }
                return None;
            },
            Some(v) => {
                proof {
                    assert(d[k] == s@[i as int]);
                    assert(d.take(k + 1).drop_last() =~= d.take(k));
                    lemma_hex_value_nonneg(d.take(k));
                }
                if !overflow {
                    acc = acc * 16 + v;
                    if acc > 0xffff_ffff {
                        overflow = true;
                    }
                }
            },
        }
        i = i + 1;
    }
    proof {
        assert(d.take(d.len() as int) =~= d);
    }
    if overflow {
        None
    } else {
        Some(acc as u32)
    }
}

/// The bounds of `item` without its surrounding whitespace.
fn trim_bounds(item: &[u8]) -> (r: (usize, usize))
    ensures
        r.0 <= r.1 <= item@.len(),
        trim_end(trim_start(item@)) == item@.subrange(r.0 as int, r.1 as int),
{
    let n = item.len();
    let mut a: usize = 0;
    proof {
        assert(item@.skip(0) =~= item@);
    }
    while a < n && (0x09 <= item[a] && item[a] <= 0x0d || item[a] == 0x20)
        invariant
            n == item@.len(),
            a <= n,
            trim_start(item@) == trim_start(item@.skip(a as int)),
        decreases n - a,
    {
        proof {
            assert(item@.skip(a as int).skip(1) =~= item@.skip(a + 1));
        }
        a = a + 1;
    }
    let ghost front = item@.skip(a as int);
    proof {
        assert(trim_start(item@) == front);
        assert(front =~= item@.subrange(a as int, n as int));
    }
    let mut b: usize = n;
    while b > a && (0x09 <= item[b - 1] && item[b - 1] <= 0x0d || item[b - 1] == 0x20)
        invariant
            n == item@.len(),
            a <= b <= n,
            front == item@.skip(a as int),
            trim_end(front) == trim_end(item@.subrange(a as int, b as int)),
        decreases b - a,
    {
        proof {
            assert(item@.subrange(a as int, b as int).drop_last() =~= item@.subrange(a as int, b - 1));
        }
        b = b - 1;
    }
    (a, b)
}

/// Where what follows the last `0x` of `item[a..b]` starts.
fn after_last_0x_start(item: &[u8], a: usize, b: usize) -> (start: usize)
    requires
        a <= b <= item@.len(),
    ensures
        a <= start <= b,
        after_last_0x(item@.subrange(a as int, b as int)) == item@.subrange(start as int, b as int),
{
    let ghost whole = item@.subrange(a as int, b as int);
    let mut j: usize = b;
    proof {
        assert(item@.subrange(b as int, b as int) =~= Seq::<u8>::empty());
        assert(whole + Seq::<u8>::empty() =~= whole);
    }
    while j - a >= 2 && !(item[j - 2] == 0x30 && item[j - 1] == 0x78)
        invariant
            a <= j <= b,
            b <= item@.len(),
            whole == item@.subrange(a as int, b as int),
            after_last_0x(whole) == after_last_0x(item@.subrange(a as int, j as int)) + item@.subrange(
                j as int,
                b as int,
            ),
        decreases j - a,
    {
        proof {
            let t = item@.subrange(a as int, j as int);
            assert(t.drop_last() =~= item@.subrange(a as int, j - 1));
            assert(after_last_0x(t.drop_last()).push(t.last()) + item@.subrange(j as int, b as int)
                =~= after_last_0x(t.drop_last()) + item@.subrange(j - 1, b as int));
        }
        j = j - 1;
    }
    proof {
        let t = item@.subrange(a as int, j as int);
        if j - a >= 2 {
            assert(after_last_0x(t) =~= Seq::<u8>::empty());
            assert(after_last_0x(whole) =~= item@.subrange(j as int, b as int));
        } else {
            assert(after_last_0x(t) == t);
            assert(after_last_0x(whole) =~= item@.subrange(a as int, b as int));
        }
    }
    if j - a >= 2 {
        j
    } else {
        a
    }
}

/// The fingerprint written by one item, as `item_value` describes.
fn item_value_exec(item: &[u8]) -> (r: Option<u32>)
    ensures
        r == item_value(item@),
{
    let (a, b) = trim_bounds(item);
    let start = after_last_0x_start(item, a, b);
    let mut piece: Vec<u8> = Vec::new();
    let mut k: usize = start;
    while k < b
        invariant
            start <= k <= b,
            b <= item@.len(),
            piece@ == item@.subrange(start as int, k as int),
        decreases b - k,
    {
        piece.push(item[k]);
        proof {
            assert(piece@ =~= item@.subrange(start as int, k + 1));
        }
        k = k + 1;
    }
    parse_hex_exec(piece.as_slice())
}

/// Parses a comma-separated list of hexadecimal fingerprints. Each item is
/// trimmed of ASCII whitespace and may carry a `0x` prefix (what follows the
/// last `0x` is read); items that are not 32-bit hexadecimal numbers are
/// skipped and counted. An empty text is an empty list.
pub fn parse_exclusion_list(text: &[u8]) -> (r: (Vec<u32>, usize))
    requires
        text@.len() < usize::MAX,
    ensures
        text@.len() == 0 ==> r.0@.len() == 0 && r.1 == 0,
        text@.len() > 0 ==> r.0@ == values_of(split_commas(text@)) && r.1 == invalid_count(
            split_commas(text@),
        ),
{
    let mut out: Vec<u32> = Vec::new();
    let mut invalid: usize = 0;
    if text.len() == 0 {
        return (out, invalid);
    }
    let mut current: Vec<u8> = Vec::new();
    let mut i: usize = 0;
    while i < text.len()
        invariant
            i <= text@.len(),
            split_commas(text@.take(i as int)) == split_commas(text@.take(i as int)).drop_last().push(
                current@,
            ),
            out@ == values_of(split_commas(text@.take(i as int)).drop_last()),
            invalid == invalid_count(split_commas(text@.take(i as int)).drop_last()),
            invalid <= i,
            text@.len() < usize::MAX,
        decreases text.len() - i,
    {
        let ghost before = split_commas(text@.take(i as int));
        proof {
            lemma_split_commas_nonempty(text@.take(i as int));
            assert(text@.take(i + 1).drop_last() =~= text@.take(i as int));
        }
        if text[i] == 0x2c {
            match item_value_exec(current.as_slice()) {
                Some(v) => out.push(v),
                None => invalid = invalid + 1,
            }
            proof {
                let after = split_commas(text@.take(i + 1));
                assert(after == before.push(Seq::empty()));
                assert(after.drop_last() =~= before);
                assert(before.drop_last().push(current@) =~= before);
            }
            current = Vec::new();
            proof {
                assert(split_commas(text@.take(i + 1)).drop_last().push(current@) =~= split_commas(
                    text@.take(i + 1),
                ));
            }
        } else {
            current.push(text[i]);
            proof {
                let after = split_commas(text@.take(i + 1));
                assert(after =~= before.drop_last().push(current@));
                assert(after.drop_last() =~= before.drop_last());
            }
        }
        i = i + 1;
    }
    let ghost items = split_commas(text@.take(i as int));
    match item_value_exec(current.as_slice()) {
        Some(v) => out.push(v),
        None => invalid = invalid + 1,
    }
    proof {
        assert(text@.take(i as int) =~= text@);
        lemma_split_commas_nonempty(text@);
        assert(items.drop_last().push(current@) == items);
    }
    (out, invalid)
}

} // verus!
