//! BGP community string decode helpers.
//!
//! The `communities` column emits each community as a canonical string (e.g.
//! `"65001:100"` standard, `"65001:1:2"` large, `"NO_EXPORT"` well-known). These helpers
//! back the `bgp.community_parse` and `bgp.is_large_community` scalars so a community
//! string can be split in SQL without a regex.
use crate::text::char_views;
use crate::text::chars_of;
use crate::text::decimal;
use crate::text::is_digit;
use crate::text::is_white;
use crate::text::parse_number;
use crate::text::parse_unsigned;
use crate::text::split;
use crate::text::split_on;
use crate::text::trim;
use crate::text::trimmed;
use crate::text::unsigned_part;
use vstd::prelude::*;

verus! {

/// The colon-separated parts of a community string, without surrounding white space.
pub open spec fn parts_of(raw: Seq<char>) -> Seq<Seq<char>> {
    split_on(trimmed(raw), ':')
}

/// One part of a community: an unsigned 32-bit number.
pub open spec fn part_value(part: Seq<char>) -> Option<u32> {
    match parse_unsigned(part, u32::MAX as nat) {
        Some(n) => Some(n as u32),
        None => None,
    }
}

/// The standard community that a string holds, if it holds one.
pub open spec fn standard_community(raw: Seq<char>) -> Option<(u32, u32)> {
    let parts = parts_of(raw);
    if parts.len() == 2 && part_value(parts[0]) is Some && part_value(parts[1]) is Some {
        Some((part_value(parts[0])->0, part_value(parts[1])->0))
    } else {
        None
    }
}

/// Whether a string holds a large community.
pub open spec fn large_community(raw: Seq<char>) -> bool {
    let parts = parts_of(raw);
    parts.len() == 3 && forall|i: int| 0 <= i < 3 ==> part_value(#[trigger] parts[i]) is Some
}

fn parts(raw: &str) -> (out: Vec<Vec<char>>)
    ensures
        char_views(out@) == parts_of(raw@),
{
    split(&trim(&chars_of(raw)), ':')
}

fn value(part: &Vec<char>) -> (out: Option<u32>)
    ensures
        out == part_value(part@),
{
    match parse_number(part, u32::MAX as u64) {
        Some(n) => Some(n as u32),
        None => None,
    }
}

/// Parse a **standard** BGP community (`"<asn>:<value>"`, two integer parts) into its
/// `(asn, value)` pair. Returns `None` for anything that is not a plain two-part numeric
/// community — a large community (`a:b:c`), a well-known mnemonic (`NO_EXPORT`), or an
/// extended community — so the scalar can yield a NULL struct for those.
pub fn community_parse(raw: &str) -> (out: Option<(u32, u32)>)
    ensures
        out == standard_community(raw@),
{
    let parts = parts(raw);
    assert(char_views(parts@).len() == parts@.len());
    if parts.len() != 2 {
        return None;
    }
    assert(char_views(parts@)[0] == parts@[0]@ && char_views(parts@)[1] == parts@[1]@);
    match (value(&parts[0]), value(&parts[1])) {
        (Some(asn), Some(value)) => Some((asn, value)),
        _ => None,
    }
}

/// Whether `raw` is a **large** community (RFC 8092): exactly three colon-separated
/// unsigned-integer parts, `"<global>:<data1>:<data2>"`.
pub fn is_large_community(raw: &str) -> (large: bool)
    ensures
        large == large_community(raw@),
{
    let parts = parts(raw);
    let ghost views = char_views(parts@);
    assert(views.len() == parts@.len());
    if parts.len() != 3 {
        return false;
    }
    assert(views[0] == parts@[0]@ && views[1] == parts@[1]@ && views[2] == parts@[2]@);
    value(&parts[0]).is_some() && value(&parts[1]).is_some() && value(&parts[2]).is_some()
}

/// No string is both a standard and a large community.
pub proof fn standard_is_not_large(raw: Seq<char>)
    ensures
        !(standard_community(raw) is Some && large_community(raw)),
{
}

/// The decimal digits of a number, without leading zeros.
pub open spec fn digits(n: nat) -> Seq<char>
    decreases n,
{
    if n < 10 {
        seq![(('0' as u32) + n) as u32 as char]
    } else {
        digits(n / 10).push((('0' as u32) + n % 10) as u32 as char)
    }
}

/// The digits of a number are digits, and hold that number.
pub(crate) proof fn lemma_digits(n: nat)
    ensures
        digits(n).len() > 0,
        forall|i: int| 0 <= i < digits(n).len() ==> is_digit(#[trigger] digits(n)[i]),
        decimal(digits(n)) == n,
    decreases n,
{
    if n < 10 {
        assert(digits(n).drop_last() == Seq::<char>::empty());
        assert(decimal(digits(n).drop_last()) == 0);
    } else {
        lemma_digits(n / 10);
        assert(digits(n).drop_last() == digits(n / 10));
    }
}

/// The digits of a number that fits are read as that number.
proof fn lemma_digits_value(n: u32)
    ensures
        part_value(digits(n as nat)) == Some(n),
{
    let d = digits(n as nat);
    lemma_digits(n as nat);
    assert(is_digit(d[0]));
    assert(unsigned_part(d) == d);
}

/// A string without the separator is one part.
pub(crate) proof fn lemma_split_one(s: Seq<char>, sep: char)
    requires
        forall|i: int| 0 <= i < s.len() ==> #[trigger] s[i] != sep,
    ensures
        split_on(s, sep) == seq![s],
    decreases s.len(),
{
    if s.len() > 0 {
        lemma_split_one(s.drop_last(), sep);
        assert(s.last() == s[s.len() - 1]);
        assert(seq![s.drop_last()].drop_last() == Seq::<Seq<char>>::empty());
        assert(s.drop_last().push(s.last()) == s);
        assert(split_on(s, sep) == seq![s]);
    } else {
        assert(s == Seq::<char>::empty());
    }
}

/// A separator and a string without one add one part.
pub(crate) proof fn lemma_split_more(a: Seq<char>, sep: char, b: Seq<char>)
    requires
        forall|i: int| 0 <= i < b.len() ==> #[trigger] b[i] != sep,
    ensures
        split_on(a.push(sep) + b, sep) == split_on(a, sep).push(b),
    decreases b.len(),
{
    let s = a.push(sep) + b;
    if b.len() == 0 {
        assert(s == a.push(sep));
        assert(s.drop_last() == a);
        assert(b == Seq::<char>::empty());
    } else {
        let b0 = b.drop_last();
        lemma_split_more(a, sep, b0);
        assert(s.drop_last() == a.push(sep) + b0);
        assert(s.last() == b.last() && b.last() == b[b.len() - 1]);
        let before = split_on(a, sep).push(b0);
        assert(before.drop_last() == split_on(a, sep));
        assert(b0.push(b.last()) == b);
    }
}

/// A string that neither starts nor ends with white space stays as it is.
proof fn lemma_nothing_to_trim(s: Seq<char>)
    requires
        s.len() > 0,
        !is_white(s[0]),
        !is_white(s.last()),
    ensures
        trimmed(s) == s,
{
}

/// The canonical string of a standard community is parsed back to its two parts.
pub proof fn canonical_standard_is_parsed(asn: u32, value: u32)
    ensures
        standard_community(digits(asn as nat).push(':') + digits(value as nat)) == Some(
            (asn, value),
        ),
{
    let a = digits(asn as nat);
    let b = digits(value as nat);
    let s = a.push(':') + b;
    lemma_digits(asn as nat);
    lemma_digits(value as nat);
    assert(is_digit(a[0]) && s[0] == a[0]);
    assert(is_digit(b[b.len() - 1]) && s.last() == b[b.len() - 1]);
    lemma_nothing_to_trim(s);
    assert forall|i: int| 0 <= i < a.len() implies #[trigger] a[i] != ':' by {
        assert(is_digit(a[i]));
    }
    assert forall|i: int| 0 <= i < b.len() implies #[trigger] b[i] != ':' by {
        assert(is_digit(b[i]));
    }
    lemma_split_one(a, ':');
    lemma_split_more(a, ':', b);
    lemma_digits_value(asn);
    lemma_digits_value(value);
    assert(parts_of(s) == seq![a, b]);
}

/// The canonical string of a large community is recognised, and is no standard one.
pub proof fn canonical_large_is_large(global: u32, data1: u32, data2: u32)
    ensures
        large_community(
            (digits(global as nat).push(':') + digits(data1 as nat)).push(':') + digits(
                data2 as nat,
            ),
        ),
{
    let a = digits(global as nat);
    let b = digits(data1 as nat);
    let c = digits(data2 as nat);
    let ab = a.push(':') + b;
    let s = ab.push(':') + c;
    lemma_digits(global as nat);
    lemma_digits(data1 as nat);
    lemma_digits(data2 as nat);
    assert(is_digit(a[0]) && s[0] == a[0]);
    assert(is_digit(c[c.len() - 1]) && s.last() == c[c.len() - 1]);
    lemma_nothing_to_trim(s);
    assert forall|i: int| 0 <= i < a.len() implies #[trigger] a[i] != ':' by {
        assert(is_digit(a[i]));
    }
    assert forall|i: int| 0 <= i < b.len() implies #[trigger] b[i] != ':' by {
        assert(is_digit(b[i]));
    }
    assert forall|i: int| 0 <= i < c.len() implies #[trigger] c[i] != ':' by {
        assert(is_digit(c[i]));
    }
    lemma_split_one(a, ':');
    lemma_split_more(a, ':', b);
    lemma_split_more(ab, ':', c);
    lemma_digits_value(global);
    lemma_digits_value(data1);
    lemma_digits_value(data2);
    assert(parts_of(s) == seq![a, b, c]);
}

} // verus!
