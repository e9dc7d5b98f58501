//! Laws of texts and numbers: white space, separators, digits, bytes, communities, and keys in
//! URLs.
use crate::bytes::byte_weight;
use crate::bytes::le_value;
use crate::community::digits;
use crate::community::large_community;
use crate::community::lemma_digits;
use crate::community::lemma_split_more;
use crate::community::lemma_split_one;
use crate::community::part_value;
use crate::community::parts_of;
use crate::community::standard_community;
use crate::keys::lemma_ascii_char;
use crate::keys::lemma_escaped_push;
use crate::percent::escaped_key;
use crate::percent::triplet;
use crate::text::ascii_lower;
use crate::text::decimal;
use crate::text::index_from;
use crate::text::index_of;
use crate::text::is_digit;
use crate::text::is_white;
use crate::text::occurs_at;
use crate::text::parse_unsigned;
use crate::text::split_on;
use crate::text::trim_left;
use crate::text::trim_right;
use crate::text::trimmed;
use vstd::arithmetic::power::lemma_pow0;
use vstd::arithmetic::power::lemma_pow1;
use vstd::arithmetic::power::lemma_pow_adds;
use vstd::arithmetic::power::pow;
use vstd::prelude::*;

verus! {

/// Whether a text is white space throughout.
pub open spec fn all_white(s: Seq<char>) -> bool {
    forall|i: int| 0 <= i < s.len() ==> is_white(#[trigger] s[i])
}

/// White space is the blank, the control characters from tab to carriage return, and the wider
/// blanks and line separators of Unicode; no printable ASCII character is.
pub proof fn white_space_is_blank(c: char)
    ensures
        is_white(c) <==> c == ' ' || '\t' <= c <= '\r' || c == '\u{85}' || c == '\u{a0}' || c
            == '\u{1680}' || '\u{2000}' <= c <= '\u{200a}' || c == '\u{2028}' || c == '\u{2029}'
            || c == '\u{202f}' || c == '\u{205f}' || c == '\u{3000}',
        '!' <= c <= '~' ==> !is_white(c),
{
}

/// Leading white space goes.
proof fn lemma_trim_left(pre: Seq<char>, rest: Seq<char>)
    requires
        all_white(pre),
    ensures
        trim_left(pre + rest) == trim_left(rest),
    decreases pre.len(),
{
    if pre.len() > 0 {
        let s = pre + rest;
        assert(s[0] == pre[0]);
        assert(s.skip(1) == pre.skip(1) + rest);
        assert forall|i: int| 0 <= i < pre.skip(1).len() implies is_white(
            #[trigger] pre.skip(1)[i],
        ) by {
            assert(pre.skip(1)[i] == pre[i + 1]);
        }
        lemma_trim_left(pre.skip(1), rest);
    } else {
        assert(pre + rest == rest);
    }
}

/// Trailing white space goes.
proof fn lemma_trim_right(rest: Seq<char>, post: Seq<char>)
    requires
        all_white(post),
    ensures
        trim_right(rest + post) == trim_right(rest),
    decreases post.len(),
{
    if post.len() > 0 {
        let s = rest + post;
        let init = post.drop_last();
        assert(s.last() == post[post.len() - 1]);
        assert(s.drop_last() == rest + init);
        assert forall|i: int| 0 <= i < init.len() implies is_white(#[trigger] init[i]) by {
            assert(init[i] == post[i]);
        }
        lemma_trim_right(rest, init);
    } else {
        assert(rest + post == rest);
    }
}

/// What trimming on the left takes off is white space.
proof fn lemma_trimmed_left(s: Seq<char>) -> (pre: Seq<char>)
    ensures
        all_white(pre),
        s == pre + trim_left(s),
        trim_left(s).len() > 0 ==> !is_white(trim_left(s)[0]),
    decreases s.len(),
{
    if s.len() > 0 && is_white(s[0]) {
        let p = lemma_trimmed_left(s.skip(1));
        let pre = seq![s[0]] + p;
        assert forall|i: int| 0 <= i < pre.len() implies is_white(#[trigger] pre[i]) by {
            if i > 0 {
                assert(pre[i] == p[i - 1]);
            }
        }
        assert(s == seq![s[0]] + s.skip(1));
        assert(s == pre + trim_left(s));
        pre
    } else {
        assert(s == Seq::<char>::empty() + s);
        Seq::empty()
    }
}

/// What trimming on the right takes off is white space.
proof fn lemma_trimmed_right(s: Seq<char>) -> (post: Seq<char>)
    ensures
        all_white(post),
        s == trim_right(s) + post,
        trim_right(s).len() > 0 ==> !is_white(trim_right(s).last()),
    decreases s.len(),
{
    if s.len() > 0 && is_white(s.last()) {
        let p = lemma_trimmed_right(s.drop_last());
        let post = p.push(s.last());
        assert forall|i: int| 0 <= i < post.len() implies is_white(#[trigger] post[i]) by {
            if i < p.len() {
                assert(post[i] == p[i]);
            }
        }
        assert(s == s.drop_last().push(s.last()));
        assert(s == trim_right(s) + post);
        post
    } else {
        assert(s == s + Seq::<char>::empty());
        Seq::empty()
    }
}

/// Trimming takes white space off both ends and nothing else, and leaves none there.
pub proof fn trimming_takes_off_white_space(s: Seq<char>) -> (ends: (Seq<char>, Seq<char>))
    ensures
        s == ends.0 + trimmed(s) + ends.1,
        all_white(ends.0),
        all_white(ends.1),
        trimmed(s).len() > 0 ==> !is_white(trimmed(s)[0]) && !is_white(trimmed(s).last()),
{
    let pre = lemma_trimmed_left(s);
    let left = trim_left(s);
    let post = lemma_trimmed_right(left);
    assert(s == pre + trimmed(s) + post);
    if trimmed(s).len() > 0 {
        assert(trimmed(s)[0] == left[0]);
    }
    (pre, post)
}

/// Whatever white space stands around a text, trimming gives the text.
pub proof fn surrounding_white_space_does_not_matter(
    pre: Seq<char>,
    text: Seq<char>,
    post: Seq<char>,
)
    requires
        all_white(pre),
        all_white(post),
    ensures
        trimmed(pre + text + post) == trimmed(text),
        text.len() > 0 && !is_white(text[0]) && !is_white(text.last()) ==> trimmed(text) == text,
        trimmed(trimmed(text)) == trimmed(text),
{
    let ends = trimming_takes_off_white_space(text);
    let core = trimmed(text);
    let before = pre + ends.0;
    let after = ends.1 + post;
    assert forall|i: int| 0 <= i < before.len() implies is_white(#[trigger] before[i]) by {
        if i < pre.len() {
            assert(before[i] == pre[i]);
        } else {
            assert(before[i] == ends.0[i - pre.len()]);
        }
    }
    assert forall|i: int| 0 <= i < after.len() implies is_white(#[trigger] after[i]) by {
        if i < ends.1.len() {
            assert(after[i] == ends.1[i]);
        } else {
            assert(after[i] == post[i - ends.1.len()]);
        }
    }
    assert(pre + text + post == before + (core + after));
    lemma_trim_left(before, core + after);
    if core.len() > 0 {
        assert((core + after)[0] == core[0]);
        assert(trim_left(core + after) == core + after);
        lemma_trim_right(core, after);
    } else {
        assert(core + after == after);
        let rest = lemma_trimmed_left(after);
        assert(after + Seq::<char>::empty() == after);
        lemma_trim_left(after, Seq::empty());
    }
}

/// Parts put together again, with `sep` between them.
pub open spec fn joined_by(parts: Seq<Seq<char>>, sep: char) -> Seq<char>
    decreases parts.len(),
{
    if parts.len() == 0 {
        Seq::empty()
    } else if parts.len() == 1 {
        parts[0]
    } else {
        joined_by(parts.drop_last(), sep).push(sep) + parts.last()
    }
}

/// Splitting loses nothing and leaves no separator behind: put together again, the parts give the
/// text, and none of them holds the separator.
pub proof fn splitting_is_undone_by_joining(s: Seq<char>, sep: char)
    ensures
        split_on(s, sep).len() > 0,
        joined_by(split_on(s, sep), sep) == s,
        forall|i: int, j: int|
            0 <= i < split_on(s, sep).len() && 0 <= j < split_on(s, sep)[i].len()
                ==> #[trigger] split_on(s, sep)[i][j] != sep,
    decreases s.len(),
{
    let parts = split_on(s, sep);
    if s.len() == 0 {
        assert(parts[0] == Seq::<char>::empty());
        assert(joined_by(parts, sep) == s);
    } else {
        let init = s.drop_last();
        let before = split_on(init, sep);
        splitting_is_undone_by_joining(init, sep);
        assert(init.push(s.last()) == s);
        if s.last() == sep {
            assert(parts.drop_last() == before);
            assert(joined_by(parts, sep) == joined_by(before, sep).push(sep) + Seq::<char>::empty());
            assert(joined_by(parts, sep) == s);
            assert forall|i: int, j: int|
                0 <= i < parts.len() && 0 <= j < parts[i].len() implies #[trigger] parts[i][j]
                != sep by {
                if i < before.len() {
                    assert(parts[i] == before[i]);
                }
            }
        } else {
            let last = before.last().push(s.last());
            assert(parts.drop_last() == before.drop_last());
            assert(parts.last() == last);
            if before.len() == 1 {
                assert(joined_by(parts, sep) == s);
            } else {
                assert(joined_by(before, sep) == joined_by(before.drop_last(), sep).push(sep)
                    + before.last());
                assert(joined_by(parts, sep) == joined_by(before.drop_last(), sep).push(sep) + last);
                assert(joined_by(parts, sep) == s);
            }
            assert forall|i: int, j: int|
                0 <= i < parts.len() && 0 <= j < parts[i].len() implies #[trigger] parts[i][j]
                != sep by {
                if i < before.len() - 1 {
                    assert(parts[i] == before[i]);
                } else if j < before.last().len() {
                    assert(parts[i][j] == before[before.len() - 1][j]);
                }
            }
        }
    }
}

/// Two texts that agree when split are the same text.
pub proof fn parts_determine_the_text(a: Seq<char>, b: Seq<char>, sep: char)
    requires
        split_on(a, sep) == split_on(b, sep),
    ensures
        a == b,
{
    splitting_is_undone_by_joining(a, sep);
    splitting_is_undone_by_joining(b, sep);
}

/// Digits count by their place: putting digits behind others multiplies those by ten for each.
pub proof fn digits_count_by_place(a: Seq<char>, b: Seq<char>, c: char)
    ensures
        decimal(a + b) == decimal(a) * pow(10, b.len()) + decimal(b),
        is_digit(c) ==> decimal(seq![c]) == c as int - '0' as int,
        decimal(Seq::empty()) == 0,
    decreases b.len(),
{
    assert(seq![c].drop_last() == Seq::<char>::empty());
    assert(decimal(seq![c].drop_last()) == 0);
    if b.len() == 0 {
        lemma_pow0(10);
        assert(a + b == a);
        assert(decimal(a) * 1 == decimal(a)) by (nonlinear_arith);
    } else {
        let init = b.drop_last();
        digits_count_by_place(a, init, c);
        assert((a + b).drop_last() == a + init);
        assert((a + b).last() == b.last());
        lemma_pow1(10);
        lemma_pow_adds(10, init.len(), 1);
        let p = pow(10, init.len());
        let x = decimal(a) as int;
        let y = decimal(init) as int;
        assert((x * p + y) * 10 == x * (p * 10) + y * 10) by (nonlinear_arith);
    }
}

/// A text behind its sign, if it has one.
pub open spec fn without_plus(s: Seq<char>) -> Seq<char> {
    if s.len() > 0 && s[0] == '+' {
        s.skip(1)
    } else {
        s
    }
}

/// Whether a text is a number: an optional `+`, then decimal digits with value `n`.
pub open spec fn is_number(s: Seq<char>, n: nat) -> bool {
    &&& without_plus(s).len() > 0
    &&& forall|i: int|
        0 <= i < without_plus(s).len() ==> '0' <= #[trigger] without_plus(s)[i] <= '9'
    &&& decimal(without_plus(s)) == n
}

/// A text is parsed exactly if it is a number that is not too large, and then to that number.
pub proof fn numbers_are_parsed(s: Seq<char>, max: nat, n: nat)
    ensures
        parse_unsigned(s, max) == Some(n) <==> is_number(s, n) && n <= max,
{
    if is_number(s, n) && n <= max {
        let d = crate::text::unsigned_part(s);
        assert(d == without_plus(s));
        assert forall|i: int| 0 <= i < d.len() implies is_digit(#[trigger] d[i]) by {
            assert('0' <= without_plus(s)[i] <= '9');
        }
    }
    if parse_unsigned(s, max) == Some(n) {
        let d = crate::text::unsigned_part(s);
        assert(d == without_plus(s));
        assert forall|i: int| 0 <= i < d.len() implies '0' <= #[trigger] without_plus(s)[i]
            <= '9' by {
            assert(is_digit(d[i]));
        }
    }
}

/// Lower case changes `A` to `Z` and no other character.
pub proof fn lower_case_changes_only_letters(s: Seq<char>, i: int)
    requires
        0 <= i < s.len(),
    ensures
        ascii_lower(s).len() == s.len(),
        'A' <= s[i] <= 'Z' ==> ascii_lower(s)[i] as int == s[i] as int + 32,
        !('A' <= s[i] <= 'Z') ==> ascii_lower(s)[i] == s[i],
        !('A' <= ascii_lower(s)[i] <= 'Z'),
{
}

/// A text is found where it first occurs, character by character, and is not found exactly if it
/// occurs nowhere.
pub proof fn the_first_occurrence_is_found(s: Seq<char>, pat: Seq<char>, i: int)
    ensures
        occurs_at(s, pat, i) <==> 0 <= i && i + pat.len() <= s.len() && forall|j: int|
            0 <= j < pat.len() ==> s[i + j] == #[trigger] pat[j],
        index_of(s, pat) == Some(i) <==> occurs_at(s, pat, i) && forall|k: int|
            0 <= k < i ==> !#[trigger] occurs_at(s, pat, k),
        index_of(s, pat) is None ==> !occurs_at(s, pat, i),
{
    if 0 <= i && i + pat.len() <= s.len() {
        let part = s.subrange(i, i + pat.len());
        if forall|j: int| 0 <= j < pat.len() ==> s[i + j] == #[trigger] pat[j] {
            assert(part == pat);
        }
        if part == pat {
            assert forall|j: int| 0 <= j < pat.len() implies s[i + j] == #[trigger] pat[j] by {
                assert(part[j] == pat[j]);
            }
        }
    }
    lemma_index_from(s, pat, 0);
    if occurs_at(s, pat, i) && (forall|k: int| 0 <= k < i ==> !#[trigger] occurs_at(s, pat, k)) {
        let found = index_of(s, pat);
        assert(found is Some);
        assert(!(found->0 < i));
        assert(!(i < found->0));
    }
}

/// The search from `from` on stops at the first occurrence.
proof fn lemma_index_from(s: Seq<char>, pat: Seq<char>, from: int)
    requires
        0 <= from,
    ensures
        index_from(s, pat, from) matches Some(i) ==> from <= i && occurs_at(s, pat, i) && forall|k:
            int|
            from <= k < i ==> !#[trigger] occurs_at(s, pat, k),
        index_from(s, pat, from) is None ==> forall|k: int|
            from <= k ==> !#[trigger] occurs_at(s, pat, k),
    decreases s.len() - from,
{
    if !occurs_at(s, pat, from) && from < s.len() {
        lemma_index_from(s, pat, from + 1);
    }
}

/// The weight of a byte is a power of 256.
proof fn lemma_weight_is_power(n: nat)
    ensures
        byte_weight(n) == pow(256, n),
    decreases n,
{
    if n == 0 {
        lemma_pow0(256);
    } else {
        lemma_weight_is_power((n - 1) as nat);
        lemma_pow1(256);
        lemma_pow_adds(256, 1, (n - 1) as nat);
    }
}

/// Bytes count by their place, least significant first.
pub proof fn bytes_count_by_place(a: Seq<u8>, b: Seq<u8>, x: u8)
    ensures
        le_value(a + b) == le_value(a) + pow(256, a.len()) * le_value(b),
        le_value(seq![x]) == x,
        le_value(Seq::empty()) == 0,
    decreases b.len(),
{
    assert(seq![x].drop_last() == Seq::<u8>::empty());
    assert(le_value(seq![x].drop_last()) == 0);
    assert(x as int * byte_weight(0) == x) by (nonlinear_arith)
        requires
            byte_weight(0) == 1,
    ;
    if b.len() == 0 {
        assert(a + b == a);
        assert(pow(256, a.len()) * 0 == 0);
    } else {
        let init = b.drop_last();
        bytes_count_by_place(a, init, x);
        assert((a + b).drop_last() == a + init);
        assert((a + b).last() == b.last());
        lemma_weight_is_power((a + init).len());
        lemma_weight_is_power(init.len());
        lemma_pow_adds(256, a.len(), init.len());
        let p = pow(256, a.len());
        let q = pow(256, init.len());
        let y = le_value(init) as int;
        let z = b.last() as int;
        assert(p * y + z * (p * q) == p * (y + z * q)) by (nonlinear_arith);
    }
}

/// A number is neither white space nor holds a colon.
proof fn lemma_number_chars(s: Seq<char>, n: nat)
    requires
        is_number(s, n),
    ensures
        s.len() > 0,
        forall|i: int| 0 <= i < s.len() ==> #[trigger] s[i] != ':' && !is_white(s[i]),
{
    let d = without_plus(s);
    assert forall|i: int| 0 <= i < s.len() implies #[trigger] s[i] != ':' && !is_white(s[i]) by {
        if s[0] == '+' {
            if i > 0 {
                assert(s[i] == d[i - 1]);
            }
        } else {
            assert(s[i] == d[i]);
        }
    }
}

/// The text `a:b`.
pub open spec fn with_colon(a: Seq<char>, b: Seq<char>) -> Seq<char> {
    a.push(':') + b
}

/// A text that is two numbers with a colon between them, whatever white space stands around, is
/// the standard community of those numbers.
pub proof fn two_numbers_are_a_standard_community(
    pre: Seq<char>,
    a: Seq<char>,
    b: Seq<char>,
    post: Seq<char>,
    asn: u32,
    value: u32,
)
    requires
        all_white(pre),
        all_white(post),
        is_number(a, asn as nat),
        is_number(b, value as nat),
    ensures
        standard_community(pre + with_colon(a, b) + post) == Some((asn, value)),
        !large_community(pre + with_colon(a, b) + post),
{
    let s = with_colon(a, b);
    lemma_number_chars(a, asn as nat);
    lemma_number_chars(b, value as nat);
    assert(s[0] == a[0]);
    assert(s.last() == b[b.len() - 1]);
    surrounding_white_space_does_not_matter(pre, s, post);
    lemma_split_one(a, ':');
    lemma_split_more(a, ':', b);
    assert(parts_of(pre + s + post) == seq![a, b]);
    numbers_are_parsed(a, u32::MAX as nat, asn as nat);
    numbers_are_parsed(b, u32::MAX as nat, value as nat);
}

/// Nothing else is a standard community.
pub proof fn standard_communities_are_two_numbers(raw: Seq<char>) -> (parts: (
    Seq<char>,
    Seq<char>,
    Seq<char>,
    Seq<char>,
))
    requires
        standard_community(raw) is Some,
    ensures
        raw == parts.0 + with_colon(parts.1, parts.2) + parts.3,
        all_white(parts.0),
        all_white(parts.3),
        is_number(parts.1, (standard_community(raw)->0).0 as nat),
        is_number(parts.2, (standard_community(raw)->0).1 as nat),
{
    let ends = trimming_takes_off_white_space(raw);
    let core = trimmed(raw);
    let parts = split_on(core, ':');
    splitting_is_undone_by_joining(core, ':');
    assert(parts.drop_last() == seq![parts[0]]);
    assert(joined_by(seq![parts[0]], ':') == parts[0]);
    assert(core == with_colon(parts[0], parts[1]));
    let (asn, value) = standard_community(raw)->0;
    numbers_are_parsed(parts[0], u32::MAX as nat, asn as nat);
    numbers_are_parsed(parts[1], u32::MAX as nat, value as nat);
    (ends.0, parts[0], parts[1], ends.1)
}

/// A text that is three numbers with colons between them, whatever white space stands around, is
/// a large community.
pub proof fn three_numbers_are_a_large_community(
    pre: Seq<char>,
    a: Seq<char>,
    b: Seq<char>,
    c: Seq<char>,
    post: Seq<char>,
    global: u32,
    data1: u32,
    data2: u32,
)
    requires
        all_white(pre),
        all_white(post),
        is_number(a, global as nat),
        is_number(b, data1 as nat),
        is_number(c, data2 as nat),
    ensures
        large_community(pre + with_colon(with_colon(a, b), c) + post),
        standard_community(pre + with_colon(with_colon(a, b), c) + post) is None,
{
    let ab = with_colon(a, b);
    let s = with_colon(ab, c);
    lemma_number_chars(a, global as nat);
    lemma_number_chars(b, data1 as nat);
    lemma_number_chars(c, data2 as nat);
    assert(s[0] == a[0]);
    assert(s.last() == c[c.len() - 1]);
    surrounding_white_space_does_not_matter(pre, s, post);
    lemma_split_one(a, ':');
    lemma_split_more(a, ':', b);
    lemma_split_more(ab, ':', c);
    assert(parts_of(pre + s + post) == seq![a, b, c]);
    numbers_are_parsed(a, u32::MAX as nat, global as nat);
    numbers_are_parsed(b, u32::MAX as nat, data1 as nat);
    numbers_are_parsed(c, u32::MAX as nat, data2 as nat);
}

/// Nothing else is a large community.
pub proof fn large_communities_are_three_numbers(raw: Seq<char>) -> (found: (
    Seq<Seq<char>>,
    Seq<u32>,
))
    requires
        large_community(raw),
    ensures
        found.0.len() == 5,
        found.1.len() == 3,
        raw == found.0[0] + with_colon(with_colon(found.0[1], found.0[2]), found.0[3]) + found.0[4],
        all_white(found.0[0]),
        all_white(found.0[4]),
        is_number(found.0[1], found.1[0] as nat),
        is_number(found.0[2], found.1[1] as nat),
        is_number(found.0[3], found.1[2] as nat),
{
    let ends = trimming_takes_off_white_space(raw);
    let core = trimmed(raw);
    let parts = split_on(core, ':');
    splitting_is_undone_by_joining(core, ':');
    assert(part_value(parts[0]) is Some && part_value(parts[1]) is Some && part_value(
        parts[2],
    ) is Some);
    let two = parts.drop_last();
    assert(two.drop_last() == seq![parts[0]]);
    assert(joined_by(seq![parts[0]], ':') == parts[0]);
    assert(joined_by(two, ':') == with_colon(parts[0], parts[1]));
    assert(core == with_colon(with_colon(parts[0], parts[1]), parts[2]));
    let numbers = seq![part_value(parts[0])->0, part_value(parts[1])->0, part_value(parts[2])->0];
    numbers_are_parsed(parts[0], u32::MAX as nat, numbers[0] as nat);
    numbers_are_parsed(parts[1], u32::MAX as nat, numbers[1] as nat);
    numbers_are_parsed(parts[2], u32::MAX as nat, numbers[2] as nat);
    (seq![ends.0, parts[0], parts[1], parts[2], ends.1], numbers)
}

/// The digits of a number are a number.
pub proof fn digits_are_numbers(n: nat)
    ensures
        is_number(digits(n), n),
{
    lemma_digits(n);
    assert(is_digit(digits(n)[0]));
    assert(without_plus(digits(n)) == digits(n));
    assert forall|i: int| 0 <= i < digits(n).len() implies '0' <= #[trigger] without_plus(
        digits(n),
    )[i] <= '9' by {
        assert(is_digit(digits(n)[i]));
    }
}

/// In a URL the printable characters of a key stand for themselves, except `%`, `?` and `#`, which
/// stand escaped.
pub proof fn keys_are_escaped_by_character(key: Seq<char>, c: char)
    ensures
        ' ' <= c <= '~' && c != '%' && c != '?' && c != '#' ==> escaped_key(key.push(c))
            == escaped_key(key).push(c),
        escaped_key(key.push('%')) == escaped_key(key) + "%25"@,
        escaped_key(key.push('?')) == escaped_key(key) + "%3F"@,
        escaped_key(key.push('#')) == escaped_key(key) + "%23"@,
        escaped_key(Seq::empty()) == Seq::<char>::empty(),
{
    reveal_strlit("%25");
    reveal_strlit("%3F");
    reveal_strlit("%23");
    lemma_escaped_push(key, c);
    lemma_escaped_push(key, '%');
    lemma_escaped_push(key, '?');
    lemma_escaped_push(key, '#');
    lemma_ascii_char('%');
    lemma_ascii_char('?');
    lemma_ascii_char('#');
    assert(triplet('%' as u8) == "%25"@);
    assert(triplet('?' as u8) == "%3F"@);
    assert(triplet('#' as u8) == "%23"@);
    if ' ' <= c <= '~' && c != '%' && c != '?' && c != '#' {
        lemma_ascii_char(c);
        assert(escaped_key(key) + seq![c] == escaped_key(key).push(c));
    }
    assert(vstd::utf8::encode_utf8(Seq::empty()) == Seq::<u8>::empty());
}

} // verus!
