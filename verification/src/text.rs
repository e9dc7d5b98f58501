//! Text helpers: the string operations the other modules are stated over.
//!
//! A string is modelled by its view, the sequence of its characters. Every
//! operation here is a spec function on such sequences, next to the executable
//! function that computes it.
use vstd::prelude::*;

verus! {

/// `String::push` appends the character to the end of the string.
pub assume_specification[ String::push ](s: &mut String, c: char)
    ensures
        final(s)@ == old(s)@.push(c),
;

/// The characters of `s`, in order.
pub fn chars_of(s: &str) -> (out: Vec<char>)
    ensures
        out@ == s@,
{
    let mut out: Vec<char> = Vec::new();
    for c in it: s.chars()
        invariant
            out@ == s@.take(it.index()),
            it.seq() == s@,
    {
        out.push(c);
        assert(s@.take(it.index() + 1) == s@.take(it.index()).push(c));
    }
    assert(s@.take(s@.len() as int) == s@);
    out
}

/// The string made of `chars`.
pub fn string_of(chars: &[char]) -> (out: String)
    ensures
        out@ == chars@,
{
    let mut out = String::new();
    assert(chars@.take(0) == Seq::<char>::empty());
    for i in 0..chars.len()
        invariant
            out@ == chars@.take(i as int),
    {
        assert(chars@.take(i as int + 1) == chars@.take(i as int).push(chars@[i as int]));
        out.push(chars[i]);
    }
    assert(chars@.take(chars@.len() as int) == chars@);
    out
}

/// The string made of `chars[from..to]`.
pub fn string_between(chars: &Vec<char>, from: usize, to: usize) -> (out: String)
    requires
        from <= to <= chars@.len(),
    ensures
        out@ == chars@.subrange(from as int, to as int),
{
    let mut out = String::new();
    assert(chars@.subrange(from as int, from as int) == Seq::<char>::empty());
    for i in from..to
        invariant
            from <= i <= to <= chars@.len(),
            out@ == chars@.subrange(from as int, i as int),
    {
        assert(chars@.subrange(from as int, i as int + 1) == chars@.subrange(
            from as int,
            i as int,
        ).push(chars@[i as int]));
        out.push(chars[i]);
    }
    out
}

/// Whether two strings hold the same characters.
pub fn same_text(a: &str, b: &str) -> (same: bool)
    ensures
        same == (a@ == b@),
{
    let x = chars_of(a);
    let y = chars_of(b);
    if x.len() != y.len() {
        return false;
    }
    for i in 0..x.len()
        invariant
            x@ == a@,
            y@ == b@,
            x@.len() == y@.len(),
            forall|k: int| 0 <= k < i ==> x@[k] == y@[k],
    {
        if x[i] != y[i] {
            return false;
        }
    }
    assert(a@ =~= b@);
    true
}

/// Two strings joined, in order.
pub fn joined(a: &str, b: &str) -> (out: String)
    ensures
        out@ == a@ + b@,
{
    let mut out = String::from_str(a);
    out.append(b);
    out
}

/// Whether `c` has the Unicode `White_Space` property.
pub open spec fn is_white(c: char) -> bool {
    let n = c as int;
    ||| 0x9 <= n <= 0xd
    ||| n == 0x20
    ||| n == 0x85
    ||| n == 0xa0
    ||| n == 0x1680
    ||| 0x2000 <= n <= 0x200a
    ||| n == 0x2028
    ||| n == 0x2029
    ||| n == 0x202f
    ||| n == 0x205f
    ||| n == 0x3000
}

/// Whether `c` has the Unicode `White_Space` property.
pub fn is_whitespace(c: char) -> (white: bool)
    ensures
        white == is_white(c),
{
    let n: u32 = c as u32;
    (0x9 <= n && n <= 0xd) || n == 0x20 || n == 0x85 || n == 0xa0 || n == 0x1680 || (0x2000 <= n
        && n <= 0x200a) || n == 0x2028 || n == 0x2029 || n == 0x202f || n == 0x205f || n == 0x3000
}

/// `s` without its leading white space.
pub open spec fn trim_left(s: Seq<char>) -> Seq<char>
    decreases s.len(),
{
    if s.len() > 0 && is_white(s[0]) {
        trim_left(s.skip(1))
    } else {
        s
    }
}

/// `s` without its trailing white space.
pub open spec fn trim_right(s: Seq<char>) -> Seq<char>
    decreases s.len(),
{
    if s.len() > 0 && is_white(s.last()) {
        trim_right(s.drop_last())
    } else {
        s
    }
}

/// `s` without its leading and trailing white space.
pub open spec fn trimmed(s: Seq<char>) -> Seq<char> {
    trim_right(trim_left(s))
}

/// The string without its leading and trailing white space.
pub fn trim(chars: &Vec<char>) -> (out: Vec<char>)
    ensures
        out@ == trimmed(chars@),
{
    let mut from: usize = 0;
    assert(chars@.skip(0) == chars@);
    while from < chars.len() && is_whitespace(chars[from])
        invariant
            from <= chars@.len(),
            trim_left(chars@.skip(from as int)) == trim_left(chars@),
        decreases chars@.len() - from,
    {
        assert(chars@.skip(from as int).skip(1) == chars@.skip(from as int + 1));
        from = from + 1;
    }
    let ghost left = chars@.skip(from as int);
    assert(trim_left(chars@) == left);
    let mut to: usize = chars.len();
    assert(chars@.subrange(from as int, to as int) == left);
    while to > from && is_whitespace(chars[to - 1])
        invariant
            from <= to <= chars@.len(),
            trim_right(chars@.subrange(from as int, to as int)) == trim_right(left),
        decreases to,
    {
        assert(chars@.subrange(from as int, to as int).drop_last() == chars@.subrange(
            from as int,
            to as int - 1,
        ));
        to = to - 1;
    }
    let mut out: Vec<char> = Vec::new();
    assert(chars@.subrange(from as int, from as int) == Seq::<char>::empty());
    for i in from..to
        invariant
            from <= i <= to <= chars@.len(),
            out@ == chars@.subrange(from as int, i as int),
    {
        assert(chars@.subrange(from as int, i as int + 1) == chars@.subrange(
            from as int,
            i as int,
        ).push(chars@[i as int]));
        out.push(chars[i]);
    }
    out
}

/// The parts of `s` between occurrences of `sep`: always at least one part.
pub open spec fn split_on(s: Seq<char>, sep: char) -> Seq<Seq<char>>
    decreases s.len(),
{
    if s.len() == 0 {
        seq![Seq::empty()]
    } else {
        let before = split_on(s.drop_last(), sep);
        if s.last() == sep {
            before.push(Seq::empty())
        } else {
            before.drop_last().push(before.last().push(s.last()))
        }
    }
}

/// The views of a list of character lists.
pub open spec fn char_views(parts: Seq<Vec<char>>) -> Seq<Seq<char>> {
    parts.map_values(|p: Vec<char>| p@)
}

/// The parts of `chars` between occurrences of `sep`.
pub fn split(chars: &Vec<char>, sep: char) -> (parts: Vec<Vec<char>>)
    ensures
        char_views(parts@) == split_on(chars@, sep),
{
    let mut parts: Vec<Vec<char>> = Vec::new();
    let mut part: Vec<char> = Vec::new();
    assert(chars@.take(0) == Seq::<char>::empty());
    assert(char_views(parts@).push(part@) == split_on(chars@.take(0), sep));
    for i in 0..chars.len()
        invariant
            char_views(parts@).push(part@) == split_on(chars@.take(i as int), sep),
    {
        let ghost seen = split_on(chars@.take(i as int), sep);
        let ghost part0 = part@;
        let ghost parts0 = parts@;
        assert(chars@.take(i as int + 1).drop_last() == chars@.take(i as int));
        assert(seen.last() == part0);
        assert(seen.drop_last() == char_views(parts0));
        let c = chars[i];
        if c == sep {
            parts.push(part);
            part = Vec::new();
            assert(char_views(parts@) == char_views(parts0).push(part0));
            assert(part@ == Seq::<char>::empty());
        } else {
            part.push(c);
        }
        assert(char_views(parts@).push(part@) == split_on(chars@.take(i as int + 1), sep));
    }
    let ghost parts0 = parts@;
    let ghost part0 = part@;
    assert(chars@.take(chars@.len() as int) == chars@);
    parts.push(part);
    assert(char_views(parts@) == char_views(parts0).push(part0));
    parts
}

/// Whether `c` is one of `0` to `9`.
pub open spec fn is_digit(c: char) -> bool {
    '0' <= c <= '9'
}

/// The value of a string of decimal digits.
pub open spec fn decimal(s: Seq<char>) -> nat
    decreases s.len(),
{
    if s.len() == 0 {
        0
    } else {
        decimal(s.drop_last()) * 10 + (s.last() as nat - '0' as nat) as nat
    }
}

/// `s` without one leading `+`, if it has one.
pub open spec fn unsigned_part(s: Seq<char>) -> Seq<char> {
    if s.len() > 0 && s[0] == '+' {
        s.skip(1)
    } else {
        s
    }
}

/// `s` as an unsigned number of at most `max`: an optional `+`, then one or more
/// decimal digits and nothing else.
pub open spec fn parse_unsigned(s: Seq<char>, max: nat) -> Option<nat> {
    let digits = unsigned_part(s);
    if digits.len() > 0 && (forall|i: int| 0 <= i < digits.len() ==> is_digit(#[trigger] digits[i]))
        && decimal(digits) <= max {
        Some(decimal(digits))
    } else {
        None
    }
}

/// A longer string of digits has no smaller value.
pub proof fn lemma_decimal_grows(s: Seq<char>, k: int)
    requires
        0 <= k <= s.len(),
        forall|i: int| 0 <= i < s.len() ==> is_digit(#[trigger] s[i]),
    ensures
        decimal(s.take(k)) <= decimal(s),
    decreases s.len(),
{
    if k < s.len() {
        lemma_decimal_grows(s.drop_last(), k);
        assert(s.drop_last().take(k) == s.take(k));
        assert(is_digit(s[s.len() - 1]));
    } else {
        assert(s.take(k) == s);
    }
}

/// Parse an unsigned decimal number of at most `max`.
pub fn parse_number(chars: &Vec<char>, max: u64) -> (out: Option<u64>)
    ensures
        match out {
            Some(n) => parse_unsigned(chars@, max as nat) == Some(n as nat),
            None => parse_unsigned(chars@, max as nat) is None,
        },
{
    let from: usize = if chars.len() > 0 && chars[0] == '+' {
        1
    } else {
        0
    };
    let ghost digits = unsigned_part(chars@);
    assert(digits == chars@.skip(from as int));
    if from == chars.len() {
        return None;
    }
    let mut value: u64 = 0;
    assert(digits.take(0) == Seq::<char>::empty());
    for i in from..chars.len()
        invariant
            from <= i <= chars@.len(),
            digits == unsigned_part(chars@),
            digits == chars@.skip(from as int),
            digits.len() == chars@.len() - from,
            forall|k: int| 0 <= k < i - from ==> is_digit(#[trigger] digits[k]),
            value == decimal(digits.take(i - from)),
            value <= max,
    {
        let c = chars[i];
        let ghost k = i - from;
        assert(digits[k] == c);
        if c < '0' || c > '9' {
            assert(!is_digit(digits[k]));
            return None;
        }
        let d: u64 = (c as u32 - '0' as u32) as u64;
        let wide: u128 = value as u128 * 10 + d as u128;
        assert(digits.take(k + 1).drop_last() == digits.take(k));
        assert(wide == decimal(digits.take(k + 1)));
        if wide > max as u128 {
            proof {
                if forall|j: int| 0 <= j < digits.len() ==> is_digit(#[trigger] digits[j]) {
                    lemma_decimal_grows(digits, k + 1);
                }
            }
            return None;
        }
        value = wide as u64;
    }
    assert(digits.take(digits.len() as int) == digits);
    Some(value)
}

/// `c` with `A` to `Z` made lower case.
pub open spec fn ascii_lower_char(c: char) -> char {
    if 'A' <= c <= 'Z' {
        ((c as u32) + 32) as char
    } else {
        c
    }
}

/// `s` with `A` to `Z` made lower case.
pub open spec fn ascii_lower(s: Seq<char>) -> Seq<char> {
    s.map_values(|c: char| ascii_lower_char(c))
}

/// `c` with `A` to `Z` made lower case.
fn lower_char(c: char) -> (out: char)
    ensures
        out == ascii_lower_char(c),
{
    if 'A' <= c && c <= 'Z' {
        let n: u8 = c as u8;
        (n + 32) as char
    } else {
        c
    }
}

/// The characters with `A` to `Z` made lower case.
pub fn lower(chars: &Vec<char>) -> (out: Vec<char>)
    ensures
        out@ == ascii_lower(chars@),
{
    let mut out: Vec<char> = Vec::new();
    for i in 0..chars.len()
        invariant
            out@ == ascii_lower(chars@.take(i as int)),
    {
        assert(ascii_lower(chars@.take(i as int + 1)) == ascii_lower(chars@.take(i as int)).push(
            ascii_lower_char(chars@[i as int]),
        ));
        out.push(lower_char(chars[i]));
    }
    assert(chars@.take(chars@.len() as int) == chars@);
    out
}

/// Whether `s` holds `pat` at index `i`.
pub open spec fn occurs_at(s: Seq<char>, pat: Seq<char>, i: int) -> bool {
    0 <= i && i + pat.len() <= s.len() && s.subrange(i, i + pat.len()) == pat
}

/// The index of the first occurrence of `pat` in `s` at or after `i`.
pub open spec fn index_from(s: Seq<char>, pat: Seq<char>, i: int) -> Option<int>
    decreases s.len() - i,
{
    if occurs_at(s, pat, i) {
        Some(i)
    } else if i < s.len() {
        index_from(s, pat, i + 1)
    } else {
        None
    }
}

/// The index of the first occurrence of `pat` in `s`, if there is one.
pub open spec fn index_of(s: Seq<char>, pat: Seq<char>) -> Option<int> {
    index_from(s, pat, 0)
}

/// Whether `s` holds `pat` at index `i`.
fn matches_at(s: &Vec<char>, pat: &Vec<char>, i: usize) -> (yes: bool)
    requires
        i <= s@.len(),
    ensures
        yes == occurs_at(s@, pat@, i as int),
{
    if s.len() - i < pat.len() {
        return false;
    }
    let n: usize = s.len();
    for k in 0..pat.len()
        invariant
            n == s@.len(),
            i + pat@.len() <= n,
            forall|j: int| 0 <= j < k ==> s@[i + j] == pat@[j],
    {
        if s[i + k] != pat[k] {
            assert(s@.subrange(i as int, i + pat@.len())[k as int] != pat@[k as int]);
            return false;
        }
    }
    assert(s@.subrange(i as int, i + pat@.len()) =~= pat@);
    true
}

/// Find the first occurrence of `pat` in `s`.
pub fn find(s: &Vec<char>, pat: &Vec<char>) -> (at: Option<usize>)
    ensures
        match at {
            Some(i) => index_of(s@, pat@) == Some(i as int) && occurs_at(s@, pat@, i as int),
            None => index_of(s@, pat@) is None,
        },
{
    let mut i: usize = 0;
    while i < s.len()
        invariant
            i <= s@.len(),
            index_from(s@, pat@, i as int) == index_of(s@, pat@),
        decreases s@.len() - i,
    {
        if matches_at(s, pat, i) {
            return Some(i);
        }
        i = i + 1;
    }
    if matches_at(s, pat, i) {
        return Some(i);
    }
    None
}

/// Whether `chars` are those of `word`.
pub fn is_word(chars: &Vec<char>, word: &str) -> (same: bool)
    ensures
        same == (chars@ == word@),
{
    let w = chars_of(word);
    if chars.len() != w.len() {
        return false;
    }
    for i in 0..w.len()
        invariant
            w@ == word@,
            chars@.len() == w@.len(),
            forall|k: int| 0 <= k < i ==> chars@[k] == w@[k],
    {
        if chars[i] != w[i] {
            return false;
        }
    }
    assert(chars@ =~= word@);
    true
}

/// Whether two strings are equal up to the case of `A` to `Z`.
pub fn same_ignoring_case(a: &str, b: &str) -> (same: bool)
    ensures
        same == (ascii_lower(a@) == ascii_lower(b@)),
{
    let x = lower(&chars_of(a));
    let y = lower(&chars_of(b));
    if x.len() != y.len() {
        return false;
    }
    for i in 0..x.len()
        invariant
            x@ == ascii_lower(a@),
            y@ == ascii_lower(b@),
            x@.len() == y@.len(),
            forall|k: int| 0 <= k < i ==> x@[k] == y@[k],
    {
        if x[i] != y[i] {
            return false;
        }
    }
    assert(x@ =~= y@);
    true
}

/// Whether `pat` occurs in `s`.
pub fn holds(s: &str, pat: &str) -> (yes: bool)
    ensures
        yes == (index_of(s@, pat@) is Some),
{
    find(&chars_of(s), &chars_of(pat)).is_some()
}

} // verus!
