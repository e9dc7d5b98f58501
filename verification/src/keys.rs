//! Object keys that survive a URL.
//!
//! A URL parser resolves dot segments away and trims a space at the end. Any other key comes
//! through whole, once it is escaped.
use crate::percent::escaped;
use crate::percent::escaped_byte;
use crate::percent::escaped_is_printable;
use crate::percent::escaped_key;
use crate::percent::hex_digit;
use crate::percent::must_escape;
use crate::percent::triplet;
use crate::text::ascii_lower;
use crate::text::split_on;
use crate::urls::has_dot_segment;
use crate::urls::is_dot_segment;
use crate::urls::is_whole_path;
use vstd::prelude::*;
use vstd::utf8::encode_scalar;
use vstd::utf8::encode_utf8;
use vstd::utf8::is_ascii_chars_encode_utf8;

verus! {

/// Whether a key survives its URL: no segment of it is `.` or `..`, and it does not end in a
/// space.
pub open spec fn is_whole_key(key: Seq<char>) -> bool {
    &&& forall|i: int|
        0 <= i < split_on(key, '/').len() ==> #[trigger] split_on(key, '/')[i] != "."@ && split_on(
            key,
            '/',
        )[i] != ".."@
    &&& key.len() > 0 ==> key.last() != ' '
}

/// A character of a key as it stands in a URL.
pub open spec fn escaped_char(c: char) -> Seq<char> {
    escaped(encode_scalar(c as u32))
}

/// Bytes are escaped one by one.
proof fn lemma_escaped_concat(a: Seq<u8>, b: Seq<u8>)
    ensures
        escaped(a + b) == escaped(a) + escaped(b),
    decreases a.len(),
{
    if a.len() == 0 {
        assert(a + b == b);
        assert(escaped(a) + escaped(b) == escaped(b));
    } else {
        lemma_escaped_concat(a.skip(1), b);
        assert((a + b).skip(1) == a.skip(1) + b);
        assert(escaped_byte(a[0]) + (escaped(a.skip(1)) + escaped(b)) == (escaped_byte(a[0])
            + escaped(a.skip(1))) + escaped(b));
    }
}

/// A text is encoded character by character.
proof fn lemma_encode_push(key: Seq<char>, c: char)
    ensures
        encode_utf8(key.push(c)) == encode_utf8(key) + encode_scalar(c as u32),
    decreases key.len(),
{
    let s = key.push(c);
    if key.len() == 0 {
        assert(s.drop_first() == Seq::<char>::empty());
        assert(encode_utf8(s.drop_first()) == Seq::<u8>::empty());
        assert(encode_utf8(s) == encode_utf8(key) + encode_scalar(c as u32));
    } else {
        lemma_encode_push(key.drop_first(), c);
        assert(s.drop_first() == key.drop_first().push(c));
        let head = encode_scalar(key[0] as u32);
        assert(head + (encode_utf8(key.drop_first()) + encode_scalar(c as u32)) == (head
            + encode_utf8(key.drop_first())) + encode_scalar(c as u32));
    }
}

/// A key is escaped character by character.
pub(crate) proof fn lemma_escaped_push(key: Seq<char>, c: char)
    ensures
        escaped_key(key.push(c)) == escaped_key(key) + escaped_char(c),
{
    lemma_encode_push(key, c);
    lemma_escaped_concat(encode_utf8(key), encode_scalar(c as u32));
}

/// An ASCII character is one byte.
pub(crate) proof fn lemma_ascii_char(c: char)
    requires
        (c as u32) < 0x80,
    ensures
        escaped_char(c) == escaped_byte(c as u8),
{
    let s = seq![c];
    is_ascii_chars_encode_utf8(s);
    assert(s.drop_first() == Seq::<char>::empty());
    assert(encode_utf8(s.drop_first()) == Seq::<u8>::empty());
    assert(encode_utf8(s) == encode_scalar(c as u32));
    assert(encode_scalar(c as u32) == seq![c as u8]);
    assert(seq![c as u8].skip(1) == Seq::<u8>::empty());
    assert(escaped(seq![c as u8]) == escaped_byte(c as u8) + escaped(Seq::empty()));
    assert(escaped(seq![c as u8]) == escaped_byte(c as u8));
}

/// Bytes that all have to be escaped give escapes only.
proof fn lemma_triplets(bytes: Seq<u8>)
    requires
        bytes.len() > 0,
        forall|i: int| 0 <= i < bytes.len() ==> must_escape(#[trigger] bytes[i]),
    ensures
        escaped(bytes).len() >= 3,
        escaped(bytes).take(3) == triplet(bytes[0]),
        escaped(bytes).last() != ' ',
        forall|i: int| 0 <= i < escaped(bytes).len() ==> #[trigger] escaped(bytes)[i] != '/',
    decreases bytes.len(),
{
    let head = triplet(bytes[0]);
    let rest = bytes.skip(1);
    let e = escaped(bytes);
    assert(bytes[0] / 16 < 16 && bytes[0] % 16 < 16);
    assert(e == head + escaped(rest));
    assert(e.take(3) == head);
    if rest.len() > 0 {
        assert forall|i: int| 0 <= i < rest.len() implies must_escape(#[trigger] rest[i]) by {
            assert(rest[i] == bytes[i + 1]);
        }
        lemma_triplets(rest);
        assert(e.last() == escaped(rest).last());
    } else {
        assert(escaped(rest) == Seq::<char>::empty());
        assert(e.last() == head[2]);
    }
    assert forall|i: int| 0 <= i < e.len() implies #[trigger] e[i] != '/' by {
        if i < 3 {
            assert(e[i] == head[i]);
        } else {
            assert(e[i] == escaped(rest)[i - 3]);
        }
    }
}

/// Every byte of a character that is not ASCII is escaped.
proof fn lemma_wide_char(c: char)
    requires
        (c as u32) >= 0x80,
    ensures
        encode_scalar(c as u32).len() > 0,
        forall|i: int|
            0 <= i < encode_scalar(c as u32).len() ==> must_escape(
                #[trigger] encode_scalar(c as u32)[i],
            ),
{
    let n = c as u32;
    assert((0xC0 | ((n >> 6) & 0x1F) as u8) >= 0x80u8) by (bit_vector);
    assert((0xE0 | ((n >> 12) & 0x0F) as u8) >= 0x80u8) by (bit_vector);
    assert((0xF0 | ((n >> 18) & 0x07) as u8) >= 0x80u8) by (bit_vector);
    assert((0x80 | (n & 0x3F) as u8) >= 0x80u8) by (bit_vector);
    assert((0x80 | ((n >> 6) & 0x3F) as u8) >= 0x80u8) by (bit_vector);
    assert((0x80 | ((n >> 12) & 0x3F) as u8) >= 0x80u8) by (bit_vector);
}

/// What an escaped character looks like: only `/` gives a `/`, only a space ends in one, and
/// one that is not plain starts with an escape of itself.
proof fn lemma_escaped_char(c: char)
    ensures
        escaped_char(c).len() > 0,
        c == '/' ==> escaped_char(c) == seq!['/'],
        c != '/' ==> forall|i: int|
            0 <= i < escaped_char(c).len() ==> #[trigger] escaped_char(c)[i] != '/',
        c != ' ' ==> escaped_char(c).last() != ' ',
        escaped_char(c) == seq![c] && c != '%' || exists|b: u8|
            must_escape(b) && escaped_char(c).len() >= 3 && escaped_char(c).take(3)
                == #[trigger] triplet(b),
{
    if (c as u32) < 0x80 {
        lemma_ascii_char(c);
        let b = c as u8;
        if must_escape(b) {
            assert(b / 16 < 16 && b % 16 < 16);
            assert(triplet(b).take(3) == triplet(b));
        } else {
            assert(b as char == c);
        }
    } else {
        lemma_wide_char(c);
        lemma_triplets(encode_scalar(c as u32));
    }
}

/// What holds no separator goes on with the last part.
pub(crate) proof fn lemma_split_on_more(s: Seq<char>, sep: char, p: Seq<char>)
    requires
        forall|i: int| 0 <= i < p.len() ==> #[trigger] p[i] != sep,
    ensures
        split_on(s, sep).len() > 0,
        split_on(s + p, sep) == split_on(s, sep).drop_last().push(split_on(s, sep).last() + p),
    decreases p.len(),
{
    lemma_split_some(s, sep);
    let parts = split_on(s, sep);
    if p.len() == 0 {
        assert(s + p == s);
        assert(parts.last() + p == parts.last());
        assert(parts.drop_last().push(parts.last()) == parts);
    } else {
        let q = p.drop_last();
        lemma_split_on_more(s, sep, q);
        assert((s + p).drop_last() == s + q);
        assert((s + p).last() == p.last() && p.last() == p[p.len() - 1]);
        let before = parts.drop_last().push(parts.last() + q);
        assert(before.drop_last() == parts.drop_last());
        assert((parts.last() + q).push(p.last()) == parts.last() + p);
    }
}

/// There is always a part.
pub(crate) proof fn lemma_split_some(s: Seq<char>, sep: char)
    ensures
        split_on(s, sep).len() > 0,
    decreases s.len(),
{
    if s.len() > 0 {
        lemma_split_some(s.drop_last(), sep);
    }
}

/// The segments of an escaped key are its segments, escaped.
proof fn lemma_segments(key: Seq<char>)
    ensures
        split_on(escaped_key(key), '/') == split_on(key, '/').map_values(
            |s: Seq<char>| escaped_key(s),
        ),
    decreases key.len(),
{
    let f = |s: Seq<char>| escaped_key(s);
    if key.len() == 0 {
        assert(encode_utf8(key) == Seq::<u8>::empty());
        assert(escaped_key(key) == Seq::<char>::empty());
        assert(encode_utf8(Seq::empty()) == Seq::<u8>::empty());
        assert(escaped_key(Seq::empty()) == Seq::<char>::empty());
        assert(split_on(escaped_key(key), '/') == split_on(key, '/').map_values(f));
    } else {
        let init = key.drop_last();
        let c = key.last();
        lemma_segments(init);
        lemma_escaped_push(init, c);
        lemma_escaped_char(c);
        assert(init.push(c) == key);
        let parts = split_on(init, '/');
        let e = escaped_key(init);
        lemma_split_some(init, '/');
        if c == '/' {
            assert(escaped_key(key) == e.push('/'));
            assert(e.push('/').drop_last() == e);
            assert(encode_utf8(Seq::empty()) == Seq::<u8>::empty());
            assert(escaped_key(Seq::empty()) == Seq::<char>::empty());
            assert(parts.push(Seq::empty()).map_values(f) == parts.map_values(f).push(
                Seq::empty(),
            ));
        } else {
            lemma_split_on_more(e, '/', escaped_char(c));
            lemma_escaped_push(parts.last(), c);
            let next = parts.drop_last().push(parts.last().push(c));
            assert(split_on(key, '/') == next);
            assert(next.map_values(f) == parts.map_values(f).drop_last().push(
                parts.map_values(f).last() + escaped_char(c),
            ));
        }
    }
}

/// An escaped character does not start like an escaped dot.
proof fn lemma_no_escaped_dot(b: u8)
    requires
        must_escape(b),
    ensures
        ascii_lower(triplet(b)) != "%2e"@,
{
    reveal_strlit("%2e");
    assert(b / 16 < 16 && b % 16 < 16);
    let low = ascii_lower(triplet(b));
    if low == "%2e"@ {
        assert(low[1] == '2' && low[2] == 'e');
        assert(hex_digit(b / 16) == '2');
        assert(hex_digit(b % 16) == 'E');
        assert(b == 0x2e);
    }
}

/// A key whose escaped form starts like a dot or an escaped dot starts with a dot.
proof fn lemma_first_dot(key: Seq<char>)
    requires
        key.len() > 0,
        ({
            let low = ascii_lower(escaped_key(key));
            low.len() > 0 && (low[0] == '.' || low.len() >= 3 && low.take(3) == "%2e"@)
        }),
    ensures
        key[0] == '.',
        ascii_lower(escaped_key(key))[0] == '.',
        ascii_lower(escaped_key(key.drop_first())) == ascii_lower(escaped_key(key)).skip(1),
{
    reveal_strlit("%2e");
    let c = key[0];
    let first = escaped_char(c);
    let rest = escaped_key(key.drop_first());
    let e = escaped_key(key);
    let low = ascii_lower(e);
    lemma_escaped_concat(encode_scalar(c as u32), encode_utf8(key.drop_first()));
    assert(e == first + rest);
    lemma_escaped_char(c);
    if first != seq![c] || c == '%' {
        let b = choose|b: u8|
            must_escape(b) && first.len() >= 3 && first.take(3) == #[trigger] triplet(b);
        lemma_no_escaped_dot(b);
        assert(e.take(3) == triplet(b));
        assert(e[0] == triplet(b)[0]);
        assert(low.take(3) == ascii_lower(triplet(b)));
        assert(low[0] == '%');
        assert(false);
    }
    assert(e[0] == c);
    if low[0] != '.' {
        assert(low[0] == low.take(3)[0]);
        assert(low[0] == '%');
        assert(c == '%');
    }
    assert(e.skip(1) == rest);
    assert(low.skip(1) == ascii_lower(rest));
}

/// A segment is a dot segment in a URL only if it is `.` or `..` in the key.
proof fn lemma_dot_segment(segment: Seq<char>)
    requires
        is_dot_segment(escaped_key(segment)),
    ensures
        segment == "."@ || segment == ".."@,
{
    reveal_strlit(".");
    reveal_strlit("..");
    reveal_strlit("%2e");
    reveal_strlit(".%2e");
    reveal_strlit("%2e.");
    reveal_strlit("%2e%2e");
    let low = ascii_lower(escaped_key(segment));
    assert(low.len() > 0);
    if segment.len() == 0 {
        assert(encode_utf8(segment) == Seq::<u8>::empty());
        assert(escaped_key(segment).len() == 0);
        assert(false);
    }
    if low[0] != '.' {
        assert(low.take(3) == "%2e"@);
    }
    lemma_first_dot(segment);
    let more = segment.drop_first();
    let rest = ascii_lower(escaped_key(more));
    assert(segment == seq!['.'] + more);
    if more.len() == 0 {
        assert(segment == "."@);
    } else {
        lemma_escaped_concat(encode_scalar(more[0] as u32), encode_utf8(more.drop_first()));
        lemma_escaped_char(more[0]);
        assert(rest.len() > 0);
        if rest[0] != '.' {
            assert(low == ".%2e"@);
            assert(rest.take(3) == "%2e"@);
        }
        lemma_first_dot(more);
        let end = more.drop_first();
        if end.len() > 0 {
            lemma_escaped_concat(encode_scalar(end[0] as u32), encode_utf8(end.drop_first()));
            lemma_escaped_char(end[0]);
            assert(low.len() >= 3 && low[0] == '.' && low[1] == '.');
            assert(false);
        }
        assert(more == seq!['.'] + end);
        assert(segment == ".."@);
    }
}

/// A whole key gives a path that a URL parser leaves whole.
pub proof fn whole_keys_give_whole_paths(key: Seq<char>)
    requires
        is_whole_key(key),
    ensures
        is_whole_path(escaped_key(key)),
{
    let path = escaped_key(key);
    escaped_is_printable(key);
    lemma_segments(key);
    if has_dot_segment(path) {
        let i = choose|i: int|
            0 <= i < split_on(path, '/').len() && is_dot_segment(#[trigger] split_on(path, '/')[i]);
        lemma_dot_segment(split_on(key, '/')[i]);
        assert(false);
    }
    if key.len() > 0 {
        lemma_escaped_push(key.drop_last(), key.last());
        lemma_escaped_char(key.last());
        assert(key.drop_last().push(key.last()) == key);
        assert(path.last() == escaped_char(key.last()).last());
    } else {
        assert(encode_utf8(key) == Seq::<u8>::empty());
    }
}

} // verus!
