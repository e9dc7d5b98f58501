//! Percent-encoding of object keys.
//!
//! An object key may hold characters that a URL gives another meaning. They are escaped
//! before the key becomes part of a URL, and unescaped when it is read back.
use vstd::prelude::*;
use vstd::utf8::encode_utf8;
use vstd::utf8::is_ascii_chars;
use vstd::utf8::is_ascii_chars_encode_utf8;

verus! {

/// The upper-case hexadecimal digit for `n`.
pub open spec fn hex_digit(n: u8) -> char {
    if n < 10 {
        (('0' as u8) + n) as u8 as char
    } else {
        (('A' as u8) + n - 10) as u8 as char
    }
}

/// `%` and the two hexadecimal digits of a byte.
pub open spec fn triplet(b: u8) -> Seq<char> {
    seq!['%', hex_digit(b / 16), hex_digit(b % 16)]
}

/// `percent_encoding::percent_encode_byte`: `%` and the byte's two upper-case
/// hexadecimal digits.
#[verifier::external_body]
fn encode_byte(b: u8) -> (text: &'static str)
    ensures
        text@ == triplet(b),
{
    percent_encoding::percent_encode_byte(b)
}

/// Whether a byte of an object key is escaped: `?` and `#` are URL delimiters that would
/// otherwise truncate the key (and a `?` glob wildcard), `%` is escaped so that any
/// existing `%xx` survives, and control and non-ASCII bytes always are.
pub open spec fn must_escape(b: u8) -> bool {
    b < 0x20 || b >= 0x7f || b == 0x25 || b == 0x3f || b == 0x23
}

/// A byte of an object key as it stands in a URL.
pub open spec fn escaped_byte(b: u8) -> Seq<char> {
    if must_escape(b) {
        triplet(b)
    } else {
        seq![b as char]
    }
}

/// The bytes of an object key as they stand in a URL.
pub open spec fn escaped(bytes: Seq<u8>) -> Seq<char>
    decreases bytes.len(),
{
    if bytes.len() == 0 {
        Seq::empty()
    } else {
        escaped_byte(bytes[0]) + escaped(bytes.skip(1))
    }
}

/// An object key as it stands in a URL.
pub open spec fn escaped_key(key: Seq<char>) -> Seq<char> {
    escaped(encode_utf8(key))
}

/// Escape an object key.
pub fn escape_key(key: &str) -> (out: String)
    ensures
        out@ == escaped_key(key@),
{
    let bytes = key.as_bytes();
    let mut out = String::new();
    assert(bytes@.skip(0) == bytes@);
    assert(out@ + escaped(bytes@) == escaped(bytes@));
    for i in 0..bytes.len()
        invariant
            out@ + escaped(bytes@.skip(i as int)) == escaped(bytes@),
    {
        let b: u8 = bytes[i];
        let ghost before = out@;
        assert(bytes@.skip(i as int).skip(1) == bytes@.skip(i as int + 1));
        if b < 0x20 || b >= 0x7f || b == 0x25 || b == 0x3f || b == 0x23 {
            out.append(encode_byte(b));
        } else {
            out.push(b as char);
            assert(out@ == before + seq![b as char]);
        }
        assert(out@ + escaped(bytes@.skip(i as int + 1)) == before + (escaped_byte(b) + escaped(
            bytes@.skip(i as int + 1),
        )));
    }
    assert(bytes@.skip(bytes@.len() as int) == Seq::<u8>::empty());
    assert(out@ + Seq::<char>::empty() == out@);
    out
}

/// The value of a hexadecimal digit.
pub open spec fn hex_value(b: u8) -> Option<u8> {
    if 0x30 <= b <= 0x39 {
        Some((b - 0x30) as u8)
    } else if 0x41 <= b <= 0x46 {
        Some((b - 0x41 + 10) as u8)
    } else if 0x61 <= b <= 0x66 {
        Some((b - 0x61 + 10) as u8)
    } else {
        None
    }
}

/// Whether `s` starts with `%` and two hexadecimal digits.
pub open spec fn starts_with_triplet(s: Seq<u8>) -> bool {
    s.len() >= 3 && s[0] == 0x25 && hex_value(s[1]) is Some && hex_value(s[2]) is Some
}

/// `s` with every `%` and two hexadecimal digits replaced by the byte they stand for.
pub open spec fn unescaped(s: Seq<u8>) -> Seq<u8>
    decreases s.len(),
{
    if s.len() == 0 {
        Seq::empty()
    } else if starts_with_triplet(s) {
        seq![(hex_value(s[1])->0 * 16 + hex_value(s[2])->0) as u8] + unescaped(s.skip(3))
    } else {
        seq![s[0]] + unescaped(s.skip(1))
    }
}

/// What `percent_decode_str(..).decode_utf8_lossy()` makes of a text.
pub uninterp spec fn percent_decoded(text: Seq<char>) -> Seq<char>;

/// `percent_encoding::percent_decode_str(..).decode_utf8_lossy()`: percent-encoded bytes
/// are decoded, and the result is read as UTF-8. Where it is UTF-8, it is the text with
/// those bytes; how anything else is replaced is not restated.
#[verifier::external_body]
pub(crate) fn decode_text(text: &str) -> (out: String)
    ensures
        out@ == percent_decoded(text@),
        forall|key: Seq<char>|
            unescaped(encode_utf8(text@)) == #[trigger] encode_utf8(key) ==> out@ == key,
{
    percent_encoding::percent_decode_str(text).decode_utf8_lossy().into_owned()
}

/// Whether a character of a URL path is percent-encoded when the URL is parsed.
pub open spec fn path_escapes(c: char) -> bool {
    c == ' ' || c == '"' || c == '<' || c == '>' || c == '`' || c == '{' || c == '}'
}

/// A path of printable ASCII characters, as parsing a URL leaves it.
pub open spec fn path_text(path: Seq<char>) -> Seq<char>
    decreases path.len(),
{
    if path.len() == 0 {
        Seq::empty()
    } else {
        (if path_escapes(path[0]) {
            triplet(path[0] as u8)
        } else {
            seq![path[0]]
        }) + path_text(path.skip(1))
    }
}

/// A run of ASCII characters as bytes.
pub open spec fn ascii_bytes(chars: Seq<char>) -> Seq<u8> {
    chars.map_values(|c: char| c as u8)
}

proof fn lemma_path_text_concat(a: Seq<char>, b: Seq<char>)
    ensures
        path_text(a + b) == path_text(a) + path_text(b),
    decreases a.len(),
{
    if a.len() == 0 {
        assert(a + b == b);
        assert(path_text(a) + path_text(b) == path_text(b));
    } else {
        lemma_path_text_concat(a.skip(1), b);
        assert((a + b).skip(1) == a.skip(1) + b);
        let head = if path_escapes(a[0]) {
            triplet(a[0] as u8)
        } else {
            seq![a[0]]
        };
        assert(head + (path_text(a.skip(1)) + path_text(b)) == (head + path_text(a.skip(1)))
            + path_text(b));
    }
}

/// A triplet is read as its byte.
proof fn lemma_unescape_triplet(b: u8, rest: Seq<char>)
    ensures
        unescaped(ascii_bytes(triplet(b) + rest)) == seq![b] + unescaped(ascii_bytes(rest)),
{
    let s = ascii_bytes(triplet(b) + rest);
    let h = b / 16;
    let l = b % 16;
    assert(h < 16 && l < 16 && h * 16 + l == b);
    assert(s[0] == 0x25);
    assert(s[1] == hex_digit(h) as u8);
    assert(s[2] == hex_digit(l) as u8);
    assert(hex_value(s[1]) == Some(h));
    assert(hex_value(s[2]) == Some(l));
    assert(s.skip(3) == ascii_bytes(rest));
}

/// A character other than `%` is read as itself.
proof fn lemma_unescape_plain(c: char, rest: Seq<char>)
    requires
        c != '%',
        (c as u32) < 128,
    ensures
        unescaped(ascii_bytes(seq![c] + rest)) == seq![c as u8] + unescaped(ascii_bytes(rest)),
{
    let s = ascii_bytes(seq![c] + rest);
    assert(s[0] == c as u8 && s[0] != 0x25);
    assert(s.skip(1) == ascii_bytes(rest));
}

/// The bytes of a key survive escaping, a URL's own encoding of its path, and
/// unescaping.
proof fn lemma_bytes_survive(bytes: Seq<u8>)
    ensures
        unescaped(ascii_bytes(path_text(escaped(bytes)))) == bytes,
        is_ascii_chars(path_text(escaped(bytes))),
    decreases bytes.len(),
{
    if bytes.len() == 0 {
        assert(ascii_bytes(path_text(escaped(bytes))) == Seq::<u8>::empty());
    } else {
        let b = bytes[0];
        let rest = bytes.skip(1);
        lemma_bytes_survive(rest);
        let tail = path_text(escaped(rest));
        lemma_path_text_concat(escaped_byte(b), escaped(rest));
        assert(path_text(escaped(bytes)) == path_text(escaped_byte(b)) + tail);
        assert(bytes == seq![b] + rest);
        if must_escape(b) {
            lemma_path_text_triplet(b);
            lemma_unescape_triplet(b, tail);
            lemma_triplet_ascii(b);
        } else {
            let c = b as char;
            assert(escaped_byte(b) == seq![c]);
            assert(seq![c].skip(1) == Seq::<char>::empty());
            assert(path_text(seq![c].skip(1)) == Seq::<char>::empty());
            if path_escapes(c) {
                assert(path_text(seq![c]) == triplet(b));
                lemma_unescape_triplet(b, tail);
                lemma_triplet_ascii(b);
            } else {
                assert(path_text(seq![c]) == seq![c]);
                lemma_unescape_plain(c, tail);
            }
        }
        let whole = path_text(escaped(bytes));
        let head = path_text(escaped_byte(b));
        assert forall|i: int| 0 <= i < whole.len() implies (#[trigger] whole[i] as nat) < 128 by {
            if i < head.len() {
                assert(whole[i] == head[i]);
            } else {
                assert(whole[i] == tail[i - head.len()]);
            }
        }
    }
}

proof fn lemma_triplet_ascii(b: u8)
    ensures
        forall|i: int| 0 <= i < 3 ==> (#[trigger] triplet(b)[i] as nat) < 128,
{
}

proof fn lemma_path_text_triplet(b: u8)
    ensures
        path_text(triplet(b)) == triplet(b),
{
    let t = triplet(b);
    assert(b / 16 < 16 && b % 16 < 16);
    assert(t.skip(1) == seq![t[1], t[2]]);
    assert(t.skip(1).skip(1) == seq![t[2]]);
    assert(t.skip(1).skip(1).skip(1) == Seq::<char>::empty());
    reveal_with_fuel(path_text, 4);
    assert(path_text(t) == t);
}

/// Escaped bytes are printable ASCII characters, none of them `?` or `#`.
proof fn lemma_printable(bytes: Seq<u8>)
    ensures
        forall|i: int|
            0 <= i < escaped(bytes).len() ==> ' ' <= #[trigger] escaped(bytes)[i] <= '~' && escaped(
                bytes,
            )[i] != '?' && escaped(bytes)[i] != '#',
    decreases bytes.len(),
{
    if bytes.len() > 0 {
        let rest = escaped(bytes.skip(1));
        let head = escaped_byte(bytes[0]);
        lemma_printable(bytes.skip(1));
        assert forall|i: int| 0 <= i < escaped(bytes).len() implies ' ' <= #[trigger] escaped(
            bytes,
        )[i] <= '~' && escaped(bytes)[i] != '?' && escaped(bytes)[i] != '#' by {
            if i < head.len() {
                assert(escaped(bytes)[i] == head[i]);
            } else {
                assert(escaped(bytes)[i] == rest[i - head.len()]);
            }
        }
    }
}

/// Whatever an object key holds, its escaped form is printable and holds no `?` or `#`.
pub proof fn escaped_is_printable(key: Seq<char>)
    ensures
        forall|i: int|
            0 <= i < escaped_key(key).len() ==> ' ' <= #[trigger] escaped_key(key)[i] <= '~'
                && escaped_key(key)[i] != '?' && escaped_key(key)[i] != '#',
{
    lemma_printable(encode_utf8(key));
}

/// An object key survives being put into a URL and read back: unescaping the path that
/// parsing leaves gives the bytes of the key.
pub proof fn key_survives(key: Seq<char>)
    ensures
        unescaped(encode_utf8(path_text(escaped_key(key)))) == encode_utf8(key),
{
    let text = path_text(escaped_key(key));
    lemma_bytes_survive(encode_utf8(key));
    is_ascii_chars_encode_utf8(text);
    assert(encode_utf8(text) == ascii_bytes(text));
}

} // verus!
