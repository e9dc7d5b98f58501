//! JSON arrays and objects of strings: how they are written, and how they are read.
use crate::mrt::string_views;
use vstd::prelude::*;

verus! {

/// The lower-case hexadecimal digit for `n`.
pub open spec fn low_digit(n: int) -> char {
    if n < 10 {
        (0x30 + n) as char
    } else {
        (0x61 + n - 10) as char
    }
}

/// Whether a character is one of the control characters that must not stand in a JSON
/// string.
pub open spec fn is_control(c: char) -> bool {
    (c as int) < 0x20
}

/// A character as it stands inside a JSON string: quotes, backslashes and control characters
/// are escaped.
pub open spec fn escaped_char(c: char) -> Seq<char> {
    if c == '\\' || c == '"' {
        seq!['\\', c]
    } else if c == '\n' {
        seq!['\\', 'n']
    } else if c == '\r' {
        seq!['\\', 'r']
    } else if c == '\t' {
        seq!['\\', 't']
    } else if is_control(c) {
        seq!['\\', 'u', '0', '0', low_digit(c as int / 16), low_digit(c as int % 16)]
    } else {
        seq![c]
    }
}

/// A text as it stands inside a JSON string.
pub open spec fn escaped_text(s: Seq<char>) -> Seq<char>
    decreases s.len(),
{
    if s.len() == 0 {
        Seq::empty()
    } else {
        escaped_char(s[0]) + escaped_text(s.skip(1))
    }
}

/// The JSON string of a text.
pub open spec fn quoted(text: Seq<char>) -> Seq<char> {
    "\""@ + escaped_text(text) + "\""@
}

/// Items with commas between them.
pub open spec fn comma_separated(items: Seq<Seq<char>>) -> Seq<char>
    decreases items.len(),
{
    if items.len() == 0 {
        Seq::empty()
    } else if items.len() == 1 {
        items[0]
    } else {
        items[0] + ","@ + comma_separated(items.skip(1))
    }
}

/// A JSON array of items that are JSON already.
pub open spec fn json_array(items: Seq<Seq<char>>) -> Seq<char> {
    "["@ + comma_separated(items) + "]"@
}

/// A member of an object: its key, and its value, a string.
pub type Member = (Seq<char>, Seq<char>);

/// A member of a JSON object.
pub open spec fn json_member(m: Member) -> Seq<char> {
    quoted(m.0) + ":"@ + quoted(m.1)
}

/// A JSON object.
pub open spec fn json_object(members: Seq<Member>) -> Seq<char> {
    "{"@ + comma_separated(members.map_values(|m: Member| json_member(m))) + "}"@
}

/// The lower-case hexadecimal digit for `n`.
fn digit(n: u32) -> (c: char)
    requires
        n < 16,
    ensures
        c == low_digit(n as int),
{
    if n < 10 {
        (0x30 + n) as u8 as char
    } else {
        (0x61 + (n - 10)) as u8 as char
    }
}

/// Append a character as it stands inside a JSON string.
fn push_escaped(out: &mut String, c: char)
    ensures
        final(out)@ == old(out)@ + escaped_char(c),
{
    let ghost now = out@;
    if c == '\\' || c == '"' {
        out.push('\\');
        out.push(c);
        assert(out@ == now + seq!['\\', c]);
    } else if c == '\n' {
        out.push('\\');
        out.push('n');
        assert(out@ == now + seq!['\\', 'n']);
    } else if c == '\r' {
        out.push('\\');
        out.push('r');
        assert(out@ == now + seq!['\\', 'r']);
    } else if c == '\t' {
        out.push('\\');
        out.push('t');
        assert(out@ == now + seq!['\\', 't']);
    } else if (c as u32) < 0x20 {
        let n: u32 = c as u32;
        out.push('\\');
        out.push('u');
        out.push('0');
        out.push('0');
        out.push(digit(n / 16));
        out.push(digit(n % 16));
        let ghost high = low_digit(c as int / 16);
        let ghost low = low_digit(c as int % 16);
        assert(out@ == now + seq!['\\', 'u', '0', '0', high, low]);
    } else {
        out.push(c);
        assert(out@ == now + seq![c]);
    }
}

/// Append the JSON string of a text.
pub(crate) fn push_quoted(out: &mut String, chars: &Vec<char>)
    ensures
        final(out)@ == old(out)@ + quoted(chars@),
{
    let ghost before = out@ + "\""@;
    out.append("\"");
    assert(chars@.skip(0) == chars@);
    for i in 0..chars.len()
        invariant
            out@ + escaped_text(chars@.skip(i as int)) == before + escaped_text(chars@),
    {
        let c = chars[i];
        let ghost now = out@;
        let ghost rest = escaped_text(chars@.skip(i as int + 1));
        assert(chars@.skip(i as int).skip(1) == chars@.skip(i as int + 1));
        push_escaped(out, c);
        assert(out@ + rest == now + (escaped_char(c) + rest));
    }
    assert(out@ + Seq::<char>::empty() == out@);
    let ghost body = out@;
    out.append("\"");
    assert(body + "\""@ == old(out)@ + quoted(chars@));
}

/// Items with commas between them.
pub(crate) fn comma_list(items: &Vec<String>) -> (out: String)
    ensures
        out@ == comma_separated(string_views(items@)),
{
    let mut out = String::new();
    let ghost views = string_views(items@);
    let ghost whole = comma_separated(views);
    assert(views.skip(0) == views);
    assert(out@ + whole == whole);
    for i in 0..items.len()
        invariant
            views == string_views(items@),
            whole == comma_separated(views),
            whole == out@ + if i == 0 || i == items.len() {
                comma_separated(views.skip(i as int))
            } else {
                ","@ + comma_separated(views.skip(i as int))
            },
    {
        let ghost before = out@;
        let ghost rest = views.skip(i as int);
        assert(rest[0] == items@[i as int]@);
        assert(rest.skip(1) == views.skip(i as int + 1));
        if i > 0 {
            out.append(",");
        }
        out.append(items[i].as_str());
        let ghost next = comma_separated(views.skip(i as int + 1));
        if i + 1 == items.len() {
            assert(views.skip(i as int + 1).len() == 0);
            assert(out@ + next == out@);
        } else {
            assert(out@ + (","@ + next) == whole);
        }
    }
    assert(out@ == whole);
    out
}

/// The JSON array of items that are JSON already.
pub(crate) fn array_of(items: &Vec<String>) -> (out: String)
    ensures
        out@ == json_array(string_views(items@)),
{
    let mut out = "[".to_string();
    out.append(comma_list(items).as_str());
    out.append("]");
    out
}

/// The value of a hexadecimal digit.
pub open spec fn digit_value(c: char) -> Option<int> {
    if '0' <= c <= '9' {
        Some(c as int - 0x30)
    } else if 'a' <= c <= 'f' {
        Some(c as int - 0x61 + 10)
    } else if 'A' <= c <= 'F' {
        Some(c as int - 0x41 + 10)
    } else {
        None
    }
}

/// The number that the four hexadecimal digits at the front of `s` stand for.
pub open spec fn code_unit(s: Seq<char>) -> Option<int> {
    if s.len() >= 4 && digit_value(s[0]) is Some && digit_value(s[1]) is Some && digit_value(s[2])
        is Some && digit_value(s[3]) is Some {
        Some(
            digit_value(s[0])->0 * 0x1000 + digit_value(s[1])->0 * 0x100 + digit_value(s[2])->0
                * 0x10 + digit_value(s[3])->0,
        )
    } else {
        None
    }
}

/// The character that the escape at the front of `s` stands for, and the length of the
/// escape. Characters that take two code units are escaped as two.
pub open spec fn json_escape(s: Seq<char>) -> Option<(char, int)> {
    if s.len() < 2 || s[0] != '\\' {
        None
    } else if s[1] == '"' || s[1] == '\\' || s[1] == '/' {
        Some((s[1], 2))
    } else if s[1] == 'b' {
        Some((8 as char, 2))
    } else if s[1] == 'f' {
        Some((12 as char, 2))
    } else if s[1] == 'n' {
        Some(('\n', 2))
    } else if s[1] == 'r' {
        Some(('\r', 2))
    } else if s[1] == 't' {
        Some(('\t', 2))
    } else if s[1] == 'u' && code_unit(s.skip(2)) is Some {
        let unit = code_unit(s.skip(2))->0;
        if unit < 0xd800 || unit >= 0xe000 {
            Some((unit as char, 6))
        } else if unit < 0xdc00 && s.len() >= 12 && s[6] == '\\' && s[7] == 'u' && code_unit(
            s.skip(8),
        ) is Some && 0xdc00 <= code_unit(s.skip(8))->0 < 0xe000 {
            Some(
                (
                    (0x1_0000 + (unit - 0xd800) * 0x400 + (code_unit(s.skip(8))->0 - 0xdc00)) as char,
                    12,
                ),
            )
        } else {
            None
        }
    } else {
        None
    }
}

/// The text of a JSON string whose opening quote was read, and what follows its closing
/// quote. A control character is none of a JSON string.
pub open spec fn read_string(s: Seq<char>) -> Option<(Seq<char>, Seq<char>)>
    decreases s.len(),
{
    if s.len() == 0 || is_control(s[0]) {
        None
    } else if s[0] == '"' {
        Some((Seq::empty(), s.skip(1)))
    } else if s[0] == '\\' {
        match json_escape(s) {
            Some((c, n)) => match read_string(s.skip(n)) {
                Some((text, rest)) => Some((seq![c] + text, rest)),
                None => None,
            },
            None => None,
        }
    } else {
        match read_string(s.skip(1)) {
            Some((text, rest)) => Some((seq![s[0]] + text, rest)),
            None => None,
        }
    }
}

/// Reading a string uses it up.
pub proof fn lemma_read_on(s: Seq<char>)
    ensures
        read_string(s) matches Some((_, rest)) ==> rest.len() < s.len(),
    decreases s.len(),
{
    if s.len() > 0 {
        lemma_read_on(s.skip(1));
        if let Some((_, n)) = json_escape(s) {
            lemma_read_on(s.skip(n));
        }
    }
}

/// The texts of the rest of a JSON array of strings, from the start of an item on.
pub open spec fn read_items(s: Seq<char>) -> Option<Seq<Seq<char>>>
    decreases s.len(),
{
    if s.len() == 0 || s[0] != '"' {
        None
    } else {
        proof {
            lemma_read_on(s.skip(1));
        }
        match read_string(s.skip(1)) {
            Some((text, rest)) => if rest == "]"@ {
                Some(seq![text])
            } else if rest.len() > 0 && rest[0] == ',' {
                match read_items(rest.skip(1)) {
                    Some(more) => Some(seq![text] + more),
                    None => None,
                }
            } else {
                None
            },
            None => None,
        }
    }
}

/// The texts of a JSON array of strings that is written without white space.
pub open spec fn strings_in(s: Seq<char>) -> Option<Seq<Seq<char>>> {
    if s == "[]"@ {
        Some(Seq::empty())
    } else if s.len() > 0 && s[0] == '[' {
        read_items(s.skip(1))
    } else {
        None
    }
}

/// The members of the rest of a JSON object, from the start of a member on, and what follows
/// the object.
pub open spec fn read_members(s: Seq<char>) -> Option<(Seq<Member>, Seq<char>)>
    decreases s.len(),
{
    if s.len() == 0 || s[0] != '"' {
        None
    } else {
        proof {
            lemma_read_on(s.skip(1));
        }
        match read_string(s.skip(1)) {
            Some((key, at)) => if at.len() >= 2 && at[0] == ':' && at[1] == '"' {
                proof {
                    lemma_read_on(at.skip(2));
                }
                match read_string(at.skip(2)) {
                    Some((value, rest)) => if rest.len() > 0 && rest[0] == '}' {
                        Some((seq![(key, value)], rest.skip(1)))
                    } else if rest.len() > 0 && rest[0] == ',' {
                        match read_members(rest.skip(1)) {
                            Some((more, after)) => Some((seq![(key, value)] + more, after)),
                            None => None,
                        }
                    } else {
                        None
                    },
                    None => None,
                }
            } else {
                None
            },
            None => None,
        }
    }
}

/// Reading the members of an object uses them up.
pub proof fn lemma_members_on(s: Seq<char>)
    ensures
        read_members(s) matches Some((_, rest)) ==> rest.len() < s.len(),
    decreases s.len(),
{
    if s.len() > 0 && s[0] == '"' {
        lemma_read_on(s.skip(1));
        if let Some((_, at)) = read_string(s.skip(1)) {
            if at.len() >= 2 {
                lemma_read_on(at.skip(2));
                if let Some((_, rest)) = read_string(at.skip(2)) {
                    if rest.len() > 0 {
                        lemma_members_on(rest.skip(1));
                    }
                }
            }
        }
    }
}

/// The objects of the rest of a JSON array of objects, from the start of an object on.
pub open spec fn read_objects(s: Seq<char>) -> Option<Seq<Seq<Member>>>
    decreases s.len(),
{
    if s.len() == 0 || s[0] != '{' {
        None
    } else {
        proof {
            lemma_members_on(s.skip(1));
        }
        match read_members(s.skip(1)) {
            Some((members, rest)) => if rest == "]"@ {
                Some(seq![members])
            } else if rest.len() > 0 && rest[0] == ',' {
                match read_objects(rest.skip(1)) {
                    Some(more) => Some(seq![members] + more),
                    None => None,
                }
            } else {
                None
            },
            None => None,
        }
    }
}

/// The objects of a JSON array of objects, each with at least one member and with strings for
/// values, written without white space.
pub open spec fn objects_in(s: Seq<char>) -> Option<Seq<Seq<Member>>> {
    if s == "[]"@ {
        Some(Seq::empty())
    } else if s.len() > 0 && s[0] == '[' {
        read_objects(s.skip(1))
    } else {
        None
    }
}

/// Escaping one character loses nothing.
proof fn lemma_char_is_read(c: char, tail: Seq<char>)
    ensures
        ({
            let s = escaped_char(c) + tail;
            match read_string(tail) {
                Some((text, rest)) => read_string(s) == Some((seq![c] + text, rest)),
                None => true,
            }
        }),
{
    let s = escaped_char(c) + tail;
    let e = escaped_char(c);
    assert(s.skip(e.len() as int) == tail);
    if e.len() == 6 {
        let unit = s.skip(2);
        assert(unit[0] == '0' && unit[1] == '0');
        assert(unit[2] == low_digit(c as int / 16) && unit[3] == low_digit(c as int % 16));
        assert(code_unit(unit) == Some(c as int));
        assert(json_escape(s) == Some((c, 6int)));
    }
}

/// Escaping loses nothing: whatever a text holds, its JSON string is read as that text.
pub proof fn escaping_is_reversible(text: Seq<char>, rest: Seq<char>)
    ensures
        read_string(escaped_text(text) + "\""@ + rest) == Some((text, rest)),
    decreases text.len(),
{
    reveal_strlit("\"");
    let end = "\""@ + rest;
    let s = escaped_text(text) + "\""@ + rest;
    assert(s == escaped_text(text) + end);
    if text.len() == 0 {
        assert(s == end);
        assert(end.skip(1) == rest);
        assert(text == Seq::<char>::empty());
    } else {
        let more = text.skip(1);
        escaping_is_reversible(more, rest);
        let tail = escaped_text(more) + "\""@ + rest;
        assert(s == escaped_char(text[0]) + tail);
        lemma_char_is_read(text[0], tail);
        assert(seq![text[0]] + more == text);
    }
}

/// No escaped character is a newline.
proof fn lemma_no_newline(c: char)
    ensures
        !escaped_char(c).contains('\n'),
{
    if is_control(c) {
        assert(low_digit(c as int / 16) as int >= 0x30);
        assert(low_digit(c as int % 16) as int >= 0x30);
    }
}

/// An escaped text fits on one line.
pub proof fn escaping_removes_newlines(s: Seq<char>)
    ensures
        !escaped_text(s).contains('\n'),
    decreases s.len(),
{
    if s.len() > 0 {
        escaping_removes_newlines(s.skip(1));
        lemma_no_newline(s[0]);
        let head = escaped_char(s[0]);
        let tail = escaped_text(s.skip(1));
        let e = head + tail;
        assert forall|i: int| 0 <= i < e.len() implies e[i] != '\n' by {
            if i < head.len() {
                assert(e[i] == head[i]);
                assert(head.contains(head[i]));
            } else {
                assert(e[i] == tail[i - head.len()]);
                assert(tail.contains(tail[i - head.len()]));
            }
        }
    }
}

/// The JSON string at the front is read first.
proof fn lemma_quoted_is_read(text: Seq<char>, rest: Seq<char>)
    ensures
        (quoted(text) + rest).len() > 0,
        (quoted(text) + rest)[0] == '"',
        read_string((quoted(text) + rest).skip(1)) == Some((text, rest)),
{
    reveal_strlit("\"");
    escaping_is_reversible(text, rest);
    assert((quoted(text) + rest).skip(1) == escaped_text(text) + "\""@ + rest);
}

/// Strings with commas between them are read one after the other.
proof fn lemma_items_are_read(texts: Seq<Seq<char>>)
    requires
        texts.len() > 0,
    ensures
        read_items(comma_separated(texts.map_values(|t: Seq<char>| quoted(t))) + "]"@) == Some(
            texts,
        ),
    decreases texts.len(),
{
    reveal_strlit("]");
    reveal_strlit(",");
    let items = texts.map_values(|t: Seq<char>| quoted(t));
    let s = comma_separated(items) + "]"@;
    if texts.len() == 1 {
        lemma_quoted_is_read(texts[0], "]"@);
        assert(seq![texts[0]] == texts);
    } else {
        let more = texts.skip(1);
        lemma_items_are_read(more);
        assert(items.skip(1) == more.map_values(|t: Seq<char>| quoted(t)));
        let tail = comma_separated(items.skip(1)) + "]"@;
        let rest = ","@ + tail;
        lemma_quoted_is_read(texts[0], rest);
        assert(s == quoted(texts[0]) + rest);
        assert(rest.skip(1) == tail);
        assert(rest[0] == ',');
        assert(rest != "]"@);
        assert(seq![texts[0]] + more == texts);
    }
}

/// A JSON array of strings is read as the texts that it was written from.
pub proof fn strings_are_read_back(texts: Seq<Seq<char>>)
    ensures
        strings_in(json_array(texts.map_values(|t: Seq<char>| quoted(t)))) == Some(texts),
{
    reveal_strlit("[]");
    reveal_strlit("[");
    reveal_strlit("]");
    let items = texts.map_values(|t: Seq<char>| quoted(t));
    let s = json_array(items);
    if texts.len() == 0 {
        assert(s == "[]"@);
        assert(texts == Seq::<Seq<char>>::empty());
    } else {
        lemma_items_are_read(texts);
        let tail = comma_separated(items) + "]"@;
        assert(s == "["@ + tail);
        assert(s.skip(1) == tail);
        assert(tail[0] == '"') by {
            if read_items(tail) is None {
                assert(false);
            }
        }
        assert(s[1] == '"');
        assert("[]"@[1] == ']');
    }
}

/// Members with commas between them are read one after the other.
proof fn lemma_members_are_read(members: Seq<Member>, after: Seq<char>)
    requires
        members.len() > 0,
    ensures
        read_members(
            comma_separated(members.map_values(|m: Member| json_member(m))) + "}"@ + after,
        ) == Some((members, after)),
    decreases members.len(),
{
    reveal_strlit("}");
    reveal_strlit(",");
    reveal_strlit(":");
    reveal_strlit("\"");
    let items = members.map_values(|m: Member| json_member(m));
    let s = comma_separated(items) + "}"@ + after;
    let m = members[0];
    let more = members.skip(1);
    let rest = if members.len() == 1 {
        "}"@ + after
    } else {
        ","@ + (comma_separated(items.skip(1)) + "}"@ + after)
    };
    assert(items[0] == json_member(m));
    let at = ":"@ + (quoted(m.1) + rest);
    assert(s == quoted(m.0) + at);
    lemma_quoted_is_read(m.0, at);
    lemma_quoted_is_read(m.1, rest);
    assert(at.skip(1) == quoted(m.1) + rest);
    assert(at.skip(2) == (quoted(m.1) + rest).skip(1));
    assert(at[1] == (quoted(m.1) + rest)[0]);
    if members.len() == 1 {
        assert(rest.skip(1) == after);
        assert(seq![m] == members);
        assert((m.0, m.1) == m);
    } else {
        lemma_members_are_read(more, after);
        assert(items.skip(1) == more.map_values(|m: Member| json_member(m)));
        assert(rest.skip(1) == comma_separated(items.skip(1)) + "}"@ + after);
        assert(rest[0] == ',');
        assert((m.0, m.1) == m);
        assert(seq![m] + more == members);
    }
}

/// The JSON object at the front is read first.
proof fn lemma_object_is_read(members: Seq<Member>, rest: Seq<char>)
    requires
        members.len() > 0,
    ensures
        (json_object(members) + rest).len() > 0,
        (json_object(members) + rest)[0] == '{',
        read_members((json_object(members) + rest).skip(1)) == Some((members, rest)),
{
    reveal_strlit("{");
    lemma_members_are_read(members, rest);
    let items = members.map_values(|m: Member| json_member(m));
    assert((json_object(members) + rest).skip(1) == comma_separated(items) + "}"@ + rest);
}

/// The last object of an array is read alone.
proof fn lemma_last_object(members: Seq<Member>)
    requires
        members.len() > 0,
    ensures
        read_objects(json_object(members) + "]"@) == Some(seq![members]),
{
    lemma_object_is_read(members, "]"@);
}

/// An object with a comma behind it is read before the others.
proof fn lemma_first_object(members: Seq<Member>, tail: Seq<char>)
    requires
        members.len() > 0,
        read_objects(tail) is Some,
    ensures
        read_objects(json_object(members) + (","@ + tail)) == Some(
            seq![members] + read_objects(tail)->0,
        ),
{
    reveal_strlit("]");
    reveal_strlit(",");
    let rest = ","@ + tail;
    lemma_object_is_read(members, rest);
    assert(rest.skip(1) == tail);
    assert(rest[0] == ',');
    assert(rest != "]"@);
}

/// The first item stands before a comma and the others.
proof fn lemma_first_item(items: Seq<Seq<char>>, end: Seq<char>)
    requires
        items.len() > 0,
    ensures
        items.len() == 1 ==> comma_separated(items) + end == items[0] + end,
        items.len() > 1 ==> comma_separated(items) + end == items[0] + (","@ + (comma_separated(
            items.skip(1),
        ) + end)),
{
    if items.len() > 1 {
        let tail = comma_separated(items.skip(1));
        assert(items[0] + ","@ + tail + end == items[0] + (","@ + (tail + end)));
    }
}

/// Objects with commas between them are read one after the other.
proof fn lemma_objects_are_read(objects: Seq<Seq<Member>>)
    requires
        objects.len() > 0,
        forall|i: int| 0 <= i < objects.len() ==> (#[trigger] objects[i]).len() > 0,
    ensures
        read_objects(
            comma_separated(objects.map_values(|o: Seq<Member>| json_object(o))) + "]"@,
        ) == Some(objects),
    decreases objects.len(),
{
    let items = objects.map_values(|o: Seq<Member>| json_object(o));
    lemma_first_item(items, "]"@);
    if objects.len() == 1 {
        lemma_last_object(objects[0]);
        assert(seq![objects[0]] == objects);
    } else {
        let more = objects.skip(1);
        assert forall|i: int| 0 <= i < more.len() implies (#[trigger] more[i]).len() > 0 by {
            assert(more[i] == objects[i + 1]);
        }
        lemma_objects_are_read(more);
        assert(items.skip(1) == more.map_values(|o: Seq<Member>| json_object(o)));
        lemma_first_object(objects[0], comma_separated(items.skip(1)) + "]"@);
        assert(seq![objects[0]] + more == objects);
    }
}

/// A JSON array of objects is read as the members that it was written from.
pub proof fn objects_are_read_back(objects: Seq<Seq<Member>>)
    requires
        forall|i: int| 0 <= i < objects.len() ==> (#[trigger] objects[i]).len() > 0,
    ensures
        objects_in(json_array(objects.map_values(|o: Seq<Member>| json_object(o)))) == Some(
            objects,
        ),
{
    reveal_strlit("[]");
    reveal_strlit("[");
    reveal_strlit("]");
    reveal_strlit("{");
    let items = objects.map_values(|o: Seq<Member>| json_object(o));
    let s = json_array(items);
    if objects.len() == 0 {
        assert(s == "[]"@);
        assert(objects == Seq::<Seq<Member>>::empty());
    } else {
        lemma_objects_are_read(objects);
        let tail = comma_separated(items) + "]"@;
        assert(s == "["@ + tail);
        assert(s.skip(1) == tail);
        assert(tail[0] == '{') by {
            if read_objects(tail) is None {
                assert(false);
            }
        }
        assert(s[1] == '{');
        assert("[]"@[1] == ']');
    }
}

} // verus!
