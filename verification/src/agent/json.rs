//! The JSON values that the research protocol reads and writes.

use vstd::prelude::*;

use crate::text::{
    append_str, chars_of, decimal, decimal_text, push_char, same_text, signed_decimal, signed_decimal_text,
};

verus! {

/// A JSON number as the parser classified it.
#[derive(Clone, Debug, PartialEq)]
pub enum JsonNumber {
    /// A nonnegative integer.
    PosInt(u64),
    /// A negative integer.
    NegInt(i64),
    /// Any other number, kept as its JSON text.
    Float(String),
}

/// A parsed JSON value. Object members keep the parser's order and never
/// repeat a key.
#[derive(Debug, PartialEq)]
pub enum JsonValue {
    Null,
    Bool(bool),
    Number(JsonNumber),
    Str(String),
    Array(Vec<JsonValue>),
    Object(Vec<(String, JsonValue)>),
}

/// The value of the first member named `key`.
pub open spec fn member(o: Seq<(String, JsonValue)>, key: Seq<char>) -> Option<JsonValue>
    decreases o.len(),
{
    if o.len() == 0 {
        None
    } else if o[0].0@ == key {
        Some(o[0].1)
    } else {
        member(o.drop_first(), key)
    }
}

/// `Value::get` on an object: the member named `key`, if any.
pub fn object_get<'a>(o: &'a Vec<(String, JsonValue)>, key: &str) -> (r: Option<&'a JsonValue>)
    ensures
        match r {
            Some(v) => member(o@, key@) == Some(*v),
            None => member(o@, key@) is None,
        },
{
    let mut i: usize = 0;
    assert(o@.subrange(0, o@.len() as int) == o@);
    while i < o.len()
        invariant
            i <= o.len(),
            member(o@, key@) == member(o@.subrange(i as int, o@.len() as int), key@),
        decreases o.len() - i,
    {
        assert(o@.subrange(i as int, o@.len() as int).drop_first() == o@.subrange(
            i as int + 1,
            o@.len() as int,
        ));
        if same_text(o[i].0.as_str(), key) {
            return Some(&o[i].1);
        }
        i = i + 1;
    }
    None
}


/// A lowercase hexadecimal digit.
pub open spec fn hex_digit_char(n: nat) -> char {
    if n < 10 {
        (n + 48) as char
    } else {
        (n + 87) as char
    }
}

/// How a JSON string shows one character: quotes, backslashes and control
/// characters escaped, the common ones by letter, everything else as is.
pub open spec fn escaped_char(c: char) -> Seq<char> {
    if c == '"' {
        seq!['\\', '"']
    } else if c == '\\' {
        seq!['\\', '\\']
    } else if c == '\n' {
        seq!['\\', 'n']
    } else if c == '\r' {
        seq!['\\', 'r']
    } else if c == '\t' {
        seq!['\\', 't']
    } else if c == '\x08' {
        seq!['\\', 'b']
    } else if c == '\x0c' {
        seq!['\\', 'f']
    } else if (c as u32) < 0x20 {
        seq!['\\', 'u', '0', '0', hex_digit_char((c as u32 / 16) as nat), hex_digit_char((c as u32 % 16) as nat)]
    } else {
        seq![c]
    }
}

/// The escaped characters of a JSON string.
pub open spec fn escaped(s: Seq<char>) -> Seq<char>
    decreases s.len(),
{
    if s.len() == 0 {
        Seq::empty()
    } else {
        escaped(s.drop_last()) + escaped_char(s.last())
    }
}

/// The compact JSON text of a value.
pub open spec fn json_text(v: JsonValue) -> Seq<char>
    decreases v,
{
    match v {
        JsonValue::Null => "null"@,
        JsonValue::Bool(b) => if b {
            "true"@
        } else {
            "false"@
        },
        JsonValue::Number(JsonNumber::PosInt(n)) => decimal(n as nat),
        JsonValue::Number(JsonNumber::NegInt(n)) => signed_decimal(n as int),
        JsonValue::Number(JsonNumber::Float(t)) => t@,
        JsonValue::Str(s) => seq!['"'] + escaped(s@) + seq!['"'],
        JsonValue::Array(items) => seq!['['] + items_text(items@) + seq![']'],
        JsonValue::Object(members) => seq!['{'] + members_text(members@) + seq!['}'],
    }
}

/// The texts of array items, separated by commas.
pub open spec fn items_text(items: Seq<JsonValue>) -> Seq<char>
    decreases items,
{
    if items.len() == 0 {
        Seq::empty()
    } else if items.len() == 1 {
        json_text(items[0])
    } else {
        items_text(items.drop_last()) + seq![','] + json_text(items.last())
    }
}

/// The texts of object members, `"key":value`, separated by commas.
pub open spec fn members_text(members: Seq<(String, JsonValue)>) -> Seq<char>
    decreases members,
{
    if members.len() == 0 {
        Seq::empty()
    } else if members.len() == 1 {
        seq!['"'] + escaped(members[0].0@) + seq!['"', ':'] + json_text(members[0].1)
    } else {
        members_text(members.drop_last()) + seq![','] + seq!['"'] + escaped(members.last().0@) + seq!['"', ':']
            + json_text(members.last().1)
    }
}


fn push_escaped_char(out: &mut String, c: char)
    ensures
        final(out)@ == old(out)@ + escaped_char(c),
{
    if c == '"' {
        push_char(out, '\\');
        push_char(out, '"');
    } else if c == '\\' {
        push_char(out, '\\');
        push_char(out, '\\');
    } else if c == '\n' {
        push_char(out, '\\');
        push_char(out, 'n');
    } else if c == '\r' {
        push_char(out, '\\');
        push_char(out, 'r');
    } else if c == '\t' {
        push_char(out, '\\');
        push_char(out, 't');
    } else if c == '\x08' {
        push_char(out, '\\');
        push_char(out, 'b');
    } else if c == '\x0c' {
        push_char(out, '\\');
        push_char(out, 'f');
    } else if (c as u32) < 0x20 {
        let u = c as u32;
        let high = u / 16;
        let low = u % 16;
        let h: char = if high < 10 {
            (high as u8 + 48) as char
        } else {
            (high as u8 + 87) as char
        };
        let l: char = if low < 10 {
            (low as u8 + 48) as char
        } else {
            (low as u8 + 87) as char
        };
        assert(h == hex_digit_char(high as nat));
        assert(l == hex_digit_char(low as nat));
        push_char(out, '\\');
        push_char(out, 'u');
        push_char(out, '0');
        push_char(out, '0');
        push_char(out, h);
        push_char(out, l);
    } else {
        push_char(out, c);
    }
    assert(final(out)@ =~= old(out)@ + escaped_char(c));
}

fn push_escaped(out: &mut String, s: &str)
    ensures
        final(out)@ == old(out)@ + escaped(s@),
{
    let chars = chars_of(s);
    let ghost start = out@;
    let mut i: usize = 0;
    while i < chars.len()
        invariant
            i <= chars@.len(),
            chars@ == s@,
            out@ == start + escaped(chars@.take(i as int)),
        decreases chars@.len() - i,
    {
        push_escaped_char(out, chars[i]);
        assert(chars@.take(i + 1).drop_last() =~= chars@.take(i as int));
        i = i + 1;
    }
    assert(chars@.take(chars@.len() as int) =~= s@);
}

/// Writes the compact JSON text of `v`.
fn write_json(out: &mut String, v: &JsonValue)
    ensures
        final(out)@ == old(out)@ + json_text(*v),
    decreases v,
{
    let ghost start = out@;
    match v {
        JsonValue::Null => append_str(out, "null"),
        JsonValue::Bool(b) => if *b {
            append_str(out, "true")
        } else {
            append_str(out, "false")
        },
        JsonValue::Number(JsonNumber::PosInt(n)) => {
            let text = decimal_text(*n);
            append_str(out, text.as_str());
        },
        JsonValue::Number(JsonNumber::NegInt(n)) => {
            let text = signed_decimal_text(*n);
            append_str(out, text.as_str());
        },
        JsonValue::Number(JsonNumber::Float(text)) => append_str(out, text.as_str()),
        JsonValue::Str(s) => {
            push_char(out, '"');
            push_escaped(out, s.as_str());
            push_char(out, '"');
        },
        JsonValue::Array(items) => {
            push_char(out, '[');
            let mut i: usize = 0;
            while i < items.len()
                invariant
                    i <= items@.len(),
                    out@ == start + seq!['['] + items_text(items@.take(i as int)),
                    *v == JsonValue::Array(*items),
                decreases items@.len() - i,
            {
                let ghost before = out@;
                if i > 0 {
                    push_char(out, ',');
                }
                proof {
                    assert(decreases_to!(*v => (*v)->Array_0));
                    assert((*v)->Array_0 == *items);
                    assert(decreases_to!(*items => items@));
                    assert(decreases_to!(items@ => items@[i as int]));
                    assert(decreases_to!(*v => items@[i as int]));
                }
                write_json(out, &items[i]);
                assert(items@.take(i + 1).drop_last() =~= items@.take(i as int));
                assert(items@.take(i + 1).last() == items@[i as int]);
                if i == 0 {
                    assert(items@.take(1)[0] == items@[0]);
                }
                i = i + 1;
            }
            assert(items@.take(items@.len() as int) =~= items@);
            push_char(out, ']');
        },
        JsonValue::Object(members) => {
            push_char(out, '{');
            let mut i: usize = 0;
            while i < members.len()
                invariant
                    i <= members@.len(),
                    out@ == start + seq!['{'] + members_text(members@.take(i as int)),
                    *v == JsonValue::Object(*members),
                decreases members@.len() - i,
            {
                if i > 0 {
                    push_char(out, ',');
                }
                push_char(out, '"');
                push_escaped(out, members[i].0.as_str());
                push_char(out, '"');
                push_char(out, ':');
                proof {
                    assert(decreases_to!(*members => members@));
                    assert(decreases_to!(members@ => members@[i as int]));
                    assert(decreases_to!(members@[i as int] => members@[i as int].1));
                    assert(decreases_to!(*v => (*v)->Object_0));
                    assert((*v)->Object_0 == *members);
                    assert(decreases_to!(*v => members@[i as int].1));
                }
                write_json(out, &members[i].1);
                assert(members@.take(i + 1).drop_last() =~= members@.take(i as int));
                assert(members@.take(i + 1).last() == members@[i as int]);
                if i == 0 {
                    assert(members@.take(1)[0] == members@[0]);
                }
                i = i + 1;
            }
            assert(members@.take(members@.len() as int) =~= members@);
            push_char(out, '}');
        },
    }
    assert(final(out)@ =~= start + json_text(*v));
}

/// The compact JSON text of `v`, cut to its first 64 characters and an
/// ellipsis when longer.
pub open spec fn shown_value(v: JsonValue) -> Seq<char> {
    let text = json_text(v);
    if text.len() <= 64 {
        text
    } else {
        text.take(64) + seq!['\u{2026}']
    }
}

/// The value as an error shows it: its compact JSON text, cut to 64
/// characters and an ellipsis.
pub fn shown_json(v: &JsonValue) -> (r: String)
    ensures
        r@ == shown_value(*v),
{
    let mut text = String::new();
    write_json(&mut text, v);
    assert(text@ =~= json_text(*v));
    let chars = chars_of(text.as_str());
    if chars.len() <= 64 {
        return text;
    }
    let mut r = String::new();
    let mut i: usize = 0;
    while i < 64
        invariant
            i <= 64 <= chars@.len(),
            r@ == chars@.take(i as int),
        decreases 64 - i,
    {
        push_char(&mut r, chars[i]);
        assert(chars@.take(i + 1) =~= chars@.take(i as int).push(chars@[i as int]));
        i = i + 1;
    }
    push_char(&mut r, '\u{2026}');
    r
}

} // verus!
