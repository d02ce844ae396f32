//! JSON text of strings, and the few shapes of JSON that the skill tools send.
use crate::text;
use vstd::prelude::*;

verus! {

/// The escape of one character inside a JSON string.
pub open spec fn escaped_char(c: char) -> Seq<char> {
    let code = c as u32;
    if c == '"' {
        seq!['\\', '"']
    } else if c == '\\' {
        seq!['\\', '\\']
    } else if code == 0x08 {
        seq!['\\', 'b']
    } else if code == 0x0c {
        seq!['\\', 'f']
    } else if code == 0x0a {
        seq!['\\', 'n']
    } else if code == 0x0d {
        seq!['\\', 'r']
    } else if code == 0x09 {
        seq!['\\', 't']
    } else if code < 0x20 {
        seq![
            '\\',
            'u',
            '0',
            '0',
            crate::ids::hex_char((code / 16) as int),
            crate::ids::hex_char((code % 16) as int),
        ]
    } else {
        seq![c]
    }
}

/// The escapes of all characters of `s`, in order.
pub open spec fn escaped(s: Seq<char>) -> Seq<char>
    decreases s.len(),
{
    if s.len() == 0 {
        Seq::empty()
    } else {
        escaped(s.drop_last()) + escaped_char(s.last())
    }
}

/// The JSON text of a string.
pub open spec fn string_json(s: Seq<char>) -> Seq<char> {
    seq!['"'] + escaped(s) + seq!['"']
}

/// How many bytes the escape of a character takes.
pub open spec fn escaped_width(c: char) -> nat {
    text::utf8_len(escaped_char(c))
}

/// The measure that gives each character the bytes of its escape.
pub open spec fn escape_measure() -> spec_fn(char) -> nat {
    |c: char| escaped_width(c)
}

/// `serde_json::Error`, of which nothing is read.
#[verifier::external_type_specification]
#[verifier::external_body]
pub struct ExJsonError(serde_json::Error);

/// Calls `serde_json::to_string` on a string slice.
///
/// Serialising a string into memory always succeeds. The result is the string
/// in quotes, with quotes, backslashes and control characters escaped and every
/// other character as it is.
#[verifier::external_body]
fn serialize_str(value: &str) -> (res: Result<String, serde_json::Error>)
    ensures
        res is Ok,
        res->Ok_0@ == string_json(value@),
{
    serde_json::to_string(value)
}

/// Appends the JSON text of a string.
pub fn push_string(out: &mut String, value: &str)
    ensures
        final(out)@ == old(out)@ + string_json(value@),
{
    match serialize_str(value) {
        Ok(json) => {
            out.append(json.as_str());
        },
        // A string always serialises.
        Err(_) => {},
    }
}

/// How many bytes a character takes inside a JSON string.
pub fn json_escaped_len(ch: char) -> (len: usize)
    ensures
        len == escaped_width(ch),
        1 <= len <= 6,
{
    proof {
        lemma_escaped_width(ch);
    }
    let code: u32 = ch as u32;
    if ch == '"' || ch == '\\' || code == 0x08 || code == 0x0c || code == 0x0a || code == 0x0d
        || code == 0x09 {
        2
    } else if code <= 0x1f {
        6
    } else {
        text::char_byte_len(ch)
    }
}

/// The width of an escape: two bytes for the characters with a short escape,
/// six for the other control characters, else the character's own width.
pub proof fn lemma_escaped_width(c: char)
    ensures
        escaped_width(c) == if c == '"' || c == '\\' || c as u32 == 0x08 || c as u32 == 0x0c
            || c as u32 == 0x0a || c as u32 == 0x0d || c as u32 == 0x09 {
            2
        } else if (c as u32) < 0x20 {
            6
        } else {
            text::char_width(c)
        },
{
    reveal_with_fuel(text::total, 7);
    let e = escaped_char(c);
    if e.len() == 1 {
        assert(e.drop_last() =~= Seq::<char>::empty());
    } else if e.len() == 2 {
        assert(e.drop_last() =~= seq![e[0]]);
        assert(e.drop_last().drop_last() =~= Seq::<char>::empty());
    } else {
        let e5 = e.drop_last();
        let e4 = e5.drop_last();
        let e3 = e4.drop_last();
        let e2 = e3.drop_last();
        let e1 = e2.drop_last();
        assert(e1.drop_last() =~= Seq::<char>::empty());
        assert(text::total(e1, text::width_measure()) == 1);
        assert(text::total(e2, text::width_measure()) == 2);
        assert(text::total(e3, text::width_measure()) == 3);
        assert(text::total(e4, text::width_measure()) == 4);
        assert(text::total(e5, text::width_measure()) == 5);
    }
}

/// The bytes of an escaped text are the sum of the bytes of its escapes.
pub proof fn lemma_escaped_bytes(s: Seq<char>)
    ensures
        text::utf8_len(escaped(s)) == text::total(s, escape_measure()),
    decreases s.len(),
{
    if s.len() > 0 {
        lemma_escaped_bytes(s.drop_last());
        text::lemma_total_add(escaped(s.drop_last()), escaped_char(s.last()), text::width_measure());
    }
}

/// The JSON text of a string has the bytes of its escapes and two quotes.
pub proof fn lemma_string_json_bytes(s: Seq<char>)
    ensures
        text::utf8_len(string_json(s)) == text::total(s, escape_measure()) + 2,
{
    let q = seq!['"'];
    lemma_escaped_bytes(s);
    text::lemma_total_add(q + escaped(s), q, text::width_measure());
    text::lemma_total_add(q, escaped(s), text::width_measure());
    assert(q.drop_last() =~= Seq::<char>::empty());
    reveal_with_fuel(text::total, 2);
}

/// JSON text of an optional string: `null` where there is none.
pub open spec fn option_json(s: Option<Seq<char>>) -> Seq<char> {
    match s {
        Some(s) => string_json(s),
        None => "null"@,
    }
}

/// JSON text of a truth value.
pub open spec fn bool_json(b: bool) -> Seq<char> {
    if b {
        "true"@
    } else {
        "false"@
    }
}

/// JSON texts separated by commas.
pub open spec fn joined(items: Seq<Seq<char>>) -> Seq<char>
    decreases items.len(),
{
    if items.len() == 0 {
        Seq::empty()
    } else if items.len() == 1 {
        items[0]
    } else {
        joined(items.drop_last()) + ","@ + items.last()
    }
}

/// Appends the JSON text of an optional string.
pub fn push_option(out: &mut String, value: &Option<String>)
    ensures
        final(out)@ == old(out)@ + option_json(
            match *value {
                Some(s) => Some(s@),
                None => None,
            },
        ),
{
    match value {
        Some(s) => push_string(out, s.as_str()),
        None => out.append("null"),
    }
}

/// Appends the JSON text of a truth value.
pub fn push_bool(out: &mut String, value: bool)
    ensures
        final(out)@ == old(out)@ + bool_json(value),
{
    if value {
        out.append("true");
    } else {
        out.append("false");
    }
}

/// An optional string is its own JSON text, or `null`.
pub proof fn law_option_json(s: Seq<char>)
    ensures
        option_json(Some(s)) == seq!['"'] + escaped(s) + seq!['"'],
        option_json(None) == "null"@,
        bool_json(true) == "true"@,
        bool_json(false) == "false"@,
{
}

/// Items are separated by one comma each, in order.
pub proof fn law_joined(items: Seq<Seq<char>>, item: Seq<char>)
    ensures
        joined(Seq::empty()) == Seq::<char>::empty(),
        joined(items.push(item)) == if items.len() == 0 {
            item
        } else {
            joined(items).push(',') + item
        },
{
    reveal_strlit(",");
    assert(items.push(item).drop_last() =~= items);
    assert(joined(items) + ","@ + item =~= joined(items).push(',') + item);
}

} // verus!
