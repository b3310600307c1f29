//! The structured body template: a JSON-like tree and its canonical text.
use crate::text::{chars_of, push_char};
use vstd::prelude::*;
use vstd::string::StringExecFns;

verus! {

/// A JSON-like tree serving as a canned response payload. A number is
/// carried as its literal text, so synthesizing it emits that text exactly.
#[derive(Debug, PartialEq)]
pub enum JsonValue {
    Null,
    Bool(bool),
    Number(String),
    Text(String),
    Array(Vec<JsonValue>),
    Object(Vec<(String, JsonValue)>),
}

/// The character for one hexadecimal digit, lower case.
pub open spec fn hex_digit(d: u32) -> char
    recommends
        d < 16,
{
    if d < 10 {
        ((d + 48) as u8) as char
    } else {
        ((d + 87) as u8) as char
    }
}

/// How one character appears inside a JSON string literal.
pub open spec fn escape_char(c: char) -> Seq<char> {
    if c == '"' {
        seq!['\\', '"']
    } else if c == '\\' {
        seq!['\\', '\\']
    } else if c == '\n' {
        seq!['\\', 'n']
    } else if c == '\r' {
        seq!['\\', 'r']
    } else if c == '\t' {
        seq!['\\', 't']
    } else if c as u32 == 8 {
        seq!['\\', 'b']
    } else if c as u32 == 12 {
        seq!['\\', 'f']
    } else if (c as u32) < 32 {
        seq!['\\', 'u', '0', '0', hex_digit(c as u32 / 16), hex_digit(c as u32 % 16)]
    } else {
        seq![c]
    }
}

/// A text with every character escaped for a JSON string literal.
pub open spec fn escape_text(s: Seq<char>) -> Seq<char>
    decreases s.len(),
{
    if s.len() == 0 {
        Seq::empty()
    } else {
        escape_text(s.drop_last()) + escape_char(s.last())
    }
}

/// A JSON string literal: the escaped text between double quotes.
pub open spec fn quoted_text(s: Seq<char>) -> Seq<char> {
    seq!['"'] + escape_text(s) + seq!['"']
}

/// The canonical JSON text of a tree.
pub open spec fn json_text(v: JsonValue) -> Seq<char>
    decreases v,
{
    match v {
        JsonValue::Null => "null"@,
        JsonValue::Bool(b) => if b {
            "true"@
        } else {
            "false"@
        },
        JsonValue::Number(n) => n@,
        JsonValue::Text(s) => quoted_text(s@),
        JsonValue::Array(items) => seq!['['] + items_text(items@) + seq![']'],
        JsonValue::Object(fields) => seq!['{'] + fields_text(fields@) + seq!['}'],
    }
}

/// The comma-separated JSON texts of an array's elements.
pub open spec fn items_text(items: Seq<JsonValue>) -> Seq<char>
    decreases items,
{
    if items.len() == 0 {
        Seq::empty()
    } else if items.len() == 1 {
        json_text(items[0])
    } else {
        items_text(items.drop_last()) + seq![','] + json_text(items.last())
    }
}

/// One object member: quoted key, colon, value.
pub open spec fn field_text(f: (String, JsonValue)) -> Seq<char>
    decreases f,
{
    quoted_text(f.0@) + seq![':'] + json_text(f.1)
}

/// The comma-separated members of an object.
pub open spec fn fields_text(fields: Seq<(String, JsonValue)>) -> Seq<char>
    decreases fields,
{
    if fields.len() == 0 {
        Seq::empty()
    } else if fields.len() == 1 {
        field_text(fields[0])
    } else {
        fields_text(fields.drop_last()) + seq![','] + field_text(fields.last())
    }
}

proof fn lemma_items_text_step(items: Seq<JsonValue>, i: int)
    requires
        0 <= i < items.len(),
    ensures
        items_text(items.take(i + 1)) == if i == 0 {
            json_text(items[0])
        } else {
            items_text(items.take(i)) + seq![','] + json_text(items[i])
        },
{
    let t = items.take(i + 1);
    assert(t.drop_last() =~= items.take(i));
    assert(t.last() == items[i]);
}

proof fn lemma_fields_text_step(fields: Seq<(String, JsonValue)>, i: int)
    requires
        0 <= i < fields.len(),
    ensures
        fields_text(fields.take(i + 1)) == if i == 0 {
            field_text(fields[0])
        } else {
            fields_text(fields.take(i)) + seq![','] + field_text(fields[i])
        },
{
    let t = fields.take(i + 1);
    assert(t.drop_last() =~= fields.take(i));
    assert(t.last() == fields[i]);
}

fn hex_digit_exec(d: u32) -> (c: char)
    requires
        d < 16,
    ensures
        c == hex_digit(d),
{
    if d < 10 {
        ((d + 48) as u8) as char
    } else {
        ((d + 87) as u8) as char
    }
}

fn push_escaped(out: &mut String, c: char)
    ensures
        final(out)@ == old(out)@ + escape_char(c),
{
    if c == '"' {
        push_char(out, '\\');
        push_char(out, '"');
    } else if c == '\\' {
        push_char(out, '\\');
        push_char(out, '\\');
    } else if c == '\n' {
        push_char(out, '\\');
        push_char(out, 'n');
    } else if c == '\r' {
        push_char(out, '\\');
        push_char(out, 'r');
    } else if c == '\t' {
        push_char(out, '\\');
        push_char(out, 't');
    } else if c as u32 == 8 {
        push_char(out, '\\');
        push_char(out, 'b');
    } else if c as u32 == 12 {
        push_char(out, '\\');
        push_char(out, 'f');
    } else if (c as u32) < 32 {
        push_char(out, '\\');
        push_char(out, 'u');
        push_char(out, '0');
        push_char(out, '0');
        let code = c as u32;
        push_char(out, hex_digit_exec(code / 16));
        push_char(out, hex_digit_exec(code % 16));
    } else {
        push_char(out, c);
    }
    proof {
        assert(out@ =~= old(out)@ + escape_char(c));
    }
}

pub(crate) fn write_escaped(out: &mut String, s: &str)
    ensures
        final(out)@ == old(out)@ + escape_text(s@),
{
    let chars = chars_of(s);
    let mut i: usize = 0;
    while i < chars.len()
        invariant
            i <= chars.len(),
            chars@ == s@,
            out@ == old(out)@ + escape_text(s@.take(i as int)),
        decreases chars.len() - i,
    {
        push_escaped(out, chars[i]);
        proof {
            assert(s@.take(i + 1).drop_last() =~= s@.take(i as int));
            assert(s@.take(i + 1).last() == s@[i as int]);
        }
        i = i + 1;
    }
    proof {
        assert(s@.take(chars.len() as int) =~= s@);
    }
}

pub(crate) fn write_quoted(out: &mut String, s: &str)
    ensures
        final(out)@ == old(out)@ + quoted_text(s@),
{
    push_char(out, '"');
    write_escaped(out, s);
    push_char(out, '"');
    proof {
        assert(out@ =~= old(out)@ + quoted_text(s@));
    }
}

pub(crate) fn write_json(v: &JsonValue, out: &mut String)
    ensures
        final(out)@ == old(out)@ + json_text(*v),
    decreases *v,
{
    match v {
        JsonValue::Null => {
            out.append("null");
        },
        JsonValue::Bool(b) => {
            if *b {
                out.append("true");
            } else {
                out.append("false");
            }
        },
        JsonValue::Number(n) => {
            out.append(n.as_str());
        },
        JsonValue::Text(s) => {
            write_quoted(out, s.as_str());
            proof {
                assert(out@ =~= old(out)@ + json_text(*v));
            }
        },
        JsonValue::Array(items) => {
            push_char(out, '[');
            let ghost base = out@;
            let mut i: usize = 0;
            #[verifier::loop_isolation(false)]
            while i < items.len()
                invariant
                    i <= items.len(),
                    out@ == base + items_text(items@.take(i as int)),
                decreases items.len() - i,
            {
                if i > 0 {
                    push_char(out, ',');
                }
                proof {
                    assert(decreases_to!(*v => v->Array_0));
                    assert(decreases_to!(v->Array_0 => items@));
                    assert(decreases_to!(items@ => items@[i as int]));
                    assert(decreases_to!(*v => items@[i as int]));
                }
                write_json(&items[i], out);
                proof {
                    lemma_items_text_step(items@, i as int);
                }
                i = i + 1;
            }
            push_char(out, ']');
            proof {
                assert(items@.take(items.len() as int) =~= items@);
                assert(out@ =~= old(out)@ + json_text(*v));
            }
        },
        JsonValue::Object(fields) => {
            push_char(out, '{');
            let ghost base = out@;
            let mut i: usize = 0;
            #[verifier::loop_isolation(false)]
            while i < fields.len()
                invariant
                    i <= fields.len(),
                    out@ == base + fields_text(fields@.take(i as int)),
                decreases fields.len() - i,
            {
                if i > 0 {
                    push_char(out, ',');
                }
                write_quoted(out, fields[i].0.as_str());
                push_char(out, ':');
                proof {
                    assert(decreases_to!(*v => v->Object_0));
                    assert(decreases_to!(v->Object_0 => fields@));
                    assert(decreases_to!(fields@ => fields@[i as int]));
                    assert(decreases_to!(fields@[i as int] => fields@[i as int].1));
                    assert(decreases_to!(*v => fields@[i as int].1));
                }
                write_json(&fields[i].1, out);
                proof {
                    lemma_fields_text_step(fields@, i as int);
                    assert(out@ =~= base + fields_text(fields@.take(i + 1)));
                }
                i = i + 1;
            }
            push_char(out, '}');
            proof {
                assert(fields@.take(fields.len() as int) =~= fields@);
                assert(out@ =~= old(out)@ + json_text(*v));
            }
        },
    }
}

impl JsonValue {
    /// The canonical JSON text of this tree.
    pub fn to_text(&self) -> (r: String)
        ensures
            r@ == json_text(*self),
    {
        let mut out = String::new();
        write_json(self, &mut out);
        proof {
            assert(out@ =~= json_text(*self));
        }
        out
    }
}

} // verus!
