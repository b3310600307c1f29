//! The form-urlencoded encoding of a flat object body.
use crate::json::JsonValue;
use crate::text::{chars_of, push_char};
use vstd::prelude::*;

verus! {

/// A character that passes through form encoding unchanged.
pub open spec fn form_unreserved(c: char) -> bool {
    ('A' <= c && c <= 'Z') || ('a' <= c && c <= 'z') || ('0' <= c && c <= '9') || c == '-' || c
        == '.' || c == '_' || c == '~'
}

/// The UTF-8 bytes of one character.
pub open spec fn utf8_bytes(c: char) -> Seq<u8> {
    let u = c as u32;
    if u < 0x80 {
        seq![u as u8]
    } else if u < 0x800 {
        seq![(0xC0 + u / 0x40) as u8, (0x80 + u % 0x40) as u8]
    } else if u < 0x10000 {
        seq![
            (0xE0 + u / 0x1000) as u8,
            (0x80 + (u / 0x40) % 0x40) as u8,
            (0x80 + u % 0x40) as u8,
        ]
    } else {
        seq![
            (0xF0 + u / 0x40000) as u8,
            (0x80 + (u / 0x1000) % 0x40) as u8,
            (0x80 + (u / 0x40) % 0x40) as u8,
            (0x80 + u % 0x40) as u8,
        ]
    }
}

/// The character for one hexadecimal digit, upper case.
pub open spec fn pct_hex(d: u32) -> char
    recommends
        d < 16,
{
    if d < 10 {
        ((d + 48) as u8) as char
    } else {
        ((d + 55) as u8) as char
    }
}

/// One byte percent-encoded: a percent sign and two upper-case hex digits.
pub open spec fn pct_byte(b: u8) -> Seq<char> {
    seq!['%', pct_hex(b as u32 / 16), pct_hex(b as u32 % 16)]
}

/// A byte sequence percent-encoded, in order.
pub open spec fn pct_bytes(bs: Seq<u8>) -> Seq<char>
    decreases bs.len(),
{
    if bs.len() == 0 {
        Seq::empty()
    } else {
        pct_bytes(bs.drop_last()) + pct_byte(bs.last())
    }
}

/// How one character appears in form encoding: unreserved characters pass,
/// a space becomes a plus, everything else is its percent-encoded UTF-8.
pub open spec fn form_char(c: char) -> Seq<char> {
    if form_unreserved(c) {
        seq![c]
    } else if c == ' ' {
        seq!['+']
    } else {
        pct_bytes(utf8_bytes(c))
    }
}

/// A text form-encoded character by character.
pub open spec fn form_text(s: Seq<char>) -> Seq<char>
    decreases s.len(),
{
    if s.len() == 0 {
        Seq::empty()
    } else {
        form_text(s.drop_last()) + form_char(s.last())
    }
}

/// A body value that can stand on the right of `=`: a scalar.
pub open spec fn scalar_ok(v: JsonValue) -> bool {
    v is Bool || v is Number || v is Text
}

/// The plain text of a scalar body value.
pub open spec fn scalar_text(v: JsonValue) -> Seq<char> {
    match v {
        JsonValue::Bool(b) => if b {
            "true"@
        } else {
            "false"@
        },
        JsonValue::Number(n) => n@,
        JsonValue::Text(s) => s@,
        _ => Seq::empty(),
    }
}

/// Whether a body tree can be form-encoded: an object of scalar values.
pub open spec fn form_encodable(v: JsonValue) -> bool {
    &&& v is Object
    &&& (forall|i: int| 0 <= i < v->Object_0@.len() ==> scalar_ok(#[trigger] v->Object_0@[i].1))
}

/// One member as `key=value`, both form-encoded.
pub open spec fn form_pair_text(f: (String, JsonValue)) -> Seq<char> {
    form_text(f.0@) + seq!['='] + form_text(scalar_text(f.1))
}

/// The members joined with ampersands, in declaration order.
pub open spec fn form_pairs_text(fields: Seq<(String, JsonValue)>) -> Seq<char>
    decreases fields.len(),
{
    if fields.len() == 0 {
        Seq::empty()
    } else if fields.len() == 1 {
        form_pair_text(fields[0])
    } else {
        form_pairs_text(fields.drop_last()) + seq!['&'] + form_pair_text(fields.last())
    }
}

fn pct_hex_exec(d: u32) -> (c: char)
    requires
        d < 16,
    ensures
        c == pct_hex(d),
{
    if d < 10 {
        ((d + 48) as u8) as char
    } else {
        ((d + 55) as u8) as char
    }
}

fn push_pct_byte(out: &mut String, b: u8)
    ensures
        final(out)@ == old(out)@ + pct_byte(b),
{
    push_char(out, '%');
    push_char(out, pct_hex_exec(b as u32 / 16));
    push_char(out, pct_hex_exec(b as u32 % 16));
    proof {
        assert(out@ =~= old(out)@ + pct_byte(b));
    }
}

proof fn lemma_pct_bytes1(b0: u8)
    ensures
        pct_bytes(seq![b0]) == pct_byte(b0),
{
    assert(seq![b0].drop_last() =~= Seq::<u8>::empty());
    assert(pct_bytes(Seq::<u8>::empty()) == Seq::<char>::empty());
    assert(pct_bytes(seq![b0]) =~= pct_byte(b0));
}

proof fn lemma_pct_bytes2(b0: u8, b1: u8)
    ensures
        pct_bytes(seq![b0, b1]) == pct_byte(b0) + pct_byte(b1),
{
    assert(seq![b0, b1].drop_last() =~= seq![b0]);
    lemma_pct_bytes1(b0);
    assert(seq![b0, b1].last() == b1);
}

proof fn lemma_pct_bytes3(b0: u8, b1: u8, b2: u8)
    ensures
        pct_bytes(seq![b0, b1, b2]) == pct_byte(b0) + pct_byte(b1) + pct_byte(b2),
{
    assert(seq![b0, b1, b2].drop_last() =~= seq![b0, b1]);
    lemma_pct_bytes2(b0, b1);
    assert(seq![b0, b1, b2].last() == b2);
}

proof fn lemma_pct_bytes4(b0: u8, b1: u8, b2: u8, b3: u8)
    ensures
        pct_bytes(seq![b0, b1, b2, b3]) == pct_byte(b0) + pct_byte(b1) + pct_byte(b2) + pct_byte(
            b3,
        ),
{
    assert(seq![b0, b1, b2, b3].drop_last() =~= seq![b0, b1, b2]);
    lemma_pct_bytes3(b0, b1, b2);
    assert(seq![b0, b1, b2, b3].last() == b3);
}

fn push_form_char(out: &mut String, c: char)
    ensures
        final(out)@ == old(out)@ + form_char(c),
{
    let unreserved = ('A' <= c && c <= 'Z') || ('a' <= c && c <= 'z') || ('0' <= c && c <= '9')
        || c == '-' || c == '.' || c == '_' || c == '~';
    if unreserved {
        push_char(out, c);
        proof {
            assert(out@ =~= old(out)@ + form_char(c));
        }
    } else if c == ' ' {
        push_char(out, '+');
        proof {
            assert(out@ =~= old(out)@ + form_char(c));
        }
    } else {
        let u = c as u32;
        let ghost bs = utf8_bytes(c);
        if u < 0x80 {
            push_pct_byte(out, u as u8);
            proof {
                assert(bs =~= seq![(u as u8)]);
                lemma_pct_bytes1(u as u8);
                assert(out@ =~= old(out)@ + form_char(c));
            }
        } else if u < 0x800 {
            push_pct_byte(out, (0xC0 + u / 0x40) as u8);
            push_pct_byte(out, (0x80 + u % 0x40) as u8);
            proof {
                let b0 = (0xC0 + u / 0x40) as u8;
                let b1 = (0x80 + u % 0x40) as u8;
                assert(bs =~= seq![b0, b1]);
                lemma_pct_bytes2(b0, b1);
                assert(out@ =~= old(out)@ + form_char(c));
            }
        } else if u < 0x10000 {
            push_pct_byte(out, (0xE0 + u / 0x1000) as u8);
            push_pct_byte(out, (0x80 + (u / 0x40) % 0x40) as u8);
            push_pct_byte(out, (0x80 + u % 0x40) as u8);
            proof {
                let b0 = (0xE0 + u / 0x1000) as u8;
                let b1 = (0x80 + (u / 0x40) % 0x40) as u8;
                let b2 = (0x80 + u % 0x40) as u8;
                assert(bs =~= seq![b0, b1, b2]);
                lemma_pct_bytes3(b0, b1, b2);
                assert(out@ =~= old(out)@ + form_char(c));
            }
        } else {
            push_pct_byte(out, (0xF0 + u / 0x40000) as u8);
            push_pct_byte(out, (0x80 + (u / 0x1000) % 0x40) as u8);
            push_pct_byte(out, (0x80 + (u / 0x40) % 0x40) as u8);
            push_pct_byte(out, (0x80 + u % 0x40) as u8);
            proof {
                let b0 = (0xF0 + u / 0x40000) as u8;
                let b1 = (0x80 + (u / 0x1000) % 0x40) as u8;
                let b2 = (0x80 + (u / 0x40) % 0x40) as u8;
                let b3 = (0x80 + u % 0x40) as u8;
                assert(bs =~= seq![b0, b1, b2, b3]);
                lemma_pct_bytes4(b0, b1, b2, b3);
                assert(out@ =~= old(out)@ + form_char(c));
            }
        }
    }
}

pub(crate) fn write_form_text(out: &mut String, s: &str)
    ensures
        final(out)@ == old(out)@ + form_text(s@),
{
    let chars = chars_of(s);
    let mut i: usize = 0;
    while i < chars.len()
        invariant
            i <= chars.len(),
            chars@ == s@,
            out@ == old(out)@ + form_text(s@.take(i as int)),
        decreases chars.len() - i,
    {
        push_form_char(out, chars[i]);
        proof {
            assert(s@.take(i + 1).drop_last() =~= s@.take(i as int));
            assert(s@.take(i + 1).last() == s@[i as int]);
        }
        i = i + 1;
    }
    proof {
        assert(s@.take(chars.len() as int) =~= s@);
    }
}

fn write_scalar(out: &mut String, v: &JsonValue)
    requires
        scalar_ok(*v),
    ensures
        final(out)@ == old(out)@ + form_text(scalar_text(*v)),
{
    match v {
        JsonValue::Bool(b) => {
            if *b {
                write_form_text(out, "true");
            } else {
                write_form_text(out, "false");
            }
        },
        JsonValue::Number(n) => {
            write_form_text(out, n.as_str());
        },
        JsonValue::Text(s) => {
            write_form_text(out, s.as_str());
        },
        _ => {
            proof {
                assert(false);
            }
        },
    }
}

/// Whether every member's value is a scalar, so the object can be
/// form-encoded.
pub fn all_scalars(fields: &Vec<(String, JsonValue)>) -> (ok: bool)
    ensures
        ok == (forall|i: int| 0 <= i < fields@.len() ==> scalar_ok(#[trigger] fields@[i].1)),
{
    let mut i: usize = 0;
    while i < fields.len()
        invariant
            i <= fields@.len(),
            forall|j: int| 0 <= j < i ==> scalar_ok(#[trigger] fields@[j].1),
        decreases fields@.len() - i,
    {
        let scalar = match &fields[i].1 {
            JsonValue::Bool(_) => true,
            JsonValue::Number(_) => true,
            JsonValue::Text(_) => true,
            _ => false,
        };
        if !scalar {
            return false;
        }
        i = i + 1;
    }
    true
}

proof fn lemma_form_pairs_step(fields: Seq<(String, JsonValue)>, i: int)
    requires
        0 <= i < fields.len(),
    ensures
        form_pairs_text(fields.take(i + 1)) == if i == 0 {
            form_pair_text(fields[0])
        } else {
            form_pairs_text(fields.take(i)) + seq!['&'] + form_pair_text(fields[i])
        },
{
    let t = fields.take(i + 1);
    assert(t.drop_last() =~= fields.take(i));
    assert(t.last() == fields[i]);
}

/// The form-urlencoded body of an object of scalar members.
pub fn form_encode(fields: &Vec<(String, JsonValue)>) -> (r: String)
    requires
        forall|i: int| 0 <= i < fields@.len() ==> scalar_ok(#[trigger] fields@[i].1),
    ensures
        r@ == form_pairs_text(fields@),
{
    let mut out = String::new();
    let mut i: usize = 0;
    while i < fields.len()
        invariant
            i <= fields@.len(),
            forall|j: int| 0 <= j < fields@.len() ==> scalar_ok(#[trigger] fields@[j].1),
            out@ == form_pairs_text(fields@.take(i as int)),
        decreases fields@.len() - i,
    {
        if i > 0 {
            push_char(&mut out, '&');
        }
        write_form_text(&mut out, fields[i].0.as_str());
        push_char(&mut out, '=');
        write_scalar(&mut out, &fields[i].1);
        proof {
            lemma_form_pairs_step(fields@, i as int);
            assert(out@ =~= form_pairs_text(fields@.take(i + 1)));
        }
        i = i + 1;
    }
    proof {
        assert(fields@.take(fields@.len() as int) =~= fields@);
    }
    out
}

} // verus!
