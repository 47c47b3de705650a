//! A small JSON document model with a verified compact serializer.
//!
//! Every body this service emits, and the canonical form of an
//! authorization payload, is built as a [`JsonValue`] and rendered by
//! [`to_json_string`], whose output is pinned down by the spec function
//! [`json_text`].

use vstd::prelude::*;
use crate::text::chars_of;
use crate::text::string_of;

verus! {

/// A JSON document. Numbers are carried as their decimal source text so
/// that values of any width survive unchanged.
pub enum JsonValue {
    Null,
    Bool(bool),
    /// A number literal, written verbatim into the rendering.
    NumberLit(String),
    Text(String),
    Array(Vec<JsonValue>),
    Object(Vec<(String, JsonValue)>),
}

/// The hexadecimal digit for a value below 16, in lower case.
pub open spec fn hex_digit(d: nat) -> char {
    if d == 0 { '0' } else if d == 1 { '1' } else if d == 2 { '2' } else if d == 3 { '3' }
    else if d == 4 { '4' } else if d == 5 { '5' } else if d == 6 { '6' } else if d == 7 { '7' }
    else if d == 8 { '8' } else if d == 9 { '9' } else if d == 10 { 'a' } else if d == 11 { 'b' }
    else if d == 12 { 'c' } else if d == 13 { 'd' } else if d == 14 { 'e' } else { 'f' }
}

/// How one character appears inside a JSON string literal.
pub open spec fn escape_char(c: char) -> Seq<char> {
    if c == '"' { seq!['\\', '"'] }
    else if c == '\\' { seq!['\\', '\\'] }
    else if c == '\n' { seq!['\\', 'n'] }
    else if c == '\r' { seq!['\\', 'r'] }
    else if c == '\t' { seq!['\\', 't'] }
    else if (c as u32) < 32 {
        seq!['\\', 'u', '0', '0', hex_digit((c as u32 / 16) as nat), hex_digit((c as u32 % 16) as nat)]
    } else {
        seq![c]
    }
}

/// How a whole string appears inside a JSON string literal.
pub open spec fn escape_text(s: Seq<char>) -> Seq<char>
    decreases s.len(),
{
    if s.len() == 0 {
        Seq::empty()
    } else {
        escape_text(s.drop_last()) + escape_char(s.last())
    }
}

/// The compact rendering of a JSON value.
pub open spec fn json_text(v: JsonValue) -> Seq<char>
    decreases v,
{
    match v {
        JsonValue::Null => "null"@,
        JsonValue::Bool(b) => if b { "true"@ } else { "false"@ },
        JsonValue::NumberLit(s) => s@,
        JsonValue::Text(s) => seq!['"'] + escape_text(s@) + seq!['"'],
        JsonValue::Array(vs) => seq!['['] + json_items_text(vs@) + seq![']'],
        JsonValue::Object(fs) => seq!['{'] + json_fields_text(fs@) + seq!['}'],
    }
}

/// The comma-separated renderings of an array's items.
pub open spec fn json_items_text(items: Seq<JsonValue>) -> Seq<char>
    decreases items,
{
    if items.len() == 0 {
        Seq::empty()
    } else if items.len() == 1 {
        json_text(items[0])
    } else {
        json_items_text(items.drop_last()) + seq![','] + json_text(items.last())
    }
}

/// The comma-separated renderings of an object's fields.
pub open spec fn json_fields_text(fields: Seq<(String, JsonValue)>) -> Seq<char>
    decreases fields,
{
    if fields.len() == 0 {
        Seq::empty()
    } else if fields.len() == 1 {
        json_field_text(fields[0])
    } else {
        json_fields_text(fields.drop_last()) + seq![','] + json_field_text(fields.last())
    }
}

/// One `"key":value` pair.
pub open spec fn json_field_text(field: (String, JsonValue)) -> Seq<char>
    decreases field,
{
    seq!['"'] + escape_text(field.0@) + seq!['"', ':'] + json_text(field.1)
}

/// Whether an object rendered from these fields carries the key.
pub open spec fn fields_have_key(fields: Seq<(String, JsonValue)>, key: Seq<char>) -> bool {
    exists|i: int| 0 <= i < fields.len() && #[trigger] fields[i].0@ == key
}

/// A field holding a string.
pub open spec fn is_text_field(field: (String, JsonValue), key: Seq<char>, val: Seq<char>) -> bool {
    &&& field.0@ == key
    &&& field.1 matches JsonValue::Text(t) && t@ == val
}

/// A field holding a decimal number.
pub open spec fn is_num_field(field: (String, JsonValue), key: Seq<char>, n: nat) -> bool {
    &&& field.0@ == key
    &&& field.1 matches JsonValue::NumberLit(t) && t@ == crate::text::dec_text(n)
}

/// A field holding a boolean.
pub open spec fn is_bool_field(field: (String, JsonValue), key: Seq<char>, b: bool) -> bool {
    &&& field.0@ == key
    &&& field.1 == JsonValue::Bool(b)
}

/// An array of strings, element for element.
pub open spec fn is_text_array(v: JsonValue, items: Seq<String>) -> bool {
    &&& v matches JsonValue::Array(vs)
    &&& vs@.len() == items.len()
    &&& forall|i: int|
        0 <= i < items.len() ==> ((#[trigger] vs@[i]) matches JsonValue::Text(t) && t@ == items[i]@)
}

/// Builds an array of strings.
pub fn text_array(items: &Vec<String>) -> (r: JsonValue)
    ensures
        is_text_array(r, items@),
{
    let mut vs: Vec<JsonValue> = Vec::new();
    let mut i: usize = 0;
    while i < items.len()
        invariant
            i <= items@.len(),
            vs@.len() == i,
            forall|j: int|
                0 <= j < i ==> ((#[trigger] vs@[j]) matches JsonValue::Text(t) && t@
                    == items@[j]@),
        decreases items@.len() - i,
    {
        vs.push(JsonValue::Text(items[i].clone()));
        i = i + 1;
    }
    JsonValue::Array(vs)
}

/// The hexadecimal digit for a value below 16, in lower case.
fn hex_digit_char(d: u8) -> (r: char)
    requires
        d < 16,
    ensures
        r == hex_digit(d as nat),
{
    if d == 0 { '0' } else if d == 1 { '1' } else if d == 2 { '2' } else if d == 3 { '3' }
    else if d == 4 { '4' } else if d == 5 { '5' } else if d == 6 { '6' } else if d == 7 { '7' }
    else if d == 8 { '8' } else if d == 9 { '9' } else if d == 10 { 'a' } else if d == 11 { 'b' }
    else if d == 12 { 'c' } else if d == 13 { 'd' } else if d == 14 { 'e' } else { 'f' }
}

/// Appends the escaped form of one character.
fn push_escaped_char(c: char, out: &mut Vec<char>)
    ensures
        final(out)@ == old(out)@ + escape_char(c),
{
    if c == '"' {
        out.push('\\');
        out.push('"');
        proof { assert(out@ =~= old(out)@ + escape_char(c)); }
    } else if c == '\\' {
        out.push('\\');
        out.push('\\');
        proof { assert(out@ =~= old(out)@ + escape_char(c)); }
    } else if c == '\n' {
        out.push('\\');
        out.push('n');
        proof { assert(out@ =~= old(out)@ + escape_char(c)); }
    } else if c == '\r' {
        out.push('\\');
        out.push('r');
        proof { assert(out@ =~= old(out)@ + escape_char(c)); }
    } else if c == '\t' {
        out.push('\\');
        out.push('t');
        proof { assert(out@ =~= old(out)@ + escape_char(c)); }
    } else if (c as u32) < 32 {
        let code: u32 = c as u32;
        out.push('\\');
        out.push('u');
        out.push('0');
        out.push('0');
        out.push(hex_digit_char((code / 16) as u8));
        out.push(hex_digit_char((code % 16) as u8));
        proof { assert(out@ =~= old(out)@ + escape_char(c)); }
    } else {
        out.push(c);
        proof { assert(out@ =~= old(out)@ + escape_char(c)); }
    }
}

/// The rendering of a one-longer prefix extends the rendering of the prefix.
proof fn lemma_escape_text_step(s: Seq<char>, i: int)
    requires
        0 <= i < s.len(),
    ensures
        escape_text(s.take(i + 1)) == escape_text(s.take(i)) + escape_char(s[i]),
{
    assert(s.take(i + 1).drop_last() =~= s.take(i));
    assert(s.take(i + 1).last() == s[i]);
}

/// Appends the escaped form of a whole string.
fn push_escaped(s: &String, out: &mut Vec<char>)
    ensures
        final(out)@ == old(out)@ + escape_text(s@),
{
    let cs = chars_of(s.as_str());
    let mut i: usize = 0;
    proof {
        assert(cs@.take(0) =~= Seq::<char>::empty());
    }
    while i < cs.len()
        invariant
            i <= cs.len(),
            cs@ == s@,
            out@ == old(out)@ + escape_text(cs@.take(i as int)),
        decreases cs.len() - i,
    {
        push_escaped_char(cs[i], out);
        proof {
            lemma_escape_text_step(cs@, i as int);
        }
        i = i + 1;
    }
    proof {
        assert(cs@.take(cs@.len() as int) =~= cs@);
    }
}

/// The rendering of a one-longer item prefix extends the rendering of the prefix.
proof fn lemma_json_items_step(items: Seq<JsonValue>, i: int)
    requires
        0 <= i < items.len(),
    ensures
        json_items_text(items.take(i + 1)) == if i == 0 {
            json_text(items[0])
        } else {
            json_items_text(items.take(i)) + seq![','] + json_text(items[i])
        },
{
    assert(items.take(i + 1).drop_last() =~= items.take(i));
    assert(items.take(i + 1).last() == items[i]);
    assert(items.take(i + 1)[0] == items[0]);
}

/// The rendering of a one-longer field prefix extends the rendering of the prefix.
proof fn lemma_json_fields_step(fields: Seq<(String, JsonValue)>, i: int)
    requires
        0 <= i < fields.len(),
    ensures
        json_fields_text(fields.take(i + 1)) == if i == 0 {
            json_field_text(fields[0])
        } else {
            json_fields_text(fields.take(i)) + seq![','] + json_field_text(fields[i])
        },
{
    assert(fields.take(i + 1).drop_last() =~= fields.take(i));
    assert(fields.take(i + 1).last() == fields[i]);
    assert(fields.take(i + 1)[0] == fields[0]);
}

/// Appends the compact rendering of a value.
pub fn write_json(v: &JsonValue, out: &mut Vec<char>)
    ensures
        final(out)@ == old(out)@ + json_text(*v),
    decreases *v,
{
    match v {
        JsonValue::Null => {
            out.push('n');
            out.push('u');
            out.push('l');
            out.push('l');
            proof {
                reveal_strlit("null");
                assert(out@ =~= old(out)@ + json_text(*v));
            }
        },
        JsonValue::Bool(b) => {
            if *b {
                out.push('t');
                out.push('r');
                out.push('u');
                out.push('e');
                proof {
                    reveal_strlit("true");
                    assert(out@ =~= old(out)@ + json_text(*v));
                }
            } else {
                out.push('f');
                out.push('a');
                out.push('l');
                out.push('s');
                out.push('e');
                proof {
                    reveal_strlit("false");
                    assert(out@ =~= old(out)@ + json_text(*v));
                }
            }
        },
        JsonValue::NumberLit(s) => {
            let cs = chars_of(s.as_str());
            let mut i: usize = 0;
            while i < cs.len()
                invariant
                    i <= cs.len(),
                    cs@ == s@,
                    out@ == old(out)@ + cs@.take(i as int),
                decreases cs.len() - i,
            {
                out.push(cs[i]);
                proof {
                    assert(cs@.take(i + 1) =~= cs@.take(i as int).push(cs@[i as int]));
                    assert(out@ =~= old(out)@ + cs@.take(i + 1));
                }
                i = i + 1;
            }
            proof {
                assert(cs@.take(cs@.len() as int) =~= cs@);
            }
        },
        JsonValue::Text(s) => {
            out.push('"');
            push_escaped(s, out);
            out.push('"');
            proof {
                assert(out@ =~= old(out)@ + json_text(*v));
            }
        },
        JsonValue::Array(vs) => {
            out.push('[');
            let mut i: usize = 0;
            while i < vs.len()
                invariant
                    i <= vs.len(),
                    *v == JsonValue::Array(*vs),
                    out@ == old(out)@ + seq!['['] + json_items_text(vs@.take(i as int)),
                decreases vs.len() - i,
            {
                if i > 0 {
                    out.push(',');
                }
                proof {
                    broadcast use vstd::std_specs::vec::axiom_vec_index_decreases;
                    assert(decreases_to!(*v => v->Array_0));
                    assert(decreases_to!(v->Array_0 => v->Array_0[i as int]));
                    assert(decreases_to!(*v => vs[i as int]));
                }
                write_json(&vs[i], out);
                proof {
                    lemma_json_items_step(vs@, i as int);
                    assert(out@ =~= old(out)@ + seq!['['] + json_items_text(vs@.take(i + 1)));
                }
                i = i + 1;
            }
            out.push(']');
            proof {
                assert(vs@.take(vs@.len() as int) =~= vs@);
                assert(out@ =~= old(out)@ + json_text(*v));
            }
        },
        JsonValue::Object(fs) => {
            out.push('{');
            let mut i: usize = 0;
            while i < fs.len()
                invariant
                    i <= fs.len(),
                    *v == JsonValue::Object(*fs),
                    out@ == old(out)@ + seq!['{'] + json_fields_text(fs@.take(i as int)),
                decreases fs.len() - i,
            {
                if i > 0 {
                    out.push(',');
                }
                out.push('"');
                push_escaped(&fs[i].0, out);
                out.push('"');
                out.push(':');
                proof {
                    broadcast use vstd::std_specs::vec::axiom_vec_index_decreases;
                    assert(decreases_to!(*v => v->Object_0));
                    assert(decreases_to!(v->Object_0 => v->Object_0[i as int]));
                    assert(decreases_to!(v->Object_0[i as int] => v->Object_0[i as int].1));
                    assert(decreases_to!(*v => fs[i as int].1));
                }
                write_json(&fs[i].1, out);
                proof {
                    lemma_json_fields_step(fs@, i as int);
                    assert(out@ =~= old(out)@ + seq!['{'] + json_fields_text(fs@.take(i + 1)));
                }
                i = i + 1;
            }
            out.push('}');
            proof {
                assert(fs@.take(fs@.len() as int) =~= fs@);
                assert(out@ =~= old(out)@ + json_text(*v));
            }
        },
    }
}

/// The compact rendering of a value, as a string.
pub fn to_json_string(v: &JsonValue) -> (r: String)
    ensures
        r@ == json_text(*v),
{
    let mut out: Vec<char> = Vec::new();
    write_json(v, &mut out);
    string_of(&out)
}

} // verus!
