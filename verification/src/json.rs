//! A minimal JSON document model and its canonical compact text encoding.
//!
//! Sub-documents of a reference item travel through flat relational rows as
//! strings, so the engine needs one exactly-specified encoding. A whole
//! number that fits a signed 64-bit word is a proper integer; any other
//! number keeps its raw lexeme and is written back verbatim. Strings escape
//! the quote, the backslash and every control character, and all other
//! characters are written as they are.

use vstd::prelude::*;
use vstd::string::*;

verus! {

broadcast use vstd::seq::group_seq_axioms, vstd::std_specs::vec::group_vec_axioms;

/// An executable JSON document.
pub enum JsonVal {
    Null,
    Bool(bool),
    Int(i64),
    /// A number that is not a whole 64-bit value (a fraction, an exponent,
    /// or a whole value out of range), kept as its raw lexeme and written
    /// back verbatim: the engine never computes with it.
    Num(String),
    Str(String),
    Arr(Vec<JsonVal>),
    Obj(Vec<(String, JsonVal)>),
}

/// The mathematical shape of a JSON document: what contracts speak of.
#[verifier::ext_equal]
pub enum JsonModel {
    Null,
    Bool(bool),
    Int(i64),
    Num(Seq<char>),
    Str(Seq<char>),
    Arr(Seq<JsonModel>),
    Obj(Seq<(Seq<char>, JsonModel)>),
}

/// The model of an executable document.
pub open spec fn jmodel_of(v: JsonVal) -> JsonModel
    decreases v,
{
    match v {
        JsonVal::Null => JsonModel::Null,
        JsonVal::Bool(b) => JsonModel::Bool(b),
        JsonVal::Int(i) => JsonModel::Int(i),
        JsonVal::Num(s) => JsonModel::Num(s@),
        JsonVal::Str(s) => JsonModel::Str(s@),
        JsonVal::Arr(items) => JsonModel::Arr(jmodels_of(items@)),
        JsonVal::Obj(fields) => JsonModel::Obj(jfield_models_of(fields@)),
    }
}

/// The models of a sequence of executable documents, element by element.
pub open spec fn jmodels_of(s: Seq<JsonVal>) -> Seq<JsonModel>
    decreases s,
{
    Seq::new(
        s.len(),
        |i: int| if 0 <= i < s.len() {
            jmodel_of(s[i])
        } else {
            JsonModel::Null
        },
    )
}

/// The models of a sequence of key/document pairs, element by element.
pub open spec fn jfield_models_of(s: Seq<(String, JsonVal)>) -> Seq<(Seq<char>, JsonModel)>
    decreases s,
{
    Seq::new(
        s.len(),
        |i: int| if 0 <= i < s.len() {
            (s[i].0@, jmodel_of(s[i].1))
        } else {
            (Seq::empty(), JsonModel::Null)
        },
    )
}

/// The decimal digit characters.
pub open spec fn digit_char(d: int) -> char {
    if d == 0 { '0' }
    else if d == 1 { '1' }
    else if d == 2 { '2' }
    else if d == 3 { '3' }
    else if d == 4 { '4' }
    else if d == 5 { '5' }
    else if d == 6 { '6' }
    else if d == 7 { '7' }
    else if d == 8 { '8' }
    else { '9' }
}

/// The decimal text of a natural number, most significant digit first.
pub open spec fn spec_nat_chars(n: nat) -> Seq<char>
    decreases n,
{
    if n < 10 {
        seq![digit_char(n as int)]
    } else {
        spec_nat_chars(n / 10) + seq![digit_char((n % 10) as int)]
    }
}

/// The decimal text of an integer: a minus sign before the magnitude.
pub open spec fn spec_int_chars(i: int) -> Seq<char> {
    if i < 0 {
        seq!['-'] + spec_nat_chars((-i) as nat)
    } else {
        spec_nat_chars(i as nat)
    }
}

/// The lowercase hexadecimal digit characters.
pub open spec fn hex_digit_char(d: int) -> char {
    if d == 0 { '0' }
    else if d == 1 { '1' }
    else if d == 2 { '2' }
    else if d == 3 { '3' }
    else if d == 4 { '4' }
    else if d == 5 { '5' }
    else if d == 6 { '6' }
    else if d == 7 { '7' }
    else if d == 8 { '8' }
    else if d == 9 { '9' }
    else if d == 10 { 'a' }
    else if d == 11 { 'b' }
    else if d == 12 { 'c' }
    else if d == 13 { 'd' }
    else if d == 14 { 'e' }
    else { 'f' }
}

/// How one character appears inside an encoded JSON string: the named
/// escapes, `\u00XX` for any other control character, and everything else
/// verbatim.
pub open spec fn esc_char(c: char) -> Seq<char> {
    if c == '"' { seq!['\\', '"'] }
    else if c == '\\' { seq!['\\', '\\'] }
    else if c == '\n' { seq!['\\', 'n'] }
    else if c == '\r' { seq!['\\', 'r'] }
    else if c == '\t' { seq!['\\', 't'] }
    else if c == '\u{0008}' { seq!['\\', 'b'] }
    else if c == '\u{000C}' { seq!['\\', 'f'] }
    else if (c as u32) < 0x20 {
        seq![
            '\\',
            'u',
            '0',
            '0',
            hex_digit_char(((c as u32) / 16) as int),
            hex_digit_char(((c as u32) % 16) as int),
        ]
    }
    else { seq![c] }
}

/// The escaped form of the characters of `s` from position `i` on.
pub open spec fn spec_escape_from(s: Seq<char>, i: int) -> Seq<char>
    decreases s.len() - i,
{
    if i < 0 || i >= s.len() {
        Seq::empty()
    } else {
        esc_char(s[i]) + spec_escape_from(s, i + 1)
    }
}

/// The escaped form of a whole string.
pub open spec fn spec_escape(s: Seq<char>) -> Seq<char> {
    spec_escape_from(s, 0)
}

/// The canonical compact encoding of a document.
pub open spec fn spec_encode(v: JsonModel) -> Seq<char>
    decreases v, 0int,
{
    match v {
        JsonModel::Null => seq!['n', 'u', 'l', 'l'],
        JsonModel::Bool(b) => if b {
            seq!['t', 'r', 'u', 'e']
        } else {
            seq!['f', 'a', 'l', 's', 'e']
        },
        JsonModel::Int(i) => spec_int_chars(i as int),
        JsonModel::Num(s) => s,
        JsonModel::Str(s) => seq!['"'] + spec_escape(s) + seq!['"'],
        JsonModel::Arr(items) => seq!['['] + spec_encode_items(items, 0) + seq![']'],
        JsonModel::Obj(fields) => seq!['{'] + spec_encode_fields(fields, 0) + seq!['}'],
    }
}

/// The comma-separated encodings of the array elements from `i` on.
pub open spec fn spec_encode_items(items: Seq<JsonModel>, i: int) -> Seq<char>
    decreases items, items.len() - i,
{
    if i < 0 || i >= items.len() {
        Seq::empty()
    } else if i == items.len() - 1 {
        spec_encode(items[i])
    } else {
        spec_encode(items[i]) + seq![','] + spec_encode_items(items, i + 1)
    }
}

/// The comma-separated `"key":value` encodings of the object members from `i` on.
pub open spec fn spec_encode_fields(fields: Seq<(Seq<char>, JsonModel)>, i: int) -> Seq<char>
    decreases fields, fields.len() - i,
{
    if i < 0 || i >= fields.len() {
        Seq::empty()
    } else {
        let one = seq!['"'] + spec_escape(fields[i].0) + seq!['"', ':'] + spec_encode(
            fields[i].1,
        );
        if i == fields.len() - 1 {
            one
        } else {
            one + seq![','] + spec_encode_fields(fields, i + 1)
        }
    }
}

/// Relies on `String::push` of std: it appends the given character to the
/// end of the string.
#[verifier::external_body]
pub(crate) fn push_char(out: &mut String, c: char)
    ensures
        final(out)@ == old(out)@.push(c),
{
    out.push(c);
}

/// Appends the decimal digits of `n` to `out`.
pub(crate) fn write_nat(n: u64, out: &mut String)
    ensures
        final(out)@ == old(out)@ + spec_nat_chars(n as nat),
    decreases n,
{
    if n >= 10 {
        write_nat(n / 10, out);
        let d: u8 = (n % 10) as u8;
        push_char(out, digit_of(d));
        assert(out@ =~= old(out)@ + spec_nat_chars(n as nat));
    } else {
        push_char(out, digit_of(n as u8));
        assert(out@ =~= old(out)@ + spec_nat_chars(n as nat));
    }
}

/// The decimal digit character for a value below ten.
fn digit_of(d: u8) -> (c: char)
    requires
        d < 10,
    ensures
        c == digit_char(d as int),
{
    if d == 0 { '0' }
    else if d == 1 { '1' }
    else if d == 2 { '2' }
    else if d == 3 { '3' }
    else if d == 4 { '4' }
    else if d == 5 { '5' }
    else if d == 6 { '6' }
    else if d == 7 { '7' }
    else if d == 8 { '8' }
    else { '9' }
}

/// The lowercase hexadecimal digit character for a value below sixteen.
fn hex_digit_of(d: u8) -> (c: char)
    requires
        d < 16,
    ensures
        c == hex_digit_char(d as int),
{
    if d == 0 { '0' }
    else if d == 1 { '1' }
    else if d == 2 { '2' }
    else if d == 3 { '3' }
    else if d == 4 { '4' }
    else if d == 5 { '5' }
    else if d == 6 { '6' }
    else if d == 7 { '7' }
    else if d == 8 { '8' }
    else if d == 9 { '9' }
    else if d == 10 { 'a' }
    else if d == 11 { 'b' }
    else if d == 12 { 'c' }
    else if d == 13 { 'd' }
    else if d == 14 { 'e' }
    else { 'f' }
}

/// Appends the decimal text of `i`, with a leading minus sign when negative.
fn write_int(i: i64, out: &mut String)
    ensures
        final(out)@ == old(out)@ + spec_int_chars(i as int),
{
    if i < 0 {
        push_char(out, '-');
        let magnitude: u64 = if i == i64::MIN {
            9223372036854775808u64
        } else {
            (-i) as u64
        };
        write_nat(magnitude, out);
        assert(out@ =~= old(out)@ + spec_int_chars(i as int));
    } else {
        write_nat(i as u64, out);
    }
}

/// Appends the escaped form of the characters of `s` from `i` on.
fn write_escaped(s: &str, i: usize, out: &mut String)
    requires
        i <= s@.len(),
    ensures
        final(out)@ == old(out)@ + spec_escape_from(s@, i as int),
    decreases s@.len() - i,
{
    if i < s.unicode_len() {
        let c = s.get_char(i);
        if c == '"' {
            push_char(out, '\\');
            push_char(out, '"');
        } else if c == '\\' {
            push_char(out, '\\');
            push_char(out, '\\');
        } else if c == '\n' {
            push_char(out, '\\');
            push_char(out, 'n');
        } else if c == '\r' {
            push_char(out, '\\');
            push_char(out, 'r');
        } else if c == '\t' {
            push_char(out, '\\');
            push_char(out, 't');
        } else if c == '\u{0008}' {
            push_char(out, '\\');
            push_char(out, 'b');
        } else if c == '\u{000C}' {
            push_char(out, '\\');
            push_char(out, 'f');
        } else if (c as u32) < 32 {
            push_char(out, '\\');
            push_char(out, 'u');
            push_char(out, '0');
            push_char(out, '0');
            let n: u32 = c as u32;
            push_char(out, hex_digit_of((n / 16) as u8));
            push_char(out, hex_digit_of((n % 16) as u8));
        } else {
            push_char(out, c);
        }
        assert(out@ =~= old(out)@ + esc_char(s@[i as int]));
        write_escaped(s, i + 1, out);
        assert(out@ =~= old(out)@ + spec_escape_from(s@, i as int));
    } else {
        assert(out@ =~= old(out)@ + spec_escape_from(s@, i as int));
    }
}

/// Appends `"` escaped-characters `"`.
fn write_string(s: &str, out: &mut String)
    ensures
        final(out)@ == old(out)@ + seq!['"'] + spec_escape(s@) + seq!['"'],
{
    push_char(out, '"');
    write_escaped(s, 0, out);
    push_char(out, '"');
    assert(out@ =~= old(out)@ + seq!['"'] + spec_escape(s@) + seq!['"']);
}

/// Appends the canonical compact encoding of `v`.
pub fn write_json(v: &JsonVal, out: &mut String)
    ensures
        final(out)@ == old(out)@ + spec_encode(jmodel_of(*v)),
    decreases v, 0int,
{
    match v {
        JsonVal::Null => {
            out.append("null");
            proof {
                reveal_strlit("null");
                assert(out@ =~= old(out)@ + spec_encode(jmodel_of(*v)));
            }
        },
        JsonVal::Bool(b) => {
            if *b {
                out.append("true");
                proof {
                    reveal_strlit("true");
                    assert(out@ =~= old(out)@ + spec_encode(jmodel_of(*v)));
                }
            } else {
                out.append("false");
                proof {
                    reveal_strlit("false");
                    assert(out@ =~= old(out)@ + spec_encode(jmodel_of(*v)));
                }
            }
        },
        JsonVal::Int(i) => {
            write_int(*i, out);
        },
        JsonVal::Num(n) => {
            out.append(n.as_str());
        },
        JsonVal::Str(s) => {
            write_string(s.as_str(), out);
            assert(out@ =~= old(out)@ + spec_encode(jmodel_of(*v)));
        },
        JsonVal::Arr(items) => {
            push_char(out, '[');
            write_items(items, 0, out);
            push_char(out, ']');
            assert(jmodel_of(*v) == JsonModel::Arr(jmodels_of(items@)));
            assert(out@ =~= old(out)@ + spec_encode(jmodel_of(*v)));
        },
        JsonVal::Obj(fields) => {
            push_char(out, '{');
            write_fields(fields, 0, out);
            push_char(out, '}');
            assert(jmodel_of(*v) == JsonModel::Obj(jfield_models_of(fields@)));
            assert(out@ =~= old(out)@ + spec_encode(jmodel_of(*v)));
        },
    }
}

/// Appends the comma-separated encodings of the elements from `i` on.
fn write_items(items: &Vec<JsonVal>, i: usize, out: &mut String)
    requires
        i <= items@.len(),
    ensures
        final(out)@ == old(out)@ + spec_encode_items(jmodels_of(items@), i as int),
    decreases items@, items@.len() - i,
{
    if i < items.len() {
        write_json(&items[i], out);
        if i + 1 < items.len() {
            push_char(out, ',');
            write_items(items, i + 1, out);
        }
        assert(out@ =~= old(out)@ + spec_encode_items(jmodels_of(items@), i as int));
    } else {
        assert(out@ =~= old(out)@ + spec_encode_items(jmodels_of(items@), i as int));
    }
}

/// Appends the comma-separated `"key":value` encodings of the members from `i` on.
fn write_fields(fields: &Vec<(String, JsonVal)>, i: usize, out: &mut String)
    requires
        i <= fields@.len(),
    ensures
        final(out)@ == old(out)@ + spec_encode_fields(jfield_models_of(fields@), i as int),
    decreases fields@, fields@.len() - i,
{
    if i < fields.len() {
        write_string(fields[i].0.as_str(), out);
        push_char(out, ':');
        write_json(&fields[i].1, out);
        if i + 1 < fields.len() {
            push_char(out, ',');
            write_fields(fields, i + 1, out);
        }
        assert(out@ =~= old(out)@ + spec_encode_fields(jfield_models_of(fields@), i as int));
    } else {
        assert(out@ =~= old(out)@ + spec_encode_fields(jfield_models_of(fields@), i as int));
    }
}

/// The canonical compact JSON text of a document.
pub fn to_json_text(v: &JsonVal) -> (r: String)
    ensures
        r@ == spec_encode(jmodel_of(*v)),
{
    let mut out = String::new();
    write_json(v, &mut out);
    out
}

} // verus!
