//! The round trip of documents through the encoder and the parser.
//!
//! The canonical compact text of any document parses back to exactly that
//! document: encoding loses nothing and the parser inverts it. A corollary
//! follows for the publish-then-pull cycle of a reference item: a
//! sub-document column holding the text `{"pi":2}` comes back unchanged —
//! no double-encoding and no data loss.

use vstd::prelude::*;
use crate::json::{
    JsonModel,
    hex_digit_char,
    spec_encode,
    spec_encode_items,
    spec_encode_fields,
    spec_escape,
    spec_escape_from,
    esc_char,
    spec_nat_chars,
    spec_int_chars,
    digit_char,
};
use crate::parse::{
    is_ws,
    is_digit,
    is_hex_digit,
    hex_val,
    spec_hex4,
    digit_val,
    unescape_char,
    spec_skip_ws,
    spec_parse_string,
    spec_parse_digits,
    spec_scan_digits,
    spec_scan_frac,
    spec_scan_exp,
    spec_parse_number,
    spec_parse_elems,
    spec_parse_val,
    spec_parse_members,
    spec_parse_json,
};
use crate::codec::{SubDocModel, spec_obj_get, spec_subdoc_of, spec_encode_subdoc};
use crate::records::{
    RefItemModel,
    spec_ref_item_json,
    spec_ref_item_from_remote,
    spec_data_doc,
    subdoc_column,
};

verus! {

broadcast use vstd::seq::group_seq_axioms;

/// Ten to the `k`.
pub open spec fn pow10(k: nat) -> nat
    decreases k,
{
    if k == 0 {
        1
    } else {
        10 * pow10((k - 1) as nat)
    }
}

/// Whether the text `t` stands in `s` at position `i`.
pub open spec fn matches_at(s: Seq<char>, i: int, t: Seq<char>) -> bool {
    0 <= i && i + t.len() <= s.len() && s.subrange(i, i + t.len()) == t
}

proof fn lemma_matches_at_concat(s: Seq<char>, i: int, a: Seq<char>, b: Seq<char>)
    requires
        matches_at(s, i, a + b),
    ensures
        matches_at(s, i, a),
        matches_at(s, i + a.len(), b),
{
    assert(s.subrange(i, i + a.len()) =~= a);
    assert forall|k: int| 0 <= k < b.len() implies s[i + a.len() + k] == b[k] by {
        assert((a + b)[a.len() + k] == b[k]);
        assert(s.subrange(i, i + (a + b).len())[a.len() + k] == s[i + a.len() + k]);
    }
    assert(s.subrange(i + a.len(), i + a.len() + b.len()) =~= b);
}

proof fn lemma_matches_at_index(s: Seq<char>, i: int, t: Seq<char>, k: int)
    requires
        matches_at(s, i, t),
        0 <= k < t.len(),
    ensures
        s[i + k] == t[k],
{
    assert(s.subrange(i, i + t.len())[k] == s[i + k]);
}

/// A character that can follow a complete value without extending it: it
/// is no digit and cannot start a fraction or an exponent part.
pub open spec fn is_value_delim(c: char) -> bool {
    !is_digit(c) && c != '.' && c != 'e' && c != 'E'
}

/// The documents whose round trip is stated here: every raw-lexeme number
/// in them is a lexeme the number reader accepts whole — which is true of
/// everything the parser itself produces.
pub open spec fn json_wf(v: JsonModel) -> bool
    decreases v,
{
    match v {
        JsonModel::Num(lex) => spec_parse_number(lex, 0) == Some(
            (JsonModel::Num(lex), lex.len() as int),
        ),
        JsonModel::Arr(items) => forall|x: int|
            0 <= x < items.len() ==> json_wf(#[trigger] items[x]),
        JsonModel::Obj(fields) => forall|x: int|
            0 <= x < fields.len() ==> json_wf(#[trigger] fields[x].1),
        _ => true,
    }
}

/// A lexeme the number reader accepts is not empty and opens with a minus
/// sign or a digit.
proof fn lemma_number_head(lex: Seq<char>)
    requires
        spec_parse_number(lex, 0) is Some,
    ensures
        lex.len() >= 1,
        lex[0] == '-' || is_digit(lex[0]),
{
    if lex.len() == 0 {
        assert(spec_parse_number(lex, 0) is None);
    } else if lex[0] != '-' && !is_digit(lex[0]) {
        assert(spec_parse_number(lex, 0) is None);
    }
}

/// A digit scan stays within a text it starts inside of.
proof fn lemma_scan_digits_le(s: Seq<char>, a: int)
    requires
        a <= s.len(),
    ensures
        spec_scan_digits(s, a) <= s.len(),
        a <= spec_scan_digits(s, a) || a < 0,
    decreases s.len() - a,
{
    if 0 <= a < s.len() && is_digit(s[a]) {
        lemma_scan_digits_le(s, a + 1);
    }
}

/// Scanning digits inside an embedded text mirrors scanning the text on
/// its own, as long as nothing after the text can extend a value.
proof fn lemma_scan_digits_shift(lex: Seq<char>, s: Seq<char>, i: int, a: int)
    requires
        matches_at(s, i, lex),
        i + lex.len() == s.len() || is_value_delim(s[i + lex.len()]),
        0 <= a <= lex.len(),
    ensures
        spec_scan_digits(s, i + a) == i + spec_scan_digits(lex, a),
        a <= spec_scan_digits(lex, a) <= lex.len(),
    decreases lex.len() - a,
{
    if a < lex.len() {
        lemma_matches_at_index(s, i, lex, a);
        if is_digit(lex[a]) {
            lemma_scan_digits_shift(lex, s, i, a + 1);
        }
    }
}

/// Reading digits inside an embedded text mirrors reading the text on its
/// own: the same value, with every position shifted.
proof fn lemma_parse_digits_shift(lex: Seq<char>, s: Seq<char>, i: int, a: int, acc: u64)
    requires
        matches_at(s, i, lex),
        i + lex.len() == s.len() || is_value_delim(s[i + lex.len()]),
        0 <= a <= lex.len(),
    ensures
        (match spec_parse_digits(lex, a, acc) {
            Some((v, e)) => spec_parse_digits(s, i + a, acc) == Some((v, i + e)) && a <= e
                <= lex.len(),
            None => spec_parse_digits(s, i + a, acc) is None,
        }),
    decreases lex.len() - a,
{
    if a < lex.len() {
        lemma_matches_at_index(s, i, lex, a);
        if is_digit(lex[a]) {
            let d = digit_val(lex[a]);
            if !(acc > 1844674407370955161u64 || (acc == 1844674407370955161u64 && d > 5)) {
                lemma_parse_digits_shift(lex, s, i, a + 1, (acc * 10 + d) as u64);
            }
        }
    }
}

/// Reading a number inside an embedded text mirrors reading the lexeme on
/// its own, as long as nothing after the lexeme can extend it.
proof fn lemma_parse_number_shift(lex: Seq<char>, s: Seq<char>, i: int, w: JsonModel)
    requires
        matches_at(s, i, lex),
        i + lex.len() == s.len() || is_value_delim(s[i + lex.len()]),
        spec_parse_number(lex, 0) == Some((w, lex.len() as int)),
    ensures
        spec_parse_number(s, i) == Some((w, i + lex.len())),
{
    lemma_number_head(lex);
    assert forall|k: int| 0 <= k < lex.len() implies s[i + k] == lex[k] by {
        lemma_matches_at_index(s, i, lex, k);
    }
    let d0 = if lex[0] == '-' {
        1int
    } else {
        0int
    };
    assert(d0 < lex.len() && is_digit(lex[d0]));
    let j = spec_scan_digits(lex, d0);
    lemma_scan_digits_shift(lex, s, i, d0);
    assert(spec_scan_digits(s, i + d0) == i + j);
    assert(d0 <= j <= lex.len());
    lemma_parse_digits_shift(lex, s, i, d0, 0u64);
    // the fraction part decides the same way on both sides
    assert(spec_scan_frac(lex, j) is Some);
    let k = spec_scan_frac(lex, j)->Some_0;
    if j < lex.len() && lex[j] == '.' {
        assert(j + 1 < lex.len() && is_digit(lex[j + 1]));
        lemma_scan_digits_shift(lex, s, i, j + 1);
        assert(spec_scan_frac(s, i + j) == Some(i + k));
        assert(k <= lex.len());
    } else {
        assert(k == j);
        assert(spec_scan_frac(s, i + j) == Some(i + j));
    }
    // the exponent part decides the same way on both sides
    assert(spec_scan_exp(lex, k) is Some);
    let m = spec_scan_exp(lex, k)->Some_0;
    if k < lex.len() && (lex[k] == 'e' || lex[k] == 'E') {
        let e0 = if k + 1 < lex.len() && (lex[k + 1] == '+' || lex[k + 1] == '-') {
            k + 2
        } else {
            k + 1
        };
        assert(e0 < lex.len() && is_digit(lex[e0]));
        lemma_scan_digits_shift(lex, s, i, e0);
        assert(spec_scan_exp(s, i + k) == Some(i + m));
        assert(m <= lex.len());
    } else {
        assert(m == k);
        assert(spec_scan_exp(s, i + k) == Some(i + k));
    }
    assert(s.subrange(i, i + lex.len()) == lex);
    assert(lex.subrange(0, lex.len() as int) =~= lex);
}

/// Digits fill `s` from `a` up to `b`, and `b` ends them: the scan from
/// `a` stops exactly at `b`.
proof fn lemma_scan_digits_range(s: Seq<char>, a: int, b: int)
    requires
        0 <= a <= b <= s.len(),
        forall|k: int| a <= k < b ==> is_digit(#[trigger] s[k]),
        b == s.len() || !is_digit(s[b]),
    ensures
        spec_scan_digits(s, a) == b,
    decreases b - a,
{
    if a < b {
        lemma_scan_digits_range(s, a + 1, b);
    }
}

/// The decimal text of a number is never empty and holds digits only.
proof fn lemma_nat_chars_digits(n: nat)
    ensures
        spec_nat_chars(n).len() >= 1,
        forall|k: int| 0 <= k < spec_nat_chars(n).len() ==> is_digit(#[trigger] spec_nat_chars(n)[k]),
    decreases n,
{
    if n >= 10 {
        lemma_nat_chars_digits(n / 10);
    }
}

/// An encoding is never empty, and its first character is never taken for
/// whitespace nor for a closing bracket or brace.
proof fn lemma_encode_first(v: JsonModel)
    requires
        json_wf(v),
    ensures
        spec_encode(v).len() >= 1,
        !is_ws(spec_encode(v)[0]),
        spec_encode(v)[0] != ']',
        spec_encode(v)[0] != '}',
        spec_encode(v)[0] != ',',
{
    match v {
        JsonModel::Int(i) => {
            lemma_nat_chars_digits(if i < 0 { (-(i as int)) as nat } else { i as nat });
        },
        JsonModel::Num(lex) => {
            lemma_number_head(lex);
        },
        _ => {},
    }
}

/// Reading digits across the decimal text of `n`: the accumulator takes up
/// the value of `n` under the digits already read.
proof fn lemma_parse_digits_of_nat(n: u64, acc: u64, s: Seq<char>, i: int)
    requires
        matches_at(s, i, spec_nat_chars(n as nat)),
        (acc as nat) * pow10(spec_nat_chars(n as nat).len()) + n <= u64::MAX,
    ensures
        spec_parse_digits(s, i, acc) == spec_parse_digits(
            s,
            i + spec_nat_chars(n as nat).len(),
            ((acc as nat) * pow10(spec_nat_chars(n as nat).len()) + n) as u64,
        ),
    decreases n,
{
    let t = spec_nat_chars(n as nat);
    lemma_nat_chars_digits(n as nat);
    if n < 10 {
        assert(t =~= seq![digit_char(n as int)]);
        lemma_matches_at_index(s, i, t, 0);
        assert(s[i] == digit_char(n as int));
        assert(is_digit(s[i]));
        assert(digit_val(s[i]) == n as int);
        assert(pow10(0) == 1);
        assert(pow10(1) == 10);
        assert((acc as nat) * 10 + n <= u64::MAX);
        assert(!(acc > 1844674407370955161u64 || (acc == 1844674407370955161u64 && digit_val(
            s[i],
        ) > 5)));
        assert(spec_parse_digits(s, i, acc) == spec_parse_digits(s, i + 1, (acc * 10 + n) as u64));
    } else {
        let hi = n / 10;
        let lo = n % 10;
        let th = spec_nat_chars(hi as nat);
        let lh = th.len();
        assert(t =~= th + seq![digit_char(lo as int)]);
        lemma_matches_at_concat(s, i, th, seq![digit_char(lo as int)]);
        assert(pow10(lh + 1) == 10 * pow10(lh));
        let a1 = (acc as nat) * pow10(lh) + hi;
        assert(a1 * 10 + lo == (acc as nat) * pow10(lh + 1) + n) by (nonlinear_arith)
            requires
                a1 == (acc as nat) * pow10(lh) + hi,
                pow10(lh + 1) == 10 * pow10(lh),
                n == hi * 10 + lo,
                0 <= hi,
                0 <= lo < 10,
        ;
        assert(a1 * 10 <= a1 * 10 + lo);
        assert(a1 <= a1 * 10) by (nonlinear_arith)
            requires
                0 <= a1,
        ;
        assert(a1 <= u64::MAX);
        lemma_parse_digits_of_nat(hi, acc, s, i);
        assert(spec_parse_digits(s, i, acc) == spec_parse_digits(s, i + lh, a1 as u64));
        let j = i + lh;
        lemma_matches_at_index(s, j, seq![digit_char(lo as int)], 0);
        assert(s[j] == digit_char(lo as int));
        assert(is_digit(s[j]));
        assert(digit_val(s[j]) == lo as int);
        assert(!((a1 as u64) > 1844674407370955161u64 || ((a1 as u64) == 1844674407370955161u64
            && digit_val(s[j]) > 5)));
        assert(spec_parse_digits(s, j, a1 as u64) == spec_parse_digits(
            s,
            j + 1,
            ((a1 as u64) * 10 + lo) as u64,
        ));
        assert(t.len() == lh + 1);
    }
}

/// Reading an escaped string body from position `i`: the escaped tail of
/// the source string followed by a closing quote parses back to that tail.
proof fn lemma_parse_string_of_escaped(x: Seq<char>, idx: int, s: Seq<char>, i: int)
    requires
        0 <= idx <= x.len(),
        matches_at(s, i, spec_escape_from(x, idx) + seq!['"']),
    ensures
        spec_parse_string(s, i) == Some((x.skip(idx), i + spec_escape_from(x, idx).len() + 1)),
    decreases x.len() - idx,
{
    let e = spec_escape_from(x, idx);
    if idx >= x.len() {
        assert(e =~= Seq::<char>::empty());
        assert(e + seq!['"'] =~= seq!['"']);
        lemma_matches_at_index(s, i, e + seq!['"'], 0);
        assert(s[i] == '"');
        assert(x.skip(idx) =~= Seq::<char>::empty());
    } else {
        let c = x[idx];
        let ec = esc_char(c);
        assert(e == ec + spec_escape_from(x, idx + 1));
        assert(e + seq!['"'] =~= ec + (spec_escape_from(x, idx + 1) + seq!['"']));
        lemma_matches_at_concat(s, i, ec, spec_escape_from(x, idx + 1) + seq!['"']);
        let rest_pos = i + ec.len();
        lemma_parse_string_of_escaped(x, idx + 1, s, rest_pos);
        assert(seq![c] + x.skip(idx + 1) =~= x.skip(idx));
        if c == '"' || c == '\\' || c == '\n' || c == '\r' || c == '\t' || c == '\u{0008}'
            || c == '\u{000C}' {
            assert(ec.len() == 2);
            lemma_matches_at_index(s, i, ec, 0);
            lemma_matches_at_index(s, i, ec, 1);
            assert(s[i] == '\\');
            assert(unescape_char(s[i + 1]) == Some(c));
            assert(spec_parse_string(s, i) == Some((x.skip(idx), i + e.len() + 1)));
        } else if (c as u32) < 0x20 {
            assert(ec.len() == 6);
            lemma_matches_at_index(s, i, ec, 0);
            lemma_matches_at_index(s, i, ec, 1);
            lemma_matches_at_index(s, i, ec, 2);
            lemma_matches_at_index(s, i, ec, 3);
            lemma_matches_at_index(s, i, ec, 4);
            lemma_matches_at_index(s, i, ec, 5);
            let n = c as u32;
            let hi = (n / 16) as int;
            let lo = (n % 16) as int;
            assert(s[i] == '\\' && s[i + 1] == 'u');
            assert(s[i + 2] == '0' && s[i + 3] == '0');
            assert(s[i + 4] == hex_digit_char(hi) && s[i + 5] == hex_digit_char(lo));
            assert(is_hex_digit('0') && hex_val('0') == 0);
            assert(is_hex_digit(hex_digit_char(hi)) && hex_val(hex_digit_char(hi)) == hi);
            assert(is_hex_digit(hex_digit_char(lo)) && hex_val(hex_digit_char(lo)) == lo);
            assert(hi * 16 + lo == n);
            assert(spec_hex4(s, i + 2) == Some(n as int));
            assert(n < 0xD800);
            vstd::utf8::char_u32_cast(c, n);
            assert(((n as int) as u32) as char == c);
            assert(spec_parse_string(s, i) == Some((x.skip(idx), i + e.len() + 1)));
        } else {
            assert(ec =~= seq![c]);
            lemma_matches_at_index(s, i, ec, 0);
            assert(s[i] == c);
            assert(s[i] != '"' && s[i] != '\\');
            assert(spec_parse_string(s, i) == Some((x.skip(idx), i + e.len() + 1)));
        }
    }
}

/// The canonical text of any document, written into a larger text and
/// followed by anything but a digit, parses back to exactly that document.
#[verifier::rlimit(60)]
pub proof fn lemma_parse_val_of_encoded(v: JsonModel, s: Seq<char>, i: int)
    requires
        json_wf(v),
        matches_at(s, i, spec_encode(v)),
        i + spec_encode(v).len() == s.len() || is_value_delim(s[i + spec_encode(v).len()]),
    ensures
        spec_parse_val(s, i) == Some((v, i + spec_encode(v).len())),
    decreases v, 0int,
{
    let t = spec_encode(v);
    match v {
        JsonModel::Null => {
            assert(t =~= seq!['n', 'u', 'l', 'l']);
            lemma_matches_at_index(s, i, t, 0);
            lemma_matches_at_index(s, i, t, 1);
            lemma_matches_at_index(s, i, t, 2);
            lemma_matches_at_index(s, i, t, 3);
        },
        JsonModel::Bool(b) => {
            if b {
                assert(t =~= seq!['t', 'r', 'u', 'e']);
                lemma_matches_at_index(s, i, t, 0);
                lemma_matches_at_index(s, i, t, 1);
                lemma_matches_at_index(s, i, t, 2);
                lemma_matches_at_index(s, i, t, 3);
            } else {
                assert(t =~= seq!['f', 'a', 'l', 's', 'e']);
                lemma_matches_at_index(s, i, t, 0);
                lemma_matches_at_index(s, i, t, 1);
                lemma_matches_at_index(s, i, t, 2);
                lemma_matches_at_index(s, i, t, 3);
                lemma_matches_at_index(s, i, t, 4);
            }
        },
        JsonModel::Int(n) => {
            let neg = n < 0;
            let d0 = if neg { i + 1 } else { i };
            let mag_nat: nat = if neg { (-(n as int)) as nat } else { n as nat };
            let tm = spec_nat_chars(mag_nat);
            lemma_nat_chars_digits(mag_nat);
            if neg {
                assert(t == seq!['-'] + tm);
                lemma_matches_at_concat(s, i, seq!['-'], tm);
                lemma_matches_at_index(s, i, seq!['-'], 0);
                assert(s[i] == '-');
            } else {
                assert(t == tm);
            }
            assert(matches_at(s, d0, tm));
            assert forall|k: int| d0 <= k < d0 + tm.len() implies is_digit(#[trigger] s[k]) by {
                lemma_matches_at_index(s, d0, tm, k - d0);
            }
            let e = d0 + tm.len();
            assert(e == i + t.len());
            assert(e == s.len() || !is_digit(s[e]));
            lemma_scan_digits_range(s, d0, e);
            lemma_matches_at_index(s, d0, tm, 0);
            assert(is_digit(s[d0]));
            assert(spec_scan_frac(s, e) == Some(e));
            assert(spec_scan_exp(s, e) == Some(e));
            let mag: u64 = if !neg {
                n as u64
            } else if n == i64::MIN {
                9223372036854775808u64
            } else {
                (-n) as u64
            };
            assert(mag as nat == mag_nat);
            assert((0 as nat) * pow10(tm.len()) == 0) by (nonlinear_arith);
            lemma_parse_digits_of_nat(mag, 0u64, s, d0);
            assert(spec_parse_digits(s, d0, 0u64) == spec_parse_digits(s, e, mag));
            assert(spec_parse_digits(s, e, mag) == Some((mag, e)));
            if neg {
                assert(mag <= 9223372036854775808u64);
                assert((-(mag as int)) as i64 == n);
            } else {
                assert(mag <= 9223372036854775807u64);
            }
            assert(spec_parse_number(s, i) == Some((JsonModel::Int(n), e)));
        },
        JsonModel::Num(lex) => {
            assert(t == lex);
            lemma_number_head(lex);
            lemma_matches_at_index(s, i, lex, 0);
            assert(s[i] == lex[0]);
            lemma_parse_number_shift(lex, s, i, JsonModel::Num(lex));
        },
        JsonModel::Str(x) => {
            assert(t =~= seq!['"'] + (spec_escape_from(x, 0) + seq!['"']));
            lemma_matches_at_concat(s, i, seq!['"'], spec_escape_from(x, 0) + seq!['"']);
            lemma_matches_at_index(s, i, seq!['"'], 0);
            assert(s[i] == '"');
            lemma_parse_string_of_escaped(x, 0, s, i + 1);
            assert(x.skip(0) =~= x);
        },
        JsonModel::Arr(items) => {
            if items.len() == 0 {
                assert(spec_encode_items(items, 0) =~= Seq::<char>::empty());
                assert(t =~= seq!['[', ']']);
                lemma_matches_at_index(s, i, t, 0);
                lemma_matches_at_index(s, i, t, 1);
                assert(s[i] == '[' && s[i + 1] == ']');
                assert(spec_skip_ws(s, i + 1) == i + 1);
                assert(items =~= Seq::<JsonModel>::empty());
            } else {
                let body = spec_encode_items(items, 0);
                assert(t =~= seq!['['] + (body + seq![']']));
                lemma_matches_at_concat(s, i, seq!['['], body + seq![']']);
                lemma_matches_at_index(s, i, seq!['['], 0);
                assert(s[i] == '[');
                lemma_encode_first(items[0]);
                assert(body[0] == spec_encode(items[0])[0]);
                lemma_matches_at_index(s, i + 1, body + seq![']'], 0);
                assert(!is_ws(s[i + 1]) && s[i + 1] != ']');
                assert(spec_skip_ws(s, i + 1) == i + 1);
                lemma_parse_elems_of_encoded(items, 0, s, i + 1);
                assert(items.skip(0) =~= items);
            }
        },
        JsonModel::Obj(fields) => {
            if fields.len() == 0 {
                assert(spec_encode_fields(fields, 0) =~= Seq::<char>::empty());
                assert(t =~= seq!['{', '}']);
                lemma_matches_at_index(s, i, t, 0);
                lemma_matches_at_index(s, i, t, 1);
                assert(s[i] == '{' && s[i + 1] == '}');
                assert(spec_skip_ws(s, i + 1) == i + 1);
                assert(fields =~= Seq::<(Seq<char>, JsonModel)>::empty());
            } else {
                let body = spec_encode_fields(fields, 0);
                assert(t =~= seq!['{'] + (body + seq!['}']));
                lemma_matches_at_concat(s, i, seq!['{'], body + seq!['}']);
                lemma_matches_at_index(s, i, seq!['{'], 0);
                assert(s[i] == '{');
                assert(body[0] == '"');
                lemma_matches_at_index(s, i + 1, body + seq!['}'], 0);
                assert(!is_ws(s[i + 1]) && s[i + 1] != '}');
                assert(spec_skip_ws(s, i + 1) == i + 1);
                lemma_parse_members_of_encoded(fields, 0, s, i + 1);
                assert(fields.skip(0) =~= fields);
            }
        },
    }
}

/// The encoded elements of an array from `k` on, followed by the closing
/// bracket, parse back to those elements.
proof fn lemma_parse_elems_of_encoded(items: Seq<JsonModel>, k: int, s: Seq<char>, i: int)
    requires
        0 <= k < items.len(),
        forall|x: int| k <= x < items.len() ==> json_wf(#[trigger] items[x]),
        matches_at(s, i, spec_encode_items(items, k) + seq![']']),
    ensures
        spec_parse_elems(s, i) == Some((
            items.skip(k),
            i + spec_encode_items(items, k).len() + 1,
        )),
    decreases items, items.len() - k, 1int,
{
    let t = spec_encode_items(items, k);
    if k == items.len() - 1 {
        assert(t == spec_encode(items[k]));
        lemma_matches_at_concat(s, i, t, seq![']']);
        lemma_matches_at_index(s, i + t.len(), seq![']'], 0);
        assert(s[i + t.len()] == ']');
        lemma_parse_val_of_encoded(items[k], s, i);
        let j = i + t.len();
        assert(spec_skip_ws(s, j) == j);
        assert(seq![items[k]] =~= items.skip(k));
    } else {
        let head = spec_encode(items[k]);
        let tail = spec_encode_items(items, k + 1);
        assert(t == head + seq![','] + tail);
        assert(t + seq![']'] =~= head + (seq![','] + (tail + seq![']'])));
        lemma_matches_at_concat(s, i, head, seq![','] + (tail + seq![']']));
        let j = i + head.len();
        lemma_matches_at_concat(s, j, seq![','], tail + seq![']']);
        lemma_matches_at_index(s, j, seq![','], 0);
        assert(s[j] == ',');
        lemma_parse_val_of_encoded(items[k], s, i);
        assert(spec_skip_ws(s, j) == j);
        let m = j + 1;
        lemma_encode_first(items[k + 1]);
        assert(tail[0] == spec_encode(items[k + 1])[0]);
        lemma_matches_at_index(s, m, tail + seq![']'], 0);
        assert(!is_ws(s[m]));
        assert(spec_skip_ws(s, m) == m);
        lemma_parse_elems_of_encoded(items, k + 1, s, m);
        assert(seq![items[k]] + items.skip(k + 1) =~= items.skip(k));
    }
}

/// The encoded members of an object from `k` on, followed by the closing
/// brace, parse back to those members.
proof fn lemma_parse_members_of_encoded(
    fields: Seq<(Seq<char>, JsonModel)>,
    k: int,
    s: Seq<char>,
    i: int,
)
    requires
        0 <= k < fields.len(),
        forall|x: int| k <= x < fields.len() ==> json_wf(#[trigger] fields[x].1),
        matches_at(s, i, spec_encode_fields(fields, k) + seq!['}']),
    ensures
        spec_parse_members(s, i) == Some((
            fields.skip(k),
            i + spec_encode_fields(fields, k).len() + 1,
        )),
    decreases fields, fields.len() - k, 1int,
{
    let t = spec_encode_fields(fields, k);
    let key = fields[k].0;
    let val = fields[k].1;
    let esc = spec_escape_from(key, 0);
    let ev = spec_encode(val);
    let one = seq!['"'] + spec_escape(key) + seq!['"', ':'] + ev;
    let closer: Seq<char> = if k == fields.len() - 1 {
        seq!['}']
    } else {
        seq![','] + spec_encode_fields(fields, k + 1) + seq!['}']
    };
    assert(t + seq!['}'] =~= seq!['"'] + ((esc + seq!['"']) + (seq![':'] + (ev + closer))));
    lemma_matches_at_concat(s, i, seq!['"'], (esc + seq!['"']) + (seq![':'] + (ev + closer)));
    lemma_matches_at_index(s, i, seq!['"'], 0);
    assert(s[i] == '"');
    lemma_matches_at_concat(s, i + 1, esc + seq!['"'], seq![':'] + (ev + closer));
    lemma_parse_string_of_escaped(key, 0, s, i + 1);
    assert(key.skip(0) =~= key);
    let j = i + 1 + esc.len() + 1;
    lemma_matches_at_concat(s, j, seq![':'], ev + closer);
    lemma_matches_at_index(s, j, seq![':'], 0);
    assert(s[j] == ':');
    assert(spec_skip_ws(s, j) == j);
    let m = j + 1;
    lemma_matches_at_concat(s, m, ev, closer);
    lemma_encode_first(val);
    lemma_matches_at_index(s, m, ev, 0);
    assert(!is_ws(s[m]));
    assert(spec_skip_ws(s, m) == m);
    let q = m + ev.len();
    if k == fields.len() - 1 {
        lemma_matches_at_index(s, q, closer, 0);
        assert(s[q] == '}');
        lemma_parse_val_of_encoded(val, s, m);
        assert(spec_skip_ws(s, q) == q);
        assert(seq![(key, val)] =~= fields.skip(k));
        assert(t == one);
    } else {
        assert(closer =~= seq![','] + (spec_encode_fields(fields, k + 1) + seq!['}']));
        lemma_matches_at_concat(s, q, seq![','], spec_encode_fields(fields, k + 1) + seq!['}']);
        lemma_matches_at_index(s, q, seq![','], 0);
        assert(s[q] == ',');
        lemma_parse_val_of_encoded(val, s, m);
        assert(spec_skip_ws(s, q) == q);
        let w = q + 1;
        lemma_matches_at_index(s, w, spec_encode_fields(fields, k + 1) + seq!['}'], 0);
        assert(spec_encode_fields(fields, k + 1)[0] == '"');
        assert(!is_ws(s[w]));
        assert(spec_skip_ws(s, w) == w);
        lemma_parse_members_of_encoded(fields, k + 1, s, w);
        assert(seq![(key, val)] + fields.skip(k + 1) =~= fields.skip(k));
        assert(t == one + seq![','] + spec_encode_fields(fields, k + 1));
    }
}

/// The canonical compact text of any document parses back to exactly that
/// document: the parser inverts the encoder on every value.
pub proof fn lemma_encode_parse_round_trip(v: JsonModel)
    requires
        json_wf(v),
    ensures
        spec_parse_json(spec_encode(v)) == Some(v),
{
    let s = spec_encode(v);
    lemma_encode_first(v);
    assert(s.subrange(0, s.len() as int) =~= s);
    assert(matches_at(s, 0, s));
    assert(spec_skip_ws(s, 0) == 0);
    lemma_parse_val_of_encoded(v, s, 0);
    assert(spec_skip_ws(s, s.len() as int) == s.len());
}

/// The document `{"pi":2}`: its text parses to it, and it encodes back to
/// exactly that text.
pub proof fn lemma_pi2_document()
    ensures
        spec_parse_json("{\"pi\":2}"@) == Some::<JsonModel>(
            JsonModel::Obj(seq![("pi"@, JsonModel::Int(2i64))]),
        ),
        spec_encode(JsonModel::Obj(seq![("pi"@, JsonModel::Int(2i64))])) == "{\"pi\":2}"@,
{
    reveal_strlit("{\"pi\":2}");
    reveal_strlit("pi");
    let s = "{\"pi\":2}"@;
    let pi2 = JsonModel::Obj(seq![("pi"@, JsonModel::Int(2i64))]);
    assert(s.len() == 8);
    assert(s[0] == '{');
    assert(s[1] == '"');
    assert(s[2] == 'p');
    assert(s[3] == 'i');
    assert(s[4] == '"');
    assert(s[5] == ':');
    assert(s[6] == '2');
    assert(s[7] == '}');
    assert("pi"@ =~= seq!['p', 'i']);

    // Reading the text, innermost step first.
    assert(spec_parse_string(s, 4) == Some((Seq::<char>::empty(), 5int)));
    assert(seq![s[3]] + Seq::<char>::empty() =~= seq!['i']);
    assert(spec_parse_string(s, 3) == Some((seq!['i'], 5int)));
    assert(seq![s[2]] + seq!['i'] =~= seq!['p', 'i']);
    assert(spec_parse_string(s, 2) == Some((seq!['p', 'i'], 5int)));
    assert(spec_skip_ws(s, 5) == 5);
    assert(spec_skip_ws(s, 6) == 6);
    assert(spec_skip_ws(s, 7) == 7);
    assert(spec_skip_ws(s, 8) == 8);
    assert(spec_parse_digits(s, 7, 2u64) == Some((2u64, 7int)));
    assert(spec_parse_digits(s, 6, 0u64) == Some((2u64, 7int)));
    assert(spec_scan_digits(s, 7) == 7);
    assert(spec_scan_digits(s, 6) == 7);
    assert(spec_scan_frac(s, 7) == Some(7int));
    assert(spec_scan_exp(s, 7) == Some(7int));
    assert(spec_parse_number(s, 6) == Some((JsonModel::Int(2i64), 7int)));
    assert(spec_parse_val(s, 6) == Some((JsonModel::Int(2i64), 7int)));
    assert(spec_parse_members(s, 1) == Some((seq![("pi"@, JsonModel::Int(2i64))], 8int)))
        by {
        assert(spec_parse_string(s, 2) == Some(("pi"@, 5int)));
        assert(seq![("pi"@, JsonModel::Int(2i64))] + Seq::<(Seq<char>, JsonModel)>::empty()
            =~= seq![("pi"@, JsonModel::Int(2i64))]);
    }
    assert(spec_skip_ws(s, 1) == 1);
    assert(spec_parse_val(s, 0) == Some((pi2, 8int)));
    assert(spec_skip_ws(s, 0) == 0);
    assert(spec_parse_json(s) == Some(pi2));

    // Writing the document back.
    assert(crate::json::spec_escape_from("pi"@, 2) =~= Seq::<char>::empty());
    assert(crate::json::esc_char('i') =~= seq!['i']);
    assert(crate::json::esc_char('p') =~= seq!['p']);
    assert(crate::json::spec_escape_from("pi"@, 1) =~= seq!['i']);
    assert(crate::json::spec_escape_from("pi"@, 0) =~= seq!['p', 'i']);
    assert(crate::json::spec_escape("pi"@) =~= seq!['p', 'i']);
    assert(crate::json::spec_nat_chars(2nat) =~= seq!['2']);
    assert(crate::json::spec_int_chars(2int) =~= seq!['2']);
    assert(spec_encode(JsonModel::Int(2i64)) =~= seq!['2']);
    assert(crate::json::spec_encode_fields(seq![("pi"@, JsonModel::Int(2i64))], 0) =~= seq![
        '"',
        'p',
        'i',
        '"',
        ':',
        '2',
    ]);
    assert(spec_encode(pi2) =~= s);
}

/// A member list whose `p`-th key is `key`, with no later member under the
/// same key, yields that member's value.
proof fn lemma_obj_get_from(fields: Seq<(Seq<char>, JsonModel)>, p: int, key: Seq<char>)
    requires
        0 <= p < fields.len(),
        fields[p].0 == key,
        forall|q: int| p < q < fields.len() ==> (#[trigger] fields[q].0) != key,
    ensures
        spec_obj_get(fields, key) == Some(fields[p].1),
    decreases fields.len(),
{
    if p == fields.len() - 1 {
    } else {
        assert(fields.last().0 != key);
        assert(fields.drop_last() =~= fields.subrange(0, fields.len() - 1));
        lemma_obj_get_from(fields.drop_last(), p, key);
    }
}

/// For any reference item and any of its six sub-document columns whose
/// stored text decodes to a structured document (not raw string text):
/// published and pulled back, that stored column holds the document's
/// compact text and decodes to the same document -- no double-encoding and
/// no data loss.
pub proof fn lemma_subdoc_round_trip(m: RefItemModel, key: Seq<char>, d: JsonModel)
    requires
        key == "degats"@ || key == "caracteristiques"@ || key == "protections"@ || key
            == "prix_info"@ || key == "craft"@ || key == "details"@,
        spec_parse_json(subdoc_column(m, key)) == Some(d),
        !(d is Str),
        json_wf(d),
    ensures
        subdoc_column(spec_ref_item_from_remote(spec_ref_item_json(m)), key) == spec_encode(d),
        spec_parse_json(subdoc_column(spec_ref_item_from_remote(spec_ref_item_json(m)), key))
            == Some(d),
{
    let doc = spec_ref_item_json(m);
    let fields = seq![
        ("id"@, JsonModel::Int(m.id)),
        ("category"@, JsonModel::Str(m.category)),
        ("ref_id"@, JsonModel::Int(m.ref_id)),
        ("nom"@, JsonModel::Str(m.nom)),
        ("degats"@, spec_data_doc(m.degats)),
        ("caracteristiques"@, spec_data_doc(m.caracteristiques)),
        ("protections"@, spec_data_doc(m.protections)),
        ("prix_info"@, spec_data_doc(m.prix_info)),
        ("craft"@, spec_data_doc(m.craft)),
        ("details"@, spec_data_doc(m.details)),
    ];
    assert(doc == JsonModel::Obj(fields));
    reveal_strlit("degats");
    reveal_strlit("caracteristiques");
    reveal_strlit("protections");
    reveal_strlit("prix_info");
    reveal_strlit("craft");
    reveal_strlit("details");
    assert("degats"@.len() == 6);
    assert("caracteristiques"@.len() == 16);
    assert("protections"@.len() == 11);
    assert("prix_info"@.len() == 9);
    assert("craft"@.len() == 5);
    assert("details"@.len() == 7);
    let p: int = if key == "caracteristiques"@ { 5 }
    else if key == "protections"@ { 6 }
    else if key == "prix_info"@ { 7 }
    else if key == "craft"@ { 8 }
    else if key == "details"@ { 9 }
    else { 4 };
    assert(fields[p].0 == key);
    assert(fields[p].1 == spec_data_doc(subdoc_column(m, key)));
    assert forall|q: int| p < q < fields.len() implies (#[trigger] fields[q].0) != key by {
        assert(fields[q].0.len() != key.len());
    }
    lemma_obj_get_from(fields, p, key);
    assert(spec_obj_get(fields, key) == Some(d));
    assert(spec_subdoc_of(doc, key) == SubDocModel::Structured(d));
    assert(spec_encode_subdoc(spec_subdoc_of(doc, key)) == spec_encode(d));
    assert(subdoc_column(spec_ref_item_from_remote(doc), key) == spec_encode(d));
    lemma_encode_parse_round_trip(d);
}

/// The corollary for the text `{"pi":2}`: a reference item whose `degats`
/// column holds exactly that text comes back with the same structured
/// value after a publish-then-pull cycle.
pub proof fn lemma_pi2_subdoc_round_trip(m: RefItemModel)
    requires
        m.degats == "{\"pi\":2}"@,
    ensures
        spec_parse_json(spec_ref_item_from_remote(spec_ref_item_json(m)).degats) == Some::<
            JsonModel,
        >(JsonModel::Obj(seq![("pi"@, JsonModel::Int(2i64))])),
{
    lemma_pi2_document();
    reveal_strlit("degats");
    reveal_strlit("caracteristiques");
    reveal_strlit("protections");
    reveal_strlit("prix_info");
    reveal_strlit("craft");
    reveal_strlit("details");
    assert("degats"@.len() == 6);
    assert("caracteristiques"@.len() == 16);
    assert("protections"@.len() == 11);
    assert("prix_info"@.len() == 9);
    assert("craft"@.len() == 5);
    assert("details"@.len() == 7);
    assert(subdoc_column(m, "degats"@) == m.degats);
    let pulled = spec_ref_item_from_remote(spec_ref_item_json(m));
    assert(subdoc_column(pulled, "degats"@) == pulled.degats);
    let pi2 = JsonModel::Obj(seq![("pi"@, JsonModel::Int(2i64))]);
    assert(json_wf(pi2)) by {
        assert forall|x: int| 0 <= x < 1 implies json_wf(
            #[trigger] seq![("pi"@, JsonModel::Int(2i64))][x].1,
        ) by {
            assert(seq![("pi"@, JsonModel::Int(2i64))][0].1 == JsonModel::Int(2i64));
        }
    }
    lemma_subdoc_round_trip(m, "degats"@, pi2);
}

} // verus!
