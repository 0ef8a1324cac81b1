//! A lenient JSON reader for the document model of `json`.
//!
//! The remote backend answers with JSON text; stored sub-document columns
//! hold JSON text as well. This parser reads the grammar the encoder writes,
//! plus surrounding whitespace, the standard single-character escapes, and
//! `\uXXXX` escapes with surrogate pairs. A number that is a whole 64-bit
//! value becomes an integer; any other readable number keeps its raw
//! lexeme, so nothing of it is lost.

use vstd::prelude::*;
use vstd::string::*;
use crate::json::{JsonVal, JsonModel, jmodel_of, jmodels_of, jfield_models_of, push_char};

verus! {

broadcast use
    vstd::seq::group_seq_axioms,
    vstd::std_specs::vec::group_vec_axioms,
    vstd::utf8::char_u32_cast;

/// JSON insignificant whitespace.
pub open spec fn is_ws(c: char) -> bool {
    c == ' ' || c == '\n' || c == '\r' || c == '\t'
}

/// A decimal digit character.
pub open spec fn is_digit(c: char) -> bool {
    c == '0' || c == '1' || c == '2' || c == '3' || c == '4' || c == '5' || c == '6' || c == '7'
        || c == '8' || c == '9'
}

/// The value of a decimal digit character.
pub open spec fn digit_val(c: char) -> int {
    if c == '0' { 0 }
    else if c == '1' { 1 }
    else if c == '2' { 2 }
    else if c == '3' { 3 }
    else if c == '4' { 4 }
    else if c == '5' { 5 }
    else if c == '6' { 6 }
    else if c == '7' { 7 }
    else if c == '8' { 8 }
    else { 9 }
}

/// A hexadecimal digit character, either case.
pub open spec fn is_hex_digit(c: char) -> bool {
    is_digit(c) || c == 'a' || c == 'b' || c == 'c' || c == 'd' || c == 'e' || c == 'f' || c == 'A'
        || c == 'B' || c == 'C' || c == 'D' || c == 'E' || c == 'F'
}

/// The value of a hexadecimal digit character.
pub open spec fn hex_val(c: char) -> int {
    if is_digit(c) { digit_val(c) }
    else if c == 'a' || c == 'A' { 10 }
    else if c == 'b' || c == 'B' { 11 }
    else if c == 'c' || c == 'C' { 12 }
    else if c == 'd' || c == 'D' { 13 }
    else if c == 'e' || c == 'E' { 14 }
    else { 15 }
}

/// Four hexadecimal digits at `i`, as one value below `0x10000`.
pub open spec fn spec_hex4(s: Seq<char>, i: int) -> Option<int> {
    if 0 <= i && i + 4 <= s.len() && is_hex_digit(s[i]) && is_hex_digit(s[i + 1]) && is_hex_digit(
        s[i + 2],
    ) && is_hex_digit(s[i + 3]) {
        Some(hex_val(s[i]) * 4096 + hex_val(s[i + 1]) * 256 + hex_val(s[i + 2]) * 16 + hex_val(
            s[i + 3],
        ))
    } else {
        None
    }
}

/// The character named by a backslash escape, if the escape is known.
pub open spec fn unescape_char(c: char) -> Option<char> {
    if c == '"' { Some('"') }
    else if c == '\\' { Some('\\') }
    else if c == '/' { Some('/') }
    else if c == 'n' { Some('\n') }
    else if c == 'r' { Some('\r') }
    else if c == 't' { Some('\t') }
    else if c == 'b' { Some('\u{0008}') }
    else if c == 'f' { Some('\u{000C}') }
    else { None }
}

/// The first position at or after `i` that holds no whitespace.
pub open spec fn spec_skip_ws(s: Seq<char>, i: int) -> int
    decreases s.len() - i,
{
    if 0 <= i < s.len() && is_ws(s[i]) {
        spec_skip_ws(s, i + 1)
    } else {
        i
    }
}

/// Reads the body of a string literal from `i` (after the opening quote) to
/// its closing quote; yields the unescaped characters and the position after
/// the closing quote.
pub open spec fn spec_parse_string(s: Seq<char>, i: int) -> Option<(Seq<char>, int)>
    decreases s.len() - i,
{
    if i < 0 || i >= s.len() {
        None
    } else if s[i] == '"' {
        Some((Seq::empty(), i + 1))
    } else if s[i] == '\\' {
        if i + 1 < s.len() {
            if s[i + 1] == 'u' {
                match spec_hex4(s, i + 2) {
                    None => None,
                    Some(n1) => if 0xD800 <= n1 < 0xDC00 {
                        // a high surrogate must pair with a low one
                        if i + 8 <= s.len() && s[i + 6] == '\\' && s[i + 7] == 'u' {
                            match spec_hex4(s, i + 8) {
                                None => None,
                                Some(n2) => if 0xDC00 <= n2 < 0xE000 {
                                    let code = 0x10000 + (n1 - 0xD800) * 0x400 + (n2 - 0xDC00);
                                    match spec_parse_string(s, i + 12) {
                                        Some((rest, j)) => Some(
                                            (seq![((code as u32) as char)] + rest, j),
                                        ),
                                        None => None,
                                    }
                                } else {
                                    None
                                },
                            }
                        } else {
                            None
                        }
                    } else if 0xDC00 <= n1 < 0xE000 {
                        None
                    } else {
                        match spec_parse_string(s, i + 6) {
                            Some((rest, j)) => Some((seq![((n1 as u32) as char)] + rest, j)),
                            None => None,
                        }
                    },
                }
            } else {
                match unescape_char(s[i + 1]) {
                    Some(c) => match spec_parse_string(s, i + 2) {
                        Some((rest, j)) => Some((seq![c] + rest, j)),
                        None => None,
                    },
                    None => None,
                }
            }
        } else {
            None
        }
    } else {
        match spec_parse_string(s, i + 1) {
            Some((rest, j)) => Some((seq![s[i]] + rest, j)),
            None => None,
        }
    }
}

/// Accumulates decimal digits from `i` into `acc`; stops at the first
/// non-digit. Fails if the value would not fit an unsigned 64-bit word.
pub open spec fn spec_parse_digits(s: Seq<char>, i: int, acc: u64) -> Option<(u64, int)>
    decreases s.len() - i,
{
    if i < 0 || i >= s.len() || !is_digit(s[i]) {
        Some((acc, i))
    } else {
        let d = digit_val(s[i]);
        if acc > 1844674407370955161u64 || (acc == 1844674407370955161u64 && d > 5) {
            None
        } else {
            spec_parse_digits(s, i + 1, (acc * 10 + d) as u64)
        }
    }
}

/// The first position at or after `i` that holds no decimal digit.
pub open spec fn spec_scan_digits(s: Seq<char>, i: int) -> int
    decreases s.len() - i,
{
    if 0 <= i < s.len() && is_digit(s[i]) {
        spec_scan_digits(s, i + 1)
    } else {
        i
    }
}

/// The end of an optional fraction part at `j`: a dot must be followed by
/// at least one digit.
pub open spec fn spec_scan_frac(s: Seq<char>, j: int) -> Option<int> {
    if j < s.len() && s[j] == '.' {
        if j + 1 < s.len() && is_digit(s[j + 1]) {
            Some(spec_scan_digits(s, j + 1))
        } else {
            None
        }
    } else {
        Some(j)
    }
}

/// The end of an optional exponent part at `k`: `e` or `E`, an optional
/// sign, and at least one digit.
pub open spec fn spec_scan_exp(s: Seq<char>, k: int) -> Option<int> {
    if k < s.len() && (s[k] == 'e' || s[k] == 'E') {
        let e0 = if k + 1 < s.len() && (s[k + 1] == '+' || s[k + 1] == '-') {
            k + 2
        } else {
            k + 1
        };
        if e0 < s.len() && is_digit(s[e0]) {
            Some(spec_scan_digits(s, e0))
        } else {
            None
        }
    } else {
        Some(k)
    }
}

/// Reads one JSON number. A plain whole value that fits a signed 64-bit
/// word becomes an integer; any other readable number — a fraction, an
/// exponent, or a whole value out of range — keeps its raw lexeme.
pub open spec fn spec_parse_number(s: Seq<char>, i: int) -> Option<(JsonModel, int)> {
    if i < 0 || i >= s.len() {
        None
    } else {
        let d0 = if s[i] == '-' {
            i + 1
        } else {
            i
        };
        if d0 >= s.len() || !is_digit(s[d0]) {
            None
        } else {
            let j = spec_scan_digits(s, d0);
            match spec_scan_frac(s, j) {
                None => None,
                Some(k) => match spec_scan_exp(s, k) {
                    None => None,
                    Some(m) => if m == j {
                        match spec_parse_digits(s, d0, 0u64) {
                            Some((mag, _)) => if s[i] == '-' {
                                if mag <= 9223372036854775808u64 {
                                    Some((JsonModel::Int((-(mag as int)) as i64), j))
                                } else {
                                    Some((JsonModel::Num(s.subrange(i, j)), j))
                                }
                            } else {
                                if mag <= 9223372036854775807u64 {
                                    Some((JsonModel::Int(mag as i64), j))
                                } else {
                                    Some((JsonModel::Num(s.subrange(i, j)), j))
                                }
                            },
                            None => Some((JsonModel::Num(s.subrange(i, j)), j)),
                        }
                    } else {
                        Some((JsonModel::Num(s.subrange(i, m)), m))
                    },
                },
            }
        }
    }
}

/// Reads one JSON value starting exactly at `i` (no leading whitespace).
pub open spec fn spec_parse_val(s: Seq<char>, i: int) -> Option<(JsonModel, int)>
    decreases s.len() - i, 0int,
{
    if i < 0 || i >= s.len() {
        None
    } else if s[i] == 'n' {
        if i + 4 <= s.len() && s[i + 1] == 'u' && s[i + 2] == 'l' && s[i + 3] == 'l' {
            Some((JsonModel::Null, i + 4))
        } else {
            None
        }
    } else if s[i] == 't' {
        if i + 4 <= s.len() && s[i + 1] == 'r' && s[i + 2] == 'u' && s[i + 3] == 'e' {
            Some((JsonModel::Bool(true), i + 4))
        } else {
            None
        }
    } else if s[i] == 'f' {
        if i + 5 <= s.len() && s[i + 1] == 'a' && s[i + 2] == 'l' && s[i + 3] == 's' && s[i + 4]
            == 'e' {
            Some((JsonModel::Bool(false), i + 5))
        } else {
            None
        }
    } else if s[i] == '"' {
        match spec_parse_string(s, i + 1) {
            Some((cs, j)) => Some((JsonModel::Str(cs), j)),
            None => None,
        }
    } else if s[i] == '[' {
        let j = spec_skip_ws(s, i + 1);
        if j < s.len() && s[j] == ']' {
            Some((JsonModel::Arr(Seq::empty()), j + 1))
        } else if j <= i || j > s.len() {
            None
        } else {
            match spec_parse_elems(s, j) {
                Some((elems, k)) => Some((JsonModel::Arr(elems), k)),
                None => None,
            }
        }
    } else if s[i] == '{' {
        let j = spec_skip_ws(s, i + 1);
        if j < s.len() && s[j] == '}' {
            Some((JsonModel::Obj(Seq::empty()), j + 1))
        } else if j <= i || j > s.len() {
            None
        } else {
            match spec_parse_members(s, j) {
                Some((fields, k)) => Some((JsonModel::Obj(fields), k)),
                None => None,
            }
        }
    } else if s[i] == '-' || is_digit(s[i]) {
        spec_parse_number(s, i)
    } else {
        None
    }
}

/// Reads the elements of a non-empty array from the first element at `i`
/// through the closing bracket.
pub open spec fn spec_parse_elems(s: Seq<char>, i: int) -> Option<(Seq<JsonModel>, int)>
    decreases s.len() - i, 1int,
{
    match spec_parse_val(s, i) {
        None => None,
        Some((v, j)) => {
            let k = spec_skip_ws(s, j);
            if k < s.len() && s[k] == ',' {
                let m = spec_skip_ws(s, k + 1);
                if m <= i || m > s.len() {
                    None
                } else {
                    match spec_parse_elems(s, m) {
                        Some((rest, e)) => Some((seq![v] + rest, e)),
                        None => None,
                    }
                }
            } else if k < s.len() && s[k] == ']' {
                Some((seq![v], k + 1))
            } else {
                None
            }
        },
    }
}

/// Reads the members of a non-empty object from the first key at `i`
/// through the closing brace.
pub open spec fn spec_parse_members(s: Seq<char>, i: int) -> Option<
    (Seq<(Seq<char>, JsonModel)>, int),
>
    decreases s.len() - i, 1int,
{
    if i < 0 || i >= s.len() || s[i] != '"' {
        None
    } else {
        match spec_parse_string(s, i + 1) {
            None => None,
            Some((key, j)) => {
                let k = spec_skip_ws(s, j);
                if k < s.len() && s[k] == ':' {
                    let m = spec_skip_ws(s, k + 1);
                    if m <= i || m > s.len() {
                        None
                    } else {
                        match spec_parse_val(s, m) {
                            None => None,
                            Some((v, p)) => {
                                let q = spec_skip_ws(s, p);
                                if q < s.len() && s[q] == ',' {
                                    let w = spec_skip_ws(s, q + 1);
                                    if w <= i || w > s.len() {
                                        None
                                    } else {
                                        match spec_parse_members(s, w) {
                                            Some((rest, e)) => Some((seq![(key, v)] + rest, e)),
                                            None => None,
                                        }
                                    }
                                } else if q < s.len() && s[q] == '}' {
                                    Some((seq![(key, v)], q + 1))
                                } else {
                                    None
                                }
                            },
                        }
                    }
                } else {
                    None
                }
            },
        }
    }
}

/// Reads one whole document: a value with whitespace on either side and
/// nothing after it.
pub open spec fn spec_parse_json(s: Seq<char>) -> Option<JsonModel> {
    let i = spec_skip_ws(s, 0);
    match spec_parse_val(s, i) {
        Some((v, j)) => if spec_skip_ws(s, j) == s.len() {
            Some(v)
        } else {
            None
        },
        None => None,
    }
}

/// The model of an optional parsed document.
pub open spec fn jopt_model(r: Option<JsonVal>) -> Option<JsonModel> {
    match r {
        Some(v) => Some(jmodel_of(v)),
        None => None,
    }
}

spec fn val_opt_model(r: Option<(JsonVal, usize)>) -> Option<(JsonModel, int)> {
    match r {
        Some((v, j)) => Some((jmodel_of(v), j as int)),
        None => None,
    }
}

spec fn str_opt_model(r: Option<(String, usize)>) -> Option<(Seq<char>, int)> {
    match r {
        Some((st, j)) => Some((st@, j as int)),
        None => None,
    }
}

spec fn digits_opt_model(r: Option<(u64, usize)>) -> Option<(u64, int)> {
    match r {
        Some((m, j)) => Some((m, j as int)),
        None => None,
    }
}

spec fn elems_opt_model(r: Option<(Vec<JsonVal>, usize)>) -> Option<(Seq<JsonModel>, int)> {
    match r {
        Some((v, j)) => Some((jmodels_of(v@), j as int)),
        None => None,
    }
}

spec fn members_opt_model(r: Option<(Vec<(String, JsonVal)>, usize)>) -> Option<
    (Seq<(Seq<char>, JsonModel)>, int),
> {
    match r {
        Some((v, j)) => Some((jfield_models_of(v@), j as int)),
        None => None,
    }
}

/// The characters of a string slice, one vector entry per character.
pub fn str_chars(s: &str) -> (r: Vec<char>)
    ensures
        r@ == s@,
{
    let n = s.unicode_len();
    let mut out: Vec<char> = Vec::new();
    let mut i: usize = 0;
    while i < n
        invariant
            i <= n,
            n == s@.len(),
            out@ == s@.subrange(0, i as int),
        decreases n - i,
    {
        out.push(s.get_char(i));
        i = i + 1;
        assert(out@ =~= s@.subrange(0, i as int));
    }
    assert(out@ =~= s@);
    out
}

fn is_ws_char(c: char) -> (b: bool)
    ensures
        b == is_ws(c),
{
    c == ' ' || c == '\n' || c == '\r' || c == '\t'
}

fn is_digit_char(c: char) -> (b: bool)
    ensures
        b == is_digit(c),
{
    c == '0' || c == '1' || c == '2' || c == '3' || c == '4' || c == '5' || c == '6' || c == '7'
        || c == '8' || c == '9'
}

fn digit_val_char(c: char) -> (d: u64)
    requires
        is_digit(c),
    ensures
        d == digit_val(c),
        d < 10,
{
    if c == '0' { 0 }
    else if c == '1' { 1 }
    else if c == '2' { 2 }
    else if c == '3' { 3 }
    else if c == '4' { 4 }
    else if c == '5' { 5 }
    else if c == '6' { 6 }
    else if c == '7' { 7 }
    else if c == '8' { 8 }
    else { 9 }
}

fn unescape(c: char) -> (r: Option<char>)
    ensures
        r == unescape_char(c),
{
    if c == '"' { Some('"') }
    else if c == '\\' { Some('\\') }
    else if c == '/' { Some('/') }
    else if c == 'n' { Some('\n') }
    else if c == 'r' { Some('\r') }
    else if c == 't' { Some('\t') }
    else if c == 'b' { Some('\u{0008}') }
    else if c == 'f' { Some('\u{000C}') }
    else { None }
}

fn hex_digit_val(c: char) -> (r: Option<u32>)
    ensures
        (r is Some) == is_hex_digit(c),
        (r matches Some(v) ==> v as int == hex_val(c) && v < 16),
{
    if c == '0' { Some(0) }
    else if c == '1' { Some(1) }
    else if c == '2' { Some(2) }
    else if c == '3' { Some(3) }
    else if c == '4' { Some(4) }
    else if c == '5' { Some(5) }
    else if c == '6' { Some(6) }
    else if c == '7' { Some(7) }
    else if c == '8' { Some(8) }
    else if c == '9' { Some(9) }
    else if c == 'a' || c == 'A' { Some(10) }
    else if c == 'b' || c == 'B' { Some(11) }
    else if c == 'c' || c == 'C' { Some(12) }
    else if c == 'd' || c == 'D' { Some(13) }
    else if c == 'e' || c == 'E' { Some(14) }
    else if c == 'f' || c == 'F' { Some(15) }
    else { None }
}

fn hex4(s: &Vec<char>, i: usize) -> (r: Option<u32>)
    requires
        i <= s@.len(),
    ensures
        (match r {
            Some(n) => spec_hex4(s@, i as int) == Some(n as int) && n < 0x10000 && i + 4
                <= s@.len(),
            None => spec_hex4(s@, i as int) is None,
        }),
{
    if s.len() - i < 4 {
        return None;
    }
    match (hex_digit_val(s[i]), hex_digit_val(s[i + 1]), hex_digit_val(s[i + 2]), hex_digit_val(
        s[i + 3],
    )) {
        (Some(a), Some(b), Some(c), Some(d)) => Some(a * 4096 + b * 256 + c * 16 + d),
        _ => None,
    }
}

/// Relies on `char::from_u32` of std: a value that is no surrogate and at
/// most the largest code point names exactly one character, whose cast
/// back to a 32-bit value gives the value again; a surrogate or an
/// out-of-range value names none.
#[verifier::external_body]
fn char_from_code(n: u32) -> (r: Option<char>)
    ensures
        (r matches Some(c) ==> c as u32 == n),
        (r is Some) <==> (n < 0xD800 || (0xE000 <= n && n <= 0x10FFFF)),
{
    char::from_u32(n)
}

fn skip_ws(s: &Vec<char>, i: usize) -> (r: usize)
    requires
        i <= s@.len(),
    ensures
        r as int == spec_skip_ws(s@, i as int),
        i <= r <= s@.len(),
{
    let mut j = i;
    while j < s.len() && is_ws_char(s[j])
        invariant
            i <= j <= s@.len(),
            spec_skip_ws(s@, i as int) == spec_skip_ws(s@, j as int),
        decreases s@.len() - j,
    {
        j = j + 1;
    }
    j
}

fn parse_string(s: &Vec<char>, i: usize) -> (r: Option<(String, usize)>)
    requires
        i <= s@.len(),
    ensures
        str_opt_model(r) == spec_parse_string(s@, i as int),
        (r matches Some((_, j)) ==> i < j <= s@.len()),
    decreases s@.len() - i,
{
    if i >= s.len() {
        return None;
    }
    let c = s[i];
    if c == '"' {
        Some((String::new(), i + 1))
    } else if c == '\\' {
        if i + 1 < s.len() {
            if s[i + 1] == 'u' {
                match hex4(s, i + 2) {
                    None => None,
                    Some(n1) => {
                        if 0xD800 <= n1 && n1 < 0xDC00 {
                            if s.len() - i >= 8 && s[i + 6] == '\\' && s[i + 7] == 'u' {
                                match hex4(s, i + 8) {
                                    None => None,
                                    Some(n2) => {
                                        if 0xDC00 <= n2 && n2 < 0xE000 {
                                            let code: u32 = 0x10000 + (n1 - 0xD800) * 0x400 + (n2
                                                - 0xDC00);
                                            match char_from_code(code) {
                                                Some(u) => match parse_string(s, i + 12) {
                                                    Some((rest, j)) => {
                                                        proof {
                                                            vstd::utf8::char_u32_cast(u, code);
                                                        }
                                                        let mut head = String::new();
                                                        push_char(&mut head, u);
                                                        head.append(rest.as_str());
                                                        assert(head@ =~= seq![u] + rest@);
                                                        Some((head, j))
                                                    },
                                                    None => None,
                                                },
                                                None => {
                                                    assert(false);
                                                    None
                                                },
                                            }
                                        } else {
                                            None
                                        }
                                    },
                                }
                            } else {
                                None
                            }
                        } else if 0xDC00 <= n1 && n1 < 0xE000 {
                            None
                        } else {
                            match char_from_code(n1) {
                                Some(u) => match parse_string(s, i + 6) {
                                    Some((rest, j)) => {
                                        proof {
                                            vstd::utf8::char_u32_cast(u, n1);
                                        }
                                        let mut head = String::new();
                                        push_char(&mut head, u);
                                        head.append(rest.as_str());
                                        assert(head@ =~= seq![u] + rest@);
                                        Some((head, j))
                                    },
                                    None => None,
                                },
                                None => {
                                    assert(false);
                                    None
                                },
                            }
                        }
                    },
                }
            } else {
                match unescape(s[i + 1]) {
                    Some(u) => match parse_string(s, i + 2) {
                        Some((rest, j)) => {
                            let mut head = String::new();
                            push_char(&mut head, u);
                            head.append(rest.as_str());
                            assert(head@ =~= seq![u] + rest@);
                            Some((head, j))
                        },
                        None => None,
                    },
                    None => None,
                }
            }
        } else {
            None
        }
    } else {
        match parse_string(s, i + 1) {
            Some((rest, j)) => {
                let mut head = String::new();
                push_char(&mut head, c);
                head.append(rest.as_str());
                assert(head@ =~= seq![c] + rest@);
                Some((head, j))
            },
            None => None,
        }
    }
}

fn parse_digits(s: &Vec<char>, i: usize, acc: u64) -> (r: Option<(u64, usize)>)
    requires
        i <= s@.len(),
    ensures
        digits_opt_model(r) == spec_parse_digits(s@, i as int, acc),
        (r matches Some((_, j)) ==> i <= j <= s@.len()),
        (r matches Some((_, j)) ==> ((i < s@.len() && is_digit(s@[i as int])) ==> i < j)),
    decreases s@.len() - i,
{
    if i < s.len() && is_digit_char(s[i]) {
        let d = digit_val_char(s[i]);
        if acc > 1844674407370955161u64 || (acc == 1844674407370955161u64 && d > 5) {
            None
        } else {
            parse_digits(s, i + 1, acc * 10 + d)
        }
    } else {
        Some((acc, i))
    }
}

fn scan_digits(s: &Vec<char>, i: usize) -> (r: usize)
    requires
        i <= s@.len(),
    ensures
        r as int == spec_scan_digits(s@, i as int),
        i <= r <= s@.len(),
{
    let mut j = i;
    while j < s.len() && is_digit_char(s[j])
        invariant
            i <= j <= s@.len(),
            spec_scan_digits(s@, i as int) == spec_scan_digits(s@, j as int),
        decreases s@.len() - j,
    {
        j = j + 1;
    }
    j
}

/// The characters of `s` between `a` and `b`, as a string.
fn chars_range_string(s: &Vec<char>, a: usize, b: usize) -> (r: String)
    requires
        a <= b <= s@.len(),
    ensures
        r@ == s@.subrange(a as int, b as int),
{
    let mut out = String::new();
    let mut i = a;
    while i < b
        invariant
            a <= i <= b <= s@.len(),
            out@ == s@.subrange(a as int, i as int),
        decreases b - i,
    {
        push_char(&mut out, s[i]);
        i = i + 1;
        assert(out@ =~= s@.subrange(a as int, i as int));
    }
    assert(out@ =~= s@.subrange(a as int, b as int));
    out
}

fn parse_number(s: &Vec<char>, i: usize) -> (r: Option<(JsonVal, usize)>)
    requires
        i <= s@.len(),
    ensures
        val_opt_model(r) == spec_parse_number(s@, i as int),
        (r matches Some((_, j)) ==> i < j <= s@.len()),
{
    if i >= s.len() {
        return None;
    }
    let d0 = if s[i] == '-' {
        i + 1
    } else {
        i
    };
    if d0 >= s.len() || !is_digit_char(s[d0]) {
        return None;
    }
    let j = scan_digits(s, d0);
    assert(j > d0) by {
        assert(spec_scan_digits(s@, d0 as int) == spec_scan_digits(s@, d0 + 1));
        lemma_scan_digits_ge(s@, d0 + 1);
    }
    let k_opt: Option<usize> = if j < s.len() && s[j] == '.' {
        if j + 1 < s.len() && is_digit_char(s[j + 1]) {
            Some(scan_digits(s, j + 1))
        } else {
            None
        }
    } else {
        Some(j)
    };
    match k_opt {
        None => None,
        Some(k) => {
            let m_opt: Option<usize> = if k < s.len() && (s[k] == 'e' || s[k] == 'E') {
                let e0 = if k + 1 < s.len() && (s[k + 1] == '+' || s[k + 1] == '-') {
                    k + 2
                } else {
                    k + 1
                };
                if e0 < s.len() && is_digit_char(s[e0]) {
                    Some(scan_digits(s, e0))
                } else {
                    None
                }
            } else {
                Some(k)
            };
            match m_opt {
                None => None,
                Some(m) => {
                    if m == j {
                        match parse_digits(s, d0, 0u64) {
                            Some((mag, _end)) => {
                                if s[i] == '-' {
                                    if mag <= 9223372036854775808u64 {
                                        let v: i64 = if mag == 9223372036854775808u64 {
                                            i64::MIN
                                        } else {
                                            -(mag as i64)
                                        };
                                        Some((JsonVal::Int(v), j))
                                    } else {
                                        Some((JsonVal::Num(chars_range_string(s, i, j)), j))
                                    }
                                } else {
                                    if mag <= 9223372036854775807u64 {
                                        Some((JsonVal::Int(mag as i64), j))
                                    } else {
                                        Some((JsonVal::Num(chars_range_string(s, i, j)), j))
                                    }
                                }
                            },
                            None => Some((JsonVal::Num(chars_range_string(s, i, j)), j)),
                        }
                    } else {
                        Some((JsonVal::Num(chars_range_string(s, i, m)), m))
                    }
                },
            }
        },
    }
}

/// A digit scan never moves backwards.
pub proof fn lemma_scan_digits_ge(s: Seq<char>, i: int)
    ensures
        spec_scan_digits(s, i) >= i,
    decreases s.len() - i,
{
    if 0 <= i < s.len() && is_digit(s[i]) {
        lemma_scan_digits_ge(s, i + 1);
    }
}

fn parse_val(s: &Vec<char>, i: usize) -> (r: Option<(JsonVal, usize)>)
    requires
        i <= s@.len(),
    ensures
        val_opt_model(r) == spec_parse_val(s@, i as int),
        (r matches Some((_, j)) ==> i < j <= s@.len()),
    decreases s@.len() - i, 0int,
{
    if i >= s.len() {
        return None;
    }
    let c = s[i];
    if c == 'n' {
        if s.len() - i >= 4 && s[i + 1] == 'u' && s[i + 2] == 'l' && s[i + 3] == 'l' {
            Some((JsonVal::Null, i + 4))
        } else {
            None
        }
    } else if c == 't' {
        if s.len() - i >= 4 && s[i + 1] == 'r' && s[i + 2] == 'u' && s[i + 3] == 'e' {
            Some((JsonVal::Bool(true), i + 4))
        } else {
            None
        }
    } else if c == 'f' {
        if s.len() - i >= 5 && s[i + 1] == 'a' && s[i + 2] == 'l' && s[i + 3] == 's' && s[i + 4]
            == 'e' {
            Some((JsonVal::Bool(false), i + 5))
        } else {
            None
        }
    } else if c == '"' {
        match parse_string(s, i + 1) {
            Some((cs, j)) => Some((JsonVal::Str(cs), j)),
            None => None,
        }
    } else if c == '[' {
        let j = skip_ws(s, i + 1);
        if j < s.len() && s[j] == ']' {
            let empty: Vec<JsonVal> = Vec::new();
            assert(jmodels_of(empty@) =~= Seq::<JsonModel>::empty());
            Some((JsonVal::Arr(empty), j + 1))
        } else if j <= i || j > s.len() {
            None
        } else {
            match parse_elems(s, j) {
                Some((elems, k)) => Some((JsonVal::Arr(elems), k)),
                None => None,
            }
        }
    } else if c == '{' {
        let j = skip_ws(s, i + 1);
        if j < s.len() && s[j] == '}' {
            let empty: Vec<(String, JsonVal)> = Vec::new();
            assert(jfield_models_of(empty@) =~= Seq::<(Seq<char>, JsonModel)>::empty());
            Some((JsonVal::Obj(empty), j + 1))
        } else if j <= i || j > s.len() {
            None
        } else {
            match parse_members(s, j) {
                Some((fields, k)) => Some((JsonVal::Obj(fields), k)),
                None => None,
            }
        }
    } else if c == '-' || is_digit_char(c) {
        let r = parse_number(s, i);
        assert(val_opt_model(r) == spec_parse_val(s@, i as int));
        r
    } else {
        None
    }
}

fn parse_elems(s: &Vec<char>, i: usize) -> (r: Option<(Vec<JsonVal>, usize)>)
    requires
        i <= s@.len(),
    ensures
        elems_opt_model(r) == spec_parse_elems(s@, i as int),
        (r matches Some((_, j)) ==> i < j <= s@.len()),
    decreases s@.len() - i, 1int,
{
    match parse_val(s, i) {
        None => None,
        Some((v, j)) => {
            let k = skip_ws(s, j);
            if k < s.len() && s[k] == ',' {
                let m = skip_ws(s, k + 1);
                if m <= i || m > s.len() {
                    None
                } else {
                    match parse_elems(s, m) {
                        Some((rest, e)) => {
                            let ghost prev = rest@;
                            let mut rest = rest;
                            rest.insert(0, v);
                            assert(jmodels_of(rest@) =~= seq![jmodel_of(v)] + jmodels_of(prev));
                            Some((rest, e))
                        },
                        None => None,
                    }
                }
            } else if k < s.len() && s[k] == ']' {
                let mut one: Vec<JsonVal> = Vec::new();
                one.push(v);
                assert(jmodels_of(one@) =~= seq![jmodel_of(v)]);
                Some((one, k + 1))
            } else {
                None
            }
        },
    }
}

fn parse_members(s: &Vec<char>, i: usize) -> (r: Option<(Vec<(String, JsonVal)>, usize)>)
    requires
        i <= s@.len(),
    ensures
        members_opt_model(r) == spec_parse_members(s@, i as int),
        (r matches Some((_, j)) ==> i < j <= s@.len()),
    decreases s@.len() - i, 1int,
{
    if i >= s.len() {
        return None;
    }
    if s[i] != '"' {
        return None;
    }
    match parse_string(s, i + 1) {
        None => None,
        Some((key, j)) => {
            let k = skip_ws(s, j);
            if k < s.len() && s[k] == ':' {
                let m = skip_ws(s, k + 1);
                if m <= i || m > s.len() {
                    None
                } else {
                    match parse_val(s, m) {
                        None => None,
                        Some((v, p)) => {
                            let q = skip_ws(s, p);
                            if q < s.len() && s[q] == ',' {
                                let w = skip_ws(s, q + 1);
                                if w <= i || w > s.len() {
                                    None
                                } else {
                                    match parse_members(s, w) {
                                        Some((rest, e)) => {
                                            let ghost prev = rest@;
                                            let mut rest = rest;
                                            rest.insert(0, (key, v));
                                            assert(jfield_models_of(rest@) =~= seq![
                                                (key@, jmodel_of(v)),
                                            ] + jfield_models_of(prev));
                                            Some((rest, e))
                                        },
                                        None => None,
                                    }
                                }
                            } else if q < s.len() && s[q] == '}' {
                                let mut one: Vec<(String, JsonVal)> = Vec::new();
                                one.push((key, v));
                                assert(jfield_models_of(one@) =~= seq![(one@[0].0@, jmodel_of(
                                    one@[0].1,
                                ))]);
                                Some((one, q + 1))
                            } else {
                                None
                            }
                        },
                    }
                }
            } else {
                None
            }
        },
    }
}

/// Reads one whole JSON document from `s`, or nothing if `s` is not a
/// document this grammar covers.
pub fn parse_json(s: &str) -> (r: Option<JsonVal>)
    ensures
        jopt_model(r) == spec_parse_json(s@),
{
    let cs = str_chars(s);
    let i = skip_ws(&cs, 0);
    match parse_val(&cs, i) {
        Some((v, j)) => {
            let e = skip_ws(&cs, j);
            if e == cs.len() {
                Some(v)
            } else {
                None
            }
        },
        None => None,
    }
}

} // verus!
