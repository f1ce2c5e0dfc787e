//! A parser for the small JSON shape the provider and the relay exchange:
//! one object whose member values are unsigned integers, strings, booleans,
//! null, or arrays of strings. Strings know the standard escapes, including
//! `\uXXXX` with surrogate pairs. A member value of any other shape (a
//! nested container, a float, a negative number) is skipped as an opaque
//! value: strings atomically, bracket depth balanced, without validating
//! its inner shape; whether such a member is acceptable is the caller's
//! decision. The spec functions define the accepted grammar by recursive
//! descent over the bytes, and each executable function returns exactly
//! what its spec function denotes.

use vstd::prelude::*;
use vstd::utf8::{decode_utf8, valid_utf8};

use crate::support::bytes_to_string;

verus! {

/// A parsed member value.
pub enum Json {
    Null,
    Bool(bool),
    UInt(u64),
    Str(String),
    StrArr(Vec<String>),
    /// A balanced value outside the shapes above, skipped without being read.
    Other,
}

/// The mathematical counterpart of a parsed member value.
pub enum SpecJson {
    Null,
    Bool(bool),
    UInt(u64),
    Str(Seq<char>),
    StrArr(Seq<Seq<char>>),
    Other,
}

impl View for Json {
    type V = SpecJson;

    open spec fn view(&self) -> SpecJson {
        match self {
            Json::Null => SpecJson::Null,
            Json::Bool(b) => SpecJson::Bool(*b),
            Json::UInt(n) => SpecJson::UInt(*n),
            Json::Str(s) => SpecJson::Str(s@),
            Json::StrArr(v) => SpecJson::StrArr(v.deep_view()),
            Json::Other => SpecJson::Other,
        }
    }
}

/// One key/value member of the parsed object.
pub struct Member {
    pub key: String,
    pub value: Json,
}

impl View for Member {
    type V = (Seq<char>, SpecJson);

    open spec fn view(&self) -> (Seq<char>, SpecJson) {
        (self.key@, self.value@)
    }
}

/// The (key, value) views of a sequence of members.
pub open spec fn members_view(ms: Seq<Member>) -> Seq<(Seq<char>, SpecJson)> {
    ms.map_values(|m: Member| m@)
}

/// JSON insignificant whitespace.
pub open spec fn is_ws(b: u8) -> bool {
    b == 0x20 || b == 0x09 || b == 0x0a || b == 0x0d
}

/// An ASCII decimal digit.
pub open spec fn is_digit(b: u8) -> bool {
    0x30 <= b <= 0x39
}

/// The first position at or after `i` holding no whitespace.
pub open spec fn spec_skip_ws(s: Seq<u8>, i: int) -> int
    decreases s.len() - i,
{
    if 0 <= i < s.len() && is_ws(s[i]) {
        spec_skip_ws(s, i + 1)
    } else {
        i
    }
}

pub proof fn lemma_skip_ws_bounds(s: Seq<u8>, i: int)
    requires
        0 <= i <= s.len(),
    ensures
        i <= spec_skip_ws(s, i) <= s.len(),
    decreases s.len() - i,
{
    if i < s.len() && is_ws(s[i]) {
        lemma_skip_ws_bounds(s, i + 1);
    }
}

/// The byte a single-character escape stands for, if the escape exists.
pub open spec fn spec_unescape(b: u8) -> Option<u8> {
    if b == 0x22 {
        Some(0x22u8)
    } else if b == 0x5c {
        Some(0x5cu8)
    } else if b == 0x2f {
        Some(0x2fu8)
    } else if b == 0x62 {
        Some(0x08u8)
    } else if b == 0x66 {
        Some(0x0cu8)
    } else if b == 0x6e {
        Some(0x0au8)
    } else if b == 0x72 {
        Some(0x0du8)
    } else if b == 0x74 {
        Some(0x09u8)
    } else {
        None
    }
}

/// The value of one hexadecimal digit.
pub open spec fn hex_val(b: u8) -> Option<u32> {
    if 0x30 <= b <= 0x39 {
        Some((b - 0x30) as u32)
    } else if 0x41 <= b <= 0x46 {
        Some((b - 0x41 + 10) as u32)
    } else if 0x61 <= b <= 0x66 {
        Some((b - 0x61 + 10) as u32)
    } else {
        None
    }
}

/// The code unit written as four hexadecimal digits at `i`.
pub open spec fn spec_hex4(s: Seq<u8>, i: int) -> Option<u32> {
    if 0 <= i && i + 4 <= s.len() {
        match (hex_val(s[i]), hex_val(s[i + 1]), hex_val(s[i + 2]), hex_val(s[i + 3])) {
            (Some(a), Some(b), Some(c), Some(d)) => Some(
                (a * 4096 + b * 256 + c * 16 + d) as u32,
            ),
            _ => None,
        }
    } else {
        None
    }
}

/// The UTF-8 encoding of a Unicode scalar value.
pub open spec fn utf8_bytes(cp: int) -> Seq<u8>
    recommends
        0 <= cp <= 0x10FFFF,
{
    if cp < 0x80 {
        seq![cp as u8]
    } else if cp < 0x800 {
        seq![(0xC0 + cp / 64) as u8, (0x80 + cp % 64) as u8]
    } else if cp < 0x10000 {
        seq![(0xE0 + cp / 4096) as u8, (0x80 + (cp / 64) % 64) as u8, (0x80 + cp % 64) as u8]
    } else {
        seq![
            (0xF0 + cp / 262144) as u8,
            (0x80 + (cp / 4096) % 64) as u8,
            (0x80 + (cp / 64) % 64) as u8,
            (0x80 + cp % 64) as u8,
        ]
    }
}

/// The bytes of a string literal after its opening quote: everything up to
/// the closing quote, escapes replaced, raw control bytes refused.
pub open spec fn spec_string_body(s: Seq<u8>, i: int) -> Option<(Seq<u8>, int)>
    decreases s.len() - i,
{
    if i < 0 || i >= s.len() {
        None
    } else if s[i] == 0x22 {
        Some((Seq::<u8>::empty(), i + 1))
    } else if s[i] == 0x5c {
        if i + 1 >= s.len() {
            None
        } else if s[i + 1] == 0x75 {
            match spec_hex4(s, i + 2) {
                None => None,
                Some(c1) => if 0xD800 <= c1 <= 0xDBFF {
                    // a leading surrogate: its trailing partner must follow
                    if i + 12 <= s.len() && s[i + 6] == 0x5c && s[i + 7] == 0x75 {
                        match spec_hex4(s, i + 8) {
                            None => None,
                            Some(c2) => if 0xDC00 <= c2 <= 0xDFFF {
                                match spec_string_body(s, i + 12) {
                                    None => None,
                                    Some(p) => Some(
                                        (
                                            utf8_bytes(
                                                0x10000 + (c1 - 0xD800) * 0x400 + (c2 - 0xDC00),
                                            ) + p.0,
                                            p.1,
                                        ),
                                    ),
                                }
                            } else {
                                None
                            },
                        }
                    } else {
                        None
                    }
                } else if 0xDC00 <= c1 <= 0xDFFF {
                    None
                } else {
                    match spec_string_body(s, i + 6) {
                        None => None,
                        Some(p) => Some((utf8_bytes(c1 as int) + p.0, p.1)),
                    }
                },
            }
        } else {
            match spec_unescape(s[i + 1]) {
                None => None,
                Some(b) => match spec_string_body(s, i + 2) {
                    None => None,
                    Some(p) => Some((seq![b] + p.0, p.1)),
                },
            }
        }
    } else if s[i] < 0x20 {
        None
    } else {
        match spec_string_body(s, i + 1) {
            None => None,
            Some(p) => Some((seq![s[i]] + p.0, p.1)),
        }
    }
}

pub proof fn lemma_string_body_advances(s: Seq<u8>, i: int)
    ensures
        spec_string_body(s, i) matches Some(p) ==> i < p.1 <= s.len(),
    decreases s.len() - i,
{
    if 0 <= i < s.len() {
        if s[i] == 0x22 {
        } else if s[i] == 0x5c {
            if i + 1 < s.len() && s[i + 1] == 0x75 {
                if i + 6 <= s.len() {
                    lemma_string_body_advances(s, i + 6);
                }
                if i + 12 <= s.len() {
                    lemma_string_body_advances(s, i + 12);
                }
            } else if i + 1 < s.len() && spec_unescape(s[i + 1]) is Some {
                lemma_string_body_advances(s, i + 2);
            }
        } else if s[i] >= 0x20 {
            lemma_string_body_advances(s, i + 1);
        }
    }
}

/// A string literal starting at `i`: its decoded characters and the position
/// after the closing quote. The unescaped bytes must be valid UTF-8.
pub open spec fn spec_parse_string(s: Seq<u8>, i: int) -> Option<(Seq<char>, int)> {
    if 0 <= i < s.len() && s[i] == 0x22 {
        match spec_string_body(s, i + 1) {
            None => None,
            Some(p) => if valid_utf8(p.0) {
                Some((decode_utf8(p.0), p.1))
            } else {
                None
            },
        }
    } else {
        None
    }
}

pub proof fn lemma_parse_string_advances(s: Seq<u8>, i: int)
    ensures
        spec_parse_string(s, i) matches Some(p) ==> 0 <= i < p.1 <= s.len(),
{
    if 0 <= i < s.len() && s[i] == 0x22 {
        lemma_string_body_advances(s, i + 1);
    }
}

/// Decimal digits folded into an unsigned integer; a value that leaves the
/// integer's range is refused.
pub open spec fn spec_uint_body(s: Seq<u8>, i: int, acc: u64) -> Option<(u64, int)>
    decreases s.len() - i,
{
    if 0 <= i < s.len() && is_digit(s[i]) {
        let v = acc * 10 + (s[i] - 0x30);
        if v > u64::MAX {
            None
        } else {
            spec_uint_body(s, i + 1, v as u64)
        }
    } else {
        Some((acc, i))
    }
}

pub proof fn lemma_uint_body_bounds(s: Seq<u8>, i: int, acc: u64)
    requires
        0 <= i <= s.len(),
    ensures
        spec_uint_body(s, i, acc) matches Some(p) ==> i <= p.1 <= s.len(),
    decreases s.len() - i,
{
    if i < s.len() && is_digit(s[i]) {
        let v = acc * 10 + (s[i] - 0x30);
        if v <= u64::MAX {
            lemma_uint_body_bounds(s, i + 1, v as u64);
        }
    }
}

/// An unsigned decimal number: one or more digits.
pub open spec fn spec_parse_uint(s: Seq<u8>, i: int) -> Option<(u64, int)> {
    if 0 <= i < s.len() && is_digit(s[i]) {
        spec_uint_body(s, i, 0)
    } else {
        None
    }
}

pub proof fn lemma_parse_uint_advances(s: Seq<u8>, i: int)
    ensures
        spec_parse_uint(s, i) matches Some(p) ==> 0 <= i < p.1 <= s.len(),
{
    if 0 <= i < s.len() && is_digit(s[i]) {
        lemma_uint_body_bounds(s, i + 1, (s[i] - 0x30) as u64);
    }
}

/// A byte that may stand inside an unquoted primitive token: digits,
/// letters, sign and dot.
pub open spec fn is_token_byte(b: u8) -> bool {
    is_digit(b) || 0x41 <= b <= 0x5a || 0x61 <= b <= 0x7a || b == 0x2b || b == 0x2d || b == 0x2e
}

/// The first position at or after `i` past an unquoted primitive token.
pub open spec fn spec_token_end(s: Seq<u8>, i: int) -> int
    decreases s.len() - i,
{
    if 0 <= i < s.len() && is_token_byte(s[i]) {
        spec_token_end(s, i + 1)
    } else {
        i
    }
}

pub proof fn lemma_token_end_bounds(s: Seq<u8>, i: int)
    requires
        0 <= i <= s.len(),
    ensures
        i <= spec_token_end(s, i) <= s.len(),
    decreases s.len() - i,
{
    if i < s.len() && is_token_byte(s[i]) {
        lemma_token_end_bounds(s, i + 1);
    }
}

/// Scans past one opaque value without reading it: strings are skipped
/// atomically (escapes checked), the bracket depth stays balanced (an
/// opener of either kind is matched by a closer of either kind), and
/// primitive tokens run to their end. The scan checks nothing of the inner
/// shape beyond this balance.
pub open spec fn spec_skip_scan(s: Seq<u8>, i: int, depth: int) -> Option<int>
    decreases s.len() - i,
    via spec_skip_scan_dec
{
    if i < 0 || i >= s.len() {
        None
    } else if is_ws(s[i]) {
        spec_skip_scan(s, i + 1, depth)
    } else if s[i] == 0x22 {
        match spec_string_body(s, i + 1) {
            None => None,
            Some(p) => if depth == 0 {
                Some(p.1)
            } else {
                spec_skip_scan(s, p.1, depth)
            },
        }
    } else if s[i] == 0x5b || s[i] == 0x7b {
        spec_skip_scan(s, i + 1, depth + 1)
    } else if s[i] == 0x5d || s[i] == 0x7d {
        if depth == 1 {
            Some(i + 1)
        } else if depth > 1 {
            spec_skip_scan(s, i + 1, depth - 1)
        } else {
            None
        }
    } else if s[i] == 0x2c || s[i] == 0x3a {
        if depth >= 1 {
            spec_skip_scan(s, i + 1, depth)
        } else {
            None
        }
    } else if is_token_byte(s[i]) {
        let e = spec_token_end(s, i);
        if depth == 0 {
            Some(e)
        } else {
            spec_skip_scan(s, e, depth)
        }
    } else {
        None
    }
}

#[via_fn]
proof fn spec_skip_scan_dec(s: Seq<u8>, i: int, depth: int) {
    if 0 <= i < s.len() {
        if s[i] == 0x22 {
            lemma_string_body_advances(s, i + 1);
        }
        if is_token_byte(s[i]) {
            lemma_token_end_bounds(s, i + 1);
        }
    }
}

pub proof fn lemma_skip_scan_advances(s: Seq<u8>, i: int, depth: int)
    ensures
        spec_skip_scan(s, i, depth) matches Some(e) ==> 0 <= i < e <= s.len(),
    decreases s.len() - i,
{
    if 0 <= i < s.len() {
        if is_ws(s[i]) {
            lemma_skip_scan_advances(s, i + 1, depth);
        } else if s[i] == 0x22 {
            lemma_string_body_advances(s, i + 1);
            if let Some(p) = spec_string_body(s, i + 1) {
                lemma_skip_scan_advances(s, p.1, depth);
            }
        } else if s[i] == 0x5b || s[i] == 0x7b {
            lemma_skip_scan_advances(s, i + 1, depth + 1);
        } else if s[i] == 0x5d || s[i] == 0x7d {
            lemma_skip_scan_advances(s, i + 1, depth - 1);
        } else if s[i] == 0x2c || s[i] == 0x3a {
            lemma_skip_scan_advances(s, i + 1, depth);
        } else if is_token_byte(s[i]) {
            lemma_token_end_bounds(s, i + 1);
            lemma_skip_scan_advances(s, spec_token_end(s, i), depth);
        }
    }
}

/// An opaque member value: where the scan ends, the value is `Other`.
pub open spec fn spec_scan_other(s: Seq<u8>, i: int) -> Option<(SpecJson, int)> {
    match spec_skip_scan(s, i, 0) {
        None => None,
        Some(e) => Some((SpecJson::Other, e)),
    }
}

/// The elements of a non-empty string array, starting at the first element.
pub open spec fn spec_arr_items(s: Seq<u8>, i: int) -> Option<(Seq<Seq<char>>, int)>
    decreases s.len() - i,
    via spec_arr_items_dec
{
    match spec_parse_string(s, i) {
        None => None,
        Some(p) => {
            let k = spec_skip_ws(s, p.1);
            if k < s.len() && s[k] == 0x2c {
                let m = spec_skip_ws(s, k + 1);
                match spec_arr_items(s, m) {
                    None => None,
                    Some(q) => Some((seq![p.0] + q.0, q.1)),
                }
            } else if k < s.len() && s[k] == 0x5d {
                Some((seq![p.0], k + 1))
            } else {
                None
            }
        },
    }
}

#[via_fn]
proof fn spec_arr_items_dec(s: Seq<u8>, i: int) {
    lemma_parse_string_advances(s, i);
    if let Some(p) = spec_parse_string(s, i) {
        lemma_skip_ws_bounds(s, p.1);
        let k = spec_skip_ws(s, p.1);
        if k < s.len() && s[k] == 0x2c {
            lemma_skip_ws_bounds(s, k + 1);
        }
    }
}

pub proof fn lemma_arr_items_advances(s: Seq<u8>, i: int)
    ensures
        spec_arr_items(s, i) matches Some(p) ==> 0 <= i < p.1 <= s.len(),
    decreases s.len() - i,
{
    lemma_parse_string_advances(s, i);
    if let Some(p) = spec_parse_string(s, i) {
        lemma_skip_ws_bounds(s, p.1);
        let k = spec_skip_ws(s, p.1);
        if k < s.len() && s[k] == 0x2c {
            lemma_skip_ws_bounds(s, k + 1);
            let m = spec_skip_ws(s, k + 1);
            lemma_arr_items_advances(s, m);
        }
    }
}

/// An array whose elements are all strings.
pub open spec fn spec_parse_str_array(s: Seq<u8>, i: int) -> Option<(Seq<Seq<char>>, int)> {
    if 0 <= i < s.len() && s[i] == 0x5b {
        let j = spec_skip_ws(s, i + 1);
        if j < s.len() && s[j] == 0x5d {
            Some((Seq::<Seq<char>>::empty(), j + 1))
        } else {
            spec_arr_items(s, j)
        }
    } else {
        None
    }
}

/// One member value. The shapes the callers read get their exact parse: a
/// string, an unsigned integer, a boolean, null, or an array of strings.
/// Any other balanced value (a float, a negative number, a nested
/// container) is skipped and stands as `Other`.
pub open spec fn spec_parse_value(s: Seq<u8>, i: int) -> Option<(SpecJson, int)> {
    if i < 0 || i >= s.len() {
        None
    } else if s[i] == 0x22 {
        match spec_parse_string(s, i) {
            None => None,
            Some(p) => Some((SpecJson::Str(p.0), p.1)),
        }
    } else if is_digit(s[i]) {
        match spec_parse_uint(s, i) {
            None => spec_scan_other(s, i),
            Some(p) => if p.1 < s.len() && (s[p.1] == 0x2e || s[p.1] == 0x65 || s[p.1] == 0x45) {
                spec_scan_other(s, i)
            } else {
                Some((SpecJson::UInt(p.0), p.1))
            },
        }
    } else if s[i] == 0x2d {
        spec_scan_other(s, i)
    } else if s[i] == 0x74 {
        if i + 4 <= s.len() && s[i + 1] == 0x72 && s[i + 2] == 0x75 && s[i + 3] == 0x65 {
            Some((SpecJson::Bool(true), i + 4))
        } else {
            spec_scan_other(s, i)
        }
    } else if s[i] == 0x66 {
        if i + 5 <= s.len() && s[i + 1] == 0x61 && s[i + 2] == 0x6c && s[i + 3] == 0x73 && s[i + 4]
            == 0x65 {
            Some((SpecJson::Bool(false), i + 5))
        } else {
            spec_scan_other(s, i)
        }
    } else if s[i] == 0x6e {
        if i + 4 <= s.len() && s[i + 1] == 0x75 && s[i + 2] == 0x6c && s[i + 3] == 0x6c {
            Some((SpecJson::Null, i + 4))
        } else {
            spec_scan_other(s, i)
        }
    } else if s[i] == 0x5b {
        match spec_parse_str_array(s, i) {
            None => spec_scan_other(s, i),
            Some(p) => Some((SpecJson::StrArr(p.0), p.1)),
        }
    } else if s[i] == 0x7b {
        spec_scan_other(s, i)
    } else {
        None
    }
}

pub proof fn lemma_parse_value_advances(s: Seq<u8>, i: int)
    ensures
        spec_parse_value(s, i) matches Some(p) ==> 0 <= i < p.1 <= s.len(),
{
    if 0 <= i < s.len() {
        lemma_parse_string_advances(s, i);
        lemma_parse_uint_advances(s, i);
        lemma_skip_scan_advances(s, i, 0);
        if s[i] == 0x5b {
            lemma_skip_ws_bounds(s, i + 1);
            lemma_arr_items_advances(s, spec_skip_ws(s, i + 1));
        }
    }
}

/// One `"key": value` member.
pub open spec fn spec_parse_member(s: Seq<u8>, i: int) -> Option<((Seq<char>, SpecJson), int)> {
    match spec_parse_string(s, i) {
        None => None,
        Some(p) => {
            let c = spec_skip_ws(s, p.1);
            if c < s.len() && s[c] == 0x3a {
                let v = spec_skip_ws(s, c + 1);
                match spec_parse_value(s, v) {
                    None => None,
                    Some(q) => Some(((p.0, q.0), q.1)),
                }
            } else {
                None
            }
        },
    }
}

pub proof fn lemma_parse_member_advances(s: Seq<u8>, i: int)
    ensures
        spec_parse_member(s, i) matches Some(p) ==> 0 <= i < p.1 <= s.len(),
{
    lemma_parse_string_advances(s, i);
    if let Some(p) = spec_parse_string(s, i) {
        lemma_skip_ws_bounds(s, p.1);
        let c = spec_skip_ws(s, p.1);
        if c < s.len() && s[c] == 0x3a {
            lemma_skip_ws_bounds(s, c + 1);
            lemma_parse_value_advances(s, spec_skip_ws(s, c + 1));
        }
    }
}

/// The members of a non-empty object, starting at the first key, up to and
/// including the closing brace.
pub open spec fn spec_members(s: Seq<u8>, i: int) -> Option<(Seq<(Seq<char>, SpecJson)>, int)>
    decreases s.len() - i,
    via spec_members_dec
{
    match spec_parse_member(s, i) {
        None => None,
        Some(p) => {
            let k = spec_skip_ws(s, p.1);
            if k < s.len() && s[k] == 0x2c {
                let m = spec_skip_ws(s, k + 1);
                match spec_members(s, m) {
                    None => None,
                    Some(q) => Some((seq![p.0] + q.0, q.1)),
                }
            } else if k < s.len() && s[k] == 0x7d {
                Some((seq![p.0], k + 1))
            } else {
                None
            }
        },
    }
}

#[via_fn]
proof fn spec_members_dec(s: Seq<u8>, i: int) {
    lemma_parse_member_advances(s, i);
    if let Some(p) = spec_parse_member(s, i) {
        lemma_skip_ws_bounds(s, p.1);
        let k = spec_skip_ws(s, p.1);
        if k < s.len() && s[k] == 0x2c {
            lemma_skip_ws_bounds(s, k + 1);
        }
    }
}
/// A whole object, from its opening brace past its closing brace.
pub open spec fn spec_parse_object(s: Seq<u8>, i: int) -> Option<(Seq<(Seq<char>, SpecJson)>, int)> {
    if 0 <= i < s.len() && s[i] == 0x7b {
        let j = spec_skip_ws(s, i + 1);
        if j < s.len() && s[j] == 0x7d {
            Some((Seq::<(Seq<char>, SpecJson)>::empty(), j + 1))
        } else {
            spec_members(s, j)
        }
    } else {
        None
    }
}

/// A whole document: one object with nothing but whitespace around it.
pub open spec fn spec_parse_document(s: Seq<u8>) -> Option<Seq<(Seq<char>, SpecJson)>> {
    match spec_parse_object(s, spec_skip_ws(s, 0)) {
        None => None,
        Some(p) => if spec_skip_ws(s, p.1) == s.len() {
            Some(p.0)
        } else {
            None
        },
    }
}

fn ws_byte(b: u8) -> (r: bool)
    ensures
        r == is_ws(b),
{
    b == 0x20 || b == 0x09 || b == 0x0a || b == 0x0d
}

fn skip_ws(s: &Vec<u8>, i: usize) -> (r: usize)
    requires
        i <= s@.len(),
    ensures
        r == spec_skip_ws(s@, i as int),
        i <= r <= s@.len(),
    decreases s@.len() - i,
{
    if i < s.len() && ws_byte(s[i]) {
        skip_ws(s, i + 1)
    } else {
        i
    }
}

fn unescape(b: u8) -> (r: Option<u8>)
    ensures
        r == spec_unescape(b),
{
    if b == 0x22 {
        Some(0x22)
    } else if b == 0x5c {
        Some(0x5c)
    } else if b == 0x2f {
        Some(0x2f)
    } else if b == 0x62 {
        Some(0x08)
    } else if b == 0x66 {
        Some(0x0c)
    } else if b == 0x6e {
        Some(0x0a)
    } else if b == 0x72 {
        Some(0x0d)
    } else if b == 0x74 {
        Some(0x09)
    } else {
        None
    }
}

fn hex_digit(b: u8) -> (r: Option<u32>)
    ensures
        r == hex_val(b),
{
    if b >= 0x30 && b <= 0x39 {
        Some((b - 0x30) as u32)
    } else if b >= 0x41 && b <= 0x46 {
        Some((b - 0x41 + 10) as u32)
    } else if b >= 0x61 && b <= 0x66 {
        Some((b - 0x61 + 10) as u32)
    } else {
        None
    }
}

fn hex4(s: &Vec<u8>, start: usize) -> (r: Option<u32>)
    ensures
        r == spec_hex4(s@, start as int),
{
    if start <= s.len() && s.len() - start >= 4 {
        match (
            hex_digit(s[start]),
            hex_digit(s[start + 1]),
            hex_digit(s[start + 2]),
            hex_digit(s[start + 3]),
        ) {
            (Some(a), Some(b), Some(c), Some(d)) => Some(a * 4096 + b * 256 + c * 16 + d),
            _ => None,
        }
    } else {
        None
    }
}

fn encode_scalar(cp: u32) -> (r: Vec<u8>)
    requires
        cp <= 0x10FFFF,
    ensures
        r@ == utf8_bytes(cp as int),
{
    let mut r: Vec<u8> = Vec::new();
    if cp < 0x80 {
        r.push(cp as u8);
    } else if cp < 0x800 {
        r.push((0xC0 + cp / 64) as u8);
        r.push((0x80 + cp % 64) as u8);
    } else if cp < 0x10000 {
        r.push((0xE0 + cp / 4096) as u8);
        r.push((0x80 + (cp / 64) % 64) as u8);
        r.push((0x80 + cp % 64) as u8);
    } else {
        r.push((0xF0 + cp / 262144) as u8);
        r.push((0x80 + (cp / 4096) % 64) as u8);
        r.push((0x80 + (cp / 64) % 64) as u8);
        r.push((0x80 + cp % 64) as u8);
    }
    proof {
        assert(r@ =~= utf8_bytes(cp as int));
    }
    r
}

fn string_body(s: &Vec<u8>, i: usize) -> (r: Option<(Vec<u8>, usize)>)
    requires
        i <= s@.len(),
    ensures
        match r {
            Some(p) => spec_string_body(s@, i as int) == Some((p.0@, p.1 as int)) && i < p.1
                <= s@.len(),
            None => spec_string_body(s@, i as int) is None,
        },
    decreases s@.len() - i,
{
    if i >= s.len() {
        return None;
    }
    let b = s[i];
    if b == 0x22 {
        Some((Vec::new(), i + 1))
    } else if b == 0x5c {
        if i + 1 >= s.len() {
            None
        } else if s[i + 1] == 0x75 {
            match hex4(s, i + 2) {
                None => None,
                Some(c1) => {
                    if 0xD800 <= c1 && c1 <= 0xDBFF {
                        if s.len() - i >= 12 && s[i + 6] == 0x5c && s[i + 7] == 0x75 {
                            match hex4(s, i + 8) {
                                None => None,
                                Some(c2) => {
                                    if 0xDC00 <= c2 && c2 <= 0xDFFF {
                                        let cp: u32 = 0x10000 + (c1 - 0xD800) * 0x400 + (c2
                                            - 0xDC00);
                                        match string_body(s, i + 12) {
                                            None => None,
                                            Some((mut rest, j)) => {
                                                let mut enc = encode_scalar(cp);
                                                enc.append(&mut rest);
                                                Some((enc, j))
                                            },
                                        }
                                    } else {
                                        None
                                    }
                                },
                            }
                        } else {
                            None
                        }
                    } else if 0xDC00 <= c1 && c1 <= 0xDFFF {
                        None
                    } else {
                        match string_body(s, i + 6) {
                            None => None,
                            Some((mut rest, j)) => {
                                let mut enc = encode_scalar(c1);
                                enc.append(&mut rest);
                                Some((enc, j))
                            },
                        }
                    }
                },
            }
        } else {
            match unescape(s[i + 1]) {
                None => None,
                Some(u) => match string_body(s, i + 2) {
                    None => None,
                    Some((mut t, j)) => {
                        let ghost t0 = t@;
                        t.insert(0, u);
                        proof {
                            assert(t@ =~= seq![u] + t0);
                        }
                        Some((t, j))
                    },
                },
            }
        }
    } else if b < 0x20 {
        None
    } else {
        match string_body(s, i + 1) {
            None => None,
            Some((mut t, j)) => {
                let ghost t0 = t@;
                t.insert(0, b);
                proof {
                    assert(t@ =~= seq![b] + t0);
                }
                Some((t, j))
            },
        }
    }
}

fn parse_string(s: &Vec<u8>, i: usize) -> (r: Option<(String, usize)>)
    requires
        i <= s@.len(),
    ensures
        match r {
            Some(p) => spec_parse_string(s@, i as int) == Some((p.0@, p.1 as int)) && i < p.1
                <= s@.len(),
            None => spec_parse_string(s@, i as int) is None,
        },
{
    if i < s.len() && s[i] == 0x22 {
        match string_body(s, i + 1) {
            None => None,
            Some((bytes, j)) => match bytes_to_string(bytes) {
                None => None,
                Some(st) => Some((st, j)),
            },
        }
    } else {
        None
    }
}

fn uint_body(s: &Vec<u8>, i: usize, acc: u64) -> (r: Option<(u64, usize)>)
    requires
        i <= s@.len(),
    ensures
        match r {
            Some(p) => spec_uint_body(s@, i as int, acc) == Some((p.0, p.1 as int)) && i <= p.1
                <= s@.len(),
            None => spec_uint_body(s@, i as int, acc) is None,
        },
    decreases s@.len() - i,
{
    if i < s.len() && s[i] >= 0x30 && s[i] <= 0x39 {
        let d = (s[i] - 0x30) as u64;
        if acc <= (u64::MAX - d) / 10 {
            proof {
                assert(acc * 10 <= ((u64::MAX - d) / 10) * 10 <= u64::MAX - d);
            }
            uint_body(s, i + 1, acc * 10 + d)
        } else {
            proof {
                assert(acc * 10 + d > u64::MAX);
            }
            None
        }
    } else {
        Some((acc, i))
    }
}

fn parse_uint(s: &Vec<u8>, i: usize) -> (r: Option<(u64, usize)>)
    requires
        i <= s@.len(),
    ensures
        match r {
            Some(p) => spec_parse_uint(s@, i as int) == Some((p.0, p.1 as int)) && i < p.1
                <= s@.len(),
            None => spec_parse_uint(s@, i as int) is None,
        },
{
    proof {
        lemma_parse_uint_advances(s@, i as int);
    }
    if i < s.len() && s[i] >= 0x30 && s[i] <= 0x39 {
        uint_body(s, i, 0)
    } else {
        None
    }
}

fn token_byte(b: u8) -> (r: bool)
    ensures
        r == is_token_byte(b),
{
    (b >= 0x30 && b <= 0x39) || (b >= 0x41 && b <= 0x5a) || (b >= 0x61 && b <= 0x7a) || b == 0x2b
        || b == 0x2d || b == 0x2e
}

fn token_end(s: &Vec<u8>, i: usize) -> (r: usize)
    requires
        i <= s@.len(),
    ensures
        r == spec_token_end(s@, i as int),
        i <= r <= s@.len(),
    decreases s@.len() - i,
{
    if i < s.len() && token_byte(s[i]) {
        token_end(s, i + 1)
    } else {
        i
    }
}

fn skip_scan(s: &Vec<u8>, i: usize, depth: usize) -> (r: Option<usize>)
    requires
        depth <= i <= s@.len(),
    ensures
        match r {
            Some(e) => spec_skip_scan(s@, i as int, depth as int) == Some(e as int) && i < e
                <= s@.len(),
            None => spec_skip_scan(s@, i as int, depth as int) is None,
        },
    decreases s@.len() - i,
{
    if i >= s.len() {
        return None;
    }
    let b = s[i];
    if ws_byte(b) {
        skip_scan(s, i + 1, depth)
    } else if b == 0x22 {
        match string_body(s, i + 1) {
            None => None,
            Some((_, j)) => {
                if depth == 0 {
                    Some(j)
                } else {
                    skip_scan(s, j, depth)
                }
            },
        }
    } else if b == 0x5b || b == 0x7b {
        skip_scan(s, i + 1, depth + 1)
    } else if b == 0x5d || b == 0x7d {
        if depth == 1 {
            Some(i + 1)
        } else if depth > 1 {
            skip_scan(s, i + 1, depth - 1)
        } else {
            None
        }
    } else if b == 0x2c || b == 0x3a {
        if depth >= 1 {
            skip_scan(s, i + 1, depth)
        } else {
            None
        }
    } else if token_byte(b) {
        let e = token_end(s, i);
        proof {
            lemma_token_end_bounds(s@, i as int + 1);
        }
        if depth == 0 {
            Some(e)
        } else {
            skip_scan(s, e, depth)
        }
    } else {
        None
    }
}

fn scan_other(s: &Vec<u8>, i: usize) -> (r: Option<(Json, usize)>)
    requires
        i <= s@.len(),
    ensures
        match r {
            Some(p) => spec_scan_other(s@, i as int) == Some((p.0@, p.1 as int)) && i < p.1
                <= s@.len(),
            None => spec_scan_other(s@, i as int) is None,
        },
{
    match skip_scan(s, i, 0) {
        None => None,
        Some(e) => Some((Json::Other, e)),
    }
}

fn arr_items(s: &Vec<u8>, i: usize) -> (r: Option<(Vec<String>, usize)>)
    requires
        i <= s@.len(),
    ensures
        match r {
            Some(p) => spec_arr_items(s@, i as int) == Some((p.0.deep_view(), p.1 as int)) && i
                < p.1 <= s@.len(),
            None => spec_arr_items(s@, i as int) is None,
        },
    decreases s@.len() - i,
{
    match parse_string(s, i) {
        None => None,
        Some((st, j)) => {
            let k = skip_ws(s, j);
            if k < s.len() && s[k] == 0x2c {
                let m = skip_ws(s, k + 1);
                match arr_items(s, m) {
                    None => None,
                    Some((mut rest, e)) => {
                        let ghost r0 = rest.deep_view();
                        rest.insert(0, st);
                        proof {
                            assert(rest.deep_view() =~= seq![st@] + r0);
                        }
                        Some((rest, e))
                    },
                }
            } else if k < s.len() && s[k] == 0x5d {
                let items: Vec<String> = vec![st];
                proof {
                    assert(items.deep_view() =~= seq![st@]);
                }
                Some((items, k + 1))
            } else {
                None
            }
        },
    }
}

fn parse_str_array(s: &Vec<u8>, i: usize) -> (r: Option<(Vec<String>, usize)>)
    requires
        i <= s@.len(),
    ensures
        match r {
            Some(p) => spec_parse_str_array(s@, i as int) == Some((p.0.deep_view(), p.1 as int))
                && i < p.1 <= s@.len(),
            None => spec_parse_str_array(s@, i as int) is None,
        },
{
    if i < s.len() && s[i] == 0x5b {
        let j = skip_ws(s, i + 1);
        if j < s.len() && s[j] == 0x5d {
            let items: Vec<String> = Vec::new();
            proof {
                assert(items.deep_view() =~= Seq::<Seq<char>>::empty());
            }
            Some((items, j + 1))
        } else {
            arr_items(s, j)
        }
    } else {
        None
    }
}

fn parse_value(s: &Vec<u8>, i: usize) -> (r: Option<(Json, usize)>)
    requires
        i <= s@.len(),
    ensures
        match r {
            Some(p) => spec_parse_value(s@, i as int) == Some((p.0@, p.1 as int)) && i < p.1
                <= s@.len(),
            None => spec_parse_value(s@, i as int) is None,
        },
{
    if i >= s.len() {
        return None;
    }
    let b = s[i];
    if b == 0x22 {
        match parse_string(s, i) {
            None => None,
            Some((st, j)) => Some((Json::Str(st), j)),
        }
    } else if b >= 0x30 && b <= 0x39 {
        match parse_uint(s, i) {
            None => scan_other(s, i),
            Some((n, j)) => {
                if j < s.len() && (s[j] == 0x2e || s[j] == 0x65 || s[j] == 0x45) {
                    scan_other(s, i)
                } else {
                    Some((Json::UInt(n), j))
                }
            },
        }
    } else if b == 0x2d {
        scan_other(s, i)
    } else if b == 0x74 {
        if s.len() - i >= 4 && s[i + 1] == 0x72 && s[i + 2] == 0x75 && s[i + 3] == 0x65 {
            Some((Json::Bool(true), i + 4))
        } else {
            scan_other(s, i)
        }
    } else if b == 0x66 {
        if s.len() - i >= 5 && s[i + 1] == 0x61 && s[i + 2] == 0x6c && s[i + 3] == 0x73 && s[i + 4]
            == 0x65 {
            Some((Json::Bool(false), i + 5))
        } else {
            scan_other(s, i)
        }
    } else if b == 0x6e {
        if s.len() - i >= 4 && s[i + 1] == 0x75 && s[i + 2] == 0x6c && s[i + 3] == 0x6c {
            Some((Json::Null, i + 4))
        } else {
            scan_other(s, i)
        }
    } else if b == 0x5b {
        match parse_str_array(s, i) {
            None => scan_other(s, i),
            Some((items, j)) => Some((Json::StrArr(items), j)),
        }
    } else if b == 0x7b {
        scan_other(s, i)
    } else {
        None
    }
}

fn parse_member(s: &Vec<u8>, i: usize) -> (r: Option<(Member, usize)>)
    requires
        i <= s@.len(),
    ensures
        match r {
            Some(p) => spec_parse_member(s@, i as int) == Some((p.0@, p.1 as int)) && i < p.1
                <= s@.len(),
            None => spec_parse_member(s@, i as int) is None,
        },
{
    match parse_string(s, i) {
        None => None,
        Some((key, j)) => {
            let c = skip_ws(s, j);
            if c < s.len() && s[c] == 0x3a {
                let v = skip_ws(s, c + 1);
                match parse_value(s, v) {
                    None => None,
                    Some((val, e)) => Some((Member { key, value: val }, e)),
                }
            } else {
                None
            }
        },
    }
}

fn members(s: &Vec<u8>, i: usize) -> (r: Option<(Vec<Member>, usize)>)
    requires
        i <= s@.len(),
    ensures
        match r {
            Some(p) => spec_members(s@, i as int) == Some((members_view(p.0@), p.1 as int)) && i
                < p.1 <= s@.len(),
            None => spec_members(s@, i as int) is None,
        },
    decreases s@.len() - i,
{
    match parse_member(s, i) {
        None => None,
        Some((m, j)) => {
            let k = skip_ws(s, j);
            if k < s.len() && s[k] == 0x2c {
                let n = skip_ws(s, k + 1);
                match members(s, n) {
                    None => None,
                    Some((mut rest, e)) => {
                        let ghost r0 = rest@;
                        rest.insert(0, m);
                        proof {
                            assert(members_view(rest@) =~= seq![rest@[0]@] + members_view(r0));
                        }
                        Some((rest, e))
                    },
                }
            } else if k < s.len() && s[k] == 0x7d {
                let one: Vec<Member> = vec![m];
                proof {
                    assert(members_view(one@) =~= seq![one@[0]@]);
                }
                Some((one, k + 1))
            } else {
                None
            }
        },
    }
}

fn parse_object(s: &Vec<u8>, i: usize) -> (r: Option<(Vec<Member>, usize)>)
    requires
        i <= s@.len(),
    ensures
        match r {
            Some(p) => spec_parse_object(s@, i as int) == Some((members_view(p.0@), p.1 as int))
                && i < p.1 <= s@.len(),
            None => spec_parse_object(s@, i as int) is None,
        },
{
    if i < s.len() && s[i] == 0x7b {
        let j = skip_ws(s, i + 1);
        if j < s.len() && s[j] == 0x7d {
            let empty: Vec<Member> = Vec::new();
            proof {
                assert(members_view(empty@) =~= Seq::<(Seq<char>, SpecJson)>::empty());
            }
            Some((empty, j + 1))
        } else {
            members(s, j)
        }
    } else {
        None
    }
}

/// Parses a whole document into its members, or nothing where the bytes are
/// not one object of the accepted shape.
pub fn parse_document(s: &Vec<u8>) -> (r: Option<Vec<Member>>)
    ensures
        match r {
            Some(ms) => spec_parse_document(s@) == Some(members_view(ms@)),
            None => spec_parse_document(s@) is None,
        },
{
    let i = skip_ws(s, 0);
    match parse_object(s, i) {
        None => None,
        Some((ms, j)) => {
            let k = skip_ws(s, j);
            if k == s.len() {
                Some(ms)
            } else {
                None
            }
        },
    }
}

} // verus!
