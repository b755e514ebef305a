use vstd::prelude::*;

use crate::strutil::{chars_of, string_of};

verus! {

broadcast use vstd::utf8::char_u32_cast;

// ---------------------------------------------------------------------------
// The response bodies this crate consumes are JSON arrays of flat objects
// whose values are strings or numbers.  The spec functions below define that
// grammar directly over character sequences; the executable scanner mirrors
// them and is proved to return exactly what they describe.
// ---------------------------------------------------------------------------

/// One scalar value of a record: the literal text of the value, and whether
/// it was written as a JSON string (`true`) or as a bare number (`false`).
pub struct JsonScalar {
    pub text: String,
    pub is_string: bool,
}

impl View for JsonScalar {
    type V = (Seq<char>, bool);

    open spec fn view(&self) -> (Seq<char>, bool) {
        (self.text@, self.is_string)
    }
}

/// A parsed object: its members in source order.
pub type SpecMember = (Seq<char>, (Seq<char>, bool));

pub type SpecRecord = Seq<SpecMember>;

pub open spec fn member_view(m: (String, JsonScalar)) -> SpecMember {
    (m.0@, m.1@)
}

pub open spec fn record_view(r: Seq<(String, JsonScalar)>) -> SpecRecord {
    r.map_values(|m: (String, JsonScalar)| member_view(m))
}

pub open spec fn records_view(rs: Seq<Vec<(String, JsonScalar)>>) -> Seq<SpecRecord> {
    rs.map_values(|r: Vec<(String, JsonScalar)>| record_view(r@))
}

// ---------------------------------------------------------------------------
// Character classes
// ---------------------------------------------------------------------------

pub open spec fn is_ws(c: char) -> bool {
    c == ' ' || c == '\t' || c == '\n' || c == '\r'
}

pub open spec fn is_digit(c: char) -> bool {
    48 <= c as u32 && c as u32 <= 57
}

pub open spec fn is_hex_digit(c: char) -> bool {
    is_digit(c) || (97 <= c as u32 && c as u32 <= 102) || (65 <= c as u32 && c as u32 <= 70)
}

/// The numeric value of a hex digit (zero on other characters).
pub open spec fn hex_val(c: char) -> u32 {
    if is_digit(c) {
        (c as u32 - 48) as u32
    } else if 97 <= c as u32 && c as u32 <= 102 {
        (c as u32 - 87) as u32
    } else if 65 <= c as u32 && c as u32 <= 70 {
        (c as u32 - 55) as u32
    } else {
        0
    }
}

// ---------------------------------------------------------------------------
// Spec-level scanner.  Each function takes the input and a position and
// returns the parsed item with the position just after it, or `None` when
// the input does not match the grammar at that position.
// ---------------------------------------------------------------------------

/// Position of the first non-whitespace character at or after `i`.
pub open spec fn sp_ws(s: Seq<char>, i: int) -> int
    decreases s.len() - i,
    when 0 <= i <= s.len()
{
    if i < s.len() && is_ws(s[i]) {
        sp_ws(s, i + 1)
    } else {
        i
    }
}

/// Position just after the maximal run of decimal digits starting at `i`.
pub open spec fn sp_digits(s: Seq<char>, i: int) -> int
    decreases s.len() - i,
    when 0 <= i <= s.len()
{
    if i < s.len() && is_digit(s[i]) {
        sp_digits(s, i + 1)
    } else {
        i
    }
}

/// A number literal: optional minus, digits, optional fraction, optional
/// exponent.  Returns its text and the position after it.
pub open spec fn sp_number(s: Seq<char>, i: int) -> Option<(Seq<char>, int)>
    recommends
        0 <= i <= s.len(),
{
    let j = if i < s.len() && s[i] == '-' {
        i + 1
    } else {
        i
    };
    if j < s.len() && is_digit(s[j]) {
        let k = sp_digits(s, j);
        let k2 = if k < s.len() && s[k] == '.' && k + 1 < s.len() && is_digit(s[k + 1]) {
            sp_digits(s, k + 1)
        } else {
            k
        };
        let k3 = if k2 < s.len() && (s[k2] == 'e' || s[k2] == 'E') {
            let m = if k2 + 1 < s.len() && (s[k2 + 1] == '+' || s[k2 + 1] == '-') {
                k2 + 2
            } else {
                k2 + 1
            };
            if m < s.len() && is_digit(s[m]) {
                sp_digits(s, m)
            } else {
                k2
            }
        } else {
            k2
        };
        Some((s.subrange(i, k3), k3))
    } else {
        None
    }
}

/// The body of a string literal, from just after the opening quote, with
/// `acc` the characters decoded so far.  Handles the JSON escapes; a
/// `\u` escape must denote a Unicode scalar (surrogates are refused).
pub open spec fn sp_str_rest(s: Seq<char>, i: int, acc: Seq<char>) -> Option<(Seq<char>, int)>
    decreases s.len() - i,
    when 0 <= i <= s.len()
{
    if i >= s.len() {
        None
    } else if s[i] == '"' {
        Some((acc, i + 1))
    } else if s[i] == '\\' {
        if i + 1 >= s.len() {
            None
        } else {
            let e = s[i + 1];
            if e == '"' || e == '\\' || e == '/' {
                sp_str_rest(s, i + 2, acc.push(e))
            } else if e == 'n' {
                sp_str_rest(s, i + 2, acc.push('\n'))
            } else if e == 't' {
                sp_str_rest(s, i + 2, acc.push('\t'))
            } else if e == 'r' {
                sp_str_rest(s, i + 2, acc.push('\r'))
            } else if e == 'b' {
                sp_str_rest(s, i + 2, acc.push(8u32 as char))
            } else if e == 'f' {
                sp_str_rest(s, i + 2, acc.push(12u32 as char))
            } else if e == 'u' {
                if i + 5 < s.len() && is_hex_digit(s[i + 2]) && is_hex_digit(s[i + 3])
                    && is_hex_digit(s[i + 4]) && is_hex_digit(s[i + 5]) {
                    let v = (hex_val(s[i + 2]) * 4096 + hex_val(s[i + 3]) * 256 + hex_val(
                        s[i + 4],
                    ) * 16 + hex_val(s[i + 5])) as u32;
                    if 0xD800 <= v && v < 0xE000 {
                        None
                    } else {
                        sp_str_rest(s, i + 6, acc.push(v as char))
                    }
                } else {
                    None
                }
            } else {
                None
            }
        }
    } else {
        sp_str_rest(s, i + 1, acc.push(s[i]))
    }
}

/// A string literal starting at `i`: decoded content and the position after
/// the closing quote.
pub open spec fn sp_string(s: Seq<char>, i: int) -> Option<(Seq<char>, int)>
    recommends
        0 <= i <= s.len(),
{
    if i < s.len() && s[i] == '"' {
        sp_str_rest(s, i + 1, Seq::empty())
    } else {
        None
    }
}

/// A scalar value: a string literal or a number literal.
pub open spec fn sp_value(s: Seq<char>, i: int) -> Option<((Seq<char>, bool), int)>
    recommends
        0 <= i <= s.len(),
{
    if i < s.len() && s[i] == '"' {
        match sp_string(s, i) {
            Some((t, j)) => Some(((t, true), j)),
            None => None,
        }
    } else {
        match sp_number(s, i) {
            Some((t, j)) => Some(((t, false), j)),
            None => None,
        }
    }
}

/// One `"key": value` member, with leading whitespace allowed.
pub open spec fn sp_member(s: Seq<char>, i: int) -> Option<(SpecMember, int)>
    recommends
        0 <= i <= s.len(),
{
    let i1 = sp_ws(s, i);
    match sp_string(s, i1) {
        Some((key, i2)) => {
            let i3 = sp_ws(s, i2);
            if i3 < s.len() && s[i3] == ':' {
                let i4 = sp_ws(s, i3 + 1);
                match sp_value(s, i4) {
                    Some((v, i5)) => Some(((key, v), i5)),
                    None => None,
                }
            } else {
                None
            }
        },
        None => None,
    }
}

// ---------------------------------------------------------------------------
// Bounds of the scanners, needed for termination of the enclosing rules and
// for the executable mirror's index arithmetic.
// ---------------------------------------------------------------------------

pub proof fn lemma_sp_ws_bounds(s: Seq<char>, i: int)
    requires
        0 <= i <= s.len(),
    ensures
        i <= sp_ws(s, i) <= s.len(),
    decreases s.len() - i,
{
    if i < s.len() && is_ws(s[i]) {
        lemma_sp_ws_bounds(s, i + 1);
    }
}

pub proof fn lemma_sp_digits_bounds(s: Seq<char>, i: int)
    requires
        0 <= i <= s.len(),
    ensures
        i <= sp_digits(s, i) <= s.len(),
    decreases s.len() - i,
{
    if i < s.len() && is_digit(s[i]) {
        lemma_sp_digits_bounds(s, i + 1);
    }
}

pub proof fn lemma_sp_number_bounds(s: Seq<char>, i: int)
    requires
        0 <= i <= s.len(),
    ensures
        match sp_number(s, i) {
            Some((t, k)) => i < k <= s.len(),
            None => true,
        },
{
    let j = if i < s.len() && s[i] == '-' {
        i + 1
    } else {
        i
    };
    if j < s.len() && is_digit(s[j]) {
        lemma_sp_digits_bounds(s, j + 1);
        let k = sp_digits(s, j);
        assert(k == sp_digits(s, j + 1));
        if k < s.len() && s[k] == '.' && k + 1 < s.len() && is_digit(s[k + 1]) {
            lemma_sp_digits_bounds(s, k + 1);
        }
        let k2 = if k < s.len() && s[k] == '.' && k + 1 < s.len() && is_digit(s[k + 1]) {
            sp_digits(s, k + 1)
        } else {
            k
        };
        if k2 < s.len() && (s[k2] == 'e' || s[k2] == 'E') {
            let m = if k2 + 1 < s.len() && (s[k2 + 1] == '+' || s[k2 + 1] == '-') {
                k2 + 2
            } else {
                k2 + 1
            };
            if m < s.len() && is_digit(s[m]) {
                lemma_sp_digits_bounds(s, m + 1);
            }
        }
    }
}

pub proof fn lemma_sp_str_rest_bounds(s: Seq<char>, i: int, acc: Seq<char>)
    requires
        0 <= i <= s.len(),
    ensures
        match sp_str_rest(s, i, acc) {
            Some((t, j)) => i < j <= s.len(),
            None => true,
        },
    decreases s.len() - i,
{
    if i >= s.len() {
    } else if s[i] == '"' {
    } else if s[i] == '\\' {
        if i + 1 >= s.len() {
        } else {
            let e = s[i + 1];
            if e == '"' || e == '\\' || e == '/' || e == 'n' || e == 't' || e == 'r' || e == 'b'
                || e == 'f' {
                lemma_sp_str_rest_bounds(s, i + 2, sp_str_rest_acc_next(s, i, acc));
            } else if e == 'u' {
                if i + 5 < s.len() && is_hex_digit(s[i + 2]) && is_hex_digit(s[i + 3])
                    && is_hex_digit(s[i + 4]) && is_hex_digit(s[i + 5]) {
                    let v = (hex_val(s[i + 2]) * 4096 + hex_val(s[i + 3]) * 256 + hex_val(
                        s[i + 4],
                    ) * 16 + hex_val(s[i + 5])) as u32;
                    if !(0xD800 <= v && v < 0xE000) {
                        lemma_sp_str_rest_bounds(s, i + 6, acc.push(v as char));
                    }
                }
            }
        }
    } else {
        lemma_sp_str_rest_bounds(s, i + 1, acc.push(s[i]));
    }
}

/// The accumulator passed on by `sp_str_rest` for a two-character escape.
pub open spec fn sp_str_rest_acc_next(s: Seq<char>, i: int, acc: Seq<char>) -> Seq<char> {
    let e = s[i + 1];
    if e == '"' || e == '\\' || e == '/' {
        acc.push(e)
    } else if e == 'n' {
        acc.push('\n')
    } else if e == 't' {
        acc.push('\t')
    } else if e == 'r' {
        acc.push('\r')
    } else if e == 'b' {
        acc.push(8u32 as char)
    } else {
        acc.push(12u32 as char)
    }
}

pub proof fn lemma_sp_string_bounds(s: Seq<char>, i: int)
    requires
        0 <= i <= s.len(),
    ensures
        match sp_string(s, i) {
            Some((t, j)) => i + 1 < j <= s.len(),
            None => true,
        },
{
    if i < s.len() && s[i] == '"' {
        lemma_sp_str_rest_bounds(s, i + 1, Seq::empty());
    }
}

pub proof fn lemma_sp_value_bounds(s: Seq<char>, i: int)
    requires
        0 <= i <= s.len(),
    ensures
        match sp_value(s, i) {
            Some((v, j)) => i < j <= s.len(),
            None => true,
        },
{
    lemma_sp_string_bounds(s, i);
    lemma_sp_number_bounds(s, i);
}

pub proof fn lemma_sp_member_bounds(s: Seq<char>, i: int)
    requires
        0 <= i <= s.len(),
    ensures
        match sp_member(s, i) {
            Some((m, k)) => i < k <= s.len(),
            None => true,
        },
{
    lemma_sp_ws_bounds(s, i);
    let i1 = sp_ws(s, i);
    lemma_sp_string_bounds(s, i1);
    match sp_string(s, i1) {
        Some((key, i2)) => {
            lemma_sp_ws_bounds(s, i2);
            let i3 = sp_ws(s, i2);
            if i3 < s.len() && s[i3] == ':' {
                lemma_sp_ws_bounds(s, i3 + 1);
                let i4 = sp_ws(s, i3 + 1);
                lemma_sp_value_bounds(s, i4);
            }
        },
        None => {},
    }
}

// ---------------------------------------------------------------------------
// Objects and the top-level array
// ---------------------------------------------------------------------------

/// The members of an object after its first member, with `acc` the members
/// read so far: either `}` closes the object or `,` introduces another.
pub open spec fn sp_members_rest(s: Seq<char>, i: int, acc: SpecRecord) -> Option<
    (SpecRecord, int),
>
    decreases s.len() - i,
    when 0 <= i <= s.len()
{
    let j = sp_ws(s, i);
    if j < s.len() && s[j] == '}' {
        proof {
            lemma_sp_ws_bounds(s, i);
        }
        Some((acc, j + 1))
    } else if j < s.len() && s[j] == ',' {
        proof {
            lemma_sp_ws_bounds(s, i);
            lemma_sp_member_bounds(s, j + 1);
        }
        match sp_member(s, j + 1) {
            Some((m, k)) => sp_members_rest(s, k, acc.push(m)),
            None => None,
        }
    } else {
        None
    }
}

/// A whole object starting at `i` (which must hold `{`).
pub open spec fn sp_object(s: Seq<char>, i: int) -> Option<(SpecRecord, int)>
    recommends
        0 <= i <= s.len(),
{
    if i < s.len() && s[i] == '{' {
        let j = sp_ws(s, i + 1);
        if j < s.len() && s[j] == '}' {
            Some((Seq::empty(), j + 1))
        } else {
            match sp_member(s, i + 1) {
                Some((m, k)) => sp_members_rest(s, k, Seq::empty().push(m)),
                None => None,
            }
        }
    } else {
        None
    }
}

pub proof fn lemma_sp_members_rest_bounds(s: Seq<char>, i: int, acc: SpecRecord)
    requires
        0 <= i <= s.len(),
    ensures
        match sp_members_rest(s, i, acc) {
            Some((ms, j)) => i < j <= s.len(),
            None => true,
        },
    decreases s.len() - i,
{
    lemma_sp_ws_bounds(s, i);
    let j = sp_ws(s, i);
    if j < s.len() && s[j] == '}' {
    } else if j < s.len() && s[j] == ',' {
        lemma_sp_member_bounds(s, j + 1);
        match sp_member(s, j + 1) {
            Some((m, k)) => {
                lemma_sp_members_rest_bounds(s, k, acc.push(m));
            },
            None => {},
        }
    }
}

pub proof fn lemma_sp_object_bounds(s: Seq<char>, i: int)
    requires
        0 <= i <= s.len(),
    ensures
        match sp_object(s, i) {
            Some((r, k)) => i < k <= s.len(),
            None => true,
        },
{
    if i < s.len() && s[i] == '{' {
        lemma_sp_ws_bounds(s, i + 1);
        let j = sp_ws(s, i + 1);
        if j < s.len() && s[j] == '}' {
        } else {
            lemma_sp_member_bounds(s, i + 1);
            match sp_member(s, i + 1) {
                Some((m, k)) => {
                    lemma_sp_members_rest_bounds(s, k, Seq::empty().push(m));
                },
                None => {},
            }
        }
    }
}

/// The elements of the array after its first object, with `acc` the objects
/// read so far: either `]` closes the array or `,` introduces another.
pub open spec fn sp_objects_rest(s: Seq<char>, i: int, acc: Seq<SpecRecord>) -> Option<
    (Seq<SpecRecord>, int),
>
    decreases s.len() - i,
    when 0 <= i <= s.len()
{
    let j = sp_ws(s, i);
    if j < s.len() && s[j] == ']' {
        proof {
            lemma_sp_ws_bounds(s, i);
        }
        Some((acc, j + 1))
    } else if j < s.len() && s[j] == ',' {
        proof {
            lemma_sp_ws_bounds(s, i);
            lemma_sp_ws_bounds(s, j + 1);
            lemma_sp_object_bounds(s, sp_ws(s, j + 1));
        }
        match sp_object(s, sp_ws(s, j + 1)) {
            Some((r, k)) => sp_objects_rest(s, k, acc.push(r)),
            None => None,
        }
    } else {
        None
    }
}

pub proof fn lemma_sp_objects_rest_bounds(s: Seq<char>, i: int, acc: Seq<SpecRecord>)
    requires
        0 <= i <= s.len(),
    ensures
        match sp_objects_rest(s, i, acc) {
            Some((rs, j)) => i < j <= s.len(),
            None => true,
        },
    decreases s.len() - i,
{
    lemma_sp_ws_bounds(s, i);
    let j = sp_ws(s, i);
    if j < s.len() && s[j] == ']' {
    } else if j < s.len() && s[j] == ',' {
        lemma_sp_ws_bounds(s, j + 1);
        lemma_sp_object_bounds(s, sp_ws(s, j + 1));
        match sp_object(s, sp_ws(s, j + 1)) {
            Some((r, k)) => {
                lemma_sp_objects_rest_bounds(s, k, acc.push(r));
            },
            None => {},
        }
    }
}

/// The whole input as an array of flat objects, with nothing but whitespace
/// around it.  `None` is exactly "the body is not valid structured data".
pub open spec fn sp_records(s: Seq<char>) -> Option<Seq<SpecRecord>> {
    let i = sp_ws(s, 0);
    if i < s.len() && s[i] == '[' {
        let j = sp_ws(s, i + 1);
        if j < s.len() && s[j] == ']' {
            if sp_ws(s, j + 1) == s.len() {
                Some(Seq::empty())
            } else {
                None
            }
        } else {
            match sp_object(s, j) {
                Some((r0, k)) => match sp_objects_rest(s, k, Seq::empty().push(r0)) {
                    Some((rs, e)) => if sp_ws(s, e) == s.len() {
                        Some(rs)
                    } else {
                        None
                    },
                    None => None,
                },
                None => None,
            }
        }
    } else {
        None
    }
}

// ---------------------------------------------------------------------------
// Executable scanner: one function per spec rule, each proved to return
// exactly what its rule describes.
// ---------------------------------------------------------------------------

/// Relies on char::from_u32: `Some` exactly for Unicode scalar values
/// (everything but surrogates and values past the highest code point), and
/// the returned character casts back to the given value.
pub assume_specification[ char::from_u32 ](i: u32) -> (r: Option<char>)
    ensures
        r is None <==> (0xD800 <= i && i < 0xE000) || i > 0x10FFFF,
        r matches Some(c) ==> c as u32 == i,
;

/// The character with the given scalar value.
fn char_from_scalar(v: u32) -> (r: char)
    requires
        !(0xD800 <= v && v < 0xE000),
        v <= 0x10FFFF,
    ensures
        r == (v as char),
{
    let c = char::from_u32(v).unwrap();
    proof {
        vstd::utf8::char_u32_cast(c, v);
    }
    c
}

fn is_ws_c(c: char) -> (r: bool)
    ensures
        r == is_ws(c),
{
    c == ' ' || c == '\t' || c == '\n' || c == '\r'
}

fn is_digit_c(c: char) -> (r: bool)
    ensures
        r == is_digit(c),
{
    let v = c as u32;
    48 <= v && v <= 57
}

fn is_hex_digit_c(c: char) -> (r: bool)
    ensures
        r == is_hex_digit(c),
{
    let v = c as u32;
    (48 <= v && v <= 57) || (97 <= v && v <= 102) || (65 <= v && v <= 70)
}

fn hex_val_c(c: char) -> (r: u32)
    ensures
        r == hex_val(c),
        r <= 15 || !is_hex_digit(c),
{
    let v = c as u32;
    if 48 <= v && v <= 57 {
        v - 48
    } else if 97 <= v && v <= 102 {
        v - 87
    } else if 65 <= v && v <= 70 {
        v - 55
    } else {
        0
    }
}

fn ws_at(s: &Vec<char>, i: usize) -> (r: usize)
    requires
        i <= s.len(),
    ensures
        r as int == sp_ws(s@, i as int),
        i <= r <= s.len(),
    decreases s.len() - i,
{
    if i < s.len() && is_ws_c(s[i]) {
        ws_at(s, i + 1)
    } else {
        i
    }
}

fn digits_at(s: &Vec<char>, i: usize) -> (r: usize)
    requires
        i <= s.len(),
    ensures
        r as int == sp_digits(s@, i as int),
        i <= r <= s.len(),
    decreases s.len() - i,
{
    if i < s.len() && is_digit_c(s[i]) {
        digits_at(s, i + 1)
    } else {
        i
    }
}

fn scan_number(s: &Vec<char>, i: usize) -> (r: Option<(Vec<char>, usize)>)
    requires
        i <= s.len(),
    ensures
        r is Some <==> sp_number(s@, i as int) is Some,
        r matches Some((t, j)) ==> sp_number(s@, i as int) == Some((t@, j as int)) && i < j
            <= s.len(),
{
    let j = if i < s.len() && s[i] == '-' {
        i + 1
    } else {
        i
    };
    if j < s.len() && is_digit_c(s[j]) {
        let k = digits_at(s, j);
        proof {
            assert(sp_digits(s@, j as int) == sp_digits(s@, j as int + 1));
            lemma_sp_digits_bounds(s@, j as int + 1);
        }
        let k2 = if k < s.len() && s[k] == '.' && k + 1 < s.len() && is_digit_c(s[k + 1]) {
            digits_at(s, k + 1)
        } else {
            k
        };
        let k3 = if k2 < s.len() && (s[k2] == 'e' || s[k2] == 'E') {
            let m = if k2 + 1 < s.len() && (s[k2 + 1] == '+' || s[k2 + 1] == '-') {
                k2 + 2
            } else {
                k2 + 1
            };
            if m < s.len() && is_digit_c(s[m]) {
                digits_at(s, m)
            } else {
                k2
            }
        } else {
            k2
        };
        Some((crate::strutil::subvec(s, i, k3), k3))
    } else {
        None
    }
}

fn scan_str_rest(s: &Vec<char>, i: usize, acc: Vec<char>) -> (r: Option<(Vec<char>, usize)>)
    requires
        i <= s.len(),
    ensures
        r is Some <==> sp_str_rest(s@, i as int, acc@) is Some,
        r matches Some((t, j)) ==> sp_str_rest(s@, i as int, acc@) == Some((t@, j as int)) && i < j
            <= s.len(),
    decreases s.len() - i,
{
    if i >= s.len() {
        None
    } else if s[i] == '"' {
        Some((acc, i + 1))
    } else if s[i] == '\\' {
        if s.len() - i <= 1 {
            None
        } else {
            let e = s[i + 1];
            if e == '"' || e == '\\' || e == '/' {
                let mut acc = acc;
                acc.push(e);
                scan_str_rest(s, i + 2, acc)
            } else if e == 'n' {
                let mut acc = acc;
                acc.push('\n');
                scan_str_rest(s, i + 2, acc)
            } else if e == 't' {
                let mut acc = acc;
                acc.push('\t');
                scan_str_rest(s, i + 2, acc)
            } else if e == 'r' {
                let mut acc = acc;
                acc.push('\r');
                scan_str_rest(s, i + 2, acc)
            } else if e == 'b' {
                let mut acc = acc;
                acc.push(char_from_scalar(8));
                scan_str_rest(s, i + 2, acc)
            } else if e == 'f' {
                let mut acc = acc;
                acc.push(char_from_scalar(12));
                scan_str_rest(s, i + 2, acc)
            } else if e == 'u' {
                if s.len() - i > 5 && is_hex_digit_c(s[i + 2]) && is_hex_digit_c(s[i + 3])
                    && is_hex_digit_c(s[i + 4]) && is_hex_digit_c(s[i + 5]) {
                    let v = hex_val_c(s[i + 2]) * 4096 + hex_val_c(s[i + 3]) * 256 + hex_val_c(
                        s[i + 4],
                    ) * 16 + hex_val_c(s[i + 5]);
                    if 0xD800 <= v && v < 0xE000 {
                        None
                    } else {
                        let mut acc = acc;
                        acc.push(char_from_scalar(v));
                        scan_str_rest(s, i + 6, acc)
                    }
                } else {
                    None
                }
            } else {
                None
            }
        }
    } else {
        let mut acc = acc;
        acc.push(s[i]);
        scan_str_rest(s, i + 1, acc)
    }
}

fn scan_string(s: &Vec<char>, i: usize) -> (r: Option<(Vec<char>, usize)>)
    requires
        i <= s.len(),
    ensures
        r is Some <==> sp_string(s@, i as int) is Some,
        r matches Some((t, j)) ==> sp_string(s@, i as int) == Some((t@, j as int)) && i < j
            <= s.len(),
{
    if i < s.len() && s[i] == '"' {
        scan_str_rest(s, i + 1, Vec::new())
    } else {
        None
    }
}

fn scan_value(s: &Vec<char>, i: usize) -> (r: Option<(JsonScalar, usize)>)
    requires
        i <= s.len(),
    ensures
        r is Some <==> sp_value(s@, i as int) is Some,
        r matches Some((v, j)) ==> sp_value(s@, i as int) == Some((v@, j as int)) && i < j
            <= s.len(),
{
    if i < s.len() && s[i] == '"' {
        match scan_string(s, i) {
            Some((t, j)) => Some((JsonScalar { text: string_of(&t), is_string: true }, j)),
            None => None,
        }
    } else {
        match scan_number(s, i) {
            Some((t, j)) => Some((JsonScalar { text: string_of(&t), is_string: false }, j)),
            None => None,
        }
    }
}

fn scan_member(s: &Vec<char>, i: usize) -> (r: Option<((String, JsonScalar), usize)>)
    requires
        i <= s.len(),
    ensures
        r is Some <==> sp_member(s@, i as int) is Some,
        r matches Some((m, k)) ==> sp_member(s@, i as int) == Some((member_view(m), k as int)) && i
            < k <= s.len(),
{
    let i1 = ws_at(s, i);
    match scan_string(s, i1) {
        Some((key, i2)) => {
            let i3 = ws_at(s, i2);
            if i3 < s.len() && s[i3] == ':' {
                let i4 = ws_at(s, i3 + 1);
                match scan_value(s, i4) {
                    Some((v, i5)) => Some(((string_of(&key), v), i5)),
                    None => None,
                }
            } else {
                None
            }
        },
        None => None,
    }
}

fn scan_members_rest(s: &Vec<char>, i: usize, acc: Vec<(String, JsonScalar)>) -> (r: Option<
    (Vec<(String, JsonScalar)>, usize),
>)
    requires
        i <= s.len(),
    ensures
        r is Some <==> sp_members_rest(s@, i as int, record_view(acc@)) is Some,
        r matches Some((ms, j)) ==> sp_members_rest(s@, i as int, record_view(acc@)) == Some(
            (record_view(ms@), j as int),
        ) && i < j <= s.len(),
    decreases s.len() - i,
{
    let j = ws_at(s, i);
    if j < s.len() && s[j] == '}' {
        Some((acc, j + 1))
    } else if j < s.len() && s[j] == ',' {
        match scan_member(s, j + 1) {
            Some((m, k)) => {
                let ghost old_acc = acc@;
                let mut acc = acc;
                acc.push(m);
                proof {
                    assert(record_view(acc@) =~= record_view(old_acc).push(member_view(m)));
                }
                scan_members_rest(s, k, acc)
            },
            None => None,
        }
    } else {
        None
    }
}

fn scan_object(s: &Vec<char>, i: usize) -> (r: Option<(Vec<(String, JsonScalar)>, usize)>)
    requires
        i <= s.len(),
    ensures
        r is Some <==> sp_object(s@, i as int) is Some,
        r matches Some((ms, k)) ==> sp_object(s@, i as int) == Some((record_view(ms@), k as int))
            && i < k <= s.len(),
{
    if i < s.len() && s[i] == '{' {
        let j = ws_at(s, i + 1);
        if j < s.len() && s[j] == '}' {
            let ms: Vec<(String, JsonScalar)> = Vec::new();
            proof {
                assert(record_view(ms@) =~= Seq::<SpecMember>::empty());
            }
            Some((ms, j + 1))
        } else {
            match scan_member(s, i + 1) {
                Some((m, k)) => {
                    let mut ms: Vec<(String, JsonScalar)> = Vec::new();
                    ms.push(m);
                    proof {
                        assert(record_view(ms@) =~= Seq::<SpecMember>::empty().push(
                            member_view(m),
                        ));
                    }
                    scan_members_rest(s, k, ms)
                },
                None => None,
            }
        }
    } else {
        None
    }
}

fn scan_objects_rest(s: &Vec<char>, i: usize, acc: Vec<Vec<(String, JsonScalar)>>) -> (r: Option<
    (Vec<Vec<(String, JsonScalar)>>, usize),
>)
    requires
        i <= s.len(),
    ensures
        r is Some <==> sp_objects_rest(s@, i as int, records_view(acc@)) is Some,
        r matches Some((rs, j)) ==> sp_objects_rest(s@, i as int, records_view(acc@)) == Some(
            (records_view(rs@), j as int),
        ) && i < j <= s.len(),
    decreases s.len() - i,
{
    let j = ws_at(s, i);
    if j < s.len() && s[j] == ']' {
        Some((acc, j + 1))
    } else if j < s.len() && s[j] == ',' {
        let j2 = ws_at(s, j + 1);
        match scan_object(s, j2) {
            Some((rec, k)) => {
                let ghost old_acc = acc@;
                let mut acc = acc;
                acc.push(rec);
                proof {
                    assert(records_view(acc@) =~= records_view(old_acc).push(record_view(rec@)));
                }
                scan_objects_rest(s, k, acc)
            },
            None => None,
        }
    } else {
        None
    }
}

/// Parses a whole body as an array of flat objects.  Returns the records in
/// order exactly when the body matches the grammar `sp_records` describes.
pub fn parse_json_records(body: &str) -> (r: Option<Vec<Vec<(String, JsonScalar)>>>)
    ensures
        r is Some <==> sp_records(body@) is Some,
        r matches Some(rs) ==> sp_records(body@) == Some(records_view(rs@)),
{
    let s = chars_of(body);
    let i = ws_at(&s, 0);
    if i < s.len() && s[i] == '[' {
        let j = ws_at(&s, i + 1);
        if j < s.len() && s[j] == ']' {
            if ws_at(&s, j + 1) == s.len() {
                let rs: Vec<Vec<(String, JsonScalar)>> = Vec::new();
                proof {
                    assert(records_view(rs@) =~= Seq::<SpecRecord>::empty());
                }
                Some(rs)
            } else {
                None
            }
        } else {
            match scan_object(&s, j) {
                Some((r0, k)) => {
                    let mut acc: Vec<Vec<(String, JsonScalar)>> = Vec::new();
                    acc.push(r0);
                    proof {
                        assert(records_view(acc@) =~= Seq::<SpecRecord>::empty().push(
                            record_view(r0@),
                        ));
                    }
                    match scan_objects_rest(&s, k, acc) {
                        Some((rs, e)) => {
                            if ws_at(&s, e) == s.len() {
                                Some(rs)
                            } else {
                                None
                            }
                        },
                        None => None,
                    }
                },
                None => None,
            }
        }
    } else {
        None
    }
}

/// Text that denotes a number: it parses completely under the number rule.
pub open spec fn is_number_text(t: Seq<char>) -> bool {
    sp_number(t, 0) == Some((t, t.len() as int))
}

/// Executable check for `is_number_text`.
pub fn is_number_str(t: &str) -> (r: bool)
    ensures
        r == is_number_text(t@),
{
    let cs = chars_of(t);
    match scan_number(&cs, 0) {
        Some((u, k)) => {
            proof {
                if k == cs.len() {
                    assert(u@ =~= t@.subrange(0, t@.len() as int));
                    assert(u@ =~= t@);
                }
            }
            k == cs.len()
        },
        None => false,
    }
}

} // verus!
