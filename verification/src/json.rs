//! A verified parser for the JSON texts that the kiosk exchanges with
//! its backend: event-stream frames and HTTP response bodies.
//!
//! The grammar is given by the `sp_*` specification functions, a
//! functional parser over a `Seq<char>`; the executable parser is
//! proved to return exactly what the specification says. Numbers keep
//! their full syntax, but only a value that is a non-negative integer
//! fitting in a `u64` is materialized — the kiosk's wire format carries
//! no other numbers, and a fractional or huge value reads as absent.
//! Nesting is limited to [`DEPTH_LIMIT`] levels so that decoding runs
//! in bounded stack space.

use vstd::prelude::*;

verus! {

/// Most deeply nested containers a text may use before it is rejected.
pub const DEPTH_LIMIT: u32 = 128;

/// A decoded JSON value.
///
/// A number is kept only when it is a non-negative integer that fits a
/// `u64`; any other number decodes to `Num(None)`.
#[derive(Debug)]
pub enum Json {
    Null,
    Bool(bool),
    Num(Option<u64>),
    Str(String),
    Arr(Vec<Json>),
    Obj(Vec<(String, Json)>),
}

/// Mathematical model of a [`Json`] value.
#[verifier::ext_equal]
pub ghost enum JsonView {
    Null,
    Bool(bool),
    Num(Option<u64>),
    Str(Seq<char>),
    Arr(Seq<JsonView>),
    Obj(Seq<(Seq<char>, JsonView)>),
}

/// The models of a sequence of values.
pub open spec fn views_of(items: Seq<Json>) -> Seq<JsonView> {
    Seq::new(items.len(), |k: int| json_view(items[k]))
}

/// The models of a sequence of object members.
pub open spec fn member_views(members: Seq<(String, Json)>) -> Seq<(Seq<char>, JsonView)> {
    Seq::new(members.len(), |k: int| (members[k].0@, json_view(members[k].1)))
}

/// The model of a [`Json`] value.
pub open spec fn json_view(j: Json) -> JsonView
    decreases j,
{
    match j {
        Json::Null => JsonView::Null,
        Json::Bool(b) => JsonView::Bool(b),
        Json::Num(n) => JsonView::Num(n),
        Json::Str(s) => JsonView::Str(s@),
        Json::Arr(items) => JsonView::Arr(
            Seq::new(
                items@.len(),
                |k: int|
                    if 0 <= k < items@.len() {
                        json_view(items@[k])
                    } else {
                        JsonView::Null
                    },
            ),
        ),
        Json::Obj(members) => JsonView::Obj(
            Seq::new(
                members@.len(),
                |k: int|
                    if 0 <= k < members@.len() {
                        (members@[k].0@, json_view(members@[k].1))
                    } else {
                        (Seq::empty(), JsonView::Null)
                    },
            ),
        ),
    }
}

impl View for Json {
    type V = JsonView;

    open spec fn view(&self) -> JsonView {
        json_view(*self)
    }
}

/// JSON insignificant whitespace.
pub open spec fn is_ws(c: char) -> bool {
    c == ' ' || c == '\t' || c == '\n' || c == '\r'
}

/// An ASCII decimal digit.
pub open spec fn is_digit(c: char) -> bool {
    48 <= c as u32 <= 57
}

/// Numerical value of a decimal digit.
pub open spec fn digit_val(c: char) -> int {
    c as u32 - 48
}

/// An ASCII hexadecimal digit.
pub open spec fn is_hex(c: char) -> bool {
    ||| 48 <= c as u32 <= 57
    ||| 65 <= c as u32 <= 70
    ||| 97 <= c as u32 <= 102
}

/// Numerical value of a hexadecimal digit.
pub open spec fn hex_val(c: char) -> u32 {
    if 48 <= c as u32 <= 57 {
        (c as u32 - 48) as u32
    } else if 65 <= c as u32 <= 70 {
        (c as u32 - 55) as u32
    } else {
        (c as u32 - 87) as u32
    }
}

/// First index at or after `i` that does not hold whitespace.
pub open spec fn sp_skip_ws(s: Seq<char>, i: int) -> int
    decreases s.len() - i,
{
    if 0 <= i < s.len() && is_ws(s[i]) {
        sp_skip_ws(s, i + 1)
    } else {
        i
    }
}

/// First index at or after `i` that does not hold a decimal digit.
pub open spec fn sp_digits_end(s: Seq<char>, i: int) -> int
    decreases s.len() - i,
{
    if 0 <= i < s.len() && is_digit(s[i]) {
        sp_digits_end(s, i + 1)
    } else {
        i
    }
}

/// Value of the decimal digits `s[i..j]`, most significant first.
pub open spec fn sp_digits_val(s: Seq<char>, i: int, j: int) -> int
    decreases j - i,
{
    if i < j {
        sp_digits_val(s, i, j - 1) * 10 + digit_val(s[j - 1])
    } else {
        0
    }
}

/// Value of the four hexadecimal digits at `i`, or `None` if the text
/// does not hold four hexadecimal digits there.
pub open spec fn sp_hex4(s: Seq<char>, i: int) -> Option<u32> {
    if 0 <= i && i + 4 <= s.len() && is_hex(s[i]) && is_hex(s[i + 1]) && is_hex(s[i + 2])
        && is_hex(s[i + 3]) {
        Some(
            (hex_val(s[i]) * 0x1000 + hex_val(s[i + 1]) * 0x100 + hex_val(s[i + 2]) * 0x10
                + hex_val(s[i + 3])) as u32,
        )
    } else {
        None
    }
}

/// Decode one string escape. `i` is the index of the character after
/// the backslash; the result is the decoded character and the index
/// after the escape. A `\u` escape carrying a high surrogate must be
/// followed by a low-surrogate `\u` escape, as in source JSON; a lone
/// surrogate is malformed.
pub open spec fn sp_escape(s: Seq<char>, i: int) -> Option<(char, int)> {
    if !(0 <= i < s.len()) {
        None
    } else if s[i] == '"' {
        Some(('"', i + 1))
    } else if s[i] == '\\' {
        Some(('\\', i + 1))
    } else if s[i] == '/' {
        Some(('/', i + 1))
    } else if s[i] == 'b' {
        Some(('\u{0008}', i + 1))
    } else if s[i] == 'f' {
        Some(('\u{000C}', i + 1))
    } else if s[i] == 'n' {
        Some(('\n', i + 1))
    } else if s[i] == 'r' {
        Some(('\r', i + 1))
    } else if s[i] == 't' {
        Some(('\t', i + 1))
    } else if s[i] == 'u' {
        match sp_hex4(s, i + 1) {
            None => None,
            Some(code) => if 0xD800 <= code <= 0xDBFF {
                if i + 6 < s.len() && s[i + 5] == '\\' && s[i + 6] == 'u' {
                    match sp_hex4(s, i + 7) {
                        None => None,
                        Some(low) => if 0xDC00 <= low <= 0xDFFF {
                            Some(
                                (
                                    (0x10000 + (code - 0xD800) * 0x400 + (low - 0xDC00)) as char,
                                    i + 11,
                                ),
                            )
                        } else {
                            None
                        },
                    }
                } else {
                    None
                }
            } else if 0xDC00 <= code <= 0xDFFF {
                None
            } else {
                Some((code as char, i + 5))
            },
        }
    } else {
        None
    }
}

/// Decode a string body. `i` is the index after the opening quote; the
/// result is the decoded characters and the index after the closing
/// quote. Raw control characters are malformed, as in source JSON.
pub open spec fn sp_string_body(s: Seq<char>, i: int) -> Option<(Seq<char>, int)>
    decreases s.len() - i,
{
    if !(0 <= i < s.len()) {
        None
    } else if s[i] == '"' {
        Some((Seq::empty(), i + 1))
    } else if s[i] == '\\' {
        match sp_escape(s, i + 1) {
            None => None,
            Some((c, j)) => if j <= i || j > s.len() {
                None
            } else {
                match sp_string_body(s, j) {
                    None => None,
                    Some((rest, end)) => Some((seq![c] + rest, end)),
                }
            },
        }
    } else if (s[i] as u32) < 0x20 {
        None
    } else {
        match sp_string_body(s, i + 1) {
            None => None,
            Some((rest, end)) => Some((seq![s[i]] + rest, end)),
        }
    }
}

/// Decode a number starting at `i` (a minus sign or a digit). The full
/// JSON number syntax is consumed; the value is kept only when the
/// number is a non-negative integer fitting a `u64`.
pub open spec fn sp_number(s: Seq<char>, i: int) -> Option<(Option<u64>, int)> {
    let neg = 0 <= i < s.len() && s[i] == '-';
    let i1 = if neg {
        i + 1
    } else {
        i
    };
    if !(0 <= i1 < s.len() && is_digit(s[i1])) {
        None
    } else {
        // A leading zero must stand alone, as in source JSON.
        let int_end = if s[i1] == '0' {
            i1 + 1
        } else {
            sp_digits_end(s, i1)
        };
        sp_number_frac(s, i1, int_end, neg)
    }
}

/// Continue a number after its integer part: an optional fraction.
pub open spec fn sp_number_frac(s: Seq<char>, i1: int, int_end: int, neg: bool) -> Option<
    (Option<u64>, int),
> {
    if int_end < s.len() && s[int_end] == '.' {
        if int_end + 1 < s.len() && is_digit(s[int_end + 1]) {
            sp_number_exp(s, i1, int_end, sp_digits_end(s, int_end + 1), neg, true)
        } else {
            None
        }
    } else {
        sp_number_exp(s, i1, int_end, int_end, neg, false)
    }
}

/// Continue a number after its fraction: an optional exponent.
pub open spec fn sp_number_exp(
    s: Seq<char>,
    i1: int,
    int_end: int,
    j: int,
    neg: bool,
    inexact: bool,
) -> Option<(Option<u64>, int)> {
    if j < s.len() && (s[j] == 'e' || s[j] == 'E') {
        let j1 = if j + 1 < s.len() && (s[j + 1] == '+' || s[j + 1] == '-') {
            j + 2
        } else {
            j + 1
        };
        if j1 < s.len() && is_digit(s[j1]) {
            Some((num_value(s, i1, int_end, neg, true), sp_digits_end(s, j1)))
        } else {
            None
        }
    } else {
        Some((num_value(s, i1, int_end, neg, inexact), j))
    }
}

/// The materialized value of a number whose integer digits are
/// `s[i1..int_end]`: absent when the number has a fraction or exponent,
/// is negative, or overflows a `u64`. A negative zero still reads as
/// zero.
pub open spec fn num_value(s: Seq<char>, i1: int, int_end: int, neg: bool, inexact: bool) -> Option<
    u64,
> {
    if inexact {
        None
    } else {
        let v = sp_digits_val(s, i1, int_end);
        if neg && v != 0 {
            None
        } else if v > u64::MAX {
            None
        } else {
            Some(v as u64)
        }
    }
}

/// Decode one value starting exactly at `i` (no leading whitespace),
/// with `d` levels of container nesting still allowed. The result is
/// the value and the index just after it.
pub open spec fn sp_value(s: Seq<char>, i: int, d: u32) -> Option<(JsonView, int)>
    decreases s.len() - i, 2int,
{
    if !(0 <= i < s.len()) {
        None
    } else {
        let c = s[i];
        if c == 'n' {
            if i + 4 <= s.len() && s[i + 1] == 'u' && s[i + 2] == 'l' && s[i + 3] == 'l' {
                Some((JsonView::Null, i + 4))
            } else {
                None
            }
        } else if c == 't' {
            if i + 4 <= s.len() && s[i + 1] == 'r' && s[i + 2] == 'u' && s[i + 3] == 'e' {
                Some((JsonView::Bool(true), i + 4))
            } else {
                None
            }
        } else if c == 'f' {
            if i + 5 <= s.len() && s[i + 1] == 'a' && s[i + 2] == 'l' && s[i + 3] == 's' && s[i + 4]
                == 'e' {
                Some((JsonView::Bool(false), i + 5))
            } else {
                None
            }
        } else if c == '"' {
            match sp_string_body(s, i + 1) {
                None => None,
                Some((t, j)) => Some((JsonView::Str(t), j)),
            }
        } else if c == '-' || is_digit(c) {
            match sp_number(s, i) {
                None => None,
                Some((n, j)) => Some((JsonView::Num(n), j)),
            }
        } else if c == '[' {
            if d == 0 {
                None
            } else {
                let i2 = sp_skip_ws(s, i + 1);
                if i2 <= i || i2 > s.len() {
                    None
                } else if i2 < s.len() && s[i2] == ']' {
                    Some((JsonView::Arr(Seq::empty()), i2 + 1))
                } else {
                    match sp_elems(s, i2, (d - 1) as u32) {
                        None => None,
                        Some((vs, j)) => Some((JsonView::Arr(vs), j)),
                    }
                }
            }
        } else if c == '{' {
            if d == 0 {
                None
            } else {
                let i2 = sp_skip_ws(s, i + 1);
                if i2 <= i || i2 > s.len() {
                    None
                } else if i2 < s.len() && s[i2] == '}' {
                    Some((JsonView::Obj(Seq::empty()), i2 + 1))
                } else {
                    match sp_members(s, i2, (d - 1) as u32) {
                        None => None,
                        Some((ms, j)) => Some((JsonView::Obj(ms), j)),
                    }
                }
            }
        } else {
            None
        }
    }
}

/// Decode the elements of an array from the first element (at `i`,
/// whitespace already skipped) through the closing bracket.
pub open spec fn sp_elems(s: Seq<char>, i: int, d: u32) -> Option<(Seq<JsonView>, int)>
    decreases s.len() - i, 3int,
{
    match sp_value(s, i, d) {
        None => None,
        Some((v, j)) => if j <= i {
            None
        } else {
            let k = sp_skip_ws(s, j);
            if k < j {
                None
            } else if k < s.len() && s[k] == ',' {
                let k2 = sp_skip_ws(s, k + 1);
                if k2 <= i || k2 > s.len() {
                    None
                } else {
                    match sp_elems(s, k2, d) {
                        None => None,
                        Some((rest, end)) => Some((seq![v] + rest, end)),
                    }
                }
            } else if k < s.len() && s[k] == ']' {
                Some((seq![v], k + 1))
            } else {
                None
            }
        },
    }
}

/// Decode the members of an object from the first key (at `i`,
/// whitespace already skipped) through the closing brace.
pub open spec fn sp_members(s: Seq<char>, i: int, d: u32) -> Option<
    (Seq<(Seq<char>, JsonView)>, int),
>
    decreases s.len() - i, 3int,
{
    if !(0 <= i < s.len() && s[i] == '"') {
        None
    } else {
        match sp_string_body(s, i + 1) {
            None => None,
            Some((key, j)) => if j <= i {
                None
            } else {
                let k = sp_skip_ws(s, j);
                if k < j || !(k < s.len() && s[k] == ':') {
                    None
                } else {
                    let k2 = sp_skip_ws(s, k + 1);
                    if k2 <= i || k2 > s.len() {
                        None
                    } else {
                        match sp_value(s, k2, d) {
                            None => None,
                            Some((v, j2)) => if j2 <= k2 {
                                None
                            } else {
                                let k3 = sp_skip_ws(s, j2);
                                if k3 < j2 {
                                    None
                                } else if k3 < s.len() && s[k3] == ',' {
                                    let k4 = sp_skip_ws(s, k3 + 1);
                                    if k4 <= i || k4 > s.len() {
                                        None
                                    } else {
                                        match sp_members(s, k4, d) {
                                            None => None,
                                            Some((rest, end)) => Some(
                                                (seq![(key, v)] + rest, end),
                                            ),
                                        }
                                    }
                                } else if k3 < s.len() && s[k3] == '}' {
                                    Some((seq![(key, v)], k3 + 1))
                                } else {
                                    None
                                }
                            },
                        }
                    }
                }
            },
        }
    }
}

/// Decode a whole text: one value, surrounded only by whitespace.
pub open spec fn sp_json(s: Seq<char>) -> Option<JsonView> {
    match sp_value(s, sp_skip_ws(s, 0), DEPTH_LIMIT) {
        None => None,
        Some((v, j)) => if sp_skip_ws(s, j) == s.len() {
            Some(v)
        } else {
            None
        },
    }
}

/// The value bound to `key` among object members, the last binding
/// winning, as when members are folded into a map.
pub open spec fn obj_get(ms: Seq<(Seq<char>, JsonView)>, key: Seq<char>) -> Option<JsonView>
    decreases ms.len(),
{
    if ms.len() == 0 {
        None
    } else if ms.last().0 == key {
        Some(ms.last().1)
    } else {
        obj_get(ms.drop_last(), key)
    }
}

/// The value bound to `key`, when `v` is an object that binds it.
pub open spec fn jv_get(v: JsonView, key: Seq<char>) -> Option<JsonView> {
    match v {
        JsonView::Obj(ms) => obj_get(ms, key),
        _ => None,
    }
}

/// Relies on String::push: appends exactly the given character.
#[verifier::external_body]
pub(crate) fn push_char(s: &mut String, c: char)
    ensures
        final(s)@ == old(s)@.push(c),
{
    s.push(c);
}

/// Relies on char::from_u32: `Some` exactly on Unicode scalar values —
/// codes that are not surrogates and are at most 0x10FFFF — and the
/// returned character casts back to the code it was made from.
#[verifier::external_body]
fn char_from_u32(code: u32) -> (r: Option<char>)
    ensures
        r matches Some(c) ==> c as u32 == code,
        (r is Some) <==> (code < 0xD800 || (0xDFFF < code && code <= 0x10FFFF)),
{
    char::from_u32(code)
}

/// The characters of a string slice, one vector entry per character.
fn str_to_chars(text: &str) -> (r: Vec<char>)
    ensures
        r@ == text@,
{
    let n = text.unicode_len();
    let mut out: Vec<char> = Vec::new();
    let mut k: usize = 0;
    while k < n
        invariant
            n == text@.len(),
            k <= n,
            out@.len() == k,
            forall|t: int| 0 <= t < k ==> out@[t] == text@[t],
        decreases n - k,
    {
        out.push(text.get_char(k));
        k = k + 1;
    }
    proof {
        assert(out@ =~= text@);
    }
    out
}

/// Whether `c` is JSON whitespace.
fn ws_char(c: char) -> (b: bool)
    ensures
        b == is_ws(c),
{
    c == ' ' || c == '\t' || c == '\n' || c == '\r'
}

/// Whether `c` is a decimal digit.
fn digit_char(c: char) -> (b: bool)
    ensures
        b == is_digit(c),
{
    let u = c as u32;
    48 <= u && u <= 57
}

/// Whether `c` is a hexadecimal digit.
fn hex_char(c: char) -> (b: bool)
    ensures
        b == is_hex(c),
{
    let u = c as u32;
    (48 <= u && u <= 57) || (65 <= u && u <= 70) || (97 <= u && u <= 102)
}

/// Numerical value of a hexadecimal digit.
fn hex_char_val(c: char) -> (v: u32)
    requires
        is_hex(c),
    ensures
        v == hex_val(c),
{
    let u = c as u32;
    if 48 <= u && u <= 57 {
        u - 48
    } else if 65 <= u && u <= 70 {
        u - 55
    } else {
        u - 87
    }
}

/// Skip whitespace from `i`.
fn p_skip_ws(s: &Vec<char>, i: usize) -> (r: usize)
    requires
        i <= s@.len(),
    ensures
        r as int == sp_skip_ws(s@, i as int),
        i <= r <= s@.len(),
{
    let mut j = i;
    while j < s.len() && ws_char(s[j])
        invariant
            i <= j <= s@.len(),
            sp_skip_ws(s@, i as int) == sp_skip_ws(s@, j as int),
        decreases s@.len() - j,
    {
        j = j + 1;
    }
    j
}

/// Scan past decimal digits from `i`.
fn p_digits_end(s: &Vec<char>, i: usize) -> (r: usize)
    requires
        i <= s@.len(),
    ensures
        r as int == sp_digits_end(s@, i as int),
        i <= r <= s@.len(),
        forall|t: int| i <= t < r ==> is_digit(s@[t]),
{
    let mut j = i;
    while j < s.len() && digit_char(s[j])
        invariant
            i <= j <= s@.len(),
            sp_digits_end(s@, i as int) == sp_digits_end(s@, j as int),
            forall|t: int| i <= t < j ==> is_digit(s@[t]),
        decreases s@.len() - j,
    {
        j = j + 1;
    }
    j
}

/// Value of the digits `s[i..j]` when it fits a `u64`.
fn p_digits_u64(s: &Vec<char>, i: usize, j: usize) -> (r: Option<u64>)
    requires
        i <= j <= s@.len(),
        forall|t: int| i <= t < j ==> is_digit(s@[t]),
    ensures
        (match r {
            Some(v) => v as int == sp_digits_val(s@, i as int, j as int),
            None => sp_digits_val(s@, i as int, j as int) > u64::MAX,
        }),
{
    let mut acc: u64 = 0;
    let mut fits = true;
    let mut k = i;
    while k < j
        invariant
            i <= k <= j <= s@.len(),
            forall|t: int| i <= t < j ==> is_digit(s@[t]),
            fits ==> acc as int == sp_digits_val(s@, i as int, k as int),
            !fits ==> sp_digits_val(s@, i as int, k as int) > u64::MAX,
        decreases j - k,
    {
        let c = s[k];
        proof {
            assert(is_digit(s@[k as int]));
        }
        let d: u64 = (c as u32 - 48) as u64;
        proof {
            assert(d as int == digit_val(s@[k as int]));
            assert(sp_digits_val(s@, i as int, k as int + 1) == sp_digits_val(
                s@,
                i as int,
                k as int,
            ) * 10 + digit_val(s@[k as int]));
        }
        if fits {
            if acc < 1844674407370955161 || (acc == 1844674407370955161 && d <= 5) {
                acc = acc * 10 + d;
            } else {
                fits = false;
            }
        }
        k = k + 1;
    }
    if fits {
        Some(acc)
    } else {
        None
    }
}

/// Decode four hexadecimal digits at `i`.
fn p_hex4(s: &Vec<char>, i: usize) -> (r: Option<u32>)
    requires
        i <= s@.len(),
    ensures
        r == sp_hex4(s@, i as int),
        r is Some ==> i + 4 <= s@.len(),
{
    if s.len() - i >= 4 && hex_char(s[i]) && hex_char(s[i + 1]) && hex_char(s[i + 2]) && hex_char(
        s[i + 3],
    ) {
        let v = hex_char_val(s[i]) * 0x1000 + hex_char_val(s[i + 1]) * 0x100 + hex_char_val(
            s[i + 2],
        ) * 0x10 + hex_char_val(s[i + 3]);
        Some(v)
    } else {
        None
    }
}

/// Decode one string escape; `i` is the index after the backslash.
fn p_escape(s: &Vec<char>, i: usize) -> (r: Option<(char, usize)>)
    requires
        i <= s@.len(),
    ensures
        (match r {
            Some((c, j)) => sp_escape(s@, i as int) matches Some(p) && p.0 == c && p.1 == j as int
                && i < j <= s@.len(),
            None => sp_escape(s@, i as int) is None,
        }),
{
    if i >= s.len() {
        return None;
    }
    let c = s[i];
    if c == '"' {
        Some(('"', i + 1))
    } else if c == '\\' {
        Some(('\\', i + 1))
    } else if c == '/' {
        Some(('/', i + 1))
    } else if c == 'b' {
        Some(('\u{0008}', i + 1))
    } else if c == 'f' {
        Some(('\u{000C}', i + 1))
    } else if c == 'n' {
        Some(('\n', i + 1))
    } else if c == 'r' {
        Some(('\r', i + 1))
    } else if c == 't' {
        Some(('\t', i + 1))
    } else if c == 'u' {
        match p_hex4(s, i + 1) {
            None => None,
            Some(code) => {
                if 0xD800 <= code && code <= 0xDBFF {
                    if s.len() - i > 6 && s[i + 5] == '\\' && s[i + 6] == 'u' {
                        match p_hex4(s, i + 7) {
                            None => None,
                            Some(low) => {
                                if 0xDC00 <= low && low <= 0xDFFF {
                                    let scalar = 0x10000 + (code - 0xD800) * 0x400 + (low
                                        - 0xDC00);
                                    let ch = char_from_u32(scalar).unwrap();
                                    proof {
                                        vstd::utf8::char_u32_cast(ch, scalar);
                                    }
                                    Some((ch, i + 11))
                                } else {
                                    None
                                }
                            },
                        }
                    } else {
                        None
                    }
                } else if 0xDC00 <= code && code <= 0xDFFF {
                    None
                } else {
                    let ch = char_from_u32(code).unwrap();
                    proof {
                        vstd::utf8::char_u32_cast(ch, code);
                    }
                    Some((ch, i + 5))
                }
            },
        }
    } else {
        None
    }
}

/// Decode a string body; `i` is the index after the opening quote.
fn p_string_body(s: &Vec<char>, i: usize) -> (r: Option<(String, usize)>)
    requires
        i <= s@.len(),
    ensures
        (match r {
            Some(t) => sp_string_body(s@, i as int) matches Some(p) && p.0 == t.0@ && p.1
                == t.1 as int && i < t.1 <= s@.len(),
            None => sp_string_body(s@, i as int) is None,
        }),
{
    let mut out = String::new();
    let mut j = i;
    loop
        invariant
            i <= j <= s@.len(),
            (match sp_string_body(s@, j as int) {
                Some(p) => sp_string_body(s@, i as int) matches Some(q) && q.0 == out@ + p.0
                    && q.1 == p.1,
                None => sp_string_body(s@, i as int) is None,
            }),
        decreases s@.len() - j,
    {
        if j == s.len() {
            return None;
        }
        let c = s[j];
        if c == '"' {
            proof {
                assert(out@ + Seq::<char>::empty() =~= out@);
            }
            return Some((out, j + 1));
        } else if c == '\\' {
            match p_escape(s, j + 1) {
                None => {
                    return None;
                },
                Some((e, j2)) => {
                    let ghost prev = out@;
                    push_char(&mut out, e);
                    proof {
                        if let Some(p) = sp_string_body(s@, j2 as int) {
                            assert(sp_string_body(s@, j as int) == Some(
                                (seq![e] + p.0, p.1),
                            ));
                            assert(prev + (seq![e] + p.0) =~= out@ + p.0);
                        }
                    }
                    j = j2;
                },
            }
        } else if (c as u32) < 0x20 {
            return None;
        } else {
            let ghost prev = out@;
            push_char(&mut out, c);
            proof {
                if let Some(p) = sp_string_body(s@, j as int + 1) {
                    assert(sp_string_body(s@, j as int) == Some((seq![c] + p.0, p.1)));
                    assert(prev + (seq![c] + p.0) =~= out@ + p.0);
                }
            }
            j = j + 1;
        }
    }
}

/// Scanning digits never moves backwards.
proof fn lemma_digits_end_ge(s: Seq<char>, i: int)
    requires
        0 <= i,
    ensures
        sp_digits_end(s, i) >= i,
    decreases s.len() - i,
{
    if i < s.len() && is_digit(s[i]) {
        lemma_digits_end_ge(s, i + 1);
    }
}

/// Decode a number starting at `i`.
#[verifier::rlimit(50)]
fn p_number(s: &Vec<char>, i: usize) -> (r: Option<(Option<u64>, usize)>)
    requires
        i <= s@.len(),
    ensures
        (match r {
            Some(t) => sp_number(s@, i as int) matches Some(p) && p.0 == t.0 && p.1 == t.1 as int
                && i < t.1 <= s@.len(),
            None => sp_number(s@, i as int) is None,
        }),
{
    let neg = i < s.len() && s[i] == '-';
    let i1 = if neg {
        i + 1
    } else {
        i
    };
    if !(i1 < s.len() && digit_char(s[i1])) {
        return None;
    }
    let int_end = if s[i1] == '0' {
        i1 + 1
    } else {
        p_digits_end(s, i1)
    };
    proof {
        lemma_digits_end_ge(s@, i1 as int + 1);
        assert(int_end > i1);
        assert(sp_number(s@, i as int) == sp_number_frac(s@, i1 as int, int_end as int, neg));
    }
    let iv = p_digits_u64(s, i1, int_end);
    let mut inexact = false;
    let mut j = int_end;
    if j < s.len() && s[j] == '.' {
        if j + 1 < s.len() && digit_char(s[j + 1]) {
            j = p_digits_end(s, j + 1);
            inexact = true;
        } else {
            proof {
                assert(sp_number_frac(s@, i1 as int, int_end as int, neg) is None);
            }
            return None;
        }
    }
    proof {
        assert(sp_number_frac(s@, i1 as int, int_end as int, neg) == sp_number_exp(
            s@,
            i1 as int,
            int_end as int,
            j as int,
            neg,
            inexact,
        ));
    }
    let ghost j_mid = j as int;
    let ghost mid_inexact = inexact;
    if j < s.len() && (s[j] == 'e' || s[j] == 'E') {
        let j1 = if j + 1 < s.len() && (s[j + 1] == '+' || s[j + 1] == '-') {
            j + 2
        } else {
            j + 1
        };
        if j1 < s.len() && digit_char(s[j1]) {
            j = p_digits_end(s, j1);
            inexact = true;
            proof {
                assert(sp_number_exp(s@, i1 as int, int_end as int, j_mid, neg, mid_inexact)
                    == Some((num_value(s@, i1 as int, int_end as int, neg, true), j as int)));
            }
        } else {
            proof {
                assert(sp_number_exp(s@, i1 as int, int_end as int, j_mid, neg, mid_inexact)
                    is None);
            }
            return None;
        }
    } else {
        proof {
            assert(sp_number_exp(s@, i1 as int, int_end as int, j_mid, neg, mid_inexact) == Some(
                (num_value(s@, i1 as int, int_end as int, neg, mid_inexact), j as int),
            ));
        }
    }
    let n = if inexact {
        None
    } else {
        match iv {
            Some(v) => if neg && v != 0 {
                None
            } else {
                Some(v)
            },
            None => None,
        }
    };
    proof {
        assert(n == num_value(s@, i1 as int, int_end as int, neg, inexact));
    }
    Some((n, j))
}

/// Decode one value starting exactly at `i`.
#[verifier::rlimit(100)]
fn p_value(s: &Vec<char>, i: usize, d: u32) -> (r: Option<(Json, usize)>)
    requires
        i <= s@.len(),
    ensures
        (match r {
            Some(t) => sp_value(s@, i as int, d) matches Some(p) && p.0 == t.0@ && p.1
                == t.1 as int && i < t.1 <= s@.len(),
            None => sp_value(s@, i as int, d) is None,
        }),
    decreases s@.len() - i, 2int,
{
    if i >= s.len() {
        return None;
    }
    let c = s[i];
    if c == 'n' {
        if s.len() - i >= 4 && s[i + 1] == 'u' && s[i + 2] == 'l' && s[i + 3] == 'l' {
            Some((Json::Null, i + 4))
        } else {
            None
        }
    } else if c == 't' {
        if s.len() - i >= 4 && s[i + 1] == 'r' && s[i + 2] == 'u' && s[i + 3] == 'e' {
            Some((Json::Bool(true), i + 4))
        } else {
            None
        }
    } else if c == 'f' {
        if s.len() - i >= 5 && s[i + 1] == 'a' && s[i + 2] == 'l' && s[i + 3] == 's' && s[i + 4]
            == 'e' {
            Some((Json::Bool(false), i + 5))
        } else {
            None
        }
    } else if c == '"' {
        match p_string_body(s, i + 1) {
            None => None,
            Some((t, j)) => Some((Json::Str(t), j)),
        }
    } else if c == '-' || digit_char(c) {
        match p_number(s, i) {
            None => None,
            Some((n, j)) => Some((Json::Num(n), j)),
        }
    } else if c == '[' {
        if d == 0 {
            return None;
        }
        let i2 = p_skip_ws(s, i + 1);
        if i2 < s.len() && s[i2] == ']' {
            let items: Vec<Json> = Vec::new();
            proof {
                assert(Json::Arr(items)@ matches JsonView::Arr(a) && a =~= Seq::<
                    JsonView,
                >::empty());
            }
            Some((Json::Arr(items), i2 + 1))
        } else {
            match p_elems(s, i2, d - 1) {
                None => None,
                Some((items, j)) => {
                    proof {
                        assert(Json::Arr(items)@ matches JsonView::Arr(a) && a =~= views_of(
                            items@,
                        ));
                    }
                    Some((Json::Arr(items), j))
                },
            }
        }
    } else if c == '{' {
        if d == 0 {
            return None;
        }
        let i2 = p_skip_ws(s, i + 1);
        if i2 < s.len() && s[i2] == '}' {
            let members: Vec<(String, Json)> = Vec::new();
            proof {
                assert(Json::Obj(members)@ matches JsonView::Obj(a) && a =~= Seq::<
                    (Seq<char>, JsonView),
                >::empty());
            }
            Some((Json::Obj(members), i2 + 1))
        } else {
            match p_members(s, i2, d - 1) {
                None => None,
                Some((members, j)) => {
                    proof {
                        assert(Json::Obj(members)@ matches JsonView::Obj(a) && a =~= member_views(
                            members@,
                        ));
                    }
                    Some((Json::Obj(members), j))
                },
            }
        }
    } else {
        None
    }
}

/// Decode array elements from the first element through the closing
/// bracket.
#[verifier::rlimit(100)]
fn p_elems(s: &Vec<char>, i: usize, d: u32) -> (r: Option<(Vec<Json>, usize)>)
    requires
        i <= s@.len(),
    ensures
        (match r {
            Some(t) => sp_elems(s@, i as int, d) matches Some(p) && p.0 == views_of(t.0@) && p.1
                == t.1 as int && i < t.1 <= s@.len(),
            None => sp_elems(s@, i as int, d) is None,
        }),
    decreases s@.len() - i, 3int,
{
    let mut items: Vec<Json> = Vec::new();
    let mut j = i;
    proof {
        assert(views_of(items@) =~= Seq::<JsonView>::empty());
        if let Some(p) = sp_elems(s@, i as int, d) {
            assert(Seq::<JsonView>::empty() + p.0 =~= p.0);
        }
    }
    loop
        invariant
            i <= j <= s@.len(),
            (match sp_elems(s@, j as int, d) {
                Some(p) => sp_elems(s@, i as int, d) matches Some(q) && q.0 == views_of(items@)
                    + p.0 && q.1 == p.1,
                None => sp_elems(s@, i as int, d) is None,
            }),
        decreases s@.len() - j,
    {
        let rv = p_value(s, j, d);
        match rv {
            None => {
                return None;
            },
            Some((v, j2)) => {
                let k = p_skip_ws(s, j2);
                if k < s.len() && s[k] == ',' {
                    let k2 = p_skip_ws(s, k + 1);
                    let ghost prev = items@;
                    items.push(v);
                    proof {
                        assert(views_of(items@) =~= views_of(prev).push(v@));
                        if let Some(p) = sp_elems(s@, k2 as int, d) {
                            assert(sp_elems(s@, j as int, d) == Some(
                                (seq![v@] + p.0, p.1),
                            ));
                            assert(views_of(prev) + (seq![v@] + p.0) =~= views_of(items@)
                                + p.0);
                        }
                    }
                    j = k2;
                } else if k < s.len() && s[k] == ']' {
                    let ghost prev = items@;
                    items.push(v);
                    proof {
                        assert(views_of(items@) =~= views_of(prev).push(v@));
                        assert(sp_elems(s@, j as int, d) == Some((seq![v@], k as int + 1)));
                        assert(views_of(prev) + seq![v@] =~= views_of(items@));
                    }
                    return Some((items, k + 1));
                } else {
                    proof {
                        assert(sp_elems(s@, j as int, d) is None);
                    }
                    return None;
                }
            },
        }
    }
}

/// Decode object members from the first key through the closing brace.
#[verifier::rlimit(100)]
fn p_members(s: &Vec<char>, i: usize, d: u32) -> (r: Option<(Vec<(String, Json)>, usize)>)
    requires
        i <= s@.len(),
    ensures
        (match r {
            Some(t) => sp_members(s@, i as int, d) matches Some(p) && p.0 == member_views(t.0@)
                && p.1 == t.1 as int && i < t.1 <= s@.len(),
            None => sp_members(s@, i as int, d) is None,
        }),
    decreases s@.len() - i, 3int,
{
    let mut members: Vec<(String, Json)> = Vec::new();
    let mut j = i;
    proof {
        assert(member_views(members@) =~= Seq::<(Seq<char>, JsonView)>::empty());
        if let Some(p) = sp_members(s@, i as int, d) {
            assert(Seq::<(Seq<char>, JsonView)>::empty() + p.0 =~= p.0);
        }
    }
    loop
        invariant
            i <= j <= s@.len(),
            (match sp_members(s@, j as int, d) {
                Some(p) => sp_members(s@, i as int, d) matches Some(q) && q.0 == member_views(
                    members@,
                ) + p.0 && q.1 == p.1,
                None => sp_members(s@, i as int, d) is None,
            }),
        decreases s@.len() - j,
    {
        if !(j < s.len() && s[j] == '"') {
            return None;
        }
        let rk = p_string_body(s, j + 1);
        match rk {
            None => {
                return None;
            },
            Some((key, j2)) => {
                let k = p_skip_ws(s, j2);
                if !(k < s.len() && s[k] == ':') {
                    return None;
                }
                let k2 = p_skip_ws(s, k + 1);
                let rv = p_value(s, k2, d);
                match rv {
                    None => {
                        return None;
                    },
                    Some((v, j3)) => {
                        let k3 = p_skip_ws(s, j3);
                        if k3 < s.len() && s[k3] == ',' {
                            let k4 = p_skip_ws(s, k3 + 1);
                            let ghost prev = members@;
                            let ghost kv = (key@, v@);
                            members.push((key, v));
                            proof {
                                assert(member_views(members@) =~= member_views(prev).push(kv));
                                if let Some(p) = sp_members(s@, k4 as int, d) {
                                    assert(sp_members(s@, j as int, d) == Some(
                                        (seq![kv] + p.0, p.1),
                                    ));
                                    assert(member_views(prev) + (seq![kv] + p.0)
                                        =~= member_views(members@) + p.0);
                                }
                            }
                            j = k4;
                        } else if k3 < s.len() && s[k3] == '}' {
                            let ghost prev = members@;
                            let ghost kv = (key@, v@);
                            members.push((key, v));
                            proof {
                                assert(member_views(members@) =~= member_views(prev).push(kv));
                                assert(sp_members(s@, j as int, d) == Some(
                                    (seq![kv], k3 as int + 1),
                                ));
                                assert(member_views(prev) + seq![kv] =~= member_views(members@));
                            }
                            return Some((members, k3 + 1));
                        } else {
                            proof {
                                assert(sp_members(s@, j as int, d) is None);
                            }
                            return None;
                        }
                    },
                }
            },
        }
    }
}

/// Decode a whole JSON text: one value surrounded only by whitespace,
/// exactly as [`sp_json`] describes; `None` on any malformed text.
pub fn parse_json(text: &str) -> (r: Option<Json>)
    ensures
        (match r {
            Some(v) => sp_json(text@) == Some(v@),
            None => sp_json(text@) is None,
        }),
{
    let chars = str_to_chars(text);
    let i0 = p_skip_ws(&chars, 0);
    match p_value(&chars, i0, DEPTH_LIMIT) {
        None => None,
        Some((v, j)) => {
            let e = p_skip_ws(&chars, j);
            if e == chars.len() {
                Some(v)
            } else {
                None
            }
        },
    }
}

impl Json {
    /// The value bound to `key` when this value is an object binding
    /// it; the last binding wins, as in a map built from the members.
    pub fn get<'a>(&'a self, key: &str) -> (r: Option<&'a Json>)
        ensures
            (match r {
                Some(v) => jv_get(self@, key@) == Some(v@),
                None => jv_get(self@, key@) is None,
            }),
    {
        match self {
            Json::Obj(members) => {
                proof {
                    assert(self@ matches JsonView::Obj(a) && a =~= member_views(members@));
                }
                let target = String::from_str(key);
                let mut t = members.len();
                proof {
                    assert(member_views(members@).subrange(0, t as int) =~= member_views(
                        members@,
                    ));
                }
                while t > 0
                    invariant
                        t <= members@.len(),
                        target@ == key@,
                        obj_get(member_views(members@), key@) == obj_get(
                            member_views(members@).subrange(0, t as int),
                            key@,
                        ),
                        (self is Obj),
                        members == self->Obj_0,
                    decreases t,
                {
                    let idx = t - 1;
                    let ghost pre = member_views(members@).subrange(0, t as int);
                    proof {
                        assert(pre.len() == t as int);
                        assert(pre.last() == (members@[idx as int].0@, json_view(
                            members@[idx as int].1,
                        )));
                        assert(pre.drop_last() =~= member_views(members@).subrange(
                            0,
                            idx as int,
                        ));
                    }
                    let hit = members[idx].0.eq(&target);
                    if hit {
                        proof {
                            assert(pre.last().0 == key@);
                            assert(obj_get(pre, key@) == Some(pre.last().1));
                            assert(self@ matches JsonView::Obj(a) && a =~= member_views(
                                members@,
                            ));
                            assert(jv_get(self@, key@) == Some(members@[idx as int].1@));
                        }
                        return Some(&members[idx].1);
                    }
                    proof {
                        assert(pre.last().0 != key@);
                        assert(obj_get(pre, key@) == obj_get(pre.drop_last(), key@));
                    }
                    t = idx;
                }
                proof {
                    assert(member_views(members@).subrange(0, 0) =~= Seq::<
                        (Seq<char>, JsonView),
                    >::empty());
                }
                None
            },
            _ => None,
        }
    }
}

} // verus!
