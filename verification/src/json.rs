use vstd::prelude::*;

use crate::text::{hex_val, push_char, spec_hex_val, spec_is_hex_digit};

verus! {

/// One structured value of the source-file format.
#[derive(Debug)]
pub enum JsonValue {
    Null,
    Bool(bool),
    /// A number written without fraction or exponent whose value fits a
    /// signed 64-bit integer.
    Int(i64),
    /// Any other well-formed number. The strategy schema never needs one,
    /// so only its presence is kept.
    OtherNum,
    Str(String),
    Arr(Vec<JsonValue>),
    Obj(Vec<(String, JsonValue)>),
}

/// Mathematical model of a structured value.
#[verifier::ext_equal]
pub ghost enum JsonModel {
    Null,
    Bool(bool),
    Int(i64),
    OtherNum,
    Str(Seq<char>),
    Arr(Seq<JsonModel>),
    Obj(Seq<(Seq<char>, JsonModel)>),
}

/// The model of a parsed value.
pub open spec fn json_view(v: JsonValue) -> JsonModel
    decreases v,
{
    match v {
        JsonValue::Null => JsonModel::Null,
        JsonValue::Bool(b) => JsonModel::Bool(b),
        JsonValue::Int(n) => JsonModel::Int(n),
        JsonValue::OtherNum => JsonModel::OtherNum,
        JsonValue::Str(s) => JsonModel::Str(s@),
        JsonValue::Arr(items) => JsonModel::Arr(
            Seq::new(
                items@.len(),
                |i: int|
                    if 0 <= i < items.len() {
                        json_view(items[i])
                    } else {
                        JsonModel::Null
                    },
            ),
        ),
        JsonValue::Obj(fields) => JsonModel::Obj(
            Seq::new(
                fields@.len(),
                |i: int|
                    if 0 <= i < fields.len() {
                        (fields[i].0@, json_view(fields[i].1))
                    } else {
                        (Seq::<char>::empty(), JsonModel::Null)
                    },
            ),
        ),
    }
}

/// The format's whitespace characters.
pub open spec fn spec_is_ws(c: char) -> bool {
    c == ' ' || c == '\t' || c == '\n' || c == '\r'
}

/// A decimal digit.
pub open spec fn spec_is_digit(c: char) -> bool {
    48 <= c as u32 && c as u32 <= 57
}

/// The first position at or after `i` that does not hold whitespace.
pub open spec fn spec_skip_ws(s: Seq<char>, i: int) -> int
    decreases s.len() - i,
{
    if 0 <= i < s.len() && spec_is_ws(s[i]) {
        spec_skip_ws(s, i + 1)
    } else {
        i
    }
}

pub proof fn lemma_skip_ws_bounds(s: Seq<char>, i: int)
    requires
        0 <= i <= s.len(),
    ensures
        i <= spec_skip_ws(s, i) <= s.len(),
    decreases s.len() - i,
{
    if i < s.len() && spec_is_ws(s[i]) {
        lemma_skip_ws_bounds(s, i + 1);
    }
}

/// The first position at or after `i` that does not hold a digit.
pub open spec fn spec_skip_digits(s: Seq<char>, i: int) -> int
    decreases s.len() - i,
{
    if 0 <= i < s.len() && spec_is_digit(s[i]) {
        spec_skip_digits(s, i + 1)
    } else {
        i
    }
}

pub proof fn lemma_skip_digits_bounds(s: Seq<char>, i: int)
    requires
        0 <= i <= s.len(),
    ensures
        i <= spec_skip_digits(s, i) <= s.len(),
    decreases s.len() - i,
{
    if i < s.len() && spec_is_digit(s[i]) {
        lemma_skip_digits_bounds(s, i + 1);
    }
}

/// The character a simple escape stands for, if the escape is recognized.
pub open spec fn spec_escape_char(c: char) -> Option<char> {
    if c == '"' {
        Some('"')
    } else if c == '\\' {
        Some('\\')
    } else if c == '/' {
        Some('/')
    } else if c == 'b' {
        Some('\u{0008}')
    } else if c == 'f' {
        Some('\u{000C}')
    } else if c == 'n' {
        Some('\n')
    } else if c == 'r' {
        Some('\r')
    } else if c == 't' {
        Some('\t')
    } else {
        None
    }
}

/// Four hexadecimal digits starting at `i`, read as one number.
pub open spec fn spec_u_hex(s: Seq<char>, i: int) -> Option<int> {
    if 0 <= i && i + 4 <= s.len() && spec_is_hex_digit(s[i]) && spec_is_hex_digit(s[i + 1])
        && spec_is_hex_digit(s[i + 2]) && spec_is_hex_digit(s[i + 3]) {
        Some(
            4096 * spec_hex_val(s[i]) + 256 * spec_hex_val(s[i + 1]) + 16 * spec_hex_val(s[i + 2])
                + spec_hex_val(s[i + 3]),
        )
    } else {
        None
    }
}

/// A `\u` escape whose digits start at `i`: either one unit outside the
/// surrogate range, or a surrogate pair combined into one scalar. Yields
/// the character and the position after the digits.
pub open spec fn spec_u_escape(s: Seq<char>, i: int) -> Option<(char, int)> {
    match spec_u_hex(s, i) {
        None => None,
        Some(code) => {
            if 0xD800 <= code <= 0xDBFF {
                if i + 6 <= s.len() && s[i + 4] == '\\' && s[i + 5] == 'u' {
                    match spec_u_hex(s, i + 6) {
                        Some(low) => {
                            if 0xDC00 <= low <= 0xDFFF {
                                Some(
                                    (
                                        ((0x10000 + (code - 0xD800) * 0x400 + (low
                                            - 0xDC00)) as u32) as char,
                                        i + 10,
                                    ),
                                )
                            } else {
                                None
                            }
                        },
                        None => None,
                    }
                } else {
                    None
                }
            } else if 0xDC00 <= code <= 0xDFFF {
                None
            } else {
                Some(((code as u32) as char, i + 4))
            }
        },
    }
}

/// The body of a string whose opening quote stands just before `i`: the
/// decoded characters and the position after the closing quote. Raw control
/// characters and malformed escapes are rejected.
pub open spec fn spec_string_body(s: Seq<char>, i: int) -> Option<(Seq<char>, int)>
    decreases s.len() - i,
{
    if !(0 <= i < s.len()) {
        None
    } else if s[i] == '"' {
        Some((Seq::empty(), i + 1))
    } else if s[i] == '\\' {
        if i + 1 < s.len() {
            if s[i + 1] == 'u' {
                match spec_u_escape(s, i + 2) {
                    Some((c, j)) => {
                        if i + 2 < j <= s.len() {
                            match spec_string_body(s, j) {
                                Some((rest, k)) => Some((seq![c] + rest, k)),
                                None => None,
                            }
                        } else {
                            None
                        }
                    },
                    None => None,
                }
            } else {
                match spec_escape_char(s[i + 1]) {
                    Some(c) => match spec_string_body(s, i + 2) {
                        Some((rest, k)) => Some((seq![c] + rest, k)),
                        None => None,
                    },
                    None => None,
                }
            }
        } else {
            None
        }
    } else if (s[i] as u32) < 32 {
        None
    } else {
        match spec_string_body(s, i + 1) {
            Some((rest, k)) => Some((seq![s[i]] + rest, k)),
            None => None,
        }
    }
}

pub proof fn lemma_string_body_bounds(s: Seq<char>, i: int)
    requires
        0 <= i,
    ensures
        spec_string_body(s, i) matches Some((cs, j)) ==> i < j <= s.len(),
    decreases s.len() - i,
{
    if 0 <= i < s.len() {
        if s[i] == '"' {
        } else if s[i] == '\\' {
            if i + 1 < s.len() {
                if s[i + 1] == 'u' {
                    match spec_u_escape(s, i + 2) {
                        Some((c, j)) => {
                            if i + 2 < j <= s.len() {
                                lemma_string_body_bounds(s, j);
                            }
                        },
                        None => {},
                    }
                } else {
                    lemma_string_body_bounds(s, i + 2);
                }
            }
        } else {
            lemma_string_body_bounds(s, i + 1);
        }
    }
}

/// The value of the decimal digits in `s[i..j]`, most significant first.
pub open spec fn spec_digits_val(s: Seq<char>, i: int, j: int) -> int
    decreases j - i,
{
    if i >= j {
        0
    } else {
        spec_digits_val(s, i, j - 1) * 10 + (s[j - 1] as u32 - 48)
    }
}

/// A number starting at `i`: optional minus, digits without a spurious
/// leading zero, optional fraction, optional exponent. Plain integers that
/// are at most nineteen digits long and fit a signed 64-bit integer keep
/// their value; every other well-formed number is kept only as present.
pub open spec fn spec_number(s: Seq<char>, i: int) -> Option<(JsonModel, int)> {
    let neg = 0 <= i < s.len() && s[i] == '-';
    let i0 = if neg {
        i + 1
    } else {
        i
    };
    if !(0 <= i0 < s.len() && spec_is_digit(s[i0])) {
        None
    } else {
        let i1 = spec_skip_digits(s, i0);
        if s[i0] == '0' && i1 != i0 + 1 {
            None
        } else {
            let frac = i1 < s.len() && s[i1] == '.';
            if frac && !(i1 + 1 < s.len() && spec_is_digit(s[i1 + 1])) {
                None
            } else {
                let i2 = if frac {
                    spec_skip_digits(s, i1 + 1)
                } else {
                    i1
                };
                let exp = i2 < s.len() && (s[i2] == 'e' || s[i2] == 'E');
                let ie = if exp && i2 + 1 < s.len() && (s[i2 + 1] == '+' || s[i2 + 1] == '-') {
                    i2 + 2
                } else {
                    i2 + 1
                };
                if exp && !(ie < s.len() && spec_is_digit(s[ie])) {
                    None
                } else {
                    let end = if exp {
                        spec_skip_digits(s, ie)
                    } else {
                        i2
                    };
                    if !frac && !exp && i1 - i0 <= 19 {
                        let mag = spec_digits_val(s, i0, i1);
                        let v = if neg {
                            -mag
                        } else {
                            mag
                        };
                        if -0x8000000000000000 <= v <= 0x7FFFFFFFFFFFFFFF {
                            Some((JsonModel::Int(v as i64), end))
                        } else {
                            Some((JsonModel::OtherNum, end))
                        }
                    } else {
                        Some((JsonModel::OtherNum, end))
                    }
                }
            }
        }
    }
}

pub proof fn lemma_number_bounds(s: Seq<char>, i: int)
    requires
        0 <= i,
    ensures
        spec_number(s, i) matches Some((m, j)) ==> i < j <= s.len(),
{
    let neg = 0 <= i < s.len() && s[i] == '-';
    let i0 = if neg {
        i + 1
    } else {
        i
    };
    if 0 <= i0 < s.len() && spec_is_digit(s[i0]) {
        lemma_skip_digits_bounds(s, i0);
        let i1 = spec_skip_digits(s, i0);
        assert(i1 > i0) by {
            assert(spec_skip_digits(s, i0) == spec_skip_digits(s, i0 + 1));
            lemma_skip_digits_bounds(s, i0 + 1);
        }
        let frac = i1 < s.len() && s[i1] == '.';
        if frac && i1 + 1 < s.len() && spec_is_digit(s[i1 + 1]) {
            lemma_skip_digits_bounds(s, i1 + 1);
        }
        let i2 = if frac {
            spec_skip_digits(s, i1 + 1)
        } else {
            i1
        };
        let exp = i2 < s.len() && (s[i2] == 'e' || s[i2] == 'E');
        let ie = if exp && i2 + 1 < s.len() && (s[i2 + 1] == '+' || s[i2 + 1] == '-') {
            i2 + 2
        } else {
            i2 + 1
        };
        if exp && ie < s.len() && spec_is_digit(s[ie]) {
            lemma_skip_digits_bounds(s, ie);
        }
    }
}

/// Ten to the given power.
pub open spec fn pow10(n: nat) -> int
    decreases n,
{
    if n == 0 {
        1
    } else {
        10 * pow10((n - 1) as nat)
    }
}

proof fn lemma_pow10_mono(a: nat, b: nat)
    requires
        a <= b,
    ensures
        pow10(a) <= pow10(b),
        pow10(a) >= 1,
    decreases b,
{
    if b > 0 {
        lemma_pow10_mono((b - 1) as nat, (b - 1) as nat);
        if a <= b - 1 {
            lemma_pow10_mono(a, (b - 1) as nat);
        }
    }
}

proof fn lemma_skip_digits_chars(s: Seq<char>, i: int)
    requires
        0 <= i <= s.len(),
    ensures
        forall|k: int| i <= k < spec_skip_digits(s, i) ==> spec_is_digit(s[k]),
    decreases s.len() - i,
{
    if i < s.len() && spec_is_digit(s[i]) {
        lemma_skip_digits_chars(s, i + 1);
        lemma_skip_digits_bounds(s, i + 1);
    }
}

proof fn lemma_digits_val_bound(s: Seq<char>, i: int, j: int)
    requires
        i <= j,
        forall|k: int| i <= k < j ==> spec_is_digit(s[k]),
    ensures
        0 <= spec_digits_val(s, i, j) < pow10((j - i) as nat),
    decreases j - i,
{
    if i < j {
        lemma_digits_val_bound(s, i, j - 1);
    }
}

/// Relies on `char::from_u32`: yields the character of a code point exactly
/// when the value is a Unicode scalar, that is, not a surrogate and at most
/// `0x10FFFF`.
#[verifier::external_body]
fn char_from_u32(v: u32) -> (r: Option<char>)
    ensures
        r == (if v < 0xD800 || (0xE000 <= v && v <= 0x10FFFF) {
            Some(v as char)
        } else {
            None::<char>
        }),
{
    char::from_u32(v)
}

fn is_ws_char(c: char) -> (r: bool)
    ensures
        r == spec_is_ws(c),
{
    c == ' ' || c == '\t' || c == '\n' || c == '\r'
}

fn is_digit_char(c: char) -> (r: bool)
    ensures
        r == spec_is_digit(c),
{
    let v = c as u32;
    48 <= v && v <= 57
}

fn skip_ws(s: &Vec<char>, i: usize) -> (r: usize)
    requires
        i <= s@.len(),
    ensures
        r == spec_skip_ws(s@, i as int),
        i <= r <= s@.len(),
{
    let mut cur = i;
    while cur < s.len() && is_ws_char(s[cur])
        invariant
            i <= cur <= s@.len(),
            spec_skip_ws(s@, i as int) == spec_skip_ws(s@, cur as int),
        decreases s@.len() - cur,
    {
        cur += 1;
    }
    cur
}

fn skip_digits(s: &Vec<char>, i: usize) -> (r: usize)
    requires
        i <= s@.len(),
    ensures
        r == spec_skip_digits(s@, i as int),
        i <= r <= s@.len(),
{
    let mut cur = i;
    while cur < s.len() && is_digit_char(s[cur])
        invariant
            i <= cur <= s@.len(),
            spec_skip_digits(s@, i as int) == spec_skip_digits(s@, cur as int),
        decreases s@.len() - cur,
    {
        cur += 1;
    }
    cur
}

fn escape_char(c: char) -> (r: Option<char>)
    ensures
        r == spec_escape_char(c),
{
    if c == '"' {
        Some('"')
    } else if c == '\\' {
        Some('\\')
    } else if c == '/' {
        Some('/')
    } else if c == 'b' {
        Some('\u{0008}')
    } else if c == 'f' {
        Some('\u{000C}')
    } else if c == 'n' {
        Some('\n')
    } else if c == 'r' {
        Some('\r')
    } else if c == 't' {
        Some('\t')
    } else {
        None
    }
}

fn read_u_hex(s: &Vec<char>, i: usize) -> (r: Option<u32>)
    requires
        i <= s@.len(),
    ensures
        (match (r, spec_u_hex(s@, i as int)) {
            (Some(v), Some(sv)) => v == sv,
            (None, None) => true,
            _ => false,
        }),
{
    if s.len() - i < 4 {
        return None;
    }
    let h1 = match hex_val(s[i]) {
        Some(v) => v,
        None => {
            return None;
        },
    };
    let h2 = match hex_val(s[i + 1]) {
        Some(v) => v,
        None => {
            return None;
        },
    };
    let h3 = match hex_val(s[i + 2]) {
        Some(v) => v,
        None => {
            return None;
        },
    };
    let h4 = match hex_val(s[i + 3]) {
        Some(v) => v,
        None => {
            return None;
        },
    };
    Some(4096 * (h1 as u32) + 256 * (h2 as u32) + 16 * (h3 as u32) + (h4 as u32))
}

fn parse_u_escape(s: &Vec<char>, i: usize) -> (r: Option<(char, usize)>)
    requires
        i <= s@.len(),
    ensures
        (match (r, spec_u_escape(s@, i as int)) {
            (Some((c, j)), Some((sc, sj))) => c == sc && j as int == sj && i < j <= s@.len(),
            (None, None) => true,
            _ => false,
        }),
{
    let n = s.len();
    let code = match read_u_hex(s, i) {
        Some(v) => v,
        None => {
            return None;
        },
    };
    proof {
        assert(i + 4 <= n);
    }
    if 0xD800 <= code && code <= 0xDBFF {
        if s.len() - i >= 6 && s[i + 4] == '\\' && s[i + 5] == 'u' {
            match read_u_hex(s, i + 6) {
                Some(low) => {
                    if 0xDC00 <= low && low <= 0xDFFF {
                        let scalar = 0x10000 + (code - 0xD800) * 0x400 + (low - 0xDC00);
                        proof {
                            assert(i + 10 <= n);
                        }
                        match char_from_u32(scalar) {
                            Some(c) => Some((c, i + 10)),
                            None => {
                                proof {
                                    assert(false);
                                }
                                None
                            },
                        }
                    } else {
                        None
                    }
                },
                None => None,
            }
        } else {
            None
        }
    } else if 0xDC00 <= code && code <= 0xDFFF {
        None
    } else {
        match char_from_u32(code) {
            Some(c) => Some((c, i + 4)),
            None => {
                proof {
                    assert(false);
                }
                None
            },
        }
    }
}

fn parse_string_body(s: &Vec<char>, i: usize) -> (r: Option<(String, usize)>)
    requires
        i <= s@.len(),
    ensures
        (match (r, spec_string_body(s@, i as int)) {
            (Some((out, j)), Some((cs, sj))) => out@ == cs && j as int == sj && i < j <= s@.len(),
            (None, None) => true,
            _ => false,
        }),
{
    let mut acc = String::new();
    let mut cur: usize = i;
    proof {
        lemma_string_body_bounds(s@, i as int);
    }
    loop
        invariant
            i <= cur <= s@.len(),
            (match spec_string_body(s@, cur as int) {
                Some((rest, j)) => spec_string_body(s@, i as int) == Some::<(Seq<char>, int)>(
                    (acc@ + rest, j),
                ) && cur < j <= s@.len(),
                None => spec_string_body(s@, i as int) is None,
            }),
        decreases s@.len() - cur,
    {
        proof {
            lemma_string_body_bounds(s@, cur as int);
        }
        if cur >= s.len() {
            return None;
        }
        let c = s[cur];
        if c == '"' {
            proof {
                assert(acc@ + Seq::<char>::empty() =~= acc@);
            }
            return Some((acc, cur + 1));
        }
        let ghost prev = cur as int;
        let ghost prev_acc = acc@;
        if c == '\\' {
            if cur + 1 >= s.len() {
                return None;
            }
            let e = s[cur + 1];
            if e == 'u' {
                match parse_u_escape(s, cur + 2) {
                    Some((ch, j)) => {
                        push_char(&mut acc, ch);
                        cur = j;
                        proof {
                            lemma_string_body_bounds(s@, cur as int);
                            assert(acc@ =~= prev_acc + seq![ch]);
                            match spec_string_body(s@, cur as int) {
                                Some((rest, k)) => {
                                    assert(spec_string_body(s@, prev) == Some::<(Seq<char>, int)>(
                                        (seq![ch] + rest, k),
                                    ));
                                    assert((prev_acc + seq![ch]) + rest =~= prev_acc + (seq![ch]
                                        + rest));
                                },
                                None => {},
                            }
                        }
                    },
                    None => {
                        return None;
                    },
                }
            } else {
                match escape_char(e) {
                    Some(ch) => {
                        push_char(&mut acc, ch);
                        cur = cur + 2;
                        proof {
                            lemma_string_body_bounds(s@, cur as int);
                            assert(acc@ =~= prev_acc + seq![ch]);
                            match spec_string_body(s@, cur as int) {
                                Some((rest, k)) => {
                                    assert(spec_string_body(s@, prev) == Some::<(Seq<char>, int)>(
                                        (seq![ch] + rest, k),
                                    ));
                                    assert((prev_acc + seq![ch]) + rest =~= prev_acc + (seq![ch]
                                        + rest));
                                },
                                None => {},
                            }
                        }
                    },
                    None => {
                        return None;
                    },
                }
            }
        } else if (c as u32) < 32 {
            return None;
        } else {
            push_char(&mut acc, c);
            cur = cur + 1;
            proof {
                lemma_string_body_bounds(s@, cur as int);
                assert(acc@ =~= prev_acc + seq![c]);
                match spec_string_body(s@, cur as int) {
                    Some((rest, k)) => {
                        assert(spec_string_body(s@, prev) == Some::<(Seq<char>, int)>(
                            (seq![c] + rest, k),
                        ));
                        assert((prev_acc + seq![c]) + rest =~= prev_acc + (seq![c] + rest));
                    },
                    None => {},
                }
            }
        }
    }
}

fn parse_number(s: &Vec<char>, i: usize) -> (r: Option<(JsonValue, usize)>)
    requires
        i <= s@.len(),
    ensures
        (match (r, spec_number(s@, i as int)) {
            (Some((v, j)), Some((m, sj))) => json_view(v) == m && j as int == sj && i < j
                <= s@.len(),
            (None, None) => true,
            _ => false,
        }),
{
    let len = s.len();
    let neg = i < len && s[i] == '-';
    let i0 = if neg {
        i + 1
    } else {
        i
    };
    if !(i0 < len && is_digit_char(s[i0])) {
        return None;
    }
    let i1 = skip_digits(s, i0);
    proof {
        assert(i1 > i0) by {
            assert(spec_skip_digits(s@, i0 as int) == spec_skip_digits(s@, i0 + 1));
            lemma_skip_digits_bounds(s@, i0 + 1);
        }
    }
    if s[i0] == '0' && i1 != i0 + 1 {
        return None;
    }
    let frac = i1 < len && s[i1] == '.';
    if frac && !(i1 + 1 < len && is_digit_char(s[i1 + 1])) {
        return None;
    }
    let i2 = if frac {
        skip_digits(s, i1 + 1)
    } else {
        i1
    };
    let exp = i2 < len && (s[i2] == 'e' || s[i2] == 'E');
    let ie = if exp {
        if i2 + 1 < len && (s[i2 + 1] == '+' || s[i2 + 1] == '-') {
            i2 + 2
        } else {
            i2 + 1
        }
    } else {
        i2
    };
    if exp && !(ie < len && is_digit_char(s[ie])) {
        return None;
    }
    let end = if exp {
        skip_digits(s, ie)
    } else {
        i2
    };
    if !frac && !exp && i1 - i0 <= 19 {
        proof {
            lemma_skip_digits_chars(s@, i0 as int);
        }
        let mut acc: u128 = 0;
        let mut k: usize = i0;
        while k < i1
            invariant
                i0 <= k <= i1 <= s@.len(),
                i1 == spec_skip_digits(s@, i0 as int),
                i1 - i0 <= 19,
                forall|t: int| i0 <= t < i1 ==> spec_is_digit(s@[t]),
                acc == spec_digits_val(s@, i0 as int, k as int),
                acc < pow10((k - i0) as nat),
            decreases i1 - k,
        {
            proof {
                lemma_pow10_mono((k - i0) as nat, 19);
                assert(pow10(19) == 10000000000000000000) by {
                    reveal_with_fuel(pow10, 20);
                }
                assert(pow10(((k + 1 - i0)) as nat) == 10 * pow10((k - i0) as nat));
            }
            let d = (s[k] as u32 - 48) as u128;
            acc = 10 * acc + d;
            k += 1;
        }
        let mag = acc;
        proof {
            assert(mag == spec_digits_val(s@, i0 as int, i1 as int));
        }
        if !neg {
            if mag <= 0x7FFFFFFFFFFFFFFF {
                Some((JsonValue::Int(mag as i64), end))
            } else {
                Some((JsonValue::OtherNum, end))
            }
        } else {
            if mag <= 0x7FFFFFFFFFFFFFFF {
                Some((JsonValue::Int(-(mag as i64)), end))
            } else if mag == 0x8000000000000000 {
                Some((JsonValue::Int(i64::MIN), end))
            } else {
                Some((JsonValue::OtherNum, end))
            }
        }
    } else {
        Some((JsonValue::OtherNum, end))
    }
}

/// A value starting at `i`: a literal, a string, a number, an array or an
/// object. The fuel only bounds nesting so the definition terminates; any
/// fuel of at least the remaining length gives the grammar's answer.
pub open spec fn spec_value(s: Seq<char>, i: int, fuel: nat) -> Option<(JsonModel, int)>
    decreases fuel, 0int,
{
    if fuel == 0 {
        None
    } else if !(0 <= i < s.len()) {
        None
    } else if s[i] == 'n' {
        if i + 4 <= s.len() && s[i + 1] == 'u' && s[i + 2] == 'l' && s[i + 3] == 'l' {
            Some((JsonModel::Null, i + 4))
        } else {
            None
        }
    } else if s[i] == 't' {
        if i + 4 <= s.len() && s[i + 1] == 'r' && s[i + 2] == 'u' && s[i + 3] == 'e' {
            Some((JsonModel::Bool(true), i + 4))
        } else {
            None
        }
    } else if s[i] == 'f' {
        if i + 5 <= s.len() && s[i + 1] == 'a' && s[i + 2] == 'l' && s[i + 3] == 's' && s[i + 4]
            == 'e' {
            Some((JsonModel::Bool(false), i + 5))
        } else {
            None
        }
    } else if s[i] == '"' {
        match spec_string_body(s, i + 1) {
            Some((cs, j)) => Some((JsonModel::Str(cs), j)),
            None => None,
        }
    } else if s[i] == '[' {
        let j = spec_skip_ws(s, i + 1);
        if j < s.len() && s[j] == ']' {
            Some((JsonModel::Arr(Seq::empty()), j + 1))
        } else {
            match spec_elements(s, j, (fuel - 1) as nat) {
                Some((items, k)) => Some((JsonModel::Arr(items), k)),
                None => None,
            }
        }
    } else if s[i] == '{' {
        let j = spec_skip_ws(s, i + 1);
        if j < s.len() && s[j] == '}' {
            Some((JsonModel::Obj(Seq::empty()), j + 1))
        } else {
            match spec_members(s, j, (fuel - 1) as nat) {
                Some((fields, k)) => Some((JsonModel::Obj(fields), k)),
                None => None,
            }
        }
    } else if s[i] == '-' || spec_is_digit(s[i]) {
        spec_number(s, i)
    } else {
        None
    }
}

/// One or more comma-separated array elements starting at `i` (whitespace
/// already skipped), up to and including the closing bracket.
pub open spec fn spec_elements(s: Seq<char>, i: int, fuel: nat) -> Option<(Seq<JsonModel>, int)>
    decreases fuel, 1int,
{
    match spec_value(s, i, fuel) {
        None => None,
        Some((v, j)) => {
            let j2 = spec_skip_ws(s, j);
            if j2 < s.len() && s[j2] == ']' {
                Some((seq![v], j2 + 1))
            } else if j2 < s.len() && s[j2] == ',' && fuel > 0 {
                match spec_elements(s, spec_skip_ws(s, j2 + 1), (fuel - 1) as nat) {
                    Some((rest, k)) => Some((seq![v] + rest, k)),
                    None => None,
                }
            } else {
                None
            }
        },
    }
}

/// One or more comma-separated object members starting at `i` (whitespace
/// already skipped), up to and including the closing brace.
pub open spec fn spec_members(s: Seq<char>, i: int, fuel: nat) -> Option<
    (Seq<(Seq<char>, JsonModel)>, int),
>
    decreases fuel, 1int,
{
    if !(0 <= i < s.len() && s[i] == '"') {
        None
    } else {
        match spec_string_body(s, i + 1) {
            None => None,
            Some((key, j)) => {
                let j2 = spec_skip_ws(s, j);
                if !(j2 < s.len() && s[j2] == ':') {
                    None
                } else {
                    match spec_value(s, spec_skip_ws(s, j2 + 1), fuel) {
                        None => None,
                        Some((v, k)) => {
                            let k2 = spec_skip_ws(s, k);
                            if k2 < s.len() && s[k2] == '}' {
                                Some((seq![(key, v)], k2 + 1))
                            } else if k2 < s.len() && s[k2] == ',' && fuel > 0 {
                                match spec_members(s, spec_skip_ws(s, k2 + 1), (fuel - 1) as nat) {
                                    Some((rest, m)) => Some((seq![(key, v)] + rest, m)),
                                    None => None,
                                }
                            } else {
                                None
                            }
                        },
                    }
                }
            },
        }
    }
}

pub proof fn lemma_value_progress(s: Seq<char>, i: int, fuel: nat)
    ensures
        spec_value(s, i, fuel) matches Some((m, j)) ==> i < j <= s.len(),
    decreases fuel, 0int,
{
    if fuel > 0 && 0 <= i < s.len() {
        if s[i] == '"' {
            lemma_string_body_bounds(s, i + 1);
        } else if s[i] == '[' {
            lemma_skip_ws_bounds(s, i + 1);
            lemma_elements_progress(s, spec_skip_ws(s, i + 1), (fuel - 1) as nat);
        } else if s[i] == '{' {
            lemma_skip_ws_bounds(s, i + 1);
            lemma_members_progress(s, spec_skip_ws(s, i + 1), (fuel - 1) as nat);
        } else if s[i] == '-' || spec_is_digit(s[i]) {
            lemma_number_bounds(s, i);
        }
    }
}

pub proof fn lemma_elements_progress(s: Seq<char>, i: int, fuel: nat)
    ensures
        spec_elements(s, i, fuel) matches Some((ms, j)) ==> i < j <= s.len(),
    decreases fuel, 1int,
{
    lemma_value_progress(s, i, fuel);
    match spec_value(s, i, fuel) {
        None => {},
        Some((v, j)) => {
            lemma_skip_ws_bounds(s, j);
            let j2 = spec_skip_ws(s, j);
            if j2 < s.len() && s[j2] == ']' {
            } else if j2 < s.len() && s[j2] == ',' && fuel > 0 {
                lemma_skip_ws_bounds(s, j2 + 1);
                lemma_elements_progress(s, spec_skip_ws(s, j2 + 1), (fuel - 1) as nat);
            }
        },
    }
}

pub proof fn lemma_members_progress(s: Seq<char>, i: int, fuel: nat)
    ensures
        spec_members(s, i, fuel) matches Some((ms, j)) ==> i < j <= s.len(),
    decreases fuel, 1int,
{
    if 0 <= i < s.len() && s[i] == '"' {
        lemma_string_body_bounds(s, i + 1);
        match spec_string_body(s, i + 1) {
            None => {},
            Some((key, j)) => {
                lemma_skip_ws_bounds(s, j);
                let j2 = spec_skip_ws(s, j);
                if j2 < s.len() && s[j2] == ':' {
                    lemma_skip_ws_bounds(s, j2 + 1);
                    let j3 = spec_skip_ws(s, j2 + 1);
                    lemma_value_progress(s, j3, fuel);
                    match spec_value(s, j3, fuel) {
                        None => {},
                        Some((v, k)) => {
                            lemma_skip_ws_bounds(s, k);
                            let k2 = spec_skip_ws(s, k);
                            if k2 < s.len() && s[k2] == '}' {
                            } else if k2 < s.len() && s[k2] == ',' && fuel > 0 {
                                lemma_skip_ws_bounds(s, k2 + 1);
                                lemma_members_progress(s, spec_skip_ws(s, k2 + 1), (fuel - 1) as nat);
                            }
                        },
                    }
                }
            },
        }
    }
}

pub proof fn lemma_value_fuel(s: Seq<char>, i: int, f1: nat, f2: nat)
    requires
        f1 >= s.len() + 1 - i,
        f1 <= f2,
    ensures
        spec_value(s, i, f1) == spec_value(s, i, f2),
    decreases f1, 0int,
{
    if f1 == 0 {
    } else if !(0 <= i < s.len()) {
    } else if s[i] == '[' {
        lemma_skip_ws_bounds(s, i + 1);
        let j = spec_skip_ws(s, i + 1);
        if !(j < s.len() && s[j] == ']') {
            lemma_elements_fuel(s, j, (f1 - 1) as nat, (f2 - 1) as nat);
        }
    } else if s[i] == '{' {
        lemma_skip_ws_bounds(s, i + 1);
        let j = spec_skip_ws(s, i + 1);
        if !(j < s.len() && s[j] == '}') {
            lemma_members_fuel(s, j, (f1 - 1) as nat, (f2 - 1) as nat);
        }
    }
}

pub proof fn lemma_elements_fuel(s: Seq<char>, i: int, f1: nat, f2: nat)
    requires
        f1 >= s.len() + 1 - i,
        f1 <= f2,
    ensures
        spec_elements(s, i, f1) == spec_elements(s, i, f2),
    decreases f1, 1int,
{
    lemma_value_fuel(s, i, f1, f2);
    lemma_value_progress(s, i, f1);
    match spec_value(s, i, f1) {
        None => {},
        Some((v, j)) => {
            lemma_skip_ws_bounds(s, j);
            let j2 = spec_skip_ws(s, j);
            if j2 < s.len() && s[j2] == ']' {
            } else if j2 < s.len() && s[j2] == ',' {
                lemma_skip_ws_bounds(s, j2 + 1);
                lemma_elements_fuel(
                    s,
                    spec_skip_ws(s, j2 + 1),
                    (f1 - 1) as nat,
                    (f2 - 1) as nat,
                );
            }
        },
    }
}

pub proof fn lemma_members_fuel(s: Seq<char>, i: int, f1: nat, f2: nat)
    requires
        f1 >= s.len() + 1 - i,
        f1 <= f2,
    ensures
        spec_members(s, i, f1) == spec_members(s, i, f2),
    decreases f1, 1int,
{
    if 0 <= i < s.len() && s[i] == '"' {
        lemma_string_body_bounds(s, i + 1);
        match spec_string_body(s, i + 1) {
            None => {},
            Some((key, j)) => {
                lemma_skip_ws_bounds(s, j);
                let j2 = spec_skip_ws(s, j);
                if j2 < s.len() && s[j2] == ':' {
                    lemma_skip_ws_bounds(s, j2 + 1);
                    let j3 = spec_skip_ws(s, j2 + 1);
                    lemma_value_fuel(s, j3, f1, f2);
                    lemma_value_progress(s, j3, f1);
                    match spec_value(s, j3, f1) {
                        None => {},
                        Some((v, k)) => {
                            lemma_skip_ws_bounds(s, k);
                            let k2 = spec_skip_ws(s, k);
                            if k2 < s.len() && s[k2] == '}' {
                            } else if k2 < s.len() && s[k2] == ',' {
                                lemma_skip_ws_bounds(s, k2 + 1);
                                lemma_members_fuel(
                                    s,
                                    spec_skip_ws(s, k2 + 1),
                                    (f1 - 1) as nat,
                                    (f2 - 1) as nat,
                                );
                            }
                        },
                    }
                }
            },
        }
    }
}

/// A value starting at `i`, with enough fuel for the whole remaining text:
/// the canonical reading of the grammar.
pub open spec fn spec_value_at(s: Seq<char>, i: int) -> Option<(JsonModel, int)> {
    spec_value(s, i, (s.len() + 1 - i) as nat)
}

/// One or more array elements starting at `i`, with enough fuel.
pub open spec fn spec_elements_at(s: Seq<char>, i: int) -> Option<(Seq<JsonModel>, int)> {
    spec_elements(s, i, (s.len() + 1 - i) as nat)
}

/// One or more object members starting at `i`, with enough fuel.
pub open spec fn spec_members_at(s: Seq<char>, i: int) -> Option<
    (Seq<(Seq<char>, JsonModel)>, int),
> {
    spec_members(s, i, (s.len() + 1 - i) as nat)
}

fn parse_value(s: &Vec<char>, i: usize) -> (r: Option<(JsonValue, usize)>)
    requires
        i <= s@.len(),
    ensures
        (match (r, spec_value_at(s@, i as int)) {
            (Some((v, j)), Some((m, sj))) => json_view(v) == m && j as int == sj && i < j
                <= s@.len(),
            (None, None) => true,
            _ => false,
        }),
    decreases s@.len() - i, 0int,
{
    let ghost fuel = (s@.len() + 1 - i) as nat;
    proof {
        assert(fuel >= 1);
    }
    let n = s.len();
    if i >= n {
        return None;
    }
    let c = s[i];
    if c == 'n' {
        if n - i >= 4 && s[i + 1] == 'u' && s[i + 2] == 'l' && s[i + 3] == 'l' {
            Some((JsonValue::Null, i + 4))
        } else {
            None
        }
    } else if c == 't' {
        if n - i >= 4 && s[i + 1] == 'r' && s[i + 2] == 'u' && s[i + 3] == 'e' {
            Some((JsonValue::Bool(true), i + 4))
        } else {
            None
        }
    } else if c == 'f' {
        if n - i >= 5 && s[i + 1] == 'a' && s[i + 2] == 'l' && s[i + 3] == 's' && s[i + 4] == 'e' {
            Some((JsonValue::Bool(false), i + 5))
        } else {
            None
        }
    } else if c == '"' {
        match parse_string_body(s, i + 1) {
            Some((out, j)) => Some((JsonValue::Str(out), j)),
            None => None,
        }
    } else if c == '[' {
        let j = skip_ws(s, i + 1);
        if j < n && s[j] == ']' {
            let items: Vec<JsonValue> = Vec::new();
            proof {
                let m = json_view(JsonValue::Arr(items));
                assert(m->Arr_0 =~= Seq::<JsonModel>::empty());
                assert(m == JsonModel::Arr(Seq::empty()));
            }
            Some((JsonValue::Arr(items), j + 1))
        } else {
            match parse_elements(s, j) {
                Some((items, k)) => {
                    proof {
                        lemma_elements_fuel(
                            s@,
                            j as int,
                            (s@.len() + 1 - j) as nat,
                            (fuel - 1) as nat,
                        );
                        assert(json_view(JsonValue::Arr(items))->Arr_0 =~= Seq::new(
                            items@.len(),
                            |k: int| json_view(items@[k]),
                        ));
                        assert(json_view(JsonValue::Arr(items)) == JsonModel::Arr(
                            Seq::new(items@.len(), |k: int| json_view(items@[k])),
                        ));
                    }
                    Some((JsonValue::Arr(items), k))
                },
                None => {
                    proof {
                        lemma_elements_fuel(
                            s@,
                            j as int,
                            (s@.len() + 1 - j) as nat,
                            (fuel - 1) as nat,
                        );
                    }
                    None
                },
            }
        }
    } else if c == '{' {
        let j = skip_ws(s, i + 1);
        if j < n && s[j] == '}' {
            let fields: Vec<(String, JsonValue)> = Vec::new();
            proof {
                let m = json_view(JsonValue::Obj(fields));
                assert(m->Obj_0 =~= Seq::<(Seq<char>, JsonModel)>::empty());
                assert(m == JsonModel::Obj(Seq::empty()));
            }
            Some((JsonValue::Obj(fields), j + 1))
        } else {
            match parse_members(s, j) {
                Some((fields, k)) => {
                    proof {
                        lemma_members_fuel(
                            s@,
                            j as int,
                            (s@.len() + 1 - j) as nat,
                            (fuel - 1) as nat,
                        );
                        assert(json_view(JsonValue::Obj(fields))->Obj_0 =~= Seq::new(
                            fields@.len(),
                            |k: int| (fields@[k].0@, json_view(fields@[k].1)),
                        ));
                        assert(json_view(JsonValue::Obj(fields)) == JsonModel::Obj(
                            Seq::new(
                                fields@.len(),
                                |k: int| (fields@[k].0@, json_view(fields@[k].1)),
                            ),
                        ));
                    }
                    Some((JsonValue::Obj(fields), k))
                },
                None => {
                    proof {
                        lemma_members_fuel(
                            s@,
                            j as int,
                            (s@.len() + 1 - j) as nat,
                            (fuel - 1) as nat,
                        );
                    }
                    None
                },
            }
        }
    } else if c == '-' || is_digit_char(c) {
        parse_number(s, i)
    } else {
        None
    }
}

fn parse_elements(s: &Vec<char>, i: usize) -> (r: Option<(Vec<JsonValue>, usize)>)
    requires
        i <= s@.len(),
    ensures
        (match (r, spec_elements_at(s@, i as int)) {
            (Some((items, j)), Some((ms, sj))) => Seq::new(
                items@.len(),
                |k: int| json_view(items@[k]),
            ) == ms && j as int == sj && i < j <= s@.len(),
            (None, None) => true,
            _ => false,
        }),
    decreases s@.len() - i, 1int,
{
    let ghost fuel = (s@.len() + 1 - i) as nat;
    match parse_value(s, i) {
        None => None,
        Some((v, j)) => {
            let j2 = skip_ws(s, j);
            if j2 < s.len() && s[j2] == ']' {
                let mut items: Vec<JsonValue> = Vec::new();
                items.push(v);
                proof {
                    assert(Seq::new(items@.len(), |k: int| json_view(items@[k])) =~= seq![
                        json_view(v),
                    ]);
                }
                Some((items, j2 + 1))
            } else if j2 < s.len() && s[j2] == ',' {
                let j3 = skip_ws(s, j2 + 1);
                match parse_elements(s, j3) {
                    Some((rest, k)) => {
                        let ghost rest_models = Seq::new(
                            rest@.len(),
                            |t: int| json_view(rest@[t]),
                        );
                        let mut items = rest;
                        items.insert(0, v);
                        proof {
                            lemma_elements_fuel(
                                s@,
                                j3 as int,
                                (s@.len() + 1 - j3) as nat,
                                (fuel - 1) as nat,
                            );
                            assert(items@ =~= seq![v] + rest@);
                            assert(Seq::new(items@.len(), |t: int| json_view(items@[t])) =~= seq![
                                json_view(v),
                            ] + rest_models);
                        }
                        Some((items, k))
                    },
                    None => {
                        proof {
                            lemma_elements_fuel(
                                s@,
                                j3 as int,
                                (s@.len() + 1 - j3) as nat,
                                (fuel - 1) as nat,
                            );
                        }
                        None
                    },
                }
            } else {
                None
            }
        },
    }
}

fn parse_members(s: &Vec<char>, i: usize) -> (r: Option<(Vec<(String, JsonValue)>, usize)>)
    requires
        i <= s@.len(),
    ensures
        (match (r, spec_members_at(s@, i as int)) {
            (Some((fields, j)), Some((ms, sj))) => Seq::new(
                fields@.len(),
                |k: int| (fields@[k].0@, json_view(fields@[k].1)),
            ) == ms && j as int == sj && i < j <= s@.len(),
            (None, None) => true,
            _ => false,
        }),
    decreases s@.len() - i, 1int,
{
    let ghost fuel = (s@.len() + 1 - i) as nat;
    let n = s.len();
    if !(i < n && s[i] == '"') {
        return None;
    }
    match parse_string_body(s, i + 1) {
        None => None,
        Some((key, j)) => {
            let j2 = skip_ws(s, j);
            if !(j2 < n && s[j2] == ':') {
                return None;
            }
            let j3 = skip_ws(s, j2 + 1);
            match parse_value(s, j3) {
                None => {
                    proof {
                        lemma_value_fuel(s@, j3 as int, (s@.len() + 1 - j3) as nat, fuel);
                    }
                    None
                },
                Some((v, k)) => {
                    proof {
                        lemma_value_fuel(s@, j3 as int, (s@.len() + 1 - j3) as nat, fuel);
                    }
                    let k2 = skip_ws(s, k);
                    if k2 < n && s[k2] == '}' {
                        let mut fields: Vec<(String, JsonValue)> = Vec::new();
                        let ghost key_view = key@;
                        fields.push((key, v));
                        proof {
                            assert(Seq::new(
                                fields@.len(),
                                |t: int| (fields@[t].0@, json_view(fields@[t].1)),
                            ) =~= seq![(key_view, json_view(v))]);
                        }
                        Some((fields, k2 + 1))
                    } else if k2 < n && s[k2] == ',' {
                        let j5 = skip_ws(s, k2 + 1);
                        match parse_members(s, j5) {
                            Some((rest, m)) => {
                                let ghost rest_models = Seq::new(
                                    rest@.len(),
                                    |t: int| (rest@[t].0@, json_view(rest@[t].1)),
                                );
                                let ghost key_view = key@;
                                let mut fields = rest;
                                fields.insert(0, (key, v));
                                proof {
                                    lemma_members_fuel(
                                        s@,
                                        j5 as int,
                                        (s@.len() + 1 - j5) as nat,
                                        (fuel - 1) as nat,
                                    );
                                    assert(Seq::new(
                                        fields@.len(),
                                        |t: int| (fields@[t].0@, json_view(fields@[t].1)),
                                    ) =~= seq![(key_view, json_view(v))] + rest_models);
                                }
                                Some((fields, m))
                            },
                            None => {
                                proof {
                                    lemma_members_fuel(
                                        s@,
                                        j5 as int,
                                        (s@.len() + 1 - j5) as nat,
                                        (fuel - 1) as nat,
                                    );
                                }
                                None
                            },
                        }
                    } else {
                        None
                    }
                },
            }
        },
    }
}

fn str_to_chars(s: &str) -> (v: Vec<char>)
    ensures
        v@ == s@,
{
    let n = s.unicode_len();
    let mut v: Vec<char> = Vec::new();
    let mut i: usize = 0;
    while i < n
        invariant
            i <= n,
            n == s@.len(),
            v@ =~= s@.subrange(0, i as int),
        decreases n - i,
    {
        v.push(s.get_char(i));
        i += 1;
    }
    proof {
        assert(v@ =~= s@);
    }
    v
}

/// Reads the single structured value a whole text holds, surrounded only by
/// whitespace; fails exactly on text the grammar rejects.
pub fn parse_json(text: &str) -> (r: Option<JsonValue>)
    ensures
        (match (r, spec_parse_json(text@)) {
            (Some(v), Some(m)) => json_view(v) == m,
            (None, None) => true,
            _ => false,
        }),
{
    let chars = str_to_chars(text);
    let i = skip_ws(&chars, 0);
    match parse_value(&chars, i) {
        Some((v, j)) => {
            let j2 = skip_ws(&chars, j);
            if j2 == chars.len() {
                Some(v)
            } else {
                None
            }
        },
        None => None,
    }
}

/// The single value a whole text holds, surrounded only by whitespace.
pub open spec fn spec_parse_json(s: Seq<char>) -> Option<JsonModel> {
    let i = spec_skip_ws(s, 0);
    match spec_value_at(s, i) {
        Some((v, j)) => if spec_skip_ws(s, j) == s.len() {
            Some(v)
        } else {
            None
        },
        None => None,
    }
}

} // verus!
