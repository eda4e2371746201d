//! A small JSON grammar for the messages the generation server streams.
//! The fields a message is made of are strings (with the full set of JSON
//! escapes, `\uXXXX` and surrogate pairs included), booleans, 64-bit
//! integers, and arrays of such integers; a field of any other JSON shape
//! is structurally checked and carried without content.
//!
//! Every parsing function exists twice: a `spec` function that defines the
//! grammar mathematically over a byte sequence and a position, and an
//! executable function proved to return exactly what the `spec` function says.

use vstd::prelude::*;

verus! {

/// JSON insignificant whitespace: space, tab, line feed, carriage return.
pub open spec fn is_ws(b: u8) -> bool {
    b == 32 || b == 9 || b == 10 || b == 13
}

/// An ASCII decimal digit.
pub open spec fn is_digit(b: u8) -> bool {
    48 <= b && b <= 57
}

/// The first position at or after `i` that holds no whitespace byte.
pub open spec fn spec_skip_ws(s: Seq<u8>, i: int) -> int
    decreases s.len() - i,
{
    if 0 <= i && i < s.len() && is_ws(s[i]) {
        spec_skip_ws(s, i + 1)
    } else {
        i
    }
}

pub fn skip_ws(s: &[u8], i: usize) -> (r: usize)
    requires
        i <= s@.len(),
    ensures
        r == spec_skip_ws(s@, i as int),
        i <= r <= s@.len(),
    decreases s@.len() - i,
{
    if i < s.len() && (s[i] == 32 || s[i] == 9 || s[i] == 10 || s[i] == 13) {
        skip_ws(s, i + 1)
    } else {
        i
    }
}

/// The byte a short escape `\x` stands for, or `None` where `x` is not a
/// recognized escape character; the `\uXXXX` form is handled separately.
pub open spec fn spec_unescape(b: u8) -> Option<u8> {
    if b == 34 {
        Some(34u8)
    } else if b == 92 {
        Some(92u8)
    } else if b == 47 {
        Some(47u8)
    } else if b == 110 {
        Some(10u8)
    } else if b == 116 {
        Some(9u8)
    } else if b == 114 {
        Some(13u8)
    } else if b == 98 {
        Some(8u8)
    } else if b == 102 {
        Some(12u8)
    } else {
        None
    }
}

pub fn unescape(b: u8) -> (r: Option<u8>)
    ensures
        r == spec_unescape(b),
{
    if b == 34 {
        Some(34u8)
    } else if b == 92 {
        Some(92u8)
    } else if b == 47 {
        Some(47u8)
    } else if b == 110 {
        Some(10u8)
    } else if b == 116 {
        Some(9u8)
    } else if b == 114 {
        Some(13u8)
    } else if b == 98 {
        Some(8u8)
    } else if b == 102 {
        Some(12u8)
    } else {
        None
    }
}

/// The value of one hexadecimal digit, upper or lower case.
pub open spec fn spec_hex_val(b: u8) -> Option<int> {
    if 48 <= b && b <= 57 {
        Some((b - 48) as int)
    } else if 97 <= b && b <= 102 {
        Some((b - 87) as int)
    } else if 65 <= b && b <= 70 {
        Some((b - 55) as int)
    } else {
        None
    }
}

/// The value of the four hexadecimal digits at `i`.
pub open spec fn spec_hex4(s: Seq<u8>, i: int) -> Option<int> {
    if 0 <= i && i + 4 <= s.len() {
        match (spec_hex_val(s[i]), spec_hex_val(s[i + 1]), spec_hex_val(s[i + 2]), spec_hex_val(
            s[i + 3],
        )) {
            (Some(a), Some(b), Some(c), Some(d)) => Some(a * 4096 + b * 256 + c * 16 + d),
            _ => None,
        }
    } else {
        None
    }
}

/// The UTF-8 encoding of one code point below `0x110000`.
pub open spec fn spec_utf8_of(cp: int) -> Seq<u8> {
    if cp < 0x80 {
        seq![cp as u8]
    } else if cp < 0x800 {
        seq![(192 + cp / 64) as u8, (128 + cp % 64) as u8]
    } else if cp < 0x10000 {
        seq![(224 + cp / 4096) as u8, (128 + (cp / 64) % 64) as u8, (128 + cp % 64) as u8]
    } else {
        seq![
            (240 + cp / 262144) as u8,
            (128 + (cp / 4096) % 64) as u8,
            (128 + (cp / 64) % 64) as u8,
            (128 + cp % 64) as u8,
        ]
    }
}

/// String content from position `i` (just after the opening quote) up to a
/// closing quote: the unescaped bytes and the position after the quote.
/// A `\uXXXX` escape yields the code point's UTF-8 bytes; a high surrogate
/// must be followed by a low one, and a lone surrogate is refused, as are
/// unescaped control bytes and a dangling backslash.
pub open spec fn spec_string_body(s: Seq<u8>, i: int) -> Option<(Seq<u8>, int)>
    decreases s.len() - i,
{
    if 0 <= i && i < s.len() {
        let b = s[i];
        if b == 34 {
            Some((Seq::<u8>::empty(), i + 1))
        } else if b == 92 {
            if i + 1 < s.len() {
                if s[i + 1] == 117 {
                    match spec_hex4(s, i + 2) {
                        Some(c1) => {
                            if i + 6 <= s.len() {
                                if 0xD800 <= c1 && c1 < 0xDC00 {
                                    if i + 8 <= s.len() && s[i + 6] == 92 && s[i + 7] == 117 {
                                        match spec_hex4(s, i + 8) {
                                            Some(c2) => {
                                                if 0xDC00 <= c2 && c2 < 0xE000 && i + 12
                                                    <= s.len() {
                                                    match spec_string_body(s, i + 12) {
                                                        Some(t) => Some(
                                                            (
                                                                spec_utf8_of(
                                                                    0x10000 + (c1 - 0xD800) * 0x400
                                                                        + (c2 - 0xDC00),
                                                                ) + t.0,
                                                                t.1,
                                                            ),
                                                        ),
                                                        None => None,
                                                    }
                                                } else {
                                                    None
                                                }
                                            },
                                            None => None,
                                        }
                                    } else {
                                        None
                                    }
                                } else if 0xDC00 <= c1 && c1 < 0xE000 {
                                    None
                                } else {
                                    match spec_string_body(s, i + 6) {
                                        Some(t) => Some((spec_utf8_of(c1) + t.0, t.1)),
                                        None => None,
                                    }
                                }
                            } else {
                                None
                            }
                        },
                        None => None,
                    }
                } else {
                    match spec_unescape(s[i + 1]) {
                        Some(c) => match spec_string_body(s, i + 2) {
                            Some(t) => Some((seq![c] + t.0, t.1)),
                            None => None,
                        },
                        None => None,
                    }
                }
            } else {
                None
            }
        } else if b < 32 {
            None
        } else {
            match spec_string_body(s, i + 1) {
                Some(t) => Some((seq![b] + t.0, t.1)),
                None => None,
            }
        }
    } else {
        None
    }
}

fn hex_val(b: u8) -> (r: Option<u8>)
    ensures
        match spec_hex_val(b) {
            Some(v) => (r matches Some(rv) && rv as int == v && v < 16),
            None => r is None,
        },
{
    if 48 <= b && b <= 57 {
        Some(b - 48)
    } else if 97 <= b && b <= 102 {
        Some(b - 87)
    } else if 65 <= b && b <= 70 {
        Some(b - 55)
    } else {
        None
    }
}

fn hex4(s: &[u8], i: usize) -> (r: Option<u32>)
    requires
        i <= s@.len(),
    ensures
        match spec_hex4(s@, i as int) {
            Some(v) => (r matches Some(rv) && rv as int == v && i + 4 <= s@.len() && v < 0x10000),
            None => r is None,
        },
{
    if s.len() - i >= 4 {
        match (hex_val(s[i]), hex_val(s[i + 1]), hex_val(s[i + 2]), hex_val(s[i + 3])) {
            (Some(a), Some(b), Some(c), Some(d)) => Some(
                (a as u32) * 4096 + (b as u32) * 256 + (c as u32) * 16 + (d as u32),
            ),
            _ => None,
        }
    } else {
        None
    }
}

fn utf8_of(cp: u32) -> (r: Vec<u8>)
    requires
        cp < 0x110000,
    ensures
        r@ == spec_utf8_of(cp as int),
{
    let mut r: Vec<u8> = Vec::new();
    if cp < 0x80 {
        r.push(cp as u8);
        proof {
            assert(r@ =~= spec_utf8_of(cp as int));
        }
    } else if cp < 0x800 {
        r.push((192 + cp / 64) as u8);
        r.push((128 + cp % 64) as u8);
        proof {
            assert(r@ =~= spec_utf8_of(cp as int));
        }
    } else if cp < 0x10000 {
        r.push((224 + cp / 4096) as u8);
        r.push((128 + (cp / 64) % 64) as u8);
        r.push((128 + cp % 64) as u8);
        proof {
            assert(r@ =~= spec_utf8_of(cp as int));
        }
    } else {
        r.push((240 + cp / 262144) as u8);
        r.push((128 + (cp / 4096) % 64) as u8);
        r.push((128 + (cp / 64) % 64) as u8);
        r.push((128 + cp % 64) as u8);
        proof {
            assert(r@ =~= spec_utf8_of(cp as int));
        }
    }
    r
}

pub fn string_body(s: &[u8], i: usize) -> (r: Option<(Vec<u8>, usize)>)
    requires
        i <= s@.len(),
    ensures
        match spec_string_body(s@, i as int) {
            Some(t) => (r matches Some(rv) && rv.0@ == t.0 && rv.1 as int == t.1 && i < rv.1
                <= s@.len()),
            None => r is None,
        },
    decreases s@.len() - i,
{
    if i < s.len() {
        let b = s[i];
        if b == 34 {
            Some((Vec::new(), i + 1))
        } else if b == 92 {
            if i + 1 < s.len() {
                if s[i + 1] == 117 {
                    match hex4(s, i + 2) {
                        Some(c1) => {
                            if s.len() - i >= 6 {
                                if 0xD800 <= c1 && c1 < 0xDC00 {
                                    if s.len() - i >= 8 && s[i + 6] == 92 && s[i + 7] == 117 {
                                        match hex4(s, i + 8) {
                                            Some(c2) => {
                                                if 0xDC00 <= c2 && c2 < 0xE000 && s.len() - i
                                                    >= 12 {
                                                    match string_body(s, i + 12) {
                                                        Some((mut t, j)) => {
                                                            let cp: u32 = 0x10000 + (c1 - 0xD800)
                                                                * 0x400 + (c2 - 0xDC00);
                                                            let mut u = utf8_of(cp);
                                                            u.append(&mut t);
                                                            Some((u, j))
                                                        },
                                                        None => None,
                                                    }
                                                } else {
                                                    None
                                                }
                                            },
                                            None => None,
                                        }
                                    } else {
                                        None
                                    }
                                } else if 0xDC00 <= c1 && c1 < 0xE000 {
                                    None
                                } else {
                                    match string_body(s, i + 6) {
                                        Some((mut t, j)) => {
                                            let mut u = utf8_of(c1);
                                            u.append(&mut t);
                                            Some((u, j))
                                        },
                                        None => None,
                                    }
                                }
                            } else {
                                None
                            }
                        },
                        None => None,
                    }
                } else {
                    match unescape(s[i + 1]) {
                        Some(c) => match string_body(s, i + 2) {
                            Some((mut t, j)) => {
                                t.insert(0, c);
                                proof {
                                    assert(t@ =~= seq![c] + t@.subrange(1, t@.len() as int));
                                }
                                Some((t, j))
                            },
                            None => None,
                        },
                        None => None,
                    }
                }
            } else {
                None
            }
        } else if b < 32 {
            None
        } else {
            match string_body(s, i + 1) {
                Some((mut t, j)) => {
                    t.insert(0, b);
                    proof {
                        assert(t@ =~= seq![b] + t@.subrange(1, t@.len() as int));
                    }
                    Some((t, j))
                },
                None => None,
            }
        }
    } else {
        None
    }
}

/// A quoted string starting at `i`: content bytes and position after the
/// closing quote.
pub open spec fn spec_parse_string(s: Seq<u8>, i: int) -> Option<(Seq<u8>, int)> {
    if 0 <= i && i < s.len() && s[i] == 34 {
        spec_string_body(s, i + 1)
    } else {
        None
    }
}

pub fn parse_string(s: &[u8], i: usize) -> (r: Option<(Vec<u8>, usize)>)
    requires
        i <= s@.len(),
    ensures
        match spec_parse_string(s@, i as int) {
            Some(t) => (r matches Some(rv) && rv.0@ == t.0 && rv.1 as int == t.1 && i < rv.1
                <= s@.len()),
            None => r is None,
        },
{
    if i < s.len() && s[i] == 34 {
        string_body(s, i + 1)
    } else {
        None
    }
}

/// The first position at or after `i` that holds no digit.
pub open spec fn spec_digits_end(s: Seq<u8>, i: int) -> int
    decreases s.len() - i,
{
    if 0 <= i && i < s.len() && is_digit(s[i]) {
        spec_digits_end(s, i + 1)
    } else {
        i
    }
}

pub proof fn lemma_digits_end_props(s: Seq<u8>, i: int)
    requires
        0 <= i <= s.len(),
    ensures
        i <= spec_digits_end(s, i) <= s.len(),
        forall|k: int| i <= k < spec_digits_end(s, i) ==> is_digit(s[k]),
    decreases s.len() - i,
{
    if i < s.len() && is_digit(s[i]) {
        lemma_digits_end_props(s, i + 1);
    }
}

pub fn digits_end(s: &[u8], i: usize) -> (r: usize)
    requires
        i <= s@.len(),
    ensures
        r == spec_digits_end(s@, i as int),
        i <= r <= s@.len(),
    decreases s@.len() - i,
{
    if i < s.len() && 48 <= s[i] && s[i] <= 57 {
        digits_end(s, i + 1)
    } else {
        i
    }
}

/// The decimal value of the digit run `s[i..j)`.
pub open spec fn spec_digits_value(s: Seq<u8>, i: int, j: int) -> int
    decreases j - i,
{
    if i < j {
        spec_digits_value(s, i, j - 1) * 10 + (s[j - 1] - 48)
    } else {
        0
    }
}

pub proof fn lemma_digits_value_nonneg(s: Seq<u8>, i: int, j: int)
    requires
        0 <= i <= j <= s.len(),
        forall|k: int| i <= k < j ==> is_digit(s[k]),
    ensures
        0 <= spec_digits_value(s, i, j),
    decreases j - i,
{
    if i < j {
        lemma_digits_value_nonneg(s, i, j - 1);
        let v = spec_digits_value(s, i, j - 1);
        assert(v * 10 + (s[j - 1] - 48) >= 0) by (nonlinear_arith)
            requires
                0 <= v,
                s[j - 1] >= 48,
        ;
    }
}

/// A longer digit run never has a smaller value.
pub proof fn lemma_digits_value_monotone(s: Seq<u8>, i: int, k: int, j: int)
    requires
        0 <= i <= k <= j <= s.len(),
        forall|m: int| i <= m < j ==> is_digit(s[m]),
    ensures
        spec_digits_value(s, i, k) <= spec_digits_value(s, i, j),
    decreases j - k,
{
    if k < j {
        lemma_digits_value_monotone(s, i, k, j - 1);
        lemma_digits_value_nonneg(s, i, j - 1);
        let v = spec_digits_value(s, i, j - 1);
        assert(v * 10 + (s[j - 1] - 48) >= v) by (nonlinear_arith)
            requires
                0 <= v,
                s[j - 1] >= 48,
        ;
    }
}

/// An integer literal at `i`: an optional minus sign, then digits without a
/// leading zero, whose value fits a 64-bit signed integer. Its value, and
/// the position after the last digit.
pub open spec fn spec_parse_int(s: Seq<u8>, i: int) -> Option<(int, int)> {
    if 0 <= i && i < s.len() {
        let neg = s[i] == 45;
        let i0 = if neg {
            i + 1
        } else {
            i
        };
        let j = spec_digits_end(s, i0);
        if i0 < j && !(s[i0] == 48 && j > i0 + 1) {
            let v = spec_digits_value(s, i0, j);
            let signed = if neg {
                -v
            } else {
                v
            };
            if -0x8000000000000000 <= signed && signed <= 0x7fffffffffffffff {
                Some((signed, j))
            } else {
                None
            }
        } else {
            None
        }
    } else {
        None
    }
}

pub fn parse_int(s: &[u8], i: usize) -> (r: Option<(i64, usize)>)
    requires
        i <= s@.len(),
    ensures
        match spec_parse_int(s@, i as int) {
            Some(t) => (r matches Some(rv) && rv.0 as int == t.0 && rv.1 as int == t.1 && i < rv.1
                <= s@.len()),
            None => r is None,
        },
{
    if i < s.len() {
        let neg = s[i] == 45;
        let i0 = if neg {
            i + 1
        } else {
            i
        };
        let j = digits_end(s, i0);
        if i0 < j && !(s[i0] == 48 && j > i0 + 1) {
            proof {
                lemma_digits_end_props(s@, i0 as int);
            }
            let limit: u64 = if neg {
                0x8000000000000000
            } else {
                0x7fffffffffffffff
            };
            let mut acc: u64 = 0;
            let mut k: usize = i0;
            while k < j
                invariant
                    i < s@.len(),
                    i0 <= k <= j <= s@.len(),
                    neg == (s@[i as int] == 45),
                    i0 as int == (if neg {
                        i as int + 1
                    } else {
                        i as int
                    }),
                    i0 < j,
                    !(s@[i0 as int] == 48 && j > i0 + 1),
                    j == spec_digits_end(s@, i0 as int),
                    forall|m: int| i0 <= m < j ==> is_digit(s@[m]),
                    acc as int == spec_digits_value(s@, i0 as int, k as int),
                    acc <= limit,
                    limit == (if neg {
                        0x8000000000000000u64
                    } else {
                        0x7fffffffffffffffu64
                    }),
                decreases j - k,
            {
                let d = (s[k] - 48) as u64;
                let wide = (acc as u128) * 10 + (d as u128);
                if wide > limit as u128 {
                    proof {
                        assert(spec_digits_value(s@, i0 as int, k as int + 1) == spec_digits_value(
                            s@,
                            i0 as int,
                            k as int,
                        ) * 10 + (s@[k as int] - 48));
                        assert(spec_digits_value(s@, i0 as int, k as int + 1) > limit);
                        lemma_digits_value_monotone(s@, i0 as int, k as int + 1, j as int);
                        assert(spec_digits_value(s@, i0 as int, j as int) > limit);
                        assert(spec_parse_int(s@, i as int) is None);
                    }
                    return None;
                }
                acc = wide as u64;
                k = k + 1;
            }
            if neg {
                if acc == 0x8000000000000000 {
                    Some((i64::MIN, j))
                } else {
                    Some((0 - (acc as i64), j))
                }
            } else {
                Some((acc as i64, j))
            }
        } else {
            None
        }
    } else {
        None
    }
}

/// The end of a fraction part at `j`: past `.digits` where one starts
/// there, `j` itself where none does, and `None` for a bare dot.
pub open spec fn spec_after_frac(s: Seq<u8>, j: int) -> Option<int> {
    if 0 <= j && j < s.len() && s[j] == 46 {
        let j2 = spec_digits_end(s, j + 1);
        if j2 > j + 1 {
            Some(j2)
        } else {
            None
        }
    } else {
        Some(j)
    }
}

/// The end of an exponent part at `j`: past `e`/`E`, an optional sign and
/// digits where one starts there, `j` itself where none does.
pub open spec fn spec_after_exp(s: Seq<u8>, j: int) -> Option<int> {
    if 0 <= j && j < s.len() && (s[j] == 101 || s[j] == 69) {
        let k = if j + 1 < s.len() && (s[j + 1] == 43 || s[j + 1] == 45) {
            j + 2
        } else {
            j + 1
        };
        let k2 = spec_digits_end(s, k);
        if k2 > k {
            Some(k2)
        } else {
            None
        }
    } else {
        Some(j)
    }
}

/// One JSON number starting at `i`, checked for shape only: an optional
/// minus, an integer part without leading zeros, an optional fraction and
/// exponent. The position after it.
pub open spec fn spec_skip_number(s: Seq<u8>, i: int) -> Option<int> {
    if 0 <= i && i < s.len() {
        let i0 = if s[i] == 45 {
            i + 1
        } else {
            i
        };
        if i0 < s.len() && is_digit(s[i0]) {
            let j = spec_digits_end(s, i0);
            if s[i0] == 48 && j > i0 + 1 {
                None
            } else {
                match spec_after_frac(s, j) {
                    Some(j2) => spec_after_exp(s, j2),
                    None => None,
                }
            }
        } else {
            None
        }
    } else {
        None
    }
}

fn after_frac(s: &[u8], j: usize) -> (r: Option<usize>)
    requires
        j <= s@.len(),
    ensures
        match spec_after_frac(s@, j as int) {
            Some(e) => (r matches Some(re) && re as int == e && j <= re <= s@.len()),
            None => r is None,
        },
{
    if j < s.len() && s[j] == 46 {
        let j2 = digits_end(s, j + 1);
        if j2 > j + 1 {
            Some(j2)
        } else {
            None
        }
    } else {
        Some(j)
    }
}

fn after_exp(s: &[u8], j: usize) -> (r: Option<usize>)
    requires
        j <= s@.len(),
    ensures
        match spec_after_exp(s@, j as int) {
            Some(e) => (r matches Some(re) && re as int == e && j <= re <= s@.len()),
            None => r is None,
        },
{
    if j < s.len() && (s[j] == 101 || s[j] == 69) {
        let k = if j + 1 < s.len() && (s[j + 1] == 43 || s[j + 1] == 45) {
            j + 2
        } else {
            j + 1
        };
        let k2 = digits_end(s, k);
        if k2 > k {
            Some(k2)
        } else {
            None
        }
    } else {
        Some(j)
    }
}

pub fn skip_number(s: &[u8], i: usize) -> (r: Option<usize>)
    requires
        i <= s@.len(),
    ensures
        match spec_skip_number(s@, i as int) {
            Some(e) => (r matches Some(re) && re as int == e && i < re <= s@.len()),
            None => r is None,
        },
{
    if i < s.len() {
        let i0 = if s[i] == 45 {
            i + 1
        } else {
            i
        };
        if i0 < s.len() && 48 <= s[i0] && s[i0] <= 57 {
            let j = digits_end(s, i0);
            proof {
                lemma_digits_end_props(s@, i0 as int + 1);
                assert(spec_digits_end(s@, i0 as int) == spec_digits_end(s@, i0 as int + 1));
            }
            if s[i0] == 48 && j > i0 + 1 {
                None
            } else {
                match after_frac(s, j) {
                    Some(j2) => after_exp(s, j2),
                    None => None,
                }
            }
        } else {
            None
        }
    } else {
        None
    }
}

/// One JSON value of any shape starting at `i`, checked for structure only:
/// the position after it. An unknown field of a message may hold any of
/// these.
pub open spec fn spec_skip_value(s: Seq<u8>, i: int) -> Option<int>
    decreases s.len() - i, 0int,
{
    if 0 <= i && i < s.len() {
        let b = s[i];
        if b == 34 {
            match spec_string_body(s, i + 1) {
                Some(t) => Some(t.1),
                None => None,
            }
        } else if b == 116 {
            if i + 4 <= s.len() && s[i + 1] == 114 && s[i + 2] == 117 && s[i + 3] == 101 {
                Some(i + 4)
            } else {
                None
            }
        } else if b == 102 {
            if i + 5 <= s.len() && s[i + 1] == 97 && s[i + 2] == 108 && s[i + 3] == 115 && s[i + 4]
                == 101 {
                Some(i + 5)
            } else {
                None
            }
        } else if b == 110 {
            if i + 4 <= s.len() && s[i + 1] == 117 && s[i + 2] == 108 && s[i + 3] == 108 {
                Some(i + 4)
            } else {
                None
            }
        } else if b == 45 || is_digit(b) {
            spec_skip_number(s, i)
        } else if b == 91 {
            let j = spec_skip_ws(s, i + 1);
            if 0 <= j && j < s.len() && s[j] == 93 {
                Some(j + 1)
            } else if i < j && j <= s.len() {
                spec_skip_items(s, j)
            } else {
                None
            }
        } else if b == 123 {
            let j = spec_skip_ws(s, i + 1);
            if 0 <= j && j < s.len() && s[j] == 125 {
                Some(j + 1)
            } else if i < j && j <= s.len() {
                spec_skip_pairs(s, j)
            } else {
                None
            }
        } else {
            None
        }
    } else {
        None
    }
}

/// Array items from the first one on: the position after the closing
/// bracket.
pub open spec fn spec_skip_items(s: Seq<u8>, i: int) -> Option<int>
    decreases s.len() - i, 1int,
{
    match spec_skip_value(s, i) {
        Some(e) => {
            let k = spec_skip_ws(s, e);
            if 0 <= k && k < s.len() {
                if s[k] == 44 {
                    let n = spec_skip_ws(s, k + 1);
                    if i < n && n <= s.len() {
                        spec_skip_items(s, n)
                    } else {
                        None
                    }
                } else if s[k] == 93 {
                    Some(k + 1)
                } else {
                    None
                }
            } else {
                None
            }
        },
        None => None,
    }
}

/// Object pairs from the first one on: the position after the closing
/// brace.
pub open spec fn spec_skip_pairs(s: Seq<u8>, i: int) -> Option<int>
    decreases s.len() - i, 1int,
{
    match spec_parse_string(s, i) {
        Some(t) => {
            let c = spec_skip_ws(s, t.1);
            if 0 <= c && c < s.len() && s[c] == 58 {
                let v0 = spec_skip_ws(s, c + 1);
                if i < v0 && v0 <= s.len() {
                    match spec_skip_value(s, v0) {
                        Some(e) => {
                            let k = spec_skip_ws(s, e);
                            if 0 <= k && k < s.len() {
                                if s[k] == 44 {
                                    let n = spec_skip_ws(s, k + 1);
                                    if i < n && n <= s.len() {
                                        spec_skip_pairs(s, n)
                                    } else {
                                        None
                                    }
                                } else if s[k] == 125 {
                                    Some(k + 1)
                                } else {
                                    None
                                }
                            } else {
                                None
                            }
                        },
                        None => None,
                    }
                } else {
                    None
                }
            } else {
                None
            }
        },
        None => None,
    }
}

pub fn skip_value(s: &[u8], i: usize) -> (r: Option<usize>)
    requires
        i <= s@.len(),
    ensures
        match spec_skip_value(s@, i as int) {
            Some(e) => (r matches Some(re) && re as int == e && i < re <= s@.len()),
            None => r is None,
        },
    decreases s@.len() - i, 0int,
{
    if i < s.len() {
        let b = s[i];
        if b == 34 {
            match string_body(s, i + 1) {
                Some((_, j)) => Some(j),
                None => None,
            }
        } else if b == 116 {
            if s.len() - i >= 4 && s[i + 1] == 114 && s[i + 2] == 117 && s[i + 3] == 101 {
                Some(i + 4)
            } else {
                None
            }
        } else if b == 102 {
            if s.len() - i >= 5 && s[i + 1] == 97 && s[i + 2] == 108 && s[i + 3] == 115 && s[i + 4]
                == 101 {
                Some(i + 5)
            } else {
                None
            }
        } else if b == 110 {
            if s.len() - i >= 4 && s[i + 1] == 117 && s[i + 2] == 108 && s[i + 3] == 108 {
                Some(i + 4)
            } else {
                None
            }
        } else if b == 45 || (48 <= b && b <= 57) {
            skip_number(s, i)
        } else if b == 91 {
            let j = skip_ws(s, i + 1);
            if j < s.len() && s[j] == 93 {
                Some(j + 1)
            } else if i < j && j <= s.len() {
                skip_items(s, j)
            } else {
                None
            }
        } else if b == 123 {
            let j = skip_ws(s, i + 1);
            if j < s.len() && s[j] == 125 {
                Some(j + 1)
            } else if i < j && j <= s.len() {
                skip_pairs(s, j)
            } else {
                None
            }
        } else {
            None
        }
    } else {
        None
    }
}

pub fn skip_items(s: &[u8], i: usize) -> (r: Option<usize>)
    requires
        i <= s@.len(),
    ensures
        match spec_skip_items(s@, i as int) {
            Some(e) => (r matches Some(re) && re as int == e && i < re <= s@.len()),
            None => r is None,
        },
    decreases s@.len() - i, 1int,
{
    match skip_value(s, i) {
        Some(e) => {
            let k = skip_ws(s, e);
            if k < s.len() {
                if s[k] == 44 {
                    let n = skip_ws(s, k + 1);
                    if i < n && n <= s.len() {
                        skip_items(s, n)
                    } else {
                        None
                    }
                } else if s[k] == 93 {
                    Some(k + 1)
                } else {
                    None
                }
            } else {
                None
            }
        },
        None => None,
    }
}

pub fn skip_pairs(s: &[u8], i: usize) -> (r: Option<usize>)
    requires
        i <= s@.len(),
    ensures
        match spec_skip_pairs(s@, i as int) {
            Some(e) => (r matches Some(re) && re as int == e && i < re <= s@.len()),
            None => r is None,
        },
    decreases s@.len() - i, 1int,
{
    match parse_string(s, i) {
        Some((_, j)) => {
            let c = skip_ws(s, j);
            if c < s.len() && s[c] == 58 {
                let v0 = skip_ws(s, c + 1);
                if i < v0 && v0 <= s.len() {
                    match skip_value(s, v0) {
                        Some(e) => {
                            let k = skip_ws(s, e);
                            if k < s.len() {
                                if s[k] == 44 {
                                    let n = skip_ws(s, k + 1);
                                    if i < n && n <= s.len() {
                                        skip_pairs(s, n)
                                    } else {
                                        None
                                    }
                                } else if s[k] == 125 {
                                    Some(k + 1)
                                } else {
                                    None
                                }
                            } else {
                                None
                            }
                        },
                        None => None,
                    }
                } else {
                    None
                }
            } else {
                None
            }
        },
        None => None,
    }
}

/// One value of the grammar. The fields a message is made of are strings,
/// booleans, integers, and arrays of integers; a field of any other JSON
/// shape (a float, a null, something nested) is carried as `Other`, present
/// but without content, so unknown fields of any shape are tolerated.
pub enum JsonValue {
    Str(Vec<u8>),
    Bool(bool),
    Int(i64),
    Ints(Vec<i64>),
    Other,
}

/// The mathematical shape of a [`JsonValue`].
pub enum JsonValueV {
    Str(Seq<u8>),
    Bool(bool),
    Int(int),
    Ints(Seq<int>),
    Other,
}

impl View for JsonValue {
    type V = JsonValueV;

    open spec fn view(&self) -> JsonValueV {
        match self {
            JsonValue::Str(v) => JsonValueV::Str(v@),
            JsonValue::Bool(b) => JsonValueV::Bool(*b),
            JsonValue::Int(n) => JsonValueV::Int(*n as int),
            JsonValue::Ints(v) => JsonValueV::Ints(v@.map_values(|x: i64| x as int)),
            JsonValue::Other => JsonValueV::Other,
        }
    }
}

/// The integers of an array body starting at the first element: the values
/// and the position after the closing bracket.
pub open spec fn spec_int_items(s: Seq<u8>, i: int) -> Option<(Seq<int>, int)>
    decreases s.len() - i,
{
    match spec_parse_int(s, i) {
        Some(v) => {
            let k = spec_skip_ws(s, v.1);
            if 0 <= k && k < s.len() {
                if s[k] == 44 {
                    let n = spec_skip_ws(s, k + 1);
                    if i < n && n <= s.len() {
                        match spec_int_items(s, n) {
                            Some(t) => Some((seq![v.0] + t.0, t.1)),
                            None => None,
                        }
                    } else {
                        None
                    }
                } else if s[k] == 93 {
                    Some((seq![v.0], k + 1))
                } else {
                    None
                }
            } else {
                None
            }
        },
        None => None,
    }
}

pub fn int_items(s: &[u8], i: usize) -> (r: Option<(Vec<i64>, usize)>)
    requires
        i <= s@.len(),
    ensures
        match spec_int_items(s@, i as int) {
            Some(t) => (r matches Some(rv) && rv.0@.map_values(|x: i64| x as int) == t.0
                && rv.1 as int == t.1 && i < rv.1 <= s@.len()),
            None => r is None,
        },
    decreases s@.len() - i,
{
    match parse_int(s, i) {
        Some((v, j)) => {
            let k = skip_ws(s, j);
            if k < s.len() {
                if s[k] == 44 {
                    let n = skip_ws(s, k + 1);
                    if i < n && n <= s.len() {
                        match int_items(s, n) {
                            Some((mut t, end)) => {
                                t.insert(0, v);
                                proof {
                                    let tv = t@.map_values(|x: i64| x as int);
                                    let restv = t@.subrange(1, t@.len() as int).map_values(
                                        |x: i64| x as int,
                                    );
                                    assert(tv =~= seq![v as int] + restv);
                                }
                                Some((t, end))
                            },
                            None => None,
                        }
                    } else {
                        None
                    }
                } else if s[k] == 93 {
                    let mut t: Vec<i64> = Vec::new();
                    t.push(v);
                    proof {
                        assert(t@.map_values(|x: i64| x as int) =~= seq![v as int]);
                    }
                    Some((t, k + 1))
                } else {
                    None
                }
            } else {
                None
            }
        },
        None => None,
    }
}

/// An array of integers starting at `i`: `[` ws `]`, or `[` ws items.
pub open spec fn spec_parse_int_array(s: Seq<u8>, i: int) -> Option<(Seq<int>, int)> {
    if 0 <= i && i < s.len() && s[i] == 91 {
        let j = spec_skip_ws(s, i + 1);
        if 0 <= j && j < s.len() && s[j] == 93 {
            Some((Seq::<int>::empty(), j + 1))
        } else {
            spec_int_items(s, j)
        }
    } else {
        None
    }
}

pub fn parse_int_array(s: &[u8], i: usize) -> (r: Option<(Vec<i64>, usize)>)
    requires
        i <= s@.len(),
    ensures
        match spec_parse_int_array(s@, i as int) {
            Some(t) => (r matches Some(rv) && rv.0@.map_values(|x: i64| x as int) == t.0
                && rv.1 as int == t.1 && i < rv.1 <= s@.len()),
            None => r is None,
        },
{
    if i < s.len() && s[i] == 91 {
        let j = skip_ws(s, i + 1);
        if j < s.len() && s[j] == 93 {
            let t: Vec<i64> = Vec::new();
            proof {
                assert(t@.map_values(|x: i64| x as int) =~= Seq::<int>::empty());
            }
            Some((t, j + 1))
        } else {
            int_items(s, j)
        }
    } else {
        None
    }
}

/// A value starting at `i`, told apart by its first byte. A number that is
/// not a plain 64-bit integer, a null, a nested array or a nested object is
/// structurally checked and carried as `Other`.
pub open spec fn spec_parse_value(s: Seq<u8>, i: int) -> Option<(JsonValueV, int)> {
    if 0 <= i && i < s.len() {
        let b = s[i];
        if b == 34 {
            match spec_parse_string(s, i) {
                Some(t) => Some((JsonValueV::Str(t.0), t.1)),
                None => None,
            }
        } else if b == 116 {
            if i + 4 <= s.len() && s[i + 1] == 114 && s[i + 2] == 117 && s[i + 3] == 101 {
                Some((JsonValueV::Bool(true), i + 4))
            } else {
                None
            }
        } else if b == 102 {
            if i + 5 <= s.len() && s[i + 1] == 97 && s[i + 2] == 108 && s[i + 3] == 115 && s[i + 4]
                == 101 {
                Some((JsonValueV::Bool(false), i + 5))
            } else {
                None
            }
        } else if b == 45 || is_digit(b) {
            match spec_skip_number(s, i) {
                Some(e) => match spec_parse_int(s, i) {
                    Some(t) => if t.1 == e {
                        Some((JsonValueV::Int(t.0), e))
                    } else {
                        Some((JsonValueV::Other, e))
                    },
                    None => Some((JsonValueV::Other, e)),
                },
                None => None,
            }
        } else if b == 91 {
            match spec_parse_int_array(s, i) {
                Some(t) => Some((JsonValueV::Ints(t.0), t.1)),
                None => match spec_skip_value(s, i) {
                    Some(e) => Some((JsonValueV::Other, e)),
                    None => None,
                },
            }
        } else if b == 110 || b == 123 {
            match spec_skip_value(s, i) {
                Some(e) => Some((JsonValueV::Other, e)),
                None => None,
            }
        } else {
            None
        }
    } else {
        None
    }
}

pub fn parse_value(s: &[u8], i: usize) -> (r: Option<(JsonValue, usize)>)
    requires
        i <= s@.len(),
    ensures
        match spec_parse_value(s@, i as int) {
            Some(t) => (r matches Some(rv) && rv.0@ == t.0 && rv.1 as int == t.1 && i < rv.1
                <= s@.len()),
            None => r is None,
        },
{
    if i < s.len() {
        let b = s[i];
        if b == 34 {
            match parse_string(s, i) {
                Some((v, j)) => Some((JsonValue::Str(v), j)),
                None => None,
            }
        } else if b == 116 {
            if s.len() - i >= 4 && s[i + 1] == 114 && s[i + 2] == 117 && s[i + 3] == 101 {
                Some((JsonValue::Bool(true), i + 4))
            } else {
                None
            }
        } else if b == 102 {
            if s.len() - i >= 5 && s[i + 1] == 97 && s[i + 2] == 108 && s[i + 3] == 115 && s[i + 4]
                == 101 {
                Some((JsonValue::Bool(false), i + 5))
            } else {
                None
            }
        } else if b == 45 || (48 <= b && b <= 57) {
            match skip_number(s, i) {
                Some(e) => match parse_int(s, i) {
                    Some((v, j)) => if j == e {
                        Some((JsonValue::Int(v), e))
                    } else {
                        Some((JsonValue::Other, e))
                    },
                    None => Some((JsonValue::Other, e)),
                },
                None => None,
            }
        } else if b == 91 {
            match parse_int_array(s, i) {
                Some((v, j)) => Some((JsonValue::Ints(v), j)),
                None => match skip_value(s, i) {
                    Some(e) => Some((JsonValue::Other, e)),
                    None => None,
                },
            }
        } else if b == 110 || b == 123 {
            match skip_value(s, i) {
                Some(e) => Some((JsonValue::Other, e)),
                None => None,
            }
        } else {
            None
        }
    } else {
        None
    }
}

/// The mathematical shape of a field list: key bytes paired with values.
pub open spec fn fields_view(fs: Seq<(Vec<u8>, JsonValue)>) -> Seq<(Seq<u8>, JsonValueV)> {
    fs.map_values(|p: (Vec<u8>, JsonValue)| (p.0@, p.1@))
}

/// One `"key" ws : ws value` pair starting at `i`.
pub open spec fn spec_parse_pair(s: Seq<u8>, i: int) -> Option<((Seq<u8>, JsonValueV), int)> {
    match spec_parse_string(s, i) {
        Some(k) => {
            let c = spec_skip_ws(s, k.1);
            if 0 <= c && c < s.len() && s[c] == 58 {
                let v0 = spec_skip_ws(s, c + 1);
                if 0 <= v0 && v0 <= s.len() {
                    match spec_parse_value(s, v0) {
                        Some(v) => Some(((k.0, v.0), v.1)),
                        None => None,
                    }
                } else {
                    None
                }
            } else {
                None
            }
        },
        None => None,
    }
}

pub fn parse_pair(s: &[u8], i: usize) -> (r: Option<((Vec<u8>, JsonValue), usize)>)
    requires
        i <= s@.len(),
    ensures
        match spec_parse_pair(s@, i as int) {
            Some(t) => (r matches Some(rv) && rv.0.0@ == t.0.0 && rv.0.1@ == t.0.1 && rv.1 as int
                == t.1 && i < rv.1 <= s@.len()),
            None => r is None,
        },
{
    match parse_string(s, i) {
        Some((k, j)) => {
            let c = skip_ws(s, j);
            if c < s.len() && s[c] == 58 {
                let v0 = skip_ws(s, c + 1);
                match parse_value(s, v0) {
                    Some((v, end)) => Some(((k, v), end)),
                    None => None,
                }
            } else {
                None
            }
        },
        None => None,
    }
}

/// The members of an object from the first pair on: the field list and the
/// position after the closing brace.
pub open spec fn spec_parse_members(s: Seq<u8>, i: int) -> Option<
    (Seq<(Seq<u8>, JsonValueV)>, int),
>
    decreases s.len() - i,
{
    match spec_parse_pair(s, i) {
        Some(p) => {
            let k = spec_skip_ws(s, p.1);
            if 0 <= k && k < s.len() {
                if s[k] == 44 {
                    let n = spec_skip_ws(s, k + 1);
                    if i < n && n <= s.len() {
                        match spec_parse_members(s, n) {
                            Some(t) => Some((seq![p.0] + t.0, t.1)),
                            None => None,
                        }
                    } else {
                        None
                    }
                } else if s[k] == 125 {
                    Some((seq![p.0], k + 1))
                } else {
                    None
                }
            } else {
                None
            }
        },
        None => None,
    }
}

pub fn parse_members(s: &[u8], i: usize) -> (r: Option<(Vec<(Vec<u8>, JsonValue)>, usize)>)
    requires
        i <= s@.len(),
    ensures
        match spec_parse_members(s@, i as int) {
            Some(t) => (r matches Some(rv) && fields_view(rv.0@) == t.0 && rv.1 as int == t.1 && i
                < rv.1 <= s@.len()),
            None => r is None,
        },
    decreases s@.len() - i,
{
    match parse_pair(s, i) {
        Some((p, j)) => {
            let k = skip_ws(s, j);
            if k < s.len() {
                if s[k] == 44 {
                    let n = skip_ws(s, k + 1);
                    if i < n && n <= s.len() {
                        match parse_members(s, n) {
                            Some((mut t, end)) => {
                                t.insert(0, p);
                                proof {
                                    let whole = fields_view(t@);
                                    let rest = fields_view(t@.subrange(1, t@.len() as int));
                                    assert(whole =~= seq![(t@[0].0@, t@[0].1@)] + rest);
                                }
                                Some((t, end))
                            },
                            None => None,
                        }
                    } else {
                        None
                    }
                } else if s[k] == 125 {
                    let mut t: Vec<(Vec<u8>, JsonValue)> = Vec::new();
                    t.push(p);
                    proof {
                        assert(fields_view(t@) =~= seq![(t@[0].0@, t@[0].1@)]);
                    }
                    Some((t, k + 1))
                } else {
                    None
                }
            } else {
                None
            }
        },
        None => None,
    }
}

/// An object starting at `i`: `{` ws `}`, or `{` ws members.
pub open spec fn spec_parse_object(s: Seq<u8>, i: int) -> Option<
    (Seq<(Seq<u8>, JsonValueV)>, int),
> {
    if 0 <= i && i < s.len() && s[i] == 123 {
        let j = spec_skip_ws(s, i + 1);
        if 0 <= j && j < s.len() && s[j] == 125 {
            Some((Seq::<(Seq<u8>, JsonValueV)>::empty(), j + 1))
        } else {
            spec_parse_members(s, j)
        }
    } else {
        None
    }
}

pub fn parse_object(s: &[u8], i: usize) -> (r: Option<(Vec<(Vec<u8>, JsonValue)>, usize)>)
    requires
        i <= s@.len(),
    ensures
        match spec_parse_object(s@, i as int) {
            Some(t) => (r matches Some(rv) && fields_view(rv.0@) == t.0 && rv.1 as int == t.1 && i
                < rv.1 <= s@.len()),
            None => r is None,
        },
{
    if i < s.len() && s[i] == 123 {
        let j = skip_ws(s, i + 1);
        if j < s.len() && s[j] == 125 {
            let t: Vec<(Vec<u8>, JsonValue)> = Vec::new();
            proof {
                assert(fields_view(t@) =~= Seq::<(Seq<u8>, JsonValueV)>::empty());
            }
            Some((t, j + 1))
        } else {
            parse_members(s, j)
        }
    } else {
        None
    }
}

/// The field list of a chunk that is exactly one object, with whitespace
/// allowed around it, or `None` where the chunk is not of that form.
pub open spec fn spec_chunk_fields(s: Seq<u8>) -> Option<Seq<(Seq<u8>, JsonValueV)>> {
    let i = spec_skip_ws(s, 0);
    match spec_parse_object(s, i) {
        Some(p) => if spec_skip_ws(s, p.1) == s.len() {
            Some(p.0)
        } else {
            None
        },
        None => None,
    }
}

pub fn chunk_fields(s: &[u8]) -> (r: Option<Vec<(Vec<u8>, JsonValue)>>)
    ensures
        match spec_chunk_fields(s@) {
            Some(t) => (r matches Some(rv) && fields_view(rv@) == t),
            None => r is None,
        },
{
    let i = skip_ws(s, 0);
    match parse_object(s, i) {
        Some((fs, j)) => {
            let k = skip_ws(s, j);
            if k == s.len() {
                Some(fs)
            } else {
                None
            }
        },
        None => None,
    }
}

} // verus!
