//! Reading [`F128`] numbers from decimal text.

use vstd::prelude::*;
use super::{F128, ParseF128Error};
use super::arith::{mul_spec, div_spec, neg_spec};
use super::bits::signed_zero;
use super::convert::from_int_spec;
use super::math::powi_spec;
use crate::text::{
    all_ascii_digits, ascii_lower_seq, ascii_lowercase_chars, chars_of, decimal_value,
    is_ascii_digit, lemma_pow10_mono, pow10, spec_is_ascii_digit, str_eq, string_from_chars,
    trim_chars, trimmed,
};

verus! {

// ---------------------------------------------------------------------------
//                          SCALING BY POWERS OF TEN
// ---------------------------------------------------------------------------

/// The base of each scaling step: ten, the number with bits
/// `0x4002_4000_0000_0000`, `0`.
pub open spec fn scale_base() -> F128 {
    F128::bits(0x4002_4000_0000_0000, 0)
}

/// The factor and the count of decimal places that one scaling step
/// takes for `n` remaining places: the base to the powers 100, 10, then 1.
pub open spec fn scale_factor(n: int) -> (F128, int) {
    if n >= 100 {
        (powi_spec(scale_base(), 100), 100)
    } else if n >= 10 {
        (powi_spec(scale_base(), 10), 10)
    } else {
        (scale_base(), 1)
    }
}

/// Multiplies `v` by the base `n` times in steps of [`scale_factor`], stopping
/// at the first infinite product.
pub open spec fn scale_up(v: F128, n: int) -> F128
    decreases n,
{
    if n <= 0 {
        v
    } else {
        let w = mul_spec(v, scale_factor(n).0);
        if w.is_infinite_spec() {
            w
        } else {
            scale_up(w, n - scale_factor(n).1)
        }
    }
}

/// Divides `v` by the base `n` times in steps of [`scale_factor`], stopping at
/// the first zero quotient.
pub open spec fn scale_down(v: F128, n: int) -> F128
    decreases n,
{
    if n <= 0 {
        v
    } else {
        let w = div_spec(v, scale_factor(n).0);
        if w.is_zero_spec() {
            w
        } else {
            scale_down(w, n - scale_factor(n).1)
        }
    }
}

/// `v` scaled by `n` decimal places (each one a step of the base of
/// [`scale_base`]); zeros, infinities and NaN stay as they are.
pub open spec fn scale_pow10_spec(v: F128, n: i32) -> F128 {
    if n == 0 || v.is_zero_spec() || !v.is_finite_spec() {
        v
    } else if n > 0 {
        scale_up(v, n as int)
    } else {
        scale_down(v, -(n as int))
    }
}

/// One scaling step for `n` remaining places (see [`scale_factor`]).
fn scale_step(n: u32) -> (r: (F128, u32))
    requires
        n > 0,
    ensures
        r.0 == scale_factor(n as int).0,
        r.1 as int == scale_factor(n as int).1,
{
    let base = F128 { high: 0x4002_4000_0000_0000, low: 0 };
    if n >= 100 {
        (base.powi(100), 100)
    } else if n >= 10 {
        (base.powi(10), 10)
    } else {
        (base, 1)
    }
}

/// `val` scaled by `n` decimal places (see [`scale_pow10_spec`]).
fn scale_by_power_of_10(val: F128, n: i32) -> (r: F128)
    ensures
        r == scale_pow10_spec(val, n),
{
    if n == 0 || val.is_zero() || !val.is_finite() {
        return val;
    }
    let mut v = val;
    if n > 0 {
        let mut m: u32 = n as u32;
        while m > 0
            invariant
                scale_up(v, m as int) == scale_up(val, n as int),
                scale_pow10_spec(val, n) == scale_up(val, n as int),
            decreases m,
        {
            let ghost (v0, m0) = (v, m);
            let (factor, step) = scale_step(m);
            v = v.mul_f128(factor);
            m = m - step;
            assert(scale_up(v0, m0 as int) == if v.is_infinite_spec() { v } else { scale_up(v, m as int) });
            if v.is_infinite() {
                return v;
            }
        }
        v
    } else {
        let mut m: u32 = if n == i32::MIN { 0x8000_0000u32 } else { (-n) as u32 };
        while m > 0
            invariant
                scale_down(v, m as int) == scale_down(val, -(n as int)),
                scale_pow10_spec(val, n) == scale_down(val, -(n as int)),
            decreases m,
        {
            let ghost (v0, m0) = (v, m);
            let (factor, step) = scale_step(m);
            v = v.div_f128(factor);
            m = m - step;
            assert(scale_down(v0, m0 as int) == if v.is_zero_spec() { v } else { scale_down(v, m as int) });
            if v.is_zero() {
                return v;
            }
        }
        v
    }
}

// ---------------------------------------------------------------------------
//                               LITERALS
// ---------------------------------------------------------------------------

/// The value named by a special literal, already in ASCII lowercase:
/// `nan`, `inf`, `infinity`, optionally signed.
pub open spec fn special_literal(l: Seq<char>) -> Option<F128> {
    if l == "nan"@ || l == "-nan"@ || l == "+nan"@ {
        Some(F128::bits(0x7FFF_8000_0000_0000, 0))
    } else if l == "inf"@ || l == "+inf"@ || l == "infinity"@ || l == "+infinity"@ {
        Some(F128::bits(0x7FFF_0000_0000_0000, 0))
    } else if l == "-inf"@ || l == "-infinity"@ {
        Some(F128::bits(0xFFFF_0000_0000_0000, 0))
    } else {
        None
    }
}

/// Whether `c` may stand in the digits of a literal: a digit or a dot.
pub open spec fn is_number_char(c: char) -> bool {
    c == '.' || spec_is_ascii_digit(c)
}

/// The first index at or after `i` whose character is neither a digit nor a dot.
pub open spec fn number_end(t: Seq<char>, i: int) -> int
    decreases t.len() - i,
{
    if i < 0 || i >= t.len() || !is_number_char(t[i]) {
        i
    } else {
        number_end(t, i + 1)
    }
}

/// The first index at or after `i` whose character is not a digit.
pub open spec fn digit_end(t: Seq<char>, i: int) -> int
    decreases t.len() - i,
{
    if i < 0 || i >= t.len() || !spec_is_ascii_digit(t[i]) {
        i
    } else {
        digit_end(t, i + 1)
    }
}

/// The number of dots in `s`.
pub open spec fn count_dots(s: Seq<char>) -> nat
    decreases s.len(),
{
    if s.len() == 0 {
        0
    } else {
        count_dots(s.drop_last()) + if s.last() == '.' { 1nat } else { 0nat }
    }
}

/// The characters of `s` other than dots.
pub open spec fn digits_of(s: Seq<char>) -> Seq<char>
    decreases s.len(),
{
    if s.len() == 0 {
        s
    } else if s.last() == '.' {
        digits_of(s.drop_last())
    } else {
        digits_of(s.drop_last()).push(s.last())
    }
}

/// How many digits come before the first dot of `s`.
pub open spec fn dot_index(s: Seq<char>) -> int
    decreases s.len(),
{
    if s.len() == 0 {
        0
    } else if count_dots(s.drop_last()) > 0 {
        dot_index(s.drop_last())
    } else {
        digits_of(s.drop_last()).len() as int
    }
}

/// The value of the first 38 digits (all of them when there are fewer);
/// later digits are dropped.
pub open spec fn kept_mantissa(ds: Seq<char>) -> int {
    decimal_value(ds.take(if ds.len() < 38 { ds.len() as int } else { 38 }))
}

/// Length of an optional leading sign.
pub open spec fn sign_len(t: Seq<char>) -> int {
    if t.len() > 0 && (t[0] == '-' || t[0] == '+') { 1 } else { 0 }
}

/// The exponent written at index `q` and the index after it: `(0, q)` when
/// no `e` or `E` stands there; `None` when the exponent has no digits or
/// more than ten. Its magnitude is capped at `i32::MAX`.
pub open spec fn exponent_part(t: Seq<char>, q: int) -> Option<(int, int)> {
    if 0 <= q < t.len() && (t[q] == 'e' || t[q] == 'E') {
        let s0 = q + 1;
        let neg = s0 < t.len() && t[s0] == '-';
        let es = if s0 < t.len() && (t[s0] == '-' || t[s0] == '+') { s0 + 1 } else { s0 };
        let ee = digit_end(t, es);
        if ee == es || ee - es > 10 {
            None
        } else {
            let v = decimal_value(t.subrange(es, ee));
            let m = if v > i32::MAX { i32::MAX as int } else { v };
            Some((if neg { -m } else { m }, ee))
        }
    } else {
        Some((0, q))
    }
}

/// `v` clamped to the range of `i32`.
pub open spec fn clamp_i32(v: int) -> i32 {
    if v < i32::MIN {
        i32::MIN
    } else if v > i32::MAX {
        i32::MAX
    } else {
        v as i32
    }
}

/// What a trimmed literal that is not a special name reads as.
///
/// The literal is an optional sign, digits with at most one dot (a dot
/// may stand first or last), and an optional exponent. The mantissa keeps
/// the first 38 digits; the decimal exponent is the written one minus the
/// number of digits after the dot, clamped to `i32`, and the value is the
/// mantissa scaled by that many powers of ten.
pub open spec fn decimal_outcome(t: Seq<char>) -> Option<Result<F128, ParseF128Error>> {
    let p = sign_len(t);
    let negative = t.len() > 0 && t[0] == '-';
    let q = number_end(t, p);
    let body = t.subrange(p, q);
    let ds = digits_of(body);
    if count_dots(body) >= 2 {
        Some(Err(ParseF128Error))
    } else if ds.len() == 0 {
        Some(Err(ParseF128Error))
    } else {
        let frac = if count_dots(body) == 1 { ds.len() - dot_index(body) } else { 0 };
        match exponent_part(t, q) {
            None => Some(Err(ParseF128Error)),
            Some(ex) => if ex.1 != t.len() {
                Some(Err(ParseF128Error))
            } else {
                let total = clamp_i32(ex.0 - frac);
                let m = kept_mantissa(ds);
                if m == 0 {
                    Some(Ok(signed_zero(negative)))
                } else {
                    let v = if negative { neg_spec(from_int_spec(m)) } else { from_int_spec(m) };
                    Some(Ok(if total == 0 { v } else { scale_pow10_spec(v, total) }))
                }
            },
        }
    }
}

/// What a literal reads as, around white space: a special name (any ASCII
/// case), else a decimal literal. `None` for literals of 2^31 characters or
/// more, whose digit count leaves the range of the counters.
pub open spec fn literal_outcome(s: Seq<char>) -> Option<Result<F128, ParseF128Error>> {
    let t = trimmed(s);
    if t.len() == 0 {
        Some(Err(ParseF128Error))
    } else {
        match special_literal(ascii_lower_seq(t)) {
            Some(v) => Some(Ok(v)),
            None => if t.len() >= 0x8000_0000 {
                None
            } else {
                decimal_outcome(t)
            },
        }
    }
}

/// The dots of a prefix are among the dots of the whole.
proof fn lemma_count_dots_prefix(s: Seq<char>, k: int)
    requires
        0 <= k <= s.len(),
    ensures
        count_dots(s.take(k)) <= count_dots(s),
    decreases s.len(),
{
    if k < s.len() {
        assert(s.drop_last().take(k) =~= s.take(k));
        lemma_count_dots_prefix(s.drop_last(), k);
    } else {
        assert(s.take(k) =~= s);
    }
}

/// Digits of a sequence of digits and dots are digits.
proof fn lemma_digits_of_digits(s: Seq<char>)
    requires
        forall|k: int| 0 <= k < s.len() ==> is_number_char(#[trigger] s[k]),
    ensures
        all_ascii_digits(digits_of(s)),
    decreases s.len(),
{
    if s.len() > 0 {
        lemma_digits_of_digits(s.drop_last());
        assert(is_number_char(s[s.len() - 1]));
    }
}

impl F128 {
    /// Reads the mantissa, the exponent and the rest of a trimmed literal
    /// that is not a special name (see [`decimal_outcome`]).
    fn read_decimal(t: &Vec<char>) -> (r: Option<Result<F128, ParseF128Error>>)
        requires
            0 < t.len() < 0x8000_0000,
        ensures
            r == decimal_outcome(t@),
    {
        let n = t.len();
        let ghost s = t@;
        let mut negative = false;
        let mut i: usize = 0;
        if t[0] == '-' {
            negative = true;
            i = 1;
        } else if t[0] == '+' {
            i = 1;
        }
        let p = i;
        let mut mant: u128 = 0;
        let mut len: u32 = 0;
        let mut dot: Option<u32> = None;
        proof {
            reveal_with_fuel(pow10, 39);
            assert(pow10(37) == 10000000000000000000000000000000000000nat);
            assert(s.subrange(p as int, p as int) =~= Seq::<char>::empty());
        }
        while i < n && (t[i] == '.' || is_ascii_digit(t[i]))
            invariant
                p <= i <= n,
                n == t.len(),
                s == t@,
                n < 0x8000_0000,
                p == sign_len(s),
                negative == (s.len() > 0 && s[0] == '-'),
                number_end(s, p as int) == number_end(s, i as int),
                forall|k: int| p <= k < i ==> is_number_char(#[trigger] s[k]),
                count_dots(s.subrange(p as int, i as int)) <= 1,
                len == digits_of(s.subrange(p as int, i as int)).len(),
                len <= i - p,
                dot == (if count_dots(s.subrange(p as int, i as int)) == 1 {
                    Some(dot_index(s.subrange(p as int, i as int)) as u32)
                } else {
                    None
                }),
                count_dots(s.subrange(p as int, i as int)) == 1 ==> 0 <= dot_index(s.subrange(p as int, i as int)) <= len,
                mant == kept_mantissa(digits_of(s.subrange(p as int, i as int))),
                len < 38 ==> mant < pow10(len as nat),
                pow10(37) == 10000000000000000000000000000000000000nat,
            decreases n - i,
        {
            let c = t[i];
            let ghost pre = s.subrange(p as int, i as int);
            let ghost post = s.subrange(p as int, i + 1);
            assert(post.drop_last() =~= pre);
            assert(post.last() == c);
            if c == '.' {
                if dot.is_some() {
                    proof {
                        let q = number_end(s, p as int);
                        assert(number_end(s, i as int) == number_end(s, i + 1));
                        lemma_number_end_ge(s, i + 1);
                        assert(s.subrange(p as int, q).take(i + 1 - p) =~= post);
                        lemma_count_dots_prefix(s.subrange(p as int, q), i + 1 - p);
                    }
                    return Some(Err(ParseF128Error));
                }
                dot = Some(len);
            } else {
                let d: u128 = (c as u32 - '0' as u32) as u128;
                let ghost ds = digits_of(pre);
                assert(digits_of(post) == ds.push(c));
                if len < 38 {
                    proof {
                        lemma_pow10_mono(len as nat, 37);
                        assert(ds.take(ds.len() as int) =~= ds);
                        assert(ds.push(c).take(len + 1) =~= ds.push(c));
                        assert(ds.push(c).drop_last() =~= ds);
                    }
                    mant = mant * 10 + d;
                } else {
                    proof {
                        assert(ds.push(c).take(38) =~= ds.take(38));
                    }
                }
                len = len + 1;
            }
            i = i + 1;
            proof {
                assert(number_end(s, i - 1) == number_end(s, i as int));
            }
        }
        let q = i;
        let ghost body = s.subrange(p as int, q as int);
        proof {
            assert(number_end(s, q as int) == q);
            lemma_digits_of_digits(body);
        }
        if len == 0 {
            return Some(Err(ParseF128Error));
        }
        let frac: i64 = match dot {
            Some(d) => (len - d) as i64,
            None => 0,
        };
        let mut e10: i64 = 0;
        if i < n && (t[i] == 'e' || t[i] == 'E') {
            i = i + 1;
            let mut eneg = false;
            if i < n && t[i] == '-' {
                eneg = true;
                i = i + 1;
            } else if i < n && t[i] == '+' {
                i = i + 1;
            }
            let es = i;
            let mut ev: u64 = 0;
            proof {
                assert(s.subrange(es as int, es as int) =~= Seq::<char>::empty());
            }
            while i < n && is_ascii_digit(t[i])
                invariant
                    es <= i <= n,
                    n == t.len(),
                    s == t@,
                    digit_end(s, es as int) == digit_end(s, i as int),
                    decimal_value(s.subrange(es as int, i as int)) >= 0,
                    ev == (if decimal_value(s.subrange(es as int, i as int)) < 0x8000_0000 {
                        decimal_value(s.subrange(es as int, i as int))
                    } else {
                        0x8000_0000
                    }),
                decreases n - i,
            {
                let c = t[i];
                let d: u64 = (c as u32 - '0' as u32) as u64;
                proof {
                    assert(s.subrange(es as int, i + 1).drop_last() =~= s.subrange(es as int, i as int));
                }
                if ev < 0x8000_0000 {
                    ev = ev * 10 + d;
                    if ev > 0x8000_0000 {
                        ev = 0x8000_0000;
                    }
                }
                i = i + 1;
                proof {
                    assert(digit_end(s, i - 1) == digit_end(s, i as int));
                }
            }
            proof {
                assert(digit_end(s, i as int) == i);
            }
            if i == es || i - es > 10 {
                return Some(Err(ParseF128Error));
            }
            let v: i64 = if ev > 0x7FFF_FFFF { 0x7FFF_FFFF } else { ev as i64 };
            e10 = if eneg { -v } else { v };
        }
        if i < n {
            return Some(Err(ParseF128Error));
        }
        let diff: i64 = e10 - frac;
        let total: i32 = if diff < -0x8000_0000 {
            -0x8000_0000
        } else if diff > 0x7FFF_FFFF {
            0x7FFF_FFFF
        } else {
            diff as i32
        };
        assert(total == clamp_i32(diff as int));
        proof {
            assert(digits_of(body).take(digits_of(body).len() as int) =~= digits_of(body));
        }
        if mant == 0 {
            return Some(Ok(if negative { Self::neg_zero() } else { Self::zero() }));
        }
        let mut v = Self::from_u128(mant);
        if negative {
            v = v.neg_f128();
        }
        if total != 0 {
            v = scale_by_power_of_10(v, total);
        }
        Some(Ok(v))
    }

    /// Reads a number literal (see [`literal_outcome`]): white space
    /// around it is ignored, `nan`, `inf` and `infinity` (optionally signed,
    /// in any ASCII case) name the special values, and anything else is a
    /// decimal literal.
    pub fn read_literal(s: &str) -> (r: Option<Result<F128, ParseF128Error>>)
        ensures
            r == literal_outcome(s@),
    {
        let all = chars_of(s);
        let t = trim_chars(&all);
        if t.len() == 0 {
            return Some(Err(ParseF128Error));
        }
        let lower = ascii_lowercase_chars(&t);
        let ls = string_from_chars(lower.as_slice());
        let l = ls.as_str();
        if str_eq(l, "nan") || str_eq(l, "-nan") || str_eq(l, "+nan") {
            return Some(Ok(Self::nan()));
        }
        if str_eq(l, "inf") || str_eq(l, "+inf") || str_eq(l, "infinity") || str_eq(l, "+infinity") {
            return Some(Ok(Self::infinity()));
        }
        if str_eq(l, "-inf") || str_eq(l, "-infinity") {
            return Some(Ok(Self::neg_infinity()));
        }
        if t.len() >= 0x8000_0000 {
            return None;
        }
        Self::read_decimal(&t)
    }
}

/// `number_end` never goes back.
proof fn lemma_number_end_ge(t: Seq<char>, i: int)
    requires
        0 <= i,
    ensures
        i <= number_end(t, i),
        number_end(t, i) <= if i <= t.len() { t.len() as int } else { i },
        forall|k: int| i <= k < number_end(t, i) ==> is_number_char(#[trigger] t[k]),
    decreases t.len() - i,
{
    if i < t.len() && is_number_char(t[i]) {
        lemma_number_end_ge(t, i + 1);
    }
}

/// Parsing a number literal: the value of [`F128::read_literal`]; a literal
/// on which it answers `None` is rejected.
impl core::str::FromStr for F128 {
    type Err = ParseF128Error;

    fn from_str(s: &str) -> (r: Result<F128, ParseF128Error>)
        ensures
            r == match literal_outcome(s@) {
                Some(res) => res,
                None => Err::<F128, ParseF128Error>(ParseF128Error),
            },
    {
        match F128::read_literal(s) {
            Some(r) => r,
            None => Err(ParseF128Error),
        }
    }
}

} // verus!
