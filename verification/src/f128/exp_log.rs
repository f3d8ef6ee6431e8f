//! Exponential, logarithms and real powers of [`F128`], each specified as
//! the exact sequence of binary128 operations that computes it.

use vstd::prelude::*;
use super::F128;
use super::arith::{add_spec, div_spec, mul_spec, nan_spec, neg_spec};
use super::bits::compose_spec;
use super::cmp::{gt_spec, lt_spec, num_eq};
use super::convert::from_int_spec;
use super::math::powi_spec;
use super::round::round_to_spec;

verus! {

/// `1.0`
pub open spec fn one_spec() -> F128 {
    F128::bits(0x3FFF_0000_0000_0000, 0)
}

/// ln 2
pub open spec fn ln2_spec() -> F128 {
    F128::bits(0x3FFE_62E4_2FEF_A39E, 0xF357_93C7_7FCE_2BBC)
}

/// ln 10, as the `f64` constant widened to binary128.
pub open spec fn ln10_spec() -> F128 {
    F128::bits(0x4000_26BB_1BBB_5551, 0x6000_0000_0000_0000)
}

/// `a - b`
pub open spec fn sub_spec(a: F128, b: F128) -> F128 {
    add_spec(a, neg_spec(b))
}

/// The series of e^r from step `n` on, `term` being r^(n-1)/(n-1)! and
/// `sum` the partial sum: each step divides `term * r` by `n` and adds it;
/// the series stops when the sum no longer changes, or after step 100.
pub open spec fn exp_series(r: F128, term: F128, sum: F128, n: int) -> F128
    decreases 101 - n,
{
    if n < 1 || n > 100 {
        sum
    } else {
        let t = div_spec(mul_spec(term, r), from_int_spec(n));
        let s = add_spec(sum, t);
        if num_eq(s, sum) {
            sum
        } else if n + 1 > 100 {
            s
        } else {
            exp_series(r, t, s, n + 1)
        }
    }
}

/// e^x: NaN for NaN, one for zero, infinity above 11356 and zero below
/// −11356; otherwise x = k·ln 2 + r with k = round(x / ln 2), the series
/// of e^r, then scaled by 2^k.
pub open spec fn exp_spec(x: F128) -> F128 {
    if x.is_nan_spec() {
        nan_spec()
    } else if x.is_zero_spec() {
        one_spec()
    } else if gt_spec(x, from_int_spec(11356)) {
        F128::bits(0x7FFF_0000_0000_0000, 0)
    } else if lt_spec(x, from_int_spec(-11356)) {
        F128::bits(0, 0)
    } else {
        let k = round_to_spec(div_spec(x, ln2_spec()), 0);
        let r = sub_spec(x, mul_spec(k, ln2_spec()));
        let k_int: i64 = match k.to_i64_checked_spec() {
            Some(v) => v,
            None => 0,
        };
        let sum = exp_series(r, one_spec(), one_spec(), 1);
        if k_int > 0 {
            mul_spec(sum, powi_spec(from_int_spec(2), k_int as i32))
        } else if k_int < 0 {
            div_spec(sum, powi_spec(from_int_spec(2), (-(k_int as int)) as i32))
        } else {
            sum
        }
    }
}

/// The series of atanh(z) = z + z³/3 + z⁵/5 + … from the odd step `n` on,
/// `term` being z^(n-2) and `sum` the partial sum; it stops when the sum no
/// longer changes, or once `n` would pass 200.
pub open spec fn ln_series(z2: F128, term: F128, sum: F128, n: int) -> F128
    decreases 201 - n,
{
    if n < 3 || n > 200 {
        sum
    } else {
        let t = mul_spec(term, z2);
        let s = add_spec(sum, div_spec(t, from_int_spec(n)));
        if num_eq(s, sum) {
            sum
        } else if n + 2 > 200 {
            s
        } else {
            ln_series(z2, t, s, n + 2)
        }
    }
}

/// ln x: NaN for NaN, −∞ for either zero, NaN for any other number with
/// its sign bit set, ∞ for ∞, zero for one; otherwise x = m·2^e with 1 ≤ m < 2, and
/// ln x = e·ln 2 + 2·atanh((m − 1)/(m + 1)).
pub open spec fn ln_spec(x: F128) -> F128 {
    if x.is_nan_spec() {
        nan_spec()
    } else if x.is_zero_spec() {
        F128::bits(0xFFFF_0000_0000_0000, 0)
    } else if x.sign_spec() {
        nan_spec()
    } else if x.is_infinite_spec() {
        F128::bits(0x7FFF_0000_0000_0000, 0)
    } else if x == one_spec() {
        F128::bits(0, 0)
    } else {
        let (sign, e, mant) = x.decompose_spec();
        let m = compose_spec(false, 0, mant);
        let z = div_spec(sub_spec(m, one_spec()), add_spec(m, one_spec()));
        let sum = ln_series(mul_spec(z, z), z, z, 3);
        add_spec(mul_spec(from_int_spec(e as int), ln2_spec()), mul_spec(sum, from_int_spec(2)))
    }
}

/// x^y: NaN when either is NaN, one for y = 0 or x = 1, for x = 0 infinity
/// or zero by the sign of y, NaN for a negative x and a non-integer y, the
/// integer power when y is an integer that fits in `i32`, else e^(y·ln x).
pub open spec fn powf_spec(x: F128, y: F128) -> F128 {
    if x.is_nan_spec() || y.is_nan_spec() {
        nan_spec()
    } else if y.is_zero_spec() {
        one_spec()
    } else if x == one_spec() {
        one_spec()
    } else if x.is_zero_spec() {
        if y.sign_spec() { F128::bits(0x7FFF_0000_0000_0000, 0) } else { F128::bits(0, 0) }
    } else if x.sign_spec() && !y.is_integer_spec() {
        nan_spec()
    } else if y.is_integer_spec() && (y.to_i64_checked_spec() matches Some(n) && i32::MIN <= n <= i32::MAX) {
        powi_spec(x, y.to_i64_checked_spec()->0 as i32)
    } else if ln_spec(x).is_nan_spec() {
        nan_spec()
    } else {
        exp_spec(mul_spec(y, ln_spec(x)))
    }
}

impl F128 {
    /// The exponential function (see [`exp_spec`]).
    pub fn exp(self) -> (r: Self)
        ensures
            r == exp_spec(self),
    {
        if self.is_nan() {
            return Self::nan();
        }
        if self.is_zero() {
            return Self::one();
        }
        if self.greater_than(&F128::from_i64(11356)) {
            return Self::infinity();
        }
        if self.less_than(&F128::from_i64(-11356)) {
            return Self::zero();
        }
        let ln2 = Self::ln_2();
        let k = self.div_f128(ln2).round();
        let r = self.sub_f128(k.mul_f128(ln2));
        let k_int: i64 = match k.to_i64_checked() {
            Some(v) => v,
            None => 0,
        };
        let mut term = Self::one();
        let mut sum = Self::one();
        let mut n: i64 = 1;
        let mut done = false;
        while !done
            invariant
                1 <= n <= 100,
                !done ==> exp_series(r, term, sum, n as int) == exp_series(r, one_spec(), one_spec(), 1),
                done ==> sum == exp_series(r, one_spec(), one_spec(), 1),
            decreases (if done { 0 } else { 101 - n }),
        {
            let t = term.mul_f128(r).div_f128(F128::from_i64(n));
            let s = sum.add_f128(t);
            if s.num_equals(&sum) {
                done = true;
            } else if n + 1 > 100 {
                sum = s;
                done = true;
            } else {
                term = t;
                sum = s;
                n = n + 1;
            }
        }
        let two = F128::from_i64(2);
        if k_int > 0 {
            sum.mul_f128(two.powi(k_int as i32))
        } else if k_int < 0 {
            let m: i128 = -(k_int as i128);
            sum.div_f128(two.powi(m as i32))
        } else {
            sum
        }
    }

    /// The natural logarithm (see [`ln_spec`]).
    pub fn ln(self) -> (r: Self)
        ensures
            r == ln_spec(self),
    {
        if self.is_nan() {
            return Self::nan();
        }
        if self.is_zero() {
            return Self::neg_infinity();
        }
        if self.is_sign_negative() {
            return Self::nan();
        }
        if self.is_infinite() {
            return Self::infinity();
        }
        if self.is_one() {
            return Self::zero();
        }
        let (_sign, e, mant) = self.decompose();
        let m = Self::compose(false, 0, mant);
        let one = Self::one();
        let z = m.sub_f128(one).div_f128(m.add_f128(one));
        let z2 = z.mul_f128(z);
        let mut term = z;
        let mut sum = z;
        let mut n: u64 = 3;
        let mut done = false;
        while !done
            invariant
                3 <= n <= 200,
                !done ==> ln_series(z2, term, sum, n as int) == ln_series(z2, z, z, 3),
                done ==> sum == ln_series(z2, z, z, 3),
            decreases (if done { 0 } else { 201 - n }),
        {
            let t = term.mul_f128(z2);
            let s = sum.add_f128(t.div_f128(F128::from_u64(n)));
            if s.num_equals(&sum) {
                done = true;
            } else if n + 2 > 200 {
                sum = s;
                done = true;
            } else {
                term = t;
                sum = s;
                n = n + 2;
            }
        }
        F128::from_i64(e as i64).mul_f128(Self::ln_2()).add_f128(sum.mul_f128(F128::from_i64(2)))
    }

    /// The base-2 logarithm: ln x / ln 2.
    pub fn log2(self) -> (r: Self)
        ensures
            r == div_spec(ln_spec(self), ln2_spec()),
    {
        self.ln().div_f128(Self::ln_2())
    }

    /// The base-10 logarithm: ln x / ln 10 (see [`ln10_spec`]).
    pub fn log10(self) -> (r: Self)
        ensures
            r == div_spec(ln_spec(self), ln10_spec()),
    {
        self.ln().div_f128(F128 { high: 0x4000_26BB_1BBB_5551, low: 0x6000_0000_0000_0000 })
    }

    /// A real power (see [`powf_spec`]).
    pub fn powf(self, exp: Self) -> (r: Self)
        ensures
            r == powf_spec(self, exp),
    {
        if self.is_nan() || exp.is_nan() {
            return Self::nan();
        }
        if exp.is_zero() {
            return Self::one();
        }
        if self.is_one() {
            return Self::one();
        }
        if self.is_zero() {
            return if exp.is_sign_negative() { Self::infinity() } else { Self::zero() };
        }
        let integral = exp.is_integer();
        if self.is_sign_negative() && !integral {
            return Self::nan();
        }
        if integral {
            if let Some(n) = exp.to_i64_checked() {
                if n >= i32::MIN as i64 && n <= i32::MAX as i64 {
                    return self.powi(n as i32);
                }
            }
        }
        let ln_x = self.ln();
        if ln_x.is_nan() {
            return Self::nan();
        }
        exp.mul_f128(ln_x).exp()
    }
}

} // verus!
