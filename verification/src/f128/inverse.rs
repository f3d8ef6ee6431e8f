//! Square roots and inverse sines and cosines of [`F128`]: every step but
//! the first guess of a square root, which the caller supplies.

use vstd::prelude::*;
use super::F128;
use super::arith::{add_spec, div_spec, mul_spec, nan_spec, neg_spec};
use super::cmp::{gt_spec, lt_spec, num_eq};
use super::convert::from_int_spec;
use super::exp_log::{one_spec, sub_spec};
use super::trig::{abs_spec, frac_pi_2_spec};

verus! {

/// `0.5`
pub open spec fn half_spec() -> F128 {
    F128::bits(0x3FFE_0000_0000_0000, 0)
}

/// Newton's steps for √x from `g`: `g ← (g + x/g)·½`, at most `left` more
/// times, stopping once |g² − x| < ε·|x|.
pub open spec fn newton_steps(x: F128, g: F128, left: int) -> F128
    decreases left,
{
    if left <= 0 {
        g
    } else {
        let next = mul_spec(add_spec(g, div_spec(x, g)), half_spec());
        if lt_spec(abs_spec(sub_spec(mul_spec(next, next), x)), mul_spec(F128::bits(0x3F8F_0000_0000_0000, 0), abs_spec(x))) {
            next
        } else {
            newton_steps(x, next, left - 1)
        }
    }
}

/// √x from a first guess: NaN for NaN and for negative numbers other than
/// `-0.0`; zeros and infinities as they are; otherwise eight Newton steps
/// at most (see [`newton_steps`]).
pub open spec fn sqrt_spec(x: F128, guess: F128) -> F128 {
    if x.is_nan_spec() || (x.sign_spec() && !x.is_zero_spec()) {
        nan_spec()
    } else if x.is_zero_spec() || x.is_infinite_spec() {
        x
    } else {
        newton_steps(x, guess, 8)
    }
}

/// The arcsine series x + x³/6 + … from step `n` on: each step multiplies
/// the term by x²·(2n−1)² and divides it by (2n)(2n+1), adding it; it stops
/// after a zero term or after step 25.
pub open spec fn asin_terms(x2: F128, term: F128, sum: F128, n: int) -> F128
    decreases 26 - n,
{
    if n < 1 || n > 25 {
        sum
    } else {
        let t = div_spec(
            mul_spec(mul_spec(term, x2), from_int_spec((2 * n - 1) * (2 * n - 1))),
            from_int_spec((2 * n) * (2 * n + 1)),
        );
        let s = add_spec(sum, t);
        if t.is_zero_spec() {
            s
        } else {
            asin_terms(x2, t, s, n + 1)
        }
    }
}

/// What the arcsine gives without taking a square root: NaN for NaN and
/// outside [−1, 1], x for zero, ±π/2 for ±1, the series for |x| ≤ ½;
/// `None` for ½ < |x| < 1, which takes the half-angle step.
pub open spec fn asin_direct_spec(x: F128) -> Option<F128> {
    let one = one_spec();
    if x.is_nan_spec() {
        Some(nan_spec())
    } else if gt_spec(x, one) || lt_spec(x, neg_spec(one)) {
        Some(nan_spec())
    } else if x.is_zero_spec() {
        Some(x)
    } else if num_eq(x, one) {
        Some(frac_pi_2_spec())
    } else if num_eq(x, neg_spec(one)) {
        Some(neg_spec(frac_pi_2_spec()))
    } else if gt_spec(abs_spec(x), half_spec()) {
        None
    } else {
        Some(asin_terms(mul_spec(x, x), x, x, 1))
    }
}

/// The argument of the half-angle step: (1 − |x|)/2.
pub open spec fn asin_step_arg_spec(x: F128) -> F128 {
    div_spec(sub_spec(one_spec(), abs_spec(x)), from_int_spec(2))
}

/// The half-angle step: π/2 − 2·inner, with the sign of `x`.
pub open spec fn asin_step_spec(x: F128, inner: F128) -> F128 {
    let res = sub_spec(frac_pi_2_spec(), mul_spec(from_int_spec(2), inner));
    if x.sign_spec() { neg_spec(res) } else { res }
}

/// What the arccosine gives without an arcsine: NaN for NaN and outside
/// [−1, 1], zero for one, π for −1; `None` otherwise, where it is
/// π/2 − asin x.
pub open spec fn acos_direct_spec(x: F128) -> Option<F128> {
    let one = one_spec();
    if x.is_nan_spec() {
        Some(nan_spec())
    } else if gt_spec(x, one) || lt_spec(x, neg_spec(one)) {
        Some(nan_spec())
    } else if num_eq(x, one) {
        Some(F128::bits(0, 0))
    } else if num_eq(x, neg_spec(one)) {
        Some(F128::bits(0x4000_921F_B544_42D1, 0x8469_898C_C517_01B8))
    } else {
        None
    }
}

impl F128 {
    /// The square root from a first guess (see [`sqrt_spec`]).
    pub fn sqrt_with_guess(self, guess: Self) -> (r: Self)
        ensures
            r == sqrt_spec(self, guess),
    {
        if self.is_nan() || (self.is_sign_negative() && !self.is_zero()) {
            return Self::nan();
        }
        if self.is_zero() || self.is_infinite() {
            return self;
        }
        let half = F128 { high: 0x3FFE_0000_0000_0000, low: 0 };
        let bound = Self::epsilon().mul_f128(self.abs());
        let mut x = guess;
        let mut left: u32 = 8;
        while left > 0
            invariant
                left <= 8,
                bound == mul_spec(F128::bits(0x3F8F_0000_0000_0000, 0), abs_spec(self)),
                half == half_spec(),
                newton_steps(self, x, left as int) == newton_steps(self, guess, 8),
                sqrt_spec(self, guess) == newton_steps(self, guess, 8),
            decreases left,
        {
            let next = x.add_f128(self.div_f128(x)).mul_f128(half);
            if next.mul_f128(next).sub_f128(self).abs().less_than(&bound) {
                return next;
            }
            x = next;
            left = left - 1;
        }
        x
    }

    /// The arcsine where no square root is needed (see [`asin_direct_spec`]).
    pub fn asin_direct(self) -> (r: Option<Self>)
        ensures
            r == asin_direct_spec(self),
    {
        let one = Self::one();
        if self.is_nan() {
            return Some(Self::nan());
        }
        if self.greater_than(&one) || self.less_than(&one.neg_f128()) {
            return Some(Self::nan());
        }
        if self.is_zero() {
            return Some(self);
        }
        if self.num_equals(&one) {
            return Some(Self::frac_pi_2());
        }
        if self.num_equals(&one.neg_f128()) {
            return Some(Self::frac_pi_2().neg_f128());
        }
        if self.abs().greater_than(&F128 { high: 0x3FFE_0000_0000_0000, low: 0 }) {
            return None;
        }
        let x2 = self.mul_f128(self);
        let mut term = self;
        let mut sum = self;
        let mut n: u64 = 1;
        let mut done = false;
        while !done
            invariant
                1 <= n <= 25,
                !done ==> asin_terms(x2, term, sum, n as int) == asin_terms(x2, self, self, 1),
                done ==> sum == asin_terms(x2, self, self, 1),
            decreases (if done { 0 } else { 26 - n }),
        {
            assert((2 * n - 1) * (2 * n - 1) <= 2401 && (2 * n) * (2 * n + 1) <= 2550) by (nonlinear_arith)
                requires
                    1 <= n <= 25,
            ;
            let t = term.mul_f128(x2).mul_f128(F128::from_u64((2 * n - 1) * (2 * n - 1))).div_f128(
                F128::from_u64((2 * n) * (2 * n + 1)),
            );
            let s = sum.add_f128(t);
            assert(n == 25 ==> asin_terms(x2, t, s, n + 1) == s);
            if t.is_zero() || n == 25 {
                sum = s;
                done = true;
            } else {
                term = t;
                sum = s;
                n = n + 1;
            }
        }
        Some(sum)
    }

    /// The argument of the arcsine's half-angle step (see [`asin_step_arg_spec`]).
    pub fn asin_step_arg(self) -> (r: Self)
        ensures
            r == asin_step_arg_spec(self),
    {
        Self::one().sub_f128(self.abs()).div_f128(F128::from_i64(2))
    }

    /// The arcsine's half-angle step (see [`asin_step_spec`]).
    pub fn asin_step(self, inner: Self) -> (r: Self)
        ensures
            r == asin_step_spec(self, inner),
    {
        let res = Self::frac_pi_2().sub_f128(F128::from_i64(2).mul_f128(inner));
        if self.is_sign_negative() { res.neg_f128() } else { res }
    }

    /// The arccosine where no arcsine is needed (see [`acos_direct_spec`]).
    pub fn acos_direct(self) -> (r: Option<Self>)
        ensures
            r == acos_direct_spec(self),
    {
        let one = Self::one();
        if self.is_nan() {
            return Some(Self::nan());
        }
        if self.greater_than(&one) || self.less_than(&one.neg_f128()) {
            return Some(Self::nan());
        }
        if self.num_equals(&one) {
            return Some(Self::zero());
        }
        if self.num_equals(&one.neg_f128()) {
            return Some(Self::pi());
        }
        None
    }

    /// The arccosine from the arcsine: π/2 − asin x.
    pub fn acos_from_asin(asin_x: Self) -> (r: Self)
        ensures
            r == sub_spec(frac_pi_2_spec(), asin_x),
    {
        Self::frac_pi_2().sub_f128(asin_x)
    }
}

} // verus!
