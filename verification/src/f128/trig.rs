//! Sine, cosine, tangent and cotangent of [`F128`], with the reduction of
//! the argument to a quarter turn; each is specified as the exact sequence
//! of binary128 operations that computes it.

use vstd::prelude::*;
use super::F128;
use super::arith::{add_spec, div_spec, mul_spec, nan_spec, neg_spec};
use super::bits::compose_spec;
use super::cmp::{ge_spec, gt_spec, le_spec, lt_spec};
use super::convert::from_int_spec;
use super::exp_log::{one_spec, sub_spec};
use super::round::round_to_spec;
use super::wide::{low_u128_spec, mul_u128_u256_spec, shr512_spec, shr_spec, U256, U512};

verus! {

/// π/2
pub open spec fn frac_pi_2_spec() -> F128 {
    F128::bits(0x3FFF_921F_B544_42D1, 0x8469_898C_C517_01B8)
}

/// π/4
pub open spec fn frac_pi_4_spec() -> F128 {
    F128::bits(0x3FFE_921F_B544_42D1, 0x8469_898C_C517_01B8)
}

/// The absolute value: the sign bit cleared.
pub open spec fn abs_spec(x: F128) -> F128 {
    F128::bits(x.high & 0x7FFF_FFFF_FFFF_FFFFu64, x.low)
}

/// The integer part as an `i64`, saturated at the extremes; zero for NaN
/// and infinities.
pub open spec fn to_i64_saturating_spec(x: F128) -> i64 {
    if !x.is_finite_spec() {
        0
    } else if ge_spec(x, from_int_spec(i64::MAX as int)) {
        i64::MAX
    } else if le_spec(x, from_int_spec(i64::MIN as int)) {
        i64::MIN
    } else {
        match x.to_i64_checked_spec() {
            Some(v) => v,
            None => 0,
        }
    }
}

// ---------------------------------------------------------------------------
//                                 SERIES
// ---------------------------------------------------------------------------

/// The sine series from step `n` on: each step makes the next term
/// `-term · x² / ((2n)(2n+1))` and adds it, stopping after a zero term or
/// after step 20.
pub open spec fn sin_terms(x2: F128, term: F128, sum: F128, n: int) -> F128
    decreases 21 - n,
{
    if n < 1 || n > 20 {
        sum
    } else {
        let t = div_spec(mul_spec(neg_spec(term), x2), from_int_spec((2 * n) * (2 * n + 1)));
        let s = add_spec(sum, t);
        if t.is_zero_spec() {
            s
        } else {
            sin_terms(x2, t, s, n + 1)
        }
    }
}

/// The cosine series from step `n` on: each step makes the next term
/// `-term · x² / ((2n−1)(2n))` and adds it, stopping after a zero term or
/// after step 20.
pub open spec fn cos_terms(x2: F128, term: F128, sum: F128, n: int) -> F128
    decreases 21 - n,
{
    if n < 1 || n > 20 {
        sum
    } else {
        let t = div_spec(mul_spec(neg_spec(term), x2), from_int_spec((2 * n - 1) * (2 * n)));
        let s = add_spec(sum, t);
        if t.is_zero_spec() {
            s
        } else {
            cos_terms(x2, t, s, n + 1)
        }
    }
}

// ---------------------------------------------------------------------------
//                                REDUCTION
// ---------------------------------------------------------------------------

/// The high part of π/2 used by the Cody–Waite reduction.
pub open spec fn cw_c1() -> F128 {
    F128::bits(0x3FFF_921F_B544_42D1, 0x8000_0000_0000_0000)
}

/// The low part of π/2 used by the Cody–Waite reduction.
pub open spec fn cw_c2() -> F128 {
    F128::bits(0x3F8D_494C_CF13_38CE, 0x0F30_47A5_2D6C_821C)
}

/// The quadrant `k` modulo 4 (in `0..4`).
pub open spec fn quadrant(k: int) -> i64 {
    (k % 4) as i64
}

/// Brings a reduced pair `(k, r)` back within ±π/2 and away from its
/// edges: one quarter turn is moved between `r` and `k` when `r` lies past
/// ±π/2, or past π/2 − 16ε when that makes `r` smaller; an `r` of zero or
/// below the least subnormal becomes a zero with the sign of `x`. The
/// quadrant is then taken modulo 4.
pub open spec fn normalize_spec(x: F128, k: i64, r: F128) -> (i64, F128) {
    let pi_2 = frac_pi_2_spec();
    let (k1, r1) = if gt_spec(r, pi_2) {
        (k + 1, sub_spec(r, pi_2))
    } else if lt_spec(r, neg_spec(pi_2)) {
        (k - 1, add_spec(r, pi_2))
    } else {
        (k as int, r)
    };
    let near = sub_spec(pi_2, mul_spec(F128::bits(0x3F8F_0000_0000_0000, 0), from_int_spec(16)));
    let (k2, r2) = if gt_spec(r1, near) {
        let alt = sub_spec(r1, pi_2);
        if lt_spec(abs_spec(alt), abs_spec(r1)) { (k1 + 1, alt) } else { (k1, r1) }
    } else if lt_spec(r1, neg_spec(near)) {
        let alt = add_spec(r1, pi_2);
        if lt_spec(abs_spec(alt), abs_spec(r1)) { (k1 - 1, alt) } else { (k1, r1) }
    } else {
        (k1, r1)
    };
    let r3 = if r2.is_zero_spec() || lt_spec(abs_spec(r2), F128::bits(0, 1)) {
        if x.sign_spec() { F128::bits(0x8000_0000_0000_0000, 0) } else { F128::bits(0, 0) }
    } else {
        r2
    };
    (quadrant(k2), r3)
}

/// The Cody–Waite reduction: k = round(x / C1) as an integer, and
/// r = (x − k·C1) − k·C2 normalized (see [`normalize_spec`]); `(0, x)`
/// when k is zero.
pub open spec fn cody_waite_spec(x: F128) -> (i64, F128) {
    let k = to_i64_saturating_spec(round_to_spec(div_spec(x, cw_c1()), 0));
    if k == 0 {
        (0, x)
    } else {
        let kf = from_int_spec(k as int);
        let r = sub_spec(sub_spec(x, mul_spec(kf, cw_c1())), mul_spec(kf, cw_c2()));
        normalize_spec(x, k, r)
    }
}

/// 256 bits of 2/π.
pub open spec fn two_over_pi_spec() -> U256 {
    U256 { d0: 0xA2F9836E4E441529, d1: 0xFC2757D1F534DDC0, d2: 0xDB6295993C439041, d3: 0xFE5163ABDEBBC561 }
}

/// The bits of 2/π from bit `idx` on (`idx` clamped to `0..=192`).
pub open spec fn two_over_pi_window(idx: i32) -> U256 {
    let i: u32 = if idx < 0 { 0 } else if idx > 192 { 192 } else { idx as u32 };
    shr_spec(two_over_pi_spec(), i)
}

/// The Payne–Hanek reduction: the mantissa times bits of 2/π chosen by the
/// exponent; the product's bits 143..256 (113 of them) are the fraction,
/// its bits from 256 on give k (plus one when the fraction's top bit is
/// set, wrapping), and the fraction composed with exponent −1 is r, with
/// the sign of `x`.
pub open spec fn payne_hanek_spec(x: F128) -> (i64, F128) {
    let (sign, exp, mant) = x.decompose_spec();
    let bits = two_over_pi_window((exp + 112) as i32);
    let product = mul_u128_u256_spec(mant, bits);
    let frac_bits = low_u128_spec(shr512_spec(product, 143)) & ((1u128 << 113u32) - 1) as u128;
    let top: int = if frac_bits >> 112u32 != 0 { 1 } else { 0 };
    let k = ((low_u128_spec(shr512_spec(product, 256)) as i64) as int + top) as i64;
    let r = compose_spec(sign, -1i32, frac_bits << 15u32);
    (quadrant(k as int), if sign { neg_spec(abs_spec(r)) } else { abs_spec(r) })
}

/// The reduction of `x` to `k·π/2 + r`: `(0, NaN)` for NaN and infinities,
/// `(0, x)` for zero and for |x| ≤ π/4, Cody–Waite below 2^61, Payne–Hanek
/// above.
pub open spec fn reduce_spec(x: F128) -> (i64, F128) {
    if !x.is_finite_spec() {
        (0, nan_spec())
    } else if x.is_zero_spec() {
        (0, x)
    } else if le_spec(abs_spec(x), frac_pi_4_spec()) {
        (0, x)
    } else if abs_spec(x).high < 0x403D_0000_0000_0000u64 {
        cody_waite_spec(x)
    } else {
        payne_hanek_spec(x)
    }
}

/// sin x: NaN for NaN and infinities, x for zero; otherwise by the
/// quadrant of the reduced argument, ± the sine or cosine series of r.
pub open spec fn sin_spec(x: F128) -> F128 {
    if x.is_nan_spec() || x.is_infinite_spec() {
        nan_spec()
    } else if x.is_zero_spec() {
        x
    } else {
        let (k, r) = reduce_spec(x);
        let r2 = mul_spec(r, r);
        let q = quadrant(k as int);
        if q == 0 {
            sin_terms(r2, r, r, 1)
        } else if q == 1 {
            cos_terms(r2, one_spec(), one_spec(), 1)
        } else if q == 2 {
            neg_spec(sin_terms(r2, r, r, 1))
        } else {
            neg_spec(cos_terms(r2, one_spec(), one_spec(), 1))
        }
    }
}

/// cos x: NaN for NaN and infinities, one for zero; otherwise by the
/// quadrant of the reduced argument, ± the cosine or sine series of r.
pub open spec fn cos_spec(x: F128) -> F128 {
    if x.is_nan_spec() || x.is_infinite_spec() {
        nan_spec()
    } else if x.is_zero_spec() {
        one_spec()
    } else {
        let (k, r) = reduce_spec(x);
        let r2 = mul_spec(r, r);
        let q = quadrant(k as int);
        if q == 0 {
            cos_terms(r2, one_spec(), one_spec(), 1)
        } else if q == 1 {
            neg_spec(sin_terms(r2, r, r, 1))
        } else if q == 2 {
            neg_spec(cos_terms(r2, one_spec(), one_spec(), 1))
        } else {
            sin_terms(r2, r, r, 1)
        }
    }
}

/// `k` modulo 4, in `0..4`.
fn quadrant_of(k: i128) -> (r: i64)
    ensures
        r == quadrant(k as int),
        0 <= r < 4,
{
    let m = k % 4;
    if m < 0 {
        (m + 4) as i64
    } else {
        m as i64
    }
}

impl F128 {
    /// The integer part as an `i64`, saturated (see [`to_i64_saturating_spec`]).
    pub(crate) fn to_i64_saturating(self) -> (r: i64)
        ensures
            r == to_i64_saturating_spec(self),
    {
        if !self.is_finite() {
            return 0;
        }
        if self.at_least(&F128::from_i64(i64::MAX)) {
            return i64::MAX;
        }
        if self.at_most(&F128::from_i64(i64::MIN)) {
            return i64::MIN;
        }
        match self.to_i64_checked() {
            Some(v) => v,
            None => 0,
        }
    }

    /// The sine series of `x` (see [`sin_terms`]).
    fn taylor_sin(x: Self, x2: Self) -> (r: Self)
        ensures
            r == sin_terms(x2, x, x, 1),
    {
        let mut term = x;
        let mut sum = x;
        let mut n: u64 = 1;
        let mut done = false;
        while !done
            invariant
                1 <= n <= 20,
                !done ==> sin_terms(x2, term, sum, n as int) == sin_terms(x2, x, x, 1),
                done ==> sum == sin_terms(x2, x, x, 1),
            decreases (if done { 0 } else { 21 - n }),
        {
            assert((2 * n) * (2 * n + 1) <= 1640) by (nonlinear_arith)
                requires
                    1 <= n <= 20,
            ;
            let t = term.neg_f128().mul_f128(x2).div_f128(F128::from_u64((2 * n) * (2 * n + 1)));
            let s = sum.add_f128(t);
            assert(n == 20 ==> sin_terms(x2, t, s, n + 1) == s);
            if t.is_zero() || n == 20 {
                sum = s;
                done = true;
            } else {
                term = t;
                sum = s;
                n = n + 1;
            }
        }
        sum
    }

    /// The cosine series (see [`cos_terms`]).
    fn taylor_cos(x2: Self) -> (r: Self)
        ensures
            r == cos_terms(x2, one_spec(), one_spec(), 1),
    {
        let mut term = Self::one();
        let mut sum = Self::one();
        let mut n: u64 = 1;
        let mut done = false;
        while !done
            invariant
                1 <= n <= 20,
                !done ==> cos_terms(x2, term, sum, n as int) == cos_terms(x2, one_spec(), one_spec(), 1),
                done ==> sum == cos_terms(x2, one_spec(), one_spec(), 1),
            decreases (if done { 0 } else { 21 - n }),
        {
            assert((2 * n - 1) * (2 * n) <= 1640) by (nonlinear_arith)
                requires
                    1 <= n <= 20,
            ;
            let t = term.neg_f128().mul_f128(x2).div_f128(F128::from_u64((2 * n - 1) * (2 * n)));
            let s = sum.add_f128(t);
            assert(n == 20 ==> cos_terms(x2, t, s, n + 1) == s);
            if t.is_zero() || n == 20 {
                sum = s;
                done = true;
            } else {
                term = t;
                sum = s;
                n = n + 1;
            }
        }
        sum
    }

    /// Moves a reduced pair back within ±π/2 (see [`normalize_spec`]).
    fn normalize_reduction_result(&self, k: i64, r: Self) -> (res: (i64, Self))
        ensures
            res == normalize_spec(*self, k, r),
    {
        let pi_2 = Self::frac_pi_2();
        let mut kf: i128 = k as i128;
        let mut rf = r;
        if rf.greater_than(&pi_2) {
            rf = rf.sub_f128(pi_2);
            kf = kf + 1;
        } else if rf.less_than(&pi_2.neg_f128()) {
            rf = rf.add_f128(pi_2);
            kf = kf - 1;
        }
        let near = pi_2.sub_f128(Self::epsilon().mul_f128(F128::from_i64(16)));
        if rf.greater_than(&near) {
            let alt = rf.sub_f128(pi_2);
            if alt.abs().less_than(&rf.abs()) {
                rf = alt;
                kf = kf + 1;
            }
        } else if rf.less_than(&near.neg_f128()) {
            let alt = rf.add_f128(pi_2);
            if alt.abs().less_than(&rf.abs()) {
                rf = alt;
                kf = kf - 1;
            }
        }
        if rf.is_zero() || rf.abs().less_than(&Self::min_positive_subnormal()) {
            rf = if self.is_sign_negative() { Self::neg_zero() } else { Self::zero() };
        }
        (quadrant_of(kf), rf)
    }

    /// The Cody–Waite reduction (see [`cody_waite_spec`]).
    fn reduce_cody_waite(self) -> (res: (i64, Self))
        ensures
            res == cody_waite_spec(self),
    {
        let c1 = F128 { high: 0x3FFF_921F_B544_42D1, low: 0x8000_0000_0000_0000 };
        let c2 = F128 { high: 0x3F8D_494C_CF13_38CE, low: 0x0F30_47A5_2D6C_821C };
        let k = self.div_f128(c1).round().to_i64_saturating();
        if k == 0 {
            return (0, self);
        }
        let kf = F128::from_i64(k);
        let r = self.sub_f128(kf.mul_f128(c1)).sub_f128(kf.mul_f128(c2));
        self.normalize_reduction_result(k, r)
    }

    /// The bits of 2/π from bit `bit_idx` on (see [`two_over_pi_window`]).
    fn fetch_bits_2_over_pi(&self, bit_idx: i32) -> (r: U256)
        ensures
            r == two_over_pi_window(bit_idx),
    {
        let idx: u32 = if bit_idx < 0 { 0 } else if bit_idx > 192 { 192 } else { bit_idx as u32 };
        let table = U256 { d0: 0xA2F9836E4E441529, d1: 0xFC2757D1F534DDC0, d2: 0xDB6295993C439041, d3: 0xFE5163ABDEBBC561 };
        table.shr(idx)
    }

    /// The Payne–Hanek reduction of a finite number (see [`payne_hanek_spec`]).
    fn reduce_payne_hanek(self) -> (res: (i64, Self))
        requires
            self.is_finite_spec(),
        ensures
            res == payne_hanek_spec(self),
    {
        let (sign, exp, mant) = self.decompose();
        let bits = self.fetch_bits_2_over_pi(exp + 112);
        let product = U512::mul_u128_u256(mant, bits);
        let frac_bits = product.shr(143).low_u128() & ((1u128 << 113u32) - 1);
        let top: i64 = if frac_bits >> 112u32 != 0 { 1 } else { 0 };
        let k: i64 = ((product.shr(256).low_u128() as i64) as i128 + top as i128) as i64;
        let r = Self::compose(sign, -1, frac_bits << 15u32);
        let r_final = if sign { r.abs().neg_f128() } else { r.abs() };
        (quadrant_of(k as i128), r_final)
    }

    /// Reduces the argument to `k·π/2 + r` (see [`reduce_spec`]).
    pub fn reduce_pi_2(self) -> (res: (i64, Self))
        ensures
            res == reduce_spec(self),
    {
        if !self.is_finite() {
            return (0, Self::nan());
        }
        if self.is_zero() {
            return (0, self);
        }
        let abs_x = self.abs();
        if abs_x.at_most(&Self::frac_pi_4()) {
            return (0, self);
        }
        if abs_x.high < 0x403D_0000_0000_0000 {
            return self.reduce_cody_waite();
        }
        self.reduce_payne_hanek()
    }

    /// The sine (see [`sin_spec`]).
    pub fn sin(self) -> (r: Self)
        ensures
            r == sin_spec(self),
    {
        if self.is_nan() || self.is_infinite() {
            return Self::nan();
        }
        if self.is_zero() {
            return self;
        }
        let (k, r) = self.reduce_pi_2();
        let r2 = r.mul_f128(r);
        let q = quadrant_of(k as i128);
        if q == 0 {
            Self::taylor_sin(r, r2)
        } else if q == 1 {
            Self::taylor_cos(r2)
        } else if q == 2 {
            Self::taylor_sin(r, r2).neg_f128()
        } else {
            Self::taylor_cos(r2).neg_f128()
        }
    }

    /// The cosine (see [`cos_spec`]).
    pub fn cos(self) -> (r: Self)
        ensures
            r == cos_spec(self),
    {
        if self.is_nan() || self.is_infinite() {
            return Self::nan();
        }
        if self.is_zero() {
            return Self::one();
        }
        let (k, r) = self.reduce_pi_2();
        let r2 = r.mul_f128(r);
        let q = quadrant_of(k as i128);
        if q == 0 {
            Self::taylor_cos(r2)
        } else if q == 1 {
            Self::taylor_sin(r, r2).neg_f128()
        } else if q == 2 {
            Self::taylor_cos(r2).neg_f128()
        } else {
            Self::taylor_sin(r, r2)
        }
    }

    /// The tangent: sin x / cos x.
    pub fn tan(self) -> (r: Self)
        ensures
            r == div_spec(sin_spec(self), cos_spec(self)),
    {
        let s = self.sin();
        let c = self.cos();
        s.div_f128(c)
    }

    /// The cotangent: cos x / sin x.
    pub fn ctg(self) -> (r: Self)
        ensures
            r == div_spec(cos_spec(self), sin_spec(self)),
    {
        let s = self.sin();
        let c = self.cos();
        c.div_f128(s)
    }
}

} // verus!
