//! Truncation and rounding of [`F128`].

use vstd::prelude::*;
use super::F128;
use core::cmp::Ordering;
use super::bits::{compose_spec, signed_zero};
use super::arith::{add_spec, neg_spec, mul_spec, div_spec, nan_spec};
use super::cmp::{num_eq, total_order};
use super::convert::from_int_spec;
use super::math::powi_spec;

verus! {

/// Truncation toward zero: NaN, infinities and zeros stay; a number whose
/// exponent is at least 112 is already whole; one below 1 becomes a signed
/// zero; otherwise the fraction bits of the mantissa are cleared.
pub open spec fn trunc_spec(x: F128) -> F128 {
    if !x.is_finite_spec() || x.is_zero_spec() {
        x
    } else {
        let (sign, exp, mant) = x.decompose_spec();
        if exp >= 112 {
            x
        } else if exp < 0 {
            signed_zero(sign)
        } else {
            let shift = (112 - exp) as u32;
            compose_spec(sign, exp, mant & !(((1u128 << shift) - 1) as u128))
        }
    }
}

impl F128 {
    /// Truncation toward zero (see [`trunc_spec`]).
    pub fn trunc(self) -> (r: Self)
        ensures
            r == trunc_spec(self),
    {
        if !self.is_finite() || self.is_zero() {
            return self;
        }
        let (sign, exp, mant) = self.decompose();
        if exp >= 112 {
            return self;
        }
        if exp < 0 {
            return if sign { Self::neg_zero() } else { Self::zero() };
        }
        let shift = (112 - exp) as u32;
        proof {
            assert(1u128 << shift >= 1) by (bit_vector)
                requires shift <= 112;
        }
        let int_mask = !((1u128 << shift) - 1);
        Self::compose(sign, exp, mant & int_mask)
    }
}

/// `1.0`
pub open spec fn one_spec() -> F128 {
    F128::bits(0x3FFF_0000_0000_0000, 0)
}

/// `0.5`
pub open spec fn half_spec() -> F128 {
    F128::bits(0x3FFE_0000_0000_0000, 0)
}

/// Rounding down: the truncation, less one for a negative number that
/// was not whole.
pub open spec fn floor_spec(x: F128) -> F128 {
    if !x.is_finite_spec() || x.is_zero_spec() {
        x
    } else {
        let t = trunc_spec(x);
        if x.sign_spec() && !num_eq(x, t) { add_spec(t, neg_spec(one_spec())) } else { t }
    }
}

/// Rounding up: the truncation, plus one for a positive number that was
/// not whole.
pub open spec fn ceil_spec(x: F128) -> F128 {
    if !x.is_finite_spec() || x.is_zero_spec() {
        x
    } else {
        let t = trunc_spec(x);
        if !x.sign_spec() && !num_eq(x, t) { add_spec(t, one_spec()) } else { t }
    }
}

/// `±1.0` with the sign of `x`.
pub open spec fn unit_like(x: F128) -> F128 {
    F128::bits((0x3FFF_0000_0000_0000u64 & 0x7FFF_FFFF_FFFF_FFFFu64) | (x.high & 0x8000_0000_0000_0000u64), 0)
}

/// Rounding to the nearest integer, ties to even: by comparing the
/// magnitude of the fraction `x - trunc(x)` with one half.
pub open spec fn round_int_spec(x: F128) -> F128 {
    if !x.is_finite_spec() || x.is_zero_spec() {
        x
    } else {
        let t = trunc_spec(x);
        let frac = add_spec(x, neg_spec(t));
        if frac.is_zero_spec() {
            x
        } else {
            let abs_frac = F128::bits(frac.high & 0x7FFF_FFFF_FFFF_FFFFu64, frac.low);
            if abs_frac.is_nan_spec() {
                nan_spec()
            } else {
                match total_order(abs_frac, half_spec()) {
                    Ordering::Less => t,
                    Ordering::Greater => add_spec(t, unit_like(x)),
                    Ordering::Equal => {
                        let half_t = div_spec(t, from_int_spec(2));
                        if num_eq(trunc_spec(half_t), half_t) { t } else { add_spec(t, unit_like(x)) }
                    },
                }
            }
        }
    }
}

/// Rounding to `places` decimal places (negative: to tens, hundreds, ...),
/// by scaling with a power of ten, rounding to an integer and scaling back.
pub open spec fn round_to_spec(x: F128, places: i32) -> F128 {
    if !x.is_finite_spec() {
        x
    } else if places == 0 {
        round_int_spec(x)
    } else {
        let abs_places = (if places < 0 { -(places as int) } else { places as int }) as u32;
        let factor = powi_spec(from_int_spec(10), abs_places as i32);
        if !factor.is_finite_spec() || factor.is_zero_spec() {
            x
        } else if places > 0 {
            let scaled = mul_spec(x, factor);
            if scaled.is_infinite_spec() { x } else { div_spec(round_int_spec(scaled), factor) }
        } else {
            let scaled = div_spec(x, factor);
            if scaled.is_zero_spec() && !x.is_zero_spec() {
                signed_zero(x.sign_spec())
            } else {
                mul_spec(round_int_spec(scaled), factor)
            }
        }
    }
}

/// One half is not NaN.
proof fn lemma_half_not_nan()
    ensures
        !half_spec().is_nan_spec(),
{
    assert(((0x3FFE_0000_0000_0000u64 & 0x7FFF_0000_0000_0000u64) >> 48u64) as u16 != 0x7FFFu16) by (bit_vector);
}

impl F128 {
    /// Rounding down (see [`floor_spec`]).
    pub fn floor(self) -> (r: Self)
        ensures
            r == floor_spec(self),
    {
        if !self.is_finite() || self.is_zero() {
            return self;
        }
        let t = self.trunc();
        if self.is_sign_negative() && !self.num_equals(&t) {
            t.sub_f128(Self::one())
        } else {
            t
        }
    }

    /// Rounding up (see [`ceil_spec`]).
    pub fn ceil(self) -> (r: Self)
        ensures
            r == ceil_spec(self),
    {
        if !self.is_finite() || self.is_zero() {
            return self;
        }
        let t = self.trunc();
        if !self.is_sign_negative() && !self.num_equals(&t) {
            t.add_f128(Self::one())
        } else {
            t
        }
    }

    /// Rounding to the nearest integer, ties to even.
    pub fn round(self) -> (r: Self)
        ensures
            r == round_to_spec(self, 0),
    {
        self.round_to(0)
    }

    /// Rounding to an integer (see [`round_int_spec`]).
    fn round_to_integer(self) -> (r: Self)
        ensures
            r == round_int_spec(self),
    {
        if !self.is_finite() || self.is_zero() {
            return self;
        }
        let t = self.trunc();
        let frac = self.sub_f128(t);
        if frac.is_zero() {
            return self;
        }
        let half = Self::from_bits(0x3FFE_0000_0000_0000, 0);
        proof {
            lemma_half_not_nan();
        }
        let abs_frac = frac.abs();
        match abs_frac.compare(&half) {
            Some(Ordering::Less) => t,
            Some(Ordering::Greater) => t.add_f128(Self::copysign(Self::one(), self)),
            Some(Ordering::Equal) => {
                let half_t = t.div_f128(Self::from_i64(2));
                if half_t.trunc().num_equals(&half_t) {
                    t
                } else {
                    t.add_f128(Self::copysign(Self::one(), self))
                }
            },
            None => Self::nan(),
        }
    }

    /// Rounding to a number of decimal places (see [`round_to_spec`]).
    pub fn round_to(self, decimal_places: i32) -> (r: Self)
        ensures
            r == round_to_spec(self, decimal_places),
    {
        if !self.is_finite() {
            return self;
        }
        if decimal_places == 0 {
            return self.round_to_integer();
        }
        let abs_places: u32 = if decimal_places < 0 { (-(decimal_places as i64)) as u32 } else { decimal_places as u32 };
        let factor = Self::from_u64(10).powi(abs_places as i32);
        if !factor.is_finite() || factor.is_zero() {
            return self;
        }
        if decimal_places > 0 {
            let scaled = self.mul_f128(factor);
            if scaled.is_infinite() {
                return self;
            }
            scaled.round_to_integer().div_f128(factor)
        } else {
            let scaled = self.div_f128(factor);
            if scaled.is_zero() && !self.is_zero() {
                return if self.is_sign_negative() { Self::neg_zero() } else { Self::zero() };
            }
            scaled.round_to_integer().mul_f128(factor)
        }
    }
}

} // verus!
