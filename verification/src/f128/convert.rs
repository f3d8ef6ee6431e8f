//! Conversions between [`F128`] and integers.

use vstd::prelude::*;
use vstd::std_specs::convert::FromSpecImpl;
use super::F128;
use vstd::arithmetic::power2::{pow2, lemma2_to64, lemma2_to64_rest, lemma_pow2_adds, lemma_pow2_strictly_increases};
use super::arith::nan_spec;
use super::bits::{
    compose_spec, composable_exp, lz128, leading_zeros_u128, lemma_lz128, lemma_mantissa_limit, signed_inf,
    signed_zero,
};

verus! {

/// The number nearest below-or-at a nonzero unsigned magnitude `v` with the
/// given sign: `v` normalized to 113 bits (bits below dropped) and composed
/// with the exponent of its highest set bit.
pub open spec fn from_uint_spec(sign: bool, v: u128) -> F128 {
    let msb = 127 - lz128(v);
    let shift = 112 - msb;
    let mant = if shift >= 0 { v << (shift as u32) } else { v >> ((-shift) as u32) };
    compose_spec(sign, msb as i32, mant)
}

/// The number for an integer (exact for magnitudes below 2^113).
pub open spec fn from_int_spec(v: int) -> F128 {
    if v == 0 {
        F128::bits(0, 0)
    } else if v < 0 {
        from_uint_spec(true, (-v) as u128)
    } else {
        from_uint_spec(false, v as u128)
    }
}

impl F128 {
    /// The number for a sign and a magnitude (see [`from_uint_spec`]).
    pub fn from_uint_inner(sign: bool, v: u128) -> (r: Self)
        ensures
            r == from_uint_spec(sign, v),
    {
        let lz = leading_zeros_u128(v);
        let msb: i32 = 127 - lz as i32;
        let shift: i32 = 112 - msb;
        let mant = if shift >= 0 { v << (shift as u32) } else { v >> ((-shift) as u32) };
        Self::compose(sign, msb, mant)
    }

    /// The number for an `i64`.
    pub fn from_i64(value: i64) -> (r: Self)
        ensures
            r == from_int_spec(value as int),
    {
        if value == 0 {
            return Self::zero();
        }
        let sign = value < 0;
        let abs: u128 = if sign { (-(value as i128)) as u128 } else { value as u128 };
        Self::from_uint_inner(sign, abs)
    }

    /// The number for a `u64`.
    pub fn from_u64(value: u64) -> (r: Self)
        ensures
            r == from_int_spec(value as int),
    {
        if value == 0 {
            return Self::zero();
        }
        Self::from_uint_inner(false, value as u128)
    }

    /// The number for a `u128` (see [`from_uint_spec`]), zero for zero.
    pub fn from_u128(v: u128) -> (r: Self)
        ensures
            r == from_int_spec(v as int),
    {
        if v == 0 {
            return Self::zero();
        }
        Self::from_uint_inner(false, v)
    }

    /// The integer part as an `i64` when it fits: `None` for NaN and
    /// infinities and for values whose integer part leaves the range; the
    /// extremes for values at or beyond 2^63 in magnitude.
    pub open spec fn to_i64_checked_spec(self) -> Option<i64> {
        if !self.is_finite_spec() {
            None
        } else if self.is_zero_spec() {
            Some(0)
        } else {
            let (sign, exp, mant) = self.decompose_spec();
            if exp >= 63 && (exp > 63 || mant >= (1u128 << ((exp - 112 + 63) as u32))) {
                Some(if sign { i64::MIN } else { i64::MAX })
            } else if exp < -16 {
                Some(0)
            } else {
                let val = (mant >> ((if 112 - exp < 127 { 112 - exp } else { 127 }) as u32)) as int;
                let signed = if sign { -val } else { val };
                if signed < i64::MIN || signed > i64::MAX { None } else { Some(signed as i64) }
            }
        }
    }

    /// The integer part as an `i64` (see [`F128::to_i64_checked_spec`]).
    pub fn to_i64_checked(self) -> (r: Option<i64>)
        ensures
            r == self.to_i64_checked_spec(),
    {
        if !self.is_finite() {
            return None;
        }
        if self.is_zero() {
            return Some(0);
        }
        let (sign, exp, mant) = self.decompose();
        if exp >= 63 && (exp > 63 || mant >= (1u128 << ((exp - 112 + 63) as u32))) {
            return if sign { Some(i64::MIN) } else { Some(i64::MAX) };
        }
        if exp < -16 {
            return Some(0);
        }
        let sh: i32 = if 112 - exp < 127 { 112 - exp } else { 127 };
        let v = mant >> (sh as u32);
        proof {
            assert(mant >> (sh as u32) <= mant) by (bit_vector);
            lemma_mantissa_limit();
        }
        let val: i128 = v as i128;
        let signed: i128 = if sign { -val } else { val };
        if signed < i64::MIN as i128 || signed > i64::MAX as i128 {
            None
        } else {
            Some(signed as i64)
        }
    }
}

impl From<i64> for F128 {
    fn from(value: i64) -> (r: F128) {
        F128::from_i64(value)
    }
}

impl FromSpecImpl<i64> for F128 {
    open spec fn obeys_from_spec() -> bool {
        true
    }

    open spec fn from_spec(value: i64) -> F128 {
        from_int_spec(value as int)
    }
}

impl From<u64> for F128 {
    fn from(value: u64) -> (r: F128) {
        F128::from_u64(value)
    }
}

impl FromSpecImpl<u64> for F128 {
    open spec fn obeys_from_spec() -> bool {
        true
    }

    open spec fn from_spec(value: u64) -> F128 {
        from_int_spec(value as int)
    }
}

impl From<i32> for F128 {
    fn from(value: i32) -> (r: F128) {
        F128::from_i64(value as i64)
    }
}

impl FromSpecImpl<i32> for F128 {
    open spec fn obeys_from_spec() -> bool {
        true
    }

    open spec fn from_spec(value: i32) -> F128 {
        from_int_spec(value as int)
    }
}

impl From<u32> for F128 {
    fn from(value: u32) -> (r: F128) {
        F128::from_u64(value as u64)
    }
}

impl FromSpecImpl<u32> for F128 {
    open spec fn obeys_from_spec() -> bool {
        true
    }

    open spec fn from_spec(value: u32) -> F128 {
        from_int_spec(value as int)
    }
}

impl From<i16> for F128 {
    fn from(value: i16) -> (r: F128) {
        F128::from_i64(value as i64)
    }
}

impl FromSpecImpl<i16> for F128 {
    open spec fn obeys_from_spec() -> bool {
        true
    }

    open spec fn from_spec(value: i16) -> F128 {
        from_int_spec(value as int)
    }
}

impl From<u16> for F128 {
    fn from(value: u16) -> (r: F128) {
        F128::from_u64(value as u64)
    }
}

impl FromSpecImpl<u16> for F128 {
    open spec fn obeys_from_spec() -> bool {
        true
    }

    open spec fn from_spec(value: u16) -> F128 {
        from_int_spec(value as int)
    }
}

impl From<i8> for F128 {
    fn from(value: i8) -> (r: F128) {
        F128::from_i64(value as i64)
    }
}

impl FromSpecImpl<i8> for F128 {
    open spec fn obeys_from_spec() -> bool {
        true
    }

    open spec fn from_spec(value: i8) -> F128 {
        from_int_spec(value as int)
    }
}

impl From<u8> for F128 {
    fn from(value: u8) -> (r: F128) {
        F128::from_u64(value as u64)
    }
}

impl FromSpecImpl<u8> for F128 {
    open spec fn obeys_from_spec() -> bool {
        true
    }

    open spec fn from_spec(value: u8) -> F128 {
        from_int_spec(value as int)
    }
}

/// The number that the `f64` with bits `b` stands for: NaN, a signed
/// infinity or zero, or the sign with the 53-bit significand (the implicit
/// bit set for a normal number) at the `f64`'s exponent; every finite `f64`
/// is exact in binary128.
pub open spec fn from_f64_bits_spec(b: u64) -> F128 {
    let sign = b >= 0x8000_0000_0000_0000;
    let exp = (b / 0x10_0000_0000_0000) % 0x800;
    let frac = b % 0x10_0000_0000_0000;
    if exp == 0x7FF {
        if frac != 0 { nan_spec() } else { signed_inf(sign) }
    } else if exp == 0 && frac == 0 {
        signed_zero(sign)
    } else if exp == 0 {
        compose_spec(sign, -1022i32, (frac * 0x1000_0000_0000_0000) as u128)
    } else {
        compose_spec(sign, (exp - 1023) as i32, ((0x10_0000_0000_0000 + frac) * 0x1000_0000_0000_0000) as u128)
    }
}

/// The number that the `f32` with bits `b` stands for (see
/// [`from_f64_bits_spec`]).
pub open spec fn from_f32_bits_spec(b: u32) -> F128 {
    let sign = b >= 0x8000_0000;
    let exp = (b / 0x80_0000) % 0x100;
    let frac = b % 0x80_0000;
    if exp == 0xFF {
        if frac != 0 { nan_spec() } else { signed_inf(sign) }
    } else if exp == 0 && frac == 0 {
        signed_zero(sign)
    } else if exp == 0 {
        compose_spec(sign, -126i32, (frac * 0x200_0000_0000_0000_0000_0000) as u128)
    } else {
        compose_spec(sign, (exp - 127) as i32, ((0x80_0000 + frac) * 0x200_0000_0000_0000_0000_0000) as u128)
    }
}

/// `q` rounded up by one when the dropped part `rem` is above half of the
/// unit `half * 2`, or exactly half and `q` odd (ties to even).
pub open spec fn round_half_even(q: nat, rem: nat, half: nat) -> nat {
    if rem > half || (rem == half && q % 2 == 1) { q + 1 } else { q }
}

/// The bits of the `f64` nearest to `x`, ties to even: NaN for NaN, the
/// signed infinity beyond the largest `f64`, the signed zero below half the
/// smallest subnormal. The mantissa loses its low `drop` bits: 60 for a
/// normal result, more for a subnormal one; the rounded significand is
/// added to the exponent field, so a carry moves it up one binade.
pub open spec fn to_f64_bits_spec(x: F128) -> u64 {
    let sbit: u64 = if x.sign_spec() { 0x8000_0000_0000_0000u64 } else { 0u64 };
    if x.is_nan_spec() {
        0x7FF8_0000_0000_0000u64
    } else if x.is_infinite_spec() || (!x.is_zero_spec() && x.decompose_spec().1 + 1023 >= 2047) {
        sbit | 0x7FF0_0000_0000_0000u64
    } else if x.is_zero_spec() || x.decompose_spec().1 + 1023 < -52 {
        sbit
    } else {
        let (_s, exp, mant) = x.decompose_spec();
        let biased = exp + 1023;
        let drop: nat = if biased > 0 { 60 } else { (61 - biased) as nat };
        let fin = round_half_even(mant as nat / pow2(drop), mant as nat % pow2(drop), pow2(drop) / 2);
        let field = if biased > 0 { (biased - 1) * 0x10_0000_0000_0000 + fin } else { fin as int };
        sbit | (field as u64)
    }
}

impl F128 {
    /// The number that the `f64` with bits `bits` stands for
    /// (see [`from_f64_bits_spec`]).
    pub fn from_f64_bits(bits: u64) -> (r: Self)
        ensures
            r == from_f64_bits_spec(bits),
    {
        let sign = bits >= 0x8000_0000_0000_0000;
        let exp = (bits / 0x10_0000_0000_0000) % 0x800;
        let frac = bits % 0x10_0000_0000_0000;
        if exp == 0x7FF {
            if frac != 0 { Self::nan() } else if sign { Self::neg_infinity() } else { Self::infinity() }
        } else if exp == 0 && frac == 0 {
            if sign { Self::neg_zero() } else { Self::zero() }
        } else if exp == 0 {
            Self::compose(sign, -1022, (frac as u128) * 0x1000_0000_0000_0000)
        } else {
            Self::compose(sign, exp as i32 - 1023, ((0x10_0000_0000_0000 + frac) as u128) * 0x1000_0000_0000_0000)
        }
    }

    /// The number that the `f32` with bits `bits` stands for
    /// (see [`from_f32_bits_spec`]).
    pub fn from_f32_bits(bits: u32) -> (r: Self)
        ensures
            r == from_f32_bits_spec(bits),
    {
        let sign = bits >= 0x8000_0000;
        let exp = (bits / 0x80_0000) % 0x100;
        let frac = bits % 0x80_0000;
        if exp == 0xFF {
            if frac != 0 { Self::nan() } else if sign { Self::neg_infinity() } else { Self::infinity() }
        } else if exp == 0 && frac == 0 {
            if sign { Self::neg_zero() } else { Self::zero() }
        } else if exp == 0 {
            Self::compose(sign, -126, (frac as u128) * 0x200_0000_0000_0000_0000_0000)
        } else {
            Self::compose(sign, exp as i32 - 127, ((0x80_0000 + frac) as u128) * 0x200_0000_0000_0000_0000_0000)
        }
    }

    /// The bits of the `f64` nearest to the number (see [`to_f64_bits_spec`]).
    pub fn to_f64_bits(self) -> (r: u64)
        ensures
            r == to_f64_bits_spec(self),
    {
        let sbit: u64 = if self.is_sign_negative() { 0x8000_0000_0000_0000 } else { 0 };
        if self.is_nan() {
            return 0x7FF8_0000_0000_0000;
        }
        if self.is_infinite() {
            return sbit | 0x7FF0_0000_0000_0000;
        }
        if self.is_zero() {
            return sbit;
        }
        let (_sign, exp, mant) = self.decompose();
        let biased = exp + 1023;
        if biased >= 2047 {
            return sbit | 0x7FF0_0000_0000_0000;
        }
        if biased < -52 {
            return sbit;
        }
        proof {
            lemma_mantissa_limit();
            lemma2_to64_rest();
        }
        let ghost drop: nat = if biased > 0 { 60 } else { (61 - biased) as nat };
        let d: u128 = if biased > 0 {
            0x1000_0000_0000_0000
        } else {
            let sh: u64 = (1 - biased) as u64;
            proof {
                lemma_pow2_strictly_increases(sh as nat, 54);
                lemma2_to64();
                lemma_pow2_strictly_increases(0, sh as nat);
                vstd::bits::lemma_u64_shl_is_mul(1, sh);
                assert(1u64 << sh >= 2);
                lemma_pow2_adds(60, sh as nat);
                assert(drop == 60 + sh);
            }
            ((1u64 << sh) as u128) * 0x1000_0000_0000_0000
        };
        assert(d == pow2(drop));
        assert(d > 0);
        let q = mant / d;
        let rem = mant % d;
        let half = d / 2;
        proof {
            if biased > 0 {
                assert(q < 0x20_0000_0000_0000) by (nonlinear_arith)
                    requires q == mant / d, mant < 0x2_0000_0000_0000_0000_0000_0000_0000u128,
                        d == 0x1000_0000_0000_0000u128;
            } else {
                assert(q < 0x10_0000_0000_0000) by (nonlinear_arith)
                    requires q == mant / d, mant < 0x2_0000_0000_0000_0000_0000_0000_0000u128,
                        d >= 0x2000_0000_0000_0000u128;
            }
        }
        let fin: u64 = if rem > half || (rem == half && q % 2 == 1) { q as u64 + 1 } else { q as u64 };
        let field: u64 = if biased > 0 { (biased - 1) as u64 * 0x10_0000_0000_0000 + fin } else { fin };
        sbit | field
    }
}

} // verus!
