//! Bit layout, raw constructors, classification, decomposition and
//! composition of [`F128`].

use vstd::prelude::*;
use super::F128;

verus! {

/// The category of a number.
#[derive(Debug, Clone, Copy, PartialEq, Eq, Structural)]
pub enum FpCategory {
    Nan,
    Infinite,
    Zero,
    Subnormal,
    Normal,
}

/// The number of leading zero bits of `x` from bit `127 - k` down,
/// plus `k`: the index, counted from the top, of the highest set bit at or
/// below bit `127 - k` (128 when there is none).
pub open spec fn lz_from(x: u128, k: int) -> int
    decreases 128 - k,
{
    if k < 0 || k >= 128 {
        128
    } else if (x >> ((127 - k) as u32)) & 1 == 1 {
        k
    } else {
        lz_from(x, k + 1)
    }
}

/// Number of leading zero bits of a 128-bit value (128 for zero).
pub open spec fn lz128(x: u128) -> int {
    lz_from(x, 0)
}

proof fn lemma_lz_from(x: u128, k: int)
    requires
        0 <= k <= 128,
        k > 0 ==> x >> ((128 - k) as u32) == 0,
    ensures
        k <= lz_from(x, k) <= 128,
        lz_from(x, k) > 0 ==> x >> ((128 - lz_from(x, k)) as u32) == 0,
        lz_from(x, k) < 128 ==> (x >> ((127 - lz_from(x, k)) as u32)) & 1 == 1,
    decreases 128 - k,
{
    if k < 128 && (x >> ((127 - k) as u32)) & 1 != 1 {
        let kk = k as u32;
        assert(x >> ((127 - kk) as u32) == 0) by (bit_vector)
            requires kk < 128, kk > 0 ==> x >> ((128 - kk) as u32) == 0, (x >> ((127 - kk) as u32)) & 1 != 1;
        lemma_lz_from(x, k + 1);
    }
}

/// What the leading zeros of a value say about its bits: the bits above
/// are zero, the bit at the position is set, and only zero has 128.
pub proof fn lemma_lz128(x: u128)
    ensures
        0 <= lz128(x) <= 128,
        lz128(x) > 0 ==> x >> ((128 - lz128(x)) as u32) == 0,
        lz128(x) < 128 ==> (x >> ((127 - lz128(x)) as u32)) & 1 == 1,
        (lz128(x) == 128) == (x == 0),
{
    lemma_lz_from(x, 0);
    let r = lz128(x) as u32;
    if r == 128 {
        assert(x >> 0u32 == 0 ==> x == 0) by (bit_vector);
    } else {
        assert((x >> ((127 - r) as u32)) & 1 == 1 ==> x != 0) by (bit_vector);
    }
}

/// `u128::leading_zeros`.
pub fn leading_zeros_u128(x: u128) -> (r: u32)
    ensures
        r == lz128(x),
        r <= 128,
        (r == 128) == (x == 0),
{
    let mut k: u32 = 0;
    while k < 128 && (x >> (127 - k)) & 1 == 0
        invariant
            k <= 128,
            lz_from(x, k as int) == lz_from(x, 0),
        decreases 128 - k,
    {
        k = k + 1;
    }
    proof {
        lemma_lz128(x);
        if k < 128 {
            let y = x >> (127 - k);
            assert((y & 1) != 0 ==> (y & 1) == 1) by (bit_vector);
        }
    }
    k
}

/// `-0.0` or `+0.0`.
pub open spec fn signed_zero(sign: bool) -> F128 {
    if sign { F128::bits(0x8000_0000_0000_0000, 0) } else { F128::bits(0, 0) }
}

/// `-∞` or `+∞`.
pub open spec fn signed_inf(sign: bool) -> F128 {
    if sign { F128::bits(0xFFFF_0000_0000_0000, 0) } else { F128::bits(0x7FFF_0000_0000_0000, 0) }
}

/// The number with the given sign, raw exponent and fraction bits (the
/// fraction is cut to its low 112 bits).
pub open spec fn raw_number(sign: bool, exp: u16, frac: u128) -> F128 {
    F128::bits(
        (if sign { 0x8000_0000_0000_0000u64 } else { 0u64 }) | ((exp as u64) << 48u64)
            | (((frac >> 64u32) as u64) & 0x0000_FFFF_FFFF_FFFFu64),
        frac as u64,
    )
}

/// The fraction of a normalized mantissa (its bits below bit 112).
pub open spec fn frac_mask() -> u128 {
    0xFFFF_FFFF_FFFF_FFFF_FFFF_FFFF_FFFFu128
}

/// `i32::saturating_add` on a non-negative amount.
pub open spec fn sat_add(a: i32, b: int) -> i32 {
    if a + b > i32::MAX { i32::MAX } else { (a + b) as i32 }
}

/// `i32::saturating_sub` on a non-negative amount.
pub open spec fn sat_sub(a: i32, b: int) -> i32 {
    if a - b < i32::MIN { i32::MIN } else { (a - b) as i32 }
}

/// `i32::saturating_add` for a non-negative `b`.
pub fn saturating_add_i32(a: i32, b: i32) -> (r: i32)
    requires
        b >= 0,
    ensures
        r == sat_add(a, b as int),
{
    if a > i32::MAX - b { i32::MAX } else { a + b }
}

/// `i32::saturating_sub` for a non-negative `b`.
pub fn saturating_sub_i32(a: i32, b: i32) -> (r: i32)
    requires
        b >= 0,
    ensures
        r == sat_sub(a, b as int),
{
    if a < i32::MIN + b { i32::MIN } else { a - b }
}

/// What `compose` builds: the mantissa normalized so that its highest set
/// bit is bit 112 (shifting right drops low bits, shifting left moves the
/// exponent down), then an infinity when the exponent is too large, a
/// subnormal (or zero) when it is too small, and a normal number otherwise.
pub open spec fn compose_spec(sign: bool, exp: i32, mant: u128) -> F128 {
    if mant == 0 {
        signed_zero(sign)
    } else {
        let msb = 127 - lz128(mant);
        let m2 = if msb > 112 { mant >> ((msb - 112) as u32) } else if msb < 112 { mant << ((112 - msb) as u32) } else { mant };
        let e2 = if msb > 112 { sat_add(exp, msb - 112) } else if msb < 112 { sat_sub(exp, 112 - msb) } else { exp };
        let biased = e2 + 16383;
        if biased >= 0x7FFF {
            signed_inf(sign)
        } else if biased <= 0 {
            let sh = 1 - biased;
            if sh >= 128 {
                signed_zero(sign)
            } else {
                raw_number(sign, 0, m2 >> (sh as u32))
            }
        } else {
            raw_number(sign, biased as u16, m2 & frac_mask())
        }
    }
}

/// Exponents that `compose` takes without overflowing `i32`.
pub open spec fn composable_exp(exp: i32) -> bool {
    exp <= i32::MAX - 16383 - 16
}

impl F128 {
    /// Whether the sign bit is set.
    pub open spec fn sign_spec(self) -> bool {
        self.high & 0x8000_0000_0000_0000u64 != 0
    }

    /// The raw (biased) exponent.
    pub open spec fn exp_spec(self) -> u16 {
        ((self.high & 0x7FFF_0000_0000_0000u64) >> 48u64) as u16
    }

    /// The high 48 bits of the fraction.
    pub open spec fn frac_high_spec(self) -> u64 {
        self.high & 0x0000_FFFF_FFFF_FFFFu64
    }

    /// The 112-bit fraction.
    pub open spec fn frac_spec(self) -> u128 {
        ((self.frac_high_spec() as u128) << 64u32) | (self.low as u128)
    }

    pub open spec fn is_nan_spec(self) -> bool {
        self.exp_spec() == 0x7FFF && (self.frac_high_spec() != 0 || self.low != 0)
    }

    pub open spec fn is_infinite_spec(self) -> bool {
        self.exp_spec() == 0x7FFF && self.frac_high_spec() == 0 && self.low == 0
    }

    pub open spec fn is_finite_spec(self) -> bool {
        self.exp_spec() != 0x7FFF
    }

    pub open spec fn is_zero_spec(self) -> bool {
        self.high & 0x7FFF_FFFF_FFFF_FFFFu64 == 0 && self.low == 0
    }

    pub open spec fn is_subnormal_spec(self) -> bool {
        self.exp_spec() == 0 && (self.frac_high_spec() != 0 || self.low != 0)
    }

    /// What `decompose` gives: the sign, the unbiased exponent and the
    /// mantissa with its implicit bit (subnormals normalized; zero as
    /// exponent `MIN_EXP - 1` and mantissa 0; infinities and NaNs as
    /// exponent `i32::MAX` and their fraction).
    pub open spec fn decompose_spec(self) -> (bool, i32, u128) {
        let sign = self.sign_spec();
        let exp = self.exp_spec();
        let frac = self.frac_spec();
        if exp == 0 {
            if frac == 0 {
                (sign, -16383i32, 0u128)
            } else {
                let lz = lz128(frac) - 16;
                (sign, (-16382 - lz) as i32, frac << (lz as u32))
            }
        } else if exp == 0x7FFF {
            (sign, i32::MAX, frac)
        } else {
            (sign, (exp - 16383) as i32, (1u128 << 112u32) | frac)
        }
    }

    /// The number with the given bits.
    pub fn from_bits(high: u64, low: u64) -> (r: Self)
        ensures
            r == F128::bits(high, low),
    {
        F128 { high, low }
    }

    /// The bits of the number.
    pub fn to_bits(self) -> (r: (u64, u64))
        ensures
            r == (self.high, self.low),
    {
        (self.high, self.low)
    }

    /// The sign bit, 0 or 1.
    pub fn sign_bit(self) -> (r: u8)
        ensures
            r == (if self.sign_spec() { 1u8 } else { 0u8 }),
    {
        let r = ((self.high >> 63u64) & 1) as u8;
        proof {
            let h = self.high;
            assert(((h >> 63u64) & 1) == (if h & 0x8000_0000_0000_0000u64 != 0 { 1u64 } else { 0u64 })) by (bit_vector);
        }
        r
    }

    /// Whether the sign bit is set.
    pub fn is_sign_negative(self) -> (r: bool)
        ensures
            r == self.sign_spec(),
    {
        (self.high & 0x8000_0000_0000_0000) != 0
    }

    /// Whether the sign bit is clear (NaN included, as for `f64`).
    pub fn is_sign_positive(self) -> (r: bool)
        ensures
            r == !self.sign_spec(),
    {
        !self.is_sign_negative()
    }

    /// The raw exponent bits.
    pub fn raw_exponent(self) -> (r: u16)
        ensures
            r == self.exp_spec(),
            r <= 0x7FFF,
    {
        let h = self.high;
        proof {
            assert(((h & 0x7FFF_0000_0000_0000u64) >> 48u64) <= 0x7FFF) by (bit_vector);
        }
        ((self.high & 0x7FFF_0000_0000_0000) >> 48) as u16
    }

    /// The fraction bits: the high 48 and the low 64.
    pub fn raw_fraction(self) -> (r: (u64, u64))
        ensures
            r == (self.frac_high_spec(), self.low),
    {
        (self.high & 0x0000_FFFF_FFFF_FFFF, self.low)
    }

    /// The number with the given sign, raw exponent and fraction.
    pub fn from_raw(sign: bool, exp: u16, frac: u128) -> (r: Self)
        ensures
            r == raw_number(sign, exp, frac),
    {
        let s: u64 = if sign { 0x8000_0000_0000_0000 } else { 0 };
        let high = s | ((exp as u64) << 48u64) | (((frac >> 64u32) as u64) & 0x0000_FFFF_FFFF_FFFF);
        F128 { high, low: frac as u64 }
    }

    /// Whether the value is NaN.
    pub fn is_nan(self) -> (r: bool)
        ensures
            r == self.is_nan_spec(),
    {
        let exp = self.raw_exponent();
        let (fh, fl) = self.raw_fraction();
        exp == 0x7FFF && (fh != 0 || fl != 0)
    }

    /// Whether the value is infinite.
    pub fn is_infinite(self) -> (r: bool)
        ensures
            r == self.is_infinite_spec(),
    {
        let exp = self.raw_exponent();
        let (fh, fl) = self.raw_fraction();
        exp == 0x7FFF && fh == 0 && fl == 0
    }

    /// Whether the value is neither infinite nor NaN.
    pub fn is_finite(self) -> (r: bool)
        ensures
            r == self.is_finite_spec(),
    {
        self.raw_exponent() != 0x7FFF
    }

    /// Whether the value is `+0.0` or `-0.0`.
    pub fn is_zero(self) -> (r: bool)
        ensures
            r == self.is_zero_spec(),
    {
        (self.high & 0x7FFF_FFFF_FFFF_FFFF) == 0 && self.low == 0
    }

    /// Whether the value is exactly `1.0`.
    pub fn is_one(self) -> (r: bool)
        ensures
            r == (self == F128::bits(0x3FFF_0000_0000_0000, 0)),
    {
        self.high == 0x3FFF_0000_0000_0000 && self.low == 0
    }

    /// Whether the value is exactly `-1.0`.
    pub fn is_neg_one(self) -> (r: bool)
        ensures
            r == (self == F128::bits(0xBFFF_0000_0000_0000, 0)),
    {
        self.high == 0xBFFF_0000_0000_0000 && self.low == 0
    }

    /// Whether the value is subnormal.
    pub fn is_subnormal(self) -> (r: bool)
        ensures
            r == self.is_subnormal_spec(),
    {
        let exp = self.raw_exponent();
        let (fh, fl) = self.raw_fraction();
        exp == 0 && (fh != 0 || fl != 0)
    }

    /// Whether the value is normal.
    pub fn is_normal(self) -> (r: bool)
        ensures
            r == (self.exp_spec() != 0 && self.exp_spec() != 0x7FFF),
    {
        let exp = self.raw_exponent();
        exp != 0 && exp != 0x7FFF
    }

    /// The category of the value.
    pub fn classify(self) -> (r: FpCategory)
        ensures
            r == (if self.is_nan_spec() {
                FpCategory::Nan
            } else if self.is_infinite_spec() {
                FpCategory::Infinite
            } else if self.is_zero_spec() {
                FpCategory::Zero
            } else if self.is_subnormal_spec() {
                FpCategory::Subnormal
            } else {
                FpCategory::Normal
            }),
    {
        if self.is_nan() {
            FpCategory::Nan
        } else if self.is_infinite() {
            FpCategory::Infinite
        } else if self.is_zero() {
            FpCategory::Zero
        } else if self.is_subnormal() {
            FpCategory::Subnormal
        } else {
            FpCategory::Normal
        }
    }

    /// The number of binary digits of the mantissa: 113 for a number that
    /// is not subnormal (the implicit bit and the 112 stored ones); for a
    /// subnormal one, the count of its significant bits, from the highest
    /// set bit of the 112-bit fraction down (1 for the smallest).
    pub fn mantissa_digits(self) -> (r: u32)
        ensures
            self.is_subnormal_spec() ==> r == 128 - lz128(self.frac_spec()),
            !self.is_subnormal_spec() ==> r == 113,
    {
        if self.is_subnormal() {
            let (fh, fl) = self.raw_fraction();
            let frac = ((fh as u128) << 64u32) | (fl as u128);
            let z = leading_zeros_u128(frac);
            128 - z
        } else {
            113
        }
    }

    /// Splits into sign, unbiased exponent and mantissa with its implicit
    /// bit (see [`F128::decompose_spec`]).
    pub fn decompose(self) -> (r: (bool, i32, u128))
        ensures
            r == self.decompose_spec(),
            self.is_finite_spec() ==> -16383 - 112 <= r.1 <= 16383,
            self.is_finite_spec() ==> r.2 < (1u128 << 113u32),
            self.is_finite_spec() && !self.is_zero_spec() ==> r.2 != 0,
            self.is_zero_spec() ==> r.2 == 0,
    {
        let sign = self.is_sign_negative();
        let exp = self.raw_exponent();
        let (fh, fl) = self.raw_fraction();
        let frac = ((fh as u128) << 64u32) | (fl as u128);
        let h = self.high;
        proof {
            assert(fh <= 0x0000_FFFF_FFFF_FFFFu64) by (bit_vector)
                requires fh == h & 0x0000_FFFF_FFFF_FFFFu64;
            assert(0u128 < (1u128 << 113u32)) by (bit_vector);
            assert((1u128 << 112u32) < (1u128 << 113u32)) by (bit_vector);
            assert(frac < (1u128 << 112u32)) by (bit_vector)
                requires frac == ((fh as u128) << 64u32) | (fl as u128), fh <= 0x0000_FFFF_FFFF_FFFFu64;
            assert((frac == 0) == (fh == 0 && fl == 0)) by (bit_vector)
                requires frac == ((fh as u128) << 64u32) | (fl as u128);
            assert((h & 0x7FFF_FFFF_FFFF_FFFFu64 == 0) == (exp == 0 && fh == 0)) by (bit_vector)
                requires exp == ((h & 0x7FFF_0000_0000_0000u64) >> 48u64) as u16, fh == h & 0x0000_FFFF_FFFF_FFFFu64;
        }
        if exp == 0 {
            if frac == 0 {
                (sign, -16383, 0)
            } else {
                let z = leading_zeros_u128(frac);
                proof {
                    lemma_lz_of_small(frac);
                }
                let lz = z - 16;
                proof {
                    assert((1u128 << 112u32) < (1u128 << 113u32)) by (bit_vector);
                }
                (sign, -16382 - (lz as i32), frac << lz)
            }
        } else if exp == 0x7FFF {
            (sign, i32::MAX, frac)
        } else {
            proof {
                assert((1u128 << 112u32) | frac < (1u128 << 113u32)) by (bit_vector)
                    requires frac < (1u128 << 112u32);
                assert((1u128 << 112u32) | frac != 0) by (bit_vector);
            }
            (sign, exp as i32 - 16383, (1u128 << 112u32) | frac)
        }
    }

    /// Builds a number from sign, unbiased exponent and mantissa (see
    /// [`compose_spec`]).
    pub fn compose(sign: bool, exp: i32, mant: u128) -> (r: Self)
        requires
            composable_exp(exp),
        ensures
            r == compose_spec(sign, exp, mant),
    {
        if mant == 0 {
            return if sign { F128::neg_zero() } else { F128::zero() };
        }
        let lz = leading_zeros_u128(mant);
        let msb: i32 = 127 - lz as i32;
        let mut m = mant;
        let mut e = exp;
        if msb > 112 {
            let shift = (msb - 112) as u32;
            m = mant >> shift;
            e = saturating_add_i32(exp, shift as i32);
        } else if msb < 112 {
            let shift = (112 - msb) as u32;
            m = mant << shift;
            e = saturating_sub_i32(exp, shift as i32);
        }
        let biased = e + 16383;
        if biased >= 0x7FFF {
            return if sign { F128::neg_infinity() } else { F128::infinity() };
        }
        if biased <= 0 {
            let shift = (1 - biased) as u32;
            if shift >= 128 {
                return if sign { F128::neg_zero() } else { F128::zero() };
            }
            return Self::from_raw(sign, 0, m >> shift);
        }
        Self::from_raw(sign, biased as u16, m & 0xFFFF_FFFF_FFFF_FFFF_FFFF_FFFF_FFFFu128)
    }

    /// Absolute value: the sign bit cleared.
    pub fn abs(self) -> (r: Self)
        ensures
            r == F128::bits(self.high & 0x7FFF_FFFF_FFFF_FFFFu64, self.low),
    {
        Self::from_bits(self.high & 0x7FFF_FFFF_FFFF_FFFF, self.low)
    }

    /// The magnitude of `self` with the sign of `sign_from`.
    pub fn copysign(self, sign_from: Self) -> (r: Self)
        ensures
            r == F128::bits(
                (self.high & 0x7FFF_FFFF_FFFF_FFFFu64) | (sign_from.high & 0x8000_0000_0000_0000u64),
                self.low,
            ),
    {
        Self::from_bits(
            (self.high & 0x7FFF_FFFF_FFFF_FFFF) | (sign_from.high & 0x8000_0000_0000_0000),
            self.low,
        )
    }

    /// The sign as a number: NaN for NaN, the zero itself for a zero,
    /// `±1.0` otherwise.
    pub fn signum(self) -> (r: Self)
        ensures
            self.is_nan_spec() ==> r == F128::bits(0x7FFF_8000_0000_0000, 0),
            !self.is_nan_spec() && self.is_zero_spec() ==> r == self,
            !self.is_nan_spec() && !self.is_zero_spec() ==> r == (if self.sign_spec() {
                F128::bits(0xBFFF_0000_0000_0000, 0)
            } else {
                F128::bits(0x3FFF_0000_0000_0000, 0)
            }),
    {
        if self.is_nan() {
            F128::nan()
        } else if self.is_zero() {
            self
        } else {
            let r = Self::copysign(F128::one(), self);
            proof {
                let h = self.high;
                assert(((0x3FFF_0000_0000_0000u64 & 0x7FFF_FFFF_FFFF_FFFFu64) | (h & 0x8000_0000_0000_0000u64))
                    == (if h & 0x8000_0000_0000_0000u64 != 0 { 0xBFFF_0000_0000_0000u64 } else { 0x3FFF_0000_0000_0000u64 })) by (bit_vector);
            }
            r
        }
    }
}

/// The bound of a mantissa with its implicit bit: `1 << 113` as a number.
pub proof fn lemma_mantissa_limit()
    ensures
        (1u128 << 113u32) == 0x2_0000_0000_0000_0000_0000_0000_0000u128,
{
    assert((1u128 << 113u32) == 0x2_0000_0000_0000_0000_0000_0000_0000u128) by (bit_vector);
}

/// A nonzero value below 2^112 has between 16 and 127 leading zeros, and
/// shifting it left by its leading zeros less 16 keeps it nonzero and below
/// 2^112.
pub proof fn lemma_lz_of_small(x: u128)
    requires
        x != 0,
        x < (1u128 << 112u32),
    ensures
        16 <= lz128(x) < 128,
        x << ((lz128(x) - 16) as u32) != 0,
        x << ((lz128(x) - 16) as u32) < (1u128 << 112u32),
{
    lemma_lz128(x);
    let r = lz128(x) as u32;
    assert(r >= 16) by (bit_vector)
        requires x < (1u128 << 112u32), r < 128, (x >> ((127 - r) as u32)) & 1 == 1;
    assert(x << ((r - 16) as u32) != 0 && x << ((r - 16) as u32) < (1u128 << 112u32)) by (bit_vector)
        requires x != 0, 16 <= r < 128, x >> ((128 - r) as u32) == 0;
}

impl F128 {
    /// Whether the value is a whole number: not for NaN and infinities,
    /// always for zeros, otherwise when no mantissa bit is below the
    /// binary point.
    pub open spec fn is_integer_spec(self) -> bool {
        if self.is_nan_spec() || self.is_infinite_spec() {
            false
        } else if self.is_zero_spec() {
            true
        } else {
            let (_s, exp, mant) = self.decompose_spec();
            if exp < 0 {
                false
            } else if exp >= 112 {
                true
            } else {
                mant & (((1u128 << ((112 - exp) as u32)) - 1) as u128) == 0
            }
        }
    }

    /// Whether the value is a whole number (see [`F128::is_integer_spec`]).
    pub fn is_integer(self) -> (r: bool)
        ensures
            r == self.is_integer_spec(),
    {
        if self.is_nan() || self.is_infinite() {
            return false;
        }
        if self.is_zero() {
            return true;
        }
        let (_sign, exp, mant) = self.decompose();
        if exp < 0 {
            return false;
        }
        if exp >= 112 {
            return true;
        }
        let shift = (112 - exp) as u32;
        proof {
            assert(1u128 << shift >= 1) by (bit_vector)
                requires shift <= 112;
        }
        let frac_mask = (1u128 << shift) - 1;
        (mant & frac_mask) == 0
    }
}

/// A finite number decomposes to a zero mantissa exactly when it is zero.
pub proof fn lemma_decompose_zero(x: F128)
    requires
        x.is_finite_spec(),
    ensures
        (x.decompose_spec().2 == 0) == x.is_zero_spec(),
{
    let h = x.high;
    let fh = x.frac_high_spec();
    let fl = x.low;
    let frac = x.frac_spec();
    let exp = x.exp_spec();
    assert(fh <= 0x0000_FFFF_FFFF_FFFFu64) by (bit_vector)
        requires fh == h & 0x0000_FFFF_FFFF_FFFFu64;
    assert(frac < (1u128 << 112u32)) by (bit_vector)
        requires frac == ((fh as u128) << 64u32) | (fl as u128), fh <= 0x0000_FFFF_FFFF_FFFFu64;
    assert((frac == 0) == (fh == 0 && fl == 0)) by (bit_vector)
        requires frac == ((fh as u128) << 64u32) | (fl as u128);
    assert((h & 0x7FFF_FFFF_FFFF_FFFFu64 == 0) == (exp == 0 && fh == 0)) by (bit_vector)
        requires exp == ((h & 0x7FFF_0000_0000_0000u64) >> 48u64) as u16, fh == h & 0x0000_FFFF_FFFF_FFFFu64;
    assert((1u128 << 112u32) | frac != 0) by (bit_vector);
    if exp == 0 && frac != 0 {
        lemma_lz_of_small(frac);
    }
}

/// A zero is finite (neither NaN nor infinite).
pub proof fn lemma_zero_finite(x: F128)
    requires
        x.is_zero_spec(),
    ensures
        x.exp_spec() == 0,
        x.is_finite_spec(),
        !x.is_nan_spec(),
        !x.is_infinite_spec(),
{
    let h = x.high;
    assert(h & 0x7FFF_FFFF_FFFF_FFFFu64 == 0 ==> ((h & 0x7FFF_0000_0000_0000u64) >> 48u64) as u16 == 0) by (bit_vector);
}

/// Two infinities of one sign are the same number.
pub proof fn lemma_infinity_unique(a: F128, b: F128)
    requires
        a.is_infinite_spec(),
        b.is_infinite_spec(),
        a.sign_spec() == b.sign_spec(),
    ensures
        a == b,
{
    let ha = a.high;
    let hb = b.high;
    assert(ha == hb) by (bit_vector)
        requires
            ((ha & 0x7FFF_0000_0000_0000u64) >> 48u64) as u16 == 0x7FFFu16,
            ((hb & 0x7FFF_0000_0000_0000u64) >> 48u64) as u16 == 0x7FFFu16,
            ha & 0x0000_FFFF_FFFF_FFFFu64 == 0,
            hb & 0x0000_FFFF_FFFF_FFFFu64 == 0,
            (ha & 0x8000_0000_0000_0000u64 != 0) == (hb & 0x8000_0000_0000_0000u64 != 0);
}

} // verus!
