//! Numbers in the IEEE 754 binary128 layout (quadruple precision) computed
//! in software: bits, classification, arithmetic, rounding and comparison.
//!
//! A value is a 1-bit sign, a 15-bit exponent (bias 16383) and a 112-bit
//! fraction, stored as two 64-bit words. Every operation is specified over
//! these bits. The layout, the special values and the signs of zero follow
//! IEEE 754; an inexact result is truncated toward zero rather than rounded
//! to nearest, so results may differ from IEEE arithmetic in the last bit.

pub mod arith;
pub mod bits;
pub mod cmp;
pub mod convert;
pub mod exp_log;
pub mod inverse;
pub mod laws;
pub mod math;
pub mod parse;
pub mod round;
pub mod trig;
pub mod wide;

use vstd::prelude::*;

verus! {

/// A binary128 number, as its two 64-bit words: `high` holds the sign,
/// the exponent and the top 48 bits of the fraction; `low` the rest of the
/// fraction.
#[derive(Clone, Copy, Debug, Hash)]
pub struct F128 {
    pub high: u64,
    pub low: u64,
}

/// Error of parsing a number.
#[derive(Debug, Clone, Copy, PartialEq, Eq, Structural)]
pub struct ParseF128Error;

impl F128 {
    /// The sign bit.
    pub const SIGN_MASK: u64 = 0x8000_0000_0000_0000;
    /// The exponent bits.
    pub const EXP_MASK: u64 = 0x7FFF_0000_0000_0000;
    /// The fraction bits of the high word.
    pub const FRAC_HIGH_MASK: u64 = 0x0000_FFFF_FFFF_FFFF;
    /// Exponent width.
    pub const EXP_BITS: u32 = 15;
    /// Fraction width.
    pub const FRAC_BITS: u32 = 112;
    /// Exponent bias.
    pub const EXP_BIAS: i32 = 16383;
    /// Largest unbiased exponent of a finite number.
    pub const MAX_EXP: i32 = 16383;
    /// Smallest unbiased exponent of a normal number.
    pub const MIN_EXP: i32 = -16382;

    /// The number with the given bits.
    pub open spec fn bits(high: u64, low: u64) -> F128 {
        F128 { high, low }
    }

    /// `+0.0`
    pub fn zero() -> (r: F128)
        ensures
            r == Self::bits(0, 0),
    {
        F128 { high: 0, low: 0 }
    }

    /// `-0.0`
    pub fn neg_zero() -> (r: F128)
        ensures
            r == Self::bits(0x8000_0000_0000_0000, 0),
    {
        F128 { high: 0x8000_0000_0000_0000, low: 0 }
    }

    /// `1.0`
    pub fn one() -> (r: F128)
        ensures
            r == Self::bits(0x3FFF_0000_0000_0000, 0),
    {
        F128 { high: 0x3FFF_0000_0000_0000, low: 0 }
    }

    /// `-1.0`
    pub fn neg_one() -> (r: F128)
        ensures
            r == Self::bits(0xBFFF_0000_0000_0000, 0),
    {
        F128 { high: 0xBFFF_0000_0000_0000, low: 0 }
    }

    /// `+∞`
    pub fn infinity() -> (r: F128)
        ensures
            r == Self::bits(0x7FFF_0000_0000_0000, 0),
    {
        F128 { high: 0x7FFF_0000_0000_0000, low: 0 }
    }

    /// `-∞`
    pub fn neg_infinity() -> (r: F128)
        ensures
            r == Self::bits(0xFFFF_0000_0000_0000, 0),
    {
        F128 { high: 0xFFFF_0000_0000_0000, low: 0 }
    }

    /// The canonical quiet NaN.
    pub fn nan() -> (r: F128)
        ensures
            r == Self::bits(0x7FFF_8000_0000_0000, 0),
    {
        F128 { high: 0x7FFF_8000_0000_0000, low: 0 }
    }

    /// Smallest positive subnormal number.
    pub fn min_positive_subnormal() -> (r: F128)
        ensures
            r == Self::bits(0, 1),
    {
        F128 { high: 0, low: 1 }
    }

    /// Smallest positive normal number, 2^-16382.
    pub fn min_positive_normal() -> (r: F128)
        ensures
            r == Self::bits(0x0001_0000_0000_0000, 0),
    {
        F128 { high: 0x0001_0000_0000_0000, low: 0 }
    }

    /// Largest finite number.
    pub fn max_value() -> (r: F128)
        ensures
            r == Self::bits(0x7FFE_FFFF_FFFF_FFFF, 0xFFFF_FFFF_FFFF_FFFF),
    {
        F128 { high: 0x7FFE_FFFF_FFFF_FFFF, low: 0xFFFF_FFFF_FFFF_FFFF }
    }

    /// Machine epsilon, 2^-112.
    pub fn epsilon() -> (r: F128)
        ensures
            r == Self::bits(0x3F8F_0000_0000_0000, 0),
    {
        F128 { high: 0x3F8F_0000_0000_0000, low: 0 }
    }

    /// π
    pub fn pi() -> (r: F128)
        ensures
            r == Self::bits(0x4000_921F_B544_42D1, 0x8469_898C_C517_01B8),
    {
        F128 { high: 0x4000_921F_B544_42D1, low: 0x8469_898C_C517_01B8 }
    }

    /// 2π
    pub fn two_pi() -> (r: F128)
        ensures
            r == Self::bits(0x4001_921F_B544_42D1, 0x8469_898C_C517_01B8),
    {
        F128 { high: 0x4001_921F_B544_42D1, low: 0x8469_898C_C517_01B8 }
    }

    /// π/2
    pub fn frac_pi_2() -> (r: F128)
        ensures
            r == Self::bits(0x3FFF_921F_B544_42D1, 0x8469_898C_C517_01B8),
    {
        F128 { high: 0x3FFF_921F_B544_42D1, low: 0x8469_898C_C517_01B8 }
    }

    /// π/4
    pub fn frac_pi_4() -> (r: F128)
        ensures
            r == Self::bits(0x3FFE_921F_B544_42D1, 0x8469_898C_C517_01B8),
    {
        F128 { high: 0x3FFE_921F_B544_42D1, low: 0x8469_898C_C517_01B8 }
    }

    /// e
    pub fn e() -> (r: F128)
        ensures
            r == Self::bits(0x4000_5BF0_A8B1_4576, 0x9535_5FB8_AC40_4E7A),
    {
        F128 { high: 0x4000_5BF0_A8B1_4576, low: 0x9535_5FB8_AC40_4E7A }
    }

    /// ln 2
    pub fn ln_2() -> (r: F128)
        ensures
            r == Self::bits(0x3FFE_62E4_2FEF_A39E, 0xF357_93C7_7FCE_2BBC),
    {
        F128 { high: 0x3FFE_62E4_2FEF_A39E, low: 0xF357_93C7_7FCE_2BBC }
    }

    /// log2 e
    pub fn log2_e() -> (r: F128)
        ensures
            r == Self::bits(0x3FFF_B8AA_3B29_5C17, 0xF0AB_EA67_0764_8776),
    {
        F128 { high: 0x3FFF_B8AA_3B29_5C17, low: 0xF0AB_EA67_0764_8776 }
    }
}

} // verus!
