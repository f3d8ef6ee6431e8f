//! Negation, addition, subtraction, multiplication, division and remainder
//! of [`F128`].

use vstd::prelude::*;
use super::F128;
use super::bits::{compose_spec, composable_exp, signed_zero, signed_inf, lemma_mantissa_limit};
use super::round::trunc_spec;
use super::wide::{
    U256, mul_u128_spec, lz_spec, shr_spec, shl_spec, low_u128_spec, from_u128_spec, ge_spec, sub_spec,
    is_zero_spec,
};

verus! {

/// The canonical NaN.
pub open spec fn nan_spec() -> F128 {
    F128::bits(0x7FFF_8000_0000_0000, 0)
}

/// `-x`: the sign bit flipped, except that NaN stays as it is.
pub open spec fn neg_spec(x: F128) -> F128 {
    if x.is_nan_spec() {
        x
    } else {
        F128::bits(x.high ^ 0x8000_0000_0000_0000u64, x.low)
    }
}

/// `a + b`: NaN if either is NaN or for `∞ + -∞`; an infinity if one is
/// infinite; for two zeros `-0` only when both are `-0`, else `+0`; the
/// other operand if one is zero; otherwise the mantissas are
/// aligned to the larger exponent (the smaller one shifted right, low bits
/// dropped), added or subtracted by sign, and composed.
pub open spec fn add_spec(a: F128, b: F128) -> F128 {
    if a.is_nan_spec() || b.is_nan_spec() {
        nan_spec()
    } else if a.is_infinite_spec() || b.is_infinite_spec() {
        if a.is_infinite_spec() && b.is_infinite_spec() {
            if a.sign_spec() != b.sign_spec() { nan_spec() } else { a }
        } else if a.is_infinite_spec() {
            a
        } else {
            b
        }
    } else {
        let (sa, ea, ma) = a.decompose_spec();
        let (sb, eb, mb) = b.decompose_spec();
        if ma == 0 && mb == 0 {
            if sa && sb { b } else { F128::bits(0, 0) }
        } else if ma == 0 {
            b
        } else if mb == 0 {
            a
        } else {
            let e_res = if ea >= eb { ea } else { eb };
            let m_a = if ea >= eb { ma } else { ma >> (if eb - ea < 127 { eb - ea } else { 127 }) as u32 };
            let m_b = if ea >= eb { mb >> (if ea - eb < 127 { ea - eb } else { 127 }) as u32 } else { mb };
            let s = if sa == sb { sa } else if m_a >= m_b { sa } else { sb };
            let m = if sa == sb { (m_a + m_b) as u128 } else if m_a >= m_b { (m_a - m_b) as u128 } else { (m_b - m_a) as u128 };
            if m == 0 { F128::bits(0, 0) } else { compose_spec(s, e_res, m) }
        }
    }
}

/// `a * b`: NaN for NaN operands and `0 × ∞`; a signed zero or infinity
/// when an operand is one; otherwise the 226-bit product of the mantissas,
/// cut to its top 113 bits, composed with the summed exponents.
pub open spec fn mul_spec(a: F128, b: F128) -> F128 {
    if a.is_nan_spec() || b.is_nan_spec() {
        nan_spec()
    } else if (a.is_zero_spec() && b.is_infinite_spec()) || (b.is_zero_spec() && a.is_infinite_spec()) {
        nan_spec()
    } else if a.is_zero_spec() || b.is_zero_spec() {
        signed_zero(a.sign_spec() != b.sign_spec())
    } else if a.is_infinite_spec() || b.is_infinite_spec() {
        signed_inf(a.sign_spec() != b.sign_spec())
    } else {
        let (sa, ea, ma) = a.decompose_spec();
        let (sb, eb, mb) = b.decompose_spec();
        let prod = mul_u128_spec(ma, mb);
        let msb = 255 - lz_spec(prod);
        let shift = msb - 112;
        let norm = if shift > 0 { shr_spec(prod, shift as u32) } else { shl_spec(prod, (-shift) as u32) };
        let mant = low_u128_spec(norm) & 0x1_FFFF_FFFF_FFFF_FFFF_FFFF_FFFF_FFFFu128;
        compose_spec(sa != sb, (ea + eb - 112 + shift) as i32, mant)
    }
}

/// Long division of `n` by `d`: the quotient bits from `i` down to 0 are
/// found by comparing `n` with `d << i` and subtracting.
pub open spec fn div_loop(n: U256, d: U256, q: u128, i: int) -> u128
    decreases i + 1,
{
    if i < 0 {
        q
    } else {
        let ds = shl_spec(d, i as u32);
        if ge_spec(n, ds) {
            div_loop(sub_spec(n, ds), d, q | (1u128 << (i as u32)), i - 1)
        } else {
            div_loop(n, d, q, i - 1)
        }
    }
}

/// `a / b`: NaN for NaN operands, `0/0` and `∞/∞`; a signed zero for
/// `0/x` and `x/∞`; a signed infinity for `x/0` and `∞/x`; otherwise the
/// 113-bit quotient of the mantissas composed with the exponent difference.
pub open spec fn div_spec(a: F128, b: F128) -> F128 {
    if a.is_nan_spec() || b.is_nan_spec() {
        nan_spec()
    } else if (a.is_zero_spec() && b.is_zero_spec()) || (a.is_infinite_spec() && b.is_infinite_spec()) {
        nan_spec()
    } else if a.is_zero_spec() || b.is_infinite_spec() {
        signed_zero(a.sign_spec() != b.sign_spec())
    } else if b.is_zero_spec() || a.is_infinite_spec() {
        signed_inf(a.sign_spec() != b.sign_spec())
    } else {
        let (sa, ea, ma) = a.decompose_spec();
        let (sb, eb, mb) = b.decompose_spec();
        let q = div_loop(shl_spec(from_u128_spec(ma), 112), from_u128_spec(mb), 0, 112);
        compose_spec(sa != sb, (ea - eb) as i32, q)
    }
}

/// `a % b`: NaN for NaN operands, `∞ % x` and `x % 0`; `a` for `x % ∞` and
/// `0 % x`; otherwise `a - b * trunc(a / b)`.
pub open spec fn rem_spec(a: F128, b: F128) -> F128 {
    if a.is_nan_spec() || b.is_nan_spec() {
        nan_spec()
    } else if a.is_infinite_spec() || b.is_zero_spec() {
        nan_spec()
    } else if b.is_infinite_spec() || a.is_zero_spec() {
        a
    } else {
        add_spec(a, neg_spec(mul_spec(b, trunc_spec(div_spec(a, b)))))
    }
}

impl F128 {
    /// Negation.
    pub fn neg_f128(self) -> (r: Self)
        ensures
            r == neg_spec(self),
    {
        if self.is_nan() {
            return self;
        }
        Self::from_bits(self.high ^ 0x8000_0000_0000_0000, self.low)
    }

    /// Addition (see [`add_spec`]).
    pub fn add_f128(self, rhs: Self) -> (r: Self)
        ensures
            r == add_spec(self, rhs),
    {
        if self.is_nan() || rhs.is_nan() {
            return Self::nan();
        }
        if self.is_infinite() || rhs.is_infinite() {
            if self.is_infinite() && rhs.is_infinite() {
                if self.is_sign_negative() != rhs.is_sign_negative() {
                    return Self::nan();
                }
                return self;
            }
            return if self.is_infinite() { self } else { rhs };
        }
        let (sa, ea, ma) = self.decompose();
        let (sb, eb, mb) = rhs.decompose();
        if ma == 0 && mb == 0 {
            return if sa && sb { rhs } else { Self::zero() };
        }
        if ma == 0 {
            return rhs;
        }
        if mb == 0 {
            return self;
        }
        let e_res = if ea >= eb { ea } else { eb };
        let m_a = if ea >= eb { ma } else { ma >> (if eb - ea < 127 { eb - ea } else { 127 }) as u32 };
        let m_b = if ea >= eb { mb >> (if ea - eb < 127 { ea - eb } else { 127 }) as u32 } else { mb };
        proof {
            lemma_mantissa_limit();
            assert(m_a <= ma) by (bit_vector)
                requires m_a == ma || exists|s: u32| m_a == ma >> s;
            assert(m_b <= mb) by (bit_vector)
                requires m_b == mb || exists|s: u32| m_b == mb >> s;
        }
        let (s, m) = if sa == sb {
            (sa, m_a + m_b)
        } else if m_a >= m_b {
            (sa, m_a - m_b)
        } else {
            (sb, m_b - m_a)
        };
        if m == 0 {
            return Self::zero();
        }
        Self::compose(s, e_res, m)
    }

    /// Subtraction: `self + (-rhs)`.
    pub fn sub_f128(self, rhs: Self) -> (r: Self)
        ensures
            r == add_spec(self, neg_spec(rhs)),
    {
        self.add_f128(rhs.neg_f128())
    }

    /// Multiplication (see [`mul_spec`]).
    pub fn mul_f128(self, rhs: Self) -> (r: Self)
        ensures
            r == mul_spec(self, rhs),
    {
        if self.is_nan() || rhs.is_nan() {
            return Self::nan();
        }
        let s_zero = self.is_zero();
        let r_zero = rhs.is_zero();
        let s_inf = self.is_infinite();
        let r_inf = rhs.is_infinite();
        if (s_zero && r_inf) || (r_zero && s_inf) {
            return Self::nan();
        }
        if s_zero || r_zero {
            let sign = self.is_sign_negative() != rhs.is_sign_negative();
            return if sign { Self::neg_zero() } else { Self::zero() };
        }
        if s_inf || r_inf {
            let sign = self.is_sign_negative() != rhs.is_sign_negative();
            return if sign { Self::neg_infinity() } else { Self::infinity() };
        }
        let (sa, ea, ma) = self.decompose();
        let (sb, eb, mb) = rhs.decompose();
        let prod = U256::mul_u128(ma, mb);
        let msb: i32 = 255 - prod.leading_zeros() as i32;
        let shift: i32 = msb - 112;
        let norm = if shift > 0 { prod.shr(shift as u32) } else { prod.shl((-shift) as u32) };
        let mant = norm.low_u128() & 0x1_FFFF_FFFF_FFFF_FFFF_FFFF_FFFF_FFFFu128;
        let exp = ea + eb - 112 + shift;
        Self::compose(sa != sb, exp, mant)
    }

    /// Division (see [`div_spec`]).
    pub fn div_f128(self, rhs: Self) -> (r: Self)
        ensures
            r == div_spec(self, rhs),
    {
        if self.is_nan() || rhs.is_nan() {
            return Self::nan();
        }
        let s_zero = self.is_zero();
        let r_zero = rhs.is_zero();
        let s_inf = self.is_infinite();
        let r_inf = rhs.is_infinite();
        if (s_zero && r_zero) || (s_inf && r_inf) {
            return Self::nan();
        }
        if s_zero || r_inf {
            let sign = self.is_sign_negative() != rhs.is_sign_negative();
            return if sign { Self::neg_zero() } else { Self::zero() };
        }
        if r_zero || s_inf {
            let sign = self.is_sign_negative() != rhs.is_sign_negative();
            return if sign { Self::neg_infinity() } else { Self::infinity() };
        }
        let (sa, ea, ma) = self.decompose();
        let (sb, eb, mb) = rhs.decompose();
        let n0 = U256::from_u128(ma).shl(112);
        let mut n = n0;
        let d = U256::from_u128(mb);
        let mut q: u128 = 0;
        let mut i: u32 = 113;
        while i > 0
            invariant
                i <= 113,
                div_loop(n, d, q, i - 1) == div_loop(n0, d, 0, 112),
            decreases i,
        {
            i = i - 1;
            let ds = d.shl(i);
            if n.ge(&ds) {
                n = n.sub(ds);
                q = q | (1u128 << i);
            }
        }
        Self::compose(sa != sb, ea - eb, q)
    }

    /// Remainder (see [`rem_spec`]).
    pub fn rem_f128(self, rhs: Self) -> (r: Self)
        ensures
            r == rem_spec(self, rhs),
    {
        if self.is_nan() || rhs.is_nan() {
            return Self::nan();
        }
        if self.is_infinite() || rhs.is_zero() {
            return Self::nan();
        }
        if rhs.is_infinite() || self.is_zero() {
            return self;
        }
        let div = self.div_f128(rhs);
        let t = div.trunc();
        self.sub_f128(rhs.mul_f128(t))
    }
}

impl core::ops::Neg for F128 {
    type Output = F128;

    fn neg(self) -> F128 {
        self.neg_f128()
    }
}

impl vstd::std_specs::ops::NegSpecImpl for F128 {
    open spec fn obeys_neg_spec() -> bool {
        true
    }

    open spec fn neg_req(self) -> bool {
        true
    }

    open spec fn neg_spec(self) -> F128 {
        self::neg_spec(self)
    }
}

impl core::ops::Add for F128 {
    type Output = F128;

    fn add(self, rhs: F128) -> F128 {
        self.add_f128(rhs)
    }
}

impl vstd::std_specs::ops::AddSpecImpl for F128 {
    open spec fn obeys_add_spec() -> bool {
        true
    }

    open spec fn add_req(self, rhs: F128) -> bool {
        true
    }

    open spec fn add_spec(self, rhs: F128) -> F128 {
        self::add_spec(self, rhs)
    }
}

impl core::ops::Sub for F128 {
    type Output = F128;

    fn sub(self, rhs: F128) -> F128 {
        self.sub_f128(rhs)
    }
}

impl vstd::std_specs::ops::SubSpecImpl for F128 {
    open spec fn obeys_sub_spec() -> bool {
        true
    }

    open spec fn sub_req(self, rhs: F128) -> bool {
        true
    }

    open spec fn sub_spec(self, rhs: F128) -> F128 {
        self::add_spec(self, neg_spec(rhs))
    }
}

impl core::ops::Mul for F128 {
    type Output = F128;

    fn mul(self, rhs: F128) -> F128 {
        self.mul_f128(rhs)
    }
}

impl vstd::std_specs::ops::MulSpecImpl for F128 {
    open spec fn obeys_mul_spec() -> bool {
        true
    }

    open spec fn mul_req(self, rhs: F128) -> bool {
        true
    }

    open spec fn mul_spec(self, rhs: F128) -> F128 {
        self::mul_spec(self, rhs)
    }
}

impl core::ops::Div for F128 {
    type Output = F128;

    fn div(self, rhs: F128) -> F128 {
        self.div_f128(rhs)
    }
}

impl vstd::std_specs::ops::DivSpecImpl for F128 {
    open spec fn obeys_div_spec() -> bool {
        true
    }

    open spec fn div_req(self, rhs: F128) -> bool {
        true
    }

    open spec fn div_spec(self, rhs: F128) -> F128 {
        self::div_spec(self, rhs)
    }
}

impl core::ops::Rem for F128 {
    type Output = F128;

    fn rem(self, rhs: F128) -> F128 {
        self.rem_f128(rhs)
    }
}

impl vstd::std_specs::ops::RemSpecImpl for F128 {
    open spec fn obeys_rem_spec() -> bool {
        true
    }

    open spec fn rem_req(self, rhs: F128) -> bool {
        true
    }

    open spec fn rem_spec(self, rhs: F128) -> F128 {
        self::rem_spec(self, rhs)
    }
}

} // verus!
