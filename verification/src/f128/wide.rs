//! A 256-bit unsigned integer as four 64-bit limbs (least significant
//! first), for the products and quotients of mantissas.

use vstd::prelude::*;
use vstd::std_specs::bits::{u64_leading_zeros, axiom_u64_leading_zeros};

verus! {

#[derive(Clone, Copy, Debug, PartialEq, Eq, Structural)]
pub struct U256 {
    pub d0: u64,
    pub d1: u64,
    pub d2: u64,
    pub d3: u64,
}

/// The limb at index `i` (zero outside `0..4`).
pub open spec fn limb(x: U256, i: int) -> u64 {
    if i == 0 { x.d0 } else if i == 1 { x.d1 } else if i == 2 { x.d2 } else if i == 3 { x.d3 } else { 0 }
}

pub open spec fn is_zero_spec(x: U256) -> bool {
    x.d0 == 0 && x.d1 == 0 && x.d2 == 0 && x.d3 == 0
}

pub open spec fn zero_spec() -> U256 {
    U256 { d0: 0, d1: 0, d2: 0, d3: 0 }
}

pub open spec fn from_u128_spec(x: u128) -> U256 {
    U256 { d0: x as u64, d1: (x >> 64u32) as u64, d2: 0, d3: 0 }
}

/// Limb `dest` of `x` shifted right by `ls` limbs and `bs` bits.
pub open spec fn shr_limb(x: U256, ls: int, bs: u64, dest: int) -> u64 {
    let src = dest + ls;
    if src < 4 {
        if bs == 0 {
            limb(x, src)
        } else {
            (limb(x, src) >> bs) | (if src + 1 < 4 { limb(x, src + 1) << ((64 - bs) as u64) } else { 0u64 })
        }
    } else {
        0
    }
}

/// `x >> shift`, limb by limb.
pub open spec fn shr_spec(x: U256, shift: u32) -> U256 {
    if shift == 0 || is_zero_spec(x) {
        x
    } else if shift >= 256 {
        zero_spec()
    } else {
        let ls = (shift / 64) as int;
        let bs = (shift % 64) as u64;
        U256 { d0: shr_limb(x, ls, bs, 0), d1: shr_limb(x, ls, bs, 1), d2: shr_limb(x, ls, bs, 2), d3: shr_limb(x, ls, bs, 3) }
    }
}

/// Limb `j` of `x` shifted left by `ls` limbs and `bs` bits.
pub open spec fn shl_limb(x: U256, ls: int, bs: u64, j: int) -> u64 {
    (if j >= ls { limb(x, j - ls) << bs } else { 0u64 })
        | (if bs > 0 && j >= ls + 1 { limb(x, j - ls - 1) >> ((64 - bs) as u64) } else { 0u64 })
}

/// `x << shift` (bits past 256 are lost), limb by limb.
pub open spec fn shl_spec(x: U256, shift: u32) -> U256 {
    if shift == 0 || is_zero_spec(x) {
        x
    } else if shift >= 256 {
        zero_spec()
    } else {
        let ls = (shift / 64) as int;
        let bs = (shift % 64) as u64;
        U256 { d0: shl_limb(x, ls, bs, 0), d1: shl_limb(x, ls, bs, 1), d2: shl_limb(x, ls, bs, 2), d3: shl_limb(x, ls, bs, 3) }
    }
}

/// Wrapping subtraction of one limb.
pub open spec fn wsub(a: u64, b: u64) -> u64 {
    if a >= b { (a - b) as u64 } else { (a + 0x1_0000_0000_0000_0000 - b) as u64 }
}

/// One limb of a subtraction with borrow: the difference and the borrow out.
pub open spec fn sub_step(a: u64, b: u64, borrow: bool) -> (u64, bool) {
    let diff = wsub(a, b);
    let res = wsub(diff, if borrow { 1u64 } else { 0u64 });
    (res, a < b || (borrow && diff == 0))
}

/// `x - y`, limb by limb with borrows (wrapping).
pub open spec fn sub_spec(x: U256, y: U256) -> U256 {
    let (r0, b0) = sub_step(x.d0, y.d0, false);
    let (r1, b1) = sub_step(x.d1, y.d1, b0);
    let (r2, b2) = sub_step(x.d2, y.d2, b1);
    let (r3, _b3) = sub_step(x.d3, y.d3, b2);
    U256 { d0: r0, d1: r1, d2: r2, d3: r3 }
}

/// Whether `x >= y`, comparing limbs from the most significant.
pub open spec fn ge_spec(x: U256, y: U256) -> bool {
    if x.d3 != y.d3 {
        x.d3 > y.d3
    } else if x.d2 != y.d2 {
        x.d2 > y.d2
    } else if x.d1 != y.d1 {
        x.d1 > y.d1
    } else {
        x.d0 >= y.d0
    }
}

/// The number of leading zero bits (256 for zero).
pub open spec fn lz_spec(x: U256) -> int {
    if x.d3 != 0 {
        u64_leading_zeros(x.d3)
    } else if x.d2 != 0 {
        u64_leading_zeros(x.d2) + 64
    } else if x.d1 != 0 {
        u64_leading_zeros(x.d1) + 128
    } else if x.d0 != 0 {
        u64_leading_zeros(x.d0) + 192
    } else {
        256
    }
}

pub open spec fn low_u128_spec(x: U256) -> u128 {
    ((x.d1 as u128) << 64u32) | (x.d0 as u128)
}

/// The product of two 128-bit values as four limbs, from the products of
/// their 64-bit halves.
pub open spec fn mul_u128_spec(a: u128, b: u128) -> U256 {
    let mask = 0xFFFF_FFFF_FFFF_FFFFu128;
    let a_lo = a & mask;
    let a_hi = a >> 64u32;
    let b_lo = b & mask;
    let b_hi = b >> 64u32;
    let p0 = (a_lo * b_lo) as u128;
    let p1 = (a_lo * b_hi) as u128;
    let p2 = (a_hi * b_lo) as u128;
    let p3 = (a_hi * b_hi) as u128;
    let r0 = p0 & mask;
    let t1 = ((p0 >> 64u32) + (p1 & mask) + (p2 & mask)) as u128;
    let r1 = t1 & mask;
    let t2 = ((p1 >> 64u32) + (p2 >> 64u32) + (p3 & mask) + (t1 >> 64u32)) as u128;
    let r2 = t2 & mask;
    let r3 = ((p3 >> 64u32) + (t2 >> 64u32)) as u128;
    U256 { d0: r0 as u64, d1: r1 as u64, d2: r2 as u64, d3: r3 as u64 }
}

proof fn lemma_half_bounds(x: u128)
    ensures
        x & 0xFFFF_FFFF_FFFF_FFFFu128 <= 0xFFFF_FFFF_FFFF_FFFFu128,
        x >> 64u32 <= 0xFFFF_FFFF_FFFF_FFFFu128,
{
    assert(x & 0xFFFF_FFFF_FFFF_FFFFu128 <= 0xFFFF_FFFF_FFFF_FFFFu128) by (bit_vector);
    assert(x >> 64u32 <= 0xFFFF_FFFF_FFFF_FFFFu128) by (bit_vector);
}

impl U256 {
    pub fn zero() -> (r: Self)
        ensures
            r == zero_spec(),
    {
        U256 { d0: 0, d1: 0, d2: 0, d3: 0 }
    }

    pub fn from_u128(x: u128) -> (r: Self)
        ensures
            r == from_u128_spec(x),
    {
        U256 { d0: x as u64, d1: (x >> 64u32) as u64, d2: 0, d3: 0 }
    }

    fn get(&self, i: usize) -> (r: u64)
        ensures
            r == limb(*self, i as int),
    {
        if i == 0 { self.d0 } else if i == 1 { self.d1 } else if i == 2 { self.d2 } else if i == 3 { self.d3 } else { 0 }
    }

    pub fn is_zero(&self) -> (r: bool)
        ensures
            r == is_zero_spec(*self),
    {
        self.d0 == 0 && self.d1 == 0 && self.d2 == 0 && self.d3 == 0
    }

    /// The product of two 128-bit values.
    pub fn mul_u128(a: u128, b: u128) -> (r: Self)
        ensures
            r == mul_u128_spec(a, b),
    {
        let mask = 0xFFFF_FFFF_FFFF_FFFFu128;
        let a_lo = a & mask;
        let a_hi = a >> 64u32;
        let b_lo = b & mask;
        let b_hi = b >> 64u32;
        proof {
            lemma_half_bounds(a);
            lemma_half_bounds(b);
            assert(a_lo * b_lo <= 0xFFFF_FFFF_FFFF_FFFEu128 * 0x1_0000_0000_0000_0000u128 + 1) by (nonlinear_arith)
                requires a_lo <= 0xFFFF_FFFF_FFFF_FFFFu128, b_lo <= 0xFFFF_FFFF_FFFF_FFFFu128;
            assert(a_lo * b_hi <= 0xFFFF_FFFF_FFFF_FFFEu128 * 0x1_0000_0000_0000_0000u128 + 1) by (nonlinear_arith)
                requires a_lo <= 0xFFFF_FFFF_FFFF_FFFFu128, b_hi <= 0xFFFF_FFFF_FFFF_FFFFu128;
            assert(a_hi * b_lo <= 0xFFFF_FFFF_FFFF_FFFEu128 * 0x1_0000_0000_0000_0000u128 + 1) by (nonlinear_arith)
                requires a_hi <= 0xFFFF_FFFF_FFFF_FFFFu128, b_lo <= 0xFFFF_FFFF_FFFF_FFFFu128;
            assert(a_hi * b_hi <= 0xFFFF_FFFF_FFFF_FFFEu128 * 0x1_0000_0000_0000_0000u128 + 1) by (nonlinear_arith)
                requires a_hi <= 0xFFFF_FFFF_FFFF_FFFFu128, b_hi <= 0xFFFF_FFFF_FFFF_FFFFu128;
        }
        let p0 = a_lo * b_lo;
        let p1 = a_lo * b_hi;
        let p2 = a_hi * b_lo;
        let p3 = a_hi * b_hi;
        proof {
            lemma_half_bounds(p0);
            lemma_half_bounds(p1);
            lemma_half_bounds(p2);
            lemma_half_bounds(p3);
        }
        let r0 = p0 & mask;
        let t1 = (p0 >> 64u32) + (p1 & mask) + (p2 & mask);
        proof {
            lemma_half_bounds(t1);
        }
        let r1 = t1 & mask;
        let t2 = (p1 >> 64u32) + (p2 >> 64u32) + (p3 & mask) + (t1 >> 64u32);
        proof {
            lemma_half_bounds(t2);
        }
        let r2 = t2 & mask;
        let r3 = (p3 >> 64u32) + (t2 >> 64u32);
        U256 { d0: r0 as u64, d1: r1 as u64, d2: r2 as u64, d3: r3 as u64 }
    }

    fn shr_limb_exec(&self, ls: usize, bs: u64, dest: usize) -> (r: u64)
        requires
            ls < 4,
            bs < 64,
            dest < 4,
        ensures
            r == shr_limb(*self, ls as int, bs, dest as int),
    {
        let src = dest + ls;
        if src < 4 {
            if bs == 0 {
                self.get(src)
            } else {
                (self.get(src) >> bs) | (if src + 1 < 4 { self.get(src + 1) << (64 - bs) } else { 0 })
            }
        } else {
            0
        }
    }

    /// Shift right.
    pub fn shr(&self, shift: u32) -> (r: Self)
        ensures
            r == shr_spec(*self, shift),
    {
        if shift == 0 || self.is_zero() {
            return *self;
        }
        if shift >= 256 {
            return U256::zero();
        }
        let ls = (shift / 64) as usize;
        let bs = (shift % 64) as u64;
        U256 {
            d0: self.shr_limb_exec(ls, bs, 0),
            d1: self.shr_limb_exec(ls, bs, 1),
            d2: self.shr_limb_exec(ls, bs, 2),
            d3: self.shr_limb_exec(ls, bs, 3),
        }
    }

    fn shl_limb_exec(&self, ls: usize, bs: u64, j: usize) -> (r: u64)
        requires
            ls < 4,
            bs < 64,
            j < 4,
        ensures
            r == shl_limb(*self, ls as int, bs, j as int),
    {
        let a = if j >= ls { self.get(j - ls) << bs } else { 0 };
        let b = if bs > 0 && j >= ls + 1 { self.get(j - ls - 1) >> (64 - bs) } else { 0 };
        a | b
    }

    /// Shift left (bits past 256 are lost).
    pub fn shl(self, shift: u32) -> (r: Self)
        ensures
            r == shl_spec(self, shift),
    {
        if shift == 0 || self.is_zero() {
            return self;
        }
        if shift >= 256 {
            return U256::zero();
        }
        let ls = (shift / 64) as usize;
        let bs = (shift % 64) as u64;
        U256 {
            d0: self.shl_limb_exec(ls, bs, 0),
            d1: self.shl_limb_exec(ls, bs, 1),
            d2: self.shl_limb_exec(ls, bs, 2),
            d3: self.shl_limb_exec(ls, bs, 3),
        }
    }

    fn sub_step_exec(a: u64, b: u64, borrow: bool) -> (r: (u64, bool))
        ensures
            r == sub_step(a, b, borrow),
    {
        let diff = if a >= b { a - b } else { ((a as u128 + 0x1_0000_0000_0000_0000u128) - b as u128) as u64 };
        let bi: u64 = if borrow { 1 } else { 0 };
        let res = if diff >= bi { diff - bi } else { ((diff as u128 + 0x1_0000_0000_0000_0000u128) - bi as u128) as u64 };
        (res, a < b || (borrow && diff == 0))
    }

    /// Subtraction, limb by limb with borrows.
    pub fn sub(self, other: Self) -> (r: Self)
        ensures
            r == sub_spec(self, other),
    {
        let (r0, b0) = Self::sub_step_exec(self.d0, other.d0, false);
        let (r1, b1) = Self::sub_step_exec(self.d1, other.d1, b0);
        let (r2, b2) = Self::sub_step_exec(self.d2, other.d2, b1);
        let (r3, _b3) = Self::sub_step_exec(self.d3, other.d3, b2);
        U256 { d0: r0, d1: r1, d2: r2, d3: r3 }
    }

    /// Whether `self >= other`.
    pub fn ge(&self, other: &Self) -> (r: bool)
        ensures
            r == ge_spec(*self, *other),
    {
        if self.d3 != other.d3 {
            self.d3 > other.d3
        } else if self.d2 != other.d2 {
            self.d2 > other.d2
        } else if self.d1 != other.d1 {
            self.d1 > other.d1
        } else {
            self.d0 >= other.d0
        }
    }

    /// The number of leading zero bits.
    pub fn leading_zeros(&self) -> (r: u32)
        ensures
            r == lz_spec(*self),
            r <= 256,
            (r == 256) == is_zero_spec(*self),
    {
        proof {
            axiom_u64_leading_zeros(self.d0);
            axiom_u64_leading_zeros(self.d1);
            axiom_u64_leading_zeros(self.d2);
            axiom_u64_leading_zeros(self.d3);
        }
        if self.d3 != 0 {
            self.d3.leading_zeros()
        } else if self.d2 != 0 {
            self.d2.leading_zeros() + 64
        } else if self.d1 != 0 {
            self.d1.leading_zeros() + 128
        } else if self.d0 != 0 {
            self.d0.leading_zeros() + 192
        } else {
            256
        }
    }

    /// The low 128 bits.
    pub fn low_u128(&self) -> (r: u128)
        ensures
            r == low_u128_spec(*self),
    {
        ((self.d1 as u128) << 64u32) | (self.d0 as u128)
    }
}

/// A 512-bit unsigned integer as eight 64-bit limbs (least significant first).
#[derive(Clone, Copy, Debug)]
pub struct U512 {
    pub e0: u64,
    pub e1: u64,
    pub e2: u64,
    pub e3: u64,
    pub e4: u64,
    pub e5: u64,
    pub e6: u64,
    pub e7: u64,
}

/// The limb at index `i` (zero outside `0..8`).
pub open spec fn limb512(x: U512, i: int) -> u64 {
    if i == 0 { x.e0 } else if i == 1 { x.e1 } else if i == 2 { x.e2 } else if i == 3 { x.e3 }
    else if i == 4 { x.e4 } else if i == 5 { x.e5 } else if i == 6 { x.e6 } else if i == 7 { x.e7 } else { 0 }
}

/// One step of long multiplication: `a * b + acc + carry` as its low limb
/// and the carry.
pub open spec fn mac(a: u64, b: u64, acc: u64, carry: u64) -> (u64, u64) {
    let p = ((a as u128) * (b as u128) + (acc as u128) + (carry as u128)) as u128;
    (p as u64, (p >> 64u32) as u64)
}

/// The product of a 128-bit and a 256-bit value: the 256-bit value times
/// the low half, then times the high half one limb further up.
pub open spec fn mul_u128_u256_spec(a: u128, b: U256) -> U512 {
    let lo = a as u64;
    let hi = (a >> 64u32) as u64;
    let (r0, c0) = mac(lo, b.d0, 0, 0);
    let (r1, c1) = mac(lo, b.d1, 0, c0);
    let (r2, c2) = mac(lo, b.d2, 0, c1);
    let (r3, c3) = mac(lo, b.d3, 0, c2);
    let (s1, k0) = mac(hi, b.d0, r1, 0);
    let (s2, k1) = mac(hi, b.d1, r2, k0);
    let (s3, k2) = mac(hi, b.d2, r3, k1);
    let (s4, k3) = mac(hi, b.d3, c3, k2);
    U512 { e0: r0, e1: s1, e2: s2, e3: s3, e4: s4, e5: k3, e6: 0, e7: 0 }
}

/// Limb `dest` of `x` shifted right by `ls` limbs and `bs` bits.
pub open spec fn shr512_limb(x: U512, ls: int, bs: u64, dest: int) -> u64 {
    let src = dest + ls;
    if src < 8 {
        if bs == 0 {
            limb512(x, src)
        } else {
            (limb512(x, src) >> bs) | (if src + 1 < 8 { limb512(x, src + 1) << ((64 - bs) as u64) } else { 0u64 })
        }
    } else {
        0
    }
}

/// The low 256 bits of `x >> shift`.
pub open spec fn shr512_spec(x: U512, shift: u32) -> U256 {
    if shift >= 512 {
        zero_spec()
    } else {
        let ls = (shift / 64) as int;
        let bs = (shift % 64) as u64;
        U256 {
            d0: shr512_limb(x, ls, bs, 0),
            d1: shr512_limb(x, ls, bs, 1),
            d2: shr512_limb(x, ls, bs, 2),
            d3: shr512_limb(x, ls, bs, 3),
        }
    }
}

/// One step of long multiplication (see [`mac`]).
fn mac_exec(a: u64, b: u64, acc: u64, carry: u64) -> (r: (u64, u64))
    ensures
        r == mac(a, b, acc, carry),
{
    proof {
        assert((a as u128) * (b as u128) <= 0xFFFF_FFFF_FFFF_FFFE_0000_0000_0000_0001u128) by (nonlinear_arith)
            requires a <= 0xFFFF_FFFF_FFFF_FFFFu64, b <= 0xFFFF_FFFF_FFFF_FFFFu64;
    }
    let p = (a as u128) * (b as u128) + (acc as u128) + (carry as u128);
    (p as u64, (p >> 64u32) as u64)
}

impl U512 {
    /// The product of a 128-bit and a 256-bit value (see [`mul_u128_u256_spec`]).
    pub fn mul_u128_u256(a: u128, b: U256) -> (r: U512)
        ensures
            r == mul_u128_u256_spec(a, b),
    {
        let lo = a as u64;
        let hi = (a >> 64u32) as u64;
        let (r0, c0) = mac_exec(lo, b.d0, 0, 0);
        let (r1, c1) = mac_exec(lo, b.d1, 0, c0);
        let (r2, c2) = mac_exec(lo, b.d2, 0, c1);
        let (r3, c3) = mac_exec(lo, b.d3, 0, c2);
        let (s1, k0) = mac_exec(hi, b.d0, r1, 0);
        let (s2, k1) = mac_exec(hi, b.d1, r2, k0);
        let (s3, k2) = mac_exec(hi, b.d2, r3, k1);
        let (s4, k3) = mac_exec(hi, b.d3, c3, k2);
        U512 { e0: r0, e1: s1, e2: s2, e3: s3, e4: s4, e5: k3, e6: 0, e7: 0 }
    }

    fn limb(&self, i: usize) -> (r: u64)
        ensures
            r == limb512(*self, i as int),
    {
        if i == 0 { self.e0 } else if i == 1 { self.e1 } else if i == 2 { self.e2 } else if i == 3 { self.e3 }
        else if i == 4 { self.e4 } else if i == 5 { self.e5 } else if i == 6 { self.e6 } else if i == 7 { self.e7 } else { 0 }
    }

    fn shr_limb_exec(&self, ls: usize, bs: u64, dest: usize) -> (r: u64)
        requires
            ls < 8,
            bs < 64,
            dest < 4,
        ensures
            r == shr512_limb(*self, ls as int, bs, dest as int),
    {
        let src = dest + ls;
        if src < 8 {
            if bs == 0 {
                self.limb(src)
            } else {
                (self.limb(src) >> bs) | (if src + 1 < 8 { self.limb(src + 1) << (64 - bs) } else { 0u64 })
            }
        } else {
            0
        }
    }

    /// The low 256 bits of `self >> shift` (see [`shr512_spec`]).
    pub fn shr(&self, shift: u32) -> (r: U256)
        ensures
            r == shr512_spec(*self, shift),
    {
        if shift >= 512 {
            return U256::zero();
        }
        let ls = (shift / 64) as usize;
        let bs = (shift % 64) as u64;
        U256 {
            d0: self.shr_limb_exec(ls, bs, 0),
            d1: self.shr_limb_exec(ls, bs, 1),
            d2: self.shr_limb_exec(ls, bs, 2),
            d3: self.shr_limb_exec(ls, bs, 3),
        }
    }
}

} // verus!
