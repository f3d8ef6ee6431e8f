//! Laws that the arithmetic of [`F128`] keeps.

use vstd::prelude::*;
use super::F128;
use super::arith::{add_spec, div_spec, mul_spec, neg_spec, nan_spec, rem_spec};
use super::bits::{
    signed_inf, signed_zero, compose_spec, raw_number, lz128, lemma_lz128, lemma_lz_of_small, lemma_decompose_zero,
    lemma_zero_finite, lemma_infinity_unique,
};
use super::wide::mul_u128_spec;
use super::round::trunc_spec;
use super::cmp::num_eq;

verus! {

/// Negating twice gives the number back.
pub proof fn lemma_neg_involutive(x: F128)
    ensures
        neg_spec(neg_spec(x)) == x,
{
    let h = x.high;
    assert((h ^ 0x8000_0000_0000_0000u64) ^ 0x8000_0000_0000_0000u64 == h) by (bit_vector);
    if !x.is_nan_spec() {
        let yh = h ^ 0x8000_0000_0000_0000u64;
        assert(((yh & 0x7FFF_0000_0000_0000u64) >> 48u64) == ((h & 0x7FFF_0000_0000_0000u64) >> 48u64)
            && (yh & 0x0000_FFFF_FFFF_FFFFu64) == (h & 0x0000_FFFF_FFFF_FFFFu64)) by (bit_vector)
            requires yh == h ^ 0x8000_0000_0000_0000u64;
    }
}

/// Addition is commutative: the operands may be swapped, bit for bit, and
/// two zeros add to `-0` only when both are `-0`.
pub proof fn lemma_add_commutative(a: F128, b: F128)
    ensures
        add_spec(a, b) == add_spec(b, a),
        a.is_zero_spec() && b.is_zero_spec() ==> add_spec(a, b) == (if a.sign_spec() && b.sign_spec() { a } else { F128::bits(0, 0) }),
{
    if a.is_zero_spec() {
        lemma_zero_finite(a);
    }
    if b.is_zero_spec() {
        lemma_zero_finite(b);
    }
    if a.is_infinite_spec() && b.is_infinite_spec() && a.sign_spec() == b.sign_spec() {
        lemma_infinity_unique(a, b);
    }
    if a.is_finite_spec() && b.is_finite_spec() {
        lemma_decompose_zero(a);
        lemma_decompose_zero(b);
        let ma = a.decompose_spec().2;
        let mb = b.decompose_spec().2;
        assert(ma >> 0u32 == ma) by (bit_vector);
        assert(mb >> 0u32 == mb) by (bit_vector);
        if a.is_zero_spec() && b.is_zero_spec() && a.sign_spec() && b.sign_spec() {
            lemma_neg_zero_unique(a, b);
        }
    }
}

/// A zero is fixed by its sign: two zeros with the sign bit set are the same bits.
proof fn lemma_neg_zero_unique(a: F128, b: F128)
    requires
        a.is_zero_spec(),
        b.is_zero_spec(),
        a.sign_spec(),
        b.sign_spec(),
    ensures
        a == b,
{
    let (ah, al, bh, bl) = (a.high, a.low, b.high, b.low);
    assert(ah == bh) by (bit_vector)
        requires
            (ah & 0x7FFF_FFFF_FFFF_FFFFu64) == 0,
            (bh & 0x7FFF_FFFF_FFFF_FFFFu64) == 0,
            ah & 0x8000_0000_0000_0000u64 != 0,
            bh & 0x8000_0000_0000_0000u64 != 0;
}

/// The product of two 128-bit values does not depend on their order.
proof fn lemma_mul_u128_commutative(a: u128, b: u128)
    ensures
        mul_u128_spec(a, b) == mul_u128_spec(b, a),
{
    let mask = 0xFFFF_FFFF_FFFF_FFFFu128;
    let a_lo = a & mask;
    let a_hi = a >> 64u32;
    let b_lo = b & mask;
    let b_hi = b >> 64u32;
    assert(a_lo * b_lo == b_lo * a_lo) by (nonlinear_arith);
    assert(a_lo * b_hi == b_hi * a_lo) by (nonlinear_arith);
    assert(a_hi * b_lo == b_lo * a_hi) by (nonlinear_arith);
    assert(a_hi * b_hi == b_hi * a_hi) by (nonlinear_arith);
}

/// Multiplication is commutative.
pub proof fn lemma_mul_commutative(a: F128, b: F128)
    ensures
        mul_spec(a, b) == mul_spec(b, a),
{
    let (sa, ea, ma) = a.decompose_spec();
    let (sb, eb, mb) = b.decompose_spec();
    lemma_mul_u128_commutative(ma, mb);
}

/// NaN in, NaN out: an operation with a NaN operand gives the canonical NaN.
pub proof fn lemma_nan_propagates(a: F128, b: F128)
    requires
        a.is_nan_spec() || b.is_nan_spec(),
    ensures
        add_spec(a, b) == nan_spec(),
        mul_spec(a, b) == nan_spec(),
{
}

/// Infinities of opposite signs add to NaN; of one sign, to that infinity.
pub proof fn lemma_add_infinities(a: F128, b: F128)
    requires
        a.is_infinite_spec(),
        b.is_infinite_spec(),
    ensures
        a.sign_spec() != b.sign_spec() ==> add_spec(a, b) == nan_spec(),
        a.sign_spec() == b.sign_spec() ==> add_spec(a, b) == a,
{
}

} // verus!

verus! {

/// Making a number from bits and reading its bits back gives the same
/// bits: no bit pattern is normalized (NaN payloads, signed zeros and
/// subnormals are kept).
pub proof fn lemma_bits_roundtrip(high: u64, low: u64)
    ensures
        (F128::bits(high, low).high, F128::bits(high, low).low) == (high, low),
{
}

/// A number is finite exactly when it is neither NaN nor infinite, which is
/// when its raw exponent is not all ones.
pub proof fn lemma_finite_classification(x: F128)
    ensures
        x.is_finite_spec() == (!x.is_nan_spec() && !x.is_infinite_spec()),
        x.is_finite_spec() == (x.exp_spec() != 0x7FFF),
{
}

/// The bit facts behind composing a decomposed number: `r1` stands for the
/// leading zeros of a normal number's mantissa, `lz` for those of a
/// subnormal's fraction and `r2` for those of its shifted fraction.
proof fn lemma_compose_decompose_bits(h: u64, l: u64, r1: u32, lz: u32, r2: u32)
    by (bit_vector)
    ensures
        ({
            let fh = h & 0x0000_FFFF_FFFF_FFFFu64;
            let frac = ((fh as u128) << 64u32) | (l as u128);
            let e = (h & 0x7FFF_0000_0000_0000u64) >> 48u64;
            let m = (1u128 << 112u32) | frac;
            let sub = frac << ((lz - 16u32) as u32);
            &&& e <= 0x7FFF
            &&& (h & 0x7FFF_FFFF_FFFF_FFFFu64) == e * 0x1_0000_0000_0000u64 + fh
            &&& frac == (fh as u128) * 0x1_0000_0000_0000_0000u128 + (l as u128)
            &&& 0x8000_0000_0000_0000u64 & 0x8000_0000_0000_0000u64 != 0
            &&& 0u64 & 0x8000_0000_0000_0000u64 == 0
            &&& (h & 0x8000_0000_0000_0000u64 == 0 || h & 0x8000_0000_0000_0000u64 == 0x8000_0000_0000_0000u64)
            &&& (h & 0x7FFF_FFFF_FFFF_FFFFu64 == 0) ==> h == h & 0x8000_0000_0000_0000u64
            &&& (r1 <= 128 && (r1 > 0 ==> m >> ((128u32 - r1) as u32) == 0)
                && (r1 < 128 ==> (m >> ((127u32 - r1) as u32)) & 1 == 1)) ==> r1 == 15
            &&& ((h & 0x8000_0000_0000_0000u64) | (e << 48u64)
                | ((((m & 0xFFFF_FFFF_FFFF_FFFF_FFFF_FFFF_FFFFu128) >> 64u32) as u64) & 0x0000_FFFF_FFFF_FFFFu64)) == h
            &&& ((m & 0xFFFF_FFFF_FFFF_FFFF_FFFF_FFFF_FFFFu128) as u64) == l
            &&& (frac as u64) == l
            &&& e == 0 ==> ((h & 0x8000_0000_0000_0000u64) | (0u64 << 48u64)
                | (((frac >> 64u32) as u64) & 0x0000_FFFF_FFFF_FFFFu64)) == h
            &&& frac < (1u128 << 112u32)
            &&& (1u128 << 112u32) == 0x1_0000_0000_0000_0000_0000_0000_0000u128
            &&& (frac != 0 && 16 <= lz < 128 && frac >> ((128u32 - lz) as u32) == 0
                && r2 <= 128 && (r2 > 0 ==> sub >> ((128u32 - r2) as u32) == 0)
                && (r2 < 128 ==> (sub >> ((127u32 - r2) as u32)) & 1 == 1)
                && (frac >> ((127u32 - lz) as u32)) & 1 == 1) ==> (r2 == 16
                && (sub << 1u32) >> ((lz - 15u32) as u32) == frac)
        }),
{
}

/// Composing the parts that `decompose` gives back yields the same bits,
/// for every finite number: zeros, subnormals and normal numbers.
pub proof fn lemma_compose_decompose(x: F128)
    requires
        x.is_finite_spec(),
    ensures
        ({
            let (s, e, m) = x.decompose_spec();
            compose_spec(s, e, m) == x
        }),
{
    let h = x.high;
    let l = x.low;
    let frac = x.frac_spec();
    let (s, e, m) = x.decompose_spec();
    lemma_decompose_zero(x);
    let m_normal = (1u128 << 112u32) | frac;
    lemma_lz128(m_normal);
    lemma_lz128(frac);
    let lz = lz128(frac);
    let sub = frac << ((lz - 16) as u32);
    lemma_lz128(sub);
    let r1 = lz128(m_normal) as u32;
    let r2 = lz128(sub) as u32;
    lemma_compose_decompose_bits(h, l, r1, lz as u32, r2);
    if x.is_zero_spec() {
        assert(compose_spec(s, e, m) == signed_zero(s));
        assert(signed_zero(s) == x);
    } else if x.exp_spec() == 0 {
        lemma_lz_of_small(frac);
        assert(r2 == 16);
        assert(e == -16382 - (lz - 16));
        assert(compose_spec(s, e, m) == raw_number(s, 0, (sub << 1u32) >> ((lz - 15) as u32)));
        assert(raw_number(s, 0, frac) == x);
    } else {
        assert(r1 == 15);
        assert(compose_spec(s, e, m) == raw_number(s, x.exp_spec(), m_normal & 0xFFFF_FFFF_FFFF_FFFF_FFFF_FFFF_FFFFu128));
        assert(raw_number(s, x.exp_spec(), m_normal & 0xFFFF_FFFF_FFFF_FFFF_FFFF_FFFF_FFFFu128) == x);
    }
}

/// The bit facts behind truncating a normal number whose low `shift`
/// mantissa bits lie below the binary point: the number `y` with those bits
/// cleared keeps the sign and exponent, its mantissa is the cleared one, and
/// it is the number itself exactly when those bits were zero.
proof fn lemma_trunc_bits(h: u64, l: u64, shift: u32, fw: u128)
    by (bit_vector)
    requires
        1 <= shift <= 112,
    ensures
        ({
            let fh = h & 0x0000_FFFF_FFFF_FFFFu64;
            let frac = ((fh as u128) << 64u32) | (l as u128);
            let mant = (1u128 << 112u32) | frac;
            let mask = ((1u128 << shift) - 1) as u128;
            let m2 = mant & !mask;
            let g = m2 & 0xFFFF_FFFF_FFFF_FFFF_FFFF_FFFF_FFFFu128;
            let yh = (h & 0x8000_0000_0000_0000u64) | (((h & 0x7FFF_0000_0000_0000u64) >> 48u64) << 48u64)
                | (((g >> 64u32) as u64) & 0x0000_FFFF_FFFF_FFFFu64);
            let yl = g as u64;
            &&& yh & 0x8000_0000_0000_0000u64 == h & 0x8000_0000_0000_0000u64
            &&& yh & 0x7FFF_0000_0000_0000u64 == h & 0x7FFF_0000_0000_0000u64
            &&& (((yh & 0x0000_FFFF_FFFF_FFFFu64) as u128) << 64u32) | (yl as u128) == g
            &&& (1u128 << 112u32) | g == m2
            &&& ((yh == h && yl == l) <==> (mant & mask == 0))
            &&& m2 != 0
            &&& m2 & mask == 0
            &&& g <= frac
            &&& (fw < (1u128 << 112u32) && fw <= frac && ((1u128 << 112u32) | fw) & mask == 0) ==> fw <= g
            &&& 0x8000_0000_0000_0000u64 & 0x7FFF_FFFF_FFFF_FFFFu64 == 0
            &&& 0u64 & 0x7FFF_FFFF_FFFF_FFFFu64 == 0
        }),
{
}

/// A number other than an infinity is whole exactly when truncating it
/// gives a number equal to it (`NaN` is neither). An infinity is left out:
/// it truncates to itself but is not counted as whole.
pub proof fn lemma_is_integer_iff_trunc_fixed(x: F128)
    requires
        !x.is_infinite_spec(),
    ensures
        x.is_integer_spec() == num_eq(trunc_spec(x), x),
{
    if x.is_finite_spec() && !x.is_zero_spec() {
        let h = x.high;
        let l = x.low;
        let (s, exp, mant) = x.decompose_spec();
        lemma_decompose_zero(x);
        lemma_compose_decompose_bits(h, l, 0, 16, 0);
        if x.exp_spec() == 0 {
            lemma_lz_of_small(x.frac_spec());
        }
        if exp < 0 {
            lemma_trunc_bits(h, l, 1, 0);
            assert(signed_zero(s).is_zero_spec());
        } else if exp < 112 {
            let shift = (112 - exp) as u32;
            lemma_trunc_bits(h, l, shift, 0);
            assert(x.exp_spec() != 0);
            let m2 = mant & !(((1u128 << shift) - 1) as u128);
            let g = m2 & 0xFFFF_FFFF_FFFF_FFFF_FFFF_FFFF_FFFFu128;
            let y = raw_number(s, x.exp_spec(), g);
            assert(y.exp_spec() == x.exp_spec());
            assert(y.sign_spec() == s);
            assert(y.frac_spec() == g);
            assert(y.decompose_spec() == (s, exp, m2));
            lemma_compose_decompose(y);
            assert(trunc_spec(x) == y);
            assert(!y.is_zero_spec()) by {
                lemma_decompose_zero(y);
            }
        }
    }
}

/// The magnitude bits of a number (all but the sign), as one integer: for
/// finite numbers this orders them by absolute value.
pub open spec fn magnitude(x: F128) -> int {
    (x.high & 0x7FFF_FFFF_FFFF_FFFFu64) as int * 0x1_0000_0000_0000_0000 + x.low as int
}

/// The magnitude is the raw exponent above the 112 fraction bits.
proof fn lemma_magnitude_fields(x: F128)
    ensures
        magnitude(x) == x.exp_spec() as int * 0x1_0000_0000_0000_0000_0000_0000_0000 + x.frac_spec() as int,
        x.frac_spec() < 0x1_0000_0000_0000_0000_0000_0000_0000,
        x.exp_spec() <= 0x7FFF,
{
    lemma_compose_decompose_bits(x.high, x.low, 0, 16, 0);
}

/// A whole number other than zero has a raw exponent of at least 16383:
/// its absolute value is at least one.
proof fn lemma_whole_at_least_one(w: F128)
    requires
        w.is_integer_spec(),
        !w.is_zero_spec(),
    ensures
        w.exp_spec() >= 16383,
{
    if w.exp_spec() == 0 {
        lemma_lz128(w.frac_spec());
    }
}

/// Truncation keeps the sign and gives a whole number no larger in
/// magnitude, and the largest such: every whole number no larger in
/// magnitude than `q` is no larger than `trunc(q)`.
pub proof fn lemma_trunc_largest_whole_below(q: F128)
    requires
        q.is_finite_spec(),
    ensures
        trunc_spec(q).is_integer_spec(),
        trunc_spec(q).sign_spec() == q.sign_spec(),
        magnitude(trunc_spec(q)) <= magnitude(q),
        forall|w: F128| #[trigger] w.is_integer_spec() && magnitude(w) <= magnitude(q)
            ==> magnitude(w) <= magnitude(trunc_spec(q)),
{
    let h = q.high;
    let l = q.low;
    let (s, exp, mant) = q.decompose_spec();
    lemma_decompose_zero(q);
    lemma_compose_decompose_bits(h, l, 0, 16, 0);
    lemma_magnitude_fields(q);
    if q.is_zero_spec() {
    } else {
        if q.exp_spec() == 0 {
            lemma_lz_of_small(q.frac_spec());
        }
        if exp >= 112 {
        } else if exp < 0 {
            lemma_trunc_bits(h, l, 1, 0);
            let z = signed_zero(s);
            assert(z.is_zero_spec());
            lemma_zero_finite(z);
            assert(z.sign_spec() == s);
            assert(magnitude(z) == 0);
            assert forall|w: F128| #[trigger] w.is_integer_spec() && magnitude(w) <= magnitude(q)
                implies magnitude(w) <= magnitude(z) by {
                lemma_magnitude_fields(w);
                if !w.is_zero_spec() {
                    lemma_whole_at_least_one(w);
                }
            }
        } else {
            let shift = (112 - exp) as u32;
            lemma_trunc_bits(h, l, shift, 0);
            let m2 = mant & !(((1u128 << shift) - 1) as u128);
            let g = m2 & 0xFFFF_FFFF_FFFF_FFFF_FFFF_FFFF_FFFFu128;
            let y = raw_number(s, q.exp_spec(), g);
            assert(y.exp_spec() == q.exp_spec());
            assert(y.sign_spec() == s);
            assert(y.frac_spec() == g);
            assert(y.decompose_spec() == (s, exp, m2));
            lemma_compose_decompose(y);
            assert(trunc_spec(q) == y);
            lemma_decompose_zero(y);
            lemma_magnitude_fields(y);
            assert(y.is_integer_spec());
            assert forall|w: F128| #[trigger] w.is_integer_spec() && magnitude(w) <= magnitude(q)
                implies magnitude(w) <= magnitude(y) by {
                lemma_magnitude_fields(w);
                if !w.is_zero_spec() {
                    lemma_whole_at_least_one(w);
                    if w.exp_spec() == q.exp_spec() {
                        lemma_compose_decompose_bits(w.high, w.low, 0, 16, 0);
                        lemma_trunc_bits(h, l, shift, w.frac_spec());
                    }
                }
            }
        }
    }
}

/// The remainder of `a` by `b` takes away from `a` a whole multiple of `b`:
/// `a % b == a - b * t` where `t` has the sign of `a / b` and is the largest
/// whole number not exceeding `a / b` in magnitude (the quotient rounded
/// toward zero). Stated for finite nonzero `a`, finite nonzero `b` and a
/// finite quotient.
pub proof fn lemma_rem_takes_whole_quotient(a: F128, b: F128)
    requires
        a.is_finite_spec(),
        !a.is_zero_spec(),
        b.is_finite_spec(),
        !b.is_zero_spec(),
        div_spec(a, b).is_finite_spec(),
    ensures
        exists|t: F128| {
            &&& t.is_integer_spec()
            &&& t.sign_spec() == div_spec(a, b).sign_spec()
            &&& magnitude(t) <= magnitude(div_spec(a, b))
            &&& (forall|w: F128| #[trigger] w.is_integer_spec() && magnitude(w) <= magnitude(div_spec(a, b))
                ==> magnitude(w) <= magnitude(t))
            &&& rem_spec(a, b) == add_spec(a, neg_spec(mul_spec(b, t)))
        },
{
    let q = div_spec(a, b);
    lemma_trunc_largest_whole_below(q);
    let t = trunc_spec(q);
    assert(rem_spec(a, b) == add_spec(a, neg_spec(mul_spec(b, t))));
}

} // verus!
