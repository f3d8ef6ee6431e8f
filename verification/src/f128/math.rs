//! Powers of [`F128`].

use vstd::prelude::*;
use super::F128;
use super::arith::{mul_spec, div_spec};

verus! {

/// Binary exponentiation: while `e` is positive, multiply the accumulator
/// by the base when `e` is odd, square the base and halve `e`.
pub open spec fn powi_loop(base: F128, e: nat, acc: F128) -> F128
    decreases e,
{
    if e == 0 {
        acc
    } else {
        powi_loop(mul_spec(base, base), e / 2, if e % 2 == 1 { mul_spec(acc, base) } else { acc })
    }
}

/// `x` to the integer power `n`; for negative `n`, one divided by `x` to the
/// power `|n|`.
pub open spec fn powi_spec(x: F128, n: i32) -> F128 {
    let p = powi_loop(x, (if n < 0 { -(n as int) } else { n as int }) as nat, F128::bits(0x3FFF_0000_0000_0000, 0));
    if n < 0 { div_spec(F128::bits(0x3FFF_0000_0000_0000, 0), p) } else { p }
}

impl F128 {
    /// Integer power (see [`powi_spec`]).
    pub fn powi(self, exp: i32) -> (r: Self)
        ensures
            r == powi_spec(self, exp),
    {
        let mut base = self;
        let mut e: u64 = if exp < 0 { (-(exp as i64)) as u64 } else { exp as u64 };
        let mut acc = Self::one();
        while e > 0
            invariant
                powi_loop(base, e as nat, acc) == powi_loop(self, (if exp < 0 { -(exp as int) } else { exp as int }) as nat, F128::bits(0x3FFF_0000_0000_0000, 0)),
            decreases e,
        {
            proof {
                assert(e & 1 == e % 2) by (bit_vector);
                assert(e >> 1 == e / 2) by (bit_vector);
            }
            if (e & 1) != 0 {
                acc = acc.mul_f128(base);
            }
            base = base.mul_f128(base);
            e = e >> 1;
        }
        if exp < 0 { Self::one().div_f128(acc) } else { acc }
    }
}

} // verus!
