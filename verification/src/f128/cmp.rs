//! Equality and ordering of [`F128`].

use vstd::prelude::*;
use vstd::std_specs::cmp::{PartialEqSpecImpl, PartialOrdSpecImpl};
use core::cmp::Ordering;
use super::F128;

verus! {

/// The order of the bits taken as the pair `(high, low)`.
pub open spec fn bits_order(a: F128, b: F128) -> Ordering {
    if a.high < b.high {
        Ordering::Less
    } else if a.high > b.high {
        Ordering::Greater
    } else if a.low < b.low {
        Ordering::Less
    } else if a.low > b.low {
        Ordering::Greater
    } else {
        Ordering::Equal
    }
}

/// The opposite ordering.
pub open spec fn reversed(o: Ordering) -> Ordering {
    match o {
        Ordering::Less => Ordering::Greater,
        Ordering::Equal => Ordering::Equal,
        Ordering::Greater => Ordering::Less,
    }
}

/// The total order of numbers: NaN above everything else (NaNs among
/// themselves by their bits), `-0.0` equal to `+0.0`, negatives below
/// positives, and numbers of one sign by their bits (reversed for
/// negatives).
pub open spec fn total_order(a: F128, b: F128) -> Ordering {
    if a.high == b.high && a.low == b.low {
        Ordering::Equal
    } else if a.is_nan_spec() || b.is_nan_spec() {
        if a.is_nan_spec() && b.is_nan_spec() {
            bits_order(a, b)
        } else if a.is_nan_spec() {
            Ordering::Greater
        } else {
            Ordering::Less
        }
    } else if a.is_zero_spec() && b.is_zero_spec() {
        Ordering::Equal
    } else if a.sign_spec() != b.sign_spec() {
        if a.sign_spec() { Ordering::Less } else { Ordering::Greater }
    } else if a.sign_spec() {
        reversed(bits_order(a, b))
    } else {
        bits_order(a, b)
    }
}

/// Numeric equality: never for NaN, always between two zeros, otherwise
/// equal bits.
pub open spec fn num_eq(a: F128, b: F128) -> bool {
    if a.is_nan_spec() || b.is_nan_spec() {
        false
    } else if a.is_zero_spec() && b.is_zero_spec() {
        true
    } else {
        a.high == b.high && a.low == b.low
    }
}

fn order_of_bits(a: &F128, b: &F128) -> (r: Ordering)
    ensures
        r == bits_order(*a, *b),
{
    if a.high < b.high {
        Ordering::Less
    } else if a.high > b.high {
        Ordering::Greater
    } else if a.low < b.low {
        Ordering::Less
    } else if a.low > b.low {
        Ordering::Greater
    } else {
        Ordering::Equal
    }
}

impl F128 {
    /// The total order (see [`total_order`]).
    pub fn total_cmp(&self, other: &Self) -> (r: Ordering)
        ensures
            r == total_order(*self, *other),
    {
        if self.high == other.high && self.low == other.low {
            return Ordering::Equal;
        }
        let self_nan = self.is_nan();
        let other_nan = other.is_nan();
        if self_nan || other_nan {
            if self_nan && other_nan {
                return order_of_bits(self, other);
            }
            return if self_nan { Ordering::Greater } else { Ordering::Less };
        }
        if self.is_zero() && other.is_zero() {
            return Ordering::Equal;
        }
        let self_neg = self.is_sign_negative();
        let other_neg = other.is_sign_negative();
        if self_neg != other_neg {
            return if self_neg { Ordering::Less } else { Ordering::Greater };
        }
        let ord = order_of_bits(self, other);
        if self_neg {
            match ord {
                Ordering::Less => Ordering::Greater,
                Ordering::Equal => Ordering::Equal,
                Ordering::Greater => Ordering::Less,
            }
        } else {
            ord
        }
    }

    /// Numeric equality (see [`num_eq`]).
    pub fn num_equals(&self, other: &Self) -> (r: bool)
        ensures
            r == num_eq(*self, *other),
    {
        if self.is_nan() || other.is_nan() {
            return false;
        }
        if self.is_zero() && other.is_zero() {
            return true;
        }
        self.high == other.high && self.low == other.low
    }

    /// The ordering, or `None` when either is NaN.
    pub fn compare(&self, other: &Self) -> (r: Option<Ordering>)
        ensures
            r == (if self.is_nan_spec() || other.is_nan_spec() { None } else { Some(total_order(*self, *other)) }),
    {
        if self.is_nan() || other.is_nan() {
            return None;
        }
        Some(self.total_cmp(other))
    }
}

impl PartialEq for F128 {
    fn eq(&self, other: &Self) -> (r: bool) {
        self.num_equals(other)
    }
}

impl PartialEqSpecImpl for F128 {
    open spec fn obeys_eq_spec() -> bool {
        true
    }

    open spec fn eq_spec(&self, other: &F128) -> bool {
        num_eq(*self, *other)
    }
}

impl Eq for F128 {}

impl PartialOrd for F128 {
    fn partial_cmp(&self, other: &Self) -> (r: Option<Ordering>) {
        self.compare(other)
    }
}

impl PartialOrdSpecImpl for F128 {
    open spec fn obeys_partial_cmp_spec() -> bool {
        true
    }

    open spec fn partial_cmp_spec(&self, other: &F128) -> Option<Ordering> {
        if self.is_nan_spec() || other.is_nan_spec() { None } else { Some(total_order(*self, *other)) }
    }
}

/// The total order is antisymmetric: swapping the operands reverses it.
pub proof fn lemma_total_order_antisymmetric(a: F128, b: F128)
    ensures
        total_order(b, a) == reversed(total_order(a, b)),
{
}

/// Every number is equal to itself in the total order.
pub proof fn lemma_total_order_reflexive(a: F128)
    ensures
        total_order(a, a) == Ordering::Equal,
{
}

/// `a < b` as numbers (never when either is NaN).
pub open spec fn lt_spec(a: F128, b: F128) -> bool {
    !a.is_nan_spec() && !b.is_nan_spec() && total_order(a, b) == Ordering::Less
}

/// `a > b` as numbers (never when either is NaN).
pub open spec fn gt_spec(a: F128, b: F128) -> bool {
    !a.is_nan_spec() && !b.is_nan_spec() && total_order(a, b) == Ordering::Greater
}

impl F128 {
    /// Whether `self < other` (see [`lt_spec`]).
    pub fn less_than(&self, other: &Self) -> (r: bool)
        ensures
            r == lt_spec(*self, *other),
    {
        match self.compare(other) {
            Some(Ordering::Less) => true,
            _ => false,
        }
    }

    /// Whether `self > other` (see [`gt_spec`]).
    pub fn greater_than(&self, other: &Self) -> (r: bool)
        ensures
            r == gt_spec(*self, *other),
    {
        match self.compare(other) {
            Some(Ordering::Greater) => true,
            _ => false,
        }
    }
}

/// `a <= b` as numbers (never when either is NaN).
pub open spec fn le_spec(a: F128, b: F128) -> bool {
    !a.is_nan_spec() && !b.is_nan_spec() && total_order(a, b) != Ordering::Greater
}

/// `a >= b` as numbers (never when either is NaN).
pub open spec fn ge_spec(a: F128, b: F128) -> bool {
    !a.is_nan_spec() && !b.is_nan_spec() && total_order(a, b) != Ordering::Less
}

impl F128 {
    /// Whether `self <= other` (see [`le_spec`]).
    pub fn at_most(&self, other: &Self) -> (r: bool)
        ensures
            r == le_spec(*self, *other),
    {
        match self.compare(other) {
            Some(Ordering::Greater) => false,
            Some(_) => true,
            None => false,
        }
    }

    /// Whether `self >= other` (see [`ge_spec`]).
    pub fn at_least(&self, other: &Self) -> (r: bool)
        ensures
            r == ge_spec(*self, *other),
    {
        match self.compare(other) {
            Some(Ordering::Less) => false,
            Some(_) => true,
            None => false,
        }
    }
}

/// How the sign and zero tests read the high word.
proof fn lemma_sign_and_zero_bits(x: F128)
    ensures
        x.sign_spec() == (x.high >= 0x8000_0000_0000_0000u64),
        x.is_zero_spec() == (x.low == 0 && (x.high == 0 || x.high == 0x8000_0000_0000_0000u64)),
{
    let h = x.high;
    assert((h & 0x8000_0000_0000_0000u64 != 0) == (h >= 0x8000_0000_0000_0000u64)) by (bit_vector);
    assert((h & 0x7FFF_FFFF_FFFF_FFFFu64 == 0) == (h == 0 || h == 0x8000_0000_0000_0000u64)) by (bit_vector);
}

/// The total order is transitive: below something below `c` is below `c`.
pub proof fn lemma_total_order_transitive(a: F128, b: F128, c: F128)
    requires
        total_order(a, b) == Ordering::Less,
        total_order(b, c) == Ordering::Less,
    ensures
        total_order(a, c) == Ordering::Less,
{
    lemma_sign_and_zero_bits(a);
    lemma_sign_and_zero_bits(b);
    lemma_sign_and_zero_bits(c);
}

/// Equal in the total order is transitive.
pub proof fn lemma_total_order_equal_transitive(a: F128, b: F128, c: F128)
    requires
        total_order(a, b) == Ordering::Equal,
        total_order(b, c) == Ordering::Equal,
    ensures
        total_order(a, c) == Ordering::Equal,
{
    lemma_sign_and_zero_bits(a);
    lemma_sign_and_zero_bits(b);
    lemma_sign_and_zero_bits(c);
}

} // verus!
