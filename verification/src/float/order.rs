//! Equality and order.
//!
//! Numbers compare by value: the two zeros are equal, and a NaN is neither
//! equal to nor ordered against anything, itself included.
use vstd::prelude::*;
use std::cmp::Ordering;
use crate::float::{F32, lemma_scaled_increasing, lemma_scaled_nonnegative};

verus! {

impl F32 {
    /// The magnitude with its sign. Numbers other than NaN are ordered by it
    /// as by their values.
    pub open spec fn order_key(self) -> int {
        if self.is_negative() {
            -self.magnitude()
        } else {
            self.magnitude()
        }
    }

    /// Equality of values.
    pub open spec fn equals(self, other: F32) -> bool {
        !self.is_nan() && !other.is_nan() && self.units() == other.units()
    }

    /// How the values of two numbers are ordered, if they are.
    pub open spec fn compare(self, other: F32) -> Option<Ordering> {
        if self.is_nan() || other.is_nan() {
            None
        } else if self.units() < other.units() {
            Some(Ordering::Less)
        } else if self.units() == other.units() {
            Some(Ordering::Equal)
        } else {
            Some(Ordering::Greater)
        }
    }

    /// Whether this value is below the other.
    pub open spec fn less_than(self, other: F32) -> bool {
        !self.is_nan() && !other.is_nan() && self.units() < other.units()
    }

    /// Whether this value is below or equal to the other.
    pub open spec fn at_most(self, other: F32) -> bool {
        !self.is_nan() && !other.is_nan() && self.units() <= other.units()
    }

    /// Whether this value is above the other.
    pub open spec fn greater_than(self, other: F32) -> bool {
        other.less_than(self)
    }

    /// Whether this value is above or equal to the other.
    pub open spec fn at_least(self, other: F32) -> bool {
        other.at_most(self)
    }

    /// The signed magnitude as a machine integer.
    fn key(self) -> (k: i64)
        ensures
            k == self.order_key(),
    {
        let m = self.magnitude_bits() as i64;
        if self.is_sign_negative() {
            -m
        } else {
            m
        }
    }

    /// Whether the number is a NaN.
    fn nan_bits(self) -> (r: bool)
        ensures
            r == self.is_nan(),
    {
        self.magnitude_bits() > 0x7f80_0000
    }
}

/// Signed magnitudes are ordered as the values they encode.
pub proof fn lemma_order_key(a: F32, b: F32)
    ensures
        a.order_key() < b.order_key() <==> a.units() < b.units(),
        a.order_key() == b.order_key() <==> a.units() == b.units(),
{
    let ka = a.magnitude();
    let kb = b.magnitude();
    lemma_scaled_nonnegative(ka);
    lemma_scaled_nonnegative(kb);
    if ka < kb {
        lemma_scaled_increasing(ka, kb);
    }
    if kb < ka {
        lemma_scaled_increasing(kb, ka);
    }
}

impl PartialEq for F32 {
    fn eq(&self, other: &F32) -> (r: bool) {
        proof {
            lemma_order_key(*self, *other);
        }
        !self.nan_bits() && !other.nan_bits() && self.key() == other.key()
    }
}

impl vstd::std_specs::cmp::PartialEqSpecImpl for F32 {
    open spec fn obeys_eq_spec() -> bool {
        true
    }

    open spec fn eq_spec(&self, other: &F32) -> bool {
        self.equals(*other)
    }
}

impl PartialOrd for F32 {
    fn partial_cmp(&self, other: &F32) -> (r: Option<Ordering>) {
        proof {
            lemma_order_key(*self, *other);
        }
        if self.nan_bits() || other.nan_bits() {
            None
        } else if self.key() < other.key() {
            Some(Ordering::Less)
        } else if self.key() == other.key() {
            Some(Ordering::Equal)
        } else {
            Some(Ordering::Greater)
        }
    }
}

impl vstd::std_specs::cmp::PartialOrdSpecImpl for F32 {
    open spec fn obeys_partial_cmp_spec() -> bool {
        true
    }

    open spec fn partial_cmp_spec(&self, other: &F32) -> Option<Ordering> {
        self.compare(*other)
    }
}

} // verus!
