//! Operations whose result needs no rounding.
use vstd::prelude::*;
use vstd::arithmetic::power2::{pow2, lemma_pow2_pos, lemma_pow2_adds, lemma2_to64};
use crate::float::{
    F32, ONE_BITS, ZERO_BITS, scaled, lemma_scaled_compose, lemma_scaled_nonnegative,
};
use crate::float::rounding::{
    lemma_round_exact, lemma_round_magnitude_is, lemma_round_zero, lemma_rounding_scales,
};

verus! {

/// The number one is worth 2^149 units.
pub proof fn lemma_one_units()
    ensures
        scaled(0x3f80_0000) == pow2(149),
        (F32 { bits: ONE_BITS }).magnitude() == 0x3f80_0000,
        !(F32 { bits: ONE_BITS }).is_negative(),
{
    lemma_scaled_compose(126, 0x80_0000);
    lemma2_to64();
    lemma_pow2_adds(23, 126);
}

/// A number times one is that number.
pub proof fn lemma_times_one(x: F32)
    requires
        !x.is_nan(),
    ensures
        x.product(F32 { bits: ONE_BITS }) == x,
        (F32 { bits: ONE_BITS }).product(x) == x,
{
    lemma_one_units();
    let c = pow2(149) as int;
    let a = scaled(x.magnitude());
    lemma_pow2_pos(149);
    if x.is_finite() {
        lemma_round_exact(x.magnitude());
        lemma_rounding_scales(x.magnitude(), a, 1, c);
        assert(1 * c == c);
        lemma_round_magnitude_is(x.magnitude(), a * c, c);
        assert(c * a == a * c) by (nonlinear_arith);
    }
}

/// A finite number less itself is zero, with the sign bit clear.
pub proof fn lemma_minus_itself(x: F32)
    requires
        x.is_finite(),
    ensures
        x.difference(x) == (F32 { bits: ZERO_BITS }),
{
}

/// A number less zero is that number.
pub proof fn lemma_minus_zero(x: F32)
    requires
        !x.is_nan(),
    ensures
        x.difference(F32 { bits: ZERO_BITS }) == x,
{
    lemma_scaled_nonnegative(0);
    lemma_scaled_nonnegative(x.magnitude());
    if x.is_finite() {
        lemma_round_exact(x.magnitude());
        lemma_round_magnitude_is(x.magnitude(), scaled(x.magnitude()), 1);
    }
}

/// A finite number other than zero, divided by itself, is one.
pub proof fn lemma_divided_by_itself(x: F32)
    requires
        x.is_finite(),
        !x.is_zero(),
    ensures
        x.quotient(x) == (F32 { bits: ONE_BITS }),
{
    lemma_one_units();
    let c = pow2(149) as int;
    let a = scaled(x.magnitude());
    lemma_scaled_nonnegative(x.magnitude());
    lemma_round_exact(0x3f80_0000);
    lemma_rounding_scales(0x3f80_0000, c, 1, a);
    assert(1 * a == a);
    assert(c * a == a * c) by (nonlinear_arith);
    lemma_round_magnitude_is(0x3f80_0000, a * c, a);
}

/// A finite number times zero is zero, with the sign of the number.
pub proof fn lemma_times_zero(x: F32)
    requires
        x.is_finite(),
    ensures
        x.product(F32 { bits: ZERO_BITS }) == F32::signed_zero(x.is_negative()),
{
    lemma_scaled_nonnegative(0);
    lemma_pow2_pos(149);
    let a = scaled(x.magnitude());
    assert(a * 0 == 0);
    lemma_round_zero(pow2(149) as int);
}

} // verus!
