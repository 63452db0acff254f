//! Single-precision IEEE 754 numbers as bit patterns, and their mathematical value.
//!
//! A pattern without its sign bit is called a *magnitude*. The magnitudes from
//! zero up to infinity are ordered exactly as the values they encode, which is
//! what the rounding and comparison proofs build on. Values are measured in
//! *units* of 2^-149, the smallest positive number of the format, so that the
//! value of every finite pattern is an integer.
use vstd::prelude::*;
use vstd::arithmetic::power2::{pow2, lemma_pow2_pos, lemma_pow2_unfold, lemma2_to64};

pub mod rounding;
pub mod arith;
pub mod order;
pub mod monotone;
pub mod exact;

verus! {

/// The sign bit of a pattern.
pub const SIGN_BIT: u32 = 0x8000_0000;

/// The magnitude of infinity; every larger magnitude is a NaN.
pub const INFINITY_MAGNITUDE: u32 = 0x7f80_0000;

/// The implicit leading bit of a normal significand, 2^23.
pub const HIDDEN_BIT: u32 = 0x0080_0000;

/// The pattern that every operation yields when its result is not a number.
pub const NAN_BITS: u32 = 0x7fc0_0000;

/// The pattern of 0.0.
pub const ZERO_BITS: u32 = 0x0000_0000;

/// The pattern of 1.0.
pub const ONE_BITS: u32 = 0x3f80_0000;

/// The pattern of 2.0.
pub const TWO_BITS: u32 = 0x4000_0000;

/// The pattern of the largest finite number.
pub const MAX_BITS: u32 = 0x7f7f_ffff;

/// The pattern of the finite number furthest below zero.
pub const MIN_BITS: u32 = 0xff7f_ffff;

/// A single-precision number, held as its IEEE 754 bit pattern.
#[derive(Clone, Copy, Debug)]
pub struct F32 {
    pub bits: u32,
}

/// The significand of a magnitude: its fraction field, with the hidden bit for a normal number.
pub open spec fn significand(k: int) -> int {
    if k < 0x80_0000 {
        k
    } else {
        0x80_0000 + k % 0x80_0000
    }
}

/// The power of two, in units, that the significand of a magnitude is multiplied by.
pub open spec fn exponent(k: int) -> nat {
    if k < 0x100_0000 {
        0
    } else {
        (k / 0x80_0000 - 1) as nat
    }
}

/// The value that a magnitude encodes, in units of 2^-149.
///
/// Infinity comes out as 2^277 units, that is 2^128, just beyond the largest
/// finite value: the number that rounding treats it as.
pub open spec fn scaled(k: int) -> int {
    significand(k) * pow2(exponent(k))
}

impl F32 {
    /// The pattern without its sign bit.
    pub open spec fn magnitude(self) -> int {
        self.bits as int % 0x8000_0000
    }

    /// Whether the sign bit is set; this holds of `-0.0` too.
    pub open spec fn is_negative(self) -> bool {
        self.bits >= 0x8000_0000
    }

    pub open spec fn is_nan(self) -> bool {
        self.magnitude() > 0x7f80_0000
    }

    pub open spec fn is_infinite(self) -> bool {
        self.magnitude() == 0x7f80_0000
    }

    pub open spec fn is_finite(self) -> bool {
        self.magnitude() < 0x7f80_0000
    }

    pub open spec fn is_zero(self) -> bool {
        self.magnitude() == 0
    }

    /// The value in units of 2^-149, with its sign. It is meant for numbers
    /// other than NaN; an infinity counts as plus or minus 2^277 units.
    pub open spec fn units(self) -> int {
        if self.is_negative() {
            -scaled(self.magnitude())
        } else {
            scaled(self.magnitude())
        }
    }

    /// The number with the given sign and magnitude.
    pub open spec fn compose(negative: bool, magnitude: int) -> F32 {
        F32 {
            bits: if negative {
                (magnitude + 0x8000_0000) as u32
            } else {
                magnitude as u32
            },
        }
    }

    /// The not-a-number value that operations return.
    pub open spec fn nan() -> F32 {
        F32 { bits: NAN_BITS }
    }

    /// The number 0.0.
    pub fn zero() -> (r: F32)
        ensures
            r.bits == ZERO_BITS,
    {
        F32 { bits: ZERO_BITS }
    }

    /// The number 1.0.
    pub fn one() -> (r: F32)
        ensures
            r.bits == ONE_BITS,
    {
        F32 { bits: ONE_BITS }
    }

    /// The number 2.0.
    pub fn two() -> (r: F32)
        ensures
            r.bits == TWO_BITS,
    {
        F32 { bits: TWO_BITS }
    }

    pub fn from_bits(bits: u32) -> (r: F32)
        ensures
            r.bits == bits,
    {
        F32 { bits }
    }

    pub fn to_bits(self) -> (bits: u32)
        ensures
            bits == self.bits,
    {
        self.bits
    }

    /// The magnitude as a machine integer.
    pub(crate) fn magnitude_bits(self) -> (k: u32)
        ensures
            k == self.magnitude(),
            k < 0x8000_0000,
    {
        self.bits % SIGN_BIT
    }

    /// Whether the sign bit is set.
    pub fn is_sign_negative(self) -> (r: bool)
        ensures
            r == self.is_negative(),
    {
        self.bits >= SIGN_BIT
    }

    /// Builds a number from a sign and a magnitude.
    pub(crate) fn pack(negative: bool, magnitude: u32) -> (r: F32)
        requires
            magnitude < 0x8000_0000,
        ensures
            r == F32::compose(negative, magnitude as int),
            r.magnitude() == magnitude,
            r.is_negative() == negative,
    {
        if negative {
            F32 { bits: magnitude + SIGN_BIT }
        } else {
            F32 { bits: magnitude }
        }
    }
}

/// Splits a magnitude into its significand and exponent.
pub(crate) fn decode(magnitude: u32) -> (r: (u32, u32))
    requires
        magnitude < 0x8000_0000,
    ensures
        r.0 == significand(magnitude as int),
        r.1 == exponent(magnitude as int),
        r.0 < 0x100_0000,
        r.1 <= 254,
        magnitude >= 0x80_0000 ==> r.0 >= 0x80_0000,
        magnitude == r.1 * 0x80_0000 + r.0,
{
    if magnitude < 0x100_0000 {
        (magnitude, 0)
    } else {
        (HIDDEN_BIT + magnitude % HIDDEN_BIT, magnitude / HIDDEN_BIT - 1)
    }
}

/// A magnitude is its exponent times 2^23 plus its significand.
pub proof fn lemma_magnitude_parts(k: int)
    requires
        0 <= k,
    ensures
        k == exponent(k) * 0x80_0000 + significand(k),
        0 <= significand(k) < 0x100_0000,
        exponent(k) > 0 ==> significand(k) >= 0x80_0000,
{
}

/// The magnitude with exponent `t` and significand `q` is worth `q * 2^t` units.
pub proof fn lemma_scaled_compose(t: nat, q: int)
    requires
        0 <= q < 0x100_0000,
        t == 0 || q >= 0x80_0000,
    ensures
        exponent(t * 0x80_0000 + q) == t,
        significand(t * 0x80_0000 + q) == q,
        scaled(t * 0x80_0000 + q) == q * pow2(t),
{
    let k = t * 0x80_0000 + q;
    if t == 0 {
        lemma2_to64();
        assert(q * 1 == q);
    } else {
        let f = q - 0x80_0000;
        assert(k == (t + 1) * 0x80_0000 + f);
        assert(k / 0x80_0000 == t + 1);
        assert(k % 0x80_0000 == f);
    }
}

/// From one magnitude to the next the value grows by one unit in the last place.
pub proof fn lemma_scaled_step(k: int)
    requires
        0 <= k,
    ensures
        scaled(k + 1) == scaled(k) + pow2(exponent(k)),
        scaled(k) < scaled(k + 1),
{
    let t = exponent(k);
    let q = significand(k);
    lemma_magnitude_parts(k);
    lemma_scaled_compose(t, q);
    lemma_pow2_pos(t);
    assert((q + 1) * pow2(t) == q * pow2(t) + pow2(t)) by (nonlinear_arith);
    if q + 1 < 0x100_0000 {
        lemma_scaled_compose(t, q + 1);
        assert(k + 1 == t * 0x80_0000 + (q + 1));
    } else {
        lemma_scaled_compose(t + 1, 0x80_0000);
        assert(k + 1 == (t + 1) * 0x80_0000 + 0x80_0000);
        lemma_pow2_unfold(t + 1);
        assert(0x80_0000 * (2 * pow2(t)) == 0x100_0000 * pow2(t)) by (nonlinear_arith);
    }
}

/// A larger magnitude encodes a larger value.
pub proof fn lemma_scaled_increasing(k1: int, k2: int)
    requires
        0 <= k1 < k2,
    ensures
        scaled(k1) < scaled(k2),
    decreases k2 - k1,
{
    lemma_scaled_step(k2 - 1);
    if k1 < k2 - 1 {
        lemma_scaled_increasing(k1, k2 - 1);
    }
}

/// No magnitude encodes a negative value, and only zero encodes zero.
pub proof fn lemma_scaled_nonnegative(k: int)
    requires
        0 <= k,
    ensures
        scaled(k) >= 0,
        scaled(k) == 0 <==> k == 0,
{
    lemma2_to64();
    assert(scaled(0) == 0) by {
        assert(0 * pow2(0) == 0);
    }
    if k > 0 {
        lemma_scaled_increasing(0, k);
    }
}

} // verus!
