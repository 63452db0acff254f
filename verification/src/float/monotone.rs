//! How the results of the operations are ordered when their operands are.
use vstd::prelude::*;
use vstd::arithmetic::power2::{pow2, lemma_pow2_pos, lemma2_to64};
use crate::float::{
    F32, scaled, lemma_scaled_increasing, lemma_scaled_nonnegative, lemma_scaled_step,
};
use crate::float::rounding::{
    round_magnitude, lemma_rounding_exists, lemma_round_magnitude_monotone, lemma_round_exact,
    lemma_round_zero,
};

verus! {

/// Magnitudes are ordered as their values, in both directions.
pub proof fn lemma_scaled_order(k1: int, k2: int)
    requires
        0 <= k1,
        0 <= k2,
    ensures
        k1 <= k2 <==> scaled(k1) <= scaled(k2),
        k1 < k2 <==> scaled(k1) < scaled(k2),
{
    if k1 < k2 {
        lemma_scaled_increasing(k1, k2);
    }
    if k2 < k1 {
        lemma_scaled_increasing(k2, k1);
    }
}

/// The distance from a number below a finite one to that one is positive, and
/// from the lower of two such numbers it is the greater.
pub proof fn lemma_distance_order(n: F32, w1: F32, w2: F32)
    requires
        n.is_finite(),
        w1.at_most(w2),
        w2.less_than(n),
    ensures
        !n.difference(w1).is_nan(),
        !n.difference(w2).is_nan(),
        !n.difference(w1).is_negative(),
        !n.difference(w2).is_negative(),
        0 < n.difference(w2).magnitude() <= n.difference(w1).magnitude() <= 0x7f80_0000,
{
    let top = 0x7f80_0000int;
    lemma_scaled_order(n.magnitude(), top);
    lemma_scaled_order(w1.magnitude(), top);
    lemma_scaled_order(w2.magnitude(), top);
    lemma_scaled_nonnegative(n.magnitude());
    lemma_scaled_nonnegative(w1.magnitude());
    lemma_scaled_nonnegative(w2.magnitude());
    lemma_scaled_nonnegative(0);
    lemma_scaled_step(0);
    lemma2_to64();
    lemma_round_exact(1);
    let t1 = n.units() - w1.units();
    let t2 = n.units() - w2.units();
    assert(w1.negation().units() == -w1.units());
    assert(w2.negation().units() == -w2.units());
    if !w2.is_infinite() {
        lemma_round_magnitude_monotone(1, 1, t2, 1);
        if !w1.is_infinite() {
            lemma_round_magnitude_monotone(t2, 1, t1, 1);
        } else {
            lemma_rounding_exists(t2, 1);
        }
    }
}

/// A finite number divided by the greater of two positive numbers gives the
/// quotient nearer to zero.
pub proof fn lemma_quotient_order(n: F32, x1: F32, x2: F32)
    requires
        n.is_finite(),
        !x1.is_nan(),
        !x1.is_negative(),
        !x2.is_negative(),
        0 < x2.magnitude() <= x1.magnitude(),
    ensures
        !n.is_negative() ==> n.quotient(x1).at_most(n.quotient(x2)),
        n.is_negative() ==> n.quotient(x2).at_most(n.quotient(x1)),
{
    let a = scaled(n.magnitude());
    let c = pow2(149) as int;
    let s1 = scaled(x1.magnitude());
    let s2 = scaled(x2.magnitude());
    lemma_pow2_pos(149);
    lemma_scaled_nonnegative(n.magnitude());
    lemma_scaled_nonnegative(x1.magnitude());
    lemma_scaled_nonnegative(x2.magnitude());
    lemma_scaled_nonnegative(0);
    lemma_scaled_order(x2.magnitude(), x1.magnitude());
    assert(a * c >= 0) by (nonlinear_arith)
        requires
            a >= 0,
            c > 0,
    ;
    let m1 = n.quotient(x1).magnitude();
    let m2 = n.quotient(x2).magnitude();
    if x1.is_infinite() {
        if !x2.is_infinite() {
            lemma_rounding_exists(a * c, s2);
        }
    } else {
        assert((a * c) * s2 <= (a * c) * s1) by (nonlinear_arith)
            requires
                a * c >= 0,
                s2 <= s1,
        ;
        lemma_round_magnitude_monotone(a * c, s1, a * c, s2);
    }
    assert(0 <= m1 <= m2 <= 0x7f80_0000);
    lemma_scaled_order(m1, m2);
}

/// The sign and the magnitude of a product with a finite number other than zero.
proof fn lemma_product_parts(u: F32, s: F32)
    requires
        !u.is_nan(),
        s.is_finite(),
        !s.is_zero(),
    ensures
        u.product(s).is_negative() == (u.is_negative() != s.is_negative()),
        u.product(s).magnitude() == (if u.is_infinite() {
            0x7f80_0000
        } else {
            round_magnitude(scaled(u.magnitude()) * scaled(s.magnitude()), pow2(149) as int)
        }),
        0 <= u.product(s).magnitude() <= 0x7f80_0000,
{
    let a = scaled(u.magnitude());
    let b = scaled(s.magnitude());
    lemma_pow2_pos(149);
    lemma_scaled_nonnegative(s.magnitude());
    lemma_scaled_nonnegative(u.magnitude());
    assert(a * b >= 0) by (nonlinear_arith)
        requires
            a >= 0,
            b >= 0,
    ;
    lemma_rounding_exists(a * b, pow2(149) as int);
}

/// The greater the magnitude of one factor, the greater that of its product
/// with a finite number other than zero.
proof fn lemma_product_magnitude(u: F32, v: F32, s: F32)
    requires
        !u.is_nan(),
        !v.is_nan(),
        s.is_finite(),
        !s.is_zero(),
        u.magnitude() <= v.magnitude(),
    ensures
        0 <= u.product(s).magnitude() <= v.product(s).magnitude() <= 0x7f80_0000,
        u.product(s).is_negative() == (u.is_negative() != s.is_negative()),
        v.product(s).is_negative() == (v.is_negative() != s.is_negative()),
        u.is_zero() ==> u.product(s).is_zero(),
{
    lemma_product_parts(u, s);
    lemma_product_parts(v, s);
    let b = scaled(s.magnitude());
    let c = pow2(149) as int;
    let a1 = scaled(u.magnitude());
    let a2 = scaled(v.magnitude());
    lemma_pow2_pos(149);
    lemma_scaled_nonnegative(s.magnitude());
    lemma_scaled_nonnegative(u.magnitude());
    lemma_scaled_nonnegative(v.magnitude());
    lemma_scaled_order(u.magnitude(), v.magnitude());
    if !v.is_infinite() {
        assert(0 <= a1 * b <= a2 * b) by (nonlinear_arith)
            requires
                0 <= a1 <= a2,
                b > 0,
        ;
        assert((a1 * b) * c <= (a2 * b) * c) by (nonlinear_arith)
            requires
                a1 * b <= a2 * b,
                c > 0,
        ;
        lemma_round_magnitude_monotone(a1 * b, c, a2 * b, c);
    }
    if u.is_zero() {
        assert(a1 * b == 0) by (nonlinear_arith)
            requires
                a1 == 0,
        ;
        lemma_round_zero(c);
    }
}

/// Multiplying by a finite number other than zero keeps the order of two
/// numbers where it is positive, and turns it round where it is negative.
pub proof fn lemma_product_order(u1: F32, u2: F32, s: F32)
    requires
        u1.at_most(u2),
        s.is_finite(),
        !s.is_zero(),
    ensures
        !s.is_negative() ==> u1.product(s).at_most(u2.product(s)),
        s.is_negative() ==> u2.product(s).at_most(u1.product(s)),
{
    let m1 = u1.magnitude();
    let m2 = u2.magnitude();
    lemma_scaled_nonnegative(m1);
    lemma_scaled_nonnegative(m2);
    lemma_scaled_order(m1, m2);
    lemma_scaled_order(m2, m1);
    let lower = u1.product(s);
    let upper = u2.product(s);
    if m1 <= m2 {
        lemma_product_magnitude(u1, u2, s);
    } else {
        lemma_product_magnitude(u2, u1, s);
    }
    lemma_scaled_nonnegative(lower.magnitude());
    lemma_scaled_nonnegative(upper.magnitude());
    lemma_scaled_order(lower.magnitude(), upper.magnitude());
    lemma_scaled_order(upper.magnitude(), lower.magnitude());
    if !u1.is_negative() && u2.is_negative() {
        // both are zero
        assert(m1 == 0 && m2 == 0);
        lemma_product_magnitude(u2, u1, s);
    }
}

} // verus!
