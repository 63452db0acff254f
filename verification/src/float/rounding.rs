//! Rounding to nearest, ties to even.
//!
//! An exact result is a non-negative quotient `n / d` of integers, counted in
//! units of 2^-149. Its rounding is the magnitude whose value lies nearest to
//! it; of two equally near magnitudes the even one is taken. A quotient at or
//! beyond the halfway point above the largest finite value rounds to infinity.
use vstd::prelude::*;
use vstd::arithmetic::power2::{
    pow2, lemma_pow2_pos, lemma_pow2_unfold, lemma_pow2_strictly_increases, lemma2_to64,
};
use vstd::arithmetic::div_mod::{lemma_fundamental_div_mod, lemma_mod_bound, lemma_div_pos_is_pos};
use crate::float::{
    scaled, lemma_scaled_step, lemma_scaled_increasing, lemma_scaled_compose,
    lemma_scaled_nonnegative,
};

verus! {

/// Twice the value halfway between magnitude `k` and the next one.
pub open spec fn double_midpoint(k: int) -> int {
    scaled(k) + scaled(k + 1)
}

/// Whether magnitude `k` is the rounding of `n / d`: the quotient lies between
/// the halfway points below and above `k`, and on a halfway point only if `k`
/// is even.
pub open spec fn is_rounding_of(k: int, n: int, d: int) -> bool {
    &&& 0 <= k <= 0x7f80_0000
    &&& (k == 0 || double_midpoint(k - 1) * d < 2 * n || (double_midpoint(k - 1) * d == 2 * n && k
        % 2 == 0))
    &&& (k == 0x7f80_0000 || 2 * n < double_midpoint(k) * d || (2 * n == double_midpoint(k) * d
        && k % 2 == 0))
}

/// The magnitude that `n / d` rounds to.
pub open spec fn round_magnitude(n: int, d: int) -> int {
    choose|k: int| is_rounding_of(k, n, d)
}

/// Halfway points are ordered as the magnitudes below them.
pub proof fn lemma_double_midpoint_increasing(k1: int, k2: int)
    requires
        0 <= k1 <= k2,
    ensures
        double_midpoint(k1) <= double_midpoint(k2),
        k1 < k2 ==> double_midpoint(k1) < double_midpoint(k2),
{
    if k1 < k2 {
        lemma_scaled_increasing(k1, k2);
        lemma_scaled_increasing(k1 + 1, k2 + 1);
    }
}

/// Two roundings of quotients in order are in the same order.
pub proof fn lemma_rounding_monotone(k1: int, n1: int, d1: int, k2: int, n2: int, d2: int)
    requires
        d1 > 0,
        d2 > 0,
        is_rounding_of(k1, n1, d1),
        is_rounding_of(k2, n2, d2),
        n1 * d2 <= n2 * d1,
    ensures
        k1 <= k2,
{
    if k1 > k2 {
        let m1 = double_midpoint(k1 - 1);
        let m2 = double_midpoint(k2);
        lemma_double_midpoint_increasing(k2, k1 - 1);
        // m1 * d1 <= 2 * n1 and 2 * n2 <= m2 * d2, with m2 <= m1
        assert(m1 * d1 * d2 <= 2 * n1 * d2) by (nonlinear_arith)
            requires
                m1 * d1 <= 2 * n1,
                d2 > 0,
        ;
        assert(2 * n2 * d1 <= m2 * d2 * d1) by (nonlinear_arith)
            requires
                2 * n2 <= m2 * d2,
                d1 > 0,
        ;
        assert(m2 * d2 * d1 <= m1 * d1 * d2) by (nonlinear_arith)
            requires
                m2 <= m1,
                d1 > 0,
                d2 > 0,
        ;
        assert(2 * n1 * d2 <= 2 * n2 * d1) by (nonlinear_arith)
            requires
                n1 * d2 <= n2 * d1,
        ;
        // so the whole chain is one value
        assert(m2 == m1) by (nonlinear_arith)
            requires
                m2 <= m1,
                m2 * d2 * d1 == m1 * d1 * d2,
                d1 > 0,
                d2 > 0,
        ;
        assert(m1 * d1 == 2 * n1) by (nonlinear_arith)
            requires
                m1 * d1 <= 2 * n1,
                m1 * d1 * d2 == 2 * n1 * d2,
                d2 > 0,
        ;
        assert(2 * n2 == m2 * d2) by (nonlinear_arith)
            requires
                2 * n2 <= m2 * d2,
                2 * n2 * d1 == m2 * d2 * d1,
                d1 > 0,
        ;
        assert(k2 == k1 - 1);
        assert(false);
    }
}

/// A quotient has one rounding only.
pub proof fn lemma_rounding_unique(k1: int, k2: int, n: int, d: int)
    requires
        d > 0,
        is_rounding_of(k1, n, d),
        is_rounding_of(k2, n, d),
    ensures
        k1 == k2,
{
    lemma_rounding_monotone(k1, n, d, k2, n, d);
    lemma_rounding_monotone(k2, n, d, k1, n, d);
}

/// A magnitude that is a rounding of `n / d` is the rounding of `n / d`.
pub proof fn lemma_round_magnitude_is(k: int, n: int, d: int)
    requires
        d > 0,
        is_rounding_of(k, n, d),
    ensures
        round_magnitude(n, d) == k,
{
    lemma_rounding_unique(k, round_magnitude(n, d), n, d);
}

/// A product with a positive factor keeps the order of the other factors.
proof fn lemma_scale_order(a: int, b: int, d: int)
    requires
        d > 0,
    ensures
        a < b ==> a * d < b * d,
        a <= b ==> a * d <= b * d,
        a == b ==> a * d == b * d,
{
    assert(a < b ==> a * d < b * d) by (nonlinear_arith)
        requires
            d > 0,
    ;
    assert(a <= b ==> a * d <= b * d) by (nonlinear_arith)
        requires
            d > 0,
    ;
}

/// From magnitude `k` on, whose lower halfway point the quotient has reached,
/// some magnitude is the rounding of `n / d`.
proof fn lemma_rounding_search(k: int, n: int, d: int)
    requires
        0 <= k <= 0x7f80_0000,
        n >= 0,
        d > 0,
        k == 0 || double_midpoint(k - 1) * d <= 2 * n,
    ensures
        exists|r: int| is_rounding_of(r, n, d),
    decreases 0x7f80_0000 - k,
{
    if k == 0x7f80_0000 {
        assert(is_rounding_of(k, n, d));
    } else {
        let above = double_midpoint(k) * d;
        if 2 * n > above {
            lemma_rounding_search(k + 1, n, d);
        } else if 2 * n == above {
            if k % 2 == 0 {
                if k > 0 {
                    lemma_double_midpoint_increasing(k - 1, k);
                    lemma_scale_order(double_midpoint(k - 1), double_midpoint(k), d);
                }
                assert(is_rounding_of(k, n, d));
            } else {
                lemma_double_midpoint_increasing(k, k + 1);
                lemma_scale_order(double_midpoint(k), double_midpoint(k + 1), d);
                assert(is_rounding_of(k + 1, n, d));
            }
        } else {
            if k == 0 || double_midpoint(k - 1) * d < 2 * n || k % 2 == 0 {
                assert(is_rounding_of(k, n, d));
            } else {
                if k - 1 > 0 {
                    lemma_double_midpoint_increasing(k - 2, k - 1);
                    lemma_scale_order(double_midpoint(k - 2), double_midpoint(k - 1), d);
                }
                assert(is_rounding_of(k - 1, n, d));
            }
        }
    }
}

/// Every non-negative quotient has a rounding, which lies between zero and infinity.
pub proof fn lemma_rounding_exists(n: int, d: int)
    requires
        n >= 0,
        d > 0,
    ensures
        is_rounding_of(round_magnitude(n, d), n, d),
        0 <= round_magnitude(n, d) <= 0x7f80_0000,
{
    lemma_rounding_search(0, n, d);
}

/// Quotients in order round to magnitudes in the same order.
pub proof fn lemma_round_magnitude_monotone(n1: int, d1: int, n2: int, d2: int)
    requires
        n1 >= 0,
        n2 >= 0,
        d1 > 0,
        d2 > 0,
        n1 * d2 <= n2 * d1,
    ensures
        0 <= round_magnitude(n1, d1) <= round_magnitude(n2, d2) <= 0x7f80_0000,
{
    lemma_rounding_exists(n1, d1);
    lemma_rounding_exists(n2, d2);
    lemma_rounding_monotone(round_magnitude(n1, d1), n1, d1, round_magnitude(n2, d2), n2, d2);
}

/// Multiplying numerator and denominator by one positive factor changes no rounding.
pub proof fn lemma_rounding_scales(k: int, n: int, d: int, c: int)
    requires
        c > 0,
        is_rounding_of(k, n, d),
    ensures
        is_rounding_of(k, n * c, d * c),
{
    if k > 0 {
        let m = double_midpoint(k - 1);
        assert(m * (d * c) == (m * d) * c) by (nonlinear_arith);
        assert(2 * (n * c) == (2 * n) * c) by (nonlinear_arith);
        lemma_scale_order(m * d, 2 * n, c);
    }
    if k < 0x7f80_0000 {
        let m = double_midpoint(k);
        assert(m * (d * c) == (m * d) * c) by (nonlinear_arith);
        assert(2 * (n * c) == (2 * n) * c) by (nonlinear_arith);
        lemma_scale_order(2 * n, m * d, c);
    }
}

/// Zero rounds to zero.
pub proof fn lemma_round_zero(d: int)
    requires
        d > 0,
    ensures
        is_rounding_of(0, 0, d),
        round_magnitude(0, d) == 0,
{
    lemma_scaled_nonnegative(0);
    lemma_scaled_step(0);
    assert(0 < double_midpoint(0) * d) by (nonlinear_arith)
        requires
            double_midpoint(0) > 0,
            d > 0,
    ;
    lemma_round_magnitude_is(0, 0, d);
}

/// The value of a magnitude rounds to that magnitude.
pub proof fn lemma_round_exact(k: int)
    requires
        0 <= k <= 0x7f80_0000,
    ensures
        is_rounding_of(k, scaled(k), 1),
        round_magnitude(scaled(k), 1) == k,
{
    lemma_scaled_step(k);
    if k > 0 {
        lemma_scaled_step(k - 1);
    }
    lemma_round_magnitude_is(k, scaled(k), 1);
}

/// Whether `n / d` is the quotient `num / den` times two to the power `shift`.
pub open spec fn is_shifted_quotient(num: int, den: int, shift: int, n: int, d: int) -> bool {
    if shift >= 0 {
        num * (d * pow2(shift as nat)) == n * den
    } else {
        num * d == n * (den * pow2((-shift) as nat))
    }
}

/// Decides a rounding from one integer division.
///
/// Here `n / d` equals `a / b` times `2^t`, and `a / b` has been brought into
/// the range of a significand, so that its integer part `q` and `t` name the
/// magnitude just below the quotient; the remainder `r` tells which of the two
/// neighbours is nearer.
proof fn lemma_round_quotient(a: int, b: int, t: nat, n: int, d: int)
    requires
        b > 0,
        d > 0,
        a >= 0,
        a * (d * pow2(t)) == n * b,
        a < 0x100_0000 * b,
        t == 0 || a >= 0x80_0000 * b,
    ensures
        ({
            let q = a / b;
            let r = a % b;
            let k = t * 0x80_0000 + q;
            &&& 0 <= q < 0x100_0000
            &&& 0 <= r < b
            &&& (t == 0 || q >= 0x80_0000)
            &&& (t <= 253 && (2 * r < b || (2 * r == b && q % 2 == 0))) ==> is_rounding_of(k, n, d)
            &&& (t <= 253 && (2 * r > b || (2 * r == b && q % 2 == 1))) ==> is_rounding_of(
                k + 1,
                n,
                d,
            )
            &&& t >= 254 ==> is_rounding_of(0x7f80_0000, n, d)
        }),
{
    let q = a / b;
    let r = a % b;
    let k = t * 0x80_0000 + q;
    lemma_fundamental_div_mod(a, b);
    lemma_mod_bound(a, b);
    lemma_div_pos_is_pos(a, b);
    assert(q < 0x100_0000) by (nonlinear_arith)
        requires
            a == b * q + r,
            0 <= r,
            b > 0,
            a < 0x100_0000 * b,
    ;
    assert(t == 0 || q >= 0x80_0000) by (nonlinear_arith)
        requires
            a == b * q + r,
            r < b,
            b > 0,
            t == 0 || a >= 0x80_0000 * b,
    ;
    let p = pow2(t) as int;
    lemma_pow2_pos(t);
    let w = d * p;
    assert(w > 0) by (nonlinear_arith)
        requires
            w == d * p,
            d > 0,
            p > 0,
    ;
    lemma_scaled_compose(t, q);
    let s = scaled(k);
    lemma_scaled_step(k);
    lemma_scaled_step(k + 1);
    // the quotient lies x / d above the magnitude k, and x is less than one unit in the last place
    let x = n - s * d;
    assert(x * b == r * w) by (nonlinear_arith)
        requires
            x == n - s * d,
            s == q * p,
            w == d * p,
            a == b * q + r,
            a * w == n * b,
    ;
    assert(0 <= x < w) by (nonlinear_arith)
        requires
            x * b == r * w,
            0 <= r < b,
            w > 0,
            b > 0,
    ;
    assert(2 * r < b ==> 2 * x < w) by (nonlinear_arith)
        requires
            x * b == r * w,
            w > 0,
            b > 0,
    ;
    assert(2 * r == b ==> 2 * x == w) by (nonlinear_arith)
        requires
            x * b == r * w,
            w > 0,
            b > 0,
    ;
    assert(2 * r > b ==> 2 * x > w) by (nonlinear_arith)
        requires
            x * b == r * w,
            w > 0,
            b > 0,
    ;
    assert(double_midpoint(k) * d == 2 * (s * d) + w) by (nonlinear_arith)
        requires
            double_midpoint(k) == s + s + p,
            w == d * p,
    ;
    assert(2 * n == 2 * (s * d) + 2 * x);
    if t <= 253 {
        assert(k + 1 <= 0x7f80_0000);
        if k > 0 {
            lemma_scaled_step(k - 1);
            assert(double_midpoint(k - 1) * d < 2 * (s * d)) by (nonlinear_arith)
                requires
                    double_midpoint(k - 1) < 2 * s,
                    d > 0,
            ;
        }
        assert(double_midpoint(k + 1) * d > 2 * (s * d) + 2 * w) by (nonlinear_arith)
            requires
                double_midpoint(k + 1) > 2 * s + 2 * p,
                w == d * p,
                d > 0,
        ;
    } else {
        let top = 0x7f80_0000int;
        lemma_scaled_compose(254, 0x80_0000);
        assert(254 * 0x80_0000 + 0x80_0000 == top);
        lemma_scaled_step(top - 1);
        if t > 254 {
            lemma_pow2_strictly_increases(254, t);
        }
        assert(scaled(top) <= s) by (nonlinear_arith)
            requires
                scaled(top) == 0x80_0000 * pow2(254),
                s == q * p,
                q >= 0x80_0000,
                p >= pow2(254),
        ;
        assert(double_midpoint(top - 1) * d < 2 * (s * d)) by (nonlinear_arith)
            requires
                double_midpoint(top - 1) < 2 * scaled(top),
                scaled(top) <= s,
                d > 0,
        ;
    }
}

/// A quotient below half a unit rounds to zero.
proof fn lemma_round_tiny(num: int, den: int, shift: int, n: int, d: int)
    requires
        0 <= num < 0x1_0000_0000_0000_0000,
        den > 0,
        d > 0,
        n >= 0,
        shift <= -65,
        is_shifted_quotient(num, den, shift, n, d),
    ensures
        is_rounding_of(0, n, d),
{
    let p = pow2((-shift) as nat) as int;
    lemma2_to64();
    lemma_pow2_unfold(65);
    if -shift > 65 {
        lemma_pow2_strictly_increases(65, (-shift) as nat);
    }
    assert(2 * n < d) by (nonlinear_arith)
        requires
            num * d == n * (den * p),
            0 <= num < 0x1_0000_0000_0000_0000,
            p >= 0x2_0000_0000_0000_0000,
            den >= 1,
            n >= 0,
            d > 0,
    ;
    lemma_scaled_nonnegative(0);
    lemma_scaled_step(0);
    assert(double_midpoint(0) * d == d) by (nonlinear_arith)
        requires
            double_midpoint(0) == 1,
    ;
}

/// A quotient with numerator zero is zero, and rounds to zero.
proof fn lemma_round_nothing(den: int, shift: int, n: int, d: int)
    requires
        den > 0,
        d > 0,
        is_shifted_quotient(0, den, shift, n, d),
    ensures
        n == 0,
        is_rounding_of(0, n, d),
        round_magnitude(n, d) == 0,
{
    let p = pow2(if shift >= 0 { shift as nat } else { (-shift) as nat }) as int;
    lemma_pow2_pos(if shift >= 0 { shift as nat } else { (-shift) as nat });
    assert(n == 0) by (nonlinear_arith)
        requires
            0 * (d * p) == n * den || 0 * d == n * (den * p),
            den > 0,
            p > 0,
    ;
    lemma_round_zero(d);
}

/// Rounds `num / den` times two to the power `shift`, which the caller knows as `n / d`.
pub(crate) fn round_ratio(num: u64, den: u32, shift: i32, Ghost(n): Ghost<int>, Ghost(d): Ghost<
    int,
>) -> (k: u32)
    requires
        den > 0,
        d > 0,
        n >= 0,
        -1000 <= shift <= 1000,
        is_shifted_quotient(num as int, den as int, shift as int, n, d),
    ensures
        is_rounding_of(k as int, n, d),
        k == round_magnitude(n, d),
{
    if num == 0 {
        proof {
            lemma_round_nothing(den as int, shift as int, n, d);
        }
        return 0;
    }
    if shift < -64 {
        proof {
            lemma_round_tiny(num as int, den as int, shift as int, n, d);
            lemma_round_magnitude_is(0, n, d);
        }
        return 0;
    }
    let mut a: u128 = num as u128;
    let mut b: u128 = den as u128;
    let mut t: i32 = 0;
    if shift >= 0 {
        t = shift;
    } else {
        let mut i: i32 = 0;
        let mut p: u128 = 1;
        proof {
            lemma2_to64();
        }
        while i < -shift
            invariant
                0 <= i <= -shift <= 64,
                p == pow2(i as nat),
                0 < p <= 0x1_0000_0000_0000_0000,
            decreases -shift - i,
        {
            proof {
                lemma_pow2_unfold((i + 1) as nat);
                lemma2_to64();
                if i + 1 < 64 {
                    lemma_pow2_strictly_increases((i + 1) as nat, 64);
                }
            }
            p = p * 2;
            i = i + 1;
        }
        assert(den * p <= 0xffff_ffff * 0x1_0000_0000_0000_0000) by (nonlinear_arith)
            requires
                den <= 0xffff_ffff,
                p <= 0x1_0000_0000_0000_0000,
        ;
        b = b * p;
        assert(b > 0) by (nonlinear_arith)
            requires
                b == den * p,
                den > 0,
                p > 0,
        ;
    }
    let ghost mut g: int = d * pow2(t as nat);
    let ghost start = t;
    let ghost mut c: nat = 0;
    proof {
        lemma2_to64();
        if shift < 0 {
            assert(g == d) by (nonlinear_arith)
                requires
                    g == d * 1,
            ;
        }
    }
    while a / 0x100_0000 >= b
        invariant
            a == num,
            b > 0,
            d > 0,
            0 <= start <= 1000,
            t == start + c,
            c <= 64,
            b >= pow2(c),
            b <= 0xffff_ffff * 0x1_0000_0000_0000_0000,
            t > 0 ==> b < 0x200_0000_0000,
            g == d * pow2(t as nat),
            a * g == n * b,
        decreases 0x1_0000_0000_0000_0000 - b,
    {
        proof {
            lemma_pow2_unfold((t + 1) as nat);
            assert(a * (2 * g) == n * (2 * b)) by (nonlinear_arith)
                requires
                    a * g == n * b,
            ;
            assert(d * (2 * pow2(t as nat)) == 2 * g) by (nonlinear_arith)
                requires
                    g == d * pow2(t as nat),
            ;
            g = 2 * g;
            lemma_pow2_unfold(c + 1);
            lemma2_to64();
            if c + 1 > 64 {
                lemma_pow2_strictly_increases(64, c + 1);
            }
            c = c + 1;
        }
        b = b * 2;
        t = t + 1;
    }
    while t > 0 && a / 0x80_0000 < b
        invariant
            0 < a < 0x100_0000 * b,
            b > 0,
            d > 0,
            0 <= t <= 1000 + 64,
            t > 0 ==> b < 0x200_0000_0000,
            g == d * pow2(t as nat),
            a * g == n * b,
        decreases t,
    {
        proof {
            lemma_pow2_unfold(t as nat);
            let h = d * pow2((t - 1) as nat);
            assert(2 * h == g) by (nonlinear_arith)
                requires
                    h == d * pow2((t - 1) as nat),
                    g == d * (2 * pow2((t - 1) as nat)),
            ;
            assert((2 * a) * h == n * b) by (nonlinear_arith)
                requires
                    a * g == n * b,
                    2 * h == g,
            ;
            g = h;
        }
        a = a * 2;
        t = t - 1;
    }
    proof {
        lemma_round_quotient(a as int, b as int, t as nat, n, d);
    }
    if t >= 254 {
        proof {
            lemma_round_magnitude_is(0x7f80_0000, n, d);
        }
        return 0x7f80_0000;
    }
    let q: u128 = a / b;
    let r: u128 = a % b;
    let below: u32 = (t as u32) * 0x80_0000 + (q as u32);
    let k = if 2 * r > b || (2 * r == b && q % 2 == 1) {
        below + 1
    } else {
        below
    };
    proof {
        lemma_round_magnitude_is(k as int, n, d);
    }
    k
}

} // verus!
