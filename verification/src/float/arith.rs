//! Negation, addition, subtraction, multiplication and division.
//!
//! Each operation returns the rounding of the exact result of its operands'
//! values. What the operators `-`, `+`, `*` and `/` return is stated by the
//! spec functions `negation`, `sum`, `difference`, `product` and
//! `quotient`. Every not-a-number result is the one pattern `NAN_BITS`.
use vstd::prelude::*;
use vstd::arithmetic::power2::{
    pow2, lemma_pow2_pos, lemma_pow2_adds, lemma_pow2_unfold, lemma_pow2_strictly_increases,
    lemma2_to64, lemma2_to64_rest,
};
use vstd::bits::lemma_u64_shl_is_mul;
use crate::float::{
    F32, INFINITY_MAGNITUDE, NAN_BITS, decode, scaled, exponent, significand,
    lemma_magnitude_parts, lemma_scaled_step, lemma_scaled_nonnegative,
};
use crate::float::rounding::{
    round_magnitude, is_rounding_of, round_ratio, lemma_round_magnitude_is,
};

verus! {

impl F32 {
    /// The rounding of the quotient `n / d` of units, with the given sign.
    pub open spec fn rounded(negative: bool, n: int, d: int) -> F32 {
        F32::compose(negative, round_magnitude(n, d))
    }

    /// Zero with the given sign.
    pub open spec fn signed_zero(negative: bool) -> F32 {
        F32::compose(negative, 0)
    }

    /// Infinity with the given sign.
    pub open spec fn signed_infinity(negative: bool) -> F32 {
        F32::compose(negative, 0x7f80_0000)
    }

    /// The same magnitude with the other sign.
    pub open spec fn negation(self) -> F32 {
        F32::compose(!self.is_negative(), self.magnitude())
    }

    /// The rounded sum. Infinities of opposite sign have no sum; an exact sum
    /// of zero is negative only where both operands are.
    pub open spec fn sum(self, rhs: F32) -> F32 {
        if self.is_nan() || rhs.is_nan() {
            F32::nan()
        } else if self.is_infinite() {
            if rhs.is_infinite() && self.is_negative() != rhs.is_negative() {
                F32::nan()
            } else {
                self
            }
        } else if rhs.is_infinite() {
            rhs
        } else {
            let sum = self.units() + rhs.units();
            if sum == 0 {
                F32::signed_zero(self.is_negative() && rhs.is_negative())
            } else if sum < 0 {
                F32::rounded(true, -sum, 1)
            } else {
                F32::rounded(false, sum, 1)
            }
        }
    }

    /// The sum of the first operand and the negated second.
    pub open spec fn difference(self, rhs: F32) -> F32 {
        self.sum(rhs.negation())
    }

    /// The rounded product, negative where the signs differ. Zero times
    /// infinity has no product.
    pub open spec fn product(self, rhs: F32) -> F32 {
        let negative = self.is_negative() != rhs.is_negative();
        if self.is_nan() || rhs.is_nan() {
            F32::nan()
        } else if self.is_infinite() || rhs.is_infinite() {
            if self.is_zero() || rhs.is_zero() {
                F32::nan()
            } else {
                F32::signed_infinity(negative)
            }
        } else {
            F32::rounded(
                negative,
                scaled(self.magnitude()) * scaled(rhs.magnitude()),
                pow2(149) as int,
            )
        }
    }

    /// The rounded quotient, negative where the signs differ. Zero by zero and
    /// infinity by infinity have no quotient; any other number by zero is
    /// infinite.
    pub open spec fn quotient(self, rhs: F32) -> F32 {
        let negative = self.is_negative() != rhs.is_negative();
        if self.is_nan() || rhs.is_nan() {
            F32::nan()
        } else if self.is_infinite() {
            if rhs.is_infinite() {
                F32::nan()
            } else {
                F32::signed_infinity(negative)
            }
        } else if rhs.is_infinite() {
            F32::signed_zero(negative)
        } else if rhs.is_zero() {
            if self.is_zero() {
                F32::nan()
            } else {
                F32::signed_infinity(negative)
            }
        } else {
            F32::rounded(negative, scaled(self.magnitude()) * pow2(149), scaled(rhs.magnitude()))
        }
    }
}

impl vstd::std_specs::ops::NegSpecImpl for F32 {
    open spec fn obeys_neg_spec() -> bool {
        true
    }

    open spec fn neg_req(self) -> bool {
        true
    }

    open spec fn neg_spec(self) -> F32 {
        self.negation()
    }
}

impl vstd::std_specs::ops::AddSpecImpl for F32 {
    open spec fn obeys_add_spec() -> bool {
        true
    }

    open spec fn add_req(self, rhs: F32) -> bool {
        true
    }

    open spec fn add_spec(self, rhs: F32) -> F32 {
        self.sum(rhs)
    }
}

impl vstd::std_specs::ops::SubSpecImpl for F32 {
    open spec fn obeys_sub_spec() -> bool {
        true
    }

    open spec fn sub_req(self, rhs: F32) -> bool {
        true
    }

    open spec fn sub_spec(self, rhs: F32) -> F32 {
        self.difference(rhs)
    }
}

impl vstd::std_specs::ops::MulSpecImpl for F32 {
    open spec fn obeys_mul_spec() -> bool {
        true
    }

    open spec fn mul_req(self, rhs: F32) -> bool {
        true
    }

    open spec fn mul_spec(self, rhs: F32) -> F32 {
        self.product(rhs)
    }
}

impl vstd::std_specs::ops::DivSpecImpl for F32 {
    open spec fn obeys_div_spec() -> bool {
        true
    }

    open spec fn div_req(self, rhs: F32) -> bool {
        true
    }

    open spec fn div_spec(self, rhs: F32) -> F32 {
        self.quotient(rhs)
    }
}

/// A significand times a small power of two.
fn shift_left(m: u32, e: u32) -> (v: u64)
    requires
        m < 0x100_0000,
        e <= 38,
    ensures
        v == m * pow2(e as nat),
        v < 0x4000_0000_0000_0000,
{
    proof {
        lemma2_to64();
        lemma2_to64_rest();
        if e < 38 {
            lemma_pow2_strictly_increases(e as nat, 38);
        }
        assert(m * pow2(e as nat) < 0x100_0000 * 0x40_0000_0000) by (nonlinear_arith)
            requires
                0 <= m < 0x100_0000,
                0 < pow2(e as nat) <= 0x40_0000_0000,
        ;
        lemma_u64_shl_is_mul(m as u64, e as u64);
    }
    (m as u64) << (e as u64)
}

/// A number whose exponent exceeds another's by more than 38 absorbs it:
/// their sum and their difference round to the larger number.
proof fn lemma_absorbs(kx: int, ky: int)
    requires
        0 <= ky,
        0 <= kx < 0x7f80_0000,
        exponent(kx) > exponent(ky) + 38,
    ensures
        scaled(ky) < scaled(kx),
        is_rounding_of(kx, scaled(kx) + scaled(ky), 1),
        is_rounding_of(kx, scaled(kx) - scaled(ky), 1),
{
    let ex = exponent(kx);
    let ey = exponent(ky);
    let b = scaled(ky);
    lemma_magnitude_parts(kx);
    lemma_magnitude_parts(ky);
    lemma_scaled_nonnegative(ky);
    lemma_pow2_pos(ey);
    lemma_pow2_adds(ey, (ex - 1 - ey) as nat);
    lemma2_to64();
    lemma2_to64_rest();
    if ex - 1 - ey > 38 {
        lemma_pow2_strictly_increases(38, (ex - 1 - ey) as nat);
    }
    let low = pow2((ex - 1) as nat) as int;
    assert(2 * b < low) by (nonlinear_arith)
        requires
            b == significand(ky) * pow2(ey),
            0 <= significand(ky) < 0x100_0000,
            pow2(ey) > 0,
            low == pow2(ey) * pow2((ex - 1 - ey) as nat),
            pow2((ex - 1 - ey) as nat) >= 0x40_0000_0000,
    ;
    lemma_pow2_unfold(ex);
    lemma_scaled_step(kx);
    lemma_scaled_step(kx - 1);
    let ew = exponent(kx - 1);
    assert(ew == ex - 1 || ew == ex);
    assert(pow2(ew) >= low);
    lemma_scaled_nonnegative(kx - 1);
}

/// The sum of two numbers.
fn compute_sum(x: F32, y: F32) -> (r: F32)
    ensures
        r == x.sum(y),
{
    let kx = x.magnitude_bits();
    let ky = y.magnitude_bits();
    let nx = x.is_sign_negative();
    let ny = y.is_sign_negative();
    if kx > INFINITY_MAGNITUDE || ky > INFINITY_MAGNITUDE {
        return F32 { bits: NAN_BITS };
    }
    if kx == INFINITY_MAGNITUDE {
        if ky == INFINITY_MAGNITUDE && nx != ny {
            return F32 { bits: NAN_BITS };
        }
        return x;
    }
    if ky == INFINITY_MAGNITUDE {
        return y;
    }
    let (mx, ex) = decode(kx);
    let (my, ey) = decode(ky);
    let ghost total = x.units() + y.units();
    if ex > ey + 38 {
        proof {
            lemma_absorbs(kx as int, ky as int);
            lemma_scaled_nonnegative(ky as int);
            let n = if total < 0 { -total } else { total };
            lemma_round_magnitude_is(kx as int, n, 1);
        }
        return x;
    }
    if ey > ex + 38 {
        proof {
            lemma_absorbs(ky as int, kx as int);
            lemma_scaled_nonnegative(kx as int);
            let n = if total < 0 { -total } else { total };
            lemma_round_magnitude_is(ky as int, n, 1);
        }
        return y;
    }
    let low = if ex < ey { ex } else { ey };
    let vx = shift_left(mx, ex - low);
    let vy = shift_left(my, ey - low);
    let ghost unit = pow2(low as nat) as int;
    proof {
        lemma_pow2_pos(low as nat);
        lemma_pow2_adds((ex - low) as nat, low as nat);
        lemma_pow2_adds((ey - low) as nat, low as nat);
        assert(scaled(kx as int) == vx * unit) by (nonlinear_arith)
            requires
                scaled(kx as int) == mx * pow2(ex as nat),
                vx == mx * pow2((ex - low) as nat),
                pow2(ex as nat) == pow2((ex - low) as nat) * unit,
        ;
        assert(scaled(ky as int) == vy * unit) by (nonlinear_arith)
            requires
                scaled(ky as int) == my * pow2(ey as nat),
                vy == my * pow2((ey - low) as nat),
                pow2(ey as nat) == pow2((ey - low) as nat) * unit,
        ;
    }
    let (negative, v): (bool, u64) = if nx == ny {
        (nx, vx + vy)
    } else if vx >= vy {
        (nx, vx - vy)
    } else {
        (ny, vy - vx)
    };
    proof {
        let signed: int = if negative { -(v as int) } else { v as int };
        assert(total == signed * unit) by (nonlinear_arith)
            requires
                total == (if nx {
                    -(vx * unit)
                } else {
                    vx * unit
                }) + (if ny {
                    -(vy * unit)
                } else {
                    vy * unit
                }),
                signed == (if nx {
                    -(vx as int)
                } else {
                    vx as int
                }) + (if ny {
                    -(vy as int)
                } else {
                    vy as int
                }),
        ;
        assert(v == 0 ==> total == 0) by (nonlinear_arith)
            requires
                total == signed * unit,
                signed == 0 <==> v == 0,
        ;
        assert(v != 0 ==> (negative ==> total == -(v * unit)) && (!negative ==> total == v * unit)
            && v * unit > 0) by (nonlinear_arith)
            requires
                total == signed * unit,
                signed == (if negative { -(v as int) } else { v as int }),
                unit > 0,
                v >= 0,
        ;
    }
    if v == 0 {
        return F32::pack(nx && ny, 0);
    }
    let ghost n: int = v * unit;
    proof {
        assert(v * (1 * unit) == n * 1) by (nonlinear_arith)
            requires
                n == v * unit,
        ;
    }
    let k = round_ratio(v, 1, low as i32, Ghost(n), Ghost(1));
    F32::pack(negative, k)
}

/// The product of two numbers.
fn compute_product(x: F32, y: F32) -> (r: F32)
    ensures
        r == x.product(y),
{
    let kx = x.magnitude_bits();
    let ky = y.magnitude_bits();
    let negative = x.is_sign_negative() != y.is_sign_negative();
    if kx > INFINITY_MAGNITUDE || ky > INFINITY_MAGNITUDE {
        return F32 { bits: NAN_BITS };
    }
    if kx == INFINITY_MAGNITUDE || ky == INFINITY_MAGNITUDE {
        if kx == 0 || ky == 0 {
            return F32 { bits: NAN_BITS };
        }
        return F32::pack(negative, INFINITY_MAGNITUDE);
    }
    let (mx, ex) = decode(kx);
    let (my, ey) = decode(ky);
    assert(mx * my <= 0xff_ffff * 0xff_ffff) by (nonlinear_arith)
        requires
            mx <= 0xff_ffff,
            my <= 0xff_ffff,
    ;
    let num: u64 = (mx as u64) * (my as u64);
    let shift: i32 = (ex as i32) + (ey as i32) - 149;
    let ghost n = scaled(kx as int) * scaled(ky as int);
    let ghost d = pow2(149) as int;
    proof {
        let px = pow2(ex as nat) as int;
        let py = pow2(ey as nat) as int;
        lemma_pow2_pos(149);
        lemma_pow2_pos(ex as nat);
        lemma_pow2_pos(ey as nat);
        lemma_pow2_adds(ex as nat, ey as nat);
        assert(n == num * (px * py)) by (nonlinear_arith)
            requires
                n == (mx * px) * (my * py),
                num == mx * my,
        ;
        assert(n >= 0) by (nonlinear_arith)
            requires
                n == num * (px * py),
                num >= 0,
                px > 0,
                py > 0,
        ;
        if shift >= 0 {
            lemma_pow2_adds(149, shift as nat);
        } else {
            let pm = pow2((-shift) as nat) as int;
            lemma_pow2_adds((ex + ey) as nat, (-shift) as nat);
            assert(num * d == n * (1 * pm)) by (nonlinear_arith)
                requires
                    n == num * (px * py),
                    d == (px * py) * pm,
            ;
        }
    }
    let k = round_ratio(num, 1, shift, Ghost(n), Ghost(d));
    F32::pack(negative, k)
}

/// The quotient of two numbers.
fn compute_quotient(x: F32, y: F32) -> (r: F32)
    ensures
        r == x.quotient(y),
{
    let kx = x.magnitude_bits();
    let ky = y.magnitude_bits();
    let negative = x.is_sign_negative() != y.is_sign_negative();
    if kx > INFINITY_MAGNITUDE || ky > INFINITY_MAGNITUDE {
        return F32 { bits: NAN_BITS };
    }
    if kx == INFINITY_MAGNITUDE {
        if ky == INFINITY_MAGNITUDE {
            return F32 { bits: NAN_BITS };
        }
        return F32::pack(negative, INFINITY_MAGNITUDE);
    }
    if ky == INFINITY_MAGNITUDE {
        return F32::pack(negative, 0);
    }
    if ky == 0 {
        if kx == 0 {
            return F32 { bits: NAN_BITS };
        }
        return F32::pack(negative, INFINITY_MAGNITUDE);
    }
    let (mx, ex) = decode(kx);
    let (my, ey) = decode(ky);
    let shift: i32 = (ex as i32) - (ey as i32) + 149;
    let ghost n = scaled(kx as int) * pow2(149);
    let ghost d = scaled(ky as int);
    proof {
        let px = pow2(ex as nat) as int;
        let py = pow2(ey as nat) as int;
        let c = pow2(149) as int;
        lemma_pow2_pos(149);
        lemma_pow2_pos(ex as nat);
        lemma_pow2_pos(ey as nat);
        lemma_scaled_nonnegative(ky as int);
        lemma_scaled_nonnegative(kx as int);
        assert(n >= 0) by (nonlinear_arith)
            requires
                n == scaled(kx as int) * c,
                scaled(kx as int) >= 0,
                c > 0,
        ;
        if shift >= 0 {
            let ps = pow2(shift as nat) as int;
            lemma_pow2_adds(ey as nat, shift as nat);
            lemma_pow2_adds(ex as nat, 149);
            assert(mx * (d * ps) == n * my) by (nonlinear_arith)
                requires
                    n == (mx * px) * c,
                    d == my * py,
                    py * ps == px * c,
            ;
        } else {
            let pm = pow2((-shift) as nat) as int;
            lemma_pow2_adds(ex as nat, 149);
            lemma_pow2_adds((ex + 149) as nat, (-shift) as nat);
            assert(mx * d == n * (my * pm)) by (nonlinear_arith)
                requires
                    n == (mx * px) * c,
                    d == my * py,
                    py == (px * c) * pm,
            ;
        }
    }
    let k = round_ratio(mx as u64, my, shift, Ghost(n), Ghost(d));
    F32::pack(negative, k)
}

impl std::ops::Neg for F32 {
    type Output = F32;

    fn neg(self) -> (r: F32) {
        F32::pack(!self.is_sign_negative(), self.magnitude_bits())
    }
}

impl std::ops::Add for F32 {
    type Output = F32;

    fn add(self, rhs: F32) -> (r: F32) {
        compute_sum(self, rhs)
    }
}

impl std::ops::Sub for F32 {
    type Output = F32;

    fn sub(self, rhs: F32) -> (r: F32) {
        compute_sum(self, F32::pack(!rhs.is_sign_negative(), rhs.magnitude_bits()))
    }
}

impl std::ops::Mul for F32 {
    type Output = F32;

    fn mul(self, rhs: F32) -> (r: F32) {
        compute_product(self, rhs)
    }
}

impl std::ops::Div for F32 {
    type Output = F32;

    fn div(self, rhs: F32) -> (r: F32) {
        compute_quotient(self, rhs)
    }
}

} // verus!
