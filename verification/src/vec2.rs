//! Vectors of two and three numbers, with arithmetic by component.
use vstd::prelude::*;
use crate::float::F32;
use crate::float::{ZERO_BITS, ONE_BITS};

verus! {

/// A point or an extent on the screen.
#[derive(Clone, Copy, Debug)]
pub struct Vec2 {
    pub x: F32,
    pub y: F32,
}

/// A position on the screen together with a depth.
#[derive(Clone, Copy, Debug)]
pub struct Vec3 {
    pub x: F32,
    pub y: F32,
    pub z: F32,
}

impl Vec2 {
    /// The sum by component.
    pub open spec fn sum(self, rhs: Vec2) -> Vec2 {
        Vec2 { x: self.x.sum(rhs.x), y: self.y.sum(rhs.y) }
    }

    /// The difference by component.
    pub open spec fn difference(self, rhs: Vec2) -> Vec2 {
        Vec2 { x: self.x.difference(rhs.x), y: self.y.difference(rhs.y) }
    }

    /// Both components times one number.
    pub open spec fn scaled_by(self, rhs: F32) -> Vec2 {
        Vec2 { x: self.x.product(rhs), y: self.y.product(rhs) }
    }

    /// Both components divided by one number.
    pub open spec fn divided_by(self, rhs: F32) -> Vec2 {
        Vec2 { x: self.x.quotient(rhs), y: self.y.quotient(rhs) }
    }

    /// The quotient by component.
    pub open spec fn quotient(self, rhs: Vec2) -> Vec2 {
        Vec2 { x: self.x.quotient(rhs.x), y: self.y.quotient(rhs.y) }
    }

    /// The vector with a third component.
    pub open spec fn with_z(self, z: F32) -> Vec3 {
        Vec3 { x: self.x, y: self.y, z }
    }

    /// Equality of both components as values.
    pub open spec fn equals(self, other: Vec2) -> bool {
        self.x.equals(other.x) && self.y.equals(other.y)
    }

    pub fn new(x: F32, y: F32) -> (r: Vec2)
        ensures
            r == (Vec2 { x, y }),
    {
        Vec2 { x, y }
    }

    /// The vector with both components equal to `v`.
    pub fn splat(v: F32) -> (r: Vec2)
        ensures
            r == (Vec2 { x: v, y: v }),
    {
        Vec2 { x: v, y: v }
    }

    /// The vector (0, 0).
    pub fn zero() -> (r: Vec2)
        ensures
            r == (Vec2 { x: F32 { bits: ZERO_BITS }, y: F32 { bits: ZERO_BITS } }),
    {
        Vec2 { x: F32::zero(), y: F32::zero() }
    }

    /// The vector (1, 1).
    pub fn one() -> (r: Vec2)
        ensures
            r == (Vec2 { x: F32 { bits: ONE_BITS }, y: F32 { bits: ONE_BITS } }),
    {
        Vec2 { x: F32::one(), y: F32::one() }
    }

    /// The vector (1, 0).
    pub fn unit_x() -> (r: Vec2)
        ensures
            r == (Vec2 { x: F32 { bits: ONE_BITS }, y: F32 { bits: ZERO_BITS } }),
    {
        Vec2 { x: F32::one(), y: F32::zero() }
    }

    /// The vector (0, 1).
    pub fn unit_y() -> (r: Vec2)
        ensures
            r == (Vec2 { x: F32 { bits: ZERO_BITS }, y: F32 { bits: ONE_BITS } }),
    {
        Vec2 { x: F32::zero(), y: F32::one() }
    }

    /// Adds a third component.
    pub fn extend(self, z: F32) -> (r: Vec3)
        ensures
            r == self.with_z(z),
    {
        Vec3 { x: self.x, y: self.y, z }
    }
}

impl Vec3 {
    /// The first two components.
    pub open spec fn xy(self) -> Vec2 {
        Vec2 { x: self.x, y: self.y }
    }

    /// Equality of all components as values.
    pub open spec fn equals(self, other: Vec3) -> bool {
        self.x.equals(other.x) && self.y.equals(other.y) && self.z.equals(other.z)
    }

    pub fn new(x: F32, y: F32, z: F32) -> (r: Vec3)
        ensures
            r == (Vec3 { x, y, z }),
    {
        Vec3 { x, y, z }
    }

    /// Drops the third component.
    pub fn truncate(self) -> (r: Vec2)
        ensures
            r == self.xy(),
    {
        Vec2 { x: self.x, y: self.y }
    }
}

impl std::ops::Add for Vec2 {
    type Output = Vec2;

    fn add(self, rhs: Vec2) -> (r: Vec2) {
        Vec2 { x: self.x + rhs.x, y: self.y + rhs.y }
    }
}

impl vstd::std_specs::ops::AddSpecImpl for Vec2 {
    open spec fn obeys_add_spec() -> bool {
        true
    }

    open spec fn add_req(self, rhs: Vec2) -> bool {
        true
    }

    open spec fn add_spec(self, rhs: Vec2) -> Vec2 {
        self.sum(rhs)
    }
}

impl std::ops::Sub for Vec2 {
    type Output = Vec2;

    fn sub(self, rhs: Vec2) -> (r: Vec2) {
        Vec2 { x: self.x - rhs.x, y: self.y - rhs.y }
    }
}

impl vstd::std_specs::ops::SubSpecImpl for Vec2 {
    open spec fn obeys_sub_spec() -> bool {
        true
    }

    open spec fn sub_req(self, rhs: Vec2) -> bool {
        true
    }

    open spec fn sub_spec(self, rhs: Vec2) -> Vec2 {
        self.difference(rhs)
    }
}

impl std::ops::Mul<F32> for Vec2 {
    type Output = Vec2;

    fn mul(self, rhs: F32) -> (r: Vec2) {
        Vec2 { x: self.x * rhs, y: self.y * rhs }
    }
}

impl vstd::std_specs::ops::MulSpecImpl<F32> for Vec2 {
    open spec fn obeys_mul_spec() -> bool {
        true
    }

    open spec fn mul_req(self, rhs: F32) -> bool {
        true
    }

    open spec fn mul_spec(self, rhs: F32) -> Vec2 {
        self.scaled_by(rhs)
    }
}

impl std::ops::Div<F32> for Vec2 {
    type Output = Vec2;

    fn div(self, rhs: F32) -> (r: Vec2) {
        Vec2 { x: self.x / rhs, y: self.y / rhs }
    }
}

impl vstd::std_specs::ops::DivSpecImpl<F32> for Vec2 {
    open spec fn obeys_div_spec() -> bool {
        true
    }

    open spec fn div_req(self, rhs: F32) -> bool {
        true
    }

    open spec fn div_spec(self, rhs: F32) -> Vec2 {
        self.divided_by(rhs)
    }
}

impl std::ops::Div<Vec2> for Vec2 {
    type Output = Vec2;

    fn div(self, rhs: Vec2) -> (r: Vec2) {
        Vec2 { x: self.x / rhs.x, y: self.y / rhs.y }
    }
}

impl vstd::std_specs::ops::DivSpecImpl<Vec2> for Vec2 {
    open spec fn obeys_div_spec() -> bool {
        true
    }

    open spec fn div_req(self, rhs: Vec2) -> bool {
        true
    }

    open spec fn div_spec(self, rhs: Vec2) -> Vec2 {
        self.quotient(rhs)
    }
}

impl PartialEq for Vec2 {
    fn eq(&self, other: &Vec2) -> (r: bool) {
        self.x == other.x && self.y == other.y
    }
}

impl vstd::std_specs::cmp::PartialEqSpecImpl for Vec2 {
    open spec fn obeys_eq_spec() -> bool {
        true
    }

    open spec fn eq_spec(&self, other: &Vec2) -> bool {
        self.equals(*other)
    }
}

impl PartialEq for Vec3 {
    fn eq(&self, other: &Vec3) -> (r: bool) {
        self.x == other.x && self.y == other.y && self.z == other.z
    }
}

impl vstd::std_specs::cmp::PartialEqSpecImpl for Vec3 {
    open spec fn obeys_eq_spec() -> bool {
        true
    }

    open spec fn eq_spec(&self, other: &Vec3) -> bool {
        self.equals(*other)
    }
}

} // verus!
