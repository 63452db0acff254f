//! The depth of a layer, as its author gives it or as the scene has resolved it.
use vstd::prelude::*;
use std::cmp::Ordering;
use crate::float::{F32, ZERO_BITS};
use crate::float::exact::lemma_minus_itself;
use crate::resources::{ParallaxContext, lemma_neutral_plane_factor};

verus! {

/// The two forms of a depth.
#[derive(Clone, Copy, Debug)]
pub enum DepthType {
    /// A parallax depth, which no scene has resolved yet.
    Parallax(F32),
    /// A world depth with the scroll factor that belongs to it.
    WorldWithFactor(F32, F32),
}

/// The depth of a layer.
///
/// A parallax depth is counted against the neutral depth of the scene: a
/// layer below it is drawn in front, a layer above it behind. A world depth is
/// the layer's position on the axis that the camera looks along, and comes
/// with the factor by which the layer scrolls.
///
/// Depths of different forms are never equal and never ordered.
#[derive(Clone, Copy, Debug)]
pub struct Depth(pub DepthType);

impl Depth {
    /// Whether the depth is a world depth with a factor.
    pub open spec fn is_resolved(self) -> bool {
        self.0 is WorldWithFactor
    }

    /// The depth itself, whatever its form.
    pub open spec fn value(self) -> F32 {
        match self.0 {
            DepthType::Parallax(depth) => depth,
            DepthType::WorldWithFactor(depth, _) => depth,
        }
    }

    /// The scroll factor, which only a resolved depth has.
    pub open spec fn factor(self) -> Option<F32> {
        match self.0 {
            DepthType::Parallax(_) => None,
            DepthType::WorldWithFactor(_, factor) => Some(factor),
        }
    }

    /// The depth as a scene resolves it. A parallax depth becomes the world
    /// depth `neutral - depth` with the factor that the scene computes for
    /// it, which is where the scene's scale comes in; a resolved depth stays
    /// as it is.
    pub open spec fn resolve(self, context: ParallaxContext) -> Depth {
        match self.0 {
            DepthType::Parallax(depth) => {
                let world = context.0.converted(depth);
                Depth(DepthType::WorldWithFactor(world, context.depth_factor(world)))
            },
            DepthType::WorldWithFactor(_, _) => self,
        }
    }

    /// Equality: of the same form, and equal in depth.
    pub open spec fn equals(self, other: Depth) -> bool {
        self.is_resolved() == other.is_resolved() && self.value().equals(other.value())
    }

    /// Order: that of the depths, for two depths of the same form.
    pub open spec fn compare(self, other: Depth) -> Option<Ordering> {
        if self.is_resolved() == other.is_resolved() {
            self.value().compare(other.value())
        } else {
            None
        }
    }

    /// A parallax depth.
    pub fn from_parallax(depth: F32) -> (r: Self)
        ensures
            r == Depth(DepthType::Parallax(depth)),
    {
        Depth(DepthType::Parallax(depth))
    }

    /// A world depth with its factor, which no scene's scale is applied to.
    ///
    /// A factor of 1 keeps the layer still against the world, 0 keeps it still
    /// against the camera; larger factors are for layers in front of the
    /// neutral plane.
    pub fn from_world(depth: F32, factor: F32) -> (r: Self)
        ensures
            r == Depth(DepthType::WorldWithFactor(depth, factor)),
    {
        Depth(DepthType::WorldWithFactor(depth, factor))
    }

    /// The depth itself, whatever its form.
    pub fn depth(&self) -> (r: F32)
        ensures
            r == self.value(),
    {
        match self.0 {
            DepthType::Parallax(depth) => depth,
            DepthType::WorldWithFactor(depth, _) => depth,
        }
    }

    /// The scroll factor, if the depth is resolved.
    pub fn depth_factor(&self) -> (r: Option<F32>)
        ensures
            r == self.factor(),
    {
        match self.0 {
            DepthType::Parallax(_) => None,
            DepthType::WorldWithFactor(_, factor) => Some(factor),
        }
    }

    /// Resolves the depth in a scene.
    pub fn to_world_with_factor(self, context: &ParallaxContext) -> (r: Self)
        ensures
            r == self.resolve(*context),
            r.is_resolved(),
    {
        match self.0 {
            DepthType::Parallax(depth) => {
                let depth = context.convert_depth(depth);
                let factor = context.calculate_depth_factor(depth);
                Depth(DepthType::WorldWithFactor(depth, factor))
            },
            DepthType::WorldWithFactor(_, _) => self,
        }
    }
}

impl Default for Depth {
    /// The parallax depth 0.
    fn default() -> (r: Self)
        ensures
            r == Depth(DepthType::Parallax(F32 { bits: ZERO_BITS })),
    {
        Depth(DepthType::Parallax(F32::zero()))
    }
}

impl From<F32> for Depth {
    fn from(value: F32) -> (r: Self) {
        Depth::from_parallax(value)
    }
}

impl vstd::std_specs::convert::FromSpecImpl<F32> for Depth {
    open spec fn obeys_from_spec() -> bool {
        true
    }

    open spec fn from_spec(value: F32) -> Depth {
        Depth(DepthType::Parallax(value))
    }
}

impl PartialEq for Depth {
    fn eq(&self, other: &Depth) -> (r: bool) {
        match (self.0, other.0) {
            (DepthType::Parallax(lhs), DepthType::Parallax(rhs)) => lhs == rhs,
            (DepthType::WorldWithFactor(lhs, _), DepthType::WorldWithFactor(rhs, _)) => lhs == rhs,
            _ => false,
        }
    }
}

impl vstd::std_specs::cmp::PartialEqSpecImpl for Depth {
    open spec fn obeys_eq_spec() -> bool {
        true
    }

    open spec fn eq_spec(&self, other: &Depth) -> bool {
        self.equals(*other)
    }
}

impl PartialOrd for Depth {
    fn partial_cmp(&self, other: &Depth) -> (r: Option<Ordering>) {
        match (self.0, other.0) {
            (DepthType::Parallax(lhs), DepthType::Parallax(rhs)) => lhs.partial_cmp(&rhs),
            (DepthType::WorldWithFactor(lhs, _), DepthType::WorldWithFactor(rhs, _)) => {
                lhs.partial_cmp(&rhs)
            },
            _ => None,
        }
    }
}

impl vstd::std_specs::cmp::PartialOrdSpecImpl for Depth {
    open spec fn obeys_partial_cmp_spec() -> bool {
        true
    }

    open spec fn partial_cmp_spec(&self, other: &Depth) -> Option<Ordering> {
        self.compare(*other)
    }
}

/// Resolving is idempotent: a resolved depth resolves to itself, bit for bit,
/// and compares equal to itself unless its depth is a NaN.
pub proof fn lemma_resolve_idempotent(depth: Depth, context: ParallaxContext)
    ensures
        depth.resolve(context).resolve(context) == depth.resolve(context),
        !depth.resolve(context).value().is_nan() ==> depth.resolve(context).resolve(context).equals(
            depth.resolve(context),
        ),
{
}

/// A resolved depth and an unresolved one are not equal and not ordered,
/// whichever comes first and whatever their numbers are.
pub proof fn lemma_forms_do_not_compare(a: Depth, b: Depth)
    requires
        a.is_resolved() != b.is_resolved(),
    ensures
        !a.equals(b),
        !b.equals(a),
        a.compare(b) is None,
        b.compare(a) is None,
{
}

/// A layer at the neutral depth resolves to world depth zero, and its factor
/// is the scale of the scene.
pub proof fn lemma_neutral_depth_resolves(context: ParallaxContext)
    requires
        context.0.neutral_depth.is_finite(),
        context.0.near_depth.is_finite(),
        (F32 { bits: ZERO_BITS }).less_than(context.0.near_depth),
        !(F32 { bits: ZERO_BITS }).at_most(context.0.far_depth),
        !context.0.scale.is_nan(),
    ensures
        Depth(DepthType::Parallax(context.0.neutral_depth)).resolve(context) == Depth(
            DepthType::WorldWithFactor(F32 { bits: ZERO_BITS }, context.0.scale),
        ),
{
    lemma_minus_itself(context.0.neutral_depth);
    lemma_neutral_plane_factor(context);
}

} // verus!
