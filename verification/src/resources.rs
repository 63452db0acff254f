//! The depth range of a scene, and the scroll factor that follows from it.
use vstd::prelude::*;
use vstd::arithmetic::power2::{pow2, lemma_pow2_pos};
use crate::float::{F32, ZERO_BITS, ONE_BITS, scaled, lemma_scaled_nonnegative};
use crate::float::monotone::{lemma_distance_order, lemma_quotient_order, lemma_product_order};
use crate::float::rounding::lemma_round_zero;
use crate::float::exact::{lemma_minus_zero, lemma_divided_by_itself, lemma_times_one};

verus! {

/// The pattern of -10.0, the near depth of a scene that names none.
pub const DEFAULT_NEAR_BITS: u32 = 0xc120_0000;

/// The pattern of 100.0, the far depth of a scene that names none.
pub const DEFAULT_FAR_BITS: u32 = 0x42c8_0000;

/// The pattern of 0.0, the factor of a layer at or beyond the far depth.
pub const DEPTH_FACTOR_MIN_BITS: u32 = 0x0000_0000;

/// The pattern of 100.0, the factor of a layer at or before the near depth.
pub const DEPTH_FACTOR_MAX_BITS: u32 = 0x42c8_0000;

/// The depth range of a scene, as its author gives it.
///
/// In these depths a layer below the neutral depth lies in front of the
/// neutral plane and a layer above it lies behind.
#[derive(Clone, Copy, Debug)]
pub struct ParallaxConfig {
    /// What every scroll factor is multiplied by.
    pub scale: F32,
    pub near_depth: F32,
    /// The depth at which a layer shows no parallax.
    pub neutral_depth: F32,
    pub far_depth: F32,
}

impl ParallaxConfig {
    /// The depth on the other side of the conversion between parallax depth
    /// and world depth: the neutral depth minus the given one.
    pub open spec fn converted(self, depth: F32) -> F32 {
        self.neutral_depth.difference(depth)
    }

    /// What `default` returns: scale 1, near depth -10, neutral depth 0, far depth 100.
    pub open spec fn initial() -> ParallaxConfig {
        ParallaxConfig {
            scale: F32 { bits: ONE_BITS },
            near_depth: F32 { bits: DEFAULT_NEAR_BITS },
            neutral_depth: F32 { bits: ZERO_BITS },
            far_depth: F32 { bits: DEFAULT_FAR_BITS },
        }
    }

    /// Converts a depth between parallax depth and world depth.
    ///
    /// World depth grows towards the camera and is counted from the neutral
    /// plane, so the conversion is the same in both directions.
    pub fn convert_depth(config: Self, depth: F32) -> (r: F32)
        ensures
            r == config.converted(depth),
    {
        config.neutral_depth - depth
    }
}

impl Default for ParallaxConfig {
    fn default() -> (r: Self)
        ensures
            r == ParallaxConfig::initial(),
    {
        ParallaxConfig {
            scale: F32::one(),
            near_depth: F32::from_bits(DEFAULT_NEAR_BITS),
            neutral_depth: F32::zero(),
            far_depth: F32::from_bits(DEFAULT_FAR_BITS),
        }
    }
}

/// The depth range of a scene in world depth, from which scroll factors are computed.
#[derive(Clone, Copy, Debug)]
pub struct ParallaxContext(pub ParallaxConfig);

impl ParallaxContext {
    /// The context of a configuration: where the near depth is below the far
    /// depth, both are taken for parallax depths and converted to world depth;
    /// otherwise they are taken as they are.
    pub open spec fn from_config(config: ParallaxConfig) -> ParallaxContext {
        if config.near_depth.less_than(config.far_depth) {
            ParallaxContext(
                ParallaxConfig {
                    scale: config.scale,
                    near_depth: config.converted(config.near_depth),
                    neutral_depth: config.neutral_depth,
                    far_depth: config.converted(config.far_depth),
                },
            )
        } else {
            ParallaxContext(config)
        }
    }

    /// The scroll factor of a layer at the given world depth, before scaling:
    /// the smallest factor at or beyond the far depth, else the largest factor
    /// at or before the near depth, else the near depth over the layer's
    /// distance from it.
    pub open spec fn unscaled_factor(self, world_depth: F32) -> F32 {
        if world_depth.at_most(self.0.far_depth) {
            F32 { bits: DEPTH_FACTOR_MIN_BITS }
        } else if world_depth.at_least(self.0.near_depth) {
            F32 { bits: DEPTH_FACTOR_MAX_BITS }
        } else {
            self.0.near_depth.quotient(self.0.near_depth.difference(world_depth))
        }
    }

    /// The scroll factor of a layer at the given world depth.
    pub open spec fn depth_factor(self, world_depth: F32) -> F32 {
        self.unscaled_factor(world_depth).product(self.0.scale)
    }

    /// The factor of a layer that never moves, 0.
    pub fn depth_factor_min() -> (r: F32)
        ensures
            r.bits == DEPTH_FACTOR_MIN_BITS,
    {
        F32::from_bits(DEPTH_FACTOR_MIN_BITS)
    }

    /// The largest factor before scaling, 100.
    pub fn depth_factor_max() -> (r: F32)
        ensures
            r.bits == DEPTH_FACTOR_MAX_BITS,
    {
        F32::from_bits(DEPTH_FACTOR_MAX_BITS)
    }

    pub fn new(config: ParallaxConfig) -> (r: Self)
        ensures
            r == Self::from_config(config),
    {
        let mut config = config;
        if config.near_depth < config.far_depth {
            config.near_depth = ParallaxConfig::convert_depth(config, config.near_depth);
            config.far_depth = ParallaxConfig::convert_depth(config, config.far_depth);
        }
        ParallaxContext(config)
    }

    /// Converts a depth between parallax depth and world depth.
    pub fn convert_depth(&self, depth: F32) -> (r: F32)
        ensures
            r == self.0.converted(depth),
    {
        ParallaxConfig::convert_depth(self.0, depth)
    }

    /// What every scroll factor is multiplied by.
    pub fn scale(&self) -> (r: F32)
        ensures
            r == self.0.scale,
    {
        self.0.scale
    }

    /// The scroll factor of a layer at the given world depth.
    pub fn calculate_depth_factor(&self, world_depth: F32) -> (r: F32)
        ensures
            r == self.depth_factor(world_depth),
            world_depth.at_most(self.0.far_depth) ==> r == (F32 {
                bits: DEPTH_FACTOR_MIN_BITS,
            }).product(self.0.scale),
            !world_depth.at_most(self.0.far_depth) && world_depth.at_least(self.0.near_depth) ==> r
                == (F32 { bits: DEPTH_FACTOR_MAX_BITS }).product(self.0.scale),
    {
        let factor = if world_depth <= self.0.far_depth {
            Self::depth_factor_min()
        } else if world_depth >= self.0.near_depth {
            Self::depth_factor_max()
        } else {
            self.0.near_depth / (self.0.near_depth - world_depth)
        };
        factor * self.0.scale
    }
}

/// At or beyond the far depth the factor is the smallest factor times the
/// scale, which is zero for every finite scale; at or before the near depth,
/// and not beyond the far one, it is the largest factor times the scale.
pub proof fn lemma_depth_factor_clamped(context: ParallaxContext, world_depth: F32)
    ensures
        world_depth.at_most(context.0.far_depth) ==> context.depth_factor(world_depth) == (F32 {
            bits: DEPTH_FACTOR_MIN_BITS,
        }).product(context.0.scale),
        world_depth.at_most(context.0.far_depth) && context.0.scale.is_finite()
            ==> context.depth_factor(world_depth).is_zero(),
        !world_depth.at_most(context.0.far_depth) && world_depth.at_least(context.0.near_depth)
            ==> context.depth_factor(world_depth) == (F32 { bits: DEPTH_FACTOR_MAX_BITS }).product(
            context.0.scale,
        ),
{
    let b = scaled(context.0.scale.magnitude());
    lemma_scaled_nonnegative(0);
    lemma_pow2_pos(149);
    assert(0 * b == 0);
    lemma_round_zero(pow2(149) as int);
}

/// Between the far depth and a finite near depth the factor is monotone in
/// the world depth, for every finite scale other than zero. Where the near
/// depth and the scale have the same sign the factor of the greater depth is
/// the greater one; where their signs differ it is the lesser one.
pub proof fn lemma_depth_factor_order(context: ParallaxContext, lower: F32, upper: F32)
    requires
        context.0.near_depth.is_finite(),
        context.0.scale.is_finite(),
        !context.0.scale.is_zero(),
        lower.at_most(upper),
        !lower.at_most(context.0.far_depth),
        upper.less_than(context.0.near_depth),
    ensures
        context.0.near_depth.is_negative() == context.0.scale.is_negative()
            ==> context.depth_factor(lower).at_most(context.depth_factor(upper)),
        context.0.near_depth.is_negative() != context.0.scale.is_negative()
            ==> context.depth_factor(upper).at_most(context.depth_factor(lower)),
{
    let near = context.0.near_depth;
    let scale = context.0.scale;
    assert(!upper.at_most(context.0.far_depth));
    assert(!lower.at_least(near));
    assert(!upper.at_least(near));
    lemma_distance_order(near, lower, upper);
    let far_side = near.difference(lower);
    let near_side = near.difference(upper);
    lemma_quotient_order(near, far_side, near_side);
    assert(context.unscaled_factor(lower) == near.quotient(far_side));
    assert(context.unscaled_factor(upper) == near.quotient(near_side));
    if near.is_negative() {
        lemma_product_order(near.quotient(near_side), near.quotient(far_side), scale);
    } else {
        lemma_product_order(near.quotient(far_side), near.quotient(near_side), scale);
    }
}

/// On the neutral plane, world depth zero, the factor is the scale itself,
/// wherever that plane lies between the far depth and a finite near depth.
pub proof fn lemma_neutral_plane_factor(context: ParallaxContext)
    requires
        context.0.near_depth.is_finite(),
        (F32 { bits: ZERO_BITS }).less_than(context.0.near_depth),
        !(F32 { bits: ZERO_BITS }).at_most(context.0.far_depth),
        !context.0.scale.is_nan(),
    ensures
        context.unscaled_factor(F32 { bits: ZERO_BITS }) == (F32 { bits: ONE_BITS }),
        context.depth_factor(F32 { bits: ZERO_BITS }) == context.0.scale,
{
    let near = context.0.near_depth;
    lemma_scaled_nonnegative(0);
    lemma_scaled_nonnegative(near.magnitude());
    lemma_minus_zero(near);
    lemma_divided_by_itself(near);
    lemma_times_one(context.0.scale);
}

} // verus!
