//! The settings of a scene, built step by step.
use vstd::prelude::*;
use crate::float::{F32, ONE_BITS, TWO_BITS};
use crate::resources::{ParallaxConfig, ParallaxContext};

verus! {

/// The settings from which a scene is set up.
#[derive(Clone, Copy, Debug)]
pub struct ParallaxPlugin(pub ParallaxConfig);

impl ParallaxPlugin {
    /// The settings of a scene between the two depths: scale 1, and the
    /// neutral depth halfway between them.
    pub open spec fn between(near_depth: F32, far_depth: F32) -> ParallaxPlugin {
        ParallaxPlugin(
            ParallaxConfig {
                scale: F32 { bits: ONE_BITS },
                near_depth,
                neutral_depth: near_depth.sum(far_depth).quotient(F32 { bits: TWO_BITS }),
                far_depth,
            },
        )
    }

    /// The settings of a scene between the given parallax depths.
    ///
    /// The near depth must not be at or above the far depth.
    pub fn new(near_depth: F32, far_depth: F32) -> (r: Self)
        requires
            !near_depth.at_least(far_depth),
        ensures
            r == Self::between(near_depth, far_depth),
    {
        ParallaxPlugin(
            ParallaxConfig {
                scale: F32::one(),
                near_depth,
                neutral_depth: (near_depth + far_depth) / F32::two(),
                far_depth,
            },
        )
    }

    /// Whether `new` accepts the two depths.
    pub fn accepts(near_depth: F32, far_depth: F32) -> (r: bool)
        ensures
            r == !near_depth.at_least(far_depth),
    {
        !(near_depth >= far_depth)
    }

    /// Sets the depth at which a layer shows no parallax.
    pub fn set_neutral_depth(self, neutral_depth: F32) -> (r: Self)
        ensures
            r == ParallaxPlugin(ParallaxConfig { neutral_depth, ..self.0 }),
    {
        let mut config = self.0;
        config.neutral_depth = neutral_depth;
        ParallaxPlugin(config)
    }

    /// Sets what every scroll factor is multiplied by.
    pub fn set_scale(self, scale: F32) -> (r: Self)
        ensures
            r == ParallaxPlugin(ParallaxConfig { scale, ..self.0 }),
    {
        let mut config = self.0;
        config.scale = scale;
        ParallaxPlugin(config)
    }

    /// The context of the scene that these settings describe.
    pub fn context(&self) -> (r: ParallaxContext)
        ensures
            r == ParallaxContext::from_config(self.0),
    {
        ParallaxContext::new(self.0)
    }
}

impl Default for ParallaxPlugin {
    fn default() -> (r: Self)
        ensures
            r == ParallaxPlugin(ParallaxConfig::initial()),
    {
        ParallaxPlugin(ParallaxConfig::default())
    }
}

} // verus!
