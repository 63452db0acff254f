//! What the shader of a layer is told.
use vstd::prelude::*;
use crate::float::{F32, ZERO_BITS, ONE_BITS};
use crate::vec2::Vec2;

verus! {

/// The parameters of a layer's material.
#[derive(Clone, Copy, Debug)]
pub struct ParallaxMaterial {
    /// The scroll factor along each axis, per unit of the layer's drawn size.
    pub depth: Vec2,
    /// The layer's offset on the screen.
    pub offset: Vec2,
    /// How often the image repeats along each axis.
    pub repeat_scale: Vec2,
}

impl ParallaxMaterial {
    /// A material that scrolls nothing, with no offset and the image shown once.
    pub fn new() -> (r: Self)
        ensures
            r.depth == (Vec2 { x: F32 { bits: ZERO_BITS }, y: F32 { bits: ZERO_BITS } }),
            r.offset == (Vec2 { x: F32 { bits: ZERO_BITS }, y: F32 { bits: ZERO_BITS } }),
            r.repeat_scale == (Vec2 { x: F32 { bits: ONE_BITS }, y: F32 { bits: ONE_BITS } }),
    {
        ParallaxMaterial { depth: Vec2::zero(), offset: Vec2::zero(), repeat_scale: Vec2::one() }
    }

    pub fn set_repeat_scale(&mut self, repeat_scale: Vec2) -> (r: &mut Self)
        ensures
            *r == (ParallaxMaterial { repeat_scale, ..*old(self) }),
            *final(self) == *final(r),
    {
        self.repeat_scale = repeat_scale;
        self
    }

    pub fn set_depth(&mut self, depth: Vec2) -> (r: &mut Self)
        ensures
            *r == (ParallaxMaterial { depth, ..*old(self) }),
            *final(self) == *final(r),
    {
        self.depth = depth;
        self
    }

    pub fn set_offset(&mut self, offset: Vec2) -> (r: &mut Self)
        ensures
            *r == (ParallaxMaterial { offset, ..*old(self) }),
            *final(self) == *final(r),
    {
        self.offset = offset;
        self
    }
}

} // verus!
