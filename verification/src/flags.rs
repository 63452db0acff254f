//! The settings of a layer, as a set of bits.
use vstd::prelude::*;

verus! {

/// No flag.
pub const NONE: u8 = 0;

/// Tiles the layer along the X axis.
pub const REPEAT_X_AXIS: u8 = 1;

/// Tiles the layer along the Y axis.
pub const REPEAT_Y_AXIS: u8 = 2;

/// Keeps the layer from moving along the X axis.
pub const LOCKED_X_AXIS: u8 = 4;

/// Keeps the layer from moving along the Y axis.
pub const LOCKED_Y_AXIS: u8 = 8;

/// Anchors the layer to an edge of the camera's view.
pub const OFFSET_TO_CAMERA: u8 = 16;

/// The anchoring edge is a vertical one (left or right) where set, a horizontal one where not.
pub const HORIZONTAL_OFFSET: u8 = 32;

/// The anchoring edge is the right or top one where set, the left or bottom one where not.
pub const POSITIVE_OFFSET: u8 = 64;

/// Anchors the layer to the left edge.
pub const OFFSET_CAMERA_LEFT: u8 = OFFSET_TO_CAMERA | HORIZONTAL_OFFSET;

/// Anchors the layer to the right edge.
pub const OFFSET_CAMERA_RIGHT: u8 = OFFSET_CAMERA_LEFT | POSITIVE_OFFSET;

/// Anchors the layer to the bottom edge.
pub const OFFSET_CAMERA_BOTTOM: u8 = OFFSET_TO_CAMERA;

/// Anchors the layer to the top edge.
pub const OFFSET_CAMERA_TOP: u8 = OFFSET_CAMERA_BOTTOM | POSITIVE_OFFSET;

/// What a layer has unless told otherwise: tiled along X and anchored to the bottom edge.
pub const DEFAULT: u8 = REPEAT_X_AXIS | OFFSET_CAMERA_BOTTOM;

/// Every bit that names a flag.
pub const ALL: u8 = 127;

/// A set of flags. The bit of each flag is a constant of this module.
#[derive(Clone, Copy, Debug, PartialEq, Eq, Structural)]
pub struct ParallaxFlags {
    pub bits: u8,
}

impl ParallaxFlags {
    /// Whether every bit of `mask` is set.
    pub open spec fn has(self, mask: u8) -> bool {
        self.bits & mask == mask
    }

    /// Whether some bit of `mask` is set.
    pub open spec fn touches(self, mask: u8) -> bool {
        self.bits & mask != 0
    }

    pub fn none() -> (r: Self)
        ensures
            r.bits == NONE,
    {
        ParallaxFlags { bits: NONE }
    }

    pub fn repeat_x_axis() -> (r: Self)
        ensures
            r.bits == REPEAT_X_AXIS,
    {
        ParallaxFlags { bits: REPEAT_X_AXIS }
    }

    pub fn repeat_y_axis() -> (r: Self)
        ensures
            r.bits == REPEAT_Y_AXIS,
    {
        ParallaxFlags { bits: REPEAT_Y_AXIS }
    }

    pub fn locked_x_axis() -> (r: Self)
        ensures
            r.bits == LOCKED_X_AXIS,
    {
        ParallaxFlags { bits: LOCKED_X_AXIS }
    }

    pub fn locked_y_axis() -> (r: Self)
        ensures
            r.bits == LOCKED_Y_AXIS,
    {
        ParallaxFlags { bits: LOCKED_Y_AXIS }
    }

    pub fn offset_to_camera() -> (r: Self)
        ensures
            r.bits == OFFSET_TO_CAMERA,
    {
        ParallaxFlags { bits: OFFSET_TO_CAMERA }
    }

    pub fn horizontal_offset() -> (r: Self)
        ensures
            r.bits == HORIZONTAL_OFFSET,
    {
        ParallaxFlags { bits: HORIZONTAL_OFFSET }
    }

    pub fn positive_offset() -> (r: Self)
        ensures
            r.bits == POSITIVE_OFFSET,
    {
        ParallaxFlags { bits: POSITIVE_OFFSET }
    }

    pub fn offset_camera_left() -> (r: Self)
        ensures
            r.bits == OFFSET_CAMERA_LEFT,
            r.bits == 48,
    {
        assert(16u8 | 32u8 == 48u8) by (bit_vector);
        ParallaxFlags { bits: OFFSET_CAMERA_LEFT }
    }

    pub fn offset_camera_right() -> (r: Self)
        ensures
            r.bits == OFFSET_CAMERA_RIGHT,
            r.bits == 112,
    {
        assert((16u8 | 32u8) | 64u8 == 112u8) by (bit_vector);
        ParallaxFlags { bits: OFFSET_CAMERA_RIGHT }
    }

    pub fn offset_camera_bottom() -> (r: Self)
        ensures
            r.bits == OFFSET_CAMERA_BOTTOM,
            r.bits == 16,
    {
        ParallaxFlags { bits: OFFSET_CAMERA_BOTTOM }
    }

    pub fn offset_camera_top() -> (r: Self)
        ensures
            r.bits == OFFSET_CAMERA_TOP,
            r.bits == 80,
    {
        assert(16u8 | 64u8 == 80u8) by (bit_vector);
        ParallaxFlags { bits: OFFSET_CAMERA_TOP }
    }

    /// The empty set.
    pub fn empty() -> (r: Self)
        ensures
            r.bits == 0,
    {
        ParallaxFlags { bits: 0 }
    }

    /// The set of all flags.
    pub fn all() -> (r: Self)
        ensures
            r.bits == ALL,
    {
        ParallaxFlags { bits: ALL }
    }

    /// The bits of the set.
    pub fn bits(&self) -> (r: u8)
        ensures
            r == self.bits,
    {
        self.bits
    }

    /// The set with the given bits, unless one of them names no flag.
    pub fn from_bits(bits: u8) -> (r: Option<Self>)
        ensures
            bits <= ALL ==> r == Some(ParallaxFlags { bits }),
            bits > ALL ==> r is None,
    {
        if bits <= ALL {
            Some(ParallaxFlags { bits })
        } else {
            None
        }
    }

    /// The set with those of the given bits that name a flag.
    pub fn from_bits_truncate(bits: u8) -> (r: Self)
        ensures
            r.bits == bits & ALL,
    {
        ParallaxFlags { bits: bits & ALL }
    }

    pub fn is_empty(&self) -> (r: bool)
        ensures
            r == (self.bits == 0),
    {
        self.bits == 0
    }

    /// Whether every flag of `other` is in this set.
    pub fn contains(&self, other: ParallaxFlags) -> (r: bool)
        ensures
            r == self.has(other.bits),
    {
        self.bits & other.bits == other.bits
    }

    /// Whether some flag of `other` is in this set.
    pub fn intersects(&self, other: ParallaxFlags) -> (r: bool)
        ensures
            r == self.touches(other.bits),
    {
        self.bits & other.bits != 0
    }

    /// The flags of either set.
    pub fn union(self, other: ParallaxFlags) -> (r: Self)
        ensures
            r.bits == self.bits | other.bits,
    {
        ParallaxFlags { bits: self.bits | other.bits }
    }

    /// The flags of both sets.
    pub fn intersection(self, other: ParallaxFlags) -> (r: Self)
        ensures
            r.bits == self.bits & other.bits,
    {
        ParallaxFlags { bits: self.bits & other.bits }
    }

    /// The flags of this set that are not in `other`.
    pub fn difference(self, other: ParallaxFlags) -> (r: Self)
        ensures
            r.bits == self.bits & !other.bits,
    {
        ParallaxFlags { bits: self.bits & !other.bits }
    }

    /// The flags that are not in this set.
    pub fn complement(self) -> (r: Self)
        ensures
            r.bits == !self.bits & ALL,
    {
        ParallaxFlags { bits: !self.bits & ALL }
    }

    /// Adds the flags of `other`.
    pub fn insert(&mut self, other: ParallaxFlags)
        ensures
            final(self).bits == old(self).bits | other.bits,
    {
        self.bits = self.bits | other.bits;
    }

    /// Takes the flags of `other` out.
    pub fn remove(&mut self, other: ParallaxFlags)
        ensures
            final(self).bits == old(self).bits & !other.bits,
    {
        self.bits = self.bits & !other.bits;
    }
}

impl Default for ParallaxFlags {
    fn default() -> (r: Self)
        ensures
            r.bits == DEFAULT,
            r.bits == 17,
    {
        assert(1u8 | 16u8 == 17u8) by (bit_vector);
        ParallaxFlags { bits: DEFAULT }
    }
}

impl std::ops::BitOr for ParallaxFlags {
    type Output = ParallaxFlags;

    fn bitor(self, rhs: ParallaxFlags) -> (r: ParallaxFlags) {
        ParallaxFlags { bits: self.bits | rhs.bits }
    }
}

impl vstd::std_specs::ops::BitOrSpecImpl for ParallaxFlags {
    open spec fn obeys_bitor_spec() -> bool {
        true
    }

    open spec fn bitor_req(self, rhs: ParallaxFlags) -> bool {
        true
    }

    open spec fn bitor_spec(self, rhs: ParallaxFlags) -> ParallaxFlags {
        ParallaxFlags { bits: self.bits | rhs.bits }
    }
}

/// A set that contains a set of flags contains each part of it, and a set
/// contains the union of two sets exactly when it contains both.
pub proof fn lemma_contains_union(flags: ParallaxFlags, a: u8, b: u8)
    ensures
        flags.has(a | b) <==> flags.has(a) && flags.has(b),
{
    let f = flags.bits;
    assert((f & (a | b) == (a | b)) <==> (f & a == a) && (f & b == b)) by (bit_vector);
}

} // verus!
