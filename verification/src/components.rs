//! The records that describe a camera and a layer.
use vstd::prelude::*;
use crate::depth::{Depth, DepthType};
use crate::flags::{ParallaxFlags, DEFAULT};
use crate::float::{F32, ZERO_BITS};
use crate::vec2::Vec2;

verus! {

/// Marks the one camera that the layers move against.
///
/// A scene has exactly one such camera: placing and moving layers is
/// meaningful only against a single view.
#[derive(Default, Debug)]
pub struct ParallaxCamera;

/// Why the layers of a scene can be neither placed nor moved.
#[derive(Clone, Copy, Debug, PartialEq, Eq, Structural)]
pub enum CameraError {
    /// No camera is marked.
    NoCamera,
    /// More than one camera is marked.
    MultipleCameras,
}

impl ParallaxCamera {
    /// What was read of the one marked camera, given what was read of every
    /// marked camera that was found.
    pub fn single<T: Copy>(found: &Vec<T>) -> (r: Result<T, CameraError>)
        ensures
            found.len() == 1 ==> r == Ok::<T, CameraError>(found[0]),
            found.len() == 0 ==> r == Err::<T, CameraError>(CameraError::NoCamera),
            found.len() > 1 ==> r == Err::<T, CameraError>(CameraError::MultipleCameras),
    {
        if found.len() == 1 {
            Ok(found[0])
        } else if found.len() == 0 {
            Err(CameraError::NoCamera)
        } else {
            Err(CameraError::MultipleCameras)
        }
    }
}

/// A layer as its author describes it.
#[derive(Clone, Copy, Debug)]
pub struct ParallaxLayer {
    /// The path of the layer's image.
    pub image: &'static str,
    /// The depth of the layer, which decides how fast it scrolls.
    pub depth: Depth,
    /// Where the camera stands when the layer is centred in its view.
    pub offset: Vec2,
    pub flags: ParallaxFlags,
}

/// What the placing and moving of a layer work on.
#[derive(Clone, Copy, Debug)]
pub struct ParallaxLayerData {
    pub depth: Depth,
    pub offset: Vec2,
    pub flags: ParallaxFlags,
}

impl ParallaxLayer {
    /// The working record of the layer: its depth, offset and flags.
    pub open spec fn record(self) -> ParallaxLayerData {
        ParallaxLayerData { depth: self.depth, offset: self.offset, flags: self.flags }
    }

    /// The working record of the layer.
    pub fn data(&self) -> (r: ParallaxLayerData)
        ensures
            r == self.record(),
    {
        ParallaxLayerData { depth: self.depth, offset: self.offset, flags: self.flags }
    }
}

impl Default for ParallaxLayer {
    /// A layer without an image, at parallax depth 0, centred on the origin,
    /// with the default flags.
    fn default() -> (r: Self)
        ensures
            r.image@.len() == 0,
            r.depth == Depth(DepthType::Parallax(F32 { bits: ZERO_BITS })),
            r.offset == (Vec2 { x: F32 { bits: ZERO_BITS }, y: F32 { bits: ZERO_BITS } }),
            r.flags.bits == DEFAULT,
    {
        proof {
            reveal_strlit("");
        }
        ParallaxLayer {
            image: "",
            depth: Depth::default(),
            offset: Vec2::zero(),
            flags: ParallaxFlags::default(),
        }
    }
}

} // verus!
