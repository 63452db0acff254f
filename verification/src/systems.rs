//! Placing a new layer, and moving the layers with the camera.
use vstd::prelude::*;
use crate::components::{ParallaxLayer, ParallaxLayerData};
use crate::depth::Depth;
use crate::flags::{
    ParallaxFlags, REPEAT_X_AXIS, REPEAT_Y_AXIS, LOCKED_X_AXIS, LOCKED_Y_AXIS, OFFSET_TO_CAMERA,
    HORIZONTAL_OFFSET, POSITIVE_OFFSET,
};
use crate::float::{F32, ZERO_BITS, ONE_BITS, TWO_BITS, scaled, lemma_scaled_nonnegative};
use crate::float::exact::{lemma_times_one, lemma_times_zero, lemma_minus_itself};
use crate::float::rounding::{lemma_round_exact, lemma_round_magnitude_is};
use crate::material::ParallaxMaterial;
use crate::resources::ParallaxContext;
use crate::vec2::{Vec2, Vec3};

verus! {

/// How an image is continued beyond its edge along one axis.
#[derive(Clone, Copy, Debug, PartialEq, Eq, Structural)]
pub enum AddressMode {
    /// The edge is drawn on.
    ClampToEdge,
    /// The image starts over.
    Repeat,
}

/// Where and how a new layer is drawn.
#[derive(Clone, Copy, Debug)]
pub struct LayerPlacement {
    /// The layer's position on the screen, with its depth.
    pub translation: Vec3,
    /// The size at which the layer is drawn, and 1.
    pub scale: Vec3,
    /// How the image is continued along X.
    pub address_mode_u: AddressMode,
    /// How the image is continued along Y.
    pub address_mode_v: AddressMode,
}

/// One component of a layer's translation: nothing where the axis is locked,
/// else the camera's, less its product with the factor where the layer does
/// not repeat along the axis.
pub open spec fn axis_translation(camera: F32, factor: F32, locked: bool, repeating: bool) -> F32 {
    if locked {
        F32 { bits: ZERO_BITS }
    } else if !repeating {
        camera.difference(camera.product(factor))
    } else {
        camera
    }
}

/// The translation that the camera's position gives a layer. A layer whose
/// depth has no factor gets none.
pub open spec fn layer_translation(camera: Vec2, depth: Depth, flags: ParallaxFlags) -> Vec2 {
    match depth.factor() {
        None => Vec2 { x: F32 { bits: ZERO_BITS }, y: F32 { bits: ZERO_BITS } },
        Some(factor) => Vec2 {
            x: axis_translation(
                camera.x,
                factor,
                flags.has(LOCKED_X_AXIS),
                flags.has(REPEAT_X_AXIS),
            ),
            y: axis_translation(
                camera.y,
                factor,
                flags.has(LOCKED_Y_AXIS),
                flags.has(REPEAT_Y_AXIS),
            ),
        },
    }
}

/// Where a layer stands for a camera position: its translation plus its
/// offset, at its depth.
pub open spec fn layer_position(camera: Vec2, layer: ParallaxLayerData) -> Vec3 {
    layer_translation(camera, layer.depth, layer.flags).sum(layer.offset).with_z(
        layer.depth.value(),
    )
}

/// The size of the camera's view, twice its half size.
pub open spec fn view_size(camera_half_size: Vec2) -> Vec2 {
    camera_half_size.scaled_by(F32 { bits: TWO_BITS })
}

/// How the image is continued along an axis: repeated where the flag is set.
pub open spec fn address_mode(repeating: bool) -> AddressMode {
    if repeating {
        AddressMode::Repeat
    } else {
        AddressMode::ClampToEdge
    }
}

/// The size at which a layer is drawn: along an axis on which it repeats the
/// size of the view, else that of its image.
pub open spec fn drawn_size(flags: ParallaxFlags, image: Vec2, view: Vec2) -> Vec2 {
    Vec2 {
        x: if flags.has(REPEAT_X_AXIS) {
            view.x
        } else {
            image.x
        },
        y: if flags.has(REPEAT_Y_AXIS) {
            view.y
        } else {
            image.y
        },
    }
}

/// The factor by which the image scrolls inside the layer: the depth's factor
/// along an axis on which the layer repeats, else nothing.
pub open spec fn scroll_factor(flags: ParallaxFlags, factor: F32) -> Vec2 {
    Vec2 {
        x: if flags.has(REPEAT_X_AXIS) {
            factor
        } else {
            F32 { bits: ZERO_BITS }
        },
        y: if flags.has(REPEAT_Y_AXIS) {
            factor
        } else {
            F32 { bits: ZERO_BITS }
        },
    }
}

/// Half of what the view is larger than the layer, along the axis of the
/// edge that the layer is anchored to.
pub open spec fn edge_distance(flags: ParallaxFlags, view: Vec2, size: Vec2) -> Vec2 {
    if flags.has(HORIZONTAL_OFFSET) {
        (Vec2 { x: F32 { bits: ONE_BITS }, y: F32 { bits: ZERO_BITS } }).scaled_by(
            view.x.difference(size.x),
        ).divided_by(F32 { bits: TWO_BITS })
    } else {
        (Vec2 { x: F32 { bits: ZERO_BITS }, y: F32 { bits: ONE_BITS } }).scaled_by(
            view.y.difference(size.y),
        ).divided_by(F32 { bits: TWO_BITS })
    }
}

/// The offset of a placed layer. The translation that the layer's own offset
/// would give it is taken off, so that the layer stands at its offset when the
/// camera does; a layer anchored to an edge is then moved to that edge.
pub open spec fn placed_offset(layer: ParallaxLayerData, view: Vec2, size: Vec2) -> Vec2 {
    let centred = layer.offset.difference(
        layer_translation(layer.offset, layer.depth, layer.flags),
    );
    if layer.flags.has(OFFSET_TO_CAMERA) {
        if layer.flags.has(POSITIVE_OFFSET) {
            centred.sum(edge_distance(layer.flags, view, size))
        } else {
            centred.difference(edge_distance(layer.flags, view, size))
        }
    } else {
        centred
    }
}

/// A layer after its placement: its depth resolved in the scene, and its
/// offset set for the view and the image.
pub open spec fn placed_layer(
    layer: ParallaxLayerData,
    image: Vec2,
    camera_half_size: Vec2,
    context: ParallaxContext,
) -> ParallaxLayerData {
    let resolved = ParallaxLayerData {
        depth: layer.depth.resolve(context),
        offset: layer.offset,
        flags: layer.flags,
    };
    let view = view_size(camera_half_size);
    ParallaxLayerData {
        depth: resolved.depth,
        offset: placed_offset(resolved, view, drawn_size(layer.flags, image, view)),
        flags: layer.flags,
    }
}

/// The material of a layer after its placement: how often the image repeats
/// in the drawn size, the scroll factor per unit of drawn size, and the
/// layer's offset.
pub open spec fn placed_material(
    layer: ParallaxLayerData,
    image: Vec2,
    camera_half_size: Vec2,
    context: ParallaxContext,
) -> ParallaxMaterial {
    let view = view_size(camera_half_size);
    let size = drawn_size(layer.flags, image, view);
    let placed = placed_layer(layer, image, camera_half_size, context);
    ParallaxMaterial {
        depth: scroll_factor(layer.flags, placed.depth.factor()->0).quotient(size),
        offset: placed.offset,
        repeat_scale: size.quotient(image),
    }
}

/// Where and how a layer is drawn after its placement.
pub open spec fn placement(
    layer: ParallaxLayerData,
    image: Vec2,
    camera_half_size: Vec2,
    context: ParallaxContext,
) -> LayerPlacement {
    let view = view_size(camera_half_size);
    let placed = placed_layer(layer, image, camera_half_size, context);
    LayerPlacement {
        translation: placed.offset.with_z(placed.depth.value()),
        scale: drawn_size(layer.flags, image, view).with_z(F32 { bits: ONE_BITS }),
        address_mode_u: address_mode(layer.flags.has(REPEAT_X_AXIS)),
        address_mode_v: address_mode(layer.flags.has(REPEAT_Y_AXIS)),
    }
}

/// The working records of newly described layers, in their order.
pub fn initial_load_parallax_layers(new_layers: &Vec<ParallaxLayer>) -> (records: Vec<
    ParallaxLayerData,
>)
    ensures
        records.len() == new_layers.len(),
        forall|i: int| 0 <= i < new_layers.len() ==> records[i] == new_layers[i].record(),
{
    let mut records: Vec<ParallaxLayerData> = Vec::new();
    let mut i: usize = 0;
    while i < new_layers.len()
        invariant
            i <= new_layers.len(),
            records.len() == i,
            forall|j: int| 0 <= j < i ==> records[j] == new_layers[j].record(),
        decreases new_layers.len() - i,
    {
        records.push(new_layers[i].data());
        i = i + 1;
    }
    records
}

/// Places a new layer in the view of the camera.
///
/// The layer's depth is resolved and its offset set; the material is told how
/// to draw the image; the result says where the layer stands, how large it is
/// drawn and how its image is continued.
pub fn process_new_parallax_layer_data(
    parallax: &mut ParallaxLayerData,
    material: &mut ParallaxMaterial,
    image_dimensions: Vec2,
    camera_half_size: Vec2,
    parallax_context: &ParallaxContext,
) -> (placed: LayerPlacement)
    ensures
        *final(parallax) == placed_layer(
            *old(parallax),
            image_dimensions,
            camera_half_size,
            *parallax_context,
        ),
        *final(material) == placed_material(
            *old(parallax),
            image_dimensions,
            camera_half_size,
            *parallax_context,
        ),
        placed == placement(*old(parallax), image_dimensions, camera_half_size, *parallax_context),
{
    let camera_size = camera_half_size * F32::two();

    parallax.depth = parallax.depth.to_world_with_factor(parallax_context);
    let depth_factor = match parallax.depth.depth_factor() {
        Some(factor) => factor,
        None => F32::zero(),
    };
    let mut depth_factor = Vec2::splat(depth_factor);

    let (tile_mode_x, scaled_image_width) = if parallax.flags.contains(
        ParallaxFlags::repeat_x_axis(),
    ) {
        (AddressMode::Repeat, camera_size.x)
    } else {
        depth_factor.x = F32::zero();
        (AddressMode::ClampToEdge, image_dimensions.x)
    };
    let (tile_mode_y, scaled_image_height) = if parallax.flags.contains(
        ParallaxFlags::repeat_y_axis(),
    ) {
        (AddressMode::Repeat, camera_size.y)
    } else {
        depth_factor.y = F32::zero();
        (AddressMode::ClampToEdge, image_dimensions.y)
    };
    let scaled_image_dimensions = Vec2::new(scaled_image_width, scaled_image_height);

    let camera_translation = translation_with_depth_and_flags(
        parallax.offset,
        parallax.depth,
        parallax.flags,
    );
    parallax.offset = parallax.offset - camera_translation;

    if parallax.flags.contains(ParallaxFlags::offset_to_camera()) {
        let offset = if parallax.flags.contains(ParallaxFlags::horizontal_offset()) {
            Vec2::unit_x() * (camera_size.x - scaled_image_dimensions.x) / F32::two()
        } else {
            Vec2::unit_y() * (camera_size.y - scaled_image_dimensions.y) / F32::two()
        };

        if parallax.flags.contains(ParallaxFlags::positive_offset()) {
            parallax.offset = parallax.offset + offset;
        } else {
            parallax.offset = parallax.offset - offset;
        }
    }

    material.repeat_scale = scaled_image_dimensions / image_dimensions;
    material.depth = depth_factor / scaled_image_dimensions;
    material.offset = parallax.offset;

    LayerPlacement {
        translation: parallax.offset.extend(parallax.depth.depth()),
        scale: scaled_image_dimensions.extend(F32::one()),
        address_mode_u: tile_mode_x,
        address_mode_v: tile_mode_y,
    }
}

/// Where each layer stands for the camera's position, in the layers' order.
pub fn move_parallax_layers(
    camera_translation: Vec3,
    layers: &Vec<ParallaxLayerData>,
) -> (positions: Vec<Vec3>)
    ensures
        positions.len() == layers.len(),
        forall|i: int|
            0 <= i < layers.len() ==> positions[i] == layer_position(
                camera_translation.xy(),
                layers[i],
            ),
{
    let camera = camera_translation.truncate();
    let mut positions: Vec<Vec3> = Vec::new();
    let mut i: usize = 0;
    while i < layers.len()
        invariant
            i <= layers.len(),
            positions.len() == i,
            camera == camera_translation.xy(),
            forall|j: int| 0 <= j < i ==> positions[j] == layer_position(camera, layers[j]),
        decreases layers.len() - i,
    {
        let parallax = layers[i];
        let translation = translation_with_depth_and_flags(camera, parallax.depth, parallax.flags);
        positions.push((translation + parallax.offset).extend(parallax.depth.depth()));
        i = i + 1;
    }
    positions
}

/// The translation that a camera position gives a layer of the given depth and flags.
pub fn translation_with_depth_and_flags(
    translation: Vec2,
    depth: Depth,
    flags: ParallaxFlags,
) -> (r: Vec2)
    ensures
        r == layer_translation(translation, depth, flags),
{
    let mut translation = translation;
    let depth_factor = match depth.depth_factor() {
        Some(factor) => factor,
        None => {
            return Vec2::zero();
        },
    };

    if flags.contains(ParallaxFlags::locked_x_axis()) {
        translation.x = F32::zero();
    } else if !flags.contains(ParallaxFlags::repeat_x_axis()) {
        translation.x = translation.x - translation.x * depth_factor;
    }

    if flags.contains(ParallaxFlags::locked_y_axis()) {
        translation.y = F32::zero();
    } else if !flags.contains(ParallaxFlags::repeat_y_axis()) {
        translation.y = translation.y - translation.y * depth_factor;
    }

    translation
}

/// With the factor one a layer that is free along an axis is not translated
/// along it, wherever the camera stands.
pub proof fn lemma_factor_one_gives_no_translation(camera: F32)
    requires
        camera.is_finite(),
    ensures
        axis_translation(camera, F32 { bits: ONE_BITS }, false, false) == (F32 { bits: ZERO_BITS }),
{
    lemma_times_one(camera);
    lemma_minus_itself(camera);
}

/// With the factor zero a layer that is free along an axis is translated with
/// the camera.
pub proof fn lemma_factor_zero_follows_the_camera(camera: F32)
    requires
        camera.is_finite(),
    ensures
        axis_translation(camera, F32 { bits: ZERO_BITS }, false, false).equals(camera),
        !camera.is_zero() ==> axis_translation(camera, F32 { bits: ZERO_BITS }, false, false)
            == camera,
{
    lemma_times_zero(camera);
    lemma_scaled_nonnegative(0);
    lemma_scaled_nonnegative(camera.magnitude());
    lemma_round_exact(camera.magnitude());
    lemma_round_magnitude_is(camera.magnitude(), scaled(camera.magnitude()), 1);
}

} // verus!
