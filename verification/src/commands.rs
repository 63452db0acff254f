//! Removing the layer nearest to the viewer, or the one furthest from it.
//!
//! Only resolved layers take part, and among them only those whose depth
//! lies above the lowest finite number (for the front layer) or below the
//! highest one (for the back layer). Of several layers at the same depth the
//! first one is taken.
use vstd::prelude::*;
use crate::components::ParallaxLayerData;
use crate::depth::Depth;
use crate::float::{F32, MIN_BITS, MAX_BITS};

verus! {

/// Whether a layer of this depth can be the front layer: it is resolved, and
/// its depth is above the lowest finite number.
pub open spec fn can_be_front(depth: Depth) -> bool {
    depth.is_resolved() && depth.value().greater_than(F32 { bits: MIN_BITS })
}

/// Whether a layer of this depth can be the back layer: it is resolved, and
/// its depth is below the highest finite number.
pub open spec fn can_be_back(depth: Depth) -> bool {
    depth.is_resolved() && depth.value().less_than(F32 { bits: MAX_BITS })
}

/// Whether the layer at `i` is the front layer: no layer that can be the front
/// layer is deeper towards the viewer, and none before it is as deep.
pub open spec fn is_front_layer(layers: Seq<ParallaxLayerData>, i: int) -> bool {
    &&& 0 <= i < layers.len()
    &&& can_be_front(layers[i].depth)
    &&& forall|j: int|
        0 <= j < layers.len() && can_be_front(#[trigger] layers[j].depth)
            ==> layers[j].depth.value().at_most(layers[i].depth.value())
    &&& forall|j: int|
        0 <= j < i && can_be_front(#[trigger] layers[j].depth)
            ==> layers[j].depth.value().less_than(layers[i].depth.value())
}

/// Whether the layer at `i` is the back layer: no layer that can be the back
/// layer is deeper away from the viewer, and none before it is as deep.
pub open spec fn is_back_layer(layers: Seq<ParallaxLayerData>, i: int) -> bool {
    &&& 0 <= i < layers.len()
    &&& can_be_back(layers[i].depth)
    &&& forall|j: int|
        0 <= j < layers.len() && can_be_back(#[trigger] layers[j].depth)
            ==> layers[j].depth.value().at_least(layers[i].depth.value())
    &&& forall|j: int|
        0 <= j < i && can_be_back(#[trigger] layers[j].depth)
            ==> layers[j].depth.value().greater_than(layers[i].depth.value())
}

/// Whether no layer can be the front layer.
pub open spec fn has_no_front_layer(layers: Seq<ParallaxLayerData>) -> bool {
    forall|j: int| 0 <= j < layers.len() ==> !can_be_front(#[trigger] layers[j].depth)
}

/// Whether no layer can be the back layer.
pub open spec fn has_no_back_layer(layers: Seq<ParallaxLayerData>) -> bool {
    forall|j: int| 0 <= j < layers.len() ==> !can_be_back(#[trigger] layers[j].depth)
}

/// There is at most one front layer.
pub proof fn lemma_front_layer_unique(layers: Seq<ParallaxLayerData>, i: int, j: int)
    requires
        is_front_layer(layers, i),
        is_front_layer(layers, j),
    ensures
        i == j,
{
    if i < j {
        assert(layers[i].depth.value().less_than(layers[j].depth.value()));
        assert(layers[j].depth.value().at_most(layers[i].depth.value()));
    }
    if j < i {
        assert(layers[j].depth.value().less_than(layers[i].depth.value()));
        assert(layers[i].depth.value().at_most(layers[j].depth.value()));
    }
}

/// There is at most one back layer.
pub proof fn lemma_back_layer_unique(layers: Seq<ParallaxLayerData>, i: int, j: int)
    requires
        is_back_layer(layers, i),
        is_back_layer(layers, j),
    ensures
        i == j,
{
    if i < j {
        assert(layers[i].depth.value().greater_than(layers[j].depth.value()));
        assert(layers[j].depth.value().at_least(layers[i].depth.value()));
    }
    if j < i {
        assert(layers[j].depth.value().greater_than(layers[i].depth.value()));
        assert(layers[i].depth.value().at_least(layers[j].depth.value()));
    }
}

/// The place of the front layer, if there is one.
pub fn front_layer(layers: &Vec<ParallaxLayerData>) -> (r: Option<usize>)
    ensures
        match r {
            Some(i) => is_front_layer(layers@, i as int),
            None => has_no_front_layer(layers@),
        },
{
    let mut front: Option<usize> = None;
    let mut min_depth = Depth::from_world(F32::from_bits(MIN_BITS), F32::one());
    let mut k: usize = 0;
    while k < layers.len()
        invariant
            k <= layers.len(),
            min_depth.is_resolved(),
            !min_depth.value().is_nan(),
            match front {
                Some(i) => {
                    &&& i < k
                    &&& can_be_front(layers[i as int].depth)
                    &&& min_depth.value() == layers[i as int].depth.value()
                    &&& forall|j: int|
                        0 <= j < i && can_be_front(#[trigger] layers[j].depth)
                            ==> layers[j].depth.value().less_than(min_depth.value())
                },
                None => min_depth.value().bits == MIN_BITS,
            },
            forall|j: int|
                0 <= j < k && can_be_front(#[trigger] layers[j].depth)
                    ==> front is Some && layers[j].depth.value().at_most(min_depth.value()),
        decreases layers.len() - k,
    {
        let depth = layers[k].depth;
        if depth > min_depth {
            front = Some(k);
            min_depth = depth;
        }
        k = k + 1;
    }
    front
}

/// The place of the back layer, if there is one.
pub fn back_layer(layers: &Vec<ParallaxLayerData>) -> (r: Option<usize>)
    ensures
        match r {
            Some(i) => is_back_layer(layers@, i as int),
            None => has_no_back_layer(layers@),
        },
{
    let mut back: Option<usize> = None;
    let mut max_depth = Depth::from_world(F32::from_bits(MAX_BITS), F32::one());
    let mut k: usize = 0;
    while k < layers.len()
        invariant
            k <= layers.len(),
            max_depth.is_resolved(),
            !max_depth.value().is_nan(),
            match back {
                Some(i) => {
                    &&& i < k
                    &&& can_be_back(layers[i as int].depth)
                    &&& max_depth.value() == layers[i as int].depth.value()
                    &&& forall|j: int|
                        0 <= j < i && can_be_back(#[trigger] layers[j].depth)
                            ==> layers[j].depth.value().greater_than(max_depth.value())
                },
                None => max_depth.value().bits == MAX_BITS,
            },
            forall|j: int|
                0 <= j < k && can_be_back(#[trigger] layers[j].depth)
                    ==> back is Some && layers[j].depth.value().at_least(max_depth.value()),
        decreases layers.len() - k,
    {
        let depth = layers[k].depth;
        if depth < max_depth {
            back = Some(k);
            max_depth = depth;
        }
        k = k + 1;
    }
    back
}

/// Removing the front layer or the back layer of a set of layers.
///
/// The layer that goes is the one that `is_front_layer` or `is_back_layer`
/// names, of which there is at most one; all others stay in their order.
pub trait ParallaxDespawnCommands {
    /// The layers, in the order in which they are looked through.
    spec fn layers(&self) -> Seq<ParallaxLayerData>;

    /// Removes the front layer, if there is one.
    fn despawn_front_layer(&mut self)
        ensures
            has_no_front_layer(old(self).layers()) ==> final(self).layers() == old(self).layers(),
            !has_no_front_layer(old(self).layers()) ==> exists|i: int|
                is_front_layer(old(self).layers(), i) && final(self).layers() == #[trigger] old(
                    self,
                ).layers().remove(i),
    ;

    /// Removes the back layer, if there is one.
    fn despawn_back_layer(&mut self)
        ensures
            has_no_back_layer(old(self).layers()) ==> final(self).layers() == old(self).layers(),
            !has_no_back_layer(old(self).layers()) ==> exists|i: int|
                is_back_layer(old(self).layers(), i) && final(self).layers() == #[trigger] old(
                    self,
                ).layers().remove(i),
    ;
}

impl ParallaxDespawnCommands for Vec<ParallaxLayerData> {
    open spec fn layers(&self) -> Seq<ParallaxLayerData> {
        self@
    }

    fn despawn_front_layer(&mut self) {
        let front = front_layer(self);
        if let Some(i) = front {
            self.remove(i);
        }
    }

    fn despawn_back_layer(&mut self) {
        let back = back_layer(self);
        if let Some(i) = back {
            self.remove(i);
        }
    }
}

} // verus!
