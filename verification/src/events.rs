use vstd::prelude::*;

use crate::color::Color;
use crate::errors::CoreError;
use crate::layer::Layer;
use crate::layers::Layers;
use crate::LayerId;

verus! {

/// After a layer finished loading and was added to the store.
#[derive(Clone, Copy, PartialEq, Eq, Structural, Debug)]
pub struct LayerLoadedEvent(pub LayerId);

/// Request: flip the visibility of the named layer.
#[derive(Clone, Copy, PartialEq, Eq, Structural, Debug)]
pub struct ToggleLayerVisibilityEvent(pub LayerId);

/// Request: center the camera on the named layer.
#[derive(Clone, Copy, PartialEq, Eq, Structural, Debug)]
pub struct CenterCameraEvent(pub LayerId);

/// After a layer became hidden.
#[derive(Clone, Copy, PartialEq, Eq, Structural, Debug)]
pub struct LayerBecameHiddenEvent(pub LayerId);

/// After a layer became visible.
#[derive(Clone, Copy, PartialEq, Eq, Structural, Debug)]
pub struct LayerBecameVisibleEvent(pub LayerId);

/// Request: change the named layer's color.
#[derive(Clone, Copy, PartialEq, Eq, Structural, Debug)]
pub struct UpdateLayerColorEvent(pub LayerId, pub Color);

/// After a layer's color was changed.
#[derive(Clone, Copy, PartialEq, Eq, Structural, Debug)]
pub struct LayerColorUpdatedEvent(pub LayerId);

/// Request: delete the named layer.
#[derive(Clone, Copy, PartialEq, Eq, Structural, Debug)]
pub struct DeleteLayerEvent(pub LayerId);

/// After a layer was deleted.
#[derive(Clone, Copy, PartialEq, Eq, Structural, Debug)]
pub struct LayerDeletedEvent(pub LayerId);

/// The direction a move request shifts a layer's z-order.
#[derive(Clone, Copy, PartialEq, Eq, Structural, Debug)]
pub enum MoveDirection {
    Up,
    Down,
}

/// Request: move the named layer one step in z-order.
#[derive(Clone, Copy, PartialEq, Eq, Structural, Debug)]
pub struct MoveLayerEvent(pub LayerId, pub MoveDirection);

/// After a layer's z-index changed.
#[derive(Clone, Copy, PartialEq, Eq, Structural, Debug)]
pub struct LayerZIndexUpdatedEvent(pub LayerId);

/// Request: load a GeoJSON source into a layer, with a source and target
/// coordinate reference system.
#[derive(Debug)]
pub enum LoadGeoJsonFileEvent {
    FromPath { path: String, crs: String },
    FromNetwork { name: String, url: String, crs: String },
    FromBytes { file_name: String, bytes: Vec<u8>, crs: String },
}

/// An event the windowing loop receives from the core.
#[derive(Clone, Copy, PartialEq, Eq, Structural, Debug)]
pub enum UserEvent {
    LayerAdded,
}

/// Whether a layer with this id occurs in the sequence.
pub open spec fn seq_contains_id(s: Seq<Layer>, layer_id: LayerId) -> bool {
    exists|i: int| #![trigger s[i]] 0 <= i < s.len() && s[i].id == layer_id
}

/// The index of the layer with this id in the sequence.
pub open spec fn seq_idx_of(s: Seq<Layer>, layer_id: LayerId) -> int {
    choose|i: int| #![trigger s[i]] 0 <= i < s.len() && s[i].id == layer_id
}

/// One visibility-toggle request applied to the data sequence: the named
/// layer's visibility flips; naming an absent id is the protocol violation.
pub open spec fn spec_toggle(s: Seq<Layer>, layer_id: LayerId) -> Option<Seq<Layer>> {
    if seq_contains_id(s, layer_id) {
        let i = seq_idx_of(s, layer_id);
        Some(s.update(i, Layer { visible: !s[i].visible, ..s[i] }))
    } else {
        None
    }
}

/// A batch of visibility-toggle requests applied in submission order,
/// stopping at the first violation.
pub open spec fn spec_toggle_all(s: Seq<Layer>, events: Seq<ToggleLayerVisibilityEvent>) -> Option<
    Seq<Layer>,
>
    decreases events.len(),
{
    if events.len() == 0 {
        Some(s)
    } else {
        match spec_toggle(s, events[0].0) {
            Some(s2) => spec_toggle_all(s2, events.subrange(1, events.len() as int)),
            None => None,
        }
    }
}

/// One color-update request applied to the data sequence.
pub open spec fn spec_set_color(s: Seq<Layer>, layer_id: LayerId, color: Color) -> Option<
    Seq<Layer>,
> {
    if seq_contains_id(s, layer_id) {
        let i = seq_idx_of(s, layer_id);
        Some(s.update(i, Layer { color, ..s[i] }))
    } else {
        None
    }
}

/// A batch of color-update requests applied in submission order, stopping at
/// the first violation.
pub open spec fn spec_set_color_all(s: Seq<Layer>, events: Seq<UpdateLayerColorEvent>) -> Option<
    Seq<Layer>,
>
    decreases events.len(),
{
    if events.len() == 0 {
        Some(s)
    } else {
        match spec_set_color(s, events[0].0, events[0].1) {
            Some(s2) => spec_set_color_all(s2, events.subrange(1, events.len() as int)),
            None => None,
        }
    }
}

/// The data sequence after applying the longest prefix of toggle requests
/// whose ids all resolve: the fold stops, keeping what was applied, at the
/// first request naming an absent id.
pub open spec fn spec_toggle_applied(s: Seq<Layer>, events: Seq<ToggleLayerVisibilityEvent>) -> Seq<
    Layer,
>
    decreases events.len(),
{
    if events.len() == 0 {
        s
    } else {
        match spec_toggle(s, events[0].0) {
            Some(s2) => spec_toggle_applied(s2, events.subrange(1, events.len() as int)),
            None => s,
        }
    }
}

/// The data sequence after applying the longest prefix of color requests
/// whose ids all resolve, in the same way.
pub open spec fn spec_set_color_applied(s: Seq<Layer>, events: Seq<UpdateLayerColorEvent>) -> Seq<
    Layer,
>
    decreases events.len(),
{
    if events.len() == 0 {
        s
    } else {
        match spec_set_color(s, events[0].0, events[0].1) {
            Some(s2) => spec_set_color_applied(s2, events.subrange(1, events.len() as int)),
            None => s,
        }
    }
}

/// Law: two identical toggle requests cancel out. On a store with strictly
/// ascending ids, applying the same visibility toggle twice restores the
/// data sequence: the named layer's visibility flips and flips back.
pub proof fn lemma_toggle_twice(layers: Layers, layer_id: LayerId)
    requires
        layers.sorted(),
    ensures
        match spec_toggle(layers.data@, layer_id) {
            Some(s2) => spec_toggle(s2, layer_id) == Some(layers.data@),
            None => true,
        },
{
    let s = layers.data@;
    if seq_contains_id(s, layer_id) {
        let i = seq_idx_of(s, layer_id);
        assert(s[i].id == layer_id);
        let s2 = s.update(i, Layer { visible: !s[i].visible, ..s[i] });
        assert(s2[i].id == layer_id);
        assert(seq_contains_id(s2, layer_id));
        let j = seq_idx_of(s2, layer_id);
        assert(s2[j].id == layer_id);
        assert(s2[j].id == s[j].id);
        if i != j {
            if i < j {
                assert(s[i].id.0 < s[j].id.0);
            } else {
                assert(s[j].id.0 < s[i].id.0);
            }
        }
        let s3 = s2.update(i, Layer { visible: !s2[i].visible, ..s2[i] });
        assert(s3 =~= s);
        assert(spec_toggle(s2, layer_id) == Some(s));
    }
}

/// Applies a batch of visibility-toggle requests to the store, in submission
/// order. Succeeds exactly when every request named a resident layer, and
/// stops at the first that did not, with `InvariantViolation`; the requests
/// before the offending one stay fully applied, none half-applied.
pub fn read_events(events: &Vec<ToggleLayerVisibilityEvent>, layers: &mut Layers) -> (r: Result<
    (),
    CoreError,
>)
    requires
        old(layers).wf(),
    ensures
        final(layers).wf(),
        final(layers).selected_layer_id == old(layers).selected_layer_id,
        final(layers).data@ == spec_toggle_applied(old(layers).data@, events@),
        match r {
            Ok(()) => Some(final(layers).data@) == spec_toggle_all(old(layers).data@, events@),
            Err(e) => {
                &&& e == CoreError::InvariantViolation
                &&& spec_toggle_all(old(layers).data@, events@) is None
            },
        },
{
    let n = events.len();
    proof {
        assert(events@.subrange(0, n as int) =~= events@);
    }
    let mut k: usize = 0;
    while k < n
        invariant
            k <= n == events@.len(),
            layers.wf(),
            layers.selected_layer_id == old(layers).selected_layer_id,
            spec_toggle_all(old(layers).data@, events@) == spec_toggle_all(
                layers.data@,
                events@.subrange(k as int, n as int),
            ),
            spec_toggle_applied(old(layers).data@, events@) == spec_toggle_applied(
                layers.data@,
                events@.subrange(k as int, n as int),
            ),
        decreases n - k,
    {
        let ghost pre = *layers;
        let ghost evs = events@.subrange(k as int, n as int);
        let layer_id = events[k].0;
        proof {
            assert(evs[0] == events@[k as int]);
        }
        match layers.toggle_visibility(layer_id) {
            Ok(_) => {
                proof {
                    let s = pre.data@;
                    let i1 = pre.idx_of(layer_id);
                    assert(s[i1].id == layer_id);
                    assert(seq_contains_id(s, layer_id));
                    let i2 = seq_idx_of(s, layer_id);
                    assert(s[i2].id == layer_id);
                    pre.lemma_id_unique(i1, i2);
                    assert(spec_toggle(s, layer_id) == Some(layers.data@));
                    assert(evs.subrange(1, evs.len() as int) =~= events@.subrange(
                        k as int + 1,
                        n as int,
                    ));
                    assert(spec_toggle_all(pre.data@, evs) == spec_toggle_all(
                        layers.data@,
                        events@.subrange(k as int + 1, n as int),
                    ));
                    assert(spec_toggle_applied(pre.data@, evs) == spec_toggle_applied(
                        layers.data@,
                        events@.subrange(k as int + 1, n as int),
                    ));
                }
            },
            Err(e) => {
                proof {
                    let s = pre.data@;
                    assert(!pre.contains_id(layer_id));
                    assert forall|i: int|
                        #![trigger s[i]]
                        0 <= i < s.len() implies s[i].id != layer_id by {
                        if s[i].id == layer_id {
                            assert(pre.contains_id(layer_id));
                        }
                    }
                    assert(!seq_contains_id(s, layer_id));
                    assert(spec_toggle(s, layer_id) is None);
                    assert(spec_toggle_all(s, evs) is None);
                    assert(spec_toggle_applied(s, evs) == s);
                }
                return Err(e);
            },
        }
        k = k + 1;
    }
    proof {
        assert(events@.subrange(k as int, n as int) =~= Seq::<
            ToggleLayerVisibilityEvent,
        >::empty());
        assert(spec_toggle_all(layers.data@, events@.subrange(k as int, n as int)) == Some(
            layers.data@,
        ));
        assert(spec_toggle_applied(layers.data@, events@.subrange(k as int, n as int))
            == layers.data@);
    }
    Ok(())
}

/// Applies a batch of color-update requests to the store, in submission
/// order, and returns one color-updated notification per applied request, in
/// the same order. Succeeds exactly when every request named a resident
/// layer, and stops at the first that did not, with `InvariantViolation`;
/// the requests before the offending one stay fully applied, none
/// half-applied.
pub fn read_color_events(events: &Vec<UpdateLayerColorEvent>, layers: &mut Layers) -> (r: Result<
    Vec<LayerColorUpdatedEvent>,
    CoreError,
>)
    requires
        old(layers).wf(),
    ensures
        final(layers).wf(),
        final(layers).selected_layer_id == old(layers).selected_layer_id,
        final(layers).data@ == spec_set_color_applied(old(layers).data@, events@),
        match r {
            Ok(notes) => {
                &&& Some(final(layers).data@) == spec_set_color_all(old(layers).data@, events@)
                &&& notes@.len() == events@.len()
                &&& forall|i: int|
                    #![trigger notes@[i]]
                    0 <= i < notes@.len() ==> notes@[i].0 == events@[i].0
            },
            Err(e) => {
                &&& e == CoreError::InvariantViolation
                &&& spec_set_color_all(old(layers).data@, events@) is None
            },
        },
{
    let n = events.len();
    proof {
        assert(events@.subrange(0, n as int) =~= events@);
    }
    let mut notes: Vec<LayerColorUpdatedEvent> = Vec::new();
    let mut k: usize = 0;
    while k < n
        invariant
            k <= n == events@.len(),
            layers.wf(),
            layers.selected_layer_id == old(layers).selected_layer_id,
            notes@.len() == k,
            forall|i: int| #![trigger notes@[i]] 0 <= i < k ==> notes@[i].0 == events@[i].0,
            spec_set_color_all(old(layers).data@, events@) == spec_set_color_all(
                layers.data@,
                events@.subrange(k as int, n as int),
            ),
            spec_set_color_applied(old(layers).data@, events@) == spec_set_color_applied(
                layers.data@,
                events@.subrange(k as int, n as int),
            ),
        decreases n - k,
    {
        let ghost pre = *layers;
        let ghost evs = events@.subrange(k as int, n as int);
        let layer_id = events[k].0;
        let color = events[k].1;
        proof {
            assert(evs[0] == events@[k as int]);
        }
        match layers.set_color(layer_id, color) {
            Ok(()) => {
                proof {
                    let s = pre.data@;
                    let i1 = pre.idx_of(layer_id);
                    assert(s[i1].id == layer_id);
                    assert(seq_contains_id(s, layer_id));
                    let i2 = seq_idx_of(s, layer_id);
                    assert(s[i2].id == layer_id);
                    pre.lemma_id_unique(i1, i2);
                    assert(spec_set_color(s, layer_id, color) == Some(layers.data@));
                    assert(evs.subrange(1, evs.len() as int) =~= events@.subrange(
                        k as int + 1,
                        n as int,
                    ));
                    assert(spec_set_color_all(pre.data@, evs) == spec_set_color_all(
                        layers.data@,
                        events@.subrange(k as int + 1, n as int),
                    ));
                    assert(spec_set_color_applied(pre.data@, evs) == spec_set_color_applied(
                        layers.data@,
                        events@.subrange(k as int + 1, n as int),
                    ));
                }
                notes.push(LayerColorUpdatedEvent(layer_id));
            },
            Err(e) => {
                proof {
                    let s = pre.data@;
                    assert(!pre.contains_id(layer_id));
                    assert forall|i: int|
                        #![trigger s[i]]
                        0 <= i < s.len() implies s[i].id != layer_id by {
                        if s[i].id == layer_id {
                            assert(pre.contains_id(layer_id));
                        }
                    }
                    assert(!seq_contains_id(s, layer_id));
                    assert(spec_set_color(s, layer_id, color) is None);
                    assert(spec_set_color_all(s, evs) is None);
                    assert(spec_set_color_applied(s, evs) == s);
                }
                return Err(e);
            },
        }
        k = k + 1;
    }
    proof {
        assert(events@.subrange(k as int, n as int) =~= Seq::<UpdateLayerColorEvent>::empty());
        assert(spec_set_color_all(layers.data@, events@.subrange(k as int, n as int)) == Some(
            layers.data@,
        ));
        assert(spec_set_color_applied(layers.data@, events@.subrange(k as int, n as int))
            == layers.data@);
    }
    Ok(notes)
}

/// Applies one delete request: removes the named layer, clearing the
/// selection exactly when it named that layer, and returns the deleted
/// notification; fails with `InvariantViolation`, the store unchanged,
/// exactly when the id is not resident.
pub fn apply_delete(event: &DeleteLayerEvent, layers: &mut Layers) -> (r: Result<
    LayerDeletedEvent,
    CoreError,
>)
    requires
        old(layers).wf(),
    ensures
        final(layers).wf(),
        match r {
            Ok(note) => {
                &&& note.0 == event.0
                &&& old(layers).contains_id(event.0)
                &&& final(layers).data@ == old(layers).data@.remove(old(layers).idx_of(event.0))
                &&& final(layers).selected_layer_id == (if old(layers).selected_layer_id == Some(
                    event.0,
                ) {
                    None::<crate::LayerId>
                } else {
                    old(layers).selected_layer_id
                })
            },
            Err(e) => {
                &&& e == CoreError::InvariantViolation
                &&& !old(layers).contains_id(event.0)
                &&& final(layers).data@ == old(layers).data@
                &&& final(layers).selected_layer_id == old(layers).selected_layer_id
            },
        },
{
    match layers.delete(event.0) {
        Ok(()) => Ok(LayerDeletedEvent(event.0)),
        Err(e) => Err(e),
    }
}

/// Applies one move request. The store's order is the id order and never
/// changes; the z-order is an attribute the renderer owns, so the core only
/// checks that the named layer is resident and emits the z-index-updated
/// notification. Fails with `InvariantViolation` exactly when it is not.
pub fn apply_move(event: &MoveLayerEvent, layers: &Layers) -> (r: Result<
    LayerZIndexUpdatedEvent,
    CoreError,
>)
    requires
        layers.wf(),
    ensures
        match r {
            Ok(note) => note.0 == event.0 && layers.contains_id(event.0),
            Err(e) => e == CoreError::InvariantViolation && !layers.contains_id(event.0),
        },
{
    match layers.get(event.0) {
        Some(_) => Ok(LayerZIndexUpdatedEvent(event.0)),
        None => Err(CoreError::InvariantViolation),
    }
}

} // verus!
