use vstd::prelude::*;

use crate::color::Color;
use crate::errors::CoreError;
use crate::geom::GeoPoint;
use crate::geom::MapCoord;
use crate::layer::layer_matches;
use crate::layer::Layer;
use crate::layer::UnassignedLayer;
use crate::LayerId;

verus! {

/// The layer store: the ordered collection of resident layers, sorted
/// strictly ascending by id, and the id of the currently selected layer.
pub struct Layers {
    pub data: Vec<Layer>,
    pub selected_layer_id: Option<LayerId>,
}

/// The layers of the sequence hit by a click at the coordinate, in sequence
/// order: those whose projected bounding rectangle strictly contains the
/// coordinate and whose projected geometry contains it exactly.
pub open spec fn matching_layers(s: Seq<Layer>, x_bits: u64, y_bits: u64, p: GeoPoint) -> Seq<Layer>
    decreases s.len(),
{
    if s.len() == 0 {
        Seq::empty()
    } else {
        let rest = matching_layers(s.drop_last(), x_bits, y_bits, p);
        if layer_matches(s.last(), x_bits, y_bits, p) {
            rest.push(s.last())
        } else {
            rest
        }
    }
}

/// The first layer `matching_layers` yields is an element of the sequence
/// it was drawn from, and a click at the coordinate hits it.
pub proof fn lemma_first_match_is_resident(s: Seq<Layer>, x_bits: u64, y_bits: u64, p: GeoPoint)
    requires
        matching_layers(s, x_bits, y_bits, p).len() > 0,
    ensures
        exists|i: int|
            #![trigger s[i]]
            0 <= i < s.len() && s[i] == matching_layers(s, x_bits, y_bits, p)[0] && layer_matches(
                s[i],
                x_bits,
                y_bits,
                p,
            ),
    decreases s.len(),
{
    let prefix = s.drop_last();
    let m = matching_layers(s, x_bits, y_bits, p);
    let mp = matching_layers(prefix, x_bits, y_bits, p);
    if mp.len() > 0 {
        lemma_first_match_is_resident(prefix, x_bits, y_bits, p);
        let i = choose|i: int|
            #![trigger prefix[i]]
            0 <= i < prefix.len() && prefix[i] == mp[0] && layer_matches(
                prefix[i],
                x_bits,
                y_bits,
                p,
            );
        assert(s[i] == prefix[i]);
        assert(m[0] == mp[0]);
    } else {
        assert(layer_matches(s.last(), x_bits, y_bits, p));
        assert(m[0] == s.last());
        assert(s[s.len() - 1] == s.last());
    }
}

/// Ids read `1, 2, 3, ...` along the sequence: the shape an add-only
/// history gives the store.
pub open spec fn ids_consecutive(s: Seq<Layer>) -> bool {
    forall|i: int| #![trigger s[i]] 0 <= i < s.len() ==> s[i].id.0 == i + 1
}

impl Layers {
    /// Ids are strictly ascending along the sequence (hence unique).
    pub open spec fn sorted(self) -> bool {
        forall|i: int, j: int|
            #![trigger self.data@[i], self.data@[j]]
            0 <= i < j < self.data@.len() ==> self.data@[i].id.0 < self.data@[j].id.0
    }

    /// Every resident id is positive.
    pub open spec fn ids_positive(self) -> bool {
        forall|i: int| #![trigger self.data@[i]] 0 <= i < self.data@.len() ==> self.data@[i].id.0 >= 1
    }

    /// Whether a layer with this id is resident.
    pub open spec fn contains_id(self, layer_id: LayerId) -> bool {
        exists|i: int| #![trigger self.data@[i]] 0 <= i < self.data@.len() && self.data@[i].id == layer_id
    }

    /// The index of the resident layer with this id.
    pub open spec fn idx_of(self, layer_id: LayerId) -> int {
        choose|i: int| #![trigger self.data@[i]] 0 <= i < self.data@.len() && self.data@[i].id == layer_id
    }

    /// The selection is absent or names a resident layer.
    pub open spec fn selection_valid(self) -> bool {
        match self.selected_layer_id {
            Some(layer_id) => self.contains_id(layer_id),
            None => true,
        }
    }

    /// The store invariant: sorted positive ids and a valid selection.
    pub open spec fn wf(self) -> bool {
        self.sorted() && self.ids_positive() && self.selection_valid()
    }

    /// The id the next added layer receives: one past the last id, or 1 for
    /// an empty store.
    pub open spec fn spec_next_id(self) -> u64 {
        if self.data@.len() == 0 {
            1u64
        } else {
            (self.data@.last().id.0 + 1) as u64
        }
    }

    /// In a sorted store an id occurs at most once.
    pub proof fn lemma_id_unique(self, i: int, j: int)
        requires
            self.sorted(),
            0 <= i < self.data@.len(),
            0 <= j < self.data@.len(),
            self.data@[i].id == self.data@[j].id,
        ensures
            i == j,
    {
        if i < j {
            assert(self.data@[i].id.0 < self.data@[j].id.0);
        } else if j < i {
            assert(self.data@[j].id.0 < self.data@[i].id.0);
        }
    }

    pub fn new() -> (layers: Layers)
        ensures
            layers.data@.len() == 0,
            layers.selected_layer_id is None,
            layers.wf(),
    {
        Layers { data: Vec::new(), selected_layer_id: None }
    }

    /// Binary search over the sorted id sequence.
    fn index_of(&self, layer_id: LayerId) -> (r: Option<usize>)
        requires
            self.sorted(),
        ensures
            match r {
                Some(i) => i < self.data@.len() && self.data@[i as int].id == layer_id,
                None => !self.contains_id(layer_id),
            },
    {
        let mut lo: usize = 0;
        let mut hi: usize = self.data.len();
        while lo < hi
            invariant
                lo <= hi <= self.data@.len(),
                self.sorted(),
                forall|k: int|
                    #![trigger self.data@[k]]
                    0 <= k < self.data@.len() && self.data@[k].id == layer_id ==> lo <= k < hi,
            decreases hi - lo,
        {
            let mid: usize = lo + (hi - lo) / 2;
            let mid_id: u64 = self.data[mid].id.0;
            if mid_id == layer_id.0 {
                return Some(mid);
            } else if mid_id < layer_id.0 {
                assert forall|k: int|
                    #![trigger self.data@[k]]
                    0 <= k < self.data@.len() && self.data@[k].id == layer_id implies mid < k by {
                    if k < mid {
                        assert(self.data@[k].id.0 < self.data@[mid as int].id.0);
                    }
                }
                lo = mid + 1;
            } else {
                assert forall|k: int|
                    #![trigger self.data@[k]]
                    0 <= k < self.data@.len() && self.data@[k].id == layer_id implies k < mid by {
                    if k > mid {
                        assert(self.data@[mid as int].id.0 < self.data@[k].id.0);
                    }
                }
                hi = mid;
            }
        }
        None
    }

    /// Looks up a layer by id, by binary search. Succeeds exactly when a
    /// layer with the id is resident, and returns that resident layer.
    pub fn get(&self, layer_id: LayerId) -> (r: Option<&Layer>)
        requires
            self.sorted(),
        ensures
            match r {
                Some(l) => {
                    &&& self.contains_id(layer_id)
                    &&& 0 <= self.idx_of(layer_id) < self.data@.len()
                    &&& *l == self.data@[self.idx_of(layer_id)]
                    &&& l.id == layer_id
                },
                None => !self.contains_id(layer_id),
            },
    {
        match self.index_of(layer_id) {
            Some(i) => {
                proof {
                    assert(self.contains_id(layer_id));
                    let j = self.idx_of(layer_id);
                    assert(self.data@[j].id == layer_id);
                    self.lemma_id_unique(i as int, j);
                }
                Some(&self.data[i])
            },
            None => None,
        }
    }

    /// Looks up a layer by id for mutation, by binary search. Succeeds
    /// exactly when a layer with the id is resident; the borrow starts at
    /// that resident layer. The caller is responsible for keeping the
    /// store's invariant: changing the layer's id through the borrow can
    /// break the sort order.
    pub fn get_mut(&mut self, layer_id: LayerId) -> (r: Option<&mut Layer>)
        requires
            old(self).sorted(),
        ensures
            match r {
                Some(l) => {
                    &&& old(self).contains_id(layer_id)
                    &&& *l == old(self).data@[old(self).idx_of(layer_id)]
                },
                None => {
                    &&& !old(self).contains_id(layer_id)
                    &&& *final(self) == *old(self)
                },
            },
    {
        match self.index_of(layer_id) {
            Some(i) => {
                proof {
                    assert(old(self).data@[i as int].id == layer_id);
                    assert(old(self).contains_id(layer_id));
                    let j = old(self).idx_of(layer_id);
                    assert(old(self).data@[j].id == layer_id);
                    old(self).lemma_id_unique(i as int, j);
                }
                Some(&mut self.data[i])
            },
            None => None,
        }
    }

    /// The currently selected layer, if any. Under the store invariant the
    /// selection always resolves.
    pub fn selected_layer(&self) -> (r: Option<&Layer>)
        requires
            self.wf(),
        ensures
            match r {
                Some(l) => {
                    &&& self.selected_layer_id == Some(l.id)
                    &&& self.contains_id(l.id)
                    &&& *l == self.data@[self.idx_of(l.id)]
                },
                None => self.selected_layer_id is None,
            },
    {
        match self.selected_layer_id {
            Some(layer_id) => self.get(layer_id),
            None => None,
        }
    }

    fn next_layer_id(&self) -> (layer_id: LayerId)
        requires
            self.sorted(),
            self.data@.len() == 0 || self.data@.last().id.0 < u64::MAX,
        ensures
            layer_id.0 == self.spec_next_id(),
    {
        if self.data.len() == 0 {
            LayerId(1)
        } else {
            LayerId(self.data[self.data.len() - 1].id.0 + 1)
        }
    }

    /// Appends the staged layer, assigning it one past the greatest resident
    /// id (or 1 on an empty store), and returns the assigned id. The sort
    /// invariant and the selection are preserved.
    pub fn add(&mut self, unassigned_layer: UnassignedLayer) -> (layer_id: LayerId)
        requires
            old(self).wf(),
            old(self).data@.len() == 0 || old(self).data@.last().id.0 < u64::MAX,
        ensures
            layer_id.0 == old(self).spec_next_id(),
            final(self).data@ == old(self).data@.push(unassigned_layer.with_id(layer_id)),
            final(self).selected_layer_id == old(self).selected_layer_id,
            final(self).wf(),
    {
        let layer_id = self.next_layer_id();
        let layer = Layer {
            id: layer_id,
            name: unassigned_layer.name,
            unprojected_geometry: unassigned_layer.unprojected_geometry,
            unprojected_bounding_rect: unassigned_layer.unprojected_bounding_rect,
            projected_geometry: unassigned_layer.projected_geometry,
            projected_bounding_rect: unassigned_layer.projected_bounding_rect,
            color: unassigned_layer.color,
            metadata: unassigned_layer.metadata,
            visible: unassigned_layer.visible,
        };
        self.data.push(layer);
        proof {
            let s0 = old(self).data@;
            let s1 = self.data@;
            assert forall|i: int, j: int| 0 <= i < j < s1.len() implies s1[i].id.0 < s1[j].id.0 by {
                if j < s0.len() {
                    assert(s0[i].id.0 < s0[j].id.0);
                } else {
                    if i < s0.len() - 1 {
                        assert(s0[i].id.0 < s0[s0.len() - 1].id.0);
                    }
                }
            }
            assert forall|i: int| #![trigger s1[i]] 0 <= i < s1.len() implies s1[i].id.0 >= 1 by {
                if i < s0.len() {
                    assert(s0[i].id.0 >= 1);
                } else if s0.len() > 0 {
                    assert(s0[s0.len() - 1].id.0 >= 1);
                }
            }
            if old(self).selected_layer_id is Some {
                let sid = old(self).selected_layer_id.unwrap();
                let w = choose|i: int| #![trigger s0[i]] 0 <= i < s0.len() && s0[i].id == sid;
                assert(s1[w].id == sid);
            }
        }
        layer_id
    }

    /// Flips the visibility of the layer with this id and returns the new
    /// visibility. Fails with `InvariantViolation`, leaving the store
    /// unchanged, exactly when the id is not resident.
    pub fn toggle_visibility(&mut self, layer_id: LayerId) -> (r: Result<bool, CoreError>)
        requires
            old(self).wf(),
        ensures
            final(self).wf(),
            final(self).selected_layer_id == old(self).selected_layer_id,
            match r {
                Ok(v) => {
                    &&& old(self).contains_id(layer_id)
                    &&& v == !old(self).data@[old(self).idx_of(layer_id)].visible
                    &&& final(self).data@ == old(self).data@.update(
                        old(self).idx_of(layer_id),
                        Layer { visible: v, ..old(self).data@[old(self).idx_of(layer_id)] },
                    )
                },
                Err(e) => {
                    &&& e == CoreError::InvariantViolation
                    &&& !old(self).contains_id(layer_id)
                    &&& final(self).data@ == old(self).data@
                },
            },
    {
        let i = match self.index_of(layer_id) {
            Some(i) => i,
            None => {
                return Err(CoreError::InvariantViolation);
            },
        };
        proof {
            assert(old(self).data@[i as int].id == layer_id);
            assert(old(self).contains_id(layer_id));
            let j = old(self).idx_of(layer_id);
            assert(old(self).data@[j].id == layer_id);
            old(self).lemma_id_unique(i as int, j);
        }
        let mut updated = self.data[i].clone();
        let v = !updated.visible;
        updated.visible = v;
        self.data[i] = updated;
        proof {
            self.lemma_same_ids_keep_wf(*old(self));
        }
        Ok(v)
    }

    /// Sets the color of the layer with this id. Fails with
    /// `InvariantViolation`, leaving the store unchanged, exactly when the id
    /// is not resident.
    pub fn set_color(&mut self, layer_id: LayerId, color: Color) -> (r: Result<(), CoreError>)
        requires
            old(self).wf(),
        ensures
            final(self).wf(),
            final(self).selected_layer_id == old(self).selected_layer_id,
            match r {
                Ok(()) => {
                    &&& old(self).contains_id(layer_id)
                    &&& final(self).data@ == old(self).data@.update(
                        old(self).idx_of(layer_id),
                        Layer { color, ..old(self).data@[old(self).idx_of(layer_id)] },
                    )
                },
                Err(e) => {
                    &&& e == CoreError::InvariantViolation
                    &&& !old(self).contains_id(layer_id)
                    &&& final(self).data@ == old(self).data@
                },
            },
    {
        let i = match self.index_of(layer_id) {
            Some(i) => i,
            None => {
                return Err(CoreError::InvariantViolation);
            },
        };
        proof {
            assert(old(self).data@[i as int].id == layer_id);
            assert(old(self).contains_id(layer_id));
            let j = old(self).idx_of(layer_id);
            assert(old(self).data@[j].id == layer_id);
            old(self).lemma_id_unique(i as int, j);
        }
        let mut updated = self.data[i].clone();
        updated.color = color;
        self.data[i] = updated;
        proof {
            self.lemma_same_ids_keep_wf(*old(self));
        }
        Ok(())
    }

    /// A store whose layers carry the same ids at the same indices as a
    /// well-formed store with the same selection is itself well-formed.
    proof fn lemma_same_ids_keep_wf(self, other: Layers)
        requires
            other.wf(),
            self.data@.len() == other.data@.len(),
            forall|i: int|
                #![trigger self.data@[i]]
                0 <= i < self.data@.len() ==> self.data@[i].id == other.data@[i].id,
            self.selected_layer_id == other.selected_layer_id,
        ensures
            self.wf(),
    {
        assert forall|i: int, j: int|
            #![trigger self.data@[i], self.data@[j]]
            0 <= i < j < self.data@.len() implies self.data@[i].id.0 < self.data@[j].id.0 by {
            assert(other.data@[i].id.0 < other.data@[j].id.0);
        }
        assert forall|i: int| #![trigger self.data@[i]] 0 <= i < self.data@.len() implies self.data@[i].id.0 >= 1 by {
            assert(other.data@[i].id.0 >= 1);
        }
        if self.selected_layer_id is Some {
            let sid = self.selected_layer_id.unwrap();
            let w = choose|i: int| #![trigger other.data@[i]] 0 <= i < other.data@.len() && other.data@[i].id == sid;
            assert(self.data@[w].id == sid);
        }
    }

    /// Removes the layer with this id from the store, clearing the selection
    /// when it named that layer. Fails with `InvariantViolation`, leaving the
    /// store unchanged, exactly when the id is not resident.
    pub fn delete(&mut self, layer_id: LayerId) -> (r: Result<(), CoreError>)
        requires
            old(self).wf(),
        ensures
            final(self).wf(),
            match r {
                Ok(()) => {
                    &&& old(self).contains_id(layer_id)
                    &&& final(self).data@ == old(self).data@.remove(old(self).idx_of(layer_id))
                    &&& final(self).selected_layer_id == (if old(self).selected_layer_id == Some(
                        layer_id,
                    ) {
                        None::<LayerId>
                    } else {
                        old(self).selected_layer_id
                    })
                },
                Err(e) => {
                    &&& e == CoreError::InvariantViolation
                    &&& !old(self).contains_id(layer_id)
                    &&& final(self).data@ == old(self).data@
                    &&& final(self).selected_layer_id == old(self).selected_layer_id
                },
            },
    {
        let i = match self.index_of(layer_id) {
            Some(i) => i,
            None => {
                return Err(CoreError::InvariantViolation);
            },
        };
        proof {
            assert(old(self).data@[i as int].id == layer_id);
            assert(old(self).contains_id(layer_id));
            let j = old(self).idx_of(layer_id);
            assert(old(self).data@[j].id == layer_id);
            old(self).lemma_id_unique(i as int, j);
        }
        let _removed = self.data.remove(i);
        let clear = match self.selected_layer_id {
            Some(sid) => sid.0 == layer_id.0,
            None => false,
        };
        if clear {
            self.selected_layer_id = None;
        }
        proof {
            let s0 = old(self).data@;
            let s1 = self.data@;
            assert forall|p: int, q: int|
                #![trigger s1[p], s1[q]]
                0 <= p < q < s1.len() implies s1[p].id.0 < s1[q].id.0 by {
                let p0 = if p < i as int { p } else { p + 1 };
                let q0 = if q < i as int { q } else { q + 1 };
                assert(s1[p] == s0[p0]);
                assert(s1[q] == s0[q0]);
                assert(s0[p0].id.0 < s0[q0].id.0);
            }
            assert forall|p: int| #![trigger s1[p]] 0 <= p < s1.len() implies s1[p].id.0 >= 1 by {
                let p0 = if p < i as int { p } else { p + 1 };
                assert(s1[p] == s0[p0]);
                assert(s0[p0].id.0 >= 1);
            }
            if self.selected_layer_id is Some {
                let sid = self.selected_layer_id.unwrap();
                let w = choose|k: int| #![trigger s0[k]] 0 <= k < s0.len() && s0[k].id == sid;
                assert(s0[w].id == sid);
                assert(sid != layer_id);
                assert(w != i as int);
                if w < i as int {
                    assert(s1[w].id == sid);
                } else {
                    assert(s1[w - 1] == s0[w]);
                    assert(s1[w - 1].id == sid);
                }
            }
        }
        Ok(())
    }

    /// All resident layers containing the coordinate, in store order:
    /// exactly `matching_layers` of the data sequence. Phase one rejects by
    /// bounding rectangle, phase two tests exact geometric containment.
    pub fn containing_coord(&self, coord: &MapCoord) -> (res: Vec<Layer>)
        ensures
            res@ == matching_layers(self.data@, coord.x_bits, coord.y_bits, coord.point),
    {
        let mut res: Vec<Layer> = Vec::new();
        let mut idx: usize = 0;
        proof {
            assert(self.data@.take(0) =~= Seq::<Layer>::empty());
        }
        while idx < self.data.len()
            invariant
                idx <= self.data@.len(),
                res@ == matching_layers(
                    self.data@.take(idx as int),
                    coord.x_bits,
                    coord.y_bits,
                    coord.point,
                ),
            decreases self.data@.len() - idx,
        {
            let hit = self.data[idx].contains_coord(coord);
            proof {
                let taken = self.data@.take(idx as int + 1);
                assert(taken.drop_last() =~= self.data@.take(idx as int));
                assert(taken.last() == self.data@[idx as int]);
            }
            if hit {
                let copied = self.data[idx].clone();
                res.push(copied);
            }
            idx = idx + 1;
        }
        proof {
            assert(self.data@.take(self.data@.len() as int) =~= self.data@);
        }
        res
    }

    /// Runs the spatial query and selects the first matching layer in store
    /// order, or clears the selection when nothing matches. Returns whether
    /// the selection changed against its previous value.
    pub fn set_selected_layer_from_mouse_press(&mut self, coord: &MapCoord) -> (changed: bool)
        requires
            old(self).wf(),
        ensures
            final(self).data@ == old(self).data@,
            final(self).wf(),
            changed == (final(self).selected_layer_id != old(self).selected_layer_id),
            final(self).selected_layer_id == ({
                let m = matching_layers(
                    old(self).data@,
                    coord.x_bits,
                    coord.y_bits,
                    coord.point,
                );
                if m.len() > 0 {
                    Some(m[0].id)
                } else {
                    None::<LayerId>
                }
            }),
    {
        let intersecting = self.containing_coord(coord);
        let new_selected = selection_from_matches(&intersecting);
        if intersecting.len() > 0 {
            proof {
                let m = matching_layers(self.data@, coord.x_bits, coord.y_bits, coord.point);
                lemma_first_match_is_resident(
                    self.data@,
                    coord.x_bits,
                    coord.y_bits,
                    coord.point,
                );
                assert(intersecting@[0] == m[0]);
                let i = choose|i: int|
                    #![trigger self.data@[i]]
                    0 <= i < self.data@.len() && self.data@[i] == m[0] && layer_matches(
                        self.data@[i],
                        coord.x_bits,
                        coord.y_bits,
                        coord.point,
                    );
                assert(self.data@[i].id == m[0].id);
                assert(self.contains_id(m[0].id));
            }
        }
        let changed = !opt_id_eq(&self.selected_layer_id, &new_selected);
        self.selected_layer_id = new_selected;
        proof {
            assert(self.sorted());
            assert(self.ids_positive());
            assert(self.selection_valid());
        }
        changed
    }
}

impl Default for Layers {
    /// The empty store: no layers, no selection.
    fn default() -> (layers: Layers)
        ensures
            layers.data@.len() == 0,
            layers.selected_layer_id is None,
            layers.wf(),
    {
        Layers::new()
    }
}

/// The selection a mouse press yields, given the layers matching the click
/// in store order: the first match, or no selection at all.
pub fn selection_from_matches(matches: &Vec<Layer>) -> (sel: Option<LayerId>)
    ensures
        sel == (if matches@.len() > 0 {
            Some(matches@[0].id)
        } else {
            None::<LayerId>
        }),
{
    if matches.len() > 0 {
        Some(matches[0].id)
    } else {
        None
    }
}

/// Decides equality of two optional layer ids.
fn opt_id_eq(a: &Option<LayerId>, b: &Option<LayerId>) -> (r: bool)
    ensures
        r == (a == b),
{
    match (a, b) {
        (None, None) => true,
        (Some(x), Some(y)) => x.0 == y.0,
        _ => false,
    }
}

/// Law: a store whose ids read `1..n` keeps that shape across `add`, the new
/// layer receiving id `n + 1`. By induction, any sequence of `add` calls
/// starting from the empty store yields ids `1, 2, 3, ...` in insertion
/// order, with no gaps or repeats.
pub proof fn lemma_add_keeps_consecutive_ids(
    pre: Layers,
    post: Layers,
    staged: UnassignedLayer,
    layer_id: LayerId,
)
    requires
        ids_consecutive(pre.data@),
        pre.data@.len() < u64::MAX,
        layer_id.0 == pre.spec_next_id(),
        post.data@ == pre.data@.push(staged.with_id(layer_id)),
    ensures
        ids_consecutive(post.data@),
        layer_id.0 == post.data@.len(),
{
    let n = pre.data@.len() as int;
    if n > 0 {
        assert(pre.data@[n - 1].id.0 == n);
    }
    assert(post.data@[n] == staged.with_id(layer_id));
    assert(post.data@[n].id.0 == layer_id.0);
    assert(layer_id.0 == n + 1);
    assert forall|i: int| #![trigger post.data@[i]] 0 <= i < post.data@.len() implies post.data@[i].id.0 == i + 1 by {
        if i < n {
            assert(pre.data@[i].id.0 == i + 1);
            assert(post.data@[i] == pre.data@[i]);
        }
    }
}

/// Law: after `add` assigns `layer_id`, the layer with that id is resident
/// and equals the staged input with the id attached — a `get(layer_id)` on
/// the new store therefore succeeds and returns exactly that layer.
pub proof fn lemma_get_after_add(
    pre: Layers,
    post: Layers,
    staged: UnassignedLayer,
    layer_id: LayerId,
)
    requires
        pre.wf(),
        pre.data@.len() == 0 || pre.data@.last().id.0 < u64::MAX,
        layer_id.0 == pre.spec_next_id(),
        post.data@ == pre.data@.push(staged.with_id(layer_id)),
        post.sorted(),
    ensures
        post.contains_id(layer_id),
        post.data@[post.idx_of(layer_id)] == staged.with_id(layer_id),
{
    let n = pre.data@.len() as int;
    assert(post.data@[n] == staged.with_id(layer_id));
    assert(post.data@[n].id == layer_id);
    assert(post.contains_id(layer_id));
    let j = post.idx_of(layer_id);
    assert(post.data@[j].id == layer_id);
    post.lemma_id_unique(j, n);
}

} // verus!
