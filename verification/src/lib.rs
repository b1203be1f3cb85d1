use vstd::prelude::*;

pub mod color;
pub mod errors;
pub mod events;
pub mod fp;
pub mod geom;
pub mod ingest;
pub mod layer;
pub mod layers;

verus! {

/// A stable identifier for a layer resident in the store.
///
/// Identifiers are positive and assigned by `Layers::add`, each one past the
/// greatest id then resident, so the store stays strictly ascending.
#[derive(Clone, Copy, PartialEq, Eq, Structural, Debug, Hash)]
pub struct LayerId(pub u64);

} // verus!
