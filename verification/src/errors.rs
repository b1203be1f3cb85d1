use vstd::prelude::*;

verus! {

/// The failure kinds of the library.
///
/// `Io`, `Decode`, `Geometry` and `Projection` are recoverable per-item
/// ingest failures: they abort the ingest of the one file or geometry in
/// question and leave every store untouched. `InvariantViolation` is a
/// protocol error: a mutation request named a layer id that should have been
/// resident but was not, and the operation cycle must stop.
#[derive(Clone, Copy, PartialEq, Eq, Structural, Debug)]
pub enum CoreError {
    /// A file or network source could not be read.
    Io,
    /// The raw bytes were not a well-formed GeoJSON document.
    Decode,
    /// The geometry was empty or degenerate: no bounding rectangle exists.
    Geometry,
    /// A coordinate reference system was unrecognized, or the transform was
    /// mathematically undefined for the given coordinates.
    Projection,
    /// A mutation request referenced a layer id that is not resident.
    InvariantViolation,
}

} // verus!
