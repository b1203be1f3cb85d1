use vstd::prelude::*;

use crate::LayerId;
use crate::color::palette;
use crate::color::Color;
use crate::color::ColorAllocator;
use crate::errors::CoreError;
use crate::geom::bounding_rect_of;
use crate::geom::clone_geometry;
use crate::geom::geo_contains_of;
use crate::geom::geometry_bounding_rect;
use crate::geom::geometry_contains;
use crate::geom::grid_free;
use crate::geom::projection_ok;
use crate::geom::rect_contains;
use crate::geom::rect_contains_coord;
use crate::geom::reproject;
use crate::geom::transform_ok;
use crate::geom::transformed;
use crate::geom::BoundingRect;
use crate::geom::GeoPoint;
use crate::geom::Geometry;
use crate::geom::MapCoord;

verus! {

/// Per-feature properties: an ordered mapping from string keys to JSON-like
/// values, keys unique. Held in serde_json's map type, opaque to the
/// verifier.
#[verifier::external_body]
pub struct Metadata {
    pub inner: serde_json::Map<String, serde_json::Value>,
}

/// What serde_json's `Map::len` returns for this metadata mapping: a
/// function of the mapping alone; zero exactly for the empty mapping.
pub uninterp spec fn metadata_len(m: Metadata) -> nat;

/// Relies on serde_json's `Map::new`: the empty metadata mapping, of length
/// zero.
#[verifier::external_body]
pub(crate) fn metadata_empty() -> (m: Metadata)
    ensures
        metadata_len(m) == 0,
{
    Metadata { inner: serde_json::Map::new() }
}

/// Relies on the `Clone` of serde_json's `Map`: a deep, structurally equal
/// copy.
#[verifier::external_body]
pub(crate) fn clone_metadata(m: &Metadata) -> (r: Metadata)
    ensures
        r == *m,
{
    Metadata { inner: m.inner.clone() }
}

/// A resident geospatial layer: one ingested dataset with its display and
/// selection state, addressed by its store-assigned id.
pub struct Layer {
    pub id: LayerId,
    pub name: String,
    pub unprojected_geometry: Geometry,
    pub unprojected_bounding_rect: BoundingRect,
    pub projected_geometry: Geometry,
    pub projected_bounding_rect: BoundingRect,
    pub color: Color,
    pub metadata: Metadata,
    pub visible: bool,
}

/// Whether a click at the coordinate hits the layer: its projected bounding
/// rectangle strictly contains the coordinate and its projected geometry
/// contains it exactly.
pub open spec fn layer_matches(l: Layer, x_bits: u64, y_bits: u64, p: GeoPoint) -> bool {
    &&& rect_contains(l.projected_bounding_rect, x_bits, y_bits)
    &&& geo_contains_of(l.projected_geometry, p)
}

impl Layer {
    /// Two-phase containment: the cheap bounding-rectangle test first, then
    /// the exact geometric test on the projected geometry. Returns exactly
    /// whether both phases accept the coordinate.
    pub fn contains_coord(&self, coord: &MapCoord) -> (b: bool)
        ensures
            b == layer_matches(*self, coord.x_bits, coord.y_bits, coord.point),
    {
        rect_contains_coord(&self.projected_bounding_rect, coord) && geometry_contains(
            &self.projected_geometry,
            coord,
        )
    }
}

impl Clone for Layer {
    /// A deep copy, equal to the original in every field.
    fn clone(&self) -> (r: Self)
        ensures
            r == *self,
    {
        Layer {
            id: self.id,
            name: self.name.clone(),
            unprojected_geometry: clone_geometry(&self.unprojected_geometry),
            unprojected_bounding_rect: self.unprojected_bounding_rect,
            projected_geometry: clone_geometry(&self.projected_geometry),
            projected_bounding_rect: self.projected_bounding_rect,
            color: self.color,
            metadata: clone_metadata(&self.metadata),
            visible: self.visible,
        }
    }
}

/// A layer's data before the store has assigned it an id. Produced by the
/// ingest pipeline and consumed exactly once by `Layers::add`.
pub struct UnassignedLayer {
    pub name: String,
    pub unprojected_geometry: Geometry,
    pub unprojected_bounding_rect: BoundingRect,
    pub projected_geometry: Geometry,
    pub projected_bounding_rect: BoundingRect,
    pub color: Color,
    pub metadata: Metadata,
    pub visible: bool,
}

/// Whether the ingest pipeline succeeds on this geometry and pair of
/// reference systems: the geometry has a bounding rectangle, both
/// identifiers are recognized, the transform is defined, and the transformed
/// geometry has a bounding rectangle too. Exact for grid-free definitions
/// (see `grid_free`), through the projection names it is built from.
pub open spec fn ingest_ok(geometry: Geometry, source: Seq<char>, target: Seq<char>) -> bool {
    &&& bounding_rect_of(geometry) is Some
    &&& projection_ok(source)
    &&& projection_ok(target)
    &&& transform_ok(geometry, source, target)
    &&& bounding_rect_of(transformed(geometry, source, target)) is Some
}

/// The error a failed ingest of this geometry reports, in pipeline order:
/// `Geometry` when a bounding rectangle is missing, `Projection` when the
/// reprojection fails. Exact for grid-free definitions, like `ingest_ok`.
pub open spec fn ingest_error(geometry: Geometry, source: Seq<char>, target: Seq<char>) -> CoreError {
    if bounding_rect_of(geometry) is None {
        CoreError::Geometry
    } else if !(projection_ok(source) && projection_ok(target) && transform_ok(
        geometry,
        source,
        target,
    )) {
        CoreError::Projection
    } else {
        CoreError::Geometry
    }
}

impl UnassignedLayer {
    /// The resident layer this staging entity becomes once `id` is assigned:
    /// every field carries over unchanged.
    pub open spec fn with_id(self, id: LayerId) -> Layer {
        Layer {
            id,
            name: self.name,
            unprojected_geometry: self.unprojected_geometry,
            unprojected_bounding_rect: self.unprojected_bounding_rect,
            projected_geometry: self.projected_geometry,
            projected_bounding_rect: self.projected_bounding_rect,
            color: self.color,
            metadata: self.metadata,
            visible: self.visible,
        }
    }

    /// Builds a staging layer from a raw geometry: derives the unprojected
    /// bounding rectangle, reprojects the geometry between the two named
    /// reference systems, derives the projected bounding rectangle from the
    /// full transformed coordinate set, draws the next palette color, and
    /// defaults the metadata to an empty mapping and the layer to visible.
    ///
    /// Fails with `CoreError::Geometry` when a bounding rectangle is
    /// missing and with `CoreError::Projection` when reprojection fails,
    /// leaving the color allocator untouched; for grid-free reference
    /// systems, success and the error kind are pinned exactly by
    /// `ingest_ok` and `ingest_error`.
    pub fn from_geometry(
        geometry: Geometry,
        name: String,
        metadata: Option<Metadata>,
        source_projection: &str,
        target_projection: &str,
        colors: &mut ColorAllocator,
    ) -> (r: Result<UnassignedLayer, CoreError>)
        requires
            old(colors).wf(),
        ensures
            final(colors).wf(),
            r is Ok ==> bounding_rect_of(geometry) is Some,
            bounding_rect_of(geometry) is None ==> r == Err::<UnassignedLayer, CoreError>(
                CoreError::Geometry,
            ),
            match r {
                Ok(u) => {
                    &&& u.name == name
                    &&& u.visible == true
                    &&& u.unprojected_geometry == geometry
                    &&& Some(u.unprojected_bounding_rect) == bounding_rect_of(geometry)
                    &&& Some(u.projected_bounding_rect) == bounding_rect_of(u.projected_geometry)
                    &&& u.color == palette(old(colors).next_index as int)
                    &&& final(colors).next_index == (old(colors).next_index + 1) % 10
                    &&& (match metadata {
                        Some(m) => u.metadata == m,
                        None => metadata_len(u.metadata) == 0,
                    })
                },
                Err(e) => {
                    &&& (e == CoreError::Geometry || e == CoreError::Projection)
                    &&& *final(colors) == *old(colors)
                },
            },
            grid_free(source_projection@) && grid_free(target_projection@) ==> {
                &&& (r is Ok) == ingest_ok(geometry, source_projection@, target_projection@)
                &&& (r matches Ok(u) ==> u.projected_geometry == transformed(
                    geometry,
                    source_projection@,
                    target_projection@,
                ))
                &&& (r matches Err(e) ==> e == ingest_error(
                    geometry,
                    source_projection@,
                    target_projection@,
                ))
            },
    {
        let unprojected_bounding_rect = match geometry_bounding_rect(&geometry) {
            Some(rect) => rect,
            None => {
                return Err(CoreError::Geometry);
            },
        };
        let projected_geometry = match reproject(
            &geometry,
            source_projection,
            target_projection,
        ) {
            Ok(g) => g,
            Err(e) => {
                return Err(e);
            },
        };
        let projected_bounding_rect = match geometry_bounding_rect(&projected_geometry) {
            Some(rect) => rect,
            None => {
                return Err(CoreError::Geometry);
            },
        };
        let color = colors.next_color();
        let metadata = match metadata {
            Some(m) => m,
            None => metadata_empty(),
        };
        Ok(
            UnassignedLayer {
                name,
                unprojected_geometry: geometry,
                unprojected_bounding_rect,
                projected_geometry,
                projected_bounding_rect,
                color,
                metadata,
                visible: true,
            },
        )
    }
}

} // verus!
