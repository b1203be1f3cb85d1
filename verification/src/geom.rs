use vstd::prelude::*;

use crate::errors::CoreError;
use crate::fp::f64_lt;
use crate::fp::f64_lt_bits;
use geo::BoundingRect as GeoBoundingRect;
use geo::Contains as GeoContains;
use geo::MapCoordsInPlace as GeoMapCoordsInPlace;
use proj4rs::transform::transform as transform_points;
use proj4rs::Proj as Proj4;

verus! {

/// A geometry tree (points, lines, polygons, collections) in the geo crate's
/// representation, opaque to the verifier.
///
/// Verus refuses a declaration of the geo type itself, because its generic
/// parameter carries an outside trait bound; the tree is therefore held in a
/// field this struct hides.
#[verifier::external_body]
pub struct Geometry {
    pub inner: geo::Geometry,
}

/// A coordinate in the geo crate's representation, opaque to the verifier,
/// held the same way as `Geometry`.
#[verifier::external_body]
pub struct GeoPoint {
    pub inner: geo::Coord,
}

/// A coordinate in the projected plane.
///
/// The bit patterns of the two double-precision components carry the value
/// for the bounding-rectangle contracts; `point` carries the same value in
/// the geo crate's representation, for the exact geometric predicates.
pub struct MapCoord {
    pub point: GeoPoint,
    pub x_bits: u64,
    pub y_bits: u64,
}

/// An axis-aligned bounding rectangle, held as the bit patterns of its two
/// double-precision corners.
#[derive(Clone, Copy, PartialEq, Eq, Structural, Debug)]
pub struct BoundingRect {
    pub min_x_bits: u64,
    pub min_y_bits: u64,
    pub max_x_bits: u64,
    pub max_y_bits: u64,
}

/// geo's `Contains<Coord> for Rect`: the coordinate lies strictly inside the
/// rectangle, in all four strict double-precision comparisons.
pub open spec fn rect_contains(r: BoundingRect, x_bits: u64, y_bits: u64) -> bool {
    &&& f64_lt(r.min_x_bits, x_bits)
    &&& f64_lt(x_bits, r.max_x_bits)
    &&& f64_lt(r.min_y_bits, y_bits)
    &&& f64_lt(y_bits, r.max_y_bits)
}

/// Decides `rect_contains` for a rectangle and a coordinate.
pub fn rect_contains_coord(r: &BoundingRect, coord: &MapCoord) -> (b: bool)
    ensures
        b == rect_contains(*r, coord.x_bits, coord.y_bits),
{
    f64_lt_bits(r.min_x_bits, coord.x_bits) && f64_lt_bits(coord.x_bits, r.max_x_bits)
        && f64_lt_bits(r.min_y_bits, coord.y_bits) && f64_lt_bits(coord.y_bits, r.max_y_bits)
}

/// What geo's `BoundingRect for Geometry` returns: the smallest axis-aligned
/// rectangle enclosing the geometry, as corner bit patterns, or `None` when
/// the geometry holds no coordinates. A function of the geometry alone.
pub uninterp spec fn bounding_rect_of(g: Geometry) -> Option<BoundingRect>;

/// What geo's `Contains<Coord> for Geometry` returns for a geometry and a
/// coordinate: exact containment, by each geometry kind's own semantics. A
/// function of the two values alone.
pub uninterp spec fn geo_contains_of(g: Geometry, p: GeoPoint) -> bool;

/// Whether this reference-system definition resolves to a datum that
/// consults no grid file: a Helmert transform, no datum at all, or the null
/// grid. proj4rs looks datum shift grids up in a process-global,
/// runtime-mutable catalog, so only for such grid-free definitions are a
/// projection's construction and its transforms functions of the inputs
/// alone; nothing is claimed below for grid-dependent definitions. A
/// function of the string alone.
pub uninterp spec fn grid_free(definition: Seq<char>) -> bool;

/// Whether proj4rs's `Proj::from_user_string` accepts this reference-system
/// identifier; a function of the string alone for grid-free definitions
/// (see `grid_free`), which is the only use the contracts make of it.
pub uninterp spec fn projection_ok(definition: Seq<char>) -> bool;

/// Whether the transform of this geometry between the two named systems is
/// defined for every coordinate; a function of the three values alone for
/// grid-free definitions, which is the only use the contracts make of it.
pub uninterp spec fn transform_ok(g: Geometry, source: Seq<char>, target: Seq<char>) -> bool;

/// The geometry that the transform between the two named systems yields; a
/// function of the three values alone for grid-free definitions, which is
/// the only use the contracts make of it.
pub uninterp spec fn transformed(g: Geometry, source: Seq<char>, target: Seq<char>) -> Geometry;

/// Relies on geo's `BoundingRect for Geometry`: returns `bounding_rect_of`
/// the geometry.
#[verifier::external_body]
pub(crate) fn geometry_bounding_rect(g: &Geometry) -> (r: Option<BoundingRect>)
    ensures
        r == bounding_rect_of(*g),
{
    match g.inner.bounding_rect() {
        Some(rect) => Some(
            BoundingRect {
                min_x_bits: rect.min().x.to_bits(),
                min_y_bits: rect.min().y.to_bits(),
                max_x_bits: rect.max().x.to_bits(),
                max_y_bits: rect.max().y.to_bits(),
            },
        ),
        None => None,
    }
}

/// Relies on geo's `Contains<Coord> for Geometry`: returns `geo_contains_of`
/// the geometry and the coordinate.
#[verifier::external_body]
pub(crate) fn geometry_contains(g: &Geometry, coord: &MapCoord) -> (b: bool)
    ensures
        b == geo_contains_of(*g, coord.point),
{
    g.inner.contains(&coord.point.inner)
}

/// Relies on the derived `Clone` of geo's `Geometry`: a deep, structurally
/// equal copy.
#[verifier::external_body]
pub(crate) fn clone_geometry(g: &Geometry) -> (r: Geometry)
    ensures
        r == *g,
{
    Geometry { inner: g.inner.clone() }
}

/// Relies on proj4rs's `Proj::from_user_string` and `transform` with its geo
/// adaptor: builds the two named coordinate reference systems and transforms
/// every coordinate of a copy of the geometry, keeping its structure.
///
/// proj4rs works in radians for angular systems, as its documentation
/// states, while geographic coordinates arrive in degrees: coordinates of a
/// geographic source are therefore converted to radians before the
/// transform, and results in a geographic target back to degrees after it.
/// Fails when an identifier is unrecognized or the transform is undefined
/// for some coordinate; for grid-dependent definitions both can also turn
/// on proj4rs's process-global grid catalog, so exactness is claimed only
/// under `grid_free`.
#[verifier::external_body]
fn transform_crs_to_crs(g: &Geometry, source: &str, target: &str) -> (r: Result<
    Geometry,
    CoreError,
>)
    ensures
        r matches Err(e) ==> e == CoreError::Projection,
        grid_free(source@) && grid_free(target@) ==> {
            &&& (r is Ok) == (projection_ok(source@) && projection_ok(target@) && transform_ok(
                *g,
                source@,
                target@,
            ))
            &&& (r matches Ok(out) ==> out == transformed(*g, source@, target@))
        },
{
    let src = match Proj4::from_user_string(source) { Ok(p) => p, Err(_) => return Err(CoreError::Projection) };
    let dst = match Proj4::from_user_string(target) { Ok(p) => p, Err(_) => return Err(CoreError::Projection) };
    let mut out = g.inner.clone();
    if src.is_latlong() {
        out.map_coords_in_place(|c| geo::Coord { x: c.x.to_radians(), y: c.y.to_radians() });
    }
    if transform_points(&src, &dst, &mut out).is_err() {
        return Err(CoreError::Projection);
    }
    if dst.is_latlong() {
        out.map_coords_in_place(|c| geo::Coord { x: c.x.to_degrees(), y: c.y.to_degrees() });
    }
    Ok(Geometry { inner: out })
}

/// Applies the cartographic transform from `source_projection` to
/// `target_projection` to every coordinate of the geometry.
///
/// Fails with `CoreError::Projection` exactly when an identifier is
/// unrecognized or the transform is undefined for some coordinate. For
/// grid-free definitions that behavior is pinned: success holds exactly
/// when both identifiers are recognized and the transform is defined, and
/// the result is the named transformed geometry.
pub fn reproject(geometry: &Geometry, source_projection: &str, target_projection: &str) -> (r:
    Result<Geometry, CoreError>)
    ensures
        r matches Err(e) ==> e == CoreError::Projection,
        grid_free(source_projection@) && grid_free(target_projection@) ==> {
            &&& (r is Ok) == (projection_ok(source_projection@) && projection_ok(
                target_projection@,
            ) && transform_ok(*geometry, source_projection@, target_projection@))
            &&& (r matches Ok(g) ==> g == transformed(
                *geometry,
                source_projection@,
                target_projection@,
            ))
        },
{
    transform_crs_to_crs(geometry, source_projection, target_projection)
}

} // verus!
