use vstd::prelude::*;

use serde_json::Value as Json;

use crate::color::palette;
use crate::color::ColorAllocator;
use crate::errors::CoreError;
use crate::geom::bounding_rect_of;
use crate::geom::grid_free;
use crate::geom::transformed;
use crate::geom::Geometry;
use crate::layer::ingest_error;
use crate::layer::ingest_ok;
use crate::layer::metadata_len;
use crate::layer::UnassignedLayer;

verus! {

broadcast use vstd::string::to_string_from_display_ensures_for_str;

#[verifier::external_type_specification]
#[verifier::external_body]
pub struct ExJsonValue(serde_json::Value);

/// A JSON document as a tree the verifier can read: arrays, keyed objects,
/// and leaves. The grammar below reads only a number's presence, never its
/// value, so number leaves carry none.
pub enum JsonNode {
    Null,
    Bool(bool),
    Number,
    Text(String),
    Array(Vec<JsonNode>),
    Object(Vec<(String, JsonNode)>),
}

/// Whether serde_json's `from_slice` parses these bytes. A function of the
/// byte sequence alone.
pub uninterp spec fn json_parse_ok(bytes: Seq<u8>) -> bool;

/// The JSON document serde_json's `from_slice` yields for these bytes. A
/// function of the byte sequence alone.
pub uninterp spec fn json_value_of(bytes: Seq<u8>) -> serde_json::Value;

/// The library's tree of a serde_json document: the image of the one-for-one
/// conversion `json_tree`. A function of the document alone.
pub uninterp spec fn json_node_of(v: serde_json::Value) -> JsonNode;

/// Whether geojson reads the document as GeoJSON and converts it into a
/// geometry collection. A function of the document alone.
pub uninterp spec fn collection_ok_of(v: serde_json::Value) -> bool;

/// The geometry collection geojson's conversion yields for the document. A
/// function of the document alone.
pub uninterp spec fn collection_of(v: serde_json::Value) -> Geometry;

/// Relies on serde_json's `from_slice`: parses the bytes as a JSON
/// document, failing on malformed JSON.
#[verifier::external_body]
fn parse_json(bytes: &[u8]) -> (r: Result<serde_json::Value, CoreError>)
    ensures
        (r is Ok) == json_parse_ok(bytes@),
        r matches Ok(v) ==> v == json_value_of(bytes@),
        r matches Err(e) ==> e == CoreError::Decode,
{
    match serde_json::from_slice(bytes) {
        Ok(v) => Ok(v),
        Err(_) => Err(CoreError::Decode),
    }
}

/// Converts a serde_json document one-for-one into the library's tree: one
/// arm per variant, keys and text copied, numeric values not carried.
#[verifier::external_body]
fn json_tree(v: &serde_json::Value) -> (n: JsonNode)
    ensures
        n == json_node_of(*v),
{
    match v {
        Json::Null => JsonNode::Null,
        Json::Bool(b) => JsonNode::Bool(*b),
        Json::Number(_) => JsonNode::Number,
        Json::String(s) => JsonNode::Text(s.clone()),
        Json::Array(a) => JsonNode::Array(a.iter().map(json_tree).collect()),
        Json::Object(o) => JsonNode::Object(o.iter().map(|(k, i)| (k.clone(), json_tree(i))).collect()),
    }
}

/// Whether every element of the sequence is a number leaf.
pub open spec fn all_numbers(items: Seq<JsonNode>) -> bool {
    forall|i: int| #![trigger items[i]] 0 <= i < items.len() ==> items[i] is Number
}

/// The position grammar, walked from `state`: 0 outside any `coordinates`
/// value, 1 at the value directly under the key, 2 nested inside it. An
/// all-number array nested inside a `coordinates` value is a position and
/// must have at least two elements; the value directly under the key may be
/// a position only for a point, whose arity geojson itself checks.
pub open spec fn positions_ok(n: JsonNode, state: int) -> bool
    decreases n,
{
    match n {
        JsonNode::Array(items) => {
            if state == 2 && all_numbers(items@) {
                items@.len() >= 2
            } else {
                forall|i: int|
                    #![trigger items@[i]]
                    0 <= i < items@.len() ==> positions_ok(
                        items@[i],
                        if state > 0 {
                            2int
                        } else {
                            0int
                        },
                    )
            }
        },
        JsonNode::Object(entries) => {
            forall|i: int|
                #![trigger entries@[i]]
                0 <= i < entries@.len() ==> positions_ok(
                    entries@[i].1,
                    if entries@[i].0@ == "coordinates"@ {
                        1int
                    } else {
                        0int
                    },
                )
        },
        _ => true,
    }
}

/// Decides `all_numbers`.
fn all_numbers_exec(items: &Vec<JsonNode>) -> (b: bool)
    ensures
        b == all_numbers(items@),
{
    let n = items.len();
    let mut i: usize = 0;
    while i < n
        invariant
            i <= n == items@.len(),
            forall|k: int| #![trigger items@[k]] 0 <= k < i ==> items@[k] is Number,
        decreases n - i,
    {
        match &items[i] {
            JsonNode::Number => {},
            _ => {
                return false;
            },
        }
        i = i + 1;
    }
    true
}

/// Decides whether a key is the `coordinates` key.
fn is_coordinates_key(k: &String) -> (b: bool)
    ensures
        b == (k@ == "coordinates"@),
{
    let lit: String = "coordinates".to_string();
    *k == lit
}

/// Decides the position grammar `positions_ok`.
fn check_positions(n: &JsonNode, state: u8) -> (b: bool)
    ensures
        b == positions_ok(*n, state as int),
    decreases *n,
{
    match n {
        JsonNode::Array(items) => {
            if state == 2 && all_numbers_exec(items) {
                items.len() >= 2
            } else {
                let child_state: u8 = if state > 0 {
                    2
                } else {
                    0
                };
                let count = items.len();
                let mut i: usize = 0;
                while i < count
                    invariant
                        i <= count == items@.len(),
                        *n == JsonNode::Array(*items),
                        !(state == 2 && all_numbers(items@)),
                        child_state as int == (if state as int > 0 {
                            2int
                        } else {
                            0int
                        }),
                        forall|k: int|
                            #![trigger items@[k]]
                            0 <= k < i ==> positions_ok(items@[k], child_state as int),
                    decreases count - i,
                {
                    proof {
                        assert(n->Array_0 == *items);
                        assert(decreases_to!(*n => n->Array_0@[i as int]));
                        assert(decreases_to!(*n => items@[i as int]));
                    }
                    if !check_positions(&items[i], child_state) {
                        return false;
                    }
                    i = i + 1;
                }
                true
            }
        },
        JsonNode::Object(entries) => {
            let count = entries.len();
            let mut i: usize = 0;
            while i < count
                invariant
                    i <= count == entries@.len(),
                    *n == JsonNode::Object(*entries),
                    forall|k: int|
                        #![trigger entries@[k]]
                        0 <= k < i ==> positions_ok(
                            entries@[k].1,
                            if entries@[k].0@ == "coordinates"@ {
                                1int
                            } else {
                                0int
                            },
                        ),
                decreases count - i,
            {
                let child_state: u8 = if is_coordinates_key(&entries[i].0) {
                    1
                } else {
                    0
                };
                proof {
                    assert(n->Object_0 == *entries);
                    assert(decreases_to!(*n => n->Object_0@[i as int].1));
                    assert(decreases_to!(*n => entries@[i as int].1));
                }
                if !check_positions(&entries[i].1, child_state) {
                    return false;
                }
                i = i + 1;
            }
            true
        },
        _ => true,
    }
}

/// Relies on geojson's `GeoJson` deserialization and `quick_collection`:
/// reads the document as GeoJSON and converts it into a geometry
/// collection, failing on a non-GeoJSON structure. The document's positions
/// must satisfy the position grammar first: the converter reads the first
/// two components of every position, while geojson's deserializer checks
/// position arity for points only, so a short or empty position elsewhere
/// would panic inside the conversion.
#[verifier::external_body]
fn convert_geojson(v: &serde_json::Value) -> (r: Result<Geometry, CoreError>)
    requires
        positions_ok(json_node_of(*v), 0),
    ensures
        (r is Ok) == collection_ok_of(*v),
        r matches Ok(g) ==> g == collection_of(*v),
        r matches Err(e) ==> e == CoreError::Decode,
{
    let document: geojson::GeoJson = match serde_json::from_value(v.clone()) {
        Ok(d) => d,
        Err(_) => return Err(CoreError::Decode),
    };
    let collection: geo::GeometryCollection = match geojson::quick_collection(&document) {
        Ok(c) => c,
        Err(_) => return Err(CoreError::Decode),
    };
    Ok(Geometry { inner: geo::Geometry::GeometryCollection(collection) })
}

/// Whether the GeoJSON decode of these bytes succeeds: they parse as JSON,
/// the document's positions satisfy the position grammar, and geojson
/// converts the document into a geometry collection.
pub open spec fn geojson_decode_ok(bytes: Seq<u8>) -> bool {
    &&& json_parse_ok(bytes)
    &&& positions_ok(json_node_of(json_value_of(bytes)), 0)
    &&& collection_ok_of(json_value_of(bytes))
}

/// The geometry collection the GeoJSON decode of these bytes yields.
pub open spec fn geojson_decoded(bytes: Seq<u8>) -> Geometry {
    collection_of(json_value_of(bytes))
}

/// Decodes raw bytes into a geometry collection. Succeeds exactly when
/// `geojson_decode_ok` holds of the bytes; any malformed input fails with
/// `CoreError::Decode`.
fn decode_geojson(bytes: &[u8]) -> (r: Result<Geometry, CoreError>)
    ensures
        (r is Ok) == geojson_decode_ok(bytes@),
        r matches Ok(g) ==> g == geojson_decoded(bytes@),
        r matches Err(e) ==> e == CoreError::Decode,
{
    let document = match parse_json(bytes) {
        Ok(v) => v,
        Err(e) => {
            return Err(e);
        },
    };
    let tree = json_tree(&document);
    if !check_positions(&tree, 0) {
        return Err(CoreError::Decode);
    }
    convert_geojson(&document)
}

/// Decodes raw GeoJSON bytes and stages one layer from the resulting
/// geometry collection, named after the originating file.
///
/// A document that does not decode fails with `CoreError::Decode`, exactly;
/// a decoded geometry without a bounding rectangle with
/// `CoreError::Geometry`; a failed reprojection with
/// `CoreError::Projection`. Each failure aborts only this one ingest and
/// leaves the color allocator untouched, and no store is touched: staged
/// layers become resident only through `Layers::add`. On success the staged
/// layer carries the decoded geometry, its derived bounding rectangles, the
/// next palette color, empty metadata, and is visible; for grid-free
/// reference systems, success and the error kind are pinned exactly.
pub fn load_from_bytes(
    bytes: &[u8],
    file_name: String,
    source_projection: &str,
    target_projection: &str,
    colors: &mut ColorAllocator,
) -> (r: Result<Vec<UnassignedLayer>, CoreError>)
    requires
        old(colors).wf(),
    ensures
        final(colors).wf(),
        !geojson_decode_ok(bytes@) ==> r == Err::<Vec<UnassignedLayer>, CoreError>(
            CoreError::Decode,
        ),
        r matches Err(e) ==> ((e == CoreError::Decode) == !geojson_decode_ok(bytes@)),
        geojson_decode_ok(bytes@) && bounding_rect_of(geojson_decoded(bytes@)) is None ==> r
            == Err::<Vec<UnassignedLayer>, CoreError>(CoreError::Geometry),
        match r {
            Ok(staged) => {
                &&& staged@.len() == 1
                &&& staged@[0].name == file_name
                &&& staged@[0].visible == true
                &&& staged@[0].unprojected_geometry == geojson_decoded(bytes@)
                &&& Some(staged@[0].unprojected_bounding_rect) == bounding_rect_of(
                    geojson_decoded(bytes@),
                )
                &&& Some(staged@[0].projected_bounding_rect) == bounding_rect_of(
                    staged@[0].projected_geometry,
                )
                &&& staged@[0].color == palette(old(colors).next_index as int)
                &&& metadata_len(staged@[0].metadata) == 0
                &&& final(colors).next_index == (old(colors).next_index + 1) % 10
            },
            Err(e) => {
                &&& (e == CoreError::Decode || e == CoreError::Geometry || e
                    == CoreError::Projection)
                &&& *final(colors) == *old(colors)
            },
        },
        grid_free(source_projection@) && grid_free(target_projection@) ==> {
            &&& (r is Ok) == (geojson_decode_ok(bytes@) && ingest_ok(
                geojson_decoded(bytes@),
                source_projection@,
                target_projection@,
            ))
            &&& (r matches Ok(staged) ==> staged@[0].projected_geometry == transformed(
                geojson_decoded(bytes@),
                source_projection@,
                target_projection@,
            ))
            &&& (r matches Err(e) ==> e == (if !geojson_decode_ok(bytes@) {
                CoreError::Decode
            } else {
                ingest_error(geojson_decoded(bytes@), source_projection@, target_projection@)
            }))
        },
{
    let geometry = match decode_geojson(bytes) {
        Ok(g) => g,
        Err(e) => {
            return Err(e);
        },
    };
    let staged_layer = match UnassignedLayer::from_geometry(
        geometry,
        file_name,
        None,
        source_projection,
        target_projection,
        colors,
    ) {
        Ok(l) => l,
        Err(e) => {
            return Err(e);
        },
    };
    let mut staged: Vec<UnassignedLayer> = Vec::new();
    staged.push(staged_layer);
    Ok(staged)
}

} // verus!
