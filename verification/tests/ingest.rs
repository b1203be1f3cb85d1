use rgis_core::color::Color;
use rgis_core::color::ColorAllocator;
use rgis_core::errors::CoreError;
use rgis_core::ingest::load_from_bytes;
use rgis_core::layers::Layers;

const SQUARE_0_10: &[u8] =
    br#"{"type":"Polygon","coordinates":[[[0.0,0.0],[10.0,0.0],[10.0,10.0],[0.0,10.0],[0.0,0.0]]]}"#;

fn exterior_coords(geometry: &geo::Geometry) -> Vec<(f64, f64)> {
    match geometry {
        geo::Geometry::GeometryCollection(collection) => {
            assert_eq!(collection.0.len(), 1);
            match &collection.0[0] {
                geo::Geometry::Polygon(polygon) => {
                    polygon.exterior().coords().map(|c| (c.x, c.y)).collect()
                }
                other => panic!("expected a polygon, got {:?}", other),
            }
        }
        other => panic!("expected a collection, got {:?}", other),
    }
}

#[test]
fn identity_reprojection_preserves_coordinates() {
    let mut colors = ColorAllocator::new();
    let staged = load_from_bytes(SQUARE_0_10, "square.geojson".to_string(), "EPSG:4326", "EPSG:4326", &mut colors)
        .expect("valid polygon document");
    assert_eq!(staged.len(), 1);
    let layer = &staged[0];
    let unprojected = exterior_coords(&layer.unprojected_geometry.inner);
    let projected = exterior_coords(&layer.projected_geometry.inner);
    assert_eq!(unprojected.len(), projected.len());
    for (a, b) in unprojected.iter().zip(projected.iter()) {
        assert!((a.0 - b.0).abs() < 1e-9, "x drifted: {} vs {}", a.0, b.0);
        assert!((a.1 - b.1).abs() < 1e-9, "y drifted: {} vs {}", a.1, b.1);
    }
    let u = layer.unprojected_bounding_rect;
    let p = layer.projected_bounding_rect;
    assert!((f64::from_bits(u.min_x_bits) - f64::from_bits(p.min_x_bits)).abs() < 1e-9);
    assert!((f64::from_bits(u.min_y_bits) - f64::from_bits(p.min_y_bits)).abs() < 1e-9);
    assert!((f64::from_bits(u.max_x_bits) - f64::from_bits(p.max_x_bits)).abs() < 1e-9);
    assert!((f64::from_bits(u.max_y_bits) - f64::from_bits(p.max_y_bits)).abs() < 1e-9);
}

#[test]
fn the_bounding_rect_encloses_the_square() {
    let mut colors = ColorAllocator::new();
    let staged = load_from_bytes(SQUARE_0_10, "square.geojson".to_string(), "EPSG:4326", "EPSG:4326", &mut colors)
        .expect("valid polygon document");
    let r = staged[0].unprojected_bounding_rect;
    assert_eq!(f64::from_bits(r.min_x_bits), 0.0);
    assert_eq!(f64::from_bits(r.min_y_bits), 0.0);
    assert_eq!(f64::from_bits(r.max_x_bits), 10.0);
    assert_eq!(f64::from_bits(r.max_y_bits), 10.0);
}

#[test]
fn ingest_defaults_name_visibility_and_color() {
    let mut colors = ColorAllocator::new();
    let staged = load_from_bytes(SQUARE_0_10, "square.geojson".to_string(), "EPSG:4326", "EPSG:4326", &mut colors)
        .expect("valid polygon document");
    let layer = &staged[0];
    assert_eq!(layer.name, "square.geojson");
    assert!(layer.visible);
    assert_eq!(layer.color, Color { r: 0x1f, g: 0x77, b: 0xb4 });
    assert_eq!(colors.next_index, 1);
}

#[test]
fn malformed_bytes_report_decode_error_and_leave_the_store_unchanged() {
    let mut colors = ColorAllocator::new();
    let layers = Layers::new();
    let result = load_from_bytes(b"{not geojson", "bad.geojson".to_string(), "EPSG:4326", "EPSG:4326", &mut colors);
    assert_eq!(result.err(), Some(CoreError::Decode));
    assert_eq!(colors.next_index, 0);
    assert_eq!(layers.data.len(), 0);
}

#[test]
fn valid_json_that_is_not_geojson_reports_decode_error() {
    let mut colors = ColorAllocator::new();
    let result = load_from_bytes(b"{\"answer\":42}", "bad.geojson".to_string(), "EPSG:4326", "EPSG:4326", &mut colors);
    assert_eq!(result.err(), Some(CoreError::Decode));
}

#[test]
fn an_unknown_crs_reports_projection_error() {
    let mut colors = ColorAllocator::new();
    let result = load_from_bytes(SQUARE_0_10, "square.geojson".to_string(), "EPSG:4326", "EPSG:99999999", &mut colors);
    assert_eq!(result.err(), Some(CoreError::Projection));
    assert_eq!(colors.next_index, 0);
}

#[test]
fn an_empty_geometry_reports_geometry_error() {
    let mut colors = ColorAllocator::new();
    let empty = br#"{"type":"GeometryCollection","geometries":[]}"#;
    let result = load_from_bytes(empty, "empty.geojson".to_string(), "EPSG:4326", "EPSG:4326", &mut colors);
    assert_eq!(result.err(), Some(CoreError::Geometry));
    assert_eq!(colors.next_index, 0);
}

#[test]
fn ingested_layers_become_resident_only_through_add() {
    let mut colors = ColorAllocator::new();
    let mut layers = Layers::new();
    let mut staged = load_from_bytes(SQUARE_0_10, "square.geojson".to_string(), "EPSG:4326", "EPSG:4326", &mut colors)
        .expect("valid polygon document");
    assert_eq!(layers.data.len(), 0);
    let id = layers.add(staged.remove(0));
    assert_eq!(layers.data.len(), 1);
    assert_eq!(layers.get(id).unwrap().name, "square.geojson");
}

#[test]
fn short_positions_report_decode_error_instead_of_panicking() {
    let mut colors = ColorAllocator::new();
    let line = br#"{"type":"LineString","coordinates":[[1.0],[2.0]]}"#;
    let result = load_from_bytes(line, "line.geojson".to_string(), "EPSG:4326", "EPSG:4326", &mut colors);
    assert_eq!(result.err(), Some(CoreError::Decode));
    let polygon = br#"{"type":"Polygon","coordinates":[[[0.0,0.0],[1.0],[0.0,1.0],[0.0,0.0]]]}"#;
    let result = load_from_bytes(polygon, "poly.geojson".to_string(), "EPSG:4326", "EPSG:4326", &mut colors);
    assert_eq!(result.err(), Some(CoreError::Decode));
    let empty_positions = br#"{"type":"LineString","coordinates":[[],[]]}"#;
    let result = load_from_bytes(empty_positions, "line.geojson".to_string(), "EPSG:4326", "EPSG:4326", &mut colors);
    assert_eq!(result.err(), Some(CoreError::Decode));
    assert_eq!(colors.next_index, 0);
}

#[test]
fn feature_properties_do_not_trip_the_position_grammar() {
    let mut colors = ColorAllocator::new();
    let feature = br#"{"type":"Feature","properties":{"coordinates":[1.0]},"geometry":{"type":"Point","coordinates":[3.0,4.0]}}"#;
    let staged = load_from_bytes(feature, "pt.geojson".to_string(), "EPSG:4326", "EPSG:4326", &mut colors)
        .expect("a short array directly under a properties key is no position");
    assert_eq!(staged.len(), 1);
}

#[test]
fn reprojection_to_web_mercator_changes_coordinates() {
    let mut colors = ColorAllocator::new();
    let small = br#"{"type":"Polygon","coordinates":[[[0.1,0.1],[0.5,0.1],[0.5,0.5],[0.1,0.5],[0.1,0.1]]]}"#;
    let staged = load_from_bytes(small, "small.geojson".to_string(), "EPSG:4326", "EPSG:3857", &mut colors)
        .expect("transform within range");
    let layer = &staged[0];
    let unprojected = exterior_coords(&layer.unprojected_geometry.inner);
    let projected = exterior_coords(&layer.projected_geometry.inner);
    assert_eq!(unprojected.len(), projected.len());
    // Web Mercator maps a longitude of l radians to 6378137 * l meters
    // exactly, so the projected values are pinned, far from the inputs, and
    // the rectangle is recomputed to match.
    let expected_min_x = 0.1f64.to_radians() * 6378137.0;
    let expected_max_x = 0.5f64.to_radians() * 6378137.0;
    assert!((projected[0].0 - expected_min_x).abs() < 1e-6);
    let p = layer.projected_bounding_rect;
    assert!((f64::from_bits(p.min_x_bits) - expected_min_x).abs() < 1e-6);
    assert!((f64::from_bits(p.max_x_bits) - expected_max_x).abs() < 1e-6);
}
