use rgis_core::color::ColorAllocator;
use rgis_core::geom::GeoPoint;
use rgis_core::geom::MapCoord;
use rgis_core::ingest::load_from_bytes;
use rgis_core::layers::Layers;

const SQUARE_0_10: &[u8] =
    br#"{"type":"Polygon","coordinates":[[[0.0,0.0],[10.0,0.0],[10.0,10.0],[0.0,10.0],[0.0,0.0]]]}"#;

const SQUARE_4_9: &[u8] =
    br#"{"type":"Polygon","coordinates":[[[4.0,4.0],[9.0,4.0],[9.0,9.0],[4.0,9.0],[4.0,4.0]]]}"#;

fn coord(x: f64, y: f64) -> MapCoord {
    MapCoord {
        point: GeoPoint { inner: geo::Coord { x, y } },
        x_bits: x.to_bits(),
        y_bits: y.to_bits(),
    }
}

fn square_store() -> Layers {
    let mut colors = ColorAllocator::new();
    let mut layers = Layers::new();
    let mut staged = load_from_bytes(SQUARE_0_10, "square.geojson".to_string(), "EPSG:4326", "EPSG:4326", &mut colors)
        .expect("valid polygon document");
    let _ = layers.add(staged.remove(0));
    layers
}

#[test]
fn containing_coord_returns_the_covering_layer() {
    let layers = square_store();
    let hits = layers.containing_coord(&coord(5.0, 5.0));
    assert_eq!(hits.len(), 1);
    assert_eq!(hits[0].name, "square.geojson");
}

#[test]
fn containing_coord_outside_the_square_is_empty() {
    let layers = square_store();
    assert!(layers.containing_coord(&coord(15.0, 15.0)).is_empty());
}

#[test]
fn containing_coord_excludes_the_boundary() {
    let layers = square_store();
    assert!(layers.containing_coord(&coord(0.0, 5.0)).is_empty());
}

#[test]
fn mouse_press_selects_and_reports_a_change() {
    let mut layers = square_store();
    let inside = coord(5.0, 5.0);
    assert!(layers.set_selected_layer_from_mouse_press(&inside));
    assert_eq!(layers.selected_layer_id, Some(rgis_core::LayerId(1)));
    assert!(!layers.set_selected_layer_from_mouse_press(&inside));
    assert_eq!(layers.selected_layer_id, Some(rgis_core::LayerId(1)));
}

#[test]
fn mouse_press_outside_clears_the_selection() {
    let mut layers = square_store();
    let inside = coord(5.0, 5.0);
    let outside = coord(15.0, 15.0);
    assert!(layers.set_selected_layer_from_mouse_press(&inside));
    assert!(layers.set_selected_layer_from_mouse_press(&outside));
    assert_eq!(layers.selected_layer_id, None);
    assert!(!layers.set_selected_layer_from_mouse_press(&outside));
}

#[test]
fn overlapping_layers_report_in_store_order_and_first_wins() {
    let mut colors = ColorAllocator::new();
    let mut layers = Layers::new();
    let mut first = load_from_bytes(SQUARE_0_10, "big".to_string(), "EPSG:4326", "EPSG:4326", &mut colors)
        .expect("valid polygon document");
    let first_id = layers.add(first.remove(0));
    let mut second = load_from_bytes(SQUARE_4_9, "small".to_string(), "EPSG:4326", "EPSG:4326", &mut colors)
        .expect("valid polygon document");
    let second_id = layers.add(second.remove(0));
    let hits = layers.containing_coord(&coord(5.0, 5.0));
    assert_eq!(hits.len(), 2);
    assert_eq!(hits[0].id, first_id);
    assert_eq!(hits[1].id, second_id);
    assert!(layers.set_selected_layer_from_mouse_press(&coord(5.0, 5.0)));
    assert_eq!(layers.selected_layer_id, Some(first_id));
}
