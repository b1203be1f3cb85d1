use rgis_core::color::Color;
use rgis_core::errors::CoreError;
use rgis_core::events::apply_delete;
use rgis_core::events::apply_move;
use rgis_core::events::read_color_events;
use rgis_core::events::read_events;
use rgis_core::events::DeleteLayerEvent;
use rgis_core::events::MoveDirection;
use rgis_core::events::MoveLayerEvent;
use rgis_core::events::ToggleLayerVisibilityEvent;
use rgis_core::events::UpdateLayerColorEvent;
use rgis_core::geom::BoundingRect;
use rgis_core::geom::Geometry;
use rgis_core::layer::Metadata;
use rgis_core::layer::UnassignedLayer;
use rgis_core::layers::Layers;
use rgis_core::LayerId;

fn rect(min_x: f64, min_y: f64, max_x: f64, max_y: f64) -> BoundingRect {
    BoundingRect {
        min_x_bits: min_x.to_bits(),
        min_y_bits: min_y.to_bits(),
        max_x_bits: max_x.to_bits(),
        max_y_bits: max_y.to_bits(),
    }
}

fn staged(name: &str) -> UnassignedLayer {
    let geometry = geo::Geometry::Point(geo::Point::new(1.0, 2.0));
    UnassignedLayer {
        name: name.to_string(),
        unprojected_geometry: Geometry { inner: geometry.clone() },
        unprojected_bounding_rect: rect(1.0, 2.0, 1.0, 2.0),
        projected_geometry: Geometry { inner: geometry },
        projected_bounding_rect: rect(1.0, 2.0, 1.0, 2.0),
        color: Color { r: 10, g: 20, b: 30 },
        metadata: Metadata { inner: serde_json::Map::new() },
        visible: true,
    }
}

#[test]
fn add_assigns_consecutive_ids_from_one() {
    let mut layers = Layers::new();
    let a = layers.add(staged("a"));
    let b = layers.add(staged("b"));
    let c = layers.add(staged("c"));
    assert_eq!(a, LayerId(1));
    assert_eq!(b, LayerId(2));
    assert_eq!(c, LayerId(3));
    assert_eq!(layers.data.len(), 3);
    for (i, layer) in layers.data.iter().enumerate() {
        assert_eq!(layer.id.0, i as u64 + 1);
    }
}

#[test]
fn get_after_add_returns_the_staged_fields() {
    let mut layers = Layers::new();
    let id = layers.add(staged("roads"));
    let layer = layers.get(id).expect("added layer must resolve");
    assert_eq!(layer.id, id);
    assert_eq!(layer.name, "roads");
    assert!(layer.visible);
    assert_eq!(layer.color, Color { r: 10, g: 20, b: 30 });
    assert_eq!(layer.projected_bounding_rect, rect(1.0, 2.0, 1.0, 2.0));
}

#[test]
fn get_of_absent_id_is_none() {
    let mut layers = Layers::new();
    let _ = layers.add(staged("a"));
    assert!(layers.get(LayerId(7)).is_none());
    assert!(Layers::new().get(LayerId(1)).is_none());
}

#[test]
fn toggle_visibility_flips_and_flips_back() {
    let mut layers = Layers::new();
    let id = layers.add(staged("a"));
    assert_eq!(layers.toggle_visibility(id), Ok(false));
    assert!(!layers.get(id).unwrap().visible);
    assert_eq!(layers.toggle_visibility(id), Ok(true));
    assert!(layers.get(id).unwrap().visible);
}

#[test]
fn toggle_of_absent_id_is_an_invariant_violation() {
    let mut layers = Layers::new();
    let _ = layers.add(staged("a"));
    assert_eq!(layers.toggle_visibility(LayerId(9)), Err(CoreError::InvariantViolation));
    assert_eq!(layers.data.len(), 1);
    assert!(layers.get(LayerId(1)).unwrap().visible);
}

#[test]
fn read_events_applies_toggles_in_submission_order() {
    let mut layers = Layers::new();
    let a = layers.add(staged("a"));
    let b = layers.add(staged("b"));
    let events = vec![
        ToggleLayerVisibilityEvent(a),
        ToggleLayerVisibilityEvent(b),
        ToggleLayerVisibilityEvent(a),
    ];
    assert_eq!(read_events(&events, &mut layers), Ok(()));
    assert!(layers.get(a).unwrap().visible);
    assert!(!layers.get(b).unwrap().visible);
}

#[test]
fn read_events_stops_at_the_first_absent_id() {
    let mut layers = Layers::new();
    let a = layers.add(staged("a"));
    let events = vec![
        ToggleLayerVisibilityEvent(a),
        ToggleLayerVisibilityEvent(LayerId(42)),
        ToggleLayerVisibilityEvent(a),
    ];
    assert_eq!(read_events(&events, &mut layers), Err(CoreError::InvariantViolation));
    assert!(!layers.get(a).unwrap().visible);
}

#[test]
fn read_color_events_updates_colors_and_notifies_per_request() {
    let mut layers = Layers::new();
    let a = layers.add(staged("a"));
    let b = layers.add(staged("b"));
    let red = Color { r: 255, g: 0, b: 0 };
    let green = Color { r: 0, g: 255, b: 0 };
    let events = vec![UpdateLayerColorEvent(a, red), UpdateLayerColorEvent(b, green)];
    let notes = read_color_events(&events, &mut layers).expect("both layers resident");
    assert_eq!(notes.len(), 2);
    assert_eq!(notes[0].0, a);
    assert_eq!(notes[1].0, b);
    assert_eq!(layers.get(a).unwrap().color, red);
    assert_eq!(layers.get(b).unwrap().color, green);
}

#[test]
fn read_color_events_reports_an_absent_id() {
    let mut layers = Layers::new();
    let _ = layers.add(staged("a"));
    let events = vec![UpdateLayerColorEvent(LayerId(5), Color { r: 1, g: 1, b: 1 })];
    assert_eq!(read_color_events(&events, &mut layers), Err(CoreError::InvariantViolation));
}

#[test]
fn delete_removes_the_layer_and_clears_its_selection() {
    let mut layers = Layers::new();
    let a = layers.add(staged("a"));
    let b = layers.add(staged("b"));
    layers.selected_layer_id = Some(a);
    let note = apply_delete(&DeleteLayerEvent(a), &mut layers).expect("resident");
    assert_eq!(note.0, a);
    assert_eq!(layers.selected_layer_id, None);
    assert_eq!(layers.data.len(), 1);
    assert!(layers.get(a).is_none());
    assert!(layers.get(b).is_some());
}

#[test]
fn delete_keeps_an_unrelated_selection() {
    let mut layers = Layers::new();
    let a = layers.add(staged("a"));
    let b = layers.add(staged("b"));
    layers.selected_layer_id = Some(b);
    assert!(layers.delete(a).is_ok());
    assert_eq!(layers.selected_layer_id, Some(b));
}

#[test]
fn delete_of_absent_id_is_an_invariant_violation() {
    let mut layers = Layers::new();
    let _ = layers.add(staged("a"));
    assert_eq!(layers.delete(LayerId(3)), Err(CoreError::InvariantViolation));
    assert_eq!(layers.data.len(), 1);
}

#[test]
fn selected_layer_resolves_the_selection() {
    let mut layers = Layers::new();
    let a = layers.add(staged("a"));
    assert!(layers.selected_layer().is_none());
    layers.selected_layer_id = Some(a);
    assert_eq!(layers.selected_layer().unwrap().id, a);
}

#[test]
fn move_requests_check_residency_and_notify() {
    let mut layers = Layers::new();
    let a = layers.add(staged("a"));
    let note = apply_move(&MoveLayerEvent(a, MoveDirection::Up), &layers).expect("resident");
    assert_eq!(note.0, a);
    let missing = apply_move(&MoveLayerEvent(LayerId(8), MoveDirection::Down), &layers);
    assert_eq!(missing, Err(CoreError::InvariantViolation));
}

#[test]
fn get_mut_edits_the_resident_layer_in_place() {
    let mut layers = Layers::new();
    let a = layers.add(staged("a"));
    {
        let layer = layers.get_mut(a).expect("resident");
        layer.visible = false;
        layer.color = Color { r: 9, g: 9, b: 9 };
    }
    assert!(!layers.get(a).unwrap().visible);
    assert_eq!(layers.get(a).unwrap().color, Color { r: 9, g: 9, b: 9 });
    assert!(layers.get_mut(LayerId(4)).is_none());
}

#[test]
fn default_store_is_empty_with_no_selection() {
    let layers = Layers::default();
    assert_eq!(layers.data.len(), 0);
    assert_eq!(layers.selected_layer_id, None);
}
