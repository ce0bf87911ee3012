use indoor_map_lib::bounding_box::{BoundingSquare, Vector2};
use indoor_map_lib::svg_parser::{read_events, SvgElement, SvgEvent, TagType};
use indoor_map_lib::tile::{Layer, TileCoords};

#[test]
fn element_is_written_with_attributes_and_children() {
    let root = SvgElement::<i64>::from_svg_data(
        r#"<svg width="4" height="3"><g id="x"><rect width="1" height="1"/></g><path d="M0,0 L1,1"/></svg>"#,
    )
    .unwrap();
    assert_eq!(
        root.as_element().to_string(),
        "<svg height=\"3\" width=\"4\">\n<g id=\"x\">\n<rect height=\"1\" width=\"1\"/>\n</g>\n<path d=\"M0,0 L1,1\"/>\n</svg>"
    );
}

#[test]
fn tile_is_written_with_its_view_box() {
    let layer = Layer::<i64>::new(
        r#"<svg width="64" height="64"><rect width="1" height="1"/></svg>"#,
        BoundingSquare::new(Vector2::new(0, 0), 64),
    )
    .unwrap();
    let tile = layer.tile(&TileCoords::new(Vector2 { x: 1, y: 1 }, 1));
    assert_eq!(tile.as_element().to_string(), "<svg viewBox=\"32 32 32 32\"/>");
    let tile = layer.tile(&TileCoords::new(Vector2 { x: 0, y: 0 }, 1));
    assert_eq!(
        tile.as_element().to_string(),
        "<svg viewBox=\"0 0 32 32\">\n<rect height=\"1\" width=\"1\"/>\n</svg>"
    );
}

#[test]
fn events_are_read_in_order() {
    let events = read_events(r#"<?xml version="1.0"?><a x="1"><b/>text</a>"#).unwrap();
    assert_eq!(events.len(), 5);
    assert!(matches!(events[0], SvgEvent::Ignorable));
    match &events[1] {
        SvgEvent::Tag(name, TagType::Start, attributes) => {
            assert_eq!(name, "a");
            assert_eq!(attributes.get("x").unwrap(), "1");
        }
        _ => panic!("expected a start tag"),
    }
    assert!(matches!(&events[2], SvgEvent::Tag(name, TagType::Empty, _) if name == "b"));
    assert!(matches!(events[3], SvgEvent::Ignorable));
    assert!(matches!(&events[4], SvgEvent::Tag(name, TagType::End, _) if name == "a"));
}

#[test]
fn reading_stops_at_the_first_error() {
    let events = read_events("<a/><b").unwrap();
    assert_eq!(events.len(), 2);
    assert!(matches!(&events[1], SvgEvent::Error(_)));
}
