use indoor_map_lib::bounding_box::{BoundingSquare, Vector2};
use indoor_map_lib::tile::{Layer, TileCoords, TileIterator};
use std::collections::HashSet;

fn all(mut tiles: TileIterator) -> Vec<TileCoords> {
    let mut seen = Vec::new();
    while let Some(coords) = tiles.next() {
        seen.push(coords);
    }
    seen
}

#[test]
fn three_levels_have_twenty_one_tiles() {
    let seen = all(TileIterator::over(0, 2));
    assert_eq!(seen.len(), 1 + 4 + 16);
    let unique: HashSet<TileCoords> = seen.iter().copied().collect();
    assert_eq!(unique.len(), 21);
    for coords in &seen {
        assert!(coords.location.x < 1 << coords.zoom);
        assert!(coords.location.y < 1 << coords.zoom);
    }
}

#[test]
fn one_level_is_walked_row_by_row() {
    let seen: Vec<(u32, u32, u32)> =
        all(TileIterator::new(1)).iter().map(|c| (c.zoom, c.location.x, c.location.y)).collect();
    assert_eq!(seen, vec![(1, 0, 0), (1, 1, 0), (1, 0, 1), (1, 1, 1)]);
}

#[test]
fn levels_follow_one_another() {
    let seen: Vec<(u32, u32, u32)> =
        all(TileIterator::over(0, 1)).iter().map(|c| (c.zoom, c.location.x, c.location.y)).collect();
    assert_eq!(seen, vec![(0, 0, 0), (1, 0, 0), (1, 1, 0), (1, 0, 1), (1, 1, 1)]);
}

#[test]
fn the_end_stays_the_end() {
    let mut tiles = TileIterator::new(0);
    assert_eq!(tiles.next(), Some(TileCoords::new(Vector2 { x: 0, y: 0 }, 0)));
    assert_eq!(tiles.next(), None);
    assert_eq!(tiles.next(), None);
}

#[test]
fn greatest_coordinate_of_a_level() {
    assert_eq!(TileIterator::max_coords_for_zoom_level(0), 0);
    assert_eq!(TileIterator::max_coords_for_zoom_level(3), 7);
    assert_eq!(TileIterator::max_coords_for_zoom_level(31), u32::MAX / 2);
}

fn layer() -> Layer<i64> {
    Layer::new(
        r#"<svg width="100" height="100"><rect id="a" x="0" y="0" width="10" height="10"/><rect id="b" x="60" y="60" width="10" height="10"/></svg>"#,
        BoundingSquare::new(Vector2::new(0, 0), 100),
    )
    .unwrap()
}

#[test]
fn tile_squares_halve_with_each_level() {
    let layer = layer();
    let square = layer.bounds_for_tile_coords(&TileCoords::new(Vector2 { x: 1, y: 0 }, 1));
    assert_eq!((square.top_left.x, square.top_left.y, square.size), (50, 0, 50));
    let square = layer.bounds_for_tile_coords(&TileCoords::new(Vector2 { x: 3, y: 2 }, 2));
    assert_eq!((square.top_left.x, square.top_left.y, square.size), (75, 50, 25));
    let layer = Layer::<i64>::new("<svg/>", BoundingSquare::new(Vector2::new(8, 16), 64)).unwrap();
    let square = layer.bounds_for_tile_coords(&TileCoords::new(Vector2 { x: 0, y: 0 }, 0));
    assert_eq!((square.top_left.x, square.top_left.y, square.size), (8, 16, 64));
}

#[test]
fn tile_has_view_box_and_no_size() {
    let tile = layer().tile(&TileCoords::new(Vector2 { x: 0, y: 0 }, 0));
    assert_eq!(tile.image.attributes.get("viewBox").unwrap(), "0 0 100 100");
    assert!(tile.image.attributes.get("width").is_none());
    assert!(tile.image.attributes.get("height").is_none());
    assert_eq!(tile.image.children.len(), 2);
}

#[test]
fn empty_tile_is_the_placeholder() {
    let layer = Layer::<i64>::new(
        r#"<rect x="500" y="500" width="1" height="1"/>"#,
        BoundingSquare::new(Vector2::new(0, 0), 100),
    )
    .unwrap();
    let tile = layer.tile(&TileCoords::new(Vector2 { x: 0, y: 0 }, 0));
    assert_eq!(tile.image.tag_name, "svg");
    assert!(tile.image.children.is_empty());
    assert_eq!(tile.image.attributes.get("viewBox").unwrap(), "0 0 100 100");
    assert_eq!(tile.image.attributes.pairs().len(), 1);
}
