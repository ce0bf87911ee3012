use indoor_map_lib::bounding_box::{BoundingBox, BoundingSquare, Vector2};
use indoor_map_lib::scalar::Scalar;
use indoor_map_lib::svg_parser::SvgElement;
use indoor_map_lib::svg_path_parser::{parse_commands, Path};
use indoor_map_lib::tile::{Layer, TileCoords};
use indoor_map_lib::transform::{parse_transform, rotate_deg, rotate_deg_about};
use indoor_map_lib::util::{centroid, max_f64, shoelace_area, DegeneratePolygon};

#[derive(Clone, Copy, Debug, PartialEq)]
struct Real(f64);

impl Scalar for Real {
    fn zero() -> Self {
        Real(0.0)
    }

    fn one() -> Self {
        Real(1.0)
    }

    fn from_u32(n: u32) -> Self {
        Real(n as f64)
    }

    fn largest() -> Self {
        Real(f32::MAX as f64)
    }

    fn smallest() -> Self {
        Real(f32::MIN as f64)
    }

    fn plus(self, rhs: Self) -> Self {
        Real(self.0 + rhs.0)
    }

    fn minus(self, rhs: Self) -> Self {
        Real(self.0 - rhs.0)
    }

    fn times(self, rhs: Self) -> Self {
        Real(self.0 * rhs.0)
    }

    fn over(self, rhs: Self) -> Self {
        Real(self.0 / rhs.0)
    }

    fn negated(self) -> Self {
        Real(-self.0)
    }

    fn less_than(self, rhs: Self) -> bool {
        self.0 < rhs.0
    }

    fn cosine_degrees(self) -> Self {
        Real(self.0.to_radians().cos())
    }

    fn sine_degrees(self) -> Self {
        Real(self.0.to_radians().sin())
    }

    fn parse(text: &str) -> Option<Self> {
        text.parse().ok().map(Real)
    }

    fn to_text(self) -> String {
        self.0.to_string()
    }
}

fn reals(points: &[(f64, f64)]) -> Vec<(Real, Real)> {
    points.iter().map(|&(x, y)| (Real(x), Real(y))).collect()
}

fn close(actual: Real, expected: f64) -> bool {
    (actual.0 - expected).abs() < 1e-9
}

#[test]
fn square_has_area_four_and_centroid_one_one() {
    let square = reals(&[(0.0, 0.0), (0.0, 2.0), (2.0, 2.0), (2.0, 0.0)]);
    assert_eq!(shoelace_area(&square), Real(-4.0));
    assert_eq!(shoelace_area(&square).0.abs(), 4.0);
    assert_eq!(centroid(&square), Ok((Real(1.0), Real(1.0))));
}

#[test]
fn counter_clockwise_is_positive_and_clockwise_negative() {
    let counter_clockwise = reals(&[(0.0, 0.0), (3.0, 0.0), (3.0, 1.5), (0.0, 1.5)]);
    assert_eq!(shoelace_area(&counter_clockwise), Real(4.5));
    let clockwise: Vec<(Real, Real)> = counter_clockwise.iter().rev().copied().collect();
    assert_eq!(shoelace_area(&clockwise), Real(-4.5));
    let mut rotated = counter_clockwise.clone();
    rotated.rotate_left(1);
    assert_eq!(shoelace_area(&rotated), Real(4.5));
}

#[test]
fn triangle_centroid_is_the_mean_of_its_corners() {
    let triangle = reals(&[(0.0, 0.0), (6.0, 0.0), (0.0, 3.0)]);
    assert_eq!(shoelace_area(&triangle), Real(9.0));
    let (x, y) = centroid(&triangle).unwrap();
    assert!(close(x, 2.0));
    assert!(close(y, 1.0));
}

#[test]
fn polygon_without_area_has_no_centroid() {
    assert_eq!(centroid(&reals(&[(0.0, 0.0), (1.0, 1.0), (2.0, 2.0)])), Err(DegeneratePolygon));
    assert_eq!(centroid(&reals(&[(5.0, 5.0)])), Err(DegeneratePolygon));
    assert_eq!(centroid::<Real>(&vec![]), Err(DegeneratePolygon));
    assert_eq!(shoelace_area::<Real>(&vec![]), Real(0.0));
}

#[test]
fn greatest_real() {
    assert_eq!(max_f64(&vec![Real(1.5), Real(-2.0), Real(7.25), Real(3.0)]), Some(Real(7.25)));
}

#[test]
fn translate_then_scale_on_reals() {
    let composed = parse_transform::<Real>("translate(1,1)")
        .unwrap()
        .times(&parse_transform("scale(2)").unwrap());
    assert_eq!(composed.apply(Vector2::new(Real(0.0), Real(0.0))), Vector2::new(Real(1.0), Real(1.0)));
    assert_eq!(composed.apply(Vector2::new(Real(1.0), Real(0.0))), Vector2::new(Real(3.0), Real(1.0)));
}

#[test]
fn rotation_by_an_eighth_turn() {
    let turned = rotate_deg(Real(45.0)).apply(Vector2::new(Real(1.0), Real(0.0)));
    assert!(close(turned.x, 0.5f64.sqrt()));
    assert!(close(turned.y, 0.5f64.sqrt()));
    let about = rotate_deg_about(Real(90.0), Vector2::new(Real(1.0), Real(1.0)))
        .apply(Vector2::new(Real(2.0), Real(1.0)));
    assert!(close(about.x, 1.0));
    assert!(close(about.y, 2.0));
    let parsed = parse_transform::<Real>("rotate(90,1,1)").unwrap().apply(Vector2::new(Real(2.0), Real(1.0)));
    assert!(close(parsed.x, 1.0));
    assert!(close(parsed.y, 2.0));
}

#[test]
fn matrix_with_decimals() {
    let matrix = parse_transform::<Real>("matrix(1.5 0 0 2 10.25 -3)").unwrap();
    assert_eq!(
        matrix.apply(Vector2::new(Real(2.0), Real(1.0))),
        Vector2::new(Real(13.25), Real(-1.0))
    );
}

#[test]
fn rectangle_with_decimals_and_units() {
    let root = SvgElement::<Real>::from_svg_data(
        r#"<svg width="210.5mm" height="297mm"><rect x="1.5" y="2.25" width="3" height="4.5" transform="translate(0.5 0.75)"/></svg>"#,
    )
    .unwrap();
    let child = root.children[0].get_bounding_box();
    assert_eq!(child.top_left, Vector2::new(Real(2.0), Real(3.0)));
    assert_eq!(child.size, Vector2::new(Real(3.0), Real(4.5)));
    assert_eq!(root.get_bounding_box().size, Vector2::new(Real(210.5), Real(297.0)));
}

#[test]
fn path_with_decimals() {
    let commands = parse_commands::<Real>("M 0.5 1.5 l 1 1 h 2.5 V -4").unwrap();
    let path = Path::from_commands(&commands).unwrap();
    let points: Vec<(f64, f64)> = path.commands().iter().map(|c| (c.0 .0, c.1 .0)).collect();
    assert_eq!(points, vec![(0.5, 1.5), (1.5, 2.5), (4.0, 2.5), (4.0, -4.0)]);
    let bounds = BoundingBox::from_path(&path);
    assert_eq!(bounds.top_left, Vector2::new(Real(0.5), Real(-4.0)));
    assert_eq!(bounds.size, Vector2::new(Real(3.5), Real(6.5)));
}

#[test]
fn box_around_no_points() {
    let path = Path::<Real>::from_commands(&vec![]).unwrap();
    let bounds = BoundingBox::from_path(&path);
    assert_eq!(bounds.top_left.x, Real(f32::MAX as f64));
    assert_eq!(bounds.size.x, Real(f32::MIN as f64 - f32::MAX as f64));
}

#[test]
fn view_box_is_written_with_spaces() {
    let bounds = BoundingBox::new(Vector2::new(Real(12.5), Real(0.0)), Vector2::new(Real(12.5), Real(100.0)));
    assert_eq!(bounds.as_view_box(), "12.5 0 12.5 100");
}

#[test]
fn square_around_a_box() {
    let bounds = BoundingBox::new(Vector2::new(Real(1.0), Real(2.0)), Vector2::new(Real(3.0), Real(7.5)));
    let square = BoundingSquare::contain_bounding_box(&bounds);
    assert_eq!(square.get_top_left(), Vector2::new(Real(1.0), Real(2.0)));
    assert_eq!(square.edge_length(), Real(7.5));
    let back = square.as_bounding_box();
    assert_eq!(back.get_size(), Vector2::new(Real(7.5), Real(7.5)));
    assert_eq!(back.get_bottom_right(), Vector2::new(Real(8.5), Real(9.5)));
}

#[test]
fn tiles_of_a_real_layer() {
    let layer = Layer::<Real>::new(
        r#"<svg width="100" height="100"><rect id="a" x="0" y="0" width="10" height="10"/><rect id="b" x="60" y="60" width="10" height="10"/></svg>"#,
        BoundingSquare::new(Vector2::new(Real(10.0), Real(20.0)), Real(100.0)),
    )
    .unwrap();
    let square = layer.bounds_for_tile_coords(&TileCoords::new(Vector2 { x: 1, y: 2 }, 3));
    assert_eq!(square.edge_length(), Real(12.5));
    assert_eq!(square.get_top_left(), Vector2::new(Real(22.5), Real(45.0)));
    let tile = layer.tile(&TileCoords::new(Vector2 { x: 1, y: 1 }, 1));
    assert_eq!(tile.image.attributes.get("viewBox").unwrap(), "60 70 50 50");
    assert_eq!(tile.image.tag_name, "svg");
    let ids: Vec<&String> =
        tile.image.children.iter().map(|child| child.attributes.get("id").unwrap()).collect();
    assert_eq!(ids, vec!["b"]);
    let empty = layer.tile(&TileCoords::new(Vector2 { x: 7, y: 7 }, 3));
    assert!(empty.image.children.is_empty());
    assert_eq!(empty.image.attributes.get("viewBox").unwrap(), "97.5 107.5 12.5 12.5");
}
