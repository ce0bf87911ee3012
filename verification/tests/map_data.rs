use indoor_map_lib::map_data::uncompiled::{MapData, MapDataError, Room};
use indoor_map_lib::map_data::{Edge, Floor, Vertex, VertexTag};
use indoor_map_lib::scalar::Scalar;

#[derive(Clone, Copy, Debug, PartialEq)]
struct Real(f32);

impl Scalar for Real {
    fn zero() -> Self {
        Real(0.0)
    }

    fn one() -> Self {
        Real(1.0)
    }

    fn from_u32(n: u32) -> Self {
        Real(n as f32)
    }

    fn largest() -> Self {
        Real(f32::MAX)
    }

    fn smallest() -> Self {
        Real(f32::MIN)
    }

    fn plus(self, rhs: Self) -> Self {
        Real(self.0 + rhs.0)
    }

    fn minus(self, rhs: Self) -> Self {
        Real(self.0 - rhs.0)
    }

    fn times(self, rhs: Self) -> Self {
        Real(self.0 * rhs.0)
    }

    fn over(self, rhs: Self) -> Self {
        Real(self.0 / rhs.0)
    }

    fn negated(self) -> Self {
        Real(-self.0)
    }

    fn less_than(self, rhs: Self) -> bool {
        self.0 < rhs.0
    }

    fn cosine_degrees(self) -> Self {
        Real(self.0.to_radians().cos())
    }

    fn sine_degrees(self) -> Self {
        Real(self.0.to_radians().sin())
    }

    fn parse(text: &str) -> Option<Self> {
        text.parse().ok().map(Real)
    }

    fn to_text(self) -> String {
        self.0.to_string()
    }
}

fn strings(items: &[&str]) -> Vec<String> {
    items.iter().map(|s| s.to_string()).collect()
}

fn vertex(floor: &str, x: f32, y: f32, tags: Vec<VertexTag>) -> Vertex<Real> {
    Vertex::new(floor.to_string(), (Real(x), Real(y)), tags)
}

fn simple() -> MapData<Real> {
    MapData::from_parts(
        vec![Floor::new(
            "1".to_string(),
            "assets/map/1st_floor.svg".to_string(),
            (Real(0.0), Real(0.0)),
        )],
        vec![
            ("a".to_string(), vertex("1", 434.875, 288.0, vec![VertexTag::Stairs])),
            ("b".to_string(), vertex("1", 0.0, 0.0, vec![])),
            ("c".to_string(), vertex("1", 0.0, 1.0, vec![])),
        ],
        vec![
            Edge::new("c".to_string(), "b".to_string(), false),
            Edge::new("a".to_string(), "b".to_string(), true),
        ],
        vec![
            ("106".to_string(), Room::new(strings(&["a"]), vec![], None, vec![])),
            (
                "107".to_string(),
                Room::new(
                    strings(&["b", "c"]),
                    strings(&["guidance", "guidance office", "counselors", "counseling office"]),
                    Some((Real(489.9375), Real(36.9375))),
                    vec![],
                ),
            ),
        ],
    )
}

fn repeat_floor_number() -> MapData<Real> {
    let mut data = simple();
    data.floors.push(Floor::new(
        "1".to_string(),
        "assets/map/2nd_floor.svg".to_string(),
        (Real(0.0), Real(0.0)),
    ));
    data
}

fn undefined_floor_number_vertex() -> MapData<Real> {
    let mut data = simple();
    data.vertices[1].1.floor = "2".to_string();
    data
}

fn undefined_vertex_id_room() -> MapData<Real> {
    let mut data = simple();
    data.vertices.remove(0);
    data.edges.remove(1);
    data
}

fn undefined_vertex_id_edge() -> MapData<Real> {
    let mut data = simple();
    data.vertices.remove(1);
    data.rooms[1].1.vertices.remove(0);
    data
}

fn check_simple(map_data: MapData<Real>) {
    let actual_map_data = simple();
    assert_eq!(format!("{:?}", actual_map_data), format!("{:?}", map_data));
    assert_eq!(map_data.vertices[0].1.location, (Real(434.875), Real(288.0)));
    assert_eq!(map_data.rooms[1].1.center, Some((Real(489.9375), Real(36.9375))));
    assert_eq!(map_data.rooms[0].0, "106");
    assert_eq!(map_data.rooms[1].0, "107");
    assert_eq!(map_data.floors[0].image, "assets/map/1st_floor.svg");
}

#[test]
fn lib_construct_simple_data() {
    let map_data = simple().verify().unwrap();
    check_simple(map_data);
}

#[test]
fn mod_construct_simple_data() {
    let map_data = simple().verify().unwrap();
    check_simple(map_data);
}

#[test]
fn lib_reject_repeat_floor_number() {
    let map_data = repeat_floor_number().verify();
    match map_data {
        Err(error) => match error {
            MapDataError::RepeatedFloorNumber(number) => assert_eq!("1", &number),
            _ => panic!("Should be repeated floor number 1"),
        },
        Ok(_) => panic!("Should be error"),
    }
}

#[test]
fn mod_reject_repeat_floor_number() {
    let map_data = repeat_floor_number().verify();
    match map_data {
        Err(error) => match error {
            MapDataError::RepeatedFloorNumber(number) => assert_eq!("1", &number),
            _ => panic!("Should be repeated floor number 1, was {:?}", error),
        },
        Ok(_) => panic!("Should be error"),
    }
}

#[test]
fn lib_reject_undefined_floor_number_vertex() {
    let map_data = undefined_floor_number_vertex().verify();
    match map_data {
        Err(error) => match error {
            MapDataError::UndefinedFloorNumber(floor_number) => {
                assert_eq!("2".to_owned(), floor_number);
            }
            _ => panic!("Should be undefined floor numbers"),
        },
        Ok(_) => panic!("Should be error"),
    }
}

#[test]
fn mod_reject_undefined_floor_number_vertex() {
    let map_data = undefined_floor_number_vertex().verify();
    match map_data {
        Err(error) => match error {
            MapDataError::UndefinedFloorNumber(floor_number) => {
                assert_eq!("2".to_owned(), floor_number);
            }
            _ => panic!("Should be undefined floor numbers"),
        },
        Ok(_) => panic!("Should be error"),
    }
}

#[test]
fn lib_reject_undefined_vertex_id_room() {
    let map_data = undefined_vertex_id_room().verify();
    match map_data {
        Err(error) => match error {
            MapDataError::UndefinedVertexId(vertex_id) => {
                assert_eq!("a".to_owned(), vertex_id);
            }
            _ => panic!("Should be undefined vertex id"),
        },
        Ok(_) => panic!("Should be error"),
    }
}

#[test]
fn mod_reject_undefined_vertex_id_room() {
    let map_data = undefined_vertex_id_room().verify();
    match map_data {
        Err(error) => match error {
            MapDataError::UndefinedVertexId(vertex_id) => {
                assert_eq!("a".to_owned(), vertex_id);
            }
            _ => panic!("Should be undefined vertex id, was {:?}", error),
        },
        Ok(_) => panic!("Should be error"),
    }
}

#[test]
fn lib_reject_undefined_vertex_id_edge() {
    let map_data = undefined_vertex_id_edge().verify();
    match map_data {
        Err(error) => match error {
            MapDataError::UndefinedVertexId(vertex_id) => {
                assert_eq!("b".to_owned(), vertex_id);
            }
            _ => panic!("Should be undefined vertex id"),
        },
        Ok(_) => panic!("Should be error"),
    }
}

#[test]
fn mod_reject_undefined_vertex_id_edge() {
    let map_data = undefined_vertex_id_edge().verify();
    match map_data {
        Err(error) => match error {
            MapDataError::UndefinedVertexId(vertex_id) => {
                assert_eq!("b".to_owned(), vertex_id);
            }
            _ => panic!("Should be undefined vertex id"),
        },
        Ok(_) => panic!("Should be error"),
    }
}

#[test]
fn room_of_reals_is_joined_with_its_outline() {
    let outline = vec![
        (Real(0.0), Real(0.0)),
        (Real(0.0), Real(2.5)),
        (Real(2.0), Real(2.5)),
        (Real(2.0), Real(0.0)),
    ];
    let compiled = Room::<Real>::new(vec![], vec![], None, vec![]).compile(outline).unwrap();
    assert_eq!(compiled.area, Real(5.0));
    assert_eq!(compiled.center, (Real(1.0), Real(1.25)));
}
