use indoor_map_lib::map_data::compiled;
use indoor_map_lib::map_data::uncompiled::{svg_rooms, MapData, MapDataError, Room};
use indoor_map_lib::map_data::{Edge, EdgeError, EdgeValue, Floor, RoomTag, Vertex, VertexTag};
use indoor_map_lib::svg_parser::{read_events, SvgEvent};
use indoor_map_lib::svg_room::{SvgRoom, SvgRoomShape};
use indoor_map_lib::util::DegeneratePolygon;

fn strings(items: &[&str]) -> Vec<String> {
    items.iter().map(|s| s.to_string()).collect()
}

fn first_event(markup: &str) -> SvgEvent {
    read_events(markup).unwrap().remove(0)
}

#[test]
fn rectangle_room() {
    let room =
        SvgRoom::<i64>::try_from(&first_event(r#"<rect id="room106" x="1" y="2" width="3" height="4"/>"#))
            .unwrap();
    assert_eq!(room.get_number(), "106");
    assert!(matches!(room.shape, SvgRoomShape::Rect { width: 3, height: 4, x: 1, y: 2 }));
    assert_eq!(room.outline((0, 0)), vec![(1, -2), (1, -6), (4, -6), (4, -2)]);
    assert_eq!(room.outline((10, 100)), vec![(-9, 98), (-9, 94), (-6, 94), (-6, 98)]);
}

#[test]
fn path_room() {
    let room = SvgRoom::<i64>::try_from(&first_event(r#"<path id="room12b" d="M0,0 l4,0 0,3 z"/>"#)).unwrap();
    assert_eq!(room.get_number(), "12b");
    assert_eq!(room.outline((1, 1)), vec![(-1, 1), (3, 1), (3, -2)]);
}

#[test]
fn what_is_no_room() {
    let refused = [
        r#"<rect x="1" y="2" width="3" height="4"/>"#,
        r#"<rect id="hall" x="1" y="2" width="3" height="4"/>"#,
        r#"<rect id="room1" x="1" y="2" width="3"/>"#,
        r#"<rect id="room1" x="1" y="2" width="3" height="tall"/>"#,
        r#"<rect id="room1" x="1" y="2" width="3mm" height="4"/>"#,
        r#"<path id="room1"/>"#,
        r#"<path id="room1" d="M 1"/>"#,
        r#"<circle id="room1" x="1" y="2" width="3" height="4"/>"#,
        r#"<!-- room1 -->"#,
    ];
    for markup in refused {
        assert!(SvgRoom::<i64>::try_from(&first_event(markup)).is_err(), "{}", markup);
    }
}

#[test]
fn rooms_of_a_drawing() {
    let rooms = svg_rooms::<i64>(
        r#"<svg><rect id="room1" x="0" y="0" width="2" height="2"/><g id="room2"/><path id="room3" d="M0,0 L1,1"/></svg>"#,
    );
    let numbers: Vec<&str> = rooms.iter().map(|room| room.get_number()).collect();
    assert_eq!(numbers, vec!["1", "3"]);
}

fn floor(number: &str) -> Floor<i64> {
    Floor::new(number.to_string(), format!("floor{}.svg", number), (0, 0))
}

fn vertex(floor: &str) -> Vertex<i64> {
    Vertex::new(floor.to_string(), (0, 0), vec![])
}

fn room(vertices: &[&str]) -> Room<i64> {
    Room::new(strings(vertices), vec![], None, vec![])
}

fn sound() -> MapData<i64> {
    MapData::from_parts(
        vec![floor("1"), floor("2")],
        vec![("a".to_string(), vertex("1")), ("b".to_string(), vertex("2"))],
        vec![Edge::new("a".to_string(), "b".to_string(), false)],
        vec![("101".to_string(), room(&["a"])), ("201".to_string(), room(&["b", "a"]))],
    )
}

#[test]
fn sound_map_passes() {
    let data = sound().verify().unwrap();
    assert_eq!(data.get_floors().len(), 2);
    assert_eq!(data.get_floors()[1].get_number(), "2");
    assert_eq!(data.get_floors()[1].get_image(), "floor2.svg");
    assert_eq!(data.get_floors()[1].get_offsets(), (0, 0));
    assert_eq!(data.vertices[1].1.get_floor(), "2");
}

#[test]
fn first_fault_is_reported() {
    let mut data = sound();
    data.floors.push(floor("1"));
    data.vertices.push(("c".to_string(), vertex("9")));
    let error = data.verify().unwrap_err();
    assert_eq!(error, MapDataError::RepeatedFloorNumber("1".to_string()));
    assert_eq!(error.message(), "The floor number `1` was repeated");

    let mut data = sound();
    data.vertices.push(("c".to_string(), vertex("9")));
    data.rooms.push(("301".to_string(), room(&["z"])));
    let error = data.verify().unwrap_err();
    assert_eq!(error, MapDataError::UndefinedFloorNumber("9".to_string()));
    assert_eq!(error.message(), "The floor number `9` is undefined");

    let mut data = sound();
    data.rooms.push(("301".to_string(), room(&["a", "z", "y"])));
    data.edges.push(Edge::new("a".to_string(), "q".to_string(), true));
    let error = data.verify().unwrap_err();
    assert_eq!(error, MapDataError::UndefinedVertexId("z".to_string()));
    assert_eq!(error.message(), "The vertex ID `z` is undefined");

    let mut data = sound();
    data.edges.push(Edge::new("a".to_string(), "q".to_string(), true));
    assert_eq!(data.verify().unwrap_err(), MapDataError::UndefinedVertexId("q".to_string()));

    let mut data = sound();
    data.edges.push(Edge::new("p".to_string(), "q".to_string(), true));
    assert_eq!(data.verify().unwrap_err(), MapDataError::UndefinedVertexId("p".to_string()));
}

#[test]
fn reject_repeat_vertex_id() {
    let mut data = sound();
    data.vertices.push(("a".to_string(), vertex("1")));
    match data.verify() {
        Err(error) => match error {
            MapDataError::RepeatedVertexId(id) => assert_eq!("a", &id),
            _ => panic!("Should be repeated vertex id"),
        },
        Ok(_) => panic!("Should be error"),
    }
    assert_eq!(
        MapDataError::RepeatedVertexId("a".to_string()).message(),
        "The vertex ID `a` was repeated"
    );
}

#[test]
fn room_is_found_and_changed() {
    let mut data = sound();
    assert!(data.room_mut("999").is_none());
    data.room_mut("201").unwrap().set_center(Some((4, 5)));
    assert_eq!(data.rooms[1].1.center(), &Some((4, 5)));
    assert_eq!(data.rooms[0].1.center(), &None);
}

#[test]
fn room_is_joined_with_its_outline() {
    let outline = vec![(0, 0), (0, 2), (2, 2), (2, 0)];
    let compiled = Room::<i64>::new(strings(&["a"]), strings(&["lab"]), None, vec![RoomTag::Closed])
        .compile(outline.clone())
        .unwrap();
    assert_eq!(compiled.center, (1, 1));
    assert_eq!(compiled.area, 4);
    assert_eq!(compiled.outline, outline);
    assert_eq!(compiled.vertices, strings(&["a"]));
    assert_eq!(compiled.names, strings(&["lab"]));
    assert_eq!(compiled.tags, vec![RoomTag::Closed]);

    let given = Room::<i64>::new(vec![], vec![], Some((7, 8)), vec![]).compile(vec![]).unwrap();
    assert_eq!(given.center, (7, 8));
    assert_eq!(given.area, 0);

    let flat = Room::<i64>::new(vec![], vec![], None, vec![]).compile(vec![(0, 0), (1, 1)]);
    assert_eq!(flat.unwrap_err(), DegeneratePolygon);
}

#[test]
fn outline_can_be_replaced() {
    let mut compiled =
        Room::<i64>::new(vec![], vec![], Some((0, 0)), vec![]).compile(vec![(1, 1)]).unwrap();
    compiled.set_outline(vec![(2, 2), (3, 3)]);
    assert_eq!(compiled.outline, vec![(2, 2), (3, 3)]);
}

#[test]
fn map_is_compiled_from_the_drawings_of_its_floors() {
    let images = vec![
        (
            r#"<svg><rect id="room101" x="0" y="0" width="4" height="2"/><rect id="room777" x="0" y="0" width="1" height="1"/></svg>"#
                .to_string(),
            (0, 0),
        ),
        (r#"<svg><path id="room201" d="M0,0 L6,0 L0,-6 z"/></svg>"#.to_string(), (10, 20)),
    ];
    let compiled = sound().compile(&images).unwrap();
    assert_eq!(compiled.floors.len(), 2);
    assert_eq!(compiled.vertices.len(), 2);
    assert_eq!(compiled.edges.len(), 1);
    let numbers: Vec<&str> = compiled.rooms.iter().map(|(number, _)| number.as_str()).collect();
    assert_eq!(numbers, vec!["101", "201"]);
    let first = &compiled.rooms[0].1;
    assert_eq!(first.outline, vec![(0, 0), (0, -2), (4, -2), (4, 0)]);
    assert_eq!(first.area, 8);
    assert_eq!(first.center, (2, -1));
    assert_eq!(first.vertices, strings(&["a"]));
    let second = &compiled.rooms[1].1;
    assert_eq!(second.outline, vec![(-10, 20), (-4, 20), (-10, 26)]);
    assert_eq!(second.area, 18);
    assert_eq!(second.center, (-8, 22));
}

#[test]
fn map_with_a_flat_room_is_refused() {
    let images = vec![(r#"<rect id="room101" x="0" y="0" width="4" height="0"/>"#.to_string(), (0, 0))];
    assert_eq!(sound().compile(&images).unwrap_err(), DegeneratePolygon);
}

#[test]
fn floors_of_vertices() {
    let compiled = sound().compile(&vec![]).unwrap();
    assert!(compiled.rooms.is_empty());
    let floors = compiled::get_floors_for_vertices(&compiled);
    assert_eq!(floors.get("a").unwrap(), "1");
    assert_eq!(floors.get("b").unwrap(), "2");
    assert!(floors.get("c").is_none());
    let room = Room::<i64>::new(strings(&["b", "a"]), vec![], Some((0, 0)), vec![]).compile(vec![]).unwrap();
    assert!(compiled::room_on_floor(&room, "2", &floors));
    assert!(!compiled::room_on_floor(&room, "1", &floors));
    let nowhere = Room::<i64>::new(strings(&["z"]), vec![], Some((0, 0)), vec![]).compile(vec![]).unwrap();
    assert!(!compiled::room_on_floor(&nowhere, "1", &floors));
}

fn text(value: &str) -> EdgeValue {
    EdgeValue::String(value.to_string())
}

#[test]
fn edge_from_values() {
    assert_eq!(
        Edge::try_from(&vec![text("c"), text("b")]),
        Ok(Edge::new("c".to_string(), "b".to_string(), false))
    );
    assert_eq!(
        Edge::try_from(&vec![text("a"), text("b"), EdgeValue::Bool(true)]),
        Ok(Edge::new("a".to_string(), "b".to_string(), true))
    );
    assert_eq!(
        Edge::try_from(&vec![text("a"), text("b"), EdgeValue::Bool(false)]),
        Ok(Edge::new("a".to_string(), "b".to_string(), false))
    );
    assert_eq!(Edge::try_from(&vec![]), Err(EdgeError::MissingFrom));
    assert_eq!(Edge::try_from(&vec![EdgeValue::Other]), Err(EdgeError::FromNotString));
    assert_eq!(Edge::try_from(&vec![text("a")]), Err(EdgeError::MissingTo));
    assert_eq!(Edge::try_from(&vec![text("a"), EdgeValue::Bool(true)]), Err(EdgeError::ToNotString));
    assert_eq!(
        Edge::try_from(&vec![text("a"), text("b"), text("c")]),
        Err(EdgeError::DirectedNotBool)
    );
    assert_eq!(
        Edge::try_from(&vec![text("a"), text("b"), EdgeValue::Bool(true), EdgeValue::Other]),
        Err(EdgeError::ArrayTooLong)
    );
    assert_eq!(EdgeError::MissingFrom.message(), "Missing from");
    assert_eq!(EdgeError::FromNotString.message(), "From not a string");
    assert_eq!(EdgeError::MissingTo.message(), "Missing to");
    assert_eq!(EdgeError::ToNotString.message(), "To not a string");
    assert_eq!(EdgeError::DirectedNotBool.message(), "Directed not a bool");
    assert_eq!(EdgeError::ArrayTooLong.message(), "Array too long");
}

#[test]
fn edge_into_values() {
    assert_eq!(
        Edge::new("a".to_string(), "b".to_string(), true).into_values(),
        vec![text("a"), text("b"), EdgeValue::Bool(true)]
    );
    assert_eq!(
        Edge::new("a".to_string(), "b".to_string(), false).into_values(),
        vec![text("a"), text("b")]
    );
}

#[test]
fn vertex_keeps_its_tags() {
    let vertex = Vertex::<i64>::new("1".to_string(), (3, 4), vec![VertexTag::Stairs, VertexTag::Up]);
    assert_eq!(vertex.tags, vec![VertexTag::Stairs, VertexTag::Up]);
    assert_eq!(vertex.location, (3, 4));
}
