//! The map of a building as it is written down, and the checks it has to
//! pass.
use vstd::prelude::*;
use crate::map_data::{compiled, Edge, Floor, RoomTag, Vertex};
use crate::scalar::Scalar;
use crate::svg_parser::{event_views, read_events, svg_events, EventView};
use crate::svg_room::{outline_spec, room_of, SvgRoom};
use crate::util::{
    centroid, centroid_spec, first_repeat, first_undefined, shoelace_area, shoelace_area_spec,
    texts, undefined, unique, DegeneratePolygon,
};

verus! {

/// What is wrong with a map.
#[derive(Debug, PartialEq, Eq)]
pub enum MapDataError {
    RepeatedFloorNumber(String),
    RepeatedVertexId(String),
    UndefinedFloorNumber(String),
    UndefinedVertexId(String),
}

/// An error with its text as a sequence of characters.
pub enum MapDataErrorView {
    RepeatedFloorNumber(Seq<char>),
    RepeatedVertexId(Seq<char>),
    UndefinedFloorNumber(Seq<char>),
    UndefinedVertexId(Seq<char>),
}

impl View for MapDataError {
    type V = MapDataErrorView;

    open spec fn view(&self) -> MapDataErrorView {
        match self {
            MapDataError::RepeatedFloorNumber(text) => MapDataErrorView::RepeatedFloorNumber(text@),
            MapDataError::RepeatedVertexId(text) => MapDataErrorView::RepeatedVertexId(text@),
            MapDataError::UndefinedFloorNumber(text) => MapDataErrorView::UndefinedFloorNumber(
                text@,
            ),
            MapDataError::UndefinedVertexId(text) => MapDataErrorView::UndefinedVertexId(text@),
        }
    }
}

impl MapDataError {
    /// The error in words.
    pub fn message(&self) -> (r: String)
        ensures
            r@ == match self@ {
                MapDataErrorView::RepeatedFloorNumber(text) => "The floor number `"@ + text
                    + "` was repeated"@,
                MapDataErrorView::RepeatedVertexId(text) => "The vertex ID `"@ + text
                    + "` was repeated"@,
                MapDataErrorView::UndefinedFloorNumber(text) => "The floor number `"@ + text
                    + "` is undefined"@,
                MapDataErrorView::UndefinedVertexId(text) => "The vertex ID `"@ + text
                    + "` is undefined"@,
            },
    {
        let (start, text, end) = match self {
            MapDataError::RepeatedFloorNumber(text) => ("The floor number `", text, "` was repeated"),
            MapDataError::RepeatedVertexId(text) => ("The vertex ID `", text, "` was repeated"),
            MapDataError::UndefinedFloorNumber(text) => (
                "The floor number `",
                text,
                "` is undefined",
            ),
            MapDataError::UndefinedVertexId(text) => ("The vertex ID `", text, "` is undefined"),
        };
        let mut message = start.to_owned();
        message.append(text.as_str());
        message.append(end);
        message
    }
}

/// A room as it is written down: the vertices at its doors, its names, its
/// center where one is given, and its tags.
#[derive(Debug)]
pub struct Room<T> {
    pub vertices: Vec<String>,
    pub names: Vec<String>,
    pub center: Option<(T, T)>,
    pub tags: Vec<RoomTag>,
}

/// A room with its texts as sequences.
pub struct RoomView<T> {
    pub vertices: Seq<Seq<char>>,
    pub names: Seq<Seq<char>>,
    pub center: Option<(T, T)>,
    pub tags: Seq<RoomTag>,
}

impl<T> View for Room<T> {
    type V = RoomView<T>;

    open spec fn view(&self) -> RoomView<T> {
        RoomView {
            vertices: texts(self.vertices@),
            names: texts(self.names@),
            center: self.center,
            tags: self.tags@,
        }
    }
}

/// The views of a list of rooms, each with its number.
pub open spec fn room_views<T>(rooms: Seq<(String, Room<T>)>) -> Seq<(Seq<char>, RoomView<T>)> {
    Seq::new(rooms.len(), |i: int| (rooms[i].0@, rooms[i].1@))
}

/// The size of a number: the number itself, or its opposite where it is
/// less than zero.
pub open spec fn magnitude<T: Scalar>(value: T) -> T {
    if value.less_than_spec(T::zero_spec()) {
        value.negated_spec()
    } else {
        value
    }
}

/// The center of a room: the one given, or else the centroid of its
/// outline, which has none where it has no area.
pub open spec fn center_spec<T: Scalar>(given: Option<(T, T)>, outline: Seq<(T, T)>) -> Option<
    (T, T),
> {
    match given {
        Some(center) => Some(center),
        None => centroid_spec(outline),
    }
}

/// A room joined with its outline: its center is the one given or else the
/// centroid of the outline, its area the size of the signed area. `None`
/// where it has no center.
pub open spec fn compile_room<T: Scalar>(room: RoomView<T>, outline: Seq<(T, T)>) -> Option<
    compiled::RoomView<T>,
> {
    match center_spec(room.center, outline) {
        None => None,
        Some(center) => Some(
            compiled::RoomView {
                vertices: room.vertices,
                names: room.names,
                center,
                outline,
                area: magnitude(shoelace_area_spec(outline)),
                tags: room.tags,
            },
        ),
    }
}

impl<T: Scalar> Room<T> {
    pub fn new(
        vertices: Vec<String>,
        names: Vec<String>,
        center: Option<(T, T)>,
        tags: Vec<RoomTag>,
    ) -> (r: Self)
        ensures
            r.vertices == vertices,
            r.names == names,
            r.center == center,
            r.tags == tags,
    {
        Room { vertices, names, center, tags }
    }

    pub fn center(&self) -> (r: &Option<(T, T)>)
        ensures
            *r == self.center,
    {
        &self.center
    }

    pub fn set_center(&mut self, center: Option<(T, T)>)
        ensures
            *final(self) == (Room { center, ..*old(self) }),
    {
        self.center = center;
    }

    /// Joins the room with its outline: its center is the one given or else
    /// the centroid of the outline, its area the size of the signed area.
    /// A room without a center whose outline has no area is refused.
    pub fn compile(self, outline: Vec<(T, T)>) -> (r: Result<compiled::Room<T>, DegeneratePolygon>)
        ensures
            match r {
                Ok(room) => {
                    &&& compile_room(self@, outline@) == Some(room@)
                    &&& room.outline == outline
                    &&& room.vertices == self.vertices
                    &&& room.names == self.names
                    &&& room.tags == self.tags
                },
                Err(_) => compile_room(self@, outline@) is None,
            },
    {
        let center = match self.center {
            Some(center) => center,
            None => match centroid(&outline) {
                Ok(center) => center,
                Err(error) => {
                    return Err(error);
                },
            },
        };
        let signed = shoelace_area(&outline);
        let area = if signed.less_than(T::zero()) {
            signed.negated()
        } else {
            signed
        };
        Ok(
            compiled::Room {
                vertices: self.vertices,
                names: self.names,
                center,
                outline,
                area,
                tags: self.tags,
            },
        )
    }
}

/// The whole map as it is written down; each vertex stands with its name
/// and each room with its number.
#[derive(Debug)]
pub struct MapData<T> {
    pub floors: Vec<Floor<T>>,
    pub vertices: Vec<(String, Vertex<T>)>,
    pub edges: Vec<Edge>,
    pub rooms: Vec<(String, Room<T>)>,
}

/// The numbers of a list of floors.
pub open spec fn floor_numbers<T>(floors: Seq<Floor<T>>) -> Seq<Seq<char>> {
    Seq::new(floors.len(), |i: int| floors[i].number@)
}

/// The names of a list of vertices.
pub open spec fn vertex_ids<T>(vertices: Seq<(String, Vertex<T>)>) -> Seq<Seq<char>> {
    Seq::new(vertices.len(), |i: int| vertices[i].0@)
}

/// The floors that a list of vertices names.
pub open spec fn vertex_floors<T>(vertices: Seq<(String, Vertex<T>)>) -> Seq<Seq<char>> {
    Seq::new(vertices.len(), |i: int| vertices[i].1.floor@)
}

/// The vertices that a list of rooms names, room after room.
pub open spec fn room_vertex_ids<T>(rooms: Seq<(String, Room<T>)>) -> Seq<Seq<char>>
    decreases rooms.len(),
{
    if rooms.len() == 0 {
        Seq::empty()
    } else {
        room_vertex_ids(rooms.drop_last()) + texts(rooms.last().1.vertices@)
    }
}

/// The vertices that a list of edges names: of each edge first the one it
/// leaves, then the one it reaches.
pub open spec fn edge_vertex_ids(edges: Seq<Edge>) -> Seq<Seq<char>>
    decreases edges.len(),
{
    if edges.len() == 0 {
        Seq::empty()
    } else {
        edge_vertex_ids(edges.drop_last()).push(edges.last().from@).push(edges.last().to@)
    }
}

/// What is wrong with a map, if anything is: a floor number or a vertex
/// name that occurs twice, a vertex on a floor that is not there, or a room
/// or an edge at a vertex that is not there. The first fault in this order
/// is the one named.
pub open spec fn fault<T>(data: MapData<T>) -> Option<MapDataErrorView> {
    let floors = floor_numbers(data.floors@);
    let vertices = vertex_ids(data.vertices@);
    match first_repeat(floors) {
        Some(number) => Some(MapDataErrorView::RepeatedFloorNumber(number)),
        None => match first_repeat(vertices) {
            Some(id) => Some(MapDataErrorView::RepeatedVertexId(id)),
            None => match first_undefined(vertex_floors(data.vertices@), floors) {
                Some(number) => Some(MapDataErrorView::UndefinedFloorNumber(number)),
                None => match first_undefined(room_vertex_ids(data.rooms@), vertices) {
                    Some(id) => Some(MapDataErrorView::UndefinedVertexId(id)),
                    None => match first_undefined(edge_vertex_ids(data.edges@), vertices) {
                        Some(id) => Some(MapDataErrorView::UndefinedVertexId(id)),
                        None => None,
                    },
                },
            },
        },
    }
}

impl<T: Scalar> MapData<T> {
    pub fn from_parts(
        floors: Vec<Floor<T>>,
        vertices: Vec<(String, Vertex<T>)>,
        edges: Vec<Edge>,
        rooms: Vec<(String, Room<T>)>,
    ) -> (r: Self)
        ensures
            r == (MapData { floors, vertices, edges, rooms }),
    {
        MapData { floors, vertices, edges, rooms }
    }

    fn list_floor_numbers(&self) -> (r: Vec<String>)
        ensures
            texts(r@) == floor_numbers(self.floors@),
    {
        let mut numbers: Vec<String> = Vec::new();
        let mut i: usize = 0;
        while i < self.floors.len()
            invariant
                i <= self.floors.len(),
                texts(numbers@) == floor_numbers(self.floors@).take(i as int),
            decreases self.floors.len() - i,
        {
            let ghost before = texts(numbers@);
            numbers.push(self.floors[i].number.clone());
            assert(texts(numbers@) == before.push(self.floors[i as int].number@));
            assert(texts(numbers@) == floor_numbers(self.floors@).take(i + 1));
            i += 1;
        }
        assert(floor_numbers(self.floors@).take(i as int) == floor_numbers(self.floors@));
        numbers
    }

    fn list_vertices(&self) -> (r: (Vec<String>, Vec<String>))
        ensures
            texts(r.0@) == vertex_ids(self.vertices@),
            texts(r.1@) == vertex_floors(self.vertices@),
    {
        let mut ids: Vec<String> = Vec::new();
        let mut floors: Vec<String> = Vec::new();
        let mut i: usize = 0;
        while i < self.vertices.len()
            invariant
                i <= self.vertices.len(),
                texts(ids@) == vertex_ids(self.vertices@).take(i as int),
                texts(floors@) == vertex_floors(self.vertices@).take(i as int),
            decreases self.vertices.len() - i,
        {
            let ghost ids_before = texts(ids@);
            let ghost floors_before = texts(floors@);
            ids.push(self.vertices[i].0.clone());
            floors.push(self.vertices[i].1.floor.clone());
            assert(texts(ids@) == ids_before.push(self.vertices[i as int].0@));
            assert(texts(floors@) == floors_before.push(self.vertices[i as int].1.floor@));
            assert(texts(ids@) == vertex_ids(self.vertices@).take(i + 1));
            assert(texts(floors@) == vertex_floors(self.vertices@).take(i + 1));
            i += 1;
        }
        assert(vertex_ids(self.vertices@).take(i as int) == vertex_ids(self.vertices@));
        assert(vertex_floors(self.vertices@).take(i as int) == vertex_floors(self.vertices@));
        (ids, floors)
    }

    fn list_room_vertices(&self) -> (r: Vec<String>)
        ensures
            texts(r@) == room_vertex_ids(self.rooms@),
    {
        let mut ids: Vec<String> = Vec::new();
        let mut i: usize = 0;
        assert(texts(ids@) == room_vertex_ids(self.rooms@.take(0)));
        while i < self.rooms.len()
            invariant
                i <= self.rooms.len(),
                texts(ids@) == room_vertex_ids(self.rooms@.take(i as int)),
            decreases self.rooms.len() - i,
        {
            assert(self.rooms@.take(i + 1).drop_last() == self.rooms@.take(i as int));
            let names = &self.rooms[i].1.vertices;
            let ghost before = texts(ids@);
            let mut j: usize = 0;
            assert(texts(ids@) == before + texts(names@).take(0));
            while j < names.len()
                invariant
                    j <= names.len(),
                    texts(ids@) == before + texts(names@).take(j as int),
                decreases names.len() - j,
            {
                let ghost so_far = texts(ids@);
                ids.push(names[j].clone());
                assert(texts(ids@) == so_far.push(names[j as int]@));
                assert(texts(names@).take(j + 1) == texts(names@).take(j as int).push(
                    names[j as int]@,
                ));
                assert(texts(ids@) == before + texts(names@).take(j + 1));
                j += 1;
            }
            assert(texts(names@).take(j as int) == texts(names@));
            i += 1;
        }
        assert(self.rooms@.take(i as int) == self.rooms@);
        ids
    }

    fn list_edge_vertices(&self) -> (r: Vec<String>)
        ensures
            texts(r@) == edge_vertex_ids(self.edges@),
    {
        let mut ids: Vec<String> = Vec::new();
        let mut i: usize = 0;
        assert(texts(ids@) == edge_vertex_ids(self.edges@.take(0)));
        while i < self.edges.len()
            invariant
                i <= self.edges.len(),
                texts(ids@) == edge_vertex_ids(self.edges@.take(i as int)),
            decreases self.edges.len() - i,
        {
            assert(self.edges@.take(i + 1).drop_last() == self.edges@.take(i as int));
            let ghost before = texts(ids@);
            ids.push(self.edges[i].from.clone());
            ids.push(self.edges[i].to.clone());
            assert(texts(ids@) == before.push(self.edges[i as int].from@).push(
                self.edges[i as int].to@,
            ));
            i += 1;
        }
        assert(self.edges@.take(i as int) == self.edges@);
        ids
    }

    /// Checks the map and hands it back where nothing is wrong with it.
    pub fn verify(self) -> (r: Result<Self, MapDataError>)
        ensures
            match r {
                Ok(data) => data == self && fault(self) is None,
                Err(error) => fault(self) == Some(error@),
            },
    {
        // Get floor numbers and check that all are unique
        let floor_numbers = match unique(&self.list_floor_numbers()) {
            Ok(numbers) => numbers,
            Err(repeat) => {
                return Err(MapDataError::RepeatedFloorNumber(repeat));
            },
        };
        let (ids, floors) = self.list_vertices();
        let vertex_names = match unique(&ids) {
            Ok(names) => names,
            Err(repeat) => {
                return Err(MapDataError::RepeatedVertexId(repeat));
            },
        };
        // Check that there are no undefined floor numbers
        if let Err(floor_number) = undefined(&floors, &floor_numbers) {
            return Err(MapDataError::UndefinedFloorNumber(floor_number));
        }
        // Check that there are no undefined vertices in the rooms
        if let Err(vertex_id) = undefined(&self.list_room_vertices(), &vertex_names) {
            return Err(MapDataError::UndefinedVertexId(vertex_id));
        }
        // Check that there are no undefined vertices in the edges
        if let Err(vertex_id) = undefined(&self.list_edge_vertices(), &vertex_names) {
            return Err(MapDataError::UndefinedVertexId(vertex_id));
        }
        Ok(self)
    }

    /// The first room of a number, to be changed.
    pub fn room_mut(&mut self, number: &str) -> (r: Option<&mut Room<T>>)
        ensures
            match r {
                Some(room) => {
                    &&& position(room_views(old(self).rooms@), number@) matches Some(i) && *room
                        == old(self).rooms[i].1 && final(self).rooms@ == old(self).rooms@.update(
                        i,
                        (old(self).rooms[i].0, *final(room)),
                    )
                    &&& final(self).floors == old(self).floors
                    &&& final(self).vertices == old(self).vertices
                    &&& final(self).edges == old(self).edges
                },
                None => position(room_views(old(self).rooms@), number@) is None && *final(self)
                    == *old(self),
            },
    {
        match find_room(&self.rooms, number) {
            Some(i) => Some(&mut self.rooms[i].1),
            None => None,
        }
    }

    pub fn get_floors(&self) -> (r: &Vec<Floor<T>>)
        ensures
            r == self.floors,
    {
        &self.floors
    }
}

/// A room found in a drawing: its number and its outline in the coordinates
/// of the map.
pub struct Placement<T> {
    pub number: Seq<char>,
    pub outline: Seq<(T, T)>,
}

/// The rooms that the events of a drawing mark, in their order.
pub open spec fn placed<T: Scalar>(events: Seq<EventView>, offsets: (T, T)) -> Seq<Placement<T>>
    decreases events.len(),
{
    if events.len() == 0 {
        Seq::empty()
    } else {
        let before = placed(events.drop_last(), offsets);
        match room_of::<T>(events.last()) {
            Some(room) => before.push(
                Placement { number: room.number, outline: outline_spec(room.shape, offsets) },
            ),
            None => before,
        }
    }
}

/// The rooms that the drawings of the floors mark, floor after floor. Each
/// drawing comes with the offsets of its floor; one that cannot be read
/// marks no room.
pub open spec fn all_placed<T: Scalar>(floor_images: Seq<(String, (T, T))>) -> Seq<Placement<T>>
    decreases floor_images.len(),
{
    if floor_images.len() == 0 {
        Seq::empty()
    } else {
        let before = all_placed(floor_images.drop_last());
        match svg_events(floor_images.last().0@) {
            Some(events) => before + placed(events, floor_images.last().1),
            None => before,
        }
    }
}

/// The place of the first room of a number in a list of rooms.
pub open spec fn position<T>(rooms: Seq<(Seq<char>, RoomView<T>)>, number: Seq<char>) -> Option<
    int,
>
    decreases rooms.len(),
{
    if rooms.len() == 0 {
        None
    } else {
        match position(rooms.drop_last(), number) {
            Some(i) => Some(i),
            None => if rooms.last().0 == number {
                Some(rooms.len() - 1)
            } else {
                None
            },
        }
    }
}

/// The rooms that are left and the rooms that are compiled once each room
/// found in a drawing has been joined with the room of its number, in the
/// order in which they were found. A room found whose number no room has is
/// passed over. `None` where a room that is joined has no center.
pub open spec fn settle<T: Scalar>(
    rooms: Seq<(Seq<char>, RoomView<T>)>,
    found: Seq<Placement<T>>,
) -> Option<(Seq<(Seq<char>, RoomView<T>)>, Seq<(Seq<char>, compiled::RoomView<T>)>)>
    decreases found.len(),
{
    if found.len() == 0 {
        Some((rooms, Seq::empty()))
    } else {
        match settle(rooms, found.drop_last()) {
            None => None,
            Some((left, done)) => match position(left, found.last().number) {
                None => Some((left, done)),
                Some(i) => match compile_room(left[i].1, found.last().outline) {
                    None => None,
                    Some(room) => Some((left.remove(i), done.push((found.last().number, room)))),
                },
            },
        }
    }
}

/// Once a room without a center has been met, no later room mends it.
proof fn lemma_settle_fails<T: Scalar>(
    rooms: Seq<(Seq<char>, RoomView<T>)>,
    found: Seq<Placement<T>>,
    n: int,
)
    requires
        0 <= n <= found.len(),
        settle(rooms, found.take(n)) is None,
    ensures
        settle(rooms, found) is None,
    decreases found.len() - n,
{
    if n < found.len() {
        assert(found.take(n + 1).drop_last() == found.take(n));
        lemma_settle_fails(rooms, found, n + 1);
    } else {
        assert(found.take(n) == found);
    }
}

/// Finds the first room of a number.
fn find_room<T: Scalar>(rooms: &Vec<(String, Room<T>)>, number: &str) -> (r: Option<usize>)
    ensures
        match r {
            Some(i) => position(room_views(rooms@), number@) == Some(i as int) && i < rooms.len(),
            None => position(room_views(rooms@), number@) is None,
        },
{
    let mut i: usize = 0;
    assert(room_views(rooms@).take(0) == Seq::<(Seq<char>, RoomView<T>)>::empty());
    while i < rooms.len()
        invariant
            i <= rooms.len(),
            position(room_views(rooms@).take(i as int), number@) is None,
        decreases rooms.len() - i,
    {
        assert(room_views(rooms@).take(i + 1).drop_last() == room_views(rooms@).take(i as int));
        if crate::text::same_text(rooms[i].0.as_str(), number) {
            proof {
                lemma_position_stays(room_views(rooms@), number@, i + 1);
            }
            return Some(i);
        }
        i += 1;
    }
    assert(room_views(rooms@).take(i as int) == room_views(rooms@));
    None
}

/// The first room of a number among the first `n` rooms is the first of
/// them all.
proof fn lemma_position_stays<T>(rooms: Seq<(Seq<char>, RoomView<T>)>, number: Seq<char>, n: int)
    requires
        0 <= n <= rooms.len(),
        position(rooms.take(n), number) is Some,
    ensures
        position(rooms, number) == position(rooms.take(n), number),
    decreases rooms.len() - n,
{
    if n < rooms.len() {
        assert(rooms.take(n + 1).drop_last() == rooms.take(n));
        lemma_position_stays(rooms, number, n + 1);
    } else {
        assert(rooms.take(n) == rooms);
    }
}

/// Reads the rooms that a drawing marks.
pub fn svg_rooms<T: Scalar>(image_content: &str) -> (r: Vec<SvgRoom<T>>)
    ensures
        match svg_events(image_content@) {
            Some(events) => forall|offsets: (T, T)|
                #![trigger placed(events, offsets)]
                placed(events, offsets) == placements(r@, offsets),
            None => r@.len() == 0,
        },
{
    let mut rooms: Vec<SvgRoom<T>> = Vec::new();
    let events = match read_events(image_content) {
        Some(events) => events,
        None => {
            return rooms;
        },
    };
    let mut i: usize = 0;
    assert(event_views(events@).take(0) == Seq::<EventView>::empty());
    while i < events.len()
        invariant
            i <= events.len(),
            forall|offsets: (T, T)|
                #![trigger placed(event_views(events@).take(i as int), offsets)]
                placed(event_views(events@).take(i as int), offsets) == placements(
                    rooms@,
                    offsets,
                ),
        decreases events.len() - i,
    {
        let ghost before = rooms@;
        let ghost now = event_views(events@).take(i + 1);
        assert(now.drop_last() == event_views(events@).take(i as int));
        assert(now.last() == events[i as int]@);
        if let Ok(room) = SvgRoom::try_from(&events[i]) {
            rooms.push(room);
            assert(rooms@.drop_last() == before);
        }
        assert forall|offsets: (T, T)| #![trigger placed(now, offsets)]
            placed(now, offsets) == placements(rooms@, offsets) by {
            assert(placed(now.drop_last(), offsets) == placements(before, offsets));
        }
        i += 1;
    }
    assert(event_views(events@).take(i as int) == event_views(events@));
    rooms
}

/// The numbers and outlines of a list of rooms of a drawing.
pub open spec fn placements<T: Scalar>(rooms: Seq<SvgRoom<T>>, offsets: (T, T)) -> Seq<
    Placement<T>,
>
    decreases rooms.len(),
{
    if rooms.len() == 0 {
        Seq::empty()
    } else {
        placements(rooms.drop_last(), offsets).push(
            Placement {
                number: rooms.last()@.number,
                outline: outline_spec(rooms.last()@.shape, offsets),
            },
        )
    }
}

impl<T: Scalar> MapData<T> {
    /// Joins each room with the outline that the drawing of a floor gives
    /// it. `floor_images` holds the drawing of each floor with the offsets of
    /// the floor. Rooms that no drawing marks are left out; a room without a
    /// center whose outline has no area is refused.
    pub fn compile(self, floor_images: &Vec<(String, (T, T))>) -> (r: Result<
        compiled::MapData<T>,
        DegeneratePolygon,
    >)
        ensures
            match r {
                Ok(map) => {
                    &&& settle(room_views(self.rooms@), all_placed(floor_images@)) matches Some(
                        (_, done),
                    ) && done == compiled::room_views(map.rooms@)
                    &&& map.floors == self.floors
                    &&& map.vertices == self.vertices
                    &&& map.edges == self.edges
                },
                Err(_) => settle(room_views(self.rooms@), all_placed(floor_images@)) is None,
            },
    {
        let ghost start = room_views(self.rooms@);
        let ghost all = all_placed(floor_images@);
        let mut rooms = self.rooms;
        let mut compiled_rooms: Vec<(String, compiled::Room<T>)> = Vec::new();
        let mut f: usize = 0;
        assert(floor_images@.take(0) == Seq::<(String, (T, T))>::empty());
        assert(compiled::room_views(compiled_rooms@) == Seq::<
            (Seq<char>, compiled::RoomView<T>),
        >::empty());
        while f < floor_images.len()
            invariant
                f <= floor_images.len(),
                start == room_views(self.rooms@),
                all == all_placed(floor_images@),
                all_placed(floor_images@.take(f as int)).len() <= all.len(),
                all.take(all_placed(floor_images@.take(f as int)).len() as int) == all_placed(
                    floor_images@.take(f as int),
                ),
                settle(start, all_placed(floor_images@.take(f as int))) == Some(
                    (room_views(rooms@), compiled::room_views(compiled_rooms@)),
                ),
            decreases floor_images.len() - f,
        {
            let ghost before = all_placed(floor_images@.take(f as int));
            assert(floor_images@.take(f + 1).drop_last() == floor_images@.take(f as int));
            let offsets = floor_images[f].1;
            let found = svg_rooms::<T>(floor_images[f].0.as_str());
            let ghost here = placements(found@, offsets);
            assert(all_placed(floor_images@.take(f + 1)) == before + here) by {
                match svg_events(floor_images[f as int].0@) {
                    Some(events) => {
                        assert(placed(events, offsets) == here);
                    },
                    None => {
                        assert(here == Seq::<Placement<T>>::empty());
                        assert(before + here == before);
                    },
                }
            }
            proof {
                lemma_all_placed_prefix(floor_images@, f + 1);
            }
            let mut k: usize = 0;
            assert(found@.take(0) == Seq::<SvgRoom<T>>::empty());
            assert(before + placements(found@.take(0), offsets) == before);
            while k < found.len()
                invariant
                    k <= found.len(),
                    f < floor_images.len(),
                    here == placements(found@, offsets),
                    start == room_views(self.rooms@),
                    all == all_placed(floor_images@),
                    (before + here).len() <= all.len(),
                    all.take((before + here).len() as int) == before + here,
                    settle(start, before + placements(found@.take(k as int), offsets)) == Some(
                        (room_views(rooms@), compiled::room_views(compiled_rooms@)),
                    ),
                decreases found.len() - k,
            {
                let ghost so_far = before + placements(found@.take(k as int), offsets);
                let ghost next = before + placements(found@.take(k + 1), offsets);
                assert(found@.take(k + 1).drop_last() == found@.take(k as int));
                assert(next.drop_last() == so_far);
                let svg_room = &found[k];
                let outline = svg_room.outline(offsets);
                assert(next.last() == (Placement {
                    number: svg_room@.number,
                    outline: outline@,
                }));
                match find_room(&rooms, svg_room.get_number()) {
                    None => {},
                    Some(i) => {
                        let ghost left = room_views(rooms@);
                        let ghost done = compiled::room_views(compiled_rooms@);
                        let (number, uncompiled_room) = rooms.remove(i);
                        assert(room_views(rooms@) == left.remove(i as int));
                        assert(uncompiled_room@ == left[i as int].1);
                        match uncompiled_room.compile(outline) {
                            Err(error) => {
                                proof {
                                    assert(settle(start, next) is None);
                                    lemma_placements_prefix(found@, offsets, k + 1);
                                    assert(next == (before + here).take(next.len() as int));
                                    assert(next == all.take(next.len() as int));
                                    lemma_settle_fails(start, all, next.len() as int);
                                }
                                return Err(error);
                            },
                            Ok(compiled_room) => {
                                compiled_rooms.push((svg_room.get_number().to_owned(), compiled_room));
                                assert(compiled::room_views(compiled_rooms@) == done.push(
                                    (svg_room@.number, compiled_room@),
                                ));
                            },
                        }
                    },
                }
                k += 1;
            }
            assert(found@.take(k as int) == found@);
            f += 1;
        }
        assert(floor_images@.take(f as int) == floor_images@);
        Ok(
            compiled::MapData {
                floors: self.floors,
                vertices: self.vertices,
                rooms: compiled_rooms,
                edges: self.edges,
            },
        )
    }
}

/// The rooms of the first `n` drawings are the first of the rooms of all
/// drawings.
proof fn lemma_all_placed_prefix<T: Scalar>(floor_images: Seq<(String, (T, T))>, n: int)
    requires
        0 <= n <= floor_images.len(),
    ensures
        all_placed(floor_images.take(n)).len() <= all_placed(floor_images).len(),
        all_placed(floor_images).take(all_placed(floor_images.take(n)).len() as int) == all_placed(
            floor_images.take(n),
        ),
    decreases floor_images.len() - n,
{
    if n < floor_images.len() {
        assert(floor_images.take(n + 1).drop_last() == floor_images.take(n));
        lemma_all_placed_prefix(floor_images, n + 1);
        let shorter = all_placed(floor_images.take(n));
        let longer = all_placed(floor_images.take(n + 1));
        assert(longer.take(shorter.len() as int) == shorter);
        assert(all_placed(floor_images).take(longer.len() as int).take(shorter.len() as int)
            == all_placed(floor_images).take(shorter.len() as int));
    } else {
        assert(floor_images.take(n) == floor_images);
        assert(all_placed(floor_images).take(all_placed(floor_images).len() as int) == all_placed(
            floor_images,
        ));
    }
}

/// The placements of the first `n` rooms are the first of the placements of
/// all rooms.
proof fn lemma_placements_prefix<T: Scalar>(rooms: Seq<SvgRoom<T>>, offsets: (T, T), n: int)
    requires
        0 <= n <= rooms.len(),
    ensures
        placements(rooms.take(n), offsets).len() == n,
        placements(rooms, offsets).len() == rooms.len(),
        placements(rooms, offsets).take(n) == placements(rooms.take(n), offsets),
    decreases rooms.len() - n,
{
    lemma_placements_len(rooms.take(n), offsets);
    lemma_placements_len(rooms, offsets);
    if n < rooms.len() {
        assert(rooms.take(n + 1).drop_last() == rooms.take(n));
        lemma_placements_prefix(rooms, offsets, n + 1);
        let longer = placements(rooms.take(n + 1), offsets);
        assert(longer.take(n) == placements(rooms.take(n), offsets));
        assert(placements(rooms, offsets).take(n + 1).take(n) == placements(rooms, offsets).take(
            n,
        ));
    } else {
        assert(rooms.take(n) == rooms);
        assert(placements(rooms, offsets).take(n) == placements(rooms, offsets));
    }
}

/// Each room has one placement.
proof fn lemma_placements_len<T: Scalar>(rooms: Seq<SvgRoom<T>>, offsets: (T, T))
    ensures
        placements(rooms, offsets).len() == rooms.len(),
    decreases rooms.len(),
{
    if rooms.len() > 0 {
        lemma_placements_len(rooms.drop_last(), offsets);
    }
}

} // verus!
