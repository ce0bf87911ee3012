//! The map of a building with the outline, the center and the area of each
//! room worked out.
use vstd::prelude::*;
use crate::map_data::{Edge, Floor, RoomTag, Vertex};
use crate::attributes::{lookup, map_of, Attributes};
use crate::text::same_text;
use crate::util::texts;

verus! {

/// A room with its outline in the coordinates of the map.
#[derive(Debug)]
pub struct Room<T> {
    pub vertices: Vec<String>,
    pub names: Vec<String>,
    pub center: (T, T),
    pub outline: Vec<(T, T)>,
    pub area: T,
    pub tags: Vec<RoomTag>,
}

/// A room with its texts and its outline as sequences.
pub struct RoomView<T> {
    pub vertices: Seq<Seq<char>>,
    pub names: Seq<Seq<char>>,
    pub center: (T, T),
    pub outline: Seq<(T, T)>,
    pub area: T,
    pub tags: Seq<RoomTag>,
}

impl<T> View for Room<T> {
    type V = RoomView<T>;

    open spec fn view(&self) -> RoomView<T> {
        RoomView {
            vertices: texts(self.vertices@),
            names: texts(self.names@),
            center: self.center,
            outline: self.outline@,
            area: self.area,
            tags: self.tags@,
        }
    }
}

impl<T> Room<T> {
    pub fn set_outline(&mut self, outline: Vec<(T, T)>)
        ensures
            *final(self) == (Room { outline, ..*old(self) }),
    {
        self.outline = outline;
    }
}

/// The views of a list of rooms, each with its number.
pub open spec fn room_views<T>(rooms: Seq<(String, Room<T>)>) -> Seq<(Seq<char>, RoomView<T>)> {
    Seq::new(rooms.len(), |i: int| (rooms[i].0@, rooms[i].1@))
}

/// The whole map; each room stands with its number.
#[derive(Debug)]
pub struct MapData<T> {
    pub floors: Vec<Floor<T>>,
    pub vertices: Vec<(String, Vertex<T>)>,
    pub edges: Vec<Edge>,
    pub rooms: Vec<(String, Room<T>)>,
}

/// The floor of each vertex by the name of the vertex; of two vertices of
/// one name the later counts.
pub open spec fn floor_map<T>(vertices: Seq<(String, Vertex<T>)>) -> Map<Seq<char>, Seq<char>>
    decreases vertices.len(),
{
    if vertices.len() == 0 {
        Map::empty()
    } else {
        floor_map(vertices.drop_last()).insert(vertices.last().0@, vertices.last().1.floor@)
    }
}

/// Lists the floor of each vertex by the name of the vertex.
pub fn get_floors_for_vertices<T>(compiled_map_data: &MapData<T>) -> (r: Attributes)
    ensures
        r@ == floor_map(compiled_map_data.vertices@),
{
    let vertices = &compiled_map_data.vertices;
    let mut pairs: Vec<(String, String)> = Vec::new();
    let mut i: usize = 0;
    assert(vertices@.take(0) == Seq::<(String, Vertex<T>)>::empty());
    while i < vertices.len()
        invariant
            i <= vertices.len(),
            map_of(pairs@) == floor_map(vertices@.take(i as int)),
        decreases vertices.len() - i,
    {
        assert(vertices@.take(i + 1).drop_last() == vertices@.take(i as int));
        let ghost before = pairs@;
        let pair = (vertices[i].0.clone(), vertices[i].1.floor.clone());
        pairs.push(pair);
        assert(pairs@.drop_last() == before);
        i += 1;
    }
    assert(vertices@.take(i as int) == vertices@);
    Attributes::from_pairs(pairs)
}

/// Tests whether a room lies on a floor: whether the first of its vertices
/// does.
pub fn room_on_floor<T>(room: &Room<T>, floor: &str, vertex_floors: &Attributes) -> (r: bool)
    requires
        room.vertices.len() > 0,
    ensures
        r == (lookup(vertex_floors@, room.vertices[0]@) == Some(floor@)),
{
    match vertex_floors.get(room.vertices[0].as_str()) {
        Some(room_floor) => same_text(room_floor.as_str(), floor),
        None => false,
    }
}

} // verus!
