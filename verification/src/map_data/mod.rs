//! The map of a building: floors, the vertices and edges of its paths, and
//! its rooms.
use vstd::prelude::*;

pub mod compiled;
pub mod uncompiled;

verus! {

/// What a vertex of the paths is, besides a place.
#[derive(Debug, Clone, Copy, PartialEq, Eq, Hash)]
pub enum VertexTag {
    Stairs,
    Elevator,
    Up,
    Down,
}

/// What a room is or holds.
#[derive(Debug, Clone, Copy, PartialEq, Eq, Hash)]
pub enum RoomTag {
    Closed,
    WomenBathroom,
    MenBathroom,
    StaffWomenBathroom,
    StaffMenBathroom,
    UnknownBathroom,
    Bsc,
    Ec,
    Wf,
    Hs,
    BleedControl,
    Aed,
    Ahu,
    Idf,
    Mdf,
    Eru,
    Cp,
}

/// A floor: its number, the drawing of it, and where the origin of the map
/// lies in the drawing.
#[derive(Debug)]
pub struct Floor<T> {
    pub number: String,
    pub image: String,
    pub offsets: (T, T),
}

impl<T: Copy> Floor<T> {
    pub fn new(number: String, image: String, offsets: (T, T)) -> (r: Self)
        ensures
            r.number == number,
            r.image == image,
            r.offsets == offsets,
    {
        Floor { number, image, offsets }
    }

    pub fn get_number(&self) -> (r: &str)
        ensures
            r@ == self.number@,
    {
        self.number.as_str()
    }

    pub fn get_image(&self) -> (r: &String)
        ensures
            r == self.image,
    {
        &self.image
    }

    pub fn get_offsets(&self) -> (r: (T, T))
        ensures
            r == self.offsets,
    {
        self.offsets
    }
}

/// A vertex of the paths: the floor it lies on, its place, and its tags.
#[derive(Debug)]
pub struct Vertex<T> {
    pub floor: String,
    pub location: (T, T),
    pub tags: Vec<VertexTag>,
}

impl<T> Vertex<T> {
    pub fn new(floor: String, location: (T, T), tags: Vec<VertexTag>) -> (r: Self)
        ensures
            r.floor == floor,
            r.location == location,
            r.tags == tags,
    {
        Vertex { floor, location, tags }
    }

    pub fn get_floor(&self) -> (r: &str)
        ensures
            r@ == self.floor@,
    {
        self.floor.as_str()
    }
}

/// A value of the list that an edge is written as: a text, a truth value,
/// or anything else.
#[derive(Debug, Clone, PartialEq, Eq)]
pub enum EdgeValue {
    String(String),
    Bool(bool),
    Other,
}

/// A value with its text as a sequence of characters.
pub enum EdgeValueView {
    String(Seq<char>),
    Bool(bool),
    Other,
}

impl View for EdgeValue {
    type V = EdgeValueView;

    open spec fn view(&self) -> EdgeValueView {
        match self {
            EdgeValue::String(text) => EdgeValueView::String(text@),
            EdgeValue::Bool(truth) => EdgeValueView::Bool(*truth),
            EdgeValue::Other => EdgeValueView::Other,
        }
    }
}

/// The views of a list of values.
pub open spec fn value_views(values: Seq<EdgeValue>) -> Seq<EdgeValueView> {
    Seq::new(values.len(), |i: int| values[i]@)
}

/// Why a list of values is not an edge.
#[derive(Debug, Clone, Copy, PartialEq, Eq, Structural)]
pub enum EdgeError {
    MissingFrom,
    FromNotString,
    MissingTo,
    ToNotString,
    DirectedNotBool,
    ArrayTooLong,
}

/// An edge between two vertices, which can be walked both ways unless it is
/// directed.
#[derive(Debug, Clone, PartialEq, Eq)]
pub struct Edge {
    pub from: String,
    pub to: String,
    pub directed: bool,
}

/// An edge with its texts as sequences of characters.
pub struct EdgeView {
    pub from: Seq<char>,
    pub to: Seq<char>,
    pub directed: bool,
}

/// The edge that a list of values is: the names of two vertices, and after
/// them, if anything, whether the edge is directed.
pub open spec fn edge_of(values: Seq<EdgeValueView>) -> Result<EdgeView, EdgeError> {
    if values.len() == 0 {
        Err(EdgeError::MissingFrom)
    } else if !(values[0] is String) {
        Err(EdgeError::FromNotString)
    } else if values.len() == 1 {
        Err(EdgeError::MissingTo)
    } else if !(values[1] is String) {
        Err(EdgeError::ToNotString)
    } else if values.len() == 2 {
        Ok(EdgeView { from: values[0]->String_0, to: values[1]->String_0, directed: false })
    } else if !(values[2] is Bool) {
        Err(EdgeError::DirectedNotBool)
    } else if values.len() > 3 {
        Err(EdgeError::ArrayTooLong)
    } else {
        Ok(
            EdgeView {
                from: values[0]->String_0,
                to: values[1]->String_0,
                directed: values[2]->Bool_0,
            },
        )
    }
}

/// The list of values that an edge is written as: its two vertices, and
/// `true` after them where it is directed.
pub open spec fn values_of(edge: EdgeView) -> Seq<EdgeValueView> {
    if edge.directed {
        seq![
            EdgeValueView::String(edge.from),
            EdgeValueView::String(edge.to),
            EdgeValueView::Bool(true),
        ]
    } else {
        seq![EdgeValueView::String(edge.from), EdgeValueView::String(edge.to)]
    }
}

impl View for Edge {
    type V = EdgeView;

    open spec fn view(&self) -> EdgeView {
        EdgeView { from: self.from@, to: self.to@, directed: self.directed }
    }
}

impl EdgeError {
    /// The error in words.
    pub fn message(&self) -> (r: &'static str)
        ensures
            r@ == match self {
                EdgeError::MissingFrom => "Missing from"@,
                EdgeError::FromNotString => "From not a string"@,
                EdgeError::MissingTo => "Missing to"@,
                EdgeError::ToNotString => "To not a string"@,
                EdgeError::DirectedNotBool => "Directed not a bool"@,
                EdgeError::ArrayTooLong => "Array too long"@,
            },
    {
        match self {
            EdgeError::MissingFrom => "Missing from",
            EdgeError::FromNotString => "From not a string",
            EdgeError::MissingTo => "Missing to",
            EdgeError::ToNotString => "To not a string",
            EdgeError::DirectedNotBool => "Directed not a bool",
            EdgeError::ArrayTooLong => "Array too long",
        }
    }
}

impl Edge {
    pub fn new(from: String, to: String, directed: bool) -> (r: Self)
        ensures
            r.from == from,
            r.to == to,
            r.directed == directed,
    {
        Edge { from, to, directed }
    }

    /// Reads an edge from the list of values it is written as.
    pub fn try_from(value: &Vec<EdgeValue>) -> (r: Result<Self, EdgeError>)
        ensures
            match r {
                Ok(edge) => edge_of(value_views(value@)) == Ok::<EdgeView, EdgeError>(edge@),
                Err(error) => edge_of(value_views(value@)) == Err::<EdgeView, EdgeError>(error),
            },
    {
        if value.len() == 0 {
            return Err(EdgeError::MissingFrom);
        }
        let from = match &value[0] {
            EdgeValue::String(text) => text.clone(),
            _ => {
                return Err(EdgeError::FromNotString);
            },
        };
        if value.len() == 1 {
            return Err(EdgeError::MissingTo);
        }
        let to = match &value[1] {
            EdgeValue::String(text) => text.clone(),
            _ => {
                return Err(EdgeError::ToNotString);
            },
        };
        let directed = if value.len() == 2 {
            false
        } else {
            match &value[2] {
                EdgeValue::Bool(truth) => *truth,
                _ => {
                    return Err(EdgeError::DirectedNotBool);
                },
            }
        };
        if value.len() > 3 {
            return Err(EdgeError::ArrayTooLong);
        }
        Ok(Self { from, to, directed })
    }

    /// Writes an edge as a list of values.
    pub fn into_values(self) -> (r: Vec<EdgeValue>)
        ensures
            value_views(r@) == values_of(self@),
    {
        let mut values: Vec<EdgeValue> = Vec::new();
        let directed = self.directed;
        values.push(EdgeValue::String(self.from));
        values.push(EdgeValue::String(self.to));
        if directed {
            values.push(EdgeValue::Bool(true));
        }
        assert(value_views(values@) == values_of(self@));
        values
    }
}

/// An edge that is written and read again is the same edge.
pub proof fn lemma_edge_round_trip(edge: EdgeView)
    ensures
        edge_of(values_of(edge)) == Ok::<EdgeView, EdgeError>(edge),
{
}

} // verus!
