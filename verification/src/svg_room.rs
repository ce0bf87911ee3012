//! The rooms that a drawing of a floor marks: rectangles and paths whose
//! `id` begins with `room`.
use vstd::prelude::*;
use vstd::string::*;
use crate::attributes::{lookup, Attributes};
use crate::scalar::Scalar;
use crate::svg_parser::{EventView, SvgEvent};
use crate::svg_path_parser::{
    all_well_formed, commands_of, parse_commands, trace, views, Command, Path,
};
use crate::text::{begins_with, chars_of, part, same_text, stands_at, Span};

verus! {

/// The shape of a room as the drawing gives it.
#[derive(Debug)]
pub enum SvgRoomShape<T> {
    Rect { width: T, height: T, x: T, y: T },
    /// The outline of a path.
    Path(Path<T>),
}

/// A shape with the points of a path as a sequence.
pub enum ShapeView<T> {
    Rect { width: T, height: T, x: T, y: T },
    Path(Seq<Command<T>>),
}

/// A room with its number as a sequence of characters.
pub struct RoomView<T> {
    pub number: Seq<char>,
    pub shape: ShapeView<T>,
}

/// A room of the drawing: its number and its shape.
#[derive(Debug)]
pub struct SvgRoom<T> {
    pub number: String,
    pub shape: SvgRoomShape<T>,
}

/// A point of the drawing in the coordinates of the map: shifted by the
/// offsets, with the vertical axis turned upwards.
pub open spec fn transform_svg_coords_spec<T: Scalar>(coords: (T, T), offsets: (T, T)) -> (T, T) {
    (coords.0.minus_spec(offsets.0), coords.1.negated_spec().plus_spec(offsets.1))
}

fn transform_svg_coords<T: Scalar>(coords: (T, T), offsets: (T, T)) -> (r: (T, T))
    ensures
        r == transform_svg_coords_spec(coords, offsets),
{
    (coords.0.minus(offsets.0), coords.1.negated().plus(offsets.1))
}

/// The corners of a shape in the coordinates of the map. A rectangle has its
/// four corners, beginning at the top left and going down first; a path has
/// the points of its outline.
pub open spec fn outline_spec<T: Scalar>(shape: ShapeView<T>, offsets: (T, T)) -> Seq<(T, T)> {
    match shape {
        ShapeView::Rect { width, height, x, y } => seq![
            transform_svg_coords_spec((x, y), offsets),
            transform_svg_coords_spec((x, y.plus_spec(height)), offsets),
            transform_svg_coords_spec((x.plus_spec(width), y.plus_spec(height)), offsets),
            transform_svg_coords_spec((x.plus_spec(width), y), offsets),
        ],
        ShapeView::Path(points) => Seq::new(
            points.len(),
            |i: int| transform_svg_coords_spec((points[i].0, points[i].1), offsets),
        ),
    }
}

/// The number of the room that an `id` names: what follows `room`.
pub open spec fn room_number(attributes: Map<Seq<char>, Seq<char>>) -> Option<Seq<char>> {
    match lookup(attributes, "id"@) {
        Some(id) if begins_with(id, "room"@) => Some(id.skip("room"@.len() as int)),
        _ => None,
    }
}

/// The number that an attribute gives, if it is there and is a number.
pub open spec fn required_number<T: Scalar>(
    attributes: Map<Seq<char>, Seq<char>>,
    name: Seq<char>,
) -> Option<T> {
    match lookup(attributes, name) {
        Some(value) => T::parse_spec(value),
        None => None,
    }
}

/// The shape of a rectangle, if each of its four numbers is given.
pub open spec fn rect_shape<T: Scalar>(attributes: Map<Seq<char>, Seq<char>>) -> Option<
    ShapeView<T>,
> {
    match (
        required_number::<T>(attributes, "width"@),
        required_number::<T>(attributes, "height"@),
        required_number::<T>(attributes, "x"@),
        required_number::<T>(attributes, "y"@),
    ) {
        (Some(width), Some(height), Some(x), Some(y)) => Some(
            ShapeView::Rect { width, height, x, y },
        ),
        _ => None,
    }
}

/// The shape of a path, if its data is given, is accepted, and falls into
/// whole steps.
pub open spec fn path_shape<T: Scalar>(attributes: Map<Seq<char>, Seq<char>>) -> Option<
    ShapeView<T>,
> {
    match lookup(attributes, "d"@) {
        None => None,
        Some(data) => match commands_of::<T>(data) {
            Some(commands) if all_well_formed(commands, commands.len() as int) => Some(
                ShapeView::Path(trace(commands, Command(T::zero_spec(), T::zero_spec()))),
            ),
            _ => None,
        },
    }
}

/// The room that an event marks: a `rect` or a `path` whose `id` names a
/// room and whose shape can be read.
pub open spec fn room_of<T: Scalar>(event: EventView) -> Option<RoomView<T>> {
    match event {
        EventView::Tag(name, _, attributes) => {
            let shape = if name == "rect"@ {
                rect_shape::<T>(attributes)
            } else if name == "path"@ {
                path_shape::<T>(attributes)
            } else {
                None
            };
            match (room_number(attributes), shape) {
                (Some(number), Some(shape)) => Some(RoomView { number, shape }),
                _ => None,
            }
        },
        _ => None,
    }
}

impl<T: Scalar> SvgRoomShape<T> {
    pub open spec fn view(self) -> ShapeView<T> {
        match self {
            SvgRoomShape::Rect { width, height, x, y } => ShapeView::Rect { width, height, x, y },
            SvgRoomShape::Path(path) => ShapeView::Path(path@),
        }
    }
}

fn read_number<T: Scalar>(attributes: &Attributes, name: &str) -> (r: Option<T>)
    ensures
        r == required_number::<T>(attributes@, name@),
{
    match attributes.get(name) {
        Some(value) => T::parse(value.as_str()),
        None => None,
    }
}

fn read_room_number(attributes: &Attributes) -> (r: Option<String>)
    ensures
        match r {
            Some(number) => room_number(attributes@) == Some(number@),
            None => room_number(attributes@) is None,
        },
{
    match attributes.get("id") {
        None => None,
        Some(id) => {
            let chars = chars_of(id.as_str());
            let prefix = chars_of("room");
            assert(chars@.skip(0) == chars@);
            if stands_at(&chars, 0, &prefix) {
                assert(id@.subrange(prefix.len() as int, chars.len() as int) == id@.skip(
                    "room"@.len() as int,
                ));
                let rest = Span { from: prefix.len(), to: chars.len() };
                Some(part(id.as_str(), rest, id.as_str().is_ascii()).to_owned())
            } else {
                None
            }
        },
    }
}

fn read_rect<T: Scalar>(attributes: &Attributes) -> (r: Option<SvgRoomShape<T>>)
    ensures
        match r {
            Some(shape) => rect_shape::<T>(attributes@) == Some(shape@),
            None => rect_shape::<T>(attributes@) is None,
        },
{
    let width = read_number::<T>(attributes, "width");
    let height = read_number::<T>(attributes, "height");
    let x = read_number::<T>(attributes, "x");
    let y = read_number::<T>(attributes, "y");
    match (width, height, x, y) {
        (Some(width), Some(height), Some(x), Some(y)) => Some(
            SvgRoomShape::Rect { width, height, x, y },
        ),
        _ => None,
    }
}

fn read_path<T: Scalar>(attributes: &Attributes) -> (r: Option<SvgRoomShape<T>>)
    ensures
        match r {
            Some(shape) => path_shape::<T>(attributes@) == Some(shape@),
            None => path_shape::<T>(attributes@) is None,
        },
{
    match attributes.get("d") {
        None => None,
        Some(d) => match parse_commands::<T>(d.as_str()) {
            None => None,
            Some(data) => match Path::from_commands(&data) {
                Ok(path) => Some(SvgRoomShape::Path(path)),
                Err(crate::svg_path_parser::PathError::Arity(i)) => {
                    assert(!views(data@)[i as int].well_formed());
                    None
                },
            },
        },
    }
}

impl<T: Scalar> SvgRoom<T> {
    pub open spec fn view(self) -> RoomView<T> {
        RoomView { number: self.number@, shape: self.shape@ }
    }

    /// The corners of the room in the coordinates of the map.
    pub fn outline(&self, offsets: (T, T)) -> (r: Vec<(T, T)>)
        ensures
            r@ == outline_spec(self@.shape, offsets),
    {
        let mut corners: Vec<(T, T)> = Vec::new();
        match &self.shape {
            SvgRoomShape::Rect { x, y, width, height } => {
                corners.push(transform_svg_coords((*x, *y), offsets));
                corners.push(transform_svg_coords((*x, y.plus(*height)), offsets));
                corners.push(transform_svg_coords((x.plus(*width), y.plus(*height)), offsets));
                corners.push(transform_svg_coords((x.plus(*width), *y), offsets));
            },
            SvgRoomShape::Path(path) => {
                let points = path.commands();
                let mut i: usize = 0;
                while i < points.len()
                    invariant
                        i <= points.len(),
                        corners@ == outline_spec(ShapeView::Path(points@.take(i as int)), offsets),
                    decreases points.len() - i,
                {
                    let coords = points[i];
                    corners.push(transform_svg_coords((coords.0, coords.1), offsets));
                    i += 1;
                }
                assert(points@.take(i as int) == points@);
            },
        }
        corners
    }

    pub fn get_number(&self) -> (r: &str)
        ensures
            r@ == self@.number,
    {
        self.number.as_str()
    }

    /// Reads the room that an event marks.
    pub fn try_from(event: &SvgEvent) -> (r: Result<Self, ()>)
        ensures
            match r {
                Ok(room) => room_of::<T>(event@) == Some(room@),
                Err(_) => room_of::<T>(event@) is None,
            },
    {
        match event {
            SvgEvent::Tag(name, _, attr) => {
                let shape = if same_text(name.as_str(), "rect") {
                    read_rect::<T>(attr)
                } else if same_text(name.as_str(), "path") {
                    read_path::<T>(attr)
                } else {
                    None
                };
                match (read_room_number(attr), shape) {
                    (Some(number), Some(shape)) => Ok(Self { number, shape }),
                    _ => Err(()),
                }
            },
            _ => Err(()),
        }
    }
}

} // verus!
