//! The tree of elements of a drawing, with the bounding box of each element
//! in the coordinates of the whole drawing.
use vstd::prelude::*;
use vstd::string::*;
use svg::node::element::tag::Type;
use svg::node::element::Element;
use svg::Node;
use svg::parser::{Event, Parser};
use crate::attributes::{lookup, map_of, Attributes};
use crate::bounding_box::{greater_of, BoundingBox, Vector2};
use crate::scalar::Scalar;
use crate::svg_path_parser::{
    all_well_formed, commands_of, parse_commands, trace, views, Command, Path, PathError,
};
use crate::text::{chars_of, part, same_text, trimmed, without_leading, without_trailing};
use crate::transform::{
    parse_transform, parse_transform_spec, transform_message, write_transform_message, Matrix3,
    TransformErrorKind,
};
use crate::util::{max_f64, max_of};

verus! {

/// Whether a tag opens an element, closes one, or is a whole element.
#[derive(Clone, Copy, Debug, PartialEq, Eq, Structural)]
pub enum TagType {
    Start,
    End,
    Empty,
}

/// What a reader of markup comes upon, one after the other.
#[derive(Debug)]
pub enum SvgEvent {
    /// Markup that cannot be read, with the reader's message.
    Error(String),
    /// A tag with its name and attributes.
    Tag(String, TagType, Attributes),
    /// Text, a comment, a declaration or a processing instruction.
    Ignorable,
}

/// An event with its texts as sequences and its attributes as a mapping.
pub enum EventView {
    Error(Seq<char>),
    Tag(Seq<char>, TagType, Map<Seq<char>, Seq<char>>),
    Ignorable,
}

impl View for SvgEvent {
    type V = EventView;

    open spec fn view(&self) -> EventView {
        match self {
            SvgEvent::Error(message) => EventView::Error(message@),
            SvgEvent::Tag(name, kind, attributes) => EventView::Tag(name@, *kind, attributes@),
            SvgEvent::Ignorable => EventView::Ignorable,
        }
    }
}

/// The views of a list of events.
pub open spec fn event_views(events: Seq<SvgEvent>) -> Seq<EventView> {
    Seq::new(events.len(), |i: int| events[i]@)
}

/// The parser of the `svg` crate: it walks a text and yields its events.
#[verifier::external_type_specification]
#[verifier::external_body]
pub struct ExParser<'l>(Parser<'l>);

/// The events that a parser of the `svg` crate has yet to yield, up to and
/// with the first error.
pub uninterp spec fn pending(parser: Parser<'_>) -> Seq<EventView>;

/// The events that the parser which `svg::read` returns for a text yields,
/// up to and with the first error. `None` where `svg::read` fails.
pub uninterp spec fn svg_events(text: Seq<char>) -> Option<Seq<EventView>>;

/// Calls `svg::read`, which makes a parser at the beginning of the text.
#[verifier::external_body]
fn start_reading<'l>(svg_data: &'l str) -> (r: Option<Parser<'l>>)
    ensures
        match r {
            Some(parser) => svg_events(svg_data@) == Some(pending(parser)),
            None => svg_events(svg_data@) is None,
        },
{
    svg::read(svg_data).ok()
}

/// Calls `Parser::next` of the `svg` crate and hands the event over as it
/// came: a tag with its name, its type and its attributes, an error with its
/// message, anything else as ignorable. The event is the first of those that
/// were pending, and the last of them where it is an error; after any other
/// event the rest is pending.
#[verifier::external_body]
fn next_event(parser: &mut Parser<'_>) -> (r: Option<SvgEvent>)
    ensures
        match r {
            Some(event) => {
                &&& pending(*old(parser)).len() > 0
                &&& event@ == pending(*old(parser))[0]
                &&& if event is Error {
                    pending(*old(parser)).len() == 1
                } else {
                    pending(*final(parser)) == pending(*old(parser)).skip(1)
                }
            },
            None => pending(*old(parser)).len() == 0,
        },
{
    Some(match parser.next()? {
        Event::Error(error) => SvgEvent::Error(error.to_string()),
        Event::Tag(name, kind, map) => SvgEvent::Tag(
            name.to_string(),
            match kind { Type::Start => TagType::Start, Type::End => TagType::End, Type::Empty => TagType::Empty },
            Attributes::from_pairs(map.into_iter().map(|(n, v)| (n, v.to_string())).collect()),
        ),
        _ => SvgEvent::Ignorable,
    })
}

/// Reads the events of a text, up to and with the first error.
pub fn read_events(svg_data: &str) -> (r: Option<Vec<SvgEvent>>)
    ensures
        match r {
            Some(events) => svg_events(svg_data@) == Some(event_views(events@)),
            None => svg_events(svg_data@) is None,
        },
{
    let mut parser = match start_reading(svg_data) {
        Some(parser) => parser,
        None => {
            return None;
        },
    };
    let ghost all = pending(parser);
    let mut events: Vec<SvgEvent> = Vec::new();
    assert(all == event_views(events@) + pending(parser));
    loop
        invariant
            svg_events(svg_data@) == Some(all),
            all == event_views(events@) + pending(parser),
        decreases pending(parser).len(),
    {
        let ghost before = event_views(events@);
        let ghost rest = pending(parser);
        match next_event(&mut parser) {
            None => {
                assert(all == event_views(events@));
                return Some(events);
            },
            Some(event) => {
                let failed = match event {
                    SvgEvent::Error(_) => true,
                    _ => false,
                };
                events.push(event);
                assert(event_views(events@) == before.push(rest[0]));
                if failed {
                    assert(all == event_views(events@));
                    return Some(events);
                }
                assert(all == event_views(events@) + rest.skip(1));
            },
        }
    }
}

/// Why markup is not taken for a drawing.
#[derive(Clone, Copy, Debug, PartialEq, Eq, Structural)]
pub enum ParseErrorKind {
    /// The text cannot be read at all.
    Unreadable,
    /// The markup ends where an element is expected.
    UnexpectedEnd,
    /// The reader of the markup reports an error.
    Markup,
    /// An end tag stands where an element is expected.
    UnexpectedEndTag,
    /// A path has no `d` attribute.
    MissingPathData,
    /// The `d` attribute of a path is not path data, one of its numbers is
    /// none, or the numbers of a command do not fall into whole steps.
    InvalidPathData,
    /// One of `width`, `height`, `x` and `y` is not a number.
    InvalidNumber,
    /// The `transform` attribute is not a transformation.
    Transform(TransformErrorKind),
    /// Nothing but at most one leading declaration, comment or text is there.
    NoSvgData,
}

/// Why markup is not taken for a drawing, and the text that is at fault:
/// the reader's message, the name of the end tag, or the value of the
/// attribute; empty for the other errors.
#[derive(Debug)]
pub struct ParseError {
    pub kind: ParseErrorKind,
    pub detail: String,
}

/// An error with its text as a sequence.
pub struct Failure {
    pub kind: ParseErrorKind,
    pub detail: Seq<char>,
}

impl View for ParseError {
    type V = Failure;

    open spec fn view(&self) -> Failure {
        Failure { kind: self.kind, detail: self.detail@ }
    }
}

/// What an error says in words.
pub open spec fn parse_message(failure: Failure) -> Seq<char> {
    match failure.kind {
        ParseErrorKind::Unreadable => "Could not read the SVG"@,
        ParseErrorKind::UnexpectedEnd => "Unexpected end of SVG"@,
        ParseErrorKind::Markup => failure.detail,
        ParseErrorKind::UnexpectedEndTag => "Unexpected end tag: "@ + failure.detail,
        ParseErrorKind::MissingPathData => "Missing path data"@,
        ParseErrorKind::InvalidPathData => "Invalid path data: "@ + failure.detail,
        ParseErrorKind::InvalidNumber => "Invalid number: "@ + failure.detail,
        ParseErrorKind::Transform(kind) => transform_message(kind, failure.detail),
        ParseErrorKind::NoSvgData => "Expected SVG data but did not find any"@,
    }
}

impl ParseError {
    /// The error in words.
    pub fn message(&self) -> (r: String)
        ensures
            r@ == parse_message(self@),
    {
        match self.kind {
            ParseErrorKind::Unreadable => "Could not read the SVG".to_owned(),
            ParseErrorKind::UnexpectedEnd => "Unexpected end of SVG".to_owned(),
            ParseErrorKind::Markup => self.detail.clone(),
            ParseErrorKind::UnexpectedEndTag => {
                let mut message = "Unexpected end tag: ".to_owned();
                message.append(self.detail.as_str());
                message
            },
            ParseErrorKind::MissingPathData => "Missing path data".to_owned(),
            ParseErrorKind::InvalidPathData => {
                let mut message = "Invalid path data: ".to_owned();
                message.append(self.detail.as_str());
                message
            },
            ParseErrorKind::InvalidNumber => {
                let mut message = "Invalid number: ".to_owned();
                message.append(self.detail.as_str());
                message
            },
            ParseErrorKind::Transform(kind) => write_transform_message(kind, self.detail.as_str()),
            ParseErrorKind::NoSvgData => "Expected SVG data but did not find any".to_owned(),
        }
    }
}

/// An element with its texts as sequences, its attributes as a mapping and
/// its children as a sequence.
pub struct ElementView<T> {
    pub bounding_box: BoundingBox<T>,
    pub children: Seq<ElementView<T>>,
    pub tag_name: Seq<char>,
    pub attributes: Map<Seq<char>, Seq<char>>,
}

/// An element of a drawing: its tag, its attributes, its children in the
/// order of the markup, and the box around it and them.
#[derive(Debug)]
pub struct SvgElement<T> {
    pub bounding_box: BoundingBox<T>,
    pub children: Vec<SvgElement<T>>,
    pub tag_name: String,
    pub attributes: Attributes,
}

/// The right edges of the boxes of a list of elements.
pub open spec fn rights<T: Scalar>(elements: Seq<ElementView<T>>) -> Seq<T> {
    Seq::new(elements.len(), |i: int| elements[i].bounding_box.bottom_right().x)
}

/// The bottom edges of the boxes of a list of elements.
pub open spec fn bottoms<T: Scalar>(elements: Seq<ElementView<T>>) -> Seq<T> {
    Seq::new(elements.len(), |i: int| elements[i].bounding_box.bottom_right().y)
}

/// An edge moved outwards to the farthest edge of the children, if that
/// lies farther out.
pub open spec fn reach<T: Scalar>(own: T, children: Seq<T>) -> T {
    match max_of(children) {
        None => own,
        Some(farthest) => greater_of(farthest, own),
    }
}

/// The box of an element that has children: its top left corner stays, and
/// its right and bottom edges move out to the farthest such edge of a child.
pub open spec fn grown<T: Scalar>(
    top_left: Vector2<T>,
    size: Vector2<T>,
    children: Seq<ElementView<T>>,
) -> BoundingBox<T> {
    let bottom_right = top_left.plus_spec(size);
    let actual_bottom_right = Vector2 {
        x: reach(bottom_right.x, rights(children)),
        y: reach(bottom_right.y, bottoms(children)),
    };
    BoundingBox { top_left, size: actual_bottom_right.minus_spec(top_left) }
}

/// The number that the attribute `name` gives: zero where it is absent;
/// a unit `mm` at its end is not read.
pub open spec fn number_attribute<T: Scalar>(
    attributes: Map<Seq<char>, Seq<char>>,
    name: Seq<char>,
) -> Result<T, Failure> {
    match lookup(attributes, name) {
        None => Ok(T::zero_spec()),
        Some(value) => match T::parse_spec(without_trailing(value, "mm"@)) {
            Some(number) => Ok(number),
            None => Err(Failure { kind: ParseErrorKind::InvalidNumber, detail: value }),
        },
    }
}

/// The box of a path in its own coordinates: the box around the points that
/// its `d` attribute visits.
pub open spec fn path_box<T: Scalar>(attributes: Map<Seq<char>, Seq<char>>) -> Result<
    BoundingBox<T>,
    Failure,
> {
    match lookup(attributes, "d"@) {
        None => Err(Failure { kind: ParseErrorKind::MissingPathData, detail: Seq::empty() }),
        Some(data) => match commands_of::<T>(data) {
            Some(commands) if all_well_formed(commands, commands.len() as int) => Ok(
                BoundingBox::around(
                    trace(commands, Command(T::zero_spec(), T::zero_spec())),
                ),
            ),
            _ => Err(Failure { kind: ParseErrorKind::InvalidPathData, detail: data }),
        },
    }
}

/// The box that the attributes `x`, `y`, `width` and `height` give.
pub open spec fn rectangle_box<T: Scalar>(attributes: Map<Seq<char>, Seq<char>>) -> Result<
    BoundingBox<T>,
    Failure,
> {
    match number_attribute::<T>(attributes, "width"@) {
        Err(failure) => Err(failure),
        Ok(width) => match number_attribute::<T>(attributes, "height"@) {
            Err(failure) => Err(failure),
            Ok(height) => match number_attribute::<T>(attributes, "x"@) {
                Err(failure) => Err(failure),
                Ok(x) => match number_attribute::<T>(attributes, "y"@) {
                    Err(failure) => Err(failure),
                    Ok(y) => Ok(
                        BoundingBox {
                            top_left: Vector2 { x, y },
                            size: Vector2 { x: width, y: height },
                        },
                    ),
                },
            },
        },
    }
}

/// The box of an element by itself, in its own coordinates. A path has the
/// box of its outline; any other element is read as a rectangle.
pub open spec fn intrinsic<T: Scalar>(
    name: Seq<char>,
    attributes: Map<Seq<char>, Seq<char>>,
) -> Result<BoundingBox<T>, Failure> {
    if name == "path"@ {
        path_box(attributes)
    } else {
        rectangle_box(attributes)
    }
}

/// The transformation that holds inside an element: that of its parent,
/// followed on the right by its own where it has a `transform` attribute.
pub open spec fn effective<T: Scalar>(
    current: Matrix3<T>,
    attributes: Map<Seq<char>, Seq<char>>,
) -> Result<Matrix3<T>, Failure> {
    match lookup(attributes, "transform"@) {
        None => Ok(current),
        Some(text) => match parse_transform_spec::<T>(text) {
            Ok(own) => Ok(current.times_spec(own)),
            Err(kind) => Err(Failure { kind: ParseErrorKind::Transform(kind), detail: text }),
        },
    }
}

/// The element that the tag read just before place `pos` begins, and the
/// place behind the element.
pub open spec fn tag_spec<T: Scalar>(
    events: Seq<EventView>,
    pos: int,
    current: Matrix3<T>,
    name: Seq<char>,
    kind: TagType,
    attributes: Map<Seq<char>, Seq<char>>,
) -> Result<(ElementView<T>, int), Failure>
    decreases events.len() - pos, 3int,
{
    match intrinsic::<T>(name, attributes) {
        Err(failure) => Err(failure),
        Ok(local) => match effective(current, attributes) {
            Err(failure) => Err(failure),
            Ok(matrix) => {
                let top_left = matrix.apply_spec(local.top_left);
                match kind {
                    TagType::End => Err(
                        Failure { kind: ParseErrorKind::UnexpectedEndTag, detail: name },
                    ),
                    TagType::Empty => Ok(
                        (
                            ElementView {
                                bounding_box: BoundingBox { top_left, size: local.size },
                                children: Seq::empty(),
                                tag_name: name,
                                attributes,
                            },
                            pos,
                        ),
                    ),
                    TagType::Start => match children_spec(events, pos, matrix, Seq::empty()) {
                        Err(failure) => Err(failure),
                        Ok((children, next)) => Ok(
                            (
                                ElementView {
                                    bounding_box: grown(top_left, local.size, children),
                                    children,
                                    tag_name: name,
                                    attributes,
                                },
                                next,
                            ),
                        ),
                    },
                }
            },
        },
    }
}

/// The elements from place `pos` up to the end tag that closes their parent,
/// added to `found`, and the place behind that end tag. Where the markup
/// ends before an end tag, the children end with it. (Reading an event
/// always leads to a later place, see `lemma_event_advances`; the definition
/// asks for it only to be well founded.)
pub open spec fn children_spec<T: Scalar>(
    events: Seq<EventView>,
    pos: int,
    current: Matrix3<T>,
    found: Seq<ElementView<T>>,
) -> Result<(Seq<ElementView<T>>, int), Failure>
    decreases events.len() - pos, 2int,
{
    if pos < 0 || pos >= events.len() {
        Ok((found, pos))
    } else if events[pos] matches EventView::Tag(_, TagType::End, _) {
        Ok((found, pos + 1))
    } else {
        match event_spec(events, pos, current) {
            Err(failure) => Err(failure),
            Ok((element, next)) => if pos < next <= events.len() {
                children_spec(
                    events,
                    next,
                    current,
                    match element {
                        Some(child) => found.push(child),
                        None => found,
                    },
                )
            } else {
                Ok((found, pos))
            },
        }
    }
}

/// What the event at place `pos` gives: an element for a tag, nothing for
/// text, a comment, a declaration or an instruction; and the place behind
/// it.
pub open spec fn event_spec<T: Scalar>(
    events: Seq<EventView>,
    pos: int,
    current: Matrix3<T>,
) -> Result<(Option<ElementView<T>>, int), Failure>
    decreases events.len() - pos, 1int,
{
    if pos < 0 || pos >= events.len() {
        Err(Failure { kind: ParseErrorKind::UnexpectedEnd, detail: Seq::empty() })
    } else {
        match events[pos] {
            EventView::Error(message) => Err(
                Failure { kind: ParseErrorKind::Markup, detail: message },
            ),
            EventView::Tag(name, kind, attributes) => match tag_spec(
                events,
                pos + 1,
                current,
                name,
                kind,
                attributes,
            ) {
                Err(failure) => Err(failure),
                Ok((element, next)) => Ok((Some(element), next)),
            },
            _ => Ok((None, pos + 1)),
        }
    }
}

/// The root element of a drawing: what the first event gives, or the second
/// where the first gives nothing.
pub open spec fn document_spec<T: Scalar>(events: Seq<EventView>) -> Result<
    ElementView<T>,
    Failure,
> {
    match event_spec::<T>(events, 0, Matrix3::identity_spec()) {
        Err(failure) => Err(failure),
        Ok((Some(element), _)) => Ok(element),
        Ok((None, next)) => match event_spec::<T>(events, next, Matrix3::identity_spec()) {
            Err(failure) => Err(failure),
            Ok((Some(element), _)) => Ok(element),
            Ok((None, _)) => Err(
                Failure { kind: ParseErrorKind::NoSvgData, detail: Seq::empty() },
            ),
        },
    }
}

/// The root element of the drawing that a text holds.
pub open spec fn from_svg_data_spec<T: Scalar>(svg_data: Seq<char>) -> Result<
    ElementView<T>,
    Failure,
> {
    match svg_events(svg_data) {
        None => Err(Failure { kind: ParseErrorKind::Unreadable, detail: Seq::empty() }),
        Some(events) => document_spec(events),
    }
}

/// An element of the `svg` crate, which can be written out as markup.
#[verifier::external_type_specification]
#[verifier::external_body]
pub struct ExElement(Element);

/// What an element that is written out holds: its name, its attributes and
/// its children.
pub struct ElementShape {
    pub name: Seq<char>,
    pub attributes: Map<Seq<char>, Seq<char>>,
    pub children: Seq<ElementShape>,
}

/// What an element of the `svg` crate holds.
pub uninterp spec fn element_shape(element: Element) -> ElementShape;

/// Calls `Element::new` of the `svg` crate: the new element has the name
/// given, no attributes and no children.
#[verifier::external_body]
fn new_element(name: &str) -> (r: Element)
    ensures
        element_shape(r) == (ElementShape {
            name: name@,
            attributes: Map::empty(),
            children: Seq::empty(),
        }),
{
    Element::new(name)
}

/// Calls `Node::assign` of the `svg` crate, which gives the attribute `name`
/// the value `value` and leaves the rest of the element as it is.
#[verifier::external_body]
fn assign(element: &mut Element, name: &str, value: &str)
    ensures
        element_shape(*final(element)) == (ElementShape {
            attributes: element_shape(*old(element)).attributes.insert(name@, value@),
            ..element_shape(*old(element))
        }),
{
    element.assign(name, value)
}

/// Calls `Node::append` of the `svg` crate, which puts `child` behind the
/// children of the element and leaves the rest of the element as it is.
#[verifier::external_body]
fn append(element: &mut Element, child: Element)
    ensures
        element_shape(*final(element)) == (ElementShape {
            children: element_shape(*old(element)).children.push(element_shape(child)),
            ..element_shape(*old(element))
        }),
{
    element.append(child)
}

/// What an element of the tree is written out as: its tag, its attributes
/// and its children; its box is not written.
pub open spec fn shape_of<T: Scalar>(element: ElementView<T>) -> ElementShape
    decreases element,
{
    ElementShape {
        name: element.tag_name,
        attributes: element.attributes,
        children: shapes_of(element.children),
    }
}

/// What the elements of a list are written out as.
pub open spec fn shapes_of<T: Scalar>(elements: Seq<ElementView<T>>) -> Seq<ElementShape>
    decreases elements,
{
    if elements.len() == 0 {
        Seq::empty()
    } else {
        shapes_of(elements.drop_last()).push(shape_of(elements.last()))
    }
}

/// The view of an element, if there is one.
pub open spec fn optional_view<T: Scalar>(element: Option<SvgElement<T>>) -> Option<
    ElementView<T>,
> {
    match element {
        Some(element) => Some(element.view()),
        None => None,
    }
}

/// What a box selects of an element: nothing where the box of the element
/// does not meet it; else the element with what the box selects of its
/// children. Whether the children are met does not decide on the element.
pub open spec fn select_spec<T: Scalar>(element: ElementView<T>, query: BoundingBox<T>) -> Option<
    ElementView<T>,
>
    decreases element,
{
    if element.bounding_box.intersects_spec(query) {
        Some(
            ElementView {
                bounding_box: element.bounding_box,
                children: select_all(element.children, query),
                tag_name: element.tag_name,
                attributes: element.attributes,
            },
        )
    } else {
        None
    }
}

/// Those of a list of elements whose boxes meet the query, each selected in
/// the same way, in their order.
pub open spec fn select_all<T: Scalar>(elements: Seq<ElementView<T>>, query: BoundingBox<T>) -> Seq<
    ElementView<T>,
>
    decreases elements,
{
    if elements.len() == 0 {
        Seq::empty()
    } else {
        let before = select_all(elements.drop_last(), query);
        match select_spec(elements.last(), query) {
            Some(selected) => before.push(selected),
            None => before,
        }
    }
}

fn failed<V>(kind: ParseErrorKind) -> (r: Result<V, ParseError>)
    ensures
        r matches Err(error) && error@ == (Failure { kind, detail: Seq::empty() }),
{
    Err(ParseError { kind, detail: String::new() })
}

fn failure<V>(kind: ParseErrorKind, detail: &str) -> (r: Result<V, ParseError>)
    ensures
        r matches Err(error) && error@ == (Failure { kind, detail: detail@ }),
{
    Err(ParseError { kind, detail: detail.to_owned() })
}

impl<T: Scalar> SvgElement<T> {
    /// The element with its texts as sequences, its attributes as a mapping
    /// and its children as a sequence.
    pub open spec fn view(self) -> ElementView<T>
        decreases self,
    {
        ElementView {
            bounding_box: self.bounding_box,
            children: Self::views(self.children@),
            tag_name: self.tag_name@,
            attributes: self.attributes@,
        }
    }

    /// The views of a list of elements.
    pub open spec fn views(elements: Seq<SvgElement<T>>) -> Seq<ElementView<T>>
        decreases elements,
    {
        if elements.len() == 0 {
            Seq::empty()
        } else {
            Self::views(elements.drop_last()).push(elements.last().view())
        }
    }

    /// An element named `svg` without attributes or children.
    pub fn empty_root(bounding_box: BoundingBox<T>) -> (r: Self)
        ensures
            r@ == (ElementView {
                bounding_box,
                children: Seq::empty(),
                tag_name: "svg"@,
                attributes: Map::empty(),
            }),
    {
        Self {
            bounding_box,
            children: Vec::new(),
            tag_name: "svg".to_owned(),
            attributes: Attributes::new(),
        }
    }

    /// Reads a drawing into the tree of its elements.
    pub fn from_svg_data(svg_data: &str) -> (r: Result<Self, ParseError>)
        ensures
            match r {
                Ok(element) => from_svg_data_spec::<T>(svg_data@) == Ok::<ElementView<T>, Failure>(
                    element@,
                ),
                Err(error) => from_svg_data_spec::<T>(svg_data@) == Err::<ElementView<T>, Failure>(
                    error@,
                ),
            },
    {
        match read_events(svg_data) {
            None => failed(ParseErrorKind::Unreadable),
            Some(events) => Self::from_events(&events),
        }
    }

    /// Builds the tree of a drawing from the events of its markup.
    pub fn from_events(events: &Vec<SvgEvent>) -> (r: Result<Self, ParseError>)
        ensures
            match r {
                Ok(element) => document_spec::<T>(event_views(events@)) == Ok::<
                    ElementView<T>,
                    Failure,
                >(element@),
                Err(error) => document_spec::<T>(event_views(events@)) == Err::<
                    ElementView<T>,
                    Failure,
                >(error@),
            },
    {
        let initial_transformation_matrix = Matrix3::identity();
        match Self::parse_event(&initial_transformation_matrix, events, 0) {
            Err(error) => Err(error),
            Ok((Some(element), _)) => Ok(element),
            Ok((None, next)) => match Self::parse_event(
                &initial_transformation_matrix,
                events,
                next,
            ) {
                Err(error) => Err(error),
                Ok((Some(element), _)) => Ok(element),
                Ok((None, _)) => failed(ParseErrorKind::NoSvgData),
            },
        }
    }

    pub fn get_bottom_right(&self) -> (r: Vector2<T>)
        ensures
            r == self@.bounding_box.bottom_right(),
    {
        self.bounding_box.get_bottom_right()
    }

    pub fn get_bounding_box(&self) -> (r: BoundingBox<T>)
        ensures
            r == self@.bounding_box,
    {
        self.bounding_box
    }

    /// Gives the attribute `name` the value `value`.
    pub fn set_attr(&mut self, name: &str, value: String)
        ensures
            final(self)@ == (ElementView {
                attributes: old(self)@.attributes.insert(name@, value@),
                ..old(self)@
            }),
    {
        self.attributes.insert(name.to_owned(), value);
    }

    /// Takes the attribute `name` away.
    pub fn delete_attr(&mut self, name: &str)
        ensures
            final(self)@ == (ElementView {
                attributes: old(self)@.attributes.remove(name@),
                ..old(self)@
            }),
    {
        self.attributes.remove(name);
    }

    /// Returns `Some` if this element overlaps the given bounding box. The
    /// returned element only has the children of this element which overlap
    /// the bounding box, the children only keep their children which overlap,
    /// and so on.
    pub fn select_with(&self, bounding_box: &BoundingBox<T>) -> (r: Option<Self>)
        ensures
            optional_view(r) == select_spec(self@, *bounding_box),
            r is Some <==> self@.bounding_box.intersects_spec(*bounding_box),
        decreases *self,
    {
        if self.bounding_box.intersects(bounding_box) {
            let mut selected_children: Vec<SvgElement<T>> = Vec::new();
            let mut i: usize = 0;
            while i < self.children.len()
                invariant
                    i <= self.children.len(),
                    Self::views(selected_children@) == select_all(
                        Self::views(self.children@.take(i as int)),
                        *bounding_box,
                    ),
                decreases self.children.len() - i,
            {
                assert(self.children@.take(i + 1).drop_last() == self.children@.take(i as int));
                let ghost now = Self::views(self.children@.take(i + 1));
                assert(now.drop_last() == Self::views(self.children@.take(i as int)));
                if let Some(child) = self.children[i].select_with(bounding_box) {
                    let ghost before = selected_children@;
                    selected_children.push(child);
                    assert(selected_children@.drop_last() == before);
                }
                i += 1;
            }
            assert(self.children@.take(i as int) == self.children@);
            Some(
                Self {
                    bounding_box: self.bounding_box,
                    children: selected_children,
                    tag_name: self.tag_name.clone(),
                    attributes: self.attributes.copy(),
                },
            )
        } else {
            None
        }
    }

    /// Makes the element of the `svg` crate that is written out for this
    /// element.
    pub fn as_element(&self) -> (r: Element)
        ensures
            element_shape(r) == shape_of(self@),
        decreases *self,
    {
        let mut element = new_element(self.tag_name.as_str());
        let pairs = self.attributes.pairs();
        let mut i: usize = 0;
        while i < pairs.len()
            invariant
                i <= pairs.len(),
                element_shape(element) == (ElementShape {
                    name: self.tag_name@,
                    attributes: map_of(pairs@.take(i as int)),
                    children: Seq::empty(),
                }),
            decreases pairs.len() - i,
        {
            assert(pairs@.take(i + 1).drop_last() == pairs@.take(i as int));
            assign(&mut element, pairs[i].0.as_str(), pairs[i].1.as_str());
            i += 1;
        }
        assert(pairs@.take(i as int) == pairs@);
        let mut k: usize = 0;
        while k < self.children.len()
            invariant
                k <= self.children.len(),
                element_shape(element) == (ElementShape {
                    name: self.tag_name@,
                    attributes: self.attributes@,
                    children: shapes_of(Self::views(self.children@.take(k as int))),
                }),
            decreases self.children.len() - k,
        {
            assert(self.children@.take(k + 1).drop_last() == self.children@.take(k as int));
            let ghost now = Self::views(self.children@.take(k + 1));
            assert(now.drop_last() == Self::views(self.children@.take(k as int)));
            assert(now.last() == self.children[k as int]@);
            let child = self.children[k].as_element();
            append(&mut element, child);
            k += 1;
        }
        assert(self.children@.take(k as int) == self.children@);
        element
    }

    /// Reads the number that the attribute `key` gives: zero where it is
    /// absent; a unit `mm` at its end is not read.
    fn num_from_attr(attributes: &Attributes, key: &str) -> (r: Result<T, ParseError>)
        ensures
            match r {
                Ok(number) => number_attribute::<T>(attributes@, key@) == Ok::<T, Failure>(number),
                Err(error) => number_attribute::<T>(attributes@, key@) == Err::<T, Failure>(error@),
            },
    {
        match attributes.get(key) {
            None => Ok(T::zero()),
            Some(value) => {
                let chars = chars_of(value.as_str());
                let nothing: Vec<char> = Vec::new();
                let span = trimmed(&chars, &nothing, &chars_of("mm"));
                assert(without_leading(chars@, nothing@) == chars@);
                let plain = value.as_str().is_ascii();
                match T::parse(part(value.as_str(), span, plain)) {
                    Some(number) => Ok(number),
                    None => failure(ParseErrorKind::InvalidNumber, value.as_str()),
                }
            },
        }
    }

    /// Finds the box of a path in its own coordinates.
    fn path_bounds(attributes: &Attributes) -> (r: Result<BoundingBox<T>, ParseError>)
        ensures
            match r {
                Ok(bounds) => path_box::<T>(attributes@) == Ok::<BoundingBox<T>, Failure>(bounds),
                Err(error) => path_box::<T>(attributes@) == Err::<BoundingBox<T>, Failure>(error@),
            },
    {
        match attributes.get("d") {
            None => failed(ParseErrorKind::MissingPathData),
            Some(d) => match parse_commands::<T>(d.as_str()) {
                None => failure(ParseErrorKind::InvalidPathData, d.as_str()),
                Some(data) => match Path::from_commands(&data) {
                    Err(PathError::Arity(i)) => {
                        assert(!views(data@)[i as int].well_formed());
                        failure(ParseErrorKind::InvalidPathData, d.as_str())
                    },
                    Ok(path) => Ok(BoundingBox::from_path(&path)),
                },
            },
        }
    }

    /// Finds the box that `x`, `y`, `width` and `height` give.
    fn rectangle_bounds(attributes: &Attributes) -> (r: Result<BoundingBox<T>, ParseError>)
        ensures
            match r {
                Ok(bounds) => rectangle_box::<T>(attributes@) == Ok::<BoundingBox<T>, Failure>(
                    bounds,
                ),
                Err(error) => rectangle_box::<T>(attributes@) == Err::<BoundingBox<T>, Failure>(
                    error@,
                ),
            },
    {
        let min_width = match Self::num_from_attr(attributes, "width") {
            Ok(number) => number,
            Err(error) => {
                return Err(error);
            },
        };
        let min_height = match Self::num_from_attr(attributes, "height") {
            Ok(number) => number,
            Err(error) => {
                return Err(error);
            },
        };
        let x = match Self::num_from_attr(attributes, "x") {
            Ok(number) => number,
            Err(error) => {
                return Err(error);
            },
        };
        let y = match Self::num_from_attr(attributes, "y") {
            Ok(number) => number,
            Err(error) => {
                return Err(error);
            },
        };
        Ok(BoundingBox::new(Vector2::new(x, y), Vector2::new(min_width, min_height)))
    }

    /// Finds the transformation that holds inside an element.
    fn effective_matrix(current: &Matrix3<T>, attributes: &Attributes) -> (r: Result<
        Matrix3<T>,
        ParseError,
    >)
        ensures
            match r {
                Ok(matrix) => effective(*current, attributes@) == Ok::<Matrix3<T>, Failure>(matrix),
                Err(error) => effective(*current, attributes@) == Err::<Matrix3<T>, Failure>(
                    error@,
                ),
            },
    {
        match attributes.get("transform") {
            None => Ok(*current),
            Some(transformation) => match parse_transform::<T>(transformation.as_str()) {
                Ok(own) => Ok(current.times(&own)),
                Err(error) => Err(
                    ParseError { kind: ParseErrorKind::Transform(error.kind), detail: error.text },
                ),
            },
        }
    }

    /// Collects the right and the bottom edges of the boxes of `children`.
    fn edges(children: &Vec<SvgElement<T>>) -> (r: (Vec<T>, Vec<T>))
        ensures
            r.0@ == rights(Self::views(children@)),
            r.1@ == bottoms(Self::views(children@)),
    {
        let mut right_edges: Vec<T> = Vec::new();
        let mut bottom_edges: Vec<T> = Vec::new();
        let mut i: usize = 0;
        while i < children.len()
            invariant
                i <= children.len(),
                right_edges@ == rights(Self::views(children@.take(i as int))),
                bottom_edges@ == bottoms(Self::views(children@.take(i as int))),
            decreases children.len() - i,
        {
            assert(children@.take(i + 1).drop_last() == children@.take(i as int));
            let bottom_right = children[i].get_bottom_right();
            right_edges.push(bottom_right.x);
            bottom_edges.push(bottom_right.y);
            i += 1;
        }
        assert(children@.take(i as int) == children@);
        (right_edges, bottom_edges)
    }

    /// Builds the element that a tag begins. The events behind the tag start
    /// at place `pos`.
    fn parse_tag(
        current_transformation_matrix: &Matrix3<T>,
        name: &String,
        children_type: TagType,
        attributes: &Attributes,
        events: &Vec<SvgEvent>,
        pos: usize,
    ) -> (r: Result<(Self, usize), ParseError>)
        requires
            pos <= events.len(),
        ensures
            match r {
                Ok((element, next)) => pos <= next <= events.len() && tag_spec(
                    event_views(events@),
                    pos as int,
                    *current_transformation_matrix,
                    name@,
                    children_type,
                    attributes@,
                ) == Ok::<(ElementView<T>, int), Failure>((element@, next as int)),
                Err(error) => tag_spec(
                    event_views(events@),
                    pos as int,
                    *current_transformation_matrix,
                    name@,
                    children_type,
                    attributes@,
                ) == Err::<(ElementView<T>, int), Failure>(error@),
            },
        decreases events.len() - pos, 3int,
    {
        let local = if same_text(name.as_str(), "path") {
            Self::path_bounds(attributes)
        } else {
            Self::rectangle_bounds(attributes)
        };
        let local = match local {
            Ok(local) => local,
            Err(error) => {
                return Err(error);
            },
        };
        let matrix = match Self::effective_matrix(current_transformation_matrix, attributes) {
            Ok(matrix) => matrix,
            Err(error) => {
                return Err(error);
            },
        };
        let global_top_left = matrix.apply(local.top_left);
        match children_type {
            TagType::End => failure(ParseErrorKind::UnexpectedEndTag, name.as_str()),
            TagType::Empty => Ok(
                (
                    Self {
                        bounding_box: BoundingBox::new(global_top_left, local.size),
                        children: Vec::new(),
                        tag_name: name.clone(),
                        attributes: attributes.copy(),
                    },
                    pos,
                ),
            ),
            TagType::Start => {
                let bottom_right = global_top_left.plus(local.size);
                let (children, next) = match Self::parse_children(events, pos, &matrix) {
                    Ok(parsed) => parsed,
                    Err(error) => {
                        return Err(error);
                    },
                };
                let (right_edges, bottom_edges) = Self::edges(&children);
                let max_right = match max_f64(&right_edges) {
                    Some(child_max_right) => if child_max_right.less_than(bottom_right.x) {
                        bottom_right.x
                    } else {
                        child_max_right
                    },
                    None => bottom_right.x,
                };
                let max_bottom = match max_f64(&bottom_edges) {
                    Some(child_max_bottom) => if child_max_bottom.less_than(bottom_right.y) {
                        bottom_right.y
                    } else {
                        child_max_bottom
                    },
                    None => bottom_right.y,
                };
                let actual_bottom_right = Vector2::new(max_right, max_bottom);
                let actual_size = actual_bottom_right.minus(global_top_left);
                Ok(
                    (
                        Self {
                            bounding_box: BoundingBox::new(global_top_left, actual_size),
                            children,
                            tag_name: name.clone(),
                            attributes: attributes.copy(),
                        },
                        next,
                    ),
                )
            },
        }
    }

    /// Builds the elements from place `pos` up to the end tag that closes
    /// their parent, and steps over that end tag.
    fn parse_children(
        events: &Vec<SvgEvent>,
        pos: usize,
        current_transformation_matrix: &Matrix3<T>,
    ) -> (r: Result<(Vec<Self>, usize), ParseError>)
        requires
            pos <= events.len(),
        ensures
            match r {
                Ok((children, next)) => pos <= next <= events.len() && children_spec(
                    event_views(events@),
                    pos as int,
                    *current_transformation_matrix,
                    Seq::empty(),
                ) == Ok::<(Seq<ElementView<T>>, int), Failure>(
                    (Self::views(children@), next as int),
                ),
                Err(error) => children_spec(
                    event_views(events@),
                    pos as int,
                    *current_transformation_matrix,
                    Seq::empty(),
                ) == Err::<(Seq<ElementView<T>>, int), Failure>(error@),
            },
        decreases events.len() - pos, 2int,
    {
        let mut children: Vec<SvgElement<T>> = Vec::new();
        let mut at: usize = pos;
        loop
            invariant
                pos <= at <= events.len(),
                children_spec(
                    event_views(events@),
                    pos as int,
                    *current_transformation_matrix,
                    Seq::empty(),
                ) == children_spec(
                    event_views(events@),
                    at as int,
                    *current_transformation_matrix,
                    Self::views(children@),
                ),
            decreases events.len() - at,
        {
            if at >= events.len() {
                return Ok((children, at));
            }
            if let SvgEvent::Tag(_, TagType::End, _) = &events[at] {
                // Consume ending tag
                return Ok((children, at + 1));
            }
            match Self::parse_event(current_transformation_matrix, events, at) {
                Err(error) => {
                    return Err(error);
                },
                Ok((element, next)) => {
                    if let Some(child) = element {
                        let ghost before = children@;
                        children.push(child);
                        assert(children@.drop_last() == before);
                    }
                    at = next;
                },
            }
        }
    }

    /// Reads the event at place `pos`: a tag gives the element it begins,
    /// anything that can be ignored gives nothing.
    fn parse_event(
        current_transformation_matrix: &Matrix3<T>,
        events: &Vec<SvgEvent>,
        pos: usize,
    ) -> (r: Result<(Option<Self>, usize), ParseError>)
        ensures
            match r {
                Ok((element, next)) => pos < next <= events.len() && event_spec(
                    event_views(events@),
                    pos as int,
                    *current_transformation_matrix,
                ) == Ok::<(Option<ElementView<T>>, int), Failure>(
                    (optional_view(element), next as int),
                ),
                Err(error) => event_spec(
                    event_views(events@),
                    pos as int,
                    *current_transformation_matrix,
                ) == Err::<(Option<ElementView<T>>, int), Failure>(error@),
            },
        decreases events.len() - pos, 1int,
    {
        if pos >= events.len() {
            return failed(ParseErrorKind::UnexpectedEnd);
        }
        match &events[pos] {
            SvgEvent::Error(message) => failure(ParseErrorKind::Markup, message.as_str()),
            // Nothing we need to do with these, so skip them
            SvgEvent::Ignorable => Ok((None, pos + 1)),
            SvgEvent::Tag(name, children_type, attributes) => match Self::parse_tag(
                current_transformation_matrix,
                name,
                *children_type,
                attributes,
                events,
                pos + 1,
            ) {
                Err(error) => Err(error),
                Ok((element, next)) => Ok((Some(element), next)),
            },
        }
    }
}

/// A box selects nothing of an element exactly where it does not meet the
/// box of the element.
pub proof fn lemma_select_none<T: Scalar>(element: ElementView<T>, query: BoundingBox<T>)
    ensures
        select_spec(element, query) is None <==> !element.bounding_box.intersects_spec(query),
{
}

/// What is selected has the tag, the attributes and the box of the element
/// it is selected of.
pub proof fn lemma_select_keeps<T: Scalar>(element: ElementView<T>, query: BoundingBox<T>)
    requires
        select_spec(element, query) is Some,
    ensures
        select_spec(element, query)->0.bounding_box == element.bounding_box,
        select_spec(element, query)->0.tag_name == element.tag_name,
        select_spec(element, query)->0.attributes == element.attributes,
{
}

/// Whether the box of an element and the boxes of all elements below it
/// meet a box.
pub open spec fn all_meet<T: Scalar>(element: ElementView<T>, query: BoundingBox<T>) -> bool
    decreases element,
{
    &&& element.bounding_box.intersects_spec(query)
    &&& forall|i: int|
        0 <= i < element.children.len() ==> all_meet(#[trigger] element.children[i], query)
}

/// Each element of what a box selects meets the box.
pub proof fn lemma_selected_meet<T: Scalar>(element: ElementView<T>, query: BoundingBox<T>)
    requires
        select_spec(element, query) is Some,
    ensures
        all_meet(select_spec(element, query)->0, query),
    decreases element,
{
    lemma_selected_all_meet(element.children, query);
    let selected = select_spec(element, query)->0;
    assert(selected.children == select_all(element.children, query));
    assert forall|i: int| 0 <= i < selected.children.len() implies all_meet(
        #[trigger] selected.children[i],
        query,
    ) by {
        assert(all_meet(select_all(element.children, query)[i], query));
    }
}

/// Each element of what a box selects of a list meets the box.
pub proof fn lemma_selected_all_meet<T: Scalar>(elements: Seq<ElementView<T>>, query: BoundingBox<T>)
    ensures
        forall|i: int|
            0 <= i < select_all(elements, query).len() ==> all_meet(
                #[trigger] select_all(elements, query)[i],
                query,
            ),
    decreases elements,
{
    let selected = select_all(elements, query);
    if elements.len() > 0 {
        let before = select_all(elements.drop_last(), query);
        lemma_selected_all_meet(elements.drop_last(), query);
        if select_spec(elements.last(), query) is Some {
            lemma_selected_meet(elements.last(), query);
        }
        assert forall|i: int| 0 <= i < selected.len() implies all_meet(
            #[trigger] selected[i],
            query,
        ) by {
            if i < before.len() {
                assert(selected[i] == before[i]);
                assert(all_meet(before[i], query));
            }
        }
    }
}

/// Selecting is idempotent: of what a box selects, the same box selects all.
pub proof fn lemma_select_idempotent<T: Scalar>(element: ElementView<T>, query: BoundingBox<T>)
    requires
        select_spec(element, query) is Some,
    ensures
        select_spec(select_spec(element, query)->0, query) == select_spec(element, query),
    decreases element,
{
    lemma_select_all_idempotent(element.children, query);
}

/// Of the elements that a box selects of a list, the same box selects all.
pub proof fn lemma_select_all_idempotent<T: Scalar>(
    elements: Seq<ElementView<T>>,
    query: BoundingBox<T>,
)
    ensures
        select_all(select_all(elements, query), query) == select_all(elements, query),
    decreases elements,
{
    if elements.len() > 0 {
        lemma_select_all_idempotent(elements.drop_last(), query);
        let before = select_all(elements.drop_last(), query);
        match select_spec(elements.last(), query) {
            Some(selected) => {
                lemma_select_idempotent(elements.last(), query);
                assert(before.push(selected).drop_last() == before);
            },
            None => {},
        }
    }
}

/// Reading an event leads to a later place within the events.
pub proof fn lemma_event_advances<T: Scalar>(events: Seq<EventView>, pos: int, current: Matrix3<T>)
    requires
        0 <= pos,
    ensures
        event_spec(events, pos, current) matches Ok((_, next)) ==> pos < next <= events.len(),
    decreases events.len() - pos, 1int,
{
    if pos < events.len() {
        match events[pos] {
            EventView::Tag(name, kind, attributes) => {
                lemma_tag_advances(events, pos + 1, current, name, kind, attributes);
            },
            _ => {},
        }
    }
}

/// Reading the children of a tag leads to no earlier place within the
/// events.
pub proof fn lemma_tag_advances<T: Scalar>(
    events: Seq<EventView>,
    pos: int,
    current: Matrix3<T>,
    name: Seq<char>,
    kind: TagType,
    attributes: Map<Seq<char>, Seq<char>>,
)
    requires
        0 <= pos <= events.len(),
    ensures
        tag_spec(events, pos, current, name, kind, attributes) matches Ok((_, next)) ==> pos <= next
            <= events.len(),
    decreases events.len() - pos, 3int,
{
    match (intrinsic::<T>(name, attributes), effective(current, attributes)) {
        (Ok(_), Ok(matrix)) => {
            if kind == TagType::Start {
                lemma_children_advance(events, pos, matrix, Seq::empty());
            }
        },
        _ => {},
    }
}

/// Reading children leads to no earlier place within the events.
pub proof fn lemma_children_advance<T: Scalar>(
    events: Seq<EventView>,
    pos: int,
    current: Matrix3<T>,
    found: Seq<ElementView<T>>,
)
    requires
        0 <= pos <= events.len(),
    ensures
        children_spec(events, pos, current, found) matches Ok((_, next)) ==> pos <= next
            <= events.len(),
    decreases events.len() - pos, 2int,
{
    if pos < events.len() && !(events[pos] matches EventView::Tag(_, TagType::End, _)) {
        lemma_event_advances(events, pos, current);
        match event_spec(events, pos, current) {
            Ok((element, next)) => {
                lemma_children_advance(
                    events,
                    next,
                    current,
                    match element {
                        Some(child) => found.push(child),
                        None => found,
                    },
                );
            },
            Err(_) => {},
        }
    }
}

} // verus!
