//! Path data reduced to the points that a pen visits.
use vstd::prelude::*;
use vstd::string::*;
use svg::node::element::path::Data;
use crate::scalar::Scalar;
use crate::text::{chars_of, covered, numbers, pieces, read_numbers, split, Separator, Span};

verus! {

/// How the numbers of a drawing command are to be read.
#[derive(Clone, Copy, Debug, PartialEq, Eq, Structural)]
pub enum Position {
    /// As coordinates of the drawing.
    Absolute,
    /// As offsets from the point reached before.
    Relative,
}

/// The kinds of drawing command in path data.
#[derive(Clone, Copy, Debug, PartialEq, Eq, Structural)]
pub enum CommandKind {
    Move,
    Line,
    HorizontalLine,
    VerticalLine,
    QuadraticCurve,
    SmoothQuadraticCurve,
    CubicCurve,
    SmoothCubicCurve,
    EllipticalArc,
    Close,
}

impl CommandKind {
    /// How many numbers describe one step of a command of this kind.
    pub open spec fn group_size(self) -> nat {
        match self {
            CommandKind::Close => 0,
            CommandKind::HorizontalLine | CommandKind::VerticalLine => 1,
            CommandKind::Move | CommandKind::Line | CommandKind::SmoothQuadraticCurve => 2,
            CommandKind::QuadraticCurve | CommandKind::SmoothCubicCurve => 4,
            CommandKind::CubicCurve => 6,
            CommandKind::EllipticalArc => 7,
        }
    }

    /// How many numbers describe one step of a command of this kind.
    pub fn arity(self) -> (r: usize)
        ensures
            r == self.group_size(),
    {
        match self {
            CommandKind::Close => 0,
            CommandKind::HorizontalLine | CommandKind::VerticalLine => 1,
            CommandKind::Move | CommandKind::Line | CommandKind::SmoothQuadraticCurve => 2,
            CommandKind::QuadraticCurve | CommandKind::SmoothCubicCurve => 4,
            CommandKind::CubicCurve => 6,
            CommandKind::EllipticalArc => 7,
        }
    }
}

/// A drawing command as path data states it: its kind, how its numbers are to
/// be read, and the numbers.
#[derive(Debug)]
pub struct RawCommand<N> {
    pub kind: CommandKind,
    pub position: Position,
    pub parameters: Vec<N>,
}

/// What a drawing command states, with its numbers as a sequence.
pub struct RawCommandView<N> {
    pub kind: CommandKind,
    pub position: Position,
    pub parameters: Seq<N>,
}

impl<N> RawCommandView<N> {
    /// Whether the numbers fall into whole steps. A closing command takes no
    /// step, whatever it carries.
    pub open spec fn well_formed(self) -> bool {
        self.kind != CommandKind::Close ==> self.parameters.len() % self.kind.group_size() == 0
    }

    /// How many steps the command takes.
    pub open spec fn steps(self) -> nat {
        if self.kind == CommandKind::Close {
            0
        } else {
            self.parameters.len() / self.kind.group_size()
        }
    }
}

impl<N> View for RawCommand<N> {
    type V = RawCommandView<N>;

    open spec fn view(&self) -> RawCommandView<N> {
        RawCommandView { kind: self.kind, position: self.position, parameters: self.parameters@ }
    }
}

/// What each of a list of commands states.
pub open spec fn views<N>(commands: Seq<RawCommand<N>>) -> Seq<RawCommandView<N>> {
    Seq::new(commands.len(), |i: int| commands[i]@)
}

impl<N> RawCommand<N> {
    /// Whether the numbers fall into whole steps.
    pub open spec fn well_formed(self) -> bool {
        self@.well_formed()
    }

    pub fn new(kind: CommandKind, position: Position, parameters: Vec<N>) -> (r: Self)
        ensures
            r.kind == kind,
            r.position == position,
            r.parameters == parameters,
    {
        RawCommand { kind, position, parameters }
    }

    /// Tests whether the numbers fall into whole steps.
    pub fn is_well_formed(&self) -> (r: bool)
        ensures
            r == self.well_formed(),
    {
        match self.kind {
            CommandKind::Close => true,
            _ => self.parameters.len() % self.kind.arity() == 0,
        }
    }
}

/// A point that the pen reaches, in coordinates of the drawing: first the
/// horizontal, then the vertical one.
#[derive(Copy, Clone, Debug)]
pub struct Command<T>(pub T, pub T);

impl<T: Scalar> Command<T> {
    /// The two numbers of step `k`, before they are placed: for a horizontal
    /// or vertical line the axis that is not given is that of `last`, or zero
    /// for an offset; for a curve or an arc only the end point counts.
    pub open spec fn step(raw: RawCommandView<T>, last: Command<T>, k: int) -> (T, T) {
        let n = raw.parameters;
        let g = raw.kind.group_size() as int;
        match raw.kind {
            CommandKind::HorizontalLine => match raw.position {
                Position::Absolute => (n[k], last.1),
                Position::Relative => (n[k], T::zero_spec()),
            },
            CommandKind::VerticalLine => match raw.position {
                Position::Absolute => (last.0, n[k]),
                Position::Relative => (T::zero_spec(), n[k]),
            },
            _ => (n[g * k + g - 2], n[g * k + g - 1]),
        }
    }

    /// The first `count` points of the command `raw`, drawn from `last`.
    /// An absolute step is the point itself; an offset is added to the point
    /// reached before it.
    pub open spec fn points(raw: RawCommandView<T>, last: Command<T>, count: nat) -> Seq<Command<T>>
        decreases count,
    {
        if count == 0 {
            Seq::empty()
        } else {
            let before = Self::points(raw, last, (count - 1) as nat);
            let (x, y) = Self::step(raw, last, count - 1);
            let from = if before.len() == 0 {
                last
            } else {
                before.last()
            };
            before.push(
                match raw.position {
                    Position::Absolute => Command(x, y),
                    Position::Relative => Command(from.0.plus_spec(x), from.1.plus_spec(y)),
                },
            )
        }
    }

    /// The points that the command `raw` visits when the pen stands at `last`.
    pub open spec fn from_raw_command_spec(raw: RawCommandView<T>, last: Command<T>) -> Seq<
        Command<T>,
    > {
        Self::points(raw, last, raw.steps())
    }

    /// The points that one command visits when the pen stands at `last_command`:
    /// one for each step, none for a closing command.
    pub fn from_raw_command(raw_command: &RawCommand<T>, last_command: Command<T>) -> (r: Vec<
        Self,
    >)
        requires
            raw_command.well_formed(),
        ensures
            r@ == Self::from_raw_command_spec(raw_command@, last_command),
    {
        let mut visited: Vec<Command<T>> = Vec::new();
        if let CommandKind::Close = raw_command.kind {
            return visited;
        }
        let g = raw_command.kind.arity();
        let count = raw_command.parameters.len() / g;
        assert(count * g <= raw_command.parameters.len()) by (nonlinear_arith)
            requires
                count == raw_command.parameters.len() / g,
                g > 0,
        ;
        let mut from = last_command;
        let mut k: usize = 0;
        let mut base: usize = 0;
        while k < count
            invariant
                k <= count,
                g == raw_command.kind.group_size(),
                g > 0,
                raw_command.kind != CommandKind::Close,
                count * g <= raw_command.parameters.len(),
                base == g * k,
                base <= raw_command.parameters.len(),
                visited@ == Self::points(raw_command@, last_command, k as nat),
                from == if visited@.len() == 0 {
                    last_command
                } else {
                    visited@.last()
                },
            decreases count - k,
        {
            assert(g * k + g <= raw_command.parameters.len() && g * (k + 1) == g * k + g)
                by (nonlinear_arith)
                requires
                    k < count,
                    count * g <= raw_command.parameters.len(),
                    g > 0,
            ;
            let (x, y) = Self::step_of(raw_command, last_command, k, base);
            let point = Self::from_coords_position(x, y, raw_command.position, from);
            visited.push(point);
            from = point;
            k += 1;
            base += g;
        }
        visited
    }

    /// Reads the two numbers of step `k`, which begins at place `base`.
    fn step_of(raw: &RawCommand<T>, last: Command<T>, k: usize, base: usize) -> (r: (T, T))
        requires
            raw.kind != CommandKind::Close,
            base == raw.kind.group_size() * k,
            base + raw.kind.group_size() <= raw.parameters@.len(),
        ensures
            r == Self::step(raw@, last, k as int),
    {
        let g = raw.kind.arity();
        match raw.kind {
            CommandKind::HorizontalLine => match raw.position {
                Position::Absolute => (raw.parameters[k], last.1),
                Position::Relative => (raw.parameters[k], T::zero()),
            },
            CommandKind::VerticalLine => match raw.position {
                Position::Absolute => (last.0, raw.parameters[k]),
                Position::Relative => (T::zero(), raw.parameters[k]),
            },
            _ => {
                assert(base + g <= raw.parameters.len());
                (raw.parameters[base + g - 2], raw.parameters[base + g - 1])
            },
        }
    }

    /// Places one step: an absolute one is the point itself, an offset is
    /// added to the point reached before.
    fn from_coords_position(x: T, y: T, position: Position, last_command: Command<T>) -> (r:
        Command<T>)
        ensures
            r == match position {
                Position::Absolute => Command(x, y),
                Position::Relative => Command(
                    last_command.0.plus_spec(x),
                    last_command.1.plus_spec(y),
                ),
            },
    {
        match position {
            Position::Absolute => Command(x, y),
            Position::Relative => Command(last_command.0.plus(x), last_command.1.plus(y)),
        }
    }
}

/// Why a list of drawing commands is refused.
#[derive(Debug, PartialEq, Eq)]
pub enum PathError {
    /// The numbers of the command at this place do not fall into whole steps.
    Arity(usize),
}

/// The commands of path data as `svg::node::element::path::Data::parse` reads
/// them, each written as the `svg` crate writes a command: its letter, then
/// its numbers with commas between them. `None` where the data is refused.
pub uninterp spec fn path_data_commands(data: Seq<char>) -> Option<Seq<Seq<char>>>;

/// Calls `Data::parse` of the `svg` crate and writes each command out with
/// the crate's own conversion to `String`. The result is a function of the
/// data alone; nothing is claimed of which data are accepted.
#[verifier::external_body]
fn read_path_data(data: &str) -> (r: Option<Vec<String>>)
    ensures
        match r {
            Some(commands) => path_data_commands(data@) == Some(commands.deep_view()),
            None => path_data_commands(data@) is None,
        },
{
    let commands = Data::parse(data).ok()?;
    Some(commands.iter().map(|command| String::from(command.clone())).collect())
}

/// The kind of command and the reading of its numbers that a letter of path
/// data stands for: a capital letter for coordinates, a small one for
/// offsets.
pub open spec fn letter_meaning(letter: char) -> Option<(CommandKind, Position)> {
    if letter == 'M' {
        Some((CommandKind::Move, Position::Absolute))
    } else if letter == 'm' {
        Some((CommandKind::Move, Position::Relative))
    } else if letter == 'L' {
        Some((CommandKind::Line, Position::Absolute))
    } else if letter == 'l' {
        Some((CommandKind::Line, Position::Relative))
    } else if letter == 'H' {
        Some((CommandKind::HorizontalLine, Position::Absolute))
    } else if letter == 'h' {
        Some((CommandKind::HorizontalLine, Position::Relative))
    } else if letter == 'V' {
        Some((CommandKind::VerticalLine, Position::Absolute))
    } else if letter == 'v' {
        Some((CommandKind::VerticalLine, Position::Relative))
    } else if letter == 'Q' {
        Some((CommandKind::QuadraticCurve, Position::Absolute))
    } else if letter == 'q' {
        Some((CommandKind::QuadraticCurve, Position::Relative))
    } else if letter == 'T' {
        Some((CommandKind::SmoothQuadraticCurve, Position::Absolute))
    } else if letter == 't' {
        Some((CommandKind::SmoothQuadraticCurve, Position::Relative))
    } else if letter == 'C' {
        Some((CommandKind::CubicCurve, Position::Absolute))
    } else if letter == 'c' {
        Some((CommandKind::CubicCurve, Position::Relative))
    } else if letter == 'S' {
        Some((CommandKind::SmoothCubicCurve, Position::Absolute))
    } else if letter == 's' {
        Some((CommandKind::SmoothCubicCurve, Position::Relative))
    } else if letter == 'A' {
        Some((CommandKind::EllipticalArc, Position::Absolute))
    } else if letter == 'a' {
        Some((CommandKind::EllipticalArc, Position::Relative))
    } else if letter == 'Z' {
        Some((CommandKind::Close, Position::Absolute))
    } else if letter == 'z' {
        Some((CommandKind::Close, Position::Relative))
    } else {
        None
    }
}

/// The texts of the numbers that follow the letter of a written command.
pub open spec fn number_texts(text: Seq<char>) -> Seq<Seq<char>> {
    if text.len() <= 1 {
        Seq::empty()
    } else {
        pieces(text.skip(1), Separator::Comma)
    }
}

/// The command that a written command states: its first character is the
/// letter, and what follows are the numbers with commas between them.
pub open spec fn decode<T: Scalar>(text: Seq<char>) -> Option<RawCommandView<T>> {
    if text.len() == 0 {
        None
    } else {
        match (letter_meaning(text[0]), numbers::<T>(number_texts(text))) {
            (Some((kind, position)), Some(parameters)) => Some(
                RawCommandView { kind, position, parameters },
            ),
            _ => None,
        }
    }
}

/// The commands that a list of written commands states, if each states one.
pub open spec fn decode_all<T: Scalar>(texts: Seq<Seq<char>>) -> Option<Seq<RawCommandView<T>>>
    decreases texts.len(),
{
    if texts.len() == 0 {
        Some(Seq::empty())
    } else {
        match (decode_all::<T>(texts.drop_last()), decode::<T>(texts.last())) {
            (Some(before), Some(command)) => Some(before.push(command)),
            _ => None,
        }
    }
}

/// The commands that path data states, if it is accepted and each number
/// is one of the number type.
pub open spec fn commands_of<T: Scalar>(data: Seq<char>) -> Option<Seq<RawCommandView<T>>> {
    match path_data_commands(data) {
        None => None,
        Some(texts) => decode_all::<T>(texts),
    }
}

/// Where the first `n` written commands do not all state commands, the whole
/// list does not.
proof fn lemma_decode_fail<T: Scalar>(texts: Seq<Seq<char>>, n: int)
    requires
        0 <= n <= texts.len(),
        decode_all::<T>(texts.take(n)) is None,
    ensures
        decode_all::<T>(texts) is None,
    decreases texts.len() - n,
{
    if n < texts.len() {
        assert(texts.take(n + 1).drop_last() == texts.take(n));
        lemma_decode_fail::<T>(texts, n + 1);
    } else {
        assert(texts.take(n) == texts);
    }
}

/// Reads the letter of a written command.
fn read_letter(letter: char) -> (r: Option<(CommandKind, Position)>)
    ensures
        r == letter_meaning(letter),
{
    if letter == 'M' {
        Some((CommandKind::Move, Position::Absolute))
    } else if letter == 'm' {
        Some((CommandKind::Move, Position::Relative))
    } else if letter == 'L' {
        Some((CommandKind::Line, Position::Absolute))
    } else if letter == 'l' {
        Some((CommandKind::Line, Position::Relative))
    } else if letter == 'H' {
        Some((CommandKind::HorizontalLine, Position::Absolute))
    } else if letter == 'h' {
        Some((CommandKind::HorizontalLine, Position::Relative))
    } else if letter == 'V' {
        Some((CommandKind::VerticalLine, Position::Absolute))
    } else if letter == 'v' {
        Some((CommandKind::VerticalLine, Position::Relative))
    } else if letter == 'Q' {
        Some((CommandKind::QuadraticCurve, Position::Absolute))
    } else if letter == 'q' {
        Some((CommandKind::QuadraticCurve, Position::Relative))
    } else if letter == 'T' {
        Some((CommandKind::SmoothQuadraticCurve, Position::Absolute))
    } else if letter == 't' {
        Some((CommandKind::SmoothQuadraticCurve, Position::Relative))
    } else if letter == 'C' {
        Some((CommandKind::CubicCurve, Position::Absolute))
    } else if letter == 'c' {
        Some((CommandKind::CubicCurve, Position::Relative))
    } else if letter == 'S' {
        Some((CommandKind::SmoothCubicCurve, Position::Absolute))
    } else if letter == 's' {
        Some((CommandKind::SmoothCubicCurve, Position::Relative))
    } else if letter == 'A' {
        Some((CommandKind::EllipticalArc, Position::Absolute))
    } else if letter == 'a' {
        Some((CommandKind::EllipticalArc, Position::Relative))
    } else if letter == 'Z' {
        Some((CommandKind::Close, Position::Absolute))
    } else if letter == 'z' {
        Some((CommandKind::Close, Position::Relative))
    } else {
        None
    }
}

/// Reads one written command.
pub fn decode_command<T: Scalar>(text: &str) -> (r: Option<RawCommand<T>>)
    ensures
        match r {
            Some(command) => decode::<T>(text@) == Some(command@),
            None => decode::<T>(text@) is None,
        },
{
    let chars = chars_of(text);
    if chars.len() == 0 {
        return None;
    }
    let (kind, position) = match read_letter(chars[0]) {
        Some(meaning) => meaning,
        None => {
            return None;
        },
    };
    let spans = if chars.len() <= 1 {
        let none: Vec<Span> = Vec::new();
        assert(covered(none@, text@) == Seq::<Seq<char>>::empty());
        none
    } else {
        let rest = Span { from: 1, to: chars.len() };
        assert(rest.of(chars@) == text@.skip(1));
        split(&chars, rest, Separator::Comma)
    };
    assert(covered(spans@, text@) == number_texts(text@));
    match read_numbers::<T>(text, &spans) {
        Some(parameters) => Some(RawCommand { kind, position, parameters }),
        None => None,
    }
}

/// Reads path data into its commands. `None` where the data is refused or
/// one of its numbers is none of the number type.
pub fn parse_commands<T: Scalar>(data: &str) -> (r: Option<Vec<RawCommand<T>>>)
    ensures
        match r {
            Some(commands) => commands_of::<T>(data@) == Some(views(commands@)),
            None => commands_of::<T>(data@) is None,
        },
{
    let texts = match read_path_data(data) {
        Some(texts) => texts,
        None => {
            return None;
        },
    };
    let ghost written = texts.deep_view();
    let mut commands: Vec<RawCommand<T>> = Vec::new();
    let mut i: usize = 0;
    assert(views(commands@) == Seq::<RawCommandView<T>>::empty());
    while i < texts.len()
        invariant
            i <= texts.len(),
            written == texts.deep_view(),
            path_data_commands(data@) == Some(written),
            decode_all::<T>(written.take(i as int)) == Some(views(commands@)),
        decreases texts.len() - i,
    {
        assert(written.take(i + 1).drop_last() == written.take(i as int));
        assert(written[i as int] == texts[i as int]@);
        match decode_command::<T>(texts[i].as_str()) {
            Some(command) => {
                let ghost before = views(commands@);
                commands.push(command);
                assert(views(commands@) == before.push(command@));
            },
            None => {
                proof {
                    assert(decode_all::<T>(written.take(i + 1)) is None);
                    lemma_decode_fail::<T>(written, i + 1);
                }
                return None;
            },
        }
        i += 1;
    }
    assert(written.take(i as int) == written);
    Some(commands)
}

/// Whether the first `n` commands are all well formed.
pub open spec fn all_well_formed<N>(commands: Seq<RawCommandView<N>>, n: int) -> bool {
    forall|i: int| 0 <= i < n && i < commands.len() ==> (#[trigger] commands[i]).well_formed()
}

/// The points that a list of commands visits, one command after the other,
/// when the pen starts at `start`. Each command is drawn from the point
/// reached last, or from `start` while none was reached.
pub open spec fn trace<T: Scalar>(commands: Seq<RawCommandView<T>>, start: Command<T>) -> Seq<
    Command<T>,
>
    decreases commands.len(),
{
    if commands.len() == 0 {
        Seq::empty()
    } else {
        let before = trace(commands.drop_last(), start);
        let last = if before.len() == 0 {
            start
        } else {
            before.last()
        };
        before + Command::from_raw_command_spec(commands.last(), last)
    }
}

/// The outline of a path: the points it visits, in order.
#[derive(Clone, Debug)]
pub struct Path<T> {
    path: Vec<Command<T>>,
}

impl<T: Scalar> Path<T> {
    /// The points of the path.
    pub closed spec fn view(self) -> Seq<Command<T>> {
        self.path@
    }

    /// Interprets a list of commands with the pen starting at the origin.
    /// A command whose numbers do not fall into whole steps is refused, the
    /// first such command being named.
    pub fn from_commands(raw_commands: &Vec<RawCommand<T>>) -> (r: Result<Self, PathError>)
        ensures
            match r {
                Ok(path) => all_well_formed(views(raw_commands@), raw_commands.len() as int)
                    && path@ == trace(
                    views(raw_commands@),
                    Command(T::zero_spec(), T::zero_spec()),
                ),
                Err(PathError::Arity(i)) => i < raw_commands.len()
                    && !raw_commands[i as int].well_formed() && all_well_formed(
                    views(raw_commands@),
                    i as int,
                ),
            },
    {
        let start = Command(T::zero(), T::zero());
        let mut path: Vec<Command<T>> = Vec::new();
        let mut last = start;
        let mut i: usize = 0;
        while i < raw_commands.len()
            invariant
                i <= raw_commands.len(),
                start == Command(T::zero_spec(), T::zero_spec()),
                all_well_formed(views(raw_commands@), i as int),
                path@ == trace(views(raw_commands@).take(i as int), start),
                last == if path@.len() == 0 {
                    start
                } else {
                    path@.last()
                },
            decreases raw_commands.len() - i,
        {
            if !raw_commands[i].is_well_formed() {
                return Err(PathError::Arity(i));
            }
            let mut visited = Command::from_raw_command(&raw_commands[i], last);
            assert(views(raw_commands@).take(i + 1).drop_last() == views(raw_commands@).take(
                i as int,
            ));
            if visited.len() > 0 {
                last = visited[visited.len() - 1];
            }
            path.append(&mut visited);
            i += 1;
        }
        assert(views(raw_commands@).take(i as int) == views(raw_commands@));
        Ok(Path { path })
    }

    /// The points of the path, in order.
    pub fn commands(&self) -> (r: &Vec<Command<T>>)
        ensures
            r@ == self@,
    {
        &self.path
    }

    /// Gives the points up.
    pub fn into_commands(self) -> (r: Vec<Command<T>>)
        ensures
            r@ == self@,
    {
        self.path
    }
}

} // verus!
