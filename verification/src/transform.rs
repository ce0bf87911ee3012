//! Transformations of the plane as three by three matrices, and the texts
//! that denote them.
use vstd::prelude::*;
use vstd::string::*;
use crate::bounding_box::Vector2;
use crate::scalar::Scalar;
use crate::text::{
    begins_with, chars_of, covered, keep_filled, numbers, pieces, read_numbers, split, stands_at,
    trimmed, without_leading, without_trailing, words, Separator,
};

verus! {

/// A matrix of three rows and three columns; `m12` stands in the first row
/// and the second column. It moves the point `(x, y)` as the column
/// `(x, y, 1)`.
#[derive(Copy, Clone, Debug)]
pub struct Matrix3<T> {
    pub m11: T,
    pub m12: T,
    pub m13: T,
    pub m21: T,
    pub m22: T,
    pub m23: T,
    pub m31: T,
    pub m32: T,
    pub m33: T,
}

/// The sum of three products, added from the left.
pub open spec fn dot3<T: Scalar>(a1: T, b1: T, a2: T, b2: T, a3: T, b3: T) -> T {
    a1.times_spec(b1).plus_spec(a2.times_spec(b2)).plus_spec(a3.times_spec(b3))
}

fn dot<T: Scalar>(a1: T, b1: T, a2: T, b2: T, a3: T, b3: T) -> (r: T)
    ensures
        r == dot3(a1, b1, a2, b2, a3, b3),
{
    a1.times(b1).plus(a2.times(b2)).plus(a3.times(b3))
}

impl<T: Scalar> Matrix3<T> {
    /// The matrix that moves no point.
    pub open spec fn identity_spec() -> Self {
        Matrix3 {
            m11: T::one_spec(),
            m12: T::zero_spec(),
            m13: T::zero_spec(),
            m21: T::zero_spec(),
            m22: T::one_spec(),
            m23: T::zero_spec(),
            m31: T::zero_spec(),
            m32: T::zero_spec(),
            m33: T::one_spec(),
        }
    }

    /// The product of two matrices: first `rhs` moves a point, then `self`.
    pub open spec fn times_spec(self, rhs: Self) -> Self {
        Matrix3 {
            m11: dot3(self.m11, rhs.m11, self.m12, rhs.m21, self.m13, rhs.m31),
            m12: dot3(self.m11, rhs.m12, self.m12, rhs.m22, self.m13, rhs.m32),
            m13: dot3(self.m11, rhs.m13, self.m12, rhs.m23, self.m13, rhs.m33),
            m21: dot3(self.m21, rhs.m11, self.m22, rhs.m21, self.m23, rhs.m31),
            m22: dot3(self.m21, rhs.m12, self.m22, rhs.m22, self.m23, rhs.m32),
            m23: dot3(self.m21, rhs.m13, self.m22, rhs.m23, self.m23, rhs.m33),
            m31: dot3(self.m31, rhs.m11, self.m32, rhs.m21, self.m33, rhs.m31),
            m32: dot3(self.m31, rhs.m12, self.m32, rhs.m22, self.m33, rhs.m32),
            m33: dot3(self.m31, rhs.m13, self.m32, rhs.m23, self.m33, rhs.m33),
        }
    }

    /// Where the matrix moves a point.
    pub open spec fn apply_spec(self, point: Vector2<T>) -> Vector2<T> {
        Vector2 {
            x: dot3(self.m11, point.x, self.m12, point.y, self.m13, T::one_spec()),
            y: dot3(self.m21, point.x, self.m22, point.y, self.m23, T::one_spec()),
        }
    }

    pub fn identity() -> (r: Self)
        ensures
            r == Self::identity_spec(),
    {
        Matrix3 {
            m11: T::one(),
            m12: T::zero(),
            m13: T::zero(),
            m21: T::zero(),
            m22: T::one(),
            m23: T::zero(),
            m31: T::zero(),
            m32: T::zero(),
            m33: T::one(),
        }
    }

    /// Multiplies two matrices.
    pub fn times(&self, rhs: &Self) -> (r: Self)
        ensures
            r == self.times_spec(*rhs),
    {
        Matrix3 {
            m11: dot(self.m11, rhs.m11, self.m12, rhs.m21, self.m13, rhs.m31),
            m12: dot(self.m11, rhs.m12, self.m12, rhs.m22, self.m13, rhs.m32),
            m13: dot(self.m11, rhs.m13, self.m12, rhs.m23, self.m13, rhs.m33),
            m21: dot(self.m21, rhs.m11, self.m22, rhs.m21, self.m23, rhs.m31),
            m22: dot(self.m21, rhs.m12, self.m22, rhs.m22, self.m23, rhs.m32),
            m23: dot(self.m21, rhs.m13, self.m22, rhs.m23, self.m23, rhs.m33),
            m31: dot(self.m31, rhs.m11, self.m32, rhs.m21, self.m33, rhs.m31),
            m32: dot(self.m31, rhs.m12, self.m32, rhs.m22, self.m33, rhs.m32),
            m33: dot(self.m31, rhs.m13, self.m32, rhs.m23, self.m33, rhs.m33),
        }
    }

    /// Moves a point.
    pub fn apply(&self, point: Vector2<T>) -> (r: Vector2<T>)
        ensures
            r == self.apply_spec(point),
    {
        Vector2 {
            x: dot(self.m11, point.x, self.m12, point.y, self.m13, T::one()),
            y: dot(self.m21, point.x, self.m22, point.y, self.m23, T::one()),
        }
    }
}

/// The matrix that shifts every point by `translation`.
pub open spec fn translate_spec<T: Scalar>(translation: Vector2<T>) -> Matrix3<T> {
    Matrix3 {
        m11: T::one_spec(),
        m12: T::zero_spec(),
        m13: translation.x,
        m21: T::zero_spec(),
        m22: T::one_spec(),
        m23: translation.y,
        m31: T::zero_spec(),
        m32: T::zero_spec(),
        m33: T::one_spec(),
    }
}

/// The matrix that turns every point about the origin by `rotation` degrees.
pub open spec fn rotate_deg_spec<T: Scalar>(rotation: T) -> Matrix3<T> {
    Matrix3 {
        m11: rotation.cosine_degrees_spec(),
        m12: rotation.sine_degrees_spec().negated_spec(),
        m13: T::zero_spec(),
        m21: rotation.sine_degrees_spec(),
        m22: rotation.cosine_degrees_spec(),
        m23: T::zero_spec(),
        m31: T::zero_spec(),
        m32: T::zero_spec(),
        m33: T::one_spec(),
    }
}

/// The matrix that turns every point about `about` by `rotation` degrees:
/// shift `about` to the origin, turn, shift back.
pub open spec fn rotate_deg_about_spec<T: Scalar>(rotation: T, about: Vector2<T>) -> Matrix3<T> {
    translate_spec(about).times_spec(rotate_deg_spec(rotation)).times_spec(
        translate_spec(Vector2 { x: about.x.negated_spec(), y: about.y.negated_spec() }),
    )
}

/// The matrix that stretches the two axes by the two numbers of `factor`.
pub open spec fn scale_spec<T: Scalar>(factor: Vector2<T>) -> Matrix3<T> {
    Matrix3 {
        m11: factor.x,
        m12: T::zero_spec(),
        m13: T::zero_spec(),
        m21: T::zero_spec(),
        m22: factor.y,
        m23: T::zero_spec(),
        m31: T::zero_spec(),
        m32: T::zero_spec(),
        m33: T::one_spec(),
    }
}

/// Makes the matrix that shifts every point by `translation`.
pub fn translate<T: Scalar>(translation: Vector2<T>) -> (r: Matrix3<T>)
    ensures
        r == translate_spec(translation),
{
    Matrix3 {
        m11: T::one(),
        m12: T::zero(),
        m13: translation.x,
        m21: T::zero(),
        m22: T::one(),
        m23: translation.y,
        m31: T::zero(),
        m32: T::zero(),
        m33: T::one(),
    }
}

/// Makes the matrix that turns every point about the origin by `rotation`
/// degrees.
pub fn rotate_deg<T: Scalar>(rotation: T) -> (r: Matrix3<T>)
    ensures
        r == rotate_deg_spec(rotation),
{
    Matrix3 {
        m11: rotation.cosine_degrees(),
        m12: rotation.sine_degrees().negated(),
        m13: T::zero(),
        m21: rotation.sine_degrees(),
        m22: rotation.cosine_degrees(),
        m23: T::zero(),
        m31: T::zero(),
        m32: T::zero(),
        m33: T::one(),
    }
}

/// Makes the matrix that turns every point about `about` by `rotation`
/// degrees.
pub fn rotate_deg_about<T: Scalar>(rotation: T, about: Vector2<T>) -> (r: Matrix3<T>)
    ensures
        r == rotate_deg_about_spec(rotation, about),
{
    let back = translate(Vector2::new(about.x.negated(), about.y.negated()));
    translate(about).times(&rotate_deg(rotation)).times(&back)
}

/// Makes the matrix that stretches the two axes by the two numbers of
/// `factor`.
pub fn scale<T: Scalar>(factor: Vector2<T>) -> (r: Matrix3<T>)
    ensures
        r == scale_spec(factor),
{
    Matrix3 {
        m11: factor.x,
        m12: T::zero(),
        m13: T::zero(),
        m21: T::zero(),
        m22: factor.y,
        m23: T::zero(),
        m31: T::zero(),
        m32: T::zero(),
        m33: T::one(),
    }
}

/// Why a text is not taken for a transformation.
#[derive(Clone, Copy, Debug, PartialEq, Eq, Structural)]
pub enum TransformErrorKind {
    /// One of the arguments is not a number.
    InvalidNumber,
    /// The function does not take that many arguments.
    WrongArgumentCount,
    /// The text names none of `matrix`, `translate`, `rotate` and `scale`.
    Unsupported,
}

/// A text that is not taken for a transformation, and why.
#[derive(Debug)]
pub struct TransformError {
    pub kind: TransformErrorKind,
    pub text: String,
}

/// What an error says in words: why the text is refused, and the text.
pub open spec fn transform_message(kind: TransformErrorKind, text: Seq<char>) -> Seq<char> {
    match kind {
        TransformErrorKind::InvalidNumber => "Invalid number in transform: "@ + text,
        TransformErrorKind::WrongArgumentCount => "Wrong number of arguments to transform: "@
            + text,
        TransformErrorKind::Unsupported => "Unimplemented transformation "@ + text,
    }
}

/// Writes an error in words.
pub fn write_transform_message(kind: TransformErrorKind, text: &str) -> (r: String)
    ensures
        r@ == transform_message(kind, text@),
{
    let start = match kind {
        TransformErrorKind::InvalidNumber => "Invalid number in transform: ",
        TransformErrorKind::WrongArgumentCount => "Wrong number of arguments to transform: ",
        TransformErrorKind::Unsupported => "Unimplemented transformation ",
    };
    let mut message = start.to_owned();
    message.append(text);
    message
}

impl TransformError {
    /// The error in words.
    pub fn message(&self) -> (r: String)
        ensures
            r@ == transform_message(self.kind, self.text@),
    {
        write_transform_message(self.kind, self.text.as_str())
    }
}

/// The arguments of a call: `text` without every leading `opening` and
/// without every closing bracket at its end, cut into pieces.
pub open spec fn arguments(text: Seq<char>, opening: Seq<char>, separator: Separator) -> Seq<
    Seq<char>,
> {
    let inner = without_trailing(without_leading(text, opening), seq![')']);
    match separator {
        Separator::Whitespace => words(inner),
        _ => pieces(inner, separator),
    }
}

/// What `matrix(a b c d e f)` denotes: the six numbers are set apart by white
/// space and fill the first two rows column by column.
pub open spec fn parse_matrix_transform_spec<T: Scalar>(text: Seq<char>) -> Result<
    Matrix3<T>,
    TransformErrorKind,
> {
    match numbers::<T>(arguments(text, "matrix("@, Separator::Whitespace)) {
        None => Err(TransformErrorKind::InvalidNumber),
        Some(data) => if data.len() != 6 {
            Err(TransformErrorKind::WrongArgumentCount)
        } else {
            Ok(
                Matrix3 {
                    m11: data[0],
                    m12: data[2],
                    m13: data[4],
                    m21: data[1],
                    m22: data[3],
                    m23: data[5],
                    m31: T::zero_spec(),
                    m32: T::zero_spec(),
                    m33: T::one_spec(),
                },
            )
        },
    }
}

/// What `translate(x)` or `translate(x y)` denotes; without `y` the shift is
/// horizontal. The numbers are set apart by one space or one comma.
pub open spec fn parse_translate_transform_spec<T: Scalar>(text: Seq<char>) -> Result<
    Matrix3<T>,
    TransformErrorKind,
> {
    match numbers::<T>(arguments(text, "translate("@, Separator::SpaceOrComma)) {
        None => Err(TransformErrorKind::InvalidNumber),
        Some(data) => if data.len() == 1 {
            Ok(translate_spec(Vector2 { x: data[0], y: T::zero_spec() }))
        } else if data.len() == 2 {
            Ok(translate_spec(Vector2 { x: data[0], y: data[1] }))
        } else {
            Err(TransformErrorKind::WrongArgumentCount)
        },
    }
}

/// What `rotate(angle)` or `rotate(angle x y)` denotes: a turn about the
/// origin, or about the point `(x, y)`.
pub open spec fn parse_rotate_transform_spec<T: Scalar>(text: Seq<char>) -> Result<
    Matrix3<T>,
    TransformErrorKind,
> {
    match numbers::<T>(arguments(text, "rotate("@, Separator::SpaceOrComma)) {
        None => Err(TransformErrorKind::InvalidNumber),
        Some(data) => if data.len() == 1 {
            Ok(rotate_deg_spec(data[0]))
        } else if data.len() == 3 {
            Ok(rotate_deg_about_spec(data[0], Vector2 { x: data[1], y: data[2] }))
        } else {
            Err(TransformErrorKind::WrongArgumentCount)
        },
    }
}

/// What `scale(s)` or `scale(x y)` denotes; one number stretches both axes
/// alike.
pub open spec fn parse_scale_transform_spec<T: Scalar>(text: Seq<char>) -> Result<
    Matrix3<T>,
    TransformErrorKind,
> {
    match numbers::<T>(arguments(text, "scale("@, Separator::SpaceOrComma)) {
        None => Err(TransformErrorKind::InvalidNumber),
        Some(data) => if data.len() == 1 {
            Ok(scale_spec(Vector2 { x: data[0], y: data[0] }))
        } else if data.len() == 2 {
            Ok(scale_spec(Vector2 { x: data[0], y: data[1] }))
        } else {
            Err(TransformErrorKind::WrongArgumentCount)
        },
    }
}

/// What the value of a `transform` attribute denotes. The name at its
/// beginning decides which of the four functions it is.
pub open spec fn parse_transform_spec<T: Scalar>(text: Seq<char>) -> Result<
    Matrix3<T>,
    TransformErrorKind,
> {
    if begins_with(text, "matrix"@) {
        parse_matrix_transform_spec(text)
    } else if begins_with(text, "translate"@) {
        parse_translate_transform_spec(text)
    } else if begins_with(text, "rotate"@) {
        parse_rotate_transform_spec(text)
    } else if begins_with(text, "scale"@) {
        parse_scale_transform_spec(text)
    } else {
        Err(TransformErrorKind::Unsupported)
    }
}

/// Whether `r` is the outcome `expected` for the text `text`: the same
/// matrix, or the same kind of error together with the text.
pub open spec fn outcome_is<T: Scalar>(
    r: Result<Matrix3<T>, TransformError>,
    expected: Result<Matrix3<T>, TransformErrorKind>,
    text: Seq<char>,
) -> bool {
    match r {
        Ok(matrix) => expected == Ok::<Matrix3<T>, TransformErrorKind>(matrix),
        Err(error) => expected == Err::<Matrix3<T>, TransformErrorKind>(error.kind) && error.text@
            == text,
    }
}

fn refuse<T: Scalar>(kind: TransformErrorKind, text: &str) -> (r: Result<
    Matrix3<T>,
    TransformError,
>)
    ensures
        r matches Err(error) && error.kind == kind && error.text@ == text@,
{
    Err(TransformError { kind, text: text.to_owned() })
}

/// Reads the arguments of a call as numbers.
fn read_arguments<T: Scalar>(text: &str, opening: &str, separator: Separator) -> (r: Option<
    Vec<T>,
>)
    ensures
        match r {
            Some(data) => numbers::<T>(arguments(text@, opening@, separator)) == Some(data@),
            None => numbers::<T>(arguments(text@, opening@, separator)) is None,
        },
{
    let chars = chars_of(text);
    let prefix = chars_of(opening);
    let mut suffix: Vec<char> = Vec::new();
    suffix.push(')');
    assert(suffix@ == seq![')']);
    let inner = trimmed(&chars, &prefix, &suffix);
    let all = split(&chars, inner, separator);
    let spans = match separator {
        Separator::Whitespace => keep_filled(&chars, &all),
        _ => all,
    };
    assert(covered(spans@, chars@) == arguments(text@, opening@, separator));
    read_numbers(text, &spans)
}

/// Reads `matrix(a b c d e f)`.
pub fn parse_matrix_transform<T: Scalar>(matrix: &str) -> (r: Result<Matrix3<T>, TransformError>)
    ensures
        outcome_is(r, parse_matrix_transform_spec::<T>(matrix@), matrix@),
{
    match read_arguments::<T>(matrix, "matrix(", Separator::Whitespace) {
        None => refuse(TransformErrorKind::InvalidNumber, matrix),
        Some(data) => if data.len() != 6 {
            refuse(TransformErrorKind::WrongArgumentCount, matrix)
        } else {
            Ok(
                Matrix3 {
                    m11: data[0],
                    m12: data[2],
                    m13: data[4],
                    m21: data[1],
                    m22: data[3],
                    m23: data[5],
                    m31: T::zero(),
                    m32: T::zero(),
                    m33: T::one(),
                },
            )
        },
    }
}

/// Reads `translate(x)` or `translate(x y)`.
pub fn parse_translate_transform<T: Scalar>(translate_text: &str) -> (r: Result<
    Matrix3<T>,
    TransformError,
>)
    ensures
        outcome_is(r, parse_translate_transform_spec::<T>(translate_text@), translate_text@),
{
    match read_arguments::<T>(translate_text, "translate(", Separator::SpaceOrComma) {
        None => refuse(TransformErrorKind::InvalidNumber, translate_text),
        Some(data) => if data.len() == 1 {
            Ok(translate(Vector2::new(data[0], T::zero())))
        } else if data.len() == 2 {
            Ok(translate(Vector2::new(data[0], data[1])))
        } else {
            refuse(TransformErrorKind::WrongArgumentCount, translate_text)
        },
    }
}

/// Reads `rotate(angle)` or `rotate(angle x y)`.
pub fn parse_rotate_transform<T: Scalar>(rotate: &str) -> (r: Result<Matrix3<T>, TransformError>)
    ensures
        outcome_is(r, parse_rotate_transform_spec::<T>(rotate@), rotate@),
{
    match read_arguments::<T>(rotate, "rotate(", Separator::SpaceOrComma) {
        None => refuse(TransformErrorKind::InvalidNumber, rotate),
        Some(data) => if data.len() == 1 {
            Ok(rotate_deg(data[0]))
        } else if data.len() == 3 {
            Ok(rotate_deg_about(data[0], Vector2::new(data[1], data[2])))
        } else {
            refuse(TransformErrorKind::WrongArgumentCount, rotate)
        },
    }
}

/// Reads `scale(s)` or `scale(x y)`.
pub fn parse_scale_transform<T: Scalar>(scale_text: &str) -> (r: Result<
    Matrix3<T>,
    TransformError,
>)
    ensures
        outcome_is(r, parse_scale_transform_spec::<T>(scale_text@), scale_text@),
{
    match read_arguments::<T>(scale_text, "scale(", Separator::SpaceOrComma) {
        None => refuse(TransformErrorKind::InvalidNumber, scale_text),
        Some(data) => if data.len() == 1 {
            Ok(scale(Vector2::new(data[0], data[0])))
        } else if data.len() == 2 {
            Ok(scale(Vector2::new(data[0], data[1])))
        } else {
            refuse(TransformErrorKind::WrongArgumentCount, scale_text)
        },
    }
}

/// Reads the value of a `transform` attribute.
pub fn parse_transform<T: Scalar>(transformation: &str) -> (r: Result<Matrix3<T>, TransformError>)
    ensures
        outcome_is(r, parse_transform_spec::<T>(transformation@), transformation@),
{
    let chars = chars_of(transformation);
    assert(chars@.skip(0) == chars@);
    if stands_at(&chars, 0, &chars_of("matrix")) {
        parse_matrix_transform(transformation)
    } else if stands_at(&chars, 0, &chars_of("translate")) {
        parse_translate_transform(transformation)
    } else if stands_at(&chars, 0, &chars_of("rotate")) {
        parse_rotate_transform(transformation)
    } else if stands_at(&chars, 0, &chars_of("scale")) {
        parse_scale_transform(transformation)
    } else {
        refuse(TransformErrorKind::Unsupported, transformation)
    }
}

} // verus!
