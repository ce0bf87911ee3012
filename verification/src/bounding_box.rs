//! Boxes and squares whose sides run along the axes.
use vstd::prelude::*;
use vstd::string::*;
use crate::scalar::Scalar;
use crate::svg_path_parser::{Command, Path};

verus! {

/// A pair of numbers: a point, or a width and a height.
#[derive(Copy, Clone, Debug, Hash, PartialEq, Eq)]
pub struct Vector2<T> {
    pub x: T,
    pub y: T,
}

impl<T: Scalar> Vector2<T> {
    pub fn new(x: T, y: T) -> (r: Self)
        ensures
            r == (Vector2 { x, y }),
    {
        Vector2 { x, y }
    }

    /// The sum, coordinate by coordinate.
    pub open spec fn plus_spec(self, rhs: Self) -> Self {
        Vector2 { x: self.x.plus_spec(rhs.x), y: self.y.plus_spec(rhs.y) }
    }

    /// The difference, coordinate by coordinate.
    pub open spec fn minus_spec(self, rhs: Self) -> Self {
        Vector2 { x: self.x.minus_spec(rhs.x), y: self.y.minus_spec(rhs.y) }
    }

    /// Adds coordinate by coordinate.
    pub fn plus(self, rhs: Self) -> (r: Self)
        ensures
            r == self.plus_spec(rhs),
    {
        Vector2 { x: self.x.plus(rhs.x), y: self.y.plus(rhs.y) }
    }

    /// Subtracts coordinate by coordinate.
    pub fn minus(self, rhs: Self) -> (r: Self)
        ensures
            r == self.minus_spec(rhs),
    {
        Vector2 { x: self.x.minus(rhs.x), y: self.y.minus(rhs.y) }
    }
}

/// The greater of two numbers; the first where neither is less.
pub open spec fn greater_of<T: Scalar>(a: T, b: T) -> T {
    if a.less_than_spec(b) {
        b
    } else {
        a
    }
}

/// The least of `values`, beginning from the greatest number there is.
pub open spec fn least<T: Scalar>(values: Seq<T>) -> T
    decreases values.len(),
{
    if values.len() == 0 {
        T::largest_spec()
    } else {
        let before = least(values.drop_last());
        if values.last().less_than_spec(before) {
            values.last()
        } else {
            before
        }
    }
}

/// The greatest of `values`, beginning from the least number there is.
pub open spec fn greatest<T: Scalar>(values: Seq<T>) -> T
    decreases values.len(),
{
    if values.len() == 0 {
        T::smallest_spec()
    } else {
        let before = greatest(values.drop_last());
        if before.less_than_spec(values.last()) {
            values.last()
        } else {
            before
        }
    }
}

/// The horizontal coordinates of a list of points.
pub open spec fn xs<T>(points: Seq<Command<T>>) -> Seq<T> {
    Seq::new(points.len(), |i: int| points[i].0)
}

/// The vertical coordinates of a list of points.
pub open spec fn ys<T>(points: Seq<Command<T>>) -> Seq<T> {
    Seq::new(points.len(), |i: int| points[i].1)
}

/// A box given by its top left corner and its size.
#[derive(Copy, Clone, Debug)]
pub struct BoundingBox<T> {
    pub top_left: Vector2<T>,
    pub size: Vector2<T>,
}

impl<T: Scalar> BoundingBox<T> {
    /// The corner with the greatest coordinates.
    pub open spec fn bottom_right(self) -> Vector2<T> {
        self.top_left.plus_spec(self.size)
    }

    /// Whether neither the width nor the height is negative.
    pub open spec fn has_extent(self) -> bool {
        !self.size.x.less_than_spec(T::zero_spec()) && !self.size.y.less_than_spec(
            T::zero_spec(),
        )
    }

    /// Whether two boxes overlap or touch: neither lies wholly to the left of
    /// the other, nor wholly above it.
    pub open spec fn intersects_spec(self, other: Self) -> bool {
        let self_left_of_other = self.bottom_right().x.less_than_spec(other.top_left.x);
        let other_left_of_self = other.bottom_right().x.less_than_spec(self.top_left.x);
        let self_below_other = self.bottom_right().y.less_than_spec(other.top_left.y);
        let other_below_self = other.bottom_right().y.less_than_spec(self.top_left.y);
        !(self_left_of_other || other_left_of_self || self_below_other || other_below_self)
    }

    /// The box around the points of a path: from the least coordinates to the
    /// greatest ones.
    pub open spec fn around(points: Seq<Command<T>>) -> Self {
        let top_left = Vector2 { x: least(xs(points)), y: least(ys(points)) };
        let bottom_right = Vector2 { x: greatest(xs(points)), y: greatest(ys(points)) };
        BoundingBox { top_left, size: bottom_right.minus_spec(top_left) }
    }

    /// The four numbers of the box written with single spaces between them:
    /// left, top, width, height.
    pub open spec fn view_box_spec(self) -> Seq<char> {
        self.top_left.x.text_spec() + seq![' '] + self.top_left.y.text_spec() + seq![' ']
            + self.size.x.text_spec() + seq![' '] + self.size.y.text_spec()
    }

    pub fn new(top_left: Vector2<T>, size: Vector2<T>) -> (r: Self)
        ensures
            r == (BoundingBox { top_left, size }),
    {
        Self { top_left, size }
    }

    /// Tests whether two boxes overlap or touch.
    pub fn intersects(&self, other: &Self) -> (r: bool)
        ensures
            r == self.intersects_spec(*other),
    {
        let self_left_of_other = self.top_left.x.plus(self.size.x).less_than(other.top_left.x);
        let other_left_of_self = other.top_left.x.plus(other.size.x).less_than(self.top_left.x);
        let self_below_other = self.top_left.y.plus(self.size.y).less_than(other.top_left.y);
        let other_below_self = other.top_left.y.plus(other.size.y).less_than(self.top_left.y);
        !(self_left_of_other || other_left_of_self || self_below_other || other_below_self)
    }

    pub fn get_top_left(&self) -> (r: Vector2<T>)
        ensures
            r == self.top_left,
    {
        self.top_left
    }

    pub fn get_size(&self) -> (r: Vector2<T>)
        ensures
            r == self.size,
    {
        self.size
    }

    pub fn get_bottom_right(&self) -> (r: Vector2<T>)
        ensures
            r == self.bottom_right(),
    {
        self.top_left.plus(self.size)
    }

    /// Writes the box as the value of a `viewBox` attribute.
    pub fn as_view_box(&self) -> (r: String)
        ensures
            r@ == self.view_box_spec(),
    {
        proof {
            reveal_strlit(" ");
            assert(" "@ == seq![' ']);
        }
        let mut text = self.top_left.x.to_text();
        text.append(" ");
        text.append(self.top_left.y.to_text().as_str());
        text.append(" ");
        text.append(self.size.x.to_text().as_str());
        text.append(" ");
        text.append(self.size.y.to_text().as_str());
        text
    }

    /// The box around the points of a path.
    pub fn from_path(path: &Path<T>) -> (r: Self)
        ensures
            r == Self::around(path@),
    {
        let points = path.commands();
        let mut min_x = T::largest();
        let mut max_x = T::smallest();
        let mut min_y = T::largest();
        let mut max_y = T::smallest();
        let mut i: usize = 0;
        while i < points.len()
            invariant
                i <= points.len(),
                min_x == least(xs(points@.take(i as int))),
                max_x == greatest(xs(points@.take(i as int))),
                min_y == least(ys(points@.take(i as int))),
                max_y == greatest(ys(points@.take(i as int))),
            decreases points.len() - i,
        {
            let command = points[i];
            proof {
                let now = points@.take(i + 1);
                let before = points@.take(i as int);
                assert(xs(now).drop_last() == xs(before));
                assert(ys(now).drop_last() == ys(before));
            }
            if command.0.less_than(min_x) {
                min_x = command.0;
            }
            if max_x.less_than(command.0) {
                max_x = command.0;
            }
            if command.1.less_than(min_y) {
                min_y = command.1;
            }
            if max_y.less_than(command.1) {
                max_y = command.1;
            }
            i += 1;
        }
        assert(points@.take(i as int) == points@);
        let top_left = Vector2::new(min_x, min_y);
        let bottom_right = Vector2::new(max_x, max_y);
        let size = bottom_right.minus(top_left);
        Self::new(top_left, size)
    }
}

/// A box of equal width and height.
#[derive(Copy, Clone, Debug)]
pub struct BoundingSquare<T> {
    pub top_left: Vector2<T>,
    pub size: T,
}

impl<T: Scalar> BoundingSquare<T> {
    pub fn new(top_left: Vector2<T>, size: T) -> (r: Self)
        ensures
            r == (BoundingSquare { top_left, size }),
    {
        Self { top_left, size }
    }

    /// The square at the top left corner of a box whose edge is the greater
    /// of the box's width and height.
    pub fn contain_bounding_box(bounding_box: &BoundingBox<T>) -> (r: Self)
        ensures
            r == (BoundingSquare {
                top_left: bounding_box.top_left,
                size: greater_of(bounding_box.size.x, bounding_box.size.y),
            }),
    {
        let size = bounding_box.get_size();
        let edge = if size.x.less_than(size.y) {
            size.y
        } else {
            size.x
        };
        Self { top_left: bounding_box.get_top_left(), size: edge }
    }

    pub fn get_top_left(&self) -> (r: Vector2<T>)
        ensures
            r == self.top_left,
    {
        self.top_left
    }

    pub fn edge_length(&self) -> (r: T)
        ensures
            r == self.size,
    {
        self.size
    }

    /// The same region as a box.
    pub fn as_bounding_box(&self) -> (r: BoundingBox<T>)
        ensures
            r == (BoundingBox {
                top_left: self.top_left,
                size: Vector2 { x: self.size, y: self.size },
            }),
    {
        BoundingBox::new(self.top_left, Vector2::new(self.size, self.size))
    }
}

/// Overlap does not depend on which of the two boxes is asked.
pub proof fn lemma_intersects_symmetric<T: Scalar>(a: BoundingBox<T>, b: BoundingBox<T>)
    ensures
        a.intersects_spec(b) == b.intersects_spec(a),
{
}

} // verus!
