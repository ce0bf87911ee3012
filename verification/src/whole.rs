//! What holds of the geometry where the numbers are whole and no result
//! leaves the range of `i64`: there the arithmetic is exact.
use vstd::prelude::*;
use crate::bounding_box::{BoundingBox, Vector2};
use crate::scalar::Scalar;
use crate::svg_parser::{bottoms, grown, reach, rights, ElementView};
use crate::transform::{dot3, Matrix3};
use crate::util::max_of;

verus! {

/// The greatest size of a number that is small: about a million.
pub const SMALL: i64 = 0x10_0000;

/// Whether a number is small enough for sums and products of a few such
/// numbers to stay in range.
pub open spec fn small(value: i64) -> bool {
    -SMALL <= value <= SMALL
}

/// An edge that has been moved out is no nearer than it was and no nearer
/// than the edge of any child.
pub proof fn lemma_reach_bounds(own: i64, children: Seq<i64>, i: int)
    requires
        0 <= i < children.len(),
    ensures
        reach(own, children) >= own,
        reach(own, children) >= children[i],
{
    lemma_max_of_bounds(children, i);
}

/// The greatest of a list is no less than any of the list.
proof fn lemma_max_of_bounds(values: Seq<i64>, i: int)
    requires
        0 <= i < values.len(),
    ensures
        max_of(values) is Some,
        max_of(values)->0 >= values[i],
    decreases values.len(),
{
    if i < values.len() - 1 {
        lemma_max_of_bounds(values.drop_last(), i);
    } else if values.len() > 1 {
        lemma_max_of_bounds(values.drop_last(), 0);
    }
}

/// The box of an element with children reaches as far right and as far down
/// as its own rectangle and as the box of each child, where its corner and
/// all these edges are small.
pub proof fn lemma_grown_holds_children(
    top_left: Vector2<i64>,
    size: Vector2<i64>,
    children: Seq<ElementView<i64>>,
    i: int,
)
    requires
        small(top_left.x),
        small(top_left.y),
        small(size.x),
        small(size.y),
        forall|k: int| 0 <= k < children.len() ==> small(#[trigger] rights(children)[k]),
        forall|k: int| 0 <= k < children.len() ==> small(#[trigger] bottoms(children)[k]),
        0 <= i < children.len(),
    ensures
        grown(top_left, size, children).top_left == top_left,
        grown(top_left, size, children).bottom_right().x >= top_left.x + size.x,
        grown(top_left, size, children).bottom_right().y >= top_left.y + size.y,
        grown(top_left, size, children).bottom_right().x >= children[i].bounding_box.bottom_right().x,
        grown(top_left, size, children).bottom_right().y >= children[i].bounding_box.bottom_right().y,
{
    let own = top_left.plus_spec(size);
    lemma_reach_bounds(own.x, rights(children), i);
    lemma_reach_bounds(own.y, bottoms(children), i);
    lemma_reach_small(own.x, rights(children));
    lemma_reach_small(own.y, bottoms(children));
}

/// The box of an element with children is no smaller than the rectangle of
/// the element itself, and has no negative size where that has none, as long
/// as its corner and all the edges are small.
pub proof fn lemma_grown_holds_itself(
    top_left: Vector2<i64>,
    size: Vector2<i64>,
    children: Seq<ElementView<i64>>,
)
    requires
        small(top_left.x),
        small(top_left.y),
        small(size.x),
        small(size.y),
        forall|k: int| 0 <= k < children.len() ==> small(#[trigger] rights(children)[k]),
        forall|k: int| 0 <= k < children.len() ==> small(#[trigger] bottoms(children)[k]),
    ensures
        grown(top_left, size, children).top_left == top_left,
        grown(top_left, size, children).size.x >= size.x,
        grown(top_left, size, children).size.y >= size.y,
        (BoundingBox { top_left, size }).has_extent() ==> grown(top_left, size, children).has_extent(),
{
    let own = top_left.plus_spec(size);
    lemma_reach_small(own.x, rights(children));
    lemma_reach_small(own.y, bottoms(children));
    lemma_reach_at_least(own.x, rights(children));
    lemma_reach_at_least(own.y, bottoms(children));
}

/// An edge that has been moved out is no nearer than it was.
proof fn lemma_reach_at_least(own: i64, children: Seq<i64>)
    ensures
        reach(own, children) >= own,
{
}

/// An edge that has been moved out is one of those it was chosen from.
proof fn lemma_reach_small(own: i64, children: Seq<i64>)
    requires
        -2 * SMALL <= own <= 2 * SMALL,
        forall|k: int| 0 <= k < children.len() ==> small(#[trigger] children[k]),
    ensures
        -2 * SMALL <= reach(own, children) <= 2 * SMALL,
{
    lemma_max_of_small(children);
}

proof fn lemma_max_of_small(values: Seq<i64>)
    requires
        forall|k: int| 0 <= k < values.len() ==> small(#[trigger] values[k]),
    ensures
        max_of(values) matches Some(greatest) ==> small(greatest),
    decreases values.len(),
{
    if values.len() > 0 {
        assert forall|k: int| 0 <= k < values.drop_last().len() implies small(
            #[trigger] values.drop_last()[k],
        ) by {
            assert(values.drop_last()[k] == values[k]);
        }
        lemma_max_of_small(values.drop_last());
        assert(small(values[values.len() - 1]));
    }
}

/// Two boxes of small whole numbers meet exactly where their extents overlap
/// or touch along both axes.
pub proof fn lemma_intersects_overlap(a: BoundingBox<i64>, b: BoundingBox<i64>)
    requires
        small(a.top_left.x) && small(a.top_left.y) && small(a.size.x) && small(a.size.y),
        small(b.top_left.x) && small(b.top_left.y) && small(b.size.x) && small(b.size.y),
    ensures
        a.intersects_spec(b) <==> {
            &&& b.top_left.x <= a.top_left.x + a.size.x
            &&& a.top_left.x <= b.top_left.x + b.size.x
            &&& b.top_left.y <= a.top_left.y + a.size.y
            &&& a.top_left.y <= b.top_left.y + b.size.y
        },
{
}

/// A matrix with its entries as unbounded whole numbers.
pub open spec fn ints(m: Matrix3<i64>) -> Matrix3<int> {
    Matrix3 {
        m11: m.m11 as int,
        m12: m.m12 as int,
        m13: m.m13 as int,
        m21: m.m21 as int,
        m22: m.m22 as int,
        m23: m.m23 as int,
        m31: m.m31 as int,
        m32: m.m32 as int,
        m33: m.m33 as int,
    }
}

/// The product of two matrices of unbounded whole numbers.
pub open spec fn product(a: Matrix3<int>, b: Matrix3<int>) -> Matrix3<int> {
    Matrix3 {
        m11: a.m11 * b.m11 + a.m12 * b.m21 + a.m13 * b.m31,
        m12: a.m11 * b.m12 + a.m12 * b.m22 + a.m13 * b.m32,
        m13: a.m11 * b.m13 + a.m12 * b.m23 + a.m13 * b.m33,
        m21: a.m21 * b.m11 + a.m22 * b.m21 + a.m23 * b.m31,
        m22: a.m21 * b.m12 + a.m22 * b.m22 + a.m23 * b.m32,
        m23: a.m21 * b.m13 + a.m22 * b.m23 + a.m23 * b.m33,
        m31: a.m31 * b.m11 + a.m32 * b.m21 + a.m33 * b.m31,
        m32: a.m31 * b.m12 + a.m32 * b.m22 + a.m33 * b.m32,
        m33: a.m31 * b.m13 + a.m32 * b.m23 + a.m33 * b.m33,
    }
}

/// Whether the product of two matrices is exact: no entry of it was brought
/// back into the range of `i64`.
pub open spec fn exact(a: Matrix3<i64>, b: Matrix3<i64>) -> bool {
    ints(a.times_spec(b)) == product(ints(a), ints(b))
}

/// Whether each entry of a matrix is at most about a billion in size.
pub open spec fn modest(m: Matrix3<i64>) -> bool {
    let bound: int = 0x4000_0000;
    &&& -bound <= m.m11 <= bound
    &&& -bound <= m.m12 <= bound
    &&& -bound <= m.m13 <= bound
    &&& -bound <= m.m21 <= bound
    &&& -bound <= m.m22 <= bound
    &&& -bound <= m.m23 <= bound
    &&& -bound <= m.m31 <= bound
    &&& -bound <= m.m32 <= bound
    &&& -bound <= m.m33 <= bound
}

/// A sum of three products of numbers of modest size is exact.
proof fn lemma_dot_exact(a1: i64, b1: i64, a2: i64, b2: i64, a3: i64, b3: i64)
    requires
        -0x4000_0000 <= a1 <= 0x4000_0000,
        -0x4000_0000 <= b1 <= 0x4000_0000,
        -0x4000_0000 <= a2 <= 0x4000_0000,
        -0x4000_0000 <= b2 <= 0x4000_0000,
        -0x4000_0000 <= a3 <= 0x4000_0000,
        -0x4000_0000 <= b3 <= 0x4000_0000,
    ensures
        dot3(a1, b1, a2, b2, a3, b3) == a1 * b1 + a2 * b2 + a3 * b3,
{
    lemma_product_bound(a1 as int, b1 as int);
    lemma_product_bound(a2 as int, b2 as int);
    lemma_product_bound(a3 as int, b3 as int);
}

proof fn lemma_product_bound(a: int, b: int)
    requires
        -0x4000_0000 <= a <= 0x4000_0000,
        -0x4000_0000 <= b <= 0x4000_0000,
    ensures
        -0x1000_0000_0000_0000 <= a * b <= 0x1000_0000_0000_0000,
{
    assert(-0x1000_0000_0000_0000 <= a * b <= 0x1000_0000_0000_0000) by (nonlinear_arith)
        requires
            -0x4000_0000 <= a <= 0x4000_0000,
            -0x4000_0000 <= b <= 0x4000_0000,
    ;
}

/// The product of two matrices of modest entries is exact.
pub proof fn lemma_modest_exact(a: Matrix3<i64>, b: Matrix3<i64>)
    requires
        modest(a),
        modest(b),
    ensures
        exact(a, b),
{
    lemma_dot_exact(a.m11, b.m11, a.m12, b.m21, a.m13, b.m31);
    lemma_dot_exact(a.m11, b.m12, a.m12, b.m22, a.m13, b.m32);
    lemma_dot_exact(a.m11, b.m13, a.m12, b.m23, a.m13, b.m33);
    lemma_dot_exact(a.m21, b.m11, a.m22, b.m21, a.m23, b.m31);
    lemma_dot_exact(a.m21, b.m12, a.m22, b.m22, a.m23, b.m32);
    lemma_dot_exact(a.m21, b.m13, a.m22, b.m23, a.m23, b.m33);
    lemma_dot_exact(a.m31, b.m11, a.m32, b.m21, a.m33, b.m31);
    lemma_dot_exact(a.m31, b.m12, a.m32, b.m22, a.m33, b.m32);
    lemma_dot_exact(a.m31, b.m13, a.m32, b.m23, a.m33, b.m33);
}

/// A row times a matrix times a column gives the same number whichever
/// product is taken first.
proof fn lemma_entry_associative(
    a1: int,
    a2: int,
    a3: int,
    b: Matrix3<int>,
    c1: int,
    c2: int,
    c3: int,
)
    ensures
        (a1 * b.m11 + a2 * b.m21 + a3 * b.m31) * c1 + (a1 * b.m12 + a2 * b.m22 + a3 * b.m32) * c2
            + (a1 * b.m13 + a2 * b.m23 + a3 * b.m33) * c3 == a1 * (b.m11 * c1 + b.m12 * c2 + b.m13
            * c3) + a2 * (b.m21 * c1 + b.m22 * c2 + b.m23 * c3) + a3 * (b.m31 * c1 + b.m32 * c2
            + b.m33 * c3),
{
    lemma_scale_sum(a1 * b.m11, a2 * b.m21, a3 * b.m31, c1);
    lemma_scale_sum(a1 * b.m12, a2 * b.m22, a3 * b.m32, c2);
    lemma_scale_sum(a1 * b.m13, a2 * b.m23, a3 * b.m33, c3);
    lemma_sum_scale(a1, b.m11 * c1, b.m12 * c2, b.m13 * c3);
    lemma_sum_scale(a2, b.m21 * c1, b.m22 * c2, b.m23 * c3);
    lemma_sum_scale(a3, b.m31 * c1, b.m32 * c2, b.m33 * c3);
    lemma_regroup(a1, b.m11, c1);
    lemma_regroup(a2, b.m21, c1);
    lemma_regroup(a3, b.m31, c1);
    lemma_regroup(a1, b.m12, c2);
    lemma_regroup(a2, b.m22, c2);
    lemma_regroup(a3, b.m32, c2);
    lemma_regroup(a1, b.m13, c3);
    lemma_regroup(a2, b.m23, c3);
    lemma_regroup(a3, b.m33, c3);
}

proof fn lemma_scale_sum(x: int, y: int, z: int, c: int)
    ensures
        (x + y + z) * c == x * c + y * c + z * c,
{
    assert((x + y + z) * c == x * c + y * c + z * c) by (nonlinear_arith);
}

proof fn lemma_sum_scale(a: int, x: int, y: int, z: int)
    ensures
        a * (x + y + z) == a * x + a * y + a * z,
{
    assert(a * (x + y + z) == a * x + a * y + a * z) by (nonlinear_arith);
}

proof fn lemma_regroup(a: int, b: int, c: int)
    ensures
        (a * b) * c == a * (b * c),
{
    assert((a * b) * c == a * (b * c)) by (nonlinear_arith);
}

/// The product of matrices of unbounded whole numbers is associative.
pub proof fn lemma_product_associative(a: Matrix3<int>, b: Matrix3<int>, c: Matrix3<int>)
    ensures
        product(product(a, b), c) == product(a, product(b, c)),
{
    lemma_entry_associative(a.m11, a.m12, a.m13, b, c.m11, c.m21, c.m31);
    lemma_entry_associative(a.m11, a.m12, a.m13, b, c.m12, c.m22, c.m32);
    lemma_entry_associative(a.m11, a.m12, a.m13, b, c.m13, c.m23, c.m33);
    lemma_entry_associative(a.m21, a.m22, a.m23, b, c.m11, c.m21, c.m31);
    lemma_entry_associative(a.m21, a.m22, a.m23, b, c.m12, c.m22, c.m32);
    lemma_entry_associative(a.m21, a.m22, a.m23, b, c.m13, c.m23, c.m33);
    lemma_entry_associative(a.m31, a.m32, a.m33, b, c.m11, c.m21, c.m31);
    lemma_entry_associative(a.m31, a.m32, a.m33, b, c.m12, c.m22, c.m32);
    lemma_entry_associative(a.m31, a.m32, a.m33, b, c.m13, c.m23, c.m33);
}

/// Composition of transformations is associative wherever the four products
/// involved are exact.
pub proof fn lemma_times_associative(a: Matrix3<i64>, b: Matrix3<i64>, c: Matrix3<i64>)
    requires
        exact(a, b),
        exact(a.times_spec(b), c),
        exact(b, c),
        exact(a, b.times_spec(c)),
    ensures
        a.times_spec(b).times_spec(c) == a.times_spec(b.times_spec(c)),
{
    lemma_product_associative(ints(a), ints(b), ints(c));
    let left = a.times_spec(b).times_spec(c);
    let right = a.times_spec(b.times_spec(c));
    assert(ints(left) == ints(right));
}

} // verus!
