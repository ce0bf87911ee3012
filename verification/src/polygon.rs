//! Laws of the shoelace formula, proved of polygons whose corners have whole
//! coordinates.
use vstd::prelude::*;
use crate::util::{double_area, edge_term, next_index};
use crate::whole::{small, SMALL};

verus! {

/// A point with unbounded whole coordinates.
pub type Point = (int, int);

/// The cross product of two vectors: twice the signed area of the triangle
/// that they span with the origin.
pub open spec fn cross(a: Point, b: Point) -> int {
    a.0 * b.1 - b.0 * a.1
}

/// The vector from `a` to `b`.
pub open spec fn from_to(a: Point, b: Point) -> Point {
    (b.0 - a.0, b.1 - a.1)
}

/// What the edge from corner `i` to the next corner adds to twice the area.
pub open spec fn edge(p: Seq<Point>, i: int) -> int {
    cross(p[i], p[next_index(i, p.len() as int)])
}

/// The sum of `f(0)` up to `f(n - 1)`.
pub open spec fn sum(f: spec_fn(int) -> int, n: nat) -> int
    decreases n,
{
    if n == 0 {
        0
    } else {
        sum(f, (n - 1) as nat) + f(n - 1)
    }
}

/// Twice the signed area of a polygon: the sum over its edges.
pub open spec fn twice_area(p: Seq<Point>) -> int {
    sum(|i: int| edge(p, i), p.len())
}

/// The polygon with its corners listed from corner `k` on.
pub open spec fn rotated(p: Seq<Point>, k: int) -> Seq<Point> {
    p.skip(k) + p.take(k)
}

/// The polygon with its corners listed backwards.
pub open spec fn reversed(p: Seq<Point>) -> Seq<Point> {
    Seq::new(p.len(), |i: int| p[p.len() - 1 - i])
}

/// On which side of the edge that leaves corner `i` corner `k` lies:
/// positive on the left, negative on the right, zero on the line.
pub open spec fn turn(p: Seq<Point>, i: int, k: int) -> int {
    cross(from_to(p[i], p[next_index(i, p.len() as int)]), from_to(p[i], p[k]))
}

/// Whether a polygon is convex and listed counter-clockwise: no corner lies
/// to the right of an edge, and some corner lies to the left of one.
pub open spec fn convex_counter_clockwise(p: Seq<Point>) -> bool {
    &&& p.len() >= 3
    &&& forall|i: int, k: int| 0 <= i < p.len() && 0 <= k < p.len() ==> #[trigger] turn(p, i, k) >= 0
    &&& exists|i: int, k: int| 0 <= i < p.len() && 0 <= k < p.len() && #[trigger] turn(p, i, k) > 0
}

/// Whether a polygon is convex and listed clockwise: no corner lies to the
/// left of an edge, and some corner lies to the right of one.
pub open spec fn convex_clockwise(p: Seq<Point>) -> bool {
    &&& p.len() >= 3
    &&& forall|i: int, k: int| 0 <= i < p.len() && 0 <= k < p.len() ==> #[trigger] turn(p, i, k) <= 0
    &&& exists|i: int, k: int| 0 <= i < p.len() && 0 <= k < p.len() && #[trigger] turn(p, i, k) < 0
}

/// The cross product changes its sign where the two vectors change places.
proof fn lemma_cross_swapped(a: Point, b: Point)
    ensures
        cross(a, b) == -cross(b, a),
{
    let (ax, ay, bx, by) = (a.0, a.1, b.0, b.1);
    assert(ax * by - bx * ay == -(bx * ay - ax * by)) by (nonlinear_arith);
}

/// The triangle from `a` to `b` and on to `q` is the three triangles that
/// the sides of it span with the origin.
proof fn lemma_cross_about(a: Point, b: Point, q: Point)
    ensures
        cross(from_to(a, b), from_to(a, q)) == cross(a, b) + cross(q, a) - cross(q, b),
{
    let (ax, ay, bx, by, qx, qy) = (a.0, a.1, b.0, b.1, q.0, q.1);
    assert((bx - ax) * (qy - ay) - (qx - ax) * (by - ay) == (ax * by - bx * ay) + (qx * ay - ax
        * qy) - (qx * by - bx * qy)) by (nonlinear_arith);
}

/// Sums of equal terms are equal.
proof fn lemma_sum_equal(f: spec_fn(int) -> int, g: spec_fn(int) -> int, n: nat)
    requires
        forall|i: int| 0 <= i < n ==> #[trigger] f(i) == g(i),
    ensures
        sum(f, n) == sum(g, n),
    decreases n,
{
    if n > 0 {
        lemma_sum_equal(f, g, (n - 1) as nat);
    }
}

/// A sum is its first term and the sum of the terms behind it.
proof fn lemma_sum_first(f: spec_fn(int) -> int, n: nat)
    requires
        n >= 1,
    ensures
        sum(f, n) == f(0) + sum(|i: int| f(i + 1), (n - 1) as nat),
    decreases n,
{
    let behind = |i: int| f(i + 1);
    if n == 1 {
        assert(sum(f, 0) == 0);
        assert(sum(behind, 0) == 0);
    } else {
        lemma_sum_first(f, (n - 1) as nat);
        assert(behind(n - 2) == f(n - 1));
    }
}

/// A sum around a ring does not depend on where it begins.
proof fn lemma_sum_cycle(f: spec_fn(int) -> int, n: nat)
    requires
        n >= 1,
    ensures
        sum(|i: int| f(next_index(i, n as int)), n) == sum(f, n),
{
    let around = |i: int| f(next_index(i, n as int));
    let behind = |i: int| f(i + 1);
    lemma_sum_equal(around, behind, (n - 1) as nat);
    lemma_sum_first(f, n);
    assert(around(n - 1) == f(0));
}

/// A sum does not depend on the direction in which it is taken.
proof fn lemma_sum_reverse(f: spec_fn(int) -> int, n: nat)
    ensures
        sum(|i: int| f(n - 1 - i), n) == sum(f, n),
    decreases n,
{
    let back = |i: int| f(n - 1 - i);
    if n > 0 {
        lemma_sum_first(back, n);
        let behind = |i: int| back(i + 1);
        let shorter = |i: int| f((n - 1) as nat - 1 - i);
        lemma_sum_reverse(f, (n - 1) as nat);
        lemma_sum_equal(behind, shorter, (n - 1) as nat);
        assert(back(0) == f(n - 1));
    }
}

/// The sum of sums is the sum of the terms added.
proof fn lemma_sum_add(f: spec_fn(int) -> int, g: spec_fn(int) -> int, n: nat)
    ensures
        sum(|i: int| f(i) + g(i), n) == sum(f, n) + sum(g, n),
    decreases n,
{
    if n > 0 {
        lemma_sum_add(f, g, (n - 1) as nat);
    }
}

/// The sum of the opposite terms is the opposite of the sum.
proof fn lemma_sum_negate(f: spec_fn(int) -> int, n: nat)
    ensures
        sum(|i: int| -f(i), n) == -sum(f, n),
    decreases n,
{
    if n > 0 {
        lemma_sum_negate(f, (n - 1) as nat);
    }
}

/// A sum of terms that are not negative is no less than any of them.
proof fn lemma_sum_at_least(f: spec_fn(int) -> int, n: nat, at: int)
    requires
        forall|i: int| 0 <= i < n ==> #[trigger] f(i) >= 0,
        0 <= at < n,
    ensures
        sum(f, n) >= f(at),
        sum(f, n) >= 0,
    decreases n,
{
    if n > 1 {
        if at < n - 1 {
            lemma_sum_at_least(f, (n - 1) as nat, at);
        } else {
            lemma_sum_at_least(f, (n - 1) as nat, 0);
        }
    } else {
        assert(sum(f, 0) == 0);
    }
}

/// Listing a polygon from its second corner on does not change its area.
proof fn lemma_rotated_once(p: Seq<Point>)
    requires
        p.len() >= 1,
    ensures
        twice_area(rotated(p, 1)) == twice_area(p),
{
    let n = p.len();
    let q = rotated(p, 1);
    let f = |i: int| edge(p, i);
    let around = |i: int| f(next_index(i, n as int));
    let g = |i: int| edge(q, i);
    assert forall|i: int| 0 <= i < n implies #[trigger] g(i) == around(i) by {
        assert(q[i] == p[next_index(i, n as int)]);
        let j = next_index(i, n as int);
        assert(q[j] == p[next_index(j, n as int)]);
    }
    lemma_sum_equal(g, around, n);
    lemma_sum_cycle(f, n);
}

/// The area of a polygon does not depend on the corner at which the list of
/// its corners begins.
pub proof fn lemma_area_rotation(p: Seq<Point>, k: int)
    requires
        0 <= k <= p.len(),
    ensures
        twice_area(rotated(p, k)) == twice_area(p),
    decreases k,
{
    if k == 0 {
        assert(rotated(p, 0) == p);
    } else {
        lemma_area_rotation(p, k - 1);
        let before = rotated(p, k - 1);
        assert(rotated(before, 1) == rotated(p, k));
        lemma_rotated_once(before);
    }
}

/// Listing the corners of a polygon backwards turns the sign of its area
/// and leaves its size.
pub proof fn lemma_area_reversal(p: Seq<Point>)
    ensures
        twice_area(reversed(p)) == -twice_area(p),
{
    let n = p.len();
    if n > 0 {
        let r = reversed(p);
        let f = |i: int| edge(p, i);
        let g = |i: int| edge(r, i);
        // Edge `i` of the reversed polygon is edge `via(i)` of the polygon, walked backwards.
        let via = |i: int| if i < n - 1 { n - 2 - i } else { n - 1 };
        let opposite = |i: int| -f(via(i));
        let forwards = |i: int| f(via(i));
        assert forall|i: int| 0 <= i < n implies #[trigger] g(i) == opposite(i) by {
            let j = next_index(i, n as int);
            assert(r[i] == p[n - 1 - i]);
            assert(r[j] == p[n - 1 - j]);
            let e = via(i);
            assert(p[e] == r[j]);
            assert(p[next_index(e, n as int)] == r[i]);
            lemma_cross_swapped(r[i], r[j]);
        }
        lemma_sum_equal(g, opposite, n);
        lemma_sum_negate(forwards, n);
        let negated = |i: int| -forwards(i);
        lemma_sum_equal(opposite, negated, n);
        // The edges walked are all edges: the first `n - 1` backwards, then the last.
        let back = |i: int| f((n - 1) as nat - 1 - i);
        lemma_sum_equal(forwards, back, (n - 1) as nat);
        lemma_sum_reverse(f, (n - 1) as nat);
        assert(forwards(n - 1) == f(n - 1));
    }
}

/// The area of a polygon is the sum of the triangles that its edges span
/// with any one of its corners.
proof fn lemma_fan(p: Seq<Point>, k: int)
    requires
        p.len() >= 1,
        0 <= k < p.len(),
    ensures
        twice_area(p) == sum(|i: int| turn(p, i, k), p.len()),
{
    let n = p.len();
    let q = p[k];
    let f = |i: int| edge(p, i);
    let spoke = |i: int| cross(q, p[i]);
    let next_spoke = |i: int| spoke(next_index(i, n as int));
    let less = |i: int| -next_spoke(i);
    let change = |i: int| spoke(i) + less(i);
    let whole = |i: int| f(i) + change(i);
    let fan = |i: int| turn(p, i, k);
    assert forall|i: int| 0 <= i < n implies #[trigger] fan(i) == whole(i) by {
        let a = p[i];
        let b = p[next_index(i, n as int)];
        lemma_cross_about(a, b, q);
    }
    lemma_sum_equal(fan, whole, n);
    lemma_sum_add(f, change, n);
    lemma_sum_add(spoke, less, n);
    lemma_sum_negate(next_spoke, n);
    lemma_sum_cycle(spoke, n);
}

/// A convex polygon listed counter-clockwise has a positive area.
pub proof fn lemma_counter_clockwise_positive(p: Seq<Point>)
    requires
        convex_counter_clockwise(p),
    ensures
        twice_area(p) > 0,
{
    let (i, k) = choose|i: int, k: int|
        0 <= i < p.len() && 0 <= k < p.len() && #[trigger] turn(p, i, k) > 0;
    lemma_fan(p, k);
    let fan = |j: int| turn(p, j, k);
    assert forall|j: int| 0 <= j < p.len() implies #[trigger] fan(j) >= 0 by {
        assert(turn(p, j, k) >= 0);
    }
    lemma_sum_at_least(fan, p.len(), i);
}

/// A convex polygon listed clockwise has a negative area.
pub proof fn lemma_clockwise_negative(p: Seq<Point>)
    requires
        convex_clockwise(p),
    ensures
        twice_area(p) < 0,
{
    let (i, k) = choose|i: int, k: int|
        0 <= i < p.len() && 0 <= k < p.len() && #[trigger] turn(p, i, k) < 0;
    lemma_fan(p, k);
    let fan = |j: int| turn(p, j, k);
    let opposite = |j: int| -fan(j);
    assert forall|j: int| 0 <= j < p.len() implies #[trigger] opposite(j) >= 0 by {
        assert(turn(p, j, k) <= 0);
    }
    lemma_sum_at_least(opposite, p.len(), i);
    lemma_sum_negate(fan, p.len());
}

/// The corners of a polygon of whole numbers as points with unbounded
/// coordinates.
pub open spec fn corners(points: Seq<(i64, i64)>) -> Seq<Point> {
    Seq::new(points.len(), |i: int| (points[i].0 as int, points[i].1 as int))
}

/// Whether a polygon has at most about a million corners, each with small
/// coordinates. The sum over the edges of such a polygon is exact.
pub open spec fn small_polygon(points: Seq<(i64, i64)>) -> bool {
    &&& points.len() <= SMALL
    &&& forall|i: int| 0 <= i < points.len() ==> small((#[trigger] points[i]).0) && small(points[i].1)
}

/// The sum over the first `n` edges of a small polygon is exact.
proof fn lemma_double_area_upto(points: Seq<(i64, i64)>, n: nat)
    requires
        small_polygon(points),
        n <= points.len(),
    ensures
        double_area(points, n) == sum(|i: int| edge(corners(points), i), n),
        -n * 0x200_0000_0000 <= double_area(points, n) <= n * 0x200_0000_0000,
    decreases n,
{
    if n > 0 {
        lemma_double_area_upto(points, (n - 1) as nat);
        let this = points[n - 1];
        let next = points[next_index(n - 1, points.len() as int)];
        lemma_small_product(this.0 as int, next.1 as int);
        lemma_small_product(next.0 as int, this.1 as int);
        assert(edge_term(points, n - 1) == edge(corners(points), n - 1));
        assert((n - 1) * 0x200_0000_0000 + 0x200_0000_0000 == n * 0x200_0000_0000)
            by (nonlinear_arith);
        assert(n * 0x200_0000_0000 <= 0x10_0000 * 0x200_0000_0000) by (nonlinear_arith)
            requires
                n <= 0x10_0000,
        ;
    }
}

proof fn lemma_small_product(a: int, b: int)
    requires
        -0x10_0000 <= a <= 0x10_0000,
        -0x10_0000 <= b <= 0x10_0000,
    ensures
        -0x100_0000_0000 <= a * b <= 0x100_0000_0000,
{
    assert(-0x100_0000_0000 <= a * b <= 0x100_0000_0000) by (nonlinear_arith)
        requires
            -0x10_0000 <= a <= 0x10_0000,
            -0x10_0000 <= b <= 0x10_0000,
    ;
}

/// Of a small polygon of whole numbers, the sum over the edges that the
/// shoelace formula halves is twice the area.
pub proof fn lemma_double_area_exact(points: Seq<(i64, i64)>)
    requires
        small_polygon(points),
    ensures
        double_area(points, points.len()) == twice_area(corners(points)),
{
    lemma_double_area_upto(points, points.len());
}

/// Of a small convex polygon of whole numbers, the sum over the edges is
/// positive where the corners are listed counter-clockwise and negative
/// where they are listed clockwise.
pub proof fn lemma_double_area_sign(points: Seq<(i64, i64)>)
    requires
        small_polygon(points),
    ensures
        convex_counter_clockwise(corners(points)) ==> double_area(points, points.len()) > 0,
        convex_clockwise(corners(points)) ==> double_area(points, points.len()) < 0,
{
    lemma_double_area_exact(points);
    if convex_counter_clockwise(corners(points)) {
        lemma_counter_clockwise_positive(corners(points));
    }
    if convex_clockwise(corners(points)) {
        lemma_clockwise_negative(corners(points));
    }
}

/// Of a small polygon of whole numbers, the sum over the edges does not
/// depend on the corner at which the list of corners begins.
pub proof fn lemma_double_area_rotation(points: Seq<(i64, i64)>, k: int)
    requires
        small_polygon(points),
        0 <= k <= points.len(),
    ensures
        double_area(points.skip(k) + points.take(k), points.len()) == double_area(
            points,
            points.len(),
        ),
{
    let turned = points.skip(k) + points.take(k);
    assert(small_polygon(turned)) by {
        assert forall|i: int| 0 <= i < turned.len() implies small((#[trigger] turned[i]).0) && small(
            turned[i].1,
        ) by {
            if i < points.len() - k {
                assert(turned[i] == points[i + k]);
            } else {
                assert(turned[i] == points[i - (points.len() - k)]);
            }
        }
    }
    lemma_double_area_exact(points);
    lemma_double_area_exact(turned);
    assert(corners(turned) == rotated(corners(points), k));
    lemma_area_rotation(corners(points), k);
}

/// Of a small polygon of whole numbers, the sum over the edges turns its
/// sign where the corners are listed backwards.
pub proof fn lemma_double_area_reversal(points: Seq<(i64, i64)>)
    requires
        small_polygon(points),
    ensures
        double_area(points.reverse(), points.len()) == -double_area(points, points.len()),
{
    let back = points.reverse();
    assert(small_polygon(back)) by {
        assert forall|i: int| 0 <= i < back.len() implies small((#[trigger] back[i]).0) && small(
            back[i].1,
        ) by {
            assert(back[i] == points[points.len() - 1 - i]);
        }
    }
    lemma_double_area_exact(points);
    lemma_double_area_exact(back);
    assert(corners(back) == reversed(corners(points)));
    lemma_area_reversal(corners(points));
}

} // verus!
