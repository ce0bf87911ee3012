//! Formulas on polygons, and checks on lists of names.
use vstd::prelude::*;
use crate::scalar::Scalar;

verus! {

/// The place that follows `i` on a ring of `n` places.
pub open spec fn next_index(i: int, n: int) -> int {
    if i + 1 == n {
        0
    } else {
        i + 1
    }
}

/// What the edge from corner `i` to the next corner adds to twice the area:
/// `x[i] * y[i + 1] - x[i + 1] * y[i]`, the corner after the last being the
/// first.
pub open spec fn edge_term<T: Scalar>(points: Seq<(T, T)>, i: int) -> T {
    let this = points[i];
    let next = points[next_index(i, points.len() as int)];
    this.0.times_spec(next.1).minus_spec(next.0.times_spec(this.1))
}

/// The sum of what the first `n` edges add to twice the area, added up from
/// zero in their order.
pub open spec fn double_area<T: Scalar>(points: Seq<(T, T)>, n: nat) -> T
    decreases n,
{
    if n == 0 {
        T::zero_spec()
    } else {
        double_area(points, (n - 1) as nat).plus_spec(edge_term(points, n - 1))
    }
}

/// The signed area of a polygon by the shoelace formula: half the sum over
/// all edges.
pub open spec fn shoelace_area_spec<T: Scalar>(points: Seq<(T, T)>) -> T {
    double_area(points, points.len()).over_spec(T::from_u32_spec(2))
}

/// The sum over the first `n` edges of `(x[i] + x[i + 1])` times what the
/// edge adds to twice the area.
pub open spec fn moment_x<T: Scalar>(points: Seq<(T, T)>, n: nat) -> T
    decreases n,
{
    if n == 0 {
        T::zero_spec()
    } else {
        let this = points[n - 1];
        let next = points[next_index(n - 1, points.len() as int)];
        moment_x(points, (n - 1) as nat).plus_spec(
            this.0.plus_spec(next.0).times_spec(edge_term(points, n - 1)),
        )
    }
}

/// The sum over the first `n` edges of `(y[i] + y[i + 1])` times what the
/// edge adds to twice the area.
pub open spec fn moment_y<T: Scalar>(points: Seq<(T, T)>, n: nat) -> T
    decreases n,
{
    if n == 0 {
        T::zero_spec()
    } else {
        let this = points[n - 1];
        let next = points[next_index(n - 1, points.len() as int)];
        moment_y(points, (n - 1) as nat).plus_spec(
            this.1.plus_spec(next.1).times_spec(edge_term(points, n - 1)),
        )
    }
}

/// Whether a number is neither less nor greater than zero.
pub open spec fn is_zero<T: Scalar>(value: T) -> bool {
    !value.less_than_spec(T::zero_spec()) && !T::zero_spec().less_than_spec(value)
}

/// The centroid of a polygon: the two sums of moments, each divided by six
/// times the signed area. A polygon without area has none.
pub open spec fn centroid_spec<T: Scalar>(points: Seq<(T, T)>) -> Option<(T, T)> {
    let area = shoelace_area_spec(points);
    if is_zero(area) {
        None
    } else {
        let divisor = T::from_u32_spec(6).times_spec(area);
        Some(
            (
                moment_x(points, points.len()).over_spec(divisor),
                moment_y(points, points.len()).over_spec(divisor),
            ),
        )
    }
}

/// Sums what the edges of a polygon add to twice its area.
fn sum_edges<T: Scalar>(points: &Vec<(T, T)>) -> (r: (T, T, T))
    ensures
        r.0 == double_area(points@, points@.len()),
        r.1 == moment_x(points@, points@.len()),
        r.2 == moment_y(points@, points@.len()),
{
    let n = points.len();
    let mut double = T::zero();
    let mut center_x = T::zero();
    let mut center_y = T::zero();
    let mut i: usize = 0;
    while i < n
        invariant
            n == points@.len(),
            i <= n,
            double == double_area(points@, i as nat),
            center_x == moment_x(points@, i as nat),
            center_y == moment_y(points@, i as nat),
        decreases n - i,
    {
        let (this_x, this_y) = points[i];
        let (next_x, next_y) = if i + 1 == n {
            points[0]
        } else {
            points[i + 1]
        };
        let diff = this_x.times(next_y).minus(next_x.times(this_y));
        double = double.plus(diff);
        center_x = center_x.plus(this_x.plus(next_x).times(diff));
        center_y = center_y.plus(this_y.plus(next_y).times(diff));
        i += 1;
    }
    (double, center_x, center_y)
}

/// The signed area of the polygon whose corners are `points`, in their
/// order, the last being joined to the first.
pub fn shoelace_area<T: Scalar>(points: &Vec<(T, T)>) -> (r: T)
    ensures
        r == shoelace_area_spec(points@),
{
    sum_edges(points).0.over(T::from_u32(2))
}

/// A polygon has no area, and so no centroid.
#[derive(Debug, PartialEq, Eq)]
pub struct DegeneratePolygon;

/// The centroid of the polygon whose corners are `points`.
pub fn centroid<T: Scalar>(points: &Vec<(T, T)>) -> (r: Result<(T, T), DegeneratePolygon>)
    ensures
        match r {
            Ok(center) => centroid_spec(points@) == Some(center),
            Err(_) => centroid_spec(points@) is None,
        },
{
    let (double, center_x, center_y) = sum_edges(points);
    let area = double.over(T::from_u32(2));
    if area.less_than(T::zero()) || T::zero().less_than(area) {
        let divisor = T::from_u32(6).times(area);
        Ok((center_x.over(divisor), center_y.over(divisor)))
    } else {
        Err(DegeneratePolygon)
    }
}

/// The greatest of `values`, the later one where two are equal; `None` of
/// none.
pub open spec fn max_of<T: Scalar>(values: Seq<T>) -> Option<T>
    decreases values.len(),
{
    if values.len() == 0 {
        None
    } else {
        match max_of(values.drop_last()) {
            None => Some(values.last()),
            Some(before) => Some(
                if values.last().less_than_spec(before) {
                    before
                } else {
                    values.last()
                },
            ),
        }
    }
}

/// Finds the greatest of `values`.
pub fn max_f64<T: Scalar>(values: &Vec<T>) -> (r: Option<T>)
    ensures
        r == max_of(values@),
{
    if values.len() == 0 {
        return None;
    }
    let mut greatest = values[0];
    let mut i: usize = 1;
    assert(values@.take(1).drop_last() == Seq::<T>::empty());
    assert(max_of(Seq::<T>::empty()) == None::<T>);
    while i < values.len()
        invariant
            1 <= i <= values.len(),
            Some(greatest) == max_of(values@.take(i as int)),
        decreases values.len() - i,
    {
        assert(values@.take(i + 1).drop_last() == values@.take(i as int));
        if !values[i].less_than(greatest) {
            greatest = values[i];
        }
        i += 1;
    }
    assert(values@.take(i as int) == values@);
    Some(greatest)
}

/// The texts of a list of strings.
pub open spec fn texts(items: Seq<String>) -> Seq<Seq<char>> {
    Seq::new(items.len(), |i: int| items[i]@)
}

/// The first of `items` that repeats an earlier one, if any does.
pub open spec fn first_repeat(items: Seq<Seq<char>>) -> Option<Seq<char>>
    decreases items.len(),
{
    if items.len() == 0 {
        None
    } else {
        match first_repeat(items.drop_last()) {
            Some(repeat) => Some(repeat),
            None => if items.drop_last().contains(items.last()) {
                Some(items.last())
            } else {
                None
            },
        }
    }
}

/// The first of `items` that is not among `defined`, if any is not.
pub open spec fn first_undefined(items: Seq<Seq<char>>, defined: Seq<Seq<char>>) -> Option<
    Seq<char>,
>
    decreases items.len(),
{
    if items.len() == 0 {
        None
    } else {
        match first_undefined(items.drop_last(), defined) {
            Some(missing) => Some(missing),
            None => if defined.contains(items.last()) {
                None
            } else {
                Some(items.last())
            },
        }
    }
}

/// Tests whether `text` is among the first `n` of `items`.
pub fn contains(items: &Vec<String>, n: usize, text: &str) -> (r: bool)
    requires
        n <= items.len(),
    ensures
        r == texts(items@).take(n as int).contains(text@),
{
    let mut i: usize = 0;
    while i < n
        invariant
            i <= n <= items.len(),
            !texts(items@).take(i as int).contains(text@),
        decreases n - i,
    {
        if crate::text::same_text(items[i].as_str(), text) {
            assert(texts(items@).take(n as int)[i as int] == text@);
            return true;
        }
        let ghost now = texts(items@).take(i + 1);
        assert forall|k: int| 0 <= k < now.len() implies #[trigger] now[k] != text@ by {
            if k < i {
                assert(texts(items@).take(i as int)[k] == now[k]);
            }
        }
        i += 1;
    }
    false
}

/// Determines if all `items` are unique.
///
/// If they are, the items come back as the set they form. If one is
/// repeated, the first item that repeats an earlier one comes back.
pub fn unique(items: &Vec<String>) -> (r: Result<Vec<String>, String>)
    ensures
        match r {
            Ok(set) => first_repeat(texts(items@)) is None && texts(set@) == texts(items@),
            Err(repeat) => first_repeat(texts(items@)) == Some(repeat@),
        },
{
    let mut set: Vec<String> = Vec::new();
    let mut j: usize = 0;
    while j < items.len()
        invariant
            j <= items.len(),
            first_repeat(texts(items@).take(j as int)) is None,
            texts(set@) == texts(items@).take(j as int),
        decreases items.len() - j,
    {
        assert(texts(items@).take(j + 1).drop_last() == texts(items@).take(j as int));
        if contains(items, j, items[j].as_str()) {
            proof {
                lemma_first_repeat_stays(texts(items@), j + 1);
            }
            return Err(items[j].clone());
        }
        let ghost before = set@;
        set.push(items[j].clone());
        assert(texts(set@) == texts(before).push(items[j as int]@));
        assert(texts(set@) == texts(items@).take(j + 1));
        j += 1;
    }
    assert(texts(items@).take(j as int) == texts(items@));
    Ok(set)
}

/// A repeat among the first `n` items is the first repeat of them all.
proof fn lemma_first_repeat_stays(items: Seq<Seq<char>>, n: int)
    requires
        0 <= n <= items.len(),
        first_repeat(items.take(n)) is Some,
    ensures
        first_repeat(items) == first_repeat(items.take(n)),
    decreases items.len() - n,
{
    if n < items.len() {
        assert(items.take(n + 1).drop_last() == items.take(n));
        lemma_first_repeat_stays(items, n + 1);
    } else {
        assert(items.take(n) == items);
    }
}

/// An item among the first `n` that is not defined is the first such of
/// them all.
proof fn lemma_first_undefined_stays(items: Seq<Seq<char>>, defined: Seq<Seq<char>>, n: int)
    requires
        0 <= n <= items.len(),
        first_undefined(items.take(n), defined) is Some,
    ensures
        first_undefined(items, defined) == first_undefined(items.take(n), defined),
    decreases items.len() - n,
{
    if n < items.len() {
        assert(items.take(n + 1).drop_last() == items.take(n));
        lemma_first_undefined_stays(items, defined, n + 1);
    } else {
        assert(items.take(n) == items);
    }
}

/// Determines if all `items` are present in `defined`.
///
/// If one is not, the first item that is not comes back.
pub fn undefined(items: &Vec<String>, defined: &Vec<String>) -> (r: Result<(), String>)
    ensures
        match r {
            Ok(_) => first_undefined(texts(items@), texts(defined@)) is None,
            Err(missing) => first_undefined(texts(items@), texts(defined@)) == Some(missing@),
        },
{
    let mut i: usize = 0;
    while i < items.len()
        invariant
            i <= items.len(),
            first_undefined(texts(items@).take(i as int), texts(defined@)) is None,
        decreases items.len() - i,
    {
        assert(texts(items@).take(i + 1).drop_last() == texts(items@).take(i as int));
        assert(texts(defined@).take(defined.len() as int) == texts(defined@));
        if !contains(defined, defined.len(), items[i].as_str()) {
            proof {
                lemma_first_undefined_stays(texts(items@), texts(defined@), i + 1);
            }
            return Err(items[i].clone());
        }
        i += 1;
    }
    assert(texts(items@).take(i as int) == texts(items@));
    Ok(())
}

/// No item repeats an earlier one exactly where no two items are the same.
pub proof fn lemma_first_repeat_none(items: Seq<Seq<char>>)
    ensures
        first_repeat(items) is None <==> items.no_duplicates(),
    decreases items.len(),
{
    if items.len() > 0 {
        let before = items.drop_last();
        lemma_first_repeat_none(before);
        if first_repeat(items) is None {
            assert forall|i: int, j: int| 0 <= i < items.len() && 0 <= j < items.len() && i != j
                implies items[i] != items[j] by {
                if i < before.len() && j < before.len() {
                    assert(before[i] != before[j]);
                } else if i < before.len() {
                    assert(before[i] == items[i]);
                } else {
                    assert(before[j] == items[j]);
                }
            }
        }
        if items.no_duplicates() {
            assert forall|i: int, j: int| 0 <= i < before.len() && 0 <= j < before.len() && i != j
                implies before[i] != before[j] by {
                assert(items[i] != items[j]);
            }
            if before.contains(items.last()) {
                let k = choose|k: int| 0 <= k < before.len() && before[k] == items.last();
                assert(items[k] == items[items.len() - 1]);
            }
        }
    }
}

} // verus!
