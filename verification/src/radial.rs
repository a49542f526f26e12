//! Building a tour from the outside in: a circle round the origin shrinks step by
//! step, and every point it no longer holds joins the tour beside the tour point
//! nearest to it.

use vstd::prelude::*;
use vstd::multiset::Multiset;
use vstd::seq_lib::*;
use crate::point::{distance, sq_distance, Point};
use crate::tour::copy_path;

verus! {

/// The point is at least `r` away from the origin.
pub open spec fn reaches(p: Point, r: nat) -> bool {
    distance(p, Point::origin()) >= r
}

/// The test that picks the points a circle of radius `r` still holds.
pub open spec fn inside(r: nat) -> spec_fn(Point) -> bool {
    |p: Point| !reaches(p, r)
}

/// Position `k` holds the tour point nearest to `p`, and no earlier position
/// holds one as near. Nearness goes by the exact squared distance.
pub open spec fn is_first_nearest(tour: Seq<Point>, p: Point, k: int) -> bool {
    &&& 0 <= k < tour.len()
    &&& forall|m: int|
        0 <= m < tour.len() ==> sq_distance(tour[k], p) <= sq_distance(#[trigger] tour[m], p)
    &&& forall|m: int| 0 <= m < k ==> sq_distance(tour[k], p) < sq_distance(#[trigger] tour[m], p)
}

/// The first position of the tour that holds a point nearest to `p`.
pub open spec fn first_nearest(tour: Seq<Point>, p: Point) -> int {
    choose|k: int| is_first_nearest(tour, p, k)
}

/// The tour once `p` has joined it: directly after its first nearest point, or
/// alone where the tour was empty.
pub open spec fn insert_near(tour: Seq<Point>, p: Point) -> Seq<Point> {
    if tour.len() == 0 {
        seq![p]
    } else {
        tour.insert(first_nearest(tour, p) + 1, p)
    }
}

/// The tour after one pass at radius `r`: the points of `remaining` that reach
/// `r` have joined it, one after the other in their order in `remaining`.
pub open spec fn absorbed(remaining: Seq<Point>, tour: Seq<Point>, r: nat) -> Seq<Point>
    decreases remaining.len(),
{
    if remaining.len() == 0 {
        tour
    } else {
        let earlier = absorbed(remaining.drop_last(), tour, r);
        if reaches(remaining.last(), r) {
            insert_near(earlier, remaining.last())
        } else {
            earlier
        }
    }
}

/// The radius of the pass that follows the one at `r`.
pub open spec fn next_radius(r: nat, step: nat) -> nat {
    if r >= step {
        (r - step) as nat
    } else {
        0
    }
}

/// The tour that the shrinking circle builds from `tour` and the points in
/// `remaining`, with passes at `r`, `r - step`, and so on. The last pass is the
/// first that leaves no point behind, or else the one at radius zero, which takes
/// every point. A step of zero allows one pass only.
pub open spec fn radial_tour(remaining: Seq<Point>, tour: Seq<Point>, r: nat, step: nat) -> Seq<
    Point,
>
    decreases r,
{
    let grown = absorbed(remaining, tour, r);
    let rest = remaining.filter(inside(r));
    if r == 0 || step == 0 || rest.len() == 0 {
        grown
    } else {
        radial_tour(rest, grown, next_radius(r, step), step)
    }
}

/// Only one position is the first nearest.
pub proof fn lemma_first_nearest_unique(tour: Seq<Point>, p: Point, k: int)
    requires
        is_first_nearest(tour, p, k),
    ensures
        first_nearest(tour, p) == k,
{
    let c = first_nearest(tour, p);
    assert(is_first_nearest(tour, p, c));
    if c < k {
        assert(sq_distance(tour[k], p) < sq_distance(tour[c], p));
        assert(sq_distance(tour[c], p) <= sq_distance(tour[k], p));
    } else if k < c {
        assert(sq_distance(tour[c], p) < sq_distance(tour[k], p));
        assert(sq_distance(tour[k], p) <= sq_distance(tour[c], p));
    }
}

/// Every tour that is not empty has a first nearest point.
pub proof fn lemma_first_nearest_exists(tour: Seq<Point>, p: Point)
    requires
        tour.len() > 0,
    ensures
        is_first_nearest(tour, p, first_nearest(tour, p)),
    decreases tour.len(),
{
    if tour.len() == 1 {
        assert(is_first_nearest(tour, p, 0));
    } else {
        let shorter = tour.drop_last();
        lemma_first_nearest_exists(shorter, p);
        let k = first_nearest(shorter, p);
        let last = tour.len() - 1;
        assert forall|m: int| 0 <= m < last implies tour[m] == shorter[m] by {}
        if sq_distance(tour[last], p) < sq_distance(tour[k], p) {
            assert forall|m: int| 0 <= m < tour.len() implies sq_distance(tour[last], p) <= sq_distance(
                #[trigger] tour[m],
                p,
            ) by {
                if m < last {
                    assert(sq_distance(shorter[k], p) <= sq_distance(shorter[m], p));
                }
            }
            assert forall|m: int| 0 <= m < last implies sq_distance(tour[last], p) < sq_distance(
                #[trigger] tour[m],
                p,
            ) by {
                assert(sq_distance(shorter[k], p) <= sq_distance(shorter[m], p));
            }
            assert(is_first_nearest(tour, p, last));
        } else {
            assert forall|m: int| 0 <= m < tour.len() implies sq_distance(tour[k], p) <= sq_distance(
                #[trigger] tour[m],
                p,
            ) by {
                if m < last {
                    assert(sq_distance(shorter[k], p) <= sq_distance(shorter[m], p));
                }
            }
            assert forall|m: int| 0 <= m < k implies sq_distance(tour[k], p) < sq_distance(
                #[trigger] tour[m],
                p,
            ) by {
                assert(sq_distance(shorter[k], p) < sq_distance(shorter[m], p));
            }
            assert(is_first_nearest(tour, p, k));
        }
    }
}

/// A point that joins the tour adds itself and nothing else.
pub proof fn lemma_insert_near_points(tour: Seq<Point>, p: Point)
    ensures
        insert_near(tour, p).len() == tour.len() + 1,
        insert_near(tour, p).to_multiset() == tour.to_multiset().insert(p),
{
    broadcast use group_to_multiset_ensures;

    if tour.len() == 0 {
        assert(seq![p] =~= tour.push(p));
    } else {
        lemma_first_nearest_exists(tour, p);
    }
}

/// A pass moves points from the circle to the tour and loses none: the grown
/// tour together with the points left inside holds what the tour and the
/// remaining points held before.
pub proof fn lemma_pass_keeps_points(remaining: Seq<Point>, tour: Seq<Point>, r: nat)
    ensures
        absorbed(remaining, tour, r).to_multiset().add(remaining.filter(inside(r)).to_multiset())
            == tour.to_multiset().add(remaining.to_multiset()),
        absorbed(remaining, tour, r).len() + remaining.filter(inside(r)).len() == tour.len()
            + remaining.len(),
    decreases remaining.len(),
{
    broadcast use group_to_multiset_ensures;
    broadcast use vstd::multiset::group_multiset_axioms;

    let grown = absorbed(remaining, tour, r);
    let rest = remaining.filter(inside(r));
    if remaining.len() == 0 {
        reveal(Seq::filter);
        assert(grown.to_multiset().add(rest.to_multiset()) =~= tour.to_multiset().add(
            remaining.to_multiset(),
        ));
    } else {
        let front = remaining.drop_last();
        let p = remaining.last();
        lemma_pass_keeps_points(front, tour, r);
        front.lemma_filter_push(p, inside(r));
        assert(front.push(p) =~= remaining);
        let earlier = absorbed(front, tour, r);
        let held = front.filter(inside(r));
        lemma_insert_near_points(earlier, p);
        assert(remaining.to_multiset() == front.to_multiset().insert(p)) by {
            assert(front.push(p).to_multiset() == front.to_multiset().insert(p));
        }
        if reaches(p, r) {
            assert(rest == held);
            assert(grown.to_multiset() == earlier.to_multiset().insert(p));
        } else {
            assert(rest == held.push(p));
            assert(rest.to_multiset() == held.to_multiset().insert(p));
            assert(grown == earlier);
        }
        assert(grown.to_multiset().add(rest.to_multiset()) =~= earlier.to_multiset().add(
            held.to_multiset(),
        ).insert(p));
        assert(grown.to_multiset().add(rest.to_multiset()) =~= tour.to_multiset().add(
            remaining.to_multiset(),
        ));
    }
}

/// The pass at radius zero takes every point.
pub proof fn lemma_nothing_inside_zero(remaining: Seq<Point>)
    ensures
        remaining.filter(inside(0)).len() == 0,
    decreases remaining.len(),
{
    if remaining.len() == 0 {
        reveal(Seq::filter);
    } else {
        lemma_nothing_inside_zero(remaining.drop_last());
        remaining.drop_last().lemma_filter_push(remaining.last(), inside(0));
        assert(remaining.drop_last().push(remaining.last()) =~= remaining);
    }
}

/// The finished tour holds exactly the points it started with and the points
/// that were waiting, each as often as before.
pub proof fn lemma_radial_tour_keeps_points(
    remaining: Seq<Point>,
    tour: Seq<Point>,
    r: nat,
    step: nat,
)
    requires
        step > 0,
    ensures
        radial_tour(remaining, tour, r, step).to_multiset() == tour.to_multiset().add(
            remaining.to_multiset(),
        ),
        radial_tour(remaining, tour, r, step).len() == tour.len() + remaining.len(),
    decreases r,
{
    broadcast use group_to_multiset_ensures;
    broadcast use vstd::multiset::group_multiset_axioms;

    let grown = absorbed(remaining, tour, r);
    let rest = remaining.filter(inside(r));
    lemma_pass_keeps_points(remaining, tour, r);
    if r == 0 {
        lemma_nothing_inside_zero(remaining);
    }
    if r == 0 || rest.len() == 0 {
        assert(rest.to_multiset() =~= Multiset::<Point>::empty());
        assert(grown.to_multiset() =~= tour.to_multiset().add(remaining.to_multiset()));
    } else {
        lemma_radial_tour_keeps_points(rest, grown, next_radius(r, step), step);
        assert(radial_tour(remaining, tour, r, step).to_multiset() =~= tour.to_multiset().add(
            remaining.to_multiset(),
        ));
    }
}

/// Finds the first position of the tour that holds a point nearest to `p`.
pub fn nearest_index(path: &Vec<Point>, p: &Point) -> (k: usize)
    requires
        path@.len() > 0,
    ensures
        is_first_nearest(path@, *p, k as int),
        k == first_nearest(path@, *p),
{
    let mut best_index: usize = 0;
    let mut shortest_distance: u128 = Point::squared_distance_between(&path[0], p);
    let mut index: usize = 1;
    while index < path.len()
        invariant
            1 <= index <= path@.len(),
            best_index < index,
            shortest_distance == sq_distance(path@[best_index as int], *p),
            forall|m: int| 0 <= m < index ==> shortest_distance <= sq_distance(#[trigger] path@[m], *p),
            forall|m: int|
                0 <= m < best_index ==> shortest_distance < sq_distance(#[trigger] path@[m], *p),
        decreases path@.len() - index,
    {
        let d: u128 = Point::squared_distance_between(&path[index], p);
        if d < shortest_distance {
            shortest_distance = d;
            best_index = index;
        }
        index = index + 1;
    }
    proof {
        lemma_first_nearest_unique(path@, *p, best_index as int);
    }
    best_index
}

/// Puts `p` into the tour directly after its first nearest point.
pub fn insert_next_to_nearest(path: &mut Vec<Point>, p: Point)
    ensures
        final(path)@ == insert_near(old(path)@, p),
{
    if path.len() == 0 {
        path.push(p);
        assert(path@ =~= seq![p]);
    } else {
        let k: usize = nearest_index(path, &p);
        path.insert(k + 1, p);
    }
}

/// One pass at the given radius: every remaining point that is at least `radius`
/// away from the origin leaves `remaining_points` and joins `path`; the others
/// stay, in their order.
pub fn generate_radial_path_step(
    remaining_points: &mut Vec<Point>,
    path: &mut Vec<Point>,
    radius: u64,
)
    ensures
        final(path)@ == absorbed(old(remaining_points)@, old(path)@, radius as nat),
        final(remaining_points)@ == old(remaining_points)@.filter(inside(radius as nat)),
{
    let origin: Point = Point::new(0, 0);
    let ghost waiting = remaining_points@;
    let ghost start = path@;
    let ghost r = radius as nat;
    let mut kept: Vec<Point> = Vec::new();
    let mut index: usize = 0;
    proof {
        reveal(Seq::filter);
        assert(waiting.take(0).len() == 0);
    }
    while index < remaining_points.len()
        invariant
            remaining_points@ == waiting,
            origin == Point::origin(),
            r == radius as nat,
            index <= waiting.len(),
            path@ == absorbed(waiting.take(index as int), start, r),
            kept@ == waiting.take(index as int).filter(inside(r)),
        decreases waiting.len() - index,
    {
        let el: Point = remaining_points[index];
        proof {
            let done = waiting.take(index as int);
            done.lemma_filter_push(el, inside(r));
            assert(done.push(el) =~= waiting.take(index + 1));
            assert(waiting.take(index + 1).drop_last() =~= done);
        }
        if el.distance_to(&origin) >= radius {
            insert_next_to_nearest(path, el);
        } else {
            kept.push(el);
        }
        index = index + 1;
    }
    assert(waiting.take(waiting.len() as int) =~= waiting);
    *remaining_points = kept;
}

/// Builds a tour of `points` from the outside in, with passes at radius `start`,
/// `start - step` and so on, down to zero where that is needed. With a step of
/// zero the circle cannot shrink, and the pass at `start` is the only one.
pub fn generate_radial_path(points: &Vec<Point>, start: u64, step: u64) -> (path: Vec<Point>)
    ensures
        path@ == radial_tour(points@, Seq::empty(), start as nat, step as nat),
        step > 0 ==> path@.to_multiset() == points@.to_multiset() && path@.len()
            == points@.len(),
{
    let mut remaining_points: Vec<Point> = copy_path(points);
    let mut path: Vec<Point> = Vec::new();
    let mut r: u64 = start;
    let mut done: bool = false;
    let ghost goal = radial_tour(points@, Seq::empty(), start as nat, step as nat);
    proof {
        if step > 0 {
            lemma_radial_tour_keeps_points(points@, Seq::empty(), start as nat, step as nat);
            broadcast use vstd::multiset::group_multiset_axioms;
            assert(Seq::<Point>::empty().to_multiset().add(points@.to_multiset())
                =~= points@.to_multiset()) by {
                broadcast use group_to_multiset_ensures;
            }
        }
    }
    while !done
        invariant
            !done ==> radial_tour(remaining_points@, path@, r as nat, step as nat) == goal,
            done ==> path@ == goal,
        decreases
            (if done {
                0
            } else {
                r + 1
            }),
    {
        generate_radial_path_step(&mut remaining_points, &mut path, r);
        if r == 0 || step == 0 || remaining_points.len() == 0 {
            done = true;
        } else {
            r = if r >= step { r - step } else { 0 };
        }
    }
    path
}

} // verus!
