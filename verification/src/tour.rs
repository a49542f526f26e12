//! Closed tours: their length, their score, and the two moves that rearrange them.

use vstd::prelude::*;
use vstd::seq_lib::*;
use crate::point::{
    distance, lemma_distance_bound, lemma_distance_symmetric, lemma_distance_zero_iff_equal,
    Point, MAX_DISTANCE,
};

verus! {

/// The length of a tour, or the mark that no tour has been scored yet.
#[derive(Clone, Copy, Debug, PartialEq, Eq, Structural)]
pub enum Score {
    Finite(u128),
    Infinite,
}

impl Score {
    /// `self` is no greater than `other`; `Infinite` is the greatest score.
    pub open spec fn at_most(self, other: Score) -> bool {
        match (self, other) {
            (_, Score::Infinite) => true,
            (Score::Infinite, Score::Finite(_)) => false,
            (Score::Finite(a), Score::Finite(b)) => a <= b,
        }
    }

    /// Whether `self` is no greater than `other`.
    pub fn le(&self, other: &Score) -> (r: bool)
        ensures
            r == self.at_most(*other),
    {
        match (*self, *other) {
            (_, Score::Infinite) => true,
            (Score::Infinite, Score::Finite(_)) => false,
            (Score::Finite(a), Score::Finite(b)) => a <= b,
        }
    }

    /// Whether this is the mark for "no tour yet".
    pub fn is_infinite(&self) -> (r: bool)
        ensures
            r == (*self == Score::Infinite),
    {
        match *self {
            Score::Infinite => true,
            Score::Finite(_) => false,
        }
    }

    /// The length, where there is one.
    pub fn value(&self) -> (r: Option<u128>)
        ensures
            r == (match *self {
                Score::Finite(v) => Some(v),
                Score::Infinite => None,
            }),
    {
        match *self {
            Score::Finite(v) => Some(v),
            Score::Infinite => None,
        }
    }
}

/// The position that follows `i` on a closed tour of `len` points.
pub open spec fn successor(len: int, i: int) -> int {
    if i + 1 == len {
        0
    } else {
        i + 1
    }
}

/// The two points that the edge out of position `i` joins, in the direction of
/// travel.
pub open spec fn edge_ends(tour: Seq<Point>, i: int) -> (Point, Point) {
    (tour[i], tour[successor(tour.len() as int, i)])
}

/// The length of the edge that leaves position `i` of the closed tour.
pub open spec fn edge(tour: Seq<Point>, i: int) -> nat {
    distance(tour[i], tour[successor(tour.len() as int, i)])
}

/// The summed length of the edges that leave the first `k` positions.
pub open spec fn edges_before(tour: Seq<Point>, k: int) -> nat
    decreases k,
{
    if k <= 0 {
        0
    } else {
        edges_before(tour, k - 1) + edge(tour, k - 1)
    }
}

/// The length of the closed tour: one edge out of every position, the last one
/// back to the start. A tour of fewer than two points has length zero.
pub open spec fn tour_length(tour: Seq<Point>) -> nat {
    edges_before(tour, tour.len() as int)
}

/// A tour of no point or of one point has length zero.
pub proof fn lemma_short_tour_has_length_zero(tour: Seq<Point>)
    requires
        tour.len() <= 1,
    ensures
        tour_length(tour) == 0,
{
    if tour.len() == 1 {
        lemma_distance_zero_iff_equal(tour[0], tour[0]);
        assert(edges_before(tour, 1) == edges_before(tour, 0) + edge(tour, 0));
    }
}

/// The first `k` edges of a tour are together no longer than `k` longest edges.
pub proof fn lemma_edges_before_bound(tour: Seq<Point>, k: int)
    requires
        0 <= k <= tour.len(),
    ensures
        edges_before(tour, k) <= k * MAX_DISTANCE,
    decreases k,
{
    if k > 0 {
        lemma_edges_before_bound(tour, k - 1);
        lemma_distance_bound(tour[k - 1], tour[successor(tour.len() as int, k - 1)]);
        assert((k - 1) * MAX_DISTANCE + MAX_DISTANCE == k * MAX_DISTANCE) by (nonlinear_arith);
    }
}

/// The length of a tour that a vector can hold fits into 128 bits.
pub proof fn lemma_tour_length_fits(tour: Seq<Point>)
    requires
        tour.len() <= usize::MAX,
    ensures
        tour_length(tour) <= tour.len() * MAX_DISTANCE,
        tour_length(tour) <= u128::MAX,
{
    lemma_edges_before_bound(tour, tour.len() as int);
    assert(tour.len() * MAX_DISTANCE <= 0xffff_ffff_ffff_ffff * MAX_DISTANCE) by (nonlinear_arith)
        requires
            tour.len() <= 0xffff_ffff_ffff_ffff,
    ;
}

/// Sums the edges of the closed tour.
pub fn evaluate_path(path: &Vec<Point>) -> (score: u128)
    ensures
        score == tour_length(path@),
        path@.len() <= 1 ==> score == 0,
{
    let n: usize = path.len();
    let mut score: u128 = 0;
    let mut index: usize = 0;
    while index < n
        invariant
            n == path@.len(),
            index <= n,
            score == edges_before(path@, index as int),
            score <= index * MAX_DISTANCE,
        decreases n - index,
    {
        let next: usize = if index == n - 1 { 0 } else { index + 1 };
        let d: u64 = path[index].distance_to(&path[next]);
        assert((index + 1) * MAX_DISTANCE <= 0xffff_ffff_ffff_ffff * MAX_DISTANCE
            && index * MAX_DISTANCE + MAX_DISTANCE == (index + 1) * MAX_DISTANCE)
            by (nonlinear_arith)
            requires
                index + 1 <= 0xffff_ffff_ffff_ffff,
        ;
        score = score + d as u128;
        index = index + 1;
    }
    proof {
        if n <= 1 {
            lemma_short_tour_has_length_zero(path@);
        }
    }
    score
}

/// The tour after the point at `i` was taken out and put back at `j`.
pub open spec fn relocated(tour: Seq<Point>, i: int, j: int) -> Seq<Point> {
    tour.remove(i).insert(j, tour[i])
}

/// The tour after the points at positions `i` up to, not including, `j` were
/// put in the opposite order.
pub open spec fn segment_reversed(tour: Seq<Point>, i: int, j: int) -> Seq<Point> {
    tour.subrange(0, i) + tour.subrange(i, j).reverse() + tour.subrange(j, tour.len() as int)
}

/// Taking a point out and putting it back elsewhere keeps the same points.
pub proof fn lemma_relocated_same_points(tour: Seq<Point>, i: int, j: int)
    requires
        0 <= i < tour.len(),
        0 <= j < tour.len(),
    ensures
        relocated(tour, i, j).len() == tour.len(),
        relocated(tour, i, j).to_multiset() == tour.to_multiset(),
{
    broadcast use group_to_multiset_ensures;
    broadcast use vstd::multiset::group_multiset_axioms;

    assert(tour.contains(tour[i]));
    assert(relocated(tour, i, j).to_multiset() =~= tour.to_multiset());
}

/// Reversing a segment keeps the same points, keeps every position outside the
/// segment, and mirrors the positions inside it.
pub proof fn lemma_segment_reversed(tour: Seq<Point>, i: int, j: int)
    requires
        0 <= i <= j <= tour.len(),
    ensures
        segment_reversed(tour, i, j).len() == tour.len(),
        segment_reversed(tour, i, j).to_multiset() == tour.to_multiset(),
        forall|k: int|
            0 <= k < tour.len() && !(i <= k < j) ==> #[trigger] segment_reversed(tour, i, j)[k]
                == tour[k],
        forall|k: int|
            i <= k < j ==> #[trigger] segment_reversed(tour, i, j)[k] == tour[i + j - 1 - k],
{
    let head = tour.subrange(0, i);
    let mid = tour.subrange(i, j);
    let tail = tour.subrange(j, tour.len() as int);
    let r = segment_reversed(tour, i, j);
    assert(tour =~= head + mid + tail);
    mid.lemma_reverse_to_multiset();
    lemma_multiset_commutative(head + mid, tail);
    lemma_multiset_commutative(head, mid);
    lemma_multiset_commutative(head + mid.reverse(), tail);
    lemma_multiset_commutative(head, mid.reverse());
    assert(r.to_multiset() =~= tour.to_multiset());
    assert forall|k: int| 0 <= k < tour.len() && !(i <= k < j) implies #[trigger] r[k]
        == tour[k] by {}
    assert forall|k: int| i <= k < j implies #[trigger] r[k] == tour[i + j - 1 - k] by {
        assert(r[k] == mid.reverse()[k - i]);
    }
}

/// Reversing a segment leaves untouched every edge that neither starts nor ends
/// in the segment, and turns round every edge that lies inside it, which is then
/// found at the mirrored position. Only the edge that enters the segment and the
/// edge that leaves it are replaced.
pub proof fn lemma_segment_reversed_edges(tour: Seq<Point>, i: int, j: int)
    requires
        0 <= i <= j <= tour.len(),
    ensures
        forall|k: int|
            0 <= k < tour.len() && !(i <= k < j) && !(i <= successor(tour.len() as int, k) < j)
                ==> #[trigger] edge_ends(segment_reversed(tour, i, j), k) == edge_ends(tour, k)
                && edge(segment_reversed(tour, i, j), k) == edge(tour, k),
        forall|k: int|
            i <= k && k + 1 < j ==> #[trigger] edge_ends(tour, k) == (tour[k], tour[k + 1])
                && edge_ends(segment_reversed(tour, i, j), i + j - 2 - k) == (tour[k + 1], tour[k])
                && edge(segment_reversed(tour, i, j), i + j - 2 - k) == edge(tour, k),
{
    lemma_segment_reversed(tour, i, j);
    let r = segment_reversed(tour, i, j);
    let n = tour.len() as int;
    assert forall|k: int|
        0 <= k < n && !(i <= k < j) && !(i <= successor(n, k) < j) implies #[trigger] edge_ends(
        r,
        k,
    ) == edge_ends(tour, k) && edge(r, k) == edge(tour, k) by {
        assert(r[k] == tour[k]);
        assert(r[successor(n, k)] == tour[successor(n, k)]);
    }
    assert forall|k: int| i <= k && k + 1 < j implies #[trigger] edge_ends(tour, k) == (
        tour[k],
        tour[k + 1],
    ) && edge_ends(r, i + j - 2 - k) == (tour[k + 1], tour[k]) && edge(r, i + j - 2 - k) == edge(
        tour,
        k,
    ) by {
        let m = i + j - 2 - k;
        assert(r[m] == tour[i + j - 1 - m]);
        assert(r[m + 1] == tour[i + j - 1 - (m + 1)]);
        assert(successor(n, m) == m + 1);
        assert(successor(n, k) == k + 1);
        lemma_distance_symmetric(tour[k + 1], tour[k]);
    }
}

/// Where two tours have the same edge lengths at the positions from `a` up to,
/// not including, `b`, those edges sum to the same.
pub proof fn lemma_equal_edge_ranges(r: Seq<Point>, t: Seq<Point>, a: int, b: int)
    requires
        0 <= a <= b,
        forall|k: int| a <= k < b ==> #[trigger] edge(r, k) == edge(t, k),
    ensures
        edges_before(r, b) - edges_before(r, a) == edges_before(t, b) - edges_before(t, a),
    decreases b - a,
{
    if a < b {
        lemma_equal_edge_ranges(r, t, a, b - 1);
        assert(edge(r, b - 1) == edge(t, b - 1));
    }
}

/// Where the edges of `r` at the positions from `i` up to, not including, `j - 1`
/// are the edges of `t` at the mirrored positions, the first `m` of the ones sum
/// to the same as the last `m` of the others.
pub proof fn lemma_mirrored_edge_ranges(r: Seq<Point>, t: Seq<Point>, i: int, j: int, m: int)
    requires
        0 <= i < j,
        0 <= m <= j - 1 - i,
        forall|k: int| i <= k < j - 1 ==> #[trigger] edge(r, k) == edge(t, i + j - 2 - k),
    ensures
        edges_before(r, i + m) - edges_before(r, i) == edges_before(t, j - 1) - edges_before(
            t,
            j - 1 - m,
        ),
    decreases m,
{
    if m > 0 {
        lemma_mirrored_edge_ranges(r, t, i, j, m - 1);
        assert(edge(r, i + m - 1) == edge(t, i + j - 2 - (i + m - 1)));
        assert(edges_before(t, j - m) == edges_before(t, j - m - 1) + edge(t, j - m - 1));
    }
}

/// Reversing a segment that touches neither end of the tour replaces two edges
/// and keeps the length of all others: the edge into the segment and the edge out
/// of it go, and the edges between their crossed-over ends come.
pub proof fn lemma_reversal_changes_two_edges(tour: Seq<Point>, i: int, j: int)
    requires
        0 < i < j < tour.len(),
    ensures
        tour_length(segment_reversed(tour, i, j)) + distance(tour[i - 1], tour[i]) + distance(
            tour[j - 1],
            tour[j],
        ) == tour_length(tour) + distance(tour[i - 1], tour[j - 1]) + distance(tour[i], tour[j]),
{
    let r = segment_reversed(tour, i, j);
    let n = tour.len() as int;
    lemma_segment_reversed(tour, i, j);
    assert forall|k: int| 0 <= k < i - 1 implies #[trigger] edge(r, k) == edge(tour, k) by {
        assert(r[k] == tour[k]);
        assert(r[k + 1] == tour[k + 1]);
    }
    lemma_equal_edge_ranges(r, tour, 0, i - 1);
    assert forall|k: int| j <= k < n implies #[trigger] edge(r, k) == edge(tour, k) by {
        assert(r[k] == tour[k]);
        assert(r[successor(n, k)] == tour[successor(n, k)]);
    }
    lemma_equal_edge_ranges(r, tour, j, n);
    assert forall|k: int| i <= k < j - 1 implies #[trigger] edge(r, k) == edge(
        tour,
        i + j - 2 - k,
    ) by {
        assert(r[k] == tour[i + j - 1 - k]);
        assert(r[k + 1] == tour[i + j - 1 - (k + 1)]);
        lemma_distance_symmetric(tour[i + j - 1 - k], tour[i + j - 2 - k]);
    }
    lemma_mirrored_edge_ranges(r, tour, i, j, j - 1 - i);
    assert(edge(r, i - 1) == distance(tour[i - 1], tour[j - 1])) by {
        assert(r[i - 1] == tour[i - 1]);
        assert(r[i] == tour[i + j - 1 - i]);
    }
    assert(edge(r, j - 1) == distance(tour[i], tour[j])) by {
        assert(r[j - 1] == tour[i + j - 1 - (j - 1)]);
        assert(r[j] == tour[j]);
    }
    assert(edges_before(r, i) == edges_before(r, i - 1) + edge(r, i - 1));
    assert(edges_before(r, j) == edges_before(r, j - 1) + edge(r, j - 1));
    assert(edges_before(tour, i) == edges_before(tour, i - 1) + edge(tour, i - 1));
    assert(edges_before(tour, j) == edges_before(tour, j - 1) + edge(tour, j - 1));
}

/// How often a step moves when it is asked for `n` moves: never, where `n` is
/// negative.
pub open spec fn rounds(n: int) -> nat {
    if n > 0 {
        n as nat
    } else {
        0
    }
}

/// The tour after the relocations in `moves`, each from its first position to
/// its second, in their order.
pub open spec fn after_relocations(tour: Seq<Point>, moves: Seq<(int, int)>) -> Seq<Point>
    decreases moves.len(),
{
    if moves.len() == 0 {
        tour
    } else {
        relocated(after_relocations(tour, moves.drop_last()), moves.last().0, moves.last().1)
    }
}

/// Every relocation takes from and puts back at a position of the tour.
pub open spec fn relocations_fit(len: int, moves: Seq<(int, int)>) -> bool {
    forall|k: int|
        0 <= k < moves.len() ==> 0 <= (#[trigger] moves[k]).0 < len && 0 <= moves[k].1 < len
}

/// `path` is what some `count` relocations make of `tour`. A tour of fewer than
/// two points is left as it is.
pub open spec fn reached_by_relocations(tour: Seq<Point>, path: Seq<Point>, count: nat) -> bool {
    if tour.len() <= 1 {
        path == tour
    } else {
        exists|moves: Seq<(int, int)>|
            moves.len() == count && #[trigger] relocations_fit(tour.len() as int, moves) && path
                == after_relocations(tour, moves)
    }
}

/// The tour after the reversals in `moves`, each of the segment from its first
/// position up to, not including, its second, in their order.
pub open spec fn after_reversals(tour: Seq<Point>, moves: Seq<(int, int)>) -> Seq<Point>
    decreases moves.len(),
{
    if moves.len() == 0 {
        tour
    } else {
        segment_reversed(after_reversals(tour, moves.drop_last()), moves.last().0, moves.last().1)
    }
}

/// Every reversal starts before the last position and ends at or after its
/// start, before the end of the tour.
pub open spec fn reversals_fit(len: int, moves: Seq<(int, int)>) -> bool {
    forall|k: int|
        0 <= k < moves.len() ==> 0 <= (#[trigger] moves[k]).0 < len - 1 && moves[k].0
            <= moves[k].1 < len
}

/// `path` is what some `count` segment reversals make of `tour`. A tour of fewer
/// than two points is left as it is.
pub open spec fn reached_by_reversals(tour: Seq<Point>, path: Seq<Point>, count: nat) -> bool {
    if tour.len() <= 1 {
        path == tour
    } else {
        exists|moves: Seq<(int, int)>|
            moves.len() == count && #[trigger] reversals_fit(tour.len() as int, moves) && path
                == after_reversals(tour, moves)
    }
}

/// Relocations keep the points of the tour.
pub proof fn lemma_relocations_same_points(tour: Seq<Point>, moves: Seq<(int, int)>)
    requires
        relocations_fit(tour.len() as int, moves),
    ensures
        after_relocations(tour, moves).len() == tour.len(),
        after_relocations(tour, moves).to_multiset() == tour.to_multiset(),
    decreases moves.len(),
{
    if moves.len() > 0 {
        lemma_relocations_same_points(tour, moves.drop_last());
        let last = moves.last();
        assert(last == moves[moves.len() - 1]);
        lemma_relocated_same_points(after_relocations(tour, moves.drop_last()), last.0, last.1);
    }
}

/// Reversals keep the points of the tour.
pub proof fn lemma_reversals_same_points(tour: Seq<Point>, moves: Seq<(int, int)>)
    requires
        reversals_fit(tour.len() as int, moves),
    ensures
        after_reversals(tour, moves).len() == tour.len(),
        after_reversals(tour, moves).to_multiset() == tour.to_multiset(),
    decreases moves.len(),
{
    if moves.len() > 0 {
        lemma_reversals_same_points(tour, moves.drop_last());
        let last = moves.last();
        assert(last == moves[moves.len() - 1]);
        lemma_segment_reversed(after_reversals(tour, moves.drop_last()), last.0, last.1);
    }
}

/// Takes the point at `i` out of the tour and puts it back at `j`.
pub fn relocate(path: &mut Vec<Point>, i: usize, j: usize)
    requires
        i < old(path)@.len(),
        j < old(path)@.len(),
    ensures
        final(path)@ == relocated(old(path)@, i as int, j as int),
        final(path)@.len() == old(path)@.len(),
        final(path)@.to_multiset() == old(path)@.to_multiset(),
{
    proof {
        lemma_relocated_same_points(path@, i as int, j as int);
    }
    let el = path.remove(i);
    path.insert(j, el);
}

/// Reverses the order of the points at positions `i` up to, not including, `j`.
pub fn reverse_segment(path: &mut Vec<Point>, i: usize, j: usize)
    requires
        i <= j <= old(path)@.len(),
    ensures
        final(path)@ == segment_reversed(old(path)@, i as int, j as int),
        final(path)@.len() == old(path)@.len(),
        final(path)@.to_multiset() == old(path)@.to_multiset(),
{
    let ghost before = path@;
    proof {
        lemma_segment_reversed(before, i as int, j as int);
    }
    let mut lo: usize = i;
    let mut hi: usize = j;
    while hi - lo > 1
        invariant
            i <= lo <= hi <= j <= before.len(),
            lo + hi == i + j,
            path@.len() == before.len(),
            forall|k: int| 0 <= k < before.len() && !(i <= k < j) ==> path@[k] == before[k],
            forall|k: int| lo <= k < hi ==> path@[k] == before[k],
            forall|k: int|
                i <= k < j && !(lo <= k < hi) ==> path@[k] == before[i + j - 1 - k],
        decreases hi - lo,
    {
        let a = path[lo];
        let b = path[hi - 1];
        path.set(lo, b);
        path.set(hi - 1, a);
        lo = lo + 1;
        hi = hi - 1;
    }
    assert(path@ =~= segment_reversed(before, i as int, j as int));
}

/// A copy of the tour.
pub fn copy_path(path: &Vec<Point>) -> (copy: Vec<Point>)
    ensures
        copy@ == path@,
{
    let mut copy: Vec<Point> = Vec::new();
    let mut index: usize = 0;
    while index < path.len()
        invariant
            index <= path@.len(),
            copy@ == path@.subrange(0, index as int),
        decreases path@.len() - index,
    {
        copy.push(path[index]);
        index = index + 1;
        assert(copy@ =~= path@.subrange(0, index as int));
    }
    assert(path@.subrange(0, path@.len() as int) =~= path@);
    copy
}

/// The outline to draw for a tour: its points in order, then the first once more.
/// An empty tour has an empty outline.
pub fn generate_path_values(points: &Vec<Point>) -> (outline: Vec<Point>)
    ensures
        outline@ == closed_outline(points@),
{
    let mut outline = copy_path(points);
    if points.len() > 0 {
        outline.push(points[0]);
    }
    outline
}

/// The points of the tour in order, then the first once more.
pub open spec fn closed_outline(tour: Seq<Point>) -> Seq<Point> {
    if tour.len() == 0 {
        tour
    } else {
        tour.push(tour[0])
    }
}

} // verus!
