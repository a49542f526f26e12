//! The point set, the three tours kept over it, and the search steps.

use vstd::prelude::*;
use vstd::seq_lib::*;
use crate::point::Point;
use crate::radial::{generate_radial_path, radial_tour};
use crate::random::{shuffle, uniform_in};
use crate::tour::{
    after_relocations, after_reversals, copy_path, evaluate_path,
    lemma_relocations_same_points, lemma_reversals_same_points, reached_by_relocations,
    lemma_tour_length_fits, reached_by_reversals, relocate, relocations_fit, reversals_fit,
    reverse_segment, rounds, tour_length, Score,
};

verus! {

/// The radius of the square in which random points are placed, unless another is
/// asked for: ten plotting units.
pub const DEFAULT_RADIUS: i32 = 10_000;

/// How far outside the placement radius the shrinking circle starts, unless
/// another margin is asked for.
pub const DEFAULT_MARGIN: u32 = 10_000;

/// By how much the circle shrinks between two passes, unless another step is
/// asked for.
pub const DEFAULT_STEP: u32 = 10;

/// How many random points are tried before a placement is given up.
pub const MAX_PLACEMENT_ATTEMPTS: u32 = 10_000;

/// What a `PointManager` holds, as mathematical values.
pub struct PointManagerView {
    pub points: Seq<Point>,
    pub current_path: Seq<Point>,
    pub best_path: Seq<Point>,
    pub saved_path: Seq<Point>,
    pub score: Score,
    pub saved_score: Score,
    pub radius: int,
    pub margin: nat,
    pub step: nat,
}

/// The score belongs to the tour: it is the tour's length, or the tour is empty
/// and has not been scored.
pub open spec fn scored(tour: Seq<Point>, score: Score) -> bool {
    match score {
        Score::Finite(v) => v == tour_length(tour),
        Score::Infinite => tour.len() == 0,
    }
}

/// The tour is empty or visits every point of the set, each once.
pub open spec fn is_tour_of(tour: Seq<Point>, points: Seq<Point>) -> bool {
    tour.len() == 0 || tour.to_multiset() == points.to_multiset()
}

impl PointManagerView {
    /// The state is consistent: no point is placed twice, the points fit into a
    /// vector, the configuration can be used, each score belongs to its tour, and
    /// the current and the best tour are tours of the placed points.
    pub open spec fn wf(self) -> bool {
        &&& self.points.no_duplicates()
        &&& self.points.len() <= usize::MAX
        &&& 0 < self.radius <= i32::MAX
        &&& self.margin <= u32::MAX
        &&& 0 < self.step <= u32::MAX
        &&& scored(self.best_path, self.score)
        &&& scored(self.saved_path, self.saved_score)
        &&& is_tour_of(self.best_path, self.points)
        &&& is_tour_of(self.current_path, self.points)
    }

    /// The state with the current and the best tour forgotten.
    pub open spec fn reset(self) -> PointManagerView {
        PointManagerView {
            current_path: Seq::empty(),
            best_path: Seq::empty(),
            score: Score::Infinite,
            ..self
        }
    }

    /// The state after the point set changed to `points`.
    pub open spec fn with_points(self, points: Seq<Point>) -> PointManagerView {
        PointManagerView { points, ..self.reset() }
    }

    /// The state after `candidate` was offered: it is the current tour, and it is
    /// the best tour too where it is no longer than the best so far.
    pub open spec fn offered(self, candidate: Seq<Point>) -> PointManagerView {
        let new_score = Score::Finite(tour_length(candidate) as u128);
        if new_score.at_most(self.score) {
            PointManagerView {
                current_path: candidate,
                best_path: candidate,
                score: new_score,
                ..self
            }
        } else {
            PointManagerView { current_path: candidate, ..self }
        }
    }

    /// The state after the best tour and its score were set aside.
    pub open spec fn saved(self) -> PointManagerView {
        PointManagerView { saved_path: self.best_path, saved_score: self.score, ..self }
    }

    /// The state after the tour that was set aside was forgotten.
    pub open spec fn unsaved(self) -> PointManagerView {
        PointManagerView { saved_path: Seq::empty(), saved_score: Score::Infinite, ..self }
    }

    /// The radius at which the shrinking circle starts.
    pub open spec fn start_radius(self) -> nat {
        (self.radius + self.margin) as nat
    }
}

/// The points placed so far and the tours found over them.
pub struct PointManager {
    points: Vec<Point>,
    current_path: Vec<Point>,
    best_path: Vec<Point>,
    saved_path: Vec<Point>,
    score: Score,
    saved_score: Score,
    radius: i32,
    margin: u32,
    step: u32,
}

impl View for PointManager {
    type V = PointManagerView;

    closed spec fn view(&self) -> PointManagerView {
        PointManagerView {
            points: self.points@,
            current_path: self.current_path@,
            best_path: self.best_path@,
            saved_path: self.saved_path@,
            score: self.score,
            saved_score: self.saved_score,
            radius: self.radius as int,
            margin: self.margin as nat,
            step: self.step as nat,
        }
    }
}

/// Everything a drawing needs, read in one go: the points, the three tours and
/// the two scores of one and the same state.
pub struct Snapshot {
    pub points: Vec<Point>,
    pub current_path: Vec<Point>,
    pub best_path: Vec<Point>,
    pub saved_path: Vec<Point>,
    pub score: Score,
    pub saved_score: Score,
}

/// A sequence without duplicates stays so when a point it lacks is appended.
pub proof fn lemma_push_fresh_point(points: Seq<Point>, p: Point)
    requires
        points.no_duplicates(),
        !points.contains(p),
    ensures
        points.push(p).no_duplicates(),
{
    let longer = points.push(p);
    assert forall|a: int, b: int| 0 <= a < longer.len() && 0 <= b < longer.len() && a != b implies longer[a]
        != longer[b] by {
        if a < points.len() {
            assert(points.contains(points[a]));
        }
        if b < points.len() {
            assert(points.contains(points[b]));
        }
    }
}

/// Setting the best tour aside and forgetting it straight away leaves no saved
/// tour and an infinite saved score, whatever the best tour is, and nothing else
/// has changed.
pub proof fn lemma_save_then_reset(state: PointManagerView)
    ensures
        state.saved().unsaved().saved_path == Seq::<Point>::empty(),
        state.saved().unsaved().saved_score == Score::Infinite,
        state.saved().unsaved() == state.unsaved(),
        state.saved().unsaved().best_path == state.best_path,
        state.saved().unsaved().score == state.score,
{
}

/// Saving is idempotent: a second save changes nothing.
pub proof fn lemma_save_twice(state: PointManagerView)
    ensures
        state.saved().saved() == state.saved(),
{
}

/// Whenever the point set changes, the current and the best tour are empty and
/// the score is infinite afterwards; the saved tour and its score stay.
pub proof fn lemma_change_resets(state: PointManagerView, points: Seq<Point>)
    ensures
        state.with_points(points).current_path == Seq::<Point>::empty(),
        state.with_points(points).best_path == Seq::<Point>::empty(),
        state.with_points(points).score == Score::Infinite,
        state.with_points(points).saved_path == state.saved_path,
        state.with_points(points).saved_score == state.saved_score,
        state.with_points(points).points == points,
{
}

/// Offering a candidate never makes the score worse, always makes the candidate
/// the current tour, and keeps a consistent state consistent: afterwards the
/// score is again the length of the best tour.
pub proof fn lemma_offer_is_greedy(state: PointManagerView, candidate: Seq<Point>)
    requires
        state.wf(),
        is_tour_of(candidate, state.points),
    ensures
        state.offered(candidate).score.at_most(state.score),
        state.offered(candidate).current_path == candidate,
        state.offered(candidate).wf(),
        state.offered(candidate).best_path == candidate || (state.offered(candidate).best_path
            == state.best_path && state.offered(candidate).score == state.score),
{
    broadcast use group_to_multiset_ensures;

    assert(candidate.len() == candidate.to_multiset().len());
    assert(state.points.len() == state.points.to_multiset().len());
    lemma_tour_length_fits(candidate);
}

impl PointManager {
    /// The state is consistent.
    pub open spec fn wf(&self) -> bool {
        self@.wf()
    }

    /// An empty point set with the usual configuration.
    pub fn default() -> (pm: PointManager)
        ensures
            pm.wf(),
            pm@ == (PointManagerView {
                points: Seq::empty(),
                current_path: Seq::empty(),
                best_path: Seq::empty(),
                saved_path: Seq::empty(),
                score: Score::Infinite,
                saved_score: Score::Infinite,
                radius: DEFAULT_RADIUS as int,
                margin: DEFAULT_MARGIN as nat,
                step: DEFAULT_STEP as nat,
            }),
    {
        PointManager {
            points: Vec::new(),
            current_path: Vec::new(),
            best_path: Vec::new(),
            saved_path: Vec::new(),
            score: Score::Infinite,
            saved_score: Score::Infinite,
            radius: DEFAULT_RADIUS,
            margin: DEFAULT_MARGIN,
            step: DEFAULT_STEP,
        }
    }

    /// An empty point set with its own placement radius and its own schedule for
    /// the shrinking circle. There is none for a radius or a step that is not
    /// positive.
    pub fn new(radius: i32, margin: u32, step: u32) -> (made: Option<PointManager>)
        ensures
            made.is_some() == (radius > 0 && step > 0),
            made.is_some() ==> made.unwrap().wf() && made.unwrap()@ == (PointManagerView {
                points: Seq::empty(),
                current_path: Seq::empty(),
                best_path: Seq::empty(),
                saved_path: Seq::empty(),
                score: Score::Infinite,
                saved_score: Score::Infinite,
                radius: radius as int,
                margin: margin as nat,
                step: step as nat,
            }),
    {
        if radius > 0 && step > 0 {
            Some(
                PointManager {
                    points: Vec::new(),
                    current_path: Vec::new(),
                    best_path: Vec::new(),
                    saved_path: Vec::new(),
                    score: Score::Infinite,
                    saved_score: Score::Infinite,
                    radius,
                    margin,
                    step,
                },
            )
        } else {
            None
        }
    }

    /// The placed points, in the order in which they were placed.
    pub fn points(&self) -> (r: &Vec<Point>)
        ensures
            r@ == self@.points,
    {
        &self.points
    }

    /// The tour that the last step tried.
    pub fn current_path(&self) -> (r: &Vec<Point>)
        ensures
            r@ == self@.current_path,
    {
        &self.current_path
    }

    /// The shortest tour seen since the last reset.
    pub fn best_path(&self) -> (r: &Vec<Point>)
        ensures
            r@ == self@.best_path,
    {
        &self.best_path
    }

    /// The tour that was set aside.
    pub fn saved_path(&self) -> (r: &Vec<Point>)
        ensures
            r@ == self@.saved_path,
    {
        &self.saved_path
    }

    /// The length of the best tour.
    pub fn score(&self) -> (r: Score)
        ensures
            r == self@.score,
    {
        self.score
    }

    /// The length of the tour that was set aside.
    pub fn saved_score(&self) -> (r: Score)
        ensures
            r == self@.saved_score,
    {
        self.saved_score
    }

    /// The radius of the square in which random points are placed.
    pub fn radius(&self) -> (r: i32)
        ensures
            r == self@.radius,
    {
        self.radius
    }

    /// Copies out the points, the tours and the scores together, so that each
    /// score in the copy is the score of the tour beside it.
    pub fn snapshot(&self) -> (seen: Snapshot)
        requires
            self.wf(),
        ensures
            seen.points@ == self@.points,
            seen.current_path@ == self@.current_path,
            seen.best_path@ == self@.best_path,
            seen.saved_path@ == self@.saved_path,
            seen.score == self@.score,
            seen.saved_score == self@.saved_score,
            scored(seen.best_path@, seen.score),
            scored(seen.saved_path@, seen.saved_score),
    {
        Snapshot {
            points: copy_path(&self.points),
            current_path: copy_path(&self.current_path),
            best_path: copy_path(&self.best_path),
            saved_path: copy_path(&self.saved_path),
            score: self.score,
            saved_score: self.saved_score,
        }
    }

    /// Whether `p` is one of the placed points.
    pub fn point_exists(&self, p: &Point) -> (found: bool)
        ensures
            found == self@.points.contains(*p),
    {
        let mut index: usize = 0;
        while index < self.points.len()
            invariant
                index <= self.points@.len(),
                forall|k: int| 0 <= k < index ==> self.points@[k] != *p,
            decreases self.points@.len() - index,
        {
            if self.points[index] == *p {
                return true;
            }
            index = index + 1;
        }
        false
    }

    /// Places `p` unless it is placed already, and says whether it did. A new
    /// point makes the current and the best tour void.
    pub fn add_point(&mut self, p: Point) -> (added: bool)
        requires
            old(self).wf(),
        ensures
            final(self).wf(),
            added == !old(self)@.points.contains(p),
            added ==> final(self)@ == old(self)@.with_points(old(self)@.points.push(p)),
            !added ==> final(self)@ == old(self)@,
    {
        if !self.point_exists(&p) {
            proof {
                lemma_push_fresh_point(self.points@, p);
            }
            self.points.push(p);
            self.reset_paths();
            assert(self.points.len() <= usize::MAX);
            return true;
        }
        false
    }

    /// Places a random point that is not placed yet, and says whether it did.
    /// It gives up when `MAX_PLACEMENT_ATTEMPTS` draws in a row all hit a placed
    /// point, and then changes nothing. The first point of a set is always placed.
    pub fn add_random_point(&mut self) -> (added: bool)
        requires
            old(self).wf(),
        ensures
            final(self).wf(),
            added ==> final(self)@ == old(self)@.with_points(
                old(self)@.points.push(final(self)@.points.last()),
            ) && final(self)@.points.last().within(old(self)@.radius) && !old(
                self,
            )@.points.contains(final(self)@.points.last()),
            !added ==> final(self)@ == old(self)@,
            old(self)@.points.len() == 0 ==> added,
    {
        let mut attempts: u32 = 0;
        while attempts < MAX_PLACEMENT_ATTEMPTS
            invariant
                self@ == old(self)@,
                self.wf(),
                attempts > 0 ==> old(self)@.points.len() > 0,
            decreases MAX_PLACEMENT_ATTEMPTS - attempts,
        {
            let new_point: Point = Point::generate_random(self.radius);
            if self.add_point(new_point) {
                assert(self@.points.last() == new_point);
                return true;
            }
            assert(old(self)@.points.contains(new_point));
            attempts = attempts + 1;
        }
        false
    }

    /// Places up to `n` random points, stops at the first that cannot be placed,
    /// and says how many it placed.
    pub fn add_random_points(&mut self, n: i32) -> (added: i32)
        requires
            old(self).wf(),
        ensures
            final(self).wf(),
            0 <= added,
            added <= n || added == 0,
            added == 0 ==> final(self)@ == old(self)@,
            added > 0 ==> final(self)@ == old(self)@.with_points(final(self)@.points),
            final(self)@.points.len() == old(self)@.points.len() + added,
            final(self)@.points.take(old(self)@.points.len() as int) == old(self)@.points,
            forall|k: int|
                old(self)@.points.len() <= k < final(self)@.points.len() ==> (
                #[trigger] final(self)@.points[k]).within(old(self)@.radius),
            n > 0 && old(self)@.points.len() == 0 ==> added > 0,
    {
        let mut added: i32 = 0;
        let ghost before = self@;
        assert(before.points.take(before.points.len() as int) =~= before.points);
        while added < n
            invariant
                self.wf(),
                before == old(self)@,
                0 <= added,
                added <= n || added == 0,
                added == 0 ==> self@ == before,
                added > 0 ==> self@ == before.with_points(self@.points),
                self@.points.len() == before.points.len() + added,
                self@.points.take(before.points.len() as int) == before.points,
                forall|k: int|
                    before.points.len() <= k < self@.points.len() ==> (#[trigger] self@.points[k]).within(
                        before.radius,
                    ),
            decreases n - added,
        {
            let ghost earlier = self@;
            if !self.add_random_point() {
                return added;
            }
            assert(self@.points.take(before.points.len() as int) =~= earlier.points.take(
                before.points.len() as int,
            ));
            added = added + 1;
        }
        added
    }

    /// Takes the most recently placed point away and makes the current and the
    /// best tour void. With no point placed it changes nothing.
    pub fn remove_last_point(&mut self)
        requires
            old(self).wf(),
        ensures
            final(self).wf(),
            old(self)@.points.len() == 0 ==> final(self)@ == old(self)@,
            old(self)@.points.len() > 0 ==> final(self)@ == old(self)@.with_points(
                old(self)@.points.drop_last(),
            ),
    {
        if self.points.len() > 0 {
            self.points.pop();
            self.reset_paths();
        }
    }

    /// Takes every point away and makes the current and the best tour void.
    pub fn clear_points(&mut self)
        requires
            old(self).wf(),
        ensures
            final(self).wf(),
            final(self)@ == old(self)@.with_points(Seq::empty()),
    {
        self.points = Vec::new();
        self.reset_paths();
    }

    /// Sets the best tour and its score aside.
    pub fn save_current_path(&mut self)
        requires
            old(self).wf(),
        ensures
            final(self).wf(),
            final(self)@ == old(self)@.saved(),
    {
        self.saved_path = copy_path(&self.best_path);
        self.saved_score = self.score;
    }

    /// Forgets the tour that was set aside.
    pub fn reset_saved_path(&mut self)
        requires
            old(self).wf(),
        ensures
            final(self).wf(),
            final(self)@ == old(self)@.unsaved(),
    {
        self.saved_path = Vec::new();
        self.saved_score = Score::Infinite;
    }

    /// Forgets the current and the best tour.
    pub fn reset_paths(&mut self)
        ensures
            final(self)@ == old(self)@.reset(),
            old(self).wf() ==> final(self).wf(),
    {
        self.current_path = Vec::new();
        self.best_path = Vec::new();
        self.score = Score::Infinite;
    }

    /// Forgets the current tour only.
    pub fn clear_current_path(&mut self)
        ensures
            final(self)@ == (PointManagerView { current_path: Seq::empty(), ..old(self)@ }),
            old(self).wf() ==> final(self).wf(),
    {
        self.current_path = Vec::new();
    }

    /// Offers a candidate tour: it becomes the current tour, and the best tour as
    /// well unless it is longer than the best so far.
    pub fn test_replace_new_path(&mut self, path: Vec<Point>)
        requires
            old(self).wf(),
            is_tour_of(path@, old(self)@.points),
        ensures
            final(self).wf(),
            final(self)@ == old(self)@.offered(path@),
            final(self)@.current_path == path@,
            final(self)@.score.at_most(old(self)@.score),
    {
        let new_score: Score = Score::Finite(evaluate_path(&path));
        if new_score.le(&self.score) {
            self.score = new_score;
            self.best_path = copy_path(&path);
        }
        self.current_path = path;
    }

    /// One step of the blind search: a random order of all points is offered.
    pub fn random_path_step(&mut self)
        requires
            old(self).wf(),
        ensures
            final(self).wf(),
            final(self)@ == old(self)@.offered(final(self)@.current_path),
            final(self)@.current_path.to_multiset() == old(self)@.points.to_multiset(),
            final(self)@.score.at_most(old(self)@.score),
    {
        let random_path = self.generate_random_path();
        self.test_replace_new_path(random_path);
    }

    /// All points in a random order.
    pub fn generate_random_path(&self) -> (path: Vec<Point>)
        ensures
            path@.to_multiset() == self@.points.to_multiset(),
            path@.len() == self@.points.len(),
    {
        let mut rng = rand::thread_rng();
        let mut random_path = copy_path(&self.points);
        shuffle(&mut rng, &mut random_path);
        random_path
    }

    /// One step of the relocation search: the best tour with `n` random
    /// relocations applied is offered. Without a best tour nothing happens.
    pub fn random_swap_step(&mut self, n: i32)
        requires
            old(self).wf(),
        ensures
            final(self).wf(),
            old(self)@.best_path.len() == 0 ==> final(self)@ == old(self)@,
            old(self)@.best_path.len() > 0 ==> final(self)@ == old(self)@.offered(
                final(self)@.current_path,
            ) && reached_by_relocations(
                old(self)@.best_path,
                final(self)@.current_path,
                rounds(n as int),
            ) && final(self)@.current_path.to_multiset() == old(self)@.best_path.to_multiset(),
            final(self)@.score.at_most(old(self)@.score),
    {
        if self.best_path.len() > 0 {
            let path = self.generate_random_swap(n);
            self.test_replace_new_path(path);
        }
    }

    /// The best tour after `n` times a point at a random position was taken out
    /// and put back at a random position.
    pub fn generate_random_swap(&self, n: i32) -> (path: Vec<Point>)
        ensures
            reached_by_relocations(self@.best_path, path@, rounds(n as int)),
            path@.to_multiset() == self@.best_path.to_multiset(),
            path@.len() == self@.best_path.len(),
    {
        let mut rng = rand::thread_rng();
        let mut path = copy_path(&self.best_path);
        let size: usize = path.len();
        if size > 1 {
            let ghost mut moves: Seq<(int, int)> = Seq::empty();
            let mut round: i32 = 0;
            while round < n
                invariant
                    size == self@.best_path.len(),
                    size > 1,
                    0 <= round,
                    round <= n || round == 0,
                    moves.len() == round,
                    relocations_fit(size as int, moves),
                    path@ == after_relocations(self@.best_path, moves),
                    path@.len() == size,
                decreases n - round,
            {
                let i: usize = uniform_in(&mut rng, 0, size as u64) as usize;
                let j: usize = uniform_in(&mut rng, 0, size as u64) as usize;
                relocate(&mut path, i, j);
                proof {
                    let longer = moves.push((i as int, j as int));
                    assert(longer.drop_last() =~= moves);
                    moves = longer;
                }
                round = round + 1;
            }
            proof {
                lemma_relocations_same_points(self@.best_path, moves);
            }
        }
        path
    }

    /// One step of the reversal search: the best tour with `n` random segments
    /// reversed is offered. Without a best tour nothing happens.
    pub fn random_connection_swap_step(&mut self, n: i32)
        requires
            old(self).wf(),
        ensures
            final(self).wf(),
            old(self)@.best_path.len() == 0 ==> final(self)@ == old(self)@,
            old(self)@.best_path.len() > 0 ==> final(self)@ == old(self)@.offered(
                final(self)@.current_path,
            ) && reached_by_reversals(
                old(self)@.best_path,
                final(self)@.current_path,
                rounds(n as int),
            ) && final(self)@.current_path.to_multiset() == old(self)@.best_path.to_multiset(),
            final(self)@.score.at_most(old(self)@.score),
    {
        if self.best_path.len() > 0 {
            let path = self.generate_random_connection_swap(n);
            self.test_replace_new_path(path);
        }
    }

    /// The best tour after `n` times a random segment of it was reversed. Each
    /// segment starts before the last position.
    pub fn generate_random_connection_swap(&self, n: i32) -> (path: Vec<Point>)
        ensures
            reached_by_reversals(self@.best_path, path@, rounds(n as int)),
            path@.to_multiset() == self@.best_path.to_multiset(),
            path@.len() == self@.best_path.len(),
    {
        let mut rng = rand::thread_rng();
        let mut path = copy_path(&self.best_path);
        let size: usize = path.len();
        if size > 1 {
            let ghost mut moves: Seq<(int, int)> = Seq::empty();
            let mut round: i32 = 0;
            while round < n
                invariant
                    size == self@.best_path.len(),
                    size > 1,
                    0 <= round,
                    round <= n || round == 0,
                    moves.len() == round,
                    reversals_fit(size as int, moves),
                    path@ == after_reversals(self@.best_path, moves),
                    path@.len() == size,
                decreases n - round,
            {
                let i: usize = uniform_in(&mut rng, 0, (size - 1) as u64) as usize;
                let j: usize = uniform_in(&mut rng, i as u64, size as u64) as usize;
                reverse_segment(&mut path, i, j);
                proof {
                    let longer = moves.push((i as int, j as int));
                    assert(longer.drop_last() =~= moves);
                    moves = longer;
                }
                round = round + 1;
            }
            proof {
                lemma_reversals_same_points(self@.best_path, moves);
            }
        }
        path
    }

    /// Replaces the best tour by the one that the shrinking circle builds.
    pub fn set_radial_path(&mut self)
        requires
            old(self).wf(),
        ensures
            final(self).wf(),
            final(self)@ == (PointManagerView {
                best_path: old(self)@.radial_path(),
                score: Score::Finite(tour_length(old(self)@.radial_path()) as u128),
                ..old(self)@
            }),
            final(self)@.best_path.to_multiset() == old(self)@.points.to_multiset(),
    {
        self.best_path = self.generate_radial_path();
        self.score = Score::Finite(evaluate_path(&self.best_path));
    }

    /// The tour that the shrinking circle builds over the placed points.
    pub fn generate_radial_path(&self) -> (path: Vec<Point>)
        requires
            self.wf(),
        ensures
            path@ == self@.radial_path(),
            path@.to_multiset() == self@.points.to_multiset(),
    {
        let start: u64 = self.radius as u64 + self.margin as u64;
        generate_radial_path(&self.points, start, self.step as u64)
    }
}

impl PointManagerView {
    /// The tour that the shrinking circle builds over the placed points.
    pub open spec fn radial_path(self) -> Seq<Point> {
        radial_tour(self.points, Seq::empty(), self.start_radius(), self.step)
    }
}

} // verus!
