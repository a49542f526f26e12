//! The run controller: which search is running, and what one turn of it does.

use vstd::prelude::*;
use crate::point_manager::{PointManager, PointManagerView};
use crate::tour::{reached_by_relocations, reached_by_reversals, rounds};

verus! {

/// The search that is running, if any.
#[derive(Clone, Copy, Debug, PartialEq, Eq, Structural)]
pub enum RunMode {
    Idle,
    GenerateRandom,
    RandomPointSwap,
    RandomPathSwap,
}

/// The greatest number of moves that one step may combine.
pub const MAX_SWAP_N: i32 = 5;

/// The least time, in microseconds, between two requests to draw again.
pub const REDRAW_INTERVAL_MICROS: u64 = 1_000;

/// The mode and the tuning that the search loop reads before each turn.
#[derive(Clone, Copy, Debug)]
pub struct RunController {
    mode: RunMode,
    swap_n: i32,
}

/// What a `RunController` holds.
pub struct RunControllerView {
    pub mode: RunMode,
    pub swap_n: int,
}

impl View for RunController {
    type V = RunControllerView;

    closed spec fn view(&self) -> RunControllerView {
        RunControllerView { mode: self.mode, swap_n: self.swap_n as int }
    }
}

/// `n` brought into the range from zero to `MAX_SWAP_N`.
pub open spec fn clamped_swap_n(n: int) -> int {
    if n < 0 {
        0
    } else if n > MAX_SWAP_N {
        MAX_SWAP_N as int
    } else {
        n
    }
}

/// Whether a request to draw again is due, `elapsed_micros` after the last one.
pub fn redraw_due(elapsed_micros: u64) -> (due: bool)
    ensures
        due == (elapsed_micros >= REDRAW_INTERVAL_MICROS),
{
    elapsed_micros >= REDRAW_INTERVAL_MICROS
}

impl RunController {
    /// The number of moves per step is in its range.
    pub open spec fn wf(&self) -> bool {
        0 <= self@.swap_n <= MAX_SWAP_N
    }

    /// A controller at rest, with one move per step.
    pub fn new() -> (c: RunController)
        ensures
            c.wf(),
            c@ == (RunControllerView { mode: RunMode::Idle, swap_n: 1 }),
    {
        RunController { mode: RunMode::Idle, swap_n: 1 }
    }

    /// The search that is running.
    pub fn mode(&self) -> (m: RunMode)
        ensures
            m == self@.mode,
    {
        self.mode
    }

    /// The number of moves that one step combines.
    pub fn swap_n(&self) -> (n: i32)
        ensures
            n == self@.swap_n,
    {
        self.swap_n
    }

    /// Starts the given search, or stops the search with `RunMode::Idle`.
    pub fn set_mode(&mut self, mode: RunMode)
        ensures
            final(self)@ == (RunControllerView { mode, ..old(self)@ }),
    {
        self.mode = mode;
    }

    /// Stops the search: the controller comes to rest and the current tour is
    /// forgotten. The best tour and its score stay.
    pub fn stop(&mut self, point_manager: &mut PointManager)
        ensures
            final(self)@ == (RunControllerView { mode: RunMode::Idle, ..old(self)@ }),
            final(point_manager)@ == (PointManagerView {
                current_path: Seq::empty(),
                ..old(point_manager)@
            }),
            old(point_manager).wf() ==> final(point_manager).wf(),
    {
        self.mode = RunMode::Idle;
        point_manager.clear_current_path();
    }

    /// Sets the number of moves per step, brought into its range.
    pub fn set_swap_n(&mut self, n: i32)
        ensures
            final(self)@ == (RunControllerView { swap_n: clamped_swap_n(n as int), ..old(self)@ }),
            final(self).wf(),
    {
        self.swap_n = if n < 0 {
            0
        } else if n > MAX_SWAP_N {
            MAX_SWAP_N
        } else {
            n
        };
    }

    /// One turn of the search loop: the step of the running search, or, at rest,
    /// forgetting the current tour.
    pub fn step(&self, point_manager: &mut PointManager)
        requires
            old(point_manager).wf(),
        ensures
            final(point_manager).wf(),
            turn_taken(self@, old(point_manager)@, final(point_manager)@),
            final(point_manager)@.score.at_most(old(point_manager)@.score),
    {
        match self.mode {
            RunMode::GenerateRandom => {
                point_manager.random_path_step();
            },
            RunMode::RandomPointSwap => {
                point_manager.random_swap_step(self.swap_n);
            },
            RunMode::RandomPathSwap => {
                point_manager.random_connection_swap_step(self.swap_n);
            },
            RunMode::Idle => {
                point_manager.clear_current_path();
                assert(point_manager@.current_path.len() == 0);
            },
        }
    }
}

/// How one turn of the search loop changes the state, whatever chance decided.
///
/// At rest only the current tour goes. The blind search offers an order of all
/// points. The other two offer a rearranged best tour, and do nothing where
/// there is no best tour.
pub open spec fn turn_taken(
    controller: RunControllerView,
    before: PointManagerView,
    after: PointManagerView,
) -> bool {
    match controller.mode {
        RunMode::Idle => after == (PointManagerView { current_path: Seq::empty(), ..before }),
        RunMode::GenerateRandom => after == before.offered(after.current_path)
            && after.current_path.to_multiset() == before.points.to_multiset(),
        RunMode::RandomPointSwap => if before.best_path.len() == 0 {
            after == before
        } else {
            after == before.offered(after.current_path) && reached_by_relocations(
                before.best_path,
                after.current_path,
                rounds(controller.swap_n),
            )
        },
        RunMode::RandomPathSwap => if before.best_path.len() == 0 {
            after == before
        } else {
            after == before.offered(after.current_path) && reached_by_reversals(
                before.best_path,
                after.current_path,
                rounds(controller.swap_n),
            )
        },
    }
}

} // verus!
