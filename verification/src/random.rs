//! The library's only source of chance: the generator of the running thread.

use vstd::prelude::*;
use rand::rngs::ThreadRng;
use rand::seq::SliceRandom;
use rand::Rng;
use crate::point::Point;

verus! {

/// `rand::rngs::ThreadRng`, the handle to the generator of the running thread.
/// Nothing is known of its state.
#[verifier::external_type_specification]
#[verifier::external_body]
pub struct ExThreadRng(rand::rngs::ThreadRng);

/// `rand::thread_rng` hands out the handle to the thread's generator. Nothing is
/// claimed of it.
pub assume_specification[ rand::thread_rng ]() -> (rng: ThreadRng)
;

/// Draws a number from `lo..hi` with `rand::Rng::gen_range`.
///
/// Trusted: the draw lies in the half-open range. The range must not be empty,
/// because `gen_range` panics on an empty one.
#[verifier::external_body]
pub(crate) fn uniform_in(rng: &mut ThreadRng, lo: u64, hi: u64) -> (r: u64)
    requires
        lo < hi,
    ensures
        lo <= r < hi,
{
    rng.gen_range(lo..hi)
}

/// Reorders `tour` in place with `rand::seq::SliceRandom::shuffle`.
///
/// Trusted: the shuffle only swaps elements, so the same points are there
/// afterwards, each as often as before.
#[verifier::external_body]
pub(crate) fn shuffle(rng: &mut ThreadRng, tour: &mut Vec<Point>)
    ensures
        final(tour)@.to_multiset() == old(tour)@.to_multiset(),
        final(tour)@.len() == old(tour)@.len(),
{
    tour.shuffle(rng);
}

} // verus!
