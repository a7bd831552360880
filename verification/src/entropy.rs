//! The random draws the mutation engine consumes, behind trusted wrappers
//! over the rand crate. Nothing is promised of which outcome comes back,
//! only what holds of every outcome.

use vstd::prelude::*;

use crate::marker::Marker;
use rand::seq::SliceRandom;
use rand::Rng;

verus! {

/// Relies on rand's `thread_rng` and `Rng::gen_range`: a uniform draw from
/// the half-open range below `n`. `gen_range` panics on an empty range, so
/// `n` must be positive.
#[verifier::external_body]
pub(crate) fn draw_index(n: usize) -> (r: usize)
    requires
        n >= 1,
    ensures
        r < n,
{
    rand::thread_rng().gen_range(0, n)
}

/// Relies on rand's `SliceRandom::shuffle`: a uniform in-place permutation
/// of the slice. The markers are kept, only their order changes.
#[verifier::external_body]
pub(crate) fn shuffle_markers(markers: &mut Vec<Marker>)
    ensures
        final(markers)@.len() == old(markers)@.len(),
        final(markers)@.to_multiset() == old(markers)@.to_multiset(),
{
    markers.shuffle(&mut rand::thread_rng());
}

} // verus!
