//! The random draws of the game, taken from the thread-local generator of `rand`.
use rand::seq::SliceRandom;
use rand::Rng;
use vstd::prelude::*;

verus! {

/// Calls `SliceRandom::shuffle` of `rand` on the slice of the vector, with the
/// generator that `rand::thread_rng` hands out. The shuffle only swaps elements
/// of the slice, so the items afterwards are the items before in some order.
#[verifier::external_body]
pub(crate) fn shuffle<T>(items: &mut Vec<T>)
    ensures
        final(items)@.to_multiset() == old(items)@.to_multiset(),
        final(items)@.len() == old(items)@.len(),
{
    items.shuffle(&mut rand::thread_rng());
}

/// Calls `Rng::gen_range` of `rand` with the half-open range `0..bound`, on the
/// generator that `rand::thread_rng` hands out. The call panics on an empty
/// range, which `bound > 0` rules out; the value lies in the range.
#[verifier::external_body]
pub(crate) fn random_below(bound: usize) -> (r: usize)
    requires
        bound > 0,
    ensures
        r < bound,
{
    rand::thread_rng().gen_range(0..bound)
}

} // verus!
