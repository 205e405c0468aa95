//! The random source of the circle walk.
//!
//! Randomness comes from the `rand` crate. Nothing here says which outcome a
//! call has, only what every outcome has in common, so what is proved of the
//! walk holds however the dice fall.

use rand::rngs::StdRng;
use rand::seq::SliceRandom;
use rand::Rng;
use vstd::prelude::*;

verus! {

/// `rand::rngs::StdRng`, the generator handed to the walk. Opaque: a walk is
/// reproducible where the caller seeds the generator.
#[verifier::external_type_specification]
#[verifier::external_body]
pub struct ExStdRng(StdRng);

/// Calls `rand::seq::SliceRandom::shuffle` on the items.
///
/// The shuffle only swaps items among themselves, so afterwards the vector
/// holds the same items, each as often as before; their order is not stated.
#[verifier::external_body]
pub(crate) fn shuffle<T>(items: &mut Vec<T>, rng: &mut StdRng)
    ensures
        final(items)@.to_multiset() == old(items)@.to_multiset(),
{
    items.shuffle(rng);
}

/// Calls `rand::Rng::gen_range` for the range from zero up to, not including,
/// `bound`.
///
/// The call panics on an empty range, which `bound > 0` rules out; the number
/// it gives lies in the range.
#[verifier::external_body]
pub(crate) fn random_below(rng: &mut StdRng, bound: usize) -> (index: usize)
    requires
        bound > 0,
    ensures
        index < bound,
{
    rng.gen_range(0..bound)
}

} // verus!
