//! Random draws, by way of `rand`.

use rand::Rng;
use vstd::prelude::*;

verus! {

/// Trusted: `Rng::gen_range` on the thread-local generator, over `0..bound`.
/// The draw is random; all that is promised is that it lies in the range.
/// `rand` panics on an empty range, hence the precondition.
#[verifier::external_body]
pub(crate) fn random_below(bound: u128) -> (ticket: u128)
    requires
        bound > 0,
    ensures
        ticket < bound,
{
    rand::thread_rng().gen_range(0..bound)
}

} // verus!
