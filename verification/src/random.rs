//! Random choices, drawn from the thread's random number generator.

use vstd::prelude::*;

verus! {

/// Draws a number below `bound` with `rand::Rng::gen_range` on the generator
/// that `rand::thread_rng` returns, over the range `0..bound`. The range must
/// not be empty. Of the number drawn only its range is known: it is at least
/// `0` and less than `bound`.
#[verifier::external_body]
pub(crate) fn random_below(bound: usize) -> (drawn: usize)
    requires
        bound > 0,
    ensures
        drawn < bound,
{
    rand::Rng::gen_range(&mut rand::thread_rng(), 0..bound)
}

} // verus!
