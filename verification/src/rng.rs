//! The library's single source of randomness.

use vstd::prelude::*;

verus! {

/// Draw a random value below `bound`.
///
/// Relies on `rand::thread_rng` and `rand::Rng::gen_range`: sampling the
/// half-open range `0..bound` yields a value strictly below `bound`, and
/// panics only on an empty range, which the precondition rules out.
/// Nothing is assumed about which value comes back.
#[verifier::external_body]
pub(crate) fn rand_below(bound: u64) -> (r: u64)
    requires
        bound >= 1,
    ensures
        r < bound,
{
    rand::Rng::gen_range(&mut rand::thread_rng(), 0..bound)
}

} // verus!
