use rand::Rng;
use vstd::prelude::*;

verus! {

/// One boolean from `rand::thread_rng()` by `Rng::gen::<bool>`.
///
/// Trusted, not verified.  The value depends on the generator's state, so
/// nothing is claimed of it: callers must be correct for either outcome.
#[verifier::external_body]
pub(crate) fn random_bool() -> bool {
    rand::thread_rng().gen::<bool>()
}

/// One number from `rand::thread_rng()` by `Rng::gen_range(0..bound)`.
///
/// Trusted, not verified.  The outside function panics on an empty range,
/// which `bound > 0` rules out, and samples from the half-open range it is
/// given, so the result lies below `bound`.  Which number comes back is left
/// open.
#[verifier::external_body]
pub(crate) fn random_below(bound: usize) -> (n: usize)
    requires
        bound > 0,
    ensures
        n < bound,
{
    rand::thread_rng().gen_range(0..bound)
}

} // verus!
