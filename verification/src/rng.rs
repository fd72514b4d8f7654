//! The single point where the library draws randomness.
use vstd::prelude::*;

verus! {

/// Relies on `rand::random`: a machine word drawn from the thread-local
/// generator. Nothing can be promised of a random value, so the contract only
/// fixes the type.
#[verifier::external_body]
pub(crate) fn random_u64() -> u64 {
    rand::random::<u64>()
}

/// Draw a value strictly below `bound`.
pub(crate) fn random_u64_below(bound: u64) -> (r: u64)
    requires
        bound > 0,
    ensures
        r < bound,
{
    random_u64() % bound
}

} // verus!
