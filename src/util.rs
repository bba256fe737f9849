//! The random source.
use vstd::prelude::*;
use rand::rngs::StdRng;

verus! {

#[verifier::external_type_specification]
#[verifier::external_body]
pub struct ExStdRng(StdRng);

/// Relies on rand's `Rng::random_range`: a uniformly drawn value of `[min, max)`.
/// It panics on an empty range, which `requires` rules out.
#[verifier::external_body]
pub fn random(min: i64, max: i64, rng: &mut StdRng) -> (r: i64)
    requires
        min < max,
    ensures
        min <= r < max,
{
    rand::Rng::random_range(rng, min..max)
}

} // verus!
