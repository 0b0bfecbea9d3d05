use vstd::prelude::*;

use rand::Rng;

verus! {

/// Relies on `rand::Rng::gen_range` over the half-open range `min..max`:
/// it returns a value uniformly distributed in that range, and panics when
/// the range is empty, which the precondition rules out. Nothing beyond
/// membership in the range can be promised of a random value.
#[verifier::external_body]
pub fn get_random_number(min: usize, max: usize) -> (n: usize)
    requires
        min < max,
    ensures
        min <= n < max,
{
    let mut rng = rand::thread_rng();
    rng.gen_range(min..max)
}

} // verus!
