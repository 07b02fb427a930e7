use rand::Rng;
use vstd::prelude::*;

verus! {

/// Draws an integer from `low..=high` with `rand::Rng::gen_range`, on the
/// generator that `rand::thread_rng` hands out.
///
/// Trusted: the draw lies in the range asked for. `gen_range` panics on an
/// empty range, which `requires` leaves out. Which value comes back is not
/// stated: two draws from one range may differ.
#[verifier::external_body]
pub(crate) fn random_in_range(low: usize, high: usize) -> (drawn: usize)
    requires
        low <= high,
    ensures
        low <= drawn <= high,
{
    rand::thread_rng().gen_range(low..=high)
}

} // verus!
