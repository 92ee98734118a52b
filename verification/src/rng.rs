use rand::Rng;
use vstd::prelude::*;

verus! {

/// Relies on rand's `Rng::gen_range`, called on `thread_rng()` with a
/// half-open integer range: it returns a value sampled uniformly from
/// `[low, high)` and panics only on an empty range, which the precondition
/// rules out. Nothing more is assumed: the draw is random, so the contract
/// states only what holds of every outcome.
#[verifier::external_body]
pub(crate) fn sample_range(low: i64, high: i64) -> (r: i64)
    requires
        low < high,
    ensures
        low <= r < high,
{
    rand::thread_rng().gen_range(low..high)
}

} // verus!
