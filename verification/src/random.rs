//! The source of random integers that the genetic operators draw from.

use vstd::prelude::*;
use rand::Rng;
use crate::error::EvolutionError;

verus! {

/// `rand::Rng::gen_range` on the generator that `rand::thread_rng` hands out,
/// at `i64`. Trusted: the value lies in the half-open range from `low` to
/// `high`. The call panics on an empty range, which the precondition keeps out.
/// Which value of the range comes back is left open.
#[verifier::external_body]
pub(crate) fn thread_gen_range(low: i64, high: i64) -> (value: i64)
    requires
        low < high,
    ensures
        low <= value < high,
{
    rand::thread_rng().gen_range(low, high)
}

/// Draws an integer from `low` up to, but not including, `high`. An empty
/// range is refused.
pub fn uniform_int(low: i64, high: i64) -> (r: Result<i64, EvolutionError>)
    ensures
        r is Ok <==> low < high,
        r matches Ok(value) ==> low <= value < high,
        r matches Err(e) ==> e == EvolutionError::Configuration,
{
    if low < high {
        Ok(thread_gen_range(low, high))
    } else {
        Err(EvolutionError::Configuration)
    }
}

} // verus!
