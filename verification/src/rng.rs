//! The one randomness primitive the simulation draws from.

use vstd::prelude::*;
use rand::Rng;

verus! {

/// Relies on `rand::Rng::random_range` over an `i64` range: the result lies
/// in `[lo, hi)`; the call panics only on an empty range, which the
/// precondition rules out.
#[verifier::external_body]
pub(crate) fn rand_range_i64(lo: i64, hi: i64) -> (r: i64)
    requires
        lo < hi,
    ensures
        lo <= r < hi,
{
    rand::rng().random_range(lo..hi)
}

} // verus!
