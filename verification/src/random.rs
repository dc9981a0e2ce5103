//! The one place where the renderer draws random numbers.

use rand::Rng;
use vstd::prelude::*;

verus! {

/// Draws one raw value from the half-open range `[low, high)`.
///
/// This is `rand::Rng::gen_range` on the generator that
/// `rand::thread_rng` hands out. That function panics unless
/// `low < high`, and returns `low` plus an offset below `high - low`; the
/// contract claims nothing more than the range.
#[verifier::external_body]
pub(crate) fn uniform_raw(low: i64, high: i64) -> (r: i64)
    requires
        low < high,
    ensures
        low <= r < high,
{
    rand::thread_rng().gen_range(low, high)
}

} // verus!
