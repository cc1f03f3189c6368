//! Drawing numbers by chance.

use vstd::prelude::*;
use rand::Rng;

verus! {

/// Draws one of the numbers from `low` up to, but not including, `high`.
///
/// This is `Rng::gen_range` of the `rand` crate, on the generator that
/// `rand::thread_rng` hands out. `gen_range` panics unless `low < high`, and
/// returns a number of the half-open range; which one is left to chance, so
/// nothing more is said of it here.
#[verifier::external_body]
pub(crate) fn draw_between(low: i64, high: i64) -> (r: i64)
    requires
        low < high,
    ensures
        low <= r < high,
{
    rand::thread_rng().gen_range(low, high)
}

} // verus!
