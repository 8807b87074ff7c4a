//! The one source of chance: a seeded generator, and draws from a range.

use rand::rngs::StdRng;
use rand::{Rng, SeedableRng};
use vstd::prelude::*;

verus! {

/// The seeded generator of the `rand` crate. Nothing is known of what it
/// holds.
#[verifier::external_type_specification]
#[verifier::external_body]
pub struct ExStdRng(StdRng);

/// Calls `SeedableRng::seed_from_u64` for `StdRng`. Nothing is claimed of
/// the generator that comes back.
#[verifier::external_body]
pub(crate) fn seeded(seed: u64) -> StdRng {
    StdRng::seed_from_u64(seed)
}

/// Calls `Rng::gen_range` on the half-open range from `low` to `high`. The
/// call panics on an empty range, which the precondition leaves out; what it
/// hands back lies in the range, and that is all that is claimed of it.
#[verifier::external_body]
pub(crate) fn draw(rng: &mut StdRng, low: i64, high: i64) -> (value: i64)
    requires
        low < high,
    ensures
        low <= value < high,
{
    rng.gen_range(low..high)
}

} // verus!
