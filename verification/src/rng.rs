//! The random number generator that card draws and the random mover use.
//!
//! Nothing here is verified: each function hands one call to `tinyrand` or
//! `tinyrand_std` and states what that crate's source shows of the result.

use tinyrand::{Rand, RandRange, Seeded, StdRand};
use tinyrand_std::ClockSeed;
use vstd::prelude::*;

verus! {

/// `tinyrand::Wyrand`, the generator that `StdRand` names. Nothing of its
/// state is visible here.
#[verifier::external_type_specification]
#[verifier::external_body]
pub struct ExWyrand(tinyrand::Wyrand);

/// Calls `ClockSeed::next_u64`, which folds the nanoseconds since the Unix
/// epoch into 64 bits, and fails on a clock that is set before that epoch.
/// The value depends on the clock, so nothing is claimed of it.
#[verifier::external_body]
pub(crate) fn clock_seed() -> u64 {
    ClockSeed.next_u64()
}

/// Calls `Seeded::seed` for `StdRand`, which stores the seed as the
/// generator's state. The generator is opaque here, so nothing is claimed of
/// it.
#[verifier::external_body]
pub(crate) fn seeded(seed: u64) -> StdRand {
    StdRand::seed(seed)
}

/// Calls `RandRange::next_range` on `start..end`. The crate refuses an empty
/// range; for any other it draws until a draw falls outside the part of the
/// generator's range that would favour some numbers, and returns `start`
/// plus a number below `end - start`. Which one depends on the generator's
/// state, of which nothing is known here.
#[verifier::external_body]
pub(crate) fn next_in_range(rng: &mut StdRand, start: usize, end: usize) -> (n: usize)
    requires
        start < end,
    ensures
        start <= n < end,
{
    rng.next_range(start..end)
}

} // verus!
