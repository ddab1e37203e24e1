//! The injectable randomness capability: a seeded generator from the `rand`
//! crate, reached through trusted declarations. Only the bound on a noise
//! draw is ever relied on; no draw's value is promised.

use vstd::prelude::*;

verus! {

use crate::fixed::SCALE;

#[verifier::external_type_specification]
#[verifier::external_body]
pub struct ExStdRng(rand::rngs::StdRng);

/// Relies on rand's `SeedableRng::seed_from_u64`: builds a generator
/// deterministically from a seed. Nothing is promised of the value.
#[verifier::external_body]
pub(crate) fn rng_from_seed(seed: u64) -> rand::rngs::StdRng {
    <rand::rngs::StdRng as rand::SeedableRng>::seed_from_u64(seed)
}

/// Relies on rand's `Rng::next_u64`: returns the generator's next value.
/// Nothing can be promised of a random draw.
#[verifier::external_body]
fn rng_next(rng: &mut rand::rngs::StdRng) -> u64 {
    rand::Rng::next_u64(rng)
}

/// One noise draw, reduced into `[-SCALE, SCALE)` fixed-point units (a draw
/// from the half-open interval `[-1, 1)`). Only the bound is promised; the
/// value is random.
pub fn draw_noise(rng: &mut rand::rngs::StdRng) -> (noise: i64)
    ensures
        -SCALE <= noise < SCALE,
{
    let raw: u64 = rng_next(rng);
    let reduced: u64 = raw % 2_000_000u64;
    (reduced as i64) - SCALE
}

} // verus!
