//! A random generator that carries the seed it was made from. Its fields are
//! private to this module, so the generator can only be made from its seed
//! here, and taken out whole.

use vstd::prelude::*;
use rand::rngs::StdRng;
use rand::SeedableRng;

verus! {

/// A random generator together with the seed it was made from.
pub struct SeededRng {
    rng: StdRng,
    seed: Ghost<u64>,
}

impl SeededRng {
    /// The seed that the generator was made from.
    pub closed spec fn seed(&self) -> u64 {
        self.seed@
    }

    /// The generator, to draw from; its seed is [`SeededRng::seed`].
    pub fn into_rng(self) -> StdRng {
        self.rng
    }
}

/// `rand::SeedableRng::seed_from_u64` for `StdRng`: the generator that
/// `seed_from_u64` makes from `value` (the same value always gives the same
/// generator), tagged with that value.
#[verifier::external_body]
pub(crate) fn seeded_rng_from(value: u64) -> (r: SeededRng)
    ensures
        r.seed() == value,
{
    SeededRng { rng: StdRng::seed_from_u64(value), seed: Ghost(value) }
}

} // verus!
