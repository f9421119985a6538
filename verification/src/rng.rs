//! Seeded random number generation, through the `rand` crate.

use vstd::prelude::*;
use rand::rngs::StdRng;
use rand::seq::SliceRandom;
use rand::Rng;
use std::collections::hash_map::DefaultHasher;
use std::hash::Hash;
use std::hash::Hasher;
use vstd::std_specs::hash::DefaultHasherAdditionalSpecFns;
use crate::seeded::{seeded_rng_from, SeededRng};

verus! {

#[verifier::external_type_specification]
#[verifier::external_body]
pub struct ExStdRng(StdRng);

/// `rand::Rng::gen::<usize>` on the given generator: any `usize` may come back,
/// so nothing is stated of the result.
#[verifier::external_body]
pub(crate) fn random_usize(rng: &mut StdRng) -> usize {
    rng.gen::<usize>()
}

/// `rand::Rng::gen_range(low..high)`: the result lies in the half-open range.
/// The range must not be empty (the call panics on an empty range).
#[verifier::external_body]
pub(crate) fn random_in_range(rng: &mut StdRng, low: usize, high: usize) -> (r: usize)
    requires
        low < high,
    ensures
        low <= r < high,
{
    rng.gen_range(low..high)
}

/// `rand::seq::SliceRandom::shuffle`: it only swaps elements, so the result
/// holds the same elements as before, in some order.
#[verifier::external_body]
pub(crate) fn shuffle_in_place<X>(items: &mut Vec<X>, rng: &mut StdRng)
    ensures
        final(items)@.to_multiset() == old(items)@.to_multiset(),
{
    items.shuffle(rng)
}

/// The writes that `str`'s `Hash` impl makes into a hasher for a text. They
/// depend on the text alone. Computed by std.
pub uninterp spec fn str_hash_writes(text: Seq<char>) -> Seq<Seq<u8>>;

/// `<str as std::hash::Hash>::hash` into a `DefaultHasher`: it adds the writes
/// for the text to what the hasher was given before.
#[verifier::external_body]
fn hash_str_into(text: &str, hasher: &mut DefaultHasher)
    ensures
        final(hasher)@ == old(hasher)@ + str_hash_writes(text@),
{
    text.hash(hasher)
}

/// The 64-bit hash that a fresh `DefaultHasher` gives a text. Every hasher
/// made by `DefaultHasher::new` starts alike, so it depends on the text alone
/// (for one release of std, which does not promise it across releases).
pub open spec fn text_hash(text: Seq<char>) -> u64 {
    DefaultHasher::spec_finish(str_hash_writes(text))
}

/// Hashes a text with a fresh `DefaultHasher`.
pub(crate) fn hash_text(text: &str) -> (r: u64)
    ensures
        r == text_hash(text@),
{
    let mut hasher = DefaultHasher::new();
    hash_str_into(text, &mut hasher);
    proof {
        assert(hasher@ =~= str_hash_writes(text@));
    }
    hasher.finish()
}

/// The seed used when none is given.
pub const DEFAULT_SEED: u64 = 123456789;

/// The seed for a random generator: the hash of the given text, or
/// [`DEFAULT_SEED`] when there is none.
pub open spec fn seed_value_of(seed: Option<&str>) -> u64 {
    match seed {
        Some(text) => text_hash(text@),
        None => DEFAULT_SEED,
    }
}

/// The seed for a random generator: the hash of the given text, or
/// [`DEFAULT_SEED`] when there is none.
pub fn seed_value(seed: Option<&str>) -> (r: u64)
    ensures
        r == seed_value_of(seed),
{
    match seed {
        Some(text) => hash_text(text),
        None => DEFAULT_SEED,
    }
}

/// A random generator seeded by [`seed_value`]: from the hash of the given
/// text, or from [`DEFAULT_SEED`] when there is none.
pub fn create_seeded_rng(seed: Option<&str>) -> (r: SeededRng)
    ensures
        r.seed() == seed_value_of(seed),
{
    let value = seed_value(seed);
    seeded_rng_from(value)
}

} // verus!
