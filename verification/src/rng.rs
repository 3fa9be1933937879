//! Trusted wrappers around the random number generator used for sampling.
//!
//! The generator is an HC-128 stream seeded through an ISAAC-64 generator
//! that is itself seeded from the operating system's random source, so no
//! seed is user-controlled and no outcome is reproducible across calls.

use vstd::prelude::*;

use rand::RngExt;
use rand::SeedableRng;
use rand::seq::SliceRandom;
use rand_hc::Hc128Rng;
use rand_isaac::Isaac64Rng;

verus! {

#[verifier::external_type_specification]
#[verifier::external_body]
pub struct ExHc128Rng(Hc128Rng);

#[verifier::external_type_specification]
#[verifier::external_body]
pub struct ExIsaac64Rng(Isaac64Rng);

/// Relies on `Isaac64Rng::try_from_rng` over the operating system's `SysRng`:
/// it yields a generator seeded from OS entropy. The result is random, so
/// nothing is promised of it. Aborts only if the OS random source itself
/// fails.
#[verifier::external_body]
pub(crate) fn new_seeder() -> Isaac64Rng {
    Isaac64Rng::try_from_rng(&mut rand::rngs::SysRng).expect("OS random source unavailable")
}

/// Relies on `Hc128Rng::from_rng`: it yields an HC-128 generator seeded from
/// the given generator's output. The result depends on that random state, so
/// nothing is promised of it.
#[verifier::external_body]
pub(crate) fn seeded_rng(seeder: &mut Isaac64Rng) -> Hc128Rng {
    Hc128Rng::from_rng(seeder)
}

/// Relies on `RngExt::random_range` over `0..n`: every sample lies in the
/// range. The call panics on an empty range, hence the precondition.
#[verifier::external_body]
pub(crate) fn rng_index(rng: &mut Hc128Rng, n: usize) -> (r: usize)
    requires
        n >= 1,
    ensures
        r < n,
{
    rng.random_range(0..n)
}

/// Relies on `SliceRandom::shuffle`: it permutes the slice in place, so the
/// length and the multiset of elements are kept. Which permutation comes out
/// is random, so nothing more is promised.
#[verifier::external_body]
pub(crate) fn shuffle_chars(rng: &mut Hc128Rng, v: &mut Vec<char>)
    ensures
        final(v)@.len() == old(v)@.len(),
        final(v)@.to_multiset() == old(v)@.to_multiset(),
{
    v.shuffle(rng)
}

} // verus!
