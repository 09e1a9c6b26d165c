use rand::rngs::StdRng;
use rand::seq::SliceRandom;
use rand::{Rng, SeedableRng};
use vstd::prelude::*;

verus! {

/// `rand::rngs::StdRng`, the generator that prover and verifier draw from. It
/// is cryptographically secure, seeded once when it is made and never reseeded.
/// Nothing is known of its state.
#[verifier::external_type_specification]
#[verifier::external_body]
pub struct ExStdRng(StdRng);

/// `StdRng::from_entropy`: a generator seeded from the operating system.
/// Nothing is claimed of it.
#[verifier::external_body]
pub(crate) fn entropy_rng() -> (rng: StdRng) {
    StdRng::from_entropy()
}

/// `Rng::gen` at `[u8; 32]`: 32 bytes drawn from the generator. Nothing is
/// claimed of them.
#[verifier::external_body]
pub(crate) fn random_bytes32(rng: &mut StdRng) -> (bytes: [u8; 32]) {
    rng.gen()
}

/// `SliceRandom::shuffle`: reorders `values` in place by swaps, so the same
/// items are there afterwards, each as often as before.
#[verifier::external_body]
pub(crate) fn shuffle(rng: &mut StdRng, values: &mut Vec<u8>)
    ensures
        final(values)@.to_multiset() == old(values)@.to_multiset(),
{
    values.shuffle(rng)
}

/// `Rng::gen_range` on `low..=high`: a number in that range. The outside
/// function panics on an empty range, which `requires` leaves out.
#[verifier::external_body]
pub(crate) fn random_in_range(rng: &mut StdRng, low: usize, high: usize) -> (n: usize)
    requires
        low <= high,
    ensures
        low <= n <= high,
{
    rng.gen_range(low..=high)
}

} // verus!
