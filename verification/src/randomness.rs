//! The source of randomness: a seeded generator that the caller supplies.

use ark_std::rand::rngs::StdRng;
use ark_std::rand::RngCore;
use vstd::prelude::*;

verus! {

/// The seeded generator `rand::rngs::StdRng`, carried through as it is.
#[verifier::external_type_specification]
#[verifier::external_body]
pub struct ExStdRng(StdRng);

/// The next 64 bits of the generator, by `RngCore::next_u64`. Nothing is
/// claimed of the bits.
#[verifier::external_body]
pub(crate) fn random_u64(rng: &mut StdRng) -> (bits: u64) {
    rng.next_u64()
}

} // verus!
