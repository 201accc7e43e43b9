//! The entropy source used by random scalar sampling: a thin handle on the
//! operating system's randomness, used only during polynomial construction.

use vstd::prelude::*;
use rand::RngCore;

verus! {

#[verifier::external_type_specification]
#[verifier::external_body]
pub struct ExThreadRng(rand::rngs::ThreadRng);

/// A source of random bits. Nothing is promised of the values it yields:
/// every consumer must state what holds of its result whatever bits came
/// back.
pub struct EntropySource {
    rng: rand::rngs::ThreadRng,
}

impl EntropySource {
    /// Relies on rand::rng: a handle to the thread-local generator, seeded
    /// from the operating system.
    #[verifier::external_body]
    pub(crate) fn new() -> (r: EntropySource) {
        EntropySource { rng: rand::rng() }
    }

    /// Relies on rand::RngCore::next_u64: the generator's next 64 random
    /// bits.
    #[verifier::external_body]
    pub(crate) fn next_u64(&mut self) -> (r: u64) {
        self.rng.next_u64()
    }

    /// Relies on rand::RngCore::fill_bytes: fills a buffer with random
    /// bytes.
    #[verifier::external_body]
    pub(crate) fn fill64(&mut self) -> (r: [u8; 64]) {
        let mut buf = [0u8; 64];
        self.rng.fill_bytes(&mut buf);
        buf
    }
}

} // verus!
