//! The source of candidate keypairs: a stream cipher seeded once from the
//! operating system.

use vstd::prelude::*;
use crate::keys::{derive_keypair, Keypair};

verus! {

/// `ChaCha20Rng` of rand_chacha: a stream cipher used as a generator. Its
/// state is opaque here and nothing is said of it.
#[verifier::external_type_specification]
#[verifier::external_body]
pub struct ExChaCha20Rng(rand_chacha::ChaCha20Rng);

/// Produces the secret seeds of one worker.
pub struct KeyGenerator {
    rng: rand_chacha::ChaCha20Rng,
}

/// `SeedableRng::from_rng` of rand on `OsRng`: a ChaCha20 stream seeded from
/// the operating system's entropy; nothing where the system gives none.
#[verifier::external_body]
fn seeded_stream() -> (rng: Option<rand_chacha::ChaCha20Rng>) {
    <rand_chacha::ChaCha20Rng as rand::SeedableRng>::from_rng(rand::rngs::OsRng).ok()
}

/// `RngCore::fill_bytes` of rand: the next 32 bytes of the stream. Nothing
/// is known of them.
#[verifier::external_body]
fn next_seed(rng: &mut rand_chacha::ChaCha20Rng) -> (seed: [u8; 32]) {
    let mut seed = [0u8; 32];
    rand::RngCore::fill_bytes(rng, &mut seed);
    seed
}

impl KeyGenerator {
    /// The stream that the seeds are drawn from.
    pub closed spec fn stream(&self) -> rand_chacha::ChaCha20Rng {
        self.rng
    }

    /// A generator that draws from `stream`, where there is a stream.
    pub fn on_stream(stream: Option<rand_chacha::ChaCha20Rng>) -> (generator: Option<KeyGenerator>)
        ensures
            match stream {
                Some(rng) => generator matches Some(g) && g.stream() == rng,
                None => generator is None,
            },
    {
        match stream {
            Some(rng) => Some(KeyGenerator { rng }),
            None => None,
        }
    }

    /// A generator seeded from the operating system's entropy. There is none
    /// where the system cannot provide the seed.
    pub fn new() -> (generator: Option<KeyGenerator>) {
        KeyGenerator::on_stream(seeded_stream())
    }

    /// Draws a fresh secret seed and derives its keypair. Whatever seed is
    /// drawn, the public key is the one that belongs to it.
    pub fn next_keypair(&mut self) -> (keypair: Keypair)
        ensures
            keypair.well_formed(),
    {
        let seed = next_seed(&mut self.rng);
        derive_keypair(seed)
    }
}

} // verus!
