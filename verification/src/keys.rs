//! Keypairs, their addresses and the text form of a private key.

use vstd::prelude::*;

verus! {

/// The ed25519 public key that belongs to a 32-byte secret seed.
pub uninterp spec fn ed25519_public_key(seed: Seq<u8>) -> Seq<u8>;

/// The base-58 text of 32 bytes.
pub uninterp spec fn base58_text_32(bytes: Seq<u8>) -> Seq<char>;

/// The base-58 text of 64 bytes.
pub uninterp spec fn base58_text_64(bytes: Seq<u8>) -> Seq<char>;

/// The 64 bytes that a base-58 text stands for, where it stands for any.
pub uninterp spec fn base58_decoded_64(text: Seq<char>) -> Option<Seq<u8>>;

/// A secret seed with the public key derived from it.
pub struct Keypair {
    pub secret_seed: [u8; 32],
    pub public_key: [u8; 32],
}

impl Keypair {
    /// The public key is the one that the signature scheme derives from the
    /// secret seed.
    pub open spec fn well_formed(&self) -> bool {
        self.public_key@ == ed25519_public_key(self.secret_seed@)
    }
}

/// The address of a secret seed: the base-58 text of its public key.
pub open spec fn address_of_seed(seed: Seq<u8>) -> Seq<char> {
    base58_text_32(ed25519_public_key(seed))
}

/// The text form of a private key: the base-58 text of the secret seed
/// followed by the public key.
pub open spec fn private_key_text(secret: Seq<u8>, public: Seq<u8>) -> Seq<char> {
    base58_text_64(secret + public)
}

/// `SigningKey::from_bytes` and `SigningKey::verifying_key` of ed25519-dalek:
/// the bytes of the public key that the scheme derives from `seed`. Every
/// seed is accepted.
#[verifier::external_body]
fn public_key_of(seed: &[u8; 32]) -> (public: [u8; 32])
    ensures
        public@ == ed25519_public_key(seed@),
{
    ed25519_dalek::SigningKey::from_bytes(seed).verifying_key().to_bytes()
}

/// `fd_bs58::encode_32`: the base-58 text of 32 bytes. The crate reads its
/// input in words of four bytes, so it is handed a copy that starts at a
/// multiple of four.
#[verifier::external_body]
fn base58_encode_32(bytes: &[u8; 32]) -> (text: String)
    ensures
        text@ == base58_text_32(bytes@),
{
    let mut room = [0u8; 35];
    let start = room.as_ptr().addr().wrapping_neg() % 4;
    room[start..start + 32].copy_from_slice(bytes);
    fd_bs58::encode_32(&room[start..start + 32])
}

/// `fd_bs58::encode_64`: the base-58 text of 64 bytes, which
/// `fd_bs58::decode_64` reads back as the same bytes. The crate reads its
/// input in words of four bytes, so it is handed a copy that starts at a
/// multiple of four.
#[verifier::external_body]
fn base58_encode_64(bytes: &[u8; 64]) -> (text: String)
    ensures
        text@ == base58_text_64(bytes@),
        base58_decoded_64(text@) == Some(bytes@),
{
    let mut room = [0u8; 67];
    let start = room.as_ptr().addr().wrapping_neg() % 4;
    room[start..start + 64].copy_from_slice(bytes);
    fd_bs58::encode_64(&room[start..start + 64])
}

/// `fd_bs58::decode_64`: the 64 bytes that `text` stands for; nothing where
/// the crate rejects the text.
#[verifier::external_body]
fn base58_decode_64(text: &str) -> (bytes: Option<[u8; 64]>)
    ensures
        match bytes {
            Some(b) => base58_decoded_64(text@) == Some(b@),
            None => base58_decoded_64(text@) is None,
        },
{
    fd_bs58::decode_64(text).ok()
}

/// Derives the keypair of a secret seed.
pub fn derive_keypair(seed: [u8; 32]) -> (keypair: Keypair)
    ensures
        keypair.secret_seed@ == seed@,
        keypair.well_formed(),
{
    let public_key = public_key_of(&seed);
    Keypair { secret_seed: seed, public_key }
}

impl Keypair {
    /// The address of this keypair: the base-58 text of its public key.
    pub fn address(&self) -> (text: String)
        ensures
            text@ == base58_text_32(self.public_key@),
    {
        base58_encode_32(&self.public_key)
    }
}

/// The secret seed and the public key in 64 decoded bytes: the first half
/// and the second.
pub open spec fn halves_of(bytes: Seq<u8>) -> (Seq<u8>, Seq<u8>) {
    (bytes.subrange(0, 32), bytes.subrange(32, 64))
}

/// The secret seed and the public key that the text form of a private key
/// stands for, where it stands for any.
pub open spec fn decoded_private_key(text: Seq<char>) -> Option<(Seq<u8>, Seq<u8>)> {
    match base58_decoded_64(text) {
        Some(bytes) => Some(halves_of(bytes)),
        None => None,
    }
}

/// The two halves of a decoded private key, each by its value.
pub open spec fn halves_view(halves: Option<([u8; 32], [u8; 32])>) -> Option<(Seq<u8>, Seq<u8>)> {
    match halves {
        Some((secret, public)) => Some((secret@, public@)),
        None => None,
    }
}

/// Splitting 64 bytes that were made of a seed followed by a public key
/// gives back the two.
pub proof fn lemma_halves_of_concat(secret: Seq<u8>, public: Seq<u8>)
    requires
        secret.len() == 32,
        public.len() == 32,
    ensures
        halves_of(secret + public) == (secret, public),
{
    assert((secret + public).subrange(0, 32) =~= secret);
    assert((secret + public).subrange(32, 64) =~= public);
}

/// The text form of a private key: the base-58 text of the 64 bytes made of
/// the secret seed followed by the public key. Decoding that text gives the
/// two back.
pub fn encode_private_key(secret: &[u8; 32], public: &[u8; 32]) -> (text: String)
    ensures
        text@ == private_key_text(secret@, public@),
        decoded_private_key(text@) == Some((secret@, public@)),
{
    let mut keypair_bytes = [0u8; 64];
    let mut i: usize = 0;
    while i < 32
        invariant
            i <= 32,
            forall|j: int| 0 <= j < i ==> keypair_bytes@[j] == secret@[j],
            forall|j: int| 0 <= j < i ==> keypair_bytes@[32 + j] == public@[j],
        decreases 32 - i,
    {
        keypair_bytes[i] = secret[i];
        keypair_bytes[i + 32] = public[i];
        i += 1;
    }
    proof {
        assert(keypair_bytes@ =~= secret@ + public@);
        lemma_halves_of_concat(secret@, public@);
    }
    base58_encode_64(&keypair_bytes)
}

/// Reads the text form of a private key back into the secret seed and the
/// public key. Nothing is returned for a text that is no base-58 text of 64
/// bytes.
pub fn decode_private_key(text: &str) -> (halves: Option<([u8; 32], [u8; 32])>)
    ensures
        halves_view(halves) == decoded_private_key(text@),
{
    let keypair_bytes = match base58_decode_64(text) {
        Some(b) => b,
        None => {
            return None;
        },
    };
    let mut secret = [0u8; 32];
    let mut public = [0u8; 32];
    let mut i: usize = 0;
    while i < 32
        invariant
            i <= 32,
            forall|j: int| 0 <= j < i ==> secret@[j] == keypair_bytes@[j],
            forall|j: int| 0 <= j < i ==> public@[j] == keypair_bytes@[32 + j],
        decreases 32 - i,
    {
        secret[i] = keypair_bytes[i];
        public[i] = keypair_bytes[i + 32];
        i += 1;
    }
    assert(secret@ =~= keypair_bytes@.subrange(0, 32));
    assert(public@ =~= keypair_bytes@.subrange(32, 64));
    Some((secret, public))
}

/// The same seed always gives the same public key, the same address and the
/// same text form of the private key.
pub proof fn derivation_is_deterministic(first: Keypair, second: Keypair)
    requires
        first.well_formed(),
        second.well_formed(),
        first.secret_seed@ == second.secret_seed@,
    ensures
        first.public_key@ == second.public_key@,
        base58_text_32(first.public_key@) == address_of_seed(second.secret_seed@),
        private_key_text(first.secret_seed@, first.public_key@) == private_key_text(
            second.secret_seed@,
            second.public_key@,
        ),
{
}

} // verus!
