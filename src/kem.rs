//! The key encapsulation mechanism as a capability: the protocol calls it
//! through the `Kem` trait, and `DefaultKyber` binds it to Kyber-768.
use vstd::prelude::*;
use crate::error::KyberError;
use rand_chacha::ChaCha20Rng;
use crate::params::{KYBER_CIPHERTEXTBYTES, KYBER_PUBLICKEYBYTES, KYBER_SECRETKEYBYTES, KYBER_SSBYTES};

verus! {

/// The three KEM operations that the key exchange needs. An implementation
/// holds whatever randomness its operations draw on.
pub trait Kem {
    /// Generates a key pair: the public key and the secret key.
    fn keypair(&mut self) -> Result<([u8; KYBER_PUBLICKEYBYTES], [u8; KYBER_SECRETKEYBYTES]), KyberError>;

    /// Encapsulates a fresh shared secret under a public key: the ciphertext
    /// and the shared secret.
    fn encapsulate(&mut self, pk: &[u8; KYBER_PUBLICKEYBYTES]) -> Result<
        ([u8; KYBER_CIPHERTEXTBYTES], [u8; KYBER_SSBYTES]),
        KyberError,
    >;

    /// Recovers the shared secret from a ciphertext with a secret key.
    fn decapsulate(
        &mut self,
        ct: &[u8; KYBER_CIPHERTEXTBYTES],
        sk: &[u8; KYBER_SECRETKEYBYTES],
    ) -> Result<[u8; KYBER_SSBYTES], KyberError>;
}

/// The shared secret that Kyber-768 decapsulation derives from a ciphertext
/// and a secret key.
pub uninterp spec fn kyber_decapsulation_of(ct: Seq<u8>, sk: Seq<u8>) -> Seq<u8>;

/// Relies on `pqc_kyber::keypair`: a key pair drawn with `rng`, or the
/// error that the random number generator reported, mapped to the variant
/// of the same name.
#[verifier::external_body]
fn kyber_keypair(rng: &mut ChaCha20Rng) -> (r: Result<
    ([u8; KYBER_PUBLICKEYBYTES], [u8; KYBER_SECRETKEYBYTES]),
    KyberError,
>) {
    match pqc_kyber::keypair(rng) {
        Ok(keys) => Ok((keys.public, keys.secret)),
        Err(pqc_kyber::KyberError::InvalidInput) => Err(KyberError::InvalidInput),
        Err(pqc_kyber::KyberError::Decapsulation) => Err(KyberError::Decapsulation),
        Err(pqc_kyber::KyberError::RandomBytesGeneration) => Err(KyberError::RandomBytesGeneration),
    }
}

/// Relies on `pqc_kyber::encapsulate`: a ciphertext and shared secret drawn
/// with `rng`, or the error that the random number generator reported,
/// mapped to the variant of the same name.
#[verifier::external_body]
fn kyber_encapsulate(
    pk: &[u8; KYBER_PUBLICKEYBYTES],
    rng: &mut ChaCha20Rng,
) -> (r: Result<([u8; KYBER_CIPHERTEXTBYTES], [u8; KYBER_SSBYTES]), KyberError>) {
    match pqc_kyber::encapsulate(pk, rng) {
        Ok(pair) => Ok(pair),
        Err(pqc_kyber::KyberError::InvalidInput) => Err(KyberError::InvalidInput),
        Err(pqc_kyber::KyberError::Decapsulation) => Err(KyberError::Decapsulation),
        Err(pqc_kyber::KyberError::RandomBytesGeneration) => Err(KyberError::RandomBytesGeneration),
    }
}

/// Relies on `pqc_kyber::decapsulate`: with inputs of the right lengths it
/// always succeeds, and the shared secret depends on the inputs alone.
#[verifier::external_body]
pub(crate) fn kyber_decapsulate(ct: &[u8; KYBER_CIPHERTEXTBYTES], sk: &[u8; KYBER_SECRETKEYBYTES]) -> (r:
    Result<[u8; KYBER_SSBYTES], KyberError>)
    ensures
        r is Ok,
        r is Ok ==> (r->Ok_0)@ == kyber_decapsulation_of(ct@, sk@),
{
    match pqc_kyber::decapsulate(ct, sk) {
        Ok(ss) => Ok(ss),
        Err(pqc_kyber::KyberError::InvalidInput) => Err(KyberError::InvalidInput),
        Err(pqc_kyber::KyberError::Decapsulation) => Err(KyberError::Decapsulation),
        Err(pqc_kyber::KyberError::RandomBytesGeneration) => Err(KyberError::RandomBytesGeneration),
    }
}

/// The ChaCha20 random number generator of `rand_chacha`, held opaque.
#[verifier::external_type_specification]
#[verifier::external_body]
pub struct ExChaCha20Rng(ChaCha20Rng);

/// Relies on `rand_chacha::ChaCha20Rng::from_seed` (through
/// `rand_core::SeedableRng`): a generator whose stream the seed fixes.
#[verifier::external_body]
fn chacha_from_seed(seed: [u8; 32]) -> (r: ChaCha20Rng) {
    <ChaCha20Rng as rand_core::SeedableRng>::from_seed(seed)
}

/// Relies on `rand_chacha::ChaCha20Rng::fill_bytes` (through
/// `rand_core::RngCore`): the next 32 bytes of the stream.
#[verifier::external_body]
fn chacha_fill(rng: &mut ChaCha20Rng, out: &mut [u8; 32]) {
    rand_core::RngCore::fill_bytes(rng, out)
}

/// Kyber-768 from the `pqc_kyber` crate, drawing randomness from a ChaCha20
/// stream.
pub struct DefaultKyber {
    pub rng: ChaCha20Rng,
}

impl DefaultKyber {
    /// The default KEM over the ChaCha20 stream that `seed` fixes.
    pub fn from_seed(seed: [u8; 32]) -> (r: Self) {
        DefaultKyber { rng: chacha_from_seed(seed) }
    }

    /// The next 32 bytes of the random stream, e.g. a fresh session id.
    pub fn random_sid(&mut self) -> (r: [u8; 32]) {
        let mut sid: [u8; 32] = [0u8; 32];
        chacha_fill(&mut self.rng, &mut sid);
        sid
    }
}

impl Kem for DefaultKyber {
    fn keypair(&mut self) -> Result<([u8; KYBER_PUBLICKEYBYTES], [u8; KYBER_SECRETKEYBYTES]), KyberError> {
        kyber_keypair(&mut self.rng)
    }

    fn encapsulate(&mut self, pk: &[u8; KYBER_PUBLICKEYBYTES]) -> Result<
        ([u8; KYBER_CIPHERTEXTBYTES], [u8; KYBER_SSBYTES]),
        KyberError,
    > {
        kyber_encapsulate(pk, &mut self.rng)
    }

    fn decapsulate(
        &mut self,
        ct: &[u8; KYBER_CIPHERTEXTBYTES],
        sk: &[u8; KYBER_SECRETKEYBYTES],
    ) -> Result<[u8; KYBER_SSBYTES], KyberError> {
        kyber_decapsulate(ct, sk)
    }
}

} // verus!
