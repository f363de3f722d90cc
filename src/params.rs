//! Sizes of the Kyber-768 parameter set and of the protocol messages.
use vstd::prelude::*;

verus! {

/// Number of polynomials in a vector.
pub const KYBER_K: usize = 3;

/// Degree of the polynomial ring.
pub const KYBER_N: usize = 256;

/// Coefficient modulus.
pub const KYBER_Q: usize = 3329;

/// Size of seeds, passwords, session ids and shared secrets.
pub const KYBER_SYMBYTES: usize = 32;

/// Size of a shared secret.
pub const KYBER_SSBYTES: usize = 32;

/// Size of a serialised polynomial.
pub const KYBER_POLYBYTES: usize = 384;

/// Size of a serialised polynomial vector.
pub const KYBER_POLYVECBYTES: usize = 1152;

/// Size of a public key: the polynomial vector followed by the seed.
pub const KYBER_PUBLICKEYBYTES: usize = 1184;

/// Size of the public key of the underlying CPA scheme.
pub const KYBER_INDCPA_PUBLICKEYBYTES: usize = 1184;

/// Size of a secret key.
pub const KYBER_SECRETKEYBYTES: usize = 2400;

/// Size of a KEM ciphertext.
pub const KYBER_CIPHERTEXTBYTES: usize = 1088;

/// Size of the first protocol message.
pub const MSG1_LEN: usize = 1184;

/// Size of the second protocol message: a tag followed by a ciphertext.
pub const MSG2_LEN: usize = 1120;

/// Rate of SHAKE128 in bytes: the size of one squeezed block.
pub const XOF_BLOCKBYTES: usize = 168;

} // verus!
