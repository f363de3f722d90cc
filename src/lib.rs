//! Password-authenticated key exchange (CHIC) over a Kyber KEM, with the
//! half-ideal cipher (HIC) that hides a Kyber public key under a password.
use vstd::prelude::*;

pub mod params;
pub mod error;
pub mod bytes;
pub mod verify;
pub mod reduce;
pub mod poly;
pub mod polyvec;
pub mod symmetric;
pub mod sampler;
pub mod ic;
pub mod hic;
pub mod kem;
pub mod chic;
pub mod api;
pub mod sha256;
pub mod sha512;

pub use api::{
    pake_init_end, pake_init_end_ref, pake_init_start, pake_init_start_ref, pake_resp,
    pake_resp_ref,
};
pub use error::{HicError, KyberError, PakeError};
pub use kem::{DefaultKyber, Kem};

verus! {

} // verus!
