//! Errors of the KEM layer, of the half-ideal cipher and of the protocol.
use vstd::prelude::*;

verus! {

/// Failures of a Kyber KEM operation.
#[derive(Debug, Clone, Copy, PartialEq, Eq, Structural)]
pub enum KyberError {
    /// An input has the wrong length, e.g. the parties use different security levels.
    InvalidInput,
    /// The ciphertext could not be decapsulated.
    Decapsulation,
    /// The random number generator failed.
    RandomBytesGeneration,
}

/// Failures of the half-ideal cipher.
#[derive(Debug, Clone, Copy, PartialEq, Eq, Structural)]
pub enum HicError {
    InvalidInput,
    Other,
}

/// Failures of the key exchange.
#[derive(Debug, Clone, Copy, PartialEq, Eq, Structural)]
pub enum PakeError {
    InvalidInput,
    KemError,
    HicError(HicError),
    Other,
}

impl KyberError {
    /// A sentence describing the error.
    pub fn message(&self) -> (r: &'static str)
        ensures
            *self == KyberError::InvalidInput ==> r@ == "Function input is of incorrect length"@,
            *self == KyberError::Decapsulation ==> r@
                == "Decapsulation Failure, unable to obtain shared secret from ciphertext"@,
            *self == KyberError::RandomBytesGeneration ==> r@
                == "Random bytes generation function failed"@,
    {
        match self {
            KyberError::InvalidInput => "Function input is of incorrect length",
            KyberError::Decapsulation => {
                "Decapsulation Failure, unable to obtain shared secret from ciphertext"
            },
            KyberError::RandomBytesGeneration => "Random bytes generation function failed",
        }
    }
}

impl HicError {
    /// A sentence describing the error.
    pub fn message(&self) -> (r: &'static str)
        ensures
            *self == HicError::InvalidInput ==> r@ == "Function input is of incorrect length"@,
            *self == HicError::Other ==> r@ == "An error occurred in a HIC function"@,
    {
        match self {
            HicError::InvalidInput => "Function input is of incorrect length",
            HicError::Other => "An error occurred in a HIC function",
        }
    }
}

impl PakeError {
    /// A sentence describing the error.
    pub fn message(&self) -> (r: &'static str)
        ensures
            *self == PakeError::InvalidInput ==> r@ == "Function input is of incorrect length"@,
            *self == PakeError::KemError ==> r@ == "An error ocurred in a KEM function!"@,
            *self == PakeError::HicError(HicError::InvalidInput) ==> r@
                == "An error ocurred in a HIC function! Error: InvalidInput"@,
            *self == PakeError::HicError(HicError::Other) ==> r@
                == "An error ocurred in a HIC function! Error: Other"@,
            *self == PakeError::Other ==> r@ == "An error occurred in a PAKE function"@,
    {
        match self {
            PakeError::InvalidInput => "Function input is of incorrect length",
            PakeError::KemError => "An error ocurred in a KEM function!",
            PakeError::HicError(HicError::InvalidInput) => {
                "An error ocurred in a HIC function! Error: InvalidInput"
            },
            PakeError::HicError(HicError::Other) => {
                "An error ocurred in a HIC function! Error: Other"
            },
            PakeError::Other => "An error occurred in a PAKE function",
        }
    }
}

} // verus!
