//! Errors of post-quantum operations.

use vstd::prelude::*;

verus! {

/// Why a post-quantum operation failed.
#[derive(Debug, Clone)]
pub enum PqError {
    InvalidPublicKeyLength { expected: usize, got: usize },
    InvalidSignatureLength { expected: usize, got: usize },
    InvalidKyberKeyLength { expected: usize, got: usize },
    SignatureVerificationFailed,
    DecapsulationFailed,
    HybridVerificationFailed,
    KeyDerivationFailed(String),
    RngFailed,
    Serialization(String),
}

} // verus!
