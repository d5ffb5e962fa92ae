//! Post-quantum signatures: ML-DSA-65 (Dilithium-3) keys and signatures,
//! and the hybrid ECDSA + Dilithium acceptance rules of the transition.

pub mod error;
pub mod hex;
pub mod dilithium;
pub mod hybrid;
pub mod kyber;
