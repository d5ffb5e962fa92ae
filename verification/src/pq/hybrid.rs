//! Hybrid ECDSA + Dilithium signatures: which of the two a transaction
//! needs depends on the phase of the post-quantum transition.

use vstd::prelude::*;
use crate::crypto::keccak256_spec;
use crate::pq::dilithium::{verify as dilithium_verify, DilithiumPublicKey, DilithiumSignature, ml_dsa_65_accepts};
use crate::pq::error::PqError;

verus! {

/// Phase of the post-quantum transition.
#[derive(Debug, Clone, Copy, PartialEq, Eq, Structural)]
pub enum PqPhase {
    /// Below block 500,000: ECDSA only.
    Classical,
    /// Blocks 500,000 to 749,999: ECDSA required, Dilithium optional.
    HybridEcdsaPrimary,
    /// From block 750,000: either signature suffices.
    HybridPqPrimary,
    /// Set by governance: Dilithium required.
    PostQuantumOnly,
}

impl PqPhase {
    /// The phase at a block height.
    pub open spec fn from_block_spec(block: u64) -> PqPhase {
        if block < 500_000 {
            PqPhase::Classical
        } else if block < 750_000 {
            PqPhase::HybridEcdsaPrimary
        } else {
            PqPhase::HybridPqPrimary
        }
    }

    /// The phase at a block height (the last phase is set by governance,
    /// never by height).
    pub fn from_block(block: u64) -> (r: Self)
        ensures
            r == Self::from_block_spec(block),
    {
        if block < 500_000 {
            PqPhase::Classical
        } else if block < 750_000 {
            PqPhase::HybridEcdsaPrimary
        } else {
            PqPhase::HybridPqPrimary
        }
    }
}

/// A signature with an ECDSA part, a Dilithium part, or both.
#[derive(Debug, Clone)]
pub struct HybridSignature {
    pub ecdsa_v: Option<u8>,
    pub ecdsa_r: Option<[u8; 32]>,
    pub ecdsa_s: Option<[u8; 32]>,
    pub dilithium_sig: Option<DilithiumSignature>,
    /// Required when `dilithium_sig` is present.
    pub dilithium_pk: Option<DilithiumPublicKey>,
}

impl HybridSignature {
    /// An ECDSA-only signature.
    pub fn classical(v: u8, r: [u8; 32], s: [u8; 32]) -> (res: Self)
        ensures
            res.ecdsa_v == Some(v) && res.ecdsa_r == Some(r) && res.ecdsa_s == Some(s),
            res.dilithium_sig is None && res.dilithium_pk is None,
    {
        HybridSignature { ecdsa_v: Some(v), ecdsa_r: Some(r), ecdsa_s: Some(s), dilithium_sig: None, dilithium_pk: None }
    }

    /// A Dilithium-only signature.
    pub fn pq_only(pk: DilithiumPublicKey, sig: DilithiumSignature) -> (res: Self)
        ensures
            res.ecdsa_v is None && res.ecdsa_r is None && res.ecdsa_s is None,
            res.dilithium_sig == Some(sig) && res.dilithium_pk == Some(pk),
    {
        HybridSignature { ecdsa_v: None, ecdsa_r: None, ecdsa_s: None, dilithium_sig: Some(sig), dilithium_pk: Some(pk) }
    }

    /// A signature with both parts.
    pub fn full(v: u8, r: [u8; 32], s: [u8; 32], pk: DilithiumPublicKey, sig: DilithiumSignature) -> (res: Self)
        ensures
            res.ecdsa_v == Some(v) && res.ecdsa_r == Some(r) && res.ecdsa_s == Some(s),
            res.dilithium_sig == Some(sig) && res.dilithium_pk == Some(pk),
    {
        HybridSignature { ecdsa_v: Some(v), ecdsa_r: Some(r), ecdsa_s: Some(s), dilithium_sig: Some(sig), dilithium_pk: Some(pk) }
    }

    /// Whether the ECDSA part (r and s) is present.
    pub fn has_ecdsa(&self) -> (b: bool)
        ensures
            b == (self.ecdsa_r is Some && self.ecdsa_s is Some),
    {
        self.ecdsa_r.is_some() && self.ecdsa_s.is_some()
    }

    /// Whether the Dilithium part (signature and key) is present.
    pub fn has_dilithium(&self) -> (b: bool)
        ensures
            b == (self.dilithium_sig is Some && self.dilithium_pk is Some),
    {
        self.dilithium_sig.is_some() && self.dilithium_pk.is_some()
    }
}

/// Which signatures a hybrid check found valid.
#[derive(Debug, Clone, Copy, PartialEq, Eq, Structural)]
pub enum HybridVerifyResult {
    ClassicalOnly,
    PostQuantumOnly,
    Both,
}

/// Whether the Dilithium part of `sig` is present, 3309 bytes long and
/// valid on `message`.
pub open spec fn pq_valid_spec(sig: HybridSignature, message: Seq<u8>) -> bool {
    match (sig.dilithium_sig, sig.dilithium_pk) {
        (Some(s), Some(k)) => s.0@.len() == 3309 && ml_dsa_65_accepts(k.0@, message, s.0@),
        _ => false,
    }
}

/// The acceptance rule of each phase, given which signatures are valid.
pub open spec fn hybrid_rule(ecdsa_valid: bool, pq_valid: bool, phase: PqPhase) -> Option<HybridVerifyResult> {
    match phase {
        PqPhase::Classical => if ecdsa_valid { Some(HybridVerifyResult::ClassicalOnly) } else { None },
        PqPhase::HybridEcdsaPrimary => if !ecdsa_valid {
            None
        } else if pq_valid {
            Some(HybridVerifyResult::Both)
        } else {
            Some(HybridVerifyResult::ClassicalOnly)
        },
        PqPhase::HybridPqPrimary => if ecdsa_valid && pq_valid {
            Some(HybridVerifyResult::Both)
        } else if ecdsa_valid {
            Some(HybridVerifyResult::ClassicalOnly)
        } else if pq_valid {
            Some(HybridVerifyResult::PostQuantumOnly)
        } else {
            None
        },
        PqPhase::PostQuantumOnly => if !pq_valid {
            None
        } else if ecdsa_valid {
            Some(HybridVerifyResult::Both)
        } else {
            Some(HybridVerifyResult::PostQuantumOnly)
        },
    }
}

/// Checks a hybrid signature: `ecdsa_valid` is the caller's ECDSA verdict,
/// the Dilithium part is checked here, and the phase decides what is
/// accepted.
pub fn verify_hybrid(sig: &HybridSignature, message: &[u8], ecdsa_valid: bool, phase: PqPhase)
    -> (r: Result<HybridVerifyResult, PqError>)
    ensures
        match hybrid_rule(ecdsa_valid, pq_valid_spec(*sig, message@), phase) {
            Some(v) => r == Ok::<HybridVerifyResult, PqError>(v),
            None => r matches Err(PqError::HybridVerificationFailed),
        },
{
    let pq_valid = match (&sig.dilithium_sig, &sig.dilithium_pk) {
        (Some(dsig), Some(dpk)) => dilithium_verify(dpk, message, dsig).is_ok(),
        _ => false,
    };
    match phase {
        PqPhase::Classical => {
            if ecdsa_valid { Ok(HybridVerifyResult::ClassicalOnly) } else { Err(PqError::HybridVerificationFailed) }
        },
        PqPhase::HybridEcdsaPrimary => {
            if !ecdsa_valid {
                return Err(PqError::HybridVerificationFailed);
            }
            if pq_valid { Ok(HybridVerifyResult::Both) } else { Ok(HybridVerifyResult::ClassicalOnly) }
        },
        PqPhase::HybridPqPrimary => {
            if ecdsa_valid && pq_valid {
                Ok(HybridVerifyResult::Both)
            } else if ecdsa_valid {
                Ok(HybridVerifyResult::ClassicalOnly)
            } else if pq_valid {
                Ok(HybridVerifyResult::PostQuantumOnly)
            } else {
                Err(PqError::HybridVerificationFailed)
            }
        },
        PqPhase::PostQuantumOnly => {
            if pq_valid {
                if ecdsa_valid { Ok(HybridVerifyResult::Both) } else { Ok(HybridVerifyResult::PostQuantumOnly) }
            } else {
                Err(PqError::HybridVerificationFailed)
            }
        },
    }
}

/// The address of a Dilithium key (as for an ECDSA key).
pub fn dilithium_address(pk: &DilithiumPublicKey) -> (r: [u8; 20])
    ensures
        r@ == keccak256_spec(pk.0@).subrange(12, 32),
{
    pk.to_address()
}

} // verus!
