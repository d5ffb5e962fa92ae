//! ML-DSA-65 (Dilithium-3, FIPS 204) public keys and signatures, checked
//! through the `fips204` crate.

use vstd::prelude::*;
use crate::crypto::{keccak256, keccak256_spec};
use crate::pq::error::PqError;
use crate::pq::hex::{hex_decode, hex_encode, hex_error_message, hex_spec, unhex_spec};
use fips204::traits::{KeyGen, SerDes, Signer, Verifier};
use rand::SeedableRng;
use vstd::utf8::encode_utf8;
use vstd::string::StringSliceAdditionalSpecFns;

verus! {

/// Public key size in bytes.
pub const DILITHIUM3_PK_SIZE: usize = 1952;
/// Private key size in bytes.
pub const DILITHIUM3_SK_SIZE: usize = 4032;
/// Signature size in bytes.
pub const DILITHIUM3_SIG_SIZE: usize = 3309;

/// A public key.
#[derive(Debug, Clone)]
pub struct DilithiumPublicKey(pub [u8; 1952]);

/// A signature (3309 bytes when well formed).
#[derive(Debug, Clone)]
pub struct DilithiumSignature(pub Vec<u8>);

/// A private key.
#[derive(Clone)]
pub struct DilithiumPrivateKey(pub Box<[u8; 4032]>);

/// A key pair.
pub struct DilithiumKeyPair {
    pub public_key: DilithiumPublicKey,
    pub private_key: DilithiumPrivateKey,
}

/// The encoded public and private key that ML-DSA-65 key generation
/// produces when fed by the standard generator seeded with `seed`.
pub uninterp spec fn ml_dsa_65_seeded_keys(seed: Seq<u8>) -> (Seq<u8>, Seq<u8>);

/// Whether `ml_dsa_65::PrivateKey::try_from_bytes` accepts `sk`.
pub uninterp spec fn ml_dsa_65_sk_decodes(sk: Seq<u8>) -> bool;

/// The encoded public key of the private key `sk`: what
/// `Signer::get_public_key` gives for the decoded key, encoded with
/// `SerDes::into_bytes`.
pub uninterp spec fn ml_dsa_65_public_key_of(sk: Seq<u8>) -> Seq<u8>;

/// Whether `sk` is a private key as ML-DSA-65 key generation encodes one:
/// beside ρ, K, s1 and s2 it stores the t0 and the public-key hash tr that
/// key generation derives from them. Decoding (`try_from_bytes`) checks the
/// ranges of the fields but not these two, and a signature made with a
/// key whose t0 or tr was altered need not verify.
pub uninterp spec fn ml_dsa_65_sk_well_formed(sk: Seq<u8>) -> bool;

/// Seeds `rand::rngs::StdRng` with `seed`, runs
/// `ml_dsa_65::KG::try_keygen_with_rng` on it and encodes both keys with
/// `SerDes::into_bytes`. Key generation fails only when the generator does,
/// which the seeded generator never does. The keys are named, not stated;
/// the encoded private key decodes again, is well formed, and the public
/// key is the one that belongs to it (FIPS 204 key generation).
#[verifier::external_body]
fn ml_dsa_65_keygen_seeded(seed: &[u8; 32]) -> (r: ([u8; 1952], [u8; 4032]))
    ensures
        (r.0@, r.1@) == ml_dsa_65_seeded_keys(seed@),
        ml_dsa_65_sk_decodes(r.1@),
        ml_dsa_65_sk_well_formed(r.1@),
        r.0@ == ml_dsa_65_public_key_of(r.1@),
{
    let mut rng = rand::rngs::StdRng::from_seed(*seed);
    let (pk, sk) = fips204::ml_dsa_65::KG::try_keygen_with_rng(&mut rng).expect("seeded generator does not fail");
    (pk.into_bytes(), sk.into_bytes())
}

/// Decodes `sk` with `ml_dsa_65::PrivateKey::try_from_bytes` and signs
/// `msg` with `Signer::try_sign` and an empty context. Bytes that do not
/// decode give `KeyDerivationFailed` (whether they decode is named, not
/// stated). Signing draws fresh randomness from the operating system and
/// fails only when that randomness cannot be had (`RngFailed`). The
/// signature is random; for a well-formed key, by the correctness of ML-DSA
/// (FIPS 204), it verifies on `msg` under the public key of `sk`. Of a key
/// that decodes but is not well formed nothing more is said.
#[verifier::external_body]
fn ml_dsa_65_sign(sk: &[u8; 4032], msg: &[u8]) -> (r: Result<[u8; 3309], PqError>)
    ensures
        !ml_dsa_65_sk_decodes(sk@) ==> r matches Err(PqError::KeyDerivationFailed(_)),
        ml_dsa_65_sk_decodes(sk@) ==> r is Ok || r matches Err(PqError::RngFailed),
        ml_dsa_65_sk_well_formed(sk@)
            ==> (r matches Ok(sig) ==> ml_dsa_65_accepts(ml_dsa_65_public_key_of(sk@), msg@, sig@)),
{
    match fips204::ml_dsa_65::PrivateKey::try_from_bytes(*sk) {
        Err(_) => Err(PqError::KeyDerivationFailed(String::from("ML-DSA-65: invalid private key bytes"))),
        Ok(key) => match key.try_sign(msg, b"") {
            Ok(sig) => Ok(sig),
            Err(_) => Err(PqError::RngFailed),
        },
    }
}

/// The encoded keys that `ml_dsa_65::KG::keygen_from_seed` derives from
/// the 32-byte seed `xi` (FIPS 204 `KeyGen_internal`).
pub uninterp spec fn ml_dsa_65_keys_from_xi(xi: Seq<u8>) -> (Seq<u8>, Seq<u8>);

/// Derives a key pair with `ml_dsa_65::KG::keygen_from_seed` and encodes
/// both keys with `SerDes::into_bytes`; the keys are named, the private key
/// decodes again and is well formed, and the public key is the one that
/// belongs to it.
#[verifier::external_body]
fn ml_dsa_65_keygen_from_xi(xi: &[u8; 32]) -> (r: ([u8; 1952], [u8; 4032]))
    ensures
        (r.0@, r.1@) == ml_dsa_65_keys_from_xi(xi@),
        ml_dsa_65_sk_decodes(r.1@),
        ml_dsa_65_sk_well_formed(r.1@),
        r.0@ == ml_dsa_65_public_key_of(r.1@),
{
    let (pk, sk) = fips204::ml_dsa_65::KG::keygen_from_seed(xi);
    (pk.into_bytes(), sk.into_bytes())
}

/// The ML-DSA-65 signature of `msg` (empty context) under the private key
/// `sk` with the 32 random bytes `rnd` (`Signer::try_sign_with_seed`).
pub uninterp spec fn ml_dsa_65_signature_seeded(sk: Seq<u8>, msg: Seq<u8>, rnd: Seq<u8>) -> Seq<u8>;

/// Decodes `sk` and signs `msg` with `Signer::try_sign_with_seed`, an
/// empty context and the random bytes `rnd`. Bytes that do not decode give
/// `KeyDerivationFailed`; with an empty context signing does not fail. The
/// signature is named; for a well-formed key it verifies under the key's
/// public key, and of other keys that decode nothing more is said.
#[verifier::external_body]
fn ml_dsa_65_sign_seeded(sk: &[u8; 4032], msg: &[u8], rnd: &[u8; 32]) -> (r: Result<[u8; 3309], PqError>)
    ensures
        !ml_dsa_65_sk_decodes(sk@) ==> r matches Err(PqError::KeyDerivationFailed(_)),
        ml_dsa_65_sk_decodes(sk@) ==> r is Ok,
        r matches Ok(sig) ==> sig@ == ml_dsa_65_signature_seeded(sk@, msg@, rnd@),
        ml_dsa_65_sk_well_formed(sk@)
            ==> (r matches Ok(sig) ==> ml_dsa_65_accepts(ml_dsa_65_public_key_of(sk@), msg@, sig@)),
{
    match fips204::ml_dsa_65::PrivateKey::try_from_bytes(*sk) {
        Err(_) => Err(PqError::KeyDerivationFailed(String::from("ML-DSA-65: invalid private key bytes"))),
        Ok(key) => match key.try_sign_with_seed(rnd, msg, b"") {
            Ok(sig) => Ok(sig),
            Err(_) => Err(PqError::RngFailed),
        },
    }
}

/// Whether ML-DSA-65 accepts `sig` on `msg` under the public key `pk`
/// (with the empty context string); false when `pk` does not decode.
pub uninterp spec fn ml_dsa_65_accepts(pk: Seq<u8>, msg: Seq<u8>, sig: Seq<u8>) -> bool;

/// Decodes `pk` with `ml_dsa_65::PublicKey::try_from_bytes` and checks the
/// signature with `Verifier::verify` and an empty context; a key that does
/// not decode gives false. The answer is named, not stated.
#[verifier::external_body]
fn ml_dsa_65_verify(pk: &[u8; 1952], msg: &[u8], sig: &[u8; 3309]) -> (r: bool)
    ensures
        r == ml_dsa_65_accepts(pk@, msg@, sig@),
{
    match fips204::ml_dsa_65::PublicKey::try_from_bytes(*pk) {
        Ok(k) => k.verify(msg, sig, b""),
        Err(_) => false,
    }
}

impl DilithiumPublicKey {
    /// The address of the key: the last 20 bytes of its Keccak-256 digest.
    pub fn to_address(&self) -> (r: [u8; 20])
        ensures
            r@ == keccak256_spec(self.0@).subrange(12, 32),
    {
        let h = keccak256(&self.0);
        proof {
            assert(h@.len() == 32);
        }
        let mut a = [0u8; 20];
        let mut i: usize = 0;
        while i < 20
            invariant
                h@.len() == 32,
                h@ == keccak256_spec(self.0@),
                0 <= i <= 20,
                forall|k: int| 0 <= k < i ==> a@[k] == h@[12 + k],
            decreases 20 - i,
        {
            a[i] = h[12 + i];
            i += 1;
        }
        assert(a@ =~= h@.subrange(12, 32));
        a
    }

    /// The key as lower-case hex.
    pub fn to_hex(&self) -> (r: String)
        ensures
            r@ == hex_spec(self.0@),
    {
        hex_encode(&self.0)
    }

    /// Reads a key from hex: it must decode to exactly 1952 bytes.
    pub fn from_hex(s: &str) -> (r: Result<Self, PqError>)
        ensures
            match unhex_spec(encode_utf8(s@)) {
                None => r matches Err(PqError::Serialization(_)),
                Some(b) => if b.len() != 1952 {
                    r matches Err(PqError::InvalidPublicKeyLength { expected, got })
                        && expected == 1952 && got == b.len()
                } else {
                    r matches Ok(k) && k.0@ == b
                },
            },
    {
        let bytes = match hex_decode(s) {
            Ok(b) => b,
            Err(e) => return Err(PqError::Serialization(hex_error_message(&e))),
        };
        if bytes.len() != 1952 {
            return Err(PqError::InvalidPublicKeyLength { expected: 1952, got: bytes.len() });
        }
        let mut arr = [0u8; 1952];
        let mut i: usize = 0;
        while i < 1952
            invariant
                bytes@.len() == 1952,
                0 <= i <= 1952,
                forall|k: int| 0 <= k < i ==> arr@[k] == bytes@[k],
            decreases 1952 - i,
        {
            arr[i] = bytes[i];
            i += 1;
        }
        assert(arr@ =~= bytes@);
        Ok(DilithiumPublicKey(arr))
    }
}

impl DilithiumSignature {
    /// The signature bytes.
    pub fn as_bytes(&self) -> (r: &[u8])
        ensures
            r@ == self.0@,
    {
        self.0.as_slice()
    }

    /// A signature from bytes, which must be exactly 3309 of them.
    pub fn from_bytes(bytes: Vec<u8>) -> (r: Result<Self, PqError>)
        ensures
            bytes@.len() == 3309 ==> (r matches Ok(s) && s.0@ == bytes@),
            bytes@.len() != 3309 ==> (r matches Err(PqError::InvalidSignatureLength { expected, got })
                && expected == 3309 && got == bytes@.len()),
    {
        if bytes.len() != 3309 {
            return Err(PqError::InvalidSignatureLength { expected: 3309, got: bytes.len() });
        }
        Ok(DilithiumSignature(bytes))
    }
}

/// The outcome of checking `sig` on `message` under `pk`.
pub open spec fn verify_outcome(pk: DilithiumPublicKey, message: Seq<u8>, sig: DilithiumSignature, r: Result<(), PqError>) -> bool {
    if sig.0@.len() != 3309 {
        r matches Err(PqError::InvalidSignatureLength { expected, got }) && expected == 3309 && got == sig.0@.len()
    } else if ml_dsa_65_accepts(pk.0@, message, sig.0@) {
        r is Ok
    } else {
        r matches Err(PqError::SignatureVerificationFailed)
    }
}

/// Checks an ML-DSA-65 signature: a wrong length is refused before any
/// check; otherwise the signature must verify under the key.
pub fn verify(pk: &DilithiumPublicKey, message: &[u8], sig: &DilithiumSignature) -> (r: Result<(), PqError>)
    ensures
        verify_outcome(*pk, message@, *sig, r),
{
    if sig.0.len() != 3309 {
        return Err(PqError::InvalidSignatureLength { expected: 3309, got: sig.0.len() });
    }
    let mut arr = [0u8; 3309];
    let mut i: usize = 0;
    while i < 3309
        invariant
            sig.0@.len() == 3309,
            0 <= i <= 3309,
            forall|k: int| 0 <= k < i ==> arr@[k] == sig.0@[k],
        decreases 3309 - i,
    {
        arr[i] = sig.0[i];
        i += 1;
    }
    assert(arr@ =~= sig.0@);
    if ml_dsa_65_verify(&pk.0, message, &arr) {
        Ok(())
    } else {
        Err(PqError::SignatureVerificationFailed)
    }
}

/// Generates a key pair deterministically from a 32-byte seed.
pub fn keygen_from_seed(seed: &[u8; 32]) -> (r: DilithiumKeyPair)
    ensures
        (r.public_key.0@, r.private_key.0@) == ml_dsa_65_seeded_keys(seed@),
        ml_dsa_65_sk_decodes(r.private_key.0@),
        ml_dsa_65_sk_well_formed(r.private_key.0@),
        r.public_key.0@ == ml_dsa_65_public_key_of(r.private_key.0@),
{
    let (pk, sk) = ml_dsa_65_keygen_seeded(seed);
    DilithiumKeyPair { public_key: DilithiumPublicKey(pk), private_key: DilithiumPrivateKey(Box::new(sk)) }
}

/// Generates a key pair from 32 random bytes `xi` (drawn by the caller
/// from a cryptographic generator).
pub fn keygen_random(xi: &[u8; 32]) -> (r: DilithiumKeyPair)
    ensures
        (r.public_key.0@, r.private_key.0@) == ml_dsa_65_keys_from_xi(xi@),
        ml_dsa_65_sk_decodes(r.private_key.0@),
        ml_dsa_65_sk_well_formed(r.private_key.0@),
        r.public_key.0@ == ml_dsa_65_public_key_of(r.private_key.0@),
{
    let (pk, sk) = ml_dsa_65_keygen_from_xi(xi);
    DilithiumKeyPair { public_key: DilithiumPublicKey(pk), private_key: DilithiumPrivateKey(Box::new(sk)) }
}

/// Signs `message` with an empty context and the caller's 32 random bytes
/// `rnd` (hedged signing): a private key that does not decode is refused;
/// otherwise the signature is the named one, and with a well-formed key
/// (as key generation makes them) it verifies under the key's public key.
pub fn sign_hedged(sk: &DilithiumPrivateKey, message: &[u8], rnd: &[u8; 32]) -> (r: Result<DilithiumSignature, PqError>)
    ensures
        !ml_dsa_65_sk_decodes(sk.0@) ==> r matches Err(PqError::KeyDerivationFailed(_)),
        ml_dsa_65_sk_decodes(sk.0@) ==> (r matches Ok(s) && s.0@ == ml_dsa_65_signature_seeded(sk.0@, message@, rnd@)),
        r matches Ok(s) ==> s.0@.len() == 3309,
        ml_dsa_65_sk_well_formed(sk.0@)
            ==> (r matches Ok(s) ==> ml_dsa_65_accepts(ml_dsa_65_public_key_of(sk.0@), message@, s.0@)),
{
    match ml_dsa_65_sign_seeded(&sk.0, message, rnd) {
        Ok(arr) => {
            let mut v: Vec<u8> = Vec::new();
            let mut i: usize = 0;
            while i < 3309
                invariant
                    0 <= i <= 3309,
                    v@ == arr@.subrange(0, i as int),
                decreases 3309 - i,
            {
                v.push(arr[i]);
                i += 1;
                assert(v@ =~= arr@.subrange(0, i as int));
            }
            assert(v@ =~= arr@);
            Ok(DilithiumSignature(v))
        },
        Err(e) => Err(e),
    }
}

/// Signs `message` (hedged, with an empty context): a private key that does
/// not decode is refused, and a failure of the randomness is reported; with
/// a well-formed key (as key generation makes them) the signature verifies
/// under the key's public key.
pub fn sign(sk: &DilithiumPrivateKey, message: &[u8]) -> (r: Result<DilithiumSignature, PqError>)
    ensures
        !ml_dsa_65_sk_decodes(sk.0@) ==> r matches Err(PqError::KeyDerivationFailed(_)),
        ml_dsa_65_sk_decodes(sk.0@) ==> (r matches Ok(s) && s.0@.len() == 3309) || r matches Err(PqError::RngFailed),
        r matches Ok(s) ==> s.0@.len() == 3309,
        ml_dsa_65_sk_well_formed(sk.0@)
            ==> (r matches Ok(s) ==> ml_dsa_65_accepts(ml_dsa_65_public_key_of(sk.0@), message@, s.0@)),
{
    match ml_dsa_65_sign(&sk.0, message) {
        Ok(arr) => {
            let mut v: Vec<u8> = Vec::new();
            let mut i: usize = 0;
            while i < 3309
                invariant
                    0 <= i <= 3309,
                    v@ == arr@.subrange(0, i as int),
                decreases 3309 - i,
            {
                v.push(arr[i]);
                i += 1;
                assert(v@ =~= arr@.subrange(0, i as int));
            }
            assert(v@ =~= arr@);
            Ok(DilithiumSignature(v))
        },
        Err(e) => Err(e),
    }
}

/// The proof-of-possession message of a validator: `zbx-pop-v1` followed
/// by its address.
pub open spec fn pop_message_spec(validator_addr: Seq<u8>) -> Seq<u8> {
    "zbx-pop-v1".spec_bytes() + validator_addr
}

fn pop_message(validator_addr: &[u8; 20]) -> (r: Vec<u8>)
    ensures
        r@ == pop_message_spec(validator_addr@),
{
    let mut msg: Vec<u8> = Vec::new();
    crate::crypto::push_all(&mut msg, "zbx-pop-v1".as_bytes());
    crate::crypto::push_all(&mut msg, validator_addr);
    msg
}

/// Signs the proof-of-possession message of `validator_addr`, as `sign`
/// does.
pub fn proof_of_possession(sk: &DilithiumPrivateKey, validator_addr: &[u8; 20]) -> (r: Result<DilithiumSignature, PqError>)
    ensures
        !ml_dsa_65_sk_decodes(sk.0@) ==> r matches Err(PqError::KeyDerivationFailed(_)),
        ml_dsa_65_sk_decodes(sk.0@) ==> (r matches Ok(s) && s.0@.len() == 3309) || r matches Err(PqError::RngFailed),
        r matches Ok(s) ==> s.0@.len() == 3309,
        ml_dsa_65_sk_well_formed(sk.0@)
            ==> (r matches Ok(s) ==> ml_dsa_65_accepts(ml_dsa_65_public_key_of(sk.0@), pop_message_spec(validator_addr@), s.0@)),
{
    let msg = pop_message(validator_addr);
    sign(sk, msg.as_slice())
}

/// Sign-then-verify: for a key pair as key generation makes it (the public
/// key belongs to the well-formed private key), a signature that `sign` or
/// `sign_hedged` returned is accepted by `verify` under the public key.
pub proof fn lemma_sign_then_verify(pk: DilithiumPublicKey, sk: DilithiumPrivateKey, message: Seq<u8>,
    sig: DilithiumSignature)
    requires
        pk.0@ == ml_dsa_65_public_key_of(sk.0@),
        ml_dsa_65_sk_well_formed(sk.0@),
        sig.0@.len() == 3309,
        ml_dsa_65_sk_well_formed(sk.0@) ==> ml_dsa_65_accepts(ml_dsa_65_public_key_of(sk.0@), message, sig.0@),
    ensures
        verify_outcome(pk, message, sig, Ok(())),
{
}

} // verus!
