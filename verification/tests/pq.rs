use sha3::Digest;
use zbx_chain::pq::dilithium::{
    keygen_from_seed, proof_of_possession, sign, verify, DilithiumPublicKey, DilithiumSignature,
    DILITHIUM3_PK_SIZE, DILITHIUM3_SIG_SIZE, DILITHIUM3_SK_SIZE,
};
use zbx_chain::pq::error::PqError;
use zbx_chain::pq::hybrid::{
    dilithium_address, verify_hybrid, HybridSignature, HybridVerifyResult, PqPhase,
};
use zbx_chain::pq::kyber::{
    decapsulate, encapsulate, kyber_keygen, KyberCiphertext, KyberPublicKey, KYBER768_CT_SIZE,
    KYBER768_PK_SIZE, KYBER768_SK_SIZE,
};

// ── hybrid ──────────────────────────────────────────────────────────────────

#[test]
fn phase_from_block() {
    assert_eq!(PqPhase::from_block(0), PqPhase::Classical);
    assert_eq!(PqPhase::from_block(499_999), PqPhase::Classical);
    assert_eq!(PqPhase::from_block(500_000), PqPhase::HybridEcdsaPrimary);
    assert_eq!(PqPhase::from_block(750_000), PqPhase::HybridPqPrimary);
}

#[test]
fn hybrid_pq_only_verification() {
    let kp = keygen_from_seed(&[5u8; 32]);
    let msg = b"zebvix hybrid tx test";
    let sig = sign(&kp.private_key, msg).unwrap();
    let hsig = HybridSignature::pq_only(kp.public_key, sig);
    let result = verify_hybrid(&hsig, msg, false, PqPhase::HybridPqPrimary);
    assert_eq!(result.unwrap(), HybridVerifyResult::PostQuantumOnly);
}

#[test]
fn hybrid_classical_required_in_phase1() {
    let kp = keygen_from_seed(&[6u8; 32]);
    let msg = b"phase1 test";
    let sig = sign(&kp.private_key, msg).unwrap();
    let hsig = HybridSignature::pq_only(kp.public_key, sig);
    let result = verify_hybrid(&hsig, msg, false, PqPhase::HybridEcdsaPrimary);
    assert!(result.is_err());
    let result2 = verify_hybrid(&hsig, msg, true, PqPhase::HybridEcdsaPrimary);
    assert!(result2.is_ok());
}

#[test]
fn hybrid_rules_without_dilithium_part() {
    let hsig = HybridSignature::classical(27, [1u8; 32], [2u8; 32]);
    assert!(hsig.has_ecdsa());
    assert!(!hsig.has_dilithium());
    assert_eq!(verify_hybrid(&hsig, b"m", true, PqPhase::Classical).unwrap(), HybridVerifyResult::ClassicalOnly);
    assert!(matches!(
        verify_hybrid(&hsig, b"m", false, PqPhase::Classical),
        Err(PqError::HybridVerificationFailed)
    ));
    assert!(matches!(
        verify_hybrid(&hsig, b"m", true, PqPhase::PostQuantumOnly),
        Err(PqError::HybridVerificationFailed)
    ));
}

#[test]
fn hybrid_both_parts_valid() {
    let kp = keygen_from_seed(&[14u8; 32]);
    let msg = b"both";
    let sig = sign(&kp.private_key, msg).unwrap();
    let hsig = HybridSignature::full(27, [1u8; 32], [2u8; 32], kp.public_key, sig);
    assert_eq!(verify_hybrid(&hsig, msg, true, PqPhase::PostQuantumOnly).unwrap(), HybridVerifyResult::Both);
}

// ── dilithium ───────────────────────────────────────────────────────────────

#[test]
fn keygen_from_seed_is_deterministic() {
    let seed = [42u8; 32];
    let kp1 = keygen_from_seed(&seed);
    let kp2 = keygen_from_seed(&seed);
    assert_eq!(kp1.public_key.0, kp2.public_key.0, "same seed → same pk");
}

#[test]
fn different_seeds_produce_different_keys() {
    let kp1 = keygen_from_seed(&[1u8; 32]);
    let kp2 = keygen_from_seed(&[2u8; 32]);
    assert_ne!(kp1.public_key.0, kp2.public_key.0);
}

#[test]
fn sign_and_verify_roundtrip() {
    let kp = keygen_from_seed(&[7u8; 32]);
    let msg = b"zbx-dilithium3-test-message";
    let sig = sign(&kp.private_key, msg).unwrap();
    assert!(verify(&kp.public_key, msg, &sig).is_ok());
}

#[test]
fn verify_rejects_wrong_message() {
    let kp = keygen_from_seed(&[8u8; 32]);
    let sig = sign(&kp.private_key, b"message-a").unwrap();
    assert!(verify(&kp.public_key, b"message-b", &sig).is_err());
}

#[test]
fn verify_rejects_wrong_pubkey() {
    let kp1 = keygen_from_seed(&[9u8; 32]);
    let kp2 = keygen_from_seed(&[10u8; 32]);
    let sig = sign(&kp1.private_key, b"hello").unwrap();
    assert!(verify(&kp2.public_key, b"hello", &sig).is_err());
}

#[test]
fn verify_rejects_tampered_signature() {
    let kp = keygen_from_seed(&[11u8; 32]);
    let msg = b"tamper-test";
    let mut sig = sign(&kp.private_key, msg).unwrap();
    sig.0[100] ^= 0xFF;
    assert!(verify(&kp.public_key, msg, &sig).is_err());
}

#[test]
fn key_sizes_correct() {
    let kp = keygen_from_seed(&[0u8; 32]);
    assert_eq!(kp.public_key.0.len(), DILITHIUM3_PK_SIZE);
    assert_eq!(kp.private_key.0.len(), DILITHIUM3_SK_SIZE);
}

#[test]
fn signature_size_correct() {
    let kp = keygen_from_seed(&[5u8; 32]);
    let sig = sign(&kp.private_key, b"size-check").unwrap();
    assert_eq!(sig.0.len(), DILITHIUM3_SIG_SIZE);
}

#[test]
fn proof_of_possession_verifies() {
    let kp = keygen_from_seed(&[13u8; 32]);
    let addr = [3u8; 20];
    let pop = proof_of_possession(&kp.private_key, &addr).unwrap();
    let mut msg = b"zbx-pop-v1".to_vec();
    msg.extend_from_slice(&addr);
    assert!(verify(&kp.public_key, &msg, &pop).is_ok());
}

#[test]
fn verify_rejects_wrong_length_signature() {
    let kp = keygen_from_seed(&[15u8; 32]);
    let short = DilithiumSignature(vec![0u8; 10]);
    assert!(matches!(
        verify(&kp.public_key, b"x", &short),
        Err(PqError::InvalidSignatureLength { expected: 3309, got: 10 })
    ));
    assert!(matches!(
        DilithiumSignature::from_bytes(vec![0u8; 3]),
        Err(PqError::InvalidSignatureLength { expected: 3309, got: 3 })
    ));
    assert_eq!(DilithiumSignature::from_bytes(vec![7u8; 3309]).unwrap().as_bytes().len(), 3309);
}

#[test]
fn public_key_hex_round_trip_and_errors() {
    let kp = keygen_from_seed(&[16u8; 32]);
    let text = kp.public_key.to_hex();
    assert_eq!(text.len(), 2 * DILITHIUM3_PK_SIZE);
    assert_eq!(text, hex::encode(kp.public_key.0));
    let back = DilithiumPublicKey::from_hex(&text).unwrap();
    assert_eq!(back.0, kp.public_key.0);
    assert!(matches!(
        DilithiumPublicKey::from_hex("abcd"),
        Err(PqError::InvalidPublicKeyLength { expected: 1952, got: 2 })
    ));
    assert!(matches!(DilithiumPublicKey::from_hex("zz"), Err(PqError::Serialization(_))));
}

#[test]
fn address_is_keccak_suffix() {
    let kp = keygen_from_seed(&[17u8; 32]);
    let digest = sha3::Keccak256::digest(kp.public_key.0);
    assert_eq!(kp.public_key.to_address(), <[u8; 20]>::try_from(&digest[12..32]).unwrap());
    assert_eq!(dilithium_address(&kp.public_key), kp.public_key.to_address());
}

// ── kyber ───────────────────────────────────────────────────────────────────

#[test]
fn keygen_deterministic() {
    let seed = [1u8; 32];
    let kp1 = kyber_keygen(&seed);
    let kp2 = kyber_keygen(&seed);
    assert_eq!(kp1.public_key.0, kp2.public_key.0);
}

#[test]
fn encap_decap_roundtrip() {
    let kp = kyber_keygen(&[2u8; 32]);
    let (ct, ss1) = encapsulate(&kp.public_key, &[9u8; 32]).unwrap();
    let ss2 = decapsulate(&kp.private_key, &ct).unwrap();
    assert_eq!(ss1.0, ss2.0);
}

#[test]
fn invalid_ciphertext_rejected() {
    let kp = kyber_keygen(&[3u8; 32]);
    let bad_ct = KyberCiphertext(vec![0u8; KYBER768_CT_SIZE]);
    assert!(decapsulate(&kp.private_key, &bad_ct).is_err());
}

#[test]
fn kyber_sizes_and_key_layout() {
    let seed = [4u8; 32];
    let kp = kyber_keygen(&seed);
    assert_eq!(kp.public_key.0.len(), KYBER768_PK_SIZE);
    assert_eq!(kp.private_key.0.len(), KYBER768_SK_SIZE);
    assert_eq!(&kp.private_key.0[..64], &kp.public_key.0[..64]);
    assert_eq!(&kp.private_key.0[2368..], &seed[..]);
    let h = sha3::Sha3_256::digest(&kp.public_key.0);
    assert_eq!(&kp.private_key.0[2336..2368], &h[..]);
    // First block of the public key: SHA3-256(seed_pk || 0u64 LE).
    let mut hin = seed.to_vec();
    hin.extend_from_slice(b"zbx-kyber768-keygen-v1");
    let expanded = sha3::Sha3_512::digest(&hin);
    let mut block_in = expanded[..32].to_vec();
    block_in.extend_from_slice(&0u64.to_le_bytes());
    let block = sha3::Sha3_256::digest(&block_in);
    assert_eq!(&kp.public_key.0[..32], &block[..]);
}

#[test]
fn kyber_length_errors() {
    assert!(matches!(
        KyberPublicKey::from_bytes(vec![0u8; 10]),
        Err(PqError::InvalidKyberKeyLength { expected: 1184, got: 10 })
    ));
    let short = KyberPublicKey(vec![0u8; 5]);
    assert!(matches!(
        encapsulate(&short, &[0u8; 32]),
        Err(PqError::InvalidKyberKeyLength { expected: 1184, got: 5 })
    ));
    let kp = kyber_keygen(&[5u8; 32]);
    assert!(matches!(
        decapsulate(&kp.private_key, &KyberCiphertext(vec![0u8; 3])),
        Err(PqError::DecapsulationFailed)
    ));
    assert_eq!(KyberPublicKey::from_bytes(vec![1u8; 1184]).unwrap().as_bytes().len(), 1184);
}

#[test]
fn tampered_ciphertext_rejected() {
    let kp = kyber_keygen(&[6u8; 32]);
    let (mut ct, _) = encapsulate(&kp.public_key, &[1u8; 32]).unwrap();
    ct.0[0] ^= 1;
    assert!(matches!(decapsulate(&kp.private_key, &ct), Err(PqError::DecapsulationFailed)));
}

#[test]
fn hedged_sign_also_verifies() {
    let kp = zbx_chain::pq::dilithium::keygen_from_seed(&[12u8; 32]);
    let msg = b"hedged-signing-test";
    let mut rnd = [0u8; 32];
    rand::RngCore::fill_bytes(&mut rand::rngs::OsRng, &mut rnd);
    let sig = zbx_chain::pq::dilithium::sign_hedged(&kp.private_key, msg, &rnd).unwrap();
    assert!(zbx_chain::pq::dilithium::verify(&kp.public_key, msg, &sig).is_ok());
}

#[test]
fn hedged_sign_is_fixed_by_its_random_bytes() {
    let kp = zbx_chain::pq::dilithium::keygen_from_seed(&[3u8; 32]);
    let a = zbx_chain::pq::dilithium::sign_hedged(&kp.private_key, b"m", &[1u8; 32]).unwrap();
    let b = zbx_chain::pq::dilithium::sign_hedged(&kp.private_key, b"m", &[1u8; 32]).unwrap();
    let c = zbx_chain::pq::dilithium::sign_hedged(&kp.private_key, b"m", &[2u8; 32]).unwrap();
    assert_eq!(a.0, b.0);
    assert_ne!(a.0, c.0);
    assert!(zbx_chain::pq::dilithium::verify(&kp.public_key, b"other", &a).is_err());
}

#[test]
fn keygen_random_keys_sign_and_verify() {
    let kp = zbx_chain::pq::dilithium::keygen_random(&[9u8; 32]);
    let again = zbx_chain::pq::dilithium::keygen_random(&[9u8; 32]);
    assert_eq!(kp.public_key.0, again.public_key.0);
    let sig = zbx_chain::pq::dilithium::sign(&kp.private_key, b"zbx").unwrap();
    assert!(zbx_chain::pq::dilithium::verify(&kp.public_key, b"zbx", &sig).is_ok());
    let pop = zbx_chain::pq::dilithium::proof_of_possession(&kp.private_key, &[5u8; 20]).unwrap();
    let mut m = b"zbx-pop-v1".to_vec();
    m.extend_from_slice(&[5u8; 20]);
    assert!(zbx_chain::pq::dilithium::verify(&kp.public_key, &m, &pop).is_ok());
}
