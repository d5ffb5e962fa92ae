//! Kyber-768-sized key encapsulation built from SHA3 hashing.
//!
//! Keys and ciphertexts have the Kyber-768 sizes (public key 1184 bytes,
//! private key 2400, ciphertext 1088, shared secret 32). Byte streams are
//! expanded from a 32-byte seed by hashing `seed || counter` (counter as 8
//! little-endian bytes) with SHA3-256, block after block.
//!
//! The private key starts with the first 64 bytes of the public key and
//! ends with `SHA3-256(pk) || seed`; decapsulation re-derives the
//! ciphertext from those parts and accepts only a matching one.

use vstd::prelude::*;
use crate::crypto::{push_all, push_le, le_bytes, sha3_256, sha3_256_bytes, sha3_512, sha3_512_bytes};
use crate::pq::error::PqError;
use vstd::string::StringSliceAdditionalSpecFns;

verus! {

/// Public key size in bytes.
pub const KYBER768_PK_SIZE: usize = 1184;
/// Private key size in bytes.
pub const KYBER768_SK_SIZE: usize = 2400;
/// Ciphertext size in bytes.
pub const KYBER768_CT_SIZE: usize = 1088;
/// Shared secret size in bytes.
pub const KYBER_SS_SIZE: usize = 32;

/// A public key.
#[derive(Debug, Clone)]
pub struct KyberPublicKey(pub Vec<u8>);

/// A private key.
#[derive(Clone)]
pub struct KyberPrivateKey(pub Vec<u8>);

/// A ciphertext.
#[derive(Debug, Clone)]
pub struct KyberCiphertext(pub Vec<u8>);

/// A shared secret.
#[derive(Clone)]
pub struct SharedSecret(pub [u8; 32]);

/// A key pair.
pub struct KyberKeyPair {
    pub public_key: KyberPublicKey,
    pub private_key: KyberPrivateKey,
}

/// `n` bytes expanded from `seed`: byte `i` is byte `i % 32` of
/// `SHA3-256(seed || le8(i / 32))`.
pub open spec fn expand_spec(seed: Seq<u8>, n: nat) -> Seq<u8> {
    Seq::new(n, |i: int| sha3_256_bytes(seed + le_bytes((i / 32) as nat, 8))[i % 32])
}

/// The domain tag hashed with a key-generation seed.
pub open spec fn keygen_tag() -> Seq<u8> {
    "zbx-kyber768-keygen-v1".spec_bytes()
}

/// `SHA3-512(seed || tag)`: its first half seeds the public key, its
/// second half the private key.
pub open spec fn keygen_expanded(seed: Seq<u8>) -> Seq<u8> {
    sha3_512_bytes(seed + keygen_tag())
}

/// The public key generated from `seed`.
pub open spec fn kyber_pk_spec(seed: Seq<u8>) -> Seq<u8> {
    expand_spec(keygen_expanded(seed).subrange(0, 32), 1184)
}

/// The private key generated from `seed`: the public key's first 64
/// bytes, expanded private bytes, `SHA3-256(pk)` and the seed.
pub open spec fn kyber_sk_spec(seed: Seq<u8>) -> Seq<u8> {
    let pk = kyber_pk_spec(seed);
    pk.subrange(0, 64) + expand_spec(keygen_expanded(seed).subrange(32, 64), 2400).subrange(64, 2336)
        + sha3_256_bytes(pk) + seed
}

/// The ciphertext for message `m` with encryption randomness `r` under the
/// public-key prefix `pk_prefix`: expanded bytes, then `m` itself.
pub open spec fn ciphertext_spec(r: Seq<u8>, pk_prefix: Seq<u8>, m: Seq<u8>) -> Seq<u8> {
    expand_spec(sha3_256_bytes(r + pk_prefix + m), 1088).subrange(0, 1056) + m
}

/// `SHA3-512(m || H(pk))` for the encapsulation with `coins`.
pub open spec fn encap_kr(pk: Seq<u8>, coins: Seq<u8>) -> Seq<u8> {
    sha3_512_bytes(sha3_256_bytes(coins) + sha3_256_bytes(pk))
}

/// The ciphertext of encapsulating under `pk` with `coins`.
pub open spec fn encap_ct_spec(pk: Seq<u8>, coins: Seq<u8>) -> Seq<u8> {
    ciphertext_spec(encap_kr(pk, coins).subrange(32, 64), pk.subrange(0, 64), sha3_256_bytes(coins))
}

/// The shared secret of encapsulating under `pk` with `coins`.
pub open spec fn encap_ss_spec(pk: Seq<u8>, coins: Seq<u8>) -> Seq<u8> {
    sha3_256_bytes(encap_kr(pk, coins).subrange(0, 32) + sha3_256_bytes(encap_ct_spec(pk, coins)))
}

/// The shared secret that decapsulating `ct` with `sk` recovers, or `None`
/// when a length is wrong or the ciphertext does not re-derive.
pub open spec fn decap_spec(sk: Seq<u8>, ct: Seq<u8>) -> Option<Seq<u8>> {
    if sk.len() != 2400 || ct.len() != 1088 {
        None
    } else {
        let m = ct.subrange(1056, 1088);
        let kr = sha3_512_bytes(m + sk.subrange(2336, 2368));
        let expected = ciphertext_spec(kr.subrange(32, 64), sk.subrange(0, 64), m);
        if ct.subrange(0, 1056) == expected.subrange(0, 1056) {
            Some(sha3_256_bytes(kr.subrange(0, 32) + sha3_256_bytes(ct)))
        } else {
            None
        }
    }
}

/// SHA3-256 of `data`.
fn digest32(data: &[u8]) -> (r: [u8; 32])
    ensures
        r@ == sha3_256_bytes(data@),
{
    let r = sha3_256(data);
    assert(r@ =~= sha3_256_bytes(data@));
    r
}

/// SHA3-512 of `data`.
fn digest64(data: &[u8]) -> (r: [u8; 64])
    ensures
        r@ == sha3_512_bytes(data@),
{
    let r = sha3_512(data);
    assert(r@ =~= sha3_512_bytes(data@));
    r
}

/// Bytes `start..end` of `s` as a vector.
fn copy_range(s: &[u8], start: usize, end: usize) -> (r: Vec<u8>)
    requires
        start <= end <= s@.len(),
    ensures
        r@ == s@.subrange(start as int, end as int),
{
    let mut v: Vec<u8> = Vec::new();
    let mut i = start;
    while i < end
        invariant
            start <= i <= end <= s@.len(),
            v@ == s@.subrange(start as int, i as int),
        decreases end - i,
    {
        v.push(s[i]);
        i += 1;
        assert(v@ =~= s@.subrange(start as int, i as int));
    }
    v
}

/// Expands `seed` to `n` bytes.
fn expand_from_seed(seed: &[u8], n: usize) -> (out: Vec<u8>)
    ensures
        out@ == expand_spec(seed@, n as nat),
{
    let mut out: Vec<u8> = Vec::new();
    let mut ctr: u64 = 0;
    while out.len() < n
        invariant
            out@.len() <= n,
            out@.len() < n ==> out@.len() == 32 * ctr,
            ctr * 32 <= n + 31,
            forall|i: int| 0 <= i < out@.len() ==> #[trigger] out@[i] == expand_spec(seed@, n as nat)[i],
        decreases n - out@.len(),
    {
        let mut buf: Vec<u8> = Vec::new();
        push_all(&mut buf, seed);
        push_le(&mut buf, ctr, 8);
        let block = digest32(buf.as_slice());
        let base = out.len();
        let take: usize = if n - base < 32 { n - base } else { 32 };
        let mut j: usize = 0;
        while j < take
            invariant
                base == 32 * ctr,
                base + take <= n,
                take <= 32,
                0 <= j <= take,
                out@.len() == base + j,
                block@ == sha3_256_bytes(seed@ + le_bytes(ctr as nat, 8)),
                forall|i: int| 0 <= i < out@.len() ==> #[trigger] out@[i] == expand_spec(seed@, n as nat)[i],
            decreases take - j,
        {
            proof {
                let i = base + j;
                assert(i / 32 == ctr && i % 32 == j) by (nonlinear_arith)
                    requires i == 32 * ctr + j, 0 <= j < 32, ctr >= 0;
            }
            out.push(block[j]);
            j += 1;
        }
        ctr += 1;
    }
    assert(out@ =~= expand_spec(seed@, n as nat));
    out
}

impl KyberPublicKey {
    /// The key bytes.
    pub fn as_bytes(&self) -> (r: &[u8])
        ensures
            r@ == self.0@,
    {
        self.0.as_slice()
    }

    /// A public key from bytes, which must be exactly 1184 of them.
    pub fn from_bytes(bytes: Vec<u8>) -> (r: Result<Self, PqError>)
        ensures
            bytes@.len() == 1184 ==> (r matches Ok(k) && k.0@ == bytes@),
            bytes@.len() != 1184 ==> (r matches Err(PqError::InvalidKyberKeyLength { expected, got })
                && expected == 1184 && got == bytes@.len()),
    {
        if bytes.len() != KYBER768_PK_SIZE {
            return Err(PqError::InvalidKyberKeyLength { expected: KYBER768_PK_SIZE, got: bytes.len() });
        }
        Ok(KyberPublicKey(bytes))
    }
}

/// Generates a key pair from a 32-byte seed (deterministically).
pub fn kyber_keygen(seed: &[u8; 32]) -> (r: KyberKeyPair)
    ensures
        r.public_key.0@ == kyber_pk_spec(seed@),
        r.private_key.0@ == kyber_sk_spec(seed@),
{
    let mut input: Vec<u8> = Vec::new();
    push_all(&mut input, seed);
    push_all(&mut input, "zbx-kyber768-keygen-v1".as_bytes());
    let expanded = digest64(input.as_slice());
    let pk_seed = copy_range(&expanded, 0, 32);
    let sk_seed = copy_range(&expanded, 32, 64);
    let pk_bytes = expand_from_seed(pk_seed.as_slice(), KYBER768_PK_SIZE);
    let sk_body = expand_from_seed(sk_seed.as_slice(), KYBER768_SK_SIZE);
    let pk_hash = digest32(pk_bytes.as_slice());
    let mut sk_bytes: Vec<u8> = copy_range(pk_bytes.as_slice(), 0, 64);
    let body = copy_range(sk_body.as_slice(), 64, 2336);
    push_all(&mut sk_bytes, body.as_slice());
    push_all(&mut sk_bytes, &pk_hash);
    push_all(&mut sk_bytes, seed);
    proof {
        assert(input@ == seed@ + keygen_tag());
        assert(sk_bytes@ =~= kyber_sk_spec(seed@));
    }
    KyberKeyPair { public_key: KyberPublicKey(pk_bytes), private_key: KyberPrivateKey(sk_bytes) }
}

/// The ciphertext for `m` with randomness `r` under `pk_prefix`.
fn make_ciphertext(r: &[u8], pk_prefix: &[u8], m: &[u8]) -> (ct: Vec<u8>)
    requires
        m@.len() == 32,
    ensures
        ct@ == ciphertext_spec(r@, pk_prefix@, m@),
        ct@.len() == 1088,
{
    let mut seed_input: Vec<u8> = Vec::new();
    push_all(&mut seed_input, r);
    push_all(&mut seed_input, pk_prefix);
    push_all(&mut seed_input, m);
    let ct_seed = digest32(seed_input.as_slice());
    let full = expand_from_seed(&ct_seed, KYBER768_CT_SIZE);
    let mut ct = copy_range(full.as_slice(), 0, 1056);
    push_all(&mut ct, m);
    proof {
        assert(seed_input@ =~= r@ + pk_prefix@ + m@);
    }
    ct
}

/// Encapsulates to `pk` with the 32 random bytes `coins`: returns the
/// ciphertext and the shared secret. A public key that is not 1184 bytes
/// long is refused.
pub fn encapsulate(pk: &KyberPublicKey, coins: &[u8; 32]) -> (r: Result<(KyberCiphertext, SharedSecret), PqError>)
    ensures
        pk.0@.len() != 1184 ==> (r matches Err(PqError::InvalidKyberKeyLength { expected, got })
            && expected == 1184 && got == pk.0@.len()),
        pk.0@.len() == 1184 ==> (r matches Ok((ct, ss))
            && ct.0@ == encap_ct_spec(pk.0@, coins@) && ss.0@ == encap_ss_spec(pk.0@, coins@)),
{
    if pk.0.len() != KYBER768_PK_SIZE {
        return Err(PqError::InvalidKyberKeyLength { expected: KYBER768_PK_SIZE, got: pk.0.len() });
    }
    let m = digest32(coins);
    let pk_hash = digest32(pk.0.as_slice());
    let mut kr_input: Vec<u8> = Vec::new();
    push_all(&mut kr_input, &m);
    push_all(&mut kr_input, &pk_hash);
    let kr = digest64(kr_input.as_slice());
    let k_bar = copy_range(&kr, 0, 32);
    let r = copy_range(&kr, 32, 64);
    let pk_prefix = copy_range(pk.0.as_slice(), 0, 64);
    let ct = make_ciphertext(r.as_slice(), pk_prefix.as_slice(), &m);
    let ct_hash = digest32(ct.as_slice());
    let mut ss_input: Vec<u8> = Vec::new();
    push_all(&mut ss_input, k_bar.as_slice());
    push_all(&mut ss_input, &ct_hash);
    let ss = digest32(ss_input.as_slice());
    proof {
        assert(kr_input@ =~= sha3_256_bytes(coins@) + sha3_256_bytes(pk.0@));
        assert(ss_input@ =~= encap_kr(pk.0@, coins@).subrange(0, 32) + sha3_256_bytes(encap_ct_spec(pk.0@, coins@)));
    }
    Ok((KyberCiphertext(ct), SharedSecret(ss)))
}

/// Whether `a` and `b` agree on their first `n` bytes, comparing all of
/// them whatever the outcome.
fn prefix_eq(a: &[u8], b: &[u8], n: usize) -> (r: bool)
    requires
        n <= a@.len(),
        n <= b@.len(),
    ensures
        r == (a@.subrange(0, n as int) == b@.subrange(0, n as int)),
{
    let mut diff: bool = false;
    let mut i: usize = 0;
    while i < n
        invariant
            n <= a@.len(),
            n <= b@.len(),
            0 <= i <= n,
            !diff <==> (forall|k: int| 0 <= k < i ==> #[trigger] a@[k] == b@[k]),
        decreases n - i,
    {
        if a[i] != b[i] {
            diff = true;
        }
        i += 1;
    }
    proof {
        if !diff {
            assert(a@.subrange(0, n as int) =~= b@.subrange(0, n as int));
        } else {
            let k = choose|k: int| 0 <= k < n && #[trigger] a@[k] != b@[k];
            assert(a@.subrange(0, n as int)[k] != b@.subrange(0, n as int)[k]);
        }
    }
    !diff
}

/// Recovers the shared secret of `ct` with `sk`. Wrong lengths and
/// ciphertexts that do not re-derive from the key are refused.
pub fn decapsulate(sk: &KyberPrivateKey, ct: &KyberCiphertext) -> (r: Result<SharedSecret, PqError>)
    ensures
        match decap_spec(sk.0@, ct.0@) {
            Some(ss) => r matches Ok(s) && s.0@ == ss,
            None => r matches Err(PqError::DecapsulationFailed),
        },
{
    if sk.0.len() != KYBER768_SK_SIZE {
        return Err(PqError::DecapsulationFailed);
    }
    if ct.0.len() != KYBER768_CT_SIZE {
        return Err(PqError::DecapsulationFailed);
    }
    let m = copy_range(ct.0.as_slice(), 1056, 1088);
    let z = copy_range(sk.0.as_slice(), 2368, 2400);
    let pk_hash = copy_range(sk.0.as_slice(), 2336, 2368);
    let mut kr_input: Vec<u8> = Vec::new();
    push_all(&mut kr_input, m.as_slice());
    push_all(&mut kr_input, pk_hash.as_slice());
    let kr = digest64(kr_input.as_slice());
    let k_bar = copy_range(&kr, 0, 32);
    let r = copy_range(&kr, 32, 64);
    let pk_prefix = copy_range(sk.0.as_slice(), 0, 64);
    let expected = make_ciphertext(r.as_slice(), pk_prefix.as_slice(), m.as_slice());
    let ct_matches = prefix_eq(ct.0.as_slice(), expected.as_slice(), 1056);
    let ct_hash = digest32(ct.0.as_slice());
    let mut ss_input: Vec<u8> = Vec::new();
    if ct_matches {
        push_all(&mut ss_input, k_bar.as_slice());
    } else {
        push_all(&mut ss_input, z.as_slice());
    }
    push_all(&mut ss_input, &ct_hash);
    let ss = digest32(ss_input.as_slice());
    proof {
        assert(kr_input@ =~= ct.0@.subrange(1056, 1088) + sk.0@.subrange(2336, 2368));
    }
    if !ct_matches {
        return Err(PqError::DecapsulationFailed);
    }
    proof {
        assert(ss_input@ =~= kr@.subrange(0, 32) + sha3_256_bytes(ct.0@));
    }
    Ok(SharedSecret(ss))
}

/// Decapsulating what was encapsulated to a generated key recovers the
/// shared secret of the encapsulation.
pub proof fn lemma_encapsulation_round_trip(seed: Seq<u8>, coins: Seq<u8>)
    requires
        seed.len() == 32,
    ensures
        decap_spec(kyber_sk_spec(seed), encap_ct_spec(kyber_pk_spec(seed), coins))
            == Some(encap_ss_spec(kyber_pk_spec(seed), coins)),
{
    let pk = kyber_pk_spec(seed);
    let sk = kyber_sk_spec(seed);
    let ct = encap_ct_spec(pk, coins);
    let m = sha3_256_bytes(coins);
    assert(pk.len() == 1184);
    assert(sk.len() == 2400);
    assert(ct.len() == 1088);
    assert(ct.subrange(1056, 1088) =~= m);
    assert(sk.subrange(2336, 2368) =~= sha3_256_bytes(pk));
    assert(sk.subrange(0, 64) =~= pk.subrange(0, 64));
    let kr = sha3_512_bytes(m + sk.subrange(2336, 2368));
    assert(kr == encap_kr(pk, coins));
    let expected = ciphertext_spec(kr.subrange(32, 64), sk.subrange(0, 64), m);
    assert(expected == ct);
}

} // verus!
