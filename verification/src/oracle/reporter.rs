//! Signed price reports: the message a reporter signs, the secp256k1
//! signature over it, and the check that a signature recovers to the
//! reporter's address.

use vstd::prelude::*;
use vstd::utf8::encode_utf8;
use crate::crypto::{keccak256, keccak256_spec, le_bytes, push_all, sha256, sha256_spec};
use crate::oracle::error::OracleError;
use crate::oracle::feed::{FeedId, Price};

verus! {

/// The 64-byte `r || s` secp256k1 ECDSA signature (RFC 6979 nonce, low `s`)
/// of the 32-byte prehash `msg` under the private key `key`, as the `k256`
/// crate computes it; `None` when `key` is not a valid secret scalar.
pub uninterp spec fn secp256k1_signature(msg: Seq<u8>, key: Seq<u8>) -> Option<Seq<u8>>;

/// The uncompressed public key (`x || y`, 64 bytes) that the `k256` crate
/// recovers from the prehash `msg`, the signature `sig` and the recovery
/// byte `v`; `None` when recovery fails.
pub uninterp spec fn secp256k1_recovered_key(msg: Seq<u8>, sig: Seq<u8>, v: u8) -> Option<Seq<u8>>;

/// The uncompressed public key (`x || y`, 64 bytes) of the secret scalar
/// `key`, as `k256::ecdsa::SigningKey::verifying_key` gives it.
pub uninterp spec fn secp256k1_public_key_of(key: Seq<u8>) -> Seq<u8>;

/// Signs with `k256::ecdsa::SigningKey::sign_prehash_recoverable` and keeps
/// the 64 signature bytes. The signature is named; recovering from it with
/// the recovery id that signing chose (0 to 3) gives the key's public key,
/// which is how `sign_prehash_recoverable` picks that id.
#[verifier::external_body]
fn secp256k1_sign(msg: &[u8; 32], key: &[u8; 32]) -> (r: Option<[u8; 64]>)
    ensures
        match r {
            Some(s) => secp256k1_signature(msg@, key@) == Some(s@),
            None => secp256k1_signature(msg@, key@) is None,
        },
        r matches Some(s) ==> exists|v: u8| v < 4
            && #[trigger] secp256k1_recovered_key(msg@, s@, v) == Some(secp256k1_public_key_of(key@)),
{
    let sk = k256::ecdsa::SigningKey::from_slice(key).ok()?;
    let (sig, _recid) = sk.sign_prehash_recoverable(msg).ok()?;
    Some(sig.to_bytes().into())
}

/// Recovers the signer's key with
/// `k256::ecdsa::VerifyingKey::recover_from_prehash` and returns its
/// uncompressed encoding without the leading tag byte. The contract only
/// names the result.
#[verifier::external_body]
fn secp256k1_recover(msg: &[u8; 32], sig: &[u8; 64], v: u8) -> (r: Option<[u8; 64]>)
    ensures
        match r {
            Some(k) => secp256k1_recovered_key(msg@, sig@, v) == Some(k@),
            None => secp256k1_recovered_key(msg@, sig@, v) is None,
        },
{
    let rid = k256::ecdsa::RecoveryId::from_byte(v)?;
    let s = k256::ecdsa::Signature::from_slice(sig).ok()?;
    let vk = k256::ecdsa::VerifyingKey::recover_from_prehash(msg, &s, rid).ok()?;
    let point = vk.to_encoded_point(false);
    let mut out = [0u8; 64];
    out.copy_from_slice(&point.as_bytes()[1..65]);
    Some(out)
}

/// The address of a public key: the last 20 bytes of its Keccak-256 hash.
pub open spec fn key_address(pk: Seq<u8>) -> Seq<u8> {
    keccak256_spec(pk).subrange(12, 32)
}

/// Whether recovery with byte `v` gives a key whose address is `addr`.
pub open spec fn recovers_to(msg: Seq<u8>, sig: Seq<u8>, v: u8, addr: Seq<u8>) -> bool {
    secp256k1_recovered_key(msg, sig, v) matches Some(pk) && key_address(pk) == addr
}

/// Whether `sig` over `msg` is by the owner of `addr` (recovery byte 0 or 1).
pub open spec fn signed_by(msg: Seq<u8>, sig: Seq<u8>, addr: Seq<u8>) -> bool {
    recovers_to(msg, sig, 0, addr) || recovers_to(msg, sig, 1, addr)
}

/// The bytes a reporter signs (before hashing): the feed id, the price
/// (16 bytes, two's complement, little endian) and the timestamp (8 bytes,
/// little endian).
pub open spec fn signing_input(feed: Seq<char>, price: i128, timestamp: u64) -> Seq<u8> {
    encode_utf8(feed) + le_bytes(price as u128 as nat, 16) + le_bytes(timestamp as nat, 8)
}

/// The message a reporter signs: the SHA-256 of `signing_input`.
pub open spec fn signing_message_spec(feed: Seq<char>, price: i128, timestamp: u64) -> Seq<u8> {
    sha256_spec(signing_input(feed, price, timestamp))
}

/// Appends the low `n` bytes of `x` to `out`, least significant first.
fn push_le_u128(out: &mut Vec<u8>, x: u128, n: usize)
    ensures
        final(out)@ == old(out)@ + le_bytes(x as nat, n as nat),
    decreases n,
{
    if n == 0 {
        assert(old(out)@ + le_bytes(x as nat, 0) =~= old(out)@);
    } else {
        out.push((x % 256) as u8);
        let ghost mid = out@;
        push_le_u128(out, x / 256, n - 1);
        assert((x / 256) as nat == (x as nat) / 256);
        assert(old(out)@ + le_bytes(x as nat, n as nat) =~= mid + le_bytes((x as nat) / 256, (n - 1) as nat));
    }
}

/// One reporter's signed price for one feed.
#[derive(Clone, Debug)]
pub struct PriceReport {
    pub feed_id: FeedId,
    /// Price with eight decimals.
    pub price: Price,
    /// When the price was fetched (Unix seconds).
    pub timestamp: u64,
    /// The reporter's address.
    pub reporter: [u8; 20],
    /// `r || s` over the signing message.
    pub signature: [u8; 64],
}

impl PriceReport {
    /// A report signed with `private_key`; the price must be sane.
    pub fn new(feed_id: FeedId, price: Price, timestamp: u64, reporter: [u8; 20], private_key: &[u8; 32])
        -> (r: Result<Self, OracleError>)
        ensures
            !price.spec_is_valid() ==> (r matches Err(OracleError::InvalidPrice(p)) && p == price.0),
            price.spec_is_valid() ==> match secp256k1_signature(signing_message_spec(feed_id.0@, price.0, timestamp),
                private_key@) {
                None => r matches Err(OracleError::InvalidSignature),
                Some(s) => (r matches Ok(rep) && rep.feed_id == feed_id && rep.price == price
                    && rep.timestamp == timestamp && rep.reporter == reporter && rep.signature@ == s),
            },
    {
        if !price.is_valid() {
            return Err(OracleError::InvalidPrice(price.0));
        }
        let msg = Self::signing_message(&feed_id, price, timestamp);
        let signature = sign_message(&msg, private_key)?;
        Ok(PriceReport { feed_id, price, timestamp, reporter, signature })
    }

    /// The message a report signs: SHA-256 over the feed id, the price and
    /// the timestamp.
    pub fn signing_message(feed_id: &FeedId, price: Price, timestamp: u64) -> (r: [u8; 32])
        ensures
            r@ == signing_message_spec(feed_id.0@, price.0, timestamp),
    {
        let mut input: Vec<u8> = Vec::new();
        push_all(&mut input, feed_id.0.as_str().as_bytes());
        push_le_u128(&mut input, price.0 as u128, 16);
        push_le_u128(&mut input, timestamp as u128, 8);
        proof {
            assert(input@ =~= signing_input(feed_id.0@, price.0, timestamp));
        }
        sha256(input.as_slice())
    }

    /// Whether the report is older than `max_age_secs` at `now`.
    pub fn is_expired(&self, now: u64, max_age_secs: u64) -> (r: bool)
        ensures
            r == (now >= self.timestamp && now - self.timestamp > max_age_secs),
    {
        now.saturating_sub(self.timestamp) > max_age_secs
    }

    /// Whether the signature recovers to the reporter's address.
    pub fn verify_sig(&self) -> (r: bool)
        ensures
            r == signed_by(signing_message_spec(self.feed_id.0@, self.price.0, self.timestamp), self.signature@,
                self.reporter@),
    {
        let msg = Self::signing_message(&self.feed_id, self.price, self.timestamp);
        verify_signature(&msg, &self.signature, &self.reporter)
    }
}

/// Signs the prehash `msg` with `key`; `InvalidSignature` when the key is
/// not a valid secret.
pub fn sign_message(msg: &[u8; 32], key: &[u8; 32]) -> (r: Result<[u8; 64], OracleError>)
    ensures
        match secp256k1_signature(msg@, key@) {
            Some(s) => (r matches Ok(sig) && sig@ == s),
            None => r matches Err(OracleError::InvalidSignature),
        },
        r matches Ok(sig) ==> exists|v: u8| v < 4
            && #[trigger] secp256k1_recovered_key(msg@, sig@, v) == Some(secp256k1_public_key_of(key@)),
{
    match secp256k1_sign(msg, key) {
        Some(s) => Ok(s),
        None => Err(OracleError::InvalidSignature),
    }
}

/// Whether `sig` over `msg` recovers, with recovery byte 0 or 1, to a key
/// whose address is `addr`.
pub fn verify_signature(msg: &[u8; 32], sig: &[u8; 64], addr: &[u8; 20]) -> (r: bool)
    ensures
        r == signed_by(msg@, sig@, addr@),
{
    let mut v: u8 = 0;
    while v < 2
        invariant
            v <= 2,
            forall|w: u8| w < v ==> !recovers_to(msg@, sig@, w, addr@),
        decreases 2 - v,
    {
        match secp256k1_recover(msg, sig, v) {
            Some(pk) => {
                let h = keccak256(&pk);
                let mut same = true;
                let mut i: usize = 0;
                while i < 20
                    invariant
                        0 <= i <= 20,
                        h@.len() == 32,
                        same == (forall|k: int| 0 <= k < i ==> h@[12 + k] == addr@[k]),
                    decreases 20 - i,
                {
                    if h[12 + i] != addr[i] {
                        same = false;
                    }
                    i += 1;
                }
                proof {
                    if same {
                        assert(keccak256_spec(pk@).subrange(12, 32) =~= addr@);
                    } else {
                        let k = choose|k: int| 0 <= k < 20 && h@[12 + k] != addr@[k];
                        assert(keccak256_spec(pk@).subrange(12, 32)[k] != addr@[k]);
                    }
                }
                if same {
                    return true;
                }
            },
            None => {},
        }
        v += 1;
    }
    false
}

/// A reporter node: its address, signing key, feeds and price source.
pub struct OracleReporter {
    pub address: [u8; 20],
    private_key: [u8; 32],
    pub feeds: Vec<FeedId>,
    pub fetcher_url: String,
}

impl OracleReporter {
    /// A reporter with its key kept private.
    pub fn new(address: [u8; 20], private_key: [u8; 32], feeds: Vec<FeedId>, fetcher_url: String) -> (r: Self)
        ensures
            r.spec_address() == address,
            r.spec_key() == private_key,
            r.spec_feeds() == feeds,
            r.spec_fetcher_url() == fetcher_url,
    {
        OracleReporter { address, private_key, feeds, fetcher_url }
    }

    /// The signing key.
    pub closed spec fn spec_key(&self) -> [u8; 32] {
        self.private_key
    }

    /// The reporter's address.
    pub closed spec fn spec_address(&self) -> [u8; 20] {
        self.address
    }

    /// The feeds it covers.
    pub closed spec fn spec_feeds(&self) -> Vec<FeedId> {
        self.feeds
    }

    /// Where it fetches prices.
    pub closed spec fn spec_fetcher_url(&self) -> String {
        self.fetcher_url
    }

    /// A report of a fetched `price` for `feed_id` at `timestamp`, signed
    /// with this reporter's key.
    pub fn report(&self, feed_id: &FeedId, price: Price, timestamp: u64) -> (r: Result<PriceReport, OracleError>)
        ensures
            !price.spec_is_valid() ==> (r matches Err(OracleError::InvalidPrice(p)) && p == price.0),
            price.spec_is_valid() ==> match secp256k1_signature(signing_message_spec(feed_id.0@, price.0, timestamp),
                self.spec_key()@) {
                None => r matches Err(OracleError::InvalidSignature),
                Some(s) => (r matches Ok(rep) && rep.feed_id.0@ == feed_id.0@ && rep.price == price
                    && rep.timestamp == timestamp && rep.reporter == self.spec_address() && rep.signature@ == s),
            },
    {
        PriceReport::new(FeedId(feed_id.0.clone()), price, timestamp, self.address, &self.private_key)
    }
}

} // verus!
