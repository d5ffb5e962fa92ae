//! Hash functions provided by outside crates, and big-endian byte encoding.

use vstd::prelude::*;
use sha3::Digest;

verus! {

/// The Keccak-256 digest of a byte string (the pre-standard Keccak padding
/// used by Ethereum), as computed by the `sha3` crate's `Keccak256`.
pub uninterp spec fn keccak256_spec(data: Seq<u8>) -> Seq<u8>;

/// The SHA-256 digest of a byte string, as computed by the `sha2` crate.
pub uninterp spec fn sha256_spec(data: Seq<u8>) -> Seq<u8>;

/// The SHA3-256 digest of a byte string, as computed by the `sha3` crate.
pub uninterp spec fn sha3_256_spec(data: Seq<u8>) -> Seq<u8>;

/// The SHA3-512 digest of a byte string, as computed by the `sha3` crate.
pub uninterp spec fn sha3_512_spec(data: Seq<u8>) -> Seq<u8>;

/// Calls `sha3::Keccak256::digest`. The contract only names the digest: the
/// output is `keccak256_spec` of the input bytes (32 bytes long).
#[verifier::external_body]
pub fn keccak256(data: &[u8]) -> (r: [u8; 32])
    ensures
        r@ == keccak256_spec(data@),
{
    sha3::Keccak256::digest(data).into()
}

/// Calls `sha2::Sha256::digest`. The contract only names the digest.
#[verifier::external_body]
pub fn sha256(data: &[u8]) -> (r: [u8; 32])
    ensures
        r@ == sha256_spec(data@),
{
    sha2::Sha256::digest(data).into()
}

/// Calls `sha3::Sha3_256::digest`. The contract only names the digest.
#[verifier::external_body]
pub fn sha3_256(data: &[u8]) -> (r: [u8; 32])
    ensures
        r@ == sha3_256_spec(data@),
{
    sha3::Sha3_256::digest(data).into()
}

/// Calls `sha3::Sha3_512::digest`. The contract only names the digest.
#[verifier::external_body]
pub fn sha3_512(data: &[u8]) -> (r: [u8; 64])
    ensures
        r@ == sha3_512_spec(data@),
{
    sha3::Sha3_512::digest(data).into()
}

/// The low `n` bytes of `x`, most significant first.
pub open spec fn be_bytes(x: nat, n: nat) -> Seq<u8>
    decreases n,
{
    if n == 0 {
        Seq::empty()
    } else {
        be_bytes(x / 256, (n - 1) as nat).push((x % 256) as u8)
    }
}

/// `256^n`: how many numbers `n` bytes can tell apart.
pub open spec fn byte_span(n: nat) -> nat
    decreases n,
{
    if n == 0 { 1 } else { 256 * byte_span((n - 1) as nat) }
}

/// `be_bytes(x, n)` is `n` bytes long.
pub proof fn lemma_be_bytes_len(x: nat, n: nat)
    ensures
        be_bytes(x, n).len() == n,
    decreases n,
{
    if n > 0 {
        lemma_be_bytes_len(x / 256, (n - 1) as nat);
    }
}

/// Numbers below `256^n` have distinct `n`-byte encodings.
pub proof fn lemma_be_bytes_injective(x: nat, y: nat, n: nat)
    requires
        x < byte_span(n),
        y < byte_span(n),
        be_bytes(x, n) == be_bytes(y, n),
    ensures
        x == y,
    decreases n,
{
    if n > 0 {
        let m = (n - 1) as nat;
        let bx = be_bytes(x, n);
        let by = be_bytes(y, n);
        assert(bx.drop_last() =~= be_bytes(x / 256, m));
        assert(by.drop_last() =~= be_bytes(y / 256, m));
        assert(bx.last() == (x % 256) as u8);
        assert(by.last() == (y % 256) as u8);
        assert(x % 256 == y % 256);
        let s = byte_span(m);
        assert(x / 256 < s) by (nonlinear_arith)
            requires x < 256 * s;
        assert(y / 256 < s) by (nonlinear_arith)
            requires y < 256 * s;
        lemma_be_bytes_injective(x / 256, y / 256, m);
    }
}

/// Appends the low `n` bytes of `x` to `out`, most significant first.
pub fn push_be(out: &mut Vec<u8>, x: u128, n: usize)
    ensures
        final(out)@ == old(out)@ + be_bytes(x as nat, n as nat),
    decreases n,
{
    if n == 0 {
        assert(old(out)@ + be_bytes(x as nat, 0) =~= old(out)@);
    } else {
        push_be(out, x / 256, n - 1);
        out.push((x % 256) as u8);
        assert((x / 256) as nat == (x as nat) / 256);
        assert(old(out)@ + be_bytes(x as nat, n as nat) =~= old(out)@ + be_bytes(
            (x as nat) / 256,
            (n - 1) as nat,
        ) + seq![(x % 256) as u8]);
    }
}

/// Appends all bytes of `src` to `out`.
pub fn push_all(out: &mut Vec<u8>, src: &[u8])
    ensures
        final(out)@ == old(out)@ + src@,
{
    let mut i: usize = 0;
    while i < src.len()
        invariant
            0 <= i <= src@.len(),
            out@ == old(out)@ + src@.subrange(0, i as int),
        decreases src@.len() - i,
    {
        out.push(src[i]);
        i += 1;
        assert(src@.subrange(0, i as int) =~= src@.subrange(0, i - 1).push(src@[i - 1]));
    }
    assert(src@.subrange(0, src@.len() as int) =~= src@);
}

/// The low `n` bytes of `x`, least significant first.
pub open spec fn le_bytes(x: nat, n: nat) -> Seq<u8>
    decreases n,
{
    if n == 0 {
        Seq::empty()
    } else {
        seq![(x % 256) as u8] + le_bytes(x / 256, (n - 1) as nat)
    }
}

/// Appends the low `n` bytes of `x` to `out`, least significant first.
pub fn push_le(out: &mut Vec<u8>, x: u64, n: usize)
    ensures
        final(out)@ == old(out)@ + le_bytes(x as nat, n as nat),
    decreases n,
{
    if n == 0 {
        assert(old(out)@ + le_bytes(x as nat, 0) =~= old(out)@);
    } else {
        out.push((x % 256) as u8);
        let ghost mid = out@;
        push_le(out, x / 256, n - 1);
        assert((x / 256) as nat == (x as nat) / 256);
        assert(old(out)@ + le_bytes(x as nat, n as nat) =~= mid + le_bytes((x as nat) / 256, (n - 1) as nat));
    }
}

/// The first 32 bytes of the SHA3-256 digest (the whole digest).
pub open spec fn sha3_256_bytes(data: Seq<u8>) -> Seq<u8> {
    Seq::new(32, |i: int| sha3_256_spec(data)[i])
}

/// The first 64 bytes of the SHA3-512 digest (the whole digest).
pub open spec fn sha3_512_bytes(data: Seq<u8>) -> Seq<u8> {
    Seq::new(64, |i: int| sha3_512_spec(data)[i])
}

} // verus!
