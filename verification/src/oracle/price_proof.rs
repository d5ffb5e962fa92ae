//! Merkle commitments over a round's prices and inclusion proofs.
//!
//! Leaves are the Keccak-256 hash of `feed_id bytes || price (i128, big
//! endian) || round_id (u64, big endian) || timestamp (u64, big endian)`,
//! ordered by feed identifier. Each level pairs neighbours and hashes
//! `left || right`; an odd level repeats its last node.

use vstd::prelude::*;
use vstd::utf8::encode_utf8;
use vstd::std_specs::vec::*;
use crate::common::{lex_lt, bytes_lt, bytes32_eq, lemma_lex_lt_irreflexive, lemma_lex_lt_transitive};
use crate::crypto::{keccak256, keccak256_spec, be_bytes, push_be, push_all, byte_span, lemma_be_bytes_len,
    lemma_be_bytes_injective};
use crate::oracle::feed::{FeedId, Price};

verus! {

broadcast use vstd::seq_lib::to_multiset_insert;

/// One price committed to the tree.
#[derive(Clone, Debug)]
pub struct PriceEntry {
    pub feed_id: FeedId,
    pub price: Price,
    pub round_id: u64,
    pub timestamp: u64,
}

/// The UTF-8 bytes of a feed identifier.
pub open spec fn feed_key(e: PriceEntry) -> Seq<u8> {
    encode_utf8(e.feed_id.0@)
}

/// The bytes hashed into a leaf.
pub open spec fn leaf_bytes(e: PriceEntry) -> Seq<u8> {
    feed_key(e) + be_bytes((e.price.0 as u128) as nat, 16) + be_bytes(e.round_id as nat, 8)
        + be_bytes(e.timestamp as nat, 8)
}

/// The leaf bytes bind every field of an entry: entries with the same leaf
/// bytes have the same feed, price, round id and timestamp, so entries that
/// differ in any of them are hashed from different bytes.
pub proof fn lemma_leaf_bytes_bind_entry(a: PriceEntry, b: PriceEntry)
    requires
        leaf_bytes(a) == leaf_bytes(b),
    ensures
        a.feed_id.0@ == b.feed_id.0@,
        a.price == b.price,
        a.round_id == b.round_id,
        a.timestamp == b.timestamp,
{
    let pa = (a.price.0 as u128) as nat;
    let pb = (b.price.0 as u128) as nat;
    lemma_be_bytes_len(pa, 16);
    lemma_be_bytes_len(pb, 16);
    lemma_be_bytes_len(a.round_id as nat, 8);
    lemma_be_bytes_len(b.round_id as nat, 8);
    lemma_be_bytes_len(a.timestamp as nat, 8);
    lemma_be_bytes_len(b.timestamp as nat, 8);
    let la = leaf_bytes(a);
    let fa = feed_key(a);
    let fb = feed_key(b);
    assert(la.len() == fa.len() + 32);
    assert(leaf_bytes(b).len() == fb.len() + 32);
    assert(fa.len() == fb.len());
    let k = fa.len() as int;
    assert(la.subrange(0, k) =~= fa);
    assert(leaf_bytes(b).subrange(0, k) =~= fb);
    assert(la.subrange(k, k + 16) =~= be_bytes(pa, 16));
    assert(leaf_bytes(b).subrange(k, k + 16) =~= be_bytes(pb, 16));
    assert(la.subrange(k + 16, k + 24) =~= be_bytes(a.round_id as nat, 8));
    assert(leaf_bytes(b).subrange(k + 16, k + 24) =~= be_bytes(b.round_id as nat, 8));
    assert(la.subrange(k + 24, k + 32) =~= be_bytes(a.timestamp as nat, 8));
    assert(leaf_bytes(b).subrange(k + 24, k + 32) =~= be_bytes(b.timestamp as nat, 8));
    vstd::utf8::encode_utf8_decode_utf8(a.feed_id.0@);
    vstd::utf8::encode_utf8_decode_utf8(b.feed_id.0@);
    reveal_with_fuel(byte_span, 17);
    assert(byte_span(16) == 0x1_0000_0000_0000_0000_0000_0000_0000_0000);
    assert(byte_span(8) == 0x1_0000_0000_0000_0000);
    lemma_be_bytes_injective(pa, pb, 16);
    lemma_be_bytes_injective(a.round_id as nat, b.round_id as nat, 8);
    lemma_be_bytes_injective(a.timestamp as nat, b.timestamp as nat, 8);
    let xa = a.price.0;
    let xb = b.price.0;
    assert((xa as u128) == (xb as u128) ==> xa == xb) by (bit_vector);
}

/// The leaf hash of an entry.
pub open spec fn leaf_hash_spec(e: PriceEntry) -> Seq<u8> {
    keccak256_spec(leaf_bytes(e))
}

/// The hash of two nodes, `keccak256(left || right)`.
pub open spec fn hash_pair_spec(left: Seq<u8>, right: Seq<u8>) -> Seq<u8> {
    keccak256_spec(left + right)
}

impl PriceEntry {
    pub fn new(feed_id: FeedId, price: Price, round_id: u64, timestamp: u64) -> (r: Self)
        ensures
            r.feed_id == feed_id,
            r.price == price,
            r.round_id == round_id,
            r.timestamp == timestamp,
    {
        PriceEntry { feed_id, price, round_id, timestamp }
    }

    /// A copy of the entry, equal to it.
    pub fn copied(&self) -> (r: Self)
        ensures
            r == *self,
    {
        PriceEntry {
            feed_id: FeedId(self.feed_id.0.clone()),
            price: self.price,
            round_id: self.round_id,
            timestamp: self.timestamp,
        }
    }

    /// The canonical leaf hash of this entry.
    pub fn leaf_hash(&self) -> (r: [u8; 32])
        ensures
            r@ == leaf_hash_spec(*self),
    {
        let mut data: Vec<u8> = Vec::new();
        push_all(&mut data, self.feed_id.0.as_str().as_bytes());
        push_be(&mut data, self.price.0 as u128, 16);
        push_be(&mut data, self.round_id as u128, 8);
        push_be(&mut data, self.timestamp as u128, 8);
        keccak256(data.as_slice())
    }
}

/// The side on which a sibling sits during verification.
#[derive(Clone, Copy, Debug, PartialEq, Eq, Structural)]
pub enum MerkleDir {
    /// The sibling is on the left: `hash(sibling || current)`.
    Left,
    /// The sibling is on the right: `hash(current || sibling)`.
    Right,
}

/// Views of a list of hashes.
pub open spec fn hashes_view(v: Seq<[u8; 32]>) -> Seq<Seq<u8>> {
    v.map_values(|h: [u8; 32]| h@)
}

/// Recomputes the root from a starting node, siblings and directions
/// (as many steps as the shorter of the two lists).
pub open spec fn fold_path(cur: Seq<u8>, sibs: Seq<Seq<u8>>, path: Seq<MerkleDir>) -> Seq<u8>
    decreases sibs.len(),
{
    if sibs.len() == 0 || path.len() == 0 {
        cur
    } else {
        let next = match path[0] {
            MerkleDir::Left => hash_pair_spec(sibs[0], cur),
            MerkleDir::Right => hash_pair_spec(cur, sibs[0]),
        };
        fold_path(next, sibs.drop_first(), path.drop_first())
    }
}

/// A Merkle inclusion proof for one entry.
#[derive(Clone, Debug)]
pub struct PriceProof {
    pub entry: PriceEntry,
    /// Sibling hashes from leaf to root.
    pub siblings: Vec<[u8; 32]>,
    /// Side of each sibling.
    pub path: Vec<MerkleDir>,
    /// The root the proof is against.
    pub root: [u8; 32],
}

impl PriceProof {
    /// Whether the path leads from the entry's leaf to `root`.
    pub open spec fn spec_verify(&self) -> bool {
        fold_path(leaf_hash_spec(self.entry), hashes_view(self.siblings@), self.path@) == self.root@
    }

    /// Verifies the proof against its root.
    pub fn verify(&self) -> (r: bool)
        ensures
            r == self.spec_verify(),
    {
        let mut current = self.entry.leaf_hash();
        let n = if self.siblings.len() < self.path.len() { self.siblings.len() } else { self.path.len() };
        let ghost sibs = hashes_view(self.siblings@);
        let ghost target = fold_path(leaf_hash_spec(self.entry), sibs, self.path@);
        let mut i: usize = 0;
        proof {
            assert(sibs.skip(0) =~= sibs);
            assert(self.path@.skip(0) =~= self.path@);
        }
        while i < n
            invariant
                0 <= i <= n,
                n == if self.siblings@.len() < self.path@.len() { self.siblings@.len() } else { self.path@.len() },
                sibs == hashes_view(self.siblings@),
                target == fold_path(current@, sibs.skip(i as int), self.path@.skip(i as int)),
            decreases n - i,
        {
            let sib = self.siblings[i];
            let dir = self.path[i];
            proof {
                assert(sibs.skip(i as int)[0] == sib@);
                assert(self.path@.skip(i as int)[0] == dir);
                assert(sibs.skip(i as int).drop_first() =~= sibs.skip(i + 1));
                assert(self.path@.skip(i as int).drop_first() =~= self.path@.skip(i + 1));
            }
            current = match dir {
                MerkleDir::Left => hash_pair(&sib, &current),
                MerkleDir::Right => hash_pair(&current, &sib),
            };
            i += 1;
        }
        proof {
            assert(sibs.skip(i as int).len() == 0 || self.path@.skip(i as int).len() == 0);
        }
        bytes32_eq(&current, &self.root)
    }

    /// The feed this proof covers.
    pub fn feed_id(&self) -> (r: &FeedId)
        ensures
            *r == self.entry.feed_id,
    {
        &self.entry.feed_id
    }

    /// The proved price.
    pub fn price(&self) -> (r: Price)
        ensures
            r == self.entry.price,
    {
        self.entry.price
    }

    /// The proved round.
    pub fn round_id(&self) -> (r: u64)
        ensures
            r == self.entry.round_id,
    {
        self.entry.round_id
    }
}

/// `keccak256(left || right)`.
pub fn hash_pair(left: &[u8; 32], right: &[u8; 32]) -> (r: [u8; 32])
    ensures
        r@ == hash_pair_spec(left@, right@),
{
    let mut data: Vec<u8> = Vec::new();
    push_all(&mut data, left);
    push_all(&mut data, right);
    keccak256(data.as_slice())
}

/// The index of the partner of node `j` when a level is paired up.
pub open spec fn partner(len: int, j: int) -> int {
    if j % 2 == 0 {
        if j + 1 < len { j + 1 } else { len - 1 }
    } else {
        j - 1
    }
}

/// The level above `cur`: neighbours hashed in pairs, the last node paired
/// with itself when the count is odd.
pub open spec fn next_level(cur: Seq<Seq<u8>>) -> Seq<Seq<u8>> {
    Seq::new(
        ((cur.len() + 1) / 2) as nat,
        |j: int| hash_pair_spec(cur[2 * j], cur[if 2 * j + 1 < cur.len() { 2 * j + 1 } else { cur.len() - 1 }]),
    )
}

/// All levels from `cur` up to a single node.
pub open spec fn merkle_levels(cur: Seq<Seq<u8>>) -> Seq<Seq<Seq<u8>>>
    decreases cur.len(),
{
    if cur.len() <= 1 {
        seq![cur]
    } else {
        seq![cur] + merkle_levels(next_level(cur))
    }
}

/// The all-zero hash.
pub open spec fn zero_hash() -> Seq<u8> {
    Seq::new(32, |i: int| 0u8)
}

/// The levels of the tree built over `leaves`: a single zero node when there
/// are no leaves.
pub open spec fn tree_spec(leaves: Seq<Seq<u8>>) -> Seq<Seq<Seq<u8>>> {
    if leaves.len() == 0 {
        seq![seq![zero_hash()]]
    } else {
        merkle_levels(leaves)
    }
}

/// Views of a list of levels.
pub open spec fn tree_view(t: Seq<Vec<[u8; 32]>>) -> Seq<Seq<Seq<u8>>> {
    t.map_values(|l: Vec<[u8; 32]>| hashes_view(l@))
}

proof fn lemma_levels_shape(cur: Seq<Seq<u8>>)
    requires
        cur.len() >= 1,
    ensures
        merkle_levels(cur).len() >= 1,
        merkle_levels(cur)[0] == cur,
        merkle_levels(cur).last().len() == 1,
        forall|k: int| 0 <= k < merkle_levels(cur).len() ==> #[trigger] merkle_levels(cur)[k].len() >= 1,
        forall|k: int| 0 <= k < merkle_levels(cur).len() - 1 ==> #[trigger] merkle_levels(cur)[k + 1] == next_level(merkle_levels(cur)[k]),
        forall|k: int| 0 <= k < merkle_levels(cur).len() - 1 ==> #[trigger] merkle_levels(cur)[k].len() > 1,
    decreases cur.len(),
{
    if cur.len() > 1 {
        let nl = next_level(cur);
        lemma_levels_shape(nl);
        let rest = merkle_levels(nl);
        let all = merkle_levels(cur);
        assert(all == seq![cur] + rest);
        assert forall|k: int| 0 <= k < all.len() - 1 implies #[trigger] all[k + 1] == next_level(all[k]) by {
            if k == 0 {
                assert(all[0] == cur);
                assert(all[1] == rest[0]);
            } else {
                assert(all[k] == rest[k - 1]);
                assert(all[k + 1] == rest[k]);
                assert(rest[(k - 1) + 1] == next_level(rest[k - 1]));
            }
        }
        assert forall|k: int| 0 <= k < all.len() - 1 implies #[trigger] all[k].len() > 1 by {
            if k > 0 {
                assert(all[k] == rest[k - 1]);
            }
        }
        assert forall|k: int| 0 <= k < all.len() implies #[trigger] all[k].len() >= 1 by {
            if k > 0 {
                assert(all[k] == rest[k - 1]);
            }
        }
    }
}

/// Copies a list of hashes.
fn copy_hashes(v: &Vec<[u8; 32]>) -> (r: Vec<[u8; 32]>)
    ensures
        r@ == v@,
{
    let mut out: Vec<[u8; 32]> = Vec::new();
    let mut i: usize = 0;
    while i < v.len()
        invariant
            0 <= i <= v@.len(),
            out@ == v@.subrange(0, i as int),
        decreases v@.len() - i,
    {
        out.push(v[i]);
        i += 1;
        assert(out@ =~= v@.subrange(0, i as int));
    }
    assert(v@.subrange(0, v@.len() as int) =~= v@);
    out
}

/// Computes the level above `cur`.
fn build_next_level(cur: &Vec<[u8; 32]>) -> (r: Vec<[u8; 32]>)
    requires
        cur@.len() >= 1,
    ensures
        hashes_view(r@) == next_level(hashes_view(cur@)),
{
    let n = cur.len();
    let m = n / 2 + n % 2;
    let mut out: Vec<[u8; 32]> = Vec::new();
    let mut j: usize = 0;
    let ghost cv = hashes_view(cur@);
    while j < m
        invariant
            n == cur@.len(),
            n >= 1,
            m == n / 2 + n % 2,
            cv == hashes_view(cur@),
            j <= m,
            out@.len() == j,
            forall|k: int| 0 <= k < j ==> #[trigger] out@[k]@ == next_level(cv)[k],
        decreases m - j,
    {
        let left = cur[2 * j];
        let right = if 2 * j + 1 < n { cur[2 * j + 1] } else { cur[n - 1] };
        let h = hash_pair(&left, &right);
        out.push(h);
        j += 1;
    }
    proof {
        assert(j == (n + 1) / 2);
        assert forall|k: int| 0 <= k < j implies #[trigger] hashes_view(out@)[k] == next_level(cv)[k] by {
            assert(out@[k]@ == next_level(cv)[k]);
        }
        assert(hashes_view(out@) =~= next_level(cv));
    }
    out
}

/// Builds every level of the tree over the given leaf hashes (level 0 is the
/// leaves, the last level is the root alone).
fn build_merkle_tree(leaves: &Vec<[u8; 32]>) -> (r: Vec<Vec<[u8; 32]>>)
    ensures
        tree_view(r@) == tree_spec(hashes_view(leaves@)),
{
    if leaves.len() == 0 {
        let mut lvl: Vec<[u8; 32]> = Vec::new();
        let z: [u8; 32] = [0u8; 32];
        lvl.push(z);
        let mut t: Vec<Vec<[u8; 32]>> = Vec::new();
        t.push(lvl);
        proof {
            assert(lvl@[0] == z);
            assert(z@ =~= zero_hash());
            assert(hashes_view(t@[0]@) =~= seq![zero_hash()]);
            assert(tree_view(t@) =~= seq![seq![zero_hash()]]);
        }
        return t;
    }
    let ghost lv = hashes_view(leaves@);
    let mut tree: Vec<Vec<[u8; 32]>> = Vec::new();
    tree.push(copy_hashes(leaves));
    let mut current = copy_hashes(leaves);
    proof {
        lemma_levels_shape(lv);
        assert(tree_view(tree@) + merkle_levels(lv).drop_first() =~= merkle_levels(lv));
    }
    while current.len() > 1
        invariant
            current@.len() >= 1,
            tree_view(tree@) + merkle_levels(hashes_view(current@)).drop_first() == merkle_levels(lv),
        decreases current@.len(),
    {
        let ghost cv = hashes_view(current@);
        let next = build_next_level(&current);
        proof {
            assert(merkle_levels(cv) == seq![cv] + merkle_levels(next_level(cv)));
            lemma_levels_shape(next_level(cv));
            assert(merkle_levels(cv).drop_first() =~= merkle_levels(next_level(cv)));
            assert(merkle_levels(next_level(cv)) =~= seq![next_level(cv)] + merkle_levels(next_level(cv)).drop_first());
        }
        let ghost old_tree = tree@;
        tree.push(copy_hashes(&next));
        proof {
            assert(tree_view(tree@) =~= tree_view(old_tree).push(hashes_view(next@)));
            assert(tree_view(tree@) + merkle_levels(hashes_view(next@)).drop_first() =~= tree_view(old_tree) + merkle_levels(cv).drop_first());
        }
        current = next;
    }
    proof {
        assert(merkle_levels(hashes_view(current@)).drop_first() =~= Seq::<Seq<Seq<u8>>>::empty());
        assert(tree_view(tree@) =~= merkle_levels(lv));
    }
    tree
}

/// The siblings and directions collected from level `k` of `levels` up,
/// starting at index `idx`.
pub open spec fn proof_path(levels: Seq<Seq<Seq<u8>>>, k: int, idx: int) -> (Seq<Seq<u8>>, Seq<MerkleDir>)
    decreases levels.len() - 1 - k,
{
    if k < 0 || k >= levels.len() - 1 {
        (Seq::empty(), Seq::empty())
    } else {
        let level = levels[k];
        let sib = level[partner(level.len() as int, idx)];
        let dir = if idx % 2 == 0 { MerkleDir::Right } else { MerkleDir::Left };
        let rest = proof_path(levels, k + 1, idx / 2);
        (seq![sib] + rest.0, seq![dir] + rest.1)
    }
}

proof fn lemma_proof_path_lengths(levels: Seq<Seq<Seq<u8>>>, k: int, idx: int)
    ensures
        proof_path(levels, k, idx).0.len() == proof_path(levels, k, idx).1.len(),
    decreases levels.len() - 1 - k,
{
    if !(k < 0 || k >= levels.len() - 1) {
        lemma_proof_path_lengths(levels, k + 1, idx / 2);
    }
}

/// Collects the siblings and directions for leaf `idx`.
fn generate_proof(tree: &Vec<Vec<[u8; 32]>>, idx: usize) -> (r: (Vec<[u8; 32]>, Vec<MerkleDir>))
    requires
        tree@.len() >= 1,
        forall|k: int| 0 <= k < tree@.len() - 1 ==> #[trigger] tree@[k]@.len() >= 1,
        forall|k: int| 0 <= k < tree@.len() - 1 ==> (idx as int) / (pow2(k as nat) as int) < #[trigger] tree@[k]@.len(),
    ensures
        hashes_view(r.0@) == proof_path(tree_view(tree@), 0, idx as int).0,
        r.1@ == proof_path(tree_view(tree@), 0, idx as int).1,
{
    let mut siblings: Vec<[u8; 32]> = Vec::new();
    let mut path: Vec<MerkleDir> = Vec::new();
    let ghost tv = tree_view(tree@);
    let last = tree.len() - 1;
    let mut k: usize = 0;
    let mut i = idx;
    proof {
        assert(pow2(0) == 1) by { vstd::arithmetic::power2::lemma2_to64(); }
    }
    while k < last
        invariant
            last == tree@.len() - 1,
            tv == tree_view(tree@),
            0 <= k <= last,
            i == (idx as int) / (pow2(k as nat) as int),
            forall|q: int| 0 <= q < tree@.len() - 1 ==> #[trigger] tree@[q]@.len() >= 1,
            forall|q: int| 0 <= q < tree@.len() - 1 ==> (idx as int) / (pow2(q as nat) as int) < #[trigger] tree@[q]@.len(),
            proof_path(tv, 0, idx as int).0 == hashes_view(siblings@) + proof_path(tv, k as int, i as int).0,
            proof_path(tv, 0, idx as int).1 == path@ + proof_path(tv, k as int, i as int).1,
        decreases last - k,
    {
        let level = &tree[k];
        let len = level.len();
        assert(i < len);
        let sib_idx = if i % 2 == 0 {
            if i + 1 < len { i + 1 } else { len - 1 }
        } else {
            i - 1
        };
        let dir = if i % 2 == 0 { MerkleDir::Right } else { MerkleDir::Left };
        let ghost old_s = siblings@;
        let ghost old_p = path@;
        siblings.push(level[sib_idx]);
        path.push(dir);
        proof {
            assert(tv[k as int] == hashes_view(level@));
            assert(hashes_view(siblings@) =~= hashes_view(old_s).push(level@[sib_idx as int]@));
            let rest = proof_path(tv, k + 1, (i / 2) as int);
            assert(proof_path(tv, k as int, i as int).0 == seq![level@[sib_idx as int]@] + rest.0);
            assert(hashes_view(siblings@) + rest.0 =~= hashes_view(old_s) + (seq![level@[sib_idx as int]@] + rest.0));
            assert(path@ + rest.1 =~= old_p + (seq![dir] + rest.1));
            vstd::arithmetic::power2::lemma_pow2_unfold((k + 1) as nat);
            vstd::arithmetic::power2::lemma_pow2_pos(k as nat);
            vstd::arithmetic::div_mod::lemma_div_denominator(idx as int, pow2(k as nat) as int, 2);
            assert(pow2(k as nat) * 2 == pow2((k + 1) as nat)) by (nonlinear_arith)
                requires pow2((k + 1) as nat) == 2 * pow2(k as nat);
        }
        i = i / 2;
        k += 1;
    }
    proof {
        assert(proof_path(tv, k as int, i as int).0 =~= Seq::<Seq<u8>>::empty());
        assert(hashes_view(siblings@) + Seq::<Seq<u8>>::empty() =~= hashes_view(siblings@));
        assert(path@ + Seq::<MerkleDir>::empty() =~= path@);
    }
    (siblings, path)
}

use vstd::arithmetic::power2::pow2;

/// Following the collected path from a node reproduces the top of the tree.
proof fn lemma_proof_path_folds(levels: Seq<Seq<Seq<u8>>>, k: int, idx: int)
    requires
        levels.len() >= 1,
        0 <= k < levels.len(),
        levels.last().len() == 1,
        forall|q: int| 0 <= q < levels.len() - 1 ==> #[trigger] levels[q + 1] == next_level(levels[q]),
        forall|q: int| 0 <= q < levels.len() ==> #[trigger] levels[q].len() >= 1,
        0 <= idx < levels[k].len(),
    ensures
        fold_path(levels[k][idx], proof_path(levels, k, idx).0, proof_path(levels, k, idx).1)
            == levels.last()[0],
    decreases levels.len() - 1 - k,
{
    if k == levels.len() - 1 {
        assert(idx == 0);
    } else {
        let level = levels[k];
        let len = level.len() as int;
        let sib = level[partner(len, idx)];
        let dir = if idx % 2 == 0 { MerkleDir::Right } else { MerkleDir::Left };
        let rest = proof_path(levels, k + 1, idx / 2);
        let p = proof_path(levels, k, idx);
        assert(p.0 == seq![sib] + rest.0);
        assert(p.1 == seq![dir] + rest.1);
        assert((seq![sib] + rest.0).drop_first() =~= rest.0);
        assert((seq![dir] + rest.1).drop_first() =~= rest.1);
        let next = levels[k + 1];
        assert(next == next_level(level));
        assert(idx / 2 < next.len());
        let j = idx / 2;
        if idx % 2 == 0 {
            assert(2 * j == idx);
            assert(next[j] == hash_pair_spec(level[idx], sib));
        } else {
            assert(2 * j + 1 == idx);
            assert(next[j] == hash_pair_spec(sib, level[idx]));
        }
        lemma_proof_path_folds(levels, k + 1, j);
    }
}

/// A Merkle commitment over every price of one round.
#[derive(Clone, Debug)]
pub struct OraclePriceCommitment {
    /// The root over all leaves.
    pub root: [u8; 32],
    pub round_id: u64,
    pub block: u64,
    pub timestamp: u64,
    /// Number of committed feeds.
    pub feed_count: u32,
    /// Leaves in tree order.
    leaves: Vec<PriceEntry>,
    /// All levels, leaves first.
    tree: Vec<Vec<[u8; 32]>>,
}

/// Entries ordered by feed key, ties in their original order.
pub open spec fn sorted_by_key(s: Seq<PriceEntry>) -> bool {
    forall|i: int, j: int| 0 <= i < j < s.len() ==> !lex_lt(feed_key(#[trigger] s[j]), feed_key(#[trigger] s[i]))
}

/// The leaf hashes of a list of entries.
pub open spec fn leaf_hashes(s: Seq<PriceEntry>) -> Seq<Seq<u8>> {
    s.map_values(|e: PriceEntry| leaf_hash_spec(e))
}

impl OraclePriceCommitment {
    /// Well-formedness: the tree is built over the leaves and the root is its top.
    pub closed spec fn wf(&self) -> bool {
        &&& tree_view(self.tree@) == tree_spec(leaf_hashes(self.leaves@))
        &&& self.root@ == tree_spec(leaf_hashes(self.leaves@)).last()[0]
    }

    /// The root.
    pub closed spec fn spec_root(&self) -> [u8; 32] {
        self.root
    }

    /// The round.
    pub closed spec fn spec_round_id(&self) -> u64 {
        self.round_id
    }

    /// The block.
    pub closed spec fn spec_block(&self) -> u64 {
        self.block
    }

    /// The timestamp.
    pub closed spec fn spec_timestamp(&self) -> u64 {
        self.timestamp
    }

    /// The number of committed feeds.
    pub closed spec fn spec_feed_count(&self) -> u32 {
        self.feed_count
    }

    /// The committed entries, in tree order.
    pub closed spec fn spec_leaves(&self) -> Seq<PriceEntry> {
        self.leaves@
    }

    /// Builds the commitment: entries are ordered by feed identifier
    /// (stable), hashed into leaves, and the tree is built over them.
    pub fn build(entries: Vec<PriceEntry>, round_id: u64, block: u64, timestamp: u64) -> (r: Self)
        ensures
            r.wf(),
            sorted_by_key(r.spec_leaves()),
            r.spec_leaves().to_multiset() == entries@.to_multiset(),
            r.spec_round_id() == round_id,
            r.spec_block() == block,
            r.spec_timestamp() == timestamp,
            r.spec_feed_count() == entries@.len() as u32,
    {
        let n = entries.len();
        let sorted = sort_by_feed(entries);
        let mut hashes: Vec<[u8; 32]> = Vec::new();
        let mut i: usize = 0;
        while i < sorted.len()
            invariant
                0 <= i <= sorted@.len(),
                hashes_view(hashes@) == leaf_hashes(sorted@.subrange(0, i as int)),
            decreases sorted@.len() - i,
        {
            let h = sorted[i].leaf_hash();
            let ghost old_h = hashes@;
            hashes.push(h);
            proof {
                assert(hashes_view(hashes@) =~= hashes_view(old_h).push(h@));
                assert(leaf_hashes(sorted@.subrange(0, i + 1)) =~= leaf_hashes(sorted@.subrange(0, i as int)).push(leaf_hash_spec(sorted@[i as int])));
            }
            i += 1;
        }
        proof {
            assert(sorted@.subrange(0, sorted@.len() as int) =~= sorted@);
        }
        let tree = build_merkle_tree(&hashes);
        proof {
            let lh = leaf_hashes(sorted@);
            if lh.len() > 0 {
                lemma_levels_shape(lh);
            }
            assert(tree_view(tree@).len() >= 1);
            assert(tree_view(tree@).last() == tree@.last()@.map_values(|h: [u8; 32]| h@));
        }
        let top = tree.len() - 1;
        let root = tree[top][0];
        proof {
            assert(tree_view(tree@)[top as int] == hashes_view(tree@[top as int]@));
        }
        OraclePriceCommitment {
            root,
            round_id,
            block,
            timestamp,
            feed_count: n as u32,
            leaves: sorted,
            tree,
        }
    }

    /// The inclusion proof for `feed_id`, or `None` when the feed is not
    /// committed. The proof is for the first leaf with that feed.
    pub fn proof_for(&self, feed_id: &FeedId) -> (r: Option<PriceProof>)
        requires
            self.wf(),
        ensures
            r is None <==> (forall|i: int| 0 <= i < self.spec_leaves().len() ==> #[trigger] self.spec_leaves()[i].feed_id.0@ != feed_id.0@),
            r matches Some(p) ==> {
                &&& p.entry.feed_id.0@ == feed_id.0@
                &&& exists|i: int| 0 <= i < self.spec_leaves().len() && p.entry == #[trigger] self.spec_leaves()[i]
                &&& p.root == self.spec_root()
                &&& p.siblings@.len() == p.path@.len()
                &&& p.spec_verify()
            },
    {
        let mut idx: usize = 0;
        while idx < self.leaves.len()
            invariant
                0 <= idx <= self.leaves@.len(),
                forall|i: int| 0 <= i < idx ==> #[trigger] self.leaves@[i].feed_id.0@ != feed_id.0@,
            ensures
                0 <= idx <= self.leaves@.len(),
                forall|i: int| 0 <= i < idx ==> #[trigger] self.leaves@[i].feed_id.0@ != feed_id.0@,
                idx < self.leaves@.len() ==> self.leaves@[idx as int].feed_id.0@ == feed_id.0@,
            decreases self.leaves@.len() - idx,
        {
            if self.leaves[idx].feed_id == *feed_id {
                break;
            }
            idx += 1;
        }
        if idx == self.leaves.len() {
            return None;
        }
        let entry = self.leaves[idx].copied();
        let ghost lh = leaf_hashes(self.leaves@);
        proof {
            assert(self.spec_leaves()[idx as int].feed_id.0@ == feed_id.0@);
            assert(lh.len() == self.leaves@.len());
            lemma_levels_shape(lh);
            lemma_tree_index_bounds(lh, idx as int);
            let tv = tree_view(self.tree@);
            assert(tv == merkle_levels(lh));
            assert forall|k: int| 0 <= k < self.tree@.len() - 1 implies #[trigger] self.tree@[k]@.len() >= 1 by {
                assert(tv[k] == hashes_view(self.tree@[k]@));
            }
            assert forall|k: int| 0 <= k < self.tree@.len() - 1 implies (idx as int) / (pow2(k as nat) as int) < #[trigger] self.tree@[k]@.len() by {
                assert(tv[k] == hashes_view(self.tree@[k]@));
            }
        }
        let (siblings, path) = generate_proof(&self.tree, idx);
        let proof = PriceProof { entry, siblings, path, root: self.root };
        proof {
            let levels = merkle_levels(lh);
            assert(levels[0][idx as int] == leaf_hash_spec(entry));
            lemma_proof_path_folds(levels, 0, idx as int);
            lemma_proof_path_lengths(tree_view(self.tree@), 0, idx as int);
            assert(hashes_view(proof.siblings@).len() == proof.siblings@.len());
            assert(proof.spec_verify());
        }
        Some(proof)
    }

    /// The committed price for `feed_id` (first matching leaf).
    pub fn price_for(&self, feed_id: &FeedId) -> (r: Option<Price>)
        ensures
            r is None <==> (forall|i: int| 0 <= i < self.spec_leaves().len() ==> #[trigger] self.spec_leaves()[i].feed_id.0@ != feed_id.0@),
            r matches Some(p) ==> exists|i: int| 0 <= i < self.spec_leaves().len()
                && #[trigger] self.spec_leaves()[i].feed_id.0@ == feed_id.0@
                && self.spec_leaves()[i].price == p
                && forall|j: int| 0 <= j < i ==> self.spec_leaves()[j].feed_id.0@ != feed_id.0@,
    {
        let mut idx: usize = 0;
        while idx < self.leaves.len()
            invariant
                0 <= idx <= self.leaves@.len(),
                forall|i: int| 0 <= i < idx ==> #[trigger] self.leaves@[i].feed_id.0@ != feed_id.0@,
            decreases self.leaves@.len() - idx,
        {
            if self.leaves[idx].feed_id == *feed_id {
                proof {
                    assert(self.spec_leaves()[idx as int].feed_id.0@ == feed_id.0@);
                }
                return Some(self.leaves[idx].price);
            }
            idx += 1;
        }
        None
    }

    /// The committed feed identifiers, in tree order.
    pub fn feeds(&self) -> (r: Vec<&FeedId>)
        ensures
            r@.len() == self.spec_leaves().len(),
            forall|i: int| 0 <= i < r@.len() ==> *#[trigger] r@[i] == self.spec_leaves()[i].feed_id,
    {
        let mut out: Vec<&FeedId> = Vec::new();
        let mut i: usize = 0;
        while i < self.leaves.len()
            invariant
                0 <= i <= self.leaves@.len(),
                out@.len() == i,
                forall|k: int| 0 <= k < i ==> *#[trigger] out@[k] == self.leaves@[k].feed_id,
            decreases self.leaves@.len() - i,
        {
            out.push(&self.leaves[i].feed_id);
            i += 1;
        }
        out
    }
}

/// Leaf `idx` of a non-empty tree lies inside every level it climbs through.
proof fn lemma_tree_index_bounds(lh: Seq<Seq<u8>>, idx: int)
    requires
        lh.len() >= 1,
        0 <= idx < lh.len(),
    ensures
        forall|k: int| 0 <= k < merkle_levels(lh).len() ==> (idx as int) / (pow2(k as nat) as int) < #[trigger] merkle_levels(lh)[k].len(),
{
    lemma_levels_shape(lh);
    let levels = merkle_levels(lh);
    assert forall|k: int| 0 <= k < levels.len() implies (idx as int) / (pow2(k as nat) as int) < #[trigger] levels[k].len() by {
        lemma_level_index(lh, k, idx);
    }
}

proof fn lemma_level_index(lh: Seq<Seq<u8>>, k: int, idx: int)
    requires
        lh.len() >= 1,
        0 <= idx < lh.len(),
        0 <= k < merkle_levels(lh).len(),
    ensures
        (idx as int) / (pow2(k as nat) as int) < merkle_levels(lh)[k].len(),
    decreases k,
{
    lemma_levels_shape(lh);
    let levels = merkle_levels(lh);
    if k == 0 {
        vstd::arithmetic::power2::lemma2_to64();
    } else {
        lemma_level_index(lh, k - 1, idx);
        let prev = levels[k - 1];
        assert(levels[(k - 1) + 1] == next_level(levels[k - 1]));
        assert(levels[k] == next_level(prev));
        vstd::arithmetic::power2::lemma_pow2_unfold(k as nat);
        vstd::arithmetic::power2::lemma_pow2_pos((k - 1) as nat);
        vstd::arithmetic::div_mod::lemma_div_denominator(idx, pow2((k - 1) as nat) as int, 2);
        assert(pow2((k - 1) as nat) * 2 == pow2(k as nat)) by (nonlinear_arith)
            requires pow2(k as nat) == 2 * pow2((k - 1) as nat);
    }
}

/// Sorts entries by feed key, stably (insertion sort).
fn sort_by_feed(entries: Vec<PriceEntry>) -> (r: Vec<PriceEntry>)
    ensures
        sorted_by_key(r@),
        r@.to_multiset() == entries@.to_multiset(),
        r@.len() == entries@.len(),
{
    let mut out: Vec<PriceEntry> = Vec::new();
    let mut i: usize = 0;
    proof {
        assert(entries@.subrange(0, 0) =~= Seq::<PriceEntry>::empty());
    }
    while i < entries.len()
        invariant
            0 <= i <= entries@.len(),
            sorted_by_key(out@),
            out@.to_multiset() == entries@.subrange(0, i as int).to_multiset(),
            out@.len() == i,
        decreases entries@.len() - i,
    {
        let e = entries[i].copied();
        let key = e.feed_id.0.as_str().as_bytes();
        let mut p: usize = 0;
        while p < out.len()
            invariant
                0 <= p <= out@.len(),
                key@ == feed_key(e),
                forall|q: int| 0 <= q < p ==> !lex_lt(key@, feed_key(#[trigger] out@[q])),
            ensures
                0 <= p <= out@.len(),
                forall|q: int| 0 <= q < p ==> !lex_lt(key@, feed_key(#[trigger] out@[q])),
                p == out@.len() || lex_lt(key@, feed_key(out@[p as int])),
            decreases out@.len() - p,
        {
            if bytes_lt(key, out[p].feed_id.0.as_str().as_bytes()) {
                break;
            }
            p += 1;
        }
        let ghost old_out = out@;
        proof {
            assert forall|q: int| p <= q < old_out.len() implies !lex_lt(feed_key(#[trigger] old_out[q]), feed_key(e)) by {
                if lex_lt(feed_key(old_out[q]), feed_key(e)) {
                    assert(lex_lt(feed_key(e), feed_key(old_out[p as int])));
                    lemma_lex_lt_transitive(feed_key(old_out[q]), feed_key(e), feed_key(old_out[p as int]));
                    if q == p {
                        lemma_lex_lt_irreflexive(feed_key(old_out[q]));
                    }
                }
            }
        }
        out.insert(p, e);
        proof {
            assert(out@ == old_out.insert(p as int, e));
            assert(sorted_by_key(out@)) by {
                assert forall|a: int, b: int| 0 <= a < b < out@.len() implies !lex_lt(feed_key(#[trigger] out@[b]), feed_key(#[trigger] out@[a])) by {
                    if a < p && b < p {
                        assert(out@[a] == old_out[a] && out@[b] == old_out[b]);
                    } else if a < p && b == p {
                    } else if a < p {
                        assert(out@[a] == old_out[a] && out@[b] == old_out[b - 1]);
                    } else if a == p {
                        assert(out@[b] == old_out[b - 1]);
                    } else {
                        assert(out@[a] == old_out[a - 1] && out@[b] == old_out[b - 1]);
                    }
                }
            }
            assert(entries@.subrange(0, i + 1) =~= entries@.subrange(0, i as int).push(entries@[i as int]));
            vstd::seq_lib::to_multiset_build(entries@.subrange(0, i as int), entries@[i as int]);
        }
        i += 1;
    }
    proof {
        assert(entries@.subrange(0, entries@.len() as int) =~= entries@);
    }
    out
}


// ── Rolling history of commitments ──────────────────────────────────────────

/// Round identifiers strictly increase along the history.
pub open spec fn rounds_increasing(s: Seq<OraclePriceCommitment>) -> bool {
    forall|i: int, j: int| 0 <= i < j < s.len() ==> (#[trigger] s[i]).spec_round_id() < (#[trigger] s[j]).spec_round_id()
}

/// `p` splits `s` at round `k`: entries before `p` have smaller rounds,
/// entries from `p` on have rounds of at least `k`.
pub open spec fn round_split(s: Seq<OraclePriceCommitment>, k: u64, p: int) -> bool {
    &&& 0 <= p <= s.len()
    &&& forall|i: int| 0 <= i < p ==> (#[trigger] s[i]).spec_round_id() < k
    &&& forall|i: int| p <= i < s.len() ==> (#[trigger] s[i]).spec_round_id() >= k
}

/// `s` with `c` stored at split point `p`: it replaces the entry of its
/// round when there is one, and is inserted there otherwise.
pub open spec fn upsert_at(s: Seq<OraclePriceCommitment>, c: OraclePriceCommitment, p: int) -> Seq<OraclePriceCommitment> {
    if p < s.len() && s[p].spec_round_id() == c.spec_round_id() {
        s.update(p, c)
    } else {
        s.insert(p, c)
    }
}

/// The last `n` entries of `u` (all of them when there are fewer).
pub open spec fn keep_last(u: Seq<OraclePriceCommitment>, n: usize) -> Seq<OraclePriceCommitment> {
    if u.len() > n {
        u.subrange(u.len() - n, u.len() as int)
    } else {
        u
    }
}

/// No two entries of `s` are for the same feed.
pub open spec fn distinct_feeds(s: Seq<PriceEntry>) -> bool {
    forall|i: int, j: int| 0 <= i < j < s.len() ==> (#[trigger] s[i]).feed_id.0@ != (#[trigger] s[j]).feed_id.0@
}

/// Every entry of a commitment built from entries of distinct feeds can be
/// proven: the proof `proof_for` gives for its feed (here `r`, described
/// by `proof_for`'s contract) carries exactly that entry, is against the
/// commitment's root, has one direction per sibling, and verifies.
pub proof fn lemma_every_entry_provable(c: OraclePriceCommitment, entries: Seq<PriceEntry>, k: int, r: Option<PriceProof>)
    requires
        c.spec_leaves().to_multiset() == entries.to_multiset(),
        distinct_feeds(entries),
        0 <= k < entries.len(),
        r is None <==> (forall|i: int| 0 <= i < c.spec_leaves().len()
            ==> #[trigger] c.spec_leaves()[i].feed_id.0@ != entries[k].feed_id.0@),
        r matches Some(p) ==> {
            &&& p.entry.feed_id.0@ == entries[k].feed_id.0@
            &&& exists|i: int| 0 <= i < c.spec_leaves().len() && p.entry == #[trigger] c.spec_leaves()[i]
            &&& p.root == c.spec_root()
            &&& p.siblings@.len() == p.path@.len()
            &&& p.spec_verify()
        },
    ensures
        r matches Some(p) && p.entry == entries[k] && p.root == c.spec_root()
            && p.siblings@.len() == p.path@.len() && p.spec_verify(),
{
    let l = c.spec_leaves();
    let e = entries[k];
    entries.to_multiset_ensures();
    l.to_multiset_ensures();
    assert(entries.contains(e));
    assert(entries.to_multiset().count(e) > 0);
    assert(l.to_multiset().count(e) > 0);
    assert(l.contains(e));
    let w = choose|w: int| 0 <= w < l.len() && l[w] == e;
    assert(l[w].feed_id.0@ == e.feed_id.0@);
    let p = r->0;
    let i = choose|i: int| 0 <= i < l.len() && p.entry == #[trigger] l[i];
    assert(l.contains(l[i]));
    assert(l.to_multiset().count(l[i]) > 0);
    assert(entries.to_multiset().count(l[i]) > 0);
    assert(entries.contains(l[i]));
    let a = choose|a: int| 0 <= a < entries.len() && entries[a] == l[i];
    if a != k {
        if a < k {
            assert(entries[a].feed_id.0@ != entries[k].feed_id.0@);
        } else {
            assert(entries[k].feed_id.0@ != entries[a].feed_id.0@);
        }
    }
}

/// Some entry of `s` has round `x`.
pub open spec fn has_round(s: Seq<OraclePriceCommitment>, x: u64) -> bool {
    exists|j: int| 0 <= j < s.len() && (#[trigger] s[j]).spec_round_id() == x
}

/// `upsert_at` keeps rounds increasing.
proof fn lemma_upsert_increasing(s: Seq<OraclePriceCommitment>, c: OraclePriceCommitment, p: int)
    requires
        rounds_increasing(s),
        round_split(s, c.spec_round_id(), p),
    ensures
        rounds_increasing(upsert_at(s, c, p)),
{
    let u = upsert_at(s, c, p);
    let k = c.spec_round_id();
    assert forall|i: int, j: int| 0 <= i < j < u.len() implies (#[trigger] u[i]).spec_round_id() < (#[trigger] u[j]).spec_round_id() by {
        if p < s.len() && s[p].spec_round_id() == k {
            assert(u[i] == s[i] || i == p);
            assert(u[j] == s[j] || j == p);
        } else {
            if i < p { assert(u[i] == s[i]); }
            if i > p { assert(u[i] == s[i - 1]); }
            if j < p { assert(u[j] == s[j]); }
            if j > p {
                assert(u[j] == s[j - 1]);
                assert(s[j - 1].spec_round_id() > k) by {
                    if j - 1 > p {
                        assert(s[p].spec_round_id() < s[j - 1].spec_round_id());
                    }
                }
            }
        }
    }
}

/// In increasing `u`, entry `m` is kept by `keep_last(u, n)` or is older
/// than every kept entry.
proof fn lemma_kept_or_older(u: Seq<OraclePriceCommitment>, n: usize, m: int)
    requires
        rounds_increasing(u),
        0 <= m < u.len(),
    ensures
        has_round(keep_last(u, n), u[m].spec_round_id())
            || forall|j: int| 0 <= j < keep_last(u, n).len()
                ==> u[m].spec_round_id() < (#[trigger] keep_last(u, n)[j]).spec_round_id(),
{
    let t = keep_last(u, n);
    if u.len() > n {
        let d = u.len() - n;
        if m >= d {
            assert(t[m - d] == u[m]);
        } else {
            assert forall|j: int| 0 <= j < t.len() implies u[m].spec_round_id() < (#[trigger] t[j]).spec_round_id() by {
                assert(t[j] == u[d + j]);
            }
        }
    } else {
        assert(t[m] == u[m]);
    }
}

/// Inserting a commitment keeps the latest rounds: every round that was
/// stored, and the inserted one, is still stored or older than every
/// stored round; every stored round is the inserted one or one that was
/// stored before; and as many are stored as there are rounds among the
/// old ones and the inserted one, up to the limit.
pub proof fn lemma_insert_keeps_latest(pre: CommitmentRegistry, post: CommitmentRegistry, c: OraclePriceCommitment)
    requires
        pre.wf(),
        exists|p: int| #[trigger] round_split(pre.spec_history(), c.spec_round_id(), p)
            && post.spec_history() == keep_last(upsert_at(pre.spec_history(), c, p), pre.spec_max_history()),
    ensures
        forall|i: int| 0 <= i < pre.spec_history().len() ==> has_round(post.spec_history(), (#[trigger] pre.spec_history()[i]).spec_round_id())
            || forall|j: int| 0 <= j < post.spec_history().len()
                ==> pre.spec_history()[i].spec_round_id() < (#[trigger] post.spec_history()[j]).spec_round_id(),
        has_round(post.spec_history(), c.spec_round_id())
            || forall|j: int| 0 <= j < post.spec_history().len()
                ==> c.spec_round_id() < (#[trigger] post.spec_history()[j]).spec_round_id(),
        forall|j: int| 0 <= j < post.spec_history().len() ==> (#[trigger] post.spec_history()[j]).spec_round_id() == c.spec_round_id()
            || has_round(pre.spec_history(), post.spec_history()[j].spec_round_id()),
        ({
            let stored = if has_round(pre.spec_history(), c.spec_round_id()) {
                pre.spec_history().len() as int
            } else {
                pre.spec_history().len() + 1int
            };
            post.spec_history().len() == if stored > pre.spec_max_history() { pre.spec_max_history() as int } else { stored }
        }),
{
    let s = pre.spec_history();
    let k = c.spec_round_id();
    let p = choose|p: int| #[trigger] round_split(s, k, p)
        && post.spec_history() == keep_last(upsert_at(s, c, p), pre.spec_max_history());
    let u = upsert_at(s, c, p);
    let n = pre.spec_max_history();
    let t = keep_last(u, n);
    let replaced = p < s.len() && s[p].spec_round_id() == k;
    lemma_upsert_increasing(s, c, p);
    assert(has_round(s, k) <==> replaced) by {
        if has_round(s, k) {
            let j = choose|j: int| 0 <= j < s.len() && (#[trigger] s[j]).spec_round_id() == k;
            if p < j {
                assert(s[p].spec_round_id() < s[j].spec_round_id());
            }
        }
        if replaced {
            assert(s[p].spec_round_id() == k);
        }
    }
    assert forall|i: int| 0 <= i < s.len() implies has_round(t, (#[trigger] s[i]).spec_round_id())
        || forall|j: int| 0 <= j < t.len() ==> s[i].spec_round_id() < (#[trigger] t[j]).spec_round_id() by {
        let m = if replaced || i < p { i } else { i + 1 };
        if replaced && i == p {
            assert(u[m].spec_round_id() == s[i].spec_round_id());
        } else {
            assert(u[m] == s[i]);
        }
        lemma_kept_or_older(u, n, m);
    }
    assert(u[p] == c);
    lemma_kept_or_older(u, n, p);
    assert forall|j: int| 0 <= j < t.len() implies (#[trigger] t[j]).spec_round_id() == k
        || has_round(s, t[j].spec_round_id()) by {
        let m = if u.len() > n { u.len() - n + j } else { j };
        assert(t[j] == u[m]);
        if m != p {
            let i = if replaced || m < p { m } else { m - 1 };
            assert(u[m] == s[i]);
        }
    }
}

/// The most recent commitments, one per round, oldest evicted first.
pub struct CommitmentRegistry {
    /// Ordered by increasing round.
    history: Vec<OraclePriceCommitment>,
    max_history: usize,
}

impl CommitmentRegistry {
    /// The stored commitments, by increasing round.
    pub closed spec fn spec_history(&self) -> Seq<OraclePriceCommitment> {
        self.history@
    }

    /// How many commitments are kept.
    pub closed spec fn spec_max_history(&self) -> usize {
        self.max_history
    }

    /// Rounds strictly increase, every commitment is well formed and at most
    /// `max_history` are kept.
    pub open spec fn wf(&self) -> bool {
        &&& rounds_increasing(self.spec_history())
        &&& forall|i: int| 0 <= i < self.spec_history().len() ==> (#[trigger] self.spec_history()[i]).wf()
        &&& self.spec_history().len() <= self.spec_max_history()
    }

    /// An empty registry keeping at most `max_history` rounds.
    pub fn new(max_history: usize) -> (r: Self)
        ensures
            r.wf(),
            r.spec_history().len() == 0,
            r.spec_max_history() == max_history,
    {
        CommitmentRegistry { history: Vec::new(), max_history }
    }

    /// Stores `commitment` under its round (replacing an earlier one of the
    /// same round), then evicts the oldest rounds beyond the limit.
    pub fn insert(&mut self, commitment: OraclePriceCommitment)
        requires
            old(self).wf(),
            commitment.wf(),
        ensures
            final(self).wf(),
            final(self).spec_max_history() == old(self).spec_max_history(),
            exists|p: int| #[trigger] round_split(old(self).spec_history(), commitment.spec_round_id(), p)
                && final(self).spec_history() == keep_last(upsert_at(old(self).spec_history(), commitment, p), old(self).spec_max_history()),
            old(self).spec_max_history() > 0
                && (forall|i: int| 0 <= i < old(self).spec_history().len()
                    ==> (#[trigger] old(self).spec_history()[i]).spec_round_id() < commitment.spec_round_id())
                ==> final(self).spec_history().last() == commitment,
    {
        let k = commitment.round_id;
        let ghost s = self.history@;
        let mut p: usize = 0;
        while p < self.history.len()
            invariant
                self.history@ == s,
                self.max_history == old(self).max_history,
                rounds_increasing(s),
                0 <= p <= s.len(),
                forall|i: int| 0 <= i < p ==> (#[trigger] s[i]).spec_round_id() < k,
            ensures
                0 <= p <= s.len(),
                forall|i: int| 0 <= i < p ==> (#[trigger] s[i]).spec_round_id() < k,
                p < s.len() ==> s[p as int].spec_round_id() >= k,
            decreases s.len() - p,
        {
            if self.history[p].round_id >= k {
                break;
            }
            p += 1;
        }
        proof {
            assert forall|i: int| p <= i < s.len() implies (#[trigger] s[i]).spec_round_id() >= k by {
                if i > p {
                    assert(s[p as int].spec_round_id() < s[i].spec_round_id());
                }
            }
            assert(round_split(s, k, p as int));
        }
        if p < self.history.len() && self.history[p].round_id == k {
            self.history.set(p, commitment);
        } else {
            self.history.insert(p, commitment);
        }
        let ghost u = self.history@;
        proof {
            assert(u == upsert_at(s, commitment, p as int));
            assert forall|i: int, j: int| 0 <= i < j < u.len() implies (#[trigger] u[i]).spec_round_id() < (#[trigger] u[j]).spec_round_id() by {
                if p < s.len() && s[p as int].spec_round_id() == k {
                    assert(u[i] == s[i] || i == p);
                    assert(u[j] == s[j] || j == p);
                } else {
                    if i < p { assert(u[i] == s[i]); }
                    if i > p { assert(u[i] == s[i - 1]); }
                    if j < p { assert(u[j] == s[j]); }
                    if j > p {
                        assert(u[j] == s[j - 1]);
                        assert(s[j - 1].spec_round_id() > k) by {
                            if j - 1 > p {
                                assert(s[p as int].spec_round_id() < s[j - 1].spec_round_id());
                            }
                        }
                    }
                }
            }
            assert forall|i: int| 0 <= i < u.len() implies (#[trigger] u[i]).wf() by {
                if i != p {
                    if p < s.len() && s[p as int].spec_round_id() == k {
                        assert(u[i] == s[i]);
                    } else if i < p {
                        assert(u[i] == s[i]);
                    } else {
                        assert(u[i] == s[i - 1]);
                    }
                }
            }
        }
        while self.history.len() > self.max_history
            invariant
                self.max_history == old(self).max_history,
                rounds_increasing(u),
                forall|i: int| 0 <= i < u.len() ==> (#[trigger] u[i]).wf(),
                self.history@.len() <= u.len(),
                self.history@ == u.subrange(u.len() - self.history@.len(), u.len() as int),
                u.len() > self.max_history ==> self.history@.len() >= self.max_history,
                u.len() <= self.max_history ==> self.history@ == u,
            decreases self.history@.len(),
        {
            let ghost before = self.history@;
            self.history.remove(0);
            proof {
                assert(self.history@ =~= u.subrange(u.len() - self.history@.len(), u.len() as int));
            }
        }
        proof {
            let h = self.history@;
            assert(h == keep_last(u, self.max_history)) by {
                if u.len() > self.max_history {
                    assert(h.len() == self.max_history);
                } else {
                    assert(h == u);
                }
            }
            assert forall|i: int, j: int| 0 <= i < j < h.len() implies (#[trigger] h[i]).spec_round_id() < (#[trigger] h[j]).spec_round_id() by {
                let off = u.len() - h.len();
                assert(h[i] == u[i + off] && h[j] == u[j + off]);
            }
            assert forall|i: int| 0 <= i < h.len() implies (#[trigger] h[i]).wf() by {
                let off = u.len() - h.len();
                assert(h[i] == u[i + off]);
            }
            if self.max_history > 0 && (forall|i: int| 0 <= i < s.len() ==> (#[trigger] s[i]).spec_round_id() < k) {
                assert(p == s.len()) by {
                    if p < s.len() {
                        assert(s[p as int].spec_round_id() < k);
                    }
                }
                assert(u.last() == commitment);
                assert(h.len() >= 1);
                assert(h.last() == u.last());
            }
        }
    }

    /// The commitment of `round_id`, if it is stored.
    pub fn get(&self, round_id: u64) -> (r: Option<&OraclePriceCommitment>)
        ensures
            r is None <==> (forall|i: int| 0 <= i < self.spec_history().len() ==> (#[trigger] self.spec_history()[i]).spec_round_id() != round_id),
            r matches Some(c) ==> (c.spec_round_id() == round_id
                && exists|i: int| 0 <= i < self.spec_history().len() && *c == #[trigger] self.spec_history()[i]),
    {
        let mut i: usize = 0;
        while i < self.history.len()
            invariant
                0 <= i <= self.history@.len(),
                forall|j: int| 0 <= j < i ==> (#[trigger] self.history@[j]).spec_round_id() != round_id,
            decreases self.history@.len() - i,
        {
            if self.history[i].round_id == round_id {
                proof {
                    assert(self.spec_history()[i as int] == self.history@[i as int]);
                }
                return Some(&self.history[i]);
            }
            i += 1;
        }
        None
    }

    /// The commitment of the highest stored round.
    pub fn latest(&self) -> (r: Option<&OraclePriceCommitment>)
        ensures
            self.spec_history().len() == 0 ==> r is None,
            self.spec_history().len() > 0 ==> (r matches Some(c) && *c == self.spec_history().last()),
    {
        let n = self.history.len();
        if n == 0 {
            None
        } else {
            Some(&self.history[n - 1])
        }
    }

    /// The inclusion proof of `feed_id` in the latest round.
    pub fn latest_proof_for(&self, feed_id: &FeedId) -> (r: Option<PriceProof>)
        requires
            self.wf(),
        ensures
            self.spec_history().len() == 0 ==> r is None,
            self.spec_history().len() > 0 ==> {
                let c = self.spec_history().last();
                &&& r is None <==> (forall|i: int| 0 <= i < c.spec_leaves().len() ==> #[trigger] c.spec_leaves()[i].feed_id.0@ != feed_id.0@)
                &&& r matches Some(p) ==> {
                    &&& p.entry.feed_id.0@ == feed_id.0@
                    &&& exists|i: int| 0 <= i < c.spec_leaves().len() && p.entry == #[trigger] c.spec_leaves()[i]
                    &&& p.root == c.spec_root()
                    &&& p.spec_verify()
                }
            },
    {
        match self.latest() {
            None => None,
            Some(c) => {
                proof {
                    let h = self.spec_history();
                    assert(h[h.len() - 1].wf());
                }
                c.proof_for(feed_id)
            }
        }
    }

    /// How many commitments are stored.
    pub fn len(&self) -> (r: usize)
        ensures r == self.spec_history().len(),
    {
        self.history.len()
    }

    /// Whether no commitment is stored.
    pub fn is_empty(&self) -> (r: bool)
        ensures r <==> self.spec_history().len() == 0,
    {
        self.history.len() == 0
    }
}

} // verus!
