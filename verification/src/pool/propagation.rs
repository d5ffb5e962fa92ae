//! Transaction gossip: announcing hashes, remembering which peer has seen
//! which transaction (for a time-to-live), deciding what to relay, limiting
//! each peer's rate with a token bucket, and choosing peers for a
//! broadcast.

use vstd::prelude::*;
use crate::table::{Table, TableKey};

verus! {

/// Gossip topic of full transactions.
pub const MEMPOOL_GOSSIP_TOPIC: &'static str = "/zbx/mempool/txs/1";
/// Gossip topic of hash announcements.
pub const TX_ANNOUNCEMENT_TOPIC: &'static str = "/zbx/mempool/announce/1";
/// Token refill per second of a peer's bucket.
pub const MAX_TX_PER_PEER_PER_SECOND: u32 = 100;
/// Size of a peer's bucket (burst allowance).
pub const FLOOD_BUCKET_CAPACITY: u32 = 500;
/// Transactions per second accepted from all peers together.
pub const GLOBAL_FLOOD_LIMIT: u32 = 10_000;
/// Most hashes sent to a newly connected peer.
pub const MAX_SYNC_TXS: usize = 256;
/// Most peers that get a full transaction body.
pub const MAX_DIRECT_BROADCAST_PEERS: usize = 8;

/// An announcement of transaction hashes (with types and size estimates).
#[derive(Debug, Clone)]
pub struct NewPooledTxHashes {
    pub hashes: Vec<[u8; 32]>,
    pub types: Vec<u8>,
    pub sizes: Vec<u32>,
}

/// A request for transaction bodies.
#[derive(Debug, Clone)]
pub struct GetPooledTransactions {
    pub request_id: u64,
    pub hashes: Vec<[u8; 32]>,
}

/// Transaction bodies answering a request.
#[derive(Debug, Clone)]
pub struct PooledTransactions {
    pub request_id: u64,
    pub txs: Vec<Vec<u8>>,
}

/// Why a transaction left the pool.
#[derive(Debug, Clone, Copy)]
pub enum TxRemoveReason {
    Mined,
    ReplacedByFee,
    Expired,
    Evicted,
    Invalid,
}

/// A pool event.
#[derive(Debug, Clone)]
pub enum TxEvent {
    NewPendingTx { hash: [u8; 32], from: [u8; 20], raw: Vec<u8> },
    TxRemoved { hash: [u8; 32], reason: TxRemoveReason },
}

/// The peers named in a list.
pub open spec fn peer_set(peers: Seq<String>) -> Set<Seq<char>> {
    Set::new(|p: Seq<char>| exists|i: int| 0 <= i < peers.len() && (#[trigger] peers[i])@ == p)
}

/// The cache left after dropping the hashes whose expiry is at or before
/// `now`, oldest first, stopping at the first that has not expired.
pub open spec fn evicted(seen: Map<[u8; 32], Vec<String>>, expiry: Seq<([u8; 32], u64)>, now: u64)
    -> (Map<[u8; 32], Vec<String>>, Seq<([u8; 32], u64)>)
    decreases expiry.len(),
{
    if expiry.len() == 0 || expiry[0].1 > now {
        (seen, expiry)
    } else {
        evicted(seen.remove(expiry[0].0), expiry.drop_first(), now)
    }
}

/// Which peers announced which transactions, with expiry times.
pub struct SeenTxCache {
    /// Hash → peers that announced it.
    pub seen: Table<[u8; 32], Vec<String>>,
    /// Hashes with their expiry, oldest first.
    pub expiry: Vec<([u8; 32], u64)>,
    pub ttl_secs: u64,
}

impl SeenTxCache {
    /// An empty cache with the given time-to-live.
    pub fn new(ttl_secs: u64) -> (r: Self)
        ensures
            r.seen.wf(),
            r.seen.view() == Map::<[u8; 32], Vec<String>>::empty(),
            r.expiry@.len() == 0,
            r.ttl_secs == ttl_secs,
    {
        SeenTxCache { seen: Table::new(), expiry: Vec::new(), ttl_secs }
    }

    /// Records that `from_peer` announced `hash` at `now`, after dropping
    /// expired entries; returns whether the hash was new (then it expires
    /// `ttl_secs` later).
    pub fn mark_seen(&mut self, hash: [u8; 32], from_peer: &str, now_secs: u64) -> (r: bool)
        requires
            old(self).seen.wf(),
            now_secs + old(self).ttl_secs <= u64::MAX,
        ensures
            final(self).seen.wf(),
            final(self).ttl_secs == old(self).ttl_secs,
            ({
                let (s1, e1) = evicted(old(self).seen.view(), old(self).expiry@, now_secs);
                &&& r == !s1.dom().contains(hash)
                &&& final(self).seen.view().dom() == s1.dom().insert(hash)
                &&& forall|h: [u8; 32]| h != hash && s1.dom().contains(h) ==> #[trigger] final(self).seen.view()[h] == s1[h]
                &&& peer_set(final(self).seen.view()[hash]@) == (if r { Set::<Seq<char>>::empty() } else {
                    peer_set(s1[hash]@) }).insert(from_peer@)
                &&& final(self).expiry@ == (if r { e1.push((hash, (now_secs + old(self).ttl_secs) as u64)) } else { e1 })
            }),
    {
        self.evict_expired(now_secs);
        let first_time = !self.seen.contains(&hash);
        let mut peers = match self.seen.take(&hash) {
            Some(p) => p,
            None => Vec::new(),
        };
        let ghost before = peers@;
        let mut i: usize = 0;
        let mut present = false;
        while i < peers.len()
            invariant
                0 <= i <= peers@.len(),
                present == (exists|k: int| 0 <= k < i && (#[trigger] peers@[k])@ == from_peer@),
            decreases peers@.len() - i,
        {
            if crate::text::str_eq(peers[i].as_str(), from_peer) {
                present = true;
            }
            i += 1;
        }
        if !present {
            peers.push(from_peer.to_owned());
            proof {
                assert(peer_set(peers@) =~= peer_set(before).insert(from_peer@)) by {
                    assert(peers@[before.len() as int]@ == from_peer@);
                    assert forall|p: Seq<char>| peer_set(before).contains(p) implies peer_set(peers@).contains(p) by {
                        let k = choose|k: int| 0 <= k < before.len() && (#[trigger] before[k])@ == p;
                        assert(peers@[k] == before[k]);
                    }
                    assert forall|p: Seq<char>| peer_set(peers@).contains(p) && p != from_peer@ implies peer_set(before).contains(p) by {
                        let k = choose|k: int| 0 <= k < peers@.len() && (#[trigger] peers@[k])@ == p;
                        assert(k < before.len());
                        assert(before[k] == peers@[k]);
                    }
                }
            }
        } else {
            proof {
                assert(peer_set(peers@) =~= peer_set(before).insert(from_peer@));
            }
        }
        let ghost s1 = self.seen.view();
        self.seen.set(hash, peers);
        if first_time {
            self.expiry.push((hash, now_secs + self.ttl_secs));
        }
        proof {
            if first_time {
                assert(before =~= Seq::<String>::empty());
                assert(peer_set(before) =~= Set::<Seq<char>>::empty());
            }
        }
        first_time
    }

    /// Whether `peer` announced `hash` (and it has not been dropped).
    pub fn peer_has_seen(&self, hash: &[u8; 32], peer: &str) -> (r: bool)
        requires
            self.seen.wf(),
        ensures
            r == (self.seen.view().dom().contains(*hash) && peer_set(self.seen.view()[*hash]@).contains(peer@)),
    {
        match self.seen.get(hash) {
            None => false,
            Some(peers) => {
                let mut i: usize = 0;
                while i < peers.len()
                    invariant
                        self.seen.view().dom().contains(*hash),
                        self.seen.view()[*hash] == *peers,
                        0 <= i <= peers@.len(),
                        forall|k: int| 0 <= k < i ==> (#[trigger] peers@[k])@ != peer@,
                    decreases peers@.len() - i,
                {
                    if crate::text::str_eq(peers[i].as_str(), peer) {
                        proof {
                            assert(peers@[i as int]@ == peer@);
                            assert(peer_set(peers@).contains(peer@));
                        }
                        return true;
                    }
                    i += 1;
                }
                false
            },
        }
    }

    /// Drops the hashes whose expiry has come, oldest first.
    fn evict_expired(&mut self, now_secs: u64)
        requires
            old(self).seen.wf(),
        ensures
            final(self).seen.wf(),
            final(self).ttl_secs == old(self).ttl_secs,
            (final(self).seen.view(), final(self).expiry@) == evicted(old(self).seen.view(), old(self).expiry@, now_secs),
        decreases old(self).expiry@.len(),
    {
        if self.expiry.len() == 0 {
            return;
        }
        let (hash, exp) = self.expiry[0];
        if exp > now_secs {
            return;
        }
        self.seen.remove(&hash);
        self.expiry.remove(0);
        proof {
            assert(self.expiry@ =~= old(self).expiry@.drop_first());
        }
        self.evict_expired(now_secs);
    }
}

/// What may be relayed to peers.
#[derive(Debug, Clone, Copy)]
pub struct TxRelayPolicy {
    /// Lowest gas price relayed.
    pub min_relay_gas_price: u128,
    /// Whether zero-price transactions are relayed.
    pub relay_zero_gas: bool,
    /// Whether transactions above the size limit are relayed.
    pub relay_large_txs: bool,
    /// Size limit in bytes.
    pub max_relay_tx_size: usize,
}

impl Default for TxRelayPolicy {
    fn default() -> (r: Self)
        ensures
            r.min_relay_gas_price == 1_000_000_000,
            !r.relay_zero_gas,
            !r.relay_large_txs,
            r.max_relay_tx_size == 128 * 1024,
    {
        TxRelayPolicy {
            min_relay_gas_price: 1_000_000_000,
            relay_zero_gas: false,
            relay_large_txs: false,
            max_relay_tx_size: 128 * 1024,
        }
    }
}

impl TxRelayPolicy {
    /// Whether to relay a transaction of the given gas price and size.
    pub fn should_relay(&self, tx_gas_price: u128, tx_size: usize) -> (r: bool)
        ensures
            r == if tx_size > self.max_relay_tx_size && !self.relay_large_txs {
                false
            } else if tx_gas_price == 0 {
                self.relay_zero_gas
            } else {
                tx_gas_price >= self.min_relay_gas_price
            },
    {
        if tx_size > self.max_relay_tx_size && !self.relay_large_txs {
            return false;
        }
        if tx_gas_price == 0 {
            return self.relay_zero_gas;
        }
        tx_gas_price >= self.min_relay_gas_price
    }
}

/// One peer's token bucket (whole tokens).
#[derive(Debug, Clone, Copy)]
pub struct PeerFloodBucket {
    /// Tokens left.
    pub tokens: u64,
    /// Last refill (Unix seconds).
    pub last_refill: u64,
}

/// The tokens after refilling `tokens` for `elapsed` seconds, capped at
/// the bucket size.
pub open spec fn refilled(tokens: u64, elapsed: int) -> int {
    let t = tokens + elapsed * MAX_TX_PER_PEER_PER_SECOND;
    if t > FLOOD_BUCKET_CAPACITY { FLOOD_BUCKET_CAPACITY as int } else { t }
}

impl PeerFloodBucket {
    /// A full bucket.
    pub fn new(now: u64) -> (r: Self)
        ensures
            r.tokens == FLOOD_BUCKET_CAPACITY,
            r.last_refill == now,
    {
        PeerFloodBucket { tokens: FLOOD_BUCKET_CAPACITY as u64, last_refill: now }
    }

    /// Refills for the time since the last refill (capped), then takes one
    /// token if there is one.
    pub fn try_consume(&mut self, now: u64) -> (r: bool)
        requires
            old(self).tokens <= FLOOD_BUCKET_CAPACITY,
        ensures
            ({
                let elapsed = if now >= old(self).last_refill { now - old(self).last_refill } else { 0 };
                let t = refilled(old(self).tokens, elapsed);
                &&& r == (t >= 1)
                &&& final(self).tokens == (if t >= 1 { t - 1 } else { t })
                &&& final(self).last_refill == now
            }),
            final(self).tokens <= FLOOD_BUCKET_CAPACITY,
    {
        let elapsed = now.saturating_sub(self.last_refill);
        let cap = FLOOD_BUCKET_CAPACITY as u64;
        let rate = MAX_TX_PER_PEER_PER_SECOND as u64;
        let t = if elapsed >= cap / rate {
            proof {
                assert(elapsed * MAX_TX_PER_PEER_PER_SECOND >= 500) by (nonlinear_arith)
                    requires elapsed >= 5;
            }
            cap
        } else {
            let sum = self.tokens + elapsed * rate;
            if sum > cap { cap } else { sum }
        };
        self.last_refill = now;
        if t >= 1 {
            self.tokens = t - 1;
            true
        } else {
            self.tokens = t;
            false
        }
    }
}

/// The first `limit` hashes of the first `k` of `hashes` that `peer` has
/// not seen, in order.
pub open spec fn unseen(hashes: Seq<[u8; 32]>, k: int, peer: Seq<char>, seen: Map<[u8; 32], Vec<String>>) -> Seq<[u8; 32]>
    decreases k,
{
    if k <= 0 {
        Seq::empty()
    } else if seen.dom().contains(hashes[k - 1]) && peer_set(seen[hashes[k - 1]]@).contains(peer) {
        unseen(hashes, k - 1, peer, seen)
    } else {
        unseen(hashes, k - 1, peer, seen).push(hashes[k - 1])
    }
}

/// An announcement for a newly connected peer: the first `MAX_SYNC_TXS`
/// pending hashes it has not seen, typed as EIP-1559 with a 200-byte size
/// estimate.
pub fn sync_pool_to_peer(pending_hashes: &[[u8; 32]], peer_id: &str, seen_cache: &SeenTxCache) -> (r: NewPooledTxHashes)
    requires
        seen_cache.seen.wf(),
    ensures
        ({
            let all = unseen(pending_hashes@, pending_hashes@.len() as int, peer_id@, seen_cache.seen.view());
            r.hashes@ == (if all.len() > MAX_SYNC_TXS { all.subrange(0, MAX_SYNC_TXS as int) } else { all })
        }),
        r.types@ == Seq::new(r.hashes@.len(), |i: int| 2u8),
        r.sizes@ == Seq::new(r.hashes@.len(), |i: int| 200u32),
{
    let mut hashes: Vec<[u8; 32]> = Vec::new();
    let mut i: usize = 0;
    let ghost seen = seen_cache.seen.view();
    while i < pending_hashes.len() && hashes.len() < MAX_SYNC_TXS
        invariant
            seen_cache.seen.wf(),
            seen == seen_cache.seen.view(),
            0 <= i <= pending_hashes@.len(),
            hashes@ == unseen(pending_hashes@, i as int, peer_id@, seen),
            hashes@.len() <= MAX_SYNC_TXS,
        decreases pending_hashes@.len() - i,
    {
        let h = pending_hashes[i];
        if !seen_cache.peer_has_seen(&h, peer_id) {
            hashes.push(h);
        }
        i += 1;
    }
    proof {
        lemma_unseen_prefix(pending_hashes@, i as int, pending_hashes@.len() as int, peer_id@, seen);
    }
    let n = hashes.len();
    let mut types: Vec<u8> = Vec::new();
    let mut sizes: Vec<u32> = Vec::new();
    let mut j: usize = 0;
    while j < n
        invariant
            0 <= j <= n,
            types@ == Seq::new(j as nat, |k: int| 2u8),
            sizes@ == Seq::new(j as nat, |k: int| 200u32),
        decreases n - j,
    {
        types.push(2u8);
        sizes.push(200u32);
        j += 1;
        proof {
            assert(types@ =~= Seq::new(j as nat, |k: int| 2u8));
            assert(sizes@ =~= Seq::new(j as nat, |k: int| 200u32));
        }
    }
    NewPooledTxHashes { hashes, types, sizes }
}

/// The unseen hashes of a longer prefix start with those of a shorter one,
/// and once `MAX_SYNC_TXS` are found the rest do not matter.
proof fn lemma_unseen_prefix(hashes: Seq<[u8; 32]>, i: int, k: int, peer: Seq<char>, seen: Map<[u8; 32], Vec<String>>)
    requires
        0 <= i <= k <= hashes.len(),
        i == hashes.len() || unseen(hashes, i, peer, seen).len() >= MAX_SYNC_TXS,
        unseen(hashes, i, peer, seen).len() <= MAX_SYNC_TXS,
    ensures
        ({
            let all = unseen(hashes, k, peer, seen);
            unseen(hashes, i, peer, seen) == (if all.len() > MAX_SYNC_TXS { all.subrange(0, MAX_SYNC_TXS as int) } else { all })
        }),
    decreases k - i,
{
    if k > i {
        lemma_unseen_prefix(hashes, i, k - 1, peer, seen);
        let prev = unseen(hashes, k - 1, peer, seen);
        let all = unseen(hashes, k, peer, seen);
        if all.len() > prev.len() {
            assert(all == prev.push(hashes[k - 1]));
            if prev.len() > MAX_SYNC_TXS {
                assert(all.subrange(0, MAX_SYNC_TXS as int) =~= prev.subrange(0, MAX_SYNC_TXS as int));
            } else {
                assert(prev.len() == MAX_SYNC_TXS);
                assert(all.subrange(0, MAX_SYNC_TXS as int) =~= prev);
            }
        }
    }
}

/// The peers among the first `k` of `peers` that have not seen `hash`.
pub open spec fn eligible_peers(peers: Seq<String>, k: int, hash: [u8; 32], seen: Map<[u8; 32], Vec<String>>) -> Seq<Seq<char>>
    decreases k,
{
    if k <= 0 {
        Seq::empty()
    } else if seen.dom().contains(hash) && peer_set(seen[hash]@).contains(peers[k - 1]@) {
        eligible_peers(peers, k - 1, hash, seen)
    } else {
        eligible_peers(peers, k - 1, hash, seen).push(peers[k - 1]@)
    }
}

/// Splits the peers that have not seen `hash` into those that get the full
/// body (the first `MAX_DIRECT_BROADCAST_PEERS`) and those that get the
/// hash only.
pub fn select_broadcast_peers(all_peers: &[String], hash: &[u8; 32], seen_cache: &SeenTxCache) -> (r: (Vec<String>, Vec<String>))
    requires
        seen_cache.seen.wf(),
    ensures
        ({
            let e = eligible_peers(all_peers@, all_peers@.len() as int, *hash, seen_cache.seen.view());
            let split = if e.len() < MAX_DIRECT_BROADCAST_PEERS { e.len() as int } else { MAX_DIRECT_BROADCAST_PEERS as int };
            &&& r.0@.map_values(|s: String| s@) == e.subrange(0, split)
            &&& r.1@.map_values(|s: String| s@) == e.subrange(split, e.len() as int)
        }),
{
    let ghost seen = seen_cache.seen.view();
    let mut full_body: Vec<String> = Vec::new();
    let mut hash_only: Vec<String> = Vec::new();
    let mut i: usize = 0;
    while i < all_peers.len()
        invariant
            seen_cache.seen.wf(),
            seen == seen_cache.seen.view(),
            0 <= i <= all_peers@.len(),
            ({
                let e = eligible_peers(all_peers@, i as int, *hash, seen);
                let split = if e.len() < MAX_DIRECT_BROADCAST_PEERS { e.len() as int } else { MAX_DIRECT_BROADCAST_PEERS as int };
                &&& full_body@.map_values(|s: String| s@) == e.subrange(0, split)
                &&& hash_only@.map_values(|s: String| s@) == e.subrange(split, e.len() as int)
            }),
        decreases all_peers@.len() - i,
    {
        if !seen_cache.peer_has_seen(hash, all_peers[i].as_str()) {
            let p = all_peers[i].clone();
            let ghost f0 = full_body@;
            let ghost h0 = hash_only@;
            if full_body.len() < MAX_DIRECT_BROADCAST_PEERS {
                full_body.push(p);
                proof {
                    assert(full_body@.map_values(|s: String| s@) =~= f0.map_values(|s: String| s@).push(p@));
                }
            } else {
                hash_only.push(p);
                proof {
                    assert(hash_only@.map_values(|s: String| s@) =~= h0.map_values(|s: String| s@).push(p@));
                }
            }
            proof {
                let e = eligible_peers(all_peers@, i + 1, *hash, seen);
                let e0 = eligible_peers(all_peers@, i as int, *hash, seen);
                assert(e == e0.push(all_peers@[i as int]@));
                assert(e.subrange(0, e0.len() as int) =~= e0);
                if e0.len() < MAX_DIRECT_BROADCAST_PEERS {
                    assert(e.subrange(0, e.len() as int) =~= e0.push(all_peers@[i as int]@));
                    assert(e.subrange(e.len() as int, e.len() as int) =~= Seq::<Seq<char>>::empty());
                    assert(e0.subrange(e0.len() as int, e0.len() as int) =~= Seq::<Seq<char>>::empty());
                } else {
                    assert(e.subrange(0, 8) =~= e0.subrange(0, 8));
                    assert(e.subrange(8, e.len() as int) =~= e0.subrange(8, e0.len() as int).push(all_peers@[i as int]@));
                }
            }
        }
        i += 1;
    }
    (full_body, hash_only)
}

} // verus!
