//! The pending pool: ready-to-run transactions keyed by hash, served to
//! the block proposer highest effective tip first (hash order between
//! equal tips), with a per-sender and a total limit.

use vstd::prelude::*;
use crate::common::{bytes_lt, lemma_lex_lt_irreflexive, lemma_lex_lt_transitive, lex_lt};
use crate::table::{Table, TableKey};

verus! {

/// Most pending transactions of one sender.
pub const MAX_TX_PER_ACCOUNT: usize = 64;
/// Most pending transactions in all.
pub const MAX_PENDING_POOL_SIZE: usize = 10_000;

/// A pooled transaction.
#[derive(Debug, Clone)]
pub struct PooledTx {
    pub hash: [u8; 32],
    pub from: [u8; 20],
    pub nonce: u64,
    /// EIP-1559 fee cap.
    pub max_fee_per_gas: u128,
    /// EIP-1559 tip cap.
    pub max_priority_fee: u128,
    pub gas_limit: u64,
    pub value: u128,
    pub data: Vec<u8>,
    /// The encoded transaction.
    pub raw: Vec<u8>,
    /// When it arrived (Unix seconds).
    pub received_at: u64,
}

/// `min(tip cap, fee cap - base fee)`, the latter floored at zero.
pub open spec fn tip_spec(tx: PooledTx, base_fee: u128) -> int {
    let headroom: int = if tx.max_fee_per_gas >= base_fee { tx.max_fee_per_gas - base_fee } else { 0 };
    if tx.max_priority_fee <= headroom { tx.max_priority_fee as int } else { headroom }
}

/// Whether `a` is served before `b`: a higher tip, or an equal tip and a
/// smaller hash.
pub open spec fn served_before(a: PooledTx, b: PooledTx, base_fee: u128) -> bool {
    tip_spec(a, base_fee) > tip_spec(b, base_fee)
        || (tip_spec(a, base_fee) == tip_spec(b, base_fee) && lex_lt(a.hash@, b.hash@))
}

impl PooledTx {
    /// The tip a block producer earns per gas at `base_fee`.
    pub fn effective_tip(&self, base_fee: u128) -> (r: u128)
        ensures
            r == tip_spec(*self, base_fee),
    {
        let headroom = self.max_fee_per_gas.saturating_sub(base_fee);
        if self.max_priority_fee <= headroom { self.max_priority_fee } else { headroom }
    }
}

/// Why a transaction was not added.
#[derive(Debug, Clone, Copy)]
pub enum PendingPoolError {
    SenderLimitExceeded { sender: [u8; 20], limit: usize },
    PoolFull,
    AlreadyExists,
}

/// How many of the first `k` entries were sent by `sender`.
pub open spec fn sender_count(entries: Seq<([u8; 32], PooledTx)>, k: int, sender: [u8; 20]) -> int
    decreases k,
{
    if k <= 0 {
        0
    } else {
        sender_count(entries, k - 1, sender) + (if entries[k - 1].1.from == sender { 1int } else { 0int })
    }
}

/// Two equal-length byte strings that differ are ordered one way or the
/// other.
proof fn lemma_lex_lt_total(a: Seq<u8>, b: Seq<u8>)
    requires
        a.len() == b.len(),
        a != b,
    ensures
        lex_lt(a, b) || lex_lt(b, a),
    decreases a.len(),
{
    if a.len() > 0 && a[0] == b[0] {
        assert(a.drop_first() != b.drop_first()) by {
            if a.drop_first() == b.drop_first() {
                assert(a =~= seq![a[0]] + a.drop_first());
                assert(b =~= seq![b[0]] + b.drop_first());
            }
        }
        lemma_lex_lt_total(a.drop_first(), b.drop_first());
    } else if a.len() == 0 {
        assert(a =~= b);
    }
}

/// Serving order is transitive.
proof fn lemma_served_before_transitive(a: PooledTx, b: PooledTx, c: PooledTx, base_fee: u128)
    requires
        served_before(a, b, base_fee),
        served_before(b, c, base_fee),
    ensures
        served_before(a, c, base_fee),
{
    if tip_spec(a, base_fee) == tip_spec(b, base_fee) && tip_spec(b, base_fee) == tip_spec(c, base_fee) {
        lemma_lex_lt_transitive(a.hash@, b.hash@, c.hash@);
    }
}

/// Ready transactions by hash, and the base fee.
pub struct PendingPool {
    /// Hash → transaction.
    pub txs: Table<[u8; 32], PooledTx>,
    /// The current base fee.
    pub base_fee: u128,
}

impl PendingPool {
    /// The table is well formed and each transaction is stored under its
    /// own hash.
    pub open spec fn wf(&self) -> bool {
        &&& self.txs.wf()
        &&& forall|h: [u8; 32]| #[trigger] self.txs.view().dom().contains(h) ==> self.txs.view()[h].hash == h
    }

    /// An empty pool.
    pub fn new(base_fee: u128) -> (r: Self)
        ensures
            r.wf(),
            r.txs.view() == Map::<[u8; 32], PooledTx>::empty(),
            r.base_fee == base_fee,
    {
        PendingPool { txs: Table::new(), base_fee }
    }

    fn count_from(&self, sender: &[u8; 20]) -> (r: usize)
        requires
            self.wf(),
        ensures
            r == sender_count(self.txs.spec_entries(), self.txs.spec_entries().len() as int, *sender),
    {
        let mut n: usize = 0;
        let mut i: usize = 0;
        while i < self.txs.len()
            invariant
                self.wf(),
                0 <= i <= self.txs.spec_entries().len(),
                n == sender_count(self.txs.spec_entries(), i as int, *sender),
                n <= i,
            decreases self.txs.spec_entries().len() - i,
        {
            if self.txs.value_at(i).from.same(sender) {
                n += 1;
            }
            i += 1;
        }
        n
    }

    /// Adds (or replaces) a transaction, unless its sender already has
    /// `MAX_TX_PER_ACCOUNT` pending or the pool holds
    /// `MAX_PENDING_POOL_SIZE`.
    pub fn add(&mut self, tx: PooledTx) -> (r: Result<(), PendingPoolError>)
        requires
            old(self).wf(),
        ensures
            final(self).wf(),
            final(self).base_fee == old(self).base_fee,
            ({
                let count = sender_count(old(self).txs.spec_entries(), old(self).txs.spec_entries().len() as int, tx.from);
                if count >= MAX_TX_PER_ACCOUNT {
                    (r matches Err(PendingPoolError::SenderLimitExceeded { sender, limit }) && sender == tx.from
                        && limit == MAX_TX_PER_ACCOUNT) && final(self).txs.view() == old(self).txs.view()
                } else if old(self).txs.spec_entries().len() >= MAX_PENDING_POOL_SIZE {
                    r matches Err(PendingPoolError::PoolFull) && final(self).txs.view() == old(self).txs.view()
                } else {
                    r is Ok && final(self).txs.view() == old(self).txs.view().insert(tx.hash, tx)
                }
            }),
            r is Ok && !old(self).txs.view().dom().contains(tx.hash)
                ==> final(self).txs.spec_entries().len() == old(self).txs.spec_entries().len() + 1,
            r is Ok && old(self).txs.view().dom().contains(tx.hash)
                ==> final(self).txs.spec_entries().len() == old(self).txs.spec_entries().len(),
            r is Err ==> final(self).txs.spec_entries().len() == old(self).txs.spec_entries().len(),
    {
        let count = self.count_from(&tx.from);
        if count >= MAX_TX_PER_ACCOUNT {
            return Err(PendingPoolError::SenderLimitExceeded { sender: tx.from, limit: MAX_TX_PER_ACCOUNT });
        }
        if self.txs.len() >= MAX_PENDING_POOL_SIZE {
            return Err(PendingPoolError::PoolFull);
        }
        let h = tx.hash;
        self.txs.set(h, tx);
        Ok(())
    }

    /// Removes the transaction with `hash`, handing it back.
    pub fn remove(&mut self, hash: &[u8; 32]) -> (r: Option<PooledTx>)
        requires
            old(self).wf(),
        ensures
            final(self).wf(),
            final(self).base_fee == old(self).base_fee,
            final(self).txs.view() == old(self).txs.view().remove(*hash),
            r matches Some(tx) ==> old(self).txs.view().dom().contains(*hash) && old(self).txs.view()[*hash] == tx,
            r is None ==> !old(self).txs.view().dom().contains(*hash),
    {
        self.txs.take(hash)
    }

    /// The transactions in serving order: highest effective tip first,
    /// then smallest hash.
    pub fn best_transactions(&self) -> (r: Vec<&PooledTx>)
        requires
            self.wf(),
        ensures
            r@.len() == self.txs.spec_entries().len(),
            forall|i: int| 0 <= i < r@.len() ==> self.txs.view().dom().contains(r@[i].hash)
                && self.txs.view()[r@[i].hash] == *r@[i],
            forall|i: int, j: int| 0 <= i < j < r@.len() ==> served_before(*r@[i], *r@[j], self.base_fee),
            forall|i: int, j: int| 0 <= i < j < r@.len() ==> (#[trigger] r@[i]).hash != (#[trigger] r@[j]).hash,
            forall|h: [u8; 32]| #[trigger] self.txs.view().dom().contains(h)
                ==> exists|i: int| 0 <= i < r@.len() && (#[trigger] r@[i]).hash == h,
    {
        let mut out: Vec<&PooledTx> = Vec::new();
        let mut i: usize = 0;
        while i < self.txs.len()
            invariant
                self.wf(),
                0 <= i <= self.txs.spec_entries().len(),
                out@.len() == i,
                forall|a: int| 0 <= a < out@.len() ==> exists|k: int| 0 <= k < i
                    && (#[trigger] out@[a]).hash == self.txs.spec_entries()[k].0
                    && *out@[a] == self.txs.spec_entries()[k].1,
                forall|a: int, b: int| 0 <= a < b < out@.len() ==> served_before(*out@[a], *out@[b], self.base_fee),
            decreases self.txs.spec_entries().len() - i,
        {
            let x = self.txs.value_at(i);
            proof {
                self.txs.lemma_entry_in_view(i as int);
            }
            let tip = x.effective_tip(self.base_fee);
            let mut p: usize = 0;
            while p < out.len()
                invariant
                    0 <= p <= out@.len(),
                    forall|q: int| 0 <= q < p ==> !served_before(*x, *out@[q], self.base_fee),
                    tip == tip_spec(*x, self.base_fee),
                ensures
                    0 <= p <= out@.len(),
                    forall|q: int| 0 <= q < p ==> !served_before(*x, *out@[q], self.base_fee),
                    p < out@.len() ==> served_before(*x, *out@[p as int], self.base_fee),
                decreases out@.len() - p,
            {
                let t = out[p].effective_tip(self.base_fee);
                if tip > t || (tip == t && bytes_lt(&x.hash, &out[p].hash)) {
                    break;
                }
                p += 1;
            }
            let ghost old_out = out@;
            proof {
                assert forall|q: int| 0 <= q < old_out.len() implies (#[trigger] old_out[q]).hash@ != x.hash@ by {
                    let k = choose|k: int| 0 <= k < i && old_out[q].hash == self.txs.spec_entries()[k].0
                        && *old_out[q] == self.txs.spec_entries()[k].1;
                    assert(self.txs.spec_entries()[k].0 != self.txs.spec_entries()[i as int].0);
                    self.txs.lemma_entry_in_view(k);
                    if old_out[q].hash@ == x.hash@ {
                        assert(old_out[q].hash =~= x.hash);
                    }
                }
                assert forall|q: int| 0 <= q < p implies served_before(*old_out[q], *x, self.base_fee) by {
                    assert(!served_before(*x, *old_out[q], self.base_fee));
                    if tip_spec(*x, self.base_fee) == tip_spec(*old_out[q], self.base_fee) {
                        lemma_lex_lt_total(x.hash@, old_out[q].hash@);
                    }
                }
                assert forall|q: int| p <= q < old_out.len() implies served_before(*x, #[trigger] *old_out[q], self.base_fee) by {
                    assert(served_before(*x, *old_out[p as int], self.base_fee));
                    if q > p {
                        lemma_served_before_transitive(*x, *old_out[p as int], *old_out[q], self.base_fee);
                    }
                }
            }
            out.insert(p, x);
            proof {
                assert(out@ == old_out.insert(p as int, x));
                assert forall|a: int, b: int| 0 <= a < b < out@.len() implies served_before(*out@[a], *out@[b], self.base_fee) by {
                    if a < p && b < p {
                    } else if a < p && b == p {
                    } else if a < p {
                        assert(out@[b] == old_out[b - 1]);
                        lemma_served_before_transitive(*old_out[a], *x, *old_out[b - 1], self.base_fee);
                    } else if a == p {
                        assert(out@[b] == old_out[b - 1]);
                    } else {
                        assert(out@[a] == old_out[a - 1] && out@[b] == old_out[b - 1]);
                    }
                }
                assert forall|a: int| 0 <= a < out@.len() implies exists|k: int| 0 <= k < i + 1
                    && (#[trigger] out@[a]).hash == self.txs.spec_entries()[k].0
                    && *out@[a] == self.txs.spec_entries()[k].1 by {
                    if a < p {
                        assert(out@[a] == old_out[a]);
                    } else if a == p {
                        assert(self.txs.view()[self.txs.spec_entries()[i as int].0] == *x);
                        assert(x.hash == self.txs.spec_entries()[i as int].0);
                    } else {
                        assert(out@[a] == old_out[a - 1]);
                    }
                }
            }
            i += 1;
        }
        proof {
            assert forall|a: int| 0 <= a < out@.len() implies self.txs.view().dom().contains(out@[a].hash)
                && self.txs.view()[out@[a].hash] == *out@[a] by {
                let k = choose|k: int| 0 <= k < i && out@[a].hash == self.txs.spec_entries()[k].0
                    && *out@[a] == self.txs.spec_entries()[k].1;
                self.txs.lemma_entry_in_view(k);
            }
            let rs = out@.map_values(|t: &PooledTx| *t);
            lemma_best_is_permutation(*self, rs);
            assert forall|h: [u8; 32]| #[trigger] self.txs.view().dom().contains(h)
                implies exists|i: int| 0 <= i < out@.len() && (#[trigger] out@[i]).hash == h by {
                let i = choose|i: int| 0 <= i < rs.len() && (#[trigger] rs[i]).hash == h;
                assert(out@[i].hash == h);
            }
            assert forall|i: int, j: int| 0 <= i < j < out@.len()
                implies (#[trigger] out@[i]).hash != (#[trigger] out@[j]).hash by {
                assert(rs[i].hash != rs[j].hash);
            }
        }
        out
    }

    /// Changes the base fee (the serving order follows it).
    pub fn update_base_fee(&mut self, new_base_fee: u128)
        requires
            old(self).wf(),
        ensures
            final(self).wf(),
            final(self).txs == old(self).txs,
            final(self).base_fee == new_base_fee,
    {
        self.base_fee = new_base_fee;
    }

    /// The hashes of the stored transactions of `sender`.
    fn hashes_where_from(&self, sender: &[u8; 20]) -> (r: Vec<[u8; 32]>)
        requires
            self.wf(),
        ensures
            forall|h: [u8; 32]| r@.contains(h) <==> (self.txs.view().dom().contains(h) && self.txs.view()[h].from == *sender),
    {
        let mut out: Vec<[u8; 32]> = Vec::new();
        let mut i: usize = 0;
        while i < self.txs.len()
            invariant
                self.wf(),
                0 <= i <= self.txs.spec_entries().len(),
                forall|h: [u8; 32]| out@.contains(h) <==> exists|k: int| 0 <= k < i && self.txs.spec_entries()[k].0 == h
                    && (#[trigger] self.txs.spec_entries()[k]).1.from == *sender,
            decreases self.txs.spec_entries().len() - i,
        {
            if self.txs.value_at(i).from.same(sender) {
                let ghost o = out@;
                out.push(*self.txs.key_at(i));
                proof {
                    assert forall|h: [u8; 32]| out@.contains(h) <==> exists|k: int| 0 <= k < i + 1 && self.txs.spec_entries()[k].0 == h
                        && (#[trigger] self.txs.spec_entries()[k]).1.from == *sender by {
                        if out@.contains(h) {
                            let a = choose|a: int| 0 <= a < out@.len() && out@[a] == h;
                            if a < o.len() {
                                assert(o.contains(h));
                            }
                        }
                        if exists|k: int| 0 <= k < i + 1 && self.txs.spec_entries()[k].0 == h
                            && (#[trigger] self.txs.spec_entries()[k]).1.from == *sender {
                            let k = choose|k: int| 0 <= k < i + 1 && self.txs.spec_entries()[k].0 == h
                                && (#[trigger] self.txs.spec_entries()[k]).1.from == *sender;
                            if k < i {
                                assert(o.contains(h));
                                let a = choose|a: int| 0 <= a < o.len() && o[a] == h;
                                assert(out@[a] == h);
                            } else {
                                assert(out@[o.len() as int] == h);
                            }
                        }
                    }
                }
            } else {
                proof {
                    assert forall|h: [u8; 32]| out@.contains(h) <==> exists|k: int| 0 <= k < i + 1 && self.txs.spec_entries()[k].0 == h
                        && (#[trigger] self.txs.spec_entries()[k]).1.from == *sender by {
                        if exists|k: int| 0 <= k < i + 1 && self.txs.spec_entries()[k].0 == h
                            && (#[trigger] self.txs.spec_entries()[k]).1.from == *sender {
                            let k = choose|k: int| 0 <= k < i + 1 && self.txs.spec_entries()[k].0 == h
                                && (#[trigger] self.txs.spec_entries()[k]).1.from == *sender;
                            assert(k < i);
                        }
                    }
                }
            }
            i += 1;
        }
        proof {
            assert forall|h: [u8; 32]| out@.contains(h) <==> (self.txs.view().dom().contains(h) && self.txs.view()[h].from == *sender) by {
                if out@.contains(h) {
                    let k = choose|k: int| 0 <= k < i && self.txs.spec_entries()[k].0 == h
                        && (#[trigger] self.txs.spec_entries()[k]).1.from == *sender;
                    self.txs.lemma_entry_in_view(k);
                }
                if self.txs.view().dom().contains(h) && self.txs.view()[h].from == *sender {
                    self.txs.lemma_view_has_entry(h);
                    let k = choose|k: int| 0 <= k < self.txs.spec_entries().len() && (#[trigger] self.txs.spec_entries()[k]).0 == h;
                    self.txs.lemma_entry_in_view(k);
                }
            }
        }
        out
    }

    /// Removes every hash in `hashes`.
    fn remove_all(&mut self, hashes: &[[u8; 32]])
        requires
            old(self).wf(),
        ensures
            final(self).wf(),
            final(self).base_fee == old(self).base_fee,
            forall|h: [u8; 32]| #[trigger] final(self).txs.view().dom().contains(h)
                <==> (old(self).txs.view().dom().contains(h) && !hashes@.contains(h)),
            forall|h: [u8; 32]| final(self).txs.view().dom().contains(h)
                ==> #[trigger] final(self).txs.view()[h] == old(self).txs.view()[h],
    {
        let mut i: usize = 0;
        while i < hashes.len()
            invariant
                self.wf(),
                self.base_fee == old(self).base_fee,
                0 <= i <= hashes@.len(),
                forall|h: [u8; 32]| #[trigger] self.txs.view().dom().contains(h)
                    <==> (old(self).txs.view().dom().contains(h) && !(exists|a: int| 0 <= a < i && hashes@[a] == h)),
                forall|h: [u8; 32]| self.txs.view().dom().contains(h) ==> #[trigger] self.txs.view()[h] == old(self).txs.view()[h],
            decreases hashes@.len() - i,
        {
            let ghost before = self.txs.view();
            self.txs.remove(&hashes[i]);
            proof {
                assert forall|h: [u8; 32]| #[trigger] self.txs.view().dom().contains(h)
                    <==> (old(self).txs.view().dom().contains(h) && !(exists|a: int| 0 <= a < i + 1 && hashes@[a] == h)) by {
                    if exists|a: int| 0 <= a < i + 1 && hashes@[a] == h {
                        let a = choose|a: int| 0 <= a < i + 1 && hashes@[a] == h;
                        if a < i {
                            assert(exists|b: int| 0 <= b < i && hashes@[b] == h);
                        }
                    }
                }
            }
            i += 1;
        }
        proof {
            assert forall|h: [u8; 32]| (exists|a: int| 0 <= a < hashes@.len() && hashes@[a] == h) <==> hashes@.contains(h) by {}
        }
    }

    /// Removes every transaction of `sender`.
    pub fn prune_sender(&mut self, sender: [u8; 20])
        requires
            old(self).wf(),
        ensures
            final(self).wf(),
            final(self).base_fee == old(self).base_fee,
            final(self).txs.view() == old(self).txs.view().restrict(
                old(self).txs.view().dom().filter(|h: [u8; 32]| old(self).txs.view()[h].from != sender)),
    {
        let hashes = self.hashes_where_from(&sender);
        let ghost v0 = self.txs.view();
        self.remove_all(hashes.as_slice());
        proof {
            assert(self.txs.view().dom() =~= v0.dom().filter(|h: [u8; 32]| v0[h].from != sender));
            assert(self.txs.view() =~= v0.restrict(v0.dom().filter(|h: [u8; 32]| v0[h].from != sender)));
        }
    }

    /// Removes the transactions of a new block.
    pub fn post_block_prune(&mut self, mined_txs: &[[u8; 32]])
        requires
            old(self).wf(),
        ensures
            final(self).wf(),
            final(self).base_fee == old(self).base_fee,
            final(self).txs.view() == old(self).txs.view().remove_keys(mined_txs@.to_set()),
    {
        self.remove_all(mined_txs);
        proof {
            assert(self.txs.view().dom() =~= old(self).txs.view().remove_keys(mined_txs@.to_set()).dom());
            assert(self.txs.view() =~= old(self).txs.view().remove_keys(mined_txs@.to_set()));
        }
    }

    /// Removes the transactions whose fee cap is below the base fee.
    pub fn prune_underpriced(&mut self)
        requires
            old(self).wf(),
        ensures
            final(self).wf(),
            final(self).base_fee == old(self).base_fee,
            final(self).txs.view() == old(self).txs.view().restrict(
                old(self).txs.view().dom().filter(|h: [u8; 32]| old(self).txs.view()[h].max_fee_per_gas >= old(self).base_fee)),
    {
        let mut out: Vec<[u8; 32]> = Vec::new();
        let mut i: usize = 0;
        while i < self.txs.len()
            invariant
                self.wf(),
                0 <= i <= self.txs.spec_entries().len(),
                forall|h: [u8; 32]| out@.contains(h) <==> exists|k: int| 0 <= k < i && self.txs.spec_entries()[k].0 == h
                    && (#[trigger] self.txs.spec_entries()[k]).1.max_fee_per_gas < self.base_fee,
            decreases self.txs.spec_entries().len() - i,
        {
            if self.txs.value_at(i).max_fee_per_gas < self.base_fee {
                let ghost o = out@;
                out.push(*self.txs.key_at(i));
                proof {
                    assert forall|h: [u8; 32]| out@.contains(h) <==> exists|k: int| 0 <= k < i + 1 && self.txs.spec_entries()[k].0 == h
                        && (#[trigger] self.txs.spec_entries()[k]).1.max_fee_per_gas < self.base_fee by {
                        if out@.contains(h) {
                            let a = choose|a: int| 0 <= a < out@.len() && out@[a] == h;
                            if a < o.len() {
                                assert(o.contains(h));
                            }
                        }
                        if exists|k: int| 0 <= k < i + 1 && self.txs.spec_entries()[k].0 == h
                            && (#[trigger] self.txs.spec_entries()[k]).1.max_fee_per_gas < self.base_fee {
                            let k = choose|k: int| 0 <= k < i + 1 && self.txs.spec_entries()[k].0 == h
                                && (#[trigger] self.txs.spec_entries()[k]).1.max_fee_per_gas < self.base_fee;
                            if k < i {
                                assert(o.contains(h));
                                let a = choose|a: int| 0 <= a < o.len() && o[a] == h;
                                assert(out@[a] == h);
                            } else {
                                assert(out@[o.len() as int] == h);
                            }
                        }
                    }
                }
            } else {
                proof {
                    assert forall|h: [u8; 32]| out@.contains(h) <==> exists|k: int| 0 <= k < i + 1 && self.txs.spec_entries()[k].0 == h
                        && (#[trigger] self.txs.spec_entries()[k]).1.max_fee_per_gas < self.base_fee by {
                        if exists|k: int| 0 <= k < i + 1 && self.txs.spec_entries()[k].0 == h
                            && (#[trigger] self.txs.spec_entries()[k]).1.max_fee_per_gas < self.base_fee {
                            let k = choose|k: int| 0 <= k < i + 1 && self.txs.spec_entries()[k].0 == h
                                && (#[trigger] self.txs.spec_entries()[k]).1.max_fee_per_gas < self.base_fee;
                            assert(k < i);
                        }
                    }
                }
            }
            i += 1;
        }
        let ghost v0 = self.txs.view();
        let ghost bf = self.base_fee;
        proof {
            assert forall|h: [u8; 32]| out@.contains(h) <==> (v0.dom().contains(h) && v0[h].max_fee_per_gas < bf) by {
                if out@.contains(h) {
                    let k = choose|k: int| 0 <= k < i && self.txs.spec_entries()[k].0 == h
                        && (#[trigger] self.txs.spec_entries()[k]).1.max_fee_per_gas < bf;
                    self.txs.lemma_entry_in_view(k);
                }
                if v0.dom().contains(h) && v0[h].max_fee_per_gas < bf {
                    self.txs.lemma_view_has_entry(h);
                    let k = choose|k: int| 0 <= k < self.txs.spec_entries().len() && (#[trigger] self.txs.spec_entries()[k]).0 == h;
                    self.txs.lemma_entry_in_view(k);
                }
            }
        }
        self.remove_all(out.as_slice());
        proof {
            assert(self.txs.view().dom() =~= v0.dom().filter(|h: [u8; 32]| v0[h].max_fee_per_gas >= bf));
            assert(self.txs.view() =~= v0.restrict(v0.dom().filter(|h: [u8; 32]| v0[h].max_fee_per_gas >= bf)));
        }
    }

    /// The number of pending transactions.
    pub fn len(&self) -> (r: usize)
        ensures
            r == self.txs.spec_entries().len(),
    {
        self.txs.len()
    }

    /// Whether no transaction is pending.
    pub fn is_empty(&self) -> (r: bool)
        ensures
            r == (self.txs.spec_entries().len() == 0),
    {
        self.txs.len() == 0
    }
}

/// The serving order of `best_transactions` is a permutation of the pool:
/// a sequence as long as the pool, of pooled transactions in strict
/// serving order, holds every pooled transaction exactly once.
pub proof fn lemma_best_is_permutation(pool: PendingPool, r: Seq<PooledTx>)
    requires
        pool.wf(),
        r.len() == pool.txs.spec_entries().len(),
        forall|i: int| 0 <= i < r.len() ==> pool.txs.view().dom().contains(#[trigger] r[i].hash)
            && pool.txs.view()[r[i].hash] == r[i],
        forall|i: int, j: int| 0 <= i < j < r.len() ==> served_before(#[trigger] r[i], #[trigger] r[j], pool.base_fee),
    ensures
        forall|i: int, j: int| 0 <= i < j < r.len() ==> (#[trigger] r[i]).hash != (#[trigger] r[j]).hash,
        forall|h: [u8; 32]| #[trigger] pool.txs.view().dom().contains(h)
            ==> exists|i: int| 0 <= i < r.len() && (#[trigger] r[i]).hash == h,
{
    let e = pool.txs.spec_entries();
    assert forall|i: int, j: int| 0 <= i < j < r.len() implies (#[trigger] r[i]).hash != (#[trigger] r[j]).hash by {
        if r[i].hash == r[j].hash {
            assert(r[i] == r[j]);
            lemma_lex_lt_irreflexive(r[i].hash@);
            assert(served_before(r[i], r[j], pool.base_fee));
        }
    }
    let hs = r.map_values(|t: PooledTx| t.hash);
    let ks = e.map_values(|x: ([u8; 32], PooledTx)| x.0);
    assert(hs.no_duplicates()) by {
        assert forall|i: int, j: int| 0 <= i < hs.len() && 0 <= j < hs.len() && i != j implies hs[i] != hs[j] by {
            if i < j {
                assert(r[i].hash != r[j].hash);
            } else {
                assert(r[j].hash != r[i].hash);
            }
        }
    }
    assert(ks.no_duplicates()) by {
        assert forall|i: int, j: int| 0 <= i < ks.len() && 0 <= j < ks.len() && i != j implies ks[i] != ks[j] by {
            if i < j {
                assert(e[i].0 != e[j].0);
            } else {
                assert(e[j].0 != e[i].0);
            }
        }
    }
    hs.unique_seq_to_set();
    ks.unique_seq_to_set();
    assert(hs.to_set().subset_of(ks.to_set())) by {
        assert forall|h: [u8; 32]| hs.to_set().contains(h) implies ks.to_set().contains(h) by {
            let i = choose|i: int| 0 <= i < hs.len() && hs[i] == h;
            assert(hs[i] == r[i].hash);
            pool.txs.lemma_view_has_entry(h);
            let k = choose|k: int| 0 <= k < e.len() && (#[trigger] e[k]).0 == h;
            assert(ks[k] == h);
        }
    }
    vstd::seq_lib::seq_to_set_is_finite(hs);
    vstd::seq_lib::seq_to_set_is_finite(ks);
    vstd::set_lib::lemma_subset_equality(hs.to_set(), ks.to_set());
    assert forall|h: [u8; 32]| #[trigger] pool.txs.view().dom().contains(h)
        implies exists|i: int| 0 <= i < r.len() && (#[trigger] r[i]).hash == h by {
        pool.txs.lemma_view_has_entry(h);
        let k = choose|k: int| 0 <= k < e.len() && (#[trigger] e[k]).0 == h;
        assert(ks[k] == h);
        assert(ks.to_set().contains(h));
        assert(hs.to_set().contains(h));
        let i = choose|i: int| 0 <= i < hs.len() && hs[i] == h;
        assert(r[i].hash == h);
    }
}

} // verus!
