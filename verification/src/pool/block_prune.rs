//! Mempool upkeep after a block: dropping the mined transactions, and after
//! a reorganisation, choosing which transactions of the orphaned blocks go
//! back into the pool.

use vstd::prelude::*;
use crate::pool::tx_validate::ZERO_HASH;
use crate::table::{Table, TableKey};

verus! {

/// What a post-block prune removed, promoted or re-injected.
#[derive(Debug)]
pub struct PruneResult {
    pub removed_mined: Vec<[u8; 32]>,
    pub removed_stale: Vec<[u8; 32]>,
    pub removed_underpriced: Vec<[u8; 32]>,
    pub promoted: Vec<[u8; 32]>,
    pub reinjected: Vec<[u8; 32]>,
}

/// The new block as the prune sees it.
pub struct BlockPruneCtx {
    /// Hashes of the transactions in the block.
    pub mined_txs: Vec<[u8; 32]>,
    /// Account nonces after the block.
    pub sender_nonces: Table<[u8; 20], u64>,
    pub new_base_fee: u128,
    pub block_number: u64,
    /// Orphaned blocks (0: no reorganisation).
    pub reorg_depth: u32,
    /// Raw transactions of the orphaned blocks.
    pub reorg_txs: Vec<Vec<u8>>,
}

/// A transaction of an orphaned block.
pub struct OrphanedTx {
    pub hash: [u8; 32],
    pub from: [u8; 20],
    pub nonce: u64,
    pub max_fee_per_gas: u128,
    pub raw: Vec<u8>,
}

/// A block that a reorganisation dropped.
pub struct OrphanedBlock {
    pub block_hash: [u8; 32],
    pub txs: Vec<OrphanedTx>,
}

/// The prune of a new block: the mined hashes are reported removed, and
/// after a reorganisation each orphaned transaction is reported
/// re-injected (under a placeholder hash); the stale, underpriced and
/// promoted lists stay empty at this level.
pub fn post_block_prune(ctx: &BlockPruneCtx) -> (r: PruneResult)
    ensures
        r.removed_mined@ == ctx.mined_txs@,
        r.removed_stale@.len() == 0,
        r.removed_underpriced@.len() == 0,
        r.promoted@.len() == 0,
        ctx.reorg_depth > 0 ==> r.reinjected@ == Seq::new(ctx.reorg_txs@.len(), |i: int| ZERO_HASH),
        ctx.reorg_depth == 0 ==> r.reinjected@.len() == 0,
{
    let mut removed_mined: Vec<[u8; 32]> = Vec::new();
    let mut j: usize = 0;
    while j < ctx.mined_txs.len()
        invariant
            0 <= j <= ctx.mined_txs@.len(),
            removed_mined@ == ctx.mined_txs@.subrange(0, j as int),
        decreases ctx.mined_txs@.len() - j,
    {
        removed_mined.push(ctx.mined_txs[j]);
        j += 1;
        proof {
            assert(removed_mined@ =~= ctx.mined_txs@.subrange(0, j as int));
        }
    }
    proof {
        assert(removed_mined@ =~= ctx.mined_txs@);
    }
    let mut reinjected: Vec<[u8; 32]> = Vec::new();
    if ctx.reorg_depth > 0 {
        let mut i: usize = 0;
        while i < ctx.reorg_txs.len()
            invariant
                0 <= i <= ctx.reorg_txs@.len(),
                reinjected@ == Seq::new(i as nat, |k: int| ZERO_HASH),
            decreases ctx.reorg_txs@.len() - i,
        {
            reinjected.push(ZERO_HASH);
            i += 1;
            proof {
                assert(reinjected@ =~= Seq::new(i as nat, |k: int| ZERO_HASH));
            }
        }
    }
    PruneResult {
        removed_mined,
        removed_stale: Vec::new(),
        removed_underpriced: Vec::new(),
        promoted: Vec::new(),
        reinjected,
    }
}

/// The hashes among the first `k` of `pool` that are not in `mined`, in
/// order.
pub open spec fn unmined(pool: Seq<[u8; 32]>, k: int, mined: Seq<[u8; 32]>) -> Seq<[u8; 32]>
    decreases k,
{
    if k <= 0 {
        Seq::empty()
    } else if mined.contains(pool[k - 1]) {
        unmined(pool, k - 1, mined)
    } else {
        unmined(pool, k - 1, mined).push(pool[k - 1])
    }
}

/// Whether `h` is one of `mined`.
fn is_mined(h: &[u8; 32], mined: &[[u8; 32]]) -> (r: bool)
    ensures
        r == mined@.contains(*h),
{
    let mut i: usize = 0;
    while i < mined.len()
        invariant
            0 <= i <= mined@.len(),
            forall|k: int| 0 <= k < i ==> mined@[k] != *h,
        decreases mined@.len() - i,
    {
        if mined[i].same(h) {
            return true;
        }
        i += 1;
    }
    false
}

/// Keeps only the pool hashes that were not mined, in order.
pub fn remove_mined_txs(pool_hashes: &mut Vec<[u8; 32]>, mined: &[[u8; 32]])
    ensures
        final(pool_hashes)@ == unmined(old(pool_hashes)@, old(pool_hashes)@.len() as int, mined@),
{
    let mut kept: Vec<[u8; 32]> = Vec::new();
    let mut i: usize = 0;
    while i < pool_hashes.len()
        invariant
            0 <= i <= pool_hashes@.len(),
            pool_hashes@ == old(pool_hashes)@,
            kept@ == unmined(pool_hashes@, i as int, mined@),
        decreases pool_hashes@.len() - i,
    {
        let h = pool_hashes[i];
        if !is_mined(&h, mined) {
            kept.push(h);
        }
        i += 1;
    }
    *pool_hashes = kept;
}

/// Whether an orphaned transaction goes back into the pool: its nonce is
/// not below the account's (0 when unknown) and its fee cap reaches the
/// base fee.
pub open spec fn reinjectable(tx: OrphanedTx, nonces: Map<[u8; 20], u64>, base_fee: u128) -> bool {
    let state_nonce: u64 = if nonces.dom().contains(tx.from) { nonces[tx.from] } else { 0 };
    tx.nonce >= state_nonce && tx.max_fee_per_gas >= base_fee
}

/// The raw bytes of the re-injectable transactions among the first `k` of
/// `txs`, in order.
pub open spec fn reinjected_raw(txs: Seq<OrphanedTx>, k: int, nonces: Map<[u8; 20], u64>, base_fee: u128) -> Seq<Seq<u8>>
    decreases k,
{
    if k <= 0 {
        Seq::empty()
    } else if reinjectable(txs[k - 1], nonces, base_fee) {
        reinjected_raw(txs, k - 1, nonces, base_fee).push(txs[k - 1].raw@)
    } else {
        reinjected_raw(txs, k - 1, nonces, base_fee)
    }
}

/// The re-injected raw transactions of the first `k` orphaned blocks, in
/// block order.
pub open spec fn reorg_raw(blocks: Seq<OrphanedBlock>, k: int, nonces: Map<[u8; 20], u64>, base_fee: u128) -> Seq<Seq<u8>>
    decreases k,
{
    if k <= 0 {
        Seq::empty()
    } else {
        reorg_raw(blocks, k - 1, nonces, base_fee)
            + reinjected_raw(blocks[k - 1].txs@, blocks[k - 1].txs@.len() as int, nonces, base_fee)
    }
}

/// The transactions of the orphaned blocks that go back into the pool
/// (raw bytes, in block and transaction order).
pub fn handle_reorg(orphaned_blocks: &[OrphanedBlock], current_state_nonce: &Table<[u8; 20], u64>, current_base_fee: u128)
    -> (r: Vec<Vec<u8>>)
    requires
        current_state_nonce.wf(),
    ensures
        r@.map_values(|v: Vec<u8>| v@) == reorg_raw(orphaned_blocks@, orphaned_blocks@.len() as int,
            current_state_nonce.view(), current_base_fee),
{
    let mut reinject: Vec<Vec<u8>> = Vec::new();
    let mut b: usize = 0;
    while b < orphaned_blocks.len()
        invariant
            current_state_nonce.wf(),
            0 <= b <= orphaned_blocks@.len(),
            reinject@.map_values(|v: Vec<u8>| v@) == reorg_raw(orphaned_blocks@, b as int, current_state_nonce.view(),
                current_base_fee),
        decreases orphaned_blocks@.len() - b,
    {
        let block = &orphaned_blocks[b];
        let ghost before = reinject@.map_values(|v: Vec<u8>| v@);
        let mut t: usize = 0;
        while t < block.txs.len()
            invariant
                current_state_nonce.wf(),
                0 <= t <= block.txs@.len(),
                reinject@.map_values(|v: Vec<u8>| v@) == before + reinjected_raw(block.txs@, t as int,
                    current_state_nonce.view(), current_base_fee),
            decreases block.txs@.len() - t,
        {
            let tx = &block.txs[t];
            let state_nonce = match current_state_nonce.get(&tx.from) {
                Some(n) => *n,
                None => 0,
            };
            if tx.nonce >= state_nonce && tx.max_fee_per_gas >= current_base_fee {
                let raw = tx.raw.clone();
                proof {
                    assert(raw@ =~= tx.raw@);
                }
                let ghost prev = reinject@;
                reinject.push(raw);
                proof {
                    assert(reinject@.map_values(|v: Vec<u8>| v@) =~= prev.map_values(|v: Vec<u8>| v@).push(raw@));
                }
            }
            t += 1;
        }
        b += 1;
    }
    reinject
}

} // verus!
