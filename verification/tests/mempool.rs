use zbx_chain::pool::block_prune::{
    handle_reorg, post_block_prune, remove_mined_txs, BlockPruneCtx, OrphanedBlock, OrphanedTx,
};
use zbx_chain::pool::pending_pool::{PendingPool, PendingPoolError, PooledTx, MAX_TX_PER_ACCOUNT};
use zbx_chain::pool::propagation::{
    select_broadcast_peers, sync_pool_to_peer, PeerFloodBucket, SeenTxCache, TxRelayPolicy,
};
use zbx_chain::pool::tx_validate::{validate_tx, PoolError, MAX_TX_SIZE};
use zbx_chain::table::Table;

const MAINNET: u64 = 8_989;

// ── validation ──────────────────────────────────────────────────────────────

#[test]
fn placeholder_transaction_is_accepted_as_pending() {
    let r = validate_tx(&[1, 2, 3], MAINNET, 0, 0, 0, false, false, 0, 16).unwrap();
    assert!(r.is_pending);
    assert_eq!(r.effective_tip, 0);
    assert_eq!(r.gas_cost, 0);
    assert_eq!(r.sender, [0u8; 20]);
}

#[test]
fn validation_errors_come_in_order() {
    let big = vec![0u8; MAX_TX_SIZE + 1];
    assert!(matches!(
        validate_tx(&big, 1, 0, 0, 0, false, false, 0, 16),
        Err(PoolError::TxTooLarge { size, max }) if size == MAX_TX_SIZE + 1 && max == MAX_TX_SIZE
    ));
    assert!(matches!(
        validate_tx(&[], 1, 0, 0, 0, true, true, 99, 1),
        Err(PoolError::WrongChainId { expected: 1, got: MAINNET })
    ));
    assert!(matches!(
        validate_tx(&[], MAINNET, 5, 0, 0, false, false, 0, 16),
        Err(PoolError::MaxFeeTooLow { base_fee: 5, max_fee: 0 })
    ));
    assert!(matches!(validate_tx(&[], MAINNET, 0, 0, 0, true, false, 0, 16), Err(PoolError::AlreadyKnown { .. })));
    assert!(matches!(
        validate_tx(&[], MAINNET, 0, 3, 0, false, false, 0, 16),
        Err(PoolError::NonceTooLow { state_nonce: 3, tx_nonce: 0 })
    ));
    assert!(matches!(validate_tx(&[], MAINNET, 0, 0, 0, false, true, 0, 16), Err(PoolError::PoolFull)));
    assert!(matches!(validate_tx(&[], MAINNET, 0, 0, 0, false, false, 16, 16), Err(PoolError::SenderLimitExceeded)));
}

// ── block prune ─────────────────────────────────────────────────────────────

#[test]
fn prune_reports_mined_and_reinjected() {
    let ctx = BlockPruneCtx {
        mined_txs: vec![[1u8; 32], [2u8; 32]],
        sender_nonces: Table::new(),
        new_base_fee: 7,
        block_number: 10,
        reorg_depth: 1,
        reorg_txs: vec![vec![1], vec![2], vec![3]],
    };
    let r = post_block_prune(&ctx);
    assert_eq!(r.removed_mined, vec![[1u8; 32], [2u8; 32]]);
    assert_eq!(r.reinjected, vec![[0u8; 32]; 3]);
    assert!(r.removed_stale.is_empty() && r.removed_underpriced.is_empty() && r.promoted.is_empty());
}

#[test]
fn remove_mined_keeps_order_of_the_rest() {
    let mut pool = vec![[1u8; 32], [2u8; 32], [3u8; 32], [2u8; 32]];
    remove_mined_txs(&mut pool, &[[2u8; 32], [9u8; 32]]);
    assert_eq!(pool, vec![[1u8; 32], [3u8; 32]]);
}

#[test]
fn reorg_reinjects_only_fresh_well_priced_txs() {
    let mut nonces = Table::new();
    nonces.set([1u8; 20], 5u64);
    let tx = |from: u8, nonce: u64, fee: u128, raw: u8| OrphanedTx {
        hash: [raw; 32],
        from: [from; 20],
        nonce,
        max_fee_per_gas: fee,
        raw: vec![raw],
    };
    let blocks = vec![
        OrphanedBlock { block_hash: [0u8; 32], txs: vec![tx(1, 4, 100, 10), tx(1, 5, 100, 11)] },
        OrphanedBlock { block_hash: [1u8; 32], txs: vec![tx(2, 0, 9, 12), tx(2, 0, 10, 13)] },
    ];
    assert_eq!(handle_reorg(&blocks, &nonces, 10), vec![vec![11u8], vec![13u8]]);
}

// ── propagation ─────────────────────────────────────────────────────────────

#[test]
fn seen_cache_tracks_peers_and_expires() {
    let mut c = SeenTxCache::new(300);
    assert!(c.mark_seen([1u8; 32], "peer-a", 1000));
    assert!(!c.mark_seen([1u8; 32], "peer-b", 1100));
    assert!(c.peer_has_seen(&[1u8; 32], "peer-a"));
    assert!(c.peer_has_seen(&[1u8; 32], "peer-b"));
    assert!(!c.peer_has_seen(&[1u8; 32], "peer-c"));
    // At 1300 the entry (expiring at 1300) is dropped before recording.
    assert!(c.mark_seen([2u8; 32], "peer-c", 1300));
    assert!(!c.peer_has_seen(&[1u8; 32], "peer-a"));
}

#[test]
fn relay_policy_defaults() {
    let p = TxRelayPolicy::default();
    assert!(p.should_relay(1_000_000_000, 100));
    assert!(!p.should_relay(999_999_999, 100));
    assert!(!p.should_relay(0, 100));
    assert!(!p.should_relay(2_000_000_000, 128 * 1024 + 1));
}

#[test]
fn flood_bucket_refills_at_rate_and_caps() {
    let mut b = PeerFloodBucket::new(0);
    for _ in 0..500 {
        assert!(b.try_consume(0));
    }
    assert!(!b.try_consume(0));
    assert!(b.try_consume(1));
    assert_eq!(b.tokens, 99);
    assert!(b.try_consume(1_000_000));
    assert_eq!(b.tokens, 499);
}

#[test]
fn sync_and_broadcast_skip_peers_that_have_seen() {
    let mut c = SeenTxCache::new(300);
    c.mark_seen([1u8; 32], "p1", 10);
    let ann = sync_pool_to_peer(&[[1u8; 32], [2u8; 32]], "p1", &c);
    assert_eq!(ann.hashes, vec![[2u8; 32]]);
    assert_eq!(ann.types, vec![2u8]);
    assert_eq!(ann.sizes, vec![200u32]);
    let peers: Vec<String> = (0..12).map(|i| format!("p{i}")).collect();
    let (full, hash_only) = select_broadcast_peers(&peers, &[1u8; 32], &c);
    assert_eq!(full.len(), 8);
    assert_eq!(hash_only.len(), 3);
    assert_eq!(full[0], "p0");
    assert_eq!(full[1], "p2");
}

// ── pending pool ────────────────────────────────────────────────────────────

fn ptx(h: u8, from: u8, fee: u128, tip: u128) -> PooledTx {
    PooledTx {
        hash: [h; 32],
        from: [from; 20],
        nonce: 0,
        max_fee_per_gas: fee,
        max_priority_fee: tip,
        gas_limit: 21_000,
        value: 0,
        data: vec![],
        raw: vec![],
        received_at: 0,
    }
}

#[test]
fn best_transactions_by_tip_then_hash() {
    let mut p = PendingPool::new(10);
    p.add(ptx(3, 1, 100, 5)).unwrap();
    p.add(ptx(1, 2, 100, 50)).unwrap();
    p.add(ptx(2, 3, 12, 50)).unwrap(); // tip capped at 2
    p.add(ptx(0, 4, 100, 5)).unwrap();
    let order: Vec<u8> = p.best_transactions().iter().map(|t| t.hash[0]).collect();
    assert_eq!(order, vec![1, 0, 3, 2]);
    assert_eq!(ptx(2, 3, 12, 50).effective_tip(10), 2);
}

#[test]
fn pool_limits_and_pruning() {
    let mut p = PendingPool::new(10);
    for i in 0..MAX_TX_PER_ACCOUNT {
        p.add(ptx(i as u8, 7, 100, 1)).unwrap();
    }
    assert!(matches!(
        p.add(ptx(200, 7, 100, 1)),
        Err(PendingPoolError::SenderLimitExceeded { limit: 64, .. })
    ));
    p.add(ptx(201, 8, 5, 1)).unwrap();
    assert_eq!(p.len(), 65);
    p.prune_underpriced();
    assert_eq!(p.len(), 64);
    p.post_block_prune(&[[0u8; 32], [1u8; 32]]);
    assert_eq!(p.len(), 62);
    assert!(p.remove(&[2u8; 32]).is_some());
    assert!(p.remove(&[2u8; 32]).is_none());
    p.prune_sender([7u8; 20]);
    assert!(p.is_empty());
    p.update_base_fee(3);
    assert_eq!(p.base_fee, 3);
}
