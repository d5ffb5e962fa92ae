use zbx_chain::oracle::feed::{FeedId, Price};
use zbx_chain::oracle::fetcher::symbol_to_coingecko_id;
use zbx_chain::oracle::heartbeat::{
    FeedHealth, HeartbeatAlertLevel, HeartbeatMonitor, HEARTBEAT_STD,
};
use zbx_chain::oracle::inr::{CachedInrPrice, MAX_CACHE_AGE_SECS};
use zbx_chain::oracle::multi_chain::{
    MultiChainRegistry, NetworkPrice, RelayMessage, CHAIN_ARBITRUM, CHAIN_AVALANCHE, CHAIN_BSC,
    CHAIN_ETHEREUM, CHAIN_OPTIMISM, CHAIN_POLYGON, CHAIN_ZBX_MAINNET, CHAIN_ZBX_TESTNET,
};
use zbx_chain::oracle::price_proof::{CommitmentRegistry, OraclePriceCommitment, PriceEntry};
use zbx_chain::oracle::slasher::SlashSeverity;

fn now_secs() -> u64 {
    std::time::SystemTime::now()
        .duration_since(std::time::UNIX_EPOCH)
        .unwrap_or_default()
        .as_secs()
}

// 8-decimal fixed point, as `Price::from_f64` would produce.
fn px(units: i128, hundredths: i128) -> Price {
    Price(units * 100_000_000 + hundredths * 1_000_000)
}

// ── fetcher ─────────────────────────────────────────────────────────────────

#[test]
fn coingecko_id_mapping() {
    assert_eq!(symbol_to_coingecko_id("ETH"), Some("ethereum"));
    assert_eq!(symbol_to_coingecko_id("BTC"), Some("bitcoin"));
    assert_eq!(symbol_to_coingecko_id("ZBX"), Some("zebvix-chain"));
    assert_eq!(symbol_to_coingecko_id("FAKE"), None);
}

#[test]
fn coingecko_id_mapping_ignores_case() {
    assert_eq!(symbol_to_coingecko_id("eth"), Some("ethereum"));
    assert_eq!(symbol_to_coingecko_id("Avax"), Some("avalanche-2"));
}

// ── heartbeat ───────────────────────────────────────────────────────────────

#[test]
fn no_alert_within_heartbeat() {
    let mut h = FeedHealth::new(FeedId::zbx_usd(), HEARTBEAT_STD);
    let base = 10_000u64;
    h.record_update(px(2, 50), base);
    let alert = h.check(base + 1_800);
    assert!(alert.is_none(), "should not alert within heartbeat window");
}

#[test]
fn warning_at_75_percent() {
    let mut h = FeedHealth::new(FeedId::zbx_usd(), HEARTBEAT_STD);
    let base = 10_000u64;
    h.record_update(px(2, 50), base);
    let alert = h.check(base + 2_750).unwrap();
    assert_eq!(alert.level, HeartbeatAlertLevel::Warning);
}

#[test]
fn critical_at_100_percent() {
    let mut h = FeedHealth::new(FeedId::zbx_usd(), HEARTBEAT_STD);
    let base = 10_000u64;
    h.record_update(px(2, 50), base);
    let alert = h.check(base + 3_601).unwrap();
    assert_eq!(alert.level, HeartbeatAlertLevel::Critical);
}

#[test]
fn stale_after_grace_period() {
    let mut h = FeedHealth::new(FeedId::zbx_usd(), HEARTBEAT_STD);
    let base = 10_000u64;
    h.record_update(px(2, 50), base);
    let alert = h.check(base + 3_901 + 1).unwrap();
    assert_eq!(alert.level, HeartbeatAlertLevel::Stale);
    assert!(h.is_stale);
}

#[test]
fn update_clears_stale() {
    let mut h = FeedHealth::new(FeedId::zbx_usd(), HEARTBEAT_STD);
    let base = 10_000u64;
    h.record_update(px(2, 50), base);
    h.check(base + 4_000);
    assert!(h.is_stale);
    h.record_update(px(2, 50), base + 4_001);
    assert!(!h.is_stale, "update should clear stale state");
}

#[test]
fn monitor_registers_all_standard_feeds() {
    let mut monitor = HeartbeatMonitor::new();
    monitor.register_all_feeds();
    assert_eq!(
        monitor.feed_count(),
        13,
        "must register all 13 standard feeds, got {}",
        monitor.feed_count()
    );
}

#[test]
fn alert_description_and_overdue() {
    let mut h = FeedHealth::new(FeedId::zbx_usd(), HEARTBEAT_STD);
    h.record_update(px(2, 50), 10_000);
    let alert = h.check(10_000 + 3_700).unwrap();
    assert_eq!(alert.overdue_secs(), 100);
    assert_eq!(
        alert.description(),
        "[CRIT] ZBX/USD — 3700s since last update (heartbeat 3600s, overdue 100s)"
    );
    assert_eq!(h.misses_total, 0);
}

#[test]
fn monitor_tracks_updates_and_stale_feeds() {
    let mut monitor = HeartbeatMonitor::new();
    monitor.register(FeedId::zbx_usd(), HEARTBEAT_STD);
    monitor.register(FeedId::eth_usd(), HEARTBEAT_STD);
    monitor.record_update(&FeedId::zbx_usd(), px(2, 50), 1_000);
    monitor.record_update(&FeedId::eth_usd(), px(3_500, 0), 1_500);
    let alerts = monitor.check_all(1_000 + 3_901);
    assert_eq!(alerts.len(), 2);
    let stale = monitor.stale_feeds();
    assert_eq!(stale.len(), 1);
    assert_eq!(stale[0].0, "ZBX/USD");
    let health = monitor.health(&FeedId::eth_usd()).unwrap();
    assert_eq!(health.updates_total, 1);
    assert!(monitor.health(&FeedId::btc_usd()).is_none());
}

// ── INR cache ───────────────────────────────────────────────────────────────

#[test]
fn cached_price_is_valid_when_fresh() {
    let cached = CachedInrPrice { price: px(83, 50), timestamp_secs: now_secs() };
    assert!(cached.is_valid(), "brand-new cache must be valid");
    assert!(cached.age_secs() < 5, "age should be near zero");
    assert_eq!(cached.age_hours(), 0);
}

#[test]
fn cached_price_invalid_after_30_days() {
    let thirty_one_days_ago = now_secs().saturating_sub(31 * 24 * 3600);
    let cached = CachedInrPrice { price: px(83, 50), timestamp_secs: thirty_one_days_ago };
    assert!(!cached.is_valid(), "31-day-old cache must be rejected");
    assert!(cached.age_hours() >= 744, "31 days = 744h+");
}

#[test]
fn cached_price_valid_on_day_30_exactly() {
    let exactly_30_days_ago = now_secs().saturating_sub(MAX_CACHE_AGE_SECS);
    let cached = CachedInrPrice { price: px(83, 50), timestamp_secs: exactly_30_days_ago };
    assert!(cached.is_valid(), "exactly 30-day cache must still be valid");
}

#[test]
fn cached_price_age_at_fixed_times() {
    let cached = CachedInrPrice { price: px(83, 50), timestamp_secs: 1_000 };
    assert_eq!(cached.age_secs_at(1_000 + 7_200), 7_200);
    assert_eq!(cached.age_hours_at(1_000 + 7_200), 2);
    assert_eq!(cached.age_secs_at(10), 0);
    assert!(cached.is_valid_at(1_000 + MAX_CACHE_AGE_SECS));
    assert!(!cached.is_valid_at(1_000 + MAX_CACHE_AGE_SECS + 1));
}

// ── multi-chain ─────────────────────────────────────────────────────────────

#[test]
fn eight_networks_registered() {
    let reg = MultiChainRegistry::new();
    assert_eq!(reg.network_count(), 8, "must have exactly 8 supported networks");
}

#[test]
fn native_networks_identified() {
    let reg = MultiChainRegistry::new();
    assert!(reg.is_native(CHAIN_ZBX_MAINNET));
    assert!(reg.is_native(CHAIN_ZBX_TESTNET));
    assert!(!reg.is_native(CHAIN_ETHEREUM));
    assert!(!reg.is_native(CHAIN_AVALANCHE));
}

#[test]
fn six_relay_networks() {
    let reg = MultiChainRegistry::new();
    assert_eq!(
        reg.relay_network_count(),
        6,
        "ETH, BSC, Polygon, Arbitrum, Optimism, Avalanche = 6 relay chains"
    );
}

#[test]
fn chain_ids_correct() {
    let reg = MultiChainRegistry::new();
    assert_eq!(reg.network(CHAIN_ZBX_MAINNET).unwrap().chain_id, 8989);
    assert_eq!(reg.network(CHAIN_ZBX_TESTNET).unwrap().chain_id, 8990);
    assert_eq!(reg.network(CHAIN_ETHEREUM).unwrap().chain_id, 1);
    assert_eq!(reg.network(CHAIN_BSC).unwrap().chain_id, 56);
    assert_eq!(reg.network(CHAIN_POLYGON).unwrap().chain_id, 137);
    assert_eq!(reg.network(CHAIN_ARBITRUM).unwrap().chain_id, 42_161);
    assert_eq!(reg.network(CHAIN_OPTIMISM).unwrap().chain_id, 10);
    assert_eq!(reg.network(CHAIN_AVALANCHE).unwrap().chain_id, 43_114);
}

#[test]
fn record_and_query_price() {
    let mut reg = MultiChainRegistry::new();
    let price = NetworkPrice {
        chain_id: CHAIN_ETHEREUM,
        feed_id: FeedId::zbx_usd(),
        price: px(2, 50),
        round_id: 42,
        updated_at: 10_000,
        relay_gas_used: 150_000,
        is_relayed: true,
    };
    reg.record_price(price);
    let p = reg.latest_price(CHAIN_ETHEREUM, &FeedId::zbx_usd()).unwrap();
    assert_eq!(p.round_id, 42);
    assert_eq!(p.price, px(2, 50));
}

#[test]
fn stale_relay_detection() {
    let mut reg = MultiChainRegistry::new();
    reg.record_price(NetworkPrice {
        chain_id: CHAIN_ETHEREUM,
        feed_id: FeedId::zbx_usd(),
        price: px(2, 50),
        round_id: 1,
        updated_at: 19_000,
        relay_gas_used: 0,
        is_relayed: true,
    });
    let stale = reg.stale_relays(&FeedId::zbx_usd(), 20_000, 3_600);
    assert!(!stale.contains(&CHAIN_ETHEREUM));
    assert!(stale.contains(&CHAIN_BSC));
    assert!(stale.contains(&CHAIN_POLYGON));
}

#[test]
fn relay_signing_payload_is_deterministic() {
    let msg = RelayMessage {
        source_chain: CHAIN_ZBX_MAINNET,
        target_chain: CHAIN_ETHEREUM,
        feed_id: FeedId::zbx_usd(),
        price: px(2, 50),
        zbx_block: 1_000,
        round_id: 42,
        timestamp: 9_999,
        bls_signature: [0u8; 96],
        signer_bitmap: 0b11111,
    };
    let p1 = msg.signing_payload();
    let p2 = msg.signing_payload();
    assert_eq!(p1, p2, "signing payload must be deterministic");
    assert!(!p1.is_empty());
}

#[test]
fn relay_signing_payload_layout() {
    let msg = RelayMessage {
        source_chain: 1,
        target_chain: 2,
        feed_id: FeedId("AB".to_string()),
        price: Price(3),
        zbx_block: 4,
        round_id: 5,
        timestamp: 6,
        bls_signature: [0u8; 96],
        signer_bitmap: 0,
    };
    let p = msg.signing_payload();
    // target chain (8) + feed id (2) + price (16) + round (8) + timestamp (8).
    assert_eq!(p.len(), 42);
    assert_eq!(&p[0..8], &2u64.to_be_bytes());
    assert_eq!(&p[8..10], b"AB");
    assert_eq!(&p[10..26], &3i128.to_be_bytes());
    assert_eq!(&p[26..34], &5u64.to_be_bytes());
    assert_eq!(&p[34..42], &6u64.to_be_bytes());
}

#[test]
fn newer_price_replaces_older_and_cross_chain_listing() {
    let mut reg = MultiChainRegistry::new();
    for (chain, round) in [(CHAIN_ETHEREUM, 1u64), (CHAIN_BSC, 7), (CHAIN_ETHEREUM, 2)] {
        reg.record_price(NetworkPrice {
            chain_id: chain,
            feed_id: FeedId::zbx_usd(),
            price: Price(round as i128),
            round_id: round,
            updated_at: 100,
            relay_gas_used: 0,
            is_relayed: true,
        });
    }
    assert_eq!(reg.latest_price(CHAIN_ETHEREUM, &FeedId::zbx_usd()).unwrap().round_id, 2);
    assert_eq!(reg.cross_chain_prices(&FeedId::zbx_usd()).len(), 2);
    assert!(reg.latest_price(CHAIN_POLYGON, &FeedId::zbx_usd()).is_none());
}

// ── price proofs ────────────────────────────────────────────────────────────

fn entry(feed: &str, price: Price, round: u64) -> PriceEntry {
    PriceEntry::new(FeedId(feed.into()), price, round, 9_999)
}

fn sample_commitment() -> OraclePriceCommitment {
    let entries = vec![
        entry("BTC/USD", px(68_000, 0), 1),
        entry("ETH/USD", px(3_500, 0), 1),
        entry("ZBX/USD", px(2, 50), 1),
    ];
    OraclePriceCommitment::build(entries, 1, 100_000, 9_999)
}

#[test]
fn commitment_has_non_zero_root() {
    let c = sample_commitment();
    assert_ne!(c.root, [0u8; 32], "root must be non-zero");
    assert_eq!(c.feed_count, 3);
}

#[test]
fn feeds_sorted_alphabetically() {
    let c = sample_commitment();
    let feeds: Vec<_> = c.feeds().iter().map(|f| f.0.clone()).collect();
    assert_eq!(feeds, vec!["BTC/USD", "ETH/USD", "ZBX/USD"], "feeds must be sorted alphabetically");
}

#[test]
fn proof_verifies() {
    let c = sample_commitment();
    for feed in [FeedId("BTC/USD".into()), FeedId("ETH/USD".into()), FeedId("ZBX/USD".into())] {
        let proof = c.proof_for(&feed).unwrap();
        assert!(proof.verify(), "proof for {} must verify against root", feed.0);
    }
}

#[test]
fn proof_for_unknown_feed_is_none() {
    let c = sample_commitment();
    assert!(c.proof_for(&FeedId("UNKNOWN".into())).is_none());
}

#[test]
fn tampered_price_fails_verification() {
    let c = sample_commitment();
    let mut proof = c.proof_for(&FeedId("ZBX/USD".into())).unwrap();
    proof.entry.price = px(999, 0);
    assert!(!proof.verify(), "tampered price should fail verification");
}

#[test]
fn single_feed_commitment() {
    let entries = vec![entry("ZBX/USD", px(2, 50), 42)];
    let c = OraclePriceCommitment::build(entries, 42, 1_000, 9_999);
    assert_ne!(c.root, [0u8; 32]);
    let proof = c.proof_for(&FeedId("ZBX/USD".into())).unwrap();
    assert!(proof.verify());
}

#[test]
fn single_leaf_root_is_leaf_hash() {
    let e = entry("ZBX/USD", px(2, 50), 42);
    let c = OraclePriceCommitment::build(vec![e.clone()], 42, 1_000, 9_999);
    assert_eq!(c.root, e.leaf_hash());
    assert_eq!(c.price_for(&FeedId("ZBX/USD".into())), Some(px(2, 50)));
}

#[test]
fn registry_retains_latest() {
    let mut reg = CommitmentRegistry::new(5);
    for round in 1..=3u64 {
        let entries = vec![entry("ZBX/USD", Price(round as i128 * 100_000_000), round)];
        let c = OraclePriceCommitment::build(entries, round, round * 1000, 9_999);
        reg.insert(c);
    }
    assert_eq!(reg.len(), 3);
    assert_eq!(reg.latest().unwrap().round_id, 3);
}

#[test]
fn registry_evicts_old_on_overflow() {
    let mut reg = CommitmentRegistry::new(3);
    for round in 1..=5u64 {
        let entries = vec![entry("ZBX/USD", Price(round as i128 * 100_000_000), round)];
        let c = OraclePriceCommitment::build(entries, round, round * 1000, 9_999);
        reg.insert(c);
    }
    assert_eq!(reg.len(), 3);
    assert!(reg.get(1).is_none(), "round 1 should be evicted");
    assert!(reg.get(2).is_none(), "round 2 should be evicted");
    assert!(reg.get(5).is_some(), "round 5 should be present");
}

#[test]
fn registry_replaces_same_round_and_proves_latest() {
    let mut reg = CommitmentRegistry::new(3);
    assert!(reg.is_empty());
    assert!(reg.latest_proof_for(&FeedId::zbx_usd()).is_none());
    reg.insert(OraclePriceCommitment::build(vec![entry("ZBX/USD", Price(1), 7)], 7, 1, 1));
    reg.insert(OraclePriceCommitment::build(vec![entry("ZBX/USD", Price(2), 7)], 7, 2, 2));
    assert_eq!(reg.len(), 1);
    assert_eq!(reg.get(7).unwrap().block, 2);
    let p = reg.latest_proof_for(&FeedId::zbx_usd()).unwrap();
    assert!(p.verify());
    assert_eq!(p.entry.price, Price(2));
}

// ── slashing ────────────────────────────────────────────────────────────────

#[test]
fn slash_severity_amounts() {
    assert_eq!(SlashSeverity::Warning.slash_bps(), 0);
    assert_eq!(SlashSeverity::Minor.slash_bps(), 500);
    assert_eq!(SlashSeverity::Major.slash_bps(), 1_000);
    assert_eq!(SlashSeverity::Critical.slash_bps(), 3_000);
}

#[test]
fn slash_severity_labels() {
    assert_eq!(SlashSeverity::Warning.label(), "warning");
    assert_eq!(SlashSeverity::Critical.label(), "critical");
    assert_eq!(HeartbeatAlertLevel::Stale.label(), "STALE");
}
