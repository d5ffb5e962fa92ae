use zbx_chain::common::Address;
use zbx_chain::oracle::chainlink::{
    ChainlinkOracle, FeedState, OracleError, MAX_ORACLES, MIN_ORACLE_COUNT, ORACLE_PAYMENT,
};
use zbx_chain::oracle::feed::Price;
use zbx_chain::oracle::inr::{
    ai_rate_accepted, usd_inr_cache_age_secs, usd_inr_cache_age_secs_at, usd_inr_cached_price, CachedInrPrice,
    AI_MAX_CACHE_DEVIATION_BPS,
};

/// A rate in rupees, as a raw 8-decimal price.
fn inr(rupees_e2: i128) -> Price {
    Price(rupees_e2 * 1_000_000)
}

#[test]
fn ai_deviation_guard_logic() {
    // Reference 83.50; within 5% accepted, beyond rejected.
    let reference = inr(8350);
    assert_eq!(AI_MAX_CACHE_DEVIATION_BPS, 500);
    for ai in [8350, 8400, 8300, 8760, 7940] {
        assert!(ai_rate_accepted(inr(ai), Some(reference)), "rate {ai} should be accepted");
    }
    for ai in [8900, 7800, 10000, 6000] {
        assert!(!ai_rate_accepted(inr(ai), Some(reference)), "rate {ai} should be rejected");
    }
}

#[test]
fn ai_absolute_guard_used_when_no_cache() {
    for r in [5000, 8350, 10000, 15000] {
        assert!(ai_rate_accepted(inr(r), None), "{r} should pass absolute guard");
    }
    for r in [0, 4999, 15001, 99900] {
        assert!(!ai_rate_accepted(inr(r), None), "{r} should fail absolute guard");
    }
}

#[test]
fn ai_range_check_rejects_hallucination() {
    for rate in [0, 4990, 15010, 99900, -100] {
        assert!(!ai_rate_accepted(inr(rate), None), "rate {rate} should be rejected as hallucination");
    }
    for rate in [5000, 8350, 10000, 15000] {
        assert!(ai_rate_accepted(inr(rate), None), "rate {rate} should be accepted");
    }
}

#[test]
fn ai_guard_boundaries_are_inclusive() {
    // Exactly 5% away from the reference is still accepted; one raw unit more is not.
    let reference = Price(10_000_000_000);
    assert!(ai_rate_accepted(Price(10_500_000_000), Some(reference)));
    assert!(ai_rate_accepted(Price(9_500_000_000), Some(reference)));
    assert!(!ai_rate_accepted(Price(10_500_000_001), Some(reference)));
    assert!(!ai_rate_accepted(Price(9_499_999_999), Some(reference)));
    // The absolute range applies with a cache too: 155 against a cached 150 is refused.
    assert!(!ai_rate_accepted(inr(15500), Some(inr(15000))));
    assert!(ai_rate_accepted(inr(15000), Some(inr(14800))));
    // Extreme values do not overflow.
    assert!(!ai_rate_accepted(Price(i128::MIN), Some(Price(i128::MAX))));
    assert!(!ai_rate_accepted(inr(8000), Some(Price(i128::MAX))));
    assert!(ai_rate_accepted(inr(8000), Some(Price(-1))));
}

#[test]
fn cache_age_helper_returns_none_before_first_fetch() {
    let cache: Option<CachedInrPrice> = None;
    let age = usd_inr_cache_age_secs(&cache);
    assert!(age.is_none());
}

#[test]
fn cache_age_at_fixed_time() {
    let cache = Some(CachedInrPrice { price: inr(8350), timestamp_secs: 1_000 });
    assert_eq!(usd_inr_cache_age_secs_at(&cache, 4_600), Some(3_600));
    assert_eq!(usd_inr_cache_age_secs_at(&cache, 10), Some(0));
    assert!(usd_inr_cache_age_secs(&cache).is_some());
}

fn addr(b: u8) -> Address {
    Address([b; 20])
}

fn feed_with_oracles(n: u8) -> FeedState {
    let mut f = FeedState::new("ZBX / USD".to_string(), 8);
    for i in 1..=n {
        f.add_oracle(addr(i)).unwrap();
    }
    f
}

#[test]
fn feed_add_oracle_rules() {
    let mut f = FeedState::new("ETH / USD".to_string(), 8);
    assert_eq!(f.version, 4);
    assert_eq!(f.min_submissions, MIN_ORACLE_COUNT);
    assert!(f.add_oracle(addr(1)).is_ok());
    assert!(matches!(f.add_oracle(addr(1)), Err(OracleError::AlreadyAdded(a)) if a.0 == addr(1).0));
    for i in 2..=(MAX_ORACLES as u8) {
        assert!(f.add_oracle(addr(i)).is_ok());
    }
    assert_eq!(f.oracles.len(), MAX_ORACLES);
    assert!(matches!(f.add_oracle(addr(200)), Err(OracleError::TooManyOracles)));
}

#[test]
fn feed_round_aggregates_on_third_answer() {
    let mut f = feed_with_oracles(3);
    assert!(matches!(f.submit(addr(1), 1, 100_000, 10), Ok(None)));
    assert!(matches!(f.submit(addr(2), 1, 102_000, 12), Ok(None)));
    let rd = f.submit(addr(3), 1, 101_000, 11).unwrap().unwrap();
    assert_eq!(rd.round_id, 1);
    assert_eq!(rd.answer, 101_000);
    assert_eq!(rd.started_at, 10);
    assert_eq!(rd.updated_at, 11);
    assert_eq!(rd.answered_in_round, 1);
    assert_eq!(f.current_round, 1);
    assert_eq!(f.latest_round_data().unwrap().answer, 101_000);
    assert_eq!(f.get_round_data(1).unwrap().answer, 101_000);
    assert!(matches!(f.get_round_data(2), Err(OracleError::RoundNotFound(2))));
    for i in 1..=3 {
        assert_eq!(f.payments_owed.get(&addr(i)), Some(&ORACLE_PAYMENT));
    }
}

#[test]
fn feed_rejects_strangers_and_double_answers() {
    let mut f = feed_with_oracles(3);
    assert!(matches!(f.submit(addr(9), 1, 100, 1), Err(OracleError::NotOracle(a)) if a.0 == addr(9).0));
    assert!(f.submit(addr(1), 1, 100, 1).unwrap().is_none());
    assert!(matches!(
        f.submit(addr(1), 1, 100, 2),
        Err(OracleError::AlreadySubmitted { oracle, round: 1 }) if oracle.0 == addr(1).0
    ));
    assert!(matches!(f.latest_round_data(), Err(OracleError::NoData)));
}

#[test]
fn feed_outliers_can_fail_a_round() {
    // Median 100; 150 and 10 are beyond 10% of it, leaving one valid answer.
    let mut f = feed_with_oracles(3);
    f.submit(addr(1), 1, 150, 1).unwrap();
    f.submit(addr(2), 1, 100, 1).unwrap();
    let r = f.submit(addr(3), 1, 10, 1);
    assert!(matches!(r, Err(OracleError::InsufficientValidAnswers { valid: 1, min: 3 })));
    assert!(f.latest_round_data.is_none());
    assert!(f.payments_owed.get(&addr(1)).is_none());
}

#[test]
fn feed_median_of_kept_answers() {
    let mut f = feed_with_oracles(5);
    f.min_submissions = 5;
    // Sorted: 50, 98, 100, 104, 109 → median 100; 50 is dropped → kept 98,100,104,109 → answer 104.
    for (i, a) in [(1u8, 104i128), (2, 50), (3, 100), (4, 109)] {
        assert!(f.submit(addr(i), 7, a, 20 + i as u64).unwrap().is_none());
    }
    f.min_submissions = 4;
    let rd = f.submit(addr(5), 7, 98, 30).unwrap().unwrap();
    assert_eq!(rd.answer, 104);
    assert_eq!(rd.started_at, 21);
    assert_eq!(f.current_round, 7);
}

#[test]
fn chainlink_oracle_routes_to_feeds() {
    let mut o = ChainlinkOracle::new();
    assert!(matches!(o.get_price("ZBX/USD"), Err(OracleError::FeedNotFound(k)) if k == "ZBX/USD"));
    o.add_feed("ZBX/USD".to_string(), "ZBX / USD".to_string(), 8, addr(0xAA));
    assert_eq!(o.feed_by_address.get(&addr(0xAA)).map(|s| s.as_str()), Some("ZBX/USD"));
    assert!(matches!(o.get_price("ZBX/USD"), Err(OracleError::NoData)));
    assert!(matches!(
        o.submit("BTC/USD", addr(1), 1, 1),
        Err(OracleError::FeedNotFound(k)) if k == "BTC/USD"
    ));
    for i in 1..=3 {
        let f = &mut o.feeds[0].1;
        f.add_oracle(addr(i)).unwrap();
    }
    assert!(o.submit("ZBX/USD", addr(1), 500, 5).unwrap().is_none());
    assert!(o.submit("ZBX/USD", addr(2), 510, 6).unwrap().is_none());
    let rd = o.submit("ZBX/USD", addr(3), 505, 7).unwrap().unwrap();
    assert_eq!(rd.round_id, 1);
    assert_eq!(o.get_price("ZBX/USD").unwrap().answer, 505);
    // The next submission goes to round 2.
    assert!(o.submit("ZBX/USD", addr(1), 600, 8).unwrap().is_none());
    assert_eq!(o.feeds[0].1.pending_submissions.get(&2).map(|v| v.len()), Some(1));
}

#[test]
fn chainlink_add_feed_replaces_existing_key() {
    let mut o = ChainlinkOracle::default();
    o.add_feed("ETH/USD".to_string(), "old".to_string(), 8, addr(1));
    o.feeds[0].1.add_oracle(addr(7)).unwrap();
    o.add_feed("ETH/USD".to_string(), "new".to_string(), 6, addr(2));
    assert_eq!(o.feeds.len(), 1);
    assert_eq!(o.feeds[0].1.description, "new");
    assert_eq!(o.feeds[0].1.decimals, 6);
    assert!(o.feeds[0].1.oracles.is_empty());
}

#[test]
fn cached_price_copy() {
    assert!(usd_inr_cached_price(&None).is_none());
    let c = Some(CachedInrPrice { price: inr(8350), timestamp_secs: 7 });
    let got = usd_inr_cached_price(&c).unwrap();
    assert_eq!(got.price, inr(8350));
    assert_eq!(got.timestamp_secs, 7);
}

#[test]
fn oracle_scheduler_builds() {
    let s = zbx_chain::oracle::service::OracleScheduler::new(
        vec!["ZBX/USD".to_string()], "0xagg".to_string(), 30, 3600, "0.005".to_string(), true,
    );
    assert!(format!("{s:?}").contains("ZBX/USD"));
}
