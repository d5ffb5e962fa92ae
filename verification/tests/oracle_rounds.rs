use sha3::Digest;
use zbx_chain::oracle::aggregator::OracleAggregator;
use zbx_chain::oracle::error::OracleError;
use zbx_chain::oracle::feed::{FeedId, Price};
use zbx_chain::oracle::reporter::{sign_message, verify_signature, OracleReporter, PriceReport};
use zbx_chain::oracle::round::{OracleRound, RoundManager, RoundState};

// ── aggregation ─────────────────────────────────────────────────────────────

fn report(price_cents: i64, ts: u64) -> PriceReport {
    PriceReport {
        feed_id: FeedId::zbx_usd(),
        price: Price(price_cents as i128 * 1_000_000),
        timestamp: ts,
        reporter: [1u8; 20],
        signature: [0u8; 64],
    }
}

#[test]
fn median_of_odd_count() {
    let agg = OracleAggregator::new(3);
    let reports = vec![report(300, 1000), report(250, 1000), report(275, 1000)];
    let result = agg.aggregate(&reports, 1000).unwrap();
    assert_eq!(result.price, Price(275 * 1_000_000));
}

#[test]
fn median_of_even_count() {
    let agg = OracleAggregator::new(3);
    let reports = vec![report(200, 1000), report(250, 1000), report(300, 1000), report(350, 1000)];
    let result = agg.aggregate(&reports, 1000).unwrap();
    assert_eq!(result.price, Price(275 * 1_000_000));
}

#[test]
fn outlier_ignored() {
    let agg = OracleAggregator::new(3);
    let reports = vec![
        report(250, 1000),
        report(255, 1000),
        report(248, 1000),
        report(252, 1000),
        report(100_000, 1000),
    ];
    let result = agg.aggregate(&reports, 1000).unwrap();
    // Below $260 (eight decimals).
    assert!(result.price.0 < 260 * 100_000_000);
    assert!(result.outliers_removed >= 1);
}

#[test]
fn insufficient_reporters_error() {
    let agg = OracleAggregator::new(5);
    let reports = vec![report(250, 1000), report(255, 1000)];
    let err = agg.aggregate(&reports, 1000).unwrap_err();
    assert!(matches!(err, OracleError::InsufficientReporters { .. }));
}

#[test]
fn expired_reports_excluded() {
    let agg = OracleAggregator::new(3);
    let reports = vec![report(250, 1000), report(255, 1000), report(260, 1), report(248, 1000)];
    let result = agg.aggregate(&reports, 1000).unwrap();
    assert_eq!(result.reporter_count, 3);
}

#[test]
fn single_price_returns_itself() {
    let agg = OracleAggregator::new(1);
    let reports = vec![report(500, 1000)];
    let result = agg.aggregate(&reports, 1000).unwrap();
    assert_eq!(result.price, Price(500 * 1_000_000));
}

#[test]
fn aggregate_reports_exact_outlier_bounds_and_range() {
    let agg = OracleAggregator::new(3);
    // Sorted: 248, 250, 252, 255, 100000 (cents). Q1 = 250, Q3 = 255, IQR = 5,
    // kept range [235, 270]: the last one goes; median of four = 251.
    let reports = vec![
        report(250, 1000),
        report(255, 1000),
        report(248, 1000),
        report(252, 1000),
        report(100_000, 1000),
    ];
    let r = agg.aggregate(&reports, 1000).unwrap();
    assert_eq!(r.price, Price(251 * 1_000_000));
    assert_eq!(r.reporter_count, 4);
    assert_eq!(r.outliers_removed, 1);
    assert_eq!(r.price_range, (Price(248 * 1_000_000), Price(100_000 * 1_000_000)));
    assert_eq!(r.timestamp, 1000);
}

#[test]
fn aggregate_errors() {
    let agg = OracleAggregator::new(3);
    assert!(matches!(agg.aggregate(&[], 1000), Err(OracleError::NoReports)));
    // Insane prices do not count.
    let bad = vec![report(0, 1000), report(-5, 1000), report(250, 1000)];
    assert!(matches!(
        agg.aggregate(&bad, 1000),
        Err(OracleError::InsufficientReporters { got: 1, required: 3 })
    ));
    // With five prices and a zero multiplier only Q1..Q3 stay.
    let strict = OracleAggregator { iqr_multiplier: 0, min_reporters: 4 };
    let reports = vec![report(100, 1000), report(200, 1000), report(300, 1000), report(400, 1000), report(500, 1000)];
    assert!(matches!(
        strict.aggregate(&reports, 1000),
        Err(OracleError::TooManyOutliers { total: 5, outliers: 2 })
    ));
}

// ── reports and signatures ──────────────────────────────────────────────────

fn test_key() -> [u8; 32] {
    let mut k = [0u8; 32];
    k[31] = 7;
    k
}

fn addr_of(key: &[u8; 32]) -> [u8; 20] {
    let sk = k256::ecdsa::SigningKey::from_slice(key).unwrap();
    let point = sk.verifying_key().to_encoded_point(false);
    let h = sha3::Keccak256::digest(&point.as_bytes()[1..]);
    let mut a = [0u8; 20];
    a.copy_from_slice(&h[12..]);
    a
}

#[test]
fn sign_verify_roundtrip() {
    let key = test_key();
    let addr = addr_of(&key);
    let msg = [0xabu8; 32];
    let sig = sign_message(&msg, &key).expect("sign_message should not fail");
    assert!(verify_signature(&msg, &sig, &addr), "verify_signature must accept the signer's own signature");
}

#[test]
fn verify_rejects_wrong_address() {
    let key = test_key();
    let msg = [0x01u8; 32];
    let sig = sign_message(&msg, &key).expect("sign_message failed");
    let wrong = [0xffu8; 20];
    assert!(!verify_signature(&msg, &sig, &wrong));
}

#[test]
fn reporter_verify_rejects_tampered_signature() {
    let key = test_key();
    let addr = addr_of(&key);
    let msg = [0x55u8; 32];
    let mut sig = sign_message(&msg, &key).expect("sign_message failed");
    sig[10] ^= 0xff;
    assert!(!verify_signature(&msg, &sig, &addr));
}

#[test]
fn reporter_verify_rejects_wrong_message() {
    let key = test_key();
    let addr = addr_of(&key);
    let msg1 = [0xaau8; 32];
    let msg2 = [0xbbu8; 32];
    let sig = sign_message(&msg1, &key).expect("sign_message failed");
    assert!(!verify_signature(&msg2, &sig, &addr));
}

#[test]
fn verify_rejects_all_zero_signature() {
    let key = test_key();
    let addr = addr_of(&key);
    let msg = [0x11u8; 32];
    assert!(!verify_signature(&msg, &[0u8; 64], &addr));
}

#[test]
fn different_keys_produce_different_signatures() {
    let key1: [u8; 32] = {
        let mut k = [0u8; 32];
        k[31] = 7;
        k
    };
    let key2: [u8; 32] = {
        let mut k = [0u8; 32];
        k[31] = 13;
        k
    };
    let msg = [0x99u8; 32];
    let s1 = sign_message(&msg, &key1).unwrap();
    let s2 = sign_message(&msg, &key2).unwrap();
    assert_ne!(s1, s2);
}

#[test]
fn sign_message_is_deterministic() {
    let key = test_key();
    let msg = [0xddu8; 32];
    let s1 = sign_message(&msg, &key).unwrap();
    let s2 = sign_message(&msg, &key).unwrap();
    assert_eq!(s1, s2);
}

#[test]
fn price_report_new_and_verify_sig() {
    let key = test_key();
    let addr = addr_of(&key);
    let feed = FeedId("ZBX/USD".to_string());
    let report = PriceReport::new(feed.clone(), Price(100_000_000), 1_700_000_000, addr, &key)
        .expect("PriceReport::new failed");
    assert!(report.verify_sig());
    assert_eq!(report.feed_id.0, "ZBX/USD");
    assert_eq!(report.price, Price(100_000_000));
    assert_eq!(report.reporter, addr);
}

#[test]
fn price_report_verify_fails_after_price_tamper() {
    let key = test_key();
    let addr = addr_of(&key);
    let feed = FeedId("ETH/USD".to_string());
    let mut report = PriceReport::new(feed, Price(200_000_000), 1_700_000_000, addr, &key)
        .expect("PriceReport::new failed");
    report.price = Price(999_999_999);
    assert!(!report.verify_sig());
}

#[test]
fn price_report_signing_message_is_deterministic() {
    let feed = FeedId("BTC/USD".to_string());
    let m1 = PriceReport::signing_message(&feed, Price(50_000_000_000), 1_700_000_000);
    let m2 = PriceReport::signing_message(&feed, Price(50_000_000_000), 1_700_000_000);
    assert_eq!(m1, m2);
}

#[test]
fn price_report_signing_message_changes_with_price() {
    let feed = FeedId("BTC/USD".to_string());
    let m1 = PriceReport::signing_message(&feed, Price(50_000_000_000), 1_700_000_000);
    let m2 = PriceReport::signing_message(&feed, Price(50_000_000_001), 1_700_000_000);
    assert_ne!(m1, m2);
}

#[test]
fn signing_message_is_sha256_of_feed_price_and_time() {
    let feed = FeedId("ZBX/USD".to_string());
    let mut input = Vec::new();
    input.extend_from_slice(b"ZBX/USD");
    input.extend_from_slice(&250_000_000i128.to_le_bytes());
    input.extend_from_slice(&42u64.to_le_bytes());
    let expected: [u8; 32] = sha2::Sha256::digest(&input).into();
    assert_eq!(PriceReport::signing_message(&feed, Price(250_000_000), 42), expected);
}

#[test]
fn invalid_price_or_key_is_refused() {
    let key = test_key();
    let r = PriceReport::new(FeedId::zbx_usd(), Price(0), 1, [0u8; 20], &key);
    assert!(matches!(r, Err(OracleError::InvalidPrice(0))));
    let r = PriceReport::new(FeedId::zbx_usd(), Price(5), 1, [0u8; 20], &[0u8; 32]);
    assert!(matches!(r, Err(OracleError::InvalidSignature)));
}

#[test]
fn reporter_signs_fetched_price_with_its_key() {
    let key = test_key();
    let addr = addr_of(&key);
    let rep = OracleReporter::new(addr, key, vec![FeedId::zbx_usd()], "http://localhost".to_string());
    let r = rep.report(&FeedId::zbx_usd(), Price(123_000_000), 77).unwrap();
    assert!(r.verify_sig());
    assert_eq!(r.reporter, addr);
    assert_eq!(r.timestamp, 77);
}

// ── rounds ──────────────────────────────────────────────────────────────────

fn key_n(n: u8) -> [u8; 32] {
    let mut k = [0u8; 32];
    k[31] = n;
    k
}

fn signed(n: u8, cents: i128, ts: u64) -> PriceReport {
    let key = key_n(n);
    PriceReport::new(FeedId::zbx_usd(), Price(cents * 1_000_000), ts, addr_of(&key), &key).unwrap()
}

#[test]
fn round_collects_and_closes_with_median() {
    let whitelist: Vec<[u8; 20]> = (1..=3).map(|n| addr_of(&key_n(n))).collect();
    let mut mgr = RoundManager::new(whitelist, 3);
    assert_eq!(mgr.new_round(FeedId::zbx_usd(), 1000), 1);
    mgr.submit(&FeedId::zbx_usd(), signed(1, 250, 1000), 1000).unwrap();
    mgr.submit(&FeedId::zbx_usd(), signed(2, 260, 1000), 1000).unwrap();
    assert!(matches!(
        mgr.submit(&FeedId::zbx_usd(), signed(2, 270, 1000), 1000),
        Err(OracleError::DuplicateReport(_))
    ));
    assert!(matches!(
        mgr.submit(&FeedId::zbx_usd(), signed(9, 270, 1000), 1000),
        Err(OracleError::UnauthorizedReporter(_))
    ));
    mgr.submit(&FeedId::zbx_usd(), signed(3, 270, 1000), 1000).unwrap();
    assert_eq!(mgr.close_round(&FeedId::zbx_usd(), 1010).unwrap(), Price(260 * 1_000_000));
    assert_eq!(mgr.latest_round_data(&FeedId::zbx_usd()), Some((1, Price(260 * 1_000_000), 1010)));
    assert_eq!(mgr.new_round(FeedId::zbx_usd(), 2000), 2);
    assert_eq!(mgr.latest_round_data(&FeedId::zbx_usd()), Some((1, Price(260 * 1_000_000), 1010)));
}

#[test]
fn round_refuses_bad_reports_and_fails_without_quorum() {
    let whitelist = vec![addr_of(&key_n(1))];
    let mut round = OracleRound::open(1, FeedId::zbx_usd(), 1000, 300);
    let mut forged = signed(1, 250, 1000);
    forged.price = Price(251_000_000);
    assert!(matches!(round.add_report(forged, 1000, &whitelist), Err(OracleError::InvalidSignature)));
    assert!(matches!(round.add_report(signed(1, 250, 100), 1000, &whitelist), Err(OracleError::ReportExpired)));
    round.add_report(signed(1, 250, 1000), 1000, &whitelist).unwrap();
    let agg = OracleAggregator::new(3);
    assert!(matches!(round.close(&agg, 1000, 3), Err(OracleError::InsufficientReporters { got: 1, required: 3 })));
    assert!(matches!(round.state, RoundState::Failed { .. }));
    assert!(round.is_done());
    assert_eq!(round.price(), None);
    assert!(matches!(round.close(&agg, 1000, 3), Err(OracleError::RoundNotOpen(1))));
}

#[test]
fn unknown_feed_has_no_rounds() {
    let mut mgr = RoundManager::new(vec![], 3);
    assert!(matches!(mgr.submit(&FeedId::eth_usd(), report(1, 1), 1), Err(OracleError::UnknownFeed(_))));
    assert!(matches!(mgr.close_round(&FeedId::eth_usd(), 1), Err(OracleError::UnknownFeed(_))));
    assert_eq!(mgr.latest_round_data(&FeedId::eth_usd()), None);
}
