use zbx_chain::oracle::feed::{FeedId, Price};
use zbx_chain::oracle::slasher::{
    is_outlier_check, OracleSlashEvent, OracleSlasher, SlashSeverity, APPEAL_WINDOW_BLOCKS,
    SLASH_BPS_CRITICAL, SLASH_BPS_MAJOR, SLASH_BPS_MINOR,
};

fn addr(n: u8) -> [u8; 20] {
    [n; 20]
}

fn usd(cents: i128) -> Price {
    Price(cents * 1_000_000)
}

#[test]
fn single_outlier_is_warning_no_slash() {
    let mut slasher = OracleSlasher::new();
    // Reported $5.00 when median is $2.50 (100% deviation)
    let event = slasher.record_deviation(addr(1), FeedId::zbx_usd(), usd(500), usd(250), 1, 1000);
    assert!(event.is_none(), "first outlier should be warning only, no slash");
    assert_eq!(slasher.reporter_state(&addr(1)).unwrap().total_slashes, 0);
}

#[test]
fn two_consecutive_outliers_minor_slash() {
    let mut slasher = OracleSlasher::new();
    slasher.record_deviation(addr(1), FeedId::zbx_usd(), usd(500), usd(250), 1, 100);
    let event = slasher.record_deviation(addr(1), FeedId::zbx_usd(), usd(500), usd(250), 2, 101);
    assert!(event.is_some(), "2nd consecutive outlier should trigger minor slash");
    assert_eq!(event.unwrap().severity, SlashSeverity::Minor);
}

#[test]
fn three_consecutive_outliers_major_slash() {
    let mut slasher = OracleSlasher::new();
    for round in 1..=2u64 {
        slasher.record_deviation(addr(2), FeedId::zbx_usd(), usd(500), usd(250), round, round * 100);
    }
    let event = slasher.record_deviation(addr(2), FeedId::zbx_usd(), usd(500), usd(250), 3, 300);
    assert!(event.is_some());
    let e = event.unwrap();
    assert_eq!(e.severity, SlashSeverity::Major);
    assert_eq!(e.slash_bps, SLASH_BPS_MAJOR);
}

#[test]
fn good_round_resets_streak() {
    let mut slasher = OracleSlasher::new();
    slasher.record_deviation(addr(3), FeedId::zbx_usd(), usd(500), usd(250), 1, 100);
    slasher.record_deviation(addr(3), FeedId::zbx_usd(), usd(500), usd(250), 2, 200);
    // Good round — streak resets
    slasher.record_deviation(addr(3), FeedId::zbx_usd(), usd(251), usd(250), 3, 300);
    let event = slasher.record_deviation(addr(3), FeedId::zbx_usd(), usd(500), usd(250), 4, 400);
    assert!(event.is_none(), "after reset, first outlier should be warning");
}

#[test]
fn coordinated_attack_slashes_all_participants() {
    let mut slasher = OracleSlasher::new();
    let reporters = [addr(10), addr(11), addr(12)];
    let events = slasher.record_coordinated_attack(&reporters, FeedId::zbx_usd(), usd(10_000), usd(250), 1, 1000);
    assert_eq!(events.len(), 3, "all 3 reporters should be slashed");
    for e in &events {
        assert_eq!(e.severity, SlashSeverity::Critical);
        assert_eq!(e.slash_bps, SLASH_BPS_CRITICAL);
    }
    for r in &reporters {
        assert!(slasher.is_suspended(r));
    }
}

#[test]
fn appeal_window_calculated_correctly() {
    let event = OracleSlashEvent::new(
        addr(1), FeedId::zbx_usd(), 1, SlashSeverity::Major, usd(500), usd(250), 20_000, 100_000,
    );
    assert_eq!(event.appeal_until, 100_000 + APPEAL_WINDOW_BLOCKS);
    assert!(event.is_appealable(100_001));
    assert!(!event.is_appealable(200_000));
}

#[test]
fn outlier_boundary_is_a_fifth_of_the_median() {
    // 20% away is not an outlier; one raw unit more is.
    assert!(!is_outlier_check(120, 100));
    assert!(!is_outlier_check(80, 100));
    assert!(is_outlier_check(121, 100));
    assert!(is_outlier_check(79, 100));
    // A zero or negative median flags nothing.
    assert!(!is_outlier_check(1_000, 0));
    assert!(!is_outlier_check(1_000, -5));
    assert!(is_outlier_check(i128::MIN, i128::MAX));
}

#[test]
fn slash_events_carry_deviation_and_accumulate() {
    let mut slasher = OracleSlasher::default();
    slasher.record_deviation(addr(4), FeedId::eth_usd(), usd(500), usd(250), 1, 10);
    let e = slasher.record_deviation(addr(4), FeedId::eth_usd(), usd(500), usd(250), 2, 11).unwrap();
    // |5.00 - 2.50| / 2.50 * 5 = 5 multiples = 50000 bps.
    assert_eq!(e.deviation_bps, 50_000);
    assert_eq!(e.slash_bps, SLASH_BPS_MINOR);
    assert_eq!(e.appeal_until, 11 + APPEAL_WINDOW_BLOCKS);
    let e3 = slasher.record_deviation(addr(4), FeedId::eth_usd(), usd(500), usd(250), 3, 12).unwrap();
    assert_eq!(e3.severity, SlashSeverity::Major);
    let st = slasher.reporter_state(&addr(4)).unwrap();
    assert_eq!(st.total_slashes, 2);
    assert_eq!(st.total_slash_bps, SLASH_BPS_MINOR + SLASH_BPS_MAJOR);
    assert_eq!(st.consecutive_outliers, 3);
    assert_eq!(st.streak(&FeedId::eth_usd()), 0);
    assert!(!st.is_suspended());
    // A fourth outlier starts the streak again (warning), a fifth is minor again.
    assert!(slasher.record_deviation(addr(4), FeedId::eth_usd(), usd(500), usd(250), 4, 13).is_none());
    assert_eq!(
        slasher.record_deviation(addr(4), FeedId::eth_usd(), usd(500), usd(250), 5, 14).unwrap().severity,
        SlashSeverity::Minor
    );
    assert_eq!(slasher.total_events(), 3);
    let taken = slasher.take_pending();
    assert_eq!(taken.len(), 3);
    assert_eq!(slasher.total_events(), 0);
}

#[test]
fn third_slash_suspends() {
    let mut slasher = OracleSlasher::new();
    let mut slashes = 0;
    let mut round = 0u64;
    while slashes < 3 {
        round += 1;
        if slasher.record_deviation(addr(5), FeedId::zbx_usd(), usd(500), usd(250), round, round).is_some() {
            slashes += 1;
        }
    }
    // Slashes: minor (round 2), major (round 3), minor (round 5): the third is minor,
    // which does not suspend; the next major (round 6) does.
    assert!(!slasher.is_suspended(&addr(5)));
    round += 1;
    let e = slasher.record_deviation(addr(5), FeedId::zbx_usd(), usd(500), usd(250), round, round).unwrap();
    assert_eq!(e.severity, SlashSeverity::Major);
    assert!(slasher.is_suspended(&addr(5)));
    assert!(!slasher.is_suspended(&addr(6)));
}

#[test]
fn coordinated_attack_counts_repeats() {
    let mut slasher = OracleSlasher::new();
    let events = slasher.record_coordinated_attack(&[addr(7), addr(7)], FeedId::zbx_usd(), usd(1), usd(250), 9, 50);
    assert_eq!(events.len(), 2);
    let st = slasher.reporter_state(&addr(7)).unwrap();
    assert_eq!(st.total_slashes, 2);
    assert_eq!(st.total_slash_bps, 2 * SLASH_BPS_CRITICAL);
    assert_eq!(slasher.take_pending().len(), 2);
}
