use zbx_chain::oracle::circuit_breaker::{
    BreakerConfig, BreakerRegistry, BreakerState, CircuitBreaker, TripReason, COOLDOWN_SECS,
};
use zbx_chain::oracle::feed::{FeedId, Price};

fn make_breaker() -> CircuitBreaker {
    CircuitBreaker::new(BreakerConfig::zbx_usd())
}

/// `$x` with eight decimals, as `Price::from_f64` would give it.
fn usd(cents_times_1e6: i128) -> Price {
    Price(cents_times_1e6)
}

#[test]
fn normal_price_passes() {
    let mut cb = make_breaker();
    let r = cb.check(usd(250_000_000), 1000, 5);
    assert!(r.is_ok());
    assert!(cb.is_closed());
}

#[test]
fn below_min_trips() {
    let mut cb = make_breaker();
    let r = cb.check(usd(100_000), 1000, 5);
    assert!(r.is_err());
    assert!(cb.is_open());
    assert_eq!(cb.trips_total, 1);
    assert!(matches!(r.unwrap_err(), TripReason::BelowMinAnswer { .. }));
}

#[test]
fn velocity_guard_trips_on_large_move() {
    let mut cb = make_breaker();
    cb.check(usd(250_000_000), 1000, 5).unwrap();
    let r = cb.check(usd(400_000_000), 1060, 5);
    assert!(r.is_err(), "60% move should trip velocity guard");
    assert!(matches!(r.unwrap_err(), TripReason::VelocityExceeded { .. }));
}

#[test]
fn velocity_guard_allows_small_move() {
    let mut cb = make_breaker();
    cb.check(usd(250_000_000), 1000, 5).unwrap();
    let r = cb.check(usd(275_000_000), 1060, 5);
    assert!(r.is_ok(), "10% move should be allowed");
}

#[test]
fn insufficient_reporters_trips() {
    let mut cb = make_breaker();
    let r = cb.check(usd(250_000_000), 1000, 2);
    assert!(matches!(r.unwrap_err(), TripReason::InsufficientReporters { got: 2, required: 5 }));
}

#[test]
fn stablecoin_velocity_tighter() {
    let mut cb = CircuitBreaker::new(BreakerConfig::zusd_usd());
    cb.check(usd(100_000_000), 1000, 5).unwrap();
    let r = cb.check(usd(108_000_000), 1060, 5);
    assert!(r.is_err(), "8% on stablecoin should trip velocity guard");
}

#[test]
fn manual_reset_restores_closed() {
    let mut cb = make_breaker();
    cb.check(usd(100_000), 1000, 5).unwrap_err();
    assert!(cb.is_open());
    cb.reset();
    assert!(cb.is_closed());
}

#[test]
fn registry_tracks_open_feeds() {
    let mut reg = BreakerRegistry::new();
    reg.register_standard_feeds();
    reg.check(&FeedId::zbx_usd(), usd(100_000), 1000, 5).unwrap_err();
    assert!(reg.is_open(&FeedId::zbx_usd()));
    assert!(!reg.is_open(&FeedId::eth_usd()));
    let open = reg.open_feeds();
    assert_eq!(open.len(), 1);
}

#[test]
fn velocity_reports_change_in_basis_points() {
    let mut cb = make_breaker();
    cb.check(usd(250_000_000), 1000, 5).unwrap();
    let r = cb.check(usd(400_000_000), 1060, 5).unwrap_err();
    assert_eq!(
        r,
        TripReason::VelocityExceeded { prev: 250_000_000, next: 400_000_000, change_bps: 6_000, max_bps: 2_000 }
    );
    // A change of exactly the limit still passes.
    let mut cb = make_breaker();
    cb.check(usd(250_000_000), 1000, 5).unwrap();
    assert!(cb.check(usd(300_000_000), 1060, 5).is_ok());
}

#[test]
fn open_breaker_holds_updates_until_cooldown_then_closes_after_three_good_rounds() {
    let mut cb = make_breaker();
    cb.check(usd(250_000_000), 1000, 5).unwrap();
    cb.check(usd(100_000), 1001, 5).unwrap_err();
    assert_eq!(cb.state, BreakerState::Open { reason: TripReason::BelowMinAnswer { price: 100_000, min: 1_000_000 }, tripped_at: 1001 });
    // Within the cool-down a good price is held back, nothing else changes.
    let r = cb.check(usd(250_000_000), 1001 + COOLDOWN_SECS - 1, 5);
    assert_eq!(r, Err(TripReason::BelowMinAnswer { price: 250_000_000, min: 1_000_000 }));
    assert_eq!(cb.trips_total, 1);
    assert_eq!(cb.last_update, 1000);
    // After it, the breaker goes half-open, then closes on the third good round.
    cb.check(usd(250_000_000), 1001 + COOLDOWN_SECS, 5).unwrap();
    assert_eq!(cb.state, BreakerState::HalfOpen { good_rounds: 1 });
    cb.check(usd(250_000_000), 1400, 5).unwrap();
    assert_eq!(cb.state, BreakerState::HalfOpen { good_rounds: 2 });
    cb.check(usd(250_000_000), 1500, 5).unwrap();
    assert!(cb.is_closed());
    assert_eq!(cb.last_price, Some(usd(250_000_000)));
}

#[test]
fn missed_heartbeat_trips() {
    let mut cb = make_breaker();
    cb.check(usd(250_000_000), 1000, 5).unwrap();
    let r = cb.check(usd(250_000_000), 1000 + 3_601, 5);
    assert_eq!(r, Err(TripReason::HeartbeatExpired { last_update: 1000, now: 4_601, max_secs: 3_600 }));
    assert_eq!(cb.trips_total, 1);
}

#[test]
fn registry_passes_unknown_feeds_and_counts_trips() {
    let mut reg = BreakerRegistry::new();
    assert!(reg.check(&FeedId::btc_usd(), usd(1), 1, 0).is_ok());
    reg.register(BreakerConfig::generic(FeedId::btc_usd(), 100, 200));
    assert!(reg.check(&FeedId::btc_usd(), usd(1), 1, 3).is_err());
    assert!(reg.check(&FeedId::btc_usd(), usd(300), 2, 3).is_err());
    assert_eq!(reg.total_trips(), 2);
    reg.reset(&FeedId::btc_usd());
    assert!(!reg.is_open(&FeedId::btc_usd()));
    assert_eq!(reg.open_feeds().len(), 0);
}
