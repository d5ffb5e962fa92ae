//! Circuit breakers that stop a feed from publishing insane prices: outside
//! absolute bounds, moving too fast between rounds, too few reporters, or a
//! missed heartbeat.
//!
//! A breaker is Closed (updates pass), Open (tripped; updates are held back
//! until the cool-down has passed) or Half-Open (the cool-down passed;
//! `HALF_OPEN_CLOSE_THRESHOLD` good rounds close it again). The velocity
//! guard compares the change against the previous price in basis points.

use vstd::prelude::*;
use crate::common::clamp_u128;
use crate::oracle::feed::{FeedId, Price};

verus! {

/// Default largest change per round (20%), in basis points.
pub const DEFAULT_MAX_VELOCITY_BPS: u32 = 2_000;
/// Largest change per round for a stablecoin (5%), in basis points.
pub const STABLECOIN_MAX_VELOCITY_BPS: u32 = 500;
/// Good rounds that close a Half-Open breaker.
pub const HALF_OPEN_CLOSE_THRESHOLD: u32 = 3;
/// Seconds after a trip before an update may move the breaker to Half-Open.
pub const COOLDOWN_SECS: u64 = 300;

/// Why a breaker tripped.
#[derive(Clone, Copy, Debug, PartialEq, Eq, Structural)]
pub enum TripReason {
    /// The price is below the feed's minimum answer.
    BelowMinAnswer { price: i128, min: i128 },
    /// The price is above the feed's maximum answer.
    AboveMaxAnswer { price: i128, max: i128 },
    /// The price moved more than allowed since the last round (change in
    /// basis points of the previous price).
    VelocityExceeded { prev: i128, next: i128, change_bps: u128, max_bps: u32 },
    /// No update came within the heartbeat.
    HeartbeatExpired { last_update: u64, now: u64, max_secs: u64 },
    /// Too few reporters took part in the round.
    InsufficientReporters { got: u32, required: u32 },
}

/// The state of one breaker.
#[derive(Clone, Copy, Debug, PartialEq, Eq, Structural)]
pub enum BreakerState {
    /// Updates pass.
    Closed,
    /// Tripped at `tripped_at` for `reason`; updates are held back.
    Open { reason: TripReason, tripped_at: u64 },
    /// Testing after the cool-down; `good_rounds` good updates so far.
    HalfOpen { good_rounds: u32 },
}

impl BreakerState {
    /// Whether the breaker is tripped.
    pub fn is_open(&self) -> (r: bool)
        ensures
            r == (*self is Open),
    {
        match self {
            BreakerState::Open { .. } => true,
            _ => false,
        }
    }

    /// Whether updates pass normally.
    pub fn is_closed(&self) -> (r: bool)
        ensures
            r == (*self is Closed),
    {
        match self {
            BreakerState::Closed => true,
            _ => false,
        }
    }
}

/// The limits of one feed.
#[derive(Clone, Debug)]
pub struct BreakerConfig {
    pub feed_id: FeedId,
    /// Smallest acceptable raw price.
    pub min_answer: i128,
    /// Largest acceptable raw price.
    pub max_answer: i128,
    /// Largest change per round, in basis points of the previous price.
    pub max_velocity_bps: u32,
    /// Longest gap between updates, in seconds.
    pub heartbeat_secs: u64,
    /// Fewest reporters a round needs.
    pub min_reporters: u32,
}

impl BreakerConfig {
    /// ZBX/USD: $0.01 to $1,000, 20% per round, hourly, five reporters.
    pub fn zbx_usd() -> (r: Self)
        ensures
            r.feed_id.0@ == "ZBX/USD"@,
            r.min_answer == 1_000_000,
            r.max_answer == 100_000_000_000,
            r.max_velocity_bps == DEFAULT_MAX_VELOCITY_BPS,
            r.heartbeat_secs == 3_600,
            r.min_reporters == 5,
    {
        BreakerConfig {
            feed_id: FeedId::zbx_usd(),
            min_answer: 1_000_000,
            max_answer: 100_000_000_000,
            max_velocity_bps: DEFAULT_MAX_VELOCITY_BPS,
            heartbeat_secs: 3_600,
            min_reporters: 5,
        }
    }

    /// ZUSD/USD: $0.90 to $1.10, 5% per round, every half hour, five
    /// reporters.
    pub fn zusd_usd() -> (r: Self)
        ensures
            r.feed_id.0@ == "ZUSD/USD"@,
            r.min_answer == 90_000_000,
            r.max_answer == 110_000_000,
            r.max_velocity_bps == STABLECOIN_MAX_VELOCITY_BPS,
            r.heartbeat_secs == 1_800,
            r.min_reporters == 5,
    {
        BreakerConfig {
            feed_id: FeedId::zusd_usd(),
            min_answer: 90_000_000,
            max_answer: 110_000_000,
            max_velocity_bps: STABLECOIN_MAX_VELOCITY_BPS,
            heartbeat_secs: 1_800,
            min_reporters: 5,
        }
    }

    /// ETH/USD: $1 to $1,000,000, 15% per round, hourly, five reporters.
    pub fn eth_usd() -> (r: Self)
        ensures
            r.feed_id.0@ == "ETH/USD"@,
            r.min_answer == 100_000_000,
            r.max_answer == 100_000_000_000_000,
            r.max_velocity_bps == 1_500,
            r.heartbeat_secs == 3_600,
            r.min_reporters == 5,
    {
        BreakerConfig {
            feed_id: FeedId::eth_usd(),
            min_answer: 100_000_000,
            max_answer: 100_000_000_000_000,
            max_velocity_bps: 1_500,
            heartbeat_secs: 3_600,
            min_reporters: 5,
        }
    }

    /// A new feed with the given bounds: 20% per round, hourly, three
    /// reporters.
    pub fn generic(feed_id: FeedId, min_answer: i128, max_answer: i128) -> (r: Self)
        ensures
            r.feed_id == feed_id,
            r.min_answer == min_answer,
            r.max_answer == max_answer,
            r.max_velocity_bps == DEFAULT_MAX_VELOCITY_BPS,
            r.heartbeat_secs == 3_600,
            r.min_reporters == 3,
    {
        BreakerConfig {
            feed_id,
            min_answer,
            max_answer,
            max_velocity_bps: DEFAULT_MAX_VELOCITY_BPS,
            heartbeat_secs: 3_600,
            min_reporters: 3,
        }
    }
}

/// `|a - b|`.
pub open spec fn abs_diff(a: i128, b: i128) -> int {
    if a >= b { a - b } else { b - a }
}

/// The change from `prev` to `next` in basis points of `prev` (scaled
/// product clamped to `u128`, quotient rounded down).
pub open spec fn change_bps(prev: i128, next: i128) -> u128 {
    (clamp_u128(abs_diff(next, prev) * 10_000) / (prev as int)) as u128
}

/// Whether moving from `prev` (positive) to `next` exceeds `max_bps`:
/// `|next - prev| · 10000 > max_bps · prev`, both products clamped to
/// `u128`.
pub open spec fn velocity_exceeded(prev: i128, next: i128, max_bps: u32) -> bool {
    clamp_u128(abs_diff(next, prev) * 10_000) > clamp_u128(max_bps * prev)
}

/// `a - b`, or 0 when `b > a`.
pub open spec fn sat_sub_u64(a: u64, b: u64) -> int {
    if a >= b { a - b } else { 0 }
}

/// The state after a good round.
pub open spec fn advanced_state(s: BreakerState) -> BreakerState {
    match s {
        BreakerState::HalfOpen { good_rounds } => if good_rounds + 1 >= HALF_OPEN_CLOSE_THRESHOLD {
            BreakerState::Closed
        } else {
            BreakerState::HalfOpen { good_rounds: (good_rounds + 1) as u32 }
        },
        BreakerState::Open { .. } => BreakerState::HalfOpen { good_rounds: 1 },
        BreakerState::Closed => BreakerState::Closed,
    }
}

/// `t` is `s` tripped at `now` for `reason`, and `r` reports it.
pub open spec fn tripped(s: CircuitBreaker, t: CircuitBreaker, reason: TripReason, now: u64, r: Result<(), TripReason>) -> bool {
    &&& r == Err::<(), TripReason>(reason)
    &&& t.state == (BreakerState::Open { reason, tripped_at: now })
    &&& t.trips_total == s.trips_total + 1
    &&& t.last_price == s.last_price
    &&& t.last_update == s.last_update
}

/// The outcome of checking `new_price` at `now` with `reporters` on `s`,
/// leaving `t` and answering `r`: the checks run in order (bounds, quorum,
/// velocity against a positive previous price, heartbeat once a price was
/// published), the first failure trips the breaker; when all pass, an open
/// breaker still within its cool-down holds the update back, and otherwise
/// the state advances and the price is committed.
pub open spec fn check_post(s: CircuitBreaker, t: CircuitBreaker, new_price: Price, now: u64, reporters: u32,
    r: Result<(), TripReason>) -> bool {
    let c = s.config;
    let p = new_price.0;
    &&& t.config == s.config
    &&& if p < c.min_answer {
        tripped(s, t, TripReason::BelowMinAnswer { price: p, min: c.min_answer }, now, r)
    } else if p > c.max_answer {
        tripped(s, t, TripReason::AboveMaxAnswer { price: p, max: c.max_answer }, now, r)
    } else if reporters < c.min_reporters {
        tripped(s, t, TripReason::InsufficientReporters { got: reporters, required: c.min_reporters }, now, r)
    } else if s.last_price matches Some(l) && l.0 > 0 && velocity_exceeded(l.0, p, c.max_velocity_bps) {
        let l = (s.last_price->0).0;
        tripped(s, t, TripReason::VelocityExceeded { prev: l, next: p, change_bps: change_bps(l, p),
            max_bps: c.max_velocity_bps }, now, r)
    } else if s.last_update > 0 && sat_sub_u64(now, s.last_update) > c.heartbeat_secs {
        tripped(s, t, TripReason::HeartbeatExpired { last_update: s.last_update, now, max_secs: c.heartbeat_secs }, now, r)
    } else if s.state matches BreakerState::Open { tripped_at, .. } && sat_sub_u64(now, tripped_at) < COOLDOWN_SECS {
        r == Err::<(), TripReason>(TripReason::BelowMinAnswer { price: p, min: c.min_answer }) && t == s
    } else {
        &&& r is Ok
        &&& t.state == advanced_state(s.state)
        &&& t.last_price == Some(new_price)
        &&& t.last_update == now
        &&& t.trips_total == s.trips_total
    }
}

/// The velocity guard looks only at the size of a move: from a positive
/// price `l`, moving up by `d` and moving down by `d` are judged alike.
pub proof fn lemma_velocity_symmetric(l: i128, d: int, max_bps: u32)
    requires
        l > 0,
        d >= 0,
        l + d <= i128::MAX,
        l - d >= i128::MIN,
    ensures
        velocity_exceeded(l, (l + d) as i128, max_bps) == velocity_exceeded(l, (l - d) as i128, max_bps),
{
    assert(abs_diff((l + d) as i128, l) == d);
    assert(abs_diff((l - d) as i128, l) == d);
}

/// A price that passes the bounds and the quorum is refused for its
/// velocity exactly when it moved from the positive last price `l` by more
/// than `max_velocity_bps` basis points of `l`, up or down
/// (`|p - l| · 10000 > max_bps · l`, within `u128` range): the breaker then
/// opens and reports the move; a smaller move is never refused for it.
pub proof fn lemma_velocity_guard(s: CircuitBreaker, t: CircuitBreaker, new_price: Price, now: u64, reporters: u32,
    r: Result<(), TripReason>, l: i128)
    requires
        check_post(s, t, new_price, now, reporters, r),
        s.last_price == Some(Price(l)),
        l > 0,
        s.config.min_answer <= new_price.0 <= s.config.max_answer,
        reporters >= s.config.min_reporters,
        (if new_price.0 >= l { new_price.0 - l } else { l - new_price.0 }) * 10_000 <= u128::MAX,
        s.config.max_velocity_bps * l <= u128::MAX,
    ensures
        ({
            let dist = if new_price.0 >= l { new_price.0 - l } else { l - new_price.0 };
            &&& dist * 10_000 > s.config.max_velocity_bps * l ==> {
                &&& r == Err::<(), TripReason>(TripReason::VelocityExceeded {
                    prev: l,
                    next: new_price.0,
                    change_bps: (dist * 10_000 / (l as int)) as u128,
                    max_bps: s.config.max_velocity_bps,
                })
                &&& t.state is Open
            }
            &&& dist * 10_000 <= s.config.max_velocity_bps * l ==> !(r matches Err(TripReason::VelocityExceeded { .. }))
        }),
{
    assert(abs_diff(new_price.0, l) == (if new_price.0 >= l { new_price.0 - l } else { l - new_price.0 }));
}

/// `|a - b|` as a `u128`.
fn abs_diff_u128(a: i128, b: i128) -> (r: u128)
    ensures
        r == abs_diff(a, b),
{
    if a >= b {
        if b >= 0 || a < 0 {
            (a - b) as u128
        } else {
            (a as u128) + ((-(b + 1)) as u128) + 1
        }
    } else {
        if a >= 0 || b < 0 {
            (b - a) as u128
        } else {
            (b as u128) + ((-(a + 1)) as u128) + 1
        }
    }
}

/// `a * b` clamped to `u128`.
fn mul_clamped(a: u128, b: u128) -> (r: u128)
    ensures
        r == clamp_u128(a * b),
{
    proof {
        assert(a * b >= 0) by (nonlinear_arith)
            requires a >= 0, b >= 0;
    }
    match a.checked_mul(b) {
        Some(v) => v,
        None => u128::MAX,
    }
}

/// The live state of one feed's breaker.
#[derive(Debug)]
pub struct CircuitBreaker {
    pub config: BreakerConfig,
    pub state: BreakerState,
    /// The last published price.
    pub last_price: Option<Price>,
    /// When the last price was published (0: never).
    pub last_update: u64,
    /// How many times the breaker tripped.
    pub trips_total: u32,
}

impl CircuitBreaker {
    /// A Half-Open breaker has seen fewer good rounds than close it.
    pub open spec fn wf(&self) -> bool {
        self.state matches BreakerState::HalfOpen { good_rounds } ==> good_rounds < HALF_OPEN_CLOSE_THRESHOLD
    }

    /// A closed breaker that has published nothing.
    pub fn new(config: BreakerConfig) -> (r: Self)
        ensures
            r.wf(),
            r.config == config,
            r.state == BreakerState::Closed,
            r.last_price is None,
            r.last_update == 0,
            r.trips_total == 0,
    {
        CircuitBreaker { config, state: BreakerState::Closed, last_price: None, last_update: 0, trips_total: 0 }
    }

    fn trip(&mut self, reason: TripReason, now: u64)
        requires
            old(self).trips_total < u32::MAX,
        ensures
            final(self).state == (BreakerState::Open { reason, tripped_at: now }),
            final(self).trips_total == old(self).trips_total + 1,
            final(self).config == old(self).config,
            final(self).last_price == old(self).last_price,
            final(self).last_update == old(self).last_update,
    {
        self.trips_total = self.trips_total + 1;
        self.state = BreakerState::Open { reason, tripped_at: now };
    }

    /// Checks a proposed update; `Ok` means it may be published (and it is
    /// recorded as the last price), `Err` gives the reason it is held back.
    pub fn check(&mut self, new_price: Price, now: u64, reporter_count: u32) -> (r: Result<(), TripReason>)
        requires
            old(self).wf(),
            old(self).trips_total < u32::MAX,
        ensures
            final(self).wf(),
            check_post(*old(self), *final(self), new_price, now, reporter_count, r),
    {
        let p = new_price.0;
        if p < self.config.min_answer {
            let reason = TripReason::BelowMinAnswer { price: p, min: self.config.min_answer };
            self.trip(reason, now);
            return Err(reason);
        }
        if p > self.config.max_answer {
            let reason = TripReason::AboveMaxAnswer { price: p, max: self.config.max_answer };
            self.trip(reason, now);
            return Err(reason);
        }
        if reporter_count < self.config.min_reporters {
            let reason = TripReason::InsufficientReporters { got: reporter_count, required: self.config.min_reporters };
            self.trip(reason, now);
            return Err(reason);
        }
        match self.last_price {
            Some(last) => {
                if last.0 > 0 {
                    let diff = abs_diff_u128(p, last.0);
                    let scaled = mul_clamped(diff, 10_000);
                    let limit = mul_clamped(self.config.max_velocity_bps as u128, last.0 as u128);
                    if scaled > limit {
                        let reason = TripReason::VelocityExceeded {
                            prev: last.0,
                            next: p,
                            change_bps: scaled / (last.0 as u128),
                            max_bps: self.config.max_velocity_bps,
                        };
                        self.trip(reason, now);
                        return Err(reason);
                    }
                }
            },
            None => {},
        }
        if self.last_update > 0 {
            let elapsed = now.saturating_sub(self.last_update);
            if elapsed > self.config.heartbeat_secs {
                let reason = TripReason::HeartbeatExpired {
                    last_update: self.last_update,
                    now,
                    max_secs: self.config.heartbeat_secs,
                };
                self.trip(reason, now);
                return Err(reason);
            }
        }
        let next = match &self.state {
            BreakerState::HalfOpen { good_rounds } => {
                let g = *good_rounds + 1;
                if g >= HALF_OPEN_CLOSE_THRESHOLD {
                    BreakerState::Closed
                } else {
                    BreakerState::HalfOpen { good_rounds: g }
                }
            },
            BreakerState::Open { tripped_at, .. } => {
                if now.saturating_sub(*tripped_at) >= COOLDOWN_SECS {
                    BreakerState::HalfOpen { good_rounds: 1 }
                } else {
                    return Err(TripReason::BelowMinAnswer { price: p, min: self.config.min_answer });
                }
            },
            BreakerState::Closed => BreakerState::Closed,
        };
        self.state = next;
        self.last_price = Some(new_price);
        self.last_update = now;
        Ok(())
    }

    /// Closes the breaker (an administrative reset).
    pub fn reset(&mut self)
        ensures
            final(self).state == BreakerState::Closed,
            final(self).config == old(self).config,
            final(self).last_price == old(self).last_price,
            final(self).last_update == old(self).last_update,
            final(self).trips_total == old(self).trips_total,
    {
        self.state = BreakerState::Closed;
    }

    /// Puts the breaker in Half-Open with no good round yet.
    pub fn half_open(&mut self)
        ensures
            final(self).state == (BreakerState::HalfOpen { good_rounds: 0 }),
            final(self).config == old(self).config,
            final(self).last_price == old(self).last_price,
            final(self).last_update == old(self).last_update,
            final(self).trips_total == old(self).trips_total,
    {
        self.state = BreakerState::HalfOpen { good_rounds: 0 };
    }

    /// Whether the breaker is tripped.
    pub fn is_open(&self) -> (r: bool)
        ensures
            r == (self.state is Open),
    {
        self.state.is_open()
    }

    /// Whether updates pass normally.
    pub fn is_closed(&self) -> (r: bool)
        ensures
            r == (self.state is Closed),
    {
        self.state.is_closed()
    }
}

/// The number of trips over the first `k` breakers.
pub open spec fn trips_prefix(bs: Seq<CircuitBreaker>, k: int) -> int
    decreases k,
{
    if k <= 0 { 0 } else { trips_prefix(bs, k - 1) + bs[k - 1].trips_total }
}

/// The ids of the tripped breakers among the first `k`, in order.
pub open spec fn open_ids(bs: Seq<CircuitBreaker>, k: int) -> Seq<Seq<char>>
    decreases k,
{
    if k <= 0 {
        Seq::empty()
    } else if bs[k - 1].state is Open {
        open_ids(bs, k - 1).push(bs[k - 1].config.feed_id.0@)
    } else {
        open_ids(bs, k - 1)
    }
}

/// The breakers of all registered feeds.
pub struct BreakerRegistry {
    breakers: Vec<CircuitBreaker>,
}

impl BreakerRegistry {
    /// The breakers, in order of registration.
    pub closed spec fn spec_breakers(&self) -> Seq<CircuitBreaker> {
        self.breakers@
    }

    /// Each feed has at most one breaker, and every breaker is well formed.
    pub open spec fn wf(&self) -> bool {
        &&& forall|i: int, j: int| 0 <= i < j < self.spec_breakers().len()
            ==> #[trigger] self.spec_breakers()[i].config.feed_id.0@ != #[trigger] self.spec_breakers()[j].config.feed_id.0@
        &&& forall|i: int| 0 <= i < self.spec_breakers().len() ==> (#[trigger] self.spec_breakers()[i]).wf()
    }

    /// The breaker of `feed`, if one is registered.
    pub open spec fn breaker_of(&self, feed: Seq<char>) -> Option<CircuitBreaker> {
        if exists|i: int| 0 <= i < self.spec_breakers().len() && self.spec_breakers()[i].config.feed_id.0@ == feed {
            Some(self.spec_breakers()[choose|i: int| 0 <= i < self.spec_breakers().len()
                && self.spec_breakers()[i].config.feed_id.0@ == feed])
        } else {
            None
        }
    }

    /// The trips of all breakers.
    pub open spec fn spec_total_trips(&self) -> int {
        trips_prefix(self.spec_breakers(), self.spec_breakers().len() as int)
    }

    /// No breaker.
    pub fn new() -> (r: Self)
        ensures
            r.wf(),
            r.spec_breakers().len() == 0,
    {
        BreakerRegistry { breakers: Vec::new() }
    }

    proof fn lemma_unique(m: Self, i: int, f: Seq<char>)
        requires
            m.wf(),
            0 <= i < m.spec_breakers().len(),
            m.spec_breakers()[i].config.feed_id.0@ == f,
        ensures
            m.breaker_of(f) == Some(m.spec_breakers()[i]),
    {
        let k = choose|k: int| 0 <= k < m.spec_breakers().len() && m.spec_breakers()[k].config.feed_id.0@ == f;
        if k != i {
            if k < i {
                assert(m.spec_breakers()[k].config.feed_id.0@ != m.spec_breakers()[i].config.feed_id.0@);
            } else {
                assert(m.spec_breakers()[i].config.feed_id.0@ != m.spec_breakers()[k].config.feed_id.0@);
            }
        }
    }

    proof fn lemma_after_set(m0: Self, m1: Self, i: int)
        requires
            m0.wf(),
            m1.wf(),
            0 <= i < m0.spec_breakers().len(),
            m1.spec_breakers() == m0.spec_breakers().update(i, m1.spec_breakers()[i]),
            m1.spec_breakers()[i].config.feed_id.0@ == m0.spec_breakers()[i].config.feed_id.0@,
        ensures
            m1.breaker_of(m0.spec_breakers()[i].config.feed_id.0@) == Some(m1.spec_breakers()[i]),
            forall|f: Seq<char>| f != m0.spec_breakers()[i].config.feed_id.0@
                ==> #[trigger] m1.breaker_of(f) == m0.breaker_of(f),
    {
        Self::lemma_unique(m1, i, m0.spec_breakers()[i].config.feed_id.0@);
        assert forall|f: Seq<char>| f != m0.spec_breakers()[i].config.feed_id.0@
            implies #[trigger] m1.breaker_of(f) == m0.breaker_of(f) by {
            if m0.breaker_of(f) is Some {
                let k = choose|k: int| 0 <= k < m0.spec_breakers().len() && m0.spec_breakers()[k].config.feed_id.0@ == f;
                Self::lemma_unique(m0, k, f);
                assert(m1.spec_breakers()[k] == m0.spec_breakers()[k]);
                Self::lemma_unique(m1, k, f);
            } else if m1.breaker_of(f) is Some {
                let k = choose|k: int| 0 <= k < m1.spec_breakers().len() && m1.spec_breakers()[k].config.feed_id.0@ == f;
                assert(m0.spec_breakers()[k].config.feed_id.0@ == f);
            }
        }
    }

    proof fn lemma_after_push(m0: Self, m1: Self)
        requires
            m0.wf(),
            m1.wf(),
            m1.spec_breakers().len() == m0.spec_breakers().len() + 1,
            m1.spec_breakers().drop_last() == m0.spec_breakers(),
        ensures
            m1.breaker_of(m1.spec_breakers().last().config.feed_id.0@) == Some(m1.spec_breakers().last()),
            forall|f: Seq<char>| f != m1.spec_breakers().last().config.feed_id.0@
                ==> #[trigger] m1.breaker_of(f) == m0.breaker_of(f),
    {
        let n = m0.spec_breakers().len() as int;
        Self::lemma_unique(m1, n, m1.spec_breakers().last().config.feed_id.0@);
        assert forall|f: Seq<char>| f != m1.spec_breakers().last().config.feed_id.0@
            implies #[trigger] m1.breaker_of(f) == m0.breaker_of(f) by {
            if m0.breaker_of(f) is Some {
                let k = choose|k: int| 0 <= k < m0.spec_breakers().len() && m0.spec_breakers()[k].config.feed_id.0@ == f;
                Self::lemma_unique(m0, k, f);
                assert(m1.spec_breakers()[k] == m0.spec_breakers()[k]);
                Self::lemma_unique(m1, k, f);
            } else if m1.breaker_of(f) is Some {
                let k = choose|k: int| 0 <= k < m1.spec_breakers().len() && m1.spec_breakers()[k].config.feed_id.0@ == f;
                if k < n {
                    assert(m0.spec_breakers()[k].config.feed_id.0@ == f);
                }
            }
        }
    }

    fn find(&self, feed_id: &FeedId) -> (r: Option<usize>)
        requires
            self.wf(),
        ensures
            match r {
                Some(i) => i < self.spec_breakers().len() && self.spec_breakers()[i as int].config.feed_id.0@ == feed_id.0@
                    && self.breaker_of(feed_id.0@) == Some(self.spec_breakers()[i as int]),
                None => self.breaker_of(feed_id.0@) is None,
            },
    {
        let mut i: usize = 0;
        while i < self.breakers.len()
            invariant
                self.wf(),
                0 <= i <= self.breakers@.len(),
                forall|k: int| 0 <= k < i ==> #[trigger] self.breakers@[k].config.feed_id.0@ != feed_id.0@,
            decreases self.breakers@.len() - i,
        {
            if self.breakers[i].config.feed_id == *feed_id {
                proof {
                    Self::lemma_unique(*self, i as int, feed_id.0@);
                }
                return Some(i);
            }
            i += 1;
        }
        None
    }

    /// Registers a fresh breaker for the config's feed, replacing any
    /// earlier one.
    pub fn register(&mut self, config: BreakerConfig)
        requires
            old(self).wf(),
        ensures
            final(self).wf(),
            final(self).breaker_of(config.feed_id.0@) == Some(CircuitBreaker {
                config,
                state: BreakerState::Closed,
                last_price: None,
                last_update: 0,
                trips_total: 0,
            }),
            forall|f: Seq<char>| f != config.feed_id.0@ ==> #[trigger] final(self).breaker_of(f) == old(self).breaker_of(f),
    {
        let ghost key = config.feed_id.0@;
        let b = CircuitBreaker::new(config);
        match self.find(&b.config.feed_id) {
            Some(i) => {
                self.breakers.set(i, b);
                proof {
                    assert forall|a: int, c: int| 0 <= a < c < self.spec_breakers().len() implies
                        #[trigger] self.spec_breakers()[a].config.feed_id.0@ != #[trigger] self.spec_breakers()[c].config.feed_id.0@ by {
                        assert(old(self).spec_breakers()[a].config.feed_id.0@ != old(self).spec_breakers()[c].config.feed_id.0@);
                    }
                    assert forall|a: int| 0 <= a < self.spec_breakers().len() implies (#[trigger] self.spec_breakers()[a]).wf() by {
                        if a != i {
                            assert(self.spec_breakers()[a] == old(self).spec_breakers()[a]);
                        }
                    }
                    Self::lemma_after_set(*old(self), *self, i as int);
                }
            },
            None => {
                self.breakers.push(b);
                proof {
                    let n = old(self).spec_breakers().len() as int;
                    assert(self.spec_breakers().drop_last() =~= old(self).spec_breakers());
                    assert forall|a: int, c: int| 0 <= a < c < self.spec_breakers().len() implies
                        #[trigger] self.spec_breakers()[a].config.feed_id.0@ != #[trigger] self.spec_breakers()[c].config.feed_id.0@ by {
                        if c == n {
                            assert(old(self).spec_breakers()[a].config.feed_id.0@ != key);
                        } else {
                            assert(old(self).spec_breakers()[a].config.feed_id.0@ != old(self).spec_breakers()[c].config.feed_id.0@);
                        }
                    }
                    assert forall|a: int| 0 <= a < self.spec_breakers().len() implies (#[trigger] self.spec_breakers()[a]).wf() by {
                        if a < n {
                            assert(self.spec_breakers()[a] == old(self).spec_breakers()[a]);
                        }
                    }
                    Self::lemma_after_push(*old(self), *self);
                }
            },
        }
    }

    /// Registers the ZBX/USD, ZUSD/USD and ETH/USD breakers.
    pub fn register_standard_feeds(&mut self)
        requires
            old(self).wf(),
        ensures
            final(self).wf(),
            final(self).breaker_of("ZBX/USD"@) matches Some(b) && b.config.min_answer == 1_000_000
                && b.config.max_velocity_bps == DEFAULT_MAX_VELOCITY_BPS && b.state == BreakerState::Closed,
            final(self).breaker_of("ZUSD/USD"@) matches Some(b) && b.config.min_answer == 90_000_000
                && b.config.max_velocity_bps == STABLECOIN_MAX_VELOCITY_BPS && b.state == BreakerState::Closed,
            final(self).breaker_of("ETH/USD"@) matches Some(b) && b.config.min_answer == 100_000_000
                && b.config.max_velocity_bps == 1_500 && b.state == BreakerState::Closed,
            forall|f: Seq<char>| f != "ZBX/USD"@ && f != "ZUSD/USD"@ && f != "ETH/USD"@
                ==> #[trigger] final(self).breaker_of(f) == old(self).breaker_of(f),
    {
        proof {
            reveal_strlit("ZBX/USD");
            reveal_strlit("ZUSD/USD");
            reveal_strlit("ETH/USD");
            assert("ZBX/USD"@.len() != "ZUSD/USD"@.len());
            assert("ETH/USD"@.len() != "ZUSD/USD"@.len());
            assert("ZBX/USD"@[0] != "ETH/USD"@[0]);
        }
        self.register(BreakerConfig::zbx_usd());
        self.register(BreakerConfig::zusd_usd());
        self.register(BreakerConfig::eth_usd());
    }

    /// Checks an update of `feed_id` against its breaker; a feed without a
    /// breaker passes.
    pub fn check(&mut self, feed_id: &FeedId, price: Price, now: u64, reporters: u32) -> (r: Result<(), TripReason>)
        requires
            old(self).wf(),
            old(self).breaker_of(feed_id.0@) matches Some(b) ==> b.trips_total < u32::MAX,
        ensures
            final(self).wf(),
            match old(self).breaker_of(feed_id.0@) {
                None => r is Ok && final(self).spec_breakers() == old(self).spec_breakers(),
                Some(b) => final(self).breaker_of(feed_id.0@) matches Some(b1) && check_post(b, b1, price, now, reporters, r),
            },
            forall|f: Seq<char>| f != feed_id.0@ ==> #[trigger] final(self).breaker_of(f) == old(self).breaker_of(f),
    {
        match self.find(feed_id) {
            None => Ok(()),
            Some(i) => {
                let mut b = self.breakers.remove(i);
                proof {
                    assert(b == old(self).spec_breakers()[i as int]);
                }
                let r = b.check(price, now, reporters);
                self.breakers.insert(i, b);
                proof {
                    assert(self.spec_breakers() =~= old(self).spec_breakers().update(i as int, b));
                    assert forall|a: int, c: int| 0 <= a < c < self.spec_breakers().len() implies
                        #[trigger] self.spec_breakers()[a].config.feed_id.0@ != #[trigger] self.spec_breakers()[c].config.feed_id.0@ by {
                        assert(old(self).spec_breakers()[a].config.feed_id.0@ != old(self).spec_breakers()[c].config.feed_id.0@);
                    }
                    assert forall|a: int| 0 <= a < self.spec_breakers().len() implies (#[trigger] self.spec_breakers()[a]).wf() by {
                        if a != i {
                            assert(self.spec_breakers()[a] == old(self).spec_breakers()[a]);
                        }
                    }
                    Self::lemma_after_set(*old(self), *self, i as int);
                }
                r
            },
        }
    }

    /// Whether the breaker of `feed_id` is tripped (false without one).
    pub fn is_open(&self, feed_id: &FeedId) -> (r: bool)
        requires
            self.wf(),
        ensures
            r == (self.breaker_of(feed_id.0@) matches Some(b) && b.state is Open),
    {
        match self.find(feed_id) {
            Some(i) => self.breakers[i].is_open(),
            None => false,
        }
    }

    /// The feeds whose breaker is tripped, in order of registration.
    pub fn open_feeds(&self) -> (r: Vec<&FeedId>)
        ensures
            r@.map_values(|x: &FeedId| x.0@) == open_ids(self.spec_breakers(), self.spec_breakers().len() as int),
    {
        let mut out: Vec<&FeedId> = Vec::new();
        let mut i: usize = 0;
        while i < self.breakers.len()
            invariant
                0 <= i <= self.breakers@.len(),
                out@.map_values(|x: &FeedId| x.0@) == open_ids(self.breakers@, i as int),
            decreases self.breakers@.len() - i,
        {
            let ghost before = out@;
            if self.breakers[i].is_open() {
                out.push(&self.breakers[i].config.feed_id);
                proof {
                    assert(out@.map_values(|x: &FeedId| x.0@) =~= before.map_values(|x: &FeedId| x.0@)
                        .push(self.breakers@[i as int].config.feed_id.0@));
                }
            }
            i += 1;
        }
        out
    }

    /// Closes the breaker of `feed_id`, if there is one.
    pub fn reset(&mut self, feed_id: &FeedId)
        requires
            old(self).wf(),
        ensures
            final(self).wf(),
            match old(self).breaker_of(feed_id.0@) {
                None => final(self).spec_breakers() == old(self).spec_breakers(),
                Some(b) => final(self).breaker_of(feed_id.0@) == Some(CircuitBreaker { state: BreakerState::Closed, ..b }),
            },
            forall|f: Seq<char>| f != feed_id.0@ ==> #[trigger] final(self).breaker_of(f) == old(self).breaker_of(f),
    {
        match self.find(feed_id) {
            None => {},
            Some(i) => {
                let mut b = self.breakers.remove(i);
                proof {
                    assert(b == old(self).spec_breakers()[i as int]);
                }
                b.reset();
                self.breakers.insert(i, b);
                proof {
                    assert(self.spec_breakers() =~= old(self).spec_breakers().update(i as int, b));
                    assert forall|a: int, c: int| 0 <= a < c < self.spec_breakers().len() implies
                        #[trigger] self.spec_breakers()[a].config.feed_id.0@ != #[trigger] self.spec_breakers()[c].config.feed_id.0@ by {
                        assert(old(self).spec_breakers()[a].config.feed_id.0@ != old(self).spec_breakers()[c].config.feed_id.0@);
                    }
                    assert forall|a: int| 0 <= a < self.spec_breakers().len() implies (#[trigger] self.spec_breakers()[a]).wf() by {
                        if a != i {
                            assert(self.spec_breakers()[a] == old(self).spec_breakers()[a]);
                        }
                    }
                    Self::lemma_after_set(*old(self), *self, i as int);
                }
            },
        }
    }

    /// The trips of all breakers together.
    pub fn total_trips(&self) -> (r: u32)
        requires
            self.spec_total_trips() <= u32::MAX,
        ensures
            r == self.spec_total_trips(),
    {
        let mut sum: u32 = 0;
        let mut i: usize = 0;
        while i < self.breakers.len()
            invariant
                0 <= i <= self.breakers@.len(),
                sum == trips_prefix(self.breakers@, i as int),
                trips_prefix(self.breakers@, self.breakers@.len() as int) <= u32::MAX,
            decreases self.breakers@.len() - i,
        {
            proof {
                lemma_trips_prefix_monotone(self.breakers@, i as int + 1, self.breakers@.len() as int);
            }
            sum = sum + self.breakers[i].trips_total;
            i += 1;
        }
        sum
    }
}

impl Default for BreakerRegistry {
    fn default() -> (r: Self)
        ensures
            r.wf(),
            r.spec_breakers().len() == 0,
    {
        Self::new()
    }
}

/// Trip counts only grow with more breakers.
proof fn lemma_trips_prefix_monotone(bs: Seq<CircuitBreaker>, i: int, k: int)
    requires
        0 <= i <= k <= bs.len(),
    ensures
        trips_prefix(bs, i) <= trips_prefix(bs, k),
    decreases k - i,
{
    if i < k {
        lemma_trips_prefix_monotone(bs, i, k - 1);
    }
}

} // verus!
