//! Eight-hour funding: the rate follows the open-interest imbalance.
//!
//! `long_bias = long_oi * 10000 / total_oi`, `short_bias` likewise, and the
//! per-interval rate is `(long_bias - short_bias) * FUNDING_RATE_SCALE / 10^6`.
//! A positive rate means longs pay shorts.

use vstd::prelude::*;
use crate::common::{clamp_i128, tdiv, sat_add_i128, sat_sub_i128, sat_mul_i128, checked_div_i128};
use crate::perp::types::Market;

verus! {

/// Scale of funding rates (10^10).
pub const FUNDING_RATE_SCALE: i128 = 10_000_000_000;

/// The basis points of `total` that `side` makes up, rounded down.
pub open spec fn bias_bps(side: u128, total: int) -> int {
    (side * 10_000) / total
}

/// The funding rate of a market in `FUNDING_RATE_SCALE` units: zero without
/// open interest, else the long bias minus the short bias, times 10^4
/// (that is, times `10^10 / 10^6`).
pub open spec fn funding_rate_spec(m: Market) -> int {
    let total = m.total_long_oi + m.total_short_oi;
    if total == 0 {
        0
    } else {
        (bias_bps(m.total_long_oi, total) - bias_bps(m.total_short_oi, total)) * 10_000
    }
}

/// Open interest small enough that `oi * 10000` fits in an `i128`.
pub open spec fn oi_in_range(m: Market) -> bool {
    &&& m.total_long_oi * 10_000 <= i128::MAX
    &&& m.total_short_oi * 10_000 <= i128::MAX
}

/// Whether `oi_in_range(*m)` holds.
pub fn oi_ok(m: &Market) -> (r: bool)
    ensures
        r == oi_in_range(*m),
{
    m.total_long_oi <= 17_014_118_346_046_923_173_168_730_371_588_410u128
        && m.total_short_oi <= 17_014_118_346_046_923_173_168_730_371_588_410u128
}

proof fn lemma_bias_bounds(side: int, other: int)
    requires
        side >= 0,
        other >= 0,
        side + other > 0,
    ensures
        0 <= (side * 10_000) / (side + other) <= 10_000,
{
    let t = side + other;
    assert(0 <= (side * 10_000) / t) by (nonlinear_arith) requires side >= 0, t > 0;
    assert((side * 10_000) / t <= (t * 10_000) / t) by (nonlinear_arith)
        requires side <= t, t > 0, side >= 0;
    assert((t * 10_000) / t == 10_000) by (nonlinear_arith) requires t > 0;
}

/// The current funding rate of a market (positive: longs pay shorts).
pub fn current_funding_rate(market: &Market) -> (r: i128)
    requires
        oi_in_range(*market),
    ensures
        r == funding_rate_spec(*market),
        -100_000_000 <= r <= 100_000_000,
{
    let total_oi = market.total_long_oi + market.total_short_oi;
    if total_oi == 0 {
        return 0;
    }
    let total_i = total_oi as i128;
    let long_num = (market.total_long_oi as i128) * 10_000;
    let short_num = (market.total_short_oi as i128) * 10_000;
    let long_bias = long_num / total_i;
    let short_bias = short_num / total_i;
    proof {
        lemma_bias_bounds(market.total_long_oi as int, market.total_short_oi as int);
        lemma_bias_bounds(market.total_short_oi as int, market.total_long_oi as int);
        assert(long_bias == bias_bps(market.total_long_oi, total_oi as int));
        assert(short_bias == bias_bps(market.total_short_oi, total_oi as int));
    }
    let diff = long_bias - short_bias;
    let scaled = diff * FUNDING_RATE_SCALE;
    proof {
        let d = diff as int;
        if d >= 0 {
            assert((d * 10_000_000_000) / 1_000_000 == d * 10_000) by (nonlinear_arith)
                requires d >= 0;
        } else {
            assert((-(d * 10_000_000_000)) / 1_000_000 == -d * 10_000) by (nonlinear_arith)
                requires d < 0;
        }
    }
    match checked_div_i128(scaled, 1_000_000) {
        Some(v) => v,
        None => 0,
    }
}

/// The seconds since `m`'s last settlement at `now` (zero if `now` is
/// earlier).
pub open spec fn elapsed_spec(m: Market, now: u64) -> int {
    if now >= m.last_funding_update { now - m.last_funding_update } else { 0 }
}

/// `m` after settling every whole `interval` elapsed at `now`.
pub open spec fn settled_spec(m: Market, now: u64, interval: u64) -> Market {
    let elapsed = elapsed_spec(m, now);
    if elapsed < interval {
        m
    } else {
        let n = elapsed / (interval as int);
        Market {
            last_funding_update: (m.last_funding_update + n * interval) as u64,
            cumulative_funding: clamp_i128(m.cumulative_funding + clamp_i128(funding_rate_spec(m) * n)) as i128,
            ..m
        }
    }
}

/// Settles every whole interval that has elapsed: advances the settlement
/// time by that many intervals and the cumulative index by the current rate
/// times that many (saturating). Returns the number of intervals settled.
pub fn settle_funding(market: &mut Market, now: u64, funding_interval: u64) -> (n: u64)
    requires
        oi_in_range(*old(market)),
        funding_interval > 0,
    ensures
        *final(market) == settled_spec(*old(market), now, funding_interval),
        ({
            let elapsed: int = if now >= old(market).last_funding_update {
                now - old(market).last_funding_update
            } else {
                0
            };
            if elapsed < funding_interval {
                &&& n == 0
                &&& *final(market) == *old(market)
            } else {
                &&& n == elapsed / (funding_interval as int)
                &&& final(market).last_funding_update == old(market).last_funding_update + n * funding_interval
                &&& final(market).cumulative_funding == clamp_i128(
                    old(market).cumulative_funding + clamp_i128(funding_rate_spec(*old(market)) * n))
                &&& final(market).symbol == old(market).symbol
                &&& final(market).oracle == old(market).oracle
                &&& final(market).active == old(market).active
                &&& final(market).max_leverage == old(market).max_leverage
                &&& final(market).total_long_oi == old(market).total_long_oi
                &&& final(market).total_short_oi == old(market).total_short_oi
            }
        }),
{
    let elapsed = now.saturating_sub(market.last_funding_update);
    if elapsed < funding_interval {
        return 0;
    }
    let intervals = elapsed / funding_interval;
    proof {
        assert(intervals * funding_interval <= elapsed) by (nonlinear_arith)
            requires intervals == elapsed / funding_interval, funding_interval > 0;
    }
    market.last_funding_update = market.last_funding_update + intervals * funding_interval;
    let rate = current_funding_rate(market);
    let step = sat_mul_i128(rate, intervals as i128);
    market.cumulative_funding = sat_add_i128(market.cumulative_funding, step);
    intervals
}

/// Seconds until the next settlement after `m`'s last one (the sum
/// saturating at `u64::MAX`), zero when due or overdue.
pub open spec fn next_funding_spec(m: Market, now: u64, funding_interval: u64) -> int {
    let next = if m.last_funding_update + funding_interval > u64::MAX {
        u64::MAX as int
    } else {
        m.last_funding_update + funding_interval
    };
    if now >= next { 0 } else { next - now }
}

/// Seconds until the next settlement (zero when it is due or overdue).
pub fn next_funding_in(market: &Market, now: u64, funding_interval: u64) -> (r: u64)
    ensures
        r == next_funding_spec(*market, now, funding_interval),
{
    let next = market.last_funding_update.saturating_add(funding_interval);
    if now >= next { 0 } else { next - now }
}

/// The funding a position owes since it opened (negative: it earns):
/// `(cumulative_now - funding_entry_rate) * size / FUNDING_RATE_SCALE`, with
/// the difference and the product saturating (on the signed cast of the
/// size) and the quotient truncated.
pub open spec fn funding_cost_spec(cumulative_now: i128, funding_entry_rate: i128, size: u128) -> int {
    tdiv(
        clamp_i128(clamp_i128(cumulative_now - funding_entry_rate) * ((size as i128) as int)),
        10_000_000_000,
    )
}

/// The funding a position owes since it opened (negative: it earns).
pub fn funding_cost_for_position(cumulative_now: i128, funding_entry_rate: i128, size: u128) -> (r: i128)
    ensures
        r == funding_cost_spec(cumulative_now, funding_entry_rate, size),
{
    let delta = sat_sub_i128(cumulative_now, funding_entry_rate);
    let prod = sat_mul_i128(delta, size as i128);
    match checked_div_i128(prod, FUNDING_RATE_SCALE) {
        Some(v) => v,
        None => 0,
    }
}

} // verus!
