//! Guards applied by pair operations: reentrancy lock, price impact, slippage,
//! deadline, reserve drain, oracle deviation, overflow-safe math and the
//! governance circuit breaker.

use vstd::prelude::*;
use crate::common::{clamp_u128, mul_div_sat_u32, sat_u32};
use crate::pool::error::AmmError;

verus! {

/// Liquidity locked forever at the first deposit.
pub const MIN_LIQUIDITY: u128 = 1_000;
/// Maximum price impact of one swap (30%).
pub const MAX_PRICE_IMPACT_BPS: u32 = 3_000;
/// Maximum deviation of the pool price from the oracle price (15%).
pub const MAX_ORACLE_DEVIATION_BPS: u32 = 1_500;
/// Maximum share of the output reserve one swap may take (30%).
pub const MAX_RESERVE_DRAIN_BPS: u32 = 3_000;

/// Lock flag that rejects re-entry.
#[derive(Debug, Default, Clone)]
pub struct ReentrancyGuard {
    locked: bool,
}

impl ReentrancyGuard {
    /// Whether the lock is held.
    pub closed spec fn is_locked(&self) -> bool {
        self.locked
    }

    pub fn new() -> (r: Self)
        ensures !r.is_locked(),
    {
        ReentrancyGuard { locked: false }
    }

    /// Takes the lock; `Reentrancy` when it is already held.
    pub fn acquire(&mut self) -> (r: Result<(), AmmError>)
        ensures
            old(self).is_locked() ==> (r matches Err(AmmError::Reentrancy) && final(self).is_locked()),
            !old(self).is_locked() ==> (r is Ok && final(self).is_locked()),
    {
        if self.locked {
            return Err(AmmError::Reentrancy);
        }
        self.locked = true;
        Ok(())
    }

    /// Releases the lock.
    pub fn release(&mut self)
        ensures !final(self).is_locked(),
    {
        self.locked = false;
    }
}

/// Price impact in basis points: `amount_in * 10000 / (reserve_in + amount_in)`,
/// each operation clamped to the `u128` range.
pub open spec fn impact_bps_spec(amount_in: u128, reserve_in: u128) -> int {
    clamp_u128(amount_in * 10_000) / clamp_u128(reserve_in + amount_in)
}

/// Rejects a swap whose input would move the price by more than 30%.
pub fn check_price_impact(amount_in: u128, reserve_in: u128) -> (r: Result<(), AmmError>)
    ensures
        reserve_in == 0 ==> r matches Err(AmmError::EmptyReserve),
        reserve_in != 0 && (impact_bps_spec(amount_in, reserve_in) as u32) > MAX_PRICE_IMPACT_BPS
            ==> (r matches Err(AmmError::PriceImpactTooHigh { impact_bps, max_bps })
                && impact_bps == impact_bps_spec(amount_in, reserve_in) as u32 && max_bps == MAX_PRICE_IMPACT_BPS),
        reserve_in != 0 && (impact_bps_spec(amount_in, reserve_in) as u32) <= MAX_PRICE_IMPACT_BPS ==> r is Ok,
{
    if reserve_in == 0 {
        return Err(AmmError::EmptyReserve);
    }
    let denom = reserve_in.saturating_add(amount_in);
    let num = crate::common::sat_mul_u128(amount_in, 10_000);
    let impact_bps = num / denom;
    if impact_bps as u32 > MAX_PRICE_IMPACT_BPS {
        return Err(AmmError::PriceImpactTooHigh { impact_bps: impact_bps as u32, max_bps: MAX_PRICE_IMPACT_BPS });
    }
    Ok(())
}

/// Rejects an output below the caller's minimum.
pub fn check_slippage(amount_out: u128, min_amount_out: u128) -> (r: Result<(), AmmError>)
    ensures
        amount_out < min_amount_out ==> (r matches Err(AmmError::SlippageExceeded { got, min })
            && got == amount_out && min == min_amount_out),
        amount_out >= min_amount_out ==> r is Ok,
{
    if amount_out < min_amount_out {
        return Err(AmmError::SlippageExceeded { got: amount_out, min: min_amount_out });
    }
    Ok(())
}

/// Rejects a transaction whose deadline is before the block time.
pub fn check_deadline(block_timestamp: u64, deadline: u64) -> (r: Result<(), AmmError>)
    ensures
        block_timestamp > deadline ==> (r matches Err(AmmError::DeadlineExpired { now, deadline: d })
            && now == block_timestamp && d == deadline),
        block_timestamp <= deadline ==> r is Ok,
{
    if block_timestamp > deadline {
        return Err(AmmError::DeadlineExpired { now: block_timestamp, deadline });
    }
    Ok(())
}

/// Share of the output reserve taken, in basis points (rounded down).
pub open spec fn drain_bps_spec(amount_out: u128, reserve_out: u128) -> int {
    amount_out * 10_000 / (reserve_out as int)
}

/// Rejects a swap taking more than 30% of the output reserve; the error
/// reports the share in basis points (saturated to `u32`).
pub fn check_reserve_drain(amount_out: u128, reserve_out: u128) -> (r: Result<(), AmmError>)
    ensures
        reserve_out == 0 ==> r matches Err(AmmError::EmptyReserve),
        reserve_out != 0 && drain_bps_spec(amount_out, reserve_out) > MAX_RESERVE_DRAIN_BPS
            ==> (r matches Err(AmmError::ReserveDrainExceeded { drain_bps, max_bps })
                && drain_bps == sat_u32(drain_bps_spec(amount_out, reserve_out)) && max_bps == MAX_RESERVE_DRAIN_BPS),
        reserve_out != 0 && drain_bps_spec(amount_out, reserve_out) <= MAX_RESERVE_DRAIN_BPS ==> r is Ok,
{
    if reserve_out == 0 {
        return Err(AmmError::EmptyReserve);
    }
    let drain_bps = mul_div_sat_u32(amount_out, 10_000, reserve_out);
    if drain_bps > MAX_RESERVE_DRAIN_BPS {
        return Err(AmmError::ReserveDrainExceeded { drain_bps, max_bps: MAX_RESERVE_DRAIN_BPS });
    }
    Ok(())
}

/// Deviation of the pool price from the oracle price, in basis points
/// (rounded down).
pub open spec fn deviation_bps_spec(pool_spot: u128, oracle: u128) -> int {
    let diff = if pool_spot > oracle { pool_spot - oracle } else { oracle - pool_spot };
    diff * 10_000 / (oracle as int)
}

/// Rejects a pool price more than 15% away from the oracle price. An oracle
/// price of zero means "no data" and passes; a zero pool price against a
/// non-zero oracle price is rejected as a full deviation. The error reports
/// the deviation in basis points (saturated to `u32`).
pub fn check_oracle_deviation(pool_spot_1e18: u128, oracle_price_1e18: u128) -> (r: Result<(), AmmError>)
    ensures
        oracle_price_1e18 == 0 ==> r is Ok,
        oracle_price_1e18 != 0 && pool_spot_1e18 == 0 ==> (r matches Err(AmmError::OraclePriceDeviation { deviation_bps, max_bps })
            && deviation_bps == 10_000 && max_bps == MAX_ORACLE_DEVIATION_BPS),
        oracle_price_1e18 != 0 && pool_spot_1e18 != 0
            && deviation_bps_spec(pool_spot_1e18, oracle_price_1e18) > MAX_ORACLE_DEVIATION_BPS
            ==> (r matches Err(AmmError::OraclePriceDeviation { deviation_bps, max_bps })
                && deviation_bps == sat_u32(deviation_bps_spec(pool_spot_1e18, oracle_price_1e18))
                && max_bps == MAX_ORACLE_DEVIATION_BPS),
        oracle_price_1e18 != 0 && pool_spot_1e18 != 0
            && deviation_bps_spec(pool_spot_1e18, oracle_price_1e18) <= MAX_ORACLE_DEVIATION_BPS ==> r is Ok,
{
    if oracle_price_1e18 == 0 {
        return Ok(());
    }
    if pool_spot_1e18 == 0 {
        return Err(AmmError::OraclePriceDeviation { deviation_bps: 10_000, max_bps: MAX_ORACLE_DEVIATION_BPS });
    }
    let diff = if pool_spot_1e18 > oracle_price_1e18 {
        pool_spot_1e18 - oracle_price_1e18
    } else {
        oracle_price_1e18 - pool_spot_1e18
    };
    let deviation_bps = mul_div_sat_u32(diff, 10_000, oracle_price_1e18);
    if deviation_bps > MAX_ORACLE_DEVIATION_BPS {
        return Err(AmmError::OraclePriceDeviation { deviation_bps, max_bps: MAX_ORACLE_DEVIATION_BPS });
    }
    Ok(())
}

/// `(a * b) / c`: `DivisionByZero` when `c == 0`, `Overflow` when the
/// product does not fit.
pub fn safe_mul_div(a: u128, b: u128, c: u128) -> (r: Result<u128, AmmError>)
    ensures
        c == 0 ==> r matches Err(AmmError::DivisionByZero),
        c != 0 && a * b > u128::MAX ==> r matches Err(AmmError::Overflow),
        c != 0 && a * b <= u128::MAX ==> r == Ok::<u128, AmmError>(((a * b) / (c as int)) as u128),
{
    if c == 0 {
        return Err(AmmError::DivisionByZero);
    }
    match a.checked_mul(b) {
        Some(num) => Ok(num / c),
        None => Err(AmmError::Overflow),
    }
}

/// Governance pause of a pool.
#[derive(Debug, Clone, Default)]
pub struct CircuitBreaker {
    /// When set, swaps and liquidity changes are rejected.
    pub paused: bool,
    /// Why the pool was paused.
    pub reason: Option<String>,
    /// Block at which the pause started.
    pub since_block: u64,
}

impl CircuitBreaker {
    pub fn new() -> (r: Self)
        ensures
            !r.paused,
            r.reason is None,
            r.since_block == 0,
    {
        CircuitBreaker { paused: false, reason: None, since_block: 0 }
    }

    /// Pauses the pool.
    pub fn trip(&mut self, reason: &str, block: u64)
        ensures
            final(self).paused,
            final(self).reason matches Some(s) && s@ == reason@,
            final(self).since_block == block,
    {
        self.paused = true;
        self.reason = Some(String::from_str(reason));
        self.since_block = block;
    }

    /// Lifts the pause.
    pub fn clear(&mut self)
        ensures
            !final(self).paused,
            final(self).reason is None,
            final(self).since_block == 0,
    {
        self.paused = false;
        self.reason = None;
        self.since_block = 0;
    }

    /// `PoolPaused` (with the recorded reason, or an empty one) while paused.
    pub fn check(&self) -> (r: Result<(), AmmError>)
        ensures
            self.paused ==> (r matches Err(AmmError::PoolPaused { reason })
                && reason@ == (match self.reason { Some(s) => s@, None => Seq::<char>::empty() })),
            !self.paused ==> r is Ok,
    {
        if self.paused {
            let reason = match &self.reason {
                Some(s) => s.clone(),
                None => String::new(),
            };
            return Err(AmmError::PoolPaused { reason });
        }
        Ok(())
    }
}

} // verus!
