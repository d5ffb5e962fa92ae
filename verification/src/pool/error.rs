//! Errors of the pool operations.

use vstd::prelude::*;

verus! {

/// Errors raised by pair operations and their guards.
#[derive(Debug)]
pub enum AmmError {
    /// A guarded operation was entered while already running.
    Reentrancy,
    /// A reserve involved is zero.
    EmptyReserve,
    /// The swap would move the price too far.
    PriceImpactTooHigh { impact_bps: u32, max_bps: u32 },
    /// The output is below the caller's minimum.
    SlippageExceeded { got: u128, min: u128 },
    /// The transaction deadline has passed.
    DeadlineExpired { now: u64, deadline: u64 },
    /// The swap would take too large a share of the output reserve.
    ReserveDrainExceeded { drain_bps: u32, max_bps: u32 },
    /// The pool price is too far from the oracle price.
    OraclePriceDeviation { deviation_bps: u32, max_bps: u32 },
    /// Division by zero.
    DivisionByZero,
    /// An intermediate product does not fit.
    Overflow,
    /// The pool is paused by governance.
    PoolPaused { reason: String },
    /// An input amount is zero.
    ZeroAmount,
    /// The computed output is zero.
    ZeroOutput,
    /// The reserve product does not fit.
    InvariantOverflow,
    /// The reserve product would decrease.
    InvariantViolation,
    /// Too little liquidity for the requested output.
    InsufficientLiquidityBurned,
    /// The first deposit is too small.
    BelowMinLiquidity,
    /// More LP tokens requested than exist.
    InsufficientLpBalance,
    /// Both tokens of a pool are the same.
    IdenticalTokens,
    /// A pool for the pair already exists.
    PoolAlreadyExists,
    /// The creator cannot pay the pool creation fee.
    InsufficientCreationFee { have: u128, need: u128 },
    /// No pool for the pair.
    PairNotFound,
}

} // verus!
