//! Errors of the perpetuals engine.

use vstd::prelude::*;

verus! {

/// Errors raised by the perpetuals engine.
#[derive(Debug, PartialEq, Eq, Clone, Copy, Structural)]
pub enum PerpError {
    MarketNotFound(u64),
    MarketInactive(u64),
    LeverageTooHigh { got: u64, max: u64 },
    ZeroLeverage,
    InvalidOracle,
    StaleOracle { age_secs: u64, max_secs: u64 },
    PositionNotFound(u64),
    NotPositionOwner(u64),
    AlreadyClosed(u64),
    ZeroCollateral,
    ZeroAmount,
    InvalidStopLoss,
    InvalidTakeProfit,
    InvalidBps,
    InvalidTrailBps,
    TrailNotFavourable,
    NeitherTriggered(u64),
    SLNotTriggered(u64),
    TPNotTriggered(u64),
    NotLiquidatable(u64),
    InsufficientCrossMargin { have: u128, need: u128 },
    CrossWithdrawTooLarge { free: u128, requested: u128 },
    NotIsolatedPosition,
    NotOwner,
    Overflow,
    ZeroOraclePrice(u64),
}

} // verus!
