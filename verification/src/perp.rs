//! Perpetual futures: markets, positions, funding, orders, liquidation and
//! the call decoder of the perpetuals contract.

pub mod error;
pub mod types;
pub mod funding;
pub mod position;
pub mod order;
pub mod liquidation;
pub mod market;
pub mod tx_handler;
pub mod engine;

use vstd::prelude::*;

verus! {

/// Global maximum leverage of any market.
pub const MAX_LEVERAGE: u64 = 200;
/// Maintenance margin as basis points of position size (10%).
pub const MAINTENANCE_MARGIN_BPS: u16 = 1_000;
/// Protocol fee on open and close (0.10%).
pub const PROTOCOL_FEE_BPS: u16 = 10;
/// Bounty of the keeper that triggers an order (0.05%).
pub const KEEPER_BOUNTY_BPS: u16 = 5;
/// Bounty of the keeper that liquidates (1%).
pub const LIQUIDATION_BOUNTY_BPS: u16 = 100;
/// Funding settlement interval (8 hours).
pub const FUNDING_INTERVAL: u64 = 28_800;
/// Maximum trailing-stop width (50%).
pub const MAX_TRAIL_BPS: u64 = 5_000;

} // verus!
