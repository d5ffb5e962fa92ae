//! Markets, positions, cross accounts and the parameter/result records.

use vstd::prelude::*;
use crate::common::Address;

verus! {

/// A market of the perpetuals engine.
#[derive(Debug, Clone)]
pub struct Market {
    pub symbol: String,
    pub oracle: Address,
    pub active: bool,
    /// Per-market leverage cap.
    pub max_leverage: u64,
    pub total_long_oi: u128,
    pub total_short_oi: u128,
    /// Cumulative funding index (scaled by 10^10).
    pub cumulative_funding: i128,
    pub last_funding_update: u64,
}

impl Market {
    /// A copy of the market, equal to it.
    pub fn copied(&self) -> (r: Self)
        ensures
            r == *self,
    {
        Market {
            symbol: self.symbol.clone(),
            oracle: self.oracle,
            active: self.active,
            max_leverage: self.max_leverage,
            total_long_oi: self.total_long_oi,
            total_short_oi: self.total_short_oi,
            cumulative_funding: self.cumulative_funding,
            last_funding_update: self.last_funding_update,
        }
    }

    /// An active market with no open interest, funding starting at `now`.
    pub fn new(symbol: String, oracle: Address, max_leverage: u64, now: u64) -> (r: Self)
        ensures
            r.symbol == symbol,
            r.oracle == oracle,
            r.active,
            r.max_leverage == max_leverage,
            r.total_long_oi == 0 && r.total_short_oi == 0,
            r.cumulative_funding == 0,
            r.last_funding_update == now,
    {
        Market {
            symbol,
            oracle,
            active: true,
            max_leverage,
            total_long_oi: 0,
            total_short_oi: 0,
            cumulative_funding: 0,
            last_funding_update: now,
        }
    }
}

/// A perpetual position.
#[derive(Debug, Clone, Copy)]
pub struct Position {
    pub trader: Address,
    pub market_id: u64,
    pub is_long: bool,
    pub is_cross: bool,
    /// Isolated collateral (0 for cross positions).
    pub collateral: u128,
    /// Notional size.
    pub size: u128,
    pub entry_price: u128,
    /// Funding index at open.
    pub funding_entry_rate: i128,
    /// Stop-loss price (0 = none).
    pub stop_loss: u128,
    /// Take-profit price (0 = none).
    pub take_profit: u128,
    /// Trailing-stop width in basis points (0 = none).
    pub trail_bps: u64,
    /// Best mark price seen for the trailing stop.
    pub trail_peak: u128,
    pub closed: bool,
    /// Initial margin share of the position.
    pub initial_margin: u128,
}

/// A market with its live funding figures.
#[derive(Debug, Clone)]
pub struct MarketView {
    pub market_id: u64,
    pub symbol: String,
    pub oracle: Address,
    pub active: bool,
    pub max_leverage: u64,
    pub total_long_oi: u128,
    pub total_short_oi: u128,
    /// Long minus short open interest.
    pub oi_imbalance: i128,
    pub cumulative_funding: i128,
    /// The current per-interval funding rate.
    pub current_funding: i128,
    /// Seconds until the next settlement (0 if overdue).
    pub next_funding_in: u64,
    pub mark_price: u128,
}

/// A position with its live health figures at a mark price.
#[derive(Debug, Clone, Copy)]
pub struct PositionView {
    pub position_id: u64,
    pub trader: Address,
    pub market_id: u64,
    pub is_long: bool,
    pub is_cross: bool,
    pub collateral: u128,
    pub size: u128,
    pub entry_price: u128,
    pub funding_entry_rate: i128,
    pub stop_loss: u128,
    pub take_profit: u128,
    pub trail_bps: u64,
    pub trail_peak: u128,
    pub closed: bool,
    pub initial_margin: u128,
    pub unrealised_pnl: i128,
    /// 0 = liquidatable, 10000 = fully collateralised.
    pub health_bps: u64,
    /// 0 for cross and closed positions.
    pub liquidation_price: u128,
    pub is_sl_triggered: bool,
    pub is_tp_triggered: bool,
    pub is_liquidatable: bool,
}

/// Shared margin account of one trader.
#[derive(Debug, Clone, Default)]
pub struct CrossAccount {
    pub balance: u128,
    pub initial_margin: u128,
    pub pos_ids: Vec<u64>,
}

/// Parameters of `open_position`.
#[derive(Debug, Clone, Copy)]
pub struct OpenPositionParams {
    pub market_id: u64,
    pub is_long: bool,
    pub collateral: u128,
    pub leverage: u64,
    pub is_cross: bool,
    pub sl_price: u128,
    pub tp_price: u128,
}

/// Outcome of opening a position.
#[derive(Debug, Clone, Copy)]
pub struct OpenPositionResult {
    pub position_id: u64,
    pub size: u128,
    pub entry_price: u128,
    pub fee_charged: u128,
}

/// Outcome of a (partial) close.
#[derive(Debug, Clone, Copy)]
pub struct CloseResult {
    pub exit_price: u128,
    pub net_pnl: i128,
    pub payout: u128,
    pub fee: u128,
}

/// A cross-margin account with its live figures.
#[derive(Debug, Clone)]
pub struct CrossAccountView {
    pub trader: Address,
    pub balance: u128,
    /// Balance plus the unrealised PnL of the open cross positions.
    pub equity: i128,
    pub maint_margin: u128,
    pub free_margin: u128,
    pub liq_threshold: u128,
    pub liquidatable: bool,
    pub position_ids: Vec<u64>,
}

/// Outcome of a liquidation.
#[derive(Debug, Clone, Copy)]
pub struct LiquidationResult {
    pub exit_price: u128,
    pub keeper_bounty: u128,
    pub protocol_fee: u128,
}

} // verus!
