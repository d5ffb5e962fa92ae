//! The perpetuals engine: markets, positions and the price oracle wired
//! together. Every trade resolves the mark price, settles funding, then
//! acts on the position store.
//!
//! Where the original arithmetic would overflow on a mark price or market
//! state (which the caller cannot know in advance), the engine answers
//! `PerpError::Overflow` instead.

use vstd::prelude::*;
use crate::common::Address;
use crate::perp::error::PerpError;
use crate::perp::funding::{oi_in_range, oi_ok, settled_spec};
use crate::perp::liquidation::{after_cross_liquidation, cross_liquidatable, liquidate, liquidate_cross, liquidate_outcome};
use crate::perp::market::{market_params_error, MarketRegistry};
use crate::perp::order::{
    set_stop_loss, set_take_profit, set_trailing_stop, sl_valid, tp_valid, trail_computable, trigger_order,
    trigger_outcome, trigger_stop_loss, trigger_take_profit, update_trailing_stop, validate_sl, validate_tp,
};
use crate::perp::position::{
    close_computable, close_ok, health_computable, health_ok, maint_computable, partial_ok, PositionStore,
};
use crate::perp::types::{
    Position,
    CloseResult, CrossAccountView, LiquidationResult, Market, MarketView, OpenPositionParams, OpenPositionResult,
    PositionView,
};

verus! {

/// Resolves mark prices; implemented by the node (or by a test double).
pub trait OracleProvider {
    /// The current mark price of the market priced by `oracle_addr`, if
    /// the oracle has a fresh one.
    fn mark_price(&self, oracle_addr: Address) -> Option<u128>;
}

/// The perpetuals engine.
pub struct PerpEngine<O: OracleProvider> {
    markets: MarketRegistry,
    positions: PositionStore,
    owner: Address,
    oracle: O,
}

impl<O: OracleProvider> PerpEngine<O> {
    /// The markets.
    pub closed spec fn spec_markets(&self) -> MarketRegistry {
        self.markets
    }

    /// The positions and cross accounts.
    pub closed spec fn spec_positions(&self) -> PositionStore {
        self.positions
    }

    /// The engine's owner.
    pub closed spec fn spec_owner(&self) -> Address {
        self.owner
    }

    /// The engine's invariant.
    pub open spec fn wf(&self) -> bool {
        self.spec_positions().wf()
    }

    /// The market of position `pos_id`.
    pub open spec fn mid(&self, pos_id: u64) -> u64 {
        self.spec_positions().pos(pos_id).market_id
    }

    /// Position `pos_id` exists and its market is registered.
    pub open spec fn priced(&self, pos_id: u64) -> bool {
        self.spec_positions().has_pos(pos_id) && self.mid(pos_id) < self.spec_markets().spec_markets().len()
    }

    /// The market of position `pos_id` after settling funding at `now`.
    pub open spec fn settled_market(&self, pos_id: u64, now: u64) -> Market {
        settled_spec(self.spec_markets().spec_markets()[self.mid(pos_id) as int], now, 28_800)
    }

    /// `e` is the error of the lookups that come before any change for a
    /// trade on `pos_id`, when one fails.
    pub open spec fn lookup_error(&self, pos_id: u64) -> Option<PerpError> {
        if !self.spec_positions().has_pos(pos_id) {
            Some(PerpError::PositionNotFound(pos_id))
        } else if !self.priced(pos_id) {
            Some(PerpError::MarketNotFound(self.mid(pos_id)))
        } else {
            None
        }
    }

    /// The markets of `s` are those of `self`, or those with the market of
    /// `pos_id` settled at `now`.
    pub open spec fn markets_settled_or_same(&self, s: &Self, pos_id: u64, now: u64) -> bool {
        ||| s.spec_markets().spec_markets() == self.spec_markets().spec_markets()
        ||| (self.priced(pos_id) && s.spec_markets().spec_markets()
            == self.spec_markets().spec_markets().update(self.mid(pos_id) as int, self.settled_market(pos_id, now)))
    }

    /// A failed trade on `pos_id` changed no position, and at most settled
    /// its market's funding.
    pub open spec fn failed_trade(&self, s: &Self, pos_id: u64, now: u64, e: PerpError) -> bool {
        &&& s.spec_positions() == self.spec_positions()
        &&& s.spec_owner() == self.spec_owner()
        &&& self.markets_settled_or_same(s, pos_id, now)
        &&& self.lookup_error(pos_id) matches Some(le) ==> e == le && s.spec_markets() == self.spec_markets()
    }

    /// `s`'s markets are `self`'s with that of `pos_id` replaced by `m`.
    pub open spec fn market_replaced(&self, s: &Self, pos_id: u64, m: Market) -> bool {
        &&& s.spec_markets().spec_markets() == self.spec_markets().spec_markets().update(self.mid(pos_id) as int, m)
        &&& s.spec_owner() == self.spec_owner()
    }

    /// An engine owned by `owner` with no market and no position.
    pub fn new(owner: Address, oracle: O) -> (r: Self)
        ensures
            r.wf(),
            r.spec_owner() == owner,
            r.spec_markets().spec_markets().len() == 0,
            r.spec_positions().spec_positions().len() == 0,
            r.spec_positions().spec_traders().len() == 0,
            r.spec_positions().spec_fee_balance() == 0,
    {
        PerpEngine { markets: MarketRegistry::new(), positions: PositionStore::new(), owner, oracle }
    }

    /// The markets.
    pub fn markets(&self) -> (r: &MarketRegistry)
        ensures
            *r == self.spec_markets(),
    {
        &self.markets
    }

    /// The positions and cross accounts.
    pub fn positions(&self) -> (r: &PositionStore)
        ensures
            *r == self.spec_positions(),
    {
        &self.positions
    }

    fn require_owner(&self, caller: Address) -> (r: Result<(), PerpError>)
        ensures
            r == (if caller.0@ == self.spec_owner().0@ { Ok::<(), PerpError>(()) } else { Err(PerpError::NotOwner) }),
    {
        if caller != self.owner { Err(PerpError::NotOwner) } else { Ok(()) }
    }

    /// Adds a market (owner only) and returns its id.
    pub fn add_market(&mut self, caller: Address, oracle_addr: Address, symbol: String, max_leverage: u64, now: u64)
        -> (r: Result<u64, PerpError>)
        requires
            old(self).wf(),
            old(self).spec_markets().spec_markets().len() < u64::MAX,
        ensures
            final(self).wf(),
            final(self).spec_positions() == old(self).spec_positions(),
            final(self).spec_owner() == old(self).spec_owner(),
            caller.0@ != old(self).spec_owner().0@ ==> r == Err::<u64, PerpError>(PerpError::NotOwner)
                && final(self).spec_markets() == old(self).spec_markets(),
            caller.0@ == old(self).spec_owner().0@ ==> match market_params_error(oracle_addr, max_leverage) {
                Some(e) => r == Err::<u64, PerpError>(e) && final(self).spec_markets().spec_markets() == old(self).spec_markets().spec_markets(),
                None => {
                    &&& r == Ok::<u64, PerpError>(old(self).spec_markets().spec_markets().len() as u64)
                    &&& final(self).spec_markets().spec_markets().drop_last() == old(self).spec_markets().spec_markets()
                    &&& final(self).spec_markets().spec_markets().len() == old(self).spec_markets().spec_markets().len() + 1
                    &&& ({
                        let m = final(self).spec_markets().spec_markets().last();
                        &&& m.symbol@ == symbol@ && m.oracle == oracle_addr && m.active && m.max_leverage == max_leverage
                        &&& m.total_long_oi == 0 && m.total_short_oi == 0
                        &&& m.cumulative_funding == 0 && m.last_funding_update == now
                    })
                },
            },
    {
        match self.require_owner(caller) {
            Err(e) => return Err(e),
            Ok(()) => {},
        }
        self.markets.add_market(oracle_addr, symbol, max_leverage, now)
    }

    /// Changes a market's oracle, active flag and leverage cap (owner only).
    pub fn update_market(&mut self, caller: Address, market_id: u64, oracle_addr: Address, active: bool, max_leverage: u64)
        -> (r: Result<(), PerpError>)
        requires
            old(self).wf(),
        ensures
            final(self).wf(),
            final(self).spec_positions() == old(self).spec_positions(),
            final(self).spec_owner() == old(self).spec_owner(),
            caller.0@ != old(self).spec_owner().0@ ==> r == Err::<(), PerpError>(PerpError::NotOwner)
                && final(self).spec_markets() == old(self).spec_markets(),
            caller.0@ == old(self).spec_owner().0@ ==> match market_params_error(oracle_addr, max_leverage) {
                Some(e) => r == Err::<(), PerpError>(e) && final(self).spec_markets().spec_markets() == old(self).spec_markets().spec_markets(),
                None => if market_id < old(self).spec_markets().spec_markets().len() {
                    &&& r == Ok::<(), PerpError>(())
                    &&& final(self).spec_markets().spec_markets() == old(self).spec_markets().spec_markets().update(market_id as int, Market {
                        oracle: oracle_addr,
                        active,
                        max_leverage,
                        ..old(self).spec_markets().spec_markets()[market_id as int]
                    })
                } else {
                    r == Err::<(), PerpError>(PerpError::MarketNotFound(market_id))
                        && final(self).spec_markets().spec_markets() == old(self).spec_markets().spec_markets()
                },
            },
    {
        match self.require_owner(caller) {
            Err(e) => return Err(e),
            Ok(()) => {},
        }
        self.markets.update_market(market_id, oracle_addr, active, max_leverage)
    }

    /// The market and oracle of position `pos_id`.
    fn pos_market_oracle(&self, pos_id: u64) -> (r: Result<(u64, Address), PerpError>)
        requires
            self.wf(),
        ensures
            match self.lookup_error(pos_id) {
                Some(e) => r == Err::<(u64, Address), PerpError>(e),
                None => r == Ok::<(u64, Address), PerpError>((self.mid(pos_id),
                    self.spec_markets().spec_markets()[self.mid(pos_id) as int].oracle)),
            },
    {
        let p = match self.positions.get_position(pos_id) {
            None => return Err(PerpError::PositionNotFound(pos_id)),
            Some(p) => p,
        };
        let mid = p.market_id;
        match self.markets.get(mid) {
            Err(e) => Err(e),
            Ok(m) => Ok((mid, m.oracle)),
        }
    }

    /// The oracle's mark price for market `market_id`.
    fn resolve_price(&self, market_id: u64, oracle_addr: Address) -> (r: Result<u128, PerpError>)
        ensures
            r matches Err(e) ==> e == PerpError::ZeroOraclePrice(market_id),
    {
        match self.oracle.mark_price(oracle_addr) {
            Some(p) => Ok(p),
            None => Err(PerpError::ZeroOraclePrice(market_id)),
        }
    }

    /// Settles the funding of market `market_id` at `now` (an existing
    /// market; `Overflow` when its open interest is out of range).
    fn settle(&mut self, market_id: u64, now: u64) -> (r: Result<(), PerpError>)
        requires
            market_id < old(self).spec_markets().spec_markets().len(),
        ensures
            final(self).spec_positions() == old(self).spec_positions(),
            final(self).spec_owner() == old(self).spec_owner(),
            match r {
                Ok(()) => final(self).spec_markets().spec_markets() == old(self).spec_markets().spec_markets().update(
                    market_id as int, settled_spec(old(self).spec_markets().spec_markets()[market_id as int], now, 28_800)),
                Err(e) => e == PerpError::Overflow && final(self).spec_markets() == old(self).spec_markets(),
            },
    {
        let ok = match self.markets.get(market_id) {
            Ok(m) => oi_ok(m),
            Err(_) => false,
        };
        if !ok {
            return Err(PerpError::Overflow);
        }
        match self.markets.settle_funding(market_id, now) {
            Ok(_) => Ok(()),
            Err(e) => Err(e),
        }
    }

    /// A copy of market `market_id`, which exists.
    fn market_copy(&self, market_id: u64) -> (r: Market)
        requires
            market_id < self.spec_markets().spec_markets().len(),
        ensures
            r == self.spec_markets().spec_markets()[market_id as int],
    {
        match self.markets.get(market_id) {
            Ok(m) => m.copied(),
            Err(_) => {
                proof { assert(false); }
                Market::new(String::new(), self.owner, 0, 0)
            },
        }
    }

    /// Resolves the mark price of position `pos_id`'s market and settles
    /// its funding at `now`; returns the market id, the mark price and a
    /// copy of the settled market.
    fn prepare(&mut self, pos_id: u64, now: u64) -> (r: Result<(u64, u128, Market), PerpError>)
        requires
            old(self).wf(),
        ensures
            final(self).wf(),
            match r {
                Err(e) => old(self).failed_trade(&*final(self), pos_id, now, e),
                Ok((mid, mark, m)) => {
                    &&& old(self).lookup_error(pos_id) is None
                    &&& mid == old(self).mid(pos_id)
                    &&& m == old(self).settled_market(pos_id, now)
                    &&& final(self).spec_positions() == old(self).spec_positions()
                    &&& final(self).spec_owner() == old(self).spec_owner()
                    &&& final(self).spec_markets().spec_markets() == old(self).spec_markets().spec_markets().update(mid as int, m)
                },
            },
    {
        let (mid, oracle_addr) = match self.pos_market_oracle(pos_id) {
            Err(e) => return Err(e),
            Ok(x) => x,
        };
        let mark = match self.resolve_price(mid, oracle_addr) {
            Err(e) => return Err(e),
            Ok(p) => p,
        };
        match self.settle(mid, now) {
            Err(e) => return Err(e),
            Ok(()) => {},
        }
        let m = self.market_copy(mid);
        Ok((mid, mark, m))
    }

    /// The outcome of `close_position` on `pre`, leaving `post` and answering `r`.
    pub open spec fn close_position_post(pre: Self, post: Self, sender: Address, pos_id: u64, now: u64, r: Result<CloseResult, PerpError>) -> bool {
        &&& (post.wf())
        &&& (match r {
            Err(e) => pre.failed_trade(&post, pos_id, now, e),
            Ok(cr) => {
                &&& pre.priced(pos_id)
                &&& pre.spec_positions().owner_check(sender, pos_id) is Ok
                &&& pre.market_replaced(&post, pos_id,
                    post.spec_markets().spec_markets()[pre.mid(pos_id) as int])
                &&& pre.spec_positions().closes(&post.spec_positions(), pre.settled_market(pos_id, now),
                    post.spec_markets().spec_markets()[pre.mid(pos_id) as int], pos_id, cr.exit_price,
                    (cr.net_pnl, cr.payout, cr.fee))
            },
        })
    }

    /// Fully closes `sender`'s position `pos_id` at the mark price, after
    /// settling funding.
    pub fn close_position(&mut self, sender: Address, pos_id: u64, now: u64) -> (r: Result<CloseResult, PerpError>)
        requires
            old(self).wf(),
        ensures
            Self::close_position_post(*old(self), *final(self), sender, pos_id, now, r),
    {
        let (mid, mark, mut market) = match self.prepare(pos_id, now) {
            Err(e) => return Err(e),
            Ok(x) => x,
        };
        if let Some(p) = self.positions.get_position(pos_id) {
            if !p.closed && !close_ok(p, mark, market.cumulative_funding) {
                return Err(PerpError::Overflow);
            }
        }
        let r = self.positions.close(sender, pos_id, mark, &mut market);
        let ghost m1 = market;
        let _ = self.markets.set(mid, market);
        proof {
            assert(self.spec_markets().spec_markets() =~= old(self).spec_markets().spec_markets().update(mid as int, m1));
        }
        r
    }

    /// The outcome of `partial_close` on `pre`, leaving `post` and answering `r`.
    pub open spec fn partial_close_post(pre: Self, post: Self, sender: Address, pos_id: u64, close_bps: u64, now: u64, r: Result<CloseResult, PerpError>) -> bool {
        &&& (post.wf())
        &&& (match r {
            Err(e) => pre.failed_trade(&post, pos_id, now, e),
            Ok(cr) => {
                let m = post.spec_markets().spec_markets()[pre.mid(pos_id) as int];
                &&& pre.priced(pos_id)
                &&& 1 <= close_bps <= 10_000
                &&& pre.spec_positions().owner_check(sender, pos_id) is Ok
                &&& pre.market_replaced(&post, pos_id, m)
                &&& close_bps == 10_000 ==> pre.spec_positions().closes(&post.spec_positions(),
                    pre.settled_market(pos_id, now), m, pos_id, cr.exit_price, (cr.net_pnl, cr.payout, cr.fee))
                &&& close_bps < 10_000 ==> pre.spec_positions().partially_closes(&post.spec_positions(),
                    pre.settled_market(pos_id, now), m, pos_id, close_bps, cr.exit_price, cr)
            },
        })
    }

    /// Closes `close_bps` basis points of `sender`'s position at the mark
    /// price, after settling funding.
    pub fn partial_close(&mut self, sender: Address, pos_id: u64, close_bps: u64, now: u64)
        -> (r: Result<CloseResult, PerpError>)
        requires
            old(self).wf(),
        ensures
            Self::partial_close_post(*old(self), *final(self), sender, pos_id, close_bps, now, r),
    {
        let (mid, mark, mut market) = match self.prepare(pos_id, now) {
            Err(e) => return Err(e),
            Ok(x) => x,
        };
        if let Some(p) = self.positions.get_position(pos_id) {
            if !p.closed && close_bps >= 1 && close_bps <= 10_000 {
                let ok = if close_bps == 10_000 {
                    close_ok(p, mark, market.cumulative_funding)
                } else {
                    partial_ok(p, close_bps, mark, market.cumulative_funding)
                };
                if !ok {
                    return Err(PerpError::Overflow);
                }
            }
        }
        let r = self.positions.partial_close(sender, pos_id, close_bps, mark, &mut market);
        let ghost m1 = market;
        let _ = self.markets.set(mid, market);
        proof {
            assert(self.spec_markets().spec_markets() =~= old(self).spec_markets().spec_markets().update(mid as int, m1));
        }
        r
    }

    /// Keeper triggers (`which`: 0 either order, 1 stop-loss, 2
    /// take-profit) at the mark price, after settling funding.
    fn trigger(&mut self, which: u8, keeper: Address, pos_id: u64, now: u64) -> (r: Result<(CloseResult, u128), PerpError>)
        requires
            old(self).wf(),
        ensures
            final(self).wf(),
            match r {
                Err(e) => old(self).failed_trade(&*final(self), pos_id, now, e),
                Ok((cr, bounty)) => {
                    let m = final(self).spec_markets().spec_markets()[old(self).mid(pos_id) as int];
                    &&& old(self).priced(pos_id)
                    &&& old(self).market_replaced(&*final(self), pos_id, m)
                    &&& trigger_outcome(which, old(self).spec_positions(), final(self).spec_positions(),
                        old(self).settled_market(pos_id, now), m, pos_id, cr.exit_price, r)
                },
            },
    {
        let (mid, mark, mut market) = match self.prepare(pos_id, now) {
            Err(e) => return Err(e),
            Ok(x) => x,
        };
        if let Some(p) = self.positions.get_position(pos_id) {
            if !p.closed && (p.collateral > u128::MAX / 5 || !close_ok(p, mark, market.cumulative_funding)) {
                return Err(PerpError::Overflow);
            }
        }
        let r = if which == 0 {
            trigger_order(&mut self.positions, keeper, pos_id, mark, &mut market)
        } else if which == 1 {
            trigger_stop_loss(&mut self.positions, keeper, pos_id, mark, &mut market)
        } else {
            trigger_take_profit(&mut self.positions, keeper, pos_id, mark, &mut market)
        };
        let ghost m1 = market;
        let _ = self.markets.set(mid, market);
        proof {
            assert(self.spec_markets().spec_markets() =~= old(self).spec_markets().spec_markets().update(mid as int, m1));
        }
        r
    }

    /// The outcome of `trigger_order` on `pre`, leaving `post` and answering `r`.
    pub open spec fn trigger_order_post(pre: Self, post: Self, keeper: Address, pos_id: u64, now: u64, r: Result<(CloseResult, u128), PerpError>) -> bool {
        &&& (post.wf())
        &&& (match r {
            Err(e) => pre.failed_trade(&post, pos_id, now, e),
            Ok((cr, bounty)) => {
                let m = post.spec_markets().spec_markets()[pre.mid(pos_id) as int];
                &&& pre.priced(pos_id)
                &&& pre.market_replaced(&post, pos_id, m)
                &&& trigger_outcome(0, pre.spec_positions(), post.spec_positions(),
                    pre.settled_market(pos_id, now), m, pos_id, cr.exit_price, r)
            },
        })
    }

    /// Closes a position whose stop-loss or take-profit is hit; returns the
    /// close and the keeper's bounty.
    pub fn trigger_order(&mut self, keeper: Address, pos_id: u64, now: u64) -> (r: Result<(CloseResult, u128), PerpError>)
        requires
            old(self).wf(),
        ensures
            Self::trigger_order_post(*old(self), *final(self), keeper, pos_id, now, r),
    {
        self.trigger(0, keeper, pos_id, now)
    }

    /// The outcome of `trigger_stop_loss` on `pre`, leaving `post` and answering `r`.
    pub open spec fn trigger_stop_loss_post(pre: Self, post: Self, keeper: Address, pos_id: u64, now: u64, r: Result<(CloseResult, u128), PerpError>) -> bool {
        &&& (post.wf())
        &&& (match r {
            Err(e) => pre.failed_trade(&post, pos_id, now, e),
            Ok((cr, bounty)) => {
                let m = post.spec_markets().spec_markets()[pre.mid(pos_id) as int];
                &&& pre.priced(pos_id)
                &&& pre.market_replaced(&post, pos_id, m)
                &&& trigger_outcome(1, pre.spec_positions(), post.spec_positions(),
                    pre.settled_market(pos_id, now), m, pos_id, cr.exit_price, r)
            },
        })
    }

    /// Closes a position whose stop-loss is hit, with the keeper's bounty.
    pub fn trigger_stop_loss(&mut self, keeper: Address, pos_id: u64, now: u64) -> (r: Result<(CloseResult, u128), PerpError>)
        requires
            old(self).wf(),
        ensures
            Self::trigger_stop_loss_post(*old(self), *final(self), keeper, pos_id, now, r),
    {
        self.trigger(1, keeper, pos_id, now)
    }

    /// The outcome of `trigger_take_profit` on `pre`, leaving `post` and answering `r`.
    pub open spec fn trigger_take_profit_post(pre: Self, post: Self, keeper: Address, pos_id: u64, now: u64, r: Result<(CloseResult, u128), PerpError>) -> bool {
        &&& (post.wf())
        &&& (match r {
            Err(e) => pre.failed_trade(&post, pos_id, now, e),
            Ok((cr, bounty)) => {
                let m = post.spec_markets().spec_markets()[pre.mid(pos_id) as int];
                &&& pre.priced(pos_id)
                &&& pre.market_replaced(&post, pos_id, m)
                &&& trigger_outcome(2, pre.spec_positions(), post.spec_positions(),
                    pre.settled_market(pos_id, now), m, pos_id, cr.exit_price, r)
            },
        })
    }

    /// Closes a position whose take-profit is hit, with the keeper's bounty.
    pub fn trigger_take_profit(&mut self, keeper: Address, pos_id: u64, now: u64) -> (r: Result<(CloseResult, u128), PerpError>)
        requires
            old(self).wf(),
        ensures
            Self::trigger_take_profit_post(*old(self), *final(self), keeper, pos_id, now, r),
    {
        self.trigger(2, keeper, pos_id, now)
    }

    /// The outcome of `liquidate` on `pre`, leaving `post` and answering `r`.
    pub open spec fn liquidate_post(pre: Self, post: Self, keeper: Address, pos_id: u64, now: u64, r: Result<LiquidationResult, PerpError>) -> bool {
        &&& (post.wf())
        &&& (match r {
            Err(e) => pre.failed_trade(&post, pos_id, now, e),
            Ok(res) => {
                let m = post.spec_markets().spec_markets()[pre.mid(pos_id) as int];
                &&& pre.priced(pos_id)
                &&& pre.market_replaced(&post, pos_id, m)
                &&& liquidate_outcome(pre.spec_positions(), post.spec_positions(),
                    pre.settled_market(pos_id, now), m, pos_id, res.exit_price, r)
            },
        })
    }

    /// Liquidates an isolated position below its maintenance margin at the
    /// mark price, after settling funding.
    pub fn liquidate(&mut self, keeper: Address, pos_id: u64, now: u64) -> (r: Result<LiquidationResult, PerpError>)
        requires
            old(self).wf(),
        ensures
            Self::liquidate_post(*old(self), *final(self), keeper, pos_id, now, r),
    {
        let (mid, mark, mut market) = match self.prepare(pos_id, now) {
            Err(e) => return Err(e),
            Ok(x) => x,
        };
        if let Some(p) = self.positions.get_position(pos_id) {
            if !p.closed && !p.is_cross && (p.size > u128::MAX / 1_000 || p.collateral > u128::MAX / 100) {
                return Err(PerpError::Overflow);
            }
        }
        let r = liquidate(&mut self.positions, keeper, pos_id, mark, &mut market);
        let ghost m1 = market;
        let _ = self.markets.set(mid, market);
        proof {
            assert(self.spec_markets().spec_markets() =~= old(self).spec_markets().spec_markets().update(mid as int, m1));
        }
        r
    }

    /// The mark price of position `pos_id`'s market (no funding settled).
    fn position_mark(&self, pos_id: u64) -> (r: Result<u128, PerpError>)
        requires
            self.wf(),
        ensures
            self.lookup_error(pos_id) matches Some(e) ==> r == Err::<u128, PerpError>(e),
            self.lookup_error(pos_id) is None && r is Err ==> r == Err::<u128, PerpError>(PerpError::ZeroOraclePrice(self.mid(pos_id))),
    {
        let (mid, oracle_addr) = match self.pos_market_oracle(pos_id) {
            Err(e) => return Err(e),
            Ok(x) => x,
        };
        self.resolve_price(mid, oracle_addr)
    }

    /// The outcome of `open_position` on `pre`, leaving `post` and answering `r`.
    pub open spec fn open_position_post(pre: Self, post: Self, sender: Address, market_id: u64, is_long: bool, collateral: u128, leverage: u64, is_cross: bool, sl_price: u128, tp_price: u128, now: u64, r: Result<OpenPositionResult, PerpError>) -> bool {
        &&& (post.wf())
        &&& (post.spec_owner() == pre.spec_owner())
        &&& (({
            let params = OpenPositionParams { market_id, is_long, collateral, leverage, is_cross, sl_price, tp_price };
            let ms = pre.spec_markets().spec_markets();
            match r {
                Ok(res) => {
                    let m = post.spec_markets().spec_markets()[market_id as int];
                    &&& market_id < ms.len()
                    &&& ms[market_id as int].active
                    &&& (sl_price != 0 ==> sl_valid(is_long, res.entry_price, sl_price))
                    &&& (tp_price != 0 ==> tp_valid(is_long, res.entry_price, tp_price))
                    &&& post.spec_markets().spec_markets() == ms.update(market_id as int, m)
                    &&& pre.spec_positions().open_outcome(&post.spec_positions(),
                        settled_spec(ms[market_id as int], now, 28_800), m, sender, params, res.entry_price, r)
                },
                Err(e) => {
                    &&& market_id >= ms.len() ==> e == PerpError::MarketNotFound(market_id)
                        && post.spec_markets() == pre.spec_markets()
                    &&& (market_id < ms.len() && !ms[market_id as int].active) ==> e == PerpError::MarketInactive(market_id)
                        && post.spec_markets() == pre.spec_markets()
                    &&& post.spec_positions() == pre.spec_positions()
                        || exists|mark: u128| pre.spec_positions().open_outcome(&post.spec_positions(),
                            settled_spec(ms[market_id as int], now, 28_800), post.spec_markets().spec_markets()[market_id as int],
                            sender, params, mark, r)
                },
            }
        }))
    }

    /// Opens a position in market `market_id` at its mark price, after
    /// settling funding and checking the stop-loss and take-profit against
    /// the mark price.
    pub fn open_position(&mut self, sender: Address, market_id: u64, is_long: bool, collateral: u128, leverage: u64,
        is_cross: bool, sl_price: u128, tp_price: u128, now: u64) -> (r: Result<OpenPositionResult, PerpError>)
        requires
            old(self).wf(),
        ensures
            Self::open_position_post(*old(self), *final(self), sender, market_id, is_long, collateral, leverage, is_cross, sl_price, tp_price, now, r),
    {
        let m0 = match self.markets.get(market_id) {
            Err(e) => return Err(e),
            Ok(m) => m,
        };
        if !m0.active {
            return Err(PerpError::MarketInactive(market_id));
        }
        let oracle_addr = m0.oracle;
        let mark = match self.resolve_price(market_id, oracle_addr) {
            Err(e) => return Err(e),
            Ok(p) => p,
        };
        match self.settle(market_id, now) {
            Err(e) => return Err(e),
            Ok(()) => {},
        }
        if sl_price != 0 {
            match validate_sl(is_long, mark, sl_price) {
                Err(e) => return Err(e),
                Ok(()) => {},
            }
        }
        if tp_price != 0 {
            match validate_tp(is_long, mark, tp_price) {
                Err(e) => return Err(e),
                Ok(()) => {},
            }
        }
        let params = OpenPositionParams { market_id, is_long, collateral, leverage, is_cross, sl_price, tp_price };
        let mut market = self.market_copy(market_id);
        let checks = collateral != 0 && leverage != 0 && leverage <= market.max_leverage && mark != 0;
        if checks {
            if collateral > u128::MAX / 10 || self.positions.next_position_id() == u64::MAX {
                return Err(PerpError::Overflow);
            }
            if is_cross {
                let fee = (collateral * 10) / 10_000;
                let size = crate::common::sat_mul_u128(collateral - fee, leverage as u128);
                if size > u128::MAX / 1_000 || !self.positions.maint_ok(sender) {
                    return Err(PerpError::Overflow);
                }
            }
        }
        let r = self.positions.open(sender, &params, mark, &mut market);
        let ghost m1 = market;
        let _ = self.markets.set(market_id, market);
        proof {
            assert(self.spec_markets().spec_markets() =~= old(self).spec_markets().spec_markets().update(market_id as int, m1));
        }
        r
    }

    /// The outcome of `add_collateral` on `pre`, leaving `post` and answering `r`.
    pub open spec fn add_collateral_post(pre: Self, post: Self, pos_id: u64, amount: u128, r: Result<(), PerpError>) -> bool {
        &&& (post.wf())
        &&& (post.spec_markets() == pre.spec_markets())
        &&& (post.spec_owner() == pre.spec_owner())
        &&& (r == pre.spec_positions().add_collateral_outcome(pos_id, amount))
        &&& (r is Err ==> post.spec_positions() == pre.spec_positions())
        &&& (r is Ok ==> pre.spec_positions().replaced(&post.spec_positions(), pos_id, Position {
            collateral: crate::common::clamp_u128(pre.spec_positions().pos(pos_id).collateral + amount) as u128,
            ..pre.spec_positions().pos(pos_id)
        }))
    }

    /// Adds collateral to an isolated position.
    pub fn add_collateral(&mut self, pos_id: u64, amount: u128) -> (r: Result<(), PerpError>)
        requires
            old(self).wf(),
        ensures
            Self::add_collateral_post(*old(self), *final(self), pos_id, amount, r),
    {
        let ghost s0 = self.positions;
        let r = self.positions.add_collateral(pos_id, amount);
        proof {
            if r is Ok {
                assert forall|a: Address| #[trigger] self.positions.account(a) == s0.account(a) by {
                    assert(self.positions.acct_index(a) == s0.acct_index(a));
                }
            }
        }
        r
    }

    /// The outcome of `set_stop_loss` on `pre`, leaving `post` and answering `r`.
    pub open spec fn set_stop_loss_post(pre: Self, post: Self, sender: Address, pos_id: u64, sl_price: u128, now: u64, r: Result<(), PerpError>) -> bool {
        &&& (post.wf())
        &&& (post.spec_markets() == pre.spec_markets())
        &&& (post.spec_owner() == pre.spec_owner())
        &&& (pre.lookup_error(pos_id) matches Some(e) ==> r == Err::<(), PerpError>(e))
        &&& (r is Err ==> post.spec_positions() == pre.spec_positions())
        &&& (r is Ok ==> pre.spec_positions().owner_check(sender, pos_id) is Ok
            && pre.spec_positions().replaced(&post.spec_positions(), pos_id,
                Position { stop_loss: sl_price, ..pre.spec_positions().pos(pos_id) }))
    }

    /// Sets or clears the stop-loss of `sender`'s position, checked against
    /// the mark price.
    pub fn set_stop_loss(&mut self, sender: Address, pos_id: u64, sl_price: u128, now: u64) -> (r: Result<(), PerpError>)
        requires
            old(self).wf(),
        ensures
            Self::set_stop_loss_post(*old(self), *final(self), sender, pos_id, sl_price, now, r),
    {
        let mark = match self.position_mark(pos_id) {
            Err(e) => return Err(e),
            Ok(p) => p,
        };
        set_stop_loss(&mut self.positions, sender, pos_id, sl_price, mark)
    }

    /// The outcome of `set_take_profit` on `pre`, leaving `post` and answering `r`.
    pub open spec fn set_take_profit_post(pre: Self, post: Self, sender: Address, pos_id: u64, tp_price: u128, now: u64, r: Result<(), PerpError>) -> bool {
        &&& (post.wf())
        &&& (post.spec_markets() == pre.spec_markets())
        &&& (post.spec_owner() == pre.spec_owner())
        &&& (pre.lookup_error(pos_id) matches Some(e) ==> r == Err::<(), PerpError>(e))
        &&& (r is Err ==> post.spec_positions() == pre.spec_positions())
        &&& (r is Ok ==> pre.spec_positions().owner_check(sender, pos_id) is Ok
            && pre.spec_positions().replaced(&post.spec_positions(), pos_id,
                Position { take_profit: tp_price, ..pre.spec_positions().pos(pos_id) }))
    }

    /// Sets or clears the take-profit of `sender`'s position, checked
    /// against the mark price.
    pub fn set_take_profit(&mut self, sender: Address, pos_id: u64, tp_price: u128, now: u64) -> (r: Result<(), PerpError>)
        requires
            old(self).wf(),
        ensures
            Self::set_take_profit_post(*old(self), *final(self), sender, pos_id, tp_price, now, r),
    {
        let mark = match self.position_mark(pos_id) {
            Err(e) => return Err(e),
            Ok(p) => p,
        };
        set_take_profit(&mut self.positions, sender, pos_id, tp_price, mark)
    }

    /// The outcome of `set_trailing_stop` on `pre`, leaving `post` and answering `r`.
    pub open spec fn set_trailing_stop_post(pre: Self, post: Self, sender: Address, pos_id: u64, trail_bps: u64, now: u64, r: Result<(), PerpError>) -> bool {
        &&& (post.wf())
        &&& (post.spec_markets() == pre.spec_markets())
        &&& (post.spec_owner() == pre.spec_owner())
        &&& (pre.lookup_error(pos_id) matches Some(e) ==> r == Err::<(), PerpError>(e))
        &&& (r is Err ==> post.spec_positions() == pre.spec_positions())
        &&& (r is Ok ==> {
            &&& 1 <= trail_bps <= 5_000
            &&& pre.spec_positions().owner_check(sender, pos_id) is Ok
            &&& exists|mark: u128| #![trigger crate::perp::order::trail_sl_spec(pre.spec_positions().pos(pos_id).is_long, mark, trail_bps)]
                pre.spec_positions().replaced(&post.spec_positions(), pos_id, Position {
                trail_bps,
                trail_peak: mark,
                stop_loss: crate::perp::order::trail_sl_spec(pre.spec_positions().pos(pos_id).is_long, mark, trail_bps) as u128,
                ..pre.spec_positions().pos(pos_id)
            })
        })
    }

    /// Sets a trailing stop on `sender`'s position from the mark price.
    pub fn set_trailing_stop(&mut self, sender: Address, pos_id: u64, trail_bps: u64, now: u64) -> (r: Result<(), PerpError>)
        requires
            old(self).wf(),
        ensures
            Self::set_trailing_stop_post(*old(self), *final(self), sender, pos_id, trail_bps, now, r),
    {
        let mark = match self.position_mark(pos_id) {
            Err(e) => return Err(e),
            Ok(p) => p,
        };
        if let Some(p) = self.positions.get_position(pos_id) {
            if trail_bps >= 1 && trail_bps <= 5_000 {
                let is_long = p.is_long;
                let ok = if is_long {
                    mark <= u128::MAX / (10_000 - trail_bps as u128)
                } else {
                    mark <= u128::MAX / (10_000 + trail_bps as u128)
                };
                proof {
                    let k: u128 = if is_long { (10_000 - trail_bps) as u128 } else { (10_000 + trail_bps) as u128 };
                    if mark <= u128::MAX / k {
                        assert(mark * k <= u128::MAX) by (nonlinear_arith) requires mark <= u128::MAX / k, k > 0;
                    }
                }
                if !ok {
                    return Err(PerpError::Overflow);
                }
            }
        }
        let r = set_trailing_stop(&mut self.positions, sender, pos_id, trail_bps, mark);
        r
    }

    /// The outcome of `update_trailing_stop` on `pre`, leaving `post` and answering `r`.
    pub open spec fn update_trailing_stop_post(pre: Self, post: Self, pos_id: u64, now: u64, r: Result<u128, PerpError>) -> bool {
        &&& (post.wf())
        &&& (post.spec_markets() == pre.spec_markets())
        &&& (post.spec_owner() == pre.spec_owner())
        &&& (pre.lookup_error(pos_id) matches Some(e) ==> r == Err::<u128, PerpError>(e))
        &&& (r is Err ==> post.spec_positions() == pre.spec_positions())
        &&& (r matches Ok(new_sl) ==> {
            let p = pre.spec_positions().pos(pos_id);
            &&& !p.closed && p.trail_bps != 0
            &&& exists|mark: u128| #![trigger crate::perp::order::trail_sl_spec(p.is_long, mark, p.trail_bps)] {
                &&& (if p.is_long { mark > p.trail_peak } else { mark < p.trail_peak })
                &&& new_sl == crate::perp::order::trail_sl_spec(p.is_long, mark, p.trail_bps)
                &&& pre.spec_positions().replaced(&post.spec_positions(), pos_id,
                    Position { trail_peak: mark, stop_loss: new_sl, ..p })
            }
        })
    }

    /// Ratchets the trailing stop of a position when the mark price passed
    /// the peak in its favour; returns the new stop-loss.
    pub fn update_trailing_stop(&mut self, pos_id: u64, now: u64) -> (r: Result<u128, PerpError>)
        requires
            old(self).wf(),
        ensures
            Self::update_trailing_stop_post(*old(self), *final(self), pos_id, now, r),
    {
        let mark = match self.position_mark(pos_id) {
            Err(e) => return Err(e),
            Ok(p) => p,
        };
        if let Some(p) = self.positions.get_position(pos_id) {
            if !p.closed && p.trail_bps != 0 {
                let bps = p.trail_bps as u128;
                let ok = if p.is_long {
                    bps <= 10_000 && (bps == 10_000 || mark <= u128::MAX / (10_000 - bps))
                } else {
                    mark <= u128::MAX / (10_000 + bps)
                };
                proof {
                    if ok {
                        if p.is_long {
                            let k: int = 10_000 - bps;
                            if k > 0 {
                                assert(mark * k <= u128::MAX) by (nonlinear_arith)
                                    requires mark <= (u128::MAX as int) / k, k > 0;
                            } else {
                                assert(mark * k == 0) by (nonlinear_arith) requires k == 0;
                            }
                            assert(trail_computable(p.is_long, mark, p.trail_bps));
                        } else {
                            let k: int = 10_000 + bps;
                            assert(mark * k <= u128::MAX) by (nonlinear_arith)
                                requires mark <= (u128::MAX as int) / k, k > 0;
                            assert(trail_computable(p.is_long, mark, p.trail_bps));
                        }
                    }
                }
                if !ok {
                    return Err(PerpError::Overflow);
                }
            }
        }
        update_trailing_stop(&mut self.positions, pos_id, mark)
    }

    /// The mark prices of all markets, by market id (`None` where the
    /// oracle has none).
    fn all_marks(&self) -> (r: Vec<Option<u128>>)
        ensures
            r@.len() == self.spec_markets().spec_markets().len(),
    {
        let n = self.markets.market_count();
        let mut prices: Vec<Option<u128>> = Vec::new();
        let mut mid: u64 = 0;
        while mid < n
            invariant
                n == self.spec_markets().spec_markets().len(),
                0 <= mid <= n,
                prices@.len() == mid,
            decreases n - mid,
        {
            match self.markets.get(mid) {
                Ok(m) => prices.push(self.oracle.mark_price(m.oracle)),
                Err(_) => prices.push(None),
            }
            mid += 1;
        }
        prices
    }

    /// The outcome of `liquidate_cross` on `pre`, leaving `post` and answering `r`.
    pub open spec fn liquidate_cross_post(pre: Self, post: Self, keeper: Address, trader: Address, now: u64, r: Result<LiquidationResult, PerpError>) -> bool {
        &&& (post.wf())
        &&& (post.spec_markets() == pre.spec_markets())
        &&& (post.spec_owner() == pre.spec_owner())
        &&& (({
            let s0 = pre.spec_positions();
            let s = post.spec_positions();
            let bal = s0.balance_of(trader);
            match r {
                Err(e) => s == s0 && (e == PerpError::NotLiquidatable(0) || e == PerpError::Overflow),
                Ok(res) => {
                    &&& cross_liquidatable(s0, trader)
                    &&& res.exit_price == 0
                    &&& res.keeper_bounty == bal * 100 / 10_000
                    &&& res.protocol_fee == bal - bal * 100 / 10_000
                    &&& exists|marks: Seq<Option<u128>>| #![trigger after_cross_liquidation(s0.spec_positions(), s0.ids_of(trader), marks)]
                        marks.len() == pre.spec_markets().spec_markets().len()
                        && s.spec_positions() == after_cross_liquidation(s0.spec_positions(), s0.ids_of(trader), marks)
                    &&& s.spec_fee_balance() == crate::common::clamp_u128(s0.spec_fee_balance() + (bal - bal * 100 / 10_000))
                    &&& s.spec_next_id() == s0.spec_next_id()
                    &&& s0.accounts_same_but(&s, trader)
                    &&& s.account_is(trader, 0, 0, Seq::empty())
                },
            }
        }))
    }

    /// Liquidates `trader`'s whole cross account when its balance is below
    /// its maintenance margin, closing the positions whose market has a
    /// mark price.
    pub fn liquidate_cross(&mut self, keeper: Address, trader: Address, now: u64) -> (r: Result<LiquidationResult, PerpError>)
        requires
            old(self).wf(),
        ensures
            Self::liquidate_cross_post(*old(self), *final(self), keeper, trader, now, r),
    {
        let marks = self.all_marks();
        if !self.positions.maint_ok(trader) || self.positions.cross_balance(trader) > u128::MAX / 100 {
            return Err(PerpError::Overflow);
        }
        liquidate_cross(&mut self.positions, keeper, trader, &marks)
    }

    /// The outcome of `deposit_cross` on `pre`, leaving `post` and answering `r`.
    pub open spec fn deposit_cross_post(pre: Self, post: Self, sender: Address, amount: u128, r: Result<(), PerpError>) -> bool {
        &&& (post.wf())
        &&& (post.spec_markets() == pre.spec_markets())
        &&& (post.spec_owner() == pre.spec_owner())
        &&& (r == (if amount == 0 { Err::<(), PerpError>(PerpError::ZeroAmount) } else { Ok(()) }))
        &&& (r is Err ==> post.spec_positions() == pre.spec_positions())
        &&& (r is Ok ==> {
            &&& pre.spec_positions().same_but_account(&post.spec_positions(), sender)
            &&& post.spec_positions().account_is(sender,
                crate::common::clamp_u128(pre.spec_positions().balance_of(sender) + amount),
                pre.spec_positions().im_of(sender), pre.spec_positions().ids_of(sender))
        })
    }

    /// Credits `amount` to `sender`'s cross account.
    pub fn deposit_cross(&mut self, sender: Address, amount: u128) -> (r: Result<(), PerpError>)
        requires
            old(self).wf(),
        ensures
            Self::deposit_cross_post(*old(self), *final(self), sender, amount, r),
    {
        self.positions.deposit_cross(sender, amount)
    }

    /// The outcome of `withdraw_cross` on `pre`, leaving `post` and answering `r`.
    pub open spec fn withdraw_cross_post(pre: Self, post: Self, sender: Address, amount: u128, r: Result<(), PerpError>) -> bool {
        &&& (post.wf())
        &&& (post.spec_markets() == pre.spec_markets())
        &&& (post.spec_owner() == pre.spec_owner())
        &&& (({
            let s0 = pre.spec_positions();
            let free = if s0.account(sender) is None
                || s0.balance_of(sender) as i128 as int <= s0.maint_of_trader(sender) as i128 as int {
                0
            } else {
                crate::common::clamp_u128(s0.balance_of(sender) - s0.maint_of_trader(sender))
            };
            &&& amount == 0 ==> r == Err::<(), PerpError>(PerpError::ZeroAmount)
            &&& r is Err ==> post.spec_positions() == s0
            &&& r matches Err(PerpError::Overflow) ==> !maint_computable(s0.spec_positions(), s0.ids_of(sender))
            &&& maint_computable(s0.spec_positions(), s0.ids_of(sender)) && amount != 0 ==> r == (if amount > free {
                Err::<(), PerpError>(PerpError::CrossWithdrawTooLarge { free: free as u128, requested: amount })
            } else {
                Ok(())
            })
            &&& r is Ok ==> {
                &&& s0.same_but_account(&post.spec_positions(), sender)
                &&& post.spec_positions().account_is(sender, s0.balance_of(sender) - amount,
                    s0.im_of(sender), s0.ids_of(sender))
            }
        }))
    }

    /// Withdraws free margin from `sender`'s cross account.
    pub fn withdraw_cross(&mut self, sender: Address, amount: u128) -> (r: Result<(), PerpError>)
        requires
            old(self).wf(),
        ensures
            Self::withdraw_cross_post(*old(self), *final(self), sender, amount, r),
    {
        if amount == 0 {
            return Err(PerpError::ZeroAmount);
        }
        if !self.positions.maint_ok(sender) {
            return Err(PerpError::Overflow);
        }
        self.positions.withdraw_cross(sender, amount)
    }

    /// The outcome of `update_funding` on `pre`, leaving `post` and answering `r`.
    pub open spec fn update_funding_post(pre: Self, post: Self, market_id: u64, now: u64, r: Result<u64, PerpError>) -> bool {
        &&& (post.wf())
        &&& (post.spec_positions() == pre.spec_positions())
        &&& (post.spec_owner() == pre.spec_owner())
        &&& (({
            let ms = pre.spec_markets().spec_markets();
            if market_id >= ms.len() {
                r == Err::<u64, PerpError>(PerpError::MarketNotFound(market_id)) && post.spec_markets() == pre.spec_markets()
            } else if !oi_in_range(ms[market_id as int]) {
                r == Err::<u64, PerpError>(PerpError::Overflow) && post.spec_markets() == pre.spec_markets()
            } else {
                &&& r == Ok::<u64, PerpError>((crate::perp::funding::elapsed_spec(ms[market_id as int], now) / 28_800) as u64)
                &&& post.spec_markets().spec_markets() == ms.update(market_id as int,
                    settled_spec(ms[market_id as int], now, 28_800))
            }
        }))
    }

    /// Settles the funding of market `market_id` at `now`; returns the
    /// number of intervals settled.
    pub fn update_funding(&mut self, market_id: u64, now: u64) -> (r: Result<u64, PerpError>)
        requires
            old(self).wf(),
        ensures
            Self::update_funding_post(*old(self), *final(self), market_id, now, r),
    {
        if market_id >= self.markets.market_count() {
            return Err(PerpError::MarketNotFound(market_id));
        }
        let ok = match self.markets.get(market_id) {
            Ok(m) => oi_ok(m),
            Err(_) => false,
        };
        if !ok {
            return Err(PerpError::Overflow);
        }
        self.markets.settle_funding(market_id, now)
    }

    /// A snapshot of market `market_id` at its mark price.
    pub fn market_view(&self, market_id: u64, now: u64) -> (r: Result<MarketView, PerpError>)
        ensures
            ({
                let ms = self.spec_markets().spec_markets();
                &&& market_id >= ms.len() ==> r == Err::<MarketView, PerpError>(PerpError::MarketNotFound(market_id))
                &&& r matches Err(e) ==> e == PerpError::MarketNotFound(market_id) || e == PerpError::ZeroOraclePrice(market_id)
                    || (e == PerpError::Overflow && !oi_in_range(ms[market_id as int]))
                &&& r matches Ok(v) ==> {
                    let m = ms[market_id as int];
                    &&& market_id < ms.len()
                    &&& v.market_id == market_id && v.symbol@ == m.symbol@ && v.oracle == m.oracle
                    &&& v.active == m.active && v.max_leverage == m.max_leverage
                    &&& v.total_long_oi == m.total_long_oi && v.total_short_oi == m.total_short_oi
                    &&& v.oi_imbalance == m.total_long_oi - m.total_short_oi
                    &&& v.cumulative_funding == m.cumulative_funding
                    &&& v.current_funding == crate::perp::funding::funding_rate_spec(m)
                    &&& v.next_funding_in == crate::perp::funding::next_funding_spec(m, now, 28_800)
                }
            }),
    {
        let m = match self.markets.get(market_id) {
            Err(e) => return Err(e),
            Ok(m) => m,
        };
        let mark = match self.oracle.mark_price(m.oracle) {
            None => return Err(PerpError::ZeroOraclePrice(market_id)),
            Some(p) => p,
        };
        if !oi_ok(m) {
            return Err(PerpError::Overflow);
        }
        self.markets.view(market_id, mark, now)
    }

    /// Snapshots of every market, by market id.
    pub fn all_market_views(&self, now: u64) -> (r: Vec<Result<MarketView, PerpError>>)
        ensures
            r@.len() == self.spec_markets().spec_markets().len(),
            forall|i: int| 0 <= i < r@.len() ==> (#[trigger] r@[i] matches Ok(v) ==> v.market_id == i),
    {
        let n = self.markets.market_count();
        let mut out: Vec<Result<MarketView, PerpError>> = Vec::new();
        let mut id: u64 = 0;
        while id < n
            invariant
                n == self.spec_markets().spec_markets().len(),
                0 <= id <= n,
                out@.len() == id,
                forall|i: int| 0 <= i < out@.len() ==> (#[trigger] out@[i] matches Ok(v) ==> v.market_id == i),
            decreases n - id,
        {
            out.push(self.market_view(id, now));
            id += 1;
        }
        out
    }

    /// The snapshot of position `pos_id` at mark price `mark`: none when the
    /// position or its market is missing, or when its figures at `mark`
    /// would overflow.
    pub open spec fn view_at_spec(&self, pos_id: u64, mark: u128) -> Option<PositionView> {
        if !self.priced(pos_id) {
            None
        } else {
            let p = self.spec_positions().pos(pos_id);
            let cum = self.spec_markets().spec_markets()[p.market_id as int].cumulative_funding;
            if health_computable(p, mark, cum) && p.size <= u128::MAX / 1_000 {
                Some(self.spec_positions().view_of(pos_id, mark, cum))
            } else {
                None
            }
        }
    }

    /// A snapshot of position `pos_id` at the mark price `mark`.
    pub fn position_view_at(&self, pos_id: u64, mark: u128) -> (r: Option<PositionView>)
        requires
            self.wf(),
        ensures
            r == self.view_at_spec(pos_id, mark),
    {
        let p = match self.positions.get_position(pos_id) {
            None => return None,
            Some(p) => p,
        };
        let market = match self.markets.get(p.market_id) {
            Err(_) => return None,
            Ok(m) => m,
        };
        if !health_ok(p, mark, market.cumulative_funding) || p.size > u128::MAX / 1_000 {
            return None;
        }
        self.positions.view(pos_id, mark, market)
    }

    /// A snapshot of position `pos_id` at its market's mark price (`None`
    /// when the position, its market or the price is missing, or when its
    /// figures overflow); the oracle's answer decides the price.
    pub fn position_view(&self, pos_id: u64) -> (r: Option<PositionView>)
        requires
            self.wf(),
        ensures
            !self.priced(pos_id) ==> r is None,
            r is None || exists|mark: u128| r == #[trigger] self.view_at_spec(pos_id, mark),
            r matches Some(v) ==> {
                let p = self.spec_positions().pos(pos_id);
                &&& v.position_id == pos_id && v.trader == p.trader && v.market_id == p.market_id
                &&& v.is_long == p.is_long && v.is_cross == p.is_cross && v.collateral == p.collateral
                &&& v.size == p.size && v.entry_price == p.entry_price && v.closed == p.closed
                &&& v.stop_loss == p.stop_loss && v.take_profit == p.take_profit
            },
    {
        let p = match self.positions.get_position(pos_id) {
            None => return None,
            Some(p) => p,
        };
        let market = match self.markets.get(p.market_id) {
            Err(_) => return None,
            Ok(m) => m,
        };
        let mark = match self.oracle.mark_price(market.oracle) {
            None => return None,
            Some(x) => x,
        };
        self.position_view_at(pos_id, mark)
    }

    /// `trader`'s cross account: balance, margin figures, ids, and equity
    /// (the balance plus the unrealised PnL of its open positions whose
    /// market has a mark price, saturating).
    pub fn cross_account_view(&self, trader: Address, now: u64) -> (r: CrossAccountView)
        requires
            self.wf(),
            maint_computable(self.spec_positions().spec_positions(), self.spec_positions().ids_of(trader)),
        ensures
            ({
                let s = self.spec_positions();
                let maint = s.maint_of_trader(trader);
                &&& r.trader == trader
                &&& r.balance == s.balance_of(trader)
                &&& r.maint_margin == maint
                &&& r.liq_threshold == maint
                &&& r.free_margin == (if s.account(trader) is None || s.balance_of(trader) as i128 as int <= maint as i128 as int {
                    0
                } else {
                    crate::common::clamp_u128(s.balance_of(trader) - maint)
                })
                &&& r.liquidatable == cross_liquidatable(s, trader)
                &&& r.position_ids@ == s.ids_of(trader)
            }),
    {
        let pos_ids = self.positions.cross_position_ids(trader);
        let balance = self.positions.cross_balance(trader);
        let maint = self.positions.cross_maint_margin(trader);
        let free = self.positions.free_cross_margin(trader);
        let liquidatable = (balance as i128) < (maint as i128);
        let mut unrealised_sum: i128 = 0;
        let mut k: usize = 0;
        while k < pos_ids.len()
            invariant
                self.wf(),
                0 <= k <= pos_ids@.len(),
            decreases pos_ids@.len() - k,
        {
            let pid = pos_ids[k];
            if let Some(p) = self.positions.get_position(pid) {
                if !p.closed {
                    if let Ok(mkt) = self.markets.get(p.market_id) {
                        if let Some(mark) = self.oracle.mark_price(mkt.oracle) {
                            unrealised_sum = crate::common::sat_add_i128(unrealised_sum, self.positions.unrealised_pnl(pid, mark));
                        }
                    }
                }
            }
            k += 1;
        }
        let equity = crate::common::sat_add_i128(balance as i128, unrealised_sum);
        CrossAccountView {
            trader,
            balance,
            equity,
            maint_margin: maint,
            free_margin: free,
            liq_threshold: maint,
            liquidatable,
            position_ids: pos_ids,
        }
    }

    /// The protocol fees collected.
    pub fn protocol_fee_balance(&self) -> (r: u128)
        ensures
            r == self.spec_positions().spec_fee_balance(),
    {
        self.positions.protocol_fee_balance()
    }

    /// The number of markets.
    pub fn market_count(&self) -> (r: u64)
        ensures
            r == self.spec_markets().spec_markets().len(),
    {
        self.markets.market_count()
    }

    /// The id of the last position opened.
    pub fn next_position_id(&self) -> (r: u64)
        ensures
            r == self.spec_positions().spec_next_id(),
    {
        self.positions.next_position_id()
    }
}

} // verus!
