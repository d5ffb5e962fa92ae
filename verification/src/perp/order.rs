//! Stop-loss, take-profit and trailing stops, and the keeper triggers that
//! close a position when one of them is hit.

use vstd::prelude::*;
use crate::common::{Address, clamp_u128};
use crate::perp::error::PerpError;
use crate::perp::position::{keeper_bounty_for, sl_hit_spec, tp_hit_spec, close_computable, PositionStore};
use crate::perp::types::{CloseResult, Market, Position};

verus! {

/// Whether `sl` is a valid stop-loss at `mark`: below it for a long, above
/// it for a short.
pub open spec fn sl_valid(is_long: bool, mark: u128, sl: u128) -> bool {
    if is_long { sl < mark } else { sl > mark }
}

/// Whether `tp` is a valid take-profit at `mark`: above it for a long,
/// below it for a short.
pub open spec fn tp_valid(is_long: bool, mark: u128, tp: u128) -> bool {
    if is_long { tp > mark } else { tp < mark }
}

/// Checks a stop-loss price against the mark price.
pub fn validate_sl(is_long: bool, mark: u128, sl: u128) -> (r: Result<(), PerpError>)
    ensures
        r == (if sl_valid(is_long, mark, sl) { Ok::<(), PerpError>(()) } else { Err(PerpError::InvalidStopLoss) }),
{
    if is_long && sl >= mark {
        return Err(PerpError::InvalidStopLoss);
    }
    if !is_long && sl <= mark {
        return Err(PerpError::InvalidStopLoss);
    }
    Ok(())
}

/// Checks a take-profit price against the mark price.
pub fn validate_tp(is_long: bool, mark: u128, tp: u128) -> (r: Result<(), PerpError>)
    ensures
        r == (if tp_valid(is_long, mark, tp) { Ok::<(), PerpError>(()) } else { Err(PerpError::InvalidTakeProfit) }),
{
    if is_long && tp <= mark {
        return Err(PerpError::InvalidTakeProfit);
    }
    if !is_long && tp >= mark {
        return Err(PerpError::InvalidTakeProfit);
    }
    Ok(())
}

/// Whether the stop-loss of `p` is hit at `mark`.
pub fn sl_hit(p: &Position, mark: u128) -> (r: bool)
    ensures
        r == sl_hit_spec(*p, mark),
{
    p.stop_loss > 0 && ((p.is_long && mark <= p.stop_loss) || (!p.is_long && mark >= p.stop_loss))
}

/// Whether the take-profit of `p` is hit at `mark`.
pub fn tp_hit(p: &Position, mark: u128) -> (r: bool)
    ensures
        r == tp_hit_spec(*p, mark),
{
    p.take_profit > 0 && ((p.is_long && mark >= p.take_profit) || (!p.is_long && mark <= p.take_profit))
}

/// The trailing stop `trail_bps` away from `mark`: below it for a long,
/// above it for a short.
pub open spec fn trail_sl_spec(is_long: bool, mark: u128, trail_bps: u64) -> int {
    if is_long {
        mark * (10_000 - trail_bps) / 10_000
    } else {
        mark * (10_000 + trail_bps) / 10_000
    }
}

/// `trail_sl_spec` stays within machine range.
pub open spec fn trail_computable(is_long: bool, mark: u128, trail_bps: u64) -> bool {
    if is_long {
        trail_bps <= 10_000 && mark * (10_000 - trail_bps) <= u128::MAX
    } else {
        mark * (10_000 + trail_bps) <= u128::MAX
    }
}

fn compute_trail_sl(is_long: bool, mark: u128, trail_bps: u64) -> (r: u128)
    requires
        trail_computable(is_long, mark, trail_bps),
    ensures
        r == trail_sl_spec(is_long, mark, trail_bps),
{
    if is_long {
        mark * (10_000 - trail_bps as u128) / 10_000
    } else {
        mark * (10_000 + trail_bps as u128) / 10_000
    }
}

/// Sets (or with 0 removes) the stop-loss of `sender`'s open position.
pub fn set_stop_loss(store: &mut PositionStore, sender: Address, pos_id: u64, sl_price: u128, mark: u128)
    -> (r: Result<(), PerpError>)
    requires
        old(store).wf(),
    ensures
        final(store).wf(),
        r == (match old(store).owner_check(sender, pos_id) {
            Err(e) => Err::<(), PerpError>(e),
            Ok(_) => if sl_price != 0 && !sl_valid(old(store).pos(pos_id).is_long, mark, sl_price) {
                Err(PerpError::InvalidStopLoss)
            } else {
                Ok(())
            },
        }),
        r is Err ==> *final(store) == *old(store),
        r is Ok ==> old(store).replaced(&*final(store), pos_id,
            Position { stop_loss: sl_price, ..old(store).pos(pos_id) }),
{
    let p = match store.get_position(pos_id) {
        None => return Err(PerpError::PositionNotFound(pos_id)),
        Some(p) => *p,
    };
    if p.trader != sender {
        return Err(PerpError::NotPositionOwner(pos_id));
    }
    if p.closed {
        return Err(PerpError::AlreadyClosed(pos_id));
    }
    if sl_price != 0 {
        match validate_sl(p.is_long, mark, sl_price) {
            Err(e) => return Err(e),
            Ok(()) => {},
        }
    }
    let mut np = p;
    np.stop_loss = sl_price;
    store.replace_position(pos_id, np);
    Ok(())
}

/// Sets (or with 0 removes) the take-profit of `sender`'s open position.
pub fn set_take_profit(store: &mut PositionStore, sender: Address, pos_id: u64, tp_price: u128, mark: u128)
    -> (r: Result<(), PerpError>)
    requires
        old(store).wf(),
    ensures
        final(store).wf(),
        r == (match old(store).owner_check(sender, pos_id) {
            Err(e) => Err::<(), PerpError>(e),
            Ok(_) => if tp_price != 0 && !tp_valid(old(store).pos(pos_id).is_long, mark, tp_price) {
                Err(PerpError::InvalidTakeProfit)
            } else {
                Ok(())
            },
        }),
        r is Err ==> *final(store) == *old(store),
        r is Ok ==> old(store).replaced(&*final(store), pos_id,
            Position { take_profit: tp_price, ..old(store).pos(pos_id) }),
{
    let p = match store.get_position(pos_id) {
        None => return Err(PerpError::PositionNotFound(pos_id)),
        Some(p) => *p,
    };
    if p.trader != sender {
        return Err(PerpError::NotPositionOwner(pos_id));
    }
    if p.closed {
        return Err(PerpError::AlreadyClosed(pos_id));
    }
    if tp_price != 0 {
        match validate_tp(p.is_long, mark, tp_price) {
            Err(e) => return Err(e),
            Ok(()) => {},
        }
    }
    let mut np = p;
    np.take_profit = tp_price;
    store.replace_position(pos_id, np);
    Ok(())
}

/// Sets a trailing stop `trail_bps` (1 to `MAX_TRAIL_BPS`) wide on
/// `sender`'s open position: the peak becomes `mark` and the stop-loss the
/// trailing level from it.
pub fn set_trailing_stop(store: &mut PositionStore, sender: Address, pos_id: u64, trail_bps: u64, mark: u128)
    -> (r: Result<(), PerpError>)
    requires
        old(store).wf(),
        1 <= trail_bps <= 5_000 && old(store).owner_check(sender, pos_id) is Ok ==>
            trail_computable(old(store).pos(pos_id).is_long, mark, trail_bps),
    ensures
        final(store).wf(),
        r == (if trail_bps == 0 || trail_bps > 5_000 {
            Err::<(), PerpError>(PerpError::InvalidTrailBps)
        } else {
            old(store).owner_check(sender, pos_id)
        }),
        r is Err ==> *final(store) == *old(store),
        r is Ok ==> old(store).replaced(&*final(store), pos_id, Position {
            trail_bps,
            trail_peak: mark,
            stop_loss: trail_sl_spec(old(store).pos(pos_id).is_long, mark, trail_bps) as u128,
            ..old(store).pos(pos_id)
        }),
{
    if trail_bps == 0 || trail_bps > 5_000 {
        return Err(PerpError::InvalidTrailBps);
    }
    let p = match store.get_position(pos_id) {
        None => return Err(PerpError::PositionNotFound(pos_id)),
        Some(p) => *p,
    };
    if p.trader != sender {
        return Err(PerpError::NotPositionOwner(pos_id));
    }
    if p.closed {
        return Err(PerpError::AlreadyClosed(pos_id));
    }
    let init_sl = compute_trail_sl(p.is_long, mark, trail_bps);
    let mut np = p;
    np.trail_bps = trail_bps;
    np.trail_peak = mark;
    np.stop_loss = init_sl;
    store.replace_position(pos_id, np);
    Ok(())
}

/// Ratchets the trailing stop of an open position when `mark` has passed
/// the peak in the position's favour; returns the new stop-loss.
pub fn update_trailing_stop(store: &mut PositionStore, pos_id: u64, mark: u128) -> (r: Result<u128, PerpError>)
    requires
        old(store).wf(),
        old(store).has_pos(pos_id) && !old(store).pos(pos_id).closed && old(store).pos(pos_id).trail_bps != 0 ==>
            trail_computable(old(store).pos(pos_id).is_long, mark, old(store).pos(pos_id).trail_bps),
    ensures
        final(store).wf(),
        ({
            let p = old(store).pos(pos_id);
            let improved = if p.is_long { mark > p.trail_peak } else { mark < p.trail_peak };
            let new_sl = trail_sl_spec(p.is_long, mark, p.trail_bps);
            &&& r == (if !old(store).has_pos(pos_id) {
                Err::<u128, PerpError>(PerpError::PositionNotFound(pos_id))
            } else if p.closed || p.trail_bps == 0 {
                Err(PerpError::InvalidBps)
            } else if !improved {
                Err(PerpError::TrailNotFavourable)
            } else {
                Ok(new_sl as u128)
            })
            &&& r is Err ==> *final(store) == *old(store)
            &&& r is Ok ==> old(store).replaced(&*final(store), pos_id,
                Position { trail_peak: mark, stop_loss: new_sl as u128, ..p })
        }),
{
    let p = match store.get_position(pos_id) {
        None => return Err(PerpError::PositionNotFound(pos_id)),
        Some(p) => *p,
    };
    if p.closed || p.trail_bps == 0 {
        return Err(PerpError::InvalidBps);
    }
    let improved = if p.is_long { mark > p.trail_peak } else { mark < p.trail_peak };
    if !improved {
        return Err(PerpError::TrailNotFavourable);
    }
    let new_sl = compute_trail_sl(p.is_long, mark, p.trail_bps);
    let mut np = p;
    np.trail_peak = mark;
    np.stop_loss = new_sl;
    store.replace_position(pos_id, np);
    Ok(new_sl)
}

/// Which trigger a keeper asks for.
pub open spec fn trigger_fires(which: u8, p: Position, mark: u128) -> bool {
    if which == 0 {
        sl_hit_spec(p, mark) || tp_hit_spec(p, mark)
    } else if which == 1 {
        sl_hit_spec(p, mark)
    } else {
        tp_hit_spec(p, mark)
    }
}

/// The error when the asked-for trigger does not fire.
pub open spec fn trigger_error(which: u8, pos_id: u64) -> PerpError {
    if which == 0 {
        PerpError::NeitherTriggered(pos_id)
    } else if which == 1 {
        PerpError::SLNotTriggered(pos_id)
    } else {
        PerpError::TPNotTriggered(pos_id)
    }
}

/// The outcome of a keeper trigger (`which`: 0 either order, 1 stop-loss,
/// 2 take-profit) on `s0` with market `m0`.
pub open spec fn trigger_outcome(which: u8, s0: PositionStore, s: PositionStore, m0: Market, m: Market, pos_id: u64, mark: u128,
    r: Result<(CloseResult, u128), PerpError>) -> bool {
    let p = s0.pos(pos_id);
    &&& s.wf()
    &&& match r {
        Err(e) => {
            &&& e == if !s0.has_pos(pos_id) {
                    PerpError::PositionNotFound(pos_id)
                } else if p.closed {
                    PerpError::AlreadyClosed(pos_id)
                } else {
                    trigger_error(which, pos_id)
                }
            &&& (s0.has_pos(pos_id) && !p.closed ==> !trigger_fires(which, p, mark))
            &&& s == s0
            &&& m == m0
        },
        Ok((cr, bounty)) => {
            &&& s0.has_pos(pos_id) && !p.closed && trigger_fires(which, p, mark)
            &&& bounty == p.collateral * 5 / 10_000
            &&& cr.exit_price == mark
            &&& s0.fee_adjusted(clamp_u128(s0.spec_fee_balance() - bounty) as u128).closes(&s, m0, m, pos_id, mark,
                (cr.net_pnl, cr.payout, cr.fee))
        },
    }
}

fn trigger_inner(which: u8, store: &mut PositionStore, pos_id: u64, mark: u128, market: &mut Market)
    -> (r: Result<(CloseResult, u128), PerpError>)
    requires
        old(store).wf(),
        old(store).has_pos(pos_id) && !old(store).pos(pos_id).closed ==> {
            &&& old(store).pos(pos_id).collateral * 5 <= u128::MAX
            &&& close_computable(old(store).pos(pos_id), mark, old(market).cumulative_funding)
        },
    ensures
        trigger_outcome(which, *old(store), *final(store), *old(market), *final(market), pos_id, mark, r),
{
    let p = match store.get_position(pos_id) {
        None => return Err(PerpError::PositionNotFound(pos_id)),
        Some(p) => *p,
    };
    if p.closed {
        return Err(PerpError::AlreadyClosed(pos_id));
    }
    let s = sl_hit(&p, mark);
    let t = tp_hit(&p, mark);
    let fires = if which == 0 { s || t } else if which == 1 { s } else { t };
    if !fires {
        return Err(if which == 0 {
            PerpError::NeitherTriggered(pos_id)
        } else if which == 1 {
            PerpError::SLNotTriggered(pos_id)
        } else {
            PerpError::TPNotTriggered(pos_id)
        });
    }
    let bounty = keeper_bounty_for(p.collateral);
    let ghost s0 = *store;
    store.take_from_fees(bounty);
    proof {
        s0.lemma_fee_adjusted(clamp_u128(s0.spec_fee_balance() - bounty) as u128);
    }
    match store.close_unchecked(pos_id, mark, market) {
        Err(e) => Err(e),
        Ok(cr) => Ok((cr, bounty)),
    }
}

/// Closes a position whose stop-loss or take-profit is hit; the keeper's
/// bounty (0.05% of the collateral) is returned beside the close and taken
/// from the fee balance.
pub fn trigger_order(store: &mut PositionStore, keeper: Address, pos_id: u64, mark: u128, market: &mut Market)
    -> (r: Result<(CloseResult, u128), PerpError>)
    requires
        old(store).wf(),
        old(store).has_pos(pos_id) && !old(store).pos(pos_id).closed ==> {
            &&& old(store).pos(pos_id).collateral * 5 <= u128::MAX
            &&& close_computable(old(store).pos(pos_id), mark, old(market).cumulative_funding)
        },
    ensures
        trigger_outcome(0, *old(store), *final(store), *old(market), *final(market), pos_id, mark, r),
{
    trigger_inner(0, store, pos_id, mark, market)
}

/// Closes a position whose stop-loss is hit, with the keeper's bounty.
pub fn trigger_stop_loss(store: &mut PositionStore, keeper: Address, pos_id: u64, mark: u128, market: &mut Market)
    -> (r: Result<(CloseResult, u128), PerpError>)
    requires
        old(store).wf(),
        old(store).has_pos(pos_id) && !old(store).pos(pos_id).closed ==> {
            &&& old(store).pos(pos_id).collateral * 5 <= u128::MAX
            &&& close_computable(old(store).pos(pos_id), mark, old(market).cumulative_funding)
        },
    ensures
        trigger_outcome(1, *old(store), *final(store), *old(market), *final(market), pos_id, mark, r),
{
    trigger_inner(1, store, pos_id, mark, market)
}

/// Closes a position whose take-profit is hit, with the keeper's bounty.
pub fn trigger_take_profit(store: &mut PositionStore, keeper: Address, pos_id: u64, mark: u128, market: &mut Market)
    -> (r: Result<(CloseResult, u128), PerpError>)
    requires
        old(store).wf(),
        old(store).has_pos(pos_id) && !old(store).pos(pos_id).closed ==> {
            &&& old(store).pos(pos_id).collateral * 5 <= u128::MAX
            &&& close_computable(old(store).pos(pos_id), mark, old(market).cumulative_funding)
        },
    ensures
        trigger_outcome(2, *old(store), *final(store), *old(market), *final(market), pos_id, mark, r),
{
    trigger_inner(2, store, pos_id, mark, market)
}

} // verus!
