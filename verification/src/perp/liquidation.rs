//! Liquidation of isolated positions and of whole cross-margin accounts;
//! the liquidator earns 1% of the collateral.

use vstd::prelude::*;
use crate::common::{Address, clamp_u128, clamp_i128, tdiv, lemma_tdiv_bounds};
use crate::perp::error::PerpError;
use crate::perp::funding::funding_cost_for_position;
use crate::perp::position::{
    equity_spec, liquidation_bounty_for, maint_computable, maint_of, oi_removed, pnl_for, PositionStore,
    pnl_spec, div_or_zero,
};
use crate::perp::funding::funding_cost_spec;
use crate::common::{sat_add_i128, sat_sub_i128};
use crate::perp::types::{LiquidationResult, Market, Position};

verus! {

/// An open isolated position is liquidatable when its equity is at or
/// below its maintenance margin.
pub open spec fn isolated_liquidatable(p: Position, mark: u128, cum: i128) -> bool {
    !p.closed && !p.is_cross && equity_spec(p, mark, cum) <= maint_of(p.size)
}

proof fn lemma_tdiv_monotone(x1: int, x2: int, d: int)
    requires
        d > 0,
        x1 <= x2,
    ensures
        tdiv(x1, d) <= tdiv(x2, d),
{
    if x1 >= 0 {
        assert(x1 / d <= x2 / d) by (nonlinear_arith) requires 0 <= x1 <= x2, d > 0;
    } else if x2 < 0 {
        assert((-x2) / d <= (-x1) / d) by (nonlinear_arith) requires 0 < -x2 <= -x1, d > 0;
    } else {
        assert((-x1) / d >= 0) by (nonlinear_arith) requires -x1 > 0, d > 0;
        assert(x2 / d >= 0) by (nonlinear_arith) requires x2 >= 0, d > 0;
    }
}

/// A long's PnL does not fall as the exit price rises; a short's does not
/// rise (prices and size within the signed range).
proof fn lemma_pnl_monotone(is_long: bool, entry: u128, size: u128, lo: u128, hi: u128)
    requires
        entry <= i128::MAX,
        size <= i128::MAX,
        lo <= hi <= i128::MAX,
    ensures
        is_long ==> pnl_spec(is_long, entry, lo, size) <= pnl_spec(is_long, entry, hi, size),
        !is_long ==> pnl_spec(is_long, entry, lo, size) >= pnl_spec(is_long, entry, hi, size),
{
    if !(entry == 0 || size == 0) {
        let e = entry as int;
        let z = size as int;
        assert(((entry as i128) as int) == e);
        assert(((size as i128) as int) == z);
        assert(((lo as i128) as int) == lo as int);
        assert(((hi as i128) as int) == hi as int);
        let (d_small, d_big) = if is_long {
            (clamp_i128(lo - e), clamp_i128(hi - e))
        } else {
            (clamp_i128(e - hi), clamp_i128(e - lo))
        };
        assert(d_small <= d_big);
        assert(d_small * z <= d_big * z) by (nonlinear_arith) requires d_small <= d_big, z >= 0;
        let v_small = clamp_i128(d_small * z);
        let v_big = clamp_i128(d_big * z);
        assert(v_small <= v_big);
        lemma_tdiv_bounds(v_small, e);
        lemma_tdiv_bounds(v_big, e);
        assert(div_or_zero(v_small, e) == tdiv(v_small, e));
        assert(div_or_zero(v_big, e) == tdiv(v_big, e));
        lemma_tdiv_monotone(v_small, v_big, e);
    }
}

/// Liquidatability follows the position's own side: once an isolated long
/// is liquidatable at a mark it stays so at every lower mark, and a short
/// at every higher mark (prices and size within the signed range).
pub proof fn lemma_liquidation_follows_side(p: Position, m1: u128, m2: u128, cum: i128)
    requires
        isolated_liquidatable(p, m1, cum),
        p.entry_price <= i128::MAX,
        p.size <= i128::MAX,
        m1 <= i128::MAX,
        m2 <= i128::MAX,
        p.is_long ==> m2 <= m1,
        !p.is_long ==> m2 >= m1,
    ensures
        isolated_liquidatable(p, m2, cum),
{
    if p.is_long {
        lemma_pnl_monotone(true, p.entry_price, p.size, m2, m1);
    } else {
        lemma_pnl_monotone(false, p.entry_price, p.size, m1, m2);
    }
}

/// A position in profit (a long at or above its entry price, a short at or
/// below it) whose collateral, less the funding it owes, exceeds its
/// maintenance margin is not liquidatable.
pub proof fn lemma_profitable_position_not_liquidatable(p: Position, mark: u128, cum: i128)
    requires
        !p.closed && !p.is_cross,
        p.entry_price <= i128::MAX,
        p.size <= i128::MAX,
        p.collateral <= i128::MAX,
        mark <= i128::MAX,
        p.is_long ==> mark >= p.entry_price,
        !p.is_long ==> mark <= p.entry_price,
        p.collateral - funding_cost_spec(cum, p.funding_entry_rate, p.size) > p.size * 1_000 / 10_000,
    ensures
        !isolated_liquidatable(p, mark, cum),
{
    assert(pnl_spec(p.is_long, p.entry_price, p.entry_price, p.size) == 0) by {
        if !(p.entry_price == 0 || p.size == 0) {
            assert(((p.entry_price as i128) as int) == p.entry_price as int);
            assert(clamp_i128(0) == 0);
            assert(0 * ((p.size as i128) as int) == 0);
        }
    }
    if p.is_long {
        lemma_pnl_monotone(true, p.entry_price, p.size, p.entry_price, mark);
    } else {
        lemma_pnl_monotone(false, p.entry_price, p.size, mark, p.entry_price);
    }
    assert(((p.collateral as i128) as int) == p.collateral as int);
    assert(p.size * 1_000 / 10_000 <= p.size);
}

/// Without saturation (amounts below `2^60`, funding owed below `2^100` in
/// size), an isolated position is liquidatable exactly when its collateral
/// plus the PnL of its own side, `(mark - entry) · size / entry` for a long
/// and `(entry - mark) · size / entry` for a short (rounded toward zero),
/// less the funding it owes, is at most its maintenance margin (10% of
/// the size).
pub proof fn lemma_liquidatable_iff(p: Position, mark: u128, cum: i128)
    requires
        !p.closed && !p.is_cross,
        0 < p.entry_price < 0x1000_0000_0000_0000,
        p.size < 0x1000_0000_0000_0000,
        p.collateral < 0x1000_0000_0000_0000,
        mark < 0x1000_0000_0000_0000,
        -0x10_0000_0000_0000_0000_0000_0000 <= funding_cost_spec(cum, p.funding_entry_rate, p.size)
            <= 0x10_0000_0000_0000_0000_0000_0000,
    ensures
        isolated_liquidatable(p, mark, cum) <==> p.collateral
            + (if p.is_long {
                tdiv((mark - p.entry_price) * p.size, p.entry_price as int)
            } else {
                tdiv((p.entry_price - mark) * p.size, p.entry_price as int)
            })
            - funding_cost_spec(cum, p.funding_entry_rate, p.size) <= p.size * 1_000 / 10_000,
{
    let e = p.entry_price as int;
    let z = p.size as int;
    let m = mark as int;
    let d = if p.is_long { m - e } else { e - m };
    assert(((p.entry_price as i128) as int) == e);
    assert(((p.size as i128) as int) == z);
    assert(((mark as i128) as int) == m);
    assert(((p.collateral as i128) as int) == p.collateral as int);
    assert(-0x1000_0000_0000_0000 < d < 0x1000_0000_0000_0000);
    assert(-0x1000000000000000000000000000000 < d * z < 0x1000000000000000000000000000000) by (nonlinear_arith)
        requires -0x1000_0000_0000_0000 < d < 0x1000_0000_0000_0000, 0 <= z < 0x1000_0000_0000_0000;
    assert(clamp_i128(d) == d);
    assert(clamp_i128(d * z) == d * z);
    lemma_tdiv_bounds(d * z, e);
    if z == 0 {
        assert(d * z == 0);
    }
    assert(pnl_spec(p.is_long, p.entry_price, mark, p.size) == tdiv(d * z, e));
}

/// Whether an isolated position can be liquidated at `mark`.
pub fn is_isolated_liquidatable(p: &Position, mark: u128, market: &Market) -> (r: bool)
    requires
        !p.closed && !p.is_cross ==> p.size * 1_000 <= u128::MAX,
    ensures
        r == isolated_liquidatable(*p, mark, market.cumulative_funding),
{
    if p.closed || p.is_cross {
        return false;
    }
    let pnl = pnl_for(p.is_long, p.entry_price, mark, p.size);
    let fund = funding_cost_for_position(market.cumulative_funding, p.funding_entry_rate, p.size);
    let eq = sat_sub_i128(sat_add_i128(p.collateral as i128, pnl), fund);
    let maint = ((p.size * 1_000) / 10_000) as i128;
    eq <= maint
}

/// A cross account is liquidatable when its balance is below the
/// maintenance margin of its positions (compared as signed values).
pub open spec fn cross_liquidatable(store: PositionStore, trader: Address) -> bool {
    (store.balance_of(trader) as i128) < (store.maint_of_trader(trader) as i128)
}

/// Whether `trader`'s cross account can be liquidated.
pub fn is_cross_liquidatable(store: &PositionStore, trader: Address) -> (r: bool)
    requires
        store.wf(),
        maint_computable(store.spec_positions(), store.ids_of(trader)),
    ensures
        r == cross_liquidatable(*store, trader),
{
    let maint = store.cross_maint_margin(trader);
    let bal = store.cross_balance(trader);
    (bal as i128) < (maint as i128)
}

/// `s` (with market `m`) and `r` are the outcome of liquidating isolated
/// position `pos_id` of `s0` (with market `m0`) at `mark`.
pub open spec fn liquidate_outcome(s0: PositionStore, s: PositionStore, m0: Market, m: Market, pos_id: u64, mark: u128,
    r: Result<LiquidationResult, PerpError>) -> bool {
    {
            let p = s0.pos(pos_id);
            let bounty = p.collateral * 100 / 10_000;
            match r {
                Err(e) => {
                    &&& e == if !s0.has_pos(pos_id) {
                            PerpError::PositionNotFound(pos_id)
                        } else if p.closed {
                            PerpError::AlreadyClosed(pos_id)
                        } else if p.is_cross {
                            PerpError::NotIsolatedPosition
                        } else {
                            PerpError::NotLiquidatable(pos_id)
                        }
                    &&& (s0.has_pos(pos_id) ==> !isolated_liquidatable(p, mark, m0.cumulative_funding))
                    &&& s == s0
                    &&& m == m0
                },
                Ok(res) => {
                    &&& s0.has_pos(pos_id)
                    &&& isolated_liquidatable(p, mark, m0.cumulative_funding)
                    &&& res.exit_price == mark
                    &&& res.keeper_bounty == bounty
                    &&& res.protocol_fee == p.collateral - bounty
                    &&& m == oi_removed(m0, p.is_long, p.size)
                    &&& s.spec_positions() == s0.spec_positions().update(pos_id - 1,
                        Position { closed: true, ..p })
                    &&& s.spec_fee_balance() == clamp_u128(s0.spec_fee_balance() + (p.collateral - bounty))
                    &&& s.spec_next_id() == s0.spec_next_id()
                    &&& forall|a: Address| #[trigger] s.account(a) == s0.account(a)
                },
            }
        }
}

/// Liquidates an isolated position below its maintenance margin: the
/// position closes with no payout, the liquidator's bounty is 1% of the
/// collateral and the rest goes to the protocol fee balance.
pub fn liquidate(store: &mut PositionStore, keeper: Address, pos_id: u64, mark: u128, market: &mut Market)
    -> (r: Result<LiquidationResult, PerpError>)
    requires
        old(store).wf(),
        old(store).has_pos(pos_id) && !old(store).pos(pos_id).closed && !old(store).pos(pos_id).is_cross ==> {
            &&& old(store).pos(pos_id).size * 1_000 <= u128::MAX
            &&& old(store).pos(pos_id).collateral * 100 <= u128::MAX
        },
    ensures
        final(store).wf(),
        liquidate_outcome(*old(store), *final(store), *old(market), *final(market), pos_id, mark, r),
{
    let p = match store.get_position(pos_id) {
        None => return Err(PerpError::PositionNotFound(pos_id)),
        Some(p) => *p,
    };
    if p.closed {
        return Err(PerpError::AlreadyClosed(pos_id));
    }
    if p.is_cross {
        return Err(PerpError::NotIsolatedPosition);
    }
    if !is_isolated_liquidatable(&p, mark, market) {
        return Err(PerpError::NotLiquidatable(pos_id));
    }
    if p.is_long {
        market.total_long_oi = market.total_long_oi.saturating_sub(p.size);
    } else {
        market.total_short_oi = market.total_short_oi.saturating_sub(p.size);
    }
    let mut np = p;
    np.closed = true;
    store.replace_position(pos_id, np);
    let bounty = liquidation_bounty_for(p.collateral);
    let protocol_fee = if p.collateral > bounty { p.collateral - bounty } else { 0 };
    let ghost s1 = *store;
    store.add_to_fees(protocol_fee);
    proof {
        s1.lemma_fee_adjusted(clamp_u128(s1.spec_fee_balance() + protocol_fee) as u128);
    }
    Ok(LiquidationResult { exit_price: mark, keeper_bounty: bounty, protocol_fee })
}

/// Whether `marks` holds a price for market `id`.
pub open spec fn has_mark(marks: Seq<Option<u128>>, id: u64) -> bool {
    id < marks.len() && marks[id as int] is Some
}

/// Whether a cross liquidation over `ids` closes the position at index `j`:
/// it is listed, open, and its market has a price.
pub open spec fn cross_closes(positions: Seq<Position>, ids: Seq<u64>, marks: Seq<Option<u128>>, j: int) -> bool {
    ids.contains((j + 1) as u64) && !positions[j].closed && has_mark(marks, positions[j].market_id)
}

/// The positions after a cross liquidation over `ids`.
pub open spec fn after_cross_liquidation(positions: Seq<Position>, ids: Seq<u64>, marks: Seq<Option<u128>>) -> Seq<Position> {
    Seq::new(positions.len(), |j: int| if cross_closes(positions, ids, marks, j) {
        Position { closed: true, ..positions[j] }
    } else {
        positions[j]
    })
}

/// Liquidates `trader`'s whole cross account when its balance is below its
/// maintenance margin: every listed open position whose market has a price
/// in `marks` (indexed by market id) is closed, the liquidator's bounty is
/// 1% of the balance, the rest goes to the protocol fee balance, and the
/// account is emptied.
pub fn liquidate_cross(store: &mut PositionStore, keeper: Address, trader: Address, marks: &Vec<Option<u128>>)
    -> (r: Result<LiquidationResult, PerpError>)
    requires
        old(store).wf(),
        maint_computable(old(store).spec_positions(), old(store).ids_of(trader)),
        old(store).balance_of(trader) * 100 <= u128::MAX,
    ensures
        final(store).wf(),
        ({
            let bal = old(store).balance_of(trader);
            let bounty = bal * 100 / 10_000;
            match r {
                Err(e) => {
                    &&& e == PerpError::NotLiquidatable(0)
                    &&& !cross_liquidatable(*old(store), trader)
                    &&& *final(store) == *old(store)
                },
                Ok(res) => {
                    &&& cross_liquidatable(*old(store), trader)
                    &&& res.exit_price == 0
                    &&& res.keeper_bounty == bounty
                    &&& res.protocol_fee == bal - bounty
                    &&& final(store).spec_positions() == after_cross_liquidation(old(store).spec_positions(),
                        old(store).ids_of(trader), marks@)
                    &&& final(store).spec_fee_balance() == clamp_u128(old(store).spec_fee_balance() + (bal - bounty))
                    &&& final(store).spec_next_id() == old(store).spec_next_id()
                    &&& old(store).accounts_same_but(&*final(store), trader)
                    &&& final(store).account_is(trader, 0, 0, Seq::empty())
                },
            }
        }),
{
    if !is_cross_liquidatable(store, trader) {
        return Err(PerpError::NotLiquidatable(0));
    }
    let pos_ids = store.cross_position_ids(trader);
    let balance = store.cross_balance(trader);
    let ghost s0 = *store;
    let ghost orig = s0.spec_positions();
    let ghost ids = pos_ids@;
    let mut i: usize = 0;
    while i < pos_ids.len()
        invariant
            store.wf(),
            pos_ids@ == ids,
            orig == s0.spec_positions(),
            0 <= i <= ids.len(),
            store.spec_next_id() == s0.spec_next_id(),
            store.spec_fee_balance() == s0.spec_fee_balance(),
            forall|a: Address| #[trigger] store.account(a) == s0.account(a),
            store.spec_positions() == after_cross_liquidation(orig, ids.subrange(0, i as int), marks@),
        decreases ids.len() - i,
    {
        let pid = pos_ids[i];
        proof {
            assert forall|x: u64| ids.subrange(0, i + 1).contains(x) == (ids.subrange(0, i as int).contains(x) || x == pid) by {
                if ids.subrange(0, i + 1).contains(x) {
                    let k = choose|k: int| 0 <= k < i + 1 && #[trigger] ids.subrange(0, i + 1)[k] == x;
                    if k < i {
                        assert(ids.subrange(0, i as int)[k] == x);
                    }
                }
                if ids.subrange(0, i as int).contains(x) {
                    let k = choose|k: int| 0 <= k < i && #[trigger] ids.subrange(0, i as int)[k] == x;
                    assert(ids.subrange(0, i + 1)[k] == x);
                }
                if x == pid {
                    assert(ids.subrange(0, i + 1)[i as int] == x);
                }
            }
        }
        let ghost prev = store.spec_positions();
        match store.get_position(pid) {
            Some(pr) => {
                let p = *pr;
                let market_id = p.market_id;
                let priced = market_id < marks.len() as u64 && marks[market_id as usize].is_some();
                if !p.closed && priced {
                    let mut np = p;
                    np.closed = true;
                    store.replace_position(pid, np);
                }
            },
            None => {},
        }
        proof {
            let next = after_cross_liquidation(orig, ids.subrange(0, i + 1), marks@);
            store.lemma_wf_len();
            assert forall|j: int| 0 <= j < orig.len() implies #[trigger] store.spec_positions()[j] == next[j] by {
                assert(ids.subrange(0, i + 1).contains((j + 1) as u64)
                    == (ids.subrange(0, i as int).contains((j + 1) as u64) || (j + 1) as u64 == pid));
                assert(prev[j] == after_cross_liquidation(orig, ids.subrange(0, i as int), marks@)[j]);
            }
            assert(store.spec_positions() =~= next);
        }
        i += 1;
    }
    proof {
        assert(ids.subrange(0, ids.len() as int) =~= ids);
    }
    let bounty = liquidation_bounty_for(balance);
    let safe_bounty = if bounty <= balance { bounty } else { 0 };
    let remaining = balance - safe_bounty;
    let ghost s2 = *store;
    store.clear_account(trader);
    let ghost s3 = *store;
    store.add_to_fees(remaining);
    proof {
        s3.lemma_fee_adjusted(clamp_u128(s3.spec_fee_balance() + remaining) as u128);
    }
    Ok(LiquidationResult { exit_price: 0, keeper_bounty: safe_bounty, protocol_fee: remaining })
}

} // verus!
