//! Positions: the PnL formula, bounties, and the position store with its
//! cross-margin ledger (open, close, partial close, add collateral).

use vstd::prelude::*;
use crate::common::{Address, clamp_i128, clamp_u128, tdiv, sat_add_i128, sat_sub_i128, sat_mul_i128, sat_mul_u128, checked_div_i128};
use crate::perp::error::PerpError;
use crate::perp::funding::{funding_cost_for_position, funding_cost_spec};
use crate::perp::types::{CloseResult, CrossAccount, Market, OpenPositionParams, OpenPositionResult, Position, PositionView};

verus! {

/// `x / d` rounding toward zero, or zero where `checked_div` gives `None`.
pub open spec fn div_or_zero(x: int, d: int) -> int {
    if d == 0 || tdiv(x, d) > i128::MAX {
        0
    } else {
        tdiv(x, d)
    }
}

/// Signed PnL of a position: `(exit - entry) * size / entry` for a long,
/// `(entry - exit) * size / entry` for a short, on the signed casts of the
/// prices, with saturating difference and product; zero for a zero entry
/// price or size.
pub open spec fn pnl_spec(is_long: bool, entry: u128, exit: u128, size: u128) -> int {
    if entry == 0 || size == 0 {
        0
    } else {
        let e = (entry as i128) as int;
        let x = (exit as i128) as int;
        let diff = if is_long { clamp_i128(x - e) } else { clamp_i128(e - x) };
        div_or_zero(clamp_i128(diff * ((size as i128) as int)), e)
    }
}

/// Signed PnL of a position between entry and exit price.
pub fn pnl_for(is_long: bool, entry: u128, exit: u128, size: u128) -> (r: i128)
    ensures
        r == pnl_spec(is_long, entry, exit, size),
{
    if entry == 0 || size == 0 {
        return 0;
    }
    let diff: i128 = if is_long {
        sat_sub_i128(exit as i128, entry as i128)
    } else {
        sat_sub_i128(entry as i128, exit as i128)
    };
    let prod = sat_mul_i128(diff, size as i128);
    match checked_div_i128(prod, entry as i128) {
        Some(v) => v,
        None => 0,
    }
}

/// Keeper bounty for triggering an order: 0.05% of the collateral.
pub fn keeper_bounty_for(collateral: u128) -> (r: u128)
    requires
        collateral * 5 <= u128::MAX,
    ensures
        r == collateral * 5 / 10_000,
{
    (collateral * 5) / 10_000
}

/// Liquidation bounty: 1% of the collateral.
pub fn liquidation_bounty_for(collateral: u128) -> (r: u128)
    requires
        collateral * 100 <= u128::MAX,
    ensures
        r == collateral * 100 / 10_000,
{
    (collateral * 100) / 10_000
}

/// The protocol fee taken on opening with `collateral` (0.10%).
pub open spec fn open_fee(collateral: u128) -> int {
    collateral * 10 / 10_000
}

/// The notional size opened with `collateral` at `leverage`: the collateral
/// after the fee, times the leverage, saturating.
pub open spec fn open_size(collateral: u128, leverage: u64) -> int {
    clamp_u128((collateral - open_fee(collateral)) * leverage)
}

/// The ids other than `pos_id`.
pub open spec fn other_ids(pos_id: u64) -> spec_fn(u64) -> bool {
    |x: u64| x != pos_id
}

/// The maintenance margin of a position of `size` (10%).
pub open spec fn maint_of(size: u128) -> int {
    size * 1_000 / 10_000
}

/// The maintenance margin summed over the live positions among `ids`.
pub open spec fn maint_sum(positions: Seq<Position>, ids: Seq<u64>) -> int
    decreases ids.len(),
{
    if ids.len() == 0 {
        0
    } else {
        let id = ids.last();
        let rest = maint_sum(positions, ids.drop_last());
        if 1 <= id <= positions.len() && !positions[id - 1].closed {
            rest + maint_of(positions[id - 1].size)
        } else {
            rest
        }
    }
}

/// Every live position among `ids` has a size whose margin can be computed,
/// and so has their sum.
pub open spec fn maint_computable(positions: Seq<Position>, ids: Seq<u64>) -> bool {
    &&& forall|k: int| #![trigger ids[k]] 0 <= k < ids.len() && 1 <= ids[k] <= positions.len() && !positions[ids[k] - 1].closed
        ==> positions[ids[k] - 1].size * 1_000 <= u128::MAX
    &&& maint_sum(positions, ids) <= u128::MAX
}

proof fn lemma_maint_sum_prefix(positions: Seq<Position>, ids: Seq<u64>, i: int)
    requires
        0 <= i <= ids.len(),
    ensures
        maint_sum(positions, ids.subrange(0, i)) <= maint_sum(positions, ids),
        0 <= maint_sum(positions, ids.subrange(0, i)),
    decreases ids.len() - i,
{
    if i == ids.len() {
        assert(ids.subrange(0, i) =~= ids);
        lemma_maint_sum_nonneg(positions, ids);
    } else {
        lemma_maint_sum_prefix(positions, ids, i + 1);
        assert(ids.subrange(0, i + 1).drop_last() =~= ids.subrange(0, i));
        lemma_maint_sum_nonneg(positions, ids.subrange(0, i));
    }
}

proof fn lemma_maint_sum_nonneg(positions: Seq<Position>, ids: Seq<u64>)
    ensures
        0 <= maint_sum(positions, ids),
    decreases ids.len(),
{
    if ids.len() > 0 {
        lemma_maint_sum_nonneg(positions, ids.drop_last());
    }
}

/// The PnL of closing `size` of `p` at `exit`, net of the funding owed on
/// that size (saturating).
pub open spec fn net_pnl_spec(p: Position, exit: u128, size: u128, cum: i128) -> int {
    clamp_i128(pnl_spec(p.is_long, p.entry_price, exit, size) - funding_cost_spec(cum, p.funding_entry_rate, size))
}

/// What an isolated close hands back before the fee: the collateral plus
/// the net PnL, clamped at zero.
pub open spec fn raw_payout(collateral: u128, net: int) -> int {
    clamp_u128(collateral + net)
}

/// The protocol fee on a payout (0.10%).
pub open spec fn close_fee(raw: int) -> int {
    raw * 10 / 10_000
}

/// `m` with `size` taken off the open interest of its side (saturating).
pub open spec fn oi_removed(m: Market, is_long: bool, size: u128) -> Market {
    if is_long {
        Market { total_long_oi: clamp_u128(m.total_long_oi - size) as u128, ..m }
    } else {
        Market { total_short_oi: clamp_u128(m.total_short_oi - size) as u128, ..m }
    }
}

/// `m` with `size` added to the open interest of its side (saturating).
pub open spec fn oi_added(m: Market, is_long: bool, size: u128) -> Market {
    if is_long {
        Market { total_long_oi: clamp_u128(m.total_long_oi + size) as u128, ..m }
    } else {
        Market { total_short_oi: clamp_u128(m.total_short_oi + size) as u128, ..m }
    }
}

/// A full close of `p` at `exit` stays within machine range: the fee on an
/// isolated payout can be computed.
pub open spec fn close_computable(p: Position, exit: u128, cum: i128) -> bool {
    p.is_cross || raw_payout(p.collateral, net_pnl_spec(p, exit, p.size, cum)) * 10 <= u128::MAX
}

/// The equity of an isolated position at `mark`: collateral plus PnL minus
/// funding owed (saturating, on the signed cast of the collateral).
pub open spec fn equity_spec(p: Position, mark: u128, cum: i128) -> int {
    clamp_i128(clamp_i128(((p.collateral as i128) as int) + pnl_spec(p.is_long, p.entry_price, mark, p.size))
        - funding_cost_spec(cum, p.funding_entry_rate, p.size))
}

/// Health in basis points of an open isolated position with collateral:
/// zero at or below the maintenance margin, else equity over collateral,
/// capped at 10000.
pub open spec fn health_of(p: Position, mark: u128, cum: i128) -> int {
    if p.closed || p.is_cross || p.collateral == 0 {
        0
    } else {
        let eq = equity_spec(p, mark, cum);
        if eq <= 0 || eq <= maint_of(p.size) {
            0
        } else if eq * 10_000 / (p.collateral as int) > 10_000 {
            10_000
        } else {
            eq * 10_000 / (p.collateral as int)
        }
    }
}

/// `health_of` stays within machine range.
pub open spec fn health_computable(p: Position, mark: u128, cum: i128) -> bool {
    !(p.closed || p.is_cross || p.collateral == 0) ==> {
        &&& p.size * 1_000 <= u128::MAX
        &&& equity_spec(p, mark, cum) > maint_of(p.size) ==> equity_spec(p, mark, cum) * 10_000 <= u128::MAX
    }
}

/// The oracle price at which an open isolated position is liquidated:
/// `entry ± entry * (maintenance - collateral + funding) / size` (plus for
/// a long), in saturating signed arithmetic, floored at zero.
pub open spec fn liq_price_of(p: Position, cum: i128) -> int {
    if p.closed || p.is_cross || p.trader.0@ == Seq::new(20, |i: int| 0u8) || (p.size as i128) == 0 {
        0
    } else {
        let funding = funding_cost_spec(cum, p.funding_entry_rate, p.size);
        let numerator = clamp_i128(clamp_i128(maint_of(p.size) - ((p.collateral as i128) as int)) + funding);
        let entry = (p.entry_price as i128) as int;
        let delta = div_or_zero(clamp_i128(entry * numerator), (p.size as i128) as int);
        let liq = if p.is_long { clamp_i128(entry + delta) } else { clamp_i128(entry - delta) };
        if liq > 0 { liq } else { 0 }
    }
}

/// For an open isolated position of a trader, with a size, whose collateral
/// exceeds its maintenance margin and that owes no funding, the liquidation
/// price lies on the
/// losing side of the entry price: at or below it for a long, at or above
/// it for a short.
pub proof fn lemma_liq_price_on_losing_side(p: Position, cum: i128)
    requires
        !p.closed && !p.is_cross,
        p.trader.0@ != Seq::new(20, |i: int| 0u8),
        p.entry_price <= i128::MAX,
        0 < p.size <= i128::MAX,
        p.collateral <= i128::MAX,
        p.collateral > p.size * 1_000 / 10_000,
        funding_cost_spec(cum, p.funding_entry_rate, p.size) == 0,
    ensures
        p.is_long ==> liq_price_of(p, cum) <= p.entry_price,
        !p.is_long ==> liq_price_of(p, cum) >= p.entry_price,
{
    if !(p.trader.0@ == Seq::new(20, |i: int| 0u8) || (p.size as i128) == 0) {
        let s = p.size as int;
        let e = p.entry_price as int;
        let n = p.size * 1_000 / 10_000 - p.collateral;
        assert(p.size * 1_000 / 10_000 <= s);
        assert(((p.collateral as i128) as int) == p.collateral);
        assert(((p.entry_price as i128) as int) == e);
        assert(((p.size as i128) as int) == s);
        assert(clamp_i128(clamp_i128(maint_of(p.size) - ((p.collateral as i128) as int)) + 0) == n);
        assert(e * n <= 0) by (nonlinear_arith) requires e >= 0, n < 0;
        let prod = clamp_i128(e * n);
        assert(prod <= 0);
        crate::common::lemma_tdiv_bounds(prod, s);
        assert(div_or_zero(prod, s) <= 0);
    }
}

/// With the same conditions and no saturation (amounts below `2^60`, a
/// positive entry and size, a positive liquidation price), the equity of
/// the position at its liquidation price is the maintenance margin up to
/// rounding: at least the margin, and above it by at most
/// `(size + entry) / entry`.
pub proof fn lemma_equity_at_liq_price(p: Position, cum: i128)
    requires
        !p.closed && !p.is_cross,
        p.trader.0@ != Seq::new(20, |i: int| 0u8),
        0 < p.entry_price < 0x1000_0000_0000_0000,
        0 < p.size < 0x1000_0000_0000_0000,
        p.collateral < 0x1000_0000_0000_0000,
        p.collateral > p.size * 1_000 / 10_000,
        funding_cost_spec(cum, p.funding_entry_rate, p.size) == 0,
        liq_price_of(p, cum) > 0,
    ensures
        ({
            let liq = liq_price_of(p, cum);
            let e = p.entry_price as int;
            let s = p.size as int;
            let pnl = if p.is_long { tdiv((liq - e) * s, e) } else { tdiv((e - liq) * s, e) };
            let eq = p.collateral + pnl;
            let maint = s * 1_000 / 10_000;
            &&& maint <= eq
            &&& (eq - maint) * e <= s + e
        }),
{
    let s = p.size as int;
    let e = p.entry_price as int;
    let c = p.collateral as int;
    let mt = s * 1_000 / 10_000;
    let a = c - mt;
    assert(((p.collateral as i128) as int) == c);
    assert(((p.entry_price as i128) as int) == e);
    assert(((p.size as i128) as int) == s);
    assert(clamp_i128(clamp_i128(maint_of(p.size) - ((p.collateral as i128) as int)) + 0) == -a);
    assert(e * a < 0x1000000000000000000000000000000) by (nonlinear_arith)
        requires 0 < e < 0x1000_0000_0000_0000, 0 < a < 0x1000_0000_0000_0000;
    assert(e * (-a) == -(e * a)) by (nonlinear_arith);
    assert(e * a > 0) by (nonlinear_arith) requires e > 0, a > 0;
    assert(clamp_i128(e * (-a)) == -(e * a));
    let q = (e * a) / s;
    assert(tdiv(-(e * a), s) == -q);
    assert(q * s <= e * a < q * s + s && q >= 0) by (nonlinear_arith)
        requires s > 0, e * a > 0, q == (e * a) / s;
    assert(q <= e * a) by (nonlinear_arith) requires s >= 1, q * s <= e * a, q >= 0;
    assert(div_or_zero(-(e * a), s) == -q);
    let liq = liq_price_of(p, cum);
    if p.is_long {
        assert(liq == e - q);
    } else {
        assert(liq == e + q);
    }
    let pnl = if p.is_long { tdiv((liq - e) * s, e) } else { tdiv((e - liq) * s, e) };
    assert(pnl == tdiv(-(q * s), e)) by {
        if p.is_long {
            assert((liq - e) * s == -(q * s)) by (nonlinear_arith) requires liq == e - q;
        } else {
            assert((e - liq) * s == -(q * s)) by (nonlinear_arith) requires liq == e + q;
        }
    }
    let r = (q * s) / e;
    assert(q * s >= 0) by (nonlinear_arith) requires q >= 0, s > 0;
    assert(pnl == -r);
    assert(r <= a && r * e + e > q * s) by (nonlinear_arith)
        requires e > 0, q * s >= 0, q * s <= e * a, r == (q * s) / e;
    assert((a - r) * e <= s + e) by (nonlinear_arith)
        requires r * e + e > q * s, e * a < q * s + s;
}

/// Whether the stop-loss of `p` is hit at `mark`.
pub open spec fn sl_hit_spec(p: Position, mark: u128) -> bool {
    p.stop_loss > 0 && ((p.is_long && mark <= p.stop_loss) || (!p.is_long && mark >= p.stop_loss))
}

/// Whether the take-profit of `p` is hit at `mark`.
pub open spec fn tp_hit_spec(p: Position, mark: u128) -> bool {
    p.take_profit > 0 && ((p.is_long && mark >= p.take_profit) || (!p.is_long && mark <= p.take_profit))
}

/// The checks of `open` before any state changes pass.
pub open spec fn open_checks_pass(params: OpenPositionParams, mark_price: u128, m: Market) -> bool {
    params.collateral != 0 && params.leverage != 0 && params.leverage <= m.max_leverage && mark_price != 0
}

/// The error of the checks of `open` that come before any state change.
pub open spec fn open_check_error(params: OpenPositionParams, mark_price: u128, m: Market) -> PerpError {
    if params.collateral == 0 {
        PerpError::ZeroCollateral
    } else if params.leverage == 0 {
        PerpError::ZeroLeverage
    } else if params.leverage > m.max_leverage {
        PerpError::LeverageTooHigh { got: params.leverage, max: m.max_leverage }
    } else {
        PerpError::ZeroOraclePrice(params.market_id)
    }
}

/// The cross balance an open must find: the collateral, the margin already
/// owed and the new position's margin (saturating sums).
pub open spec fn cross_needed(collateral: u128, maint_existing: int, size: int) -> int {
    clamp_u128(clamp_u128(collateral + maint_existing) + maint_of(size as u128))
}

/// Positions and cross-margin accounts, with the protocol's fee balance.
/// Position `id` (from 1) is stored at index `id - 1`; each trader has at
/// most one cross account.
#[derive(Debug)]
pub struct PositionStore {
    positions: Vec<Position>,
    cross_traders: Vec<Address>,
    cross_accounts: Vec<CrossAccount>,
    next_pos_id: u64,
    protocol_fee_balance: u128,
}

impl PositionStore {
    /// The stored positions, position `id` at index `id - 1`.
    pub closed spec fn spec_positions(&self) -> Seq<Position> {
        self.positions@
    }

    /// The traders that hold a cross account, in order of creation.
    pub closed spec fn spec_traders(&self) -> Seq<Seq<u8>> {
        self.cross_traders@.map_values(|a: Address| a.0@)
    }

    /// The cross accounts, parallel to `spec_traders`.
    pub closed spec fn spec_accounts(&self) -> Seq<CrossAccount> {
        self.cross_accounts@
    }

    /// The protocol fees collected so far.
    pub closed spec fn spec_fee_balance(&self) -> u128 {
        self.protocol_fee_balance
    }

    /// The id of the last position opened (0 before any).
    pub closed spec fn spec_next_id(&self) -> u64 {
        self.next_pos_id
    }

    /// The store's invariant: one position per id issued so far, and one
    /// account per trader.
    pub closed spec fn wf(&self) -> bool {
        &&& self.positions@.len() == self.next_pos_id
        &&& self.cross_traders@.len() == self.cross_accounts@.len()
        &&& forall|i: int, j: int| 0 <= i < j < self.cross_traders@.len()
            ==> #[trigger] self.cross_traders@[i].0@ != #[trigger] self.cross_traders@[j].0@
    }

    /// One position per id issued.
    pub proof fn lemma_wf_len(&self)
        requires
            self.wf(),
        ensures
            self.spec_positions().len() == self.spec_next_id(),
    {
    }

    /// Whether position `id` exists.
    pub open spec fn has_pos(&self, id: u64) -> bool {
        1 <= id <= self.spec_positions().len()
    }

    /// Position `id` (meaningful where `has_pos(id)`).
    pub open spec fn pos(&self, id: u64) -> Position {
        self.spec_positions()[id - 1]
    }

    /// The index of `trader`'s cross account, or -1.
    pub open spec fn acct_index(&self, trader: Address) -> int {
        if exists|i: int| 0 <= i < self.spec_traders().len() && self.spec_traders()[i] == trader.0@ {
            choose|i: int| 0 <= i < self.spec_traders().len() && self.spec_traders()[i] == trader.0@
        } else {
            -1
        }
    }

    /// `trader`'s cross account, if any.
    pub open spec fn account(&self, trader: Address) -> Option<CrossAccount> {
        if self.acct_index(trader) >= 0 {
            Some(self.spec_accounts()[self.acct_index(trader)])
        } else {
            None
        }
    }

    /// The cross balance of `trader` (zero without an account).
    pub open spec fn balance_of(&self, trader: Address) -> int {
        match self.account(trader) {
            Some(a) => a.balance as int,
            None => 0,
        }
    }

    /// The position ids of `trader`'s cross account (empty without one).
    pub open spec fn ids_of(&self, trader: Address) -> Seq<u64> {
        match self.account(trader) {
            Some(a) => a.pos_ids@,
            None => Seq::empty(),
        }
    }

    /// The maintenance margin owed by `trader`'s cross account.
    pub open spec fn maint_of_trader(&self, trader: Address) -> int {
        maint_sum(self.spec_positions(), self.ids_of(trader))
    }

    /// An empty store.
    pub fn new() -> (r: Self)
        ensures
            r.wf(),
            r.spec_positions().len() == 0,
            r.spec_traders().len() == 0,
            r.spec_next_id() == 0,
            r.spec_fee_balance() == 0,
    {
        PositionStore {
            positions: Vec::new(),
            cross_traders: Vec::new(),
            cross_accounts: Vec::new(),
            next_pos_id: 0,
            protocol_fee_balance: 0,
        }
    }

    /// The protocol fees collected so far.
    pub fn protocol_fee_balance(&self) -> (r: u128)
        ensures
            r == self.spec_fee_balance(),
    {
        self.protocol_fee_balance
    }

    /// The id of the last position opened.
    pub fn next_position_id(&self) -> (r: u64)
        ensures
            r == self.spec_next_id(),
    {
        self.next_pos_id
    }

    /// Position `pos_id`, if it exists.
    pub fn get_position(&self, pos_id: u64) -> (r: Option<&Position>)
        requires
            self.wf(),
        ensures
            r == (if self.has_pos(pos_id) { Some(&self.pos(pos_id)) } else { None }),
    {
        if pos_id >= 1 && pos_id <= self.positions.len() as u64 {
            Some(&self.positions[(pos_id - 1) as usize])
        } else {
            None
        }
    }

    /// The index of `trader`'s cross account.
    fn find_account(&self, trader: &Address) -> (r: Option<usize>)
        requires
            self.wf(),
        ensures
            match r {
                Some(i) => i == self.acct_index(*trader) && i < self.spec_accounts().len(),
                None => self.acct_index(*trader) == -1,
            },
    {
        let mut i: usize = 0;
        while i < self.cross_traders.len()
            invariant
                self.wf(),
                0 <= i <= self.cross_traders@.len(),
                forall|j: int| 0 <= j < i ==> self.spec_traders()[j] != trader.0@,
            decreases self.cross_traders@.len() - i,
        {
            if self.cross_traders[i] == *trader {
                proof {
                    assert(self.spec_traders()[i as int] == trader.0@);
                    let k = self.acct_index(*trader);
                    assert(0 <= k < self.spec_traders().len() && self.spec_traders()[k] == trader.0@);
                    if k != i as int {
                        if k < i as int {
                            assert(self.cross_traders@[k].0@ != self.cross_traders@[i as int].0@);
                        } else {
                            assert(self.cross_traders@[i as int].0@ != self.cross_traders@[k].0@);
                        }
                    }
                }
                return Some(i);
            }
            i += 1;
        }
        None
    }

    /// The index of `trader`'s cross account, creating an empty one if needed.
    fn ensure_account(&mut self, trader: Address) -> (r: usize)
        requires
            old(self).wf(),
        ensures
            final(self).wf(),
            r == final(self).acct_index(trader),
            r < final(self).spec_accounts().len(),
            final(self).spec_positions() == old(self).spec_positions(),
            final(self).spec_next_id() == old(self).spec_next_id(),
            final(self).spec_fee_balance() == old(self).spec_fee_balance(),
            old(self).acct_index(trader) >= 0 ==> {
                &&& final(self).spec_traders() == old(self).spec_traders()
                &&& final(self).spec_accounts() == old(self).spec_accounts()
            },
            old(self).acct_index(trader) < 0 ==> {
                &&& final(self).spec_traders() == old(self).spec_traders().push(trader.0@)
                &&& final(self).spec_accounts().len() == old(self).spec_accounts().len() + 1
                &&& final(self).spec_accounts().drop_last() == old(self).spec_accounts()
                &&& final(self).spec_accounts().last().balance == 0
                &&& final(self).spec_accounts().last().initial_margin == 0
                &&& final(self).spec_accounts().last().pos_ids@.len() == 0
            },
            forall|a: Address| a.0@ != trader.0@ ==> #[trigger] final(self).account(a) == old(self).account(a),
            final(self).account(trader) == Some(final(self).spec_accounts()[r as int]),
            final(self).balance_of(trader) == old(self).balance_of(trader),
            final(self).im_of(trader) == old(self).im_of(trader),
            final(self).ids_of(trader) == old(self).ids_of(trader),
    {
        match self.find_account(&trader) {
            Some(i) => i,
            None => {
                let ghost old_traders = self.spec_traders();
                self.cross_traders.push(trader);
                self.cross_accounts.push(CrossAccount { balance: 0, initial_margin: 0, pos_ids: Vec::new() });
                let i = self.cross_traders.len() - 1;
                proof {
                    assert(self.spec_traders() =~= old_traders.push(trader.0@));
                    assert(self.spec_accounts().drop_last() =~= old(self).spec_accounts());
                    assert(self.spec_traders()[i as int] == trader.0@);
                    assert forall|a: int, b: int| 0 <= a < b < self.cross_traders@.len() implies
                        #[trigger] self.cross_traders@[a].0@ != #[trigger] self.cross_traders@[b].0@ by {
                        if b == i as int {
                            assert(old_traders[a] == old(self).cross_traders@[a].0@);
                            assert(self.cross_traders@[a] == old(self).cross_traders@[a]);
                            assert(old_traders[a] != trader.0@);
                            assert(self.cross_traders@[b] == trader);
                        } else {
                            assert(self.cross_traders@[a] == old(self).cross_traders@[a]);
                            assert(self.cross_traders@[b] == old(self).cross_traders@[b]);
                            assert(old(self).cross_traders@[a].0@ != old(self).cross_traders@[b].0@);
                        }
                    }
                    assert(self.wf());
                    let k = self.acct_index(trader);
                    assert(0 <= k < self.spec_traders().len() && self.spec_traders()[k] == trader.0@);
                    if k != i as int {
                        assert(old_traders[k] == trader.0@);
                    }
                    assert(self.spec_accounts()[i as int].pos_ids@ =~= Seq::<u64>::empty());
                    assert forall|a: Address| a.0@ != trader.0@ implies #[trigger] self.account(a) == old(self).account(a) by {
                        if old(self).acct_index(a) >= 0 {
                            let j = old(self).acct_index(a);
                            assert(self.spec_traders()[j] == a.0@);
                            let k2 = self.acct_index(a);
                            if k2 != j {
                                if k2 < j {
                                    assert(self.cross_traders@[k2].0@ != self.cross_traders@[j].0@);
                                } else {
                                    assert(self.cross_traders@[j].0@ != self.cross_traders@[k2].0@);
                                }
                            }
                        } else {
                            if self.acct_index(a) >= 0 {
                                let k2 = self.acct_index(a);
                                if k2 < old_traders.len() {
                                    assert(old_traders[k2] == a.0@);
                                }
                            }
                        }
                    }
                }
                i
            },
        }
    }

    /// The cross balance of `trader` (zero without an account).
    pub fn cross_balance(&self, trader: Address) -> (r: u128)
        requires
            self.wf(),
        ensures
            r == self.balance_of(trader),
    {
        match self.find_account(&trader) {
            Some(i) => self.cross_accounts[i].balance,
            None => 0,
        }
    }

    /// The ids of `trader`'s open cross positions.
    pub fn cross_position_ids(&self, trader: Address) -> (r: Vec<u64>)
        requires
            self.wf(),
        ensures
            r@ == self.ids_of(trader),
    {
        match self.find_account(&trader) {
            Some(i) => {
                let mut out: Vec<u64> = Vec::new();
                let ids = &self.cross_accounts[i].pos_ids;
                let mut k: usize = 0;
                while k < ids.len()
                    invariant
                        0 <= k <= ids@.len(),
                        out@ == ids@.subrange(0, k as int),
                    decreases ids@.len() - k,
                {
                    out.push(ids[k]);
                    k += 1;
                    proof {
                        assert(out@ =~= ids@.subrange(0, k as int));
                    }
                }
                proof {
                    assert(ids@.subrange(0, ids@.len() as int) =~= ids@);
                }
                out
            },
            None => Vec::new(),
        }
    }

    /// The maintenance margin owed by `trader`'s cross account.
    fn maint_margin_for_cross_inner(&self, trader: Address) -> (r: u128)
        requires
            self.wf(),
            maint_computable(self.spec_positions(), self.ids_of(trader)),
        ensures
            r == self.maint_of_trader(trader),
    {
        match self.find_account(&trader) {
            None => 0,
            Some(i) => {
                let ids = &self.cross_accounts[i].pos_ids;
                let ghost all = ids@;
                let mut total: u128 = 0;
                let mut k: usize = 0;
                while k < ids.len()
                    invariant
                        self.wf(),
                        all == ids@,
                        all == self.ids_of(trader),
                        maint_computable(self.spec_positions(), all),
                        0 <= k <= all.len(),
                        total == maint_sum(self.spec_positions(), all.subrange(0, k as int)),
                    decreases all.len() - k,
                {
                    let pid = ids[k];
                    proof {
                        assert(pid == all[k as int]);
                        assert(all.subrange(0, k + 1).drop_last() =~= all.subrange(0, k as int));
                        assert(all.subrange(0, k + 1).last() == pid);
                        lemma_maint_sum_prefix(self.spec_positions(), all, k + 1);
                    }
                    if pid >= 1 && pid <= self.positions.len() as u64 {
                        let p = &self.positions[(pid - 1) as usize];
                        if !p.closed {
                            proof {
                                assert(self.spec_positions()[all[k as int] - 1].size * 1_000 <= u128::MAX);
                            }
                            total = total + (p.size * 1_000) / 10_000;
                        }
                    }
                    k += 1;
                }
                proof {
                    assert(all.subrange(0, all.len() as int) =~= all);
                }
                total
            },
        }
    }

    /// The maintenance margin owed by `trader`'s cross account.
    pub fn cross_maint_margin(&self, trader: Address) -> (r: u128)
        requires
            self.wf(),
            maint_computable(self.spec_positions(), self.ids_of(trader)),
        ensures
            r == self.maint_of_trader(trader),
    {
        self.maint_margin_for_cross_inner(trader)
    }

    /// Cross margin free to withdraw: the balance above the maintenance
    /// margin, zero without an account.
    pub fn free_cross_margin(&self, trader: Address) -> (r: u128)
        requires
            self.wf(),
            maint_computable(self.spec_positions(), self.ids_of(trader)),
        ensures
            r == (if self.account(trader) is None || self.balance_of(trader) as i128 as int <= self.maint_of_trader(trader) as i128 as int {
                0
            } else {
                clamp_u128(self.balance_of(trader) - self.maint_of_trader(trader))
            }),
    {
        match self.find_account(&trader) {
            None => 0,
            Some(i) => {
                let bal = self.cross_accounts[i].balance;
                let maint = self.maint_margin_for_cross_inner(trader);
                if (bal as i128) <= (maint as i128) {
                    0
                } else {
                    bal.saturating_sub(maint)
                }
            },
        }
    }

    /// `trader`'s initial margin (zero without an account).
    pub open spec fn im_of(&self, trader: Address) -> int {
        match self.account(trader) {
            Some(a) => a.initial_margin as int,
            None => 0,
        }
    }

    /// Only `trader`'s account may differ between `self` and `other`; the
    /// positions, the issued ids and the fee balance are equal.
    pub open spec fn same_but_account(&self, other: &Self, trader: Address) -> bool {
        &&& other.spec_positions() == self.spec_positions()
        &&& other.spec_next_id() == self.spec_next_id()
        &&& other.spec_fee_balance() == self.spec_fee_balance()
        &&& forall|a: Address| a.0@ != trader.0@ ==> #[trigger] other.account(a) == self.account(a)
    }

    /// `trader`'s account in `self` has these fields.
    pub open spec fn account_is(&self, trader: Address, balance: int, im: int, ids: Seq<u64>) -> bool {
        &&& self.account(trader) is Some
        &&& self.balance_of(trader) == balance
        &&& self.im_of(trader) == im
        &&& self.ids_of(trader) == ids
    }

    proof fn lemma_account_update(s1: Self, s2: Self, t: Address, i: int)
        requires
            s1.wf(),
            s2.wf(),
            s1.spec_traders() == s2.spec_traders(),
            i == s1.acct_index(t),
            0 <= i < s1.spec_accounts().len(),
            s2.spec_accounts() == s1.spec_accounts().update(i, s2.spec_accounts()[i]),
        ensures
            s2.account(t) == Some(s2.spec_accounts()[i]),
            forall|a: Address| a.0@ != t.0@ ==> #[trigger] s2.account(a) == s1.account(a),
    {
        assert forall|a: Address| a.0@ != t.0@ implies #[trigger] s2.account(a) == s1.account(a) by {
            assert(s2.acct_index(a) == s1.acct_index(a));
            let j = s1.acct_index(a);
            if j >= 0 {
                assert(s1.spec_traders()[j] == a.0@);
                assert(s1.spec_traders()[i] == t.0@);
                assert(j != i);
            }
        }
        assert(s2.acct_index(t) == s1.acct_index(t));
    }

    /// Adds `net_pnl` to `trader`'s cross balance, clamped at zero and at
    /// the `u128` maximum (an account is created if needed).
    fn settle_cross_pnl(&mut self, trader: Address, net_pnl: i128)
        requires
            old(self).wf(),
        ensures
            final(self).wf(),
            old(self).same_but_account(&*final(self), trader),
            final(self).account_is(trader, clamp_u128(old(self).balance_of(trader) + net_pnl),
                old(self).im_of(trader), old(self).ids_of(trader)),
    {
        let i = self.ensure_account(trader);
        let ghost mid = *self;
        let bal = self.cross_accounts[i].balance;
        let nb: u128 = if net_pnl >= 0 {
            bal.saturating_add(net_pnl as u128)
        } else {
            let loss = if net_pnl == i128::MIN { 170141183460469231731687303715884105728u128 } else { (-net_pnl) as u128 };
            bal - if loss < bal { loss } else { bal }
        };
        self.cross_accounts[i].balance = nb;
        proof {
            Self::lemma_account_update(mid, *self, trader, i as int);
        }
    }

    /// Removes `pos_id` from `trader`'s list of cross positions.
    fn remove_cross_pos_id(&mut self, trader: Address, pos_id: u64)
        requires
            old(self).wf(),
        ensures
            final(self).wf(),
            old(self).same_but_account(&*final(self), trader),
            old(self).account(trader) is Some ==> final(self).account_is(trader, old(self).balance_of(trader),
                old(self).im_of(trader), old(self).ids_of(trader).filter(other_ids(pos_id))),
            old(self).account(trader) is None ==> final(self).account(trader) is None,
    {
        match self.find_account(&trader) {
            None => {},
            Some(i) => {
                let ghost pred = other_ids(pos_id);
                let ghost mid = *self;
                let mut kept: Vec<u64> = Vec::new();
                let mut k: usize = 0;
                let n = self.cross_accounts[i].pos_ids.len();
                while k < n
                    invariant
                        *self == mid,
                        pred == other_ids(pos_id),
                        i < self.cross_accounts@.len(),
                        n == self.cross_accounts@[i as int].pos_ids@.len(),
                        0 <= k <= n,
                        kept@ == self.cross_accounts@[i as int].pos_ids@.subrange(0, k as int).filter(pred),
                    decreases n - k,
                {
                    let id = self.cross_accounts[i].pos_ids[k];
                    proof {
                        let all = self.cross_accounts@[i as int].pos_ids@;
                        reveal_with_fuel(Seq::<u64>::filter, 2);
                        assert(all.subrange(0, k + 1).drop_last() =~= all.subrange(0, k as int));
                        assert(all.subrange(0, k + 1).last() == id);
                        assert(pred(id) == (id != pos_id));
                        assert(all.subrange(0, k + 1).filter(pred) == (if id != pos_id {
                            all.subrange(0, k as int).filter(pred).push(id)
                        } else {
                            all.subrange(0, k as int).filter(pred)
                        }));
                    }
                    if id != pos_id {
                        kept.push(id);
                    }
                    k += 1;
                }
                proof {
                    let all = self.cross_accounts@[i as int].pos_ids@;
                    assert(all.subrange(0, n as int) =~= all);
                }
                self.cross_accounts[i].pos_ids = kept;
                proof {
                    Self::lemma_account_update(mid, *self, trader, i as int);
                }
            },
        }
    }

    /// What adding `amount` to position `pos_id`'s collateral answers: an
    /// error for a zero amount, a missing, closed or cross position.
    pub open spec fn add_collateral_outcome(&self, pos_id: u64, amount: u128) -> Result<(), PerpError> {
        if amount == 0 {
            Err(PerpError::ZeroAmount)
        } else if !self.has_pos(pos_id) {
            Err(PerpError::PositionNotFound(pos_id))
        } else if self.pos(pos_id).closed {
            Err(PerpError::AlreadyClosed(pos_id))
        } else if self.pos(pos_id).is_cross {
            Err(PerpError::NotIsolatedPosition)
        } else {
            Ok(())
        }
    }

    /// Adds `amount` to an open isolated position's collateral (saturating).
    pub fn add_collateral(&mut self, pos_id: u64, amount: u128) -> (r: Result<(), PerpError>)
        requires
            old(self).wf(),
        ensures
            final(self).wf(),
            r == old(self).add_collateral_outcome(pos_id, amount),
            r is Err ==> *final(self) == *old(self),
            r is Ok ==> {
                &&& final(self).spec_positions() == old(self).spec_positions().update(pos_id - 1,
                    Position { collateral: clamp_u128(old(self).pos(pos_id).collateral + amount) as u128, ..old(self).pos(pos_id) })
                &&& final(self).spec_next_id() == old(self).spec_next_id()
                &&& final(self).spec_fee_balance() == old(self).spec_fee_balance()
                &&& final(self).spec_traders() == old(self).spec_traders()
                &&& final(self).spec_accounts() == old(self).spec_accounts()
            },
    {
        if amount == 0 {
            return Err(PerpError::ZeroAmount);
        }
        if pos_id == 0 || pos_id > self.positions.len() as u64 {
            return Err(PerpError::PositionNotFound(pos_id));
        }
        let idx = (pos_id - 1) as usize;
        let mut p = self.positions[idx];
        if p.closed {
            return Err(PerpError::AlreadyClosed(pos_id));
        }
        if p.is_cross {
            return Err(PerpError::NotIsolatedPosition);
        }
        p.collateral = p.collateral.saturating_add(amount);
        self.positions.set(idx, p);
        Ok(())
    }

    /// Credits `amount` to `trader`'s cross account (created if needed).
    pub fn deposit_cross(&mut self, trader: Address, amount: u128) -> (r: Result<(), PerpError>)
        requires
            old(self).wf(),
        ensures
            final(self).wf(),
            r == (if amount == 0 { Err::<(), PerpError>(PerpError::ZeroAmount) } else { Ok(()) }),
            r is Err ==> *final(self) == *old(self),
            r is Ok ==> {
                &&& old(self).same_but_account(&*final(self), trader)
                &&& final(self).account_is(trader, clamp_u128(old(self).balance_of(trader) + amount),
                    old(self).im_of(trader), old(self).ids_of(trader))
            },
    {
        if amount == 0 {
            return Err(PerpError::ZeroAmount);
        }
        let i = self.ensure_account(trader);
        let ghost mid = *self;
        let nb = self.cross_accounts[i].balance.saturating_add(amount);
        self.cross_accounts[i].balance = nb;
        proof {
            Self::lemma_account_update(mid, *self, trader, i as int);
        }
        Ok(())
    }

    /// Withdraws `amount` of free margin from `trader`'s cross account.
    pub fn withdraw_cross(&mut self, trader: Address, amount: u128) -> (r: Result<(), PerpError>)
        requires
            old(self).wf(),
            maint_computable(old(self).spec_positions(), old(self).ids_of(trader)),
        ensures
            final(self).wf(),
            ({
                let free = if old(self).account(trader) is None
                    || old(self).balance_of(trader) as i128 as int <= old(self).maint_of_trader(trader) as i128 as int {
                    0
                } else {
                    clamp_u128(old(self).balance_of(trader) - old(self).maint_of_trader(trader))
                };
                &&& r == (if amount == 0 {
                    Err::<(), PerpError>(PerpError::ZeroAmount)
                } else if amount > free {
                    Err(PerpError::CrossWithdrawTooLarge { free: free as u128, requested: amount })
                } else {
                    Ok(())
                })
                &&& r is Err ==> *final(self) == *old(self)
                &&& r is Ok ==> {
                    &&& old(self).same_but_account(&*final(self), trader)
                    &&& final(self).account_is(trader, old(self).balance_of(trader) - amount,
                        old(self).im_of(trader), old(self).ids_of(trader))
                }
            }),
    {
        if amount == 0 {
            return Err(PerpError::ZeroAmount);
        }
        let free = self.free_cross_margin(trader);
        if amount > free {
            return Err(PerpError::CrossWithdrawTooLarge { free, requested: amount });
        }
        proof {
            lemma_maint_sum_nonneg(self.spec_positions(), self.ids_of(trader));
        }
        let i = self.ensure_account(trader);
        let ghost mid = *self;
        let nb = self.cross_accounts[i].balance - amount;
        self.cross_accounts[i].balance = nb;
        proof {
            Self::lemma_account_update(mid, *self, trader, i as int);
        }
        Ok(())
    }

    /// Every account but `trader`'s is the same in `other`.
    pub open spec fn accounts_same_but(&self, other: &Self, trader: Address) -> bool {
        forall|a: Address| a.0@ != trader.0@ ==> #[trigger] other.account(a) == self.account(a)
    }

    /// `s` (with market `m`) is `self` (with market `m0`) after the full
    /// close of open position `pos_id` at `exit`, which gave `out` (net PnL,
    /// payout, fee).
    pub open spec fn closes(&self, s: &Self, m0: Market, m: Market, pos_id: u64, exit: u128, out: (i128, u128, u128)) -> bool {
        let p = self.pos(pos_id);
        let net = net_pnl_spec(p, exit, p.size, m0.cumulative_funding);
        &&& out.0 == net
        &&& m == oi_removed(m0, p.is_long, p.size)
        &&& s.spec_next_id() == self.spec_next_id()
        &&& s.spec_positions() == self.spec_positions().update(pos_id - 1, Position {
                closed: true,
                initial_margin: if p.is_cross { 0 } else { p.initial_margin },
                ..p
            })
        &&& self.accounts_same_but(s, p.trader)
        &&& if p.is_cross {
            &&& out.1 == 0 && out.2 == 0
            &&& s.spec_fee_balance() == self.spec_fee_balance()
            &&& s.account_is(p.trader, clamp_u128(self.balance_of(p.trader) + net),
                    clamp_u128(self.im_of(p.trader) - p.initial_margin),
                    self.ids_of(p.trader).filter(other_ids(pos_id)))
        } else {
            let raw = raw_payout(p.collateral, net);
            &&& out.2 == close_fee(raw)
            &&& out.1 == raw - close_fee(raw)
            &&& s.spec_fee_balance() == clamp_u128(self.spec_fee_balance() + close_fee(raw))
            &&& s.account(p.trader) == self.account(p.trader)
        }
    }

    /// Closes open position `pos_id` at `exit`, without an owner check.
    fn execute_close_inner(&mut self, pos_id: u64, exit_price: u128, market: &mut Market)
        -> (r: Result<(i128, u128, u128), PerpError>)
        requires
            old(self).wf(),
            old(self).has_pos(pos_id) && !old(self).pos(pos_id).closed ==>
                close_computable(old(self).pos(pos_id), exit_price, old(market).cumulative_funding),
        ensures
            final(self).wf(),
            match r {
                Err(e) => {
                    &&& e == if !old(self).has_pos(pos_id) {
                            PerpError::PositionNotFound(pos_id)
                        } else {
                            PerpError::AlreadyClosed(pos_id)
                        }
                    &&& old(self).has_pos(pos_id) ==> old(self).pos(pos_id).closed
                    &&& *final(self) == *old(self)
                    &&& *final(market) == *old(market)
                },
                Ok(out) => {
                    &&& old(self).has_pos(pos_id) && !old(self).pos(pos_id).closed
                    &&& old(self).closes(&*final(self), *old(market), *final(market), pos_id, exit_price, out)
                },
            },
    {
        if pos_id == 0 || pos_id > self.positions.len() as u64 {
            return Err(PerpError::PositionNotFound(pos_id));
        }
        let idx = (pos_id - 1) as usize;
        let p = self.positions[idx];
        if p.closed {
            return Err(PerpError::AlreadyClosed(pos_id));
        }
        let pnl = pnl_for(p.is_long, p.entry_price, exit_price, p.size);
        let fund = funding_cost_for_position(market.cumulative_funding, p.funding_entry_rate, p.size);
        let net_pnl = sat_sub_i128(pnl, fund);
        if p.is_long {
            market.total_long_oi = market.total_long_oi.saturating_sub(p.size);
        } else {
            market.total_short_oi = market.total_short_oi.saturating_sub(p.size);
        }
        let ghost s0 = *self;
        let mut closed_p = p;
        closed_p.closed = true;
        if p.is_cross {
            closed_p.initial_margin = 0;
        }
        self.positions.set(idx, closed_p);
        proof {
            assert forall|a: Address| #[trigger] self.account(a) == s0.account(a) by {
                assert(self.spec_traders() == s0.spec_traders());
                assert(self.acct_index(a) == s0.acct_index(a));
            }
        }
        if p.is_cross {
            let ghost s1 = *self;
            self.settle_cross_pnl(p.trader, net_pnl);
            let i = self.ensure_account(p.trader);
            let ghost s2 = *self;
            let nim = self.cross_accounts[i].initial_margin.saturating_sub(p.initial_margin);
            self.cross_accounts[i].initial_margin = nim;
            proof {
                Self::lemma_account_update(s2, *self, p.trader, i as int);
            }
            let ghost s3 = *self;
            self.remove_cross_pos_id(p.trader, pos_id);
            proof {
                assert(s3.account(p.trader) is Some);
            }
            Ok((net_pnl, 0, 0))
        } else {
            let raw: u128 = if net_pnl >= 0 {
                p.collateral.saturating_add(net_pnl as u128)
            } else {
                let loss = if net_pnl == i128::MIN { 170141183460469231731687303715884105728u128 } else { (-net_pnl) as u128 };
                if loss >= p.collateral { 0 } else { p.collateral - loss }
            };
            let fee = (raw * 10) / 10_000;
            self.protocol_fee_balance = self.protocol_fee_balance.saturating_add(fee);
            proof {
                assert forall|a: Address| #[trigger] self.account(a) == s0.account(a) by {
                    assert(self.spec_traders() == s0.spec_traders());
                    assert(self.acct_index(a) == s0.acct_index(a));
                }
            }
            Ok((net_pnl, raw - fee, fee))
        }
    }

    /// `Ok` when `sender` owns open position `pos_id`.
    fn assert_owner(&self, sender: Address, pos_id: u64) -> (r: Result<(), PerpError>)
        requires
            self.wf(),
        ensures
            r == self.owner_check(sender, pos_id),
    {
        if pos_id == 0 || pos_id > self.positions.len() as u64 {
            return Err(PerpError::PositionNotFound(pos_id));
        }
        let p = &self.positions[(pos_id - 1) as usize];
        if p.trader != sender {
            return Err(PerpError::NotPositionOwner(pos_id));
        }
        if p.closed {
            return Err(PerpError::AlreadyClosed(pos_id));
        }
        Ok(())
    }

    /// The owner check of `sender` on `pos_id`.
    pub open spec fn owner_check(&self, sender: Address, pos_id: u64) -> Result<(), PerpError> {
        if !self.has_pos(pos_id) {
            Err(PerpError::PositionNotFound(pos_id))
        } else if self.pos(pos_id).trader.0@ != sender.0@ {
            Err(PerpError::NotPositionOwner(pos_id))
        } else if self.pos(pos_id).closed {
            Err(PerpError::AlreadyClosed(pos_id))
        } else {
            Ok(())
        }
    }

    /// Fully closes `sender`'s position `pos_id` at `exit_price`.
    pub fn close(&mut self, sender: Address, pos_id: u64, exit_price: u128, market: &mut Market)
        -> (r: Result<CloseResult, PerpError>)
        requires
            old(self).wf(),
            old(self).has_pos(pos_id) && !old(self).pos(pos_id).closed ==>
                close_computable(old(self).pos(pos_id), exit_price, old(market).cumulative_funding),
        ensures
            final(self).wf(),
            match r {
                Err(e) => {
                    &&& old(self).owner_check(sender, pos_id) == Err::<(), PerpError>(e)
                    &&& *final(self) == *old(self)
                    &&& *final(market) == *old(market)
                },
                Ok(cr) => {
                    &&& old(self).owner_check(sender, pos_id) is Ok
                    &&& cr.exit_price == exit_price
                    &&& old(self).closes(&*final(self), *old(market), *final(market), pos_id, exit_price,
                        (cr.net_pnl, cr.payout, cr.fee))
                },
            },
    {
        match self.assert_owner(sender, pos_id) {
            Err(e) => return Err(e),
            Ok(()) => {},
        }
        match self.execute_close_inner(pos_id, exit_price, market) {
            Err(e) => Err(e),
            Ok((net_pnl, payout, fee)) => Ok(CloseResult { exit_price, net_pnl, payout, fee }),
        }
    }

    /// Fully closes position `pos_id` at `exit_price` without an owner check
    /// (the keeper and liquidation path).
    pub(crate) fn close_unchecked(&mut self, pos_id: u64, exit_price: u128, market: &mut Market)
        -> (r: Result<CloseResult, PerpError>)
        requires
            old(self).wf(),
            old(self).has_pos(pos_id) && !old(self).pos(pos_id).closed ==>
                close_computable(old(self).pos(pos_id), exit_price, old(market).cumulative_funding),
        ensures
            final(self).wf(),
            match r {
                Err(e) => {
                    &&& e == if !old(self).has_pos(pos_id) {
                            PerpError::PositionNotFound(pos_id)
                        } else {
                            PerpError::AlreadyClosed(pos_id)
                        }
                    &&& old(self).has_pos(pos_id) ==> old(self).pos(pos_id).closed
                    &&& *final(self) == *old(self)
                    &&& *final(market) == *old(market)
                },
                Ok(cr) => {
                    &&& old(self).has_pos(pos_id) && !old(self).pos(pos_id).closed
                    &&& cr.exit_price == exit_price
                    &&& old(self).closes(&*final(self), *old(market), *final(market), pos_id, exit_price,
                        (cr.net_pnl, cr.payout, cr.fee))
                },
            },
    {
        match self.execute_close_inner(pos_id, exit_price, market) {
            Err(e) => Err(e),
            Ok((net_pnl, payout, fee)) => Ok(CloseResult { exit_price, net_pnl, payout, fee }),
        }
    }

    /// `s` (with market `m`) is `self` (with `m0`) after closing `bps`
    /// basis points (below 10000) of open position `pos_id` at `exit`.
    pub open spec fn partially_closes(&self, s: &Self, m0: Market, m: Market, pos_id: u64, bps: u64, exit: u128, cr: CloseResult) -> bool {
        let p = self.pos(pos_id);
        let cs = p.size * bps / 10_000;
        let cc = if p.is_cross { 0 } else { p.collateral * bps / 10_000 };
        let im_rel = p.initial_margin * bps / 10_000;
        let net = net_pnl_spec(p, exit, cs as u128, m0.cumulative_funding);
        &&& cr.exit_price == exit
        &&& cr.net_pnl == net
        &&& m == oi_removed(m0, p.is_long, cs as u128)
        &&& s.spec_next_id() == self.spec_next_id()
        &&& s.spec_positions() == self.spec_positions().update(pos_id - 1, Position {
                size: (p.size - cs) as u128,
                collateral: (p.collateral - cc) as u128,
                initial_margin: if p.is_cross { (p.initial_margin - im_rel) as u128 } else { p.initial_margin },
                ..p
            })
        &&& self.accounts_same_but(s, p.trader)
        &&& if p.is_cross {
            &&& cr.payout == 0 && cr.fee == 0
            &&& s.spec_fee_balance() == self.spec_fee_balance()
            &&& s.account_is(p.trader, clamp_u128(self.balance_of(p.trader) + net),
                    clamp_u128(self.im_of(p.trader) - im_rel), self.ids_of(p.trader))
        } else {
            let raw = raw_payout(cc as u128, net);
            &&& cr.fee == close_fee(raw)
            &&& cr.payout == raw - close_fee(raw)
            &&& s.spec_fee_balance() == clamp_u128(self.spec_fee_balance() + close_fee(raw))
            &&& s.account(p.trader) == self.account(p.trader)
        }
    }

    /// A partial close of `p` stays within machine range.
    pub open spec fn partial_computable(p: Position, bps: u64, exit: u128, cum: i128) -> bool {
        &&& p.size * bps <= u128::MAX
        &&& p.is_cross ==> p.initial_margin * bps <= u128::MAX
        &&& !p.is_cross ==> {
            &&& p.collateral * bps <= u128::MAX
            &&& raw_payout((p.collateral * bps / 10_000) as u128,
                    net_pnl_spec(p, exit, (p.size * bps / 10_000) as u128, cum)) * 10 <= u128::MAX
        }
    }

    /// Closes `close_bps` basis points (1 to 10000) of `sender`'s position.
    pub fn partial_close(&mut self, sender: Address, pos_id: u64, close_bps: u64, exit_price: u128, market: &mut Market)
        -> (r: Result<CloseResult, PerpError>)
        requires
            old(self).wf(),
            1 <= close_bps <= 10_000 && old(self).owner_check(sender, pos_id) is Ok ==> {
                if close_bps == 10_000 {
                    close_computable(old(self).pos(pos_id), exit_price, old(market).cumulative_funding)
                } else {
                    Self::partial_computable(old(self).pos(pos_id), close_bps, exit_price, old(market).cumulative_funding)
                }
            },
        ensures
            final(self).wf(),
            match r {
                Err(e) => {
                    &&& e == if close_bps == 0 || close_bps > 10_000 {
                            PerpError::InvalidBps
                        } else {
                            old(self).owner_check(sender, pos_id)->Err_0
                        }
                    &&& (1 <= close_bps <= 10_000 ==> old(self).owner_check(sender, pos_id) is Err)
                    &&& *final(self) == *old(self)
                    &&& *final(market) == *old(market)
                },
                Ok(cr) => {
                    &&& 1 <= close_bps <= 10_000
                    &&& old(self).owner_check(sender, pos_id) is Ok
                    &&& close_bps == 10_000 ==> {
                        &&& cr.exit_price == exit_price
                        &&& old(self).closes(&*final(self), *old(market), *final(market), pos_id, exit_price,
                            (cr.net_pnl, cr.payout, cr.fee))
                    }
                    &&& close_bps < 10_000 ==> old(self).partially_closes(&*final(self), *old(market), *final(market),
                            pos_id, close_bps, exit_price, cr)
                },
            },
    {
        if close_bps == 0 || close_bps > 10_000 {
            return Err(PerpError::InvalidBps);
        }
        match self.assert_owner(sender, pos_id) {
            Err(e) => return Err(e),
            Ok(()) => {},
        }
        if close_bps == 10_000 {
            return self.close(sender, pos_id, exit_price, market);
        }
        let n = self.positions.len();
        assert(pos_id <= n);
        let idx = (pos_id - 1) as usize;
        let p = self.positions[idx];
        let bps = close_bps as u128;
        assert(p == self.pos(pos_id));
        assert(Self::partial_computable(p, close_bps, exit_price, market.cumulative_funding));
        let close_size = (p.size * bps) / 10_000;
        let close_col: u128 = if p.is_cross { 0 } else { (p.collateral * bps) / 10_000 };
        proof {
            assert(close_size <= p.size) by (nonlinear_arith)
                requires close_size == (p.size * bps) / 10_000, bps <= 10_000;
            if !p.is_cross {
                assert(close_col <= p.collateral) by (nonlinear_arith)
                    requires close_col == (p.collateral * bps) / 10_000, bps <= 10_000;
            }
        }
        let pnl = pnl_for(p.is_long, p.entry_price, exit_price, close_size);
        let fund = funding_cost_for_position(market.cumulative_funding, p.funding_entry_rate, close_size);
        let net_pnl = sat_sub_i128(pnl, fund);
        let mut np = p;
        np.size = p.size - close_size;
        if !p.is_cross {
            np.collateral = p.collateral - close_col;
        }
        if p.is_long {
            market.total_long_oi = market.total_long_oi.saturating_sub(close_size);
        } else {
            market.total_short_oi = market.total_short_oi.saturating_sub(close_size);
        }
        if p.is_cross {
            let im_rel = (p.initial_margin * bps) / 10_000;
            proof {
                assert(im_rel <= p.initial_margin) by (nonlinear_arith)
                    requires im_rel == (p.initial_margin * bps) / 10_000, bps <= 10_000;
            }
            np.initial_margin = p.initial_margin - im_rel;
            let ghost s0 = *self;
            self.positions.set(idx, np);
            proof {
                assert forall|a: Address| #[trigger] self.account(a) == s0.account(a) by {
                    assert(self.spec_traders() == s0.spec_traders());
                    assert(self.acct_index(a) == s0.acct_index(a));
                }
            }
            self.settle_cross_pnl(sender, net_pnl);
            let i = self.ensure_account(sender);
            let ghost s2 = *self;
            let nim = self.cross_accounts[i].initial_margin.saturating_sub(im_rel);
            self.cross_accounts[i].initial_margin = nim;
            proof {
                Self::lemma_account_update(s2, *self, sender, i as int);
            }
            Ok(CloseResult { exit_price, net_pnl, payout: 0, fee: 0 })
        } else {
            let ghost s0 = *self;
            self.positions.set(idx, np);
            let raw: u128 = if net_pnl >= 0 {
                close_col.saturating_add(net_pnl as u128)
            } else {
                let loss = if net_pnl == i128::MIN { 170141183460469231731687303715884105728u128 } else { (-net_pnl) as u128 };
                if loss >= close_col { 0 } else { close_col - loss }
            };
            let fee = (raw * 10) / 10_000;
            self.protocol_fee_balance = self.protocol_fee_balance.saturating_add(fee);
            proof {
                assert forall|a: Address| #[trigger] self.account(a) == s0.account(a) by {
                    assert(self.spec_traders() == s0.spec_traders());
                    assert(self.acct_index(a) == s0.acct_index(a));
                }
            }
            Ok(CloseResult { exit_price, net_pnl, payout: raw - fee, fee })
        }
    }

    /// `s` (with market `m`) and `r` are the outcome of `open` on `self`
    /// (with market `m0`).
    pub open spec fn open_outcome(&self, s: &Self, m0: Market, m: Market, sender: Address, params: OpenPositionParams,
        mark_price: u128, r: Result<OpenPositionResult, PerpError>) -> bool {
        let fee = open_fee(params.collateral);
        let col_net = params.collateral - fee;
        let size = open_size(params.collateral, params.leverage);
        let needed = cross_needed(params.collateral, self.maint_of_trader(sender), size);
        let id = self.spec_next_id() + 1;
        if !open_checks_pass(params, mark_price, m0) {
            &&& r == Err::<OpenPositionResult, PerpError>(open_check_error(params, mark_price, m0))
            &&& *s == *self
            &&& m == m0
        } else if params.is_cross && self.balance_of(sender) < needed {
            &&& r == Err::<OpenPositionResult, PerpError>(PerpError::InsufficientCrossMargin {
                have: self.balance_of(sender) as u128,
                need: needed as u128,
            })
            &&& m == m0
            &&& self.same_but_account(s, sender)
            &&& s.account_is(sender, self.balance_of(sender), self.im_of(sender), self.ids_of(sender))
        } else {
            &&& r matches Ok(res) && res.position_id == id && res.size == size
                && res.entry_price == mark_price && res.fee_charged == fee
            &&& m == oi_added(m0, params.is_long, size as u128)
            &&& s.spec_next_id() == id
            &&& s.spec_fee_balance() == clamp_u128(self.spec_fee_balance() + fee)
            &&& s.spec_positions() == self.spec_positions().push(Position {
                trader: sender,
                market_id: params.market_id,
                is_long: params.is_long,
                is_cross: params.is_cross,
                collateral: if params.is_cross { 0 } else { col_net as u128 },
                size: size as u128,
                entry_price: mark_price,
                funding_entry_rate: m0.cumulative_funding,
                stop_loss: params.sl_price,
                take_profit: params.tp_price,
                trail_bps: 0,
                trail_peak: mark_price,
                closed: false,
                initial_margin: col_net as u128,
            })
            &&& self.accounts_same_but(s, sender)
            &&& params.is_cross ==> s.account_is(sender,
                clamp_u128(self.balance_of(sender) - fee),
                clamp_u128(self.im_of(sender) + col_net),
                self.ids_of(sender).push(id as u64))
            &&& !params.is_cross ==> s.account(sender) == self.account(sender)
        }
    }

    /// The arithmetic of `open` stays within machine range.
    pub open spec fn open_computable(&self, sender: Address, params: OpenPositionParams, mark_price: u128, m: Market) -> bool {
        open_checks_pass(params, mark_price, m) ==> {
            &&& params.collateral * 10 <= u128::MAX
            &&& self.spec_next_id() < u64::MAX
            &&& params.is_cross ==> {
                &&& open_size(params.collateral, params.leverage) * 1_000 <= u128::MAX
                &&& maint_computable(self.spec_positions(), self.ids_of(sender))
            }
        }
    }

    /// Opens a position for `sender` at `mark_price` (see the module
    /// documentation for the fee, size and margin rules).
    pub fn open(&mut self, sender: Address, params: &OpenPositionParams, mark_price: u128, market: &mut Market)
        -> (r: Result<OpenPositionResult, PerpError>)
        requires
            old(self).wf(),
            old(self).open_computable(sender, *params, mark_price, *old(market)),
        ensures
            final(self).wf(),
            old(self).open_outcome(&*final(self), *old(market), *final(market), sender, *params, mark_price, r),
    {
        if params.collateral == 0 {
            return Err(PerpError::ZeroCollateral);
        }
        if params.leverage == 0 {
            return Err(PerpError::ZeroLeverage);
        }
        if params.leverage > market.max_leverage {
            return Err(PerpError::LeverageTooHigh { got: params.leverage, max: market.max_leverage });
        }
        if mark_price == 0 {
            return Err(PerpError::ZeroOraclePrice(params.market_id));
        }
        let fee = (params.collateral * 10) / 10_000;
        proof {
            assert(fee <= params.collateral) by (nonlinear_arith)
                requires fee == (params.collateral * 10) / 10_000;
        }
        let col_net = params.collateral - fee;
        let size = sat_mul_u128(col_net, params.leverage as u128);
        if params.is_cross {
            let i = self.ensure_account(sender);
            let maint_existing = self.maint_margin_for_cross_inner(sender);
            let new_maint = (size * 1_000) / 10_000;
            let needed = params.collateral.saturating_add(maint_existing).saturating_add(new_maint);
            let bal = self.cross_accounts[i].balance;
            if bal < needed {
                return Err(PerpError::InsufficientCrossMargin { have: bal, need: needed });
            }
            let ghost s2 = *self;
            self.cross_accounts[i].balance = bal.saturating_sub(fee);
            let nim = self.cross_accounts[i].initial_margin.saturating_add(col_net);
            self.cross_accounts[i].initial_margin = nim;
            proof {
                assert(self.spec_accounts() =~= s2.spec_accounts().update(i as int, self.spec_accounts()[i as int]));
                Self::lemma_account_update(s2, *self, sender, i as int);
            }
        }
        let ghost s3 = *self;
        self.protocol_fee_balance = self.protocol_fee_balance.saturating_add(fee);
        self.next_pos_id = self.next_pos_id + 1;
        let pos_id = self.next_pos_id;
        let position = Position {
            trader: sender,
            market_id: params.market_id,
            is_long: params.is_long,
            is_cross: params.is_cross,
            collateral: if params.is_cross { 0 } else { col_net },
            size,
            entry_price: mark_price,
            funding_entry_rate: market.cumulative_funding,
            stop_loss: params.sl_price,
            take_profit: params.tp_price,
            trail_bps: 0,
            trail_peak: mark_price,
            closed: false,
            initial_margin: col_net,
        };
        let ghost s5 = *self;
        self.positions.push(position);
        proof {
            assert forall|a: Address| #[trigger] self.account(a) == s3.account(a) by {
                assert(self.spec_traders() == s5.spec_traders());
                assert(self.acct_index(a) == s5.acct_index(a));
                assert(s5.spec_traders() == s3.spec_traders());
                assert(s5.acct_index(a) == s3.acct_index(a));
            }
        }
        if params.is_long {
            market.total_long_oi = market.total_long_oi.saturating_add(size);
        } else {
            market.total_short_oi = market.total_short_oi.saturating_add(size);
        }
        if params.is_cross {
            let i = self.ensure_account(sender);
            let ghost s4 = *self;
            self.cross_accounts[i].pos_ids.push(pos_id);
            proof {
                Self::lemma_account_update(s4, *self, sender, i as int);
            }
        }
        Ok(OpenPositionResult { position_id: pos_id, size, entry_price: mark_price, fee_charged: fee })
    }

    /// The unrealised PnL of position `pos_id` at `mark_price` (zero if it
    /// does not exist).
    pub fn unrealised_pnl(&self, pos_id: u64, mark_price: u128) -> (r: i128)
        requires
            self.wf(),
        ensures
            r == (if self.has_pos(pos_id) {
                pnl_spec(self.pos(pos_id).is_long, self.pos(pos_id).entry_price, mark_price, self.pos(pos_id).size)
            } else {
                0
            }),
    {
        if pos_id == 0 || pos_id > self.positions.len() as u64 {
            return 0;
        }
        let p = &self.positions[(pos_id - 1) as usize];
        pnl_for(p.is_long, p.entry_price, mark_price, p.size)
    }

    /// Health of position `pos_id` in basis points (0 = liquidatable); zero
    /// for a missing, closed or cross position.
    pub fn health_bps(&self, pos_id: u64, mark_price: u128, market: &Market) -> (r: u64)
        requires
            self.wf(),
            self.has_pos(pos_id) ==> health_computable(self.pos(pos_id), mark_price, market.cumulative_funding),
        ensures
            r == (if self.has_pos(pos_id) { health_of(self.pos(pos_id), mark_price, market.cumulative_funding) } else { 0 }),
    {
        if pos_id == 0 || pos_id > self.positions.len() as u64 {
            return 0;
        }
        let p = &self.positions[(pos_id - 1) as usize];
        if p.closed || p.is_cross || p.collateral == 0 {
            return 0;
        }
        let pnl = pnl_for(p.is_long, p.entry_price, mark_price, p.size);
        let fund = funding_cost_for_position(market.cumulative_funding, p.funding_entry_rate, p.size);
        let eq = sat_sub_i128(sat_add_i128(p.collateral as i128, pnl), fund);
        if eq <= 0 {
            return 0;
        }
        let maint = (p.size * 1_000) / 10_000;
        let equ = eq as u128;
        if equ <= maint {
            return 0;
        }
        let h = (equ * 10_000) / p.collateral;
        if h > 10_000 { 10_000 } else { h as u64 }
    }

    /// The liquidation price of position `pos_id`; zero for a missing,
    /// closed or cross position, or one with a zero trader.
    pub fn liquidation_price(&self, pos_id: u64, market: &Market) -> (r: u128)
        requires
            self.wf(),
            self.has_pos(pos_id) ==> self.pos(pos_id).size * 1_000 <= u128::MAX,
        ensures
            r == (if self.has_pos(pos_id) { liq_price_of(self.pos(pos_id), market.cumulative_funding) } else { 0 }),
    {
        if pos_id == 0 || pos_id > self.positions.len() as u64 {
            return 0;
        }
        let p = &self.positions[(pos_id - 1) as usize];
        if p.closed || p.is_cross || p.trader.is_zero() {
            return 0;
        }
        let funding = funding_cost_for_position(market.cumulative_funding, p.funding_entry_rate, p.size);
        let maint = ((p.size * 1_000) / 10_000) as i128;
        let numerator = sat_add_i128(sat_sub_i128(maint, p.collateral as i128), funding);
        let entry_i = p.entry_price as i128;
        let size_i = p.size as i128;
        if size_i == 0 {
            return 0;
        }
        let prod = sat_mul_i128(entry_i, numerator);
        let delta = match checked_div_i128(prod, size_i) {
            Some(v) => v,
            None => 0,
        };
        let liq: i128 = if p.is_long { sat_add_i128(entry_i, delta) } else { sat_sub_i128(entry_i, delta) };
        if liq > 0 { liq as u128 } else { 0 }
    }

    /// A snapshot of position `pos_id` with its live figures at `mark_price`.
    pub open spec fn view_of(&self, pos_id: u64, mark_price: u128, cum: i128) -> PositionView {
        let p = self.pos(pos_id);
        let health = health_of(p, mark_price, cum);
        PositionView {
            position_id: pos_id,
            trader: p.trader,
            market_id: p.market_id,
            is_long: p.is_long,
            is_cross: p.is_cross,
            collateral: p.collateral,
            size: p.size,
            entry_price: p.entry_price,
            funding_entry_rate: p.funding_entry_rate,
            stop_loss: p.stop_loss,
            take_profit: p.take_profit,
            trail_bps: p.trail_bps,
            trail_peak: p.trail_peak,
            closed: p.closed,
            initial_margin: p.initial_margin,
            unrealised_pnl: pnl_spec(p.is_long, p.entry_price, mark_price, p.size) as i128,
            health_bps: health as u64,
            liquidation_price: liq_price_of(p, cum) as u128,
            is_sl_triggered: !p.closed && sl_hit_spec(p, mark_price),
            is_tp_triggered: !p.closed && tp_hit_spec(p, mark_price),
            is_liquidatable: !p.closed && !p.is_cross && health == 0 && p.collateral > 0,
        }
    }

    /// A snapshot of position `pos_id` with its live figures at `mark_price`.
    pub fn view(&self, pos_id: u64, mark_price: u128, market: &Market) -> (r: Option<PositionView>)
        requires
            self.wf(),
            self.has_pos(pos_id) ==> {
                &&& health_computable(self.pos(pos_id), mark_price, market.cumulative_funding)
                &&& self.pos(pos_id).size * 1_000 <= u128::MAX
            },
        ensures
            r == (if self.has_pos(pos_id) {
                Some(self.view_of(pos_id, mark_price, market.cumulative_funding))
            } else {
                None
            }),
            match r {
                None => !self.has_pos(pos_id),
                Some(v) => {
                    let p = self.pos(pos_id);
                    let health = health_of(p, mark_price, market.cumulative_funding);
                    &&& self.has_pos(pos_id)
                    &&& v.position_id == pos_id && v.trader == p.trader && v.market_id == p.market_id
                    &&& v.is_long == p.is_long && v.is_cross == p.is_cross && v.collateral == p.collateral
                    &&& v.size == p.size && v.entry_price == p.entry_price && v.funding_entry_rate == p.funding_entry_rate
                    &&& v.stop_loss == p.stop_loss && v.take_profit == p.take_profit && v.trail_bps == p.trail_bps
                    &&& v.trail_peak == p.trail_peak && v.closed == p.closed && v.initial_margin == p.initial_margin
                    &&& v.unrealised_pnl == pnl_spec(p.is_long, p.entry_price, mark_price, p.size)
                    &&& v.health_bps == health
                    &&& v.liquidation_price == liq_price_of(p, market.cumulative_funding)
                    &&& v.is_sl_triggered == (!p.closed && sl_hit_spec(p, mark_price))
                    &&& v.is_tp_triggered == (!p.closed && tp_hit_spec(p, mark_price))
                    &&& v.is_liquidatable == (!p.closed && !p.is_cross && health == 0 && p.collateral > 0)
                },
            },
    {
        if pos_id == 0 || pos_id > self.positions.len() as u64 {
            return None;
        }
        let p = self.positions[(pos_id - 1) as usize];
        let unrealised_pnl = self.unrealised_pnl(pos_id, mark_price);
        let health = self.health_bps(pos_id, mark_price, market);
        let liq_price = self.liquidation_price(pos_id, market);
        let is_sl_triggered = !p.closed && p.stop_loss > 0
            && ((p.is_long && mark_price <= p.stop_loss) || (!p.is_long && mark_price >= p.stop_loss));
        let is_tp_triggered = !p.closed && p.take_profit > 0
            && ((p.is_long && mark_price >= p.take_profit) || (!p.is_long && mark_price <= p.take_profit));
        let is_liq = !p.closed && !p.is_cross && health == 0 && p.collateral > 0;
        Some(PositionView {
            position_id: pos_id,
            trader: p.trader,
            market_id: p.market_id,
            is_long: p.is_long,
            is_cross: p.is_cross,
            collateral: p.collateral,
            size: p.size,
            entry_price: p.entry_price,
            funding_entry_rate: p.funding_entry_rate,
            stop_loss: p.stop_loss,
            take_profit: p.take_profit,
            trail_bps: p.trail_bps,
            trail_peak: p.trail_peak,
            closed: p.closed,
            initial_margin: p.initial_margin,
            unrealised_pnl,
            health_bps: health,
            liquidation_price: liq_price,
            is_sl_triggered,
            is_tp_triggered,
            is_liquidatable: is_liq,
        })
    }

    /// `self` with the protocol fee balance set to `f`.
    pub closed spec fn fee_adjusted(&self, f: u128) -> Self {
        PositionStore { protocol_fee_balance: f, ..*self }
    }

    /// Changing the fee balance keeps everything else.
    pub proof fn lemma_fee_adjusted(&self, f: u128)
        ensures
            self.wf() ==> self.fee_adjusted(f).wf(),
            self.fee_adjusted(f).spec_fee_balance() == f,
            self.fee_adjusted(f).spec_positions() == self.spec_positions(),
            self.fee_adjusted(f).spec_next_id() == self.spec_next_id(),
            self.fee_adjusted(f).spec_traders() == self.spec_traders(),
            self.fee_adjusted(f).spec_accounts() == self.spec_accounts(),
            forall|a: Address| #[trigger] self.fee_adjusted(f).account(a) == self.account(a),
    {
        let t = self.fee_adjusted(f);
        assert forall|a: Address| #[trigger] t.account(a) == self.account(a) by {
            assert(t.spec_traders() == self.spec_traders());
            assert(t.acct_index(a) == self.acct_index(a));
        }
    }

    /// Takes `amount` off the protocol fee balance (saturating at zero).
    pub(crate) fn take_from_fees(&mut self, amount: u128)
        ensures
            *final(self) == old(self).fee_adjusted(clamp_u128(old(self).spec_fee_balance() - amount) as u128),
    {
        self.protocol_fee_balance = self.protocol_fee_balance.saturating_sub(amount);
    }

    /// `s` is `self` with position `pos_id` replaced by `p`.
    pub open spec fn replaced(&self, s: &Self, pos_id: u64, p: Position) -> bool {
        &&& s.spec_positions() == self.spec_positions().update(pos_id - 1, p)
        &&& s.spec_next_id() == self.spec_next_id()
        &&& s.spec_fee_balance() == self.spec_fee_balance()
        &&& s.spec_traders() == self.spec_traders()
        &&& s.spec_accounts() == self.spec_accounts()
        &&& forall|a: Address| #[trigger] s.account(a) == self.account(a)
    }

    /// Replaces position `pos_id` by `p`.
    pub(crate) fn replace_position(&mut self, pos_id: u64, p: Position)
        requires
            old(self).wf(),
            old(self).has_pos(pos_id),
        ensures
            final(self).wf(),
            old(self).replaced(&*final(self), pos_id, p),
    {
        let n = self.positions.len();
        assert(pos_id <= n);
        self.positions.set((pos_id - 1) as usize, p);
        proof {
            assert forall|a: Address| #[trigger] self.account(a) == old(self).account(a) by {
                assert(self.spec_traders() == old(self).spec_traders());
                assert(self.acct_index(a) == old(self).acct_index(a));
            }
        }
    }

    /// Adds `amount` to the protocol fee balance (saturating).
    pub(crate) fn add_to_fees(&mut self, amount: u128)
        ensures
            *final(self) == old(self).fee_adjusted(clamp_u128(old(self).spec_fee_balance() + amount) as u128),
    {
        self.protocol_fee_balance = self.protocol_fee_balance.saturating_add(amount);
    }

    /// Empties `trader`'s cross account (balance, margin and ids).
    pub(crate) fn clear_account(&mut self, trader: Address)
        requires
            old(self).wf(),
        ensures
            final(self).wf(),
            old(self).same_but_account(&*final(self), trader),
            final(self).account_is(trader, 0, 0, Seq::empty()),
    {
        let i = self.ensure_account(trader);
        let ghost s2 = *self;
        self.cross_accounts[i].balance = 0;
        self.cross_accounts[i].initial_margin = 0;
        self.cross_accounts[i].pos_ids = Vec::new();
        proof {
            assert(self.spec_accounts() =~= s2.spec_accounts().update(i as int, self.spec_accounts()[i as int]));
            Self::lemma_account_update(s2, *self, trader, i as int);
            assert(self.ids_of(trader) =~= Seq::<u64>::empty());
        }
    }

    /// Whether the maintenance margin of `trader`'s cross account can be
    /// computed.
    pub fn maint_ok(&self, trader: Address) -> (r: bool)
        requires
            self.wf(),
        ensures
            r == maint_computable(self.spec_positions(), self.ids_of(trader)),
    {
        match self.find_account(&trader) {
            None => {
                proof {
                    assert(self.ids_of(trader) =~= Seq::<u64>::empty());
                }
                true
            },
            Some(i) => {
                let ids = &self.cross_accounts[i].pos_ids;
                let ghost all = ids@;
                let ghost ps = self.spec_positions();
                let mut total: u128 = 0;
                let mut k: usize = 0;
                while k < ids.len()
                    invariant
                        self.wf(),
                        all == ids@,
                        all == self.ids_of(trader),
                        ps == self.spec_positions(),
                        0 <= k <= all.len(),
                        total == maint_sum(ps, all.subrange(0, k as int)),
                        forall|j: int| #![trigger all[j]] 0 <= j < k && 1 <= all[j] <= ps.len() && !ps[all[j] - 1].closed
                            ==> ps[all[j] - 1].size * 1_000 <= u128::MAX,
                    decreases all.len() - k,
                {
                    let pid = ids[k];
                    proof {
                        assert(pid == all[k as int]);
                        assert(all.subrange(0, k + 1).drop_last() =~= all.subrange(0, k as int));
                        assert(all.subrange(0, k + 1).last() == pid);
                        lemma_maint_sum_prefix(ps, all, k + 1);
                    }
                    if pid >= 1 && pid <= self.positions.len() as u64 {
                        let p = &self.positions[(pid - 1) as usize];
                        if !p.closed {
                            if p.size > u128::MAX / 1_000 {
                                return false;
                            }
                            let term = (p.size * 1_000) / 10_000;
                            if total > u128::MAX - term {
                                return false;
                            }
                            total = total + term;
                        }
                    }
                    k += 1;
                }
                proof {
                    assert(all.subrange(0, all.len() as int) =~= all);
                }
                true
            },
        }
    }
}

/// Whether `close_computable(p, exit, cum)` holds.
pub fn close_ok(p: &Position, exit: u128, cum: i128) -> (r: bool)
    ensures
        r == close_computable(*p, exit, cum),
{
    if p.is_cross {
        return true;
    }
    let raw = isolated_raw(p, exit, p.size, p.collateral, cum);
    raw <= u128::MAX / 10
}

/// `raw_payout(col, net_pnl_spec(p, exit, size, cum))`.
fn isolated_raw(p: &Position, exit: u128, size: u128, col: u128, cum: i128) -> (r: u128)
    ensures
        r == raw_payout(col, net_pnl_spec(*p, exit, size, cum)),
{
    let pnl = pnl_for(p.is_long, p.entry_price, exit, size);
    let fund = funding_cost_for_position(cum, p.funding_entry_rate, size);
    let net = sat_sub_i128(pnl, fund);
    if net >= 0 {
        col.saturating_add(net as u128)
    } else {
        let loss = if net == i128::MIN { 170141183460469231731687303715884105728u128 } else { (-net) as u128 };
        if loss >= col { 0 } else { col - loss }
    }
}

/// Whether `PositionStore::partial_computable(p, bps, exit, cum)` holds.
pub fn partial_ok(p: &Position, bps: u64, exit: u128, cum: i128) -> (r: bool)
    ensures
        r == PositionStore::partial_computable(*p, bps, exit, cum),
{
    let b = bps as u128;
    if b != 0 && p.size > u128::MAX / b {
        proof {
            assert(p.size * b > u128::MAX) by (nonlinear_arith) requires p.size > u128::MAX / b, b > 0;
        }
        return false;
    }
    proof {
        if b != 0 {
            assert(p.size * b <= u128::MAX) by (nonlinear_arith) requires p.size <= u128::MAX / b, b > 0;
        }
    }
    if p.is_cross {
        proof {
            if b != 0 {
                if p.initial_margin <= u128::MAX / b {
                    assert(p.initial_margin * b <= u128::MAX) by (nonlinear_arith)
                        requires p.initial_margin <= u128::MAX / b, b > 0;
                } else {
                    assert(p.initial_margin * b > u128::MAX) by (nonlinear_arith)
                        requires p.initial_margin > u128::MAX / b, b > 0;
                }
            }
        }
        b == 0 || p.initial_margin <= u128::MAX / b
    } else {
        if b != 0 && p.collateral > u128::MAX / b {
            proof {
                assert(p.collateral * b > u128::MAX) by (nonlinear_arith) requires p.collateral > u128::MAX / b, b > 0;
            }
            return false;
        }
        proof {
            if b != 0 {
                assert(p.size * b <= u128::MAX) by (nonlinear_arith) requires p.size <= u128::MAX / b, b > 0;
                assert(p.collateral * b <= u128::MAX) by (nonlinear_arith) requires p.collateral <= u128::MAX / b, b > 0;
            }
        }
        let cs = (p.size * b) / 10_000;
        let cc = (p.collateral * b) / 10_000;
        let raw = isolated_raw(p, exit, cs, cc, cum);
        raw <= u128::MAX / 10
    }
}

/// Whether `health_computable(p, mark, cum)` holds.
pub fn health_ok(p: &Position, mark: u128, cum: i128) -> (r: bool)
    ensures
        r == health_computable(*p, mark, cum),
{
    if p.closed || p.is_cross || p.collateral == 0 {
        return true;
    }
    if p.size > u128::MAX / 1_000 {
        return false;
    }
    let pnl = pnl_for(p.is_long, p.entry_price, mark, p.size);
    let fund = funding_cost_for_position(cum, p.funding_entry_rate, p.size);
    let eq = sat_sub_i128(sat_add_i128(p.collateral as i128, pnl), fund);
    let maint = (p.size * 1_000) / 10_000;
    if eq <= 0 || (eq as u128) <= maint {
        return true;
    }
    (eq as u128) <= u128::MAX / 10_000
}

} // verus!
