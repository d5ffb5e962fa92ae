//! The DEX engine: one entry point over the pools, the user tokens, the
//! token balances and approvals and the LP tokens, for swaps, liquidity,
//! pool and token creation, transfers, quotes and fee estimates.

use vstd::prelude::*;
use crate::common::{clamp_u128, sat_mul_u128, Address};
use crate::pool::approval::{approve_post, transfer_from_post, transfer_post, AllowanceRegistry, ApprovalError};
use crate::pool::error::AmmError;
use crate::pool::factory::{create_pool_post, PoolCreatedEvent, PoolFactory, PoolRecord};
use crate::pool::fee::FeeTier;
use crate::pool::lp_token::{amount_of, LpRegistry};
use crate::pool::pair::{
    add_liq_reaches_sqrt, add_liquidity_amounts, add_liquidity_post, remove_liquidity_post, AddLiquidityParams, AddLiquidityResult, Pair,
    PairId, RemoveLiquidityParams, RemoveLiquidityResult,
};
use crate::pool::registry::{DexOperation, FeeEstimate};
use crate::pool::router::{
    best_spec, candidates_spec, direct_spec, distinct_pools, execute_route, find_best_route, hop_spec, pair_of,
    push_some, quote_spec, simulate_spec, two_hop_spec, SwapStep,
};
use crate::pool::token_factory::{create_token_post, CreateTokenParams, TokenFactoryError, TokenFactory, TokenRecord};
use crate::table::{Table, TableKey};

verus! {

/// Why a DEX operation failed.
#[derive(Debug)]
pub enum DexError {
    /// A pool operation failed.
    Amm(AmmError),
    /// A balance or approval operation failed.
    Approval(ApprovalError),
    /// A token operation failed.
    Token(TokenFactoryError),
    /// No pool route joins the two tokens.
    NoRoute,
    /// The trader holds less of the input token than it offers.
    InsufficientInputBalance { have: u128, need: u128 },
    /// Burning LP tokens failed.
    LpTransferFailed(String),
}

/// A completed swap.
#[derive(Debug, Clone, Copy)]
pub struct SwapEvent {
    pub trader: Address,
    pub token_in: Address,
    pub token_out: Address,
    pub amount_in: u128,
    pub amount_out: u128,
    pub hops: usize,
    pub protocol_fee_collected: u128,
    pub block_number: u64,
}

/// A completed deposit.
#[derive(Debug, Clone, Copy)]
pub struct LiquidityEvent {
    pub provider: Address,
    pub pair_id: PairId,
    pub lp_minted: u128,
    pub used_a: u128,
    pub used_b: u128,
    pub block_number: u64,
}

/// The simulated outcome of a swap.
#[derive(Debug, Clone, Copy)]
pub struct QuoteResult {
    pub amount_in: u128,
    pub amount_out: u128,
    pub hops: usize,
    /// Compounded price impact of the route's hops, in basis points.
    pub price_impact_bps: u32,
}

/// The pool factory's answer that a DEX result passes on.
pub open spec fn pool_result(r: Result<Address, DexError>, fee: u128) -> Result<(Address, u128), AmmError> {
    match r {
        Ok(a) => Ok((a, fee)),
        Err(DexError::Amm(e)) => Err(e),
        Err(_) => Err(AmmError::PairNotFound),
    }
}

/// The token factory's answer that a DEX result passes on.
pub open spec fn token_result(r: Result<Address, DexError>) -> Result<Address, TokenFactoryError> {
    match r {
        Ok(a) => Ok(a),
        Err(DexError::Token(e)) => Err(e),
        Err(_) => Err(TokenFactoryError::InvalidName),
    }
}

/// The allowance registry's answer that a DEX result passes on.
pub open spec fn approval_result(r: Result<(), DexError>) -> Result<(), ApprovalError> {
    match r {
        Ok(()) => Ok(()),
        Err(DexError::Approval(e)) => Err(e),
        Err(_) => Err(ApprovalError::SelfApproval),
    }
}

/// A pool record with `v` more volume (saturating).
pub open spec fn add_volume(rec: PoolRecord, v: u128) -> PoolRecord {
    PoolRecord { total_volume: clamp_u128(rec.total_volume + v) as u128, ..rec }
}

/// Whether one of the first `k` hops of `steps` uses the pool `q`.
pub open spec fn on_prefix(steps: Seq<SwapStep>, k: int, q: PairId) -> bool {
    exists|j: int| 0 <= j < k && (#[trigger] steps[j]).pair_id == q
}

/// `t` is `s` with `v` volume added to the record of each pool that the
/// first `k` hops of `steps` use.
pub open spec fn volume_recorded(s: Map<PairId, PoolRecord>, t: Map<PairId, PoolRecord>, steps: Seq<SwapStep>, k: int,
    v: u128) -> bool {
    &&& t.dom() == s.dom()
    &&& forall|q: PairId| #[trigger] s.dom().contains(q) ==> t[q] == (if on_prefix(steps, k, q) { add_volume(s[q], v) } else { s[q] })
}

/// A route is sound over `pairs`: at least one hop, no pool twice, and
/// every pool present.
pub open spec fn route_ok(steps: Seq<SwapStep>, pairs: Map<PairId, Pair>) -> bool {
    &&& steps.len() > 0
    &&& distinct_pools(steps)
    &&& forall|i: int| 0 <= i < steps.len() ==> pairs.dom().contains(#[trigger] steps[i].pair_id)
}

/// The best route between two tokens has a hop, uses no pool twice, and
/// only pools that exist.
pub proof fn lemma_best_route_sound(from: Address, to: Address, amount_in: u128, pairs: Map<PairId, Pair>)
    requires
        from != to,
        candidates_spec(from, to, pairs).len() > 0,
    ensures
        route_ok(best_spec(candidates_spec(from, to, pairs), amount_in, pairs), pairs),
{
    let c = candidates_spec(from, to, pairs);
    lemma_candidates_sound(from, to, pairs);
    lemma_best_keeps(c, amount_in, pairs);
}

/// Every candidate route is sound.
proof fn lemma_candidates_sound(from: Address, to: Address, pairs: Map<PairId, Pair>)
    requires
        from != to,
    ensures
        forall|k: int| 0 <= k < candidates_spec(from, to, pairs).len()
            ==> route_ok(#[trigger] candidates_spec(from, to, pairs)[k], pairs),
{
    let w = Address(crate::pool::canonical_pairs::WZBX_ADDR);
    let z = Address(crate::pool::canonical_pairs::ZUSD_ADDR);
    let c0 = push_some(Seq::empty(), direct_spec(from, to, pairs));
    assert forall|k: int| 0 <= k < c0.len() implies route_ok(#[trigger] c0[k], pairs) by {
        assert(c0[k] == seq![hop_spec(from, to)]);
    }
    let c1 = if from != w && to != w { push_some(c0, two_hop_spec(from, w, to, pairs)) } else { c0 };
    assert forall|k: int| 0 <= k < c1.len() implies route_ok(#[trigger] c1[k], pairs) by {
        if k >= c0.len() {
            lemma_two_hop_sound(from, w, to, pairs);
        }
    }
    let c2 = if from != z && to != z { push_some(c1, two_hop_spec(from, z, to, pairs)) } else { c1 };
    assert forall|k: int| 0 <= k < c2.len() implies route_ok(#[trigger] c2[k], pairs) by {
        if k >= c1.len() {
            lemma_two_hop_sound(from, z, to, pairs);
        }
    }
    assert(c2 == candidates_spec(from, to, pairs));
}

/// A two-hop route through a third token is sound.
proof fn lemma_two_hop_sound(from: Address, mid: Address, to: Address, pairs: Map<PairId, Pair>)
    requires
        from != to,
        from != mid,
        mid != to,
        two_hop_spec(from, mid, to, pairs) is Some,
    ensures
        route_ok(two_hop_spec(from, mid, to, pairs)->0, pairs),
{
    let s = two_hop_spec(from, mid, to, pairs)->0;
    assert(s[0].pair_id != s[1].pair_id);
}

/// The best of sound candidates is sound.
proof fn lemma_best_keeps(c: Seq<Seq<SwapStep>>, amount_in: u128, pairs: Map<PairId, Pair>)
    requires
        c.len() > 0,
        forall|k: int| 0 <= k < c.len() ==> route_ok(#[trigger] c[k], pairs),
    ensures
        route_ok(best_spec(c, amount_in, pairs), pairs),
    decreases c.len(),
{
    if c.len() > 1 {
        let d = c.drop_last();
        assert forall|k: int| 0 <= k < d.len() implies route_ok(#[trigger] d[k], pairs) by {
            assert(d[k] == c[k]);
        }
        lemma_best_keeps(d, amount_in, pairs);
        assert(route_ok(c[c.len() - 1], pairs));
    }
}

/// The outcome of a swap of `amount_in` of `token_in` for `token_out` by
/// `trader` on `s`, leaving `t` and answering `r`: refused when no route
/// exists, then when the trader holds too little; otherwise the best route
/// runs, and on success the trader pays `amount_in` and receives exactly
/// the route's quoted output.
pub open spec fn swap_post(s: DexEngine, t: DexEngine, trader: Address, token_in: Address, token_out: Address,
    amount_in: u128, min_amount_out: u128, block_number: u64, r: Result<SwapEvent, DexError>) -> bool {
    let pairs = s.pool_factory.pairs.view();
    let c = candidates_spec(token_in, token_out, pairs);
    let bal = s.allowances.balance_spec(token_in, trader);
    if token_in == token_out || amount_in == 0 || c.len() == 0 {
        r matches Err(DexError::NoRoute) && t == s
    } else if bal < amount_in {
        r matches Err(DexError::InsufficientInputBalance { have, need }) && have == bal && need == amount_in && t == s
    } else {
        let best = best_spec(c, amount_in, pairs);
        &&& t.token_factory == s.token_factory
        &&& t.lp_registry == s.lp_registry
        &&& t.pool_events == s.pool_events
        &&& t.pool_factory.events == s.pool_factory.events
        &&& t.pool_factory.treasury_balance == s.pool_factory.treasury_balance
        &&& t.pool_factory.fee_registry == s.pool_factory.fee_registry
        &&& t.pool_factory.pairs.view().dom() == pairs.dom()
        &&& forall|q: PairId| pairs.dom().contains(q) && !on_prefix(best, best.len() as int, q)
            ==> #[trigger] t.pool_factory.pairs.view()[q] == pairs[q]
        &&& match r {
            Ok(ev) => {
                &&& ev.trader == trader && ev.token_in == token_in && ev.token_out == token_out
                &&& ev.amount_in == amount_in && ev.block_number == block_number
                &&& ev.hops == best.len()
                &&& ev.amount_out == simulate_spec(best, amount_in, pairs)
                &&& ev.amount_out >= min_amount_out
                &&& t.swap_events@ == s.swap_events@.push(ev)
                &&& t.fee_collected(token_in) == clamp_u128(s.fee_collected(token_in) + ev.protocol_fee_collected)
                &&& forall|tk: Address| tk != token_in ==> #[trigger] t.fee_collected(tk) == s.fee_collected(tk)
                &&& s.allowances.same_approvals(&t.allowances)
                &&& t.allowances.balance_spec(token_in, trader) == bal - amount_in
                &&& t.allowances.balance_spec(token_out, trader) == clamp_u128(
                    s.allowances.balance_spec(token_out, trader) + ev.amount_out)
                &&& forall|tk: Address, o: Address| (tk, o) != (token_in, trader) && (tk, o) != (token_out, trader)
                    ==> #[trigger] t.allowances.balance_spec(tk, o) == s.allowances.balance_spec(tk, o)
                &&& volume_recorded(s.pool_factory.spec_records(), t.pool_factory.spec_records(), best,
                    best.len() as int, amount_in)
            },
            Err(e) => {
                &&& e is Amm
                &&& t.allowances == s.allowances
                &&& t.swap_events == s.swap_events
                &&& t.protocol_fees == s.protocol_fees
                &&& t.pool_factory.pool_records == s.pool_factory.pool_records
            },
        }
    }
}

/// Adds `v` to the record of each pool on `steps` (saturating).
fn record_route_volume(f: &mut PoolFactory, steps: &Vec<SwapStep>, v: u128)
    requires
        old(f).wf(),
        distinct_pools(steps@),
    ensures
        final(f).wf(),
        final(f).pairs == old(f).pairs,
        final(f).events == old(f).events,
        final(f).treasury_balance == old(f).treasury_balance,
        final(f).fee_registry == old(f).fee_registry,
        volume_recorded(old(f).spec_records(), final(f).spec_records(), steps@, steps@.len() as int, v),
{
    let ghost s0 = old(f).spec_records();
    let mut i: usize = 0;
    while i < steps.len()
        invariant
            f.wf(),
            0 <= i <= steps@.len(),
            distinct_pools(steps@),
            f.pairs == old(f).pairs,
            f.events == old(f).events,
            f.treasury_balance == old(f).treasury_balance,
            f.fee_registry == old(f).fee_registry,
            s0 == old(f).spec_records(),
            volume_recorded(s0, f.spec_records(), steps@, i as int, v),
        decreases steps@.len() - i,
    {
        let ghost before = f.spec_records();
        let pid = steps[i].pair_id;
        f.record_volume(&pid, v);
        proof {
            assert forall|q: PairId| #[trigger] s0.dom().contains(q) implies f.spec_records()[q] == (if on_prefix(steps@,
                i + 1, q) { add_volume(s0[q], v) } else { s0[q] }) by {
                if q == pid {
                    assert(on_prefix(steps@, i + 1, q));
                    if on_prefix(steps@, i as int, q) {
                        let j = choose|j: int| 0 <= j < i && (#[trigger] steps@[j]).pair_id == q;
                        assert(steps@[j].pair_id != steps@[i as int].pair_id);
                    }
                } else {
                    if on_prefix(steps@, i + 1, q) {
                        let j = choose|j: int| 0 <= j < i + 1 && (#[trigger] steps@[j]).pair_id == q;
                        assert(on_prefix(steps@, i as int, q));
                    }
                }
            }
        }
        i += 1;
    }
}

/// Adds `v` to the fees collected in `token` (saturating).
fn add_protocol_fee(fees: &mut Table<Address, u128>, token: Address, v: u128)
    requires
        old(fees).wf(),
    ensures
        final(fees).wf(),
        amount_of(final(fees).view(), token) == clamp_u128(amount_of(old(fees).view(), token) + v),
        forall|tk: Address| tk != token ==> #[trigger] amount_of(final(fees).view(), tk) == amount_of(old(fees).view(), tk),
{
    let cur = match fees.get(&token) {
        Some(x) => *x,
        None => 0,
    };
    fees.set(token, cur.saturating_add(v));
}

/// Pools, tokens, balances, LP tokens, event logs and protocol fees.
pub struct DexEngine {
    /// All pools.
    pub pool_factory: PoolFactory,
    /// All user tokens.
    pub token_factory: TokenFactory,
    /// Token balances and approvals.
    pub allowances: AllowanceRegistry,
    /// LP token balances.
    pub lp_registry: LpRegistry,
    /// Swaps, oldest first.
    pub swap_events: Vec<SwapEvent>,
    /// Pool creations, oldest first.
    pub pool_events: Vec<PoolCreatedEvent>,
    /// Protocol swap fees collected per input token.
    pub protocol_fees: Table<Address, u128>,
}

impl DexEngine {
    /// The protocol fees collected in `token`.
    pub open spec fn fee_collected(&self, token: Address) -> u128 {
        amount_of(self.protocol_fees.view(), token)
    }

    /// Internal consistency: every part is well formed, and no pool pairs a
    /// token with itself.
    pub open spec fn wf(&self) -> bool {
        &&& self.pool_factory.wf()
        &&& self.token_factory.wf()
        &&& self.allowances.wf()
        &&& self.lp_registry.wf()
        &&& self.protocol_fees.wf()
        &&& forall|q: PairId| #[trigger] self.pool_factory.pairs.view().dom().contains(q) ==> q.token_a != q.token_b
    }

    /// An empty DEX with the default fees.
    pub fn new() -> (r: Self)
        ensures
            r.wf(),
            r.pool_factory.pairs.view() == Map::<PairId, Pair>::empty(),
            r.pool_factory.events@.len() == 0,
            r.pool_factory.treasury_balance == 0,
            r.pool_factory.spec_fees().has_default_fees(),
            r.token_factory.spec_tokens() == Map::<Address, TokenRecord>::empty(),
            r.token_factory.spec_fees().has_default_fees(),
            forall|t: Address, o: Address| #[trigger] r.allowances.balance_spec(t, o) == 0,
            forall|t: Address, o: Address, s: Address| #[trigger] r.allowances.approval_of(t, o, s) is None,
            forall|p: PairId, o: Address| #[trigger] r.lp_registry.balance_spec(p, o) == 0,
            r.swap_events@.len() == 0,
            r.pool_events@.len() == 0,
            forall|t: Address| #[trigger] r.fee_collected(t) == 0,
    {
        DexEngine {
            pool_factory: PoolFactory::new(),
            token_factory: TokenFactory::new(),
            allowances: AllowanceRegistry::new(),
            lp_registry: LpRegistry::new(),
            swap_events: Vec::new(),
            pool_events: Vec::new(),
            protocol_fees: Table::new(),
        }
    }

    /// Creates the pool of `token_a`/`token_b` through the pool factory
    /// (the creator pays the pool creation fee) and logs its event.
    pub fn create_pool(&mut self, token_a: Address, token_b: Address, fee_tier: FeeTier, creator: Address,
        creator_zbx_balance: u128, block_number: u64) -> (r: Result<Address, DexError>)
        requires
            old(self).wf(),
        ensures
            final(self).wf(),
            r is Ok || r matches Err(DexError::Amm(_)),
            final(self).pool_factory.spec_fees() == old(self).pool_factory.spec_fees(),
            create_pool_post(old(self).pool_factory, final(self).pool_factory, token_a, token_b, fee_tier, creator,
                creator_zbx_balance, block_number, pool_result(r, old(self).pool_factory.spec_fees().pool_creation_fee)),
            r is Ok ==> final(self).pool_events@ == old(self).pool_events@.push(final(self).pool_factory.events@.last()),
            r is Err ==> final(self).pool_events == old(self).pool_events,
            final(self).token_factory == old(self).token_factory,
            final(self).allowances == old(self).allowances,
            final(self).lp_registry == old(self).lp_registry,
            final(self).swap_events == old(self).swap_events,
            final(self).protocol_fees == old(self).protocol_fees,
    {
        match self.pool_factory.create_pool(token_a, token_b, fee_tier, creator, creator_zbx_balance, block_number) {
            Ok((addr, _fee)) => {
                let n = self.pool_factory.events.len();
                let evt = self.pool_factory.events[n - 1];
                self.pool_events.push(evt);
                proof {
                    assert forall|q: PairId| #[trigger] self.pool_factory.pairs.view().dom().contains(q)
                        implies q.token_a != q.token_b by {
                        if !old(self).pool_factory.pairs.view().dom().contains(q) {
                            crate::common::lemma_lex_lt_irreflexive(token_a.0@);
                        }
                    }
                }
                Ok(addr)
            },
            Err(e) => Err(DexError::Amm(e)),
        }
    }

    /// Creates a token through the token factory and credits its whole
    /// initial supply to the creator (saturating).
    pub fn create_token(&mut self, params: CreateTokenParams) -> (r: Result<Address, DexError>)
        requires
            old(self).wf(),
            old(self).token_factory.spec_nonce(params.creator) < u64::MAX,
        ensures
            final(self).wf(),
            r is Ok || r matches Err(DexError::Token(_)),
            create_token_post(old(self).token_factory, final(self).token_factory, params, token_result(r)),
            r matches Ok(addr) ==> {
                &&& old(self).allowances.same_approvals(&final(self).allowances)
                &&& final(self).allowances.balance_spec(addr, params.creator) == clamp_u128(
                    old(self).allowances.balance_spec(addr, params.creator) + params.total_supply)
                &&& forall|t: Address, o: Address| (t, o) != (addr, params.creator)
                    ==> #[trigger] final(self).allowances.balance_spec(t, o) == old(self).allowances.balance_spec(t, o)
            },
            r is Err ==> final(self).allowances == old(self).allowances,
            final(self).pool_factory == old(self).pool_factory,
            final(self).lp_registry == old(self).lp_registry,
            final(self).swap_events == old(self).swap_events,
            final(self).pool_events == old(self).pool_events,
            final(self).protocol_fees == old(self).protocol_fees,
    {
        let supply = params.total_supply;
        let creator = params.creator;
        match self.token_factory.create_token(params) {
            Ok(addr) => {
                self.allowances.add_balance(addr, creator, supply);
                Ok(addr)
            },
            Err(e) => Err(DexError::Token(e)),
        }
    }

    /// Spends exactly `amount_in` of `token_in` for `token_out` along the
    /// best route (one or two hops): finds the route, checks the trader's
    /// balance, runs the route, debits the input, credits the output, adds the
    /// protocol fee to the input token's tally, records the volume on every
    /// pool used, and logs the swap.
    pub fn buy(&mut self, trader: Address, token_in: Address, token_out: Address, amount_in: u128, min_amount_out: u128,
        deadline: u64, block_timestamp: u64, block_number: u64) -> (r: Result<SwapEvent, DexError>)
        requires
            old(self).wf(),
        ensures
            final(self).wf(),
            swap_post(*old(self), *final(self), trader, token_in, token_out, amount_in, min_amount_out, block_number, r),
    {
        let route = match find_best_route(token_in, token_out, amount_in, &self.pool_factory.pairs) {
            Some(rt) => rt,
            None => return Err(DexError::NoRoute),
        };
        let balance = self.allowances.balance_of(&token_in, &trader);
        if balance < amount_in {
            return Err(DexError::InsufficientInputBalance { have: balance, need: amount_in });
        }
        let hops = route.hops();
        let ghost pairs0 = self.pool_factory.pairs.view();
        proof {
            lemma_best_route_sound(token_in, token_out, amount_in, pairs0);
        }
        let ghost s0 = *self;
        let res = execute_route(&route, &mut self.pool_factory.pairs, min_amount_out, deadline, block_timestamp);
        proof {
            assert forall|q: PairId| pairs0.dom().contains(q) && !on_prefix(route.steps@, route.steps@.len() as int, q)
                implies #[trigger] self.pool_factory.pairs.view()[q] == pairs0[q] by {
                assert forall|i: int| 0 <= i < route.steps@.len() implies (#[trigger] route.steps@[i]).pair_id != q by {
                    if route.steps@[i].pair_id == q {
                        assert(on_prefix(route.steps@, route.steps@.len() as int, q));
                    }
                }
            }
        }
        let (amount_out, total_protocol_fee) = match res {
            Ok(v) => v,
            Err(e) => return Err(DexError::Amm(e)),
        };
        match self.allowances.sub_balance(token_in, trader, amount_in) {
            Ok(()) => {},
            Err(e) => return Err(DexError::Approval(e)),
        }
        self.allowances.add_balance(token_out, trader, amount_out);
        add_protocol_fee(&mut self.protocol_fees, token_in, total_protocol_fee);
        record_route_volume(&mut self.pool_factory, &route.steps, amount_in);
        let event = SwapEvent {
            trader,
            token_in,
            token_out,
            amount_in,
            amount_out,
            hops,
            protocol_fee_collected: total_protocol_fee,
            block_number,
        };
        self.swap_events.push(event);
        Ok(event)
    }

    /// The same as `buy`: selling `token_in` for `token_out` is buying
    /// `token_out` with `token_in`.
    pub fn sell(&mut self, trader: Address, token_in: Address, token_out: Address, amount_in: u128, min_amount_out: u128,
        deadline: u64, block_timestamp: u64, block_number: u64) -> (r: Result<SwapEvent, DexError>)
        requires
            old(self).wf(),
        ensures
            final(self).wf(),
            swap_post(*old(self), *final(self), trader, token_in, token_out, amount_in, min_amount_out, block_number, r),
    {
        self.buy(trader, token_in, token_out, amount_in, min_amount_out, deadline, block_timestamp, block_number)
    }

    /// Deposits `amount_a` / `amount_b` (in the pair's token order) into the
    /// pool of the two tokens and mints the LP tokens to the provider, who
    /// must hold both amounts and is debited what the pool used. When the
    /// provider's LP balance or the LP supply would overflow, the pool is
    /// put back as it was and `Overflow` is returned.
    pub fn add_liquidity(&mut self, provider: Address, token_a: Address, token_b: Address, amount_a: u128, amount_b: u128,
        min_lp_out: u128, deadline: u64, block_timestamp: u64, block_number: u64)
        -> (r: Result<(AddLiquidityResult, LiquidityEvent), DexError>)
        requires
            old(self).wf(),
            ({
                let pid = pair_of(token_a, token_b);
                let params = AddLiquidityParams { amount_a, amount_b, min_lp_out, deadline, block_timestamp };
                old(self).pool_factory.pairs.view().dom().contains(pid)
                    && add_liq_reaches_sqrt(old(self).pool_factory.pairs.view()[pid], params)
                    ==> amount_a * amount_b < u128::MAX
            }),
        ensures
            final(self).wf(),
            add_liquidity_dex_post(*old(self), *final(self), provider, token_a, token_b,
                AddLiquidityParams { amount_a, amount_b, min_lp_out, deadline, block_timestamp }, block_number, r),
    {
        let pair_id = PairId::new(token_a, token_b);
        let bal_a = self.allowances.balance_of(&pair_id.token_a, &provider);
        let bal_b = self.allowances.balance_of(&pair_id.token_b, &provider);
        if bal_a < amount_a {
            return Err(DexError::InsufficientInputBalance { have: bal_a, need: amount_a });
        }
        if bal_b < amount_b {
            return Err(DexError::InsufficientInputBalance { have: bal_b, need: amount_b });
        }
        if !self.pool_factory.pairs.contains(&pair_id) {
            return Err(DexError::Amm(AmmError::PairNotFound));
        }
        let ghost pairs0 = self.pool_factory.pairs.view();
        let mut pair = match self.pool_factory.pairs.take(&pair_id) {
            Some(p) => p,
            None => return Err(DexError::Amm(AmmError::PairNotFound)),
        };
        let ghost p0 = pair;
        let old_ra = pair.reserve_a;
        let old_rb = pair.reserve_b;
        let old_lp = pair.total_lp;
        let params = AddLiquidityParams { amount_a, amount_b, min_lp_out, deadline, block_timestamp };
        let res = pair.add_liquidity(params);
        let result = match res {
            Err(e) => {
                self.pool_factory.pairs.set(pair_id, pair);
                proof {
                    assert(self.pool_factory.pairs.view().dom() =~= pairs0.dom());
                    assert(self.pool_factory.pairs.view() =~= pairs0.insert(pair_id, pair));
                }
                return Err(DexError::Amm(e));
            },
            Ok(v) => v,
        };
        let lp_bal = self.lp_registry.balance(&pair_id, &provider);
        let supply = self.lp_registry.total_supply(&pair_id);
        if lp_bal > u128::MAX - result.lp_minted || supply > u128::MAX - result.lp_minted {
            let ghost pm = pair;
            pair.reserve_a = old_ra;
            pair.reserve_b = old_rb;
            pair.total_lp = old_lp;
            self.pool_factory.pairs.set(pair_id, pair);
            proof {
                assert(self.pool_factory.pairs.view().dom() =~= pairs0.dom());
                assert(self.pool_factory.pairs.view() =~= pairs0.insert(pair_id, pair));
                assert(add_liquidity_post(p0, params, pm, Ok(result)));
            }
            return Err(DexError::Amm(AmmError::Overflow));
        }
        self.pool_factory.pairs.set(pair_id, pair);
        proof {
            assert(self.pool_factory.pairs.view().dom() =~= pairs0.dom());
            assert(self.pool_factory.pairs.view() =~= pairs0.insert(pair_id, pair));
            lemma_deposit_within(p0, params);
        }
        match self.allowances.sub_balance(pair_id.token_a, provider, result.used_a) {
            Ok(()) => {},
            Err(e) => return Err(DexError::Approval(e)),
        }
        match self.allowances.sub_balance(pair_id.token_b, provider, result.used_b) {
            Ok(()) => {},
            Err(e) => return Err(DexError::Approval(e)),
        }
        self.lp_registry.mint(&pair_id, provider, result.lp_minted);
        let event = LiquidityEvent {
            provider,
            pair_id,
            lp_minted: result.lp_minted,
            used_a: result.used_a,
            used_b: result.used_b,
            block_number,
        };
        Ok((result, event))
    }

    /// Burns `lp_amount` of the provider's LP tokens of the pool of the two
    /// tokens and credits both shares of the reserves (saturating).
    pub fn remove_liquidity(&mut self, provider: Address, token_a: Address, token_b: Address, lp_amount: u128,
        min_a_out: u128, min_b_out: u128, deadline: u64, block_timestamp: u64) -> (r: Result<RemoveLiquidityResult, DexError>)
        requires
            old(self).wf(),
        ensures
            final(self).wf(),
            remove_liquidity_dex_post(*old(self), *final(self), provider, token_a, token_b,
                RemoveLiquidityParams { lp_amount, min_a_out, min_b_out, deadline, block_timestamp }, r),
    {
        let pair_id = PairId::new(token_a, token_b);
        let lp_bal = self.lp_registry.balance(&pair_id, &provider);
        if lp_bal < lp_amount {
            return Err(DexError::Amm(AmmError::InsufficientLpBalance));
        }
        if !self.pool_factory.pairs.contains(&pair_id) {
            return Err(DexError::Amm(AmmError::PairNotFound));
        }
        let ghost pairs0 = self.pool_factory.pairs.view();
        let mut pair = match self.pool_factory.pairs.take(&pair_id) {
            Some(p) => p,
            None => return Err(DexError::Amm(AmmError::PairNotFound)),
        };
        let params = RemoveLiquidityParams { lp_amount, min_a_out, min_b_out, deadline, block_timestamp };
        let res = pair.remove_liquidity(params);
        self.pool_factory.pairs.set(pair_id, pair);
        proof {
            assert(self.pool_factory.pairs.view().dom() =~= pairs0.dom());
            assert(self.pool_factory.pairs.view() =~= pairs0.insert(pair_id, pair));
        }
        let result = match res {
            Err(e) => return Err(DexError::Amm(e)),
            Ok(v) => v,
        };
        match self.lp_registry.burn(&pair_id, provider, lp_amount) {
            Ok(()) => {},
            Err(_) => return Err(DexError::LpTransferFailed(String::from_str("insufficient LP balance"))),
        }
        self.allowances.add_balance(pair_id.token_a, provider, result.amount_a);
        self.allowances.add_balance(pair_id.token_b, provider, result.amount_b);
        Ok(result)
    }

    /// Approves `spender` for `owner`'s `token` (see the allowance registry).
    pub fn approve(&mut self, token: Address, owner: Address, spender: Address, amount: u128, expire_at_block: u64)
        -> (r: Result<(), DexError>)
        requires
            old(self).wf(),
        ensures
            final(self).wf(),
            r is Ok || r matches Err(DexError::Approval(_)),
            approve_post(old(self).allowances, final(self).allowances, token, owner, spender, amount, expire_at_block,
                approval_result(r)),
            only_allowances_changed(*old(self), *final(self)),
    {
        match self.allowances.approve(token, owner, spender, amount, expire_at_block) {
            Ok(()) => Ok(()),
            Err(e) => Err(DexError::Approval(e)),
        }
    }

    /// Moves `owner`'s `token` to `to` on `spender`'s allowance (see the
    /// allowance registry).
    pub fn transfer_from(&mut self, token: Address, owner: Address, to: Address, spender: Address, amount: u128,
        current_block: u64) -> (r: Result<(), DexError>)
        requires
            old(self).wf(),
        ensures
            final(self).wf(),
            r is Ok || r matches Err(DexError::Approval(_)),
            transfer_from_post(old(self).allowances, final(self).allowances, token, owner, to, spender, amount,
                current_block, approval_result(r)),
            only_allowances_changed(*old(self), *final(self)),
    {
        match self.allowances.transfer_from(token, owner, to, spender, amount, current_block) {
            Ok(()) => Ok(()),
            Err(e) => Err(DexError::Approval(e)),
        }
    }

    /// Moves `owner`'s `token` to `to` (see the allowance registry).
    pub fn transfer(&mut self, token: Address, owner: Address, to: Address, amount: u128) -> (r: Result<(), DexError>)
        requires
            old(self).wf(),
        ensures
            final(self).wf(),
            r is Ok || r matches Err(DexError::Approval(_)),
            transfer_post(old(self).allowances, final(self).allowances, token, owner, to, amount, approval_result(r)),
            only_allowances_changed(*old(self), *final(self)),
    {
        match self.allowances.transfer(token, owner, to, amount) {
            Ok(()) => Ok(()),
            Err(e) => Err(DexError::Approval(e)),
        }
    }

    /// Simulates a swap without changing anything: the best route's quoted
    /// output (none when there is no route or it quotes zero), its hops and
    /// its compounded price impact.
    pub fn quote(&self, token_in: Address, token_out: Address, amount_in: u128) -> (r: Option<QuoteResult>)
        requires
            self.wf(),
        ensures
            r == quote_spec_of(*self, token_in, token_out, amount_in),
    {
        let route = match find_best_route(token_in, token_out, amount_in, &self.pool_factory.pairs) {
            Some(rt) => rt,
            None => return None,
        };
        let amount_out = route.simulate(&self.pool_factory.pairs);
        if amount_out == 0 {
            return None;
        }
        let hops = route.hops();
        let ghost pairs = self.pool_factory.pairs.view();
        let mut cumulative_remaining: u128 = 10_000;
        let mut sim_amount: u128 = route.amount_in;
        let mut stopped = false;
        let mut i: usize = 0;
        while i < route.steps.len() && !stopped
            invariant
                self.wf(),
                pairs == self.pool_factory.pairs.view(),
                0 <= i <= route.steps@.len(),
                (cumulative_remaining, sim_amount, stopped) == impact_prefix(route.steps@, i as int, route.amount_in, pairs),
                cumulative_remaining <= 10_000,
            decreases route.steps@.len() - i,
        {
            let step = route.steps[i];
            match self.pool_factory.pairs.get(&step.pair_id) {
                Some(pair) => {
                    let r_in = if step.a_to_b { pair.reserve_a } else { pair.reserve_b };
                    let d = r_in.saturating_add(sim_amount);
                    let denom = if d > 1 { d } else { 1 };
                    let remaining_bps = sat_mul_u128(r_in, 10_000) / denom;
                    proof {
                        lemma_remaining_bounded(r_in as int, clamp_u128(r_in * 10_000), denom as int);
                        assert(cumulative_remaining * remaining_bps <= 10_000 * 10_000) by (nonlinear_arith)
                            requires cumulative_remaining <= 10_000, remaining_bps <= 10_000;
                        assert(cumulative_remaining * remaining_bps >= 0) by (nonlinear_arith)
                            requires cumulative_remaining >= 0, remaining_bps >= 0;
                    }
                    cumulative_remaining = sat_mul_u128(cumulative_remaining, remaining_bps) / 10_000;
                    sim_amount = pair.get_amount_out(sim_amount, step.a_to_b);
                    if sim_amount == 0 {
                        stopped = true;
                    }
                },
                None => {},
            }
            i += 1;
        }
        proof {
            if !stopped {
                assert(i == route.steps@.len());
            } else {
                lemma_impact_stays(route.steps@, i as int, route.steps@.len() as int, route.amount_in, pairs);
            }
        }
        let price_impact_bps = 10_000u32.saturating_sub(cumulative_remaining as u32);
        Some(QuoteResult { amount_in, amount_out, hops, price_impact_bps })
    }

    /// The platform fee and gas cost of an operation.
    pub fn estimate_fee(&self, op: DexOperation, gas_price_gwei: u64, amount: u128) -> (r: FeeEstimate)
        requires
            self.pool_factory.spec_fees().fee_computable(op, amount),
        ensures
            r.operation == op,
            r.platform_fee == self.pool_factory.spec_fees().spec_platform_fee(op, amount),
            r.gas_cost_wei == op.spec_gas() * (gas_price_gwei * 1_000_000_000),
            r.total_wei == clamp_u128(r.platform_fee + r.gas_cost_wei),
    {
        self.pool_factory.fee_registry().estimate_total_cost(op, gas_price_gwei, amount)
    }

    /// The balance of `owner` in `token`.
    pub fn balance_of(&self, token: &Address, owner: &Address) -> (r: u128)
        requires
            self.wf(),
        ensures
            r == self.allowances.balance_spec(*token, *owner),
    {
        self.allowances.balance_of(token, owner)
    }

    /// The LP balance of `owner` in the pool of the two tokens.
    pub fn lp_balance(&self, token_a: Address, token_b: Address, owner: &Address) -> (r: u128)
        requires
            self.wf(),
        ensures
            r == self.lp_registry.balance_spec(pair_of(token_a, token_b), *owner),
    {
        let pair_id = PairId::new(token_a, token_b);
        self.lp_registry.balance(&pair_id, owner)
    }

    /// The record of a user token.
    pub fn get_token(&self, addr: &Address) -> (r: Option<&TokenRecord>)
        requires
            self.wf(),
        ensures
            r matches Some(rec) ==> self.token_factory.spec_tokens().dom().contains(*addr)
                && *rec == self.token_factory.spec_tokens()[*addr],
            r is None ==> !self.token_factory.spec_tokens().dom().contains(*addr),
    {
        self.token_factory.get_token(addr)
    }

    /// The number of pools.
    pub fn pool_count(&self) -> (r: usize)
        ensures
            r == self.pool_factory.pairs.spec_entries().len(),
    {
        self.pool_factory.pool_count()
    }

    /// The number of user tokens.
    pub fn token_count(&self) -> (r: usize)
        ensures
            r == self.token_factory.spec_token_entries().len(),
    {
        self.token_factory.token_count()
    }

    /// The protocol fees collected in `token`.
    pub fn protocol_fees_collected(&self, token: &Address) -> (r: u128)
        requires
            self.wf(),
        ensures
            r == self.fee_collected(*token),
    {
        match self.protocol_fees.get(token) {
            Some(v) => *v,
            None => 0,
        }
    }
}

impl Default for DexEngine {
    fn default() -> (r: Self)
        ensures
            r.wf(),
            r.pool_factory.pairs.view() == Map::<PairId, Pair>::empty(),
            r.swap_events@.len() == 0,
    {
        Self::new()
    }
}

/// Only the balances and approvals changed.
pub open spec fn only_allowances_changed(s: DexEngine, t: DexEngine) -> bool {
    &&& t.pool_factory == s.pool_factory
    &&& t.token_factory == s.token_factory
    &&& t.lp_registry == s.lp_registry
    &&& t.swap_events == s.swap_events
    &&& t.pool_events == s.pool_events
    &&& t.protocol_fees == s.protocol_fees
}

/// Everything but the pools, balances and LP tokens is unchanged.
pub open spec fn liquidity_unchanged(s: DexEngine, t: DexEngine) -> bool {
    &&& t.token_factory == s.token_factory
    &&& t.swap_events == s.swap_events
    &&& t.pool_events == s.pool_events
    &&& t.protocol_fees == s.protocol_fees
    &&& t.pool_factory.pool_records == s.pool_factory.pool_records
    &&& t.pool_factory.events == s.pool_factory.events
    &&& t.pool_factory.treasury_balance == s.pool_factory.treasury_balance
    &&& t.pool_factory.fee_registry == s.pool_factory.fee_registry
}

/// The reserves, supply and settings of two pool states agree.
pub open spec fn same_pool_state(p: Pair, q: Pair) -> bool {
    &&& q.id == p.id && q.fee_tier == p.fee_tier && q.fee_a == p.fee_a && q.fee_b == p.fee_b && q.circuit == p.circuit
    &&& q.reserve_a == p.reserve_a && q.reserve_b == p.reserve_b && q.total_lp == p.total_lp
}

/// Minting `lp` LP tokens of `pid` to `provider` fits in `u128`.
pub open spec fn lp_mint_fits(s: DexEngine, pid: PairId, provider: Address, lp: u128) -> bool {
    &&& s.lp_registry.balance_spec(pid, provider) + lp <= u128::MAX
    &&& s.lp_registry.supply_spec(pid) + lp <= u128::MAX
}

/// The outcome of a deposit through the DEX.
pub open spec fn add_liquidity_dex_post(s: DexEngine, t: DexEngine, provider: Address, token_a: Address, token_b: Address,
    params: AddLiquidityParams, block_number: u64, r: Result<(AddLiquidityResult, LiquidityEvent), DexError>) -> bool {
    let pid = pair_of(token_a, token_b);
    let bal_a = s.allowances.balance_spec(pid.token_a, provider);
    let bal_b = s.allowances.balance_spec(pid.token_b, provider);
    let pairs = s.pool_factory.pairs.view();
    if bal_a < params.amount_a {
        r matches Err(DexError::InsufficientInputBalance { have, need }) && have == bal_a && need == params.amount_a && t == s
    } else if bal_b < params.amount_b {
        r matches Err(DexError::InsufficientInputBalance { have, need }) && have == bal_b && need == params.amount_b && t == s
    } else if !pairs.dom().contains(pid) {
        r matches Err(DexError::Amm(AmmError::PairNotFound)) && t == s
    } else {
        let p0 = pairs[pid];
        let p1 = t.pool_factory.pairs.view()[pid];
        &&& liquidity_unchanged(s, t)
        &&& t.pool_factory.pairs.view() == pairs.insert(pid, p1)
        &&& match r {
            Ok((res, ev)) => {
                &&& !p0.circuit.paused && !p0.reentrancy.is_locked()
                &&& add_liquidity_post(p0, params, p1, Ok(res))
                &&& lp_mint_fits(s, pid, provider, res.lp_minted)
                &&& ev == (LiquidityEvent { provider, pair_id: pid, lp_minted: res.lp_minted, used_a: res.used_a,
                    used_b: res.used_b, block_number })
                &&& s.allowances.same_approvals(&t.allowances)
                &&& t.allowances.balance_spec(pid.token_a, provider) == bal_a - res.used_a
                &&& t.allowances.balance_spec(pid.token_b, provider) == bal_b - res.used_b
                &&& forall|tk: Address, o: Address| (tk, o) != (pid.token_a, provider) && (tk, o) != (pid.token_b, provider)
                    ==> #[trigger] t.allowances.balance_spec(tk, o) == s.allowances.balance_spec(tk, o)
                &&& t.lp_registry.balance_spec(pid, provider) == s.lp_registry.balance_spec(pid, provider) + res.lp_minted
                &&& t.lp_registry.supply_spec(pid) == s.lp_registry.supply_spec(pid) + res.lp_minted
                &&& forall|q: PairId, o: Address| (q, o) != (pid, provider)
                    ==> #[trigger] t.lp_registry.balance_spec(q, o) == s.lp_registry.balance_spec(q, o)
                &&& forall|q: PairId| q != pid ==> #[trigger] t.lp_registry.supply_spec(q) == s.lp_registry.supply_spec(q)
            },
            Err(DexError::Amm(e)) => {
                &&& t.allowances == s.allowances
                &&& t.lp_registry == s.lp_registry
                &&& if p0.circuit.paused {
                    e is PoolPaused && p1 == p0
                } else if p0.reentrancy.is_locked() {
                    e is Reentrancy
                } else {
                    ||| add_liquidity_post(p0, params, p1, Err(e))
                    ||| e is Overflow && same_pool_state(p0, p1) && exists|res: AddLiquidityResult, pm: Pair|
                        add_liquidity_post(p0, params, pm, Ok(res)) && !lp_mint_fits(s, pid, provider, res.lp_minted)
                }
            },
            Err(_) => false,
        }
    }
}

/// The outcome of a withdrawal through the DEX.
pub open spec fn remove_liquidity_dex_post(s: DexEngine, t: DexEngine, provider: Address, token_a: Address,
    token_b: Address, params: RemoveLiquidityParams, r: Result<RemoveLiquidityResult, DexError>) -> bool {
    let pid = pair_of(token_a, token_b);
    let lpb = s.lp_registry.balance_spec(pid, provider);
    let pairs = s.pool_factory.pairs.view();
    if lpb < params.lp_amount {
        r matches Err(DexError::Amm(AmmError::InsufficientLpBalance)) && t == s
    } else if !pairs.dom().contains(pid) {
        r matches Err(DexError::Amm(AmmError::PairNotFound)) && t == s
    } else {
        let p0 = pairs[pid];
        let p1 = t.pool_factory.pairs.view()[pid];
        &&& liquidity_unchanged(s, t)
        &&& t.pool_factory.pairs.view() == pairs.insert(pid, p1)
        &&& match r {
            Ok(res) => {
                &&& !p0.circuit.paused && !p0.reentrancy.is_locked()
                &&& remove_liquidity_post(p0, params, p1, Ok(res))
                &&& t.lp_registry.balance_spec(pid, provider) == lpb - params.lp_amount
                &&& t.lp_registry.supply_spec(pid) == (if s.lp_registry.supply_spec(pid) >= params.lp_amount {
                    s.lp_registry.supply_spec(pid) - params.lp_amount } else { 0 })
                &&& forall|q: PairId, o: Address| (q, o) != (pid, provider)
                    ==> #[trigger] t.lp_registry.balance_spec(q, o) == s.lp_registry.balance_spec(q, o)
                &&& forall|q: PairId| q != pid ==> #[trigger] t.lp_registry.supply_spec(q) == s.lp_registry.supply_spec(q)
                &&& s.allowances.same_approvals(&t.allowances)
                &&& t.allowances.balance_spec(pid.token_a, provider) == clamp_u128(
                    s.allowances.balance_spec(pid.token_a, provider) + res.amount_a)
                &&& t.allowances.balance_spec(pid.token_b, provider) == clamp_u128(
                    s.allowances.balance_spec(pid.token_b, provider) + res.amount_b)
                &&& forall|tk: Address, o: Address| (tk, o) != (pid.token_a, provider) && (tk, o) != (pid.token_b, provider)
                    ==> #[trigger] t.allowances.balance_spec(tk, o) == s.allowances.balance_spec(tk, o)
            },
            Err(DexError::Amm(e)) => {
                &&& t.allowances == s.allowances
                &&& t.lp_registry == s.lp_registry
                &&& if p0.circuit.paused {
                    e is PoolPaused && p1 == p0
                } else if p0.reentrancy.is_locked() {
                    e is Reentrancy
                } else {
                    remove_liquidity_post(p0, params, p1, Err(e))
                }
            },
            Err(_) => false,
        }
    }
}

/// A deposit never uses more of a token than was offered.
proof fn lemma_deposit_within(p: Pair, params: AddLiquidityParams)
    ensures
        add_liquidity_amounts(p, params) matches Some((lp, ua, ub)) ==> ua <= params.amount_a && ub <= params.amount_b,
{
    if p.total_lp != 0 && add_liquidity_amounts(p, params) is Some {
        let t = p.total_lp as int;
        let lp_a = params.amount_a * t / (p.reserve_a as int);
        let lp_b = params.amount_b * t / (p.reserve_b as int);
        let lp = if lp_a < lp_b { lp_a } else { lp_b };
        lemma_share_back(params.amount_a as int, t, p.reserve_a as int, lp);
        lemma_share_back(params.amount_b as int, t, p.reserve_b as int, lp);
    }
}

/// `lp` shares of at most `a * t / r` are worth at most `a` at `r / t`.
proof fn lemma_share_back(a: int, t: int, r: int, lp: int)
    requires
        t > 0,
        r > 0,
        a >= 0,
        0 <= lp <= a * t / r,
    ensures
        lp * r / t <= a,
{
    let q = a * t / r;
    assert(q * r <= a * t) by (nonlinear_arith)
        requires q == a * t / r, r > 0, a >= 0, t > 0;
    assert(lp * r <= q * r) by (nonlinear_arith)
        requires lp <= q, r > 0;
    assert(lp * r >= 0) by (nonlinear_arith)
        requires lp >= 0, r > 0;
    assert(lp * r / t <= a * t / t) by (nonlinear_arith)
        requires lp * r <= a * t, t > 0, lp * r >= 0;
    assert(a * t / t == a) by (nonlinear_arith)
        requires t > 0;
}

/// One hop of the price-impact estimate: the share of the input reserve
/// left by the hop's input (in basis points) scales the running share, and
/// the hop's quoted output feeds the next hop.
pub open spec fn impact_step(cum: u128, sim: u128, p: Pair, a_to_b: bool) -> (u128, u128) {
    let r_in = if a_to_b { p.reserve_a } else { p.reserve_b };
    let d = clamp_u128(r_in + sim);
    let denom = if d > 1 { d } else { 1 };
    let remaining = clamp_u128(r_in * 10_000) / denom;
    ((clamp_u128(cum * remaining) / 10_000) as u128, quote_spec(p, sim, a_to_b))
}

/// The running share (basis points), the running amount, and whether the
/// estimate stopped on a zero amount, after the first `k` hops; a hop whose
/// pool is missing is skipped.
pub open spec fn impact_prefix(steps: Seq<SwapStep>, k: int, amount_in: u128, pairs: Map<PairId, Pair>) -> (u128, u128, bool)
    decreases k,
{
    if k <= 0 {
        (10_000, amount_in, false)
    } else {
        let prev = impact_prefix(steps, k - 1, amount_in, pairs);
        if prev.2 || !pairs.dom().contains(steps[k - 1].pair_id) {
            prev
        } else {
            let next = impact_step(prev.0, prev.1, pairs[steps[k - 1].pair_id], steps[k - 1].a_to_b);
            (next.0, next.1, next.1 == 0)
        }
    }
}

/// What `quote` answers on `d`.
pub open spec fn quote_spec_of(d: DexEngine, token_in: Address, token_out: Address, amount_in: u128) -> Option<QuoteResult> {
    let pairs = d.pool_factory.pairs.view();
    let c = candidates_spec(token_in, token_out, pairs);
    if token_in == token_out || amount_in == 0 || c.len() == 0 {
        None
    } else {
        let best = best_spec(c, amount_in, pairs);
        let out = simulate_spec(best, amount_in, pairs);
        if out == 0 {
            None
        } else {
            Some(QuoteResult {
                amount_in,
                amount_out: out,
                hops: best.len() as usize,
                price_impact_bps: (10_000 - impact_prefix(best, best.len() as int, amount_in, pairs).0) as u32,
            })
        }
    }
}

/// Once the estimate has stopped, later hops change nothing.
proof fn lemma_impact_stays(steps: Seq<SwapStep>, i: int, k: int, amount_in: u128, pairs: Map<PairId, Pair>)
    requires
        0 <= i <= k,
        impact_prefix(steps, i, amount_in, pairs).2,
    ensures
        impact_prefix(steps, k, amount_in, pairs) == impact_prefix(steps, i, amount_in, pairs),
    decreases k - i,
{
    if k > i {
        lemma_impact_stays(steps, i, k - 1, amount_in, pairs);
    }
}

/// The share of a reserve left by an input is at most 10000 basis points.
proof fn lemma_remaining_bounded(r_in: int, x: int, denom: int)
    requires
        0 <= r_in,
        0 <= x <= r_in * 10_000,
        denom >= 1,
        denom >= r_in,
    ensures
        x / denom <= 10_000,
{
    assert(x <= denom * 10_000) by (nonlinear_arith)
        requires x <= r_in * 10_000, denom >= r_in, r_in >= 0;
    assert(x / denom <= 10_000) by (nonlinear_arith)
        requires x <= denom * 10_000, denom >= 1, x >= 0;
}

/// Buying pays out exactly the amount that a quote on the same state
/// promises.
pub proof fn lemma_swap_pays_quote(s: DexEngine, t: DexEngine, trader: Address, token_in: Address, token_out: Address,
    amount_in: u128, min_amount_out: u128, block_number: u64, ev: SwapEvent)
    requires
        swap_post(s, t, trader, token_in, token_out, amount_in, min_amount_out, block_number, Ok(ev)),
    ensures
        quote_spec_of(s, token_in, token_out, amount_in) matches Some(q) ==> q.amount_out == ev.amount_out && q.hops == ev.hops,
{
}

} // verus!
