//! Routing swaps across pools: directly, or in two hops through wrapped ZBX
//! or ZUSD, choosing the route with the highest quoted output.

use vstd::prelude::*;
use crate::common::{lex_lt, Address};
use crate::pool::canonical_pairs::{wzbx, zusd, WZBX_ADDR, ZUSD_ADDR};
use crate::pool::error::AmmError;
use crate::pool::fee::FeeTier;
use crate::pool::pair::{
    amount_out_spec, protocol_fee_spec, reserves_for, swap_math_overflows, swap_precheck_fails, Pair, PairId,
    swap_post, SwapParams,
};
use crate::table::{Table, TableKey};

verus! {

/// One hop of a route.
#[derive(Debug, Clone, Copy)]
pub struct SwapStep {
    pub pair_id: PairId,
    /// Whether the hop sells token A for token B.
    pub a_to_b: bool,
}

/// A route: its hops in order and the input amount.
#[derive(Debug, Clone)]
pub struct SwapRoute {
    pub steps: Vec<SwapStep>,
    pub amount_in: u128,
}

/// The quote of a pool (as `Pair::get_amount_out` gives it).
pub open spec fn quote_spec(p: Pair, amount_in: u128, a_to_b: bool) -> u128 {
    let (r_in, r_out) = reserves_for(p, a_to_b);
    if r_in == 0 || r_out == 0 || amount_in == 0 || swap_math_overflows(amount_in, r_in, r_out, p.fee_tier) {
        0
    } else {
        amount_out_spec(amount_in, r_in, r_out, p.fee_tier) as u128
    }
}

/// The output of one hop fed `amount`: zero when its pool is missing.
pub open spec fn hop_out(amount: u128, s: SwapStep, pairs: Map<PairId, Pair>) -> u128 {
    if pairs.dom().contains(s.pair_id) { quote_spec(pairs[s.pair_id], amount, s.a_to_b) } else { 0 }
}

/// The quoted amount after the first `k` hops of `steps`.
pub open spec fn sim_prefix(steps: Seq<SwapStep>, k: int, amount_in: u128, pairs: Map<PairId, Pair>) -> u128
    decreases k,
{
    if k <= 0 {
        amount_in
    } else {
        hop_out(sim_prefix(steps, k - 1, amount_in, pairs), steps[k - 1], pairs)
    }
}

/// The quoted output of a whole route.
pub open spec fn simulate_spec(steps: Seq<SwapStep>, amount_in: u128, pairs: Map<PairId, Pair>) -> u128 {
    sim_prefix(steps, steps.len() as int, amount_in, pairs)
}

/// The pair of two tokens, smaller address first.
pub open spec fn pair_of(a: Address, b: Address) -> PairId {
    if lex_lt(a.0@, b.0@) { PairId { token_a: a, token_b: b } } else { PairId { token_a: b, token_b: a } }
}

/// The hop that sells `from` in the pair of `from` and `to`.
pub open spec fn hop_spec(from: Address, to: Address) -> SwapStep {
    SwapStep { pair_id: pair_of(from, to), a_to_b: pair_of(from, to).token_a == from }
}

/// The direct route, if its pool exists.
pub open spec fn direct_spec(from: Address, to: Address, pairs: Map<PairId, Pair>) -> Option<Seq<SwapStep>> {
    if pairs.dom().contains(pair_of(from, to)) { Some(seq![hop_spec(from, to)]) } else { None }
}

/// The route through `mid`, if both its pools exist.
pub open spec fn two_hop_spec(from: Address, mid: Address, to: Address, pairs: Map<PairId, Pair>) -> Option<Seq<SwapStep>> {
    if pairs.dom().contains(pair_of(from, mid)) && pairs.dom().contains(pair_of(mid, to)) {
        Some(seq![hop_spec(from, mid), hop_spec(mid, to)])
    } else {
        None
    }
}

/// `s` with `o`'s route appended when there is one.
pub open spec fn push_some(s: Seq<Seq<SwapStep>>, o: Option<Seq<SwapStep>>) -> Seq<Seq<SwapStep>> {
    match o {
        Some(r) => s.push(r),
        None => s,
    }
}

/// The candidate routes in order: direct, through wrapped ZBX (unless an
/// end is wrapped ZBX), through ZUSD (unless an end is ZUSD).
pub open spec fn candidates_spec(from: Address, to: Address, pairs: Map<PairId, Pair>) -> Seq<Seq<SwapStep>> {
    let w = Address(WZBX_ADDR);
    let z = Address(ZUSD_ADDR);
    let c0 = push_some(Seq::empty(), direct_spec(from, to, pairs));
    let c1 = if from != w && to != w { push_some(c0, two_hop_spec(from, w, to, pairs)) } else { c0 };
    if from != z && to != z { push_some(c1, two_hop_spec(from, z, to, pairs)) } else { c1 }
}

/// The best of non-empty candidates: the highest quoted output, the later
/// one on a tie.
pub open spec fn best_spec(c: Seq<Seq<SwapStep>>, amount_in: u128, pairs: Map<PairId, Pair>) -> Seq<SwapStep>
    decreases c.len(),
{
    if c.len() <= 1 {
        c[0]
    } else {
        let b = best_spec(c.drop_last(), amount_in, pairs);
        if simulate_spec(c.last(), amount_in, pairs) >= simulate_spec(b, amount_in, pairs) { c.last() } else { b }
    }
}

/// The best of non-empty candidates is one of them, and its quoted output
/// is at least that of every candidate.
pub proof fn lemma_best_is_max(c: Seq<Seq<SwapStep>>, amount_in: u128, pairs: Map<PairId, Pair>)
    requires
        c.len() >= 1,
    ensures
        forall|i: int| 0 <= i < c.len()
            ==> simulate_spec(#[trigger] c[i], amount_in, pairs) <= simulate_spec(best_spec(c, amount_in, pairs), amount_in, pairs),
        exists|i: int| 0 <= i < c.len() && #[trigger] c[i] == best_spec(c, amount_in, pairs),
    decreases c.len(),
{
    if c.len() == 1 {
        assert(c[0] == best_spec(c, amount_in, pairs));
    } else {
        let d = c.drop_last();
        lemma_best_is_max(d, amount_in, pairs);
        let b = best_spec(d, amount_in, pairs);
        assert forall|i: int| 0 <= i < c.len()
            implies simulate_spec(#[trigger] c[i], amount_in, pairs) <= simulate_spec(best_spec(c, amount_in, pairs), amount_in, pairs) by {
            if i < c.len() - 1 {
                assert(c[i] == d[i]);
            }
        }
        if simulate_spec(c.last(), amount_in, pairs) >= simulate_spec(b, amount_in, pairs) {
            assert(c[c.len() - 1] == best_spec(c, amount_in, pairs));
        } else {
            let j = choose|j: int| 0 <= j < d.len() && #[trigger] d[j] == b;
            assert(c[j] == best_spec(c, amount_in, pairs));
        }
    }
}

/// The route chosen among the candidates quotes at least as much as the
/// direct route and as each two-hop route through wrapped ZBX or ZUSD that
/// exists, and it is one of those routes.
pub proof fn lemma_best_route_beats_every_candidate(from: Address, to: Address, amount_in: u128,
    pairs: Map<PairId, Pair>)
    requires
        candidates_spec(from, to, pairs).len() > 0,
    ensures
        ({
            let b = best_spec(candidates_spec(from, to, pairs), amount_in, pairs);
            let w = Address(WZBX_ADDR);
            let z = Address(ZUSD_ADDR);
            &&& direct_spec(from, to, pairs) matches Some(d)
                ==> simulate_spec(d, amount_in, pairs) <= simulate_spec(b, amount_in, pairs)
            &&& from != w && to != w ==> (two_hop_spec(from, w, to, pairs) matches Some(t)
                ==> simulate_spec(t, amount_in, pairs) <= simulate_spec(b, amount_in, pairs))
            &&& from != z && to != z ==> (two_hop_spec(from, z, to, pairs) matches Some(t)
                ==> simulate_spec(t, amount_in, pairs) <= simulate_spec(b, amount_in, pairs))
            &&& (direct_spec(from, to, pairs) == Some(b)
                || (from != w && to != w && two_hop_spec(from, w, to, pairs) == Some(b))
                || (from != z && to != z && two_hop_spec(from, z, to, pairs) == Some(b)))
        }),
{
    let c = candidates_spec(from, to, pairs);
    let w = Address(WZBX_ADDR);
    let z = Address(ZUSD_ADDR);
    lemma_best_is_max(c, amount_in, pairs);
    let c0 = push_some(Seq::empty(), direct_spec(from, to, pairs));
    let c1 = if from != w && to != w { push_some(c0, two_hop_spec(from, w, to, pairs)) } else { c0 };
    if direct_spec(from, to, pairs) is Some {
        assert(c[0] == c0[0]);
    }
    if from != w && to != w && two_hop_spec(from, w, to, pairs) is Some {
        assert(c[c1.len() - 1] == c1[c1.len() - 1]);
    }
    if from != z && to != z && two_hop_spec(from, z, to, pairs) is Some {
        assert(c[c.len() - 1] == two_hop_spec(from, z, to, pairs)->0);
    }
    let b = best_spec(c, amount_in, pairs);
    let i = choose|i: int| 0 <= i < c.len() && #[trigger] c[i] == b;
    if i < c0.len() {
        assert(c[i] == c0[i]);
    } else if i < c1.len() {
        assert(c[i] == c1[i]);
    }
}

impl SwapRoute {
    /// The quoted output of the route over `pairs` (no guard applied).
    pub fn simulate(&self, pairs: &Table<PairId, Pair>) -> (r: u128)
        requires
            pairs.wf(),
        ensures
            r == simulate_spec(self.steps@, self.amount_in, pairs.view()),
    {
        let mut amount = self.amount_in;
        let mut i: usize = 0;
        while i < self.steps.len()
            invariant
                pairs.wf(),
                0 <= i <= self.steps@.len(),
                amount == sim_prefix(self.steps@, i as int, self.amount_in, pairs.view()),
            decreases self.steps@.len() - i,
        {
            let step = self.steps[i];
            match pairs.get(&step.pair_id) {
                Some(pair) => {
                    amount = pair.get_amount_out(amount, step.a_to_b);
                },
                None => {
                    amount = 0;
                },
            }
            i += 1;
        }
        amount
    }

    /// The number of hops.
    pub fn hops(&self) -> (r: usize)
        ensures
            r == self.steps@.len(),
    {
        self.steps.len()
    }
}

/// The hop selling `from` in its pair with `to`.
fn hop(from: Address, to: Address) -> (r: SwapStep)
    ensures
        r == hop_spec(from, to),
{
    let pid = PairId::new(from, to);
    let a_to_b = pid.token_a.same(&from);
    SwapStep { pair_id: pid, a_to_b }
}

fn build_direct(from: Address, to: Address, pairs: &Table<PairId, Pair>) -> (r: Option<Vec<SwapStep>>)
    requires
        pairs.wf(),
    ensures
        match direct_spec(from, to, pairs.view()) {
            Some(s) => r matches Some(v) && v@ == s,
            None => r is None,
        },
{
    let h = hop(from, to);
    if pairs.contains(&h.pair_id) {
        let v = vec![h];
        assert(v@ =~= seq![hop_spec(from, to)]);
        Some(v)
    } else {
        None
    }
}

fn build_two_hop(from: Address, mid: Address, to: Address, pairs: &Table<PairId, Pair>) -> (r: Option<Vec<SwapStep>>)
    requires
        pairs.wf(),
    ensures
        match two_hop_spec(from, mid, to, pairs.view()) {
            Some(s) => r matches Some(v) && v@ == s,
            None => r is None,
        },
{
    let h1 = hop(from, mid);
    let h2 = hop(mid, to);
    if !pairs.contains(&h1.pair_id) || !pairs.contains(&h2.pair_id) {
        return None;
    }
    let v = vec![h1, h2];
    assert(v@ =~= seq![hop_spec(from, mid), hop_spec(mid, to)]);
    Some(v)
}

/// The direct route from `from` to `to`, if its pool exists.
pub fn find_direct_route(from: Address, to: Address, amount_in: u128, pairs: &Table<PairId, Pair>) -> (r: Option<SwapRoute>)
    requires
        pairs.wf(),
    ensures
        match direct_spec(from, to, pairs.view()) {
            Some(s) => r matches Some(route) && route.steps@ == s && route.amount_in == amount_in,
            None => r is None,
        },
{
    match build_direct(from, to, pairs) {
        Some(steps) => Some(SwapRoute { steps, amount_in }),
        None => None,
    }
}

/// The best route from `from` to `to` for `amount_in`: none for the same
/// token, a zero amount, or when no candidate route has its pools; else
/// the candidate with the highest quoted output (the later one on a tie).
pub fn find_best_route(from: Address, to: Address, amount_in: u128, pairs: &Table<PairId, Pair>) -> (r: Option<SwapRoute>)
    requires
        pairs.wf(),
    ensures
        from == to || amount_in == 0 || candidates_spec(from, to, pairs.view()).len() == 0 ==> r is None,
        !(from == to || amount_in == 0 || candidates_spec(from, to, pairs.view()).len() == 0) ==> (r matches Some(route)
            && route.amount_in == amount_in
            && route.steps@ == best_spec(candidates_spec(from, to, pairs.view()), amount_in, pairs.view())),
        r matches Some(route) ==> forall|k: int| 0 <= k < candidates_spec(from, to, pairs.view()).len()
            ==> simulate_spec(#[trigger] candidates_spec(from, to, pairs.view())[k], amount_in, pairs.view())
                <= simulate_spec(route.steps@, amount_in, pairs.view()),
{
    if from.same(&to) || amount_in == 0 {
        return None;
    }
    let w = wzbx();
    let z = zusd();
    let ghost pv = pairs.view();
    let mut cands: Vec<SwapRoute> = Vec::new();
    match build_direct(from, to, pairs) {
        Some(steps) => cands.push(SwapRoute { steps, amount_in }),
        None => {},
    }
    let ghost c0 = push_some(Seq::empty(), direct_spec(from, to, pv));
    assert(cands@.len() == c0.len() && forall|i: int| 0 <= i < c0.len() ==> (#[trigger] cands@[i]).steps@ == c0[i]
        && cands@[i].amount_in == amount_in);
    if !from.same(&w) && !to.same(&w) {
        match build_two_hop(from, w, to, pairs) {
            Some(steps) => cands.push(SwapRoute { steps, amount_in }),
            None => {},
        }
    }
    let ghost c1 = if from != w && to != w { push_some(c0, two_hop_spec(from, w, to, pv)) } else { c0 };
    assert(cands@.len() == c1.len() && forall|i: int| 0 <= i < c1.len() ==> (#[trigger] cands@[i]).steps@ == c1[i]
        && cands@[i].amount_in == amount_in);
    if !from.same(&z) && !to.same(&z) {
        match build_two_hop(from, z, to, pairs) {
            Some(steps) => cands.push(SwapRoute { steps, amount_in }),
            None => {},
        }
    }
    let ghost c = candidates_spec(from, to, pv);
    assert(cands@.len() == c.len() && forall|i: int| 0 <= i < c.len() ==> (#[trigger] cands@[i]).steps@ == c[i]
        && cands@[i].amount_in == amount_in);
    if cands.len() == 0 {
        return None;
    }
    let mut best: usize = 0;
    let mut best_out = cands[0].simulate(pairs);
    let mut i: usize = 1;
    while i < cands.len()
        invariant
            pairs.wf(),
            pairs.view() == pv,
            cands@.len() == c.len(),
            forall|k: int| 0 <= k < c.len() ==> (#[trigger] cands@[k]).steps@ == c[k] && cands@[k].amount_in == amount_in,
            1 <= i <= cands@.len(),
            best < i,
            cands@[best as int].steps@ == best_spec(c.subrange(0, i as int), amount_in, pv),
            best_out == simulate_spec(cands@[best as int].steps@, amount_in, pv),
        decreases cands@.len() - i,
    {
        let out = cands[i].simulate(pairs);
        proof {
            let ci = c.subrange(0, i + 1);
            assert(ci.drop_last() =~= c.subrange(0, i as int));
            assert(ci.last() == c[i as int]);
        }
        if out >= best_out {
            best = i;
            best_out = out;
        }
        i += 1;
    }
    proof {
        assert(c.subrange(0, c.len() as int) =~= c);
        lemma_best_is_max(c, amount_in, pv);
    }
    let mut cands = cands;
    let route = cands.swap_remove(best);
    Some(route)
}

/// The protocol share of the fee on `amount`, if the product fits.
fn protocol_fee_of(amount: u128, tier: FeeTier) -> (r: Option<u128>)
    ensures
        amount * tier.spec_bps() <= u128::MAX ==> r == Some(protocol_fee_spec(amount, tier) as u128),
        amount * tier.spec_bps() > u128::MAX ==> r is None,
{
    match amount.checked_mul(tier.bps() as u128) {
        Some(v) => {
            let total = v / 10_000;
            Some(total / 5 + if total % 5 == 0 { 0 } else { 1 })
        },
        None => None,
    }
}

/// The protocol-fee counter of the input token of a hop.
pub open spec fn fee_counter(p: Pair, a_to_b: bool) -> u128 {
    if a_to_b { p.fee_a } else { p.fee_b }
}

/// The protocol fee of a hop is computable but the counter of its input
/// token could not take it.
pub open spec fn fee_counter_full(p: Pair, params: SwapParams) -> bool {
    &&& params.amount_in * p.fee_tier.spec_bps() <= u128::MAX
    &&& fee_counter(p, params.a_to_b) + protocol_fee_spec(params.amount_in, p.fee_tier) > u128::MAX
}

/// Runs one hop on `pair`, refusing with `Overflow` (and no change) when
/// the pool's protocol-fee counter could not take the fee.
fn guarded_swap(pair: &mut Pair, params: SwapParams) -> (r: Result<crate::pool::pair::SwapResult, AmmError>)
    ensures
        fee_counter_full(*old(pair), params) ==> (r matches Err(AmmError::Overflow)) && *final(pair) == *old(pair),
        !fee_counter_full(*old(pair), params) ==> swap_post(*old(pair), *final(pair), params, r),
        final(pair).id == old(pair).id,
        r matches Ok(res) ==> {
            let (r_in, r_out) = reserves_for(*old(pair), params.a_to_b);
            &&& !swap_precheck_fails(*old(pair), params)
            &&& res.amount_out == amount_out_spec(params.amount_in, r_in, r_out, old(pair).fee_tier)
            &&& res.protocol_fee == protocol_fee_spec(params.amount_in, old(pair).fee_tier)
            &&& res.amount_out >= params.min_amount_out
        },
{
    let fee_counter = if params.a_to_b { pair.fee_a } else { pair.fee_b };
    match protocol_fee_of(params.amount_in, pair.fee_tier) {
        Some(pf) => {
            if fee_counter > u128::MAX - pf {
                return Err(AmmError::Overflow);
            }
        },
        None => {
            proof {
                let t = pair.fee_tier;
                assert(params.amount_in * t.spec_bps() <= params.amount_in * fee_mult_of(t)) by (nonlinear_arith)
                    requires t.spec_bps() <= fee_mult_of(t), params.amount_in >= 0;
            }
        },
    }
    pair.swap(params)
}

/// `10000 - bps` of a tier.
pub open spec fn fee_mult_of(t: FeeTier) -> int {
    10_000 - t.spec_bps()
}

/// Whether no two hops of `steps` use the same pool.
pub open spec fn distinct_pools(steps: Seq<SwapStep>) -> bool {
    forall|i: int, j: int| 0 <= i < j < steps.len() ==> (#[trigger] steps[i]).pair_id != (#[trigger] steps[j]).pair_id
}

/// Runs each hop of `route` as a guarded swap (the last with the caller's
/// minimum output, the others with none), stopping at the first failure;
/// a hop whose pool is missing fails with `EmptyReserve`. Returns the final
/// output and the protocol fees of all hops (saturating sum).
pub fn execute_route(route: &SwapRoute, pairs: &mut Table<PairId, Pair>, min_amount_out: u128, deadline: u64,
    block_timestamp: u64) -> (r: Result<(u128, u128), AmmError>)
    requires
        old(pairs).wf(),
    ensures
        final(pairs).wf(),
        final(pairs).view().dom() == old(pairs).view().dom(),
        forall|q: PairId| old(pairs).view().dom().contains(q) && (forall|i: int| 0 <= i < route.steps@.len()
            ==> (#[trigger] route.steps@[i]).pair_id != q) ==> #[trigger] final(pairs).view()[q] == old(pairs).view()[q],
        route.steps@.len() == 0 ==> r == Ok::<(u128, u128), AmmError>((route.amount_in, 0)),
        route.steps@.len() > 0 && !old(pairs).view().dom().contains(route.steps@[0].pair_id)
            ==> (r matches Err(AmmError::EmptyReserve) && final(pairs).view() == old(pairs).view()),
        r matches Ok((out, _)) ==> (route.steps@.len() > 0 ==> out >= min_amount_out)
            && (distinct_pools(route.steps@) ==> out == simulate_spec(route.steps@, route.amount_in, old(pairs).view())),
{
    let ghost p0 = pairs.view();
    let n = route.steps.len();
    let mut amount = route.amount_in;
    let mut total_protocol_fee: u128 = 0;
    let mut i: usize = 0;
    while i < n
        invariant
            pairs.wf(),
            n == route.steps@.len(),
            0 <= i <= n,
            pairs.view().dom() == p0.dom(),
            forall|q: PairId| p0.dom().contains(q) && (forall|j: int| 0 <= j < route.steps@.len()
                ==> (#[trigger] route.steps@[j]).pair_id != q) ==> #[trigger] pairs.view()[q] == p0[q],
            i > 0 ==> amount >= (if i == n { min_amount_out } else { 0 }),
            distinct_pools(route.steps@) ==> amount == sim_prefix(route.steps@, i as int, route.amount_in, p0),
            distinct_pools(route.steps@) ==> forall|j: int| i <= j < n
                ==> #[trigger] pairs.view()[route.steps@[j].pair_id] == p0[route.steps@[j].pair_id],
            i == 0 ==> pairs.view() == p0 && amount == route.amount_in && total_protocol_fee == 0,
            i > 0 ==> p0.dom().contains(route.steps@[0].pair_id),
            p0 == old(pairs).view(),
        decreases n - i,
    {
        let step = route.steps[i];
        let ghost before = pairs.view();
        let mut pair = match pairs.take(&step.pair_id) {
            Some(p) => p,
            None => {
                proof {
                    assert(pairs.view() =~= before);
                }
                return Err(AmmError::EmptyReserve);
            },
        };
        let min_out = if i == n - 1 { min_amount_out } else { 0 };
        let ghost pair0 = pair;
        let res = guarded_swap(&mut pair, SwapParams {
            a_to_b: step.a_to_b,
            amount_in: amount,
            min_amount_out: min_out,
            deadline,
            oracle_twap: 0,
            block_timestamp,
        });
        pairs.set(step.pair_id, pair);
        proof {
            assert(pairs.view().dom() =~= before.dom());
            assert forall|q: PairId| p0.dom().contains(q) && (forall|j: int| 0 <= j < route.steps@.len()
                ==> (#[trigger] route.steps@[j]).pair_id != q) implies #[trigger] pairs.view()[q] == p0[q] by {
                assert(route.steps@[i as int].pair_id != q);
            }
            if distinct_pools(route.steps@) {
                assert forall|j: int| i < j < n implies #[trigger] pairs.view()[route.steps@[j].pair_id] == p0[route.steps@[j].pair_id] by {
                    assert(route.steps@[i as int].pair_id != route.steps@[j].pair_id);
                }
            }
        }
        match res {
            Err(e) => return Err(e),
            Ok(r) => {
                proof {
                    if distinct_pools(route.steps@) {
                        assert(pair0 == p0[step.pair_id]);
                        let (r_in, r_out) = reserves_for(pair0, step.a_to_b);
                        assert(quote_spec(pair0, amount, step.a_to_b) == r.amount_out);
                    }
                }
                total_protocol_fee = total_protocol_fee.saturating_add(r.protocol_fee);
                amount = r.amount_out;
            },
        }
        i += 1;
    }
    Ok((amount, total_protocol_fee))
}

} // verus!
