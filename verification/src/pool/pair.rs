//! Constant-product AMM pair with fee, guarded by the checks of `security`.

use vstd::prelude::*;
use crate::common::{Address, bytes20_lt, lex_lt, clamp_u128, sat_u32};
use crate::pool::error::AmmError;
use crate::pool::fee::{FeeTier, split_fee};
use crate::pool::security::{
    ReentrancyGuard, CircuitBreaker, MIN_LIQUIDITY, MAX_PRICE_IMPACT_BPS, MAX_RESERVE_DRAIN_BPS,
    MAX_ORACLE_DEVIATION_BPS, check_price_impact, check_slippage, check_deadline,
    check_reserve_drain, check_oracle_deviation, safe_mul_div, impact_bps_spec, drain_bps_spec,
    deviation_bps_spec,
};

verus! {

// ── Integer square root ────────────────────────────────────────────────────

proof fn lemma_amgm(a: int, b: int)
    requires
        a >= 0,
        b >= 0,
    ensures
        (a + b) * (a + b) >= 4 * a * b,
{
    assert((a + b) * (a + b) - 4 * a * b == (a - b) * (a - b)) by (nonlinear_arith);
    assert((a - b) * (a - b) >= 0) by (nonlinear_arith);
}

proof fn lemma_babylonian_step(n: int, x: int)
    requires
        n >= 1,
        x >= 1,
    ensures
        ((x + n / x) / 2 + 1) * ((x + n / x) / 2 + 1) > n,
{
    let q = n / x;
    let y = (x + q) / 2;
    assert(n < x * (q + 1)) by (nonlinear_arith)
        requires q == n / x, x >= 1, n >= 1;
    assert(q >= 0) by (nonlinear_arith) requires q == n / x, x >= 1, n >= 1;
    lemma_amgm(x, q + 1);
    assert(2 * (y + 1) >= x + q + 1);
    assert((2 * (y + 1)) * (2 * (y + 1)) >= (x + q + 1) * (x + q + 1)) by (nonlinear_arith)
        requires 2 * (y + 1) >= x + q + 1, x + q + 1 >= 0;
    assert(4 * ((y + 1) * (y + 1)) == (2 * (y + 1)) * (2 * (y + 1))) by (nonlinear_arith);
    assert(4 * x * (q + 1) > 4 * n) by (nonlinear_arith) requires n < x * (q + 1);
}

proof fn lemma_babylonian_no_overflow(n: int, x: int)
    requires
        1 <= x <= n,
    ensures
        x + n / x <= n + 1,
        n / x >= 1,
{
    let q = n / x;
    assert(q >= 1) by (nonlinear_arith) requires q == n / x, 1 <= x <= n;
    assert(x * q <= n) by (nonlinear_arith) requires q == n / x, x >= 1;
    assert((x - 1) * (q - 1) >= 0) by (nonlinear_arith) requires x >= 1, q >= 1;
    assert((x - 1) * (q - 1) == x * q - x - q + 1) by (nonlinear_arith);
}

proof fn lemma_babylonian_exit(n: int, x: int)
    requires
        n >= 1,
        x >= 1,
        (x + n / x) / 2 >= x,
    ensures
        x * x <= n,
{
    let q = n / x;
    assert(q >= x);
    assert(x * q <= n) by (nonlinear_arith) requires q == n / x, x >= 1;
    assert(x * x <= x * q) by (nonlinear_arith) requires q >= x, x >= 1;
}

/// `(a + b) / 2` computed without forming the sum.
fn half_sum(a: u128, b: u128) -> (r: u128)
    ensures
        r == (a + b) / 2,
{
    let r = a / 2 + b / 2 + (a % 2 + b % 2) / 2;
    proof {
        let (ha, ma) = (a / 2, a % 2);
        let (hb, mb) = (b / 2, b % 2);
        assert(a == 2 * ha + ma && b == 2 * hb + mb && ma < 2 && mb < 2);
        assert(a + b == 2 * (ha + hb + (ma + mb) / 2) + (ma + mb) % 2);
        vstd::arithmetic::div_mod::lemma_fundamental_div_mod_converse((a + b) as int, 2, (ha + hb + (ma + mb) / 2) as int,
            ((ma + mb) % 2) as int);
    }
    r
}

/// Integer square root (Babylonian method, without overflow for any
/// input): the largest `r` with `r * r <= n`.
pub fn integer_sqrt(n: u128) -> (r: u128)
    ensures
        r * r <= n,
        n < (r + 1) * (r + 1),
{
    if n == 0 {
        return 0;
    }
    let mut x = n;
    let mut y = half_sum(x, 1);
    proof {
        assert(n / n == 1) by (nonlinear_arith) requires n >= 1;
        assert((n + 1) * (n + 1) > n) by (nonlinear_arith) requires n >= 1;
    }
    while y < x
        invariant
            1 <= x <= n,
            y == (x + n / x) / 2,
            (x + 1) * (x + 1) > n,
        decreases x,
    {
        proof {
            lemma_babylonian_step(n as int, x as int);
        }
        x = y;
        proof {
            assert((x + 1) * (x + 1) > n);
            assert(x >= 1) by (nonlinear_arith)
                requires (x + 1) * (x + 1) > n, n >= 1, x >= 0;
            lemma_babylonian_no_overflow(n as int, x as int);
        }
        y = half_sum(x, n / x);
    }
    proof {
        lemma_babylonian_exit(n as int, x as int);
    }
    x
}

// ── Pair identifiers and parameters ─────────────────────────────────────────

/// Pair identifier with the smaller address first.
#[derive(Debug, Clone, Copy, PartialEq, Eq)]
pub struct PairId {
    pub token_a: Address,
    pub token_b: Address,
}

impl PairId {
    /// Orders the two addresses (byte-lexicographically, smaller first).
    pub fn new(a: Address, b: Address) -> (r: Self)
        ensures
            lex_lt(a.0@, b.0@) ==> r.token_a == a && r.token_b == b,
            !lex_lt(a.0@, b.0@) ==> r.token_a == b && r.token_b == a,
    {
        if bytes20_lt(&a.0, &b.0) {
            PairId { token_a: a, token_b: b }
        } else {
            PairId { token_a: b, token_b: a }
        }
    }
}

impl crate::table::TableKey for PairId {
    fn same(&self, other: &Self) -> (r: bool) {
        self.token_a.same(&other.token_a) && self.token_b.same(&other.token_b)
    }
}

/// Parameters of a swap.
#[derive(Debug, Clone, Copy)]
pub struct SwapParams {
    /// `true` swaps A for B.
    pub a_to_b: bool,
    pub amount_in: u128,
    pub min_amount_out: u128,
    pub deadline: u64,
    /// Oracle price of A in B (scaled by 10^18); 0 skips the check.
    pub oracle_twap: u128,
    pub block_timestamp: u64,
}

/// Parameters of a deposit.
#[derive(Debug, Clone, Copy)]
pub struct AddLiquidityParams {
    pub amount_a: u128,
    pub amount_b: u128,
    pub min_lp_out: u128,
    pub deadline: u64,
    pub block_timestamp: u64,
}

/// Parameters of a withdrawal.
#[derive(Debug, Clone, Copy)]
pub struct RemoveLiquidityParams {
    pub lp_amount: u128,
    pub min_a_out: u128,
    pub min_b_out: u128,
    pub deadline: u64,
    pub block_timestamp: u64,
}

/// Outcome of a swap.
#[derive(Debug, Clone, Copy)]
pub struct SwapResult {
    pub amount_out: u128,
    pub lp_fee: u128,
    pub protocol_fee: u128,
    pub new_reserve_a: u128,
    pub new_reserve_b: u128,
}

/// Outcome of a deposit.
#[derive(Debug, Clone, Copy)]
pub struct AddLiquidityResult {
    pub lp_minted: u128,
    pub used_a: u128,
    pub used_b: u128,
}

/// Outcome of a withdrawal.
#[derive(Debug, Clone, Copy)]
pub struct RemoveLiquidityResult {
    pub amount_a: u128,
    pub amount_b: u128,
}

// ── Swap arithmetic ─────────────────────────────────────────────────────────

/// The fee multiplier `10000 - fee_bps`.
pub open spec fn fee_mult(t: FeeTier) -> int {
    10_000 - t.spec_bps()
}

/// Whether one of the products of the swap formula does not fit in `u128`.
pub open spec fn swap_math_overflows(amount_in: u128, r_in: u128, r_out: u128, t: FeeTier) -> bool {
    let dx = amount_in * fee_mult(t);
    ||| dx > u128::MAX
    ||| dx * r_out > u128::MAX
    ||| r_in * 10_000 > u128::MAX
    ||| r_in * 10_000 + dx > u128::MAX
}

/// Output of the constant-product formula with fee:
/// `dx·m·r_out / (r_in·10000 + dx·m)` where `m = 10000 - fee_bps`.
pub open spec fn amount_out_spec(amount_in: u128, r_in: u128, r_out: u128, t: FeeTier) -> int {
    let dx = amount_in * fee_mult(t);
    (dx * r_out) / (r_in * 10_000 + dx)
}

/// Computes the swap formula; `Overflow` when a product does not fit.
fn compute_amount_out(amount_in: u128, r_in: u128, r_out: u128, t: FeeTier) -> (r: Result<u128, AmmError>)
    requires
        amount_in > 0,
        r_in > 0,
    ensures
        swap_math_overflows(amount_in, r_in, r_out, t) ==> r matches Err(AmmError::Overflow),
        !swap_math_overflows(amount_in, r_in, r_out, t) ==> r == Ok::<u128, AmmError>(amount_out_spec(amount_in, r_in, r_out, t) as u128),
{
    let fee_multiplier = 10_000u128 - t.bps() as u128;
    let dx_fee = match amount_in.checked_mul(fee_multiplier) {
        Some(v) => v,
        None => return Err(AmmError::Overflow),
    };
    let numerator = match dx_fee.checked_mul(r_out) {
        Some(v) => v,
        None => return Err(AmmError::Overflow),
    };
    let scaled = match r_in.checked_mul(10_000) {
        Some(v) => v,
        None => return Err(AmmError::Overflow),
    };
    let denom = match scaled.checked_add(dx_fee) {
        Some(v) => v,
        None => return Err(AmmError::Overflow),
    };
    proof {
        assert(numerator / denom <= numerator) by (nonlinear_arith)
            requires denom >= 1, numerator >= 0;
    }
    Ok(numerator / denom)
}

/// The spot price of A in B scaled by 10^18, with a coarser rescaling when
/// `reserve_b * 10^18` does not fit; 0 for an empty pool.
pub open spec fn spot_price_spec(reserve_a: u128, reserve_b: u128) -> int {
    if reserve_a == 0 {
        0
    } else if reserve_b * 1_000_000_000_000_000_000 <= u128::MAX {
        (reserve_b * 1_000_000_000_000_000_000) / (reserve_a as int)
    } else {
        clamp_u128((clamp_u128((reserve_b / 1_000_000) * 1_000_000_000_000) / (reserve_a as int)) * 1_000_000)
    }
}

// ── Pair ────────────────────────────────────────────────────────────────────

/// One liquidity pair.
#[derive(Debug, Clone)]
pub struct Pair {
    pub id: PairId,
    pub reserve_a: u128,
    pub reserve_b: u128,
    pub total_lp: u128,
    /// Protocol fees collected in token A.
    pub fee_a: u128,
    /// Protocol fees collected in token B.
    pub fee_b: u128,
    pub fee_tier: FeeTier,
    pub reentrancy: ReentrancyGuard,
    pub circuit: CircuitBreaker,
}

/// The input and output reserves of a swap direction.
pub open spec fn reserves_for(p: Pair, a_to_b: bool) -> (u128, u128) {
    if a_to_b { (p.reserve_a, p.reserve_b) } else { (p.reserve_b, p.reserve_a) }
}

/// Everything a swap checks before the fee and reserve updates, in order:
/// `None` when they all pass, otherwise whether the failure is the given kind.
pub open spec fn swap_precheck_fails(s: Pair, p: SwapParams) -> bool {
    let (r_in, r_out) = reserves_for(s, p.a_to_b);
    let spot = spot_price_spec(s.reserve_a, s.reserve_b) as u128;
    ||| p.block_timestamp > p.deadline
    ||| p.amount_in == 0
    ||| r_in == 0 || r_out == 0
    ||| (p.oracle_twap != 0 && (spot == 0 || deviation_bps_spec(spot, p.oracle_twap) > MAX_ORACLE_DEVIATION_BPS))
    ||| (impact_bps_spec(p.amount_in, r_in) as u32) > MAX_PRICE_IMPACT_BPS
    ||| swap_math_overflows(p.amount_in, r_in, r_out, s.fee_tier)
    ||| amount_out_spec(p.amount_in, r_in, r_out, s.fee_tier) == 0
    ||| drain_bps_spec(amount_out_spec(p.amount_in, r_in, r_out, s.fee_tier) as u128, r_out) > MAX_RESERVE_DRAIN_BPS
    ||| amount_out_spec(p.amount_in, r_in, r_out, s.fee_tier) < p.min_amount_out
    ||| s.reserve_a * s.reserve_b > u128::MAX
    ||| r_in + p.amount_in > u128::MAX
    ||| r_out < amount_out_spec(p.amount_in, r_in, r_out, s.fee_tier)
}

/// The error of the first check that a swap on `s` with `p` fails, in the
/// order the swap makes them (deadline, amount, reserves, oracle deviation,
/// price impact, output arithmetic, zero output, reserve drain, slippage,
/// the reserve product, the new reserves and the new product); `None` when
/// the swap succeeds.
pub open spec fn swap_failure(s: Pair, p: SwapParams) -> Option<AmmError> {
    let (r_in, r_out) = reserves_for(s, p.a_to_b);
    let spot = spot_price_spec(s.reserve_a, s.reserve_b) as u128;
    let out = amount_out_spec(p.amount_in, r_in, r_out, s.fee_tier);
    let (na, nb) = swapped_reserves(s, p);
    if p.block_timestamp > p.deadline {
        Some(AmmError::DeadlineExpired { now: p.block_timestamp, deadline: p.deadline })
    } else if p.amount_in == 0 {
        Some(AmmError::ZeroAmount)
    } else if r_in == 0 || r_out == 0 {
        Some(AmmError::EmptyReserve)
    } else if p.oracle_twap != 0 && spot == 0 {
        Some(AmmError::OraclePriceDeviation { deviation_bps: 10_000, max_bps: MAX_ORACLE_DEVIATION_BPS })
    } else if p.oracle_twap != 0 && deviation_bps_spec(spot, p.oracle_twap) > MAX_ORACLE_DEVIATION_BPS {
        Some(AmmError::OraclePriceDeviation {
            deviation_bps: sat_u32(deviation_bps_spec(spot, p.oracle_twap)),
            max_bps: MAX_ORACLE_DEVIATION_BPS,
        })
    } else if (impact_bps_spec(p.amount_in, r_in) as u32) > MAX_PRICE_IMPACT_BPS {
        Some(AmmError::PriceImpactTooHigh {
            impact_bps: impact_bps_spec(p.amount_in, r_in) as u32,
            max_bps: MAX_PRICE_IMPACT_BPS,
        })
    } else if swap_math_overflows(p.amount_in, r_in, r_out, s.fee_tier) {
        Some(AmmError::Overflow)
    } else if out == 0 {
        Some(AmmError::ZeroOutput)
    } else if drain_bps_spec(out as u128, r_out) > MAX_RESERVE_DRAIN_BPS {
        Some(AmmError::ReserveDrainExceeded {
            drain_bps: sat_u32(drain_bps_spec(out as u128, r_out)),
            max_bps: MAX_RESERVE_DRAIN_BPS,
        })
    } else if out < p.min_amount_out {
        Some(AmmError::SlippageExceeded { got: out as u128, min: p.min_amount_out })
    } else if s.reserve_a * s.reserve_b > u128::MAX {
        Some(AmmError::InvariantOverflow)
    } else if r_in + p.amount_in > u128::MAX {
        Some(AmmError::Overflow)
    } else if r_out < out {
        Some(AmmError::InsufficientLiquidityBurned)
    } else if na * nb > u128::MAX {
        Some(AmmError::InvariantOverflow)
    } else if na * nb < s.reserve_a * s.reserve_b {
        Some(AmmError::InvariantViolation)
    } else {
        None
    }
}

/// The protocol share of the fee on `amount_in`: a fifth of the total fee,
/// rounded up.
pub open spec fn protocol_fee_spec(amount_in: u128, t: FeeTier) -> int {
    crate::pool::fee::protocol_part(amount_in * t.spec_bps() / 10_000)
}

/// The reserves after a swap that passed its checks.
pub open spec fn swapped_reserves(s: Pair, p: SwapParams) -> (int, int) {
    let (r_in, r_out) = reserves_for(s, p.a_to_b);
    let out = amount_out_spec(p.amount_in, r_in, r_out, s.fee_tier);
    if p.a_to_b {
        (s.reserve_a + p.amount_in, s.reserve_b - out)
    } else {
        (s.reserve_a - out, s.reserve_b + p.amount_in)
    }
}

/// Whether `r` is the integer square root of `n`.
pub open spec fn is_isqrt(n: int, r: int) -> bool {
    r >= 0 && r * r <= n && n < (r + 1) * (r + 1)
}

/// The integer square root of `n`.
pub open spec fn isqrt(n: int) -> int {
    choose|r: int| is_isqrt(n, r)
}

/// The integer square root is unique.
pub proof fn lemma_isqrt_unique(n: int, r: int)
    requires
        is_isqrt(n, r),
    ensures
        isqrt(n) == r,
{
    let c = isqrt(n);
    assert(is_isqrt(n, c));
    if c < r {
        assert((c + 1) * (c + 1) <= r * r) by (nonlinear_arith)
            requires c + 1 <= r, c >= 0;
    } else if c > r {
        assert((r + 1) * (r + 1) <= c * c) by (nonlinear_arith)
            requires r + 1 <= c, r >= 0;
    }
}

proof fn lemma_share_le(lp: int, reserve: int, total: int)
    requires
        0 < lp <= total,
        reserve >= 0,
    ensures
        lp * reserve / total <= reserve,
{
    assert(lp * reserve <= total * reserve) by (nonlinear_arith)
        requires lp <= total, reserve >= 0;
    assert(lp * reserve / total <= total * reserve / total) by (nonlinear_arith)
        requires lp * reserve <= total * reserve, total > 0, lp * reserve >= 0;
    assert(total * reserve / total == reserve) by (nonlinear_arith)
        requires total > 0;
}

/// Whether a deposit gets as far as taking a square root (first deposit,
/// live deadline, both amounts non-zero, product fits).
pub open spec fn add_liq_reaches_sqrt(s: Pair, p: AddLiquidityParams) -> bool {
    p.block_timestamp <= p.deadline && p.amount_a != 0 && p.amount_b != 0 && s.total_lp == 0
        && p.amount_a * p.amount_b <= u128::MAX
}

/// `(a * b) / c` when it is computable by `safe_mul_div`.
pub open spec fn mul_div_ok(a: int, b: int, c: int) -> bool {
    c != 0 && a * b <= u128::MAX
}

/// The LP tokens minted and the amounts used by a deposit, or `None` when
/// the computation fails (overflow, division by zero, too small a root).
pub open spec fn add_liquidity_amounts(s: Pair, p: AddLiquidityParams) -> Option<(int, int, int)> {
    if s.total_lp == 0 {
        if p.amount_a * p.amount_b > u128::MAX || isqrt(p.amount_a * p.amount_b) <= MIN_LIQUIDITY {
            None
        } else {
            Some((isqrt(p.amount_a * p.amount_b) - MIN_LIQUIDITY, p.amount_a as int, p.amount_b as int))
        }
    } else if !mul_div_ok(p.amount_a as int, s.total_lp as int, s.reserve_a as int)
        || !mul_div_ok(p.amount_b as int, s.total_lp as int, s.reserve_b as int) {
        None
    } else {
        let lp_a = p.amount_a * s.total_lp / (s.reserve_a as int);
        let lp_b = p.amount_b * s.total_lp / (s.reserve_b as int);
        let lp = if lp_a < lp_b { lp_a } else { lp_b };
        if !mul_div_ok(lp, s.reserve_a as int, s.total_lp as int) || !mul_div_ok(lp, s.reserve_b as int, s.total_lp as int) {
            None
        } else {
            Some((lp, lp * s.reserve_a / (s.total_lp as int), lp * s.reserve_b / (s.total_lp as int)))
        }
    }
}

/// The outcome of a deposit on the pair's reserves and LP supply.
pub open spec fn add_liquidity_post(s: Pair, p: AddLiquidityParams, t: Pair, r: Result<AddLiquidityResult, AmmError>) -> bool {
    let unchanged = t.reserve_a == s.reserve_a && t.reserve_b == s.reserve_b && t.total_lp == s.total_lp;
    &&& t.id == s.id && t.fee_tier == s.fee_tier && t.fee_a == s.fee_a && t.fee_b == s.fee_b && t.circuit == s.circuit
    &&& if p.block_timestamp > p.deadline {
        (r matches Err(AmmError::DeadlineExpired { now, deadline }) && now == p.block_timestamp && deadline == p.deadline) && unchanged
    } else if p.amount_a == 0 || p.amount_b == 0 {
        r matches Err(AmmError::ZeroAmount) && unchanged
    } else {
        match add_liquidity_amounts(s, p) {
            None => {
                &&& unchanged
                &&& r is Err
                &&& (s.total_lp == 0 && p.amount_a * p.amount_b <= u128::MAX ==> r matches Err(AmmError::BelowMinLiquidity))
                &&& (s.total_lp == 0 && p.amount_a * p.amount_b > u128::MAX ==> r matches Err(AmmError::Overflow))
            },
            Some((lp, ua, ub)) => {
                if lp < p.min_lp_out {
                    (r matches Err(AmmError::SlippageExceeded { got, min }) && got == lp && min == p.min_lp_out) && unchanged
                } else if s.reserve_a + ua > u128::MAX {
                    r matches Err(AmmError::Overflow) && unchanged
                } else if s.reserve_b + ub > u128::MAX {
                    r matches Err(AmmError::Overflow) && t.reserve_a == s.reserve_a + ua && t.reserve_b == s.reserve_b && t.total_lp == s.total_lp
                } else if s.total_lp + lp > u128::MAX {
                    r matches Err(AmmError::Overflow) && t.reserve_a == s.reserve_a + ua && t.reserve_b == s.reserve_b + ub && t.total_lp == s.total_lp
                } else {
                    &&& r matches Ok(res) && res.lp_minted == lp && res.used_a == ua && res.used_b == ub
                    &&& t.reserve_a == s.reserve_a + ua
                    &&& t.reserve_b == s.reserve_b + ub
                    &&& t.total_lp == s.total_lp + lp
                }
            },
        }
    }
}

/// The outcome of a withdrawal on the pair's reserves and LP supply.
pub open spec fn remove_liquidity_post(s: Pair, p: RemoveLiquidityParams, t: Pair, r: Result<RemoveLiquidityResult, AmmError>) -> bool {
    let unchanged = t.reserve_a == s.reserve_a && t.reserve_b == s.reserve_b && t.total_lp == s.total_lp;
    let a = p.lp_amount * s.reserve_a / (s.total_lp as int);
    let b = p.lp_amount * s.reserve_b / (s.total_lp as int);
    &&& t.id == s.id && t.fee_tier == s.fee_tier && t.fee_a == s.fee_a && t.fee_b == s.fee_b && t.circuit == s.circuit
    &&& if p.block_timestamp > p.deadline {
        (r matches Err(AmmError::DeadlineExpired { now, deadline }) && now == p.block_timestamp && deadline == p.deadline) && unchanged
    } else if p.lp_amount == 0 {
        r matches Err(AmmError::ZeroAmount) && unchanged
    } else if p.lp_amount > s.total_lp {
        r matches Err(AmmError::InsufficientLpBalance) && unchanged
    } else if p.lp_amount * s.reserve_a > u128::MAX || p.lp_amount * s.reserve_b > u128::MAX {
        r matches Err(AmmError::Overflow) && unchanged
    } else if a == 0 || b == 0 {
        r matches Err(AmmError::InsufficientLiquidityBurned) && unchanged
    } else if a < p.min_a_out {
        (r matches Err(AmmError::SlippageExceeded { got, min }) && got == a && min == p.min_a_out) && unchanged
    } else if b < p.min_b_out {
        (r matches Err(AmmError::SlippageExceeded { got, min }) && got == b && min == p.min_b_out) && unchanged
    } else {
        &&& r matches Ok(res) && res.amount_a == a && res.amount_b == b
        &&& t.reserve_a == s.reserve_a - a
        &&& t.reserve_b == s.reserve_b - b
        &&& t.total_lp == s.total_lp - p.lp_amount
    }
}

/// The outcome of `Pair::swap` on `s` with `params`, leaving `t` and
/// answering `r`.
pub open spec fn swap_post(s: Pair, t: Pair, params: SwapParams, r: Result<SwapResult, AmmError>) -> bool {
    &&& (s.circuit.paused ==> (r matches Err(AmmError::PoolPaused { .. }) && t == s))
    &&& (!s.circuit.paused && s.reentrancy.is_locked() ==> r matches Err(AmmError::Reentrancy))
    &&& (!s.circuit.paused && !s.reentrancy.is_locked() ==> !t.reentrancy.is_locked())
    &&& (t.id == s.id && t.fee_tier == s.fee_tier
                    && t.total_lp == s.total_lp && t.circuit == s.circuit)
    &&& (r is Ok <==> (!s.circuit.paused && !s.reentrancy.is_locked()
                    && !swap_precheck_fails(s, params)
                    && swapped_reserves(s, params).0 * swapped_reserves(s, params).1 <= u128::MAX
                    && swapped_reserves(s, params).0 * swapped_reserves(s, params).1
                        >= s.reserve_a * s.reserve_b))
    &&& (r matches Ok(res) ==> {
                    let (r_in, r_out) = reserves_for(s, params.a_to_b);
                    &&& res.amount_out == amount_out_spec(params.amount_in, r_in, r_out, s.fee_tier)
                    &&& res.protocol_fee == protocol_fee_spec(params.amount_in, s.fee_tier)
                    &&& res.lp_fee == params.amount_in * s.fee_tier.spec_bps() / 10_000 - res.protocol_fee
                    &&& t.reserve_a == swapped_reserves(s, params).0
                    &&& t.reserve_b == swapped_reserves(s, params).1
                    &&& res.new_reserve_a == t.reserve_a
                    &&& res.new_reserve_b == t.reserve_b
                    &&& t.reserve_a * t.reserve_b >= s.reserve_a * s.reserve_b
                    &&& res.amount_out >= params.min_amount_out
                    &&& (params.a_to_b ==> t.fee_a == s.fee_a + res.protocol_fee && t.fee_b == s.fee_b)
                    &&& (!params.a_to_b ==> t.fee_b == s.fee_b + res.protocol_fee && t.fee_a == s.fee_a)
    })
    &&& (!s.circuit.paused && !s.reentrancy.is_locked() ==> (swap_failure(s, params) matches Some(e) ==> r == Err::<SwapResult, AmmError>(e)))
    &&& (r is Err ==> t.reserve_a == s.reserve_a && t.reserve_b == s.reserve_b)
    &&& (r is Err && swap_precheck_fails(s, params) ==> t.fee_a == s.fee_a && t.fee_b == s.fee_b)
}

impl Pair {
    /// An empty pair.
    pub fn new(id: PairId, fee_tier: FeeTier) -> (r: Self)
        ensures
            r.id == id,
            r.fee_tier == fee_tier,
            r.reserve_a == 0 && r.reserve_b == 0 && r.total_lp == 0,
            r.fee_a == 0 && r.fee_b == 0,
            !r.reentrancy.is_locked(),
            !r.circuit.paused,
    {
        Pair {
            id,
            reserve_a: 0,
            reserve_b: 0,
            total_lp: 0,
            fee_a: 0,
            fee_b: 0,
            fee_tier,
            reentrancy: ReentrancyGuard::new(),
            circuit: CircuitBreaker::new(),
        }
    }

    /// Executes a swap with all guards: pause, reentrancy, deadline, zero
    /// input, empty reserves, oracle deviation, price impact, the fee-applied
    /// constant-product output, reserve drain, slippage and the reserve
    /// product (which must fit and must not decrease). On success the input
    /// is added to its reserve, the output taken from the other, and the
    /// protocol share of the fee recorded for the input token.
    pub fn swap(&mut self, params: SwapParams) -> (r: Result<SwapResult, AmmError>)
        requires
            !swap_precheck_fails(*old(self), params) ==> (if params.a_to_b {
                old(self).fee_a + protocol_fee_spec(params.amount_in, old(self).fee_tier) <= u128::MAX
            } else {
                old(self).fee_b + protocol_fee_spec(params.amount_in, old(self).fee_tier) <= u128::MAX
            }),
        ensures
            swap_post(*old(self), *final(self), params, r),
    {
        self.circuit.check()?;
        self.reentrancy.acquire()?;
        let result = self.swap_inner(params);
        self.reentrancy.release();
        result
    }

    fn swap_inner(&mut self, p: SwapParams) -> (r: Result<SwapResult, AmmError>)
        requires
            !swap_precheck_fails(*old(self), p) ==> (if p.a_to_b {
                old(self).fee_a + protocol_fee_spec(p.amount_in, old(self).fee_tier) <= u128::MAX
            } else {
                old(self).fee_b + protocol_fee_spec(p.amount_in, old(self).fee_tier) <= u128::MAX
            }),
        ensures
            final(self).id == old(self).id && final(self).fee_tier == old(self).fee_tier
                && final(self).total_lp == old(self).total_lp && final(self).circuit == old(self).circuit
                && final(self).reentrancy == old(self).reentrancy,
            r is Ok <==> (!swap_precheck_fails(*old(self), p)
                && swapped_reserves(*old(self), p).0 * swapped_reserves(*old(self), p).1 <= u128::MAX
                && swapped_reserves(*old(self), p).0 * swapped_reserves(*old(self), p).1
                    >= old(self).reserve_a * old(self).reserve_b),
            r matches Ok(res) ==> {
                let (r_in, r_out) = reserves_for(*old(self), p.a_to_b);
                &&& res.amount_out == amount_out_spec(p.amount_in, r_in, r_out, old(self).fee_tier)
                &&& res.protocol_fee == protocol_fee_spec(p.amount_in, old(self).fee_tier)
                &&& res.lp_fee == p.amount_in * old(self).fee_tier.spec_bps() / 10_000 - res.protocol_fee
                &&& final(self).reserve_a == swapped_reserves(*old(self), p).0
                &&& final(self).reserve_b == swapped_reserves(*old(self), p).1
                &&& res.new_reserve_a == final(self).reserve_a
                &&& res.new_reserve_b == final(self).reserve_b
                &&& final(self).reserve_a * final(self).reserve_b >= old(self).reserve_a * old(self).reserve_b
                &&& res.amount_out >= p.min_amount_out
                &&& (p.a_to_b ==> final(self).fee_a == old(self).fee_a + res.protocol_fee && final(self).fee_b == old(self).fee_b)
                &&& (!p.a_to_b ==> final(self).fee_b == old(self).fee_b + res.protocol_fee && final(self).fee_a == old(self).fee_a)
            },
            r is Err ==> final(self).reserve_a == old(self).reserve_a && final(self).reserve_b == old(self).reserve_b,
            r is Err && swap_precheck_fails(*old(self), p) ==> final(self).fee_a == old(self).fee_a && final(self).fee_b == old(self).fee_b,
            swap_failure(*old(self), p) matches Some(e) ==> r == Err::<SwapResult, AmmError>(e),
    {
        check_deadline(p.block_timestamp, p.deadline)?;
        if p.amount_in == 0 {
            return Err(AmmError::ZeroAmount);
        }
        let (r_in, r_out) = if p.a_to_b { (self.reserve_a, self.reserve_b) } else { (self.reserve_b, self.reserve_a) };
        if r_in == 0 || r_out == 0 {
            return Err(AmmError::EmptyReserve);
        }
        let spot = self.spot_price_a_in_b();
        check_oracle_deviation(spot, p.oracle_twap)?;
        check_price_impact(p.amount_in, r_in)?;
        let amount_out = compute_amount_out(p.amount_in, r_in, r_out, self.fee_tier)?;
        if amount_out == 0 {
            return Err(AmmError::ZeroOutput);
        }
        check_reserve_drain(amount_out, r_out)?;
        check_slippage(amount_out, p.min_amount_out)?;
        proof {
            assert(p.amount_in * self.fee_tier.spec_bps() <= p.amount_in * fee_mult(self.fee_tier)) by (nonlinear_arith)
                requires self.fee_tier.spec_bps() <= fee_mult(self.fee_tier), p.amount_in >= 0;
        }
        let (lp_fee, protocol_fee) = split_fee(p.amount_in, self.fee_tier);
        let old_k = match self.reserve_a.checked_mul(self.reserve_b) {
            Some(k) => k,
            None => return Err(AmmError::InvariantOverflow),
        };
        let (new_ra, new_rb) = if p.a_to_b {
            let a = match self.reserve_a.checked_add(p.amount_in) {
                Some(v) => v,
                None => return Err(AmmError::Overflow),
            };
            let b = match self.reserve_b.checked_sub(amount_out) {
                Some(v) => v,
                None => return Err(AmmError::InsufficientLiquidityBurned),
            };
            self.fee_a = self.fee_a + protocol_fee;
            (a, b)
        } else {
            let b = match self.reserve_b.checked_add(p.amount_in) {
                Some(v) => v,
                None => return Err(AmmError::Overflow),
            };
            let a = match self.reserve_a.checked_sub(amount_out) {
                Some(v) => v,
                None => return Err(AmmError::InsufficientLiquidityBurned),
            };
            self.fee_b = self.fee_b + protocol_fee;
            (a, b)
        };
        let new_k = match new_ra.checked_mul(new_rb) {
            Some(k) => k,
            None => return Err(AmmError::InvariantOverflow),
        };
        if new_k < old_k {
            return Err(AmmError::InvariantViolation);
        }
        self.reserve_a = new_ra;
        self.reserve_b = new_rb;
        Ok(SwapResult {
            amount_out,
            lp_fee,
            protocol_fee,
            new_reserve_a: self.reserve_a,
            new_reserve_b: self.reserve_b,
        })
    }

    /// Adds liquidity. The first deposit mints `sqrt(a * b) - MIN_LIQUIDITY`
    /// LP tokens and uses both amounts whole; later deposits mint the smaller
    /// of the two proportional shares and use the matching amounts. Fails on
    /// pause, reentrancy, an expired deadline, a zero amount, a first deposit
    /// whose root is at most `MIN_LIQUIDITY`, overflow, or fewer LP tokens
    /// than `min_lp_out`.
    pub fn add_liquidity(&mut self, params: AddLiquidityParams) -> (r: Result<AddLiquidityResult, AmmError>)
        requires
            add_liq_reaches_sqrt(*old(self), params) ==> params.amount_a * params.amount_b < u128::MAX,
        ensures
            old(self).circuit.paused ==> (r matches Err(AmmError::PoolPaused { .. }) && *final(self) == *old(self)),
            !old(self).circuit.paused && old(self).reentrancy.is_locked() ==> r matches Err(AmmError::Reentrancy),
            !old(self).circuit.paused && !old(self).reentrancy.is_locked() ==> (
                !final(self).reentrancy.is_locked() && add_liquidity_post(*old(self), params, *final(self), r)),
    {
        self.circuit.check()?;
        self.reentrancy.acquire()?;
        let r = self.add_liquidity_inner(params);
        self.reentrancy.release();
        r
    }

    fn add_liquidity_inner(&mut self, p: AddLiquidityParams) -> (r: Result<AddLiquidityResult, AmmError>)
        requires
            add_liq_reaches_sqrt(*old(self), p) ==> p.amount_a * p.amount_b < u128::MAX,
        ensures
            final(self).reentrancy == old(self).reentrancy,
            add_liquidity_post(*old(self), p, *final(self), r),
    {
        check_deadline(p.block_timestamp, p.deadline)?;
        if p.amount_a == 0 || p.amount_b == 0 {
            return Err(AmmError::ZeroAmount);
        }
        let (lp_minted, used_a, used_b) = if self.total_lp == 0 {
            let product = match p.amount_a.checked_mul(p.amount_b) {
                Some(v) => v,
                None => return Err(AmmError::Overflow),
            };
            let root = integer_sqrt(product);
            proof {
                lemma_isqrt_unique(product as int, root as int);
            }
            if root <= MIN_LIQUIDITY {
                return Err(AmmError::BelowMinLiquidity);
            }
            (root - MIN_LIQUIDITY, p.amount_a, p.amount_b)
        } else {
            let lp_a = safe_mul_div(p.amount_a, self.total_lp, self.reserve_a)?;
            let lp_b = safe_mul_div(p.amount_b, self.total_lp, self.reserve_b)?;
            let lp = if lp_a < lp_b { lp_a } else { lp_b };
            let ua = safe_mul_div(lp, self.reserve_a, self.total_lp)?;
            let ub = safe_mul_div(lp, self.reserve_b, self.total_lp)?;
            (lp, ua, ub)
        };
        if lp_minted < p.min_lp_out {
            return Err(AmmError::SlippageExceeded { got: lp_minted, min: p.min_lp_out });
        }
        self.reserve_a = match self.reserve_a.checked_add(used_a) {
            Some(v) => v,
            None => return Err(AmmError::Overflow),
        };
        self.reserve_b = match self.reserve_b.checked_add(used_b) {
            Some(v) => v,
            None => return Err(AmmError::Overflow),
        };
        self.total_lp = match self.total_lp.checked_add(lp_minted) {
            Some(v) => v,
            None => return Err(AmmError::Overflow),
        };
        Ok(AddLiquidityResult { lp_minted, used_a, used_b })
    }

    /// Burns `lp_amount` LP tokens for the proportional share of both
    /// reserves (rounded down). Fails on pause, reentrancy, an expired
    /// deadline, a zero amount, more LP than exist, overflow, a zero share,
    /// or a share below `min_a_out` / `min_b_out`.
    pub fn remove_liquidity(&mut self, params: RemoveLiquidityParams) -> (r: Result<RemoveLiquidityResult, AmmError>)
        ensures
            old(self).circuit.paused ==> (r matches Err(AmmError::PoolPaused { .. }) && *final(self) == *old(self)),
            !old(self).circuit.paused && old(self).reentrancy.is_locked() ==> r matches Err(AmmError::Reentrancy),
            !old(self).circuit.paused && !old(self).reentrancy.is_locked() ==> (
                !final(self).reentrancy.is_locked() && remove_liquidity_post(*old(self), params, *final(self), r)),
    {
        self.circuit.check()?;
        self.reentrancy.acquire()?;
        let r = self.remove_liquidity_inner(params);
        self.reentrancy.release();
        r
    }

    fn remove_liquidity_inner(&mut self, p: RemoveLiquidityParams) -> (r: Result<RemoveLiquidityResult, AmmError>)
        ensures
            final(self).reentrancy == old(self).reentrancy,
            remove_liquidity_post(*old(self), p, *final(self), r),
    {
        check_deadline(p.block_timestamp, p.deadline)?;
        if p.lp_amount == 0 {
            return Err(AmmError::ZeroAmount);
        }
        if p.lp_amount > self.total_lp {
            return Err(AmmError::InsufficientLpBalance);
        }
        let amount_a = safe_mul_div(p.lp_amount, self.reserve_a, self.total_lp)?;
        let amount_b = safe_mul_div(p.lp_amount, self.reserve_b, self.total_lp)?;
        if amount_a == 0 || amount_b == 0 {
            return Err(AmmError::InsufficientLiquidityBurned);
        }
        check_slippage(amount_a, p.min_a_out)?;
        check_slippage(amount_b, p.min_b_out)?;
        proof {
            lemma_share_le(p.lp_amount as int, self.reserve_a as int, self.total_lp as int);
            lemma_share_le(p.lp_amount as int, self.reserve_b as int, self.total_lp as int);
        }
        self.reserve_a = self.reserve_a - amount_a;
        self.reserve_b = self.reserve_b - amount_b;
        self.total_lp = self.total_lp - p.lp_amount;
        Ok(RemoveLiquidityResult { amount_a, amount_b })
    }

    /// Quote only: the swap formula's output with no guard applied; 0 for an
    /// empty side, a zero input, or when a product does not fit.
    pub fn get_amount_out(&self, amount_in: u128, a_to_b: bool) -> (r: u128)
        ensures
            ({
                let (r_in, r_out) = reserves_for(*self, a_to_b);
                if r_in == 0 || r_out == 0 || amount_in == 0 || swap_math_overflows(amount_in, r_in, r_out, self.fee_tier) {
                    r == 0
                } else {
                    r == amount_out_spec(amount_in, r_in, r_out, self.fee_tier)
                }
            }),
    {
        let (r_in, r_out) = if a_to_b { (self.reserve_a, self.reserve_b) } else { (self.reserve_b, self.reserve_a) };
        if r_in == 0 || r_out == 0 || amount_in == 0 {
            return 0;
        }
        match compute_amount_out(amount_in, r_in, r_out, self.fee_tier) {
            Ok(v) => v,
            Err(_) => 0,
        }
    }

    /// Spot price of A in B scaled by 10^18 (see `spot_price_spec`).
    pub fn spot_price_a_in_b(&self) -> (r: u128)
        ensures
            r == spot_price_spec(self.reserve_a, self.reserve_b),
    {
        if self.reserve_a == 0 {
            return 0;
        }
        let scale = 1_000_000_000_000_000_000u128;
        match self.reserve_b.checked_mul(scale) {
            Some(v) => {
                proof {
                    assert(v / self.reserve_a <= v) by (nonlinear_arith)
                        requires self.reserve_a >= 1, v >= 0;
                }
                v / self.reserve_a
            },
            None => {
                let scale12 = 1_000_000_000_000u128;
                let scaled = crate::common::sat_mul_u128(self.reserve_b / 1_000_000, scale12);
                proof {
                    assert(scaled / self.reserve_a <= scaled) by (nonlinear_arith)
                        requires self.reserve_a >= 1, scaled >= 0;
                }
                crate::common::sat_mul_u128(scaled / self.reserve_a, 1_000_000)
            },
        }
    }

    /// `reserve_a * reserve_b`, or `None` when it does not fit.
    pub fn k(&self) -> (r: Option<u128>)
        ensures
            self.reserve_a * self.reserve_b <= u128::MAX ==> r == Some((self.reserve_a * self.reserve_b) as u128),
            self.reserve_a * self.reserve_b > u128::MAX ==> r is None,
    {
        self.reserve_a.checked_mul(self.reserve_b)
    }

    /// `reserve_a * reserve_b`, clamped to `u128::MAX`.
    pub fn k_saturating(&self) -> (r: u128)
        ensures
            r == clamp_u128(self.reserve_a * self.reserve_b),
    {
        crate::common::sat_mul_u128(self.reserve_a, self.reserve_b)
    }
}

} // verus!
