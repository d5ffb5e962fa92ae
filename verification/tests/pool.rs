use zbx_chain::common::Address;
use zbx_chain::pool::error::AmmError;
use zbx_chain::pool::fee::{split_fee, FeeTier};
use zbx_chain::pool::pair::{
    integer_sqrt, AddLiquidityParams, Pair, PairId, RemoveLiquidityParams, SwapParams,
};
use zbx_chain::pool::registry::{
    DexOperation, FeeRegistry, DEFAULT_POOL_CREATION_FEE, DEFAULT_TOKEN_CREATION_FEE,
    DEFAULT_TOKEN_MINT_FEE,
};
use zbx_chain::pool::security::{
    check_deadline, check_oracle_deviation, check_price_impact, check_reserve_drain,
    check_slippage, safe_mul_div, CircuitBreaker, ReentrancyGuard, MIN_LIQUIDITY,
};

// ── registry ────────────────────────────────────────────────────────────────

#[test]
fn default_fees_match_constants() {
    let r = FeeRegistry::default();
    assert_eq!(r.pool_creation_fee(), DEFAULT_POOL_CREATION_FEE);
    assert_eq!(r.token_creation_fee(), DEFAULT_TOKEN_CREATION_FEE);
    assert_eq!(r.token_mint_fee(), DEFAULT_TOKEN_MINT_FEE);
}

#[test]
fn default_governance_is_zero_address() {
    let r = FeeRegistry::default();
    assert_eq!(r.governance, [0u8; 20], "default governance must be zero address");
    assert_eq!(r.treasury, [0u8; 20], "default treasury must be zero address");
}

#[test]
fn governance_update_blocked_on_zero_address_default() {
    let mut r = FeeRegistry::default();
    assert!(r.update_pool_creation_fee([0u8; 20], 1_000 * 10u128.pow(18)).is_ok());
    assert!(r.update_pool_creation_fee([0xABu8; 20], 0).is_err());
}

#[test]
fn bridge_fee_calculation() {
    let r = FeeRegistry::default();
    let fee = r.bridge_fee(1_000_000 * 10u128.pow(18));
    assert_eq!(fee, 500 * 10u128.pow(18));
}

#[test]
fn gas_cost_estimation() {
    let op = DexOperation::SwapDirect;
    let cost = op.gas_cost_wei(14);
    assert_eq!(cost, 120_000 * 14 * 1_000_000_000u128);
}

#[test]
fn total_cost_estimate() {
    let r = FeeRegistry::default();
    let est = r.estimate_total_cost(DexOperation::CreatePool, 20, 0);
    assert_eq!(est.platform_fee, DEFAULT_POOL_CREATION_FEE);
    assert!(est.gas_cost_wei > 0);
    assert_eq!(est.total_wei, est.platform_fee + est.gas_cost_wei);
}

#[test]
fn governance_fee_update() {
    let gov = [0xABu8; 20];
    let mut r = FeeRegistry::new(gov, [0u8; 20]);
    r.update_pool_creation_fee(gov, 1_000 * 10u128.pow(18)).unwrap();
    assert_eq!(r.pool_creation_fee(), 1_000 * 10u128.pow(18));
    assert!(r.update_pool_creation_fee([0u8; 20], 0).is_err());
}

#[test]
fn bridge_fee_cap_enforced() {
    let gov = [0xABu8; 20];
    let mut r = FeeRegistry::new(gov, [0u8; 20]);
    assert!(r.update_bridge_fee_bps(gov, 1_001).is_err());
    assert!(r.update_bridge_fee_bps(gov, 50).is_ok());
}

#[test]
fn all_operations_have_gas_estimate() {
    let ops = [
        DexOperation::SwapDirect, DexOperation::SwapTwoHop,
        DexOperation::AddLiquidity, DexOperation::RemoveLiquidity,
        DexOperation::CreatePool, DexOperation::CreateToken,
        DexOperation::MintTokens, DexOperation::PauseToken,
        DexOperation::RegisterMetadata, DexOperation::Approve,
        DexOperation::TransferFrom, DexOperation::BridgeTransfer,
        DexOperation::RegisterName, DexOperation::ClaimRewards,
    ];
    for op in ops {
        assert!(op.estimated_gas() > 0, "{op:?} has no gas estimate");
    }
}

#[test]
fn platform_fee_per_operation() {
    let r = FeeRegistry::default();
    assert_eq!(r.platform_fee_for(DexOperation::CreateToken, 0), DEFAULT_TOKEN_CREATION_FEE);
    assert_eq!(r.platform_fee_for(DexOperation::BridgeTransfer, 10_000), 5);
    assert_eq!(r.platform_fee_for(DexOperation::SwapDirect, 10_000), 0);
}

#[test]
fn token_creation_fee_update_needs_governance() {
    let gov = [7u8; 20];
    let mut r = FeeRegistry::new(gov, [0u8; 20]);
    assert_eq!(r.update_token_creation_fee([8u8; 20], 1), Err("caller is not governance"));
    assert!(r.update_token_creation_fee(gov, 42).is_ok());
    assert_eq!(r.token_creation_fee(), 42);
}

// ── security ────────────────────────────────────────────────────────────────

#[test]
fn reentrancy_guard_blocks_second_entry() {
    let mut g = ReentrancyGuard::new();
    g.acquire().unwrap();
    assert!(matches!(g.acquire(), Err(AmmError::Reentrancy)));
    g.release();
    assert!(g.acquire().is_ok());
}

#[test]
fn price_impact_within_limit_ok() {
    check_price_impact(10, 1_000).unwrap();
}

#[test]
fn price_impact_too_high_err() {
    let err = check_price_impact(500, 1_000);
    assert!(matches!(err, Err(AmmError::PriceImpactTooHigh { .. })));
}

#[test]
fn price_impact_exact_value_and_empty_reserve() {
    assert!(matches!(
        check_price_impact(500, 1_000),
        Err(AmmError::PriceImpactTooHigh { impact_bps: 3_333, max_bps: 3_000 })
    ));
    assert!(matches!(check_price_impact(1, 0), Err(AmmError::EmptyReserve)));
}

#[test]
fn slippage_check_passes() {
    check_slippage(100, 95).unwrap();
}

#[test]
fn slippage_check_fails() {
    let err = check_slippage(90, 95);
    assert!(matches!(err, Err(AmmError::SlippageExceeded { .. })));
}

#[test]
fn deadline_not_expired() {
    check_deadline(1000, 2000).unwrap();
}

#[test]
fn deadline_expired() {
    let err = check_deadline(3000, 2000);
    assert!(matches!(err, Err(AmmError::DeadlineExpired { .. })));
}

#[test]
fn reserve_drain_check_passes() {
    check_reserve_drain(200, 1_000).unwrap();
}

#[test]
fn reserve_drain_check_fails() {
    let err = check_reserve_drain(400, 1_000);
    assert!(matches!(err, Err(AmmError::ReserveDrainExceeded { .. })));
}

#[test]
fn oracle_deviation_within_limit() {
    let spot = 1_000_000_000_000_000_000u128;
    let oracle = 1_050_000_000_000_000_000u128;
    check_oracle_deviation(spot, oracle).unwrap();
}

#[test]
fn oracle_deviation_too_high() {
    let spot = 1_000_000_000_000_000_000u128;
    let oracle = 1_200_000_000_000_000_000u128;
    let err = check_oracle_deviation(spot, oracle);
    assert!(matches!(err, Err(AmmError::OraclePriceDeviation { .. })));
}

#[test]
fn oracle_skipped_only_when_oracle_is_zero() {
    check_oracle_deviation(1_000_000_000_000_000_000, 0).unwrap();
    let err = check_oracle_deviation(0, 1_000_000_000_000_000_000);
    assert!(
        matches!(err, Err(AmmError::OraclePriceDeviation { .. })),
        "zero pool_spot with non-zero oracle must be blocked, not skipped"
    );
}

#[test]
fn safe_mul_div_correct() {
    assert_eq!(safe_mul_div(100, 997, 1000).unwrap(), 99);
}

#[test]
fn safe_mul_div_overflow() {
    let err = safe_mul_div(u128::MAX, 2, 1);
    assert!(matches!(err, Err(AmmError::Overflow)));
}

#[test]
fn safe_mul_div_by_zero() {
    assert!(matches!(safe_mul_div(1, 1, 0), Err(AmmError::DivisionByZero)));
}

#[test]
fn circuit_breaker_trips_and_clears() {
    let mut cb = CircuitBreaker::new();
    cb.check().unwrap();
    cb.trip("oracle deviation", 500);
    assert!(matches!(cb.check(), Err(AmmError::PoolPaused { .. })));
    match cb.check() {
        Err(AmmError::PoolPaused { reason }) => assert_eq!(reason, "oracle deviation"),
        other => panic!("unexpected {other:?}"),
    }
    cb.clear();
    cb.check().unwrap();
}

// ── fees ────────────────────────────────────────────────────────────────────

#[test]
fn fee_tiers_and_split() {
    assert_eq!(FeeTier::Lowest.bps(), 5);
    assert_eq!(FeeTier::Standard.bps(), 30);
    assert_eq!(FeeTier::High.bps(), 100);
    assert_eq!(FeeTier::Standard.protocol_bps() + FeeTier::Standard.lp_bps(), 30);
    let (lp, protocol) = split_fee(1_000_000, FeeTier::Standard);
    assert_eq!(lp + protocol, 3_000);
}

// ── pair ────────────────────────────────────────────────────────────────────

fn addr(n: u8) -> Address {
    Address([n; 20])
}

fn pair(ra: u128, rb: u128) -> Pair {
    let mut p = Pair::new(PairId::new(addr(1), addr(2)), FeeTier::Standard);
    p.reserve_a = ra;
    p.reserve_b = rb;
    p.total_lp = integer_sqrt(ra.saturating_mul(rb)).saturating_sub(MIN_LIQUIDITY);
    p
}

fn sp(amount_in: u128, a_to_b: bool, ts: u64) -> SwapParams {
    SwapParams {
        a_to_b,
        amount_in,
        min_amount_out: 0,
        deadline: ts + 3_600,
        oracle_twap: 0,
        block_timestamp: ts,
    }
}

#[test]
fn swap_splits_fee_between_lp_and_protocol() {
    let mut p = pair(1_000_000, 1_000_000);
    let r = p.swap(sp(10_000, true, 1000)).unwrap();
    // 0.30% of 10_000 = 30, of which a fifth (6) goes to the protocol.
    assert_eq!(r.lp_fee, 24);
    assert_eq!(r.protocol_fee, 6);
    assert_eq!(p.fee_a, 6);
    assert!(r.amount_out > 0 && r.amount_out < 9_901);
}

#[test]
fn swap_applies_fee() {
    let mut p = pair(1_000_000, 1_000_000);
    let r = p.swap(sp(1_000, true, 1000)).unwrap();
    // Fee 0.30% → output strictly less than no-fee calculation (~999)
    assert!(r.amount_out > 0 && r.amount_out < 999);
    assert!(r.lp_fee > 0 && r.protocol_fee > 0);
}

#[test]
fn small_fee_split_rounds_the_protocol_part_up() {
    // A total fee of 3 gives the protocol 1 and the providers 2.
    assert_eq!(split_fee(1_000, FeeTier::Standard), (2, 1));
    // No fee, no protocol part.
    assert_eq!(split_fee(1, FeeTier::Standard), (0, 0));
    // A total fee of 4 (1500 at 0.30%) gives the protocol 1.
    assert_eq!(split_fee(1_500, FeeTier::Standard), (3, 1));
    assert_eq!(split_fee(1_000_000, FeeTier::Standard), (2_400, 600));
}

#[test]
fn swap_b_to_a_works() {
    let mut p = pair(1_000_000, 2_000_000);
    let r = p.swap(sp(1_000, false, 1000)).unwrap();
    assert!(r.amount_out > 0);
}

#[test]
fn k_invariant_holds() {
    let mut p = pair(1_000_000, 1_000_000);
    let k0 = p.k().unwrap();
    p.swap(sp(1_000, true, 1000)).unwrap();
    assert!(p.k().unwrap() >= k0);
}

#[test]
fn k_checked_mul_used_not_saturating() {
    let mut p = Pair::new(PairId::new(addr(1), addr(2)), FeeTier::Standard);
    p.reserve_a = u128::MAX / 2 + 1;
    p.reserve_b = 2;
    assert!(p.k().is_none(), "k() must return None on overflow");
    assert_eq!(p.k_saturating(), u128::MAX);
}

#[test]
fn slippage_rejected() {
    let mut p = pair(1_000_000, 1_000_000);
    let mut s = sp(1_000, true, 1000);
    s.min_amount_out = 10_000;
    assert!(matches!(p.swap(s), Err(AmmError::SlippageExceeded { .. })));
}

#[test]
fn deadline_rejected() {
    let mut p = pair(1_000_000, 1_000_000);
    let mut s = sp(1_000, true, 5000);
    s.deadline = 3000;
    assert!(matches!(p.swap(s), Err(AmmError::DeadlineExpired { .. })));
}

#[test]
fn price_impact_cap_on_fresh_pools() {
    // The second swap runs on a fresh pool: after the first swap the input
    // reserve is 1290, and 500 / (1290 + 500) is about 2793 bps, under the
    // 30% cap, so on the same pool it would not be blocked. On a fresh pool
    // 500 / 1500 is about 33%, over the cap.
    let mut p = pair(1_000, 1_000);
    assert!(p.swap(sp(290, true, 1000)).is_ok());
    let mut q = pair(1_000, 1_000);
    assert!(matches!(q.swap(sp(500, true, 1000)), Err(AmmError::PriceImpactTooHigh { .. })));
}

#[test]
fn reentrancy_blocked() {
    let mut p = pair(1_000_000, 1_000_000);
    p.reentrancy.acquire().unwrap();
    assert!(matches!(p.swap(sp(1_000, true, 1000)), Err(AmmError::Reentrancy)));
    p.reentrancy.release();
}

#[test]
fn circuit_breaker_pauses_all() {
    let mut p = pair(1_000_000, 1_000_000);
    p.circuit.trip("test", 1);
    assert!(matches!(p.swap(sp(1_000, true, 1000)), Err(AmmError::PoolPaused { .. })));
    p.circuit.clear();
    assert!(p.swap(sp(1_000, true, 1000)).is_ok());
}

#[test]
fn oracle_deviation_blocks() {
    let mut p = pair(1_000_000, 1_000_000);
    let mut s = sp(1_000, true, 1000);
    s.oracle_twap = 1_300_000_000_000_000_000;
    assert!(matches!(p.swap(s), Err(AmmError::OraclePriceDeviation { .. })));
}

#[test]
fn add_liquidity_first_deposit() {
    let mut p = Pair::new(PairId::new(addr(1), addr(2)), FeeTier::Standard);
    let r = p
        .add_liquidity(AddLiquidityParams {
            amount_a: 1_000_000,
            amount_b: 1_000_000,
            min_lp_out: 0,
            deadline: 9999,
            block_timestamp: 1,
        })
        .unwrap();
    assert_eq!(r.lp_minted, 999_000);
}

#[test]
fn remove_liquidity_proportional() {
    let mut p = pair(1_000_000, 2_000_000);
    let lp = p.total_lp / 2;
    let r = p
        .remove_liquidity(RemoveLiquidityParams {
            lp_amount: lp,
            min_a_out: 0,
            min_b_out: 0,
            deadline: 9999,
            block_timestamp: 1,
        })
        .unwrap();
    assert!((r.amount_a as i128 - 500_000).abs() < 2_000);
    assert!((r.amount_b as i128 - 1_000_000).abs() < 2_000);
}

#[test]
fn integer_sqrt_values() {
    assert_eq!(integer_sqrt(0), 0);
    assert_eq!(integer_sqrt(4), 2);
    assert_eq!(integer_sqrt(9), 3);
    assert_eq!(integer_sqrt(1_000_000), 1_000);
}

#[test]
fn integer_sqrt_floors_and_handles_max() {
    assert_eq!(integer_sqrt(8), 2);
    assert_eq!(integer_sqrt(u128::MAX - 1), u64::MAX as u128);
}

#[test]
fn spot_price_large_reserves_no_overflow() {
    let mut p = Pair::new(PairId::new(addr(1), addr(2)), FeeTier::Standard);
    p.reserve_a = 1_000_000_000_000_000_000u128;
    p.reserve_b = u128::MAX / 2;
    let spot = p.spot_price_a_in_b();
    assert!(spot > 0, "spot_price should be non-zero for large reserve_b");
}

#[test]
fn spot_price_exact_and_pair_id_ordering() {
    let p = pair(1_000, 2_000);
    assert_eq!(p.spot_price_a_in_b(), 2_000_000_000_000_000_000);
    let id = PairId::new(addr(9), addr(3));
    assert_eq!(id.token_a, addr(3));
    assert_eq!(id.token_b, addr(9));
}

#[test]
fn get_amount_out_matches_swap() {
    let p = pair(1_000_000, 1_000_000);
    let quoted = p.get_amount_out(1_000, true);
    let mut q = p.clone();
    let r = q.swap(sp(1_000, true, 1)).unwrap();
    assert_eq!(quoted, r.amount_out);
    // 1000 * 9970 * 1e6 / (1e6 * 1e4 + 1000 * 9970) = 996
    assert_eq!(quoted, 996);
    assert_eq!(q.reserve_a, 1_001_000);
    assert_eq!(q.reserve_b, 1_000_000 - 996);
}

#[test]
fn remove_more_lp_than_supply_rejected() {
    let mut p = pair(1_000_000, 1_000_000);
    let too_much = p.total_lp + 1;
    let r = p.remove_liquidity(RemoveLiquidityParams {
        lp_amount: too_much,
        min_a_out: 0,
        min_b_out: 0,
        deadline: 10,
        block_timestamp: 1,
    });
    assert!(matches!(r, Err(AmmError::InsufficientLpBalance)));
}

#[test]
fn zero_amount_swap_rejected() {
    let mut p = pair(1_000_000, 1_000_000);
    assert!(matches!(p.swap(sp(0, true, 1)), Err(AmmError::ZeroAmount)));
}

#[test]
fn swap_guards_report_the_first_failing_check() {
    // An empty pool refuses a swap for its empty reserve.
    let mut empty = pair(0, 0);
    assert!(matches!(empty.swap(sp(1_000, true, 1000)), Err(AmmError::EmptyReserve)));
    // An expired deadline is reported before the zero input.
    let mut p = pair(1_000_000, 1_000_000);
    let mut s = sp(0, true, 1000);
    s.deadline = 999;
    assert!(matches!(p.swap(s), Err(AmmError::DeadlineExpired { now: 1000, deadline: 999 })));
    // A zero input is reported before the empty reserve.
    assert!(matches!(empty.swap(sp(0, true, 1000)), Err(AmmError::ZeroAmount)));
    // A failed swap leaves the reserves as they were.
    assert_eq!((p.reserve_a, p.reserve_b), (1_000_000, 1_000_000));
}
