use std::collections::HashMap;

use zbx_chain::common::Address;
use zbx_chain::perp::engine::{OracleProvider, PerpEngine};
use zbx_chain::perp::error::PerpError;
use zbx_chain::perp::funding::{
    current_funding_rate, funding_cost_for_position, next_funding_in, settle_funding,
    FUNDING_RATE_SCALE,
};
use zbx_chain::perp::liquidation::{liquidate, liquidate_cross};
use zbx_chain::perp::market::MarketRegistry;
use zbx_chain::perp::order::{
    set_trailing_stop, sl_hit, tp_hit, update_trailing_stop, validate_sl, validate_tp,
};
use zbx_chain::perp::position::{pnl_for, PositionStore};
use zbx_chain::perp::tx_handler::{
    decode_perp_call, dispatch_perp_call, is_perp_destination, selector, PerpCall,
    GAS_DEPOSIT_CROSS, PERP_CONTRACT_ADDR, SEL_ADD_COLLATERAL, SEL_CLOSE_POSITION,
    SEL_DEPOSIT_CROSS, SEL_LIQUIDATE, SEL_LIQUIDATE_CROSS, SEL_OPEN_POSITION, SEL_PARTIAL_CLOSE,
    SEL_SET_STOP_LOSS, SEL_SET_TAKE_PROFIT, SEL_SET_TRAILING_STOP, SEL_TRIGGER_ORDER,
    SEL_TRIGGER_SL, SEL_TRIGGER_TP, SEL_UPDATE_FUNDING, SEL_UPDATE_TRAILING_STOP,
    SEL_WITHDRAW_CROSS,
};
use zbx_chain::perp::types::{Market, OpenPositionParams, Position};
use zbx_chain::perp::MAX_LEVERAGE;

const ONE: u128 = 1_000_000_000_000_000_000;

fn addr(b: u8) -> Address {
    Address([b; 20])
}

fn market(long_oi: u128, short_oi: u128, last_update: u64) -> Market {
    Market {
        symbol: "BTC".into(),
        oracle: addr(99),
        active: true,
        max_leverage: 200,
        total_long_oi: long_oi,
        total_short_oi: short_oi,
        cumulative_funding: 0,
        last_funding_update: last_update,
    }
}

fn open_params(is_long: bool, is_cross: bool, collateral: u128, leverage: u64) -> OpenPositionParams {
    OpenPositionParams { market_id: 0, is_long, collateral, leverage, is_cross, sl_price: 0, tp_price: 0 }
}

// ── funding ─────────────────────────────────────────────────────────────────

#[test]
fn balanced_oi_gives_zero_rate() {
    assert_eq!(current_funding_rate(&market(1_000, 1_000, 1_000_000)), 0);
}

#[test]
fn long_dominated_oi_gives_positive_rate() {
    let rate = current_funding_rate(&market(7_500, 2_500, 1_000_000));
    assert!(rate > 0, "expected positive rate for long-dominated OI");
}

#[test]
fn short_dominated_oi_gives_negative_rate() {
    let rate = current_funding_rate(&market(2_500, 7_500, 1_000_000));
    assert!(rate < 0, "expected negative rate for short-dominated OI");
}

#[test]
fn zero_oi_gives_zero_rate() {
    assert_eq!(current_funding_rate(&market(0, 0, 1_000_000)), 0);
}

#[test]
fn settle_advances_cumulative_funding() {
    let interval = 28_800u64;
    let mut m = market(6_000, 4_000, 1_000_000);
    let rate_before = current_funding_rate(&m);
    let intervals = settle_funding(&mut m, 1_000_000 + interval * 3 + 100, interval);
    assert_eq!(intervals, 3);
    assert_eq!(m.cumulative_funding, rate_before * 3);
    assert_eq!(m.last_funding_update, 1_000_000 + interval * 3);
}

#[test]
fn settle_noop_if_not_due() {
    let interval = 28_800u64;
    let mut m = market(6_000, 4_000, 1_000_000);
    let n = settle_funding(&mut m, 1_000_000 + interval / 2, interval);
    assert_eq!(n, 0);
    assert_eq!(m.cumulative_funding, 0);
}

#[test]
fn next_funding_in_correct() {
    let interval = 28_800u64;
    let m = market(0, 0, 1_000_000);
    let now = 1_000_000 + 10_000;
    assert_eq!(next_funding_in(&m, now, interval), interval - 10_000);
}

#[test]
fn funding_cost_positive_when_cumulative_increases() {
    let cost = funding_cost_for_position(1_000_000, 0, FUNDING_RATE_SCALE as u128 * 2);
    assert!(cost > 0);
}

#[test]
fn funding_cost_zero_when_no_delta() {
    let cost = funding_cost_for_position(500, 500, 1_000_000);
    assert_eq!(cost, 0);
}

#[test]
fn funding_rate_exact_value() {
    // (7500 - 2500) bps of bias × 10^4
    assert_eq!(current_funding_rate(&market(7_500, 2_500, 0)), 50_000_000);
    assert_eq!(funding_cost_for_position(FUNDING_RATE_SCALE, 0, 7), 7);
}

// ── orders ──────────────────────────────────────────────────────────────────

fn open_long(store: &mut PositionStore, entry: u128) -> u64 {
    let mut m = market(0, 0, 0);
    let p = open_params(true, false, 100 * ONE, 10);
    store.open(addr(1), &p, entry, &mut m).unwrap().position_id
}

#[test]
fn validate_sl_long_requires_sl_below_mark() {
    assert!(validate_sl(true, 1000, 900).is_ok());
    assert!(validate_sl(true, 1000, 1000).is_err());
    assert!(validate_sl(true, 1000, 1100).is_err());
}

#[test]
fn validate_sl_short_requires_sl_above_mark() {
    assert!(validate_sl(false, 1000, 1100).is_ok());
    assert!(validate_sl(false, 1000, 1000).is_err());
    assert!(validate_sl(false, 1000, 900).is_err());
}

#[test]
fn validate_tp_long_requires_tp_above_mark() {
    assert!(validate_tp(true, 1000, 1100).is_ok());
    assert!(validate_tp(true, 1000, 1000).is_err());
    assert!(validate_tp(true, 1000, 900).is_err());
}

#[test]
fn set_trailing_stop_sets_correct_sl() {
    let mut store = PositionStore::new();
    let pid = open_long(&mut store, 50_000 * ONE);
    set_trailing_stop(&mut store, addr(1), pid, 200, 50_000 * ONE).unwrap();
    let p = store.get_position(pid).unwrap();
    assert_eq!(p.trail_bps, 200);
    let expected_sl = 50_000 * ONE * (10_000 - 200) / 10_000;
    assert_eq!(p.stop_loss, expected_sl);
}

#[test]
fn update_trailing_stop_ratchets_on_new_high() {
    let mut store = PositionStore::new();
    let pid = open_long(&mut store, 50_000 * ONE);
    set_trailing_stop(&mut store, addr(1), pid, 200, 50_000 * ONE).unwrap();
    let new_sl = update_trailing_stop(&mut store, pid, 52_000 * ONE).unwrap();
    let expected = 52_000 * ONE * (10_000 - 200) / 10_000;
    assert_eq!(new_sl, expected);
}

#[test]
fn update_trailing_stop_rejects_unfavourable() {
    let mut store = PositionStore::new();
    let pid = open_long(&mut store, 50_000 * ONE);
    set_trailing_stop(&mut store, addr(1), pid, 200, 50_000 * ONE).unwrap();
    let err = update_trailing_stop(&mut store, pid, 49_000 * ONE).unwrap_err();
    assert_eq!(err, PerpError::TrailNotFavourable);
}

fn sample_position() -> Position {
    Position {
        trader: addr(1),
        market_id: 0,
        is_long: true,
        is_cross: false,
        collateral: 100,
        size: 1000,
        entry_price: 1000,
        funding_entry_rate: 0,
        stop_loss: 900,
        take_profit: 0,
        trail_bps: 0,
        trail_peak: 1000,
        closed: false,
        initial_margin: 100,
    }
}

#[test]
fn sl_hit_returns_true_when_price_at_or_below_sl() {
    let p = sample_position();
    assert!(sl_hit(&p, 899));
    assert!(sl_hit(&p, 900));
    assert!(!sl_hit(&p, 901));
}

#[test]
fn tp_zero_never_hits_and_set_tp_hits_above() {
    let mut p = sample_position();
    assert!(!tp_hit(&p, 5_000));
    p.take_profit = 1_200;
    assert!(tp_hit(&p, 1_200));
    assert!(!tp_hit(&p, 1_199));
}

// ── positions ───────────────────────────────────────────────────────────────

#[test]
fn open_isolated_long_and_close_in_profit() {
    let mut store = PositionStore::new();
    let mut m = market(0, 0, 0);
    let trader = addr(1);
    let res = store.open(trader, &open_params(true, false, 100 * ONE, 10), 50_000 * ONE, &mut m).unwrap();
    assert!(res.size > 0);
    assert_eq!(m.total_long_oi, res.size);
    let cr = store.close(trader, res.position_id, 55_000 * ONE, &mut m).unwrap();
    assert!(cr.net_pnl > 0);
    assert_eq!(m.total_long_oi, 0);
}

#[test]
fn open_isolated_short_and_close_at_loss() {
    let mut store = PositionStore::new();
    let mut m = market(0, 0, 0);
    let trader = addr(2);
    let res = store.open(trader, &open_params(false, false, 50 * ONE, 5), 50_000 * ONE, &mut m).unwrap();
    let cr = store.close(trader, res.position_id, 52_000 * ONE, &mut m).unwrap();
    assert!(cr.net_pnl < 0);
}

#[test]
fn partial_close_50_percent() {
    let mut store = PositionStore::new();
    let mut m = market(0, 0, 0);
    let trader = addr(3);
    let res = store.open(trader, &open_params(true, false, 100 * ONE, 10), 50_000 * ONE, &mut m).unwrap();
    let original_size = res.size;
    store.partial_close(trader, res.position_id, 5_000, 51_000 * ONE, &mut m).unwrap();
    let pos = store.get_position(res.position_id).unwrap();
    assert_eq!(pos.size, original_size / 2);
}

#[test]
fn add_collateral_increases_margin() {
    let mut store = PositionStore::new();
    let mut m = market(0, 0, 0);
    let res = store.open(addr(4), &open_params(true, false, 100 * ONE, 10), 50_000 * ONE, &mut m).unwrap();
    let before = store.get_position(res.position_id).unwrap().collateral;
    store.add_collateral(res.position_id, 10 * ONE).unwrap();
    let after = store.get_position(res.position_id).unwrap().collateral;
    assert_eq!(after, before + 10 * ONE);
}

#[test]
fn pnl_for_long_profit() {
    assert_eq!(pnl_for(true, 100, 110, 1000), 100);
}

#[test]
fn pnl_for_long_loss() {
    assert_eq!(pnl_for(true, 100, 90, 1000), -100);
}

#[test]
fn pnl_for_short_profit() {
    assert_eq!(pnl_for(false, 100, 90, 1000), 100);
}

#[test]
fn health_drops_to_zero_near_liquidation() {
    let mut store = PositionStore::new();
    let mut m = market(0, 0, 0);
    let entry = 50_000 * ONE;
    let res = store.open(addr(5), &open_params(true, false, 100 * ONE, 10), entry, &mut m).unwrap();
    let h = store.health_bps(res.position_id, entry / 10, &m);
    assert_eq!(h, 0, "health must be 0 when deeply underwater");
}

#[test]
fn open_charges_fee_and_sizes_position() {
    let mut store = PositionStore::new();
    let mut m = market(0, 0, 0);
    let res = store.open(addr(6), &open_params(true, false, 100 * ONE, 10), 50_000 * ONE, &mut m).unwrap();
    // fee 0.10% of the collateral; size = net collateral × leverage
    assert_eq!(res.fee_charged, ONE / 10);
    assert_eq!(res.size, 999 * ONE);
    assert_eq!(store.get_position(res.position_id).unwrap().collateral, 999 * ONE / 10);
    assert_eq!(store.protocol_fee_balance(), ONE / 10);
    assert_eq!(res.position_id, 1);
    assert_eq!(store.next_position_id(), 1);
}

#[test]
fn open_rejects_bad_leverage_and_zero_collateral() {
    let mut store = PositionStore::new();
    let mut m = market(0, 0, 0);
    let err = store.open(addr(1), &open_params(true, false, 100, 0), 1_000, &mut m).unwrap_err();
    assert_eq!(err, PerpError::ZeroLeverage);
    let err = store.open(addr(1), &open_params(true, false, 100, 201), 1_000, &mut m).unwrap_err();
    assert_eq!(err, PerpError::LeverageTooHigh { got: 201, max: 200 });
    let err = store.open(addr(1), &open_params(true, false, 0, 2), 1_000, &mut m).unwrap_err();
    assert_eq!(err, PerpError::ZeroCollateral);
}

#[test]
fn close_by_other_trader_rejected() {
    let mut store = PositionStore::new();
    let mut m = market(0, 0, 0);
    let res = store.open(addr(1), &open_params(true, false, 100 * ONE, 10), 50_000 * ONE, &mut m).unwrap();
    let err = store.close(addr(2), res.position_id, 50_000 * ONE, &mut m).unwrap_err();
    assert_eq!(err, PerpError::NotPositionOwner(res.position_id));
    let err = store.close(addr(1), 77, 50_000 * ONE, &mut m).unwrap_err();
    assert_eq!(err, PerpError::PositionNotFound(77));
}

#[test]
fn cross_deposit_and_withdraw_limits() {
    let mut store = PositionStore::new();
    store.deposit_cross(addr(1), 500).unwrap();
    assert_eq!(store.cross_balance(addr(1)), 500);
    assert_eq!(store.deposit_cross(addr(1), 0), Err(PerpError::ZeroAmount));
    assert_eq!(
        store.withdraw_cross(addr(1), 600),
        Err(PerpError::CrossWithdrawTooLarge { free: 500, requested: 600 })
    );
    store.withdraw_cross(addr(1), 200).unwrap();
    assert_eq!(store.free_cross_margin(addr(1)), 300);
}

// ── liquidation ─────────────────────────────────────────────────────────────

fn open_isolated(store: &mut PositionStore, is_long: bool, col: u128, lev: u64, entry: u128) -> (u64, Market) {
    let mut m = market(0, 0, 0);
    let res = store.open(addr(1), &open_params(is_long, false, col, lev), entry, &mut m).unwrap();
    (res.position_id, m)
}

#[test]
fn liquidation_needs_equity_at_or_below_maintenance() {
    let mut store = PositionStore::new();
    // 5× leverage: equity 99.9, maintenance 10% of 499.5 = 49.95 → healthy.
    let (pid, mut m) = open_isolated(&mut store, true, 100 * ONE, 5, 50_000 * ONE);
    let err = liquidate(&mut store, addr(99), pid, 50_000 * ONE, &mut m).unwrap_err();
    assert_eq!(err, PerpError::NotLiquidatable(pid));
    // 10× leverage at entry: equity equals the maintenance margin → liquidatable.
    let (pid2, mut m2) = open_isolated(&mut store, true, 100 * ONE, 10, 50_000 * ONE);
    assert!(liquidate(&mut store, addr(99), pid2, 50_000 * ONE, &mut m2).is_ok());
}

#[test]
fn liquidate_underwater_position_succeeds() {
    let mut store = PositionStore::new();
    let (pid, mut m) = open_isolated(&mut store, true, 100 * ONE, 10, 50_000 * ONE);
    let res = liquidate(&mut store, addr(99), pid, 100, &mut m).unwrap();
    assert!(res.keeper_bounty > 0);
    let p = store.get_position(pid).unwrap();
    assert!(p.closed);
    // 1% of the net collateral to the keeper; the rest to the protocol.
    let col = 999 * ONE / 10;
    assert_eq!(res.keeper_bounty, col / 100);
    assert_eq!(res.protocol_fee, col - col / 100);
}

#[test]
fn liquidate_cross_position_directly_rejected() {
    let mut store = PositionStore::new();
    let mut m = market(0, 0, 0);
    store.deposit_cross(addr(1), 10_000 * ONE).unwrap();
    let p = open_params(true, true, 100 * ONE, 1);
    let res = store.open(addr(1), &p, 1_000 * ONE, &mut m).unwrap();
    let err = liquidate(&mut store, addr(99), res.position_id, ONE, &mut m).unwrap_err();
    assert_eq!(err, PerpError::NotIsolatedPosition);
}

#[test]
fn liquidate_cross_healthy_account_rejected() {
    let mut store = PositionStore::new();
    store.deposit_cross(addr(1), 10_000 * ONE).unwrap();
    let err = liquidate_cross(&mut store, addr(99), addr(1), &vec![Some(ONE)]).unwrap_err();
    assert_eq!(err, PerpError::NotLiquidatable(0));
}

// ── markets ─────────────────────────────────────────────────────────────────

#[test]
fn add_and_get_market() {
    let mut r = MarketRegistry::new();
    let id = r.add_market(addr(1), "BTC".into(), 200, 0).unwrap();
    assert_eq!(id, 0);
    assert_eq!(r.market_count(), 1);
    let m = r.get(0).unwrap();
    assert_eq!(m.symbol, "BTC");
    assert!(m.active);
}

#[test]
fn zero_oracle_rejected() {
    let mut r = MarketRegistry::new();
    assert!(r.add_market(addr(0), "X".into(), 10, 0).is_err());
}

#[test]
fn leverage_too_high_rejected() {
    let mut r = MarketRegistry::new();
    assert!(matches!(
        r.add_market(addr(1), "X".into(), MAX_LEVERAGE + 1, 0),
        Err(PerpError::LeverageTooHigh { .. })
    ));
}

#[test]
fn update_market_changes_oracle_and_leverage() {
    let mut r = MarketRegistry::new();
    let id = r.add_market(addr(1), "BTC".into(), 10, 0).unwrap();
    r.update_market(id, addr(2), false, 50).unwrap();
    let m = r.get(id).unwrap();
    assert_eq!(m.oracle, addr(2));
    assert!(!m.active);
    assert_eq!(m.max_leverage, 50);
}

#[test]
fn unknown_market_is_not_found() {
    let r = MarketRegistry::new();
    assert!(matches!(r.get(3), Err(PerpError::MarketNotFound(3))));
}

// ── transaction decoding ────────────────────────────────────────────────────

#[test]
fn open_position_selector_not_zero() {
    assert_ne!(SEL_OPEN_POSITION, [0u8; 4]);
    assert_ne!(SEL_OPEN_POSITION, SEL_CLOSE_POSITION);
}

#[test]
fn all_selectors_are_distinct() {
    let sels = [
        SEL_OPEN_POSITION, SEL_CLOSE_POSITION, SEL_PARTIAL_CLOSE,
        SEL_ADD_COLLATERAL, SEL_SET_STOP_LOSS, SEL_SET_TAKE_PROFIT,
        SEL_SET_TRAILING_STOP, SEL_UPDATE_TRAILING_STOP,
        SEL_TRIGGER_ORDER, SEL_TRIGGER_SL, SEL_TRIGGER_TP,
        SEL_LIQUIDATE, SEL_LIQUIDATE_CROSS,
        SEL_DEPOSIT_CROSS, SEL_WITHDRAW_CROSS, SEL_UPDATE_FUNDING,
    ];
    for i in 0..sels.len() {
        for j in (i + 1)..sels.len() {
            assert_ne!(sels[i], sels[j], "selector collision at indices {i} and {j}");
        }
    }
}

#[test]
fn selectors_are_keccak_of_signatures() {
    assert_eq!(selector("transfer(address,uint256)"), [0xa9, 0x05, 0x9c, 0xbb]);
    assert_eq!(selector("closePosition(uint256)"), SEL_CLOSE_POSITION);
    assert_eq!(selector("depositCross(uint256)"), SEL_DEPOSIT_CROSS);
}

fn word_u64(v: u64) -> Vec<u8> {
    let mut b = vec![0u8; 24];
    b.extend_from_slice(&v.to_be_bytes());
    b
}

fn word_u128(v: u128) -> Vec<u8> {
    let mut b = vec![0u8; 16];
    b.extend_from_slice(&v.to_be_bytes());
    b
}

fn word_bool(v: bool) -> Vec<u8> {
    let mut b = vec![0u8; 31];
    b.push(if v { 1 } else { 0 });
    b
}

#[test]
fn decode_open_position_round_trips() {
    let mut data = SEL_OPEN_POSITION.to_vec();
    data.extend(word_u64(3));
    data.extend(word_bool(true));
    data.extend(word_u128(100_000));
    data.extend(word_u64(10));
    data.extend(word_bool(false));
    data.extend(word_u128(0));
    data.extend(word_u128(0));
    match decode_perp_call(&data).unwrap() {
        PerpCall::OpenPosition { market_id, is_long, collateral, leverage, is_cross, .. } => {
            assert_eq!(market_id, 3);
            assert!(is_long);
            assert_eq!(collateral, 100_000);
            assert_eq!(leverage, 10);
            assert!(!is_cross);
        }
        _ => panic!("unexpected variant"),
    }
}

#[test]
fn decode_rejects_short_and_unknown_payloads() {
    assert_eq!(decode_perp_call(&[1, 2]).unwrap_err(), PerpError::Overflow);
    assert_eq!(decode_perp_call(&[0, 0, 0, 0]).unwrap_err(), PerpError::Overflow);
    let mut data = SEL_PARTIAL_CLOSE.to_vec();
    data.extend(word_u64(1));
    assert_eq!(decode_perp_call(&data).unwrap_err(), PerpError::Overflow);
}

#[test]
fn decode_liquidate_cross_reads_address() {
    let mut data = SEL_LIQUIDATE_CROSS.to_vec();
    data.extend(vec![0u8; 12]);
    data.extend([7u8; 20]);
    match decode_perp_call(&data).unwrap() {
        PerpCall::LiquidateCross { trader } => assert_eq!(trader, addr(7)),
        _ => panic!("unexpected variant"),
    }
}

#[test]
fn perp_destination_check() {
    assert!(is_perp_destination(Some(&Address(PERP_CONTRACT_ADDR))));
    assert!(!is_perp_destination(Some(&addr(1))));
    assert!(!is_perp_destination(None));
}

// ── engine ──────────────────────────────────────────────────────────────────

struct MockOracle(HashMap<[u8; 20], u128>);

impl OracleProvider for MockOracle {
    fn mark_price(&self, a: Address) -> Option<u128> {
        self.0.get(&a.0).copied()
    }
}

fn oracle_addr() -> Address {
    addr(50)
}

fn make_engine(mark: u128) -> PerpEngine<MockOracle> {
    let mut prices = HashMap::new();
    prices.insert(oracle_addr().0, mark);
    PerpEngine::new(addr(0), MockOracle(prices))
}

fn setup_market(engine: &mut PerpEngine<MockOracle>) -> u64 {
    engine.add_market(addr(0), oracle_addr(), "BTC".into(), 200, 0).unwrap()
}

#[test]
fn open_and_close_isolated_long() {
    let mut eng = make_engine(50_000 * ONE);
    let mid = setup_market(&mut eng);
    let res = eng.open_position(addr(1), mid, true, 100 * ONE, 10, false, 0, 0, 0).unwrap();
    assert!(res.size > 0);
    let cr = eng.close_position(addr(1), res.position_id, 0).unwrap();
    assert!(cr.payout <= 100 * ONE);
}

#[test]
fn only_owner_can_add_market() {
    let mut eng = make_engine(50_000 * ONE);
    let err = eng.add_market(addr(99), oracle_addr(), "X".into(), 10, 0).unwrap_err();
    assert_eq!(err, PerpError::NotOwner);
}

#[test]
fn engine_liquidate_healthy_position_fails() {
    let mut eng = make_engine(50_000 * ONE);
    let mid = setup_market(&mut eng);
    let res = eng.open_position(addr(1), mid, true, 100 * ONE, 5, false, 0, 0, 0).unwrap();
    let err = eng.liquidate(addr(99), res.position_id, 0).unwrap_err();
    assert_eq!(err, PerpError::NotLiquidatable(res.position_id));
}

#[test]
fn trigger_order_requires_sl_hit() {
    let mut eng = make_engine(50_000 * ONE);
    let mid = setup_market(&mut eng);
    let res = eng.open_position(addr(1), mid, true, 100 * ONE, 10, false, 0, 0, 0).unwrap();
    let err = eng.trigger_order(addr(99), res.position_id, 0).unwrap_err();
    assert_eq!(err, PerpError::NeitherTriggered(res.position_id));
}

#[test]
fn deposit_and_withdraw_cross() {
    let mut eng = make_engine(1_000 * ONE);
    eng.deposit_cross(addr(1), 500 * ONE).unwrap();
    assert_eq!(eng.positions().cross_balance(addr(1)), 500 * ONE);
    eng.withdraw_cross(addr(1), 200 * ONE).unwrap();
    assert_eq!(eng.positions().cross_balance(addr(1)), 300 * ONE);
}

#[test]
fn engine_rejects_missing_oracle_price() {
    let mut eng = PerpEngine::new(addr(0), MockOracle(HashMap::new()));
    let mid = setup_market(&mut eng);
    let err = eng.open_position(addr(1), mid, true, 100 * ONE, 10, false, 0, 0, 0).unwrap_err();
    assert_eq!(err, PerpError::ZeroOraclePrice(mid));
}

#[test]
fn engine_views_and_dispatch() {
    let mut eng = make_engine(50_000 * ONE);
    let mid = setup_market(&mut eng);
    assert_eq!(eng.market_count(), 1);
    let view = eng.market_view(mid, 0).unwrap();
    assert_eq!(view.mark_price, 50_000 * ONE);
    assert_eq!(view.symbol, "BTC");
    let gas = dispatch_perp_call(&PerpCall::DepositCross { amount: 5 }, addr(3), 0, &mut eng).unwrap();
    assert_eq!(gas, GAS_DEPOSIT_CROSS);
    assert_eq!(eng.cross_account_view(addr(3), 0).balance, 5);
    let res = eng.open_position(addr(1), mid, false, 10 * ONE, 2, false, 0, 0, 0).unwrap();
    let pv = eng.position_view(res.position_id).unwrap();
    assert!(!pv.is_long);
    assert_eq!(pv.size, 1998 * ONE / 100);
    assert_eq!(eng.next_position_id(), 1);
}

#[test]
fn every_selector_constant_is_the_keccak_of_its_signature() {
    let table: [(&str, [u8; 4]); 16] = [
        ("openPosition(uint256,bool,uint256,uint256,bool,uint256,uint256)", SEL_OPEN_POSITION),
        ("closePosition(uint256)", SEL_CLOSE_POSITION),
        ("partialClose(uint256,uint256)", SEL_PARTIAL_CLOSE),
        ("addCollateral(uint256,uint256)", SEL_ADD_COLLATERAL),
        ("setStopLoss(uint256,uint256)", SEL_SET_STOP_LOSS),
        ("setTakeProfit(uint256,uint256)", SEL_SET_TAKE_PROFIT),
        ("setTrailingStop(uint256,uint256)", SEL_SET_TRAILING_STOP),
        ("updateTrailingStop(uint256)", SEL_UPDATE_TRAILING_STOP),
        ("triggerOrder(uint256)", SEL_TRIGGER_ORDER),
        ("triggerStopLoss(uint256)", SEL_TRIGGER_SL),
        ("triggerTakeProfit(uint256)", SEL_TRIGGER_TP),
        ("liquidate(uint256)", SEL_LIQUIDATE),
        ("liquidateCross(address)", SEL_LIQUIDATE_CROSS),
        ("depositCross(uint256)", SEL_DEPOSIT_CROSS),
        ("withdrawCross(uint256)", SEL_WITHDRAW_CROSS),
        ("updateFunding(uint256)", SEL_UPDATE_FUNDING),
    ];
    for (sig, sel) in table.iter() {
        assert_eq!(selector(sig), *sel, "selector of {sig}");
    }
}
