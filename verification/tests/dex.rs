use zbx_chain::common::Address;
use zbx_chain::pool::approval::{AllowanceRegistry, ApprovalError};
use zbx_chain::pool::canonical_pairs::{canonical_pools, wzbx, zusd, WZBX_ADDR, ZUSD_ADDR};
use zbx_chain::pool::dex::{DexEngine, DexError};
use zbx_chain::pool::error::AmmError;
use zbx_chain::pool::factory::{derive_pool_address, PoolFactory};
use zbx_chain::pool::fee::FeeTier;
use zbx_chain::pool::lp_token::{LpError, LpRegistry};
use zbx_chain::pool::pair::{integer_sqrt, Pair, PairId};
use zbx_chain::pool::registry::{DexOperation, FeeRegistry};
use zbx_chain::pool::router::{execute_route, find_best_route, find_direct_route};
use zbx_chain::pool::security::MIN_LIQUIDITY;
use zbx_chain::pool::token_factory::{derive_token_address, CreateTokenParams, TokenFactory, TokenFactoryError};
use zbx_chain::table::Table;

fn addr(n: u8) -> Address {
    Address([n; 20])
}

// ── allowances ──────────────────────────────────────────────────────────────

#[test]
fn approve_and_read_allowance() {
    let mut reg = AllowanceRegistry::new();
    reg.approve(addr(1), addr(2), addr(3), 1_000, 0).unwrap();
    assert_eq!(reg.allowance(&addr(1), &addr(2), &addr(3), 100), 1_000);
}

#[test]
fn self_approval_rejected() {
    let mut reg = AllowanceRegistry::new();
    assert!(matches!(reg.approve(addr(1), addr(2), addr(2), 100, 0), Err(ApprovalError::SelfApproval)));
}

#[test]
fn zero_address_spender_rejected() {
    let mut reg = AllowanceRegistry::new();
    assert!(matches!(reg.approve(addr(1), addr(2), addr(0), 100, 0), Err(ApprovalError::ZeroAddressSpender)));
}

#[test]
fn expired_approval_returns_zero() {
    let mut reg = AllowanceRegistry::new();
    reg.approve(addr(1), addr(2), addr(3), 500, 100).unwrap();
    assert_eq!(reg.allowance(&addr(1), &addr(2), &addr(3), 90), 500);
    assert_eq!(reg.allowance(&addr(1), &addr(2), &addr(3), 101), 0);
}

#[test]
fn transfer_from_deducts_allowance_and_balance() {
    let mut reg = AllowanceRegistry::new();
    let token = addr(1);
    let owner = addr(2);
    let spender = addr(3);
    let to = addr(4);
    reg.add_balance(token, owner, 2_000);
    reg.approve(token, owner, spender, 1_000, 0).unwrap();
    reg.transfer_from(token, owner, to, spender, 500, 1).unwrap();
    assert_eq!(reg.balance_of(&token, &owner), 1_500);
    assert_eq!(reg.balance_of(&token, &to), 500);
    assert_eq!(reg.allowance(&token, &owner, &spender, 1), 500);
}

#[test]
fn transfer_from_fails_on_insufficient_allowance() {
    let mut reg = AllowanceRegistry::new();
    let token = addr(1);
    let owner = addr(2);
    let spender = addr(3);
    let to = addr(4);
    reg.add_balance(token, owner, 2_000);
    reg.approve(token, owner, spender, 100, 0).unwrap();
    let r = reg.transfer_from(token, owner, to, spender, 500, 1);
    assert!(matches!(r, Err(ApprovalError::InsufficientAllowance { .. })));
}

#[test]
fn infinite_approval_not_deducted() {
    let mut reg = AllowanceRegistry::new();
    let token = addr(1);
    let owner = addr(2);
    let spender = addr(3);
    let to = addr(4);
    reg.add_balance(token, owner, 10_000);
    reg.approve(token, owner, spender, u128::MAX, 0).unwrap();
    reg.transfer_from(token, owner, to, spender, 5_000, 1).unwrap();
    assert_eq!(reg.allowance(&token, &owner, &spender, 1), u128::MAX);
}

#[test]
fn increase_and_decrease_allowance() {
    let mut reg = AllowanceRegistry::new();
    reg.approve(addr(1), addr(2), addr(3), 1_000, 0).unwrap();
    reg.increase_allowance(addr(1), addr(2), addr(3), 500, 1).unwrap();
    assert_eq!(reg.allowance(&addr(1), &addr(2), &addr(3), 1), 1_500);
    reg.decrease_allowance(addr(1), addr(2), addr(3), 300).unwrap();
    assert_eq!(reg.allowance(&addr(1), &addr(2), &addr(3), 1), 1_200);
}

#[test]
fn approval_transfer_to_zero_address_rejected() {
    let mut reg = AllowanceRegistry::new();
    let token = addr(1);
    let owner = addr(2);
    reg.add_balance(token, owner, 1_000);
    let err = reg.transfer(token, owner, addr(0), 100);
    assert!(matches!(err, Err(ApprovalError::ZeroAddressRecipient)));
    assert_eq!(reg.balance_of(&token, &owner), 1_000);
}

#[test]
fn transfer_from_to_zero_address_rejected() {
    let mut reg = AllowanceRegistry::new();
    let token = addr(1);
    let owner = addr(2);
    let spender = addr(3);
    reg.add_balance(token, owner, 1_000);
    reg.approve(token, owner, spender, 500, 0).unwrap();
    let err = reg.transfer_from(token, owner, addr(0), spender, 100, 1);
    assert!(matches!(err, Err(ApprovalError::ZeroAddressRecipient)));
    assert_eq!(reg.allowance(&token, &owner, &spender, 1), 500);
    assert_eq!(reg.balance_of(&token, &owner), 1_000);
}

#[test]
fn transfer_from_insufficient_balance_changes_nothing() {
    let mut reg = AllowanceRegistry::new();
    let token = addr(1);
    let owner = addr(2);
    let spender = addr(3);
    reg.add_balance(token, owner, 50);
    reg.approve(token, owner, spender, 500, 0).unwrap();
    let r = reg.transfer_from(token, owner, addr(4), spender, 100, 1);
    assert!(matches!(r, Err(ApprovalError::InsufficientBalance { have: 50, need: 100 })));
    assert_eq!(reg.allowance(&token, &owner, &spender, 1), 500);
    assert_eq!(reg.balance_of(&token, &owner), 50);
}

// ── LP tokens ───────────────────────────────────────────────────────────────

fn lp_pair() -> PairId {
    PairId::new(addr(1), addr(2))
}

#[test]
fn mint_and_balance() {
    let mut reg = LpRegistry::new();
    reg.mint(&lp_pair(), addr(10), 1_000);
    assert_eq!(reg.balance(&lp_pair(), &addr(10)), 1_000);
    assert_eq!(reg.total_supply(&lp_pair()), 1_000);
}

#[test]
fn burn_reduces_balance() {
    let mut reg = LpRegistry::new();
    reg.mint(&lp_pair(), addr(10), 1_000);
    reg.burn(&lp_pair(), addr(10), 400).unwrap();
    assert_eq!(reg.balance(&lp_pair(), &addr(10)), 600);
    assert_eq!(reg.total_supply(&lp_pair()), 600);
}

#[test]
fn burn_insufficient_returns_typed_error() {
    let mut reg = LpRegistry::new();
    reg.mint(&lp_pair(), addr(10), 100);
    let err = reg.burn(&lp_pair(), addr(10), 200);
    assert!(matches!(err, Err(LpError::InsufficientBalance { have: 100, need: 200 })));
}

#[test]
fn transfer_moves_tokens() {
    let mut reg = LpRegistry::new();
    reg.mint(&lp_pair(), addr(10), 1_000);
    reg.transfer(&lp_pair(), addr(10), addr(20), 300).unwrap();
    assert_eq!(reg.balance(&lp_pair(), &addr(10)), 700);
    assert_eq!(reg.balance(&lp_pair(), &addr(20)), 300);
    assert_eq!(reg.total_supply(&lp_pair()), 1_000);
}

#[test]
fn lp_token_transfer_to_zero_address_rejected() {
    let mut reg = LpRegistry::new();
    reg.mint(&lp_pair(), addr(10), 1_000);
    let err = reg.transfer(&lp_pair(), addr(10), addr(0), 100);
    assert!(matches!(err, Err(LpError::ZeroAddressTransfer)));
    assert_eq!(reg.balance(&lp_pair(), &addr(10)), 1_000);
}

#[test]
fn mint_zero_is_noop() {
    let mut reg = LpRegistry::new();
    reg.mint(&lp_pair(), addr(10), 0);
    assert_eq!(reg.total_supply(&lp_pair()), 0);
}

// ── canonical pairs ─────────────────────────────────────────────────────────

#[test]
fn one_canonical_pool_defined() {
    let pools = canonical_pools();
    assert_eq!(pools.len(), 1);
    assert_eq!(pools[0].name, "ZBX/ZUSD");
}

#[test]
fn zbx_zusd_has_standard_fee() {
    let pools = canonical_pools();
    assert_eq!(pools[0].fee_tier, FeeTier::Standard);
}

#[test]
fn pair_id_has_canonical_ordering() {
    let pools = canonical_pools();
    let pool = &pools[0];
    let a = pool.pair_id.token_a.as_bytes();
    let b = pool.pair_id.token_b.as_bytes();
    assert!(a < b, "Pool {} pair_id not in canonical order", pool.name);
}

#[test]
fn token_addresses_are_distinct() {
    assert_ne!(WZBX_ADDR, ZUSD_ADDR);
}

// ── pool factory ────────────────────────────────────────────────────────────

#[test]
fn create_pool_success() {
    let mut f = PoolFactory::new();
    let fee = f.fee_registry.pool_creation_fee();
    let (pool_addr, collected) = f.create_pool(addr(1), addr(2), FeeTier::Standard, addr(99), fee + 100, 1).unwrap();
    assert_ne!(pool_addr, addr(0));
    assert_eq!(collected, fee);
    assert_eq!(f.pool_count(), 1);
    assert_eq!(f.treasury_balance, fee);
}

#[test]
fn duplicate_pool_rejected_with_correct_error() {
    let mut f = PoolFactory::new();
    let fee = f.fee_registry.pool_creation_fee();
    f.create_pool(addr(1), addr(2), FeeTier::Standard, addr(99), fee * 10, 1).unwrap();
    let r = f.create_pool(addr(1), addr(2), FeeTier::Standard, addr(99), fee * 10, 2);
    assert!(matches!(r, Err(AmmError::PoolAlreadyExists)), "duplicate pool must return PoolAlreadyExists, got {:?}", r);
}

#[test]
fn identical_tokens_rejected_with_correct_error() {
    let mut f = PoolFactory::new();
    let r = f.create_pool(addr(1), addr(1), FeeTier::Standard, addr(99), 10_000, 1);
    assert!(matches!(r, Err(AmmError::IdenticalTokens)), "identical tokens must return IdenticalTokens, got {:?}", r);
}

#[test]
fn insufficient_fee_rejected_with_correct_error() {
    let mut f = PoolFactory::new();
    let fee = f.fee_registry.pool_creation_fee();
    let r = f.create_pool(addr(1), addr(2), FeeTier::Standard, addr(99), fee - 1, 1);
    assert!(matches!(r, Err(AmmError::InsufficientCreationFee { have: _, need: _ })));
    if let Err(AmmError::InsufficientCreationFee { have, need }) = r {
        assert_eq!(need, fee);
        assert_eq!(have, fee - 1);
    }
}

#[test]
fn pool_address_is_deterministic() {
    let pair_id = PairId::new(addr(10), addr(20));
    let a1 = derive_pool_address(&pair_id, FeeTier::Standard);
    let a2 = derive_pool_address(&pair_id, FeeTier::Standard);
    assert_eq!(a1, a2);
}

#[test]
fn different_fee_tiers_give_different_addresses() {
    let pair_id = PairId::new(addr(10), addr(20));
    let a1 = derive_pool_address(&pair_id, FeeTier::Lowest);
    let a2 = derive_pool_address(&pair_id, FeeTier::Standard);
    assert_ne!(a1, a2);
}

#[test]
fn pool_address_depends_on_the_pair() {
    let a1 = derive_pool_address(&PairId::new(addr(10), addr(20)), FeeTier::Standard);
    let a2 = derive_pool_address(&PairId::new(addr(10), addr(21)), FeeTier::Standard);
    assert_ne!(a1, a2);
    assert_ne!(a1, addr(10));
}

#[test]
fn record_volume_saturates_and_ignores_unknown_pairs() {
    let mut f = PoolFactory::new();
    let fee = f.fee_registry.pool_creation_fee();
    f.create_pool(addr(1), addr(2), FeeTier::Standard, addr(99), fee, 1).unwrap();
    let pid = PairId::new(addr(1), addr(2));
    f.record_volume(&pid, 700);
    f.record_volume(&pid, u128::MAX);
    assert_eq!(f.get_record(&pid).unwrap().total_volume, u128::MAX);
    f.record_volume(&PairId::new(addr(3), addr(4)), 5);
    assert!(f.get_record(&PairId::new(addr(3), addr(4))).is_none());
}

// ── router ──────────────────────────────────────────────────────────────────

fn make_pair(a: Address, b: Address, reserve: u128, fee: FeeTier) -> Pair {
    let mut p = Pair::new(PairId::new(a, b), fee);
    p.reserve_a = reserve;
    p.reserve_b = reserve;
    p.total_lp = integer_sqrt(reserve * reserve).saturating_sub(MIN_LIQUIDITY);
    p
}

fn canonical_pairs_map() -> Table<PairId, Pair> {
    let mut m = Table::new();
    let zbx_zusd = make_pair(wzbx(), zusd(), 1_000_000, FeeTier::Standard);
    m.set(zbx_zusd.id, zbx_zusd);
    m
}

fn two_hop_map(erc20: Address) -> Table<PairId, Pair> {
    let mut pairs = Table::new();
    let erc20_zbx = make_pair(erc20, wzbx(), 1_000_000, FeeTier::Standard);
    let zbx_zusd = make_pair(wzbx(), zusd(), 1_000_000, FeeTier::Standard);
    pairs.set(erc20_zbx.id, erc20_zbx);
    pairs.set(zbx_zusd.id, zbx_zusd);
    pairs
}

#[test]
fn direct_zbx_to_zusd() {
    let pairs = canonical_pairs_map();
    let r = find_best_route(wzbx(), zusd(), 1_000, &pairs).unwrap();
    assert_eq!(r.hops(), 1);
    let out = r.simulate(&pairs);
    assert!(out > 0 && out < 1_000);
}

#[test]
fn two_hop_route_found_when_no_direct() {
    let erc20 = Address([0xAAu8; 20]);
    let pairs = two_hop_map(erc20);
    let r = find_best_route(erc20, zusd(), 1_000, &pairs).unwrap();
    assert_eq!(r.hops(), 2);
    assert!(r.simulate(&pairs) > 0);
}

#[test]
fn best_route_picks_highest_output() {
    let pairs = canonical_pairs_map();
    let direct = find_direct_route(wzbx(), zusd(), 1_000, &pairs).unwrap();
    let best = find_best_route(wzbx(), zusd(), 1_000, &pairs).unwrap();
    assert!(best.simulate(&pairs) >= direct.simulate(&pairs));
}

#[test]
fn no_route_returns_none() {
    let pairs = canonical_pairs_map();
    let unknown = Address([0xFFu8; 20]);
    let r = find_best_route(unknown, wzbx(), 1_000, &pairs);
    assert!(r.is_none());
}

#[test]
fn execute_route_direct_returns_amount_and_fee() {
    let mut pairs = canonical_pairs_map();
    let route = find_best_route(wzbx(), zusd(), 1_000, &pairs).unwrap();
    let (out, protocol_fee) = execute_route(&route, &mut pairs, 0, 9999, 1).unwrap();
    assert!(out > 0 && out < 1_000);
    let _ = protocol_fee;
}

#[test]
fn execute_route_respects_slippage() {
    let mut pairs = canonical_pairs_map();
    let route = find_best_route(wzbx(), zusd(), 1_000, &pairs).unwrap();
    let err = execute_route(&route, &mut pairs, 10_000, 9999, 1);
    assert!(matches!(err, Err(AmmError::SlippageExceeded { .. })));
}

#[test]
fn execute_route_two_hop_accumulates_fee() {
    let erc20 = Address([0xAAu8; 20]);
    let mut pairs = two_hop_map(erc20);
    let route = find_best_route(erc20, zusd(), 1_000, &pairs).unwrap();
    assert_eq!(route.hops(), 2);
    let (out, protocol_fee) = execute_route(&route, &mut pairs, 0, 9999, 1).unwrap();
    assert!(out > 0);
    let _ = protocol_fee;
}

#[test]
fn executed_route_pays_the_simulated_amount() {
    let erc20 = Address([0xAAu8; 20]);
    let mut pairs = two_hop_map(erc20);
    let route = find_best_route(erc20, zusd(), 50_000, &pairs).unwrap();
    let quoted = route.simulate(&pairs);
    let (out, _) = execute_route(&route, &mut pairs, 0, 9999, 1).unwrap();
    assert_eq!(out, quoted);
    // 50000 in at 0.30%: 50000·9970·1e6 / (1e6·10000 + 50000·9970) = 47482;
    // then 47482·9970·1e6 / (1e6·10000 + 47482·9970) = 45199.
    assert_eq!(out, 45_199);
}

#[test]
fn same_token_or_zero_amount_has_no_route() {
    let pairs = canonical_pairs_map();
    assert!(find_best_route(wzbx(), wzbx(), 1_000, &pairs).is_none());
    assert!(find_best_route(wzbx(), zusd(), 0, &pairs).is_none());
}

// ── token factory ───────────────────────────────────────────────────────────

fn default_params(creator: Address, zbx: u128) -> CreateTokenParams {
    let fee = FeeRegistry::default().token_creation_fee();
    CreateTokenParams {
        name: "Test Token".into(),
        symbol: "TEST".into(),
        decimals: 18,
        total_supply: 1_000_000 * 10u128.pow(18),
        max_supply: 0,
        mintable: true,
        creator,
        creator_zbx_balance: zbx.max(fee),
        block_number: 1,
        logo_uri: Some("ipfs://test".into()),
    }
}

const T0: u64 = 1_000_000;

#[test]
fn create_token_success() {
    let mut f = TokenFactory::new();
    let fee = f.fee_registry().token_creation_fee();
    let p = default_params(addr(1), fee);
    let tok = f.create_token(p).unwrap();
    assert_ne!(tok, addr(0));
    assert_eq!(f.token_count(), 1);
    assert_eq!(f.treasury_balance(), fee);
}

#[test]
fn symbol_uniqueness_enforced() {
    let mut f = TokenFactory::new();
    let fee = f.fee_registry().token_creation_fee();
    f.create_token(default_params(addr(1), fee)).unwrap();
    let r = f.create_token(default_params(addr(2), fee));
    assert!(matches!(r, Err(TokenFactoryError::SymbolAlreadyExists)));
}

#[test]
fn insufficient_fee_rejected() {
    let mut f = TokenFactory::new();
    let mut p = default_params(addr(1), 0);
    p.creator_zbx_balance = 0;
    let r = f.create_token(p);
    assert!(matches!(r, Err(TokenFactoryError::InsufficientFee { .. })));
}

#[test]
fn mint_increases_supply() {
    let mut f = TokenFactory::new();
    let fee = f.fee_registry().token_creation_fee();
    let mint_fee = f.fee_registry().token_mint_fee();
    let tok = f.create_token(default_params(addr(1), fee)).unwrap();
    let supply_before = f.get_token(&tok).unwrap().total_supply;
    f.mint(tok, addr(1), 1_000, mint_fee + 100, 2).unwrap();
    assert_eq!(f.get_token(&tok).unwrap().total_supply, supply_before + 1_000);
}

#[test]
fn pause_blocks_unmock_check() {
    let mut f = TokenFactory::new();
    let fee = f.fee_registry().token_creation_fee();
    let pause_fee = f.fee_registry().token_pause_fee();
    let tok = f.create_token(default_params(addr(1), fee)).unwrap();
    f.pause_token(tok, addr(1), pause_fee + 100).unwrap();
    assert!(f.get_token(&tok).unwrap().paused);
    f.unpause_token(tok, addr(1)).unwrap();
    assert!(!f.get_token(&tok).unwrap().paused);
}

#[test]
fn deterministic_address_per_creator() {
    let a1 = derive_token_address(Address([1u8; 20]), 0);
    let a2 = derive_token_address(Address([1u8; 20]), 0);
    assert_eq!(a1, a2);
    let a3 = derive_token_address(Address([1u8; 20]), 1);
    assert_ne!(a1, a3);
}

#[test]
fn pause_minting_blocks_mint() {
    let mut f = TokenFactory::new();
    let fee = f.fee_registry().token_creation_fee();
    let mint_fee = f.fee_registry().token_mint_fee();
    let tok = f.create_token(default_params(addr(1), fee)).unwrap();
    f.pause_minting(tok, addr(1)).unwrap();
    let r = f.mint(tok, addr(1), 100, mint_fee, 2);
    assert!(matches!(r, Err(TokenFactoryError::MintingPaused)));
}

#[test]
fn resume_minting_restores_mint() {
    let mut f = TokenFactory::new();
    let fee = f.fee_registry().token_creation_fee();
    let mint_fee = f.fee_registry().token_mint_fee();
    let tok = f.create_token(default_params(addr(1), fee)).unwrap();
    f.pause_minting(tok, addr(1)).unwrap();
    f.resume_minting(tok, addr(1)).unwrap();
    f.mint(tok, addr(1), 100, mint_fee, 2).unwrap();
    assert_eq!(f.get_token(&tok).unwrap().total_supply, 1_000_000 * 10u128.pow(18) + 100);
}

#[test]
fn finalize_minting_permanent() {
    let mut f = TokenFactory::new();
    let fee = f.fee_registry().token_creation_fee();
    let mint_fee = f.fee_registry().token_mint_fee();
    let tok = f.create_token(default_params(addr(1), fee)).unwrap();
    f.finalize_minting(tok, addr(1)).unwrap();
    assert!(matches!(f.mint(tok, addr(1), 100, mint_fee, 2), Err(TokenFactoryError::MintingFinalized)));
    assert!(matches!(f.pause_minting(tok, addr(1)), Err(TokenFactoryError::MintingFinalized)));
    assert!(matches!(f.resume_minting(tok, addr(1)), Err(TokenFactoryError::MintingFinalized)));
    assert!(matches!(f.finalize_minting(tok, addr(1)), Err(TokenFactoryError::MintingAlreadyFinalized)));
}

#[test]
fn freeze_account_blocks_is_frozen_view() {
    let mut f = TokenFactory::new();
    let fee = f.fee_registry().token_creation_fee();
    let tok = f.create_token(default_params(addr(1), fee)).unwrap();
    assert!(!f.is_frozen(tok, addr(2)));
    f.freeze_account(tok, addr(1), addr(2)).unwrap();
    assert!(f.is_frozen(tok, addr(2)));
}

#[test]
fn freeze_already_frozen_reverts() {
    let mut f = TokenFactory::new();
    let fee = f.fee_registry().token_creation_fee();
    let tok = f.create_token(default_params(addr(1), fee)).unwrap();
    f.freeze_account(tok, addr(1), addr(2)).unwrap();
    let r = f.freeze_account(tok, addr(1), addr(2));
    assert!(matches!(r, Err(TokenFactoryError::AccountAlreadyFrozen)));
}

#[test]
fn unfreeze_account_clears_frozen() {
    let mut f = TokenFactory::new();
    let fee = f.fee_registry().token_creation_fee();
    let tok = f.create_token(default_params(addr(1), fee)).unwrap();
    f.freeze_account(tok, addr(1), addr(2)).unwrap();
    f.unfreeze_account(tok, addr(1), addr(2)).unwrap();
    assert!(!f.is_frozen(tok, addr(2)));
}

#[test]
fn frozen_balance_view() {
    let mut f = TokenFactory::new();
    let fee = f.fee_registry().token_creation_fee();
    let tok = f.create_token(default_params(addr(1), fee)).unwrap();
    assert_eq!(f.frozen_balance(tok, addr(2), 500), 0);
    f.freeze_account(tok, addr(1), addr(2)).unwrap();
    assert_eq!(f.frozen_balance(tok, addr(2), 500), 500);
}

#[test]
fn lock_tokens_success() {
    let mut f = TokenFactory::new();
    let fee = f.fee_registry().token_creation_fee();
    let tok = f.create_token(default_params(addr(1), fee)).unwrap();
    f.lock_tokens(tok, addr(1), addr(2), 300, T0 + 3600, T0, 1_000).unwrap();
    assert_eq!(f.locked_balance_of(tok, addr(2), T0), 300);
}

#[test]
fn locked_balance_auto_expires() {
    let mut f = TokenFactory::new();
    let fee = f.fee_registry().token_creation_fee();
    let tok = f.create_token(default_params(addr(1), fee)).unwrap();
    f.lock_tokens(tok, addr(1), addr(2), 300, T0 + 100, T0, 1_000).unwrap();
    assert_eq!(f.locked_balance_of(tok, addr(2), T0 + 100), 0);
    assert_eq!(f.locked_balance_of(tok, addr(2), T0 + 200), 0);
}

#[test]
fn transferable_balance_respects_lock() {
    let mut f = TokenFactory::new();
    let fee = f.fee_registry().token_creation_fee();
    let tok = f.create_token(default_params(addr(1), fee)).unwrap();
    f.lock_tokens(tok, addr(1), addr(2), 700, T0 + 3600, T0, 1_000).unwrap();
    assert_eq!(f.transferable_balance(tok, addr(2), T0, 1_000), 300);
}

#[test]
fn extend_lock_works() {
    let mut f = TokenFactory::new();
    let fee = f.fee_registry().token_creation_fee();
    let tok = f.create_token(default_params(addr(1), fee)).unwrap();
    f.lock_tokens(tok, addr(1), addr(2), 300, T0 + 1000, T0, 2_000).unwrap();
    f.extend_lock(tok, addr(1), addr(2), 600, T0 + 2000, T0, 2_000).unwrap();
    assert_eq!(f.lock_info(tok, addr(2)), (600, T0 + 2000));
}

#[test]
fn active_lock_blocks_new_lock() {
    let mut f = TokenFactory::new();
    let fee = f.fee_registry().token_creation_fee();
    let tok = f.create_token(default_params(addr(1), fee)).unwrap();
    f.lock_tokens(tok, addr(1), addr(2), 300, T0 + 3600, T0, 1_000).unwrap();
    let r = f.lock_tokens(tok, addr(1), addr(2), 100, T0 + 7200, T0, 1_000);
    assert!(matches!(r, Err(TokenFactoryError::ActiveLockExists)));
}

#[test]
fn replace_lock_after_expiry() {
    let mut f = TokenFactory::new();
    let fee = f.fee_registry().token_creation_fee();
    let tok = f.create_token(default_params(addr(1), fee)).unwrap();
    f.lock_tokens(tok, addr(1), addr(2), 300, T0 + 100, T0, 1_000).unwrap();
    f.lock_tokens(tok, addr(1), addr(2), 100, T0 + 200 + 50, T0 + 200, 1_000).unwrap();
    assert_eq!(f.lock_info(tok, addr(2)), (100, T0 + 250));
}

#[test]
fn update_logo_uri() {
    let mut f = TokenFactory::new();
    let fee = f.fee_registry().token_creation_fee();
    let tok = f.create_token(default_params(addr(1), fee)).unwrap();
    let old = f.update_logo_uri(tok, addr(1), "ipfs://new".into()).unwrap();
    assert_eq!(old, Some("ipfs://test".into()));
    assert_eq!(f.get_token(&tok).unwrap().logo_uri, Some("ipfs://new".into()));
}

#[test]
fn logo_uri_stored_at_creation() {
    let mut f = TokenFactory::new();
    let fee = f.fee_registry().token_creation_fee();
    let tok = f.create_token(default_params(addr(1), fee)).unwrap();
    assert_eq!(f.get_token(&tok).unwrap().logo_uri, Some("ipfs://test".into()));
}

#[test]
fn token_creation_validates_name_and_symbol() {
    let mut f = TokenFactory::new();
    let mut p = default_params(addr(1), 0);
    p.name = "".into();
    assert!(matches!(f.create_token(p), Err(TokenFactoryError::InvalidName)));
    let mut p = default_params(addr(1), 0);
    p.symbol = "ABCDEFGHIJKLM".into();
    assert!(matches!(f.create_token(p), Err(TokenFactoryError::InvalidSymbol)));
    let mut p = default_params(addr(1), 0);
    p.decimals = 19;
    assert!(matches!(f.create_token(p), Err(TokenFactoryError::InvalidDecimals)));
    assert_eq!(f.token_count(), 0);
    assert_eq!(f.creator_nonce(&addr(1)), 0);
}

// ── DEX engine ──────────────────────────────────────────────────────────────

fn zbx() -> Address {
    addr(1)
}

fn zusd_tok() -> Address {
    addr(2)
}

fn bootstrap(dex: &mut DexEngine, reserve: u128) {
    let pool_fee = dex.pool_factory.fee_registry().pool_creation_fee();
    dex.create_pool(zbx(), zusd_tok(), FeeTier::Standard, addr(99), pool_fee * 2, 1).unwrap();
    let pair_id = PairId::new(zbx(), zusd_tok());
    let mut pair = dex.pool_factory.pairs.take(&pair_id).unwrap();
    pair.reserve_a = reserve;
    pair.reserve_b = reserve;
    pair.total_lp = integer_sqrt(reserve * reserve).saturating_sub(MIN_LIQUIDITY);
    dex.pool_factory.pairs.set(pair_id, pair);
    dex.allowances.add_balance(zbx(), addr(10), 100_000);
    dex.allowances.add_balance(zusd_tok(), addr(10), 100_000);
}

#[test]
fn buy_zbx_for_zusd() {
    let mut dex = DexEngine::new();
    bootstrap(&mut dex, 1_000_000);
    let before = dex.balance_of(&zusd_tok(), &addr(10));
    let event = dex.buy(addr(10), zbx(), zusd_tok(), 1_000, 0, 9999, 1, 1).unwrap();
    assert!(event.amount_out > 0);
    assert_eq!(dex.balance_of(&zbx(), &addr(10)), 100_000 - 1_000);
    assert_eq!(dex.balance_of(&zusd_tok(), &addr(10)), before + event.amount_out);
}

#[test]
fn sell_is_alias_for_buy() {
    let mut dex = DexEngine::new();
    bootstrap(&mut dex, 1_000_000);
    let event = dex.sell(addr(10), zbx(), zusd_tok(), 500, 0, 9999, 1, 1).unwrap();
    assert!(event.amount_out > 0);
}

#[test]
fn insufficient_balance_rejected() {
    let mut dex = DexEngine::new();
    bootstrap(&mut dex, 1_000_000);
    let r = dex.buy(addr(10), zbx(), zusd_tok(), 200_000, 0, 9999, 1, 1);
    assert!(matches!(r, Err(DexError::InsufficientInputBalance { .. })));
}

#[test]
fn no_route_returns_error() {
    let mut dex = DexEngine::new();
    let r = dex.buy(addr(10), addr(50), addr(51), 100, 0, 9999, 1, 1);
    assert!(matches!(r, Err(DexError::NoRoute)));
}

#[test]
fn create_token_credits_supply_to_creator() {
    let mut dex = DexEngine::new();
    let tok_fee = FeeRegistry::default().token_creation_fee();
    let tok = dex
        .create_token(CreateTokenParams {
            name: "MyToken".into(),
            symbol: "MTK".into(),
            decimals: 18,
            total_supply: 5_000_000,
            max_supply: 0,
            mintable: false,
            creator: addr(5),
            creator_zbx_balance: tok_fee * 2,
            block_number: 1,
            logo_uri: None,
        })
        .unwrap();
    assert_eq!(dex.balance_of(&tok, &addr(5)), 5_000_000);
}

#[test]
fn approve_and_transfer_from() {
    let mut dex = DexEngine::new();
    let tok = addr(10);
    let owner = addr(1);
    let spender = addr(2);
    let to = addr(3);
    dex.allowances.add_balance(tok, owner, 1_000);
    dex.approve(tok, owner, spender, 500, 0).unwrap();
    dex.transfer_from(tok, owner, to, spender, 300, 1).unwrap();
    assert_eq!(dex.balance_of(&tok, &to), 300);
    assert_eq!(dex.balance_of(&tok, &owner), 700);
}

#[test]
fn quote_returns_estimate_without_mutating() {
    let mut dex = DexEngine::new();
    bootstrap(&mut dex, 1_000_000);
    let q = dex.quote(zbx(), zusd_tok(), 1_000).unwrap();
    assert!(q.amount_out > 0);
    assert_eq!(q.hops, 1);
    assert_eq!(dex.pool_factory.pairs.get(&PairId::new(zbx(), zusd_tok())).unwrap().reserve_a, 1_000_000);
}

#[test]
fn fee_estimate_all_ops() {
    let dex = DexEngine::new();
    let est = dex.estimate_fee(DexOperation::SwapDirect, 15, 0);
    assert!(est.gas_cost_wei > 0);
    assert_eq!(est.platform_fee, 0);
}

#[test]
fn add_and_remove_liquidity_round_trip() {
    let mut dex = DexEngine::new();
    let pool_fee = dex.pool_factory.fee_registry().pool_creation_fee();
    dex.create_pool(zbx(), zusd_tok(), FeeTier::Standard, addr(99), pool_fee * 2, 1).unwrap();
    let provider = addr(10);
    dex.allowances.add_balance(zbx(), provider, 2_000_000);
    dex.allowances.add_balance(zusd_tok(), provider, 2_000_000);
    let (result, _evt) = dex.add_liquidity(provider, zbx(), zusd_tok(), 1_000_000, 1_000_000, 0, 9999, 1, 1).unwrap();
    assert!(result.lp_minted > 0);
    let lp = dex.lp_balance(zbx(), zusd_tok(), &provider);
    assert_eq!(lp, result.lp_minted);
    let half = lp / 2;
    let removed = dex.remove_liquidity(provider, zbx(), zusd_tok(), half, 0, 0, 9999, 1).unwrap();
    assert!(removed.amount_a > 0);
    assert!(removed.amount_b > 0);
}

#[test]
fn buy_pays_exactly_the_quote_and_logs_it() {
    let mut dex = DexEngine::new();
    bootstrap(&mut dex, 1_000_000);
    let q = dex.quote(zbx(), zusd_tok(), 1_000).unwrap();
    // 1000·9970·1e6 / (1e6·10000 + 1000·9970) = 996.
    assert_eq!(q.amount_out, 996);
    // 1e6 / 1001000 of the reserve stays: 9990 bps, so 10 bps of impact.
    assert_eq!(q.price_impact_bps, 10);
    let ev = dex.buy(addr(10), zbx(), zusd_tok(), 1_000, 0, 9999, 1, 7).unwrap();
    assert_eq!(ev.amount_out, q.amount_out);
    assert_eq!(ev.hops, 1);
    assert_eq!(ev.block_number, 7);
    assert_eq!(dex.swap_events.len(), 1);
    assert_eq!(dex.protocol_fees_collected(&zbx()), ev.protocol_fee_collected);
    let pid = PairId::new(zbx(), zusd_tok());
    assert_eq!(dex.pool_factory.get_record(&pid).unwrap().total_volume, 1_000);
}

#[test]
fn failed_buy_leaves_balances_alone() {
    let mut dex = DexEngine::new();
    bootstrap(&mut dex, 1_000_000);
    let r = dex.buy(addr(10), zbx(), zusd_tok(), 1_000, 10_000, 9999, 1, 1);
    assert!(matches!(r, Err(DexError::Amm(AmmError::SlippageExceeded { .. }))));
    assert_eq!(dex.balance_of(&zbx(), &addr(10)), 100_000);
    assert_eq!(dex.swap_events.len(), 0);
}

#[test]
fn liquidity_errors() {
    let mut dex = DexEngine::new();
    let provider = addr(10);
    dex.allowances.add_balance(zbx(), provider, 10);
    let r = dex.add_liquidity(provider, zbx(), zusd_tok(), 100, 0, 0, 9999, 1, 1);
    assert!(matches!(r, Err(DexError::InsufficientInputBalance { have: 10, need: 100 })));
    let r = dex.add_liquidity(provider, zbx(), zusd_tok(), 10, 0, 0, 9999, 1, 1);
    assert!(matches!(r, Err(DexError::Amm(AmmError::PairNotFound))));
    let r = dex.remove_liquidity(provider, zbx(), zusd_tok(), 1, 0, 0, 9999, 1);
    assert!(matches!(r, Err(DexError::Amm(AmmError::InsufficientLpBalance))));
}

#[test]
fn dex_pool_creation_is_logged_and_counted() {
    let mut dex = DexEngine::new();
    let fee = dex.pool_factory.fee_registry().pool_creation_fee();
    let a = dex.create_pool(zbx(), zusd_tok(), FeeTier::Standard, addr(99), fee, 3).unwrap();
    assert_eq!(dex.pool_count(), 1);
    assert_eq!(dex.pool_events.len(), 1);
    assert_eq!(dex.pool_events[0].pool_address, a);
    let r = dex.create_pool(zusd_tok(), zbx(), FeeTier::Standard, addr(99), fee, 4);
    assert!(matches!(r, Err(DexError::Amm(AmmError::PoolAlreadyExists))));
    assert_eq!(dex.pool_events.len(), 1);
}
