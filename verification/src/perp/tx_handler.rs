//! The call decoder of the perpetuals contract: ABI calldata (a four-byte
//! selector and 32-byte big-endian words) to a typed call, and the gas
//! charged per call.

use vstd::prelude::*;
use crate::common::Address;
use crate::crypto::{keccak256, keccak256_spec};
use crate::perp::error::PerpError;
use crate::perp::engine::{OracleProvider, PerpEngine};
use crate::perp::types::{CloseResult, LiquidationResult, OpenPositionResult};
use vstd::utf8::encode_utf8;

verus! {

/// Address of the perpetuals contract (`...ZBPERP`).
pub const PERP_CONTRACT_ADDR: [u8; 20] = [
    0x00, 0x00, 0x00, 0x00, 0x00, 0x00, 0x00, 0x00, 0x00, 0x00,
    0x00, 0x00, 0x00, 0x00, 0x5a, 0x42, 0x50, 0x45, 0x52, 0x50,
];

pub const GAS_OPEN_POSITION: u64 = 160_000;
pub const GAS_CLOSE_POSITION: u64 = 100_000;
pub const GAS_PARTIAL_CLOSE: u64 = 120_000;
pub const GAS_ADD_COLLATERAL: u64 = 40_000;
pub const GAS_SET_STOP_LOSS: u64 = 30_000;
pub const GAS_SET_TAKE_PROFIT: u64 = 30_000;
pub const GAS_SET_TRAILING_STOP: u64 = 40_000;
pub const GAS_UPDATE_TRAILING_STOP: u64 = 50_000;
pub const GAS_TRIGGER_ORDER: u64 = 120_000;
pub const GAS_TRIGGER_SL: u64 = 120_000;
pub const GAS_TRIGGER_TP: u64 = 120_000;
pub const GAS_LIQUIDATE: u64 = 100_000;
pub const GAS_LIQUIDATE_CROSS: u64 = 200_000;
pub const GAS_DEPOSIT_CROSS: u64 = 50_000;
pub const GAS_WITHDRAW_CROSS: u64 = 60_000;
pub const GAS_UPDATE_FUNDING: u64 = 40_000;

/// `openPosition(uint256,bool,uint256,uint256,bool,uint256,uint256)`.
pub const SEL_OPEN_POSITION: [u8; 4] = [0xe8, 0xbf, 0x78, 0x0d];
/// `closePosition(uint256)`.
pub const SEL_CLOSE_POSITION: [u8; 4] = [0xa1, 0x26, 0xd6, 0x01];
/// `partialClose(uint256,uint256)`.
pub const SEL_PARTIAL_CLOSE: [u8; 4] = [0xea, 0xa6, 0x18, 0x5c];
/// `addCollateral(uint256,uint256)`.
pub const SEL_ADD_COLLATERAL: [u8; 4] = [0xa8, 0xf3, 0x5a, 0xdf];
/// `setStopLoss(uint256,uint256)`.
pub const SEL_SET_STOP_LOSS: [u8; 4] = [0x4e, 0x9f, 0x33, 0x9c];
/// `setTakeProfit(uint256,uint256)`.
pub const SEL_SET_TAKE_PROFIT: [u8; 4] = [0x9f, 0x66, 0x01, 0x6a];
/// `setTrailingStop(uint256,uint256)`.
pub const SEL_SET_TRAILING_STOP: [u8; 4] = [0x56, 0x07, 0xfe, 0xa4];
/// `updateTrailingStop(uint256)`.
pub const SEL_UPDATE_TRAILING_STOP: [u8; 4] = [0x34, 0x07, 0xc8, 0xea];
/// `triggerOrder(uint256)`.
pub const SEL_TRIGGER_ORDER: [u8; 4] = [0xeb, 0x93, 0x59, 0xaa];
/// `triggerStopLoss(uint256)`.
pub const SEL_TRIGGER_SL: [u8; 4] = [0xbe, 0xd4, 0x25, 0x83];
/// `triggerTakeProfit(uint256)`.
pub const SEL_TRIGGER_TP: [u8; 4] = [0x34, 0x58, 0x43, 0x89];
/// `liquidate(uint256)`.
pub const SEL_LIQUIDATE: [u8; 4] = [0x41, 0x5f, 0x12, 0x40];
/// `liquidateCross(address)`.
pub const SEL_LIQUIDATE_CROSS: [u8; 4] = [0x47, 0x2b, 0x4e, 0xdb];
/// `depositCross(uint256)`.
pub const SEL_DEPOSIT_CROSS: [u8; 4] = [0x33, 0xd5, 0x45, 0x95];
/// `withdrawCross(uint256)`.
pub const SEL_WITHDRAW_CROSS: [u8; 4] = [0xd4, 0x8f, 0x5b, 0x05];
/// `updateFunding(uint256)`.
pub const SEL_UPDATE_FUNDING: [u8; 4] = [0x6e, 0xa9, 0xf1, 0x39];

/// The ABI selector of a function signature: the first four bytes of the
/// Keccak-256 digest of its text.
pub fn selector(signature: &str) -> (r: [u8; 4])
    ensures
        r@ == keccak256_spec(encode_utf8(signature@)).subrange(0, 4),
{
    let h = keccak256(signature.as_bytes());
    proof {
        assert(h@.len() == 32);
    }
    let r = [h[0], h[1], h[2], h[3]];
    assert(r@ =~= h@.subrange(0, 4));
    r
}

/// A decoded call of the perpetuals contract.
#[derive(Debug, Clone)]
pub enum PerpCall {
    OpenPosition {
        market_id: u64,
        is_long: bool,
        collateral: u128,
        leverage: u64,
        is_cross: bool,
        sl_price: u128,
        tp_price: u128,
    },
    ClosePosition { pos_id: u64 },
    PartialClose { pos_id: u64, close_bps: u64 },
    AddCollateral { pos_id: u64, amount: u128 },
    SetStopLoss { pos_id: u64, sl_price: u128 },
    SetTakeProfit { pos_id: u64, tp_price: u128 },
    SetTrailingStop { pos_id: u64, trail_bps: u64 },
    UpdateTrailingStop { pos_id: u64 },
    TriggerOrder { pos_id: u64 },
    TriggerSL { pos_id: u64 },
    TriggerTP { pos_id: u64 },
    Liquidate { pos_id: u64 },
    LiquidateCross { trader: Address },
    DepositCross { amount: u128 },
    WithdrawCross { amount: u128 },
    UpdateFunding { market_id: u64 },
}

/// The big-endian value of a byte string.
pub open spec fn be_nat(s: Seq<u8>) -> nat
    decreases s.len(),
{
    if s.len() == 0 {
        0
    } else {
        be_nat(s.drop_last()) * 256 + s.last() as nat
    }
}

/// `256^n`.
pub open spec fn pow256(n: nat) -> nat
    decreases n,
{
    if n == 0 { 1 } else { 256 * pow256((n - 1) as nat) }
}

proof fn lemma_be_nat_bound(s: Seq<u8>)
    ensures
        be_nat(s) < pow256(s.len()),
    decreases s.len(),
{
    if s.len() > 0 {
        lemma_be_nat_bound(s.drop_last());
        let a = be_nat(s.drop_last());
        let p = pow256((s.len() - 1) as nat);
        assert(a * 256 + s.last() < 256 * p) by (nonlinear_arith)
            requires a < p, s.last() < 256;
    }
}

/// The low eight bytes of word `slot`, as a number.
pub open spec fn word_u64(args: Seq<u8>, slot: int) -> nat {
    be_nat(args.subrange(slot * 32 + 24, slot * 32 + 32))
}

/// The low sixteen bytes of word `slot`, as a number.
pub open spec fn word_u128(args: Seq<u8>, slot: int) -> nat {
    be_nat(args.subrange(slot * 32 + 16, slot * 32 + 32))
}

/// Whether the last byte of word `slot` is non-zero.
pub open spec fn word_bool(args: Seq<u8>, slot: int) -> bool {
    let len = args.len();
    args[slot * 32 + 31] != 0
}

/// The big-endian value of `n` bytes of `args` from `start`.
fn be_value(args: &[u8], start: usize, n: usize) -> (r: u128)
    requires
        n <= 16,
        start + n <= args@.len(),
    ensures
        r == be_nat(args@.subrange(start as int, start + n)),
{
    let len = args.len();
    let mut acc: u128 = 0;
    let mut i: usize = 0;
    proof {
        lemma_pow256_values();
    }
    while i < n
        invariant
            n <= 16,
            start + n <= args@.len(),
            args@.len() == len,
            0 <= i <= n,
            acc == be_nat(args@.subrange(start as int, start + i)),
            pow256(16) == 0x1_0000_0000_0000_0000_0000_0000_0000_0000,
        decreases n - i,
    {
        let ghost s = args@.subrange(start as int, start + i + 1);
        proof {
            assert(s.drop_last() =~= args@.subrange(start as int, start + i));
            lemma_be_nat_bound(s);
            lemma_pow256_mono((i + 1) as nat, 16);
        }
        acc = acc * 256 + args[start + i] as u128;
        i += 1;
    }
    acc
}

proof fn lemma_pow256_values()
    ensures
        pow256(8) == 0x1_0000_0000_0000_0000,
        pow256(16) == 0x1_0000_0000_0000_0000_0000_0000_0000_0000,
{
    reveal_with_fuel(pow256, 17);
}

proof fn lemma_pow256_mono(a: nat, b: nat)
    requires
        a <= b,
    ensures
        pow256(a) <= pow256(b),
    decreases b,
{
    if a < b {
        lemma_pow256_mono(a, (b - 1) as nat);
    }
}

fn u64_from_be32(args: &[u8], slot: usize) -> (r: u64)
    requires
        (slot + 1) * 32 <= args@.len(),
    ensures
        r == word_u64(args@, slot as int),
{
    let len = args.len();
    let v = be_value(args, slot * 32 + 24, 8);
    proof {
        lemma_be_nat_bound(args@.subrange(slot * 32 + 24, slot * 32 + 32));
        lemma_pow256_values();
    }
    v as u64
}

fn u128_from_be32(args: &[u8], slot: usize) -> (r: u128)
    requires
        (slot + 1) * 32 <= args@.len(),
    ensures
        r == word_u128(args@, slot as int),
{
    let len = args.len();
    be_value(args, slot * 32 + 16, 16)
}

fn bool_from_be32(args: &[u8], slot: usize) -> (r: bool)
    requires
        (slot + 1) * 32 <= args@.len(),
    ensures
        r == word_bool(args@, slot as int),
{
    let len = args.len();
    args[slot * 32 + 31] != 0
}

/// Whether the first four bytes of `data` are `sel`.
pub open spec fn has_selector(data: Seq<u8>, sel: [u8; 4]) -> bool {
    data.len() >= 4 && data.subrange(0, 4) == sel@
}

fn selector_is(data: &[u8], sel: &[u8; 4]) -> (r: bool)
    requires
        data@.len() >= 4,
    ensures
        r == has_selector(data@, *sel),
{
    let r = data[0] == sel[0] && data[1] == sel[1] && data[2] == sel[2] && data[3] == sel[3];
    proof {
        if r {
            assert(data@.subrange(0, 4) =~= sel@);
        } else {
            if data@.subrange(0, 4) == sel@ {
                assert(data@.subrange(0, 4)[0] == data@[0]);
                assert(data@.subrange(0, 4)[1] == data@[1]);
                assert(data@.subrange(0, 4)[2] == data@[2]);
                assert(data@.subrange(0, 4)[3] == data@[3]);
            }
        }
    }
    r
}

/// The number of argument words the call with this selector takes, if
/// the selector is known.
pub open spec fn arity(data: Seq<u8>) -> Option<int> {
    if has_selector(data, SEL_OPEN_POSITION) { Some(7) }
    else if has_selector(data, SEL_CLOSE_POSITION) { Some(1) }
    else if has_selector(data, SEL_PARTIAL_CLOSE) { Some(2) }
    else if has_selector(data, SEL_ADD_COLLATERAL) { Some(2) }
    else if has_selector(data, SEL_SET_STOP_LOSS) { Some(2) }
    else if has_selector(data, SEL_SET_TAKE_PROFIT) { Some(2) }
    else if has_selector(data, SEL_SET_TRAILING_STOP) { Some(2) }
    else if has_selector(data, SEL_UPDATE_TRAILING_STOP) { Some(1) }
    else if has_selector(data, SEL_TRIGGER_ORDER) { Some(1) }
    else if has_selector(data, SEL_TRIGGER_SL) { Some(1) }
    else if has_selector(data, SEL_TRIGGER_TP) { Some(1) }
    else if has_selector(data, SEL_LIQUIDATE) { Some(1) }
    else if has_selector(data, SEL_LIQUIDATE_CROSS) { Some(1) }
    else if has_selector(data, SEL_DEPOSIT_CROSS) { Some(1) }
    else if has_selector(data, SEL_WITHDRAW_CROSS) { Some(1) }
    else if has_selector(data, SEL_UPDATE_FUNDING) { Some(1) }
    else { None }
}

/// Calldata decodes when it has a known selector and enough argument words.
pub open spec fn decodable(data: Seq<u8>) -> bool {
    &&& data.len() >= 4
    &&& arity(data) matches Some(k) && data.len() - 4 >= k * 32
}

/// `c` is the call that decodable calldata `data` encodes.
pub open spec fn decodes_to(data: Seq<u8>, c: PerpCall) -> bool {
    let a = data.subrange(4, data.len() as int);
    if has_selector(data, SEL_OPEN_POSITION) {
        c matches PerpCall::OpenPosition { market_id, is_long, collateral, leverage, is_cross, sl_price, tp_price }
            && market_id == word_u64(a, 0) && is_long == word_bool(a, 1) && collateral == word_u128(a, 2)
            && leverage == word_u64(a, 3) && is_cross == word_bool(a, 4) && sl_price == word_u128(a, 5)
            && tp_price == word_u128(a, 6)
    } else if has_selector(data, SEL_CLOSE_POSITION) {
        c matches PerpCall::ClosePosition { pos_id } && pos_id == word_u64(a, 0)
    } else if has_selector(data, SEL_PARTIAL_CLOSE) {
        c matches PerpCall::PartialClose { pos_id, close_bps } && pos_id == word_u64(a, 0) && close_bps == word_u64(a, 1)
    } else if has_selector(data, SEL_ADD_COLLATERAL) {
        c matches PerpCall::AddCollateral { pos_id, amount } && pos_id == word_u64(a, 0) && amount == word_u128(a, 1)
    } else if has_selector(data, SEL_SET_STOP_LOSS) {
        c matches PerpCall::SetStopLoss { pos_id, sl_price } && pos_id == word_u64(a, 0) && sl_price == word_u128(a, 1)
    } else if has_selector(data, SEL_SET_TAKE_PROFIT) {
        c matches PerpCall::SetTakeProfit { pos_id, tp_price } && pos_id == word_u64(a, 0) && tp_price == word_u128(a, 1)
    } else if has_selector(data, SEL_SET_TRAILING_STOP) {
        c matches PerpCall::SetTrailingStop { pos_id, trail_bps } && pos_id == word_u64(a, 0) && trail_bps == word_u64(a, 1)
    } else if has_selector(data, SEL_UPDATE_TRAILING_STOP) {
        c matches PerpCall::UpdateTrailingStop { pos_id } && pos_id == word_u64(a, 0)
    } else if has_selector(data, SEL_TRIGGER_ORDER) {
        c matches PerpCall::TriggerOrder { pos_id } && pos_id == word_u64(a, 0)
    } else if has_selector(data, SEL_TRIGGER_SL) {
        c matches PerpCall::TriggerSL { pos_id } && pos_id == word_u64(a, 0)
    } else if has_selector(data, SEL_TRIGGER_TP) {
        c matches PerpCall::TriggerTP { pos_id } && pos_id == word_u64(a, 0)
    } else if has_selector(data, SEL_LIQUIDATE) {
        c matches PerpCall::Liquidate { pos_id } && pos_id == word_u64(a, 0)
    } else if has_selector(data, SEL_LIQUIDATE_CROSS) {
        c matches PerpCall::LiquidateCross { trader } && trader.0@ == a.subrange(12, 32)
    } else if has_selector(data, SEL_DEPOSIT_CROSS) {
        c matches PerpCall::DepositCross { amount } && amount == word_u128(a, 0)
    } else if has_selector(data, SEL_WITHDRAW_CROSS) {
        c matches PerpCall::WithdrawCross { amount } && amount == word_u128(a, 0)
    } else {
        c matches PerpCall::UpdateFunding { market_id } && market_id == word_u64(a, 0)
    }
}

/// Decodes calldata into a call; malformed calldata (too short, unknown
/// selector, missing words) gives `Overflow`, the engine's "bad payload".
pub fn decode_perp_call(data: &[u8]) -> (r: Result<PerpCall, PerpError>)
    ensures
        match r {
            Ok(c) => decodable(data@) && decodes_to(data@, c),
            Err(e) => !decodable(data@) && e == PerpError::Overflow,
        },
{
    if data.len() < 4 {
        return Err(PerpError::Overflow);
    }
    let args = slice_from(data, 4);
    let n = args.len();
    if selector_is(data, &SEL_OPEN_POSITION) {
        if n < 7 * 32 {
            return Err(PerpError::Overflow);
        }
        return Ok(PerpCall::OpenPosition {
            market_id: u64_from_be32(args, 0),
            is_long: bool_from_be32(args, 1),
            collateral: u128_from_be32(args, 2),
            leverage: u64_from_be32(args, 3),
            is_cross: bool_from_be32(args, 4),
            sl_price: u128_from_be32(args, 5),
            tp_price: u128_from_be32(args, 6),
        });
    }
    if selector_is(data, &SEL_CLOSE_POSITION) {
        if n < 32 { return Err(PerpError::Overflow); }
        return Ok(PerpCall::ClosePosition { pos_id: u64_from_be32(args, 0) });
    }
    if selector_is(data, &SEL_PARTIAL_CLOSE) {
        if n < 64 { return Err(PerpError::Overflow); }
        return Ok(PerpCall::PartialClose { pos_id: u64_from_be32(args, 0), close_bps: u64_from_be32(args, 1) });
    }
    if selector_is(data, &SEL_ADD_COLLATERAL) {
        if n < 64 { return Err(PerpError::Overflow); }
        return Ok(PerpCall::AddCollateral { pos_id: u64_from_be32(args, 0), amount: u128_from_be32(args, 1) });
    }
    if selector_is(data, &SEL_SET_STOP_LOSS) {
        if n < 64 { return Err(PerpError::Overflow); }
        return Ok(PerpCall::SetStopLoss { pos_id: u64_from_be32(args, 0), sl_price: u128_from_be32(args, 1) });
    }
    if selector_is(data, &SEL_SET_TAKE_PROFIT) {
        if n < 64 { return Err(PerpError::Overflow); }
        return Ok(PerpCall::SetTakeProfit { pos_id: u64_from_be32(args, 0), tp_price: u128_from_be32(args, 1) });
    }
    if selector_is(data, &SEL_SET_TRAILING_STOP) {
        if n < 64 { return Err(PerpError::Overflow); }
        return Ok(PerpCall::SetTrailingStop { pos_id: u64_from_be32(args, 0), trail_bps: u64_from_be32(args, 1) });
    }
    if selector_is(data, &SEL_UPDATE_TRAILING_STOP) {
        if n < 32 { return Err(PerpError::Overflow); }
        return Ok(PerpCall::UpdateTrailingStop { pos_id: u64_from_be32(args, 0) });
    }
    if selector_is(data, &SEL_TRIGGER_ORDER) {
        if n < 32 { return Err(PerpError::Overflow); }
        return Ok(PerpCall::TriggerOrder { pos_id: u64_from_be32(args, 0) });
    }
    if selector_is(data, &SEL_TRIGGER_SL) {
        if n < 32 { return Err(PerpError::Overflow); }
        return Ok(PerpCall::TriggerSL { pos_id: u64_from_be32(args, 0) });
    }
    if selector_is(data, &SEL_TRIGGER_TP) {
        if n < 32 { return Err(PerpError::Overflow); }
        return Ok(PerpCall::TriggerTP { pos_id: u64_from_be32(args, 0) });
    }
    if selector_is(data, &SEL_LIQUIDATE) {
        if n < 32 { return Err(PerpError::Overflow); }
        return Ok(PerpCall::Liquidate { pos_id: u64_from_be32(args, 0) });
    }
    if selector_is(data, &SEL_LIQUIDATE_CROSS) {
        if n < 32 { return Err(PerpError::Overflow); }
        let mut b = [0u8; 20];
        let mut i: usize = 0;
        while i < 20
            invariant
                n == args@.len(),
                n >= 32,
                0 <= i <= 20,
                forall|k: int| 0 <= k < i ==> b@[k] == args@[12 + k],
            decreases 20 - i,
        {
            b[i] = args[12 + i];
            i += 1;
        }
        assert(b@ =~= args@.subrange(12, 32));
        return Ok(PerpCall::LiquidateCross { trader: Address(b) });
    }
    if selector_is(data, &SEL_DEPOSIT_CROSS) {
        if n < 32 { return Err(PerpError::Overflow); }
        return Ok(PerpCall::DepositCross { amount: u128_from_be32(args, 0) });
    }
    if selector_is(data, &SEL_WITHDRAW_CROSS) {
        if n < 32 { return Err(PerpError::Overflow); }
        return Ok(PerpCall::WithdrawCross { amount: u128_from_be32(args, 0) });
    }
    if selector_is(data, &SEL_UPDATE_FUNDING) {
        if n < 32 { return Err(PerpError::Overflow); }
        return Ok(PerpCall::UpdateFunding { market_id: u64_from_be32(args, 0) });
    }
    Err(PerpError::Overflow)
}

/// `data` from index `start` on.
fn slice_from(data: &[u8], start: usize) -> (r: &[u8])
    requires
        start <= data@.len(),
    ensures
        r@ == data@.subrange(start as int, data@.len() as int),
{
    let r = vstd::slice::slice_subrange(data, start, data.len());
    r
}

/// Whether a transaction is addressed to the perpetuals contract.
pub fn is_perp_destination(to: Option<&Address>) -> (r: bool)
    ensures
        r == (to matches Some(a) && a.0@ == PERP_CONTRACT_ADDR@),
{
    match to {
        Some(a) => crate::common::bytes20_eq(&a.0, &PERP_CONTRACT_ADDR),
        None => false,
    }
}

/// The gas charged for a call.
pub open spec fn gas_spec(c: PerpCall) -> u64 {
    match c {
        PerpCall::OpenPosition { .. } => GAS_OPEN_POSITION,
        PerpCall::ClosePosition { .. } => GAS_CLOSE_POSITION,
        PerpCall::PartialClose { .. } => GAS_PARTIAL_CLOSE,
        PerpCall::AddCollateral { .. } => GAS_ADD_COLLATERAL,
        PerpCall::SetStopLoss { .. } => GAS_SET_STOP_LOSS,
        PerpCall::SetTakeProfit { .. } => GAS_SET_TAKE_PROFIT,
        PerpCall::SetTrailingStop { .. } => GAS_SET_TRAILING_STOP,
        PerpCall::UpdateTrailingStop { .. } => GAS_UPDATE_TRAILING_STOP,
        PerpCall::TriggerOrder { .. } => GAS_TRIGGER_ORDER,
        PerpCall::TriggerSL { .. } => GAS_TRIGGER_SL,
        PerpCall::TriggerTP { .. } => GAS_TRIGGER_TP,
        PerpCall::Liquidate { .. } => GAS_LIQUIDATE,
        PerpCall::LiquidateCross { .. } => GAS_LIQUIDATE_CROSS,
        PerpCall::DepositCross { .. } => GAS_DEPOSIT_CROSS,
        PerpCall::WithdrawCross { .. } => GAS_WITHDRAW_CROSS,
        PerpCall::UpdateFunding { .. } => GAS_UPDATE_FUNDING,
    }
}

/// A result with the gas `g` in place of its success value.
pub open spec fn charged<T>(x: Result<T, PerpError>, g: u64) -> Result<u64, PerpError> {
    match x {
        Ok(_) => Ok(g),
        Err(e) => Err(e),
    }
}

/// The outcome of dispatching `call` from `sender` at `now`: the engine
/// method of the call's kind ran on `pre`, leaving `post`, and `r` is its
/// result with the call's gas in place of its success value.
pub open spec fn dispatch_post<O: OracleProvider>(pre: PerpEngine<O>, post: PerpEngine<O>, call: PerpCall,
    sender: Address, now: u64, r: Result<u64, PerpError>) -> bool {
    match call {
        PerpCall::OpenPosition { market_id, is_long, collateral, leverage, is_cross, sl_price, tp_price } => exists|x: Result<OpenPositionResult, PerpError>|
            #[trigger] PerpEngine::<O>::open_position_post(pre, post, sender, market_id, is_long, collateral, leverage, is_cross, sl_price, tp_price, now, x) && r == charged(x, GAS_OPEN_POSITION),
        PerpCall::ClosePosition { pos_id } => exists|x: Result<CloseResult, PerpError>|
            #[trigger] PerpEngine::<O>::close_position_post(pre, post, sender, pos_id, now, x) && r == charged(x, GAS_CLOSE_POSITION),
        PerpCall::PartialClose { pos_id, close_bps } => exists|x: Result<CloseResult, PerpError>|
            #[trigger] PerpEngine::<O>::partial_close_post(pre, post, sender, pos_id, close_bps, now, x) && r == charged(x, GAS_PARTIAL_CLOSE),
        PerpCall::AddCollateral { pos_id, amount } => exists|x: Result<(), PerpError>|
            #[trigger] PerpEngine::<O>::add_collateral_post(pre, post, pos_id, amount, x) && r == charged(x, GAS_ADD_COLLATERAL),
        PerpCall::SetStopLoss { pos_id, sl_price } => exists|x: Result<(), PerpError>|
            #[trigger] PerpEngine::<O>::set_stop_loss_post(pre, post, sender, pos_id, sl_price, now, x) && r == charged(x, GAS_SET_STOP_LOSS),
        PerpCall::SetTakeProfit { pos_id, tp_price } => exists|x: Result<(), PerpError>|
            #[trigger] PerpEngine::<O>::set_take_profit_post(pre, post, sender, pos_id, tp_price, now, x) && r == charged(x, GAS_SET_TAKE_PROFIT),
        PerpCall::SetTrailingStop { pos_id, trail_bps } => exists|x: Result<(), PerpError>|
            #[trigger] PerpEngine::<O>::set_trailing_stop_post(pre, post, sender, pos_id, trail_bps, now, x) && r == charged(x, GAS_SET_TRAILING_STOP),
        PerpCall::UpdateTrailingStop { pos_id } => exists|x: Result<u128, PerpError>|
            #[trigger] PerpEngine::<O>::update_trailing_stop_post(pre, post, pos_id, now, x) && r == charged(x, GAS_UPDATE_TRAILING_STOP),
        PerpCall::TriggerOrder { pos_id } => exists|x: Result<(CloseResult, u128), PerpError>|
            #[trigger] PerpEngine::<O>::trigger_order_post(pre, post, sender, pos_id, now, x) && r == charged(x, GAS_TRIGGER_ORDER),
        PerpCall::TriggerSL { pos_id } => exists|x: Result<(CloseResult, u128), PerpError>|
            #[trigger] PerpEngine::<O>::trigger_stop_loss_post(pre, post, sender, pos_id, now, x) && r == charged(x, GAS_TRIGGER_SL),
        PerpCall::TriggerTP { pos_id } => exists|x: Result<(CloseResult, u128), PerpError>|
            #[trigger] PerpEngine::<O>::trigger_take_profit_post(pre, post, sender, pos_id, now, x) && r == charged(x, GAS_TRIGGER_TP),
        PerpCall::Liquidate { pos_id } => exists|x: Result<LiquidationResult, PerpError>|
            #[trigger] PerpEngine::<O>::liquidate_post(pre, post, sender, pos_id, now, x) && r == charged(x, GAS_LIQUIDATE),
        PerpCall::LiquidateCross { trader } => exists|x: Result<LiquidationResult, PerpError>|
            #[trigger] PerpEngine::<O>::liquidate_cross_post(pre, post, sender, trader, now, x) && r == charged(x, GAS_LIQUIDATE_CROSS),
        PerpCall::DepositCross { amount } => exists|x: Result<(), PerpError>|
            #[trigger] PerpEngine::<O>::deposit_cross_post(pre, post, sender, amount, x) && r == charged(x, GAS_DEPOSIT_CROSS),
        PerpCall::WithdrawCross { amount } => exists|x: Result<(), PerpError>|
            #[trigger] PerpEngine::<O>::withdraw_cross_post(pre, post, sender, amount, x) && r == charged(x, GAS_WITHDRAW_CROSS),
        PerpCall::UpdateFunding { market_id } => exists|x: Result<u64, PerpError>|
            #[trigger] PerpEngine::<O>::update_funding_post(pre, post, market_id, now, x) && r == charged(x, GAS_UPDATE_FUNDING),
    }
}

/// Applies a decoded call from `sender` at `now` to the engine (the engine
/// method of the same name does the work and states its effect) and
/// returns the gas charged.
pub fn dispatch_perp_call<O: OracleProvider>(call: &PerpCall, sender: Address, now: u64, engine: &mut PerpEngine<O>)
    -> (r: Result<u64, PerpError>)
    requires
        old(engine).wf(),
    ensures
        final(engine).wf(),
        r matches Ok(g) ==> g == gas_spec(*call),
        dispatch_post(*old(engine), *final(engine), *call, sender, now, r),
{
    match call {
        PerpCall::OpenPosition { market_id, is_long, collateral, leverage, is_cross, sl_price, tp_price } => {
            let res = engine.open_position(sender, *market_id, *is_long, *collateral, *leverage, *is_cross, *sl_price, *tp_price, now);
            proof {
                assert(PerpEngine::<O>::open_position_post(*old(engine), *engine, sender, *market_id, *is_long, *collateral, *leverage, *is_cross, *sl_price, *tp_price, now, res));
            }
            match res {
                Err(e) => Err(e),
                Ok(_) => Ok(GAS_OPEN_POSITION),
            }
        },
        PerpCall::ClosePosition { pos_id } => {
            let res = engine.close_position(sender, *pos_id, now);
            proof {
                assert(PerpEngine::<O>::close_position_post(*old(engine), *engine, sender, *pos_id, now, res));
            }
            match res {
                Err(e) => Err(e),
                Ok(_) => Ok(GAS_CLOSE_POSITION),
            }
        },
        PerpCall::PartialClose { pos_id, close_bps } => {
            let res = engine.partial_close(sender, *pos_id, *close_bps, now);
            proof {
                assert(PerpEngine::<O>::partial_close_post(*old(engine), *engine, sender, *pos_id, *close_bps, now, res));
            }
            match res {
                Err(e) => Err(e),
                Ok(_) => Ok(GAS_PARTIAL_CLOSE),
            }
        },
        PerpCall::AddCollateral { pos_id, amount } => {
            let res = engine.add_collateral(*pos_id, *amount);
            proof {
                assert(PerpEngine::<O>::add_collateral_post(*old(engine), *engine, *pos_id, *amount, res));
            }
            match res {
                Err(e) => Err(e),
                Ok(_) => Ok(GAS_ADD_COLLATERAL),
            }
        },
        PerpCall::SetStopLoss { pos_id, sl_price } => {
            let res = engine.set_stop_loss(sender, *pos_id, *sl_price, now);
            proof {
                assert(PerpEngine::<O>::set_stop_loss_post(*old(engine), *engine, sender, *pos_id, *sl_price, now, res));
            }
            match res {
                Err(e) => Err(e),
                Ok(_) => Ok(GAS_SET_STOP_LOSS),
            }
        },
        PerpCall::SetTakeProfit { pos_id, tp_price } => {
            let res = engine.set_take_profit(sender, *pos_id, *tp_price, now);
            proof {
                assert(PerpEngine::<O>::set_take_profit_post(*old(engine), *engine, sender, *pos_id, *tp_price, now, res));
            }
            match res {
                Err(e) => Err(e),
                Ok(_) => Ok(GAS_SET_TAKE_PROFIT),
            }
        },
        PerpCall::SetTrailingStop { pos_id, trail_bps } => {
            let res = engine.set_trailing_stop(sender, *pos_id, *trail_bps, now);
            proof {
                assert(PerpEngine::<O>::set_trailing_stop_post(*old(engine), *engine, sender, *pos_id, *trail_bps, now, res));
            }
            match res {
                Err(e) => Err(e),
                Ok(_) => Ok(GAS_SET_TRAILING_STOP),
            }
        },
        PerpCall::UpdateTrailingStop { pos_id } => {
            let res = engine.update_trailing_stop(*pos_id, now);
            proof {
                assert(PerpEngine::<O>::update_trailing_stop_post(*old(engine), *engine, *pos_id, now, res));
            }
            match res {
                Err(e) => Err(e),
                Ok(_) => Ok(GAS_UPDATE_TRAILING_STOP),
            }
        },
        PerpCall::TriggerOrder { pos_id } => {
            let res = engine.trigger_order(sender, *pos_id, now);
            proof {
                assert(PerpEngine::<O>::trigger_order_post(*old(engine), *engine, sender, *pos_id, now, res));
            }
            match res {
                Err(e) => Err(e),
                Ok(_) => Ok(GAS_TRIGGER_ORDER),
            }
        },
        PerpCall::TriggerSL { pos_id } => {
            let res = engine.trigger_stop_loss(sender, *pos_id, now);
            proof {
                assert(PerpEngine::<O>::trigger_stop_loss_post(*old(engine), *engine, sender, *pos_id, now, res));
            }
            match res {
                Err(e) => Err(e),
                Ok(_) => Ok(GAS_TRIGGER_SL),
            }
        },
        PerpCall::TriggerTP { pos_id } => {
            let res = engine.trigger_take_profit(sender, *pos_id, now);
            proof {
                assert(PerpEngine::<O>::trigger_take_profit_post(*old(engine), *engine, sender, *pos_id, now, res));
            }
            match res {
                Err(e) => Err(e),
                Ok(_) => Ok(GAS_TRIGGER_TP),
            }
        },
        PerpCall::Liquidate { pos_id } => {
            let res = engine.liquidate(sender, *pos_id, now);
            proof {
                assert(PerpEngine::<O>::liquidate_post(*old(engine), *engine, sender, *pos_id, now, res));
            }
            match res {
                Err(e) => Err(e),
                Ok(_) => Ok(GAS_LIQUIDATE),
            }
        },
        PerpCall::LiquidateCross { trader } => {
            let res = engine.liquidate_cross(sender, *trader, now);
            proof {
                assert(PerpEngine::<O>::liquidate_cross_post(*old(engine), *engine, sender, *trader, now, res));
            }
            match res {
                Err(e) => Err(e),
                Ok(_) => Ok(GAS_LIQUIDATE_CROSS),
            }
        },
        PerpCall::DepositCross { amount } => {
            let res = engine.deposit_cross(sender, *amount);
            proof {
                assert(PerpEngine::<O>::deposit_cross_post(*old(engine), *engine, sender, *amount, res));
            }
            match res {
                Err(e) => Err(e),
                Ok(_) => Ok(GAS_DEPOSIT_CROSS),
            }
        },
        PerpCall::WithdrawCross { amount } => {
            let res = engine.withdraw_cross(sender, *amount);
            proof {
                assert(PerpEngine::<O>::withdraw_cross_post(*old(engine), *engine, sender, *amount, res));
            }
            match res {
                Err(e) => Err(e),
                Ok(_) => Ok(GAS_WITHDRAW_CROSS),
            }
        },
        PerpCall::UpdateFunding { market_id } => {
            let res = engine.update_funding(*market_id, now);
            proof {
                assert(PerpEngine::<O>::update_funding_post(*old(engine), *engine, *market_id, now, res));
            }
            match res {
                Err(e) => Err(e),
                Ok(_) => Ok(GAS_UPDATE_FUNDING),
            }
        },
    }
}

} // verus!
