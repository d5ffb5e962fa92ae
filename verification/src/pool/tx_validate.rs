//! Admission checks for a raw transaction before it enters the pool:
//! stateless ones first (size, decoding, chain id, gas limit, EIP-1559
//! fees), then stateful ones (duplicate, nonce window, balance, capacity,
//! per-sender limit).

use vstd::prelude::*;
use crate::payid::resolver::CHAIN_ID_MAINNET;

verus! {

/// Largest raw transaction accepted (128 KiB).
pub const MAX_TX_SIZE: usize = 128 * 1024;
/// Smallest gas limit (the intrinsic gas of a transfer).
pub const MIN_TX_GAS: u64 = 21_000;
/// Largest gas limit (the block gas limit).
pub const MAX_TX_GAS_LIMIT: u64 = 30_000_000;
/// How far past the account nonce a queued transaction may be.
pub const MAX_NONCE_GAP: u64 = 64;

/// Why a transaction is refused.
#[derive(Debug, Clone, Copy)]
pub enum PoolError {
    InvalidSignature,
    WrongChainId { expected: u64, got: u64 },
    TxTooLarge { size: usize, max: usize },
    GasLimitTooLow { min: u64, got: u64 },
    GasLimitTooHigh { max: u64, got: u64 },
    MaxFeeTooLow { base_fee: u128, max_fee: u128 },
    TipExceedsMaxFee,
    InsufficientBalance { balance: u128, required: u128 },
    NonceTooLow { state_nonce: u64, tx_nonce: u64 },
    NonceTooHigh { state_nonce: u64, tx_nonce: u64, max_gap: u64 },
    AlreadyKnown { hash: [u8; 32] },
    PoolFull,
    Underpriced { min_tip: u128, got_tip: u128 },
    ReplaceUnderpriced { required_bump: u128 },
    SenderLimitExceeded,
}

/// An accepted transaction.
#[derive(Debug, Clone, Copy)]
pub struct ValidationResult {
    pub sender: [u8; 20],
    /// `min(max priority fee, max fee - base fee)`.
    pub effective_tip: u128,
    /// Its nonce is the account's (ready now) rather than ahead (queued).
    pub is_pending: bool,
    /// Worst-case gas cost, `max fee · gas limit` (saturating).
    pub gas_cost: u128,
}

/// The fields of a decoded transaction.
#[derive(Debug, Clone, Copy)]
pub struct DecodedTx {
    pub hash: [u8; 32],
    pub sender: [u8; 20],
    pub nonce: u64,
    pub gas_limit: u64,
    pub max_fee_per_gas: u128,
    pub max_priority_fee_per_gas: u128,
    pub value: u128,
    pub chain_id: Option<u64>,
}

/// The all-zero hash.
pub const ZERO_HASH: [u8; 32] = [0, 0, 0, 0, 0, 0, 0, 0, 0, 0, 0, 0, 0, 0, 0, 0, 0, 0, 0, 0, 0, 0, 0, 0, 0, 0, 0, 0, 0, 0, 0, 0];
/// The zero address.
pub const ZERO_SENDER: [u8; 20] = [0, 0, 0, 0, 0, 0, 0, 0, 0, 0, 0, 0, 0, 0, 0, 0, 0, 0, 0, 0];

/// What the decoder gives for any input: a fixed zero-fee mainnet transfer
/// from the zero address at nonce 0 (the decoder is a placeholder).
pub open spec fn decoded_spec(raw: Seq<u8>) -> DecodedTx {
    DecodedTx {
        hash: ZERO_HASH,
        sender: ZERO_SENDER,
        nonce: 0,
        gas_limit: 21_000,
        max_fee_per_gas: 0,
        max_priority_fee_per_gas: 0,
        value: 0,
        chain_id: Some(CHAIN_ID_MAINNET),
    }
}

/// The placeholder decoder.
fn decode_tx(raw: &[u8]) -> (r: Result<DecodedTx, ()>)
    ensures
        r == Ok::<DecodedTx, ()>(decoded_spec(raw@)),
{
    Ok(DecodedTx {
        hash: ZERO_HASH,
        sender: ZERO_SENDER,
        nonce: 0,
        gas_limit: 21_000,
        max_fee_per_gas: 0,
        max_priority_fee_per_gas: 0,
        value: 0,
        chain_id: Some(CHAIN_ID_MAINNET),
    })
}

/// `a * b` clamped to `u128`.
pub open spec fn sat_mul(a: int, b: int) -> int {
    if a * b > u128::MAX { u128::MAX as int } else { a * b }
}

/// `a + b` clamped to `u128`.
pub open spec fn sat_add(a: int, b: int) -> int {
    if a + b > u128::MAX { u128::MAX as int } else { a + b }
}

/// The outcome of validating the transaction `tx` (decoded from a raw
/// transaction of `size` bytes) against the chain and pool state.
pub open spec fn validate_spec(size: nat, tx: DecodedTx, chain_id: u64, base_fee: u128, state_nonce: u64,
    state_balance: u128, pool_has_tx: bool, pool_full: bool, sender_tx_count: usize, max_sender_txs: usize)
    -> Result<ValidationResult, PoolError> {
    let gas_cost = sat_mul(tx.max_fee_per_gas as int, tx.gas_limit as int);
    let total_cost = sat_add(gas_cost, tx.value as int);
    if size > MAX_TX_SIZE {
        Err(PoolError::TxTooLarge { size: size as usize, max: MAX_TX_SIZE })
    } else if tx.chain_id matches Some(c) && c != chain_id {
        Err(PoolError::WrongChainId { expected: chain_id, got: tx.chain_id->0 })
    } else if tx.gas_limit < MIN_TX_GAS {
        Err(PoolError::GasLimitTooLow { min: MIN_TX_GAS, got: tx.gas_limit })
    } else if tx.gas_limit > MAX_TX_GAS_LIMIT {
        Err(PoolError::GasLimitTooHigh { max: MAX_TX_GAS_LIMIT, got: tx.gas_limit })
    } else if tx.max_fee_per_gas < base_fee {
        Err(PoolError::MaxFeeTooLow { base_fee, max_fee: tx.max_fee_per_gas })
    } else if tx.max_priority_fee_per_gas > tx.max_fee_per_gas {
        Err(PoolError::TipExceedsMaxFee)
    } else if pool_has_tx {
        Err(PoolError::AlreadyKnown { hash: tx.hash })
    } else if tx.nonce < state_nonce {
        Err(PoolError::NonceTooLow { state_nonce, tx_nonce: tx.nonce })
    } else if tx.nonce > state_nonce + MAX_NONCE_GAP {
        Err(PoolError::NonceTooHigh { state_nonce, tx_nonce: tx.nonce, max_gap: MAX_NONCE_GAP })
    } else if state_balance < total_cost {
        Err(PoolError::InsufficientBalance { balance: state_balance, required: total_cost as u128 })
    } else if pool_full {
        Err(PoolError::PoolFull)
    } else if sender_tx_count >= max_sender_txs {
        Err(PoolError::SenderLimitExceeded)
    } else {
        let headroom = tx.max_fee_per_gas - base_fee;
        Ok(ValidationResult {
            sender: tx.sender,
            effective_tip: if tx.max_priority_fee_per_gas <= headroom { tx.max_priority_fee_per_gas } else { headroom as u128 },
            is_pending: tx.nonce == state_nonce,
            gas_cost: gas_cost as u128,
        })
    }
}

/// Validates a raw transaction: stateless checks, then stateful ones, in
/// the order of `validate_spec`.
pub fn validate_tx(raw_tx: &[u8], chain_id: u64, base_fee: u128, state_nonce: u64, state_balance: u128,
    pool_has_tx: bool, pool_full: bool, sender_tx_count: usize, max_sender_txs: usize)
    -> (r: Result<ValidationResult, PoolError>)
    ensures
        r == validate_spec(raw_tx@.len(), decoded_spec(raw_tx@), chain_id, base_fee, state_nonce, state_balance,
            pool_has_tx, pool_full, sender_tx_count, max_sender_txs),
{
    if raw_tx.len() > MAX_TX_SIZE {
        return Err(PoolError::TxTooLarge { size: raw_tx.len(), max: MAX_TX_SIZE });
    }
    let tx = match decode_tx(raw_tx) {
        Ok(t) => t,
        Err(_) => return Err(PoolError::InvalidSignature),
    };
    match tx.chain_id {
        Some(tx_chain_id) => {
            if tx_chain_id != chain_id {
                return Err(PoolError::WrongChainId { expected: chain_id, got: tx_chain_id });
            }
        },
        None => {},
    }
    if tx.gas_limit < MIN_TX_GAS {
        return Err(PoolError::GasLimitTooLow { min: MIN_TX_GAS, got: tx.gas_limit });
    }
    if tx.gas_limit > MAX_TX_GAS_LIMIT {
        return Err(PoolError::GasLimitTooHigh { max: MAX_TX_GAS_LIMIT, got: tx.gas_limit });
    }
    if tx.max_fee_per_gas < base_fee {
        return Err(PoolError::MaxFeeTooLow { base_fee, max_fee: tx.max_fee_per_gas });
    }
    if tx.max_priority_fee_per_gas > tx.max_fee_per_gas {
        return Err(PoolError::TipExceedsMaxFee);
    }
    if pool_has_tx {
        return Err(PoolError::AlreadyKnown { hash: tx.hash });
    }
    if tx.nonce < state_nonce {
        return Err(PoolError::NonceTooLow { state_nonce, tx_nonce: tx.nonce });
    }
    if tx.nonce > state_nonce + MAX_NONCE_GAP {
        return Err(PoolError::NonceTooHigh { state_nonce, tx_nonce: tx.nonce, max_gap: MAX_NONCE_GAP });
    }
    proof {
        assert(tx.max_fee_per_gas * tx.gas_limit >= 0) by (nonlinear_arith)
            requires tx.max_fee_per_gas >= 0, tx.gas_limit >= 0;
    }
    let gas_cost = match tx.max_fee_per_gas.checked_mul(tx.gas_limit as u128) {
        Some(v) => v,
        None => u128::MAX,
    };
    let total_cost = gas_cost.saturating_add(tx.value);
    if state_balance < total_cost {
        return Err(PoolError::InsufficientBalance { balance: state_balance, required: total_cost });
    }
    if pool_full {
        return Err(PoolError::PoolFull);
    }
    if sender_tx_count >= max_sender_txs {
        return Err(PoolError::SenderLimitExceeded);
    }
    let headroom = tx.max_fee_per_gas - base_fee;
    let effective_tip = if tx.max_priority_fee_per_gas <= headroom { tx.max_priority_fee_per_gas } else { headroom };
    Ok(ValidationResult { sender: tx.sender, effective_tip, is_pending: tx.nonce == state_nonce, gas_cost })
}

} // verus!
