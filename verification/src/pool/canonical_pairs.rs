//! The native token addresses and the pool pre-deployed at genesis.

use vstd::prelude::*;
use crate::common::{lex_lt, Address};
use crate::pool::fee::FeeTier;
use crate::pool::pair::PairId;

verus! {

/// Wrapped ZBX, the ERC-20 form of the native token (precompile `0x…01`).
pub const WZBX_ADDR: [u8; 20] = [
    0x00, 0x00, 0x00, 0x00, 0x00, 0x00, 0x00, 0x00,
    0x00, 0x00, 0x00, 0x00, 0x00, 0x00, 0x00, 0x00,
    0x00, 0x00, 0x00, 0x01,
];

/// The ZUSD stablecoin genesis contract.
pub const ZUSD_ADDR: [u8; 20] = [
    0x00, 0x00, 0x00, 0x00, 0x00, 0x00, 0x00, 0x00,
    0x00, 0x00, 0x00, 0x00, 0x00, 0x00, 0x00, 0x00,
    0x23, 0x1D, 0x00, 0x01,
];

/// The ZBX/ZUSD pool contract.
pub const POOL_ZBX_ZUSD_ADDR: [u8; 20] = [
    0xAA, 0xBB, 0x00, 0x01, 0x00, 0x00, 0x00, 0x00,
    0x00, 0x00, 0x00, 0x00, 0x00, 0x00, 0x00, 0x00,
    0x00, 0x00, 0x00, 0x01,
];

/// A pool that exists from genesis.
#[derive(Debug, Clone)]
pub struct CanonicalPool {
    /// Display name, such as `ZBX/ZUSD`.
    pub name: &'static str,
    /// The pair, smaller address first.
    pub pair_id: PairId,
    pub fee_tier: FeeTier,
    /// The pool contract.
    pub contract_address: [u8; 20],
}

/// Wrapped ZBX.
pub fn wzbx() -> (r: Address)
    ensures
        r.0 == WZBX_ADDR,
{
    Address(WZBX_ADDR)
}

/// ZUSD.
pub fn zusd() -> (r: Address)
    ensures
        r.0 == ZUSD_ADDR,
{
    Address(ZUSD_ADDR)
}

/// The genesis pools: ZBX/ZUSD at the standard fee.
pub fn canonical_pools() -> (r: [CanonicalPool; 1])
    ensures
        r[0].name@ == "ZBX/ZUSD"@,
        r[0].pair_id.token_a.0 == WZBX_ADDR,
        r[0].pair_id.token_b.0 == ZUSD_ADDR,
        r[0].fee_tier == FeeTier::Standard,
        r[0].contract_address == POOL_ZBX_ZUSD_ADDR,
        lex_lt(r[0].pair_id.token_a.0@, r[0].pair_id.token_b.0@),
{
    let a = wzbx();
    let b = zusd();
    proof {
        assert(a.0@[16] == 0 && b.0@[16] == 0x23);
        lemma_wzbx_before_zusd(a.0@, b.0@);
    }
    [CanonicalPool { name: "ZBX/ZUSD", pair_id: PairId::new(a, b), fee_tier: FeeTier::Standard, contract_address: POOL_ZBX_ZUSD_ADDR }]
}

proof fn lemma_wzbx_before_zusd(a: Seq<u8>, b: Seq<u8>)
    requires
        a.len() == 20 && b.len() == 20,
        forall|i: int| 0 <= i < 16 ==> a[i] == 0 && b[i] == 0,
        a[16] == 0 && b[16] == 0x23,
    ensures
        lex_lt(a, b),
{
    reveal_with_fuel(lex_lt, 18);
    assert(a.drop_first().drop_first().drop_first().drop_first().drop_first().drop_first().drop_first().drop_first()
        .drop_first().drop_first().drop_first().drop_first().drop_first().drop_first().drop_first().drop_first()[0] == 0);
}

} // verus!
