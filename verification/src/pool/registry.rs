//! Platform fee schedule for DEX operations and gas estimates.

use vstd::prelude::*;

verus! {

/// Pool creation fee: 500 ZBX (in wei).
pub const DEFAULT_POOL_CREATION_FEE: u128 = 500_000_000_000_000_000_000;
/// Token creation fee: 100 ZBX.
pub const DEFAULT_TOKEN_CREATION_FEE: u128 = 100_000_000_000_000_000_000;
/// Token mint fee per call: 1 ZBX.
pub const DEFAULT_TOKEN_MINT_FEE: u128 = 1_000_000_000_000_000_000;
/// Token pause fee: 5 ZBX.
pub const DEFAULT_TOKEN_PAUSE_FEE: u128 = 5_000_000_000_000_000_000;
/// Metadata registration fee: 10 ZBX.
pub const DEFAULT_METADATA_FEE: u128 = 10_000_000_000_000_000_000;
/// Bridge fee: 0.05%, in basis points.
pub const DEFAULT_BRIDGE_FEE_BPS: u32 = 5;
/// Name registration fee: 50 ZBX.
pub const DEFAULT_NAME_REGISTRATION_FEE: u128 = 50_000_000_000_000_000_000;
/// Per-swap surcharge (disabled).
pub const DEFAULT_SWAP_GAS_SURCHARGE: u128 = 0;

/// Every gas-bearing DEX operation.
#[derive(Debug, Clone, Copy, PartialEq, Eq, Structural)]
pub enum DexOperation {
    SwapDirect,
    SwapTwoHop,
    AddLiquidity,
    RemoveLiquidity,
    CreatePool,
    CreateToken,
    MintTokens,
    PauseToken,
    RegisterMetadata,
    Approve,
    TransferFrom,
    BridgeTransfer,
    RegisterName,
    ClaimRewards,
}

impl DexOperation {
    /// Gas units of each operation (upper estimates).
    pub open spec fn spec_gas(self) -> u64 {
        match self {
            DexOperation::SwapDirect => 120_000,
            DexOperation::SwapTwoHop => 200_000,
            DexOperation::AddLiquidity => 150_000,
            DexOperation::RemoveLiquidity => 130_000,
            DexOperation::CreatePool => 300_000,
            DexOperation::CreateToken => 500_000,
            DexOperation::MintTokens => 80_000,
            DexOperation::PauseToken => 50_000,
            DexOperation::RegisterMetadata => 60_000,
            DexOperation::Approve => 45_000,
            DexOperation::TransferFrom => 65_000,
            DexOperation::BridgeTransfer => 250_000,
            DexOperation::RegisterName => 100_000,
            DexOperation::ClaimRewards => 90_000,
        }
    }

    /// Estimated gas units.
    pub fn estimated_gas(&self) -> (r: u64)
        ensures r == self.spec_gas(),
    {
        match self {
            DexOperation::SwapDirect => 120_000,
            DexOperation::SwapTwoHop => 200_000,
            DexOperation::AddLiquidity => 150_000,
            DexOperation::RemoveLiquidity => 130_000,
            DexOperation::CreatePool => 300_000,
            DexOperation::CreateToken => 500_000,
            DexOperation::MintTokens => 80_000,
            DexOperation::PauseToken => 50_000,
            DexOperation::RegisterMetadata => 60_000,
            DexOperation::Approve => 45_000,
            DexOperation::TransferFrom => 65_000,
            DexOperation::BridgeTransfer => 250_000,
            DexOperation::RegisterName => 100_000,
            DexOperation::ClaimRewards => 90_000,
        }
    }

    /// Gas cost in wei at `gas_price_gwei`: `gas * gwei * 10^9`.
    pub fn gas_cost_wei(&self, gas_price_gwei: u64) -> (r: u128)
        ensures r == self.spec_gas() * (gas_price_gwei * 1_000_000_000),
    {
        let gas_price_wei = gas_price_gwei as u128 * 1_000_000_000u128;
        let g = self.estimated_gas() as u128;
        proof {
            assert(g * gas_price_wei <= 500_000 * (u64::MAX * 1_000_000_000)) by (nonlinear_arith)
                requires g <= 500_000, gas_price_wei <= u64::MAX * 1_000_000_000, g >= 0, gas_price_wei >= 0;
        }
        g * gas_price_wei
    }
}

/// Platform fees of all operations (in wei) and the governance/treasury
/// addresses.
#[derive(Debug, Clone)]
pub struct FeeRegistry {
    pub pool_creation_fee: u128,
    pub token_creation_fee: u128,
    pub token_mint_fee: u128,
    pub token_pause_fee: u128,
    pub metadata_fee: u128,
    /// Bridge fee in basis points.
    pub bridge_fee_bps: u32,
    pub name_registration_fee: u128,
    pub swap_gas_surcharge: u128,
    /// Only this address may change fees.
    pub governance: [u8; 20],
    /// Receives the fees.
    pub treasury: [u8; 20],
}

/// A cost breakdown of one operation.
#[derive(Debug, Clone, Copy)]
pub struct FeeEstimate {
    pub operation: DexOperation,
    pub platform_fee: u128,
    pub gas_cost_wei: u128,
    /// `platform_fee + gas_cost_wei`, clamped to `u128::MAX`.
    pub total_wei: u128,
}

impl FeeRegistry {
    /// The default fee amounts.
    pub open spec fn has_default_fees(&self) -> bool {
        &&& self.pool_creation_fee == DEFAULT_POOL_CREATION_FEE
        &&& self.token_creation_fee == DEFAULT_TOKEN_CREATION_FEE
        &&& self.token_mint_fee == DEFAULT_TOKEN_MINT_FEE
        &&& self.token_pause_fee == DEFAULT_TOKEN_PAUSE_FEE
        &&& self.metadata_fee == DEFAULT_METADATA_FEE
        &&& self.bridge_fee_bps == DEFAULT_BRIDGE_FEE_BPS
        &&& self.name_registration_fee == DEFAULT_NAME_REGISTRATION_FEE
        &&& self.swap_gas_surcharge == DEFAULT_SWAP_GAS_SURCHARGE
    }

    /// Default fees with the given governance and treasury addresses.
    pub fn new(governance: [u8; 20], treasury: [u8; 20]) -> (r: Self)
        ensures
            r.has_default_fees(),
            r.governance == governance,
            r.treasury == treasury,
    {
        FeeRegistry {
            pool_creation_fee: DEFAULT_POOL_CREATION_FEE,
            token_creation_fee: DEFAULT_TOKEN_CREATION_FEE,
            token_mint_fee: DEFAULT_TOKEN_MINT_FEE,
            token_pause_fee: DEFAULT_TOKEN_PAUSE_FEE,
            metadata_fee: DEFAULT_METADATA_FEE,
            bridge_fee_bps: DEFAULT_BRIDGE_FEE_BPS,
            name_registration_fee: DEFAULT_NAME_REGISTRATION_FEE,
            swap_gas_surcharge: DEFAULT_SWAP_GAS_SURCHARGE,
            governance,
            treasury,
        }
    }

    pub fn pool_creation_fee(&self) -> (r: u128)
        ensures r == self.pool_creation_fee,
    {
        self.pool_creation_fee
    }

    pub fn token_creation_fee(&self) -> (r: u128)
        ensures r == self.token_creation_fee,
    {
        self.token_creation_fee
    }

    pub fn token_mint_fee(&self) -> (r: u128)
        ensures r == self.token_mint_fee,
    {
        self.token_mint_fee
    }

    pub fn token_pause_fee(&self) -> (r: u128)
        ensures r == self.token_pause_fee,
    {
        self.token_pause_fee
    }

    pub fn metadata_registration_fee(&self) -> (r: u128)
        ensures r == self.metadata_fee,
    {
        self.metadata_fee
    }

    pub fn name_registration_fee(&self) -> (r: u128)
        ensures r == self.name_registration_fee,
    {
        self.name_registration_fee
    }

    pub fn swap_gas_surcharge(&self) -> (r: u128)
        ensures r == self.swap_gas_surcharge,
    {
        self.swap_gas_surcharge
    }

    /// The bridge fee on `amount`: `amount * bridge_fee_bps / 10000`.
    pub fn bridge_fee(&self, amount: u128) -> (r: u128)
        requires
            amount * self.bridge_fee_bps <= u128::MAX,
        ensures
            r == amount * self.bridge_fee_bps / 10_000,
    {
        amount * self.bridge_fee_bps as u128 / 10_000
    }

    /// Whether the platform fee of `op` is computable for `amount` (the
    /// bridge fee's product must fit).
    pub open spec fn fee_computable(&self, op: DexOperation, amount: u128) -> bool {
        op == DexOperation::BridgeTransfer ==> amount * self.bridge_fee_bps <= u128::MAX
    }

    /// The platform fee of an operation (gas not included).
    pub open spec fn spec_platform_fee(&self, op: DexOperation, amount: u128) -> int {
        match op {
            DexOperation::CreatePool => self.pool_creation_fee as int,
            DexOperation::CreateToken => self.token_creation_fee as int,
            DexOperation::MintTokens => self.token_mint_fee as int,
            DexOperation::PauseToken => self.token_pause_fee as int,
            DexOperation::RegisterMetadata => self.metadata_fee as int,
            DexOperation::RegisterName => self.name_registration_fee as int,
            DexOperation::BridgeTransfer => amount * self.bridge_fee_bps / 10_000,
            DexOperation::SwapDirect | DexOperation::SwapTwoHop => self.swap_gas_surcharge as int,
            _ => 0,
        }
    }

    /// The platform fee of an operation.
    pub fn platform_fee_for(&self, op: DexOperation, amount: u128) -> (r: u128)
        requires
            self.fee_computable(op, amount),
        ensures
            r == self.spec_platform_fee(op, amount),
    {
        match op {
            DexOperation::CreatePool => self.pool_creation_fee,
            DexOperation::CreateToken => self.token_creation_fee,
            DexOperation::MintTokens => self.token_mint_fee,
            DexOperation::PauseToken => self.token_pause_fee,
            DexOperation::RegisterMetadata => self.metadata_fee,
            DexOperation::RegisterName => self.name_registration_fee,
            DexOperation::BridgeTransfer => self.bridge_fee(amount),
            DexOperation::SwapDirect | DexOperation::SwapTwoHop => self.swap_gas_surcharge,
            _ => 0,
        }
    }

    /// Platform fee plus gas cost of an operation.
    pub fn estimate_total_cost(&self, op: DexOperation, gas_price_gwei: u64, amount: u128) -> (r: FeeEstimate)
        requires
            self.fee_computable(op, amount),
        ensures
            r.operation == op,
            r.platform_fee == self.spec_platform_fee(op, amount),
            r.gas_cost_wei == op.spec_gas() * (gas_price_gwei * 1_000_000_000),
            r.total_wei == crate::common::clamp_u128(r.platform_fee + r.gas_cost_wei),
    {
        let platform_fee = self.platform_fee_for(op, amount);
        let gas_cost = op.gas_cost_wei(gas_price_gwei);
        FeeEstimate {
            operation: op,
            platform_fee,
            gas_cost_wei: gas_cost,
            total_wei: platform_fee.saturating_add(gas_cost),
        }
    }

    /// Sets the pool creation fee; only the governance address may.
    pub fn update_pool_creation_fee(&mut self, caller: [u8; 20], new_fee: u128) -> (r: Result<(), &'static str>)
        ensures
            caller@ == old(self).governance@ ==> r is Ok && *final(self) == (FeeRegistry { pool_creation_fee: new_fee, ..*old(self) }),
            caller@ != old(self).governance@ ==> (r matches Err(m) && m@ == "caller is not governance"@) && *final(self) == *old(self),
    {
        self.only_governance(caller)?;
        self.pool_creation_fee = new_fee;
        Ok(())
    }

    /// Sets the token creation fee; only the governance address may.
    pub fn update_token_creation_fee(&mut self, caller: [u8; 20], new_fee: u128) -> (r: Result<(), &'static str>)
        ensures
            caller@ == old(self).governance@ ==> r is Ok && *final(self) == (FeeRegistry { token_creation_fee: new_fee, ..*old(self) }),
            caller@ != old(self).governance@ ==> (r matches Err(m) && m@ == "caller is not governance"@) && *final(self) == *old(self),
    {
        self.only_governance(caller)?;
        self.token_creation_fee = new_fee;
        Ok(())
    }

    /// Sets the bridge fee; only the governance address may, and at most
    /// 1000 basis points.
    pub fn update_bridge_fee_bps(&mut self, caller: [u8; 20], new_bps: u32) -> (r: Result<(), &'static str>)
        ensures
            caller@ == old(self).governance@ && new_bps <= 1_000 ==> r is Ok && *final(self) == (FeeRegistry { bridge_fee_bps: new_bps, ..*old(self) }),
            caller@ != old(self).governance@ ==> (r matches Err(m) && m@ == "caller is not governance"@) && *final(self) == *old(self),
            caller@ == old(self).governance@ && new_bps > 1_000 ==> (r matches Err(m) && m@ == "bridge fee cannot exceed 10%"@)
                && *final(self) == *old(self),
    {
        self.only_governance(caller)?;
        if new_bps > 1_000 {
            return Err("bridge fee cannot exceed 10%");
        }
        self.bridge_fee_bps = new_bps;
        Ok(())
    }

    fn only_governance(&self, caller: [u8; 20]) -> (r: Result<(), &'static str>)
        ensures
            r is Ok <==> caller@ == self.governance@,
            r matches Err(m) ==> m@ == "caller is not governance"@,
    {
        if !crate::common::bytes20_eq(&caller, &self.governance) {
            return Err("caller is not governance");
        }
        Ok(())
    }
}

impl Default for FeeRegistry {
    /// Default fees with the zero address as governance and treasury.
    fn default() -> (r: Self)
        ensures
            r.has_default_fees(),
            r.governance@ == Seq::new(20, |i: int| 0u8),
            r.treasury@ == Seq::new(20, |i: int| 0u8),
    {
        let r = FeeRegistry::new([0u8; 20], [0u8; 20]);
        proof {
            assert(r.governance@ =~= Seq::new(20, |i: int| 0u8));
            assert(r.treasury@ =~= Seq::new(20, |i: int| 0u8));
        }
        r
    }
}

} // verus!
