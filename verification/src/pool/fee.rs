//! Swap fee tiers and the protocol/LP split.

use vstd::prelude::*;

verus! {

/// Fee tiers, in basis points.
#[derive(Debug, Clone, Copy, PartialEq, Eq, Structural)]
pub enum FeeTier {
    /// 0.05% — stablecoin pairs.
    Lowest,
    /// 0.30% — standard pairs (default).
    Standard,
    /// 1.00% — exotic pairs.
    High,
}

impl FeeTier {
    /// The fee in basis points.
    pub open spec fn spec_bps(self) -> u32 {
        match self {
            FeeTier::Lowest => 5,
            FeeTier::Standard => 30,
            FeeTier::High => 100,
        }
    }

    /// The fee in basis points.
    pub fn bps(self) -> (r: u32)
        ensures r == self.spec_bps(),
    {
        match self {
            FeeTier::Lowest => 5,
            FeeTier::Standard => 30,
            FeeTier::High => 100,
        }
    }

    /// The protocol's share of the fee (a fifth), in basis points.
    pub fn protocol_bps(self) -> (r: u32)
        ensures r == self.spec_bps() / 5,
    {
        self.bps() / 5
    }

    /// The liquidity providers' share of the fee, in basis points.
    pub fn lp_bps(self) -> (r: u32)
        ensures r == self.spec_bps() - self.spec_bps() / 5,
    {
        self.bps() - self.protocol_bps()
    }
}

impl Default for FeeTier {
    fn default() -> (r: Self)
        ensures r == FeeTier::Standard,
    {
        FeeTier::Standard
    }
}

/// The protocol's part of a total fee `total`: a fifth of it, rounded up
/// (so any positive fee gives the protocol something).
pub open spec fn protocol_part(total: int) -> int {
    (total + 4) / 5
}

/// Splits the fee on `amount_in` into `(lp_fee, protocol_fee)`: the total
/// fee is rounded down, the protocol takes a fifth of it rounded up, and the
/// liquidity providers the rest.
pub fn split_fee(amount_in: u128, tier: FeeTier) -> (r: (u128, u128))
    requires
        amount_in * tier.spec_bps() <= u128::MAX,
    ensures
        r.1 == protocol_part(amount_in * tier.spec_bps() / 10_000),
        r.0 == amount_in * tier.spec_bps() / 10_000 - r.1,
{
    let total_fee = amount_in * (tier.bps() as u128) / 10_000;
    let protocol = total_fee / 5 + if total_fee % 5 == 0 { 0 } else { 1 };
    proof {
        assert(protocol == (total_fee + 4) / 5);
        assert(protocol <= total_fee);
    }
    let lp = total_fee - protocol;
    (lp, protocol)
}

} // verus!
