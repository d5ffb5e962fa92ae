//! Price feed identifiers, fixed-point prices and per-feed configuration.

use vstd::prelude::*;
use crate::oracle::error::OracleError;

verus! {

/// Number of decimal places of every price (`price = raw / 10^8`).
pub const DECIMALS: u8 = 8;
/// `10^DECIMALS`.
pub const DECIMALS_MULTIPLIER: u128 = 100_000_000;

/// A feed identifier such as `"ZBX/USD"`.
#[derive(Clone, Debug, Hash)]
pub struct FeedId(pub String);

impl PartialEq for FeedId {
    fn eq(&self, other: &Self) -> (r: bool) {
        self.0 == other.0
    }
}

impl vstd::std_specs::cmp::PartialEqSpecImpl for FeedId {
    open spec fn obeys_eq_spec() -> bool {
        true
    }

    open spec fn eq_spec(&self, other: &Self) -> bool {
        self.0@ == other.0@
    }
}

impl Eq for FeedId {}

impl FeedId {
    /// The characters of the identifier.
    pub open spec fn chars(&self) -> Seq<char> {
        self.0@
    }

    pub fn zbx_usd() -> (r: Self)
        ensures r.0@ == "ZBX/USD"@,
    {
        FeedId(String::from_str("ZBX/USD"))
    }

    pub fn zusd_usd() -> (r: Self)
        ensures r.0@ == "ZUSD/USD"@,
    {
        FeedId(String::from_str("ZUSD/USD"))
    }

    /// Zebvix Name Service token.
    pub fn zns_usd() -> (r: Self)
        ensures r.0@ == "ZNS/USD"@,
    {
        FeedId(String::from_str("ZNS/USD"))
    }

    pub fn eth_usd() -> (r: Self)
        ensures r.0@ == "ETH/USD"@,
    {
        FeedId(String::from_str("ETH/USD"))
    }

    pub fn btc_usd() -> (r: Self)
        ensures r.0@ == "BTC/USD"@,
    {
        FeedId(String::from_str("BTC/USD"))
    }

    pub fn bnb_usd() -> (r: Self)
        ensures r.0@ == "BNB/USD"@,
    {
        FeedId(String::from_str("BNB/USD"))
    }

    pub fn sol_usd() -> (r: Self)
        ensures r.0@ == "SOL/USD"@,
    {
        FeedId(String::from_str("SOL/USD"))
    }

    pub fn avax_usd() -> (r: Self)
        ensures r.0@ == "AVAX/USD"@,
    {
        FeedId(String::from_str("AVAX/USD"))
    }

    pub fn matic_usd() -> (r: Self)
        ensures r.0@ == "MATIC/USD"@,
    {
        FeedId(String::from_str("MATIC/USD"))
    }

    pub fn arb_usd() -> (r: Self)
        ensures r.0@ == "ARB/USD"@,
    {
        FeedId(String::from_str("ARB/USD"))
    }

    pub fn op_usd() -> (r: Self)
        ensures r.0@ == "OP/USD"@,
    {
        FeedId(String::from_str("OP/USD"))
    }

    pub fn link_usd() -> (r: Self)
        ensures r.0@ == "LINK/USD"@,
    {
        FeedId(String::from_str("LINK/USD"))
    }

    pub fn dot_usd() -> (r: Self)
        ensures r.0@ == "DOT/USD"@,
    {
        FeedId(String::from_str("DOT/USD"))
    }

    /// Indian rupee forex rate.
    pub fn usd_inr() -> (r: Self)
        ensures r.0@ == "USD/INR"@,
    {
        FeedId(String::from_str("USD/INR"))
    }

    /// The crypto feeds, in order (no forex).
    pub open spec fn crypto_feed_names() -> Seq<Seq<char>> {
        seq![
            "ZBX/USD"@, "ZUSD/USD"@, "ZNS/USD"@, "ETH/USD"@, "BTC/USD"@, "BNB/USD"@,
            "SOL/USD"@, "AVAX/USD"@, "MATIC/USD"@, "ARB/USD"@, "OP/USD"@, "LINK/USD"@,
            "DOT/USD"@,
        ]
    }

    /// Every standard feed, in order: the crypto feeds followed by USD/INR.
    pub open spec fn all_feed_names() -> Seq<Seq<char>> {
        Self::crypto_feed_names().push("USD/INR"@)
    }

    /// All standard feed identifiers (fourteen).
    pub fn all() -> (r: Vec<Self>)
        ensures
            r@.len() == Self::all_feed_names().len(),
            forall|i: int| 0 <= i < r@.len() ==> #[trigger] r@[i].0@ == Self::all_feed_names()[i],
    {
        let mut v = Self::crypto_feeds();
        v.push(Self::usd_inr());
        v
    }

    /// The crypto-only feeds (thirteen), used by the exchange fetchers.
    pub fn crypto_feeds() -> (r: Vec<Self>)
        ensures
            r@.len() == Self::crypto_feed_names().len(),
            forall|i: int| 0 <= i < r@.len() ==> #[trigger] r@[i].0@ == Self::crypto_feed_names()[i],
    {
        let mut v: Vec<Self> = Vec::new();
        v.push(Self::zbx_usd());
        v.push(Self::zusd_usd());
        v.push(Self::zns_usd());
        v.push(Self::eth_usd());
        v.push(Self::btc_usd());
        v.push(Self::bnb_usd());
        v.push(Self::sol_usd());
        v.push(Self::avax_usd());
        v.push(Self::matic_usd());
        v.push(Self::arb_usd());
        v.push(Self::op_usd());
        v.push(Self::link_usd());
        v.push(Self::dot_usd());
        v
    }

    /// The identifier as a string.
    pub fn to_string(&self) -> (r: String)
        ensures r@ == self.0@,
    {
        self.0.clone()
    }
}

/// A price with eight decimals: `$2.50` is `Price(250_000_000)`.
#[derive(Clone, Copy, Debug, PartialEq, Eq, PartialOrd, Ord, Hash, Structural)]
pub struct Price(pub i128);

/// The exclusive upper bound of a sane raw price (`10^10` whole units,
/// ten billion dollars).
pub open spec fn max_valid_price() -> int {
    1_000_000_000_000_000_000int
}

impl Price {
    /// A price is sane when it is positive and below ten billion dollars.
    pub open spec fn spec_is_valid(self) -> bool {
        self.0 > 0 && self.0 < max_valid_price()
    }

    /// Whether the price is positive and below ten billion dollars.
    pub fn is_valid(self) -> (r: bool)
        ensures r == self.spec_is_valid(),
    {
        self.0 > 0 && self.0 < 10_000_000_000i128 * (DECIMALS_MULTIPLIER as i128)
    }
}

/// Configuration and last state of one price feed.
#[derive(Clone, Debug)]
pub struct PriceFeed {
    pub id: FeedId,
    pub decimals: u8,
    /// Minimum reporters for a valid round.
    pub min_reporters: u32,
    /// Deviation that triggers an update, in basis points.
    pub deviation_threshold: u32,
    /// Maximum time between updates, in seconds.
    pub heartbeat_secs: u64,
    pub contract_address: [u8; 20],
    pub last_price: Option<Price>,
    pub last_updated: u64,
    /// Lowest accepted answer.
    pub min_answer: i128,
    /// Highest accepted answer.
    pub max_answer: i128,
}

impl PriceFeed {
    /// A fresh feed with the given parameters and no price yet.
    pub open spec fn spec_fresh(
        self,
        name: Seq<char>,
        contract: [u8; 20],
        min_reporters: u32,
        deviation_threshold: u32,
        heartbeat_secs: u64,
        min_answer: i128,
        max_answer: i128,
    ) -> bool {
        &&& self.id.0@ == name
        &&& self.decimals == DECIMALS
        &&& self.min_reporters == min_reporters
        &&& self.deviation_threshold == deviation_threshold
        &&& self.heartbeat_secs == heartbeat_secs
        &&& self.contract_address == contract
        &&& self.last_price is None
        &&& self.last_updated == 0
        &&& self.min_answer == min_answer
        &&& self.max_answer == max_answer
    }

    fn fresh(
        id: FeedId,
        contract: [u8; 20],
        min_reporters: u32,
        deviation_threshold: u32,
        heartbeat_secs: u64,
        min_answer: i128,
        max_answer: i128,
    ) -> (r: Self)
        ensures
            r.spec_fresh(
                id.0@,
                contract,
                min_reporters,
                deviation_threshold,
                heartbeat_secs,
                min_answer,
                max_answer,
            ),
    {
        PriceFeed {
            id,
            decimals: DECIMALS,
            min_reporters,
            deviation_threshold,
            heartbeat_secs,
            contract_address: contract,
            last_price: None,
            last_updated: 0,
            min_answer,
            max_answer,
        }
    }

    pub fn zbx_usd(contract: [u8; 20]) -> (r: Self)
        ensures r.spec_fresh("ZBX/USD"@, contract, 5, 50, 3600, 1_000_000, 100_000_000_000),
    {
        Self::fresh(FeedId::zbx_usd(), contract, 5, 50, 3600, 1_000_000, 100_000_000_000)
    }

    /// Stablecoin feed: tighter deviation and bounds.
    pub fn zusd_usd(contract: [u8; 20]) -> (r: Self)
        ensures r.spec_fresh("ZUSD/USD"@, contract, 5, 10, 1800, 90_000_000, 110_000_000),
    {
        Self::fresh(FeedId::zusd_usd(), contract, 5, 10, 1800, 90_000_000, 110_000_000)
    }

    pub fn eth_usd(contract: [u8; 20]) -> (r: Self)
        ensures r.spec_fresh("ETH/USD"@, contract, 5, 50, 3600, 1_00000000, 1_000_000_00000000),
    {
        Self::fresh(FeedId::eth_usd(), contract, 5, 50, 3600, 1_00000000, 1_000_000_00000000)
    }

    pub fn btc_usd(contract: [u8; 20]) -> (r: Self)
        ensures r.spec_fresh("BTC/USD"@, contract, 5, 50, 3600, 1_000_00000000, 10_000_000_00000000),
    {
        Self::fresh(FeedId::btc_usd(), contract, 5, 50, 3600, 1_000_00000000, 10_000_000_00000000)
    }

    pub fn zns_usd(contract: [u8; 20]) -> (r: Self)
        ensures r.spec_fresh("ZNS/USD"@, contract, 3, 100, 7200, 10_000, 1_000_00000000),
    {
        Self::fresh(FeedId::zns_usd(), contract, 3, 100, 7200, 10_000, 1_000_00000000)
    }

    /// Forex feed: bounds of 60 and 120 rupees per dollar.
    pub fn usd_inr(contract: [u8; 20]) -> (r: Self)
        ensures r.spec_fresh("USD/INR"@, contract, 3, 20, 3_600, 60_00000000, 120_00000000),
    {
        Self::fresh(FeedId::usd_inr(), contract, 3, 20, 3_600, 60_00000000, 120_00000000)
    }

    pub fn sol_usd(contract: [u8; 20]) -> (r: Self)
        ensures r.spec_fresh("SOL/USD"@, contract, 5, 50, 3600, 1_00000000, 100_000_00000000),
    {
        Self::fresh(FeedId::sol_usd(), contract, 5, 50, 3600, 1_00000000, 100_000_00000000)
    }

    pub fn avax_usd(contract: [u8; 20]) -> (r: Self)
        ensures r.spec_fresh("AVAX/USD"@, contract, 5, 50, 3600, 1_00000000, 10_000_00000000),
    {
        Self::fresh(FeedId::avax_usd(), contract, 5, 50, 3600, 1_00000000, 10_000_00000000)
    }

    pub fn matic_usd(contract: [u8; 20]) -> (r: Self)
        ensures r.spec_fresh("MATIC/USD"@, contract, 3, 100, 7200, 100_000, 1_000_00000000),
    {
        Self::fresh(FeedId::matic_usd(), contract, 3, 100, 7200, 100_000, 1_000_00000000)
    }

    pub fn arb_usd(contract: [u8; 20]) -> (r: Self)
        ensures r.spec_fresh("ARB/USD"@, contract, 3, 100, 7200, 100_000, 10_000_00000000),
    {
        Self::fresh(FeedId::arb_usd(), contract, 3, 100, 7200, 100_000, 10_000_00000000)
    }

    pub fn op_usd(contract: [u8; 20]) -> (r: Self)
        ensures r.spec_fresh("OP/USD"@, contract, 3, 100, 7200, 100_000, 10_000_00000000),
    {
        Self::fresh(FeedId::op_usd(), contract, 3, 100, 7200, 100_000, 10_000_00000000)
    }

    pub fn link_usd(contract: [u8; 20]) -> (r: Self)
        ensures r.spec_fresh("LINK/USD"@, contract, 3, 50, 7200, 10_000_000, 100_000_00000000),
    {
        Self::fresh(FeedId::link_usd(), contract, 3, 50, 7200, 10_000_000, 100_000_00000000)
    }

    pub fn dot_usd(contract: [u8; 20]) -> (r: Self)
        ensures r.spec_fresh("DOT/USD"@, contract, 3, 100, 7200, 1_00000000, 10_000_00000000),
    {
        Self::fresh(FeedId::dot_usd(), contract, 3, 100, 7200, 1_00000000, 10_000_00000000)
    }

    /// Checks a reported price against the feed's bounds: below `min_answer`
    /// is `BelowMinAnswer`, above `max_answer` is `AboveMaxAnswer`.
    pub fn validate_answer(&self, price: i128) -> (r: Result<(), OracleError>)
        ensures
            price < self.min_answer ==> (r matches Err(OracleError::BelowMinAnswer { feed, reported, min_answer })
                && feed@ == self.id.0@ && reported == price && min_answer == self.min_answer),
            self.min_answer <= price && price > self.max_answer ==> (r matches Err(OracleError::AboveMaxAnswer { feed, reported, max_answer })
                && feed@ == self.id.0@ && reported == price && max_answer == self.max_answer),
            self.min_answer <= price <= self.max_answer ==> r is Ok,
    {
        if price < self.min_answer {
            return Err(OracleError::BelowMinAnswer {
                feed: self.id.0.clone(),
                reported: price,
                min_answer: self.min_answer,
            });
        }
        if price > self.max_answer {
            return Err(OracleError::AboveMaxAnswer {
                feed: self.id.0.clone(),
                reported: price,
                max_answer: self.max_answer,
            });
        }
        Ok(())
    }
}

} // verus!
