//! Relaying oracle prices to other EVM networks: the supported networks,
//! the per-network price records and the signed relay message payload.

use vstd::prelude::*;
use crate::oracle::feed::{FeedId, Price};
use crate::crypto::{be_bytes, push_be, push_all};
use vstd::utf8::encode_utf8;

verus! {

/// ZBX Chain mainnet.
pub const CHAIN_ZBX_MAINNET: u64 = 8_989;
/// ZBX Chain testnet.
pub const CHAIN_ZBX_TESTNET: u64 = 8_990;
/// Ethereum mainnet.
pub const CHAIN_ETHEREUM: u64 = 1;
/// BNB Smart Chain.
pub const CHAIN_BSC: u64 = 56;
/// Polygon.
pub const CHAIN_POLYGON: u64 = 137;
/// Arbitrum One.
pub const CHAIN_ARBITRUM: u64 = 42_161;
/// Optimism.
pub const CHAIN_OPTIMISM: u64 = 10;
/// Avalanche C-Chain.
pub const CHAIN_AVALANCHE: u64 = 43_114;

/// All supported chain ids, in registry order.
pub open spec fn all_chain_ids() -> Seq<u64> {
    seq![CHAIN_ZBX_MAINNET, CHAIN_ZBX_TESTNET, CHAIN_ETHEREUM, CHAIN_BSC, CHAIN_POLYGON,
        CHAIN_ARBITRUM, CHAIN_OPTIMISM, CHAIN_AVALANCHE]
}

/// How a network reaches finality.
#[derive(Clone, Copy, Debug, PartialEq, Eq, Structural)]
pub enum FinalityModel {
    Instant,
    Probabilistic { safe_blocks: u32 },
    OptimisticRollup { challenge_window_secs: u64 },
    ZkRollup,
}

/// One supported EVM network.
#[derive(Clone, Copy, Debug)]
pub struct NetworkDescriptor {
    pub chain_id: u64,
    pub name: &'static str,
    pub short_name: &'static str,
    pub rpc_endpoint: &'static str,
    pub block_time_ms: u64,
    pub finality: FinalityModel,
    pub gas_token: &'static str,
    pub relay_active: bool,
    pub confirm_blocks: u32,
    /// True for the ZBX chains themselves (no relay needed).
    pub is_native: bool,
    pub explorer: &'static str,
}

impl NetworkDescriptor {

    /// The descriptor of ZBX Chain Mainnet (chain id 8989).
    pub fn zbx_mainnet() -> (r: Self)
        ensures
            r.chain_id == CHAIN_ZBX_MAINNET,
            r.name@ == "ZBX Chain Mainnet"@,
            r.short_name@ == "zbx"@,
            r.rpc_endpoint@ == "https://rpc.zbx.network"@,
            r.block_time_ms == 5000,
            r.finality == FinalityModel::Instant,
            r.gas_token@ == "ZBX"@,
            r.relay_active == true,
            r.confirm_blocks == 1,
            r.is_native == true,
            r.explorer@ == "https://explorer.zbx.network"@,
    {
        NetworkDescriptor {
            chain_id: CHAIN_ZBX_MAINNET,
            name: "ZBX Chain Mainnet",
            short_name: "zbx",
            rpc_endpoint: "https://rpc.zbx.network",
            block_time_ms: 5000,
            finality: FinalityModel::Instant,
            gas_token: "ZBX",
            relay_active: true,
            confirm_blocks: 1,
            is_native: true,
            explorer: "https://explorer.zbx.network",
        }
    }

    /// The descriptor of ZBX Chain Testnet (chain id 8990).
    pub fn zbx_testnet() -> (r: Self)
        ensures
            r.chain_id == CHAIN_ZBX_TESTNET,
            r.name@ == "ZBX Chain Testnet"@,
            r.short_name@ == "zbx-test"@,
            r.rpc_endpoint@ == "https://rpc-testnet.zbx.network"@,
            r.block_time_ms == 5000,
            r.finality == FinalityModel::Instant,
            r.gas_token@ == "tZBX"@,
            r.relay_active == true,
            r.confirm_blocks == 1,
            r.is_native == true,
            r.explorer@ == "https://explorer-testnet.zbx.network"@,
    {
        NetworkDescriptor {
            chain_id: CHAIN_ZBX_TESTNET,
            name: "ZBX Chain Testnet",
            short_name: "zbx-test",
            rpc_endpoint: "https://rpc-testnet.zbx.network",
            block_time_ms: 5000,
            finality: FinalityModel::Instant,
            gas_token: "tZBX",
            relay_active: true,
            confirm_blocks: 1,
            is_native: true,
            explorer: "https://explorer-testnet.zbx.network",
        }
    }

    /// The descriptor of Ethereum Mainnet (chain id 1).
    pub fn ethereum() -> (r: Self)
        ensures
            r.chain_id == CHAIN_ETHEREUM,
            r.name@ == "Ethereum Mainnet"@,
            r.short_name@ == "eth"@,
            r.rpc_endpoint@ == "https://eth.llamarpc.com"@,
            r.block_time_ms == 12000,
            r.finality == (FinalityModel::Probabilistic { safe_blocks: 12 }),
            r.gas_token@ == "ETH"@,
            r.relay_active == true,
            r.confirm_blocks == 12,
            r.is_native == false,
            r.explorer@ == "https://etherscan.io"@,
    {
        NetworkDescriptor {
            chain_id: CHAIN_ETHEREUM,
            name: "Ethereum Mainnet",
            short_name: "eth",
            rpc_endpoint: "https://eth.llamarpc.com",
            block_time_ms: 12000,
            finality: FinalityModel::Probabilistic { safe_blocks: 12 },
            gas_token: "ETH",
            relay_active: true,
            confirm_blocks: 12,
            is_native: false,
            explorer: "https://etherscan.io",
        }
    }

    /// The descriptor of BNB Smart Chain (chain id 56).
    pub fn bsc() -> (r: Self)
        ensures
            r.chain_id == CHAIN_BSC,
            r.name@ == "BNB Smart Chain"@,
            r.short_name@ == "bsc"@,
            r.rpc_endpoint@ == "https://bsc-dataseed.binance.org"@,
            r.block_time_ms == 3000,
            r.finality == (FinalityModel::Probabilistic { safe_blocks: 15 }),
            r.gas_token@ == "BNB"@,
            r.relay_active == true,
            r.confirm_blocks == 15,
            r.is_native == false,
            r.explorer@ == "https://bscscan.com"@,
    {
        NetworkDescriptor {
            chain_id: CHAIN_BSC,
            name: "BNB Smart Chain",
            short_name: "bsc",
            rpc_endpoint: "https://bsc-dataseed.binance.org",
            block_time_ms: 3000,
            finality: FinalityModel::Probabilistic { safe_blocks: 15 },
            gas_token: "BNB",
            relay_active: true,
            confirm_blocks: 15,
            is_native: false,
            explorer: "https://bscscan.com",
        }
    }

    /// The descriptor of Polygon Mainnet (chain id 137).
    pub fn polygon() -> (r: Self)
        ensures
            r.chain_id == CHAIN_POLYGON,
            r.name@ == "Polygon Mainnet"@,
            r.short_name@ == "poly"@,
            r.rpc_endpoint@ == "https://polygon-rpc.com"@,
            r.block_time_ms == 2000,
            r.finality == (FinalityModel::Probabilistic { safe_blocks: 128 }),
            r.gas_token@ == "MATIC"@,
            r.relay_active == true,
            r.confirm_blocks == 128,
            r.is_native == false,
            r.explorer@ == "https://polygonscan.com"@,
    {
        NetworkDescriptor {
            chain_id: CHAIN_POLYGON,
            name: "Polygon Mainnet",
            short_name: "poly",
            rpc_endpoint: "https://polygon-rpc.com",
            block_time_ms: 2000,
            finality: FinalityModel::Probabilistic { safe_blocks: 128 },
            gas_token: "MATIC",
            relay_active: true,
            confirm_blocks: 128,
            is_native: false,
            explorer: "https://polygonscan.com",
        }
    }

    /// The descriptor of Arbitrum One (chain id 42161).
    pub fn arbitrum() -> (r: Self)
        ensures
            r.chain_id == CHAIN_ARBITRUM,
            r.name@ == "Arbitrum One"@,
            r.short_name@ == "arb"@,
            r.rpc_endpoint@ == "https://arb1.arbitrum.io/rpc"@,
            r.block_time_ms == 250,
            r.finality == (FinalityModel::OptimisticRollup { challenge_window_secs: 604_800 }),
            r.gas_token@ == "ETH"@,
            r.relay_active == true,
            r.confirm_blocks == 1,
            r.is_native == false,
            r.explorer@ == "https://arbiscan.io"@,
    {
        NetworkDescriptor {
            chain_id: CHAIN_ARBITRUM,
            name: "Arbitrum One",
            short_name: "arb",
            rpc_endpoint: "https://arb1.arbitrum.io/rpc",
            block_time_ms: 250,
            finality: FinalityModel::OptimisticRollup { challenge_window_secs: 604_800 },
            gas_token: "ETH",
            relay_active: true,
            confirm_blocks: 1,
            is_native: false,
            explorer: "https://arbiscan.io",
        }
    }

    /// The descriptor of Optimism Mainnet (chain id 10).
    pub fn optimism() -> (r: Self)
        ensures
            r.chain_id == CHAIN_OPTIMISM,
            r.name@ == "Optimism Mainnet"@,
            r.short_name@ == "op"@,
            r.rpc_endpoint@ == "https://mainnet.optimism.io"@,
            r.block_time_ms == 2000,
            r.finality == (FinalityModel::OptimisticRollup { challenge_window_secs: 604_800 }),
            r.gas_token@ == "ETH"@,
            r.relay_active == true,
            r.confirm_blocks == 1,
            r.is_native == false,
            r.explorer@ == "https://optimistic.etherscan.io"@,
    {
        NetworkDescriptor {
            chain_id: CHAIN_OPTIMISM,
            name: "Optimism Mainnet",
            short_name: "op",
            rpc_endpoint: "https://mainnet.optimism.io",
            block_time_ms: 2000,
            finality: FinalityModel::OptimisticRollup { challenge_window_secs: 604_800 },
            gas_token: "ETH",
            relay_active: true,
            confirm_blocks: 1,
            is_native: false,
            explorer: "https://optimistic.etherscan.io",
        }
    }

    /// The descriptor of Avalanche C-Chain (chain id 43114).
    pub fn avalanche() -> (r: Self)
        ensures
            r.chain_id == CHAIN_AVALANCHE,
            r.name@ == "Avalanche C-Chain"@,
            r.short_name@ == "avax"@,
            r.rpc_endpoint@ == "https://api.avax.network/ext/bc/C/rpc"@,
            r.block_time_ms == 2000,
            r.finality == FinalityModel::Instant,
            r.gas_token@ == "AVAX"@,
            r.relay_active == true,
            r.confirm_blocks == 1,
            r.is_native == false,
            r.explorer@ == "https://snowtrace.io"@,
    {
        NetworkDescriptor {
            chain_id: CHAIN_AVALANCHE,
            name: "Avalanche C-Chain",
            short_name: "avax",
            rpc_endpoint: "https://api.avax.network/ext/bc/C/rpc",
            block_time_ms: 2000,
            finality: FinalityModel::Instant,
            gas_token: "AVAX",
            relay_active: true,
            confirm_blocks: 1,
            is_native: false,
            explorer: "https://snowtrace.io",
        }
    }

    /// All supported networks, in the order of `all_chain_ids`.
    pub fn all() -> (r: Vec<Self>)
        ensures
            r@.len() == 8,
            forall|i: int| 0 <= i < 8 ==> #[trigger] r@[i].chain_id == all_chain_ids()[i],
            forall|i: int| 0 <= i < 8 ==> (#[trigger] r@[i].is_native <==> i < 2),
            forall|i: int| 0 <= i < 8 ==> #[trigger] r@[i].relay_active,
    {
        let r = vec![
            Self::zbx_mainnet(),
            Self::zbx_testnet(),
            Self::ethereum(),
            Self::bsc(),
            Self::polygon(),
            Self::arbitrum(),
            Self::optimism(),
            Self::avalanche(),
        ];
        r
    }
}

/// A price as published on one network.
#[derive(Clone, Debug)]
pub struct NetworkPrice {
    pub chain_id: u64,
    pub feed_id: FeedId,
    pub price: Price,
    /// Round id on the target network.
    pub round_id: u64,
    /// When the price was accepted on the target chain.
    pub updated_at: u64,
    pub relay_gas_used: u64,
    pub is_relayed: bool,
}

/// A signed price update sent to a target chain.
#[derive(Clone, Debug)]
pub struct RelayMessage {
    pub source_chain: u64,
    pub target_chain: u64,
    pub feed_id: FeedId,
    pub price: Price,
    pub zbx_block: u64,
    pub round_id: u64,
    pub timestamp: u64,
    /// Aggregate signature over the signing payload.
    pub bls_signature: [u8; 96],
    /// Which committee members signed.
    pub signer_bitmap: u128,
}

impl RelayMessage {
    /// The bytes the oracle committee signs: the target chain (8 bytes,
    /// big-endian), the feed id's bytes, the price (16 bytes, two's
    /// complement), the round id and the timestamp (8 bytes each).
    pub open spec fn payload_spec(&self) -> Seq<u8> {
        be_bytes(self.target_chain as nat, 8) + encode_utf8(self.feed_id.0@)
            + be_bytes((self.price.0 as u128) as nat, 16) + be_bytes(self.round_id as nat, 8)
            + be_bytes(self.timestamp as nat, 8)
    }

    /// The canonical signing payload of this message.
    pub fn signing_payload(&self) -> (r: Vec<u8>)
        ensures
            r@ == self.payload_spec(),
    {
        let mut payload: Vec<u8> = Vec::new();
        push_be(&mut payload, self.target_chain as u128, 8);
        push_all(&mut payload, self.feed_id.0.as_str().as_bytes());
        push_be(&mut payload, self.price.0 as u128, 16);
        push_be(&mut payload, self.round_id as u128, 8);
        push_be(&mut payload, self.timestamp as u128, 8);
        payload
    }
}

/// Whether a network takes relayed prices.
pub open spec fn is_relay(n: NetworkDescriptor) -> bool {
    !n.is_native && n.relay_active
}

/// The supported networks and the latest price of each feed on each.
pub struct MultiChainRegistry {
    networks: Vec<NetworkDescriptor>,
    prices: Vec<NetworkPrice>,
}

impl MultiChainRegistry {
    /// The networks, in registry order.
    pub closed spec fn spec_networks(&self) -> Seq<NetworkDescriptor> {
        self.networks@
    }

    /// The recorded prices.
    pub closed spec fn spec_prices(&self) -> Seq<NetworkPrice> {
        self.prices@
    }

    /// One network per chain id, one price per (chain, feed).
    pub closed spec fn wf(&self) -> bool {
        &&& forall|i: int, j: int| 0 <= i < j < self.networks@.len()
            ==> #[trigger] self.networks@[i].chain_id != #[trigger] self.networks@[j].chain_id
        &&& forall|i: int, j: int| 0 <= i < j < self.prices@.len()
            ==> !(#[trigger] self.prices@[i].chain_id == #[trigger] self.prices@[j].chain_id
                && self.prices@[i].feed_id.0@ == self.prices@[j].feed_id.0@)
    }

    /// The network with `chain_id`, if registered.
    pub open spec fn network_spec(&self, chain_id: u64) -> Option<NetworkDescriptor> {
        if exists|i: int| 0 <= i < self.spec_networks().len() && self.spec_networks()[i].chain_id == chain_id {
            Some(self.spec_networks()[choose|i: int| 0 <= i < self.spec_networks().len()
                && self.spec_networks()[i].chain_id == chain_id])
        } else {
            None
        }
    }

    /// Whether a price for `feed` on `chain_id` is recorded at index `i`.
    pub open spec fn price_at(&self, i: int, chain_id: u64, feed: Seq<char>) -> bool {
        0 <= i < self.spec_prices().len() && self.spec_prices()[i].chain_id == chain_id
            && self.spec_prices()[i].feed_id.0@ == feed
    }

    /// The latest price of `feed` on `chain_id`, if any.
    pub open spec fn price_spec(&self, chain_id: u64, feed: Seq<char>) -> Option<NetworkPrice> {
        if exists|i: int| self.price_at(i, chain_id, feed) {
            Some(self.spec_prices()[choose|i: int| self.price_at(i, chain_id, feed)])
        } else {
            None
        }
    }

    /// The eight supported networks and no prices.
    pub fn new() -> (r: Self)
        ensures
            r.wf(),
            r.spec_networks().len() == 8,
            forall|i: int| 0 <= i < 8 ==> #[trigger] r.spec_networks()[i].chain_id == all_chain_ids()[i],
            forall|i: int| 0 <= i < 8 ==> (#[trigger] r.spec_networks()[i].is_native <==> i < 2),
            forall|i: int| 0 <= i < 8 ==> #[trigger] r.spec_networks()[i].relay_active,
            r.spec_prices().len() == 0,
    {
        let networks = NetworkDescriptor::all();
        let r = MultiChainRegistry { networks, prices: Vec::new() };
        proof {
            assert forall|i: int, j: int| 0 <= i < j < r.networks@.len()
                implies #[trigger] r.networks@[i].chain_id != #[trigger] r.networks@[j].chain_id by {
                assert(r.networks@[i].chain_id == all_chain_ids()[i]);
                assert(r.networks@[j].chain_id == all_chain_ids()[j]);
            }
        }
        r
    }

    /// All registered networks.
    pub fn networks(&self) -> (r: Vec<&NetworkDescriptor>)
        ensures
            r@.len() == self.spec_networks().len(),
            forall|i: int| 0 <= i < r@.len() ==> *#[trigger] r@[i] == self.spec_networks()[i],
    {
        let mut r: Vec<&NetworkDescriptor> = Vec::new();
        let mut i: usize = 0;
        while i < self.networks.len()
            invariant
                0 <= i <= self.networks@.len(),
                r@.len() == i,
                forall|k: int| 0 <= k < i ==> *#[trigger] r@[k] == self.networks@[k],
            decreases self.networks@.len() - i,
        {
            r.push(&self.networks[i]);
            i += 1;
        }
        r
    }

    /// The number of networks.
    pub fn network_count(&self) -> (r: usize)
        ensures
            r == self.spec_networks().len(),
    {
        self.networks.len()
    }

    /// The number of networks that take relayed prices.
    pub fn relay_network_count(&self) -> (r: usize)
        ensures
            r == self.spec_networks().filter(|n: NetworkDescriptor| is_relay(n)).len(),
    {
        let ghost pred = |n: NetworkDescriptor| is_relay(n);
        let mut count: usize = 0;
        let mut i: usize = 0;
        while i < self.networks.len()
            invariant
                pred == (|n: NetworkDescriptor| is_relay(n)),
                0 <= i <= self.networks@.len(),
                count == self.networks@.subrange(0, i as int).filter(pred).len(),
                count <= i,
            decreases self.networks@.len() - i,
        {
            let n = self.networks[i];
            proof {
                let s = self.networks@.subrange(0, i + 1);
                reveal_with_fuel(Seq::<NetworkDescriptor>::filter, 2);
                assert(s.drop_last() =~= self.networks@.subrange(0, i as int));
                assert(s.last() == n);
            }
            if !n.is_native && n.relay_active {
                count = count + 1;
            }
            i += 1;
        }
        proof {
            assert(self.networks@.subrange(0, i as int) =~= self.networks@);
        }
        count
    }

    fn find_network(&self, chain_id: u64) -> (r: Option<usize>)
        requires
            self.wf(),
        ensures
            match r {
                Some(i) => i < self.spec_networks().len() && self.network_spec(chain_id) == Some(self.spec_networks()[i as int]),
                None => self.network_spec(chain_id) is None,
            },
    {
        let mut i: usize = 0;
        while i < self.networks.len()
            invariant
                self.wf(),
                0 <= i <= self.networks@.len(),
                forall|k: int| 0 <= k < i ==> #[trigger] self.networks@[k].chain_id != chain_id,
            decreases self.networks@.len() - i,
        {
            if self.networks[i].chain_id == chain_id {
                proof {
                    let k = choose|k: int| 0 <= k < self.spec_networks().len() && self.spec_networks()[k].chain_id == chain_id;
                    if k != i as int {
                        if k < i as int {
                            assert(self.networks@[k].chain_id != self.networks@[i as int].chain_id);
                        } else {
                            assert(self.networks@[i as int].chain_id != self.networks@[k].chain_id);
                        }
                    }
                }
                return Some(i);
            }
            i += 1;
        }
        None
    }

    /// The descriptor of `chain_id`, if it is supported.
    pub fn network(&self, chain_id: u64) -> (r: Option<&NetworkDescriptor>)
        requires
            self.wf(),
        ensures
            match r {
                Some(n) => self.network_spec(chain_id) == Some(*n),
                None => self.network_spec(chain_id) is None,
            },
    {
        match self.find_network(chain_id) {
            Some(i) => Some(&self.networks[i]),
            None => None,
        }
    }

    fn find_price(&self, chain_id: u64, feed_id: &FeedId) -> (r: Option<usize>)
        requires
            self.wf(),
        ensures
            match r {
                Some(i) => self.price_at(i as int, chain_id, feed_id.0@)
                    && self.price_spec(chain_id, feed_id.0@) == Some(self.spec_prices()[i as int]),
                None => self.price_spec(chain_id, feed_id.0@) is None,
            },
    {
        let mut i: usize = 0;
        while i < self.prices.len()
            invariant
                self.wf(),
                0 <= i <= self.prices@.len(),
                forall|k: int| 0 <= k < i ==> !#[trigger] self.price_at(k, chain_id, feed_id.0@),
            decreases self.prices@.len() - i,
        {
            if self.prices[i].chain_id == chain_id && self.prices[i].feed_id == *feed_id {
                proof {
                    assert(self.price_at(i as int, chain_id, feed_id.0@));
                    let k = choose|k: int| self.price_at(k, chain_id, feed_id.0@);
                    if k != i as int {
                        if k < i as int {
                            assert(!(self.prices@[k].chain_id == self.prices@[i as int].chain_id
                                && self.prices@[k].feed_id.0@ == self.prices@[i as int].feed_id.0@));
                        } else {
                            assert(!(self.prices@[i as int].chain_id == self.prices@[k].chain_id
                                && self.prices@[i as int].feed_id.0@ == self.prices@[k].feed_id.0@));
                        }
                    }
                }
                return Some(i);
            }
            assert(!self.price_at(i as int, chain_id, feed_id.0@));
            i += 1;
        }
        None
    }

    /// Records `price` as the latest for its (chain, feed), replacing any
    /// earlier one.
    pub fn record_price(&mut self, price: NetworkPrice)
        requires
            old(self).wf(),
        ensures
            final(self).wf(),
            final(self).spec_networks() == old(self).spec_networks(),
            final(self).price_spec(price.chain_id, price.feed_id.0@) == Some(price),
            forall|c: u64, f: Seq<char>| !(c == price.chain_id && f == price.feed_id.0@)
                ==> #[trigger] final(self).price_spec(c, f) == old(self).price_spec(c, f),
    {
        match self.find_price(price.chain_id, &price.feed_id) {
            Some(i) => {
                self.prices.set(i, price);
                proof {
                    assert forall|a: int, b: int| 0 <= a < b < self.prices@.len() implies
                        !(#[trigger] self.prices@[a].chain_id == #[trigger] self.prices@[b].chain_id
                            && self.prices@[a].feed_id.0@ == self.prices@[b].feed_id.0@) by {
                        assert(!(old(self).prices@[a].chain_id == old(self).prices@[b].chain_id
                            && old(self).prices@[a].feed_id.0@ == old(self).prices@[b].feed_id.0@));
                    }
                    assert(self.price_at(i as int, price.chain_id, price.feed_id.0@));
                    let k = choose|k: int| self.price_at(k, price.chain_id, price.feed_id.0@);
                    if k != i as int {
                        if k < i as int {
                            assert(!(self.prices@[k].chain_id == self.prices@[i as int].chain_id
                                && self.prices@[k].feed_id.0@ == self.prices@[i as int].feed_id.0@));
                        } else {
                            assert(!(self.prices@[i as int].chain_id == self.prices@[k].chain_id
                                && self.prices@[i as int].feed_id.0@ == self.prices@[k].feed_id.0@));
                        }
                    }
                    assert forall|c: u64, f: Seq<char>| !(c == price.chain_id && f == price.feed_id.0@)
                        implies #[trigger] self.price_spec(c, f) == old(self).price_spec(c, f) by {
                        assert forall|j: int| #[trigger] self.price_at(j, c, f) == old(self).price_at(j, c, f) by {}
                        Self::lemma_price_spec_eq(*old(self), *self, c, f);
                    }
                }
            },
            None => {
                let ghost op = old(self).prices@;
                self.prices.push(price);
                proof {
                    let n = op.len() as int;
                    assert forall|a: int, b: int| 0 <= a < b < self.prices@.len() implies
                        !(#[trigger] self.prices@[a].chain_id == #[trigger] self.prices@[b].chain_id
                            && self.prices@[a].feed_id.0@ == self.prices@[b].feed_id.0@) by {
                        if b == n {
                            assert(!old(self).price_at(a, price.chain_id, price.feed_id.0@));
                        } else {
                            assert(!(op[a].chain_id == op[b].chain_id && op[a].feed_id.0@ == op[b].feed_id.0@));
                        }
                    }
                    assert(self.price_at(n, price.chain_id, price.feed_id.0@));
                    let k = choose|k: int| self.price_at(k, price.chain_id, price.feed_id.0@);
                    if k != n {
                        assert(old(self).price_at(k, price.chain_id, price.feed_id.0@));
                    }
                    assert forall|c: u64, f: Seq<char>| !(c == price.chain_id && f == price.feed_id.0@)
                        implies #[trigger] self.price_spec(c, f) == old(self).price_spec(c, f) by {
                        assert forall|j: int| #[trigger] self.price_at(j, c, f) == old(self).price_at(j, c, f) by {}
                        Self::lemma_price_spec_eq(*old(self), *self, c, f);
                    }
                }
            },
        }
    }

    proof fn lemma_price_spec_eq(s1: Self, s2: Self, c: u64, f: Seq<char>)
        requires
            s1.wf(),
            s2.wf(),
            forall|j: int| #[trigger] s2.price_at(j, c, f) == s1.price_at(j, c, f),
            forall|j: int| s1.price_at(j, c, f) ==> s2.spec_prices()[j] == s1.spec_prices()[j],
        ensures
            s2.price_spec(c, f) == s1.price_spec(c, f),
    {
        if exists|j: int| s1.price_at(j, c, f) {
            let j1 = choose|j: int| s1.price_at(j, c, f);
            assert(s2.price_at(j1, c, f));
            let j2 = choose|j: int| s2.price_at(j, c, f);
            if j1 != j2 {
                if j1 < j2 {
                    assert(!(s2.prices@[j1].chain_id == s2.prices@[j2].chain_id
                        && s2.prices@[j1].feed_id.0@ == s2.prices@[j2].feed_id.0@));
                } else {
                    assert(!(s2.prices@[j2].chain_id == s2.prices@[j1].chain_id
                        && s2.prices@[j2].feed_id.0@ == s2.prices@[j1].feed_id.0@));
                }
            }
        } else {
            assert(!exists|j: int| s2.price_at(j, c, f));
        }
    }

    /// The latest price of `feed_id` on `chain_id`.
    pub fn latest_price(&self, chain_id: u64, feed_id: &FeedId) -> (r: Option<&NetworkPrice>)
        requires
            self.wf(),
        ensures
            match r {
                Some(p) => self.price_spec(chain_id, feed_id.0@) == Some(*p),
                None => self.price_spec(chain_id, feed_id.0@) is None,
            },
    {
        match self.find_price(chain_id, feed_id) {
            Some(i) => Some(&self.prices[i]),
            None => None,
        }
    }

    /// The prices of `feed_id` on every network that has one, in the order
    /// they were first recorded.
    pub fn cross_chain_prices(&self, feed_id: &FeedId) -> (r: Vec<&NetworkPrice>)
        ensures
            r@.len() == self.spec_prices().filter(|p: NetworkPrice| p.feed_id.0@ == feed_id.0@).len(),
            forall|i: int| 0 <= i < r@.len() ==> *#[trigger] r@[i]
                == self.spec_prices().filter(|p: NetworkPrice| p.feed_id.0@ == feed_id.0@)[i],
    {
        let ghost pred = |p: NetworkPrice| p.feed_id.0@ == feed_id.0@;
        let mut r: Vec<&NetworkPrice> = Vec::new();
        let mut i: usize = 0;
        while i < self.prices.len()
            invariant
                pred == (|p: NetworkPrice| p.feed_id.0@ == feed_id.0@),
                0 <= i <= self.prices@.len(),
                r@.len() == self.prices@.subrange(0, i as int).filter(pred).len(),
                forall|k: int| 0 <= k < r@.len() ==> *#[trigger] r@[k] == self.prices@.subrange(0, i as int).filter(pred)[k],
            decreases self.prices@.len() - i,
        {
            let ghost before = self.prices@.subrange(0, i as int).filter(pred);
            proof {
                let s = self.prices@.subrange(0, i + 1);
                reveal_with_fuel(Seq::<NetworkPrice>::filter, 2);
                assert(s.drop_last() =~= self.prices@.subrange(0, i as int));
                assert(s.last() == self.prices@[i as int]);
            }
            if self.prices[i].feed_id == *feed_id {
                r.push(&self.prices[i]);
            }
            i += 1;
        }
        proof {
            assert(self.prices@.subrange(0, i as int) =~= self.prices@);
        }
        r
    }

    /// Whether the relay network `n` needs a fresh price of `feed`: none
    /// recorded, or the last one more than `max_age_secs` old at `now`.
    pub open spec fn needs_relay(&self, n: NetworkDescriptor, feed: Seq<char>, now: u64, max_age_secs: u64) -> bool {
        is_relay(n) && match self.price_spec(n.chain_id, feed) {
            None => true,
            Some(p) => (if now >= p.updated_at { now - p.updated_at } else { 0 }) > max_age_secs,
        }
    }

    /// The relay networks whose price of `feed_id` is missing or stale, in
    /// registry order.
    pub fn stale_relays(&self, feed_id: &FeedId, now: u64, max_age_secs: u64) -> (r: Vec<u64>)
        requires
            self.wf(),
        ensures
            r@ == self.spec_networks().filter(|n: NetworkDescriptor| self.needs_relay(n, feed_id.0@, now, max_age_secs))
                .map_values(|n: NetworkDescriptor| n.chain_id),
    {
        let ghost pred = |n: NetworkDescriptor| self.needs_relay(n, feed_id.0@, now, max_age_secs);
        let ghost f = |n: NetworkDescriptor| n.chain_id;
        let mut r: Vec<u64> = Vec::new();
        let mut i: usize = 0;
        while i < self.networks.len()
            invariant
                self.wf(),
                pred == (|n: NetworkDescriptor| self.needs_relay(n, feed_id.0@, now, max_age_secs)),
                f == (|n: NetworkDescriptor| n.chain_id),
                0 <= i <= self.networks@.len(),
                r@ == self.networks@.subrange(0, i as int).filter(pred).map_values(f),
            decreases self.networks@.len() - i,
        {
            let n = self.networks[i];
            let stale = if !n.is_native && n.relay_active {
                match self.find_price(n.chain_id, feed_id) {
                    None => true,
                    Some(k) => now.saturating_sub(self.prices[k].updated_at) > max_age_secs,
                }
            } else {
                false
            };
            proof {
                let s = self.networks@.subrange(0, i + 1);
                reveal_with_fuel(Seq::<NetworkDescriptor>::filter, 2);
                assert(s.drop_last() =~= self.networks@.subrange(0, i as int));
                assert(s.last() == n);
                assert(stale == pred(n));
            }
            if stale {
                r.push(n.chain_id);
            }
            proof {
                let s = self.networks@.subrange(0, i + 1);
                let prev = self.networks@.subrange(0, i as int).filter(pred);
                if stale {
                    assert(s.filter(pred) == prev.push(n));
                    assert(prev.push(n).map_values(f) =~= prev.map_values(f).push(n.chain_id));
                } else {
                    assert(s.filter(pred) == prev);
                }
            }
            i += 1;
        }
        proof {
            assert(self.networks@.subrange(0, i as int) =~= self.networks@);
        }
        r
    }

    /// Whether `chain_id` is one of the ZBX chains.
    pub fn is_native(&self, chain_id: u64) -> (r: bool)
        ensures
            r == (chain_id == CHAIN_ZBX_MAINNET || chain_id == CHAIN_ZBX_TESTNET),
    {
        chain_id == CHAIN_ZBX_MAINNET || chain_id == CHAIN_ZBX_TESTNET
    }
}

impl Default for MultiChainRegistry {
    fn default() -> (r: Self)
        ensures
            r.wf(),
            r.spec_networks().len() == 8,
            r.spec_prices().len() == 0,
    {
        Self::new()
    }
}

} // verus!
