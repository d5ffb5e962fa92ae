//! The pool factory: creates one pool per token pair for a fee paid to the
//! protocol treasury, at an address derived from the pair and fee tier.

use vstd::prelude::*;
use crate::common::Address;
use crate::crypto::{push_all, sha3_256, sha3_256_spec};
use crate::pool::error::AmmError;
use crate::pool::fee::FeeTier;
use crate::pool::pair::{Pair, PairId};
use crate::pool::registry::FeeRegistry;
use crate::table::{Table, TableKey};

verus! {

/// The pool creation fee (500 ZBX in wei).
pub const POOL_CREATION_FEE_WEI: u128 = 500_000_000_000_000_000_000;

/// The protocol treasury, which receives creation fees.
pub const PROTOCOL_TREASURY: [u8; 20] = [
    0xFF, 0xFF, 0x00, 0x00, 0x00, 0x00, 0x00, 0x00,
    0x00, 0x00, 0x00, 0x00, 0x00, 0x00, 0x00, 0x00,
    0x00, 0x00, 0x00, 0x01,
];

/// The record of a pool creation.
#[derive(Debug, Clone, Copy)]
pub struct PoolCreatedEvent {
    pub pair_id: PairId,
    pub fee_tier: FeeTier,
    pub pool_address: Address,
    pub creator: Address,
    pub creation_fee: u128,
    pub block_number: u64,
}

/// What is known of a pool.
#[derive(Debug, Clone, Copy)]
pub struct PoolRecord {
    pub pair_id: PairId,
    pub fee_tier: FeeTier,
    pub pool_address: Address,
    pub creator: Address,
    pub created_at: u64,
    /// Swap volume recorded so far.
    pub total_volume: u128,
}

/// The bytes hashed into a pool address: both token addresses and the
/// fee in basis points as one byte.
pub open spec fn pool_address_input(pair_id: PairId, fee_tier: FeeTier) -> Seq<u8> {
    pair_id.token_a.0@ + pair_id.token_b.0@ + seq![fee_tier.spec_bps() as u8]
}

/// The pool address of a pair and fee tier: the first 20 bytes of the
/// SHA3-256 digest of `pool_address_input`.
pub open spec fn pool_address_spec(pair_id: PairId, fee_tier: FeeTier) -> Seq<u8> {
    sha3_256_spec(pool_address_input(pair_id, fee_tier)).subrange(0, 20)
}

/// The deterministic pool address of a pair and fee tier.
pub fn derive_pool_address(pair_id: &PairId, fee_tier: FeeTier) -> (r: Address)
    ensures
        r.0@ == pool_address_spec(*pair_id, fee_tier),
{
    let mut input: Vec<u8> = Vec::new();
    push_all(&mut input, &pair_id.token_a.0);
    push_all(&mut input, &pair_id.token_b.0);
    input.push(fee_tier.bps() as u8);
    let digest = sha3_256(input.as_slice());
    let mut bytes = [0u8; 20];
    let mut i: usize = 0;
    while i < 20
        invariant
            0 <= i <= 20,
            digest@.len() == 32,
            forall|k: int| 0 <= k < i ==> bytes@[k] == digest@[k],
        decreases 20 - i,
    {
        bytes[i] = digest[i];
        i += 1;
    }
    proof {
        assert(input@ =~= pool_address_input(*pair_id, fee_tier));
        assert(bytes@ =~= digest@.subrange(0, 20));
    }
    Address(bytes)
}

/// The outcome of creating the pool of `token_a`/`token_b` on `s`,
/// leaving `t` and answering `r`.
pub open spec fn create_pool_post(s: PoolFactory, t: PoolFactory, token_a: Address, token_b: Address, fee_tier: FeeTier,
    creator: Address, creator_zbx_balance: u128, block_number: u64, r: Result<(Address, u128), AmmError>) -> bool {

                let pid = PairId { token_a: if crate::common::lex_lt(token_a.0@, token_b.0@) { token_a } else { token_b },
                    token_b: if crate::common::lex_lt(token_a.0@, token_b.0@) { token_b } else { token_a } };
                let fee = s.spec_fees().pool_creation_fee;
                if token_a == token_b {
                    r matches Err(AmmError::IdenticalTokens) && t == s
                } else if s.pairs.view().dom().contains(pid) {
                    r matches Err(AmmError::PoolAlreadyExists) && t == s
                } else if creator_zbx_balance < fee {
                    (r matches Err(AmmError::InsufficientCreationFee { have, need }) && have == creator_zbx_balance && need == fee)
                        && t == s
                } else {
                    r matches Ok((addr, collected)) && {
                        &&& addr.0@ == pool_address_spec(pid, fee_tier)
                        &&& collected == fee
                        &&& t.treasury_balance == (if s.treasury_balance + fee > u128::MAX {
                            u128::MAX } else { (s.treasury_balance + fee) as u128 })
                        &&& t.pairs.view().dom() == s.pairs.view().dom().insert(pid)
                        &&& forall|q: PairId| q != pid && s.pairs.view().dom().contains(q)
                            ==> #[trigger] t.pairs.view()[q] == s.pairs.view()[q]
                        &&& t.pairs.view()[pid].id == pid
                        &&& t.pairs.view()[pid].fee_tier == fee_tier
                        &&& t.pairs.view()[pid].reserve_a == 0 && t.pairs.view()[pid].reserve_b == 0
                        &&& t.pairs.view()[pid].total_lp == 0
                        &&& t.spec_records()[pid] == (PoolRecord { pair_id: pid, fee_tier, pool_address: addr,
                            creator, created_at: block_number, total_volume: 0 })
                        &&& t.events@ == s.events@.push(PoolCreatedEvent { pair_id: pid, fee_tier,
                            pool_address: addr, creator, creation_fee: fee, block_number })
                    }
                }
}

/// All pools, their records and the fees collected.
pub struct PoolFactory {
    /// Live pools by pair.
    pub pairs: Table<PairId, Pair>,
    /// Pool records by pair.
    pub pool_records: Table<PairId, PoolRecord>,
    /// Creation events, oldest first.
    pub events: Vec<PoolCreatedEvent>,
    /// Creation fees collected (saturating).
    pub treasury_balance: u128,
    /// Platform fees.
    pub fee_registry: FeeRegistry,
}

impl PoolFactory {
    /// The pool records.
    pub open spec fn spec_records(&self) -> Map<PairId, PoolRecord> {
        self.pool_records.view()
    }

    /// The fee registry.
    pub open spec fn spec_fees(&self) -> FeeRegistry {
        self.fee_registry
    }

    /// Internal consistency: the tables are well formed and there is a
    /// record for exactly the pairs that exist.
    pub open spec fn wf(&self) -> bool {
        &&& self.pairs.wf()
        &&& self.pool_records.wf()
        &&& self.pairs.view().dom() == self.pool_records.view().dom()
    }

    /// No pool; default fees.
    pub fn new() -> (r: Self)
        ensures
            r.wf(),
            r.pairs.view() == Map::<PairId, Pair>::empty(),
            r.events@.len() == 0,
            r.treasury_balance == 0,
            r.spec_fees().has_default_fees(),
    {
        let r = PoolFactory {
            pairs: Table::new(),
            pool_records: Table::new(),
            events: Vec::new(),
            treasury_balance: 0,
            fee_registry: FeeRegistry::default(),
        };
        proof {
            assert(r.pairs.view().dom() =~= r.pool_records.view().dom());
        }
        r
    }

    /// Creates the pool of `token_a`/`token_b`: the tokens must differ, the
    /// pair must not have a pool, and the creator must hold the creation
    /// fee, which goes to the treasury (saturating). Returns the pool
    /// address and the fee collected.
    pub fn create_pool(&mut self, token_a: Address, token_b: Address, fee_tier: FeeTier, creator: Address,
        creator_zbx_balance: u128, block_number: u64) -> (r: Result<(Address, u128), AmmError>)
        requires
            old(self).wf(),
        ensures
            final(self).wf(),
            final(self).spec_fees() == old(self).spec_fees(),
            create_pool_post(*old(self), *final(self), token_a, token_b, fee_tier, creator, creator_zbx_balance, block_number, r),
    {
        if token_a.same(&token_b) {
            return Err(AmmError::IdenticalTokens);
        }
        let pair_id = PairId::new(token_a, token_b);
        if self.pairs.contains(&pair_id) {
            return Err(AmmError::PoolAlreadyExists);
        }
        let creation_fee = self.fee_registry.pool_creation_fee();
        if creator_zbx_balance < creation_fee {
            return Err(AmmError::InsufficientCreationFee { have: creator_zbx_balance, need: creation_fee });
        }
        let pool_address = derive_pool_address(&pair_id, fee_tier);
        self.treasury_balance = self.treasury_balance.saturating_add(creation_fee);
        self.pairs.set(pair_id, Pair::new(pair_id, fee_tier));
        let record = PoolRecord {
            pair_id,
            fee_tier,
            pool_address,
            creator,
            created_at: block_number,
            total_volume: 0,
        };
        self.pool_records.set(pair_id, record);
        self.events.push(PoolCreatedEvent { pair_id, fee_tier, pool_address, creator, creation_fee, block_number });
        proof {
            assert(self.pairs.view().dom() =~= self.pool_records.view().dom());
            assert(self.pairs.view().dom() =~= old(self).pairs.view().dom().insert(pair_id));
        }
        Ok((pool_address, creation_fee))
    }

    /// The pool of `pair_id`.
    pub fn get_pair(&self, pair_id: &PairId) -> (r: Option<&Pair>)
        requires
            self.wf(),
        ensures
            r matches Some(p) ==> self.pairs.view().dom().contains(*pair_id) && self.pairs.view()[*pair_id] == *p,
            r is None ==> !self.pairs.view().dom().contains(*pair_id),
    {
        self.pairs.get(pair_id)
    }

    /// The record of `pair_id`.
    pub fn get_record(&self, pair_id: &PairId) -> (r: Option<&PoolRecord>)
        requires
            self.wf(),
        ensures
            r matches Some(p) ==> self.spec_records().dom().contains(*pair_id) && self.spec_records()[*pair_id] == *p,
            r is None ==> !self.spec_records().dom().contains(*pair_id),
    {
        self.pool_records.get(pair_id)
    }

    /// The number of pools.
    pub fn pool_count(&self) -> (r: usize)
        ensures
            r == self.pairs.spec_entries().len(),
    {
        self.pairs.len()
    }

    /// The pairs that have a pool.
    pub fn all_pair_ids(&self) -> (r: Vec<PairId>)
        requires
            self.wf(),
        ensures
            r@.len() == self.pairs.spec_entries().len(),
            forall|i: int| 0 <= i < r@.len() ==> r@[i] == #[trigger] self.pairs.spec_entries()[i].0,
            forall|q: PairId| self.pairs.view().dom().contains(q) <==> r@.contains(q),
    {
        let mut out: Vec<PairId> = Vec::new();
        let mut i: usize = 0;
        while i < self.pairs.len()
            invariant
                self.pairs.wf(),
                0 <= i <= self.pairs.spec_entries().len(),
                out@.len() == i,
                forall|k: int| 0 <= k < i ==> out@[k] == #[trigger] self.pairs.spec_entries()[k].0,
            decreases self.pairs.spec_entries().len() - i,
        {
            out.push(*self.pairs.key_at(i));
            i += 1;
        }
        proof {
            assert forall|q: PairId| self.pairs.view().dom().contains(q) <==> out@.contains(q) by {
                if self.pairs.view().dom().contains(q) {
                    self.pairs.lemma_view_has_entry(q);
                    let k = choose|k: int| 0 <= k < self.pairs.spec_entries().len() && (#[trigger] self.pairs.spec_entries()[k]).0 == q;
                    assert(out@[k] == q);
                }
                if out@.contains(q) {
                    let k = choose|k: int| 0 <= k < out@.len() && out@[k] == q;
                    self.pairs.lemma_entry_in_view(k);
                }
            }
        }
        out
    }

    /// The fee registry.
    pub fn fee_registry(&self) -> (r: &FeeRegistry)
        ensures
            *r == self.spec_fees(),
    {
        &self.fee_registry
    }

    /// Adds swap volume to a pool's record (saturating); nothing happens
    /// for an unknown pair.
    pub fn record_volume(&mut self, pair_id: &PairId, volume_wei: u128)
        requires
            old(self).wf(),
        ensures
            final(self).wf(),
            final(self).pairs == old(self).pairs,
            final(self).events == old(self).events,
            final(self).treasury_balance == old(self).treasury_balance,
            final(self).spec_fees() == old(self).spec_fees(),
            !old(self).spec_records().dom().contains(*pair_id) ==> final(self).spec_records() == old(self).spec_records(),
            old(self).spec_records().dom().contains(*pair_id) ==> final(self).spec_records()
                == old(self).spec_records().insert(*pair_id, PoolRecord {
                    total_volume: if old(self).spec_records()[*pair_id].total_volume + volume_wei > u128::MAX { u128::MAX }
                        else { (old(self).spec_records()[*pair_id].total_volume + volume_wei) as u128 },
                    ..old(self).spec_records()[*pair_id] }),
    {
        let rec = match self.pool_records.get(pair_id) {
            Some(r) => *r,
            None => return,
        };
        self.pool_records.set(*pair_id, PoolRecord { total_volume: rec.total_volume.saturating_add(volume_wei), ..rec });
        proof {
            assert(self.pairs.view().dom() =~= self.pool_records.view().dom());
        }
    }
}

} // verus!
