//! The merchants of the payment gateway, cached off chain, with the
//! merchants of each owner and each merchant's lifetime volume per token.

use vstd::prelude::*;
use crate::common::Address;
use crate::table::Table;

verus! {

/// A merchant record.
#[derive(Debug)]
pub struct Merchant {
    pub merchant_id: [u8; 32],
    pub owner: Address,
    pub name: String,
    pub payout_address: Address,
    pub active: bool,
    /// Token → total received.
    pub lifetime_volume: Table<Address, u128>,
}

/// The volume `m` received in `token` (zero if none).
pub open spec fn volume_of(m: Merchant, token: Address) -> int {
    if m.lifetime_volume.view().dom().contains(token) { m.lifetime_volume.view()[token] as int } else { 0 }
}

/// The merchants of `ids` that are registered, in order (unknown ids are
/// skipped), among the first `k` ids.
pub open spec fn registered(ids: Seq<[u8; 32]>, ms: Map<[u8; 32], Merchant>, k: int) -> Seq<Merchant>
    decreases k,
{
    if k <= 0 {
        Seq::empty()
    } else if ms.dom().contains(ids[k - 1]) {
        registered(ids, ms, k - 1).push(ms[ids[k - 1]])
    } else {
        registered(ids, ms, k - 1)
    }
}

/// All merchants, and the merchant ids of each owner in order of insertion.
#[derive(Debug)]
pub struct MerchantRegistry {
    merchants: Table<[u8; 32], Merchant>,
    by_owner: Table<Address, Vec<[u8; 32]>>,
}

impl MerchantRegistry {
    /// Id → merchant.
    pub closed spec fn merchants(&self) -> Map<[u8; 32], Merchant> {
        self.merchants.view()
    }

    /// The ids inserted for `owner`, in order (an id may repeat when a
    /// merchant was inserted twice).
    pub closed spec fn ids_of(&self, owner: Address) -> Seq<[u8; 32]> {
        if self.by_owner.view().dom().contains(owner) { self.by_owner.view()[owner]@ } else { Seq::empty() }
    }

    /// Both tables are well formed, and so is every merchant's volume table.
    pub closed spec fn wf(&self) -> bool {
        &&& self.merchants.wf()
        &&& self.by_owner.wf()
        &&& forall|k: [u8; 32]| #[trigger] self.merchants.view().dom().contains(k)
            ==> self.merchants.view()[k].lifetime_volume.wf()
    }

    /// No merchants.
    pub fn new() -> (r: Self)
        ensures
            r.wf(),
            r.merchants() == Map::<[u8; 32], Merchant>::empty(),
            forall|o: Address| #[trigger] r.ids_of(o) == Seq::<[u8; 32]>::empty(),
    {
        MerchantRegistry { merchants: Table::new(), by_owner: Table::new() }
    }

    /// Stores `m` under its id (replacing any earlier record) and appends
    /// the id to its owner's list.
    pub fn insert(&mut self, m: Merchant)
        requires
            old(self).wf(),
            m.lifetime_volume.wf(),
        ensures
            final(self).wf(),
            final(self).merchants() == old(self).merchants().insert(m.merchant_id, m),
            final(self).ids_of(m.owner) == old(self).ids_of(m.owner).push(m.merchant_id),
            forall|o: Address| o != m.owner ==> #[trigger] final(self).ids_of(o) == old(self).ids_of(o),
    {
        let owner = m.owner;
        let id = m.merchant_id;
        let mut ids = match self.by_owner.take(&owner) {
            Some(v) => v,
            None => Vec::new(),
        };
        ids.push(id);
        self.by_owner.set(owner, ids);
        self.merchants.set(id, m);
    }

    /// The merchant `id`, if registered.
    pub fn get(&self, id: &[u8; 32]) -> (r: Option<&Merchant>)
        requires
            self.wf(),
        ensures
            match r {
                Some(m) => self.merchants().dom().contains(*id) && *m == self.merchants()[*id],
                None => !self.merchants().dom().contains(*id),
            },
    {
        self.merchants.get(id)
    }

    /// A mutable reference to merchant `id`, if registered; the registry
    /// stays well formed when the merchant's volume table does.
    pub fn get_mut(&mut self, id: &[u8; 32]) -> (r: Option<&mut Merchant>)
        requires
            old(self).wf(),
        ensures
            r is Some <==> old(self).merchants().dom().contains(*id),
            r is Some ==> *r->0 == old(self).merchants()[*id],
            r is Some ==> final(self).merchants() == old(self).merchants().insert(*id, *final(r->0))
                && (final(r->0).lifetime_volume.wf() ==> final(self).wf()),
            forall|o: Address| #[trigger] final(self).ids_of(o) == old(self).ids_of(o),
            r is None ==> final(self).merchants() == old(self).merchants() && final(self).wf(),
    {
        self.merchants.get_mut(id)
    }

    /// The registered merchants listed for `owner`, in order of insertion.
    pub fn by_owner(&self, owner: &Address) -> (r: Vec<&Merchant>)
        requires
            self.wf(),
        ensures
            r@.map_values(|m: &Merchant| *m) == registered(self.ids_of(*owner), self.merchants(),
                self.ids_of(*owner).len() as int),
    {
        let mut out: Vec<&Merchant> = Vec::new();
        match self.by_owner.get(owner) {
            None => {},
            Some(ids) => {
                let mut i: usize = 0;
                while i < ids.len()
                    invariant
                        self.wf(),
                        ids@ == self.ids_of(*owner),
                        0 <= i <= ids@.len(),
                        out@.map_values(|m: &Merchant| *m) == registered(ids@, self.merchants(), i as int),
                    decreases ids@.len() - i,
                {
                    let ghost before = out@;
                    match self.merchants.get(&ids[i]) {
                        Some(m) => {
                            out.push(m);
                            proof {
                                assert(out@.map_values(|m: &Merchant| *m) =~= before.map_values(|m: &Merchant| *m).push(*m));
                            }
                        },
                        None => {},
                    }
                    i += 1;
                }
            },
        }
        out
    }

    /// Adds `amount` to the volume of `token` received by merchant `id`;
    /// an unknown id changes nothing.
    pub fn record_payment(&mut self, id: &[u8; 32], token: Address, amount: u128)
        requires
            old(self).wf(),
            old(self).merchants().dom().contains(*id)
                ==> volume_of(old(self).merchants()[*id], token) + amount <= u128::MAX,
        ensures
            final(self).wf(),
            forall|o: Address| #[trigger] final(self).ids_of(o) == old(self).ids_of(o),
            final(self).merchants().dom() == old(self).merchants().dom(),
            forall|k: [u8; 32]| k != *id && old(self).merchants().dom().contains(k)
                ==> #[trigger] final(self).merchants()[k] == old(self).merchants()[k],
            old(self).merchants().dom().contains(*id) ==> {
                let m0 = old(self).merchants()[*id];
                let m1 = final(self).merchants()[*id];
                &&& m1.merchant_id == m0.merchant_id
                &&& m1.owner == m0.owner
                &&& m1.name == m0.name
                &&& m1.payout_address == m0.payout_address
                &&& m1.active == m0.active
                &&& m1.lifetime_volume.wf()
                &&& m1.lifetime_volume.view() == m0.lifetime_volume.view().insert(token,
                    (volume_of(m0, token) + amount) as u128)
            },
    {
        match self.merchants.take(id) {
            None => {
                proof {
                    assert(self.merchants.view() =~= old(self).merchants.view());
                }
            },
            Some(mut m) => {
                let cur: u128 = match m.lifetime_volume.get(&token) {
                    Some(v) => *v,
                    None => 0,
                };
                m.lifetime_volume.set(token, cur + amount);
                self.merchants.set(*id, m);
                proof {
                    assert(self.merchants.view() =~= old(self).merchants.view().insert(*id, m));
                }
            },
        }
    }
}

impl Default for MerchantRegistry {
    fn default() -> (r: Self)
        ensures
            r.wf(),
            r.merchants() == Map::<[u8; 32], Merchant>::empty(),
    {
        Self::new()
    }
}

} // verus!
