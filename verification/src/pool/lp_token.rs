//! LP token balances, per pair and per account.

use vstd::prelude::*;
use crate::common::Address;
use crate::pool::pair::PairId;
use crate::table::{Table, TableKey};

verus! {

/// Why an LP token operation failed.
#[derive(Debug, Clone, PartialEq, Eq, Structural)]
pub enum LpError {
    /// The account holds fewer LP tokens than asked for.
    InsufficientBalance { have: u128, need: u128 },
    /// LP tokens cannot be sent to the zero address.
    ZeroAddressTransfer,
}

/// The amount stored under `k`, or zero.
pub open spec fn amount_of<K>(m: Map<K, u128>, k: K) -> u128 {
    if m.dom().contains(k) { m[k] } else { 0 }
}

/// LP token balances and supplies of all pairs.
pub struct LpRegistry {
    balances: Table<(PairId, Address), u128>,
    total_supply: Table<PairId, u128>,
}

impl LpRegistry {
    /// The balance of `owner` in `pair`.
    pub closed spec fn balance_spec(&self, pair: PairId, owner: Address) -> u128 {
        amount_of(self.balances.view(), (pair, owner))
    }

    /// The total supply of `pair`.
    pub closed spec fn supply_spec(&self, pair: PairId) -> u128 {
        amount_of(self.total_supply.view(), pair)
    }

    /// Internal consistency of the tables.
    pub closed spec fn wf(&self) -> bool {
        self.balances.wf() && self.total_supply.wf()
    }

    /// No balances.
    pub fn new() -> (r: Self)
        ensures
            r.wf(),
            forall|p: PairId, o: Address| r.balance_spec(p, o) == 0,
            forall|p: PairId| r.supply_spec(p) == 0,
    {
        LpRegistry { balances: Table::new(), total_supply: Table::new() }
    }

    /// The balance of `owner` in `pair`.
    pub fn balance(&self, pair: &PairId, owner: &Address) -> (r: u128)
        requires
            self.wf(),
        ensures
            r == self.balance_spec(*pair, *owner),
    {
        match self.balances.get(&(*pair, *owner)) {
            Some(b) => *b,
            None => 0,
        }
    }

    /// The total supply of `pair`.
    pub fn total_supply(&self, pair: &PairId) -> (r: u128)
        requires
            self.wf(),
        ensures
            r == self.supply_spec(*pair),
    {
        match self.total_supply.get(pair) {
            Some(b) => *b,
            None => 0,
        }
    }

    /// Mints `amount` LP tokens of `pair` to `to`; nothing happens for zero.
    pub fn mint(&mut self, pair: &PairId, to: Address, amount: u128)
        requires
            old(self).wf(),
            old(self).balance_spec(*pair, to) + amount <= u128::MAX,
            old(self).supply_spec(*pair) + amount <= u128::MAX,
        ensures
            final(self).wf(),
            final(self).balance_spec(*pair, to) == old(self).balance_spec(*pair, to) + amount,
            final(self).supply_spec(*pair) == old(self).supply_spec(*pair) + amount,
            forall|p: PairId, o: Address| (p, o) != (*pair, to) ==> #[trigger] final(self).balance_spec(p, o) == old(self).balance_spec(p, o),
            forall|p: PairId| p != *pair ==> #[trigger] final(self).supply_spec(p) == old(self).supply_spec(p),
    {
        if amount == 0 {
            return;
        }
        let b = self.balance(pair, &to);
        let s = self.total_supply(pair);
        self.balances.set((*pair, to), b + amount);
        self.total_supply.set(*pair, s + amount);
    }

    /// Burns `amount` LP tokens of `pair` from `from`; refused when the
    /// balance is smaller.
    pub fn burn(&mut self, pair: &PairId, from: Address, amount: u128) -> (r: Result<(), LpError>)
        requires
            old(self).wf(),
        ensures
            final(self).wf(),
            old(self).balance_spec(*pair, from) < amount ==> r == Err::<(), LpError>(
                LpError::InsufficientBalance { have: old(self).balance_spec(*pair, from), need: amount })
                && (forall|p: PairId, o: Address| #[trigger] final(self).balance_spec(p, o) == old(self).balance_spec(p, o))
                && (forall|p: PairId| #[trigger] final(self).supply_spec(p) == old(self).supply_spec(p)),
            old(self).balance_spec(*pair, from) >= amount ==> r is Ok
                && final(self).balance_spec(*pair, from) == old(self).balance_spec(*pair, from) - amount
                && final(self).supply_spec(*pair) == (if old(self).supply_spec(*pair) >= amount {
                    old(self).supply_spec(*pair) - amount } else { 0 })
                && (forall|p: PairId, o: Address| (p, o) != (*pair, from) ==> #[trigger] final(self).balance_spec(p, o) == old(self).balance_spec(p, o))
                && (forall|p: PairId| p != *pair ==> #[trigger] final(self).supply_spec(p) == old(self).supply_spec(p)),
    {
        let b = self.balance(pair, &from);
        if b < amount {
            return Err(LpError::InsufficientBalance { have: b, need: amount });
        }
        let s = self.total_supply(pair);
        self.balances.set((*pair, from), b - amount);
        self.total_supply.set(*pair, s.saturating_sub(amount));
        Ok(())
    }

    /// Moves `amount` LP tokens of `pair` from `from` to `to`; the zero
    /// address cannot receive, and the sender must hold enough.
    pub fn transfer(&mut self, pair: &PairId, from: Address, to: Address, amount: u128) -> (r: Result<(), LpError>)
        requires
            old(self).wf(),
            to != from ==> old(self).balance_spec(*pair, to) + amount <= u128::MAX,
        ensures
            final(self).wf(),
            to.0@ == Seq::new(20, |i: int| 0u8) ==> r == Err::<(), LpError>(LpError::ZeroAddressTransfer)
                && (forall|p: PairId, o: Address| #[trigger] final(self).balance_spec(p, o) == old(self).balance_spec(p, o)),
            to.0@ != Seq::new(20, |i: int| 0u8) && old(self).balance_spec(*pair, from) < amount ==> r == Err::<(), LpError>(
                LpError::InsufficientBalance { have: old(self).balance_spec(*pair, from), need: amount })
                && (forall|p: PairId, o: Address| #[trigger] final(self).balance_spec(p, o) == old(self).balance_spec(p, o)),
            to.0@ != Seq::new(20, |i: int| 0u8) && old(self).balance_spec(*pair, from) >= amount ==> r is Ok
                && final(self).balance_spec(*pair, from) == old(self).balance_spec(*pair, from) - (if to == from { 0 } else { amount })
                && final(self).balance_spec(*pair, to) == old(self).balance_spec(*pair, to) + (if to == from { 0 } else { amount })
                && (forall|p: PairId, o: Address| (p, o) != (*pair, from) && (p, o) != (*pair, to)
                    ==> #[trigger] final(self).balance_spec(p, o) == old(self).balance_spec(p, o)),
            r is Ok ==> final(self).supply_spec(*pair) == (if old(self).supply_spec(*pair) >= amount {
                old(self).supply_spec(*pair) } else { amount }),
            r is Err ==> final(self).supply_spec(*pair) == old(self).supply_spec(*pair),
            forall|p: PairId| p != *pair ==> #[trigger] final(self).supply_spec(p) == old(self).supply_spec(p),
    {
        if to.is_zero() {
            return Err(LpError::ZeroAddressTransfer);
        }
        match self.burn(pair, from, amount) {
            Err(e) => return Err(e),
            Ok(()) => {},
        }
        self.mint(pair, to, amount);
        Ok(())
    }
}

} // verus!
