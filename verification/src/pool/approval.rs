//! ERC-20 style balances, approvals and `transferFrom`.
//!
//! An approval lets a spender move up to an amount of an owner's token,
//! optionally until a block (0: never expires). `u128::MAX` is an infinite
//! approval that spending does not reduce.

use vstd::prelude::*;
use crate::common::Address;
use crate::pool::lp_token::amount_of;
use crate::table::{Table, TableKey};

verus! {

/// One approval.
#[derive(Debug, Clone, Copy, PartialEq, Eq, Structural)]
pub struct Approval {
    /// The spending limit.
    pub amount: u128,
    /// Last block at which the approval holds (0: no expiry).
    pub expire_at_block: u64,
}

/// Why an approval operation failed.
#[derive(Debug, Clone, PartialEq, Eq, Structural)]
pub enum ApprovalError {
    /// The owner approved itself.
    SelfApproval,
    /// The spender is the zero address.
    ZeroAddressSpender,
    /// The recipient is the zero address.
    ZeroAddressRecipient,
    /// The decrease is larger than the allowance.
    AllowanceUnderflow,
    /// The allowance is smaller than the amount.
    InsufficientAllowance { have: u128, need: u128 },
    /// The approval expired before the current block.
    ApprovalExpired { expired_at: u64, current: u64 },
    /// The owner holds less than the amount.
    InsufficientBalance { have: u128, need: u128 },
}

/// The allowance an approval grants at `block`: its amount, or zero when
/// there is none or it has expired.
pub open spec fn allowance_value(a: Option<Approval>, block: u64) -> u128 {
    match a {
        None => 0,
        Some(ap) => if ap.expire_at_block != 0 && block > ap.expire_at_block { 0 } else { ap.amount },
    }
}

/// The zero address.
pub open spec fn is_zero_addr(a: Address) -> bool {
    a.0@ == Seq::new(20, |i: int| 0u8)
}

/// Why spending `amount` of the approval `a` at `block` from an owner
/// holding `balance` is refused, if it is.
pub open spec fn spend_error(a: Option<Approval>, balance: u128, amount: u128, block: u64) -> Option<ApprovalError> {
    match a {
        None => Some(ApprovalError::InsufficientAllowance { have: 0, need: amount }),
        Some(ap) => if ap.expire_at_block != 0 && block > ap.expire_at_block {
            Some(ApprovalError::ApprovalExpired { expired_at: ap.expire_at_block, current: block })
        } else if ap.amount < amount {
            Some(ApprovalError::InsufficientAllowance { have: ap.amount, need: amount })
        } else if balance < amount {
            Some(ApprovalError::InsufficientBalance { have: balance, need: amount })
        } else {
            None
        },
    }
}

/// The approval left after spending `amount` (an infinite one is kept).
pub open spec fn spent(ap: Approval, amount: u128) -> Approval {
    if ap.amount == u128::MAX { ap } else { Approval { amount: (ap.amount - amount) as u128, ..ap } }
}

/// Balances and approvals of all tokens.
pub struct AllowanceRegistry {
    /// (token, owner) → spender → approval
    allowances: Table<(Address, Address), Table<Address, Approval>>,
    /// (token, owner) → balance
    balances: Table<(Address, Address), u128>,
}

impl AllowanceRegistry {
    /// The approval `owner` gave `spender` for `token`.
    pub closed spec fn approval_of(&self, token: Address, owner: Address, spender: Address) -> Option<Approval> {
        let outer = self.allowances.view();
        if outer.dom().contains((token, owner)) && outer[(token, owner)].view().dom().contains(spender) {
            Some(outer[(token, owner)].view()[spender])
        } else {
            None
        }
    }

    /// The balance of `owner` in `token`.
    pub closed spec fn balance_spec(&self, token: Address, owner: Address) -> u128 {
        amount_of(self.balances.view(), (token, owner))
    }

    /// Internal consistency of the tables.
    pub closed spec fn wf(&self) -> bool {
        &&& self.allowances.wf()
        &&& self.balances.wf()
        &&& forall|k: (Address, Address)| self.allowances.view().dom().contains(k) ==> (#[trigger] self.allowances.view()[k]).wf()
    }

    /// Approvals are unchanged.
    pub open spec fn same_approvals(&self, other: &Self) -> bool {
        forall|t: Address, o: Address, s: Address| #[trigger] other.approval_of(t, o, s) == self.approval_of(t, o, s)
    }

    /// Balances are unchanged.
    pub open spec fn same_balances(&self, other: &Self) -> bool {
        forall|t: Address, o: Address| #[trigger] other.balance_spec(t, o) == self.balance_spec(t, o)
    }

    /// No balance and no approval.
    pub fn new() -> (r: Self)
        ensures
            r.wf(),
            forall|t: Address, o: Address, s: Address| #[trigger] r.approval_of(t, o, s) is None,
            forall|t: Address, o: Address| #[trigger] r.balance_spec(t, o) == 0,
    {
        AllowanceRegistry { allowances: Table::new(), balances: Table::new() }
    }

    /// The balance of `owner` in `token`.
    pub fn balance_of(&self, token: &Address, owner: &Address) -> (r: u128)
        requires
            self.wf(),
        ensures
            r == self.balance_spec(*token, *owner),
    {
        match self.balances.get(&(*token, *owner)) {
            Some(b) => *b,
            None => 0,
        }
    }

    /// Sets the balance of `owner` in `token`.
    pub fn set_balance(&mut self, token: Address, owner: Address, balance: u128)
        requires
            old(self).wf(),
        ensures
            final(self).wf(),
            old(self).same_approvals(&*final(self)),
            final(self).balance_spec(token, owner) == balance,
            forall|t: Address, o: Address| (t, o) != (token, owner) ==> #[trigger] final(self).balance_spec(t, o) == old(self).balance_spec(t, o),
    {
        self.balances.set((token, owner), balance);
    }

    /// Adds to a balance (saturating).
    pub fn add_balance(&mut self, token: Address, owner: Address, amount: u128)
        requires
            old(self).wf(),
        ensures
            final(self).wf(),
            old(self).same_approvals(&*final(self)),
            final(self).balance_spec(token, owner) == (if old(self).balance_spec(token, owner) + amount > u128::MAX {
                u128::MAX } else { (old(self).balance_spec(token, owner) + amount) as u128 }),
            forall|t: Address, o: Address| (t, o) != (token, owner) ==> #[trigger] final(self).balance_spec(t, o) == old(self).balance_spec(t, o),
    {
        let b = self.balance_of(&token, &owner);
        self.balances.set((token, owner), b.saturating_add(amount));
    }

    /// Subtracts from a balance; refused when the balance is smaller.
    pub fn sub_balance(&mut self, token: Address, owner: Address, amount: u128) -> (r: Result<(), ApprovalError>)
        requires
            old(self).wf(),
        ensures
            final(self).wf(),
            old(self).same_approvals(&*final(self)),
            old(self).balance_spec(token, owner) < amount ==> r == Err::<(), ApprovalError>(ApprovalError::InsufficientBalance {
                have: old(self).balance_spec(token, owner), need: amount }) && old(self).same_balances(&*final(self)),
            old(self).balance_spec(token, owner) >= amount ==> r is Ok
                && final(self).balance_spec(token, owner) == old(self).balance_spec(token, owner) - amount
                && (forall|t: Address, o: Address| (t, o) != (token, owner) ==> #[trigger] final(self).balance_spec(t, o) == old(self).balance_spec(t, o)),
    {
        let b = self.balance_of(&token, &owner);
        if b < amount {
            return Err(ApprovalError::InsufficientBalance { have: b, need: amount });
        }
        self.balances.set((token, owner), b - amount);
        Ok(())
    }

    /// Replaces the approval of (`token`, `owner`, `spender`) by `a`.
    fn put_approval(&mut self, token: Address, owner: Address, spender: Address, a: Approval)
        requires
            old(self).wf(),
        ensures
            final(self).wf(),
            old(self).same_balances(&*final(self)),
            final(self).approval_of(token, owner, spender) == Some(a),
            forall|t: Address, o: Address, s: Address| (t, o, s) != (token, owner, spender)
                ==> #[trigger] final(self).approval_of(t, o, s) == old(self).approval_of(t, o, s),
    {
        let mut inner = match self.allowances.take(&(token, owner)) {
            Some(t) => t,
            None => Table::new(),
        };
        inner.set(spender, a);
        self.allowances.set((token, owner), inner);
    }

    /// The approval of (`token`, `owner`, `spender`).
    fn get_approval(&self, token: Address, owner: Address, spender: Address) -> (r: Option<Approval>)
        requires
            self.wf(),
        ensures
            r == self.approval_of(token, owner, spender),
    {
        match self.allowances.get(&(token, owner)) {
            Some(inner) => match inner.get(&spender) {
                Some(a) => Some(*a),
                None => None,
            },
            None => None,
        }
    }

    /// Approves `spender` to spend up to `amount` of `owner`'s `token`
    /// (until `expire_at_block`, 0 for ever), replacing any earlier
    /// approval. An owner cannot approve itself, nor the zero address.
    pub fn approve(&mut self, token: Address, owner: Address, spender: Address, amount: u128, expire_at_block: u64)
        -> (r: Result<(), ApprovalError>)
        requires
            old(self).wf(),
        ensures
            final(self).wf(),
            approve_post(*old(self), *final(self), token, owner, spender, amount, expire_at_block, r),
    {
        if owner.same(&spender) {
            return Err(ApprovalError::SelfApproval);
        }
        if spender.is_zero() {
            return Err(ApprovalError::ZeroAddressSpender);
        }
        self.put_approval(token, owner, spender, Approval { amount, expire_at_block });
        Ok(())
    }

    /// Raises an allowance by `delta` (saturating), creating a
    /// never-expiring zero approval first when there is none.
    pub fn increase_allowance(&mut self, token: Address, owner: Address, spender: Address, delta: u128, current_block: u64)
        -> (r: Result<(), ApprovalError>)
        requires
            old(self).wf(),
        ensures
            final(self).wf(),
            r is Ok,
            old(self).same_balances(&*final(self)),
            ({
                let base = match old(self).approval_of(token, owner, spender) {
                    Some(a) => a,
                    None => Approval { amount: 0, expire_at_block: 0 },
                };
                final(self).approval_of(token, owner, spender) == Some(Approval {
                    amount: if base.amount + delta > u128::MAX { u128::MAX } else { (base.amount + delta) as u128 },
                    ..base
                })
            }),
            forall|t: Address, o: Address, s: Address| (t, o, s) != (token, owner, spender)
                ==> #[trigger] final(self).approval_of(t, o, s) == old(self).approval_of(t, o, s),
    {
        let base = match self.get_approval(token, owner, spender) {
            Some(a) => a,
            None => Approval { amount: 0, expire_at_block: 0 },
        };
        self.put_approval(token, owner, spender, Approval { amount: base.amount.saturating_add(delta), ..base });
        Ok(())
    }

    /// Lowers an allowance by `delta`; refused when the allowance is
    /// smaller. A missing approval is first recorded as a never-expiring
    /// zero approval, whatever the outcome.
    pub fn decrease_allowance(&mut self, token: Address, owner: Address, spender: Address, delta: u128)
        -> (r: Result<(), ApprovalError>)
        requires
            old(self).wf(),
        ensures
            final(self).wf(),
            old(self).same_balances(&*final(self)),
            ({
                let base = match old(self).approval_of(token, owner, spender) {
                    Some(a) => a,
                    None => Approval { amount: 0, expire_at_block: 0 },
                };
                &&& base.amount < delta ==> r == Err::<(), ApprovalError>(ApprovalError::AllowanceUnderflow)
                    && final(self).approval_of(token, owner, spender) == Some(base)
                &&& base.amount >= delta ==> r is Ok
                    && final(self).approval_of(token, owner, spender) == Some(Approval { amount: (base.amount - delta) as u128, ..base })
            }),
            forall|t: Address, o: Address, s: Address| (t, o, s) != (token, owner, spender)
                ==> #[trigger] final(self).approval_of(t, o, s) == old(self).approval_of(t, o, s),
    {
        let base = match self.get_approval(token, owner, spender) {
            Some(a) => a,
            None => Approval { amount: 0, expire_at_block: 0 },
        };
        if base.amount < delta {
            self.put_approval(token, owner, spender, base);
            return Err(ApprovalError::AllowanceUnderflow);
        }
        self.put_approval(token, owner, spender, Approval { amount: base.amount - delta, ..base });
        Ok(())
    }

    /// The allowance at `current_block` (zero when none or expired).
    pub fn allowance(&self, token: &Address, owner: &Address, spender: &Address, current_block: u64) -> (r: u128)
        requires
            self.wf(),
        ensures
            r == allowance_value(self.approval_of(*token, *owner, *spender), current_block),
    {
        match self.get_approval(*token, *owner, *spender) {
            None => 0,
            Some(a) => {
                if a.expire_at_block != 0 && current_block > a.expire_at_block {
                    0
                } else {
                    a.amount
                }
            },
        }
    }

    /// Spends `amount` of `spender`'s allowance over `owner`'s `token`:
    /// the approval must exist, not be expired and cover the amount, and
    /// the owner must hold the amount. Only the allowance changes (an
    /// infinite one does not).
    pub fn spend_allowance(&mut self, token: Address, owner: Address, spender: Address, amount: u128, current_block: u64)
        -> (r: Result<(), ApprovalError>)
        requires
            old(self).wf(),
        ensures
            final(self).wf(),
            old(self).same_balances(&*final(self)),
            match spend_error(old(self).approval_of(token, owner, spender), old(self).balance_spec(token, owner), amount, current_block) {
                Some(e) => r == Err::<(), ApprovalError>(e) && old(self).same_approvals(&*final(self)),
                None => r is Ok
                    && final(self).approval_of(token, owner, spender) == Some(spent(old(self).approval_of(token, owner, spender)->0, amount))
                    && (forall|t: Address, o: Address, s: Address| (t, o, s) != (token, owner, spender)
                        ==> #[trigger] final(self).approval_of(t, o, s) == old(self).approval_of(t, o, s)),
            },
    {
        let ap = match self.get_approval(token, owner, spender) {
            None => return Err(ApprovalError::InsufficientAllowance { have: 0, need: amount }),
            Some(a) => a,
        };
        if ap.expire_at_block != 0 && current_block > ap.expire_at_block {
            return Err(ApprovalError::ApprovalExpired { expired_at: ap.expire_at_block, current: current_block });
        }
        if ap.amount < amount {
            return Err(ApprovalError::InsufficientAllowance { have: ap.amount, need: amount });
        }
        let bal = self.balance_of(&token, &owner);
        if bal < amount {
            return Err(ApprovalError::InsufficientBalance { have: bal, need: amount });
        }
        if ap.amount != u128::MAX {
            self.put_approval(token, owner, spender, Approval { amount: ap.amount - amount, ..ap });
        } else {
            self.put_approval(token, owner, spender, ap);
        }
        Ok(())
    }

    /// Moves `amount` of `owner`'s `token` to `to` on `spender`'s allowance.
    /// The zero address cannot receive; a zero amount changes nothing;
    /// otherwise either everything happens (allowance spent, owner debited,
    /// recipient credited with saturation) or nothing does.
    pub fn transfer_from(&mut self, token: Address, owner: Address, to: Address, spender: Address, amount: u128, current_block: u64)
        -> (r: Result<(), ApprovalError>)
        requires
            old(self).wf(),
        ensures
            final(self).wf(),
            transfer_from_post(*old(self), *final(self), token, owner, to, spender, amount, current_block, r),
    {
        if to.is_zero() {
            return Err(ApprovalError::ZeroAddressRecipient);
        }
        if amount == 0 {
            return Ok(());
        }
        match self.spend_allowance(token, owner, spender, amount, current_block) {
            Err(e) => return Err(e),
            Ok(()) => {},
        }
        let _ = self.sub_balance(token, owner, amount);
        self.add_balance(token, to, amount);
        Ok(())
    }

    /// Moves `amount` of `owner`'s `token` to `to`. The zero address cannot
    /// receive; a zero amount changes nothing; the owner must hold the
    /// amount; the recipient is credited with saturation.
    pub fn transfer(&mut self, token: Address, owner: Address, to: Address, amount: u128) -> (r: Result<(), ApprovalError>)
        requires
            old(self).wf(),
        ensures
            final(self).wf(),
            transfer_post(*old(self), *final(self), token, owner, to, amount, r),
    {
        if to.is_zero() {
            return Err(ApprovalError::ZeroAddressRecipient);
        }
        if amount == 0 {
            return Ok(());
        }
        match self.sub_balance(token, owner, amount) {
            Err(e) => return Err(e),
            Ok(()) => {},
        }
        self.add_balance(token, to, amount);
        Ok(())
    }

    /// Removes every approval `owner` gave for `token`.
    pub fn revoke_all(&mut self, token: &Address, owner: &Address)
        requires
            old(self).wf(),
        ensures
            final(self).wf(),
            old(self).same_balances(&*final(self)),
            forall|s: Address| #[trigger] final(self).approval_of(*token, *owner, s) is None,
            forall|t: Address, o: Address, s: Address| (t, o) != (*token, *owner)
                ==> #[trigger] final(self).approval_of(t, o, s) == old(self).approval_of(t, o, s),
    {
        self.allowances.remove(&(*token, *owner));
    }

    /// Removes the approval `owner` gave `spender` for `token`.
    pub fn revoke(&mut self, token: &Address, owner: &Address, spender: &Address)
        requires
            old(self).wf(),
        ensures
            final(self).wf(),
            old(self).same_balances(&*final(self)),
            final(self).approval_of(*token, *owner, *spender) is None,
            forall|t: Address, o: Address, s: Address| (t, o, s) != (*token, *owner, *spender)
                ==> #[trigger] final(self).approval_of(t, o, s) == old(self).approval_of(t, o, s),
    {
        match self.allowances.take(&(*token, *owner)) {
            None => {},
            Some(inner) => {
                let mut inner = inner;
                inner.remove(spender);
                self.allowances.set((*token, *owner), inner);
            },
        }
    }
}

/// `amount` of `token` moved from `owner` to `to` (the recipient credited
/// with saturation), every other balance unchanged.
pub open spec fn transferred(s: &AllowanceRegistry, t: &AllowanceRegistry, token: Address, owner: Address, to: Address, amount: u128) -> bool {
    &&& to != owner ==> {
        &&& t.balance_spec(token, owner) == s.balance_spec(token, owner) - amount
        &&& t.balance_spec(token, to) == (if s.balance_spec(token, to) + amount > u128::MAX { u128::MAX } else {
            (s.balance_spec(token, to) + amount) as u128 })
    }
    &&& to == owner ==> t.balance_spec(token, owner) == s.balance_spec(token, owner)
    &&& forall|tk: Address, o: Address| (tk, o) != (token, owner) && (tk, o) != (token, to)
        ==> #[trigger] t.balance_spec(tk, o) == s.balance_spec(tk, o)
}

/// The outcome of an approval of `spender` by `owner` for `token`.
pub open spec fn approve_post(s: AllowanceRegistry, t: AllowanceRegistry, token: Address, owner: Address, spender: Address,
    amount: u128, expire_at_block: u64, r: Result<(), ApprovalError>) -> bool {
    &&& s.same_balances(&t)
    &&& owner == spender ==> r == Err::<(), ApprovalError>(ApprovalError::SelfApproval) && s.same_approvals(&t)
    &&& owner != spender && is_zero_addr(spender) ==> r == Err::<(), ApprovalError>(ApprovalError::ZeroAddressSpender)
        && s.same_approvals(&t)
    &&& owner != spender && !is_zero_addr(spender) ==> r is Ok
        && t.approval_of(token, owner, spender) == Some(Approval { amount, expire_at_block })
        && (forall|tk: Address, o: Address, sp: Address| (tk, o, sp) != (token, owner, spender)
            ==> #[trigger] t.approval_of(tk, o, sp) == s.approval_of(tk, o, sp))
}

/// The outcome of a `transferFrom` of `amount` of `owner`'s `token` to `to`
/// by `spender`: refused for the zero address, nothing for a zero amount,
/// otherwise all of it (allowance spent, owner debited, recipient credited
/// with saturation) or none of it.
pub open spec fn transfer_from_post(s: AllowanceRegistry, t: AllowanceRegistry, token: Address, owner: Address, to: Address,
    spender: Address, amount: u128, current_block: u64, r: Result<(), ApprovalError>) -> bool {
    &&& is_zero_addr(to) ==> r == Err::<(), ApprovalError>(ApprovalError::ZeroAddressRecipient)
        && s.same_balances(&t) && s.same_approvals(&t)
    &&& !is_zero_addr(to) && amount == 0 ==> r is Ok && s.same_balances(&t) && s.same_approvals(&t)
    &&& !is_zero_addr(to) && amount > 0 ==> match spend_error(s.approval_of(token, owner, spender),
        s.balance_spec(token, owner), amount, current_block) {
        Some(e) => r == Err::<(), ApprovalError>(e) && s.same_balances(&t) && s.same_approvals(&t),
        None => r is Ok
            && t.approval_of(token, owner, spender) == Some(spent(s.approval_of(token, owner, spender)->0, amount))
            && (forall|tk: Address, o: Address, sp: Address| (tk, o, sp) != (token, owner, spender)
                ==> #[trigger] t.approval_of(tk, o, sp) == s.approval_of(tk, o, sp))
            && transferred(&s, &t, token, owner, to, amount),
    }
}

/// The outcome of a direct transfer of `amount` of `owner`'s `token` to
/// `to`.
pub open spec fn transfer_post(s: AllowanceRegistry, t: AllowanceRegistry, token: Address, owner: Address, to: Address,
    amount: u128, r: Result<(), ApprovalError>) -> bool {
    &&& s.same_approvals(&t)
    &&& is_zero_addr(to) ==> r == Err::<(), ApprovalError>(ApprovalError::ZeroAddressRecipient) && s.same_balances(&t)
    &&& !is_zero_addr(to) && amount == 0 ==> r is Ok && s.same_balances(&t)
    &&& !is_zero_addr(to) && amount > 0 && s.balance_spec(token, owner) < amount
        ==> r == Err::<(), ApprovalError>(ApprovalError::InsufficientBalance {
            have: s.balance_spec(token, owner), need: amount }) && s.same_balances(&t)
    &&& !is_zero_addr(to) && amount > 0 && s.balance_spec(token, owner) >= amount
        ==> r is Ok && transferred(&s, &t, token, owner, to, amount)
}

} // verus!
