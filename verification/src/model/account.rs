//! A client's account: funds available, funds held under dispute, and
//! whether the account is frozen.

use crate::amount::Amount;
use vstd::prelude::*;

verus! {

/// What an account holds.
pub struct AccountView {
    pub available: Amount,
    pub held: Amount,
    pub locked: bool,
}

impl AccountView {
    /// A new account: nothing available, nothing held, not frozen.
    pub open spec fn empty() -> AccountView {
        AccountView { available: Amount::spec_zero(), held: Amount::spec_zero(), locked: false }
    }

    /// Available plus held, as rust_decimal adds them.
    pub open spec fn total(self) -> Option<Amount> {
        self.available.spec_checked_add(self.held)
    }

    pub open spec fn can_deposit(self, amount: Amount) -> bool {
        self.available.spec_checked_add(amount) is Some
    }

    pub open spec fn deposited(self, amount: Amount) -> AccountView {
        AccountView { available: self.available.spec_checked_add(amount).unwrap(), ..self }
    }

    pub open spec fn can_withdraw(self, amount: Amount) -> bool {
        self.available.spec_checked_sub(amount) is Some
    }

    pub open spec fn withdrawn(self, amount: Amount) -> AccountView {
        AccountView { available: self.available.spec_checked_sub(amount).unwrap(), ..self }
    }

    pub open spec fn can_hold(self, amount: Amount) -> bool {
        &&& self.available.spec_checked_sub(amount) is Some
        &&& self.held.spec_checked_add(amount) is Some
    }

    pub open spec fn holding(self, amount: Amount) -> AccountView {
        AccountView {
            available: self.available.spec_checked_sub(amount).unwrap(),
            held: self.held.spec_checked_add(amount).unwrap(),
            ..self
        }
    }

    pub open spec fn can_release(self, amount: Amount) -> bool {
        &&& self.held.spec_checked_sub(amount) is Some
        &&& self.available.spec_checked_add(amount) is Some
    }

    pub open spec fn released(self, amount: Amount) -> AccountView {
        AccountView {
            available: self.available.spec_checked_add(amount).unwrap(),
            held: self.held.spec_checked_sub(amount).unwrap(),
            ..self
        }
    }

    pub open spec fn can_charge_back(self, amount: Amount) -> bool {
        self.held.spec_checked_sub(amount) is Some
    }

    pub open spec fn charged_back(self, amount: Amount) -> AccountView {
        AccountView { held: self.held.spec_checked_sub(amount).unwrap(), locked: true, ..self }
    }

    /// Both balances are well-formed decimals.
    pub open spec fn wf(self) -> bool {
        self.available.wf() && self.held.wf()
    }

    /// The total is the sum of the available and the held funds, where that
    /// sum is exact.
    pub proof fn lemma_total_is_sum(self)
        requires
            self.wf(),
            self.available.add_is_exact_case(self.held),
        ensures
            self.total() is Some,
            self.total().unwrap().value() == self.available.value() + self.held.value(),
    {
        self.available.lemma_add_exact(self.held);
    }
}

/// A client's account.
#[derive(Clone, Copy, Debug)]
pub struct ClientAccount {
    available: Amount,
    held: Amount,
    locked: bool,
}

impl View for ClientAccount {
    type V = AccountView;

    closed spec fn view(&self) -> AccountView {
        AccountView { available: self.available, held: self.held, locked: self.locked }
    }
}

impl ClientAccount {
    pub fn new() -> (r: ClientAccount)
        ensures
            r@ == AccountView::empty(),
    {
        ClientAccount { available: Amount::zero(), held: Amount::zero(), locked: false }
    }

    pub fn available(&self) -> (r: Amount)
        ensures
            r == self@.available,
    {
        self.available
    }

    pub fn held(&self) -> (r: Amount)
        ensures
            r == self@.held,
    {
        self.held
    }

    /// Available plus held.
    pub fn total(&self) -> (r: Amount)
        requires
            self@.total() is Some,
        ensures
            r == self@.total().unwrap(),
    {
        self.available.checked_add(&self.held).unwrap()
    }

    /// Available plus held; `None` where the sum overflows a decimal.
    pub fn checked_total(&self) -> (r: Option<Amount>)
        ensures
            r == self@.total(),
    {
        self.available.checked_add(&self.held)
    }

    pub fn is_locked(&self) -> (r: bool)
        ensures
            r == self@.locked,
    {
        self.locked
    }

    /// Adds `amount` to the available funds.
    pub fn deposit(&mut self, amount: Amount)
        requires
            old(self)@.can_deposit(amount),
        ensures
            final(self)@ == old(self)@.deposited(amount),
    {
        self.available = self.available.checked_add(&amount).unwrap();
    }

    /// Takes `amount` from the available funds.
    pub fn withdraw(&mut self, amount: Amount)
        requires
            old(self)@.can_withdraw(amount),
        ensures
            final(self)@ == old(self)@.withdrawn(amount),
    {
        self.available = self.available.checked_sub(&amount).unwrap();
    }

    /// Moves `amount` from the available funds to the held funds.
    pub fn hold(&mut self, amount: Amount)
        requires
            old(self)@.can_hold(amount),
        ensures
            final(self)@ == old(self)@.holding(amount),
    {
        self.available = self.available.checked_sub(&amount).unwrap();
        self.held = self.held.checked_add(&amount).unwrap();
    }

    /// Moves `amount` from the held funds back to the available funds.
    pub fn release(&mut self, amount: Amount)
        requires
            old(self)@.can_release(amount),
        ensures
            final(self)@ == old(self)@.released(amount),
    {
        self.held = self.held.checked_sub(&amount).unwrap();
        self.available = self.available.checked_add(&amount).unwrap();
    }

    /// Takes `amount` from the held funds and freezes the account.
    pub fn chargeback(&mut self, amount: Amount)
        requires
            old(self)@.can_charge_back(amount),
        ensures
            final(self)@ == old(self)@.charged_back(amount),
    {
        self.held = self.held.checked_sub(&amount).unwrap();
        self.locked = true;
    }
}

impl Default for ClientAccount {
    fn default() -> (r: ClientAccount)
        ensures
            r@ == AccountView::empty(),
    {
        ClientAccount::new()
    }
}

} // verus!
