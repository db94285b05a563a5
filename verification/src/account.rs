//! A client account and its output row.

use vstd::prelude::*;
use iddqd::IdOrdItem;
use crate::amount::{
    Amount,
    amount_add,
    amount_sub,
    sum_is_unrounded,
    out_of_range,
    lemma_unrounded_sum,
    lemma_unrounded_difference,
    lemma_representable_sum_unrounded,
    lemma_neg,
    lemma_out_of_range_not_exact,
    lemma_in_range_not_out,
    lemma_in_range_gives_result,
    lemma_value_bound,
    in_range,
};

verus! {

/// Why a change to an account was refused; the account is left as it was.
#[derive(Clone, Copy, Debug, PartialEq, Eq, Structural)]
pub enum AccountError {
    /// A balance would leave the range of a decimal number.
    Overflow,
    /// The available funds are less than the amount asked for.
    InsufficientFunds,
}

/// A client's account state.
#[derive(Clone, Copy, Debug, PartialEq, Eq)]
pub struct Account {
    pub client_id: u16,
    pub available: Amount,
    pub held: Amount,
    pub locked: bool,
}

impl Account {
    pub open spec fn wf(self) -> bool {
        self.available.wf() && self.held.wf()
    }

    /// A fresh account: zero balances, unlocked.
    pub open spec fn fresh(client_id: u16) -> Account {
        Account {
            client_id,
            available: Amount { mantissa: 0, scale: 0 },
            held: Amount { mantissa: 0, scale: 0 },
            locked: false,
        }
    }

    /// Available plus held funds, or `None` where that sum overflows.
    pub open spec fn spec_total(self) -> Option<Amount> {
        amount_add(self.available, self.held)
    }

    /// Whether `deposit` can run without an arithmetic overflow: the total can be
    /// computed, and where the checked new total exists, so does the new
    /// available balance.
    pub open spec fn can_deposit(self, amount: Amount) -> bool {
        &&& self.spec_total() is Some
        &&& amount_add(self.spec_total().unwrap(), amount) is Some ==> amount_add(
            self.available,
            amount,
        ) is Some
    }

    /// The account after a deposit, or why it was refused: the total balance
    /// would overflow.
    pub open spec fn deposit_result(self, amount: Amount) -> Result<Account, AccountError> {
        if amount_add(self.spec_total().unwrap(), amount) is None {
            Err(AccountError::Overflow)
        } else {
            Ok(Account { available: amount_add(self.available, amount).unwrap(), ..self })
        }
    }

    /// Whether `withdraw` can run without an arithmetic overflow.
    pub open spec fn can_withdraw(self, amount: Amount) -> bool {
        !(self.available.value() < amount.value()) ==> amount_sub(self.available, amount) is Some
    }

    /// The account after a withdrawal, or why it was refused: the available funds
    /// are short of the amount.
    pub open spec fn withdraw_result(self, amount: Amount) -> Result<Account, AccountError> {
        if self.available.value() < amount.value() {
            Err(AccountError::InsufficientFunds)
        } else {
            Ok(Account { available: amount_sub(self.available, amount).unwrap(), ..self })
        }
    }

    /// The account after holding funds under dispute, or why it was refused: a
    /// balance would overflow.
    pub open spec fn hold_result(self, amount: Amount) -> Result<Account, AccountError> {
        match (amount_sub(self.available, amount), amount_add(self.held, amount)) {
            (Some(available), Some(held)) => Ok(Account { available, held, ..self }),
            _ => Err(AccountError::Overflow),
        }
    }

    /// Whether `release` can run without an arithmetic overflow.
    pub open spec fn can_release(self, amount: Amount) -> bool {
        amount_sub(self.held, amount) is Some && amount_add(self.available, amount) is Some
    }

    /// The account after releasing held funds.
    pub open spec fn release_result(self, amount: Amount) -> Account {
        Account {
            held: amount_sub(self.held, amount).unwrap(),
            available: amount_add(self.available, amount).unwrap(),
            ..self
        }
    }

    /// Whether `chargeback` can run without an arithmetic overflow.
    pub open spec fn can_chargeback(self, amount: Amount) -> bool {
        amount_sub(self.held, amount) is Some
    }

    /// The account after a chargeback: the held funds go, the account locks.
    pub open spec fn chargeback_result(self, amount: Amount) -> Account {
        Account { held: amount_sub(self.held, amount).unwrap(), locked: true, ..self }
    }

    /// A fresh account with zero balances and unlocked.
    pub fn new(client_id: u16) -> (r: Account)
        ensures
            r == Account::fresh(client_id),
            r.wf(),
    {
        Account { client_id, available: Amount::zero(), held: Amount::zero(), locked: false }
    }

    pub fn available(&self) -> (r: Amount)
        ensures
            r == self.available,
    {
        self.available
    }

    pub fn held(&self) -> (r: Amount)
        ensures
            r == self.held,
    {
        self.held
    }

    pub fn locked(&self) -> (r: bool)
        ensures
            r == self.locked,
    {
        self.locked
    }

    /// Available funds plus funds held for dispute.
    pub fn total(&self) -> (r: Amount)
        requires
            self.wf(),
            self.spec_total() is Some,
        ensures
            self.spec_total() == Some(r),
            r.wf(),
            sum_is_unrounded(self.available, self.held) ==> r.value() == self.available.value()
                + self.held.value(),
    {
        proof {
            if sum_is_unrounded(self.available, self.held) {
                lemma_unrounded_sum(self.available, self.held);
            }
        }
        self.available.checked_add(&self.held).unwrap()
    }

    /// Available plus held funds, or `None` where that sum overflows.
    pub fn checked_total(&self) -> (r: Option<Amount>)
        requires
            self.wf(),
        ensures
            r == self.spec_total(),
            r matches Some(t) ==> t.wf(),
    {
        self.available.checked_add(&self.held)
    }

    /// Whether `deposit` can take `amount` without an arithmetic overflow.
    pub fn fits_deposit(&self, amount: &Amount) -> (r: bool)
        requires
            self.wf(),
            amount.wf(),
        ensures
            r == self.can_deposit(*amount),
    {
        match self.checked_total() {
            None => false,
            Some(total) => match total.checked_add(amount) {
                None => true,
                Some(_) => self.available.checked_add(amount).is_some(),
            },
        }
    }

    /// Whether `withdraw` can take `amount` without an arithmetic overflow.
    pub fn fits_withdraw(&self, amount: &Amount) -> (r: bool)
        requires
            self.wf(),
            amount.wf(),
        ensures
            r == self.can_withdraw(*amount),
    {
        if self.available.lt(amount) {
            true
        } else {
            self.available.checked_sub(amount).is_some()
        }
    }

    /// Whether `release` can take `amount` without an arithmetic overflow.
    pub fn fits_release(&self, amount: &Amount) -> (r: bool)
        requires
            self.wf(),
            amount.wf(),
        ensures
            r == self.can_release(*amount),
    {
        self.held.checked_sub(amount).is_some() && self.available.checked_add(amount).is_some()
    }

    /// Whether `chargeback` can take `amount` without an arithmetic overflow.
    pub fn fits_chargeback(&self, amount: &Amount) -> (r: bool)
        requires
            self.wf(),
            amount.wf(),
        ensures
            r == self.can_chargeback(*amount),
    {
        self.held.checked_sub(amount).is_some()
    }

    /// Credit the account, refusing when the total balance would overflow.
    ///
    /// `total` is the ceiling to guard, not `available`: held funds can keep
    /// `available` small while `total` sits near the largest value.
    pub fn deposit(&mut self, amount: Amount) -> (r: Result<(), AccountError>)
        requires
            old(self).wf(),
            amount.wf(),
            old(self).can_deposit(amount),
        ensures
            final(self).wf(),
            match old(self).deposit_result(amount) {
                Ok(a) => r is Ok && *final(self) == a,
                Err(e) => r == Err::<(), AccountError>(e) && *final(self) == *old(self),
            },
    {
        let total = self.total();
        if total.checked_add(&amount).is_none() {
            return Err(AccountError::Overflow);
        }
        self.available = self.available.checked_add(&amount).unwrap();
        Ok(())
    }

    /// Debit the account, leaving it unchanged and refusing when the available
    /// funds are insufficient.
    pub fn withdraw(&mut self, amount: Amount) -> (r: Result<(), AccountError>)
        requires
            old(self).wf(),
            amount.wf(),
            old(self).can_withdraw(amount),
        ensures
            final(self).wf(),
            match old(self).withdraw_result(amount) {
                Ok(a) => r is Ok && *final(self) == a,
                Err(e) => r == Err::<(), AccountError>(e) && *final(self) == *old(self),
            },
    {
        if self.available.lt(&amount) {
            return Err(AccountError::InsufficientFunds);
        }
        self.available = self.available.checked_sub(&amount).unwrap();
        Ok(())
    }

    /// Hold funds under dispute: move `amount` from available to held. Refuses,
    /// leaving the account unchanged, if either balance would overflow.
    pub fn hold(&mut self, amount: Amount) -> (r: Result<(), AccountError>)
        requires
            old(self).wf(),
            amount.wf(),
        ensures
            final(self).wf(),
            match old(self).hold_result(amount) {
                Ok(a) => r is Ok && *final(self) == a,
                Err(e) => r == Err::<(), AccountError>(e) && *final(self) == *old(self),
            },
    {
        let available = match self.available.checked_sub(&amount) {
            Some(a) => a,
            None => return Err(AccountError::Overflow),
        };
        let held = match self.held.checked_add(&amount) {
            Some(h) => h,
            None => return Err(AccountError::Overflow),
        };
        self.available = available;
        self.held = held;
        Ok(())
    }

    /// Release held funds on resolve: move `amount` from held back to available.
    pub fn release(&mut self, amount: Amount)
        requires
            old(self).wf(),
            amount.wf(),
            old(self).can_release(amount),
        ensures
            final(self).wf(),
            *final(self) == old(self).release_result(amount),
    {
        self.held = self.held.checked_sub(&amount).unwrap();
        self.available = self.available.checked_add(&amount).unwrap();
    }

    /// Reverse a disputed transaction: remove `amount` from held (and total) and
    /// freeze the account.
    pub fn chargeback(&mut self, amount: Amount)
        requires
            old(self).wf(),
            amount.wf(),
            old(self).can_chargeback(amount),
        ensures
            final(self).wf(),
            *final(self) == old(self).chargeback_result(amount),
    {
        self.held = self.held.checked_sub(&amount).unwrap();
        self.locked = true;
    }
}

impl IdOrdItem for Account {
    type Key<'a> = u16;

    fn key(&self) -> (r: Self::Key<'_>)
        ensures
            r == self.client_id,
    {
        self.client_id
    }

    fn upcast_key<'short, 'long: 'short>(long: Self::Key<'long>) -> (r: Self::Key<'short>) where
        Self: 'long,
        ensures
            r == long,
    {
        long
    }
}

/// The output row for one account: `client, available, held, total, locked`.
#[derive(Clone, Copy, Debug)]
pub struct Record {
    pub client: u16,
    pub available: Amount,
    pub held: Amount,
    pub total: Amount,
    pub locked: bool,
}

impl Record {
    /// The row of an account: its balances, their total, and whether it is locked.
    pub fn from(account: &Account) -> (r: Record)
        requires
            account.wf(),
            account.spec_total() is Some,
        ensures
            r == (Record {
                client: account.client_id,
                available: account.available,
                held: account.held,
                total: account.spec_total().unwrap(),
                locked: account.locked,
            }),
    {
        Record {
            client: account.client_id,
            available: account.available(),
            held: account.held(),
            total: account.total(),
            locked: account.locked(),
        }
    }
}

/// Holding funds under dispute moves `amount` from available to held and keeps
/// the total, where neither balance loses a digit.
pub proof fn lemma_hold_moves_funds(a: Account, amount: Amount)
    requires
        a.wf(),
        amount.wf(),
        sum_is_unrounded(a.available, amount.neg()),
        sum_is_unrounded(a.held, amount),
    ensures
        a.hold_result(amount) is Ok,
        a.hold_result(amount).unwrap().wf(),
        a.hold_result(amount).unwrap().available.value() == a.available.value() - amount.value(),
        a.hold_result(amount).unwrap().held.value() == a.held.value() + amount.value(),
        a.hold_result(amount).unwrap().available.value() + a.hold_result(
            amount,
        ).unwrap().held.value() == a.available.value() + a.held.value(),
        a.hold_result(amount).unwrap().client_id == a.client_id,
        a.hold_result(amount).unwrap().locked == a.locked,
{
    lemma_unrounded_difference(a.available, amount);
    lemma_unrounded_sum(a.held, amount);
}

/// Releasing held funds moves `amount` from held back to available and keeps the
/// total, where neither balance loses a digit.
pub proof fn lemma_release_returns_funds(a: Account, amount: Amount)
    requires
        a.wf(),
        amount.wf(),
        sum_is_unrounded(a.held, amount.neg()),
        sum_is_unrounded(a.available, amount),
    ensures
        a.can_release(amount),
        a.release_result(amount).wf(),
        a.release_result(amount).held.value() == a.held.value() - amount.value(),
        a.release_result(amount).available.value() == a.available.value() + amount.value(),
        a.release_result(amount).client_id == a.client_id,
        a.release_result(amount).locked == a.locked,
{
    lemma_unrounded_difference(a.held, amount);
    lemma_unrounded_sum(a.available, amount);
}

/// Releasing what was held gives back the balances the account had before the
/// hold, in value, wherever the hold itself lost no digit: the release then loses
/// none either.
pub proof fn lemma_release_undoes_hold(a: Account, amount: Amount)
    requires
        a.wf(),
        amount.wf(),
        sum_is_unrounded(a.available, amount.neg()),
        sum_is_unrounded(a.held, amount),
    ensures
        a.hold_result(amount) is Ok,
        a.hold_result(amount).unwrap().can_release(amount),
        a.hold_result(amount).unwrap().release_result(amount).available.value()
            == a.available.value(),
        a.hold_result(amount).unwrap().release_result(amount).held.value() == a.held.value(),
        a.hold_result(amount).unwrap().release_result(amount).client_id == a.client_id,
        a.hold_result(amount).unwrap().release_result(amount).locked == a.locked,
{
    lemma_hold_moves_funds(a, amount);
    let h = a.hold_result(amount).unwrap();
    lemma_neg(amount);
    lemma_representable_sum_unrounded(h.held, amount.neg(), a.held);
    lemma_representable_sum_unrounded(h.available, amount, a.available);
    lemma_release_returns_funds(h, amount);
}

/// A chargeback removes `amount` from held and from the total, leaves available
/// as it is, and locks the account, where the held balance loses no digit.
pub proof fn lemma_chargeback_reverses(a: Account, amount: Amount)
    requires
        a.wf(),
        amount.wf(),
        sum_is_unrounded(a.held, amount.neg()),
    ensures
        a.can_chargeback(amount),
        a.chargeback_result(amount).wf(),
        a.chargeback_result(amount).held.value() == a.held.value() - amount.value(),
        a.chargeback_result(amount).available == a.available,
        a.chargeback_result(amount).locked,
{
    lemma_unrounded_difference(a.held, amount);
}

/// A deposit adds `amount` to available and to the total, where no sum loses a
/// digit.
pub proof fn lemma_deposit_credits(a: Account, amount: Amount)
    requires
        a.wf(),
        amount.wf(),
        sum_is_unrounded(a.available, a.held),
        sum_is_unrounded(a.spec_total().unwrap(), amount),
        sum_is_unrounded(a.available, amount),
    ensures
        a.can_deposit(amount),
        a.deposit_result(amount) is Ok,
        a.deposit_result(amount).unwrap().available.value() == a.available.value()
            + amount.value(),
        a.deposit_result(amount).unwrap().held == a.held,
{
    lemma_unrounded_sum(a.available, a.held);
    lemma_unrounded_sum(a.spec_total().unwrap(), amount);
    lemma_unrounded_sum(a.available, amount);
}

/// A deposit that would take the total beyond the range by one or more is refused.
pub proof fn lemma_deposit_overflow_refused(a: Account, amount: Amount)
    requires
        a.wf(),
        amount.wf(),
        sum_is_unrounded(a.available, a.held),
        out_of_range(a.available.value() + a.held.value() + amount.value()),
    ensures
        a.can_deposit(amount),
        a.deposit_result(amount) == Err::<Account, AccountError>(AccountError::Overflow),
{
    lemma_unrounded_sum(a.available, a.held);
    lemma_out_of_range_not_exact(a.spec_total().unwrap(), amount);
    lemma_in_range_not_out(a.available.value() + a.held.value() + amount.value());
}

/// A withdrawal of no more than the available funds takes `amount` off available,
/// where the difference loses no digit; a larger one is refused.
pub proof fn lemma_withdraw_debits(a: Account, amount: Amount)
    requires
        a.wf(),
        amount.wf(),
    ensures
        a.available.value() < amount.value() ==> a.withdraw_result(amount) == Err::<
            Account,
            AccountError,
        >(AccountError::InsufficientFunds),
        !(a.available.value() < amount.value()) && sum_is_unrounded(a.available, amount.neg())
            ==> {
            &&& a.can_withdraw(amount)
            &&& a.withdraw_result(amount) is Ok
            &&& a.withdraw_result(amount).unwrap().available.value() == a.available.value()
                - amount.value()
            &&& a.withdraw_result(amount).unwrap().held == a.held
        },
{
    if sum_is_unrounded(a.available, amount.neg()) {
        lemma_unrounded_difference(a.available, amount);
    }
}

/// A deposit of a non-negative amount into an account whose held funds are not
/// negative runs without an arithmetic overflow wherever the new total lies within
/// the range, even where a sum has to be rounded.
pub proof fn lemma_deposit_can_run(a: Account, amount: Amount)
    requires
        a.wf(),
        amount.wf(),
        a.held.value() >= 0,
        amount.value() >= 0,
        in_range(a.available.value() + a.held.value() + amount.value()),
    ensures
        a.can_deposit(amount),
{
    lemma_value_bound(a.available);
    lemma_in_range_gives_result(a.available, a.held);
    lemma_in_range_gives_result(a.available, amount);
}

/// A withdrawal of a non-negative amount runs without an arithmetic overflow,
/// even where the difference has to be rounded.
pub proof fn lemma_withdraw_can_run(a: Account, amount: Amount)
    requires
        a.wf(),
        amount.wf(),
        amount.value() >= 0,
    ensures
        a.can_withdraw(amount),
{
    lemma_value_bound(a.available);
    lemma_in_range_gives_result(a.available, amount);
}

} // verus!
