//! The engine state: client accounts, the deposit store and the transaction ids
//! seen, changed by applying [`Operation`]s.

use std::collections::{HashMap, HashSet};
use vstd::prelude::*;
use iddqd::IdOrdMap;
use crate::amount::{
    Amount,
    sum_is_unrounded,
    out_of_range,
    lemma_unrounded_sum,
    lemma_unrounded_difference,
    lemma_value_sign,
};
use crate::account::{
    Account,
    lemma_hold_moves_funds,
    lemma_release_undoes_hold,
    lemma_chargeback_reverses,
    lemma_deposit_credits,
    lemma_deposit_overflow_refused,
    lemma_withdraw_debits,
    lemma_withdraw_can_run,
};
use crate::account_map::{
    account_entries,
    accounts_wf,
    account_or_fresh,
    get_account,
    new_account_map,
    account_list,
};
use crate::operation::{ClientId, TxId, Operation, locked_in, is_locked};
use crate::transaction::{
    DisputeState,
    StoredTx,
    txs_wf,
    owned,
    disputed_amount,
    disputed_total,
    lemma_disputed_total_none,
    lemma_disputed_total_update,
    lemma_disputed_total_insert,
};

verus! {

broadcast use vstd::std_specs::hash::group_hash_axioms;

/// Accumulates account balances as operations are applied.
#[derive(Debug)]
pub struct Ledger {
    accounts: IdOrdMap<Account>,
    deposits: HashMap<TxId, StoredTx>,
    seen: HashSet<TxId>,
}

/// What a ledger holds: the accounts by client id, the credited deposits by
/// transaction id, and the transaction ids of the deposits and withdrawals seen.
#[verifier::ext_equal]
pub struct LedgerView {
    pub accounts: Map<ClientId, Account>,
    pub deposits: Map<TxId, StoredTx>,
    pub seen: Set<TxId>,
}

impl LedgerView {
    /// Accounts under their own ids and well formed, stored amounts well formed,
    /// finitely many stored deposits, each with an id that was seen.
    pub open spec fn wf(self) -> bool {
        &&& accounts_wf(self.accounts)
        &&& txs_wf(self.deposits)
        &&& self.deposits.dom().finite()
        &&& self.deposits.dom().subset_of(self.seen)
    }

    /// Whether the client's account exists and is frozen.
    pub open spec fn is_locked(self, client: ClientId) -> bool {
        locked_in(self.accounts, client)
    }

    /// The ledger with `account` stored under `client`.
    pub open spec fn with_account(self, client: ClientId, account: Account) -> LedgerView {
        LedgerView { accounts: self.accounts.insert(client, account), ..self }
    }

    /// Whether `apply` can run on this ledger without an arithmetic overflow.
    pub open spec fn can_apply(self, op: Operation) -> bool {
        op.can_step(self.accounts, self.deposits, op.reuses_id(self.seen))
    }

    /// The ledger after applying `op`: one step of it (see
    /// `Operation::step_result`), with the transaction id that a deposit or
    /// withdrawal brings in counted as seen, unless the account is locked.
    pub open spec fn apply(self, op: Operation) -> LedgerView {
        if self.is_locked(op.spec_client()) {
            self
        } else {
            let (accounts, deposits) = op.step_result(
                self.accounts,
                self.deposits,
                op.reuses_id(self.seen),
            );
            LedgerView {
                accounts,
                deposits,
                seen: match op.new_id() {
                    Some(t) => self.seen.insert(t),
                    None => self.seen,
                },
            }
        }
    }
}

impl View for Ledger {
    type V = LedgerView;

    closed spec fn view(&self) -> LedgerView {
        LedgerView {
            accounts: account_entries(self.accounts),
            deposits: self.deposits@,
            seen: self.seen@,
        }
    }
}

impl Ledger {
    pub open spec fn wf(&self) -> bool {
        self@.wf()
    }

    /// An empty ledger.
    pub fn new() -> (r: Ledger)
        ensures
            r.wf(),
            r@.accounts == Map::<ClientId, Account>::empty(),
            r@.deposits == Map::<TxId, StoredTx>::empty(),
            r@.seen == Set::<TxId>::empty(),
    {
        Ledger { accounts: new_account_map(), deposits: HashMap::new(), seen: HashSet::new() }
    }

    /// Apply one operation, changing account balances and the deposit store.
    ///
    /// A frozen account rejects every operation, so a locked account's state is
    /// final.
    pub fn apply(&mut self, op: Operation)
        requires
            old(self).wf(),
            op.wf(),
            old(self)@.can_apply(op),
        ensures
            final(self).wf(),
            final(self)@ == old(self)@.apply(op),
    {
        if self.is_locked(op.client()) {
            return ;
        }
        let reused = self.reuses_seen_id(&op);
        op.step(&mut self.accounts, &mut self.deposits, reused);
        match op {
            Operation::Deposit { tx, .. } => {
                self.seen.insert(tx);
            },
            Operation::Withdrawal { tx, .. } => {
                self.seen.insert(tx);
            },
            _ => {},
        }
    }

    /// Whether `apply` can take `op` without an arithmetic overflow.
    pub fn can_apply(&self, op: &Operation) -> (r: bool)
        requires
            self.wf(),
            op.wf(),
        ensures
            r == self@.can_apply(*op),
    {
        let reused = self.reuses_seen_id(op);
        op.fits_step(&self.accounts, &self.deposits, reused)
    }

    /// Apply `op` where that can run without an arithmetic overflow, and say
    /// whether it did; the ledger is left as it is where it cannot.
    pub fn try_apply(&mut self, op: Operation) -> (r: bool)
        requires
            old(self).wf(),
            op.wf(),
        ensures
            final(self).wf(),
            r == old(self)@.can_apply(op),
            r ==> final(self)@ == old(self)@.apply(op),
            !r ==> final(self)@ == old(self)@,
    {
        if self.can_apply(&op) {
            self.apply(op);
            true
        } else {
            false
        }
    }

    /// Accounts in client-id order, for producing the output.
    pub fn accounts(&self) -> (r: Vec<Account>)
        ensures
            forall|i: int, j: int| 0 <= i < j < r.len() ==> r[i].client_id < r[j].client_id,
            forall|i: int|
                0 <= i < r.len() ==> self@.accounts.contains_key(r[i].client_id)
                    && self@.accounts[r[i].client_id] == r[i],
            forall|c: ClientId|
                self@.accounts.contains_key(c) ==> exists|i: int|
                    0 <= i < r.len() && r[i].client_id == c,
    {
        account_list(&self.accounts)
    }

    /// The account of `client`, if it has one.
    pub fn account(&self, client: ClientId) -> (r: Option<Account>)
        ensures
            r == (if self@.accounts.contains_key(client) {
                Some(self@.accounts[client])
            } else {
                None
            }),
    {
        get_account(&self.accounts, client)
    }

    /// The stored deposit `tx`, if it was credited.
    pub fn stored_deposit(&self, tx: TxId) -> (r: Option<StoredTx>)
        ensures
            r == (if self@.deposits.contains_key(tx) {
                Some(self@.deposits[tx])
            } else {
                None
            }),
    {
        match self.deposits.get(&tx) {
            Some(s) => Some(*s),
            None => None,
        }
    }

    /// Whether the client's account exists and is frozen.
    fn is_locked(&self, client: ClientId) -> (r: bool)
        ensures
            r == self@.is_locked(client),
    {
        is_locked(&self.accounts, client)
    }

    /// Whether `op` brings in a transaction id that was seen before.
    fn reuses_seen_id(&self, op: &Operation) -> (r: bool)
        ensures
            r == op.reuses_id(self@.seen),
    {
        match op {
            Operation::Deposit { tx, .. } => self.seen.contains(tx),
            Operation::Withdrawal { tx, .. } => self.seen.contains(tx),
            _ => false,
        }
    }
}

/// A locked account ignores every operation, deposits included: the ledger is
/// left exactly as it was.
pub proof fn lemma_locked_account_ignores_operations(v: LedgerView, op: Operation)
    requires
        v.is_locked(op.spec_client()),
    ensures
        v.apply(op) == v,
        v.can_apply(op),
{
}

/// A locked account stays locked, whatever is applied.
pub proof fn lemma_lock_is_final(v: LedgerView, op: Operation, client: ClientId)
    requires
        v.is_locked(client),
    ensures
        v.apply(op).is_locked(client),
{
}

/// A deposit or withdrawal whose transaction id was seen before moves no money:
/// only the first occurrence of an id counts. Nothing is stored, and only the
/// client's account is made if it is new.
pub proof fn lemma_reused_id_moves_no_money(v: LedgerView, op: Operation)
    requires
        op.reuses_id(v.seen),
        !v.is_locked(op.spec_client()),
    ensures
        v.apply(op).deposits == v.deposits,
        v.apply(op).seen == v.seen,
        v.apply(op).accounts == v.accounts.insert(
            op.spec_client(),
            account_or_fresh(v.accounts, op.spec_client()),
        ),
{
    assert(v.apply(op).seen =~= v.seen);
}

/// Once a deposit or withdrawal has been applied, a later deposit or withdrawal
/// with the same transaction id moves no money.
pub proof fn lemma_first_occurrence_counts(v: LedgerView, first: Operation, later: Operation)
    requires
        !v.is_locked(first.spec_client()),
        first.new_id() is Some,
        later.new_id() == first.new_id(),
    ensures
        later.reuses_id(v.apply(first).seen),
        v.apply(first).apply(later).deposits == v.apply(first).deposits,
        !v.apply(first).is_locked(later.spec_client()) ==> v.apply(first).apply(later).accounts
            == v.apply(first).accounts.insert(
            later.spec_client(),
            account_or_fresh(v.apply(first).accounts, later.spec_client()),
        ),
{
    let w = v.apply(first);
    if !w.is_locked(later.spec_client()) {
        lemma_reused_id_moves_no_money(w, later);
    }
}

/// A dispute, resolve or chargeback that names a transaction which is not a
/// stored deposit of that client (unknown, a withdrawal, or another client's)
/// moves no money and changes no state; the client's account is made if it is
/// new.
pub proof fn lemma_unowned_reference_ignored(v: LedgerView, client: ClientId, tx: TxId)
    requires
        owned(v.deposits, client, tx) is None,
        !v.is_locked(client),
    ensures
        v.apply(Operation::Dispute { client, tx }) == v.with_account(
            client,
            account_or_fresh(v.accounts, client),
        ),
        v.apply(Operation::Resolve { client, tx }) == v.with_account(
            client,
            account_or_fresh(v.accounts, client),
        ),
        v.apply(Operation::Chargeback { client, tx }) == v.with_account(
            client,
            account_or_fresh(v.accounts, client),
        ),
{
}

/// Only an undisputed deposit can be disputed, and only a disputed one resolved
/// or charged back; anything else moves no money and changes no state.
pub proof fn lemma_dispute_lifecycle_guards(v: LedgerView, client: ClientId, tx: TxId)
    requires
        owned(v.deposits, client, tx) is Some,
        !v.is_locked(client),
    ensures
        v.deposits[tx].state != DisputeState::Undisputed ==> v.apply(
            Operation::Dispute { client, tx },
        ) == v.with_account(client, account_or_fresh(v.accounts, client)),
        v.deposits[tx].state != DisputeState::Disputed ==> v.apply(
            Operation::Resolve { client, tx },
        ) == v.with_account(client, account_or_fresh(v.accounts, client)) && v.apply(
            Operation::Chargeback { client, tx },
        ) == v.with_account(client, account_or_fresh(v.accounts, client)),
{
}

/// A charged-back transaction is terminal: no operation changes its state again.
pub proof fn lemma_chargeback_is_terminal(v: LedgerView, op: Operation, tx: TxId)
    requires
        v.deposits.contains_key(tx),
        v.deposits[tx].state == DisputeState::ChargedBack,
    ensures
        v.apply(op).deposits.contains_key(tx),
        v.apply(op).deposits[tx] == v.deposits[tx],
{
}

/// A stored deposit keeps its client and amount for good; operations change only
/// its dispute state.
pub proof fn lemma_stored_deposit_keeps_client_and_amount(
    v: LedgerView,
    op: Operation,
    tx: TxId,
)
    requires
        v.deposits.contains_key(tx),
    ensures
        v.apply(op).deposits.contains_key(tx),
        v.apply(op).deposits[tx].client == v.deposits[tx].client,
        v.apply(op).deposits[tx].amount == v.deposits[tx].amount,
{
}

/// Only credited deposits enter the deposit store, and nothing leaves it: an
/// operation other than a deposit keeps the set of stored transaction ids, and a
/// failed withdrawal or deposit never becomes disputable.
pub proof fn lemma_only_deposits_are_stored(v: LedgerView, op: Operation)
    ensures
        v.deposits.dom().subset_of(v.apply(op).deposits.dom()),
        !(op is Deposit) ==> v.apply(op).deposits.dom() == v.deposits.dom(),
        op matches Operation::Deposit { tx, .. } ==> (v.apply(op).deposits.dom() == v.deposits.dom()
            || v.apply(op).deposits.dom() == v.deposits.dom().insert(tx)),
{
    assert(v.deposits.dom().subset_of(v.apply(op).deposits.dom()));
    if !(op is Deposit) {
        assert(v.apply(op).deposits.dom() =~= v.deposits.dom());
    } else if let Operation::Deposit { tx, .. } = op {
        if v.apply(op).deposits.dom() != v.deposits.dom() {
            assert(v.apply(op).deposits.dom() =~= v.deposits.dom().insert(tx));
        }
    }
}

/// An operation changes no account but that of the client it names.
pub proof fn lemma_other_accounts_unchanged(v: LedgerView, op: Operation, c: ClientId)
    requires
        c != op.spec_client(),
    ensures
        v.apply(op).accounts.contains_key(c) == v.accounts.contains_key(c),
        v.accounts.contains_key(c) ==> v.apply(op).accounts[c] == v.accounts[c],
{
}

/// An account is created on first reference to a client, whatever the operation
/// and even where it then fails.
pub proof fn lemma_account_created_on_reference(v: LedgerView, op: Operation)
    ensures
        v.apply(op).accounts.contains_key(op.spec_client()),
{
}

/// A dispute of an undisputed deposit can be applied and holds its funds:
/// available decreases by the amount, held increases by it, the total stays, where
/// no sum loses a digit.
pub proof fn lemma_dispute_holds_funds(v: LedgerView, client: ClientId, tx: TxId)
    requires
        v.wf(),
        !v.is_locked(client),
        owned(v.deposits, client, tx) is Some,
        v.deposits[tx].state == DisputeState::Undisputed,
        sum_is_unrounded(account_or_fresh(v.accounts, client).available, v.deposits[tx].amount.neg()),
        sum_is_unrounded(account_or_fresh(v.accounts, client).held, v.deposits[tx].amount),
    ensures
        v.can_apply(Operation::Dispute { client, tx }),
        ({
            let a = account_or_fresh(v.accounts, client);
            let b = v.apply(Operation::Dispute { client, tx }).accounts[client];
            let amount = v.deposits[tx].amount;
            &&& b.available.value() == a.available.value() - amount.value()
            &&& b.held.value() == a.held.value() + amount.value()
            &&& b.available.value() + b.held.value() == a.available.value() + a.held.value()
            &&& b.locked == a.locked
        }),
        v.apply(Operation::Dispute { client, tx }).deposits[tx].state == DisputeState::Disputed,
{
    let a = account_or_fresh(v.accounts, client);
    lemma_hold_moves_funds(a, v.deposits[tx].amount);
}

/// Resolving a dispute releases what the dispute held: after a dispute and its
/// resolve the account has its balances back in value, and the deposit is
/// undisputed again, wherever the dispute's hold lost no digit.
pub proof fn lemma_resolve_undoes_dispute(v: LedgerView, client: ClientId, tx: TxId)
    requires
        v.wf(),
        !v.is_locked(client),
        owned(v.deposits, client, tx) is Some,
        v.deposits[tx].state == DisputeState::Undisputed,
        ({
            let a = account_or_fresh(v.accounts, client);
            let amount = v.deposits[tx].amount;
            &&& sum_is_unrounded(a.available, amount.neg())
            &&& sum_is_unrounded(a.held, amount)
        }),
    ensures
        ({
            let v1 = v.apply(Operation::Dispute { client, tx });
            let v2 = v1.apply(Operation::Resolve { client, tx });
            let a = account_or_fresh(v.accounts, client);
            &&& v1.can_apply(Operation::Resolve { client, tx })
            &&& v2.accounts[client].available.value() == a.available.value()
            &&& v2.accounts[client].held.value() == a.held.value()
            &&& v2.accounts[client].locked == a.locked
            &&& v2.accounts[client].client_id == a.client_id
            &&& v2.accounts == v.accounts.insert(client, v2.accounts[client])
            &&& v2.deposits == v.deposits
        }),
{
    let a = account_or_fresh(v.accounts, client);
    let amount = v.deposits[tx].amount;
    lemma_release_undoes_hold(a, amount);
    let v1 = v.apply(Operation::Dispute { client, tx });
    let v2 = v1.apply(Operation::Resolve { client, tx });
    assert(v2.deposits =~= v.deposits);
    assert(v2.accounts =~= v.accounts.insert(client, v2.accounts[client]));
}

/// A chargeback of a disputed deposit removes its funds from held and from the
/// total and locks the account at once, where the held balance loses no digit.
pub proof fn lemma_chargeback_locks(v: LedgerView, client: ClientId, tx: TxId)
    requires
        v.wf(),
        !v.is_locked(client),
        owned(v.deposits, client, tx) is Some,
        v.deposits[tx].state == DisputeState::Disputed,
        sum_is_unrounded(account_or_fresh(v.accounts, client).held, v.deposits[tx].amount.neg()),
    ensures
        ({
            let a = account_or_fresh(v.accounts, client);
            let w = v.apply(Operation::Chargeback { client, tx });
            let amount = v.deposits[tx].amount;
            &&& v.can_apply(Operation::Chargeback { client, tx })
            &&& w.accounts[client].held.value() == a.held.value() - amount.value()
            &&& w.accounts[client].available == a.available
            &&& w.is_locked(client)
            &&& w.deposits[tx].state == DisputeState::ChargedBack
        }),
{
    lemma_chargeback_reverses(account_or_fresh(v.accounts, client), v.deposits[tx].amount);
}

/// A deposit with a new transaction id credits available and the total and is
/// stored undisputed, where no sum loses a digit.
pub proof fn lemma_deposit_credits_ledger(
    v: LedgerView,
    client: ClientId,
    tx: TxId,
    amount: Amount,
)
    requires
        v.wf(),
        amount.wf(),
        !v.is_locked(client),
        !v.seen.contains(tx),
        ({
            let a = account_or_fresh(v.accounts, client);
            &&& sum_is_unrounded(a.available, a.held)
            &&& sum_is_unrounded(a.spec_total().unwrap(), amount)
            &&& sum_is_unrounded(a.available, amount)
        }),
    ensures
        ({
            let a = account_or_fresh(v.accounts, client);
            let w = v.apply(Operation::Deposit { client, tx, amount });
            &&& v.can_apply(Operation::Deposit { client, tx, amount })
            &&& w.accounts[client].available.value() == a.available.value() + amount.value()
            &&& w.accounts[client].held == a.held
            &&& w.deposits == v.deposits.insert(
                tx,
                StoredTx { client, amount, state: DisputeState::Undisputed },
            )
        }),
{
    lemma_deposit_credits(account_or_fresh(v.accounts, client), amount);
}

/// A deposit that would take the total beyond the range by one or more is
/// ignored: no money moves and nothing is stored (the account is still created).
pub proof fn lemma_deposit_overflow_ignored(
    v: LedgerView,
    client: ClientId,
    tx: TxId,
    amount: Amount,
)
    requires
        v.wf(),
        amount.wf(),
        !v.is_locked(client),
        ({
            let a = account_or_fresh(v.accounts, client);
            &&& sum_is_unrounded(a.available, a.held)
            &&& out_of_range(a.available.value() + a.held.value() + amount.value())
        }),
    ensures
        v.can_apply(Operation::Deposit { client, tx, amount }),
        v.apply(Operation::Deposit { client, tx, amount }).deposits == v.deposits,
        v.apply(Operation::Deposit { client, tx, amount }).accounts == v.accounts.insert(
            client,
            account_or_fresh(v.accounts, client),
        ),
{
    lemma_deposit_overflow_refused(account_or_fresh(v.accounts, client), amount);
}

/// A withdrawal takes the amount off available where the available funds cover
/// it (held funds cannot be spent), and is ignored where they do not.
pub proof fn lemma_withdrawal_checks_available(
    v: LedgerView,
    client: ClientId,
    tx: TxId,
    amount: Amount,
)
    requires
        v.wf(),
        amount.wf(),
        !v.is_locked(client),
        !v.seen.contains(tx),
    ensures
        ({
            let a = account_or_fresh(v.accounts, client);
            let w = v.apply(Operation::Withdrawal { client, tx, amount });
            &&& w.deposits == v.deposits
            &&& a.available.value() < amount.value() ==> w.accounts == v.accounts.insert(client, a)
            &&& !(a.available.value() < amount.value()) && sum_is_unrounded(a.available, amount.neg())
                ==> w.accounts[client].available.value() == a.available.value() - amount.value()
                && w.accounts[client].held == a.held && v.can_apply(
                Operation::Withdrawal { client, tx, amount },
            )
        }),
{
    lemma_withdraw_debits(account_or_fresh(v.accounts, client), amount);
}


/// Whether one of the client's stored deposits was charged back.
pub open spec fn charged_back(deposits: Map<TxId, StoredTx>, client: ClientId) -> bool {
    exists|t: TxId|
        #![trigger deposits[t]]
        deposits.contains_key(t) && deposits[t].client == client && deposits[t].state
            == DisputeState::ChargedBack
}

/// Every stored deposit belongs to an account, each account holds exactly the
/// amounts of its deposits under dispute, and an account is locked just where one
/// of its deposits was charged back.
pub open spec fn holds_match_disputes(v: LedgerView) -> bool {
    &&& forall|t: TxId|
        #[trigger] v.deposits.contains_key(t) ==> v.accounts.contains_key(v.deposits[t].client)
    &&& forall|c: ClientId|
        #[trigger] v.accounts.contains_key(c) ==> v.accounts[c].held.value() == disputed_total(
            v.deposits,
            c,
        )
    &&& forall|c: ClientId|
        #[trigger] v.accounts.contains_key(c) ==> (v.accounts[c].locked <==> charged_back(
            v.deposits,
            c,
        ))
}

/// Whether `op` moves held funds without losing a digit, and, for a dispute, holds
/// the funds: a hold that overflows marks the deposit disputed without holding
/// them.
pub open spec fn holds_exactly(v: LedgerView, op: Operation) -> bool {
    let a = account_or_fresh(v.accounts, op.spec_client());
    match op {
        Operation::Dispute { client, tx } => (owned(v.deposits, client, tx) matches Some(s)
            && s.state == DisputeState::Undisputed) ==> a.hold_result(v.deposits[tx].amount) is Ok
            && sum_is_unrounded(a.held, v.deposits[tx].amount),
        Operation::Resolve { client, tx } => (owned(v.deposits, client, tx) matches Some(s)
            && s.state == DisputeState::Disputed) ==> sum_is_unrounded(
            a.held,
            v.deposits[tx].amount.neg(),
        ),
        Operation::Chargeback { client, tx } => (owned(v.deposits, client, tx) matches Some(s)
            && s.state == DisputeState::Disputed) ==> sum_is_unrounded(
            a.held,
            v.deposits[tx].amount.neg(),
        ),
        _ => true,
    }
}

/// An empty ledger holds nothing and locks nothing.
pub proof fn lemma_empty_ledger_holds_match()
    ensures
        holds_match_disputes(
            LedgerView { accounts: Map::empty(), deposits: Map::empty(), seen: Set::empty() },
        ),
{
}

/// Applying an operation keeps held funds equal to the amounts of the deposits
/// under dispute, and locks equal to chargebacks, wherever the held balance moves
/// without losing a digit and a dispute's hold does not overflow.
pub proof fn lemma_apply_keeps_holds_match(v: LedgerView, op: Operation)
    requires
        v.wf(),
        op.wf(),
        holds_match_disputes(v),
        holds_exactly(v, op),
    ensures
        holds_match_disputes(v.apply(op)),
{
    let client = op.spec_client();
    let a = account_or_fresh(v.accounts, client);
    let w = v.apply(op);
    if !v.accounts.contains_key(client) {
        assert forall|t: TxId| v.deposits.contains_key(t) implies v.deposits[t].client
            != client by {}
        lemma_disputed_total_none(v.deposits, client);
        lemma_value_sign(a.held);
    }
    assert(a.held.value() == disputed_total(v.deposits, client));
    assert(a.locked <==> charged_back(v.deposits, client));
    if !v.is_locked(client) {
        match op {
            Operation::Deposit { tx, amount, .. } => {
                if !op.reuses_id(v.seen) && a.deposit_result(amount) is Ok {
                    let x = StoredTx { client, amount, state: DisputeState::Undisputed };
                    assert(!v.deposits.contains_key(tx));
                    assert(w.deposits == v.deposits.insert(tx, x));
                    assert forall|c: ClientId| #[trigger] w.accounts.contains_key(c) implies w.accounts[
                        c].held.value() == disputed_total(w.deposits, c) by {
                        lemma_disputed_total_insert(v.deposits, c, tx, x);
                    }
                    assert forall|c: ClientId| #[trigger] w.accounts.contains_key(c) implies (
                    w.accounts[c].locked <==> charged_back(w.deposits, c)) by {
                        if charged_back(v.deposits, c) {
                            let t = choose|t: TxId|
                                #![trigger v.deposits[t]]
                                v.deposits.contains_key(t) && v.deposits[t].client == c
                                    && v.deposits[t].state == DisputeState::ChargedBack;
                            assert(w.deposits[t] == v.deposits[t]);
                        }
                        if charged_back(w.deposits, c) {
                            let t = choose|t: TxId|
                                #![trigger w.deposits[t]]
                                w.deposits.contains_key(t) && w.deposits[t].client == c
                                    && w.deposits[t].state == DisputeState::ChargedBack;
                            assert(v.deposits[t] == w.deposits[t]);
                        }
                    }
                }
            },
            Operation::Withdrawal { .. } => {},
            Operation::Dispute { tx, .. } => {
                lemma_step_at(v, op, tx);
            },
            Operation::Resolve { tx, .. } => {
                lemma_step_at(v, op, tx);
            },
            Operation::Chargeback { tx, .. } => {
                lemma_step_at(v, op, tx);
            },
        }
    }
}

/// The dispute lifecycle steps keep the match of holds and locks.
proof fn lemma_step_at(v: LedgerView, op: Operation, tx: TxId)
    requires
        v.wf(),
        holds_match_disputes(v),
        holds_exactly(v, op),
        !v.is_locked(op.spec_client()),
        op matches Operation::Dispute { tx: t, .. } ==> t == tx,
        op matches Operation::Resolve { tx: t, .. } ==> t == tx,
        op matches Operation::Chargeback { tx: t, .. } ==> t == tx,
        op is Dispute || op is Resolve || op is Chargeback,
        account_or_fresh(v.accounts, op.spec_client()).held.value() == disputed_total(
            v.deposits,
            op.spec_client(),
        ),
        account_or_fresh(v.accounts, op.spec_client()).locked <==> charged_back(
            v.deposits,
            op.spec_client(),
        ),
    ensures
        holds_match_disputes(v.apply(op)),
{
    let client = op.spec_client();
    let a = account_or_fresh(v.accounts, client);
    let w = v.apply(op);
    let want = match op {
        Operation::Dispute { .. } => DisputeState::Undisputed,
        _ => DisputeState::Disputed,
    };
    if owned(v.deposits, client, tx) matches Some(s) && s.state == want {
        let s = v.deposits[tx];
        let next = match op {
            Operation::Dispute { .. } => DisputeState::Disputed,
            Operation::Resolve { .. } => DisputeState::Undisputed,
            _ => DisputeState::ChargedBack,
        };
        let x = StoredTx { state: next, ..s };
        assert(w.deposits == v.deposits.insert(tx, x));
        match op {
            Operation::Dispute { .. } => {
                lemma_unrounded_sum(a.held, s.amount);
            },
            _ => {
                lemma_unrounded_difference(a.held, s.amount);
            },
        }
        assert forall|c: ClientId| #[trigger] w.accounts.contains_key(c) implies w.accounts[
            c].held.value() == disputed_total(w.deposits, c) by {
            lemma_disputed_total_update(v.deposits, c, tx, x);
        }
        assert forall|c: ClientId| #[trigger] w.accounts.contains_key(c) implies (
        w.accounts[c].locked <==> charged_back(w.deposits, c)) by {
            if c == client && next == DisputeState::ChargedBack {
                assert(w.deposits[tx].state == DisputeState::ChargedBack);
            } else {
                if charged_back(v.deposits, c) {
                    let t = choose|t: TxId|
                        #![trigger v.deposits[t]]
                        v.deposits.contains_key(t) && v.deposits[t].client == c
                            && v.deposits[t].state == DisputeState::ChargedBack;
                    assert(t != tx);
                    assert(w.deposits[t] == v.deposits[t]);
                }
                if charged_back(w.deposits, c) {
                    let t = choose|t: TxId|
                        #![trigger w.deposits[t]]
                        w.deposits.contains_key(t) && w.deposits[t].client == c
                            && w.deposits[t].state == DisputeState::ChargedBack;
                    assert(t != tx);
                    assert(v.deposits[t] == w.deposits[t]);
                }
            }
        }
    }
}

/// The ids counted as seen grow only by the operation's own id: a deposit or
/// withdrawal on an unlocked account adds its tx id, and nothing else is ever
/// added or taken away. So an id that no deposit or withdrawal brought in stays
/// unseen, and a deposit that first brings it in is credited.
pub proof fn lemma_seen_grows_by_own_id(v: LedgerView, op: Operation)
    ensures
        v.seen.subset_of(v.apply(op).seen),
        forall|t: TxId|
            #[trigger] v.apply(op).seen.contains(t) ==> v.seen.contains(t) || op.new_id() == Some(
                t,
            ),
        !v.is_locked(op.spec_client()) ==> (op.new_id() matches Some(t) ==> v.apply(
            op,
        ).seen.contains(t)),
{
}

/// A dispute can always be applied: where the hold of its funds would overflow,
/// the balances stay as they are and the operation still goes through.
pub proof fn lemma_dispute_always_applies(v: LedgerView, client: ClientId, tx: TxId)
    ensures
        v.can_apply(Operation::Dispute { client, tx }),
        v.apply(Operation::Dispute { client, tx }).accounts.contains_key(client),
{
}

/// A withdrawal of an amount not below zero can always be applied, whatever the
/// available funds: one they do not cover is ignored rather than refused. The
/// client's account exists afterwards.
pub proof fn lemma_withdrawal_always_applies(
    v: LedgerView,
    client: ClientId,
    tx: TxId,
    amount: Amount,
)
    requires
        v.wf(),
        amount.wf(),
        amount.value() >= 0,
    ensures
        v.can_apply(Operation::Withdrawal { client, tx, amount }),
        v.apply(Operation::Withdrawal { client, tx, amount }).accounts.contains_key(client),
{
    lemma_withdraw_can_run(account_or_fresh(v.accounts, client), amount);
}

/// Processing an operation against the accounts and the stored deposits does what
/// applying it to a ledger does, where the ids seen are the ids of the stored
/// deposits: the same accounts and deposits come out, and it can run on the same
/// inputs.
pub proof fn lemma_process_agrees_with_apply(v: LedgerView, op: Operation)
    requires
        v.seen == v.deposits.dom(),
    ensures
        op.process_result(v.accounts, v.deposits) == (v.apply(op).accounts, v.apply(op).deposits),
        op.can_process(v.accounts, v.deposits) == v.can_apply(op),
{
}

} // verus!
