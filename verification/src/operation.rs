//! Typed operations: an input row checked into an [`Operation`], and the
//! processing of an operation against a map of accounts and a transaction store.

use std::collections::HashMap;
use vstd::prelude::*;
use iddqd::IdOrdMap;
use crate::amount::{Amount, sum_is_unrounded};
use crate::account::{Account, lemma_withdraw_debits, lemma_withdraw_can_run};
use crate::account_map::{
    account_entries,
    accounts_wf,
    account_or_fresh,
    get_account,
    insert_new_account,
    store_account,
};
use crate::transaction::{DisputeState, StoredTx, txs_wf, owned};

verus! {

broadcast use vstd::std_specs::hash::group_hash_axioms;

pub type ClientId = u16;

pub type TxId = u32;

/// The `type` column of an input row.
#[derive(Clone, Copy, Debug, PartialEq, Eq, Structural)]
pub enum RecordType {
    Deposit,
    Withdrawal,
    Dispute,
    Resolve,
    Chargeback,
}

/// A raw input row, before per-type validation.
#[derive(Clone, Copy, Debug)]
pub struct Record {
    pub kind: RecordType,
    pub client: ClientId,
    pub tx: TxId,
    pub amount: Option<Amount>,
}

/// Why an input row is not an operation.
#[derive(Clone, Copy, Debug, PartialEq, Eq, Structural)]
pub enum ParseError {
    /// A deposit or withdrawal without an amount.
    MissingAmount,
    /// A deposit or withdrawal with an amount below zero.
    NegativeAmount,
}

/// A single transaction read from the input.
#[derive(Clone, Copy, Debug, PartialEq, Eq)]
pub enum Operation {
    /// Credit to a client's account: increases available and total funds.
    Deposit { client: ClientId, tx: TxId, amount: Amount },
    /// Debit from a client's account: decreases available and total funds.
    Withdrawal { client: ClientId, tx: TxId, amount: Amount },
    /// Claim that a referenced transaction was erroneous; holds its funds.
    Dispute { client: ClientId, tx: TxId },
    /// Resolution of a dispute; releases the held funds.
    Resolve { client: ClientId, tx: TxId },
    /// Final reversal of a disputed transaction; withdraws held funds and locks.
    Chargeback { client: ClientId, tx: TxId },
}

impl Record {
    pub open spec fn wf(self) -> bool {
        self.amount matches Some(a) ==> a.wf()
    }

    pub fn new(kind: RecordType, client: ClientId, tx: TxId, amount: Option<Amount>) -> (r: Record)
        ensures
            r == (Record { kind, client, tx, amount }),
    {
        Record { kind, client, tx, amount }
    }
}

/// The amount of a deposit or withdrawal row: present, and not below zero.
pub open spec fn required_amount(amount: Option<Amount>) -> Result<Amount, ParseError> {
    match amount {
        None => Err(ParseError::MissingAmount),
        Some(a) => if a.mantissa < 0 {
            Err(ParseError::NegativeAmount)
        } else {
            Ok(a)
        },
    }
}

/// The stored transactions after recording `tx`; a transaction id that is
/// already there keeps its first record.
pub open spec fn recorded(
    txs: Map<TxId, StoredTx>,
    client: ClientId,
    tx: TxId,
    amount: Amount,
) -> Map<TxId, StoredTx> {
    if txs.contains_key(tx) {
        txs
    } else {
        txs.insert(tx, StoredTx { client, amount, state: DisputeState::Undisputed })
    }
}

impl Operation {
    pub open spec fn wf(self) -> bool {
        match self {
            Operation::Deposit { amount, .. } => amount.wf(),
            Operation::Withdrawal { amount, .. } => amount.wf(),
            _ => true,
        }
    }

    /// The client that the operation names.
    pub open spec fn spec_client(self) -> ClientId {
        match self {
            Operation::Deposit { client, .. } => client,
            Operation::Withdrawal { client, .. } => client,
            Operation::Dispute { client, .. } => client,
            Operation::Resolve { client, .. } => client,
            Operation::Chargeback { client, .. } => client,
        }
    }

    /// The operation that a row stands for, or why it stands for none.
    pub open spec fn from_record(record: Record) -> Result<Operation, ParseError> {
        let Record { kind, client, tx, amount } = record;
        match kind {
            RecordType::Deposit => match required_amount(amount) {
                Ok(amount) => Ok(Operation::Deposit { client, tx, amount }),
                Err(e) => Err(e),
            },
            RecordType::Withdrawal => match required_amount(amount) {
                Ok(amount) => Ok(Operation::Withdrawal { client, tx, amount }),
                Err(e) => Err(e),
            },
            RecordType::Dispute => Ok(Operation::Dispute { client, tx }),
            RecordType::Resolve => Ok(Operation::Resolve { client, tx }),
            RecordType::Chargeback => Ok(Operation::Chargeback { client, tx }),
        }
    }

    /// The transaction id that a deposit or withdrawal brings in; none for the
    /// operations that refer to an earlier transaction.
    pub open spec fn new_id(self) -> Option<TxId> {
        match self {
            Operation::Deposit { tx, .. } => Some(tx),
            Operation::Withdrawal { tx, .. } => Some(tx),
            _ => None,
        }
    }

    /// Whether the operation brings in a transaction id that is among `seen`.
    pub open spec fn reuses_id(self, seen: Set<TxId>) -> bool {
        self.new_id() matches Some(t) && seen.contains(t)
    }

    /// Whether one step of this operation can run without an arithmetic overflow;
    /// `reused` says whether its transaction id was seen before.
    pub open spec fn can_step(
        self,
        accts: Map<ClientId, Account>,
        txs: Map<TxId, StoredTx>,
        reused: bool,
    ) -> bool {
        let a = account_or_fresh(accts, self.spec_client());
        if locked_in(accts, self.spec_client()) {
            true
        } else {
            match self {
                Operation::Deposit { amount, .. } => !reused ==> a.can_deposit(amount),
                Operation::Withdrawal { amount, .. } => !reused ==> a.can_withdraw(amount),
                Operation::Dispute { .. } => true,
                Operation::Resolve { client, tx } => match owned(txs, client, tx) {
                    Some(s) => s.state == DisputeState::Disputed ==> a.can_release(s.amount),
                    None => true,
                },
                Operation::Chargeback { client, tx } => match owned(txs, client, tx) {
                    Some(s) => s.state == DisputeState::Disputed ==> a.can_chargeback(s.amount),
                    None => true,
                },
            }
        }
    }

    /// The accounts and stored deposits after one step of this operation;
    /// `reused` says whether its transaction id was seen before.
    ///
    /// A locked account ignores every operation. Otherwise the client's account is
    /// created if it is new, even where the operation then fails. A deposit or
    /// withdrawal whose id was seen before moves no money. Only credited deposits
    /// are stored, and only they can be disputed: a dispute needs a stored deposit
    /// of the same client that is undisputed; a resolve or a chargeback needs one
    /// under dispute.
    pub open spec fn step_result(
        self,
        accts: Map<ClientId, Account>,
        txs: Map<TxId, StoredTx>,
        reused: bool,
    ) -> (Map<ClientId, Account>, Map<TxId, StoredTx>) {
        let a = account_or_fresh(accts, self.spec_client());
        if locked_in(accts, self.spec_client()) {
            (accts, txs)
        } else {
            match self {
                Operation::Deposit { client, tx, amount } => if reused {
                    (accts.insert(client, a), txs)
                } else {
                    match a.deposit_result(amount) {
                        Ok(b) => (accts.insert(client, b), recorded(txs, client, tx, amount)),
                        Err(_) => (accts.insert(client, a), txs),
                    }
                },
                Operation::Withdrawal { client, amount, .. } => if reused {
                    (accts.insert(client, a), txs)
                } else {
                    match a.withdraw_result(amount) {
                        Ok(b) => (accts.insert(client, b), txs),
                        Err(_) => (accts.insert(client, a), txs),
                    }
                },
                Operation::Dispute { client, tx } => dispute_result(accts, txs, client, tx),
                Operation::Resolve { client, tx } => resolve_result(accts, txs, client, tx),
                Operation::Chargeback { client, tx } => chargeback_result(accts, txs, client, tx),
            }
        }
    }

    /// Whether `process` can run on these accounts and transactions without an
    /// arithmetic overflow.
    pub open spec fn can_process(
        self,
        accts: Map<ClientId, Account>,
        txs: Map<TxId, StoredTx>,
    ) -> bool {
        self.can_step(accts, txs, self.reuses_id(txs.dom()))
    }

    /// The accounts and transactions after `process`, which takes the ids of the
    /// stored deposits as the ids seen before.
    pub open spec fn process_result(
        self,
        accts: Map<ClientId, Account>,
        txs: Map<TxId, StoredTx>,
    ) -> (Map<ClientId, Account>, Map<TxId, StoredTx>) {
        self.step_result(accts, txs, self.reuses_id(txs.dom()))
    }

    /// The client that the operation names.
    pub fn client(&self) -> (r: ClientId)
        ensures
            r == self.spec_client(),
    {
        match self {
            Operation::Deposit { client, .. } => *client,
            Operation::Withdrawal { client, .. } => *client,
            Operation::Dispute { client, .. } => *client,
            Operation::Resolve { client, .. } => *client,
            Operation::Chargeback { client, .. } => *client,
        }
    }

    /// Check a row into an operation: deposits and withdrawals need an amount that
    /// is present and not below zero; disputes, resolves and chargebacks carry none.
    pub fn try_from(record: Record) -> (r: Result<Operation, ParseError>)
        requires
            record.wf(),
        ensures
            r == Operation::from_record(record),
            r matches Ok(op) ==> op.wf(),
    {
        let Record { kind, client, tx, amount } = record;
        match kind {
            RecordType::Deposit => match require_amount(amount) {
                Ok(amount) => Ok(Operation::Deposit { client, tx, amount }),
                Err(e) => Err(e),
            },
            RecordType::Withdrawal => match require_amount(amount) {
                Ok(amount) => Ok(Operation::Withdrawal { client, tx, amount }),
                Err(e) => Err(e),
            },
            RecordType::Dispute => Ok(Operation::Dispute { client, tx }),
            RecordType::Resolve => Ok(Operation::Resolve { client, tx }),
            RecordType::Chargeback => Ok(Operation::Chargeback { client, tx }),
        }
    }

    /// Whether this operation brings in a transaction id that is a stored deposit.
    fn reuses_stored_id(&self, txs: &HashMap<TxId, StoredTx>) -> (r: bool)
        ensures
            r == self.reuses_id(txs@.dom()),
    {
        match self {
            Operation::Deposit { tx, .. } => txs.contains_key(tx),
            Operation::Withdrawal { tx, .. } => txs.contains_key(tx),
            _ => false,
        }
    }

    /// Whether one step of this operation can run without an arithmetic overflow.
    pub(crate) fn fits_step(
        &self,
        accounts: &IdOrdMap<Account>,
        txs: &HashMap<TxId, StoredTx>,
        reused: bool,
    ) -> (r: bool)
        requires
            self.wf(),
            accounts_wf(account_entries(*accounts)),
            txs_wf(txs@),
        ensures
            r == self.can_step(account_entries(*accounts), txs@, reused),
    {
        let a = peek_account(accounts, self.client());
        if a.locked() {
            return true;
        }
        match self {
            Operation::Deposit { amount, .. } => reused || a.fits_deposit(amount),
            Operation::Withdrawal { amount, .. } => reused || a.fits_withdraw(amount),
            Operation::Dispute { .. } => true,
            Operation::Resolve { client, tx } => match owned_tx(txs, *client, *tx) {
                None => true,
                Some(s) => s.state != DisputeState::Disputed || a.fits_release(&s.amount),
            },
            Operation::Chargeback { client, tx } => match owned_tx(txs, *client, *tx) {
                None => true,
                Some(s) => s.state != DisputeState::Disputed || a.fits_chargeback(&s.amount),
            },
        }
    }

    /// One step of this operation on the accounts and stored deposits; `reused`
    /// says whether its transaction id was seen before.
    pub(crate) fn step(
        &self,
        accounts: &mut IdOrdMap<Account>,
        txs: &mut HashMap<TxId, StoredTx>,
        reused: bool,
    )
        requires
            self.wf(),
            accounts_wf(account_entries(*old(accounts))),
            txs_wf(old(txs)@),
            self.can_step(account_entries(*old(accounts)), old(txs)@, reused),
        ensures
            accounts_wf(account_entries(*final(accounts))),
            txs_wf(final(txs)@),
            (account_entries(*final(accounts)), final(txs)@) == self.step_result(
                account_entries(*old(accounts)),
                old(txs)@,
                reused,
            ),
    {
        if is_locked(accounts, self.client()) {
            return ;
        }
        match self {
            Operation::Deposit { client, tx, amount } => {
                let mut account = account_mut(accounts, *client);
                if reused {
                    return ;
                }
                let result = account.deposit(*amount);
                store_account(accounts, account);
                if result.is_ok() {
                    record_tx(txs, *client, *tx, *amount);
                }
            },
            Operation::Withdrawal { client, amount, .. } => {
                let mut account = account_mut(accounts, *client);
                if reused {
                    return ;
                }
                let _ = account.withdraw(*amount);
                store_account(accounts, account);
            },
            Operation::Dispute { client, tx } => dispute(accounts, txs, *client, *tx),
            Operation::Resolve { client, tx } => resolve(accounts, txs, *client, *tx),
            Operation::Chargeback { client, tx } => chargeback(accounts, txs, *client, *tx),
        }
    }

    /// Whether `process` can take this operation without an arithmetic overflow.
    pub fn fits_process(&self, accounts: &IdOrdMap<Account>, txs: &HashMap<TxId, StoredTx>) -> (r:
        bool)
        requires
            self.wf(),
            accounts_wf(account_entries(*accounts)),
            txs_wf(txs@),
        ensures
            r == self.can_process(account_entries(*accounts), txs@),
    {
        let reused = self.reuses_stored_id(txs);
        self.fits_step(accounts, txs, reused)
    }

    /// Process this operation where that can run without an arithmetic overflow,
    /// and say whether it did; the accounts and transactions are left as they are
    /// where it cannot.
    pub fn try_process(
        &self,
        accounts: &mut IdOrdMap<Account>,
        txs: &mut HashMap<TxId, StoredTx>,
    ) -> (r: bool)
        requires
            self.wf(),
            accounts_wf(account_entries(*old(accounts))),
            txs_wf(old(txs)@),
        ensures
            accounts_wf(account_entries(*final(accounts))),
            txs_wf(final(txs)@),
            r == self.can_process(account_entries(*old(accounts)), old(txs)@),
            r ==> (account_entries(*final(accounts)), final(txs)@) == self.process_result(
                account_entries(*old(accounts)),
                old(txs)@,
            ),
            !r ==> account_entries(*final(accounts)) == account_entries(*old(accounts)),
            !r ==> final(txs)@ == old(txs)@,
    {
        if self.fits_process(accounts, txs) {
            self.process(accounts, txs);
            true
        } else {
            false
        }
    }

    /// Apply this operation to the account map, using the transaction store to
    /// record credited deposits and to service disputes. The ids of the stored
    /// deposits are the ids it takes as seen: a deposit or withdrawal that reuses
    /// one moves no money.
    pub fn process(&self, accounts: &mut IdOrdMap<Account>, txs: &mut HashMap<TxId, StoredTx>)
        requires
            self.wf(),
            accounts_wf(account_entries(*old(accounts))),
            txs_wf(old(txs)@),
            self.can_process(account_entries(*old(accounts)), old(txs)@),
        ensures
            accounts_wf(account_entries(*final(accounts))),
            txs_wf(final(txs)@),
            (account_entries(*final(accounts)), final(txs)@) == self.process_result(
                account_entries(*old(accounts)),
                old(txs)@,
            ),
    {
        let reused = self.reuses_stored_id(txs);
        self.step(accounts, txs, reused);
    }
}

/// Whether the account of `client` exists and is locked.
pub open spec fn locked_in(accts: Map<ClientId, Account>, client: ClientId) -> bool {
    accts.contains_key(client) && accts[client].locked
}

/// Whether the account of `client` exists and is frozen.
pub(crate) fn is_locked(accounts: &IdOrdMap<Account>, client: ClientId) -> (r: bool)
    ensures
        r == locked_in(account_entries(*accounts), client),
{
    match get_account(accounts, client) {
        Some(account) => account.locked(),
        None => false,
    }
}

/// The account of `client`, or a fresh one, without storing it.
pub(crate) fn peek_account(accounts: &IdOrdMap<Account>, client: ClientId) -> (r: Account)
    requires
        accounts_wf(account_entries(*accounts)),
    ensures
        r == account_or_fresh(account_entries(*accounts), client),
        r.wf(),
{
    match get_account(accounts, client) {
        Some(account) => account,
        None => Account::new(client),
    }
}

/// The accounts and transactions after a dispute: the funds of a transaction the
/// client owns and that is not under dispute are held (where the hold fits), and
/// the transaction is marked disputed.
pub open spec fn dispute_result(
    accts: Map<ClientId, Account>,
    txs: Map<TxId, StoredTx>,
    client: ClientId,
    tx: TxId,
) -> (Map<ClientId, Account>, Map<TxId, StoredTx>) {
    let a = account_or_fresh(accts, client);
    match owned(txs, client, tx) {
        None => (accts.insert(client, a), txs),
        Some(s) => if s.state != DisputeState::Undisputed {
            (accts.insert(client, a), txs)
        } else {
            let a2 = match a.hold_result(s.amount) {
                Ok(b) => b,
                Err(_) => a,
            };
            (
                accts.insert(client, a2),
                txs.insert(tx, StoredTx { state: DisputeState::Disputed, ..s }),
            )
        },
    }
}

/// The accounts and transactions after a resolve: the held funds of a disputed
/// transaction go back to available, and the dispute ends.
pub open spec fn resolve_result(
    accts: Map<ClientId, Account>,
    txs: Map<TxId, StoredTx>,
    client: ClientId,
    tx: TxId,
) -> (Map<ClientId, Account>, Map<TxId, StoredTx>) {
    let a = account_or_fresh(accts, client);
    match owned(txs, client, tx) {
        None => (accts.insert(client, a), txs),
        Some(s) => if s.state != DisputeState::Disputed {
            (accts.insert(client, a), txs)
        } else {
            (
                accts.insert(client, a.release_result(s.amount)),
                txs.insert(tx, StoredTx { state: DisputeState::Undisputed, ..s }),
            )
        },
    }
}

/// The accounts and transactions after a chargeback: the held funds of a
/// disputed transaction go, the account locks, and the dispute ends.
pub open spec fn chargeback_result(
    accts: Map<ClientId, Account>,
    txs: Map<TxId, StoredTx>,
    client: ClientId,
    tx: TxId,
) -> (Map<ClientId, Account>, Map<TxId, StoredTx>) {
    let a = account_or_fresh(accts, client);
    match owned(txs, client, tx) {
        None => (accts.insert(client, a), txs),
        Some(s) => if s.state != DisputeState::Disputed {
            (accts.insert(client, a), txs)
        } else {
            (
                accts.insert(client, a.chargeback_result(s.amount)),
                txs.insert(tx, StoredTx { state: DisputeState::ChargedBack, ..s }),
            )
        },
    }
}

/// Append a processed transaction to the store, keyed by its id; an id that is
/// already there is left as it is.
fn record_tx(txs: &mut HashMap<TxId, StoredTx>, client: ClientId, tx: TxId, amount: Amount)
    requires
        txs_wf(old(txs)@),
        amount.wf(),
    ensures
        txs_wf(final(txs)@),
        final(txs)@ == recorded(old(txs)@, client, tx, amount),
{
    if !txs.contains_key(&tx) {
        txs.insert(tx, StoredTx { client, amount, state: DisputeState::Undisputed });
    }
}

/// Look up a stored transaction that `client` owns: `None` when it is unknown or
/// belongs to another client.
pub(crate) fn owned_tx(txs: &HashMap<TxId, StoredTx>, client: ClientId, tx: TxId) -> (r: Option<
    StoredTx,
>)
    ensures
        r == owned(txs@, client, tx),
{
    match txs.get(&tx) {
        None => None,
        Some(stored) => if stored.client != client {
            None
        } else {
            Some(*stored)
        },
    }
}

/// Hold the disputed funds: available decreases, held increases, total unchanged.
fn dispute(
    accounts: &mut IdOrdMap<Account>,
    txs: &mut HashMap<TxId, StoredTx>,
    client: ClientId,
    tx: TxId,
)
    requires
        accounts_wf(account_entries(*old(accounts))),
        txs_wf(old(txs)@),
        !locked_in(account_entries(*old(accounts)), client),
    ensures
        accounts_wf(account_entries(*final(accounts))),
        txs_wf(final(txs)@),
        (account_entries(*final(accounts)), final(txs)@) == dispute_result(
            account_entries(*old(accounts)),
            old(txs)@,
            client,
            tx,
        ),
{
    let mut account = account_mut(accounts, client);
    let stored = match owned_tx(txs, client, tx) {
        Some(s) => s,
        None => return ,
    };
    if stored.state != DisputeState::Undisputed {
        return ;
    }
    txs.insert(tx, StoredTx { state: DisputeState::Disputed, ..stored });
    let _ = account.hold(stored.amount);
    store_account(accounts, account);
}

/// Release previously held funds: held decreases, available increases.
fn resolve(
    accounts: &mut IdOrdMap<Account>,
    txs: &mut HashMap<TxId, StoredTx>,
    client: ClientId,
    tx: TxId,
)
    requires
        accounts_wf(account_entries(*old(accounts))),
        txs_wf(old(txs)@),
        !locked_in(account_entries(*old(accounts)), client),
        (Operation::Resolve { client, tx }).can_step(account_entries(*old(accounts)), old(txs)@, false),
    ensures
        accounts_wf(account_entries(*final(accounts))),
        txs_wf(final(txs)@),
        (account_entries(*final(accounts)), final(txs)@) == resolve_result(
            account_entries(*old(accounts)),
            old(txs)@,
            client,
            tx,
        ),
{
    let mut account = account_mut(accounts, client);
    let stored = match owned_tx(txs, client, tx) {
        Some(s) => s,
        None => return ,
    };
    if stored.state != DisputeState::Disputed {
        return ;
    }
    txs.insert(tx, StoredTx { state: DisputeState::Undisputed, ..stored });
    account.release(stored.amount);
    store_account(accounts, account);
}

/// Reverse the disputed transaction: held and total decrease, account is frozen.
fn chargeback(
    accounts: &mut IdOrdMap<Account>,
    txs: &mut HashMap<TxId, StoredTx>,
    client: ClientId,
    tx: TxId,
)
    requires
        accounts_wf(account_entries(*old(accounts))),
        txs_wf(old(txs)@),
        !locked_in(account_entries(*old(accounts)), client),
        (Operation::Chargeback { client, tx }).can_step(account_entries(*old(accounts)), old(txs)@, false),
    ensures
        accounts_wf(account_entries(*final(accounts))),
        txs_wf(final(txs)@),
        (account_entries(*final(accounts)), final(txs)@) == chargeback_result(
            account_entries(*old(accounts)),
            old(txs)@,
            client,
            tx,
        ),
{
    let mut account = account_mut(accounts, client);
    let stored = match owned_tx(txs, client, tx) {
        Some(s) => s,
        None => return ,
    };
    if stored.state != DisputeState::Disputed {
        return ;
    }
    txs.insert(tx, StoredTx { state: DisputeState::ChargedBack, ..stored });
    account.chargeback(stored.amount);
    store_account(accounts, account);
}

/// Get the account for `client`, inserting a fresh one if it does not exist.
pub(crate) fn account_mut(accounts: &mut IdOrdMap<Account>, client: ClientId) -> (r: Account)
    requires
        accounts_wf(account_entries(*old(accounts))),
    ensures
        r == account_or_fresh(account_entries(*old(accounts)), client),
        r.client_id == client,
        r.wf(),
        account_entries(*final(accounts)) == account_entries(*old(accounts)).insert(client, r),
        accounts_wf(account_entries(*final(accounts))),
{
    match get_account(accounts, client) {
        Some(account) => {
            assert(account_entries(*old(accounts)).insert(client, account) =~= account_entries(
                *old(accounts),
            ));
            account
        },
        None => {
            let account = Account::new(client);
            insert_new_account(accounts, account);
            account
        },
    }
}

/// Validate that a deposit or withdrawal amount is present and not below zero.
fn require_amount(amount: Option<Amount>) -> (r: Result<Amount, ParseError>)
    requires
        amount matches Some(a) ==> a.wf(),
    ensures
        r == required_amount(amount),
{
    let amount = match amount {
        Some(a) => a,
        None => return Err(ParseError::MissingAmount),
    };
    if amount.is_sign_negative() {
        return Err(ParseError::NegativeAmount);
    }
    Ok(amount)
}


/// `process` keeps the rules of the ledger: a locked account ignores every
/// operation; a deposit or withdrawal that reuses a stored deposit's id moves no
/// money; withdrawals are never stored, so only deposits can be disputed; a
/// charged-back deposit stays charged back; and the client's account exists
/// afterwards.
pub proof fn lemma_process_rules(op: Operation, accts: Map<ClientId, Account>, txs: Map<TxId, StoredTx>)
    ensures
        locked_in(accts, op.spec_client()) ==> op.process_result(accts, txs) == (accts, txs),
        op.reuses_id(txs.dom()) && !locked_in(accts, op.spec_client()) ==> op.process_result(
            accts,
            txs,
        ) == (accts.insert(op.spec_client(), account_or_fresh(accts, op.spec_client())), txs),
        op is Withdrawal ==> op.process_result(accts, txs).1 == txs,
        forall|t: TxId|
            txs.contains_key(t) && txs[t].state == DisputeState::ChargedBack ==> (
            #[trigger] op.process_result(accts, txs).1).contains_key(t) && op.process_result(
                accts,
                txs,
            ).1[t] == txs[t],
        op.process_result(accts, txs).0.contains_key(op.spec_client()),
{
}

/// A row keeps its client and transaction id when it is checked: a dispute,
/// resolve or chargeback row always gives that operation for the row's client and
/// tx; a deposit or withdrawal row gives that operation for the row's client, tx
/// and amount where the amount is present and not below zero, and says which of
/// the two is wrong where it is not.
pub proof fn lemma_row_checked_keeps_fields(record: Record)
    ensures
        record.kind is Dispute ==> Operation::from_record(record) == Ok::<Operation, ParseError>(
            Operation::Dispute { client: record.client, tx: record.tx },
        ),
        record.kind is Resolve ==> Operation::from_record(record) == Ok::<Operation, ParseError>(
            Operation::Resolve { client: record.client, tx: record.tx },
        ),
        record.kind is Chargeback ==> Operation::from_record(record) == Ok::<
            Operation,
            ParseError,
        >(Operation::Chargeback { client: record.client, tx: record.tx }),
        record.kind is Deposit && record.amount is Some && record.amount.unwrap().mantissa >= 0
            ==> Operation::from_record(record) == Ok::<Operation, ParseError>(
            Operation::Deposit { client: record.client, tx: record.tx, amount: record.amount.unwrap() },
        ),
        record.kind is Withdrawal && record.amount is Some && record.amount.unwrap().mantissa >= 0
            ==> Operation::from_record(record) == Ok::<Operation, ParseError>(
            Operation::Withdrawal { client: record.client, tx: record.tx, amount: record.amount.unwrap() },
        ),
        (record.kind is Deposit || record.kind is Withdrawal) && record.amount is None
            ==> Operation::from_record(record) == Err::<Operation, ParseError>(
            ParseError::MissingAmount,
        ),
        (record.kind is Deposit || record.kind is Withdrawal) && record.amount is Some
            && record.amount.unwrap().mantissa < 0 ==> Operation::from_record(record) == Err::<
            Operation,
            ParseError,
        >(ParseError::NegativeAmount),
        Operation::from_record(record) matches Ok(op) ==> op.spec_client() == record.client,
{
}

/// A withdrawal with a new transaction id on an unlocked account never fails for
/// want of room: it can always be processed where its amount is not below zero.
/// Where the available funds are short of the amount, the account is left as it
/// was (made fresh if it is new); where they cover it, the amount comes off
/// available and nothing else changes, where the difference loses no digit. No
/// other account changes, and nothing is stored.
pub proof fn lemma_process_withdrawal(
    accts: Map<ClientId, Account>,
    txs: Map<TxId, StoredTx>,
    client: ClientId,
    tx: TxId,
    amount: Amount,
)
    requires
        accounts_wf(accts),
        amount.wf(),
        !locked_in(accts, client),
        !txs.contains_key(tx),
    ensures
        ({
            let op = Operation::Withdrawal { client, tx, amount };
            let a = account_or_fresh(accts, client);
            let (after, stored) = op.process_result(accts, txs);
            &&& amount.value() >= 0 ==> op.can_process(accts, txs)
            &&& stored == txs
            &&& after == accts.insert(client, after[client])
            &&& a.available.value() < amount.value() ==> after[client] == a
            &&& !(a.available.value() < amount.value()) && sum_is_unrounded(
                a.available,
                amount.neg(),
            ) ==> {
                &&& after[client].available.value() == a.available.value() - amount.value()
                &&& after[client].held == a.held
                &&& after[client].locked == a.locked
                &&& after[client].client_id == client
            }
        }),
{
    let op = Operation::Withdrawal { client, tx, amount };
    let a = account_or_fresh(accts, client);
    assert(a.wf());
    lemma_withdraw_debits(a, amount);
    if amount.value() >= 0 {
        lemma_withdraw_can_run(a, amount);
    }
    let (after, stored) = op.process_result(accts, txs);
    assert(after =~= accts.insert(client, after[client]));
}

/// A dispute can always be processed: a hold that would overflow leaves the
/// balances as they are rather than stopping the operation.
pub proof fn lemma_process_dispute_always_runs(
    accts: Map<ClientId, Account>,
    txs: Map<TxId, StoredTx>,
    client: ClientId,
    tx: TxId,
)
    ensures
        (Operation::Dispute { client, tx }).can_process(accts, txs),
{
}

} // verus!
