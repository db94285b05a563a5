//! The accounts, kept in an `iddqd::IdOrdMap` keyed by client id.

use vstd::prelude::*;
use iddqd::IdOrdMap;
use crate::account::Account;

verus! {

/// The map type `iddqd::IdOrdMap`, opaque to Verus: what it holds is
/// `account_entries`.
#[verifier::external_type_specification]
#[verifier::external_body]
#[verifier::reject_recursive_types(T)]
pub struct ExIdOrdMap<T>(IdOrdMap<T>);

/// The accounts that a map holds, by client id.
pub uninterp spec fn account_entries(m: IdOrdMap<Account>) -> Map<u16, Account>;

/// Each account is stored under its own client id and is well formed.
pub open spec fn accounts_wf(m: Map<u16, Account>) -> bool {
    forall|c: u16| #[trigger] m.contains_key(c) ==> m[c].client_id == c && m[c].wf()
}

/// The account of `client`, or a fresh one where it has none yet.
pub open spec fn account_or_fresh(m: Map<u16, Account>, client: u16) -> Account {
    if m.contains_key(client) {
        m[client]
    } else {
        Account::fresh(client)
    }
}

/// Calls `IdOrdMap::new`, which makes an empty map.
#[verifier::external_body]
pub(crate) fn new_account_map() -> (result: IdOrdMap<Account>)
    ensures
        account_entries(result) =~= Map::empty(),
{
    IdOrdMap::new()
}

/// An empty map of accounts.
pub fn empty_accounts() -> (result: IdOrdMap<Account>)
    ensures
        account_entries(result) =~= Map::<u16, Account>::empty(),
        accounts_wf(account_entries(result)),
{
    new_account_map()
}

/// Calls `IdOrdMap::get`: the item whose key is `client`, copied, if there is one.
#[verifier::external_body]
pub(crate) fn get_account(m: &IdOrdMap<Account>, client: u16) -> (result: Option<Account>)
    ensures
        result == (if account_entries(*m).contains_key(client) {
            Some(account_entries(*m)[client])
        } else {
            None
        }),
{
    m.get(&client).copied()
}

/// Calls `IdOrdMap::insert_unique` for a key that the map does not hold, which
/// adds the item under its key.
#[verifier::external_body]
pub(crate) fn insert_new_account(m: &mut IdOrdMap<Account>, account: Account)
    requires
        !account_entries(*old(m)).contains_key(account.client_id),
    ensures
        account_entries(*final(m)) == account_entries(*old(m)).insert(account.client_id, account),
{
    let _ = m.insert_unique(account);
}

/// Calls `IdOrdMap::insert_overwrite`, which puts the item under its key in place
/// of any item there, and hands back the item it replaced.
#[verifier::external_body]
pub(crate) fn store_account(m: &mut IdOrdMap<Account>, account: Account) -> (result: Option<
    Account,
>)
    ensures
        account_entries(*final(m)) == account_entries(*old(m)).insert(account.client_id, account),
        result == (if account_entries(*old(m)).contains_key(account.client_id) {
            Some(account_entries(*old(m))[account.client_id])
        } else {
            None
        }),
{
    m.insert_overwrite(account)
}

/// Calls `IdOrdMap::iter`, which walks the items in key order, and copies them
/// out.
#[verifier::external_body]
pub(crate) fn account_list(m: &IdOrdMap<Account>) -> (result: Vec<Account>)
    ensures
        forall|i: int, j: int|
            0 <= i < j < result.len() ==> result[i].client_id < result[j].client_id,
        forall|i: int|
            0 <= i < result.len() ==> account_entries(*m).contains_key(result[i].client_id)
                && account_entries(*m)[result[i].client_id] == result[i],
        forall|c: u16|
            account_entries(*m).contains_key(c) ==> exists|i: int|
                0 <= i < result.len() && result[i].client_id == c,
{
    m.iter().copied().collect()
}

} // verus!
