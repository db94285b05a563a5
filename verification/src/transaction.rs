//! The record of a processed transaction, kept to service disputes.

use vstd::prelude::*;
use crate::amount::Amount;

verus! {

/// Where a transaction sits in the dispute lifecycle.
#[derive(Clone, Copy, Debug, PartialEq, Eq, Structural)]
pub enum DisputeState {
    Undisputed,
    Disputed,
    ChargedBack,
}

/// A processed transaction's client and amount, stored by transaction id, along
/// with its dispute lifecycle state.
#[derive(Clone, Copy, Debug, PartialEq, Eq)]
pub struct StoredTx {
    pub client: u16,
    pub amount: Amount,
    pub state: DisputeState,
}

/// Every stored amount is well formed.
pub open spec fn txs_wf(txs: Map<u32, StoredTx>) -> bool {
    forall|tx: u32| #[trigger] txs.contains_key(tx) ==> txs[tx].amount.wf()
}

/// The stored transaction `tx` where it exists and belongs to `client`.
pub open spec fn owned(txs: Map<u32, StoredTx>, client: u16, tx: u32) -> Option<StoredTx> {
    if txs.contains_key(tx) && txs[tx].client == client {
        Some(txs[tx])
    } else {
        None
    }
}


/// The amount of `tx` where it is a deposit of `client` under dispute, else zero.
pub open spec fn disputed_amount(txs: Map<u32, StoredTx>, client: u16, tx: u32) -> int {
    if txs.contains_key(tx) && txs[tx].client == client && txs[tx].state
        == DisputeState::Disputed {
        txs[tx].amount.value()
    } else {
        0
    }
}

/// The sum of `disputed_amount` over the transaction ids `ids`.
pub open spec fn disputed_sum(txs: Map<u32, StoredTx>, client: u16, ids: Set<u32>) -> int
    decreases ids.len(),
{
    if ids.finite() && ids.len() > 0 {
        let t = ids.choose();
        proof {
            lemma_choose_in(ids);
        }
        disputed_amount(txs, client, t) + disputed_sum(txs, client, ids.remove(t))
    } else {
        0
    }
}

/// The amounts of the client's deposits under dispute, added up.
pub open spec fn disputed_total(txs: Map<u32, StoredTx>, client: u16) -> int {
    disputed_sum(txs, client, txs.dom())
}

/// A finite set that is not empty holds what `choose` picks.
pub proof fn lemma_choose_in(ids: Set<u32>)
    requires
        ids.finite(),
        ids.len() > 0,
    ensures
        ids.contains(ids.choose()),
        ids.remove(ids.choose()).len() < ids.len(),
{
    if ids =~= Set::empty() {
        assert(ids.len() == 0);
    }
    assert(exists|t: u32| ids.contains(t));
}


/// Taking any one id out of the sum takes out its amount.
pub proof fn lemma_disputed_sum_remove(txs: Map<u32, StoredTx>, client: u16, ids: Set<u32>, t: u32)
    requires
        ids.finite(),
        ids.contains(t),
    ensures
        disputed_sum(txs, client, ids) == disputed_amount(txs, client, t) + disputed_sum(
            txs,
            client,
            ids.remove(t),
        ),
    decreases ids.len(),
{
    lemma_choose_in(ids);
    let u = ids.choose();
    if u != t {
        lemma_disputed_sum_remove(txs, client, ids.remove(u), t);
        lemma_disputed_sum_remove(txs, client, ids.remove(t), u);
        assert(ids.remove(u).remove(t) =~= ids.remove(t).remove(u));
    }
}

/// Two stores that give the same disputed amounts on `ids` give the same sum.
pub proof fn lemma_disputed_sum_agree(
    txs1: Map<u32, StoredTx>,
    txs2: Map<u32, StoredTx>,
    client: u16,
    ids: Set<u32>,
)
    requires
        forall|t: u32|
            ids.contains(t) ==> disputed_amount(txs1, client, t) == disputed_amount(
                txs2,
                client,
                t,
            ),
    ensures
        disputed_sum(txs1, client, ids) == disputed_sum(txs2, client, ids),
    decreases ids.len(),
{
    if ids.finite() && ids.len() > 0 {
        lemma_choose_in(ids);
        lemma_disputed_sum_agree(txs1, txs2, client, ids.remove(ids.choose()));
    }
}

/// A client with no stored deposit has nothing under dispute.
pub proof fn lemma_disputed_total_none(txs: Map<u32, StoredTx>, client: u16)
    requires
        forall|t: u32| txs.contains_key(t) ==> txs[t].client != client,
    ensures
        disputed_total(txs, client) == 0,
{
    lemma_disputed_sum_agree(txs, Map::empty(), client, txs.dom());
    lemma_disputed_sum_zero(client, txs.dom());
}

/// The empty store sums to zero over any ids.
pub proof fn lemma_disputed_sum_zero(client: u16, ids: Set<u32>)
    ensures
        disputed_sum(Map::empty(), client, ids) == 0,
    decreases ids.len(),
{
    if ids.finite() && ids.len() > 0 {
        lemma_choose_in(ids);
        lemma_disputed_sum_zero(client, ids.remove(ids.choose()));
    }
}

/// Replacing the record of a stored id changes the total by the difference of its
/// disputed amounts.
pub proof fn lemma_disputed_total_update(
    txs: Map<u32, StoredTx>,
    client: u16,
    t: u32,
    x: StoredTx,
)
    requires
        txs.dom().finite(),
        txs.contains_key(t),
    ensures
        disputed_total(txs.insert(t, x), client) == disputed_total(txs, client) - disputed_amount(
            txs,
            client,
            t,
        ) + disputed_amount(txs.insert(t, x), client, t),
{
    let txs2 = txs.insert(t, x);
    assert(txs2.dom() =~= txs.dom());
    lemma_disputed_sum_remove(txs, client, txs.dom(), t);
    lemma_disputed_sum_remove(txs2, client, txs.dom(), t);
    lemma_disputed_sum_agree(txs, txs2, client, txs.dom().remove(t));
}

/// Storing a new id adds its disputed amount to the total.
pub proof fn lemma_disputed_total_insert(
    txs: Map<u32, StoredTx>,
    client: u16,
    t: u32,
    x: StoredTx,
)
    requires
        txs.dom().finite(),
        !txs.contains_key(t),
    ensures
        disputed_total(txs.insert(t, x), client) == disputed_total(txs, client) + disputed_amount(
            txs.insert(t, x),
            client,
            t,
        ),
{
    let txs2 = txs.insert(t, x);
    assert(txs2.dom().remove(t) =~= txs.dom());
    lemma_disputed_sum_remove(txs2, client, txs2.dom(), t);
    lemma_disputed_sum_agree(txs, txs2, client, txs.dom());
}

} // verus!
