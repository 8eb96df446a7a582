//! The mathematical model of a client's ledger entry store.
//!
//! The store is kept as a sequence of transactions in arrival order with
//! pairwise distinct ids, so it denotes an append-only map from
//! transaction id to stored record. The spec functions here look a
//! record up by id and sum the amounts frozen by open disputes; the
//! lemmas relate both to pushing a record and to flag updates in place.

use vstd::prelude::*;

use crate::transaction::Transaction;

verus! {

/// Index in `s` of the transaction with id `id`, or -1 when absent.
/// With pairwise distinct ids the choice of occurrence is immaterial.
pub open spec fn tx_index(s: Seq<Transaction>, id: u32) -> int
    decreases s.len(),
{
    if s.len() == 0 {
        -1
    } else if s.last().tx_id == id {
        s.len() - 1
    } else {
        tx_index(s.drop_last(), id)
    }
}

/// Whether the store holds a transaction with id `id`.
pub open spec fn has_tx(s: Seq<Transaction>, id: u32) -> bool {
    tx_index(s, id) >= 0
}

/// The stored transaction with id `id` (meaningful only when present).
pub open spec fn tx_at(s: Seq<Transaction>, id: u32) -> Transaction {
    s[tx_index(s, id)]
}

/// No two stored transactions share an id.
pub open spec fn unique_ids(s: Seq<Transaction>) -> bool {
    forall|i: int, j: int| 0 <= i < j < s.len() ==> s[i].tx_id != s[j].tx_id
}

/// What a stored transaction contributes to the held balance: its
/// amount while it is a deposit under open dispute, zero otherwise.
pub open spec fn held_contribution(t: Transaction) -> int {
    if t.tx_type is Deposit && t.disputed && !t.resolved {
        t.amount->0 as int
    } else {
        0
    }
}

/// The funds frozen by open disputes: the sum of the contributions of
/// all stored transactions.
pub open spec fn held_sum(s: Seq<Transaction>) -> int
    decreases s.len(),
{
    if s.len() == 0 {
        0
    } else {
        held_sum(s.drop_last()) + held_contribution(s.last())
    }
}

/// A record as the ledger stores it for the given client: a deposit or
/// withdrawal with a positive amount; a dispute can only have been
/// resolved after being opened, and only on a deposit.
pub open spec fn valid_stored(t: Transaction, client_id: u16) -> bool {
    &&& t.client_id == client_id
    &&& (t.tx_type is Deposit || t.tx_type is Withdrawal)
    &&& t.amount is Some
    &&& t.amount->0 > 0
    &&& (t.resolved ==> t.disputed)
    &&& (t.tx_type is Withdrawal ==> !t.disputed && !t.resolved)
}

/// A found index carries a matching id and lies inside the store.
pub proof fn lemma_tx_index_props(s: Seq<Transaction>, id: u32)
    ensures
        -1 <= tx_index(s, id) < s.len(),
        tx_index(s, id) >= 0 ==> s[tx_index(s, id)].tx_id == id,
    decreases s.len(),
{
    if s.len() > 0 && s.last().tx_id != id {
        lemma_tx_index_props(s.drop_last(), id);
    }
}

/// A transaction id is found exactly when some stored record carries it.
pub proof fn lemma_tx_index_exists(s: Seq<Transaction>, id: u32)
    ensures
        has_tx(s, id) <==> exists|i: int| 0 <= i < s.len() && s[i].tx_id == id,
    decreases s.len(),
{
    lemma_tx_index_props(s, id);
    if s.len() > 0 && s.last().tx_id != id {
        lemma_tx_index_exists(s.drop_last(), id);
        if has_tx(s, id) {
            let i = choose|i: int| 0 <= i < s.drop_last().len() && s.drop_last()[i].tx_id == id;
            assert(s[i].tx_id == id);
        }
        if exists|i: int| 0 <= i < s.len() && s[i].tx_id == id {
            let i = choose|i: int| 0 <= i < s.len() && s[i].tx_id == id;
            assert(i < s.len() - 1 && s.drop_last()[i].tx_id == id);
        }
    }
}

/// With distinct ids, the index found for `s[i].tx_id` is `i` itself.
pub proof fn lemma_tx_index_unique(s: Seq<Transaction>, id: u32, i: int)
    requires
        unique_ids(s),
        0 <= i < s.len(),
        s[i].tx_id == id,
    ensures
        tx_index(s, id) == i,
    decreases s.len(),
{
    if s.last().tx_id == id {
        assert(i == s.len() - 1) by {
            if i < s.len() - 1 {
                assert(s[i].tx_id != s[s.len() - 1].tx_id);
            }
        }
    } else {
        assert(unique_ids(s.drop_last())) by {
            assert(forall|x: int, y: int|
                0 <= x < y < s.drop_last().len() ==> s.drop_last()[x] == s[x] && s.drop_last()[y]
                    == s[y]);
        }
        lemma_tx_index_unique(s.drop_last(), id, i);
    }
}

/// Appending a record finds it under its own id and leaves every other
/// lookup unchanged.
pub proof fn lemma_tx_index_push(s: Seq<Transaction>, t: Transaction, id: u32)
    ensures
        t.tx_id == id ==> tx_index(s.push(t), id) == s.len(),
        t.tx_id != id ==> tx_index(s.push(t), id) == tx_index(s, id),
{
    assert(s.push(t).last() == t);
    assert(s.push(t).drop_last() =~= s);
}

/// Appending a record adds exactly its own contribution to the sum.
pub proof fn lemma_held_sum_push(s: Seq<Transaction>, t: Transaction)
    ensures
        held_sum(s.push(t)) == held_sum(s) + held_contribution(t),
{
    assert(s.push(t).last() == t);
    assert(s.push(t).drop_last() =~= s);
}

/// Replacing one record exchanges its contribution in the sum.
pub proof fn lemma_held_sum_update(s: Seq<Transaction>, i: int, t: Transaction)
    requires
        0 <= i < s.len(),
    ensures
        held_sum(s.update(i, t)) == held_sum(s) - held_contribution(s[i]) + held_contribution(t),
    decreases s.len(),
{
    if i == s.len() - 1 {
        assert(s.update(i, t).last() == t);
        assert(s.update(i, t).drop_last() =~= s.drop_last());
    } else {
        assert(s.update(i, t).last() == s.last());
        assert(s.update(i, t).drop_last() =~= s.drop_last().update(i, t));
        lemma_held_sum_update(s.drop_last(), i, t);
    }
}

/// No contribution is negative, so neither is the sum.
pub proof fn lemma_held_sum_nonneg(s: Seq<Transaction>)
    ensures
        held_sum(s) >= 0,
    decreases s.len(),
{
    if s.len() > 0 {
        lemma_held_sum_nonneg(s.drop_last());
    }
}

/// The sum covers each single contribution.
pub proof fn lemma_held_sum_element(s: Seq<Transaction>, i: int)
    requires
        0 <= i < s.len(),
    ensures
        held_sum(s) >= held_contribution(s[i]),
    decreases s.len(),
{
    if i == s.len() - 1 {
        lemma_held_sum_nonneg(s.drop_last());
    } else {
        lemma_held_sum_element(s.drop_last(), i);
        assert(s.drop_last()[i] == s[i]);
    }
}

/// Replacing one record under its own id keeps the ids distinct and
/// moves every lookup to the updated store unchanged.
pub proof fn lemma_unique_ids_update(s: Seq<Transaction>, i: int, t: Transaction)
    requires
        unique_ids(s),
        0 <= i < s.len(),
        t.tx_id == s[i].tx_id,
    ensures
        unique_ids(s.update(i, t)),
        forall|id: u32| tx_index(s.update(i, t), id) == tx_index(s, id),
{
    let s2 = s.update(i, t);
    assert(forall|k: int| 0 <= k < s.len() ==> s2[k].tx_id == s[k].tx_id);
    assert forall|id: u32| tx_index(s2, id) == tx_index(s, id) by {
        lemma_tx_index_same_ids(s, s2, id);
    }
}

/// Lookups agree on any two stores whose records carry the same ids
/// position by position.
pub proof fn lemma_tx_index_same_ids(s1: Seq<Transaction>, s2: Seq<Transaction>, id: u32)
    requires
        s1.len() == s2.len(),
        forall|k: int| 0 <= k < s1.len() ==> s1[k].tx_id == s2[k].tx_id,
    ensures
        tx_index(s1, id) == tx_index(s2, id),
    decreases s1.len(),
{
    if s1.len() > 0 {
        assert(s1.last().tx_id == s2.last().tx_id);
        assert(forall|k: int|
            0 <= k < s1.drop_last().len() ==> s1.drop_last()[k].tx_id == s2.drop_last()[k].tx_id);
        lemma_tx_index_same_ids(s1.drop_last(), s2.drop_last(), id);
    }
}

} // verus!
