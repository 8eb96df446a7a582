//! The account registry: one client ledger per client id, created
//! lazily on first reference and kept in ascending client-id order, so
//! reports come out sorted.

use vstd::prelude::*;

use crate::client::{
    client_wf, deposit_fits, empty_client, spec_charge_back, spec_deposit, spec_dispute,
    spec_resolve, spec_withdraw, Client, ClientSummary, ClientView,
};
use crate::transaction::{Transaction, TransactionType};
use crate::EngineError;

verus! {

/// Index in `s` of the ledger owned by `id`, or -1 when absent.
pub open spec fn client_index(s: Seq<ClientView>, id: u16) -> int
    decreases s.len(),
{
    if s.len() == 0 {
        -1
    } else if s.last().summary.client_id == id {
        s.len() - 1
    } else {
        client_index(s.drop_last(), id)
    }
}

/// The number of ledgers owned by smaller client ids: where a fresh
/// ledger must go to keep the registry sorted.
pub open spec fn insert_pos(s: Seq<ClientView>, id: u16) -> int
    decreases s.len(),
{
    if s.len() == 0 {
        0
    } else {
        insert_pos(s.drop_last(), id) + if s.last().summary.client_id < id {
            1int
        } else {
            0int
        }
    }
}

/// Registry invariant: every ledger is well formed and the client ids
/// are strictly ascending, hence pairwise distinct.
pub open spec fn registry_wf(s: Seq<ClientView>) -> bool {
    &&& forall|i: int| 0 <= i < s.len() ==> client_wf(#[trigger] s[i])
    &&& forall|i: int, j: int|
        0 <= i < j < s.len() ==> s[i].summary.client_id < s[j].summary.client_id
}

/// The step of one ledger under `tx`, by transaction type.
pub open spec fn spec_step(c: ClientView, tx: Transaction) -> (ClientView, Result<
    (),
    EngineError,
>) {
    match tx.tx_type {
        TransactionType::Deposit => spec_deposit(c, tx),
        TransactionType::Withdrawal => spec_withdraw(c, tx),
        TransactionType::Dispute => spec_dispute(c, tx),
        TransactionType::Resolve => spec_resolve(c, tx),
        TransactionType::ChargeBack => spec_charge_back(c, tx),
    }
}

/// One record applied to the registry: the addressed ledger — created
/// fresh on first reference, whether or not the step then succeeds —
/// takes the step; every other ledger stays untouched.
pub open spec fn spec_apply(s: Seq<ClientView>, tx: Transaction) -> (Seq<ClientView>, Result<
    (),
    EngineError,
>) {
    let i = client_index(s, tx.client_id);
    if i >= 0 {
        (s.update(i, spec_step(s[i], tx).0), spec_step(s[i], tx).1)
    } else {
        let stepped = spec_step(empty_client(tx.client_id), tx);
        (s.insert(insert_pos(s, tx.client_id), stepped.0), stepped.1)
    }
}

/// Machine bound: a deposit must keep the addressed ledger's total
/// within the fixed-point representation.
pub open spec fn apply_fits(s: Seq<ClientView>, tx: Transaction) -> bool {
    tx.tx_type is Deposit ==> {
        let i = client_index(s, tx.client_id);
        if i >= 0 {
            deposit_fits(s[i], tx)
        } else {
            deposit_fits(empty_client(tx.client_id), tx)
        }
    }
}

/// A found index carries the asked-for id and lies inside the registry.
pub proof fn lemma_client_index_props(s: Seq<ClientView>, id: u16)
    ensures
        -1 <= client_index(s, id) < s.len(),
        client_index(s, id) >= 0 ==> s[client_index(s, id)].summary.client_id == id,
    decreases s.len(),
{
    if s.len() > 0 && s.last().summary.client_id != id {
        lemma_client_index_props(s.drop_last(), id);
    }
}

/// A client id is found exactly when some ledger carries it.
pub proof fn lemma_client_index_exists(s: Seq<ClientView>, id: u16)
    ensures
        client_index(s, id) >= 0 <==> exists|i: int|
            0 <= i < s.len() && s[i].summary.client_id == id,
    decreases s.len(),
{
    lemma_client_index_props(s, id);
    if s.len() > 0 && s.last().summary.client_id != id {
        lemma_client_index_exists(s.drop_last(), id);
        if client_index(s, id) >= 0 {
            let i = choose|i: int|
                0 <= i < s.drop_last().len() && s.drop_last()[i].summary.client_id == id;
            assert(s[i].summary.client_id == id);
        }
        if exists|i: int| 0 <= i < s.len() && s[i].summary.client_id == id {
            let i = choose|i: int| 0 <= i < s.len() && s[i].summary.client_id == id;
            assert(i < s.len() - 1 && s.drop_last()[i].summary.client_id == id);
        }
    }
}

/// With pairwise distinct ids, the index found for `s[i]`'s own id is
/// `i` itself.
pub proof fn lemma_client_index_unique(s: Seq<ClientView>, id: u16, i: int)
    requires
        forall|x: int, y: int|
            0 <= x < y < s.len() ==> s[x].summary.client_id != s[y].summary.client_id,
        0 <= i < s.len(),
        s[i].summary.client_id == id,
    ensures
        client_index(s, id) == i,
    decreases s.len(),
{
    if s.last().summary.client_id == id {
        if i < s.len() - 1 {
            assert(s[i].summary.client_id != s[s.len() - 1].summary.client_id);
        }
    } else {
        assert(forall|x: int, y: int|
            0 <= x < y < s.drop_last().len() ==> s.drop_last()[x] == s[x] && s.drop_last()[y]
                == s[y]);
        lemma_client_index_unique(s.drop_last(), id, i);
    }
}

/// When exactly the first `p` ledgers own smaller ids, `p` is the
/// insertion position.
pub proof fn lemma_insert_pos_at(s: Seq<ClientView>, id: u16, p: int)
    requires
        0 <= p <= s.len(),
        forall|j: int| 0 <= j < s.len() ==> (j < p <==> s[j].summary.client_id < id),
    ensures
        insert_pos(s, id) == p,
    decreases s.len(),
{
    if s.len() > 0 {
        let t = s.drop_last();
        assert(forall|j: int| 0 <= j < t.len() ==> t[j] == s[j]);
        if s.last().summary.client_id < id {
            assert(p == s.len()) by {
                assert(s[s.len() - 1].summary.client_id < id);
            }
            lemma_insert_pos_at(t, id, p - 1);
        } else {
            assert(p <= s.len() - 1) by {
                assert(!(s[s.len() - 1].summary.client_id < id));
            }
            lemma_insert_pos_at(t, id, p);
        }
    }
}

/// Every step leaves the ledger owned by the same client.
pub proof fn lemma_step_same_client(c: ClientView, tx: Transaction)
    ensures
        spec_step(c, tx).0.summary.client_id == c.summary.client_id,
{
}

/// The account registry. The surrounding application owns one of these
/// per run and feeds it validated transactions one at a time.
#[derive(Debug)]
pub struct AccountRegistry {
    clients: Vec<Client>,
}

impl View for AccountRegistry {
    type V = Seq<ClientView>;

    closed spec fn view(&self) -> Seq<ClientView> {
        self.clients@.map_values(|c: Client| c@)
    }
}

impl AccountRegistry {
    /// The registry's invariant; established by `new` and preserved by
    /// `apply`.
    pub open spec fn wf(&self) -> bool {
        registry_wf(self@)
    }

    /// An empty registry.
    pub fn new() -> (r: AccountRegistry)
        ensures
            r.wf(),
            r@ == Seq::<ClientView>::empty(),
    {
        let r = AccountRegistry { clients: Vec::new() };
        proof {
            assert(r@ =~= Seq::<ClientView>::empty());
        }
        r
    }

    fn locate(&self, client_id: u16) -> (r: (usize, bool))
        requires
            self.wf(),
        ensures
            r.1 ==> r.0 < self@.len() && r.0 == client_index(self@, client_id),
            !r.1 ==> client_index(self@, client_id) == -1 && r.0 == insert_pos(
                self@,
                client_id,
            ) && r.0 <= self@.len(),
            !r.1 ==> forall|j: int|
                0 <= j < self@.len() ==> (j < r.0 <==> self@[j].summary.client_id < client_id),
            !r.1 ==> forall|j: int|
                0 <= j < self@.len() ==> self@[j].summary.client_id != client_id,
    {
        let n = self.clients.len();
        let mut i: usize = 0;
        while i < n
            invariant
                self.wf(),
                n == self.clients@.len(),
                i <= n,
                forall|j: int| 0 <= j < i ==> self@[j].summary.client_id < client_id,
            decreases n - i,
        {
            let cid = self.clients[i].get_summary().get_client_id();
            if cid == client_id {
                proof {
                    lemma_client_index_unique(self@, client_id, i as int);
                }
                return (i, true);
            }
            if cid > client_id {
                proof {
                    assert(self@[i as int].summary.client_id == cid);
                    assert forall|j: int|
                        0 <= j < self@.len() implies (j < i as int <==> self@[j].summary.client_id
                        < client_id) by {
                        if (i as int) < j {
                            assert(self@[i as int].summary.client_id < self@[j].summary.client_id);
                        }
                    }
                    assert forall|j: int|
                        0 <= j < self@.len() implies self@[j].summary.client_id != client_id by {
                        if (i as int) < j {
                            assert(self@[i as int].summary.client_id < self@[j].summary.client_id);
                        }
                    }
                    lemma_client_index_exists(self@, client_id);
                    lemma_client_index_props(self@, client_id);
                    lemma_insert_pos_at(self@, client_id, i as int);
                }
                return (i, false);
            }
            i = i + 1;
        }
        proof {
            lemma_client_index_exists(self@, client_id);
            lemma_client_index_props(self@, client_id);
            lemma_insert_pos_at(self@, client_id, i as int);
        }
        (i, false)
    }

    /// Whether the registry can take this record without exceeding the
    /// fixed-point range: the one machine bound a caller must check
    /// before `apply`. Everything else `apply` checks itself.
    pub fn accepts(&self, tx: &Transaction) -> (b: bool)
        requires
            self.wf(),
        ensures
            b == apply_fits(self@, *tx),
    {
        if !matches!(tx.tx_type, TransactionType::Deposit) {
            return true;
        }
        match tx.amount {
            None => true,
            Some(a) => {
                let (i, found) = self.locate(tx.client_id);
                if found {
                    let t = self.clients[i].get_summary().total();
                    a <= u64::MAX - t
                } else {
                    true
                }
            },
        }
    }

    /// Applies one transaction to the ledger it addresses, creating
    /// that ledger on first reference. The typed failures of the five
    /// operations come back as the result; every other ledger is left
    /// untouched.
    #[verifier::rlimit(60)]
    pub fn apply(&mut self, tx: &Transaction) -> (r: Result<(), EngineError>)
        requires
            old(self).wf(),
            apply_fits(old(self)@, *tx),
        ensures
            final(self).wf(),
            final(self)@ == spec_apply(old(self)@, *tx).0,
            r == spec_apply(old(self)@, *tx).1,
    {
        let (pos, found) = self.locate(tx.client_id);
        if !found {
            self.clients.insert(pos, Client::new(tx.client_id));
        }
        let mut c = self.clients.remove(pos);
        let r = match tx.tx_type {
            TransactionType::Deposit => c.deposit(tx),
            TransactionType::Withdrawal => c.withdraw(tx),
            TransactionType::Dispute => c.dispute(tx),
            TransactionType::Resolve => c.resolve(tx),
            TransactionType::ChargeBack => c.charge_back(tx),
        };
        self.clients.insert(pos, c);
        proof {
            let s = old(self)@;
            let p = pos as int;
            lemma_step_same_client(if found {
                s[p]
            } else {
                empty_client(tx.client_id)
            }, *tx);
            if found {
                assert(final(self)@ =~= s.update(p, spec_step(s[p], *tx).0));
            } else {
                let c2 = spec_step(empty_client(tx.client_id), *tx).0;
                assert(final(self)@ =~= s.insert(p, c2));
                s.insert_ensures(p, c2);
                assert forall|x: int, y: int|
                    0 <= x < y < final(self)@.len() implies final(self)@[x].summary.client_id
                    < final(self)@[y].summary.client_id by {
                    if x < p {
                        assert(final(self)@[x] == s[x]);
                        assert(s[x].summary.client_id < tx.client_id);
                    }
                    if x > p {
                        assert(final(self)@[x] == s[x - 1]);
                    }
                    if y < p {
                        assert(final(self)@[y] == s[y]);
                    }
                    if y > p {
                        assert(final(self)@[y] == s[y - 1]);
                        if y - 1 >= p {
                            assert(s[y - 1].summary.client_id != tx.client_id);
                            assert(!(s[y - 1].summary.client_id < tx.client_id));
                        }
                    }
                }
            }
        }
        r
    }

    /// The balance summaries of every client seen so far, in ascending
    /// client-id order.
    pub fn summaries(&self) -> (r: Vec<ClientSummary>)
        requires
            self.wf(),
        ensures
            r@.len() == self@.len(),
            forall|i: int| 0 <= i < r@.len() ==> #[trigger] r@[i]@ == self@[i].summary,
            forall|i: int, j: int| 0 <= i < j < r@.len() ==> r@[i]@.client_id < r@[j]@.client_id,
    {
        let n = self.clients.len();
        let mut out: Vec<ClientSummary> = Vec::new();
        let mut i: usize = 0;
        while i < n
            invariant
                n == self.clients@.len(),
                i <= n,
                out@.len() == i,
                forall|j: int| 0 <= j < i ==> #[trigger] out@[j]@ == self@[j].summary,
            decreases n - i,
        {
            let s = self.clients[i].get_summary();
            out.push(s);
            i = i + 1;
        }
        out
    }
}

} // verus!
