//! The per-client ledger: a balance summary and the entry store, with
//! the five operations and their invariants.

use vstd::prelude::*;

use crate::store::{
    has_tx, held_sum, lemma_held_sum_element, lemma_held_sum_push, lemma_held_sum_update,
    lemma_tx_index_exists, lemma_tx_index_props, lemma_tx_index_push, lemma_tx_index_unique,
    lemma_unique_ids_update, tx_at, tx_index, unique_ids, valid_stored,
};
use crate::transaction::{Transaction, TransactionType};
use crate::{DisputeFault, EngineError};

verus! {

/// The mathematical state of a balance summary.
pub struct SummaryView {
    pub client_id: u16,
    pub available: int,
    pub held: int,
    pub total: int,
    pub locked: bool,
}

/// The mathematical state of a whole client ledger: its balance summary
/// and its stored transactions in arrival order.
pub struct ClientView {
    pub summary: SummaryView,
    pub txs: Seq<Transaction>,
}

/// A balance summary is consistent when the total is exactly the
/// available funds plus the held funds, every balance is non-negative,
/// and the total fits the fixed-point representation.
pub open spec fn summary_wf(s: SummaryView) -> bool {
    &&& 0 <= s.available
    &&& 0 <= s.held
    &&& s.total <= u64::MAX
    &&& s.total == s.available + s.held
}

/// A client ledger is well formed when its summary is consistent, every
/// stored record belongs to the client and is a valid deposit or
/// withdrawal, ids are pairwise distinct, and — until the account is
/// locked by a chargeback — the held balance is exactly the sum of the
/// amounts under open dispute.
pub open spec fn client_wf(c: ClientView) -> bool {
    &&& summary_wf(c.summary)
    &&& forall|i: int| 0 <= i < c.txs.len() ==> valid_stored(#[trigger] c.txs[i], c.summary.client_id)
    &&& unique_ids(c.txs)
    &&& (!c.summary.locked ==> c.summary.held == held_sum(c.txs))
}

/// The ledger of a client seen for the first time: zero balances,
/// unlocked, nothing stored.
pub open spec fn empty_client(client_id: u16) -> ClientView {
    ClientView {
        summary: SummaryView { client_id, available: 0, held: 0, total: 0, locked: false },
        txs: Seq::empty(),
    }
}

/// The common check before every amount-bearing operation: the account
/// must not be locked and the amount must be present and positive.
pub open spec fn spec_validate_amount(s: SummaryView, t: Transaction) -> Result<u64, EngineError> {
    if s.locked {
        Err(EngineError::AccountLocked)
    } else if t.amount is None {
        Err(EngineError::InvalidTransaction(t.tx_id))
    } else if t.amount->0 == 0 {
        Err(EngineError::InvalidTransaction(t.tx_id))
    } else {
        Ok(t.amount->0)
    }
}

/// A deposit credits the available and total balances.
pub open spec fn spec_summary_deposit(s: SummaryView, t: Transaction) -> (SummaryView, Result<
    (),
    EngineError,
>) {
    match spec_validate_amount(s, t) {
        Err(e) => (s, Err(e)),
        Ok(a) => (
            SummaryView { available: s.available + a, total: s.total + a, ..s },
            Ok(()),
        ),
    }
}

/// A withdrawal debits the available and total balances, and is refused
/// when it would drive the available balance negative.
pub open spec fn spec_summary_withdraw(s: SummaryView, t: Transaction) -> (SummaryView, Result<
    (),
    EngineError,
>) {
    match spec_validate_amount(s, t) {
        Err(e) => (s, Err(e)),
        Ok(a) => if s.available < a {
            (s, Err(EngineError::InsufficientFunds))
        } else {
            (SummaryView { available: s.available - a, total: s.total - a, ..s }, Ok(()))
        },
    }
}

/// Opening a dispute moves the referenced amount from available to held.
/// Only a deposit that is not already under dispute can be disputed, and
/// only while the funds are still available.
pub open spec fn spec_summary_dispute(s: SummaryView, t: Transaction) -> (SummaryView, Result<
    (),
    EngineError,
>) {
    match spec_validate_amount(s, t) {
        Err(e) => (s, Err(e)),
        Ok(a) => if !(t.tx_type is Deposit) {
            (s, Err(EngineError::DisputeError(t.tx_id, DisputeFault::NotADeposit)))
        } else if t.disputed {
            (s, Err(EngineError::DisputeError(t.tx_id, DisputeFault::AlreadyDisputed)))
        } else if s.available < a {
            (s, Err(EngineError::InsufficientFunds))
        } else {
            (SummaryView { available: s.available - a, held: s.held + a, ..s }, Ok(()))
        },
    }
}

/// Resolving a dispute releases the held amount back to available. Only
/// an open, not yet resolved dispute can be resolved.
pub open spec fn spec_summary_resolve(s: SummaryView, t: Transaction) -> (SummaryView, Result<
    (),
    EngineError,
>) {
    match spec_validate_amount(s, t) {
        Err(e) => (s, Err(e)),
        Ok(a) => if !t.disputed {
            (s, Err(EngineError::ResolveError(t.tx_id, DisputeFault::Undisputed)))
        } else if t.resolved {
            (s, Err(EngineError::ResolveError(t.tx_id, DisputeFault::AlreadyResolved)))
        } else {
            (SummaryView { available: s.available + a, held: s.held - a, ..s }, Ok(()))
        },
    }
}

/// A chargeback withdraws the disputed amount from held and total and
/// locks the account for good. Only an open, not yet resolved dispute
/// can be charged back.
pub open spec fn spec_summary_charge_back(s: SummaryView, t: Transaction) -> (SummaryView, Result<
    (),
    EngineError,
>) {
    match spec_validate_amount(s, t) {
        Err(e) => (s, Err(e)),
        Ok(a) => if !t.disputed {
            (s, Err(EngineError::ChargeBackError(t.tx_id, DisputeFault::Undisputed)))
        } else if t.resolved {
            (s, Err(EngineError::ChargeBackError(t.tx_id, DisputeFault::AlreadyResolved)))
        } else {
            (
                SummaryView {
                    available: (s.total - a) - (s.held - a),
                    held: s.held - a,
                    total: s.total - a,
                    locked: true,
                    ..s
                },
                Ok(()),
            )
        },
    }
}

/// Per-client balance summary: available, held and total funds, all as
/// fixed-point values with four implied decimal places, and the lock
/// state. Only the owning client ledger mutates it.
#[derive(Debug, Clone, Copy)]
pub struct ClientSummary {
    client_id: u16,
    available: u64,
    held: u64,
    total: u64,
    locked: bool,
}

impl View for ClientSummary {
    type V = SummaryView;

    closed spec fn view(&self) -> SummaryView {
        SummaryView {
            client_id: self.client_id,
            available: self.available as int,
            held: self.held as int,
            total: self.total as int,
            locked: self.locked,
        }
    }
}

impl ClientSummary {
    fn new(client_id: u16) -> (s: ClientSummary)
        ensures
            s@ == (SummaryView { client_id, available: 0, held: 0, total: 0, locked: false }),
    {
        ClientSummary { client_id, available: 0, held: 0, total: 0, locked: false }
    }

    /// The id of the client this summary belongs to.
    pub fn get_client_id(&self) -> (r: u16)
        ensures
            r == self@.client_id,
    {
        self.client_id
    }

    /// Funds usable for withdrawal.
    pub fn available(&self) -> (r: u64)
        ensures
            r == self@.available,
    {
        self.available
    }

    /// Funds frozen by open disputes.
    pub fn held(&self) -> (r: u64)
        ensures
            r == self@.held,
    {
        self.held
    }

    /// The client's full balance: available plus held.
    pub fn total(&self) -> (r: u64)
        ensures
            r == self@.total,
    {
        self.total
    }

    /// Whether a chargeback has permanently locked the account.
    pub fn locked(&self) -> (r: bool)
        ensures
            r == self@.locked,
    {
        self.locked
    }

    /// The common precondition of every amount-bearing operation: fails
    /// with `AccountLocked` on a locked account, and with
    /// `InvalidTransaction` when the amount is missing or zero;
    /// otherwise hands the amount out.
    pub fn validate_and_get_amount(&self, tx: &Transaction) -> (r: Result<u64, EngineError>)
        ensures
            r == spec_validate_amount(self@, *tx),
    {
        if self.locked {
            return Err(EngineError::AccountLocked);
        }
        match tx.amount {
            None => Err(EngineError::InvalidTransaction(tx.tx_id)),
            Some(a) => if a == 0 {
                Err(EngineError::InvalidTransaction(tx.tx_id))
            } else {
                Ok(a)
            },
        }
    }

    fn deposit(&mut self, tx: &Transaction) -> (r: Result<(), EngineError>)
        requires
            summary_wf(old(self)@),
            tx.amount is Some ==> old(self)@.total + tx.amount->0 <= u64::MAX,
        ensures
            final(self)@ == spec_summary_deposit(old(self)@, *tx).0,
            r == spec_summary_deposit(old(self)@, *tx).1,
    {
        let amount = match self.validate_and_get_amount(tx) {
            Ok(a) => a,
            Err(e) => {
                return Err(e);
            },
        };
        self.available = self.available + amount;
        self.total = self.total + amount;
        Ok(())
    }

    fn withdraw(&mut self, tx: &Transaction) -> (r: Result<(), EngineError>)
        requires
            summary_wf(old(self)@),
        ensures
            final(self)@ == spec_summary_withdraw(old(self)@, *tx).0,
            r == spec_summary_withdraw(old(self)@, *tx).1,
    {
        let amount = match self.validate_and_get_amount(tx) {
            Ok(a) => a,
            Err(e) => {
                return Err(e);
            },
        };
        if self.available < amount {
            return Err(EngineError::InsufficientFunds);
        }
        self.available = self.available - amount;
        self.total = self.total - amount;
        Ok(())
    }

    fn dispute(&mut self, disputed_tx: &Transaction) -> (r: Result<(), EngineError>)
        requires
            summary_wf(old(self)@),
        ensures
            final(self)@ == spec_summary_dispute(old(self)@, *disputed_tx).0,
            r == spec_summary_dispute(old(self)@, *disputed_tx).1,
    {
        let amount = match self.validate_and_get_amount(disputed_tx) {
            Ok(a) => a,
            Err(e) => {
                return Err(e);
            },
        };
        if !matches!(disputed_tx.tx_type, TransactionType::Deposit) {
            return Err(
                EngineError::DisputeError(disputed_tx.tx_id, DisputeFault::NotADeposit),
            );
        }
        if disputed_tx.disputed {
            return Err(
                EngineError::DisputeError(disputed_tx.tx_id, DisputeFault::AlreadyDisputed),
            );
        }
        if self.available < amount {
            return Err(EngineError::InsufficientFunds);
        }
        self.available = self.available - amount;
        self.held = self.held + amount;
        Ok(())
    }

    fn resolve(&mut self, disputed_tx: &Transaction) -> (r: Result<(), EngineError>)
        requires
            summary_wf(old(self)@),
            spec_validate_amount(old(self)@, *disputed_tx) is Ok && disputed_tx.disputed
                && !disputed_tx.resolved ==> disputed_tx.amount->0 <= old(self)@.held,
        ensures
            final(self)@ == spec_summary_resolve(old(self)@, *disputed_tx).0,
            r == spec_summary_resolve(old(self)@, *disputed_tx).1,
    {
        let amount = match self.validate_and_get_amount(disputed_tx) {
            Ok(a) => a,
            Err(e) => {
                return Err(e);
            },
        };
        if !disputed_tx.disputed {
            return Err(
                EngineError::ResolveError(disputed_tx.tx_id, DisputeFault::Undisputed),
            );
        }
        if disputed_tx.resolved {
            return Err(
                EngineError::ResolveError(disputed_tx.tx_id, DisputeFault::AlreadyResolved),
            );
        }
        self.available = self.available + amount;
        self.held = self.held - amount;
        Ok(())
    }

    fn charge_back(&mut self, disputed_tx: &Transaction) -> (r: Result<(), EngineError>)
        requires
            summary_wf(old(self)@),
            spec_validate_amount(old(self)@, *disputed_tx) is Ok && disputed_tx.disputed
                && !disputed_tx.resolved ==> disputed_tx.amount->0 <= old(self)@.held,
        ensures
            final(self)@ == spec_summary_charge_back(old(self)@, *disputed_tx).0,
            r == spec_summary_charge_back(old(self)@, *disputed_tx).1,
    {
        let amount = match self.validate_and_get_amount(disputed_tx) {
            Ok(a) => a,
            Err(e) => {
                return Err(e);
            },
        };
        if !disputed_tx.disputed {
            return Err(
                EngineError::ChargeBackError(disputed_tx.tx_id, DisputeFault::Undisputed),
            );
        }
        if disputed_tx.resolved {
            return Err(
                EngineError::ChargeBackError(disputed_tx.tx_id, DisputeFault::AlreadyResolved),
            );
        }
        self.total = self.total - amount;
        self.held = self.held - amount;
        self.available = self.total - self.held;
        self.locked = true;
        Ok(())
    }
}

/// A transaction as it enters the store: the payload kept, the dispute
/// flags cleared.
pub open spec fn stored_record(tx: Transaction) -> Transaction {
    Transaction { disputed: false, resolved: false, ..tx }
}

/// The stored record once its dispute has been opened.
pub open spec fn mark_disputed(t: Transaction) -> Transaction {
    Transaction { disputed: true, ..t }
}

/// The stored record once its dispute has been resolved.
pub open spec fn mark_resolved(t: Transaction) -> Transaction {
    Transaction { resolved: true, ..t }
}

/// Machine bound on a deposit: the credited total must still fit the
/// fixed-point representation.
pub open spec fn deposit_fits(c: ClientView, tx: Transaction) -> bool {
    tx.amount is Some ==> c.summary.total + tx.amount->0 <= u64::MAX
}

/// A transaction must belong to this client and request the operation
/// it is dispatched to.
pub open spec fn spec_validate_tx(
    c: ClientView,
    tx: Transaction,
    expected: TransactionType,
) -> Result<(), EngineError> {
    if tx.client_id != c.summary.client_id {
        Err(EngineError::InvalidTransaction(tx.tx_id))
    } else if tx.tx_type != expected {
        Err(EngineError::InvalidTransaction(tx.tx_id))
    } else {
        Ok(())
    }
}

/// A deposit: refused for a replayed id, otherwise credited and stored.
pub open spec fn spec_deposit(c: ClientView, tx: Transaction) -> (ClientView, Result<
    (),
    EngineError,
>) {
    match spec_validate_tx(c, tx, TransactionType::Deposit) {
        Err(e) => (c, Err(e)),
        Ok(_) => if has_tx(c.txs, tx.tx_id) {
            (c, Err(EngineError::DuplicateTransaction(tx.tx_id)))
        } else {
            match spec_summary_deposit(c.summary, tx) {
                (s2, Ok(_)) => (
                    ClientView { summary: s2, txs: c.txs.push(stored_record(tx)) },
                    Ok(()),
                ),
                (_, Err(e)) => (c, Err(e)),
            }
        },
    }
}

/// A withdrawal: refused for a replayed id, otherwise debited and stored.
pub open spec fn spec_withdraw(c: ClientView, tx: Transaction) -> (ClientView, Result<
    (),
    EngineError,
>) {
    match spec_validate_tx(c, tx, TransactionType::Withdrawal) {
        Err(e) => (c, Err(e)),
        Ok(_) => if has_tx(c.txs, tx.tx_id) {
            (c, Err(EngineError::DuplicateTransaction(tx.tx_id)))
        } else {
            match spec_summary_withdraw(c.summary, tx) {
                (s2, Ok(_)) => (
                    ClientView { summary: s2, txs: c.txs.push(stored_record(tx)) },
                    Ok(()),
                ),
                (_, Err(e)) => (c, Err(e)),
            }
        },
    }
}

/// A dispute of the stored transaction `tx.tx_id`: when accepted, the
/// amount moves from available to held and the record is marked
/// disputed.
pub open spec fn spec_dispute(c: ClientView, tx: Transaction) -> (ClientView, Result<
    (),
    EngineError,
>) {
    match spec_validate_tx(c, tx, TransactionType::Dispute) {
        Err(e) => (c, Err(e)),
        Ok(_) => if !has_tx(c.txs, tx.tx_id) {
            (c, Err(EngineError::DisputeError(tx.tx_id, DisputeFault::UnknownTransaction)))
        } else {
            let i = tx_index(c.txs, tx.tx_id);
            let t = c.txs[i];
            match spec_summary_dispute(c.summary, t) {
                (s2, Ok(_)) => (
                    ClientView { summary: s2, txs: c.txs.update(i, mark_disputed(t)) },
                    Ok(()),
                ),
                (_, Err(e)) => (c, Err(e)),
            }
        },
    }
}

/// A resolve of the stored transaction `tx.tx_id`: when accepted, the
/// amount moves back from held to available and the record is marked
/// resolved.
pub open spec fn spec_resolve(c: ClientView, tx: Transaction) -> (ClientView, Result<
    (),
    EngineError,
>) {
    match spec_validate_tx(c, tx, TransactionType::Resolve) {
        Err(e) => (c, Err(e)),
        Ok(_) => if !has_tx(c.txs, tx.tx_id) {
            (c, Err(EngineError::ResolveError(tx.tx_id, DisputeFault::UnknownTransaction)))
        } else {
            let i = tx_index(c.txs, tx.tx_id);
            let t = c.txs[i];
            match spec_summary_resolve(c.summary, t) {
                (s2, Ok(_)) => (
                    ClientView { summary: s2, txs: c.txs.update(i, mark_resolved(t)) },
                    Ok(()),
                ),
                (_, Err(e)) => (c, Err(e)),
            }
        },
    }
}

/// A chargeback of the stored transaction `tx.tx_id`: when accepted,
/// the disputed amount leaves the account and the account is locked;
/// the record's flags stay as they are.
pub open spec fn spec_charge_back(c: ClientView, tx: Transaction) -> (ClientView, Result<
    (),
    EngineError,
>) {
    match spec_validate_tx(c, tx, TransactionType::ChargeBack) {
        Err(e) => (c, Err(e)),
        Ok(_) => if !has_tx(c.txs, tx.tx_id) {
            (c, Err(EngineError::ChargeBackError(tx.tx_id, DisputeFault::UnknownTransaction)))
        } else {
            let t = c.txs[tx_index(c.txs, tx.tx_id)];
            match spec_summary_charge_back(c.summary, t) {
                (s2, Ok(_)) => (ClientView { summary: s2, txs: c.txs }, Ok(())),
                (_, Err(e)) => (c, Err(e)),
            }
        },
    }
}

/// One client's ledger: the append-only entry store and the balance
/// summary it governs.
#[derive(Debug)]
pub struct Client {
    entries: Vec<Transaction>,
    pub summary: ClientSummary,
}

impl View for Client {
    type V = ClientView;

    closed spec fn view(&self) -> ClientView {
        ClientView { summary: self.summary@, txs: self.entries@ }
    }
}

impl Client {
    /// A copy of the client's balance summary.
    pub fn get_summary(&self) -> (s: ClientSummary)
        ensures
            s@ == self@.summary,
    {
        self.summary
    }

    /// The ledger's invariant; established by `new` and preserved by
    /// every operation.
    pub open spec fn wf(&self) -> bool {
        client_wf(self@)
    }

    /// A fresh ledger for the given client: zero balances, unlocked,
    /// nothing stored.
    pub fn new(client_id: u16) -> (c: Client)
        ensures
            c.wf(),
            c@ == empty_client(client_id),
    {
        let c = Client { entries: Vec::new(), summary: ClientSummary::new(client_id) };
        proof {
            assert(c@.txs =~= Seq::<Transaction>::empty());
        }
        c
    }

    fn validate_tx(&self, tx: &Transaction, expected_tx_type: TransactionType) -> (r: Result<
        (),
        EngineError,
    >)
        ensures
            r == spec_validate_tx(self@, *tx, expected_tx_type),
    {
        if tx.client_id != self.summary.get_client_id() {
            return Err(EngineError::InvalidTransaction(tx.tx_id));
        }
        if tx.tx_type != expected_tx_type {
            return Err(EngineError::InvalidTransaction(tx.tx_id));
        }
        Ok(())
    }

    fn find_index(&self, tx_id: u32) -> (r: Option<usize>)
        requires
            unique_ids(self@.txs),
        ensures
            r matches Some(i) ==> has_tx(self@.txs, tx_id) && i == tx_index(self@.txs, tx_id)
                && i < self@.txs.len(),
            r is None ==> !has_tx(self@.txs, tx_id),
    {
        let n = self.entries.len();
        let mut i: usize = 0;
        while i < n
            invariant
                n == self.entries@.len(),
                i <= n,
                unique_ids(self.entries@),
                forall|j: int| 0 <= j < i ==> self.entries@[j].tx_id != tx_id,
            decreases n - i,
        {
            if self.entries[i].tx_id == tx_id {
                proof {
                    lemma_tx_index_unique(self.entries@, tx_id, i as int);
                }
                return Some(i);
            }
            i = i + 1;
        }
        proof {
            lemma_tx_index_exists(self.entries@, tx_id);
        }
        None
    }

    /// The stored transaction with the given id, if any.
    pub fn find_transaction(&self, tx_id: u32) -> (r: Option<Transaction>)
        requires
            self.wf(),
        ensures
            r == if has_tx(self@.txs, tx_id) {
                Some(tx_at(self@.txs, tx_id))
            } else {
                None::<Transaction>
            },
    {
        match self.find_index(tx_id) {
            Some(i) => Some(self.entries[i]),
            None => None,
        }
    }

    /// Credits a deposit and stores its record. Rejected when the
    /// transaction is not this client's deposit, replays a stored id,
    /// the account is locked, or the amount is missing or zero.
    pub fn deposit(&mut self, tx: &Transaction) -> (r: Result<(), EngineError>)
        requires
            old(self).wf(),
            deposit_fits(old(self)@, *tx),
        ensures
            final(self).wf(),
            final(self)@ == spec_deposit(old(self)@, *tx).0,
            r == spec_deposit(old(self)@, *tx).1,
            final(self)@.summary.total == final(self)@.summary.available
                + final(self)@.summary.held,
            old(self)@.summary.locked ==> final(self)@.summary.locked,
            r is Err ==> final(self)@ == old(self)@,
    {
        match self.validate_tx(tx, TransactionType::Deposit) {
            Err(e) => return Err(e),
            Ok(_) => {},
        }
        if let Some(_) = self.find_index(tx.tx_id) {
            return Err(EngineError::DuplicateTransaction(tx.tx_id));
        }
        match self.summary.deposit(tx) {
            Err(e) => return Err(e),
            Ok(_) => {},
        }
        let stored = Transaction {
            tx_id: tx.tx_id,
            client_id: tx.client_id,
            tx_type: tx.tx_type,
            amount: tx.amount,
            disputed: false,
            resolved: false,
        };
        self.entries.push(stored);
        proof {
            let c = old(self)@;
            lemma_tx_index_exists(c.txs, tx.tx_id);
            lemma_held_sum_push(c.txs, stored);
            assert forall|i: int, j: int|
                0 <= i < j < self@.txs.len() implies self@.txs[i].tx_id
                != self@.txs[j].tx_id by {
                if j == c.txs.len() {
                    assert(c.txs[i].tx_id != tx.tx_id);
                }
            }
        }
        Ok(())
    }

    /// Debits a withdrawal and stores its record. Rejected as a deposit
    /// is, and also when the available balance does not cover the
    /// amount.
    pub fn withdraw(&mut self, tx: &Transaction) -> (r: Result<(), EngineError>)
        requires
            old(self).wf(),
        ensures
            final(self).wf(),
            final(self)@ == spec_withdraw(old(self)@, *tx).0,
            r == spec_withdraw(old(self)@, *tx).1,
            final(self)@.summary.total == final(self)@.summary.available
                + final(self)@.summary.held,
            old(self)@.summary.locked ==> final(self)@.summary.locked,
            r is Err ==> final(self)@ == old(self)@,
    {
        match self.validate_tx(tx, TransactionType::Withdrawal) {
            Err(e) => return Err(e),
            Ok(_) => {},
        }
        if let Some(_) = self.find_index(tx.tx_id) {
            return Err(EngineError::DuplicateTransaction(tx.tx_id));
        }
        match self.summary.withdraw(tx) {
            Err(e) => return Err(e),
            Ok(_) => {},
        }
        let stored = Transaction {
            tx_id: tx.tx_id,
            client_id: tx.client_id,
            tx_type: tx.tx_type,
            amount: tx.amount,
            disputed: false,
            resolved: false,
        };
        self.entries.push(stored);
        proof {
            let c = old(self)@;
            lemma_tx_index_exists(c.txs, tx.tx_id);
            lemma_held_sum_push(c.txs, stored);
            assert forall|i: int, j: int|
                0 <= i < j < self@.txs.len() implies self@.txs[i].tx_id
                != self@.txs[j].tx_id by {
                if j == c.txs.len() {
                    assert(c.txs[i].tx_id != tx.tx_id);
                }
            }
        }
        Ok(())
    }

    /// Opens a dispute against a stored deposit: the amount moves from
    /// available to held and the record is marked disputed. Rejected
    /// when the id is unknown, the record is no deposit or already
    /// disputed, the account is locked, or the funds were already
    /// withdrawn.
    pub fn dispute(&mut self, tx: &Transaction) -> (r: Result<(), EngineError>)
        requires
            old(self).wf(),
        ensures
            final(self).wf(),
            final(self)@ == spec_dispute(old(self)@, *tx).0,
            r == spec_dispute(old(self)@, *tx).1,
            final(self)@.summary.total == final(self)@.summary.available
                + final(self)@.summary.held,
            old(self)@.summary.locked ==> final(self)@.summary.locked,
            r is Err ==> final(self)@ == old(self)@,
    {
        match self.validate_tx(tx, TransactionType::Dispute) {
            Err(e) => return Err(e),
            Ok(_) => {},
        }
        let idx = match self.find_index(tx.tx_id) {
            Some(i) => i,
            None => return Err(
                EngineError::DisputeError(tx.tx_id, DisputeFault::UnknownTransaction),
            ),
        };
        let target = self.entries[idx];
        match self.summary.dispute(&target) {
            Err(e) => return Err(e),
            Ok(_) => {},
        }
        let updated = Transaction {
            tx_id: target.tx_id,
            client_id: target.client_id,
            tx_type: target.tx_type,
            amount: target.amount,
            disputed: true,
            resolved: target.resolved,
        };
        self.entries[idx] = updated;
        proof {
            let c = old(self)@;
            let i = idx as int;
            lemma_unique_ids_update(c.txs, i, updated);
            lemma_held_sum_update(c.txs, i, updated);
            assert(updated == mark_disputed(c.txs[i]));
        }
        Ok(())
    }

    /// Resolves an open dispute: the held amount returns to available
    /// and the record is marked resolved. Rejected when the id is
    /// unknown, the record is undisputed or already resolved, or the
    /// account is locked.
    pub fn resolve(&mut self, tx: &Transaction) -> (r: Result<(), EngineError>)
        requires
            old(self).wf(),
        ensures
            final(self).wf(),
            final(self)@ == spec_resolve(old(self)@, *tx).0,
            r == spec_resolve(old(self)@, *tx).1,
            final(self)@.summary.total == final(self)@.summary.available
                + final(self)@.summary.held,
            old(self)@.summary.locked ==> final(self)@.summary.locked,
            r is Err ==> final(self)@ == old(self)@,
    {
        match self.validate_tx(tx, TransactionType::Resolve) {
            Err(e) => return Err(e),
            Ok(_) => {},
        }
        let idx = match self.find_index(tx.tx_id) {
            Some(i) => i,
            None => return Err(
                EngineError::ResolveError(tx.tx_id, DisputeFault::UnknownTransaction),
            ),
        };
        let target = self.entries[idx];
        proof {
            if !old(self)@.summary.locked {
                lemma_held_sum_element(old(self)@.txs, idx as int);
            }
        }
        match self.summary.resolve(&target) {
            Err(e) => return Err(e),
            Ok(_) => {},
        }
        let updated = Transaction {
            tx_id: target.tx_id,
            client_id: target.client_id,
            tx_type: target.tx_type,
            amount: target.amount,
            disputed: target.disputed,
            resolved: true,
        };
        self.entries[idx] = updated;
        proof {
            let c = old(self)@;
            let i = idx as int;
            lemma_unique_ids_update(c.txs, i, updated);
            lemma_held_sum_update(c.txs, i, updated);
            assert(updated == mark_resolved(c.txs[i]));
        }
        Ok(())
    }

    /// Settles an open dispute against the client: the disputed amount
    /// leaves the account and the account is permanently locked. The
    /// record's flags stay as they are. Rejected when the id is
    /// unknown, the record is undisputed or already resolved, or the
    /// account is already locked.
    pub fn charge_back(&mut self, tx: &Transaction) -> (r: Result<(), EngineError>)
        requires
            old(self).wf(),
        ensures
            final(self).wf(),
            final(self)@ == spec_charge_back(old(self)@, *tx).0,
            r == spec_charge_back(old(self)@, *tx).1,
            final(self)@.summary.total == final(self)@.summary.available
                + final(self)@.summary.held,
            old(self)@.summary.locked ==> final(self)@.summary.locked,
            r is Err ==> final(self)@ == old(self)@,
    {
        match self.validate_tx(tx, TransactionType::ChargeBack) {
            Err(e) => return Err(e),
            Ok(_) => {},
        }
        let idx = match self.find_index(tx.tx_id) {
            Some(i) => i,
            None => return Err(
                EngineError::ChargeBackError(tx.tx_id, DisputeFault::UnknownTransaction),
            ),
        };
        let target = self.entries[idx];
        proof {
            if !old(self)@.summary.locked {
                lemma_held_sum_element(old(self)@.txs, idx as int);
            }
        }
        match self.summary.charge_back(&target) {
            Err(e) => return Err(e),
            Ok(_) => {},
        }
        Ok(())
    }
}

/// Replaying a deposit or withdrawal id: once an id has been accepted,
/// an identical second request is rejected as a duplicate and leaves
/// the ledger exactly as it was.
pub proof fn lemma_replay_is_duplicate(c: ClientView, tx: Transaction)
    requires
        client_wf(c),
    ensures
        spec_deposit(c, tx).1 is Ok ==> spec_deposit(spec_deposit(c, tx).0, tx) == (
            spec_deposit(c, tx).0,
            Err::<(), EngineError>(EngineError::DuplicateTransaction(tx.tx_id)),
        ),
        spec_withdraw(c, tx).1 is Ok ==> spec_withdraw(spec_withdraw(c, tx).0, tx) == (
            spec_withdraw(c, tx).0,
            Err::<(), EngineError>(EngineError::DuplicateTransaction(tx.tx_id)),
        ),
{
    if spec_deposit(c, tx).1 is Ok {
        lemma_tx_index_push(c.txs, stored_record(tx), tx.tx_id);
    }
    if spec_withdraw(c, tx).1 is Ok {
        lemma_tx_index_push(c.txs, stored_record(tx), tx.tx_id);
    }
}

/// Disputing the same transaction twice: the second request is rejected
/// as already disputed and leaves the ledger exactly as it was.
pub proof fn lemma_redispute_rejected(c: ClientView, tx: Transaction)
    requires
        client_wf(c),
    ensures
        spec_dispute(c, tx).1 is Ok ==> spec_dispute(spec_dispute(c, tx).0, tx) == (
            spec_dispute(c, tx).0,
            Err::<(), EngineError>(
                EngineError::DisputeError(tx.tx_id, DisputeFault::AlreadyDisputed),
            ),
        ),
{
    if spec_dispute(c, tx).1 is Ok {
        let i = tx_index(c.txs, tx.tx_id);
        lemma_tx_index_props(c.txs, tx.tx_id);
        lemma_unique_ids_update(c.txs, i, mark_disputed(c.txs[i]));
    }
}

} // verus!
