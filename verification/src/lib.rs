//! A per-client transaction ledger: deposits, withdrawals, and the
//! dispute/resolve/chargeback flow, with verified balance invariants.
//!
//! Amounts are fixed-point integers carrying four implied decimal places,
//! so one unit is one ten-thousandth of the currency.

use vstd::prelude::*;

pub mod client;
pub mod registry;
pub mod render;
pub mod store;
pub mod transaction;

verus! {

/// Why a dispute, resolve, or chargeback request was rejected.
#[derive(Debug, Clone, Copy, PartialEq, Eq, Structural)]
pub enum DisputeFault {
    /// The referenced transaction id is not in the client's ledger.
    UnknownTransaction,
    /// Only deposits can be disputed.
    NotADeposit,
    /// The referenced transaction is already under dispute.
    AlreadyDisputed,
    /// The referenced transaction is not under dispute.
    Undisputed,
    /// The referenced transaction's dispute was already resolved.
    AlreadyResolved,
}

/// Every way an operation on the ledger can fail.
///
/// The last three variants are reserved for the surrounding application
/// (file handling, output); the ledger itself never returns them.
#[derive(Debug, PartialEq, Eq)]
pub enum EngineError {
    /// A withdrawal or dispute would drive the available balance negative.
    InsufficientFunds,
    /// Wrong client, wrong transaction type, or a missing or zero amount;
    /// carries the offending transaction id.
    InvalidTransaction(u32),
    /// A deposit or withdrawal id was already recorded for this client.
    DuplicateTransaction(u32),
    /// The account is locked; no further operations are accepted.
    AccountLocked,
    /// A dispute request was rejected; carries the referenced id and why.
    DisputeError(u32, DisputeFault),
    /// A resolve request was rejected; carries the referenced id and why.
    ResolveError(u32, DisputeFault),
    /// A chargeback request was rejected; carries the referenced id and why.
    ChargeBackError(u32, DisputeFault),
    /// The input file could not be read (application level).
    CsvFileError(String),
    /// The summary could not be written (application level).
    OutputError(String),
    /// Any other application-level failure.
    OtherError(String),
}

} // verus!
