//! Transaction records as the ledger consumes them.

use vstd::prelude::*;

use crate::EngineError;

verus! {

/// The five kinds of operation a transaction record can request.
#[derive(Debug, Clone, Copy, PartialEq, Eq, Structural)]
pub enum TransactionType {
    Deposit,
    Withdrawal,
    Dispute,
    Resolve,
    ChargeBack,
}

/// The external literal name of each transaction type.
pub open spec fn literal_name(t: TransactionType) -> Seq<char> {
    match t {
        TransactionType::Deposit => "deposit"@,
        TransactionType::Withdrawal => "withdrawal"@,
        TransactionType::Dispute => "dispute"@,
        TransactionType::Resolve => "resolve"@,
        TransactionType::ChargeBack => "chargeback"@,
    }
}

/// The transaction type named by `s`, if `s` is one of the five
/// external literal names.
pub open spec fn spec_parse_type(s: Seq<char>) -> Option<TransactionType> {
    if s == "deposit"@ {
        Some(TransactionType::Deposit)
    } else if s == "withdrawal"@ {
        Some(TransactionType::Withdrawal)
    } else if s == "dispute"@ {
        Some(TransactionType::Dispute)
    } else if s == "resolve"@ {
        Some(TransactionType::Resolve)
    } else if s == "chargeback"@ {
        Some(TransactionType::ChargeBack)
    } else {
        None
    }
}

impl TransactionType {
    /// The external literal name of this transaction type.
    pub fn name(&self) -> (r: &'static str)
        ensures
            r@ == literal_name(*self),
    {
        match self {
            TransactionType::Deposit => "deposit",
            TransactionType::Withdrawal => "withdrawal",
            TransactionType::Dispute => "dispute",
            TransactionType::Resolve => "resolve",
            TransactionType::ChargeBack => "chargeback",
        }
    }

    /// Maps one of the five external literal names to its transaction
    /// type; any other string is rejected.
    pub fn parse(s: &String) -> (r: Option<TransactionType>)
        ensures
            r == spec_parse_type(s@),
    {
        if *s == "deposit".to_owned() {
            Some(TransactionType::Deposit)
        } else if *s == "withdrawal".to_owned() {
            Some(TransactionType::Withdrawal)
        } else if *s == "dispute".to_owned() {
            Some(TransactionType::Dispute)
        } else if *s == "resolve".to_owned() {
            Some(TransactionType::Resolve)
        } else if *s == "chargeback".to_owned() {
            Some(TransactionType::ChargeBack)
        } else {
            None
        }
    }
}

/// One validated input line, before its type name is interpreted.
///
/// The amount, when present, is a fixed-point value with four implied
/// decimal places.
#[derive(Debug, Clone)]
pub struct TransactionRecord {
    pub tx_type: String,
    pub client_id: u16,
    pub tx_id: u32,
    pub amount: Option<u64>,
}

/// A transaction ready for the ledger: the type name interpreted, the
/// dispute flags cleared.
#[derive(Debug, Clone, Copy, PartialEq, Eq)]
pub struct Transaction {
    pub tx_id: u32,
    pub client_id: u16,
    pub tx_type: TransactionType,
    pub amount: Option<u64>,
    pub disputed: bool,
    pub resolved: bool,
}

/// The transaction built from `rec`, or the rejection of its type name.
pub open spec fn spec_try_from(rec: TransactionRecord) -> Result<Transaction, EngineError> {
    match spec_parse_type(rec.tx_type@) {
        Some(t) => Ok(
            Transaction {
                tx_id: rec.tx_id,
                client_id: rec.client_id,
                tx_type: t,
                amount: rec.amount,
                disputed: false,
                resolved: false,
            },
        ),
        None => Err(EngineError::InvalidTransaction(rec.tx_id)),
    }
}

impl Transaction {
    /// Interprets a record's type name; an unrecognized name is rejected
    /// as an invalid transaction. The dispute flags of the result are
    /// always clear: they only ever change on a stored record.
    pub fn try_from(value: TransactionRecord) -> (r: Result<Transaction, EngineError>)
        ensures
            r == spec_try_from(value),
    {
        match TransactionType::parse(&value.tx_type) {
            Some(tx_type) => Ok(
                Transaction {
                    tx_id: value.tx_id,
                    client_id: value.client_id,
                    tx_type,
                    amount: value.amount,
                    disputed: false,
                    resolved: false,
                },
            ),
            None => Err(EngineError::InvalidTransaction(value.tx_id)),
        }
    }
}

} // verus!
