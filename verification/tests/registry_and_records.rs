use tx_engine::registry::AccountRegistry;
use tx_engine::render::amount_text;
use tx_engine::transaction::{Transaction, TransactionRecord, TransactionType};
use tx_engine::{DisputeFault, EngineError};

fn tx(
    tx_id: u32,
    client_id: u16,
    tx_type: TransactionType,
    amount: Option<u64>,
) -> Transaction {
    Transaction { tx_id, client_id, tx_type, amount, disputed: false, resolved: false }
}

fn record(tx_type: &str, client_id: u16, tx_id: u32, amount: Option<u64>) -> TransactionRecord {
    TransactionRecord { tx_type: tx_type.to_string(), client_id, tx_id, amount }
}

#[test]
fn registry_creates_clients_on_first_reference() {
    let mut reg = AccountRegistry::new();
    assert!(reg.apply(&tx(1, 5, TransactionType::Deposit, Some(10000))).is_ok());
    assert!(reg.apply(&tx(2, 2, TransactionType::Deposit, Some(20000))).is_ok());
    assert!(reg.apply(&tx(3, 9, TransactionType::Deposit, Some(30000))).is_ok());

    let summaries = reg.summaries();
    assert_eq!(summaries.len(), 3);
    assert_eq!(summaries[0].get_client_id(), 2);
    assert_eq!(summaries[1].get_client_id(), 5);
    assert_eq!(summaries[2].get_client_id(), 9);
    assert_eq!(summaries[0].total(), 20000);
    assert_eq!(summaries[1].total(), 10000);
    assert_eq!(summaries[2].total(), 30000);
}

#[test]
fn registry_creates_client_even_when_the_step_fails() {
    let mut reg = AccountRegistry::new();
    // A withdrawal from a client never seen before fails, but the
    // client now exists with zero balances.
    let r = reg.apply(&tx(1, 7, TransactionType::Withdrawal, Some(100)));
    assert_eq!(r, Err(EngineError::InsufficientFunds));

    let summaries = reg.summaries();
    assert_eq!(summaries.len(), 1);
    assert_eq!(summaries[0].get_client_id(), 7);
    assert_eq!(summaries[0].total(), 0);
}

#[test]
fn registry_dispatches_the_whole_flow() {
    let mut reg = AccountRegistry::new();
    assert!(reg.apply(&tx(1, 1, TransactionType::Deposit, Some(10000))).is_ok());
    assert!(reg.apply(&tx(1, 1, TransactionType::Dispute, None)).is_ok());
    assert!(reg.apply(&tx(1, 1, TransactionType::ChargeBack, None)).is_ok());
    assert_eq!(
        reg.apply(&tx(2, 1, TransactionType::Deposit, Some(100))),
        Err(EngineError::AccountLocked)
    );

    let summaries = reg.summaries();
    assert_eq!(summaries.len(), 1);
    assert_eq!(summaries[0].total(), 0);
    assert!(summaries[0].locked());

    // A second client is untouched by the first one's fate.
    assert!(reg.apply(&tx(5, 2, TransactionType::Deposit, Some(700))).is_ok());
    assert_eq!(
        reg.apply(&tx(5, 2, TransactionType::Dispute, None)),
        Ok(())
    );
    assert_eq!(
        reg.apply(&tx(5, 2, TransactionType::Resolve, None)),
        Ok(())
    );
    let summaries = reg.summaries();
    assert_eq!(summaries.len(), 2);
    assert_eq!(summaries[1].get_client_id(), 2);
    assert_eq!(summaries[1].available(), 700);
    assert!(!summaries[1].locked());
}

#[test]
fn registry_accepts_guards_the_fixed_point_range() {
    let mut reg = AccountRegistry::new();
    let big = tx(1, 1, TransactionType::Deposit, Some(u64::MAX));
    assert!(reg.accepts(&big));
    assert!(reg.apply(&big).is_ok());

    // A second huge deposit would overflow the total; `accepts` says so.
    let more = tx(2, 1, TransactionType::Deposit, Some(1));
    assert!(!reg.accepts(&more));

    // Another client is unaffected.
    let elsewhere = tx(3, 2, TransactionType::Deposit, Some(u64::MAX));
    assert!(reg.accepts(&elsewhere));
}

#[test]
fn record_type_names_parse() {
    assert_eq!(
        TransactionType::parse(&"deposit".to_string()),
        Some(TransactionType::Deposit)
    );
    assert_eq!(
        TransactionType::parse(&"withdrawal".to_string()),
        Some(TransactionType::Withdrawal)
    );
    assert_eq!(
        TransactionType::parse(&"dispute".to_string()),
        Some(TransactionType::Dispute)
    );
    assert_eq!(
        TransactionType::parse(&"resolve".to_string()),
        Some(TransactionType::Resolve)
    );
    assert_eq!(
        TransactionType::parse(&"chargeback".to_string()),
        Some(TransactionType::ChargeBack)
    );
    assert_eq!(TransactionType::parse(&"Deposit".to_string()), None);
    assert_eq!(TransactionType::parse(&"refund".to_string()), None);
    assert_eq!(TransactionType::parse(&"".to_string()), None);
}

#[test]
fn type_names_round_trip() {
    let kinds = vec![
        TransactionType::Deposit,
        TransactionType::Withdrawal,
        TransactionType::Dispute,
        TransactionType::Resolve,
        TransactionType::ChargeBack,
    ];
    for kind in kinds {
        assert_eq!(TransactionType::parse(&kind.name().to_string()), Some(kind));
    }
    assert_eq!(TransactionType::Deposit.name(), "deposit");
    assert_eq!(TransactionType::ChargeBack.name(), "chargeback");
}

#[test]
fn records_convert_to_transactions() {
    let t = Transaction::try_from(record("deposit", 3, 8, Some(12345))).unwrap();
    assert_eq!(t.tx_id, 8);
    assert_eq!(t.client_id, 3);
    assert_eq!(t.tx_type, TransactionType::Deposit);
    assert_eq!(t.amount, Some(12345));
    assert_eq!(t.disputed, false);
    assert_eq!(t.resolved, false);

    let t = Transaction::try_from(record("resolve", 3, 9, None)).unwrap();
    assert_eq!(t.tx_type, TransactionType::Resolve);
    assert_eq!(t.amount, None);

    assert_eq!(
        Transaction::try_from(record("transfer", 3, 10, Some(1))),
        Err(EngineError::InvalidTransaction(10))
    );
}

#[test]
fn dispute_faults_through_the_registry() {
    let mut reg = AccountRegistry::new();
    assert!(reg.apply(&tx(1, 1, TransactionType::Deposit, Some(10000))).is_ok());
    assert_eq!(
        reg.apply(&tx(9, 1, TransactionType::Resolve, None)),
        Err(EngineError::ResolveError(9, DisputeFault::UnknownTransaction))
    );
    assert_eq!(
        reg.apply(&tx(9, 1, TransactionType::ChargeBack, None)),
        Err(EngineError::ChargeBackError(9, DisputeFault::UnknownTransaction))
    );
    assert_eq!(
        reg.apply(&tx(1, 1, TransactionType::Resolve, None)),
        Err(EngineError::ResolveError(1, DisputeFault::Undisputed))
    );
}

#[test]
fn amounts_render_with_four_decimal_places() {
    assert_eq!(amount_text(0), "0.0000");
    assert_eq!(amount_text(1), "0.0001");
    assert_eq!(amount_text(9500), "0.9500");
    assert_eq!(amount_text(10000), "1.0000");
    assert_eq!(amount_text(19500), "1.9500");
    assert_eq!(amount_text(123456789), "12345.6789");
    assert_eq!(amount_text(u64::MAX), "1844674407370955.1615");
}
