use transaction_parser::common::event::TransactionEvent;
use transaction_parser::common::money::Money;
use transaction_parser::domain::account::Account;
use transaction_parser::domain::ledger::Ledger;
use transaction_parser::domain::transaction::{TxStatus, TxType};
use transaction_parser::io::rows::row_to_event;
use transaction_parser::worker::processor::{event_fits_check, Processor};

fn run(ledger: &mut Ledger, events: Vec<TransactionEvent>) {
    let mut processor = Processor::new();
    for event in events {
        assert!(event_fits_check(ledger, &event), "event must be admissible");
        processor.process(ledger, event).unwrap();
    }
}

#[test]
fn scenario_deposit_dispute_resolve() {
    let mut ledger = Ledger::new();
    run(
        &mut ledger,
        vec![
            TransactionEvent::Deposit { client: 1, tx: 1, amount: Money::from_str("1.0").unwrap() },
            TransactionEvent::Dispute { client: 1, tx: 1 },
            TransactionEvent::Resolve { client: 1, tx: 1 },
        ],
    );
    let acc = ledger.accounts().get(&1).unwrap();
    assert_eq!(acc.available.to_string_4dp(), "1.0000");
    assert_eq!(acc.held.to_string_4dp(), "0.0000");
    assert!(!acc.locked);
    assert_eq!(ledger.txs.get(&1).unwrap().tx_status, TxStatus::Resolved);
}

#[test]
fn scenario_deposit_dispute_chargeback() {
    let mut ledger = Ledger::new();
    run(
        &mut ledger,
        vec![
            TransactionEvent::Deposit { client: 1, tx: 1, amount: Money::from_str("1.0").unwrap() },
            TransactionEvent::Dispute { client: 1, tx: 1 },
            TransactionEvent::Chargeback { client: 1, tx: 1 },
        ],
    );
    let acc = ledger.accounts().get(&1).unwrap();
    assert_eq!(acc.available.to_string_4dp(), "0.0000");
    assert_eq!(acc.held.to_string_4dp(), "0.0000");
    assert!(acc.locked);
    assert_eq!(ledger.txs.get(&1).unwrap().tx_status, TxStatus::ChargedBack);
}

#[test]
fn scenario_withdrawal_without_funds_still_recorded() {
    let mut ledger = Ledger::new();
    ledger.accounts.insert(
        2,
        Account {
            available: Money::from_str("10.0000").unwrap(),
            held: Money::zero(),
            locked: false,
        },
    );
    run(
        &mut ledger,
        vec![TransactionEvent::Withdrawal {
            client: 2,
            tx: 5,
            amount: Money::from_str("50.0").unwrap(),
        }],
    );
    let acc = ledger.accounts().get(&2).unwrap();
    assert_eq!(acc.available.to_string_4dp(), "10.0000");
    let rec = ledger.txs.get(&5).unwrap();
    assert_eq!(rec.tx_status, TxStatus::Normal);
    assert_eq!(rec.tx_type, TxType::Withdrawal);
}

#[test]
fn deposit_then_dispute_freezes_the_deposit_even_into_negative() {
    // After a deposit is spent, disputing it drives available negative.
    let mut ledger = Ledger::new();
    run(
        &mut ledger,
        vec![
            TransactionEvent::Deposit { client: 7, tx: 1, amount: Money::from_str("5.0").unwrap() },
            TransactionEvent::Withdrawal {
                client: 7,
                tx: 2,
                amount: Money::from_str("5.0").unwrap(),
            },
            TransactionEvent::Dispute { client: 7, tx: 1 },
        ],
    );
    let acc = ledger.accounts().get(&7).unwrap();
    assert_eq!(acc.available.to_string_4dp(), "-5.0000");
    assert_eq!(acc.held, Money::from_str("5.0").unwrap());
    assert_eq!(acc.total(), Money::zero());
}

#[test]
fn locked_account_ignores_every_event_kind() {
    let mut ledger = Ledger::new();
    run(
        &mut ledger,
        vec![
            TransactionEvent::Deposit { client: 3, tx: 1, amount: Money::from_str("9.0").unwrap() },
            TransactionEvent::Dispute { client: 3, tx: 1 },
            TransactionEvent::Chargeback { client: 3, tx: 1 },
        ],
    );
    let before = *ledger.accounts().get(&3).unwrap();
    assert!(before.locked);
    run(
        &mut ledger,
        vec![
            TransactionEvent::Deposit { client: 3, tx: 2, amount: Money::from_str("1.0").unwrap() },
            TransactionEvent::Withdrawal {
                client: 3,
                tx: 3,
                amount: Money::from_str("1.0").unwrap(),
            },
            TransactionEvent::Dispute { client: 3, tx: 1 },
            TransactionEvent::Resolve { client: 3, tx: 1 },
            TransactionEvent::Chargeback { client: 3, tx: 1 },
        ],
    );
    let after = *ledger.accounts().get(&3).unwrap();
    assert_eq!(after.available, before.available);
    assert_eq!(after.held, before.held);
    assert!(after.locked);
    assert_eq!(ledger.txs.get(&1).unwrap().tx_status, TxStatus::ChargedBack);
    assert!(!ledger.txs.contains_key(&2));
    assert!(!ledger.txs.contains_key(&3));
}

#[test]
fn total_is_exactly_available_plus_held() {
    let acc = Account {
        available: Money::from_str("1.2500").unwrap(),
        held: Money::from_str("0.5000").unwrap(),
        locked: false,
    };
    assert_eq!(acc.total(), Money::from_str("1.7500").unwrap());
    assert_eq!(acc.total().to_string_4dp(), "1.7500");
}

#[test]
fn resolve_and_chargeback_ignore_undisputed_and_withdrawal_records() {
    let mut ledger = Ledger::new();
    run(
        &mut ledger,
        vec![
            TransactionEvent::Deposit { client: 1, tx: 1, amount: Money::from_str("3.0").unwrap() },
            TransactionEvent::Withdrawal {
                client: 1,
                tx: 2,
                amount: Money::from_str("1.0").unwrap(),
            },
            // tx 1 is Normal, not Disputed: both must be no-ops
            TransactionEvent::Resolve { client: 1, tx: 1 },
            TransactionEvent::Chargeback { client: 1, tx: 1 },
            // tx 2 is a withdrawal: disputing it must be a no-op too
            TransactionEvent::Dispute { client: 1, tx: 2 },
            TransactionEvent::Chargeback { client: 1, tx: 2 },
        ],
    );
    let acc = ledger.accounts().get(&1).unwrap();
    assert_eq!(acc.available.to_string_4dp(), "2.0000");
    assert_eq!(acc.held.to_string_4dp(), "0.0000");
    assert!(!acc.locked);
    assert_eq!(ledger.txs.get(&1).unwrap().tx_status, TxStatus::Normal);
    assert_eq!(ledger.txs.get(&2).unwrap().tx_status, TxStatus::Normal);
}

#[test]
fn event_fits_check_flags_overflowing_deposit() {
    let mut ledger = Ledger::new();
    ledger.accounts.insert(
        1,
        Account { available: Money::new(i64::MAX), held: Money::zero(), locked: false },
    );
    let overflowing =
        TransactionEvent::Deposit { client: 1, tx: 1, amount: Money::new(1) };
    assert!(!event_fits_check(&ledger, &overflowing));
    let fine = TransactionEvent::Deposit { client: 1, tx: 1, amount: Money::new(0) };
    assert!(event_fits_check(&ledger, &fine));
    let negative = TransactionEvent::Deposit { client: 1, tx: 1, amount: Money::new(-1) };
    assert!(!event_fits_check(&ledger, &negative));
}

#[test]
fn sorted_clients_orders_every_account_once() {
    let mut ledger = Ledger::new();
    for c in [9u16, 3, 500, 1, 65535] {
        ledger.accounts.insert(c, Account::new());
    }
    assert_eq!(ledger.sorted_clients(), vec![1u16, 3, 9, 500, 65535]);
}

#[test]
fn parses_all_supported_event_types() {
    let expected_deposit = Money::from_str("1.5000").unwrap().as_i64();
    let expected_withdrawal = Money::from_str("0.5000").unwrap().as_i64();

    match row_to_event("deposit", 1, 1, Some("1.5000")) {
        Ok(TransactionEvent::Deposit { client, tx, amount }) => {
            assert_eq!((client, tx, amount.as_i64()), (1, 1, expected_deposit));
        }
        other => panic!("unexpected deposit event: {other:?}"),
    }

    match row_to_event("withdrawal", 1, 2, Some("0.5000")) {
        Ok(TransactionEvent::Withdrawal { client, tx, amount }) => {
            assert_eq!((client, tx, amount.as_i64()), (1, 2, expected_withdrawal));
        }
        other => panic!("unexpected withdrawal event: {other:?}"),
    }

    assert!(matches!(
        row_to_event("dispute", 1, 1, None),
        Ok(TransactionEvent::Dispute { client: 1, tx: 1 })
    ));
    assert!(matches!(
        row_to_event("resolve", 1, 1, None),
        Ok(TransactionEvent::Resolve { client: 1, tx: 1 })
    ));
    assert!(matches!(
        row_to_event("chargeback", 1, 1, None),
        Ok(TransactionEvent::Chargeback { client: 1, tx: 1 })
    ));
}

#[test]
fn reports_missing_amount_error() {
    let err = row_to_event("deposit", 1, 1, None).unwrap_err();
    assert_eq!(err, "deposit missing amount for client 1 tx 1");
}

#[test]
fn reports_unknown_type_error() {
    let err = row_to_event("refund", 1, 99, Some("10")).unwrap_err();
    assert_eq!(err, "unknown transaction type: refund for client 1 tx 99");
}

#[test]
fn normalizes_kind_case_and_whitespace() {
    assert!(matches!(
        row_to_event("  DePoSiT ", 4, 8, Some("2")),
        Ok(TransactionEvent::Deposit { client: 4, tx: 8, .. })
    ));
    let err = row_to_event(" REFUND ", 2, 3, None).unwrap_err();
    assert_eq!(err, "unknown transaction type: refund for client 2 tx 3");
}

#[test]
fn reports_bad_amounts() {
    assert_eq!(
        row_to_event("withdrawal", 1, 1, None).unwrap_err(),
        "withdrawal missing amount for client 1 tx 1"
    );
    assert_eq!(row_to_event("deposit", 1, 1, Some("")).unwrap_err(), "empty amount");
    assert_eq!(row_to_event("deposit", 1, 1, Some("abc")).unwrap_err(), "invalid decimal");
    assert_eq!(
        row_to_event("deposit", 1, 1, Some("99999999999999999999")).unwrap_err(),
        "amount overflow"
    );
}

#[test]
fn duplicate_tx_id_leaves_balances_and_record_alone() {
    let mut ledger = Ledger::new();
    run(
        &mut ledger,
        vec![
            TransactionEvent::Deposit { client: 1, tx: 1, amount: Money::from_str("2.0").unwrap() },
            TransactionEvent::Deposit { client: 1, tx: 1, amount: Money::from_str("9.0").unwrap() },
            TransactionEvent::Withdrawal {
                client: 1,
                tx: 1,
                amount: Money::from_str("1.0").unwrap(),
            },
        ],
    );
    let acc = ledger.accounts().get(&1).unwrap();
    assert_eq!(acc.available, Money::from_str("2.0").unwrap());
    let rec = ledger.txs.get(&1).unwrap();
    assert_eq!(rec.amount, Money::from_str("2.0").unwrap());
    assert_eq!(rec.tx_type, TxType::Deposit);
}

#[test]
fn replay_matches_sequential_processing() {
    let events = vec![
        TransactionEvent::Deposit { client: 1, tx: 1, amount: Money::from_str("2.5").unwrap() },
        TransactionEvent::Deposit { client: 2, tx: 2, amount: Money::from_str("1.0").unwrap() },
        TransactionEvent::Withdrawal {
            client: 1,
            tx: 3,
            amount: Money::from_str("1.0").unwrap(),
        },
        TransactionEvent::Dispute { client: 2, tx: 2 },
    ];

    let mut replayed = Ledger::new();
    Processor::new().replay(&mut replayed, &events).unwrap();

    let mut stepped = Ledger::new();
    run(&mut stepped, events);

    for c in [1u16, 2] {
        let a = replayed.accounts().get(&c).unwrap();
        let b = stepped.accounts().get(&c).unwrap();
        assert_eq!((a.available, a.held, a.locked), (b.available, b.held, b.locked));
    }
    assert_eq!(replayed.accounts().get(&1).unwrap().available.to_string_4dp(), "1.5000");
    assert_eq!(replayed.accounts().get(&2).unwrap().held.to_string_4dp(), "1.0000");
    assert_eq!(replayed.txs.get(&2).unwrap().tx_status, TxStatus::Disputed);
}
