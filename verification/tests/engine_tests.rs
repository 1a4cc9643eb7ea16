use payment_engine::account::AccountEntity;
use payment_engine::amount::Amount;
use payment_engine::error::ErrorKind;
use payment_engine::payment_engine::PaymentEngine;
use payment_engine::transaction::{TransactionEntity, TransactionType};

fn deposit(client: u16, tx: u32, mantissa: i128, scale: u32) -> TransactionEntity {
    TransactionEntity {
        transaction_type: TransactionType::Deposit,
        client,
        tx,
        amount: Some(Amount::new(mantissa, scale)),
    }
}

fn withdrawal(client: u16, tx: u32, mantissa: i128, scale: u32) -> TransactionEntity {
    TransactionEntity {
        transaction_type: TransactionType::Withdrawal,
        client,
        tx,
        amount: Some(Amount::new(mantissa, scale)),
    }
}

fn dispute(client: u16, tx: u32) -> TransactionEntity {
    TransactionEntity { transaction_type: TransactionType::Dispute, client, tx, amount: None }
}

fn resolve(client: u16, tx: u32) -> TransactionEntity {
    TransactionEntity { transaction_type: TransactionType::Resolve, client, tx, amount: None }
}

fn chargeback(client: u16, tx: u32) -> TransactionEntity {
    TransactionEntity { transaction_type: TransactionType::Chargeback, client, tx, amount: None }
}

fn snapshot(
    client: u16,
    available: Amount,
    held: Amount,
    total: Amount,
    locked: bool,
) -> AccountEntity {
    AccountEntity { client, available, held, total, locked }
}

#[test]
fn test_basic_transaction_flow() {
    let mut engine = PaymentEngine::new();
    engine.process_transaction(deposit(1, 1, 10, 1)).unwrap();
    engine.process_transaction(deposit(2, 2, 20, 1)).unwrap();
    engine.process_transaction(deposit(1, 3, 20, 1)).unwrap();
    engine.process_transaction(withdrawal(1, 4, 15, 1)).unwrap();
    let over = engine.process_transaction(withdrawal(2, 5, 30, 1));
    assert_eq!(over, Err(ErrorKind::InvalidAmount));

    let accounts = engine.get_account_entities(true);
    assert_eq!(
        accounts,
        vec![
            snapshot(1, Amount::new(15, 1), Amount::new(0, 0), Amount::new(15, 1), false),
            snapshot(2, Amount::new(20, 1), Amount::new(0, 0), Amount::new(20, 1), false),
        ]
    );
}

#[test]
fn test_dispute_flow1() {
    let mut engine = PaymentEngine::new();
    engine.process_transaction(deposit(1, 1, 1000, 1)).unwrap();
    engine.process_transaction(withdrawal(1, 2, 200, 1)).unwrap();
    // Only 80.0 is available, so disputing the 100.0 deposit fails.
    assert_eq!(engine.process_transaction(dispute(1, 1)), Err(ErrorKind::InsufficientAvailable));
    assert_eq!(engine.process_transaction(resolve(1, 1)), Err(ErrorKind::NotDisputed));
    engine.process_transaction(deposit(1, 3, 500, 1)).unwrap();
    engine.process_transaction(dispute(1, 1)).unwrap();
    engine.process_transaction(resolve(1, 1)).unwrap();
    assert_eq!(engine.process_transaction(resolve(1, 1)), Err(ErrorKind::NotDisputed));
    assert_eq!(engine.process_transaction(chargeback(1, 1)), Err(ErrorKind::NotDisputed));

    let accounts = engine.get_account_entities(true);
    assert_eq!(
        accounts,
        vec![snapshot(1, Amount::new(1300, 1), Amount::new(0, 1), Amount::new(1300, 1), false)]
    );
}

#[test]
fn test_disputed_flow2() {
    let mut engine = PaymentEngine::new();
    engine.process_transaction(deposit(1, 1, 1000, 1)).unwrap();
    engine.process_transaction(dispute(1, 1)).unwrap();

    let accounts = engine.get_account_entities(true);
    assert_eq!(
        accounts,
        vec![snapshot(1, Amount::new(0, 1), Amount::new(1000, 1), Amount::new(1000, 1), false)]
    );
}

#[test]
fn test_disputed_twice() {
    let mut engine = PaymentEngine::new();
    engine.process_transaction(deposit(1, 1, 1000, 1)).unwrap();
    engine.process_transaction(dispute(1, 1)).unwrap();
    assert_eq!(engine.process_transaction(dispute(1, 1)), Err(ErrorKind::AlreadyDisputed));

    let accounts = engine.get_account_entities(true);
    assert_eq!(
        accounts,
        vec![snapshot(1, Amount::new(0, 1), Amount::new(1000, 1), Amount::new(1000, 1), false)]
    );
}

#[test]
fn test_withdrawal_more_than_available() {
    let mut engine = PaymentEngine::new();
    engine.process_transaction(deposit(1, 1, 1000, 1)).unwrap();
    assert_eq!(
        engine.process_transaction(withdrawal(1, 2, 1500, 1)),
        Err(ErrorKind::InvalidAmount)
    );

    let accounts = engine.get_account_entities(true);
    assert_eq!(
        accounts,
        vec![snapshot(1, Amount::new(1000, 1), Amount::new(0, 0), Amount::new(1000, 1), false)]
    );
}

#[test]
fn test_dispute_more_than_available() {
    let mut engine = PaymentEngine::new();
    engine.process_transaction(deposit(1, 1, 1000, 1)).unwrap();
    engine.process_transaction(withdrawal(1, 2, 500, 1)).unwrap();
    assert_eq!(engine.process_transaction(dispute(1, 1)), Err(ErrorKind::InsufficientAvailable));

    let accounts = engine.get_account_entities(true);
    assert_eq!(
        accounts,
        vec![snapshot(1, Amount::new(500, 1), Amount::new(0, 0), Amount::new(500, 1), false)]
    );
}

#[test]
fn test_dispute_resolve() {
    let mut engine = PaymentEngine::new();
    engine.process_transaction(deposit(1, 1, 1000, 1)).unwrap();
    engine.process_transaction(dispute(1, 1)).unwrap();
    engine.process_transaction(resolve(1, 1)).unwrap();

    let accounts = engine.get_account_entities(true);
    assert_eq!(
        accounts,
        vec![snapshot(1, Amount::new(1000, 1), Amount::new(0, 1), Amount::new(1000, 1), false)]
    );
}

#[test]
fn test_chargeback_without_dispute() {
    let mut engine = PaymentEngine::new();
    engine.process_transaction(deposit(1, 1, 1000, 1)).unwrap();
    assert_eq!(engine.process_transaction(chargeback(1, 1)), Err(ErrorKind::NotDisputed));

    let accounts = engine.get_account_entities(true);
    assert_eq!(
        accounts,
        vec![snapshot(1, Amount::new(1000, 1), Amount::new(0, 0), Amount::new(1000, 1), false)]
    );
}

#[test]
fn test_chargeback_with_dispute() {
    let mut engine = PaymentEngine::new();
    engine.process_transaction(deposit(1, 1, 1000, 1)).unwrap();
    engine.process_transaction(dispute(1, 1)).unwrap();
    engine.process_transaction(chargeback(1, 1)).unwrap();

    let accounts = engine.get_account_entities(true);
    assert_eq!(
        accounts,
        vec![snapshot(1, Amount::new(0, 1), Amount::new(0, 1), Amount::new(0, 1), true)]
    );

    // Any following deposit is rejected: the account is locked for good.
    assert_eq!(
        engine.process_transaction(deposit(1, 2, 500, 1)),
        Err(ErrorKind::AccountLocked)
    );
}

#[test]
fn test_chargeback_with_resolve() {
    let mut engine = PaymentEngine::new();
    engine.process_transaction(deposit(1, 1, 1000, 1)).unwrap();
    assert_eq!(engine.process_transaction(resolve(1, 1)), Err(ErrorKind::NotDisputed));
    assert_eq!(engine.process_transaction(chargeback(1, 1)), Err(ErrorKind::NotDisputed));

    let accounts = engine.get_account_entities(true);
    assert_eq!(
        accounts,
        vec![snapshot(1, Amount::new(1000, 1), Amount::new(0, 0), Amount::new(1000, 1), false)]
    );
}

#[test]
fn test_unknown_tx_fails_for_fresh_and_known_clients() {
    let mut engine = PaymentEngine::new();
    // A dispute for a never-seen client creates the account and then
    // finds no transaction.
    assert_eq!(engine.process_transaction(dispute(9, 77)), Err(ErrorKind::TransactionNotFound));
    assert_eq!(
        engine.process_transaction(chargeback(9, 77)),
        Err(ErrorKind::TransactionNotFound)
    );

    let accounts = engine.get_account_entities(true);
    assert_eq!(
        accounts,
        vec![snapshot(9, Amount::new(0, 0), Amount::new(0, 0), Amount::new(0, 0), false)]
    );
}

#[test]
fn test_cross_client_independence() {
    let mut engine = PaymentEngine::new();
    engine.process_transaction(deposit(1, 1, 1000, 1)).unwrap();
    engine.process_transaction(deposit(2, 2, 777, 2)).unwrap();
    let before = engine.get_account_entities(true);

    // A storm of activity on client 1, interleaved with nothing for 2.
    engine.process_transaction(dispute(1, 1)).unwrap();
    engine.process_transaction(resolve(1, 1)).unwrap();
    engine.process_transaction(withdrawal(1, 3, 400, 1)).unwrap();
    let _ = engine.process_transaction(chargeback(1, 1));

    let after = engine.get_account_entities(true);
    assert_eq!(before[1], after[1]);
    assert_eq!(after[1], snapshot(2, Amount::new(777, 2), Amount::new(0, 0), Amount::new(777, 2), false));
}

#[test]
fn test_snapshot_includes_extreme_client_ids() {
    let mut engine = PaymentEngine::new();
    engine.process_transaction(deposit(65535, 1, 10, 1)).unwrap();
    engine.process_transaction(deposit(0, 2, 20, 1)).unwrap();

    let ordered = engine.get_account_entities(true);
    let clients: Vec<u16> = ordered.iter().map(|e| e.client).collect();
    assert_eq!(clients, vec![0, 65535]);
}

#[test]
fn test_engine_process_fits_near_limit() {
    let mut engine = PaymentEngine::new();
    // One deposit brings the balance to the representable limit; the
    // guard then rejects a further deposit for that client but not for
    // a fresh one.
    let huge = deposit(1, 1, 100_000_000_000_000_000_000_000_000_000, 0);
    assert!(engine.process_fits(&huge));
    engine.process_transaction(huge).unwrap();
    assert!(!engine.process_fits(&deposit(1, 2, 10, 1)));
    assert!(engine.process_fits(&deposit(2, 3, 10, 1)));
}

#[test]
fn test_snapshot_order_of_first_sight() {
    let mut engine = PaymentEngine::new();
    engine.process_transaction(deposit(5, 1, 10, 1)).unwrap();
    engine.process_transaction(deposit(3, 2, 20, 1)).unwrap();
    engine.process_transaction(deposit(4, 3, 30, 1)).unwrap();

    let unordered = engine.get_account_entities(false);
    let clients: Vec<u16> = unordered.iter().map(|e| e.client).collect();
    assert_eq!(clients, vec![5, 3, 4]);
}

#[test]
fn test_snapshot_sorted_by_client() {
    let mut engine = PaymentEngine::new();
    engine.process_transaction(deposit(5, 1, 10, 1)).unwrap();
    engine.process_transaction(deposit(3, 2, 20, 1)).unwrap();
    engine.process_transaction(deposit(4, 3, 30, 1)).unwrap();

    let ordered = engine.get_account_entities(true);
    let clients: Vec<u16> = ordered.iter().map(|e| e.client).collect();
    assert_eq!(clients, vec![3, 4, 5]);
}
