use rust_decimal::Decimal;
use rust_tx_ledger::ledger::account::{Account, AccountError};
use rust_tx_ledger::ledger::amount::Amount;
use rust_tx_ledger::ledger::entry::{Entry, EntryType, WireEntry};

fn amount(s: &str) -> Amount {
    let d = Decimal::from_str_exact(s).unwrap();
    Amount::from_parts(d.mantissa(), d.scale()).unwrap()
}

fn make_funds_entry(kind: EntryType, client: u16, tx: u32, amt: &str) -> Entry {
    Entry::Funds { kind, client_id: client, tx, amount: amount(amt) }
}

fn make_control_entry(kind: EntryType, client: u16, tx: u32) -> Entry {
    Entry::Control { kind, client_id: client, tx }
}

#[test]
fn deposit_withdraw_dispute_resolve_flow() {
    let mut account = Account::default();

    account.deposit(&make_funds_entry(EntryType::Deposit, 1, 1, "10")).unwrap();
    account.withdrawal(&make_funds_entry(EntryType::Withdrawal, 1, 2, "3")).unwrap();
    account.deposit(&make_funds_entry(EntryType::Deposit, 1, 3, "2.5")).unwrap();

    account.dispute(&make_control_entry(EntryType::Dispute, 1, 3)).unwrap();
    account.resolve(&make_control_entry(EntryType::Resolve, 1, 3)).unwrap();

    assert_eq!(account.available().to_string(), "9.5000");
    assert_eq!(account.held().to_string(), "0.0000");
    assert_eq!(account.total().to_string(), "9.5000");
}

#[test]
fn chargeback_locks_account() {
    let mut account = Account::default();

    account.deposit(&make_funds_entry(EntryType::Deposit, 1, 1, "5")).unwrap();
    account.dispute(&make_control_entry(EntryType::Dispute, 1, 1)).unwrap();
    account.chargeback(&make_control_entry(EntryType::Chargeback, 1, 1)).unwrap();

    assert!(account.is_locked());
    assert!(matches!(
        account.deposit(&make_funds_entry(EntryType::Deposit, 1, 2, "1")),
        Err(AccountError::Locked)
    ));
}

#[test]
fn duplicate_tx_is_idempotent() {
    let mut account = Account::default();

    let entry = make_funds_entry(EntryType::Deposit, 1, 42, "1");
    account.deposit(&entry).unwrap();
    account.deposit(&entry).unwrap(); // same tx again

    assert_eq!(account.available().to_string(), "1.0000");
}

#[test]
fn withdrawal_needs_enough_available_funds() {
    let mut account = Account::default();
    account.deposit(&make_funds_entry(EntryType::Deposit, 1, 1, "2")).unwrap();
    assert_eq!(
        account.withdrawal(&make_funds_entry(EntryType::Withdrawal, 1, 2, "2.0001")),
        Err(AccountError::Insufficient)
    );
    assert_eq!(account.available().to_string(), "2.0000");
    account.withdrawal(&make_funds_entry(EntryType::Withdrawal, 1, 3, "2")).unwrap();
    assert_eq!(account.available().to_string(), "0.0000");
    // a replayed withdrawal is ignored
    account.withdrawal(&make_funds_entry(EntryType::Withdrawal, 1, 3, "2")).unwrap();
    assert_eq!(account.available().to_string(), "0.0000");
}

#[test]
fn every_account_error_has_its_input() {
    let mut account = Account::default();
    assert_eq!(account.dispute(&make_control_entry(EntryType::Dispute, 1, 9)), Err(AccountError::TxNotFound));
    assert_eq!(account.resolve(&make_control_entry(EntryType::Resolve, 1, 9)), Err(AccountError::TxNotFound));
    assert_eq!(account.chargeback(&make_control_entry(EntryType::Chargeback, 1, 9)), Err(AccountError::TxNotFound));
    assert_eq!(account.deposit(&make_control_entry(EntryType::Deposit, 1, 1)), Err(AccountError::MissingAmount));
    assert_eq!(account.withdrawal(&make_control_entry(EntryType::Withdrawal, 1, 1)), Err(AccountError::MissingAmount));

    account.deposit(&make_funds_entry(EntryType::Deposit, 1, 1, "5")).unwrap();
    account.withdrawal(&make_funds_entry(EntryType::Withdrawal, 1, 2, "1")).unwrap();
    assert_eq!(account.dispute(&make_control_entry(EntryType::Dispute, 1, 2)), Err(AccountError::NotDisputable));
    assert_eq!(account.resolve(&make_control_entry(EntryType::Resolve, 1, 1)), Err(AccountError::NotDisputed));
    assert_eq!(account.chargeback(&make_control_entry(EntryType::Chargeback, 1, 1)), Err(AccountError::NotDisputed));
    account.dispute(&make_control_entry(EntryType::Dispute, 1, 1)).unwrap();
    assert_eq!(account.dispute(&make_control_entry(EntryType::Dispute, 1, 1)), Err(AccountError::AlreadyDisputed));
    account.chargeback(&make_control_entry(EntryType::Chargeback, 1, 1)).unwrap();
    assert_eq!(account.withdrawal(&make_funds_entry(EntryType::Withdrawal, 1, 5, "1")), Err(AccountError::Locked));
    assert_eq!(account.dispute(&make_control_entry(EntryType::Dispute, 1, 1)), Err(AccountError::Locked));
    assert_eq!(account.resolve(&make_control_entry(EntryType::Resolve, 1, 1)), Err(AccountError::Locked));
    assert_eq!(account.chargeback(&make_control_entry(EntryType::Chargeback, 1, 1)), Err(AccountError::Locked));
}

#[test]
fn dispute_moves_funds_even_below_zero_and_resolve_restores() {
    let mut account = Account::default();
    account.deposit(&make_funds_entry(EntryType::Deposit, 1, 1, "5")).unwrap();
    account.withdrawal(&make_funds_entry(EntryType::Withdrawal, 1, 2, "4")).unwrap();
    account.dispute(&make_control_entry(EntryType::Dispute, 1, 1)).unwrap();
    assert_eq!(account.available().to_string(), "-4.0000");
    assert_eq!(account.held().to_string(), "5.0000");
    assert_eq!(account.total().to_string(), "1.0000");
    account.resolve(&make_control_entry(EntryType::Resolve, 1, 1)).unwrap();
    assert_eq!(account.available().to_string(), "1.0000");
    assert_eq!(account.held().to_string(), "0.0000");
    // the deposit can be disputed again after a resolve
    account.dispute(&make_control_entry(EntryType::Dispute, 1, 1)).unwrap();
    assert_eq!(account.held().to_string(), "5.0000");
}

#[test]
fn chargeback_takes_the_held_amount_from_the_total() {
    let mut account = Account::default();
    account.deposit(&make_funds_entry(EntryType::Deposit, 1, 1, "5")).unwrap();
    account.deposit(&make_funds_entry(EntryType::Deposit, 1, 2, "1.25")).unwrap();
    account.dispute(&make_control_entry(EntryType::Dispute, 1, 2)).unwrap();
    account.chargeback(&make_control_entry(EntryType::Chargeback, 1, 2)).unwrap();
    assert_eq!(account.available().to_string(), "5.0000");
    assert_eq!(account.held().to_string(), "0.0000");
    assert_eq!(account.total().to_string(), "5.0000");
    assert!(account.is_locked());
}

#[test]
fn overflow_is_detected_before_applying() {
    let mut account = Account::default();
    let big = Amount::from_parts(79228162514264337593543950335, 0).unwrap();
    let first = Entry::Funds { kind: EntryType::Deposit, client_id: 1, tx: 1, amount: big };
    assert!(!account.overflows(&first));
    account.deposit(&first).unwrap();
    let second = Entry::Funds { kind: EntryType::Deposit, client_id: 1, tx: 2, amount: big };
    assert!(account.overflows(&second));
    assert!(account.checked_total().is_some());
}

#[test]
fn account_error_messages() {
    assert_eq!(AccountError::Locked.to_string(), "account locked");
    assert_eq!(AccountError::Insufficient.to_string(), "insufficient funds");
    assert_eq!(AccountError::TxNotFound.to_string(), "tx not found");
    assert_eq!(AccountError::AlreadyDisputed.to_string(), "tx already disputed");
    assert_eq!(AccountError::NotDisputed.to_string(), "tx not disputed");
    assert_eq!(AccountError::NotDisputable.to_string(), "tx not disputable");
    assert_eq!(AccountError::MissingAmount.to_string(), "missing amount");
}

#[test]
fn held_is_the_sum_of_disputed_deposits() {
    let mut account = Account::default();
    account.deposit(&make_funds_entry(EntryType::Deposit, 1, 1, "1.5")).unwrap();
    account.deposit(&make_funds_entry(EntryType::Deposit, 1, 2, "2.25")).unwrap();
    account.deposit(&make_funds_entry(EntryType::Deposit, 1, 3, "10")).unwrap();
    account.withdrawal(&make_funds_entry(EntryType::Withdrawal, 1, 4, "0.75")).unwrap();
    account.dispute(&make_control_entry(EntryType::Dispute, 1, 1)).unwrap();
    account.dispute(&make_control_entry(EntryType::Dispute, 1, 2)).unwrap();
    assert_eq!(account.held().to_string(), "3.7500");
    assert_eq!(account.total().to_string(), "13.0000");
    account.resolve(&make_control_entry(EntryType::Resolve, 1, 1)).unwrap();
    assert_eq!(account.held().to_string(), "2.2500");
    assert_eq!(account.available().to_string(), "10.7500");
    assert_eq!(account.total().to_string(), "13.0000");
}

#[test]
fn validated_entries_never_miss_their_amount() {

    let mut account = Account::default();
    for (tx, kind) in [(1, EntryType::Deposit), (2, EntryType::Withdrawal)] {
        let wire = WireEntry { kind, client_id: 1, tx, amount: Some(amount("1")) };
        let entry = Entry::try_from(wire).unwrap();
        let r = match kind {
            EntryType::Deposit => account.deposit(&entry),
            _ => account.withdrawal(&entry),
        };
        assert!(r.is_ok());
    }
    assert_eq!(account.total().to_string(), "0.0000");
}

#[test]
fn a_run_of_four_place_amounts_stays_exact() {
    let mut account = Account::default();
    let mut tx: u32 = 0;
    for _ in 0..50 {
        tx += 1;
        account.deposit(&make_funds_entry(EntryType::Deposit, 1, tx, "0.0001")).unwrap();
        tx += 1;
        account.deposit(&make_funds_entry(EntryType::Deposit, 1, tx, "1234567.8912")).unwrap();
        tx += 1;
        account.withdrawal(&make_funds_entry(EntryType::Withdrawal, 1, tx, "1234567.8911")).unwrap();
    }
    account.dispute(&make_control_entry(EntryType::Dispute, 1, 2)).unwrap();
    // 50 * (0.0001 + 0.0001), less the disputed 1234567.8912 now held.
    assert_eq!(account.available().parts(), (-12345678812, 4));
    assert_eq!(account.held().parts(), (12345678912, 4));
    assert_eq!(account.total().parts(), (100, 4));
    assert_eq!(account.total().to_string(), "0.0100");
    account.chargeback(&make_control_entry(EntryType::Chargeback, 1, 2)).unwrap();
    assert_eq!(account.held().parts(), (0, 4));
    assert_eq!(account.total().to_string(), "-1234567.8812");
}

#[test]
fn a_locked_account_refuses_every_later_operation() {
    let mut account = Account::default();
    account.deposit(&make_funds_entry(EntryType::Deposit, 1, 1, "5")).unwrap();
    account.deposit(&make_funds_entry(EntryType::Deposit, 1, 2, "2")).unwrap();
    account.dispute(&make_control_entry(EntryType::Dispute, 1, 1)).unwrap();
    account.chargeback(&make_control_entry(EntryType::Chargeback, 1, 1)).unwrap();
    let (available, held) = (account.available().to_string(), account.held().to_string());
    assert_eq!(account.deposit(&make_funds_entry(EntryType::Deposit, 1, 3, "1")), Err(AccountError::Locked));
    assert_eq!(account.withdrawal(&make_funds_entry(EntryType::Withdrawal, 1, 4, "1")), Err(AccountError::Locked));
    assert_eq!(account.dispute(&make_control_entry(EntryType::Dispute, 1, 2)), Err(AccountError::Locked));
    assert_eq!(account.resolve(&make_control_entry(EntryType::Resolve, 1, 1)), Err(AccountError::Locked));
    assert_eq!(account.chargeback(&make_control_entry(EntryType::Chargeback, 1, 1)), Err(AccountError::Locked));
    assert!(account.is_locked());
    assert_eq!(account.available().to_string(), available);
    assert_eq!(account.held().to_string(), held);
    assert_eq!(available, "2.0000");
    assert_eq!(held, "0.0000");
}

#[test]
fn a_resolved_deposit_can_be_disputed_again() {
    let mut account = Account::default();
    account.deposit(&make_funds_entry(EntryType::Deposit, 1, 1, "4.5")).unwrap();
    account.dispute(&make_control_entry(EntryType::Dispute, 1, 1)).unwrap();
    account.resolve(&make_control_entry(EntryType::Resolve, 1, 1)).unwrap();
    assert_eq!(account.available().to_string(), "4.5000");
    assert_eq!(account.held().to_string(), "0.0000");
    assert_eq!(account.dispute(&make_control_entry(EntryType::Dispute, 1, 1)), Ok(()));
    assert_eq!(account.held().to_string(), "4.5000");
    assert!(!account.held().is_sign_negative());
}
