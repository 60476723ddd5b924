use rust_tx_ledger::ledger::amount::Amount;
use rust_tx_ledger::ledger::entry::{amount_field_value, de_amount_opt, Entry, EntryType, EntryValidateError, WireEntry};

fn make_wire_entry(kind: EntryType, amount: Option<&str>) -> WireEntry {
    WireEntry { kind, client_id: 10, tx: 99, amount: amount.map(|s| Amount::parse(s).unwrap()) }
}

#[test]
fn deposit_ok() {
    let entry = Entry::try_from(make_wire_entry(EntryType::Deposit, Some("1.2345"))).unwrap();
    assert!(matches!(entry.kind(), EntryType::Deposit));
    assert_eq!(entry.client_id(), 10);
    assert_eq!(entry.tx(), 99);
    assert!(entry.amount().is_some());
}

#[test]
fn deposit_rejects_zero_and_negative() {
    assert!(matches!(
        Entry::try_from(make_wire_entry(EntryType::Deposit, Some("0"))),
        Err(EntryValidateError::ZeroAmount)
    ));
    assert!(matches!(
        Entry::try_from(make_wire_entry(EntryType::Deposit, Some("-0.01"))),
        Err(EntryValidateError::NegativeAmount)
    ));
}

#[test]
fn control_ops_reject_amount() {
    for k in [EntryType::Dispute, EntryType::Resolve, EntryType::Chargeback] {
        assert!(matches!(
            Entry::try_from(make_wire_entry(k, Some("1.00"))),
            Err(EntryValidateError::AmountNotAllowed(_))
        ));
    }
}

#[test]
fn funds_entries_need_an_amount_and_control_entries_pass_without() {
    assert_eq!(
        Entry::try_from(make_wire_entry(EntryType::Withdrawal, None)).unwrap_err(),
        EntryValidateError::MissingAmount(EntryType::Withdrawal)
    );
    let e = Entry::try_from(make_wire_entry(EntryType::Resolve, None)).unwrap();
    assert!(matches!(e, Entry::Control { kind: EntryType::Resolve, client_id: 10, tx: 99 }));
    assert!(e.amount().is_none());
    let w = Entry::try_from(make_wire_entry(EntryType::Withdrawal, Some("0.0001"))).unwrap();
    assert_eq!(w.amount().unwrap().to_string(), "0.0001");
    // negative zero reads as zero
    assert_eq!(
        Entry::try_from(make_wire_entry(EntryType::Deposit, Some("-0"))).unwrap_err(),
        EntryValidateError::ZeroAmount
    );
}

#[test]
fn entry_texts() {
    assert_eq!(EntryType::Deposit.to_string(), "deposit");
    assert_eq!(EntryType::Chargeback.to_string(), "chargeback");
    assert_eq!(EntryType::Dispute.name(), "Dispute");
    assert_eq!(EntryValidateError::MissingAmount(EntryType::Deposit).to_string(), "missing amount for deposit");
    assert_eq!(EntryValidateError::AmountNotAllowed(EntryType::Resolve).to_string(), "amount not allowed for resolve");
    assert_eq!(EntryValidateError::NegativeAmount.to_string(), "negative amount");
    assert_eq!(EntryValidateError::ZeroAmount.to_string(), "zero amount");
}

#[test]
fn amount_fields_are_trimmed_and_may_be_empty() {
    assert!(de_amount_opt(None).unwrap().is_none());
    assert!(de_amount_opt(Some("")).unwrap().is_none());
    assert!(de_amount_opt(Some("   ")).unwrap().is_none());
    assert_eq!(de_amount_opt(Some(" 1.5 ")).unwrap().unwrap().to_string(), "1.5000");
    assert!(de_amount_opt(Some("x")).is_err());
}

#[test]
fn trimmed_amount_fields() {
    assert!(amount_field_value("").unwrap().is_none());
    assert_eq!(amount_field_value("2.5").unwrap().unwrap().to_string(), "2.5000");
    assert!(amount_field_value(" 2.5").is_err());
}

#[test]
fn amount_fields_lose_unicode_white_space_only() {
    assert_eq!(de_amount_opt(Some("\t\r\n 3.25\u{3000}\u{a0}")).unwrap().unwrap().parts(), (325, 2));
    assert!(de_amount_opt(Some("\u{2003}\u{85}")).unwrap().is_none());
    assert!(de_amount_opt(Some("3.25x ")).is_err());
}
