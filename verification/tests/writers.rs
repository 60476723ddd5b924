use rust_tx_ledger::ledger::account::Account;
use rust_tx_ledger::ledger::amount::Amount;
use rust_tx_ledger::ledger::cursor::Cursor;
use rust_tx_ledger::ledger::dlq_writer::{dlq_header, dlq_row, record_as_csv, strip_line_feeds};
use rust_tx_ledger::ledger::entry::{Entry, EntryType, EntryValidateError, WireEntry};
use rust_tx_ledger::ledger::message::{DlqMessage, DlqReason};
use rust_tx_ledger::ledger::partition_writer::PartitionWriter;
use rust_tx_ledger::ledger::provider::{process_record, Routed};
use rust_tx_ledger::text::u64_text;

fn fields(xs: &[&str]) -> Vec<String> {
    xs.iter().map(|s| s.to_string()).collect()
}

#[test]
fn account_rows() {
    assert_eq!(PartitionWriter::header(), fields(&["client", "available", "held", "total", "locked"]));
    let mut account = Account::default();
    account
        .deposit(&Entry::Funds { kind: EntryType::Deposit, client_id: 1, tx: 1, amount: Amount::parse("1.03415").unwrap() })
        .unwrap();
    assert_eq!(
        PartitionWriter::account_row(1, &account).unwrap(),
        fields(&["1", "1.0341", "0.0000", "1.0341", "false"])
    );
}

#[test]
fn records_are_written_back_as_csv() {
    assert_eq!(record_as_csv(&fields(&["withdrawal", "1", "5", "0"])).unwrap(), "withdrawal,1,5,0");
    assert_eq!(record_as_csv(&fields(&["a,b", "c\"d"])).unwrap(), "\"a,b\",\"c\"\"d\"");
}

#[test]
fn dlq_rows() {
    assert_eq!(dlq_header(), fields(&["line", "byte", "reason", "raw"]));
    let m = DlqMessage::new(Cursor::new(7, 117), fields(&["withdrawal", "1", "5", "0"]), DlqReason::ZeroAmount);
    assert_eq!(dlq_row(&m).unwrap(), fields(&["7", "117", "zero amount", "withdrawal,1,5,0"]));
    let m = DlqMessage::new(
        Cursor::new(5, 85),
        fields(&["1", "3", "0.5"]),
        DlqReason::CsvDeserialize("unknown variant `1`".to_string()),
    );
    assert_eq!(dlq_row(&m).unwrap(), fields(&["5", "85", "csv deserialize: unknown variant `1`", "1,3,0.5"]));
}

#[test]
fn dlq_reasons() {
    assert_eq!(DlqReason::from(EntryValidateError::MissingAmount(EntryType::Deposit)).to_string(), "missing amount: deposit");
    assert_eq!(DlqReason::from(EntryValidateError::AmountNotAllowed(EntryType::Dispute)).to_string(), "amount not allowed for Dispute");
    assert_eq!(DlqReason::from(EntryValidateError::NegativeAmount).to_string(), "negative amount");
    assert_eq!(DlqReason::from(EntryValidateError::ZeroAmount).to_string(), "zero amount");
}

#[test]
fn rows_are_routed_to_data_or_dead_letters() {
    let good = WireEntry { kind: EntryType::Deposit, client_id: 2, tx: 3, amount: Some(Amount::parse("1").unwrap()) };
    match process_record(Cursor::new(2, 20), fields(&["deposit", "2", "3", "1"]), Ok(good)) {
        Routed::Data(m) => assert_eq!(m.client_id(), 2),
        Routed::Dlq(_) => panic!("valid row rejected"),
    }
    let bad = WireEntry { kind: EntryType::Withdrawal, client_id: 2, tx: 4, amount: Some(Amount::parse("-1").unwrap()) };
    match process_record(Cursor::new(3, 30), fields(&["withdrawal", "2", "4", "-1"]), Ok(bad)) {
        Routed::Dlq(m) => {
            assert_eq!(m.cursor().line(), 3);
            assert_eq!(m.cursor().byte(), 30);
            assert_eq!(m.reason().to_string(), "negative amount");
            assert_eq!(m.record(), &fields(&["withdrawal", "2", "4", "-1"]));
        },
        Routed::Data(_) => panic!("invalid row accepted"),
    }
    match process_record(Cursor::new(4, 40), fields(&["x"]), Err("boom".to_string())) {
        Routed::Dlq(m) => assert_eq!(m.reason().to_string(), "csv deserialize: boom"),
        Routed::Data(_) => panic!("unreadable row accepted"),
    }
}

#[test]
fn numbers_are_written_in_decimal() {
    assert_eq!(u64_text(0), "0");
    assert_eq!(u64_text(117), "117");
    assert_eq!(u64_text(u64::MAX), "18446744073709551615");
}

#[test]
fn trailing_line_feeds_are_stripped() {
    assert_eq!(strip_line_feeds("a,b\n"), "a,b");
    assert_eq!(strip_line_feeds("a,b\n\n"), "a,b");
    assert_eq!(strip_line_feeds("a\nb"), "a\nb");
    assert_eq!(strip_line_feeds("\n"), "");
    assert_eq!(strip_line_feeds("a\r\n"), "a\r");
}

#[test]
fn records_with_line_breaks_are_quoted_on_one_row() {
    assert_eq!(record_as_csv(&fields(&["a\nb", "c"])).unwrap(), "\"a\nb\",c");
    assert_eq!(record_as_csv(&fields(&[""])).unwrap(), "\"\"");
}

#[test]
fn empty_records_and_carriage_returns_are_written_as_csv_does() {
    assert_eq!(record_as_csv(&fields(&[])).unwrap(), "\"\"");
    assert_eq!(record_as_csv(&fields(&["", ""])).unwrap(), ",");
    assert_eq!(record_as_csv(&fields(&["x\ry", "plain text", "é,ü"])).unwrap(), "\"x\ry\",plain text,\"é,ü\"");
    assert_eq!(record_as_csv(&fields(&["say \"hi\""])).unwrap(), "\"say \"\"hi\"\"\"");
}
