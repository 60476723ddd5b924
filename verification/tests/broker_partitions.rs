use std::collections::BTreeMap;

use rust_decimal::Decimal;
use rust_tx_ledger::ledger::amount::Amount;
use rust_tx_ledger::ledger::broker::{partition_index, BrokerError};
use rust_tx_ledger::ledger::entry::{Entry, EntryType};
use rust_tx_ledger::ledger::message::DataMessage;
use rust_tx_ledger::ledger::partition::{Partition, PartitionError};
use rust_tx_ledger::ledger::account::AccountError;

fn make_data_message(client: u16, tx: u32, amount: &str) -> DataMessage {
    let d = Decimal::from_str_exact(amount).unwrap();
    DataMessage::new(Entry::Funds {
        kind: EntryType::Deposit,
        client_id: client,
        tx,
        amount: Amount::from_parts(d.mantissa(), d.scale()).unwrap(),
    })
}

#[test]
fn routes_by_client_and_preserves_per_partition_fifo() {
    let mut partitions = vec![Partition::new(), Partition::new()];

    for message in [make_data_message(1, 1, "1"), make_data_message(2, 1, "2"), make_data_message(1, 2, "3")] {
        let idx = partition_index(message.client_id(), partitions.len());
        partitions[idx].apply(&message).unwrap();
    }

    let mut totals = BTreeMap::new();
    for partition in partitions {
        for (client, account) in partition.into_accounts() {
            totals.insert(client, account.total().to_string());
        }
    }

    assert_eq!(totals.get(&1).unwrap(), "4.0000");
    assert_eq!(totals.get(&2).unwrap(), "2.0000");
}

#[test]
fn routing_is_by_client_modulo_partition_count() {
    assert_eq!(partition_index(0, 2), 0);
    assert_eq!(partition_index(5, 2), 1);
    assert_eq!(partition_index(7, 3), 1);
    assert_eq!(partition_index(65535, 4), 3);
    assert_eq!(partition_index(9, 1), 0);
}

#[test]
fn partition_skips_account_errors_and_opens_accounts() {
    let mut p = Partition::new();
    let dispute = DataMessage::new(Entry::Control { kind: EntryType::Dispute, client_id: 3, tx: 7 });
    assert!(p.apply(&dispute).is_ok());
    // the unknown client got an empty account
    let acc = p.accounts().get(&3).unwrap();
    assert_eq!(acc.total().to_string(), "0.0000");
    let w = DataMessage::new(Entry::Funds {
        kind: EntryType::Withdrawal,
        client_id: 3,
        tx: 8,
        amount: Amount::parse("1").unwrap(),
    });
    assert!(p.apply(&w).is_ok());
    assert_eq!(p.accounts().get(&3).unwrap().available().to_string(), "0.0000");
}

#[test]
fn partition_reports_overflow_and_leaves_the_account() {
    let mut p = Partition::new();
    let big = Amount::from_parts(79228162514264337593543950335, 0).unwrap();
    let m1 = DataMessage::new(Entry::Funds { kind: EntryType::Deposit, client_id: 1, tx: 1, amount: big });
    let m2 = DataMessage::new(Entry::Funds { kind: EntryType::Deposit, client_id: 1, tx: 2, amount: big });
    assert!(p.apply(&m1).is_ok());
    assert_eq!(p.apply(&m2), Err(PartitionError::Overflow { client: 1, tx: 2 }));
    assert_eq!(
        p.accounts().get(&1).unwrap().available().to_string(),
        "79228162514264337593543950335.0000"
    );
}

#[test]
fn error_messages() {
    assert_eq!(BrokerError::PartitionClosed.to_string(), "partition closed");
    assert_eq!(
        PartitionError::Apply { client: 4, tx: 12, source: AccountError::Locked }.to_string(),
        "apply error client 4 tx 12: account locked"
    );
    assert_eq!(
        PartitionError::Overflow { client: 4, tx: 12 }.to_string(),
        "arithmetic overflow client 4 tx 12"
    );
}
