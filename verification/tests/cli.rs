use std::path::PathBuf;

use rust_tx_ledger::cli::Cli;

fn cli(threads: usize) -> Cli {
    Cli {
        file_input_path: PathBuf::from("transactions.csv"),
        data_message_capacity: 1024,
        partition_message_capacity: 1024,
        partition_thread_count: threads,
        dlq_message_capacity: 1024,
        dlq_output_path: PathBuf::from("dlq.csv"),
    }
}

#[test]
fn at_least_two_partitions() {
    assert_eq!(cli(0).partition_count(), 2);
    assert_eq!(cli(1).partition_count(), 2);
    assert_eq!(cli(2).partition_count(), 2);
    assert_eq!(cli(8).partition_count(), 8);
}
