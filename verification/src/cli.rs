//! Cli: the settings of a ledger run.
//!
//! Parsing them from the command line is the program's part; the settings and
//! what follows from them are here.

use std::path::PathBuf;

use vstd::prelude::*;

verus! {

/// `std::path::PathBuf`, carried through as it is; nothing is claimed of it.
#[verifier::external_type_specification]
#[verifier::external_body]
pub struct ExPathBuf(PathBuf);

/// Settings of the ledger pipeline.
pub struct Cli {
    /// Input CSV file containing transactions.
    pub file_input_path: PathBuf,
    /// Max messages in the broker's inbound queue.
    pub data_message_capacity: usize,
    /// Max messages in each partition's inbound queue.
    pub partition_message_capacity: usize,
    /// Number of partitions asked for.
    pub partition_thread_count: usize,
    /// Max messages in the dead-letter writer's queue.
    pub dlq_message_capacity: usize,
    /// Output path for the dead-letter CSV.
    pub dlq_output_path: PathBuf,
}

impl Cli {
    /// The number of partitions to run: the number asked for, but at least
    /// two.
    pub fn partition_count(&self) -> (r: usize)
        ensures
            r >= 2,
            r == if self.partition_thread_count >= 2 { self.partition_thread_count } else { 2 },
    {
        if self.partition_thread_count >= 2 {
            self.partition_thread_count
        } else {
            2
        }
    }
}

} // verus!
