//! The items a program around the ledger needs most.

pub use crate::cli::Cli;
pub use crate::ledger::{partition_index, Partition, PartitionWriter};
