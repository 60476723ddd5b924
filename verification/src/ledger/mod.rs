//! The ledger: amounts, entries, accounts, partitions, and the messages and
//! rows of the pipeline.

pub mod account;
pub mod amount;
pub mod broker;
pub mod cursor;
pub mod decimal;
pub mod dlq_writer;
pub mod entry;
pub mod message;
pub mod partition;
pub mod partition_writer;
pub mod provider;

pub use broker::partition_index;
pub use partition::Partition;
pub use partition_writer::PartitionWriter;
