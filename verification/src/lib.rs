//! A streaming transaction ledger: rows are validated into entries, routed by
//! client id to partitions, and applied there to per-client accounts
//! (deposits, withdrawals, disputes, resolves and chargebacks); rejected rows
//! go to a dead-letter file.

pub mod cli;
pub mod ledger;
pub mod prelude;
pub mod text;
