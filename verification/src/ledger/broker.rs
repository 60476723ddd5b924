//! Broker: routes validated entries to partitions by client id.
//!
//! A client id always maps to the same partition, `client_id %
//! partition_count`; the broker is the only sender to each partition, which
//! keeps each client's entries in order. The channels and the task are the
//! program's; the routing rule is here.

use vstd::prelude::*;

use crate::ledger::account::ClientId;

verus! {

/// Errors of the broker loop.
#[derive(Debug, Clone, Copy, PartialEq, Eq, Structural)]
pub enum BrokerError {
    PartitionClosed,
}

impl BrokerError {
    /// The error's message.
    pub fn to_string(&self) -> (r: String)
        ensures
            r@ == "partition closed"@,
    {
        String::from_str("partition closed")
    }
}

/// The partition that serves a client: `client_id % partition_count`.
pub fn partition_index(client_id: ClientId, partition_count: usize) -> (r: usize)
    requires
        partition_count > 0,
    ensures
        r == client_id as nat % partition_count as nat,
        r < partition_count,
{
    (client_id as usize) % partition_count
}

} // verus!
