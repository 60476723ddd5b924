//! Partition: the accounts of a disjoint set of clients, and how each entry
//! routed to the partition is applied to them.
//!
//! The broker sends every entry of a client to one partition, in order; the
//! partition applies it to the client's account (opening one on first sight)
//! and goes on. Account errors (locked, insufficient funds, unknown or
//! wrongly disputed transactions) are expected in a stream of transactions and
//! are skipped. Running the partition as a task and handing its accounts over
//! at shutdown is the program's part; the state and the step are here.

use std::collections::HashMap;

use vstd::prelude::*;

use crate::ledger::account::{account_error_text, Account, AccountError, AccountView, AccountsMap, AccountResult, ClientId};
use crate::ledger::amount::lemma_zero_value;
use crate::ledger::entry::EntryType;
use crate::ledger::message::DataMessage;
use crate::text::{nat_text, u64_text};

verus! {

broadcast use vstd::std_specs::hash::group_hash_axioms;

/// Errors of a partition.
#[derive(Debug, Clone, Copy, PartialEq, Eq, Structural)]
pub enum PartitionError {
    /// An account refused an entry in a way that validation should have
    /// ruled out.
    Apply { client: ClientId, tx: u32, source: AccountError },
    /// Applying the entry would overflow the decimal arithmetic of an account;
    /// the entry was not applied.
    Overflow { client: ClientId, tx: u32 },
}

/// The message of a partition error.
pub open spec fn partition_error_text(e: PartitionError) -> Seq<char> {
    match e {
        PartitionError::Apply { client, tx, source } => "apply error client "@ + nat_text(client as nat)
            + " tx "@ + nat_text(tx as nat) + ": "@ + account_error_text(source),
        PartitionError::Overflow { client, tx } => "arithmetic overflow client "@ + nat_text(client as nat)
            + " tx "@ + nat_text(tx as nat),
    }
}

impl PartitionError {
    /// The error's message.
    pub fn to_string(&self) -> (r: String)
        ensures
            r@ == partition_error_text(*self),
    {
        match self {
            PartitionError::Apply { client, tx, source } => {
                let mut s = String::from_str("apply error client ");
                s.append(u64_text(*client as u64).as_str());
                s.append(" tx ");
                s.append(u64_text(*tx as u64).as_str());
                s.append(": ");
                s.append(source.to_string().as_str());
                s
            },
            PartitionError::Overflow { client, tx } => {
                let mut s = String::from_str("arithmetic overflow client ");
                s.append(u64_text(*client as u64).as_str());
                s.append(" tx ");
                s.append(u64_text(*tx as u64).as_str());
                s
            },
        }
    }
}

pub type PartitionResult<T> = Result<T, PartitionError>;

/// The accounts of the clients a partition serves.
pub struct Partition {
    accounts: AccountsMap,
}

impl View for Partition {
    /// The accounts, by client.
    type V = Map<ClientId, Account>;

    closed spec fn view(&self) -> Map<ClientId, Account> {
        self.accounts@
    }
}

/// The state of a client's account: the recorded one, or a new account.
pub open spec fn account_of(accounts: Map<ClientId, Account>, client: ClientId) -> AccountView {
    if accounts.contains_key(client) {
        accounts[client]@
    } else {
        AccountView::initial()
    }
}

impl Partition {
    /// A partition with no accounts.
    pub fn new() -> (r: Partition)
        ensures
            r@ == Map::<ClientId, Account>::empty(),
    {
        Partition { accounts: HashMap::new() }
    }

    /// The accounts, by client.
    pub fn accounts(&self) -> (r: &AccountsMap)
        ensures
            r@ == self@,
    {
        &self.accounts
    }

    /// The accounts, by client, handed over at shutdown.
    pub fn into_accounts(self) -> (r: AccountsMap)
        ensures
            r@ == self@,
    {
        self.accounts
    }

    /// Applies one entry to its client's account, opening the account on
    /// first sight.
    ///
    /// The entry's type picks the operation. An account error is skipped: the
    /// partition goes on. Only where the operation would overflow the decimal
    /// arithmetic is the entry left unapplied, and that is reported.
    pub fn apply(&mut self, message: &DataMessage) -> (r: PartitionResult<()>)
        ensures
            ({
                let e = message@;
                let client = e.client_id();
                let pre = account_of(old(self)@, client);
                &&& final(self)@ == old(self)@.insert(client, final(self)@[client])
                &&& pre.wf() ==> final(self)@[client]@.wf()
                &&& !old(self)@.contains_key(client) ==> {
                    &&& pre.wf()
                    &&& pre.available.spec_mantissa() == 0 && pre.available.spec_scale() == 0
                    &&& pre.held.spec_mantissa() == 0 && pre.held.spec_scale() == 0
                }
                &&& if pre.apply_overflows(e) {
                    &&& r == Err::<(), PartitionError>(PartitionError::Overflow { client, tx: e.tx() })
                    &&& final(self)@[client]@ == pre
                } else {
                    &&& r == Ok::<(), PartitionError>(())
                    &&& exists|res: AccountResult<()>| pre.apply_step(e, final(self)@[client]@, res)
                }
            }),
    {
        let entry = message.entry();
        let client_id = entry.client_id();
        let mut account = match self.accounts.remove(&client_id) {
            Some(a) => a,
            None => Account::default(),
        };
        let ghost pre = account@;
        proof {
            lemma_zero_value();
        }
        if account.overflows(entry) {
            self.accounts.insert(client_id, account);
            return Err(PartitionError::Overflow { client: client_id, tx: entry.tx() });
        }
        let result = match entry.kind() {
            EntryType::Deposit => account.deposit(entry),
            EntryType::Withdrawal => account.withdrawal(entry),
            EntryType::Dispute => account.dispute(entry),
            EntryType::Chargeback => account.chargeback(entry),
            EntryType::Resolve => account.resolve(entry),
        };
        let ghost post = account@;
        self.accounts.insert(client_id, account);
        proof {
            assert(pre.apply_step(*entry, post, result));
            assert(self@ =~= old(self)@.insert(client_id, self@[client_id]));
        }
        match result {
            Ok(()) => Ok(()),
            Err(
                AccountError::Locked
                | AccountError::Insufficient
                | AccountError::TxNotFound
                | AccountError::AlreadyDisputed
                | AccountError::NotDisputed
                | AccountError::NotDisputable
                | AccountError::MissingAmount,
            ) => Ok(()),
        }
    }
}

} // verus!
