//! PartitionWriter: the rows written for the final account states.
//!
//! The output has the header `client,available,held,total,locked` and one row
//! per client account; amounts are shown with four decimal places, truncated
//! toward zero. Collecting the partitions' accounts and writing the CSV is the
//! program's part; the rows are made here.

use vstd::prelude::*;

use crate::ledger::account::{Account, ClientId};
use crate::ledger::amount::{fixed4_text, truncated_4dp};
use crate::text::{nat_text, u64_text};

verus! {

/// How a flag is written.
pub open spec fn bool_text(b: bool) -> Seq<char> {
    if b {
        "true"@
    } else {
        "false"@
    }
}

/// Writes the final account states.
pub struct PartitionWriter;

impl PartitionWriter {
    /// The header row: `client,available,held,total,locked`.
    pub fn header() -> (r: Vec<String>)
        ensures
            r@.len() == 5,
            r@[0]@ == "client"@,
            r@[1]@ == "available"@,
            r@[2]@ == "held"@,
            r@[3]@ == "total"@,
            r@[4]@ == "locked"@,
    {
        let mut r = Vec::new();
        r.push(String::from_str("client"));
        r.push(String::from_str("available"));
        r.push(String::from_str("held"));
        r.push(String::from_str("total"));
        r.push(String::from_str("locked"));
        r
    }

    /// The row of one account: client id, available, held and total funds, and
    /// whether it is locked; `None` where the total overflows the decimal
    /// arithmetic.
    pub fn account_row(client_id: ClientId, account: &Account) -> (r: Option<Vec<String>>)
        ensures
            account@.available.checked_add_spec(account@.held) is None ==> r is None,
            account@.available.checked_add_spec(account@.held) matches Some(total) ==> r matches Some(row)
                && row@.len() == 5
                && row@[0]@ == nat_text(client_id as nat)
                && row@[1]@ == fixed4_text(truncated_4dp(account@.available@))
                && row@[2]@ == fixed4_text(truncated_4dp(account@.held@))
                && row@[3]@ == fixed4_text(truncated_4dp(total@))
                && row@[4]@ == bool_text(account@.locked),
    {
        if account.checked_total().is_none() {
            return None;
        }
        let total = account.total();
        let mut row = Vec::new();
        row.push(u64_text(client_id as u64));
        row.push(account.available().to_string());
        row.push(account.held().to_string());
        row.push(total.to_string());
        row.push(if account.is_locked() { String::from_str("true") } else { String::from_str("false") });
        Some(row)
    }
}

/// The locked column says whether the account is locked: it reads `true`
/// exactly for a locked account and `false` exactly for an unlocked one.
pub proof fn law_locked_column_says_whether_locked(locked: bool)
    ensures
        (bool_text(locked) == "true"@) == locked,
        (bool_text(locked) == "false"@) == !locked,
{
    reveal_strlit("true");
    reveal_strlit("false");
    assert("true"@.len() != "false"@.len());
}

} // verus!
