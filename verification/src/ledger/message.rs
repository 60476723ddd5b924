//! Messages flowing through the ledger pipeline.
//!
//! - `DataMessage`: a validated entry, delivered to a partition.
//! - `DlqMessage`: a rejected row, with where it was in the input and why it
//!   was rejected, delivered to the dead-letter queue.

use vstd::prelude::*;
use vstd::std_specs::convert::FromSpec;

use crate::ledger::account::ClientId;
use crate::ledger::cursor::Cursor;
use crate::ledger::entry::{entry_type_name, entry_type_text, entry_validate_error_text, Entry, EntryType, EntryValidateError};

verus! {

/// A validated entry on its way to a partition.
#[derive(Debug)]
pub struct DataMessage {
    entry: Entry,
}

impl View for DataMessage {
    type V = Entry;

    closed spec fn view(&self) -> Entry {
        self.entry
    }
}

impl DataMessage {
    pub fn new(entry: Entry) -> (r: DataMessage)
        ensures
            r@ == entry,
    {
        DataMessage { entry }
    }

    pub fn entry(&self) -> (r: &Entry)
        ensures
            *r == self@,
    {
        &self.entry
    }

    /// The client the entry belongs to.
    pub fn client_id(&self) -> (r: ClientId)
        ensures
            r == self@.client_id(),
    {
        self.entry.client_id()
    }
}

/// Why a row went to the dead-letter queue.
#[derive(Debug)]
pub enum DlqReason {
    CsvDeserialize(String),
    MissingAmount(EntryType),
    ZeroAmount,
    NegativeAmount,
    AmountNotAllowed(EntryType),
}

/// The text written for a reason in the dead-letter file.
pub open spec fn dlq_reason_text(reason: DlqReason) -> Seq<char> {
    match reason {
        DlqReason::CsvDeserialize(message) => "csv deserialize: "@ + message@,
        DlqReason::MissingAmount(kind) => "missing amount: "@ + entry_type_text(kind),
        DlqReason::ZeroAmount => "zero amount"@,
        DlqReason::NegativeAmount => "negative amount"@,
        DlqReason::AmountNotAllowed(kind) => "amount not allowed for "@ + entry_type_name(kind),
    }
}

impl DlqReason {
    /// The reason as written in the dead-letter file.
    pub fn to_string(&self) -> (r: String)
        ensures
            r@ == dlq_reason_text(*self),
    {
        match self {
            DlqReason::CsvDeserialize(message) => {
                let mut s = String::from_str("csv deserialize: ");
                s.append(message.as_str());
                s
            },
            DlqReason::MissingAmount(kind) => {
                let mut s = String::from_str("missing amount: ");
                s.append(kind.to_string().as_str());
                s
            },
            DlqReason::ZeroAmount => String::from_str("zero amount"),
            DlqReason::NegativeAmount => String::from_str("negative amount"),
            DlqReason::AmountNotAllowed(kind) => {
                let mut s = String::from_str("amount not allowed for ");
                s.append(kind.name().as_str());
                s
            },
        }
    }
}

impl vstd::std_specs::convert::FromSpecImpl<EntryValidateError> for DlqReason {
    open spec fn obeys_from_spec() -> bool {
        true
    }

    /// Each validation failure keeps its kind.
    open spec fn from_spec(e: EntryValidateError) -> DlqReason {
        match e {
            EntryValidateError::MissingAmount(kind) => DlqReason::MissingAmount(kind),
            EntryValidateError::ZeroAmount => DlqReason::ZeroAmount,
            EntryValidateError::NegativeAmount => DlqReason::NegativeAmount,
            EntryValidateError::AmountNotAllowed(kind) => DlqReason::AmountNotAllowed(kind),
        }
    }
}

impl From<EntryValidateError> for DlqReason {
    fn from(e: EntryValidateError) -> (r: DlqReason) {
        match e {
            EntryValidateError::MissingAmount(kind) => DlqReason::MissingAmount(kind),
            EntryValidateError::ZeroAmount => DlqReason::ZeroAmount,
            EntryValidateError::NegativeAmount => DlqReason::NegativeAmount,
            EntryValidateError::AmountNotAllowed(kind) => DlqReason::AmountNotAllowed(kind),
        }
    }
}

/// A rejected row: where it was in the input, its fields as read, and why it
/// was rejected.
#[derive(Debug)]
pub struct DlqMessage {
    cursor: Cursor,
    record: Vec<String>,
    reason: DlqReason,
}

impl DlqMessage {
    pub closed spec fn spec_cursor(self) -> Cursor {
        self.cursor
    }

    pub closed spec fn spec_record(self) -> Vec<String> {
        self.record
    }

    pub closed spec fn spec_reason(self) -> DlqReason {
        self.reason
    }

    pub fn new(cursor: Cursor, record: Vec<String>, reason: DlqReason) -> (r: DlqMessage)
        ensures
            r.spec_cursor() == cursor,
            r.spec_record() == record,
            r.spec_reason() == reason,
    {
        DlqMessage { cursor, record, reason }
    }

    pub fn cursor(&self) -> (r: &Cursor)
        ensures
            *r == self.spec_cursor(),
    {
        &self.cursor
    }

    pub fn record(&self) -> (r: &Vec<String>)
        ensures
            *r == self.spec_record(),
    {
        &self.record
    }

    pub fn reason(&self) -> (r: &DlqReason)
        ensures
            *r == self.spec_reason(),
    {
        &self.reason
    }
}

/// A rejected row keeps why validation failed: different failures give
/// different reasons, a missing or refused amount names the row's type, and a
/// negative or zero amount is written with the validation error's own
/// message.
pub proof fn law_rejection_reason_keeps_the_failure(e1: EntryValidateError, e2: EntryValidateError)
    ensures
        e1 != e2 ==> DlqReason::from_spec(e1) != DlqReason::from_spec(e2),
        e1 matches EntryValidateError::MissingAmount(k) ==> dlq_reason_text(DlqReason::from_spec(e1))
            == "missing amount: "@ + entry_type_text(k),
        e1 matches EntryValidateError::AmountNotAllowed(k) ==> dlq_reason_text(DlqReason::from_spec(e1))
            == "amount not allowed for "@ + entry_type_name(k),
        (e1 is NegativeAmount || e1 is ZeroAmount) ==> dlq_reason_text(DlqReason::from_spec(e1))
            == entry_validate_error_text(e1),
{
}

} // verus!
