//! Provider: turns each row read from the input into either a `DataMessage`
//! (valid, for the broker) or a `DlqMessage` (rejected, with its reason).
//!
//! Reading the input and sending the messages is done by the program around
//! this library; the decision for one row is made here.

use vstd::prelude::*;
use vstd::std_specs::convert::FromSpec;

use crate::ledger::cursor::Cursor;
use crate::ledger::entry::{validate, Entry, WireEntry};
use crate::ledger::message::{DataMessage, DlqMessage, DlqReason};

verus! {

/// Where a row goes.
#[derive(Debug)]
pub enum Routed {
    /// A valid entry, for the broker.
    Data(DataMessage),
    /// A rejected row, for the dead-letter queue.
    Dlq(DlqMessage),
}

/// Validates one row and says where it goes.
///
/// `record` holds the row's fields as read, `cursor` where the row starts;
/// `deserialized` is the row read into a `WireEntry`, or the text of the error
/// that reading it gave. A row that reads and validates becomes a data
/// message; any other row becomes a dead-letter message with its cursor, its
/// fields and the reason.
pub fn process_record(cursor: Cursor, record: Vec<String>, deserialized: Result<WireEntry, String>) -> (r: Routed)
    ensures
        match deserialized {
            Ok(wire) => match validate(wire) {
                Ok(entry) => r matches Routed::Data(m) && m@ == entry,
                Err(e) => r matches Routed::Dlq(m) && m.spec_cursor() == cursor && m.spec_record() == record
                    && m.spec_reason() == DlqReason::from_spec(e),
            },
            Err(message) => r matches Routed::Dlq(m) && m.spec_cursor() == cursor && m.spec_record() == record
                && m.spec_reason() == DlqReason::CsvDeserialize(message),
        },
        r matches Routed::Data(m) ==> m@.well_formed(),
{
    match deserialized {
        Ok(wire_entry) => match Entry::try_from(wire_entry) {
            Ok(entry) => Routed::Data(DataMessage::new(entry)),
            Err(err) => Routed::Dlq(DlqMessage::new(cursor, record, DlqReason::from(err))),
        },
        Err(message) => Routed::Dlq(DlqMessage::new(cursor, record, DlqReason::CsvDeserialize(message))),
    }
}

} // verus!
