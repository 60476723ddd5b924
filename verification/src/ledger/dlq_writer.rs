//! DlqWriter: the rows written for rejected input rows.
//!
//! The dead-letter file has the header `line,byte,reason,raw` and one row per
//! rejected input row: where it started, why it was rejected, and the row
//! itself written back as one line of CSV. Opening the file and writing to it
//! is the program's part; the rows are made here.

use vstd::prelude::*;

use csv::WriterBuilder;

use crate::ledger::message::{dlq_reason_text, DlqMessage};
use crate::text::{nat_text, push_range, u64_text};

verus! {

/// Errors of the dead-letter writer.
#[derive(Debug)]
pub enum DlqWriterError {
    Csv(String),
    Io(String),
}

/// A character that makes `csv::Writer` quote the field that holds it: the
/// delimiter, the quote, or a line break.
pub open spec fn csv_special(c: char) -> bool {
    c == ',' || c == '"' || c == '\n' || c == '\r'
}

/// The field with every quote doubled.
pub open spec fn csv_escaped(field: Seq<char>) -> Seq<char>
    decreases field.len(),
{
    if field.len() == 0 {
        Seq::empty()
    } else if field.last() == '"' {
        csv_escaped(field.drop_last()) + seq!['"', '"']
    } else {
        csv_escaped(field.drop_last()).push(field.last())
    }
}

/// How `csv::Writer` writes a field: in quotes, with its quotes doubled,
/// where it holds a special character; as it is otherwise.
pub open spec fn csv_field(field: Seq<char>) -> Seq<char> {
    if exists|i: int| 0 <= i < field.len() && csv_special(#[trigger] field[i]) {
        seq!['"'] + csv_escaped(field) + seq!['"']
    } else {
        field
    }
}

/// The fields, each written as a CSV field, separated by commas.
pub open spec fn csv_joined(fields: Seq<Seq<char>>) -> Seq<char>
    decreases fields.len(),
{
    if fields.len() == 0 {
        Seq::empty()
    } else if fields.len() == 1 {
        csv_field(fields[0])
    } else {
        csv_joined(fields.drop_last()) + seq![','] + csv_field(fields.last())
    }
}

/// A record as one line of CSV without its terminator: the joined fields, or
/// `""` where they come to nothing (no field, or a single empty one), so that
/// the line is not read back as an empty line.
pub open spec fn csv_line(fields: Seq<Seq<char>>) -> Seq<char> {
    let joined = csv_joined(fields);
    if joined.len() == 0 {
        seq!['"', '"']
    } else {
        joined
    }
}

/// What `csv::Writer` writes for one record with its default settings: the
/// line, then a line feed.
pub open spec fn csv_record_text(fields: Seq<Seq<char>>) -> Seq<char> {
    csv_line(fields).push('\n')
}

/// The texts of a list of strings.
pub open spec fn texts(fields: Seq<String>) -> Seq<Seq<char>> {
    fields.map_values(|f: String| f@)
}

/// Writes one record with `csv::Writer` (no header row, default settings)
/// into memory and reads the bytes back as text. Claimed of it: the text is
/// `csv_record_text` of the fields. The writer quotes a field when one of its
/// bytes is a comma, a quote, a line feed or a carriage return, doubles the
/// quotes inside, separates fields with commas, writes `""` for a record that
/// would otherwise be empty, and ends the record with a line feed. These
/// special bytes are ASCII and never occur inside the encoding of another
/// character, so reading the bytes back as text gives the same characters.
/// Writing one record into a `Vec` cannot fail: the vector takes every byte,
/// and with a single record there is no earlier one whose field count could
/// differ.
#[verifier::external_body]
fn write_csv_record(fields: &Vec<String>) -> (r: String)
    ensures
        r@ == csv_record_text(texts(fields@)),
{
    let mut writer = WriterBuilder::new().has_headers(false).from_writer(Vec::new());
    writer.write_record(fields).expect("a single record is written into memory");
    let buf = writer.into_inner().expect("memory takes every byte");
    String::from_utf8_lossy(&buf).into_owned()
}

/// `text` without the line feeds at its end.
pub open spec fn trim_trailing_newlines(text: Seq<char>) -> Seq<char>
    decreases text.len(),
{
    if text.len() > 0 && text.last() == '\n' {
        trim_trailing_newlines(text.drop_last())
    } else {
        text
    }
}

proof fn lemma_trim_trailing_newlines(text: Seq<char>, end: int)
    requires
        0 <= end <= text.len(),
        forall|i: int| end <= i < text.len() ==> text[i] == '\n',
        end == 0 || text[end - 1] != '\n',
    ensures
        trim_trailing_newlines(text) == text.subrange(0, end),
    decreases text.len(),
{
    if text.len() > end {
        assert(text.drop_last().subrange(0, end) =~= text.subrange(0, end));
        lemma_trim_trailing_newlines(text.drop_last(), end);
    } else {
        assert(text.subrange(0, end) =~= text);
    }
}

/// `text` without the line feeds at its end.
pub fn strip_line_feeds(text: &str) -> (r: String)
    ensures
        r@ == trim_trailing_newlines(text@),
{
    let mut end = text.unicode_len();
    while end > 0 && text.get_char(end - 1) == '\n'
        invariant
            end <= text@.len(),
            forall|i: int| end <= i < text@.len() ==> text@[i] == '\n',
        decreases end,
    {
        end = end - 1;
    }
    let mut line = String::new();
    push_range(&mut line, text, 0, end);
    proof {
        lemma_trim_trailing_newlines(text@, end as int);
        assert(line@ =~= text@.subrange(0, end as int));
    }
    line
}

/// A record written back as a single line of CSV: fields quoted and escaped
/// as `csv::Writer` does, without the line terminator. Always `Ok`: the
/// record is written into memory.
pub fn record_as_csv(record: &Vec<String>) -> (r: Result<String, DlqWriterError>)
    ensures
        r is Ok,
        r.unwrap()@ == csv_line(texts(record@)),
{
    let written = write_csv_record(record);
    proof {
        lemma_csv_line_ends_without_line_feed(texts(record@));
    }
    Ok(strip_line_feeds(written.as_str()))
}

/// A CSV field does not end with a line feed: a field that holds one is
/// quoted.
proof fn lemma_csv_field_ends_without_line_feed(field: Seq<char>)
    ensures
        csv_field(field).len() > 0 ==> csv_field(field).last() != '\n',
{
    if !(exists|i: int| 0 <= i < field.len() && csv_special(#[trigger] field[i])) {
        if field.len() > 0 {
            assert(!csv_special(field[field.len() - 1]));
        }
    }
}

/// A CSV line does not end with a line feed.
proof fn lemma_csv_line_ends_without_line_feed(fields: Seq<Seq<char>>)
    ensures
        csv_line(fields).len() > 0,
        csv_line(fields).last() != '\n',
        trim_trailing_newlines(csv_record_text(fields)) == csv_line(fields),
{
    let line = csv_line(fields);
    if fields.len() > 0 {
        lemma_csv_field_ends_without_line_feed(fields.last());
        if fields.len() == 1 {
            assert(fields.last() == fields[0]);
        }
    }
    assert(line.push('\n').drop_last() =~= line);
    assert(trim_trailing_newlines(line.push('\n')) == trim_trailing_newlines(line));
    assert(trim_trailing_newlines(line) == line);
}

/// The header row of the dead-letter file: `line,byte,reason,raw`.
pub fn dlq_header() -> (r: Vec<String>)
    ensures
        r@.len() == 4,
        r@[0]@ == "line"@,
        r@[1]@ == "byte"@,
        r@[2]@ == "reason"@,
        r@[3]@ == "raw"@,
{
    let mut r = Vec::new();
    r.push(String::from_str("line"));
    r.push(String::from_str("byte"));
    r.push(String::from_str("reason"));
    r.push(String::from_str("raw"));
    r
}

/// The row of one rejected input row: line, byte offset, reason, and the row
/// written back as CSV.
pub fn dlq_row(message: &DlqMessage) -> (r: Result<Vec<String>, DlqWriterError>)
    ensures
        r is Ok,
        r.unwrap()@.len() == 4,
        r.unwrap()@[0]@ == nat_text(message.spec_cursor()@.0 as nat),
        r.unwrap()@[1]@ == nat_text(message.spec_cursor()@.1 as nat),
        r.unwrap()@[2]@ == dlq_reason_text(message.spec_reason()),
        r.unwrap()@[3]@ == csv_line(texts(message.spec_record()@)),
{
    let raw = record_as_csv(message.record()).unwrap();
    let mut row = Vec::new();
    row.push(u64_text(message.cursor().line()));
    row.push(u64_text(message.cursor().byte()));
    row.push(message.reason().to_string());
    row.push(raw);
    Ok(row)
}

} // verus!
