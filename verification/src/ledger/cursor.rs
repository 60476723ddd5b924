//! Cursor: where in the input a record starts, for tracing and replay.

use vstd::prelude::*;

verus! {

/// The position of the start of a record in the input: its 1-based line
/// number and its byte offset.
#[derive(Debug, Clone, Copy)]
pub struct Cursor {
    line: u64,
    byte: u64,
}

impl View for Cursor {
    /// `(line, byte)`.
    type V = (u64, u64);

    closed spec fn view(&self) -> (u64, u64) {
        (self.line, self.byte)
    }
}

impl Cursor {
    /// The cursor at the given line and byte offset.
    pub fn new(line: u64, byte: u64) -> (r: Cursor)
        ensures
            r@ == (line, byte),
    {
        Cursor { line, byte }
    }

    /// 1-based line number.
    pub fn line(&self) -> (r: u64)
        ensures
            r == self@.0,
    {
        self.line
    }

    /// Byte offset of the start of the record.
    pub fn byte(&self) -> (r: u64)
        ensures
            r == self@.1,
    {
        self.byte
    }
}

} // verus!
