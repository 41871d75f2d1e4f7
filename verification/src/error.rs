//! The errors of loading and building an index.

use vstd::prelude::*;

verus! {

/// What is wrong with the shape of a CSV text.
#[derive(Debug, Clone, Copy, PartialEq, Eq, Structural)]
pub enum FormatIssue {
    /// The text holds no header line.
    MissingHeader,
    /// The first line is not `uuid,visibility_level`.
    WrongHeader,
    /// A line does not hold exactly two fields.
    FieldCount,
    /// The second field of a line is not an unsigned number that fits in
    /// sixteen bits.
    LevelNotANumber,
}

/// Why an index could not be loaded or built.
#[derive(Debug, Clone, PartialEq, Eq)]
pub enum StoreError {
    /// The source could not be read; the text says why.
    Io(String),
    /// The CSV reader gave up on the text; the text is its message.
    CsvError(String),
    /// The first field of line `line` is not a UUID in hyphenated form.
    UuidParse { line: u64 },
    /// The entry for `uuid` names a visibility level above 255.
    InvalidVisibility { uuid: u128, level: u16 },
    /// `uuid` stands in more than one entry.
    DuplicateUuid(u128),
    /// Line `line` of the text, the header being line 1, is malformed.
    InvalidFormat { line: u64, issue: FormatIssue },
}

/// A [`StoreError`] as plain values: its messages are sequences of
/// characters.
pub ghost enum StoreFault {
    Io(Seq<char>),
    CsvError(Seq<char>),
    UuidParse { line: u64 },
    InvalidVisibility { uuid: u128, level: u16 },
    DuplicateUuid(u128),
    InvalidFormat { line: u64, issue: FormatIssue },
}

impl View for StoreError {
    type V = StoreFault;

    open spec fn view(&self) -> StoreFault {
        match self {
            StoreError::Io(message) => StoreFault::Io(message@),
            StoreError::CsvError(message) => StoreFault::CsvError(message@),
            StoreError::UuidParse { line } => StoreFault::UuidParse { line: *line },
            StoreError::InvalidVisibility { uuid, level } => StoreFault::InvalidVisibility {
                uuid: *uuid,
                level: *level,
            },
            StoreError::DuplicateUuid(uuid) => StoreFault::DuplicateUuid(*uuid),
            StoreError::InvalidFormat { line, issue } => StoreFault::InvalidFormat {
                line: *line,
                issue: *issue,
            },
        }
    }
}

} // verus!
