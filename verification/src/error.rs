//! What the engine reports when it refuses an operation.

use vstd::prelude::*;
use vstd::string::*;

verus! {

/// Why the engine refused an operation.
#[derive(Debug, Clone, PartialEq, Eq)]
pub enum DbError {
    /// Nothing is stored under the key.
    KeyNotFound(String),
    /// The key holds a value that is no stream.
    KeyIsNotStream(String),
    /// The key holds a value that is no list.
    KeyIsNotList(String),
    /// The identifier `0-0` was asked for.
    StreamIdZero,
    /// The identifier does not exceed the last one of the stream.
    StreamIdNotGreater,
    /// The text is no stream identifier.
    InvalidIdFormat(String),
    /// The system clock reads a time before the Unix epoch.
    ClockBeforeEpoch,
}

/// The mathematical value of a [`DbError`].
pub enum DbErrorView {
    KeyNotFound(Seq<char>),
    KeyIsNotStream(Seq<char>),
    KeyIsNotList(Seq<char>),
    StreamIdZero,
    StreamIdNotGreater,
    InvalidIdFormat(Seq<char>),
    ClockBeforeEpoch,
}

impl DbErrorView {
    /// The text that a client is shown.
    pub open spec fn message(self) -> Seq<char> {
        match self {
            DbErrorView::KeyNotFound(key) => "Key '"@ + key + "' not found"@,
            DbErrorView::KeyIsNotStream(key) => "Key '"@ + key + "' exists but is not a stream"@,
            DbErrorView::KeyIsNotList(key) => "Key '"@ + key + "' exists but is not a list"@,
            DbErrorView::StreamIdZero => "ERR The ID specified in XADD must be greater than 0-0"@,
            DbErrorView::StreamIdNotGreater =>
                "ERR The ID specified in XADD is equal or smaller than the target stream top item"@,
            DbErrorView::InvalidIdFormat(id) => "Invalid stream ID format: "@ + id,
            DbErrorView::ClockBeforeEpoch => "ERR The system clock reads before the Unix epoch"@,
        }
    }
}

impl View for DbError {
    type V = DbErrorView;

    open spec fn view(&self) -> DbErrorView {
        match self {
            DbError::KeyNotFound(key) => DbErrorView::KeyNotFound(key@),
            DbError::KeyIsNotStream(key) => DbErrorView::KeyIsNotStream(key@),
            DbError::KeyIsNotList(key) => DbErrorView::KeyIsNotList(key@),
            DbError::StreamIdZero => DbErrorView::StreamIdZero,
            DbError::StreamIdNotGreater => DbErrorView::StreamIdNotGreater,
            DbError::InvalidIdFormat(id) => DbErrorView::InvalidIdFormat(id@),
            DbError::ClockBeforeEpoch => DbErrorView::ClockBeforeEpoch,
        }
    }
}

impl DbError {
    /// The text that a client is shown.
    pub fn message(&self) -> (text: String)
        ensures
            text@ == self@.message(),
    {
        let mut text = String::new();
        match self {
            DbError::KeyNotFound(key) => {
                text.append("Key '");
                text.append(key.as_str());
                text.append("' not found");
            },
            DbError::KeyIsNotStream(key) => {
                text.append("Key '");
                text.append(key.as_str());
                text.append("' exists but is not a stream");
            },
            DbError::KeyIsNotList(key) => {
                text.append("Key '");
                text.append(key.as_str());
                text.append("' exists but is not a list");
            },
            DbError::StreamIdZero => {
                text.append("ERR The ID specified in XADD must be greater than 0-0");
            },
            DbError::StreamIdNotGreater => {
                text.append(
                    "ERR The ID specified in XADD is equal or smaller than the target stream top item",
                );
            },
            DbError::InvalidIdFormat(id) => {
                text.append("Invalid stream ID format: ");
                text.append(id.as_str());
            },
            DbError::ClockBeforeEpoch => {
                text.append("ERR The system clock reads before the Unix epoch");
            },
        }
        text
    }
}

} // verus!
