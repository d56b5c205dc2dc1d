//! The commands of the engine, as a connection hands them over once parsed.

use vstd::prelude::*;
use vstd::string::*;
use crate::db::texts;
use crate::stream_types::{pairs_view, Fields};
use crate::text::Wait;

verus! {

/// How long an `XREAD` is ready to wait.
#[derive(Clone, Copy, Debug, PartialEq, Eq, Structural)]
pub enum XreadDuration {
    /// Not at all: the command answers at once.
    Immediate,
    /// Until there is data.
    Inifnity,
    /// This many milliseconds.
    Normal(u64),
}

/// Where an `XREAD` starts in one stream.
#[derive(Debug, PartialEq, Eq)]
pub enum XreadStartId {
    /// `$`: after the last record that the stream has now.
    Last,
    /// After the identifier written here.
    Normal(String),
}

/// The mathematical value of an [`XreadStartId`].
pub enum StartView {
    Last,
    Normal(Seq<char>),
}

impl StartView {
    /// The identifier to start after, as text, where `last_id` is the last
    /// identifier of the stream.
    pub open spec fn text(self, last_id: Seq<char>) -> Seq<char> {
        match self {
            StartView::Last => last_id,
            StartView::Normal(id) => id,
        }
    }
}

impl View for XreadStartId {
    type V = StartView;

    open spec fn view(&self) -> StartView {
        match self {
            XreadStartId::Last => StartView::Last,
            XreadStartId::Normal(id) => StartView::Normal(id@),
        }
    }
}

impl Clone for XreadStartId {
    fn clone(&self) -> (copy: Self)
        ensures
            copy@ == self@,
    {
        match self {
            XreadStartId::Last => XreadStartId::Last,
            XreadStartId::Normal(id) => XreadStartId::Normal(id.clone()),
        }
    }
}

impl XreadStartId {
    /// The identifier to start after, as text, where `last_id` is the last
    /// identifier of the stream.
    pub fn to_str(&self, last_id: &str) -> (id: String)
        ensures
            id@ == self@.text(last_id@),
    {
        match self {
            XreadStartId::Last => last_id.to_owned(),
            XreadStartId::Normal(id) => id.clone(),
        }
    }
}

/// A command with its arguments.
#[derive(Debug, PartialEq, Eq)]
pub enum Command {
    Ping,
    Echo { message: String },
    /// `SET`.
    SetValue { key: String, value: String, expiry_millis: Option<u64> },
    Rpush { key: String, values: Vec<String> },
    Lpush { key: String, values: Vec<String> },
    /// `count` is `None` where the client gave none: it then asks for one
    /// element, answered as a single value.
    Lpop { key: String, count: Option<usize> },
    Blpop { key: String, timeout: Wait },
    Llen { key: String },
    Get { key: String },
    Lrange { key: String, start: isize, stop: isize },
    Type { key: String },
    Xadd { key: String, id: String, field_value_pairs: Vec<(String, String)> },
    Xrange { key: String, start: Option<String>, end: Option<String> },
    Xread { streams: Vec<(String, XreadStartId)>, duration: XreadDuration },
}

/// The mathematical value of a [`Command`].
pub enum CommandView {
    Ping,
    Echo { message: Seq<char> },
    SetValue { key: Seq<char>, value: Seq<char>, expiry_millis: Option<u64> },
    Rpush { key: Seq<char>, values: Seq<Seq<char>> },
    Lpush { key: Seq<char>, values: Seq<Seq<char>> },
    Lpop { key: Seq<char>, count: Option<usize> },
    Blpop { key: Seq<char>, timeout: Wait },
    Llen { key: Seq<char> },
    Get { key: Seq<char> },
    Lrange { key: Seq<char>, start: isize, stop: isize },
    Type { key: Seq<char> },
    Xadd { key: Seq<char>, id: Seq<char>, field_value_pairs: Fields },
    Xrange { key: Seq<char>, start: Option<Seq<char>>, end: Option<Seq<char>> },
    Xread { streams: Seq<(Seq<char>, StartView)>, duration: XreadDuration },
}

/// The text behind an optional string.
pub open spec fn optional_text(text: Option<String>) -> Option<Seq<char>> {
    match text {
        Some(t) => Some(t@),
        None => None,
    }
}

/// The keys and starting points of an `XREAD`, as mathematical values.
pub open spec fn streams_view(streams: Seq<(String, XreadStartId)>) -> Seq<(Seq<char>, StartView)> {
    Seq::new(streams.len(), |i: int| (streams[i].0@, streams[i].1@))
}

impl View for Command {
    type V = CommandView;

    open spec fn view(&self) -> CommandView {
        match self {
            Command::Ping => CommandView::Ping,
            Command::Echo { message } => CommandView::Echo { message: message@ },
            Command::SetValue { key, value, expiry_millis } => CommandView::SetValue {
                key: key@,
                value: value@,
                expiry_millis: *expiry_millis,
            },
            Command::Rpush { key, values } => CommandView::Rpush {
                key: key@,
                values: texts(values@),
            },
            Command::Lpush { key, values } => CommandView::Lpush {
                key: key@,
                values: texts(values@),
            },
            Command::Lpop { key, count } => CommandView::Lpop { key: key@, count: *count },
            Command::Blpop { key, timeout } => CommandView::Blpop { key: key@, timeout: *timeout },
            Command::Llen { key } => CommandView::Llen { key: key@ },
            Command::Get { key } => CommandView::Get { key: key@ },
            Command::Lrange { key, start, stop } => CommandView::Lrange {
                key: key@,
                start: *start,
                stop: *stop,
            },
            Command::Type { key } => CommandView::Type { key: key@ },
            Command::Xadd { key, id, field_value_pairs } => CommandView::Xadd {
                key: key@,
                id: id@,
                field_value_pairs: pairs_view(field_value_pairs@),
            },
            Command::Xrange { key, start, end } => CommandView::Xrange {
                key: key@,
                start: optional_text(*start),
                end: optional_text(*end),
            },
            Command::Xread { streams, duration } => CommandView::Xread {
                streams: streams_view(streams@),
                duration: *duration,
            },
        }
    }
}

/// Why a request is no command.
#[derive(Debug, PartialEq, Eq)]
pub enum CommandError {
    /// The arguments are too few, too many or of the wrong kind; the text
    /// says which.
    Argument(String),
    /// No command has this name.
    UnknownCommand(String),
}

/// The mathematical value of a [`CommandError`].
pub enum CommandErrorView {
    Argument(Seq<char>),
    UnknownCommand(Seq<char>),
}

impl CommandErrorView {
    /// The text that a client is shown.
    pub open spec fn message(self) -> Seq<char> {
        match self {
            CommandErrorView::Argument(text) => text,
            CommandErrorView::UnknownCommand(name) => "Unknown command: "@ + name,
        }
    }
}

impl View for CommandError {
    type V = CommandErrorView;

    open spec fn view(&self) -> CommandErrorView {
        match self {
            CommandError::Argument(text) => CommandErrorView::Argument(text@),
            CommandError::UnknownCommand(name) => CommandErrorView::UnknownCommand(name@),
        }
    }
}

impl CommandError {
    /// The text that a client is shown.
    pub fn message(&self) -> (text: String)
        ensures
            text@ == self@.message(),
    {
        match self {
            CommandError::Argument(text) => text.clone(),
            CommandError::UnknownCommand(name) => {
                let mut text = String::new();
                text.append("Unknown command: ");
                text.append(name.as_str());
                text
            },
        }
    }
}

} // verus!
