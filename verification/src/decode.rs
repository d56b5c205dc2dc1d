//! Reading requests from the bytes of a connection.

use vstd::prelude::*;
use vstd::slice::{slice_subrange, slice_to_vec};
use vstd::string::*;
use vstd::utf8::{decode_utf8, valid_utf8};
use crate::resp::{lemma_array_view, views, RespValue, RespView};
use crate::text::{parse_signed, read_signed};

verus! {

/// The byte `\r`.
pub const CR: u8 = 13;

/// The byte `\n`.
pub const LF: u8 = 10;

/// The byte `+`, which opens a simple string.
pub const SIMPLE: u8 = 43;

/// The byte `$`, which opens a bulk string.
pub const BULK: u8 = 36;

/// The byte `*`, which opens an array.
pub const ARRAY: u8 = 42;

/// Why bytes are no request.
#[derive(Clone, Copy, Debug, PartialEq, Eq, Structural)]
pub enum ProtocolError {
    /// There is no byte where a value should start.
    Empty,
    /// The first byte of a value is none of `+`, `$` and `*`.
    UnknownType,
    /// A line has no `\r\n` at its end.
    MissingLineEnd,
    /// The length of a bulk string or an array is no number, or is negative
    /// for a bulk string.
    BadLength,
    /// A bulk string is shorter than its length says.
    Truncated,
    /// A text is not valid UTF-8.
    NotUtf8,
}

/// Whether `\r\n` stands at position `at`.
pub open spec fn crlf_at(bytes: Seq<u8>, at: int) -> bool {
    0 <= at && at + 1 < bytes.len() && bytes[at] == CR && bytes[at + 1] == LF
}

/// Position of the first `\r\n` at or after `from`, or the length of `bytes`
/// where there is none.
pub open spec fn line_end(bytes: Seq<u8>, from: int) -> int
    decreases bytes.len() - from,
{
    if from < 0 || from + 1 >= bytes.len() {
        bytes.len() as int
    } else if crlf_at(bytes, from) {
        from
    } else {
        line_end(bytes, from + 1)
    }
}

/// The line that starts at `from`, without its `\r\n`, and the position
/// behind it.
pub open spec fn line(bytes: Seq<u8>, from: int) -> Option<(Seq<u8>, int)> {
    let end = line_end(bytes, from);
    if 0 <= from && end < bytes.len() {
        Some((bytes.subrange(from, end), end + 2))
    } else {
        None
    }
}

/// The number that a length line holds.
pub open spec fn length_of(line: Seq<u8>) -> Option<int> {
    if valid_utf8(line) {
        parse_signed(decode_utf8(line), i64::MIN as int, i64::MAX as int)
    } else {
        None
    }
}

/// The simple string whose text starts at position `from`, behind its `+`,
/// and the position behind it.
pub open spec fn simple_at(bytes: Seq<u8>, from: int) -> Result<(RespView, int), ProtocolError> {
    match line(bytes, from) {
        None => Err(ProtocolError::MissingLineEnd),
        Some((text, next)) => if valid_utf8(text) {
            Ok((RespView::SimpleString(decode_utf8(text)), next))
        } else {
            Err(ProtocolError::NotUtf8)
        },
    }
}

/// The bulk string whose length line starts at position `from`, behind its
/// `$`, and the position behind it: the length in bytes, the text, and
/// `\r\n`.
pub open spec fn bulk_at(bytes: Seq<u8>, from: int) -> Result<(RespView, int), ProtocolError> {
    match line(bytes, from) {
        None => Err(ProtocolError::MissingLineEnd),
        Some((length, next)) => match length_of(length) {
            None => Err(ProtocolError::BadLength),
            Some(n) => if n < 0 {
                Err(ProtocolError::BadLength)
            } else if next + n + 2 > bytes.len() {
                Err(ProtocolError::Truncated)
            } else if !crlf_at(bytes, next + n) {
                Err(ProtocolError::MissingLineEnd)
            } else if !valid_utf8(bytes.subrange(next, next + n)) {
                Err(ProtocolError::NotUtf8)
            } else {
                Ok((RespView::BulkString(decode_utf8(bytes.subrange(next, next + n))), next + n + 2))
            },
        },
    }
}

/// The array whose length line starts at position `from`, behind its `*`,
/// and the position behind it: the number of items, then the items. A
/// negative number stands for no items.
pub open spec fn array_at(bytes: Seq<u8>, from: int) -> Result<(RespView, int), ProtocolError>
    decreases bytes.len() - from, 2nat, 0nat,
{
    match line(bytes, from) {
        None => Err(ProtocolError::MissingLineEnd),
        Some((length, next)) => match length_of(length) {
            None => Err(ProtocolError::BadLength),
            Some(n) => if next <= from || next > bytes.len() {
                Err(ProtocolError::MissingLineEnd)
            } else {
                match decoded_items(
                    bytes,
                    next,
                    if n < 0 {
                        0
                    } else {
                        n as nat
                    },
                ) {
                    Err(e) => Err(e),
                    Ok((items, after)) => Ok((RespView::Array(items), after)),
                }
            },
        },
    }
}

/// The value that starts at position `from`, and the position behind it.
pub open spec fn decoded(bytes: Seq<u8>, from: int) -> Result<(RespView, int), ProtocolError>
    decreases bytes.len() - from, 0nat, 0nat,
{
    if from < 0 || from >= bytes.len() {
        Err(ProtocolError::Empty)
    } else if bytes[from] == SIMPLE {
        simple_at(bytes, from + 1)
    } else if bytes[from] == BULK {
        bulk_at(bytes, from + 1)
    } else if bytes[from] == ARRAY {
        array_at(bytes, from + 1)
    } else {
        Err(ProtocolError::UnknownType)
    }
}

/// The `count` values that follow one another from position `from` on, and
/// the position behind them.
pub open spec fn decoded_items(bytes: Seq<u8>, from: int, count: nat) -> Result<
    (Seq<RespView>, int),
    ProtocolError,
>
    decreases bytes.len() - from, 1nat, count,
{
    if count == 0 {
        Ok((Seq::empty(), from))
    } else {
        match decoded_items(bytes, from, (count - 1) as nat) {
            Err(e) => Err(e),
            Ok((items, at)) => if at < from || at > bytes.len() {
                Err(ProtocolError::Empty)
            } else {
                match decoded(bytes, at) {
                    Err(e) => Err(e),
                    Ok((item, next)) => Ok((items.push(item), next)),
                }
            },
        }
    }
}

/// Once a value fails, so does every longer run of values.
pub proof fn lemma_items_error(bytes: Seq<u8>, from: int, failed: nat, count: nat)
    requires
        failed <= count,
        decoded_items(bytes, from, failed) is Err,
    ensures
        decoded_items(bytes, from, count) == decoded_items(bytes, from, failed),
    decreases count,
{
    if failed < count {
        lemma_items_error(bytes, from, failed, (count - 1) as nat);
    }
}

/// `String::from_utf8`: the text that the bytes encode, or `None` where the
/// bytes are not valid UTF-8.
#[verifier::external_body]
fn text_from_utf8(bytes: Vec<u8>) -> (text: Option<String>)
    ensures
        text is Some <==> valid_utf8(bytes@),
        text is Some ==> text->0@ == decode_utf8(bytes@),
{
    match String::from_utf8(bytes) {
        Ok(text) => Some(text),
        Err(_) => None,
    }
}

/// What reading a value gave, as mathematical values.
pub open spec fn read_outcome(r: Result<(RespValue, usize), ProtocolError>) -> Result<
    (RespView, int),
    ProtocolError,
> {
    match r {
        Ok((value, next)) => Ok((value@, next as int)),
        Err(e) => Err(e),
    }
}

/// Position of the first `\r\n` at or after `from`.
pub fn read_until_crlf(buffer: &[u8], from: usize) -> (end: Option<usize>)
    requires
        from <= buffer.len(),
    ensures
        match end {
            Some(at) => line_end(buffer@, from as int) == at && from <= at && at + 1
                < buffer.len(),
            None => line_end(buffer@, from as int) == buffer.len(),
        },
{
    let mut i: usize = from;
    while buffer.len() - i > 1
        invariant
            from <= i <= buffer.len(),
            line_end(buffer@, from as int) == line_end(buffer@, i as int),
        decreases buffer.len() - i,
    {
        if buffer[i] == CR && buffer[i + 1] == LF {
            return Some(i);
        }
        i = i + 1;
    }
    None
}

/// The number that a length line holds.
pub fn parse_int(line: &[u8]) -> (n: Option<i64>)
    ensures
        n == match length_of(line@) {
            Some(v) => Some(v as i64),
            None => None,
        },
{
    match text_from_utf8(slice_to_vec(line)) {
        Some(text) => match read_signed(text.as_str(), i64::MIN as i128, i64::MAX as i128) {
            Some(v) => Some(v as i64),
            None => None,
        },
        None => None,
    }
}

/// The length line that starts at `from`: its number and the position behind
/// the line.
fn parse_length(buffer: &[u8], from: usize) -> (r: Result<(i64, usize), ProtocolError>)
    requires
        from <= buffer.len(),
    ensures
        match r {
            Ok((n, next)) => line(buffer@, from as int) matches Some((length, after)) && length_of(
                length,
            ) == Some(n as int) && next == after && from + 2 <= next <= buffer.len(),
            Err(e) => match line(buffer@, from as int) {
                None => e == ProtocolError::MissingLineEnd,
                Some((length, after)) => length_of(length) is None && e
                    == ProtocolError::BadLength,
            },
        },
{
    let end = match read_until_crlf(buffer, from) {
        Some(end) => end,
        None => {
            return Err(ProtocolError::MissingLineEnd);
        },
    };
    match parse_int(slice_subrange(buffer, from, end)) {
        Some(n) => Ok((n, end + 2)),
        None => Err(ProtocolError::BadLength),
    }
}

/// The simple string whose text starts at `from`, behind its `+`.
pub fn parse_simple_string(buffer: &[u8], from: usize) -> (r: Result<
    (RespValue, usize),
    ProtocolError,
>)
    requires
        from <= buffer.len(),
    ensures
        read_outcome(r) == simple_at(buffer@, from as int),
        r matches Ok((value, next)) ==> from < next <= buffer.len(),
{
    let end = match read_until_crlf(buffer, from) {
        Some(end) => end,
        None => {
            return Err(ProtocolError::MissingLineEnd);
        },
    };
    match text_from_utf8(slice_to_vec(slice_subrange(buffer, from, end))) {
        Some(text) => Ok((RespValue::SimpleString(text), end + 2)),
        None => Err(ProtocolError::NotUtf8),
    }
}

/// The bulk string whose length line starts at `from`, behind its `$`.
pub fn parse_bulk_string(buffer: &[u8], from: usize) -> (r: Result<
    (RespValue, usize),
    ProtocolError,
>)
    requires
        from <= buffer.len(),
    ensures
        read_outcome(r) == bulk_at(buffer@, from as int),
        r matches Ok((value, next)) ==> from < next <= buffer.len(),
{
    let (n, next) = match parse_length(buffer, from) {
        Ok(found) => found,
        Err(e) => {
            return Err(e);
        },
    };
    if n < 0 {
        return Err(ProtocolError::BadLength);
    }
    let room = buffer.len() - next;
    if room < 2 || n as u64 > (room - 2) as u64 {
        return Err(ProtocolError::Truncated);
    }
    let end = next + n as usize;
    if buffer[end] != CR || buffer[end + 1] != LF {
        return Err(ProtocolError::MissingLineEnd);
    }
    match text_from_utf8(slice_to_vec(slice_subrange(buffer, next, end))) {
        Some(text) => Ok((RespValue::BulkString(text), end + 2)),
        None => Err(ProtocolError::NotUtf8),
    }
}

/// The array whose length line starts at `from`, behind its `*`: a negative
/// length gives an empty array.
pub fn parse_array(buffer: &[u8], from: usize) -> (r: Result<(RespValue, usize), ProtocolError>)
    requires
        from <= buffer.len(),
    ensures
        read_outcome(r) == array_at(buffer@, from as int),
        r matches Ok((value, next)) ==> from < next <= buffer.len(),
    decreases buffer.len() - from, 2nat,
{
    let (n, next) = match parse_length(buffer, from) {
        Ok(found) => found,
        Err(e) => {
            return Err(e);
        },
    };
    let count: u64 = if n < 0 {
        0
    } else {
        n as u64
    };
    let mut items: Vec<RespValue> = Vec::new();
    let mut at: usize = next;
    let mut k: u64 = 0;
    assert(views(items@) =~= Seq::<RespView>::empty());
    while k < count
        invariant
            k <= count,
            from < next <= at <= buffer.len(),
            line(buffer@, from as int) matches Some((length, after)) && length_of(length) == Some(
                n as int,
            ) && next == after,
            count == (if n < 0 {
                0
            } else {
                n as int
            }),
            decoded_items(buffer@, next as int, k as nat) == Ok::<
                (Seq<RespView>, int),
                ProtocolError,
            >((views(items@), at as int)),
        decreases count - k,
    {
        let ghost before = views(items@);
        match parse_message_at(buffer, at) {
            Ok((item, after)) => {
                items.push(item);
                at = after;
                assert(views(items@) =~= before.push(item@));
            },
            Err(e) => {
                proof {
                    lemma_items_error(buffer@, next as int, (k + 1) as nat, count as nat);
                }
                return Err(e);
            },
        }
        k = k + 1;
    }
    proof {
        lemma_array_view(items);
    }
    Ok((RespValue::Array(items), at))
}

/// The value that starts at position `from`, and the position behind it.
pub fn parse_message_at(buffer: &[u8], from: usize) -> (r: Result<
    (RespValue, usize),
    ProtocolError,
>)
    ensures
        read_outcome(r) == decoded(buffer@, from as int),
        r matches Ok((value, next)) ==> from < next <= buffer.len(),
    decreases buffer.len() - from, 0nat,
{
    if from >= buffer.len() {
        return Err(ProtocolError::Empty);
    }
    let kind = buffer[from];
    if kind == SIMPLE {
        parse_simple_string(buffer, from + 1)
    } else if kind == BULK {
        parse_bulk_string(buffer, from + 1)
    } else if kind == ARRAY {
        parse_array(buffer, from + 1)
    } else {
        Err(ProtocolError::UnknownType)
    }
}

/// The value that `buffer` starts with, and the number of bytes that it
/// takes.
pub fn parse_message(buffer: &[u8]) -> (r: Result<(RespValue, usize), ProtocolError>)
    ensures
        read_outcome(r) == decoded(buffer@, 0),
        r matches Ok((value, next)) ==> 0 < next <= buffer.len(),
{
    parse_message_at(buffer, 0)
}

} // verus!
