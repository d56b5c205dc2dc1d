//! Streams: identifiers, records, and the append-only log of one key.

use vstd::prelude::*;
use vstd::string::*;
use std::time::{SystemTime, UNIX_EPOCH};
use crate::error::{DbError, DbErrorView};
use crate::text::{
    ascii_at, ascii_len, decimal, find_ascii, first_index, lemma_first_index,
    lemma_not_ascii_not_number, parse_unsigned, push_decimal, read_unsigned_in, MINUS,
};

verus! {

/// The byte of `*`, which asks for a part of an identifier to be chosen.
pub const STAR: u8 = 42;

/// Identifier of a stream record: a millisecond timestamp and a sequence number.
#[derive(Clone, Copy, Debug, PartialEq, Eq, Structural)]
pub struct StreamId {
    pub ms: u128,
    pub seq: u64,
}

impl StreamId {
    /// Strict order: by timestamp, then by sequence number.
    pub open spec fn lt(self, other: StreamId) -> bool {
        self.ms < other.ms || (self.ms == other.ms && self.seq < other.seq)
    }

    /// `self` is `other` or comes before it.
    pub open spec fn le(self, other: StreamId) -> bool {
        self == other || self.lt(other)
    }

    /// The identifier `0-0`, which no record may have.
    pub open spec fn is_zero(self) -> bool {
        self.ms == 0 && self.seq == 0
    }

    /// The written form `<ms>-<seq>`.
    pub open spec fn text(self) -> Seq<char> {
        decimal(self.ms as nat) + seq!['-'] + decimal(self.seq as nat)
    }

    /// The smallest identifier.
    pub fn min() -> (id: StreamId)
        ensures
            id == (StreamId { ms: 0, seq: 0 }),
    {
        StreamId { ms: 0, seq: 0 }
    }

    /// The largest identifier.
    pub fn max() -> (id: StreamId)
        ensures
            id == (StreamId { ms: u128::MAX, seq: u64::MAX }),
    {
        StreamId { ms: u128::MAX, seq: u64::MAX }
    }

    /// Whether `self` comes strictly before `other`.
    pub fn is_before(&self, other: &StreamId) -> (r: bool)
        ensures
            r == self.lt(*other),
    {
        self.ms < other.ms || (self.ms == other.ms && self.seq < other.seq)
    }

    /// The written form `<ms>-<seq>`.
    pub fn to_text(&self) -> (s: String)
        ensures
            s@ == self.text(),
    {
        let mut s = String::new();
        push_decimal(&mut s, self.ms);
        s.push('-');
        push_decimal(&mut s, self.seq as u128);
        s
    }

    /// Reads the written form `<ms>-<seq>`.
    pub fn parse(s: &str) -> (r: Option<StreamId>)
        ensures
            r == parse_id(s@),
    {
        match IdRequest::parse(s) {
            Some(IdRequest { ms: Some(ms), seq: Some(seq) }) => Some(StreamId { ms, seq }),
            _ => None,
        }
    }
}

/// An identifier as a client asks for it: `*`, `<ms>-*` or `<ms>-<seq>`. A
/// half is `None` where the client wrote `*` and leaves the choice to the
/// engine.
#[derive(Clone, Copy, Debug, PartialEq, Eq, Structural)]
pub struct IdRequest {
    pub ms: Option<u128>,
    pub seq: Option<u64>,
}

/// Reading of one half of a requested identifier: `*` reads as no number, a
/// number up to `max` as that number, and nothing else is a half.
pub open spec fn parse_part(s: Seq<char>, max: nat) -> Option<Option<nat>> {
    if s == seq!['*'] {
        Some(None)
    } else {
        match parse_unsigned(s, max) {
            Some(n) => Some(Some(n)),
            None => None,
        }
    }
}

/// The number of a half within the range of its type.
pub open spec fn as_ms(half: Option<nat>) -> Option<u128> {
    match half {
        Some(n) => Some(n as u128),
        None => None,
    }
}

/// The number of a half within the range of its type.
pub open spec fn as_seq(half: Option<nat>) -> Option<u64> {
    match half {
        Some(n) => Some(n as u64),
        None => None,
    }
}

/// Reading of a requested identifier: `*` alone, or two halves around the
/// first `-`.
pub open spec fn parse_request(s: Seq<char>) -> Option<IdRequest> {
    let dash = first_index(s, '-');
    if s == seq!['*'] {
        Some(IdRequest { ms: None, seq: None })
    } else if dash < s.len() {
        match (
            parse_part(s.subrange(0, dash), u128::MAX as nat),
            parse_part(s.subrange(dash + 1, s.len() as int), u64::MAX as nat),
        ) {
            (Some(ms), Some(seq)) => Some(IdRequest { ms: as_ms(ms), seq: as_seq(seq) }),
            _ => None,
        }
    } else {
        None
    }
}

/// Reading of a full identifier `<ms>-<seq>`.
pub open spec fn parse_id(s: Seq<char>) -> Option<StreamId> {
    match parse_request(s) {
        Some(IdRequest { ms: Some(ms), seq: Some(seq) }) => Some(StreamId { ms, seq }),
        _ => None,
    }
}

/// The identifier that a request stands for, given the last identifier of the
/// stream (`None` for an empty or missing stream) and the wall clock in
/// milliseconds (`None` where it could not be read).
pub open spec fn resolve(req: IdRequest, last: Option<StreamId>, now_ms: Option<u128>) -> Result<
    StreamId,
    DbErrorView,
> {
    if req.ms is None && now_ms is None {
        Err(DbErrorView::ClockBeforeEpoch)
    } else {
        let ms = match req.ms {
            None => now_ms->0,
            Some(ms) => ms,
        };
        let next = last is Some && ms == last->0.ms;
        if req.seq is None && next && last->0.seq == u64::MAX {
            Err(DbErrorView::StreamIdNotGreater)
        } else {
            let seq: u64 = match req.seq {
                Some(seq) => seq,
                None => if next {
                    (last->0.seq + 1) as u64
                } else if last is None && req.ms is Some && ms == 0 {
                    1
                } else {
                    0
                },
            };
            let id = StreamId { ms, seq };
            if id.is_zero() {
                Err(DbErrorView::StreamIdZero)
            } else if last is Some && !last->0.lt(id) {
                Err(DbErrorView::StreamIdNotGreater)
            } else {
                Ok(id)
            }
        }
    }
}

/// The identifier of a new record: the request is read, then resolved.
pub open spec fn derive_id(requested: Seq<char>, last: Option<StreamId>, now_ms: Option<u128>)
    -> Result<StreamId, DbErrorView> {
    match parse_request(requested) {
        Some(req) => resolve(req, last, now_ms),
        None => Err(DbErrorView::InvalidIdFormat(requested)),
    }
}

/// The identifier behind an optional reference.
pub open spec fn known(last: Option<&StreamId>) -> Option<StreamId> {
    match last {
        Some(l) => Some(*l),
        None => None,
    }
}

/// Whether an outcome of the engine is the outcome `m` of its model.
pub open spec fn same_id_result(r: Result<StreamId, DbError>, m: Result<StreamId, DbErrorView>)
    -> bool {
    match r {
        Ok(id) => m == Ok::<StreamId, DbErrorView>(id),
        Err(e) => m == Err::<StreamId, DbErrorView>(e@),
    }
}

/// Text with a character outside ASCII is no request for an identifier.
pub proof fn lemma_not_ascii_no_request(s: Seq<char>)
    requires
        !vstd::utf8::is_ascii_chars(s),
    ensures
        parse_request(s) is None,
{
    let k = choose|k: int| 0 <= k < s.len() && !('\0' <= #[trigger] s[k] <= '\u{7f}');
    let dash = first_index(s, '-');
    lemma_first_index(s, '-');
    if s == seq!['*'] {
    } else if dash < s.len() {
        if k < dash {
            let part = s.subrange(0, dash);
            assert(part[k] == s[k]);
            lemma_not_ascii_not_number(part);
        } else {
            let part = s.subrange(dash + 1, s.len() as int);
            assert(part[k - dash - 1] == s[k]);
            lemma_not_ascii_not_number(part);
        }
    }
}

/// Reads one half of a requested identifier at positions `from..to`.
fn read_part(s: &str, from: usize, to: usize, max: u128) -> (r: Option<Option<u128>>)
    requires
        s.is_ascii(),
        from <= to <= s@.len(),
    ensures
        match r {
            Some(half) => parse_part(s@.subrange(from as int, to as int), max as nat) matches Some(
                found,
            ) && as_ms(found) == half && (half matches Some(n) ==> n <= max),
            None => parse_part(s@.subrange(from as int, to as int), max as nat) is None,
        },
{
    let ghost part = s@.subrange(from as int, to as int);
    if to - from == 1 && ascii_at(s, from) == STAR {
        assert(part =~= seq!['*']);
        return Some(None);
    }
    match read_unsigned_in(s, from, to, max) {
        Some(n) => Some(Some(n)),
        None => None,
    }
}

impl IdRequest {
    /// Reads a requested identifier.
    pub fn parse(s: &str) -> (r: Option<IdRequest>)
        ensures
            r == parse_request(s@),
    {
        if !s.is_ascii() {
            proof {
                lemma_not_ascii_no_request(s@);
            }
            return None;
        }
        let n = ascii_len(s);
        if n == 1 && ascii_at(s, 0) == STAR {
            assert(s@ =~= seq!['*']);
            return Some(IdRequest { ms: None, seq: None });
        }
        let dash = find_ascii(s, MINUS);
        if dash >= n {
            return None;
        }
        let ms = read_part(s, 0, dash, u128::MAX);
        let seq = read_part(s, dash + 1, n, u64::MAX as u128);
        match (ms, seq) {
            (Some(ms), Some(seq)) => Some(
                IdRequest {
                    ms,
                    seq: match seq {
                        Some(n) => Some(n as u64),
                        None => None,
                    },
                },
            ),
            _ => None,
        }
    }

    /// The identifier that this request stands for.
    pub fn resolve(&self, last: Option<&StreamId>, now_ms: Option<u128>) -> (r: Result<
        StreamId,
        DbError,
    >)
        ensures
            same_id_result(r, resolve(*self, known(last), now_ms)),
    {
        let ms = match self.ms {
            Some(ms) => ms,
            None => match now_ms {
                Some(now) => now,
                None => {
                    return Err(DbError::ClockBeforeEpoch);
                },
            },
        };
        let seq: u64 = match self.seq {
            Some(seq) => seq,
            None => match last {
                Some(l) => {
                    if ms == l.ms {
                        if l.seq == u64::MAX {
                            return Err(DbError::StreamIdNotGreater);
                        }
                        l.seq + 1
                    } else {
                        0
                    }
                },
                None => match self.ms {
                    Some(_) => if ms == 0 {
                        1
                    } else {
                        0
                    },
                    None => 0,
                },
            },
        };
        let id = StreamId { ms, seq };
        if ms == 0 && seq == 0 {
            return Err(DbError::StreamIdZero);
        }
        match last {
            Some(l) => {
                if !l.is_before(&id) {
                    return Err(DbError::StreamIdNotGreater);
                }
            },
            None => {},
        }
        Ok(id)
    }
}

/// `std::time::SystemTime`: a reading of the system clock. Nothing is known
/// of what is inside.
#[verifier::external_type_specification]
#[verifier::external_body]
pub struct ExSystemTime(SystemTime);

/// The reading of the system clock: `SystemTime::now`.
#[verifier::external_body]
fn system_now() -> (now: SystemTime) {
    SystemTime::now()
}

/// Milliseconds from the Unix epoch to `time`: `SystemTime::duration_since`
/// with `UNIX_EPOCH`, as whole milliseconds, or `None` where `time` lies
/// before the epoch. Nothing is claimed of the number.
#[verifier::external_body]
fn millis_since_epoch(time: &SystemTime) -> (millis: Option<u128>) {
    match time.duration_since(UNIX_EPOCH) {
        Ok(elapsed) => Some(elapsed.as_millis()),
        Err(_) => None,
    }
}

/// Milliseconds since the Unix epoch by the system clock, or `None` where the
/// clock reads before the epoch.
pub(crate) fn wall_clock_millis() -> (now_ms: Option<u128>) {
    let now = system_now();
    millis_since_epoch(&now)
}

/// The identifier of a new record of a stream whose last identifier is `last`,
/// with the wall clock at `now_ms`.
pub fn derive_new_stream_id_at(requested: &str, last: Option<&StreamId>, now_ms: Option<u128>) -> (r:
    Result<StreamId, DbError>)
    ensures
        same_id_result(
            r,
            derive_id(
                requested@,
                known(last),
                now_ms,
            ),
        ),
{
    match IdRequest::parse(requested) {
        Some(req) => req.resolve(last, now_ms),
        None => Err(DbError::InvalidIdFormat(requested.to_owned())),
    }
}

/// The identifier of a new record of a stream whose last identifier is `last`.
/// The wall clock is read once; the result is what
/// [`derive_new_stream_id_at`] gives for that reading.
pub fn derive_new_stream_id(requested: &str, last: Option<&StreamId>) -> (r: Result<
    StreamId,
    DbError,
>)
    ensures
        exists|now_ms: Option<u128>|
            same_id_result(
                r,
                #[trigger] derive_id(
                    requested@,
                    known(last),
                    now_ms,
                ),
            ),
{
    let now_ms = wall_clock_millis();
    derive_new_stream_id_at(requested, last, now_ms)
}

} // verus!
