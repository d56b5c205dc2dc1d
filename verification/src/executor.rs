//! What each command does to the engine and what it answers: one step under
//! the engine's lock for most commands, and for a blocking command a first
//! step that may park the client and a second step once it wakes.

use vstd::prelude::*;
use vstd::string::*;
use tokio::sync::mpsc::{channel, Receiver, Sender};
use crate::blocking::{
    notified, without, ListNotification, StreamNotification, WaiterKind, WaiterView,
};
use crate::commands::{
    optional_text, streams_view, Command, CommandView, StartView, XreadDuration, XreadStartId,
};
use crate::db::{
    front, kind_name, range_end, range_start, range_of, texts, Db, DbValue, DbView,
    ValueView, NANOS_PER_MILLI,
};
use crate::error::{DbError, DbErrorView};
use crate::resp::{lemma_array_view, views, RespValue, RespView};
use crate::stream::{derive_id, derive_new_stream_id_at, parse_id, wall_clock_millis, StreamId};
use crate::stream_types::{
    assemble, item_resp, item_resps, items_view, last_id_of, newer_than, pairs_view, within,
    Fields, ItemView, StreamItem,
};
use crate::text::Wait;

verus! {

/// `tokio::sync::mpsc::Receiver`: the receiving half of a bounded channel.
/// The engine makes it and hands it to the parked client; nothing is known of
/// what is inside.
#[verifier::external_type_specification]
#[verifier::external_body]
#[verifier::reject_recursive_types(T)]
pub struct ExReceiver<T>(Receiver<T>);

/// Notifications that a parked list consumer can hold unread.
pub const LIST_CHANNEL_CAPACITY: usize = 1;

/// Notifications that a parked stream reader can hold unread.
pub const STREAM_CHANNEL_CAPACITY: usize = 100;

/// A bounded channel for list notifications: `tokio::sync::mpsc::channel`,
/// which does not return for a capacity of zero or above an eighth of
/// `usize::MAX`.
#[verifier::external_body]
fn list_channel(capacity: usize) -> (ends: (Sender<ListNotification>, Receiver<ListNotification>))
    requires
        0 < capacity <= usize::MAX / 8,
{
    channel(capacity)
}

/// A bounded channel for stream notifications: `tokio::sync::mpsc::channel`,
/// which does not return for a capacity of zero or above an eighth of
/// `usize::MAX`.
#[verifier::external_body]
fn stream_channel(capacity: usize) -> (ends: (
    Sender<StreamNotification>,
    Receiver<StreamNotification>,
))
    requires
        0 < capacity <= usize::MAX / 8,
{
    channel(capacity)
}

/// The receiving half of the channel of a parked client.
#[derive(Debug)]
pub enum Inbox {
    List(Receiver<ListNotification>),
    Stream(Receiver<StreamNotification>),
}

/// What a parked client needs to go on once it wakes.
#[derive(Debug, PartialEq, Eq)]
pub struct Parked {
    /// The key that the client waits on.
    pub key: String,
    /// The name of the client in the registry.
    pub client_id: String,
    /// For a stream reader, the identifier beyond which it reads; `None` for
    /// a list consumer.
    pub start: Option<StreamId>,
    /// How long the client is ready to wait.
    pub wait: Wait,
}

/// The mathematical value of a [`Parked`].
pub struct ParkedView {
    pub key: Seq<char>,
    pub client_id: Seq<char>,
    pub start: Option<StreamId>,
    pub wait: Wait,
}

impl View for Parked {
    type V = ParkedView;

    open spec fn view(&self) -> ParkedView {
        ParkedView { key: self.key@, client_id: self.client_id@, start: self.start, wait: self.wait }
    }
}

impl ParkedView {
    /// The entry of the registry that stands for this client, parked at time
    /// `since`.
    pub open spec fn waiter(self, since: u128) -> WaiterView {
        WaiterView {
            id: self.client_id,
            key: self.key,
            since,
            kind: match self.start {
                Some(start) => WaiterKind::StreamRead { start },
                None => WaiterKind::ListPop,
            },
        }
    }
}

/// How the first step of a command ends.
#[derive(Debug)]
pub enum Outcome {
    /// With an answer.
    Reply(RespValue),
    /// With the client parked: it waits on `inbox` as long as `ticket` says,
    /// then takes the second step.
    Park { ticket: Parked, inbox: Inbox },
    /// With a fault of the machine that the engine cannot answer for: the
    /// connection ends.
    Fault(DbError),
}

/// The mathematical value of an [`Outcome`].
pub enum OutcomeView {
    Reply(RespView),
    Park(ParkedView),
    Fault(DbErrorView),
}

impl View for Outcome {
    type V = OutcomeView;

    open spec fn view(&self) -> OutcomeView {
        match self {
            Outcome::Reply(value) => OutcomeView::Reply(value@),
            Outcome::Park { ticket, inbox } => OutcomeView::Park(ticket@),
            Outcome::Fault(e) => OutcomeView::Fault(e@),
        }
    }
}

/// Texts as bulk strings.
pub open spec fn bulks(texts: Seq<Seq<char>>) -> Seq<RespView> {
    Seq::new(texts.len(), |i: int| RespView::BulkString(texts[i]))
}

/// An array of two values.
pub open spec fn pair(a: RespView, b: RespView) -> RespView {
    RespView::Array(seq![a, b])
}

/// The answer to a refused operation: its message as an error.
pub open spec fn refusal(e: DbErrorView) -> RespView {
    RespView::SimpleError(e.message())
}

/// What a stream contributes to the answer of an `XREAD`: its key and its
/// records.
pub open spec fn entry(key: Seq<char>, items: Seq<ItemView>) -> RespView {
    pair(RespView::BulkString(key), RespView::Array(item_resps(items)))
}

/// The answer that hands one popped element to a blocked consumer.
pub open spec fn popped_reply(key: Seq<char>, list: Seq<Seq<char>>) -> RespView {
    if list.len() > 0 {
        pair(RespView::BulkString(key), RespView::BulkString(list[0]))
    } else {
        RespView::NullArray
    }
}

/// The answer that hands new records to a blocked reader.
pub open spec fn read_reply(key: Seq<char>, items: Seq<ItemView>) -> RespView {
    if items.len() > 0 {
        RespView::Array(seq![entry(key, items)])
    } else {
        RespView::NullArray
    }
}

/// The engine and the answer after a write of `value` under `key`, to expire
/// after `expiry_millis` if that is given.
pub open spec fn ran_set(
    d: DbView,
    key: Seq<char>,
    value: Seq<char>,
    expiry_millis: Option<u64>,
    d2: DbView,
    out: OutcomeView,
) -> bool {
    &&& d2 == match expiry_millis {
        Some(millis) => d.inserted(key, ValueView::Atom(value)).expiring(key, millis),
        None => d.inserted(key, ValueView::Atom(value)),
    }
    &&& out == OutcomeView::Reply(RespView::SimpleString("OK"@))
}

/// The engine and the answer after a push that makes the list at `key` into
/// `list`.
pub open spec fn ran_push(
    d: DbView,
    key: Seq<char>,
    list: Seq<Seq<char>>,
    d2: DbView,
    out: OutcomeView,
) -> bool {
    match d.push_refusal(key) {
        Some(e) => d2 == d.observed(key) && out == OutcomeView::Reply(refusal(e)),
        None => {
            &&& d2 == d.with_list(key, list).with_waiters(d2.waiters)
            &&& notified(d.waiters, d2.waiters, key, true)
            &&& out == OutcomeView::Reply(RespView::Integer(list.len()))
        },
    }
}

/// The engine and the answer after an `LPOP`: without a count, one element as
/// a single value, or null where there is none; with a count, as many
/// elements in an array.
pub open spec fn ran_lpop(
    d: DbView,
    key: Seq<char>,
    count: Option<usize>,
    d2: DbView,
    out: OutcomeView,
) -> bool {
    match count {
        None => {
            &&& d2 == d.popped(key, 1)
            &&& out == OutcomeView::Reply(
                if d.list(key).len() > 0 {
                    RespView::BulkString(d.list(key)[0])
                } else {
                    RespView::NullBulkString
                },
            )
        },
        Some(n) => {
            &&& d2 == d.popped(key, n as nat)
            &&& out == OutcomeView::Reply(RespView::Array(bulks(front(d.list(key), n as nat))))
        },
    }
}

/// The engine and the outcome after the first step of a `BLPOP`: an element
/// if the list has one; else the client is parked as a list consumer.
pub open spec fn ran_blpop(d: DbView, key: Seq<char>, timeout: Wait, d2: DbView, out: OutcomeView)
    -> bool {
    if d.list(key).len() > 0 {
        d2 == d.popped(key, 1) && out == OutcomeView::Reply(popped_reply(key, d.list(key)))
    } else {
        &&& out matches OutcomeView::Park(ticket)
        &&& ticket.key == key
        &&& ticket.start is None
        &&& ticket.wait == timeout
        &&& d2 == d.popped(key, 1).with_waiters(d.waiters.push(ticket.waiter(d.clock)))
    }
}

/// How a refused operation ends: with the refusal as the answer, but for a
/// clock that cannot be read, which is a fault.
pub open spec fn refused(e: DbErrorView) -> OutcomeView {
    if e is ClockBeforeEpoch {
        OutcomeView::Fault(e)
    } else {
        OutcomeView::Reply(refusal(e))
    }
}

/// The engine and the answer after an `XADD`: the identifier is derived from
/// the request and the last identifier of the stream, then the record is
/// appended.
pub open spec fn ran_xadd(
    d: DbView,
    key: Seq<char>,
    id: Seq<char>,
    pairs: Fields,
    now_ms: Option<u128>,
    d2: DbView,
    out: OutcomeView,
) -> bool {
    match derive_id(id, last_id_of(d.stream(key)), now_ms) {
        Err(e) => d2 == d.observed(key) && out == refused(e),
        Ok(new_id) => match d.append_refusal(key, new_id) {
            Some(e) => d2 == d.observed(key) && out == OutcomeView::Reply(refusal(e)),
            None => {
                &&& d2 == d.observed(key).with_value(
                    key,
                    ValueView::Stream(
                        d.stream(key).push(ItemView { id: new_id, fields: assemble(pairs) }),
                    ),
                ).with_waiters(d2.waiters)
                &&& notified(d.waiters, d2.waiters, key, false)
                &&& out == OutcomeView::Reply(RespView::BulkString(new_id.text()))
            },
        },
    }
}

/// The bound of an `XRANGE` as text: `fallback` where the client gave none.
pub open spec fn bound_text(bound: Option<Seq<char>>, fallback: Seq<char>) -> Seq<char> {
    match bound {
        Some(text) => text,
        None => fallback,
    }
}

/// The engine and the answer after an `XRANGE`.
pub open spec fn ran_xrange(
    d: DbView,
    key: Seq<char>,
    start: Option<Seq<char>>,
    end: Option<Seq<char>>,
    d2: DbView,
    out: OutcomeView,
) -> bool {
    let from = bound_text(start, seq!['-']);
    let to = bound_text(end, seq!['+']);
    &&& d2 == d.observed(key)
    &&& out == OutcomeView::Reply(
        match d.range_refusal(key, from, to) {
            Some(e) => refusal(e),
            None => RespView::Array(
                item_resps(within(d.stream(key), range_start(from)->0, range_end(to)->0)),
            ),
        },
    )
}

/// Whether the starting point of a stream of an `XREAD` can be read.
pub open spec fn start_ok(start: StartView) -> bool {
    start matches StartView::Normal(text) ==> parse_id(text) is Some
}

/// Position of the first stream whose starting point cannot be read, or the
/// number of streams.
pub open spec fn first_bad(streams: Seq<(Seq<char>, StartView)>) -> int
    decreases streams.len(),
{
    if streams.len() == 0 {
        0
    } else if !start_ok(streams[0].1) {
        0
    } else {
        1 + first_bad(streams.drop_first())
    }
}

/// A position whose starting point cannot be read, with none such before it,
/// is the first.
pub proof fn lemma_first_bad_is(streams: Seq<(Seq<char>, StartView)>, at: int)
    requires
        0 <= at <= streams.len(),
        at < streams.len() ==> !start_ok(streams[at].1),
        forall|j: int| 0 <= j < at ==> start_ok((#[trigger] streams[j]).1),
    ensures
        first_bad(streams) == at,
    decreases streams.len(),
{
    if streams.len() > 0 && at > 0 {
        lemma_first_bad_is(streams.drop_first(), at - 1);
    }
}

/// The identifier beyond which an `XREAD` reads the stream at `key`: for `$`
/// the last identifier that the stream has, or `0-0` where it has none.
pub open spec fn start_id(d: DbView, key: Seq<char>, start: StartView) -> StreamId {
    match start {
        StartView::Last => match last_id_of(d.stream(key)) {
            Some(id) => id,
            None => StreamId { ms: 0, seq: 0 },
        },
        StartView::Normal(text) => parse_id(text)->0,
    }
}

/// What the streams of an `XREAD` contribute to its answer, in the order of
/// the request: a stream without new records contributes nothing.
pub open spec fn entries(d: DbView, streams: Seq<(Seq<char>, StartView)>) -> Seq<RespView>
    decreases streams.len(),
{
    if streams.len() == 0 {
        Seq::empty()
    } else {
        let (key, start) = streams.last();
        let items = newer_than(d.stream(key), start_id(d, key, start));
        if items.len() > 0 {
            entries(d, streams.drop_last()).push(entry(key, items))
        } else {
            entries(d, streams.drop_last())
        }
    }
}

/// The engine once a reader has looked at the key of each of `streams`.
pub open spec fn observed_all(d: DbView, streams: Seq<(Seq<char>, StartView)>) -> DbView
    decreases streams.len(),
{
    if streams.len() == 0 {
        d
    } else {
        observed_all(d, streams.drop_last()).observed(streams.last().0)
    }
}

/// How long a blocking `XREAD` waits.
pub open spec fn wait_of(duration: XreadDuration) -> Wait {
    match duration {
        XreadDuration::Immediate => Wait::Nanos(0),
        XreadDuration::Inifnity => Wait::Forever,
        XreadDuration::Normal(millis) => Wait::Nanos((millis * NANOS_PER_MILLI) as u128),
    }
}

/// The engine and the outcome after the first step of an `XREAD`: refused if
/// a starting point cannot be read; else the new records of each stream; if
/// there are none, null without `BLOCK`, and with it the client is parked as a
/// reader of the first stream.
pub open spec fn ran_xread(
    d: DbView,
    streams: Seq<(Seq<char>, StartView)>,
    duration: XreadDuration,
    d2: DbView,
    out: OutcomeView,
) -> bool {
    let bad = first_bad(streams);
    let found = entries(d, streams);
    let seen = observed_all(d, streams);
    if bad < streams.len() {
        d2 == d && out == OutcomeView::Reply(
            refusal(DbErrorView::InvalidIdFormat(streams[bad].1->Normal_0)),
        )
    } else if found.len() > 0 {
        d2 == seen && out == OutcomeView::Reply(RespView::Array(found))
    } else if duration is Immediate || streams.len() == 0 {
        d2 == seen && out == OutcomeView::Reply(RespView::NullArray)
    } else {
        &&& out matches OutcomeView::Park(ticket)
        &&& ticket.key == streams[0].0
        &&& ticket.start == Some(start_id(d, streams[0].0, streams[0].1))
        &&& ticket.wait == wait_of(duration)
        &&& d2 == seen.with_waiters(d.waiters.push(ticket.waiter(d.clock)))
    }
}

/// What the first step of `command` makes of the engine `d`, with the wall
/// clock at `now_ms` milliseconds: the engine `d2` and the outcome `out`.
pub open spec fn executed(
    command: CommandView,
    d: DbView,
    now_ms: Option<u128>,
    d2: DbView,
    out: OutcomeView,
) -> bool {
    match command {
        CommandView::Ping => d2 == d && out == OutcomeView::Reply(RespView::SimpleString("PONG"@)),
        CommandView::Echo { message } => d2 == d && out == OutcomeView::Reply(
            RespView::BulkString(message),
        ),
        CommandView::SetValue { key, value, expiry_millis } => ran_set(
            d,
            key,
            value,
            expiry_millis,
            d2,
            out,
        ),
        CommandView::Rpush { key, values } => ran_push(d, key, d.list(key) + values, d2, out),
        CommandView::Lpush { key, values } => ran_push(
            d,
            key,
            values.reverse() + d.list(key),
            d2,
            out,
        ),
        CommandView::Lpop { key, count } => ran_lpop(d, key, count, d2, out),
        CommandView::Blpop { key, timeout } => ran_blpop(d, key, timeout, d2, out),
        CommandView::Llen { key } => d2 == d.observed(key) && out == OutcomeView::Reply(
            RespView::Integer(d.list(key).len()),
        ),
        CommandView::Get { key } => d2 == d.observed(key) && out == OutcomeView::Reply(
            match d.value(key) {
                Some(ValueView::Atom(text)) => RespView::BulkString(text),
                _ => RespView::NullBulkString,
            },
        ),
        CommandView::Lrange { key, start, stop } => d2 == d.observed(key) && out
            == OutcomeView::Reply(
            RespView::Array(bulks(range_of(d.list(key), start as int, stop as int))),
        ),
        CommandView::Type { key } => d2 == d.observed(key) && out == OutcomeView::Reply(
            RespView::SimpleString(kind_name(d.value(key))),
        ),
        CommandView::Xadd { key, id, field_value_pairs } => ran_xadd(
            d,
            key,
            id,
            field_value_pairs,
            now_ms,
            d2,
            out,
        ),
        CommandView::Xrange { key, start, end } => ran_xrange(d, key, start, end, d2, out),
        CommandView::Xread { streams, duration } => ran_xread(d, streams, duration, d2, out),
    }
}

/// What the second step of a parked client makes of the engine `d`: the
/// client leaves the registry, if it is still there, and looks for its data
/// once more.
pub open spec fn resumed(ticket: ParkedView, d: DbView, d2: DbView, reply: RespView) -> bool {
    let left = d.with_waiters(without(d.waiters, ticket.client_id, ticket.key));
    match ticket.start {
        None => d2 == left.popped(ticket.key, 1) && reply == popped_reply(
            ticket.key,
            d.list(ticket.key),
        ),
        Some(start) => d2 == left.observed(ticket.key) && reply == read_reply(
            ticket.key,
            newer_than(d.stream(ticket.key), start),
        ),
    }
}

/// The answer to a refused operation.
fn refuse(e: &DbError) -> (reply: RespValue)
    ensures
        reply@ == refusal(e@),
{
    RespValue::SimpleError(e.message())
}

/// An array of two values.
fn pair_of(a: RespValue, b: RespValue) -> (both: RespValue)
    ensures
        both@ == pair(a@, b@),
{
    let mut parts: Vec<RespValue> = Vec::new();
    parts.push(a);
    parts.push(b);
    proof {
        lemma_array_view(parts);
        assert(views(parts@) =~= seq![a@, b@]);
    }
    RespValue::Array(parts)
}

/// Texts as an array of bulk strings.
fn bulk_array(found: &Vec<String>) -> (reply: RespValue)
    ensures
        reply@ == RespView::Array(bulks(texts(found@))),
{
    let mut parts: Vec<RespValue> = Vec::new();
    let mut i: usize = 0;
    while i < found.len()
        invariant
            i <= found.len(),
            parts.len() == i,
            forall|j: int| 0 <= j < i ==> (#[trigger] parts[j])@ == RespView::BulkString(found[j]@),
        decreases found.len() - i,
    {
        parts.push(RespValue::BulkString(found[i].clone()));
        i = i + 1;
    }
    proof {
        lemma_array_view(parts);
        assert(views(parts@) =~= bulks(texts(found@)));
    }
    RespValue::Array(parts)
}

/// Records as an array of protocol values.
fn items_array(items: &Vec<StreamItem>) -> (reply: RespValue)
    ensures
        reply@ == RespView::Array(item_resps(items_view(items@))),
{
    let mut parts: Vec<RespValue> = Vec::new();
    let mut i: usize = 0;
    while i < items.len()
        invariant
            i <= items.len(),
            parts.len() == i,
            forall|j: int| 0 <= j < i ==> (#[trigger] parts[j])@ == item_resp(items[j]@),
        decreases items.len() - i,
    {
        parts.push(items[i].to_resp());
        i = i + 1;
    }
    proof {
        lemma_array_view(parts);
        assert(views(parts@) =~= item_resps(items_view(items@)));
    }
    RespValue::Array(parts)
}

/// `SET`: writes the atom, then its deadline if it has one.
fn run_set(db: &mut Db, key: String, value: String, expiry_millis: Option<u64>) -> (out: Outcome)
    requires
        old(db).wf(),
    ensures
        final(db).wf(),
        ran_set(old(db)@, key@, value@, expiry_millis, final(db)@, out@),
{
    db.insert(key.as_str(), DbValue::Atom(value));
    match expiry_millis {
        Some(millis) => {
            db.set_expiration(key.as_str(), millis);
        },
        None => {},
    }
    Outcome::Reply(RespValue::SimpleString("OK".to_owned()))
}

/// The answer to a push: the new length, or the refusal.
fn push_reply(pushed: Result<u64, DbError>) -> (out: Outcome)
    ensures
        out@ == OutcomeView::Reply(
            match pushed {
                Ok(length) => RespView::Integer(length as nat),
                Err(e) => refusal(e@),
            },
        ),
{
    match pushed {
        Ok(length) => Outcome::Reply(RespValue::Integer(length)),
        Err(e) => Outcome::Reply(refuse(&e)),
    }
}

/// `LPOP`: one element as a single value, or as many as asked for in an array.
fn run_lpop(db: &mut Db, key: String, count: Option<usize>) -> (out: Outcome)
    requires
        old(db).wf(),
    ensures
        final(db).wf(),
        ran_lpop(old(db)@, key@, count, final(db)@, out@),
{
    let ghost list = db@.list(key@);
    match count {
        None => {
            let taken = db.lpop(key.as_str(), 1);
            assert(front(list, 1).len() == (if list.len() > 0 {
                1int
            } else {
                0int
            }));
            if taken.len() == 0 {
                Outcome::Reply(RespValue::NullBulkString)
            } else {
                assert(front(list, 1)[0] == list[0]);
                Outcome::Reply(RespValue::BulkString(taken[0].clone()))
            }
        },
        Some(n) => {
            let taken = db.lpop(key.as_str(), n);
            Outcome::Reply(bulk_array(&taken))
        },
    }
}

/// The first step of `BLPOP`: an element if there is one, else the client is parked.
fn run_blpop(db: &mut Db, key: String, timeout: Wait) -> (out: Outcome)
    requires
        old(db).wf(),
    ensures
        final(db).wf(),
        ran_blpop(old(db)@, key@, timeout, final(db)@, out@),
{
    let ghost list = db@.list(key@);
    let taken = db.lpop(key.as_str(), 1);
    assert(front(list, 1).len() == (if list.len() > 0 {
        1int
    } else {
        0int
    }));
    if taken.len() > 0 {
        assert(front(list, 1)[0] == list[0]);
        let element = RespValue::BulkString(taken[0].clone());
        return Outcome::Reply(pair_of(RespValue::BulkString(key), element));
    }
    let (sender, receiver) = list_channel(LIST_CHANNEL_CAPACITY);
    let client_id = db.add_blocked_lpop_client(key.clone(), sender);
    Outcome::Park {
        ticket: Parked { key, client_id, start: None, wait: timeout },
        inbox: Inbox::List(receiver),
    }
}

/// `XADD`: derives the identifier, then appends the record.
fn run_xadd(
    db: &mut Db,
    key: String,
    id: String,
    pairs: Vec<(String, String)>,
    now_ms: Option<u128>,
) -> (out: Outcome)
    requires
        old(db).wf(),
    ensures
        final(db).wf(),
        ran_xadd(old(db)@, key@, id@, pairs_view(pairs@), now_ms, final(db)@, out@),
{
    let ghost d = db@;
    let last = db.last_id(key.as_str());
    proof {
        d.lemma_observed_twice(key@);
        d.lemma_observed_value(key@, key@);
    }
    let new_id = match derive_new_stream_id_at(id.as_str(), last.as_ref(), now_ms) {
        Ok(new_id) => new_id,
        Err(DbError::ClockBeforeEpoch) => {
            return Outcome::Fault(DbError::ClockBeforeEpoch);
        },
        Err(e) => {
            return Outcome::Reply(refuse(&e));
        },
    };
    match db.xadd(key.as_str(), new_id, &pairs) {
        Ok(()) => Outcome::Reply(RespValue::BulkString(new_id.to_text())),
        Err(e) => Outcome::Reply(refuse(&e)),
    }
}

/// `XRANGE`: the records within the bounds, which default to the whole stream.
fn run_xrange(db: &mut Db, key: String, start: Option<String>, end: Option<String>) -> (out:
    Outcome)
    requires
        old(db).wf(),
    ensures
        final(db).wf(),
        ran_xrange(old(db)@, key@, optional_text(start), optional_text(end), final(db)@, out@),
{
    proof {
        reveal_strlit("-");
        reveal_strlit("+");
        assert("-"@ =~= seq!['-']);
        assert("+"@ =~= seq!['+']);
    }
    let from = match start {
        Some(text) => text,
        None => "-".to_owned(),
    };
    let to = match end {
        Some(text) => text,
        None => "+".to_owned(),
    };
    match db.xrange(key.as_str(), from.as_str(), to.as_str()) {
        Ok(items) => Outcome::Reply(items_array(&items)),
        Err(e) => Outcome::Reply(refuse(&e)),
    }
}

/// The first step of `XREAD`: checks the starting points, reads each stream, and
/// parks the client where nothing is new and the command may block.
fn run_xread(db: &mut Db, streams: Vec<(String, XreadStartId)>, duration: XreadDuration) -> (out:
    Outcome)
    requires
        old(db).wf(),
    ensures
        final(db).wf(),
        ran_xread(old(db)@, streams_view(streams@), duration, final(db)@, out@),
{
    let ghost d = db@;
    let ghost sv = streams_view(streams@);
    let mut i: usize = 0;
    while i < streams.len()
        invariant
            db.wf(),
            db@ == d,
            i <= streams.len(),
            sv == streams_view(streams@),
            forall|j: int| 0 <= j < i ==> start_ok((#[trigger] sv[j]).1),
        decreases streams.len() - i,
    {
        match &streams[i].1 {
            XreadStartId::Normal(text) => {
                if StreamId::parse(text.as_str()).is_none() {
                    proof {
                        lemma_first_bad_is(sv, i as int);
                    }
                    let e = DbError::InvalidIdFormat(text.clone());
                    return Outcome::Reply(refuse(&e));
                }
            },
            XreadStartId::Last => {},
        }
        i = i + 1;
    }
    proof {
        lemma_first_bad_is(sv, sv.len() as int);
    }
    let mut found: Vec<RespValue> = Vec::new();
    let mut first_start = StreamId::min();
    let mut i: usize = 0;
    while i < streams.len()
        invariant
            db.wf(),
            i <= streams.len(),
            sv == streams_view(streams@),
            forall|j: int| 0 <= j < sv.len() ==> start_ok((#[trigger] sv[j]).1),
            db@ == observed_all(d, sv.subrange(0, i as int)),
            forall|k: Seq<char>| #[trigger] db@.value(k) == d.value(k),
            db@.clock == d.clock,
            db@.waiters == d.waiters,
            views(found@) == entries(d, sv.subrange(0, i as int)),
            i > 0 ==> first_start == start_id(d, sv[0].0, sv[0].1),
        decreases streams.len() - i,
    {
        let ghost before = db@;
        let ghost upto = sv.subrange(0, i + 1);
        assert(upto.drop_last() =~= sv.subrange(0, i as int));
        let start = match &streams[i].1 {
            XreadStartId::Last => match db.last_id(streams[i].0.as_str()) {
                Some(id) => id,
                None => StreamId::min(),
            },
            XreadStartId::Normal(text) => match StreamId::parse(text.as_str()) {
                Some(id) => id,
                None => StreamId::min(),
            },
        };
        proof {
            before.lemma_observed_twice(streams[i as int].0@);
            before.lemma_observed_value(streams[i as int].0@, streams[i as int].0@);
        }
        let items = db.xread_after(streams[i].0.as_str(), &start);
        assert forall|k: Seq<char>| #[trigger] db@.value(k) == d.value(k) by {
            before.lemma_observed_value(streams[i as int].0@, k);
        }
        if i == 0 {
            first_start = start;
        }
        if items.len() > 0 {
            let records = items_array(&items);
            let one = pair_of(RespValue::BulkString(streams[i].0.clone()), records);
            found.push(one);
        }
        i = i + 1;
    }
    assert(sv.subrange(0, i as int) =~= sv);
    if found.len() > 0 {
        proof {
            lemma_array_view(found);
        }
        return Outcome::Reply(RespValue::Array(found));
    }
    let wait = match duration {
        XreadDuration::Immediate => {
            return Outcome::Reply(RespValue::NullArray);
        },
        XreadDuration::Inifnity => Wait::Forever,
        XreadDuration::Normal(millis) => Wait::Nanos((millis as u128) * NANOS_PER_MILLI),
    };
    if streams.len() == 0 {
        return Outcome::Reply(RespValue::NullArray);
    }
    let (sender, receiver) = stream_channel(STREAM_CHANNEL_CAPACITY);
    let key = streams[0].0.clone();
    let client_id = db.add_blocked_xread_client(key.clone(), first_start, sender);
    Outcome::Park {
        ticket: Parked { key, client_id, start: Some(first_start), wait },
        inbox: Inbox::Stream(receiver),
    }
}

impl Command {
    /// The first step of the command, under the engine's lock, with the wall
    /// clock at `now_ms` milliseconds since the Unix epoch (`None` where it
    /// cannot be read) and the engine's clock as it stands.
    pub fn execute_at(self, db: &mut Db, now_ms: Option<u128>) -> (out: Outcome)
        requires
            old(db).wf(),
        ensures
            final(db).wf(),
            executed(self@, old(db)@, now_ms, final(db)@, out@),
    {
        match self {
            Command::Ping => Outcome::Reply(RespValue::SimpleString("PONG".to_owned())),
            Command::Echo { message } => Outcome::Reply(RespValue::BulkString(message)),
            Command::SetValue { key, value, expiry_millis } => run_set(
                db,
                key,
                value,
                expiry_millis,
            ),
            Command::Rpush { key, values } => push_reply(db.rpush(key.as_str(), values)),
            Command::Lpush { key, values } => push_reply(db.lpush(key.as_str(), values)),
            Command::Lpop { key, count } => run_lpop(db, key, count),
            Command::Blpop { key, timeout } => run_blpop(db, key, timeout),
            Command::Llen { key } => Outcome::Reply(RespValue::Integer(db.llen(key.as_str()))),
            Command::Get { key } => match db.atom(key.as_str()) {
                Some(text) => Outcome::Reply(RespValue::BulkString(text)),
                None => Outcome::Reply(RespValue::NullBulkString),
            },
            Command::Lrange { key, start, stop } => {
                let found = db.lrange(key.as_str(), start, stop);
                Outcome::Reply(bulk_array(&found))
            },
            Command::Type { key } => Outcome::Reply(
                RespValue::SimpleString(db.kind_name(key.as_str())),
            ),
            Command::Xadd { key, id, field_value_pairs } => run_xadd(
                db,
                key,
                id,
                field_value_pairs,
                now_ms,
            ),
            Command::Xrange { key, start, end } => run_xrange(db, key, start, end),
            Command::Xread { streams, duration } => run_xread(db, streams, duration),
        }
    }

    /// The first step of the command, under the engine's lock. Both clocks are
    /// read once; the step is what [`Command::execute_at`] makes of those
    /// readings.
    pub fn execute(self, db: &mut Db) -> (out: Outcome)
        requires
            old(db).wf(),
        ensures
            final(db).wf(),
            exists|now: u128, now_ms: Option<u128>| #[trigger]
                executed(self@, old(db)@.advanced(now), now_ms, final(db)@, out@),
    {
        db.tick();
        let now_ms = wall_clock_millis();
        self.execute_at(db, now_ms)
    }
}

impl Parked {
    /// The second step of a parked client, under the engine's lock and with
    /// the engine's clock as it stands: whether it was woken or its time ran
    /// out, the client leaves the registry and looks for its data once more.
    pub fn resume_at(self, db: &mut Db) -> (reply: RespValue)
        requires
            old(db).wf(),
        ensures
            final(db).wf(),
            resumed(self@, old(db)@, final(db)@, reply@),
    {
        let ghost list = db@.list(self.key@);
        db.remove_blocked_client(self.client_id.as_str(), self.key.as_str());
        match self.start {
            None => {
                let taken = db.lpop(self.key.as_str(), 1);
                assert(front(list, 1).len() == (if list.len() > 0 {
                    1int
                } else {
                    0int
                }));
                if taken.len() > 0 {
                    assert(front(list, 1)[0] == list[0]);
                    let element = RespValue::BulkString(taken[0].clone());
                    pair_of(RespValue::BulkString(self.key), element)
                } else {
                    RespValue::NullArray
                }
            },
            Some(start) => {
                let items = db.xread_after(self.key.as_str(), &start);
                if items.len() > 0 {
                    let records = items_array(&items);
                    let one = pair_of(RespValue::BulkString(self.key), records);
                    let mut all: Vec<RespValue> = Vec::new();
                    all.push(one);
                    proof {
                        lemma_array_view(all);
                        assert(views(all@) =~= seq![one@]);
                    }
                    RespValue::Array(all)
                } else {
                    RespValue::NullArray
                }
            },
        }
    }

    /// The second step of a parked client, under the engine's lock. The
    /// engine's clock is read first; the step is what [`Parked::resume_at`]
    /// makes of the engine then.
    pub fn resume(self, db: &mut Db) -> (reply: RespValue)
        requires
            old(db).wf(),
        ensures
            final(db).wf(),
            exists|now: u128| #[trigger] resumed(self@, old(db)@.advanced(now), final(db)@, reply@),
    {
        db.tick();
        self.resume_at(db)
    }
}

} // verus!
