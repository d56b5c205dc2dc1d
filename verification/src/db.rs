//! The engine: typed values by key, their expiration, and the clients that
//! wait for them.

use std::collections::VecDeque;
use tokio::sync::mpsc::Sender;
use tokio::time::Instant;
use vstd::hash_map::StringHashMap;
use vstd::prelude::*;
use vstd::std_specs::vecdeque::VecDequeAdditionalSpecFns;
use vstd::string::*;
use crate::blocking::{
    notified, without, BlockingQueue, ListNotification, StreamNotification, WaiterKind, WaiterView,
};
use crate::commands::optional_text;
use crate::error::{DbError, DbErrorView};
use crate::keyspace::Keyspace;
use crate::stream::{parse_id, StreamId};
use crate::stream_types::{
    append_refusal, assemble, items_view, last_id_of, newer_than, pairs_view, stream_wf, within,
    ItemView, StreamItem, StreamList,
};
use crate::text::same_text;

verus! {

/// What a key can hold.
#[derive(Debug)]
pub enum DbValue {
    /// A single text.
    Atom(String),
    /// Texts in order, open at both ends.
    List(VecDeque<String>),
    /// An append-only log of records.
    Stream(StreamList),
}

/// The mathematical value of a [`DbValue`].
pub enum ValueView {
    Atom(Seq<char>),
    List(Seq<Seq<char>>),
    Stream(Seq<ItemView>),
}

/// The texts of a run of strings, in order.
pub open spec fn texts(list: Seq<String>) -> Seq<Seq<char>> {
    Seq::new(list.len(), |i: int| list[i]@)
}

impl View for DbValue {
    type V = ValueView;

    open spec fn view(&self) -> ValueView {
        match self {
            DbValue::Atom(text) => ValueView::Atom(text@),
            DbValue::List(list) => ValueView::List(texts(list@)),
            DbValue::Stream(log) => ValueView::Stream(log@),
        }
    }
}

/// A stream keeps the order of its identifiers; the other values have no rule.
pub open spec fn value_wf(value: ValueView) -> bool {
    value is Stream ==> stream_wf(value->Stream_0)
}

/// `tokio::time::Instant`: a reading of the monotonic clock. The engine keeps
/// the one of its start and measures from it; nothing is known of what is
/// inside.
#[verifier::external_type_specification]
#[verifier::external_body]
pub struct ExInstant(Instant);

/// The largest reading of the engine's clock, in nanoseconds. The clock stops
/// there, far beyond any running time.
pub const MAX_CLOCK: u128 = 0x10_0000_0000_0000_0000_0000_0000;

/// Nanoseconds in a millisecond.
pub const NANOS_PER_MILLI: u128 = 1_000_000;

/// The mathematical value of the engine.
#[verifier::ext_equal]
pub struct DbView {
    /// The stored values by key.
    pub values: Map<Seq<char>, ValueView>,
    /// The time, on the engine's clock, at which a key expires.
    pub deadlines: Map<Seq<char>, u128>,
    /// The engine's clock: nanoseconds since it was made, as of the last
    /// reading.
    pub clock: u128,
    /// The waiting clients, in the order in which they were parked.
    pub waiters: Seq<WaiterView>,
}

/// Every stream among `values` keeps its order.
pub open spec fn values_wf(values: Map<Seq<char>, ValueView>) -> bool {
    forall|key: Seq<char>| #[trigger] values.contains_key(key) ==> value_wf(values[key])
}

/// The elements at `start..=stop` of a list, where a negative index counts
/// from the end and both ends are clamped to the list.
pub open spec fn range_of(list: Seq<Seq<char>>, start: int, stop: int) -> Seq<Seq<char>> {
    let len = list.len() as int;
    let from = if start < 0 {
        len + start
    } else {
        start
    };
    let to = if stop < 0 {
        len + stop
    } else {
        stop
    };
    let lo = if from < 0 {
        0
    } else {
        from
    };
    let hi = if to > len - 1 {
        len - 1
    } else {
        to
    };
    if lo > hi {
        Seq::empty()
    } else {
        list.subrange(lo, hi + 1)
    }
}

/// The first `count` elements of `list`, or all of them where it has fewer.
pub open spec fn front(list: Seq<Seq<char>>, count: nat) -> Seq<Seq<char>> {
    list.subrange(
        0,
        if count < list.len() {
            count as int
        } else {
            list.len() as int
        },
    )
}

/// What is left of `list` behind its first `count` elements.
pub open spec fn behind(list: Seq<Seq<char>>, count: nat) -> Seq<Seq<char>> {
    list.subrange(
        if count < list.len() {
            count as int
        } else {
            list.len() as int
        },
        list.len() as int,
    )
}

/// The name of the kind of value that a reader finds.
pub open spec fn kind_name(value: Option<ValueView>) -> Seq<char> {
    match value {
        Some(ValueView::Atom(_)) => "string"@,
        Some(ValueView::List(_)) => "list"@,
        Some(ValueView::Stream(_)) => "stream"@,
        None => "none"@,
    }
}

/// The bound that a range of a stream starts at: `-` is the smallest
/// identifier, and so stands for the first record.
pub open spec fn range_start(text: Seq<char>) -> Option<StreamId> {
    if text == seq!['-'] {
        Some(StreamId { ms: 0, seq: 0 })
    } else {
        parse_id(text)
    }
}

/// The bound that a range of a stream ends at: `+` is the largest identifier,
/// and so stands for the last record.
pub open spec fn range_end(text: Seq<char>) -> Option<StreamId> {
    if text == seq!['+'] {
        Some(StreamId { ms: u128::MAX, seq: u64::MAX })
    } else {
        parse_id(text)
    }
}

impl DbView {
    /// Every stream keeps its order, and the clock is within its bound.
    pub open spec fn wf(self) -> bool {
        values_wf(self.values) && self.clock <= MAX_CLOCK
    }

    /// An engine that holds nothing, with its clock at zero.
    pub open spec fn empty() -> DbView {
        DbView { values: Map::empty(), deadlines: Map::empty(), clock: 0, waiters: Seq::empty() }
    }

    /// Whether the deadline of `key` has passed.
    pub open spec fn expired(self, key: Seq<char>) -> bool {
        self.deadlines.contains_key(key) && self.deadlines[key] <= self.clock
    }

    /// The engine once a reader has looked at `key`: an expired key is gone,
    /// with its deadline.
    pub open spec fn observed(self, key: Seq<char>) -> DbView {
        if self.expired(key) {
            DbView {
                values: self.values.remove(key),
                deadlines: self.deadlines.remove(key),
                ..self
            }
        } else {
            self
        }
    }

    /// What a reader finds under `key`: nothing where the key has expired.
    pub open spec fn value(self, key: Seq<char>) -> Option<ValueView> {
        if !self.expired(key) && self.values.contains_key(key) {
            Some(self.values[key])
        } else {
            None
        }
    }

    /// The list that a reader finds under `key`: empty where there is none.
    pub open spec fn list(self, key: Seq<char>) -> Seq<Seq<char>> {
        match self.value(key) {
            Some(ValueView::List(list)) => list,
            _ => Seq::empty(),
        }
    }

    /// The records that a reader finds under `key`: none where there is no
    /// stream.
    pub open spec fn stream(self, key: Seq<char>) -> Seq<ItemView> {
        match self.value(key) {
            Some(ValueView::Stream(items)) => items,
            _ => Seq::empty(),
        }
    }

    /// Looking twice is looking once.
    pub proof fn lemma_observed_twice(self, key: Seq<char>)
        ensures
            self.observed(key).observed(key) == self.observed(key),
            !self.observed(key).expired(key),
    {
    }

    /// What a reader finds under a key does not depend on which keys were
    /// looked at before.
    pub proof fn lemma_observed_value(self, seen: Seq<char>, key: Seq<char>)
        ensures
            self.observed(seen).value(key) == self.value(key),
            self.observed(seen).clock == self.clock,
            self.observed(seen).waiters == self.waiters,
    {
    }

    /// The engine with `value` under `key`.
    pub open spec fn with_value(self, key: Seq<char>, value: ValueView) -> DbView {
        DbView { values: self.values.insert(key, value), ..self }
    }

    /// The engine with its clock moved on to `now`: the clock never goes back
    /// and stops at [`MAX_CLOCK`].
    pub open spec fn advanced(self, now: u128) -> DbView {
        let capped = if now > MAX_CLOCK {
            MAX_CLOCK
        } else {
            now
        };
        DbView {
            clock: if capped > self.clock {
                capped
            } else {
                self.clock
            },
            ..self
        }
    }

    /// The engine with the waiters `waiters`.
    pub open spec fn with_waiters(self, waiters: Seq<WaiterView>) -> DbView {
        DbView { waiters, ..self }
    }

    /// The engine after `value` was written under `key`: the value replaces
    /// what was there, and the key has no deadline.
    pub open spec fn inserted(self, key: Seq<char>, value: ValueView) -> DbView {
        DbView {
            values: self.values.insert(key, value),
            deadlines: self.deadlines.remove(key),
            ..self
        }
    }

    /// The engine after `key` was given `millis` milliseconds to live.
    pub open spec fn expiring(self, key: Seq<char>, millis: u64) -> DbView {
        DbView {
            deadlines: self.deadlines.insert(
                key,
                (self.clock + millis * NANOS_PER_MILLI) as u128,
            ),
            ..self
        }
    }

    /// The engine without `key` and its deadline.
    pub open spec fn expunged(self, key: Seq<char>) -> DbView {
        DbView { values: self.values.remove(key), deadlines: self.deadlines.remove(key), ..self }
    }

    /// What a push to the list at `key` is refused with, if it is refused.
    pub open spec fn push_refusal(self, key: Seq<char>) -> Option<DbErrorView> {
        match self.value(key) {
            Some(ValueView::List(_)) | None => None,
            Some(_) => Some(DbErrorView::KeyIsNotList(key)),
        }
    }

    /// The values after the list at `key` became `list`, a reader having
    /// looked at the key first.
    pub open spec fn with_list(self, key: Seq<char>, list: Seq<Seq<char>>) -> DbView {
        self.observed(key).with_value(key, ValueView::List(list))
    }

    /// The engine after the first `count` elements were taken from the list at
    /// `key`, or all of them where it has fewer.
    pub open spec fn popped(self, key: Seq<char>, count: nat) -> DbView {
        match self.value(key) {
            Some(ValueView::List(list)) => self.with_list(key, behind(list, count)),
            _ => self.observed(key),
        }
    }

    /// What an append to the stream at `key` with identifier `id` is refused
    /// with, if it is refused.
    pub open spec fn append_refusal(self, key: Seq<char>, id: StreamId) -> Option<DbErrorView> {
        match self.value(key) {
            Some(ValueView::Stream(items)) => append_refusal(items, id),
            None => append_refusal(Seq::empty(), id),
            Some(_) => Some(DbErrorView::KeyIsNotStream(key)),
        }
    }

    /// What a range query of the stream at `key` is refused with, if it is
    /// refused.
    pub open spec fn range_refusal(self, key: Seq<char>, start: Seq<char>, end: Seq<char>)
        -> Option<DbErrorView> {
        match self.value(key) {
            None => Some(DbErrorView::KeyNotFound(key)),
            Some(ValueView::Stream(_)) => if range_start(start) is None {
                Some(DbErrorView::InvalidIdFormat(start))
            } else if range_end(end) is None {
                Some(DbErrorView::InvalidIdFormat(end))
            } else {
                None
            },
            Some(_) => Some(DbErrorView::KeyIsNotStream(key)),
        }
    }
}

impl Clone for DbValue {
    fn clone(&self) -> (copy: Self)
        ensures
            copy@ == self@,
    {
        match self {
            DbValue::Atom(text) => DbValue::Atom(text.clone()),
            DbValue::List(list) => {
                let mut copy: VecDeque<String> = VecDeque::new();
                let mut i: usize = 0;
                while i < list.len()
                    invariant
                        i <= list.len(),
                        copy.len() == i,
                        forall|j: int| 0 <= j < i ==> (#[trigger] copy[j])@ == list[j]@,
                    decreases list.len() - i,
                {
                    copy.push_back(list[i].clone());
                    i = i + 1;
                }
                assert(texts(copy@) =~= texts(list@));
                DbValue::List(copy)
            },
            DbValue::Stream(log) => DbValue::Stream(log.clone()),
        }
    }
}

/// The instant at which an engine starts its clock: `Instant::now()`.
#[verifier::external_body]
fn clock_start() -> (epoch: Instant) {
    Instant::now()
}

/// Nanoseconds since `epoch`: `Instant::elapsed`, which reads the monotonic
/// clock, as nanoseconds. Nothing is claimed of the number.
#[verifier::external_body]
fn elapsed_nanos(epoch: &Instant) -> (nanos: u128) {
    epoch.elapsed().as_nanos()
}

/// The engine: the keyspace, the deadlines of its keys, and the registry of
/// waiting clients.
pub struct Db {
    values: Keyspace,
    expirations: StringHashMap<u128>,
    clock: u128,
    epoch: Instant,
    blocking_queue: BlockingQueue,
}

impl View for Db {
    type V = DbView;

    closed spec fn view(&self) -> DbView {
        DbView {
            values: self.values@,
            deadlines: self.expirations@,
            clock: self.clock,
            waiters: self.blocking_queue@,
        }
    }
}

impl Db {
    /// The engine is consistent: its table is, every stream keeps its order,
    /// and the clock is within its bound.
    pub closed spec fn wf(&self) -> bool {
        self.values.wf() && self@.wf()
    }

    /// What a consistent engine holds is consistent.
    pub proof fn lemma_wf(&self)
        requires
            self.wf(),
        ensures
            self@.wf(),
    {
    }

    /// An engine that holds nothing. Its clock starts now.
    pub fn new() -> (db: Self)
        ensures
            db.wf(),
            db@ == DbView::empty(),
    {
        Self {
            values: Keyspace::new(),
            expirations: StringHashMap::new(),
            clock: 0,
            epoch: clock_start(),
            blocking_queue: BlockingQueue::new(),
        }
    }

    /// Moves the clock on to `now` nanoseconds.
    pub fn advance(&mut self, now: u128)
        requires
            old(self).wf(),
        ensures
            final(self).wf(),
            final(self)@ == old(self)@.advanced(now),
    {
        let capped = if now > MAX_CLOCK {
            MAX_CLOCK
        } else {
            now
        };
        if capped > self.clock {
            self.clock = capped;
        }
    }

    /// Reads the monotonic clock and moves the engine's clock on to it.
    pub fn tick(&mut self)
        requires
            old(self).wf(),
        ensures
            final(self).wf(),
            exists|now: u128| final(self)@ == #[trigger] old(self)@.advanced(now),
    {
        let now = elapsed_nanos(&self.epoch);
        self.advance(now);
    }

    /// The reading of the engine's clock.
    pub fn now(&self) -> (clock: u128)
        ensures
            clock == self@.clock,
    {
        self.clock
    }

    /// Looks at `key`: if its deadline has passed, the key goes.
    fn observe(&mut self, key: &str)
        requires
            old(self).wf(),
        ensures
            final(self).wf(),
            final(self)@ == old(self)@.observed(key@),
            !final(self)@.expired(key@),
    {
        let expired = match self.expirations.get(key) {
            Some(deadline) => *deadline <= self.clock,
            None => false,
        };
        if expired {
            self.values.remove(key);
            self.expirations.remove(key);
        }
    }

    /// Parks a reader of the stream at `key` that wants the records beyond
    /// `start`. Returns the identifier it is known by.
    pub fn add_blocked_xread_client(
        &mut self,
        key: String,
        start: StreamId,
        sender: Sender<StreamNotification>,
    ) -> (client_id: String)
        requires
            old(self).wf(),
        ensures
            final(self).wf(),
            final(self)@ == old(self)@.with_waiters(
                old(self)@.waiters.push(
                    WaiterView {
                        id: client_id@,
                        key: key@,
                        since: old(self)@.clock,
                        kind: WaiterKind::StreamRead { start },
                    },
                ),
            ),
    {
        self.blocking_queue.add_blocked_xread_client(key, start, sender, self.clock)
    }

    /// Parks a consumer of the list at `key`. Returns the identifier it is
    /// known by.
    pub fn add_blocked_lpop_client(&mut self, key: String, sender: Sender<ListNotification>) -> (client_id:
        String)
        requires
            old(self).wf(),
        ensures
            final(self).wf(),
            final(self)@ == old(self)@.with_waiters(
                old(self)@.waiters.push(
                    WaiterView {
                        id: client_id@,
                        key: key@,
                        since: old(self)@.clock,
                        kind: WaiterKind::ListPop,
                    },
                ),
            ),
    {
        self.blocking_queue.add_blocked_lpop_client(key, sender, self.clock)
    }

    /// Removes the waiter called `client_id` from the queue of `key`. Removing
    /// a waiter that is not there changes nothing.
    pub fn remove_blocked_client(&mut self, client_id: &str, key: &str)
        requires
            old(self).wf(),
        ensures
            final(self).wf(),
            final(self)@ == old(self)@.with_waiters(without(old(self)@.waiters, client_id@, key@)),
    {
        self.blocking_queue.remove_blocked_client(client_id, key)
    }

    /// Removes the waiter called `client_id` from the queue of `key`.
    pub fn remove_blocked_xread_client(&mut self, client_id: &str, key: &str)
        requires
            old(self).wf(),
        ensures
            final(self).wf(),
            final(self)@ == old(self)@.with_waiters(without(old(self)@.waiters, client_id@, key@)),
    {
        self.blocking_queue.remove_blocked_client(client_id, key)
    }

    /// The value that a reader finds under `key`. A key whose deadline has
    /// passed is removed and found absent.
    pub fn get(&mut self, key: &str) -> (found: Option<DbValue>)
        requires
            old(self).wf(),
        ensures
            final(self).wf(),
            final(self)@ == old(self)@.observed(key@),
            match found {
                Some(value) => old(self)@.value(key@) == Some(value@),
                None => old(self)@.value(key@) is None,
            },
    {
        self.observe(key);
        match self.values.get(key) {
            Some(value) => Some(value.clone()),
            None => None,
        }
    }

    /// The text under `key` where it holds an atom.
    pub fn atom(&mut self, key: &str) -> (found: Option<String>)
        requires
            old(self).wf(),
        ensures
            final(self).wf(),
            final(self)@ == old(self)@.observed(key@),
            optional_text(found) == (match old(self)@.value(key@) {
                Some(ValueView::Atom(text)) => Some(text),
                _ => None,
            }),
    {
        self.observe(key);
        match self.values.get(key) {
            Some(DbValue::Atom(text)) => Some(text.clone()),
            _ => None,
        }
    }

    /// The name of the kind of value under `key`: `string`, `list`, `stream`
    /// or `none`.
    pub fn kind_name(&mut self, key: &str) -> (name: String)
        requires
            old(self).wf(),
        ensures
            final(self).wf(),
            final(self)@ == old(self)@.observed(key@),
            name@ == kind_name(old(self)@.value(key@)),
    {
        self.observe(key);
        match self.values.get(key) {
            Some(DbValue::Atom(_)) => "string".to_owned(),
            Some(DbValue::List(_)) => "list".to_owned(),
            Some(DbValue::Stream(_)) => "stream".to_owned(),
            None => "none".to_owned(),
        }
    }

    /// Writes `value` under `key`, whatever was there, and clears the deadline
    /// of the key.
    pub fn insert(&mut self, key: &str, value: DbValue)
        requires
            old(self).wf(),
            value_wf(value@),
        ensures
            final(self).wf(),
            final(self)@ == old(self)@.inserted(key@, value@),
    {
        self.values.insert(key, value);
        self.expirations.remove(key);
    }

    /// Gives `key` a deadline `millis` milliseconds after the reading of the
    /// clock, whether or not the key exists.
    pub fn set_expiration(&mut self, key: &str, millis: u64)
        requires
            old(self).wf(),
        ensures
            final(self).wf(),
            final(self)@ == old(self)@.expiring(key@, millis),
    {
        let deadline = self.clock + (millis as u128) * NANOS_PER_MILLI;
        self.expirations.insert(key.to_owned(), deadline);
    }

    /// Whether the deadline of `key` has passed.
    pub fn is_expired(&self, key: &str) -> (expired: bool)
        ensures
            expired == self@.expired(key@),
    {
        match self.expirations.get(key) {
            Some(deadline) => *deadline <= self.clock,
            None => false,
        }
    }

    /// Removes `key` and its deadline.
    pub fn expire(&mut self, key: &str)
        requires
            old(self).wf(),
        ensures
            final(self).wf(),
            final(self)@ == old(self)@.expunged(key@),
    {
        self.expirations.remove(key);
        self.values.remove(key);
    }

    /// Takes the list at `key` out of the table so that it can be changed: an
    /// empty list where the key is missing. A value that is no list stays, and
    /// the refusal is returned.
    fn take_list(&mut self, key: &str) -> (r: Result<VecDeque<String>, DbError>)
        requires
            old(self).wf(),
            !old(self)@.expired(key@),
        ensures
            final(self).wf(),
            !final(self)@.expired(key@),
            match r {
                Ok(list) => old(self)@.push_refusal(key@) is None && texts(list@) == old(
                    self,
                )@.list(key@) && final(self)@ == (DbView {
                    values: old(self)@.values.remove(key@),
                    ..old(self)@
                }),
                Err(e) => old(self)@.push_refusal(key@) == Some(e@) && final(self)@ == old(self)@,
            },
    {
        match self.values.remove(key) {
            None => {
                let list: VecDeque<String> = VecDeque::new();
                Ok(list)
            },
            Some(DbValue::List(list)) => Ok(list),
            Some(other) => {
                self.values.insert(key, other);
                Err(DbError::KeyIsNotList(key.to_owned()))
            },
        }
    }

    /// Appends `values` to the back of the list at `key`, which is made if the
    /// key is missing, and wakes the consumers that wait on the key. Returns
    /// the new length. Refused where the key holds another kind of value.
    pub fn rpush(&mut self, key: &str, values: Vec<String>) -> (r: Result<u64, DbError>)
        requires
            old(self).wf(),
        ensures
            final(self).wf(),
            match r {
                Ok(length) => {
                    &&& old(self)@.push_refusal(key@) is None
                    &&& length == old(self)@.list(key@).len() + values.len()
                    &&& final(self)@ == old(self)@.with_list(
                        key@,
                        old(self)@.list(key@) + texts(values@),
                    ).with_waiters(final(self)@.waiters)
                    &&& notified(old(self)@.waiters, final(self)@.waiters, key@, true)
                },
                Err(e) => old(self)@.push_refusal(key@) == Some(e@) && final(self)@ == old(
                    self,
                )@.observed(key@),
            },
    {
        self.observe(key);
        let mut list = match self.take_list(key) {
            Ok(list) => list,
            Err(e) => {
                return Err(e);
            },
        };
        let ghost start = texts(list@);
        let mut i: usize = 0;
        while i < values.len()
            invariant
                i <= values.len(),
                texts(list@) == start + texts(values@).subrange(0, i as int),
            decreases values.len() - i,
        {
            let ghost was = texts(list@);
            list.push_back(values[i].clone());
            i = i + 1;
            assert(texts(list@) =~= was.push(values[i - 1]@));
        }
        assert(texts(values@).subrange(0, i as int) =~= texts(values@));
        let length = list.len() as u64;
        self.values.insert(key, DbValue::List(list));
        self.blocking_queue.notify_lpop_clients(key);
        Ok(length)
    }

    /// Puts `values` at the front of the list at `key`, one after another, so
    /// that the last of them comes first; the list is made if the key is
    /// missing. Wakes the consumers that wait on the key. Returns the new
    /// length. Refused where the key holds another kind of value.
    pub fn lpush(&mut self, key: &str, values: Vec<String>) -> (r: Result<u64, DbError>)
        requires
            old(self).wf(),
        ensures
            final(self).wf(),
            match r {
                Ok(length) => {
                    &&& old(self)@.push_refusal(key@) is None
                    &&& length == old(self)@.list(key@).len() + values.len()
                    &&& final(self)@ == old(self)@.with_list(
                        key@,
                        texts(values@).reverse() + old(self)@.list(key@),
                    ).with_waiters(final(self)@.waiters)
                    &&& notified(old(self)@.waiters, final(self)@.waiters, key@, true)
                },
                Err(e) => old(self)@.push_refusal(key@) == Some(e@) && final(self)@ == old(
                    self,
                )@.observed(key@),
            },
    {
        self.observe(key);
        let mut list = match self.take_list(key) {
            Ok(list) => list,
            Err(e) => {
                return Err(e);
            },
        };
        let ghost start = texts(list@);
        let mut i: usize = 0;
        while i < values.len()
            invariant
                i <= values.len(),
                texts(list@) == texts(values@).subrange(0, i as int).reverse() + start,
            decreases values.len() - i,
        {
            let ghost was = texts(list@);
            list.push_front(values[i].clone());
            i = i + 1;
            assert(texts(list@) =~= seq![values[i - 1]@] + was);
        }
        assert(texts(values@).subrange(0, i as int) =~= texts(values@));
        let length = list.len() as u64;
        self.values.insert(key, DbValue::List(list));
        self.blocking_queue.notify_lpop_clients(key);
        Ok(length)
    }

    /// Takes up to `length` elements from the front of the list at `key` and
    /// returns them in order: none where the key holds no list or the list is
    /// empty.
    pub fn lpop(&mut self, key: &str, length: usize) -> (taken: Vec<String>)
        requires
            old(self).wf(),
        ensures
            final(self).wf(),
            final(self)@ == old(self)@.popped(key@, length as nat),
            texts(taken@) == front(old(self)@.list(key@), length as nat),
    {
        self.observe(key);
        let mut taken: Vec<String> = Vec::new();
        let existed = self.values.get(key).is_some();
        let mut list = match self.take_list(key) {
            Ok(list) => list,
            Err(_) => {
                return taken;
            },
        };
        if !existed {
            return taken;
        }
        let ghost start = texts(list@);
        while taken.len() < length && list.len() > 0
            invariant
                taken.len() <= length,
                taken.len() <= start.len(),
                texts(taken@) == start.subrange(0, taken.len() as int),
                texts(list@) == start.subrange(taken.len() as int, start.len() as int),
            decreases list.len(),
        {
            let ghost got = texts(taken@);
            let ghost rest = texts(list@);
            match list.pop_front() {
                Some(value) => {
                    taken.push(value);
                    assert(texts(taken@) =~= got.push(rest[0]));
                    assert(texts(list@) =~= rest.subrange(1, rest.len() as int));
                },
                None => {},
            }
        }
        self.values.insert(key, DbValue::List(list));
        taken
    }

    /// Length of the list at `key`: zero where the key holds no list.
    pub fn llen(&mut self, key: &str) -> (length: u64)
        requires
            old(self).wf(),
        ensures
            final(self).wf(),
            final(self)@ == old(self)@.observed(key@),
            length == old(self)@.list(key@).len(),
    {
        self.observe(key);
        match self.values.get(key) {
            Some(DbValue::List(list)) => list.len() as u64,
            _ => 0,
        }
    }

    /// Copies of the elements at `start..=stop` of the list at `key`, where a
    /// negative index counts from the end and both ends are clamped to the
    /// list: none where the key holds no list.
    pub fn lrange(&mut self, key: &str, start: isize, stop: isize) -> (found: Vec<String>)
        requires
            old(self).wf(),
        ensures
            final(self).wf(),
            final(self)@ == old(self)@.observed(key@),
            texts(found@) == range_of(old(self)@.list(key@), start as int, stop as int),
    {
        self.observe(key);
        let mut found: Vec<String> = Vec::new();
        let list = match self.values.get(key) {
            Some(DbValue::List(list)) => list,
            _ => {
                return found;
            },
        };
        let length = list.len() as i128;
        let from = if start < 0 {
            length + start as i128
        } else {
            start as i128
        };
        let to = if stop < 0 {
            length + stop as i128
        } else {
            stop as i128
        };
        let lo = if from < 0 {
            0
        } else {
            from
        };
        let hi = if to > length - 1 {
            length - 1
        } else {
            to
        };
        if lo > hi {
            return found;
        }
        let first = lo as usize;
        let end = (hi + 1) as usize;
        let mut i: usize = first;
        while i < end
            invariant
                first <= i <= end <= list.len(),
                texts(found@) == texts(list@).subrange(first as int, i as int),
            decreases end - i,
        {
            let ghost got = texts(found@);
            found.push(list[i].clone());
            i = i + 1;
            assert(texts(found@) =~= got.push(list[i - 1]@));
        }
        found
    }

    /// Takes the stream at `key` out of the table so that it can be changed: an
    /// empty log where the key is missing. A value that is no stream stays, and
    /// the refusal is returned.
    fn take_stream(&mut self, key: &str) -> (r: Result<StreamList, DbError>)
        requires
            old(self).wf(),
            !old(self)@.expired(key@),
        ensures
            final(self).wf(),
            !final(self)@.expired(key@),
            match r {
                Ok(log) => {
                    &&& !(old(self)@.value(key@) matches Some(v) && !(v is Stream))
                    &&& log@ == old(self)@.stream(key@)
                    &&& log.wf()
                    &&& final(self)@ == (DbView {
                        values: old(self)@.values.remove(key@),
                        ..old(self)@
                    })
                },
                Err(e) => {
                    &&& old(self)@.value(key@) matches Some(v) && !(v is Stream)
                    &&& e@ == DbErrorView::KeyIsNotStream(key@)
                    &&& final(self)@ == old(self)@
                },
            },
    {
        match self.values.remove(key) {
            None => Ok(StreamList::new()),
            Some(DbValue::Stream(log)) => Ok(log),
            Some(other) => {
                self.values.insert(key, other);
                Err(DbError::KeyIsNotStream(key.to_owned()))
            },
        }
    }

    /// Appends a record with identifier `id` and the fields assembled from
    /// `pairs` to the stream at `key`, which is made if the key is missing, and
    /// sends the record to the readers that wait on the key. Refused where the
    /// key holds another kind of value, where `id` is `0-0`, and where `id`
    /// does not exceed the last identifier of the stream.
    pub fn xadd(&mut self, key: &str, id: StreamId, pairs: &Vec<(String, String)>) -> (r: Result<
        (),
        DbError,
    >)
        requires
            old(self).wf(),
        ensures
            final(self).wf(),
            match r {
                Ok(()) => {
                    &&& old(self)@.append_refusal(key@, id) is None
                    &&& final(self)@ == old(self)@.observed(key@).with_value(
                        key@,
                        ValueView::Stream(
                            old(self)@.stream(key@).push(
                                ItemView { id, fields: assemble(pairs_view(pairs@)) },
                            ),
                        ),
                    ).with_waiters(final(self)@.waiters)
                    &&& notified(old(self)@.waiters, final(self)@.waiters, key@, false)
                },
                Err(e) => old(self)@.append_refusal(key@, id) == Some(e@) && final(self)@ == old(
                    self,
                )@.observed(key@),
            },
    {
        self.observe(key);
        let existed = self.values.get(key).is_some();
        let mut log = match self.take_stream(key) {
            Ok(log) => log,
            Err(e) => {
                return Err(e);
            },
        };
        match log.append(id, pairs) {
            Ok(()) => {},
            Err(e) => {
                if existed {
                    self.values.insert(key, DbValue::Stream(log));
                }
                return Err(e);
            },
        }
        let item = match log.last() {
            Some(item) => item.clone(),
            None => {
                return Ok(());
            },
        };
        self.values.insert(key, DbValue::Stream(log));
        self.blocking_queue.notify_xread_clients(key, item);
        Ok(())
    }

    /// A copy of the first record of the stream at `key`: `None` where the
    /// key holds no stream with a record.
    pub fn xfirst(&mut self, key: &str) -> (item: Option<StreamItem>)
        requires
            old(self).wf(),
        ensures
            final(self).wf(),
            final(self)@ == old(self)@.observed(key@),
            match item {
                Some(it) => old(self)@.stream(key@).len() > 0 && it@ == old(self)@.stream(key@)[0],
                None => old(self)@.stream(key@).len() == 0,
            },
    {
        self.observe(key);
        match self.values.get(key) {
            Some(DbValue::Stream(log)) => match log.first() {
                Some(item) => Some(item.clone()),
                None => None,
            },
            _ => None,
        }
    }

    /// A copy of the last record of the stream at `key`: `None` where the key
    /// holds no stream with a record.
    pub fn xlast(&mut self, key: &str) -> (item: Option<StreamItem>)
        requires
            old(self).wf(),
        ensures
            final(self).wf(),
            final(self)@ == old(self)@.observed(key@),
            match item {
                Some(it) => old(self)@.stream(key@).len() > 0 && it@ == old(self)@.stream(
                    key@,
                ).last(),
                None => old(self)@.stream(key@).len() == 0,
            },
    {
        self.observe(key);
        match self.values.get(key) {
            Some(DbValue::Stream(log)) => match log.last() {
                Some(item) => Some(item.clone()),
                None => None,
            },
            _ => None,
        }
    }

    /// The identifier of the last record of the stream at `key`.
    pub fn last_id(&mut self, key: &str) -> (id: Option<StreamId>)
        requires
            old(self).wf(),
        ensures
            final(self).wf(),
            final(self)@ == old(self)@.observed(key@),
            id == last_id_of(old(self)@.stream(key@)),
    {
        self.observe(key);
        match self.values.get(key) {
            Some(DbValue::Stream(log)) => log.last_id(),
            _ => None,
        }
    }

    /// Copies of the records of the stream at `key` whose identifier lies in
    /// `start..=end`, where `-` stands for the first record and `+` for the
    /// last. Refused where the key is missing or holds no stream, and where a
    /// bound is no identifier.
    pub fn xrange(&mut self, key: &str, start: &str, end: &str) -> (r: Result<
        Vec<StreamItem>,
        DbError,
    >)
        requires
            old(self).wf(),
        ensures
            final(self).wf(),
            final(self)@ == old(self)@.observed(key@),
            match r {
                Ok(found) => old(self)@.range_refusal(key@, start@, end@) is None && items_view(
                    found@,
                ) == within(old(self)@.stream(key@), range_start(start@)->0, range_end(end@)->0),
                Err(e) => old(self)@.range_refusal(key@, start@, end@) == Some(e@),
            },
    {
        self.observe(key);
        let log = match self.values.get(key) {
            None => {
                return Err(DbError::KeyNotFound(key.to_owned()));
            },
            Some(DbValue::Stream(log)) => log,
            Some(_) => {
                return Err(DbError::KeyIsNotStream(key.to_owned()));
            },
        };
        proof {
            reveal_strlit("-");
            reveal_strlit("+");
            assert("-"@ =~= seq!['-']);
            assert("+"@ =~= seq!['+']);
        }
        let lo = if same_text(start, "-") {
            Some(StreamId::min())
        } else {
            StreamId::parse(start)
        };
        let lo = match lo {
            Some(lo) => lo,
            None => {
                return Err(DbError::InvalidIdFormat(start.to_owned()));
            },
        };
        let hi = if same_text(end, "+") {
            Some(StreamId::max())
        } else {
            StreamId::parse(end)
        };
        let hi = match hi {
            Some(hi) => hi,
            None => {
                return Err(DbError::InvalidIdFormat(end.to_owned()));
            },
        };
        Ok(log.range(&lo, &hi))
    }

    /// Copies of the records of the stream at `key` whose identifier is
    /// greater than `start`: none where the key holds no stream.
    pub fn xread_after(&mut self, key: &str, start: &StreamId) -> (found: Vec<StreamItem>)
        requires
            old(self).wf(),
        ensures
            final(self).wf(),
            final(self)@ == old(self)@.observed(key@),
            items_view(found@) == newer_than(old(self)@.stream(key@), *start),
    {
        self.observe(key);
        match self.values.get(key) {
            Some(DbValue::Stream(log)) => log.after(start),
            _ => {
                let found: Vec<StreamItem> = Vec::new();
                found
            },
        }
    }

    /// Copies of the records of the stream at `key` whose identifier is
    /// greater than `start`: none where the key holds no stream. Refused where
    /// `start` is no identifier.
    pub fn xread(&mut self, key: &str, start: &str) -> (r: Result<Vec<StreamItem>, DbError>)
        requires
            old(self).wf(),
        ensures
            final(self).wf(),
            final(self)@ == old(self)@.observed(key@),
            match r {
                Ok(found) => parse_id(start@) is Some && items_view(found@) == newer_than(
                    old(self)@.stream(key@),
                    parse_id(start@)->0,
                ),
                Err(e) => parse_id(start@) is None && e@ == DbErrorView::InvalidIdFormat(start@),
            },
    {
        match StreamId::parse(start) {
            Some(from) => Ok(self.xread_after(key, &from)),
            None => {
                self.observe(key);
                Err(DbError::InvalidIdFormat(start.to_owned()))
            },
        }
    }
}

} // verus!
