//! What holds of the engine as a whole, proved from the contracts of its
//! parts.

use vstd::prelude::*;
use crate::blocking::{
    kept, lemma_kept_flags, survivors, targeted, waiters_on, without, WaiterView,
};
use crate::commands::{CommandView, StartView};
use crate::db::{kind_name, range_of, Db, DbView, ValueView, NANOS_PER_MILLI};
use crate::executor::{
    bulks, executed, observed_all, pair, read_reply, resumed, OutcomeView, ParkedView,
};
use crate::resp::RespView;
use crate::error::DbErrorView;
use crate::stream::{derive_id, parse_id, StreamId};
use crate::stream_types::{
    assemble, last_id_of, lemma_assemble_distinct, newer_than, Fields, ItemView,
};
use crate::text::{
    decimal, lemma_decimal_reads_back, lemma_first_index_is, lemma_parse_decimal,
};

verus! {

/// In every stream that the engine holds, a later record has a greater
/// identifier than an earlier one, and no record has the identifier `0-0`.
pub proof fn law_stream_ids_increase(db: &Db, key: Seq<char>, i: int, j: int)
    requires
        db.wf(),
        db@.values.contains_key(key),
        db@.values[key] is Stream,
        0 <= i < j < db@.values[key]->Stream_0.len(),
    ensures
        db@.values[key]->Stream_0[i].id.lt(db@.values[key]->Stream_0[j].id),
        !db@.values[key]->Stream_0[i].id.is_zero(),
        !db@.values[key]->Stream_0[j].id.is_zero(),
{
    db.lemma_wf();
}

/// Looking at keys keeps a consistent engine consistent.
pub proof fn lemma_observed_all_wf(d: DbView, streams: Seq<(Seq<char>, StartView)>)
    requires
        d.wf(),
    ensures
        observed_all(d, streams).wf(),
        observed_all(d, streams).clock == d.clock,
    decreases streams.len(),
{
    if streams.len() > 0 {
        lemma_observed_all_wf(d, streams.drop_last());
    }
}

/// No command breaks the order of a stream: the first step of any command
/// takes a consistent engine to a consistent engine, in which the identifiers
/// of every stream rise strictly and none is `0-0`.
pub proof fn law_commands_keep_streams_ordered(
    command: CommandView,
    d: DbView,
    now_ms: Option<u128>,
    d2: DbView,
    out: OutcomeView,
)
    requires
        d.wf(),
        executed(command, d, now_ms, d2, out),
    ensures
        d2.wf(),
{
    match command {
        CommandView::Xadd { key, id, field_value_pairs } => {
            lemma_assemble_distinct(field_value_pairs);
            if let Ok(new_id) = derive_id(id, last_id_of(d.stream(key)), now_ms) {
                if d.append_refusal(key, new_id) is None {
                    let item = ItemView { id: new_id, fields: assemble(field_value_pairs) };
                    let before = d.stream(key);
                    let after = before.push(item);
                }
            }
        },
        CommandView::Xread { streams, duration } => {
            lemma_observed_all_wf(d, streams);
        },
        _ => {},
    }
}

/// Nor does the second step of a parked client.
pub proof fn law_resuming_keeps_streams_ordered(
    ticket: ParkedView,
    d: DbView,
    d2: DbView,
    reply: RespView,
)
    requires
        d.wf(),
        resumed(ticket, d, d2, reply),
    ensures
        d2.wf(),
{
}

/// An identifier that was written is read back: the written form of `id`
/// parses to `id`.
pub proof fn law_identifier_reads_back(id: StreamId)
    ensures
        parse_id(id.text()) == Some(id),
{
    let ms = decimal(id.ms as nat);
    let seq = decimal(id.seq as nat);
    let text = id.text();
    lemma_decimal_reads_back(id.ms as nat);
    lemma_decimal_reads_back(id.seq as nat);
    lemma_parse_decimal(id.ms as nat, u128::MAX as nat);
    lemma_parse_decimal(id.seq as nat, u64::MAX as nat);
    lemma_first_index_is(text, '-', ms.len() as int);
    assert(text.subrange(0, ms.len() as int) =~= ms);
    assert(text.subrange(ms.len() as int + 1, text.len() as int) =~= seq);
}

/// `TYPE` names the kind of the value that is stored under the key, and
/// leaves it as it is.
pub proof fn law_type_names_stored_kind(
    d: DbView,
    key: Seq<char>,
    now_ms: Option<u128>,
    d2: DbView,
    out: OutcomeView,
)
    requires
        executed(CommandView::Type { key }, d, now_ms, d2, out),
    ensures
        out == OutcomeView::Reply(RespView::SimpleString(kind_name(d.value(key)))),
        d2.value(key) == d.value(key),
{
}

/// A write decides the kind of the value under its key: after `SET` without
/// a time to live it is an atom, after an accepted push a list, after an
/// accepted `XADD` a stream; a refused write leaves the value as it was.
pub proof fn law_writes_decide_kind(
    command: CommandView,
    d: DbView,
    now_ms: Option<u128>,
    d2: DbView,
    out: OutcomeView,
)
    requires
        executed(command, d, now_ms, d2, out),
    ensures
        match command {
            CommandView::SetValue { key, value, expiry_millis } => expiry_millis is None
                ==> d2.value(key) == Some(ValueView::Atom(value)),
            CommandView::Rpush { key, values } => if out matches OutcomeView::Reply(
                RespView::Integer(_),
            ) {
                d2.value(key) == Some(ValueView::List(d.list(key) + values))
            } else {
                d2.value(key) == d.value(key)
            },
            CommandView::Lpush { key, values } => if out matches OutcomeView::Reply(
                RespView::Integer(_),
            ) {
                d2.value(key) == Some(ValueView::List(values.reverse() + d.list(key)))
            } else {
                d2.value(key) == d.value(key)
            },
            CommandView::Xadd { key, id, field_value_pairs } => if out matches OutcomeView::Reply(
                RespView::BulkString(_),
            ) {
                d2.value(key) matches Some(ValueView::Stream(items)) && items.len() == d.stream(
                    key,
                ).len() + 1 && items.subrange(0, items.len() - 1) == d.stream(key)
            } else {
                d2.value(key) == d.value(key)
            },
            _ => true,
        },
{
    match command {
        CommandView::Xadd { key, id, field_value_pairs } => {
            if out matches OutcomeView::Reply(RespView::BulkString(_)) {
                let items = d2.value(key)->0->Stream_0;
            }
        },
        _ => {},
    }
}

/// After `SET key value PX millis`, a `GET key` answers `value` as long as
/// the clock reads less than `millis` milliseconds more than at the `SET`,
/// and null from then on.
pub proof fn law_get_after_set_with_expiry(
    d: DbView,
    key: Seq<char>,
    value: Seq<char>,
    millis: u64,
    now: u128,
    d1: DbView,
    out1: OutcomeView,
    d2: DbView,
    out2: OutcomeView,
)
    requires
        d.wf(),
        executed(
            CommandView::SetValue { key, value, expiry_millis: Some(millis) },
            d,
            None,
            d1,
            out1,
        ),
        executed(CommandView::Get { key }, d1.advanced(now), None, d2, out2),
    ensures
        out2 == OutcomeView::Reply(
            if d1.advanced(now).clock < d.clock + millis * NANOS_PER_MILLI {
                RespView::BulkString(value)
            } else {
                RespView::NullBulkString
            },
        ),
{
}

/// After `LPUSH key values` on a key that holds a list or nothing,
/// `LRANGE key 0 -1` answers the values in reverse, followed by what the
/// list held before.
pub proof fn law_lrange_after_lpush(
    d: DbView,
    key: Seq<char>,
    values: Seq<Seq<char>>,
    d1: DbView,
    out1: OutcomeView,
    d2: DbView,
    out2: OutcomeView,
)
    requires
        d.push_refusal(key) is None,
        executed(CommandView::Lpush { key, values }, d, None, d1, out1),
        executed(CommandView::Lrange { key, start: 0isize, stop: (-1) as isize }, d1, None, d2, out2),
    ensures
        out2 == OutcomeView::Reply(RespView::Array(bulks(values.reverse() + d.list(key)))),
{
    let list = values.reverse() + d.list(key);
    assert(range_of(list, 0, -1) =~= list);
}

/// What `kept` keeps was there before: each waiter of the result is a waiter
/// of the registry.
pub proof fn lemma_kept_within(waiters: Seq<WaiterView>, keep: Seq<bool>, i: int)
    requires
        0 <= i < kept(waiters, keep).len(),
    ensures
        exists|j: int| 0 <= j < waiters.len() && keep[j] && #[trigger] waiters[j] == kept(
            waiters,
            keep,
        )[i],
    decreases waiters.len(),
{
    if waiters.len() > 0 {
        let rest = kept(waiters.drop_last(), keep);
        if i < rest.len() {
            lemma_kept_within(waiters.drop_last(), keep, i);
            let j = choose|j: int|
                0 <= j < waiters.drop_last().len() && keep[j] && #[trigger] waiters.drop_last()[j]
                    == rest[i];
        }
    }
}

/// Where every flag is set, `kept` keeps everything.
pub proof fn lemma_kept_all(waiters: Seq<WaiterView>, keep: Seq<bool>)
    requires
        forall|i: int| 0 <= i < waiters.len() ==> keep[i],
    ensures
        kept(waiters, keep) == waiters,
    decreases waiters.len(),
{
    if waiters.len() > 0 {
        lemma_kept_all(waiters.drop_last(), keep);
    }
}

/// Each key has its own queue, in the order of parking: a client that parks
/// goes to the end of the queue of its key and leaves the other queues as
/// they are.
pub proof fn law_queues_keep_parking_order(waiters: Seq<WaiterView>, parked: WaiterView, key: Seq<char>)
    ensures
        waiters_on(waiters.push(parked), key) == (if parked.key == key {
            waiters_on(waiters, key).push(parked)
        } else {
            waiters_on(waiters, key)
        }),
{
    let longer = waiters.push(parked);
    assert(longer.drop_last() =~= waiters);
    lemma_kept_flags(
        waiters,
        Seq::new(longer.len(), |i: int| longer[i].key == key),
        Seq::new(waiters.len(), |i: int| waiters[i].key == key),
    );
}

/// Whether no waiter called `id` is parked on `key`.
pub open spec fn absent(waiters: Seq<WaiterView>, id: Seq<char>, key: Seq<char>) -> bool {
    forall|i: int| 0 <= i < waiters.len() ==> !((#[trigger] waiters[i]).id == id && waiters[i].key
        == key)
}

/// A waiter leaves the registry at most once. Once it was removed it is
/// absent; removing an absent waiter changes nothing, so a second removal
/// changes nothing; and a waiter that is absent stays absent through any
/// notification, whatever its deliveries come to.
pub proof fn law_waiter_leaves_once(
    waiters: Seq<WaiterView>,
    id: Seq<char>,
    key: Seq<char>,
    notified_key: Seq<char>,
    list: bool,
    delivered: Seq<bool>,
)
    ensures
        absent(without(waiters, id, key), id, key),
        absent(waiters, id, key) ==> without(waiters, id, key) == waiters,
        without(without(waiters, id, key), id, key) == without(waiters, id, key),
        absent(waiters, id, key) ==> absent(
            survivors(waiters, notified_key, list, delivered),
            id,
            key,
        ),
{
    let gone = without(waiters, id, key);
    let flags = Seq::new(waiters.len(), |i: int| !(waiters[i].id == id && waiters[i].key == key));
    assert forall|i: int| 0 <= i < gone.len() implies !((#[trigger] gone[i]).id == id && gone[i].key
        == key) by {
        lemma_kept_within(waiters, flags, i);
    }
    if absent(waiters, id, key) {
        lemma_kept_all(waiters, flags);
        let after = survivors(waiters, notified_key, list, delivered);
        let sent = Seq::new(
            waiters.len(),
            |i: int| !targeted(waiters[i], notified_key, list) || delivered[i],
        );
        assert forall|i: int| 0 <= i < after.len() implies !((#[trigger] after[i]).id == id
            && after[i].key == key) by {
            lemma_kept_within(waiters, sent, i);
        }
    }
    let again = Seq::new(gone.len(), |i: int| !(gone[i].id == id && gone[i].key == key));
    lemma_kept_all(gone, again);
}

/// A consumer that wakes after a push finds the data: once `RPUSH key
/// values` with at least one value was accepted, the second step of a client
/// parked on `key` as a list consumer answers the element at the head of the
/// list, which is the first of `values` where the list was empty before.
pub proof fn law_woken_consumer_finds_push(
    d: DbView,
    key: Seq<char>,
    values: Seq<Seq<char>>,
    d1: DbView,
    out1: OutcomeView,
    ticket: ParkedView,
    d2: DbView,
    reply: RespView,
)
    requires
        values.len() > 0,
        executed(CommandView::Rpush { key, values }, d, None, d1, out1),
        out1 matches OutcomeView::Reply(RespView::Integer(_)),
        ticket.key == key,
        ticket.start is None,
        resumed(ticket, d1, d2, reply),
    ensures
        reply == pair(RespView::BulkString(key), RespView::BulkString((d.list(key) + values)[0])),
        d.list(key).len() == 0 ==> reply == pair(
            RespView::BulkString(key),
            RespView::BulkString(values[0]),
        ),
{
}

/// A reader that wakes after an append finds the record: once an `XADD` to
/// `key` was accepted with the identifier `id`, the second step of a client
/// parked on `key` as a reader from an identifier below `id` answers records,
/// the last of which is the new one.
pub proof fn law_woken_reader_finds_append(
    d: DbView,
    key: Seq<char>,
    requested: Seq<char>,
    pairs: Fields,
    now_ms: Option<u128>,
    id: StreamId,
    d1: DbView,
    out1: OutcomeView,
    ticket: ParkedView,
    d2: DbView,
    reply: RespView,
)
    requires
        executed(
            CommandView::Xadd { key, id: requested, field_value_pairs: pairs },
            d,
            now_ms,
            d1,
            out1,
        ),
        out1 == OutcomeView::Reply(RespView::BulkString(id.text())),
        derive_id(requested, last_id_of(d.stream(key)), now_ms) == Ok::<StreamId, DbErrorView>(id),
        ticket.key == key,
        ticket.start matches Some(start) && start.lt(id),
        resumed(ticket, d1, d2, reply),
    ensures
        reply == read_reply(
            key,
            newer_than(d.stream(key), ticket.start->0).push(
                ItemView { id, fields: assemble(pairs) },
            ),
        ),
        reply != RespView::NullArray,
{
    let item = ItemView { id, fields: assemble(pairs) };
    let after = d.stream(key).push(item);
    assert(after.drop_last() =~= d.stream(key));
}

} // verus!
