//! Stream records and the append-only log that one key holds.

use vstd::prelude::*;
use vstd::string::*;
use crate::error::{DbError, DbErrorView};
use crate::resp::{lemma_array_view, view_of, views, RespValue, RespView};
use crate::stream::StreamId;

verus! {

/// Field names and values as text.
pub type Fields = Seq<(Seq<char>, Seq<char>)>;

/// The mathematical value of a record.
pub struct ItemView {
    pub id: StreamId,
    pub fields: Fields,
}

/// The texts of a run of string pairs.
pub open spec fn pairs_view(pairs: Seq<(String, String)>) -> Fields {
    Seq::new(pairs.len(), |i: int| (pairs[i].0@, pairs[i].1@))
}

/// Position of the first field called `name`, or the number of fields.
pub open spec fn position(fields: Fields, name: Seq<char>) -> int
    decreases fields.len(),
{
    if fields.len() == 0 {
        0
    } else if fields[0].0 == name {
        0
    } else {
        1 + position(fields.drop_first(), name)
    }
}

/// `fields` with `name` set to `value`: in place where the name is known, at
/// the end where it is new.
pub open spec fn put(fields: Fields, name: Seq<char>, value: Seq<char>) -> Fields {
    let at = position(fields, name);
    if at < fields.len() {
        fields.update(at, (name, value))
    } else {
        fields.push((name, value))
    }
}

/// The fields of a record assembled from the pairs of a request: a later pair
/// replaces the value of an earlier one of the same name.
pub open spec fn assemble(pairs: Fields) -> Fields
    decreases pairs.len(),
{
    if pairs.len() == 0 {
        Seq::empty()
    } else {
        put(assemble(pairs.drop_last()), pairs.last().0, pairs.last().1)
    }
}

/// No two fields have the same name.
pub open spec fn distinct_names(fields: Fields) -> bool {
    forall|i: int, j: int|
        0 <= i < fields.len() && 0 <= j < fields.len() && i != j ==> (#[trigger] fields[i]).0 != (
        #[trigger] fields[j]).0
}

/// `position` is within bounds, names a field of that name, and no field
/// before it has the name.
pub proof fn lemma_position(fields: Fields, name: Seq<char>)
    ensures
        0 <= position(fields, name) <= fields.len(),
        position(fields, name) < fields.len() ==> fields[position(fields, name)].0 == name,
        forall|j: int| 0 <= j < position(fields, name) ==> (#[trigger] fields[j]).0 != name,
    decreases fields.len(),
{
    if fields.len() > 0 && fields[0].0 != name {
        lemma_position(fields.drop_first(), name);
        assert forall|j: int| 0 <= j < position(fields, name) implies (#[trigger] fields[j]).0
            != name by {
            if j > 0 {
                assert(fields.drop_first()[j - 1] == fields[j]);
            }
        }
    }
}

/// A position that holds `name` with no such field before it is the first.
pub proof fn lemma_position_is(fields: Fields, name: Seq<char>, at: int)
    requires
        0 <= at <= fields.len(),
        at < fields.len() ==> fields[at].0 == name,
        forall|j: int| 0 <= j < at ==> (#[trigger] fields[j]).0 != name,
    ensures
        position(fields, name) == at,
    decreases fields.len(),
{
    if fields.len() > 0 && at > 0 {
        lemma_position_is(fields.drop_first(), name, at - 1);
    }
}

/// Setting a field keeps the names distinct.
pub proof fn lemma_put_distinct(fields: Fields, name: Seq<char>, value: Seq<char>)
    requires
        distinct_names(fields),
    ensures
        distinct_names(put(fields, name, value)),
{
    lemma_position(fields, name);
    let at = position(fields, name);
    let after = put(fields, name, value);
}

/// Assembled fields have distinct names.
pub proof fn lemma_assemble_distinct(pairs: Fields)
    ensures
        distinct_names(assemble(pairs)),
    decreases pairs.len(),
{
    if pairs.len() > 0 {
        lemma_assemble_distinct(pairs.drop_last());
        lemma_put_distinct(assemble(pairs.drop_last()), pairs.last().0, pairs.last().1);
    }
}

/// The fields of a record from the pairs of a request, the last value of a
/// name winning.
pub fn assemble_fields(pairs: &Vec<(String, String)>) -> (fields: Vec<(String, String)>)
    ensures
        pairs_view(fields@) == assemble(pairs_view(pairs@)),
        distinct_names(pairs_view(fields@)),
{
    let mut fields: Vec<(String, String)> = Vec::new();
    let mut i: usize = 0;
    while i < pairs.len()
        invariant
            i <= pairs.len(),
            pairs_view(fields@) == assemble(pairs_view(pairs@).subrange(0, i as int)),
        decreases pairs.len() - i,
    {
        let ghost before = pairs_view(fields@);
        let name = pairs[i].0.clone();
        let value = pairs[i].1.clone();
        let mut at: usize = 0;
        while at < fields.len() && !(fields[at].0 == name)
            invariant
                at <= fields.len(),
                forall|j: int| 0 <= j < at ==> (#[trigger] pairs_view(fields@)[j]).0 != name@,
            decreases fields.len() - at,
        {
            at = at + 1;
        }
        proof {
            lemma_position_is(before, name@, at as int);
            let upto = pairs_view(pairs@).subrange(0, i + 1);
            assert(upto.drop_last() =~= pairs_view(pairs@).subrange(0, i as int));
        }
        if at < fields.len() {
            fields.set(at, (name, value));
        } else {
            fields.push((name, value));
        }
        i = i + 1;
    }
    proof {
        assert(pairs_view(pairs@).subrange(0, i as int) =~= pairs_view(pairs@));
        lemma_assemble_distinct(pairs_view(pairs@));
    }
    fields
}

/// One record of a stream.
#[derive(Debug, PartialEq, Eq)]
pub struct StreamItem {
    pub id: StreamId,
    pub values: Vec<(String, String)>,
}

impl View for StreamItem {
    type V = ItemView;

    open spec fn view(&self) -> ItemView {
        ItemView { id: self.id, fields: pairs_view(self.values@) }
    }
}

/// The fields of a record as protocol values: name, value, name, value, ...
pub open spec fn field_resps(fields: Fields) -> Seq<RespView> {
    Seq::new(
        2 * fields.len(),
        |i: int|
            if i % 2 == 0 {
                RespView::BulkString(fields[i / 2].0)
            } else {
                RespView::BulkString(fields[i / 2].1)
            },
    )
}

/// A record as a protocol value: its identifier, then its fields.
pub open spec fn item_resp(item: ItemView) -> RespView {
    RespView::Array(
        seq![RespView::BulkString(item.id.text()), RespView::Array(field_resps(item.fields))],
    )
}

/// Records as protocol values, in order.
pub open spec fn item_resps(items: Seq<ItemView>) -> Seq<RespView> {
    Seq::new(items.len(), |i: int| item_resp(items[i]))
}

impl Clone for StreamItem {
    fn clone(&self) -> (copy: Self)
        ensures
            copy@ == self@,
    {
        let mut values: Vec<(String, String)> = Vec::new();
        let mut i: usize = 0;
        while i < self.values.len()
            invariant
                i <= self.values.len(),
                values.len() == i,
                forall|j: int|
                    0 <= j < i ==> (#[trigger] values[j]).0@ == self.values[j].0@ && values[j].1@
                        == self.values[j].1@,
            decreases self.values.len() - i,
        {
            values.push((self.values[i].0.clone(), self.values[i].1.clone()));
            i = i + 1;
        }
        assert(pairs_view(values@) =~= pairs_view(self.values@));
        StreamItem { id: self.id, values }
    }
}

impl StreamItem {
    /// The record as a protocol value.
    pub fn to_resp(&self) -> (resp: RespValue)
        ensures
            resp@ == item_resp(self@),
    {
        let mut flat: Vec<RespValue> = Vec::new();
        let mut i: usize = 0;
        while i < self.values.len()
            invariant
                i <= self.values.len(),
                flat.len() == 2 * i,
                forall|j: int|
                    0 <= j < 2 * i ==> view_of(#[trigger] flat[j]) == field_resps(self@.fields)[j],
            decreases self.values.len() - i,
        {
            flat.push(RespValue::BulkString(self.values[i].0.clone()));
            flat.push(RespValue::BulkString(self.values[i].1.clone()));
            i = i + 1;
        }
        proof {
            lemma_array_view(flat);
            assert(views(flat@) =~= field_resps(self@.fields));
        }
        let fields = RespValue::Array(flat);
        let id = RespValue::BulkString(self.id.to_text());
        let mut parts: Vec<RespValue> = Vec::new();
        parts.push(id);
        parts.push(fields);
        proof {
            lemma_array_view(parts);
            assert(views(parts@) =~= item_resp(self@)->Array_0);
        }
        RespValue::Array(parts)
    }
}

/// The append-only log of one stream key.
#[derive(Debug, PartialEq, Eq)]
pub struct StreamList {
    items: Vec<StreamItem>,
}

/// The identifiers rise strictly, none is `0-0`, and no record names a field
/// twice.
pub open spec fn stream_wf(items: Seq<ItemView>) -> bool {
    &&& forall|i: int, j: int|
        0 <= i < j < items.len() ==> (#[trigger] items[i]).id.lt((#[trigger] items[j]).id)
    &&& forall|i: int| 0 <= i < items.len() ==> !(#[trigger] items[i]).id.is_zero()
    &&& forall|i: int| 0 <= i < items.len() ==> distinct_names((#[trigger] items[i]).fields)
}

/// The records of `items` whose identifier lies in `start..=end`, in order.
pub open spec fn within(items: Seq<ItemView>, start: StreamId, end: StreamId) -> Seq<ItemView>
    decreases items.len(),
{
    if items.len() == 0 {
        Seq::empty()
    } else if start.le(items.last().id) && items.last().id.le(end) {
        within(items.drop_last(), start, end).push(items.last())
    } else {
        within(items.drop_last(), start, end)
    }
}

/// The records of `items` whose identifier is greater than `start`, in order.
pub open spec fn newer_than(items: Seq<ItemView>, start: StreamId) -> Seq<ItemView>
    decreases items.len(),
{
    if items.len() == 0 {
        Seq::empty()
    } else if start.lt(items.last().id) {
        newer_than(items.drop_last(), start).push(items.last())
    } else {
        newer_than(items.drop_last(), start)
    }
}

/// Whether `id` lies below `bound`: strictly, or with `bound` itself counted
/// in where `strict` is set.
pub open spec fn below(id: StreamId, bound: StreamId, strict: bool) -> bool {
    if strict {
        id.le(bound)
    } else {
        id.lt(bound)
    }
}

/// In a log whose first `lo` records lie below `start` and whose first `hi`
/// records lie at or below `end`, and no others, the records within
/// `start..=end` are those at positions `lo..hi`.
pub proof fn lemma_within_is_subrange(
    items: Seq<ItemView>,
    start: StreamId,
    end: StreamId,
    lo: int,
    hi: int,
)
    requires
        0 <= lo <= items.len(),
        0 <= hi <= items.len(),
        forall|i: int| 0 <= i < lo ==> (#[trigger] items[i]).id.lt(start),
        forall|i: int| lo <= i < items.len() ==> !(#[trigger] items[i]).id.lt(start),
        forall|i: int| 0 <= i < hi ==> (#[trigger] items[i]).id.le(end),
        forall|i: int| hi <= i < items.len() ==> !(#[trigger] items[i]).id.le(end),
    ensures
        within(items, start, end) == (if lo < hi {
            items.subrange(lo, hi)
        } else {
            Seq::empty()
        }),
    decreases items.len(),
{
    if items.len() > 0 {
        let n = items.len() as int;
        let rest = items.drop_last();
        let lo2 = if lo < n {
            lo
        } else {
            n - 1
        };
        let hi2 = if hi < n {
            hi
        } else {
            n - 1
        };
        lemma_within_is_subrange(rest, start, end, lo2, hi2);
        let last = items[n - 1];
    }
}

/// In a log whose first `lo` records lie at or below `start`, and no others,
/// the records beyond `start` are those from position `lo` on.
pub proof fn lemma_newer_is_tail(items: Seq<ItemView>, start: StreamId, lo: int)
    requires
        0 <= lo <= items.len(),
        forall|i: int| 0 <= i < lo ==> (#[trigger] items[i]).id.le(start),
        forall|i: int| lo <= i < items.len() ==> !(#[trigger] items[i]).id.le(start),
    ensures
        newer_than(items, start) == items.subrange(lo, items.len() as int),
    decreases items.len(),
{
    if items.len() > 0 {
        let n = items.len() as int;
        let rest = items.drop_last();
        let lo2 = if lo < n {
            lo
        } else {
            n - 1
        };
        lemma_newer_is_tail(rest, start, lo2);
        let last = items[n - 1];
    }
}

/// The identifier of the last record, if there is one.
pub open spec fn last_id_of(items: Seq<ItemView>) -> Option<StreamId> {
    if items.len() == 0 {
        None
    } else {
        Some(items.last().id)
    }
}

/// What appending a record with identifier `id` to `items` is refused with,
/// if it is refused.
pub open spec fn append_refusal(items: Seq<ItemView>, id: StreamId) -> Option<DbErrorView> {
    if id.is_zero() {
        Some(DbErrorView::StreamIdZero)
    } else if items.len() > 0 && !items.last().id.lt(id) {
        Some(DbErrorView::StreamIdNotGreater)
    } else {
        None
    }
}

/// The views of a run of records, in order.
pub open spec fn items_view(items: Seq<StreamItem>) -> Seq<ItemView> {
    Seq::new(items.len(), |i: int| items[i]@)
}

impl View for StreamList {
    type V = Seq<ItemView>;

    closed spec fn view(&self) -> Seq<ItemView> {
        items_view(self.items@)
    }
}

impl Clone for StreamList {
    fn clone(&self) -> (copy: Self)
        ensures
            copy@ == self@,
    {
        let items = copy_items(&self.items, 0, self.items.len());
        StreamList { items }
    }
}

/// Copies of the records at positions `from..to`.
fn copy_items(items: &Vec<StreamItem>, from: usize, to: usize) -> (copy: Vec<StreamItem>)
    requires
        from <= to <= items.len(),
    ensures
        items_view(copy@) == items_view(items@).subrange(from as int, to as int),
{
    let mut copy: Vec<StreamItem> = Vec::new();
    let mut i: usize = from;
    while i < to
        invariant
            from <= i <= to <= items.len(),
            copy.len() == i - from,
            forall|j: int| 0 <= j < i - from ==> (#[trigger] copy[j])@ == items[from + j]@,
        decreases to - i,
    {
        copy.push(items[i].clone());
        i = i + 1;
    }
    copy
}

impl StreamList {
    /// Whether the log keeps its order: see [`stream_wf`].
    pub open spec fn wf(&self) -> bool {
        stream_wf(self@)
    }

    /// An empty log.
    pub fn new() -> (log: StreamList)
        ensures
            log@ == Seq::<ItemView>::empty(),
            log.wf(),
    {
        let log = StreamList { items: Vec::new() };
        log
    }

    /// Number of records.
    pub fn len(&self) -> (n: usize)
        ensures
            n == self@.len(),
    {
        self.items.len()
    }

    /// The first record.
    pub fn first(&self) -> (item: Option<&StreamItem>)
        ensures
            match item {
                Some(it) => self@.len() > 0 && it@ == self@[0],
                None => self@.len() == 0,
            },
    {
        if self.items.len() == 0 {
            None
        } else {
            Some(&self.items[0])
        }
    }

    /// The last record.
    pub fn last(&self) -> (item: Option<&StreamItem>)
        ensures
            match item {
                Some(it) => self@.len() > 0 && it@ == self@.last(),
                None => self@.len() == 0,
            },
    {
        if self.items.len() == 0 {
            None
        } else {
            Some(&self.items[self.items.len() - 1])
        }
    }

    /// The identifier of the last record.
    pub fn last_id(&self) -> (id: Option<StreamId>)
        ensures
            id == last_id_of(self@),
    {
        if self.items.len() == 0 {
            None
        } else {
            Some(self.items[self.items.len() - 1].id)
        }
    }

    /// Appends a record with identifier `id` and the fields assembled from
    /// `pairs`, unless `id` is `0-0` or does not exceed the last identifier.
    pub fn append(&mut self, id: StreamId, pairs: &Vec<(String, String)>) -> (r: Result<
        (),
        DbError,
    >)
        requires
            old(self).wf(),
        ensures
            final(self).wf(),
            match r {
                Ok(()) => append_refusal(old(self)@, id) is None && final(self)@ == old(self)@.push(
                    ItemView { id, fields: assemble(pairs_view(pairs@)) },
                ),
                Err(e) => append_refusal(old(self)@, id) == Some(e@) && final(self)@ == old(
                    self,
                )@,
            },
    {
        if id.ms == 0 && id.seq == 0 {
            return Err(DbError::StreamIdZero);
        }
        let n = self.items.len();
        if n > 0 && !self.items[n - 1].id.is_before(&id) {
            return Err(DbError::StreamIdNotGreater);
        }
        let values = assemble_fields(pairs);
        let ghost before = self@;
        let ghost item = ItemView { id, fields: assemble(pairs_view(pairs@)) };
        self.items.push(StreamItem { id, values });
        assert(self@ =~= before.push(item));
        Ok(())
    }

    /// Position of the first record whose identifier is `bound` or greater
    /// (`strict` not set), or greater than `bound` (`strict` set): the number
    /// of records below that. Found by bisection, since the identifiers rise.
    fn bound_index(&self, bound: &StreamId, strict: bool) -> (at: usize)
        requires
            self.wf(),
        ensures
            at <= self@.len(),
            forall|i: int| 0 <= i < at ==> below((#[trigger] self@[i]).id, *bound, strict),
            forall|i: int| at <= i < self@.len() ==> !below((#[trigger] self@[i]).id, *bound, strict),
    {
        let mut lo: usize = 0;
        let mut hi: usize = self.items.len();
        while lo < hi
            invariant
                self.wf(),
                lo <= hi <= self@.len(),
                forall|i: int| 0 <= i < lo ==> below((#[trigger] self@[i]).id, *bound, strict),
                forall|i: int|
                    hi <= i < self@.len() ==> !below((#[trigger] self@[i]).id, *bound, strict),
            decreases hi - lo,
        {
            let mid = lo + (hi - lo) / 2;
            let id = &self.items[mid].id;
            let is_below = if strict {
                !bound.is_before(id)
            } else {
                id.is_before(bound)
            };
            if is_below {
                assert forall|i: int| 0 <= i < mid + 1 implies below(
                    (#[trigger] self@[i]).id,
                    *bound,
                    strict,
                ) by {
                    if i < mid {
                        assert(self@[i].id.lt(self@[mid as int].id));
                    }
                }
                lo = mid + 1;
            } else {
                assert forall|i: int| mid <= i < self@.len() implies !below(
                    (#[trigger] self@[i]).id,
                    *bound,
                    strict,
                ) by {
                    if i > mid {
                        assert(self@[mid as int].id.lt(self@[i].id));
                    }
                }
                hi = mid;
            }
        }
        lo
    }

    /// Copies of the records whose identifier lies in `start..=end`: those
    /// from the first record at or above `start` to the last record at or
    /// below `end`.
    pub fn range(&self, start: &StreamId, end: &StreamId) -> (found: Vec<StreamItem>)
        requires
            self.wf(),
        ensures
            items_view(found@) == within(self@, *start, *end),
    {
        let lo = self.bound_index(start, false);
        let hi = self.bound_index(end, true);
        proof {
            lemma_within_is_subrange(self@, *start, *end, lo as int, hi as int);
        }
        if lo < hi {
            let found = copy_items(&self.items, lo, hi);
            found
        } else {
            let found: Vec<StreamItem> = Vec::new();
            found
        }
    }

    /// Copies of the records whose identifier is greater than `start`.
    pub fn after(&self, start: &StreamId) -> (found: Vec<StreamItem>)
        requires
            self.wf(),
        ensures
            items_view(found@) == newer_than(self@, *start),
    {
        let lo = self.bound_index(start, true);
        proof {
            lemma_newer_is_tail(self@, *start, lo as int);
        }
        let found = copy_items(&self.items, lo, self.items.len());
        found
    }
}

} // verus!
