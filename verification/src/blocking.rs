//! The registry of clients that wait for data, and how writers wake them.

use vstd::prelude::*;
use vstd::string::*;
use tokio::sync::mpsc::Sender;
use uuid::Uuid;
use crate::stream::StreamId;
use crate::stream_types::StreamItem;
use crate::text::same_text;

verus! {

/// `tokio::sync::mpsc::Sender`: the sending half of a bounded channel. The
/// engine holds it and hands it to `try_send`; nothing is known of what is
/// inside.
#[verifier::external_type_specification]
#[verifier::external_body]
#[verifier::reject_recursive_types(T)]
pub struct ExSender<T>(Sender<T>);

/// What a waiting stream reader is sent: the key and the new record.
#[derive(Debug)]
pub struct StreamNotification {
    pub key: String,
    pub item: StreamItem,
}

/// What a waiting list consumer is sent: the key that was pushed to.
#[derive(Debug)]
pub struct ListNotification {
    pub key: String,
}

/// The sending half of the channel to a waiting client.
#[derive(Debug)]
pub enum ClientSender {
    Stream(Sender<StreamNotification>),
    List(Sender<ListNotification>),
}

/// What a waiting client waits for.
#[derive(Clone, Copy, Debug, PartialEq, Eq, Structural)]
pub enum WaiterKind {
    /// An element of a list.
    ListPop,
    /// Records of a stream beyond `start`.
    StreamRead { start: StreamId },
}

/// The mathematical value of a waiting client.
pub struct WaiterView {
    pub id: Seq<char>,
    pub key: Seq<char>,
    pub since: u128,
    pub kind: WaiterKind,
}

/// A client parked on a key.
#[derive(Debug)]
pub struct BlockedClient {
    id: String,
    key: String,
    blocked_since: u128,
    sender: ClientSender,
    xread_start: Option<StreamId>,
}

impl View for BlockedClient {
    type V = WaiterView;

    closed spec fn view(&self) -> WaiterView {
        WaiterView {
            id: self.id@,
            key: self.key@,
            since: self.blocked_since,
            kind: match self.sender {
                ClientSender::List(_) => WaiterKind::ListPop,
                ClientSender::Stream(_) => WaiterKind::StreamRead {
                    start: match self.xread_start {
                        Some(start) => start,
                        None => StreamId { ms: 0, seq: 0 },
                    },
                },
            },
        }
    }
}

/// The waiters of `waiters` whose flag in `keep` is set, in order.
pub open spec fn kept(waiters: Seq<WaiterView>, keep: Seq<bool>) -> Seq<WaiterView>
    decreases waiters.len(),
{
    if waiters.len() == 0 {
        Seq::empty()
    } else if keep[waiters.len() - 1] {
        kept(waiters.drop_last(), keep).push(waiters.last())
    } else {
        kept(waiters.drop_last(), keep)
    }
}

/// Whether a push to the list at `key` (`list`), or an append to the stream at
/// `key` (not `list`), concerns the waiter.
pub open spec fn targeted(w: WaiterView, key: Seq<char>, list: bool) -> bool {
    w.key == key && (w.kind is ListPop <==> list)
}

/// The registry after a notification on `key` whose attempts to deliver went
/// as `delivered` says, position by position: a targeted waiter stays only if
/// its delivery succeeded, every other waiter stays.
pub open spec fn survivors(
    waiters: Seq<WaiterView>,
    key: Seq<char>,
    list: bool,
    delivered: Seq<bool>,
) -> Seq<WaiterView> {
    kept(waiters, Seq::new(waiters.len(), |i: int| !targeted(waiters[i], key, list) || delivered[i]))
}

/// `after` is what a notification on `key` leaves of `before`, for some
/// outcome of the deliveries.
pub open spec fn notified(
    before: Seq<WaiterView>,
    after: Seq<WaiterView>,
    key: Seq<char>,
    list: bool,
) -> bool {
    exists|delivered: Seq<bool>|
        delivered.len() == before.len() && after == #[trigger] survivors(
            before,
            key,
            list,
            delivered,
        )
}

/// The registry without the waiters called `id` on `key`.
pub open spec fn without(waiters: Seq<WaiterView>, id: Seq<char>, key: Seq<char>) -> Seq<
    WaiterView,
> {
    kept(waiters, Seq::new(waiters.len(), |i: int| !(waiters[i].id == id && waiters[i].key == key)))
}

/// The waiters parked on `key`, in the order in which they were parked.
pub open spec fn waiters_on(waiters: Seq<WaiterView>, key: Seq<char>) -> Seq<WaiterView> {
    kept(waiters, Seq::new(waiters.len(), |i: int| waiters[i].key == key))
}

/// Only the flags of the positions of `waiters` matter to `kept`.
pub proof fn lemma_kept_flags(waiters: Seq<WaiterView>, a: Seq<bool>, b: Seq<bool>)
    requires
        forall|i: int| 0 <= i < waiters.len() ==> a[i] == b[i],
    ensures
        kept(waiters, a) == kept(waiters, b),
    decreases waiters.len(),
{
    if waiters.len() > 0 {
        lemma_kept_flags(waiters.drop_last(), a, b);
    }
}

/// A fresh identifier for a waiter: `Uuid::new_v4()` in its hyphenated form.
/// It is random, so nothing is claimed of it.
#[verifier::external_body]
fn fresh_client_id() -> (id: String) {
    Uuid::new_v4().to_string()
}

/// Offers a notification to a list consumer with `Sender::try_send`, which
/// never waits. The result says whether the channel took it; it did not if the
/// channel is full or its receiver is gone.
#[verifier::external_body]
fn offer_list(sender: &Sender<ListNotification>, note: ListNotification) -> (delivered: bool) {
    match sender.try_send(note) {
        Ok(()) => true,
        Err(_) => false,
    }
}

/// Offers a notification to a stream reader with `Sender::try_send`, which
/// never waits. The result says whether the channel took it; it did not if the
/// channel is full or its receiver is gone.
#[verifier::external_body]
fn offer_stream(sender: &Sender<StreamNotification>, note: StreamNotification) -> (delivered:
    bool) {
    match sender.try_send(note) {
        Ok(()) => true,
        Err(_) => false,
    }
}

/// The views of a run of waiters, in order.
pub open spec fn waiters_view(clients: Seq<BlockedClient>) -> Seq<WaiterView> {
    Seq::new(clients.len(), |i: int| clients[i]@)
}

/// The clients that wait, in the order in which they were parked.
#[derive(Debug)]
pub struct BlockingQueue {
    waiting_clients: Vec<BlockedClient>,
}

impl View for BlockingQueue {
    type V = Seq<WaiterView>;

    closed spec fn view(&self) -> Seq<WaiterView> {
        waiters_view(self.waiting_clients@)
    }
}

impl BlockingQueue {
    /// A registry in which nobody waits.
    pub fn new() -> (queue: Self)
        ensures
            queue@ == Seq::<WaiterView>::empty(),
    {
        let queue = Self { waiting_clients: Vec::new() };
        queue
    }

    /// Number of waiting clients.
    pub fn len(&self) -> (n: usize)
        ensures
            n == self@.len(),
    {
        self.waiting_clients.len()
    }

    /// Parks a reader of the stream at `key` that wants the records beyond
    /// `start`, at time `now`. Returns the identifier it is known by.
    pub fn add_blocked_xread_client(
        &mut self,
        key: String,
        start: StreamId,
        sender: Sender<StreamNotification>,
        now: u128,
    ) -> (client_id: String)
        ensures
            final(self)@ == old(self)@.push(
                WaiterView {
                    id: client_id@,
                    key: key@,
                    since: now,
                    kind: WaiterKind::StreamRead { start },
                },
            ),
    {
        let client_id = fresh_client_id();
        let client = BlockedClient {
            id: client_id.clone(),
            key,
            blocked_since: now,
            sender: ClientSender::Stream(sender),
            xread_start: Some(start),
        };
        self.waiting_clients.push(client);
        client_id
    }

    /// Parks a consumer of the list at `key`, at time `now`. Returns the
    /// identifier it is known by.
    pub fn add_blocked_lpop_client(
        &mut self,
        key: String,
        sender: Sender<ListNotification>,
        now: u128,
    ) -> (client_id: String)
        ensures
            final(self)@ == old(self)@.push(
                WaiterView { id: client_id@, key: key@, since: now, kind: WaiterKind::ListPop },
            ),
    {
        let client_id = fresh_client_id();
        let client = BlockedClient {
            id: client_id.clone(),
            key,
            blocked_since: now,
            sender: ClientSender::List(sender),
            xread_start: None,
        };
        self.waiting_clients.push(client);
        client_id
    }

    /// Keeps the waiters whose flag is set, in their order.
    fn retain_flagged(&mut self, keep: &Vec<bool>)
        requires
            keep.len() == old(self)@.len(),
        ensures
            final(self)@ == kept(old(self)@, keep@),
    {
        let ghost before = self@;
        let mut at: usize = 0;
        let mut seen: usize = 0;
        assert(self@ =~= kept(before.subrange(0, 0), keep@) + before.subrange(
            0,
            before.len() as int,
        ));
        while seen < keep.len()
            invariant
                keep.len() == before.len(),
                at <= seen <= keep.len(),
                at == kept(before.subrange(0, seen as int), keep@).len(),
                self@ == kept(before.subrange(0, seen as int), keep@) + before.subrange(
                    seen as int,
                    before.len() as int,
                ),
            decreases keep.len() - seen,
        {
            let ghost upto = before.subrange(0, seen + 1);
            assert(upto.drop_last() =~= before.subrange(0, seen as int));
            assert(self@.len() == at + (before.len() - seen));
            if keep[seen] {
                at = at + 1;
            } else {
                let ghost current = self@;
                self.waiting_clients.remove(at);
                assert(self@ =~= current.remove(at as int));
            }
            seen = seen + 1;
        }
    }

    /// Removes the waiter called `client_id` from the queue of `key`. Removing
    /// a waiter that is not there changes nothing.
    pub fn remove_blocked_client(&mut self, client_id: &str, key: &str)
        ensures
            final(self)@ == without(old(self)@, client_id@, key@),
    {
        let mut keep: Vec<bool> = Vec::new();
        let mut i: usize = 0;
        while i < self.waiting_clients.len()
            invariant
                i <= self.waiting_clients.len(),
                keep.len() == i,
                forall|j: int|
                    0 <= j < i ==> keep[j] == !(self@[j].id == client_id@ && self@[j].key == key@),
            decreases self.waiting_clients.len() - i,
        {
            let client = &self.waiting_clients[i];
            let hit = same_text(client.id.as_str(), client_id) && same_text(
                client.key.as_str(),
                key,
            );
            keep.push(!hit);
            i = i + 1;
        }
        proof {
            lemma_kept_flags(
                self@,
                keep@,
                Seq::new(self@.len(), |i: int| !(self@[i].id == client_id@ && self@[i].key == key@)),
            );
        }
        self.retain_flagged(&keep);
    }

    /// Removes the waiter called `client_id` from the queue of `key`.
    pub fn remove_blocked_xread_client(&mut self, client_id: &str, key: &str)
        ensures
            final(self)@ == without(old(self)@, client_id@, key@),
    {
        self.remove_blocked_client(client_id, key)
    }

    /// Drops the waiters that a notification on `key` could not reach:
    /// `delivered` says, position by position, whether the delivery succeeded.
    pub fn drop_undelivered(&mut self, key: &str, list: bool, delivered: &Vec<bool>)
        requires
            delivered.len() == old(self)@.len(),
        ensures
            final(self)@ == survivors(old(self)@, key@, list, delivered@),
    {
        let mut keep: Vec<bool> = Vec::new();
        let mut i: usize = 0;
        while i < self.waiting_clients.len()
            invariant
                i <= self.waiting_clients.len(),
                delivered.len() == self@.len(),
                keep.len() == i,
                forall|j: int|
                    0 <= j < i ==> keep[j] == (!targeted(self@[j], key@, list) || delivered[j]),
            decreases self.waiting_clients.len() - i,
        {
            let client = &self.waiting_clients[i];
            let is_list = match client.sender {
                ClientSender::List(_) => true,
                ClientSender::Stream(_) => false,
            };
            let hit = same_text(client.key.as_str(), key) && is_list == list;
            keep.push(!hit || delivered[i]);
            i = i + 1;
        }
        proof {
            lemma_kept_flags(
                self@,
                keep@,
                Seq::new(
                    self@.len(),
                    |i: int| !targeted(self@[i], key@, list) || delivered@[i],
                ),
            );
        }
        self.retain_flagged(&keep);
    }

    /// Tells the list consumers that wait on `key` that there is data. A
    /// consumer whose channel does not take the notification is dropped; the
    /// other waiters stay.
    pub fn notify_lpop_clients(&mut self, key: &str)
        ensures
            notified(old(self)@, final(self)@, key@, true),
    {
        let mut delivered: Vec<bool> = Vec::new();
        let mut i: usize = 0;
        while i < self.waiting_clients.len()
            invariant
                i <= self.waiting_clients.len(),
                delivered.len() == i,
            decreases self.waiting_clients.len() - i,
        {
            let client = &self.waiting_clients[i];
            let took = match &client.sender {
                ClientSender::List(sender) => {
                    if same_text(client.key.as_str(), key) {
                        offer_list(sender, ListNotification { key: key.to_owned() })
                    } else {
                        true
                    }
                },
                ClientSender::Stream(_) => true,
            };
            delivered.push(took);
            i = i + 1;
        }
        self.drop_undelivered(key, true, &delivered);
    }

    /// Sends the new record `item` of the stream at `key` to the readers that
    /// wait on it. A reader whose channel does not take the notification is
    /// dropped; the other waiters stay.
    pub fn notify_xread_clients(&mut self, key: &str, item: StreamItem)
        ensures
            notified(old(self)@, final(self)@, key@, false),
    {
        let mut delivered: Vec<bool> = Vec::new();
        let mut i: usize = 0;
        while i < self.waiting_clients.len()
            invariant
                i <= self.waiting_clients.len(),
                delivered.len() == i,
            decreases self.waiting_clients.len() - i,
        {
            let client = &self.waiting_clients[i];
            let took = match &client.sender {
                ClientSender::Stream(sender) => {
                    if same_text(client.key.as_str(), key) {
                        offer_stream(
                            sender,
                            StreamNotification { key: key.to_owned(), item: item.clone() },
                        )
                    } else {
                        true
                    }
                },
                ClientSender::List(_) => true,
            };
            delivered.push(took);
            i = i + 1;
        }
        self.drop_undelivered(key, false, &delivered);
    }
}

} // verus!
