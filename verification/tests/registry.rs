use kvengine::blocking::{BlockingQueue, ListNotification, StreamNotification};
use kvengine::stream::StreamId;
use kvengine::stream_types::StreamItem;
use tokio::sync::mpsc::channel;

fn record(ms: u128) -> StreamItem {
    StreamItem {
        id: StreamId { ms, seq: 0 },
        values: vec![("f".to_string(), "v".to_string())],
    }
}

#[test]
fn new_registry_is_empty() {
    let queue = BlockingQueue::new();
    assert_eq!(queue.len(), 0);
}

#[test]
fn list_notification_reaches_list_consumers_of_the_key_only() {
    let mut queue = BlockingQueue::new();
    let (on_k, mut rx_k) = channel::<ListNotification>(1);
    let (on_other, mut rx_other) = channel::<ListNotification>(1);
    let (reader, mut rx_reader) = channel::<StreamNotification>(100);
    queue.add_blocked_lpop_client("k".to_string(), on_k, 1);
    queue.add_blocked_lpop_client("other".to_string(), on_other, 2);
    queue.add_blocked_xread_client("k".to_string(), StreamId { ms: 0, seq: 0 }, reader, 3);
    queue.notify_lpop_clients("k");
    assert_eq!(rx_k.try_recv().unwrap().key, "k");
    assert!(rx_other.try_recv().is_err());
    assert!(rx_reader.try_recv().is_err());
    assert_eq!(queue.len(), 3);
}

#[test]
fn stream_notification_carries_the_record() {
    let mut queue = BlockingQueue::new();
    let (consumer, mut rx_consumer) = channel::<ListNotification>(1);
    let (reader, mut rx_reader) = channel::<StreamNotification>(100);
    queue.add_blocked_lpop_client("s".to_string(), consumer, 1);
    queue.add_blocked_xread_client("s".to_string(), StreamId { ms: 0, seq: 0 }, reader, 2);
    queue.notify_xread_clients("s", record(9));
    let note = rx_reader.try_recv().unwrap();
    assert_eq!(note.key, "s");
    assert_eq!(note.item, record(9));
    assert!(rx_consumer.try_recv().is_err());
    assert_eq!(queue.len(), 2);
}

#[test]
fn a_consumer_whose_receiver_is_gone_is_dropped() {
    let mut queue = BlockingQueue::new();
    let (gone, rx_gone) = channel::<ListNotification>(1);
    let (here, mut rx_here) = channel::<ListNotification>(1);
    queue.add_blocked_lpop_client("k".to_string(), gone, 1);
    queue.add_blocked_lpop_client("k".to_string(), here, 2);
    drop(rx_gone);
    queue.notify_lpop_clients("k");
    assert_eq!(queue.len(), 1);
    assert_eq!(rx_here.try_recv().unwrap().key, "k");
}

#[test]
fn a_consumer_whose_channel_is_full_is_dropped() {
    let mut queue = BlockingQueue::new();
    let (sender, mut receiver) = channel::<ListNotification>(1);
    queue.add_blocked_lpop_client("k".to_string(), sender, 1);
    queue.notify_lpop_clients("k");
    assert_eq!(queue.len(), 1);
    queue.notify_lpop_clients("k");
    assert_eq!(queue.len(), 0);
    assert_eq!(receiver.try_recv().unwrap().key, "k");
    assert!(receiver.try_recv().is_err());
}

#[test]
fn a_reader_whose_receiver_is_gone_is_dropped() {
    let mut queue = BlockingQueue::new();
    let (gone, rx_gone) = channel::<StreamNotification>(100);
    queue.add_blocked_xread_client("s".to_string(), StreamId { ms: 1, seq: 0 }, gone, 1);
    drop(rx_gone);
    queue.notify_xread_clients("other", record(1));
    assert_eq!(queue.len(), 1);
    queue.notify_xread_clients("s", record(2));
    assert_eq!(queue.len(), 0);
}

#[test]
fn removal_is_idempotent_and_by_name_and_key() {
    let mut queue = BlockingQueue::new();
    let (a, _rx_a) = channel::<ListNotification>(1);
    let (b, _rx_b) = channel::<ListNotification>(1);
    let first = queue.add_blocked_lpop_client("k".to_string(), a, 1);
    let second = queue.add_blocked_lpop_client("k".to_string(), b, 2);
    queue.remove_blocked_client(&first, "other");
    assert_eq!(queue.len(), 2);
    queue.remove_blocked_client("nobody", "k");
    assert_eq!(queue.len(), 2);
    queue.remove_blocked_client(&first, "k");
    assert_eq!(queue.len(), 1);
    queue.remove_blocked_client(&first, "k");
    assert_eq!(queue.len(), 1);
    queue.remove_blocked_xread_client(&second, "k");
    assert_eq!(queue.len(), 0);
}

#[test]
fn removal_after_a_dropped_notification_changes_nothing() {
    let mut queue = BlockingQueue::new();
    let (gone, rx_gone) = channel::<ListNotification>(1);
    let (here, _rx_here) = channel::<ListNotification>(1);
    let dropped = queue.add_blocked_lpop_client("k".to_string(), gone, 1);
    queue.add_blocked_lpop_client("k".to_string(), here, 2);
    drop(rx_gone);
    queue.notify_lpop_clients("k");
    assert_eq!(queue.len(), 1);
    queue.remove_blocked_client(&dropped, "k");
    assert_eq!(queue.len(), 1);
}

#[test]
fn drop_undelivered_keeps_what_the_flags_say() {
    let mut queue = BlockingQueue::new();
    let (a, _rx_a) = channel::<ListNotification>(1);
    let (b, _rx_b) = channel::<ListNotification>(1);
    let (c, _rx_c) = channel::<ListNotification>(1);
    let (d, _rx_d) = channel::<StreamNotification>(1);
    queue.add_blocked_lpop_client("k".to_string(), a, 1);
    queue.add_blocked_lpop_client("k".to_string(), b, 2);
    queue.add_blocked_lpop_client("other".to_string(), c, 3);
    queue.add_blocked_xread_client("k".to_string(), StreamId { ms: 0, seq: 0 }, d, 4);
    queue.drop_undelivered("k", true, &vec![false, true, false, false]);
    assert_eq!(queue.len(), 3);
    queue.drop_undelivered("k", false, &vec![true, true, false]);
    assert_eq!(queue.len(), 2);
    queue.drop_undelivered("other", true, &vec![false, false]);
    assert_eq!(queue.len(), 1);
}

#[test]
fn fresh_names_differ() {
    let mut queue = BlockingQueue::new();
    let (a, _rx_a) = channel::<ListNotification>(1);
    let (b, _rx_b) = channel::<ListNotification>(1);
    let first = queue.add_blocked_lpop_client("k".to_string(), a, 1);
    let second = queue.add_blocked_lpop_client("k".to_string(), b, 1);
    assert_ne!(first, second);
    assert_eq!(first.len(), 36);
    assert_eq!(first.matches('-').count(), 4);
}
