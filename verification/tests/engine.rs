use std::collections::VecDeque;

use kvengine::db::{Db, DbValue};
use kvengine::error::DbError;
use kvengine::stream::StreamId;
use kvengine::stream_types::StreamList;
use tokio::sync::mpsc::channel;

fn strings(parts: &[&str]) -> Vec<String> {
    parts.iter().map(|part| part.to_string()).collect()
}

fn pairs(parts: &[(&str, &str)]) -> Vec<(String, String)> {
    parts
        .iter()
        .map(|(name, value)| (name.to_string(), value.to_string()))
        .collect()
}

fn id(ms: u128, seq: u64) -> StreamId {
    StreamId { ms, seq }
}

#[test]
fn new_engine_is_empty() {
    let mut db = Db::new();
    assert_eq!(db.now(), 0);
    assert!(db.get("k").is_none());
    assert_eq!(db.llen("k"), 0);
    assert!(!db.is_expired("k"));
    assert_eq!(db.kind_name("k"), "none");
}

#[test]
fn insert_then_get_returns_a_copy() {
    let mut db = Db::new();
    db.insert("k", DbValue::Atom("v".to_string()));
    match db.get("k") {
        Some(DbValue::Atom(text)) => assert_eq!(text, "v"),
        other => panic!("unexpected value {:?}", other),
    }
    assert_eq!(db.atom("k"), Some("v".to_string()));
    db.insert("k", DbValue::List(VecDeque::from(strings(&["a", "b"]))));
    match db.get("k") {
        Some(DbValue::List(list)) => assert_eq!(list, VecDeque::from(strings(&["a", "b"]))),
        other => panic!("unexpected value {:?}", other),
    }
    assert_eq!(db.atom("k"), None);
    assert_eq!(db.llen("k"), 2);
}

#[test]
fn insert_clears_the_deadline() {
    let mut db = Db::new();
    db.set_expiration("k", 1);
    db.insert("k", DbValue::Atom("v".to_string()));
    db.advance(10_000_000);
    assert!(!db.is_expired("k"));
    assert_eq!(db.atom("k"), Some("v".to_string()));
}

#[test]
fn expiration_is_measured_from_the_clock() {
    let mut db = Db::new();
    db.advance(7);
    db.insert("k", DbValue::Atom("v".to_string()));
    db.set_expiration("k", 2);
    assert!(!db.is_expired("k"));
    db.advance(2_000_006);
    assert!(!db.is_expired("k"));
    db.advance(2_000_007);
    assert!(db.is_expired("k"));
    assert!(db.get("k").is_none());
    assert!(!db.is_expired("k"));
}

#[test]
fn expiration_does_not_need_the_key() {
    let mut db = Db::new();
    db.set_expiration("later", 1);
    db.advance(1_000_000);
    assert!(db.is_expired("later"));
    assert_eq!(db.rpush("later", strings(&["a"])), Ok(1));
    assert!(!db.is_expired("later"));
    db.advance(5_000_000);
    assert_eq!(db.llen("later"), 1);
}

#[test]
fn an_expired_list_is_gone_for_every_reader() {
    let mut db = Db::new();
    assert_eq!(db.rpush("l", strings(&["a", "b"])), Ok(2));
    db.set_expiration("l", 1);
    db.advance(1_000_000);
    assert_eq!(db.llen("l"), 0);
    assert_eq!(db.kind_name("l"), "none");
    assert_eq!(db.lrange("l", 0, -1), Vec::<String>::new());
    assert_eq!(db.lpop("l", 1), Vec::<String>::new());
}

#[test]
fn expire_removes_value_and_deadline() {
    let mut db = Db::new();
    db.insert("k", DbValue::Atom("v".to_string()));
    db.set_expiration("k", 1000);
    db.expire("k");
    assert!(db.get("k").is_none());
    db.insert("k", DbValue::Atom("w".to_string()));
    db.advance(2_000_000_000);
    assert_eq!(db.atom("k"), Some("w".to_string()));
}

#[test]
fn the_clock_never_goes_back_and_stops_at_its_bound() {
    let mut db = Db::new();
    db.advance(10);
    db.advance(3);
    assert_eq!(db.now(), 10);
    db.advance(u128::MAX);
    assert_eq!(db.now(), kvengine::db::MAX_CLOCK);
    db.set_expiration("k", u64::MAX);
    assert!(!db.is_expired("k"));
}

#[test]
fn tick_moves_the_clock_forward() {
    let mut db = Db::new();
    let mut rounds = 0u64;
    while db.now() == 0 {
        db.tick();
        rounds += 1;
        assert!(rounds < 1_000_000_000);
    }
    let first = db.now();
    db.tick();
    assert!(db.now() >= first);
    assert!(db.now() < 20_000_000_000);
}

#[test]
fn rpush_appends_and_lpush_prepends_one_by_one() {
    let mut db = Db::new();
    assert_eq!(db.rpush("l", strings(&["a", "b", "c"])), Ok(3));
    assert_eq!(db.lpush("l", strings(&["x", "y"])), Ok(5));
    assert_eq!(db.lrange("l", 0, -1), strings(&["y", "x", "a", "b", "c"]));
    assert_eq!(db.llen("l"), 5);
}

#[test]
fn pushes_refuse_other_kinds() {
    let mut db = Db::new();
    db.insert("k", DbValue::Atom("v".to_string()));
    assert_eq!(
        db.rpush("k", strings(&["a"])),
        Err(DbError::KeyIsNotList("k".to_string()))
    );
    assert_eq!(
        db.lpush("k", strings(&["a"])),
        Err(DbError::KeyIsNotList("k".to_string()))
    );
    assert_eq!(db.atom("k"), Some("v".to_string()));
}

#[test]
fn lpop_takes_from_the_front() {
    let mut db = Db::new();
    assert_eq!(db.lpop("l", 3), Vec::<String>::new());
    assert_eq!(db.kind_name("l"), "none");
    assert_eq!(db.rpush("l", strings(&["a", "b", "c"])), Ok(3));
    assert_eq!(db.lpop("l", 0), Vec::<String>::new());
    assert_eq!(db.lpop("l", 2), strings(&["a", "b"]));
    assert_eq!(db.lpop("l", 2), strings(&["c"]));
    assert_eq!(db.lpop("l", 2), Vec::<String>::new());
    assert_eq!(db.kind_name("l"), "list");
    db.insert("k", DbValue::Atom("v".to_string()));
    assert_eq!(db.lpop("k", 1), Vec::<String>::new());
}

#[test]
fn lrange_clamps_and_counts_from_the_end() {
    let mut db = Db::new();
    assert_eq!(db.rpush("l", strings(&["a", "b", "c", "d", "e"])), Ok(5));
    assert_eq!(db.lrange("l", 0, 0), strings(&["a"]));
    assert_eq!(db.lrange("l", 1, 3), strings(&["b", "c", "d"]));
    assert_eq!(db.lrange("l", -2, -1), strings(&["d", "e"]));
    assert_eq!(db.lrange("l", -100, 1), strings(&["a", "b"]));
    assert_eq!(db.lrange("l", 3, 100), strings(&["d", "e"]));
    assert_eq!(db.lrange("l", 2, 1), Vec::<String>::new());
    assert_eq!(db.lrange("l", 5, 9), Vec::<String>::new());
    assert_eq!(db.lrange("l", 0, -6), Vec::<String>::new());
    assert_eq!(db.lrange("l", isize::MIN, isize::MAX), strings(&["a", "b", "c", "d", "e"]));
    assert_eq!(db.lrange("none", 0, -1), Vec::<String>::new());
}

#[test]
fn xadd_keeps_the_identifiers_rising() {
    let mut db = Db::new();
    assert_eq!(db.xadd("s", id(0, 0), &pairs(&[("a", "1")])), Err(DbError::StreamIdZero));
    assert_eq!(db.kind_name("s"), "none");
    assert_eq!(db.xadd("s", id(5, 3), &pairs(&[("a", "1")])), Ok(()));
    assert_eq!(
        db.xadd("s", id(5, 3), &pairs(&[("a", "1")])),
        Err(DbError::StreamIdNotGreater)
    );
    assert_eq!(
        db.xadd("s", id(4, 9), &pairs(&[("a", "1")])),
        Err(DbError::StreamIdNotGreater)
    );
    assert_eq!(db.xadd("s", id(0, 0), &pairs(&[("a", "1")])), Err(DbError::StreamIdZero));
    assert_eq!(db.xadd("s", id(5, 4), &pairs(&[("b", "2")])), Ok(()));
    assert_eq!(db.xadd("s", id(6, 0), &pairs(&[("c", "3")])), Ok(()));
    assert_eq!(db.last_id("s"), Some(id(6, 0)));
    let all = db.xrange("s", "-", "+").unwrap();
    let ids: Vec<StreamId> = all.iter().map(|item| item.id).collect();
    assert_eq!(ids, vec![id(5, 3), id(5, 4), id(6, 0)]);
    db.insert("k", DbValue::Atom("v".to_string()));
    assert_eq!(
        db.xadd("k", id(1, 0), &pairs(&[("a", "1")])),
        Err(DbError::KeyIsNotStream("k".to_string()))
    );
}

#[test]
fn xadd_lets_the_last_value_of_a_field_win() {
    let mut db = Db::new();
    assert_eq!(
        db.xadd("s", id(1, 0), &pairs(&[("a", "1"), ("b", "2"), ("a", "3")])),
        Ok(())
    );
    let item = db.xlast("s").unwrap();
    assert_eq!(item.values, pairs(&[("a", "3"), ("b", "2")]));
    assert_eq!(
        item.to_resp().serialize(),
        "*2\r\n$3\r\n1-0\r\n*4\r\n$1\r\na\r\n$1\r\n3\r\n$1\r\nb\r\n$1\r\n2\r\n"
    );
}

#[test]
fn xfirst_and_xlast() {
    let mut db = Db::new();
    assert!(db.xfirst("s").is_none());
    assert!(db.xlast("s").is_none());
    assert_eq!(db.last_id("s"), None);
    assert_eq!(db.xadd("s", id(1, 0), &pairs(&[("a", "1")])), Ok(()));
    assert_eq!(db.xadd("s", id(2, 0), &pairs(&[("b", "2")])), Ok(()));
    assert_eq!(db.xfirst("s").unwrap().id, id(1, 0));
    assert_eq!(db.xlast("s").unwrap().id, id(2, 0));
    db.insert("k", DbValue::List(VecDeque::new()));
    assert!(db.xfirst("k").is_none());
    assert!(db.xlast("k").is_none());
}

#[test]
fn xrange_and_xread_bounds() {
    let mut db = Db::new();
    for ms in [1u128, 3, 5, 7] {
        assert_eq!(db.xadd("s", id(ms, 0), &pairs(&[("n", "x")])), Ok(()));
    }
    let ids = |items: Vec<kvengine::stream_types::StreamItem>| -> Vec<u128> {
        items.iter().map(|item| item.id.ms).collect()
    };
    assert_eq!(ids(db.xrange("s", "2-0", "6-0").unwrap()), vec![3, 5]);
    assert_eq!(ids(db.xrange("s", "3-0", "5-0").unwrap()), vec![3, 5]);
    assert_eq!(ids(db.xrange("s", "-", "3-0").unwrap()), vec![1, 3]);
    assert_eq!(ids(db.xrange("s", "6-0", "+").unwrap()), vec![7]);
    assert_eq!(ids(db.xrange("s", "8-0", "+").unwrap()), Vec::<u128>::new());
    assert_eq!(ids(db.xrange("s", "6-0", "2-0").unwrap()), Vec::<u128>::new());
    assert_eq!(ids(db.xread("s", "3-0").unwrap()), vec![5, 7]);
    assert_eq!(ids(db.xread("s", "4-0").unwrap()), vec![5, 7]);
    assert_eq!(ids(db.xread("s", "0-0").unwrap()), vec![1, 3, 5, 7]);
    assert_eq!(ids(db.xread("s", "7-0").unwrap()), Vec::<u128>::new());
    assert_eq!(ids(db.xread("none", "0-0").unwrap()), Vec::<u128>::new());
    assert_eq!(ids(db.xread_after("s", &id(5, 0))), vec![7]);
    assert_eq!(
        db.xread("s", "five"),
        Err(DbError::InvalidIdFormat("five".to_string()))
    );
    assert_eq!(
        db.xrange("none", "-", "+"),
        Err(DbError::KeyNotFound("none".to_string()))
    );
}

#[test]
fn a_stream_can_be_inserted_whole() {
    let mut log = StreamList::new();
    assert_eq!(log.len(), 0);
    assert!(log.first().is_none());
    assert_eq!(log.append(id(1, 1), &pairs(&[("a", "1")])), Ok(()));
    assert_eq!(log.append(id(1, 1), &pairs(&[("a", "1")])), Err(DbError::StreamIdNotGreater));
    assert_eq!(log.append(id(1, 2), &pairs(&[("a", "2")])), Ok(()));
    assert_eq!(log.len(), 2);
    assert_eq!(log.first().unwrap().id, id(1, 1));
    assert_eq!(log.last().unwrap().id, id(1, 2));
    assert_eq!(log.range(&id(1, 2), &id(9, 0)).len(), 1);
    assert_eq!(log.after(&id(1, 0)).len(), 2);
    let mut db = Db::new();
    db.insert("s", DbValue::Stream(log));
    assert_eq!(db.kind_name("s"), "stream");
    assert_eq!(db.last_id("s"), Some(id(1, 2)));
}

#[test]
fn error_messages() {
    assert_eq!(DbError::KeyNotFound("k".to_string()).message(), "Key 'k' not found");
    assert_eq!(
        DbError::KeyIsNotStream("k".to_string()).message(),
        "Key 'k' exists but is not a stream"
    );
    assert_eq!(
        DbError::KeyIsNotList("k".to_string()).message(),
        "Key 'k' exists but is not a list"
    );
    assert_eq!(
        DbError::StreamIdZero.message(),
        "ERR The ID specified in XADD must be greater than 0-0"
    );
    assert_eq!(
        DbError::StreamIdNotGreater.message(),
        "ERR The ID specified in XADD is equal or smaller than the target stream top item"
    );
    assert_eq!(
        DbError::InvalidIdFormat("x".to_string()).message(),
        "Invalid stream ID format: x"
    );
    assert_eq!(
        DbError::ClockBeforeEpoch.message(),
        "ERR The system clock reads before the Unix epoch"
    );
}

#[test]
fn waiters_are_parked_and_removed_through_the_engine() {
    let mut db = Db::new();
    let (list_sender, mut list_receiver) = channel(1);
    let (stream_sender, mut stream_receiver) = channel(100);
    let consumer = db.add_blocked_lpop_client("k".to_string(), list_sender);
    let reader = db.add_blocked_xread_client("k".to_string(), id(0, 0), stream_sender);
    assert_ne!(consumer, reader);
    assert_eq!(consumer.len(), 36);
    assert_eq!(db.rpush("k2", strings(&["a"])), Ok(1));
    assert!(list_receiver.try_recv().is_err());
    assert_eq!(db.rpush("k", strings(&["a"])), Ok(1));
    assert_eq!(list_receiver.try_recv().unwrap().key, "k");
    assert!(stream_receiver.try_recv().is_err());
    assert_eq!(db.xadd("s", id(1, 0), &pairs(&[("a", "1")])), Ok(()));
    assert!(stream_receiver.try_recv().is_err());
    db.remove_blocked_client(&consumer, "k");
    db.remove_blocked_client(&consumer, "k");
    assert_eq!(db.rpush("k", strings(&["b"])), Ok(2));
    assert!(list_receiver.try_recv().is_err());
    db.remove_blocked_xread_client(&reader, "k");
}
