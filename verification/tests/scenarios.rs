use kvengine::commands::Command;
use kvengine::db::Db;
use kvengine::error::DbError;
use kvengine::executor::{Inbox, Outcome, Parked};
use kvengine::parser::parse_command;
use kvengine::resp::RespValue;
use kvengine::stream::StreamId;
use kvengine::text::Wait;

const WALL: Option<u128> = Some(1_700_000_000_000);

fn command(parts: &[&str]) -> Command {
    let args: Vec<RespValue> = parts[1..]
        .iter()
        .map(|part| RespValue::BulkString(part.to_string()))
        .collect();
    parse_command(parts[0].to_string(), args).unwrap()
}

fn answer(db: &mut Db, parts: &[&str]) -> String {
    match command(parts).execute_at(db, WALL) {
        Outcome::Reply(value) => value.serialize(),
        other => panic!("the command ended with {:?}", other),
    }
}

fn park(db: &mut Db, parts: &[&str]) -> (Parked, Inbox) {
    match command(parts).execute_at(db, WALL) {
        Outcome::Park { ticket, inbox } => (ticket, inbox),
        other => panic!("the command ended with {:?}", other),
    }
}

#[test]
fn set_then_get_until_expiry() {
    let mut db = Db::new();
    assert_eq!(answer(&mut db, &["SET", "foo", "bar", "PX", "100"]), "+OK\r\n");
    assert_eq!(answer(&mut db, &["GET", "foo"]), "$3\r\nbar\r\n");
    let set_at = db.now();
    db.advance(set_at + 99_999_999);
    assert_eq!(answer(&mut db, &["GET", "foo"]), "$3\r\nbar\r\n");
    db.advance(set_at + 150_000_000);
    assert_eq!(answer(&mut db, &["GET", "foo"]), "$-1\r\n");
    assert_eq!(answer(&mut db, &["TYPE", "foo"]), "+none\r\n");
}

#[test]
fn get_at_the_deadline_is_null() {
    let mut db = Db::new();
    db.advance(5);
    assert_eq!(answer(&mut db, &["SET", "k", "v", "PX", "1"]), "+OK\r\n");
    db.advance(1_000_004);
    assert_eq!(answer(&mut db, &["GET", "k"]), "$1\r\nv\r\n");
    db.advance(1_000_005);
    assert_eq!(answer(&mut db, &["GET", "k"]), "$-1\r\n");
}

#[test]
fn set_without_px_clears_the_deadline() {
    let mut db = Db::new();
    assert_eq!(answer(&mut db, &["SET", "k", "v", "px", "10"]), "+OK\r\n");
    assert_eq!(answer(&mut db, &["SET", "k", "w"]), "+OK\r\n");
    db.advance(1_000_000_000);
    assert_eq!(answer(&mut db, &["GET", "k"]), "$1\r\nw\r\n");
}

#[test]
fn pushes_then_lrange() {
    let mut db = Db::new();
    assert_eq!(answer(&mut db, &["RPUSH", "L", "a", "b", "c"]), ":3\r\n");
    assert_eq!(answer(&mut db, &["LPUSH", "L", "x", "y"]), ":5\r\n");
    assert_eq!(
        answer(&mut db, &["LRANGE", "L", "0", "-1"]),
        "*5\r\n$1\r\ny\r\n$1\r\nx\r\n$1\r\na\r\n$1\r\nb\r\n$1\r\nc\r\n"
    );
}

#[test]
fn lpush_then_lrange_is_reversed() {
    let mut db = Db::new();
    assert_eq!(answer(&mut db, &["LPUSH", "k", "a", "b", "c"]), ":3\r\n");
    assert_eq!(
        answer(&mut db, &["LRANGE", "k", "0", "-1"]),
        "*3\r\n$1\r\nc\r\n$1\r\nb\r\n$1\r\na\r\n"
    );
}

#[test]
fn blpop_is_woken_by_rpush() {
    let mut db = Db::new();
    let (ticket, inbox) = park(&mut db, &["BLPOP", "q", "5"]);
    assert_eq!(ticket.key, "q");
    assert_eq!(ticket.start, None);
    assert_eq!(ticket.wait, Wait::Nanos(5_000_000_000));
    db.advance(50_000_000);
    assert_eq!(answer(&mut db, &["RPUSH", "q", "hello"]), ":1\r\n");
    match inbox {
        Inbox::List(mut receiver) => {
            let note = receiver.try_recv().unwrap();
            assert_eq!(note.key, "q");
            assert!(receiver.try_recv().is_err());
        }
        Inbox::Stream(_) => panic!("a list consumer got a stream inbox"),
    }
    assert_eq!(
        ticket.resume_at(&mut db).serialize(),
        "*2\r\n$1\r\nq\r\n$5\r\nhello\r\n"
    );
    assert_eq!(answer(&mut db, &["LLEN", "q"]), ":0\r\n");
}

#[test]
fn blpop_answers_at_once_when_there_is_data() {
    let mut db = Db::new();
    assert_eq!(answer(&mut db, &["RPUSH", "q", "a", "b"]), ":2\r\n");
    assert_eq!(
        answer(&mut db, &["BLPOP", "q", "0"]),
        "*2\r\n$1\r\nq\r\n$1\r\na\r\n"
    );
    assert_eq!(answer(&mut db, &["LLEN", "q"]), ":1\r\n");
}

#[test]
fn blpop_without_producer_times_out() {
    let mut db = Db::new();
    let (ticket, _inbox) = park(&mut db, &["BLPOP", "empty", "0.05"]);
    assert_eq!(ticket.wait, Wait::Nanos(50_000_000));
    db.advance(50_000_000);
    assert_eq!(ticket.resume_at(&mut db).serialize(), "*-1\r\n");
}

#[test]
fn blpop_zero_waits_without_limit() {
    let mut db = Db::new();
    let (ticket, _inbox) = park(&mut db, &["BLPOP", "q", "0"]);
    assert_eq!(ticket.wait, Wait::Forever);
    let (ticket, _inbox) = park(&mut db, &["BLPOP", "q"]);
    assert_eq!(ticket.wait, Wait::Forever);
    let (ticket, _inbox) = park(&mut db, &["BLPOP", "q", "0.000"]);
    assert_eq!(ticket.wait, Wait::Forever);
}

#[test]
fn second_consumer_loses_the_race() {
    let mut db = Db::new();
    let (first, _a) = park(&mut db, &["BLPOP", "q", "1"]);
    let (second, _b) = park(&mut db, &["BLPOP", "q", "1"]);
    assert_ne!(first.client_id, second.client_id);
    assert_eq!(answer(&mut db, &["RPUSH", "q", "only"]), ":1\r\n");
    assert_eq!(
        first.resume_at(&mut db).serialize(),
        "*2\r\n$1\r\nq\r\n$4\r\nonly\r\n"
    );
    assert_eq!(second.resume_at(&mut db).serialize(), "*-1\r\n");
}

#[test]
fn xadd_with_explicit_and_automatic_sequence() {
    let mut db = Db::new();
    assert_eq!(
        answer(&mut db, &["XADD", "s", "1000-0", "a", "1"]),
        "$6\r\n1000-0\r\n"
    );
    assert_eq!(
        answer(&mut db, &["XADD", "s", "1000-*", "b", "2"]),
        "$6\r\n1000-1\r\n"
    );
    assert_eq!(
        answer(&mut db, &["XADD", "s", "999-0", "c", "3"]),
        "-ERR The ID specified in XADD is equal or smaller than the target stream top item\r\n"
    );
    assert_eq!(
        answer(&mut db, &["XADD", "s", "0-0", "d", "4"]),
        "-ERR The ID specified in XADD must be greater than 0-0\r\n"
    );
    assert_eq!(answer(&mut db, &["TYPE", "s"]), "+stream\r\n");
}

#[test]
fn xadd_fully_automatic_uses_the_wall_clock() {
    let mut db = Db::new();
    assert_eq!(
        answer(&mut db, &["XADD", "s", "*", "a", "1"]),
        "$15\r\n1700000000000-0\r\n"
    );
    assert_eq!(
        answer(&mut db, &["XADD", "s", "*", "a", "2"]),
        "$15\r\n1700000000000-1\r\n"
    );
}

#[test]
fn xadd_automatic_sequence_on_a_new_stream() {
    let mut db = Db::new();
    assert_eq!(answer(&mut db, &["XADD", "z", "0-*", "a", "1"]), "$3\r\n0-1\r\n");
    assert_eq!(answer(&mut db, &["XADD", "y", "7-*", "a", "1"]), "$3\r\n7-0\r\n");
}

#[test]
fn xread_block_is_woken_by_xadd() {
    let mut db = Db::new();
    assert_eq!(answer(&mut db, &["XADD", "s", "5-0", "a", "1"]), "$3\r\n5-0\r\n");
    let (ticket, inbox) = park(&mut db, &["XREAD", "BLOCK", "0", "STREAMS", "s", "$"]);
    assert_eq!(ticket.key, "s");
    assert_eq!(ticket.start, Some(StreamId { ms: 5, seq: 0 }));
    assert_eq!(ticket.wait, Wait::Forever);
    assert_eq!(answer(&mut db, &["XADD", "s", "6-0", "b", "2"]), "$3\r\n6-0\r\n");
    match inbox {
        Inbox::Stream(mut receiver) => {
            let note = receiver.try_recv().unwrap();
            assert_eq!(note.key, "s");
            assert_eq!(note.item.id, StreamId { ms: 6, seq: 0 });
            assert_eq!(note.item.values, vec![("b".to_string(), "2".to_string())]);
        }
        Inbox::List(_) => panic!("a stream reader got a list inbox"),
    }
    assert_eq!(
        ticket.resume_at(&mut db).serialize(),
        "*1\r\n*2\r\n$1\r\ns\r\n*1\r\n*2\r\n$3\r\n6-0\r\n*2\r\n$1\r\nb\r\n$1\r\n2\r\n"
    );
}

#[test]
fn xread_block_with_a_time_parks_for_that_time() {
    let mut db = Db::new();
    let (ticket, _inbox) = park(&mut db, &["XREAD", "block", "250", "streams", "s", "0-0"]);
    assert_eq!(ticket.wait, Wait::Nanos(250_000_000));
    assert_eq!(ticket.start, Some(StreamId { ms: 0, seq: 0 }));
    assert_eq!(ticket.resume_at(&mut db).serialize(), "*-1\r\n");
}

#[test]
fn xread_without_block_answers_null_when_nothing_is_new() {
    let mut db = Db::new();
    assert_eq!(answer(&mut db, &["XADD", "s", "5-0", "a", "1"]), "$3\r\n5-0\r\n");
    assert_eq!(answer(&mut db, &["XREAD", "STREAMS", "s", "5-0"]), "*-1\r\n");
    assert_eq!(answer(&mut db, &["XREAD", "STREAMS", "s", "$"]), "*-1\r\n");
    assert_eq!(answer(&mut db, &["XREAD", "STREAMS", "none", "0-0"]), "*-1\r\n");
}

#[test]
fn xread_answers_the_streams_with_new_records_in_request_order() {
    let mut db = Db::new();
    assert_eq!(answer(&mut db, &["XADD", "a", "1-0", "f", "1"]), "$3\r\n1-0\r\n");
    assert_eq!(answer(&mut db, &["XADD", "b", "2-0", "g", "2"]), "$3\r\n2-0\r\n");
    assert_eq!(answer(&mut db, &["XADD", "c", "3-0", "h", "3"]), "$3\r\n3-0\r\n");
    assert_eq!(
        answer(&mut db, &["XREAD", "STREAMS", "c", "b", "a", "0-0", "2-0", "0-5"]),
        "*2\r\n*2\r\n$1\r\nc\r\n*1\r\n*2\r\n$3\r\n3-0\r\n*2\r\n$1\r\nh\r\n$1\r\n3\r\n\
         *2\r\n$1\r\na\r\n*1\r\n*2\r\n$3\r\n1-0\r\n*2\r\n$1\r\nf\r\n$1\r\n1\r\n"
    );
}

#[test]
fn xread_refuses_a_start_that_is_no_identifier() {
    let mut db = Db::new();
    assert_eq!(
        answer(&mut db, &["XREAD", "STREAMS", "s", "t", "0-0", "later"]),
        "-Invalid stream ID format: later\r\n"
    );
}

#[test]
fn xrange_is_bounded_not_exact() {
    let mut db = Db::new();
    assert_eq!(answer(&mut db, &["XADD", "s", "1-0", "a", "1"]), "$3\r\n1-0\r\n");
    assert_eq!(answer(&mut db, &["XADD", "s", "3-0", "b", "2"]), "$3\r\n3-0\r\n");
    assert_eq!(answer(&mut db, &["XADD", "s", "10-0", "c", "3"]), "$4\r\n10-0\r\n");
    let middle = "*1\r\n*2\r\n$3\r\n3-0\r\n*2\r\n$1\r\nb\r\n$1\r\n2\r\n";
    assert_eq!(answer(&mut db, &["XRANGE", "s", "2-0", "9-0"]), middle);
    assert_eq!(answer(&mut db, &["XRANGE", "s", "3-0", "3-0"]), middle);
    assert_eq!(answer(&mut db, &["XRANGE", "s", "4-0", "2-0"]), "*0\r\n");
    let all = "*3\r\n*2\r\n$3\r\n1-0\r\n*2\r\n$1\r\na\r\n$1\r\n1\r\n\
               *2\r\n$3\r\n3-0\r\n*2\r\n$1\r\nb\r\n$1\r\n2\r\n\
               *2\r\n$4\r\n10-0\r\n*2\r\n$1\r\nc\r\n$1\r\n3\r\n";
    assert_eq!(answer(&mut db, &["XRANGE", "s"]), all);
    assert_eq!(answer(&mut db, &["XRANGE", "s", "-", "+"]), all);
    assert_eq!(answer(&mut db, &["XRANGE", "s", "-"]), all);
}

#[test]
fn xrange_compares_numbers_not_text() {
    let mut db = Db::new();
    assert_eq!(answer(&mut db, &["XADD", "s", "9-0", "a", "1"]), "$3\r\n9-0\r\n");
    assert_eq!(answer(&mut db, &["XADD", "s", "10-0", "b", "2"]), "$4\r\n10-0\r\n");
    assert_eq!(
        answer(&mut db, &["XRANGE", "s", "10-0", "+"]),
        "*1\r\n*2\r\n$4\r\n10-0\r\n*2\r\n$1\r\nb\r\n$1\r\n2\r\n"
    );
}

#[test]
fn xrange_refusals() {
    let mut db = Db::new();
    assert_eq!(
        answer(&mut db, &["XRANGE", "none", "-", "+"]),
        "-Key 'none' not found\r\n"
    );
    assert_eq!(answer(&mut db, &["SET", "k", "v"]), "+OK\r\n");
    assert_eq!(
        answer(&mut db, &["XRANGE", "k", "-", "+"]),
        "-Key 'k' exists but is not a stream\r\n"
    );
    assert_eq!(answer(&mut db, &["XADD", "s", "1-0", "a", "1"]), "$3\r\n1-0\r\n");
    assert_eq!(
        answer(&mut db, &["XRANGE", "s", "x", "+"]),
        "-Invalid stream ID format: x\r\n"
    );
    assert_eq!(
        answer(&mut db, &["XRANGE", "s", "-", "1-y"]),
        "-Invalid stream ID format: 1-y\r\n"
    );
}

#[test]
fn type_follows_the_writes() {
    let mut db = Db::new();
    assert_eq!(answer(&mut db, &["TYPE", "k"]), "+none\r\n");
    assert_eq!(answer(&mut db, &["SET", "k", "v"]), "+OK\r\n");
    assert_eq!(answer(&mut db, &["TYPE", "k"]), "+string\r\n");
    assert_eq!(
        answer(&mut db, &["RPUSH", "k", "a"]),
        "-Key 'k' exists but is not a list\r\n"
    );
    assert_eq!(
        answer(&mut db, &["XADD", "k", "1-0", "a", "1"]),
        "-Key 'k' exists but is not a stream\r\n"
    );
    assert_eq!(answer(&mut db, &["TYPE", "k"]), "+string\r\n");
    assert_eq!(answer(&mut db, &["RPUSH", "l", "a"]), ":1\r\n");
    assert_eq!(answer(&mut db, &["TYPE", "l"]), "+list\r\n");
    assert_eq!(answer(&mut db, &["LPOP", "l"]), "$1\r\na\r\n");
    assert_eq!(answer(&mut db, &["TYPE", "l"]), "+list\r\n");
    assert_eq!(answer(&mut db, &["SET", "l", "now text"]), "+OK\r\n");
    assert_eq!(answer(&mut db, &["TYPE", "l"]), "+string\r\n");
}

#[test]
fn get_of_a_list_or_a_stream_is_null() {
    let mut db = Db::new();
    assert_eq!(answer(&mut db, &["RPUSH", "l", "a"]), ":1\r\n");
    assert_eq!(answer(&mut db, &["XADD", "s", "1-0", "a", "1"]), "$3\r\n1-0\r\n");
    assert_eq!(answer(&mut db, &["GET", "l"]), "$-1\r\n");
    assert_eq!(answer(&mut db, &["GET", "s"]), "$-1\r\n");
    assert_eq!(answer(&mut db, &["GET", "none"]), "$-1\r\n");
}

#[test]
fn lpop_with_and_without_count() {
    let mut db = Db::new();
    assert_eq!(answer(&mut db, &["LPOP", "l"]), "$-1\r\n");
    assert_eq!(answer(&mut db, &["LPOP", "l", "2"]), "*0\r\n");
    assert_eq!(answer(&mut db, &["RPUSH", "l", "a", "b", "c", "d"]), ":4\r\n");
    assert_eq!(answer(&mut db, &["LPOP", "l"]), "$1\r\na\r\n");
    assert_eq!(answer(&mut db, &["LPOP", "l", "1"]), "*1\r\n$1\r\nb\r\n");
    assert_eq!(answer(&mut db, &["LPOP", "l", "0"]), "*0\r\n");
    assert_eq!(answer(&mut db, &["LPOP", "l", "5"]), "*2\r\n$1\r\nc\r\n$1\r\nd\r\n");
    assert_eq!(answer(&mut db, &["LLEN", "l"]), ":0\r\n");
}

#[test]
fn ping_and_echo() {
    let mut db = Db::new();
    assert_eq!(answer(&mut db, &["PING"]), "+PONG\r\n");
    assert_eq!(answer(&mut db, &["echo", "hey"]), "$3\r\nhey\r\n");
}

#[test]
fn execute_reads_the_clocks_itself() {
    let mut db = Db::new();
    let reply = match command(&["XADD", "s", "*", "a", "1"]).execute(&mut db) {
        Outcome::Reply(value) => value,
        other => panic!("the command ended with {:?}", other),
    };
    let id = match reply {
        RespValue::BulkString(id) => StreamId::parse(&id).unwrap(),
        other => panic!("unexpected answer {:?}", other),
    };
    assert!(id.ms > 1_600_000_000_000);
    assert_eq!(id.seq, 0);
    match command(&["SET", "k", "v", "PX", "0"]).execute(&mut db) {
        Outcome::Reply(value) => assert_eq!(value.serialize(), "+OK\r\n"),
        other => panic!("the command ended with {:?}", other),
    }
    match command(&["GET", "k"]).execute(&mut db) {
        Outcome::Reply(value) => assert_eq!(value.serialize(), "$-1\r\n"),
        other => panic!("the command ended with {:?}", other),
    }
    match command(&["BLPOP", "q", "1"]).execute(&mut db) {
        Outcome::Park { ticket, .. } => {
            assert_eq!(ticket.resume(&mut db).serialize(), "*-1\r\n")
        }
        other => panic!("the command ended with {:?}", other),
    }
}

#[test]
fn a_clock_before_the_epoch_is_a_fault() {
    let mut db = Db::new();
    match command(&["XADD", "s", "*", "a", "1"]).execute_at(&mut db, None) {
        Outcome::Fault(e) => assert_eq!(e, DbError::ClockBeforeEpoch),
        other => panic!("the command ended with {:?}", other),
    }
    match command(&["XADD", "s", "5-*", "a", "1"]).execute_at(&mut db, None) {
        Outcome::Reply(value) => assert_eq!(value.serialize(), "$3\r\n5-0\r\n"),
        other => panic!("the command ended with {:?}", other),
    }
    match command(&["XADD", "s", "x", "a", "1"]).execute_at(&mut db, None) {
        Outcome::Reply(value) => {
            assert_eq!(value.serialize(), "-Invalid stream ID format: x\r\n")
        }
        other => panic!("the command ended with {:?}", other),
    }
}
