use kvengine::error::DbError;
use kvengine::stream::{derive_new_stream_id, derive_new_stream_id_at, IdRequest, StreamId};
use kvengine::stream_types::assemble_fields;
use kvengine::text::{
    decimal_string, find_ascii, read_seconds, read_signed, read_unsigned, read_unsigned_in,
    same_text, Wait,
};

fn id(ms: u128, seq: u64) -> StreamId {
    StreamId { ms, seq }
}

#[test]
fn numbers_are_written_in_decimal() {
    assert_eq!(decimal_string(0), "0");
    assert_eq!(decimal_string(7), "7");
    assert_eq!(decimal_string(10), "10");
    assert_eq!(decimal_string(1000), "1000");
    assert_eq!(
        decimal_string(u128::MAX),
        "340282366920938463463374607431768211455"
    );
    assert_eq!(id(1000, 1).to_text(), "1000-1");
    assert_eq!(id(0, 0).to_text(), "0-0");
    assert_eq!(
        id(u128::MAX, u64::MAX).to_text(),
        "340282366920938463463374607431768211455-18446744073709551615"
    );
}

#[test]
fn unsigned_numbers_are_read() {
    assert_eq!(read_unsigned("0", 10), Some(0));
    assert_eq!(read_unsigned("007", 10), Some(7));
    assert_eq!(read_unsigned("+7", 10), Some(7));
    assert_eq!(read_unsigned("10", 10), Some(10));
    assert_eq!(read_unsigned("11", 10), None);
    assert_eq!(read_unsigned("", 10), None);
    assert_eq!(read_unsigned("+", 10), None);
    assert_eq!(read_unsigned("-1", 10), None);
    assert_eq!(read_unsigned("1a", 10), None);
    assert_eq!(read_unsigned(" 1", 10), None);
    assert_eq!(read_unsigned("１", 10), None);
    assert_eq!(
        read_unsigned("340282366920938463463374607431768211455", u128::MAX),
        Some(u128::MAX)
    );
    assert_eq!(
        read_unsigned("340282366920938463463374607431768211456", u128::MAX),
        None
    );
    assert_eq!(
        read_unsigned("9999999999999999999999999999999999999999999", u128::MAX),
        None
    );
    assert_eq!(read_unsigned_in("ab123cd", 2, 5, 1000), Some(123));
    assert_eq!(read_unsigned_in("ab123cd", 2, 6, 1000), None);
    assert_eq!(read_unsigned_in("ab123cd", 2, 2, 1000), None);
}

#[test]
fn signed_numbers_are_read() {
    assert_eq!(read_signed("0", -5, 5), Some(0));
    assert_eq!(read_signed("-0", -5, 5), Some(0));
    assert_eq!(read_signed("-5", -5, 5), Some(-5));
    assert_eq!(read_signed("+5", -5, 5), Some(5));
    assert_eq!(read_signed("5", -5, 5), Some(5));
    assert_eq!(read_signed("-6", -5, 5), None);
    assert_eq!(read_signed("6", -5, 5), None);
    assert_eq!(read_signed("-", -5, 5), None);
    assert_eq!(read_signed("--1", -5, 5), None);
    assert_eq!(read_signed("", -5, 5), None);
}

#[test]
fn seconds_are_read_to_the_nanosecond() {
    assert_eq!(read_seconds("0"), Some(Wait::Forever));
    assert_eq!(read_seconds("00.000"), Some(Wait::Forever));
    assert_eq!(read_seconds("1"), Some(Wait::Nanos(1_000_000_000)));
    assert_eq!(read_seconds("0.5"), Some(Wait::Nanos(500_000_000)));
    assert_eq!(read_seconds("0.000000001"), Some(Wait::Nanos(1)));
    assert_eq!(read_seconds("0.0000000019"), Some(Wait::Nanos(1)));
    assert_eq!(read_seconds("0.00000000001"), Some(Wait::Nanos(0)));
    assert_eq!(read_seconds("3.141592653589"), Some(Wait::Nanos(3_141_592_653)));
    assert_eq!(
        read_seconds("18446744073709551615.999999999"),
        Some(Wait::Nanos(18_446_744_073_709_551_615_999_999_999))
    );
    assert_eq!(read_seconds("18446744073709551616"), None);
    assert_eq!(read_seconds(""), None);
    assert_eq!(read_seconds("."), None);
    assert_eq!(read_seconds("1.2.3"), None);
    assert_eq!(read_seconds("+1"), None);
    assert_eq!(read_seconds("1s"), None);
    assert_eq!(read_seconds("½"), None);
}

#[test]
fn texts_are_compared_and_searched() {
    assert!(same_text("", ""));
    assert!(same_text("héllo", "héllo"));
    assert!(!same_text("hello", "hellp"));
    assert!(!same_text("hello", "hell"));
    assert_eq!(find_ascii("12-34-5", 45), 2);
    assert_eq!(find_ascii("12345", 45), 5);
    assert_eq!(find_ascii("", 45), 0);
}

#[test]
fn identifiers_are_read() {
    assert_eq!(StreamId::parse("1000-1"), Some(id(1000, 1)));
    assert_eq!(StreamId::parse("0-0"), Some(id(0, 0)));
    assert_eq!(
        StreamId::parse("340282366920938463463374607431768211455-18446744073709551615"),
        Some(id(u128::MAX, u64::MAX))
    );
    assert_eq!(StreamId::parse("1-18446744073709551616"), None);
    assert_eq!(StreamId::parse("1000"), None);
    assert_eq!(StreamId::parse("1000-"), None);
    assert_eq!(StreamId::parse("-1"), None);
    assert_eq!(StreamId::parse("1-2-3"), None);
    assert_eq!(StreamId::parse("*"), None);
    assert_eq!(StreamId::parse("1-*"), None);
    assert_eq!(StreamId::parse("a-b"), None);
    assert_eq!(StreamId::parse("１-２"), None);
    assert_eq!(IdRequest::parse("*"), Some(IdRequest { ms: None, seq: None }));
    assert_eq!(IdRequest::parse("5-*"), Some(IdRequest { ms: Some(5), seq: None }));
    assert_eq!(IdRequest::parse("*-7"), Some(IdRequest { ms: None, seq: Some(7) }));
    assert_eq!(
        IdRequest { ms: Some(5), seq: None }.resolve(Some(&id(5, 8)), None),
        Ok(id(5, 9))
    );
    assert_eq!(IdRequest::parse("**"), None);
    assert_eq!(IdRequest::parse(""), None);
}

#[test]
fn identifiers_are_ordered_by_number() {
    assert!(id(9, 0).is_before(&id(10, 0)));
    assert!(id(5, 1).is_before(&id(5, 2)));
    assert!(!id(5, 2).is_before(&id(5, 2)));
    assert!(!id(6, 0).is_before(&id(5, 9)));
    assert_eq!(StreamId::min(), id(0, 0));
    assert_eq!(StreamId::max(), id(u128::MAX, u64::MAX));
}

#[test]
fn new_identifiers_follow_the_last_one() {
    let last = id(1000, 0);
    let now = Some(2000);
    assert_eq!(derive_new_stream_id_at("1000-1", Some(&last), now), Ok(id(1000, 1)));
    assert_eq!(derive_new_stream_id_at("1000-*", Some(&last), now), Ok(id(1000, 1)));
    assert_eq!(derive_new_stream_id_at("1001-*", Some(&last), now), Ok(id(1001, 0)));
    assert_eq!(derive_new_stream_id_at("*", Some(&last), now), Ok(id(2000, 0)));
    assert_eq!(derive_new_stream_id_at("*", Some(&id(2000, 4)), now), Ok(id(2000, 5)));
    assert_eq!(derive_new_stream_id_at("*-9", Some(&last), now), Ok(id(2000, 9)));
    assert_eq!(
        derive_new_stream_id_at("999-*", Some(&last), now),
        Err(DbError::StreamIdNotGreater)
    );
    assert_eq!(
        derive_new_stream_id_at("1000-0", Some(&last), now),
        Err(DbError::StreamIdNotGreater)
    );
    assert_eq!(
        derive_new_stream_id_at("999-5", Some(&last), now),
        Err(DbError::StreamIdNotGreater)
    );
    assert_eq!(
        derive_new_stream_id_at("*", Some(&id(3000, 0)), now),
        Err(DbError::StreamIdNotGreater)
    );
    assert_eq!(
        derive_new_stream_id_at("7-*", Some(&id(7, u64::MAX)), now),
        Err(DbError::StreamIdNotGreater)
    );
    assert_eq!(derive_new_stream_id_at("0-0", Some(&last), now), Err(DbError::StreamIdZero));
    assert_eq!(derive_new_stream_id_at("0-*", Some(&last), now), Err(DbError::StreamIdZero));
}

#[test]
fn new_identifiers_of_an_empty_stream() {
    let now = Some(2000);
    assert_eq!(derive_new_stream_id_at("0-*", None, now), Ok(id(0, 1)));
    assert_eq!(derive_new_stream_id_at("5-*", None, now), Ok(id(5, 0)));
    assert_eq!(derive_new_stream_id_at("*", None, now), Ok(id(2000, 0)));
    assert_eq!(derive_new_stream_id_at("*", None, Some(0)), Err(DbError::StreamIdZero));
    assert_eq!(derive_new_stream_id_at("0-0", None, now), Err(DbError::StreamIdZero));
    assert_eq!(derive_new_stream_id_at("0-1", None, now), Ok(id(0, 1)));
    assert_eq!(
        derive_new_stream_id_at("soon", None, now),
        Err(DbError::InvalidIdFormat("soon".to_string()))
    );
    assert_eq!(
        derive_new_stream_id_at("1-x", None, now),
        Err(DbError::InvalidIdFormat("1-x".to_string()))
    );
    assert_eq!(derive_new_stream_id_at("*", None, None), Err(DbError::ClockBeforeEpoch));
    assert_eq!(derive_new_stream_id_at("4-*", None, None), Ok(id(4, 0)));
}

#[test]
fn the_wall_clock_is_read_for_automatic_identifiers() {
    let first = derive_new_stream_id("*", None).unwrap();
    assert!(first.ms > 1_600_000_000_000);
    assert_eq!(first.seq, 0);
    assert_eq!(derive_new_stream_id("3-4", Some(&id(3, 3))), Ok(id(3, 4)));
    assert_eq!(
        derive_new_stream_id("3-3", Some(&id(3, 3))),
        Err(DbError::StreamIdNotGreater)
    );
}

#[test]
fn fields_are_assembled_with_the_last_value_winning() {
    let pairs = vec![
        ("a".to_string(), "1".to_string()),
        ("b".to_string(), "2".to_string()),
        ("a".to_string(), "3".to_string()),
        ("c".to_string(), "4".to_string()),
        ("b".to_string(), "5".to_string()),
    ];
    assert_eq!(
        assemble_fields(&pairs),
        vec![
            ("a".to_string(), "3".to_string()),
            ("b".to_string(), "5".to_string()),
            ("c".to_string(), "4".to_string()),
        ]
    );
    assert_eq!(assemble_fields(&vec![]), vec![]);
}

#[test]
fn a_wait_is_split_into_seconds_and_nanoseconds() {
    assert_eq!(Wait::Forever.limit(), None);
    assert_eq!(Wait::Nanos(0).limit(), Some((0, 0)));
    assert_eq!(Wait::Nanos(50_000_000).limit(), Some((0, 50_000_000)));
    assert_eq!(Wait::Nanos(5_000_000_001).limit(), Some((5, 1)));
    assert_eq!(
        Wait::Nanos(18_446_744_073_709_551_615_999_999_999).limit(),
        Some((u64::MAX, 999_999_999))
    );
    assert_eq!(Wait::Nanos(u128::MAX).limit(), Some((u64::MAX, 768_211_455)));
}
