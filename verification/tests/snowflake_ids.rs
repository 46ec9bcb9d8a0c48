//! The snowflake identifier generator: uniqueness and ordering of issued
//! identifiers, component packing, and the decimal string round trip.

use bonfire::channel::ChannelId;
use bonfire::decimal::i64_to_string;
use bonfire::decimal::parse_i64;
use bonfire::decimal::parse_u64;
use bonfire::decimal::u64_to_string;
use bonfire::snowflake::from_parts;
use bonfire::snowflake::instance_of;
use bonfire::snowflake::sequence_of;
use bonfire::snowflake::timestamp_of;
use bonfire::snowflake::IdGenerator;

#[test]
fn generated_ids_distinct_and_increasing() {
    let mut g = IdGenerator::new(0);
    let mut last: Option<u64> = None;
    // Stay inside one millisecond long enough to exhaust the sequence
    // field, then let the clock advance.
    for round in 0..5000u64 {
        let now = if round < 4500 { 1000 } else { 2000 + round };
        assert!(!g.exhausted());
        let id = g.generate(now);
        if let Some(prev) = last {
            assert!(id > prev, "identifiers must strictly increase");
        }
        last = Some(id);
    }
}

#[test]
fn generator_survives_clock_regression() {
    let mut g = IdGenerator::new(3);
    let a = g.generate(1000);
    let b = g.generate(500);
    let c = g.generate(0);
    assert!(a < b && b < c);
}

#[test]
fn distinct_instances_never_collide() {
    let mut g0 = IdGenerator::new(0);
    let mut g1 = IdGenerator::new(1);
    let a = g0.generate(1000);
    let b = g1.generate(1000);
    assert_ne!(a, b);
    assert_eq!(instance_of(a), 0);
    assert_eq!(instance_of(b), 1);
}

#[test]
fn pack_and_unpack_components() {
    let id = from_parts(123456, 37, 99);
    assert_eq!(timestamp_of(id), 123456);
    assert_eq!(instance_of(id), 37);
    assert_eq!(sequence_of(id), 99);
}

#[test]
fn packed_order_follows_timestamp_then_sequence() {
    assert!(from_parts(5, 1023, 4095) < from_parts(6, 0, 0));
    assert!(from_parts(5, 0, 7) < from_parts(5, 0, 8));
}

#[test]
fn channel_id_string_round_trip() {
    let id = ChannelId(from_parts(123456, 0, 1));
    let s = id.to_string();
    assert_eq!(ChannelId::from_str(&s), Some(id));
    assert_eq!(ChannelId::from_str("not a number"), None);
    assert_eq!(ChannelId::from_str(""), None);
}

#[test]
fn decimal_u64_round_trip() {
    assert_eq!(u64_to_string(0), "0");
    assert_eq!(u64_to_string(12345), "12345");
    assert_eq!(u64_to_string(u64::MAX), "18446744073709551615");
    assert_eq!(parse_u64("18446744073709551615"), Some(u64::MAX));
    assert_eq!(parse_u64("18446744073709551616"), None);
    assert_eq!(parse_u64("007"), Some(7));
    assert_eq!(parse_u64("+7"), Some(7), "one leading plus sign is accepted");
    assert_eq!(parse_u64("+"), None);
    assert_eq!(parse_u64("++7"), None);
    assert_eq!(parse_u64(""), None);
}

#[test]
fn decimal_i64_round_trip() {
    assert_eq!(i64_to_string(-42), "-42");
    assert_eq!(i64_to_string(i64::MIN), "-9223372036854775808");
    assert_eq!(parse_i64("-9223372036854775808"), Some(i64::MIN));
    assert_eq!(parse_i64("-9223372036854775809"), None);
    assert_eq!(parse_i64("9223372036854775807"), Some(i64::MAX));
    assert_eq!(parse_i64("9223372036854775808"), None);
    assert_eq!(parse_i64("-0"), Some(0));
    assert_eq!(parse_i64("+5"), Some(5));
    assert_eq!(parse_i64("-+5"), None, "at most one sign character");
    assert_eq!(parse_i64("-"), None);
}
