use substrate_archive::error::ArchiveError;
use substrate_archive::util::format_opt;
use substrate_archive::value::{Duration, SqlType, SqlValue, Timestamp, STORE_EPOCH_SECS};

#[test]
fn an_absent_field_is_empty_text() {
    assert_eq!(format_opt(None), "");
    assert_eq!(format_opt(Some("src/lib.rs".to_string())), "src/lib.rs");
    assert_eq!(format_opt(Some(String::new())), "");
}

#[test]
fn only_a_row_beyond_the_ceiling_is_fatal() {
    assert!(ArchiveError::ParameterLimitExceeded.is_fatal());
    for error in [
        ArchiveError::EncodingError,
        ArchiveError::IdentifierOutOfRange,
        ArchiveError::TimestampOutOfRange,
        ArchiveError::StoreError,
        ArchiveError::NodeCommunicationError,
    ] {
        assert!(!error.is_fatal());
    }
}

#[test]
fn only_times_can_be_beyond_the_wire_format() {
    assert!(SqlValue::Null(SqlType::Interval).is_encodable());
    assert!(SqlValue::Bool(true).is_encodable());
    assert!(SqlValue::UInt(u32::MAX).is_encodable());
    assert!(SqlValue::Int(i32::MIN).is_encodable());
    assert!(SqlValue::Bytes(vec![0; 3]).is_encodable());
    assert!(SqlValue::Text("\u{0}".to_string()).is_encodable());
    assert!(SqlValue::Json(vec![(String::new(), String::new())]).is_encodable());
    assert!(SqlValue::Interval(Duration { nanos: 0 }).is_encodable());
    assert!(SqlValue::Interval(Duration { nanos: 2_000 }).is_encodable());
    assert!(!SqlValue::Interval(Duration { nanos: 2_001 }).is_encodable());
    assert!(SqlValue::Interval(Duration { nanos: 9_223_372_036_854_775_807_000 }).is_encodable());
    assert!(!SqlValue::Interval(Duration { nanos: 9_223_372_036_854_775_808_000 }).is_encodable());
    assert!(SqlValue::Timestamp(Timestamp { secs: 0, nanos: 0 }).is_encodable());
    assert!(SqlValue::Timestamp(Timestamp { secs: i64::MAX / 1_000_000, nanos: 0 }).is_encodable());
    assert!(!SqlValue::Timestamp(Timestamp { secs: i64::MAX, nanos: 0 }).is_encodable());
    assert!(!SqlValue::Timestamp(Timestamp { secs: i64::MIN, nanos: 0 }).is_encodable());
}

#[test]
fn an_interval_is_carried_in_whole_microseconds() {
    assert_eq!(Duration { nanos: 0 }.to_micros(), Some(0));
    assert_eq!(Duration { nanos: 1_234_000 }.to_micros(), Some(1_234));
    assert_eq!(Duration { nanos: 1_234_567 }.to_micros(), None);
    assert_eq!(Duration { nanos: 9_223_372_036_854_775_807_000 }.to_micros(), Some(i64::MAX));
    assert_eq!(Duration { nanos: 9_223_372_036_854_775_808_000 }.to_micros(), None);
    assert_eq!(Duration { nanos: u128::MAX }.to_micros(), None);
}

#[test]
fn a_point_in_time_is_carried_in_microseconds_since_2000() {
    assert_eq!(STORE_EPOCH_SECS, 946_684_800);
    assert_eq!(Timestamp { secs: 946_684_800, nanos: 0 }.to_micros(), Some(0));
    assert_eq!(Timestamp { secs: 946_684_801, nanos: 2_999 }.to_micros(), Some(1_000_002));
    assert_eq!(Timestamp { secs: 0, nanos: 0 }.to_micros(), Some(-946_684_800_000_000));
    assert_eq!(Timestamp { secs: 946_684_799, nanos: 999_999_999 }.to_micros(), Some(-1));
    assert_eq!(
        Timestamp { secs: 1_600_000_000, nanos: 123_456_789 }.to_micros(),
        Some(653_315_200_123_456)
    );
    let last = Timestamp { secs: 9_224_318_721_654, nanos: 775_807_999 };
    assert_eq!(last.to_micros(), Some(i64::MAX));
    assert_eq!(Timestamp { secs: 9_224_318_721_654, nanos: 775_808_000 }.to_micros(), None);
    let first = Timestamp { secs: -9_222_425_352_055, nanos: 224_192_000 };
    assert_eq!(first.to_micros(), Some(i64::MIN));
    assert_eq!(Timestamp { secs: -9_222_425_352_055, nanos: 224_191_999 }.to_micros(), None);
    assert_eq!(Timestamp { secs: i64::MAX, nanos: u32::MAX }.to_micros(), None);
    assert_eq!(Timestamp { secs: i64::MIN, nanos: 0 }.to_micros(), None);
}
