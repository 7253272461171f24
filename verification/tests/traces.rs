use substrate_archive::error::ArchiveError;
use substrate_archive::traces::{
    narrow_id, narrow_parent, normalize, shave_nanos, time_to_std, SpanMessage, TraceSpan,
    MAX_SPAN_ID,
};
use substrate_archive::value::{Duration, TimeDelta, Timestamp};

fn raw(id: u64, parent_id: Option<u64>, nanos: i128) -> SpanMessage {
    SpanMessage {
        id,
        parent_id,
        name: "n".to_string(),
        target: "t".to_string(),
        start_time: Timestamp { secs: -5, nanos: 999_999_999 },
        overall_time: TimeDelta { nanos },
        file: None,
        line: Some(1),
        values: Vec::new(),
    }
}

#[test]
fn identifiers_narrow_up_to_the_largest_32_bit_one() {
    assert_eq!(MAX_SPAN_ID, i32::MAX as u64);
    assert_eq!(narrow_id(0), Ok(0));
    assert_eq!(narrow_id(12_345), Ok(12_345));
    assert_eq!(narrow_id(2_147_483_647), Ok(2_147_483_647));
    assert_eq!(narrow_id(2_147_483_648), Err(ArchiveError::IdentifierOutOfRange));
    assert_eq!(narrow_id(u64::from(u32::MAX)), Err(ArchiveError::IdentifierOutOfRange));
    assert_eq!(narrow_id(u64::MAX), Err(ArchiveError::IdentifierOutOfRange));
}

#[test]
fn a_parent_narrows_like_the_span() {
    assert_eq!(narrow_parent(None), Ok(None));
    assert_eq!(narrow_parent(Some(8)), Ok(Some(8)));
    assert_eq!(narrow_parent(Some(1 << 31)), Err(ArchiveError::IdentifierOutOfRange));
}

#[test]
fn a_negative_difference_is_no_duration() {
    assert_eq!(time_to_std(TimeDelta { nanos: -1 }), Err(ArchiveError::TimestampOutOfRange));
    assert_eq!(time_to_std(TimeDelta { nanos: i128::MIN }), Err(ArchiveError::TimestampOutOfRange));
    assert_eq!(time_to_std(TimeDelta { nanos: 0 }), Ok(Duration { nanos: 0 }));
    assert_eq!(time_to_std(TimeDelta { nanos: 1_500 }), Ok(Duration { nanos: 1_500 }));
}

#[test]
fn durations_are_cut_down_to_whole_microseconds() {
    assert_eq!(shave_nanos(Duration { nanos: 1_234_567 }), Ok(Duration { nanos: 1_234_000 }));
    assert_eq!(shave_nanos(Duration { nanos: 999 }), Ok(Duration { nanos: 0 }));
    assert_eq!(shave_nanos(Duration { nanos: 1_000 }), Ok(Duration { nanos: 1_000 }));
    assert_eq!(shave_nanos(Duration { nanos: 1_999 }), Ok(Duration { nanos: 1_000 }));
    assert_eq!(shave_nanos(Duration { nanos: 0 }), Ok(Duration { nanos: 0 }));
    assert_eq!(
        shave_nanos(Duration { nanos: u128::MAX }),
        Ok(Duration { nanos: u128::MAX - u128::MAX % 1000 })
    );
}

#[test]
fn cutting_down_twice_changes_nothing() {
    let once = shave_nanos(Duration { nanos: 987_654_321 }).unwrap();
    assert_eq!(shave_nanos(once), Ok(once));
}

#[test]
fn a_span_takes_the_shape_of_a_row() {
    let normal = normalize(4, vec![4, 4], raw(3, Some(2), 1_234_567)).unwrap();
    assert_eq!(
        normal,
        TraceSpan {
            block_number: 4,
            block_hash: vec![4, 4],
            is_event: false,
            start_time: Timestamp { secs: -5, nanos: 999_999_999 },
            duration: Duration { nanos: 1_234_000 },
            source_file: None,
            source_line: Some(1),
            span_id: 3,
            parent_span_id: Some(2),
            target: "t".to_string(),
            name: "n".to_string(),
            payload: Vec::new(),
        }
    );
}

#[test]
fn normalising_again_gives_the_same_span() {
    let once = normalize(4, vec![4], raw(3, Some(2), 1_234_567)).unwrap();
    let again = normalize(
        4,
        vec![4],
        raw(once.span_id as u64, once.parent_span_id.map(|p| p as u64), once.duration.nanos as i128),
    )
    .unwrap();
    assert_eq!(again, once);
}

#[test]
fn a_span_is_refused_for_its_identifier_before_its_duration() {
    assert_eq!(normalize(1, vec![], raw(1 << 31, None, -1)), Err(ArchiveError::IdentifierOutOfRange));
    assert_eq!(
        normalize(1, vec![], raw(1, Some(1 << 31), -1)),
        Err(ArchiveError::IdentifierOutOfRange)
    );
    assert_eq!(normalize(1, vec![], raw(1, Some(1), -1)), Err(ArchiveError::TimestampOutOfRange));
}
