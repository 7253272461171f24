use substrate_archive::database::{
    Data, Insert, BLOCKS_LEADING, BLOCKS_TRAILING, INSERT_BLOCK, INSERT_EVENT, INSERT_METADATA,
    INSERT_STORAGE, STORAGE_LEADING, STORAGE_TRAILING, TRACES_LEADING, TRACES_TRAILING,
};
use substrate_archive::error::ArchiveError;
use substrate_archive::traces::{EventMessage, SpanMessage, Traces};
use substrate_archive::types::{BatchBlock, Block, Metadata, StorageModel};
use substrate_archive::value::{Duration, SqlType, SqlValue, TimeDelta, Timestamp};

fn block(number: u32, hash: u8) -> Block {
    Block {
        parent_hash: vec![hash.wrapping_sub(1); 32],
        hash: vec![hash; 32],
        number,
        state_root: vec![0xaa, hash],
        extrinsics_root: vec![0xbb, hash],
        digest: vec![0xcc],
        extrinsics: vec![0xdd, 0xee],
        spec: 26,
    }
}

fn block_arguments(number: u32, hash: u8) -> Vec<SqlValue> {
    vec![
        SqlValue::Bytes(vec![hash.wrapping_sub(1); 32]),
        SqlValue::Bytes(vec![hash; 32]),
        SqlValue::UInt(number),
        SqlValue::Bytes(vec![0xaa, hash]),
        SqlValue::Bytes(vec![0xbb, hash]),
        SqlValue::Bytes(vec![0xcc]),
        SqlValue::Bytes(vec![0xdd, 0xee]),
        SqlValue::UInt(26),
    ]
}

fn span(id: u64, parent_id: Option<u64>, nanos: i128) -> SpanMessage {
    SpanMessage {
        id,
        parent_id,
        name: "execute_block".to_string(),
        target: "frame_executive".to_string(),
        start_time: Timestamp { secs: 1_600_000_000, nanos: 42 },
        overall_time: TimeDelta { nanos },
        file: Some("lib.rs".to_string()),
        line: Some(7),
        values: vec![("extrinsic".to_string(), "0x00".to_string())],
    }
}

#[test]
fn one_block_is_one_statement_of_eight_parameters() {
    let statements = block(1, 1).insert().unwrap();
    assert_eq!(statements.len(), 1);
    assert_eq!(statements[0].sql, INSERT_BLOCK);
    assert!(statements[0].sql.ends_with("ON CONFLICT DO NOTHING"));
    assert!(statements[0].sql.contains("$8"));
    assert_eq!(statements[0].arguments, block_arguments(1, 1));
}

#[test]
fn inserting_a_block_again_sends_the_same_statement() {
    let first = block(5, 9).insert().unwrap();
    let second = block(5, 9).insert().unwrap();
    assert_eq!(first, second);
}

#[test]
fn three_blocks_in_one_batch() {
    let blocks = vec![block(1, 1), block(2, 2), block(3, 3)];
    let statements = BatchBlock::new(blocks.clone()).insert().unwrap();
    assert_eq!(statements.len(), 1);
    let mut sql = String::from(BLOCKS_LEADING);
    sql.push_str("($1,$2,$3,$4,$5,$6,$7,$8),($9,$10,$11,$12,$13,$14,$15,$16),");
    sql.push_str("($17,$18,$19,$20,$21,$22,$23,$24)");
    sql.push_str(BLOCKS_TRAILING);
    assert_eq!(statements[0].sql, sql);
    let mut arguments = block_arguments(1, 1);
    arguments.extend(block_arguments(2, 2));
    arguments.extend(block_arguments(3, 3));
    assert_eq!(statements[0].arguments, arguments);
    let again = BatchBlock::new(blocks).insert().unwrap();
    assert_eq!(again, statements);
}

#[test]
fn an_empty_batch_of_blocks_sends_nothing() {
    assert_eq!(BatchBlock::new(Vec::new()).insert(), Ok(Vec::new()));
}

#[test]
fn a_large_batch_of_blocks_is_split() {
    let blocks: Vec<Block> = (0..3751).map(|n| block(n, (n % 251) as u8)).collect();
    let statements = BatchBlock::new(blocks).insert().unwrap();
    assert_eq!(statements.len(), 2);
    assert_eq!(statements[0].arguments.len(), 30_000);
    assert_eq!(statements[1].arguments, block_arguments(3750, (3750 % 251) as u8));
    let mut last = String::from(BLOCKS_LEADING);
    last.push_str("($1,$2,$3,$4,$5,$6,$7,$8)");
    last.push_str(BLOCKS_TRAILING);
    assert_eq!(statements[1].sql, last);
}

#[test]
fn one_storage_entry_with_and_without_a_value() {
    let entry = StorageModel {
        block_num: 3,
        hash: vec![3; 32],
        full_storage: true,
        key: vec![1, 2],
        data: Some(vec![9]),
    };
    let statements = entry.insert().unwrap();
    assert_eq!(statements.len(), 1);
    assert_eq!(statements[0].sql, INSERT_STORAGE);
    assert!(statements[0].sql.contains("ON CONFLICT (hash, key, md5(storage)) DO UPDATE SET"));
    assert!(statements[0].sql.contains("is_full = EXCLUDED.is_full"));
    assert_eq!(
        statements[0].arguments,
        vec![
            SqlValue::UInt(3),
            SqlValue::Bytes(vec![3; 32]),
            SqlValue::Bool(true),
            SqlValue::Bytes(vec![1, 2]),
            SqlValue::Bytes(vec![9]),
        ]
    );
    let deleted = StorageModel {
        block_num: 4,
        hash: vec![4; 32],
        full_storage: false,
        key: vec![1, 2],
        data: None,
    };
    let statements = deleted.insert().unwrap();
    assert_eq!(statements[0].arguments[2], SqlValue::Bool(false));
    assert_eq!(statements[0].arguments[4], SqlValue::Null(SqlType::Bytes));
}

#[test]
fn the_same_entry_with_another_snapshot_flag_differs_only_there() {
    let entry = |full_storage| StorageModel {
        block_num: 3,
        hash: vec![3; 32],
        full_storage,
        key: vec![1, 2],
        data: Some(vec![9]),
    };
    let partial = entry(false).insert().unwrap();
    let full = entry(true).insert().unwrap();
    assert_eq!(partial[0].sql, full[0].sql);
    for column in [0, 1, 3, 4] {
        assert_eq!(partial[0].arguments[column], full[0].arguments[column]);
    }
    assert_eq!(partial[0].arguments[2], SqlValue::Bool(false));
    assert_eq!(full[0].arguments[2], SqlValue::Bool(true));
}

#[test]
fn storage_entries_in_one_batch() {
    let entries = vec![
        StorageModel {
            block_num: 1,
            hash: vec![1],
            full_storage: false,
            key: vec![7],
            data: None,
        },
        StorageModel {
            block_num: 2,
            hash: vec![2],
            full_storage: true,
            key: vec![8],
            data: Some(vec![5, 5]),
        },
    ];
    let statements = entries.insert().unwrap();
    assert_eq!(statements.len(), 1);
    let mut sql = String::from(STORAGE_LEADING);
    sql.push_str("($1,$2,$3,$4,$5),($6,$7,$8,$9,$10)");
    sql.push_str(STORAGE_TRAILING);
    assert_eq!(statements[0].sql, sql);
    assert_eq!(
        statements[0].arguments,
        vec![
            SqlValue::UInt(1),
            SqlValue::Bytes(vec![1]),
            SqlValue::Bool(false),
            SqlValue::Bytes(vec![7]),
            SqlValue::Null(SqlType::Bytes),
            SqlValue::UInt(2),
            SqlValue::Bytes(vec![2]),
            SqlValue::Bool(true),
            SqlValue::Bytes(vec![8]),
            SqlValue::Bytes(vec![5, 5]),
        ]
    );
}

#[test]
fn metadata_is_one_statement_of_two_parameters() {
    let statements = Metadata { version: 12, meta: vec![1, 2, 3] }.insert().unwrap();
    assert_eq!(statements.len(), 1);
    assert_eq!(statements[0].sql, INSERT_METADATA);
    assert_eq!(statements[0].arguments, vec![SqlValue::UInt(12), SqlValue::Bytes(vec![1, 2, 3])]);
}

#[test]
fn an_event_is_one_statement_of_ten_parameters() {
    let event = EventMessage {
        block_num: 9,
        hash: vec![9; 4],
        parent_id: 77,
        time: Timestamp { secs: 10, nanos: 20 },
        file: None,
        line: None,
        target: "pallet".to_string(),
        name: "event".to_string(),
        traces: vec![("k".to_string(), "v".to_string())],
    };
    let statements = event.insert().unwrap();
    assert_eq!(statements.len(), 1);
    assert_eq!(statements[0].sql, INSERT_EVENT);
    assert!(statements[0].sql.contains("$10"));
    assert_eq!(
        statements[0].arguments,
        vec![
            SqlValue::UInt(9),
            SqlValue::Bytes(vec![9; 4]),
            SqlValue::Bool(true),
            SqlValue::Timestamp(Timestamp { secs: 10, nanos: 20 }),
            SqlValue::Null(SqlType::Text),
            SqlValue::Null(SqlType::UInt),
            SqlValue::Int(77),
            SqlValue::Text("pallet".to_string()),
            SqlValue::Text("event".to_string()),
            SqlValue::Json(vec![("k".to_string(), "v".to_string())]),
        ]
    );
}

#[test]
fn an_event_under_a_span_beyond_32_bits_is_refused() {
    let event = EventMessage {
        block_num: 9,
        hash: vec![9; 4],
        parent_id: 1 << 31,
        time: Timestamp { secs: 10, nanos: 20 },
        file: None,
        line: None,
        target: String::new(),
        name: String::new(),
        traces: Vec::new(),
    };
    assert_eq!(event.insert(), Err(ArchiveError::IdentifierOutOfRange));
}

#[test]
fn spans_are_normalised_into_rows_of_twelve_parameters() {
    let traces = Traces {
        block_num: 11,
        hash: vec![0xab; 32],
        spans: vec![span(1, None, 1_234_567), span(2, Some(1), 5_000)],
    };
    let statements = traces.insert().unwrap();
    assert_eq!(statements.len(), 1);
    let mut sql = String::from(TRACES_LEADING);
    sql.push_str("($1,$2,$3,$4,$5,$6,$7,$8,$9,$10,$11,$12),");
    sql.push_str("($13,$14,$15,$16,$17,$18,$19,$20,$21,$22,$23,$24)");
    sql.push_str(TRACES_TRAILING);
    assert_eq!(statements[0].sql, sql);
    let row = |id: i32, parent: SqlValue, nanos: u128| {
        vec![
            SqlValue::UInt(11),
            SqlValue::Bytes(vec![0xab; 32]),
            SqlValue::Bool(false),
            SqlValue::Timestamp(Timestamp { secs: 1_600_000_000, nanos: 42 }),
            SqlValue::Interval(Duration { nanos }),
            SqlValue::Text("lib.rs".to_string()),
            SqlValue::UInt(7),
            SqlValue::Int(id),
            parent,
            SqlValue::Text("frame_executive".to_string()),
            SqlValue::Text("execute_block".to_string()),
            SqlValue::Json(vec![("extrinsic".to_string(), "0x00".to_string())]),
        ]
    };
    let mut arguments = row(1, SqlValue::Null(SqlType::Int), 1_234_000);
    arguments.extend(row(2, SqlValue::Int(1), 5_000));
    assert_eq!(statements[0].arguments, arguments);
}

#[test]
fn no_spans_send_nothing() {
    let traces = Traces { block_num: 1, hash: vec![1], spans: Vec::new() };
    assert_eq!(traces.insert(), Ok(Vec::new()));
}

#[test]
fn a_span_beyond_32_bits_refuses_the_traces() {
    let traces = Traces {
        block_num: 1,
        hash: vec![1],
        spans: vec![span(1, None, 0), span(u64::from(u32::MAX), None, 0)],
    };
    assert_eq!(traces.insert(), Err(ArchiveError::IdentifierOutOfRange));
    let traces = Traces {
        block_num: 1,
        hash: vec![1],
        spans: vec![span(1, Some(2_147_483_648), 0)],
    };
    assert_eq!(traces.insert(), Err(ArchiveError::IdentifierOutOfRange));
    let traces = Traces {
        block_num: 1,
        hash: vec![1],
        spans: vec![span(2_147_483_647, Some(2_147_483_647), 0)],
    };
    assert_eq!(traces.insert().unwrap()[0].arguments[7], SqlValue::Int(i32::MAX));
}

#[test]
fn a_negative_duration_refuses_the_traces() {
    let traces = Traces { block_num: 1, hash: vec![1], spans: vec![span(1, None, -1)] };
    assert_eq!(traces.insert(), Err(ArchiveError::TimestampOutOfRange));
}

#[test]
fn a_duration_beyond_the_interval_refuses_the_traces() {
    let longest = (i64::MAX as i128) * 1000 + 999;
    let traces = Traces { block_num: 1, hash: vec![1], spans: vec![span(1, None, longest)] };
    assert_eq!(
        traces.insert().unwrap()[0].arguments[4],
        SqlValue::Interval(Duration { nanos: (i64::MAX as u128) * 1000 })
    );
    let traces = Traces { block_num: 1, hash: vec![1], spans: vec![span(1, None, longest + 1)] };
    assert_eq!(traces.insert(), Err(ArchiveError::EncodingError));
}

#[test]
fn the_first_refused_span_decides_the_error() {
    let longest = (i64::MAX as i128) * 1000 + 999;
    let traces = Traces {
        block_num: 1,
        hash: vec![1],
        spans: vec![span(1, None, 0), span(2, None, longest + 1), span(1 << 40, None, -5)],
    };
    assert_eq!(traces.insert(), Err(ArchiveError::EncodingError));
    let traces = Traces {
        block_num: 1,
        hash: vec![1],
        spans: vec![span(1, None, -5), span(1 << 40, None, 0)],
    };
    assert_eq!(traces.insert(), Err(ArchiveError::TimestampOutOfRange));
    let traces =
        Traces { block_num: 1, hash: vec![1], spans: vec![span(1 << 40, Some(1 << 41), -5)] };
    assert_eq!(traces.insert(), Err(ArchiveError::IdentifierOutOfRange));
}

#[test]
fn data_sends_what_its_kind_sends() {
    assert_eq!(Data::Block(block(1, 1)).insert(), block(1, 1).insert());
    let blocks = vec![block(1, 1), block(2, 2)];
    assert_eq!(
        Data::BatchBlock(BatchBlock::new(blocks.clone())).insert(),
        BatchBlock::new(blocks).insert()
    );
    let entry = StorageModel {
        block_num: 1,
        hash: vec![1],
        full_storage: false,
        key: vec![7],
        data: None,
    };
    assert_eq!(Data::Storage(entry.clone()).insert(), entry.clone().insert());
    assert_eq!(Data::BatchStorage(vec![entry.clone()]).insert(), vec![entry].insert());
    let metadata = Metadata { version: 1, meta: vec![1] };
    assert_eq!(Data::Metadata(metadata.clone()).insert(), metadata.insert());
    let traces = Traces { block_num: 1, hash: vec![1], spans: vec![span(1, None, 1)] };
    assert_eq!(Data::Traces(traces.clone()).insert(), traces.insert());
    assert_eq!(Data::SyncProgress(12).insert(), Ok(Vec::new()));
}

#[test]
fn a_time_beyond_the_wire_format_refuses_the_event_and_the_traces() {
    let event = |secs, parent_id| EventMessage {
        block_num: 9,
        hash: vec![9; 4],
        parent_id,
        time: Timestamp { secs, nanos: 0 },
        file: None,
        line: None,
        target: String::new(),
        name: String::new(),
        traces: Vec::new(),
    };
    assert!(event(0, 1).insert().is_ok());
    assert_eq!(event(i64::MAX, 1).insert(), Err(ArchiveError::EncodingError));
    assert_eq!(event(i64::MAX, 1 << 31).insert(), Err(ArchiveError::IdentifierOutOfRange));
    let mut late = span(1, None, 0);
    late.start_time = Timestamp { secs: i64::MIN, nanos: 0 };
    let traces = Traces { block_num: 1, hash: vec![1], spans: vec![span(2, None, 0), late] };
    assert_eq!(traces.insert(), Err(ArchiveError::EncodingError));
}
