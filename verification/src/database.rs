//! What each kind of data sends to the relational store.
//!
//! Inserting a value is building the statements that persist it and running
//! them over a connection. This module builds them: [`Insert::insert`]
//! consumes the value and hands out the statements in the order in which
//! they are to be run, each with its parameters. Every statement ends in a
//! conflict clause, so that it can be run again after a failure: a row that
//! the store already holds is left alone or, for storage, brought up to date.

pub mod batch;
pub mod decimal;

use crate::database::batch::{Batch, all_encodable, batched, row_is_encodable};
use crate::error::ArchiveError;
use crate::traces::{
    EventMessage, EventMessageView, SpanMessageView, TraceSpan, TraceSpanView, Traces, narrow_id,
    narrowed, normalize, normalized, spans_view,
};
use crate::types::{
    BatchBlock, Block, BlockView, Metadata, MetadataView, StorageModel, StorageView, blocks_view,
    storage_view,
};
use crate::value::{
    SqlType, SqlValue, SqlValueView, Statement, StatementView, statements_view, values_view,
};
use vstd::prelude::*;

verus! {

/// The statement that inserts one block.
pub const INSERT_BLOCK: &'static str =
    "INSERT INTO blocks (parent_hash, hash, block_num, state_root, extrinsics_root, digest, ext, spec) VALUES ($1, $2, $3, $4, $5, $6, $7, $8) ON CONFLICT DO NOTHING";

/// The table that blocks go to.
pub const BLOCKS_TABLE: &'static str = "blocks";

/// What every multi-row statement for blocks starts with.
pub const BLOCKS_LEADING: &'static str =
    "INSERT INTO \"blocks\" (parent_hash, hash, block_num, state_root, extrinsics_root, digest, ext, spec) VALUES ";

/// What every multi-row statement for blocks ends with.
pub const BLOCKS_TRAILING: &'static str = " ON CONFLICT DO NOTHING";

/// The statement that inserts one storage entry, or brings the entry that
/// the store holds under the same block hash, key and value up to date.
pub const INSERT_STORAGE: &'static str =
    "INSERT INTO storage (block_num, hash, is_full, key, storage) VALUES ($1, $2, $3, $4, $5) ON CONFLICT (hash, key, md5(storage)) DO UPDATE SET storage = EXCLUDED.storage, is_full = EXCLUDED.is_full";

/// The table that storage entries go to.
pub const STORAGE_TABLE: &'static str = "storage";

/// What every multi-row statement for storage entries starts with.
pub const STORAGE_LEADING: &'static str =
    "INSERT INTO \"storage\" (block_num, hash, is_full, key, storage) VALUES ";

/// What every multi-row statement for storage entries ends with.
pub const STORAGE_TRAILING: &'static str =
    " ON CONFLICT (hash, key, md5(storage)) DO UPDATE SET storage = EXCLUDED.storage, is_full = EXCLUDED.is_full";

/// The statement that inserts the metadata of one version.
pub const INSERT_METADATA: &'static str =
    "INSERT INTO metadata (version, meta) VALUES ($1, $2) ON CONFLICT DO NOTHING";

/// The name under which batches of trace spans are known.
pub const TRACES_TABLE: &'static str = "state_tracing";

/// What every multi-row statement for trace spans starts with.
pub const TRACES_LEADING: &'static str =
    "INSERT INTO \"state_traces\" (block_num, hash, is_event, timestamp, duration, file, line, trace_id, trace_parent_id, target, name, traces) VALUES ";

/// What every multi-row statement for trace spans ends with.
pub const TRACES_TRAILING: &'static str = " ON CONFLICT DO NOTHING";

/// The statement that inserts one event.
pub const INSERT_EVENT: &'static str =
    "INSERT INTO state_traces (block_num, hash, is_event, timestamp, file, line, trace_parent_id, target, name, traces) VALUES ($1, $2, $3, $4, $5, $6, $7, $8, $9, $10) ON CONFLICT DO NOTHING";

/// What [`Insert::insert`] returns, by its view.
pub open spec fn outcome_view(result: Result<Vec<Statement>, ArchiveError>) -> Result<
    Seq<StatementView>,
    ArchiveError,
> {
    match result {
        Ok(statements) => Ok(statements_view(statements@)),
        Err(e) => Err(e),
    }
}

/// A kind of data that can be persisted.
pub trait Insert: Sized {
    /// The statements that persist the value, in the order in which they
    /// are to be run, or why the value is refused.
    spec fn insertion(&self) -> Result<Seq<StatementView>, ArchiveError>;

    /// Consumes the value and hands out what persists it.
    fn insert(self) -> (result: Result<Vec<Statement>, ArchiveError>)
        ensures
            outcome_view(result) == self.insertion(),
    ;
}

/// An optional text as a parameter: `NULL` where there is none.
pub open spec fn text_or_null(text: Option<Seq<char>>) -> SqlValueView {
    match text {
        Some(t) => SqlValueView::Text(t),
        None => SqlValueView::Null(SqlType::Text),
    }
}

/// Optional bytes as a parameter: `NULL` where there are none.
pub open spec fn bytes_or_null(bytes: Option<Seq<u8>>) -> SqlValueView {
    match bytes {
        Some(b) => SqlValueView::Bytes(b),
        None => SqlValueView::Null(SqlType::Bytes),
    }
}

/// An optional unsigned number as a parameter: `NULL` where there is none.
pub open spec fn uint_or_null(number: Option<u32>) -> SqlValueView {
    match number {
        Some(n) => SqlValueView::UInt(n),
        None => SqlValueView::Null(SqlType::UInt),
    }
}

/// An optional signed number as a parameter: `NULL` where there is none.
pub open spec fn int_or_null(number: Option<i32>) -> SqlValueView {
    match number {
        Some(n) => SqlValueView::Int(n),
        None => SqlValueView::Null(SqlType::Int),
    }
}

fn text_value(text: Option<String>) -> (value: SqlValue)
    ensures
        value@ == text_or_null(crate::types::text_view(text)),
{
    match text {
        Some(t) => SqlValue::Text(t),
        None => SqlValue::Null(SqlType::Text),
    }
}

fn bytes_value(bytes: Option<Vec<u8>>) -> (value: SqlValue)
    ensures
        value@ == bytes_or_null(crate::types::bytes_view(bytes)),
{
    match bytes {
        Some(b) => SqlValue::Bytes(b),
        None => SqlValue::Null(SqlType::Bytes),
    }
}

fn uint_value(number: Option<u32>) -> (value: SqlValue)
    ensures
        value@ == uint_or_null(number),
{
    match number {
        Some(n) => SqlValue::UInt(n),
        None => SqlValue::Null(SqlType::UInt),
    }
}

fn int_value(number: Option<i32>) -> (value: SqlValue)
    ensures
        value@ == int_or_null(number),
{
    match number {
        Some(n) => SqlValue::Int(n),
        None => SqlValue::Null(SqlType::Int),
    }
}

/// The parameters of one block, in the order of the table's columns.
pub open spec fn block_row(block: BlockView) -> Seq<SqlValueView> {
    seq![
        SqlValueView::Bytes(block.parent_hash),
        SqlValueView::Bytes(block.hash),
        SqlValueView::UInt(block.number),
        SqlValueView::Bytes(block.state_root),
        SqlValueView::Bytes(block.extrinsics_root),
        SqlValueView::Bytes(block.digest),
        SqlValueView::Bytes(block.extrinsics),
        SqlValueView::UInt(block.spec),
    ]
}

fn block_values(block: Block) -> (row: Vec<SqlValue>)
    ensures
        values_view(row@) == block_row(block@),
{
    let mut row: Vec<SqlValue> = Vec::new();
    row.push(SqlValue::Bytes(block.parent_hash));
    row.push(SqlValue::Bytes(block.hash));
    row.push(SqlValue::UInt(block.number));
    row.push(SqlValue::Bytes(block.state_root));
    row.push(SqlValue::Bytes(block.extrinsics_root));
    row.push(SqlValue::Bytes(block.digest));
    row.push(SqlValue::Bytes(block.extrinsics));
    row.push(SqlValue::UInt(block.spec));
    row
}

/// The parameters of one storage entry, in the order of the table's columns.
pub open spec fn storage_row(entry: StorageView) -> Seq<SqlValueView> {
    seq![
        SqlValueView::UInt(entry.block_num),
        SqlValueView::Bytes(entry.hash),
        SqlValueView::Bool(entry.full_storage),
        SqlValueView::Bytes(entry.key),
        bytes_or_null(entry.data),
    ]
}

fn storage_values(entry: StorageModel) -> (row: Vec<SqlValue>)
    ensures
        values_view(row@) == storage_row(entry@),
{
    let mut row: Vec<SqlValue> = Vec::new();
    row.push(SqlValue::UInt(entry.block_num));
    row.push(SqlValue::Bytes(entry.hash));
    row.push(SqlValue::Bool(entry.full_storage));
    row.push(SqlValue::Bytes(entry.key));
    row.push(bytes_value(entry.data));
    row
}

/// The parameters of the metadata of one version.
pub open spec fn metadata_row(metadata: MetadataView) -> Seq<SqlValueView> {
    seq![SqlValueView::UInt(metadata.version), SqlValueView::Bytes(metadata.meta)]
}

/// The parameters of one normalised span, in the order of the table's columns.
pub open spec fn span_row(span: TraceSpanView) -> Seq<SqlValueView> {
    seq![
        SqlValueView::UInt(span.block_number),
        SqlValueView::Bytes(span.block_hash),
        SqlValueView::Bool(span.is_event),
        SqlValueView::Timestamp(span.start_time),
        SqlValueView::Interval(span.duration),
        text_or_null(span.source_file),
        uint_or_null(span.source_line),
        SqlValueView::Int(span.span_id),
        int_or_null(span.parent_span_id),
        SqlValueView::Text(span.target),
        SqlValueView::Text(span.name),
        SqlValueView::Json(span.payload),
    ]
}

fn span_values(span: TraceSpan) -> (row: Vec<SqlValue>)
    ensures
        values_view(row@) == span_row(span@),
{
    let mut row: Vec<SqlValue> = Vec::new();
    row.push(SqlValue::UInt(span.block_number));
    row.push(SqlValue::Bytes(span.block_hash));
    row.push(SqlValue::Bool(span.is_event));
    row.push(SqlValue::Timestamp(span.start_time));
    row.push(SqlValue::Interval(span.duration));
    row.push(text_value(span.source_file));
    row.push(uint_value(span.source_line));
    row.push(SqlValue::Int(span.span_id));
    row.push(int_value(span.parent_span_id));
    row.push(SqlValue::Text(span.target));
    row.push(SqlValue::Text(span.name));
    row.push(SqlValue::Json(span.payload));
    row
}

/// The parameters of one event whose parent's identifier was narrowed to
/// `parent`, in the order of the statement's columns.
pub open spec fn event_row(event: EventMessageView, parent: i32) -> Seq<SqlValueView> {
    seq![
        SqlValueView::UInt(event.block_num),
        SqlValueView::Bytes(event.hash),
        SqlValueView::Bool(true),
        SqlValueView::Timestamp(event.time),
        text_or_null(event.file),
        uint_or_null(event.line),
        SqlValueView::Int(parent),
        SqlValueView::Text(event.target),
        SqlValueView::Text(event.name),
        SqlValueView::Json(event.traces),
    ]
}

/// One statement alone.
pub open spec fn single(sql: Seq<char>, arguments: Seq<SqlValueView>) -> Seq<StatementView> {
    seq![StatementView { sql, arguments }]
}

/// One statement alone, if the store's wire format can carry its
/// parameters.
pub open spec fn single_checked(sql: Seq<char>, arguments: Seq<SqlValueView>) -> Result<
    Seq<StatementView>,
    ArchiveError,
> {
    if all_encodable(arguments) {
        Ok(single(sql, arguments))
    } else {
        Err(ArchiveError::EncodingError)
    }
}

fn single_statement(sql: &str, arguments: Vec<SqlValue>) -> (result: Result<
    Vec<Statement>,
    ArchiveError,
>)
    ensures
        outcome_view(result) == single_checked(sql@, values_view(arguments@)),
{
    if !row_is_encodable(&arguments) {
        return Err(ArchiveError::EncodingError);
    }
    let mut statements: Vec<Statement> = Vec::new();
    statements.push(Statement { sql: sql.to_owned(), arguments });
    assert(statements_view(statements@) =~= single(sql@, values_view(arguments@)));
    Ok(statements)
}

impl Insert for Block {
    /// One statement with the block's eight parameters; a block whose hash
    /// the store already holds is left as it is.
    open spec fn insertion(&self) -> Result<Seq<StatementView>, ArchiveError> {
        Ok(single(INSERT_BLOCK@, block_row(self@)))
    }

    fn insert(self) -> (result: Result<Vec<Statement>, ArchiveError>) {
        single_statement(INSERT_BLOCK, block_values(self))
    }
}

impl Insert for StorageModel {
    /// One statement with the entry's five parameters; an entry that the
    /// store already holds is brought up to date.
    open spec fn insertion(&self) -> Result<Seq<StatementView>, ArchiveError> {
        Ok(single(INSERT_STORAGE@, storage_row(self@)))
    }

    fn insert(self) -> (result: Result<Vec<Statement>, ArchiveError>) {
        single_statement(INSERT_STORAGE, storage_values(self))
    }
}

impl Insert for Metadata {
    /// One statement with the version and the metadata; a version that the
    /// store already holds is left as it is.
    open spec fn insertion(&self) -> Result<Seq<StatementView>, ArchiveError> {
        Ok(single(INSERT_METADATA@, metadata_row(self@)))
    }

    fn insert(self) -> (result: Result<Vec<Statement>, ArchiveError>) {
        let mut row: Vec<SqlValue> = Vec::new();
        row.push(SqlValue::UInt(self.version));
        row.push(SqlValue::Bytes(self.meta));
        assert(values_view(row@) =~= metadata_row(self@));
        single_statement(INSERT_METADATA, row)
    }
}

impl Insert for EventMessage {
    /// One statement with the event's ten parameters, if the identifier of
    /// the span that the event belongs to fits the store's column and the
    /// store's wire format can carry the event's time.
    open spec fn insertion(&self) -> Result<Seq<StatementView>, ArchiveError> {
        match narrowed(self.parent_id) {
            Ok(parent) => single_checked(INSERT_EVENT@, event_row(self@, parent)),
            Err(e) => Err(e),
        }
    }

    fn insert(self) -> (result: Result<Vec<Statement>, ArchiveError>) {
        let parent = match narrow_id(self.parent_id) {
            Ok(parent) => parent,
            Err(e) => {
                return Err(e);
            },
        };
        let ghost view = self@;
        let mut row: Vec<SqlValue> = Vec::new();
        row.push(SqlValue::UInt(self.block_num));
        row.push(SqlValue::Bytes(self.hash));
        row.push(SqlValue::Bool(true));
        row.push(SqlValue::Timestamp(self.time));
        row.push(text_value(self.file));
        row.push(uint_value(self.line));
        row.push(SqlValue::Int(parent));
        row.push(SqlValue::Text(self.target));
        row.push(SqlValue::Text(self.name));
        row.push(SqlValue::Json(self.traces));
        assert(values_view(row@) =~= event_row(view, parent));
        single_statement(INSERT_EVENT, row)
    }
}

/// The parameters of blocks, row by row.
pub open spec fn block_rows(blocks: Seq<BlockView>) -> Seq<Seq<SqlValueView>> {
    Seq::new(blocks.len(), |i: int| block_row(blocks[i]))
}

/// The parameters of storage entries, row by row.
pub open spec fn storage_rows(entries: Seq<StorageView>) -> Seq<Seq<SqlValueView>> {
    Seq::new(entries.len(), |i: int| storage_row(entries[i]))
}

impl Insert for BatchBlock {
    /// The blocks as rows of multi-row statements, in their order; a block
    /// whose hash the store already holds is left as it is.
    open spec fn insertion(&self) -> Result<Seq<StatementView>, ArchiveError> {
        Ok(batched(BLOCKS_TABLE@, BLOCKS_LEADING@, BLOCKS_TRAILING@, block_rows(self@)))
    }

    fn insert(self) -> (result: Result<Vec<Statement>, ArchiveError>) {
        let ghost rows = block_rows(self@);
        let mut batch = Batch::new(BLOCKS_TABLE, BLOCKS_LEADING, BLOCKS_TRAILING);
        let ghost start = batch@;
        let count = self.inner.len();
        for block in it: self.inner
            invariant
                it.seq().len() == count,
                rows == block_rows(blocks_view(it.seq())),
                batch@.len == it.index(),
                batch@ == start.with_rows(rows.take(it.index() as int)),
        {
            let ghost j = it.index() as int;
            let row = block_values(block);
            match batch.push_row(row) {
                Ok(()) => {},
                Err(e) => {
                    return Err(e);
                },
            }
            assert(rows.take(j + 1).drop_last() =~= rows.take(j));
        }
        assert(rows.take(rows.len() as int) =~= rows);
        Ok(batch.finish())
    }
}

impl Insert for Vec<StorageModel> {
    /// The entries as rows of multi-row statements, in their order; an
    /// entry that the store already holds is brought up to date.
    open spec fn insertion(&self) -> Result<Seq<StatementView>, ArchiveError> {
        Ok(
            batched(
                STORAGE_TABLE@,
                STORAGE_LEADING@,
                STORAGE_TRAILING@,
                storage_rows(storage_view(self@)),
            ),
        )
    }

    fn insert(self) -> (result: Result<Vec<Statement>, ArchiveError>) {
        let ghost rows = storage_rows(storage_view(self@));
        let mut batch = Batch::new(STORAGE_TABLE, STORAGE_LEADING, STORAGE_TRAILING);
        let ghost start = batch@;
        let count = self.len();
        for entry in it: self
            invariant
                it.seq().len() == count,
                rows == storage_rows(storage_view(it.seq())),
                batch@.len == it.index(),
                batch@ == start.with_rows(rows.take(it.index() as int)),
        {
            let ghost j = it.index() as int;
            let row = storage_values(entry);
            match batch.push_row(row) {
                Ok(()) => {},
                Err(e) => {
                    return Err(e);
                },
            }
            assert(rows.take(j + 1).drop_last() =~= rows.take(j));
        }
        assert(rows.take(rows.len() as int) =~= rows);
        Ok(batch.finish())
    }
}

/// The parameters of one span of a block, or why the span is refused:
/// for what normalising it finds, or for a duration that the store's wire
/// format cannot carry.
pub open spec fn trace_row(block_num: u32, hash: Seq<u8>, span: SpanMessageView) -> Result<
    Seq<SqlValueView>,
    ArchiveError,
> {
    match normalized(block_num, hash, span) {
        Err(e) => Err(e),
        Ok(normal) => if all_encodable(span_row(normal)) {
            Ok(span_row(normal))
        } else {
            Err(ArchiveError::EncodingError)
        },
    }
}

/// The parameters of the spans of a block, row by row, or the error of
/// the first span that is refused.
pub open spec fn trace_rows(block_num: u32, hash: Seq<u8>, spans: Seq<SpanMessageView>) -> Result<
    Seq<Seq<SqlValueView>>,
    ArchiveError,
>
    decreases spans.len(),
{
    if spans.len() == 0 {
        Ok(Seq::empty())
    } else {
        match trace_rows(block_num, hash, spans.drop_last()) {
            Err(e) => Err(e),
            Ok(rows) => match trace_row(block_num, hash, spans.last()) {
                Err(e) => Err(e),
                Ok(row) => Ok(rows.push(row)),
            },
        }
    }
}

proof fn lemma_trace_rows_refused(
    block_num: u32,
    hash: Seq<u8>,
    spans: Seq<SpanMessageView>,
    k: int,
    n: int,
)
    requires
        0 <= k <= n <= spans.len(),
        trace_rows(block_num, hash, spans.take(k)) is Err,
    ensures
        trace_rows(block_num, hash, spans.take(n)) == trace_rows(block_num, hash, spans.take(k)),
    decreases n - k,
{
    if k < n {
        lemma_trace_rows_refused(block_num, hash, spans, k, n - 1);
        assert(spans.take(n).drop_last() =~= spans.take(n - 1));
    }
}

impl Insert for Traces {
    /// The spans as rows of multi-row statements, in their order, if none
    /// of them is refused; else the error of the first that is.
    open spec fn insertion(&self) -> Result<Seq<StatementView>, ArchiveError> {
        match trace_rows(self.block_num, self.hash@, spans_view(self.spans@)) {
            Err(e) => Err(e),
            Ok(rows) => Ok(batched(TRACES_TABLE@, TRACES_LEADING@, TRACES_TRAILING@, rows)),
        }
    }

    #[verifier::loop_isolation(false)]
    fn insert(self) -> (result: Result<Vec<Statement>, ArchiveError>) {
        let Traces { block_num, hash, spans } = self;
        let ghost all = spans_view(spans@);
        let count = spans.len();
        let mut batch = Batch::new(TRACES_TABLE, TRACES_LEADING, TRACES_TRAILING);
        let ghost start = batch@;
        let ghost rows: Seq<Seq<SqlValueView>> = Seq::empty();
        for span in it: spans
            invariant
                it.seq().len() == count,
                all == spans_view(it.seq()),
                batch@.len == it.index(),
                trace_rows(block_num, hash@, all.take(it.index() as int)) == Ok::<
                    Seq<Seq<SqlValueView>>,
                    ArchiveError,
                >(rows),
                batch@ == start.with_rows(rows),
        {
            let ghost j = it.index() as int;
            assert(all.take(j + 1).drop_last() =~= all.take(j));
            let normal = match normalize(block_num, hash.clone(), span) {
                Ok(normal) => normal,
                Err(e) => {
                    proof {
                        lemma_trace_rows_refused(block_num, hash@, all, j + 1, all.len() as int);
                        assert(all.take(all.len() as int) =~= all);
                    }
                    return Err(e);
                },
            };
            let row = span_values(normal);
            match batch.push_row(row) {
                Ok(()) => {},
                Err(e) => {
                    proof {
                        lemma_trace_rows_refused(block_num, hash@, all, j + 1, all.len() as int);
                        assert(all.take(all.len() as int) =~= all);
                    }
                    return Err(e);
                },
            }
            proof {
                let ghost before = rows;
                rows = rows.push(values_view(row@));
                assert(rows.drop_last() =~= before);
            }
        }
        assert(all.take(all.len() as int) =~= all);
        Ok(batch.finish())
    }
}

/// Whatever the node's side hands over: something to persist, or a note on
/// how far the backfill is.
#[derive(Debug, Clone, PartialEq, Eq)]
pub enum Data {
    Block(Block),
    BatchBlock(BatchBlock),
    Storage(StorageModel),
    BatchStorage(Vec<StorageModel>),
    Metadata(Metadata),
    Traces(Traces),
    Event(EventMessage),
    SyncProgress(usize),
}

impl Insert for Data {
    /// What the kind of data that the value holds sends to the store. A
    /// note on progress holds nothing to persist.
    open spec fn insertion(&self) -> Result<Seq<StatementView>, ArchiveError> {
        match self {
            Data::Block(block) => block.insertion(),
            Data::BatchBlock(blocks) => blocks.insertion(),
            Data::Storage(entry) => entry.insertion(),
            Data::BatchStorage(entries) => entries.insertion(),
            Data::Metadata(metadata) => metadata.insertion(),
            Data::Traces(traces) => traces.insertion(),
            Data::Event(event) => event.insertion(),
            Data::SyncProgress(_) => Ok(Seq::empty()),
        }
    }

    fn insert(self) -> (result: Result<Vec<Statement>, ArchiveError>) {
        match self {
            Data::Block(block) => block.insert(),
            Data::BatchBlock(blocks) => blocks.insert(),
            Data::Storage(entry) => entry.insert(),
            Data::BatchStorage(entries) => entries.insert(),
            Data::Metadata(metadata) => metadata.insert(),
            Data::Traces(traces) => traces.insert(),
            Data::Event(event) => event.insert(),
            Data::SyncProgress(_) => {
                let statements: Vec<Statement> = Vec::new();
                assert(statements_view(statements@) =~= Seq::empty());
                Ok(statements)
            },
        }
    }
}

} // verus!
