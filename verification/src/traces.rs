//! Execution traces: spans as the tracing layer reports them, and the shape
//! in which the store takes them.
//!
//! The store keeps span identifiers in a signed 32-bit column and has no
//! type finer than a microsecond, so a span is normalised before it is
//! written: its identifiers are narrowed, which fails rather than truncates,
//! and its duration is cut down to whole microseconds.

use crate::error::ArchiveError;
use crate::types::text_view;
use crate::value::{Duration, TimeDelta, Timestamp, pairs_view};
use vstd::prelude::*;

verus! {

/// One span as the tracing layer reports it.
#[derive(Debug, Clone, PartialEq, Eq)]
pub struct SpanMessage {
    pub id: u64,
    pub parent_id: Option<u64>,
    pub name: String,
    pub target: String,
    pub start_time: Timestamp,
    pub overall_time: TimeDelta,
    pub file: Option<String>,
    pub line: Option<u32>,
    pub values: Vec<(String, String)>,
}

/// What a [`SpanMessage`] stands for.
pub struct SpanMessageView {
    pub id: u64,
    pub parent_id: Option<u64>,
    pub name: Seq<char>,
    pub target: Seq<char>,
    pub start_time: Timestamp,
    pub overall_time: TimeDelta,
    pub file: Option<Seq<char>>,
    pub line: Option<u32>,
    pub values: Seq<(Seq<char>, Seq<char>)>,
}

impl View for SpanMessage {
    type V = SpanMessageView;

    open spec fn view(&self) -> SpanMessageView {
        SpanMessageView {
            id: self.id,
            parent_id: self.parent_id,
            name: self.name@,
            target: self.target@,
            start_time: self.start_time,
            overall_time: self.overall_time,
            file: text_view(self.file),
            line: self.line,
            values: pairs_view(self.values@),
        }
    }
}

/// The views of a sequence of spans, one for one.
pub open spec fn spans_view(spans: Seq<SpanMessage>) -> Seq<SpanMessageView> {
    Seq::new(spans.len(), |i: int| spans[i]@)
}

/// The spans recorded while one block was executed.
#[derive(Debug, Clone, PartialEq, Eq)]
pub struct Traces {
    pub block_num: u32,
    pub hash: Vec<u8>,
    pub spans: Vec<SpanMessage>,
}

/// What a [`Traces`] stands for.
pub struct TracesView {
    pub block_num: u32,
    pub hash: Seq<u8>,
    pub spans: Seq<SpanMessageView>,
}

impl View for Traces {
    type V = TracesView;

    open spec fn view(&self) -> TracesView {
        TracesView { block_num: self.block_num, hash: self.hash@, spans: spans_view(self.spans@) }
    }
}

/// One event recorded inside a span: a point in time, not a stretch of it.
#[derive(Debug, Clone, PartialEq, Eq)]
pub struct EventMessage {
    pub block_num: u32,
    pub hash: Vec<u8>,
    pub parent_id: u64,
    pub time: Timestamp,
    pub file: Option<String>,
    pub line: Option<u32>,
    pub target: String,
    pub name: String,
    pub traces: Vec<(String, String)>,
}

/// What an [`EventMessage`] stands for.
pub struct EventMessageView {
    pub block_num: u32,
    pub hash: Seq<u8>,
    pub parent_id: u64,
    pub time: Timestamp,
    pub file: Option<Seq<char>>,
    pub line: Option<u32>,
    pub target: Seq<char>,
    pub name: Seq<char>,
    pub traces: Seq<(Seq<char>, Seq<char>)>,
}

impl View for EventMessage {
    type V = EventMessageView;

    open spec fn view(&self) -> EventMessageView {
        EventMessageView {
            block_num: self.block_num,
            hash: self.hash@,
            parent_id: self.parent_id,
            time: self.time,
            file: text_view(self.file),
            line: self.line,
            target: self.target@,
            name: self.name@,
            traces: pairs_view(self.traces@),
        }
    }
}

/// A span in the shape of a row of the trace table.
#[derive(Debug, Clone, PartialEq, Eq)]
pub struct TraceSpan {
    pub block_number: u32,
    pub block_hash: Vec<u8>,
    pub is_event: bool,
    pub start_time: Timestamp,
    pub duration: Duration,
    pub source_file: Option<String>,
    pub source_line: Option<u32>,
    pub span_id: i32,
    pub parent_span_id: Option<i32>,
    pub target: String,
    pub name: String,
    pub payload: Vec<(String, String)>,
}

/// What a [`TraceSpan`] stands for.
pub struct TraceSpanView {
    pub block_number: u32,
    pub block_hash: Seq<u8>,
    pub is_event: bool,
    pub start_time: Timestamp,
    pub duration: Duration,
    pub source_file: Option<Seq<char>>,
    pub source_line: Option<u32>,
    pub span_id: i32,
    pub parent_span_id: Option<i32>,
    pub target: Seq<char>,
    pub name: Seq<char>,
    pub payload: Seq<(Seq<char>, Seq<char>)>,
}

impl View for TraceSpan {
    type V = TraceSpanView;

    open spec fn view(&self) -> TraceSpanView {
        TraceSpanView {
            block_number: self.block_number,
            block_hash: self.block_hash@,
            is_event: self.is_event,
            start_time: self.start_time,
            duration: self.duration,
            source_file: text_view(self.source_file),
            source_line: self.source_line,
            span_id: self.span_id,
            parent_span_id: self.parent_span_id,
            target: self.target@,
            name: self.name@,
            payload: pairs_view(self.payload@),
        }
    }
}

/// The largest identifier that the store's column holds.
pub const MAX_SPAN_ID: u64 = 2_147_483_647;

/// A wide identifier in the width of the store's column, where it fits.
pub open spec fn narrowed(id: u64) -> Result<i32, ArchiveError> {
    if id <= MAX_SPAN_ID {
        Ok(id as i32)
    } else {
        Err(ArchiveError::IdentifierOutOfRange)
    }
}

/// The identifier of a parent span, if there is one, narrowed like the span's own.
pub open spec fn narrowed_parent(parent: Option<u64>) -> Result<Option<i32>, ArchiveError> {
    match parent {
        None => Ok(None),
        Some(id) => match narrowed(id) {
            Ok(narrow) => Ok(Some(narrow)),
            Err(e) => Err(e),
        },
    }
}

/// A number of nanoseconds without what goes beyond whole microseconds.
pub open spec fn floor_micros(nanos: u128) -> u128 {
    (nanos - nanos % 1000) as u128
}

/// A difference in time as a duration, if it is not negative.
pub open spec fn non_negative(time: TimeDelta) -> Result<Duration, ArchiveError> {
    if time.nanos < 0 {
        Err(ArchiveError::TimestampOutOfRange)
    } else {
        Ok(Duration { nanos: time.nanos as u128 })
    }
}

/// The row of the trace table that a span becomes at a block, or why it is
/// refused: for its own identifier first, then for its parent's, then for a
/// negative duration.
pub open spec fn normalized(block_num: u32, hash: Seq<u8>, span: SpanMessageView) -> Result<
    TraceSpanView,
    ArchiveError,
> {
    match narrowed(span.id) {
        Err(e) => Err(e),
        Ok(span_id) => match narrowed_parent(span.parent_id) {
            Err(e) => Err(e),
            Ok(parent_span_id) => match non_negative(span.overall_time) {
                Err(e) => Err(e),
                Ok(time) => Ok(
                    TraceSpanView {
                        block_number: block_num,
                        block_hash: hash,
                        is_event: false,
                        start_time: span.start_time,
                        duration: Duration { nanos: floor_micros(time.nanos) },
                        source_file: span.file,
                        source_line: span.line,
                        span_id,
                        parent_span_id,
                        target: span.target,
                        name: span.name,
                        payload: span.values,
                    },
                ),
            },
        },
    }
}

/// What [`normalize`] returns, by its view.
pub open spec fn span_result_view(result: Result<TraceSpan, ArchiveError>) -> Result<
    TraceSpanView,
    ArchiveError,
> {
    match result {
        Ok(span) => Ok(span@),
        Err(e) => Err(e),
    }
}

/// Narrows a span identifier to the width of the store's column. An
/// identifier that does not fit is refused, never cut.
pub fn narrow_id(id: u64) -> (result: Result<i32, ArchiveError>)
    ensures
        result == narrowed(id),
{
    if id > MAX_SPAN_ID {
        Err(ArchiveError::IdentifierOutOfRange)
    } else {
        Ok(id as i32)
    }
}

/// Narrows the identifier of a parent span, where there is one.
pub fn narrow_parent(parent: Option<u64>) -> (result: Result<Option<i32>, ArchiveError>)
    ensures
        result == narrowed_parent(parent),
{
    match parent {
        None => Ok(None),
        Some(id) => match narrow_id(id) {
            Ok(narrow) => Ok(Some(narrow)),
            Err(e) => Err(e),
        },
    }
}

/// Turns a difference in time into a duration. A negative one is refused,
/// never taken for zero.
pub fn time_to_std(time: TimeDelta) -> (result: Result<Duration, ArchiveError>)
    ensures
        result == non_negative(time),
{
    if time.nanos < 0 {
        Err(ArchiveError::TimestampOutOfRange)
    } else {
        Ok(Duration { nanos: time.nanos as u128 })
    }
}

/// Cuts a duration down to whole microseconds: what goes beyond them is
/// dropped, never rounded up.
pub fn shave_nanos(time: Duration) -> (result: Result<Duration, ArchiveError>)
    ensures
        result == Ok::<Duration, ArchiveError>(Duration { nanos: floor_micros(time.nanos) }),
{
    let extra = time.nanos % 1000;
    Ok(Duration { nanos: time.nanos - extra })
}

/// Brings one span of the block `block_num` with hash `hash` into the shape
/// of a row of the trace table.
pub fn normalize(block_num: u32, hash: Vec<u8>, span: SpanMessage) -> (result: Result<
    TraceSpan,
    ArchiveError,
>)
    ensures
        span_result_view(result) == normalized(block_num, hash@, span@),
{
    let span_id = match narrow_id(span.id) {
        Ok(id) => id,
        Err(e) => {
            return Err(e);
        },
    };
    let parent_span_id = match narrow_parent(span.parent_id) {
        Ok(parent) => parent,
        Err(e) => {
            return Err(e);
        },
    };
    let time = match time_to_std(span.overall_time) {
        Ok(time) => time,
        Err(e) => {
            return Err(e);
        },
    };
    let duration = match shave_nanos(time) {
        Ok(duration) => duration,
        Err(e) => {
            return Err(e);
        },
    };
    Ok(
        TraceSpan {
            block_number: block_num,
            block_hash: hash,
            is_event: false,
            start_time: span.start_time,
            duration,
            source_file: span.file,
            source_line: span.line,
            span_id,
            parent_span_id,
            target: span.target,
            name: span.name,
            payload: span.values,
        },
    )
}

/// Cutting a duration down to whole microseconds never lengthens it, takes
/// less than a microsecond away, leaves a whole number of microseconds, and
/// changes nothing when done again.
pub proof fn lemma_floor_micros(nanos: u128)
    ensures
        floor_micros(nanos) <= nanos,
        nanos - floor_micros(nanos) < 1000,
        floor_micros(nanos) % 1000 == 0,
        floor_micros(floor_micros(nanos)) == floor_micros(nanos),
{
}

/// Normalising a span twice gives what normalising it once gives: the span
/// that comes out, handed in again with its duration and its identifiers
/// as they are, comes out unchanged.
pub proof fn lemma_normalize_idempotent(block_num: u32, hash: Seq<u8>, span: SpanMessageView)
    requires
        normalized(block_num, hash, span) is Ok,
    ensures
        ({
            let once = normalized(block_num, hash, span)->Ok_0;
            let again = SpanMessageView {
                id: once.span_id as u64,
                parent_id: match once.parent_span_id {
                    Some(p) => Some(p as u64),
                    None => None,
                },
                overall_time: TimeDelta { nanos: once.duration.nanos as i128 },
                ..span
            };
            normalized(block_num, hash, again) == Ok::<TraceSpanView, ArchiveError>(once)
        }),
{
    lemma_floor_micros(span.overall_time.nanos as u128);
}

} // verus!
