//! Parameter values and parameterised statements, as they are handed to the store.

use vstd::prelude::*;

verus! {

/// A point in time: whole seconds since the Unix epoch and the nanoseconds past them.
#[derive(Debug, Clone, Copy, PartialEq, Eq, Structural)]
pub struct Timestamp {
    pub secs: i64,
    pub nanos: u32,
}

/// A span of time that cannot be negative, in nanoseconds.
#[derive(Debug, Clone, Copy, PartialEq, Eq, Structural)]
pub struct Duration {
    pub nanos: u128,
}

/// A difference between two points in time, in nanoseconds; negative when the
/// end lies before the start.
#[derive(Debug, Clone, Copy, PartialEq, Eq, Structural)]
pub struct TimeDelta {
    pub nanos: i128,
}

/// The largest number of microseconds that the store's wire format carries,
/// for a point in time and for an interval alike: it has a signed 64-bit
/// field for them.
pub const MAX_MICROS: u128 = 9_223_372_036_854_775_807;

/// The second of the Unix epoch at which the store's own epoch begins: the
/// first of January 2000.
pub const STORE_EPOCH_SECS: i64 = 946_684_800;

impl Timestamp {
    /// The whole microseconds from the store's epoch to the point in time.
    pub open spec fn micros(self) -> int {
        (self.secs - STORE_EPOCH_SECS) * 1_000_000 + self.nanos / 1000
    }

    /// Whether the store's wire format can carry the point in time.
    pub open spec fn in_range(self) -> bool {
        -MAX_MICROS - 1 <= self.micros() <= MAX_MICROS
    }

    /// The point in time as the wire format carries it: in whole
    /// microseconds since the store's epoch, if they fit its field.
    pub fn to_micros(&self) -> (micros: Option<i64>)
        ensures
            micros is Some == self.in_range(),
            micros is Some ==> micros->Some_0 == self.micros(),
    {
        let secs: i128 = self.secs as i128 - STORE_EPOCH_SECS as i128;
        let micros: i128 = secs * 1_000_000 + (self.nanos / 1000) as i128;
        if -9_223_372_036_854_775_808 <= micros && micros <= 9_223_372_036_854_775_807 {
            Some(micros as i64)
        } else {
            None
        }
    }
}

impl Duration {
    /// Whether the store's wire format can carry the duration: it has no
    /// place for what goes beyond whole microseconds.
    pub open spec fn in_range(self) -> bool {
        self.nanos % 1000 == 0 && self.nanos / 1000 <= MAX_MICROS
    }

    /// The duration as the wire format carries it: in microseconds, if
    /// they are whole and fit its field.
    pub fn to_micros(&self) -> (micros: Option<i64>)
        ensures
            micros is Some == self.in_range(),
            micros is Some ==> micros->Some_0 == self.nanos / 1000,
    {
        if self.nanos % 1000 == 0 && self.nanos / 1000 <= MAX_MICROS {
            Some((self.nanos / 1000) as i64)
        } else {
            None
        }
    }
}

/// The kinds of value that a column takes.
#[derive(Debug, Clone, Copy, PartialEq, Eq, Structural)]
pub enum SqlType {
    Bool,
    Int,
    UInt,
    Bytes,
    Text,
    Timestamp,
    Interval,
    Json,
}

/// One bound parameter.
#[derive(Debug, Clone, PartialEq, Eq)]
pub enum SqlValue {
    /// No value, where one of the given kind could stand.
    Null(SqlType),
    Bool(bool),
    Int(i32),
    UInt(u32),
    Bytes(Vec<u8>),
    Text(String),
    Timestamp(Timestamp),
    Interval(Duration),
    Json(Vec<(String, String)>),
}

/// What a [`SqlValue`] stands for.
pub enum SqlValueView {
    Null(SqlType),
    Bool(bool),
    Int(i32),
    UInt(u32),
    Bytes(Seq<u8>),
    Text(Seq<char>),
    Timestamp(Timestamp),
    Interval(Duration),
    Json(Seq<(Seq<char>, Seq<char>)>),
}

/// The key/value pairs of a structured payload.
pub open spec fn pairs_view(pairs: Seq<(String, String)>) -> Seq<(Seq<char>, Seq<char>)> {
    Seq::new(pairs.len(), |i: int| (pairs[i].0@, pairs[i].1@))
}

impl View for SqlValue {
    type V = SqlValueView;

    open spec fn view(&self) -> SqlValueView {
        match self {
            SqlValue::Null(kind) => SqlValueView::Null(*kind),
            SqlValue::Bool(b) => SqlValueView::Bool(*b),
            SqlValue::Int(i) => SqlValueView::Int(*i),
            SqlValue::UInt(u) => SqlValueView::UInt(*u),
            SqlValue::Bytes(b) => SqlValueView::Bytes(b@),
            SqlValue::Text(t) => SqlValueView::Text(t@),
            SqlValue::Timestamp(t) => SqlValueView::Timestamp(*t),
            SqlValue::Interval(d) => SqlValueView::Interval(*d),
            SqlValue::Json(pairs) => SqlValueView::Json(pairs_view(pairs@)),
        }
    }
}

impl SqlValueView {
    /// Whether the store's wire format has a representation of the value.
    /// A point in time and an interval are carried in microseconds in a
    /// signed 64-bit field; every other kind of value always fits.
    pub open spec fn encodable(self) -> bool {
        match self {
            SqlValueView::Timestamp(t) => t.in_range(),
            SqlValueView::Interval(d) => d.in_range(),
            _ => true,
        }
    }
}

impl SqlValue {
    /// Whether the store's wire format has a representation of the value.
    pub fn is_encodable(&self) -> (yes: bool)
        ensures
            yes == self@.encodable(),
    {
        match self {
            SqlValue::Timestamp(t) => t.to_micros().is_some(),
            SqlValue::Interval(d) => d.to_micros().is_some(),
            _ => true,
        }
    }
}

/// The views of a sequence of values, one for one.
pub open spec fn values_view(values: Seq<SqlValue>) -> Seq<SqlValueView> {
    Seq::new(values.len(), |i: int| values[i]@)
}

/// One statement: its text, with `$1`, `$2`, ... where parameters go, and
/// the parameters in that order.
#[derive(Debug, Clone, PartialEq, Eq)]
pub struct Statement {
    pub sql: String,
    pub arguments: Vec<SqlValue>,
}

/// What a [`Statement`] stands for.
pub struct StatementView {
    pub sql: Seq<char>,
    pub arguments: Seq<SqlValueView>,
}

impl View for Statement {
    type V = StatementView;

    open spec fn view(&self) -> StatementView {
        StatementView { sql: self.sql@, arguments: values_view(self.arguments@) }
    }
}

/// The views of a sequence of statements, one for one.
pub open spec fn statements_view(statements: Seq<Statement>) -> Seq<StatementView> {
    Seq::new(statements.len(), |i: int| statements[i]@)
}

} // verus!
