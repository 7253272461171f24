//! The ways in which ingestion fails.

use vstd::prelude::*;

verus! {

/// Why a value, a row or a pass was refused.
#[derive(Debug, Clone, Copy, PartialEq, Eq, Structural)]
pub enum ArchiveError {
    /// A value has no representation in the store's wire format.
    EncodingError,
    /// One row alone asks for more parameters than a statement may carry.
    ParameterLimitExceeded,
    /// A span identifier does not fit the 32-bit column.
    IdentifierOutOfRange,
    /// A duration came out negative.
    TimestampOutOfRange,
    /// The store refused a connection or a statement.
    StoreError,
    /// The node did not answer, or not with what was asked.
    NodeCommunicationError,
}

impl ArchiveError {
    /// Configuration and schema errors end the process; everything else
    /// only ends the item or the pass it occurred in.
    pub fn is_fatal(&self) -> (fatal: bool)
        ensures
            fatal == (*self == ArchiveError::ParameterLimitExceeded),
    {
        match self {
            ArchiveError::ParameterLimitExceeded => true,
            _ => false,
        }
    }
}

} // verus!
