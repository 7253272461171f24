//! Ingestion core of a blockchain archive: statements for the relational
//! store, trace-span normalisation and the gap-filling sync state machine.

pub mod archive;
pub mod database;
pub mod error;
pub mod traces;
pub mod types;
pub mod util;
pub mod value;
