//! Synchronizes a local directory of replay files against a remote record
//! index. The verified core covers descriptor modeling, canonical filename
//! derivation, stream-response validation, deduplication, reconciliation
//! planning, the download backoff policy, and stale-file selection; the
//! thin binary around it performs the HTTP and filesystem calls.

pub mod backoff;
pub mod errors;
pub mod plan;
pub mod records;
pub mod replay;
