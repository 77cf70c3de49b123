//! Aggregation and deduplication of runtime failure reports.
//!
//! Failures are fingerprinted by content, collapsed into one persistent
//! record per fingerprint, and mirrored by one externally visible
//! notification whose footer carries the running occurrence count.
pub mod channel;
pub mod fingerprint;
pub mod headline;
pub mod notify;
pub mod pipeline;
pub mod store;
pub mod text;
