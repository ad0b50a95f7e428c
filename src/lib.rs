//! Ingestion and indexing logic for a corpus of analysed binaries: the
//! analysis record model, the per-item worker state machine, round-robin
//! dispatch, the record-to-document mapping and commit batching.

pub mod text;
pub mod record;
pub mod worker;
pub mod mapper;
pub mod dispatch;
pub mod committer;
pub mod json;
pub mod steps;
pub mod query;
