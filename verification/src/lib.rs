//! A synchronization engine between a local character/reference-item store
//! and a remote tabular REST backend: push (local-to-remote upsert in bounded
//! batches), full-refresh pull (paginated fetch then transactional replace),
//! a version-marker protocol to detect staleness, and the JSON field codec
//! that makes nested sub-documents round-trippable through flat rows.

pub mod codec;
pub mod errors;
pub mod http;
pub mod json;
pub mod parse;
pub mod pull;
pub mod push;
pub mod records;
pub mod roundtrip;
pub mod stats;
pub mod version;
