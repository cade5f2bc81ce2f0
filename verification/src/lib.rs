//! A single replica of per-author append-only feeds of signed entries: the
//! store of accepted entries, the pipeline that admits a submitted entry, and
//! the queries over what was admitted.

pub mod hexcode;
pub mod codec;
pub mod models;
pub mod store;
pub mod pipeline;
pub mod ingest;
pub mod query;
pub mod laws;
