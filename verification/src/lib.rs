//! Verified core of an external log ingestion service: log levels and entries,
//! request validation, ingestion bookkeeping, history and service listings,
//! stream naming and the decisions of a live log subscription.

pub mod text;
pub mod models;
pub mod errors;
pub mod validation;
pub mod config;
pub mod storage;
pub mod ingest;
pub mod ws;
