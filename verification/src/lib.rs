//! Telemetry ingestion for a front-end-module monitor: a streaming JSON frame
//! decoder, a strict mapper from frames to telemetry records, and a
//! latest-value metrics store.

pub mod counter;
pub mod decoder;
pub mod ingest;
pub mod json;
pub mod mapper;
pub mod metrics;
pub mod payloads;
pub mod position;
