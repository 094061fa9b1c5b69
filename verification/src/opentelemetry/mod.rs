//! The messages of the OTLP export requests, by family.

pub mod common;
pub mod logs;
pub mod metrics;
pub mod trace;
