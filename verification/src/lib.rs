//! Trace bookkeeping and OTLP payload construction for task runs.

pub mod export;
pub mod log_collector;
pub mod platform;
pub mod properties;
pub mod span;
pub mod text;
pub mod trace_context;
pub mod types;
