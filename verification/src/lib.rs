//! Request-scoped tracing: spans that follow one request from open to close,
//! the process resource they are reported under, and the batching decisions
//! of the export pipeline that ships closed spans to a collector.

pub mod pipeline;
pub mod request;
pub mod resource;
pub mod span;
