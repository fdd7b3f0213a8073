//! A one-shot host status line: the caller selects a subset of metrics
//! (per-core CPU load, average CPU load, virtual memory, swap, disk I/O
//! throughput, network throughput); the library decides which reads are
//! needed, derives rates from two counter snapshots separated by a single
//! shared wait, and renders a deterministic one-line report.
//!
//! The OS-facing reads themselves (and the wait) are collaborators supplied
//! by the embedding program; the library consumes their results as plain
//! values and every metric degrades independently to "unavailable" when its
//! read fails.

pub mod coordinator;
pub mod digits;
pub mod rate;
pub mod report;
pub mod request;
pub mod sample;

pub use coordinator::Step;
pub use request::MetricKind;
pub use request::MetricRequest;
pub use sample::RawSamples;
pub use sample::SampleResults;
