//! Core of a streaming log viewer: a bounded, append-only log store addressed
//! by absolute line numbers, a scroll-position mapper from a normalized
//! fractional offset to a concrete line range, a search engine over the
//! currently visible window, and the ingestion worker's decision logic.
//!
//! Rendering, file tailing and thread plumbing live outside this crate; they
//! drive these components with plain values.

pub mod pattern;
pub mod scroll;
pub mod search;
pub mod store;
pub mod worker;
