//! Input-coalescing, cache-backed, rate-limited query pipeline.
//!
//! The pipeline takes a rapid stream of text submissions, collapses bursts so
//! that only the most recent submission of a burst is processed, resolves each
//! accepted submission through a bounded least-recently-used cache, and on a
//! cache miss builds a chat request for one of two selectable LLM backends.
//! The answer extracted from the backend's response is stored in the cache and
//! handed back, one output per accepted submission, spaced by a configurable
//! minimum interval.

pub mod cache;
pub mod config;
pub mod dispatch;
pub mod mode;
pub mod prompt;
pub mod response;
