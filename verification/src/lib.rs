//! Timing and request-scheduling helpers for comparing thread-based and
//! task-based concurrent HTTP clients.
pub mod client;
pub mod clock;
pub mod task;
pub mod table;
pub mod text;
pub mod timeline;
