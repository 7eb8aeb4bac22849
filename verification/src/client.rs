//! The benchmark client: event timelines of request tasks and the plan of
//! the requests that the client sends.
pub mod requests;
pub mod timeline;
