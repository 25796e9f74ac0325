//! The debug server that a test runner drives: newline-delimited JSON requests in,
//! one JSON reply per line out.

pub mod launch;
pub mod laws;
pub mod project;
pub mod protocol;
pub mod reply;
pub mod request;
pub mod server;
