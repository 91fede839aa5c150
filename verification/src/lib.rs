//! A verified core for an HTTP/HTTPS latency probe.
//!
//! The crate resolves a user-supplied URL into a connection target, builds
//! the raw HTTP/1.1 request bytes, decides when a response is complete,
//! extracts the status code, and aggregates per-attempt timings into a
//! run summary.  Network I/O itself lives outside the library; every
//! decision and computation around it is specified and verified here.

pub mod digits;
pub mod errors;
pub mod header;
pub mod probe;
pub mod request;
pub mod response;
pub mod text;
pub mod url;
