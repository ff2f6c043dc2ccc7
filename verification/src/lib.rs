//! Transparent compiler-wrapper toolkit: records each compiler invocation as
//! one JSON line in a shared append-only log, derives a compilation database
//! from that log, and filters an existing database by regex patterns.
//!
//! Everything that computes or decides lives here, verified; process
//! substitution, file I/O and environment access live in the surrounding
//! binary crate.

pub mod ancestry;
pub mod backup;
pub mod filter;
pub mod generate;
pub mod jsontext;
pub mod paths;
pub mod record;
pub mod strutil;
pub mod wrapper;
