//! Reliable positional (offset-addressed) read and write primitives for a
//! storage engine's page/log store.
//!
//! Underlying positional I/O calls may transfer fewer bytes than requested,
//! may report zero bytes transferred, and may fail with a transient
//! interrupted condition. This crate verifies the retry/accumulation engine
//! that turns those unreliable per-call outcomes into three dependable
//! operations: read exactly N bytes or fail, read up to N bytes while
//! distinguishing true end-of-file from a short transfer, and write exactly
//! N bytes or fail.
//!
//! The engine itself never performs I/O: each underlying call's outcome is
//! handed to it as an [`types::Event`], and the engine decides how the
//! operation proceeds. A host loop owns the file handle, issues the calls,
//! and feeds the events in.

pub mod engine;
pub mod laws;
pub mod model;
pub mod types;
