//! Verified core of a bulk repository-deletion tool.
//!
//! The library holds the pure workflow logic: credential resolution,
//! pagination decisions for the repository lister, the fork/archive
//! filter, the comma/range selection grammar, the confirmation gate,
//! request building, report rendering, and the bounded-concurrency
//! accounting of the deletion executor. All I/O — HTTP and the
//! terminal — lives outside, in the surrounding program, which drives
//! these state machines and pure functions.

pub mod creds;
pub mod executor;
pub mod gate;
pub mod lister;
pub mod render;
pub mod repo;
pub mod requests;
pub mod selection;
pub mod text;
