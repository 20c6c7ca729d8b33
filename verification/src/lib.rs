//! A write-coalescing sink for local files.
//!
//! Producers hand fragments of data, each bound for a file, to a
//! [`WriteLocal`] handle. A single worker drains the queue behind the handle,
//! merges the fragments addressed to one path, and writes each path at most
//! once per cycle.
//!
//! The crate holds the merge-and-flush engine and its proofs. Threads, sleeping
//! and the file system stay with the caller: the worker's steps are plain
//! functions from state to state, each with a contract.

pub mod data;
pub mod handle;
pub mod laws;
pub mod model;
pub mod path;
pub mod pending;
pub mod queue;
pub mod request;
pub mod worker;

pub use data::{Payload, WriteData};
pub use handle::{Config, WriteLocal};
pub use pending::Pending;
pub use request::{Request, WriteRequest};
pub use worker::Worker;
