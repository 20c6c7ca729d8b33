//! Write requests: a destination and a payload.

use crate::data::{Payload, WriteData};
use std::path::PathBuf;
use vstd::prelude::*;

verus! {

/// What a [`WriteRequest`] stands for in contracts.
pub struct Request {
    /// The destination.
    pub path: PathBuf,
    /// The kind and the bytes.
    pub payload: Payload,
}

/// A payload bound for one file.
///
/// Producers submit requests; the pending table keeps one per destination; a
/// flush hands out one per destination that has bytes waiting, to be written
/// as its kind says.
pub struct WriteRequest {
    /// Where the bytes go.
    pub path: PathBuf,
    /// The bytes, and whether they are appended or replace the file.
    pub data: WriteData,
}

impl View for WriteRequest {
    type V = Request;

    open spec fn view(&self) -> Request {
        Request { path: self.path, payload: self.data@ }
    }
}

/// The requests of `requests`, each by its view.
pub open spec fn views(requests: Seq<WriteRequest>) -> Seq<Request> {
    requests.map_values(|r: WriteRequest| r@)
}

/// The destinations of `requests`, in order.
pub open spec fn paths(requests: Seq<Request>) -> Seq<PathBuf> {
    requests.map_values(|r: Request| r.path)
}

} // verus!
