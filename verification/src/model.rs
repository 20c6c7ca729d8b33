//! The merge-and-flush rules, stated over sequences of requests.
//!
//! A pending table is a sequence of entries, one per destination, in the order
//! in which the destinations were first seen. Each function here says what one
//! step of the worker does to such a table.

use crate::data::Payload;
use crate::request::{paths, Request};
use std::path::PathBuf;
use vstd::prelude::*;

verus! {

/// Whether `request` carries no bytes.
pub open spec fn is_blank(request: Request) -> bool {
    request.payload.bytes.len() == 0
}

/// What the table holds for `path`: the payload of its entry, if it has one.
pub open spec fn slot(table: Seq<Request>, path: PathBuf) -> Option<Payload> {
    if paths(table).contains(path) {
        Some(table[paths(table).index_of(path)].payload)
    } else {
        None
    }
}

/// The bytes waiting for `path`: none where the table has no entry for it.
pub open spec fn pending_bytes(table: Seq<Request>, path: PathBuf) -> Seq<u8> {
    match slot(table, path) {
        Some(held) => held.bytes,
        None => Seq::empty(),
    }
}

/// The table after one request has been merged into it.
///
/// A blank request changes nothing. Otherwise the entry for the request's
/// destination takes the bytes in, by the rule of the entry's own kind; where
/// there is no such entry yet, the request becomes the entry.
pub open spec fn merged(table: Seq<Request>, request: Request) -> Seq<Request> {
    if is_blank(request) {
        table
    } else if paths(table).contains(request.path) {
        let i = paths(table).index_of(request.path);
        table.update(
            i,
            Request { path: table[i].path, payload: table[i].payload.absorb(request.payload.bytes) },
        )
    } else {
        table.push(request)
    }
}

/// The table after a batch has been merged into it, first request first.
pub open spec fn merged_all(table: Seq<Request>, batch: Seq<Request>) -> Seq<Request>
    decreases batch.len(),
{
    if batch.len() == 0 {
        table
    } else {
        merged(merged_all(table, batch.drop_last()), batch.last())
    }
}

/// The destinations of the blank requests of a batch, in order: the requests
/// that a merge passes over.
pub open spec fn passed_over(batch: Seq<Request>) -> Seq<PathBuf> {
    paths(batch.filter(|r: Request| is_blank(r)))
}

/// The physical writes that a flush of `table` asks for: its entries that have
/// bytes waiting, in table order.
pub open spec fn plan(table: Seq<Request>) -> Seq<Request> {
    table.filter(|r: Request| !is_blank(r))
}

/// The table after a flush: every entry stays, with its kind, and holds no
/// bytes.
pub open spec fn cleared(table: Seq<Request>) -> Seq<Request> {
    table.map_values(|r: Request| Request { path: r.path, payload: r.payload.emptied() })
}

/// What a flush of `table` writes to `path`: the payload of the write that is
/// addressed to it, if there is one.
pub open spec fn written(table: Seq<Request>, path: PathBuf) -> Option<Payload> {
    slot(plan(table), path)
}

/// The payloads that `batch` holds for `path`, in order.
pub open spec fn fragments_for(batch: Seq<Request>, path: PathBuf) -> Seq<Payload> {
    batch.filter(|r: Request| r.path == path).map_values(|r: Request| r.payload)
}

/// The bytes of `fragments`, end to end.
pub open spec fn joined(fragments: Seq<Payload>) -> Seq<u8> {
    fragments.map_values(|f: Payload| f.bytes).flatten()
}

/// The bytes of the last fragment that has any; none where every fragment is
/// blank.
pub open spec fn last_filled(fragments: Seq<Payload>) -> Seq<u8>
    decreases fragments.len(),
{
    if fragments.len() == 0 {
        Seq::empty()
    } else if fragments.last().bytes.len() > 0 {
        fragments.last().bytes
    } else {
        last_filled(fragments.drop_last())
    }
}

/// What one destination holds after one more fragment for it: a blank
/// fragment changes nothing, the first fragment with bytes makes the entry,
/// and a later one is taken in by the rule of the entry's kind.
pub open spec fn absorbed(held: Option<Payload>, fragment: Payload) -> Option<Payload> {
    if fragment.bytes.len() == 0 {
        held
    } else {
        match held {
            Some(entry) => Some(entry.absorb(fragment.bytes)),
            None => Some(fragment),
        }
    }
}

/// What one destination holds after a run of fragments for it.
pub open spec fn absorbed_all(held: Option<Payload>, fragments: Seq<Payload>) -> Option<Payload>
    decreases fragments.len(),
{
    if fragments.len() == 0 {
        held
    } else {
        absorbed(absorbed_all(held, fragments.drop_last()), fragments.last())
    }
}

} // verus!
