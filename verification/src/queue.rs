//! The bounded queue between producers and the worker.
//!
//! The queue is a `flume` channel. What travels through it depends on what
//! other threads do, so the items here promise nothing about the requests that
//! come out: the worker is verified for whatever they hand it.

use crate::request::WriteRequest;
use flume::{Receiver, Sender};
use vstd::prelude::*;

verus! {

/// Trusted: `flume::Sender`, the sending end, carried through as an opaque
/// value.
#[verifier::external_type_specification]
#[verifier::external_body]
#[verifier::reject_recursive_types(T)]
pub struct ExSender<T>(Sender<T>);

/// Trusted: `flume::Receiver`, the receiving end, carried through as an
/// opaque value.
#[verifier::external_type_specification]
#[verifier::external_body]
#[verifier::reject_recursive_types(T)]
pub struct ExReceiver<T>(Receiver<T>);

/// The capacity that the queue behind `rx` was made with: what
/// `flume::Receiver::capacity` reports for a bounded channel. It is fixed when
/// the channel is made.
pub uninterp spec fn queue_limit(rx: Receiver<WriteRequest>) -> usize;

/// Trusted: `flume::bounded`, which makes a channel that holds at most
/// `capacity` requests and returns its two ends.
#[verifier::external_body]
pub(crate) fn open_queue(capacity: usize) -> (ends: (Sender<WriteRequest>, Receiver<WriteRequest>))
    ensures
        queue_limit(ends.1) == capacity,
{
    flume::bounded(capacity)
}

/// Trusted: `flume::Sender::clone`, which returns another sender on the same
/// channel. Nothing is claimed about it.
pub assume_specification<T>[ <Sender<T> as Clone>::clone ](tx: &Sender<T>) -> (other: Sender<T>);

/// Trusted: `flume::Sender::try_send`, with its result dropped.
///
/// The request is queued if there is room and the receiving end is alive, and
/// is lost otherwise. Nothing is claimed about which.
#[verifier::external_body]
pub(crate) fn offer(tx: &Sender<WriteRequest>, request: WriteRequest) {
    let _ = tx.try_send(request);
}

/// Trusted: `flume::Receiver::recv`, which blocks until a request is there and
/// fails once the queue is empty and every sender is gone; the failure comes
/// back as `None`.
///
/// A receive looks one slot past the capacity, so a queue made with capacity
/// `usize::MAX` is left out. Nothing is claimed about the request.
#[verifier::external_body]
pub(crate) fn take_next(rx: &Receiver<WriteRequest>) -> (next: Option<WriteRequest>)
    requires
        queue_limit(*rx) < usize::MAX,
{
    rx.recv().ok()
}

/// Trusted: `flume::Receiver::drain`, which takes out, without blocking, the
/// requests that sit in the queue at the time of the call, oldest first.
/// Nothing is claimed about them.
#[verifier::external_body]
pub(crate) fn take_waiting(rx: &Receiver<WriteRequest>) -> (waiting: Vec<WriteRequest>) {
    rx.drain().collect()
}

} // verus!
