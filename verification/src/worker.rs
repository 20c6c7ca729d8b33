//! The coalescing worker, one step at a time.
//!
//! A cycle of the worker is: [`Worker::wait`] for a first request; pause for
//! the debounce window; [`Worker::drain`] what has queued up meanwhile;
//! [`Worker::merge`] it; [`Worker::flush`], and perform the writes handed out.
//! Pausing and writing are the caller's part.

use crate::model::{cleared, merged_all, passed_over, plan};
use crate::pending::Pending;
use crate::queue::{queue_limit, take_next, take_waiting};
use crate::request::{paths, views, Request, WriteRequest};
use flume::Receiver;
use std::path::PathBuf;
use vstd::prelude::*;

verus! {

/// The receiving end of the queue, the requests taken from it and not merged
/// yet, and the pending table.
pub struct Worker {
    rx: Receiver<WriteRequest>,
    inbox: Vec<WriteRequest>,
    cached: Pending,
    debounce_millis: u64,
}

impl Worker {
    /// The requests taken from the queue and not merged yet, oldest first.
    pub closed spec fn inbox(&self) -> Seq<Request> {
        views(self.inbox@)
    }

    /// The pending table.
    pub closed spec fn pending(&self) -> Seq<Request> {
        self.cached@
    }

    /// The configured debounce window, in milliseconds.
    pub closed spec fn debounce(&self) -> u64 {
        self.debounce_millis
    }

    /// The queue is one that can be received from.
    pub closed spec fn attached(&self) -> bool {
        queue_limit(self.rx) < usize::MAX
    }

    /// No destination has two pending entries, and the queue is usable.
    pub open spec fn wf(&self) -> bool {
        &&& paths(self.pending()).no_duplicates()
        &&& self.attached()
    }

    /// A worker on `rx` with nothing taken and nothing pending.
    pub(crate) fn new(rx: Receiver<WriteRequest>, debounce_millis: u64) -> (worker: Worker)
        requires
            queue_limit(rx) < usize::MAX,
        ensures
            worker.wf(),
            worker.inbox() == Seq::<Request>::empty(),
            worker.pending() == Seq::<Request>::empty(),
            worker.debounce() == debounce_millis,
    {
        Worker { rx, inbox: Vec::new(), cached: Pending::new(), debounce_millis }
    }

    /// How long to pause between the first request of a cycle and the drain,
    /// in milliseconds.
    pub fn debounce_millis(&self) -> (millis: u64)
        ensures
            millis == self.debounce(),
    {
        self.debounce_millis
    }

    /// Blocks until a request arrives and puts it in the inbox.
    ///
    /// Returns `false`, with nothing changed, once every handle is gone and
    /// the queue is empty: the worker is then done.
    pub fn wait(&mut self) -> (open: bool)
        requires
            old(self).wf(),
        ensures
            final(self).wf(),
            final(self).pending() == old(self).pending(),
            final(self).debounce() == old(self).debounce(),
            open ==> final(self).inbox().len() == old(self).inbox().len() + 1
                && final(self).inbox().drop_last() == old(self).inbox(),
            !open ==> final(self).inbox() == old(self).inbox(),
    {
        let arrival = take_next(&self.rx);
        let ghost held = self.inbox();
        let open = self.accept(arrival);
        proof {
            if open {
                assert(self.inbox().drop_last() =~= held);
            }
        }
        open
    }

    /// Moves every request that sits in the queue into the inbox, behind the
    /// ones already there, without blocking.
    pub fn drain(&mut self)
        requires
            old(self).wf(),
        ensures
            final(self).wf(),
            final(self).pending() == old(self).pending(),
            final(self).debounce() == old(self).debounce(),
            old(self).inbox().is_prefix_of(final(self).inbox()),
    {
        let waiting = take_waiting(&self.rx);
        self.accept_all(waiting);
    }

    /// Takes in what one receive gave: a request goes to the end of the
    /// inbox, and `true` says that the queue is still open; `None`, the sign
    /// that every handle is gone and the queue is empty, changes nothing and
    /// gives `false`.
    ///
    /// What a receive gives is other threads' doing, so [`Worker::wait`] can
    /// only say what holds whatever it gave; what is done with it is said
    /// here, for each value of it.
    pub fn accept(&mut self, arrival: Option<WriteRequest>) -> (open: bool)
        requires
            old(self).wf(),
        ensures
            final(self).wf(),
            final(self).pending() == old(self).pending(),
            final(self).debounce() == old(self).debounce(),
            open == (arrival is Some),
            final(self).inbox() == match arrival {
                Some(request) => old(self).inbox().push(request@),
                None => old(self).inbox(),
            },
    {
        match arrival {
            Some(request) => {
                let ghost held = self.inbox();
                let ghost incoming = request@;
                self.inbox.push(request);
                assert(self.inbox() =~= held.push(incoming));
                true
            },
            None => false,
        }
    }

    /// Takes in what one drain gave: the requests go to the end of the inbox,
    /// in their order. [`Worker::drain`] hands it whatever the queue held.
    pub fn accept_all(&mut self, waiting: Vec<WriteRequest>)
        requires
            old(self).wf(),
        ensures
            final(self).wf(),
            final(self).pending() == old(self).pending(),
            final(self).debounce() == old(self).debounce(),
            final(self).inbox() == old(self).inbox() + views(waiting@),
    {
        let ghost held = self.inbox();
        let ghost arrived = views(waiting@);
        let mut waiting = waiting;
        self.inbox.append(&mut waiting);
        assert(self.inbox() =~= held + arrived);
    }

    /// Merges the inbox into the pending table, oldest request first, and
    /// empties it. Hands back the destinations of the blank requests, which
    /// were passed over.
    pub fn merge(&mut self) -> (skipped: Vec<PathBuf>)
        requires
            old(self).wf(),
        ensures
            final(self).wf(),
            final(self).pending() == merged_all(old(self).pending(), old(self).inbox()),
            final(self).inbox() == Seq::<Request>::empty(),
            final(self).debounce() == old(self).debounce(),
            skipped@ == passed_over(old(self).inbox()),
    {
        let mut batch: Vec<WriteRequest> = Vec::new();
        core::mem::swap(&mut self.inbox, &mut batch);
        self.cached.merge_all(batch)
    }

    /// Hands out the physical writes that are due and empties every pending
    /// entry: see [`Pending::flush`].
    pub fn flush(&mut self) -> (writes: Vec<WriteRequest>)
        requires
            old(self).wf(),
        ensures
            final(self).wf(),
            views(writes@) == plan(old(self).pending()),
            final(self).pending() == cleared(old(self).pending()),
            final(self).inbox() == old(self).inbox(),
            final(self).debounce() == old(self).debounce(),
    {
        self.cached.flush()
    }
}

} // verus!
