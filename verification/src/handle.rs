//! The submission handle.

use crate::data::WriteData;
use crate::queue::{offer, open_queue};
use crate::request::{Request, WriteRequest};
use crate::worker::Worker;
use flume::Sender;
use std::path::PathBuf;
use vstd::prelude::*;

verus! {

/// What can be tuned: how many requests may wait in the queue, and how long
/// the worker pauses to let a burst gather.
pub struct Config {
    /// The most requests that may wait in the queue; further ones are dropped.
    pub queue_capacity: usize,
    /// The pause between the first request of a cycle and the drain, in
    /// milliseconds.
    pub debounce_millis: u64,
}

impl Default for Config {
    /// A queue of 1000 requests and a pause of 100 milliseconds.
    fn default() -> (config: Config)
        ensures
            config.queue_capacity == 1000,
            config.debounce_millis == 100,
    {
        Config { queue_capacity: 1000, debounce_millis: 100 }
    }
}

/// The front end that producers submit to.
///
/// A clone is another front end to the same queue. Submitting never blocks
/// and never reports: a request that finds the queue full, or the worker
/// gone, is dropped.
#[derive(Clone)]
pub struct WriteLocal {
    tx: Sender<WriteRequest>,
}

impl WriteLocal {
    /// Makes a queue with the default configuration and returns its two
    /// sides: the handle, and the worker that is to run on a thread of its
    /// own.
    pub fn init() -> (sides: (WriteLocal, Worker))
        ensures
            sides.1.wf(),
            sides.1.inbox() == Seq::<Request>::empty(),
            sides.1.pending() == Seq::<Request>::empty(),
            sides.1.debounce() == 100,
    {
        WriteLocal::with_config(Config::default())
    }

    /// Makes a queue as `config` says and returns its two sides.
    pub fn with_config(config: Config) -> (sides: (WriteLocal, Worker))
        requires
            config.queue_capacity < usize::MAX,
        ensures
            sides.1.wf(),
            sides.1.inbox() == Seq::<Request>::empty(),
            sides.1.pending() == Seq::<Request>::empty(),
            sides.1.debounce() == config.debounce_millis,
    {
        let (tx, rx) = open_queue(config.queue_capacity);
        (WriteLocal { tx }, Worker::new(rx, config.debounce_millis))
    }

    /// Submits `data` for `dest_file`. Fire and forget.
    pub fn write(&self, dest_file: PathBuf, data: WriteData) {
        offer(&self.tx, WriteRequest { path: dest_file, data });
    }
}

} // verus!
