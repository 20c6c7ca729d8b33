//! The pending table: one accumulating entry per destination.

use crate::data::WriteData;
use crate::model::{cleared, is_blank, merged, merged_all, passed_over, plan};
use crate::path::{copy_path, same_path};
use crate::request::{paths, views, Request, WriteRequest};
use std::path::PathBuf;
use vstd::prelude::*;

verus! {

/// The bytes that wait to be written, keyed by destination.
///
/// Entries are made on the first fragment for a destination and are never
/// removed: a flush empties them and leaves them in place, kind included.
pub struct Pending {
    entries: Vec<WriteRequest>,
}

impl View for Pending {
    type V = Seq<Request>;

    closed spec fn view(&self) -> Seq<Request> {
        views(self.entries@)
    }
}

impl Pending {
    /// No destination has two entries.
    pub open spec fn wf(&self) -> bool {
        paths(self@).no_duplicates()
    }

    /// A table without entries.
    pub fn new() -> (table: Pending)
        ensures
            table.wf(),
            table@ == Seq::<Request>::empty(),
    {
        Pending { entries: Vec::new() }
    }

    /// The number of destinations seen so far.
    pub fn len(&self) -> (n: usize)
        ensures
            n == self@.len(),
    {
        self.entries.len()
    }

    /// Where the entry for `path` stands, if there is one.
    fn find(&self, path: &PathBuf) -> (found: Option<usize>)
        ensures
            match found {
                Some(i) => i < self@.len() && self@[i as int].path == *path,
                None => !paths(self@).contains(*path),
            },
    {
        let mut i: usize = 0;
        while i < self.entries.len()
            invariant
                i <= self.entries.len(),
                forall|j: int| 0 <= j < i ==> (#[trigger] self@[j]).path != *path,
            decreases self.entries.len() - i,
        {
            if same_path(&self.entries[i].path, path) {
                return Some(i);
            }
            i += 1;
        }
        None
    }

    /// Merges one request into the table.
    ///
    /// A request without bytes is passed over: the table stays as it is and
    /// the request's destination is handed back.
    pub fn merge(&mut self, request: WriteRequest) -> (skipped: Option<PathBuf>)
        requires
            old(self).wf(),
        ensures
            final(self).wf(),
            final(self)@ == merged(old(self)@, request@),
            is_blank(request@) ==> final(self)@ == old(self)@,
            skipped == if is_blank(request@) {
                Some(request@.path)
            } else {
                None
            },
    {
        if request.data.is_empty() {
            return Some(request.path);
        }
        let ghost before = self@;
        let ghost incoming = request@;
        match self.find(&request.path) {
            Some(i) => {
                self.entries[i].data.write(request.data.into_bytes());
                proof {
                    let at = paths(before).index_of(incoming.path);
                    assert(paths(before)[i as int] == incoming.path);
                    assert(at == i);
                    assert(self@ =~= merged(before, incoming));
                    assert(paths(self@) =~= paths(before));
                }
            },
            None => {
                self.entries.push(request);
                proof {
                    assert(self@ =~= merged(before, incoming));
                    assert(paths(self@) =~= paths(before).push(incoming.path));
                }
            },
        }
        None
    }

    /// Merges a batch into the table, first request first, and hands back the
    /// destinations of the requests it passed over because they were blank.
    pub fn merge_all(&mut self, batch: Vec<WriteRequest>) -> (skipped: Vec<PathBuf>)
        requires
            old(self).wf(),
        ensures
            final(self).wf(),
            final(self)@ == merged_all(old(self)@, views(batch@)),
            skipped@ == passed_over(views(batch@)),
    {
        let ghost before = self@;
        let ghost all = views(batch@);
        let mut skipped: Vec<PathBuf> = Vec::new();
        for request in it: batch
            invariant
                self.wf(),
                views(it.seq()) == all,
                self@ == merged_all(before, all.take(it.index() as int)),
                skipped@ == passed_over(all.take(it.index() as int)),
        {
            proof {
                let k = it.index() as int;
                assert(all.take(k + 1).drop_last() =~= all.take(k));
                assert(all.take(k + 1) =~= all.take(k).push(request@));
                all.take(k).lemma_filter_push(request@, |r: Request| is_blank(r));
            }
            match self.merge(request) {
                Some(path) => {
                    skipped.push(path);
                },
                None => {},
            }
        }
        proof {
            assert(all.take(all.len() as int) =~= all);
        }
        skipped
    }

    /// Hands out the physical writes that are due, one for each destination
    /// with bytes waiting, and empties every entry.
    ///
    /// An override request is to replace the file with its bytes; an append
    /// request is to add its bytes to the file's end. Entries stay in the
    /// table with their kind, so a second flush hands out nothing.
    pub fn flush(&mut self) -> (writes: Vec<WriteRequest>)
        requires
            old(self).wf(),
        ensures
            final(self).wf(),
            views(writes@) == plan(old(self)@),
            final(self)@ == cleared(old(self)@),
    {
        let ghost before = self@;
        let mut writes: Vec<WriteRequest> = Vec::new();
        let mut i: usize = 0;
        while i < self.entries.len()
            invariant
                i <= self.entries.len(),
                self@.len() == before.len(),
                views(writes@) == plan(before.take(i as int)),
                forall|j: int| 0 <= j < i ==> #[trigger] self@[j] == cleared(before)[j],
                forall|j: int| i <= j < before.len() ==> #[trigger] self@[j] == before[j],
            decreases self.entries.len() - i,
        {
            proof {
                assert(before.take(i + 1) =~= before.take(i as int).push(before[i as int]));
                before.take(i as int).lemma_filter_push(before[i as int], |r: Request| !is_blank(r));
            }
            let ghost held = self@;
            assert(held[i as int] == before[i as int]);
            if self.entries[i].data.is_empty() {
                assert(before[i as int].payload.bytes =~= Seq::empty());
            } else {
                let ghost handed = views(writes@);
                let path = copy_path(&self.entries[i].path);
                let data = self.entries[i].data.take();
                writes.push(WriteRequest { path, data });
                assert(views(writes@) =~= handed.push(before[i as int]));
            }
            assert(self@ =~= held.update(i as int, cleared(before)[i as int]));
            i += 1;
        }
        proof {
            assert(before.take(i as int) =~= before);
            assert(self@ =~= cleared(before));
            assert(paths(cleared(before)) =~= paths(before));
        }
        writes
    }
}

} // verus!
