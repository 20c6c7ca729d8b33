//! What holds of the merge-and-flush rules, whatever the requests.

use crate::data::Payload;
use crate::model::{
    absorbed, absorbed_all, cleared, fragments_for, is_blank, joined, last_filled, merged,
    merged_all, pending_bytes, plan, slot, written,
};
use crate::request::{paths, Request};
use std::path::PathBuf;
use vstd::prelude::*;

verus! {

/// In a table without duplicates, an entry is what the slot of its
/// destination holds.
proof fn lemma_slot_at(table: Seq<Request>, i: int)
    requires
        paths(table).no_duplicates(),
        0 <= i < table.len(),
    ensures
        slot(table, table[i].path) == Some(table[i].payload),
{
    let ps = paths(table);
    assert(ps[i] == table[i].path);
}

/// A destination has a slot exactly when some entry is addressed to it.
proof fn lemma_slot_none(table: Seq<Request>, path: PathBuf)
    ensures
        slot(table, path) is None <==> forall|i: int|
            0 <= i < table.len() ==> (#[trigger] table[i]).path != path,
{
    let ps = paths(table);
    if ps.contains(path) {
        let i = ps.index_of(path);
        assert(table[i].path == path);
    } else {
        assert forall|i: int| 0 <= i < table.len() implies (#[trigger] table[i]).path != path by {
            assert(ps[i] == table[i].path);
        }
    }
}

/// A new entry for a destination that had none.
proof fn lemma_slot_push(table: Seq<Request>, entry: Request, path: PathBuf)
    requires
        paths(table).no_duplicates(),
        !paths(table).contains(entry.path),
    ensures
        paths(table.push(entry)).no_duplicates(),
        slot(table.push(entry), path) == if path == entry.path {
            Some(entry.payload)
        } else {
            slot(table, path)
        },
{
    let grown = table.push(entry);
    assert(paths(grown) =~= paths(table).push(entry.path));
    if path == entry.path {
        lemma_slot_at(grown, table.len() as int);
    } else if paths(table).contains(path) {
        let j = paths(table).index_of(path);
        assert(grown[j] == table[j]);
        lemma_slot_at(grown, j);
    } else {
        lemma_slot_none(table, path);
        lemma_slot_none(grown, path);
    }
}

/// A new payload in the entry at `i`.
proof fn lemma_slot_update(table: Seq<Request>, i: int, payload: Payload, path: PathBuf)
    requires
        paths(table).no_duplicates(),
        0 <= i < table.len(),
    ensures
        paths(table.update(i, Request { path: table[i].path, payload })) == paths(table),
        slot(table.update(i, Request { path: table[i].path, payload }), path) == if path
            == table[i].path {
            Some(payload)
        } else {
            slot(table, path)
        },
{
    let changed = table.update(i, Request { path: table[i].path, payload });
    assert(paths(changed) =~= paths(table));
    if path == table[i].path {
        lemma_slot_at(changed, i);
    } else if paths(table).contains(path) {
        let j = paths(table).index_of(path);
        assert(changed[j] == table[j]);
        lemma_slot_at(changed, j);
    }
}

/// The fragments for a destination, after one more request.
proof fn lemma_fragments_push(batch: Seq<Request>, request: Request, path: PathBuf)
    ensures
        fragments_for(batch.push(request), path) == if request.path == path {
            fragments_for(batch, path).push(request.payload)
        } else {
            fragments_for(batch, path)
        },
{
    let addressed = |r: Request| r.path == path;
    batch.lemma_filter_push(request, addressed);
    if request.path == path {
        assert(batch.filter(addressed).push(request).map_values(|r: Request| r.payload)
            =~= batch.filter(addressed).map_values(|r: Request| r.payload).push(request.payload));
    }
}

/// The bytes of a run of fragments, after one more fragment.
proof fn lemma_joined_push(fragments: Seq<Payload>, fragment: Payload)
    ensures
        joined(fragments.push(fragment)) == joined(fragments) + fragment.bytes,
{
    let bytes_of = |f: Payload| f.bytes;
    assert(fragments.push(fragment).map_values(bytes_of) =~= fragments.map_values(bytes_of).push(
        fragment.bytes,
    ));
    fragments.map_values(bytes_of).lemma_flatten_push(fragment.bytes);
}

/// A merge keeps the table free of duplicates, and touches one destination:
/// the slot of the request's destination moves by the rule of [`absorbed`],
/// every other slot stays.
pub proof fn lemma_merge_touches_one_path(table: Seq<Request>, request: Request, path: PathBuf)
    requires
        paths(table).no_duplicates(),
    ensures
        paths(merged(table, request)).no_duplicates(),
        slot(merged(table, request), path) == if path == request.path {
            absorbed(slot(table, path), request.payload)
        } else {
            slot(table, path)
        },
{
    if is_blank(request) {
    } else if paths(table).contains(request.path) {
        let i = paths(table).index_of(request.path);
        assert(table[i].path == request.path);
        lemma_slot_at(table, i);
        lemma_slot_update(table, i, table[i].payload.absorb(request.payload.bytes), path);
    } else {
        lemma_slot_push(table, request, path);
    }
}

/// A batch keeps the table free of duplicates, and what a destination holds
/// after it is settled by what the destination held before and by the
/// fragments of the batch that are addressed to it, in their order.
pub proof fn lemma_merge_all_per_path(table: Seq<Request>, batch: Seq<Request>, path: PathBuf)
    requires
        paths(table).no_duplicates(),
    ensures
        paths(merged_all(table, batch)).no_duplicates(),
        slot(merged_all(table, batch), path) == absorbed_all(
            slot(table, path),
            fragments_for(batch, path),
        ),
    decreases batch.len(),
{
    if batch.len() == 0 {
        assert(batch.filter(|r: Request| r.path == path).len() == 0) by {
            batch.lemma_filter_len(|r: Request| r.path == path);
        }
    } else {
        let earlier = batch.drop_last();
        let request = batch.last();
        assert(batch =~= earlier.push(request));
        lemma_merge_all_per_path(table, earlier, path);
        lemma_merge_touches_one_path(merged_all(table, earlier), request, path);
        lemma_fragments_push(earlier, request, path);
        if request.path == path {
            assert(fragments_for(batch, path).drop_last() =~= fragments_for(earlier, path));
        }
    }
}

/// A flush asks for one write per destination that has bytes waiting, and for
/// none besides: the write to a destination carries what its entry holds, kind
/// and bytes, and an entry without bytes gets no write.
pub proof fn lemma_flush_writes_what_waits(table: Seq<Request>, path: PathBuf)
    requires
        paths(table).no_duplicates(),
    ensures
        paths(plan(table)).no_duplicates(),
        written(table, path) == if pending_bytes(table, path).len() > 0 {
            slot(table, path)
        } else {
            None
        },
    decreases table.len(),
{
    let filled = |r: Request| !is_blank(r);
    if table.len() == 0 {
        assert(table.filter(filled).len() == 0) by {
            table.lemma_filter_len(filled);
        }
    } else {
        let earlier = table.drop_last();
        let entry = table.last();
        assert(table =~= earlier.push(entry));
        assert(paths(earlier) =~= paths(table).drop_last());
        assert(!paths(earlier).contains(entry.path)) by {
            if paths(earlier).contains(entry.path) {
                let j = paths(earlier).index_of(entry.path);
                assert(paths(table)[j] == paths(table)[table.len() - 1]);
            }
        }
        lemma_flush_writes_what_waits(earlier, path);
        lemma_flush_writes_what_waits(earlier, entry.path);
        lemma_slot_none(earlier, entry.path);
        earlier.lemma_filter_push(entry, filled);
        lemma_slot_push(earlier, entry, path);
        if !is_blank(entry) {
            lemma_slot_push(plan(earlier), entry, path);
        }
    }
}

/// A flush leaves every entry in place, with its kind and without bytes.
pub proof fn lemma_flush_empties_every_entry(table: Seq<Request>, path: PathBuf)
    requires
        paths(table).no_duplicates(),
    ensures
        paths(cleared(table)) == paths(table),
        slot(cleared(table), path) == match slot(table, path) {
            Some(held) => Some(held.emptied()),
            None => None,
        },
{
    assert(paths(cleared(table)) =~= paths(table));
}

/// Append fragments for one destination, merged in one window, are written
/// end to end in the order in which they were submitted, behind whatever
/// waited already, by one append write; if that comes to no bytes, nothing is
/// written.
///
/// Left out: a destination whose entry was made by an override fragment.
/// Such an entry keeps its kind, and an append fragment replaces its bytes.
pub proof fn lemma_appends_are_concatenated(table: Seq<Request>, batch: Seq<Request>, path: PathBuf)
    requires
        paths(table).no_duplicates(),
        slot(table, path) matches Some(held) ==> held.append,
        forall|i: int|
            0 <= i < batch.len() && (#[trigger] batch[i]).path == path ==> batch[i].payload.append,
    ensures
        pending_bytes(merged_all(table, batch), path) == pending_bytes(table, path) + joined(
            fragments_for(batch, path),
        ),
        written(merged_all(table, batch), path) == if pending_bytes(table, path).len() + joined(
            fragments_for(batch, path),
        ).len() > 0 {
            Some(
                Payload {
                    append: true,
                    bytes: pending_bytes(table, path) + joined(fragments_for(batch, path)),
                },
            )
        } else {
            None
        },
{
    lemma_appends_accumulate(table, batch, path);
    lemma_merge_all_per_path(table, batch, path);
    lemma_flush_writes_what_waits(merged_all(table, batch), path);
}

/// The induction behind [`lemma_appends_are_concatenated`].
proof fn lemma_appends_accumulate(table: Seq<Request>, batch: Seq<Request>, path: PathBuf)
    requires
        paths(table).no_duplicates(),
        slot(table, path) matches Some(held) ==> held.append,
        forall|i: int|
            0 <= i < batch.len() && (#[trigger] batch[i]).path == path ==> batch[i].payload.append,
    ensures
        slot(merged_all(table, batch), path) matches Some(held) ==> held.append,
        pending_bytes(merged_all(table, batch), path) == pending_bytes(table, path) + joined(
            fragments_for(batch, path),
        ),
    decreases batch.len(),
{
    if batch.len() == 0 {
        assert(fragments_for(batch, path).len() == 0) by {
            batch.lemma_filter_len(|r: Request| r.path == path);
        }
        assert(joined(fragments_for(batch, path)) =~= Seq::<u8>::empty());
        assert(pending_bytes(table, path) + Seq::<u8>::empty() =~= pending_bytes(table, path));
    } else {
        let earlier = batch.drop_last();
        let request = batch.last();
        assert(batch =~= earlier.push(request));
        assert forall|i: int| 0 <= i < earlier.len() && (#[trigger] earlier[i]).path
            == path implies earlier[i].payload.append by {
            assert(earlier[i] == batch[i]);
        }
        lemma_appends_accumulate(table, earlier, path);
        lemma_merge_all_per_path(table, earlier, path);
        lemma_merge_touches_one_path(merged_all(table, earlier), request, path);
        lemma_fragments_push(earlier, request, path);
        if request.path == path {
            lemma_joined_push(fragments_for(earlier, path), request.payload);
            let before = pending_bytes(table, path);
            let middle = joined(fragments_for(earlier, path));
            assert((before + middle) + request.payload.bytes =~= before + (middle
                + request.payload.bytes));
            if is_blank(request) {
                assert(middle + request.payload.bytes =~= middle);
            }
        }
    }
}

/// Of the override fragments for one destination, merged in one window, the
/// last one with bytes is written, alone, by one override write. Where none
/// of them has bytes, the destination is written as if they had not come.
///
/// Left out: a destination whose entry was made by an append fragment. Such
/// an entry keeps its kind, and an override fragment is added to its bytes.
pub proof fn lemma_last_override_wins(table: Seq<Request>, batch: Seq<Request>, path: PathBuf)
    requires
        paths(table).no_duplicates(),
        slot(table, path) matches Some(held) ==> !held.append,
        forall|i: int|
            0 <= i < batch.len() && (#[trigger] batch[i]).path == path ==> !batch[i].payload.append,
    ensures
        written(merged_all(table, batch), path) == if last_filled(fragments_for(batch, path)).len()
            > 0 {
            Some(Payload { append: false, bytes: last_filled(fragments_for(batch, path)) })
        } else {
            written(table, path)
        },
        fragments_for(batch, path).len() > 0 && fragments_for(batch, path).last().bytes.len() > 0
            ==> written(merged_all(table, batch), path) == Some(
            Payload { append: false, bytes: fragments_for(batch, path).last().bytes },
        ),
{
    lemma_overrides_replace(table, batch, path);
    lemma_merge_all_per_path(table, batch, path);
    lemma_flush_writes_what_waits(merged_all(table, batch), path);
    lemma_flush_writes_what_waits(table, path);
}

/// The induction behind [`lemma_last_override_wins`].
proof fn lemma_overrides_replace(table: Seq<Request>, batch: Seq<Request>, path: PathBuf)
    requires
        paths(table).no_duplicates(),
        slot(table, path) matches Some(held) ==> !held.append,
        forall|i: int|
            0 <= i < batch.len() && (#[trigger] batch[i]).path == path ==> !batch[i].payload.append,
    ensures
        slot(merged_all(table, batch), path) == if last_filled(fragments_for(batch, path)).len()
            > 0 {
            Some(Payload { append: false, bytes: last_filled(fragments_for(batch, path)) })
        } else {
            slot(table, path)
        },
    decreases batch.len(),
{
    if batch.len() == 0 {
        assert(fragments_for(batch, path).len() == 0) by {
            batch.lemma_filter_len(|r: Request| r.path == path);
        }
    } else {
        let earlier = batch.drop_last();
        let request = batch.last();
        assert(batch =~= earlier.push(request));
        assert forall|i: int| 0 <= i < earlier.len() && (#[trigger] earlier[i]).path
            == path implies !earlier[i].payload.append by {
            assert(earlier[i] == batch[i]);
        }
        lemma_overrides_replace(table, earlier, path);
        lemma_merge_all_per_path(table, earlier, path);
        lemma_merge_touches_one_path(merged_all(table, earlier), request, path);
        lemma_fragments_push(earlier, request, path);
        if request.path == path {
            assert(fragments_for(batch, path).drop_last() =~= fragments_for(earlier, path));
        }
    }
}

/// What a cycle writes to one destination is settled by what that destination
/// held and by the requests addressed to it. Requests for other destinations,
/// and what becomes of their writes, have no part in it: the writes of a cycle
/// are all handed out before the first of them is performed.
pub proof fn lemma_paths_are_independent(
    table: Seq<Request>,
    batch: Seq<Request>,
    other_table: Seq<Request>,
    other_batch: Seq<Request>,
    path: PathBuf,
)
    requires
        paths(table).no_duplicates(),
        paths(other_table).no_duplicates(),
        slot(table, path) == slot(other_table, path),
        fragments_for(batch, path) == fragments_for(other_batch, path),
    ensures
        slot(merged_all(table, batch), path) == slot(merged_all(other_table, other_batch), path),
        written(merged_all(table, batch), path) == written(
            merged_all(other_table, other_batch),
            path,
        ),
{
    lemma_merge_all_per_path(table, batch, path);
    lemma_merge_all_per_path(other_table, other_batch, path);
    lemma_flush_writes_what_waits(merged_all(table, batch), path);
    lemma_flush_writes_what_waits(merged_all(other_table, other_batch), path);
}

/// Blank requests are no-ops: a batch in which every request for a destination
/// is blank leaves that destination as it was, and a batch of blank requests
/// alone leaves the whole table, and so every write, as it was.
pub proof fn lemma_blank_requests_change_nothing(
    table: Seq<Request>,
    batch: Seq<Request>,
    path: PathBuf,
)
    requires
        paths(table).no_duplicates(),
        forall|i: int| 0 <= i < batch.len() && (#[trigger] batch[i]).path == path ==> is_blank(batch[i]),
    ensures
        slot(merged_all(table, batch), path) == slot(table, path),
        written(merged_all(table, batch), path) == written(table, path),
        (forall|i: int| 0 <= i < batch.len() ==> is_blank(#[trigger] batch[i])) ==> merged_all(
            table,
            batch,
        ) == table,
    decreases batch.len(),
{
    if batch.len() > 0 {
        let earlier = batch.drop_last();
        let request = batch.last();
        assert forall|i: int| 0 <= i < earlier.len() && (#[trigger] earlier[i]).path
            == path implies is_blank(earlier[i]) by {
            assert(earlier[i] == batch[i]);
        }
        lemma_blank_requests_change_nothing(table, earlier, path);
        lemma_merge_all_per_path(table, earlier, path);
        lemma_merge_touches_one_path(merged_all(table, earlier), request, path);
        if forall|i: int| 0 <= i < batch.len() ==> is_blank(#[trigger] batch[i]) {
            assert forall|i: int| 0 <= i < earlier.len() implies is_blank(
                #[trigger] earlier[i],
            ) by {
                assert(earlier[i] == batch[i]);
            }
        }
    }
    lemma_merge_all_per_path(table, batch, path);
    lemma_flush_writes_what_waits(merged_all(table, batch), path);
    lemma_flush_writes_what_waits(table, path);
}

/// After a flush, a destination is not written again until a request with
/// bytes comes for it: a second flush right away asks for no write at all,
/// and a cycle whose requests for the destination are all blank, or that has
/// none for it, asks for none to it.
pub proof fn lemma_flushed_path_stays_silent(table: Seq<Request>, batch: Seq<Request>, path: PathBuf)
    requires
        paths(table).no_duplicates(),
        forall|i: int| 0 <= i < batch.len() && (#[trigger] batch[i]).path == path ==> is_blank(batch[i]),
    ensures
        plan(cleared(table)) == Seq::<Request>::empty(),
        cleared(cleared(table)) == cleared(table),
        written(merged_all(cleared(table), batch), path) is None,
{
    let filled = |r: Request| !is_blank(r);
    assert(plan(cleared(table)) =~= Seq::<Request>::empty()) by {
        assert forall|i: int| 0 <= i < cleared(table).len() implies !filled(
            #[trigger] cleared(table)[i],
        ) by {}
        cleared(table).lemma_all_neg_filter_empty(filled);
    }
    assert(cleared(cleared(table)) =~= cleared(table));
    lemma_flush_empties_every_entry(table, path);
    lemma_blank_requests_change_nothing(cleared(table), batch, path);
    lemma_flush_writes_what_waits(cleared(table), path);
}

} // verus!
