//! Turning what a builder holds into a node: bitmaps are put into the entries of their
//! manifests, and row ids are assigned.

use vstd::prelude::*;

use crate::builder::{
    batch_models, batches_totaled, cache_to_seal, caches_coherent, entry_error, entry_sealed,
    first_unsealable, record_sum, sealed_up_to, totals_match, BatchAggregates, BuilderModel,
    ContentTreeNode, ContentTreeNodeBuilder, NodeModel,
};
use crate::dv_cache::{all_masked, seal_entry, CacheModel};
use crate::entry::{
    clone_entries, clone_text, entry_models, ContentTreeNodeEntry, EntryModel, TrackingStatus,
};
use crate::error::{DeltaResult, ErrorModel};
use crate::location::clone_url;
use crate::row_ids::{
    assign_row_ids, assign_row_ids_to_batch, assigned_batches, assigned_entries, assigned_rows,
    batch_cursor_before, batch_row_ids_fit, cursor_after, cursor_before, is_i64, row_cursor_before,
    row_ids_fit, CursorRowIdAllocator,
};

verus! {

/// The entry with the status that it has once it is sealed.
pub open spec fn with_final_status(
    entry: EntryModel,
    caches: Map<Seq<char>, CacheModel>,
) -> EntryModel {
    match cache_to_seal(entry, caches) {
        Some(cache) => if all_masked(entry, cache) {
            entry.with_status(TrackingStatus::Deleted)
        } else {
            entry
        },
        None => entry,
    }
}

/// The entries with the statuses that they have once they are sealed.
pub open spec fn with_final_statuses(
    entries: Seq<EntryModel>,
    caches: Map<Seq<char>, CacheModel>,
) -> Seq<EntryModel> {
    Seq::new(entries.len(), |i: int| with_final_status(entries[i], caches))
}

/// Whether every entry can be sealed.
pub open spec fn all_sealable(builder: BuilderModel) -> bool {
    first_unsealable(builder.entries, builder.caches, 0) == builder.entries.len()
}

/// The cursor behind the entries of a builder.
pub open spec fn pending_cursor(builder: BuilderModel, start: int) -> int {
    cursor_before(
        with_final_statuses(builder.entries, builder.caches),
        start,
        builder.entries.len() as int,
    )
}

/// All row ids of a node fit in 64 bits.
pub open spec fn build_fits(builder: BuilderModel, start: int) -> bool {
    &&& row_ids_fit(with_final_statuses(builder.entries, builder.caches), start)
    &&& batch_row_ids_fit(builder.batches, pending_cursor(builder, start))
}

/// Whether `after` holds the entries of `before`, sealed and with their row ids.
pub open spec fn entries_built(
    before: BuilderModel,
    snapshot_id: i64,
    start: int,
    after: Seq<EntryModel>,
) -> bool {
    exists|sealed: Seq<EntryModel>|
        {
            &&& #[trigger] sealed_up_to(
                before.entries,
                before.caches,
                snapshot_id,
                sealed,
                before.entries.len() as int,
            )
            &&& after == assigned_entries(sealed, start)
        }
}

/// The node that a builder makes, given its entries as they were built.
pub open spec fn built_node(
    before: BuilderModel,
    start: int,
    entries: Seq<EntryModel>,
) -> NodeModel {
    NodeModel {
        table_root: before.table_root,
        data: (if entries.len() == 0 {
            Seq::empty()
        } else {
            seq![entries]
        }) + assigned_batches(before.batches, pending_cursor(before, start)),
        version: before.version,
        path_in_log: Seq::empty(),
    }
}

/// What a builder, a node and the cursor are after a node was built: the entries are sealed and
/// have their row ids, the batches moved into the node, and the cursor stands behind all ids.
pub open spec fn build_done(
    before: BuilderModel,
    snapshot_id: i64,
    start: int,
    after: BuilderModel,
    node: NodeModel,
    end: int,
) -> bool {
    &&& all_sealable(before)
    &&& entries_built(before, snapshot_id, start, after.entries)
    &&& after == (BuilderModel { entries: after.entries, batches: Seq::empty(), ..before })
    &&& node == built_node(before, start, after.entries)
    &&& end == batch_cursor_before(
        before.batches,
        pending_cursor(before, start),
        before.batches.len() as int,
    )
}

/// What a builder is after no node could be built: the entries in front of the first one that
/// cannot be sealed are sealed, and the error is that of this entry.
pub open spec fn build_refused(
    before: BuilderModel,
    snapshot_id: i64,
    after: BuilderModel,
    error: ErrorModel,
) -> bool {
    let stop = first_unsealable(before.entries, before.caches, 0);
    &&& stop < before.entries.len()
    &&& entry_error(before.entries[stop], before.caches) == Some(error)
    &&& sealed_up_to(before.entries, before.caches, snapshot_id, after.entries, stop)
    &&& after == (BuilderModel { entries: after.entries, ..before })
}

/// Sealing moves the cursor as the status alone does.
proof fn lemma_sealed_cursor(
    before: EntryModel,
    caches: Map<Seq<char>, CacheModel>,
    snapshot_id: i64,
    after: EntryModel,
    cursor: int,
)
    requires
        entry_sealed(before, caches, snapshot_id, after),
    ensures
        cursor_after(after, cursor) == cursor_after(with_final_status(before, caches), cursor),
{
}

/// Sealing moves the cursor as the statuses alone do.
proof fn lemma_sealed_cursors(
    before: Seq<EntryModel>,
    caches: Map<Seq<char>, CacheModel>,
    snapshot_id: i64,
    after: Seq<EntryModel>,
    start: int,
    n: int,
)
    requires
        sealed_up_to(before, caches, snapshot_id, after, before.len() as int),
        0 <= n <= before.len(),
    ensures
        cursor_before(after, start, n) == cursor_before(
            with_final_statuses(before, caches),
            start,
            n,
        ),
    decreases n,
{
    if n > 0 {
        lemma_sealed_cursors(before, caches, snapshot_id, after, start, n - 1);
        assert(entry_sealed(before[n - 1], caches, snapshot_id, after[n - 1]));
        lemma_sealed_cursor(
            before[n - 1],
            caches,
            snapshot_id,
            after[n - 1],
            cursor_before(after, start, n - 1),
        );
    }
}

/// Rows have the same records with row ids as without.
proof fn lemma_assigned_records(rows: Seq<EntryModel>, start: int, n: int)
    requires
        0 <= n <= rows.len(),
    ensures
        record_sum(assigned_rows(rows, start), n) == record_sum(rows, n),
    decreases n,
{
    if n > 0 {
        lemma_assigned_records(rows, start, n - 1);
    }
}

/// The totals of batches are right for them with row ids as well.
pub proof fn lemma_assigned_totaled(
    batches: Seq<Seq<EntryModel>>,
    totals: Seq<BatchAggregates>,
    start: int,
)
    requires
        batches_totaled(batches, totals),
    ensures
        batches_totaled(assigned_batches(batches, start), totals),
{
    let after = assigned_batches(batches, start);
    assert forall|i: int| 0 <= i < after.len() implies totals_match(
        #[trigger] after[i],
        totals[totals.len() - after.len() + i],
    ) by {
        assert(totals_match(batches[i], totals[totals.len() - batches.len() + i]));
        lemma_assigned_records(
            batches[i],
            batch_cursor_before(batches, start, i),
            batches[i].len() as int,
        );
    }
}

impl ContentTreeNodeBuilder {
    /// Puts the changed bitmaps into the entries of their manifests. Stops at the first entry
    /// that cannot take them.
    pub fn serialize_dvs_to_entries(&mut self, snapshot_id: i64) -> (done: DeltaResult<()>)
        requires
            old(self).wf(),
        ensures
            final(self).wf(),
            final(self)@ == (BuilderModel { entries: final(self)@.entries, ..old(self)@ }),
            match done {
                Ok(_) => all_sealable(old(self)@) && sealed_up_to(
                    old(self)@.entries,
                    old(self)@.caches,
                    snapshot_id,
                    final(self)@.entries,
                    old(self)@.entries.len() as int,
                ),
                Err(e) => build_refused(old(self)@, snapshot_id, final(self)@, e@),
            },
    {
        let ghost before = self@.entries;
        let ghost caches = self@.caches;
        let mut i: usize = 0;
        while i < self.pending_entries.len()
            invariant
                self.wf(),
                i <= self.pending_entries@.len(),
                before == old(self)@.entries,
                caches == old(self)@.caches,
                self.pending_entries@.len() == before.len(),
                self@ == (BuilderModel { entries: self@.entries, ..old(self)@ }),
                first_unsealable(before, caches, 0) == first_unsealable(before, caches, i as int),
                sealed_up_to(before, caches, snapshot_id, self@.entries, i as int),
            decreases self.pending_entries@.len() - i,
        {
            assert(self@.entries[i as int] == before[i as int]);
            let ghost at_start = self@.entries;
            let location: Option<String> = if self.pending_entries[i].is_manifest() {
                clone_text(&self.pending_entries[i].location)
            } else {
                None
            };
            if let Some(path) = location {
                if let Some(cache) = self.dv_cache.get(path.as_str()) {
                    assert(caches.contains_key(path@) && caches[path@] == cache@);
                    if cache.dirty {
                        let done = seal_entry(&mut self.pending_entries[i], cache, snapshot_id);
                        assert forall|j: int| 0 <= j < before.len() && j != i implies
                            #[trigger] self@.entries[j] == at_start[j] by {}
                        if let Err(e) = done {
                            assert(self@.entries =~= at_start);
                            return Err(e);
                        }
                    }
                }
            }
            assert(entry_error(before[i as int], caches) is None);
            assert(entry_sealed(before[i as int], caches, snapshot_id, self@.entries[i as int]));
            i += 1;
        }
        Ok(())
    }

    /// Gives first row ids to the entries that need one.
    pub fn assign_first_row_ids_to_pending(&mut self, allocator: &mut CursorRowIdAllocator)
        requires
            old(self).wf(),
            row_ids_fit(old(self)@.entries, old(allocator)@),
        ensures
            final(self).wf(),
            final(self)@ == (BuilderModel {
                entries: assigned_entries(old(self)@.entries, old(allocator)@),
                ..old(self)@
            }),
            final(allocator)@ == cursor_before(
                old(self)@.entries,
                old(allocator)@,
                old(self)@.entries.len() as int,
            ),
    {
        assign_row_ids(&mut self.pending_entries, allocator);
    }

    /// Gives first row ids to the rows of the transformed batches that have none.
    pub fn assign_first_row_ids_pre_built(&mut self, allocator: &mut CursorRowIdAllocator)
        requires
            old(self).wf(),
            batch_row_ids_fit(old(self)@.batches, old(allocator)@),
        ensures
            final(self).wf(),
            final(self)@ == (BuilderModel {
                batches: assigned_batches(old(self)@.batches, old(allocator)@),
                ..old(self)@
            }),
            final(allocator)@ == batch_cursor_before(
                old(self)@.batches,
                old(allocator)@,
                old(self)@.batches.len() as int,
            ),
    {
        let ghost before = self@.batches;
        let ghost start = allocator@;
        let mut i: usize = 0;
        while i < self.pre_built_data.len()
            invariant
                self.dv_cache.wf(),
                caches_coherent(self@.caches),
                i <= self.pre_built_data@.len(),
                self.pre_built_data@.len() == before.len(),
                batch_row_ids_fit(before, start),
                self@ == (BuilderModel { batches: self@.batches, ..old(self)@ }),
                allocator@ == batch_cursor_before(before, start, i as int),
                forall|j: int|
                    0 <= j < i ==> entry_models((#[trigger] self.pre_built_data@[j])@)
                        == assigned_batches(before, start)[j],
                forall|j: int|
                    i <= j < before.len() ==> entry_models((#[trigger] self.pre_built_data@[j])@)
                        == before[j],
            decreases self.pre_built_data@.len() - i,
        {
            assert forall|n: int| 0 <= n <= before[i as int].len() implies is_i64(
                #[trigger] row_cursor_before(before[i as int], allocator@, n),
            ) by {
                assert(is_i64(
                    row_cursor_before(
                        before[i as int],
                        batch_cursor_before(before, start, i as int),
                        n,
                    ),
                ));
            }
            assert(entry_models(self.pre_built_data@[i as int]@) == before[i as int]);
            assign_row_ids_to_batch(&mut self.pre_built_data[i], allocator);
            i += 1;
        }
        assert(self@.batches =~= assigned_batches(before, start));
        proof {
            lemma_assigned_totaled(before, self@.aggregates, start);
        }
    }

    /// Makes a node of what the builder holds. Whether it is written as a root or as a leaf is
    /// up to the caller. The transformed batches move into the node.
    ///
    /// Entries without a first row id are given one, and the allocator is moved past all of
    /// them.
    pub fn build(
        &mut self,
        snapshot_id: i64,
        allocator: &mut CursorRowIdAllocator,
    ) -> (node: DeltaResult<ContentTreeNode>)
        requires
            old(self).wf(),
            all_sealable(old(self)@) ==> build_fits(old(self)@, old(allocator)@),
        ensures
            final(self).wf(),
            match node {
                Ok(n) => build_done(
                    old(self)@,
                    snapshot_id,
                    old(allocator)@,
                    final(self)@,
                    n@,
                    final(allocator)@,
                ),
                Err(e) => build_refused(old(self)@, snapshot_id, final(self)@, e@)
                    && final(allocator)@ == old(allocator)@,
            },
    {
        let ghost before = self@;
        let ghost start = allocator@;
        match self.serialize_dvs_to_entries(snapshot_id) {
            Ok(_) => {},
            Err(e) => {
                return Err(e);
            },
        }
        let ghost sealed = self@.entries;
        proof {
            assert forall|n: int| 0 <= n <= sealed.len() implies is_i64(
                #[trigger] cursor_before(sealed, start, n),
            ) by {
                lemma_sealed_cursors(before.entries, before.caches, snapshot_id, sealed, start, n);
                assert(is_i64(
                    cursor_before(
                        with_final_statuses(before.entries, before.caches),
                        start,
                        n,
                    ),
                ));
            }
            lemma_sealed_cursors(
                before.entries,
                before.caches,
                snapshot_id,
                sealed,
                start,
                sealed.len() as int,
            );
        }
        self.assign_first_row_ids_to_pending(allocator);
        self.assign_first_row_ids_pre_built(allocator);
        let ghost batches = self@.batches;
        let mut data: Vec<Vec<ContentTreeNodeEntry>> = Vec::new();
        if !self.pending_entries.is_empty() {
            data.push(clone_entries(&self.pending_entries));
        }
        let ghost head = batch_models(data@);
        data.append(&mut self.pre_built_data);
        assert(batch_models(data@) =~= head + batches);
        assert(self@.batches =~= Seq::empty());
        let node = ContentTreeNode {
            table_root: clone_url(&self.table_root),
            data,
            version: self.version,
            path_in_log: String::new(),
        };
        assert(head =~= (if self@.entries.len() == 0 {
            Seq::empty()
        } else {
            seq![self@.entries]
        }));
        assert(entries_built(before, snapshot_id, start, self@.entries));
        Ok(node)
    }
}

} // verus!
