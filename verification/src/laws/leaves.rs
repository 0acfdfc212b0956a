//! Laws of leaf manifests and of the commits that write them.

use vstd::prelude::*;

use crate::add_action::{action_added, AddModel};
use crate::builder::{
    all_rows, batches_totaled, carried_entry, entry_sealed, flat_rows, record_sum, sealed_up_to,
    totals_match, BatchAggregates, BuilderModel, NodeModel, Version,
};
use crate::entry::{DataContentType, EntryModel, TrackingStatus};
use crate::error::ErrorModel;
use crate::expression::StructDataModel;
use crate::leaf::{
    batch_tally, entry_tally, leaf_entry, leaf_tally, leaf_totals_fit, relative_location,
    tally_info, Tally,
};
use crate::manifest_commit::{
    first_duplicate, leaf_added, with_all_positions, LeafResultModel, ManifestCommitModel,
};
use crate::node_build::{
    build_done, lemma_assigned_totaled, pending_cursor, with_final_statuses,
};
use crate::row_ids::{
    assigned_batches, assigned_entries, batch_cursor_before, cursor_before, row_cursor_before,
    row_span, takes_row_ids,
};

verus! {

/// The number of files of the first `n` batches.
pub open spec fn batch_files(batches: Seq<BatchAggregates>, n: int) -> int
    decreases n,
{
    if n <= 0 {
        0
    } else {
        batch_files(batches, n - 1) + batches[n - 1].added_file_count
            + batches[n - 1].existing_file_count
    }
}

impl Tally {
    /// All files, whatever their status.
    pub open spec fn files(self) -> int {
        self.added_files + self.existing_files + self.deleted_files + self.replaced_files
    }

    /// All rows, whatever the status of their file.
    pub open spec fn rows(self) -> int {
        self.added_rows + self.existing_rows + self.deleted_rows + self.replaced_rows
    }
}

/// Every entry is counted once.
proof fn lemma_entries_counted(entries: Seq<EntryModel>, n: int)
    requires
        0 <= n <= entries.len(),
    ensures
        entry_tally(entries, n).files() == n,
        entry_tally(entries, n).rows() == entry_tally(entries, n).record_count,
    decreases n,
{
    if n > 0 {
        lemma_entries_counted(entries, n - 1);
    }
}

/// A leaf counts each of its files once, and its records are the rows of all of them.
pub proof fn law_leaves_count_every_file(builder: BuilderModel, n: int)
    requires
        0 <= n <= builder.aggregates.len(),
    ensures
        batch_tally(builder, n).files() == builder.entries.len() + batch_files(
            builder.aggregates,
            n,
        ),
        batch_tally(builder, n).rows() == batch_tally(builder, n).record_count,
    decreases n,
{
    if n > 0 {
        law_leaves_count_every_file(builder, n - 1);
    } else {
        lemma_entries_counted(builder.entries, builder.entries.len() as int);
    }
}

/// The smallest sequence number is not above that of any entry.
proof fn lemma_least_sequence(entries: Seq<EntryModel>, i: int, n: int)
    requires
        0 <= n <= entries.len(),
    ensures
        i64::MIN <= entry_tally(entries, n).least_sequence <= i64::MAX,
        0 <= i < n ==> (entries[i].tracking.sequence_number matches Some(seq) ==> entry_tally(
            entries,
            n,
        ).least_sequence <= seq),
    decreases n,
{
    if n > 0 {
        lemma_least_sequence(entries, i, n - 1);
    }
}

/// Batches lower the smallest sequence number at most.
proof fn lemma_batches_lower_sequence(builder: BuilderModel, n: int)
    requires
        0 <= n,
    ensures
        batch_tally(builder, n).least_sequence <= entry_tally(
            builder.entries,
            builder.entries.len() as int,
        ).least_sequence,
        i64::MIN <= batch_tally(builder, n).least_sequence,
    decreases n,
{
    if n > 0 {
        lemma_batches_lower_sequence(builder, n - 1);
    } else {
        lemma_least_sequence(builder.entries, 0, builder.entries.len() as int);
    }
}

/// The minimum sequence number of a leaf is not above the sequence number of any entry in it.
pub proof fn law_minimum_sequence_number(builder: BuilderModel, i: int)
    requires
        0 <= i < builder.entries.len(),
        builder.entries[i].tracking.sequence_number is Some,
    ensures
        tally_info(leaf_tally(builder)).min_sequence_number
            <= builder.entries[i].tracking.sequence_number->Some_0,
{
    lemma_least_sequence(builder.entries, i, builder.entries.len() as int);
    lemma_batches_lower_sequence(builder, builder.aggregates.len() as int);
}

/// The first row id of a leaf is that of its first entry, where that is given a new one; the
/// manifest and its files agree on where the range starts.
pub proof fn law_leaves_start_at_their_first_row(entries: Seq<EntryModel>, start: int)
    requires
        entries.len() > 0,
        takes_row_ids(entries[0]),
        entries[0].tracking.first_row_id is None,
    ensures
        assigned_entries(entries, start)[0].tracking.first_row_id == Some(start as i64),
{
}

/// A leaf is referred to as a new manifest whose two sequence numbers are the version of the
/// commit.
pub proof fn law_leaf_references_are_new(
    builder: BuilderModel,
    snapshot_id: i64,
    first_row_id: i64,
    location: Seq<char>,
    size_in_bytes: u64,
    content_stats: Option<StructDataModel>,
)
    ensures
        ({
            let entry = leaf_entry(
                builder,
                snapshot_id,
                first_row_id,
                location,
                size_in_bytes,
                content_stats,
            );
            &&& entry.is_manifest()
            &&& entry.tracking.status == TrackingStatus::Added
            &&& entry.tracking.sequence_number == entry.tracking.file_sequence_number
            &&& entry.tracking.sequence_number == Some(builder.version as i64)
            &&& entry.tracking.first_row_id == Some(first_row_id)
        }),
{
}

/// A location below the table root is made relative by taking the root off, and nothing else
/// is changed.
pub proof fn law_locations_are_relative_to_the_root(table_root: Seq<char>, rest: Seq<char>)
    ensures
        relative_location(table_root + rest, table_root) == rest,
{
    assert(table_root.is_prefix_of(table_root + rest));
    assert((table_root + rest).skip(table_root.len() as int) =~= rest);
}

/// The rows of a sequence of batches with one more in front.
proof fn lemma_flat_rows_front(
    first: Seq<EntryModel>,
    batches: Seq<Seq<EntryModel>>,
    n: int,
)
    requires
        0 <= n <= batches.len(),
    ensures
        flat_rows(seq![first] + batches, n + 1) == first + flat_rows(batches, n),
    decreases n,
{
    let all = seq![first] + batches;
    if n > 0 {
        lemma_flat_rows_front(first, batches, n - 1);
        assert(all[n] == batches[n - 1]);
        assert(flat_rows(all, n + 1) =~= first + flat_rows(batches, n));
    } else {
        assert(flat_rows(all, 1) == flat_rows(all, 0) + all[0]);
        assert(flat_rows(all, 1) =~= first + flat_rows(batches, 0));
    }
}

/// A node holds the entries of its builder and, behind them, the rows of its batches: building
/// loses none and adds none.
pub proof fn law_nodes_hold_all_rows(
    before: BuilderModel,
    snapshot_id: i64,
    start: int,
    after: BuilderModel,
    node: NodeModel,
    end: int,
)
    requires
        build_done(before, snapshot_id, start, after, node, end),
    ensures
        all_rows(node.data) == after.entries + all_rows(
            assigned_batches(before.batches, pending_cursor(before, start)),
        ),
        after.entries.len() == before.entries.len(),
{
    let batches = assigned_batches(before.batches, pending_cursor(before, start));
    if after.entries.len() == 0 {
        assert(node.data =~= batches);
        assert(all_rows(node.data) =~= after.entries + all_rows(batches));
    } else {
        assert(node.data == seq![after.entries] + batches);
        lemma_flat_rows_front(after.entries, batches, batches.len() as int);
    }
}

/// The positions under a key after some lists were united are those that were there and those
/// of the lists.
pub proof fn law_leaf_positions_unite(
    map: Map<Seq<char>, Set<u64>>,
    dvs: Seq<(Seq<char>, Set<u64>)>,
    n: int,
    key: Seq<char>,
    position: u64,
)
    requires
        0 <= n <= dvs.len(),
    ensures
        ({
            let united = with_all_positions(map, dvs, n);
            (united.contains_key(key) && united[key].contains(position)) <==> ((map.contains_key(
                key,
            ) && map[key].contains(position)) || exists|i: int|
                0 <= i < n && (#[trigger] dvs[i]).0 == key && dvs[i].1.contains(position))
        }),
    decreases n,
{
    if n > 0 {
        law_leaf_positions_unite(map, dvs, n - 1, key, position);
        if exists|i: int|
            0 <= i < n && (#[trigger] dvs[i]).0 == key && dvs[i].1.contains(position) {
            let i = choose|i: int|
                0 <= i < n && (#[trigger] dvs[i]).0 == key && dvs[i].1.contains(position);
            if i < n - 1 {
                assert(dvs[i].0 == key && dvs[i].1.contains(position));
            }
        }
        if dvs[n - 1].0 == key && dvs[n - 1].1.contains(position) {
            assert(dvs[n - 1].0 == key);
        }
    }
}

/// A path that is in the set is found.
proof fn lemma_first_duplicate(paths: Seq<Seq<char>>, seen: Set<Seq<char>>, from: int, i: int)
    requires
        0 <= from <= i < paths.len(),
        seen.contains(paths[i]),
    ensures
        first_duplicate(paths, seen, from) <= i,
    decreases paths.len() - from,
{
    if !seen.contains(paths[from]) {
        lemma_first_duplicate(paths, seen, from + 1, i);
    }
}

/// No file moves from the root into two leaves: once a leaf took it, every other leaf that
/// names it is refused.
pub proof fn law_no_file_moves_twice(
    commit: ManifestCommitModel,
    first: LeafResultModel,
    second: LeafResultModel,
    i: int,
    j: int,
)
    requires
        0 <= i < first.root_entries.len(),
        0 <= j < second.root_entries.len(),
        first.root_entries[i] == second.root_entries[j],
        leaf_added(commit, first) is Ok,
    ensures
        leaf_added(leaf_added(commit, first)->Ok_0, second) is Err,
{
    let after = leaf_added(commit, first)->Ok_0;
    assert(first.root_entries.contains(first.root_entries[i]));
    assert(after.unreconciled.contains(second.root_entries[j]));
    lemma_first_duplicate(second.root_entries, after.unreconciled, 0, j);
}

/// A file that one version adds is there already for every other version: its snapshot and its
/// sequence numbers stay.
pub proof fn law_added_files_age(
    builder: BuilderModel,
    add: AddModel,
    stats: Result<Option<StructDataModel>, ErrorModel>,
    version: Version,
    snapshot_id: i64,
    later: Version,
)
    requires
        !builder.seen.contains(add.path),
        action_added(builder, add, stats, version, snapshot_id, TrackingStatus::Added).1 is Ok,
        version as i64 != later as i64,
    ensures
        ({
            let entry = action_added(
                builder,
                add,
                stats,
                version,
                snapshot_id,
                TrackingStatus::Added,
            ).0.entries.last();
            let carried = carried_entry(entry, later);
            &&& carried.tracking.status == TrackingStatus::Existing
            &&& carried.tracking.snapshot_id == Some(snapshot_id)
            &&& carried.tracking.sequence_number == Some(version as i64)
            &&& carried.tracking.file_sequence_number == Some(version as i64)
        }),
{
}

/// The records of the live files among the first `n` entries.
pub open spec fn live_records(entries: Seq<EntryModel>, n: int) -> int
    decreases n,
{
    if n <= 0 {
        0
    } else {
        live_records(entries, n - 1) + (if entries[n - 1].tracking.status
            == TrackingStatus::Deleted {
            0int
        } else {
            entries[n - 1].record_count as int
        })
    }
}

/// The records of the first `n` batches.
pub open spec fn batch_records(batches: Seq<BatchAggregates>, n: int) -> int
    decreases n,
{
    if n <= 0 {
        0
    } else {
        batch_records(batches, n - 1) + batches[n - 1].total_record_count
    }
}

/// Data files without row ids take as many as they have records.
proof fn lemma_files_take_their_records(entries: Seq<EntryModel>, start: int, n: int)
    requires
        0 <= n <= entries.len(),
        forall|i: int|
            0 <= i < entries.len() ==> (#[trigger] entries[i]).content_type
                == DataContentType::Data && entries[i].tracking.first_row_id is None,
    ensures
        cursor_before(entries, start, n) == start + live_records(entries, n),
    decreases n,
{
    if n > 0 {
        lemma_files_take_their_records(entries, start, n - 1);
        assert(entries[n - 1].content_type == DataContentType::Data);
    }
}

/// The rows of a batch take as many ids as they have records.
proof fn lemma_rows_take_their_records(rows: Seq<EntryModel>, start: int, n: int)
    requires
        0 <= n <= rows.len(),
        forall|i: int|
            0 <= i < rows.len() ==> (#[trigger] rows[i]).tracking.first_row_id is None,
    ensures
        row_cursor_before(rows, start, n) == start + record_sum(rows, n),
    decreases n,
{
    if n > 0 {
        lemma_rows_take_their_records(rows, start, n - 1);
        assert(rows[n - 1].tracking.first_row_id is None);
    }
}

/// Batches whose totals are right take as many ids as the totals say.
proof fn lemma_batches_take_their_records(
    batches: Seq<Seq<EntryModel>>,
    totals: Seq<BatchAggregates>,
    start: int,
    n: int,
)
    requires
        0 <= n <= batches.len(),
        totals.len() == batches.len(),
        forall|b: int, r: int|
            0 <= b < batches.len() && 0 <= r < batches[b].len() ==> (
            #[trigger] batches[b][r]).tracking.first_row_id is None,
        forall|b: int|
            0 <= b < batches.len() ==> (#[trigger] totals[b]).total_record_count == record_sum(
                batches[b],
                batches[b].len() as int,
            ),
    ensures
        batch_cursor_before(batches, start, n) == start + batch_records(totals, n),
    decreases n,
{
    if n > 0 {
        lemma_batches_take_their_records(batches, totals, start, n - 1);
        let rows = batches[n - 1];
        assert forall|i: int| 0 <= i < rows.len() implies (
        #[trigger] rows[i]).tracking.first_row_id is None by {
            assert(batches[n - 1][i].tracking.first_row_id is None);
        }
        lemma_rows_take_their_records(
            rows,
            batch_cursor_before(batches, start, n - 1),
            rows.len() as int,
        );
        assert(totals[n - 1].total_record_count == record_sum(rows, rows.len() as int));
    }
}

/// The added and the existing rows of some entries are the records of the live ones.
proof fn lemma_live_rows_counted(entries: Seq<EntryModel>, n: int)
    requires
        0 <= n <= entries.len(),
        forall|i: int|
            0 <= i < entries.len() ==> (#[trigger] entries[i]).tracking.status
                != TrackingStatus::Replaced,
    ensures
        entry_tally(entries, n).added_rows + entry_tally(entries, n).existing_rows
            == live_records(entries, n),
    decreases n,
{
    if n > 0 {
        lemma_live_rows_counted(entries, n - 1);
        assert(entries[n - 1].tracking.status != TrackingStatus::Replaced);
    }
}

/// The added and the existing rows of a leaf are those of its entries and those of its batches.
proof fn lemma_batch_rows_counted(builder: BuilderModel, n: int)
    requires
        0 <= n <= builder.aggregates.len(),
    ensures
        ({
            let entries = entry_tally(builder.entries, builder.entries.len() as int);
            let all = batch_tally(builder, n);
            all.added_rows + all.existing_rows == entries.added_rows + entries.existing_rows
                + batch_records(builder.aggregates, n)
        }),
    decreases n,
{
    if n > 0 {
        lemma_batch_rows_counted(builder, n - 1);
    }
}

/// Entries that differ in their first row ids alone have the same live records.
proof fn lemma_same_live_records(entries: Seq<EntryModel>, start: int, n: int)
    requires
        0 <= n <= entries.len(),
    ensures
        live_records(assigned_entries(entries, start), n) == live_records(entries, n),
    decreases n,
{
    if n > 0 {
        lemma_same_live_records(entries, start, n - 1);
    }
}

/// Whether a builder has built no node yet: the totals that it holds are those of its batches.
pub open spec fn none_built(builder: BuilderModel) -> bool {
    builder.aggregates.len() == builder.batches.len()
}

/// The records of some rows and of more rows behind them.
proof fn lemma_records_add_up(rows: Seq<EntryModel>, more: Seq<EntryModel>, n: int)
    requires
        0 <= n <= more.len(),
    ensures
        record_sum(rows + more, rows.len() + n) == record_sum(rows, rows.len() as int)
            + record_sum(more, n),
    decreases n,
{
    if n > 0 {
        lemma_records_add_up(rows, more, n - 1);
    } else {
        lemma_same_records(rows + more, rows, rows.len() as int);
    }
}

/// Rows that start alike have the same records at their start.
proof fn lemma_same_records(rows: Seq<EntryModel>, head: Seq<EntryModel>, n: int)
    requires
        0 <= n <= head.len() <= rows.len(),
        forall|i: int| 0 <= i < n ==> #[trigger] rows[i] == head[i],
    ensures
        record_sum(rows, n) == record_sum(head, n),
    decreases n,
{
    if n > 0 {
        lemma_same_records(rows, head, n - 1);
        assert(rows[n - 1] == head[n - 1]);
    }
}

/// The totals of batches are the number of their rows and the records of their rows.
proof fn lemma_totals_over_rows(
    batches: Seq<Seq<EntryModel>>,
    totals: Seq<BatchAggregates>,
    n: int,
)
    requires
        0 <= n <= batches.len(),
        totals.len() == batches.len(),
        batches_totaled(batches, totals),
    ensures
        batch_files(totals, n) == flat_rows(batches, n).len(),
        batch_records(totals, n) == record_sum(
            flat_rows(batches, n),
            flat_rows(batches, n).len() as int,
        ),
    decreases n,
{
    if n > 0 {
        lemma_totals_over_rows(batches, totals, n - 1);
        assert(totals_match(batches[n - 1], totals[n - 1]));
        lemma_records_add_up(
            flat_rows(batches, n - 1),
            batches[n - 1],
            batches[n - 1].len() as int,
        );
    }
}

/// The records of some entries are the sum of their record counts.
proof fn lemma_entry_records(entries: Seq<EntryModel>, n: int)
    requires
        0 <= n <= entries.len(),
    ensures
        entry_tally(entries, n).record_count == record_sum(entries, n),
    decreases n,
{
    if n > 0 {
        lemma_entry_records(entries, n - 1);
    }
}

/// The records of a leaf are those of its entries and those of its batches.
proof fn lemma_leaf_records(builder: BuilderModel, n: int)
    requires
        0 <= n <= builder.aggregates.len(),
    ensures
        batch_tally(builder, n).record_count == record_sum(
            builder.entries,
            builder.entries.len() as int,
        ) + batch_records(builder.aggregates, n),
    decreases n,
{
    if n > 0 {
        lemma_leaf_records(builder, n - 1);
    } else {
        lemma_entry_records(builder.entries, builder.entries.len() as int);
    }
}

/// The totals of a leaf are those of the rows that are written: it counts as many files as the
/// node has rows, and its records are the records of these rows.
pub proof fn law_leaves_count_the_rows_written(
    before: BuilderModel,
    snapshot_id: i64,
    start: int,
    after: BuilderModel,
    node: NodeModel,
    end: int,
)
    requires
        build_done(before, snapshot_id, start, after, node, end),
        batches_totaled(before.batches, before.aggregates),
        none_built(before),
    ensures
        leaf_tally(after).files() == all_rows(node.data).len(),
        leaf_tally(after).record_count == record_sum(
            all_rows(node.data),
            all_rows(node.data).len() as int,
        ),
{
    let cursor = pending_cursor(before, start);
    let batches = assigned_batches(before.batches, cursor);
    let n = batches.len() as int;
    law_nodes_hold_all_rows(before, snapshot_id, start, after, node, end);
    law_leaves_count_every_file(after, after.aggregates.len() as int);
    lemma_assigned_totaled(before.batches, before.aggregates, cursor);
    lemma_totals_over_rows(batches, before.aggregates, n);
    lemma_leaf_records(after, n);
    lemma_records_add_up(after.entries, all_rows(batches), all_rows(batches).len() as int);
}

/// The range of row ids that a leaf's entry claims is the range that its files were given: where
/// no file had an id and none is marked as replaced, the entry covers as many ids as were handed
/// out while the leaf was built.
pub proof fn law_leaf_ranges_cover_their_files(
    before: BuilderModel,
    snapshot_id: i64,
    start: int,
    after: BuilderModel,
    node: NodeModel,
    end: int,
    location: Seq<char>,
    size_in_bytes: u64,
    content_stats: Option<StructDataModel>,
)
    requires
        build_done(before, snapshot_id, start, after, node, end),
        leaf_totals_fit(after),
        forall|i: int|
            0 <= i < before.entries.len() ==> (#[trigger] before.entries[i]).content_type
                == DataContentType::Data && before.entries[i].tracking.first_row_id is None
                && before.entries[i].tracking.status != TrackingStatus::Replaced,
        batches_totaled(before.batches, before.aggregates),
        none_built(before),
        forall|b: int, r: int|
            0 <= b < before.batches.len() && 0 <= r < before.batches[b].len() ==> (
            #[trigger] before.batches[b][r]).tracking.first_row_id is None,
    ensures
        ({
            let entry = leaf_entry(
                after,
                snapshot_id,
                start as i64,
                location,
                size_in_bytes,
                content_stats,
            );
            row_span(entry) == end - start
        }),
{
    let n = before.entries.len() as int;
    let sealed_entries = choose|sealed_entries: Seq<EntryModel>|
        {
            &&& #[trigger] sealed_up_to(
                before.entries,
                before.caches,
                snapshot_id,
                sealed_entries,
                n,
            )
            &&& after.entries == assigned_entries(sealed_entries, start)
        };
    assert forall|i: int| 0 <= i < n implies #[trigger] sealed_entries[i] == before.entries[i] by {
        assert(entry_sealed(before.entries[i], before.caches, snapshot_id, sealed_entries[i]));
        assert(before.entries[i].content_type == DataContentType::Data);
    }
    assert(sealed_entries =~= before.entries);
    let last = with_final_statuses(before.entries, before.caches);
    assert forall|i: int| 0 <= i < n implies #[trigger] last[i] == before.entries[i] by {
        assert(before.entries[i].content_type == DataContentType::Data);
    }
    assert(last =~= before.entries);
    lemma_files_take_their_records(before.entries, start, n);
    assert forall|b: int| 0 <= b < before.batches.len() implies (
    #[trigger] before.aggregates[b]).total_record_count == record_sum(
        before.batches[b],
        before.batches[b].len() as int,
    ) by {
        assert(totals_match(before.batches[b], before.aggregates[b]));
    }
    lemma_batches_take_their_records(
        before.batches,
        before.aggregates,
        pending_cursor(before, start),
        before.batches.len() as int,
    );
    assert forall|i: int| 0 <= i < after.entries.len() implies (
    #[trigger] after.entries[i]).tracking.status != TrackingStatus::Replaced by {
        assert(before.entries[i].tracking.status != TrackingStatus::Replaced);
    }
    lemma_live_rows_counted(after.entries, n);
    lemma_same_live_records(before.entries, start, n);
    lemma_batch_rows_counted(after, after.aggregates.len() as int);
    assert(batch_tally(after, after.aggregates.len() as int).fits());
}

} // verus!
