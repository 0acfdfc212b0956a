//! Laws of what a commit makes of a content root.

use vstd::prelude::*;

use crate::builder::{
    all_rows, batch_added, dv_updated, entries_added, entries_marked_deleted, existing_aggregates,
    existing_rows_added, flat_rows, is_data_file_at, largest, leaf_positions_updated,
    live_file_index, loaded_builder, record_sum, root_cleared, BatchAggregates, BuilderModel,
    Version,
};
use crate::commit_builder::{
    baseline_plan, batches_added, blank_builder, is_baseline, leaf_removals, log_replayed,
    nothing_seen, PlanModel,
};
use crate::deletion_vector::DvModel;
use crate::dv_cache::LeafPositionUpdate;
use crate::entry::{DataContentType, EntryModel, TrackingModel, TrackingStatus};
use crate::error::{ErrorKind, ErrorModel};
use crate::ingest::{added_aggregates, scan_rows_added, write_added};
use crate::laws::additions::law_added_entries_change_entries_alone;
use crate::laws::bitmaps::lemma_has_largest;
use crate::laws::entries::{law_added_entries_come_behind, lemma_live_file_index};
use crate::leaf_updates::{leaf_updates_made, leaf_updates_possible};
use crate::location::LocationModel;
use crate::manifest_commit::{
    data_files_removed, dvs_removed, explicit_root_error, first_duplicate, leaf_added,
    leaves_put_in, root_manifest, url_below, LeafResultModel, ManifestCommitModel, SnapshotModel,
};
use crate::replay::{commits_replayed, CommitModel};
use crate::selection::{is_selected, selected_rows, selection_applied};

verus! {

/// The entry is a data file at a path that is not deleted.
pub open spec fn live_at(entry: EntryModel, path: Seq<char>) -> bool {
    &&& entry.location == Some(path)
    &&& entry.content_type == DataContentType::Data
    &&& entry.tracking.status != TrackingStatus::Deleted
}

/// A new deletion vector goes to the first live data file at the path and to no other entry, and
/// nothing else of the builder changes. Where there is no such file nothing changes at all.
pub proof fn law_dv_updates_change_the_first_live_file(
    builder: BuilderModel,
    path: Seq<char>,
    dv: Option<DvModel>,
    i: int,
)
    requires
        0 <= i < builder.entries.len(),
    ensures
        ({
            let after = dv_updated(builder, path, dv);
            let first = live_at(builder.entries[i], path) && forall|j: int|
                0 <= j < i ==> !live_at(#[trigger] builder.entries[j], path);
            &&& after == BuilderModel { entries: after.entries, ..builder }
            &&& after.entries.len() == builder.entries.len()
            &&& after.entries[i] == if first {
                EntryModel { deletion_vector: dv, ..builder.entries[i] }
            } else {
                builder.entries[i]
            }
            &&& live_file_index(builder.entries, path, 0) < builder.entries.len() <==> exists|
                j: int,
            |
                0 <= j < builder.entries.len() && live_at(#[trigger] builder.entries[j], path)
        }),
{
    lemma_live_file_index(builder.entries, path, 0);
    let at = live_file_index(builder.entries, path, 0);
    if at < builder.entries.len() {
        assert(live_at(builder.entries[at], path));
        if i < at {
            assert(!crate::builder::holds_live_file(builder.entries[i], path));
        }
    }
    if exists|j: int|
        0 <= j < builder.entries.len() && live_at(#[trigger] builder.entries[j], path) {
        let j = choose|j: int|
            0 <= j < builder.entries.len() && live_at(#[trigger] builder.entries[j], path);
        assert(crate::builder::holds_live_file(builder.entries[j], path));
    }
    assert forall|j: int| 0 <= j < at implies !live_at(#[trigger] builder.entries[j], path) by {
        assert(!crate::builder::holds_live_file(builder.entries[j], path));
    }
}

/// A data file is taken out by its path: the entries that stay are those at other places, those
/// without a place and those that are no data files.
pub proof fn law_data_files_are_told_by_path_and_kind(entry: EntryModel, path: Seq<char>)
    ensures
        is_data_file_at(entry, path) <==> entry.location == Some(path) && entry.content_type
            == DataContentType::Data,
{
}

/// Clearing a root keeps the entries of data manifests, delete manifests and manifest deletion
/// vectors, in their order, and drops all data and delete files, the rows of all batches and
/// their totals. The table stays what it was.
pub proof fn law_cleared_roots_keep_manifests(builder: BuilderModel, entry: EntryModel)
    ensures
        ({
            let after = root_cleared(builder);
            &&& after.entries.contains(entry) <==> builder.entries.contains(entry) && (
            entry.content_type == DataContentType::DataManifest || entry.content_type
                == DataContentType::DeleteManifest || entry.content_type
                == DataContentType::ManifestDv)
            &&& after.batches.len() == 0
            &&& after.aggregates.len() == 0
            &&& after.seen == Set::<Seq<char>>::empty()
            &&& after.table_root == builder.table_root
            &&& after.table_schema == builder.table_schema
            &&& after.version == builder.version
            &&& after.partition_type == builder.partition_type
        }),
{
    crate::laws::entries::law_cleared_roots_hold_leaf_references(builder, entry);
}

/// Clearing a root keeps the bitmaps of every leaf whose location no other kind of entry has.
pub proof fn law_cleared_roots_keep_bitmaps(builder: BuilderModel, leaf: Seq<char>)
    requires
        forall|i: int|
            0 <= i < builder.entries.len() && (#[trigger] builder.entries[i]).location == Some(leaf)
                ==> builder.entries[i].content_type == DataContentType::DataManifest
                || builder.entries[i].content_type == DataContentType::DeleteManifest,
    ensures
        root_cleared(builder).caches.contains_key(leaf) == builder.caches.contains_key(leaf),
        builder.caches.contains_key(leaf) ==> root_cleared(builder).caches[leaf]
            == builder.caches[leaf],
{
    let plain = crate::builder::plain_locations(builder.entries);
    if plain.contains(leaf) {
        let i = choose|i: int|
            0 <= i < builder.entries.len() && (#[trigger] builder.entries[i]).location == Some(leaf)
                && !crate::builder::is_leaf_reference(builder.entries[i]);
        assert(builder.entries[i].location == Some(leaf));
    }
}

/// Positions of a leaf can be masked exactly where the builder knows the leaf, something is said
/// of it, the positions that are masked already can be read, and each position lies below the
/// number of its entries.
pub proof fn law_positions_can_be_masked(
    builder: BuilderModel,
    leaf: Seq<char>,
    indices: Set<u64>,
    kind: LeafPositionUpdate,
)
    ensures
        leaf_positions_updated(builder, leaf, indices, kind) is Ok <==> {
            &&& builder.caches.contains_key(leaf)
            &&& builder.caches[leaf].described
            &&& builder.caches[leaf].masked() is Some
            &&& forall|position: u64| #[trigger]
                indices.contains(position) ==> position < builder.caches[leaf].total as u64
        },
{
    if builder.caches.contains_key(leaf) {
        let total = builder.caches[leaf].total as u64;
        if indices == Set::<u64>::empty() {
            assert(forall|position: u64| #[trigger]
                indices.contains(position) ==> position < total);
        } else {
            let element = choose|p: u64| indices.contains(p);
            assert(indices.contains(element)) by {
                if forall|p: u64| !indices.contains(p) {
                    assert(indices =~= Set::<u64>::empty());
                }
            }
            lemma_has_largest(indices, element, u64::MAX);
            let m = largest(indices);
            assert(indices.contains(m) && forall|p: u64| indices.contains(p) ==> p <= m);
        }
    }
}

/// Masking positions of a leaf masks them beside those that were masked, records them under the
/// kind of the update, and changes nothing else of the builder.
pub proof fn law_masking_changes_one_leaf(
    builder: BuilderModel,
    leaf: Seq<char>,
    indices: Set<u64>,
    kind: LeafPositionUpdate,
    position: u64,
)
    ensures
        leaf_positions_updated(builder, leaf, indices, kind) matches Ok(after) ==> {
            let before = builder.caches[leaf];
            let cache = after.caches[leaf];
            let named = indices.contains(position);
            &&& after == BuilderModel { caches: after.caches, ..builder }
            &&& after.caches == builder.caches.insert(leaf, cache)
            &&& before.masked() matches Some(masked) && (cache.masked() matches Some(now) && (
            now.contains(position) <==> masked.contains(position) || named))
            &&& cache.deleted.contains(position) <==> before.deleted.contains(position) || (named
                && kind == LeafPositionUpdate::Delete)
            &&& cache.replaced.contains(position) <==> before.replaced.contains(position) || (named
                && kind == LeafPositionUpdate::Replace)
            &&& cache.total == before.total
            &&& cache.dirty
        },
{
}

/// Updates of several leaves mask the positions of each in it, record them under the kind of the
/// update, and change nothing else.
pub proof fn law_leaf_updates_change_their_leaves(
    builder: BuilderModel,
    updates: Map<Seq<char>, Set<u64>>,
    kind: LeafPositionUpdate,
    leaf: Seq<char>,
    position: u64,
)
    requires
        leaf_updates_possible(builder, updates, kind),
    ensures
        ({
            let after = leaf_updates_made(builder, updates, kind);
            let named = updates.contains_key(leaf) && updates[leaf].contains(position);
            &&& after == BuilderModel { caches: after.caches, ..builder }
            &&& after.caches.contains_key(leaf) <==> builder.caches.contains_key(leaf)
            &&& updates.contains_key(leaf) ==> builder.caches.contains_key(leaf)
            &&& builder.caches.contains_key(leaf) && !updates.contains_key(leaf)
                ==> after.caches[leaf] == builder.caches[leaf]
            &&& updates.contains_key(leaf) ==> {
                let before = builder.caches[leaf];
                let cache = after.caches[leaf];
                &&& before.masked() matches Some(masked) && (cache.masked() matches Some(now) && (
                now.contains(position) <==> masked.contains(position) || named))
                &&& cache.deleted.contains(position) <==> before.deleted.contains(position) || (
                named && kind == LeafPositionUpdate::Delete)
                &&& cache.replaced.contains(position) <==> before.replaced.contains(position) || (
                named && kind == LeafPositionUpdate::Replace)
            }
        }),
{
    if updates.contains_key(leaf) {
        assert(leaf_positions_updated(builder, leaf, updates[leaf], kind) is Ok);
    }
}

/// Rows of new files count as added files, rows of files that were there before as existing
/// ones; their records are the sum of those of the rows.
pub proof fn law_batches_count_by_origin(rows: Seq<EntryModel>)
    requires
        rows.len() <= i32::MAX,
        i64::MIN <= record_sum(rows, rows.len() as int) <= i64::MAX,
    ensures
        added_aggregates(rows).added_file_count == rows.len(),
        added_aggregates(rows).existing_file_count == 0,
        added_aggregates(rows).total_record_count == record_sum(rows, rows.len() as int),
        existing_aggregates(rows).added_file_count == 0,
        existing_aggregates(rows).existing_file_count == rows.len(),
        existing_aggregates(rows).total_record_count == record_sum(rows, rows.len() as int),
{
}

/// The rows of batches with one more behind.
proof fn lemma_rows_behind(batches: Seq<Seq<EntryModel>>, rows: Seq<EntryModel>, n: int)
    requires
        0 <= n <= batches.len(),
    ensures
        flat_rows(batches.push(rows), n) == flat_rows(batches, n),
    decreases n,
{
    if n > 0 {
        lemma_rows_behind(batches, rows, n - 1);
        assert(batches.push(rows)[n - 1] == batches[n - 1]);
    }
}

/// A batch comes behind those that are there, with its totals, and changes nothing else.
pub proof fn law_batches_come_behind(
    builder: BuilderModel,
    rows: Seq<EntryModel>,
    totals: BatchAggregates,
)
    ensures
        ({
            let after = batch_added(builder, rows, totals);
            &&& all_rows(after.batches) == all_rows(builder.batches) + rows
            &&& after.aggregates == builder.aggregates.push(totals)
            &&& after == BuilderModel {
                batches: after.batches,
                aggregates: after.aggregates,
                ..builder
            }
        }),
{
    lemma_rows_behind(builder.batches, rows, builder.batches.len() as int);
    assert(builder.batches.push(rows)[builder.batches.len() as int] == rows);
    assert(all_rows(builder.batches.push(rows)) =~= all_rows(builder.batches) + rows);
}

/// A write puts its rows into the builder as new files: those with statistics where they could
/// be made and counted, else those without. Without metadata it does nothing.
pub proof fn law_writes_add_their_rows(
    builder: BuilderModel,
    row_count: usize,
    with_stats: Result<Seq<EntryModel>, ErrorModel>,
    without_stats: Result<Seq<EntryModel>, ErrorModel>,
)
    ensures
        ({
            let result = write_added(builder, row_count, with_stats, without_stats);
            let first = with_stats matches Ok(rows) && rows.len() <= i32::MAX;
            let second = without_stats matches Ok(rows) && rows.len() <= i32::MAX;
            &&& row_count == 0 ==> result == Ok::<BuilderModel, ErrorModel>(builder)
            &&& row_count > 0 ==> (result is Ok <==> first || second)
            &&& row_count > 0 && (first || second) ==> {
                let rows = if first {
                    with_stats->Ok_0
                } else {
                    without_stats->Ok_0
                };
                let after = result->Ok_0;
                &&& all_rows(after.batches) == all_rows(builder.batches) + rows
                &&& after.aggregates == builder.aggregates.push(added_aggregates(rows))
                &&& after.entries == builder.entries
                &&& after.caches == builder.caches
                &&& after.seen == builder.seen
                &&& after.partition_type == builder.partition_type
                &&& after.table_schema == builder.table_schema
                &&& after.table_root == builder.table_root
                &&& after.version == builder.version
            }
        }),
{
    if let Ok(rows) = with_stats {
        law_batches_come_behind(builder, rows, added_aggregates(rows));
    }
    if let Ok(rows) = without_stats {
        law_batches_come_behind(builder, rows, added_aggregates(rows));
    }
}

/// The rows that are kept are those that are selected or have no selection, in their order.
pub proof fn law_selected_rows_are_kept_in_order<T>(
    rows: Seq<T>,
    selection: Seq<bool>,
    n: int,
    i: int,
)
    requires
        0 <= i < n <= rows.len(),
    ensures
        ({
            let kept = selected_rows(rows, selection, n);
            let place = selected_rows(rows, selection, i).len() as int;
            let selected = i >= selection.len() || selection[i];
            &&& selected ==> place < kept.len() && kept[place] == rows[i]
            &&& selected_rows(rows, selection, i + 1).len() == place + if selected {
                1int
            } else {
                0int
            }
            &&& selected_rows(rows, selection, i).is_prefix_of(kept)
        }),
    decreases n,
{
    if i < n - 1 {
        law_selected_rows_are_kept_in_order(rows, selection, n - 1, i);
        let before = selected_rows(rows, selection, n - 1);
        let kept = selected_rows(rows, selection, n);
        assert(before.is_prefix_of(kept));
        assert(selected_rows(rows, selection, i).is_prefix_of(kept)) by {
            let head = selected_rows(rows, selection, i);
            assert(head =~= kept.subrange(0, head.len() as int));
        }
    }
}

/// Without a selection all rows are kept.
pub proof fn law_rows_without_selection_are_kept<T>(rows: Seq<T>, selection: Seq<bool>, n: int)
    requires
        0 <= n <= rows.len(),
        forall|i: int| 0 <= i < selection.len() ==> #[trigger] selection[i],
    ensures
        selected_rows(rows, selection, n) == rows.take(n),
    decreases n,
{
    if n > 0 {
        law_rows_without_selection_are_kept(rows, selection, n - 1);
        assert(is_selected(selection, n - 1));
        assert(rows.take(n) =~= rows.take(n - 1).push(rows[n - 1]));
    } else {
        assert(rows.take(0) =~= Seq::empty());
    }
}

/// Rows of a scan are added as files that were there before: those that are selected, behind the
/// rows that are there. Without rows nothing happens; a selection that is longer than the rows,
/// or rows that are too many to count, are refused.
pub proof fn law_scan_rows_are_added(
    builder: BuilderModel,
    rows: Seq<EntryModel>,
    selection: Seq<bool>,
)
    ensures
        ({
            let result = scan_rows_added(builder, rows, selection);
            &&& rows.len() == 0 ==> result == Ok::<BuilderModel, ErrorModel>(builder)
            &&& rows.len() > 0 ==> (result is Ok <==> rows.len() <= i32::MAX && selection.len()
                <= rows.len())
            &&& rows.len() > 0 ==> (result matches Ok(after) ==> {
                let kept = selected_rows(rows, selection, rows.len() as int);
                &&& all_rows(after.batches) == all_rows(builder.batches) + kept
                &&& after.aggregates == builder.aggregates.push(existing_aggregates(kept))
                &&& after.entries == builder.entries
                &&& after.caches == builder.caches
                &&& after.seen == builder.seen
                &&& after.partition_type == builder.partition_type
                &&& after.table_schema == builder.table_schema
                &&& after.table_root == builder.table_root
                &&& after.version == builder.version
            })
        }),
{
    if let Ok(kept) = selection_applied(rows, selection) {
        law_batches_come_behind(builder, kept, existing_aggregates(kept));
    }
}

/// Replayed batches come behind each other, without those that are empty, and the builder stays
/// what it was for its table.
pub proof fn law_replayed_batches_are_added(
    builder: BuilderModel,
    batches: Seq<Seq<EntryModel>>,
    n: int,
)
    requires
        0 <= n <= batches.len(),
    ensures
        batches_added(builder, batches, n) is Ok <==> forall|i: int|
            0 <= i < n ==> (#[trigger] batches[i]).len() <= i32::MAX,
        batches_added(builder, batches, n) matches Ok(after) ==> {
            &&& all_rows(after.batches) == all_rows(builder.batches) + flat_rows(batches, n)
            &&& after.entries == builder.entries
            &&& after.caches == builder.caches
            &&& after.seen == builder.seen
            &&& after.partition_type == builder.partition_type
            &&& after.table_schema == builder.table_schema
            &&& after.table_root == builder.table_root
            &&& after.version == builder.version
        },
    decreases n,
{
    if n > 0 {
        law_replayed_batches_are_added(builder, batches, n - 1);
        if let Ok(before) = batches_added(builder, batches, n - 1) {
            let rows = batches[n - 1];
            law_batches_come_behind(before, rows, existing_aggregates(rows));
            if batches_added(builder, batches, n) is Ok {
                let after = batches_added(builder, batches, n)->Ok_0;
                assert(all_rows(after.batches) =~= all_rows(builder.batches) + flat_rows(
                    batches,
                    n,
                ));
            }
        }
    } else {
        assert(all_rows(builder.batches) =~= all_rows(builder.batches) + flat_rows(batches, 0));
    }
}

/// The builder that a commit starts with is for the commit's table: it has the table root, the
/// schema and the partition type of the snapshot and the version that is to be written, whether a
/// root was loaded, cleared or rebuilt. It has seen no paths.
pub proof fn law_commits_build_for_their_table(
    commit: ManifestCommitModel,
    commits: Seq<CommitModel>,
    root_batches: Seq<Seq<EntryModel>>,
    builder: BuilderModel,
)
    requires
        is_baseline(commit, commits, root_batches, Ok(builder)),
    ensures
        builder.table_root == commit.snapshot.table_root,
        builder.table_schema == commit.snapshot.physical_schema,
        builder.partition_type == commit.snapshot.partition_type,
        builder.version == commit.version_to_write,
        builder.seen == Set::<Seq<char>>::empty(),
{
    match baseline_plan(commit) {
        PlanModel::Load(_) => {
            let rows = all_rows(root_batches);
            let carried = crate::builder::carried_entries(rows, commit.version_to_write);
            law_added_entries_change_entries_alone(
                blank_builder(commit),
                carried,
                rows.len() as int,
                Seq::empty(),
            );
        },
        PlanModel::Empty => {},
        PlanModel::Replay(from_version, _) => {
            if let Ok((replay, with_log)) = log_replayed(commit, commits, from_version) {
                let batches = commits_replayed(
                    nothing_seen(),
                    commits,
                    from_version,
                    commits.len() as int,
                ).1->Ok_0;
                law_replayed_batches_are_added(
                    blank_builder(commit),
                    batches,
                    batches.len() as int,
                );
                let rows = all_rows(root_batches);
                let kept = crate::replay::kept_entries(replay.keys, rows, rows.len() as int);
                law_added_entries_change_entries_alone(
                    with_log,
                    kept,
                    kept.len() as int,
                    Seq::empty(),
                );
            }
        },
    }
}

/// The rows of a rebuilt root are those of the replayed commits that survive.
pub proof fn law_rebuilt_roots_hold_the_surviving_rows(
    commit: ManifestCommitModel,
    commits: Seq<CommitModel>,
    root_batches: Seq<Seq<EntryModel>>,
    from_version: Version,
    path: Option<Seq<char>>,
    builder: BuilderModel,
)
    requires
        baseline_plan(commit) == PlanModel::Replay(from_version, path),
        is_baseline(commit, commits, root_batches, Ok(builder)),
    ensures
        commits_replayed(nothing_seen(), commits, from_version, commits.len() as int).1 matches Ok(
            batches,
        ) && all_rows(builder.batches) == all_rows(batches),
{
    let (replay, with_log) = log_replayed(commit, commits, from_version)->Ok_0;
    let batches = commits_replayed(
        nothing_seen(),
        commits,
        from_version,
        commits.len() as int,
    ).1->Ok_0;
    law_replayed_batches_are_added(blank_builder(commit), batches, batches.len() as int);
    let rows = all_rows(root_batches);
    let kept = crate::replay::kept_entries(replay.keys, rows, rows.len() as int);
    law_added_entries_change_entries_alone(with_log, kept, kept.len() as int, Seq::empty());
    assert(all_rows(blank_builder(commit).batches) =~= Seq::empty());
    assert(all_rows(with_log.batches) =~= all_rows(batches));
}

/// The root that is loaded for a commit which released it holds no files, and one that was not
/// released holds every entry of the content root.
pub proof fn law_released_roots_hold_no_files(
    commit: ManifestCommitModel,
    commits: Seq<CommitModel>,
    root_batches: Seq<Seq<EntryModel>>,
    builder: BuilderModel,
    entry: EntryModel,
)
    requires
        is_baseline(commit, commits, root_batches, Ok(builder)),
    ensures
        commit.root_released && builder.entries.contains(entry) ==> entry.content_type
            == DataContentType::DataManifest || entry.content_type
            == DataContentType::DeleteManifest || entry.content_type == DataContentType::ManifestDv,
        commit.root_released ==> builder.batches.len() == 0,
        commit.snapshot.checkpoint matches Some(checkpoint) && checkpoint.version
            >= commit.snapshot.version && !commit.root_released ==> builder.entries.len()
            == all_rows(root_batches).len(),
{
    if let PlanModel::Load(_) = baseline_plan(commit) {
        let rows = all_rows(root_batches);
        let loaded = loaded_builder(
            rows,
            commit.snapshot.table_root,
            commit.snapshot.physical_schema,
            commit.version_to_write,
            commit.snapshot.partition_type,
        );
        law_cleared_roots_keep_manifests(loaded, entry);
        law_added_entries_change_entries_alone(
            blank_builder(commit),
            crate::builder::carried_entries(rows, commit.version_to_write),
            rows.len() as int,
            Seq::empty(),
        );
    }
}

/// A commit with an explicit root manifest is allowed exactly where a checkpoint covers the
/// snapshot and the manifest lies below the table root.
pub proof fn law_explicit_roots_need_a_covering_checkpoint(
    below: bool,
    location: Seq<char>,
    table_root: Seq<char>,
    snapshot: SnapshotModel,
)
    ensures
        explicit_root_error(below, location, table_root, snapshot) is None <==> (
        snapshot.checkpoint matches Some(checkpoint) && checkpoint.version >= snapshot.version
            && below),
        explicit_root_error(below, location, table_root, snapshot) matches Some(e) ==> (e.kind
            == ErrorKind::InvalidTransactionState <==> !(snapshot.checkpoint matches Some(
            checkpoint,
        ) && checkpoint.version >= snapshot.version)),
{
}

/// A location lies below the table root exactly where both have one scheme and one host and the
/// path of the location starts with that of the root.
pub proof fn law_locations_below_the_root(location: LocationModel, table_root: LocationModel)
    ensures
        url_below(location, table_root) <==> {
            &&& crate::location::scheme_in(location.text) == crate::location::scheme_in(
                table_root.text,
            )
            &&& location.host == table_root.host
            &&& exists|rest: Seq<char>| location.path == #[trigger] (table_root.path + rest)
        },
        url_below(table_root, table_root),
{
    if table_root.path.is_prefix_of(location.path) {
        let rest = location.path.skip(table_root.path.len() as int);
        assert(location.path =~= table_root.path + rest);
    }
    if exists|rest: Seq<char>| location.path == #[trigger] (table_root.path + rest) {
        let rest = choose|rest: Seq<char>| location.path == #[trigger] (table_root.path + rest);
        assert(table_root.path.is_prefix_of(table_root.path + rest));
    }
}

/// The index of a colon.
proof fn lemma_colon_index(text: Seq<char>, from: int)
    requires
        0 <= from <= text.len(),
    ensures
        from <= crate::location::colon_index(text, from) <= text.len(),
        crate::location::colon_index(text, from) < text.len()
            ==> text[crate::location::colon_index(text, from)] == ':',
        forall|j: int|
            from <= j < crate::location::colon_index(text, from) ==> #[trigger] text[j] != ':',
    decreases text.len() - from,
{
    if from < text.len() && text[from] != ':' {
        lemma_colon_index(text, from + 1);
    }
}

/// The scheme of a URL is what stands in front of its first colon.
pub proof fn law_schemes_end_at_the_first_colon(scheme: Seq<char>, rest: Seq<char>)
    requires
        forall|i: int| 0 <= i < scheme.len() ==> #[trigger] scheme[i] != ':',
    ensures
        crate::location::scheme_in(scheme + seq![':'] + rest) == scheme,
{
    let text = scheme + seq![':'] + rest;
    lemma_colon_index(text, 0);
    let at = crate::location::colon_index(text, 0);
    assert(text[scheme.len() as int] == ':');
    if at < scheme.len() {
        assert(text[at] == scheme[at]);
    }
    assert(text.take(scheme.len() as int) =~= scheme);
}

/// The root manifest of a snapshot is the content root of its checkpoint, under the table root.
/// There is none exactly where there is no checkpoint.
pub proof fn law_root_manifests_come_from_checkpoints(snapshot: SnapshotModel)
    ensures
        match snapshot.checkpoint {
            None => root_manifest(snapshot) == Ok::<Option<Seq<char>>, ErrorModel>(None),
            Some(checkpoint) => match snapshot.table_root.join(checkpoint.path) {
                Ok(url) => root_manifest(snapshot) == Ok::<Option<Seq<char>>, ErrorModel>(
                    Some(url),
                ),
                Err(_) => root_manifest(snapshot) is Err,
            },
        },
{
}

/// The first path of a list that is in a set.
proof fn lemma_first_duplicate_index(paths: Seq<Seq<char>>, seen: Set<Seq<char>>, from: int)
    requires
        0 <= from <= paths.len(),
    ensures
        from <= first_duplicate(paths, seen, from) <= paths.len(),
        first_duplicate(paths, seen, from) < paths.len() ==> seen.contains(
            paths[first_duplicate(paths, seen, from)],
        ),
        forall|j: int|
            from <= j < first_duplicate(paths, seen, from) ==> !seen.contains(#[trigger] paths[j]),
    decreases paths.len() - from,
{
    if from < paths.len() && !seen.contains(paths[from]) {
        lemma_first_duplicate_index(paths, seen, from + 1);
    }
}

/// The result of a leaf writer is refused exactly where one of its files left the root for
/// another leaf already. Else the commit holds its files, deletion vectors and leaf beside those
/// that it held, and nothing else of the commit changes.
pub proof fn law_leaf_results_are_taken_over(
    commit: ManifestCommitModel,
    leaf: LeafResultModel,
    path: Seq<char>,
)
    ensures
        leaf_added(commit, leaf) is Err <==> exists|i: int|
            0 <= i < leaf.root_entries.len() && commit.unreconciled.contains(
                #[trigger] leaf.root_entries[i],
            ),
        leaf_added(commit, leaf) matches Ok(after) ==> {
            &&& after.unreconciled.contains(path) <==> commit.unreconciled.contains(path)
                || leaf.root_entries.contains(path)
            &&& after.root_dv_actions.contains(path) <==> commit.root_dv_actions.contains(path)
                || leaf.root_dvs.contains(path)
            &&& after.leaf_manifests == match leaf.leaf {
                Some(entry) => commit.leaf_manifests.push(entry),
                None => commit.leaf_manifests,
            }
            &&& after.version_to_write == commit.version_to_write
            &&& after.snapshot_id == commit.snapshot_id
            &&& after.snapshot == commit.snapshot
            &&& after.root_released == commit.root_released
        },
{
    lemma_first_duplicate_index(leaf.root_entries, commit.unreconciled, 0);
    let at = first_duplicate(leaf.root_entries, commit.unreconciled, 0);
    if at < leaf.root_entries.len() {
        assert(commit.unreconciled.contains(leaf.root_entries[at]));
    }
}

/// What the new leaves bring is in the root, and what moved into them is not: an entry is there
/// exactly where it was there or is a new leaf, unless it is a data file that moved or stands
/// where a moved deletion vector stood.
pub proof fn law_new_leaves_take_the_place_of_moved_files(
    commit: ManifestCommitModel,
    builder: BuilderModel,
    entry: EntryModel,
)
    ensures
        ({
            let after = leaves_put_in(commit, builder);
            let leaf = exists|i: int|
                0 <= i < commit.leaf_manifests.len() && entry
                    == crate::builder::entry_at_commit_start(#[trigger] commit.leaf_manifests[i]);
            &&& after.entries.contains(entry) <==> {
                &&& builder.entries.contains(entry) || leaf
                &&& !(entry.location matches Some(location) && commit.unreconciled.contains(
                    location,
                ) && entry.content_type == DataContentType::Data)
                &&& !(entry.location matches Some(location) && commit.root_dv_actions.contains(
                    location,
                ))
            }
            &&& after.batches == builder.batches
            &&& after.aggregates == builder.aggregates
            &&& after.partition_type == builder.partition_type
            &&& after.table_schema == builder.table_schema
            &&& after.table_root == builder.table_root
            &&& after.version == builder.version
        }),
{
    let n = commit.leaf_manifests.len() as int;
    let with_leaves = entries_added(builder, commit.leaf_manifests, n);
    law_added_entries_come_behind(builder, commit.leaf_manifests, n);
    law_added_entries_change_entries_alone(builder, commit.leaf_manifests, n, Seq::empty());
    crate::laws::entries::law_moved_files_leave_the_root(
        with_leaves,
        commit.unreconciled,
        commit.root_dv_actions,
        entry,
    );
    let leaf = exists|i: int|
        0 <= i < commit.leaf_manifests.len() && entry == crate::builder::entry_at_commit_start(
            #[trigger] commit.leaf_manifests[i],
        );
    if builder.entries.contains(entry) {
        let i = choose|i: int| 0 <= i < builder.entries.len() && builder.entries[i] == entry;
        assert(with_leaves.entries[i] == entry);
    }
    if leaf {
        let i = choose|i: int|
            0 <= i < commit.leaf_manifests.len() && entry == crate::builder::entry_at_commit_start(
                #[trigger] commit.leaf_manifests[i],
            );
        assert(with_leaves.entries[builder.entries.len() + i] == entry);
    }
    if with_leaves.entries.contains(entry) && !builder.entries.contains(entry) {
        let k = choose|k: int|
            0 <= k < with_leaves.entries.len() && with_leaves.entries[k] == entry;
        if k < builder.entries.len() {
            assert(builder.entries[k] == entry);
        } else {
            let i = k - builder.entries.len();
            assert(with_leaves.entries[builder.entries.len() + i]
                == crate::builder::entry_at_commit_start(commit.leaf_manifests[i]));
        }
    }
}

/// A replayed batch without rows leaves a builder as it was.
pub proof fn law_empty_batches_are_dropped(builder: BuilderModel, rows: Seq<EntryModel>)
    ensures
        rows.len() == 0 ==> existing_rows_added(builder, rows) == builder,
        rows.len() > 0 ==> existing_rows_added(builder, rows).batches == builder.batches.push(rows),
        rows.len() > 0 ==> existing_rows_added(builder, rows).aggregates
            == builder.aggregates.push(existing_aggregates(rows)),
{
}

/// Paths that moved out of the root count as unseen, and no bitmaps are kept for them.
pub proof fn law_moved_paths_are_forgotten(
    builder: BuilderModel,
    files: Set<Seq<char>>,
    dvs: Set<Seq<char>>,
    path: Seq<char>,
)
    ensures
        ({
            let after = dvs_removed(data_files_removed(builder, files), dvs);
            &&& after.seen.contains(path) <==> builder.seen.contains(path) && !files.contains(path)
                && !dvs.contains(path)
            &&& after.caches.contains_key(path) <==> builder.caches.contains_key(path)
                && !files.contains(path) && !dvs.contains(path)
            &&& after.caches.contains_key(path) ==> after.caches[path] == builder.caches[path]
        }),
{
}

/// Of the rows that the log removes from leaves, those of the leaves that the builder knows are
/// masked, and others are passed over.
pub proof fn law_removes_of_known_leaves_count(
    replay: crate::replay::ReplayModel,
    builder: BuilderModel,
    leaf: Seq<char>,
    position: u64,
)
    ensures
        ({
            let removals = leaf_removals(replay, builder);
            removals.contains_key(leaf) && removals[leaf].contains(position) <==> (
            builder.caches.contains_key(leaf) && replay.removes.contains((leaf, position)))
        }),
{
    if replay.removes.contains((leaf, position)) {
        assert(exists|p: u64| replay.removes.contains((leaf, p)));
    }
}

/// Clearing a root forgets the bitmaps under the location of every entry that it drops.
pub proof fn law_cleared_roots_forget_dropped_entries(builder: BuilderModel, i: int)
    requires
        0 <= i < builder.entries.len(),
        builder.entries[i].location is Some,
        builder.entries[i].content_type != DataContentType::DataManifest,
        builder.entries[i].content_type != DataContentType::DeleteManifest,
        builder.entries[i].content_type != DataContentType::ManifestDv,
    ensures
        !root_cleared(builder).caches.contains_key(builder.entries[i].location->0),
{
    assert(!crate::builder::is_leaf_reference(builder.entries[i]));
    assert(crate::builder::plain_locations(builder.entries).contains(
        builder.entries[i].location->0,
    ));
}

/// Marking the entries at a path as deleted changes their status and snapshot and nothing else,
/// and leaves all other entries, and all entries where there is no path, as they were.
pub proof fn law_deletion_marks_change_status_alone(
    builder: BuilderModel,
    path: Option<Seq<char>>,
    snapshot_id: i64,
    i: int,
)
    requires
        0 <= i < builder.entries.len(),
    ensures
        ({
            let after = entries_marked_deleted(builder, path, snapshot_id);
            let before = builder.entries[i];
            &&& after == BuilderModel { entries: after.entries, ..builder }
            &&& after.entries.len() == builder.entries.len()
            &&& after.entries[i] == if path is Some && before.location == path {
                EntryModel {
                    tracking: TrackingModel {
                        status: TrackingStatus::Deleted,
                        snapshot_id: Some(snapshot_id),
                        ..before.tracking
                    },
                    ..before
                }
            } else {
                before
            }
        }),
{
}

/// A builder can be made exactly where the root can be located and the log can be replayed: one
/// for a current root fails only where the root cannot be located, one for a released root of
/// which nothing is current never, and one for a table without a checkpoint only with its log.
pub proof fn law_baselines_fail_with_their_sources(
    commit: ManifestCommitModel,
    commits: Seq<CommitModel>,
    root_batches: Seq<Seq<EntryModel>>,
    error: ErrorModel,
)
    requires
        is_baseline(commit, commits, root_batches, Err(error)),
    ensures
        match commit.snapshot.checkpoint {
            Some(checkpoint) => if checkpoint.version >= commit.snapshot.version {
                commit.snapshot.table_root.join(checkpoint.path) is Err
            } else {
                !commit.root_released
            },
            None => {
                &&& !commit.root_released
                &&& {
                    ||| commits_replayed(
                        nothing_seen(),
                        commits,
                        0,
                        commits.len() as int,
                    ).1 is Err
                    ||| commits_replayed(
                        nothing_seen(),
                        commits,
                        0,
                        commits.len() as int,
                    ).1 matches Ok(batches) && exists|i: int|
                        0 <= i < batches.len() && (#[trigger] batches[i]).len() > i32::MAX
                }
            },
        },
{
    crate::laws::statistics::law_replays_can_always_start(
        commit.snapshot_id,
        commit.version_to_write as i64,
        commit.snapshot.physical_schema,
        commit.snapshot.partition_type,
    );
    if let Ok(batches) = commits_replayed(
        nothing_seen(),
        commits,
        0,
        commits.len() as int,
    ).1 {
        law_replayed_batches_are_added(blank_builder(commit), batches, batches.len() as int);
    }
}

/// The positions that a leaf writer masks in other leaves are kept by the commit beside those
/// that it held.
pub proof fn law_leaf_results_bring_their_positions(
    commit: ManifestCommitModel,
    leaf: LeafResultModel,
    manifest: Seq<char>,
    position: u64,
)
    requires
        leaf_added(commit, leaf) is Ok,
    ensures
        ({
            let after = leaf_added(commit, leaf)->Ok_0;
            after.manifest_dvs.contains_key(manifest) && after.manifest_dvs[manifest].contains(
                position,
            ) <==> {
                ||| commit.manifest_dvs.contains_key(manifest)
                    && commit.manifest_dvs[manifest].contains(position)
                ||| exists|i: int|
                    0 <= i < leaf.manifest_dvs.len() && (#[trigger] leaf.manifest_dvs[i]).0
                        == manifest && leaf.manifest_dvs[i].1.contains(position)
            }
        }),
{
    crate::laws::leaves::law_leaf_positions_unite(
        commit.manifest_dvs,
        leaf.manifest_dvs,
        leaf.manifest_dvs.len() as int,
        manifest,
        position,
    );
}

} // verus!
