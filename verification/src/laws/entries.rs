//! Laws of the entries of a builder.

use vstd::prelude::*;

use crate::add_action::{action_added, AddModel};
use crate::builder::{
    carried_entries, dv_updated, entries_added, entries_marked_deleted, entry_at_commit_start,
    holds_live_file, is_data_file_at, is_leaf_reference, live_file_index, plain_locations,
    root_cleared, BuilderModel, Version,
};
use crate::commit_builder::{baseline_plan, PlanModel};
use crate::deletion_vector::{extracted_dv, DescriptorModel, DvModel};
use crate::entry::{DataContentType, EntryModel, TrackingStatus};
use crate::error::ErrorModel;
use crate::expression::StructDataModel;
use crate::manifest_commit::{data_files_removed, dvs_removed, ManifestCommitModel};

verus! {

/// The index of a live file lies behind the entries that were passed over.
pub proof fn lemma_live_file_index(entries: Seq<EntryModel>, path: Seq<char>, from: int)
    requires
        0 <= from <= entries.len(),
    ensures
        from <= live_file_index(entries, path, from) <= entries.len(),
        live_file_index(entries, path, from) < entries.len() ==> holds_live_file(
            entries[live_file_index(entries, path, from)],
            path,
        ),
        forall|j: int|
            from <= j < live_file_index(entries, path, from) ==> !holds_live_file(
                #[trigger] entries[j],
                path,
            ),
    decreases entries.len() - from,
{
    if from < entries.len() && !holds_live_file(entries[from], path) {
        lemma_live_file_index(entries, path, from + 1);
    }
}

/// A change of a deletion vector is a change of metadata alone: status, snapshot and sequence
/// numbers of every entry stay, and so does everything else.
pub proof fn law_dv_updates_change_dvs_alone(
    builder: BuilderModel,
    path: Seq<char>,
    dv: Option<DvModel>,
    i: int,
)
    requires
        0 <= i < builder.entries.len(),
    ensures
        ({
            let after = dv_updated(builder, path, dv).entries;
            &&& after.len() == builder.entries.len()
            &&& after[i] == EntryModel {
                deletion_vector: after[i].deletion_vector,
                ..builder.entries[i]
            }
            &&& !holds_live_file(builder.entries[i], path) ==> after[i] == builder.entries[i]
        }),
{
    lemma_live_file_index(builder.entries, path, 0);
}

/// Where there is a live data file at the path, the first one has the new deletion vector.
pub proof fn law_dv_updates_reach_the_live_file(
    builder: BuilderModel,
    path: Seq<char>,
    dv: Option<DvModel>,
    i: int,
)
    requires
        0 <= i < builder.entries.len(),
        holds_live_file(builder.entries[i], path),
    ensures
        ({
            let at = live_file_index(builder.entries, path, 0);
            &&& 0 <= at <= i
            &&& dv_updated(builder, path, dv).entries[at].deletion_vector == dv
        }),
{
    lemma_live_file_index(builder.entries, path, 0);
}

/// A deletion keeps the sequence numbers and the first row id of an entry, and leaves entries
/// at other paths as they were.
pub proof fn law_deletion_keeps_sequence_numbers(
    builder: BuilderModel,
    path: Option<Seq<char>>,
    snapshot_id: i64,
    i: int,
)
    requires
        0 <= i < builder.entries.len(),
    ensures
        ({
            let before = builder.entries[i];
            let after = entries_marked_deleted(builder, path, snapshot_id).entries[i];
            &&& after.tracking.sequence_number == before.tracking.sequence_number
            &&& after.tracking.file_sequence_number == before.tracking.file_sequence_number
            &&& after.tracking.first_row_id == before.tracking.first_row_id
            &&& after.location == before.location
            &&& path is Some && before.location == path ==> after.tracking.status
                == TrackingStatus::Deleted && after.tracking.snapshot_id == Some(snapshot_id)
            &&& path is None || before.location != path ==> after == before
        }),
{
}

/// A data file that was taken out is gone, and all other entries are there.
pub proof fn law_removed_files_are_gone(builder: BuilderModel, path: Seq<char>, entry: EntryModel)
    ensures
        builder.entries.filter(|e: EntryModel| !is_data_file_at(e, path)).contains(entry) <==> (
        builder.entries.contains(entry) && !is_data_file_at(entry, path)),
{
    lemma_filter_contains(builder.entries, |e: EntryModel| !is_data_file_at(e, path), entry);
}

/// A filter keeps exactly the elements that meet its condition.
pub proof fn lemma_filter_contains(
    entries: Seq<EntryModel>,
    keep: spec_fn(EntryModel) -> bool,
    entry: EntryModel,
)
    ensures
        entries.filter(keep).contains(entry) <==> (entries.contains(entry) && keep(entry)),
    decreases entries.len(),
{
    reveal(Seq::filter);
    if entries.len() > 0 {
        let head = entries.drop_last();
        lemma_filter_contains(head, keep, entry);
        assert forall|e: EntryModel| entries.contains(e) <==> (head.contains(e) || e
            == entries.last()) by {
            if entries.contains(e) {
                let i = choose|i: int| 0 <= i < entries.len() && entries[i] == e;
                if i < entries.len() - 1 {
                    assert(head[i] == e);
                }
            }
            if head.contains(e) {
                let i = choose|i: int| 0 <= i < head.len() && head[i] == e;
                assert(entries[i] == e);
            }
        }
        let kept = head.filter(keep);
        if keep(entries.last()) {
            assert forall|e: EntryModel| kept.push(entries.last()).contains(e) <==> (
            kept.contains(e) || e == entries.last()) by {
                if kept.contains(e) {
                    let i = choose|i: int| 0 <= i < kept.len() && kept[i] == e;
                    assert(kept.push(entries.last())[i] == e);
                }
                assert(kept.push(entries.last())[kept.len() as int] == entries.last());
            }
        }
    }
}

/// Clearing the root keeps the references to leaf manifests and nothing else, and forgets
/// which paths were seen.
pub proof fn law_cleared_roots_hold_leaf_references(builder: BuilderModel, entry: EntryModel)
    ensures
        root_cleared(builder).entries.contains(entry) <==> (builder.entries.contains(entry)
            && is_leaf_reference(entry)),
        root_cleared(builder).batches.len() == 0,
        root_cleared(builder).seen == Set::<Seq<char>>::empty(),
{
    lemma_filter_contains(builder.entries, |e: EntryModel| is_leaf_reference(e), entry);
}

/// Clearing a root twice is clearing it once: the second time changes nothing of the builder.
pub proof fn law_clearing_is_idempotent(builder: BuilderModel)
    ensures
        root_cleared(root_cleared(builder)) == root_cleared(builder),
{
    let keep = |e: EntryModel| is_leaf_reference(e);
    let once = root_cleared(builder);
    crate::sequence::lemma_filter_twice(builder.entries, keep, keep, keep);
    assert forall|i: int| 0 <= i < once.entries.len() implies is_leaf_reference(
        #[trigger] once.entries[i],
    ) by {
        assert(once.entries.contains(once.entries[i]));
        lemma_filter_contains(builder.entries, keep, once.entries[i]);
    }
    assert(plain_locations(once.entries) =~= Set::<Seq<char>>::empty());
    assert(once.caches.remove_keys(plain_locations(once.entries)) =~= once.caches);
    assert(root_cleared(once) =~= once);
}

/// An entry that was loaded from a content root is new only if the version that is being built
/// added it. Sequence numbers stay.
pub proof fn law_loaded_entries_are_existing(
    entries: Seq<EntryModel>,
    new_version: Version,
    i: int,
)
    requires
        0 <= i < entries.len(),
    ensures
        ({
            let carried = carried_entries(entries, new_version)[i];
            &&& carried.tracking.status == TrackingStatus::Added
                ==> carried.tracking.sequence_number == Some(new_version as i64)
            &&& entries[i].tracking.status != TrackingStatus::Added ==> carried == entries[i]
            &&& carried == entries[i].with_status(carried.tracking.status)
        }),
{
}

/// Adding entries keeps those that are there, and adds one entry for each.
pub proof fn law_added_entries_come_behind(
    builder: BuilderModel,
    entries: Seq<EntryModel>,
    n: int,
)
    requires
        0 <= n <= entries.len(),
    ensures
        ({
            let after = entries_added(builder, entries, n);
            &&& after.entries.len() == builder.entries.len() + n
            &&& forall|i: int|
                0 <= i < builder.entries.len() ==> #[trigger] after.entries[i]
                    == builder.entries[i]
            &&& forall|i: int|
                0 <= i < n ==> #[trigger] after.entries[builder.entries.len() + i]
                    == entry_at_commit_start(entries[i])
            &&& after.batches == builder.batches
            &&& after.seen == builder.seen
        }),
    decreases n,
{
    if n > 0 {
        law_added_entries_come_behind(builder, entries, n - 1);
        let before = entries_added(builder, entries, n - 1);
        let after = entries_added(builder, entries, n);
        assert forall|i: int| 0 <= i < builder.entries.len() implies #[trigger] after.entries[i]
            == builder.entries[i] by {
            assert(before.entries[i] == builder.entries[i]);
        }
        assert forall|i: int| 0 <= i < n implies #[trigger] after.entries[builder.entries.len()
            + i] == entry_at_commit_start(entries[i]) by {
            if i < n - 1 {
                assert(before.entries[builder.entries.len() + i] == entry_at_commit_start(
                    entries[i],
                ));
            }
        }
    }
}

/// An action is added once: a second action with its path changes nothing.
pub proof fn law_paths_are_added_once(
    builder: BuilderModel,
    first: AddModel,
    first_stats: Result<Option<StructDataModel>, ErrorModel>,
    second: AddModel,
    second_stats: Result<Option<StructDataModel>, ErrorModel>,
    version: Version,
    snapshot_id: i64,
    status: TrackingStatus,
)
    requires
        second.path == first.path,
    ensures
        ({
            let (once, _) = action_added(
                builder,
                first,
                first_stats,
                version,
                snapshot_id,
                status,
            );
            action_added(once, second, second_stats, version, snapshot_id, status) == (
                once,
                Ok::<(), ErrorModel>(()),
            )
        }),
{
}

/// An added file carries the version as both sequence numbers, and is at its path.
pub proof fn law_added_files_carry_the_version(
    builder: BuilderModel,
    add: AddModel,
    stats: Result<Option<StructDataModel>, ErrorModel>,
    version: Version,
    snapshot_id: i64,
    status: TrackingStatus,
)
    requires
        !builder.seen.contains(add.path),
        action_added(builder, add, stats, version, snapshot_id, status).1 is Ok,
    ensures
        ({
            let after = action_added(builder, add, stats, version, snapshot_id, status).0;
            let entry = after.entries.last();
            &&& after.entries == builder.entries.push(entry)
            &&& entry.location == Some(add.path)
            &&& entry.tracking.status == status
            &&& entry.tracking.sequence_number == Some(version as i64)
            &&& entry.tracking.file_sequence_number == Some(version as i64)
            &&& entry.tracking.snapshot_id == Some(snapshot_id)
            &&& entry.file_size_in_bytes == add.size
        }),
{
}

/// A deletion vector blob is eight bytes longer than its bitmap; offset and cardinality stay.
pub proof fn law_dv_blobs_are_framed(dv: DescriptorModel)
    ensures
        extracted_dv(dv) matches Ok(info) ==> {
            &&& info.size_in_bytes == dv.size_in_bytes + 8
            &&& info.cardinality == dv.cardinality
            &&& info.offset == (match dv.offset {
                Some(offset) => offset as int,
                None => 0int,
            })
        },
{
}

/// A content root is loaded without a replay exactly where its checkpoint covers the snapshot;
/// otherwise the log behind the checkpoint is replayed, unless the root was released.
pub proof fn law_current_roots_are_not_replayed(commit: ManifestCommitModel)
    ensures
        baseline_plan(commit) is Load <==> (commit.snapshot.checkpoint matches Some(checkpoint)
            && checkpoint.version >= commit.snapshot.version),
        baseline_plan(commit) matches PlanModel::Replay(from_version, path) ==> {
            &&& !commit.root_released
            &&& match commit.snapshot.checkpoint {
                Some(checkpoint) => from_version == checkpoint.version + 1 && path == Some(
                    checkpoint.path,
                ),
                None => from_version == 0 && path is None,
            }
        },
{
}

/// What moved into leaves is gone from the root, and nothing else.
pub proof fn law_moved_files_leave_the_root(
    builder: BuilderModel,
    files: Set<Seq<char>>,
    dvs: Set<Seq<char>>,
    entry: EntryModel,
)
    ensures
        dvs_removed(data_files_removed(builder, files), dvs).entries.contains(entry) <==> {
            &&& builder.entries.contains(entry)
            &&& !(entry.location is Some && files.contains(entry.location->Some_0)
                && entry.content_type == DataContentType::Data)
            &&& !(entry.location is Some && dvs.contains(entry.location->Some_0))
        },
{
    lemma_filter_contains(
        builder.entries,
        |e: EntryModel|
            !(e.location is Some && files.contains(e.location->Some_0) && e.content_type
                == DataContentType::Data),
        entry,
    );
    lemma_filter_contains(
        data_files_removed(builder, files).entries,
        |e: EntryModel| !(e.location is Some && dvs.contains(e.location->Some_0)),
        entry,
    );
}

} // verus!
