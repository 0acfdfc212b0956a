//! Laws of the entries by which a root refers to its leaves.

use vstd::prelude::*;

use crate::bitmap::framed_positions;
use crate::builder::{BatchAggregates, BuilderModel, NodeModel};
use crate::dv_cache::{sealed, CacheModel};
use crate::entry::{DataContentType, EntryModel, TrackingModel, TrackingStatus};
use crate::expression::StructDataModel;
use crate::leaf::{
    batch_tally, entry_tally, leaf_entry, leaf_totals_fit,
};
use crate::node_build::build_done;

verus! {

/// How many of the first `n` entries have a status.
pub open spec fn how_many(entries: Seq<EntryModel>, status: TrackingStatus, n: int) -> int
    decreases n,
{
    if n <= 0 {
        0
    } else {
        how_many(entries, status, n - 1) + if entries[n - 1].tracking.status == status {
            1int
        } else {
            0int
        }
    }
}

/// How many records those of the first `n` entries have that have a status.
pub open spec fn how_many_rows(entries: Seq<EntryModel>, status: TrackingStatus, n: int) -> int
    decreases n,
{
    if n <= 0 {
        0
    } else {
        how_many_rows(entries, status, n - 1) + if entries[n - 1].tracking.status == status {
            entries[n - 1].record_count as int
        } else {
            0int
        }
    }
}

/// How many files the first `n` batches add, keep, and how many records they have.
pub open spec fn batch_sums(totals: Seq<BatchAggregates>, n: int) -> (int, int, int)
    decreases n,
{
    if n <= 0 {
        (0, 0, 0)
    } else {
        let (added, kept, records) = batch_sums(totals, n - 1);
        let last = totals[n - 1];
        (
            added + last.added_file_count,
            kept + last.existing_file_count,
            records + last.total_record_count,
        )
    }
}

/// The totals over entries are counts by status.
proof fn lemma_entry_counts(entries: Seq<EntryModel>, n: int)
    requires
        0 <= n <= entries.len(),
    ensures
        ({
            let tally = entry_tally(entries, n);
            &&& tally.added_files == how_many(entries, TrackingStatus::Added, n)
            &&& tally.existing_files == how_many(entries, TrackingStatus::Existing, n) + how_many(
                entries,
                TrackingStatus::Modified,
                n,
            )
            &&& tally.deleted_files == how_many(entries, TrackingStatus::Deleted, n)
            &&& tally.replaced_files == how_many(entries, TrackingStatus::Replaced, n)
            &&& tally.added_rows == how_many_rows(entries, TrackingStatus::Added, n)
            &&& tally.existing_rows == how_many_rows(entries, TrackingStatus::Existing, n)
                + how_many_rows(entries, TrackingStatus::Modified, n)
            &&& tally.deleted_rows == how_many_rows(entries, TrackingStatus::Deleted, n)
            &&& tally.replaced_rows == how_many_rows(entries, TrackingStatus::Replaced, n)
            &&& tally.record_count == crate::builder::record_sum(entries, n)
        }),
    decreases n,
{
    if n > 0 {
        lemma_entry_counts(entries, n - 1);
    }
}

/// The totals over entries and batches.
proof fn lemma_batch_counts(builder: BuilderModel, n: int)
    requires
        0 <= n <= builder.aggregates.len(),
    ensures
        ({
            let entries = builder.entries;
            let tally = batch_tally(builder, n);
            let over = entry_tally(entries, entries.len() as int);
            let (added, kept, records) = batch_sums(builder.aggregates, n);
            &&& tally.added_files == over.added_files + added
            &&& tally.existing_files == over.existing_files + kept
            &&& tally.deleted_files == over.deleted_files
            &&& tally.replaced_files == over.replaced_files
            &&& tally.added_rows == over.added_rows + records
            &&& tally.existing_rows == over.existing_rows
            &&& tally.deleted_rows == over.deleted_rows
            &&& tally.replaced_rows == over.replaced_rows
            &&& tally.record_count == over.record_count + records
        }),
    decreases n,
{
    if n > 0 {
        lemma_batch_counts(builder, n - 1);
    }
}

/// The entry of a leaf says of the leaf what is in it: how many of its files have each status,
/// where a modified file counts as existing, how many records they have, and how many files and
/// records its batches add. No position of a new leaf is masked.
pub proof fn law_leaf_references_count_by_status(
    builder: BuilderModel,
    snapshot_id: i64,
    first_row_id: i64,
    location: Seq<char>,
    size_in_bytes: u64,
    content_stats: Option<StructDataModel>,
)
    requires
        leaf_totals_fit(builder),
    ensures
        ({
            let entry = leaf_entry(
                builder,
                snapshot_id,
                first_row_id,
                location,
                size_in_bytes,
                content_stats,
            );
            let entries = builder.entries;
            let n = entries.len() as int;
            let (added, kept, records) = batch_sums(
                builder.aggregates,
                builder.aggregates.len() as int,
            );
            &&& entry.record_count == crate::builder::record_sum(entries, n) + records
            &&& entry.manifest_info matches Some(info) && {
                &&& info.added_files_count == how_many(entries, TrackingStatus::Added, n) + added
                &&& info.existing_files_count == how_many(entries, TrackingStatus::Existing, n)
                    + how_many(entries, TrackingStatus::Modified, n) + kept
                &&& info.deleted_files_count == how_many(entries, TrackingStatus::Deleted, n)
                &&& info.replaced_files_count == how_many(entries, TrackingStatus::Replaced, n)
                &&& info.added_rows_count == how_many_rows(entries, TrackingStatus::Added, n)
                    + records
                &&& info.existing_rows_count == how_many_rows(entries, TrackingStatus::Existing, n)
                    + how_many_rows(entries, TrackingStatus::Modified, n)
                &&& info.deleted_rows_count == how_many_rows(entries, TrackingStatus::Deleted, n)
                &&& info.replaced_rows_count == how_many_rows(entries, TrackingStatus::Replaced, n)
                &&& info.dv is None
                &&& info.dv_cardinality is None
            }
        }),
{
    lemma_entry_counts(builder.entries, builder.entries.len() as int);
    lemma_batch_counts(builder, builder.aggregates.len() as int);
    assert(batch_tally(builder, builder.aggregates.len() as int).fits());
}

/// A root refers to a leaf as a data manifest of the given size, at its location relative to the
/// table root, with the statistics that it was handed in with where any of its files has some,
/// and without a deletion vector, partition values or tags.
pub proof fn law_leaf_references_describe_their_file(
    builder: BuilderModel,
    snapshot_id: i64,
    first_row_id: i64,
    location: Seq<char>,
    size_in_bytes: u64,
    content_stats: Option<StructDataModel>,
)
    ensures
        ({
            let entry = leaf_entry(
                builder,
                snapshot_id,
                first_row_id,
                location,
                size_in_bytes,
                content_stats,
            );
            &&& entry.content_type == DataContentType::DataManifest
            &&& entry.file_size_in_bytes == size_in_bytes as i64
            &&& entry.location matches Some(relative) && {
                ||| location == builder.table_root.text + relative
                ||| relative == location && !builder.table_root.text.is_prefix_of(location)
            }
            &&& entry.content_stats == if exists|i: int|
                0 <= i < builder.entries.len() && (#[trigger] builder.entries[i]).content_stats
                    is Some {
                content_stats
            } else {
                None
            }
            &&& entry.tracking.status == TrackingStatus::Added
            &&& entry.tracking.snapshot_id == Some(snapshot_id)
            &&& entry.tracking.sequence_number == Some(builder.version as i64)
            &&& entry.tracking.file_sequence_number == Some(builder.version as i64)
            &&& entry.tracking.first_row_id == Some(first_row_id)
            &&& entry.tracking.dv_snapshot_id is None
            &&& entry.tracking.deleted_positions is None
            &&& entry.tracking.replaced_positions is None
            &&& entry.deletion_vector is None
            &&& entry.partition is None
            &&& entry.tags is None
        }),
{
    let root = builder.table_root.text;
    if root.is_prefix_of(location) {
        assert(location =~= root + location.skip(root.len() as int));
    }
}

/// Whether a number is the smallest that occurs as the sequence number of one of the first `n`
/// entries, or the largest number where none has one.
pub open spec fn smallest_sequence(entries: Seq<EntryModel>, n: int, least: int) -> bool {
    &&& forall|i: int|
        0 <= i < n && (#[trigger] entries[i]).tracking.sequence_number is Some ==> least
            <= entries[i].tracking.sequence_number->0
    &&& least == i64::MAX || exists|i: int|
        0 <= i < n && (#[trigger] entries[i]).tracking.sequence_number is Some && least
            == entries[i].tracking.sequence_number->0
}

/// The smallest sequence number of entries.
proof fn lemma_smallest_sequence(entries: Seq<EntryModel>, n: int)
    requires
        0 <= n <= entries.len(),
    ensures
        smallest_sequence(entries, n, entry_tally(entries, n).least_sequence),
        i64::MIN <= entry_tally(entries, n).least_sequence <= i64::MAX,
    decreases n,
{
    if n > 0 {
        lemma_smallest_sequence(entries, n - 1);
        let before = entry_tally(entries, n - 1).least_sequence;
        let after = entry_tally(entries, n).least_sequence;
        if after == before && before != i64::MAX {
            let i = choose|i: int|
                0 <= i < n - 1 && (#[trigger] entries[i]).tracking.sequence_number is Some
                    && before == entries[i].tracking.sequence_number->0;
            assert(entries[i].tracking.sequence_number is Some);
        } else if after != before {
            assert(entries[n - 1].tracking.sequence_number is Some);
        }
    }
}

/// Batches bring the version in.
proof fn lemma_batch_sequence(builder: BuilderModel, n: int)
    requires
        0 <= n <= builder.aggregates.len(),
    ensures
        ({
            let over = entry_tally(builder.entries, builder.entries.len() as int).least_sequence;
            batch_tally(builder, n).least_sequence == if n > 0 && (builder.version as i64) < over {
                (builder.version as i64) as int
            } else {
                over
            }
        }),
    decreases n,
{
    if n > 0 {
        lemma_batch_sequence(builder, n - 1);
    }
}

/// The minimum sequence number of a leaf is the smallest of its entries and, where it has
/// batches, of the version that writes it; it is 0 where there is none.
pub proof fn law_leaf_references_name_the_smallest_sequence_number(
    builder: BuilderModel,
    snapshot_id: i64,
    first_row_id: i64,
    location: Seq<char>,
    size_in_bytes: u64,
    content_stats: Option<StructDataModel>,
)
    requires
        leaf_totals_fit(builder),
    ensures
        ({
            let entry = leaf_entry(
                builder,
                snapshot_id,
                first_row_id,
                location,
                size_in_bytes,
                content_stats,
            );
            let entries = builder.entries;
            let batched = builder.aggregates.len() > 0;
            let version = (builder.version as i64) as int;
            exists|least: int|
                #![trigger smallest_sequence(entries, entries.len() as int, least)]
                smallest_sequence(entries, entries.len() as int, least) && i64::MIN <= least
                    <= i64::MAX && entry.manifest_info->0.min_sequence_number == if batched
                    && version < least {
                    version
                } else if least == i64::MAX {
                    0
                } else {
                    least
                }
        }),
{
    let n = builder.entries.len() as int;
    lemma_smallest_sequence(builder.entries, n);
    lemma_batch_sequence(builder, builder.aggregates.len() as int);
    assert(smallest_sequence(builder.entries, n, entry_tally(builder.entries, n).least_sequence));
}

/// What a commit deleted and replaced in a leaf can be read from the leaf's entry, and so can all
/// masked positions and their number.
pub proof fn law_commit_bitmaps_can_be_read(
    before: EntryModel,
    cache: CacheModel,
    snapshot_id: i64,
    after: EntryModel,
)
    requires
        sealed(before, cache, snapshot_id, after),
        cache.manifest_dv is Some,
    ensures
        after.manifest_info matches Some(info) && (info.dv matches Some(frame)
            && framed_positions(frame) == cache.manifest_dv),
        after.manifest_info->0.dv_cardinality == Some(cache.manifest_dv->0.len() as i64),
        cache.deleted != Set::<u64>::empty() ==> (after.tracking.deleted_positions matches Some(
            frame,
        ) && framed_positions(frame) == Some(cache.deleted)),
        cache.replaced != Set::<u64>::empty() ==> (after.tracking.replaced_positions matches Some(
            frame,
        ) && framed_positions(frame) == Some(cache.replaced)),
        cache.deleted == Set::<u64>::empty() ==> after.tracking.deleted_positions
            == before.tracking.deleted_positions,
        cache.replaced == Set::<u64>::empty() ==> after.tracking.replaced_positions
            == before.tracking.replaced_positions,
        before.manifest_info matches Some(info) && {
            let now = after.manifest_info->0;
            &&& now.added_files_count == info.added_files_count
            &&& now.existing_files_count == info.existing_files_count
            &&& now.deleted_files_count == info.deleted_files_count
            &&& now.replaced_files_count == info.replaced_files_count
            &&& now.added_rows_count == info.added_rows_count
            &&& now.existing_rows_count == info.existing_rows_count
            &&& now.deleted_rows_count == info.deleted_rows_count
            &&& now.replaced_rows_count == info.replaced_rows_count
            &&& now.min_sequence_number == info.min_sequence_number
        },
{
}

/// A live manifest dies exactly where as many positions are masked as it has added and existing
/// files; then it carries the snapshot of the commit.
pub proof fn law_manifests_die_with_their_last_file(
    before: EntryModel,
    cache: CacheModel,
    snapshot_id: i64,
    after: EntryModel,
)
    requires
        sealed(before, cache, snapshot_id, after),
        cache.manifest_dv is Some,
        before.tracking.status != TrackingStatus::Deleted,
    ensures
        before.manifest_info matches Some(info) && {
            let dead = cache.manifest_dv->0.len() == info.added_files_count
                + info.existing_files_count;
            &&& after.tracking.status == TrackingStatus::Deleted <==> dead
            &&& !dead ==> after.tracking.status == before.tracking.status
            &&& after.tracking.snapshot_id == if dead {
                Some(snapshot_id)
            } else {
                before.tracking.snapshot_id
            }
        },
{
}

/// A node is for the table root and the version of its builder, and has no place in the log yet.
/// Building changes nothing of the builder but its entries, and takes its batches.
pub proof fn law_nodes_are_for_their_builder(
    before: BuilderModel,
    snapshot_id: i64,
    start: int,
    after: BuilderModel,
    node: NodeModel,
    end: int,
)
    requires
        build_done(before, snapshot_id, start, after, node, end),
    ensures
        node.table_root == before.table_root,
        node.version == before.version,
        node.path_in_log.len() == 0,
        after.table_root == before.table_root,
        after.table_schema == before.table_schema,
        after.version == before.version,
        after.partition_type == before.partition_type,
        after.seen == before.seen,
        after.caches == before.caches,
        after.aggregates == before.aggregates,
        after.batches.len() == 0,
{
}

/// Sealing changes the masked positions and their number, what was deleted and replaced, and,
/// where the manifest dies, status and snapshot; everything else of the entry stays.
pub proof fn law_sealing_changes_bitmaps_alone(
    before: EntryModel,
    cache: CacheModel,
    snapshot_id: i64,
    after: EntryModel,
)
    requires
        sealed(before, cache, snapshot_id, after),
    ensures
        after == (EntryModel {
            manifest_info: after.manifest_info,
            tracking: after.tracking,
            ..before
        }),
        after.tracking == (TrackingModel {
            status: after.tracking.status,
            snapshot_id: after.tracking.snapshot_id,
            deleted_positions: after.tracking.deleted_positions,
            replaced_positions: after.tracking.replaced_positions,
            ..before.tracking
        }),
        cache.manifest_dv is None ==> after.manifest_info == before.manifest_info
            && after.tracking.status == before.tracking.status,
{
}

} // verus!
