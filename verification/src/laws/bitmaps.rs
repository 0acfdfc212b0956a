//! Laws of the position bitmaps of leaf manifests.

use vstd::prelude::*;

use crate::bitmap::{framed_positions, frames};
use crate::builder::{
    cache_of_entry, dirty_keys, entry_added, entry_error, entry_sealed, first_unsealable,
    leaf_positions_updated, BuilderModel,
};
use crate::dv_cache::{sealed, CacheModel, LeafPositionUpdate};
use crate::entry::{DataContentType, EntryModel, TrackingStatus};
use crate::leaf_updates::{leaf_updates_made, leaf_updates_possible};

verus! {

/// A framed bitmap stands for one set only: what is read back is what was written.
pub proof fn law_frame_reads_back(frame: Seq<u8>, set: Set<u64>, other: Set<u64>)
    requires
        frames(frame, set),
    ensures
        framed_positions(frame) == Some(set),
        frames(frame, other) ==> other == set,
{
}

/// Masked positions survive from one commit to the next: the entry that a commit seals brings
/// the same masked positions into the next commit, which starts with nothing deleted or
/// replaced.
pub proof fn law_masked_positions_carry_over(
    before: EntryModel,
    cache: CacheModel,
    snapshot_id: i64,
    after: EntryModel,
)
    requires
        sealed(before, cache, snapshot_id, after),
        cache.manifest_dv is Some,
    ensures
        cache_of_entry(after).masked() == cache.manifest_dv,
        cache_of_entry(after).deleted == Set::<u64>::empty(),
        cache_of_entry(after).replaced == Set::<u64>::empty(),
        before.manifest_info matches Some(info) ==> cache_of_entry(after).total
            == info.total_entry_count() as i64,
{
}

/// The bitmaps of a commit do not leak into the next: an entry starts without them, and is
/// otherwise as it was.
pub proof fn law_commit_bitmaps_are_cleared(builder: BuilderModel, entry: EntryModel)
    requires
        entry.is_manifest(),
        entry.location is Some,
    ensures
        ({
            let added = entry_added(builder, entry).entries.last();
            &&& added.tracking.deleted_positions is None
            &&& added.tracking.replaced_positions is None
            &&& added.manifest_info == entry.manifest_info
            &&& added.location == entry.location
            &&& added.tracking.status == entry.tracking.status
            &&& added.tracking.sequence_number == entry.tracking.sequence_number
        }),
{
}

/// Every kind of update masks the positions, and none unmasks any.
pub proof fn law_updates_mask(cache: CacheModel, indices: Set<u64>, kind: LeafPositionUpdate)
    requires
        cache.masked() is Some,
    ensures
        cache.updated(indices, kind) matches Ok(updated) && updated.masked() == Some(
            cache.masked()->Some_0.union(indices),
        ) && updated.dirty,
{
}

/// An update is recorded in the bitmap that its kind names and in no other: a carryover in
/// none.
pub proof fn law_updates_are_recorded_by_kind(
    cache: CacheModel,
    indices: Set<u64>,
    kind: LeafPositionUpdate,
)
    requires
        cache.masked() is Some,
    ensures
        cache.updated(indices, kind) matches Ok(updated) && {
            &&& updated.deleted == (if kind == LeafPositionUpdate::Delete {
                cache.deleted.union(indices)
            } else {
                cache.deleted
            })
            &&& updated.replaced == (if kind == LeafPositionUpdate::Replace {
                cache.replaced.union(indices)
            } else {
                cache.replaced
            })
            &&& updated.total == cache.total
            &&& updated.serialized == cache.serialized
        },
{
}

/// Two updates of one kind are one update with all of their positions, in either order.
pub proof fn law_updates_accumulate(
    cache: CacheModel,
    first: Set<u64>,
    second: Set<u64>,
    kind: LeafPositionUpdate,
)
    requires
        cache.masked() is Some,
    ensures
        cache.updated(first, kind)->Ok_0.updated(second, kind) == cache.updated(
            first.union(second),
            kind,
        ),
        cache.updated(first, kind)->Ok_0.updated(second, kind) == cache.updated(
            second,
            kind,
        )->Ok_0.updated(first, kind),
{
    let masked = cache.masked()->Some_0;
    let one = cache.updated(first, kind)->Ok_0.updated(second, kind)->Ok_0;
    let all = cache.updated(first.union(second), kind)->Ok_0;
    let other = cache.updated(second, kind)->Ok_0.updated(first, kind)->Ok_0;
    assert(masked.union(first).union(second) =~= masked.union(first.union(second)));
    assert(masked.union(second).union(first) =~= masked.union(first.union(second)));
    assert(cache.deleted.union(first).union(second) =~= cache.deleted.union(first.union(second)));
    assert(cache.deleted.union(second).union(first) =~= cache.deleted.union(first.union(second)));
    assert(cache.replaced.union(first).union(second) =~= cache.replaced.union(
        first.union(second),
    ));
    assert(cache.replaced.union(second).union(first) =~= cache.replaced.union(
        first.union(second),
    ));
    assert(one =~= all);
    assert(other =~= all);
}

/// An update of one leaf leaves everything else of a builder as it was.
pub proof fn law_updates_are_local(
    builder: BuilderModel,
    leaf: Seq<char>,
    indices: Set<u64>,
    kind: LeafPositionUpdate,
    other: Seq<char>,
)
    requires
        other != leaf,
    ensures
        leaf_positions_updated(builder, leaf, indices, kind) matches Ok(updated) ==> {
            &&& updated.entries == builder.entries
            &&& updated.batches == builder.batches
            &&& updated.caches.contains_key(other) == builder.caches.contains_key(other)
            &&& builder.caches.contains_key(other) ==> updated.caches[other]
                == builder.caches[other]
        },
{
}

/// A set of positions with an element has a largest one.
pub proof fn lemma_has_largest(set: Set<u64>, element: u64, bound: u64)
    requires
        set.contains(element),
        forall|p: u64| set.contains(p) ==> p <= bound,
    ensures
        exists|m: u64| #[trigger] set.contains(m) && forall|p: u64| set.contains(p) ==> p <= m,
    decreases bound,
{
    if set.contains(bound) {
        assert(set.contains(bound) && forall|p: u64| set.contains(p) ==> p <= bound);
    } else {
        lemma_has_largest(set, element, (bound - 1) as u64);
    }
}

/// A position behind the last entry of a leaf is never masked.
pub proof fn law_positions_stay_in_bounds(
    builder: BuilderModel,
    leaf: Seq<char>,
    indices: Set<u64>,
    kind: LeafPositionUpdate,
    position: u64,
)
    requires
        builder.caches.contains_key(leaf),
        indices.contains(position),
        position >= builder.caches[leaf].total as u64,
    ensures
        leaf_positions_updated(builder, leaf, indices, kind) is Err,
{
    lemma_has_largest(indices, position, u64::MAX);
    let largest = crate::builder::largest(indices);
    assert(indices.contains(largest) && forall|p: u64| indices.contains(p) ==> p <= largest);
}

/// A manifest is marked deleted exactly where as many of its positions are masked as it has
/// live entries; a status other than that stays.
pub proof fn law_dead_manifests_are_deleted(
    before: EntryModel,
    cache: CacheModel,
    snapshot_id: i64,
    after: EntryModel,
)
    requires
        sealed(before, cache, snapshot_id, after),
        cache.manifest_dv is Some,
    ensures
        before.manifest_info matches Some(info) && {
            &&& cache.manifest_dv->Some_0.len() == info.active_entry_count()
                ==> after.tracking.status == TrackingStatus::Deleted
                && after.tracking.snapshot_id == Some(snapshot_id)
            &&& cache.manifest_dv->Some_0.len() != info.active_entry_count()
                ==> after.tracking.status == before.tracking.status
        },
{
}

/// Sealing keeps sequence numbers, row ids, location, counts and statistics.
pub proof fn law_sealing_keeps_the_rest(
    before: EntryModel,
    caches: Map<Seq<char>, CacheModel>,
    snapshot_id: i64,
    after: EntryModel,
)
    requires
        entry_sealed(before, caches, snapshot_id, after),
    ensures
        after.content_type == before.content_type,
        after.location == before.location,
        after.record_count == before.record_count,
        after.content_stats == before.content_stats,
        after.deletion_vector == before.deletion_vector,
        after.tracking.sequence_number == before.tracking.sequence_number,
        after.tracking.file_sequence_number == before.tracking.file_sequence_number,
        after.tracking.first_row_id == before.tracking.first_row_id,
{
}

/// A reorganization records no deletion and no replacement.
pub proof fn law_carryover_records_nothing(
    builder: BuilderModel,
    updates: Map<Seq<char>, Set<u64>>,
    leaf: Seq<char>,
)
    requires
        builder.caches.contains_key(leaf),
        leaf_updates_possible(builder, updates, LeafPositionUpdate::Carryover),
    ensures
        ({
            let after = leaf_updates_made(
                builder,
                updates,
                LeafPositionUpdate::Carryover,
            ).caches[leaf];
            &&& after.deleted == builder.caches[leaf].deleted
            &&& after.replaced == builder.caches[leaf].replaced
        }),
{
    if updates.contains_key(leaf) {
        assert(leaf_positions_updated(
            builder,
            leaf,
            updates[leaf],
            LeafPositionUpdate::Carryover,
        ) is Ok);
    }
}

/// A manifest entry comes with the bitmap that it names, nothing deleted or replaced, and as many
/// positions as its manifest has files of any status.
pub proof fn law_manifests_come_with_their_bitmaps(entry: EntryModel)
    requires
        entry.manifest_info matches Some(info) && 0 <= info.added_files_count
            && 0 <= info.existing_files_count && 0 <= info.deleted_files_count
            && 0 <= info.replaced_files_count,
    ensures
        ({
            let info = entry.manifest_info->0;
            let cache = cache_of_entry(entry);
            &&& cache.described
            &&& !cache.dirty
            &&& cache.total == info.added_files_count + info.existing_files_count
                + info.deleted_files_count + info.replaced_files_count
            &&& cache.masked() == match info.dv {
                Some(frame) => framed_positions(frame),
                None => Some(Set::<u64>::empty()),
            }
            &&& cache.deleted == Set::<u64>::empty()
            &&& cache.replaced == Set::<u64>::empty()
        }),
{
}

/// A manifest of which nothing is said comes without positions.
pub proof fn law_undescribed_manifests_have_no_positions(entry: EntryModel)
    requires
        entry.manifest_info is None,
    ensures
        !cache_of_entry(entry).described,
        cache_of_entry(entry).total == 0,
        cache_of_entry(entry).masked() == Some(Set::<u64>::empty()),
{
}

/// Loading the bitmap of a manifest changes none of its positions. It fails exactly where the
/// bitmap cannot be read.
pub proof fn law_loading_masks_nothing(cache: CacheModel)
    ensures
        cache.loaded() is Ok <==> cache.masked() is Some,
        cache.loaded() matches Ok(loaded) ==> {
            &&& loaded.masked() == cache.masked()
            &&& loaded.manifest_dv == cache.masked()
            &&& loaded.deleted == cache.deleted
            &&& loaded.replaced == cache.replaced
            &&& loaded.total == cache.total
            &&& loaded.described == cache.described
            &&& cache.manifest_dv is None ==> loaded.dirty
        },
{
}

/// An entry can be sealed exactly where its bitmaps did not change, or where something is said of
/// its manifest and its masked positions can be counted.
pub proof fn law_described_manifests_can_be_sealed(
    entry: EntryModel,
    caches: Map<Seq<char>, CacheModel>,
)
    ensures
        entry_error(entry, caches) is None <==> {
            ||| entry.location is None
            ||| entry.content_type != DataContentType::DataManifest && entry.content_type
                != DataContentType::DeleteManifest
            ||| !caches.contains_key(entry.location->0)
            ||| !caches[entry.location->0].dirty
            ||| caches[entry.location->0].manifest_dv is None
            ||| entry.manifest_info is Some && caches[entry.location->0].manifest_dv->0.len()
                <= i64::MAX
        },
{
}

/// The first entry that cannot be sealed.
pub proof fn law_first_unsealable_entry_is_found(
    entries: Seq<EntryModel>,
    caches: Map<Seq<char>, CacheModel>,
    from: int,
)
    requires
        0 <= from <= entries.len(),
    ensures
        ({
            let at = first_unsealable(entries, caches, from);
            &&& from <= at <= entries.len()
            &&& at < entries.len() ==> entry_error(entries[at], caches) is Some
            &&& forall|i: int|
                from <= i < at ==> entry_error(#[trigger] entries[i], caches) is None
        }),
    decreases entries.len() - from,
{
    if from < entries.len() && entry_error(entries[from], caches) is None {
        law_first_unsealable_entry_is_found(entries, caches, from + 1);
    }
}

/// A cache counts as dirty exactly where it is one of the builder's and was changed.
pub proof fn law_dirty_caches_are_counted(caches: Map<Seq<char>, CacheModel>, leaf: Seq<char>)
    ensures
        dirty_keys(caches).contains(leaf) <==> caches.contains_key(leaf) && caches[leaf].dirty,
{
}

/// An entry that is no manifest, or has no location, starts a commit as it is.
pub proof fn law_other_entries_start_as_they_are(builder: BuilderModel, entry: EntryModel)
    requires
        entry.location is None || (entry.content_type != DataContentType::DataManifest
            && entry.content_type != DataContentType::DeleteManifest),
    ensures
        entry_added(builder, entry).entries == builder.entries.push(entry),
        entry_added(builder, entry).caches == builder.caches,
{
}

} // verus!
