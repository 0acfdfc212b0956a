//! Leaf manifests: what is written, and the entry by which a root refers to it.

use url::Url;
use vstd::prelude::*;

use crate::builder::{
    BatchAggregates, BuilderModel, ContentTreeNode, ContentTreeNodeBuilder, Version,
};
use crate::entry::{
    ContentTreeNodeEntry, ContentTreeNodeEntryBuilder, DataContentType, EntryModel, ManifestInfo,
    ManifestModel, TrackingInfo, TrackingModel, TrackingStatus,
};
use crate::error::{viewed, DeltaResult};
use crate::expression::{StructData, StructDataModel};
use crate::location::{url_str, url_text};
use crate::node_build::{all_sealable, build_done, build_fits, build_refused};
use crate::row_ids::{is_i64, CursorRowIdAllocator};

verus! {

/// Totals over the entries of a leaf manifest, by status.
#[derive(Clone, Copy, Debug, PartialEq, Eq, Structural)]
pub struct LeafTotals {
    pub record_count: i64,
    pub added_files: i32,
    pub existing_files: i32,
    pub deleted_files: i32,
    pub replaced_files: i32,
    pub added_rows: i64,
    pub existing_rows: i64,
    pub deleted_rows: i64,
    pub replaced_rows: i64,
    /// The smallest sequence number, the largest 64-bit number where there is none.
    pub least_sequence: i64,
}

/// The mathematical content of [`LeafTotals`].
pub ghost struct Tally {
    pub record_count: int,
    pub added_files: int,
    pub existing_files: int,
    pub deleted_files: int,
    pub replaced_files: int,
    pub added_rows: int,
    pub existing_rows: int,
    pub deleted_rows: int,
    pub replaced_rows: int,
    pub least_sequence: int,
}

impl View for LeafTotals {
    type V = Tally;

    open spec fn view(&self) -> Tally {
        Tally {
            record_count: self.record_count as int,
            added_files: self.added_files as int,
            existing_files: self.existing_files as int,
            deleted_files: self.deleted_files as int,
            replaced_files: self.replaced_files as int,
            added_rows: self.added_rows as int,
            existing_rows: self.existing_rows as int,
            deleted_rows: self.deleted_rows as int,
            replaced_rows: self.replaced_rows as int,
            least_sequence: self.least_sequence as int,
        }
    }
}

/// Whether `n` is a 32-bit number.
pub open spec fn is_i32(n: int) -> bool {
    i32::MIN <= n <= i32::MAX
}

impl Tally {
    /// Every total fits in the number that holds it.
    pub open spec fn fits(self) -> bool {
        &&& is_i64(self.record_count)
        &&& is_i32(self.added_files)
        &&& is_i32(self.existing_files)
        &&& is_i32(self.deleted_files)
        &&& is_i32(self.replaced_files)
        &&& is_i64(self.added_rows)
        &&& is_i64(self.existing_rows)
        &&& is_i64(self.deleted_rows)
        &&& is_i64(self.replaced_rows)
    }

    /// The totals with one entry more. A modified entry is live and counts as existing.
    pub open spec fn with_entry(self, entry: EntryModel) -> Tally {
        let rows = entry.record_count as int;
        let counted = Tally {
            record_count: self.record_count + rows,
            least_sequence: match entry.tracking.sequence_number {
                Some(seq) => if seq < self.least_sequence {
                    seq as int
                } else {
                    self.least_sequence
                },
                None => self.least_sequence,
            },
            ..self
        };
        match entry.tracking.status {
            TrackingStatus::Added => Tally {
                added_files: self.added_files + 1,
                added_rows: self.added_rows + rows,
                ..counted
            },
            TrackingStatus::Existing | TrackingStatus::Modified => Tally {
                existing_files: self.existing_files + 1,
                existing_rows: self.existing_rows + rows,
                ..counted
            },
            TrackingStatus::Deleted => Tally {
                deleted_files: self.deleted_files + 1,
                deleted_rows: self.deleted_rows + rows,
                ..counted
            },
            TrackingStatus::Replaced => Tally {
                replaced_files: self.replaced_files + 1,
                replaced_rows: self.replaced_rows + rows,
                ..counted
            },
        }
    }

    /// The totals with one transformed batch more: all of its rows count as added rows, and
    /// its sequence number is the version of the builder.
    pub open spec fn with_batch(self, batch: BatchAggregates, version: Version) -> Tally {
        Tally {
            record_count: self.record_count + batch.total_record_count,
            added_files: self.added_files + batch.added_file_count,
            existing_files: self.existing_files + batch.existing_file_count,
            added_rows: self.added_rows + batch.total_record_count,
            least_sequence: if (version as i64) < self.least_sequence {
                (version as i64) as int
            } else {
                self.least_sequence
            },
            ..self
        }
    }
}

/// The totals over nothing.
pub open spec fn no_tally() -> Tally {
    Tally {
        record_count: 0,
        added_files: 0,
        existing_files: 0,
        deleted_files: 0,
        replaced_files: 0,
        added_rows: 0,
        existing_rows: 0,
        deleted_rows: 0,
        replaced_rows: 0,
        least_sequence: i64::MAX as int,
    }
}

/// The totals over the first `n` entries.
pub open spec fn entry_tally(entries: Seq<EntryModel>, n: int) -> Tally
    decreases n,
{
    if n <= 0 {
        no_tally()
    } else {
        entry_tally(entries, n - 1).with_entry(entries[n - 1])
    }
}

/// The totals over all entries and the first `n` batches of a builder.
pub open spec fn batch_tally(builder: BuilderModel, n: int) -> Tally
    decreases n,
{
    if n <= 0 {
        entry_tally(builder.entries, builder.entries.len() as int)
    } else {
        batch_tally(builder, n - 1).with_batch(builder.aggregates[n - 1], builder.version)
    }
}

/// The totals over all that a builder holds.
pub open spec fn leaf_tally(builder: BuilderModel) -> Tally {
    batch_tally(builder, builder.aggregates.len() as int)
}

/// The totals fit all along.
pub open spec fn leaf_totals_fit(builder: BuilderModel) -> bool {
    &&& forall|n: int|
        0 <= n <= builder.entries.len() ==> (#[trigger] entry_tally(builder.entries, n)).fits()
    &&& forall|n: int|
        0 <= n <= builder.aggregates.len() ==> (#[trigger] batch_tally(builder, n)).fits()
}

/// What a manifest entry says of the manifest.
pub open spec fn tally_info(tally: Tally) -> ManifestModel {
    ManifestModel {
        added_files_count: tally.added_files as i32,
        existing_files_count: tally.existing_files as i32,
        deleted_files_count: tally.deleted_files as i32,
        replaced_files_count: tally.replaced_files as i32,
        added_rows_count: tally.added_rows as i64,
        existing_rows_count: tally.existing_rows as i64,
        deleted_rows_count: tally.deleted_rows as i64,
        replaced_rows_count: tally.replaced_rows as i64,
        min_sequence_number: if tally.least_sequence == i64::MAX {
            0
        } else {
            tally.least_sequence as i64
        },
        dv: None,
        dv_cardinality: None,
    }
}

/// Whether any entry carries content statistics.
pub open spec fn any_content_stats(entries: Seq<EntryModel>) -> bool {
    exists|i: int| 0 <= i < entries.len() && (#[trigger] entries[i]).content_stats is Some
}

/// A location relative to the table root, where it lies below it.
pub open spec fn relative_location(location: Seq<char>, table_root: Seq<char>) -> Seq<char> {
    if table_root.is_prefix_of(location) {
        location.skip(table_root.len() as int)
    } else {
        location
    }
}

/// The entry by which a root refers to a written leaf: new in this commit, with the totals over
/// the leaf, the version of the builder as both sequence numbers, and the first row id of the
/// leaf.
pub open spec fn leaf_entry(
    builder: BuilderModel,
    snapshot_id: i64,
    first_row_id: i64,
    location: Seq<char>,
    size_in_bytes: u64,
    content_stats: Option<StructDataModel>,
) -> EntryModel {
    EntryModel {
        content_type: DataContentType::DataManifest,
        location: Some(relative_location(location, builder.table_root.text)),
        tracking: TrackingModel {
            status: TrackingStatus::Added,
            snapshot_id: Some(snapshot_id),
            sequence_number: Some(builder.version as i64),
            file_sequence_number: Some(builder.version as i64),
            first_row_id: Some(first_row_id),
            dv_snapshot_id: None,
            deleted_positions: None,
            replaced_positions: None,
        },
        deletion_vector: None,
        partition: None,
        record_count: leaf_tally(builder).record_count as i64,
        file_size_in_bytes: size_in_bytes as i64,
        content_stats: if any_content_stats(builder.entries) {
            content_stats
        } else {
            None
        },
        manifest_info: Some(tally_info(leaf_tally(builder))),
        tags: None,
    }
}

/// A leaf that is ready to be written.
pub struct LeafDraft {
    /// The rows of the leaf.
    pub node: ContentTreeNode,
    /// The first row id that was free when the leaf was built.
    pub first_row_id: i64,
}

/// Adds one entry to the totals.
fn count_entry(totals: &mut LeafTotals, entry: &ContentTreeNodeEntry)
    requires
        old(totals)@.with_entry(entry@).fits(),
    ensures
        final(totals)@ == old(totals)@.with_entry(entry@),
{
    totals.record_count = totals.record_count + entry.record_count;
    if let Some(seq) = entry.tracking.sequence_number {
        if seq < totals.least_sequence {
            totals.least_sequence = seq;
        }
    }
    match entry.tracking.status {
        TrackingStatus::Added => {
            totals.added_files = totals.added_files + 1;
            totals.added_rows = totals.added_rows + entry.record_count;
        },
        TrackingStatus::Existing => {
            totals.existing_files = totals.existing_files + 1;
            totals.existing_rows = totals.existing_rows + entry.record_count;
        },
        TrackingStatus::Deleted => {
            totals.deleted_files = totals.deleted_files + 1;
            totals.deleted_rows = totals.deleted_rows + entry.record_count;
        },
        TrackingStatus::Replaced => {
            totals.replaced_files = totals.replaced_files + 1;
            totals.replaced_rows = totals.replaced_rows + entry.record_count;
        },
        TrackingStatus::Modified => {
            totals.existing_files = totals.existing_files + 1;
            totals.existing_rows = totals.existing_rows + entry.record_count;
        },
    }
}

/// Adds one batch to the totals.
fn count_batch(totals: &mut LeafTotals, batch: BatchAggregates, version: Version)
    requires
        old(totals)@.with_batch(batch, version).fits(),
    ensures
        final(totals)@ == old(totals)@.with_batch(batch, version),
{
    totals.record_count = totals.record_count + batch.total_record_count;
    totals.added_files = totals.added_files + batch.added_file_count;
    totals.existing_files = totals.existing_files + batch.existing_file_count;
    totals.added_rows = totals.added_rows + batch.total_record_count;
    if (version as i64) < totals.least_sequence {
        totals.least_sequence = version as i64;
    }
}

/// Makes a location relative to the table root, where it lies below it.
pub fn relativize_manifest_path(location: &Url, table_root: &Url) -> (path: String)
    ensures
        path@ == relative_location(url_text(*location), url_text(*table_root)),
{
    let text = url_str(location);
    let root = url_str(table_root);
    let text_len: usize = text.unicode_len();
    let root_len: usize = root.unicode_len();
    if root_len <= text_len {
        let head = text.substring_char(0, root_len).to_owned();
        if head == root.to_owned() {
            assert(root@.is_prefix_of(text@));
            let tail = text.substring_char(root_len, text_len);
            assert(tail@ =~= text@.skip(root@.len() as int));
            return tail.to_owned();
        }
        assert(head@ != root@);
        assert(!root@.is_prefix_of(text@)) by {
            if root@.is_prefix_of(text@) {
                assert(head@ =~= root@);
            }
        }
    }
    text.to_owned()
}

impl ContentTreeNodeBuilder {
    /// Adds up the totals over all that the builder holds.
    pub fn leaf_totals(&self) -> (totals: LeafTotals)
        requires
            leaf_totals_fit(self@),
        ensures
            totals@ == leaf_tally(self@),
    {
        let mut totals = LeafTotals {
            record_count: 0,
            added_files: 0,
            existing_files: 0,
            deleted_files: 0,
            replaced_files: 0,
            added_rows: 0,
            existing_rows: 0,
            deleted_rows: 0,
            replaced_rows: 0,
            least_sequence: i64::MAX,
        };
        let mut i: usize = 0;
        while i < self.pending_entries.len()
            invariant
                i <= self.pending_entries@.len(),
                leaf_totals_fit(self@),
                totals@ == entry_tally(self@.entries, i as int),
            decreases self.pending_entries@.len() - i,
        {
            assert(entry_tally(self@.entries, i + 1).fits());
            count_entry(&mut totals, &self.pending_entries[i]);
            i += 1;
        }
        let mut k: usize = 0;
        while k < self.pre_built_aggregates.len()
            invariant
                k <= self.pre_built_aggregates@.len(),
                leaf_totals_fit(self@),
                totals@ == batch_tally(self@, k as int),
            decreases self.pre_built_aggregates@.len() - k,
        {
            assert(batch_tally(self@, k + 1).fits());
            count_batch(&mut totals, self.pre_built_aggregates[k], self.version);
            k += 1;
        }
        totals
    }

    /// Makes the node of a leaf, and takes note of the first row id that it starts with.
    pub fn prepare_leaf(
        &mut self,
        snapshot_id: i64,
        allocator: &mut CursorRowIdAllocator,
    ) -> (draft: DeltaResult<LeafDraft>)
        requires
            old(self).wf(),
            all_sealable(old(self)@) ==> build_fits(old(self)@, old(allocator)@),
        ensures
            final(self).wf(),
            match draft {
                Ok(leaf) => leaf.first_row_id == old(allocator)@ && build_done(
                    old(self)@,
                    snapshot_id,
                    old(allocator)@,
                    final(self)@,
                    leaf.node@,
                    final(allocator)@,
                ),
                Err(e) => build_refused(old(self)@, snapshot_id, final(self)@, e@)
                    && final(allocator)@ == old(allocator)@,
            },
    {
        let first_row_id = allocator.current();
        match self.build(snapshot_id, allocator) {
            Ok(node) => Ok(LeafDraft { node, first_row_id }),
            Err(e) => Err(e),
        }
    }

    /// The entry by which a root refers to a leaf that was written to `location`.
    ///
    /// `content_stats` are the statistics over those of all entries; they count only where an
    /// entry has any.
    pub fn leaf_manifest_entry(
        &self,
        snapshot_id: i64,
        first_row_id: i64,
        location: &Url,
        size_in_bytes: u64,
        content_stats: Option<StructData>,
    ) -> (entry: ContentTreeNodeEntry)
        requires
            leaf_totals_fit(self@),
        ensures
            entry@ == leaf_entry(
                self@,
                snapshot_id,
                first_row_id,
                url_text(*location),
                size_in_bytes,
                viewed(content_stats),
            ),
    {
        let totals = self.leaf_totals();
        proof {
            assert(batch_tally(self@, self@.aggregates.len() as int).fits());
        }
        let mut has_stats = false;
        let mut i: usize = 0;
        while i < self.pending_entries.len()
            invariant
                i <= self.pending_entries@.len(),
                has_stats == exists|j: int|
                    0 <= j < i && (#[trigger] self@.entries[j]).content_stats is Some,
            decreases self.pending_entries@.len() - i,
        {
            assert(self@.entries[i as int] == self.pending_entries@[i as int]@);
            if self.pending_entries[i].content_stats.is_some() {
                has_stats = true;
            }
            i += 1;
        }
        let stats = if has_stats {
            content_stats
        } else {
            None
        };
        let manifest_info = ManifestInfo {
            added_files_count: totals.added_files,
            existing_files_count: totals.existing_files,
            deleted_files_count: totals.deleted_files,
            replaced_files_count: totals.replaced_files,
            added_rows_count: totals.added_rows,
            existing_rows_count: totals.existing_rows,
            deleted_rows_count: totals.deleted_rows,
            replaced_rows_count: totals.replaced_rows,
            min_sequence_number: if totals.least_sequence == i64::MAX {
                0
            } else {
                totals.least_sequence
            },
            dv: None,
            dv_cardinality: None,
        };
        let path = relativize_manifest_path(location, &self.table_root);
        ContentTreeNodeEntryBuilder::new(DataContentType::DataManifest).location(
            path.as_str(),
        ).tracking(
            TrackingInfo {
                status: TrackingStatus::Added,
                snapshot_id: Some(snapshot_id),
                sequence_number: Some(self.version as i64),
                file_sequence_number: Some(self.version as i64),
                first_row_id: Some(first_row_id),
                dv_snapshot_id: None,
                deleted_positions: None,
                replaced_positions: None,
            },
        ).record_count(totals.record_count).file_size_in_bytes(
            size_in_bytes as i64,
        ).content_stats_opt(stats).manifest_info_opt(Some(manifest_info)).build()
    }
}

} // verus!
