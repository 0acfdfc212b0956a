//! The builder of the nodes of a metadata tree.

use roaring::RoaringTreemap;
use url::Url;
use vstd::hash_set::StringHashSet;
use vstd::prelude::*;

use crate::bitmap::{largest_position, positions};
use crate::columns::SelectedColumns;
use crate::deletion_vector::{DeletionVectorInfo, DvModel};
use crate::dv_cache::{
    fresh_cache, lemma_update_coherent, seal_error, sealed, CacheModel, DvCache, LeafPositionUpdate,
};
use crate::entry::{
    clone_contents, clone_entries, clone_text, entry_models, ContentTreeNodeEntry, DataContentType,
    EntryModel, TrackingModel, TrackingStatus,
};
use crate::error::{generic, viewed, DeltaResult, Error, ErrorModel};
use crate::laws::additions::law_added_entries_change_entries_alone;
use crate::location::{join_url, joined_url, location, LocationModel};
use crate::row_ids::is_i64;
use crate::schema::{long_type, DataType, FieldModel, StructType};
use crate::sequence::{lemma_filter_ends, lemma_filter_step};
use crate::string_map::StringMap;
use crate::text::{decimal, signed_text, unsigned_text};

verus! {

/// The version of a table.
pub type Version = u64;

/// Totals over the rows of a transformed batch, taken when the batch is added.
#[derive(Clone, Copy, Debug, PartialEq, Eq, Structural)]
pub struct BatchAggregates {
    pub added_file_count: i32,
    pub existing_file_count: i32,
    pub total_record_count: i64,
}

/// A node of the tree: rows of entries, in batches.
pub struct ContentTreeNode {
    pub table_root: Url,
    pub data: Vec<Vec<ContentTreeNodeEntry>>,
    pub version: Version,
    /// The path of the node in the log, empty until the node is written.
    pub path_in_log: String,
}

/// The model of a [`ContentTreeNode`].
#[verifier::ext_equal]
pub ghost struct NodeModel {
    pub table_root: LocationModel,
    pub data: Seq<Seq<EntryModel>>,
    pub version: Version,
    pub path_in_log: Seq<char>,
}

/// Builds nodes: holds entries, the position bitmaps of the leaf manifests among them, and
/// batches of rows that an engine made.
pub struct ContentTreeNodeBuilder {
    pub table_root: Url,
    pub pending_entries: Vec<ContentTreeNodeEntry>,
    pub version: Version,
    pub table_schema: StructType,
    pub partition_type: Option<StructType>,
    /// The paths of the actions that were added, so that none is added twice.
    pub values_seen: StringHashSet,
    /// The bitmaps of the leaf manifests, by location.
    pub dv_cache: StringMap<DvCache>,
    /// Batches of rows that are in their final form.
    pub pre_built_data: Vec<Vec<ContentTreeNodeEntry>>,
    /// The totals of the batches.
    pub pre_built_aggregates: Vec<BatchAggregates>,
}

/// The model of a [`ContentTreeNodeBuilder`].
#[verifier::ext_equal]
pub ghost struct BuilderModel {
    pub table_root: LocationModel,
    pub entries: Seq<EntryModel>,
    pub version: Version,
    pub table_schema: Seq<FieldModel>,
    pub partition_type: Option<Seq<FieldModel>>,
    pub seen: Set<Seq<char>>,
    pub caches: Map<Seq<char>, CacheModel>,
    pub batches: Seq<Seq<EntryModel>>,
    pub aggregates: Seq<BatchAggregates>,
}

/// The models of the rows of a list of batches.
pub open spec fn batch_models(batches: Seq<Vec<ContentTreeNodeEntry>>) -> Seq<Seq<EntryModel>> {
    Seq::new(batches.len(), |i: int| entry_models(batches[i]@))
}

/// The rows of the first `n` batches, one after the other.
pub open spec fn flat_rows(batches: Seq<Seq<EntryModel>>, n: int) -> Seq<EntryModel>
    decreases n,
{
    if n <= 0 {
        Seq::empty()
    } else {
        flat_rows(batches, n - 1) + batches[n - 1]
    }
}

/// All rows of some batches, one after the other.
pub open spec fn all_rows(batches: Seq<Seq<EntryModel>>) -> Seq<EntryModel> {
    flat_rows(batches, batches.len() as int)
}

/// The models of the caches of a map.
pub open spec fn cache_models(caches: Map<Seq<char>, DvCache>) -> Map<Seq<char>, CacheModel> {
    caches.map_values(|cache: DvCache| cache@)
}

impl View for ContentTreeNode {
    type V = NodeModel;

    open spec fn view(&self) -> NodeModel {
        NodeModel {
            table_root: location(self.table_root),
            data: batch_models(self.data@),
            version: self.version,
            path_in_log: self.path_in_log@,
        }
    }
}

impl ContentTreeNode {
    /// The rows of the node, one after the other.
    pub fn entries(&self) -> (entries: Vec<ContentTreeNodeEntry>)
        ensures
            entry_models(entries@) == all_rows(self@.data),
    {
        let ghost models = self@.data;
        let mut entries: Vec<ContentTreeNodeEntry> = Vec::new();
        assert(entry_models(entries@) =~= Seq::empty());
        let mut i: usize = 0;
        while i < self.data.len()
            invariant
                i <= self.data@.len(),
                models == self@.data,
                entry_models(entries@) == flat_rows(models, i as int),
            decreases self.data@.len() - i,
        {
            let mut rows = clone_entries(&self.data[i]);
            assert(models[i as int] == entry_models(rows@));
            let ghost so_far = entries@;
            let ghost more = rows@;
            entries.append(&mut rows);
            assert(entry_models(entries@) =~= entry_models(so_far) + entry_models(more));
            i += 1;
        }
        entries
    }
}

impl View for ContentTreeNodeBuilder {
    type V = BuilderModel;

    open spec fn view(&self) -> BuilderModel {
        BuilderModel {
            table_root: location(self.table_root),
            entries: entry_models(self.pending_entries@),
            version: self.version,
            table_schema: self.table_schema.view(),
            partition_type: viewed(self.partition_type),
            seen: self.values_seen@,
            caches: cache_models(self.dv_cache@),
            batches: batch_models(self.pre_built_data@),
            aggregates: self.pre_built_aggregates@,
        }
    }
}

/// The largest element of a set of positions.
pub open spec fn largest(set: Set<u64>) -> u64 {
    choose|m: u64| #[trigger] set.contains(m) && forall|p: u64| set.contains(p) ==> p <= m
}

/// The error for a leaf manifest that the builder does not hold.
pub open spec fn leaf_unknown(location: Seq<char>) -> ErrorModel {
    generic("Manifest cache not found at location: "@ + location + ". This is a bug."@)
}

/// The error for a position behind the last entry of a leaf manifest.
pub open spec fn position_out_of_bounds(index: u64, total: i64) -> ErrorModel {
    generic(
        "Index "@ + decimal(index as int) + " out of bounds (total entries: "@ + decimal(
            total as int,
        ) + ")"@,
    )
}

/// The error for a leaf manifest of which nothing is said.
pub open spec fn leaf_undescribed(location: Seq<char>) -> ErrorModel {
    generic("Manifest entry has no manifest_info: "@ + location)
}

/// The error for a list that is too long to count in 32 bits.
pub open spec fn file_count_overflow(len: int) -> ErrorModel {
    generic("file count "@ + decimal(len) + " exceeds i32::MAX"@)
}

/// The sum of the record counts of the first `n` rows.
pub open spec fn record_sum(rows: Seq<EntryModel>, n: int) -> int
    decreases n,
{
    if n <= 0 {
        0
    } else {
        record_sum(rows, n - 1) + rows[n - 1].record_count
    }
}

/// The sum of the record counts stays a 64-bit number all along.
pub open spec fn record_sum_fits(rows: Seq<EntryModel>) -> bool {
    forall|n: int| 0 <= n <= rows.len() ==> is_i64(#[trigger] record_sum(rows, n))
}

/// The cache whose bitmaps belong into an entry: that of the entry's location, where the entry
/// refers to a manifest and the cache was changed.
pub open spec fn cache_to_seal(
    entry: EntryModel,
    caches: Map<Seq<char>, CacheModel>,
) -> Option<CacheModel> {
    match entry.location {
        Some(location) => if entry.is_manifest() && caches.contains_key(location)
            && caches[location].dirty {
            Some(caches[location])
        } else {
            None
        },
        None => None,
    }
}

/// Why an entry cannot be sealed.
pub open spec fn entry_error(
    entry: EntryModel,
    caches: Map<Seq<char>, CacheModel>,
) -> Option<ErrorModel> {
    match cache_to_seal(entry, caches) {
        Some(cache) => seal_error(entry, cache),
        None => None,
    }
}

/// Whether `after` is `before` with the bitmaps of its manifest put in.
pub open spec fn entry_sealed(
    before: EntryModel,
    caches: Map<Seq<char>, CacheModel>,
    snapshot_id: i64,
    after: EntryModel,
) -> bool {
    match cache_to_seal(before, caches) {
        Some(cache) => sealed(before, cache, snapshot_id, after),
        None => after == before,
    }
}

/// The index of the first entry at or after `from` that cannot be sealed, `entries.len()`
/// where there is none.
pub open spec fn first_unsealable(
    entries: Seq<EntryModel>,
    caches: Map<Seq<char>, CacheModel>,
    from: int,
) -> int
    decreases entries.len() - from,
{
    if from >= entries.len() {
        entries.len() as int
    } else if entry_error(entries[from], caches) is Some {
        from
    } else {
        first_unsealable(entries, caches, from + 1)
    }
}

/// Whether the first `n` entries of `after` are those of `before`, sealed, and the others
/// those of `before` as they were.
pub open spec fn sealed_up_to(
    before: Seq<EntryModel>,
    caches: Map<Seq<char>, CacheModel>,
    snapshot_id: i64,
    after: Seq<EntryModel>,
    n: int,
) -> bool {
    &&& after.len() == before.len()
    &&& forall|i: int|
        0 <= i < n ==> entry_sealed(before[i], caches, snapshot_id, #[trigger] after[i])
    &&& forall|i: int| n <= i < before.len() ==> #[trigger] after[i] == before[i]
}

/// What an update of leaf positions does to a builder.
pub open spec fn leaf_positions_updated(
    builder: BuilderModel,
    leaf: Seq<char>,
    indices: Set<u64>,
    kind: LeafPositionUpdate,
) -> Result<BuilderModel, ErrorModel> {
    if !builder.caches.contains_key(leaf) {
        Err(leaf_unknown(leaf))
    } else {
        let cache = builder.caches[leaf];
        if indices != Set::<u64>::empty() && largest(indices) >= cache.total as u64 {
            Err(position_out_of_bounds(largest(indices), cache.total))
        } else if !cache.described {
            Err(leaf_undescribed(leaf))
        } else {
            match cache.updated(indices, kind) {
                Ok(updated) => Ok(
                    BuilderModel { caches: builder.caches.insert(leaf, updated), ..builder },
                ),
                Err(e) => Err(e),
            }
        }
    }
}

/// What the per-commit bitmaps of an entry start a commit with: those of a manifest entry
/// with a location are empty.
pub open spec fn entry_at_commit_start(entry: EntryModel) -> EntryModel {
    if entry.is_manifest() && entry.location is Some {
        EntryModel {
            tracking: TrackingModel {
                deleted_positions: None,
                replaced_positions: None,
                ..entry.tracking
            },
            ..entry
        }
    } else {
        entry
    }
}

/// The cache that a manifest entry comes with.
pub open spec fn cache_of_entry(entry: EntryModel) -> CacheModel {
    match entry.manifest_info {
        Some(info) => fresh_cache(info.dv, true, info.total_entry_count() as i64),
        None => fresh_cache(None, false, 0),
    }
}

/// What adding an entry does to a builder.
pub open spec fn entry_added(builder: BuilderModel, entry: EntryModel) -> BuilderModel {
    BuilderModel {
        entries: builder.entries.push(entry_at_commit_start(entry)),
        caches: if entry.is_manifest() && entry.location is Some {
            builder.caches.insert(entry.location->Some_0, cache_of_entry(entry))
        } else {
            builder.caches
        },
        ..builder
    }
}

/// What adding the first `n` of some entries, one after the other, does to a builder.
pub open spec fn entries_added(
    builder: BuilderModel,
    entries: Seq<EntryModel>,
    n: int,
) -> BuilderModel
    decreases n,
{
    if n <= 0 {
        builder
    } else {
        entry_added(entries_added(builder, entries, n - 1), entries[n - 1])
    }
}

/// A builder that holds nothing.
pub open spec fn empty_builder(
    table_root: LocationModel,
    version: Version,
    table_schema: Seq<FieldModel>,
) -> BuilderModel {
    BuilderModel {
        table_root,
        entries: Seq::empty(),
        version,
        table_schema,
        partition_type: None,
        seen: Set::empty(),
        caches: Map::empty(),
        batches: Seq::empty(),
        aggregates: Seq::empty(),
    }
}

/// The entry of an earlier content root at a commit of `new_version`: what was added by any
/// other version is there already.
pub open spec fn carried_entry(entry: EntryModel, new_version: Version) -> EntryModel {
    if entry.tracking.status == TrackingStatus::Added && entry.tracking.sequence_number != Some(
        new_version as i64,
    ) {
        entry.with_status(TrackingStatus::Existing)
    } else {
        entry
    }
}

/// The entries of an earlier content root at a commit of `new_version`.
pub open spec fn carried_entries(entries: Seq<EntryModel>, new_version: Version) -> Seq<EntryModel> {
    Seq::new(entries.len(), |i: int| carried_entry(entries[i], new_version))
}

/// Whether an entry is a data file located at `path`.
pub open spec fn is_data_file_at(entry: EntryModel, path: Seq<char>) -> bool {
    entry.location == Some(path) && entry.content_type == DataContentType::Data
}

/// Whether `update_dv` changes an entry: a live data file at the path.
pub open spec fn holds_live_file(entry: EntryModel, path: Seq<char>) -> bool {
    is_data_file_at(entry, path) && entry.tracking.status != TrackingStatus::Deleted
}

/// The index at or after `from` of the first live data file at `path`, `entries.len()` where
/// there is none.
pub open spec fn live_file_index(entries: Seq<EntryModel>, path: Seq<char>, from: int) -> int
    decreases entries.len() - from,
{
    if from >= entries.len() {
        entries.len() as int
    } else if holds_live_file(entries[from], path) {
        from
    } else {
        live_file_index(entries, path, from + 1)
    }
}

/// The entry, deleted in the given snapshot where it stands at `path`.
pub open spec fn marked_deleted(
    entry: EntryModel,
    path: Option<Seq<char>>,
    snapshot_id: i64,
) -> EntryModel {
    if path is Some && entry.location == path {
        EntryModel {
            tracking: TrackingModel {
                status: TrackingStatus::Deleted,
                snapshot_id: Some(snapshot_id),
                ..entry.tracking
            },
            ..entry
        }
    } else {
        entry
    }
}

/// The locations of the entries that do not refer to a manifest.
pub open spec fn plain_locations(entries: Seq<EntryModel>) -> Set<Seq<char>> {
    Set::new(
        |location: Seq<char>|
            exists|i: int|
                0 <= i < entries.len() && (#[trigger] entries[i]).location == Some(location)
                    && !is_leaf_reference(entries[i]),
    )
}

/// Whether an entry refers to a leaf manifest or to its deletion vector.
pub open spec fn is_leaf_reference(entry: EntryModel) -> bool {
    entry.is_manifest() || entry.content_type == DataContentType::ManifestDv
}

/// The builder that a content root is loaded into.
pub open spec fn loaded_builder(
    entries: Seq<EntryModel>,
    table_root: LocationModel,
    table_schema: Seq<FieldModel>,
    new_version: Version,
    partition_type: Option<Seq<FieldModel>>,
) -> BuilderModel {
    entries_added(
        BuilderModel { partition_type, ..empty_builder(table_root, new_version, table_schema) },
        carried_entries(entries, new_version),
        entries.len() as int,
    )
}

/// The totals of a batch of rows of files that were there before.
pub open spec fn existing_aggregates(rows: Seq<EntryModel>) -> BatchAggregates {
    BatchAggregates {
        added_file_count: 0,
        existing_file_count: rows.len() as i32,
        total_record_count: record_sum(rows, rows.len() as int) as i64,
    }
}

/// Whether the totals of a batch are those of its rows: every row is counted as a file, and
/// their records are added up.
pub open spec fn totals_match(rows: Seq<EntryModel>, totals: BatchAggregates) -> bool {
    &&& 0 <= totals.added_file_count
    &&& 0 <= totals.existing_file_count
    &&& totals.added_file_count + totals.existing_file_count == rows.len()
    &&& totals.total_record_count == record_sum(rows, rows.len() as int)
}

/// Whether the last totals are those of the batches. Batches move into a node when it is built,
/// and leave their totals behind, so that there can be more totals than batches.
pub open spec fn batches_totaled(
    batches: Seq<Seq<EntryModel>>,
    totals: Seq<BatchAggregates>,
) -> bool {
    &&& batches.len() <= totals.len()
    &&& forall|i: int|
        0 <= i < batches.len() ==> totals_match(
            #[trigger] batches[i],
            totals[totals.len() - batches.len() + i],
        )
}

/// A batch whose totals are right keeps the totals of a builder right.
pub proof fn lemma_batch_totaled(
    builder: BuilderModel,
    rows: Seq<EntryModel>,
    totals: BatchAggregates,
)
    requires
        batches_totaled(builder.batches, builder.aggregates),
        totals_match(rows, totals),
    ensures
        ({
            let after = batch_added(builder, rows, totals);
            batches_totaled(after.batches, after.aggregates)
        }),
{
    let after = batch_added(builder, rows, totals);
    assert forall|i: int| 0 <= i < after.batches.len() implies totals_match(
        #[trigger] after.batches[i],
        after.aggregates[after.aggregates.len() - after.batches.len() + i],
    ) by {
        if i < builder.batches.len() {
            assert(totals_match(
                builder.batches[i],
                builder.aggregates[builder.aggregates.len() - builder.batches.len() + i],
            ));
        }
    }
}

/// What adding a batch does to a builder.
pub open spec fn batch_added(
    builder: BuilderModel,
    rows: Seq<EntryModel>,
    totals: BatchAggregates,
) -> BuilderModel {
    BuilderModel {
        batches: builder.batches.push(rows),
        aggregates: builder.aggregates.push(totals),
        ..builder
    }
}

/// What adding a batch of replayed rows does to a builder: nothing where it has no rows.
pub open spec fn existing_rows_added(builder: BuilderModel, rows: Seq<EntryModel>) -> BuilderModel {
    if rows.len() == 0 {
        builder
    } else {
        batch_added(builder, rows, existing_aggregates(rows))
    }
}

/// The error for a content root whose path cannot be joined to the table root.
pub open spec fn content_root_unlocatable(cause: Seq<char>) -> ErrorModel {
    generic("Failed to parse content root URL: "@ + cause)
}

/// The text of the URL of a content root under a table root.
pub open spec fn content_root_location(table_root: LocationModel, path: Seq<char>) -> Result<
    Seq<char>,
    ErrorModel,
> {
    match table_root.join(path) {
        Ok(url) => Ok(url),
        Err(cause) => Err(content_root_unlocatable(cause)),
    }
}

/// What clearing the root does to a builder.
pub open spec fn root_cleared(builder: BuilderModel) -> BuilderModel {
    BuilderModel {
        entries: builder.entries.filter(|entry: EntryModel| is_leaf_reference(entry)),
        caches: builder.caches.remove_keys(plain_locations(builder.entries)),
        seen: Set::empty(),
        batches: Seq::empty(),
        aggregates: Seq::empty(),
        ..builder
    }
}

/// One entry more has one location more, where it does not refer to a leaf manifest.
proof fn lemma_plain_locations_step(entries: Seq<EntryModel>, i: int)
    requires
        0 <= i < entries.len(),
    ensures
        plain_locations(entries.take(i + 1)) == (if !is_leaf_reference(entries[i])
            && entries[i].location is Some {
            plain_locations(entries.take(i)).insert(entries[i].location->Some_0)
        } else {
            plain_locations(entries.take(i))
        }),
{
    let before = plain_locations(entries.take(i));
    let after = plain_locations(entries.take(i + 1));
    assert forall|location: Seq<char>| before.contains(location) implies after.contains(
        location,
    ) by {
        let j = choose|j: int|
            0 <= j < i && (#[trigger] entries.take(i)[j]).location == Some(location)
                && !is_leaf_reference(entries.take(i)[j]);
        assert(entries.take(i + 1)[j] == entries.take(i)[j]);
    }
    assert forall|location: Seq<char>| after.contains(location) implies before.contains(location)
        || (!is_leaf_reference(entries[i]) && entries[i].location == Some(location)) by {
        let j = choose|j: int|
            0 <= j < i + 1 && (#[trigger] entries.take(i + 1)[j]).location == Some(location)
                && !is_leaf_reference(entries.take(i + 1)[j]);
        if j < i {
            assert(entries.take(i)[j] == entries.take(i + 1)[j]);
        }
    }
    if !is_leaf_reference(entries[i]) && entries[i].location is Some {
        assert(entries.take(i + 1)[i].location == entries[i].location);
        assert(after =~= before.insert(entries[i].location->Some_0));
    } else {
        assert(after =~= before);
    }
}

/// What a change of a deletion vector does to a builder.
pub open spec fn dv_updated(
    builder: BuilderModel,
    path: Seq<char>,
    dv: Option<DvModel>,
) -> BuilderModel {
    let at = live_file_index(builder.entries, path, 0);
    if at < builder.entries.len() {
        BuilderModel {
            entries: builder.entries.update(
                at,
                EntryModel { deletion_vector: dv, ..builder.entries[at] },
            ),
            ..builder
        }
    } else {
        builder
    }
}

/// What marking the entries at a path does to a builder.
pub open spec fn entries_marked_deleted(
    builder: BuilderModel,
    path: Option<Seq<char>>,
    snapshot_id: i64,
) -> BuilderModel {
    BuilderModel {
        entries: Seq::new(
            builder.entries.len(),
            |i: int| marked_deleted(builder.entries[i], path, snapshot_id),
        ),
        ..builder
    }
}

/// Every cache is coherent.
pub open spec fn caches_coherent(caches: Map<Seq<char>, CacheModel>) -> bool {
    forall|key: Seq<char>| #[trigger] caches.contains_key(key) ==> caches[key].coherent()
}

/// Converts a length to a 32-bit file count.
pub fn file_count_from_len(len: usize) -> (count: DeltaResult<i32>)
    ensures
        match count {
            Ok(n) => n == len,
            Err(e) => len > i32::MAX && e@ == file_count_overflow(len as int),
        },
{
    if len > i32::MAX as usize {
        let mut message = "file count ".to_owned();
        message.append(unsigned_text(len as u64).as_str());
        message.append(" exceeds i32::MAX");
        Err(Error::generic(message))
    } else {
        Ok(len as i32)
    }
}

/// Adds up the record counts of transformed rows.
#[derive(Debug)]
pub struct TransformedAggregateVisitor {
    pub total_record_count: i64,
}

impl TransformedAggregateVisitor {
    /// A visitor that has seen no rows.
    pub fn new() -> (visitor: Self)
        ensures
            visitor.total_record_count == 0,
    {
        TransformedAggregateVisitor { total_record_count: 0 }
    }

    /// The columns that the visitor reads.
    pub fn selected_column_names_and_types(&self) -> (columns: SelectedColumns)
        ensures
            columns.wf(),
            columns@ == Seq::empty().push(("recordCount"@, long_type())),
    {
        SelectedColumns::new().with("recordCount", DataType::long())
    }

    /// Adds the record counts of the rows.
    pub fn visit(&mut self, rows: &Vec<ContentTreeNodeEntry>)
        requires
            forall|n: int|
                0 <= n <= rows@.len() ==> is_i64(
                    old(self).total_record_count + #[trigger] record_sum(entry_models(rows@), n),
                ),
        ensures
            final(self).total_record_count == old(self).total_record_count + record_sum(
                entry_models(rows@),
                rows@.len() as int,
            ),
    {
        let ghost models = entry_models(rows@);
        let ghost start = self.total_record_count;
        let mut i: usize = 0;
        while i < rows.len()
            invariant
                i <= rows@.len(),
                models == entry_models(rows@),
                forall|n: int|
                    0 <= n <= rows@.len() ==> is_i64(start + #[trigger] record_sum(models, n)),
                self.total_record_count == start + record_sum(models, i as int),
            decreases rows@.len() - i,
        {
            assert(is_i64(start + record_sum(models, i + 1)));
            self.total_record_count = self.total_record_count + rows[i].record_count;
            i += 1;
        }
    }
}

/// Adds up the record counts of the rows of a batch.
pub fn total_record_count(rows: &Vec<ContentTreeNodeEntry>) -> (total: i64)
    requires
        record_sum_fits(entry_models(rows@)),
    ensures
        total == record_sum(entry_models(rows@), rows@.len() as int),
{
    let mut visitor = TransformedAggregateVisitor::new();
    visitor.visit(rows);
    visitor.total_record_count
}

/// What a builder holds, in numbers.
#[derive(Clone, Copy, Debug, PartialEq, Eq, Structural)]
pub struct BuilderSummary {
    pub pending_entries: usize,
    pub pre_built_data: usize,
    pub dv_cache_count: usize,
    pub dv_cache_dirty_count: usize,
}

/// The keys of the dirty caches.
pub open spec fn dirty_keys(caches: Map<Seq<char>, CacheModel>) -> Set<Seq<char>> {
    caches.dom().filter(|key: Seq<char>| caches[key].dirty)
}

/// The keys of the dirty caches among the first `n` keys of an order.
spec fn first_dirty(
    caches: Map<Seq<char>, CacheModel>,
    order: Seq<Seq<char>>,
    n: int,
) -> Set<Seq<char>> {
    order.take(n).to_set().filter(|key: Seq<char>| caches[key].dirty)
}

/// One key more in an order is one dirty key more where its cache is dirty.
proof fn lemma_first_dirty_step(
    caches: Map<Seq<char>, CacheModel>,
    order: Seq<Seq<char>>,
    n: int,
)
    requires
        0 <= n < order.len(),
        order.no_duplicates(),
        first_dirty(caches, order, n).finite(),
    ensures
        first_dirty(caches, order, n + 1).finite(),
        first_dirty(caches, order, n + 1).len() == first_dirty(caches, order, n).len() + (
        if caches[order[n]].dirty {
            1nat
        } else {
            0nat
        }),
{
    let before = first_dirty(caches, order, n);
    let after = first_dirty(caches, order, n + 1);
    assert(order.take(n + 1) =~= order.take(n).push(order[n]));
    order.take(n).lemma_push_to_set_commute(order[n]);
    assert(!order.take(n).contains(order[n])) by {
        if order.take(n).contains(order[n]) {
            let i = choose|i: int| 0 <= i < n && order.take(n)[i] == order[n];
            assert(order[i] == order[n]);
        }
    }
    if caches[order[n]].dirty {
        assert(after =~= before.insert(order[n]));
    } else {
        assert(after =~= before);
    }
}

impl ContentTreeNodeBuilder {
    /// The invariant of a builder: the index of its caches agrees with them, each cache is
    /// coherent, and the totals of its batches are those of their rows.
    pub open spec fn wf(&self) -> bool {
        &&& self.dv_cache.wf()
        &&& caches_coherent(self@.caches)
        &&& batches_totaled(self@.batches, self@.aggregates)
    }

    /// A builder that holds nothing.
    pub fn new_for(table_root: Url, version: Version, table_schema: StructType) -> (builder: Self)
        ensures
            builder.wf(),
            builder@ == empty_builder(location(table_root), version, table_schema.view()),
    {
        let builder = ContentTreeNodeBuilder {
            table_root,
            pending_entries: Vec::new(),
            version,
            table_schema,
            partition_type: None,
            values_seen: StringHashSet::new(),
            dv_cache: StringMap::new(),
            pre_built_data: Vec::new(),
            pre_built_aggregates: Vec::new(),
        };
        assert(builder@ =~= empty_builder(location(table_root), version, table_schema.view()));
        builder
    }

    /// Sets the partition type.
    pub fn with_partition_type(self, partition_type: Option<StructType>) -> (builder: Self)
        requires
            self.wf(),
        ensures
            builder.wf(),
            builder@ == (BuilderModel {
                partition_type: viewed(partition_type),
                ..self@
            }),
    {
        let mut builder = self;
        builder.partition_type = partition_type;
        builder
    }

    /// Adds an entry as it is, but for the bitmaps of the last commit that a manifest entry
    /// may carry: the new commit starts without.
    pub fn add_entry(&mut self, entry: ContentTreeNodeEntry)
        requires
            old(self).wf(),
        ensures
            final(self).wf(),
            final(self)@ == entry_added(old(self)@, entry@),
    {
        let mut added = entry;
        if added.is_manifest() {
            if let Some(location) = clone_text(&added.location) {
                let cache = match &added.manifest_info {
                    Some(info) => DvCache::new(
                        clone_contents(&info.dv),
                        true,
                        info.total_entry_count(),
                    ),
                    None => DvCache::new(None, false, 0),
                };
                let ghost caches = self.dv_cache@;
                self.dv_cache.insert(location, cache);
                assert(cache_models(self.dv_cache@) =~= cache_models(caches).insert(
                    location@,
                    cache@,
                ));
                added.tracking.deleted_positions = None;
                added.tracking.replaced_positions = None;
            }
        }
        self.pending_entries.push(added);
        assert(entry_models(self.pending_entries@) =~= old(self)@.entries.push(added@));
    }

    /// Masks positions of a leaf manifest.
    ///
    /// # Errors
    ///
    /// Fails if the builder holds no leaf manifest at the path, if a position is out of
    /// bounds, if the entry has no manifest info, or if the masked positions of earlier
    /// commits cannot be read.
    pub fn update_leaf_positions(
        &mut self,
        leaf_file_path: &str,
        indices: &RoaringTreemap,
        update_kind: LeafPositionUpdate,
    ) -> (updated: DeltaResult<()>)
        requires
            old(self).wf(),
        ensures
            final(self).wf(),
            match updated {
                Ok(_) => leaf_positions_updated(
                    old(self)@,
                    leaf_file_path@,
                    positions(*indices),
                    update_kind,
                ) == Ok::<BuilderModel, ErrorModel>(final(self)@),
                Err(e) => leaf_positions_updated(
                    old(self)@,
                    leaf_file_path@,
                    positions(*indices),
                    update_kind,
                ) == Err::<BuilderModel, ErrorModel>(e@) && final(self)@ == old(self)@,
            },
    {
        let ghost caches = self.dv_cache@;
        let max = largest_position(indices);
        proof {
            if let Some(m) = max {
                let set = positions(*indices);
                assert(set.contains(m));
                assert(set != Set::<u64>::empty());
                assert(largest(set) == m) by {
                    assert(set.contains(m) && forall|p: u64| set.contains(p) ==> p <= m);
                    let l = largest(set);
                    assert(set.contains(l) && forall|p: u64| set.contains(p) ==> p <= l);
                }
            }
        }
        match self.ensure_dv_cache_exists(leaf_file_path) {
            Ok(_) => {},
            Err(e) => {
                return Err(e);
            },
        }
        match self.dv_cache.get_mut(leaf_file_path) {
            None => Ok(()),
            Some(cache) => {
                if let Some(max_index) = max {
                    if max_index >= cache.total_entry_count as u64 {
                        let mut message = "Index ".to_owned();
                        message.append(unsigned_text(max_index).as_str());
                        message.append(" out of bounds (total entries: ");
                        message.append(signed_text(cache.total_entry_count).as_str());
                        message.append(")");
                        proof {
                            assert(caches.insert(leaf_file_path@, *cache) =~= caches);
                        }
                        return Err(Error::generic(message));
                    }
                }
                if !cache.described {
                    let mut message = "Manifest entry has no manifest_info: ".to_owned();
                    message.append(leaf_file_path);
                    proof {
                        assert(caches.insert(leaf_file_path@, *cache) =~= caches);
                    }
                    return Err(Error::generic(message));
                }
                let ghost cached = cache@;
                let updated = cache.apply_position_update(indices, update_kind);
                proof {
                    assert(cache_models(caches).contains_key(leaf_file_path@));
                    lemma_update_coherent(cached, positions(*indices), update_kind);
                    assert(cache_models(caches.insert(leaf_file_path@, *cache)) =~= cache_models(
                        caches,
                    ).insert(leaf_file_path@, cache@));
                    if updated is Err {
                        assert(cache_models(caches).insert(leaf_file_path@, cache@)
                            =~= cache_models(caches));
                    }
                }
                updated
            },
        }
    }

    /// Takes out the data file at `file_path`, for entries that move from the root to a leaf.
    pub fn remove_data_file(&mut self, file_path: &str) -> (removed: DeltaResult<()>)
        requires
            old(self).wf(),
        ensures
            final(self).wf(),
            removed is Ok,
            final(self)@ == (BuilderModel {
                entries: old(self)@.entries.filter(
                    |entry: EntryModel| !is_data_file_at(entry, file_path@),
                ),
                caches: old(self)@.caches.remove(file_path@),
                seen: old(self)@.seen.remove(file_path@),
                ..old(self)@
            }),
    {
        let ghost before = self@.entries;
        let ghost keep = |entry: EntryModel| !is_data_file_at(entry, file_path@);
        let mut entries: Vec<ContentTreeNodeEntry> = Vec::new();
        entries.append(&mut self.pending_entries);
        let mut kept: Vec<ContentTreeNodeEntry> = Vec::new();
        proof {
            lemma_filter_ends(before, keep);
        }
        for entry in iter: entries
            invariant
                entry_models(iter.seq()) == before,
                keep == |entry: EntryModel| !is_data_file_at(entry, file_path@),
                entry_models(kept@) == before.take(iter.index() as int).filter(keep),
        {
            proof {
                lemma_filter_step(before, keep, iter.index() as int);
                assert(before[iter.index() as int] == entry@);
            }
            let ghost so_far = kept@;
            let is_data_file = entry.is_at(file_path) && entry.content_type
                == DataContentType::Data;
            if !is_data_file {
                kept.push(entry);
                assert(entry_models(kept@) =~= entry_models(so_far).push(entry@));
            }
        }
        self.pending_entries = kept;
        let ghost caches = self.dv_cache@;
        self.dv_cache.remove(file_path);
        assert(cache_models(self.dv_cache@) =~= cache_models(caches).remove(file_path@));
        self.values_seen.remove(file_path);
        Ok(())
    }

    /// Takes out every entry at `dv_identifier`, for deletion vectors that move from the root
    /// to a leaf.
    pub fn remove_dv(&mut self, dv_identifier: &str) -> (removed: DeltaResult<()>)
        requires
            old(self).wf(),
        ensures
            final(self).wf(),
            removed is Ok,
            final(self)@ == (BuilderModel {
                entries: old(self)@.entries.filter(
                    |entry: EntryModel| entry.location != Some(dv_identifier@),
                ),
                caches: old(self)@.caches.remove(dv_identifier@),
                seen: old(self)@.seen.remove(dv_identifier@),
                ..old(self)@
            }),
    {
        let ghost before = self@.entries;
        let ghost keep = |entry: EntryModel| entry.location != Some(dv_identifier@);
        let mut entries: Vec<ContentTreeNodeEntry> = Vec::new();
        entries.append(&mut self.pending_entries);
        let mut kept: Vec<ContentTreeNodeEntry> = Vec::new();
        proof {
            lemma_filter_ends(before, keep);
        }
        for entry in iter: entries
            invariant
                entry_models(iter.seq()) == before,
                keep == |entry: EntryModel| entry.location != Some(dv_identifier@),
                entry_models(kept@) == before.take(iter.index() as int).filter(keep),
        {
            proof {
                lemma_filter_step(before, keep, iter.index() as int);
                assert(before[iter.index() as int] == entry@);
            }
            let ghost so_far = kept@;
            if !entry.is_at(dv_identifier) {
                kept.push(entry);
                assert(entry_models(kept@) =~= entry_models(so_far).push(entry@));
            }
        }
        self.pending_entries = kept;
        let ghost caches = self.dv_cache@;
        self.dv_cache.remove(dv_identifier);
        assert(cache_models(self.dv_cache@) =~= cache_models(caches).remove(dv_identifier@));
        self.values_seen.remove(dv_identifier);
        Ok(())
    }

    /// Takes out everything but the references to leaf manifests.
    ///
    /// Used where the client takes control of what stands in the root: it adds the files to
    /// leaves again.
    pub fn clear_root_data_and_dv_entries(&mut self)
        requires
            old(self).wf(),
        ensures
            final(self).wf(),
            final(self)@ == root_cleared(old(self)@),
    {
        let ghost before = self@.entries;
        let ghost caches = self@.caches;
        let ghost keep = |entry: EntryModel| is_leaf_reference(entry);
        let mut entries: Vec<ContentTreeNodeEntry> = Vec::new();
        entries.append(&mut self.pending_entries);
        let mut kept: Vec<ContentTreeNodeEntry> = Vec::new();
        let ghost emptied = self@;
        proof {
            lemma_filter_ends(before, keep);
            assert(caches.remove_keys(plain_locations(before.take(0))) =~= caches);
        }
        for entry in iter: entries
            invariant
                self.dv_cache.wf(),
                entry_models(iter.seq()) == before,
                keep == |entry: EntryModel| is_leaf_reference(entry),
                entry_models(kept@) == before.take(iter.index() as int).filter(keep),
                cache_models(self.dv_cache@) == caches.remove_keys(
                    plain_locations(before.take(iter.index() as int)),
                ),
                self@ == (BuilderModel { caches: self@.caches, ..emptied }),
        {
            proof {
                lemma_filter_step(before, keep, iter.index() as int);
                assert(before[iter.index() as int] == entry@);
                lemma_plain_locations_step(before, iter.index() as int);
            }
            let ghost so_far = kept@;
            let keeps = match entry.content_type {
                DataContentType::DataManifest => true,
                DataContentType::DeleteManifest => true,
                DataContentType::ManifestDv => true,
                _ => false,
            };
            if keeps {
                kept.push(entry);
                assert(entry_models(kept@) =~= entry_models(so_far).push(entry@));
            } else if let Some(location) = &entry.location {
                let ghost cached = self.dv_cache@;
                self.dv_cache.remove(location.as_str());
                assert(cache_models(self.dv_cache@) =~= cache_models(cached).remove(location@));
            }
            assert(cache_models(self.dv_cache@) =~= caches.remove_keys(
                plain_locations(before.take(iter.index() + 1)),
            ));
        }
        self.pending_entries = kept;
        self.values_seen.clear();
        self.pre_built_data.clear();
        self.pre_built_aggregates.clear();
        assert(self@ =~= root_cleared(old(self)@));
    }

    /// Changes the deletion vector of the live data file at `file_path`, and nothing else of
    /// it. Returns whether there is such a file.
    pub fn update_dv(&mut self, file_path: &str, new_dv: Option<DeletionVectorInfo>) -> (found: bool)
        requires
            old(self).wf(),
        ensures
            final(self).wf(),
            ({
                let at = live_file_index(old(self)@.entries, file_path@, 0);
                &&& found == (at < old(self)@.entries.len())
                &&& final(self)@ == dv_updated(old(self)@, file_path@, viewed(new_dv))
            }),
    {
        let mut i: usize = 0;
        while i < self.pending_entries.len()
            invariant
                self.wf(),
                *self == *old(self),
                i <= self.pending_entries@.len(),
                live_file_index(self@.entries, file_path@, 0) == live_file_index(
                    self@.entries,
                    file_path@,
                    i as int,
                ),
            decreases self.pending_entries@.len() - i,
        {
            if self.pending_entries[i].is_at(file_path) && self.pending_entries[i].content_type
                == DataContentType::Data && self.pending_entries[i].tracking.status
                != TrackingStatus::Deleted {
                self.pending_entries[i].deletion_vector = new_dv;
                assert(self@.entries =~= dv_updated(
                    old(self)@,
                    file_path@,
                    viewed(new_dv),
                ).entries);
                return true;
            }
            i += 1;
        }
        false
    }

    /// Marks the entries at a path as deleted in the given snapshot. The path is `file_path`,
    /// or `dv_path` where there is no file path.
    pub fn mark_deleted(
        &mut self,
        file_path: Option<&str>,
        dv_path: Option<&str>,
        snapshot_id: i64,
    ) -> (marked: DeltaResult<()>)
        requires
            old(self).wf(),
        ensures
            final(self).wf(),
            marked is Ok,
            final(self)@ == entries_marked_deleted(
                old(self)@,
                match (file_path, dv_path) {
                    (Some(path), _) => Some(path@),
                    (None, Some(path)) => Some(path@),
                    (None, None) => None,
                },
                snapshot_id,
            ),
    {
        let ghost before = self@;
        let path: Option<&str> = match file_path {
            Some(path) => Some(path),
            None => dv_path,
        };
        let ghost wanted: Option<Seq<char>> = match path {
            Some(p) => Some(p@),
            None => None,
        };
        let mut i: usize = 0;
        while i < self.pending_entries.len()
            invariant
                self.wf(),
                i <= self.pending_entries@.len(),
                self.pending_entries@.len() == before.entries.len(),
                wanted == (match path {
                    Some(p) => Some(p@),
                    None => None,
                }),
                self@ == (BuilderModel { entries: self@.entries, ..before }),
                forall|j: int|
                    0 <= j < i ==> (#[trigger] self.pending_entries@[j])@ == marked_deleted(
                        before.entries[j],
                        wanted,
                        snapshot_id,
                    ),
                forall|j: int|
                    i <= j < before.entries.len() ==> (#[trigger] self.pending_entries@[j])@
                        == before.entries[j],
            decreases self.pending_entries@.len() - i,
        {
            let matches = match path {
                Some(p) => self.pending_entries[i].is_at(p),
                None => false,
            };
            if matches {
                self.pending_entries[i].tracking.status = TrackingStatus::Deleted;
                self.pending_entries[i].tracking.snapshot_id = Some(snapshot_id);
            }
            i += 1;
        }
        assert(self@ =~= entries_marked_deleted(before, wanted, snapshot_id));
        Ok(())
    }

    /// What the builder holds, in numbers.
    pub fn summary(&self) -> (summary: BuilderSummary)
        requires
            self.wf(),
        ensures
            summary.pending_entries == self@.entries.len(),
            summary.pre_built_data == self@.batches.len(),
            summary.dv_cache_count == self@.caches.dom().len(),
            summary.dv_cache_dirty_count == dirty_keys(self@.caches).len(),
    {
        let ghost order = self.dv_cache.order();
        proof {
            self.dv_cache.lemma_order();
            assert(order.to_set() =~= self@.caches.dom());
            order.unique_seq_to_set();
            assert(first_dirty(self@.caches, order, 0) =~= Set::empty());
        }
        let mut dirty: usize = 0;
        let mut i: usize = 0;
        while i < self.dv_cache.len()
            invariant
                self.wf(),
                order == self.dv_cache.order(),
                order.no_duplicates(),
                forall|key: Seq<char>| #[trigger]
                    self.dv_cache@.contains_key(key) <==> order.contains(key),
                i <= order.len(),
                dirty <= i,
                first_dirty(self@.caches, order, i as int).finite(),
                dirty == first_dirty(self@.caches, order, i as int).len(),
            decreases order.len() - i,
        {
            let cache = self.dv_cache.value(i);
            proof {
                assert(order.contains(order[i as int]));
                assert(self@.caches[order[i as int]] == cache@);
                lemma_first_dirty_step(self@.caches, order, i as int);
            }
            if cache.dirty {
                dirty += 1;
            }
            i += 1;
        }
        proof {
            assert(order.take(order.len() as int) =~= order);
            assert(first_dirty(self@.caches, order, order.len() as int) =~= dirty_keys(
                self@.caches,
            ));
        }
        BuilderSummary {
            pending_entries: self.pending_entries.len(),
            pre_built_data: self.pre_built_data.len(),
            dv_cache_count: self.dv_cache.len(),
            dv_cache_dirty_count: dirty,
        }
    }

    /// Makes sure that the builder holds a leaf manifest at a location.
    pub fn ensure_dv_cache_exists(&self, manifest_location: &str) -> (exists_there: DeltaResult<()>)
        requires
            self.wf(),
        ensures
            match exists_there {
                Ok(_) => self@.caches.contains_key(manifest_location@),
                Err(e) => !self@.caches.contains_key(manifest_location@) && e@ == leaf_unknown(
                    manifest_location@,
                ),
            },
    {
        if self.dv_cache.contains_key(manifest_location) {
            return Ok(());
        }
        let mut message = "Manifest cache not found at location: ".to_owned();
        message.append(manifest_location);
        message.append(". This is a bug.");
        Err(Error::generic(message))
    }

    /// Whether the builder holds any entries.
    pub fn has_entries(&self) -> (has: bool)
        ensures
            has == (self@.entries.len() > 0 || self@.batches.len() > 0),
    {
        !self.pending_entries.is_empty() || !self.pre_built_data.is_empty()
    }

    /// Whether the builder holds a leaf manifest at `path`.
    pub fn has_leaf_manifest(&self, path: &str) -> (has: bool)
        requires
            self.wf(),
        ensures
            has == self@.caches.contains_key(path@),
    {
        self.dv_cache.contains_key(path)
    }

    /// A builder with the entries that were read from a content root. Entries that another
    /// version added are there already.
    pub fn from_content_root(
        entries: Vec<ContentTreeNodeEntry>,
        table_root: Url,
        table_schema: StructType,
        new_version: Version,
        partition_type: Option<StructType>,
    ) -> (builder: Self)
        ensures
            builder.wf(),
            builder@ == loaded_builder(
                entry_models(entries@),
                location(table_root),
                table_schema.view(),
                new_version,
                viewed(partition_type),
            ),
            builder@.table_root == location(table_root),
            builder@.table_schema == table_schema.view(),
            builder@.version == new_version,
            builder@.partition_type == viewed(partition_type),
            builder@.entries.len() == entries@.len(),
    {
        let ghost read = entry_models(entries@);
        let ghost carried = carried_entries(read, new_version);
        let mut builder = Self::new_for(table_root, new_version, table_schema).with_partition_type(
            partition_type,
        );
        let ghost start = builder@;
        for entry in iter: entries
            invariant
                builder.wf(),
                entry_models(iter.seq()) == read,
                carried == carried_entries(read, new_version),
                builder@ == entries_added(start, carried, iter.index() as int),
        {
            assert(read[iter.index() as int] == entry@);
            let stale = match entry.tracking.status {
                TrackingStatus::Added => match entry.tracking.sequence_number {
                    Some(seq) => seq != new_version as i64,
                    None => true,
                },
                _ => false,
            };
            if stale {
                builder.add_entry(entry.with_status(TrackingStatus::Existing));
            } else {
                builder.add_entry(entry);
            }
        }
        proof {
            law_added_entries_change_entries_alone(
                start,
                carried,
                read.len() as int,
                Seq::empty(),
            );
        }
        builder
    }

    /// Adds a batch of rows that were made from log actions.
    pub fn add_pre_built_log_batch(&mut self, rows: Vec<ContentTreeNodeEntry>) -> (added: DeltaResult<
        (),
    >)
        requires
            old(self).wf(),
            record_sum_fits(entry_models(rows@)),
        ensures
            final(self).wf(),
            match added {
                Ok(_) => final(self)@ == existing_rows_added(old(self)@, entry_models(rows@))
                    && rows@.len() <= i32::MAX,
                Err(e) => final(self)@ == old(self)@ && rows@.len() > i32::MAX && e@
                    == file_count_overflow(rows@.len() as int),
            },
    {
        if rows.is_empty() {
            return Ok(());
        }
        self.add_existing_rows(rows)
    }

    /// Adds a batch of rows of files that were there before, even where it has no rows.
    pub(crate) fn add_existing_rows(&mut self, rows: Vec<ContentTreeNodeEntry>) -> (added: DeltaResult<()>)
        requires
            old(self).wf(),
            record_sum_fits(entry_models(rows@)),
        ensures
            final(self).wf(),
            match added {
                Ok(_) => final(self)@ == batch_added(
                    old(self)@,
                    entry_models(rows@),
                    existing_aggregates(entry_models(rows@)),
                ) && rows@.len() <= i32::MAX,
                Err(e) => final(self)@ == old(self)@ && rows@.len() > i32::MAX && e@
                    == file_count_overflow(rows@.len() as int),
            },
    {
        let total = total_record_count(&rows);
        let count = match file_count_from_len(rows.len()) {
            Ok(count) => count,
            Err(e) => {
                return Err(e);
            },
        };
        let ghost models = entry_models(rows@);
        assert(is_i64(record_sum(models, models.len() as int)));
        self.pre_built_data.push(rows);
        self.pre_built_aggregates.push(
            BatchAggregates {
                added_file_count: 0,
                existing_file_count: count,
                total_record_count: total,
            },
        );
        assert(self@ =~= batch_added(old(self)@, models, existing_aggregates(models)));
        proof {
            lemma_batch_totaled(old(self)@, models, existing_aggregates(models));
        }
        Ok(())
    }
}

/// The URL of the content root at `path` under a table root.
pub fn content_root_url(table_root: &Url, path: &str) -> (url: DeltaResult<Url>)
    ensures
        content_root_location(location(*table_root), path@) == match url {
            Ok(u) => Ok::<Seq<char>, ErrorModel>(location(u).text),
            Err(e) => Err::<Seq<char>, ErrorModel>(e@),
        },
        url matches Ok(u) ==> joined_url(*table_root, path@) == Ok::<LocationModel, Seq<char>>(
            location(u),
        ),
{
    match join_url(table_root, path) {
        Ok(url) => Ok(url),
        Err(cause) => {
            let mut message = "Failed to parse content root URL: ".to_owned();
            message.append(cause.as_str());
            Err(Error::generic(message))
        },
    }
}

} // verus!
