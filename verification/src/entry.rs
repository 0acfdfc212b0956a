//! Entries of the nodes of a metadata tree, with their mathematical models.

use bytes::Bytes;
use vstd::prelude::*;

use crate::buffer::{clone_buffer, contents};
use crate::deletion_vector::{DeletionVectorInfo, DvModel};
use crate::error::viewed;
use crate::expression::{StructData, StructDataModel};

verus! {

/// What an entry stands for.
#[derive(Clone, Copy, Debug, PartialEq, Eq, Structural)]
pub enum DataContentType {
    /// A data file.
    Data,
    /// A file of deleted positions.
    PositionDeletes,
    /// A file of deleted keys.
    EqualityDeletes,
    /// A leaf manifest of data files.
    DataManifest,
    /// A leaf manifest of delete files.
    DeleteManifest,
    /// A deletion vector over a leaf manifest.
    ManifestDv,
}

impl DataContentType {
    /// The number that stands for the content type in a manifest.
    pub open spec fn number(self) -> i32 {
        match self {
            DataContentType::Data => 0,
            DataContentType::PositionDeletes => 1,
            DataContentType::EqualityDeletes => 2,
            DataContentType::DataManifest => 3,
            DataContentType::DeleteManifest => 4,
            DataContentType::ManifestDv => 5,
        }
    }

    /// The number that stands for the content type in a manifest.
    pub fn as_number(self) -> (number: i32)
        ensures
            number == self.number(),
    {
        match self {
            DataContentType::Data => 0,
            DataContentType::PositionDeletes => 1,
            DataContentType::EqualityDeletes => 2,
            DataContentType::DataManifest => 3,
            DataContentType::DeleteManifest => 4,
            DataContentType::ManifestDv => 5,
        }
    }
}

/// What the current commit did to an entry.
#[derive(Clone, Copy, Debug, PartialEq, Eq, Structural)]
pub enum TrackingStatus {
    /// The entry was there before.
    Existing,
    /// The entry is new.
    Added,
    /// The entry was taken out.
    Deleted,
    /// The entry gave way to another version of its file.
    Replaced,
    /// The entry is live and its deletion vector changed.
    Modified,
}

impl TrackingStatus {
    /// The number that stands for the status in a manifest.
    pub open spec fn number(self) -> i32 {
        match self {
            TrackingStatus::Existing => 0,
            TrackingStatus::Added => 1,
            TrackingStatus::Deleted => 2,
            TrackingStatus::Replaced => 3,
            TrackingStatus::Modified => 4,
        }
    }

    /// The number that stands for the status in a manifest.
    pub fn as_number(self) -> (number: i32)
        ensures
            number == self.number(),
    {
        match self {
            TrackingStatus::Existing => 0,
            TrackingStatus::Added => 1,
            TrackingStatus::Deleted => 2,
            TrackingStatus::Replaced => 3,
            TrackingStatus::Modified => 4,
        }
    }
}

/// How an entry came to be in its present state.
#[derive(Debug, PartialEq, Eq)]
pub struct TrackingInfo {
    pub status: TrackingStatus,
    pub snapshot_id: Option<i64>,
    pub sequence_number: Option<i64>,
    pub file_sequence_number: Option<i64>,
    pub first_row_id: Option<i64>,
    pub dv_snapshot_id: Option<i64>,
    /// The positions of a leaf manifest that the commit deleted, as a framed bitmap.
    pub deleted_positions: Option<Bytes>,
    /// The positions of a leaf manifest that the commit replaced, as a framed bitmap.
    pub replaced_positions: Option<Bytes>,
}

/// What a manifest entry says of the manifest.
#[derive(Debug, PartialEq, Eq)]
pub struct ManifestInfo {
    pub added_files_count: i32,
    pub existing_files_count: i32,
    pub deleted_files_count: i32,
    pub replaced_files_count: i32,
    pub added_rows_count: i64,
    pub existing_rows_count: i64,
    pub deleted_rows_count: i64,
    pub replaced_rows_count: i64,
    pub min_sequence_number: i64,
    /// The positions that are masked, as a framed bitmap.
    pub dv: Option<Bytes>,
    /// The number of masked positions.
    pub dv_cardinality: Option<i64>,
}

/// A tag of a file.
#[derive(Debug, PartialEq, Eq)]
pub struct Tag {
    pub key: String,
    pub value: String,
}

/// The tags of a file.
#[derive(Debug, PartialEq, Eq)]
pub struct Tags {
    pub items: Vec<Tag>,
}

/// An entry of a node: a data file, a delete file or a reference to a leaf manifest.
#[derive(Debug, PartialEq, Eq)]
pub struct ContentTreeNodeEntry {
    pub content_type: DataContentType,
    pub location: Option<String>,
    pub tracking: TrackingInfo,
    pub deletion_vector: Option<DeletionVectorInfo>,
    pub partition: Option<StructData>,
    pub record_count: i64,
    pub file_size_in_bytes: i64,
    pub content_stats: Option<StructData>,
    pub manifest_info: Option<ManifestInfo>,
    pub tags: Option<Tags>,
}

/// The model of a [`TrackingInfo`].
#[verifier::ext_equal]
pub ghost struct TrackingModel {
    pub status: TrackingStatus,
    pub snapshot_id: Option<i64>,
    pub sequence_number: Option<i64>,
    pub file_sequence_number: Option<i64>,
    pub first_row_id: Option<i64>,
    pub dv_snapshot_id: Option<i64>,
    pub deleted_positions: Option<Seq<u8>>,
    pub replaced_positions: Option<Seq<u8>>,
}

/// The model of a [`ManifestInfo`].
#[verifier::ext_equal]
pub ghost struct ManifestModel {
    pub added_files_count: i32,
    pub existing_files_count: i32,
    pub deleted_files_count: i32,
    pub replaced_files_count: i32,
    pub added_rows_count: i64,
    pub existing_rows_count: i64,
    pub deleted_rows_count: i64,
    pub replaced_rows_count: i64,
    pub min_sequence_number: i64,
    pub dv: Option<Seq<u8>>,
    pub dv_cardinality: Option<i64>,
}

/// The model of a [`ContentTreeNodeEntry`].
#[verifier::ext_equal]
pub ghost struct EntryModel {
    pub content_type: DataContentType,
    pub location: Option<Seq<char>>,
    pub tracking: TrackingModel,
    pub deletion_vector: Option<DvModel>,
    pub partition: Option<StructDataModel>,
    pub record_count: i64,
    pub file_size_in_bytes: i64,
    pub content_stats: Option<StructDataModel>,
    pub manifest_info: Option<ManifestModel>,
    pub tags: Option<Seq<(Seq<char>, Seq<char>)>>,
}

/// The bytes of an optional buffer.
pub open spec fn optional_contents(buffer: Option<Bytes>) -> Option<Seq<u8>> {
    match buffer {
        Some(b) => Some(contents(b)),
        None => None,
    }
}

impl View for TrackingInfo {
    type V = TrackingModel;

    open spec fn view(&self) -> TrackingModel {
        TrackingModel {
            status: self.status,
            snapshot_id: self.snapshot_id,
            sequence_number: self.sequence_number,
            file_sequence_number: self.file_sequence_number,
            first_row_id: self.first_row_id,
            dv_snapshot_id: self.dv_snapshot_id,
            deleted_positions: optional_contents(self.deleted_positions),
            replaced_positions: optional_contents(self.replaced_positions),
        }
    }
}

impl View for ManifestInfo {
    type V = ManifestModel;

    open spec fn view(&self) -> ManifestModel {
        ManifestModel {
            added_files_count: self.added_files_count,
            existing_files_count: self.existing_files_count,
            deleted_files_count: self.deleted_files_count,
            replaced_files_count: self.replaced_files_count,
            added_rows_count: self.added_rows_count,
            existing_rows_count: self.existing_rows_count,
            deleted_rows_count: self.deleted_rows_count,
            replaced_rows_count: self.replaced_rows_count,
            min_sequence_number: self.min_sequence_number,
            dv: optional_contents(self.dv),
            dv_cardinality: self.dv_cardinality,
        }
    }
}

impl View for Tags {
    type V = Seq<(Seq<char>, Seq<char>)>;

    open spec fn view(&self) -> Seq<(Seq<char>, Seq<char>)> {
        Seq::new(self.items@.len(), |i: int| (self.items@[i].key@, self.items@[i].value@))
    }
}

impl View for ContentTreeNodeEntry {
    type V = EntryModel;

    open spec fn view(&self) -> EntryModel {
        EntryModel {
            content_type: self.content_type,
            location: viewed(self.location),
            tracking: self.tracking@,
            deletion_vector: viewed(self.deletion_vector),
            partition: viewed(self.partition),
            record_count: self.record_count,
            file_size_in_bytes: self.file_size_in_bytes,
            content_stats: viewed(self.content_stats),
            manifest_info: viewed(self.manifest_info),
            tags: viewed(self.tags),
        }
    }
}

/// The models of a list of entries.
pub open spec fn entry_models(entries: Seq<ContentTreeNodeEntry>) -> Seq<EntryModel> {
    Seq::new(entries.len(), |i: int| entries[i]@)
}

impl ManifestModel {
    /// The number of entries of the manifest, dead ones counted.
    pub open spec fn total_entry_count(self) -> int {
        self.added_files_count + self.existing_files_count + self.deleted_files_count
            + self.replaced_files_count
    }

    /// The number of live entries of the manifest.
    pub open spec fn active_entry_count(self) -> int {
        self.added_files_count + self.existing_files_count
    }
}

impl EntryModel {
    /// Whether the entry refers to a leaf manifest.
    pub open spec fn is_manifest(self) -> bool {
        self.content_type == DataContentType::DataManifest || self.content_type
            == DataContentType::DeleteManifest
    }

    /// The entry with another status.
    pub open spec fn with_status(self, status: TrackingStatus) -> EntryModel {
        EntryModel { tracking: TrackingModel { status, ..self.tracking }, ..self }
    }

    /// The entry with another first row id.
    pub open spec fn with_first_row_id(self, id: i64) -> EntryModel {
        EntryModel {
            tracking: TrackingModel { first_row_id: Some(id), ..self.tracking },
            ..self
        }
    }
}

impl ManifestInfo {
    /// The number of entries of the manifest, dead ones counted.
    pub fn total_entry_count(&self) -> (count: i64)
        ensures
            count == self@.total_entry_count(),
    {
        self.added_files_count as i64 + self.existing_files_count as i64
            + self.deleted_files_count as i64 + self.replaced_files_count as i64
    }

    /// The number of live entries of the manifest.
    pub fn active_entry_count(&self) -> (count: i64)
        ensures
            count == self@.active_entry_count(),
    {
        self.added_files_count as i64 + self.existing_files_count as i64
    }
}

impl Default for ManifestInfo {
    fn default() -> (info: Self)
        ensures
            info@ == empty_manifest(),
    {
        ManifestInfo {
            added_files_count: 0,
            existing_files_count: 0,
            deleted_files_count: 0,
            replaced_files_count: 0,
            added_rows_count: 0,
            existing_rows_count: 0,
            deleted_rows_count: 0,
            replaced_rows_count: 0,
            min_sequence_number: 0,
            dv: None,
            dv_cardinality: None,
        }
    }
}

/// What is said of a manifest without entries.
pub open spec fn empty_manifest() -> ManifestModel {
    ManifestModel {
        added_files_count: 0,
        existing_files_count: 0,
        deleted_files_count: 0,
        replaced_files_count: 0,
        added_rows_count: 0,
        existing_rows_count: 0,
        deleted_rows_count: 0,
        replaced_rows_count: 0,
        min_sequence_number: 0,
        dv: None,
        dv_cardinality: None,
    }
}

/// Copies an optional string.
pub fn clone_text(text: &Option<String>) -> (copy: Option<String>)
    ensures
        viewed(copy) == viewed(*text),
{
    match text {
        Some(t) => Some(t.clone()),
        None => None,
    }
}

/// Copies an optional buffer.
pub fn clone_contents(buffer: &Option<Bytes>) -> (copy: Option<Bytes>)
    ensures
        optional_contents(copy) == optional_contents(*buffer),
{
    match buffer {
        Some(b) => Some(clone_buffer(b)),
        None => None,
    }
}

/// Copies an optional struct value.
pub fn clone_struct(data: &Option<StructData>) -> (copy: Option<StructData>)
    ensures
        viewed(copy) == viewed(*data),
{
    match data {
        Some(d) => Some(d.clone()),
        None => None,
    }
}

impl Clone for TrackingInfo {
    fn clone(&self) -> (copy: Self)
        ensures
            copy@ == self@,
    {
        TrackingInfo {
            status: self.status,
            snapshot_id: self.snapshot_id,
            sequence_number: self.sequence_number,
            file_sequence_number: self.file_sequence_number,
            first_row_id: self.first_row_id,
            dv_snapshot_id: self.dv_snapshot_id,
            deleted_positions: clone_contents(&self.deleted_positions),
            replaced_positions: clone_contents(&self.replaced_positions),
        }
    }
}

impl Clone for ManifestInfo {
    fn clone(&self) -> (copy: Self)
        ensures
            copy@ == self@,
    {
        ManifestInfo {
            added_files_count: self.added_files_count,
            existing_files_count: self.existing_files_count,
            deleted_files_count: self.deleted_files_count,
            replaced_files_count: self.replaced_files_count,
            added_rows_count: self.added_rows_count,
            existing_rows_count: self.existing_rows_count,
            deleted_rows_count: self.deleted_rows_count,
            replaced_rows_count: self.replaced_rows_count,
            min_sequence_number: self.min_sequence_number,
            dv: clone_contents(&self.dv),
            dv_cardinality: self.dv_cardinality,
        }
    }
}

impl Clone for Tags {
    fn clone(&self) -> (copy: Self)
        ensures
            copy@ == self@,
    {
        let mut items: Vec<Tag> = Vec::new();
        let mut i: usize = 0;
        while i < self.items.len()
            invariant
                i <= self.items@.len(),
                items@.len() == i,
                forall|j: int|
                    0 <= j < i ==> (#[trigger] items@[j]).key@ == self.items@[j].key@
                        && items@[j].value@ == self.items@[j].value@,
            decreases self.items@.len() - i,
        {
            items.push(
                Tag { key: self.items[i].key.clone(), value: self.items[i].value.clone() },
            );
            i += 1;
        }
        let copy = Tags { items };
        assert(copy@ =~= self@);
        copy
    }
}

impl Clone for ContentTreeNodeEntry {
    fn clone(&self) -> (copy: Self)
        ensures
            copy@ == self@,
    {
        ContentTreeNodeEntry {
            content_type: self.content_type,
            location: clone_text(&self.location),
            tracking: self.tracking.clone(),
            deletion_vector: match &self.deletion_vector {
                Some(dv) => Some(dv.clone()),
                None => None,
            },
            partition: clone_struct(&self.partition),
            record_count: self.record_count,
            file_size_in_bytes: self.file_size_in_bytes,
            content_stats: clone_struct(&self.content_stats),
            manifest_info: match &self.manifest_info {
                Some(info) => Some(info.clone()),
                None => None,
            },
            tags: match &self.tags {
                Some(tags) => Some(tags.clone()),
                None => None,
            },
        }
    }
}

impl ContentTreeNodeEntry {
    /// Whether the entry refers to a leaf manifest.
    pub fn is_manifest(&self) -> (manifest: bool)
        ensures
            manifest == self@.is_manifest(),
    {
        match self.content_type {
            DataContentType::DataManifest => true,
            DataContentType::DeleteManifest => true,
            _ => false,
        }
    }

    /// Whether the entry is located at `path`.
    pub fn is_at(&self, path: &str) -> (at: bool)
        ensures
            at == (self@.location == Some(path@)),
    {
        match &self.location {
            Some(location) => *location == path.to_owned(),
            None => false,
        }
    }

    /// The entry with another status.
    pub fn with_status(self, status: TrackingStatus) -> (entry: ContentTreeNodeEntry)
        ensures
            entry@ == self@.with_status(status),
    {
        let mut entry = self;
        entry.tracking.status = status;
        entry
    }

    /// The framed bitmap of the masked positions of a manifest.
    pub fn manifest_dv_bytes(&self) -> (bytes: Option<&Bytes>)
        ensures
            match bytes {
                Some(b) => self@.manifest_info matches Some(info) && info.dv == Some(contents(*b)),
                None => self@.manifest_info matches Some(info) ==> info.dv is None,
            },
    {
        match &self.manifest_info {
            Some(info) => match &info.dv {
                Some(dv) => Some(dv),
                None => None,
            },
            None => None,
        }
    }
}

/// Copies a list of entries.
pub fn clone_entries(entries: &Vec<ContentTreeNodeEntry>) -> (copy: Vec<ContentTreeNodeEntry>)
    ensures
        entry_models(copy@) == entry_models(entries@),
{
    let mut copy: Vec<ContentTreeNodeEntry> = Vec::new();
    let mut i: usize = 0;
    while i < entries.len()
        invariant
            i <= entries@.len(),
            copy@.len() == i,
            forall|j: int| 0 <= j < i ==> (#[trigger] copy@[j])@ == entries@[j]@,
        decreases entries@.len() - i,
    {
        copy.push(entries[i].clone());
        i += 1;
    }
    assert(entry_models(copy@) =~= entry_models(entries@));
    copy
}

/// Makes entries step by step.
#[derive(Debug)]
pub struct ContentTreeNodeEntryBuilder {
    entry: ContentTreeNodeEntry,
}

impl View for ContentTreeNodeEntryBuilder {
    type V = EntryModel;

    closed spec fn view(&self) -> EntryModel {
        self.entry@
    }
}

/// The tracking info that an entry starts out with.
pub open spec fn fresh_tracking(
    status: TrackingStatus,
    sequence_number: Option<i64>,
    snapshot_id: Option<i64>,
) -> TrackingModel {
    TrackingModel {
        status,
        snapshot_id,
        sequence_number,
        file_sequence_number: sequence_number,
        first_row_id: None,
        dv_snapshot_id: None,
        deleted_positions: None,
        replaced_positions: None,
    }
}

/// The entry that a builder starts out with.
pub open spec fn fresh_entry(content_type: DataContentType) -> EntryModel {
    EntryModel {
        content_type,
        location: None,
        tracking: fresh_tracking(TrackingStatus::Existing, None, None),
        deletion_vector: None,
        partition: None,
        record_count: 0,
        file_size_in_bytes: 0,
        content_stats: None,
        manifest_info: None,
        tags: None,
    }
}

impl ContentTreeNodeEntryBuilder {
    /// Starts an entry.
    pub fn new(content_type: DataContentType) -> (builder: Self)
        ensures
            builder@ == fresh_entry(content_type),
    {
        ContentTreeNodeEntryBuilder {
            entry: ContentTreeNodeEntry {
                content_type,
                location: None,
                tracking: TrackingInfo {
                    status: TrackingStatus::Existing,
                    snapshot_id: None,
                    sequence_number: None,
                    file_sequence_number: None,
                    first_row_id: None,
                    dv_snapshot_id: None,
                    deleted_positions: None,
                    replaced_positions: None,
                },
                deletion_vector: None,
                partition: None,
                record_count: 0,
                file_size_in_bytes: 0,
                content_stats: None,
                manifest_info: None,
                tags: None,
            },
        }
    }

    /// Sets the location.
    pub fn location(self, location: &str) -> (builder: Self)
        ensures
            builder@ == (EntryModel { location: Some(location@), ..self@ }),
    {
        let mut entry = self.entry;
        entry.location = Some(location.to_owned());
        ContentTreeNodeEntryBuilder { entry }
    }

    /// Sets the tracking info.
    pub fn tracking(self, tracking: TrackingInfo) -> (builder: Self)
        ensures
            builder@ == (EntryModel { tracking: tracking@, ..self@ }),
    {
        let mut entry = self.entry;
        entry.tracking = tracking;
        ContentTreeNodeEntryBuilder { entry }
    }

    /// Sets fresh tracking info: both sequence numbers are the version.
    pub fn with_tracking(
        self,
        status: TrackingStatus,
        version: u64,
        snapshot_id: i64,
    ) -> (builder: Self)
        ensures
            builder@ == (EntryModel {
                tracking: fresh_tracking(status, Some(version as i64), Some(snapshot_id)),
                ..self@
            }),
    {
        let mut entry = self.entry;
        entry.tracking = TrackingInfo {
            status,
            snapshot_id: Some(snapshot_id),
            sequence_number: Some(version as i64),
            file_sequence_number: Some(version as i64),
            first_row_id: None,
            dv_snapshot_id: None,
            deleted_positions: None,
            replaced_positions: None,
        };
        ContentTreeNodeEntryBuilder { entry }
    }

    /// Sets the deletion vector.
    pub fn deletion_vector_opt(self, dv: Option<DeletionVectorInfo>) -> (builder: Self)
        ensures
            builder@ == (EntryModel { deletion_vector: viewed(dv), ..self@ }),
    {
        let mut entry = self.entry;
        entry.deletion_vector = dv;
        ContentTreeNodeEntryBuilder { entry }
    }

    /// Sets the partition values.
    pub fn partition_opt(self, partition: Option<StructData>) -> (builder: Self)
        ensures
            builder@ == (EntryModel { partition: viewed(partition), ..self@ }),
    {
        let mut entry = self.entry;
        entry.partition = partition;
        ContentTreeNodeEntryBuilder { entry }
    }

    /// Sets the number of records.
    pub fn record_count(self, record_count: i64) -> (builder: Self)
        ensures
            builder@ == (EntryModel { record_count, ..self@ }),
    {
        let mut entry = self.entry;
        entry.record_count = record_count;
        ContentTreeNodeEntryBuilder { entry }
    }

    /// Sets the size of the file.
    pub fn file_size_in_bytes(self, file_size_in_bytes: i64) -> (builder: Self)
        ensures
            builder@ == (EntryModel { file_size_in_bytes, ..self@ }),
    {
        let mut entry = self.entry;
        entry.file_size_in_bytes = file_size_in_bytes;
        ContentTreeNodeEntryBuilder { entry }
    }

    /// Sets the content statistics.
    pub fn content_stats_opt(self, content_stats: Option<StructData>) -> (builder: Self)
        ensures
            builder@ == (EntryModel { content_stats: viewed(content_stats), ..self@ }),
    {
        let mut entry = self.entry;
        entry.content_stats = content_stats;
        ContentTreeNodeEntryBuilder { entry }
    }

    /// Sets the manifest info.
    pub fn manifest_info_opt(self, manifest_info: Option<ManifestInfo>) -> (builder: Self)
        ensures
            builder@ == (EntryModel { manifest_info: viewed(manifest_info), ..self@ }),
    {
        let mut entry = self.entry;
        entry.manifest_info = manifest_info;
        ContentTreeNodeEntryBuilder { entry }
    }

    /// Sets the tags.
    pub fn tags_opt(self, tags: Option<Tags>) -> (builder: Self)
        ensures
            builder@ == (EntryModel { tags: viewed(tags), ..self@ }),
    {
        let mut entry = self.entry;
        entry.tags = tags;
        ContentTreeNodeEntryBuilder { entry }
    }

    /// The finished entry.
    pub fn build(self) -> (entry: ContentTreeNodeEntry)
        ensures
            entry@ == self@,
    {
        self.entry
    }
}

} // verus!
