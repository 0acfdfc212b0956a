//! Commits that write a new root manifest.

use roaring::RoaringTreemap;
use url::Url;
use vstd::prelude::*;

use crate::bitmap::{clone_bitmap, positions, union_positions};
use crate::builder::{content_root_location, content_root_url, entries_added, BuilderModel, Version};
use crate::entry::{entry_models, ContentTreeNodeEntry, EntryModel};
use crate::error::{generic, viewed, DeltaResult, Error, ErrorKind, ErrorModel};
use crate::expression::texts;
use crate::leaf::{relative_location, relativize_manifest_path};
use crate::location::{
    clone_url, debug_url, host_of, joined_url, location, path_of, scheme_in, scheme_of,
    LocationModel,
};
use crate::scan_updates::bitmap_models;
use crate::schema::{FieldModel, StructType};
use crate::string_map::StringMap;
use crate::text::{decimal, unsigned_text};

verus! {

/// The content root that a checkpoint refers to.
#[derive(Debug)]
pub struct ContentRoot {
    pub path: String,
}

/// A checkpoint: it covers the log up to a version.
#[derive(Debug)]
pub struct CheckpointAction {
    pub version: Version,
    pub content_root: ContentRoot,
}

/// A table at a version, as far as a commit reads it.
pub struct Snapshot {
    pub version: Version,
    pub table_root: Url,
    /// The schema of the table with physical names.
    pub physical_schema: StructType,
    pub partition_type: Option<StructType>,
    pub checkpoint_action: Option<CheckpointAction>,
}

/// A file.
pub struct FileMeta {
    pub location: Url,
    pub last_modified: i64,
    pub size: u64,
}

/// The model of a [`CheckpointAction`].
pub ghost struct CheckpointModel {
    pub version: Version,
    pub path: Seq<char>,
}

/// The model of a [`Snapshot`].
pub ghost struct SnapshotModel {
    pub version: Version,
    pub table_root: LocationModel,
    pub physical_schema: Seq<FieldModel>,
    pub partition_type: Option<Seq<FieldModel>>,
    pub checkpoint: Option<CheckpointModel>,
}

impl View for CheckpointAction {
    type V = CheckpointModel;

    open spec fn view(&self) -> CheckpointModel {
        CheckpointModel { version: self.version, path: self.content_root.path@ }
    }
}

impl View for Snapshot {
    type V = SnapshotModel;

    open spec fn view(&self) -> SnapshotModel {
        SnapshotModel {
            version: self.version,
            table_root: location(self.table_root),
            physical_schema: self.physical_schema@,
            partition_type: viewed(self.partition_type),
            checkpoint: viewed(self.checkpoint_action),
        }
    }
}

/// The parts of a URL by which it is decided whether one lies below another.
#[derive(Debug)]
pub struct UrlParts {
    pub scheme: String,
    pub host: Option<String>,
    pub path: String,
}

/// Whether a location has the scheme and host of the table root, and a path below its path.
pub open spec fn lies_below(
    scheme: Seq<char>,
    host: Option<Seq<char>>,
    path: Seq<char>,
    root_scheme: Seq<char>,
    root_host: Option<Seq<char>>,
    root_path: Seq<char>,
) -> bool {
    scheme == root_scheme && host == root_host && root_path.is_prefix_of(path)
}

/// Whether a URL lies below the table root.
pub open spec fn url_below(location: LocationModel, table_root: LocationModel) -> bool {
    lies_below(
        scheme_in(location.text),
        location.host,
        location.path,
        scheme_in(table_root.text),
        table_root.host,
        table_root.path,
    )
}

/// Whether a location lies below the table root.
pub fn is_below(location: &UrlParts, table_root: &UrlParts) -> (below: bool)
    ensures
        below == lies_below(
            location.scheme@,
            viewed(location.host),
            location.path@,
            table_root.scheme@,
            viewed(table_root.host),
            table_root.path@,
        ),
{
    if location.scheme != table_root.scheme {
        return false;
    }
    let same_host = match (&location.host, &table_root.host) {
        (Some(host), Some(root)) => *host == *root,
        (None, None) => true,
        _ => false,
    };
    if !same_host {
        return false;
    }
    let path_len: usize = location.path.as_str().unicode_len();
    let root_len: usize = table_root.path.as_str().unicode_len();
    if root_len > path_len {
        return false;
    }
    let head = location.path.as_str().substring_char(0, root_len).to_owned();
    proof {
        if table_root.path@.is_prefix_of(location.path@) {
            assert(head@ =~= table_root.path@);
        }
    }
    head == table_root.path
}

/// The parts of a URL.
fn parts_of(url: &Url) -> (parts: UrlParts)
    ensures
        parts.scheme@ == scheme_in(location(*url).text),
        viewed(parts.host) == location(*url).host,
        parts.path@ == location(*url).path,
{
    UrlParts { scheme: scheme_of(url), host: host_of(url), path: path_of(url) }
}

/// The error for a table without a checkpoint.
pub open spec fn checkpoint_missing() -> ErrorModel {
    ErrorModel {
        kind: ErrorKind::InvalidTransactionState,
        message: "explicit root manifest commit requires an existing checkpoint action on the table"@,
    }
}

/// The error for a checkpoint that does not cover the snapshot.
pub open spec fn checkpoint_behind(checkpoint: Version, snapshot: Version) -> ErrorModel {
    ErrorModel {
        kind: ErrorKind::InvalidTransactionState,
        message: "explicit root manifest commit requires no delta log commits after the latest checkpoint that are pending metadata-tree replay; checkpoint covers version "@
            + decimal(checkpoint as int) + " but snapshot is at "@ + decimal(snapshot as int),
    }
}

/// The error for a manifest that does not lie below the table root, given the two locations as
/// messages have them.
pub open spec fn manifest_elsewhere(location: Seq<char>, table_root: Seq<char>) -> ErrorModel {
    generic(
        "manifest location "@ + location + " is not under the table root "@ + table_root,
    )
}

/// What forbids a commit with an explicit root manifest, given whether the manifest lies below
/// the table root, and the two locations as messages have them.
pub open spec fn explicit_root_error(
    below: bool,
    location: Seq<char>,
    table_root: Seq<char>,
    snapshot: SnapshotModel,
) -> Option<ErrorModel> {
    match snapshot.checkpoint {
        None => Some(checkpoint_missing()),
        Some(checkpoint) => if checkpoint.version < snapshot.version {
            Some(checkpoint_behind(checkpoint.version, snapshot.version))
        } else if !below {
            Some(manifest_elsewhere(location, table_root))
        } else {
            None
        },
    }
}

/// A commit with a root manifest that the caller supplies.
pub struct ExplicitRootManifestCommit {
    pub file: FileMeta,
}

impl ExplicitRootManifestCommit {
    /// Checks that the table has a checkpoint that covers the snapshot, and that the file lies
    /// below the table root: with the same scheme and host, and a path that its path begins.
    pub fn new(file: FileMeta, read_snapshot: &Snapshot) -> (made: DeltaResult<Self>)
        ensures
            ({
                let error = explicit_root_error(
                    url_below(location(file.location), read_snapshot@.table_root),
                    location(file.location).debug,
                    read_snapshot@.table_root.debug,
                    read_snapshot@,
                );
                match made {
                    Ok(commit) => commit.file == file && error is None,
                    Err(e) => error == Some(e@),
                }
            }),
    {
        let below = is_below(&parts_of(&file.location), &parts_of(&read_snapshot.table_root));
        let location = debug_url(&file.location);
        let table_root = debug_url(&read_snapshot.table_root);
        match check_explicit_root(below, location.as_str(), table_root.as_str(), read_snapshot) {
            Ok(_) => Ok(ExplicitRootManifestCommit { file }),
            Err(e) => Err(e),
        }
    }
}

/// Checks what a commit with an explicit root manifest requires, given whether the manifest
/// lies below the table root, and the two locations as messages have them.
pub fn check_explicit_root(
    below: bool,
    location: &str,
    table_root: &str,
    read_snapshot: &Snapshot,
) -> (checked: DeltaResult<()>)
    ensures
        match checked {
            Ok(_) => explicit_root_error(below, location@, table_root@, read_snapshot@) is None,
            Err(e) => explicit_root_error(below, location@, table_root@, read_snapshot@) == Some(
                e@,
            ),
        },
{
    let checkpoint: &CheckpointAction = match &read_snapshot.checkpoint_action {
        Some(checkpoint) => checkpoint,
        None => {
            return Err(
                Error::new(
                    ErrorKind::InvalidTransactionState,
                    "explicit root manifest commit requires an existing checkpoint action on the table".to_owned(),
                ),
            );
        },
    };
    if checkpoint.version < read_snapshot.version {
        let mut message =
            "explicit root manifest commit requires no delta log commits after the latest checkpoint that are pending metadata-tree replay; checkpoint covers version ".to_owned();
        message.append(unsigned_text(checkpoint.version).as_str());
        message.append(" but snapshot is at ");
        message.append(unsigned_text(read_snapshot.version).as_str());
        return Err(Error::new(ErrorKind::InvalidTransactionState, message));
    }
    if !below {
        let mut message = "manifest location ".to_owned();
        message.append(location);
        message.append(" is not under the table root ");
        message.append(table_root);
        return Err(Error::generic(message));
    }
    Ok(())
}

/// The positions of a leaf manifest that moved elsewhere.
pub struct ManifestDv {
    pub manifest: String,
    pub rows: RoaringTreemap,
}

/// What the writer of a leaf hands over.
pub struct LeafNodeWriterResult {
    /// The data files that moved from the root into the leaf.
    pub root_entries_to_remove: Vec<String>,
    /// The deletion vectors that moved from the root into the leaf.
    pub root_dv_entries_to_remove: Vec<String>,
    /// The positions that moved from other leaves into the leaf.
    pub manifest_dvs: Vec<ManifestDv>,
    /// The entry of the leaf, where one was written.
    pub data_file_manifest_written: Option<ContentTreeNodeEntry>,
}

/// The model of a [`LeafNodeWriterResult`].
pub ghost struct LeafResultModel {
    pub root_entries: Seq<Seq<char>>,
    pub root_dvs: Seq<Seq<char>>,
    pub manifest_dvs: Seq<(Seq<char>, Set<u64>)>,
    pub leaf: Option<EntryModel>,
}

/// The models of a list of manifest positions.
pub open spec fn manifest_dv_models(dvs: Seq<ManifestDv>) -> Seq<(Seq<char>, Set<u64>)> {
    Seq::new(dvs.len(), |i: int| (dvs[i].manifest@, positions(dvs[i].rows)))
}

impl View for LeafNodeWriterResult {
    type V = LeafResultModel;

    open spec fn view(&self) -> LeafResultModel {
        LeafResultModel {
            root_entries: texts(self.root_entries_to_remove@),
            root_dvs: texts(self.root_dv_entries_to_remove@),
            manifest_dvs: manifest_dv_models(self.manifest_dvs@),
            leaf: viewed(self.data_file_manifest_written),
        }
    }
}

/// What a scan is to read.
#[derive(Clone, Copy, Debug, PartialEq, Eq, Structural)]
pub struct ScanRequest {
    /// Leaf manifests are left out: only the root and the log are read.
    pub skip_leaf_manifests: bool,
    /// The statistics of all columns are read.
    pub include_all_stats_columns: bool,
}

/// What the writer of a leaf starts out with.
pub struct LeafNodeWriter {
    pub table_root: Url,
    pub version: Version,
    pub snapshot_id: i64,
    pub physical_schema: StructType,
    /// Whether files that move from the root into the leaf are to be taken out of the root.
    pub track_root_removals: bool,
    /// The path of the root manifest, relative to the table root where it lies below it.
    pub root_manifest_path: Option<String>,
}

/// The model of a [`LeafNodeWriter`].
pub ghost struct LeafWriterModel {
    pub table_root: LocationModel,
    pub version: Version,
    pub snapshot_id: i64,
    pub physical_schema: Seq<FieldModel>,
    pub track_root_removals: bool,
    pub root_manifest_path: Option<Seq<char>>,
}

impl View for LeafNodeWriter {
    type V = LeafWriterModel;

    open spec fn view(&self) -> LeafWriterModel {
        LeafWriterModel {
            table_root: location(self.table_root),
            version: self.version,
            snapshot_id: self.snapshot_id,
            physical_schema: self.physical_schema@,
            track_root_removals: self.track_root_removals,
            root_manifest_path: viewed(self.root_manifest_path),
        }
    }
}

/// The state of a commit that writes a new root manifest.
pub struct ManifestCommitState {
    pub version_to_write: Version,
    pub snapshot_id: i64,
    pub read_snapshot: Snapshot,
    /// The positions of leaf manifests that moved elsewhere.
    pub aggregated_manifest_dvs: StringMap<RoaringTreemap>,
    /// The data files that moved from the root into leaves.
    pub aggregated_unreconciled: StringMap<()>,
    /// The deletion vectors that moved from the root into leaves.
    pub aggregated_root_dv_actions: StringMap<()>,
    /// The entries of the leaves that were written.
    pub leaf_manifests: Vec<ContentTreeNodeEntry>,
    /// Whether the client took control of what stands in the root.
    pub root_released: bool,
}

/// The model of a [`ManifestCommitState`].
#[verifier::ext_equal]
pub ghost struct ManifestCommitModel {
    pub version_to_write: Version,
    pub snapshot_id: i64,
    pub snapshot: SnapshotModel,
    pub manifest_dvs: Map<Seq<char>, Set<u64>>,
    pub unreconciled: Set<Seq<char>>,
    pub root_dv_actions: Set<Seq<char>>,
    pub leaf_manifests: Seq<EntryModel>,
    pub root_released: bool,
}

impl View for ManifestCommitState {
    type V = ManifestCommitModel;

    open spec fn view(&self) -> ManifestCommitModel {
        ManifestCommitModel {
            version_to_write: self.version_to_write,
            snapshot_id: self.snapshot_id,
            snapshot: self.read_snapshot@,
            manifest_dvs: bitmap_models(self.aggregated_manifest_dvs@),
            unreconciled: self.aggregated_unreconciled@.dom(),
            root_dv_actions: self.aggregated_root_dv_actions@.dom(),
            leaf_manifests: entry_models(self.leaf_manifests@),
            root_released: self.root_released,
        }
    }
}

/// The error for a root that is released a second time.
pub open spec fn root_released_twice() -> ErrorModel {
    generic("release_root_and_delta_actions() can only be called once per transaction"@)
}

/// The error for a file that moved from the root into two leaves.
pub open spec fn duplicate_unreconciled(path: Seq<char>) -> ErrorModel {
    generic("Duplicate unreconciled file across leaves: "@ + path)
}

/// The URL of the root manifest, where there is a checkpoint.
pub open spec fn root_manifest(snapshot: SnapshotModel) -> Result<Option<Seq<char>>, ErrorModel> {
    match snapshot.checkpoint {
        None => Ok(None),
        Some(checkpoint) => match content_root_location(snapshot.table_root, checkpoint.path) {
            Ok(url) => Ok(Some(url)),
            Err(e) => Err(e),
        },
    }
}

/// The map with the positions of one list element more.
pub open spec fn with_positions(
    map: Map<Seq<char>, Set<u64>>,
    key: Seq<char>,
    set: Set<u64>,
) -> Map<Seq<char>, Set<u64>> {
    map.insert(
        key,
        (if map.contains_key(key) {
            map[key]
        } else {
            Set::empty()
        }).union(set),
    )
}

/// The map with the positions of the first `n` list elements.
pub open spec fn with_all_positions(
    map: Map<Seq<char>, Set<u64>>,
    dvs: Seq<(Seq<char>, Set<u64>)>,
    n: int,
) -> Map<Seq<char>, Set<u64>>
    decreases n,
{
    if n <= 0 {
        map
    } else {
        with_positions(with_all_positions(map, dvs, n - 1), dvs[n - 1].0, dvs[n - 1].1)
    }
}

/// The index at or after `from` of the first path that is in the set, `paths.len()` where there
/// is none.
pub open spec fn first_duplicate(paths: Seq<Seq<char>>, seen: Set<Seq<char>>, from: int) -> int
    decreases paths.len() - from,
{
    if from >= paths.len() {
        paths.len() as int
    } else if seen.contains(paths[from]) {
        from
    } else {
        first_duplicate(paths, seen, from + 1)
    }
}

/// What the result of a leaf writer does to a commit. A file that moved into another leaf
/// already is an error.
pub open spec fn leaf_added(commit: ManifestCommitModel, leaf: LeafResultModel) -> Result<
    ManifestCommitModel,
    ErrorModel,
> {
    let duplicate = first_duplicate(leaf.root_entries, commit.unreconciled, 0);
    if duplicate < leaf.root_entries.len() {
        Err(duplicate_unreconciled(leaf.root_entries[duplicate]))
    } else {
        Ok(
            ManifestCommitModel {
                unreconciled: commit.unreconciled.union(leaf.root_entries.to_set()),
                root_dv_actions: commit.root_dv_actions.union(leaf.root_dvs.to_set()),
                manifest_dvs: with_all_positions(
                    commit.manifest_dvs,
                    leaf.manifest_dvs,
                    leaf.manifest_dvs.len() as int,
                ),
                leaf_manifests: match leaf.leaf {
                    Some(entry) => commit.leaf_manifests.push(entry),
                    None => commit.leaf_manifests,
                },
                ..commit
            },
        )
    }
}

/// What taking out the data files at some paths does to a builder.
pub open spec fn data_files_removed(builder: BuilderModel, paths: Set<Seq<char>>) -> BuilderModel {
    BuilderModel {
        entries: builder.entries.filter(
            |entry: EntryModel|
                !(entry.location is Some && paths.contains(entry.location->Some_0)
                    && entry.content_type == crate::entry::DataContentType::Data),
        ),
        caches: builder.caches.remove_keys(paths),
        seen: builder.seen.difference(paths),
        ..builder
    }
}

/// What taking out the entries at some paths does to a builder.
pub open spec fn dvs_removed(builder: BuilderModel, paths: Set<Seq<char>>) -> BuilderModel {
    BuilderModel {
        entries: builder.entries.filter(
            |entry: EntryModel|
                !(entry.location is Some && paths.contains(entry.location->Some_0)),
        ),
        caches: builder.caches.remove_keys(paths),
        seen: builder.seen.difference(paths),
        ..builder
    }
}

/// A builder after a commit took out of it what moved into leaves, and put the leaves in.
pub open spec fn leaves_put_in(commit: ManifestCommitModel, builder: BuilderModel) -> BuilderModel {
    dvs_removed(
        data_files_removed(
            entries_added(builder, commit.leaf_manifests, commit.leaf_manifests.len() as int),
            commit.unreconciled,
        ),
        commit.root_dv_actions,
    )
}

/// Puts the strings of a list into a set.
fn insert_all(set: &mut StringMap<()>, keys: &Vec<String>)
    requires
        old(set).wf(),
    ensures
        final(set).wf(),
        final(set)@.dom() == old(set)@.dom().union(texts(keys@).to_set()),
{
    let ghost all = texts(keys@);
    let mut i: usize = 0;
    assert(all.take(0).to_set() =~= Set::<Seq<char>>::empty());
    assert(set@.dom() =~= old(set)@.dom().union(all.take(0).to_set()));
    while i < keys.len()
        invariant
            set.wf(),
            i <= keys@.len(),
            all == texts(keys@),
            set@.dom() == old(set)@.dom().union(all.take(i as int).to_set()),
        decreases keys@.len() - i,
    {
        let ghost before = set@;
        set.insert(keys[i].clone(), ());
        proof {
            assert(all.take(i + 1) =~= all.take(i as int).push(all[i as int]));
            all.take(i as int).lemma_push_to_set_commute(all[i as int]);
            assert(set@.dom() =~= old(set)@.dom().union(all.take(i + 1).to_set()));
        }
        i += 1;
    }
    assert(all.take(i as int) =~= all);
}

impl ManifestCommitState {
    /// The maps and sets of the commit are in order.
    pub open spec fn wf(&self) -> bool {
        &&& self.aggregated_manifest_dvs.wf()
        &&& self.aggregated_unreconciled.wf()
        &&& self.aggregated_root_dv_actions.wf()
    }

    /// A commit that has nothing to do yet.
    pub fn new(version_to_write: Version, snapshot_id: i64, read_snapshot: Snapshot) -> (state: Self)
        ensures
            state.wf(),
            state@ == (ManifestCommitModel {
                version_to_write,
                snapshot_id,
                snapshot: read_snapshot@,
                manifest_dvs: Map::empty(),
                unreconciled: Set::empty(),
                root_dv_actions: Set::empty(),
                leaf_manifests: Seq::empty(),
                root_released: false,
            }),
    {
        let state = ManifestCommitState {
            version_to_write,
            snapshot_id,
            read_snapshot,
            aggregated_manifest_dvs: StringMap::new(),
            aggregated_unreconciled: StringMap::new(),
            aggregated_root_dv_actions: StringMap::new(),
            leaf_manifests: Vec::new(),
            root_released: false,
        };
        assert(state@.manifest_dvs =~= Map::empty());
        assert(state@.unreconciled =~= Set::empty());
        assert(state@.root_dv_actions =~= Set::empty());
        assert(state@.leaf_manifests =~= Seq::empty());
        state
    }

    /// Hands the root and the log over to the client, who then decides which files move into
    /// leaves. Returns what the scan of them has to read. It can be done only once.
    pub fn release_root_and_delta_actions(&mut self) -> (scan: DeltaResult<ScanRequest>)
        requires
            old(self).wf(),
        ensures
            final(self).wf(),
            match scan {
                Ok(request) => {
                    &&& !old(self)@.root_released
                    &&& request == (ScanRequest {
                        skip_leaf_manifests: true,
                        include_all_stats_columns: true,
                    })
                    &&& final(self)@ == (ManifestCommitModel { root_released: true, ..old(self)@ })
                },
                Err(e) => {
                    &&& old(self)@.root_released
                    &&& e@ == root_released_twice()
                    &&& final(self)@ == old(self)@
                },
            },
    {
        if self.root_released {
            return Err(
                Error::generic(
                    "release_root_and_delta_actions() can only be called once per transaction".to_owned(),
                ),
            );
        }
        self.root_released = true;
        Ok(ScanRequest { skip_leaf_manifests: true, include_all_stats_columns: true })
    }

    /// The URL of the root manifest, where there is a checkpoint.
    pub fn root_manifest_url(&self) -> (url: DeltaResult<Option<Url>>)
        ensures
            match url {
                Ok(Some(u)) => root_manifest(self@.snapshot) == Ok::<
                    Option<Seq<char>>,
                    ErrorModel,
                >(Some(location(u).text)),
                Ok(None) => root_manifest(self@.snapshot) == Ok::<Option<Seq<char>>, ErrorModel>(
                    None,
                ),
                Err(e) => root_manifest(self@.snapshot) == Err::<Option<Seq<char>>, ErrorModel>(
                    e@,
                ),
            },
            url matches Ok(Some(u)) ==> joined_url(
                self.read_snapshot.table_root,
                self@.snapshot.checkpoint->Some_0.path,
            ) == Ok::<LocationModel, Seq<char>>(location(u)),
    {
        match &self.read_snapshot.checkpoint_action {
            Some(checkpoint) => match content_root_url(
                &self.read_snapshot.table_root,
                checkpoint.content_root.path.as_str(),
            ) {
                Ok(url) => Ok(Some(url)),
                Err(e) => Err(e),
            },
            None => Ok(None),
        }
    }

    /// The writer of a new leaf. It keeps track of files that leave the root unless the root
    /// was released.
    pub fn new_leaf_node_writer(&self) -> (writer: DeltaResult<LeafNodeWriter>)
        ensures
            match root_manifest(self@.snapshot) {
                Ok(url) => writer matches Ok(w) && w@ == (LeafWriterModel {
                    table_root: self@.snapshot.table_root,
                    version: self@.version_to_write,
                    snapshot_id: self@.snapshot_id,
                    physical_schema: self@.snapshot.physical_schema,
                    track_root_removals: !self@.root_released,
                    root_manifest_path: match url {
                        Some(url) => Some(relative_location(url, self@.snapshot.table_root.text)),
                        None => None,
                    },
                }),
                Err(error) => writer matches Err(e) && e@ == error,
            },
    {
        let root_manifest_path = match self.root_manifest_url() {
            Ok(Some(url)) => Some(relativize_manifest_path(&url, &self.read_snapshot.table_root)),
            Ok(None) => None,
            Err(e) => {
                return Err(e);
            },
        };
        Ok(
            LeafNodeWriter {
                table_root: clone_url(&self.read_snapshot.table_root),
                version: self.version_to_write,
                snapshot_id: self.snapshot_id,
                physical_schema: self.read_snapshot.physical_schema.clone(),
                track_root_removals: !self.root_released,
                root_manifest_path,
            },
        )
    }

    /// Takes over the result of a leaf writer: files and deletion vectors that leave the root,
    /// positions that leave other leaves, and the entry of the new leaf. Where a file left the
    /// root for another leaf already, that is an error and nothing is taken over.
    pub fn add_leaf(&mut self, leaf_result: LeafNodeWriterResult) -> (added: DeltaResult<()>)
        requires
            old(self).wf(),
        ensures
            final(self).wf(),
            match added {
                Ok(_) => leaf_added(old(self)@, leaf_result@) == Ok::<
                    ManifestCommitModel,
                    ErrorModel,
                >(final(self)@),
                Err(e) => leaf_added(old(self)@, leaf_result@) == Err::<
                    ManifestCommitModel,
                    ErrorModel,
                >(e@) && final(self)@ == old(self)@,
            },
    {
        let ghost before = self@;
        let ghost leaf = leaf_result@;
        let mut i: usize = 0;
        while i < leaf_result.root_entries_to_remove.len()
            invariant
                *self == *old(self),
                self.wf(),
                before == self@,
                leaf == leaf_result@,
                i <= leaf_result.root_entries_to_remove@.len(),
                first_duplicate(leaf.root_entries, before.unreconciled, 0) == first_duplicate(
                    leaf.root_entries,
                    before.unreconciled,
                    i as int,
                ),
            decreases leaf_result.root_entries_to_remove@.len() - i,
        {
            let path = leaf_result.root_entries_to_remove[i].as_str();
            assert(leaf.root_entries[i as int] == path@);
            if self.aggregated_unreconciled.contains_key(path) {
                let mut message = "Duplicate unreconciled file across leaves: ".to_owned();
                message.append(path);
                return Err(Error::generic(message));
            }
            i += 1;
        }
        insert_all(&mut self.aggregated_unreconciled, &leaf_result.root_entries_to_remove);
        insert_all(&mut self.aggregated_root_dv_actions, &leaf_result.root_dv_entries_to_remove);
        let mut k: usize = 0;
        while k < leaf_result.manifest_dvs.len()
            invariant
                self.wf(),
                leaf == leaf_result@,
                k <= leaf_result.manifest_dvs@.len(),
                bitmap_models(self.aggregated_manifest_dvs@) == with_all_positions(
                    before.manifest_dvs,
                    leaf.manifest_dvs,
                    k as int,
                ),
                self@ == (ManifestCommitModel {
                    unreconciled: before.unreconciled.union(leaf.root_entries.to_set()),
                    root_dv_actions: before.root_dv_actions.union(leaf.root_dvs.to_set()),
                    manifest_dvs: bitmap_models(self.aggregated_manifest_dvs@),
                    ..before
                }),
            decreases leaf_result.manifest_dvs@.len() - k,
        {
            let dv = &leaf_result.manifest_dvs[k];
            assert(leaf.manifest_dvs[k as int] == (dv.manifest@, positions(dv.rows)));
            let ghost so_far = self.aggregated_manifest_dvs@;
            match self.aggregated_manifest_dvs.get_mut(dv.manifest.as_str()) {
                Some(bitmap) => union_positions(bitmap, &dv.rows),
                None => self.aggregated_manifest_dvs.insert(
                    dv.manifest.clone(),
                    clone_bitmap(&dv.rows),
                ),
            }
            proof {
                assert(Set::<u64>::empty().union(positions(dv.rows)) =~= positions(dv.rows));
                assert(bitmap_models(self.aggregated_manifest_dvs@) =~= with_positions(
                    bitmap_models(so_far),
                    dv.manifest@,
                    positions(dv.rows),
                ));
            }
            k += 1;
        }
        if let Some(entry) = leaf_result.data_file_manifest_written {
            self.leaf_manifests.push(entry);
            assert(entry_models(self.leaf_manifests@) =~= before.leaf_manifests.push(entry@));
        }
        Ok(())
    }
}

} // verus!
