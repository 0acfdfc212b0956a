//! Replay of log commits and of the content root below them.
//!
//! Commits are replayed from the newest to the oldest, and the existing content root after
//! them. Of all actions on one file and deletion vector, the first that is seen counts.

use roaring::RoaringTreemap;
use vstd::hash_set::StringHashSet;
use vstd::prelude::*;

use crate::bitmap::{empty_bitmap, insert_position, positions};
use crate::builder::{batch_models, Version};
use crate::columns::SelectedColumns;
use crate::deletion_vector::{
    extract_deletion_vector_content, extracted_dv, storage_type_of, unknown_storage_type,
    DeletionVectorDescriptor, DeletionVectorStorageType, DescriptorModel,
};
use crate::dv_columns::{
    decode_dv_row, decoded_columns, lemma_decoded_error, missing_value, no_dv_columns,
    value_missing, DecodedDvVisitor, DvColumns, DvRow, DvRowModel,
};
use crate::entry::{entry_models, ContentTreeNodeEntry, EntryModel, TrackingStatus};
use crate::error::{generic, outcome, viewed, DeltaResult, Error, ErrorModel};
use crate::projection::{
    action_request, build_action_to_content_tree_entry_evaluator, build_log_batch_evaluator,
    entry_fields, log_batch_request, to_schema_with_content_stats, EvaluatorRequest, RequestModel,
};
use crate::schema::{long_type, string_type, DataType, FieldModel, StructType, TypeModel};
use crate::selection::{apply_selection_vector, select_rows, selected_rows, selection_applied};
use crate::stats_schema::{build_delta_stats_schema, delta_stats_fields};
use crate::string_map::StringMap;
use crate::text::{decimal, signed_text};

verus! {

/// What identifies a file in a replay: its path and the location of its deletion vector.
pub type FileActionKey = (Seq<char>, Option<Seq<char>>);

/// The keys with one path.
pub struct DvKeys {
    /// Whether there is a key without a deletion vector.
    pub bare: bool,
    /// The locations of the deletion vectors of the other keys.
    pub locations: StringHashSet,
}

/// A set of file action keys.
pub struct FileActionKeys {
    paths: StringMap<DvKeys>,
}

impl View for FileActionKeys {
    type V = Set<FileActionKey>;

    closed spec fn view(&self) -> Set<FileActionKey> {
        Set::new(
            |key: FileActionKey|
                self.paths@.contains_key(key.0) && match key.1 {
                    None => self.paths@[key.0].bare,
                    Some(location) => self.paths@[key.0].locations@.contains(location),
                },
        )
    }
}

impl FileActionKeys {
    /// The index of the paths agrees with them.
    pub closed spec fn wf(&self) -> bool {
        self.paths.wf()
    }

    /// A set without keys.
    pub fn new() -> (keys: Self)
        ensures
            keys.wf(),
            keys@ == Set::<FileActionKey>::empty(),
    {
        let keys = FileActionKeys { paths: StringMap::new() };
        assert(keys@ =~= Set::<FileActionKey>::empty());
        keys
    }

    /// Whether a key is in the set.
    pub fn contains(&self, path: &str, dv: &Option<String>) -> (found: bool)
        requires
            self.wf(),
        ensures
            found == self@.contains((path@, viewed(*dv))),
    {
        match self.paths.get(path) {
            Some(keys) => match dv {
                Some(location) => keys.locations.contains(location.as_str()),
                None => keys.bare,
            },
            None => false,
        }
    }

    /// Puts a key into the set.
    pub fn insert(&mut self, path: String, dv: Option<String>)
        requires
            old(self).wf(),
        ensures
            final(self).wf(),
            final(self)@ == old(self)@.insert((path@, viewed(dv))),
    {
        let ghost before = self.paths@;
        match self.paths.get_mut(path.as_str()) {
            Some(keys) => {
                match dv {
                    Some(location) => {
                        keys.locations.insert(location);
                    },
                    None => {
                        keys.bare = true;
                    },
                }
            },
            None => {
                let mut keys = DvKeys { bare: false, locations: StringHashSet::new() };
                match dv {
                    Some(location) => {
                        keys.locations.insert(location);
                    },
                    None => {
                        keys.bare = true;
                    },
                }
                self.paths.insert(path, keys);
            },
        }
        assert(self@ =~= old(self)@.insert((path@, viewed(dv))));
    }
}

/// The columns by which the deletion vector of a removed file is found.
#[derive(Debug)]
pub struct DvReference {
    pub storage_type: Option<String>,
    pub path_or_inline_dv: Option<String>,
}

/// The model of a [`DvReference`].
pub ghost struct DvReferenceModel {
    pub storage_type: Option<Seq<char>>,
    pub path_or_inline_dv: Option<Seq<char>>,
}

impl View for DvReference {
    type V = DvReferenceModel;

    open spec fn view(&self) -> DvReferenceModel {
        DvReferenceModel {
            storage_type: viewed(self.storage_type),
            path_or_inline_dv: viewed(self.path_or_inline_dv),
        }
    }
}

/// A row of a commit: an `add`, a `remove` or something else.
#[derive(Debug)]
pub struct LogAction {
    pub add_path: Option<String>,
    pub add_dv: DvRow,
    pub remove_path: Option<String>,
    pub remove_dv: DvReference,
    /// The leaf manifest that holds the removed file.
    pub remove_manifest: Option<String>,
    /// The position of the removed file in the leaf manifest.
    pub remove_position: Option<i64>,
}

/// The model of a [`LogAction`].
pub ghost struct ActionModel {
    pub add_path: Option<Seq<char>>,
    pub add_dv: DvRowModel,
    pub remove_path: Option<Seq<char>>,
    pub remove_dv: DvReferenceModel,
    pub remove_manifest: Option<Seq<char>>,
    pub remove_position: Option<i64>,
}

impl View for LogAction {
    type V = ActionModel;

    open spec fn view(&self) -> ActionModel {
        ActionModel {
            add_path: viewed(self.add_path),
            add_dv: self.add_dv@,
            remove_path: viewed(self.remove_path),
            remove_dv: self.remove_dv@,
            remove_manifest: viewed(self.remove_manifest),
            remove_position: self.remove_position,
        }
    }
}

/// The models of a list of actions.
pub open spec fn action_models(actions: Seq<LogAction>) -> Seq<ActionModel> {
    Seq::new(actions.len(), |i: int| actions[i]@)
}

/// A row of a leaf manifest.
#[derive(Debug)]
pub struct LeafManifestIndex {
    pub path: String,
    pub position: u64,
}

/// The models of a list of leaf manifest rows.
pub open spec fn leaf_rows(rows: Seq<LeafManifestIndex>) -> Seq<(Seq<char>, u64)> {
    Seq::new(rows.len(), |i: int| (rows[i].path@, rows[i].position))
}

/// What a replay has seen.
#[verifier::ext_equal]
pub ghost struct ReplayModel {
    /// The keys of all actions.
    pub keys: Set<FileActionKey>,
    /// The removed rows of leaf manifests.
    pub removes: Seq<(Seq<char>, u64)>,
}

/// The location of a deletion vector, none without a storage type.
pub open spec fn dv_key(
    storage_type: Option<Seq<char>>,
    path_or_inline_dv: Option<Seq<char>>,
) -> Result<Option<Seq<char>>, ErrorModel> {
    match (storage_type, path_or_inline_dv) {
        (None, _) => Ok(None),
        (Some(_), None) => Err(value_missing("deletionVector.pathOrInlineDv"@)),
        (Some(letter), Some(path_or_inline_dv)) => match storage_type_of(letter) {
            None => Err(unknown_storage_type(letter)),
            Some(storage_type) => match extracted_dv(
                DescriptorModel {
                    storage_type,
                    path_or_inline_dv,
                    offset: None,
                    size_in_bytes: 0,
                    cardinality: 0,
                },
            ) {
                Ok(info) => Ok(Some(info.location)),
                Err(e) => Err(e),
            },
        },
    }
}

/// The error for a position that is below zero.
pub open spec fn negative_position(position: i64) -> ErrorModel {
    generic("negative manifest position: "@ + decimal(position as int))
}

/// What one action does to a replay, and whether its row survives: only an `add` that is the
/// first action on its file and deletion vector does.
pub open spec fn replay_step(state: ReplayModel, action: ActionModel) -> (
    ReplayModel,
    Result<bool, ErrorModel>,
) {
    match (action.add_path, action.remove_path) {
        (Some(path), _) => match dv_key(
            action.add_dv.storage_type,
            action.add_dv.path_or_inline_dv,
        ) {
            Ok(dv) => if state.keys.contains((path, dv)) {
                (state, Ok(false))
            } else {
                (ReplayModel { keys: state.keys.insert((path, dv)), ..state }, Ok(true))
            },
            Err(e) => (state, Err(e)),
        },
        (None, None) => (state, Ok(false)),
        (None, Some(path)) => match dv_key(
            action.remove_dv.storage_type,
            action.remove_dv.path_or_inline_dv,
        ) {
            Ok(dv) => {
                let noted = ReplayModel { keys: state.keys.insert((path, dv)), ..state };
                match (action.remove_manifest, action.remove_position) {
                    (Some(manifest), Some(position)) => if position < 0 {
                        (noted, Err(negative_position(position)))
                    } else {
                        (
                            ReplayModel {
                                removes: noted.removes.push((manifest, position as u64)),
                                ..noted
                            },
                            Ok(false),
                        )
                    },
                    _ => (noted, Ok(false)),
                }
            },
            Err(e) => (state, Err(e)),
        },
    }
}

/// What the first `n` actions do to a replay, and which rows survive. Nothing happens after the
/// first error.
pub open spec fn replayed(state: ReplayModel, actions: Seq<ActionModel>, n: int) -> (
    ReplayModel,
    Result<Seq<bool>, ErrorModel>,
)
    decreases n,
{
    if n <= 0 {
        (state, Ok(Seq::empty()))
    } else {
        let (before, selection) = replayed(state, actions, n - 1);
        match selection {
            Ok(selection) => {
                let (after, survives) = replay_step(before, actions[n - 1]);
                match survives {
                    Ok(survives) => (after, Ok(selection.push(survives))),
                    Err(e) => (after, Err(e)),
                }
            },
            Err(e) => (before, Err(e)),
        }
    }
}

/// After an error nothing happens.
pub proof fn lemma_replay_stops(state: ReplayModel, actions: Seq<ActionModel>, m: int, n: int)
    requires
        0 <= m <= n,
        replayed(state, actions, m).1 is Err,
    ensures
        replayed(state, actions, n) == replayed(state, actions, m),
    decreases n,
{
    if m < n {
        lemma_replay_stops(state, actions, m, n - 1);
    }
}

/// Takes note of the actions of a replay.
pub struct LogBatchDedupVisitor {
    pub log_action_keys: FileActionKeys,
    pub leaf_removes: Vec<LeafManifestIndex>,
}

impl View for LogBatchDedupVisitor {
    type V = ReplayModel;

    open spec fn view(&self) -> ReplayModel {
        ReplayModel { keys: self.log_action_keys@, removes: leaf_rows(self.leaf_removes@) }
    }
}

/// The columns that the visitor reads.
pub open spec fn dedup_columns() -> Seq<(Seq<char>, TypeModel)> {
    Seq::empty().push(("add.path"@, string_type())).push(
        ("add.deletionVector.storageType"@, string_type()),
    ).push(("add.deletionVector.pathOrInlineDv"@, string_type())).push(
        ("remove.path"@, string_type()),
    ).push(("remove.deletionVector.storageType"@, string_type())).push(
        ("remove.deletionVector.pathOrInlineDv"@, string_type()),
    ).push(("remove.backReference.manifest"@, string_type())).push(
        ("remove.backReference.pos"@, long_type()),
    )
}

impl LogBatchDedupVisitor {
    /// The set of keys is in order.
    pub open spec fn wf(&self) -> bool {
        self.log_action_keys.wf()
    }

    /// A visitor that has seen no actions.
    pub fn new() -> (visitor: Self)
        ensures
            visitor.wf(),
            visitor@ == (ReplayModel { keys: Set::empty(), removes: Seq::empty() }),
    {
        let visitor = LogBatchDedupVisitor {
            log_action_keys: FileActionKeys::new(),
            leaf_removes: Vec::new(),
        };
        assert(visitor@ =~= (ReplayModel { keys: Set::empty(), removes: Seq::empty() }));
        visitor
    }

    /// The columns that the visitor reads.
    pub fn selected_column_names_and_types(&self) -> (columns: SelectedColumns)
        ensures
            columns.wf(),
            columns@ == dedup_columns(),
    {
        SelectedColumns::new().with("add.path", DataType::string()).with(
            "add.deletionVector.storageType",
            DataType::string(),
        ).with("add.deletionVector.pathOrInlineDv", DataType::string()).with(
            "remove.path",
            DataType::string(),
        ).with("remove.deletionVector.storageType", DataType::string()).with(
            "remove.deletionVector.pathOrInlineDv",
            DataType::string(),
        ).with("remove.backReference.manifest", DataType::string()).with(
            "remove.backReference.pos",
            DataType::long(),
        )
    }

    /// The location of a deletion vector, none without a storage type. It is decoded as in an
    /// entry, so that keys of actions and keys of entries agree.
    pub fn dv_location(
        storage_type: &Option<String>,
        path_or_inline_dv: &Option<String>,
    ) -> (location: DeltaResult<Option<String>>)
        ensures
            match location {
                Ok(l) => dv_key(viewed(*storage_type), viewed(*path_or_inline_dv)) == Ok::<
                    Option<Seq<char>>,
                    ErrorModel,
                >(viewed(l)),
                Err(e) => dv_key(viewed(*storage_type), viewed(*path_or_inline_dv)) == Err::<
                    Option<Seq<char>>,
                    ErrorModel,
                >(e@),
            },
    {
        let letter: &String = match storage_type {
            Some(letter) => letter,
            None => {
                return Ok(None);
            },
        };
        let path_or_inline_dv: String = match path_or_inline_dv {
            Some(path) => path.clone(),
            None => {
                return Err(missing_value("deletionVector.pathOrInlineDv"));
            },
        };
        let storage_type = match DeletionVectorStorageType::parse(letter) {
            Ok(storage_type) => storage_type,
            Err(e) => {
                return Err(e);
            },
        };
        let descriptor = DeletionVectorDescriptor {
            storage_type,
            path_or_inline_dv,
            offset: None,
            size_in_bytes: 0,
            cardinality: 0,
        };
        match extract_deletion_vector_content(&descriptor) {
            Ok(info) => Ok(Some(info.location)),
            Err(e) => Err(e),
        }
    }

    /// Takes note of one action, and says whether its row survives.
    fn visit_action(&mut self, action: &LogAction) -> (survives: DeltaResult<bool>)
        requires
            old(self).wf(),
        ensures
            final(self).wf(),
            ({
                let (state, result) = replay_step(old(self)@, action@);
                &&& final(self)@ == state
                &&& match survives {
                    Ok(s) => result == Ok::<bool, ErrorModel>(s),
                    Err(e) => result == Err::<bool, ErrorModel>(e@),
                }
            }),
    {
        if let Some(path) = &action.add_path {
            let dv = match Self::dv_location(
                &action.add_dv.storage_type,
                &action.add_dv.path_or_inline_dv,
            ) {
                Ok(dv) => dv,
                Err(e) => {
                    return Err(e);
                },
            };
            if self.log_action_keys.contains(path.as_str(), &dv) {
                return Ok(false);
            }
            self.log_action_keys.insert(path.clone(), dv);
            return Ok(true);
        }
        let path: String = match &action.remove_path {
            Some(path) => path.clone(),
            None => {
                return Ok(false);
            },
        };
        let dv = match Self::dv_location(
            &action.remove_dv.storage_type,
            &action.remove_dv.path_or_inline_dv,
        ) {
            Ok(dv) => dv,
            Err(e) => {
                return Err(e);
            },
        };
        self.log_action_keys.insert(path, dv);
        if let Some(manifest) = &action.remove_manifest {
            if let Some(position) = action.remove_position {
                if position < 0 {
                    let mut message = "negative manifest position: ".to_owned();
                    message.append(signed_text(position).as_str());
                    return Err(Error::generic(message));
                }
                let ghost removes = leaf_rows(self.leaf_removes@);
                self.leaf_removes.push(
                    LeafManifestIndex { path: manifest.clone(), position: position as u64 },
                );
                assert(leaf_rows(self.leaf_removes@) =~= removes.push(
                    (manifest@, position as u64),
                ));
            }
        }
        Ok(false)
    }

    /// Takes note of the actions of a batch, and says which rows survive.
    pub fn visit(&mut self, actions: &Vec<LogAction>) -> (selection: DeltaResult<Vec<bool>>)
        requires
            old(self).wf(),
        ensures
            final(self).wf(),
            ({
                let (state, result) = replayed(
                    old(self)@,
                    action_models(actions@),
                    actions@.len() as int,
                );
                &&& final(self)@ == state
                &&& match selection {
                    Ok(s) => result == Ok::<Seq<bool>, ErrorModel>(s@) && s@.len()
                        == actions@.len(),
                    Err(e) => result == Err::<Seq<bool>, ErrorModel>(e@),
                }
            }),
    {
        let ghost models = action_models(actions@);
        let mut selection: Vec<bool> = Vec::with_capacity(actions.len());
        let mut i: usize = 0;
        while i < actions.len()
            invariant
                self.wf(),
                i <= actions@.len(),
                models == action_models(actions@),
                selection@.len() == i,
                replayed(old(self)@, models, i as int) == (
                    self@,
                    Ok::<Seq<bool>, ErrorModel>(selection@),
                ),
            decreases actions@.len() - i,
        {
            assert(models[i as int] == actions@[i as int]@);
            match self.visit_action(&actions[i]) {
                Ok(survives) => selection.push(survives),
                Err(e) => {
                    proof {
                        lemma_replay_stops(old(self)@, models, i + 1, models.len() as int);
                    }
                    return Err(e);
                },
            }
            i += 1;
        }
        Ok(selection)
    }
}

/// The key of an entry.
pub open spec fn entry_key(location: Seq<char>, entry: EntryModel) -> FileActionKey {
    (
        location,
        match entry.deletion_vector {
            Some(dv) => Some(dv.location),
            None => None,
        },
    )
}

/// What is kept of an entry of the existing content root: nothing where it has no location or
/// where an action on its key was seen; else the entry, which is there already if it was added
/// by an earlier commit.
pub open spec fn kept_entry(keys: Set<FileActionKey>, entry: EntryModel) -> Option<EntryModel> {
    match entry.location {
        None => None,
        Some(location) => if keys.contains(entry_key(location, entry)) {
            None
        } else if entry.tracking.status == TrackingStatus::Added {
            Some(entry.with_status(TrackingStatus::Existing))
        } else {
            Some(entry)
        },
    }
}

/// What is kept of the first `n` entries of the existing content root.
pub open spec fn kept_entries(
    keys: Set<FileActionKey>,
    entries: Seq<EntryModel>,
    n: int,
) -> Seq<EntryModel>
    decreases n,
{
    if n <= 0 {
        Seq::empty()
    } else {
        match kept_entry(keys, entries[n - 1]) {
            Some(entry) => kept_entries(keys, entries, n - 1).push(entry),
            None => kept_entries(keys, entries, n - 1),
        }
    }
}

/// The positions that are paired with `path`.
pub open spec fn positions_at(removes: Seq<(Seq<char>, u64)>, path: Seq<char>) -> Set<u64> {
    Set::new(|position: u64| removes.contains((path, position)))
}

/// Whether a map groups the removed rows by path: it has the paths that occur, each with its
/// positions.
pub open spec fn groups_removes(
    map: Map<Seq<char>, RoaringTreemap>,
    removes: Seq<(Seq<char>, u64)>,
) -> bool {
    &&& forall|path: Seq<char>| #[trigger]
        map.contains_key(path) <==> exists|position: u64| removes.contains((path, position))
    &&& forall|path: Seq<char>| #[trigger]
        map.contains_key(path) ==> positions(map[path]) == positions_at(removes, path)
}

/// The model of a [`ContentRootRebuildProcessor`].
#[verifier::ext_equal]
pub ghost struct ProcessorModel {
    pub replay: ReplayModel,
    pub action_request: RequestModel,
    pub log_batch_request: RequestModel,
}

/// Replays log commits, and then the content root below them.
pub struct ContentRootRebuildProcessor {
    pub dedup: LogBatchDedupVisitor,
    /// Makes entries of the log and deletion vector columns.
    pub action_to_content_tree_entry_evaluator: EvaluatorRequest,
    /// Keeps what is needed of `add` and parses its statistics.
    pub log_batch_evaluator: EvaluatorRequest,
}

impl View for ContentRootRebuildProcessor {
    type V = ProcessorModel;

    open spec fn view(&self) -> ProcessorModel {
        ProcessorModel {
            replay: self.dedup@,
            action_request: self.action_to_content_tree_entry_evaluator@,
            log_batch_request: self.log_batch_evaluator@,
        }
    }
}

/// A processor that has seen nothing.
pub open spec fn fresh_processor(
    snapshot_id: i64,
    commit_version: i64,
    table: Seq<FieldModel>,
    partition_type: Option<Seq<FieldModel>>,
) -> Result<ProcessorModel, ErrorModel> {
    match action_request(
        snapshot_id,
        commit_version,
        table,
        delta_stats_fields(table),
        entry_fields(table, partition_type),
    ) {
        Ok(action_request) => Ok(
            ProcessorModel {
                replay: ReplayModel { keys: Set::empty(), removes: Seq::empty() },
                action_request,
                log_batch_request: log_batch_request(delta_stats_fields(table)),
            },
        ),
        Err(e) => Err(e),
    }
}

/// Whether any row of a batch survives.
pub open spec fn any_survives(selection: Seq<bool>) -> bool {
    exists|i: int| 0 <= i < selection.len() && #[trigger] selection[i]
}

/// The deletion vector columns of the `add` actions.
pub open spec fn add_dv_rows(actions: Seq<ActionModel>) -> Seq<DvRowModel> {
    Seq::new(actions.len(), |i: int| actions[i].add_dv)
}

/// What is to be done with a batch of actions.
#[derive(Debug)]
pub struct LogBatchPlan {
    /// Which rows survive.
    pub selection_vector: Vec<bool>,
    /// The decoded deletion vectors that go into the second step. `None` where no row survives:
    /// the batch is dropped without a step.
    pub dv_columns: Option<DecodedDvVisitor>,
}

/// The plan for a batch, given which rows survive.
pub open spec fn batch_plan(selection: Seq<bool>, actions: Seq<ActionModel>) -> Result<
    Option<DvColumns>,
    ErrorModel,
> {
    if any_survives(selection) {
        match decoded_columns(no_dv_columns(), add_dv_rows(actions), actions.len() as int) {
            Ok(columns) => Ok(Some(columns)),
            Err(e) => Err(e),
        }
    } else {
        Ok(None)
    }
}

/// What a batch of actions does to a replay, and the plan for it.
pub open spec fn actions_processed(state: ReplayModel, actions: Seq<ActionModel>) -> (
    ReplayModel,
    Result<(Seq<bool>, Option<DvColumns>), ErrorModel>,
) {
    let (after, selection) = replayed(state, actions, actions.len() as int);
    match selection {
        Ok(selection) => match batch_plan(selection, actions) {
            Ok(columns) => (after, Ok((selection, columns))),
            Err(e) => (after, Err(e)),
        },
        Err(e) => (after, Err(e)),
    }
}

/// The model of a plan.
pub open spec fn plan_model(plan: LogBatchPlan) -> (Seq<bool>, Option<DvColumns>) {
    (plan.selection_vector@, viewed(plan.dv_columns))
}

impl ContentRootRebuildProcessor {
    /// The visitor is in order.
    pub open spec fn wf(&self) -> bool {
        self.dedup.wf()
    }

    /// A processor that has seen nothing, with the requests for the two steps that turn
    /// actions into entries.
    pub fn new(
        snapshot_id: i64,
        commit_version: i64,
        table_schema: &StructType,
        partition_type: &Option<StructType>,
    ) -> (processor: DeltaResult<Self>)
        ensures
            outcome(processor) == fresh_processor(
                snapshot_id,
                commit_version,
                table_schema@,
                viewed(*partition_type),
            ),
            processor matches Ok(p) ==> p.wf(),
    {
        let delta_stats_schema = build_delta_stats_schema(table_schema);
        let output_schema = to_schema_with_content_stats(table_schema, partition_type);
        let log_batch_evaluator = build_log_batch_evaluator(&delta_stats_schema);
        match build_action_to_content_tree_entry_evaluator(
            snapshot_id,
            commit_version,
            table_schema,
            &delta_stats_schema,
            &output_schema,
        ) {
            Ok(action_to_content_tree_entry_evaluator) => Ok(
                ContentRootRebuildProcessor {
                    dedup: LogBatchDedupVisitor::new(),
                    action_to_content_tree_entry_evaluator,
                    log_batch_evaluator,
                },
            ),
            Err(e) => Err(e),
        }
    }

    /// Keeps the selected entries of a batch of the existing content root that no action was
    /// seen for.
    pub fn process_root_batch(
        &self,
        batch: Vec<ContentTreeNodeEntry>,
        selection_vector: &Vec<bool>,
    ) -> (kept: Vec<ContentTreeNodeEntry>)
        requires
            self.wf(),
        ensures
            ({
                let rows = selected_rows(
                    entry_models(batch@),
                    selection_vector@,
                    batch@.len() as int,
                );
                entry_models(kept@) == kept_entries(
                    self@.replay.keys,
                    rows,
                    rows.len() as int,
                )
            }),
    {
        let rows = select_rows(batch, selection_vector);
        let ghost models = entry_models(rows@);
        let ghost keys = self@.replay.keys;
        let mut kept: Vec<ContentTreeNodeEntry> = Vec::new();
        assert(entry_models(kept@) =~= Seq::empty());
        for entry in iter: rows
            invariant
                self.wf(),
                keys == self@.replay.keys,
                entry_models(iter.seq()) == models,
                entry_models(kept@) == kept_entries(keys, models, iter.index() as int),
        {
            assert(models[iter.index() as int] == entry@);
            let ghost so_far = kept@;
            let superseded = match &entry.location {
                None => true,
                Some(path) => {
                    let dv: Option<String> = match &entry.deletion_vector {
                        Some(dv) => Some(dv.location.clone()),
                        None => None,
                    };
                    self.dedup.log_action_keys.contains(path.as_str(), &dv)
                },
            };
            if !superseded {
                let live = if entry.tracking.status == TrackingStatus::Added {
                    entry.with_status(TrackingStatus::Existing)
                } else {
                    entry
                };
                kept.push(live);
                assert(entry_models(kept@) =~= entry_models(so_far).push(live@));
            }
        }
        kept
    }

    /// Hands out the removed rows of leaf manifests, grouped by manifest.
    pub fn deleted_leaf_positions_by_location(&mut self) -> (grouped: StringMap<RoaringTreemap>)
        requires
            old(self).wf(),
        ensures
            final(self).wf(),
            final(self)@ == (ProcessorModel {
                replay: ReplayModel { removes: Seq::empty(), ..old(self)@.replay },
                ..old(self)@
            }),
            grouped.wf(),
            groups_removes(grouped@, old(self)@.replay.removes),
    {
        let ghost removes = self@.replay.removes;
        let mut rows: Vec<LeafManifestIndex> = Vec::new();
        rows.append(&mut self.dedup.leaf_removes);
        assert(leaf_rows(self.dedup.leaf_removes@) =~= Seq::empty());
        let mut grouped: StringMap<RoaringTreemap> = StringMap::new();
        for row in iter: rows
            invariant
                grouped.wf(),
                leaf_rows(iter.seq()) == removes,
                groups_removes(grouped@, removes.take(iter.index() as int)),
        {
            let ghost seen = removes.take(iter.index() as int);
            let ghost before = grouped@;
            assert(removes[iter.index() as int] == (row.path@, row.position));
            assert(removes.take(iter.index() + 1) =~= seen.push((row.path@, row.position)));
            match grouped.get_mut(row.path.as_str()) {
                Some(bitmap) => insert_position(bitmap, row.position),
                None => {
                    let mut bitmap = empty_bitmap();
                    insert_position(&mut bitmap, row.position);
                    grouped.insert(row.path.clone(), bitmap);
                },
            }
            proof {
                lemma_group_step(before, seen, row.path@, row.position, grouped@);
            }
        }
        assert(removes.take(removes.len() as int) =~= removes);
        grouped
    }

    /// Takes note of the actions of a batch. Row `i` of the answer says whether row `i` is the
    /// newest `add` of its file and deletion vector.
    pub fn dedup_log_batch(&mut self, actions: &Vec<LogAction>) -> (selection: DeltaResult<
        Vec<bool>,
    >)
        requires
            old(self).wf(),
        ensures
            final(self).wf(),
            ({
                let (state, result) = replayed(
                    old(self)@.replay,
                    action_models(actions@),
                    actions@.len() as int,
                );
                &&& final(self)@ == (ProcessorModel { replay: state, ..old(self)@ })
                &&& match selection {
                    Ok(s) => result == Ok::<Seq<bool>, ErrorModel>(s@) && s@.len()
                        == actions@.len(),
                    Err(e) => result == Err::<Seq<bool>, ErrorModel>(e@),
                }
            }),
    {
        self.dedup.visit(actions)
    }

    /// Takes note of the actions of a batch, and plans what is to be done with it: where any
    /// row survives, the deletion vectors are decoded for the steps that make entries.
    pub fn process_actions_batch(&mut self, actions: &Vec<LogAction>) -> (plan: DeltaResult<
        LogBatchPlan,
    >)
        requires
            old(self).wf(),
        ensures
            final(self).wf(),
            ({
                let (state, result) = actions_processed(
                    old(self)@.replay,
                    action_models(actions@),
                );
                &&& final(self)@ == (ProcessorModel { replay: state, ..old(self)@ })
                &&& match plan {
                    Ok(p) => result == Ok::<(Seq<bool>, Option<DvColumns>), ErrorModel>(
                        plan_model(p),
                    ) && p.selection_vector@.len() == actions@.len(),
                    Err(e) => result == Err::<(Seq<bool>, Option<DvColumns>), ErrorModel>(e@),
                }
            }),
    {
        let selection_vector = match self.dedup_log_batch(actions) {
            Ok(selection) => selection,
            Err(e) => {
                return Err(e);
            },
        };
        if !any_true(&selection_vector) {
            return Ok(LogBatchPlan { selection_vector, dv_columns: None });
        }
        match decode_add_dvs(actions) {
            Ok(decoder) => Ok(LogBatchPlan { selection_vector, dv_columns: Some(decoder) }),
            Err(e) => Err(e),
        }
    }
}

/// Adding a position to the bitmap of its path keeps the grouping.
proof fn lemma_group_step(
    before: Map<Seq<char>, RoaringTreemap>,
    seen: Seq<(Seq<char>, u64)>,
    path: Seq<char>,
    position: u64,
    after: Map<Seq<char>, RoaringTreemap>,
)
    requires
        groups_removes(before, seen),
        after.contains_key(path),
        after == before.insert(path, after[path]),
        positions(after[path]) == (if before.contains_key(path) {
            positions(before[path]).insert(position)
        } else {
            Set::<u64>::empty().insert(position)
        }),
    ensures
        groups_removes(after, seen.push((path, position))),
{
    let now = seen.push((path, position));
    assert(now.last() == (path, position));
    assert forall|p: Seq<char>, q: u64| now.contains((p, q)) <==> (seen.contains((p, q)) || (p
        == path && q == position)) by {
        if seen.contains((p, q)) {
            let i = choose|i: int| 0 <= i < seen.len() && seen[i] == (p, q);
            assert(now[i] == (p, q));
        }
        if p == path && q == position {
            assert(now[seen.len() as int] == (p, q));
        }
    }
    assert forall|p: Seq<char>| #[trigger] after.contains_key(p) <==> exists|q: u64|
        now.contains((p, q)) by {
        if after.contains_key(p) {
            if p == path {
                assert(now.contains((p, position)));
            } else {
                assert(before.contains_key(p));
                let q = choose|q: u64| seen.contains((p, q));
                assert(now.contains((p, q)));
            }
        }
        if exists|q: u64| now.contains((p, q)) {
            let q = choose|q: u64| now.contains((p, q));
            if p != path {
                assert(seen.contains((p, q)));
                assert(before.contains_key(p));
            }
        }
    }
    assert forall|p: Seq<char>| #[trigger] after.contains_key(p) implies positions(after[p])
        == positions_at(now, p) by {
        if p == path {
            if !before.contains_key(p) {
                assert forall|q: u64| !seen.contains((p, q)) by {}
            }
            assert(positions(after[p]) =~= positions_at(now, p));
        } else {
            assert(before.contains_key(p));
            assert(positions_at(seen, p) =~= positions_at(now, p));
        }
    }
}

/// Whether any element of a selection vector is true.
fn any_true(selection: &Vec<bool>) -> (any: bool)
    ensures
        any == any_survives(selection@),
{
    let mut i: usize = 0;
    while i < selection.len()
        invariant
            i <= selection@.len(),
            forall|j: int| 0 <= j < i ==> !#[trigger] selection@[j],
        decreases selection@.len() - i,
    {
        if selection[i] {
            return true;
        }
        i += 1;
    }
    false
}

/// Decodes the deletion vectors of `add` actions.
pub fn decode_add_dvs(actions: &Vec<LogAction>) -> (decoder: DeltaResult<DecodedDvVisitor>)
    ensures
        outcome(decoder) == decoded_columns(
            no_dv_columns(),
            add_dv_rows(action_models(actions@)),
            actions@.len() as int,
        ),
{
    let ghost rows = add_dv_rows(action_models(actions@));
    let mut decoder = DecodedDvVisitor::for_log_batch(actions.len());
    let mut i: usize = 0;
    while i < actions.len()
        invariant
            i <= actions@.len(),
            rows == add_dv_rows(action_models(actions@)),
            decoded_columns(no_dv_columns(), rows, i as int) == Ok::<DvColumns, ErrorModel>(
                decoder@,
            ),
        decreases actions@.len() - i,
    {
        assert(rows[i as int] == actions@[i as int].add_dv@);
        match decode_dv_row(&actions[i].add_dv) {
            Ok(dv) => decoder.push_row(dv),
            Err(e) => {
                proof {
                    lemma_decoded_error(no_dv_columns(), rows, i + 1, rows.len() as int);
                }
                return Err(e);
            },
        }
        i += 1;
    }
    Ok(decoder)
}

/// A batch of a commit, with the rows that the two steps made of it. An error of the engine
/// counts only where the steps are taken.
pub struct CommitBatch {
    pub version: Version,
    pub actions: Vec<LogAction>,
    pub evaluated: DeltaResult<Vec<ContentTreeNodeEntry>>,
}

/// The model of a [`CommitBatch`].
pub ghost struct CommitModel {
    pub version: Version,
    pub actions: Seq<ActionModel>,
    pub evaluated: Result<Seq<EntryModel>, ErrorModel>,
}

impl View for CommitBatch {
    type V = CommitModel;

    open spec fn view(&self) -> CommitModel {
        CommitModel {
            version: self.version,
            actions: action_models(self.actions@),
            evaluated: match self.evaluated {
                Ok(rows) => Ok(entry_models(rows@)),
                Err(e) => Err(e@),
            },
        }
    }
}

/// The models of a list of commits.
pub open spec fn commit_models(commits: Seq<CommitBatch>) -> Seq<CommitModel> {
    Seq::new(commits.len(), |i: int| commits[i]@)
}

/// What one commit does to a replay, and the rows that survive of it: none where it is older
/// than `from_version` or where no row survives.
#[verifier::opaque]
pub open spec fn commit_replayed(
    state: ReplayModel,
    commit: CommitModel,
    from_version: Version,
) -> (ReplayModel, Result<Option<Seq<EntryModel>>, ErrorModel>) {
    if commit.version < from_version {
        (state, Ok(None))
    } else {
        let (after, plan) = actions_processed(state, commit.actions);
        match plan {
            Err(e) => (after, Err(e)),
            Ok((_, None)) => (after, Ok(None)),
            Ok((selection, Some(_))) => match commit.evaluated {
                Err(e) => (after, Err(e)),
                Ok(rows) => match selection_applied(rows, selection) {
                    Ok(kept) => (after, Ok(Some(kept))),
                    Err(e) => (after, Err(e)),
                },
            },
        }
    }
}

/// What the first `n` commits do to a replay, and the batches that survive. Nothing happens
/// after the first error.
pub open spec fn commits_replayed(
    state: ReplayModel,
    commits: Seq<CommitModel>,
    from_version: Version,
    n: int,
) -> (ReplayModel, Result<Seq<Seq<EntryModel>>, ErrorModel>)
    decreases n,
{
    if n <= 0 {
        (state, Ok(Seq::empty()))
    } else {
        let (before, batches) = commits_replayed(state, commits, from_version, n - 1);
        match batches {
            Err(e) => (before, Err(e)),
            Ok(batches) => {
                let (after, rows) = commit_replayed(before, commits[n - 1], from_version);
                match rows {
                    Ok(Some(rows)) => (after, Ok(batches.push(rows))),
                    Ok(None) => (after, Ok(batches)),
                    Err(e) => (after, Err(e)),
                }
            },
        }
    }
}

/// After an error nothing happens.
proof fn lemma_commits_stop(
    state: ReplayModel,
    commits: Seq<CommitModel>,
    from_version: Version,
    m: int,
    n: int,
)
    requires
        0 <= m <= n,
        commits_replayed(state, commits, from_version, m).1 is Err,
    ensures
        commits_replayed(state, commits, from_version, n) == commits_replayed(
            state,
            commits,
            from_version,
            m,
        ),
    decreases n,
{
    if m < n {
        lemma_commits_stop(state, commits, from_version, m, n - 1);
    }
}

/// What one commit more does to a replay that went well so far.
proof fn lemma_commit_step(
    state: ReplayModel,
    commits: Seq<CommitModel>,
    from_version: Version,
    n: int,
    before: ReplayModel,
    batches: Seq<Seq<EntryModel>>,
)
    requires
        0 <= n < commits.len(),
        commits_replayed(state, commits, from_version, n) == (
            before,
            Ok::<Seq<Seq<EntryModel>>, ErrorModel>(batches),
        ),
    ensures
        ({
            let (after, rows) = commit_replayed(before, commits[n], from_version);
            commits_replayed(state, commits, from_version, n + 1) == (
                after,
                match rows {
                    Ok(Some(rows)) => Ok::<Seq<Seq<EntryModel>>, ErrorModel>(batches.push(rows)),
                    Ok(None) => Ok::<Seq<Seq<EntryModel>>, ErrorModel>(batches),
                    Err(e) => Err::<Seq<Seq<EntryModel>>, ErrorModel>(e),
                },
            )
        }),
{
}

/// Replays one commit.
fn replay_commit(
    processor: &mut ContentRootRebuildProcessor,
    commit: CommitBatch,
    from_version: Version,
) -> (rows: DeltaResult<Option<Vec<ContentTreeNodeEntry>>>)
    requires
        old(processor).wf(),
    ensures
        final(processor).wf(),
        ({
            let (state, result) = commit_replayed(old(processor)@.replay, commit@, from_version);
            &&& final(processor)@ == (ProcessorModel { replay: state, ..old(processor)@ })
            &&& match rows {
                Ok(Some(r)) => result == Ok::<Option<Seq<EntryModel>>, ErrorModel>(
                    Some(entry_models(r@)),
                ),
                Ok(None) => result == Ok::<Option<Seq<EntryModel>>, ErrorModel>(None),
                Err(e) => result == Err::<Option<Seq<EntryModel>>, ErrorModel>(e@),
            }
        }),
{
    proof {
        reveal(commit_replayed);
    }
    if commit.version < from_version {
        return Ok(None);
    }
    let plan = match processor.process_actions_batch(&commit.actions) {
        Ok(plan) => plan,
        Err(e) => {
            return Err(e);
        },
    };
    if plan.dv_columns.is_none() {
        return Ok(None);
    }
    match commit.evaluated {
        Ok(rows) => match apply_selection_vector(rows, &plan.selection_vector) {
            Ok(kept) => Ok(Some(kept)),
            Err(e) => Err(e),
        },
        Err(e) => Err(e),
    }
}

/// Replays the commits at or after `from_version`, in the order in which they are handed in,
/// which is from the newest to the oldest. Returns one batch of entries for each commit of
/// which any row survives.
pub fn replay_log_commits(
    processor: &mut ContentRootRebuildProcessor,
    commits: Vec<CommitBatch>,
    from_version: Version,
) -> (batches: DeltaResult<Vec<Vec<ContentTreeNodeEntry>>>)
    requires
        old(processor).wf(),
    ensures
        final(processor).wf(),
        ({
            let (state, result) = commits_replayed(
                old(processor)@.replay,
                commit_models(commits@),
                from_version,
                commits@.len() as int,
            );
            &&& final(processor)@ == (ProcessorModel { replay: state, ..old(processor)@ })
            &&& match batches {
                Ok(b) => result == Ok::<Seq<Seq<EntryModel>>, ErrorModel>(batch_models(b@)),
                Err(e) => result == Err::<Seq<Seq<EntryModel>>, ErrorModel>(e@),
            }
        }),
{
    let ghost models = commit_models(commits@);
    let ghost start = processor@;
    let mut batches: Vec<Vec<ContentTreeNodeEntry>> = Vec::new();
    assert(batch_models(batches@) =~= Seq::empty());
    for commit in iter: commits
        invariant
            processor.wf(),
            commit_models(iter.seq()) == models,
            start == old(processor)@,
            processor@ == (ProcessorModel { replay: processor@.replay, ..start }),
            commits_replayed(start.replay, models, from_version, iter.index() as int) == (
                processor@.replay,
                Ok::<Seq<Seq<EntryModel>>, ErrorModel>(batch_models(batches@)),
            ),
    {
        assert(models[iter.index() as int] == commit@);
        let ghost so_far = batches@;
        proof {
            lemma_commit_step(
                start.replay,
                models,
                from_version,
                iter.index() as int,
                processor@.replay,
                batch_models(so_far),
            );
        }
        match replay_commit(processor, commit, from_version) {
            Ok(Some(rows)) => {
                batches.push(rows);
                assert(batch_models(batches@) =~= batch_models(so_far).push(entry_models(rows@)));
            },
            Ok(None) => {},
            Err(e) => {
                proof {
                    lemma_commits_stop(
                        start.replay,
                        models,
                        from_version,
                        iter.index() + 1,
                        models.len() as int,
                    );
                }
                return Err(e);
            },
        }
    }
    Ok(batches)
}

} // verus!
