//! From the state of a manifest commit to the builder of the new root: the baseline, and what
//! the commit does to it.

use roaring::RoaringTreemap;
use vstd::prelude::*;

use crate::builder::{
    all_rows, batch_models, content_root_location, content_root_url, empty_builder, entries_added,
    existing_rows_added, file_count_overflow, flat_rows, is_data_file_at, loaded_builder,
    record_sum_fits, root_cleared, BuilderModel, ContentTreeNodeBuilder, Version,
};
use crate::dv_cache::LeafPositionUpdate;
use crate::entry::{entry_models, ContentTreeNodeEntry, DataContentType, EntryModel};
use crate::error::{viewed, DeltaResult, ErrorModel};
use crate::leaf_updates::{
    leaf_update_failed, leaf_updates_begun, leaf_updates_made, leaf_updates_possible,
};
use crate::location::clone_url;
use crate::manifest_commit::{
    data_files_removed, dvs_removed, leaves_put_in, ManifestCommitModel, ManifestCommitState,
};
use crate::replay::{
    commit_models, commits_replayed, fresh_processor, groups_removes, kept_entries, positions_at,
    replay_log_commits, CommitBatch, CommitModel, ContentRootRebuildProcessor, ReplayModel,
};
use crate::scan_updates::bitmap_models;
use crate::schema::StructType;
use crate::selection::lemma_all_selected;
use crate::sequence::{lemma_filter_all, lemma_filter_twice};
use crate::string_map::StringMap;

verus! {

/// The keys of the first `n` elements of an order.
spec fn first_keys(order: Seq<Seq<char>>, n: int) -> Set<Seq<char>> {
    order.take(n).to_set()
}

/// One element more in an order, one key more.
proof fn lemma_first_keys_step(order: Seq<Seq<char>>, n: int)
    requires
        0 <= n < order.len(),
    ensures
        first_keys(order, n + 1) == first_keys(order, n).insert(order[n]),
{
    assert(order.take(n + 1) =~= order.take(n).push(order[n]));
    order.take(n).lemma_push_to_set_commute(order[n]);
}

/// Taking out nothing changes nothing.
proof fn lemma_nothing_removed(builder: BuilderModel)
    ensures
        data_files_removed(builder, Set::empty()) == builder,
        dvs_removed(builder, Set::empty()) == builder,
{
    let none = Set::<Seq<char>>::empty();
    lemma_filter_all(
        builder.entries,
        |entry: EntryModel|
            !(entry.location is Some && none.contains(entry.location->Some_0)
                && entry.content_type == DataContentType::Data),
    );
    lemma_filter_all(
        builder.entries,
        |entry: EntryModel| !(entry.location is Some && none.contains(entry.location->Some_0)),
    );
    assert(builder.caches.remove_keys(none) =~= builder.caches);
    assert(builder.seen.difference(none) =~= builder.seen);
}

/// Taking out the data files at one path more.
proof fn lemma_data_file_removed(builder: BuilderModel, paths: Set<Seq<char>>, path: Seq<char>)
    ensures
        ({
            let before = data_files_removed(builder, paths);
            data_files_removed(builder, paths.insert(path)) == (BuilderModel {
                entries: before.entries.filter(|entry: EntryModel| !is_data_file_at(entry, path)),
                caches: before.caches.remove(path),
                seen: before.seen.remove(path),
                ..before
            })
        }),
{
    let more = paths.insert(path);
    lemma_filter_twice(
        builder.entries,
        |entry: EntryModel|
            !(entry.location is Some && paths.contains(entry.location->Some_0)
                && entry.content_type == DataContentType::Data),
        |entry: EntryModel| !is_data_file_at(entry, path),
        |entry: EntryModel|
            !(entry.location is Some && more.contains(entry.location->Some_0)
                && entry.content_type == DataContentType::Data),
    );
    assert(builder.caches.remove_keys(more) =~= builder.caches.remove_keys(paths).remove(path));
    assert(builder.seen.difference(more) =~= builder.seen.difference(paths).remove(path));
}

/// Taking out the entries at one path more.
proof fn lemma_dv_removed(builder: BuilderModel, paths: Set<Seq<char>>, path: Seq<char>)
    ensures
        ({
            let before = dvs_removed(builder, paths);
            dvs_removed(builder, paths.insert(path)) == (BuilderModel {
                entries: before.entries.filter(
                    |entry: EntryModel| entry.location != Some(path),
                ),
                caches: before.caches.remove(path),
                seen: before.seen.remove(path),
                ..before
            })
        }),
{
    let more = paths.insert(path);
    lemma_filter_twice(
        builder.entries,
        |entry: EntryModel| !(entry.location is Some && paths.contains(entry.location->Some_0)),
        |entry: EntryModel| entry.location != Some(path),
        |entry: EntryModel| !(entry.location is Some && more.contains(entry.location->Some_0)),
    );
    assert(builder.caches.remove_keys(more) =~= builder.caches.remove_keys(paths).remove(path));
    assert(builder.seen.difference(more) =~= builder.seen.difference(paths).remove(path));
}

/// All keys of an order are the keys of the map.
proof fn lemma_all_keys(map: StringMap<()>)
    requires
        map.wf(),
    ensures
        first_keys(map.order(), map.order().len() as int) == map@.dom(),
        first_keys(map.order(), 0) == Set::<Seq<char>>::empty(),
{
    map.lemma_order();
    assert(map.order().take(map.order().len() as int) =~= map.order());
    assert(map.order().to_set() =~= map@.dom());
    assert(map.order().take(0).to_set() =~= Set::<Seq<char>>::empty());
}

impl ManifestCommitState {
    /// Does to a builder what the commit collected: the entries of new leaves are added, files
    /// and deletion vectors that moved into leaves are taken out, and positions that moved from
    /// one leaf to another are masked where they were. This is a reorganization: no deletion is
    /// recorded. Where a position cannot be masked, what was done before stays done.
    pub fn apply_to_builder(&self, builder: &mut ContentTreeNodeBuilder) -> (applied: DeltaResult<()>)
        requires
            self.wf(),
            old(builder).wf(),
        ensures
            final(builder).wf(),
            ({
                let put_in = leaves_put_in(self@, old(builder)@);
                match applied {
                    Ok(_) => {
                        &&& leaf_updates_possible(
                            put_in,
                            self@.manifest_dvs,
                            LeafPositionUpdate::Carryover,
                        )
                        &&& final(builder)@ == leaf_updates_made(
                            put_in,
                            self@.manifest_dvs,
                            LeafPositionUpdate::Carryover,
                        )
                    },
                    Err(e) => {
                        &&& leaf_update_failed(
                            put_in,
                            self@.manifest_dvs,
                            LeafPositionUpdate::Carryover,
                            e@,
                        )
                        &&& leaf_updates_begun(
                            put_in,
                            self@.manifest_dvs,
                            LeafPositionUpdate::Carryover,
                            final(builder)@,
                        )
                    },
                }
            }),
    {
        let ghost start = builder@;
        let mut i: usize = 0;
        while i < self.leaf_manifests.len()
            invariant
                builder.wf(),
                i <= self.leaf_manifests@.len(),
                builder@ == entries_added(start, self@.leaf_manifests, i as int),
            decreases self.leaf_manifests@.len() - i,
        {
            assert(self@.leaf_manifests[i as int] == self.leaf_manifests@[i as int]@);
            builder.add_entry(self.leaf_manifests[i].clone());
            i += 1;
        }
        let ghost with_leaves = builder@;
        let ghost files = self.aggregated_unreconciled.order();
        proof {
            lemma_all_keys(self.aggregated_unreconciled);
            lemma_nothing_removed(with_leaves);
        }
        let mut k: usize = 0;
        while k < self.aggregated_unreconciled.len()
            invariant
                self.wf(),
                builder.wf(),
                files == self.aggregated_unreconciled.order(),
                k <= files.len(),
                builder@ == data_files_removed(with_leaves, first_keys(files, k as int)),
            decreases files.len() - k,
        {
            let path = self.aggregated_unreconciled.key(k);
            proof {
                lemma_first_keys_step(files, k as int);
                lemma_data_file_removed(with_leaves, first_keys(files, k as int), path@);
            }
            let _ = builder.remove_data_file(path.as_str());
            k += 1;
        }
        let ghost without_files = builder@;
        let ghost dvs = self.aggregated_root_dv_actions.order();
        proof {
            lemma_all_keys(self.aggregated_root_dv_actions);
            lemma_nothing_removed(without_files);
        }
        let mut m: usize = 0;
        while m < self.aggregated_root_dv_actions.len()
            invariant
                self.wf(),
                builder.wf(),
                dvs == self.aggregated_root_dv_actions.order(),
                m <= dvs.len(),
                builder@ == dvs_removed(without_files, first_keys(dvs, m as int)),
            decreases dvs.len() - m,
        {
            let path = self.aggregated_root_dv_actions.key(m);
            proof {
                lemma_first_keys_step(dvs, m as int);
                lemma_dv_removed(without_files, first_keys(dvs, m as int), path@);
            }
            let _ = builder.remove_dv(path.as_str());
            m += 1;
        }
        builder.update_leaves(
            &self.aggregated_manifest_dvs,
            LeafPositionUpdate::Carryover,
            false,
        )
    }
}

/// What the baseline of a new root is made of.
#[derive(Debug)]
pub enum ContentRootPlan {
    /// The content root at a path is current: it is loaded as it is.
    Load(String),
    /// The client took control of the root: it starts out empty.
    Empty,
    /// The log is replayed from a version on, and the content root at a path, if there is one,
    /// below it.
    Replay(Version, Option<String>),
}

/// The model of a [`ContentRootPlan`].
pub ghost enum PlanModel {
    Load(Seq<char>),
    Empty,
    Replay(Version, Option<Seq<char>>),
}

impl View for ContentRootPlan {
    type V = PlanModel;

    open spec fn view(&self) -> PlanModel {
        match self {
            ContentRootPlan::Load(path) => PlanModel::Load(path@),
            ContentRootPlan::Empty => PlanModel::Empty,
            ContentRootPlan::Replay(version, path) => PlanModel::Replay(*version, viewed(*path)),
        }
    }
}

/// What the baseline is made of: a content root that covers the snapshot is current; commits
/// behind the checkpoint, or all commits without a checkpoint, are replayed.
pub open spec fn baseline_plan(commit: ManifestCommitModel) -> PlanModel {
    match commit.snapshot.checkpoint {
        Some(checkpoint) => if checkpoint.version >= commit.snapshot.version {
            PlanModel::Load(checkpoint.path)
        } else if commit.root_released {
            PlanModel::Empty
        } else {
            PlanModel::Replay((checkpoint.version + 1) as u64, Some(checkpoint.path))
        },
        None => if commit.root_released {
            PlanModel::Empty
        } else {
            PlanModel::Replay(0, None)
        },
    }
}

/// The removed positions, by leaf manifest.
pub open spec fn removed_positions(removes: Seq<(Seq<char>, u64)>) -> Map<Seq<char>, Set<u64>> {
    Map::new(
        |path: Seq<char>| exists|position: u64| removes.contains((path, position)),
        |path: Seq<char>| positions_at(removes, path),
    )
}

/// What adding the first `n` replayed batches does to a builder.
pub open spec fn batches_added(
    builder: BuilderModel,
    batches: Seq<Seq<EntryModel>>,
    n: int,
) -> Result<BuilderModel, ErrorModel>
    decreases n,
{
    if n <= 0 {
        Ok(builder)
    } else {
        match batches_added(builder, batches, n - 1) {
            Ok(before) => if batches[n - 1].len() > i32::MAX {
                Err(file_count_overflow(batches[n - 1].len() as int))
            } else {
                Ok(existing_rows_added(before, batches[n - 1]))
            },
            Err(e) => Err(e),
        }
    }
}

/// An error among the first batches is the error of all of them.
proof fn lemma_batches_stop(
    builder: BuilderModel,
    batches: Seq<Seq<EntryModel>>,
    m: int,
    n: int,
)
    requires
        0 <= m <= n,
        batches_added(builder, batches, m) is Err,
    ensures
        batches_added(builder, batches, n) == batches_added(builder, batches, m),
    decreases n,
{
    if m < n {
        lemma_batches_stop(builder, batches, m, n - 1);
    }
}

/// The builder that a commit starts out with where nothing is loaded.
pub open spec fn blank_builder(commit: ManifestCommitModel) -> BuilderModel {
    BuilderModel {
        partition_type: commit.snapshot.partition_type,
        ..empty_builder(
            commit.snapshot.table_root,
            commit.version_to_write,
            commit.snapshot.physical_schema,
        )
    }
}

/// A replay that has seen nothing.
pub open spec fn nothing_seen() -> ReplayModel {
    ReplayModel { keys: Set::empty(), removes: Seq::empty() }
}

/// The log replayed into the builder: what was seen, and the builder with the surviving rows.
pub open spec fn log_replayed(
    commit: ManifestCommitModel,
    commits: Seq<CommitModel>,
    from_version: Version,
) -> Result<(ReplayModel, BuilderModel), ErrorModel> {
    match fresh_processor(
        commit.snapshot_id,
        commit.version_to_write as i64,
        commit.snapshot.physical_schema,
        commit.snapshot.partition_type,
    ) {
        Err(e) => Err(e),
        Ok(_) => {
            let (replay, batches) = commits_replayed(
                nothing_seen(),
                commits,
                from_version,
                commits.len() as int,
            );
            match batches {
                Err(e) => Err(e),
                Ok(batches) => match batches_added(
                    blank_builder(commit),
                    batches,
                    batches.len() as int,
                ) {
                    Err(e) => Err(e),
                    Ok(builder) => Ok((replay, builder)),
                },
            }
        },
    }
}

/// The builder with what is kept of the content root.
pub open spec fn root_replayed(
    replay: ReplayModel,
    builder: BuilderModel,
    rows: Seq<EntryModel>,
) -> BuilderModel {
    let kept = kept_entries(replay.keys, rows, rows.len() as int);
    entries_added(builder, kept, kept.len() as int)
}

/// The removed positions of the leaf manifests that the builder holds.
pub open spec fn leaf_removals(replay: ReplayModel, builder: BuilderModel) -> Map<
    Seq<char>,
    Set<u64>,
> {
    removed_positions(replay.removes).restrict(builder.caches.dom())
}

/// Whether `result` is the baseline of the new root, or why there is none.
pub open spec fn is_baseline(
    commit: ManifestCommitModel,
    commits: Seq<CommitModel>,
    root_batches: Seq<Seq<EntryModel>>,
    result: Result<BuilderModel, ErrorModel>,
) -> bool {
    match baseline_plan(commit) {
        PlanModel::Load(path) => match content_root_location(commit.snapshot.table_root, path) {
            Err(e) => result == Err::<BuilderModel, ErrorModel>(e),
            Ok(_) => {
                let loaded = loaded_builder(
                    all_rows(root_batches),
                    commit.snapshot.table_root,
                    commit.snapshot.physical_schema,
                    commit.version_to_write,
                    commit.snapshot.partition_type,
                );
                result == Ok::<BuilderModel, ErrorModel>(
                    if commit.root_released {
                        root_cleared(loaded)
                    } else {
                        loaded
                    },
                )
            },
        },
        PlanModel::Empty => result == Ok::<BuilderModel, ErrorModel>(blank_builder(commit)),
        PlanModel::Replay(from_version, root_path) => match log_replayed(
            commit,
            commits,
            from_version,
        ) {
            Err(e) => result == Err::<BuilderModel, ErrorModel>(e),
            Ok((replay, with_log)) => match root_path {
                None => result == Ok::<BuilderModel, ErrorModel>(with_log),
                Some(path) => match content_root_location(commit.snapshot.table_root, path) {
                    Err(e) => result == Err::<BuilderModel, ErrorModel>(e),
                    Ok(_) => {
                        let with_root = root_replayed(replay, with_log, all_rows(root_batches));
                        let removals = leaf_removals(replay, with_root);
                        match result {
                            Ok(builder) => {
                                &&& leaf_updates_possible(
                                    with_root,
                                    removals,
                                    LeafPositionUpdate::Delete,
                                )
                                &&& builder == leaf_updates_made(
                                    with_root,
                                    removals,
                                    LeafPositionUpdate::Delete,
                                )
                            },
                            Err(e) => leaf_update_failed(
                                with_root,
                                removals,
                                LeafPositionUpdate::Delete,
                                e,
                            ),
                        }
                    },
                },
            },
        },
    }
}

/// The record counts of every surviving batch can be added up.
pub open spec fn replay_fits(commit: ManifestCommitModel, commits: Seq<CommitModel>) -> bool {
    baseline_plan(commit) matches PlanModel::Replay(from_version, _) ==> (commits_replayed(
        nothing_seen(),
        commits,
        from_version,
        commits.len() as int,
    ).1 matches Ok(batches) ==> forall|i: int|
        0 <= i < batches.len() ==> record_sum_fits(#[trigger] batches[i]))
}

/// Puts the rows of some batches one after the other.
fn flatten_rows(batches: Vec<Vec<ContentTreeNodeEntry>>) -> (rows: Vec<ContentTreeNodeEntry>)
    ensures
        entry_models(rows@) == all_rows(batch_models(batches@)),
{
    let ghost models = batch_models(batches@);
    let mut rows: Vec<ContentTreeNodeEntry> = Vec::new();
    assert(entry_models(rows@) =~= Seq::empty());
    for batch in iter: batches
        invariant
            batch_models(iter.seq()) == models,
            entry_models(rows@) == flat_rows(models, iter.index() as int),
    {
        assert(models[iter.index() as int] == entry_models(batch@));
        let ghost so_far = rows@;
        let mut more = batch;
        rows.append(&mut more);
        assert(entry_models(rows@) =~= entry_models(so_far) + entry_models(batch@));
    }
    rows
}

/// Replays the content root: what is kept of its rows.
pub fn replay_content_root(
    processor: &ContentRootRebuildProcessor,
    root_batches: Vec<Vec<ContentTreeNodeEntry>>,
) -> (entries: Vec<ContentTreeNodeEntry>)
    requires
        processor.wf(),
    ensures
        ({
            let rows = all_rows(batch_models(root_batches@));
            entry_models(entries@) == kept_entries(
                processor@.replay.keys,
                rows,
                rows.len() as int,
            )
        }),
{
    let rows = flatten_rows(root_batches);
    let ghost models = entry_models(rows@);
    proof {
        lemma_all_selected(models, Seq::empty(), models.len() as int);
        assert(models.take(models.len() as int) =~= models);
    }
    processor.process_root_batch(rows, &Vec::new())
}

/// The groups of removed positions are the removed positions by leaf manifest.
proof fn lemma_groups(map: Map<Seq<char>, RoaringTreemap>, removes: Seq<(Seq<char>, u64)>)
    requires
        groups_removes(map, removes),
    ensures
        bitmap_models(map) == removed_positions(removes),
{
    assert forall|path: Seq<char>| bitmap_models(map).contains_key(path)
        <==> removed_positions(removes).contains_key(path) by {
        assert(map.contains_key(path) <==> exists|position: u64|
            removes.contains((path, position)));
    }
    assert(bitmap_models(map) =~= removed_positions(removes));
}

impl ManifestCommitState {
    /// Says what the baseline of the new root is made of, so that it can be read.
    pub fn content_root_plan(&self) -> (plan: ContentRootPlan)
        ensures
            plan@ == baseline_plan(self@),
    {
        match &self.read_snapshot.checkpoint_action {
            Some(checkpoint) => {
                if checkpoint.version >= self.read_snapshot.version {
                    return ContentRootPlan::Load(checkpoint.content_root.path.clone());
                }
                if self.root_released {
                    return ContentRootPlan::Empty;
                }
                ContentRootPlan::Replay(
                    checkpoint.version + 1,
                    Some(checkpoint.content_root.path.clone()),
                )
            },
            None => if self.root_released {
                ContentRootPlan::Empty
            } else {
                ContentRootPlan::Replay(0, None)
            },
        }
    }

    /// The builder that the commit starts out with where nothing is loaded.
    fn blank(&self) -> (builder: ContentTreeNodeBuilder)
        ensures
            builder.wf(),
            builder@ == blank_builder(self@),
    {
        let partition_type: Option<StructType> = match &self.read_snapshot.partition_type {
            Some(fields) => Some(fields.clone()),
            None => None,
        };
        ContentTreeNodeBuilder::new_for(
            clone_url(&self.read_snapshot.table_root),
            self.version_to_write,
            self.read_snapshot.physical_schema.clone(),
        ).with_partition_type(partition_type)
    }

    /// Makes the baseline of the new root, given what was read by the plan: the commits of the
    /// log from the newest to the oldest, and the batches of the content root.
    ///
    /// A current content root is loaded. Otherwise the log is replayed, the content root below
    /// it, and positions of leaf manifests that the log removed are masked.
    ///
    /// Where the client took control of the root, only references to leaf manifests are left of
    /// a current content root, and nothing is replayed or left where there is none that is
    /// current.
    pub fn initialize_content_root_builder(
        &self,
        commits: Vec<CommitBatch>,
        root_batches: Vec<Vec<ContentTreeNodeEntry>>,
    ) -> (made: DeltaResult<ContentTreeNodeBuilder>)
        requires
            replay_fits(self@, commit_models(commits@)),
        ensures
            made matches Ok(builder) ==> builder.wf(),
            is_baseline(
                self@,
                commit_models(commits@),
                batch_models(root_batches@),
                match made {
                    Ok(builder) => Ok(builder@),
                    Err(e) => Err(e@),
                },
            ),
    {
        let (from_version, root_path) = match self.content_root_plan() {
            ContentRootPlan::Load(path) => {
                return self.load_content_root(path, root_batches);
            },
            ContentRootPlan::Empty => {
                return Ok(self.blank());
            },
            ContentRootPlan::Replay(from_version, root_path) => (from_version, root_path),
        };
        let (builder, processor) = match self.replay_log(commits, from_version) {
            Ok(replayed) => replayed,
            Err(e) => {
                return Err(e);
            },
        };
        let path: String = match root_path {
            Some(path) => path,
            None => {
                return Ok(builder);
            },
        };
        match content_root_url(&self.read_snapshot.table_root, path.as_str()) {
            Ok(_) => {},
            Err(e) => {
                return Err(e);
            },
        }
        replay_root(builder, processor, root_batches)
    }

    /// Replays the log into a builder.
    fn replay_log(&self, commits: Vec<CommitBatch>, from_version: Version) -> (replayed:
        DeltaResult<(ContentTreeNodeBuilder, ContentRootRebuildProcessor)>)
        requires
            commits_replayed(
                nothing_seen(),
                commit_models(commits@),
                from_version,
                commits@.len() as int,
            ).1 matches Ok(batches) ==> forall|i: int|
                0 <= i < batches.len() ==> record_sum_fits(#[trigger] batches[i]),
        ensures
            match replayed {
                Ok((builder, processor)) => {
                    &&& builder.wf()
                    &&& processor.wf()
                    &&& log_replayed(self@, commit_models(commits@), from_version) == Ok::<
                        (ReplayModel, BuilderModel),
                        ErrorModel,
                    >((processor@.replay, builder@))
                },
                Err(e) => log_replayed(self@, commit_models(commits@), from_version) == Err::<
                    (ReplayModel, BuilderModel),
                    ErrorModel,
                >(e@),
            },
    {
        let mut builder = self.blank();
        let mut processor = match ContentRootRebuildProcessor::new(
            self.snapshot_id,
            self.version_to_write as i64,
            &self.read_snapshot.physical_schema,
            &self.read_snapshot.partition_type,
        ) {
            Ok(processor) => processor,
            Err(e) => {
                return Err(e);
            },
        };
        let batches = match replay_log_commits(&mut processor, commits, from_version) {
            Ok(batches) => batches,
            Err(e) => {
                return Err(e);
            },
        };
        match add_replayed_batches(&mut builder, batches) {
            Ok(_) => Ok((builder, processor)),
            Err(e) => Err(e),
        }
    }

    /// Loads a content root that is current.
    fn load_content_root(
        &self,
        path: String,
        root_batches: Vec<Vec<ContentTreeNodeEntry>>,
    ) -> (made: DeltaResult<ContentTreeNodeBuilder>)
        requires
            baseline_plan(self@) == PlanModel::Load(path@),
        ensures
            made matches Ok(builder) ==> builder.wf(),
            is_baseline(
                self@,
                Seq::empty(),
                batch_models(root_batches@),
                match made {
                    Ok(builder) => Ok(builder@),
                    Err(e) => Err(e@),
                },
            ),
    {
        match content_root_url(&self.read_snapshot.table_root, path.as_str()) {
            Ok(_) => {},
            Err(e) => {
                return Err(e);
            },
        }
        let partition_type: Option<StructType> = match &self.read_snapshot.partition_type {
            Some(fields) => Some(fields.clone()),
            None => None,
        };
        let mut builder = ContentTreeNodeBuilder::from_content_root(
            flatten_rows(root_batches),
            clone_url(&self.read_snapshot.table_root),
            self.read_snapshot.physical_schema.clone(),
            self.version_to_write,
            partition_type,
        );
        if self.root_released {
            builder.clear_root_data_and_dv_entries();
        }
        Ok(builder)
    }
}

/// Replays the content root below the log, and masks the positions that the log removed.
fn replay_root(
    builder: ContentTreeNodeBuilder,
    processor: ContentRootRebuildProcessor,
    root_batches: Vec<Vec<ContentTreeNodeEntry>>,
) -> (made: DeltaResult<ContentTreeNodeBuilder>)
    requires
        builder.wf(),
        processor.wf(),
    ensures
        ({
            let with_root = root_replayed(
                processor@.replay,
                builder@,
                all_rows(batch_models(root_batches@)),
            );
            let removals = leaf_removals(processor@.replay, with_root);
            match made {
                Ok(m) => {
                    &&& m.wf()
                    &&& leaf_updates_possible(with_root, removals, LeafPositionUpdate::Delete)
                    &&& m@ == leaf_updates_made(with_root, removals, LeafPositionUpdate::Delete)
                },
                Err(e) => leaf_update_failed(with_root, removals, LeafPositionUpdate::Delete, e@),
            }
        }),
{
    let mut made = builder;
    let mut replayed = processor;
    let entries = replay_content_root(&replayed, root_batches);
    assert(entry_models(entries@).len() == entries@.len());
    add_entries(&mut made, entries);
    let removals = replayed.deleted_leaf_positions_by_location();
    proof {
        lemma_groups(removals@, processor@.replay.removes);
    }
    match made.update_leaves(&removals, LeafPositionUpdate::Delete, true) {
        Ok(_) => Ok(made),
        Err(e) => Err(e),
    }
}

/// Adds replayed batches to a builder.
fn add_replayed_batches(
    builder: &mut ContentTreeNodeBuilder,
    batches: Vec<Vec<ContentTreeNodeEntry>>,
) -> (added: DeltaResult<()>)
    requires
        old(builder).wf(),
        forall|i: int|
            0 <= i < batches@.len() ==> record_sum_fits(#[trigger] batch_models(batches@)[i]),
    ensures
        final(builder).wf(),
        match added {
            Ok(_) => batches_added(
                old(builder)@,
                batch_models(batches@),
                batches@.len() as int,
            ) == Ok::<BuilderModel, ErrorModel>(final(builder)@),
            Err(e) => batches_added(
                old(builder)@,
                batch_models(batches@),
                batches@.len() as int,
            ) == Err::<BuilderModel, ErrorModel>(e@),
        },
{
    let ghost models = batch_models(batches@);
    let ghost start = builder@;
    for batch in iter: batches
        invariant
            builder.wf(),
            start == old(builder)@,
            batch_models(iter.seq()) == models,
            forall|i: int| 0 <= i < models.len() ==> record_sum_fits(#[trigger] models[i]),
            batches_added(start, models, iter.index() as int) == Ok::<BuilderModel, ErrorModel>(
                builder@,
            ),
    {
        assert(models[iter.index() as int] == entry_models(batch@));
        match builder.add_pre_built_log_batch(batch) {
            Ok(_) => {},
            Err(e) => {
                proof {
                    lemma_batches_stop(start, models, iter.index() + 1, models.len() as int);
                }
                return Err(e);
            },
        }
    }
    Ok(())
}

/// Adds entries to a builder, one after the other.
fn add_entries(builder: &mut ContentTreeNodeBuilder, entries: Vec<ContentTreeNodeEntry>)
    requires
        old(builder).wf(),
    ensures
        final(builder).wf(),
        final(builder)@ == entries_added(
            old(builder)@,
            entry_models(entries@),
            entries@.len() as int,
        ),
{
    let ghost models = entry_models(entries@);
    let ghost start = builder@;
    for entry in iter: entries
        invariant
            builder.wf(),
            start == old(builder)@,
            entry_models(iter.seq()) == models,
            builder@ == entries_added(start, models, iter.index() as int),
    {
        assert(models[iter.index() as int] == entry@);
        builder.add_entry(entry);
    }
}

} // verus!
