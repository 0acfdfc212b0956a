use content_tree::builder::ContentTreeNodeBuilder;
use content_tree::commit_builder::ContentRootPlan;
use content_tree::dv_columns::DvRow;
use content_tree::entry::{
    ContentTreeNodeEntry, ContentTreeNodeEntryBuilder, DataContentType, ManifestInfo,
    TrackingStatus,
};
use content_tree::error::{Error, ErrorKind};
use content_tree::manifest_commit::{
    check_explicit_root, CheckpointAction, ContentRoot, ExplicitRootManifestCommit, FileMeta,
    LeafNodeWriterResult, ManifestCommitState, ManifestDv, ScanRequest, Snapshot,
};
use content_tree::replay::{CommitBatch, DvReference, LogAction};
use content_tree::row_ids::CursorRowIdAllocator;
use content_tree::schema::{DataType, FieldList, StructField, StructType};
use roaring::RoaringTreemap;
use url::Url;

const ROOT: &str = "s3://bucket/table/";
const ROOT_MANIFEST: &str = "_delta_log/root.parquet";

fn schema() -> StructType {
    StructType::new_unchecked(
        FieldList::new().with(StructField::not_null("id", DataType::integer())),
    )
}

fn snapshot(version: u64, checkpoint: Option<(u64, &str)>) -> Snapshot {
    Snapshot {
        version,
        table_root: Url::parse(ROOT).unwrap(),
        physical_schema: schema(),
        partition_type: None,
        checkpoint_action: checkpoint.map(|(version, path)| CheckpointAction {
            version,
            content_root: ContentRoot { path: path.to_string() },
        }),
    }
}

fn state(version: u64, checkpoint: Option<(u64, &str)>) -> ManifestCommitState {
    ManifestCommitState::new(version + 1, 99, snapshot(version, checkpoint))
}

fn file_meta(location: &str) -> FileMeta {
    FileMeta { location: Url::parse(location).unwrap(), last_modified: 0, size: 1 }
}

fn bitmap(positions: &[u64]) -> RoaringTreemap {
    positions.iter().copied().collect()
}

fn data_file(location: &str) -> ContentTreeNodeEntry {
    ContentTreeNodeEntryBuilder::new(DataContentType::Data)
        .location(location)
        .with_tracking(TrackingStatus::Added, 1, 1)
        .record_count(10)
        .build()
}

fn leaf(location: &str, files: i32) -> ContentTreeNodeEntry {
    ContentTreeNodeEntryBuilder::new(DataContentType::DataManifest)
        .location(location)
        .with_tracking(TrackingStatus::Added, 1, 1)
        .manifest_info_opt(Some(ManifestInfo {
            added_files_count: files,
            added_rows_count: 10 * files as i64,
            ..Default::default()
        }))
        .build()
}

fn leaf_result(files: &[&str], leaf: Option<ContentTreeNodeEntry>) -> LeafNodeWriterResult {
    LeafNodeWriterResult {
        root_entries_to_remove: files.iter().map(|f| f.to_string()).collect(),
        root_dv_entries_to_remove: Vec::new(),
        manifest_dvs: Vec::new(),
        data_file_manifest_written: leaf,
    }
}

fn locations(builder: &ContentTreeNodeBuilder) -> Vec<&str> {
    builder.pending_entries.iter().map(|e| e.location.as_deref().unwrap()).collect()
}

#[test]
fn explicit_roots_need_a_current_checkpoint() {
    let below = "s3://bucket/table/_delta_log/new.parquet";
    let error = ExplicitRootManifestCommit::new(file_meta(below), &snapshot(4, None))
        .err()
        .unwrap();
    assert_eq!(error.kind, ErrorKind::InvalidTransactionState);
    assert_eq!(
        error.to_string(),
        "explicit root manifest commit requires an existing checkpoint action on the table"
    );

    let behind = snapshot(4, Some((3, ROOT_MANIFEST)));
    let error = ExplicitRootManifestCommit::new(file_meta(below), &behind).err().unwrap();
    assert_eq!(error.kind, ErrorKind::InvalidTransactionState);
    assert_eq!(
        error.to_string(),
        "explicit root manifest commit requires no delta log commits after the latest checkpoint \
         that are pending metadata-tree replay; checkpoint covers version 3 but snapshot is at 4"
    );

    let current = snapshot(4, Some((4, ROOT_MANIFEST)));
    let commit = ExplicitRootManifestCommit::new(file_meta(below), &current).ok().unwrap();
    assert_eq!(commit.file.location.as_str(), below);
}

#[test]
fn explicit_roots_lie_below_the_table_root() {
    let current = snapshot(4, Some((4, ROOT_MANIFEST)));
    for elsewhere in [
        "s3://bucket/other/x.parquet",
        "s3://other/table/x.parquet",
        "gs://bucket/table/x.parquet",
        "s3://bucket/table",
    ] {
        let error =
            ExplicitRootManifestCommit::new(file_meta(elsewhere), &current).err().unwrap();
        assert_eq!(
            error.to_string(),
            format!(
                "manifest location {:?} is not under the table root {:?}",
                Url::parse(elsewhere).unwrap(),
                Url::parse(ROOT).unwrap()
            )
        );
    }
    // the checkpoint is looked at first
    assert_eq!(
        check_explicit_root(false, "x", "y", &snapshot(4, None)).unwrap_err().kind,
        ErrorKind::InvalidTransactionState
    );
    let refused = check_explicit_root(false, "x", "y", &current).unwrap_err();
    assert_eq!(refused.to_string(), "manifest location x is not under the table root y");
    assert!(check_explicit_root(true, "x", "y", &current).is_ok());
}

#[test]
fn roots_are_released_once() {
    let mut state = state(4, None);
    assert_eq!(
        state.release_root_and_delta_actions().unwrap(),
        ScanRequest { skip_leaf_manifests: true, include_all_stats_columns: true }
    );
    let error = state.release_root_and_delta_actions().unwrap_err();
    assert_eq!(
        error.to_string(),
        "release_root_and_delta_actions() can only be called once per transaction"
    );
}

#[test]
fn root_manifests_are_located_below_the_table() {
    assert!(state(4, None).root_manifest_url().unwrap().is_none());
    let url = state(4, Some((4, ROOT_MANIFEST))).root_manifest_url().unwrap().unwrap();
    assert_eq!(url.as_str(), "s3://bucket/table/_delta_log/root.parquet");
    let error = state(4, Some((4, "//[bad"))).root_manifest_url().unwrap_err();
    assert_eq!(
        error.to_string(),
        "Failed to parse content root URL: invalid IPv6 address"
    );
    assert!(state(4, Some((4, "//[bad"))).new_leaf_node_writer().is_err());
}

#[test]
fn leaf_writers_know_the_root() -> Result<(), Error> {
    let mut state = state(4, Some((4, ROOT_MANIFEST)));
    let writer = state.new_leaf_node_writer()?;
    assert_eq!(writer.table_root.as_str(), ROOT);
    assert_eq!(writer.version, 5);
    assert_eq!(writer.snapshot_id, 99);
    assert_eq!(writer.physical_schema, schema());
    assert!(writer.track_root_removals);
    assert_eq!(writer.root_manifest_path.as_deref(), Some(ROOT_MANIFEST));

    state.release_root_and_delta_actions()?;
    assert!(!state.new_leaf_node_writer()?.track_root_removals);
    Ok(())
}

#[test]
fn no_file_moves_into_two_leaves() -> Result<(), Error> {
    let mut state = state(4, None);
    state.add_leaf(leaf_result(&["a", "b"], Some(leaf("leaf-1", 2))))?;
    let error = state
        .add_leaf(leaf_result(&["c", "b"], Some(leaf("leaf-2", 2))))
        .unwrap_err();
    assert_eq!(error.to_string(), "Duplicate unreconciled file across leaves: b");
    assert_eq!(state.leaf_manifests.len(), 1);
    assert!(!state.aggregated_unreconciled.contains_key("c"));
    // one leaf may name a file more than once
    state.add_leaf(leaf_result(&["d", "d"], None))?;
    assert_eq!(state.aggregated_unreconciled.len(), 3);
    assert_eq!(state.leaf_manifests.len(), 1);
    Ok(())
}

#[test]
fn moved_positions_unite() -> Result<(), Error> {
    let mut state = state(4, None);
    for rows in [&[1u64, 2][..], &[2, 5]] {
        state.add_leaf(LeafNodeWriterResult {
            root_entries_to_remove: Vec::new(),
            root_dv_entries_to_remove: vec!["dv".to_string()],
            manifest_dvs: vec![ManifestDv { manifest: "old".to_string(), rows: bitmap(rows) }],
            data_file_manifest_written: None,
        })?;
    }
    assert_eq!(state.aggregated_manifest_dvs.get("old"), Some(&bitmap(&[1, 2, 5])));
    assert_eq!(state.aggregated_root_dv_actions.len(), 1);
    Ok(())
}

#[test]
fn moved_files_leave_the_root() -> Result<(), Error> {
    let mut builder =
        ContentTreeNodeBuilder::new_for(Url::parse(ROOT).unwrap(), 5, schema());
    builder.add_entry(data_file("a"));
    builder.add_entry(data_file("b"));
    builder.add_entry(data_file("dv"));
    builder.add_entry(leaf("old", 4));

    let mut state = state(4, None);
    state.add_leaf(LeafNodeWriterResult {
        root_entries_to_remove: vec!["a".to_string()],
        root_dv_entries_to_remove: vec!["dv".to_string()],
        manifest_dvs: vec![ManifestDv { manifest: "old".to_string(), rows: bitmap(&[0, 3]) }],
        data_file_manifest_written: Some(leaf("new", 3)),
    })?;
    state.apply_to_builder(&mut builder)?;
    assert_eq!(locations(&builder), ["b", "old", "new"]);

    let entries = builder.build(99, &mut CursorRowIdAllocator::new(0))?.entries();
    let old = &entries[1];
    let masked =
        RoaringTreemap::deserialize_from(&old.manifest_dv_bytes().unwrap()[4..]).unwrap();
    assert_eq!(masked, bitmap(&[0, 3]));
    // a reorganization deletes nothing
    assert!(old.tracking.deleted_positions.is_none());
    assert!(old.tracking.replaced_positions.is_none());
    Ok(())
}

#[test]
fn positions_of_unknown_leaves_are_refused() -> Result<(), Error> {
    let mut builder =
        ContentTreeNodeBuilder::new_for(Url::parse(ROOT).unwrap(), 5, schema());
    let mut state = state(4, None);
    state.add_leaf(LeafNodeWriterResult {
        root_entries_to_remove: Vec::new(),
        root_dv_entries_to_remove: Vec::new(),
        manifest_dvs: vec![ManifestDv { manifest: "old".to_string(), rows: bitmap(&[0]) }],
        data_file_manifest_written: None,
    })?;
    let error = state.apply_to_builder(&mut builder).unwrap_err();
    assert_eq!(
        error.to_string(),
        "Manifest cache not found at location: old. This is a bug."
    );
    Ok(())
}

#[test]
fn plans_follow_the_checkpoint() -> Result<(), Error> {
    let plan = |version, checkpoint, released| {
        let mut state = state(version, checkpoint);
        if released {
            state.release_root_and_delta_actions().unwrap();
        }
        state.content_root_plan()
    };
    for released in [false, true] {
        let loaded = plan(4, Some((4, ROOT_MANIFEST)), released);
        assert!(matches!(loaded, ContentRootPlan::Load(path) if path == ROOT_MANIFEST));
    }
    assert!(matches!(
        plan(4, Some((2, ROOT_MANIFEST)), false),
        ContentRootPlan::Replay(3, Some(path)) if path == ROOT_MANIFEST
    ));
    assert!(matches!(plan(4, None, false), ContentRootPlan::Replay(0, None)));
    assert!(matches!(plan(4, Some((2, ROOT_MANIFEST)), true), ContentRootPlan::Empty));
    assert!(matches!(plan(4, None, true), ContentRootPlan::Empty));
    Ok(())
}

fn add(path: &str) -> LogAction {
    LogAction {
        add_path: Some(path.to_string()),
        add_dv: DvRow {
            storage_type: None,
            path_or_inline_dv: None,
            offset: None,
            size_in_bytes: None,
            cardinality: None,
        },
        remove_path: None,
        remove_dv: DvReference { storage_type: None, path_or_inline_dv: None },
        remove_manifest: None,
        remove_position: None,
    }
}

fn remove(path: &str, place: Option<(&str, i64)>) -> LogAction {
    let mut action = add(path);
    action.remove_path = action.add_path.take();
    action.remove_manifest = place.map(|(manifest, _)| manifest.to_string());
    action.remove_position = place.map(|(_, position)| position);
    action
}

#[test]
fn current_roots_are_loaded() -> Result<(), Error> {
    let root = || vec![vec![data_file("a")], vec![leaf("leaf", 2), data_file("b")]];
    let builder = state(4, Some((4, ROOT_MANIFEST)))
        .initialize_content_root_builder(Vec::new(), root())?;
    assert_eq!(locations(&builder), ["a", "leaf", "b"]);
    assert_eq!(builder.version, 5);
    assert_eq!(builder.pending_entries[0].tracking.status, TrackingStatus::Existing);

    let mut released = state(4, Some((4, ROOT_MANIFEST)));
    released.release_root_and_delta_actions()?;
    let builder = released.initialize_content_root_builder(Vec::new(), root())?;
    assert_eq!(locations(&builder), ["leaf"]);
    Ok(())
}

#[test]
fn released_logs_start_out_empty() -> Result<(), Error> {
    let mut released = state(4, Some((2, ROOT_MANIFEST)));
    released.release_root_and_delta_actions()?;
    let builder = released.initialize_content_root_builder(Vec::new(), Vec::new())?;
    assert!(!builder.has_entries());
    assert_eq!(builder.table_root.as_str(), ROOT);
    Ok(())
}

#[test]
fn logs_are_replayed_above_the_root() -> Result<(), Error> {
    let commits = vec![
        CommitBatch {
            version: 4,
            actions: vec![add("new"), remove("in-leaf", Some(("leaf", 1)))],
            evaluated: Ok(vec![data_file("new"), data_file("?")]),
        },
        CommitBatch {
            version: 3,
            actions: vec![remove("b", None), remove("gone", Some(("unknown-leaf", 0)))],
            evaluated: Ok(Vec::new()),
        },
        CommitBatch {
            version: 2,
            actions: vec![add("covered")],
            evaluated: Ok(vec![data_file("covered")]),
        },
    ];
    let root = vec![vec![data_file("a"), data_file("b"), leaf("leaf", 3)]];
    let mut builder = state(4, Some((2, ROOT_MANIFEST)))
        .initialize_content_root_builder(commits, root)?;
    assert_eq!(locations(&builder), ["a", "leaf"]);
    assert_eq!(builder.pre_built_data.len(), 1);
    assert_eq!(builder.pre_built_data[0][0].location.as_deref(), Some("new"));

    let entries = builder.build(99, &mut CursorRowIdAllocator::new(0))?.entries();
    let decode = |bytes: &bytes::Bytes| RoaringTreemap::deserialize_from(&bytes[4..]).unwrap();
    assert_eq!(decode(entries[1].manifest_dv_bytes().unwrap()), bitmap(&[1]));
    assert_eq!(
        decode(entries[1].tracking.deleted_positions.as_ref().unwrap()),
        bitmap(&[1])
    );
    Ok(())
}

#[test]
fn tables_without_a_checkpoint_are_replayed_from_the_start() -> Result<(), Error> {
    let builder = state(1, None).initialize_content_root_builder(
        vec![
            CommitBatch {
                version: 1,
                actions: vec![add("b")],
                evaluated: Ok(vec![data_file("b")]),
            },
            CommitBatch {
                version: 0,
                actions: vec![add("a")],
                evaluated: Ok(vec![data_file("a")]),
            },
        ],
        Vec::new(),
    )?;
    assert_eq!(builder.pre_built_data.len(), 2);
    assert!(builder.pending_entries.is_empty());
    Ok(())
}

#[test]
fn replays_report_the_first_failure() {
    let replay = |checkpoint, evaluated, root: Vec<Vec<ContentTreeNodeEntry>>, action| {
        state(4, Some((2, checkpoint)))
            .initialize_content_root_builder(
                vec![CommitBatch { version: 4, actions: vec![action], evaluated }],
                root,
            )
            .err()
            .map(|e| e.to_string())
    };
    let failed = Err(Error::new(ErrorKind::Engine, "evaluation failed".to_string()));
    assert_eq!(
        replay(ROOT_MANIFEST, failed, Vec::new(), add("a")).as_deref(),
        Some("evaluation failed")
    );
    assert_eq!(
        replay("//[bad", Ok(vec![data_file("a")]), Vec::new(), add("a")).as_deref(),
        Some("Failed to parse content root URL: invalid IPv6 address")
    );
    assert_eq!(
        replay(
            ROOT_MANIFEST,
            Ok(Vec::new()),
            vec![vec![leaf("leaf", 2)]],
            remove("x", Some(("leaf", 2)))
        )
        .as_deref(),
        Some("Index 2 out of bounds (total entries: 2)")
    );
}

#[test]
fn newer_commits_are_final() -> Result<(), Error> {
    let commit = |version, actions, files: &[&str]| CommitBatch {
        version,
        actions,
        evaluated: Ok(files.iter().map(|path| data_file(path)).collect()),
    };
    let builder = state(4, None).initialize_content_root_builder(
        vec![
            commit(4, vec![remove("a", None)], &["a"]),
            commit(3, vec![add("b")], &["b"]),
            commit(2, vec![add("a"), add("b"), add("c"), add("c")], &["a", "b", "c", "c"]),
        ],
        Vec::new(),
    )?;
    let rebuilt: Vec<Vec<&str>> = builder
        .pre_built_data
        .iter()
        .map(|batch| batch.iter().map(|row| row.location.as_deref().unwrap()).collect())
        .collect();
    assert_eq!(rebuilt, [vec!["b"], vec!["c"]]);
    Ok(())
}

#[test]
fn urls_with_one_text_can_lie_apart() {
    let root = Url::parse("file:///t/").unwrap();
    let mut stripped = Url::parse("file://h/t/").unwrap();
    stripped.set_host(None).unwrap();
    assert_eq!(stripped, root);
    let current =
        Snapshot { table_root: root.clone(), ..snapshot(4, Some((4, ROOT_MANIFEST))) };
    let file = |location: &Url| FileMeta { location: location.clone(), last_modified: 0, size: 1 };
    assert!(ExplicitRootManifestCommit::new(file(&root), &current).is_ok());
    let error = ExplicitRootManifestCommit::new(file(&stripped), &current).err().unwrap();
    assert_eq!(
        error.to_string(),
        format!("manifest location {stripped:?} is not under the table root {root:?}")
    );
}

#[test]
fn root_manifests_are_joined_to_the_table_root_itself() {
    let manifest = |table_root: Url| {
        let read = Snapshot { table_root, ..snapshot(4, Some((4, "x"))) };
        ManifestCommitState::new(5, 99, read).root_manifest_url().unwrap().unwrap()
    };
    let mut opaque = Url::parse("moz+foo:/a").unwrap();
    opaque.set_path("//p");
    let parsed = Url::parse(opaque.as_str()).unwrap();
    assert_eq!(manifest(opaque.clone()), opaque.join("x").unwrap());
    assert_eq!(manifest(parsed).as_str(), "moz+foo://p/x");
}

#[test]
fn updates_before_a_failing_one_stay_made() -> Result<(), Error> {
    let mut builder =
        ContentTreeNodeBuilder::new_for(Url::parse(ROOT).unwrap(), 5, schema());
    builder.add_entry(leaf("known", 3));
    let mut state = state(4, None);
    state.add_leaf(LeafNodeWriterResult {
        root_entries_to_remove: Vec::new(),
        root_dv_entries_to_remove: Vec::new(),
        manifest_dvs: vec![
            ManifestDv { manifest: "known".to_string(), rows: bitmap(&[1]) },
            ManifestDv { manifest: "unknown".to_string(), rows: bitmap(&[0]) },
        ],
        data_file_manifest_written: Some(leaf("new", 1)),
    })?;
    assert!(state.apply_to_builder(&mut builder).is_err());
    assert_eq!(locations(&builder), ["known", "new"]);
    let entries = builder.build(99, &mut CursorRowIdAllocator::new(0))?.entries();
    let masked = entries[0].manifest_dv_bytes().unwrap();
    assert_eq!(RoaringTreemap::deserialize_from(&masked[4..]).unwrap(), bitmap(&[1]));
    assert!(entries[0].tracking.deleted_positions.is_none());
    Ok(())
}
