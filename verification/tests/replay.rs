use content_tree::builder::ContentTreeNodeBuilder;
use content_tree::deletion_vector::DeletionVectorInfo;
use content_tree::dv_columns::DvRow;
use content_tree::entry::{
    ContentTreeNodeEntry, ContentTreeNodeEntryBuilder, DataContentType, TrackingStatus,
};
use content_tree::error::{Error, ErrorKind};
use content_tree::replay::{
    replay_log_commits, CommitBatch, ContentRootRebuildProcessor, DvReference, LogAction,
    LogBatchDedupVisitor,
};
use content_tree::schema::{DataType, FieldList, StructField, StructType};
use content_tree::selection::apply_selection_vector;
use url::Url;

fn schema() -> StructType {
    StructType::new_unchecked(
        FieldList::new().with(StructField::not_null("id", DataType::integer())),
    )
}

fn processor() -> ContentRootRebuildProcessor {
    ContentRootRebuildProcessor::new(7, 3, &schema(), &None).unwrap()
}

fn no_dv() -> DvRow {
    DvRow {
        storage_type: None,
        path_or_inline_dv: None,
        offset: None,
        size_in_bytes: None,
        cardinality: None,
    }
}

fn dv_at(location: &str) -> DvRow {
    DvRow {
        storage_type: Some("p".to_string()),
        path_or_inline_dv: Some(location.to_string()),
        offset: Some(1),
        size_in_bytes: Some(2),
        cardinality: Some(3),
    }
}

fn add(path: &str, add_dv: DvRow) -> LogAction {
    LogAction {
        add_path: Some(path.to_string()),
        add_dv,
        remove_path: None,
        remove_dv: DvReference { storage_type: None, path_or_inline_dv: None },
        remove_manifest: None,
        remove_position: None,
    }
}

fn remove(path: &str, dv: Option<&str>, place: Option<(&str, i64)>) -> LogAction {
    LogAction {
        add_path: None,
        add_dv: no_dv(),
        remove_path: Some(path.to_string()),
        remove_dv: DvReference {
            storage_type: dv.map(|_| "p".to_string()),
            path_or_inline_dv: dv.map(str::to_string),
        },
        remove_manifest: place.map(|(manifest, _)| manifest.to_string()),
        remove_position: place.map(|(_, position)| position),
    }
}

fn file(path: &str, status: TrackingStatus, dv: Option<&str>) -> ContentTreeNodeEntry {
    ContentTreeNodeEntryBuilder::new(DataContentType::Data)
        .location(path)
        .with_tracking(status, 1, 1)
        .deletion_vector_opt(dv.map(|location| DeletionVectorInfo {
            location: location.to_string(),
            offset: 1,
            size_in_bytes: 10,
            cardinality: 3,
        }))
        .record_count(10)
        .build()
}

fn locations(entries: &[ContentTreeNodeEntry]) -> Vec<&str> {
    entries.iter().map(|e| e.location.as_deref().unwrap()).collect()
}

#[test]
fn the_first_action_on_a_key_counts() {
    let mut visitor = LogBatchDedupVisitor::new();
    let newer = vec![
        add("a", no_dv()),
        remove("b", None, None),
        add("a", dv_at("dv")),
        add("a", no_dv()),
    ];
    assert_eq!(visitor.visit(&newer).unwrap(), [true, false, true, false]);
    // all of it was seen, and a removed file is not brought back
    let older = vec![add("b", no_dv()), add("a", dv_at("dv")), add("c", no_dv())];
    assert_eq!(visitor.visit(&older).unwrap(), [false, false, true]);
    assert_eq!(visitor.visit(&older).unwrap(), [false, false, false]);
    assert_eq!(
        visitor.selected_column_names_and_types().names.len(),
        8
    );
}

#[test]
fn other_rows_do_not_survive() {
    let mut visitor = LogBatchDedupVisitor::new();
    let mut other = remove("x", None, None);
    other.remove_path = None;
    assert_eq!(visitor.visit(&vec![other]).unwrap(), [false]);
}

#[test]
fn removed_positions_are_grouped_by_manifest() {
    let mut processor = processor();
    processor
        .dedup_log_batch(&vec![
            remove("a", None, Some(("leaf-1", 3))),
            remove("b", Some("dv"), Some(("leaf-2", 0))),
            remove("c", None, None),
            remove("d", None, Some(("leaf-1", 5))),
        ])
        .unwrap();
    let grouped = processor.deleted_leaf_positions_by_location();
    assert_eq!(grouped.len(), 2);
    assert_eq!(grouped.get("leaf-1"), Some(&[3u64, 5].into_iter().collect()));
    assert_eq!(grouped.get("leaf-2"), Some(&[0u64].into_iter().collect()));
    // they are handed out once
    assert_eq!(processor.deleted_leaf_positions_by_location().len(), 0);
}

#[test]
fn negative_positions_are_refused() {
    let error = processor()
        .dedup_log_batch(&vec![remove("a", None, Some(("leaf", -4)))])
        .unwrap_err();
    assert_eq!(error.to_string(), "negative manifest position: -4");
}

#[test]
fn dv_locations_are_decoded() {
    let some = |text: &str| Some(text.to_string());
    assert_eq!(LogBatchDedupVisitor::dv_location(&None, &some("x")).unwrap(), None);
    assert_eq!(
        LogBatchDedupVisitor::dv_location(&some("u"), &some("ab^-aqEH.-t@S}K{vb[*k^")).unwrap(),
        some("ab/deletion_vector_d2c639aa-8816-431a-aaf6-d3fe2512ff61.bin")
    );
    let error = LogBatchDedupVisitor::dv_location(&some("u"), &None).unwrap_err();
    assert_eq!(error.kind, ErrorKind::MissingData);
    assert!(LogBatchDedupVisitor::dv_location(&some("?"), &some("x")).is_err());
    assert!(LogBatchDedupVisitor::dv_location(&some("i"), &some("x")).is_err());
}

#[test]
fn root_entries_give_way_to_the_log() {
    let mut processor = processor();
    processor
        .dedup_log_batch(&vec![add("a", no_dv()), remove("b", Some("dv"), None)])
        .unwrap();
    let mut nowhere = file("x", TrackingStatus::Existing, None);
    nowhere.location = None;
    let root = vec![
        file("a", TrackingStatus::Existing, None),
        file("a", TrackingStatus::Existing, Some("dv-a")),
        file("b", TrackingStatus::Existing, Some("dv")),
        file("b", TrackingStatus::Modified, None),
        file("c", TrackingStatus::Added, None),
        file("d", TrackingStatus::Existing, None),
        nowhere,
    ];
    let kept =
        processor.process_root_batch(root, &vec![true, true, true, true, true, false, true]);
    assert_eq!(locations(&kept), ["a", "b", "c"]);
    assert_eq!(kept[0].deletion_vector.as_ref().unwrap().location, "dv-a");
    assert_eq!(kept[1].tracking.status, TrackingStatus::Modified);
    // what an earlier commit added is there already
    assert_eq!(kept[2].tracking.status, TrackingStatus::Existing);
}

#[test]
fn batches_without_survivors_are_dropped() {
    let mut processor = processor();
    let plan = processor.process_actions_batch(&vec![remove("a", None, None)]).unwrap();
    assert_eq!(plan.selection_vector, [false]);
    assert!(plan.dv_columns.is_none());

    let plan = processor
        .process_actions_batch(&vec![add("a", no_dv()), add("b", dv_at("dv"))])
        .unwrap();
    assert_eq!(plan.selection_vector, [false, true]);
    let columns = plan.dv_columns.unwrap();
    assert!(columns.has_any_dv());
    assert_eq!(columns.decoded_paths.len(), 2);
}

#[test]
fn commits_are_replayed_from_a_version_on() -> Result<(), Error> {
    let engine = || Error::new(ErrorKind::Engine, "evaluation failed".to_string());
    let mut processor = processor();
    let batches = replay_log_commits(
        &mut processor,
        vec![
            CommitBatch {
                version: 5,
                actions: vec![add("a", no_dv()), remove("b", None, None)],
                evaluated: Ok(vec![
                    file("a", TrackingStatus::Existing, None),
                    file("?", TrackingStatus::Existing, None),
                ]),
            },
            // no row survives, so that the rows are not looked at
            CommitBatch {
                version: 4,
                actions: vec![add("a", no_dv()), add("b", no_dv())],
                evaluated: Err(engine()),
            },
            CommitBatch {
                version: 4,
                actions: vec![add("a", no_dv()), add("c", no_dv())],
                evaluated: Ok(vec![
                    file("a", TrackingStatus::Existing, None),
                    file("c", TrackingStatus::Existing, None),
                ]),
            },
            // covered by the checkpoint
            CommitBatch {
                version: 3,
                actions: vec![add("d", no_dv())],
                evaluated: Err(engine()),
            },
        ],
        4,
    )?;
    let found: Vec<Vec<&str>> = batches.iter().map(|b| locations(b)).collect();
    assert_eq!(found, [vec!["a"], vec!["c"]]);

    let failed = replay_log_commits(
        &mut processor,
        vec![CommitBatch {
            version: 4,
            actions: vec![add("e", no_dv())],
            evaluated: Err(engine()),
        }],
        4,
    );
    assert_eq!(failed.unwrap_err().to_string(), "evaluation failed");
    Ok(())
}

#[test]
fn long_selection_vectors_are_refused() {
    let rows = vec![file("a", TrackingStatus::Existing, None)];
    let error = apply_selection_vector(rows, &vec![true, false]).unwrap_err();
    assert_eq!(error.kind, ErrorKind::InvalidSelectionVector);
    assert_eq!(
        error.to_string(),
        "Selection vector is larger than data length: 2 > 1"
    );
    let rows = vec![
        file("a", TrackingStatus::Existing, None),
        file("b", TrackingStatus::Existing, None),
        file("c", TrackingStatus::Existing, None),
    ];
    let kept = apply_selection_vector(rows, &vec![true, false]).unwrap();
    assert_eq!(locations(&kept), ["a", "c"]);
}

fn builder() -> ContentTreeNodeBuilder {
    ContentTreeNodeBuilder::new_for(Url::parse("file:///tmp/table/").unwrap(), 3, schema())
}

#[test]
fn written_rows_fall_back_to_no_stats() -> Result<(), Error> {
    let failed = || Err(Error::new(ErrorKind::Engine, "evaluation failed".to_string()));
    let rows = || Ok(vec![file("a", TrackingStatus::Added, None)]);

    let mut with_stats = builder();
    with_stats.add_from_engine_data_write(1, rows(), failed())?;
    assert_eq!(with_stats.pre_built_data.len(), 1);
    let totals = with_stats.pre_built_aggregates[0];
    assert_eq!(totals.added_file_count, 1);
    assert_eq!(totals.existing_file_count, 0);
    assert_eq!(totals.total_record_count, 10);

    let mut without_stats = builder();
    without_stats.add_from_engine_data_write(1, failed(), rows())?;
    assert_eq!(without_stats.pre_built_data.len(), 1);

    let mut neither = builder();
    assert!(neither.add_from_engine_data_write(1, failed(), failed()).is_err());
    assert!(!neither.has_entries());
    neither.add_from_engine_data_write(0, failed(), failed())?;
    assert!(!neither.has_entries());
    Ok(())
}

#[test]
fn selected_scan_rows_are_added_as_existing() -> Result<(), Error> {
    let mut builder = builder();
    builder.add_from_existing_scan_rows(Vec::new(), &Vec::new())?;
    assert!(!builder.has_entries());
    builder.add_from_existing_scan_rows(
        vec![
            file("a", TrackingStatus::Existing, None),
            file("b", TrackingStatus::Existing, None),
        ],
        &vec![false],
    )?;
    assert_eq!(locations(&builder.pre_built_data[0]), ["b"]);
    assert_eq!(builder.pre_built_aggregates[0].existing_file_count, 1);
    assert_eq!(builder.pre_built_aggregates[0].total_record_count, 10);
    // a batch of which nothing is selected still stands there
    builder.add_from_existing_scan_rows(
        vec![file("c", TrackingStatus::Existing, None)],
        &vec![false],
    )?;
    assert_eq!(builder.pre_built_data.len(), 2);
    assert!(builder.pre_built_data[1].is_empty());
    assert!(builder
        .add_from_existing_scan_rows(
            vec![file("d", TrackingStatus::Existing, None)],
            &vec![true, true]
        )
        .is_err());
    Ok(())
}
