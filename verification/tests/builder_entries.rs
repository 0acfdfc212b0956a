use content_tree::add_action::{record_count_from_stats, Add, PartitionValue};
use content_tree::builder::{file_count_from_len, BatchAggregates, ContentTreeNodeBuilder};
use content_tree::deletion_vector::{
    DeletionVectorDescriptor, DeletionVectorInfo, DeletionVectorStorageType,
};
use content_tree::entry::{
    ContentTreeNodeEntry, ContentTreeNodeEntryBuilder, DataContentType, ManifestInfo, Tag, Tags,
    TrackingInfo, TrackingStatus,
};
use content_tree::error::{Error, ErrorKind};
use content_tree::expression::{Scalar, StructData};
use content_tree::leaf::relativize_manifest_path;
use content_tree::row_ids::CursorRowIdAllocator;
use content_tree::schema::{
    ArrayType, DataType, FieldList, MetadataValue, PrimitiveType, StructField, StructType,
};
use content_tree::type_text::describe_type;
use url::Url;

fn test_table_schema() -> StructType {
    StructType::new_unchecked(
        FieldList::new().with(
            StructField::not_null("id", DataType::integer())
                .add_metadata("PARQUET:field_id", MetadataValue::Number(1))
                .add_metadata("delta.columnMapping.id", MetadataValue::Number(1))
                .add_metadata(
                    "delta.columnMapping.physicalName",
                    MetadataValue::String("col-id".to_string()),
                ),
        ),
    )
}

fn builder_at(root: &str, version: u64) -> ContentTreeNodeBuilder {
    ContentTreeNodeBuilder::new_for(Url::parse(root).unwrap(), version, test_table_schema())
}

fn data_file(location: &str, record_count: i64) -> ContentTreeNodeEntry {
    ContentTreeNodeEntryBuilder::new(DataContentType::Data)
        .location(location)
        .record_count(record_count)
        .file_size_in_bytes(1024)
        .build()
}

fn dv_info(location: &str) -> DeletionVectorInfo {
    DeletionVectorInfo {
        location: location.to_string(),
        offset: 0,
        size_in_bytes: 48,
        cardinality: 6,
    }
}

#[test]
fn test_snapshot_builder() -> Result<(), Error> {
    let _add_file_action = [make_test_add("part-00000-test.parquet")];
    Ok(())
}

#[test]
fn test_path_to_absolute_with_relative_path() -> Result<(), Error> {
    let builder = builder_at("s3://my-bucket/my-table/", 1);
    let result = builder.path_to_absolute("part-00000-123.parquet")?;
    assert_eq!(result, "s3://my-bucket/my-table/part-00000-123.parquet");

    let result = builder.path_to_absolute("year=2023/month=10/part-00001-456.parquet")?;
    assert_eq!(
        result,
        "s3://my-bucket/my-table/year=2023/month=10/part-00001-456.parquet"
    );
    Ok(())
}

#[test]
fn test_path_to_absolute_with_absolute_s3_path() -> Result<(), Error> {
    let builder = builder_at("s3://my-bucket/my-table/", 1);
    let result = builder.path_to_absolute("s3://another-bucket/external/data.parquet")?;
    assert_eq!(result, "s3://another-bucket/external/data.parquet");
    Ok(())
}

#[test]
fn test_path_to_absolute_with_absolute_https_path() -> Result<(), Error> {
    let builder = builder_at("s3://my-bucket/my-table/", 1);
    let result = builder.path_to_absolute("https://example.com/data/file.parquet")?;
    assert_eq!(result, "https://example.com/data/file.parquet");
    Ok(())
}

#[test]
fn test_path_to_absolute_with_gs_url() -> Result<(), Error> {
    let builder = builder_at("gs://my-gcs-bucket/delta-table/", 1);
    let result = builder.path_to_absolute("data/part-00000.parquet")?;
    assert_eq!(result, "gs://my-gcs-bucket/delta-table/data/part-00000.parquet");

    let result = builder.path_to_absolute("gs://other-bucket/external.parquet")?;
    assert_eq!(result, "gs://other-bucket/external.parquet");
    Ok(())
}

#[test]
fn test_path_to_absolute_with_azure_url() -> Result<(), Error> {
    let builder = builder_at("abfss://container@account.dfs.core.windows.net/delta-table/", 1);
    let result = builder.path_to_absolute("part-00000.parquet")?;
    assert_eq!(
        result,
        "abfss://container@account.dfs.core.windows.net/delta-table/part-00000.parquet"
    );
    Ok(())
}

#[test]
fn test_path_to_absolute_with_file_url() -> Result<(), Error> {
    let builder = builder_at("file:///tmp/", 1);
    let result = builder.path_to_absolute("part-00000.parquet")?;
    assert!(result.starts_with("file://"));
    assert!(result.ends_with("/part-00000.parquet"));

    let result = builder.path_to_absolute("file:///other/location/data.parquet")?;
    assert_eq!(result, "file:///other/location/data.parquet");
    Ok(())
}

#[test]
fn test_path_to_absolute_preserves_special_characters() -> Result<(), Error> {
    let builder = builder_at("s3://my-bucket/my-table/", 1);
    let result = builder.path_to_absolute("partition=value%20with%20spaces/file.parquet")?;
    assert_eq!(
        result,
        "s3://my-bucket/my-table/partition=value%20with%20spaces/file.parquet"
    );
    Ok(())
}

#[test]
fn paths_below_a_root_without_a_slash_are_joined_below_it() -> Result<(), Error> {
    let builder = builder_at("s3://my-bucket/my-table", 1);
    assert_eq!(
        builder.path_to_absolute("a.parquet")?,
        "s3://my-bucket/my-table/a.parquet"
    );
    Ok(())
}

#[test]
fn unjoinable_paths_are_refused() {
    let builder = builder_at("s3://my-bucket/my-table/", 1);
    let error = builder.path_to_absolute("//[bad").unwrap_err();
    assert_eq!(error.kind, ErrorKind::Generic);
    assert_eq!(
        error.to_string(),
        "Failed to join path '//[bad' with table root 's3://my-bucket/my-table/': \
         invalid IPv6 address"
    );
}

#[test]
fn test_record_count_from_stats() -> Result<(), Error> {
    let mut builder = builder_at("s3://my-bucket/my-table/", 1);
    for (path, record_count) in [
        ("part-00000.parquet", 100i64),
        ("part-00001.parquet", 250i64),
        ("part-00002.parquet", 0i64),
    ] {
        builder.add_entry(
            ContentTreeNodeEntryBuilder::new(DataContentType::Data)
                .location(path)
                .with_tracking(TrackingStatus::Added, 1, 1)
                .record_count(record_count)
                .file_size_in_bytes(1024)
                .build(),
        );
    }
    let metadata = builder.build(1, &mut CursorRowIdAllocator::new(0))?;
    let entries = metadata.entries();
    assert_eq!(entries.len(), 3);
    assert_eq!(entries[0].record_count, 100);
    assert_eq!(entries[1].record_count, 250);
    assert_eq!(entries[2].record_count, 0);
    Ok(())
}

#[test]
fn record_counts_are_read_from_json() {
    assert_eq!(record_count_from_stats(&None).unwrap(), 0);
    let count = |json: &str| record_count_from_stats(&Some(json.to_string()));
    assert_eq!(count(r#"{"numRecords": 42, "x": [1]}"#).unwrap(), 42);
    assert_eq!(count(r#"{"numRecords": -7}"#).unwrap(), -7);

    for json in ["{}", r#"{"numRecords": "42"}"#, r#"{"numRecords": 4.5}"#, "[1]", "null"] {
        let error = count(json).unwrap_err();
        assert_eq!(error.kind, ErrorKind::MissingData, "{json}");
        assert_eq!(error.to_string(), "numRecords");
    }
    let error = count("{").unwrap_err();
    assert_eq!(error.kind, ErrorKind::Generic);
    assert_eq!(
        error.to_string(),
        "failed to parse stats JSON: EOF while parsing an object at line 1 column 1"
    );
}

fn write_leaf(
    builder: &mut ContentTreeNodeBuilder,
    snapshot_id: i64,
    start: i64,
    stats: Option<StructData>,
) -> Result<ContentTreeNodeEntry, Error> {
    let leaf = builder.prepare_leaf(snapshot_id, &mut CursorRowIdAllocator::new(start))?;
    let location = builder.table_root.join("_delta_log/leaf.parquet").unwrap();
    Ok(builder.leaf_manifest_entry(snapshot_id, leaf.first_row_id, &location, 4096, stats))
}

#[test]
fn test_write_leaf_no_content_stats_when_entries_have_none() -> Result<(), Error> {
    let mut builder = builder_at("file:///tmp/table/", 1);
    builder.add_entry(
        ContentTreeNodeEntryBuilder::new(DataContentType::Data)
            .location("data/part-00000.parquet")
            .with_tracking(TrackingStatus::Added, 1, 1)
            .record_count(100)
            .file_size_in_bytes(1024)
            .build(),
    );
    let leaf_manifest_entry = write_leaf(&mut builder, 1, 0, None)?;
    assert!(
        leaf_manifest_entry.content_stats.is_none(),
        "write_leaf should return None content_stats when all entries have None"
    );
    Ok(())
}

#[test]
fn content_stats_count_only_where_an_entry_has_some() -> Result<(), Error> {
    let stats = || StructData { fields: Vec::new(), values: Vec::new() };
    let mut plain = builder_at("file:///tmp/table/", 1);
    plain.add_entry(data_file("a.parquet", 1));
    assert!(write_leaf(&mut plain, 1, 0, Some(stats()))?.content_stats.is_none());

    let mut measured = builder_at("file:///tmp/table/", 1);
    measured.add_entry(data_file("a.parquet", 1));
    measured.add_entry(
        ContentTreeNodeEntryBuilder::new(DataContentType::Data)
            .location("b.parquet")
            .content_stats_opt(Some(stats()))
            .build(),
    );
    assert_eq!(write_leaf(&mut measured, 1, 0, Some(stats()))?.content_stats, Some(stats()));
    assert!(write_leaf(&mut measured, 1, 0, None)?.content_stats.is_none());
    Ok(())
}

#[test]
fn leaf_entries_hold_the_totals() -> Result<(), Error> {
    let mut builder = builder_at("file:///tmp/table/", 9);
    for (status, version, count) in [
        (TrackingStatus::Added, 9, 10),
        (TrackingStatus::Existing, 4, 20),
        (TrackingStatus::Modified, 5, 30),
        (TrackingStatus::Deleted, 6, 40),
        (TrackingStatus::Replaced, 7, 50),
    ] {
        builder.add_entry(
            ContentTreeNodeEntryBuilder::new(DataContentType::Data)
                .location(&format!("{version}.parquet"))
                .with_tracking(status, version, 3)
                .record_count(count)
                .build(),
        );
    }
    builder.pre_built_aggregates.push(BatchAggregates {
        added_file_count: 2,
        existing_file_count: 3,
        total_record_count: 100,
    });
    let entry = write_leaf(&mut builder, 77, 1000, None)?;
    assert_eq!(entry.content_type, DataContentType::DataManifest);
    assert_eq!(entry.location.as_deref(), Some("_delta_log/leaf.parquet"));
    assert_eq!(entry.record_count, 250);
    assert_eq!(entry.file_size_in_bytes, 4096);
    assert_eq!(entry.tracking.status, TrackingStatus::Added);
    assert_eq!(entry.tracking.snapshot_id, Some(77));
    assert_eq!(entry.tracking.sequence_number, Some(9));
    assert_eq!(entry.tracking.file_sequence_number, Some(9));
    assert_eq!(entry.tracking.first_row_id, Some(1000));
    assert_eq!(
        entry.manifest_info,
        Some(ManifestInfo {
            added_files_count: 3,
            existing_files_count: 5,
            deleted_files_count: 1,
            replaced_files_count: 1,
            added_rows_count: 110,
            existing_rows_count: 50,
            deleted_rows_count: 40,
            replaced_rows_count: 50,
            min_sequence_number: 4,
            dv: None,
            dv_cardinality: None,
        })
    );
    let info = entry.manifest_info.as_ref().unwrap();
    assert_eq!(info.total_entry_count(), 10);
    assert_eq!(info.active_entry_count(), 8);
    Ok(())
}

#[test]
fn leaves_without_entries_start_at_zero() -> Result<(), Error> {
    let mut builder = builder_at("file:///tmp/table/", 9);
    let entry = write_leaf(&mut builder, 1, 0, None)?;
    assert_eq!(entry.record_count, 0);
    assert_eq!(entry.manifest_info.unwrap().min_sequence_number, 0);
    Ok(())
}

#[test]
fn locations_elsewhere_stay_absolute() {
    let root = Url::parse("s3://bucket/table/").unwrap();
    let below = Url::parse("s3://bucket/table/x/y.parquet").unwrap();
    let elsewhere = Url::parse("s3://bucket/other/y.parquet").unwrap();
    let short = Url::parse("s3://b/").unwrap();
    assert_eq!(relativize_manifest_path(&below, &root), "x/y.parquet");
    assert_eq!(
        relativize_manifest_path(&elsewhere, &root),
        "s3://bucket/other/y.parquet"
    );
    assert_eq!(relativize_manifest_path(&short, &root), "s3://b/");
}

#[test]
fn test_remove_entries_by_file_path() -> Result<(), Error> {
    let mut builder = builder_at("file:///tmp/table/", 1);
    builder.add_entry(data_file("file1.parquet", 100));
    builder.add_entry(data_file("file2.parquet", 100));
    builder.add_entry(data_file("file3.parquet", 100));
    assert_eq!(builder.pending_entries.len(), 3);

    builder.remove_data_file("file1.parquet")?;

    assert_eq!(builder.pending_entries.len(), 2);
    let holds = |name: &str| {
        builder
            .pending_entries
            .iter()
            .any(|e| e.location.as_ref().unwrap().ends_with(name))
    };
    assert!(holds("file2.parquet"));
    assert!(holds("file3.parquet"));
    assert!(!holds("file1.parquet"));
    Ok(())
}

#[test]
fn test_remove_entries_by_dv_path() -> Result<(), Error> {
    let mut builder = builder_at("file:///tmp/table/", 1);
    builder.add_entry(
        ContentTreeNodeEntryBuilder::new(DataContentType::Data)
            .location("dv1.bin")
            .record_count(10)
            .file_size_in_bytes(128)
            .build(),
    );
    builder.add_entry(data_file("data1.parquet", 100));
    assert_eq!(builder.pending_entries.len(), 2);

    builder.remove_dv("dv1.bin")?;

    assert_eq!(builder.pending_entries.len(), 1);
    assert_eq!(builder.pending_entries[0].content_type, DataContentType::Data);
    Ok(())
}

#[test]
fn test_remove_data_file_keeps_other_entries() -> Result<(), Error> {
    let mut builder = builder_at("file:///tmp/table/", 1);
    builder.add_entry(
        ContentTreeNodeEntryBuilder::new(DataContentType::Data)
            .location("data1.parquet")
            .deletion_vector_opt(Some(dv_info("dv1.bin")))
            .record_count(100)
            .file_size_in_bytes(1024)
            .build(),
    );
    builder.add_entry(
        ContentTreeNodeEntryBuilder::new(DataContentType::Data)
            .location("data2.parquet")
            .record_count(50)
            .file_size_in_bytes(512)
            .build(),
    );
    assert_eq!(builder.pending_entries.len(), 2);

    builder.remove_data_file("data1.parquet")?;

    assert_eq!(builder.pending_entries.len(), 1);
    assert_eq!(
        builder.pending_entries[0].location.as_deref(),
        Some("data2.parquet")
    );
    Ok(())
}

#[test]
fn test_remove_entries_no_match() -> Result<(), Error> {
    let mut builder = builder_at("file:///tmp/table/", 1);
    builder.add_entry(data_file("file1.parquet", 100));
    assert_eq!(builder.pending_entries.len(), 1);

    builder.remove_data_file("nonexistent.parquet")?;

    assert_eq!(builder.pending_entries.len(), 1);
    Ok(())
}

#[test]
fn only_data_files_are_removed_by_file_path() -> Result<(), Error> {
    let mut builder = builder_at("file:///tmp/table/", 1);
    builder.add_entry(
        ContentTreeNodeEntryBuilder::new(DataContentType::PositionDeletes)
            .location("x")
            .build(),
    );
    builder.add_entry(data_file("x", 1));
    builder.remove_data_file("x")?;
    assert_eq!(builder.pending_entries.len(), 1);
    assert_eq!(builder.pending_entries[0].content_type, DataContentType::PositionDeletes);
    builder.remove_dv("x")?;
    assert!(!builder.has_entries());
    Ok(())
}

/// A minimal action.
fn make_test_add(path: &str) -> Add {
    Add {
        path: path.to_string(),
        partition_values: Vec::new(),
        size: 1024,
        stats: None,
        tags: None,
        deletion_vector: None,
    }
}

#[test]
fn test_add_stamps_entry_with_commit_version() -> Result<(), Error> {
    // the builder makes the root of version 5
    let mut builder = builder_at("file:///tmp/table/", 5);

    builder.add_with_status(
        make_test_add("file1.parquet"),
        Ok(None),
        2,
        100,
        TrackingStatus::Existing,
    )?;

    assert_eq!(builder.pending_entries.len(), 1);
    let entry = &builder.pending_entries[0];
    let ti = &entry.tracking;
    assert_eq!(
        ti.sequence_number,
        Some(2),
        "sequence_number must be the commit version, not the root version"
    );
    assert_eq!(
        ti.status,
        TrackingStatus::Existing,
        "file from an earlier version must have Existing status"
    );
    Ok(())
}

#[test]
fn added_files_are_new_in_their_version() -> Result<(), Error> {
    let mut builder = builder_at("file:///tmp/table/", 5);
    let mut add = make_test_add("a.parquet");
    add.stats = Some(r#"{"numRecords":12}"#.to_string());
    add.tags = Some(Tags {
        items: vec![Tag { key: "k".to_string(), value: "v".to_string() }],
    });
    add.deletion_vector = Some(DeletionVectorDescriptor {
        storage_type: DeletionVectorStorageType::PersistedAbsolute,
        path_or_inline_dv: "s3://b/dv.bin".to_string(),
        offset: None,
        size_in_bytes: 1,
        cardinality: 2,
    });
    builder.add(add, Ok(None), 5, 99)?;
    let entry = &builder.pending_entries[0];
    assert_eq!(entry.content_type, DataContentType::Data);
    assert_eq!(entry.location.as_deref(), Some("a.parquet"));
    assert_eq!(entry.record_count, 12);
    assert_eq!(entry.file_size_in_bytes, 1024);
    assert_eq!(entry.tags.as_ref().unwrap().items[0].value, "v");
    assert_eq!(
        entry.deletion_vector,
        Some(DeletionVectorInfo {
            location: "s3://b/dv.bin".to_string(),
            offset: 0,
            size_in_bytes: 9,
            cardinality: 2,
        })
    );
    assert_eq!(
        entry.tracking,
        TrackingInfo {
            status: TrackingStatus::Added,
            snapshot_id: Some(99),
            sequence_number: Some(5),
            file_sequence_number: Some(5),
            first_row_id: None,
            dv_snapshot_id: None,
            deleted_positions: None,
            replaced_positions: None,
        }
    );
    Ok(())
}

#[test]
fn paths_are_added_once() -> Result<(), Error> {
    let mut builder = builder_at("file:///tmp/table/", 5);
    builder.add(make_test_add("a.parquet"), Ok(None), 5, 1)?;
    builder.add(make_test_add("a.parquet"), Ok(None), 6, 2)?;
    assert_eq!(builder.pending_entries.len(), 1);
    assert_eq!(builder.pending_entries[0].tracking.sequence_number, Some(5));

    // a file that was taken out can be added again
    builder.remove_data_file("a.parquet")?;
    builder.add(make_test_add("a.parquet"), Ok(None), 6, 2)?;
    assert_eq!(builder.pending_entries[0].tracking.sequence_number, Some(6));
    Ok(())
}

#[test]
fn refused_actions_are_not_looked_at_again() -> Result<(), Error> {
    let mut builder = builder_at("file:///tmp/table/", 5);
    let failed = Error::new(ErrorKind::Engine, "no stats".to_string());
    let error = builder
        .add(make_test_add("a.parquet"), Err(failed), 5, 1)
        .unwrap_err();
    assert_eq!(error.to_string(), "no stats");
    builder.add(make_test_add("a.parquet"), Ok(None), 5, 1)?;
    assert!(builder.pending_entries.is_empty());
    Ok(())
}

fn partitioned(fields: FieldList) -> ContentTreeNodeBuilder {
    builder_at("file:///tmp/table/", 1)
        .with_partition_type(Some(StructType::new_unchecked(fields)))
}

#[test]
fn partition_values_follow_the_partition_type() -> Result<(), Error> {
    let mut builder = partitioned(
        FieldList::new()
            .with(StructField::nullable("day", DataType::string()))
            .with(StructField::nullable("n", DataType::long())),
    );
    let mut add = make_test_add("a.parquet");
    add.partition_values = vec![
        PartitionValue {
            column: "other".to_string(),
            value: Ok(Scalar::Boolean(true)),
        },
        PartitionValue {
            column: "day".to_string(),
            value: Ok(Scalar::String("2024-01-01".to_string())),
        },
    ];
    builder.add(add, Ok(None), 1, 1)?;
    let partition = builder.pending_entries[0].partition.as_ref().unwrap();
    assert_eq!(partition.fields[1].name, "n");
    assert_eq!(
        partition.values,
        vec![
            Scalar::String("2024-01-01".to_string()),
            Scalar::Null(DataType::long()),
        ]
    );
    Ok(())
}

#[test]
fn bad_partition_values_are_refused() {
    let array = DataType::Array(Box::new(ArrayType {
        element_type: DataType::long(),
        contains_null: true,
    }));
    let builder = partitioned(FieldList::new().with(StructField::nullable("l", array)));
    let value = |value| vec![PartitionValue { column: "l".to_string(), value }];
    let error = builder
        .build_partition_data(&value(Ok(Scalar::Boolean(true))))
        .unwrap_err();
    assert_eq!(
        error.to_string(),
        "partition field 'l' has non-primitive type \
         Array(ArrayType { element_type: Primitive(Long), contains_null: true })"
    );

    let builder =
        partitioned(FieldList::new().with(StructField::nullable("l", DataType::long())));
    let unreadable = Error::new(ErrorKind::Engine, "no number".to_string());
    let error = builder.build_partition_data(&value(Err(unreadable))).unwrap_err();
    assert_eq!(error.to_string(), "no number");

    let unpartitioned = partitioned(FieldList::new());
    assert!(unpartitioned
        .build_partition_data(&value(Ok(Scalar::Boolean(true))))
        .unwrap()
        .is_none());
}

#[test]
fn dv_updates_reach_the_live_file_alone() -> Result<(), Error> {
    let mut builder = builder_at("file:///tmp/table/", 1);
    builder.add_entry(
        ContentTreeNodeEntryBuilder::new(DataContentType::Data)
            .location("a.parquet")
            .with_tracking(TrackingStatus::Deleted, 1, 1)
            .build(),
    );
    builder.add_entry(data_file("a.parquet", 1));
    builder.add_entry(data_file("a.parquet", 2));
    assert!(builder.update_dv("a.parquet", Some(dv_info("dv"))));
    assert!(builder.pending_entries[0].deletion_vector.is_none());
    assert_eq!(builder.pending_entries[1].deletion_vector, Some(dv_info("dv")));
    assert!(builder.pending_entries[2].deletion_vector.is_none());
    assert!(!builder.update_dv("b.parquet", None));
    assert!(builder.update_dv("a.parquet", None));
    assert!(builder.pending_entries[1].deletion_vector.is_none());
    Ok(())
}

#[test]
fn deletion_keeps_sequence_numbers() -> Result<(), Error> {
    let mut builder = builder_at("file:///tmp/table/", 8);
    for name in ["a", "b"] {
        builder.add_entry(
            ContentTreeNodeEntryBuilder::new(DataContentType::Data)
                .location(name)
                .with_tracking(TrackingStatus::Existing, 3, 4)
                .build(),
        );
    }
    builder.mark_deleted(Some("a"), Some("b"), 55)?;
    let a = &builder.pending_entries[0].tracking;
    assert_eq!(a.status, TrackingStatus::Deleted);
    assert_eq!(a.snapshot_id, Some(55));
    assert_eq!(a.sequence_number, Some(3));
    assert_eq!(builder.pending_entries[1].tracking.status, TrackingStatus::Existing);

    builder.mark_deleted(None, None, 56)?;
    assert_eq!(builder.pending_entries[1].tracking.status, TrackingStatus::Existing);
    builder.mark_deleted(None, Some("b"), 57)?;
    assert_eq!(builder.pending_entries[1].tracking.status, TrackingStatus::Deleted);
    assert_eq!(builder.pending_entries[1].tracking.snapshot_id, Some(57));
    Ok(())
}

#[test]
fn cleared_roots_hold_leaf_references_alone() -> Result<(), Error> {
    let mut builder = builder_at("file:///tmp/table/", 1);
    let of = |content_type: DataContentType, location: &str| {
        ContentTreeNodeEntryBuilder::new(content_type).location(location).build()
    };
    builder.add_entry(of(DataContentType::Data, "data"));
    builder.add_entry(of(DataContentType::DataManifest, "leaf"));
    builder.add_entry(of(DataContentType::PositionDeletes, "pos"));
    builder.add_entry(of(DataContentType::DeleteManifest, "deletes"));
    builder.add_entry(of(DataContentType::ManifestDv, "dv"));
    builder.add(make_test_add("a.parquet"), Ok(None), 1, 1)?;
    builder.add_pre_built_log_batch(vec![data_file("x", 1)])?;
    for _ in 0..2 {
        builder.clear_root_data_and_dv_entries();
        let types: Vec<DataContentType> =
            builder.pending_entries.iter().map(|e| e.content_type).collect();
        assert_eq!(
            types,
            [
                DataContentType::DataManifest,
                DataContentType::DeleteManifest,
                DataContentType::ManifestDv
            ]
        );
        assert!(builder.pre_built_data.is_empty());
        assert!(builder.pre_built_aggregates.is_empty());
        assert!(builder.has_leaf_manifest("leaf"));
        assert!(builder.has_leaf_manifest("deletes"));
    }
    builder.add(make_test_add("a.parquet"), Ok(None), 1, 1)?;
    assert_eq!(builder.pending_entries.len(), 4);
    Ok(())
}

#[test]
fn loaded_entries_age() {
    let entry = |status, sequence_number| {
        let mut entry = data_file("a", 1);
        entry.tracking.status = status;
        entry.tracking.sequence_number = sequence_number;
        entry
    };
    let builder = ContentTreeNodeBuilder::from_content_root(
        vec![
            entry(TrackingStatus::Added, Some(3)),
            entry(TrackingStatus::Added, Some(4)),
            entry(TrackingStatus::Added, None),
            entry(TrackingStatus::Deleted, Some(3)),
        ],
        Url::parse("file:///tmp/table/").unwrap(),
        test_table_schema(),
        4,
        None,
    );
    let statuses: Vec<TrackingStatus> =
        builder.pending_entries.iter().map(|e| e.tracking.status).collect();
    assert_eq!(
        statuses,
        [
            TrackingStatus::Existing,
            TrackingStatus::Added,
            TrackingStatus::Existing,
            TrackingStatus::Deleted
        ]
    );
    assert_eq!(builder.version, 4);
}

#[test]
fn log_batches_count_as_existing() -> Result<(), Error> {
    let mut builder = builder_at("file:///tmp/table/", 1);
    builder.add_pre_built_log_batch(Vec::new())?;
    assert!(!builder.has_entries());
    builder.add_pre_built_log_batch(vec![data_file("a", 3), data_file("b", 4)])?;
    assert!(builder.has_entries());
    assert_eq!(
        builder.pre_built_aggregates,
        [BatchAggregates {
            added_file_count: 0,
            existing_file_count: 2,
            total_record_count: 7,
        }]
    );
    Ok(())
}

#[test]
fn file_counts_have_thirty_two_bits() {
    assert_eq!(file_count_from_len(0).unwrap(), 0);
    assert_eq!(file_count_from_len(i32::MAX as usize).unwrap(), i32::MAX);
    let error = file_count_from_len(i32::MAX as usize + 1).unwrap_err();
    assert_eq!(error.to_string(), "file count 2147483648 exceeds i32::MAX");
}

#[test]
fn content_types_and_statuses_have_numbers() {
    assert_eq!(DataContentType::Data.as_number(), 0);
    assert_eq!(DataContentType::PositionDeletes.as_number(), 1);
    assert_eq!(DataContentType::EqualityDeletes.as_number(), 2);
    assert_eq!(DataContentType::DataManifest.as_number(), 3);
    assert_eq!(DataContentType::DeleteManifest.as_number(), 4);
    assert_eq!(DataContentType::ManifestDv.as_number(), 5);
    assert_eq!(TrackingStatus::Existing.as_number(), 0);
    assert_eq!(TrackingStatus::Added.as_number(), 1);
    assert_eq!(TrackingStatus::Deleted.as_number(), 2);
    assert_eq!(TrackingStatus::Replaced.as_number(), 3);
    assert_eq!(TrackingStatus::Modified.as_number(), 4);
}

#[test]
fn leaf_ranges_cover_their_files() -> Result<(), Error> {
    let mut builder = builder_at("file:///tmp/table/", 3);
    builder.add_entry(data_file("a", 100));
    builder.add_entry(data_file("b", 50));
    builder.add_pre_built_log_batch(vec![data_file("c", 4), data_file("d", 3)])?;
    let mut allocator = CursorRowIdAllocator::new(10);
    let leaf = builder.prepare_leaf(7, &mut allocator)?;
    assert_eq!(allocator.current(), 167);
    let location = builder.table_root.join("_delta_log/leaf.parquet").unwrap();
    let entry = builder.leaf_manifest_entry(7, leaf.first_row_id, &location, 4096, None);
    assert_eq!(entry.tracking.first_row_id, Some(10));
    let info = entry.manifest_info.as_ref().unwrap();
    assert_eq!(info.added_rows_count + info.existing_rows_count, 157);
    assert_eq!(info.added_files_count + info.existing_files_count, 4);
    assert_eq!(entry.record_count, 157);
    assert_eq!(leaf.node.entries().len(), 4);
    Ok(())
}

#[test]
fn types_are_written_out() {
    let list = DataType::Array(Box::new(ArrayType {
        element_type: DataType::Primitive(PrimitiveType::Decimal(10, 2)),
        contains_null: false,
    }));
    for data_type in [list.clone(), DataType::long(), DataType::string_map()] {
        let debug = format!("{data_type:?}").replace("MapOf(", "Map(");
        assert_eq!(describe_type(&data_type), debug);
    }
    let fields = FieldList::new()
        .with(StructField::nullable("l", list))
        .with(StructField::not_null("n", DataType::long()));
    assert_eq!(
        describe_type(&DataType::structure(StructType::new_unchecked(fields))),
        "Struct(StructType { fields: [\
         StructField { name: \"l\", data_type: Array(ArrayType { \
         element_type: Primitive(Decimal(10, 2)), contains_null: false }), nullable: true }, \
         StructField { name: \"n\", data_type: Primitive(Long), nullable: false }] })"
    );
    let empty = StructType::new_unchecked(FieldList::new());
    assert_eq!(describe_type(&DataType::structure(empty)), "Struct(StructType { fields: [] })");
}
