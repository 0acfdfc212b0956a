use content_tree::builder::ContentTreeNodeBuilder;
use content_tree::entry::{
    ContentTreeNodeEntry, ContentTreeNodeEntryBuilder, DataContentType, ManifestInfo,
    TrackingInfo, TrackingStatus,
};
use content_tree::error::Error;
use content_tree::row_ids::CursorRowIdAllocator;
use content_tree::schema::{DataType, FieldList, MetadataValue, StructField, StructType};
use url::Url;

fn test_table_schema() -> StructType {
    StructType::new_unchecked(
        FieldList::new()
            .with(
                StructField::not_null("id", DataType::integer())
                    .add_metadata("PARQUET:field_id", MetadataValue::Number(1)),
            )
            .with(
                StructField::nullable("value", DataType::string())
                    .add_metadata("PARQUET:field_id", MetadataValue::Number(2)),
            ),
    )
}

fn new_builder() -> ContentTreeNodeBuilder {
    let table_root = Url::parse("memory:///test/").unwrap();
    ContentTreeNodeBuilder::new_for(table_root, 1, test_table_schema())
}

fn tracking_info(status: TrackingStatus, version: Option<i64>, first_row_id: Option<i64>) -> TrackingInfo {
    TrackingInfo {
        status,
        snapshot_id: Some(1),
        sequence_number: version,
        file_sequence_number: version,
        first_row_id,
        dv_snapshot_id: None,
        deleted_positions: None,
        replaced_positions: None,
    }
}

fn make_data_entry(
    record_count: i64,
    status: TrackingStatus,
    first_row_id: Option<i64>,
) -> ContentTreeNodeEntry {
    ContentTreeNodeEntryBuilder::new(DataContentType::Data)
        .location(&format!("file-{record_count}.parquet"))
        .tracking(tracking_info(status, Some(1), first_row_id))
        .record_count(record_count)
        .file_size_in_bytes(1024)
        .build()
}

fn manifest_info(added: i32, existing: i32, added_rows: i64, existing_rows: i64) -> ManifestInfo {
    ManifestInfo {
        added_files_count: added,
        existing_files_count: existing,
        added_rows_count: added_rows,
        existing_rows_count: existing_rows,
        min_sequence_number: 1,
        ..Default::default()
    }
}

fn make_manifest_entry(
    added_rows: i64,
    existing_rows: i64,
    status: TrackingStatus,
    first_row_id: Option<i64>,
) -> ContentTreeNodeEntry {
    ContentTreeNodeEntryBuilder::new(DataContentType::DataManifest)
        .location(&format!("manifest-{added_rows}-{existing_rows}.parquet"))
        .tracking(tracking_info(status, None, first_row_id))
        .record_count(added_rows + existing_rows)
        .file_size_in_bytes(2048)
        .manifest_info_opt(Some(manifest_info(1, 1, added_rows, existing_rows)))
        .build()
}

/// Assigns ids to entries from a starting value: the ids, and where the cursor ends.
fn assign(entries: Vec<ContentTreeNodeEntry>, start: i64) -> (Vec<Option<i64>>, i64) {
    let mut builder = new_builder();
    for entry in entries {
        builder.pending_entries.push(entry);
    }
    let mut allocator = CursorRowIdAllocator::new(start);
    builder.assign_first_row_ids_to_pending(&mut allocator);
    let ids = builder.pending_entries.iter().map(|e| e.tracking.first_row_id).collect();
    (ids, allocator.current())
}

#[test]
fn test_assign_first_row_ids_data_entries_only() {
    let (ids, current) = assign(
        vec![
            make_data_entry(100, TrackingStatus::Added, None),
            make_data_entry(200, TrackingStatus::Added, None),
            make_data_entry(50, TrackingStatus::Added, None),
        ],
        0,
    );
    assert_eq!(current, 350);
    assert_eq!(ids[0], Some(0));
    assert_eq!(ids[1], Some(100));
    assert_eq!(ids[2], Some(300));
}

#[test]
fn test_assign_first_row_ids_combined_manifest_entries() {
    let (ids, current) = assign(
        vec![
            make_manifest_entry(100, 200, TrackingStatus::Added, None),
            make_manifest_entry(50, 50, TrackingStatus::Added, None),
        ],
        0,
    );
    assert_eq!(current, 400);
    assert_eq!(ids[0], Some(0));
    assert_eq!(ids[1], Some(300));
}

#[test]
fn test_assign_first_row_ids_preserves_existing() {
    // the existing entry covers [0, 300)
    let (ids, current) = assign(
        vec![
            make_manifest_entry(100, 200, TrackingStatus::Existing, Some(0)),
            make_manifest_entry(50, 50, TrackingStatus::Added, None),
        ],
        300,
    );
    assert_eq!(ids[0], Some(0));
    assert_eq!(ids[1], Some(300));
    assert_eq!(current, 400);
}

#[test]
fn test_assign_first_row_ids_deleted_entries_skipped() {
    let (ids, current) = assign(
        vec![
            make_data_entry(100, TrackingStatus::Added, None),
            make_data_entry(200, TrackingStatus::Deleted, Some(999)),
            make_data_entry(50, TrackingStatus::Added, None),
        ],
        0,
    );
    assert_eq!(ids[0], Some(0));
    assert_eq!(ids[1], Some(999));
    assert_eq!(ids[2], Some(100));
    assert_eq!(current, 150);
}

#[test]
fn test_assign_first_row_ids_mixed_data_and_manifests() {
    let (ids, current) = assign(
        vec![
            make_data_entry(100, TrackingStatus::Added, None),
            make_manifest_entry(50, 150, TrackingStatus::Added, None),
            make_data_entry(75, TrackingStatus::Added, None),
        ],
        0,
    );
    assert_eq!(ids[0], Some(0));
    assert_eq!(ids[1], Some(100));
    assert_eq!(ids[2], Some(300));
    assert_eq!(current, 375);
}

#[test]
fn test_assign_first_row_ids_nonzero_starting_value() {
    let (ids, current) = assign(
        vec![
            make_data_entry(100, TrackingStatus::Added, None),
            make_data_entry(200, TrackingStatus::Added, None),
        ],
        501,
    );
    assert_eq!(ids[0], Some(501));
    assert_eq!(ids[1], Some(601));
    assert_eq!(current, 801);
}

#[test]
fn test_assign_first_row_ids_iceberg_inheritance_equivalence() {
    let record_counts = [100i64, 50, 200];
    let manifest_first_row_id = 42i64;
    let (ids, current) = assign(
        record_counts
            .iter()
            .map(|&rc| make_data_entry(rc, TrackingStatus::Added, None))
            .collect(),
        manifest_first_row_id,
    );
    // file[i].first_row_id == manifest_first_row_id + sum(record_counts[0..i])
    let mut cumulative = 0i64;
    for (i, &rc) in record_counts.iter().enumerate() {
        let expected = manifest_first_row_id + cumulative;
        assert_eq!(
            ids[i],
            Some(expected),
            "file {i}: expected first_row_id={expected} (manifest={manifest_first_row_id} + cumulative={cumulative})"
        );
        cumulative += rc;
    }
    assert_eq!(current, manifest_first_row_id + cumulative);
}

#[test]
fn test_assign_first_row_ids_existed_null_get_assigned() {
    let (ids, current) = assign(
        vec![
            make_data_entry(100, TrackingStatus::Existing, None),
            make_data_entry(50, TrackingStatus::Added, None),
        ],
        0,
    );
    assert_eq!(
        ids[0],
        Some(0),
        "Existed entry with null first_row_id should be assigned"
    );
    assert_eq!(ids[1], Some(100));
    assert_eq!(current, 150);
}

#[test]
fn test_assign_first_row_ids_delete_content_types_always_null() {
    let deletes = |content_type: DataContentType, location: &str, records: i64, size: i64| {
        ContentTreeNodeEntryBuilder::new(content_type)
            .location(location)
            .tracking(tracking_info(TrackingStatus::Added, Some(1), None))
            .record_count(records)
            .file_size_in_bytes(size)
            .build()
    };
    let (ids, current) = assign(
        vec![
            make_data_entry(100, TrackingStatus::Added, None),
            deletes(DataContentType::PositionDeletes, "pos-deletes.parquet", 50, 512),
            deletes(DataContentType::EqualityDeletes, "eq-deletes.parquet", 25, 256),
            make_data_entry(75, TrackingStatus::Added, None),
        ],
        0,
    );
    assert_eq!(ids[0], Some(0));
    assert_eq!(ids[1], None, "PositionDeletes should not get first_row_id");
    assert_eq!(ids[2], None, "EqualityDeletes should not get first_row_id");
    assert_eq!(ids[3], Some(100));
    assert_eq!(current, 175);
}

fn build_and_roundtrip(
    mut builder: ContentTreeNodeBuilder,
    allocator: &mut CursorRowIdAllocator,
) -> Result<Vec<ContentTreeNodeEntry>, Error> {
    Ok(builder.build(1, allocator)?.entries())
}

#[test]
fn test_first_row_id_combined_manifest_entries_roundtrip() -> Result<(), Error> {
    let mut builder = new_builder();
    // 100 added + 200 existing = 300 row ID slots
    builder.add_entry(
        ContentTreeNodeEntryBuilder::new(DataContentType::DataManifest)
            .location("manifest-a.parquet")
            .tracking(tracking_info(TrackingStatus::Added, None, None))
            .record_count(300)
            .file_size_in_bytes(4096)
            .manifest_info_opt(Some(manifest_info(2, 3, 100, 200)))
            .build(),
    );
    // 50 added + 50 existing = 100 row ID slots
    builder.add_entry(
        ContentTreeNodeEntryBuilder::new(DataContentType::DataManifest)
            .location("manifest-b.parquet")
            .tracking(tracking_info(TrackingStatus::Added, None, None))
            .record_count(100)
            .file_size_in_bytes(2048)
            .manifest_info_opt(Some(manifest_info(1, 1, 50, 50)))
            .build(),
    );

    let mut allocator = CursorRowIdAllocator::new(1000);
    let entries = build_and_roundtrip(builder, &mut allocator)?;
    // 1000 + 300 + 100 = 1400
    assert_eq!(allocator.current(), 1400);
    assert_eq!(entries.len(), 2);
    assert_eq!(
        entries[0].tracking.first_row_id,
        Some(1000),
        "First manifest should start at 1000"
    );
    assert_eq!(
        entries[1].tracking.first_row_id,
        Some(1300),
        "Second manifest should start at 1000 + 300 = 1300"
    );
    Ok(())
}

#[test]
fn test_first_row_id_mixed_existed_and_added_roundtrip() -> Result<(), Error> {
    let mut builder = new_builder();
    let entry = |path: &str, record_count: i64, status: TrackingStatus| {
        ContentTreeNodeEntryBuilder::new(DataContentType::Data)
            .location(path)
            .tracking(tracking_info(status, Some(1), None))
            .record_count(record_count)
            .file_size_in_bytes(1024)
            .build()
    };
    let mut existed_entry = entry("existed-file.parquet", 100, TrackingStatus::Existing);
    existed_entry.tracking.first_row_id = Some(500);
    builder.add_entry(existed_entry);
    builder.add_entry(entry("new-file.parquet", 50, TrackingStatus::Added));

    // the existing entry covers [500, 600)
    let mut allocator = CursorRowIdAllocator::new(600);
    let entries = build_and_roundtrip(builder, &mut allocator)?;
    // the added file gets [600, 650)
    assert_eq!(allocator.current(), 650);
    assert_eq!(entries.len(), 2);
    assert_eq!(
        entries[0].tracking.first_row_id,
        Some(500),
        "Existed entry should preserve its original first_row_id"
    );
    assert_eq!(
        entries[1].tracking.first_row_id,
        Some(600),
        "Added entry should start after the existed entry's range"
    );
    Ok(())
}

#[test]
fn ids_of_data_entries_are_read_back() -> Result<(), Error> {
    let added = TrackingStatus::Added;
    for (entries, start, end, expected) in [
        (vec![(100, added), (200, added)], 42, 342, vec![Some(42), Some(142)]),
        (
            vec![(100, added), (200, TrackingStatus::Deleted), (50, added)],
            0,
            150,
            vec![Some(0), None, Some(100)],
        ),
        (vec![(100, added), (200, added)], 501, 801, vec![Some(501), Some(601)]),
    ] {
        let mut builder = new_builder();
        for (record_count, status) in entries {
            builder.add_entry(make_data_entry(record_count, status, None));
        }
        let mut allocator = CursorRowIdAllocator::new(start);
        let entries = build_and_roundtrip(builder, &mut allocator)?;
        assert_eq!(allocator.current(), end);
        let ids: Vec<Option<i64>> = entries.iter().map(|e| e.tracking.first_row_id).collect();
        assert_eq!(ids, expected);
    }
    Ok(())
}

#[test]
fn new_ranges_overlap_no_earlier_range() {
    // the cursor starts inside the range of an existing entry
    let (ids, current) = assign(
        vec![
            make_data_entry(100, TrackingStatus::Existing, Some(50)),
            make_data_entry(10, TrackingStatus::Added, None),
        ],
        60,
    );
    assert_eq!(ids, [Some(50), Some(150)]);
    assert_eq!(current, 160);
}

#[test]
fn assignment_is_stable() {
    let mut builder = new_builder();
    builder.pending_entries.push(make_data_entry(100, TrackingStatus::Added, None));
    builder.pending_entries.push(make_data_entry(20, TrackingStatus::Added, None));
    let mut allocator = CursorRowIdAllocator::new(7);
    builder.assign_first_row_ids_to_pending(&mut allocator);
    assert_eq!(allocator.current(), 127);
    builder.assign_first_row_ids_to_pending(&mut allocator);
    assert_eq!(allocator.current(), 127);
    assert_eq!(builder.pending_entries[1].tracking.first_row_id, Some(107));
}

#[test]
fn batches_come_behind_entries() -> Result<(), Error> {
    let mut builder = new_builder();
    builder.add_entry(make_data_entry(10, TrackingStatus::Added, None));
    builder.add_pre_built_log_batch(vec![
        make_data_entry(5, TrackingStatus::Existing, None),
        make_data_entry(6, TrackingStatus::Existing, Some(3)),
        make_data_entry(7, TrackingStatus::Existing, None),
    ])?;
    let mut allocator = CursorRowIdAllocator::new(100);
    let node = builder.build(1, &mut allocator)?;
    assert_eq!(node.data.len(), 2);
    assert_eq!(node.version, 1);
    assert_eq!(node.path_in_log, "");
    let ids: Vec<Option<i64>> =
        node.entries().iter().map(|e| e.tracking.first_row_id).collect();
    assert_eq!(ids, [Some(100), Some(110), Some(3), Some(115)]);
    assert_eq!(allocator.current(), 122);
    assert!(builder.pre_built_data.is_empty());
    assert_eq!(builder.pending_entries.len(), 1);
    Ok(())
}

#[test]
fn manifests_that_die_take_no_ids() -> Result<(), Error> {
    let mut builder = new_builder();
    builder.add_entry(make_manifest_entry(30, 40, TrackingStatus::Existing, None));
    builder.add_entry(make_data_entry(1, TrackingStatus::Added, None));
    let dead = [0u64, 1].into_iter().collect();
    builder.update_leaf_positions(
        "manifest-30-40.parquet",
        &dead,
        content_tree::dv_cache::LeafPositionUpdate::Carryover,
    )?;
    let mut allocator = CursorRowIdAllocator::new(0);
    let entries = builder.build(9, &mut allocator)?.entries();
    assert_eq!(entries[0].tracking.status, TrackingStatus::Deleted);
    assert_eq!(entries[0].tracking.snapshot_id, Some(9));
    assert_eq!(entries[0].tracking.first_row_id, None);
    assert_eq!(entries[1].tracking.first_row_id, Some(0));
    assert_eq!(allocator.current(), 1);
    Ok(())
}

#[test]
fn the_allocator_hands_out_ranges() {
    let mut allocator = CursorRowIdAllocator::new(5);
    assert_eq!(allocator.reserve_row_ids(3), 5);
    assert_eq!(allocator.current(), 8);
    allocator.advance_to(4);
    assert_eq!(allocator.current(), 8);
    allocator.advance_to(12);
    assert_eq!(allocator.reserve_until(20), 12);
    assert_eq!(allocator.current(), 20);
}
