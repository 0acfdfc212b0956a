use bytes::Bytes;
use content_tree::bitmap::{deserialize_roaring_treemap, serialize_roaring_treemap};
use content_tree::builder::ContentTreeNodeBuilder;
use content_tree::dv_cache::{DvCache, LeafPositionUpdate};
use content_tree::entry::{
    ContentTreeNodeEntry, ContentTreeNodeEntryBuilder, DataContentType, ManifestInfo,
    TrackingStatus,
};
use content_tree::error::Error;
use content_tree::row_ids::CursorRowIdAllocator;
use content_tree::schema::{DataType, FieldList, MetadataValue, StructField, StructType};
use roaring::RoaringTreemap;
use url::Url;

fn test_table_schema() -> StructType {
    StructType::new_unchecked(
        FieldList::new().with(
            StructField::not_null("id", DataType::integer())
                .add_metadata("PARQUET:field_id", MetadataValue::Number(1))
                .add_metadata("delta.columnMapping.id", MetadataValue::Number(1))
                .add_metadata(
                    "delta.columnMapping.physicalName",
                    MetadataValue::String("col-id".to_string()),
                ),
        ),
    )
}

fn table_root() -> Url {
    Url::parse("file:///tmp/table/").unwrap()
}

fn new_builder(version: u64) -> ContentTreeNodeBuilder {
    ContentTreeNodeBuilder::new_for(table_root(), version, test_table_schema())
}

fn data_entry(location: &str, version: u64, snapshot_id: i64) -> ContentTreeNodeEntry {
    ContentTreeNodeEntryBuilder::new(DataContentType::Data)
        .location(location)
        .with_tracking(TrackingStatus::Added, version, snapshot_id)
        .record_count(100)
        .file_size_in_bytes(1024)
        .build()
}

/// Builds a leaf, takes it as written to a location below the log, and returns its entry.
fn write_leaf(
    builder: &mut ContentTreeNodeBuilder,
    snapshot_id: i64,
) -> Result<ContentTreeNodeEntry, Error> {
    let mut allocator = CursorRowIdAllocator::new(0);
    let leaf = builder.prepare_leaf(snapshot_id, &mut allocator)?;
    let location = table_root().join("_delta_log/leaf-0001.parquet").unwrap();
    Ok(builder.leaf_manifest_entry(snapshot_id, leaf.first_row_id, &location, 4096, None))
}

/// A leaf of `count` data entries.
fn leaf_of(count: usize) -> Result<ContentTreeNodeEntry, Error> {
    let mut leaf_builder = new_builder(1);
    for i in 0..count {
        leaf_builder.add_entry(data_entry(&format!("data/part-{i:05}.parquet"), 1, 1));
    }
    write_leaf(&mut leaf_builder, 1)
}

fn build_and_read_root(
    builder: &mut ContentTreeNodeBuilder,
    snapshot_id: i64,
) -> Result<Vec<ContentTreeNodeEntry>, Error> {
    let mut allocator = CursorRowIdAllocator::new(0);
    Ok(builder.build(snapshot_id, &mut allocator)?.entries())
}

fn manifest_of(entries: &[ContentTreeNodeEntry]) -> &ContentTreeNodeEntry {
    entries
        .iter()
        .find(|e| matches!(e.content_type, DataContentType::DataManifest))
        .expect("DataManifest should exist")
}

fn decode(bytes: &Bytes) -> RoaringTreemap {
    RoaringTreemap::deserialize_from(&bytes[4..]).unwrap()
}

fn bitmap(positions: &[u64]) -> RoaringTreemap {
    positions.iter().copied().collect()
}

/// Keeps the entries whose position is not masked.
fn apply_manifest_dv(
    entries: Vec<ContentTreeNodeEntry>,
    dv_bytes: &Bytes,
) -> Result<Vec<ContentTreeNodeEntry>, Error> {
    let masked = deserialize_roaring_treemap(dv_bytes)?;
    Ok(entries
        .into_iter()
        .enumerate()
        .filter(|(i, _)| !masked.contains(*i as u64))
        .map(|(_, e)| e)
        .collect())
}

#[test]
fn test_delete_from_leaf_single_entry() -> Result<(), Error> {
    // Step 1: a leaf with 10 data entries
    let mut leaf_builder = new_builder(1);
    for i in 0..10 {
        leaf_builder.add_entry(data_entry(&format!("data/part-{i:05}.parquet"), 1, 1));
    }
    let leaf_manifest_entry = write_leaf(&mut leaf_builder, 1)?;
    let leaf_path = leaf_manifest_entry.location.clone().unwrap();

    // Step 2: a root with the leaf, and the entry at index 5 deleted
    let mut root_builder = new_builder(1);
    root_builder.add_entry(leaf_manifest_entry);
    let mut indices = RoaringTreemap::new();
    indices.insert(5u64);
    root_builder.update_leaf_positions(&leaf_path, &indices, LeafPositionUpdate::Delete)?;

    // Step 3: the masked positions are stored in the root
    let root_entries = build_and_read_root(&mut root_builder, 1)?;
    assert_eq!(root_entries.len(), 1);
    let data_manifest = manifest_of(&root_entries);
    assert_eq!(data_manifest.location.as_ref(), Some(&leaf_path));
    let manifest_dv_bytes = data_manifest.manifest_dv_bytes().expect("manifest_dv should exist");
    assert!(manifest_dv_bytes.len() >= 4, "Should have magic number prefix");
    let treemap = RoaringTreemap::deserialize_from(&manifest_dv_bytes[4..]).unwrap();
    assert!(treemap.contains(5));
    assert_eq!(treemap.len(), 1);

    // Step 4: they filter the entries of the leaf
    let leaf_entries = build_and_read_root(&mut leaf_builder, 1)?;
    assert_eq!(leaf_entries.len(), 10); // Original 10 entries
    let filtered_entries = apply_manifest_dv(leaf_entries, manifest_dv_bytes)?;
    assert_eq!(filtered_entries.len(), 9); // 1 deleted, 9 remaining
    Ok(())
}

#[test]
fn test_delete_from_leaf_multiple_entries() -> Result<(), Error> {
    let mut leaf_builder = new_builder(1);
    for i in 0..10 {
        leaf_builder.add_entry(data_entry(&format!("data/part-{i:05}.parquet"), 1, 1));
    }
    let leaf_manifest_entry = write_leaf(&mut leaf_builder, 1)?;
    let leaf_path = leaf_manifest_entry.location.clone().unwrap();

    let mut root_builder = new_builder(1);
    root_builder.add_entry(leaf_manifest_entry);
    let mut indices = RoaringTreemap::new();
    indices.extend([2u64, 5, 7]);
    root_builder.update_leaf_positions(&leaf_path, &indices, LeafPositionUpdate::Delete)?;

    let root_entries = build_and_read_root(&mut root_builder, 1)?;
    assert_eq!(root_entries.len(), 1); // DataManifest entry
    let data_manifest = manifest_of(&root_entries);
    let manifest_dv_bytes = data_manifest.manifest_dv_bytes().unwrap();
    let treemap = RoaringTreemap::deserialize_from(&manifest_dv_bytes[4..]).unwrap();
    assert!(treemap.contains(2));
    assert!(treemap.contains(5));
    assert!(treemap.contains(7));
    assert_eq!(treemap.len(), 3);

    let leaf_entries = build_and_read_root(&mut leaf_builder, 1)?;
    let filtered_entries = apply_manifest_dv(leaf_entries, manifest_dv_bytes)?;
    assert_eq!(filtered_entries.len(), 7); // 3 deleted, 7 remaining
    Ok(())
}

#[test]
fn test_delete_from_leaf_all_entries_marks_deleted() -> Result<(), Error> {
    let leaf_manifest_entry = leaf_of(3)?;
    let leaf_path = leaf_manifest_entry.location.clone().unwrap();

    let mut root_builder = new_builder(1);
    root_builder.add_entry(leaf_manifest_entry);
    let mut indices = RoaringTreemap::new();
    indices.extend([0u64, 1, 2]);
    root_builder.update_leaf_positions(&leaf_path, &indices, LeafPositionUpdate::Delete)?;

    let root_entries = build_and_read_root(&mut root_builder, 1)?;
    let leaf_manifest = root_entries
        .iter()
        .find(|e| {
            e.content_type == DataContentType::DataManifest
                && e.location.as_ref() == Some(&leaf_path)
        })
        .expect("Leaf manifest should exist");
    assert_eq!(leaf_manifest.tracking.status, TrackingStatus::Deleted);
    Ok(())
}

#[test]
fn test_delete_from_leaf_index_out_of_bounds() -> Result<(), Error> {
    let leaf_manifest_entry = leaf_of(10)?;
    let leaf_path = leaf_manifest_entry.location.clone().unwrap();

    // index 10 is out of bounds: valid indices are 0-9 for 10 entries
    let mut root_builder = new_builder(1);
    root_builder.add_entry(leaf_manifest_entry);
    let mut indices = RoaringTreemap::new();
    indices.insert(10u64);
    let result =
        root_builder.update_leaf_positions(&leaf_path, &indices, LeafPositionUpdate::Delete);
    assert!(result.is_err());
    assert!(result.unwrap_err().to_string().contains("out of bounds"));
    Ok(())
}

#[test]
fn test_delete_from_leaf_nonexistent_manifest() {
    let mut root_builder = new_builder(1);
    let mut indices = RoaringTreemap::new();
    indices.insert(5u64);
    let result = root_builder.update_leaf_positions(
        "nonexistent.parquet",
        &indices,
        LeafPositionUpdate::Delete,
    );
    assert!(result.is_err());
    assert!(result.unwrap_err().to_string().contains("Manifest cache not found"));
}

#[test]
fn test_delete_from_leaf_with_relative_path() -> Result<(), Error> {
    let leaf_manifest_entry = leaf_of(5)?;
    let leaf_path = leaf_manifest_entry.location.clone().unwrap();
    // the location of the leaf is relative already
    let relative_path = &leaf_path;

    let mut root_builder = new_builder(1);
    root_builder.add_entry(leaf_manifest_entry);
    let mut indices = RoaringTreemap::new();
    indices.insert(3u64);
    root_builder.update_leaf_positions(relative_path, &indices, LeafPositionUpdate::Delete)?;

    let root_entries = build_and_read_root(&mut root_builder, 1)?;
    let data_manifest = manifest_of(&root_entries);
    assert_eq!(data_manifest.location.as_ref(), Some(&leaf_path));
    let treemap = decode(data_manifest.manifest_dv_bytes().unwrap());
    assert!(treemap.contains(3));
    Ok(())
}

#[test]
fn test_delete_from_leaf_with_existing_deleted_entries() -> Result<(), Error> {
    let mut root_builder = new_builder(1);

    // 2 added files (indices 0, 1), 1 existing file (index 2), 2 deleted files (indices 3, 4):
    // 5 entries in all, of which 3 are active
    let manifest_entry = ContentTreeNodeEntryBuilder::new(DataContentType::DataManifest)
        .location("leaf-manifest.parquet")
        .with_tracking(TrackingStatus::Added, 1, 1)
        .record_count(5)
        .file_size_in_bytes(2048)
        .manifest_info_opt(Some(ManifestInfo {
            added_files_count: 2,
            existing_files_count: 1,
            deleted_files_count: 2,
            added_rows_count: 200,
            existing_rows_count: 100,
            deleted_rows_count: 200,
            min_sequence_number: 1,
            ..Default::default()
        }))
        .build();
    let leaf_path = manifest_entry.location.clone().unwrap();
    root_builder.add_entry(manifest_entry);

    let mut indices = RoaringTreemap::new();
    indices.extend([0u64, 1, 2]);
    root_builder.update_leaf_positions(&leaf_path, &indices, LeafPositionUpdate::Delete)?;

    let root_entries = build_and_read_root(&mut root_builder, 1)?;
    let leaf_manifest = root_entries
        .iter()
        .find(|e| {
            e.content_type == DataContentType::DataManifest
                && e.location.as_ref() == Some(&leaf_path)
        })
        .expect("Leaf manifest should exist");

    // all active entries (3) are deleted, though the leaf has 5 entries in all
    assert_eq!(leaf_manifest.tracking.status, TrackingStatus::Deleted);
    let treemap = decode(leaf_manifest.manifest_dv_bytes().expect("manifest_dv should exist"));
    assert_eq!(treemap.len(), 3, "manifest_dv should only track the 3 newly deleted entries");
    Ok(())
}

#[test]
fn test_tracking_deleted_positions_clearing() -> Result<(), Error> {
    let root = table_root();
    let mut leaf_builder = new_builder(1);
    for i in 0..10 {
        leaf_builder.add_entry(data_entry(&format!("{root}data/part-{i:05}.parquet"), 1, 1));
    }
    let leaf_manifest_entry = write_leaf(&mut leaf_builder, 1)?;
    let leaf_path = leaf_manifest_entry.location.clone().unwrap();

    // first commit: entries 2 and 5
    let mut root_builder = new_builder(1);
    root_builder.add_entry(leaf_manifest_entry.clone());
    let mut indices_v1 = RoaringTreemap::new();
    indices_v1.extend([2u64, 5]);
    root_builder.update_leaf_positions(&leaf_path, &indices_v1, LeafPositionUpdate::Delete)?;
    let entries_v1 = build_and_read_root(&mut root_builder, 1)?;
    let manifest_v1 = manifest_of(&entries_v1);
    let cumulative_v1 = decode(manifest_v1.manifest_dv_bytes().expect("manifest_dv"));
    assert!(cumulative_v1.contains(2));
    assert!(cumulative_v1.contains(5));
    assert_eq!(cumulative_v1.len(), 2);
    let delta_v1 =
        decode(manifest_v1.tracking.deleted_positions.as_ref().expect("deleted_positions"));
    assert!(delta_v1.contains(2));
    assert!(delta_v1.contains(5));
    assert_eq!(delta_v1.len(), 2);

    // second commit: entries 3 and 7
    let mut root_builder_v2 = new_builder(2);
    for entry in entries_v1 {
        root_builder_v2.add_entry(entry);
    }
    let mut indices_v2 = RoaringTreemap::new();
    indices_v2.extend([3u64, 7]);
    root_builder_v2.update_leaf_positions(&leaf_path, &indices_v2, LeafPositionUpdate::Delete)?;
    let entries_v2 = build_and_read_root(&mut root_builder_v2, 2)?;
    let manifest_v2 = manifest_of(&entries_v2);
    let cumulative_v2 = decode(manifest_v2.manifest_dv_bytes().expect("manifest_dv"));
    assert!(cumulative_v2.contains(2));
    assert!(cumulative_v2.contains(3));
    assert!(cumulative_v2.contains(5));
    assert!(cumulative_v2.contains(7));
    assert_eq!(cumulative_v2.len(), 4);
    let delta_v2 =
        decode(manifest_v2.tracking.deleted_positions.as_ref().expect("deleted_positions"));
    assert!(!delta_v2.contains(2), "Old deletion (2) should NOT be in delta");
    assert!(delta_v2.contains(3), "New deletion (3) should be in delta");
    assert!(!delta_v2.contains(5), "Old deletion (5) should NOT be in delta");
    assert!(delta_v2.contains(7), "New deletion (7) should be in delta");
    assert_eq!(delta_v2.len(), 2, "Delta should only contain 2 new deletions");

    // third commit: entry 8
    let mut root_builder_v3 = new_builder(3);
    for entry in entries_v2 {
        root_builder_v3.add_entry(entry);
    }
    let mut indices_v3 = RoaringTreemap::new();
    indices_v3.insert(8u64);
    root_builder_v3.update_leaf_positions(&leaf_path, &indices_v3, LeafPositionUpdate::Delete)?;
    let entries_v3 = build_and_read_root(&mut root_builder_v3, 3)?;
    let manifest_v3 = manifest_of(&entries_v3);
    let cumulative_v3 = decode(manifest_v3.manifest_dv_bytes().expect("manifest_dv"));
    assert!(cumulative_v3.contains(2));
    assert!(cumulative_v3.contains(3));
    assert!(cumulative_v3.contains(5));
    assert!(cumulative_v3.contains(7));
    assert!(cumulative_v3.contains(8));
    assert_eq!(cumulative_v3.len(), 5);
    let delta_v3 =
        decode(manifest_v3.tracking.deleted_positions.as_ref().expect("deleted_positions"));
    assert!(!delta_v3.contains(2), "Old deletion (2) should NOT be in delta");
    assert!(!delta_v3.contains(3), "Old deletion (3) should NOT be in delta");
    assert!(!delta_v3.contains(5), "Old deletion (5) should NOT be in delta");
    assert!(!delta_v3.contains(7), "Old deletion (7) should NOT be in delta");
    assert!(delta_v3.contains(8), "New deletion (8) should be in delta");
    assert_eq!(delta_v3.len(), 1, "Delta should only contain 1 new deletion");

    // fourth commit: a new data entry, no deletions
    let mut root_builder_v4 = new_builder(4);
    for entry in entries_v3 {
        root_builder_v4.add_entry(entry);
    }
    root_builder_v4.add_entry(data_entry(&format!("{root}data/part-{:05}.parquet", 100), 4, 4));
    let entries_v4 = build_and_read_root(&mut root_builder_v4, 4)?;
    let manifest_v4 = manifest_of(&entries_v4);
    let cumulative_v4 = decode(manifest_v4.manifest_dv_bytes().expect("manifest_dv"));
    assert_eq!(cumulative_v4.len(), 5, "manifest_dv should still have 5 deletions");
    assert!(
        manifest_v4.tracking.deleted_positions.is_none(),
        "deleted_positions should be None when no deletions are made"
    );
    Ok(())
}

#[test]
fn test_tracking_replaced_positions() -> Result<(), Error> {
    let leaf_manifest_entry = leaf_of(10)?;
    let leaf_path = leaf_manifest_entry.location.clone().unwrap();

    let mut root_builder = new_builder(1);
    root_builder.add_entry(leaf_manifest_entry);
    let mut indices = RoaringTreemap::new();
    indices.extend([1u64, 4]);
    root_builder.update_leaf_positions(&leaf_path, &indices, LeafPositionUpdate::Replace)?;

    let entries = build_and_read_root(&mut root_builder, 1)?;
    let manifest = manifest_of(&entries);
    let cumulative = decode(manifest.manifest_dv_bytes().expect("manifest_dv should exist"));
    assert!(cumulative.contains(1));
    assert!(cumulative.contains(4));
    assert_eq!(cumulative.len(), 2);
    assert!(
        manifest.tracking.deleted_positions.is_none(),
        "deleted_positions should not be set for replacements"
    );
    let delta = decode(manifest.tracking.replaced_positions.as_ref().expect("replaced_positions"));
    assert!(delta.contains(1));
    assert!(delta.contains(4));
    assert_eq!(delta.len(), 2);
    Ok(())
}

#[test]
fn test_leaf_reorganization_does_not_set_deleted_positions() -> Result<(), Error> {
    let leaf_manifest_entry = leaf_of(5)?;
    let leaf_path = leaf_manifest_entry.location.clone().unwrap();

    // entries that move to another leaf carry over and are not deleted
    let mut root_builder = new_builder(1);
    root_builder.add_entry(leaf_manifest_entry.clone());
    let mut indices = RoaringTreemap::new();
    indices.insert(2);
    indices.insert(3);
    root_builder.update_leaf_positions(&leaf_path, &indices, LeafPositionUpdate::Carryover)?;

    let entries = build_and_read_root(&mut root_builder, 1)?;
    let manifest = manifest_of(&entries);
    let cumulative = decode(manifest.manifest_dv_bytes().expect("manifest_dv should exist"));
    assert!(cumulative.contains(2));
    assert!(cumulative.contains(3));
    assert_eq!(cumulative.len(), 2);
    assert!(
        manifest.tracking.deleted_positions.is_none(),
        "deleted_positions should NOT be set for leaf reorganization"
    );
    assert!(
        manifest.tracking.replaced_positions.is_none(),
        "replaced_positions should NOT be set for leaf reorganization"
    );
    Ok(())
}

#[test]
fn frames_start_with_the_magic_number() {
    let map = bitmap(&[1, 5_000_000_000, u64::MAX]);
    let frame = serialize_roaring_treemap(&map).unwrap();
    assert_eq!(frame[..4], 1681511377u32.to_be_bytes());
    assert_eq!(deserialize_roaring_treemap(&frame).unwrap(), map);

    let empty = serialize_roaring_treemap(&RoaringTreemap::new()).unwrap();
    assert!(deserialize_roaring_treemap(&empty).unwrap().is_empty());
}

#[test]
fn frames_of_dense_sets_read_back() {
    let mut map: RoaringTreemap = (0..200_000u64).collect();
    map.extend((1u64 << 40)..(1u64 << 40) + 10);
    let frame = serialize_roaring_treemap(&map).unwrap();
    assert_eq!(deserialize_roaring_treemap(&frame).unwrap(), map);
}

#[test]
fn broken_frames_are_refused() {
    let error = deserialize_roaring_treemap(&Bytes::from(vec![1u8, 2, 3])).unwrap_err();
    assert_eq!(
        error.to_string(),
        "Invalid manifest DV: bytes too small (less than 4 bytes)"
    );
    let error = deserialize_roaring_treemap(&Bytes::from(vec![0u8; 7])).unwrap_err();
    let cause = RoaringTreemap::deserialize_from(&[0u8; 3][..]).unwrap_err();
    assert_eq!(
        error.to_string(),
        format!("Failed to deserialize deletion vector bitmap: {cause}")
    );
}

#[test]
fn caches_load_on_first_use() {
    let frame = serialize_roaring_treemap(&bitmap(&[3])).unwrap();
    let mut cache = DvCache::new(Some(frame), true, 10);
    assert!(!cache.dirty);
    assert!(cache.manifest_dv.is_none());
    cache.apply_position_update(&bitmap(&[4]), LeafPositionUpdate::Delete).unwrap();
    assert!(cache.dirty);
    assert_eq!(cache.manifest_dv, Some(bitmap(&[3, 4])));
    assert_eq!(cache.deleted_positions, bitmap(&[4]));
    cache.apply_position_update(&bitmap(&[4, 5]), LeafPositionUpdate::Replace).unwrap();
    assert_eq!(cache.manifest_dv, Some(bitmap(&[3, 4, 5])));
    assert_eq!(cache.deleted_positions, bitmap(&[4]));
    assert_eq!(cache.replaced_positions, bitmap(&[4, 5]));

    let mut broken = DvCache::new(Some(Bytes::from(vec![9u8, 9])), true, 10);
    assert!(broken.apply_position_update(&bitmap(&[1]), LeafPositionUpdate::Delete).is_err());
    assert!(!broken.dirty);
}

#[test]
fn updates_accumulate_in_any_order() -> Result<(), Error> {
    for (first, second) in [(&[1u64, 2][..], &[2u64, 7][..]), (&[2, 7], &[1, 2])] {
        let leaf = leaf_of(10)?;
        let path = leaf.location.clone().unwrap();
        let mut root = new_builder(1);
        root.add_entry(leaf);
        root.update_leaf_positions(&path, &bitmap(first), LeafPositionUpdate::Delete)?;
        root.update_leaf_positions(&path, &bitmap(second), LeafPositionUpdate::Delete)?;
        let entries = build_and_read_root(&mut root, 1)?;
        let manifest = manifest_of(&entries);
        assert_eq!(decode(manifest.manifest_dv_bytes().unwrap()), bitmap(&[1, 2, 7]));
        let info = manifest.manifest_info.as_ref().unwrap();
        assert_eq!(info.dv_cardinality, Some(3));
    }
    Ok(())
}

#[test]
fn out_of_bounds_updates_change_nothing() -> Result<(), Error> {
    let leaf = leaf_of(3)?;
    let path = leaf.location.clone().unwrap();
    let mut root = new_builder(1);
    root.add_entry(leaf);
    let error = root
        .update_leaf_positions(&path, &bitmap(&[0, 17]), LeafPositionUpdate::Delete)
        .unwrap_err();
    assert_eq!(error.to_string(), "Index 17 out of bounds (total entries: 3)");
    assert_eq!(root.summary().dv_cache_dirty_count, 0);
    let entries = build_and_read_root(&mut root, 1)?;
    assert!(manifest_of(&entries).manifest_dv_bytes().is_none());
    Ok(())
}

#[test]
fn manifests_without_info_cannot_be_masked() {
    let mut root = new_builder(1);
    root.add_entry(
        ContentTreeNodeEntryBuilder::new(DataContentType::DataManifest)
            .location("leaf.parquet")
            .build(),
    );
    assert!(root.has_leaf_manifest("leaf.parquet"));
    let error = root
        .update_leaf_positions("leaf.parquet", &bitmap(&[]), LeafPositionUpdate::Delete)
        .unwrap_err();
    assert_eq!(error.to_string(), "Manifest entry has no manifest_info: leaf.parquet");
    let error = root
        .update_leaf_positions("leaf.parquet", &bitmap(&[0]), LeafPositionUpdate::Delete)
        .unwrap_err();
    assert_eq!(error.to_string(), "Index 0 out of bounds (total entries: 0)");
}

#[test]
fn builds_stop_at_an_entry_without_manifest_info() -> Result<(), Error> {
    let leaf = leaf_of(3)?;
    let path = leaf.location.clone().unwrap();
    let mut root = new_builder(1);
    root.add_entry(leaf);
    root.update_leaf_positions(&path, &bitmap(&[1]), LeafPositionUpdate::Delete)?;
    root.pending_entries[0].manifest_info = None;
    let mut allocator = CursorRowIdAllocator::new(7);
    let error = root.build(1, &mut allocator).err().unwrap();
    assert_eq!(error.to_string(), "manifest entry has a dirty DV cache but no manifest_info");
    assert_eq!(allocator.current(), 7);
    Ok(())
}

#[test]
fn summaries_count_what_is_there() -> Result<(), Error> {
    let leaf = leaf_of(3)?;
    let path = leaf.location.clone().unwrap();
    let mut root = new_builder(1);
    assert!(!root.has_entries());
    root.add_entry(leaf);
    root.add_entry(data_entry("a.parquet", 1, 1));
    assert!(root.has_entries());
    root.update_leaf_positions(&path, &bitmap(&[1]), LeafPositionUpdate::Delete)?;
    let summary = root.summary();
    assert_eq!(summary.pending_entries, 2);
    assert_eq!(summary.pre_built_data, 0);
    assert_eq!(summary.dv_cache_count, 1);
    assert_eq!(summary.dv_cache_dirty_count, 1);
    assert!(root.ensure_dv_cache_exists(&path).is_ok());
    assert_eq!(
        root.ensure_dv_cache_exists("x").unwrap_err().to_string(),
        "Manifest cache not found at location: x. This is a bug."
    );
    Ok(())
}
