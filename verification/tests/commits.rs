use std::collections::HashMap;

use content_tree::add_action::{Add, PartitionValue};
use content_tree::builder::ContentTreeNodeBuilder;
use content_tree::entry::{ContentTreeNodeEntry, DataContentType, TrackingStatus};
use content_tree::error::Error;
use content_tree::expression::{Scalar, StructData};
use content_tree::projection::build_partition_type;
use content_tree::row_ids::CursorRowIdAllocator;
use content_tree::schema::{
    DataType, FieldList, MetadataValue, PrimitiveType, StructField, StructType,
};
use url::Url;

fn column(name: &str, id: i64) -> StructField {
    StructField::not_null(name, DataType::integer())
        .add_metadata("PARQUET:field_id", MetadataValue::Number(id))
        .add_metadata("delta.columnMapping.id", MetadataValue::Number(id))
        .add_metadata(
            "delta.columnMapping.physicalName",
            MetadataValue::String(format!("col-{name}")),
        )
}

fn schema_of(names: &[&str]) -> StructType {
    let mut fields = FieldList::new();
    for (i, name) in names.iter().enumerate() {
        fields = fields.with(column(name, i as i64 + 1));
    }
    StructType::new_unchecked(fields)
}

fn test_table_schema() -> StructType {
    schema_of(&["id"])
}

fn table_root() -> Url {
    Url::parse("file:///tmp/table/").unwrap()
}

fn make_add(path: &str, size: i64) -> Add {
    Add {
        path: path.to_string(),
        partition_values: Vec::new(),
        size,
        stats: None,
        tags: None,
        deletion_vector: None,
    }
}

fn build_and_read(
    builder: &mut ContentTreeNodeBuilder,
    snapshot_id: i64,
) -> Result<Vec<ContentTreeNodeEntry>, Error> {
    Ok(builder.build(snapshot_id, &mut CursorRowIdAllocator::new(0))?.entries())
}

fn load(entries: Vec<ContentTreeNodeEntry>, version: u64) -> ContentTreeNodeBuilder {
    ContentTreeNodeBuilder::from_content_root(
        entries,
        table_root(),
        test_table_schema(),
        version,
        None,
    )
}

fn write_leaf(
    builder: &mut ContentTreeNodeBuilder,
    snapshot_id: i64,
) -> Result<ContentTreeNodeEntry, Error> {
    let leaf = builder.prepare_leaf(snapshot_id, &mut CursorRowIdAllocator::new(0))?;
    let location = table_root().join("_delta_log/leaf.parquet").unwrap();
    Ok(builder.leaf_manifest_entry(snapshot_id, leaf.first_row_id, &location, 0, None))
}

fn find_entry<'a>(entries: &'a [ContentTreeNodeEntry], path: &str) -> &'a ContentTreeNodeEntry {
    entries
        .iter()
        .find(|e| e.location.as_deref() == Some(path))
        .unwrap_or_else(|| panic!("entry with path '{path}' not found"))
}

fn first_version() -> Result<Vec<ContentTreeNodeEntry>, Error> {
    let mut builder = ContentTreeNodeBuilder::new_for(table_root(), 1, test_table_schema());
    builder.add(make_add("file_a.parquet", 1024), Ok(None), 1, 1)?;
    build_and_read(&mut builder, 1)
}

fn second_version() -> Result<Vec<ContentTreeNodeEntry>, Error> {
    let mut builder = load(first_version()?, 2);
    builder.add(make_add("file_b.parquet", 2048), Ok(None), 2, 2)?;
    build_and_read(&mut builder, 2)
}

#[test]
fn test_two_commits_to_root_tracking() -> Result<(), Error> {
    let entries = second_version()?;
    assert_eq!(entries.len(), 2);

    // added at version 1, existing at version 2
    let a = find_entry(&entries, "file_a.parquet");
    let a_tracking = &a.tracking;
    assert_eq!(a_tracking.status, TrackingStatus::Existing);
    assert_eq!(a_tracking.snapshot_id, Some(1));
    assert_eq!(a_tracking.sequence_number, Some(1));
    assert_eq!(a_tracking.file_sequence_number, Some(1));

    // added at version 2
    let b = find_entry(&entries, "file_b.parquet");
    let b_tracking = &b.tracking;
    assert_eq!(b_tracking.status, TrackingStatus::Added);
    assert_eq!(b_tracking.snapshot_id, Some(2));
    assert_eq!(b_tracking.sequence_number, Some(2));
    assert_eq!(b_tracking.file_sequence_number, Some(2));

    assert_ne!(a_tracking.snapshot_id, b_tracking.snapshot_id);
    assert_eq!(
        a_tracking.sequence_number.unwrap() + 1,
        b_tracking.sequence_number.unwrap()
    );
    Ok(())
}

#[test]
fn test_two_commits_move_to_leaf_tracking() -> Result<(), Error> {
    let mut builder = load(second_version()?, 3);

    let manifest_entry = write_leaf(&mut builder, 3)?;
    assert_eq!(manifest_entry.content_type, DataContentType::DataManifest);
    let manifest_info = &manifest_entry.tracking;
    assert_eq!(manifest_info.status, TrackingStatus::Added);
    assert_eq!(manifest_info.snapshot_id, Some(3));
    assert_eq!(manifest_info.sequence_number, Some(3));
    assert_eq!(manifest_info.file_sequence_number, Some(3));
    let manifest_info = manifest_entry.manifest_info.as_ref().expect("manifest_info");
    assert_eq!(manifest_info.min_sequence_number, 1);

    // the entries are still there after the leaf was written
    let entries = build_and_read(&mut builder, 3)?;
    assert_eq!(entries.len(), 2);

    let a = find_entry(&entries, "file_a.parquet");
    let a_tracking = &a.tracking;
    assert_eq!(a_tracking.status, TrackingStatus::Existing);
    assert_eq!(a_tracking.snapshot_id, Some(1));
    assert_eq!(a_tracking.sequence_number, Some(1));
    assert_eq!(a_tracking.file_sequence_number, Some(1));

    let b = find_entry(&entries, "file_b.parquet");
    let b_tracking = &b.tracking;
    assert_eq!(b_tracking.status, TrackingStatus::Existing);
    assert_eq!(b_tracking.snapshot_id, Some(2));
    assert_eq!(b_tracking.sequence_number, Some(2));
    assert_eq!(b_tracking.file_sequence_number, Some(2));

    assert_ne!(a_tracking.snapshot_id, b_tracking.snapshot_id);
    assert_eq!(
        a_tracking.sequence_number.unwrap() + 1,
        b_tracking.sequence_number.unwrap()
    );
    Ok(())
}

#[test]
fn test_two_commits_delete_first_tracking() -> Result<(), Error> {
    let mut builder = load(second_version()?, 3);
    builder.mark_deleted(Some("file_a.parquet"), None, 3)?;

    let entries = build_and_read(&mut builder, 3)?;
    assert_eq!(entries.len(), 2);

    let a = find_entry(&entries, "file_a.parquet");
    let a_tracking = &a.tracking;
    assert_eq!(a_tracking.status, TrackingStatus::Deleted);
    assert_eq!(a_tracking.snapshot_id, Some(3));
    assert_eq!(a_tracking.sequence_number, Some(1));
    assert_eq!(a_tracking.file_sequence_number, Some(1));

    let b = find_entry(&entries, "file_b.parquet");
    let b_tracking = &b.tracking;
    assert_eq!(b_tracking.status, TrackingStatus::Existing);
    assert_eq!(b_tracking.snapshot_id, Some(2));
    assert_eq!(b_tracking.sequence_number, Some(2));
    assert_eq!(b_tracking.file_sequence_number, Some(2));

    assert_ne!(a_tracking.snapshot_id, b_tracking.snapshot_id);
    Ok(())
}

fn partition_value(column: &str, value: i32) -> PartitionValue {
    PartitionValue { column: column.to_string(), value: Ok(Scalar::Integer(value)) }
}

/// The values of a partition column over some entries.
fn partition_column(entries: &[ContentTreeNodeEntry], name: &str) -> Vec<Scalar> {
    entries
        .iter()
        .map(|e| {
            let partition = e.partition.as_ref().expect("partition tuple");
            let at = partition.fields.iter().position(|f| f.name == name).unwrap();
            partition.values[at].clone()
        })
        .collect()
}

#[test]
fn test_leaf_write_round_trips_partition_field_multiple_values() -> Result<(), Error> {
    let table_schema = schema_of(&["id", "year"]);
    let partition_columns = vec!["year".to_string()];
    let partition_type =
        build_partition_type(&partition_columns, &table_schema).expect("non-empty partition type");
    let year_field = partition_type.field("year").expect("year field should exist");
    assert_eq!(
        year_field.metadata.get("PARQUET:field_id"),
        Some(&MetadataValue::Number(2)),
    );

    let mut builder = ContentTreeNodeBuilder::new_for(table_root(), 1, table_schema)
        .with_partition_type(Some(partition_type));
    for (path, year, size, records) in [
        ("year=2024/part-00000.parquet", 2024, 1024, 10),
        ("year=2025/part-00001.parquet", 2025, 2048, 20),
    ] {
        let mut add = make_add(path, size);
        add.partition_values = vec![partition_value("year", year)];
        add.stats = Some(format!("{{\"numRecords\":{records}}}"));
        builder.add(add, Ok(None), 1, 1)?;
    }

    let leaf_entry = write_leaf(&mut builder, 1)?;
    assert_eq!(leaf_entry.record_count, 30);
    let entries = build_and_read(&mut builder, 1)?;
    assert_eq!(
        partition_column(&entries, "year"),
        vec![Scalar::Integer(2024), Scalar::Integer(2025)]
    );
    Ok(())
}

#[test]
fn test_leaf_write_round_trips_multi_column_partition() -> Result<(), Error> {
    let table_schema = schema_of(&["id", "year", "month"]);
    let partition_columns = vec!["year".to_string(), "month".to_string()];
    let partition_type =
        build_partition_type(&partition_columns, &table_schema).expect("non-empty partition type");
    let year_field = partition_type.field("year").expect("year field should exist");
    assert_eq!(
        year_field.metadata.get("PARQUET:field_id"),
        Some(&MetadataValue::Number(2)),
    );
    let month_field = partition_type.field("month").expect("month field should exist");
    assert_eq!(
        month_field.metadata.get("PARQUET:field_id"),
        Some(&MetadataValue::Number(3)),
    );

    let mut builder = ContentTreeNodeBuilder::new_for(table_root(), 1, table_schema)
        .with_partition_type(Some(partition_type));
    let test_partitions: Vec<(i32, i32)> = vec![(2024, 1), (2024, 6), (2025, 3)];
    for (idx, (year, month)) in test_partitions.iter().enumerate() {
        let mut add = make_add(&format!("year={year}/month={month}/part-{idx:05}.parquet"), 1024);
        add.partition_values =
            vec![partition_value("month", *month), partition_value("year", *year)];
        add.stats = Some("{\"numRecords\":10}".to_string());
        builder.add(add, Ok(None), 1, 1)?;
    }

    write_leaf(&mut builder, 1)?;
    let entries = build_and_read(&mut builder, 1)?;
    let numbers = |values: &[i32]| values.iter().map(|&v| Scalar::Integer(v)).collect::<Vec<_>>();
    assert_eq!(partition_column(&entries, "year"), numbers(&[2024, 2024, 2025]));
    assert_eq!(partition_column(&entries, "month"), numbers(&[1, 6, 3]));
    Ok(())
}

#[test]
fn test_partition_values_round_trip_with_null_value() -> Result<(), Error> {
    let table_schema = StructType::new_unchecked(
        FieldList::new()
            .with(
                StructField::not_null("id", DataType::long())
                    .add_metadata("PARQUET:field_id", MetadataValue::Number(1)),
            )
            .with(
                StructField::nullable("region", DataType::string())
                    .add_metadata("PARQUET:field_id", MetadataValue::Number(2)),
            ),
    );
    let partition_type = build_partition_type(&vec!["region".to_string()], &table_schema);
    let builder = ContentTreeNodeBuilder::new_for(
        Url::parse("s3://my-bucket/my-table/").unwrap(),
        1,
        table_schema,
    )
    .with_partition_type(partition_type);

    let partition = builder
        .build_partition_data(&Vec::new())?
        .expect("partitioned table should produce a partition tuple");
    assert_eq!(partition.fields.len(), 1);
    assert!(partition.values[0].is_null());

    // a null has no text, so that nothing is handed back
    assert!(partition.values.iter().all(|value| serialize_value(value).is_none()));
    Ok(())
}

fn with_ids(field: StructField, id: i64) -> StructField {
    let physical_name = format!("col-{}", field.name);
    field
        .add_metadata("PARQUET:field_id", MetadataValue::Number(id))
        .add_metadata("delta.columnMapping.id", MetadataValue::Number(id))
        .add_metadata("delta.columnMapping.physicalName", MetadataValue::String(physical_name))
}

/// The statistics of a column: its bounds.
fn bounds(column: &str, data_type: DataType, lower: Scalar, upper: Scalar) -> (StructField, Scalar) {
    let fields = vec![
        StructField::nullable("lower_bound", data_type.clone()),
        StructField::nullable("upper_bound", data_type),
    ];
    let of = StructType { fields: fields.clone() };
    (
        StructField::nullable(column, DataType::structure(of)),
        Scalar::Struct(StructData { fields, values: vec![lower, upper] }),
    )
}

#[test]
fn test_add_stores_partition_values_in_partition_tuple() -> Result<(), Error> {
    let table_schema = StructType::new_unchecked(
        FieldList::new()
            .with(with_ids(StructField::not_null("id", DataType::long()), 1))
            .with(with_ids(StructField::nullable("category", DataType::string()), 2))
            .with(with_ids(StructField::not_null("year", DataType::integer()), 3)),
    );
    let partition_columns = vec!["category".to_string(), "year".to_string()];
    let partition_type = build_partition_type(&partition_columns, &table_schema);
    let mut builder = ContentTreeNodeBuilder::new_for(
        Url::parse("s3://my-bucket/my-table/").unwrap(),
        1,
        table_schema,
    )
    .with_partition_type(partition_type);

    let add = Add {
        path: "category=A/year=2024/part-00000.parquet".to_string(),
        partition_values: vec![
            PartitionValue {
                column: "category".to_string(),
                value: Ok(Scalar::String("A".to_string())),
            },
            PartitionValue { column: "year".to_string(), value: Ok(Scalar::Integer(2024)) },
        ],
        size: 1024,
        stats: Some(
            r#"{"numRecords":100,"minValues":{"id":1},"maxValues":{"id":50},"nullCount":{"id":0}}"#
                .to_string(),
        ),
        tags: None,
        deletion_vector: None,
    };
    // what the statistics stand for: bounds of the data column, none of the partition columns
    let null = |data_type: DataType| (Scalar::Null(data_type.clone()), Scalar::Null(data_type));
    let (no_category, no_year) = (null(DataType::string()), null(DataType::integer()));
    let (fields, values): (Vec<StructField>, Vec<Scalar>) = vec![
        bounds("id", DataType::long(), Scalar::Long(1), Scalar::Long(50)),
        bounds("category", DataType::string(), no_category.0, no_category.1),
        bounds("year", DataType::integer(), no_year.0, no_year.1),
    ]
    .into_iter()
    .unzip();
    builder.add(add, Ok(Some(StructData { fields, values })), 1, 1)?;

    assert_eq!(builder.pending_entries.len(), 1);
    let entry = &builder.pending_entries[0];
    assert_eq!(entry.record_count, 100);

    let content_stats = entry.content_stats.as_ref().expect("should have content_stats");
    assert_eq!(content_stats.fields.len(), 3, "stats schema covers all table columns");
    for col in ["category", "year"] {
        let idx = content_stats
            .fields
            .iter()
            .position(|f| f.name == col)
            .unwrap_or_else(|| panic!("content_stats should have {col} field"));
        let Scalar::Struct(ref inner) = content_stats.values[idx] else {
            panic!("{col} stats should be a struct");
        };
        for bound in ["lower_bound", "upper_bound"] {
            let value = inner.fields.iter().position(|f| f.name == bound).map(|i| &inner.values[i]);
            assert!(value.is_none_or(|v| v.is_null()), "{col} {bound} should be null");
        }
    }

    let partition = entry.partition.as_ref().expect("should have partition tuple");
    assert_eq!(partition.fields.len(), 2, "should have category and year");
    let cat_idx = partition
        .fields
        .iter()
        .position(|f| f.name == "category")
        .expect("partition should have category");
    assert_eq!(partition.values[cat_idx], Scalar::String("A".to_string()));
    let year_idx = partition
        .fields
        .iter()
        .position(|f| f.name == "year")
        .expect("partition should have year");
    assert_eq!(partition.values[year_idx], Scalar::Integer(2024));

    assert_eq!(
        partition.fields[cat_idx].metadata.get("PARQUET:field_id"),
        Some(&MetadataValue::Number(2)),
    );
    assert_eq!(
        partition.fields[year_idx].metadata.get("PARQUET:field_id"),
        Some(&MetadataValue::Number(3)),
    );
    Ok(())
}

/// Reads a partition value as a value of a type.
fn parse_value(raw: &str, data_type: &DataType) -> Scalar {
    match data_type {
        DataType::Primitive(PrimitiveType::String) => Scalar::String(raw.to_string()),
        DataType::Primitive(PrimitiveType::Integer) => Scalar::Integer(raw.parse().unwrap()),
        DataType::Primitive(PrimitiveType::Double) => {
            Scalar::Double(raw.parse::<f64>().unwrap().to_bits())
        }
        _ => panic!("no partition value of type {data_type:?}"),
    }
}

/// Writes a partition value out; a null has no text.
fn serialize_value(value: &Scalar) -> Option<String> {
    match value {
        Scalar::String(text) => Some(text.clone()),
        Scalar::Integer(n) => Some(n.to_string()),
        Scalar::Double(bits) => Some(f64::from_bits(*bits).to_string()),
        Scalar::Null(_) => None,
        _ => panic!("no partition value: {value:?}"),
    }
}

#[test]
fn test_partition_values_round_trip_through_partition_tuple() -> Result<(), Error> {
    let id = |field: StructField, id: i64| {
        field.add_metadata("PARQUET:field_id", MetadataValue::Number(id))
    };
    let double = DataType::Primitive(PrimitiveType::Double);
    let table_schema = StructType::new_unchecked(
        FieldList::new()
            .with(id(StructField::not_null("id", DataType::long()), 1))
            .with(id(StructField::nullable("region", DataType::string()), 2))
            .with(id(StructField::not_null("year", DataType::integer()), 3))
            .with(id(StructField::nullable("score", double), 4)),
    );
    let partition_columns =
        vec!["region".to_string(), "year".to_string(), "score".to_string()];
    let partition_type = build_partition_type(&partition_columns, &table_schema);
    let builder = ContentTreeNodeBuilder::new_for(
        Url::parse("s3://my-bucket/my-table/").unwrap(),
        1,
        table_schema.clone(),
    )
    .with_partition_type(partition_type);

    let original_partition_values: HashMap<String, String> = HashMap::from([
        ("region".to_string(), "us-west-2".to_string()),
        ("year".to_string(), "2024".to_string()),
        ("score".to_string(), "3.14".to_string()),
    ]);
    let parsed = original_partition_values
        .iter()
        .map(|(column, raw)| PartitionValue {
            column: column.clone(),
            value: Ok(parse_value(raw, &table_schema.field(column).unwrap().data_type)),
        })
        .collect();
    let partition = builder
        .build_partition_data(&parsed)?
        .expect("partitioned table should produce a partition tuple");

    let mut reconstructed: HashMap<String, String> = HashMap::new();
    for (field, value) in partition.fields.iter().zip(&partition.values) {
        if let Some(text) = serialize_value(value) {
            reconstructed.insert(field.name.clone(), text);
        }
    }
    assert_eq!(reconstructed, original_partition_values);
    Ok(())
}
