use content_tree::builder::ContentTreeNodeBuilder;
use content_tree::dv_columns::DvRow;
use content_tree::expression::{Expression, Scalar};
use content_tree::names::STATS_PARSED_NAME;
use content_tree::projection::{
    build_log_batch_evaluator, build_partition_type, dv_decoded_flat_schema,
    flat_dv_columns_to_dv_info_expr, log_replay_schema, to_schema_with_content_stats,
};
use content_tree::schema::{
    ArrayType, DataType, FieldList, MetadataValue, PrimitiveType, StructField, StructType,
};
use content_tree::stats_schema::{
    build_content_stats_from_delta_stats_parsed, build_delta_stats_schema, stats_schema,
};
use url::Url;

fn field_with_id(name: &str, data_type: DataType, field_id: i64) -> StructField {
    StructField::nullable(name, data_type)
        .add_metadata("PARQUET:field_id", MetadataValue::Number(field_id))
        .add_metadata("delta.columnMapping.id", MetadataValue::Number(field_id))
}

fn array_of_integers() -> DataType {
    DataType::Array(Box::new(ArrayType {
        element_type: DataType::integer(),
        contains_null: true,
    }))
}

fn names(schema: &StructType) -> Vec<&str> {
    schema.fields.iter().map(|f| f.name.as_str()).collect()
}

fn structure(data_type: &DataType) -> &StructType {
    match data_type {
        DataType::Struct(fields) => fields,
        other => panic!("expected a struct, not {other:?}"),
    }
}

#[test]
fn test_content_stats_from_delta_stats_parsed_skips_array_without_shifting_later_columns() {
    // the array column sits between two primitives and has no statistics, so that 'b' must
    // still resolve to its own statistics rather than the array's
    let table_schema = StructType::new_unchecked(
        FieldList::new()
            .with(field_with_id("a", DataType::integer(), 1))
            .with(field_with_id("l", array_of_integers(), 2))
            .with(field_with_id("b", DataType::string(), 3)),
    );
    let amt_schema = stats_schema(&table_schema);
    assert_eq!(names(&amt_schema), ["a", "b"]);

    let expr = build_content_stats_from_delta_stats_parsed(&table_schema, &amt_schema).unwrap();
    let Expression::Struct(col_exprs, _) = expr else {
        panic!("expected a struct expression");
    };
    assert_eq!(col_exprs.len(), 2);

    // every column reference in a column's statistics must name that same column
    let mut seen = 0;
    for (col_expr, expected_col) in col_exprs.iter().zip(["a", "b"]) {
        let Expression::Struct(field_exprs, _) = col_expr else {
            panic!("expected a struct expression per column");
        };
        for field_expr in field_exprs {
            let Expression::Column(name) = field_expr else {
                continue;
            };
            let parts: Vec<&str> = name.iter().map(String::as_str).collect();
            if parts.len() == 3 && parts[0] == STATS_PARSED_NAME {
                assert_eq!(parts[2], expected_col);
                seen += 1;
            }
        }
    }
    assert_eq!(seen, 6);
}

fn table() -> StructType {
    StructType::new_unchecked(
        FieldList::new()
            .with(StructField::not_null("id", DataType::long()))
            .with(StructField::nullable("name", DataType::string()))
            .with(StructField::nullable(
                "score",
                DataType::Primitive(PrimitiveType::Double),
            )),
    )
}

#[test]
fn log_stats_hold_one_field_for_each_column() {
    let schema = build_delta_stats_schema(&table());
    assert_eq!(
        names(&schema),
        ["numRecords", "nullCount", "minValues", "maxValues", "tightBounds"]
    );
    let nulls = structure(&schema.fields[1].data_type);
    assert_eq!(names(nulls), ["id", "name", "score"]);
    assert!(nulls.fields.iter().all(|f| f.data_type == DataType::long() && f.nullable));
    for bounds in [&schema.fields[2], &schema.fields[3]] {
        let bounds = structure(&bounds.data_type);
        assert_eq!(bounds.fields[1].data_type, DataType::string());
        assert!(bounds.fields[0].nullable);
    }
    assert_eq!(schema.fields[4].data_type, DataType::boolean());
}

#[test]
fn content_stats_depend_on_the_type() {
    let schema = stats_schema(&table());
    assert_eq!(
        names(structure(&schema.fields[0].data_type)),
        ["lower_bound", "upper_bound", "tight_bounds", "value_count"]
    );
    assert_eq!(
        names(structure(&schema.fields[1].data_type)),
        [
            "lower_bound",
            "upper_bound",
            "tight_bounds",
            "value_count",
            "null_value_count",
            "avg_value_size_in_bytes"
        ]
    );
    assert_eq!(
        names(structure(&schema.fields[2].data_type)),
        [
            "lower_bound",
            "upper_bound",
            "tight_bounds",
            "value_count",
            "null_value_count",
            "nan_value_count"
        ]
    );
}

#[test]
fn content_stats_come_from_the_parsed_stats() {
    let made = build_content_stats_from_delta_stats_parsed(&table(), &stats_schema(&table()));
    let Ok(Expression::Struct(columns, None)) = made else {
        panic!("expected a struct expression");
    };
    let Expression::Struct(name, None) = &columns[1] else {
        panic!("expected a struct expression");
    };
    assert_eq!(
        *name,
        vec![
            Expression::deep_column("stats_parsed", "minValues", "name"),
            Expression::deep_column("stats_parsed", "maxValues", "name"),
            Expression::coalesce(
                Expression::nested_column("stats_parsed", "tightBounds"),
                Expression::literal(Scalar::Boolean(true)),
            ),
            Expression::nested_column("stats_parsed", "numRecords"),
            Expression::deep_column("stats_parsed", "nullCount", "name"),
            Expression::null_literal(DataType::integer()),
        ]
    );
}

#[test]
fn foreign_stats_are_refused() {
    let wanted = StructType::new_unchecked(
        FieldList::new().with(StructField::nullable("other", DataType::long())),
    );
    let error = build_content_stats_from_delta_stats_parsed(&table(), &wanted).unwrap_err();
    assert_eq!(
        error.to_string(),
        "AMT stats field 'other' has no matching column in the table schema"
    );
    let wanted = StructType::new_unchecked(
        FieldList::new().with(StructField::nullable("id", DataType::long())),
    );
    let error = build_content_stats_from_delta_stats_parsed(&table(), &wanted).unwrap_err();
    assert_eq!(
        error.to_string(),
        "Expected AMT stats field 'id' to be a struct, got Primitive(Long)"
    );
}

#[test]
fn entries_hold_content_stats_and_partition() {
    let partition = build_partition_type(&vec!["name".to_string()], &table());
    assert_eq!(names(partition.as_ref().unwrap()), ["name"]);
    assert!(partition.as_ref().unwrap().fields[0].nullable);
    let schema = to_schema_with_content_stats(&table(), &partition);
    assert!(schema.field("contentStats").is_some());
    assert!(schema.field("partition").is_some());
    assert!(schema.field("tracking").is_some());
    assert_eq!(
        schema.field("contentStats").unwrap().data_type,
        DataType::structure(stats_schema(&table()))
    );
    assert!(build_partition_type(&Vec::new(), &table()).is_none());
}

#[test]
fn partition_columns_that_the_table_lacks_are_left_out() {
    let columns = vec!["nope".to_string(), "name".to_string()];
    assert_eq!(names(&build_partition_type(&columns, &table()).unwrap()), ["name"]);
    assert!(build_partition_type(&vec!["nope".to_string()], &table()).is_none());

    let table = StructType::new_unchecked(
        FieldList::new().with(field_with_id("day", DataType::string(), 7)),
    );
    let partition = build_partition_type(&vec!["day".to_string()], &table).unwrap();
    assert_eq!(
        partition.fields[0].metadata.get("PARQUET:field_id"),
        Some(&MetadataValue::Number(7))
    );
    assert!(partition.fields[0].metadata.get("delta.columnMapping.id").is_none());
}

#[test]
fn flat_columns_become_a_deletion_vector() {
    assert_eq!(
        names(&dv_decoded_flat_schema()),
        ["_dv_location", "_dv_offset", "_dv_size_in_bytes", "_dv_cardinality"]
    );
    let Expression::Struct(parts, Some(when)) = flat_dv_columns_to_dv_info_expr() else {
        panic!("expected a struct that may be null");
    };
    assert_eq!(
        parts,
        vec![
            Expression::column("_dv_location"),
            Expression::column("_dv_offset"),
            Expression::column("_dv_size_in_bytes"),
            Expression::column("_dv_cardinality"),
        ]
    );
    assert_eq!(*when, Expression::is_not_null(Expression::column("_dv_location")));
}

#[test]
fn log_batches_keep_add_and_parse_its_stats() {
    assert_eq!(names(&log_replay_schema()), ["add", "remove"]);
    let request = build_log_batch_evaluator(&build_delta_stats_schema(&table()));
    assert!(structure(&request.output_type).field("stats_parsed").is_some());
}

#[test]
fn write_plans_differ_in_their_stats() {
    let builder = ContentTreeNodeBuilder::new_for(
        Url::parse("file:///tmp/table/").unwrap(),
        3,
        table(),
    );
    let plan = builder.plan_write(3, 11);
    assert_eq!(plan.with_stats.output_type, plan.without_stats.output_type);
    assert_eq!(
        structure(&plan.with_stats.input_schema.field("stats").unwrap().data_type),
        &stats_schema(&table())
    );
    assert!(structure(&plan.without_stats.input_schema.field("stats").unwrap().data_type)
        .fields
        .is_empty());
    assert_eq!(
        DataType::structure(builder.get_schema()),
        plan.with_stats.output_type
    );
}

#[test]
fn scan_rows_are_transformed_in_two_steps() {
    let builder = ContentTreeNodeBuilder::new_for(
        Url::parse("file:///tmp/table/").unwrap(),
        3,
        table(),
    );
    let none = || DvRow {
        storage_type: None,
        path_or_inline_dv: None,
        offset: None,
        size_in_bytes: None,
        cardinality: None,
    };
    let plan = builder.plan_existing_scan_rows(&vec![none()], 3, 11).unwrap();
    assert!(plan.dv_columns.is_none());
    assert_eq!(plan.entry_request.input_schema, *structure(&plan.stats_request.output_type));

    let mut with_dv = none();
    with_dv.storage_type = Some("p".to_string());
    with_dv.path_or_inline_dv = Some("s3://b/dv".to_string());
    with_dv.size_in_bytes = Some(1);
    with_dv.cardinality = Some(1);
    let plan = builder.plan_existing_scan_rows(&vec![none(), with_dv], 3, 11).unwrap();
    assert!(plan.dv_columns.is_some());
    assert_eq!(
        names(&plan.entry_request.input_schema),
        [
            "path",
            "size",
            "stats_parsed",
            "tags",
            "_dv_location",
            "_dv_offset",
            "_dv_size_in_bytes",
            "_dv_cardinality"
        ]
    );
}
