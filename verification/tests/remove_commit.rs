use content_tree::error::{Error, ErrorKind};
use content_tree::expression::{Expression, FieldTransform};
use content_tree::remove_commit::{
    build_remove_stats_prep_evaluator, build_stats_prep_evaluator_for_input,
    is_deletion_vector_update, prepare_remove_scan_batch_for_amt, remove_metadata_columns,
    validate_remove_metadata_for_amt_log_commit, RemoveBatch, RemoveRow,
};
use content_tree::schema::{DataType, FieldList, StructField, StructType};

fn row(path: &str, size: Option<i64>, stats: Option<&str>) -> RemoveRow {
    RemoveRow {
        path: Some(path.to_string()),
        size,
        stats: stats.map(str::to_string),
        manifest: None,
        position: None,
    }
}

/// A batch of scan rows: it has a column of record counts and none of parsed statistics.
fn scan_row_batch(rows: Vec<RemoveRow>, selection_vector: Vec<bool>) -> RemoveBatch {
    RemoveBatch {
        has_stats_parsed: false,
        has_num_records: true,
        rows,
        selection_vector,
    }
}

fn err_message(result: Result<(), Error>) -> String {
    result.unwrap_err().to_string()
}

const STATS: &str = "{\"numRecords\":10}";

#[test]
fn valid_log_only_remove_passes() {
    let batch = scan_row_batch(vec![row("log.parquet", Some(100), Some(STATS))], vec![true]);
    validate_remove_metadata_for_amt_log_commit(&vec![batch]).unwrap();
}

#[test]
fn content_tree_row_without_back_reference_passes() {
    let batch = scan_row_batch(vec![row("leaf.parquet", Some(100), None)], vec![true]);
    validate_remove_metadata_for_amt_log_commit(&vec![batch]).unwrap();
}

#[test]
fn tree_row_with_null_stats_and_null_num_records_value_passes() {
    // the column of record counts is there; its values do not matter
    let batch = scan_row_batch(vec![row("leaf.parquet", Some(100), None)], vec![true]);
    validate_remove_metadata_for_amt_log_commit(&vec![batch]).unwrap();
}

#[test]
fn content_tree_row_with_back_reference_passes() {
    let mut back_referenced = row("leaf.parquet", Some(100), None);
    back_referenced.manifest = Some("m.json".to_string());
    back_referenced.position = Some(2);
    let batch = scan_row_batch(vec![back_referenced], vec![true]);
    validate_remove_metadata_for_amt_log_commit(&vec![batch]).unwrap();
}

#[test]
fn missing_size_fails() {
    let batch = scan_row_batch(vec![row("f.parquet", None, Some(STATS))], vec![true]);
    let err = err_message(validate_remove_metadata_for_amt_log_commit(&vec![batch]));
    assert!(err.contains("stats and size"), "unexpected error: {err}");
}

#[test]
fn partial_back_reference_fails() {
    let mut half = row("leaf.parquet", Some(100), None);
    half.manifest = Some("m.json".to_string());
    let batch = scan_row_batch(vec![half], vec![true]);
    let err = err_message(validate_remove_metadata_for_amt_log_commit(&vec![batch]));
    assert!(
        err.contains("backReference.manifest") || err.contains("must both be present"),
        "unexpected error: {err}"
    );
}

#[test]
fn unselected_rows_are_skipped() {
    let batch = scan_row_batch(vec![row("leaf.parquet", Some(100), None)], vec![false]);
    validate_remove_metadata_for_amt_log_commit(&vec![batch]).unwrap();
}

#[test]
fn unselected_rows_may_be_incomplete() {
    let batch = scan_row_batch(vec![row("a", None, None), row("b", Some(1), None)], vec![false]);
    validate_remove_metadata_for_amt_log_commit(&vec![batch]).unwrap();

    // rows behind the end of the selection vector are selected
    let batch = scan_row_batch(vec![row("a", Some(1), None), row("b", None, None)], vec![false]);
    let error = validate_remove_metadata_for_amt_log_commit(&vec![batch]).unwrap_err();
    assert_eq!(error.kind, ErrorKind::InvalidTransactionState);
    assert_eq!(
        error.to_string(),
        "metadataTree-experimental log commits require remove actions to carry stats and size \
         (extended file metadata), but they are missing for file 'b'"
    );
}

#[test]
fn json_stats_are_required_without_other_columns() {
    let batch = |has_stats_parsed, has_num_records, stats| RemoveBatch {
        has_stats_parsed,
        has_num_records,
        rows: vec![row("a", Some(1), stats)],
        selection_vector: Vec::new(),
    };
    let check = |b| validate_remove_metadata_for_amt_log_commit(&vec![b]);
    assert!(check(batch(false, false, None)).is_err());
    assert!(check(batch(false, false, Some(STATS))).is_ok());
    assert!(check(batch(true, false, None)).is_ok());
    assert!(check(batch(false, true, None)).is_ok());
}

#[test]
fn the_first_bad_row_of_the_first_bad_batch_counts() {
    let good = scan_row_batch(vec![row("good", Some(1), None)], Vec::new());
    let bad = scan_row_batch(vec![row("x", None, None), row("y", None, None)], Vec::new());
    let worse = scan_row_batch(vec![row("z", None, None)], Vec::new());
    let err = err_message(validate_remove_metadata_for_amt_log_commit(&vec![good, bad, worse]));
    assert!(err.ends_with("'x'"), "unexpected error: {err}");
}

#[test]
fn rows_without_a_path_are_passed_over() {
    let mut empty = row("", None, None);
    empty.path = None;
    let batch = scan_row_batch(vec![empty], Vec::new());
    validate_remove_metadata_for_amt_log_commit(&vec![batch]).unwrap();
}

#[test]
fn the_check_reads_five_columns() {
    let columns = remove_metadata_columns();
    assert_eq!(
        columns.names,
        [
            "path",
            "size",
            "stats",
            "fileConstantValues.backReference.manifest",
            "fileConstantValues.backReference.pos",
        ]
    );
    assert_eq!(columns.types[1], DataType::long());
    assert_eq!(columns.types[2], DataType::string());
}

fn schema(names: &[&str]) -> StructType {
    let mut fields = FieldList::new();
    for name in names {
        fields = fields.with(StructField::nullable(name, DataType::long()));
    }
    StructType::new_unchecked(fields)
}

#[test]
fn parsed_stats_are_appended_behind_the_last_column() {
    let request = build_stats_prep_evaluator_for_input(schema(&["path", "numRecords"]));
    let Expression::Transform(transform) = &request.expression else {
        panic!("expected a transform");
    };
    assert!(transform.input_path.is_empty());
    assert_eq!(transform.steps.len(), 1);
    let FieldTransform::Inserted(after, made) = &transform.steps[0] else {
        panic!("expected an insertion");
    };
    assert_eq!(after.as_deref(), Some("numRecords"));
    assert_eq!(*made, Expression::Struct(vec![Expression::column("numRecords")], None));
    let DataType::Struct(output) = &request.output_type else {
        panic!("expected a struct");
    };
    let names: Vec<&str> = output.fields.iter().map(|f| f.name.as_str()).collect();
    assert_eq!(names, ["path", "numRecords", "stats_parsed"]);

    let request = build_stats_prep_evaluator_for_input(schema(&[]));
    let Expression::Transform(transform) = &request.expression else {
        panic!("expected a transform");
    };
    assert!(matches!(&transform.steps[0], FieldTransform::Inserted(None, _)));
}

#[test]
fn batches_of_dv_updates_have_a_schema_of_their_own() {
    let scan = schema(&["path"]);
    let intermediate = schema(&["path", "newDeletionVector"]);
    let dropped = vec!["x".to_string(), "newDeletionVector".to_string()];
    let kept = vec!["x".to_string()];
    assert!(is_deletion_vector_update(&dropped));
    assert!(!is_deletion_vector_update(&kept));
    assert!(build_remove_stats_prep_evaluator(false, &dropped, &scan, &intermediate).is_none());
    let request = build_remove_stats_prep_evaluator(true, &dropped, &scan, &intermediate).unwrap();
    assert_eq!(request.input_schema, intermediate);
    let request = build_remove_stats_prep_evaluator(true, &kept, &scan, &intermediate).unwrap();
    assert_eq!(request.input_schema, scan);
}

#[test]
fn batches_are_prepared_where_stats_can_be_made() {
    let request = build_stats_prep_evaluator_for_input(schema(&["path"]));
    let prepared =
        |names: &[&str]| prepare_remove_scan_batch_for_amt(Some(&request), &schema(names)).is_some();
    assert!(prepared(&["path", "numRecords"]));
    assert!(!prepared(&["path", "numRecords", "stats_parsed"]));
    assert!(!prepared(&["path"]));
    assert!(prepare_remove_scan_batch_for_amt(None, &schema(&["numRecords"])).is_none());
}
