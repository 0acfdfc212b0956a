use content_tree::deletion_vector::{
    extract_deletion_vector_content, DeletionVectorDescriptor, DeletionVectorStorageType,
};
use content_tree::dv_columns::{decode_dv_row, DecodedDvVisitor, DvRow};
use content_tree::error::{Error, ErrorKind};
use content_tree::expression::Scalar;
use content_tree::schema::DataType;

fn relative(path: &str) -> DeletionVectorDescriptor {
    DeletionVectorDescriptor {
        storage_type: DeletionVectorStorageType::PersistedRelative,
        path_or_inline_dv: path.to_string(),
        offset: None,
        size_in_bytes: 0,
        cardinality: 0,
    }
}

#[test]
fn test_extract_deletion_vector_persisted_relative() -> Result<(), Error> {
    // prefix "ab", then the 20 characters of the encoded uuid
    // d2c639aa-8816-431a-aaf6-d3fe2512ff61
    let dv = DeletionVectorDescriptor {
        storage_type: DeletionVectorStorageType::PersistedRelative,
        path_or_inline_dv: "ab^-aqEH.-t@S}K{vb[*k^".to_string(),
        offset: Some(4),
        size_in_bytes: 40,
        cardinality: 6,
    };

    let deletion_vector = extract_deletion_vector_content(&dv)?;

    assert_eq!(
        deletion_vector.location,
        "ab/deletion_vector_d2c639aa-8816-431a-aaf6-d3fe2512ff61.bin"
    );
    assert_eq!(deletion_vector.offset, 4);
    assert_eq!(deletion_vector.size_in_bytes, 48); // 40 + 8
    assert_eq!(deletion_vector.cardinality, 6);
    Ok(())
}

#[test]
fn test_extract_deletion_vector_persisted_relative_no_prefix() -> Result<(), Error> {
    let dv = DeletionVectorDescriptor {
        storage_type: DeletionVectorStorageType::PersistedRelative,
        path_or_inline_dv: "vBn[lx{q8@P<9BNH/isA".to_string(),
        offset: Some(1),
        size_in_bytes: 36,
        cardinality: 2,
    };

    let deletion_vector = extract_deletion_vector_content(&dv)?;

    assert_eq!(
        deletion_vector.location,
        "deletion_vector_61d16c75-6994-46b7-a15b-8b538852e50e.bin"
    );
    assert_eq!(deletion_vector.offset, 1);
    assert_eq!(deletion_vector.size_in_bytes, 44); // 36 + 8
    assert_eq!(deletion_vector.cardinality, 2);
    Ok(())
}

#[test]
fn test_extract_deletion_vector_persisted_absolute() -> Result<(), Error> {
    let dv = DeletionVectorDescriptor {
        storage_type: DeletionVectorStorageType::PersistedAbsolute,
        path_or_inline_dv:
            "s3://another-bucket/deletion_vector_d2c639aa-8816-431a-aaf6-d3fe2512ff61.bin"
                .to_string(),
        offset: Some(4),
        size_in_bytes: 40,
        cardinality: 6,
    };

    let deletion_vector = extract_deletion_vector_content(&dv)?;

    assert_eq!(
        deletion_vector.location,
        "s3://another-bucket/deletion_vector_d2c639aa-8816-431a-aaf6-d3fe2512ff61.bin"
    );
    assert_eq!(deletion_vector.offset, 4);
    assert_eq!(deletion_vector.size_in_bytes, 48); // 40 + 8
    assert_eq!(deletion_vector.cardinality, 6);
    Ok(())
}

#[test]
fn test_extract_deletion_vector_inline_not_supported() {
    let dv = DeletionVectorDescriptor {
        storage_type: DeletionVectorStorageType::Inline,
        path_or_inline_dv: "^Bg9^0rr910000000000iXQKl0rr91000f55c8Xg0@@D72lkbi5=-{L".to_string(),
        offset: None,
        size_in_bytes: 44,
        cardinality: 6,
    };

    let result = extract_deletion_vector_content(&dv);
    assert!(result.is_err());
    let err = result.unwrap_err().to_string();
    assert!(err.contains("Inline deletion vectors are not supported"));
}

#[test]
fn test_extract_deletion_vector_invalid_relative_path() {
    // too short: less than 20 characters
    let dv = DeletionVectorDescriptor {
        storage_type: DeletionVectorStorageType::PersistedRelative,
        path_or_inline_dv: "short".to_string(),
        offset: Some(1),
        size_in_bytes: 36,
        cardinality: 2,
    };

    let result = extract_deletion_vector_content(&dv);
    assert!(result.is_err());
    let err = result.unwrap_err().to_string();
    assert!(err.contains("Invalid length"));
}

#[test]
fn short_paths_are_measured_in_bytes() {
    let error = extract_deletion_vector_content(&relative("short")).unwrap_err();
    assert_eq!(error.kind, ErrorKind::DeletionVector);
    assert_eq!(error.to_string(), "Invalid length 5, must be >= 20");

    // ten characters of two bytes each are long enough, but no base-85 text
    let error = extract_deletion_vector_content(&relative("éééééééééé")).unwrap_err();
    assert_eq!(error.to_string(), "Failed to decode DV uuid");
}

#[test]
fn prefixes_may_hold_any_character() {
    let info = extract_deletion_vector_content(&relative("é/ü vBn[lx{q8@P<9BNH/isA")).unwrap();
    assert_eq!(
        info.location,
        "é/ü /deletion_vector_61d16c75-6994-46b7-a15b-8b538852e50e.bin"
    );
    assert_eq!(info.offset, 0);
    assert_eq!(info.size_in_bytes, 8);
}

#[test]
fn undecodable_names_are_refused() {
    // a character that is no base-85 digit, and a chunk above 32 bits
    for path in ["vBn[lx{q8@P<9BNH/is\"", "#####x{q8@P<9BNH/isA", "vBn[lx{q8@P<9BNH/isé"] {
        let error = extract_deletion_vector_content(&relative(path)).unwrap_err();
        assert_eq!(error.to_string(), "Failed to decode DV uuid", "{path}");
    }
}

#[test]
fn names_decode_as_the_encoder_writes_them() {
    let mut bytes = [0u8; 16];
    let mut state: u32 = 12345;
    for _ in 0..200 {
        for byte in bytes.iter_mut() {
            state = state.wrapping_mul(1664525).wrapping_add(1013904223);
            *byte = (state >> 24) as u8;
        }
        let encoded = z85::encode(bytes);
        assert_eq!(encoded.len(), 20);
        let info = extract_deletion_vector_content(&relative(&encoded)).unwrap();
        let uuid = uuid::Uuid::from_bytes(bytes);
        assert_eq!(info.location, format!("deletion_vector_{uuid}.bin"));
    }
    for bytes in [[0u8; 16], [255u8; 16]] {
        let info = extract_deletion_vector_content(&relative(&z85::encode(bytes))).unwrap();
        let uuid = uuid::Uuid::from_bytes(bytes);
        assert_eq!(info.location, format!("deletion_vector_{uuid}.bin"));
    }
}

#[test]
fn storage_types_have_letters() {
    let parse = |letter: &str| DeletionVectorStorageType::parse(&letter.to_string());
    assert_eq!(parse("u").unwrap(), DeletionVectorStorageType::PersistedRelative);
    assert_eq!(parse("i").unwrap(), DeletionVectorStorageType::Inline);
    assert_eq!(parse("p").unwrap(), DeletionVectorStorageType::PersistedAbsolute);
    let error = parse("x").unwrap_err();
    assert_eq!(error.kind, ErrorKind::DeletionVector);
    assert_eq!(error.to_string(), "Unknown storage type: x");
}

fn dv_row(storage_type: Option<&str>) -> DvRow {
    DvRow {
        storage_type: storage_type.map(str::to_string),
        path_or_inline_dv: Some("s3://b/dv.bin".to_string()),
        offset: Some(7),
        size_in_bytes: Some(30),
        cardinality: Some(3),
    }
}

#[test]
fn rows_are_decoded_into_flat_columns() {
    let mut visitor = DecodedDvVisitor::for_scan_rows(2);
    assert!(!visitor.has_any_dv());
    visitor.visit(&vec![dv_row(None)]).unwrap();
    assert!(!visitor.has_any_dv());
    visitor.visit(&vec![dv_row(Some("p"))]).unwrap();
    assert!(visitor.has_any_dv());
    assert!(!visitor.is_log_batch);
    let columns = visitor.selected_column_names_and_types();
    assert_eq!(columns.names[0], "deletionVector.storageType");
    assert_eq!(columns.types[4], DataType::long());

    let appended = visitor.append_decoded_dv_columns();
    let names: Vec<&str> = appended.schema.fields.iter().map(|f| f.name.as_str()).collect();
    assert_eq!(
        names,
        ["_dv_location", "_dv_offset", "_dv_size_in_bytes", "_dv_cardinality"]
    );
    assert_eq!(
        appended.columns[0],
        vec![Scalar::Null(DataType::string()), Scalar::String("s3://b/dv.bin".to_string())]
    );
    assert_eq!(appended.columns[1], vec![Scalar::Null(DataType::long()), Scalar::Long(7)]);
    assert_eq!(appended.columns[2], vec![Scalar::Null(DataType::long()), Scalar::Long(38)]);
    assert_eq!(appended.columns[3], vec![Scalar::Null(DataType::long()), Scalar::Long(3)]);
}

#[test]
fn log_rows_are_read_below_add() {
    let visitor = DecodedDvVisitor::for_log_batch(0);
    assert!(visitor.is_log_batch);
    let columns = visitor.selected_column_names_and_types();
    assert_eq!(
        columns.names,
        [
            "add.deletionVector.storageType",
            "add.deletionVector.pathOrInlineDv",
            "add.deletionVector.offset",
            "add.deletionVector.sizeInBytes",
            "add.deletionVector.cardinality",
        ]
    );
}

#[test]
fn incomplete_rows_are_refused() {
    let mut row = dv_row(Some("p"));
    row.path_or_inline_dv = None;
    let error = decode_dv_row(&row).unwrap_err();
    assert_eq!(error.kind, ErrorKind::MissingData);
    assert_eq!(error.to_string(), "Data missing for field deletionVector.pathOrInlineDv");

    let mut row = dv_row(Some("p"));
    row.size_in_bytes = None;
    assert_eq!(
        decode_dv_row(&row).unwrap_err().to_string(),
        "Data missing for field deletionVector.sizeInBytes"
    );

    let mut row = dv_row(Some("p"));
    row.cardinality = None;
    assert_eq!(
        decode_dv_row(&row).unwrap_err().to_string(),
        "Data missing for field deletionVector.cardinality"
    );

    assert_eq!(
        decode_dv_row(&dv_row(Some("q"))).unwrap_err().to_string(),
        "Unknown storage type: q"
    );
    let mut visitor = DecodedDvVisitor::for_scan_rows(1);
    assert!(visitor.visit(&vec![dv_row(Some("i"))]).is_err());

    // the rows in front of the bad one stay decoded
    let mut visitor = DecodedDvVisitor::for_scan_rows(3);
    let rows = vec![dv_row(None), dv_row(Some("p")), dv_row(Some("i")), dv_row(None)];
    assert!(visitor.visit(&rows).is_err());
    assert_eq!(visitor.decoded_paths.len(), 2);
    assert_eq!(visitor.decoded_cardinalities.len(), 2);
    assert!(visitor.has_any_dv());
}
