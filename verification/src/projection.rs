//! Requests to the engine: which expression turns rows of one schema into rows of another.

use vstd::prelude::*;

use crate::entry::{DataContentType, TrackingStatus};
use crate::error::{outcome, viewed, DeltaResult, ErrorModel};
use crate::expression::{
    coalesce, column, integer_literal, long_literal, nested_column, null_literal, optional_model,
    or_null, struct_from, Expression, ExpressionList, ExpressionModel, Scalar, ScalarModel,
};
use crate::names::{
    ADD_NAME, CONTENT_STATS_FIELD_NAME, CONTENT_TYPE, DEFAULT_ROW_COMMIT_VERSION_NAME,
    DELTA_STATS_NUM_RECORDS, DV_CARDINALITY, DV_INFO, DV_LOCATION, DV_OFFSET, DV_SIZE_IN_BYTES,
    FILE_FORMAT, FILE_SIZE_IN_BYTES, LOCATION, MANIFEST_INFO, PARQUET_FIELD_ID, PARTITION,
    PARTITION_SPEC_ID, RECORD_COUNT, REMOVE_NAME, SORT_ORDER_ID, STATS_PARSED_NAME, TAGS, TRACKING,
};
use crate::schema::{
    binary_type, distinct_fields, find_field, integer_type, long_type, nullable_field,
    string_map_type, string_type, struct_type, DataType, FieldList, FieldModel, MetadataModel,
    MetadataValue, StructField, StructType, TypeModel,
};
use crate::stats_schema::{
    build_content_stats_from_delta_stats_parsed, content_stats_expression, content_stats_of,
    stats_schema,
};

verus! {

/// An expression for the engine to evaluate over rows of a schema.
#[derive(Debug)]
pub struct EvaluatorRequest {
    /// The schema of the rows that go in.
    pub input_schema: StructType,
    /// The expression.
    pub expression: Expression,
    /// The type of what comes out.
    pub output_type: DataType,
}

/// The model of an [`EvaluatorRequest`].
#[verifier::ext_equal]
pub ghost struct RequestModel {
    pub input_schema: Seq<FieldModel>,
    pub expression: ExpressionModel,
    pub output_type: TypeModel,
}

impl View for EvaluatorRequest {
    type V = RequestModel;

    open spec fn view(&self) -> RequestModel {
        RequestModel {
            input_schema: self.input_schema@,
            expression: self.expression@,
            output_type: self.output_type@,
        }
    }
}

/// The fields of the deletion vector of an `add` action.
pub open spec fn add_dv_fields() -> Seq<FieldModel> {
    Seq::empty().push(nullable_field("storageType"@, string_type())).push(
        nullable_field("pathOrInlineDv"@, string_type()),
    ).push(nullable_field("offset"@, integer_type())).push(
        nullable_field("sizeInBytes"@, integer_type()),
    ).push(nullable_field("cardinality"@, long_type()))
}

/// The fields of the deletion vector of a `remove` action that are read.
pub open spec fn remove_dv_fields() -> Seq<FieldModel> {
    Seq::empty().push(nullable_field("storageType"@, string_type())).push(
        nullable_field("pathOrInlineDv"@, string_type()),
    )
}

/// The fields of a reference from a file back to its place in a manifest.
pub open spec fn back_reference_fields() -> Seq<FieldModel> {
    Seq::empty().push(nullable_field("manifest"@, string_type())).push(
        nullable_field("pos"@, long_type()),
    )
}

/// The fields of commit files that are read in a replay.
pub open spec fn log_replay_fields() -> Seq<FieldModel> {
    distinct_fields(
        Seq::empty().push(
            nullable_field(
                ADD_NAME@,
                struct_type(
                    Seq::empty().push(nullable_field("path"@, string_type())).push(
                        nullable_field("size"@, long_type()),
                    ).push(nullable_field(DEFAULT_ROW_COMMIT_VERSION_NAME@, long_type())).push(
                        nullable_field("stats"@, string_type()),
                    ).push(nullable_field("partitionValues"@, string_map_type())).push(
                        nullable_field(TAGS@, string_map_type()),
                    ).push(nullable_field("deletionVector"@, struct_type(add_dv_fields()))),
                ),
            ),
        ).push(
            nullable_field(
                REMOVE_NAME@,
                struct_type(
                    Seq::empty().push(nullable_field("path"@, string_type())).push(
                        nullable_field("deletionVector"@, struct_type(remove_dv_fields())),
                    ).push(nullable_field("backReference"@, struct_type(back_reference_fields()))),
                ),
            ),
        ),
    )
}

/// Returns the schema for reading commit files in a replay: only the fields that the replay
/// uses.
pub fn log_replay_schema() -> (schema: StructType)
    ensures
        schema@ == log_replay_fields(),
{
    let add_dv = DataType::structure(
        StructType::new_unchecked(
            FieldList::new().with(StructField::nullable("storageType", DataType::string())).with(
                StructField::nullable("pathOrInlineDv", DataType::string()),
            ).with(StructField::nullable("offset", DataType::integer())).with(
                StructField::nullable("sizeInBytes", DataType::integer()),
            ).with(StructField::nullable("cardinality", DataType::long())),
        ),
    );
    let remove_dv = DataType::structure(
        StructType::new_unchecked(
            FieldList::new().with(StructField::nullable("storageType", DataType::string())).with(
                StructField::nullable("pathOrInlineDv", DataType::string()),
            ),
        ),
    );
    let back_reference = DataType::structure(
        StructType::new_unchecked(
            FieldList::new().with(StructField::nullable("manifest", DataType::string())).with(
                StructField::nullable("pos", DataType::long()),
            ),
        ),
    );
    let add = StructType::new_unchecked(
        FieldList::new().with(StructField::nullable("path", DataType::string())).with(
            StructField::nullable("size", DataType::long()),
        ).with(StructField::nullable(DEFAULT_ROW_COMMIT_VERSION_NAME, DataType::long())).with(
            StructField::nullable("stats", DataType::string()),
        ).with(StructField::nullable("partitionValues", DataType::string_map())).with(
            StructField::nullable(TAGS, DataType::string_map()),
        ).with(StructField::nullable("deletionVector", add_dv)),
    );
    let remove = StructType::new_unchecked(
        FieldList::new().with(StructField::nullable("path", DataType::string())).with(
            StructField::nullable("deletionVector", remove_dv),
        ).with(StructField::nullable("backReference", back_reference)),
    );
    StructType::new_unchecked(
        FieldList::new().with(StructField::nullable(ADD_NAME, DataType::structure(add))).with(
            StructField::nullable(REMOVE_NAME, DataType::structure(remove)),
        ),
    )
}

/// The flat columns of a decoded deletion vector.
pub open spec fn flat_dv_fields() -> Seq<FieldModel> {
    distinct_fields(
        Seq::empty().push(nullable_field(DV_LOCATION@, string_type())).push(
            nullable_field(DV_OFFSET@, long_type()),
        ).push(nullable_field(DV_SIZE_IN_BYTES@, long_type())).push(
            nullable_field(DV_CARDINALITY@, long_type()),
        ),
    )
}

/// The schema of the flat columns of a decoded deletion vector.
pub fn dv_decoded_flat_schema() -> (schema: StructType)
    ensures
        schema@ == flat_dv_fields(),
{
    StructType::new_unchecked(
        FieldList::new().with(StructField::nullable(DV_LOCATION, DataType::string())).with(
            StructField::nullable(DV_OFFSET, DataType::long()),
        ).with(StructField::nullable(DV_SIZE_IN_BYTES, DataType::long())).with(
            StructField::nullable(DV_CARDINALITY, DataType::long()),
        ),
    )
}

/// The columns of commit files that go into the first step of a replay.
pub open spec fn log_batch_input_fields() -> Seq<FieldModel> {
    distinct_fields(
        Seq::empty().push(
            nullable_field(
                ADD_NAME@,
                struct_type(
                    Seq::empty().push(nullable_field("path"@, string_type())).push(
                        nullable_field("size"@, long_type()),
                    ).push(nullable_field(DEFAULT_ROW_COMMIT_VERSION_NAME@, long_type())).push(
                        nullable_field("stats"@, string_type()),
                    ).push(nullable_field("partitionValues"@, string_map_type())).push(
                        nullable_field(TAGS@, string_map_type()),
                    ),
                ),
            ),
        ),
    )
}

/// The schema of the columns that go into the first step of a replay.
pub fn log_batch_evaluator_input_schema() -> (schema: StructType)
    ensures
        schema@ == log_batch_input_fields(),
{
    let add = StructType::new_unchecked(
        FieldList::new().with(StructField::nullable("path", DataType::string())).with(
            StructField::nullable("size", DataType::long()),
        ).with(StructField::nullable(DEFAULT_ROW_COMMIT_VERSION_NAME, DataType::long())).with(
            StructField::nullable("stats", DataType::string()),
        ).with(StructField::nullable("partitionValues", DataType::string_map())).with(
            StructField::nullable(TAGS, DataType::string_map()),
        ),
    );
    StructType::new_unchecked(
        FieldList::new().with(StructField::nullable(ADD_NAME, DataType::structure(add))),
    )
}

/// What the first step of a replay hands on of an `add` action.
pub open spec fn log_add_field() -> FieldModel {
    nullable_field(
        ADD_NAME@,
        struct_type(
            Seq::empty().push(nullable_field("path"@, string_type())).push(
                nullable_field("size"@, long_type()),
            ).push(nullable_field(DEFAULT_ROW_COMMIT_VERSION_NAME@, long_type())).push(
                nullable_field("partitionValues"@, string_map_type()),
            ).push(nullable_field(TAGS@, string_map_type())),
        ),
    )
}

/// What the first step of a replay hands on of an `add` action: path, size, commit version,
/// partition values and tags.
pub fn log_add_projection_field() -> (field: StructField)
    ensures
        field@ == log_add_field(),
{
    StructField::nullable(
        ADD_NAME,
        DataType::structure(
            StructType::new_unchecked(
                FieldList::new().with(StructField::nullable("path", DataType::string())).with(
                    StructField::nullable("size", DataType::long()),
                ).with(
                    StructField::nullable(DEFAULT_ROW_COMMIT_VERSION_NAME, DataType::long()),
                ).with(StructField::nullable("partitionValues", DataType::string_map())).with(
                    StructField::nullable(TAGS, DataType::string_map()),
                ),
            ),
        ),
    )
}

/// The deletion vector of an entry from the flat columns, null where there is no location.
pub open spec fn flat_dv_expression() -> ExpressionModel {
    ExpressionModel::Struct(
        Seq::empty().push(column(DV_LOCATION@)).push(column(DV_OFFSET@)).push(
            column(DV_SIZE_IN_BYTES@),
        ).push(column(DV_CARDINALITY@)),
        Some(Box::new(ExpressionModel::IsNotNull(Box::new(column(DV_LOCATION@))))),
    )
}

/// Builds the deletion vector of an entry from the flat columns; it is null where there is no
/// location.
pub fn flat_dv_columns_to_dv_info_expr() -> (made: Expression)
    ensures
        made@ == flat_dv_expression(),
{
    Expression::struct_with_nullability_from(
        ExpressionList::new().with(Expression::column(DV_LOCATION)).with(
            Expression::column(DV_OFFSET),
        ).with(Expression::column(DV_SIZE_IN_BYTES)).with(Expression::column(DV_CARDINALITY)),
        Expression::is_not_null(Expression::column(DV_LOCATION)),
    )
}

/// What differs between the transforms that make entries.
#[derive(Debug)]
pub struct ContentTreeEntryProjections {
    pub status: TrackingStatus,
    pub snapshot_id: i64,
    pub location: Expression,
    pub file_size_in_bytes: Expression,
    /// Both sequence numbers.
    pub sequence_number: Expression,
    /// `None` stands for a null.
    pub dv_info: Option<Expression>,
    pub record_count: Expression,
    /// `None` stands for a null.
    pub content_stats: Option<Expression>,
    /// `None` stands for a null.
    pub partition: Option<Expression>,
    /// `None` stands for a null.
    pub tags_expr: Option<Expression>,
}

/// The model of a [`ContentTreeEntryProjections`].
pub ghost struct ProjectionModel {
    pub status: TrackingStatus,
    pub snapshot_id: i64,
    pub location: ExpressionModel,
    pub file_size_in_bytes: ExpressionModel,
    pub sequence_number: ExpressionModel,
    pub dv_info: Option<ExpressionModel>,
    pub record_count: ExpressionModel,
    pub content_stats: Option<ExpressionModel>,
    pub partition: Option<ExpressionModel>,
    pub tags: Option<ExpressionModel>,
}

impl View for ContentTreeEntryProjections {
    type V = ProjectionModel;

    open spec fn view(&self) -> ProjectionModel {
        ProjectionModel {
            status: self.status,
            snapshot_id: self.snapshot_id,
            location: self.location@,
            file_size_in_bytes: self.file_size_in_bytes@,
            sequence_number: self.sequence_number@,
            dv_info: optional_model(self.dv_info),
            record_count: self.record_count@,
            content_stats: optional_model(self.content_stats),
            partition: optional_model(self.partition),
            tags: optional_model(self.tags_expr),
        }
    }
}

/// The tracking info of a new entry: status and snapshot, both sequence numbers, and nulls.
pub open spec fn tracking_expression(projection: ProjectionModel) -> ExpressionModel {
    struct_from(
        Seq::empty().push(integer_literal(projection.status.number())).push(
            long_literal(projection.snapshot_id),
        ).push(null_literal(long_type())).push(projection.sequence_number).push(
            projection.sequence_number,
        ).push(null_literal(long_type())).push(null_literal(binary_type())).push(
            null_literal(binary_type()),
        ),
    )
}

/// The expression of one field of an entry: by its name a constant or what the projection
/// says, else a null.
pub open spec fn entry_field_expression(
    field: FieldModel,
    projection: ProjectionModel,
) -> ExpressionModel {
    if field.name == CONTENT_TYPE@ {
        integer_literal(DataContentType::Data.number())
    } else if field.name == LOCATION@ {
        projection.location
    } else if field.name == FILE_FORMAT@ {
        ExpressionModel::Literal(ScalarModel::String("parquet"@))
    } else if field.name == TRACKING@ {
        tracking_expression(projection)
    } else if field.name == DV_INFO@ {
        or_null(projection.dv_info, field.data_type)
    } else if field.name == PARTITION_SPEC_ID@ {
        integer_literal(0)
    } else if field.name == PARTITION@ {
        or_null(projection.partition, field.data_type)
    } else if field.name == SORT_ORDER_ID@ {
        null_literal(integer_type())
    } else if field.name == RECORD_COUNT@ {
        projection.record_count
    } else if field.name == CONTENT_STATS_FIELD_NAME@ {
        or_null(projection.content_stats, field.data_type)
    } else if field.name == FILE_SIZE_IN_BYTES@ {
        projection.file_size_in_bytes
    } else if field.name == TAGS@ {
        or_null(projection.tags, field.data_type)
    } else {
        null_literal(field.data_type)
    }
}

/// The expressions of the fields of an entry.
pub open spec fn entry_field_expressions(
    fields: Seq<FieldModel>,
    projection: ProjectionModel,
) -> Seq<ExpressionModel> {
    Seq::new(fields.len(), |i: int| entry_field_expression(fields[i], projection))
}

/// The expression of an entry.
pub open spec fn entry_expression(
    fields: Seq<FieldModel>,
    projection: ProjectionModel,
) -> ExpressionModel {
    struct_from(entry_field_expressions(fields, projection))
}

/// The tracking info of a new entry.
fn tracking_struct(projections: &ContentTreeEntryProjections) -> (made: Expression)
    ensures
        made@ == tracking_expression(projections@),
{
    Expression::struct_from(
        ExpressionList::new().with(Expression::integer(projections.status.as_number())).with(
            Expression::long(projections.snapshot_id),
        ).with(Expression::null_literal(DataType::long())).with(
            projections.sequence_number.clone(),
        ).with(projections.sequence_number.clone()).with(
            Expression::null_literal(DataType::long()),
        ).with(Expression::null_literal(DataType::binary())).with(
            Expression::null_literal(DataType::binary()),
        ),
    )
}

/// The expression of one field of an entry.
fn entry_field(field: &StructField, projections: &ContentTreeEntryProjections) -> (made: Expression)
    ensures
        made@ == entry_field_expression(field@, projections@),
{
    if field.name == CONTENT_TYPE.to_owned() {
        Expression::integer(DataContentType::Data.as_number())
    } else if field.name == LOCATION.to_owned() {
        projections.location.clone()
    } else if field.name == FILE_FORMAT.to_owned() {
        Expression::literal(Scalar::String("parquet".to_owned()))
    } else if field.name == TRACKING.to_owned() {
        tracking_struct(projections)
    } else if field.name == DV_INFO.to_owned() {
        Expression::or_null(&projections.dv_info, &field.data_type)
    } else if field.name == PARTITION_SPEC_ID.to_owned() {
        Expression::integer(0)
    } else if field.name == PARTITION.to_owned() {
        Expression::or_null(&projections.partition, &field.data_type)
    } else if field.name == SORT_ORDER_ID.to_owned() {
        Expression::null_literal(DataType::integer())
    } else if field.name == RECORD_COUNT.to_owned() {
        projections.record_count.clone()
    } else if field.name == CONTENT_STATS_FIELD_NAME.to_owned() {
        Expression::or_null(&projections.content_stats, &field.data_type)
    } else if field.name == FILE_SIZE_IN_BYTES.to_owned() {
        projections.file_size_in_bytes.clone()
    } else if field.name == TAGS.to_owned() {
        Expression::or_null(&projections.tags_expr, &field.data_type)
    } else {
        Expression::null_literal(field.data_type.clone())
    }
}

/// Builds the expression that makes entries of rows: the constant fields, and what the
/// projections say.
pub fn build_content_tree_entry_expression(
    output_schema: &StructType,
    projections: &ContentTreeEntryProjections,
) -> (made: Expression)
    ensures
        made@ == entry_expression(output_schema@, projections@),
{
    let mut items = ExpressionList::new();
    let mut i: usize = 0;
    while i < output_schema.fields.len()
        invariant
            i <= output_schema.fields@.len(),
            items@ =~= entry_field_expressions(output_schema@, projections@).take(i as int),
        decreases output_schema.fields@.len() - i,
    {
        items = items.with(entry_field(&output_schema.fields[i], projections));
        i += 1;
    }
    assert(entry_field_expressions(output_schema@, projections@).take(i as int)
        =~= entry_field_expressions(output_schema@, projections@));
    Expression::struct_from(items)
}

/// The tracking info of an entry.
pub open spec fn tracking_fields() -> Seq<FieldModel> {
    Seq::empty().push(nullable_field("status"@, integer_type())).push(
        nullable_field("snapshotId"@, long_type()),
    ).push(nullable_field("dvSnapshotId"@, long_type())).push(
        nullable_field("sequenceNumber"@, long_type()),
    ).push(nullable_field("fileSequenceNumber"@, long_type())).push(
        nullable_field("firstRowId"@, long_type()),
    ).push(nullable_field("deletedPositions"@, binary_type())).push(
        nullable_field("replacedPositions"@, binary_type()),
    )
}

/// The deletion vector of an entry.
pub open spec fn dv_info_fields() -> Seq<FieldModel> {
    Seq::empty().push(nullable_field("location"@, string_type())).push(
        nullable_field("offset"@, long_type()),
    ).push(nullable_field("sizeInBytes"@, long_type())).push(
        nullable_field("cardinality"@, long_type()),
    )
}

/// The manifest info of an entry.
pub open spec fn manifest_info_fields() -> Seq<FieldModel> {
    Seq::empty().push(nullable_field("addedFilesCount"@, integer_type())).push(
        nullable_field("existingFilesCount"@, integer_type()),
    ).push(nullable_field("deletedFilesCount"@, integer_type())).push(
        nullable_field("replacedFilesCount"@, integer_type()),
    ).push(nullable_field("addedRowsCount"@, long_type())).push(
        nullable_field("existingRowsCount"@, long_type()),
    ).push(nullable_field("deletedRowsCount"@, long_type())).push(
        nullable_field("replacedRowsCount"@, long_type()),
    ).push(nullable_field("minSequenceNumber"@, long_type())).push(
        nullable_field("dv"@, binary_type()),
    ).push(nullable_field("dvCardinality"@, long_type()))
}

/// The fields of an entry in front of the partition values.
pub open spec fn leading_entry_fields() -> Seq<FieldModel> {
    Seq::empty().push(nullable_field(CONTENT_TYPE@, integer_type())).push(
        nullable_field(LOCATION@, string_type()),
    ).push(nullable_field(FILE_FORMAT@, string_type())).push(
        nullable_field(TRACKING@, struct_type(tracking_fields())),
    ).push(nullable_field(DV_INFO@, struct_type(dv_info_fields()))).push(
        nullable_field(PARTITION_SPEC_ID@, integer_type()),
    )
}

/// The fields of an entry of a table: with partition values where the table has partition
/// columns, and with the content statistics of its columns.
pub open spec fn entry_fields(
    table: Seq<FieldModel>,
    partition_type: Option<Seq<FieldModel>>,
) -> Seq<FieldModel> {
    let leading = match partition_type {
        Some(partition) => leading_entry_fields().push(
            nullable_field(PARTITION@, TypeModel::Struct(partition)),
        ),
        None => leading_entry_fields(),
    };
    distinct_fields(
        leading.push(nullable_field(SORT_ORDER_ID@, integer_type())).push(
            nullable_field(RECORD_COUNT@, long_type()),
        ).push(nullable_field(FILE_SIZE_IN_BYTES@, long_type())).push(
            nullable_field(CONTENT_STATS_FIELD_NAME@, TypeModel::Struct(content_stats_of(table))),
        ).push(nullable_field(MANIFEST_INFO@, struct_type(manifest_info_fields()))).push(
            nullable_field(TAGS@, string_map_type()),
        ),
    )
}

/// Builds the schema of the entries of a table.
pub fn to_schema_with_content_stats(
    table_schema: &StructType,
    partition_type: &Option<StructType>,
) -> (schema: StructType)
    ensures
        schema@ == entry_fields(table_schema@, viewed(*partition_type)),
{
    let tracking = StructType::new_unchecked(
        FieldList::new().with(StructField::nullable("status", DataType::integer())).with(
            StructField::nullable("snapshotId", DataType::long()),
        ).with(StructField::nullable("dvSnapshotId", DataType::long())).with(
            StructField::nullable("sequenceNumber", DataType::long()),
        ).with(StructField::nullable("fileSequenceNumber", DataType::long())).with(
            StructField::nullable("firstRowId", DataType::long()),
        ).with(StructField::nullable("deletedPositions", DataType::binary())).with(
            StructField::nullable("replacedPositions", DataType::binary()),
        ),
    );
    let dv_info = StructType::new_unchecked(
        FieldList::new().with(StructField::nullable("location", DataType::string())).with(
            StructField::nullable("offset", DataType::long()),
        ).with(StructField::nullable("sizeInBytes", DataType::long())).with(
            StructField::nullable("cardinality", DataType::long()),
        ),
    );
    let manifest_info = StructType::new_unchecked(
        FieldList::new().with(StructField::nullable("addedFilesCount", DataType::integer())).with(
            StructField::nullable("existingFilesCount", DataType::integer()),
        ).with(StructField::nullable("deletedFilesCount", DataType::integer())).with(
            StructField::nullable("replacedFilesCount", DataType::integer()),
        ).with(StructField::nullable("addedRowsCount", DataType::long())).with(
            StructField::nullable("existingRowsCount", DataType::long()),
        ).with(StructField::nullable("deletedRowsCount", DataType::long())).with(
            StructField::nullable("replacedRowsCount", DataType::long()),
        ).with(StructField::nullable("minSequenceNumber", DataType::long())).with(
            StructField::nullable("dv", DataType::binary()),
        ).with(StructField::nullable("dvCardinality", DataType::long())),
    );
    let mut fields = FieldList::new().with(
        StructField::nullable(CONTENT_TYPE, DataType::integer()),
    ).with(StructField::nullable(LOCATION, DataType::string())).with(
        StructField::nullable(FILE_FORMAT, DataType::string()),
    ).with(StructField::nullable(TRACKING, DataType::structure(tracking))).with(
        StructField::nullable(DV_INFO, DataType::structure(dv_info)),
    ).with(StructField::nullable(PARTITION_SPEC_ID, DataType::integer()));
    if let Some(partition) = partition_type {
        fields = fields.with(
            StructField::nullable(PARTITION, DataType::structure(partition.clone())),
        );
    }
    StructType::new_unchecked(
        fields.with(StructField::nullable(SORT_ORDER_ID, DataType::integer())).with(
            StructField::nullable(RECORD_COUNT, DataType::long()),
        ).with(StructField::nullable(FILE_SIZE_IN_BYTES, DataType::long())).with(
            StructField::nullable(
                CONTENT_STATS_FIELD_NAME,
                DataType::structure(stats_schema(table_schema)),
            ),
        ).with(StructField::nullable(MANIFEST_INFO, DataType::structure(manifest_info))).with(
            StructField::nullable(TAGS, DataType::string_map()),
        ),
    )
}

/// The partition field of a column: of the column's type, nullable, and with its Parquet field
/// id. None where the table has no such column.
pub open spec fn partition_field(name: Seq<char>, table: Seq<FieldModel>) -> Option<FieldModel> {
    match find_field(table, name) {
        Some(field) => Some(
            FieldModel {
                metadata: match field.metadata.contains_key(PARQUET_FIELD_ID@) {
                    true => match field.metadata[PARQUET_FIELD_ID@] {
                        MetadataModel::Number(id) => Map::empty().insert(
                            PARQUET_FIELD_ID@,
                            MetadataModel::Number(id),
                        ),
                        _ => Map::empty(),
                    },
                    false => Map::empty(),
                },
                ..nullable_field(name, field.data_type)
            },
        ),
        None => None,
    }
}

/// The partition fields of the first `n` partition columns.
pub open spec fn partition_fields(
    columns: Seq<Seq<char>>,
    table: Seq<FieldModel>,
    n: int,
) -> Seq<FieldModel>
    decreases n,
{
    if n <= 0 {
        Seq::empty()
    } else {
        match partition_field(columns[n - 1], table) {
            Some(field) => partition_fields(columns, table, n - 1).push(field),
            None => partition_fields(columns, table, n - 1),
        }
    }
}

/// The partition type of a table, none where it has no partition columns.
pub open spec fn partition_type_of(
    columns: Seq<Seq<char>>,
    table: Seq<FieldModel>,
) -> Option<Seq<FieldModel>> {
    let fields = partition_fields(columns, table, columns.len() as int);
    if fields.len() == 0 {
        None
    } else {
        Some(distinct_fields(fields))
    }
}

/// Builds the partition type of a table from its partition columns and its logical schema.
///
/// The fields have the logical names of the columns. All of them are nullable, since a lookup
/// in a map of partition values can find nothing. Each carries the Parquet field id of its
/// column and no other metadata.
pub fn build_partition_type(
    partition_columns: &Vec<String>,
    logical_schema: &StructType,
) -> (partition_type: Option<StructType>)
    ensures
        viewed(partition_type) == partition_type_of(
            crate::expression::texts(partition_columns@),
            logical_schema@,
        ),
{
    let ghost columns = crate::expression::texts(partition_columns@);
    let mut fields = FieldList::new();
    let mut i: usize = 0;
    while i < partition_columns.len()
        invariant
            i <= partition_columns@.len(),
            columns == crate::expression::texts(partition_columns@),
            fields@ == partition_fields(columns, logical_schema@, i as int),
        decreases partition_columns@.len() - i,
    {
        let name = partition_columns[i].as_str();
        if let Some(field) = logical_schema.field(name) {
            let mut made = StructField::nullable(name, field.data_type.clone());
            if let Some(MetadataValue::Number(id)) = field.metadata.get(PARQUET_FIELD_ID) {
                made = made.add_metadata(PARQUET_FIELD_ID, MetadataValue::Number(*id));
            }
            fields = fields.with(made);
        }
        i += 1;
    }
    if fields.items.len() == 0 {
        return None;
    }
    Some(StructType::new_unchecked(fields))
}

/// The parsed statistics of the log, as a column.
pub open spec fn stats_parsed_field(delta_stats: Seq<FieldModel>) -> FieldModel {
    nullable_field(STATS_PARSED_NAME@, TypeModel::Struct(delta_stats))
}

/// The first step of a replay: it keeps what is needed of `add` and parses the statistics.
pub open spec fn log_batch_request(delta_stats: Seq<FieldModel>) -> RequestModel {
    RequestModel {
        input_schema: log_batch_input_fields(),
        expression: struct_from(
            Seq::empty().push(
                struct_from(
                    Seq::empty().push(nested_column(ADD_NAME@, "path"@)).push(
                        nested_column(ADD_NAME@, "size"@),
                    ).push(nested_column(ADD_NAME@, DEFAULT_ROW_COMMIT_VERSION_NAME@)).push(
                        nested_column(ADD_NAME@, "partitionValues"@),
                    ).push(nested_column(ADD_NAME@, TAGS@)),
                ),
            ).push(
                ExpressionModel::ParseJson(
                    Box::new(nested_column(ADD_NAME@, "stats"@)),
                    delta_stats,
                ),
            ),
        ),
        output_type: struct_type(
            Seq::empty().push(log_add_field()).push(stats_parsed_field(delta_stats)),
        ),
    }
}

/// Requests the first step of a replay: it keeps path, size, commit version, partition values
/// and tags of `add`, and parses its statistics.
pub fn build_log_batch_evaluator(delta_stats_schema: &StructType) -> (request: EvaluatorRequest)
    ensures
        request@ == log_batch_request(delta_stats_schema@),
{
    let output_type = DataType::structure(
        StructType::new_unchecked(
            FieldList::new().with(log_add_projection_field()).with(
                StructField::nullable(
                    STATS_PARSED_NAME,
                    DataType::structure(delta_stats_schema.clone()),
                ),
            ),
        ),
    );
    let add = Expression::struct_from(
        ExpressionList::new().with(Expression::nested_column(ADD_NAME, "path")).with(
            Expression::nested_column(ADD_NAME, "size"),
        ).with(Expression::nested_column(ADD_NAME, DEFAULT_ROW_COMMIT_VERSION_NAME)).with(
            Expression::nested_column(ADD_NAME, "partitionValues"),
        ).with(Expression::nested_column(ADD_NAME, TAGS)),
    );
    let stats = Expression::parse_json(
        Expression::nested_column(ADD_NAME, "stats"),
        delta_stats_schema.clone(),
    );
    EvaluatorRequest {
        input_schema: log_batch_evaluator_input_schema(),
        expression: Expression::struct_from(ExpressionList::new().with(add).with(stats)),
        output_type,
    }
}

/// The fields of the content statistics in a schema of entries.
pub open spec fn content_stats_in(fields: Seq<FieldModel>) -> Seq<FieldModel> {
    match find_field(fields, CONTENT_STATS_FIELD_NAME@) {
        Some(field) => match field.data_type {
            TypeModel::Struct(stats) => stats,
            _ => Seq::empty(),
        },
        None => Seq::empty(),
    }
}

/// The number of records by the parsed statistics, none without statistics.
pub open spec fn parsed_record_count() -> ExpressionModel {
    coalesce(nested_column(STATS_PARSED_NAME@, DELTA_STATS_NUM_RECORDS@), long_literal(0))
}

/// What the second step of a replay makes of an `add` action. The sequence number is the commit
/// version that the action names, else the version of the commit that is being built.
pub open spec fn action_projection(
    snapshot_id: i64,
    commit_version: i64,
    content_stats: ExpressionModel,
    partitioned: bool,
) -> ProjectionModel {
    ProjectionModel {
        status: TrackingStatus::Existing,
        snapshot_id,
        location: nested_column(ADD_NAME@, "path"@),
        file_size_in_bytes: nested_column(ADD_NAME@, "size"@),
        sequence_number: coalesce(
            nested_column(ADD_NAME@, DEFAULT_ROW_COMMIT_VERSION_NAME@),
            long_literal(commit_version),
        ),
        dv_info: Some(flat_dv_expression()),
        record_count: parsed_record_count(),
        content_stats: Some(content_stats),
        partition: if partitioned {
            Some(
                ExpressionModel::MapToStruct(
                    Box::new(nested_column(ADD_NAME@, "partitionValues"@)),
                ),
            )
        } else {
            None
        },
        tags: Some(nested_column(ADD_NAME@, TAGS@)),
    }
}

/// The second step of a replay: it makes entries of what the first step handed on and of the
/// flat columns of the deletion vectors.
pub open spec fn action_request(
    snapshot_id: i64,
    commit_version: i64,
    table: Seq<FieldModel>,
    delta_stats: Seq<FieldModel>,
    output: Seq<FieldModel>,
) -> Result<RequestModel, ErrorModel> {
    match content_stats_expression(table, content_stats_in(output)) {
        Ok(content_stats) => Ok(
            RequestModel {
                input_schema: distinct_fields(
                    (Seq::empty().push(log_add_field()) + flat_dv_fields()).push(
                        stats_parsed_field(delta_stats),
                    ),
                ),
                expression: entry_expression(
                    output,
                    action_projection(
                        snapshot_id,
                        commit_version,
                        content_stats,
                        find_field(output, PARTITION@) is Some,
                    ),
                ),
                output_type: TypeModel::Struct(output),
            },
        ),
        Err(e) => Err(e),
    }
}

/// Requests the second step of a replay: it makes entries of the columns that the first step
/// handed on and of the flat columns of the deletion vectors.
pub fn build_action_to_content_tree_entry_evaluator(
    snapshot_id: i64,
    commit_version: i64,
    table_schema: &StructType,
    delta_stats_schema: &StructType,
    output_schema: &StructType,
) -> (request: DeltaResult<EvaluatorRequest>)
    ensures
        outcome(request) == action_request(
            snapshot_id,
            commit_version,
            table_schema@,
            delta_stats_schema@,
            output_schema@,
        ),
{
    let no_stats = StructType { fields: Vec::new() };
    let amt_schema: &StructType = match output_schema.field(CONTENT_STATS_FIELD_NAME) {
        Some(field) => match &field.data_type {
            DataType::Struct(stats) => &**stats,
            _ => &no_stats,
        },
        None => &no_stats,
    };
    assert(amt_schema@ =~= content_stats_in(output_schema@));
    let content_stats = match build_content_stats_from_delta_stats_parsed(
        table_schema,
        amt_schema,
    ) {
        Ok(made) => made,
        Err(e) => {
            return Err(e);
        },
    };
    let input_schema = StructType::new_unchecked(
        FieldList::new().with(log_add_projection_field()).with_all(&dv_decoded_flat_schema()).with(
            StructField::nullable(
                STATS_PARSED_NAME,
                DataType::structure(delta_stats_schema.clone()),
            ),
        ),
    );
    let partition = if output_schema.field(PARTITION).is_some() {
        Some(
            Expression::map_to_struct(Expression::nested_column(ADD_NAME, "partitionValues")),
        )
    } else {
        None
    };
    let projections = ContentTreeEntryProjections {
        status: TrackingStatus::Existing,
        snapshot_id,
        location: Expression::nested_column(ADD_NAME, "path"),
        file_size_in_bytes: Expression::nested_column(ADD_NAME, "size"),
        sequence_number: Expression::coalesce(
            Expression::nested_column(ADD_NAME, DEFAULT_ROW_COMMIT_VERSION_NAME),
            Expression::long(commit_version),
        ),
        dv_info: Some(flat_dv_columns_to_dv_info_expr()),
        record_count: Expression::coalesce(
            Expression::nested_column(STATS_PARSED_NAME, DELTA_STATS_NUM_RECORDS),
            Expression::long(0),
        ),
        content_stats: Some(content_stats),
        partition,
        tags_expr: Some(Expression::nested_column(ADD_NAME, TAGS)),
    };
    Ok(
        EvaluatorRequest {
            input_schema,
            expression: build_content_tree_entry_expression(output_schema, &projections),
            output_type: DataType::structure(output_schema.clone()),
        },
    )
}

} // verus!
