//! Adding rows that an engine transforms: new files of a write, and files of a scan.

use vstd::prelude::*;

use crate::builder::{
    batch_added, existing_aggregates, file_count_from_len, file_count_overflow,
    lemma_batch_totaled, record_sum, record_sum_fits, total_record_count, BatchAggregates,
    BuilderModel, ContentTreeNodeBuilder, Version,
};
use crate::dv_columns::{
    decoded_columns, dv_row_models, no_dv_columns, DecodedDvVisitor, DvColumns, DvRow, DvRowModel,
};
use crate::entry::{entry_models, ContentTreeNodeEntry, EntryModel, TrackingStatus};
use crate::error::{outcome, viewed, DeltaResult, ErrorModel};
use crate::expression::{
    coalesce, column, deep_column, long_literal, nested_column, struct_from, Expression,
    ExpressionList, ExpressionModel,
};
use crate::names::{
    DELTA_STATS_NUM_RECORDS, DV_LOCATION, FILE_CONSTANT_VALUES_NAME, STATS_PARSED_NAME, TAGS,
    VALUE_COUNT,
};
use crate::projection::{
    build_content_tree_entry_expression, dv_decoded_flat_schema, entry_expression, entry_fields,
    flat_dv_columns_to_dv_info_expr, flat_dv_expression, flat_dv_fields, parsed_record_count,
    to_schema_with_content_stats, ContentTreeEntryProjections, EvaluatorRequest, ProjectionModel,
    RequestModel,
};
use crate::row_ids::is_i64;
use crate::schema::{
    distinct_fields, find_field, long_type, nullable_field, required_field, string_map_type,
    string_type, struct_type, DataType, FieldList, FieldModel, StructField, StructType, TypeModel,
};
use crate::selection::{
    apply_selection_vector, lemma_selected_len, selected_rows, selection_applied,
};
use crate::stats_schema::{
    build_content_stats_from_delta_stats_parsed, build_delta_stats_schema, content_stats_expression,
    content_stats_of, delta_stats_fields, stats_schema,
};

verus! {

/// The columns of write metadata.
pub open spec fn write_fields(stats: Seq<FieldModel>) -> Seq<FieldModel> {
    distinct_fields(
        Seq::empty().push(required_field("path"@, string_type())).push(
            required_field("partitionValues"@, string_map_type()),
        ).push(required_field("size"@, long_type())).push(
            required_field("modificationTime"@, long_type()),
        ).push(nullable_field("stats"@, TypeModel::Struct(stats))),
    )
}

/// The number of records by content statistics: the value count of the first column, none
/// without columns.
pub open spec fn first_value_count(stats: Seq<FieldModel>) -> ExpressionModel {
    if stats.len() == 0 {
        long_literal(0)
    } else {
        coalesce(deep_column("stats"@, stats[0].name, VALUE_COUNT@), long_literal(0))
    }
}

/// What a write makes of its metadata. Without statistics in the right form there are no
/// content statistics and no records.
pub open spec fn write_projection(
    partitioned: bool,
    version: Version,
    snapshot_id: i64,
    stats: Option<Seq<FieldModel>>,
) -> ProjectionModel {
    ProjectionModel {
        status: TrackingStatus::Added,
        snapshot_id,
        location: column("path"@),
        file_size_in_bytes: column("size"@),
        sequence_number: long_literal(version as i64),
        dv_info: None,
        record_count: match stats {
            Some(stats) => first_value_count(stats),
            None => long_literal(0),
        },
        content_stats: match stats {
            Some(_) => Some(column("stats"@)),
            None => None,
        },
        partition: if partitioned {
            Some(ExpressionModel::MapToStruct(Box::new(column("partitionValues"@))))
        } else {
            None
        },
        tags: None,
    }
}

/// The transform of write metadata to entries.
pub open spec fn write_request(
    output: Seq<FieldModel>,
    partitioned: bool,
    version: Version,
    snapshot_id: i64,
    stats: Option<Seq<FieldModel>>,
) -> RequestModel {
    RequestModel {
        input_schema: write_fields(
            match stats {
                Some(stats) => stats,
                None => Seq::empty(),
            },
        ),
        expression: entry_expression(
            output,
            write_projection(partitioned, version, snapshot_id, stats),
        ),
        output_type: TypeModel::Struct(output),
    }
}

/// The transforms of a write: with statistics, and the one to fall back to.
#[derive(Debug)]
pub struct WritePlan {
    pub with_stats: EvaluatorRequest,
    pub without_stats: EvaluatorRequest,
}

/// The totals of a batch of rows of new files.
pub open spec fn added_aggregates(rows: Seq<EntryModel>) -> BatchAggregates {
    BatchAggregates {
        added_file_count: rows.len() as i32,
        existing_file_count: 0,
        total_record_count: record_sum(rows, rows.len() as int) as i64,
    }
}

/// The model of a builder after a transformed batch of new files was added, or the error.
pub open spec fn written_rows_added(
    builder: BuilderModel,
    rows: Result<Seq<EntryModel>, ErrorModel>,
) -> Result<BuilderModel, ErrorModel> {
    match rows {
        Ok(rows) => if rows.len() > i32::MAX {
            Err(file_count_overflow(rows.len() as int))
        } else {
            Ok(batch_added(builder, rows, added_aggregates(rows)))
        },
        Err(e) => Err(e),
    }
}

/// What a write does to a builder: nothing without rows; else the rows that were made with
/// statistics count, or, where that failed, those that were made without.
pub open spec fn write_added(
    builder: BuilderModel,
    row_count: usize,
    with_stats: Result<Seq<EntryModel>, ErrorModel>,
    without_stats: Result<Seq<EntryModel>, ErrorModel>,
) -> Result<BuilderModel, ErrorModel> {
    if row_count == 0 {
        Ok(builder)
    } else {
        match written_rows_added(builder, with_stats) {
            Ok(added) => Ok(added),
            Err(_) => written_rows_added(builder, without_stats),
        }
    }
}

/// The model of the rows that an engine made.
pub open spec fn evaluated_model(rows: DeltaResult<Vec<ContentTreeNodeEntry>>) -> Result<
    Seq<EntryModel>,
    ErrorModel,
> {
    match rows {
        Ok(rows) => Ok(entry_models(rows@)),
        Err(e) => Err(e@),
    }
}

/// The columns of a scan that are read.
pub open spec fn scan_fields(table: Seq<FieldModel>) -> Seq<FieldModel> {
    distinct_fields(
        Seq::empty().push(nullable_field("path"@, string_type())).push(
            nullable_field("size"@, long_type()),
        ).push(nullable_field("stats"@, string_type())).push(
            nullable_field(STATS_PARSED_NAME@, TypeModel::Struct(delta_stats_fields(table))),
        ).push(
            nullable_field(
                FILE_CONSTANT_VALUES_NAME@,
                struct_type(Seq::empty().push(nullable_field(TAGS@, string_map_type()))),
            ),
        ),
    )
}

/// The columns of a scan with their statistics parsed and their tags taken out.
pub open spec fn parsed_scan_fields(table: Seq<FieldModel>) -> Seq<FieldModel> {
    distinct_fields(
        Seq::empty().push(nullable_field("path"@, string_type())).push(
            nullable_field("size"@, long_type()),
        ).push(
            nullable_field(STATS_PARSED_NAME@, TypeModel::Struct(delta_stats_fields(table))),
        ).push(nullable_field(TAGS@, string_map_type())),
    )
}

/// The first step for rows of a scan: the parsed statistics, else the JSON text parsed.
pub open spec fn scan_stats_request(table: Seq<FieldModel>) -> RequestModel {
    RequestModel {
        input_schema: scan_fields(table),
        expression: struct_from(
            Seq::empty().push(column("path"@)).push(column("size"@)).push(
                coalesce(
                    column(STATS_PARSED_NAME@),
                    ExpressionModel::ParseJson(
                        Box::new(column("stats"@)),
                        delta_stats_fields(table),
                    ),
                ),
            ).push(nested_column(FILE_CONSTANT_VALUES_NAME@, TAGS@)),
        ),
        output_type: TypeModel::Struct(parsed_scan_fields(table)),
    }
}

/// What rows of a scan become. Their files were there before.
pub open spec fn scan_projection(
    input: Seq<FieldModel>,
    content_stats: ExpressionModel,
    version: Version,
    snapshot_id: i64,
) -> ProjectionModel {
    ProjectionModel {
        status: TrackingStatus::Existing,
        snapshot_id,
        location: column("path"@),
        file_size_in_bytes: column("size"@),
        sequence_number: long_literal(version as i64),
        dv_info: if find_field(input, DV_LOCATION@) is Some {
            Some(flat_dv_expression())
        } else {
            None
        },
        record_count: parsed_record_count(),
        content_stats: Some(content_stats),
        partition: None,
        tags: if find_field(input, TAGS@) is Some {
            Some(column(TAGS@))
        } else {
            None
        },
    }
}

/// The second step for rows of a scan: entries.
pub open spec fn scan_row_request(
    table: Seq<FieldModel>,
    output: Seq<FieldModel>,
    input: Seq<FieldModel>,
    version: Version,
    snapshot_id: i64,
) -> Result<RequestModel, ErrorModel> {
    match content_stats_expression(table, content_stats_of(table)) {
        Ok(content_stats) => Ok(
            RequestModel {
                input_schema: input,
                expression: entry_expression(
                    output,
                    scan_projection(input, content_stats, version, snapshot_id),
                ),
                output_type: TypeModel::Struct(output),
            },
        ),
        Err(e) => Err(e),
    }
}

/// What is to be done with rows of a scan.
#[derive(Debug)]
pub struct ScanRowPlan {
    /// The first step.
    pub stats_request: EvaluatorRequest,
    /// The columns to append to what the first step gives, where any row has a deletion vector.
    pub dv_columns: Option<DecodedDvVisitor>,
    /// The second step.
    pub entry_request: EvaluatorRequest,
}

/// The columns that go into the second step.
pub open spec fn scan_step_fields(table: Seq<FieldModel>, columns: DvColumns) -> Seq<FieldModel> {
    if columns.has_any() {
        distinct_fields(parsed_scan_fields(table) + flat_dv_fields())
    } else {
        parsed_scan_fields(table)
    }
}

/// The plan for rows of a scan.
pub open spec fn scan_plan(
    builder: BuilderModel,
    dv_rows: Seq<DvRowModel>,
    version: Version,
    snapshot_id: i64,
) -> Result<(RequestModel, Option<DvColumns>, RequestModel), ErrorModel> {
    match decoded_columns(no_dv_columns(), dv_rows, dv_rows.len() as int) {
        Err(e) => Err(e),
        Ok(columns) => match scan_row_request(
            builder.table_schema,
            entry_fields(builder.table_schema, builder.partition_type),
            scan_step_fields(builder.table_schema, columns),
            version,
            snapshot_id,
        ) {
            Err(e) => Err(e),
            Ok(entries) => Ok(
                (
                    scan_stats_request(builder.table_schema),
                    if columns.has_any() {
                        Some(columns)
                    } else {
                        None
                    },
                    entries,
                ),
            ),
        },
    }
}

/// What rows of a scan do to a builder: the selected ones are added as one batch, even if it
/// is empty. Nothing happens without rows, and all rows have to be few enough to count.
pub open spec fn scan_rows_added(
    builder: BuilderModel,
    rows: Seq<EntryModel>,
    selection: Seq<bool>,
) -> Result<BuilderModel, ErrorModel> {
    if rows.len() == 0 {
        Ok(builder)
    } else if rows.len() > i32::MAX {
        Err(file_count_overflow(rows.len() as int))
    } else {
        match selection_applied(rows, selection) {
            Err(e) => Err(e),
            Ok(kept) => Ok(batch_added(builder, kept, existing_aggregates(kept))),
        }
    }
}

impl ContentTreeNodeBuilder {
    /// The schema of the entries of the table.
    pub fn get_schema(&self) -> (schema: StructType)
        ensures
            schema@ == entry_fields(self@.table_schema, self@.partition_type),
    {
        to_schema_with_content_stats(&self.table_schema, &self.partition_type)
    }

    /// Requests the transform of write metadata to entries: with the content statistics of
    /// `stats_struct`, or without any.
    pub fn evaluate_write_transform(
        &self,
        version: Version,
        snapshot_id: i64,
        output_schema: &StructType,
        stats_struct: Option<&StructType>,
    ) -> (request: EvaluatorRequest)
        ensures
            request@ == write_request(
                output_schema@,
                self@.partition_type is Some,
                version,
                snapshot_id,
                match stats_struct {
                    Some(stats) => Some(stats@),
                    None => None,
                },
            ),
    {
        let stats_type = match stats_struct {
            Some(stats) => DataType::structure(stats.clone()),
            None => DataType::structure(StructType::new_unchecked(FieldList::new())),
        };
        let input_schema = StructType::new_unchecked(
            FieldList::new().with(StructField::not_null("path", DataType::string())).with(
                StructField::not_null("partitionValues", DataType::string_map()),
            ).with(StructField::not_null("size", DataType::long())).with(
                StructField::not_null("modificationTime", DataType::long()),
            ).with(StructField::nullable("stats", stats_type)),
        );
        let record_count = match stats_struct {
            Some(stats) => if stats.fields.len() == 0 {
                Expression::long(0)
            } else {
                Expression::coalesce(
                    Expression::deep_column("stats", stats.fields[0].name.as_str(), VALUE_COUNT),
                    Expression::long(0),
                )
            },
            None => Expression::long(0),
        };
        let content_stats = match stats_struct {
            Some(_) => Some(Expression::column("stats")),
            None => None,
        };
        let partition = match &self.partition_type {
            Some(_) => Some(Expression::map_to_struct(Expression::column("partitionValues"))),
            None => None,
        };
        let projections = ContentTreeEntryProjections {
            status: TrackingStatus::Added,
            snapshot_id,
            location: Expression::column("path"),
            file_size_in_bytes: Expression::column("size"),
            sequence_number: Expression::long(version as i64),
            dv_info: None,
            record_count,
            content_stats,
            partition,
            tags_expr: None,
        };
        EvaluatorRequest {
            input_schema,
            expression: build_content_tree_entry_expression(output_schema, &projections),
            output_type: DataType::structure(output_schema.clone()),
        }
    }

    /// Requests the transforms of a write.
    pub fn plan_write(&self, version: Version, snapshot_id: i64) -> (plan: WritePlan)
        ensures
            ({
                let output = entry_fields(self@.table_schema, self@.partition_type);
                let partitioned = self@.partition_type is Some;
                &&& plan.with_stats@ == write_request(
                    output,
                    partitioned,
                    version,
                    snapshot_id,
                    Some(content_stats_of(self@.table_schema)),
                )
                &&& plan.without_stats@ == write_request(
                    output,
                    partitioned,
                    version,
                    snapshot_id,
                    None,
                )
            }),
    {
        let output_schema = self.get_schema();
        let stats_struct = stats_schema(&self.table_schema);
        WritePlan {
            with_stats: self.evaluate_write_transform(
                version,
                snapshot_id,
                &output_schema,
                Some(&stats_struct),
            ),
            without_stats: self.evaluate_write_transform(
                version,
                snapshot_id,
                &output_schema,
                None,
            ),
        }
    }

    /// Adds the rows of one transform of a write.
    fn add_written_rows(
        &mut self,
        rows: DeltaResult<Vec<ContentTreeNodeEntry>>,
    ) -> (added: DeltaResult<()>)
        requires
            old(self).wf(),
            rows matches Ok(r) ==> record_sum_fits(entry_models(r@)),
        ensures
            final(self).wf(),
            match added {
                Ok(_) => written_rows_added(old(self)@, evaluated_model(rows)) == Ok::<
                    BuilderModel,
                    ErrorModel,
                >(final(self)@),
                Err(e) => written_rows_added(old(self)@, evaluated_model(rows)) == Err::<
                    BuilderModel,
                    ErrorModel,
                >(e@) && final(self)@ == old(self)@,
            },
    {
        let batch = match rows {
            Ok(batch) => batch,
            Err(e) => {
                return Err(e);
            },
        };
        let total = total_record_count(&batch);
        let count = match file_count_from_len(batch.len()) {
            Ok(count) => count,
            Err(e) => {
                return Err(e);
            },
        };
        let ghost models = entry_models(batch@);
        assert(is_i64(record_sum(models, models.len() as int)));
        self.pre_built_data.push(batch);
        self.pre_built_aggregates.push(
            BatchAggregates {
                added_file_count: count,
                existing_file_count: 0,
                total_record_count: total,
            },
        );
        assert(self@ =~= batch_added(old(self)@, models, added_aggregates(models)));
        proof {
            lemma_batch_totaled(old(self)@, models, added_aggregates(models));
        }
        Ok(())
    }

    /// Adds new files by what the engine made of `row_count` rows of write metadata, with
    /// statistics and, where that failed, without. The engine makes one row of each row, so
    /// that the rows that it made are the files. Nothing is added where there is no metadata.
    pub fn add_from_engine_data_write(
        &mut self,
        row_count: usize,
        with_stats: DeltaResult<Vec<ContentTreeNodeEntry>>,
        without_stats: DeltaResult<Vec<ContentTreeNodeEntry>>,
    ) -> (added: DeltaResult<()>)
        requires
            old(self).wf(),
            row_count > 0 ==> (with_stats matches Ok(r) ==> record_sum_fits(entry_models(r@))),
            row_count > 0 && written_rows_added(
                old(self)@,
                evaluated_model(with_stats),
            ) is Err ==> (without_stats matches Ok(r) ==> record_sum_fits(entry_models(r@))),
        ensures
            final(self).wf(),
            match added {
                Ok(_) => write_added(
                    old(self)@,
                    row_count,
                    evaluated_model(with_stats),
                    evaluated_model(without_stats),
                ) == Ok::<BuilderModel, ErrorModel>(final(self)@),
                Err(e) => write_added(
                    old(self)@,
                    row_count,
                    evaluated_model(with_stats),
                    evaluated_model(without_stats),
                ) == Err::<BuilderModel, ErrorModel>(e@) && final(self)@ == old(self)@,
            },
    {
        if row_count == 0 {
            return Ok(());
        }
        match self.add_written_rows(with_stats) {
            Ok(_) => Ok(()),
            Err(_) => self.add_written_rows(without_stats),
        }
    }

    /// Requests the second step for rows of a scan. Where the input has the flat columns of
    /// deletion vectors, entries get their deletion vectors from them.
    pub fn evaluate_scan_row_transform(
        &self,
        scan_row_input_schema: &StructType,
        version: Version,
        snapshot_id: i64,
    ) -> (request: DeltaResult<EvaluatorRequest>)
        ensures
            outcome(request) == scan_row_request(
                self@.table_schema,
                entry_fields(self@.table_schema, self@.partition_type),
                scan_row_input_schema@,
                version,
                snapshot_id,
            ),
    {
        let output_schema = self.get_schema();
        let stats_struct = stats_schema(&self.table_schema);
        let dv_info = if scan_row_input_schema.field(DV_LOCATION).is_some() {
            Some(flat_dv_columns_to_dv_info_expr())
        } else {
            None
        };
        let tags_expr = if scan_row_input_schema.field(TAGS).is_some() {
            Some(Expression::column(TAGS))
        } else {
            None
        };
        let content_stats = match build_content_stats_from_delta_stats_parsed(
            &self.table_schema,
            &stats_struct,
        ) {
            Ok(made) => made,
            Err(e) => {
                return Err(e);
            },
        };
        let projections = ContentTreeEntryProjections {
            status: TrackingStatus::Existing,
            snapshot_id,
            location: Expression::column("path"),
            file_size_in_bytes: Expression::column("size"),
            sequence_number: Expression::long(version as i64),
            dv_info,
            record_count: Expression::coalesce(
                Expression::nested_column(STATS_PARSED_NAME, DELTA_STATS_NUM_RECORDS),
                Expression::long(0),
            ),
            content_stats: Some(content_stats),
            partition: None,
            tags_expr,
        };
        Ok(
            EvaluatorRequest {
                input_schema: scan_row_input_schema.clone(),
                expression: build_content_tree_entry_expression(&output_schema, &projections),
                output_type: DataType::structure(output_schema),
            },
        )
    }

    /// The columns of a scan with their statistics parsed and their tags taken out.
    fn parsed_scan_schema(&self) -> (schema: StructType)
        ensures
            schema@ == parsed_scan_fields(self@.table_schema),
    {
        let stats_parsed = DataType::structure(build_delta_stats_schema(&self.table_schema));
        StructType::new_unchecked(
            FieldList::new().with(StructField::nullable("path", DataType::string())).with(
                StructField::nullable("size", DataType::long()),
            ).with(StructField::nullable(STATS_PARSED_NAME, stats_parsed)).with(
                StructField::nullable(TAGS, DataType::string_map()),
            ),
        )
    }

    /// Requests the first step for rows of a scan: their statistics are parsed where they are
    /// not parsed already.
    pub fn scan_stats_transform(&self) -> (request: EvaluatorRequest)
        ensures
            request@ == scan_stats_request(self@.table_schema),
    {
        let delta_stats_schema = build_delta_stats_schema(&self.table_schema);
        let file_constant_values = StructType::new_unchecked(
            FieldList::new().with(StructField::nullable(TAGS, DataType::string_map())),
        );
        let input_schema = StructType::new_unchecked(
            FieldList::new().with(StructField::nullable("path", DataType::string())).with(
                StructField::nullable("size", DataType::long()),
            ).with(StructField::nullable("stats", DataType::string())).with(
                StructField::nullable(
                    STATS_PARSED_NAME,
                    DataType::structure(delta_stats_schema.clone()),
                ),
            ).with(
                StructField::nullable(
                    FILE_CONSTANT_VALUES_NAME,
                    DataType::structure(file_constant_values),
                ),
            ),
        );
        let expression = Expression::struct_from(
            ExpressionList::new().with(Expression::column("path")).with(
                Expression::column("size"),
            ).with(
                Expression::coalesce(
                    Expression::column(STATS_PARSED_NAME),
                    Expression::parse_json(Expression::column("stats"), delta_stats_schema),
                ),
            ).with(Expression::nested_column(FILE_CONSTANT_VALUES_NAME, TAGS)),
        );
        EvaluatorRequest {
            input_schema,
            expression,
            output_type: DataType::structure(self.parsed_scan_schema()),
        }
    }

    /// Plans what is to be done with rows of a scan, given their deletion vector columns.
    pub fn plan_existing_scan_rows(
        &self,
        dv_rows: &Vec<DvRow>,
        version: Version,
        snapshot_id: i64,
    ) -> (plan: DeltaResult<ScanRowPlan>)
        ensures
            match plan {
                Ok(p) => scan_plan(self@, dv_row_models(dv_rows@), version, snapshot_id) == Ok::<
                    (RequestModel, Option<DvColumns>, RequestModel),
                    ErrorModel,
                >((p.stats_request@, viewed(p.dv_columns), p.entry_request@)),
                Err(e) => scan_plan(self@, dv_row_models(dv_rows@), version, snapshot_id) == Err::<
                    (RequestModel, Option<DvColumns>, RequestModel),
                    ErrorModel,
                >(e@),
            },
    {
        let mut decoder = DecodedDvVisitor::for_scan_rows(dv_rows.len());
        match decoder.visit(dv_rows) {
            Ok(_) => {},
            Err(e) => {
                return Err(e);
            },
        }
        let stats_request = self.scan_stats_transform();
        let parsed = self.parsed_scan_schema();
        let has_dv = decoder.has_any_dv();
        let input_schema = if has_dv {
            StructType::new_unchecked(
                FieldList::new().with_all(&parsed).with_all(&dv_decoded_flat_schema()),
            )
        } else {
            parsed
        };
        proof {
            assert(Seq::<FieldModel>::empty() + parsed_scan_fields(self@.table_schema)
                =~= parsed_scan_fields(self@.table_schema));
        }
        let entry_request = match self.evaluate_scan_row_transform(
            &input_schema,
            version,
            snapshot_id,
        ) {
            Ok(request) => request,
            Err(e) => {
                return Err(e);
            },
        };
        let dv_columns = if has_dv {
            Some(decoder)
        } else {
            None
        };
        Ok(ScanRowPlan { stats_request, dv_columns, entry_request })
    }

    /// Adds the selected ones of the entries that were made of rows of a scan.
    pub fn add_from_existing_scan_rows(
        &mut self,
        rows: Vec<ContentTreeNodeEntry>,
        selection_vector: &Vec<bool>,
    ) -> (added: DeltaResult<()>)
        requires
            old(self).wf(),
            record_sum_fits(
                selected_rows(entry_models(rows@), selection_vector@, rows@.len() as int),
            ),
        ensures
            final(self).wf(),
            match added {
                Ok(_) => scan_rows_added(
                    old(self)@,
                    entry_models(rows@),
                    selection_vector@,
                ) == Ok::<BuilderModel, ErrorModel>(final(self)@),
                Err(e) => scan_rows_added(
                    old(self)@,
                    entry_models(rows@),
                    selection_vector@,
                ) == Err::<BuilderModel, ErrorModel>(e@) && final(self)@ == old(self)@,
            },
    {
        if rows.is_empty() {
            return Ok(());
        }
        match file_count_from_len(rows.len()) {
            Ok(_) => {},
            Err(e) => {
                return Err(e);
            },
        }
        let ghost models = entry_models(rows@);
        proof {
            lemma_selected_len(models, selection_vector@, models.len() as int);
        }
        let filtered = match apply_selection_vector(rows, selection_vector) {
            Ok(filtered) => filtered,
            Err(e) => {
                return Err(e);
            },
        };
        assert(entry_models(filtered@).len() == filtered@.len());
        self.add_existing_rows(filtered)
    }
}

} // verus!
