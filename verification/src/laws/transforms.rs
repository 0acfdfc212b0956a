//! Laws of the transforms: what the entries hold that an engine makes of rows, whatever the rows
//! and however the engine reads texts.

use vstd::prelude::*;

use crate::builder::{BuilderModel, Version};
use crate::deletion_vector::DvModel;
use crate::dv_columns::{decoded_columns, decoded_row, no_dv_columns, DvColumns, DvRowModel};
use crate::error::ErrorModel;
use crate::evaluation::{
    answer, at_path, bool_value, change_of, evaluate, first_value, inserted, integer_value,
    json_value, long_value, mapped_struct, scalar_value, text_value, transformed, Datum,
    EngineModel,
};
use crate::expression::{
    coalesce, column, deep_column, long_literal, nested_column, struct_from, ExpressionModel,
    ScalarModel, StepModel,
};
use crate::ingest::{
    parsed_scan_fields, scan_plan, scan_projection, scan_stats_request, scan_step_fields,
    write_projection, write_request,
};
use crate::laws::schemas::{
    apart, law_dv_info_fields, law_entry_fields, law_flat_dv_fields, law_log_add_fields,
    law_tracking_fields, lemma_distinct_same, lemma_entry_names, lemma_place,
};
use crate::laws::statistics::{
    law_content_statistics_can_be_made, law_entries_hold_content_statistics,
    law_replays_can_always_start, law_statistics_belong_to_columns,
};
use crate::names::{DELTA_STATS_NUM_RECORDS, STATS_PARSED_NAME, TAGS};
use crate::projection::{
    action_projection, dv_info_fields, entry_expression, entry_field_expression,
    entry_field_expressions, entry_fields, flat_dv_expression, flat_dv_fields, log_add_field,
    log_batch_request, stats_parsed_field, tracking_expression, tracking_fields, ProjectionModel,
};
use crate::remove_commit::{minimal_stats_field, stats_prep_request};
use crate::replay::fresh_processor;
use crate::schema::{
    field_index, find_field, lemma_field_index_bounds, long_type, nullable_field, string_map_type,
    string_type, FieldModel, PrimitiveType, TypeModel,
};
use crate::stats_schema::{
    column_source, column_sources, column_stats, content_stats_expression, content_stats_fields,
    content_stats_of, delta_stats_fields, primitive_stats, stat_source, stat_sources,
};

verus! {

/// An entry is of a data file in Parquet format: with this location, size, record count and these
/// tags, in the only partition spec, without a sort order and without manifest info.
pub open spec fn of_file(
    entry: Datum,
    location: Datum,
    size: Datum,
    record_count: Datum,
    tags: Datum,
) -> bool {
    &&& entry.field("contentType"@) == integer_value(0)
    &&& entry.field("location"@) == location
    &&& entry.field("fileFormat"@) == text_value("parquet"@)
    &&& entry.field("partitionSpecId"@) == integer_value(0)
    &&& entry.field("sortOrderId"@) is Null
    &&& entry.field("recordCount"@) == record_count
    &&& entry.field("fileSizeInBytes"@) == size
    &&& entry.field("manifestInfo"@) is Null
    &&& entry.field("tags"@) == tags
}

/// The tracking info of an entry has this status, this snapshot and this number as both sequence
/// numbers, and nothing else.
pub open spec fn tracks(entry: Datum, status: i32, snapshot_id: i64, sequence: Datum) -> bool {
    let tracking = entry.field("tracking"@);
    &&& tracking.field("status"@) == integer_value(status)
    &&& tracking.field("snapshotId"@) == long_value(snapshot_id)
    &&& tracking.field("dvSnapshotId"@) is Null
    &&& tracking.field("sequenceNumber"@) == sequence
    &&& tracking.field("fileSequenceNumber"@) == sequence
    &&& tracking.field("firstRowId"@) is Null
    &&& tracking.field("deletedPositions"@) is Null
    &&& tracking.field("replacedPositions"@) is Null
}

/// An entry has this deletion vector, or none.
pub open spec fn has_dv(entry: Datum, dv: Option<DvModel>) -> bool {
    let held = entry.field("deletionVector"@);
    match dv {
        Some(info) => {
            &&& held.field("location"@) == text_value(info.location)
            &&& held.field("offset"@) == long_value(info.offset)
            &&& held.field("sizeInBytes"@) == long_value(info.size_in_bytes)
            &&& held.field("cardinality"@) == long_value(info.cardinality)
        },
        None => held is Null,
    }
}

/// An entry has the partition values that a string map names, each read as its field's type.
pub open spec fn has_partition(
    engine: EngineModel,
    entry: Datum,
    partition_type: Option<Seq<FieldModel>>,
    map: Datum,
) -> bool {
    entry.field("partition"@) == match partition_type {
        Some(fields) => mapped_struct(engine, map, fields),
        None => Datum::Null,
    }
}

/// The statistics of a column are made of log statistics: the bounds are the smallest and the
/// largest value of that column, tight unless it is said that they are not; the value count is
/// the number of records; the null count is that of the column. Nothing else is known.
pub open spec fn of_column(held: Datum, column: FieldModel, stats: Datum) -> bool {
    &&& column.data_type is Primitive ==> {
        &&& held.field("lower_bound"@) == stats.field("minValues"@).field(column.name)
        &&& held.field("upper_bound"@) == stats.field("maxValues"@).field(column.name)
        &&& held.field("tight_bounds"@) == stats.field("tightBounds"@).or(bool_value(true))
        &&& held.field("value_count"@) == stats.field("numRecords"@)
        &&& column.nullable ==> held.field("null_value_count"@) == stats.field(
            "nullCount"@,
        ).field(column.name)
        &&& !column.nullable ==> held.field("null_value_count"@) is Null
    }
    &&& forall|name: Seq<char>|
        name != "lower_bound"@ && name != "upper_bound"@ && name != "tight_bounds"@ && name
            != "value_count"@ && name != "null_value_count"@ ==> #[trigger] held.field(name) is Null
}

/// The content statistics are made of log statistics, column by column.
pub open spec fn of_columns(held: Datum, table: Seq<FieldModel>, stats: Datum) -> bool {
    forall|i: int|
        0 <= i < table.len() ==> of_column(
            held.field((#[trigger] table[i]).name),
            table[i],
            stats,
        )
}

/// The value of a column is the row's field of that name, and of a nested one the field within.
proof fn lemma_columns(
    engine: EngineModel,
    data_type: TypeModel,
    row: Datum,
    first: Seq<char>,
    second: Seq<char>,
    third: Seq<char>,
)
    ensures
        evaluate(engine, column(first), data_type, row) == row.field(first),
        evaluate(engine, nested_column(first, second), data_type, row) == row.field(first).field(
            second,
        ),
        evaluate(engine, deep_column(first, second, third), data_type, row) == row.field(
            first,
        ).field(second).field(third),
{
    reveal_with_fuel(evaluate, 2);
    reveal_with_fuel(at_path, 4);
}

/// The value of a choice of two expressions is that of the first, else that of the second.
proof fn lemma_choice(
    engine: EngineModel,
    first: ExpressionModel,
    second: ExpressionModel,
    data_type: TypeModel,
    row: Datum,
)
    ensures
        evaluate(engine, coalesce(first, second), data_type, row) == evaluate(
            engine,
            first,
            data_type,
            row,
        ).or(evaluate(engine, second, data_type, row)),
{
    let items = seq![first, second];
    assert(first_value(engine, items, data_type, row, 0) is Null);
    assert(first_value(engine, items, data_type, row, 1) == evaluate(
        engine,
        first,
        data_type,
        row,
    ));
    assert(first_value(engine, items, data_type, row, 2) == evaluate(
        engine,
        first,
        data_type,
        row,
    ).or(evaluate(engine, second, data_type, row)));
    assert(items.len() == 2);
}

/// A field of a struct of expressions has the value of the expression at its place.
proof fn lemma_item(
    engine: EngineModel,
    items: Seq<ExpressionModel>,
    guard: Option<Box<ExpressionModel>>,
    fields: Seq<FieldModel>,
    row: Datum,
    k: int,
)
    requires
        apart(fields),
        items.len() == fields.len(),
        0 <= k < fields.len(),
        guard matches Some(condition) ==> evaluate(
            engine,
            *condition,
            TypeModel::Struct(fields),
            row,
        ) == bool_value(true),
    ensures
        evaluate(
            engine,
            ExpressionModel::Struct(items, guard),
            TypeModel::Struct(fields),
            row,
        ).field(fields[k].name) == evaluate(engine, items[k], fields[k].data_type, row),
{
    lemma_place(fields, k);
}

/// A field of an entry has the value that the expression for its name has.
proof fn lemma_entry_item(
    engine: EngineModel,
    fields: Seq<FieldModel>,
    projection: ProjectionModel,
    row: Datum,
    name: Seq<char>,
)
    requires
        find_field(fields, name) is Some,
    ensures
        evaluate(
            engine,
            entry_expression(fields, projection),
            TypeModel::Struct(fields),
            row,
        ).field(name) == evaluate(
            engine,
            entry_field_expression(find_field(fields, name)->0, projection),
            find_field(fields, name)->0.data_type,
            row,
        ),
{
    lemma_field_index_bounds(fields, name, 0);
    let items = entry_field_expressions(fields, projection);
    assert(items[field_index(fields, name, 0)] == entry_field_expression(
        fields[field_index(fields, name, 0)],
        projection,
    ));
}

/// A name that a struct does not have is null.
proof fn lemma_no_item(
    engine: EngineModel,
    fields: Seq<FieldModel>,
    projection: ProjectionModel,
    row: Datum,
    name: Seq<char>,
)
    requires
        find_field(fields, name) is None,
    ensures
        evaluate(
            engine,
            entry_expression(fields, projection),
            TypeModel::Struct(fields),
            row,
        ).field(name) is Null,
{
}

/// What an entry holds by the parts of its transform.
proof fn lemma_entry(
    engine: EngineModel,
    table: Seq<FieldModel>,
    partition_type: Option<Seq<FieldModel>>,
    projection: ProjectionModel,
    row: Datum,
)
    ensures
        ({
            let fields = entry_fields(table, partition_type);
            let entry = evaluate(
                engine,
                entry_expression(fields, projection),
                TypeModel::Struct(fields),
                row,
            );
            let long = long_type();
            &&& of_file(
                entry,
                evaluate(engine, projection.location, string_type(), row),
                evaluate(engine, projection.file_size_in_bytes, long, row),
                evaluate(engine, projection.record_count, long, row),
                match projection.tags {
                    Some(tags) => evaluate(engine, tags, string_map_type(), row),
                    None => Datum::Null,
                },
            )
            &&& tracks(
                entry,
                projection.status.number(),
                projection.snapshot_id,
                evaluate(engine, projection.sequence_number, long, row),
            )
            &&& entry.field("deletionVector"@) == match projection.dv_info {
                Some(dv) => evaluate(engine, dv, TypeModel::Struct(dv_info_fields()), row),
                None => Datum::Null,
            }
            &&& entry.field("contentStats"@) == match projection.content_stats {
                Some(stats) => evaluate(
                    engine,
                    stats,
                    TypeModel::Struct(content_stats_of(table)),
                    row,
                ),
                None => Datum::Null,
            }
            &&& entry.field("partition"@) == match (partition_type, projection.partition) {
                (Some(partition), Some(values)) => evaluate(
                    engine,
                    values,
                    TypeModel::Struct(partition),
                    row,
                ),
                _ => Datum::Null,
            }
        }),
{
    let fields = entry_fields(table, partition_type);
    law_entry_fields(table, partition_type);
    lemma_entry_names();
    lemma_entry_item(engine, fields, projection, row, "contentType"@);
    lemma_entry_item(engine, fields, projection, row, "location"@);
    lemma_entry_item(engine, fields, projection, row, "fileFormat"@);
    lemma_entry_item(engine, fields, projection, row, "tracking"@);
    lemma_entry_item(engine, fields, projection, row, "deletionVector"@);
    lemma_entry_item(engine, fields, projection, row, "partitionSpecId"@);
    lemma_entry_item(engine, fields, projection, row, "sortOrderId"@);
    lemma_entry_item(engine, fields, projection, row, "recordCount"@);
    lemma_entry_item(engine, fields, projection, row, "fileSizeInBytes"@);
    lemma_entry_item(engine, fields, projection, row, "contentStats"@);
    lemma_entry_item(engine, fields, projection, row, "manifestInfo"@);
    lemma_entry_item(engine, fields, projection, row, "tags"@);
    match partition_type {
        Some(_) => {
            lemma_entry_item(engine, fields, projection, row, "partition"@);
        },
        None => {
            lemma_no_item(engine, fields, projection, row, "partition"@);
        },
    }
    lemma_tracking(engine, projection, row);
}

/// What the tracking info of an entry holds.
proof fn lemma_tracking(engine: EngineModel, projection: ProjectionModel, row: Datum)
    ensures
        ({
            let tracking = evaluate(
                engine,
                tracking_expression(projection),
                TypeModel::Struct(tracking_fields()),
                row,
            );
            let sequence = evaluate(
                engine,
                projection.sequence_number,
                long_type(),
                row,
            );
            &&& tracking.field("status"@) == integer_value(projection.status.number())
            &&& tracking.field("snapshotId"@) == long_value(projection.snapshot_id)
            &&& tracking.field("dvSnapshotId"@) is Null
            &&& tracking.field("sequenceNumber"@) == sequence
            &&& tracking.field("fileSequenceNumber"@) == sequence
            &&& tracking.field("firstRowId"@) is Null
            &&& tracking.field("deletedPositions"@) is Null
            &&& tracking.field("replacedPositions"@) is Null
        }),
{
    law_tracking_fields();
    let fields = tracking_fields();
    match tracking_expression(projection) {
        ExpressionModel::Struct(items, guard) => {
            lemma_item(engine, items, guard, fields, row, 0);
            lemma_item(engine, items, guard, fields, row, 1);
            lemma_item(engine, items, guard, fields, row, 2);
            lemma_item(engine, items, guard, fields, row, 3);
            lemma_item(engine, items, guard, fields, row, 4);
            lemma_item(engine, items, guard, fields, row, 5);
            lemma_item(engine, items, guard, fields, row, 6);
            lemma_item(engine, items, guard, fields, row, 7);
        },
        _ => {},
    }
}

/// The statistics of different columns have different names.
pub proof fn lemma_stats_apart(columns: Seq<FieldModel>, n: nat)
    requires
        apart(columns),
        n <= columns.len(),
    ensures
        apart(content_stats_fields(columns, n)),
    decreases n,
{
    if n > 0 {
        let head = content_stats_fields(columns, (n - 1) as nat);
        lemma_stats_apart(columns, (n - 1) as nat);
        let all = content_stats_fields(columns, n);
        assert forall|i: int, j: int| 0 <= i < j < all.len() implies (#[trigger] all[i]).name != (
        #[trigger] all[j]).name by {
            if j < head.len() {
                assert(head[i].name != head[j].name);
            } else {
                law_statistics_belong_to_columns(columns, (n - 1) as nat, i);
                let from = choose|c: int|
                    0 <= c < n - 1 && (#[trigger] columns[c]).name == head[i].name;
                assert(columns[from].name != columns[n - 1].name);
            }
        }
    }
}

/// A column that has statistics has a place among them, and its statistics are its own.
pub proof fn lemma_stats_place(columns: Seq<FieldModel>, n: nat, i: int) -> (k: int)
    requires
        0 <= i < n <= columns.len(),
        column_stats(columns[i]).len() > 0,
    ensures
        0 <= k < content_stats_fields(columns, n).len(),
        content_stats_fields(columns, n)[k] == nullable_field(
            columns[i].name,
            TypeModel::Struct(column_stats(columns[i])),
        ),
    decreases n,
{
    if i == n - 1 {
        content_stats_fields(columns, (n - 1) as nat).len() as int
    } else {
        lemma_stats_place(columns, (n - 1) as nat, i)
    }
}

/// A column without statistics has no place among them.
proof fn lemma_no_stats(columns: Seq<FieldModel>, n: nat, i: int)
    requires
        apart(columns),
        0 <= i < columns.len(),
        n <= columns.len(),
        column_stats(columns[i]).len() == 0,
    ensures
        find_field(content_stats_fields(columns, n), columns[i].name) is None,
{
    let fields = content_stats_fields(columns, n);
    lemma_field_index_bounds(fields, columns[i].name, 0);
    let k = field_index(fields, columns[i].name, 0);
    if k < fields.len() {
        lemma_stats_of_others(columns, n, i, k);
    }
}

/// No statistics have the name of a column that has none.
proof fn lemma_stats_of_others(columns: Seq<FieldModel>, n: nat, i: int, k: int)
    requires
        apart(columns),
        0 <= i < columns.len(),
        n <= columns.len(),
        column_stats(columns[i]).len() == 0,
        0 <= k < content_stats_fields(columns, n).len(),
    ensures
        content_stats_fields(columns, n)[k].name != columns[i].name,
    decreases n,
{
    let head = content_stats_fields(columns, (n - 1) as nat);
    if k < head.len() {
        lemma_stats_of_others(columns, (n - 1) as nat, i, k);
    } else {
        assert(n - 1 != i);
        if i < n - 1 {
            assert(columns[i].name != columns[n - 1].name);
        } else {
            assert(columns[n - 1].name != columns[i].name);
        }
    }
}

/// The expressions of content statistics stand at the places of their columns.
pub proof fn lemma_source_place(table: Seq<FieldModel>, amt: Seq<FieldModel>, n: int, k: int)
    requires
        0 <= k < n <= amt.len(),
        column_sources(table, amt, n) is Ok,
    ensures
        column_sources(table, amt, n)->Ok_0.len() == n,
        column_source(table, amt[k]) == Ok::<ExpressionModel, ErrorModel>(
            column_sources(table, amt, n)->Ok_0[k],
        ),
    decreases n,
{
    if n > 1 && k < n - 1 {
        lemma_source_place(table, amt, n - 1, k);
    } else if n > 1 {
        lemma_source_place(table, amt, n - 1, 0);
    } else {
        assert(column_sources(table, amt, 0) == Ok::<Seq<ExpressionModel>, ErrorModel>(
            Seq::empty(),
        ));
    }
}

/// The statistics of a column of primitive type have different names.
pub proof fn lemma_stat_names(primitive: PrimitiveType, nullable: bool)
    ensures
        apart(primitive_stats(primitive, nullable)),
        "lower_bound"@.len() == 11 && "lower_bound"@[0] == 'l',
        "upper_bound"@.len() == 11 && "upper_bound"@[0] == 'u',
        "tight_bounds"@.len() == 12,
        "value_count"@.len() == 11 && "value_count"@[0] == 'v',
        "null_value_count"@.len() == 16,
        "nan_value_count"@.len() == 15,
        "avg_value_size_in_bytes"@.len() == 23,
{
    reveal_strlit("lower_bound");
    reveal_strlit("upper_bound");
    reveal_strlit("tight_bounds");
    reveal_strlit("value_count");
    reveal_strlit("null_value_count");
    reveal_strlit("nan_value_count");
    reveal_strlit("avg_value_size_in_bytes");
    assert("lower_bound"@.len() == 11 && "lower_bound"@[0] == 'l');
    assert("upper_bound"@.len() == 11 && "upper_bound"@[0] == 'u');
    assert("tight_bounds"@.len() == 12);
    assert("value_count"@.len() == 11 && "value_count"@[0] == 'v');
    assert("null_value_count"@.len() == 16);
    assert("nan_value_count"@.len() == 15);
    assert("avg_value_size_in_bytes"@.len() == 23);
}

/// The statistics of one column, by the place of each.
proof fn lemma_column_stats(
    engine: EngineModel,
    column: FieldModel,
    stats: Seq<FieldModel>,
    row: Datum,
)
    requires
        column.data_type matches TypeModel::Primitive(primitive) ==> stats == primitive_stats(
            primitive,
            column.nullable,
        ),
    ensures
        of_column(
            evaluate(
                engine,
                struct_from(stat_sources(column.name, stats)),
                TypeModel::Struct(stats),
                row,
            ),
            column,
            row.field("stats_parsed"@),
        ),
{
    let items = stat_sources(column.name, stats);
    let held = evaluate(engine, struct_from(items), TypeModel::Struct(stats), row);
    let parsed = "stats_parsed"@;
    lemma_stat_names(PrimitiveType::Long, true);
    assert forall|name: Seq<char>|
        name != "lower_bound"@ && name != "upper_bound"@ && name != "tight_bounds"@ && name
            != "value_count"@ && name != "null_value_count"@ implies #[trigger] held.field(
        name,
    ) is Null by {
        lemma_field_index_bounds(stats, name, 0);
        let k = field_index(stats, name, 0);
        if k < stats.len() {
            assert(items[k] == stat_source(column.name, stats[k]));
            assert(items[k] matches ExpressionModel::Literal(ScalarModel::Null(_)));
            assert(evaluate(engine, items[k], stats[k].data_type, row) is Null);
            assert(held.field(name) == evaluate(engine, items[k], stats[k].data_type, row));
        }
    }
    if let TypeModel::Primitive(primitive) = column.data_type {
        lemma_stat_names(primitive, column.nullable);
        assert(stats[0].name == "lower_bound"@);
        assert(stats[1].name == "upper_bound"@);
        assert(stats[2].name == "tight_bounds"@);
        assert(stats[3].name == "value_count"@);
        lemma_item(engine, items, None, stats, row, 0);
        lemma_item(engine, items, None, stats, row, 1);
        lemma_item(engine, items, None, stats, row, 2);
        lemma_item(engine, items, None, stats, row, 3);
        lemma_columns(engine, stats[0].data_type, row, parsed, "minValues"@, column.name);
        lemma_columns(engine, stats[1].data_type, row, parsed, "maxValues"@, column.name);
        lemma_columns(engine, stats[2].data_type, row, parsed, "tightBounds"@, column.name);
        lemma_columns(engine, stats[3].data_type, row, parsed, "numRecords"@, column.name);
        lemma_choice(
            engine,
            nested_column(parsed, "tightBounds"@),
            ExpressionModel::Literal(ScalarModel::Boolean(true)),
            stats[2].data_type,
            row,
        );
        if column.nullable {
            assert(stats[4].name == "null_value_count"@);
            lemma_item(engine, items, None, stats, row, 4);
            lemma_columns(engine, stats[4].data_type, row, parsed, "nullCount"@, column.name);
        } else {
            lemma_field_index_bounds(stats, "null_value_count"@, 0);
            let k = field_index(stats, "null_value_count"@, 0);
            assert(k == stats.len());
        }
    }
}

/// Log statistics become content statistics column by column: the bounds of a column are its
/// smallest and largest value, its counts are the number of records and its number of nulls.
/// Columns without statistics stay without.
pub proof fn law_log_statistics_become_content_statistics(
    engine: EngineModel,
    table: Seq<FieldModel>,
    row: Datum,
)
    requires
        apart(table),
    ensures
        content_stats_expression(table, content_stats_of(table)) matches Ok(expression)
            && of_columns(
            evaluate(engine, expression, TypeModel::Struct(content_stats_of(table)), row),
            table,
            row.field("stats_parsed"@),
        ),
{
    let amt = content_stats_of(table);
    law_content_statistics_can_be_made(table);
    let items = column_sources(table, amt, amt.len() as int)->Ok_0;
    let held = evaluate(engine, struct_from(items), TypeModel::Struct(amt), row);
    lemma_stats_apart(table, table.len());
    assert forall|i: int| 0 <= i < table.len() implies of_column(
        held.field((#[trigger] table[i]).name),
        table[i],
        row.field("stats_parsed"@),
    ) by {
        let stats = column_stats(table[i]);
        if stats.len() > 0 {
            let k = lemma_stats_place(table, table.len(), i);
            lemma_source_place(table, amt, amt.len() as int, k);
            lemma_item(engine, items, None, amt, row, k);
            lemma_column_stats(engine, table[i], stats, row);
        } else {
            lemma_no_stats(table, table.len(), i);
            assert(!(table[i].data_type is Primitive));
            assert(held.field(table[i].name) is Null);
        }
    }
}

/// A row with the flat columns of row `i` behind its own.
pub open spec fn with_dv_columns(row: Datum, columns: DvColumns, i: int) -> Datum {
    match row {
        Datum::Struct(fields, values) => Datum::Struct(
            fields + flat_dv_fields(),
            values.push(scalar_value(columns.paths[i])).push(
                scalar_value(columns.offsets[i]),
            ).push(scalar_value(columns.sizes[i])).push(scalar_value(columns.cardinalities[i])),
        ),
        _ => Datum::Null,
    }
}

/// Flat columns behind others hide none of them, and are found.
proof fn lemma_with_dv_columns(
    fields: Seq<FieldModel>,
    values: Seq<Datum>,
    columns: DvColumns,
    i: int,
)
    requires
        apart(fields + flat_dv_fields()),
        fields.len() == values.len(),
    ensures
        ({
            let row = with_dv_columns(Datum::Struct(fields, values), columns, i);
            &&& forall|k: int|
                0 <= k < fields.len() ==> row.field((#[trigger] fields[k]).name) == values[k]
            &&& row.field("_dv_location"@) == scalar_value(columns.paths[i])
            &&& row.field("_dv_offset"@) == scalar_value(columns.offsets[i])
            &&& row.field("_dv_size_in_bytes"@) == scalar_value(columns.sizes[i])
            &&& row.field("_dv_cardinality"@) == scalar_value(columns.cardinalities[i])
        }),
{
    law_flat_dv_fields();
    let all = fields + flat_dv_fields();
    let n = fields.len() as int;
    let row = with_dv_columns(Datum::Struct(fields, values), columns, i);
    assert forall|k: int| 0 <= k < fields.len() implies row.field((#[trigger] fields[k]).name)
        == values[k] by {
        assert(all[k] == fields[k]);
        lemma_place(all, k);
    }
    assert(all[n].name == "_dv_location"@);
    assert(all[n + 1].name == "_dv_offset"@);
    assert(all[n + 2].name == "_dv_size_in_bytes"@);
    assert(all[n + 3].name == "_dv_cardinality"@);
    lemma_place(all, n);
    lemma_place(all, n + 1);
    lemma_place(all, n + 2);
    lemma_place(all, n + 3);
}

/// The flat columns hold the deletion vectors of the rows, and nulls where a row has none.
pub proof fn law_flat_columns_hold_deletion_vectors(rows: Seq<DvRowModel>, n: int, i: int)
    requires
        0 <= i < n <= rows.len(),
        decoded_columns(no_dv_columns(), rows, n) is Ok,
    ensures
        ({
            let columns = decoded_columns(no_dv_columns(), rows, n)->Ok_0;
            &&& columns.paths.len() == n
            &&& columns.offsets.len() == n
            &&& columns.sizes.len() == n
            &&& columns.cardinalities.len() == n
            &&& match decoded_row(rows[i]) {
                Ok(Some(info)) => {
                    &&& columns.paths[i] == ScalarModel::String(info.location)
                    &&& columns.offsets[i] == ScalarModel::Long(info.offset)
                    &&& columns.sizes[i] == ScalarModel::Long(info.size_in_bytes)
                    &&& columns.cardinalities[i] == ScalarModel::Long(info.cardinality)
                },
                Ok(None) => {
                    &&& columns.paths[i] is Null
                    &&& columns.offsets[i] is Null
                    &&& columns.sizes[i] is Null
                    &&& columns.cardinalities[i] is Null
                },
                Err(_) => false,
            }
        }),
    decreases n,
{
    if n > 1 {
        if i < n - 1 {
            law_flat_columns_hold_deletion_vectors(rows, n - 1, i);
        } else {
            law_flat_columns_hold_deletion_vectors(rows, n - 1, 0);
        }
    } else {
        assert(decoded_columns(no_dv_columns(), rows, 0) == Ok::<DvColumns, ErrorModel>(
            no_dv_columns(),
        ));
    }
}

/// The deletion vector of an entry is that of the flat columns.
proof fn lemma_flat_dv(engine: EngineModel, row: Datum)
    ensures
        ({
            let held = evaluate(
                engine,
                flat_dv_expression(),
                TypeModel::Struct(dv_info_fields()),
                row,
            );
            if row.field("_dv_location"@) is Null {
                held is Null
            } else {
                &&& held.field("location"@) == row.field("_dv_location"@)
                &&& held.field("offset"@) == row.field("_dv_offset"@)
                &&& held.field("sizeInBytes"@) == row.field("_dv_size_in_bytes"@)
                &&& held.field("cardinality"@) == row.field("_dv_cardinality"@)
            }
        }),
{
    law_dv_info_fields();
    let fields = dv_info_fields();
    let whole = TypeModel::Struct(fields);
    lemma_columns(engine, whole, row, "_dv_location"@, "_dv_location"@, "_dv_location"@);
    let location = column("_dv_location"@);
    let condition = ExpressionModel::IsNotNull(Box::new(location));
    assert(evaluate(engine, condition, whole, row) == bool_value(
        !(evaluate(engine, location, whole, row) is Null),
    ));
    match flat_dv_expression() {
        ExpressionModel::Struct(items, guard) => {
            if !(row.field("_dv_location"@) is Null) {
                lemma_item(engine, items, guard, fields, row, 0);
                lemma_item(engine, items, guard, fields, row, 1);
                lemma_item(engine, items, guard, fields, row, 2);
                lemma_item(engine, items, guard, fields, row, 3);
                lemma_columns(
                    engine,
                    fields[0].data_type,
                    row,
                    "_dv_location"@,
                    "_dv_location"@,
                    "_dv_location"@,
                );
                lemma_columns(
                    engine,
                    fields[1].data_type,
                    row,
                    "_dv_offset"@,
                    "_dv_offset"@,
                    "_dv_offset"@,
                );
                lemma_columns(
                    engine,
                    fields[2].data_type,
                    row,
                    "_dv_size_in_bytes"@,
                    "_dv_size_in_bytes"@,
                    "_dv_size_in_bytes"@,
                );
                lemma_columns(
                    engine,
                    fields[3].data_type,
                    row,
                    "_dv_cardinality"@,
                    "_dv_cardinality"@,
                    "_dv_cardinality"@,
                );
            }
        },
        _ => {},
    }
}

/// The first step of a replay hands on the path, size, commit version, partition values and tags
/// of an add as they are, and its statistics parsed.
pub proof fn law_first_steps_hand_on_adds(
    engine: EngineModel,
    delta_stats: Seq<FieldModel>,
    row: Datum,
)
    ensures
        ({
            let add = row.field("add"@);
            let handed = answer(engine, log_batch_request(delta_stats), row);
            &&& handed.field("add"@).field("path"@) == add.field("path"@)
            &&& handed.field("add"@).field("size"@) == add.field("size"@)
            &&& handed.field("add"@).field("defaultRowCommitVersion"@) == add.field(
                "defaultRowCommitVersion"@,
            )
            &&& handed.field("add"@).field("partitionValues"@) == add.field("partitionValues"@)
            &&& handed.field("add"@).field("tags"@) == add.field("tags"@)
            &&& handed.field("stats_parsed"@) == json_value(
                engine,
                add.field("stats"@),
                delta_stats,
            )
            &&& handed matches Datum::Struct(fields, values) && fields == seq![
                log_add_field(),
                stats_parsed_field(delta_stats),
            ] && values.len() == 2
        }),
{
    law_log_add_fields();
    reveal_strlit("add");
    reveal_strlit("stats_parsed");
    assert("add"@.len() == 3);
    assert("stats_parsed"@.len() == 12);
    let fields = seq![log_add_field(), stats_parsed_field(delta_stats)];
    assert(apart(fields));
    lemma_distinct_same(fields);
    assert(fields =~= Seq::empty().push(log_add_field()).push(stats_parsed_field(delta_stats)));
    let request = log_batch_request(delta_stats);
    assert(request.output_type == TypeModel::Struct(fields));
    let text = nested_column("add"@, "stats"@);
    let whole = fields[1].data_type;
    lemma_columns(engine, whole, row, "add"@, "stats"@, "stats"@);
    assert(evaluate(
        engine,
        ExpressionModel::ParseJson(Box::new(text), delta_stats),
        whole,
        row,
    ) == json_value(engine, evaluate(engine, text, whole, row), delta_stats));
    match request.expression {
        ExpressionModel::Struct(items, guard) => {
            lemma_item(engine, items, guard, fields, row, 0);
            lemma_item(engine, items, guard, fields, row, 1);
            match (items[0], fields[0].data_type) {
                (ExpressionModel::Struct(parts, within), TypeModel::Struct(adds)) => {
                    lemma_item(engine, parts, within, adds, row, 0);
                    lemma_item(engine, parts, within, adds, row, 1);
                    lemma_item(engine, parts, within, adds, row, 2);
                    lemma_item(engine, parts, within, adds, row, 3);
                    lemma_item(engine, parts, within, adds, row, 4);
                    lemma_columns(engine, adds[0].data_type, row, "add"@, "path"@, "path"@);
                    lemma_columns(engine, adds[1].data_type, row, "add"@, "size"@, "size"@);
                    lemma_columns(
                        engine,
                        adds[2].data_type,
                        row,
                        "add"@,
                        "defaultRowCommitVersion"@,
                        "path"@,
                    );
                    lemma_columns(
                        engine,
                        adds[3].data_type,
                        row,
                        "add"@,
                        "partitionValues"@,
                        "path"@,
                    );
                    lemma_columns(engine, adds[4].data_type, row, "add"@, "tags"@, "path"@);
                },
                _ => {},
            }
        },
        _ => {},
    }
}

/// An add of the log becomes an entry of its file: with its path, size, tags and partition
/// values, the deletion vector that it decodes to, the record count and the statistics of its
/// statistics text, and as both sequence numbers the commit version that it names, else that of
/// the commit that is being built. The file was there before.
pub proof fn law_replayed_adds_become_entries(
    engine: EngineModel,
    snapshot_id: i64,
    commit_version: i64,
    table: Seq<FieldModel>,
    partition_type: Option<Seq<FieldModel>>,
    dv_rows: Seq<DvRowModel>,
    i: int,
    row: Datum,
)
    requires
        0 <= i < dv_rows.len(),
        decoded_columns(no_dv_columns(), dv_rows, dv_rows.len() as int) is Ok,
    ensures
        fresh_processor(snapshot_id, commit_version, table, partition_type) matches Ok(processor)
            && {
            let add = row.field("add"@);
            let stats = json_value(engine, add.field("stats"@), delta_stats_fields(table));
            let columns = decoded_columns(no_dv_columns(), dv_rows, dv_rows.len() as int)->Ok_0;
            let handed = answer(engine, processor.log_batch_request, row);
            let entry = answer(
                engine,
                processor.action_request,
                with_dv_columns(handed, columns, i),
            );
            &&& of_file(
                entry,
                add.field("path"@),
                add.field("size"@),
                stats.field("numRecords"@).or(long_value(0)),
                add.field("tags"@),
            )
            &&& tracks(
                entry,
                0,
                snapshot_id,
                add.field("defaultRowCommitVersion"@).or(long_value(commit_version)),
            )
            &&& decoded_row(dv_rows[i]) matches Ok(dv) && has_dv(entry, dv)
            &&& has_partition(engine, entry, partition_type, add.field("partitionValues"@))
            &&& apart(table) ==> of_columns(entry.field("contentStats"@), table, stats)
        },
{
    law_replays_can_always_start(snapshot_id, commit_version, table, partition_type);
    law_entries_hold_content_statistics(table, partition_type);
    law_content_statistics_can_be_made(table);
    law_entry_fields(table, partition_type);
    let delta_stats = delta_stats_fields(table);
    let fields = entry_fields(table, partition_type);
    let columns = decoded_columns(no_dv_columns(), dv_rows, dv_rows.len() as int)->Ok_0;
    law_flat_columns_hold_deletion_vectors(dv_rows, dv_rows.len() as int, i);
    law_first_steps_hand_on_adds(engine, delta_stats, row);
    let handed = answer(engine, log_batch_request(delta_stats), row);
    let first = handed->Struct_0;
    let values = handed->Struct_1;
    lemma_step_names();
    law_flat_dv_fields();
    assert(first[0].name == "add"@ && first[1].name == "stats_parsed"@);
    assert(apart(first + flat_dv_fields()));
    assert(apart(first));
    lemma_with_dv_columns(first, values, columns, i);
    lemma_place(first, 0);
    lemma_place(first, 1);
    let given = with_dv_columns(handed, columns, i);
    assert(given.field(first[0].name) == values[0]);
    assert(given.field(first[1].name) == values[1]);
    assert(given.field("add"@) == handed.field("add"@));
    assert(given.field("stats_parsed"@) == handed.field("stats_parsed"@));
    let stats_expression = content_stats_expression(table, content_stats_of(table))->Ok_0;
    let projection = action_projection(
        snapshot_id,
        commit_version,
        stats_expression,
        partition_type is Some,
    );
    lemma_entry(engine, table, partition_type, projection, given);
    lemma_flat_dv(engine, given);
    let long = long_type();
    lemma_columns(engine, string_type(), given, "add"@, "path"@, "path"@);
    lemma_columns(engine, long, given, "add"@, "size"@, "size"@);
    lemma_columns(engine, long, given, "add"@, "defaultRowCommitVersion"@, "path"@);
    lemma_columns(engine, string_map_type(), given, "add"@, "tags"@, "path"@);
    lemma_columns(engine, long, given, "stats_parsed"@, "numRecords"@, "path"@);
    lemma_choice(
        engine,
        nested_column("add"@, "defaultRowCommitVersion"@),
        long_literal(commit_version),
        long,
        given,
    );
    lemma_choice(
        engine,
        nested_column("stats_parsed"@, "numRecords"@),
        long_literal(0),
        long,
        given,
    );
    if let Some(partition) = partition_type {
        lemma_partition(engine, nested_column("add"@, "partitionValues"@), partition, given);
        lemma_columns(
            engine,
            TypeModel::Struct(partition),
            given,
            "add"@,
            "partitionValues"@,
            "path"@,
        );
    }
    if apart(table) {
        law_log_statistics_become_content_statistics(engine, table, given);
    }
}

/// The first step for rows of a scan keeps statistics in either form: those that are parsed
/// already, else what their text is parsed to. Path, size and tags come out as they went in.
pub proof fn law_first_steps_hand_on_scan_rows(
    engine: EngineModel,
    table: Seq<FieldModel>,
    row: Datum,
)
    ensures
        ({
            let handed = answer(engine, scan_stats_request(table), row);
            &&& handed.field("path"@) == row.field("path"@)
            &&& handed.field("size"@) == row.field("size"@)
            &&& handed.field("tags"@) == row.field("fileConstantValues"@).field("tags"@)
            &&& handed.field("stats_parsed"@) == row.field("stats_parsed"@).or(
                json_value(engine, row.field("stats"@), delta_stats_fields(table)),
            )
            &&& handed matches Datum::Struct(fields, values) && fields == parsed_scan_fields(table)
                && values.len() == 4
        }),
{
    let fields = parsed_scan_fields(table);
    lemma_parsed_scan_fields(table);
    let whole = fields[2].data_type;
    let parse = ExpressionModel::ParseJson(Box::new(column("stats"@)), delta_stats_fields(table));
    lemma_choice(engine, column("stats_parsed"@), parse, whole, row);
    lemma_columns(engine, whole, row, "stats_parsed"@, "path"@, "path"@);
    lemma_columns(engine, whole, row, "stats"@, "path"@, "path"@);
    assert(evaluate(engine, parse, whole, row) == json_value(
        engine,
        evaluate(engine, column("stats"@), whole, row),
        delta_stats_fields(table),
    ));
    lemma_columns(engine, fields[0].data_type, row, "path"@, "path"@, "path"@);
    lemma_columns(engine, fields[1].data_type, row, "size"@, "path"@, "path"@);
    lemma_columns(engine, fields[3].data_type, row, "fileConstantValues"@, "tags"@, "path"@);
    match scan_stats_request(table).expression {
        ExpressionModel::Struct(items, guard) => {
            lemma_item(engine, items, guard, fields, row, 0);
            lemma_item(engine, items, guard, fields, row, 1);
            lemma_item(engine, items, guard, fields, row, 2);
            lemma_item(engine, items, guard, fields, row, 3);
        },
        _ => {},
    }
}

/// The columns of a scan between its two steps.
pub proof fn lemma_parsed_scan_fields(table: Seq<FieldModel>)
    ensures
        apart(parsed_scan_fields(table) + flat_dv_fields()),
        apart(parsed_scan_fields(table)),
        parsed_scan_fields(table) == seq![
            nullable_field("path"@, string_type()),
            nullable_field("size"@, long_type()),
            nullable_field("stats_parsed"@, TypeModel::Struct(delta_stats_fields(table))),
            nullable_field("tags"@, string_map_type()),
        ],
{
    lemma_step_names();
    law_flat_dv_fields();
    let list = seq![
        nullable_field("path"@, string_type()),
        nullable_field("size"@, long_type()),
        nullable_field("stats_parsed"@, TypeModel::Struct(delta_stats_fields(table))),
        nullable_field("tags"@, string_map_type()),
    ];
    assert(apart(list));
    lemma_distinct_same(list);
    assert(list =~= Seq::empty().push(nullable_field("path"@, string_type())).push(
        nullable_field("size"@, long_type()),
    ).push(nullable_field(STATS_PARSED_NAME@, TypeModel::Struct(delta_stats_fields(table)))).push(
        nullable_field(TAGS@, string_map_type()),
    ));
    assert(apart(list + flat_dv_fields()));
}

/// A row of a scan becomes an entry of its file: with its path, size and tags, the deletion
/// vector that it decodes to, and the record count and statistics of its statistics, whether
/// they were parsed or text; both sequence numbers are the version. The file was there before.
pub proof fn law_scan_rows_become_entries(
    engine: EngineModel,
    builder: BuilderModel,
    dv_rows: Seq<DvRowModel>,
    version: Version,
    snapshot_id: i64,
    i: int,
    row: Datum,
)
    requires
        0 <= i < dv_rows.len(),
        forall|j: int| 0 <= j < dv_rows.len() ==> decoded_row(#[trigger] dv_rows[j]) is Ok,
    ensures
        scan_plan(builder, dv_rows, version, snapshot_id) matches Ok(plan) && {
            let (first, dv_columns, second) = plan;
            let handed = answer(engine, first, row);
            let given = match dv_columns {
                Some(columns) => with_dv_columns(handed, columns, i),
                None => handed,
            };
            let stats = row.field("stats_parsed"@).or(
                json_value(engine, row.field("stats"@), delta_stats_fields(builder.table_schema)),
            );
            let entry = answer(engine, second, given);
            &&& of_file(
                entry,
                row.field("path"@),
                row.field("size"@),
                stats.field("numRecords"@).or(long_value(0)),
                row.field("fileConstantValues"@).field("tags"@),
            )
            &&& tracks(entry, 0, snapshot_id, long_value(version as i64))
            &&& decoded_row(dv_rows[i]) matches Ok(dv) && has_dv(entry, dv)
            &&& entry.field("partition"@) is Null
            &&& apart(builder.table_schema) ==> of_columns(
                entry.field("contentStats"@),
                builder.table_schema,
                stats,
            )
        },
{
    let table = builder.table_schema;
    let n = dv_rows.len() as int;
    lemma_all_decoded(dv_rows, n);
    let columns = decoded_columns(no_dv_columns(), dv_rows, n)->Ok_0;
    law_flat_columns_hold_deletion_vectors(dv_rows, n, i);
    law_content_statistics_can_be_made(table);
    law_first_steps_hand_on_scan_rows(engine, table, row);
    lemma_parsed_scan_fields(table);
    lemma_step_names();
    law_flat_dv_fields();
    let handed = answer(engine, scan_stats_request(table), row);
    let between = parsed_scan_fields(table);
    let values = handed->Struct_1;
    let input = scan_step_fields(table, columns);
    let given = if columns.has_any() {
        with_dv_columns(handed, columns, i)
    } else {
        handed
    };
    lemma_place(between, 0);
    lemma_place(between, 1);
    lemma_place(between, 2);
    lemma_place(between, 3);
    let all = between + flat_dv_fields();
    if columns.has_any() {
        lemma_distinct_same(all);
        lemma_with_dv_columns(between, values, columns, i);
        assert(all[4].name == "_dv_location"@);
        assert(all[3].name == "tags"@);
        lemma_place(all, 4);
        lemma_place(all, 3);
        assert(given.field(between[0].name) == values[0]);
        assert(given.field(between[1].name) == values[1]);
        assert(given.field(between[2].name) == values[2]);
        assert(given.field(between[3].name) == values[3]);
    } else {
        assert(columns.paths[i] is Null);
        lemma_field_index_bounds(between, "_dv_location"@, 0);
    }
    assert(find_field(input, "tags"@) is Some);
    assert((find_field(input, "_dv_location"@) is Some) == columns.has_any());
    let stats_expression = content_stats_expression(table, content_stats_of(table))->Ok_0;
    let projection = scan_projection(input, stats_expression, version, snapshot_id);
    lemma_entry(engine, table, builder.partition_type, projection, given);
    lemma_flat_dv(engine, given);
    let long = long_type();
    lemma_columns(engine, string_type(), given, "path"@, "path"@, "path"@);
    lemma_columns(engine, long, given, "size"@, "size"@, "size"@);
    lemma_columns(engine, string_map_type(), given, "tags"@, "tags"@, "path"@);
    lemma_columns(engine, long, given, "stats_parsed"@, "numRecords"@, "path"@);
    lemma_choice(
        engine,
        nested_column("stats_parsed"@, "numRecords"@),
        long_literal(0),
        long,
        given,
    );
    if apart(table) {
        law_log_statistics_become_content_statistics(engine, table, given);
    }
}

/// Rows that can all be decoded become columns.
proof fn lemma_all_decoded(rows: Seq<DvRowModel>, n: int)
    requires
        0 <= n <= rows.len(),
        forall|j: int| 0 <= j < rows.len() ==> decoded_row(#[trigger] rows[j]) is Ok,
    ensures
        decoded_columns(no_dv_columns(), rows, n) is Ok,
    decreases n,
{
    if n > 0 {
        lemma_all_decoded(rows, n - 1);
        assert(decoded_row(rows[n - 1]) is Ok);
    }
}

/// A row of write metadata becomes an entry of a new file: with its path and size, the partition
/// values that it names and no tags or deletion vector; both sequence numbers are the version.
/// The content statistics are its own, and the record count is the value count of the first
/// column that has statistics.
pub proof fn law_written_rows_become_entries(
    engine: EngineModel,
    table: Seq<FieldModel>,
    partition_type: Option<Seq<FieldModel>>,
    version: Version,
    snapshot_id: i64,
    first: int,
    row: Datum,
)
    requires
        0 <= first <= table.len(),
        forall|j: int| 0 <= j < first ==> column_stats(#[trigger] table[j]).len() == 0,
        first < table.len() ==> column_stats(table[first]).len() > 0,
    ensures
        ({
            let entry = answer(
                engine,
                write_request(
                    entry_fields(table, partition_type),
                    partition_type is Some,
                    version,
                    snapshot_id,
                    Some(content_stats_of(table)),
                ),
                row,
            );
            &&& of_file(
                entry,
                row.field("path"@),
                row.field("size"@),
                if first < table.len() {
                    row.field("stats"@).field(table[first].name).field("value_count"@).or(
                        long_value(0),
                    )
                } else {
                    long_value(0)
                },
                Datum::Null,
            )
            &&& tracks(entry, 1, snapshot_id, long_value(version as i64))
            &&& has_dv(entry, None)
            &&& has_partition(engine, entry, partition_type, row.field("partitionValues"@))
            &&& entry.field("contentStats"@) == row.field("stats"@)
        }),
{
    let stats = content_stats_of(table);
    lemma_first_stats(table, table.len(), first);
    lemma_write(engine, table, partition_type, version, snapshot_id, Some(stats), row);
    if first < table.len() {
        lemma_columns(engine, long_type(), row, "stats"@, stats[0].name, "value_count"@);
        lemma_choice(
            engine,
            deep_column("stats"@, stats[0].name, "value_count"@),
            long_literal(0),
            long_type(),
            row,
        );
    }
    lemma_columns(engine, TypeModel::Struct(stats), row, "stats"@, "stats"@, "stats"@);
}

/// Where statistics are not in the right form, a row of write metadata still becomes an entry of
/// a new file, with its path, size and partition values, but without statistics and records.
pub proof fn law_rows_without_statistics_become_entries(
    engine: EngineModel,
    table: Seq<FieldModel>,
    partition_type: Option<Seq<FieldModel>>,
    version: Version,
    snapshot_id: i64,
    row: Datum,
)
    ensures
        ({
            let entry = answer(
                engine,
                write_request(
                    entry_fields(table, partition_type),
                    partition_type is Some,
                    version,
                    snapshot_id,
                    None,
                ),
                row,
            );
            &&& of_file(
                entry,
                row.field("path"@),
                row.field("size"@),
                long_value(0),
                Datum::Null,
            )
            &&& tracks(entry, 1, snapshot_id, long_value(version as i64))
            &&& has_dv(entry, None)
            &&& has_partition(engine, entry, partition_type, row.field("partitionValues"@))
            &&& entry.field("contentStats"@) is Null
        }),
{
    lemma_write(engine, table, partition_type, version, snapshot_id, None, row);
}

/// The first statistics are those of the first column that has any.
proof fn lemma_first_stats(table: Seq<FieldModel>, n: nat, first: int)
    requires
        n <= table.len(),
        0 <= first <= table.len(),
        forall|j: int| 0 <= j < first ==> column_stats(#[trigger] table[j]).len() == 0,
        first < table.len() ==> column_stats(table[first]).len() > 0,
    ensures
        n <= first ==> content_stats_fields(table, n).len() == 0,
        n > first ==> content_stats_fields(table, n).len() > 0 && content_stats_fields(
            table,
            n,
        )[0].name == table[first].name,
    decreases n,
{
    if n > 0 {
        lemma_first_stats(table, (n - 1) as nat, first);
        if n <= first {
            assert(column_stats(table[n - 1]).len() == 0);
        }
    }
}

/// What the transforms of a write have in common.
proof fn lemma_write(
    engine: EngineModel,
    table: Seq<FieldModel>,
    partition_type: Option<Seq<FieldModel>>,
    version: Version,
    snapshot_id: i64,
    stats: Option<Seq<FieldModel>>,
    row: Datum,
)
    ensures
        ({
            let projection = write_projection(
                partition_type is Some,
                version,
                snapshot_id,
                stats,
            );
            let entry = answer(
                engine,
                write_request(
                    entry_fields(table, partition_type),
                    partition_type is Some,
                    version,
                    snapshot_id,
                    stats,
                ),
                row,
            );
            &&& of_file(
                entry,
                row.field("path"@),
                row.field("size"@),
                evaluate(engine, projection.record_count, long_type(), row),
                Datum::Null,
            )
            &&& tracks(entry, 1, snapshot_id, long_value(version as i64))
            &&& has_dv(entry, None)
            &&& has_partition(engine, entry, partition_type, row.field("partitionValues"@))
            &&& entry.field("contentStats"@) == match projection.content_stats {
                Some(given) => evaluate(
                    engine,
                    given,
                    TypeModel::Struct(content_stats_of(table)),
                    row,
                ),
                None => Datum::Null,
            }
        }),
{
    let projection = write_projection(partition_type is Some, version, snapshot_id, stats);
    lemma_entry(engine, table, partition_type, projection, row);
    lemma_columns(engine, string_type(), row, "path"@, "path"@, "path"@);
    lemma_columns(engine, long_type(), row, "size"@, "size"@, "size"@);
    if let Some(partition) = partition_type {
        lemma_partition(engine, column("partitionValues"@), partition, row);
        lemma_columns(
            engine,
            TypeModel::Struct(partition),
            row,
            "partitionValues"@,
            "path"@,
            "path"@,
        );
    }
}

/// Rows that a remove hands in for the tree get parsed statistics that hold their number of
/// records; all their own columns stay as they are.
pub proof fn law_record_counts_become_statistics(
    engine: EngineModel,
    input: Seq<FieldModel>,
    values: Seq<Datum>,
    k: int,
)
    requires
        apart(input),
        forall|j: int| 0 <= j < input.len() ==> (#[trigger] input[j]).name != "stats_parsed"@,
        values.len() == input.len(),
        0 <= k < input.len(),
    ensures
        ({
            let row = Datum::Struct(input, values);
            let prepared = answer(engine, stats_prep_request(input), row);
            &&& prepared.field("stats_parsed"@).field("numRecords"@) == row.field("numRecords"@)
            &&& prepared.field(input[k].name) == row.field(input[k].name)
            &&& prepared.field(input[k].name) == values[k]
        }),
{
    let row = Datum::Struct(input, values);
    let last = minimal_stats_field();
    let output = input.push(last);
    let n = input.len();
    let prepared = answer(engine, stats_prep_request(input), row);
    assert(apart(output)) by {
        assert forall|i: int, j: int| 0 <= i < j < output.len() implies (#[trigger] output[i]).name
            != (#[trigger] output[j]).name by {
            assert(input[i].name != "stats_parsed"@);
            if j < n {
                assert(input[i].name != input[j].name);
            }
        }
    }
    lemma_distinct_same(output);
    let step = stats_prep_request(input).expression->Transform_1[0];
    let steps = Seq::empty().push(step);
    let made = step->Inserted_1;
    assert(stats_prep_request(input).expression->Transform_1 =~= steps);
    lemma_passed(engine, steps, output, input, values, row, (n - 1) as nat);
    let name = input[n - 1].name;
    assert(step == StepModel::Inserted(Some(name), made));
    let before = transformed(engine, steps, output, input, values, row, (n - 1) as nat);
    assert(change_of(steps, name, 0) == -1);
    assert(change_of(steps, name, 1) == -1);
    let own = before.push(values[n - 1]);
    assert(own =~= values);
    assert(inserted(engine, steps, output, row, Some(name), n, 0) =~= Seq::empty());
    let put = evaluate(engine, made, output[n as int].data_type, row);
    assert(inserted(engine, steps, output, row, Some(name), n, 1) =~= Seq::empty().push(put));
    assert(steps.len() == 1);
    assert(transformed(engine, steps, output, input, values, row, n) =~= values.push(put));
    assert(at_path(row, Seq::empty(), 0) == row);
    assert(prepared == Datum::Struct(output, values.push(put)));
    lemma_place(output, n as int);
    lemma_place(output, k);
    lemma_place(input, k);
    assert(output[k] == input[k]);
    let counted = seq![nullable_field("numRecords"@, long_type())];
    lemma_distinct_same(counted);
    assert(counted =~= Seq::empty().push(nullable_field(DELTA_STATS_NUM_RECORDS@, long_type())));
    assert(last.data_type == TypeModel::Struct(counted));
    lemma_item(engine, made->Struct_0, None, counted, row, 0);
    lemma_columns(engine, long_type(), row, "numRecords"@, "path"@, "path"@);
}

/// A transform that only puts something behind the last field passes the others through.
proof fn lemma_passed(
    engine: EngineModel,
    steps: Seq<StepModel>,
    output: Seq<FieldModel>,
    fields: Seq<FieldModel>,
    values: Seq<Datum>,
    row: Datum,
    k: nat,
)
    requires
        apart(fields),
        values.len() == fields.len(),
        k < fields.len(),
        steps.len() == 1,
        steps[0] matches StepModel::Inserted(behind, _) && behind == Some(fields.last().name),
    ensures
        transformed(engine, steps, output, fields, values, row, k) =~= values.take(k as int),
    decreases k,
{
    if k == 0 {
        assert(inserted(engine, steps, output, row, None, 0, 0) =~= Seq::empty());
        assert(inserted(engine, steps, output, row, None, 0, 1) =~= Seq::empty());
    } else {
        lemma_passed(engine, steps, output, fields, values, row, (k - 1) as nat);
        let name = fields[k - 1].name;
        assert(fields[k - 1].name != fields[fields.len() - 1].name);
        assert(change_of(steps, name, 0) == -1);
        assert(change_of(steps, name, 1) == -1);
        assert(inserted(engine, steps, output, row, Some(name), k, 0) =~= Seq::empty());
        assert(inserted(engine, steps, output, row, Some(name), k, 1) =~= Seq::empty());
    }
}

/// The names of the columns between two steps differ from each other.
pub proof fn lemma_step_names()
    ensures
        "add"@.len() == 3,
        "path"@.len() == 4 && "path"@[0] == 'p',
        "size"@.len() == 4 && "size"@[0] == 's',
        "tags"@.len() == 4 && "tags"@[0] == 't',
        "stats"@.len() == 5,
        "stats_parsed"@.len() == 12 && "stats_parsed"@[0] == 's',
        "fileConstantValues"@.len() == 18,
        "partitionValues"@.len() == 15 && "partitionValues"@[0] == 'p',
        "modificationTime"@.len() == 16,
        "_dv_location"@.len() == 12 && "_dv_location"@[0] == '_',
        "_dv_offset"@.len() == 10,
        "_dv_size_in_bytes"@.len() == 17,
        "_dv_cardinality"@.len() == 15 && "_dv_cardinality"@[0] == '_',
{
    reveal_strlit("add");
    reveal_strlit("path");
    reveal_strlit("size");
    reveal_strlit("tags");
    reveal_strlit("stats");
    reveal_strlit("stats_parsed");
    reveal_strlit("fileConstantValues");
    reveal_strlit("partitionValues");
    reveal_strlit("modificationTime");
    reveal_strlit("_dv_location");
    reveal_strlit("_dv_offset");
    reveal_strlit("_dv_size_in_bytes");
    reveal_strlit("_dv_cardinality");
}

/// Partition values are read from the map that the expression gives.
proof fn lemma_partition(
    engine: EngineModel,
    map: ExpressionModel,
    partition: Seq<FieldModel>,
    row: Datum,
)
    ensures
        evaluate(
            engine,
            ExpressionModel::MapToStruct(Box::new(map)),
            TypeModel::Struct(partition),
            row,
        ) == mapped_struct(
            engine,
            evaluate(engine, map, TypeModel::Struct(partition), row),
            partition,
        ),
{
}

} // verus!
