//! Laws of types: schemas of statistics have the types of their columns, and every request asks
//! for what its input can give.

use vstd::prelude::*;

use crate::builder::{BuilderModel, Version};
use crate::dv_columns::{dv_source_columns, DvRowModel};
use crate::evaluation::{fits, type_at, well_typed};
use crate::expression::{
    coalesce, column, deep_column, long_literal, nested_column, struct_from, ExpressionModel,
    ScalarModel,
};
use crate::ingest::{
    first_value_count, parsed_scan_fields, scan_fields, scan_plan, scan_projection,
    scan_stats_request, write_fields, write_projection, write_request,
};
use crate::laws::schemas::{
    apart, law_dv_info_fields, law_entry_fields, law_flat_dv_fields, law_log_add_fields,
    law_tracking_fields, lemma_distinct_same, lemma_entry_names, lemma_place,
};
use crate::laws::statistics::{
    law_content_statistics_can_be_made, law_entries_hold_content_statistics,
    law_replays_can_always_start, law_statistics_belong_to_columns,
};
use crate::laws::transforms::{
    lemma_parsed_scan_fields, lemma_source_place, lemma_stat_names, lemma_stats_apart,
    lemma_stats_place, lemma_step_names,
};
use crate::names::{
    DELTA_STATS_MAX_VALUES, DELTA_STATS_MIN_VALUES, DELTA_STATS_NULL_COUNT, DELTA_STATS_NUM_RECORDS,
    DELTA_STATS_TIGHT_BOUNDS, TAGS,
};
use crate::projection::{
    action_projection, add_dv_fields, back_reference_fields, dv_info_fields, entry_expression,
    entry_field_expression, entry_field_expressions, entry_fields, flat_dv_expression,
    flat_dv_fields, log_add_field, log_batch_input_fields, log_batch_request, log_replay_fields,
    remove_dv_fields, stats_parsed_field, tracking_expression, tracking_fields, ProjectionModel,
};
use crate::replay::{dedup_columns, fresh_processor};
use crate::schema::{
    boolean_type, distinct_fields, field_index, find_field, integer_type, lemma_field_index_bounds,
    long_type, nullable_field, string_map_type, string_type, FieldModel, PrimitiveType, TypeModel,
};
use crate::stats_schema::{
    column_sources, column_stats, content_stats_expression, content_stats_fields, content_stats_of,
    delta_stats_fields, null_count_fields, primitive_stats, stat_source, stat_sources, value_fields,
};

verus! {

/// The log statistics of a table hold the number of records, the null counts, the smallest and
/// the largest values, and whether the bounds are tight, in this order. For each column, and in
/// the order of the columns, the values have its name and its type, the null count is a number,
/// and all of them can be null.
pub proof fn law_log_statistics_have_the_types_of_columns(table: Seq<FieldModel>, i: int)
    requires
        apart(table),
        0 <= i < table.len(),
    ensures
        ({
            let stats = delta_stats_fields(table);
            &&& stats.len() == 5
            &&& stats[0] == nullable_field("numRecords"@, long_type())
            &&& stats[1].name == "nullCount"@ && stats[1].nullable
            &&& stats[1].data_type matches TypeModel::Struct(counts) && counts.len() == table.len()
                && counts[i].name == table[i].name && counts[i].data_type == long_type()
                && counts[i].nullable
            &&& stats[2].name == "minValues"@ && stats[2].nullable
            &&& stats[2].data_type matches TypeModel::Struct(values) && values.len() == table.len()
                && values[i].name == table[i].name && values[i].data_type == table[i].data_type
                && values[i].nullable
            &&& stats[3].name == "maxValues"@ && stats[3].nullable
            &&& stats[3].data_type matches TypeModel::Struct(values) && values.len() == table.len()
                && values[i].name == table[i].name && values[i].data_type == table[i].data_type
                && values[i].nullable
            &&& stats[4] == nullable_field("tightBounds"@, boolean_type())
        }),
{
    lemma_log_statistics(table);
}

/// The fields of log statistics.
proof fn lemma_log_statistics(table: Seq<FieldModel>)
    requires
        apart(table),
    ensures
        apart(delta_stats_fields(table)),
        apart(value_fields(table)),
        apart(null_count_fields(table)),
        delta_stats_fields(table) == seq![
            nullable_field("numRecords"@, long_type()),
            nullable_field("nullCount"@, TypeModel::Struct(null_count_fields(table))),
            nullable_field("minValues"@, TypeModel::Struct(value_fields(table))),
            nullable_field("maxValues"@, TypeModel::Struct(value_fields(table))),
            nullable_field("tightBounds"@, boolean_type()),
        ],
{
    let values = value_fields(table);
    let counts = null_count_fields(table);
    assert forall|i: int, j: int| 0 <= i < j < values.len() implies (#[trigger] values[i]).name != (
    #[trigger] values[j]).name by {
        assert(table[i].name != table[j].name);
    }
    assert forall|i: int, j: int| 0 <= i < j < counts.len() implies (#[trigger] counts[i]).name != (
    #[trigger] counts[j]).name by {
        assert(table[i].name != table[j].name);
    }
    lemma_distinct_same(values);
    lemma_distinct_same(counts);
    reveal_strlit("numRecords");
    reveal_strlit("nullCount");
    reveal_strlit("minValues");
    reveal_strlit("maxValues");
    reveal_strlit("tightBounds");
    assert("numRecords"@.len() == 10);
    assert("nullCount"@.len() == 9 && "nullCount"@[0] == 'n');
    assert("minValues"@.len() == 9 && "minValues"@[0] == 'm' && "minValues"@[1] == 'i');
    assert("maxValues"@.len() == 9 && "maxValues"@[0] == 'm' && "maxValues"@[1] == 'a');
    assert("tightBounds"@.len() == 11);
    let list = seq![
        nullable_field("numRecords"@, long_type()),
        nullable_field("nullCount"@, TypeModel::Struct(counts)),
        nullable_field("minValues"@, TypeModel::Struct(values)),
        nullable_field("maxValues"@, TypeModel::Struct(values)),
        nullable_field("tightBounds"@, boolean_type()),
    ];
    assert(apart(list));
    lemma_distinct_same(list);
    assert(list =~= Seq::empty().push(nullable_field(DELTA_STATS_NUM_RECORDS@, long_type())).push(
        nullable_field(DELTA_STATS_NULL_COUNT@, TypeModel::Struct(counts)),
    ).push(nullable_field(DELTA_STATS_MIN_VALUES@, TypeModel::Struct(values))).push(
        nullable_field(DELTA_STATS_MAX_VALUES@, TypeModel::Struct(values)),
    ).push(nullable_field(DELTA_STATS_TIGHT_BOUNDS@, boolean_type())));
}

/// The content statistics of a column of primitive type hold bounds of that very type, whether
/// they are tight, and the count of its values; the count of its nulls exactly where it can be
/// null; that of values that are no number exactly for floating point; and the average size
/// exactly for strings and binaries. All of them can be null.
pub proof fn law_content_statistics_have_the_types_of_columns(table: Seq<FieldModel>, i: int)
    requires
        apart(table),
        0 <= i < table.len(),
        table[i].data_type is Primitive,
    ensures
        find_field(content_stats_of(table), table[i].name) matches Some(held) && held.nullable
            && (held.data_type matches TypeModel::Struct(stats) && {
            let primitive = table[i].data_type->Primitive_0;
            &&& find_field(stats, "lower_bound"@) == Some(
                nullable_field("lower_bound"@, table[i].data_type),
            )
            &&& find_field(stats, "upper_bound"@) == Some(
                nullable_field("upper_bound"@, table[i].data_type),
            )
            &&& find_field(stats, "tight_bounds"@) == Some(
                nullable_field("tight_bounds"@, boolean_type()),
            )
            &&& find_field(stats, "value_count"@) == Some(
                nullable_field("value_count"@, long_type()),
            )
            &&& find_field(stats, "null_value_count"@) == if table[i].nullable {
                Some(nullable_field("null_value_count"@, long_type()))
            } else {
                None
            }
            &&& find_field(stats, "nan_value_count"@) == if primitive is Float
                || primitive is Double {
                Some(nullable_field("nan_value_count"@, long_type()))
            } else {
                None
            }
            &&& find_field(stats, "avg_value_size_in_bytes"@) == if primitive is String
                || primitive is Binary {
                Some(nullable_field("avg_value_size_in_bytes"@, integer_type()))
            } else {
                None
            }
        }),
{
    let primitive = table[i].data_type->Primitive_0;
    let nullable = table[i].nullable;
    let stats = primitive_stats(primitive, nullable);
    assert(column_stats(table[i]) == stats);
    lemma_stats_apart(table, table.len());
    let k = lemma_stats_place(table, table.len(), i);
    lemma_place(content_stats_of(table), k);
    lemma_stat_names(primitive, nullable);
    lemma_place(stats, 0);
    lemma_place(stats, 1);
    lemma_place(stats, 2);
    lemma_place(stats, 3);
    assert(stats[0].name == "lower_bound"@);
    assert(stats[1].name == "upper_bound"@);
    assert(stats[2].name == "tight_bounds"@);
    assert(stats[3].name == "value_count"@);
    lemma_field_index_bounds(stats, "null_value_count"@, 0);
    lemma_field_index_bounds(stats, "nan_value_count"@, 0);
    lemma_field_index_bounds(stats, "avg_value_size_in_bytes"@, 0);
    if stats.len() > 4 {
        lemma_place(stats, 4);
    }
    if stats.len() > 5 {
        lemma_place(stats, 5);
    }
}

/// No column within a struct has the name of a statistic.
pub open spec fn statistics_told_apart(table: Seq<FieldModel>) -> bool {
    forall|i: int, j: int|
        0 <= i < table.len() && (#[trigger] table[i]).data_type is Struct && 0 <= j
            < table[i].data_type->Struct_0.len() ==> !names_statistic(
            (#[trigger] table[i].data_type->Struct_0[j]).name,
        )
}

/// The names of statistics.
pub open spec fn names_statistic(name: Seq<char>) -> bool {
    ||| name == "lower_bound"@
    ||| name == "upper_bound"@
    ||| name == "tight_bounds"@
    ||| name == "value_count"@
    ||| name == "null_value_count"@
    ||| name == "nan_value_count"@
    ||| name == "avg_value_size_in_bytes"@
}

/// The fields of a struct type have different names.
proof fn lemma_distinct_apart(fields: Seq<FieldModel>)
    ensures
        apart(distinct_fields(fields)),
    decreases fields.len(),
{
    if fields.len() > 0 {
        let head = distinct_fields(fields.drop_last());
        let last = fields.last();
        lemma_distinct_apart(fields.drop_last());
        lemma_field_index_bounds(head, last.name, 0);
        let at = field_index(head, last.name, 0);
        let all = distinct_fields(fields);
        assert forall|i: int, j: int| 0 <= i < j < all.len() implies (#[trigger] all[i]).name != (
        #[trigger] all[j]).name by {
            if j < head.len() {
                assert(head[i].name != head[j].name);
                assert(all[i].name == head[i].name);
                assert(all[j].name == head[j].name);
            } else {
                assert(head[i].name != last.name);
            }
        }
    }
}

/// The type of a column is that of the field of its name, and of a nested one that of the field
/// within.
proof fn lemma_column_types(
    input: Seq<FieldModel>,
    data_type: TypeModel,
    first: Seq<char>,
    second: Seq<char>,
    third: Seq<char>,
)
    ensures
        find_field(input, first) matches Some(outer) ==> {
            &&& outer.data_type == data_type ==> fits(column(first), data_type, input)
            &&& outer.data_type matches TypeModel::Struct(fields) ==> (find_field(
                fields,
                second,
            ) matches Some(field) ==> {
                &&& field.data_type == data_type ==> fits(
                    nested_column(first, second),
                    data_type,
                    input,
                )
                &&& field.data_type matches TypeModel::Struct(within) ==> (find_field(
                    within,
                    third,
                ) matches Some(inner) ==> (inner.data_type == data_type ==> fits(
                    deep_column(first, second, third),
                    data_type,
                    input,
                )))
            })
        },
{
    reveal_with_fuel(type_at, 4);
}

/// A choice of two expressions of a type is of that type.
proof fn lemma_choice_fits(
    first: ExpressionModel,
    second: ExpressionModel,
    data_type: TypeModel,
    input: Seq<FieldModel>,
)
    requires
        fits(first, data_type, input),
        fits(second, data_type, input),
    ensures
        fits(coalesce(first, second), data_type, input),
{
    let items = seq![first, second];
    assert forall|i: int| 0 <= i < items.len() implies fits(
        #[trigger] items[i],
        data_type,
        input,
    ) by {
        assert(i == 0 || i == 1);
    }
}

/// The statistics that come from some place come from a column.
proof fn lemma_stats_from(columns: Seq<FieldModel>, n: nat, k: int) -> (i: int)
    requires
        n <= columns.len(),
        0 <= k < content_stats_fields(columns, n).len(),
    ensures
        0 <= i < n,
        content_stats_fields(columns, n)[k] == nullable_field(
            columns[i].name,
            TypeModel::Struct(column_stats(columns[i])),
        ),
    decreases n,
{
    let head = content_stats_fields(columns, (n - 1) as nat);
    if k < head.len() {
        lemma_stats_from(columns, (n - 1) as nat, k)
    } else {
        n - 1
    }
}

/// Each statistic of a column is read from log statistics of the very type that it has.
proof fn lemma_stat_fits(table: Seq<FieldModel>, i: int, m: int, input: Seq<FieldModel>)
    requires
        apart(table),
        statistics_told_apart(table),
        0 <= i < table.len(),
        0 <= m < column_stats(table[i]).len(),
        find_field(input, "stats_parsed"@) matches Some(field) && field.data_type
            == TypeModel::Struct(delta_stats_fields(table)),
    ensures
        fits(
            stat_source(table[i].name, column_stats(table[i])[m]),
            column_stats(table[i])[m].data_type,
            input,
        ),
{
    let name = table[i].name;
    let stats = column_stats(table[i]);
    let data_type = stats[m].data_type;
    let parsed = "stats_parsed"@;
    let delta_stats = delta_stats_fields(table);
    lemma_stat_names(PrimitiveType::Long, true);
    match table[i].data_type {
        TypeModel::Primitive(primitive) => {
            lemma_stat_names(primitive, table[i].nullable);
            lemma_log_statistics(table);
            lemma_place(delta_stats, 0);
            lemma_place(delta_stats, 1);
            lemma_place(delta_stats, 2);
            lemma_place(delta_stats, 3);
            lemma_place(delta_stats, 4);
            assert(delta_stats[0].name == "numRecords"@);
            assert(delta_stats[1].name == "nullCount"@);
            assert(delta_stats[2].name == "minValues"@);
            assert(delta_stats[3].name == "maxValues"@);
            assert(delta_stats[4].name == "tightBounds"@);
            lemma_place(value_fields(table), i);
            lemma_place(null_count_fields(table), i);
            assert(value_fields(table)[i].name == name);
            assert(null_count_fields(table)[i].name == name);
            lemma_column_types(input, data_type, parsed, "minValues"@, name);
            lemma_column_types(input, data_type, parsed, "maxValues"@, name);
            lemma_column_types(input, data_type, parsed, "nullCount"@, name);
            lemma_column_types(input, data_type, parsed, "numRecords"@, name);
            lemma_column_types(input, data_type, parsed, "tightBounds"@, name);
            if stats[m].name == "tight_bounds"@ {
                lemma_choice_fits(
                    nested_column(parsed, "tightBounds"@),
                    ExpressionModel::Literal(ScalarModel::Boolean(true)),
                    data_type,
                    input,
                );
            }
        },
        TypeModel::Struct(fields) => {
            law_statistics_belong_to_columns(fields, fields.len(), m);
            let j = choose|j: int|
                0 <= j < fields.len() && (#[trigger] fields[j]).name == stats[m].name;
            assert(!names_statistic(table[i].data_type->Struct_0[j].name));
        },
        _ => {},
    }
}

/// Content statistics are read from log statistics of the very types that they have: each bound
/// that is read has in the log statistics the type of the bound that it fills.
pub proof fn law_content_statistics_are_well_typed(table: Seq<FieldModel>, input: Seq<FieldModel>)
    requires
        apart(table),
        statistics_told_apart(table),
        find_field(input, "stats_parsed"@) matches Some(field) && field.data_type
            == TypeModel::Struct(delta_stats_fields(table)),
    ensures
        content_stats_expression(table, content_stats_of(table)) matches Ok(expression) && fits(
            expression,
            TypeModel::Struct(content_stats_of(table)),
            input,
        ),
{
    let amt = content_stats_of(table);
    law_content_statistics_can_be_made(table);
    let items = column_sources(table, amt, amt.len() as int)->Ok_0;
    assert forall|k: int| 0 <= k < items.len() implies fits(
        #[trigger] items[k],
        amt[k].data_type,
        input,
    ) by {
        let i = lemma_stats_from(table, table.len(), k);
        lemma_source_place(table, amt, amt.len() as int, k);
        let stats = column_stats(table[i]);
        let sources = stat_sources(table[i].name, stats);
        assert(items[k] == struct_from(sources));
        assert forall|m: int| 0 <= m < sources.len() implies fits(
            #[trigger] sources[m],
            stats[m].data_type,
            input,
        ) by {
            lemma_stat_fits(table, i, m, input);
        }
    }
}

/// An entry is well typed where its parts are.
proof fn lemma_entry_fits(
    table: Seq<FieldModel>,
    partition_type: Option<Seq<FieldModel>>,
    projection: ProjectionModel,
    input: Seq<FieldModel>,
)
    requires
        fits(projection.location, string_type(), input),
        fits(projection.file_size_in_bytes, long_type(), input),
        fits(projection.sequence_number, long_type(), input),
        fits(projection.record_count, long_type(), input),
        projection.dv_info matches Some(dv) ==> fits(
            dv,
            TypeModel::Struct(dv_info_fields()),
            input,
        ),
        projection.content_stats matches Some(stats) ==> fits(
            stats,
            TypeModel::Struct(content_stats_of(table)),
            input,
        ),
        projection.tags matches Some(tags) ==> fits(tags, string_map_type(), input),
        projection.partition matches Some(values) ==> partition_type is Some ==> fits(
            values,
            TypeModel::Struct(partition_type->0),
            input,
        ),
    ensures
        fits(
            entry_expression(entry_fields(table, partition_type), projection),
            TypeModel::Struct(entry_fields(table, partition_type)),
            input,
        ),
{
    let fields = entry_fields(table, partition_type);
    law_entry_fields(table, partition_type);
    law_tracking_fields();
    lemma_entry_names();
    assert(apart(fields)) by {
        let leading = match partition_type {
            Some(partition) => crate::projection::leading_entry_fields().push(
                nullable_field(crate::names::PARTITION@, TypeModel::Struct(partition)),
            ),
            None => crate::projection::leading_entry_fields(),
        };
        lemma_distinct_apart(
            leading.push(nullable_field(crate::names::SORT_ORDER_ID@, integer_type())).push(
                nullable_field(crate::names::RECORD_COUNT@, long_type()),
            ).push(nullable_field(crate::names::FILE_SIZE_IN_BYTES@, long_type())).push(
                nullable_field(
                    crate::names::CONTENT_STATS_FIELD_NAME@,
                    TypeModel::Struct(content_stats_of(table)),
                ),
            ).push(
                nullable_field(
                    crate::names::MANIFEST_INFO@,
                    crate::schema::struct_type(crate::projection::manifest_info_fields()),
                ),
            ).push(nullable_field(TAGS@, string_map_type())),
        );
    }
    lemma_tracking_fits(projection, input);
    let items = entry_field_expressions(fields, projection);
    assert forall|i: int| 0 <= i < items.len() implies fits(
        #[trigger] items[i],
        fields[i].data_type,
        input,
    ) by {
        lemma_place(fields, i);
        assert(items[i] == entry_field_expression(fields[i], projection));
        lemma_null_fits(fields[i].data_type, input);
        lemma_null_fits(integer_type(), input);
    }
}

/// The null of a type is of that type.
proof fn lemma_null_fits(data_type: TypeModel, input: Seq<FieldModel>)
    ensures
        fits(crate::expression::null_literal(data_type), data_type, input),
{
}

/// The tracking info of an entry is well typed.
proof fn lemma_tracking_fits(projection: ProjectionModel, input: Seq<FieldModel>)
    requires
        fits(projection.sequence_number, long_type(), input),
    ensures
        fits(
            tracking_expression(projection),
            TypeModel::Struct(tracking_fields()),
            input,
        ),
{
    law_tracking_fields();
    let fields = tracking_fields();
    match tracking_expression(projection) {
        ExpressionModel::Struct(items, _) => {
            assert(items.len() == 8 && fields.len() == 8);
            lemma_null_fits(long_type(), input);
            lemma_null_fits(crate::schema::binary_type(), input);
            assert forall|i: int| 0 <= i < items.len() implies fits(
                #[trigger] items[i],
                fields[i].data_type,
                input,
            ) by {
                assert(i == 0 || i == 1 || i == 2 || i == 3 || i == 4 || i == 5 || i == 6 || i
                    == 7);
            }
        },
        _ => {},
    }
}

/// The deletion vector is well typed over the flat columns.
proof fn lemma_flat_dv_fits(input: Seq<FieldModel>)
    requires
        find_field(input, "_dv_location"@) == Some(nullable_field("_dv_location"@, string_type())),
        find_field(input, "_dv_offset"@) == Some(nullable_field("_dv_offset"@, long_type())),
        find_field(input, "_dv_size_in_bytes"@) == Some(
            nullable_field("_dv_size_in_bytes"@, long_type()),
        ),
        find_field(input, "_dv_cardinality"@) == Some(
            nullable_field("_dv_cardinality"@, long_type()),
        ),
    ensures
        fits(flat_dv_expression(), TypeModel::Struct(dv_info_fields()), input),
{
    law_dv_info_fields();
    let fields = dv_info_fields();
    let path = "_dv_location"@;
    lemma_column_types(input, string_type(), path, path, path);
    lemma_column_types(input, long_type(), "_dv_offset"@, path, path);
    lemma_column_types(input, long_type(), "_dv_size_in_bytes"@, path, path);
    lemma_column_types(input, long_type(), "_dv_cardinality"@, path, path);
    match flat_dv_expression() {
        ExpressionModel::Struct(items, guard) => {
            assert(items.len() == 4 && fields.len() == 4);
            assert forall|i: int| 0 <= i < items.len() implies fits(
                #[trigger] items[i],
                fields[i].data_type,
                input,
            ) by {
                assert(i == 0 || i == 1 || i == 2 || i == 3);
            }
            assert(fits(column(path), string_type(), input));
            assert(fits(
                ExpressionModel::IsNotNull(Box::new(column(path))),
                boolean_type(),
                input,
            ));
        },
        _ => {},
    }
}

/// The requests of a replay are well typed: they read only columns that they are given, and each
/// value has the type of the field that it fills. The second step reads what the first hands on
/// and the flat columns, in their types.
pub proof fn law_replays_are_well_typed(
    snapshot_id: i64,
    commit_version: i64,
    table: Seq<FieldModel>,
    partition_type: Option<Seq<FieldModel>>,
)
    requires
        apart(table),
        statistics_told_apart(table),
    ensures
        fresh_processor(snapshot_id, commit_version, table, partition_type) matches Ok(processor)
            && {
            let first = processor.log_batch_request;
            let second = processor.action_request;
            &&& well_typed(first)
            &&& well_typed(second)
            &&& second.output_type == TypeModel::Struct(entry_fields(table, partition_type))
            &&& first.output_type matches TypeModel::Struct(handed) && forall|name: Seq<char>|
                #[trigger] find_field(second.input_schema, name) == find_field(
                    handed + flat_dv_fields(),
                    name,
                )
        },
{
    law_replays_can_always_start(snapshot_id, commit_version, table, partition_type);
    law_entries_hold_content_statistics(table, partition_type);
    law_content_statistics_can_be_made(table);
    law_entry_fields(table, partition_type);
    law_log_add_fields();
    law_flat_dv_fields();
    lemma_step_names();
    let delta_stats = delta_stats_fields(table);
    let processor = fresh_processor(snapshot_id, commit_version, table, partition_type)->Ok_0;
    let add = log_add_field();
    let parsed = stats_parsed_field(delta_stats);
    let flat = flat_dv_fields();
    let handed = Seq::empty().push(add).push(parsed);
    assert(apart(handed));
    lemma_distinct_same(handed);
    let all = handed + flat;
    assert(apart(all));
    let input = (Seq::empty().push(add) + flat).push(parsed);
    assert(input[0] == add && input[5] == parsed);
    assert(apart(input)) by {
        assert(input[1] == flat[0] && input[2] == flat[1] && input[3] == flat[2] && input[4]
            == flat[3]);
    }
    lemma_distinct_same(input);
    assert forall|name: Seq<char>| #[trigger] find_field(input, name) == find_field(all, name) by {
        lemma_same_found(input, all, name);
    }
    lemma_log_batch_fits(delta_stats);
    lemma_place(input, 0);
    lemma_place(input, 1);
    lemma_place(input, 2);
    lemma_place(input, 3);
    lemma_place(input, 4);
    lemma_place(input, 5);
    let stats_expression = content_stats_expression(table, content_stats_of(table))->Ok_0;
    law_content_statistics_are_well_typed(table, input);
    let projection = action_projection(
        snapshot_id,
        commit_version,
        stats_expression,
        partition_type is Some,
    );
    let adds = add.data_type->Struct_0;
    lemma_place(adds, 0);
    lemma_place(adds, 1);
    lemma_place(adds, 2);
    lemma_place(adds, 3);
    lemma_place(adds, 4);
    lemma_flat_dv_fits(input);
    lemma_column_types(input, string_type(), "add"@, "path"@, "path"@);
    lemma_column_types(input, long_type(), "add"@, "size"@, "path"@);
    lemma_column_types(input, long_type(), "add"@, "defaultRowCommitVersion"@, "path"@);
    lemma_column_types(input, string_map_type(), "add"@, "partitionValues"@, "path"@);
    lemma_column_types(input, string_map_type(), "add"@, "tags"@, "path"@);
    lemma_record_count_fits(table, input);
    lemma_choice_fits(
        nested_column("add"@, "defaultRowCommitVersion"@),
        long_literal(commit_version),
        long_type(),
        input,
    );
    lemma_entry_fits(table, partition_type, projection, input);
}

/// Two lists of the same fields, with different names, in another order: each name is found in
/// both.
proof fn lemma_same_found(one: Seq<FieldModel>, other: Seq<FieldModel>, name: Seq<char>)
    requires
        apart(one),
        apart(other),
        one.len() == 6,
        other.len() == 6,
        one[0] == other[0],
        one[1] == other[2],
        one[2] == other[3],
        one[3] == other[4],
        one[4] == other[5],
        one[5] == other[1],
    ensures
        find_field(one, name) == find_field(other, name),
{
    lemma_field_index_bounds(one, name, 0);
    lemma_field_index_bounds(other, name, 0);
    let i = field_index(one, name, 0);
    let j = field_index(other, name, 0);
    if i < 6 {
        let place = if i == 0 {
            0
        } else if i == 5 {
            1
        } else {
            i + 1
        };
        assert(one[i] == other[place]);
        lemma_place(other, place);
    } else if j < 6 {
        let place = if j == 0 {
            0
        } else if j == 1 {
            5
        } else {
            j - 1
        };
        assert(one[place] == other[j]);
        lemma_place(one, place);
    }
}

/// The record count of log statistics is a number.
proof fn lemma_record_count_fits(table: Seq<FieldModel>, input: Seq<FieldModel>)
    requires
        apart(table),
        find_field(input, "stats_parsed"@) matches Some(field) && field.data_type
            == TypeModel::Struct(delta_stats_fields(table)),
    ensures
        fits(crate::projection::parsed_record_count(), long_type(), input),
{
    lemma_log_statistics(table);
    lemma_place(delta_stats_fields(table), 0);
    lemma_column_types(input, long_type(), "stats_parsed"@, "numRecords"@, "numRecords"@);
    lemma_choice_fits(
        nested_column("stats_parsed"@, "numRecords"@),
        long_literal(0),
        long_type(),
        input,
    );
}

/// The first step of a replay is well typed.
proof fn lemma_log_batch_fits(delta_stats: Seq<FieldModel>)
    ensures
        well_typed(log_batch_request(delta_stats)),
        log_batch_request(delta_stats).output_type == TypeModel::Struct(
            Seq::empty().push(log_add_field()).push(stats_parsed_field(delta_stats)),
        ),
{
    law_log_add_fields();
    lemma_step_names();
    reveal_strlit("defaultRowCommitVersion");
    assert("defaultRowCommitVersion"@.len() == 23);
    let handed = Seq::empty().push(log_add_field()).push(stats_parsed_field(delta_stats));
    assert(apart(handed));
    lemma_distinct_same(handed);
    let within = Seq::empty().push(nullable_field("path"@, string_type())).push(
        nullable_field("size"@, long_type()),
    ).push(nullable_field("defaultRowCommitVersion"@, long_type())).push(
        nullable_field("stats"@, string_type()),
    ).push(nullable_field("partitionValues"@, string_map_type())).push(
        nullable_field("tags"@, string_map_type()),
    );
    assert(apart(within));
    lemma_distinct_same(within);
    let input = Seq::empty().push(nullable_field("add"@, TypeModel::Struct(within)));
    assert(apart(input));
    lemma_distinct_same(input);
    assert(log_batch_input_fields() == input);
    lemma_place(input, 0);
    lemma_place(within, 0);
    lemma_place(within, 1);
    lemma_place(within, 2);
    lemma_place(within, 3);
    lemma_place(within, 4);
    lemma_place(within, 5);
    lemma_column_types(input, string_type(), "add"@, "path"@, "path"@);
    lemma_column_types(input, long_type(), "add"@, "size"@, "path"@);
    lemma_column_types(input, long_type(), "add"@, "defaultRowCommitVersion"@, "path"@);
    lemma_column_types(input, string_type(), "add"@, "stats"@, "path"@);
    lemma_column_types(input, string_map_type(), "add"@, "partitionValues"@, "path"@);
    lemma_column_types(input, string_map_type(), "add"@, "tags"@, "path"@);
    match log_batch_request(delta_stats).expression {
        ExpressionModel::Struct(items, _) => {
            let adds = log_add_field().data_type->Struct_0;
            assert(fits(items[0], TypeModel::Struct(adds), input)) by {
                match items[0] {
                    ExpressionModel::Struct(parts, _) => {
                        assert(parts.len() == 5 && adds.len() == 5);
                        assert forall|i: int| 0 <= i < parts.len() implies fits(
                            #[trigger] parts[i],
                            adds[i].data_type,
                            input,
                        ) by {
                            assert(i == 0 || i == 1 || i == 2 || i == 3 || i == 4);
                        }
                    },
                    _ => {},
                }
            }
            assert(fits(items[1], TypeModel::Struct(delta_stats), input));
            assert(items.len() == 2);
            assert forall|i: int| 0 <= i < items.len() implies fits(
                #[trigger] items[i],
                handed[i].data_type,
                input,
            ) by {
                assert(i == 0 || i == 1);
            }
        },
        _ => {},
    }
}

/// The requests for rows of a scan are well typed, and the second step reads what the first
/// hands on, with the flat columns behind it where any row has a deletion vector.
pub proof fn law_scan_plans_are_well_typed(
    builder: BuilderModel,
    dv_rows: Seq<DvRowModel>,
    version: Version,
    snapshot_id: i64,
)
    requires
        apart(builder.table_schema),
        statistics_told_apart(builder.table_schema),
    ensures
        scan_plan(builder, dv_rows, version, snapshot_id) matches Ok(plan) ==> {
            let (first, dv_columns, second) = plan;
            &&& well_typed(first)
            &&& well_typed(second)
            &&& second.output_type == TypeModel::Struct(
                entry_fields(builder.table_schema, builder.partition_type),
            )
            &&& first.output_type matches TypeModel::Struct(handed) && second.input_schema
                == match dv_columns {
                Some(_) => handed + flat_dv_fields(),
                None => handed,
            }
        },
{
    let table = builder.table_schema;
    if let Ok((first, dv_columns, second)) = scan_plan(builder, dv_rows, version, snapshot_id) {
        lemma_scan_stats_fits(table);
        lemma_parsed_scan_fields(table);
        law_flat_dv_fields();
        lemma_step_names();
        let between = parsed_scan_fields(table);
        let all = between + flat_dv_fields();
        lemma_distinct_same(all);
        let input = second.input_schema;
        assert(input == between || input == all);
        assert(apart(input));
        assert(input[0] == between[0] && input[1] == between[1] && input[2] == between[2]
            && input[3] == between[3]);
        lemma_place(input, 0);
        lemma_place(input, 1);
        lemma_place(input, 2);
        lemma_place(input, 3);
        law_content_statistics_can_be_made(table);
        law_content_statistics_are_well_typed(table, input);
        let stats_expression = content_stats_expression(table, content_stats_of(table))->Ok_0;
        let projection = scan_projection(input, stats_expression, version, snapshot_id);
        lemma_record_count_fits(table, input);
        lemma_column_types(input, string_type(), "path"@, "path"@, "path"@);
        lemma_column_types(input, long_type(), "size"@, "path"@, "path"@);
        lemma_column_types(input, string_map_type(), "tags"@, "path"@, "path"@);
        lemma_field_index_bounds(input, "_dv_location"@, 0);
        if find_field(input, "_dv_location"@) is Some {
            assert(input == all);
            assert(all[4] == flat_dv_fields()[0] && all[5] == flat_dv_fields()[1] && all[6]
                == flat_dv_fields()[2] && all[7] == flat_dv_fields()[3]);
            lemma_place(all, 4);
            lemma_place(all, 5);
            lemma_place(all, 6);
            lemma_place(all, 7);
            lemma_flat_dv_fits(input);
        }
        lemma_entry_fits(table, builder.partition_type, projection, input);
    }
}

/// The first step for rows of a scan is well typed.
proof fn lemma_scan_stats_fits(table: Seq<FieldModel>)
    ensures
        well_typed(scan_stats_request(table)),
{
    lemma_step_names();
    lemma_parsed_scan_fields(table);
    let delta_stats = delta_stats_fields(table);
    let tags = Seq::empty().push(nullable_field("tags"@, string_map_type()));
    assert(apart(tags));
    lemma_distinct_same(tags);
    let input = Seq::empty().push(nullable_field("path"@, string_type())).push(
        nullable_field("size"@, long_type()),
    ).push(nullable_field("stats"@, string_type())).push(
        nullable_field("stats_parsed"@, TypeModel::Struct(delta_stats)),
    ).push(nullable_field("fileConstantValues"@, TypeModel::Struct(tags)));
    assert(apart(input));
    lemma_distinct_same(input);
    assert(scan_fields(table) == input);
    lemma_place(tags, 0);
    lemma_place(input, 0);
    lemma_place(input, 1);
    lemma_place(input, 2);
    lemma_place(input, 3);
    lemma_place(input, 4);
    lemma_column_types(input, string_type(), "path"@, "path"@, "path"@);
    lemma_column_types(input, long_type(), "size"@, "path"@, "path"@);
    lemma_column_types(input, string_type(), "stats"@, "path"@, "path"@);
    lemma_column_types(input, TypeModel::Struct(delta_stats), "stats_parsed"@, "path"@, "path"@);
    lemma_column_types(input, string_map_type(), "fileConstantValues"@, "tags"@, "path"@);
    let parse = ExpressionModel::ParseJson(Box::new(column("stats"@)), delta_stats);
    assert(fits(parse, TypeModel::Struct(delta_stats), input));
    lemma_choice_fits(column("stats_parsed"@), parse, TypeModel::Struct(delta_stats), input);
    let output = parsed_scan_fields(table);
    match scan_stats_request(table).expression {
        ExpressionModel::Struct(items, _) => {
            assert(items.len() == 4 && output.len() == 4);
            assert forall|i: int| 0 <= i < items.len() implies fits(
                #[trigger] items[i],
                output[i].data_type,
                input,
            ) by {
                assert(i == 0 || i == 1 || i == 2 || i == 3);
            }
        },
        _ => {},
    }
}

/// The transforms of write metadata are well typed where the first column that has statistics is
/// of primitive type: only such a column has a value count.
pub proof fn law_writes_are_well_typed(
    table: Seq<FieldModel>,
    partition_type: Option<Seq<FieldModel>>,
    version: Version,
    snapshot_id: i64,
)
    requires
        apart(table),
        content_stats_of(table).len() > 0 ==> exists|i: int|
            0 <= i < table.len() && (#[trigger] table[i]).data_type is Primitive && table[i].name
                == content_stats_of(table)[0].name,
    ensures
        ({
            let output = entry_fields(table, partition_type);
            let partitioned = partition_type is Some;
            let stats = content_stats_of(table);
            let with_stats = write_request(output, partitioned, version, snapshot_id, Some(stats));
            let without = write_request(output, partitioned, version, snapshot_id, None);
            &&& well_typed(with_stats)
            &&& well_typed(without)
            &&& with_stats.output_type == TypeModel::Struct(output)
            &&& without.output_type == TypeModel::Struct(output)
        }),
{
    let stats = content_stats_of(table);
    lemma_write_fits(table, partition_type, version, snapshot_id, None);
    lemma_write_input(stats);
    let input = write_fields(stats);
    if stats.len() > 0 {
        let i = choose|i: int|
            0 <= i < table.len() && (#[trigger] table[i]).data_type is Primitive && table[i].name
                == stats[0].name;
        law_content_statistics_have_the_types_of_columns(table, i);
        lemma_stats_apart(table, table.len());
        lemma_place(stats, 0);
        lemma_column_types(input, long_type(), "stats"@, stats[0].name, "value_count"@);
        lemma_choice_fits(
            deep_column("stats"@, stats[0].name, "value_count"@),
            long_literal(0),
            long_type(),
            input,
        );
    }
    lemma_write_fits(table, partition_type, version, snapshot_id, Some(stats));
}

/// The columns of write metadata are found.
proof fn lemma_write_input(stats: Seq<FieldModel>)
    ensures
        ({
            let input = write_fields(stats);
            &&& find_field(input, "path"@) matches Some(f) && f.data_type == string_type()
            &&& find_field(input, "partitionValues"@) matches Some(f) && f.data_type
                == string_map_type()
            &&& find_field(input, "size"@) matches Some(f) && f.data_type == long_type()
            &&& find_field(input, "modificationTime"@) matches Some(f) && f.data_type
                == long_type()
            &&& find_field(input, "stats"@) matches Some(f) && f.data_type == TypeModel::Struct(
                stats,
            )
        }),
{
    lemma_step_names();
    let list = Seq::empty().push(crate::schema::required_field("path"@, string_type())).push(
        crate::schema::required_field("partitionValues"@, string_map_type()),
    ).push(crate::schema::required_field("size"@, long_type())).push(
        crate::schema::required_field("modificationTime"@, long_type()),
    ).push(nullable_field("stats"@, TypeModel::Struct(stats)));
    assert(apart(list));
    lemma_distinct_same(list);
    lemma_place(list, 0);
    lemma_place(list, 1);
    lemma_place(list, 2);
    lemma_place(list, 3);
    lemma_place(list, 4);
}

/// A transform of write metadata is well typed where its record count is.
proof fn lemma_write_fits(
    table: Seq<FieldModel>,
    partition_type: Option<Seq<FieldModel>>,
    version: Version,
    snapshot_id: i64,
    stats: Option<Seq<FieldModel>>,
)
    requires
        stats matches Some(given) ==> given == content_stats_of(table) && fits(
            first_value_count(given),
            long_type(),
            write_fields(given),
        ),
    ensures
        well_typed(
            write_request(
                entry_fields(table, partition_type),
                partition_type is Some,
                version,
                snapshot_id,
                stats,
            ),
        ),
{
    let of = match stats {
        Some(given) => given,
        None => Seq::empty(),
    };
    let input = write_fields(of);
    lemma_write_input(of);
    let projection = write_projection(partition_type is Some, version, snapshot_id, stats);
    lemma_column_types(input, string_type(), "path"@, "path"@, "path"@);
    lemma_column_types(input, long_type(), "size"@, "path"@, "path"@);
    lemma_column_types(input, string_map_type(), "partitionValues"@, "path"@, "path"@);
    lemma_column_types(input, TypeModel::Struct(of), "stats"@, "path"@, "path"@);
    lemma_entry_fits(table, partition_type, projection, input);
}

/// The schema for reading commit files has every column that a replay reads, in its type: path
/// and deletion vector of both actions, the back reference of removes, and of adds all that goes
/// into the first step.
pub proof fn law_replays_read_columns_of_the_log()
    ensures
        ({
            let log = log_replay_fields();
            let add = type_at(log, seq!["add"@], 1);
            let remove = type_at(log, seq!["remove"@], 1);
            &&& add matches Some(TypeModel::Struct(fields)) && {
                &&& column_type(fields, "path"@) == Some(string_type())
                &&& column_type(fields, "size"@) == Some(long_type())
                &&& column_type(fields, "defaultRowCommitVersion"@) == Some(long_type())
                &&& column_type(fields, "stats"@) == Some(string_type())
                &&& column_type(fields, "partitionValues"@) == Some(string_map_type())
                &&& column_type(fields, "tags"@) == Some(string_map_type())
                &&& column_type(fields, "deletionVector"@) matches Some(TypeModel::Struct(dv)) && {
                    &&& column_type(dv, "storageType"@) == Some(string_type())
                    &&& column_type(dv, "pathOrInlineDv"@) == Some(string_type())
                    &&& column_type(dv, "offset"@) == Some(integer_type())
                    &&& column_type(dv, "sizeInBytes"@) == Some(integer_type())
                    &&& column_type(dv, "cardinality"@) == Some(long_type())
                }
            }
            &&& remove matches Some(TypeModel::Struct(fields)) && {
                &&& column_type(fields, "path"@) == Some(string_type())
                &&& column_type(fields, "deletionVector"@) matches Some(TypeModel::Struct(dv)) && {
                    &&& column_type(dv, "storageType"@) == Some(string_type())
                    &&& column_type(dv, "pathOrInlineDv"@) == Some(string_type())
                }
                &&& column_type(fields, "backReference"@) matches Some(TypeModel::Struct(back)) && {
                    &&& column_type(back, "manifest"@) == Some(string_type())
                    &&& column_type(back, "pos"@) == Some(long_type())
                }
            }
            &&& dedup_columns() == seq![
                ("add.path"@, string_type()),
                ("add.deletionVector.storageType"@, string_type()),
                ("add.deletionVector.pathOrInlineDv"@, string_type()),
                ("remove.path"@, string_type()),
                ("remove.deletionVector.storageType"@, string_type()),
                ("remove.deletionVector.pathOrInlineDv"@, string_type()),
                ("remove.backReference.manifest"@, string_type()),
                ("remove.backReference.pos"@, long_type()),
            ]
            &&& dv_source_columns(true) == seq![
                ("add.deletionVector.storageType"@, string_type()),
                ("add.deletionVector.pathOrInlineDv"@, string_type()),
                ("add.deletionVector.offset"@, integer_type()),
                ("add.deletionVector.sizeInBytes"@, integer_type()),
                ("add.deletionVector.cardinality"@, long_type()),
            ]
        }),
{
    lemma_step_names();
    reveal_strlit("remove");
    reveal_strlit("defaultRowCommitVersion");
    reveal_strlit("deletionVector");
    reveal_strlit("storageType");
    reveal_strlit("pathOrInlineDv");
    reveal_strlit("offset");
    reveal_strlit("sizeInBytes");
    reveal_strlit("cardinality");
    reveal_strlit("backReference");
    reveal_strlit("manifest");
    reveal_strlit("pos");
    assert("remove"@.len() == 6);
    assert("defaultRowCommitVersion"@.len() == 23);
    assert("deletionVector"@.len() == 14 && "deletionVector"@[0] == 'd');
    assert("storageType"@.len() == 11 && "storageType"@[0] == 's' && "storageType"@[1] == 't');
    assert("pathOrInlineDv"@.len() == 14 && "pathOrInlineDv"@[0] == 'p');
    assert("offset"@.len() == 6);
    assert("sizeInBytes"@.len() == 11 && "sizeInBytes"@[0] == 's' && "sizeInBytes"@[1] == 'i');
    assert("cardinality"@.len() == 11 && "cardinality"@[0] == 'c');
    assert("backReference"@.len() == 13);
    assert("manifest"@.len() == 8);
    assert("pos"@.len() == 3);
    let add_dv = add_dv_fields();
    assert(apart(add_dv));
    lemma_distinct_same(add_dv);
    lemma_place(add_dv, 0);
    lemma_place(add_dv, 1);
    lemma_place(add_dv, 2);
    lemma_place(add_dv, 3);
    lemma_place(add_dv, 4);
    let remove_dv = remove_dv_fields();
    assert(apart(remove_dv));
    lemma_distinct_same(remove_dv);
    lemma_place(remove_dv, 0);
    lemma_place(remove_dv, 1);
    let back = back_reference_fields();
    assert(apart(back));
    lemma_distinct_same(back);
    lemma_place(back, 0);
    lemma_place(back, 1);
    let adds = Seq::empty().push(nullable_field("path"@, string_type())).push(
        nullable_field("size"@, long_type()),
    ).push(nullable_field("defaultRowCommitVersion"@, long_type())).push(
        nullable_field("stats"@, string_type()),
    ).push(nullable_field("partitionValues"@, string_map_type())).push(
        nullable_field("tags"@, string_map_type()),
    ).push(nullable_field("deletionVector"@, TypeModel::Struct(add_dv)));
    assert(apart(adds));
    lemma_distinct_same(adds);
    lemma_place(adds, 0);
    lemma_place(adds, 1);
    lemma_place(adds, 2);
    lemma_place(adds, 3);
    lemma_place(adds, 4);
    lemma_place(adds, 5);
    lemma_place(adds, 6);
    let removes = Seq::empty().push(nullable_field("path"@, string_type())).push(
        nullable_field("deletionVector"@, TypeModel::Struct(remove_dv)),
    ).push(nullable_field("backReference"@, TypeModel::Struct(back)));
    assert(apart(removes));
    lemma_distinct_same(removes);
    lemma_place(removes, 0);
    lemma_place(removes, 1);
    lemma_place(removes, 2);
    let log = Seq::empty().push(nullable_field("add"@, TypeModel::Struct(adds))).push(
        nullable_field("remove"@, TypeModel::Struct(removes)),
    );
    assert(apart(log));
    lemma_distinct_same(log);
    assert(log_replay_fields() == log);
    lemma_place(log, 0);
    lemma_place(log, 1);
    reveal_with_fuel(type_at, 2);
}

/// The type of the field with a name.
pub open spec fn column_type(fields: Seq<FieldModel>, name: Seq<char>) -> Option<TypeModel> {
    match find_field(fields, name) {
        Some(field) => Some(field.data_type),
        None => None,
    }
}

} // verus!
