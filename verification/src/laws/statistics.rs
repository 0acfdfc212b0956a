//! Laws of schemas, statistics and the transforms over them.

use vstd::prelude::*;

use crate::builder::Version;
use crate::expression::ExpressionModel;
use crate::ingest::scan_row_request;
use crate::names::{
    CONTENT_STATS_FIELD_NAME, CONTENT_TYPE, MANIFEST_INFO, PARQUET_FIELD_ID, STATS_PARSED_NAME,
    TAGS,
};
use crate::projection::{
    content_stats_in, entry_expression, entry_field_expression, entry_fields, partition_field,
    partition_fields, partition_type_of, ProjectionModel,
};
use crate::replay::fresh_processor;
use crate::schema::{
    distinct_fields, field_index, find_field, lemma_field_index_bounds, put_field, FieldModel,
    TypeModel,
};
use crate::stats_schema::{
    column_sources, column_stats, content_stats_expression, content_stats_fields, content_stats_of,
    stat_source,
};

verus! {

/// The statistics of a column come from the statistics of that column: wherever a statistic is
/// read from the values by column, it is read under the column's own name.
pub proof fn law_statistics_name_their_own_column(column_name: Seq<char>, stat: FieldModel)
    ensures
        stat_source(column_name, stat) matches ExpressionModel::Column(path) ==> {
            &&& path[0] == STATS_PARSED_NAME@
            &&& path.len() == 3 ==> path[2] == column_name
            &&& path.len() == 2 || path.len() == 3
        },
{
}

/// Arrays and maps have no statistics, and their place is not taken by anything.
pub proof fn law_arrays_and_maps_have_no_statistics(columns: Seq<FieldModel>, i: int)
    requires
        0 <= i < columns.len(),
        columns[i].data_type is Array || columns[i].data_type is MapOf,
    ensures
        column_stats(columns[i]).len() == 0,
        content_stats_fields(columns, (i + 1) as nat) == content_stats_fields(columns, i as nat),
{
    reveal_with_fuel(content_stats_fields, 2);
    reveal_with_fuel(column_stats, 2);
}

/// A column of primitive type has statistics, under its own name.
pub proof fn law_primitive_columns_have_statistics(columns: Seq<FieldModel>, i: int)
    requires
        0 <= i < columns.len(),
        columns[i].data_type is Primitive,
    ensures
        content_stats_fields(columns, (i + 1) as nat).len() == content_stats_fields(
            columns,
            i as nat,
        ).len() + 1,
        content_stats_fields(columns, (i + 1) as nat).last().name == columns[i].name,
        content_stats_fields(columns, (i + 1) as nat).last().data_type == TypeModel::Struct(
            column_stats(columns[i]),
        ),
{
    reveal_with_fuel(content_stats_fields, 2);
    reveal_with_fuel(column_stats, 2);
}

/// Every statistic is a struct and belongs to a column of the table.
pub proof fn law_statistics_belong_to_columns(columns: Seq<FieldModel>, n: nat, i: int)
    requires
        n <= columns.len(),
        0 <= i < content_stats_fields(columns, n).len(),
    ensures
        content_stats_fields(columns, n)[i].data_type is Struct,
        exists|j: int|
            0 <= j < n && (#[trigger] columns[j]).name == content_stats_fields(columns, n)[i].name,
    decreases n,
{
    if n > 0 {
        let head = content_stats_fields(columns, (n - 1) as nat);
        if i < head.len() {
            law_statistics_belong_to_columns(columns, (n - 1) as nat, i);
            let j = choose|j: int| 0 <= j < n - 1 && (#[trigger] columns[j]).name == head[i].name;
            assert(columns[j].name == content_stats_fields(columns, n)[i].name);
        } else {
            assert(columns[n - 1].name == content_stats_fields(columns, n)[i].name);
        }
    }
}

/// A field that is there is found.
pub proof fn lemma_find_field(fields: Seq<FieldModel>, name: Seq<char>, j: int)
    requires
        0 <= j < fields.len(),
        fields[j].name == name,
    ensures
        find_field(fields, name) is Some,
{
    lemma_field_index_bounds(fields, name, 0);
    if field_index(fields, name, 0) == fields.len() {
        assert(fields[j].name != name);
    }
}

/// The columns of content statistics can all be read from log statistics.
proof fn lemma_columns_readable(table: Seq<FieldModel>, amt: Seq<FieldModel>, n: int)
    requires
        0 <= n <= amt.len(),
        forall|i: int|
            0 <= i < amt.len() ==> (#[trigger] amt[i]).data_type is Struct && find_field(
                table,
                amt[i].name,
            ) is Some,
    ensures
        column_sources(table, amt, n) matches Ok(sources) && sources.len() == n,
    decreases n,
{
    if n > 0 {
        lemma_columns_readable(table, amt, n - 1);
        assert(amt[n - 1].data_type is Struct);
    }
}

/// The content statistics of a table can always be made of its log statistics: there is one
/// expression for each of their columns.
pub proof fn law_content_statistics_can_be_made(table: Seq<FieldModel>)
    ensures
        content_stats_expression(table, content_stats_of(table)) matches Ok(
            ExpressionModel::Struct(columns, None),
        ) && columns.len() == content_stats_of(table).len(),
{
    let amt = content_stats_of(table);
    assert forall|i: int| 0 <= i < amt.len() implies (#[trigger] amt[i]).data_type is Struct
        && find_field(table, amt[i].name) is Some by {
        law_statistics_belong_to_columns(table, table.len(), i);
        let j = choose|j: int| 0 <= j < table.len() && (#[trigger] table[j]).name == amt[i].name;
        lemma_find_field(table, amt[i].name, j);
    }
    lemma_columns_readable(table, amt, amt.len() as int);
}

/// A field that is put in is found under its name, and hides no other.
proof fn lemma_put_field(fields: Seq<FieldModel>, field: FieldModel, name: Seq<char>)
    ensures
        find_field(put_field(fields, field), name) == (if field.name == name {
            Some(field)
        } else {
            find_field(fields, name)
        }),
{
    let after = put_field(fields, field);
    let at = field_index(fields, field.name, 0);
    lemma_field_index_bounds(fields, field.name, 0);
    lemma_field_index_bounds(fields, name, 0);
    lemma_field_index_bounds(after, name, 0);
    let found = field_index(after, name, 0);
    let before = field_index(fields, name, 0);
    if field.name == name {
        assert(after[at].name == name);
        if found > at {
            assert(after[at].name != name);
        }
        if found < at {
            assert(fields[found].name != name);
            assert(after[found] == fields[found]);
        }
    } else {
        if before < fields.len() {
            assert(after[before] == fields[before]);
            if found > before {
                assert(after[before].name != name);
            }
            if found < before {
                assert(fields[found].name != name);
            }
        } else if found < after.len() {
            if found < fields.len() {
                assert(fields[found].name != name);
            }
        }
    }
}

/// The last field of a list is found in its struct type, and hides no other.
pub proof fn lemma_distinct_push(fields: Seq<FieldModel>, field: FieldModel, name: Seq<char>)
    ensures
        find_field(distinct_fields(fields.push(field)), name) == (if field.name == name {
            Some(field)
        } else {
            find_field(distinct_fields(fields), name)
        }),
{
    assert(fields.push(field).drop_last() =~= fields);
    lemma_put_field(distinct_fields(fields), field, name);
}

/// The schema of entries holds the content statistics of the table.
pub proof fn law_entries_hold_content_statistics(
    table: Seq<FieldModel>,
    partition_type: Option<Seq<FieldModel>>,
)
    ensures
        content_stats_in(entry_fields(table, partition_type)) == content_stats_of(table),
{
    reveal_strlit("contentStats");
    reveal_strlit("tags");
    reveal_strlit("manifestInfo");
    assert(TAGS@.len() != CONTENT_STATS_FIELD_NAME@.len());
    assert(MANIFEST_INFO@[0] != CONTENT_STATS_FIELD_NAME@[0]);
    let name = CONTENT_STATS_FIELD_NAME@;
    let leading = match partition_type {
        Some(partition) => crate::projection::leading_entry_fields().push(
            crate::schema::nullable_field(
                crate::names::PARTITION@,
                TypeModel::Struct(partition),
            ),
        ),
        None => crate::projection::leading_entry_fields(),
    };
    let counted = leading.push(
        crate::schema::nullable_field(
            crate::names::SORT_ORDER_ID@,
            crate::schema::integer_type(),
        ),
    ).push(
        crate::schema::nullable_field(crate::names::RECORD_COUNT@, crate::schema::long_type()),
    ).push(
        crate::schema::nullable_field(
            crate::names::FILE_SIZE_IN_BYTES@,
            crate::schema::long_type(),
        ),
    );
    let stats = crate::schema::nullable_field(name, TypeModel::Struct(content_stats_of(table)));
    let info = crate::schema::nullable_field(
        MANIFEST_INFO@,
        crate::schema::struct_type(crate::projection::manifest_info_fields()),
    );
    let tags = crate::schema::nullable_field(TAGS@, crate::schema::string_map_type());
    lemma_distinct_push(counted.push(stats).push(info), tags, name);
    lemma_distinct_push(counted.push(stats), info, name);
    lemma_distinct_push(counted, stats, name);
}

/// A replay can always be started: its requests can be made for every table.
pub proof fn law_replays_can_always_start(
    snapshot_id: i64,
    commit_version: i64,
    table: Seq<FieldModel>,
    partition_type: Option<Seq<FieldModel>>,
)
    ensures
        fresh_processor(snapshot_id, commit_version, table, partition_type) is Ok,
{
    law_entries_hold_content_statistics(table, partition_type);
    law_content_statistics_can_be_made(table);
}

/// Rows of a scan can always be turned into entries.
pub proof fn law_scan_rows_can_always_be_transformed(
    table: Seq<FieldModel>,
    output: Seq<FieldModel>,
    input: Seq<FieldModel>,
    version: Version,
    snapshot_id: i64,
)
    ensures
        scan_row_request(table, output, input, version, snapshot_id) is Ok,
{
    law_content_statistics_can_be_made(table);
}

/// A transform gives one expression for each field of an entry: all transforms make data
/// entries.
pub proof fn law_transforms_make_data_entries(
    fields: Seq<FieldModel>,
    projection: ProjectionModel,
    i: int,
)
    requires
        0 <= i < fields.len(),
    ensures
        entry_expression(fields, projection) matches ExpressionModel::Struct(items, None)
            && items.len() == fields.len() && items[i] == entry_field_expression(
            fields[i],
            projection,
        ),
        fields[i].name == CONTENT_TYPE@ ==> entry_field_expression(fields[i], projection)
            == crate::expression::integer_literal(0),
{
}

/// The fields of a list of partition fields.
proof fn lemma_partition_fields(columns: Seq<Seq<char>>, table: Seq<FieldModel>, n: int, i: int)
    requires
        0 <= n <= columns.len(),
        0 <= i < partition_fields(columns, table, n).len(),
    ensures
        ({
            let field = partition_fields(columns, table, n)[i];
            &&& field.nullable
            &&& columns.contains(field.name)
            &&& partition_field(field.name, table) == Some(field)
        }),
    decreases n,
{
    if n > 0 {
        let head = partition_fields(columns, table, n - 1);
        if i < head.len() {
            lemma_partition_fields(columns, table, n - 1, i);
        } else {
            assert(columns[n - 1] == partition_fields(columns, table, n)[i].name);
        }
    }
}

/// The fields of a struct type are fields of the list that it was made of.
proof fn lemma_distinct_from(fields: Seq<FieldModel>, i: int)
    requires
        0 <= i < distinct_fields(fields).len(),
    ensures
        fields.contains(distinct_fields(fields)[i]),
    decreases fields.len(),
{
    let head = fields.drop_last();
    let before = distinct_fields(head);
    let field = distinct_fields(fields)[i];
    lemma_field_index_bounds(before, fields.last().name, 0);
    if field == fields.last() {
        assert(fields[fields.len() - 1] == field);
    } else {
        assert(before[i] == field);
        lemma_distinct_from(head, i);
        let j = choose|j: int| 0 <= j < head.len() && head[j] == field;
        assert(fields[j] == field);
    }
}

/// Partition fields are nullable, have the names of partition columns and the types of those
/// columns, and carry no metadata but a Parquet field id.
pub proof fn law_partition_fields_are_nullable(
    columns: Seq<Seq<char>>,
    table: Seq<FieldModel>,
    fields: Seq<FieldModel>,
    i: int,
)
    requires
        partition_type_of(columns, table) == Some(fields),
        0 <= i < fields.len(),
    ensures
        fields[i].nullable,
        columns.contains(fields[i].name),
        find_field(table, fields[i].name) matches Some(column) && column.data_type
            == fields[i].data_type,
        forall|key: Seq<char>| #[trigger]
            fields[i].metadata.contains_key(key) ==> key == PARQUET_FIELD_ID@,
{
    let list = partition_fields(columns, table, columns.len() as int);
    lemma_distinct_from(list, i);
    let j = choose|j: int| 0 <= j < list.len() && list[j] == fields[i];
    lemma_partition_fields(columns, table, columns.len() as int, j);
}

/// A table without partition columns has no partition type.
pub proof fn law_no_partition_columns_no_partition_type(table: Seq<FieldModel>)
    ensures
        partition_type_of(Seq::empty(), table) is None,
{
}

/// The statistics of a struct column are those of its fields, each under the name of its field;
/// the struct has none where no field has any.
pub proof fn law_struct_columns_nest_statistics(
    columns: Seq<FieldModel>,
    i: int,
    fields: Seq<FieldModel>,
)
    requires
        0 <= i < columns.len(),
        columns[i].data_type == TypeModel::Struct(fields),
    ensures
        column_stats(columns[i]) == content_stats_of(fields),
        content_stats_of(fields).len() == 0 ==> content_stats_fields(columns, (i + 1) as nat)
            == content_stats_fields(columns, i as nat),
        content_stats_of(fields).len() > 0 ==> content_stats_fields(columns, (i + 1) as nat)
            == content_stats_fields(columns, i as nat).push(
            crate::schema::nullable_field(
                columns[i].name,
                TypeModel::Struct(content_stats_of(fields)),
            ),
        ),
{
    reveal_with_fuel(content_stats_fields, 2);
    reveal_with_fuel(column_stats, 2);
}

/// Content statistics are refused exactly where one of their columns is none of the table, or is
/// no struct.
pub proof fn law_unmatched_statistics_are_refused(
    table: Seq<FieldModel>,
    amt: Seq<FieldModel>,
    n: int,
)
    requires
        0 <= n <= amt.len(),
    ensures
        column_sources(table, amt, n) is Err <==> exists|i: int|
            0 <= i < n && (find_field(table, (#[trigger] amt[i]).name) is None
                || !(amt[i].data_type is Struct)),
    decreases n,
{
    if n > 0 {
        law_unmatched_statistics_are_refused(table, amt, n - 1);
        if column_sources(table, amt, n - 1) is Err {
            let i = choose|i: int|
                0 <= i < n - 1 && (find_field(table, (#[trigger] amt[i]).name) is None
                    || !(amt[i].data_type is Struct));
            assert(find_field(table, amt[i].name) is None || !(amt[i].data_type is Struct));
        } else if column_sources(table, amt, n) is Err {
            assert(find_field(table, amt[n - 1].name) is None || !(amt[n - 1].data_type is Struct));
        }
    }
}

} // verus!
