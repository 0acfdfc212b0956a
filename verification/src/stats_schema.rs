//! Schemas of statistics: as the log has them, and as entries have them.

use vstd::prelude::*;

use crate::error::{generic, outcome, DeltaResult, Error, ErrorModel};
use crate::expression::{
    coalesce, column, deep_column, nested_column, null_literal, struct_from, Expression,
    ExpressionList, ExpressionModel, Scalar, ScalarModel,
};
use crate::names::{
    AVG_VALUE_SIZE_IN_BYTES, DELTA_STATS_MAX_VALUES, DELTA_STATS_MIN_VALUES, DELTA_STATS_NULL_COUNT,
    DELTA_STATS_NUM_RECORDS, DELTA_STATS_TIGHT_BOUNDS, LOWER_BOUND, NAN_VALUE_COUNT,
    NULL_VALUE_COUNT, STATS_PARSED_NAME, TIGHT_BOUNDS, UPPER_BOUND, VALUE_COUNT,
};
use crate::schema::{
    boolean_type, distinct_fields, find_field, integer_type, long_type, nullable_field, struct_type,
    DataType, FieldList, FieldModel, PrimitiveType, StructField, StructType, TypeModel,
};
use crate::type_text::{describe_type, type_text};

verus! {

/// The fields of the value structs of log statistics: one for each column, of the column's
/// type.
pub open spec fn value_fields(table: Seq<FieldModel>) -> Seq<FieldModel> {
    Seq::new(table.len(), |i: int| nullable_field(table[i].name, table[i].data_type))
}

/// The fields of the null counts of log statistics: one number for each column.
pub open spec fn null_count_fields(table: Seq<FieldModel>) -> Seq<FieldModel> {
    Seq::new(table.len(), |i: int| nullable_field(table[i].name, long_type()))
}

/// The fields of log statistics.
pub open spec fn delta_stats_fields(table: Seq<FieldModel>) -> Seq<FieldModel> {
    distinct_fields(
        Seq::empty().push(nullable_field(DELTA_STATS_NUM_RECORDS@, long_type())).push(
            nullable_field(DELTA_STATS_NULL_COUNT@, struct_type(null_count_fields(table))),
        ).push(nullable_field(DELTA_STATS_MIN_VALUES@, struct_type(value_fields(table)))).push(
            nullable_field(DELTA_STATS_MAX_VALUES@, struct_type(value_fields(table))),
        ).push(nullable_field(DELTA_STATS_TIGHT_BOUNDS@, boolean_type())),
    )
}

/// Builds the schema of log statistics for a table schema: the number of records, null counts,
/// smallest and largest values by column, and whether the bounds are tight. The order of the
/// fields is that of checkpoints.
pub fn build_delta_stats_schema(table_schema: &StructType) -> (schema: StructType)
    ensures
        schema@ == delta_stats_fields(table_schema@),
{
    let mut minimums = FieldList::new();
    let mut maximums = FieldList::new();
    let mut null_counts = FieldList::new();
    let mut i: usize = 0;
    while i < table_schema.fields.len()
        invariant
            i <= table_schema.fields@.len(),
            minimums@ =~= value_fields(table_schema@).take(i as int),
            maximums@ =~= value_fields(table_schema@).take(i as int),
            null_counts@ =~= null_count_fields(table_schema@).take(i as int),
        decreases table_schema.fields@.len() - i,
    {
        let field = &table_schema.fields[i];
        let name = field.name.as_str();
        minimums = minimums.with(StructField::nullable(name, field.data_type.clone()));
        maximums = maximums.with(StructField::nullable(name, field.data_type.clone()));
        null_counts = null_counts.with(StructField::nullable(name, DataType::long()));
        i += 1;
    }
    assert(value_fields(table_schema@).take(i as int) =~= value_fields(table_schema@));
    assert(null_count_fields(table_schema@).take(i as int) =~= null_count_fields(table_schema@));
    StructType::new_unchecked(
        FieldList::new().with(
            StructField::nullable(DELTA_STATS_NUM_RECORDS, DataType::long()),
        ).with(
            StructField::nullable(
                DELTA_STATS_NULL_COUNT,
                DataType::structure(StructType::new_unchecked(null_counts)),
            ),
        ).with(
            StructField::nullable(
                DELTA_STATS_MIN_VALUES,
                DataType::structure(StructType::new_unchecked(minimums)),
            ),
        ).with(
            StructField::nullable(
                DELTA_STATS_MAX_VALUES,
                DataType::structure(StructType::new_unchecked(maximums)),
            ),
        ).with(StructField::nullable(DELTA_STATS_TIGHT_BOUNDS, DataType::boolean())),
    )
}

/// The statistics of a column of primitive type: bounds, counts, and what only some types
/// have.
pub open spec fn primitive_stats(primitive: PrimitiveType, nullable: bool) -> Seq<FieldModel> {
    let value = TypeModel::Primitive(primitive);
    let common = Seq::empty().push(nullable_field(LOWER_BOUND@, value)).push(
        nullable_field(UPPER_BOUND@, value),
    ).push(nullable_field(TIGHT_BOUNDS@, boolean_type())).push(
        nullable_field(VALUE_COUNT@, long_type()),
    );
    let counted = if nullable {
        common.push(nullable_field(NULL_VALUE_COUNT@, long_type()))
    } else {
        common
    };
    match primitive {
        PrimitiveType::Float | PrimitiveType::Double => counted.push(
            nullable_field(NAN_VALUE_COUNT@, long_type()),
        ),
        PrimitiveType::String | PrimitiveType::Binary => counted.push(
            nullable_field(AVG_VALUE_SIZE_IN_BYTES@, integer_type()),
        ),
        _ => counted,
    }
}

/// The fields of the content statistics of a column, none for arrays, maps and structs made up
/// of them.
pub open spec fn column_stats(column: FieldModel) -> Seq<FieldModel>
    decreases column, 0nat,
{
    match column.data_type {
        TypeModel::Primitive(primitive) => primitive_stats(primitive, column.nullable),
        TypeModel::Struct(fields) => content_stats_fields(fields, fields.len()),
        _ => Seq::empty(),
    }
}

/// The fields of the content statistics of the first `n` columns: one for each column that has
/// any.
pub open spec fn content_stats_fields(columns: Seq<FieldModel>, n: nat) -> Seq<FieldModel>
    decreases columns, n,
{
    if n == 0 || n > columns.len() {
        Seq::empty()
    } else {
        let head = content_stats_fields(columns, (n - 1) as nat);
        let stats = column_stats(columns[n - 1]);
        if stats.len() == 0 {
            head
        } else {
            head.push(nullable_field(columns[n - 1].name, TypeModel::Struct(stats)))
        }
    }
}

/// The fields of the content statistics of a table.
pub open spec fn content_stats_of(table: Seq<FieldModel>) -> Seq<FieldModel> {
    content_stats_fields(table, table.len())
}

/// The statistics of a column of primitive type.
fn primitive_stats_fields(primitive: PrimitiveType, nullable: bool) -> (list: FieldList)
    ensures
        list@ == primitive_stats(primitive, nullable),
{
    let mut list = FieldList::new().with(
        StructField::nullable(LOWER_BOUND, DataType::Primitive(primitive)),
    ).with(StructField::nullable(UPPER_BOUND, DataType::Primitive(primitive))).with(
        StructField::nullable(TIGHT_BOUNDS, DataType::boolean()),
    ).with(StructField::nullable(VALUE_COUNT, DataType::long()));
    if nullable {
        list = list.with(StructField::nullable(NULL_VALUE_COUNT, DataType::long()));
    }
    match primitive {
        PrimitiveType::Float => {
            list = list.with(StructField::nullable(NAN_VALUE_COUNT, DataType::long()));
        },
        PrimitiveType::Double => {
            list = list.with(StructField::nullable(NAN_VALUE_COUNT, DataType::long()));
        },
        PrimitiveType::String => {
            list = list.with(StructField::nullable(AVG_VALUE_SIZE_IN_BYTES, DataType::integer()));
        },
        PrimitiveType::Binary => {
            list = list.with(StructField::nullable(AVG_VALUE_SIZE_IN_BYTES, DataType::integer()));
        },
        _ => {},
    }
    list
}

/// The fields of the content statistics of a column.
fn column_stats_fields(column: &StructField) -> (list: FieldList)
    ensures
        list@ == column_stats(column@),
    decreases column, 0nat,
{
    match &column.data_type {
        DataType::Primitive(primitive) => primitive_stats_fields(*primitive, column.nullable),
        DataType::Struct(fields) => FieldList { items: stats_schema(&**fields).fields },
        _ => FieldList::new(),
    }
}

/// Builds the schema of the content statistics of a table: for each column a struct of its
/// statistics. Columns that have none are left out.
pub fn stats_schema(table_schema: &StructType) -> (schema: StructType)
    ensures
        schema@ == content_stats_of(table_schema@),
        schema@ == crate::schema::field_models(schema.fields@),
    decreases table_schema, 1nat,
{
    let mut list = FieldList::new();
    let mut i: usize = 0;
    while i < table_schema.fields.len()
        invariant
            i <= table_schema.fields@.len(),
            list@ == content_stats_fields(table_schema@, i as nat),
        decreases table_schema.fields@.len() - i,
    {
        let stats = column_stats_fields(&table_schema.fields[i]);
        assert(table_schema@[i as int] == table_schema.fields@[i as int]@);
        if stats.items.len() > 0 {
            let FieldList { items } = stats;
            let made = StructType { fields: items };
            assert(made@ =~= stats@);
            list = list.with(
                StructField::nullable(
                    table_schema.fields[i].name.as_str(),
                    DataType::structure(made),
                ),
            );
        }
        i += 1;
    }
    let FieldList { items } = list;
    let schema = StructType { fields: items };
    assert(schema@ =~= list@);
    schema
}

/// The error for statistics of a column that the table does not have.
pub open spec fn stats_column_unknown(column: Seq<char>) -> ErrorModel {
    generic("AMT stats field '"@ + column + "' has no matching column in the table schema"@)
}

/// The error for statistics that are no struct.
pub open spec fn stats_not_struct(column: Seq<char>, data_type: TypeModel) -> ErrorModel {
    generic(
        "Expected AMT stats field '"@ + column + "' to be a struct, got "@ + type_text(data_type),
    )
}

/// Where a statistic of a column comes from in the parsed log statistics.
pub open spec fn stat_source(column_name: Seq<char>, stat: FieldModel) -> ExpressionModel {
    if stat.name == LOWER_BOUND@ {
        deep_column(STATS_PARSED_NAME@, DELTA_STATS_MIN_VALUES@, column_name)
    } else if stat.name == UPPER_BOUND@ {
        deep_column(STATS_PARSED_NAME@, DELTA_STATS_MAX_VALUES@, column_name)
    } else if stat.name == TIGHT_BOUNDS@ {
        coalesce(
            nested_column(STATS_PARSED_NAME@, DELTA_STATS_TIGHT_BOUNDS@),
            ExpressionModel::Literal(ScalarModel::Boolean(true)),
        )
    } else if stat.name == VALUE_COUNT@ {
        nested_column(STATS_PARSED_NAME@, DELTA_STATS_NUM_RECORDS@)
    } else if stat.name == NULL_VALUE_COUNT@ {
        deep_column(STATS_PARSED_NAME@, DELTA_STATS_NULL_COUNT@, column_name)
    } else if stat.name == NAN_VALUE_COUNT@ {
        null_literal(long_type())
    } else if stat.name == AVG_VALUE_SIZE_IN_BYTES@ {
        null_literal(integer_type())
    } else {
        null_literal(stat.data_type)
    }
}

/// The expressions of the statistics of one column.
pub open spec fn stat_sources(column_name: Seq<char>, stats: Seq<FieldModel>) -> Seq<
    ExpressionModel,
> {
    Seq::new(stats.len(), |i: int| stat_source(column_name, stats[i]))
}

/// The expression of the content statistics of one column.
pub open spec fn column_source(
    table: Seq<FieldModel>,
    amt_field: FieldModel,
) -> Result<ExpressionModel, ErrorModel> {
    if find_field(table, amt_field.name) is None {
        Err(stats_column_unknown(amt_field.name))
    } else {
        match amt_field.data_type {
            TypeModel::Struct(stats) => Ok(struct_from(stat_sources(amt_field.name, stats))),
            _ => Err(stats_not_struct(amt_field.name, amt_field.data_type)),
        }
    }
}

/// The expressions of the content statistics of the first `n` columns; the error of the first
/// column that has one.
pub open spec fn column_sources(
    table: Seq<FieldModel>,
    amt: Seq<FieldModel>,
    n: int,
) -> Result<Seq<ExpressionModel>, ErrorModel>
    decreases n,
{
    if n <= 0 {
        Ok(Seq::empty())
    } else {
        match column_sources(table, amt, n - 1) {
            Ok(head) => match column_source(table, amt[n - 1]) {
                Ok(e) => Ok(head.push(e)),
                Err(e) => Err(e),
            },
            Err(e) => Err(e),
        }
    }
}

/// The expression of the content statistics of a table.
pub open spec fn content_stats_expression(
    table: Seq<FieldModel>,
    amt: Seq<FieldModel>,
) -> Result<ExpressionModel, ErrorModel> {
    match column_sources(table, amt, amt.len() as int) {
        Ok(columns) => Ok(struct_from(columns)),
        Err(e) => Err(e),
    }
}

/// An error among the first columns is the error of all of them.
proof fn lemma_column_error(table: Seq<FieldModel>, amt: Seq<FieldModel>, m: int, n: int)
    requires
        0 <= m <= n,
        column_sources(table, amt, m) is Err,
    ensures
        column_sources(table, amt, n) == column_sources(table, amt, m),
    decreases n,
{
    if m < n {
        lemma_column_error(table, amt, m, n - 1);
    }
}

/// Where a statistic of a column comes from in the parsed log statistics.
fn stat_source_expression(column_name: &str, stat: &StructField) -> (made: Expression)
    ensures
        made@ == stat_source(column_name@, stat@),
{
    if stat.name == LOWER_BOUND.to_owned() {
        Expression::deep_column(STATS_PARSED_NAME, DELTA_STATS_MIN_VALUES, column_name)
    } else if stat.name == UPPER_BOUND.to_owned() {
        Expression::deep_column(STATS_PARSED_NAME, DELTA_STATS_MAX_VALUES, column_name)
    } else if stat.name == TIGHT_BOUNDS.to_owned() {
        Expression::coalesce(
            Expression::nested_column(STATS_PARSED_NAME, DELTA_STATS_TIGHT_BOUNDS),
            Expression::literal(Scalar::Boolean(true)),
        )
    } else if stat.name == VALUE_COUNT.to_owned() {
        Expression::nested_column(STATS_PARSED_NAME, DELTA_STATS_NUM_RECORDS)
    } else if stat.name == NULL_VALUE_COUNT.to_owned() {
        Expression::deep_column(STATS_PARSED_NAME, DELTA_STATS_NULL_COUNT, column_name)
    } else if stat.name == NAN_VALUE_COUNT.to_owned() {
        Expression::null_literal(DataType::long())
    } else if stat.name == AVG_VALUE_SIZE_IN_BYTES.to_owned() {
        Expression::null_literal(DataType::integer())
    } else {
        Expression::null_literal(stat.data_type.clone())
    }
}

/// The expression of the content statistics of one column.
fn column_source_expression(table_schema: &StructType, amt_field: &StructField) -> (made: DeltaResult<
    Expression,
>)
    ensures
        outcome(made) == column_source(table_schema@, amt_field@),
{
    let column_name = amt_field.name.as_str();
    if table_schema.field(column_name).is_none() {
        let mut message = "AMT stats field '".to_owned();
        message.append(column_name);
        message.append("' has no matching column in the table schema");
        return Err(Error::generic(message));
    }
    let stats: &StructType = match &amt_field.data_type {
        DataType::Struct(stats) => &**stats,
        _ => {
            let mut message = "Expected AMT stats field '".to_owned();
            message.append(column_name);
            message.append("' to be a struct, got ");
            message.append(describe_type(&amt_field.data_type).as_str());
            return Err(Error::generic(message));
        },
    };
    let mut items = ExpressionList::new();
    let mut i: usize = 0;
    while i < stats.fields.len()
        invariant
            i <= stats.fields@.len(),
            items@ =~= stat_sources(column_name@, stats@).take(i as int),
        decreases stats.fields@.len() - i,
    {
        items = items.with(stat_source_expression(column_name, &stats.fields[i]));
        i += 1;
    }
    assert(stat_sources(column_name@, stats@).take(i as int) =~= stat_sources(
        column_name@,
        stats@,
    ));
    Ok(Expression::struct_from(items))
}

/// Builds the expression that turns parsed log statistics into content statistics.
///
/// The columns of `amt_schema` lead and are matched by name: it leaves out table columns
/// without statistics, so that pairing the two schemas by place would shift every column
/// behind the first omission onto the wrong statistics.
pub fn build_content_stats_from_delta_stats_parsed(
    table_schema: &StructType,
    amt_schema: &StructType,
) -> (made: DeltaResult<Expression>)
    ensures
        outcome(made) == content_stats_expression(table_schema@, amt_schema@),
{
    let mut columns = ExpressionList::new();
    let mut i: usize = 0;
    while i < amt_schema.fields.len()
        invariant
            i <= amt_schema.fields@.len(),
            column_sources(table_schema@, amt_schema@, i as int) == Ok::<
                Seq<ExpressionModel>,
                ErrorModel,
            >(columns@),
        decreases amt_schema.fields@.len() - i,
    {
        assert(amt_schema@[i as int] == amt_schema.fields@[i as int]@);
        match column_source_expression(table_schema, &amt_schema.fields[i]) {
            Ok(made) => {
                columns = columns.with(made);
            },
            Err(e) => {
                proof {
                    lemma_column_error(
                        table_schema@,
                        amt_schema@,
                        i + 1,
                        amt_schema@.len() as int,
                    );
                }
                return Err(e);
            },
        }
        i += 1;
    }
    Ok(Expression::struct_from(columns))
}

} // verus!
