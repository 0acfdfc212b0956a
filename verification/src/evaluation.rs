//! What expressions mean: the value that an engine gives an expression over a row.
//!
//! Parsing of texts is the engine's own; everything else is fixed here.

use vstd::prelude::*;

use crate::expression::{ExpressionModel, ScalarModel, StepModel};
use crate::projection::RequestModel;
use crate::schema::{
    boolean_type, field_index, find_field, integer_type, long_type, string_map_type, string_type,
    FieldModel, TypeModel,
};

verus! {

/// A value of a column, or of a whole row.
pub ghost enum Datum {
    Null,
    /// A single value.
    Of(ScalarModel),
    /// A struct: its fields and one value for each.
    Struct(Seq<FieldModel>, Seq<Datum>),
    /// A map from strings to strings.
    Strings(Map<Seq<char>, Option<Seq<char>>>),
}

/// How an engine reads texts.
pub ghost struct EngineModel {
    /// A JSON text as a struct.
    pub read_json: spec_fn(Seq<char>, Seq<FieldModel>) -> Datum,
    /// The text of a partition value as a value of a type.
    pub read_value: spec_fn(Seq<char>, TypeModel) -> Datum,
}

impl Datum {
    /// The field of a struct by its name, null where there is no struct or no such field.
    pub open spec fn field(self, name: Seq<char>) -> Datum {
        match self {
            Datum::Struct(fields, values) => {
                let i = field_index(fields, name, 0);
                if i < fields.len() && i < values.len() {
                    values[i]
                } else {
                    Datum::Null
                }
            },
            _ => Datum::Null,
        }
    }

    /// The value, or another one where it is null.
    pub open spec fn or(self, other: Datum) -> Datum {
        if self is Null {
            other
        } else {
            self
        }
    }

    /// The string under a key of a string map, where there is one.
    pub open spec fn string_at(self, key: Seq<char>) -> Option<Seq<char>> {
        match self {
            Datum::Strings(map) => if map.contains_key(key) {
                map[key]
            } else {
                None
            },
            _ => None,
        }
    }
}

/// The value that a scalar is.
pub open spec fn scalar_value(scalar: ScalarModel) -> Datum {
    match scalar {
        ScalarModel::Null(_) => Datum::Null,
        _ => Datum::Of(scalar),
    }
}

/// A string as a value.
pub open spec fn text_value(text: Seq<char>) -> Datum {
    Datum::Of(ScalarModel::String(text))
}

/// A 64-bit number as a value.
pub open spec fn long_value(number: i64) -> Datum {
    Datum::Of(ScalarModel::Long(number))
}

/// A 32-bit number as a value.
pub open spec fn integer_value(number: i32) -> Datum {
    Datum::Of(ScalarModel::Integer(number))
}

/// A truth value as a value.
pub open spec fn bool_value(value: bool) -> Datum {
    Datum::Of(ScalarModel::Boolean(value))
}

/// What is found from a row along the first `n` names of a path.
pub open spec fn at_path(row: Datum, path: Seq<Seq<char>>, n: nat) -> Datum
    decreases n,
{
    if n == 0 {
        row
    } else {
        at_path(row, path, (n - 1) as nat).field(path[n - 1])
    }
}

/// The struct that a JSON text stands for, null where there is no text.
pub open spec fn json_value(engine: EngineModel, text: Datum, schema: Seq<FieldModel>) -> Datum {
    match text {
        Datum::Of(ScalarModel::String(json)) => (engine.read_json)(json, schema),
        _ => Datum::Null,
    }
}

/// The value of a field of a struct that is made of a string map: that under the field's name,
/// read as a value of the field's type.
pub open spec fn mapped_value(engine: EngineModel, map: Datum, field: FieldModel) -> Datum {
    match map.string_at(field.name) {
        Some(text) => (engine.read_value)(text, field.data_type),
        None => Datum::Null,
    }
}

/// The struct that a string map is turned into, null where there is no map.
pub open spec fn mapped_struct(engine: EngineModel, map: Datum, fields: Seq<FieldModel>) -> Datum {
    match map {
        Datum::Strings(_) => Datum::Struct(
            fields,
            Seq::new(fields.len(), |i: int| mapped_value(engine, map, fields[i])),
        ),
        _ => Datum::Null,
    }
}

/// The value of an expression over a row, where a value of the given type is asked for.
pub open spec fn evaluate(
    engine: EngineModel,
    expression: ExpressionModel,
    data_type: TypeModel,
    row: Datum,
) -> Datum
    decreases expression, 0nat, 0nat,
{
    match expression {
        ExpressionModel::Literal(scalar) => scalar_value(scalar),
        ExpressionModel::Column(path) => at_path(row, path, path.len()),
        ExpressionModel::IsNotNull(of) => bool_value(
            !(evaluate(engine, *of, data_type, row) is Null),
        ),
        ExpressionModel::Struct(items, guard) => {
            let there = match guard {
                Some(condition) => evaluate(engine, *condition, data_type, row) == bool_value(
                    true,
                ),
                None => true,
            };
            match data_type {
                TypeModel::Struct(fields) => if there {
                    Datum::Struct(
                        fields,
                        Seq::new(
                            items.len(),
                            |i: int|
                                if 0 <= i < items.len() {
                                    evaluate(engine, items[i], fields[i].data_type, row)
                                } else {
                                    arbitrary()
                                },
                        ),
                    )
                } else {
                    Datum::Null
                },
                _ => Datum::Null,
            }
        },
        ExpressionModel::Coalesce(items) => first_value(
            engine,
            items,
            data_type,
            row,
            items.len(),
        ),
        ExpressionModel::ParseJson(text, schema) => json_value(
            engine,
            evaluate(engine, *text, data_type, row),
            schema,
        ),
        ExpressionModel::MapToStruct(map) => match data_type {
            TypeModel::Struct(fields) => mapped_struct(
                engine,
                evaluate(engine, *map, data_type, row),
                fields,
            ),
            _ => Datum::Null,
        },
        ExpressionModel::Transform(path, steps) => match (
            at_path(row, path, path.len()),
            data_type,
        ) {
            (Datum::Struct(fields, values), TypeModel::Struct(output)) => Datum::Struct(
                output,
                transformed(engine, steps, output, fields, values, row, fields.len()),
            ),
            _ => Datum::Null,
        },
    }
}

/// The first value that is not null among those of the first `n` expressions.
pub open spec fn first_value(
    engine: EngineModel,
    items: Seq<ExpressionModel>,
    data_type: TypeModel,
    row: Datum,
    n: nat,
) -> Datum
    decreases items, 0nat, n,
{
    if n == 0 || n > items.len() {
        Datum::Null
    } else {
        first_value(engine, items, data_type, row, (n - 1) as nat).or(
            evaluate(engine, items[n - 1], data_type, row),
        )
    }
}

/// The values that the first `m` steps put behind a field, or in front of all fields.
pub open spec fn inserted(
    engine: EngineModel,
    steps: Seq<StepModel>,
    output: Seq<FieldModel>,
    row: Datum,
    behind: Option<Seq<char>>,
    so_far: nat,
    m: nat,
) -> Seq<Datum>
    decreases steps, 0nat, m,
{
    if m == 0 || m > steps.len() {
        Seq::empty()
    } else {
        let before = inserted(engine, steps, output, row, behind, so_far, (m - 1) as nat);
        match steps[m - 1] {
            StepModel::Inserted(after, expression) => if after == behind {
                before.push(
                    evaluate(
                        engine,
                        expression,
                        output[(so_far + before.len()) as int].data_type,
                        row,
                    ),
                )
            } else {
                before
            },
            _ => before,
        }
    }
}

/// The index of the last step among the first `m` that replaces or drops a field, -1 where there
/// is none.
pub open spec fn change_of(steps: Seq<StepModel>, name: Seq<char>, m: nat) -> int
    decreases m,
{
    if m == 0 || m > steps.len() {
        -1
    } else {
        let changes = match steps[m - 1] {
            StepModel::Replaced(of, _) => of == name,
            StepModel::Dropped(of) => of == name,
            StepModel::Inserted(_, _) => false,
        };
        if changes {
            m - 1
        } else {
            change_of(steps, name, (m - 1) as nat)
        }
    }
}

/// The values that come out of a transform up to the first `n` fields that go in: fields that no
/// step names pass through.
pub open spec fn transformed(
    engine: EngineModel,
    steps: Seq<StepModel>,
    output: Seq<FieldModel>,
    fields: Seq<FieldModel>,
    values: Seq<Datum>,
    row: Datum,
    n: nat,
) -> Seq<Datum>
    decreases steps, 1nat, n,
{
    if n == 0 || n > fields.len() {
        inserted(engine, steps, output, row, None, 0, steps.len())
    } else {
        let before = transformed(engine, steps, output, fields, values, row, (n - 1) as nat);
        let name = fields[n - 1].name;
        let change = change_of(steps, name, steps.len());
        let own = if 0 <= change < steps.len() {
            match steps[change] {
                StepModel::Replaced(_, expression) => before.push(
                    evaluate(engine, expression, output[before.len() as int].data_type, row),
                ),
                _ => before,
            }
        } else {
            before.push(values[n - 1])
        };
        own + inserted(engine, steps, output, row, Some(name), own.len(), steps.len())
    }
}

/// The value that a request asks for over a row.
pub open spec fn answer(engine: EngineModel, request: RequestModel, row: Datum) -> Datum {
    evaluate(engine, request.expression, request.output_type, row)
}

/// The type of what is found from a row along the first `n` names of a path.
pub open spec fn type_at(input: Seq<FieldModel>, path: Seq<Seq<char>>, n: nat) -> Option<TypeModel>
    decreases n,
{
    if n == 0 {
        Some(TypeModel::Struct(input))
    } else {
        match type_at(input, path, (n - 1) as nat) {
            Some(TypeModel::Struct(fields)) => match find_field(fields, path[n - 1]) {
                Some(field) => Some(field.data_type),
                None => None,
            },
            _ => None,
        }
    }
}

/// Whether a scalar is of a type. Only the types of constants that transforms use are told apart.
pub open spec fn scalar_fits(scalar: ScalarModel, data_type: TypeModel) -> bool {
    match scalar {
        ScalarModel::Integer(_) => data_type == integer_type(),
        ScalarModel::Long(_) => data_type == long_type(),
        ScalarModel::String(_) => data_type == string_type(),
        ScalarModel::Boolean(_) => data_type == boolean_type(),
        ScalarModel::Null(of) => data_type == of,
        _ => data_type is Primitive || data_type is Struct,
    }
}

/// Whether an expression gives values of a type over rows of a schema. Any column can be asked
/// for being null.
pub open spec fn fits(
    expression: ExpressionModel,
    data_type: TypeModel,
    input: Seq<FieldModel>,
) -> bool
    decreases expression,
{
    match expression {
        ExpressionModel::Literal(scalar) => scalar_fits(scalar, data_type),
        ExpressionModel::Column(path) => type_at(input, path, path.len()) == Some(data_type),
        ExpressionModel::IsNotNull(of) => data_type == boolean_type() && (
        *of matches ExpressionModel::Column(path) ==> type_at(input, path, path.len()) is Some),
        ExpressionModel::Struct(items, guard) => {
            &&& data_type matches TypeModel::Struct(fields) && items.len() == fields.len()
                && forall|i: int|
                0 <= i < items.len() ==> fits(
                    #[trigger] items[i],
                    fields[i].data_type,
                    input,
                )
            &&& guard matches Some(condition) ==> fits(*condition, boolean_type(), input)
        },
        ExpressionModel::Coalesce(items) => forall|i: int|
            0 <= i < items.len() ==> fits(#[trigger] items[i], data_type, input),
        ExpressionModel::ParseJson(text, schema) => data_type == TypeModel::Struct(schema)
            && fits(*text, string_type(), input),
        ExpressionModel::MapToStruct(map) => data_type is Struct && fits(
            *map,
            string_map_type(),
            input,
        ),
        ExpressionModel::Transform(path, _) => data_type is Struct && type_at(
            input,
            path,
            path.len(),
        ) matches Some(TypeModel::Struct(_)),
    }
}

/// Whether a request asks for values of its output type over rows of its input schema.
pub open spec fn well_typed(request: RequestModel) -> bool {
    fits(request.expression, request.output_type, request.input_schema)
}

} // verus!
