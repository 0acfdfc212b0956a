//! Scalars and the expressions that an engine evaluates over batches of rows, with their
//! mathematical models.

use vstd::prelude::*;

use crate::schema::{field_models, DataType, FieldModel, StructField, StructType, TypeModel};

verus! {

/// A single value. Floating-point values are held by their bits.
#[derive(Debug, PartialEq, Eq)]
pub enum Scalar {
    Integer(i32),
    Long(i64),
    Short(i16),
    Byte(i8),
    Float(u32),
    Double(u64),
    String(String),
    Boolean(bool),
    Timestamp(i64),
    TimestampNtz(i64),
    Date(i32),
    Binary(Vec<u8>),
    Decimal(i128, u8, u8),
    Struct(StructData),
    Null(DataType),
}

/// A struct value: its fields and one value for each.
#[derive(Debug, PartialEq, Eq)]
pub struct StructData {
    pub fields: Vec<StructField>,
    pub values: Vec<Scalar>,
}

/// An expression over the columns of a batch.
#[derive(Debug, PartialEq, Eq)]
pub enum Expression {
    /// A constant.
    Literal(Scalar),
    /// A column, by its path.
    Column(Vec<String>),
    /// A predicate used as a value.
    Predicate(Box<Predicate>),
    /// A struct of expressions, null where the second part is there and not true.
    Struct(Vec<Expression>, Option<Box<Expression>>),
    /// The first expression that is not null.
    Coalesce(Vec<Expression>),
    /// A JSON string parsed to a struct type.
    ParseJson(Box<Expression>, Box<StructType>),
    /// A string map turned into the struct that the output asks for.
    MapToStruct(Box<Expression>),
    /// The input struct with some fields changed.
    Transform(Transform),
}

/// A predicate over the columns of a batch.
#[derive(Debug, PartialEq, Eq)]
pub enum Predicate {
    IsNotNull(Expression),
}

/// A change to a struct: fields that no step names pass through.
#[derive(Debug, PartialEq, Eq)]
pub struct Transform {
    /// The path of the struct, empty for the row itself.
    pub input_path: Vec<String>,
    /// The changes.
    pub steps: Vec<FieldTransform>,
}

/// One change of a [`Transform`].
#[derive(Debug, PartialEq, Eq)]
pub enum FieldTransform {
    /// The expression stands in place of the field.
    Replaced(String, Expression),
    /// The field is left out.
    Dropped(String),
    /// The expression is put behind the field, or in front of all where none is named.
    Inserted(Option<String>, Expression),
}

/// The model of a [`Scalar`].
#[verifier::ext_equal]
pub ghost enum ScalarModel {
    Integer(i32),
    Long(i64),
    Short(i16),
    Byte(i8),
    Float(u32),
    Double(u64),
    String(Seq<char>),
    Boolean(bool),
    Timestamp(i64),
    TimestampNtz(i64),
    Date(i32),
    Binary(Seq<u8>),
    Decimal(i128, u8, u8),
    Struct(StructDataModel),
    Null(TypeModel),
}

/// The model of a [`StructData`].
#[verifier::ext_equal]
pub ghost struct StructDataModel {
    pub fields: Seq<FieldModel>,
    pub values: Seq<ScalarModel>,
}

/// The model of an [`Expression`].
#[verifier::ext_equal]
pub ghost enum ExpressionModel {
    Literal(ScalarModel),
    Column(Seq<Seq<char>>),
    IsNotNull(Box<ExpressionModel>),
    Struct(Seq<ExpressionModel>, Option<Box<ExpressionModel>>),
    Coalesce(Seq<ExpressionModel>),
    ParseJson(Box<ExpressionModel>, Seq<FieldModel>),
    MapToStruct(Box<ExpressionModel>),
    Transform(Seq<Seq<char>>, Seq<StepModel>),
}

/// The model of a [`FieldTransform`].
#[verifier::ext_equal]
pub ghost enum StepModel {
    Replaced(Seq<char>, ExpressionModel),
    Dropped(Seq<char>),
    Inserted(Option<Seq<char>>, ExpressionModel),
}

/// The texts of a list of strings.
pub open spec fn texts(strings: Seq<String>) -> Seq<Seq<char>> {
    Seq::new(strings.len(), |i: int| strings[i]@)
}

impl Scalar {
    /// The model of the scalar.
    pub open spec fn view(&self) -> ScalarModel
        decreases self,
    {
        match self {
            Scalar::Integer(v) => ScalarModel::Integer(*v),
            Scalar::Long(v) => ScalarModel::Long(*v),
            Scalar::Short(v) => ScalarModel::Short(*v),
            Scalar::Byte(v) => ScalarModel::Byte(*v),
            Scalar::Float(v) => ScalarModel::Float(*v),
            Scalar::Double(v) => ScalarModel::Double(*v),
            Scalar::String(v) => ScalarModel::String(v@),
            Scalar::Boolean(v) => ScalarModel::Boolean(*v),
            Scalar::Timestamp(v) => ScalarModel::Timestamp(*v),
            Scalar::TimestampNtz(v) => ScalarModel::TimestampNtz(*v),
            Scalar::Date(v) => ScalarModel::Date(*v),
            Scalar::Binary(v) => ScalarModel::Binary(v@),
            Scalar::Decimal(v, p, s) => ScalarModel::Decimal(*v, *p, *s),
            Scalar::Struct(v) => ScalarModel::Struct(v.view()),
            Scalar::Null(t) => ScalarModel::Null(t.view()),
        }
    }
}

impl StructData {
    /// The model of the struct value.
    pub open spec fn view(&self) -> StructDataModel
        decreases self,
    {
        StructDataModel {
            fields: field_models(self.fields@),
            values: Seq::new(
                self.values@.len(),
                |i: int|
                    if 0 <= i < self.values@.len() {
                        self.values@[i].view()
                    } else {
                        arbitrary()
                    },
            ),
        }
    }
}

impl Expression {
    /// The model of the expression.
    pub open spec fn view(&self) -> ExpressionModel
        decreases self,
    {
        match self {
            Expression::Literal(s) => ExpressionModel::Literal(s.view()),
            Expression::Column(path) => ExpressionModel::Column(texts(path@)),
            Expression::Predicate(p) => match **p {
                Predicate::IsNotNull(e) => ExpressionModel::IsNotNull(Box::new(e.view())),
            },
            Expression::Struct(items, nullability) => ExpressionModel::Struct(
                Seq::new(
                    items@.len(),
                    |i: int|
                        if 0 <= i < items@.len() {
                            items@[i].view()
                        } else {
                            arbitrary()
                        },
                ),
                match nullability {
                    Some(e) => Some(Box::new((**e).view())),
                    None => None,
                },
            ),
            Expression::Coalesce(items) => ExpressionModel::Coalesce(
                Seq::new(
                    items@.len(),
                    |i: int|
                        if 0 <= i < items@.len() {
                            items@[i].view()
                        } else {
                            arbitrary()
                        },
                ),
            ),
            Expression::ParseJson(e, schema) => ExpressionModel::ParseJson(
                Box::new((**e).view()),
                (**schema).view(),
            ),
            Expression::MapToStruct(e) => ExpressionModel::MapToStruct(Box::new((**e).view())),
            Expression::Transform(t) => ExpressionModel::Transform(
                texts(t.input_path@),
                Seq::new(
                    t.steps@.len(),
                    |i: int|
                        if 0 <= i < t.steps@.len() {
                            t.steps@[i].view()
                        } else {
                            arbitrary()
                        },
                ),
            ),
        }
    }
}

impl FieldTransform {
    /// The model of the change.
    pub open spec fn view(&self) -> StepModel
        decreases self,
    {
        match self {
            FieldTransform::Replaced(name, e) => StepModel::Replaced(name@, e.view()),
            FieldTransform::Dropped(name) => StepModel::Dropped(name@),
            FieldTransform::Inserted(after, e) => StepModel::Inserted(
                match after {
                    Some(name) => Some(name@),
                    None => None,
                },
                e.view(),
            ),
        }
    }
}

impl View for Scalar {
    type V = ScalarModel;

    open spec fn view(&self) -> ScalarModel {
        Scalar::view(self)
    }
}

impl View for StructData {
    type V = StructDataModel;

    open spec fn view(&self) -> StructDataModel {
        StructData::view(self)
    }
}

impl View for Expression {
    type V = ExpressionModel;

    open spec fn view(&self) -> ExpressionModel {
        Expression::view(self)
    }
}

/// The models of a list of expressions.
pub open spec fn expression_models(items: Seq<Expression>) -> Seq<ExpressionModel> {
    Seq::new(items.len(), |i: int| items[i].view())
}

/// The models of a list of scalars.
pub open spec fn scalar_models(items: Seq<Scalar>) -> Seq<ScalarModel> {
    Seq::new(items.len(), |i: int| items[i].view())
}

/// A column of the batch.
pub open spec fn column(name: Seq<char>) -> ExpressionModel {
    ExpressionModel::Column(seq![name])
}

/// A column inside a struct column.
pub open spec fn nested_column(outer: Seq<char>, name: Seq<char>) -> ExpressionModel {
    ExpressionModel::Column(seq![outer, name])
}

/// A column two structs deep.
pub open spec fn deep_column(
    outer: Seq<char>,
    middle: Seq<char>,
    name: Seq<char>,
) -> ExpressionModel {
    ExpressionModel::Column(seq![outer, middle, name])
}

/// A 64-bit constant.
pub open spec fn long_literal(value: i64) -> ExpressionModel {
    ExpressionModel::Literal(ScalarModel::Long(value))
}

/// A 32-bit constant.
pub open spec fn integer_literal(value: i32) -> ExpressionModel {
    ExpressionModel::Literal(ScalarModel::Integer(value))
}

/// The null of a type.
pub open spec fn null_literal(data_type: TypeModel) -> ExpressionModel {
    ExpressionModel::Literal(ScalarModel::Null(data_type))
}

/// A struct that is never null.
pub open spec fn struct_from(items: Seq<ExpressionModel>) -> ExpressionModel {
    ExpressionModel::Struct(items, None)
}

/// The first of two expressions that is not null.
pub open spec fn coalesce(first: ExpressionModel, second: ExpressionModel) -> ExpressionModel {
    ExpressionModel::Coalesce(seq![first, second])
}

/// `given`, or the null of a type where there is none.
pub open spec fn or_null(given: Option<ExpressionModel>, data_type: TypeModel) -> ExpressionModel {
    match given {
        Some(e) => e,
        None => null_literal(data_type),
    }
}

impl Clone for Scalar {
    fn clone(&self) -> (copy: Self)
        ensures
            copy.view() == self.view(),
        decreases self,
    {
        match self {
            Scalar::Integer(v) => Scalar::Integer(*v),
            Scalar::Long(v) => Scalar::Long(*v),
            Scalar::Short(v) => Scalar::Short(*v),
            Scalar::Byte(v) => Scalar::Byte(*v),
            Scalar::Float(v) => Scalar::Float(*v),
            Scalar::Double(v) => Scalar::Double(*v),
            Scalar::String(v) => Scalar::String(v.clone()),
            Scalar::Boolean(v) => Scalar::Boolean(*v),
            Scalar::Timestamp(v) => Scalar::Timestamp(*v),
            Scalar::TimestampNtz(v) => Scalar::TimestampNtz(*v),
            Scalar::Date(v) => Scalar::Date(*v),
            Scalar::Binary(v) => {
                let bytes = v.clone();
                assert(bytes@ =~= v@);
                Scalar::Binary(bytes)
            },
            Scalar::Decimal(v, p, s) => Scalar::Decimal(*v, *p, *s),
            Scalar::Struct(v) => Scalar::Struct(v.clone()),
            Scalar::Null(t) => Scalar::Null(t.clone()),
        }
    }
}

impl Clone for StructData {
    fn clone(&self) -> (copy: Self)
        ensures
            copy.view() == self.view(),
        decreases self,
    {
        let mut fields: Vec<StructField> = Vec::new();
        let mut i: usize = 0;
        while i < self.fields.len()
            invariant
                i <= self.fields@.len(),
                fields@.len() == i,
                forall|j: int|
                    0 <= j < i ==> (#[trigger] fields@[j]).view() == self.fields@[j].view(),
            decreases self.fields@.len() - i,
        {
            fields.push(self.fields[i].clone());
            i += 1;
        }
        let mut values: Vec<Scalar> = Vec::new();
        let mut k: usize = 0;
        while k < self.values.len()
            invariant
                k <= self.values@.len(),
                values@.len() == k,
                forall|j: int|
                    0 <= j < k ==> (#[trigger] values@[j]).view() == self.values@[j].view(),
            decreases self.values@.len() - k,
        {
            values.push(self.values[k].clone());
            k += 1;
        }
        let copy = StructData { fields, values };
        assert(copy.view().fields =~= self.view().fields);
        assert(copy.view().values =~= self.view().values);
        copy
    }
}

/// Copies a list of strings.
pub fn clone_strings(strings: &Vec<String>) -> (copy: Vec<String>)
    ensures
        texts(copy@) == texts(strings@),
{
    let mut copy: Vec<String> = Vec::new();
    let mut i: usize = 0;
    while i < strings.len()
        invariant
            i <= strings@.len(),
            copy@.len() == i,
            forall|j: int| 0 <= j < i ==> (#[trigger] copy@[j])@ == strings@[j]@,
        decreases strings@.len() - i,
    {
        copy.push(strings[i].clone());
        i += 1;
    }
    assert(texts(copy@) =~= texts(strings@));
    copy
}

impl Clone for Expression {
    fn clone(&self) -> (copy: Self)
        ensures
            copy.view() == self.view(),
        decreases self,
    {
        match self {
            Expression::Literal(s) => Expression::Literal(s.clone()),
            Expression::Column(path) => Expression::Column(clone_strings(path)),
            Expression::Predicate(p) => match &**p {
                Predicate::IsNotNull(e) => Expression::Predicate(
                    Box::new(Predicate::IsNotNull(e.clone())),
                ),
            },
            Expression::Struct(items, nullability) => {
                let when: Option<Box<Expression>> = match nullability {
                    Some(e) => Some(Box::new((**e).clone())),
                    None => None,
                };
                let copy = Expression::Struct(clone_expressions(items), when);
                assert(copy.view()->Struct_0 =~= self.view()->Struct_0);
                copy
            },
            Expression::Coalesce(items) => {
                let copy = Expression::Coalesce(clone_expressions(items));
                assert(copy.view()->Coalesce_0 =~= self.view()->Coalesce_0);
                copy
            },
            Expression::ParseJson(e, schema) => Expression::ParseJson(
                Box::new((**e).clone()),
                Box::new((**schema).clone()),
            ),
            Expression::MapToStruct(e) => Expression::MapToStruct(Box::new((**e).clone())),
            Expression::Transform(t) => {
                let copy = Expression::Transform(
                    Transform {
                        input_path: clone_strings(&t.input_path),
                        steps: clone_steps(&t.steps),
                    },
                );
                assert(copy.view()->Transform_1 =~= self.view()->Transform_1);
                copy
            },
        }
    }
}

/// Copies a list of expressions.
fn clone_expressions(items: &Vec<Expression>) -> (copies: Vec<Expression>)
    ensures
        copies@.len() == items@.len(),
        forall|j: int|
            0 <= j < items@.len() ==> (#[trigger] copies@[j]).view() == items@[j].view(),
    decreases items,
{
    let mut copies: Vec<Expression> = Vec::new();
    let mut i: usize = 0;
    while i < items.len()
        invariant
            i <= items@.len(),
            copies@.len() == i,
            forall|j: int| 0 <= j < i ==> (#[trigger] copies@[j]).view() == items@[j].view(),
        decreases items@.len() - i,
    {
        copies.push(items[i].clone());
        i += 1;
    }
    copies
}

/// Copies the changes of a transform.
fn clone_steps(steps: &Vec<FieldTransform>) -> (copies: Vec<FieldTransform>)
    ensures
        copies@.len() == steps@.len(),
        forall|j: int|
            0 <= j < steps@.len() ==> (#[trigger] copies@[j]).view() == steps@[j].view(),
    decreases steps,
{
    let mut copies: Vec<FieldTransform> = Vec::new();
    let mut i: usize = 0;
    while i < steps.len()
        invariant
            i <= steps@.len(),
            copies@.len() == i,
            forall|j: int| 0 <= j < i ==> (#[trigger] copies@[j]).view() == steps@[j].view(),
        decreases steps@.len() - i,
    {
        copies.push(steps[i].clone());
        i += 1;
    }
    copies
}

impl Clone for FieldTransform {
    fn clone(&self) -> (copy: Self)
        ensures
            copy.view() == self.view(),
        decreases self,
    {
        match self {
            FieldTransform::Replaced(name, e) => FieldTransform::Replaced(name.clone(), e.clone()),
            FieldTransform::Dropped(name) => FieldTransform::Dropped(name.clone()),
            FieldTransform::Inserted(after, e) => {
                let anchor: Option<String> = match after {
                    Some(name) => Some(name.clone()),
                    None => None,
                };
                FieldTransform::Inserted(anchor, e.clone())
            },
        }
    }
}

/// A list of expressions under construction.
#[derive(Debug)]
pub struct ExpressionList {
    pub items: Vec<Expression>,
}

impl View for ExpressionList {
    type V = Seq<ExpressionModel>;

    open spec fn view(&self) -> Seq<ExpressionModel> {
        expression_models(self.items@)
    }
}

impl ExpressionList {
    /// A list without expressions.
    pub fn new() -> (list: ExpressionList)
        ensures
            list@ == Seq::<ExpressionModel>::empty(),
    {
        ExpressionList { items: Vec::new() }
    }

    /// The list with `item` at its end.
    pub fn with(self, item: Expression) -> (list: ExpressionList)
        ensures
            list@ == self@.push(item.view()),
    {
        let mut items = self.items;
        items.push(item);
        let list = ExpressionList { items };
        assert(list@ =~= self@.push(item.view()));
        list
    }
}

impl Expression {
    /// A column of the batch.
    pub fn column(name: &str) -> (made: Expression)
        ensures
            made.view() == column(name@),
    {
        let mut path: Vec<String> = Vec::new();
        path.push(name.to_owned());
        assert(texts(path@) =~= seq![name@]);
        Expression::Column(path)
    }

    /// A column inside a struct column.
    pub fn nested_column(outer: &str, name: &str) -> (made: Expression)
        ensures
            made.view() == nested_column(outer@, name@),
    {
        let mut path: Vec<String> = Vec::new();
        path.push(outer.to_owned());
        path.push(name.to_owned());
        assert(texts(path@) =~= seq![outer@, name@]);
        Expression::Column(path)
    }

    /// A column two structs deep.
    pub fn deep_column(outer: &str, middle: &str, name: &str) -> (made: Expression)
        ensures
            made.view() == deep_column(outer@, middle@, name@),
    {
        let mut path: Vec<String> = Vec::new();
        path.push(outer.to_owned());
        path.push(middle.to_owned());
        path.push(name.to_owned());
        assert(texts(path@) =~= seq![outer@, middle@, name@]);
        Expression::Column(path)
    }

    /// A constant.
    pub fn literal(value: Scalar) -> (made: Expression)
        ensures
            made.view() == ExpressionModel::Literal(value.view()),
    {
        Expression::Literal(value)
    }

    /// A 64-bit constant.
    pub fn long(value: i64) -> (made: Expression)
        ensures
            made.view() == long_literal(value),
    {
        Expression::Literal(Scalar::Long(value))
    }

    /// A 32-bit constant.
    pub fn integer(value: i32) -> (made: Expression)
        ensures
            made.view() == integer_literal(value),
    {
        Expression::Literal(Scalar::Integer(value))
    }

    /// The null of a type.
    pub fn null_literal(data_type: DataType) -> (made: Expression)
        ensures
            made.view() == null_literal(data_type.view()),
    {
        Expression::Literal(Scalar::Null(data_type))
    }

    /// A copy of `given`, or the null of a type where there is none.
    pub fn or_null(given: &Option<Expression>, data_type: &DataType) -> (made: Expression)
        ensures
            made.view() == or_null(optional_model(*given), data_type.view()),
    {
        match given {
            Some(e) => e.clone(),
            None => Expression::null_literal(data_type.clone()),
        }
    }

    /// A struct that is never null.
    pub fn struct_from(items: ExpressionList) -> (made: Expression)
        ensures
            made.view() == struct_from(items@),
    {
        let ExpressionList { items: parts } = items;
        let made = Expression::Struct(parts, None);
        assert(made.view()->Struct_0 =~= items@);
        made
    }

    /// A struct that is null where `nullability` is not true.
    pub fn struct_with_nullability_from(
        items: ExpressionList,
        nullability: Expression,
    ) -> (made: Expression)
        ensures
            made.view() == ExpressionModel::Struct(items@, Some(Box::new(nullability.view()))),
    {
        let ExpressionList { items: parts } = items;
        let made = Expression::Struct(parts, Some(Box::new(nullability)));
        assert(made.view()->Struct_0 =~= items@);
        made
    }

    /// Whether an expression is not null.
    pub fn is_not_null(operand: Expression) -> (made: Expression)
        ensures
            made.view() == ExpressionModel::IsNotNull(Box::new(operand.view())),
    {
        Expression::Predicate(Box::new(Predicate::IsNotNull(operand)))
    }

    /// The first of two expressions that is not null.
    pub fn coalesce(first: Expression, second: Expression) -> (made: Expression)
        ensures
            made.view() == coalesce(first.view(), second.view()),
    {
        let mut items: Vec<Expression> = Vec::new();
        items.push(first);
        items.push(second);
        let made = Expression::Coalesce(items);
        assert(made.view()->Coalesce_0 =~= seq![first.view(), second.view()]);
        made
    }

    /// A JSON string parsed to a struct type.
    pub fn parse_json(json: Expression, schema: StructType) -> (made: Expression)
        ensures
            made.view() == ExpressionModel::ParseJson(Box::new(json.view()), schema.view()),
    {
        Expression::ParseJson(Box::new(json), Box::new(schema))
    }

    /// A string map turned into the struct that the output asks for.
    pub fn map_to_struct(map: Expression) -> (made: Expression)
        ensures
            made.view() == ExpressionModel::MapToStruct(Box::new(map.view())),
    {
        Expression::MapToStruct(Box::new(map))
    }
}

/// The model of an optional expression.
pub open spec fn optional_model(given: Option<Expression>) -> Option<ExpressionModel> {
    match given {
        Some(e) => Some(e.view()),
        None => None,
    }
}

impl Scalar {
    /// Whether the scalar is the null of some type.
    pub fn is_null(&self) -> (null: bool)
        ensures
            null == (self.view() is Null),
    {
        match self {
            Scalar::Null(_) => true,
            _ => false,
        }
    }
}

} // verus!
