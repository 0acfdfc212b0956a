//! Column types as messages show them.

use vstd::prelude::*;

use crate::schema::{DataType, FieldModel, PrimitiveType, StructType, TypeModel};
use crate::text::{decimal, unsigned_text};

verus! {

/// The name of a primitive type; a decimal type has its precision and scale behind it.
pub open spec fn primitive_text(primitive: PrimitiveType) -> Seq<char> {
    match primitive {
        PrimitiveType::String => "String"@,
        PrimitiveType::Long => "Long"@,
        PrimitiveType::Integer => "Integer"@,
        PrimitiveType::Short => "Short"@,
        PrimitiveType::Byte => "Byte"@,
        PrimitiveType::Float => "Float"@,
        PrimitiveType::Double => "Double"@,
        PrimitiveType::Boolean => "Boolean"@,
        PrimitiveType::Binary => "Binary"@,
        PrimitiveType::Date => "Date"@,
        PrimitiveType::Timestamp => "Timestamp"@,
        PrimitiveType::TimestampNtz => "TimestampNtz"@,
        PrimitiveType::Decimal(precision, scale) => "Decimal("@ + decimal(precision as int)
            + ", "@ + decimal(scale as int) + ")"@,
    }
}

/// A truth value.
pub open spec fn bool_text(value: bool) -> Seq<char> {
    if value {
        "true"@
    } else {
        "false"@
    }
}

/// A type in its debug form: what kind of type it is, the types that it is made of, and what can
/// be null in it. The metadata of fields is left out.
pub open spec fn type_text(data_type: TypeModel) -> Seq<char>
    decreases data_type, 0nat,
{
    match data_type {
        TypeModel::Primitive(primitive) => "Primitive("@ + primitive_text(primitive) + ")"@,
        TypeModel::Array(element, contains_null) => "Array(ArrayType { element_type: "@
            + type_text(*element) + ", contains_null: "@ + bool_text(contains_null) + " })"@,
        TypeModel::MapOf(key, value, value_contains_null) => "Map(MapType { key_type: "@
            + type_text(*key) + ", value_type: "@ + type_text(*value) + ", value_contains_null: "@
            + bool_text(value_contains_null) + " })"@,
        TypeModel::Struct(fields) => "Struct(StructType { fields: ["@ + fields_text(
            fields,
            fields.len(),
        ) + "] })"@,
    }
}

/// The first `n` fields of a struct type: names, types, and whether they can be null.
pub open spec fn fields_text(fields: Seq<FieldModel>, n: nat) -> Seq<char>
    decreases fields, n,
{
    if n == 0 || n > fields.len() {
        Seq::empty()
    } else {
        fields_text(fields, (n - 1) as nat) + (if n == 1 {
            Seq::empty()
        } else {
            ", "@
        }) + "StructField { name: \""@ + fields[n - 1].name + "\", data_type: "@ + type_text(
            fields[n - 1].data_type,
        ) + ", nullable: "@ + bool_text(fields[n - 1].nullable) + " }"@
    }
}

/// The name of a primitive type.
fn primitive_name(primitive: PrimitiveType) -> (text: String)
    ensures
        text@ == primitive_text(primitive),
{
    match primitive {
        PrimitiveType::String => "String".to_owned(),
        PrimitiveType::Long => "Long".to_owned(),
        PrimitiveType::Integer => "Integer".to_owned(),
        PrimitiveType::Short => "Short".to_owned(),
        PrimitiveType::Byte => "Byte".to_owned(),
        PrimitiveType::Float => "Float".to_owned(),
        PrimitiveType::Double => "Double".to_owned(),
        PrimitiveType::Boolean => "Boolean".to_owned(),
        PrimitiveType::Binary => "Binary".to_owned(),
        PrimitiveType::Date => "Date".to_owned(),
        PrimitiveType::Timestamp => "Timestamp".to_owned(),
        PrimitiveType::TimestampNtz => "TimestampNtz".to_owned(),
        PrimitiveType::Decimal(precision, scale) => {
            let mut text = "Decimal(".to_owned();
            text.append(unsigned_text(precision as u64).as_str());
            text.append(", ");
            text.append(unsigned_text(scale as u64).as_str());
            text.append(")");
            text
        },
    }
}

/// Writes a truth value out.
fn bool_name(value: bool) -> (text: String)
    ensures
        text@ == bool_text(value),
{
    if value {
        "true".to_owned()
    } else {
        "false".to_owned()
    }
}

/// Writes a type out for a message.
pub fn describe_type(data_type: &DataType) -> (text: String)
    ensures
        text@ == type_text(data_type@),
    decreases data_type, 0nat,
{
    match data_type {
        DataType::Primitive(primitive) => {
            let mut text = "Primitive(".to_owned();
            text.append(primitive_name(*primitive).as_str());
            text.append(")");
            text
        },
        DataType::Array(array) => {
            let mut text = "Array(ArrayType { element_type: ".to_owned();
            text.append(describe_type(&array.element_type).as_str());
            text.append(", contains_null: ");
            text.append(bool_name(array.contains_null).as_str());
            text.append(" })");
            text
        },
        DataType::MapOf(map) => {
            let mut text = "Map(MapType { key_type: ".to_owned();
            text.append(describe_type(&map.key_type).as_str());
            text.append(", value_type: ");
            text.append(describe_type(&map.value_type).as_str());
            text.append(", value_contains_null: ");
            text.append(bool_name(map.value_contains_null).as_str());
            text.append(" })");
            text
        },
        DataType::Struct(fields) => {
            let mut text = "Struct(StructType { fields: [".to_owned();
            text.append(describe_fields(&**fields).as_str());
            text.append("] })");
            text
        },
    }
}

/// Writes the fields of a struct type out for a message.
fn describe_fields(fields: &StructType) -> (text: String)
    ensures
        text@ == fields_text(fields@, fields@.len()),
    decreases fields, 1nat,
{
    let mut text = String::new();
    assert(text@ =~= Seq::<char>::empty());
    let mut i: usize = 0;
    while i < fields.fields.len()
        invariant
            i <= fields.fields@.len(),
            text@ == fields_text(fields@, i as nat),
        decreases fields.fields@.len() - i,
    {
        let ghost so_far = text@;
        let field = &fields.fields[i];
        assert(fields@[i as int] == field@);
        if i > 0 {
            text.append(", ");
        } else {
            assert(so_far + Seq::<char>::empty() =~= so_far);
        }
        text.append("StructField { name: \"");
        text.append(field.name.as_str());
        text.append("\", data_type: ");
        text.append(describe_type(&field.data_type).as_str());
        text.append(", nullable: ");
        text.append(bool_name(field.nullable).as_str());
        text.append(" }");
        i += 1;
    }
    text
}

} // verus!
