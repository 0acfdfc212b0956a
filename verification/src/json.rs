//! Numbers in JSON texts, read with `serde_json`.

use serde_json::Value;
use vstd::prelude::*;

verus! {

/// The JSON values of the `serde_json` crate.
#[verifier::external_type_specification]
#[verifier::external_body]
pub struct ExValue(Value);

/// The 64-bit integer that a JSON value is, where it is one.
pub uninterp spec fn json_number(value: Value) -> Option<i64>;

/// The members of a JSON object by name, each as the 64-bit integer that it is, where it is one.
/// `None` where the value is no object.
pub uninterp spec fn json_members(value: Value) -> Option<Map<Seq<char>, Option<i64>>>;

/// The members of the object that a JSON text stands for, as [`json_members`] has them, or what
/// is wrong with the text.
pub uninterp spec fn read_members(json: Seq<char>) -> Result<
    Option<Map<Seq<char>, Option<i64>>>,
    Seq<char>,
>;

/// Calls `serde_json::from_str`: which value the text stands for, or the text of the error,
/// depends on the text alone.
#[verifier::external_body]
pub(crate) fn read_json(json: &str) -> (value: Result<Value, String>)
    ensures
        match value {
            Ok(v) => read_members(json@) == Ok::<
                Option<Map<Seq<char>, Option<i64>>>,
                Seq<char>,
            >(json_members(v)),
            Err(e) => read_members(json@) == Err::<
                Option<Map<Seq<char>, Option<i64>>>,
                Seq<char>,
            >(e@),
        },
{
    serde_json::from_str::<Value>(json).map_err(|error| error.to_string())
}

/// Calls `Value::get` with a name: the member of that name, none where the value is no object
/// or has no such member.
#[verifier::external_body]
pub(crate) fn json_member<'a>(value: &'a Value, name: &str) -> (member: Option<&'a Value>)
    ensures
        match member {
            Some(m) => match json_members(*value) {
                Some(members) => members.contains_key(name@) && members[name@] == json_number(*m),
                None => false,
            },
            None => match json_members(*value) {
                Some(members) => !members.contains_key(name@),
                None => true,
            },
        },
{
    value.get(name)
}

/// Calls `Value::as_i64`: the integer that the value is, where it fits in 64 bits.
#[verifier::external_body]
pub(crate) fn json_integer(value: &Value) -> (number: Option<i64>)
    ensures
        number == json_number(*value),
{
    value.as_i64()
}

/// What stands under a name at the top of a JSON text: `None` where there is no such name or its
/// value is no 64-bit integer, and where the text is no JSON what is wrong with it.
pub open spec fn integer_under(json: Seq<char>, name: Seq<char>) -> Result<
    Option<i64>,
    Seq<char>,
> {
    match read_members(json) {
        Ok(Some(members)) => if members.contains_key(name) {
            Ok(members[name])
        } else {
            Ok(None)
        },
        Ok(None) => Ok(None),
        Err(cause) => Err(cause),
    }
}

/// Reads the integer under a name at the top of a JSON text.
pub(crate) fn read_json_integer(json: &str, name: &str) -> (found: Result<Option<i64>, String>)
    ensures
        match found {
            Ok(number) => integer_under(json@, name@) == Ok::<Option<i64>, Seq<char>>(number),
            Err(e) => integer_under(json@, name@) == Err::<Option<i64>, Seq<char>>(e@),
        },
{
    match read_json(json) {
        Ok(value) => match json_member(&value, name) {
            Some(member) => Ok(json_integer(member)),
            None => Ok(None),
        },
        Err(cause) => Err(cause),
    }
}

} // verus!
