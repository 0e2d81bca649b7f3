//! JSON values of the source RPC proxy.

use serde_json::Value;
use vstd::prelude::*;

verus! {

/// A JSON value.
#[verifier::external_type_specification]
#[verifier::external_body]
pub struct ExValue(Value);

/// The fields of a JSON object.
#[verifier::external_type_specification]
#[verifier::external_body]
#[verifier::reject_recursive_types(K)]
#[verifier::reject_recursive_types(V)]
pub struct ExFields<K, V>(serde_json::Map<K, V>);

/// The fields of a JSON object.
pub type Fields = serde_json::Map<String, Value>;

/// What the fields of a JSON object hold, by name.
pub uninterp spec fn entries(fields: Fields) -> Map<Seq<char>, Value>;

/// There are no fields.
pub open spec fn no_entries(fields: Map<Seq<char>, Value>) -> bool {
    fields == Map::<Seq<char>, Value>::empty()
}

/// The fields of a JSON value by name; `None` where it is no object.
pub uninterp spec fn object_entries(value: Value) -> Option<Map<Seq<char>, Value>>;

/// The items of a JSON value; `None` where it is no array.
pub uninterp spec fn array_items(value: Value) -> Option<Seq<Value>>;

/// The text of a JSON value; `None` where it is no string.
pub uninterp spec fn string_text(value: Value) -> Option<Seq<char>>;

/// The number of a JSON value; `None` where it is no integer from zero on that
/// fits 64 bits.
pub uninterp spec fn unsigned_number(value: Value) -> Option<u64>;

/// The compact JSON text of a value, as its `Display` shows it.
pub uninterp spec fn json_text(value: Value) -> Seq<char>;

/// Calls `serde_json::Value::as_object_mut`, which lends the fields of an object
/// and nothing for any other value.
#[verifier::external_body]
pub(crate) fn fields_mut(value: &mut Value) -> (fields: Option<&mut Fields>)
    ensures
        match fields {
            Some(fields) => {
                &&& object_entries(*old(value)) == Some(entries(*fields))
                &&& object_entries(*final(value)) == Some(entries(*final(fields)))
            },
            None => object_entries(*old(value)) is None && *final(value) == *old(value),
        },
{
    value.as_object_mut()
}

/// Calls `serde_json::Map::remove`, which takes the field with a name out of the
/// fields, where there is one, and leaves the others.
#[verifier::external_body]
pub(crate) fn remove_field(fields: &mut Fields, name: &str) -> (removed:
    Option<Value>)
    ensures
        entries(*final(fields)) == entries(*old(fields)).remove(name@),
        removed == (if entries(*old(fields)).contains_key(name@) {
            Some(entries(*old(fields))[name@])
        } else {
            None
        }),
{
    fields.remove(name)
}

/// Calls `serde_json::Map::new`, which makes an object without fields.
#[verifier::external_body]
pub(crate) fn no_fields() -> (fields: Fields)
    ensures
        no_entries(entries(fields)),
{
    serde_json::Map::new()
}

/// Calls `serde_json::Map::insert`, which sets the field with a name to a value
/// and returns the one it had.
#[verifier::external_body]
pub(crate) fn insert_field(
    fields: &mut Fields,
    name: String,
    value: Value,
) -> (replaced: Option<Value>)
    ensures
        entries(*final(fields)) == entries(*old(fields)).insert(name@, value),
        replaced == (if entries(*old(fields)).contains_key(name@) {
            Some(entries(*old(fields))[name@])
        } else {
            None
        }),
{
    fields.insert(name, value)
}

/// Calls `serde_json::Value::get` with a name, which finds the field of an
/// object, and nothing in any other value.
#[verifier::external_body]
pub(crate) fn get_field<'a>(value: &'a Value, name: &str) -> (field: Option<&'a Value>)
    ensures
        match object_entries(*value) {
            Some(fields) => if fields.contains_key(name@) {
                field == Some(&fields[name@])
            } else {
                field is None
            },
            None => field is None,
        },
{
    value.get(name)
}

/// Calls `serde_json::Value::clone`, which gives an equal value.
#[verifier::external_body]
pub(crate) fn clone_value(value: &Value) -> (copy: Value)
    ensures
        copy == *value,
{
    value.clone()
}

/// Calls the `Display` of `serde_json::Value`, which writes compact JSON.
#[verifier::external_body]
pub(crate) fn value_text(value: &Value) -> (text: String)
    ensures
        text@ == json_text(*value),
{
    format!("{value}")
}

/// Calls `serde_json::Value::from` on fields, which makes an object of them.
#[verifier::external_body]
pub(crate) fn object_value(fields: Fields) -> (value: Value)
    ensures
        object_entries(value) == Some(entries(fields)),
{
    Value::from(fields)
}

/// Calls `serde_json::Value::from` on a text, which makes a string of it.
#[verifier::external_body]
pub(crate) fn string_value(text: String) -> (value: Value)
    ensures
        string_text(value) == Some(text@),
{
    Value::from(text)
}

/// Calls `serde_json::Value::from` on a number.
#[verifier::external_body]
pub(crate) fn number_value(number: u64) -> (value: Value)
    ensures
        unsigned_number(value) == Some(number),
{
    Value::from(number)
}

/// Calls `serde_json::Value::from` on values, which makes an array of them.
#[verifier::external_body]
pub(crate) fn array_value(items: Vec<Value>) -> (value: Value)
    ensures
        array_items(value) == Some(items@),
{
    Value::from(items)
}

} // verus!
