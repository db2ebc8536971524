//! JSON values, which the `serde_json` crate represents.

use vstd::prelude::*;

use serde_json::Value;

verus! {

/// A JSON value.
#[verifier::external_type_specification]
#[verifier::external_body]
pub struct ExValue(serde_json::Value);

/// The members of a JSON object; anything else has none.
pub uninterp spec fn json_members(value: Value) -> Map<Seq<char>, Value>;

/// The text of a JSON string; anything else has none.
pub uninterp spec fn json_text(value: Value) -> Option<Seq<char>>;

/// A JSON number that is an unsigned 64-bit integer; anything else has none.
pub uninterp spec fn json_unsigned(value: Value) -> Option<u64>;

/// Whether a JSON value is an object.
pub uninterp spec fn json_is_object(value: Value) -> bool;

/// Whether a JSON value is null.
pub uninterp spec fn json_is_null(value: Value) -> bool;

/// A JSON value written as text.
pub uninterp spec fn json_written(value: Value) -> Seq<char>;

/// What a text in JSON holds, or why it is not JSON.
pub uninterp spec fn json_parse(bytes: Seq<u8>) -> Result<Value, Seq<char>>;

/// [`Value::get`] by name, cloned: the member of that name, where the value is an object that has
/// one.
#[verifier::external_body]
pub(crate) fn json_member(value: &Value, key: &str) -> (member: Option<Value>)
    ensures
        match member {
            Some(found) => json_members(*value).contains_key(key@) && found == json_members(
                *value,
            )[key@],
            None => !json_members(*value).contains_key(key@),
        },
{
    value.get(key).cloned()
}

/// [`Value::as_str`]: the text, where the value is a string.
#[verifier::external_body]
pub(crate) fn json_as_text(value: &Value) -> (text: Option<String>)
    ensures
        match text {
            Some(found) => json_text(*value) == Some(found@),
            None => json_text(*value) is None,
        },
{
    value.as_str().map(str::to_string)
}

/// [`Value::as_u64`]: the number, where the value is an unsigned 64-bit integer.
#[verifier::external_body]
pub(crate) fn json_as_u64(value: &Value) -> (number: Option<u64>)
    ensures
        number == json_unsigned(*value),
{
    value.as_u64()
}

/// [`serde_json::from_slice`] into a [`Value`], with the error in words: the outcome depends on
/// the bytes alone.
#[verifier::external_body]
pub(crate) fn parse_json(bytes: &Vec<u8>) -> (parsed: Result<Value, String>)
    ensures
        parsed is Ok ==> json_parse(bytes@) == Ok::<Value, Seq<char>>(parsed->Ok_0),
        parsed is Err ==> json_parse(bytes@) == Err::<Value, Seq<char>>(parsed->Err_0@),
{
    serde_json::from_slice(bytes).map_err(|error| error.to_string())
}

/// [`Value::clone`]: the same value once more.
#[verifier::external_body]
pub(crate) fn copy_json(value: &Value) -> (copy: Value)
    ensures
        copy == *value,
{
    value.clone()
}

/// `to_string` by the `Display` of [`Value`]: the value as text without white space between its
/// parts, which depends on the value alone.
#[verifier::external_body]
pub(crate) fn write_json(value: &Value) -> (text: String)
    ensures
        text@ == json_written(*value),
{
    value.to_string()
}

/// The members of a JSON object that is being put together.
#[verifier::external_type_specification]
#[verifier::external_body]
#[verifier::reject_recursive_types(K)]
#[verifier::reject_recursive_types(V)]
pub struct ExObject<K, V>(serde_json::Map<K, V>);

/// The members of a JSON object that is being put together.
pub uninterp spec fn object_members(object: serde_json::Map<String, Value>) -> Map<Seq<char>, Value>;

/// [`serde_json::Map::new`]: an object without members.
#[verifier::external_body]
pub(crate) fn new_object() -> (object: serde_json::Map<String, Value>)
    ensures
        forall|key: Seq<char>| !(#[trigger] object_members(object).contains_key(key)),
{
    serde_json::Map::new()
}

/// [`serde_json::Map::insert`]: sets the member of that name and leaves every other one.
#[verifier::external_body]
pub(crate) fn set_member(object: &mut serde_json::Map<String, Value>, key: &str, member: Value)
    ensures
        object_members(*final(object)) == object_members(*old(object)).insert(key@, member),
{
    object.insert(key.to_string(), member);
}

/// [`Value::Object`]: an object with those members, which is neither a text nor a number nor null.
#[verifier::external_body]
pub(crate) fn object_value(object: serde_json::Map<String, Value>) -> (value: Value)
    ensures
        json_is_object(value),
        !json_is_null(value),
        json_members(value) == object_members(object),
        json_text(value) is None,
        json_unsigned(value) is None,
{
    Value::Object(object)
}

/// [`Value::String`]: a value that is a text, and neither an object nor a number nor null.
#[verifier::external_body]
pub(crate) fn text_value(text: &str) -> (value: Value)
    ensures
        !json_is_object(value),
        !json_is_null(value),
        forall|key: Seq<char>| !(#[trigger] json_members(value).contains_key(key)),
        json_text(value) == Some(text@),
        json_unsigned(value) is None,
{
    Value::String(text.to_string())
}

/// [`Value::from`] of an unsigned number: a value that is that number, and neither an object nor a
/// text nor null.
#[verifier::external_body]
pub(crate) fn number_value(number: u64) -> (value: Value)
    ensures
        !json_is_object(value),
        !json_is_null(value),
        forall|key: Seq<char>| !(#[trigger] json_members(value).contains_key(key)),
        json_text(value) is None,
        json_unsigned(value) == Some(number),
{
    Value::from(number)
}

/// [`Value::Null`]: null, which is neither an object nor a text nor a number.
#[verifier::external_body]
pub(crate) fn null() -> (value: Value)
    ensures
        !json_is_object(value),
        json_is_null(value),
        forall|key: Seq<char>| !(#[trigger] json_members(value).contains_key(key)),
        json_text(value) is None,
        json_unsigned(value) is None,
{
    Value::Null
}

} // verus!
