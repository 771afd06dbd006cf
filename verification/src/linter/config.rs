//! Reading the configuration of a rule, which arrives as a JSON value.

use serde_json::Value;
use vstd::prelude::*;

verus! {

#[verifier::external_type_specification]
#[verifier::external_body]
pub struct ExValue(serde_json::Value);

/// The element at `index` of the array that `value` is.
pub uninterp spec fn json_index(value: Value, index: usize) -> Option<Value>;

/// The value under `key` in the object that `value` is.
pub uninterp spec fn json_field(value: Value, key: Seq<char>) -> Option<Value>;

/// The text of the string that `value` is.
pub uninterp spec fn json_str(value: Value) -> Option<Seq<char>>;

/// The boolean that `value` is.
pub uninterp spec fn json_bool(value: Value) -> Option<bool>;

/// The elements of the array that `value` is.
pub uninterp spec fn json_array(value: Value) -> Option<Seq<Value>>;

/// The element at `index` of `value`.
///
/// Trusted: `serde_json::Value::get` with a `usize`, which gives the element
/// at that index if the value is an array that has one, and nothing
/// otherwise. What it gives depends on the value and the index alone.
#[verifier::external_body]
pub(crate) fn get_index<'v>(value: &'v Value, index: usize) -> (element: Option<&'v Value>)
    ensures
        match element {
            Some(element) => json_index(*value, index) == Some(*element),
            None => json_index(*value, index) is None,
        },
{
    value.get(index)
}

/// The value under `key` in `value`.
///
/// Trusted: `serde_json::Value::get` with a `&str`, which gives the value
/// under that key if the value is an object that has the key, and nothing
/// otherwise. What it gives depends on the value and the key alone.
#[verifier::external_body]
pub(crate) fn get_field<'v>(value: &'v Value, key: &str) -> (field: Option<&'v Value>)
    ensures
        match field {
            Some(field) => json_field(*value, key@) == Some(*field),
            None => json_field(*value, key@) is None,
        },
{
    value.get(key)
}

/// The text of `value`.
///
/// Trusted: `serde_json::Value::as_str`, which gives the text if the value
/// is a string, and nothing otherwise.
#[verifier::external_body]
pub(crate) fn as_str<'v>(value: &'v Value) -> (text: Option<&'v str>)
    ensures
        match text {
            Some(text) => json_str(*value) == Some(text@),
            None => json_str(*value) is None,
        },
{
    value.as_str()
}

/// The boolean that `value` is.
///
/// Trusted: `serde_json::Value::as_bool`, which gives the boolean if the
/// value is one, and nothing otherwise.
#[verifier::external_body]
pub(crate) fn as_bool(value: &Value) -> (flag: Option<bool>)
    ensures
        flag == json_bool(*value),
{
    value.as_bool()
}

/// The elements of `value`.
///
/// Trusted: `serde_json::Value::as_array`, which gives the vector of the
/// elements if the value is an array, and nothing otherwise.
#[verifier::external_body]
pub(crate) fn as_array<'v>(value: &'v Value) -> (elements: Option<&'v Vec<Value>>)
    ensures
        match elements {
            Some(elements) => json_array(*value) == Some(elements@),
            None => json_array(*value) is None,
        },
{
    value.as_array()
}

} // verus!
