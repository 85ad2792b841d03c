//! Reading JSON.
use serde_json::Value;
use vstd::prelude::*;

verus! {

/// `serde_json::Value`: a JSON value.
#[verifier::external_type_specification]
#[verifier::external_body]
pub struct ExValue(Value);

/// `serde_json::Error`: why a text is no JSON.
#[verifier::external_type_specification]
#[verifier::external_body]
pub struct ExJsonError(serde_json::Error);

/// What a JSON value is, as far as it is read here.
pub enum JsonShape {
    /// An object with its members by name.
    Object(Map<Seq<char>, Value>),
    /// An array with its elements in order.
    Array(Seq<Value>),
    /// A string.
    Text(Seq<char>),
    /// A number, a truth value or null.
    Other,
}

/// What a JSON value holds.
pub uninterp spec fn json_shape(value: Value) -> JsonShape;

/// The JSON value that a text stands for, or why it is no JSON.
pub uninterp spec fn parsed_json(text: Seq<char>) -> Result<Value, serde_json::Error>;

/// The member of an object under a name.
pub open spec fn json_member(value: Value, name: Seq<char>) -> Option<Value> {
    match json_shape(value) {
        JsonShape::Object(members) => if members.contains_key(name) {
            Some(members[name])
        } else {
            None
        },
        _ => None,
    }
}

/// The element of an array at a position.
pub open spec fn json_element(value: Value, index: int) -> Option<Value> {
    match json_shape(value) {
        JsonShape::Array(elements) => if 0 <= index < elements.len() {
            Some(elements[index])
        } else {
            None
        },
        _ => None,
    }
}

/// The characters of a string.
pub open spec fn json_text(value: Value) -> Option<Seq<char>> {
    match json_shape(value) {
        JsonShape::Text(text) => Some(text),
        _ => None,
    }
}

/// `serde_json::from_str` reads the JSON value that a text stands for. Which texts
/// are JSON, for which values they stand, and what is wrong with the others, is left
/// to it; it depends on the text alone.
#[verifier::external_body]
pub(crate) fn parse_json(text: &str) -> (value: Result<Value, serde_json::Error>)
    ensures
        value == parsed_json(text@),
{
    serde_json::from_str(text)
}

/// `Value::get` with a name gives the member of an object under that name, and
/// nothing if the value is no object or has no such member.
#[verifier::external_body]
pub(crate) fn member<'a>(value: &'a Value, name: &str) -> (found: Option<&'a Value>)
    ensures
        match found {
            Some(v) => json_member(*value, name@) == Some(*v),
            None => json_member(*value, name@) is None,
        },
{
    value.get(name)
}

/// `Value::get` with a number gives the element of an array at that position, and
/// nothing if the value is no array or has no such element.
#[verifier::external_body]
pub(crate) fn element(value: &Value, index: usize) -> (found: Option<&Value>)
    ensures
        match found {
            Some(v) => json_element(*value, index as int) == Some(*v),
            None => json_element(*value, index as int) is None,
        },
{
    value.get(index)
}

/// `Value::as_str` gives the characters of a string, and nothing for any other
/// value.
pub assume_specification<'a>[ Value::as_str ](value: &'a Value) -> (text: Option<&'a str>)
    ensures
        match text {
            Some(t) => json_shape(*value) == JsonShape::Text(t@),
            None => !(json_shape(*value) is Text),
        },
;

} // verus!
