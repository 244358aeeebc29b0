//! Reading documents with `serde_json`: the calls into that crate, and what
//! the library takes for granted of each.

use crate::json::{member, JsonModel};
use vstd::prelude::*;

verus! {

/// `serde_json::Value`: a JSON value as that crate holds it. Proofs see
/// nothing inside it; what it holds goes by the name `tree_content`.
#[verifier::external_type_specification]
#[verifier::external_body]
pub struct ExValue(serde_json::Value);

/// `serde_json::Error`: why that crate refused a text. Proofs see nothing
/// inside it.
#[verifier::external_type_specification]
#[verifier::external_body]
pub struct ExError(serde_json::Error);

/// What a `serde_json::Value` holds.
pub uninterp spec fn tree_content(v: serde_json::Value) -> JsonModel;

/// The value that `serde_json::from_str` reads from a text, `None` where it
/// refuses the text.
pub uninterp spec fn document_of(text: Seq<char>) -> Option<JsonModel>;

/// `serde_json::from_str` at the type `serde_json::Value`: reads a whole text
/// as one JSON value. The outcome depends on the text alone.
#[verifier::external_body]
pub(crate) fn parse_document(text: &str) -> (r: Result<serde_json::Value, serde_json::Error>)
    ensures
        match r {
            Ok(v) => document_of(text@) == Some(tree_content(v)),
            Err(_) => document_of(text@) is None,
        },
{
    serde_json::from_str::<serde_json::Value>(text)
}

/// The `Display` text of a `serde_json::Error`.
#[verifier::external_body]
pub(crate) fn describe_error(e: &serde_json::Error) -> (text: String) {
    e.to_string()
}

/// `serde_json::Value::get` with a string index: the field of an object with
/// that key, `None` for a value that is no object or has no such field. An
/// object of `serde_json` holds each key once.
#[verifier::external_body]
pub(crate) fn tree_get<'a>(v: &'a serde_json::Value, key: &str) -> (r: Option<
    &'a serde_json::Value,
>)
    ensures
        match r {
            Some(x) => member(tree_content(*v), key@) == Some(tree_content(*x)),
            None => member(tree_content(*v), key@) is None,
        },
{
    v.get(key)
}

/// `serde_json::Value::as_str`: the characters of a string value, `None` for
/// any other value.
#[verifier::external_body]
pub(crate) fn tree_as_str<'a>(v: &'a serde_json::Value) -> (r: Option<&'a str>)
    ensures
        match r {
            Some(t) => tree_content(*v) == JsonModel::Text(t@),
            None => !(tree_content(*v) is Text),
        },
{
    v.as_str()
}

/// `serde_json::Value::as_bool`: the truth value of a boolean, `None` for any
/// other value.
#[verifier::external_body]
pub(crate) fn tree_as_bool(v: &serde_json::Value) -> (r: Option<bool>)
    ensures
        match r {
            Some(b) => tree_content(*v) == JsonModel::Bool(b),
            None => !(tree_content(*v) is Bool),
        },
{
    v.as_bool()
}

/// `serde_json::Value::is_null`.
#[verifier::external_body]
pub(crate) fn tree_is_null(v: &serde_json::Value) -> (b: bool)
    ensures
        b == (tree_content(*v) is Null),
{
    v.is_null()
}

/// `serde_json::Value::is_object`.
#[verifier::external_body]
pub(crate) fn tree_is_object(v: &serde_json::Value) -> (b: bool)
    ensures
        b == (tree_content(*v) is Object),
{
    v.is_object()
}

/// `serde_json::Value::as_array`: the items of an array, in order, `None` for
/// any other value.
#[verifier::external_body]
pub(crate) fn tree_as_array<'a>(v: &'a serde_json::Value) -> (r: Option<
    &'a Vec<serde_json::Value>,
>)
    ensures
        match r {
            Some(items) => tree_content(*v) matches JsonModel::Array(models) && models.len()
                == items@.len() && forall|i: int|
                0 <= i < items@.len() ==> models[i] == tree_content(#[trigger] items@[i]),
            None => !(tree_content(*v) is Array),
        },
{
    v.as_array()
}

} // verus!
