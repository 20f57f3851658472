//! JSON documents, held as `serde_json` values.
use vstd::prelude::*;

verus! {

#[verifier::external_type_specification]
#[verifier::external_body]
pub struct ExJsonValue(serde_json::Value);

/// `serde_json::Value::clone`: the derived clone copies the whole document.
pub assume_specification[ <serde_json::Value as Clone>::clone ](v: &serde_json::Value) -> (r:
    serde_json::Value)
    ensures
        r == *v,
;

/// What `serde_json::from_str` makes of a text: the document, when the text
/// is one JSON document.
pub uninterp spec fn json_parse(text: Seq<char>) -> Option<serde_json::Value>;

/// What `serde_json::Value::as_array` finds in a document: its elements,
/// when it is an array.
pub uninterp spec fn json_array_items(v: serde_json::Value) -> Option<Seq<serde_json::Value>>;

/// `serde_json::from_str` into a document. It succeeds exactly on the texts
/// that `json_parse` names a document for, and gives that document; the
/// error is reported as serde_json's debug text, which is not stated.
#[verifier::external_body]
pub(crate) fn parse_json(text: &str) -> (r: Result<serde_json::Value, String>)
    ensures
        r is Ok == json_parse(text@) is Some,
        r matches Ok(v) ==> json_parse(text@) == Some(v),
{
    match serde_json::from_str::<serde_json::Value>(text) {
        Ok(v) => Ok(v),
        Err(e) => Err(format!("{e:?}")),
    }
}

/// `serde_json::Value::as_array`, copied: the elements of an array.
#[verifier::external_body]
pub(crate) fn json_items(v: &serde_json::Value) -> (r: Option<Vec<serde_json::Value>>)
    ensures
        r is Some == json_array_items(*v) is Some,
        r matches Some(items) ==> json_array_items(*v) == Some(items@),
{
    v.as_array().cloned()
}

/// What `serde_json::Value::is_number` says of a document: whether it is a
/// number.
pub uninterp spec fn json_number(v: serde_json::Value) -> bool;

/// What `serde_json::Value::as_str` finds in a document: its text, when it
/// is a string.
pub uninterp spec fn json_string(v: serde_json::Value) -> Option<Seq<char>>;

/// `serde_json::Value::is_number`: whether the document is a number.
#[verifier::external_body]
pub(crate) fn json_is_number(v: &serde_json::Value) -> (r: bool)
    ensures
        r == json_number(*v),
{
    v.is_number()
}

/// `serde_json::Value::as_str`, copied: the text of a string document.
#[verifier::external_body]
pub(crate) fn json_as_text(v: &serde_json::Value) -> (r: Option<String>)
    ensures
        r.deep_view() == json_string(*v),
{
    match v.as_str() {
        Some(t) => Some(t.to_owned()),
        None => None,
    }
}

/// `serde_json::Value::Object` of an empty map: the empty object, which is
/// the document the text `{}` holds.
#[verifier::external_body]
pub(crate) fn json_empty_object() -> (r: serde_json::Value)
    ensures
        json_parse(seq!['{', '}']) == Some(r),
{
    serde_json::Value::Object(serde_json::Map::new())
}

/// `serde_json::Value::Array`: the array of the given elements, which
/// `as_array` gives back.
#[verifier::external_body]
pub(crate) fn json_array(items: Vec<serde_json::Value>) -> (r: serde_json::Value)
    ensures
        json_array_items(r) == Some(items@),
{
    serde_json::Value::Array(items)
}

/// What `serde_json::Value::get` finds under a key: the member of an
/// object.
pub uninterp spec fn json_field(v: serde_json::Value, key: Seq<char>) -> Option<serde_json::Value>;

/// `serde_json::Value::get` with a key, copied: the member of an object.
#[verifier::external_body]
pub(crate) fn json_get(v: &serde_json::Value, key: &str) -> (r: Option<serde_json::Value>)
    ensures
        r == json_field(*v, key@),
{
    v.get(key).cloned()
}

/// The tool call a document reads as: an object whose `name` member is a
/// text and which has an `arguments` member.
pub open spec fn tool_shape(v: serde_json::Value) -> Option<(Seq<char>, serde_json::Value)> {
    match (json_field(v, "name"@), json_field(v, "arguments"@)) {
        (Some(n), Some(a)) => match json_string(n) {
            Some(name) => Some((name, a)),
            None => None,
        },
        _ => None,
    }
}

/// Reads a document as a tool call (see [`tool_shape`]).
pub fn tool_call_of(v: &serde_json::Value) -> (r: Option<(String, serde_json::Value)>)
    ensures
        match tool_shape(*v) {
            Some((name, args)) => r matches Some((n, a)) && n@ == name && a == args,
            None => r is None,
        },
{
    let name = json_get(v, "name");
    let args = json_get(v, "arguments");
    match (name, args) {
        (Some(n), Some(a)) => match json_as_text(&n) {
            Some(t) => Some((t, a)),
            None => None,
        },
        _ => None,
    }
}

/// The JSON number `serde_json::Value::from` makes of an integer.
pub uninterp spec fn json_int(n: int) -> serde_json::Value;

/// `serde_json::Value::from` an `i64`: the number.
#[verifier::external_body]
pub(crate) fn json_from_int(n: i64) -> (r: serde_json::Value)
    ensures
        r == json_int(n as int),
{
    serde_json::Value::from(n)
}

/// The string document `serde_json::Value::String` makes of a text.
pub uninterp spec fn json_str(s: Seq<char>) -> serde_json::Value;

/// `serde_json::Value::String`: the string document of a text, which
/// `as_str` gives back.
#[verifier::external_body]
pub(crate) fn json_from_text(s: &str) -> (r: serde_json::Value)
    ensures
        r == json_str(s@),
        json_string(r) == Some(s@),
{
    serde_json::Value::String(s.to_owned())
}

/// What `serde_json::Value::is_object` says of a document: whether it is an
/// object.
pub uninterp spec fn json_is_object_doc(v: serde_json::Value) -> bool;

/// `serde_json::Value::is_object`: whether the document is an object.
#[verifier::external_body]
pub(crate) fn json_is_object(v: &serde_json::Value) -> (r: bool)
    ensures
        r == json_is_object_doc(*v),
{
    v.is_object()
}

/// Whether no two members share a key.
pub open spec fn keys_distinct(members: Seq<(String, serde_json::Value)>) -> bool {
    forall|i: int, j: int| 0 <= i < j < members.len() ==> (#[trigger] members[i]).0@ != (#[trigger] members[j]).0@
}

/// The object `serde_json::Value::Object` makes of members, each a key and
/// a document, in order.
pub uninterp spec fn json_object_of(members: Seq<(Seq<char>, serde_json::Value)>) -> serde_json::Value;

/// The keys of members as texts, with their documents.
pub open spec fn member_views(members: Seq<(String, serde_json::Value)>) -> Seq<(Seq<char>, serde_json::Value)> {
    members.map_values(|m: (String, serde_json::Value)| (m.0@, m.1))
}

/// `serde_json::Value::Object` of the given members: `get` finds each
/// member under its key.
#[verifier::external_body]
pub(crate) fn json_object(members: Vec<(String, serde_json::Value)>) -> (r: serde_json::Value)
    requires
        keys_distinct(members@),
    ensures
        r == json_object_of(member_views(members@)),
        json_is_object_doc(r),
        forall|i: int| 0 <= i < members@.len() ==> json_field(r, (#[trigger] members@[i]).0@) == Some(members@[i].1),
{
    serde_json::Value::Object(members.into_iter().collect())
}

/// What `serde_json::Value::is_null` says of a document: whether it is
/// `null`.
pub uninterp spec fn json_null_doc(v: serde_json::Value) -> bool;

/// `serde_json::Value::Null`: the `null` document.
#[verifier::external_body]
pub(crate) fn json_null() -> (r: serde_json::Value)
    ensures
        json_null_doc(r),
{
    serde_json::Value::Null
}

} // verus!
