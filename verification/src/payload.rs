//! The payloads that nodes take and give: JSON values of `serde_json`, and what the library
//! states about them.

use vstd::prelude::*;

verus! {

/// A JSON document as a mathematical value.
pub enum Json {
    Null,
    Bool(bool),
    /// A number, by its decimal text.
    Number(Seq<char>),
    Text(Seq<char>),
    List(Seq<Json>),
    Object(Map<Seq<char>, Json>),
}

/// `serde_json::Value`, a JSON value. Proofs see it only through [`json_view`].
#[verifier::external_type_specification]
#[verifier::external_body]
pub struct ExValue(serde_json::Value);

/// `serde_json::Map`, the members of a JSON object. Proofs see it only through
/// [`members`].
#[verifier::external_type_specification]
#[verifier::external_body]
#[verifier::reject_recursive_types(K)]
#[verifier::reject_recursive_types(V)]
pub struct ExJsonMap<K, V>(serde_json::Map<K, V>);

/// The document that a `serde_json::Value` holds.
pub uninterp spec fn json_view(v: serde_json::Value) -> Json;

/// The members that a `serde_json::Map` holds, by key.
pub uninterp spec fn members(m: serde_json::Map<String, serde_json::Value>) -> Map<Seq<char>, Json>;

/// The map without members.
pub open spec fn no_members() -> Map<Seq<char>, Json> {
    Map::empty()
}

/// `Value::default`: the value `null`, as the crate's documentation of the impl says.
pub assume_specification[ <serde_json::Value as Default>::default ]() -> (v: serde_json::Value)
    ensures
        json_view(v) == Json::Null,
;

/// `Value::clone`: a copy that holds the same document.
pub assume_specification[ <serde_json::Value as Clone>::clone ](
    v: &serde_json::Value,
) -> (copy: serde_json::Value)
    ensures
        json_view(copy) == json_view(*v),
;

/// `Value::from` on a string: the JSON string with the same characters.
pub assume_specification[ <serde_json::Value as From<String>>::from ](
    s: String,
) -> (v: serde_json::Value)
    ensures
        json_view(v) == Json::Text(s@),
;

/// `Map::new`: a map without members.
pub assume_specification[ serde_json::Map::<String, serde_json::Value>::new ]() -> (fresh: serde_json::Map<String, serde_json::Value>)
    ensures
        members(fresh) == no_members(),
;

/// `Map::insert`: sets the member under the key, and returns the value that was there, if
/// the key was present.
pub assume_specification[ serde_json::Map::<String, serde_json::Value>::insert ](
    m: &mut serde_json::Map<String, serde_json::Value>,
    k: String,
    v: serde_json::Value,
) -> (prev: Option<serde_json::Value>)
    ensures
        members(*final(m)) == members(*old(m)).insert(k@, json_view(v)),
        prev is Some <==> members(*old(m)).contains_key(k@),
        prev matches Some(p) ==> json_view(p) == members(*old(m))[k@],
;

/// `Value::from` on a map: the JSON object with the map's members.
pub assume_specification[ <serde_json::Value as From<serde_json::Map<String, serde_json::Value>>>::from ](
    m: serde_json::Map<String, serde_json::Value>,
) -> (v: serde_json::Value)
    ensures
        json_view(v) == Json::Object(members(m)),
;

/// The document `{"error": message}`.
pub open spec fn error_json(message: Seq<char>) -> Json {
    Json::Object(no_members().insert("error"@, Json::Text(message)))
}

/// The payload that stands for a failure: an object whose one member, `error`, is the
/// message.
pub fn error_payload(message: &str) -> (v: serde_json::Value)
    ensures
        json_view(v) == error_json(message@),
{
    let mut m = serde_json::Map::new();
    m.insert("error".to_owned(), serde_json::Value::from(message.to_owned()));
    serde_json::Value::from(m)
}

/// The payload `null`.
pub fn null_payload() -> (v: serde_json::Value)
    ensures
        json_view(v) == Json::Null,
{
    serde_json::Value::default()
}

} // verus!
