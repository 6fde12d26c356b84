//! JSON, through `serde_json`: building objects and writing them out.

use vstd::prelude::*;
use vstd::utf8::*;

verus! {

/// A JSON value as the contracts of this library see it.
pub enum Json {
    /// A string.
    Text(Seq<char>),
    /// A whole number that is not negative.
    Count(nat),
    /// `true` or `false`.
    Flag(bool),
    /// An object: its members by name.
    Object(Map<Seq<char>, Json>),
    /// Any other value, by the text that writes it.
    Other(Seq<char>),
}

/// `serde_json::Value`. What it holds is `json_of`.
#[verifier::external_type_specification]
#[verifier::external_body]
pub struct ExJsonValue(serde_json::Value);

/// `serde_json::Map`. What it holds is `json_members`.
#[verifier::external_type_specification]
#[verifier::external_body]
#[verifier::reject_recursive_types(K)]
#[verifier::reject_recursive_types(V)]
pub struct ExJsonMap<K, V>(serde_json::Map<K, V>);

/// The error of `serde_json`.
#[verifier::external_type_specification]
#[verifier::external_body]
pub struct ExJsonError(serde_json::Error);

/// What a `serde_json` value holds.
pub uninterp spec fn json_of(value: serde_json::Value) -> Json;

/// The members that a `serde_json` map holds.
pub uninterp spec fn json_members(
    map: serde_json::Map<String, serde_json::Value>,
) -> Map<Seq<char>, Json>;

/// An object without members.
pub open spec fn no_members() -> Map<Seq<char>, Json> {
    Map::empty()
}

/// The compact JSON form of a value.
pub uninterp spec fn json_bytes(value: Json) -> Seq<u8>;

/// The compact JSON form of a string, quotes and escapes with it.
pub uninterp spec fn json_string_form(text: Seq<char>) -> Seq<char>;

/// `serde_json::Map::new`: a map without members.
#[verifier::external_body]
pub(crate) fn json_map() -> (map: serde_json::Map<String, serde_json::Value>)
    ensures
        json_members(map) == no_members(),
{
    serde_json::Map::new()
}

/// `serde_json::Map::insert`: the member is added, or replaced where the name was taken.
#[verifier::external_body]
pub(crate) fn json_insert(
    map: &mut serde_json::Map<String, serde_json::Value>,
    name: String,
    value: serde_json::Value,
)
    ensures
        json_members(*final(map)) == json_members(*old(map)).insert(name@, json_of(value)),
{
    map.insert(name, value);
}

/// `serde_json::Value::String`.
#[verifier::external_body]
pub(crate) fn json_text(text: String) -> (value: serde_json::Value)
    ensures
        json_of(value) == Json::Text(text@),
{
    serde_json::Value::String(text)
}

/// `serde_json::Value::from` a whole number.
#[verifier::external_body]
pub(crate) fn json_count(count: usize) -> (value: serde_json::Value)
    ensures
        json_of(value) == Json::Count(count as nat),
{
    serde_json::Value::from(count)
}

/// `serde_json::Value::Bool`.
#[verifier::external_body]
pub(crate) fn json_flag(flag: bool) -> (value: serde_json::Value)
    ensures
        json_of(value) == Json::Flag(flag),
{
    serde_json::Value::Bool(flag)
}

/// `serde_json::Value::Object`.
#[verifier::external_body]
pub(crate) fn json_object(map: serde_json::Map<String, serde_json::Value>) -> (value:
    serde_json::Value)
    ensures
        json_of(value) == Json::Object(json_members(map)),
{
    serde_json::Value::Object(map)
}

/// `serde_json::to_vec` of a value: its compact form. A value has string keys only and the
/// bytes go to memory, so no step fails. The form is UTF-8 text that is never empty, and
/// control characters stand in it as escapes only.
#[verifier::external_body]
pub(crate) fn json_to_vec(value: &serde_json::Value) -> (bytes: Result<
    Vec<u8>,
    serde_json::Error,
>)
    ensures
        bytes is Ok,
        bytes->Ok_0@ == json_bytes(json_of(*value)),
        bytes->Ok_0@.len() > 0,
        valid_utf8(bytes->Ok_0@),
        forall|i: int| 0 <= i < bytes->Ok_0@.len() ==> #[trigger] bytes->Ok_0@[i] >= 0x20,
{
    serde_json::to_vec(value)
}

/// `serde_json::to_string` of a string: no step fails, as nothing but memory is written.
#[verifier::external_body]
pub(crate) fn json_string(text: &str) -> (form: Result<String, serde_json::Error>)
    ensures
        form is Ok,
        form->Ok_0@ == json_string_form(text@),
{
    serde_json::to_string(text)
}

/// Adds a member that is a string.
pub(crate) fn put_text(
    map: &mut serde_json::Map<String, serde_json::Value>,
    name: &str,
    text: &str,
)
    ensures
        json_members(*final(map)) == json_members(*old(map)).insert(name@, Json::Text(text@)),
{
    json_insert(map, name.to_owned(), json_text(text.to_owned()));
}

/// Adds a member that is a whole number.
pub(crate) fn put_count(
    map: &mut serde_json::Map<String, serde_json::Value>,
    name: &str,
    count: usize,
)
    ensures
        json_members(*final(map)) == json_members(*old(map)).insert(
            name@,
            Json::Count(count as nat),
        ),
{
    json_insert(map, name.to_owned(), json_count(count));
}

/// Adds a member that is `true` or `false`.
pub(crate) fn put_flag(
    map: &mut serde_json::Map<String, serde_json::Value>,
    name: &str,
    flag: bool,
)
    ensures
        json_members(*final(map)) == json_members(*old(map)).insert(name@, Json::Flag(flag)),
{
    json_insert(map, name.to_owned(), json_flag(flag));
}

/// Adds a member of any kind.
pub(crate) fn put_value(
    map: &mut serde_json::Map<String, serde_json::Value>,
    name: &str,
    value: serde_json::Value,
)
    ensures
        json_members(*final(map)) == json_members(*old(map)).insert(name@, json_of(value)),
{
    json_insert(map, name.to_owned(), value);
}

} // verus!
