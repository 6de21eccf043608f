//! JSON objects, as `serde_json` holds them and writes them.

use crate::source::parsed_json;
use crate::source::parsed_json::JsonDoc;
use crate::text;
use serde::Serializer;
use serde_json::Value;
use vstd::prelude::*;

verus! {

/// An object of `serde_json`.
#[verifier::external_type_specification]
#[verifier::external_body]
#[verifier::reject_recursive_types(K)]
#[verifier::reject_recursive_types(V)]
pub struct ExMap<K, V>(serde_json::Map<K, V>);

/// What stands under a key of an object.
pub enum JsonMember {
    /// A string.
    Text(Seq<char>),
    /// The value that this JSON text reads as.
    Parsed(Seq<char>),
    /// An object that holds these members.
    Object(Map<Seq<char>, JsonMember>),
}

/// An object of `serde_json` together with a record of what was put into it.
///
/// The fields are private and only [`empty_object`], [`insert_text`], [`insert_parsed`] and
/// [`insert_object`] make or change one, so `members` always tells what `map` holds.
pub struct JsonObject {
    map: serde_json::Map<String, Value>,
    members: Ghost<Map<Seq<char>, JsonMember>>,
}

impl View for JsonObject {
    type V = Map<Seq<char>, JsonMember>;

    closed spec fn view(&self) -> Map<Seq<char>, JsonMember> {
        self.members@
    }
}

/// What `serde_json::to_string` writes for an object that holds `members`.
pub uninterp spec fn json_object_text(members: Map<Seq<char>, JsonMember>) -> Seq<char>;

/// What `serde_json::to_string_pretty` writes for an object that holds `members`.
pub uninterp spec fn json_object_pretty(members: Map<Seq<char>, JsonMember>) -> Seq<char>;

/// What `serde_json` writes for a string.
pub uninterp spec fn json_quoted(text: Seq<char>) -> Seq<char>;

/// The members of an empty object.
pub open spec fn no_members() -> Map<Seq<char>, JsonMember> {
    Map::empty()
}

/// The JSON pointer to a member of the outermost object.
pub open spec fn member_pointer(key: Seq<char>) -> Seq<char> {
    "/"@ + key
}

/// Whether the key means itself in a JSON pointer.
pub open spec fn plain_key(key: Seq<char>) -> bool {
    !key.contains('/') && !key.contains('~')
}

/// The string that a member is, if it is one.
pub open spec fn member_text(member: JsonMember) -> Option<Seq<char>> {
    match member {
        JsonMember::Text(text) => Some(text),
        JsonMember::Parsed(source) => parsed_json::json_text_at(source, ""@),
        JsonMember::Object(_) => None,
    }
}

/// Whether an object holds nothing but strings and objects of strings.
pub open spec fn shallow(members: Map<Seq<char>, JsonMember>) -> bool {
    forall|key: Seq<char>| #[trigger]
        members.contains_key(key) ==> match members[key] {
            JsonMember::Text(_) => true,
            JsonMember::Parsed(_) => false,
            JsonMember::Object(inner) => forall|k: Seq<char>| #[trigger]
                inner.contains_key(k) ==> inner[k] is Text,
        }
}

/// Whether the strings found in the JSON text `out` are those of `members`. The reader of
/// `serde_json` gives up on values that are nested too deeply, so `out` reads at all only if an
/// embedded value leaves room for one more level.
pub open spec fn reads_back(out: Seq<char>, members: Map<Seq<char>, JsonMember>) -> bool {
    &&& shallow(members) ==> parsed_json::json_parses(out)
    &&& parsed_json::json_parses(out) ==> forall|key: Seq<char>|
        #![trigger member_pointer(key)]
        plain_key(key) ==> parsed_json::json_text_at(out, member_pointer(key)) == if members.contains_key(
            key,
        ) {
            member_text(members[key])
        } else {
            None
        }
}

/// The members of an object with these strings, of which the last under a key counts.
pub open spec fn record_members(fields: Seq<(Seq<char>, Seq<char>)>) -> Map<Seq<char>, JsonMember>
    decreases fields.len(),
{
    if fields.len() == 0 {
        Map::empty()
    } else {
        record_members(fields.drop_last()).insert(
            fields.last().0,
            JsonMember::Text(fields.last().1),
        )
    }
}

/// What `serde_json` writes on one line for an object with these strings in this order.
pub open spec fn record_text(fields: Seq<(Seq<char>, Seq<char>)>) -> Seq<char> {
    let entries = Seq::new(
        fields.len(),
        |i: int| json_quoted(fields[i].0) + ":"@ + json_quoted(fields[i].1),
    );
    "{"@ + text::joined(entries, ","@) + "}"@
}

/// The views of the two texts of each field.
pub open spec fn field_texts(fields: Seq<(String, String)>) -> Seq<(Seq<char>, Seq<char>)> {
    Seq::new(fields.len(), |i: int| (fields[i].0@, fields[i].1@))
}

/// `serde::Serializer::collect_map` of `serde_json::Serializer` writes an object of strings on one
/// line, in the order given. Reading it back gives the strings, of which the last under a key
/// counts.
#[verifier::external_body]
pub(crate) fn write_record(fields: &Vec<(String, String)>) -> (out: String)
    ensures
        out@ == "{"@ + text::joined(
            Seq::new(
                fields@.len(),
                (|i: int| json_quoted(fields@[i].0@) + ":"@ + json_quoted(fields@[i].1@)),
            ),
            ","@,
        ) + "}"@,
        reads_back(out@, record_members(field_texts(fields@))),
{
    let mut out: Vec<u8> = Vec::new();
    let pairs = fields.iter().map(|f| (&f.0, &f.1));
    let _ = serde_json::Serializer::new(&mut out).collect_map(pairs);
    String::from_utf8(out).unwrap_or_default()
}

/// `serde_json::Map::new` is an object without members.
#[verifier::external_body]
pub(crate) fn empty_object() -> (object: JsonObject)
    ensures
        object@ == no_members(),
{
    JsonObject { map: serde_json::Map::new(), members: Ghost(no_members()) }
}

/// `serde_json::Map::insert` puts a string under a key, in place of what stood there.
#[verifier::external_body]
pub(crate) fn insert_text(object: &mut JsonObject, key: &str, text: &str)
    ensures
        final(object)@ == old(object)@.insert(key@, JsonMember::Text(text@)),
{
    object.map.insert(key.to_owned(), Value::String(text.to_owned()));
}

/// `serde_json::Map::insert` puts a value that was read under a key, in place of what stood there.
#[verifier::external_body]
pub(crate) fn insert_parsed(object: &mut JsonObject, key: &str, doc: &JsonDoc)
    ensures
        final(object)@ == old(object)@.insert(key@, JsonMember::Parsed(doc@)),
{
    object.map.insert(key.to_owned(), doc.value().clone());
}

/// `serde_json::Map::insert` puts another object under a key, in place of what stood there.
#[verifier::external_body]
pub(crate) fn insert_object(object: &mut JsonObject, key: &str, inner: JsonObject)
    ensures
        final(object)@ == old(object)@.insert(key@, JsonMember::Object(inner@)),
{
    object.map.insert(key.to_owned(), Value::Object(inner.map));
}

/// `serde_json::to_string` writes an object on one line. Reading it back gives the members.
#[verifier::external_body]
pub(crate) fn write_object(object: &JsonObject) -> (out: String)
    ensures
        out@ == json_object_text(object@),
        reads_back(out@, object@),
{
    serde_json::to_string(&object.map).unwrap_or_default()
}

/// `serde_json::to_string_pretty` writes an object with one member a line. Reading it back gives the
/// members.
#[verifier::external_body]
pub(crate) fn write_object_pretty(object: &JsonObject) -> (out: String)
    ensures
        out@ == json_object_pretty(object@),
        reads_back(out@, object@),
{
    serde_json::to_string_pretty(&object.map).unwrap_or_default()
}

} // verus!
