//! Reading JSON documents through `serde_json`.
//!
//! A parsed document is a `serde_json::Value`, which is opaque here. What it
//! holds is described by a [`JsonTree`], and the three calls below relate a
//! value to its tree.
use serde_json::Value;
use vstd::prelude::*;

verus! {

/// What a JSON value holds, as far as this library reads it: the characters of
/// a string, the members of an object, and nothing of the other kinds.
pub enum JsonTree {
    Text(Seq<char>),
    Object(Map<Seq<char>, JsonTree>),
    Other,
}

impl JsonTree {
    /// The member `key` of an object; nothing for any other kind of value.
    pub open spec fn member(self, key: Seq<char>) -> Option<JsonTree> {
        match self {
            JsonTree::Object(members) => if members.dom().contains(key) {
                Some(members[key])
            } else {
                None
            },
            _ => None,
        }
    }

    /// The characters of a string; nothing for any other kind of value.
    pub open spec fn text(self) -> Option<Seq<char>> {
        match self {
            JsonTree::Text(chars) => Some(chars),
            _ => None,
        }
    }

    /// The characters of the member `key`, where that member is a string.
    pub open spec fn text_member(self, key: Seq<char>) -> Option<Seq<char>> {
        match self.member(key) {
            Some(value) => value.text(),
            None => None,
        }
    }
}

/// `serde_json::Value`, whose contents are those of its [`json_tree`].
#[verifier::external_type_specification]
#[verifier::external_body]
pub struct ExValue(serde_json::Value);

/// `serde_json::Error`, of which nothing is said.
#[verifier::external_type_specification]
#[verifier::external_body]
pub struct ExError(serde_json::Error);

/// What a `serde_json::Value` holds.
pub uninterp spec fn json_tree(value: Value) -> JsonTree;

/// What the text of a JSON document denotes, and `None` where `serde_json`
/// does not accept the text.
pub uninterp spec fn json_document(text: Seq<char>) -> Option<JsonTree>;

/// Calls `serde_json::from_str`, reading any kind of value. Whether the text is
/// accepted, and what the value then holds, depends on the text alone.
#[verifier::external_body]
pub(crate) fn parse_json(text: &str) -> (result: Result<Value, serde_json::Error>)
    ensures
        match result {
            Ok(value) => json_document(text@) == Some(json_tree(value)),
            Err(_) => json_document(text@) is None,
        },
{
    serde_json::from_str(text)
}

/// Calls `serde_json::Value::get` with a string index: the member of that name
/// of an object, and `None` where there is no such member or the value is no
/// object.
#[verifier::external_body]
pub(crate) fn json_get<'a>(value: &'a Value, key: &str) -> (found: Option<&'a Value>)
    ensures
        match found {
            Some(member) => json_tree(*value).member(key@) == Some(json_tree(*member)),
            None => json_tree(*value).member(key@) is None,
        },
{
    value.get(key)
}

/// Calls `serde_json::Value::as_str`: the characters of a string, and `None`
/// for a value of any other kind.
#[verifier::external_body]
pub(crate) fn json_str<'a>(value: &'a Value) -> (text: Option<&'a str>)
    ensures
        match text {
            Some(chars) => json_tree(*value).text() == Some(chars@),
            None => json_tree(*value).text() is None,
        },
{
    value.as_str()
}

/// The string that stands under `key`, where there is one.
pub fn text_member<'a>(value: &'a Value, key: &str) -> (text: Option<&'a str>)
    ensures
        match text {
            Some(chars) => json_tree(*value).text_member(key@) == Some(chars@),
            None => json_tree(*value).text_member(key@) is None,
        },
{
    match json_get(value, key) {
        Some(member) => json_str(member),
        None => None,
    }
}

/// An object has its members and no others, and a string its characters; a value
/// of one kind has nothing of the other.
pub proof fn lemma_tree_contents(
    members: Map<Seq<char>, JsonTree>,
    chars: Seq<char>,
    key: Seq<char>,
)
    ensures
        members.dom().contains(key) ==> JsonTree::Object(members).member(key) == Some(members[key]),
        !members.dom().contains(key) ==> JsonTree::Object(members).member(key) is None,
        JsonTree::Object(members).text() is None,
        JsonTree::Text(chars).text() == Some(chars),
        JsonTree::Text(chars).member(key) is None,
        JsonTree::Other.text() is None,
        JsonTree::Other.member(key) is None,
{
}

/// The string under a key is that of the member, where the member is a string.
pub proof fn lemma_text_member(
    members: Map<Seq<char>, JsonTree>,
    key: Seq<char>,
    chars: Seq<char>,
)
    ensures
        JsonTree::Object(members).text_member(key) == Some(chars) <==> members.dom().contains(key)
            && members[key] == JsonTree::Text(chars),
{
}

} // verus!
