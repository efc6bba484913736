//! JSON documents as the wiki's replies need them.
//!
//! A document stays in the form in which the JSON parser built it. The
//! library reads it through the few functions at the end of this file, and
//! states what it reads over `JsonTree`, which is what a value holds.

use vstd::prelude::*;

verus! {

/// What a JSON value holds. Of a number only its value as an unsigned
/// integer counts, where it has one. The members of an object stand in the
/// order of the object's map, each name once.
pub ghost enum JsonTree {
    Null,
    Bool(bool),
    Number(Option<u64>),
    Text(Seq<char>),
    Array(Seq<JsonTree>),
    Object(Seq<(Seq<char>, JsonTree)>),
}

/// The position of the first of `members` that is called `name`, counted
/// from position `from`, or the number of members if there is none.
pub open spec fn member_position(
    members: Seq<(Seq<char>, JsonTree)>,
    name: Seq<char>,
    from: int,
) -> int
    decreases members.len() - from,
{
    if from < 0 || from >= members.len() {
        members.len() as int
    } else if members[from].0 == name {
        from
    } else {
        member_position(members, name, from + 1)
    }
}

impl JsonTree {
    /// The member called `name` of an object; `Null` where the value is no
    /// object or has no such member.
    pub open spec fn member(self, name: Seq<char>) -> JsonTree {
        match self {
            JsonTree::Object(members) => {
                let i = member_position(members, name, 0);
                if i < members.len() {
                    members[i].1
                } else {
                    JsonTree::Null
                }
            },
            _ => JsonTree::Null,
        }
    }

    /// The text of a string value.
    pub open spec fn text(self) -> Option<Seq<char>> {
        match self {
            JsonTree::Text(t) => Some(t),
            _ => None,
        }
    }

    /// The value of a number that is an unsigned integer.
    pub open spec fn number(self) -> Option<u64> {
        match self {
            JsonTree::Number(n) => n,
            _ => None,
        }
    }
}

/// A parsed JSON document.
#[verifier::external_type_specification]
#[verifier::external_body]
pub struct ExJsonValue(serde_json::Value);

/// The error of the JSON parser.
#[verifier::external_type_specification]
#[verifier::external_body]
pub struct ExJsonError(serde_json::Error);

/// What a parsed JSON value holds, variant by variant: of a number what
/// `as_u64` gives, the members of an object in the order of its map.
pub uninterp spec fn value_tree(v: serde_json::Value) -> JsonTree;

/// The text that describes an error of the JSON parser.
pub uninterp spec fn json_error_text(e: serde_json::Error) -> Seq<char>;

/// What reading `text` as a JSON document gives: what its value holds, or
/// the description of the parser's error.
pub uninterp spec fn json_reading(text: Seq<char>) -> Result<JsonTree, Seq<char>>;

/// Calls `serde_json::from_str` for a `serde_json::Value`. The outcome
/// depends on the text alone; the contract gives it the name
/// `json_reading`, through what the value holds or what describes the
/// error.
#[verifier::external_body]
fn json_value(text: &str) -> (r: Result<serde_json::Value, serde_json::Error>)
    ensures
        match r {
            Ok(v) => json_reading(text@) == Ok::<JsonTree, Seq<char>>(value_tree(v)),
            Err(e) => json_reading(text@) == Err::<JsonTree, Seq<char>>(json_error_text(e)),
        },
{
    serde_json::from_str::<serde_json::Value>(text)
}

/// Formats an error of the JSON parser with `Display`; the contract gives
/// the text its name.
#[verifier::external_body]
fn json_error_message(e: &serde_json::Error) -> (s: String)
    ensures
        s@ == json_error_text(*e),
{
    format!("{}", e)
}

/// Indexes a value by a string, which gives the member of that name of an
/// object, and `null` where the value is no object or has no such member.
#[verifier::external_body]
pub(crate) fn json_member<'a>(v: &'a serde_json::Value, name: &str) -> (r: &'a serde_json::Value)
    ensures
        value_tree(*r) == value_tree(*v).member(name@),
{
    &v[name]
}

/// Calls `serde_json::Value::is_null`.
#[verifier::external_body]
pub(crate) fn json_is_null(v: &serde_json::Value) -> (b: bool)
    ensures
        b == (value_tree(*v) is Null),
{
    v.is_null()
}

/// Calls `serde_json::Value::as_str`, which gives the text of a string
/// value and nothing of any other.
#[verifier::external_body]
pub(crate) fn json_text(v: &serde_json::Value) -> (r: Option<String>)
    ensures
        r is Some <==> value_tree(*v).text() is Some,
        r matches Some(text) ==> Some(text@) == value_tree(*v).text(),
{
    v.as_str().map(|text| text.to_owned())
}

/// Calls `serde_json::Value::as_u64`, which gives the value of a number
/// that is an unsigned integer and nothing of any other value.
#[verifier::external_body]
pub(crate) fn json_number(v: &serde_json::Value) -> (r: Option<u64>)
    ensures
        r == value_tree(*v).number(),
{
    v.as_u64()
}

/// Calls `serde_json::Value::as_object` and walks the map's `values`: the
/// values of the members of an object, in the order of the map, and
/// nothing of a value that is no object.
#[verifier::external_body]
pub(crate) fn json_values<'a>(v: &'a serde_json::Value) -> (r: Option<Vec<&'a serde_json::Value>>)
    ensures
        match r {
            Some(items) => value_tree(*v) matches JsonTree::Object(members) && items@.len()
                == members.len() && forall|i: int|
                0 <= i < items@.len() ==> value_tree(*#[trigger] items@[i]) == members[i].1,
            None => !(value_tree(*v) is Object),
        },
{
    v.as_object().map(|members| members.values().collect())
}

/// Reads `text` as a JSON document and gives its value, or the description
/// of the parser's error.
pub fn parse_json(text: &str) -> (r: Result<serde_json::Value, String>)
    ensures
        match r {
            Ok(json) => json_reading(text@) == Ok::<JsonTree, Seq<char>>(value_tree(json)),
            Err(message) => json_reading(text@) == Err::<JsonTree, Seq<char>>(message@),
        },
{
    match json_value(text) {
        Ok(v) => Ok(v),
        Err(e) => Err(json_error_message(&e)),
    }
}

} // verus!
