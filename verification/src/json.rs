//! A parsed JSON document as a tree, with accessors that fail softly.

use vstd::prelude::*;

verus! {

/// A JSON value.
///
/// Of a number the tree keeps its value only where it is an integer that fits
/// `i64`; any other number is `Number(None)`. An object is the list of its
/// members, each a key with its value.
#[derive(Debug)]
pub enum Json {
    Null,
    Bool(bool),
    Number(Option<i64>),
    Text(String),
    Array(Vec<Json>),
    Object(Vec<(String, Json)>),
}

/// The value of the first member of `members` whose key is `key`.
pub open spec fn member(members: Seq<(String, Json)>, key: Seq<char>) -> Option<Json>
    decreases members.len(),
{
    if members.len() == 0 {
        None
    } else if members[0].0@ == key {
        Some(members[0].1)
    } else {
        member(members.skip(1), key)
    }
}

/// What an optional borrowed value stands for.
pub open spec fn owned(found: Option<&Json>) -> Option<Json> {
    match found {
        Some(value) => Some(*value),
        None => None,
    }
}

impl Json {
    /// The element at `index`, where this is an array that long.
    pub open spec fn item(self, index: int) -> Option<Json> {
        match self {
            Json::Array(items) => if 0 <= index < items@.len() {
                Some(items@[index])
            } else {
                None
            },
            _ => None,
        }
    }

    /// The last element, where this is an array that has one.
    pub open spec fn last_item(self) -> Option<Json> {
        match self {
            Json::Array(items) => if items@.len() > 0 {
                Some(items@.last())
            } else {
                None
            },
            _ => None,
        }
    }

    /// The member under `key`, where this is an object that has one.
    pub open spec fn field(self, key: Seq<char>) -> Option<Json> {
        match self {
            Json::Object(members) => member(members@, key),
            _ => None,
        }
    }

    /// The elements, where this is an array.
    pub open spec fn elements(self) -> Option<Seq<Json>> {
        match self {
            Json::Array(items) => Some(items@),
            _ => None,
        }
    }

    /// The characters, where this is a string.
    pub open spec fn text(self) -> Option<Seq<char>> {
        match self {
            Json::Text(s) => Some(s@),
            _ => None,
        }
    }

    /// The value, where this is an integer that fits `i64`.
    pub open spec fn integer(self) -> Option<i64> {
        match self {
            Json::Number(n) => n,
            _ => None,
        }
    }

    /// The element at `index` of an array; `None` for anything else.
    pub fn get(&self, index: usize) -> (found: Option<&Json>)
        ensures
            owned(found) == self.item(index as int),
    {
        match self {
            Json::Array(items) => if index < items.len() {
                Some(&items[index])
            } else {
                None
            },
            _ => None,
        }
    }

    /// The last element of an array; `None` for anything else.
    pub fn last(&self) -> (found: Option<&Json>)
        ensures
            owned(found) == self.last_item(),
    {
        match self {
            Json::Array(items) => if items.len() > 0 {
                Some(&items[items.len() - 1])
            } else {
                None
            },
            _ => None,
        }
    }

    /// The member of an object under `key`; `None` for anything else.
    pub fn lookup(&self, key: &str) -> (found: Option<&Json>)
        ensures
            owned(found) == self.field(key@),
    {
        match self {
            Json::Object(members) => {
                let wanted = key.to_owned();
                let mut at: usize = 0;
                proof {
                    assert(members@.skip(0) =~= members@);
                }
                while at < members.len()
                    invariant
                        at <= members.len(),
                        wanted@ == key@,
                        self.field(key@) == member(members@.skip(at as int), key@),
                    decreases members.len() - at,
                {
                    if members[at].0 == wanted {
                        return Some(&members[at].1);
                    }
                    proof {
                        assert(members@.skip(at as int).skip(1) =~= members@.skip(at + 1));
                    }
                    at += 1;
                }
                None
            },
            _ => None,
        }
    }

    /// The elements of an array; `None` for anything else.
    pub fn as_array(&self) -> (found: Option<&Vec<Json>>)
        ensures
            found is Some <==> self.elements() is Some,
            found is Some ==> found->0@ == self.elements()->0,
    {
        match self {
            Json::Array(items) => Some(items),
            _ => None,
        }
    }

    /// The characters of a string; `None` for anything else.
    pub fn as_str(&self) -> (found: Option<&str>)
        ensures
            found is Some <==> self.text() is Some,
            found is Some ==> found->0@ == self.text()->0,
    {
        match self {
            Json::Text(s) => Some(s.as_str()),
            _ => None,
        }
    }

    /// The value of an integer that fits `i64`; `None` for anything else.
    pub fn as_i64(&self) -> (found: Option<i64>)
        ensures
            found == self.integer(),
    {
        match self {
            Json::Number(n) => *n,
            _ => None,
        }
    }
}

/// What `serde_json` makes of `text` as one JSON document: the tree, or `None`
/// where it reports an error.
pub uninterp spec fn parsed(text: Seq<u8>) -> Option<Json>;

/// `serde_json::Value`, the parser's own tree. Nothing is said of what is
/// inside; it is only handed from the parser to `tree_of`.
#[verifier::external_type_specification]
#[verifier::external_body]
pub struct ExValue(serde_json::Value);

/// Copies a `serde_json::Value` into a tree, variant by variant: a number by
/// `serde_json::Number::as_i64`, the members of an object in the order in
/// which `serde_json::Map::into_iter` gives them.
///
/// Trusted, and nothing is claimed of the result.
#[verifier::external_body]
fn tree_of(value: serde_json::Value) -> Json {
    match value {
        serde_json::Value::Null => Json::Null,
        serde_json::Value::Bool(flag) => Json::Bool(flag),
        serde_json::Value::Number(number) => Json::Number(number.as_i64()),
        serde_json::Value::String(text) => Json::Text(text),
        serde_json::Value::Array(items) => Json::Array(items.into_iter().map(tree_of).collect()),
        serde_json::Value::Object(members) => Json::Object(
            members.into_iter().map(|(key, value)| (key, tree_of(value))).collect(),
        ),
    }
}

/// Parses `text` as one JSON document with `serde_json::from_slice`.
///
/// Trusted: the tree, or the refusal, depends on the bytes alone; `parsed`
/// is the name of that dependence, and nothing more is claimed.
#[verifier::external_body]
pub(crate) fn parse(text: &[u8]) -> (tree: Option<Json>)
    ensures
        tree == parsed(text@),
{
    match serde_json::from_slice::<serde_json::Value>(text) {
        Ok(value) => Some(tree_of(value)),
        Err(_) => None,
    }
}

} // verus!
