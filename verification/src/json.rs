//! JSON documents as the library reads them: a value type of its own, the
//! tree it denotes, and lookups by key. Parsing the text is serde_json's part.

use vstd::prelude::*;
use vstd::string::*;

verus! {

#[verifier::external_type_specification]
#[verifier::external_body]
pub struct ExSerdeJsonValue(serde_json::Value);

/// A JSON value. Numbers keep their text; objects keep their members in the
/// order the parser gives them.
#[derive(Debug)]
pub enum JsonValue {
    Null,
    Bool(bool),
    Number(String),
    Str(String),
    Array(Vec<JsonValue>),
    Object(Vec<(String, JsonValue)>),
}

/// The tree a JSON value denotes.
pub enum JsonTree {
    Null,
    Bool(bool),
    Number(Seq<char>),
    Str(Seq<char>),
    Array(Seq<JsonTree>),
    Object(Seq<(Seq<char>, JsonTree)>),
}

/// The tree of a value.
pub open spec fn json_tree(v: JsonValue) -> JsonTree
    decreases v,
{
    match v {
        JsonValue::Null => JsonTree::Null,
        JsonValue::Bool(b) => JsonTree::Bool(b),
        JsonValue::Number(n) => JsonTree::Number(n@),
        JsonValue::Str(s) => JsonTree::Str(s@),
        JsonValue::Array(items) => JsonTree::Array(
            Seq::new(
                items@.len(),
                |i: int|
                    if 0 <= i < items@.len() {
                        proof {
                            assert(decreases_to!(v => items));
                            assert(decreases_to!(items => items@));
                            assert(decreases_to!(items@ => items@[i]));
                        }
                        json_tree(items@[i])
                    } else {
                        JsonTree::Null
                    },
            ),
        ),
        JsonValue::Object(entries) => JsonTree::Object(
            Seq::new(
                entries@.len(),
                |i: int|
                    if 0 <= i < entries@.len() {
                        proof {
                            assert(decreases_to!(v => entries));
                            assert(decreases_to!(entries => entries@));
                            assert(decreases_to!(entries@ => entries@[i]));
                            assert(decreases_to!(entries@[i] => entries@[i].1));
                        }
                        (entries@[i].0@, json_tree(entries@[i].1))
                    } else {
                        (Seq::empty(), JsonTree::Null)
                    },
            ),
        ),
    }
}

/// The member of an object with the given key: the first one.
pub open spec fn find_member(members: Seq<(Seq<char>, JsonTree)>, key: Seq<char>) -> Option<JsonTree>
    decreases members.len(),
{
    if members.len() == 0 {
        None
    } else if members[0].0 == key {
        Some(members[0].1)
    } else {
        find_member(members.drop_first(), key)
    }
}

/// `value.get(key)` of serde_json: the member of an object, nothing for any
/// other value.
pub open spec fn tree_get(t: JsonTree, key: Seq<char>) -> Option<JsonTree> {
    match t {
        JsonTree::Object(members) => find_member(members, key),
        _ => None,
    }
}

/// The elements of an array.
pub open spec fn tree_as_array(t: Option<JsonTree>) -> Option<Seq<JsonTree>> {
    match t {
        Some(JsonTree::Array(items)) => Some(items),
        _ => None,
    }
}

/// The text of a string.
pub open spec fn tree_as_str(t: Option<JsonTree>) -> Option<Seq<char>> {
    match t {
        Some(JsonTree::Str(s)) => Some(s),
        _ => None,
    }
}

/// The members of an object.
pub open spec fn tree_as_object(t: Option<JsonTree>) -> Option<Seq<(Seq<char>, JsonTree)>> {
    match t {
        Some(JsonTree::Object(members)) => Some(members),
        _ => None,
    }
}

/// What `serde_json::from_slice::<serde_json::Value>` gives for a byte
/// string: the document's tree, or the error's message.
pub uninterp spec fn json_parse_result(bytes: Seq<u8>) -> Result<JsonTree, Seq<char>>;

/// Converts a serde_json value into the library's value, variant for
/// variant; numbers become their text. Claims nothing by itself: the tree of
/// what it returns is what `parse_json` names.
#[verifier::external_body]
fn from_serde_value(v: serde_json::Value) -> JsonValue {
    match v {
        serde_json::Value::Null => JsonValue::Null,
        serde_json::Value::Bool(b) => JsonValue::Bool(b),
        serde_json::Value::Number(n) => JsonValue::Number(n.to_string()),
        serde_json::Value::String(s) => JsonValue::Str(s),
        serde_json::Value::Array(a) => JsonValue::Array(a.into_iter().map(from_serde_value).collect()),
        serde_json::Value::Object(m) => JsonValue::Object(
            m.into_iter().map(|(k, x)| (k, from_serde_value(x))).collect(),
        ),
    }
}

/// `serde_json::from_slice::<serde_json::Value>`: the tree of the value it
/// parses, or its error's message, is the named `json_parse_result` of the
/// bytes.
#[verifier::external_body]
pub fn parse_json(bytes: &[u8]) -> (r: Result<JsonValue, String>)
    ensures
        match r {
            Ok(v) => json_parse_result(bytes@) == Ok::<JsonTree, Seq<char>>(json_tree(v)),
            Err(m) => json_parse_result(bytes@) == Err::<JsonTree, Seq<char>>(m@),
        },
{
    match serde_json::from_slice::<serde_json::Value>(bytes) {
        Ok(v) => Ok(from_serde_value(v)),
        Err(e) => Err(e.to_string()),
    }
}

/// `value.get(key)`.
pub fn json_get<'a>(v: &'a JsonValue, key: &str) -> (r: Option<&'a JsonValue>)
    ensures
        match r {
            Some(x) => tree_get(json_tree(*v), key@) == Some(json_tree(*x)),
            None => tree_get(json_tree(*v), key@) is None,
        },
{
    match v {
        JsonValue::Object(members) => {
            let ghost ms = match json_tree(*v) {
                JsonTree::Object(m) => m,
                _ => Seq::empty(),
            };
            assert(ms.len() == members@.len());
            assert(ms.subrange(0, ms.len() as int) =~= ms);
            let mut i: usize = 0;
            while i < members.len()
                invariant
                    i <= members@.len(),
                    ms.len() == members@.len(),
                    json_tree(*v) == JsonTree::Object(ms),
                    forall|k: int|
                        0 <= k < ms.len() ==> #[trigger] ms[k] == (
                            members@[k].0@,
                            json_tree(members@[k].1),
                        ),
                    find_member(ms, key@) == find_member(ms.subrange(i as int, ms.len() as int), key@),
                decreases members.len() - i,
            {
                let ghost rest = ms.subrange(i as int, ms.len() as int);
                assert(rest.drop_first() =~= ms.subrange(i + 1, ms.len() as int));
                assert(rest[0] == ms[i as int]);
                if crate::text::string_eq_str(&members[i].0, key) {
                    return Some(&members[i].1);
                }
                i = i + 1;
            }
            None
        },
        _ => None,
    }
}

/// `value.as_array()`.
pub fn json_as_array(v: Option<&JsonValue>) -> (r: Option<&Vec<JsonValue>>)
    ensures
        match r {
            Some(items) => tree_as_array(opt_tree(v)) == Some(json_trees(items@)),
            None => tree_as_array(opt_tree(v)) is None,
        },
{
    match v {
        Some(JsonValue::Array(items)) => {
            let ghost t = json_trees(items@);
            assert(tree_as_array(opt_tree(v)) == Some(t)) by {
                assert(tree_as_array(opt_tree(v))->0 =~= t);
            }
            Some(items)
        },
        _ => None,
    }
}

/// `value.as_str()`.
pub fn json_as_str(v: Option<&JsonValue>) -> (r: Option<&String>)
    ensures
        match r {
            Some(s) => tree_as_str(opt_tree(v)) == Some(s@),
            None => tree_as_str(opt_tree(v)) is None,
        },
{
    match v {
        Some(JsonValue::Str(s)) => Some(s),
        _ => None,
    }
}

/// `value.as_object()`.
pub fn json_as_object(v: Option<&JsonValue>) -> (r: Option<&Vec<(String, JsonValue)>>)
    ensures
        match r {
            Some(members) => tree_as_object(opt_tree(v)) == Some(
                Seq::new(members@.len(), |i: int| (members@[i].0@, json_tree(members@[i].1))),
            ),
            None => tree_as_object(opt_tree(v)) is None,
        },
{
    match v {
        Some(JsonValue::Object(members)) => {
            let ghost t = Seq::new(
                members@.len(),
                |i: int| (members@[i].0@, json_tree(members@[i].1)),
            );
            assert(tree_as_object(opt_tree(v)) == Some(t)) by {
                assert(tree_as_object(opt_tree(v))->0 =~= t);
            }
            Some(members)
        },
        _ => None,
    }
}

/// The trees of a sequence of values.
pub open spec fn json_trees(s: Seq<JsonValue>) -> Seq<JsonTree> {
    Seq::new(s.len(), |i: int| json_tree(s[i]))
}

/// The tree of a value that may be absent.
pub open spec fn opt_tree(v: Option<&JsonValue>) -> Option<JsonTree> {
    match v {
        Some(x) => Some(json_tree(*x)),
        None => None,
    }
}

} // verus!
