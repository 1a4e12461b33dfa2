//! JSON payloads and path queries. Payloads arrive as `serde_json::Value`,
//! which stays opaque here; what such a value holds is named by [`tree_of`],
//! so that everything downstream can be tied to the payload's content. The
//! shape analysis the library performs works on [`JsonValue`], the library's
//! own tree; path queries go to the `jsonpath_rust` crate, their results
//! named as functions of the queried content and the path.

use vstd::prelude::*;
use jsonpath_rust::JsonPath;

verus! {

/// A JSON tree in the library's own representation. Numbers are held as
/// their decimal texts: the extraction logic only ever classifies them and
/// passes them through, it never computes with them.
#[derive(Debug, PartialEq, Eq)]
pub enum JsonValue {
    Null,
    Bool(bool),
    /// A number, as its decimal text.
    Num(String),
    Str(String),
    Arr(Vec<JsonValue>),
    Obj(Vec<(String, JsonValue)>),
}

/// The element sequence of an array value, empty for any other value.
pub open spec fn arr_elems(m: JsonValue) -> Seq<JsonValue> {
    match m {
        JsonValue::Arr(a) => a@,
        _ => Seq::empty(),
    }
}

#[verifier::external_type_specification]
#[verifier::external_body]
pub struct ExValue(serde_json::Value);

/// The tree a `serde_json::Value` holds, numbers as their decimal texts.
pub uninterp spec fn tree_of(v: serde_json::Value) -> JsonValue;

/// The tree a text parses to as JSON, or nothing where the text is not
/// well-formed JSON; a function of the text alone.
pub uninterp spec fn json_parsed(s: Seq<char>) -> Option<JsonValue>;

/// The matches of a JSONPath query in a value, in document order, as trees;
/// nothing where the path is not a well-formed query. A function of the
/// queried value's content and the path alone.
pub uninterp spec fn matches_in(t: JsonValue, path: Seq<char>) -> Option<Seq<JsonValue>>;

/// Relies on serde_json::from_str: `Some` exactly when the text is
/// well-formed JSON, and then the parsed value; a function of the text
/// alone.
#[verifier::external_body]
pub(crate) fn parse_value(text: &str) -> (r: Option<serde_json::Value>)
    ensures
        r is Some <==> json_parsed(text@) is Some,
        r matches Some(v) ==> json_parsed(text@) == Some(tree_of(v)),
{
    serde_json::from_str(text).ok()
}

/// Relies on jsonpath_rust::JsonPath::query: the matches of the path in the
/// value, in document order; `None` where the path is not a well-formed
/// query. What the matches hold is a function of the queried value's content
/// and the path alone.
#[verifier::external_body]
pub(crate) fn query_nodes(v: &serde_json::Value, path: &str) -> (r: Option<
    Vec<serde_json::Value>,
>)
    ensures
        r is Some <==> matches_in(tree_of(*v), path@) is Some,
        r matches Some(ms) ==> matches_in(tree_of(*v), path@) == Some(
            ms@.map_values(|m: serde_json::Value| tree_of(m)),
        ),
{
    match v.query(path) {
        Ok(ms) => Some(ms.into_iter().cloned().collect()),
        Err(_) => None,
    }
}

/// Relies on serde_json::Value::as_array: the elements, exactly where the
/// value is an array.
#[verifier::external_body]
pub(crate) fn array_items(v: &serde_json::Value) -> (r: Option<Vec<serde_json::Value>>)
    ensures
        r is Some <==> tree_of(*v) is Arr,
        r matches Some(items) ==> arr_elems(tree_of(*v)) == items@.map_values(
            |m: serde_json::Value| tree_of(m),
        ),
{
    Some(v.as_array()?.clone())
}

/// Relies on reading serde_json::Value's variants: the value's tree in the
/// library's own representation, numbers as their decimal texts.
#[verifier::external_body]
pub(crate) fn to_tree(v: &serde_json::Value) -> (r: JsonValue)
    ensures
        r == tree_of(*v),
{
    match v {
        serde_json::Value::Null => JsonValue::Null,
        serde_json::Value::Bool(b) => JsonValue::Bool(*b),
        serde_json::Value::Number(n) => JsonValue::Num(n.to_string()),
        serde_json::Value::String(s) => JsonValue::Str(s.clone()),
        serde_json::Value::Array(a) => JsonValue::Arr(a.iter().map(to_tree).collect()),
        serde_json::Value::Object(o) => JsonValue::Obj(
            o.iter().map(|(k, val)| (k.clone(), to_tree(val))).collect(),
        ),
    }
}

/// The matches of a path query in a value, as library trees; `None` where
/// the query itself failed.
pub(crate) fn query_trees(v: &serde_json::Value, path: &str) -> (r: Option<Vec<JsonValue>>)
    ensures
        r is Some <==> matches_in(tree_of(*v), path@) is Some,
        r matches Some(ms) ==> matches_in(tree_of(*v), path@) == Some(ms@),
{
    match query_nodes(v, path) {
        Option::None => Option::None,
        Option::Some(nodes) => {
            let ghost node_trees = nodes@.map_values(|m: serde_json::Value| tree_of(m));
            let mut out: Vec<JsonValue> = Vec::new();
            let mut i: usize = 0;
            while i < nodes.len()
                invariant
                    0 <= i <= nodes@.len(),
                    node_trees == nodes@.map_values(|m: serde_json::Value| tree_of(m)),
                    out@ == node_trees.subrange(0, i as int),
                decreases nodes.len() - i,
            {
                out.push(to_tree(&nodes[i]));
                i = i + 1;
                assert(out@ =~= node_trees.subrange(0, i as int));
            }
            assert(out@ =~= node_trees);
            Option::Some(out)
        },
    }
}

} // verus!
