//! Reading JSON text. The text is parsed by `serde_json`, one level at a
//! time: a document is either a scalar, or a container of parts that are
//! JSON texts themselves and are read in turn.

use vstd::prelude::*;
use crate::json::{distinct_keys, view_of, views, well_keyed, Float64, Json, JsonNumber};

verus! {

/// The top level of a JSON document. A number and the parts of a container
/// are kept as JSON text; the members of an object are its keys and, in the
/// same order, their values.
#[derive(Debug, PartialEq, Eq)]
pub enum Node {
    Null,
    Bool(bool),
    Number(String),
    String(String),
    Array(Vec<String>),
    Object { keys: Vec<String>, parts: Vec<String> },
}

/// The model of a `Node`.
pub enum NodeView {
    Null,
    Bool(bool),
    Number(Seq<char>),
    String(Seq<char>),
    Array(Seq<Seq<char>>),
    Object { keys: Seq<Seq<char>>, parts: Seq<Seq<char>> },
}

impl View for Node {
    type V = NodeView;

    open spec fn view(&self) -> NodeView {
        match self {
            Node::Null => NodeView::Null,
            Node::Bool(b) => NodeView::Bool(*b),
            Node::Number(text) => NodeView::Number(text@),
            Node::String(s) => NodeView::String(s@),
            Node::Array(parts) => NodeView::Array(views(parts@)),
            Node::Object { keys, parts } => NodeView::Object {
                keys: views(keys@),
                parts: views(parts@),
            },
        }
    }
}

/// Containers nested deeper than this are refused. The parser itself gives
/// up before this depth, so the bound is never the one that decides.
pub const DEPTH_LIMIT: u32 = 128;

/// The top level of the document that `serde_json::from_str` reads from a
/// text, at type `serde_json::Value`, with each number and each part of a
/// container written out again by `to_string`; `None` where the parser
/// reports an error.
pub uninterp spec fn json_node(text: Seq<char>) -> Option<NodeView>;

/// What `Number::as_u64`, `Number::as_i64` and `Number::as_f64` read of the
/// number that `serde_json::from_str` reads from a text, at type
/// `serde_json::Number`; `None` where the parser reports an error.
pub uninterp spec fn json_number(text: Seq<char>) -> Option<JsonNumber>;

/// `serde_json::from_str`, at type `serde_json::Value`: the top level of the
/// parsed document, which is `json_node` of the text. A number and the parts
/// of a container are written out by `to_string`; the keys of an object and
/// its values come in the order in which the object iterates, one value for
/// each key, and no key twice.
#[verifier::external_body]
fn read_node(text: &str) -> (r: Option<Node>)
    ensures
        view_of(r) == json_node(text@),
        r matches Some(Node::Object { keys, parts }) ==> keys@.len() == parts@.len(),
        r matches Some(Node::Object { keys, parts }) ==> forall|i: int, j: int|
            0 <= i < j < keys@.len() ==> (#[trigger] keys@[i])@ != (#[trigger] keys@[j])@,
{
    let value: serde_json::Value = serde_json::from_str(text).ok()?;
    Some(
        match value {
            serde_json::Value::Null => Node::Null,
            serde_json::Value::Bool(b) => Node::Bool(b),
            serde_json::Value::Number(n) => Node::Number(n.to_string()),
            serde_json::Value::String(s) => Node::String(s),
            serde_json::Value::Array(a) => Node::Array(a.iter().map(ToString::to_string).collect()),
            serde_json::Value::Object(m) => Node::Object {
                keys: m.keys().cloned().collect(),
                parts: m.values().map(ToString::to_string).collect(),
            },
        },
    )
}

/// `serde_json::from_str`, at type `serde_json::Number`, then
/// `Number::as_u64`, `as_i64` and `as_f64`: the three readings of the parsed
/// number, the double by its bits, which are `json_number` of the text.
#[verifier::external_body]
fn read_number(text: &str) -> (r: Option<JsonNumber>)
    ensures
        r == json_number(text@),
{
    let n: serde_json::Number = serde_json::from_str(text).ok()?;
    let float = match n.as_f64() {
        Some(f) => Some(Float64 { bits: f.to_bits() }),
        None => None,
    };
    Some(JsonNumber { unsigned: n.as_u64(), signed: n.as_i64(), float })
}

/// Whether `text` is a JSON document whose containers are nested at most
/// `depth` levels deep.
pub open spec fn readable(text: Seq<char>, depth: nat) -> bool
    decreases depth,
{
    match json_node(text) {
        None => false,
        Some(NodeView::Number(number)) => json_number(number) is Some,
        Some(NodeView::Array(parts)) => depth > 0 && forall|i: int|
            0 <= i < parts.len() ==> readable(#[trigger] parts[i], (depth - 1) as nat),
        Some(NodeView::Object { keys, parts }) => depth > 0 && keys.len() == parts.len()
            && forall|i: int|
            0 <= i < parts.len() ==> readable(#[trigger] parts[i], (depth - 1) as nat),
        Some(_) => true,
    }
}

/// A container with a part that cannot be read cannot be read.
proof fn lemma_part_decides(text: Seq<char>, depth: nat, i: int)
    requires
        depth > 0,
        match json_node(text) {
            Some(NodeView::Array(parts)) => 0 <= i < parts.len() && !readable(
                parts[i],
                (depth - 1) as nat,
            ),
            Some(NodeView::Object { keys, parts }) => 0 <= i < parts.len() && !readable(
                parts[i],
                (depth - 1) as nat,
            ),
            _ => false,
        },
    ensures
        !readable(text, depth),
{
}

/// Whether `tree` is the value that the JSON document `text` stands for: it
/// is the scalar that the document is, or the container of the values that
/// the parts of the document stand for, in their order and, in an object,
/// under their keys.
pub open spec fn is_tree_of(tree: Json, text: Seq<char>, depth: nat) -> bool
    decreases depth,
{
    match json_node(text) {
        None => false,
        Some(NodeView::Null) => tree == Json::Null,
        Some(NodeView::Bool(b)) => tree == Json::Bool(b),
        Some(NodeView::Number(number)) => json_number(number) is Some && tree == Json::Number(
            json_number(number)->0,
        ),
        Some(NodeView::String(s)) => tree.text() == Some(s),
        Some(NodeView::Array(parts)) => {
            &&& depth > 0
            &&& tree.elements() is Some
            &&& tree.elements()->0.len() == parts.len()
            &&& forall|i: int|
                0 <= i < parts.len() ==> is_tree_of(
                    tree.elements()->0[i],
                    #[trigger] parts[i],
                    (depth - 1) as nat,
                )
        },
        Some(NodeView::Object { keys, parts }) => {
            &&& depth > 0
            &&& keys.len() == parts.len()
            &&& tree.members() is Some
            &&& tree.members()->0.len() == parts.len()
            &&& forall|i: int|
                0 <= i < parts.len() ==> (#[trigger] tree.members()->0[i]).0@ == keys[i]
            &&& forall|i: int|
                0 <= i < parts.len() ==> is_tree_of(
                    tree.members()->0[i].1,
                    #[trigger] parts[i],
                    (depth - 1) as nat,
                )
        },
    }
}

/// What reading `text` comes to: the value that the document stands for,
/// where the text is a document of at most `depth` levels, and nothing
/// else.
pub open spec fn is_reading_of(r: Option<Json>, text: Seq<char>, depth: nat) -> bool {
    match r {
        Some(tree) => readable(text, depth) && is_tree_of(tree, text, depth),
        None => !readable(text, depth),
    }
}

/// The value tree of the JSON document `text`, or `None` where the text is
/// no document or its containers are nested deeper than `fuel` levels.
fn lift(text: &str, fuel: u32) -> (r: Option<Json>)
    ensures
        is_reading_of(r, text@, fuel as nat),
        r matches Some(tree) ==> well_keyed(tree, fuel as nat),
    decreases fuel,
{
    let node = match read_node(text) {
        Some(node) => node,
        None => {
            return None;
        },
    };
    match node {
        Node::Null => Some(Json::Null),
        Node::Bool(b) => Some(Json::Bool(b)),
        Node::Number(number) => match read_number(number.as_str()) {
            Some(n) => Some(Json::Number(n)),
            None => None,
        },
        Node::String(s) => Some(Json::String(s)),
        Node::Array(parts) => {
            if fuel == 0 {
                return None;
            }
            let ghost texts = views(parts@);
            let mut out: Vec<Json> = Vec::new();
            let mut i: usize = 0;
            while i < parts.len()
                invariant
                    fuel > 0,
                    i <= parts.len(),
                    out@.len() == i,
                    texts == views(parts@),
                    json_node(text@) == Some(NodeView::Array(texts)),
                    forall|k: int|
                        0 <= k < i ==> readable(#[trigger] texts[k], (fuel - 1) as nat)
                            && is_tree_of(out@[k], texts[k], (fuel - 1) as nat),
                    forall|k: int| 0 <= k < i ==> well_keyed(#[trigger] out@[k], (fuel - 1) as nat),
                decreases parts.len() - i,
            {
                assert(texts[i as int] == parts@[i as int]@);
                match lift(parts[i].as_str(), fuel - 1) {
                    Some(j) => {
                        out.push(j);
                    },
                    None => {
                        proof {
                            lemma_part_decides(text@, fuel as nat, i as int);
                        }
                        return None;
                    },
                }
                i += 1;
            }
            Some(Json::Array(out))
        },
        Node::Object { keys, parts } => {
            if fuel == 0 {
                return None;
            }
            let ghost names = views(keys@);
            let ghost texts = views(parts@);
            let mut out: Vec<(String, Json)> = Vec::new();
            let mut i: usize = 0;
            while i < parts.len()
                invariant
                    fuel > 0,
                    i <= parts.len(),
                    keys@.len() == parts@.len(),
                    out@.len() == i,
                    names == views(keys@),
                    texts == views(parts@),
                    json_node(text@) == Some(NodeView::Object { keys: names, parts: texts }),
                    forall|k: int| 0 <= k < i ==> (#[trigger] out@[k]).0@ == names[k],
                    forall|k: int|
                        0 <= k < i ==> readable(#[trigger] texts[k], (fuel - 1) as nat)
                            && is_tree_of(out@[k].1, texts[k], (fuel - 1) as nat),
                    forall|k: int|
                        0 <= k < i ==> well_keyed((#[trigger] out@[k]).1, (fuel - 1) as nat),
                    forall|a: int, b: int|
                        0 <= a < b < keys@.len() ==> (#[trigger] keys@[a])@ != (
                        #[trigger] keys@[b])@,
                decreases parts.len() - i,
            {
                assert(texts[i as int] == parts@[i as int]@);
                assert(names[i as int] == keys@[i as int]@);
                match lift(parts[i].as_str(), fuel - 1) {
                    Some(j) => {
                        out.push((keys[i].clone(), j));
                    },
                    None => {
                        proof {
                            lemma_part_decides(text@, fuel as nat, i as int);
                        }
                        return None;
                    },
                }
                i += 1;
            }
            assert(distinct_keys(out@)) by {
                assert forall|a: int, b: int| 0 <= a < b < out@.len() implies (
                #[trigger] out@[a]).0@ != (#[trigger] out@[b]).0@ by {
                    assert(names[a] == keys@[a]@);
                    assert(names[b] == keys@[b]@);
                }
            }
            Some(Json::Object(out))
        },
    }
}

/// Parses `text` as one JSON document: the value that the document stands
/// for, or `None` where the text is not valid JSON. No object of the value
/// holds a key twice.
pub fn parse_json(text: &str) -> (r: Option<Json>)
    ensures
        is_reading_of(r, text@, DEPTH_LIMIT as nat),
        r matches Some(tree) ==> well_keyed(tree, DEPTH_LIMIT as nat),
{
    lift(text, DEPTH_LIMIT)
}

} // verus!
