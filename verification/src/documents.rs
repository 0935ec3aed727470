//! Documents as text: reading YAML and JSON into values, and writing values
//! out again. The reading and the writing are done by `serde_yaml` and
//! `serde_json`; what they return is named here, not described.

use crate::error::{AppError, ErrorModel};
use crate::node::{Node, Number, Tree};
use vstd::prelude::*;

verus! {

/// The value type of `serde_yaml`, declared so that the converters below
/// can take and return it. Nothing is known of what such a value holds.
#[verifier::external_type_specification]
#[verifier::external_body]
pub struct ExYamlValue(serde_yaml::Value);

/// What `serde_yaml` reads out of a text: the value of the document, no
/// value where the document holds what a [`Node`] cannot (a tagged value, a
/// key that is no text, tagged or not), or the message of the error.
pub uninterp spec fn yaml_document(text: Seq<char>) -> Result<Option<Tree>, Seq<char>>;

/// What `serde_yaml` writes for a value: the text, or the message of the
/// error.
pub uninterp spec fn yaml_rendering(tree: Tree) -> Result<Seq<char>, Seq<char>>;

/// What `serde_json` reads out of a text: the value of the document, no
/// value where the document holds what a [`Node`] cannot, or the message of
/// the error.
pub uninterp spec fn json_document(text: Seq<char>) -> Result<Option<Tree>, Seq<char>>;

/// What `serde_json` writes for the YAML value that stands for a value:
/// the text, or the message of the error.
pub uninterp spec fn json_rendering(tree: Tree) -> Result<Seq<char>, Seq<char>>;

/// The model of what a reader returns.
pub open spec fn read_outcome(r: Result<Option<Node>, String>) -> Result<Option<Tree>, Seq<char>> {
    match r {
        Ok(Some(node)) => Ok(Some(node@)),
        Ok(None) => Ok(None),
        Err(message) => Err(message@),
    }
}

/// The model of what a writer returns.
pub open spec fn write_outcome(r: Result<String, String>) -> Result<Seq<char>, Seq<char>> {
    match r {
        Ok(text) => Ok(text@),
        Err(message) => Err(message@),
    }
}

/// Turns a number of `serde_yaml` into a [`Number`]: an integer where it is
/// one, and else the text that `serde_yaml` prints for it.
///
/// Trusted: nothing is claimed of the result.
#[verifier::external_body]
fn number_of_yaml(v: &serde_yaml::Value) -> Option<Node> {
    match (v.as_u64(), v.as_i64(), v) {
        (Some(u), _, _) => Some(Node::Number(Number::PosInt(u))),
        (_, Some(i), _) => Some(Node::Number(Number::NegInt(i))),
        (_, _, serde_yaml::Value::Number(n)) => Some(Node::Number(Number::Float(n.to_string()))),
        _ => None,
    }
}

/// Turns a mapping of `serde_yaml` into a mapping node, entry by entry. A
/// key is taken as `serde_yaml` gives it as text, which looks through a
/// tag; there is no node for a mapping with a key that is no text.
///
/// Trusted: nothing is claimed of the result.
#[verifier::external_body]
fn mapping_of_yaml(v: &serde_yaml::Value) -> Option<Node> {
    let entries = v.as_mapping()?.iter();
    let turned = entries.map(|(k, v)| Some((k.as_str()?.to_string(), node_of_yaml(v)?)));
    turned.collect::<Option<_>>().map(Node::Mapping)
}

/// Turns a value of `serde_yaml` into a [`Node`], variant by variant. There
/// is no node for a tagged value.
///
/// Trusted: nothing is claimed of the result.
#[verifier::external_body]
fn node_of_yaml(v: &serde_yaml::Value) -> Option<Node> {
    match v {
        serde_yaml::Value::Null => Some(Node::Null),
        serde_yaml::Value::Bool(b) => Some(Node::Bool(*b)),
        serde_yaml::Value::String(s) => Some(Node::String(s.clone())),
        serde_yaml::Value::Number(_) => number_of_yaml(v),
        serde_yaml::Value::Sequence(items) => {
            items.iter().map(node_of_yaml).collect::<Option<_>>().map(Node::Sequence)
        },
        serde_yaml::Value::Mapping(_) => mapping_of_yaml(v),
        serde_yaml::Value::Tagged(_) => None,
    }
}

/// Turns a [`Number`] into a number of `serde_yaml`. There is no value for
/// a floating-point number whose text `serde_yaml` does not read as a
/// number.
///
/// Trusted: nothing is claimed of the result.
#[verifier::external_body]
fn yaml_of_number(n: &Number) -> Option<serde_yaml::Value> {
    Some(serde_yaml::Value::Number(match n {
        Number::PosInt(u) => (*u).into(),
        Number::NegInt(i) => (*i).into(),
        Number::Float(s) => s.parse().ok()?,
    }))
}

/// Turns the entries of a mapping node into a mapping of `serde_yaml`.
///
/// Trusted: nothing is claimed of the result.
#[verifier::external_body]
fn yaml_of_mapping(entries: &Vec<(String, Node)>) -> Option<serde_yaml::Value> {
    let turned = entries.iter().map(|(k, v)| Some((k.clone().into(), yaml_of_node(v)?)));
    turned.collect::<Option<_>>().map(serde_yaml::Value::Mapping)
}

/// Turns a [`Node`] into a value of `serde_yaml`, variant by variant.
///
/// Trusted: nothing is claimed of the result.
#[verifier::external_body]
fn yaml_of_node(node: &Node) -> Option<serde_yaml::Value> {
    match node {
        Node::Null => Some(serde_yaml::Value::Null),
        Node::Bool(b) => Some(serde_yaml::Value::Bool(*b)),
        Node::String(s) => Some(serde_yaml::Value::String(s.clone())),
        Node::Number(n) => yaml_of_number(n),
        Node::Sequence(items) => {
            items.iter().map(yaml_of_node).collect::<Option<_>>().map(serde_yaml::Value::Sequence)
        },
        Node::Mapping(entries) => yaml_of_mapping(entries),
    }
}

/// Reads a YAML document.
///
/// Trusted: this is `serde_yaml::from_str` for a value of any shape. Its
/// result depends on the text alone and is named, not described.
#[verifier::external_body]
pub(crate) fn read_yaml(text: &str) -> (r: Result<Option<Node>, String>)
    ensures
        read_outcome(r) == yaml_document(text@),
{
    match serde_yaml::from_str::<serde_yaml::Value>(text) {
        Ok(v) => Ok(node_of_yaml(&v)),
        Err(e) => Err(e.to_string()),
    }
}

/// Writes a value as YAML.
///
/// Trusted: this is `serde_yaml::to_string`. Its result depends on the
/// value alone and is named, not described.
#[verifier::external_body]
pub(crate) fn write_yaml(node: &Node) -> (r: Result<String, String>)
    ensures
        write_outcome(r) == yaml_rendering(node@),
{
    match yaml_of_node(node) {
        Some(v) => serde_yaml::to_string(&v).map_err(|e| e.to_string()),
        None => Err(String::new()),
    }
}

/// Reads a JSON document.
///
/// Trusted: this is `serde_json::from_str`, which is asked for the value of
/// `serde_yaml` that the document stands for, so that a number read from
/// JSON and the same number read from YAML are the same node. An object
/// that names a key twice is an error to it. Its result depends on the text
/// alone and is named, not described.
#[verifier::external_body]
pub(crate) fn read_json(text: &str) -> (r: Result<Option<Node>, String>)
    ensures
        read_outcome(r) == json_document(text@),
{
    match serde_json::from_str::<serde_yaml::Value>(text) {
        Ok(v) => Ok(node_of_yaml(&v)),
        Err(e) => Err(e.to_string()),
    }
}

/// Writes a value as JSON.
///
/// Trusted: this is `serde_json::to_string` of the YAML value that stands
/// for the node. Its result depends on the value alone and is named, not
/// described.
#[verifier::external_body]
pub(crate) fn write_json(node: &Node) -> (r: Result<String, String>)
    ensures
        write_outcome(r) == json_rendering(node@),
{
    match yaml_of_node(node) {
        Some(v) => serde_json::to_string(&v).map_err(|e| e.to_string()),
        None => Err(String::new()),
    }
}

/// What reading a document amounts to: the value, or a serialization error
/// with the reader's message, or one that says that the document holds what
/// cannot be taken over.
pub open spec fn document(read: Result<Option<Tree>, Seq<char>>) -> Result<Tree, ErrorModel> {
    match read {
        Ok(Some(tree)) => Ok(tree),
        Ok(None) => Err(ErrorModel::Serialization("unsupported value in document"@)),
        Err(message) => Err(ErrorModel::Serialization(message)),
    }
}

/// What writing a value amounts to: the text, or a serialization error with
/// the writer's message.
pub open spec fn written(wrote: Result<Seq<char>, Seq<char>>) -> Result<Seq<char>, ErrorModel> {
    match wrote {
        Ok(text) => Ok(text),
        Err(message) => Err(ErrorModel::Serialization(message)),
    }
}

/// Makes of what a reader returned the value or the error.
pub fn settle_read(read: Result<Option<Node>, String>) -> (r: Result<Node, AppError>)
    ensures
        crate::error::outcome(r) == document(read_outcome(read)),
{
    match read {
        Ok(Some(node)) => Ok(node),
        Ok(None) => Err(AppError::Serialization("unsupported value in document".to_string())),
        Err(message) => Err(AppError::Serialization(message)),
    }
}

/// Makes of what a writer returned the text or the error.
pub fn settle_write(wrote: Result<String, String>) -> (r: Result<String, AppError>)
    ensures
        crate::error::outcome(r) == written(write_outcome(wrote)),
{
    match wrote {
        Ok(text) => Ok(text),
        Err(message) => Err(AppError::Serialization(message)),
    }
}

/// Reads a YAML document into a value.
pub fn parse_yaml(text: &str) -> (r: Result<Node, AppError>)
    ensures
        crate::error::outcome(r) == document(yaml_document(text@)),
{
    settle_read(read_yaml(text))
}

/// Reads a JSON document into a value.
pub fn parse_json(text: &str) -> (r: Result<Node, AppError>)
    ensures
        crate::error::outcome(r) == document(json_document(text@)),
{
    settle_read(read_json(text))
}

/// Writes a value as YAML text.
pub fn yaml_text(node: &Node) -> (r: Result<String, AppError>)
    ensures
        crate::error::outcome(r) == written(yaml_rendering(node@)),
{
    settle_write(write_yaml(node))
}

/// Writes a value as JSON text.
pub fn json_text(node: &Node) -> (r: Result<String, AppError>)
    ensures
        crate::error::outcome(r) == written(json_rendering(node@)),
{
    settle_write(write_json(node))
}

} // verus!
