//! Calls into `toml_edit`, `serde_json` and `serde_yaml_ng` that turn the text
//! of a file into the library's values, each behind a small wrapper whose
//! contract is trusted.
use vstd::prelude::*;

use crate::node::{entries_view, get_value, Node, NodeV};

verus! {

/// `toml_edit::Table`, held as it is: nothing inside it is visible here.
#[verifier::external_type_specification]
#[verifier::external_body]
pub struct ExTomlTable(toml_edit::Table);

/// `toml_edit::Item`, held as it is: nothing inside it is visible here.
#[verifier::external_type_specification]
#[verifier::external_body]
pub struct ExTomlItem(toml_edit::Item);

/// `toml_edit::Value`, held as it is: nothing inside it is visible here.
#[verifier::external_type_specification]
#[verifier::external_body]
pub struct ExTomlValue(toml_edit::Value);

/// Converts a `toml_edit` value to the library's value, variant by variant: an
/// inline table is a table marked inline, a float is kept by its bits.
#[verifier::external_body]
fn toml_value_node(v: &toml_edit::Value) -> Node {
    match v {
        toml_edit::Value::String(s) => Node::Str(s.value().clone()),
        toml_edit::Value::Integer(i) => Node::Int(*i.value() as i128),
        toml_edit::Value::Float(f) => Node::Float(f.value().to_bits()),
        toml_edit::Value::Boolean(b) => Node::Bool(*b.value()),
        toml_edit::Value::Datetime(d) => Node::Datetime(d.value().to_string()),
        toml_edit::Value::Array(a) => Node::Array(a.iter().map(toml_value_node).collect()),
        toml_edit::Value::InlineTable(t) => Node::Table(t.iter().map(|(k, x)| (k.to_string(), toml_value_node(x))).collect(), true),
    }
}

/// Converts a `toml_edit` item to the library's value: a table is a table that
/// is not inline, an array of tables a list of such tables.
#[verifier::external_body]
fn toml_item_node(item: &toml_edit::Item) -> Node {
    match item {
        toml_edit::Item::None => Node::Null,
        toml_edit::Item::Value(v) => toml_value_node(v),
        toml_edit::Item::Table(t) => Node::Table(toml_table_nodes(t), false),
        toml_edit::Item::ArrayOfTables(a) => Node::TableArray(a.iter().map(|t| Node::Table(toml_table_nodes(t), false)).collect()),
    }
}

/// Converts the entries of a `toml_edit` table, in the order of its iterator.
#[verifier::external_body]
fn toml_table_nodes(t: &toml_edit::Table) -> Vec<(String, Node)> {
    t.iter().map(|(k, v)| (k.to_string(), toml_item_node(v))).collect()
}

/// What parsing a text as a TOML document with `toml_edit::DocumentMut` and
/// converting its table to the library's values gives: the entries of the
/// document, or the text of the parse error.
pub uninterp spec fn toml_document_of(text: Seq<char>) -> Result<Seq<(Seq<char>, NodeV)>, Seq<char>>;

/// What `toml_edit` holds in a table, as the library's values.
pub uninterp spec fn toml_table_entries(table: toml_edit::Table) -> Seq<(Seq<char>, NodeV)>;

/// Parses a text with `toml_edit::DocumentMut`'s `FromStr` and hands back its
/// table. Claimed: the outcome depends on the text alone, and the table holds
/// the entries that the document holds.
#[verifier::external_body]
pub fn parse_toml_table(text: &str) -> (r: Result<toml_edit::Table, String>)
    ensures
        match toml_document_of(text@) {
            Ok(d) => r matches Ok(t) && toml_table_entries(t) == d,
            Err(m) => r matches Err(e) && e@ == m,
        },
{
    match text.parse::<toml_edit::DocumentMut>() {
        Ok(doc) => Ok(doc.as_table().clone()),
        Err(e) => Err(e.to_string()),
    }
}

/// The entries of a `toml_edit` table (`Table::iter`), converted.
#[verifier::external_body]
pub fn toml_entries(t: &toml_edit::Table) -> (r: Vec<(String, Node)>)
    ensures
        entries_view(r@) == toml_table_entries(*t),
{
    toml_table_nodes(t)
}

/// The table under a key of a `toml_edit` table (`Table::get`, then
/// `Item::as_table`). Claimed: there is one exactly when the key holds a table
/// that is not inline, and it holds what that entry holds.
#[verifier::external_body]
pub fn toml_child_table<'a>(t: &'a toml_edit::Table, key: &str) -> (r: Option<&'a toml_edit::Table>)
    ensures
        match get_value(toml_table_entries(*t), key@) {
            Some(NodeV::Table(e, false)) => r matches Some(c) && toml_table_entries(*c) == e,
            _ => r is None,
        },
{
    t.get(key).and_then(|item| item.as_table())
}

/// The table at a position of the array of tables under a key
/// (`Table::get`, `Item::as_array_of_tables`, `ArrayOfTables::get`). Claimed:
/// there is one exactly when the key holds an array of tables that long, and
/// it holds what the table at that position holds.
#[verifier::external_body]
pub fn toml_array_table<'a>(t: &'a toml_edit::Table, key: &str, index: usize) -> (r: Option<&'a toml_edit::Table>)
    ensures
        match get_value(toml_table_entries(*t), key@) {
            Some(NodeV::TableArray(ts)) => if index < ts.len() {
                r matches Some(c) && ts[index as int] == NodeV::Table(toml_table_entries(*c), false)
            } else {
                r is None
            },
            _ => r is None,
        },
{
    t.get(key).and_then(|item| item.as_array_of_tables()).and_then(|a| a.get(index))
}

/// Each key of a `toml_edit` table with the text its item displays
/// (`Item`'s `Display`), which error messages quote. Nothing is claimed of the
/// texts.
#[verifier::external_body]
pub fn toml_shown(t: &toml_edit::Table) -> Vec<(String, String)> {
    t.iter().map(|(k, v)| (k.to_string(), v.to_string())).collect()
}

/// `serde_json::Value`, held as it is: nothing inside it is visible here.
#[verifier::external_type_specification]
#[verifier::external_body]
pub struct ExJsonValue(serde_json::Value);

/// `serde_json::Number`, held as it is: nothing inside it is visible here.
#[verifier::external_type_specification]
#[verifier::external_body]
pub struct ExJsonNumber(serde_json::Number);

/// `serde_yaml_ng::Value`, held as it is: nothing inside it is visible here.
#[verifier::external_type_specification]
#[verifier::external_body]
pub struct ExYamlValue(serde_yaml_ng::Value);

/// `serde_yaml_ng::Number`, held as it is: nothing inside it is visible here.
#[verifier::external_type_specification]
#[verifier::external_body]
pub struct ExYamlNumber(serde_yaml_ng::Number);

/// Converts a JSON number: an integer when it is one (`as_i64`, then
/// `as_u64`), a float by its bits otherwise.
#[verifier::external_body]
fn json_number_node(n: &serde_json::Number) -> Node {
    match (n.as_i64(), n.as_u64()) {
        (Some(i), _) => Node::Int(i as i128),
        (None, Some(u)) => Node::Int(u as i128),
        (None, None) => Node::Float(n.as_f64().map(|x| x.to_bits()).unwrap_or_default()),
    }
}

/// Converts a `serde_json` value to the library's value, variant by variant;
/// an object is a table that is not inline.
#[verifier::external_body]
fn json_node(v: &serde_json::Value) -> Node {
    match v {
        serde_json::Value::Null => Node::Null,
        serde_json::Value::Bool(b) => Node::Bool(*b),
        serde_json::Value::Number(n) => json_number_node(n),
        serde_json::Value::String(s) => Node::Str(s.clone()),
        serde_json::Value::Array(a) => Node::Array(a.iter().map(json_node).collect()),
        serde_json::Value::Object(o) => Node::Table(o.iter().map(|(k, x)| (k.clone(), json_node(x))).collect(), false),
    }
}

/// What parsing a text with `serde_json::from_str` into a `serde_json::Value`
/// and converting it gives: the value, or the text of the error.
pub uninterp spec fn json_value_of(text: Seq<char>) -> Result<NodeV, Seq<char>>;

/// Parses a text with `serde_json::from_str` into a `serde_json::Value`.
/// Claimed: the outcome depends on the text alone.
#[verifier::external_body]
pub fn parse_json(text: &str) -> (r: Result<Node, String>)
    ensures
        match json_value_of(text@) {
            Ok(v) => r matches Ok(n) && n@ == v,
            Err(m) => r matches Err(e) && e@ == m,
        },
{
    match serde_json::from_str::<serde_json::Value>(text) {
        Ok(v) => Ok(json_node(&v)),
        Err(e) => Err(e.to_string()),
    }
}

/// Converts a YAML number as `json_number_node` does a JSON one.
#[verifier::external_body]
fn yaml_number_node(n: &serde_yaml_ng::Number) -> Node {
    match (n.as_i64(), n.as_u64()) {
        (Some(i), _) => Node::Int(i as i128),
        (None, Some(u)) => Node::Int(u as i128),
        (None, None) => Node::Float(n.as_f64().map(|x| x.to_bits()).unwrap_or_default()),
    }
}

/// The text of a YAML mapping key: a string as it is, another key as
/// `serde_yaml_ng::to_string` writes it, without the trailing line break.
#[verifier::external_body]
fn yaml_key_text(k: &serde_yaml_ng::Value) -> String {
    match k {
        serde_yaml_ng::Value::String(s) => s.clone(),
        other => serde_yaml_ng::to_string(other).unwrap_or_default().trim_end().to_string(),
    }
}

/// Converts a `serde_yaml_ng` value to the library's value, variant by
/// variant; a mapping is a table that is not inline, a tagged value is its
/// value.
#[verifier::external_body]
fn yaml_node(v: &serde_yaml_ng::Value) -> Node {
    match v {
        serde_yaml_ng::Value::Null => Node::Null,
        serde_yaml_ng::Value::Bool(b) => Node::Bool(*b),
        serde_yaml_ng::Value::Number(n) => yaml_number_node(n),
        serde_yaml_ng::Value::String(s) => Node::Str(s.clone()),
        serde_yaml_ng::Value::Sequence(a) => Node::Array(a.iter().map(yaml_node).collect()),
        serde_yaml_ng::Value::Mapping(m) => Node::Table(m.iter().map(|(k, x)| (yaml_key_text(k), yaml_node(x))).collect(), false),
        serde_yaml_ng::Value::Tagged(t) => yaml_node(&t.value),
    }
}

/// What parsing a text with `serde_yaml_ng::from_str` into a
/// `serde_yaml_ng::Value` and converting it gives: the value, or the text of
/// the error.
pub uninterp spec fn yaml_value_of(text: Seq<char>) -> Result<NodeV, Seq<char>>;

/// Parses a text with `serde_yaml_ng::from_str` into a `serde_yaml_ng::Value`.
/// Claimed: the outcome depends on the text alone.
#[verifier::external_body]
pub fn parse_yaml(text: &str) -> (r: Result<Node, String>)
    ensures
        match yaml_value_of(text@) {
            Ok(v) => r matches Ok(n) && n@ == v,
            Err(m) => r matches Err(e) && e@ == m,
        },
{
    match serde_yaml_ng::from_str::<serde_yaml_ng::Value>(text) {
        Ok(v) => Ok(yaml_node(&v)),
        Err(e) => Err(e.to_string()),
    }
}

} // verus!
