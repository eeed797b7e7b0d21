use crate::value::{into_table, table_of, ConfigValue, Entries};
use toml::Value as TomlValue;
use vstd::prelude::*;

verus! {

/// serde_json's document tree; it only passes between the wrappers below.
#[verifier::external_type_specification]
#[verifier::external_body]
pub struct ExJsonValue(serde_json::Value);

/// The toml crate's document tree; it only passes between the wrappers below.
#[verifier::external_type_specification]
#[verifier::external_body]
pub struct ExTomlValue(toml::Value);

/// The document that serde_json reads from a text, or `None` where it rejects the text.
pub uninterp spec fn json_parse(s: Seq<char>) -> Option<ConfigValue>;

/// The single-line text that serde_json writes for a value.
pub uninterp spec fn json_compact(v: ConfigValue) -> Seq<char>;

/// The indented text that serde_json writes for a value.
pub uninterp spec fn json_pretty(v: ConfigValue) -> Seq<char>;

/// The document that the toml crate reads from a text, or `None` where it rejects the text.
pub uninterp spec fn toml_parse(s: Seq<char>) -> Option<ConfigValue>;

/// Moves a serde_json tree into the library's document model, node for node (numbers
/// as their serde_json text). Used by `parse_json` only.
#[verifier::external_body]
fn from_json(v: serde_json::Value) -> ConfigValue {
    match v {
        serde_json::Value::Null => ConfigValue::Null,
        serde_json::Value::Bool(b) => ConfigValue::Bool(b),
        serde_json::Value::Number(n) => ConfigValue::Number(n.to_string()),
        serde_json::Value::String(s) => ConfigValue::Str(s),
        serde_json::Value::Array(a) => ConfigValue::Array(a.into_iter().map(from_json).collect()),
        serde_json::Value::Object(m) => ConfigValue::Table(
            m.into_iter().map(|(k, x)| (k, from_json(x))).collect(),
        ),
    }
}

/// Builds the serde_json tree of a document, node for node. Used by `to_json_compact`
/// and `to_json_pretty` only.
#[verifier::external_body]
fn to_json(v: &ConfigValue) -> serde_json::Value {
    match v {
        ConfigValue::Null => serde_json::Value::Null,
        ConfigValue::Bool(b) => serde_json::Value::Bool(*b),
        ConfigValue::Int(i) => serde_json::Value::from(*i),
        ConfigValue::Number(t) => t.parse::<serde_json::Number>().map(serde_json::Value::Number)
            .unwrap_or(serde_json::Value::Null),
        ConfigValue::Str(s) | ConfigValue::Datetime(s) => serde_json::Value::String(s.clone()),
        ConfigValue::Array(a) => serde_json::Value::Array(a.iter().map(to_json).collect()),
        ConfigValue::Table(t) => serde_json::Value::Object(
            t.iter().map(|(k, x)| (k.clone(), to_json(x))).collect(),
        ),
    }
}

/// The inline text that the toml crate writes for a value.
pub uninterp spec fn toml_inline(v: ConfigValue) -> Seq<char>;

/// Builds the toml tree of a document, node for node: floats and dates are read back
/// from their text (a number text that is no float gives zero, a date text that is no
/// date stays a string), and a null, which TOML lacks, becomes an empty string. Used by `to_toml_inline` only.
#[verifier::external_body]
fn to_toml(v: &ConfigValue) -> TomlValue {
    match v {
        ConfigValue::Null => TomlValue::String(String::new()),
        ConfigValue::Bool(b) => TomlValue::Boolean(*b),
        ConfigValue::Int(i) => TomlValue::Integer(*i),
        ConfigValue::Number(t) => TomlValue::Float(t.parse().unwrap_or_default()),
        ConfigValue::Str(s) => TomlValue::String(s.clone()),
        ConfigValue::Datetime(t) => t.parse().map(TomlValue::Datetime).unwrap_or(TomlValue::String(t.clone())),
        ConfigValue::Array(a) => TomlValue::Array(a.iter().map(to_toml).collect()),
        ConfigValue::Table(t) => TomlValue::Table(t.iter().map(|(k, x)| (k.clone(), to_toml(x))).collect()),
    }
}

/// Relies on `toml::Value`'s `Display`: the value written inline (a table as
/// `{ k = v }`).
#[verifier::external_body]
pub fn to_toml_inline(v: &ConfigValue) -> (r: String)
    ensures
        r@ == toml_inline(*v),
{
    to_toml(v).to_string()
}

/// Moves a toml tree into the library's document model, node for node (floats and
/// dates as their toml text). Used by `parse_toml` only.
#[verifier::external_body]
fn from_toml(v: toml::Value) -> ConfigValue {
    match v {
        toml::Value::String(s) => ConfigValue::Str(s),
        toml::Value::Integer(i) => ConfigValue::Int(i),
        toml::Value::Float(f) => ConfigValue::Number(f.to_string()),
        toml::Value::Boolean(b) => ConfigValue::Bool(b),
        toml::Value::Datetime(d) => ConfigValue::Datetime(d.to_string()),
        toml::Value::Array(a) => ConfigValue::Array(a.into_iter().map(from_toml).collect()),
        toml::Value::Table(m) => ConfigValue::Table(
            m.into_iter().map(|(k, x)| (k, from_toml(x))).collect(),
        ),
    }
}

/// Relies on `serde_json::from_str::<serde_json::Value>`: the text read as JSON.
#[verifier::external_body]
pub fn parse_json(text: &str) -> (r: Option<ConfigValue>)
    ensures
        r == json_parse(text@),
{
    serde_json::from_str::<serde_json::Value>(text).ok().map(from_json)
}

/// Relies on `serde_json::to_string`: the value written on one line.
#[verifier::external_body]
pub fn to_json_compact(v: &ConfigValue) -> (r: String)
    ensures
        r@ == json_compact(*v),
{
    serde_json::to_string(&to_json(v)).unwrap_or_default()
}

/// Relies on `serde_json::to_string_pretty`: the value written with two-space indentation.
#[verifier::external_body]
pub fn to_json_pretty(v: &ConfigValue) -> (r: String)
    ensures
        r@ == json_pretty(*v),
{
    serde_json::to_string_pretty(&to_json(v)).unwrap_or_default()
}

/// Relies on `toml::from_str::<toml::Value>`: the text read as a TOML document.
#[verifier::external_body]
pub fn parse_toml(text: &str) -> (r: Option<ConfigValue>)
    ensures
        r == toml_parse(text@),
{
    toml::from_str::<toml::Value>(text).ok().map(from_toml)
}

/// The top-level entries of an existing JSON document: none where there is no
/// document, where it does not parse, or where it is not an object.
pub open spec fn existing_json(existing: Option<String>) -> Seq<(String, ConfigValue)> {
    match existing {
        Some(s) => table_of(json_parse(s@)),
        None => Seq::empty(),
    }
}

/// The top-level entries of an existing TOML document: none where there is no
/// document, where it is empty, where it does not parse, or where it is not a table.
pub open spec fn existing_toml(existing: Option<String>) -> Seq<(String, ConfigValue)> {
    match existing {
        Some(s) => if s@.len() == 0 {
            Seq::empty()
        } else {
            table_of(toml_parse(s@))
        },
        None => Seq::empty(),
    }
}

/// Reads an existing JSON document, falling back to an empty one.
pub fn read_json_entries(existing: &Option<String>) -> (r: Entries)
    ensures
        r@ == existing_json(*existing),
{
    match existing {
        Some(s) => into_table(parse_json(s.as_str())),
        None => Vec::new(),
    }
}

/// Reads an existing TOML document, falling back to an empty one.
pub fn read_toml_entries(existing: &Option<String>) -> (r: Entries)
    ensures
        r@ == existing_toml(*existing),
{
    match existing {
        Some(s) => if s.as_str().is_empty() {
            Vec::new()
        } else {
            into_table(parse_toml(s.as_str()))
        },
        None => Vec::new(),
    }
}

} // verus!
