//! YAML values, as `serde_yaml_ng` reads them.

use crate::json::Json;
#[allow(unused_imports)]
use crate::json::{value_tree, JsonTree};
#[allow(unused_imports)]
use crate::text::Text;
use serde_yaml_ng::{Number, Value};
use vstd::prelude::*;

verus! {

/// What a YAML value holds: the tags it carries, the outermost first, and what it is.
#[verifier::ext_equal]
pub struct YamlTree {
    pub tags: Seq<Text>,
    pub body: YamlBody,
}

/// What a YAML value is, under its tags. A mapping keeps the order of its entries.
#[verifier::ext_equal]
pub enum YamlBody {
    Null,
    Bool(bool),
    Number(Number),
    Str(Text),
    Sequence(Seq<YamlTree>),
    Mapping(Seq<(YamlTree, YamlTree)>),
}

/// `serde_yaml_ng::Value`.
#[verifier::external_type_specification]
#[verifier::external_body]
pub struct ExYamlValue(serde_yaml_ng::Value);

/// `serde_yaml_ng::Number`.
#[verifier::external_type_specification]
#[verifier::external_body]
pub struct ExYamlNumber(serde_yaml_ng::Number);

/// What a `serde_yaml_ng::Value` holds.
pub uninterp spec fn yaml_tree(v: serde_yaml_ng::Value) -> YamlTree;

/// The value that `serde_yaml_ng::from_str` reads in a text, or what it says is wrong.
pub uninterp spec fn yaml_parsed(text: Text) -> Result<YamlTree, Text>;

/// The JSON that `serde_json::to_value` makes of a YAML value, or what it says is wrong.
pub uninterp spec fn yaml_json(tree: YamlTree) -> Result<JsonTree, Text>;

/// How a YAML value is shown by its `Debug`.
pub uninterp spec fn yaml_shown(tree: YamlTree) -> Text;

/// The keys and values of a mapping.
pub open spec fn entry_trees(entries: Seq<(&Value, &Value)>) -> Seq<(YamlTree, YamlTree)> {
    entries.map_values(|e: (&Value, &Value)| (yaml_tree(*e.0), yaml_tree(*e.1)))
}

/// `serde_yaml_ng::from_str` into a `Value`: what it reads, and what it says of
/// a text that is no YAML, depend on the text alone.
#[verifier::external_body]
pub(crate) fn parse_yaml(text: &str) -> (r: Result<Value, String>)
    ensures
        match r {
            Ok(v) => yaml_parsed(text@) == Ok::<YamlTree, Text>(yaml_tree(v)),
            Err(e) => yaml_parsed(text@) == Err::<YamlTree, Text>(e@),
        },
{
    serde_yaml_ng::from_str::<Value>(text).map_err(|e| e.to_string())
}

/// `serde_yaml_ng::Value::as_mapping`: the entries of a mapping in order, under
/// any tags; nothing of any other value.
#[verifier::external_body]
pub(crate) fn as_mapping<'a>(v: &'a Value) -> (r: Option<Vec<(&'a Value, &'a Value)>>)
    ensures
        match r {
            Some(entries) => yaml_tree(*v).body == YamlBody::Mapping(entry_trees(entries@)),
            None => !(yaml_tree(*v).body is Mapping),
        },
{
    v.as_mapping().map(|mapping| mapping.iter().collect())
}

/// `serde_yaml_ng::Value::as_str`: the text of a string, under any tags; nothing
/// of any other value.
#[verifier::external_body]
pub(crate) fn as_str<'a>(v: &'a Value) -> (r: Option<&'a str>)
    ensures
        match r {
            Some(s) => yaml_tree(*v).body == YamlBody::Str(s@),
            None => !(yaml_tree(*v).body is Str),
        },
{
    v.as_str()
}

/// `serde_yaml_ng::Value::is_null`: whether the value is null, under any tags.
#[verifier::external_body]
pub(crate) fn is_null(v: &Value) -> (null: bool)
    ensures
        null == (yaml_tree(*v).body is Null),
{
    v.is_null()
}

/// `Debug` of a `serde_yaml_ng::Value`: what is shown depends on what the value
/// holds alone.
#[verifier::external_body]
pub(crate) fn show(v: &Value) -> (text: String)
    ensures
        text@ == yaml_shown(yaml_tree(*v)),
{
    format!("{:?}", v)
}

/// `serde_json::to_value` of a `serde_yaml_ng::Value`: the JSON, and what is said
/// of a value that has none, depend on what the value holds alone.
#[verifier::external_body]
fn json_value(v: &Value) -> (r: Result<serde_json::Value, String>)
    ensures
        match r {
            Ok(json) => yaml_json(yaml_tree(*v)) == Ok::<JsonTree, Text>(value_tree(json)),
            Err(e) => yaml_json(yaml_tree(*v)) == Err::<JsonTree, Text>(e@),
        },
{
    serde_json::to_value(v).map_err(|e| e.to_string())
}

/// The JSON of a YAML value, or what is wrong with it.
pub(crate) fn to_json(v: &Value) -> (r: Result<Json, String>)
    ensures
        match r {
            Ok(json) => yaml_json(yaml_tree(*v)) == Ok::<JsonTree, Text>(json@),
            Err(e) => yaml_json(yaml_tree(*v)) == Err::<JsonTree, Text>(e@),
        },
{
    match json_value(v) {
        Ok(value) => Ok(Json::from_value(value)),
        Err(e) => Err(e),
    }
}

} // verus!
