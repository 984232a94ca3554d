//! JSON values: the library's own tree, and the way to and from `serde_json`.

use crate::model::Dup;
use crate::strmap::StrMap;
#[allow(unused_imports)]
use crate::strmap::{lemma_sorted, sorted};
use crate::text::str_eq;
#[allow(unused_imports)]
use crate::text::Text;
use serde_json::{Number, Value};
use vstd::prelude::*;

verus! {

/// What a JSON value holds. An object is a map: the order in which its members
/// were written is not part of it.
#[verifier::ext_equal]
pub enum JsonTree {
    Null,
    Bool(bool),
    Number(Number),
    Str(Text),
    Array(Seq<JsonTree>),
    Object(Map<Text, JsonTree>),
}

/// A JSON value. Of members of an object with the same key, the last one counts.
#[derive(Debug, PartialEq)]
pub enum Json {
    Null,
    Bool(bool),
    Number(Number),
    Str(String),
    Array(Vec<Json>),
    Object(Vec<(String, Json)>),
}

impl Json {
    /// What the value holds.
    pub open spec fn tree(self) -> JsonTree
        decreases self,
    {
        match self {
            Json::Null => JsonTree::Null,
            Json::Bool(b) => JsonTree::Bool(b),
            Json::Number(n) => JsonTree::Number(n),
            Json::Str(s) => JsonTree::Str(s@),
            Json::Array(items) => JsonTree::Array(item_trees(items@)),
            Json::Object(members) => JsonTree::Object(member_trees(members@)),
        }
    }
}

/// What the items of an array hold.
pub open spec fn item_trees(items: Seq<Json>) -> Seq<JsonTree>
    decreases items,
{
    Seq::new(items.len(), |i: int| if 0 <= i < items.len() { items[i].tree() } else { JsonTree::Null })
}

/// What the members of an object hold, the last of each key.
pub open spec fn member_trees(members: Seq<(String, Json)>) -> Map<Text, JsonTree>
    decreases members,
{
    if members.len() == 0 {
        Map::empty()
    } else {
        member_trees(members.drop_last()).insert(members.last().0@, members.last().1.tree())
    }
}

/// The member of an object under a key.
pub open spec fn tree_member(tree: JsonTree, key: Text) -> Option<JsonTree> {
    match tree {
        JsonTree::Object(m) => if m.contains_key(key) { Some(m[key]) } else { None },
        _ => None,
    }
}

impl DeepView for Json {
    type V = JsonTree;

    open spec fn deep_view(&self) -> JsonTree {
        self.tree()
    }
}

impl View for Json {
    type V = JsonTree;

    open spec fn view(&self) -> JsonTree {
        self.tree()
    }
}

/// `serde_json::Value`.
#[verifier::external_type_specification]
#[verifier::external_body]
pub struct ExValue(serde_json::Value);

/// `serde_json::Number`.
#[verifier::external_type_specification]
#[verifier::external_body]
pub struct ExNumber(serde_json::Number);

/// `serde_json::Number::clone`: the same number.
pub assume_specification[ <serde_json::Number as Clone>::clone ](n: &serde_json::Number) -> (copy: serde_json::Number)
    ensures
        copy == *n,
;

/// What a `serde_json::Value` holds.
pub uninterp spec fn value_tree(v: serde_json::Value) -> JsonTree;

impl Dup for Json {
    fn dup(&self) -> (copy: Self)
        decreases self,
    {
        match self {
            Json::Null => Json::Null,
            Json::Bool(b) => Json::Bool(*b),
            Json::Number(n) => Json::Number(n.clone()),
            Json::Str(s) => Json::Str(s.clone()),
            Json::Array(items) => {
                let mut copies: Vec<Json> = Vec::new();
                let mut i: usize = 0;
                while i < items.len()
                    invariant
                        i <= items@.len(),
                        *self matches Json::Array(a) && a == *items,
                        copies@.len() == i,
                        forall|j: int| 0 <= j < i ==> copies@[j].tree() == (#[trigger] items@[j]).tree(),
                    decreases items@.len() - i,
                {
                    copies.push(items[i].dup());
                    i += 1;
                }
                assert(item_trees(copies@) =~= item_trees(items@));
                Json::Array(copies)
            },
            Json::Object(members) => {
                let mut copies: Vec<(String, Json)> = Vec::new();
                let mut i: usize = 0;
                while i < members.len()
                    invariant
                        i <= members@.len(),
                        *self matches Json::Object(a) && a == *members,
                        member_trees(copies@) == member_trees(members@.take(i as int)),
                    decreases members@.len() - i,
                {
                    let ghost before = copies@;
                    copies.push((members[i].0.clone(), members[i].1.dup()));
                    assert(copies@.drop_last() =~= before);
                    assert(members@.take(i + 1).drop_last() =~= members@.take(i as int));
                    i += 1;
                }
                assert(members@.take(members@.len() as int) =~= members@);
                Json::Object(copies)
            },
        }
    }
}

impl Clone for Json {
    fn clone(&self) -> (copy: Self)
        ensures
            copy@ == self@,
    {
        self.dup()
    }
}

/// One level of a `serde_json::Value`: what it is, with the values inside it.
pub(crate) enum Node {
    Null,
    Bool(bool),
    Number(Number),
    Str(String),
    Array(Vec<Value>),
    Object(Vec<(String, Value)>),
}

/// The members of an object, the last of each key.
pub(crate) open spec fn value_members(members: Seq<(String, Value)>) -> Map<Text, JsonTree>
    decreases members.len(),
{
    if members.len() == 0 {
        Map::empty()
    } else {
        value_members(members.drop_last()).insert(members.last().0@, value_tree(members.last().1))
    }
}

impl Node {
    /// What the value holds of which this is one level.
    pub(crate) open spec fn tree(self) -> JsonTree {
        match self {
            Node::Null => JsonTree::Null,
            Node::Bool(b) => JsonTree::Bool(b),
            Node::Number(n) => JsonTree::Number(n),
            Node::Str(s) => JsonTree::Str(s@),
            Node::Array(items) => JsonTree::Array(items@.map_values(|v: Value| value_tree(v))),
            Node::Object(members) => JsonTree::Object(value_members(members@)),
        }
    }
}

/// `serde_json::Value`'s variants, taken apart: an array gives its items in
/// order, an object its members, each key once.
#[verifier::external_body]
fn value_node(v: Value) -> (node: Node)
    ensures
        node.tree() == value_tree(v),
        node matches Node::Object(members) ==> forall|a: int, b: int|
            0 <= a < b < members@.len() ==> (#[trigger] members@[a]).0@ != (#[trigger] members@[b]).0@,
{
    match v {
        Value::Null => Node::Null,
        Value::Bool(b) => Node::Bool(b),
        Value::Number(n) => Node::Number(n),
        Value::String(s) => Node::Str(s),
        Value::Array(items) => Node::Array(items),
        Value::Object(members) => Node::Object(members.into_iter().collect()),
    }
}

/// `serde_json::Value`'s variants, put together: an array of the items in
/// order, an object of the members, the last of each key.
#[verifier::external_body]
fn node_value(node: Node) -> (v: Value)
    ensures
        value_tree(v) == node.tree(),
{
    match node {
        Node::Null => Value::Null,
        Node::Bool(b) => Value::Bool(b),
        Node::Number(n) => Value::Number(n),
        Node::Str(s) => Value::String(s),
        Node::Array(items) => Value::Array(items),
        Node::Object(members) => Value::Object(members.into_iter().collect()),
    }
}

/// The text `serde_json::to_string` writes for a value.
pub uninterp spec fn compact_text(tree: JsonTree) -> Text;

/// The text `serde_json::to_string_pretty` writes for a value.
pub uninterp spec fn pretty_text(tree: JsonTree) -> Text;

/// `serde_json::to_string` on a value: the text depends on what the value holds
/// alone. It fails only where a map has a key that is no string, or a type
/// refuses to be written; a `Value` has neither.
#[verifier::external_body]
fn value_to_string(v: &Value) -> (text: String)
    ensures
        text@ == compact_text(value_tree(*v)),
{
    serde_json::to_string(v).expect("a JSON value can be written")
}

/// `serde_json::to_string_pretty` on a value: the text depends on what the value
/// holds alone. Like `to_string`, it does not fail on a `Value`.
#[verifier::external_body]
fn value_to_string_pretty(v: &Value) -> (text: String)
    ensures
        text@ == pretty_text(value_tree(*v)),
{
    serde_json::to_string_pretty(v).expect("a JSON value can be written")
}

/// The strings of an array that holds nothing but strings.
pub open spec fn string_items(tree: JsonTree) -> Option<Seq<Text>> {
    match tree {
        JsonTree::Array(items) => if forall|i: int| 0 <= i < items.len() ==> #[trigger] items[i] is Str {
            Some(items.map_values(|item: JsonTree| item->Str_0))
        } else {
            None
        },
        _ => None,
    }
}

/// What `serde_json::from_value` says of a value that is no list of strings.
pub uninterp spec fn strings_error(tree: JsonTree) -> Text;

/// What `serde_json::from_value` says of a value that is no object.
pub uninterp spec fn object_error(tree: JsonTree) -> Text;

/// `serde_json::from_value` into a `Vec<String>`: an array of strings gives its
/// strings, in order; anything else an error that depends on the value alone.
#[verifier::external_body]
pub(crate) fn decode_strings(v: Value) -> (r: Result<Vec<String>, String>)
    ensures
        match r {
            Ok(list) => string_items(value_tree(v)) == Some(list.deep_view()),
            Err(e) => string_items(value_tree(v)) is None && e@ == strings_error(value_tree(v)),
        },
{
    serde_json::from_value::<Vec<String>>(v).map_err(|e| e.to_string())
}

/// What `serde_json::from_value` into a map of values says of a value that is no
/// object: an error, whose text depends on the value alone. Nothing is said of what
/// it makes of an object.
#[verifier::external_body]
fn object_refusal(v: Value) -> (error: String)
    requires
        !(value_tree(v) is Object),
    ensures
        error@ == object_error(value_tree(v)),
{
    serde_json::from_value::<std::collections::BTreeMap<String, Value>>(v)
        .expect_err("a map is decoded from an object only")
        .to_string()
}

/// The members of an object, in ascending order of their keys; or what `serde_json`
/// says of a value that is no object.
pub fn decode_object(json: &Json) -> (r: Result<StrMap<Json>, String>)
    ensures
        match r {
            Ok(map) => json@ == JsonTree::Object(map@),
            Err(e) => !(json@ is Object) && e@ == object_error(json@),
        },
{
    match json {
        Json::Object(members) => {
            let mut map: StrMap<Json> = StrMap::new();
            let mut i: usize = 0;
            while i < members.len()
                invariant
                    i <= members@.len(),
                    map@ == member_trees(members@.take(i as int)),
                decreases members@.len() - i,
            {
                assert(members@.take(i + 1).drop_last() =~= members@.take(i as int));
                map.insert(members[i].0.clone(), members[i].1.dup());
                i += 1;
            }
            assert(members@.take(members@.len() as int) =~= members@);
            Ok(map)
        },
        other => Err(object_refusal(other.to_value())),
    }
}

proof fn lemma_value_members(members: Seq<(String, Value)>, i: int)
    requires
        0 <= i < members.len(),
        forall|a: int, b: int| 0 <= a < b < members.len() ==> members[a].0@ != members[b].0@,
    ensures
        value_members(members).dom().finite(),
        value_members(members).contains_key(members[i].0@),
        value_members(members)[members[i].0@] == value_tree(members[i].1),
    decreases members.len(),
{
    let rest = members.drop_last();
    if i < rest.len() {
        assert(rest[i] == members[i]);
        assert forall|a: int, b: int| 0 <= a < b < rest.len() implies rest[a].0@ != rest[b].0@ by {
            assert(rest[a] == members[a] && rest[b] == members[b]);
        }
        lemma_value_members(rest, i);
    } else {
        lemma_value_members_finite(rest);
    }
}

proof fn lemma_value_members_finite(members: Seq<(String, Value)>)
    ensures
        value_members(members).dom().finite(),
    decreases members.len(),
{
    if members.len() > 0 {
        lemma_value_members_finite(members.drop_last());
    }
}

/// A map of values as `serde_json` has it.
pub(crate) fn object_value(map: &StrMap<Json>) -> (v: Value)
    ensures
        value_tree(v) == JsonTree::Object(map@),
{
    let mut members: Vec<(String, Value)> = Vec::new();
    let n: usize = map.len();
    let ghost keys = sorted(map@.dom());
    let mut i: usize = 0;
    while i < n
        invariant
            i <= n == keys.len(),
            keys == sorted(map@.dom()),
            forall|k: Text| #[trigger] value_members(members@).contains_key(k) <==> keys.take(i as int).contains(k),
            forall|k: Text| #[trigger] value_members(members@).contains_key(k) ==> value_members(members@)[k] == map@[k],
        decreases n - i,
    {
        let ghost before = members@;
        members.push((map.key_at(i).clone(), map.value_at(i).to_value()));
        assert(members@.drop_last() =~= before);
        assert(value_members(members@) == value_members(before).insert(keys[i as int], map@[keys[i as int]]));
        assert(keys.take(i + 1) =~= keys.take(i as int).push(keys[i as int]));
        assert forall|k: Text| #[trigger] value_members(members@).contains_key(k) <==> keys.take(i + 1).contains(k) by {
            if keys.take(i as int).contains(k) {
                let j = choose|j: int| 0 <= j < i && keys.take(i as int)[j] == k;
                assert(keys.take(i + 1)[j] == k);
            }
            assert(keys.take(i + 1)[i as int] == keys[i as int]);
        }
        i += 1;
    }
    proof {
        lemma_sorted(map@.dom());
        assert(keys.take(n as int) =~= keys);
        assert forall|k: Text| #[trigger] map@.contains_key(k) implies value_members(members@).contains_key(k) by {
            assert(keys.to_set().contains(k));
        }
        assert(value_members(members@) =~= map@);
    }
    node_value(Node::Object(members))
}

/// A list of strings as JSON.
pub open spec fn strings_tree(list: Seq<Text>) -> JsonTree {
    JsonTree::Array(list.map_values(|t: Text| JsonTree::Str(t)))
}

/// A list of strings as `serde_json` has it.
pub(crate) fn strings_value(list: &Vec<String>) -> (v: Value)
    ensures
        value_tree(v) == strings_tree(list.deep_view()),
{
    let mut items: Vec<Value> = Vec::new();
    let mut i: usize = 0;
    while i < list.len()
        invariant
            i <= list@.len(),
            items@.len() == i,
            forall|j: int| 0 <= j < i ==> value_tree(#[trigger] items@[j]) == JsonTree::Str(list@[j]@),
        decreases list@.len() - i,
    {
        items.push(node_value(Node::Str(list[i].clone())));
        i += 1;
    }
    assert(items@.map_values(|v: Value| value_tree(v)) =~= list.deep_view().map_values(|t: Text| JsonTree::Str(t)));
    node_value(Node::Array(items))
}

/// The JSON text of a map of values.
pub(crate) fn object_text(map: &StrMap<Json>) -> (text: String)
    ensures
        text@ == compact_text(JsonTree::Object(map@)),
{
    value_to_string(&object_value(map))
}

/// The JSON text of a list of strings.
pub(crate) fn strings_text(list: &Vec<String>) -> (text: String)
    ensures
        text@ == compact_text(strings_tree(list.deep_view())),
{
    value_to_string(&strings_value(list))
}

/// The JSON text of a string.
pub(crate) fn string_text(s: &String) -> (text: String)
    ensures
        text@ == compact_text(JsonTree::Str(s@)),
{
    value_to_string(&node_value(Node::Str(s.clone())))
}

/// The JSON text of `null`.
pub(crate) fn null_text() -> (text: String)
    ensures
        text@ == compact_text(JsonTree::Null),
{
    value_to_string(&node_value(Node::Null))
}

impl Json {
    /// The value as `serde_json` has it.
    pub fn to_value(&self) -> (v: Value)
        ensures
            value_tree(v) == self@,
        decreases self,
    {
        match self {
            Json::Null => node_value(Node::Null),
            Json::Bool(b) => node_value(Node::Bool(*b)),
            Json::Number(n) => node_value(Node::Number(n.clone())),
            Json::Str(s) => node_value(Node::Str(s.clone())),
            Json::Array(items) => {
                let mut values: Vec<Value> = Vec::new();
                let mut i: usize = 0;
                while i < items.len()
                    invariant
                        i <= items@.len(),
                        *self matches Json::Array(a) && a == *items,
                        values@.len() == i,
                        forall|j: int| 0 <= j < i ==> value_tree(values@[j]) == (#[trigger] items@[j]).tree(),
                    decreases items@.len() - i,
                {
                    values.push(items[i].to_value());
                    i += 1;
                }
                assert(values@.map_values(|v: Value| value_tree(v)) =~= item_trees(items@));
                node_value(Node::Array(values))
            },
            Json::Object(members) => {
                let mut values: Vec<(String, Value)> = Vec::new();
                let mut i: usize = 0;
                while i < members.len()
                    invariant
                        i <= members@.len(),
                        *self matches Json::Object(a) && a == *members,
                        value_members(values@) == member_trees(members@.take(i as int)),
                    decreases members@.len() - i,
                {
                    let ghost before = values@;
                    values.push((members[i].0.clone(), members[i].1.to_value()));
                    assert(values@.drop_last() =~= before);
                    assert(members@.take(i + 1).drop_last() =~= members@.take(i as int));
                    i += 1;
                }
                assert(members@.take(members@.len() as int) =~= members@);
                node_value(Node::Object(values))
            },
        }
    }

    /// The member of an object under `key`.
    pub fn get(&self, key: &str) -> (member: Option<&Json>)
        ensures
            match member {
                Some(json) => tree_member(self@, key@) == Some(json@),
                None => tree_member(self@, key@) is None,
            },
    {
        match self {
            Json::Object(members) => {
                let mut i: usize = members.len();
                assert(members@.take(i as int) =~= members@);
                while i > 0
                    invariant
                        i <= members@.len(),
                        *self matches Json::Object(a) && a == *members,
                        member_trees(members@).contains_key(key@) == member_trees(members@.take(i as int)).contains_key(key@),
                        member_trees(members@).contains_key(key@) ==> member_trees(members@)[key@] == member_trees(
                            members@.take(i as int),
                        )[key@],
                    decreases i,
                {
                    i -= 1;
                    assert(members@.take(i + 1).drop_last() =~= members@.take(i as int));
                    if str_eq(members[i].0.as_str(), key) {
                        return Some(&members[i].1);
                    }
                }
                None
            },
            _ => None,
        }
    }

    /// The members of an object, in ascending order of their keys.
    pub fn members(&self) -> (map: Option<StrMap<&Json>>)
        ensures
            match map {
                Some(m) => self@ == JsonTree::Object(m@),
                None => !(self@ is Object),
            },
    {
        match self {
            Json::Object(members) => {
                let mut map: StrMap<&Json> = StrMap::new();
                let mut i: usize = 0;
                while i < members.len()
                    invariant
                        i <= members@.len(),
                        map@ == member_trees(members@.take(i as int)),
                    decreases members@.len() - i,
                {
                    assert(members@.take(i + 1).drop_last() =~= members@.take(i as int));
                    map.insert(members[i].0.clone(), &members[i].1);
                    i += 1;
                }
                assert(members@.take(members@.len() as int) =~= members@);
                Some(map)
            },
            _ => None,
        }
    }

    /// The value that a `serde_json` value stands for.
    pub fn from_value(v: Value) -> (json: Json)
        ensures
            json@ == value_tree(v),
        decreases value_tree(v),
    {
        let ghost whole = value_tree(v);
        match value_node(v) {
            Node::Null => Json::Null,
            Node::Bool(b) => Json::Bool(b),
            Node::Number(n) => Json::Number(n),
            Node::Str(s) => Json::Str(s),
            Node::Array(values) => {
                let ghost all = values@;
                let ghost trees = all.map_values(|v: Value| value_tree(v));
                let mut items: Vec<Json> = Vec::new();
                for value in it: values
                    invariant
                        it.seq() == all,
                        whole == value_tree(v),
                        whole == JsonTree::Array(trees),
                        trees == all.map_values(|v: Value| value_tree(v)),
                        items@.len() == it.index(),
                        forall|j: int| 0 <= j < items@.len() ==> (#[trigger] items@[j]).tree() == value_tree(all[j]),
                {
                    proof {
                        assert(trees[it.index()] == value_tree(value));
                        assert(decreases_to!(whole => whole->Array_0));
                        assert(decreases_to!(trees => trees[it.index()]));
                    }
                    items.push(Json::from_value(value));
                }
                assert(item_trees(items@) =~= trees);
                Json::Array(items)
            },
            Node::Object(values) => {
                let ghost all = values@;
                let ghost trees = value_members(all);
                let mut members: Vec<(String, Json)> = Vec::new();
                for value in it: values
                    invariant
                        it.seq() == all,
                        whole == value_tree(v),
                        whole == JsonTree::Object(trees),
                        trees == value_members(all),
                        forall|a: int, b: int|
                            0 <= a < b < all.len() ==> (#[trigger] all[a]).0@ != (#[trigger] all[b]).0@,
                        member_trees(members@) == value_members(all.take(it.index())),
                {
                    let ghost i = it.index();
                    let ghost before = members@;
                    let (key, inner) = value;
                    proof {
                        lemma_value_members(all, i);
                        assert(all[i] == value);
                        assert(trees.contains_key(key@) && trees[key@] == value_tree(inner));
                        assert(decreases_to!(whole => whole->Object_0));
                        assert(decreases_to!(trees => trees[key@]));
                        assert(all.take(i + 1).drop_last() =~= all.take(i));
                    }
                    members.push((key, Json::from_value(inner)));
                    assert(members@.drop_last() =~= before);
                }
                assert(all.take(all.len() as int) =~= all);
                Json::Object(members)
            },
        }
    }

    /// The value's JSON text, without white space.
    pub fn compact(&self) -> (text: String)
        ensures
            text@ == compact_text(self@),
    {
        value_to_string(&self.to_value())
    }

    /// The value's JSON text, indented.
    pub fn pretty(&self) -> (text: String)
        ensures
            text@ == pretty_text(self@),
    {
        value_to_string_pretty(&self.to_value())
    }
}

proof fn lemma_members_sorted(members: Seq<(String, Json)>, n: int)
    requires
        0 <= n <= members.len(),
        forall|a: int, b: int|
            0 <= a < b < members.len() ==> (#[trigger] members[a]).0@ != (#[trigger] members[b]).0@,
    ensures
        forall|k: Text| #[trigger]
            member_trees(members.take(n)).contains_key(k) <==> exists|i: int|
                0 <= i < n && (#[trigger] members[i]).0@ == k,
        forall|i: int|
            0 <= i < n ==> member_trees(members.take(n))[(#[trigger] members[i]).0@] == members[i].1.tree(),
    decreases n,
{
    if n > 0 {
        lemma_members_sorted(members, n - 1);
        assert(members.take(n).drop_last() =~= members.take(n - 1));
        assert(members.take(n).last() == members[n - 1]);
        assert forall|k: Text| #[trigger]
            member_trees(members.take(n)).contains_key(k) <==> exists|i: int|
                0 <= i < n && (#[trigger] members[i]).0@ == k by {
            if member_trees(members.take(n - 1)).contains_key(k) {
                let i = choose|i: int| 0 <= i < n - 1 && (#[trigger] members[i]).0@ == k;
                assert(0 <= i < n && members[i].0@ == k);
            }
            if exists|i: int| 0 <= i < n && (#[trigger] members[i]).0@ == k {
                let i = choose|i: int| 0 <= i < n && (#[trigger] members[i]).0@ == k;
                if i < n - 1 {
                    assert(member_trees(members.take(n - 1)).contains_key(k));
                } else {
                    assert(members[n - 1].0@ == k);
                }
            }
            if k == members[n - 1].0@ {
                assert(0 <= n - 1 < n && members[n - 1].0@ == k);
            }
        }
    }
}

/// An object with the values of a map.
pub(crate) fn object(map: StrMap<Json>) -> (json: Json)
    ensures
        json@ == JsonTree::Object(map@),
{
    let ghost m = map@;
    let ghost keys = sorted(m.dom());
    let members = map.into_entries();
    proof {
        lemma_sorted(m.dom());
        assert forall|a: int, b: int| 0 <= a < b < members@.len() implies (#[trigger] members@[a]).0@ != (
        #[trigger] members@[b]).0@ by {
            assert(keys[a] != keys[b]);
        }
        lemma_members_sorted(members@, members@.len() as int);
        assert(members@.take(members@.len() as int) =~= members@);
        assert forall|k: Text| #[trigger] m.contains_key(k) implies member_trees(members@).contains_key(k) by {
            assert(keys.to_set().contains(k));
            let i = choose|i: int| 0 <= i < keys.len() && keys[i] == k;
            assert(members@[i].0@ == k);
        }
        assert forall|k: Text| #[trigger] member_trees(members@).contains_key(k) implies m.contains_key(k)
            && member_trees(members@)[k] == m[k] by {
            let i = choose|i: int| 0 <= i < members@.len() && (#[trigger] members@[i]).0@ == k;
            assert(members@[i].0@ == k);
        }
        assert(member_trees(members@) =~= m);
    }
    Json::Object(members)
}

/// A list of strings as JSON.
pub(crate) fn strings_json(list: &Vec<String>) -> (json: Json)
    ensures
        json@ == strings_tree(list.deep_view()),
{
    let mut items: Vec<Json> = Vec::new();
    let mut i: usize = 0;
    while i < list.len()
        invariant
            i <= list@.len(),
            items@.len() == i,
            forall|j: int| 0 <= j < i ==> (#[trigger] items@[j]).tree() == JsonTree::Str(list@[j]@),
        decreases list@.len() - i,
    {
        items.push(Json::Str(list[i].clone()));
        i += 1;
    }
    assert(item_trees(items@) =~= list.deep_view().map_values(|t: Text| JsonTree::Str(t)));
    Json::Array(items)
}

} // verus!
