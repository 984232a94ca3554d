//! An inventory: hosts with their variables, and the groups they belong to.

#[allow(unused_imports)]
use crate::json::{
    compact_text, item_trees, object_error, string_items, strings_error, strings_tree, tree_member,
    JsonTree,
};
use crate::json::{
    decode_object, decode_strings, null_text, object_text, string_text, strings_text, Json,
};
use crate::model::Dup;
#[allow(unused_imports)]
use crate::strmap::sorted;
use crate::strmap::StrMap;
#[allow(unused_imports)]
use crate::text::{join_text, Text};
use crate::text::{cat2, cat3, cat4, join, str_eq};
use vstd::prelude::*;

verus! {

/// The variables of a host.
pub type HostVars = StrMap<Json>;

/// What the variables of a host hold.
pub type VarsView = Map<Text, JsonTree>;

/// What a group holds.
#[verifier::ext_equal]
pub struct GroupView {
    pub hosts: Seq<Text>,
    pub children: Seq<Text>,
    pub vars: Option<VarsView>,
}

/// What an inventory holds.
#[verifier::ext_equal]
pub struct DatasetView {
    pub hostvars: Map<Text, VarsView>,
    pub groups: Map<Text, GroupView>,
    pub remove_hosts: Seq<Text>,
}

/// A group of an inventory.
#[derive(Debug, PartialEq)]
pub struct Group {
    pub hosts: Vec<String>,
    pub children: Vec<String>,
    /// The variables of the group, where it has any.
    pub vars: Option<HostVars>,
}

/// A complete inventory, as a connector produces it.
#[derive(Debug, PartialEq)]
pub struct Dataset {
    /// The variables of each host.
    pub hostvars: StrMap<HostVars>,
    pub groups: StrMap<Group>,
    /// Hosts to delete. Only an enricher says so.
    pub remove_hosts: Vec<String>,
}

impl DeepView for Group {
    type V = GroupView;

    open spec fn deep_view(&self) -> GroupView {
        GroupView {
            hosts: self.hosts.deep_view(),
            children: self.children.deep_view(),
            vars: self.vars.deep_view(),
        }
    }
}

impl View for Group {
    type V = GroupView;

    open spec fn view(&self) -> GroupView {
        self.deep_view()
    }
}

impl DeepView for Dataset {
    type V = DatasetView;

    open spec fn deep_view(&self) -> DatasetView {
        DatasetView {
            hostvars: self.hostvars.deep_view(),
            groups: self.groups.deep_view(),
            remove_hosts: self.remove_hosts.deep_view(),
        }
    }
}

impl View for Dataset {
    type V = DatasetView;

    open spec fn view(&self) -> DatasetView {
        self.deep_view()
    }
}

impl Dup for Group {
    fn dup(&self) -> (copy: Self) {
        Group { hosts: self.hosts.dup(), children: self.children.dup(), vars: self.vars.dup() }
    }
}

impl Dup for Dataset {
    fn dup(&self) -> (copy: Self) {
        Dataset {
            hostvars: self.hostvars.dup(),
            groups: self.groups.dup(),
            remove_hosts: self.remove_hosts.dup(),
        }
    }
}

impl Clone for Group {
    fn clone(&self) -> (copy: Self)
        ensures
            copy@ == self@,
    {
        self.dup()
    }
}

impl Clone for Dataset {
    fn clone(&self) -> (copy: Self)
        ensures
            copy@ == self@,
    {
        self.dup()
    }
}

impl GroupView {
    /// The group with nothing in it.
    pub open spec fn none() -> GroupView {
        GroupView { hosts: Seq::empty(), children: Seq::empty(), vars: None }
    }
}

impl DatasetView {
    /// The inventory with nothing in it.
    pub open spec fn none() -> DatasetView {
        DatasetView { hostvars: Map::empty(), groups: Map::empty(), remove_hosts: Seq::empty() }
    }
}

impl Default for Group {
    fn default() -> (group: Self)
        ensures
            group@ == GroupView::none(),
    {
        let group = Group { hosts: Vec::new(), children: Vec::new(), vars: None };
        assert(group@ =~= GroupView::none());
        group
    }
}

impl Default for Dataset {
    fn default() -> (dataset: Self)
        ensures
            dataset@ == DatasetView::none(),
    {
        let dataset = Dataset { hostvars: StrMap::new(), groups: StrMap::new(), remove_hosts: Vec::new() };
        assert(dataset@ =~= DatasetView::none());
        dataset
    }
}

/// The list of strings in a value, or what is wrong with it.
pub open spec fn string_list(tree: JsonTree) -> Result<Seq<Text>, Text> {
    match string_items(tree) {
        Some(list) => Ok(list),
        None => Err(strings_error(tree)),
    }
}

/// A list of strings that an object may hold; without it, the empty list.
pub open spec fn list_member(m: VarsView, key: Text) -> Result<Seq<Text>, Text> {
    if m.contains_key(key) {
        string_list(m[key])
    } else {
        Ok(Seq::empty())
    }
}

/// The group in an object with `hosts`, `children` and `vars`. What is wrong is
/// said of the first member that is wrong, in the order of their keys.
pub open spec fn group_of(m: VarsView) -> Result<GroupView, Text> {
    match list_member(m, "children"@) {
        Err(e) => Err(e),
        Ok(children) => match list_member(m, "hosts"@) {
            Err(e) => Err(e),
            Ok(hosts) => if !m.contains_key("vars"@) || m["vars"@] == JsonTree::Null {
                Ok(GroupView { hosts, children, vars: None })
            } else {
                match m["vars"@] {
                    JsonTree::Object(vars) => Ok(GroupView { hosts, children, vars: Some(vars) }),
                    other => Err(object_error(other)),
                }
            },
        },
    }
}

/// The name of a kind of JSON value.
pub open spec fn kind_name(tree: JsonTree) -> Text {
    match tree {
        JsonTree::Null => "null"@,
        JsonTree::Bool(_) => "a boolean"@,
        JsonTree::Number(_) => "a number"@,
        JsonTree::Str(_) => "a string"@,
        JsonTree::Array(_) => "an array"@,
        JsonTree::Object(_) => "an object"@,
    }
}

/// The group that a top-level key of an Ansible inventory describes: an object,
/// or a plain list of host names.
pub open spec fn inventory_group(name: Text, tree: JsonTree) -> Result<GroupView, Text> {
    match tree {
        JsonTree::Array(_) => match string_items(tree) {
            Some(hosts) => Ok(GroupView { hosts, children: Seq::empty(), vars: None }),
            None => Err("group '"@ + name + "' uses the list form but contains a non-string entry"@),
        },
        JsonTree::Object(m) => match group_of(m) {
            Ok(group) => Ok(group),
            Err(e) => Err("group '"@ + name + "' is malformed: "@ + e),
        },
        _ => Err("group '"@ + name + "' must be an object or a list of hostnames, got "@ + kind_name(tree)),
    }
}

/// A group that every Ansible inventory has, without being told.
pub open spec fn is_meta_group(name: Text) -> bool {
    name == "all"@ || name == "ungrouped"@
}

/// Leaving the group out loses variables or children.
pub open spec fn carries_more(tree: JsonTree) -> bool {
    ||| (tree_member(tree, "vars"@) matches Some(JsonTree::Object(vars)) && vars.dom().len() > 0)
    ||| (tree_member(tree, "children"@) matches Some(JsonTree::Array(items)) && items.len() > 0)
}

/// What is said of a meta group that is left out.
pub open spec fn dropped_warning(name: Text) -> Text {
    "meta-group '"@ + name + "' carries vars/children that are dropped in the conversion"@
}

/// The groups under the given top-level keys, with the warnings they give, or
/// what is wrong with the first key that is wrong.
pub open spec fn inventory_groups(obj: VarsView, keys: Seq<Text>) -> Result<
    (Map<Text, GroupView>, Seq<Text>),
    Text,
>
    decreases keys.len(),
{
    if keys.len() == 0 {
        Ok((Map::empty(), Seq::empty()))
    } else {
        let key = keys.last();
        match inventory_groups(obj, keys.drop_last()) {
            Err(e) => Err(e),
            Ok((groups, warnings)) => if key == "_meta"@ {
                Ok((groups, warnings))
            } else if is_meta_group(key) {
                Ok(
                    (
                        groups,
                        if carries_more(obj[key]) {
                            warnings.push(dropped_warning(key))
                        } else {
                            warnings
                        },
                    ),
                )
            } else {
                match inventory_group(key, obj[key]) {
                    Err(e) => Err(e),
                    Ok(group) => Ok((groups.insert(key, group), warnings)),
                }
            },
        }
    }
}

/// The hosts of an object of objects, or what is wrong with the first host that
/// is wrong.
pub open spec fn hosts_of(obj: VarsView, names: Seq<Text>) -> Result<Map<Text, VarsView>, Text>
    decreases names.len(),
{
    if names.len() == 0 {
        Ok(Map::empty())
    } else {
        match hosts_of(obj, names.drop_last()) {
            Err(e) => Err(e),
            Ok(hosts) => match obj[names.last()] {
                JsonTree::Object(vars) => Ok(hosts.insert(names.last(), vars)),
                other => Err(object_error(other)),
            },
        }
    }
}

/// The hosts with their variables under `_meta.hostvars`.
pub open spec fn inventory_hosts(obj: VarsView) -> Result<Map<Text, VarsView>, Text> {
    if !obj.contains_key("_meta"@) {
        Ok(Map::empty())
    } else {
        match tree_member(obj["_meta"@], "hostvars"@) {
            None => Err("_meta is present but has no hostvars key"@),
            Some(raw) => match raw {
                JsonTree::Object(hosts) => match hosts_of(hosts, sorted(hosts.dom())) {
                    Ok(found) => Ok(found),
                    Err(e) => Err("_meta.hostvars is malformed: "@ + e),
                },
                other => Err("_meta.hostvars is malformed: "@ + object_error(other)),
            },
        }
    }
}

/// What is said of an inventory without `_meta`.
pub open spec fn no_meta_warning() -> Text {
    "no _meta.hostvars in inventory output \u{2014} hosts will have no variables"@
}

/// The inventory that Ansible's dynamic inventory JSON describes, with the
/// warnings it gives, or what is wrong with it.
pub open spec fn inventory(tree: JsonTree) -> Result<(DatasetView, Seq<Text>), Text> {
    match tree {
        JsonTree::Object(obj) => match inventory_hosts(obj) {
            Err(e) => Err(e),
            Ok(hostvars) => match inventory_groups(obj, sorted(obj.dom())) {
                Err(e) => Err(e),
                Ok((groups, warnings)) => Ok(
                    (
                        DatasetView { hostvars, groups, remove_hosts: Seq::empty() },
                        if obj.contains_key("_meta"@) {
                            warnings
                        } else {
                            seq![no_meta_warning()] + warnings
                        },
                    ),
                ),
            },
        },
        _ => Err("expected a JSON object at the top level"@),
    }
}

fn json_type_name(value: &Json) -> (name: &'static str)
    ensures
        name@ == kind_name(value@),
{
    match value {
        Json::Null => "null",
        Json::Bool(_) => "a boolean",
        Json::Number(_) => "a number",
        Json::Str(_) => "a string",
        Json::Array(_) => "an array",
        Json::Object(_) => "an object",
    }
}

fn decode_list(value: Option<&Json>) -> (r: Result<Vec<String>, String>)
    ensures
        match r {
            Ok(list) => match value {
                Some(json) => string_list(json@) == Ok::<Seq<Text>, Text>(list.deep_view()),
                None => list.deep_view() == Seq::<Text>::empty(),
            },
            Err(e) => value matches Some(json) && string_list(json@) == Err::<Seq<Text>, Text>(e@),
        },
{
    match value {
        Some(json) => decode_strings(json.to_value()),
        None => {
            let list: Vec<String> = Vec::new();
            assert(list.deep_view() =~= Seq::<Text>::empty());
            Ok(list)
        },
    }
}

/// The group in an object with `hosts`, `children` and `vars`.
fn decode_group(members: &StrMap<&Json>) -> (r: Result<Group, String>)
    ensures
        match r {
            Ok(group) => group_of(members@) == Ok::<GroupView, Text>(group@),
            Err(e) => group_of(members@) == Err::<GroupView, Text>(e@),
        },
{
    let children = match decode_list(copied(members.get("children"))) {
        Ok(list) => list,
        Err(e) => return Err(e),
    };
    let hosts = match decode_list(copied(members.get("hosts"))) {
        Ok(list) => list,
        Err(e) => return Err(e),
    };
    let vars: Option<HostVars> = match members.get("vars") {
        None => None,
        Some(json) => match json {
            Json::Null => None,
            other => match decode_object(other) {
                Ok(vars) => Some(vars),
                Err(e) => return Err(e),
            },
        },
    };
    Ok(Group { hosts, children, vars })
}

fn copied<'a>(value: Option<&&'a Json>) -> (r: Option<&'a Json>)
    ensures
        r is Some == value is Some,
        r matches Some(json) ==> json@ == value->0.deep_view(),
{
    match value {
        Some(json) => Some(*json),
        None => None,
    }
}

fn some_members(value: Option<&Json>) -> (some: bool)
    ensures
        some == (value matches Some(json) && json@ matches JsonTree::Object(m) && m.dom().len() > 0),
{
    match value {
        Some(json) => match json.members() {
            Some(members) => members.len() > 0,
            None => false,
        },
        None => false,
    }
}

fn some_items(value: Option<&Json>) -> (some: bool)
    ensures
        some == (value matches Some(json) && json@ matches JsonTree::Array(items) && items.len() > 0),
{
    match value {
        Some(json) => match json {
            Json::Array(items) => items.len() > 0,
            _ => false,
        },
        None => false,
    }
}

/// The strings of an array, where it holds nothing but strings.
fn all_strings(items: &Vec<Json>) -> (list: Option<Vec<String>>)
    ensures
        match list {
            Some(strings) => string_items(JsonTree::Array(item_trees(items@))) == Some(strings.deep_view()),
            None => string_items(JsonTree::Array(item_trees(items@))) is None,
        },
{
    let ghost trees = item_trees(items@);
    let mut strings: Vec<String> = Vec::new();
    let mut i: usize = 0;
    while i < items.len()
        invariant
            i <= items@.len(),
            trees == item_trees(items@),
            strings@.len() == i,
            forall|j: int| 0 <= j < i ==> #[trigger] trees[j] == JsonTree::Str(strings@[j]@),
        decreases items@.len() - i,
    {
        assert(trees[i as int] == items@[i as int].tree());
        match &items[i] {
            Json::Str(s) => strings.push(s.clone()),
            _ => {
                assert(!(trees[i as int] is Str));
                return None;
            },
        }
        i += 1;
    }
    assert(strings.deep_view() =~= trees.map_values(|item: JsonTree| item->Str_0));
    Some(strings)
}

/// The group under a top-level key of an Ansible inventory.
fn read_group(name: &str, value: &Json) -> (r: Result<Group, String>)
    ensures
        match r {
            Ok(group) => inventory_group(name@, value@) == Ok::<GroupView, Text>(group@),
            Err(e) => inventory_group(name@, value@) == Err::<GroupView, Text>(e@),
        },
{
    match value {
        Json::Array(items) => match all_strings(items) {
            Some(hosts) => {
                let group = Group { hosts, children: Vec::new(), vars: None };
                assert(group@.children =~= Seq::empty());
                Ok(group)
            },
            None => Err(cat3("group '", name, "' uses the list form but contains a non-string entry")),
        },
        Json::Object(_) => match value.members() {
            Some(members) => match decode_group(&members) {
                Ok(group) => Ok(group),
                Err(e) => Err(cat4("group '", name, "' is malformed: ", e.as_str())),
            },
            None => Ok(Group::default()),
        },
        other => Err(
            cat4("group '", name, "' must be an object or a list of hostnames, got ", json_type_name(other)),
        ),
    }
}

/// The hosts with their variables under `_meta.hostvars`.
fn read_hosts(meta: &Json) -> (r: Result<StrMap<HostVars>, String>)
    ensures
        forall|obj: VarsView|
            #![trigger inventory_hosts(obj)]
            obj.contains_key("_meta"@) && obj["_meta"@] == meta@ ==> match r {
                Ok(hosts) => inventory_hosts(obj) == Ok::<Map<Text, VarsView>, Text>(hosts@),
                Err(e) => inventory_hosts(obj) == Err::<Map<Text, VarsView>, Text>(e@),
            },
{
    let raw = match meta.get("hostvars") {
        Some(raw) => raw,
        None => return Err("_meta is present but has no hostvars key".to_owned()),
    };
    let entries = match decode_object(raw) {
        Ok(entries) => entries,
        Err(e) => return Err(cat2("_meta.hostvars is malformed: ", e.as_str())),
    };
    let mut hosts: StrMap<HostVars> = StrMap::new();
    let ghost names = sorted(entries@.dom());
    let n: usize = entries.len();
    let mut i: usize = 0;
    while i < n
        invariant
            i <= n == names.len(),
            names == sorted(entries@.dom()),
            raw@ == JsonTree::Object(entries@),
            tree_member(meta@, "hostvars"@) == Some(raw@),
            hosts_of(entries@, names.take(i as int)) == Ok::<Map<Text, VarsView>, Text>(hosts@),
        decreases n - i,
    {
        assert(names.take(i + 1).drop_last() =~= names.take(i as int));
        match decode_object(entries.value_at(i)) {
            Ok(vars) => hosts.insert(entries.key_at(i).clone(), vars),
            Err(e) => {
                proof {
                    lemma_hosts_of_stops(entries@, names, i + 1);
                    assert(names.take(n as int) =~= names);
                }
                return Err(cat2("_meta.hostvars is malformed: ", e.as_str()));
            },
        }
        i += 1;
    }
    assert(names.take(n as int) =~= names);
    Ok(hosts)
}

proof fn lemma_hosts_of_stops(obj: VarsView, names: Seq<Text>, i: int)
    requires
        0 <= i <= names.len(),
        hosts_of(obj, names.take(i)) is Err,
    ensures
        hosts_of(obj, names) == hosts_of(obj, names.take(i)),
    decreases names.len(),
{
    if i == names.len() {
        assert(names.take(i) =~= names);
    } else {
        assert(names.drop_last().take(i) =~= names.take(i));
        lemma_hosts_of_stops(obj, names.drop_last(), i);
    }
}

proof fn lemma_inventory_groups_stops(obj: VarsView, keys: Seq<Text>, i: int)
    requires
        0 <= i <= keys.len(),
        inventory_groups(obj, keys.take(i)) is Err,
    ensures
        inventory_groups(obj, keys) == inventory_groups(obj, keys.take(i)),
    decreases keys.len(),
{
    if i == keys.len() {
        assert(keys.take(i) =~= keys);
    } else {
        assert(keys.drop_last().take(i) =~= keys.take(i));
        lemma_inventory_groups_stops(obj, keys.drop_last(), i);
    }
}

impl Dataset {
    /// Reads Ansible's dynamic inventory JSON. The hosts come from
    /// `_meta.hostvars`, the groups from the top-level keys; a group is an object
    /// or a plain list of host names. `all` and `ungrouped` are left out, with a
    /// warning where that loses something. What cannot be read is an error.
    pub fn from_ansible_inventory(value: Json) -> (r: Result<(Self, Vec<String>), String>)
        ensures
            match r {
                Ok((dataset, warnings)) => inventory(value@) == Ok::<(DatasetView, Seq<Text>), Text>(
                    (dataset@, warnings.deep_view()),
                ),
                Err(e) => inventory(value@) == Err::<(DatasetView, Seq<Text>), Text>(e@),
            },
    {
        let obj = match value.members() {
            Some(members) => members,
            None => return Err("expected a JSON object at the top level".to_owned()),
        };
        let mut warnings: Vec<String> = Vec::new();
        let hostvars: StrMap<HostVars> = match copied(obj.get("_meta")) {
            Some(meta) => match read_hosts(meta) {
                Ok(hosts) => hosts,
                Err(e) => return Err(e),
            },
            None => {
                warnings.push(
                    "no _meta.hostvars in inventory output \u{2014} hosts will have no variables".to_owned(),
                );
                StrMap::new()
            },
        };
        let ghost first = warnings.deep_view();
        let mut groups: StrMap<Group> = StrMap::new();
        let ghost keys = sorted(obj@.dom());
        let n: usize = obj.len();
        let mut i: usize = 0;
        assert(first =~= first + Seq::<Text>::empty());
        while i < n
            invariant
                i <= n == keys.len(),
                keys == sorted(obj@.dom()),
                value@ == JsonTree::Object(obj@),
                inventory_hosts(obj@) == Ok::<Map<Text, VarsView>, Text>(hostvars@),
                first == (if obj@.contains_key("_meta"@) { Seq::empty() } else { seq![no_meta_warning()] }),
                inventory_groups(obj@, keys.take(i as int)) matches Ok((g, w)) && g == groups@ && first + w
                    == warnings.deep_view(),
            decreases n - i,
        {
            assert(keys.take(i + 1).drop_last() =~= keys.take(i as int));
            let name: &str = obj.key_at(i).as_str();
            let group_value: &Json = *obj.value_at(i);
            i += 1;
            if str_eq(name, "_meta") {
                continue;
            }
            if str_eq(name, "all") || str_eq(name, "ungrouped") {
                if some_members(group_value.get("vars")) || some_items(group_value.get("children")) {
                    let ghost before = warnings.deep_view();
                    warnings.push(
                        cat3("meta-group '", name, "' carries vars/children that are dropped in the conversion"),
                    );
                    assert(warnings.deep_view() =~= before.push(dropped_warning(name@)));
                    assert(warnings.deep_view() =~= first + inventory_groups(obj@, keys.take(i as int))->Ok_0.1);
                }
                continue;
            }
            match read_group(name, group_value) {
                Ok(group) => groups.insert(obj.key_at(i - 1).clone(), group),
                Err(e) => {
                    proof {
                        lemma_inventory_groups_stops(obj@, keys, i as int);
                    }
                    return Err(e);
                },
            }
        }
        assert(keys.take(n as int) =~= keys);
        let dataset = Dataset { hostvars, groups, remove_hosts: Vec::new() };
        assert(dataset@.remove_hosts =~= Seq::empty());
        assert(Seq::<Text>::empty() + inventory_groups(obj@, keys)->Ok_0.1 =~= inventory_groups(obj@, keys)->Ok_0.1);
        Ok((dataset, warnings))
    }

    /// Whether a value looks like Ansible inventory output: an object with `_meta`.
    pub fn looks_like_ansible_inventory(value: &Json) -> (looks: bool)
        ensures
            looks == (tree_member(value@, "_meta"@) is Some),
    {
        value.get("_meta").is_some()
    }
}

/// One member of a JSON object: its key, and the text of its value.
pub open spec fn member_text(key: Text, value: Text) -> Text {
    compact_text(JsonTree::Str(key)) + ":"@ + value
}

/// The JSON text of a group.
pub open spec fn group_text(group: GroupView) -> Text {
    "{\"hosts\":"@ + compact_text(strings_tree(group.hosts)) + ",\"children\":"@ + compact_text(
        strings_tree(group.children),
    ) + ",\"vars\":"@ + (match group.vars {
        Some(vars) => compact_text(JsonTree::Object(vars)),
        None => compact_text(JsonTree::Null),
    }) + "}"@
}

/// The JSON text of an inventory: its hosts and its groups in ascending order of
/// their names.
pub open spec fn dataset_text(dataset: DatasetView) -> Text {
    "{\"hostvars\":{"@ + join_text(
        sorted(dataset.hostvars.dom()).map_values(
            |h: Text| member_text(h, compact_text(JsonTree::Object(dataset.hostvars[h]))),
        ),
        ","@,
    ) + "},\"groups\":{"@ + join_text(
        sorted(dataset.groups.dom()).map_values(|g: Text| member_text(g, group_text(dataset.groups[g]))),
        ","@,
    ) + "},\"remove_hosts\":"@ + compact_text(strings_tree(dataset.remove_hosts)) + "}"@
}

impl Group {
    fn to_json(&self) -> (text: String)
        ensures
            text@ == group_text(self@),
    {
        let mut text = "{\"hosts\":".to_owned();
        text.append(strings_text(&self.hosts).as_str());
        text.append(",\"children\":");
        text.append(strings_text(&self.children).as_str());
        text.append(",\"vars\":");
        let vars = match &self.vars {
            Some(vars) => object_text(vars),
            None => null_text(),
        };
        text.append(vars.as_str());
        text.append("}");
        text
    }
}

impl Dataset {
    /// The inventory as JSON text.
    pub fn to_json(&self) -> (text: String)
        ensures
            text@ == dataset_text(self@),
    {
        let mut hosts: Vec<String> = Vec::new();
        let n: usize = self.hostvars.len();
        let ghost names = sorted(self@.hostvars.dom());
        let ghost host_member = |h: Text| member_text(h, compact_text(JsonTree::Object(self@.hostvars[h])));
        let mut i: usize = 0;
        while i < n
            invariant
                i <= n == names.len(),
                names == sorted(self@.hostvars.dom()),
                host_member == (|h: Text| member_text(h, compact_text(JsonTree::Object(self@.hostvars[h])))),
                hosts.deep_view() == names.take(i as int).map_values(host_member),
            decreases n - i,
        {
            let ghost before = hosts.deep_view();
            hosts.push(
                cat3(
                    string_text(self.hostvars.key_at(i)).as_str(),
                    ":",
                    object_text(self.hostvars.value_at(i)).as_str(),
                ),
            );
            assert(hosts.deep_view() =~= before.push(host_member(names[i as int])));
            assert(names.take(i + 1).map_values(host_member) =~= names.take(i as int).map_values(host_member).push(
                host_member(names[i as int]),
            ));
            i += 1;
        }
        assert(names.take(n as int) =~= names);
        let mut groups: Vec<String> = Vec::new();
        let m: usize = self.groups.len();
        let ghost group_names = sorted(self@.groups.dom());
        let ghost group_member = |g: Text| member_text(g, group_text(self@.groups[g]));
        let mut j: usize = 0;
        while j < m
            invariant
                j <= m == group_names.len(),
                group_names == sorted(self@.groups.dom()),
                group_member == (|g: Text| member_text(g, group_text(self@.groups[g]))),
                groups.deep_view() == group_names.take(j as int).map_values(group_member),
            decreases m - j,
        {
            let ghost before = groups.deep_view();
            groups.push(
                cat3(
                    string_text(self.groups.key_at(j)).as_str(),
                    ":",
                    self.groups.value_at(j).to_json().as_str(),
                ),
            );
            assert(groups.deep_view() =~= before.push(group_member(group_names[j as int])));
            assert(group_names.take(j + 1).map_values(group_member) =~= group_names.take(j as int).map_values(
                group_member,
            ).push(group_member(group_names[j as int])));
            j += 1;
        }
        assert(group_names.take(m as int) =~= group_names);
        let mut text = "{\"hostvars\":{".to_owned();
        text.append(join(&hosts, ",").as_str());
        text.append("},\"groups\":{");
        text.append(join(&groups, ",").as_str());
        text.append("},\"remove_hosts\":");
        text.append(strings_text(&self.remove_hosts).as_str());
        text.append("}");
        text
    }
}

} // verus!
