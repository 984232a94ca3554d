//! Ansible's static YAML inventories: an inventory file with `group_vars` and
//! `host_vars` beside it. Variables stay where they are declared: those of a
//! group on the group, those of a host on the host.

#[allow(unused_imports)]
use crate::domain::dataset::{DatasetView, GroupView, VarsView};
use crate::domain::dataset::{Dataset, Group, HostVars};
#[allow(unused_imports)]
use crate::json::JsonTree;
use crate::model::Dup;
#[allow(unused_imports)]
use crate::strmap::{lemma_prefix_step, lemma_prefix_whole, sorted};
use crate::strmap::{StrMap, StrSet};
#[allow(unused_imports)]
use crate::text::{trim_start_text, Text};
use crate::text::{cat2, cat3, cat4, cat5, chars_of, str_eq, trim_start};
#[allow(unused_imports)]
use crate::yaml::{entry_trees, yaml_json, yaml_parsed, yaml_shown, yaml_tree, YamlBody, YamlTree};
use crate::yaml::{as_mapping, as_str, is_null, parse_yaml, show, to_json};
use serde_yaml_ng::Value;
use vstd::prelude::*;

verus! {

/// The files of a static inventory.
pub struct StaticInventoryInput {
    /// The inventory file.
    pub inventory: String,
    /// The files of each group, in the order in which they are merged: a label and
    /// the contents.
    pub group_vars: StrMap<Vec<(String, String)>>,
    /// The files of each host.
    pub host_vars: StrMap<Vec<(String, String)>>,
}

/// What is said of a key that is no string.
pub open spec fn key_error(key: YamlTree) -> Text {
    "expected a string key, got: "@ + yaml_shown(key)
}

/// A key as text.
pub open spec fn key_text(key: YamlTree) -> Result<Text, Text> {
    match key.body {
        YamlBody::Str(s) => Ok(s),
        _ => Err(key_error(key)),
    }
}

fn key_as_string(key: &Value) -> (r: Result<String, String>)
    ensures
        match r {
            Ok(s) => key_text(yaml_tree(*key)) == Ok::<Text, Text>(s@),
            Err(e) => key_text(yaml_tree(*key)) == Err::<Text, Text>(e@),
        },
{
    match as_str(key) {
        Some(s) => Ok(s.to_owned()),
        None => Err(cat2("expected a string key, got: ", show(key).as_str())),
    }
}

/// Variables from position `i` of a mapping on, put over those that are there.
pub open spec fn vars_from(vars: VarsView, entries: Seq<(YamlTree, YamlTree)>, i: int) -> Result<VarsView, Text>
    decreases entries.len() - i,
{
    if i < 0 || i >= entries.len() {
        Ok(vars)
    } else {
        match key_text(entries[i].0) {
            Err(e) => Err(e),
            Ok(key) => match yaml_json(entries[i].1) {
                Err(e) => Err("var '"@ + key + "': "@ + e),
                Ok(json) => vars_from(vars.insert(key, json), entries, i + 1),
            },
        }
    }
}

/// The variables in a mapping; none in null.
pub open spec fn vars_in(tree: YamlTree) -> Result<VarsView, Text> {
    match tree.body {
        YamlBody::Null => Ok(Map::empty()),
        YamlBody::Mapping(entries) => vars_from(Map::empty(), entries, 0),
        _ => Err("vars must be a mapping"@),
    }
}

fn yaml_vars(value: &Value) -> (r: Result<HostVars, String>)
    ensures
        match r {
            Ok(vars) => vars_in(yaml_tree(*value)) == Ok::<VarsView, Text>(vars@),
            Err(e) => vars_in(yaml_tree(*value)) == Err::<VarsView, Text>(e@),
        },
{
    if is_null(value) {
        return Ok(StrMap::new());
    }
    let entries = match as_mapping(value) {
        Some(entries) => entries,
        None => return Err("vars must be a mapping".to_owned()),
    };
    let ghost all = entry_trees(entries@);
    let mut vars: HostVars = StrMap::new();
    let mut i: usize = 0;
    while i < entries.len()
        invariant
            i <= entries@.len(),
            all == entry_trees(entries@),
            vars_in(yaml_tree(*value)) == vars_from(vars@, all, i as int),
        decreases entries@.len() - i,
    {
        assert(all[i as int] == (yaml_tree(*entries@[i as int].0), yaml_tree(*entries@[i as int].1)));
        let key = match key_as_string(entries[i].0) {
            Ok(key) => key,
            Err(e) => return Err(e),
        };
        match to_json(entries[i].1) {
            Ok(json) => vars.insert(key, json),
            Err(e) => return Err(cat4("var '", key.as_str(), "': ", e.as_str())),
        }
        i += 1;
    }
    Ok(vars)
}

/// What is known of a group while the inventory is walked.
#[verifier::ext_equal]
pub struct InfoView {
    pub hosts: Seq<Text>,
    pub children: Seq<Text>,
    pub vars: VarsView,
}

/// What is known while the inventory is walked.
#[verifier::ext_equal]
pub struct WalkView {
    pub groups: Map<Text, InfoView>,
    /// The hosts that were named.
    pub hosts: Set<Text>,
    /// The variables beside their names.
    pub host_vars: Map<Text, VarsView>,
}

impl WalkView {
    /// Nothing is known yet.
    pub open spec fn none() -> WalkView {
        WalkView { groups: Map::empty(), hosts: Set::empty(), host_vars: Map::empty() }
    }

    /// With a host, and variables put over those that are known of it.
    pub open spec fn with_host(self, host: Text, vars: VarsView) -> WalkView {
        WalkView {
            hosts: self.hosts.insert(host),
            host_vars: self.host_vars.insert(
                host,
                if self.host_vars.contains_key(host) {
                    self.host_vars[host].union_prefer_right(vars)
                } else {
                    vars
                },
            ),
            ..self
        }
    }
}

/// A name that stands for a range of hosts.
pub open spec fn is_range(host: Text) -> bool {
    host.contains('[')
}

/// The hosts of a group, from position `i` of a mapping on.
pub open spec fn walk_hosts(
    walk: WalkView,
    info: InfoView,
    entries: Seq<(YamlTree, YamlTree)>,
    i: int,
) -> Result<(WalkView, InfoView), Text>
    decreases entries.len() - i,
{
    if i < 0 || i >= entries.len() {
        Ok((walk, info))
    } else {
        match key_text(entries[i].0) {
            Err(e) => Err(e),
            Ok(host) => if is_range(host) {
                Err("host '"@ + host + "' looks like an Ansible range pattern, which is not supported"@)
            } else {
                match vars_in(entries[i].1) {
                    Err(e) => Err("host '"@ + host + "': "@ + e),
                    Ok(vars) => walk_hosts(
                        walk.with_host(host, vars),
                        InfoView { hosts: info.hosts.push(host), ..info },
                        entries,
                        i + 1,
                    ),
                }
            },
        }
    }
}

/// A group, under its name. What is known of it from elsewhere is added to; it is
/// held apart while its children are walked.
pub open spec fn walk_group(walk: WalkView, name: Text, node: YamlTree) -> Result<WalkView, Text>
    decreases node, 0int,
{
    let info = if walk.groups.contains_key(name) {
        walk.groups[name]
    } else {
        InfoView { hosts: Seq::empty(), children: Seq::empty(), vars: Map::empty() }
    };
    let apart = WalkView { groups: walk.groups.remove(name), ..walk };
    match node.body {
        YamlBody::Null => Ok(WalkView { groups: apart.groups.insert(name, info), ..apart }),
        YamlBody::Mapping(entries) => match walk_entries(apart, info, name, entries, 0) {
            Err(e) => Err(e),
            Ok((after, known)) => Ok(WalkView { groups: after.groups.insert(name, known), ..after }),
        },
        _ => Err("group '"@ + name + "' must be a mapping (hosts/children/vars) or empty"@),
    }
}

/// The entries of a group, from position `i` on.
pub open spec fn walk_entries(
    walk: WalkView,
    info: InfoView,
    name: Text,
    entries: Seq<(YamlTree, YamlTree)>,
    i: int,
) -> Result<(WalkView, InfoView), Text>
    decreases entries, entries.len() - i,
{
    if i < 0 || i >= entries.len() {
        Ok((walk, info))
    } else {
        match walk_entry(walk, info, name, entries[i].0, entries[i].1) {
            Err(e) => Err(e),
            Ok((after, known)) => walk_entries(after, known, name, entries, i + 1),
        }
    }
}

/// One entry of a group.
pub open spec fn walk_entry(
    walk: WalkView,
    info: InfoView,
    name: Text,
    key: YamlTree,
    value: YamlTree,
) -> Result<(WalkView, InfoView), Text>
    decreases value, 0int,
{
    match key_text(key) {
        Err(e) => Err(e),
        Ok(k) => if k == "hosts"@ {
            match value.body {
                YamlBody::Mapping(hosts) => walk_hosts(walk, info, hosts, 0),
                _ => Err("group '"@ + name + "': hosts must be a mapping of hostnames"@),
            }
        } else if k == "children"@ {
            match value.body {
                YamlBody::Mapping(children) => walk_children(walk, info, children, 0),
                _ => Err("group '"@ + name + "': children must be a mapping of groups"@),
            }
        } else if k == "vars"@ {
            match vars_in(value) {
                Err(e) => Err("group '"@ + name + "': "@ + e),
                Ok(vars) => Ok((walk, InfoView { vars: info.vars.union_prefer_right(vars), ..info })),
            }
        } else {
            Err("group '"@ + name + "': unknown key '"@ + k + "' (expected hosts/children/vars)"@)
        },
    }
}

/// The children of a group, from position `i` of a mapping on.
pub open spec fn walk_children(
    walk: WalkView,
    info: InfoView,
    entries: Seq<(YamlTree, YamlTree)>,
    i: int,
) -> Result<(WalkView, InfoView), Text>
    decreases entries, entries.len() - i,
{
    if i < 0 || i >= entries.len() {
        Ok((walk, info))
    } else {
        match key_text(entries[i].0) {
            Err(e) => Err(e),
            Ok(child) => match walk_group(walk, child, entries[i].1) {
                Err(e) => Err(e),
                Ok(after) => walk_children(
                    after,
                    InfoView { children: info.children.push(child), ..info },
                    entries,
                    i + 1,
                ),
            },
        }
    }
}

/// The top-level groups, from position `i` of a mapping on.
pub open spec fn walk_root(walk: WalkView, entries: Seq<(YamlTree, YamlTree)>, i: int) -> Result<WalkView, Text>
    decreases entries.len() - i,
{
    if i < 0 || i >= entries.len() {
        Ok(walk)
    } else {
        match key_text(entries[i].0) {
            Err(e) => Err(e),
            Ok(name) => match walk_group(walk, name, entries[i].1) {
                Err(e) => Err(e),
                Ok(after) => walk_root(after, entries, i + 1),
            },
        }
    }
}

struct GroupInfo {
    hosts: Vec<String>,
    children: Vec<String>,
    vars: HostVars,
}

impl DeepView for GroupInfo {
    type V = InfoView;

    closed spec fn deep_view(&self) -> InfoView {
        InfoView { hosts: self.hosts.deep_view(), children: self.children.deep_view(), vars: self.vars@ }
    }
}

struct Walk {
    groups: StrMap<GroupInfo>,
    hosts: StrSet,
    host_vars: StrMap<HostVars>,
}

impl Walk {
    spec fn model(self) -> WalkView {
        WalkView { groups: self.groups@, hosts: self.hosts@, host_vars: self.host_vars@ }
    }

    fn new() -> (walk: Self)
        ensures
            walk.model() == WalkView::none(),
    {
        Walk { groups: StrMap::new(), hosts: StrSet::new(), host_vars: StrMap::new() }
    }

    fn host(&mut self, host: &String, vars: HostVars)
        ensures
            final(self).model() == old(self).model().with_host(host@, vars@),
    {
        self.hosts.insert(host.clone());
        match self.host_vars.remove(host.as_str()) {
            Some(mut known) => {
                known.extend(vars);
                self.host_vars.insert(host.clone(), known);
            },
            None => {
                self.host_vars.insert(host.clone(), vars);
            },
        }
        assert(self.model().host_vars =~= old(self).model().with_host(host@, vars@).host_vars);
    }

    fn hosts(&mut self, info: &mut GroupInfo, entries: &Vec<(&Value, &Value)>) -> (r: Result<(), String>)
        ensures
            match r {
                Ok(()) => walk_hosts(
                    old(self).model(),
                    old(info).deep_view(),
                    entry_trees(entries@),
                    0,
                ) == Ok::<(WalkView, InfoView), Text>((final(self).model(), final(info).deep_view())),
                Err(e) => walk_hosts(
                    old(self).model(),
                    old(info).deep_view(),
                    entry_trees(entries@),
                    0,
                ) == Err::<(WalkView, InfoView), Text>(e@),
            },
    {
        let ghost all = entry_trees(entries@);
        let ghost whole = walk_hosts(self.model(), info.deep_view(), all, 0);
        let mut i: usize = 0;
        while i < entries.len()
            invariant
                i <= entries@.len(),
                all == entry_trees(entries@),
                whole == walk_hosts(old(self).model(), old(info).deep_view(), all, 0),
                whole == walk_hosts(self.model(), info.deep_view(), all, i as int),
            decreases entries@.len() - i,
        {
            assert(all[i as int] == (yaml_tree(*entries@[i as int].0), yaml_tree(*entries@[i as int].1)));
            let host = match key_as_string(entries[i].0) {
                Ok(host) => host,
                Err(e) => return Err(e),
            };
            if contains_char(host.as_str(), '[') {
                return Err(
                    cat3(
                        "host '",
                        host.as_str(),
                        "' looks like an Ansible range pattern, which is not supported",
                    ),
                );
            }
            let vars = match yaml_vars(entries[i].1) {
                Ok(vars) => vars,
                Err(e) => return Err(cat4("host '", host.as_str(), "': ", e.as_str())),
            };
            let ghost known = info.deep_view();
            let ghost name = host@;
            self.host(&host, vars);
            info.hosts.push(host);
            assert(info.deep_view().hosts =~= known.hosts.push(name));
            assert(info.deep_view() == (InfoView { hosts: known.hosts.push(name), ..known }));
            i += 1;
        }
        Ok(())
    }

    fn children(&mut self, info: &mut GroupInfo, value: &Value, entries: &Vec<(&Value, &Value)>) -> (r: Result<
        (),
        String,
    >)
        requires
            yaml_tree(*value).body == YamlBody::Mapping(entry_trees(entries@)),
        ensures
            match r {
                Ok(()) => walk_children(
                    old(self).model(),
                    old(info).deep_view(),
                    entry_trees(entries@),
                    0,
                ) == Ok::<(WalkView, InfoView), Text>((final(self).model(), final(info).deep_view())),
                Err(e) => walk_children(
                    old(self).model(),
                    old(info).deep_view(),
                    entry_trees(entries@),
                    0,
                ) == Err::<(WalkView, InfoView), Text>(e@),
            },
        decreases yaml_tree(*value), 0int,
    {
        let ghost tree = yaml_tree(*value);
        let ghost all = entry_trees(entries@);
        let ghost whole = walk_children(self.model(), info.deep_view(), all, 0);
        let mut i: usize = 0;
        while i < entries.len()
            invariant
                i <= entries@.len(),
                all == entry_trees(entries@),
                tree == yaml_tree(*value),
                tree.body == YamlBody::Mapping(all),
                whole == walk_children(old(self).model(), old(info).deep_view(), all, 0),
                whole == walk_children(self.model(), info.deep_view(), all, i as int),
            decreases entries@.len() - i,
        {
            assert(all[i as int] == (yaml_tree(*entries@[i as int].0), yaml_tree(*entries@[i as int].1)));
            let child = match key_as_string(entries[i].0) {
                Ok(child) => child,
                Err(e) => return Err(e),
            };
            proof {
                assert(decreases_to!(tree => tree.body));
                assert(decreases_to!(tree.body => tree.body->Mapping_0));
                assert(decreases_to!(all => all[i as int]));
                assert(decreases_to!(all[i as int] => all[i as int].1));
            }
            match self.group(child.as_str(), entries[i].1) {
                Ok(()) => {},
                Err(e) => return Err(e),
            }
            let ghost known = info.deep_view();
            let ghost name = child@;
            info.children.push(child);
            assert(info.deep_view().children =~= known.children.push(name));
            assert(info.deep_view() == (InfoView { children: known.children.push(name), ..known }));
            i += 1;
        }
        Ok(())
    }

    fn entry(&mut self, info: &mut GroupInfo, name: &str, key: &Value, value: &Value) -> (r: Result<(), String>)
        ensures
            match r {
                Ok(()) => walk_entry(
                    old(self).model(),
                    old(info).deep_view(),
                    name@,
                    yaml_tree(*key),
                    yaml_tree(*value),
                ) == Ok::<(WalkView, InfoView), Text>((final(self).model(), final(info).deep_view())),
                Err(e) => walk_entry(
                    old(self).model(),
                    old(info).deep_view(),
                    name@,
                    yaml_tree(*key),
                    yaml_tree(*value),
                ) == Err::<(WalkView, InfoView), Text>(e@),
            },
        decreases yaml_tree(*value), 1int,
    {
        let word = match key_as_string(key) {
            Ok(word) => word,
            Err(e) => return Err(e),
        };
        if str_eq(word.as_str(), "hosts") {
            match as_mapping(value) {
                Some(hosts) => self.hosts(info, &hosts),
                None => Err(cat3("group '", name, "': hosts must be a mapping of hostnames")),
            }
        } else if str_eq(word.as_str(), "children") {
            match as_mapping(value) {
                Some(children) => self.children(info, value, &children),
                None => Err(cat3("group '", name, "': children must be a mapping of groups")),
            }
        } else if str_eq(word.as_str(), "vars") {
            match yaml_vars(value) {
                Ok(vars) => {
                    info.vars.extend(vars);
                    Ok(())
                },
                Err(e) => Err(cat4("group '", name, "': ", e.as_str())),
            }
        } else {
            Err(cat5("group '", name, "': unknown key '", word.as_str(), "' (expected hosts/children/vars)"))
        }
    }

    fn group(&mut self, name: &str, node: &Value) -> (r: Result<(), String>)
        ensures
            match r {
                Ok(()) => walk_group(old(self).model(), name@, yaml_tree(*node)) == Ok::<WalkView, Text>(
                    final(self).model(),
                ),
                Err(e) => walk_group(old(self).model(), name@, yaml_tree(*node)) == Err::<WalkView, Text>(e@),
            },
        decreases yaml_tree(*node), 2int,
    {
        let ghost tree = yaml_tree(*node);
        let ghost before = self.model();
        let mut info = match self.groups.remove(name) {
            Some(info) => info,
            None => {
                let info = GroupInfo { hosts: Vec::new(), children: Vec::new(), vars: StrMap::new() };
                assert(info.deep_view().hosts =~= Seq::empty());
                assert(info.deep_view().children =~= Seq::empty());
                info
            },
        };
        let ghost apart = self.model();
        let ghost known = info.deep_view();
        if let Some(entries) = as_mapping(node) {
            let ghost all = entry_trees(entries@);
            let ghost whole = walk_entries(apart, known, name@, all, 0);
            let mut i: usize = 0;
            while i < entries.len()
                invariant
                    i <= entries@.len(),
                    all == entry_trees(entries@),
                    tree == yaml_tree(*node),
                    tree.body == YamlBody::Mapping(all),
                    before == old(self).model(),
                    apart == (WalkView { groups: before.groups.remove(name@), ..before }),
                    known == (if before.groups.contains_key(name@) {
                        before.groups[name@]
                    } else {
                        InfoView { hosts: Seq::empty(), children: Seq::empty(), vars: Map::empty() }
                    }),
                    whole == walk_entries(apart, known, name@, all, 0),
                    whole == walk_entries(self.model(), info.deep_view(), name@, all, i as int),
                decreases entries@.len() - i,
            {
                proof {
                    assert(all[i as int] == (yaml_tree(*entries@[i as int].0), yaml_tree(*entries@[i as int].1)));
                    assert(decreases_to!(tree => tree.body));
                    assert(decreases_to!(tree.body => tree.body->Mapping_0));
                    assert(decreases_to!(all => all[i as int]));
                    assert(decreases_to!(all[i as int] => all[i as int].1));
                }
                match self.entry(&mut info, name, entries[i].0, entries[i].1) {
                    Ok(()) => {},
                    Err(e) => return Err(e),
                }
                i += 1;
            }
            self.groups.insert(name.to_owned(), info);
            Ok(())
        } else if is_null(node) {
            self.groups.insert(name.to_owned(), info);
            Ok(())
        } else {
            Err(cat3("group '", name, "' must be a mapping (hosts/children/vars) or empty"))
        }
    }
}

/// Whether a character is in a string.
pub(crate) fn contains_char(s: &str, c: char) -> (found: bool)
    ensures
        found == s@.contains(c),
{
    let chars = chars_of(s);
    let mut i: usize = 0;
    while i < chars.len()
        invariant
            i <= chars@.len(),
            chars@ == s@,
            forall|j: int| 0 <= j < i ==> chars@[j] != c,
        decreases chars@.len() - i,
    {
        if chars[i] == c {
            return true;
        }
        i += 1;
    }
    false
}

/// Contents that `ansible-vault` encrypted.
pub open spec fn vaulted(contents: Text) -> bool {
    "$ANSIBLE_VAULT"@.is_prefix_of(trim_start_text(contents))
}

/// What is said of a file that is encrypted.
pub open spec fn vault_error(what: Text) -> Text {
    what + " is ansible-vault encrypted \u{2014} unified-api cannot decrypt it"@
}

/// The name of a file of variables.
pub open spec fn file_name(kind: Text, label: Text) -> Text {
    kind + "/"@ + label
}

/// The variables of the files of one group or host, from position `i` on, put
/// over those that are there.
pub open spec fn files_vars(
    vars: VarsView,
    parts: Seq<(Text, Text)>,
    kind: Text,
    i: int,
) -> Result<VarsView, Text>
    decreases parts.len() - i,
{
    if i < 0 || i >= parts.len() {
        Ok(vars)
    } else {
        let name = file_name(kind, parts[i].0);
        if vaulted(parts[i].1) {
            Err(vault_error(name))
        } else {
            match yaml_parsed(parts[i].1) {
                Err(e) => Err(name + " is not valid YAML: "@ + e),
                Ok(tree) => match vars_in(tree) {
                    Err(e) => Err(name + ": "@ + e),
                    Ok(more) => files_vars(vars.union_prefer_right(more), parts, kind, i + 1),
                },
            }
        }
    }
}

/// The variables of the files of the named groups or hosts, from position `i` on.
pub open spec fn all_files_vars(
    parsed: Map<Text, VarsView>,
    files: Map<Text, Seq<(Text, Text)>>,
    names: Seq<Text>,
    kind: Text,
    i: int,
) -> Result<Map<Text, VarsView>, Text>
    decreases names.len() - i,
{
    if i < 0 || i >= names.len() {
        Ok(parsed)
    } else {
        match files_vars(Map::empty(), files[names[i]], kind, 0) {
            Err(e) => Err(e),
            Ok(vars) => all_files_vars(parsed.insert(names[i], vars), files, names, kind, i + 1),
        }
    }
}

/// The variables of all files of a kind.
pub open spec fn vars_of_files(files: Map<Text, Seq<(Text, Text)>>, kind: Text) -> Result<Map<Text, VarsView>, Text> {
    all_files_vars(Map::empty(), files, sorted(files.dom()), kind, 0)
}

/// Variables with those of a file put over them, where there is one.
pub open spec fn with_file(vars: VarsView, files: Map<Text, VarsView>, name: Text) -> VarsView {
    if files.contains_key(name) {
        vars.union_prefer_right(files[name])
    } else {
        vars
    }
}

/// The variables of a host: those beside its name, under those of its files.
pub open spec fn own_vars(walk: WalkView, files: Map<Text, VarsView>, host: Text) -> VarsView {
    with_file(
        if walk.host_vars.contains_key(host) {
            walk.host_vars[host]
        } else {
            Map::empty()
        },
        files,
        host,
    )
}

/// A group as it is put out: hosts and children in ascending order, each once,
/// and its own variables, where it has any.
pub open spec fn group_out(info: InfoView, files: Map<Text, VarsView>, name: Text) -> GroupView {
    let vars = with_file(info.vars, files, name);
    GroupView {
        hosts: sorted(info.hosts.to_set()),
        children: sorted(info.children.to_set()),
        vars: if vars == Map::<Text, JsonTree>::empty() {
            None
        } else {
            Some(vars)
        },
    }
}

/// What is to be said of the files of a group.
pub open spec fn group_file_warning(walk: WalkView) -> spec_fn(Text) -> Option<Text> {
    |name: Text|
        if !walk.groups.contains_key(name) && name != "all"@ {
            Some("group_vars/"@ + name + " has no matching group in the inventory"@)
        } else {
            None
        }
}

/// What is to be said of the files of a host.
pub open spec fn host_file_warning(walk: WalkView) -> spec_fn(Text) -> Option<Text> {
    |name: Text|
        if !walk.hosts.contains(name) {
            Some("host_vars/"@ + name + " has no matching host in the inventory"@)
        } else {
            None
        }
}

/// The inventory that was walked, with the variables of the files. `ungrouped` is
/// left out.
pub open spec fn walked_dataset(
    walk: WalkView,
    group_files: Map<Text, VarsView>,
    host_files: Map<Text, VarsView>,
) -> DatasetView {
    DatasetView {
        hostvars: Map::new(|h: Text| walk.hosts.contains(h), |h: Text| own_vars(walk, host_files, h)),
        groups: Map::new(
            |g: Text| walk.groups.contains_key(g) && g != "ungrouped"@,
            |g: Text| group_out(walk.groups[g], group_files, g),
        ),
        remove_hosts: Seq::empty(),
    }
}

/// What a static inventory describes, with what is to be said of files that match
/// nothing, or what is wrong with it.
pub open spec fn static_inventory(
    inventory: Text,
    group_vars: Map<Text, Seq<(Text, Text)>>,
    host_vars: Map<Text, Seq<(Text, Text)>>,
) -> Result<(DatasetView, Seq<Text>), Text> {
    if vaulted(inventory) {
        Err(vault_error("inventory file"@))
    } else {
        match yaml_parsed(inventory) {
            Err(e) => Err("inventory file is not valid YAML: "@ + e),
            Ok(tree) => match tree.body {
                YamlBody::Mapping(root) => match vars_of_files(group_vars, "group_vars"@) {
                    Err(e) => Err(e),
                    Ok(group_files) => match vars_of_files(host_vars, "host_vars"@) {
                        Err(e) => Err(e),
                        Ok(host_files) => match walk_root(WalkView::none(), root, 0) {
                            Err(e) => Err(e),
                            Ok(walk) => Ok(
                                (
                                    walked_dataset(walk, group_files, host_files),
                                    sorted(group_files.dom()).filter_map(group_file_warning(walk)) + sorted(
                                        host_files.dom(),
                                    ).filter_map(host_file_warning(walk)),
                                ),
                            ),
                        },
                    },
                },
                _ => Err("inventory file must be a YAML mapping of groups"@),
            },
        }
    }
}

fn is_vaulted(contents: &str) -> (yes: bool)
    ensures
        yes == vaulted(contents@),
{
    let start = trim_start(contents);
    let marker = chars_of("$ANSIBLE_VAULT");
    let chars = chars_of(start.as_str());
    if chars.len() < marker.len() {
        return false;
    }
    let mut i: usize = 0;
    while i < marker.len()
        invariant
            i <= marker@.len() <= chars@.len(),
            marker@ == "$ANSIBLE_VAULT"@,
            chars@ == trim_start_text(contents@),
            forall|j: int| 0 <= j < i ==> marker@[j] == chars@[j],
        decreases marker@.len() - i,
    {
        if marker[i] != chars[i] {
            assert(chars@.subrange(0, marker@.len() as int)[i as int] != marker@[i as int]);
            return false;
        }
        i += 1;
    }
    assert(marker@ =~= chars@.subrange(0, marker@.len() as int));
    true
}

fn check_not_vaulted(what: &str, contents: &str) -> (r: Result<(), String>)
    ensures
        match r {
            Ok(()) => !vaulted(contents@),
            Err(e) => vaulted(contents@) && e@ == vault_error(what@),
        },
{
    if is_vaulted(contents) {
        return Err(cat2(what, " is ansible-vault encrypted \u{2014} unified-api cannot decrypt it"));
    }
    Ok(())
}

fn parse_vars_parts(parts: &Vec<(String, String)>, kind: &str) -> (r: Result<HostVars, String>)
    ensures
        match r {
            Ok(vars) => files_vars(Map::empty(), parts.deep_view(), kind@, 0) == Ok::<VarsView, Text>(vars@),
            Err(e) => files_vars(Map::empty(), parts.deep_view(), kind@, 0) == Err::<VarsView, Text>(e@),
        },
{
    let ghost all = parts.deep_view();
    let ghost whole = files_vars(Map::empty(), all, kind@, 0);
    let mut vars: HostVars = StrMap::new();
    let mut i: usize = 0;
    while i < parts.len()
        invariant
            i <= parts@.len(),
            all == parts.deep_view(),
            whole == files_vars(Map::empty(), all, kind@, 0),
            whole == files_vars(vars@, all, kind@, i as int),
        decreases parts@.len() - i,
    {
        assert(all[i as int] == (parts@[i as int].0@, parts@[i as int].1@));
        let name = cat3(kind, "/", parts[i].0.as_str());
        let contents: &str = parts[i].1.as_str();
        match check_not_vaulted(name.as_str(), contents) {
            Ok(()) => {},
            Err(e) => return Err(e),
        }
        let value = match parse_yaml(contents) {
            Ok(value) => value,
            Err(e) => return Err(cat3(name.as_str(), " is not valid YAML: ", e.as_str())),
        };
        match yaml_vars(&value) {
            Ok(more) => vars.extend(more),
            Err(e) => return Err(cat3(name.as_str(), ": ", e.as_str())),
        }
        i += 1;
    }
    Ok(vars)
}

fn parse_vars_files(files: &StrMap<Vec<(String, String)>>, kind: &str) -> (r: Result<StrMap<HostVars>, String>)
    ensures
        match r {
            Ok(parsed) => vars_of_files(files@, kind@) == Ok::<Map<Text, VarsView>, Text>(parsed@),
            Err(e) => vars_of_files(files@, kind@) == Err::<Map<Text, VarsView>, Text>(e@),
        },
{
    let mut parsed: StrMap<HostVars> = StrMap::new();
    let n: usize = files.len();
    let ghost names = sorted(files@.dom());
    let ghost whole = vars_of_files(files@, kind@);
    let mut i: usize = 0;
    while i < n
        invariant
            i <= n == names.len(),
            names == sorted(files@.dom()),
            whole == vars_of_files(files@, kind@),
            whole == all_files_vars(parsed@, files@, names, kind@, i as int),
        decreases n - i,
    {
        match parse_vars_parts(files.value_at(i), kind) {
            Ok(vars) => parsed.insert(files.key_at(i).clone(), vars),
            Err(e) => return Err(e),
        }
        i += 1;
    }
    Ok(parsed)
}

fn sorted_names(names: &Vec<String>) -> (list: Vec<String>)
    ensures
        list.deep_view() == sorted(names.deep_view().to_set()),
{
    let mut set = StrSet::new();
    set.extend(names);
    assert(set@ =~= names.deep_view().to_set());
    set.to_vec()
}

fn walked_hosts(walk: &Walk, host_files: &StrMap<HostVars>) -> (hostvars: StrMap<HostVars>)
    ensures
        hostvars@ == Map::new(
            |h: Text| walk.model().hosts.contains(h),
            |h: Text| own_vars(walk.model(), host_files@, h),
        ),
{
    let mut hostvars: StrMap<HostVars> = StrMap::new();
    let n: usize = walk.hosts.len();
    let ghost names = sorted(walk.hosts@);
    let mut i: usize = 0;
    while i < n
        invariant
            i <= n == names.len(),
            names == sorted(walk.hosts@),
            forall|k: Text| #[trigger] hostvars@.contains_key(k) <==> names.take(i as int).contains(k),
            forall|k: Text| #[trigger]
                hostvars@.contains_key(k) ==> hostvars@[k] == own_vars(walk.model(), host_files@, k),
        decreases n - i,
    {
        proof {
            lemma_prefix_step(names, i as int);
        }
        let host: &String = walk.hosts.at(i);
        let mut vars: HostVars = match walk.host_vars.get(host.as_str()) {
            Some(vars) => vars.dup(),
            None => StrMap::new(),
        };
        if let Some(more) = host_files.get(host.as_str()) {
            vars.extend(more.dup());
        }
        hostvars.insert(host.clone(), vars);
        i += 1;
    }
    proof {
        lemma_prefix_whole(walk.hosts@);
        assert(hostvars@ =~= Map::new(
            |h: Text| walk.model().hosts.contains(h),
            |h: Text| own_vars(walk.model(), host_files@, h),
        ));
    }
    hostvars
}

fn walked_groups(walk: &Walk, group_files: &StrMap<HostVars>) -> (groups: StrMap<Group>)
    ensures
        groups@ == Map::new(
            |g: Text| walk.model().groups.contains_key(g) && g != "ungrouped"@,
            |g: Text| group_out(walk.model().groups[g], group_files@, g),
        ),
{
    let mut groups: StrMap<Group> = StrMap::new();
    let n: usize = walk.groups.len();
    let ghost names = sorted(walk.groups@.dom());
    let mut i: usize = 0;
    while i < n
        invariant
            i <= n == names.len(),
            names == sorted(walk.groups@.dom()),
            forall|k: Text| #[trigger]
                groups@.contains_key(k) <==> names.take(i as int).contains(k) && k != "ungrouped"@,
            forall|k: Text| #[trigger]
                groups@.contains_key(k) ==> groups@[k] == group_out(walk.model().groups[k], group_files@, k),
        decreases n - i,
    {
        proof {
            lemma_prefix_step(names, i as int);
        }
        let name: &String = walk.groups.key_at(i);
        let info = walk.groups.value_at(i);
        i += 1;
        if str_eq(name.as_str(), "ungrouped") {
            continue;
        }
        let mut vars = info.vars.dup();
        if let Some(more) = group_files.get(name.as_str()) {
            vars.extend(more.dup());
        }
        let group = Group {
            hosts: sorted_names(&info.hosts),
            children: sorted_names(&info.children),
            vars: if vars.is_empty() {
                None
            } else {
                Some(vars)
            },
        };
        assert(group@ == group_out(walk.model().groups[name@], group_files@, name@));
        groups.insert(name.clone(), group);
    }
    proof {
        lemma_prefix_whole(walk.groups@.dom());
        assert(groups@ =~= Map::new(
            |g: Text| walk.model().groups.contains_key(g) && g != "ungrouped"@,
            |g: Text| group_out(walk.model().groups[g], group_files@, g),
        ));
    }
    groups
}

fn unmatched(walk: &Walk, group_files: &StrMap<HostVars>, host_files: &StrMap<HostVars>) -> (warnings: Vec<String>)
    ensures
        warnings.deep_view() == sorted(group_files@.dom()).filter_map(group_file_warning(walk.model())) + sorted(
            host_files@.dom(),
        ).filter_map(host_file_warning(walk.model())),
{
    let mut warnings: Vec<String> = Vec::new();
    let n: usize = group_files.len();
    let ghost names = sorted(group_files@.dom());
    let ghost say_group = group_file_warning(walk.model());
    let mut i: usize = 0;
    assert(warnings.deep_view() =~= names.take(0).filter_map(say_group));
    while i < n
        invariant
            i <= n == names.len(),
            names == sorted(group_files@.dom()),
            say_group == group_file_warning(walk.model()),
            warnings.deep_view() == names.take(i as int).filter_map(say_group),
        decreases n - i,
    {
        let ghost before = warnings.deep_view();
        let name: &str = group_files.key_at(i).as_str();
        proof {
            names.lemma_filter_map_take_succ(say_group, i as int);
        }
        if !walk.groups.contains_key(name) && !str_eq(name, "all") {
            warnings.push(cat3("group_vars/", name, " has no matching group in the inventory"));
            assert(warnings.deep_view() =~= before + seq![say_group(name@)->0]);
        }
        i += 1;
    }
    assert(names.take(n as int) =~= names);
    let ghost said = warnings.deep_view();
    let m: usize = host_files.len();
    let ghost hosts = sorted(host_files@.dom());
    let ghost say_host = host_file_warning(walk.model());
    let mut j: usize = 0;
    assert(warnings.deep_view() =~= said + hosts.take(0).filter_map(say_host));
    while j < m
        invariant
            j <= m == hosts.len(),
            hosts == sorted(host_files@.dom()),
            say_host == host_file_warning(walk.model()),
            warnings.deep_view() == said + hosts.take(j as int).filter_map(say_host),
        decreases m - j,
    {
        let ghost before = warnings.deep_view();
        let name: &str = host_files.key_at(j).as_str();
        proof {
            hosts.lemma_filter_map_take_succ(say_host, j as int);
        }
        if !walk.hosts.contains(name) {
            warnings.push(cat3("host_vars/", name, " has no matching host in the inventory"));
            assert(warnings.deep_view() =~= before + seq![say_host(name@)->0]);
        }
        assert(warnings.deep_view() =~= said + hosts.take(j + 1).filter_map(say_host));
        j += 1;
    }
    assert(hosts.take(m as int) =~= hosts);
    warnings
}

/// Reads a static inventory. What cannot be read is an error that names the file,
/// the group or the host.
pub fn parse(input: &StaticInventoryInput) -> (r: Result<(Dataset, Vec<String>), String>)
    ensures
        match r {
            Ok((dataset, warnings)) => static_inventory(
                input.inventory@,
                input.group_vars@,
                input.host_vars@,
            ) == Ok::<(DatasetView, Seq<Text>), Text>((dataset@, warnings.deep_view())),
            Err(e) => static_inventory(input.inventory@, input.group_vars@, input.host_vars@) == Err::<
                (DatasetView, Seq<Text>),
                Text,
            >(e@),
        },
{
    match check_not_vaulted("inventory file", input.inventory.as_str()) {
        Ok(()) => {},
        Err(e) => return Err(e),
    }
    let root = match parse_yaml(input.inventory.as_str()) {
        Ok(root) => root,
        Err(e) => return Err(cat2("inventory file is not valid YAML: ", e.as_str())),
    };
    let entries = match as_mapping(&root) {
        Some(entries) => entries,
        None => return Err("inventory file must be a YAML mapping of groups".to_owned()),
    };
    let group_files = match parse_vars_files(&input.group_vars, "group_vars") {
        Ok(parsed) => parsed,
        Err(e) => return Err(e),
    };
    let host_files = match parse_vars_files(&input.host_vars, "host_vars") {
        Ok(parsed) => parsed,
        Err(e) => return Err(e),
    };
    let mut walk = Walk::new();
    let ghost all = entry_trees(entries@);
    let ghost whole = walk_root(WalkView::none(), all, 0);
    let mut i: usize = 0;
    while i < entries.len()
        invariant
            i <= entries@.len(),
            all == entry_trees(entries@),
            !vaulted(input.inventory@),
            yaml_parsed(input.inventory@) == Ok::<YamlTree, Text>(yaml_tree(root)),
            yaml_tree(root).body == YamlBody::Mapping(all),
            vars_of_files(input.group_vars@, "group_vars"@) == Ok::<Map<Text, VarsView>, Text>(group_files@),
            vars_of_files(input.host_vars@, "host_vars"@) == Ok::<Map<Text, VarsView>, Text>(host_files@),
            whole == walk_root(WalkView::none(), all, 0),
            whole == walk_root(walk.model(), all, i as int),
        decreases entries@.len() - i,
    {
        assert(all[i as int] == (yaml_tree(*entries@[i as int].0), yaml_tree(*entries@[i as int].1)));
        let name = match key_as_string(entries[i].0) {
            Ok(name) => name,
            Err(e) => return Err(e),
        };
        match walk.group(name.as_str(), entries[i].1) {
            Ok(()) => {},
            Err(e) => return Err(e),
        }
        i += 1;
    }
    let dataset = Dataset {
        hostvars: walked_hosts(&walk, &host_files),
        groups: walked_groups(&walk, &group_files),
        remove_hosts: Vec::new(),
    };
    assert(dataset@ =~= walked_dataset(walk.model(), group_files@, host_files@));
    let warnings = unmatched(&walk, &group_files, &host_files);
    Ok((dataset, warnings))
}

} // verus!
