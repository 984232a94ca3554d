//! What a static inventory says, and what is read of it.

#[allow(unused_imports)]
use crate::application::sync_laws::lemma_filter_map_holds;
#[allow(unused_imports)]
use crate::domain::dataset::{DatasetView, GroupView, VarsView};
#[allow(unused_imports)]
use crate::domain::static_inventory::{
    all_files_vars, file_name, files_vars, group_file_warning, host_file_warning, key_text, static_inventory,
    vars_from, vars_in, vars_of_files, vault_error, vaulted, walk_children, walk_entries, walk_entry, walk_group,
    walk_hosts, walk_root, InfoView, WalkView,
};
#[allow(unused_imports)]
use crate::json::JsonTree;
#[allow(unused_imports)]
use crate::strmap::{lemma_prefix_whole, lemma_sorted, sorted};
#[allow(unused_imports)]
use crate::text::{is_space, trim_start_text, Text};
#[allow(unused_imports)]
use crate::yaml::{yaml_json, yaml_parsed, yaml_shown, YamlBody, YamlTree};
use vstd::prelude::*;

verus! {

/// Something that an inventory can say.
pub enum Said {
    /// There is a group.
    Group(Text),
    /// There is a host.
    Host(Text),
    /// A host is in a group.
    Member(Text, Text),
    /// A group has another as a child.
    Child(Text, Text),
    /// A variable stands beside a mention of a host.
    HostVar(Text, Text),
    /// A variable stands under a group.
    GroupVar(Text, Text),
    /// A variable stands beside a mention of a host, with this value.
    HostVarIs(Text, Text, JsonTree),
    /// A variable stands under a group, with this value.
    GroupVarIs(Text, Text, JsonTree),
}

/// A key is this text.
pub open spec fn reads(key: YamlTree, text: Text) -> bool {
    key.body == YamlBody::Str(text)
}

/// A mapping has a key.
pub open spec fn has_key(tree: YamlTree, key: Text) -> bool {
    tree.body matches YamlBody::Mapping(entries) && exists|i: int|
        0 <= i < entries.len() && reads((#[trigger] entries[i]).0, key)
}

/// A mapping has a key with a value.
pub open spec fn has_value(tree: YamlTree, key: Text, value: JsonTree) -> bool {
    tree.body matches YamlBody::Mapping(entries) && exists|i: int|
        0 <= i < entries.len() && reads((#[trigger] entries[i]).0, key) && yaml_json(entries[i].1) == Ok::<
            JsonTree,
            Text,
        >(value)
}

/// A mention of a host in a group says this.
pub open spec fn mention_says(group: Text, key: YamlTree, vars: YamlTree, said: Said) -> bool {
    match said {
        Said::Host(host) => reads(key, host),
        Said::Member(g, host) => g == group && reads(key, host),
        Said::HostVar(host, var) => reads(key, host) && has_key(vars, var),
        Said::HostVarIs(host, var, value) => reads(key, host) && has_value(vars, var, value),
        _ => false,
    }
}

/// The body of a group says this.
pub open spec fn group_says(name: Text, node: YamlTree, said: Said) -> bool
    decreases node, 0int,
{
    said == Said::Group(name) || (node.body matches YamlBody::Mapping(entries) && exists|i: int|
        0 <= i < entries.len() && entry_says(name, (#[trigger] entries[i]).0, entries[i].1, said))
}

/// An entry in the body of a group says this.
pub open spec fn entry_says(name: Text, key: YamlTree, value: YamlTree, said: Said) -> bool
    decreases value, 0int,
{
    ||| reads(key, "hosts"@) && (value.body matches YamlBody::Mapping(hosts) && exists|i: int|
        0 <= i < hosts.len() && mention_says(name, (#[trigger] hosts[i]).0, hosts[i].1, said))
    ||| reads(key, "children"@) && (value.body matches YamlBody::Mapping(children) && exists|i: int|
        0 <= i < children.len() && child_says(name, (#[trigger] children[i]).0, children[i].1, said))
    ||| reads(key, "vars"@) && (said matches Said::GroupVar(g, var) && g == name && has_key(value, var))
    ||| reads(key, "vars"@) && (said matches Said::GroupVarIs(g, var, json) && g == name && has_value(
        value,
        var,
        json,
    ))
}

/// A child of a group says this.
pub open spec fn child_says(name: Text, key: YamlTree, node: YamlTree, said: Said) -> bool
    decreases node, 1int,
{
    key.body matches YamlBody::Str(child) && (said == Said::Child(name, child) || group_says(child, node, said))
}

/// The groups at the top of an inventory say this.
pub open spec fn root_says(root: Seq<(YamlTree, YamlTree)>, said: Said) -> bool {
    exists|i: int|
        0 <= i < root.len() && (#[trigger] root[i]).0.body is Str && group_says(
            root[i].0.body->Str_0,
            root[i].1,
            said,
        )
}

/// A group of this name stands here or further down.
pub open spec fn occurs(name: Text, node: YamlTree, group: Text) -> bool
    decreases node, 1int,
{
    name == group || below(node, group)
}

/// A group of this name stands further down.
pub open spec fn below(node: YamlTree, group: Text) -> bool
    decreases node, 0int,
{
    node.body matches YamlBody::Mapping(entries) && exists|i: int|
        0 <= i < entries.len() && below_entry((#[trigger] entries[i]).0, entries[i].1, group)
}

/// A group of this name stands among the children of an entry, or further down.
pub open spec fn below_entry(key: YamlTree, value: YamlTree, group: Text) -> bool
    decreases value, 0int,
{
    reads(key, "children"@) && (value.body matches YamlBody::Mapping(children) && exists|i: int|
        0 <= i < children.len() && (#[trigger] children[i]).0.body is Str && occurs(
            children[i].0.body->Str_0,
            children[i].1,
            group,
        ))
}

/// A group of this name stands below itself.
pub open spec fn nested(name: Text, node: YamlTree, group: Text) -> bool
    decreases node, 1int,
{
    (name == group && below(node, group)) || (node.body matches YamlBody::Mapping(entries) && exists|i: int|
        0 <= i < entries.len() && nested_entry((#[trigger] entries[i]).0, entries[i].1, group))
}

/// A group of this name stands below itself, in an entry.
pub open spec fn nested_entry(key: YamlTree, value: YamlTree, group: Text) -> bool
    decreases value, 0int,
{
    reads(key, "children"@) && (value.body matches YamlBody::Mapping(children) && exists|i: int|
        0 <= i < children.len() && (#[trigger] children[i]).0.body is Str && nested(
            children[i].0.body->Str_0,
            children[i].1,
            group,
        ))
}

/// A group of this name stands below itself somewhere in an inventory.
pub open spec fn root_nested(root: Seq<(YamlTree, YamlTree)>, group: Text) -> bool {
    exists|i: int|
        0 <= i < root.len() && (#[trigger] root[i]).0.body is Str && nested(
            root[i].0.body->Str_0,
            root[i].1,
            group,
        )
}

/// The group of which something is said.
pub open spec fn subject(said: Said) -> Option<Text> {
    match said {
        Said::Member(g, _) => Some(g),
        Said::Child(g, _) => Some(g),
        Said::GroupVar(g, _) => Some(g),
        Said::GroupVarIs(g, _, _) => Some(g),
        _ => None,
    }
}

spec fn info_holds(info: InfoView, said: Said) -> bool {
    match said {
        Said::Member(_, host) => info.hosts.contains(host),
        Said::Child(_, child) => info.children.contains(child),
        Said::GroupVar(_, var) => info.vars.contains_key(var),
        Said::GroupVarIs(_, var, value) => info.vars.contains_key(var) && info.vars[var] == value,
        _ => false,
    }
}

/// What was walked holds this.
spec fn holds(walk: WalkView, said: Said) -> bool {
    match said {
        Said::Group(g) => walk.groups.contains_key(g),
        Said::Host(host) => walk.hosts.contains(host),
        Said::HostVar(host, var) => walk.host_vars.contains_key(host) && walk.host_vars[host].contains_key(var),
        Said::HostVarIs(host, var, value) => walk.host_vars.contains_key(host) && walk.host_vars[host].contains_key(
            var,
        ) && walk.host_vars[host][var] == value,
        _ => walk.groups.contains_key(subject(said)->0) && info_holds(walk.groups[subject(said)->0], said),
    }
}

/// What was walked holds this, while the group `name` is held apart.
spec fn holds_apart(walk: WalkView, name: Text, info: InfoView, said: Said) -> bool {
    if subject(said) == Some(name) {
        info_holds(info, said)
    } else {
        said == Said::Group(name) || holds(walk, said)
    }
}

/// Nothing is lost, where no group that is spoken of stands below itself; and nothing
/// comes from nowhere.
spec fn told(before: bool, here: bool, after: bool, tidy: bool) -> bool {
    &&& after ==> before || here
    &&& tidy && (before || here) ==> after
}

/// Something is said of the value of a variable. A later value takes its place.
spec fn is_value(said: Said) -> bool {
    said is HostVarIs || said is GroupVarIs
}

spec fn tidy_group(name: Text, node: YamlTree, said: Said) -> bool {
    !is_value(said) && (subject(said) matches Some(group) ==> !nested(name, node, group))
}

proof fn lemma_vars_from(vars: VarsView, entries: Seq<(YamlTree, YamlTree)>, i: int, key: Text)
    requires
        0 <= i <= entries.len(),
        vars_from(vars, entries, i) is Ok,
    ensures
        ({
            let found = vars_from(vars, entries, i)->Ok_0;
            let here = exists|l: int| i <= l < entries.len() && reads((#[trigger] entries[l]).0, key);
            &&& found.contains_key(key) <==> vars.contains_key(key) || here
            &&& !here && vars.contains_key(key) ==> found[key] == vars[key]
            &&& here ==> exists|l: int|
                i <= l < entries.len() && reads((#[trigger] entries[l]).0, key) && yaml_json(entries[l].1) == Ok::<
                    JsonTree,
                    Text,
                >(found[key])
        }),
    decreases entries.len() - i,
{
    if i < entries.len() {
        let name = key_text(entries[i].0)->Ok_0;
        let json = yaml_json(entries[i].1)->Ok_0;
        let next = vars.insert(name, json);
        lemma_vars_from(next, entries, i + 1, key);
        let found = vars_from(vars, entries, i)->Ok_0;
        assert(reads(entries[i].0, key) <==> name == key);
        if exists|l: int| i <= l < entries.len() && reads((#[trigger] entries[l]).0, key) {
            let l = choose|l: int| i <= l < entries.len() && reads((#[trigger] entries[l]).0, key);
            if l > i {
                assert(exists|m: int| i + 1 <= m < entries.len() && reads((#[trigger] entries[m]).0, key));
            }
        }
    }
}

proof fn lemma_vars_in(tree: YamlTree, key: Text)
    requires
        vars_in(tree) is Ok,
    ensures
        vars_in(tree)->Ok_0.contains_key(key) <==> has_key(tree, key),
        vars_in(tree)->Ok_0.contains_key(key) ==> has_value(tree, key, vars_in(tree)->Ok_0[key]),
{
    if let YamlBody::Mapping(entries) = tree.body {
        lemma_vars_from(Map::empty(), entries, 0, key);
    }
}

proof fn lemma_push_contains(list: Seq<Text>, item: Text, x: Text)
    ensures
        list.push(item).contains(x) <==> list.contains(x) || x == item,
{
    let more = list.push(item);
    if list.contains(x) {
        let i = choose|i: int| 0 <= i < list.len() && list[i] == x;
        assert(more[i] == x);
    }
    assert(more[list.len() as int] == item);
    if more.contains(x) {
        let i = choose|i: int| 0 <= i < more.len() && more[i] == x;
        if i < list.len() {
            assert(list[i] == x);
        }
    }
}

proof fn lemma_hosts_said(
    walk: WalkView,
    name: Text,
    info: InfoView,
    entries: Seq<(YamlTree, YamlTree)>,
    i: int,
    said: Said,
)
    requires
        0 <= i <= entries.len(),
    ensures
        walk_hosts(walk, info, entries, i) matches Ok((after, more)) ==> told(
            holds_apart(walk, name, info, said),
            exists|l: int|
                i <= l < entries.len() && mention_says(name, (#[trigger] entries[l]).0, entries[l].1, said),
            holds_apart(after, name, more, said),
            !is_value(said),
        ),
    decreases entries.len() - i,
{
    if i < entries.len() {
        if let Ok(host) = key_text(entries[i].0) {
            if let Ok(vars) = vars_in(entries[i].1) {
                let next = walk.with_host(host, vars);
                let known = InfoView { hosts: info.hosts.push(host), ..info };
                lemma_hosts_said(next, name, known, entries, i + 1, said);
                assert(told(
                    holds_apart(walk, name, info, said),
                    mention_says(name, entries[i].0, entries[i].1, said),
                    holds_apart(next, name, known, said),
                    !is_value(said),
                )) by {
                    if let Said::HostVarIs(_, var, _) = said {
                        lemma_vars_in(entries[i].1, var);
                    }
                    if let Said::Member(_, h) = said {
                        lemma_push_contains(info.hosts, host, h);
                    }
                    if let Said::HostVar(_, var) = said {
                        lemma_vars_in(entries[i].1, var);
                    }
                }
                if exists|l: int|
                    i <= l < entries.len() && mention_says(name, (#[trigger] entries[l]).0, entries[l].1, said) {
                    let l = choose|l: int|
                        i <= l < entries.len() && mention_says(name, (#[trigger] entries[l]).0, entries[l].1, said);
                    if l > i {
                        assert(exists|m: int|
                            i + 1 <= m < entries.len() && mention_says(
                                name,
                                (#[trigger] entries[m]).0,
                                entries[m].1,
                                said,
                            ));
                    }
                }
            }
        }
    }
}

/// Only a group that stands somewhere can be spoken of.
proof fn lemma_said_occurs(name: Text, node: YamlTree, said: Said)
    requires
        group_says(name, node, said),
        subject(said) is Some,
    ensures
        occurs(name, node, subject(said)->0),
    decreases node,
{
    let entries = node.body->Mapping_0;
    let i = choose|i: int|
        0 <= i < entries.len() && entry_says(name, (#[trigger] entries[i]).0, entries[i].1, said);
    let value = entries[i].1;
    let group = subject(said)->0;
    if name != group {
        let children = value.body->Mapping_0;
        let j = choose|j: int|
            0 <= j < children.len() && child_says(name, (#[trigger] children[j]).0, children[j].1, said);
        lemma_said_occurs(children[j].0.body->Str_0, children[j].1, said);
        assert(below_entry(entries[i].0, entries[i].1, group));
    }
}

proof fn lemma_group_said(walk: WalkView, name: Text, node: YamlTree, said: Said)
    ensures
        walk_group(walk, name, node) matches Ok(after) ==> told(
            holds(walk, said),
            group_says(name, node, said),
            holds(after, said),
            tidy_group(name, node, said),
        ),
    decreases node, 0int,
{
    let info = if walk.groups.contains_key(name) {
        walk.groups[name]
    } else {
        InfoView { hosts: Seq::empty(), children: Seq::empty(), vars: Map::empty() }
    };
    let apart = WalkView { groups: walk.groups.remove(name), ..walk };
    assert(holds_apart(apart, name, info, said) <==> holds(walk, said) || said == Said::Group(name));
    if let YamlBody::Mapping(entries) = node.body {
        lemma_entries_said(apart, name, info, node, entries, 0, said);
        if let Ok((after, known)) = walk_entries(apart, info, name, entries, 0) {
            let whole = WalkView { groups: after.groups.insert(name, known), ..after };
            assert(holds(whole, said) <==> holds_apart(after, name, known, said));
        }
    }
}

proof fn lemma_entries_said(
    walk: WalkView,
    name: Text,
    info: InfoView,
    node: YamlTree,
    entries: Seq<(YamlTree, YamlTree)>,
    i: int,
    said: Said,
)
    requires
        0 <= i <= entries.len(),
        node.body == YamlBody::Mapping(entries),
    ensures
        walk_entries(walk, info, name, entries, i) matches Ok((after, more)) ==> told(
            holds_apart(walk, name, info, said),
            exists|l: int|
                i <= l < entries.len() && entry_says(name, (#[trigger] entries[l]).0, entries[l].1, said),
            holds_apart(after, name, more, said),
            tidy_group(name, node, said),
        ),
    decreases entries, entries.len() - i,
{
    if i < entries.len() {
        let key = entries[i].0;
        let value = entries[i].1;
        lemma_entry_said(walk, name, info, key, value, said);
        if let Ok((after, more)) = walk_entry(walk, info, name, key, value) {
            lemma_entries_said(after, name, more, node, entries, i + 1, said);
            if exists|l: int|
                i <= l < entries.len() && entry_says(name, (#[trigger] entries[l]).0, entries[l].1, said) {
                let l = choose|l: int|
                    i <= l < entries.len() && entry_says(name, (#[trigger] entries[l]).0, entries[l].1, said);
                if l > i {
                    assert(exists|m: int|
                        i + 1 <= m < entries.len() && entry_says(
                            name,
                            (#[trigger] entries[m]).0,
                            entries[m].1,
                            said,
                        ));
                }
            }
            if tidy_group(name, node, said) && subject(said) is Some {
                let group = subject(said)->0;
                lemma_entry_nested(name, node, entries, i, group);
            }
        }
    }
}

proof fn lemma_entry_nested(name: Text, node: YamlTree, entries: Seq<(YamlTree, YamlTree)>, i: int, group: Text)
    requires
        node.body == YamlBody::Mapping(entries),
        0 <= i < entries.len(),
    ensures
        nested_entry(entries[i].0, entries[i].1, group) ==> nested(name, node, group),
        below_entry(entries[i].0, entries[i].1, group) ==> below(node, group),
{
    let all = node.body->Mapping_0;
    assert(all == entries);
    assert(nested_entry(all[i].0, all[i].1, group) ==> nested(name, node, group));
    assert(below_entry(all[i].0, all[i].1, group) ==> below(node, group));
}

spec fn tidy_entry(name: Text, key: YamlTree, value: YamlTree, said: Said) -> bool {
    !is_value(said) && (subject(said) matches Some(group) ==> !nested_entry(key, value, group) && (name == group
        ==> !below_entry(key, value, group)))
}

proof fn lemma_entry_said(walk: WalkView, name: Text, info: InfoView, key: YamlTree, value: YamlTree, said: Said)
    ensures
        walk_entry(walk, info, name, key, value) matches Ok((after, more)) ==> told(
            holds_apart(walk, name, info, said),
            entry_says(name, key, value, said),
            holds_apart(after, name, more, said),
            tidy_entry(name, key, value, said),
        ),
    decreases value, 0int,
{
    lemma_words();
    if let YamlBody::Mapping(entries) = value.body {
        lemma_hosts_said(walk, name, info, entries, 0, said);
        lemma_children_said(walk, name, info, key, value, entries, 0, said);
    }
    if vars_in(value) is Ok {
        if let Said::GroupVar(_, var) = said {
            lemma_vars_in(value, var);
        }
        if let Said::GroupVarIs(_, var, _) = said {
            lemma_vars_in(value, var);
        }
    }
}

proof fn lemma_words()
    ensures
        "hosts"@ != "children"@,
        "hosts"@ != "vars"@,
        "children"@ != "vars"@,
{
    reveal_strlit("hosts");
    reveal_strlit("children");
    reveal_strlit("vars");
    assert("hosts"@[0] == 'h' && "children"@[0] == 'c' && "vars"@[0] == 'v');
}

proof fn lemma_children_said(
    walk: WalkView,
    name: Text,
    info: InfoView,
    key: YamlTree,
    value: YamlTree,
    entries: Seq<(YamlTree, YamlTree)>,
    i: int,
    said: Said,
)
    requires
        0 <= i <= entries.len(),
        value.body == YamlBody::Mapping(entries),
    ensures
        reads(key, "children"@) ==> (walk_children(walk, info, entries, i) matches Ok((after, more)) ==> told(
            holds_apart(walk, name, info, said),
            exists|l: int|
                i <= l < entries.len() && child_says(name, (#[trigger] entries[l]).0, entries[l].1, said),
            holds_apart(after, name, more, said),
            tidy_entry(name, key, value, said),
        )),
    decreases entries, entries.len() - i,
{
    if i < entries.len() && reads(key, "children"@) {
        if let Ok(child) = key_text(entries[i].0) {
            let node = entries[i].1;
            lemma_group_said(walk, child, node, said);
            if let Ok(after) = walk_group(walk, child, node) {
                let more = InfoView { children: info.children.push(child), ..info };
                lemma_children_said(after, name, more, key, value, entries, i + 1, said);
                if let Said::Child(_, c) = said {
                    lemma_push_contains(info.children, child, c);
                }
                let tidy = tidy_entry(name, key, value, said);
                if subject(said) is Some {
                    let group = subject(said)->0;
                    if group_says(child, node, said) {
                        lemma_said_occurs(child, node, said);
                    }
                    if tidy {
                        assert(!nested(child, node, group)) by {
                            if nested(child, node, group) {
                                assert(nested_entry(key, value, group));
                            }
                        }
                        if name == group {
                            assert(!occurs(child, node, group)) by {
                                if occurs(child, node, group) {
                                    assert(below_entry(key, value, group));
                                }
                            }
                        }
                    }
                }
                assert(told(
                    holds_apart(walk, name, info, said),
                    child_says(name, entries[i].0, entries[i].1, said),
                    holds_apart(after, name, more, said),
                    tidy,
                ));
                if exists|l: int|
                    i <= l < entries.len() && child_says(name, (#[trigger] entries[l]).0, entries[l].1, said) {
                    let l = choose|l: int|
                        i <= l < entries.len() && child_says(name, (#[trigger] entries[l]).0, entries[l].1, said);
                    if l > i {
                        assert(exists|m: int|
                            i + 1 <= m < entries.len() && child_says(
                                name,
                                (#[trigger] entries[m]).0,
                                entries[m].1,
                                said,
                            ));
                    }
                }
            }
        }
    }
}

proof fn lemma_root_said(walk: WalkView, root: Seq<(YamlTree, YamlTree)>, i: int, said: Said)
    requires
        0 <= i <= root.len(),
    ensures
        walk_root(walk, root, i) matches Ok(after) ==> told(
            holds(walk, said),
            exists|l: int|
                i <= l < root.len() && (#[trigger] root[l]).0.body is Str && group_says(
                    root[l].0.body->Str_0,
                    root[l].1,
                    said,
                ),
            holds(after, said),
            !is_value(said) && (subject(said) matches Some(group) ==> !root_nested(root, group)),
        ),
    decreases root.len() - i,
{
    if i < root.len() {
        if let Ok(name) = key_text(root[i].0) {
            lemma_group_said(walk, name, root[i].1, said);
            if let Ok(after) = walk_group(walk, name, root[i].1) {
                lemma_root_said(after, root, i + 1, said);
                if subject(said) is Some && nested(name, root[i].1, subject(said)->0) {
                    assert(root_nested(root, subject(said)->0));
                }
                if exists|l: int|
                    i <= l < root.len() && (#[trigger] root[l]).0.body is Str && group_says(
                        root[l].0.body->Str_0,
                        root[l].1,
                        said,
                    ) {
                    let l = choose|l: int|
                        i <= l < root.len() && (#[trigger] root[l]).0.body is Str && group_says(
                            root[l].0.body->Str_0,
                            root[l].1,
                            said,
                        );
                    if l > i {
                        assert(exists|m: int|
                            i + 1 <= m < root.len() && (#[trigger] root[m]).0.body is Str && group_says(
                                root[m].0.body->Str_0,
                                root[m].1,
                                said,
                            ));
                    }
                }
            }
        }
    }
}

/// A file of variables has a key.
pub open spec fn part_has(part: (Text, Text), key: Text) -> bool {
    yaml_parsed(part.1) matches Ok(tree) && has_key(tree, key)
}

/// A file of variables has a key with a value.
pub open spec fn part_gives(part: (Text, Text), key: Text, value: JsonTree) -> bool {
    yaml_parsed(part.1) matches Ok(tree) && has_value(tree, key, value)
}

/// One of the files of a host or a group has a key.
pub open spec fn files_have(files: Map<Text, Seq<(Text, Text)>>, name: Text, key: Text) -> bool {
    files.contains_key(name) && exists|i: int| 0 <= i < files[name].len() && part_has(#[trigger] files[name][i], key)
}

/// The last of the files of a host or a group that has a key gives it this value.
pub open spec fn files_give(files: Map<Text, Seq<(Text, Text)>>, name: Text, key: Text, value: JsonTree) -> bool {
    files.contains_key(name) && exists|i: int|
        0 <= i < files[name].len() && part_gives(#[trigger] files[name][i], key, value) && forall|j: int|
            i < j < files[name].len() ==> !part_has(#[trigger] files[name][j], key)
}

proof fn lemma_files_vars(vars: VarsView, parts: Seq<(Text, Text)>, kind: Text, i: int, key: Text)
    requires
        0 <= i <= parts.len(),
        files_vars(vars, parts, kind, i) is Ok,
    ensures
        ({
            let found = files_vars(vars, parts, kind, i)->Ok_0;
            let here = exists|l: int| i <= l < parts.len() && part_has(#[trigger] parts[l], key);
            &&& found.contains_key(key) <==> vars.contains_key(key) || here
            &&& !here && vars.contains_key(key) ==> found[key] == vars[key]
            &&& here ==> exists|l: int|
                i <= l < parts.len() && part_gives(#[trigger] parts[l], key, found[key]) && forall|m: int|
                    l < m < parts.len() ==> !part_has(#[trigger] parts[m], key)
        }),
    decreases parts.len() - i,
{
    if i < parts.len() {
        let tree = yaml_parsed(parts[i].1)->Ok_0;
        let more = vars_in(tree)->Ok_0;
        lemma_vars_in(tree, key);
        let next = vars.union_prefer_right(more);
        lemma_files_vars(next, parts, kind, i + 1, key);
        let found = files_vars(vars, parts, kind, i)->Ok_0;
        assert(part_has(parts[i], key) <==> more.contains_key(key));
        let later = exists|l: int| i + 1 <= l < parts.len() && part_has(#[trigger] parts[l], key);
        if exists|l: int| i <= l < parts.len() && part_has(#[trigger] parts[l], key) {
            let l = choose|l: int| i <= l < parts.len() && part_has(#[trigger] parts[l], key);
            if l > i {
                assert(later);
            }
            if !later {
                assert(found[key] == more[key]);
                assert(part_gives(parts[i], key, found[key]));
                assert forall|m: int| i < m < parts.len() implies !part_has(#[trigger] parts[m], key) by {
                    if part_has(parts[m], key) {
                        assert(later);
                    }
                }
            }
        }
    }
}

proof fn lemma_all_files(
    parsed: Map<Text, VarsView>,
    files: Map<Text, Seq<(Text, Text)>>,
    names: Seq<Text>,
    kind: Text,
    i: int,
    name: Text,
)
    requires
        0 <= i <= names.len(),
        names.no_duplicates(),
        all_files_vars(parsed, files, names, kind, i) is Ok,
    ensures
        ({
            let found = all_files_vars(parsed, files, names, kind, i)->Ok_0;
            let here = exists|l: int| i <= l < names.len() && #[trigger] names[l] == name;
            &&& found.contains_key(name) <==> parsed.contains_key(name) || here
            &&& !here && parsed.contains_key(name) ==> found[name] == parsed[name]
            &&& here ==> files_vars(Map::empty(), files[name], kind, 0) == Ok::<VarsView, Text>(found[name])
        }),
    decreases names.len() - i,
{
    if i < names.len() {
        let vars = files_vars(Map::empty(), files[names[i]], kind, 0)->Ok_0;
        lemma_all_files(parsed.insert(names[i], vars), files, names, kind, i + 1, name);
        if exists|l: int| i <= l < names.len() && #[trigger] names[l] == name {
            let l = choose|l: int| i <= l < names.len() && #[trigger] names[l] == name;
            if l > i {
                assert(exists|m: int| i + 1 <= m < names.len() && #[trigger] names[m] == name);
            }
        }
    }
}

/// The variables of the files of a kind are what the files say.
proof fn lemma_files_said(files: Map<Text, Seq<(Text, Text)>>, kind: Text, name: Text, key: Text)
    requires
        files.dom().finite(),
        vars_of_files(files, kind) is Ok,
    ensures
        ({
            let found = vars_of_files(files, kind)->Ok_0;
            &&& found.contains_key(name) <==> files.contains_key(name)
            &&& files.contains_key(name) ==> (found[name].contains_key(key) <==> files_have(files, name, key))
            &&& files_have(files, name, key) ==> files_give(files, name, key, found[name][key])
        }),
{
    let names = sorted(files.dom());
    lemma_sorted(files.dom());
    lemma_all_files(Map::empty(), files, names, kind, 0, name);
    assert(names.to_set().contains(name) <==> names.contains(name));
    if names.contains(name) {
        let l = choose|l: int| 0 <= l < names.len() && names[l] == name;
        assert(0 <= l < names.len() && names[l] == name);
        lemma_files_vars(Map::empty(), files[name], kind, 0, key);
    }
}

/// The groups at the top of an inventory.
pub open spec fn top(text: Text) -> Seq<(YamlTree, YamlTree)> {
    yaml_parsed(text)->Ok_0.body->Mapping_0
}

/// Every host that an inventory mentions is read, and no other. Its variables are those
/// beside any of its mentions, and those of its files: no mention takes away what another
/// gave. A variable that a file has is as the last such file has it; any other is as
/// one of the mentions has it.
pub proof fn law_a_host_has_what_is_said_of_it(
    text: Text,
    group_vars: Map<Text, Seq<(Text, Text)>>,
    host_vars: Map<Text, Seq<(Text, Text)>>,
    host: Text,
    key: Text,
)
    requires
        static_inventory(text, group_vars, host_vars) is Ok,
        host_vars.dom().finite(),
    ensures
        ({
            let hosts = static_inventory(text, group_vars, host_vars)->Ok_0.0.hostvars;
            &&& hosts.contains_key(host) <==> root_says(top(text), Said::Host(host))
            &&& hosts.contains_key(host) ==> (hosts[host].contains_key(key) <==> root_says(
                top(text),
                Said::HostVar(host, key),
            ) || files_have(host_vars, host, key))
            &&& hosts.contains_key(host) && files_have(host_vars, host, key) ==> files_give(
                host_vars,
                host,
                key,
                hosts[host][key],
            )
            &&& hosts.contains_key(host) && hosts[host].contains_key(key) && !files_have(host_vars, host, key)
                ==> root_says(top(text), Said::HostVarIs(host, key, hosts[host][key]))
        }),
{
    let root = top(text);
    let none = WalkView::none();
    lemma_root_said(none, root, 0, Said::Host(host));
    lemma_root_said(none, root, 0, Said::HostVar(host, key));
    lemma_files_said(host_vars, "host_vars"@, host, key);
    let walk = walk_root(none, root, 0)->Ok_0;
    if walk.host_vars.contains_key(host) && walk.host_vars[host].contains_key(key) {
        lemma_root_said(none, root, 0, Said::HostVarIs(host, key, walk.host_vars[host][key]));
    }
}

/// Every group that an inventory has is read, but for `ungrouped`, and no other. It lists
/// only hosts and children that are said to be in it; and all of them, unless a group of
/// this name stands below itself.
pub proof fn law_a_group_has_what_is_said_of_it(
    text: Text,
    group_vars: Map<Text, Seq<(Text, Text)>>,
    host_vars: Map<Text, Seq<(Text, Text)>>,
    group: Text,
    name: Text,
)
    requires
        static_inventory(text, group_vars, host_vars) is Ok,
    ensures
        ({
            let groups = static_inventory(text, group_vars, host_vars)->Ok_0.0.groups;
            let whole = !root_nested(top(text), group);
            &&& groups.contains_key(group) <==> group != "ungrouped"@ && root_says(top(text), Said::Group(group))
            &&& groups.contains_key(group) && groups[group].hosts.contains(name) ==> root_says(
                top(text),
                Said::Member(group, name),
            )
            &&& groups.contains_key(group) && whole && root_says(top(text), Said::Member(group, name))
                ==> groups[group].hosts.contains(name)
            &&& groups.contains_key(group) && groups[group].children.contains(name) ==> root_says(
                top(text),
                Said::Child(group, name),
            )
            &&& groups.contains_key(group) && whole && root_says(top(text), Said::Child(group, name))
                ==> groups[group].children.contains(name)
        }),
{
    let root = top(text);
    let none = WalkView::none();
    lemma_root_said(none, root, 0, Said::Group(group));
    lemma_root_said(none, root, 0, Said::Member(group, name));
    lemma_root_said(none, root, 0, Said::Child(group, name));
    let walk = walk_root(none, root, 0)->Ok_0;
    let info = walk.groups[group];
    info.hosts.lemma_cardinality_of_set();
    info.children.lemma_cardinality_of_set();
    lemma_sorted(info.hosts.to_set());
    lemma_sorted(info.children.to_set());
    let hosts = sorted(info.hosts.to_set());
    let children = sorted(info.children.to_set());
    assert(hosts.to_set().contains(name) <==> hosts.contains(name));
    assert(children.to_set().contains(name) <==> children.contains(name));
    assert(info.hosts.to_set().contains(name) <==> info.hosts.contains(name));
    assert(info.children.to_set().contains(name) <==> info.children.contains(name));
}

/// The variables of a group are those that stand under it, wherever it is declared, and
/// those of its files. A variable that a file has is as the last such file has it; any
/// other is as one of the declarations has it. A group without any has none.
pub proof fn law_a_group_has_the_variables_said_of_it(
    text: Text,
    group_vars: Map<Text, Seq<(Text, Text)>>,
    host_vars: Map<Text, Seq<(Text, Text)>>,
    group: Text,
    key: Text,
)
    requires
        static_inventory(text, group_vars, host_vars) is Ok,
        static_inventory(text, group_vars, host_vars)->Ok_0.0.groups.contains_key(group),
        group_vars.dom().finite(),
    ensures
        ({
            let vars = static_inventory(text, group_vars, host_vars)->Ok_0.0.groups[group].vars;
            &&& vars matches Some(v) ==> v != Map::<Text, JsonTree>::empty()
            &&& vars is Some && vars->0.contains_key(key) ==> root_says(top(text), Said::GroupVar(group, key))
                || files_have(group_vars, group, key)
            &&& files_have(group_vars, group, key) ==> vars is Some && vars->0.contains_key(key) && files_give(
                group_vars,
                group,
                key,
                vars->0[key],
            )
            &&& root_says(top(text), Said::GroupVar(group, key)) && !root_nested(top(text), group) ==> vars is Some
                && vars->0.contains_key(key)
            &&& vars is Some && vars->0.contains_key(key) && !files_have(group_vars, group, key) ==> root_says(
                top(text),
                Said::GroupVarIs(group, key, vars->0[key]),
            )
        }),
{
    let root = top(text);
    let none = WalkView::none();
    lemma_root_said(none, root, 0, Said::GroupVar(group, key));
    lemma_files_said(group_vars, "group_vars"@, group, key);
    let walk = walk_root(none, root, 0)->Ok_0;
    let info = walk.groups[group];
    if info.vars.contains_key(key) {
        lemma_root_said(none, root, 0, Said::GroupVarIs(group, key, info.vars[key]));
    }
    let files = vars_of_files(group_vars, "group_vars"@)->Ok_0;
    let all = if files.contains_key(group) {
        info.vars.union_prefer_right(files[group])
    } else {
        info.vars
    };
    assert(all.contains_key(key) ==> all != Map::<Text, JsonTree>::empty());
}

/// A further mention of a host puts its variables over those that the host has: those that
/// it names take its values, and all others stay. Nothing changes of any other host.
pub proof fn law_a_further_mention_goes_over_the_earlier(walk: WalkView, host: Text, vars: VarsView, other: Text, key: Text)
    ensures
        ({
            let after = walk.with_host(host, vars);
            &&& after.hosts.contains(other) <==> walk.hosts.contains(other) || other == host
            &&& after.groups == walk.groups
            &&& after.host_vars.contains_key(host)
            &&& vars.contains_key(key) ==> after.host_vars[host].contains_key(key) && after.host_vars[host][key]
                == vars[key]
            &&& !vars.contains_key(key) && walk.host_vars.contains_key(host) && walk.host_vars[host].contains_key(key)
                ==> after.host_vars[host].contains_key(key) && after.host_vars[host][key]
                == walk.host_vars[host][key]
            &&& after.host_vars[host].contains_key(key) ==> vars.contains_key(key) || (walk.host_vars.contains_key(host)
                && walk.host_vars[host].contains_key(key))
            &&& other != host ==> after.host_vars.contains_key(other) == walk.host_vars.contains_key(other)
                && after.host_vars[other] == walk.host_vars[other]
        }),
{
}

/// Of the mentions of hosts in a group, the last goes over what was there before it.
pub proof fn law_the_last_mention_decides(
    walk: WalkView,
    info: InfoView,
    entries: Seq<(YamlTree, YamlTree)>,
    host: Text,
    key: Text,
)
    requires
        entries.len() > 0,
        walk_hosts(walk, info, entries, entries.len() - 1) is Ok,
        reads(entries.last().0, host),
    ensures
        ({
            let after = walk_hosts(walk, info, entries, entries.len() - 1)->Ok_0.0;
            let vars = vars_in(entries.last().1)->Ok_0;
            &&& after.host_vars.contains_key(host)
            &&& has_key(entries.last().1, key) ==> after.host_vars[host].contains_key(key)
                && after.host_vars[host][key] == vars[key]
            &&& !has_key(entries.last().1, key) && walk.host_vars.contains_key(host)
                && walk.host_vars[host].contains_key(key) ==> after.host_vars[host].contains_key(key)
                && after.host_vars[host][key] == walk.host_vars[host][key]
        }),
{
    reveal_with_fuel(walk_hosts, 2);
    lemma_vars_in(entries.last().1, key);
}

/// Variables that are declared under a group again go over the earlier ones, key by key.
pub proof fn law_variables_declared_again_go_over_the_earlier(
    walk: WalkView,
    info: InfoView,
    name: Text,
    key: YamlTree,
    value: YamlTree,
    var: Text,
)
    requires
        reads(key, "vars"@),
        walk_entry(walk, info, name, key, value) is Ok,
    ensures
        ({
            let after = walk_entry(walk, info, name, key, value)->Ok_0;
            &&& after.0 == walk
            &&& after.1.hosts == info.hosts && after.1.children == info.children
            &&& has_key(value, var) ==> after.1.vars.contains_key(var) && has_value(value, var, after.1.vars[var])
            &&& !has_key(value, var) ==> after.1.vars.contains_key(var) == info.vars.contains_key(var) && (
            info.vars.contains_key(var) ==> after.1.vars[var] == info.vars[var])
        }),
{
    lemma_words();
    lemma_vars_in(value, var);
}

/// A file of a host or a group that the inventory does not have is told of, and no other:
/// the file of the group of all hosts is never out of place.
pub proof fn law_a_file_that_matches_nothing_is_told_of(
    text: Text,
    group_vars: Map<Text, Seq<(Text, Text)>>,
    host_vars: Map<Text, Seq<(Text, Text)>>,
    name: Text,
)
    requires
        static_inventory(text, group_vars, host_vars) is Ok,
        group_vars.dom().finite(),
        host_vars.dom().finite(),
    ensures
        ({
            let warnings = static_inventory(text, group_vars, host_vars)->Ok_0.1;
            &&& host_vars.contains_key(name) && !root_says(top(text), Said::Host(name)) ==> warnings.contains(
                "host_vars/"@ + name + " has no matching host in the inventory"@,
            )
            &&& group_vars.contains_key(name) && !root_says(top(text), Said::Group(name)) && name != "all"@
                ==> warnings.contains("group_vars/"@ + name + " has no matching group in the inventory"@)
            &&& (forall|h: Text| #[trigger] host_vars.contains_key(h) ==> root_says(top(text), Said::Host(h))) && (
            forall|g: Text| #[trigger]
                group_vars.contains_key(g) ==> g == "all"@ || root_says(top(text), Said::Group(g)))
                ==> warnings.len() == 0
        }),
{
    let root = top(text);
    let none = WalkView::none();
    let walk = walk_root(none, root, 0)->Ok_0;
    let group_files = vars_of_files(group_vars, "group_vars"@)->Ok_0;
    let host_files = vars_of_files(host_vars, "host_vars"@)->Ok_0;
    let first = sorted(group_files.dom()).filter_map(group_file_warning(walk));
    let second = sorted(host_files.dom()).filter_map(host_file_warning(walk));
    let warnings = static_inventory(text, group_vars, host_vars)->Ok_0.1;
    assert(warnings == first + second);
    assert forall|n: Text| group_files.contains_key(n) == group_vars.contains_key(n) by {
        lemma_files_said(group_vars, "group_vars"@, n, n);
    }
    assert forall|n: Text| host_files.contains_key(n) == host_vars.contains_key(n) by {
        lemma_files_said(host_vars, "host_vars"@, n, n);
    }
    assert(group_files.dom() =~= group_vars.dom());
    assert(host_files.dom() =~= host_vars.dom());
    lemma_sorted(group_files.dom());
    lemma_sorted(host_files.dom());
    lemma_root_said(none, root, 0, Said::Host(name));
    lemma_root_said(none, root, 0, Said::Group(name));
    if host_vars.contains_key(name) && !root_says(root, Said::Host(name)) {
        assert(sorted(host_files.dom()).to_set().contains(name));
        lemma_filter_map_holds(sorted(host_files.dom()), host_file_warning(walk), name);
        let w = host_file_warning(walk)(name)->0;
        let k = choose|k: int| 0 <= k < second.len() && second[k] == w;
        assert(warnings[first.len() + k] == w);
    }
    if group_vars.contains_key(name) && !root_says(root, Said::Group(name)) && name != "all"@ {
        assert(sorted(group_files.dom()).to_set().contains(name));
        lemma_filter_map_holds(sorted(group_files.dom()), group_file_warning(walk), name);
        let w = group_file_warning(walk)(name)->0;
        let k = choose|k: int| 0 <= k < first.len() && first[k] == w;
        assert(warnings[k] == w);
    }
    if (forall|h: Text| #[trigger] host_vars.contains_key(h) ==> root_says(root, Said::Host(h))) && (forall|g: Text|
     #[trigger]
        group_vars.contains_key(g) ==> g == "all"@ || root_says(root, Said::Group(g))) {
        if first.len() > 0 {
            assert(first.contains(first[0]));
            let names = sorted(group_files.dom());
            names.lemma_filter_map_contains(group_file_warning(walk), first[0]);
            let k = choose|k: int|
                0 <= k < names.len() && group_file_warning(walk)(#[trigger] names[k]) == Some(first[0]);
            assert(names.to_set().contains(names[k]));
            assert(group_vars.contains_key(names[k]));
            lemma_root_said(none, root, 0, Said::Group(names[k]));
        }
        if second.len() > 0 {
            assert(second.contains(second[0]));
            let names = sorted(host_files.dom());
            names.lemma_filter_map_contains(host_file_warning(walk), second[0]);
            let k = choose|k: int|
                0 <= k < names.len() && host_file_warning(walk)(#[trigger] names[k]) == Some(second[0]);
            assert(names.to_set().contains(names[k]));
            assert(host_vars.contains_key(names[k]));
            lemma_root_said(none, root, 0, Said::Host(names[k]));
        }
    }
}

/// A file that `ansible-vault` encrypted, a text that is no YAML, and an inventory that is
/// no mapping are refused.
pub proof fn law_what_cannot_be_read_is_refused(
    text: Text,
    group_vars: Map<Text, Seq<(Text, Text)>>,
    host_vars: Map<Text, Seq<(Text, Text)>>,
)
    ensures
        vaulted(text) ==> static_inventory(text, group_vars, host_vars) is Err,
        yaml_parsed(text) is Err ==> static_inventory(text, group_vars, host_vars) is Err,
        yaml_parsed(text) matches Ok(tree) && !(tree.body is Mapping) ==> static_inventory(
            text,
            group_vars,
            host_vars,
        ) is Err,
{
}

proof fn lemma_vaulted_file(vars: VarsView, parts: Seq<(Text, Text)>, kind: Text, from: int, i: int)
    requires
        0 <= from <= i < parts.len(),
        vaulted(parts[i].1) || yaml_parsed(parts[i].1) is Err,
    ensures
        files_vars(vars, parts, kind, from) is Err,
    decreases i - from,
{
    if from < i {
        if yaml_parsed(parts[from].1) is Ok && vars_in(yaml_parsed(parts[from].1)->Ok_0) is Ok {
            lemma_vaulted_file(
                vars.union_prefer_right(vars_in(yaml_parsed(parts[from].1)->Ok_0)->Ok_0),
                parts,
                kind,
                from + 1,
                i,
            );
        }
    }
}

proof fn lemma_bad_file(
    parsed: Map<Text, VarsView>,
    files: Map<Text, Seq<(Text, Text)>>,
    names: Seq<Text>,
    kind: Text,
    from: int,
    i: int,
)
    requires
        0 <= from <= i < names.len(),
        files_vars(Map::empty(), files[names[i]], kind, 0) is Err,
    ensures
        all_files_vars(parsed, files, names, kind, from) is Err,
    decreases i - from,
{
    if from < i {
        if let Ok(vars) = files_vars(Map::empty(), files[names[from]], kind, 0) {
            lemma_bad_file(parsed.insert(names[from], vars), files, names, kind, from + 1, i);
        }
    }
}

/// One file of variables that is encrypted or no YAML makes the whole inventory refused,
/// whether or not its group or host is there.
pub proof fn law_a_bad_file_is_refused(
    text: Text,
    group_vars: Map<Text, Seq<(Text, Text)>>,
    host_vars: Map<Text, Seq<(Text, Text)>>,
    of_group: bool,
    name: Text,
    i: int,
)
    requires
        group_vars.dom().finite(),
        host_vars.dom().finite(),
        ({
            let files = if of_group {
                group_vars
            } else {
                host_vars
            };
            files.contains_key(name) && 0 <= i < files[name].len() && (vaulted(files[name][i].1) || yaml_parsed(
                files[name][i].1,
            ) is Err)
        }),
    ensures
        static_inventory(text, group_vars, host_vars) is Err,
{
    let files = if of_group {
        group_vars
    } else {
        host_vars
    };
    let kind = if of_group {
        "group_vars"@
    } else {
        "host_vars"@
    };
    lemma_vaulted_file(Map::empty(), files[name], kind, 0, i);
    let names = sorted(files.dom());
    lemma_sorted(files.dom());
    assert(names.to_set().contains(name));
    let k = choose|k: int| 0 <= k < names.len() && names[k] == name;
    lemma_bad_file(Map::empty(), files, names, kind, 0, k);
}

/// A file is encrypted where it begins with `$ANSIBLE_VAULT`, after space.
pub proof fn law_an_encrypted_file_says_so(space: Text, rest: Text)
    requires
        forall|i: int| 0 <= i < space.len() ==> is_space(#[trigger] space[i]),
    ensures
        vaulted(space + "$ANSIBLE_VAULT"@ + rest),
        vaulted(space + rest) <==> vaulted(rest),
        rest.len() > 0 && !is_space(rest[0]) ==> (vaulted(rest) <==> rest.len() >= "$ANSIBLE_VAULT"@.len() && rest.take(
            "$ANSIBLE_VAULT"@.len() as int,
        ) == "$ANSIBLE_VAULT"@),
        rest.len() == 0 ==> !vaulted(rest),
    decreases space.len(),
{
    let mark = "$ANSIBLE_VAULT"@;
    reveal_strlit("$ANSIBLE_VAULT");
    assert(mark.len() == 14 && mark[0] == '$');
    if space.len() > 0 {
        let fewer = space.drop_first();
        assert forall|i: int| 0 <= i < fewer.len() implies is_space(#[trigger] fewer[i]) by {
            assert(fewer[i] == space[i + 1]);
        }
        law_an_encrypted_file_says_so(fewer, rest);
        assert((space + mark + rest).drop_first() =~= fewer + mark + rest);
        assert((space + rest).drop_first() =~= fewer + rest);
        assert(is_space(space[0]));
    } else {
        let whole = mark + rest;
        assert(space + mark + rest =~= whole);
        assert(space + rest =~= rest);
        assert(!is_space('$'));
        assert(trim_start_text(whole) == whole);
        assert(whole.take(14) =~= mark);
        assert(mark.is_prefix_of(whole));
        if rest.len() > 0 && !is_space(rest[0]) {
            assert(trim_start_text(rest) == rest);
            if rest.len() >= 14 && rest.take(14) == mark {
                assert(mark.is_prefix_of(rest));
            }
            if mark.is_prefix_of(rest) {
                assert(rest.take(14) =~= mark);
            }
        }
    }
}

/// What an inventory as a whole is refused for, in words.
pub proof fn law_a_refused_inventory_is_told_why(
    text: Text,
    group_vars: Map<Text, Seq<(Text, Text)>>,
    host_vars: Map<Text, Seq<(Text, Text)>>,
)
    ensures
        ({
            let read = static_inventory(text, group_vars, host_vars);
            let parsed = yaml_parsed(text);
            &&& vaulted(text) ==> read == Err::<(DatasetView, Seq<Text>), Text>(
                "inventory file"@ + " is ansible-vault encrypted \u{2014} unified-api cannot decrypt it"@,
            )
            &&& !vaulted(text) && parsed is Err ==> read == Err::<(DatasetView, Seq<Text>), Text>(
                "inventory file is not valid YAML: "@ + parsed->Err_0,
            )
            &&& !vaulted(text) && parsed is Ok && !(parsed->Ok_0.body is Mapping) ==> read == Err::<
                (DatasetView, Seq<Text>),
                Text,
            >("inventory file must be a YAML mapping of groups"@)
            &&& !vaulted(text) && parsed is Ok && parsed->Ok_0.body is Mapping ==> (read is Ok <==> vars_of_files(
                group_vars,
                "group_vars"@,
            ) is Ok && vars_of_files(host_vars, "host_vars"@) is Ok && walk_root(
                WalkView::none(),
                parsed->Ok_0.body->Mapping_0,
                0,
            ) is Ok)
        }),
{
}

/// A file of variables is refused where it is encrypted, is no YAML, or is no mapping of
/// texts to what JSON can say; and it is named. Each file goes over those before it.
pub proof fn law_a_refused_file_is_named(vars: VarsView, parts: Seq<(Text, Text)>, kind: Text, i: int, key: Text)
    requires
        0 <= i < parts.len(),
    ensures
        ({
            let read = files_vars(vars, parts, kind, i);
            let name = kind + "/"@ + parts[i].0;
            let parsed = yaml_parsed(parts[i].1);
            &&& vaulted(parts[i].1) ==> read == Err::<VarsView, Text>(
                name + " is ansible-vault encrypted \u{2014} unified-api cannot decrypt it"@,
            )
            &&& !vaulted(parts[i].1) && parsed is Err ==> read == Err::<VarsView, Text>(
                name + " is not valid YAML: "@ + parsed->Err_0,
            )
            &&& !vaulted(parts[i].1) && parsed is Ok && vars_in(parsed->Ok_0) is Err ==> read == Err::<VarsView, Text>(
                name + ": "@ + vars_in(parsed->Ok_0)->Err_0,
            )
            &&& !vaulted(parts[i].1) && parsed is Ok && vars_in(parsed->Ok_0) is Ok && i == parts.len() - 1 ==> read is Ok
                && (read->Ok_0.contains_key(key) <==> vars.contains_key(key) || has_key(parsed->Ok_0, key)) && (has_key(
                parsed->Ok_0,
                key,
            ) ==> has_value(parsed->Ok_0, key, read->Ok_0[key])) && (!has_key(parsed->Ok_0, key) && vars.contains_key(
                key,
            ) ==> read->Ok_0[key] == vars[key])
        }),
{
    let parsed = yaml_parsed(parts[i].1);
    if parsed is Ok && vars_in(parsed->Ok_0) is Ok {
        lemma_vars_in(parsed->Ok_0, key);
        reveal_with_fuel(files_vars, 2);
    }
}

/// Variables are a mapping, or nothing; each key is a text, and each value something that
/// JSON can say.
pub proof fn law_what_variables_may_be(tree: YamlTree)
    ensures
        tree.body is Null ==> vars_in(tree) == Ok::<VarsView, Text>(Map::empty()),
        !(tree.body is Null) && !(tree.body is Mapping) ==> vars_in(tree) == Err::<VarsView, Text>(
            "vars must be a mapping"@,
        ),
        tree.body is Mapping ==> (vars_in(tree) is Ok <==> forall|i: int|
            0 <= i < tree.body->Mapping_0.len() ==> (#[trigger] tree.body->Mapping_0[i]).0.body is Str && yaml_json(
                tree.body->Mapping_0[i].1,
            ) is Ok),
{
    if tree.body is Mapping {
        lemma_variables_read(Map::empty(), tree.body->Mapping_0, 0);
    }
}

proof fn lemma_variables_read(vars: VarsView, entries: Seq<(YamlTree, YamlTree)>, from: int)
    requires
        0 <= from <= entries.len(),
    ensures
        vars_from(vars, entries, from) is Ok <==> forall|i: int|
            from <= i < entries.len() ==> (#[trigger] entries[i]).0.body is Str && yaml_json(entries[i].1) is Ok,
        from < entries.len() && !(entries[from].0.body is Str) ==> vars_from(vars, entries, from) == Err::<
            VarsView,
            Text,
        >("expected a string key, got: "@ + yaml_shown(entries[from].0)),
        from < entries.len() && entries[from].0.body is Str && yaml_json(entries[from].1) is Err ==> vars_from(
            vars,
            entries,
            from,
        ) == Err::<VarsView, Text>(
            "var '"@ + entries[from].0.body->Str_0 + "': "@ + yaml_json(entries[from].1)->Err_0,
        ),
    decreases entries.len() - from,
{
    if from < entries.len() && entries[from].0.body is Str && yaml_json(entries[from].1) is Ok {
        let more = vars.insert(entries[from].0.body->Str_0, yaml_json(entries[from].1)->Ok_0);
        lemma_variables_read(more, entries, from + 1);
        assert(vars_from(vars, entries, from) == vars_from(more, entries, from + 1));
        if vars_from(vars, entries, from) is Ok {
            assert forall|i: int| from <= i < entries.len() implies (#[trigger] entries[i]).0.body is Str && yaml_json(
                entries[i].1,
            ) is Ok by {}
        }
    } else if from < entries.len() {
        assert(!(entries[from].0.body is Str && yaml_json(entries[from].1) is Ok));
    }
}

/// A host is refused where its name is no text or stands for a range, or its variables
/// cannot be read. Any other is put among the hosts of the group, after those before it.
pub proof fn law_what_a_host_may_be(walk: WalkView, info: InfoView, entries: Seq<(YamlTree, YamlTree)>, i: int)
    requires
        0 <= i < entries.len(),
    ensures
        ({
            let read = walk_hosts(walk, info, entries, i);
            let key = entries[i].0;
            let host = key.body->Str_0;
            let vars = vars_in(entries[i].1);
            &&& !(key.body is Str) ==> read == Err::<(WalkView, InfoView), Text>(
                "expected a string key, got: "@ + yaml_shown(key),
            )
            &&& key.body is Str && host.contains('[') ==> read == Err::<(WalkView, InfoView), Text>(
                "host '"@ + host + "' looks like an Ansible range pattern, which is not supported"@,
            )
            &&& key.body is Str && !host.contains('[') && vars is Err ==> read == Err::<(WalkView, InfoView), Text>(
                "host '"@ + host + "': "@ + vars->Err_0,
            )
            &&& key.body is Str && !host.contains('[') && vars is Ok && i == entries.len() - 1 ==> read is Ok
                && read->Ok_0.1.hosts == info.hosts.push(host) && read->Ok_0.1.children == info.children
                && read->Ok_0.1.vars == info.vars && read->Ok_0.0.hosts == walk.hosts.insert(host)
        }),
{
    reveal_with_fuel(walk_hosts, 2);
}

/// A group has hosts, children and variables, and nothing else: hosts and children as
/// mappings. Anything else is refused, and the group is named.
pub proof fn law_what_a_group_may_have(walk: WalkView, info: InfoView, name: Text, key: YamlTree, value: YamlTree)
    ensures
        ({
            let read = walk_entry(walk, info, name, key, value);
            let k = key.body->Str_0;
            &&& !(key.body is Str) ==> read == Err::<(WalkView, InfoView), Text>(
                "expected a string key, got: "@ + yaml_shown(key),
            )
            &&& key.body is Str && k == "hosts"@ && !(value.body is Mapping) ==> read == Err::<
                (WalkView, InfoView),
                Text,
            >("group '"@ + name + "': hosts must be a mapping of hostnames"@)
            &&& key.body is Str && k == "children"@ && !(value.body is Mapping) ==> read == Err::<
                (WalkView, InfoView),
                Text,
            >("group '"@ + name + "': children must be a mapping of groups"@)
            &&& key.body is Str && k == "vars"@ && vars_in(value) is Err ==> read == Err::<(WalkView, InfoView), Text>(
                "group '"@ + name + "': "@ + vars_in(value)->Err_0,
            )
            &&& key.body is Str && k != "hosts"@ && k != "children"@ && k != "vars"@ ==> read == Err::<
                (WalkView, InfoView),
                Text,
            >("group '"@ + name + "': unknown key '"@ + k + "' (expected hosts/children/vars)"@)
            &&& key.body is Str && k == "hosts"@ && value.body is Mapping ==> read == walk_hosts(
                walk,
                info,
                value.body->Mapping_0,
                0,
            )
            &&& key.body is Str && k == "children"@ && value.body is Mapping ==> read == walk_children(
                walk,
                info,
                value.body->Mapping_0,
                0,
            )
        }),
{
    lemma_words();
}

/// A group is a mapping, or nothing. Nothing leaves what is known of it as it is.
pub proof fn law_what_a_group_is(walk: WalkView, name: Text, node: YamlTree)
    ensures
        !(node.body is Null) && !(node.body is Mapping) ==> walk_group(walk, name, node) == Err::<WalkView, Text>(
            "group '"@ + name + "' must be a mapping (hosts/children/vars) or empty"@,
        ),
        node.body is Null ==> walk_group(walk, name, node) is Ok && walk_group(walk, name, node)->Ok_0.hosts
            == walk.hosts && walk_group(walk, name, node)->Ok_0.host_vars == walk.host_vars,
        node.body is Null && walk.groups.contains_key(name) ==> walk_group(walk, name, node)->Ok_0.groups
            == walk.groups,
{
    if node.body is Null && walk.groups.contains_key(name) {
        assert(walk_group(walk, name, node)->Ok_0.groups =~= walk.groups);
    }
}

/// An inventory removes no host.
pub proof fn law_a_static_inventory_removes_nobody(
    text: Text,
    group_vars: Map<Text, Seq<(Text, Text)>>,
    host_vars: Map<Text, Seq<(Text, Text)>>,
)
    requires
        static_inventory(text, group_vars, host_vars) is Ok,
    ensures
        static_inventory(text, group_vars, host_vars)->Ok_0.0.remove_hosts.len() == 0,
{
}

} // verus!
