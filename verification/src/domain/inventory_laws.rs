//! What holds of every inventory that is read.

#[allow(unused_imports)]
use crate::domain::cache_entry::etag_text;
#[allow(unused_imports)]
use crate::domain::dataset::{
    dataset_text, group_text, hosts_of, inventory, inventory_group, inventory_groups, is_meta_group, member_text,
    no_meta_warning, Dataset, DatasetView, Group, GroupView, VarsView,
};
#[allow(unused_imports)]
use crate::domain::static_inventory::{
    key_text, static_inventory, vars_in, walk_children, walk_entries, walk_entry, walk_group, walk_hosts, walk_root,
    with_file, InfoView, WalkView,
};
#[allow(unused_imports)]
use crate::json::{compact_text, object_error, string_items, strings_error, strings_tree, tree_member, JsonTree};
#[allow(unused_imports)]
use crate::strmap::{ascending, lemma_prefix_whole, lemma_sorted, sorted};
#[allow(unused_imports)]
use crate::text::{decimal_text, hex_text, join_text, Text};
#[allow(unused_imports)]
use crate::text_laws::{digits_value, law_a_number_is_written_in_digits, law_a_number_is_written_in_hexadecimal};
#[allow(unused_imports)]
use crate::yaml::{yaml_parsed, YamlBody, YamlTree};
use vstd::prelude::*;

verus! {

proof fn lemma_no_meta_group(obj: VarsView, keys: Seq<Text>)
    ensures
        inventory_groups(obj, keys) is Ok ==> forall|g: Text| #[trigger]
            inventory_groups(obj, keys)->Ok_0.0.contains_key(g) ==> !is_meta_group(g) && g != "_meta"@
                && keys.contains(g),
    decreases keys.len(),
{
    if keys.len() > 0 {
        let rest = keys.drop_last();
        lemma_no_meta_group(obj, rest);
        if inventory_groups(obj, keys) is Ok {
            assert forall|g: Text| #[trigger] inventory_groups(obj, keys)->Ok_0.0.contains_key(g) implies !is_meta_group(
                g,
            ) && g != "_meta"@ && keys.contains(g) by {
                if rest.contains(g) {
                    let i = choose|i: int| 0 <= i < rest.len() && rest[i] == g;
                    assert(keys[i] == g);
                }
                assert(keys[keys.len() - 1] == keys.last());
            }
        }
    }
}

/// The groups that every Ansible inventory has without being told are left out, and so
/// is where the hosts' variables stand; nothing is removed by reading.
pub proof fn law_meta_groups_are_left_out(tree: JsonTree, group: Text)
    requires
        inventory(tree) is Ok,
    ensures
        inventory(tree)->Ok_0.0.groups.contains_key(group) ==> !is_meta_group(group) && group != "_meta"@,
        inventory(tree)->Ok_0.0.remove_hosts.len() == 0,
{
    lemma_no_meta_group(tree->Object_0, sorted(tree->Object_0.dom()));
}

/// Whoever is in a group is a host that was named, and so is whoever has variables.
spec fn consistent(walk: WalkView) -> bool {
    &&& forall|g: Text, h: Text|
        walk.groups.contains_key(g) && #[trigger] walk.groups[g].hosts.contains(h) ==> walk.hosts.contains(h)
    &&& walk.hosts.finite()
    &&& walk.groups.dom().finite()
}

spec fn known(info: InfoView, walk: WalkView) -> bool {
    forall|h: Text| #[trigger] info.hosts.contains(h) ==> walk.hosts.contains(h)
}

spec fn grown(before: WalkView, after: WalkView) -> bool {
    before.hosts.subset_of(after.hosts)
}

proof fn lemma_walk_hosts(walk: WalkView, info: InfoView, entries: Seq<(YamlTree, YamlTree)>, i: int)
    requires
        consistent(walk),
        known(info, walk),
    ensures
        walk_hosts(walk, info, entries, i) matches Ok((after, more)) ==> consistent(after) && known(more, after)
            && grown(walk, after),
    decreases entries.len() - i,
{
    if 0 <= i < entries.len() {
        if let Ok(host) = key_text(entries[i].0) {
            if let Ok(vars) = vars_in(entries[i].1) {
                let next = walk.with_host(host, vars);
                let more = InfoView { hosts: info.hosts.push(host), ..info };
                assert(known(more, next)) by {
                    assert forall|h: Text| #[trigger] more.hosts.contains(h) implies next.hosts.contains(h) by {
                        let j = choose|j: int| 0 <= j < more.hosts.len() && more.hosts[j] == h;
                        if j < info.hosts.len() {
                            assert(info.hosts[j] == h);
                            assert(info.hosts.contains(h));
                        }
                    }
                }
                lemma_walk_hosts(next, more, entries, i + 1);
            }
        }
    }
}

proof fn lemma_walk_group(walk: WalkView, name: Text, node: YamlTree)
    requires
        consistent(walk),
    ensures
        walk_group(walk, name, node) matches Ok(after) ==> consistent(after) && grown(walk, after),
    decreases node, 0int,
{
    let info = if walk.groups.contains_key(name) {
        walk.groups[name]
    } else {
        InfoView { hosts: Seq::empty(), children: Seq::empty(), vars: Map::empty() }
    };
    let apart = WalkView { groups: walk.groups.remove(name), ..walk };
    assert(consistent(apart));
    assert(known(info, apart));
    if let YamlBody::Mapping(entries) = node.body {
        lemma_walk_entries(apart, info, name, entries, 0);
    }
}

proof fn lemma_walk_entries(
    walk: WalkView,
    info: InfoView,
    name: Text,
    entries: Seq<(YamlTree, YamlTree)>,
    i: int,
)
    requires
        consistent(walk),
        known(info, walk),
    ensures
        walk_entries(walk, info, name, entries, i) matches Ok((after, more)) ==> consistent(after) && known(
            more,
            after,
        ) && grown(walk, after),
    decreases entries, entries.len() - i,
{
    if 0 <= i < entries.len() {
        lemma_walk_entry(walk, info, name, entries[i].0, entries[i].1);
        if let Ok((after, more)) = walk_entry(walk, info, name, entries[i].0, entries[i].1) {
            lemma_walk_entries(after, more, name, entries, i + 1);
        }
    }
}

proof fn lemma_walk_entry(walk: WalkView, info: InfoView, name: Text, key: YamlTree, value: YamlTree)
    requires
        consistent(walk),
        known(info, walk),
    ensures
        walk_entry(walk, info, name, key, value) matches Ok((after, more)) ==> consistent(after) && known(more, after)
            && grown(walk, after),
    decreases value, 0int,
{
    if let YamlBody::Mapping(entries) = value.body {
        lemma_walk_hosts(walk, info, entries, 0);
        lemma_walk_children(walk, info, entries, 0);
    }
}

proof fn lemma_walk_children(walk: WalkView, info: InfoView, entries: Seq<(YamlTree, YamlTree)>, i: int)
    requires
        consistent(walk),
        known(info, walk),
    ensures
        walk_children(walk, info, entries, i) matches Ok((after, more)) ==> consistent(after) && known(more, after)
            && grown(walk, after),
    decreases entries, entries.len() - i,
{
    if 0 <= i < entries.len() {
        if let Ok(child) = key_text(entries[i].0) {
            lemma_walk_group(walk, child, entries[i].1);
            if let Ok(after) = walk_group(walk, child, entries[i].1) {
                let more = InfoView { children: info.children.push(child), ..info };
                assert(known(more, after));
                lemma_walk_children(after, more, entries, i + 1);
            }
        }
    }
}

proof fn lemma_walk_root(walk: WalkView, entries: Seq<(YamlTree, YamlTree)>, i: int)
    requires
        consistent(walk),
    ensures
        walk_root(walk, entries, i) matches Ok(after) ==> consistent(after),
    decreases entries.len() - i,
{
    if 0 <= i < entries.len() {
        if let Ok(name) = key_text(entries[i].0) {
            lemma_walk_group(walk, name, entries[i].1);
            if let Ok(after) = walk_group(walk, name, entries[i].1) {
                lemma_walk_root(after, entries, i + 1);
            }
        }
    }
}

/// Whoever is in a group of a static inventory is a host of it. A group lists its hosts
/// and its children in ascending order, each once, and the group of those who are in no
/// group is left out.
pub proof fn law_a_group_lists_hosts_once(
    text: Text,
    group_vars: Map<Text, Seq<(Text, Text)>>,
    host_vars: Map<Text, Seq<(Text, Text)>>,
    group: Text,
    host: Text,
)
    requires
        static_inventory(text, group_vars, host_vars) is Ok,
        static_inventory(text, group_vars, host_vars)->Ok_0.0.groups.contains_key(group),
    ensures
        ({
            let dataset = static_inventory(text, group_vars, host_vars)->Ok_0.0;
            &&& group != "ungrouped"@
            &&& ascending(dataset.groups[group].hosts)
            &&& ascending(dataset.groups[group].children)
            &&& dataset.groups[group].hosts.contains(host) ==> dataset.hostvars.contains_key(host)
        }),
{
    let tree = yaml_parsed(text)->Ok_0;
    let root = tree.body->Mapping_0;
    let none = WalkView::none();
    assert(consistent(none));
    lemma_walk_root(none, root, 0);
    let walk = walk_root(none, root, 0)->Ok_0;
    let info = walk.groups[group];
    vstd::seq_lib::seq_to_set_is_finite(info.hosts);
    vstd::seq_lib::seq_to_set_is_finite(info.children);
    lemma_sorted(info.hosts.to_set());
    lemma_sorted(info.children.to_set());
    lemma_prefix_whole(info.hosts.to_set());
    let dataset = static_inventory(text, group_vars, host_vars)->Ok_0.0;
    if dataset.groups[group].hosts.contains(host) {
        assert(info.hosts.to_set().contains(host));
        assert(info.hosts.contains(host));
    }
}

/// The variables of a group stay on the group: whatever the files of the groups say, the
/// hosts are the same and have the same variables.
pub proof fn law_group_files_do_not_reach_hosts(
    text: Text,
    one: Map<Text, Seq<(Text, Text)>>,
    other: Map<Text, Seq<(Text, Text)>>,
    host_vars: Map<Text, Seq<(Text, Text)>>,
)
    requires
        static_inventory(text, one, host_vars) is Ok,
        static_inventory(text, other, host_vars) is Ok,
    ensures
        static_inventory(text, one, host_vars)->Ok_0.0.hostvars == static_inventory(
            text,
            other,
            host_vars,
        )->Ok_0.0.hostvars,
{
}

/// What a file says of a host or a group goes over what the inventory file says of it.
pub proof fn law_a_file_goes_over_the_inventory(vars: VarsView, files: Map<Text, VarsView>, name: Text, key: Text)
    requires
        files.contains_key(name),
    ensures
        files[name].contains_key(key) ==> with_file(vars, files, name).contains_key(key) && with_file(
            vars,
            files,
            name,
        )[key] == files[name][key],
        !files[name].contains_key(key) && vars.contains_key(key) ==> with_file(vars, files, name).contains_key(key)
            && with_file(vars, files, name)[key] == vars[key],
{
}

/// A list of texts is an array of nothing but texts, and has them in its order.
pub proof fn law_a_list_is_an_array_of_texts(tree: JsonTree, list: Seq<Text>, i: int)
    ensures
        string_items(tree) is Some ==> tree is Array && string_items(tree)->0.len() == tree->Array_0.len(),
        string_items(tree) is Some && 0 <= i < tree->Array_0.len() ==> tree->Array_0[i] == JsonTree::Str(
            string_items(tree)->0[i],
        ),
        tree is Array && 0 <= i < tree->Array_0.len() && !(tree->Array_0[i] is Str) ==> string_items(tree) is None,
        string_items(strings_tree(list)) == Some(list),
{
    let made = strings_tree(list)->Array_0;
    assert forall|k: int| 0 <= k < made.len() implies #[trigger] made[k] is Str by {}
    assert(made.map_values(|item: JsonTree| item->Str_0) =~= list);
}

proof fn lemma_hosts_read(obj: VarsView, names: Seq<Text>, host: Text)
    ensures
        hosts_of(obj, names) is Ok <==> forall|i: int| 0 <= i < names.len() ==> obj[#[trigger] names[i]] is Object,
        hosts_of(obj, names) is Ok ==> {
            let hosts = hosts_of(obj, names)->Ok_0;
            &&& hosts.contains_key(host) <==> names.contains(host)
            &&& hosts.contains_key(host) ==> obj[host] == JsonTree::Object(hosts[host])
        },
    decreases names.len(),
{
    if names.len() > 0 {
        let rest = names.drop_last();
        lemma_hosts_read(obj, rest, host);
        assert forall|i: int| 0 <= i < rest.len() implies #[trigger] names[i] == rest[i] by {}
        assert(names[names.len() - 1] == names.last());
        if hosts_of(obj, rest) is Err {
            let i = choose|i: int| 0 <= i < rest.len() && !(obj[#[trigger] rest[i]] is Object);
            assert(!(obj[names[i]] is Object));
        }
        if forall|i: int| 0 <= i < names.len() ==> obj[#[trigger] names[i]] is Object {
            assert forall|i: int| 0 <= i < rest.len() implies obj[#[trigger] rest[i]] is Object by {
                assert(obj[names[i]] is Object);
            }
            assert(obj[names[names.len() - 1]] is Object);
        }
        if rest.contains(host) {
            let i = choose|i: int| 0 <= i < rest.len() && rest[i] == host;
            assert(names[i] == host);
        }
        if names.contains(host) && host != names.last() {
            let i = choose|i: int| 0 <= i < names.len() && names[i] == host;
            assert(rest[i] == host);
        }
    } else {
        assert(!names.contains(host));
    }
}

/// That there are finitely many hosts below `hostvars`, as there are in every value.
pub open spec fn finite_hosts(meta: JsonTree) -> bool {
    tree_member(meta, "hostvars"@) matches Some(hosts) ==> (hosts is Object ==> hosts->Object_0.dom().finite())
}

/// The hosts of an inventory are those below `_meta.hostvars`, each with the variables it
/// has there. Without `_meta` there are none.
pub proof fn law_hosts_are_read_as_they_are(obj: VarsView, host: Text)
    requires
        inventory(JsonTree::Object(obj)) is Ok,
        obj.contains_key("_meta"@) ==> finite_hosts(obj["_meta"@]),
    ensures
        ({
            let hosts = inventory(JsonTree::Object(obj))->Ok_0.0.hostvars;
            &&& !obj.contains_key("_meta"@) ==> !hosts.contains_key(host)
            &&& obj.contains_key("_meta"@) ==> {
                let all = tree_member(obj["_meta"@], "hostvars"@);
                &&& all is Some
                &&& all->0 is Object
                &&& hosts.contains_key(host) <==> all->0->Object_0.contains_key(host)
                &&& hosts.contains_key(host) ==> all->0->Object_0[host] == JsonTree::Object(hosts[host])
            }
        }),
{
    if obj.contains_key("_meta"@) {
        let all = tree_member(obj["_meta"@], "hostvars"@)->0->Object_0;
        lemma_hosts_read(all, sorted(all.dom()), host);
        lemma_prefix_whole(all.dom());
    }
}

proof fn lemma_groups_read(obj: VarsView, keys: Seq<Text>, group: Text)
    ensures
        inventory_groups(obj, keys) is Ok <==> forall|i: int|
            0 <= i < keys.len() && #[trigger] keys[i] != "_meta"@ && keys[i] != "all"@ && keys[i] != "ungrouped"@
                ==> inventory_group(keys[i], obj[keys[i]]) is Ok,
        inventory_groups(obj, keys) is Ok ==> {
            let groups = inventory_groups(obj, keys)->Ok_0.0;
            &&& groups.contains_key(group) <==> keys.contains(group) && group != "_meta"@ && group != "all"@ && group
                != "ungrouped"@
            &&& groups.contains_key(group) ==> inventory_group(group, obj[group]) == Ok::<GroupView, Text>(
                groups[group],
            )
        },
        inventory_groups(obj, keys) is Err ==> exists|i: int|
            0 <= i < keys.len() && #[trigger] keys[i] != "_meta"@ && keys[i] != "all"@ && keys[i] != "ungrouped"@
                && inventory_group(keys[i], obj[keys[i]]) is Err && inventory_group(keys[i], obj[keys[i]])->Err_0
                == inventory_groups(obj, keys)->Err_0 && inventory_groups(obj, keys.take(i)) is Ok,
    decreases keys.len(),
{
    if keys.len() > 0 {
        let rest = keys.drop_last();
        let n = keys.len() - 1;
        lemma_groups_read(obj, rest, group);
        assert forall|i: int| 0 <= i < rest.len() implies #[trigger] keys[i] == rest[i] by {}
        assert(keys[n] == keys.last());
        if inventory_groups(obj, rest) is Err {
            let i = choose|i: int|
                0 <= i < rest.len() && #[trigger] rest[i] != "_meta"@ && rest[i] != "all"@ && rest[i] != "ungrouped"@
                    && inventory_group(rest[i], obj[rest[i]]) is Err && inventory_group(rest[i], obj[rest[i]])->Err_0
                    == inventory_groups(obj, rest)->Err_0 && inventory_groups(obj, rest.take(i)) is Ok;
            assert(keys[i] == rest[i]);
            assert(keys.take(i) =~= rest.take(i));
        } else {
            assert(keys.take(n) =~= rest);
            assert forall|i: int|
                0 <= i < n && #[trigger] keys[i] != "_meta"@ && keys[i] != "all"@ && keys[i]
                    != "ungrouped"@ implies inventory_group(keys[i], obj[keys[i]]) is Ok by {
                assert(rest[i] == keys[i]);
            }
        }
        if rest.contains(group) {
            let i = choose|i: int| 0 <= i < rest.len() && rest[i] == group;
            assert(keys[i] == group);
        }
        if keys.contains(group) && group != keys.last() {
            let i = choose|i: int| 0 <= i < keys.len() && keys[i] == group;
            assert(rest[i] == group);
        }
    } else {
        assert(!keys.contains(group));
    }
}

/// The groups of an inventory are its keys but for `_meta`, `all` and `ungrouped`. A group
/// that is a list has its hosts in that order; one that is an object has the hosts and
/// children that it lists, and its variables where it has any.
pub proof fn law_groups_are_read_as_they_are(obj: VarsView, group: Text)
    requires
        inventory(JsonTree::Object(obj)) is Ok,
        obj.dom().finite(),
    ensures
        ({
            let groups = inventory(JsonTree::Object(obj))->Ok_0.0.groups;
            let read = groups[group];
            &&& groups.contains_key(group) <==> obj.contains_key(group) && group != "_meta"@ && group != "all"@
                && group != "ungrouped"@
            &&& groups.contains_key(group) ==> obj[group] is Array || obj[group] is Object
            &&& groups.contains_key(group) && obj[group] is Array ==> string_items(obj[group]) == Some(read.hosts)
                && read.children.len() == 0 && read.vars is None
            &&& groups.contains_key(group) && obj[group] is Object ==> {
                let m = obj[group]->Object_0;
                &&& m.contains_key("hosts"@) ==> string_items(m["hosts"@]) == Some(read.hosts)
                &&& !m.contains_key("hosts"@) ==> read.hosts.len() == 0
                &&& m.contains_key("children"@) ==> string_items(m["children"@]) == Some(read.children)
                &&& !m.contains_key("children"@) ==> read.children.len() == 0
                &&& !m.contains_key("vars"@) || m["vars"@] is Null ==> read.vars is None
                &&& m.contains_key("vars"@) && !(m["vars"@] is Null) ==> read.vars is Some && m["vars"@]
                    == JsonTree::Object(read.vars->0)
            }
        }),
{
    lemma_groups_read(obj, sorted(obj.dom()), group);
    lemma_prefix_whole(obj.dom());
}

/// A group can be read where it is a list of texts, or an object whose `hosts` and
/// `children` are such lists and whose `vars` is an object or null, as far as it has them.
/// Any other is refused by its name.
pub proof fn law_what_a_group_may_be(name: Text, tree: JsonTree)
    ensures
        ({
            let read = inventory_group(name, tree);
            &&& tree is Array ==> (read is Ok <==> string_items(tree) is Some)
            &&& tree is Array && string_items(tree) is None ==> read == Err::<GroupView, Text>(
                "group '"@ + name + "' uses the list form but contains a non-string entry"@,
            )
            &&& tree is Object ==> {
                let m = tree->Object_0;
                &&& read is Ok <==> {
                    &&& m.contains_key("hosts"@) ==> string_items(m["hosts"@]) is Some
                    &&& m.contains_key("children"@) ==> string_items(m["children"@]) is Some
                    &&& m.contains_key("vars"@) ==> m["vars"@] is Null || m["vars"@] is Object
                }
                &&& m.contains_key("children"@) && string_items(m["children"@]) is None ==> read == Err::<
                    GroupView,
                    Text,
                >("group '"@ + name + "' is malformed: "@ + strings_error(m["children"@]))
                &&& read is Err && !(m.contains_key("children"@) && string_items(m["children"@]) is None)
                    && m.contains_key("hosts"@) && string_items(m["hosts"@]) is None ==> read == Err::<GroupView, Text>(
                    "group '"@ + name + "' is malformed: "@ + strings_error(m["hosts"@]),
                )
                &&& read is Err && !(m.contains_key("children"@) && string_items(m["children"@]) is None) && !(
                m.contains_key("hosts"@) && string_items(m["hosts"@]) is None) ==> read == Err::<GroupView, Text>(
                    "group '"@ + name + "' is malformed: "@ + object_error(m["vars"@]),
                )
            }
            &&& tree is Null ==> read == Err::<GroupView, Text>(
                "group '"@ + name + "' must be an object or a list of hostnames, got "@ + "null"@,
            )
            &&& tree is Bool ==> read == Err::<GroupView, Text>(
                "group '"@ + name + "' must be an object or a list of hostnames, got "@ + "a boolean"@,
            )
            &&& tree is Number ==> read == Err::<GroupView, Text>(
                "group '"@ + name + "' must be an object or a list of hostnames, got "@ + "a number"@,
            )
            &&& tree is Str ==> read == Err::<GroupView, Text>(
                "group '"@ + name + "' must be an object or a list of hostnames, got "@ + "a string"@,
            )
        }),
{
}

/// An inventory is read where it is an object whose groups can be read and whose `_meta`,
/// if it has one, has an object of objects for `hostvars`.
pub proof fn law_what_an_inventory_may_be(tree: JsonTree)
    requires
        tree is Object ==> tree->Object_0.dom().finite(),
        tree is Object && tree->Object_0.contains_key("_meta"@) ==> finite_hosts(tree->Object_0["_meta"@]),
    ensures
        !(tree is Object) ==> inventory(tree) == Err::<(DatasetView, Seq<Text>), Text>(
            "expected a JSON object at the top level"@,
        ),
        tree is Object ==> {
            let obj = tree->Object_0;
            let hosts = tree_member(obj["_meta"@], "hostvars"@);
            let hosts_fine = obj.contains_key("_meta"@) ==> hosts is Some && hosts->0 is Object && forall|h: Text|
                #[trigger] hosts->0->Object_0.contains_key(h) ==> hosts->0->Object_0[h] is Object;
            let groups_fine = forall|g: Text| #[trigger]
                obj.contains_key(g) && g != "_meta"@ && g != "all"@ && g != "ungrouped"@ ==> inventory_group(
                    g,
                    obj[g],
                ) is Ok;
            &&& inventory(tree) is Ok <==> hosts_fine && groups_fine
            &&& obj.contains_key("_meta"@) && hosts is None ==> inventory(tree) == Err::<
                (DatasetView, Seq<Text>),
                Text,
            >("_meta is present but has no hostvars key"@)
            &&& obj.contains_key("_meta"@) && hosts is Some && !(hosts->0 is Object) ==> inventory(tree) == Err::<
                (DatasetView, Seq<Text>),
                Text,
            >("_meta.hostvars is malformed: "@ + object_error(hosts->0))
            &&& hosts_fine && !groups_fine ==> exists|g: Text| #[trigger]
                obj.contains_key(g) && inventory_group(g, obj[g]) is Err && inventory(tree) == Err::<
                    (DatasetView, Seq<Text>),
                    Text,
                >(inventory_group(g, obj[g])->Err_0)
        },
{
    if tree is Object {
        let obj = tree->Object_0;
        let keys = sorted(obj.dom());
        lemma_groups_read(obj, keys, "all"@);
        lemma_prefix_whole(obj.dom());
        assert forall|g: Text| #[trigger] obj.contains_key(g) <==> keys.contains(g) by {}
        assert forall|i: int| 0 <= i < keys.len() implies obj.contains_key(#[trigger] keys[i]) by {
            assert(keys.contains(keys[i]));
        }
        let hosts = tree_member(obj["_meta"@], "hostvars"@);
        if obj.contains_key("_meta"@) && hosts is Some && hosts->0 is Object {
            let all = hosts->0->Object_0;
            let names = sorted(all.dom());
            lemma_hosts_read(all, names, "all"@);
            lemma_prefix_whole(all.dom());
            assert forall|h: Text| #[trigger] all.contains_key(h) <==> names.contains(h) by {}
            if hosts_of(all, names) is Ok {
                assert forall|h: Text| #[trigger] all.contains_key(h) implies all[h] is Object by {
                    let i = choose|i: int| 0 <= i < names.len() && names[i] == h;
                    assert(all[names[i]] is Object);
                }
            } else {
                let i = choose|i: int| 0 <= i < names.len() && !(all[#[trigger] names[i]] is Object);
                assert(names.contains(names[i]));
                assert(all.contains_key(names[i]));
            }
        }
        if inventory_groups(obj, keys) is Ok {
            assert forall|g: Text| #[trigger] obj.contains_key(g) && g != "_meta"@ && g != "all"@ && g
                != "ungrouped"@ implies inventory_group(g, obj[g]) is Ok by {
                let i = choose|i: int| 0 <= i < keys.len() && keys[i] == g;
                assert(inventory_group(keys[i], obj[keys[i]]) is Ok);
            }
        } else {
            let i = choose|i: int|
                0 <= i < keys.len() && #[trigger] keys[i] != "_meta"@ && keys[i] != "all"@ && keys[i] != "ungrouped"@
                    && inventory_group(keys[i], obj[keys[i]]) is Err && inventory_group(keys[i], obj[keys[i]])->Err_0
                    == inventory_groups(obj, keys)->Err_0 && inventory_groups(obj, keys.take(i)) is Ok;
            assert(obj.contains_key(keys[i]));
        }
    }
}

proof fn lemma_group_warnings(obj: VarsView, keys: Seq<Text>, warning: Text)
    requires
        inventory_groups(obj, keys) is Ok,
    ensures
        inventory_groups(obj, keys)->Ok_0.1.contains(warning) <==> exists|i: int|
            0 <= i < keys.len() && (#[trigger] keys[i] == "all"@ || keys[i] == "ungrouped"@) && keys[i] != "_meta"@
                && ((tree_member(obj[keys[i]], "vars"@) matches Some(JsonTree::Object(vars)) && vars.dom().len() > 0)
                || (tree_member(obj[keys[i]], "children"@) matches Some(JsonTree::Array(items)) && items.len() > 0))
                && warning == "meta-group '"@ + keys[i] + "' carries vars/children that are dropped in the conversion"@,
    decreases keys.len(),
{
    if keys.len() > 0 {
        let rest = keys.drop_last();
        lemma_group_warnings(obj, rest, warning);
        let before = inventory_groups(obj, rest)->Ok_0.1;
        let all = inventory_groups(obj, keys)->Ok_0.1;
        assert(keys[keys.len() - 1] == keys.last());
        assert forall|i: int| 0 <= i < rest.len() implies #[trigger] keys[i] == rest[i] by {}
        assert(all == before || all == before.push(all.last()));
        if before.contains(warning) {
            let i = choose|i: int| 0 <= i < before.len() && before[i] == warning;
            assert(all[i] == warning);
            let k = choose|i: int|
                0 <= i < rest.len() && (#[trigger] rest[i] == "all"@ || rest[i] == "ungrouped"@) && rest[i] != "_meta"@
                    && ((tree_member(obj[rest[i]], "vars"@) matches Some(JsonTree::Object(vars)) && vars.dom().len()
                    > 0) || (tree_member(obj[rest[i]], "children"@) matches Some(JsonTree::Array(items)) && items.len()
                    > 0)) && warning == "meta-group '"@ + rest[i]
                    + "' carries vars/children that are dropped in the conversion"@;
            assert(keys[k] == rest[k]);
        }
        if all.contains(warning) && !before.contains(warning) {
            let i = choose|i: int| 0 <= i < all.len() && all[i] == warning;
            if i < before.len() {
                assert(before[i] == warning);
            }
        }
        if all != before {
            assert(all[all.len() - 1] == all.last());
        }
        assert forall|i: int|
            0 <= i < keys.len() && (#[trigger] keys[i] == "all"@ || keys[i] == "ungrouped"@) && keys[i] != "_meta"@ && ((
            tree_member(obj[keys[i]], "vars"@) matches Some(JsonTree::Object(vars)) && vars.dom().len() > 0) || (
            tree_member(obj[keys[i]], "children"@) matches Some(JsonTree::Array(items)) && items.len() > 0)) && warning
                == "meta-group '"@ + keys[i]
                + "' carries vars/children that are dropped in the conversion"@ implies all.contains(warning) by {
            if i < rest.len() {
                assert(rest[i] == keys[i]);
                assert(before.contains(warning));
            }
        }
    }
}

/// What reading an inventory warns of: first that it has no `_meta`, where it has none; and
/// of `all` and `ungrouped` where they carry variables or children, which are left out.
pub proof fn law_what_is_left_out_is_told(obj: VarsView, warning: Text)
    requires
        inventory(JsonTree::Object(obj)) is Ok,
        obj.dom().finite(),
    ensures
        ({
            let warnings = inventory(JsonTree::Object(obj))->Ok_0.1;
            let bare = "no _meta.hostvars in inventory output \u{2014} hosts will have no variables"@;
            &&& !obj.contains_key("_meta"@) ==> warnings.len() > 0 && warnings[0] == bare
            &&& warnings.contains(warning) <==> (!obj.contains_key("_meta"@) && warning == bare) || exists|g: Text|
                #[trigger] obj.contains_key(g) && (g == "all"@ || g == "ungrouped"@) && ((tree_member(
                    obj[g],
                    "vars"@,
                ) matches Some(JsonTree::Object(vars)) && vars.dom().len() > 0) || (tree_member(
                    obj[g],
                    "children"@,
                ) matches Some(JsonTree::Array(items)) && items.len() > 0)) && warning == "meta-group '"@ + g
                    + "' carries vars/children that are dropped in the conversion"@
        }),
{
    let keys = sorted(obj.dom());
    lemma_prefix_whole(obj.dom());
    lemma_group_warnings(obj, keys, warning);
    let told = inventory_groups(obj, keys)->Ok_0.1;
    let warnings = inventory(JsonTree::Object(obj))->Ok_0.1;
    reveal_strlit("_meta");
    reveal_strlit("all");
    reveal_strlit("ungrouped");
    assert("_meta"@.len() == 5 && "all"@.len() == 3 && "ungrouped"@.len() == 9);
    if !obj.contains_key("_meta"@) {
        assert(warnings[0] == no_meta_warning());
        if told.contains(warning) {
            let i = choose|i: int| 0 <= i < told.len() && told[i] == warning;
            assert(warnings[i + 1] == warning);
        }
        if warnings.contains(warning) && warning != no_meta_warning() {
            let i = choose|i: int| 0 <= i < warnings.len() && warnings[i] == warning;
            assert(told[i - 1] == warning);
        }
    }
    if told.contains(warning) {
        let i = choose|i: int|
            0 <= i < keys.len() && (#[trigger] keys[i] == "all"@ || keys[i] == "ungrouped"@) && keys[i] != "_meta"@
                && ((tree_member(obj[keys[i]], "vars"@) matches Some(JsonTree::Object(vars)) && vars.dom().len() > 0)
                || (tree_member(obj[keys[i]], "children"@) matches Some(JsonTree::Array(items)) && items.len() > 0))
                && warning == "meta-group '"@ + keys[i] + "' carries vars/children that are dropped in the conversion"@;
        assert(keys.contains(keys[i]));
        assert(obj.contains_key(keys[i]));
    }
    assert forall|g: Text| #[trigger] obj.contains_key(g) && (g == "all"@ || g == "ungrouped"@) && ((tree_member(
        obj[g],
        "vars"@,
    ) matches Some(JsonTree::Object(vars)) && vars.dom().len() > 0) || (tree_member(
        obj[g],
        "children"@,
    ) matches Some(JsonTree::Array(items)) && items.len() > 0)) && warning == "meta-group '"@ + g
        + "' carries vars/children that are dropped in the conversion"@ implies told.contains(warning) by {
        assert(keys.contains(g));
        let i = choose|i: int| 0 <= i < keys.len() && keys[i] == g;
        assert(keys[i] == g);
    }
}

/// What an inventory and a group hold is each of their parts.
pub proof fn law_an_inventory_shows_every_part(dataset: Dataset, group: Group)
    ensures
        dataset@.hostvars == dataset.hostvars@,
        dataset@.groups == dataset.groups@,
        dataset@.remove_hosts == dataset.remove_hosts.deep_view(),
        group@.hosts == group.hosts.deep_view(),
        group@.children == group.children.deep_view(),
        group@.vars is Some <==> group.vars is Some,
        group.vars is Some ==> group@.vars->0 == group.vars->0@,
        GroupView::none().hosts.len() == 0 && GroupView::none().children.len() == 0 && GroupView::none().vars is None,
        DatasetView::none().hostvars == Map::<Text, VarsView>::empty(),
        DatasetView::none().groups == Map::<Text, GroupView>::empty(),
        DatasetView::none().remove_hosts.len() == 0,
{
}

proof fn lemma_join_around(parts: Seq<Text>, sep: Text, i: int) -> (around: (Text, Text))
    requires
        0 <= i < parts.len(),
    ensures
        join_text(parts, sep) == around.0 + parts[i] + around.1,
    decreases parts.len(),
{
    let none = Seq::<char>::empty();
    if parts.len() == 1 {
        assert(parts[0] =~= none + parts[0] + none);
        (none, none)
    } else if i == parts.len() - 1 {
        let before = join_text(parts.drop_last(), sep) + sep;
        assert(join_text(parts, sep) =~= before + parts[i] + none);
        (before, none)
    } else {
        let around = lemma_join_around(parts.drop_last(), sep, i);
        assert(parts.drop_last()[i] == parts[i]);
        assert(join_text(parts, sep) =~= around.0 + parts[i] + (around.1 + sep + parts.last()));
        (around.0, around.1 + sep + parts.last())
    }
}

/// The text of an inventory has every host with its variables, every group with its hosts,
/// its children and its variables, and the hosts to remove: each under its name.
pub proof fn law_the_text_of_an_inventory_has_everything(dataset: DatasetView, host: Text, group: Text) -> (around: (
    Text,
    Text,
    Text,
    Text,
))
    requires
        dataset.hostvars.dom().finite(),
        dataset.groups.dom().finite(),
        dataset.hostvars.contains_key(host),
        dataset.groups.contains_key(group),
    ensures
        dataset_text(dataset) == "{\"hostvars\":{"@ + (around.0 + (compact_text(JsonTree::Str(host)) + ":"@
            + compact_text(JsonTree::Object(dataset.hostvars[host]))) + around.1) + "},\"groups\":{"@ + (around.2 + (
        compact_text(JsonTree::Str(group)) + ":"@ + ("{\"hosts\":"@ + compact_text(
            strings_tree(dataset.groups[group].hosts),
        ) + ",\"children\":"@ + compact_text(strings_tree(dataset.groups[group].children)) + ",\"vars\":"@
            + compact_text(
            if dataset.groups[group].vars is Some {
                JsonTree::Object(dataset.groups[group].vars->0)
            } else {
                JsonTree::Null
            },
        ) + "}"@)) + around.3) + "},\"remove_hosts\":"@ + compact_text(strings_tree(dataset.remove_hosts)) + "}"@,
{
    let hosts = sorted(dataset.hostvars.dom());
    let groups = sorted(dataset.groups.dom());
    lemma_prefix_whole(dataset.hostvars.dom());
    lemma_prefix_whole(dataset.groups.dom());
    assert(hosts.contains(host));
    assert(groups.contains(group));
    let i = choose|i: int| 0 <= i < hosts.len() && hosts[i] == host;
    let j = choose|j: int| 0 <= j < groups.len() && groups[j] == group;
    let fh = |h: Text| member_text(h, compact_text(JsonTree::Object(dataset.hostvars[h])));
    let fg = |g: Text| member_text(g, group_text(dataset.groups[g]));
    let a = lemma_join_around(hosts.map_values(fh), ","@, i);
    let b = lemma_join_around(groups.map_values(fg), ","@, j);
    (a.0, a.1, b.0, b.1)
}

/// What comes with a text to tell whether it changed: the hash in sixteen hexadecimal
/// digits, a dash, and the number of bytes, all in quotes.
pub proof fn law_a_tag_says_hash_and_length(hash: u64, len: nat)
    ensures
        ({
            let tag = etag_text(hash, len);
            let cut = tag.len() - 1;
            &&& tag.len() > 19
            &&& tag[0] == '"' && tag[17] == '-' && tag.last() == '"'
            &&& digits_value(tag.subrange(1, 17), 16) == hash
            &&& digits_value(tag.subrange(18, cut), 10) == len
        }),
{
    let tag = etag_text(hash, len);
    reveal_strlit("\"");
    reveal_strlit("-");
    law_a_number_is_written_in_hexadecimal(hash as nat, 16);
    law_a_number_is_written_in_digits(len);
    reveal_with_fuel(vstd::arithmetic::power::pow, 17);
    assert(vstd::arithmetic::power::pow(16, 16) == 0x1_0000_0000_0000_0000);
    assert(tag.subrange(1, 17) =~= hex_text(hash as nat, 16));
    assert(tag.subrange(18, tag.len() - 1) =~= decimal_text(len));
}

} // verus!
