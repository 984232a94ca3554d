//! What an endpoint serves, and what it does not.

#[allow(unused_imports)]
use crate::application::output::{
    ansible_group, ansible_tree, append_new, csv_cell, csv_columns, csv_field_text, csv_line, csv_lines, csv_text,
    filter_of, group_through, host_cells, hosts_tree, inventory_tree, merged_groups, merged_hosts, needs_quotes,
    ordered, quotes_doubled, served_groups, served_hosts, setting_of, survives, var_names,
};
#[allow(unused_imports)]
use crate::domain::cache_laws::lemma_filter_holds;
#[allow(unused_imports)]
use crate::domain::dataset::{
    group_of, hosts_of, inventory, inventory_group, inventory_groups, inventory_hosts, is_meta_group, list_member,
    string_list, DatasetView, GroupView, VarsView,
};
#[allow(unused_imports)]
use crate::domain::source::in_named_group;
#[allow(unused_imports)]
use crate::json::{compact_text, string_items, strings_tree, tree_member, JsonTree};
#[allow(unused_imports)]
use crate::strmap::{ascending, lemma_prefix_whole, lemma_sorted, lemma_sorted_is, sorted, without};
#[allow(unused_imports)]
use crate::text::{csv_names, join_text, Text};
use vstd::prelude::*;

verus! {

/// What the request says comes before what the configuration says.
pub proof fn law_a_request_overrides_the_configuration(params: JsonTree, config: Map<Text, Text>, key: Text)
    ensures
        tree_member(params, key) matches Some(JsonTree::Str(value)) ==> setting_of(params, config, key) == value,
        !(tree_member(params, key) matches Some(JsonTree::Str(_))) && config.contains_key(key) ==> setting_of(
            params,
            config,
            key,
        ) == config[key],
{
}

/// A variable that is left out is nowhere: neither on a host nor on a group.
pub proof fn law_an_excluded_variable_is_nowhere(
    datasets: Map<Text, DatasetView>,
    config: Map<Text, Text>,
    params: JsonTree,
    name: Text,
    host: Text,
    group: Text,
)
    requires
        filter_of(params, config).exclude.contains(name),
    ensures
        served_hosts(datasets, config, params).contains_key(host) ==> !served_hosts(
            datasets,
            config,
            params,
        )[host].contains_key(name),
        served_groups(datasets, config, params).contains_key(group) ==> !(served_groups(
            datasets,
            config,
            params,
        )[group].vars matches Some(vars) && vars.contains_key(name)),
{
    assert(filter_of(params, config).exclude.to_set().contains(name));
}

/// A group lists only hosts that are served, and each that is served and was in it.
pub proof fn law_a_group_lists_only_who_is_served(
    datasets: Map<Text, DatasetView>,
    config: Map<Text, Text>,
    params: JsonTree,
    group: Text,
    host: Text,
)
    requires
        served_groups(datasets, config, params).contains_key(group),
    ensures
        served_groups(datasets, config, params)[group].hosts.contains(host) <==> served_hosts(
            datasets,
            config,
            params,
        ).contains_key(host) && merged_groups(datasets, sorted(datasets.dom()))[group].hosts.contains(host),
{
    let left = served_hosts(datasets, config, params).dom();
    let all = merged_groups(datasets, sorted(datasets.dom()))[group].hosts;
    lemma_filter_holds(all, |h: Text| left.contains(h), host);
}

/// A group that the filter empties goes, unless it has children; one that never named a
/// host stays for its variables.
pub proof fn law_an_emptied_group_goes(
    datasets: Map<Text, DatasetView>,
    config: Map<Text, Text>,
    params: JsonTree,
    group: Text,
)
    requires
        merged_groups(datasets, sorted(datasets.dom())).contains_key(group),
    ensures
        ({
            let whole = merged_groups(datasets, sorted(datasets.dom()))[group];
            let left = served_hosts(datasets, config, params).dom();
            let through = group_through(filter_of(params, config), whole, left);
            &&& whole.hosts.len() > 0 && through.hosts.len() == 0 && whole.children.len() == 0 ==> !served_groups(
                datasets,
                config,
                params,
            ).contains_key(group)
            &&& whole.hosts.len() == 0 && through.vars is Some && through.vars->0 != Map::<Text, JsonTree>::empty()
                ==> served_groups(datasets, config, params).contains_key(group)
            &&& through.hosts.len() > 0 ==> served_groups(datasets, config, params).contains_key(group)
        }),
{
    let whole = merged_groups(datasets, sorted(datasets.dom()))[group];
    let left = served_hosts(datasets, config, params).dom();
    if whole.hosts.len() == 0 {
        let through = group_through(filter_of(params, config), whole, left);
        let wanted = |h: Text| left.contains(h);
        assert(through.hosts.len() == 0) by {
            if through.hosts.len() > 0 {
                lemma_filter_holds(whole.hosts, wanted, through.hosts[0]);
                assert(through.hosts.contains(through.hosts[0]));
            }
        }
    }
}

/// A host is served where it passes the filter, and only there. Every variable that is
/// not left out is as the merged inventories have it.
pub proof fn law_a_host_is_served_where_it_passes(
    datasets: Map<Text, DatasetView>,
    config: Map<Text, Text>,
    params: JsonTree,
    host: Text,
    key: Text,
)
    ensures
        ({
            let ids = sorted(datasets.dom());
            let hosts = merged_hosts(datasets, ids);
            let filter = filter_of(params, config);
            &&& served_hosts(datasets, config, params).contains_key(host) <==> hosts.contains_key(host) && survives(
                filter,
                merged_groups(datasets, ids),
                host,
                hosts[host],
            )
            &&& served_hosts(datasets, config, params).contains_key(host) && !filter.exclude.contains(key) ==> {
                &&& served_hosts(datasets, config, params)[host].contains_key(key) == hosts[host].contains_key(key)
                &&& hosts[host].contains_key(key) ==> served_hosts(datasets, config, params)[host][key]
                    == hosts[host][key]
            }
        }),
{
    assert(filter_of(params, config).exclude.to_set().contains(key) ==> filter_of(params, config).exclude.contains(
        key,
    ));
}

/// Of several inventories that have the same variable of a host, the last one decides.
pub proof fn law_the_later_inventory_wins(datasets: Map<Text, DatasetView>, ids: Seq<Text>, host: Text, key: Text)
    requires
        ids.len() > 0,
        datasets[ids.last()].hostvars.contains_key(host),
        datasets[ids.last()].hostvars[host].contains_key(key),
    ensures
        merged_hosts(datasets, ids).contains_key(host),
        merged_hosts(datasets, ids)[host].contains_key(key),
        merged_hosts(datasets, ids)[host][key] == datasets[ids.last()].hostvars[host][key],
{
}

/// No inventory loses a host by being merged.
pub proof fn law_merging_loses_no_host(datasets: Map<Text, DatasetView>, ids: Seq<Text>, i: int, host: Text)
    requires
        0 <= i < ids.len(),
        datasets[ids[i]].hostvars.contains_key(host),
    ensures
        merged_hosts(datasets, ids).contains_key(host),
    decreases ids.len(),
{
    if i < ids.len() - 1 {
        assert(ids.drop_last()[i] == ids[i]);
        law_merging_loses_no_host(datasets, ids.drop_last(), i, host);
    }
}

/// A list of strings is read back from its JSON as it was written.
proof fn lemma_strings_read_back(list: Seq<Text>)
    ensures
        string_items(strings_tree(list)) == Some(list),
        string_list(strings_tree(list)) == Ok::<Seq<Text>, Text>(list),
{
    let items = strings_tree(list)->Array_0;
    assert(items.len() == list.len());
    assert forall|i: int| 0 <= i < items.len() implies #[trigger] items[i] is Str by {
        assert(items[i] == JsonTree::Str(list[i]));
    }
    assert(items.map_values(|item: JsonTree| item->Str_0) =~= list);
}

/// A group as it is read back from what was rendered of it.
pub open spec fn read_back(group: GroupView) -> GroupView {
    GroupView {
        hosts: ordered(group.hosts),
        children: ordered(group.children),
        vars: match group.vars {
            Some(vars) => if vars == Map::<Text, JsonTree>::empty() {
                None
            } else {
                Some(vars)
            },
            None => None,
        },
    }
}

proof fn lemma_keys_differ()
    ensures
        "hosts"@ != "children"@,
        "hosts"@ != "vars"@,
        "children"@ != "vars"@,
        !is_meta_group("_meta"@),
{
    reveal_strlit("hosts");
    reveal_strlit("children");
    reveal_strlit("vars");
    reveal_strlit("_meta");
    reveal_strlit("all");
    reveal_strlit("ungrouped");
    assert("hosts"@[0] == 'h' && "children"@[0] == 'c' && "vars"@[0] == 'v');
    assert("_meta"@[0] == '_' && "all"@[0] == 'a' && "ungrouped"@[0] == 'u');
}

proof fn lemma_ordered_none()
    ensures
        ordered(Seq::<Text>::empty()) == Seq::<Text>::empty(),
{
    let none = Seq::<Text>::empty();
    assert(ascending(none));
    lemma_sorted_is(none);
}

proof fn lemma_group_reads_back(name: Text, group: GroupView)
    ensures
        inventory_group(name, ansible_group(group)) == Ok::<GroupView, Text>(read_back(group)),
{
    lemma_keys_differ();
    lemma_ordered_none();
    lemma_strings_read_back(ordered(group.hosts));
    lemma_strings_read_back(ordered(group.children));
    let m = ansible_group(group)->Object_0;
    if group.hosts.len() == 0 {
        assert(group.hosts =~= Seq::empty());
    }
    if group.children.len() == 0 {
        assert(group.children =~= Seq::empty());
    }
    assert(list_member(m, "children"@) == Ok::<Seq<Text>, Text>(ordered(group.children)));
    assert(list_member(m, "hosts"@) == Ok::<Seq<Text>, Text>(ordered(group.hosts)));
    assert(group_of(m) == Ok::<GroupView, Text>(read_back(group)));
}

proof fn lemma_groups_read_back(obj: VarsView, groups: Map<Text, GroupView>, keys: Seq<Text>)
    requires
        forall|i: int|
            0 <= i < keys.len() ==> groups.contains_key(#[trigger] keys[i]) && obj[keys[i]] == ansible_group(
                groups[keys[i]],
            ) || keys[i] == "_meta"@,
    ensures
        inventory_groups(obj, keys) is Ok,
        forall|g: Text| #[trigger]
            inventory_groups(obj, keys)->Ok_0.0.contains_key(g) <==> keys.contains(g) && g != "_meta"@
                && !is_meta_group(g),
        forall|g: Text| #[trigger]
            inventory_groups(obj, keys)->Ok_0.0.contains_key(g) ==> inventory_groups(obj, keys)->Ok_0.0[g]
                == read_back(groups[g]),
    decreases keys.len(),
{
    if keys.len() > 0 {
        let n = keys.len() - 1;
        let key = keys.last();
        let rest = keys.drop_last();
        assert forall|i: int| 0 <= i < rest.len() implies groups.contains_key(#[trigger] rest[i]) && obj[rest[i]]
            == ansible_group(groups[rest[i]]) || rest[i] == "_meta"@ by {
            assert(rest[i] == keys[i]);
        }
        lemma_groups_read_back(obj, groups, rest);
        assert(keys[n] == key);
        if key != "_meta"@ {
            lemma_group_reads_back(key, groups[key]);
        }
        assert forall|g: Text| keys.contains(g) <==> rest.contains(g) || g == key by {
            if rest.contains(g) {
                let i = choose|i: int| 0 <= i < rest.len() && rest[i] == g;
                assert(keys[i] == g);
            }
            if keys.contains(g) && g != key {
                let i = choose|i: int| 0 <= i < keys.len() && keys[i] == g;
                assert(rest[i] == g);
            }
        }
    }
}

proof fn lemma_hosts_read_back(obj: VarsView, hosts: Map<Text, VarsView>, names: Seq<Text>)
    requires
        forall|i: int| 0 <= i < names.len() ==> obj[#[trigger] names[i]] == JsonTree::Object(hosts[names[i]]),
    ensures
        hosts_of(obj, names) is Ok,
        forall|h: Text| #[trigger] hosts_of(obj, names)->Ok_0.contains_key(h) <==> names.contains(h),
        forall|h: Text| #[trigger]
            hosts_of(obj, names)->Ok_0.contains_key(h) ==> hosts_of(obj, names)->Ok_0[h] == hosts[h],
    decreases names.len(),
{
    if names.len() > 0 {
        let n = names.len() - 1;
        let rest = names.drop_last();
        assert forall|i: int| 0 <= i < rest.len() implies obj[#[trigger] rest[i]] == JsonTree::Object(
            hosts[rest[i]],
        ) by {
            assert(rest[i] == names[i]);
        }
        lemma_hosts_read_back(obj, hosts, rest);
        assert(names[n] == names.last());
        assert forall|h: Text| names.contains(h) <==> rest.contains(h) || h == names.last() by {
            if rest.contains(h) {
                let i = choose|i: int| 0 <= i < rest.len() && rest[i] == h;
                assert(names[i] == h);
            }
            if names.contains(h) && h != names.last() {
                let i = choose|i: int| 0 <= i < names.len() && names[i] == h;
                assert(rest[i] == h);
            }
        }
    }
}

/// What is rendered as Ansible's dynamic inventory can be read back: every host has its
/// variables, and every group its hosts, children and variables, but for the groups
/// that Ansible has without being told. No group may be called `_meta`, where the
/// hosts' variables stand.
pub proof fn law_a_rendered_inventory_reads_back(hosts: Map<Text, VarsView>, groups: Map<Text, GroupView>)
    requires
        hosts.dom().finite(),
        groups.dom().finite(),
        !groups.contains_key("_meta"@),
    ensures
        inventory(ansible_tree(hosts, groups)) is Ok,
        ({
            let read = inventory(ansible_tree(hosts, groups))->Ok_0.0;
            &&& read.hostvars == hosts
            &&& read.groups == Map::new(
                |g: Text| groups.contains_key(g) && !is_meta_group(g),
                |g: Text| read_back(groups[g]),
            )
            &&& read.remove_hosts.len() == 0
        }),
{
    lemma_keys_differ();
    let obj = ansible_tree(hosts, groups)->Object_0;
    assert(obj.dom() =~= groups.dom().insert("_meta"@));
    let keys = sorted(obj.dom());
    lemma_prefix_whole(obj.dom());
    assert forall|i: int| 0 <= i < keys.len() implies groups.contains_key(#[trigger] keys[i]) && obj[keys[i]]
        == ansible_group(groups[keys[i]]) || keys[i] == "_meta"@ by {
        assert(keys.contains(keys[i]));
    }
    lemma_groups_read_back(obj, groups, keys);
    let inner = hosts_tree(hosts)->Object_0;
    assert(inner.dom() =~= hosts.dom());
    let names = sorted(inner.dom());
    lemma_prefix_whole(inner.dom());
    assert forall|i: int| 0 <= i < names.len() implies inner[#[trigger] names[i]] == JsonTree::Object(
        hosts[names[i]],
    ) by {
        assert(names.contains(names[i]));
    }
    lemma_hosts_read_back(inner, hosts, names);
    assert(tree_member(obj["_meta"@], "hostvars"@) == Some(hosts_tree(hosts)));
    assert(inventory_hosts(obj) is Ok);
    let read = inventory(ansible_tree(hosts, groups))->Ok_0.0;
    assert(read.hostvars =~= hosts);
    assert(read.groups =~= Map::new(
        |g: Text| groups.contains_key(g) && !is_meta_group(g),
        |g: Text| read_back(groups[g]),
    ));
}

/// A setting that neither the request nor the configuration gives as a text is empty.
pub proof fn law_a_setting_that_is_not_given_is_empty(params: JsonTree, config: Map<Text, Text>, key: Text)
    requires
        !(tree_member(params, key) matches Some(JsonTree::Str(_))),
        !config.contains_key(key),
    ensures
        setting_of(params, config, key).len() == 0,
{
}

/// What an inventory says of a variable of a host.
pub open spec fn host_gives(datasets: Map<Text, DatasetView>, id: Text, host: Text, key: Text) -> bool {
    datasets[id].hostvars.contains_key(host) && datasets[id].hostvars[host].contains_key(key)
}

/// What an inventory says of a variable of a group.
pub open spec fn group_gives(datasets: Map<Text, DatasetView>, id: Text, group: Text, key: Text) -> bool {
    datasets[id].groups.contains_key(group) && datasets[id].groups[group].vars is Some
        && datasets[id].groups[group].vars->0.contains_key(key)
}

/// No inventory loses a variable of a host by being merged: a host has each that any of
/// the inventories has, with the value of the last of them that has it, and no other.
pub proof fn law_merging_loses_no_host_variable(
    datasets: Map<Text, DatasetView>,
    ids: Seq<Text>,
    host: Text,
    key: Text,
)
    ensures
        ({
            let hosts = merged_hosts(datasets, ids);
            &&& hosts.contains_key(host) <==> exists|i: int|
                0 <= i < ids.len() && datasets[#[trigger] ids[i]].hostvars.contains_key(host)
            &&& hosts.contains_key(host) ==> (hosts[host].contains_key(key) <==> exists|i: int|
                0 <= i < ids.len() && host_gives(datasets, #[trigger] ids[i], host, key))
            &&& hosts.contains_key(host) && hosts[host].contains_key(key) ==> exists|i: int|
                0 <= i < ids.len() && host_gives(datasets, #[trigger] ids[i], host, key) && hosts[host][key]
                    == datasets[ids[i]].hostvars[host][key] && forall|j: int|
                    i < j < ids.len() ==> !host_gives(datasets, #[trigger] ids[j], host, key)
        }),
    decreases ids.len(),
{
    if ids.len() > 0 {
        let n = ids.len() - 1;
        let rest = ids.drop_last();
        law_merging_loses_no_host_variable(datasets, rest, host, key);
        let before = merged_hosts(datasets, rest);
        let hosts = merged_hosts(datasets, ids);
        assert(ids[n] == ids.last());
        assert forall|i: int| 0 <= i < n implies #[trigger] ids[i] == rest[i] by {}
        if before.contains_key(host) {
            let i = choose|i: int|
                0 <= i < rest.len() && datasets[#[trigger] rest[i]].hostvars.contains_key(host);
            assert(datasets[ids[i]].hostvars.contains_key(host));
        }
        if hosts.contains_key(host) && hosts[host].contains_key(key) {
            if host_gives(datasets, ids[n], host, key) {
                assert(hosts[host][key] == datasets[ids[n]].hostvars[host][key]);
            } else {
                assert(before.contains_key(host) && before[host].contains_key(key));
                let i = choose|i: int|
                    0 <= i < rest.len() && host_gives(datasets, #[trigger] rest[i], host, key) && before[host][key]
                        == datasets[rest[i]].hostvars[host][key] && forall|j: int|
                        i < j < rest.len() ==> !host_gives(datasets, #[trigger] rest[j], host, key);
                assert(host_gives(datasets, ids[i], host, key));
                assert forall|j: int| i < j < ids.len() implies !host_gives(
                    datasets,
                    #[trigger] ids[j],
                    host,
                    key,
                ) by {
                    if j < n {
                        assert(!host_gives(datasets, rest[j], host, key));
                    }
                }
            }
        }
        if exists|i: int| 0 <= i < ids.len() && host_gives(datasets, #[trigger] ids[i], host, key) {
            let i = choose|i: int| 0 <= i < ids.len() && host_gives(datasets, #[trigger] ids[i], host, key);
            if i < n {
                assert(host_gives(datasets, rest[i], host, key));
                assert(datasets[rest[i]].hostvars.contains_key(host));
            }
        }
        if exists|i: int| 0 <= i < ids.len() && datasets[#[trigger] ids[i]].hostvars.contains_key(host) {
            let i = choose|i: int|
                0 <= i < ids.len() && datasets[#[trigger] ids[i]].hostvars.contains_key(host);
            if i < n {
                assert(datasets[rest[i]].hostvars.contains_key(host));
            }
        }
    }
}

/// No inventory loses a variable of a group by being merged: a group has each that any of
/// the inventories has, with the value of the last of them that has it, and no other.
pub proof fn law_merging_loses_no_group_variable(
    datasets: Map<Text, DatasetView>,
    ids: Seq<Text>,
    group: Text,
    key: Text,
)
    ensures
        ({
            let groups = merged_groups(datasets, ids);
            let has = groups.contains_key(group) && groups[group].vars is Some && groups[group].vars->0.contains_key(
                key,
            );
            &&& groups.contains_key(group) <==> exists|i: int|
                0 <= i < ids.len() && datasets[#[trigger] ids[i]].groups.contains_key(group)
            &&& has <==> exists|i: int| 0 <= i < ids.len() && group_gives(datasets, #[trigger] ids[i], group, key)
            &&& has ==> exists|i: int|
                0 <= i < ids.len() && group_gives(datasets, #[trigger] ids[i], group, key)
                    && groups[group].vars->0[key] == datasets[ids[i]].groups[group].vars->0[key] && forall|j: int|
                    i < j < ids.len() ==> !group_gives(datasets, #[trigger] ids[j], group, key)
        }),
    decreases ids.len(),
{
    if ids.len() > 0 {
        let n = ids.len() - 1;
        let rest = ids.drop_last();
        law_merging_loses_no_group_variable(datasets, rest, group, key);
        let before = merged_groups(datasets, rest);
        let groups = merged_groups(datasets, ids);
        assert(ids[n] == ids.last());
        assert forall|i: int| 0 <= i < n implies #[trigger] ids[i] == rest[i] by {}
        let had = before.contains_key(group) && before[group].vars is Some && before[group].vars->0.contains_key(key);
        let has = groups.contains_key(group) && groups[group].vars is Some && groups[group].vars->0.contains_key(key);
        if before.contains_key(group) {
            let i = choose|i: int|
                0 <= i < rest.len() && datasets[#[trigger] rest[i]].groups.contains_key(group);
            assert(datasets[ids[i]].groups.contains_key(group));
        }
        if exists|i: int| 0 <= i < ids.len() && datasets[#[trigger] ids[i]].groups.contains_key(group) {
            let i = choose|i: int| 0 <= i < ids.len() && datasets[#[trigger] ids[i]].groups.contains_key(group);
            if i < n {
                assert(datasets[rest[i]].groups.contains_key(group));
            }
        }
        assert(has <==> had || group_gives(datasets, ids[n], group, key));
        if exists|i: int| 0 <= i < ids.len() && group_gives(datasets, #[trigger] ids[i], group, key) {
            let i = choose|i: int| 0 <= i < ids.len() && group_gives(datasets, #[trigger] ids[i], group, key);
            if i < n {
                assert(group_gives(datasets, rest[i], group, key));
            }
        }
        if has {
            if group_gives(datasets, ids[n], group, key) {
                assert(groups[group].vars->0[key] == datasets[ids[n]].groups[group].vars->0[key]);
            } else {
                assert(groups[group].vars->0[key] == before[group].vars->0[key]);
                let i = choose|i: int|
                    0 <= i < rest.len() && group_gives(datasets, #[trigger] rest[i], group, key)
                        && before[group].vars->0[key] == datasets[rest[i]].groups[group].vars->0[key] && forall|j: int|
                        i < j < rest.len() ==> !group_gives(datasets, #[trigger] rest[j], group, key);
                assert(group_gives(datasets, ids[i], group, key));
                assert forall|j: int| i < j < ids.len() implies !group_gives(
                    datasets,
                    #[trigger] ids[j],
                    group,
                    key,
                ) by {
                    if j < n {
                        assert(!group_gives(datasets, rest[j], group, key));
                    }
                }
            }
        }
    }
}

proof fn lemma_append_new(list: Seq<Text>, items: Seq<Text>, name: Text)
    ensures
        append_new(list, items).contains(name) <==> list.contains(name) || items.contains(name),
        list.no_duplicates() ==> append_new(list, items).no_duplicates(),
        list.is_prefix_of(append_new(list, items)),
    decreases items.len(),
{
    if items.len() > 0 {
        let n = items.len() - 1;
        let rest = items.drop_last();
        lemma_append_new(list, rest, name);
        let before = append_new(list, rest);
        let all = append_new(list, items);
        assert(items[n] == items.last());
        if rest.contains(name) {
            let i = choose|i: int| 0 <= i < rest.len() && rest[i] == name;
            assert(items[i] == name);
        }
        if items.contains(name) && name != items.last() {
            let i = choose|i: int| 0 <= i < items.len() && items[i] == name;
            assert(rest[i] == name);
        }
        if !before.contains(items.last()) {
            assert(all[before.len() as int] == items.last());
            if before.contains(name) {
                let i = choose|i: int| 0 <= i < before.len() && before[i] == name;
                assert(all[i] == name);
            }
            if all.contains(name) && name != items.last() {
                let i = choose|i: int| 0 <= i < all.len() && all[i] == name;
                assert(before[i] == name);
            }
        }
    } else {
        assert(!items.contains(name));
    }
}

/// A merged group lists a host where any of the inventories lists it there, and a child
/// where any has it: each once.
pub proof fn law_a_merged_group_lists_whom_any_lists(
    datasets: Map<Text, DatasetView>,
    ids: Seq<Text>,
    group: Text,
    name: Text,
)
    ensures
        ({
            let groups = merged_groups(datasets, ids);
            &&& groups.contains_key(group) ==> groups[group].hosts.no_duplicates()
                && groups[group].children.no_duplicates()
            &&& groups.contains_key(group) ==> (groups[group].hosts.contains(name) <==> exists|i: int|
                0 <= i < ids.len() && datasets[#[trigger] ids[i]].groups.contains_key(group)
                    && datasets[ids[i]].groups[group].hosts.contains(name))
            &&& groups.contains_key(group) ==> (groups[group].children.contains(name) <==> exists|i: int|
                0 <= i < ids.len() && datasets[#[trigger] ids[i]].groups.contains_key(group)
                    && datasets[ids[i]].groups[group].children.contains(name))
        }),
    decreases ids.len(),
{
    if ids.len() > 0 {
        let n = ids.len() - 1;
        let rest = ids.drop_last();
        law_a_merged_group_lists_whom_any_lists(datasets, rest, group, name);
        law_merging_loses_no_group_variable(datasets, rest, group, name);
        let before = merged_groups(datasets, rest);
        let groups = merged_groups(datasets, ids);
        assert(ids[n] == ids.last());
        assert forall|i: int| 0 <= i < n implies #[trigger] ids[i] == rest[i] by {}
        let own = if before.contains_key(group) {
            before[group]
        } else {
            GroupView::none()
        };
        if datasets[ids[n]].groups.contains_key(group) {
            lemma_append_new(own.hosts, datasets[ids[n]].groups[group].hosts, name);
            lemma_append_new(own.children, datasets[ids[n]].groups[group].children, name);
        }
        if before.contains_key(group) && before[group].hosts.contains(name) {
            let i = choose|i: int|
                0 <= i < rest.len() && datasets[#[trigger] rest[i]].groups.contains_key(group)
                    && datasets[rest[i]].groups[group].hosts.contains(name);
            assert(datasets[ids[i]].groups[group].hosts.contains(name));
        }
        if before.contains_key(group) && before[group].children.contains(name) {
            let i = choose|i: int|
                0 <= i < rest.len() && datasets[#[trigger] rest[i]].groups.contains_key(group)
                    && datasets[rest[i]].groups[group].children.contains(name);
            assert(datasets[ids[i]].groups[group].children.contains(name));
        }
        if exists|i: int|
            0 <= i < ids.len() && datasets[#[trigger] ids[i]].groups.contains_key(group)
                && datasets[ids[i]].groups[group].hosts.contains(name) {
            let i = choose|i: int|
                0 <= i < ids.len() && datasets[#[trigger] ids[i]].groups.contains_key(group)
                    && datasets[ids[i]].groups[group].hosts.contains(name);
            if i < n {
                assert(datasets[rest[i]].groups.contains_key(group));
            }
        }
        if exists|i: int|
            0 <= i < ids.len() && datasets[#[trigger] ids[i]].groups.contains_key(group)
                && datasets[ids[i]].groups[group].children.contains(name) {
            let i = choose|i: int|
                0 <= i < ids.len() && datasets[#[trigger] ids[i]].groups.contains_key(group)
                    && datasets[ids[i]].groups[group].children.contains(name);
            if i < n {
                assert(datasets[rest[i]].groups.contains_key(group));
            }
        }
    }
}

/// A host passes where its data centre and its operating system are the wanted ones, and
/// where it is in one of the wanted groups: each only where something is wanted.
pub proof fn law_a_filter_asks_for_what_is_set(
    params: JsonTree,
    config: Map<Text, Text>,
    groups: Map<Text, GroupView>,
    host: Text,
    vars: VarsView,
)
    ensures
        ({
            let datacenter = setting_of(params, config, "filter_datacenter"@);
            let os = setting_of(params, config, "filter_os"@);
            let group = setting_of(params, config, "filter_group"@);
            survives(filter_of(params, config), groups, host, vars) <==> {
                &&& datacenter.len() > 0 ==> vars.contains_key("datacenter"@) && vars["datacenter"@] == JsonTree::Str(
                    datacenter,
                )
                &&& os.len() > 0 ==> vars.contains_key("os"@) && vars["os"@] == JsonTree::Str(os)
                &&& group.len() > 0 ==> exists|g: Text|
                    csv_names(group).contains(g) && #[trigger] groups.contains_key(g) && groups[g].hosts.contains(host)
            }
        }),
{
    let names = csv_names(setting_of(params, config, "filter_group"@));
    if in_named_group(groups, names, host) {
        let i = choose|i: int|
            0 <= i < names.len() && groups.contains_key(#[trigger] names[i]) && groups[names[i]].hosts.contains(host);
        assert(names.contains(names[i]));
    }
    if exists|g: Text| names.contains(g) && #[trigger] groups.contains_key(g) && groups[g].hosts.contains(host) {
        let g = choose|g: Text|
            names.contains(g) && #[trigger] groups.contains_key(g) && groups[g].hosts.contains(host);
        let i = choose|i: int| 0 <= i < names.len() && names[i] == g;
        assert(groups.contains_key(names[i]));
    }
}

/// Without any setting everything is served as it is merged.
pub proof fn law_without_a_filter_every_host_is_served(
    datasets: Map<Text, DatasetView>,
    config: Map<Text, Text>,
    params: JsonTree,
    host: Text,
)
    requires
        setting_of(params, config, "filter_datacenter"@).len() == 0,
        setting_of(params, config, "filter_os"@).len() == 0,
        setting_of(params, config, "filter_group"@).len() == 0,
        csv_names(setting_of(params, config, "exclude_vars"@)).len() == 0,
    ensures
        served_hosts(datasets, config, params).contains_key(host) <==> merged_hosts(
            datasets,
            sorted(datasets.dom()),
        ).contains_key(host),
        served_hosts(datasets, config, params).contains_key(host) ==> served_hosts(datasets, config, params)[host]
            == merged_hosts(datasets, sorted(datasets.dom()))[host],
{
    let none = filter_of(params, config).exclude;
    assert(none =~= Seq::empty());
    assert(none.to_set() =~= Set::empty());
    let all = merged_hosts(datasets, sorted(datasets.dom()));
    if all.contains_key(host) {
        assert(without(all[host], none.to_set()) =~= all[host]);
    }
}

/// What is left out is what `exclude_vars` names, and a variable that it does not name
/// stays on a group that is served, as the merged inventories have it. So do the group's
/// children.
pub proof fn law_a_served_group_keeps_the_rest(
    datasets: Map<Text, DatasetView>,
    config: Map<Text, Text>,
    params: JsonTree,
    group: Text,
    key: Text,
)
    requires
        served_groups(datasets, config, params).contains_key(group),
    ensures
        ({
            let whole = merged_groups(datasets, sorted(datasets.dom()));
            let served = served_groups(datasets, config, params)[group];
            let out = csv_names(setting_of(params, config, "exclude_vars"@)).contains(key);
            &&& whole.contains_key(group)
            &&& served.children == whole[group].children
            &&& served.vars is Some <==> whole[group].vars is Some
            &&& served.vars is Some ==> (served.vars->0.contains_key(key) <==> whole[group].vars->0.contains_key(key)
                && !out)
            &&& served.vars is Some && served.vars->0.contains_key(key) ==> served.vars->0[key]
                == whole[group].vars->0[key]
        }),
{
    let names = filter_of(params, config).exclude;
    assert(names.to_set().contains(key) <==> names.contains(key));
}

/// A group that is left with nobody is served where it has children; and one that never
/// listed anybody only where it has children or variables.
pub proof fn law_a_group_is_served_where_it_has_something(
    datasets: Map<Text, DatasetView>,
    config: Map<Text, Text>,
    params: JsonTree,
    group: Text,
)
    requires
        merged_groups(datasets, sorted(datasets.dom())).contains_key(group),
    ensures
        ({
            let whole = merged_groups(datasets, sorted(datasets.dom()))[group];
            let served = served_groups(datasets, config, params).contains_key(group);
            let left = exists|h: Text| #[trigger]
                whole.hosts.contains(h) && served_hosts(datasets, config, params).contains_key(h);
            let vars_left = whole.vars is Some && exists|k: Text| #[trigger]
                whole.vars->0.contains_key(k) && !csv_names(setting_of(params, config, "exclude_vars"@)).contains(k);
            &&& whole.children.len() > 0 ==> served
            &&& whole.hosts.len() > 0 && whole.children.len() == 0 ==> (served <==> left)
            &&& whole.hosts.len() == 0 && whole.children.len() == 0 ==> (served <==> vars_left)
        }),
{
    let whole = merged_groups(datasets, sorted(datasets.dom()))[group];
    let left = served_hosts(datasets, config, params).dom();
    let filter = filter_of(params, config);
    let wanted = |h: Text| left.contains(h);
    let through = group_through(filter, whole, left);
    if through.hosts.len() > 0 {
        assert(through.hosts.contains(through.hosts[0]));
        lemma_filter_holds(whole.hosts, wanted, through.hosts[0]);
    }
    assert forall|h: Text| #[trigger] whole.hosts.contains(h) && left.contains(h) implies through.hosts.len() > 0 by {
        lemma_filter_holds(whole.hosts, wanted, h);
    }
    if whole.vars is Some {
        let vars = through.vars->0;
        let names = filter.exclude;
        assert forall|k: Text| vars.contains_key(k) <==> whole.vars->0.contains_key(k) && !names.contains(k) by {
            assert(names.to_set().contains(k) <==> names.contains(k));
        }
        if vars != Map::<Text, JsonTree>::empty() {
            assert(exists|k: Text| vars.contains_key(k)) by {
                if forall|k: Text| !vars.contains_key(k) {
                    assert(vars =~= Map::empty());
                }
            }
            let k = choose|k: Text| vars.contains_key(k);
            assert(whole.vars->0.contains_key(k));
        }
    }
}

/// The raw rendering has every host with its variables, and every group with its hosts,
/// its children and its variables, under their names.
pub proof fn law_the_raw_rendering_has_everything(
    hosts: Map<Text, VarsView>,
    groups: Map<Text, GroupView>,
    host: Text,
    group: Text,
)
    ensures
        ({
            let tree = inventory_tree(hosts, groups);
            let shown = tree_member(tree, "hostvars"@);
            let listed = tree_member(tree, "groups"@);
            &&& shown is Some && listed is Some
            &&& hosts.contains_key(host) ==> tree_member(shown->0, host) == Some(JsonTree::Object(hosts[host]))
            &&& !hosts.contains_key(host) ==> tree_member(shown->0, host) is None
            &&& !groups.contains_key(group) ==> tree_member(listed->0, group) is None
            &&& groups.contains_key(group) ==> {
                let one = tree_member(listed->0, group);
                &&& one is Some
                &&& tree_member(one->0, "hosts"@) is Some && string_items(tree_member(one->0, "hosts"@)->0) == Some(
                    groups[group].hosts,
                )
                &&& tree_member(one->0, "children"@) is Some && string_items(tree_member(one->0, "children"@)->0)
                    == Some(groups[group].children)
                &&& groups[group].vars is None ==> tree_member(one->0, "vars"@) == Some(JsonTree::Null)
                &&& groups[group].vars is Some ==> tree_member(one->0, "vars"@) == Some(
                    JsonTree::Object(groups[group].vars->0),
                )
            }
        }),
{
    lemma_keys_differ();
    reveal_strlit("hostvars");
    reveal_strlit("groups");
    assert("hostvars"@.len() == 8 && "groups"@.len() == 6);
    lemma_strings_read_back(groups[group].hosts);
    lemma_strings_read_back(groups[group].children);
}

/// A text with each pair of quotes made one again.
pub open spec fn quotes_halved(text: Text) -> Text
    decreases text.len(),
{
    if text.len() >= 2 && text.last() == '"' && text[text.len() - 2] == '"' {
        quotes_halved(text.drop_last().drop_last()).push('"')
    } else if text.len() >= 1 {
        quotes_halved(text.drop_last()).push(text.last())
    } else {
        text
    }
}

proof fn lemma_doubled_then_halved(field: Text)
    ensures
        quotes_halved(quotes_doubled(field)) == field,
        field.len() > 0 && field.last() != '"' ==> quotes_doubled(field).len() > 0 && quotes_doubled(field).last()
            != '"',
    decreases field.len(),
{
    if field.len() > 0 {
        let rest = field.drop_last();
        lemma_doubled_then_halved(rest);
        let inner = quotes_doubled(rest);
        if field.last() == '"' {
            let all = inner.push('"').push('"');
            assert(all.drop_last().drop_last() =~= inner);
            assert(quotes_halved(all) == quotes_halved(inner).push('"'));
        } else {
            let all = inner.push(field.last());
            assert(all.drop_last() =~= inner);
        }
        assert(rest.push(field.last()) =~= field);
    }
}

/// A cell can be read back: one that stands in quotes is what is between them, with each
/// pair of quotes made one; any other is what stands there, and has no comma, no quote and
/// no line break.
pub proof fn law_a_cell_can_be_read_back(field: Text)
    ensures
        ({
            let cell = csv_field_text(field);
            let quoted = cell.len() >= 2 && cell[0] == '"' && cell.last() == '"';
            &&& quoted ==> quotes_halved(cell.subrange(1, cell.len() - 1)) == field
            &&& !quoted ==> cell == field && !cell.contains(',') && !cell.contains('"') && !cell.contains('\n')
                && !cell.contains('\r')
        }),
{
    reveal_strlit("\"");
    lemma_doubled_then_halved(field);
    let cell = csv_field_text(field);
    if needs_quotes(field) {
        assert(cell.subrange(1, cell.len() - 1) =~= quotes_doubled(field));
        assert(cell[0] == '"');
    } else if cell.len() >= 2 && cell[0] == '"' {
        assert(cell.contains('"'));
    }
}

/// What a cell holds: a text as it is, nothing for what is missing or null, and the JSON
/// of anything else.
pub proof fn law_a_cell_holds_the_variable(vars: VarsView, column: Text)
    ensures
        !vars.contains_key(column) ==> csv_cell(vars, column).len() == 0,
        vars.contains_key(column) && vars[column] is Null ==> csv_cell(vars, column).len() == 0,
        vars.contains_key(column) && vars[column] is Str ==> csv_cell(vars, column) == vars[column]->Str_0,
        vars.contains_key(column) && !(vars[column] is Null) && !(vars[column] is Str) ==> csv_cell(vars, column)
            == compact_text(vars[column]),
{
}

/// The columns are those that are asked for, as they are asked for; else every variable of
/// any host, in ascending order.
pub proof fn law_the_columns_are_what_is_asked_for(
    hosts: Map<Text, VarsView>,
    wanted: Seq<Text>,
    name: Text,
)
    requires
        hosts.dom().finite(),
        forall|h: Text| #[trigger] hosts.contains_key(h) ==> hosts[h].dom().finite(),
    ensures
        wanted.len() > 0 ==> csv_columns(hosts, wanted) == wanted,
        wanted.len() == 0 ==> ascending(csv_columns(hosts, wanted)),
        wanted.len() == 0 ==> (csv_columns(hosts, wanted).contains(name) <==> exists|h: Text| #[trigger]
            hosts.contains_key(h) && hosts[h].contains_key(name)),
{
    if wanted.len() == 0 {
        lemma_var_names_finite(hosts, hosts.dom());
        let names = var_names(hosts);
        assert(names =~= Set::new(|v: Text| exists|h: Text| #[trigger]
            hosts.dom().contains(h) && hosts[h].contains_key(v)));
        lemma_sorted(names);
        assert(sorted(names).to_set().contains(name) <==> sorted(names).contains(name));
    }
}

proof fn lemma_var_names_finite(hosts: Map<Text, VarsView>, some: Set<Text>)
    requires
        some.finite(),
        some.subset_of(hosts.dom()),
        forall|h: Text| #[trigger] hosts.contains_key(h) ==> hosts[h].dom().finite(),
    ensures
        Set::new(|v: Text| exists|h: Text| #[trigger] some.contains(h) && hosts[h].contains_key(v)).finite(),
    decreases some.len(),
{
    let names = Set::new(|v: Text| exists|h: Text| #[trigger] some.contains(h) && hosts[h].contains_key(v));
    if some.len() == 0 {
        assert(some =~= Set::empty());
        assert(names =~= Set::empty());
    } else {
        let h = some.choose();
        let rest = some.remove(h);
        lemma_var_names_finite(hosts, rest);
        let fewer = Set::new(|v: Text| exists|g: Text| #[trigger] rest.contains(g) && hosts[g].contains_key(v));
        assert forall|v: Text| names.contains(v) implies (fewer + hosts[h].dom()).contains(v) by {
            let g = choose|g: Text| #[trigger] some.contains(g) && hosts[g].contains_key(v);
            if g != h {
                assert(rest.contains(g));
            }
        }
        assert(hosts.contains_key(h));
        vstd::set_lib::lemma_set_subset_finite(fewer + hosts[h].dom(), names);
    }
}

/// A line of cells, with commas between them and a line break at the end.
pub open spec fn cells_line(cells: Seq<Text>) -> Text
    decreases cells.len(),
{
    if cells.len() == 0 {
        "\n"@
    } else if cells.len() == 1 {
        csv_field_text(cells[0]) + "\n"@
    } else {
        csv_field_text(cells[0]) + ","@ + cells_line(cells.drop_first())
    }
}

proof fn lemma_join_first(parts: Seq<Text>, sep: Text)
    requires
        parts.len() > 1,
    ensures
        join_text(parts, sep) == parts[0] + sep + join_text(parts.drop_first(), sep),
    decreases parts.len(),
{
    let rest = parts.drop_first();
    if parts.len() == 2 {
        assert(parts.drop_last() =~= seq![parts[0]]);
        assert(rest =~= seq![parts[1]]);
        assert(join_text(seq![parts[0]], sep) == parts[0]);
    } else {
        lemma_join_first(parts.drop_last(), sep);
        assert(parts.drop_last().drop_first() =~= rest.drop_last());
        assert(join_text(parts, sep) =~= parts[0] + sep + join_text(rest, sep));
    }
}

proof fn lemma_line(cells: Seq<Text>)
    ensures
        csv_line(cells) == cells_line(cells),
    decreases cells.len(),
{
    let f = |c: Text| csv_field_text(c);
    let fields = cells.map_values(f);
    if cells.len() == 0 {
        assert(fields =~= Seq::empty());
        assert(csv_line(cells) =~= "\n"@);
    } else if cells.len() == 1 {
        assert(fields =~= seq![f(cells[0])]);
    } else {
        lemma_line(cells.drop_first());
        lemma_join_first(fields, ","@);
        assert(fields.drop_first() =~= cells.drop_first().map_values(f));
        assert(csv_line(cells) =~= csv_field_text(cells[0]) + ","@ + csv_line(cells.drop_first()));
    }
}

/// The cells of a host: its name, then what it has for each column, in the order of the
/// columns.
pub proof fn law_a_row_follows_the_columns(host: Text, vars: VarsView, columns: Seq<Text>, i: int)
    requires
        0 <= i < columns.len(),
    ensures
        host_cells(host, vars, columns).len() == columns.len() + 1,
        host_cells(host, vars, columns)[0] == host,
        host_cells(host, vars, columns)[i + 1] == csv_cell(vars, columns[i]),
        csv_line(host_cells(host, vars, columns)) == cells_line(host_cells(host, vars, columns)),
{
    lemma_line(host_cells(host, vars, columns));
}

proof fn lemma_rows(hosts: Map<Text, VarsView>, names: Seq<Text>, columns: Seq<Text>, i: int) -> (around: (Text, Text))
    requires
        0 <= i < names.len(),
    ensures
        csv_lines(hosts, names, columns) == around.0 + csv_line(host_cells(names[i], hosts[names[i]], columns))
            + around.1,
        around.0 == csv_lines(hosts, names.take(i), columns),
    decreases names.len(),
{
    let rest = names.drop_last();
    let last = csv_line(host_cells(names.last(), hosts[names.last()], columns));
    if i == names.len() - 1 {
        assert(names.take(i) =~= rest);
        assert(csv_lines(hosts, names, columns) =~= csv_lines(hosts, rest, columns) + last + Seq::<char>::empty());
        (csv_lines(hosts, rest, columns), Seq::empty())
    } else {
        let around = lemma_rows(hosts, rest, columns, i);
        assert(rest[i] == names[i]);
        assert(rest.take(i) =~= names.take(i));
        assert(csv_lines(hosts, names, columns) =~= around.0 + csv_line(
            host_cells(names[i], hosts[names[i]], columns),
        ) + (around.1 + last));
        (around.0, around.1 + last)
    }
}

/// The text has a line for every host, after a header that names the columns: what stands
/// before and after it are the other lines. The rows come in ascending order of the hosts.
pub proof fn law_every_host_has_a_row(hosts: Map<Text, VarsView>, columns: Seq<Text>, host: Text) -> (around: (Text, Text))
    requires
        hosts.dom().finite(),
        hosts.contains_key(host),
    ensures
        csv_text(hosts, columns) == cells_line(seq!["host"@] + columns) + around.0 + cells_line(
            seq![host] + columns.map_values(|c: Text| csv_cell(hosts[host], c)),
        ) + around.1,
{
    let names = sorted(hosts.dom());
    lemma_sorted(hosts.dom());
    assert(names.to_set().contains(host));
    let i = choose|i: int| 0 <= i < names.len() && names[i] == host;
    let around = lemma_rows(hosts, names, columns, i);
    lemma_line(seq!["host"@] + columns);
    lemma_line(host_cells(host, hosts[host], columns));
    assert(csv_text(hosts, columns) =~= cells_line(seq!["host"@] + columns) + around.0 + cells_line(
        host_cells(host, hosts[host], columns),
    ) + around.1);
    around
}

/// Without hosts there is the header alone.
pub proof fn law_without_hosts_there_is_a_header(columns: Seq<Text>)
    ensures
        csv_text(Map::empty(), columns) == cells_line(seq!["host"@] + columns),
{
    lemma_line(seq!["host"@] + columns);
    let none = Map::<Text, VarsView>::empty().dom();
    lemma_sorted(none);
    assert(none.len() == 0);
    assert(csv_text(Map::empty(), columns) =~= cells_line(seq!["host"@] + columns));
}

/// The hosts and children of a merged group come in the order of the inventories: those of
/// a further inventory that are new come after those that were there, in its order.
pub proof fn law_a_merged_group_keeps_the_order(
    datasets: Map<Text, DatasetView>,
    ids: Seq<Text>,
    id: Text,
    group: Text,
)
    requires
        datasets[id].groups.contains_key(group),
    ensures
        ({
            let before = merged_groups(datasets, ids);
            let after = merged_groups(datasets, ids.push(id));
            let own = datasets[id].groups[group];
            &&& after.contains_key(group)
            &&& before.contains_key(group) ==> before[group].hosts.is_prefix_of(after[group].hosts)
                && before[group].children.is_prefix_of(after[group].children)
            &&& !before.contains_key(group) && own.hosts.no_duplicates() ==> after[group].hosts == own.hosts
            &&& !before.contains_key(group) && own.children.no_duplicates() ==> after[group].children == own.children
            &&& before.contains_key(group) && own.hosts.no_duplicates() && (forall|h: Text| #[trigger]
                own.hosts.contains(h) ==> !before[group].hosts.contains(h)) ==> after[group].hosts
                == before[group].hosts + own.hosts
            &&& after[group].vars is None <==> own.vars is None && !(before.contains_key(group) && before[group].vars
                is Some)
        }),
{
    let before = merged_groups(datasets, ids);
    let own = datasets[id].groups[group];
    let none = Seq::<Text>::empty();
    assert(ids.push(id).drop_last() =~= ids);
    assert(ids.push(id).last() == id);
    if before.contains_key(group) {
        lemma_append_new(before[group].hosts, own.hosts, group);
        lemma_append_new(before[group].children, own.children, group);
        if own.hosts.no_duplicates() && forall|h: Text| #[trigger]
            own.hosts.contains(h) ==> !before[group].hosts.contains(h) {
            lemma_append_distinct(before[group].hosts, own.hosts);
        }
    } else {
        if own.hosts.no_duplicates() {
            lemma_append_distinct(none, own.hosts);
            assert(none + own.hosts =~= own.hosts);
        }
        if own.children.no_duplicates() {
            lemma_append_distinct(none, own.children);
            assert(none + own.children =~= own.children);
        }
    }
}

proof fn lemma_append_distinct(list: Seq<Text>, items: Seq<Text>)
    requires
        items.no_duplicates(),
        forall|h: Text| #[trigger] items.contains(h) ==> !list.contains(h),
    ensures
        append_new(list, items) == list + items,
    decreases items.len(),
{
    if items.len() > 0 {
        let rest = items.drop_last();
        assert forall|h: Text| #[trigger] rest.contains(h) implies !list.contains(h) by {
            let i = choose|i: int| 0 <= i < rest.len() && rest[i] == h;
            assert(items[i] == h);
            assert(items.contains(h));
        }
        lemma_append_distinct(list, rest);
        assert(items.contains(items.last())) by {
            assert(items[items.len() - 1] == items.last());
        }
        let before = list + rest;
        if before.contains(items.last()) {
            let i = choose|i: int| 0 <= i < before.len() && before[i] == items.last();
            if i < list.len() {
                assert(list.contains(items.last()));
            } else {
                assert(items[i - list.len()] == items[items.len() - 1]);
            }
        }
        assert(before.push(items.last()) =~= list + items);
    } else {
        assert(list + items =~= list);
    }
}

/// A group that is served lists its hosts in the order in which the merged group has them.
pub proof fn law_a_served_group_keeps_the_order(
    params: JsonTree,
    config: Map<Text, Text>,
    group: GroupView,
    left: Set<Text>,
    next: Text,
)
    ensures
        ({
            let filter = filter_of(params, config);
            let longer = GroupView { hosts: group.hosts.push(next), ..group };
            group_through(filter, longer, left).hosts == if left.contains(next) {
                group_through(filter, group, left).hosts.push(next)
            } else {
                group_through(filter, group, left).hosts
            }
        }),
{
    reveal(Seq::filter);
    assert(group.hosts.push(next).drop_last() =~= group.hosts);
}

/// For Ansible a group has `hosts`, `children` and `vars` where it has any, and nothing
/// else: hosts and children each once, in ascending order.
pub proof fn law_a_group_is_written_for_ansible(group: GroupView, name: Text, key: Text)
    ensures
        ({
            let tree = ansible_group(group);
            let hosts = tree_member(tree, "hosts"@);
            let children = tree_member(tree, "children"@);
            let vars = tree_member(tree, "vars"@);
            &&& tree is Object
            &&& tree->Object_0.contains_key(key) ==> key == "hosts"@ || key == "children"@ || key == "vars"@
            &&& hosts is Some <==> group.hosts.len() > 0
            &&& hosts is Some ==> string_items(hosts->0) is Some && ascending(string_items(hosts->0)->0) && (
            string_items(hosts->0)->0.contains(name) <==> group.hosts.contains(name))
            &&& children is Some <==> group.children.len() > 0
            &&& children is Some ==> string_items(children->0) is Some && ascending(string_items(children->0)->0) && (
            string_items(children->0)->0.contains(name) <==> group.children.contains(name))
            &&& vars is Some <==> group.vars is Some && group.vars->0 != Map::<Text, JsonTree>::empty()
            &&& vars is Some ==> vars->0 == JsonTree::Object(group.vars->0)
        }),
{
    lemma_keys_differ();
    lemma_ordered(group.hosts, name);
    lemma_ordered(group.children, name);
    lemma_strings_read_back(ordered(group.hosts));
    lemma_strings_read_back(ordered(group.children));
}

proof fn lemma_ordered(names: Seq<Text>, name: Text)
    ensures
        ascending(ordered(names)),
        ordered(names).contains(name) <==> names.contains(name),
{
    names.lemma_cardinality_of_set();
    lemma_sorted(names.to_set());
    assert(ordered(names).to_set().contains(name) <==> ordered(names).contains(name));
    assert(names.to_set().contains(name) <==> names.contains(name));
}

/// For Ansible an inventory has each group under its name, and the hosts with their
/// variables below `_meta`; and nothing else.
pub proof fn law_an_inventory_is_written_for_ansible(
    hosts: Map<Text, VarsView>,
    groups: Map<Text, GroupView>,
    key: Text,
    host: Text,
)
    ensures
        ({
            let tree = ansible_tree(hosts, groups);
            &&& tree is Object
            &&& tree_member(tree, key) is Some <==> key == "_meta"@ || groups.contains_key(key)
            &&& groups.contains_key(key) ==> tree_member(tree, key) == Some(ansible_group(groups[key]))
            &&& !groups.contains_key("_meta"@) ==> {
                let shown = tree_member(tree_member(tree, "_meta"@)->0, "hostvars"@);
                &&& shown is Some
                &&& tree_member(shown->0, host) is Some <==> hosts.contains_key(host)
                &&& hosts.contains_key(host) ==> tree_member(shown->0, host) == Some(JsonTree::Object(hosts[host]))
            }
        }),
{
}

} // verus!
