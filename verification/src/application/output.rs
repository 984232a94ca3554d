//! Rendering inventories: merged, filtered, and written in a format.

use crate::domain::cache_entry::contains_string;
#[allow(unused_imports)]
use crate::domain::dataset::{DatasetView, GroupView, VarsView};
use crate::domain::dataset::{Dataset, Group, HostVars};
#[allow(unused_imports)]
use crate::domain::source::{in_named_group, lemma_named_group_step};
#[allow(unused_imports)]
use crate::json::{compact_text, pretty_text, strings_tree, tree_member, JsonTree};
use crate::json::{object, strings_json, Json};
use crate::model::Dup;
#[allow(unused_imports)]
use crate::strmap::{lemma_not_before, lemma_prefix_step, lemma_prefix_whole, lemma_sorted, sorted, without};
use crate::strmap::{StrMap, StrSet};
#[allow(unused_imports)]
use crate::text::{csv_names, join_text, Text};
use crate::text::{cat3, chars_of, comma_list, join, push_char, str_eq};
use std::sync::Arc;
use vstd::prelude::*;

verus! {

/// A setting: what the request says, else what the endpoint's configuration
/// says, else nothing.
pub open spec fn setting_of(params: JsonTree, config: Map<Text, Text>, key: Text) -> Text {
    match tree_member(params, key) {
        Some(JsonTree::Str(value)) => value,
        _ => if config.contains_key(key) {
            config[key]
        } else {
            Seq::empty()
        },
    }
}

fn setting(params: &Json, config: &StrMap<String>, key: &str) -> (value: String)
    ensures
        value@ == setting_of(params@, config@, key@),
{
    if let Some(json) = params.get(key) {
        if let Json::Str(value) = json {
            return value.clone();
        }
    }
    match config.get(key) {
        Some(value) => value.clone(),
        None => String::new(),
    }
}

/// A list with the items of another one after its own, each that is not in it yet.
pub open spec fn append_new(list: Seq<Text>, items: Seq<Text>) -> Seq<Text>
    decreases items.len(),
{
    if items.len() == 0 {
        list
    } else {
        let before = append_new(list, items.drop_last());
        if before.contains(items.last()) {
            before
        } else {
            before.push(items.last())
        }
    }
}

/// Hosts with the variables of others put over their own.
pub open spec fn merge_hosts(hosts: Map<Text, VarsView>, more: Map<Text, VarsView>) -> Map<Text, VarsView> {
    Map::new(
        |h: Text| hosts.contains_key(h) || more.contains_key(h),
        |h: Text|
            if !more.contains_key(h) {
                hosts[h]
            } else if hosts.contains_key(h) {
                hosts[h].union_prefer_right(more[h])
            } else {
                more[h]
            },
    )
}

/// A group with the hosts, the children and the variables of another added.
pub open spec fn merge_group(group: GroupView, more: GroupView) -> GroupView {
    GroupView {
        hosts: append_new(group.hosts, more.hosts),
        children: append_new(group.children, more.children),
        vars: match more.vars {
            None => group.vars,
            Some(new) => Some(
                match group.vars {
                    Some(own) => own.union_prefer_right(new),
                    None => new,
                },
            ),
        },
    }
}

/// Groups with others added.
pub open spec fn merge_groups(groups: Map<Text, GroupView>, more: Map<Text, GroupView>) -> Map<Text, GroupView> {
    Map::new(
        |g: Text| groups.contains_key(g) || more.contains_key(g),
        |g: Text|
            if !more.contains_key(g) {
                groups[g]
            } else {
                merge_group(
                    if groups.contains_key(g) {
                        groups[g]
                    } else {
                        GroupView::none()
                    },
                    more[g],
                )
            },
    )
}

/// The hosts of the named inventories, the later over the earlier.
pub open spec fn merged_hosts(datasets: Map<Text, DatasetView>, ids: Seq<Text>) -> Map<Text, VarsView>
    decreases ids.len(),
{
    if ids.len() == 0 {
        Map::empty()
    } else {
        merge_hosts(merged_hosts(datasets, ids.drop_last()), datasets[ids.last()].hostvars)
    }
}

/// The groups of the named inventories, the later over the earlier.
pub open spec fn merged_groups(datasets: Map<Text, DatasetView>, ids: Seq<Text>) -> Map<Text, GroupView>
    decreases ids.len(),
{
    if ids.len() == 0 {
        Map::empty()
    } else {
        merge_groups(merged_groups(datasets, ids.drop_last()), datasets[ids.last()].groups)
    }
}

/// What an endpoint lets through.
#[verifier::ext_equal]
pub struct FilterView {
    /// The data centre that a host has to be in; any, where empty.
    pub datacenter: Text,
    /// The operating system that a host has to have; any, where empty.
    pub os: Text,
    /// The groups of which a host has to be in one; any, where empty.
    pub group: Text,
    /// The variables that are left out.
    pub exclude: Seq<Text>,
}

/// What the settings of an endpoint let through.
pub open spec fn filter_of(params: JsonTree, config: Map<Text, Text>) -> FilterView {
    FilterView {
        datacenter: setting_of(params, config, "filter_datacenter"@),
        os: setting_of(params, config, "filter_os"@),
        group: setting_of(params, config, "filter_group"@),
        exclude: csv_names(setting_of(params, config, "exclude_vars"@)),
    }
}

/// A variable has the wanted text, where one is wanted.
pub open spec fn var_is(vars: VarsView, name: Text, wanted: Text) -> bool {
    wanted.len() == 0 || (vars.contains_key(name) && vars[name] == JsonTree::Str(wanted))
}

/// A host is let through.
pub open spec fn survives(filter: FilterView, groups: Map<Text, GroupView>, host: Text, vars: VarsView) -> bool {
    &&& var_is(vars, "datacenter"@, filter.datacenter)
    &&& var_is(vars, "os"@, filter.os)
    &&& filter.group.len() == 0 || in_named_group(groups, csv_names(filter.group), host)
}

/// The hosts that are let through, without the variables that are left out.
pub open spec fn hosts_through(
    filter: FilterView,
    hosts: Map<Text, VarsView>,
    groups: Map<Text, GroupView>,
) -> Map<Text, VarsView> {
    Map::new(
        |h: Text| hosts.contains_key(h) && survives(filter, groups, h, hosts[h]),
        |h: Text| without(hosts[h], filter.exclude.to_set()),
    )
}

/// A group with the hosts that are left, without the variables that are left out.
pub open spec fn group_through(filter: FilterView, group: GroupView, left: Set<Text>) -> GroupView {
    GroupView {
        hosts: group.hosts.filter(|h: Text| left.contains(h)),
        children: group.children,
        vars: match group.vars {
            Some(vars) => Some(without(vars, filter.exclude.to_set())),
            None => None,
        },
    }
}

/// A group is let through. One that named hosts has to have some left, or
/// children; one that never named any has to have children or variables.
pub open spec fn group_stays(filter: FilterView, group: GroupView, left: Set<Text>) -> bool {
    let through = group_through(filter, group, left);
    if group.hosts.len() > 0 {
        through.hosts.len() > 0 || through.children.len() > 0
    } else {
        through.children.len() > 0 || (through.vars is Some && through.vars->0 != Map::<Text, JsonTree>::empty())
    }
}

/// The groups that are let through.
pub open spec fn groups_through(
    filter: FilterView,
    groups: Map<Text, GroupView>,
    left: Set<Text>,
) -> Map<Text, GroupView> {
    Map::new(
        |g: Text| groups.contains_key(g) && group_stays(filter, groups[g], left),
        |g: Text| group_through(filter, groups[g], left),
    )
}

/// The hosts of all inventories that an endpoint lets through. The inventory
/// whose name comes later goes over the earlier.
pub open spec fn served_hosts(
    datasets: Map<Text, DatasetView>,
    config: Map<Text, Text>,
    params: JsonTree,
) -> Map<Text, VarsView> {
    let ids = sorted(datasets.dom());
    hosts_through(filter_of(params, config), merged_hosts(datasets, ids), merged_groups(datasets, ids))
}

/// The groups of all inventories that an endpoint lets through.
pub open spec fn served_groups(
    datasets: Map<Text, DatasetView>,
    config: Map<Text, Text>,
    params: JsonTree,
) -> Map<Text, GroupView> {
    groups_through(
        filter_of(params, config),
        merged_groups(datasets, sorted(datasets.dom())),
        served_hosts(datasets, config, params).dom(),
    )
}

fn append_missing(list: &mut Vec<String>, items: &Vec<String>)
    ensures
        final(list).deep_view() == append_new(old(list).deep_view(), items.deep_view()),
{
    let ghost before = list.deep_view();
    let ghost all = items.deep_view();
    let mut i: usize = 0;
    while i < items.len()
        invariant
            i <= items@.len(),
            all == items.deep_view(),
            list.deep_view() == append_new(before, all.take(i as int)),
        decreases items@.len() - i,
    {
        let ghost now = list.deep_view();
        proof {
            assert(all.take(i + 1).drop_last() =~= all.take(i as int));
            assert(all[i as int] == items@[i as int]@);
        }
        if !contains_string(list, items[i].as_str()) {
            list.push(items[i].clone());
            assert(list.deep_view() =~= now.push(all[i as int]));
        }
        i += 1;
    }
    assert(all.take(all.len() as int) =~= all);
}

fn add_hosts(hosts: &mut StrMap<HostVars>, more: &StrMap<HostVars>)
    ensures
        final(hosts)@ == merge_hosts(old(hosts)@, more@),
{
    let ghost before = hosts@;
    let n: usize = more.len();
    let ghost names = sorted(more@.dom());
    let mut i: usize = 0;
    while i < n
        invariant
            i <= n == names.len(),
            names == sorted(more@.dom()),
            more@.dom().finite(),
            forall|k: Text| #[trigger]
                hosts@.contains_key(k) <==> before.contains_key(k) || names.take(i as int).contains(k),
            forall|k: Text| #[trigger]
                hosts@.contains_key(k) ==> hosts@[k] == (if !names.take(i as int).contains(k) {
                    before[k]
                } else if before.contains_key(k) {
                    before[k].union_prefer_right(more@[k])
                } else {
                    more@[k]
                }),
        decreases n - i,
    {
        proof {
            lemma_prefix_step(names, i as int);
            lemma_sorted(more@.dom());
            lemma_not_before(names, i as int);
        }
        let host: &String = more.key_at(i);
        let vars = more.value_at(i).dup();
        match hosts.remove(host.as_str()) {
            Some(mut own) => {
                own.extend(vars);
                hosts.insert(host.clone(), own);
            },
            None => {
                hosts.insert(host.clone(), vars);
            },
        }
        i += 1;
    }
    proof {
        lemma_prefix_whole(more@.dom());
        assert(hosts@ =~= merge_hosts(before, more@));
    }
}

fn add_group(group: Group, more: &Group) -> (merged: Group)
    ensures
        merged@ == merge_group(group@, more@),
{
    let Group { mut hosts, mut children, vars } = group;
    append_missing(&mut hosts, &more.hosts);
    append_missing(&mut children, &more.children);
    let vars: Option<HostVars> = match &more.vars {
        Some(new) => match vars {
            Some(mut own) => {
                own.extend(new.dup());
                Some(own)
            },
            None => Some(new.dup()),
        },
        None => vars,
    };
    Group { hosts, children, vars }
}

fn add_groups(groups: &mut StrMap<Group>, more: &StrMap<Group>)
    ensures
        final(groups)@ == merge_groups(old(groups)@, more@),
{
    let ghost before = groups@;
    let n: usize = more.len();
    let ghost names = sorted(more@.dom());
    let mut i: usize = 0;
    while i < n
        invariant
            i <= n == names.len(),
            names == sorted(more@.dom()),
            more@.dom().finite(),
            forall|k: Text| #[trigger]
                groups@.contains_key(k) <==> before.contains_key(k) || names.take(i as int).contains(k),
            forall|k: Text| #[trigger]
                groups@.contains_key(k) ==> groups@[k] == (if !names.take(i as int).contains(k) {
                    before[k]
                } else {
                    merge_group(
                        if before.contains_key(k) {
                            before[k]
                        } else {
                            GroupView::none()
                        },
                        more@[k],
                    )
                }),
        decreases n - i,
    {
        proof {
            lemma_prefix_step(names, i as int);
            lemma_sorted(more@.dom());
            lemma_not_before(names, i as int);
        }
        let name: &String = more.key_at(i);
        let own = match groups.remove(name.as_str()) {
            Some(own) => own,
            None => Group::default(),
        };
        groups.insert(name.clone(), add_group(own, more.value_at(i)));
        i += 1;
    }
    proof {
        lemma_prefix_whole(more@.dom());
        assert(groups@ =~= merge_groups(before, more@));
    }
}

fn text_var_is(vars: &HostVars, name: &str, wanted: &str) -> (is: bool)
    ensures
        is == var_is(vars@, name@, wanted@),
{
    if wanted.unicode_len() == 0 {
        return true;
    }
    match vars.get(name) {
        Some(value) => match value {
            Json::Str(text) => str_eq(text.as_str(), wanted),
            _ => false,
        },
        None => false,
    }
}

struct Filter {
    datacenter: String,
    os: String,
    group: String,
    /// The hosts of the wanted groups.
    allowed: StrSet,
    exclude: StrSet,
}

impl Filter {
    spec fn is(self, filter: FilterView, groups: Map<Text, GroupView>) -> bool {
        &&& self.datacenter@ == filter.datacenter
        &&& self.os@ == filter.os
        &&& self.group@ == filter.group
        &&& self.exclude@ == filter.exclude.to_set()
        &&& forall|h: Text| #[trigger]
            self.allowed@.contains(h) <==> in_named_group(groups, csv_names(filter.group), h)
    }

    fn new(config: &StrMap<String>, params: &Json, groups: &StrMap<Group>) -> (filter: Filter)
        ensures
            filter.is(filter_of(params@, config@), groups@),
    {
        let datacenter = setting(params, config, "filter_datacenter");
        let os = setting(params, config, "filter_os");
        let group = setting(params, config, "filter_group");
        let mut exclude = StrSet::new();
        let excluded = comma_list(setting(params, config, "exclude_vars").as_str());
        exclude.extend(&excluded);
        assert(exclude@ =~= excluded.deep_view().to_set());
        let mut allowed = StrSet::new();
        let wanted = comma_list(group.as_str());
        let ghost names = wanted.deep_view();
        let mut i: usize = 0;
        while i < wanted.len()
            invariant
                i <= wanted@.len(),
                names == wanted.deep_view(),
                forall|h: Text| #[trigger]
                    allowed@.contains(h) <==> in_named_group(groups@, names.take(i as int), h),
            decreases wanted@.len() - i,
        {
            let ghost before = allowed@;
            let name: &String = &wanted[i];
            assert(names[i as int] == name@);
            if let Some(found) = groups.get(name.as_str()) {
                allowed.extend(&found.hosts);
                assert forall|h: Text| #[trigger] allowed@.contains(h) <==> before.contains(h)
                    || groups@[name@].hosts.contains(h) by {
                    assert(found.hosts.deep_view().to_set().contains(h) <==> found.hosts.deep_view().contains(h));
                }
            }
            proof {
                assert forall|h: Text| #[trigger]
                    allowed@.contains(h) <==> in_named_group(groups@, names.take(i + 1), h) by {
                    lemma_named_group_step(groups@, names, i as int, h);
                    assert(before.contains(h) ==> allowed@.contains(h));
                }
            }
            i += 1;
        }
        assert(names.take(names.len() as int) =~= names);
        Filter { datacenter, os, group, allowed, exclude }
    }

    fn survives(&self, host: &str, vars: &HostVars) -> (yes: bool)
        ensures
            forall|filter: FilterView, groups: Map<Text, GroupView>|
                #![trigger survives(filter, groups, host@, vars@)]
                self.is(filter, groups) ==> yes == survives(filter, groups, host@, vars@),
    {
        text_var_is(vars, "datacenter", self.datacenter.as_str()) && text_var_is(vars, "os", self.os.as_str()) && (
        self.group.as_str().unicode_len() == 0 || self.allowed.contains(host))
    }
}

fn filter_hosts(
    filter: &Filter,
    hosts: StrMap<HostVars>,
    Ghost(model): Ghost<FilterView>,
    Ghost(groups): Ghost<Map<Text, GroupView>>,
) -> (left: StrMap<HostVars>)
    requires
        filter.is(model, groups),
    ensures
        left@ == hosts_through(model, hosts@, groups),
{
    let ghost before = hosts@;
    let ghost keys = sorted(before.dom());
    let mut left: StrMap<HostVars> = StrMap::new();
    let entries = hosts.into_entries();
    let ghost all = entries@;
    for entry in it: entries
        invariant
            it.seq() == all,
            filter.is(model, groups),
            keys == sorted(before.dom()),
            all.len() == keys.len(),
            forall|i: int|
                0 <= i < all.len() ==> {
                    &&& (#[trigger] all[i]).0@ == keys[i]
                    &&& before.contains_key(all[i].0@)
                    &&& all[i].1.deep_view() == before[all[i].0@]
                },
            forall|k: Text| #[trigger]
                left@.contains_key(k) <==> keys.take(it.index()).contains(k) && survives(
                    model,
                    groups,
                    k,
                    before[k],
                ),
            forall|k: Text| #[trigger]
                left@.contains_key(k) ==> left@[k] == without(before[k], model.exclude.to_set()),
    {
        proof {
            lemma_prefix_step(keys, it.index());
            assert(all[it.index()] == entry);
        }
        let (host, mut vars) = entry;
        assert(survives(model, groups, host@, vars@) == survives(model, groups, host@, before[host@]));
        if filter.survives(host.as_str(), &vars) {
            vars.remove_all(&filter.exclude);
            left.insert(host, vars);
        }
    }
    proof {
        lemma_prefix_whole(before.dom());
        assert(left@ =~= hosts_through(model, before, groups));
    }
    left
}

fn keep_hosts(hosts: Vec<String>, left: &StrMap<HostVars>) -> (kept: Vec<String>)
    ensures
        kept.deep_view() == hosts.deep_view().filter(|h: Text| left@.dom().contains(h)),
{
    let ghost all = hosts.deep_view();
    let ghost items = hosts@;
    let ghost stays = |h: Text| left@.dom().contains(h);
    let mut kept: Vec<String> = Vec::new();
    proof {
        reveal(Seq::filter);
        assert(all.take(0).filter(stays) =~= kept.deep_view());
    }
    for host in it: hosts
        invariant
            it.seq() == items,
            all.len() == items.len(),
            forall|j: int| 0 <= j < items.len() ==> #[trigger] all[j] == items[j]@,
            stays == (|h: Text| left@.dom().contains(h)),
            kept.deep_view() == all.take(it.index()).filter(stays),
    {
        let ghost before = kept.deep_view();
        let ghost i = it.index();
        let ghost name = host@;
        proof {
            reveal(Seq::filter);
            assert(all.take(i + 1).drop_last() =~= all.take(i));
            assert(all[i] == name);
        }
        if left.contains_key(host.as_str()) {
            kept.push(host);
            assert(kept.deep_view() =~= before.push(name));
        }
    }
    assert(all.take(items.len() as int) =~= all);
    kept
}

fn filter_group(filter: &Filter, group: Group, left: &StrMap<HostVars>, Ghost(model): Ghost<FilterView>) -> (kept: Option<
    Group,
>)
    requires
        filter.exclude@ == model.exclude.to_set(),
    ensures
        match kept {
            Some(g) => group_stays(model, group@, left@.dom()) && g@ == group_through(model, group@, left@.dom()),
            None => !group_stays(model, group@, left@.dom()),
        },
{
    let ghost whole = group@;
    let Group { hosts, children, vars } = group;
    let named_hosts: bool = hosts.len() > 0;
    let hosts = keep_hosts(hosts, left);
    let vars: Option<HostVars> = match vars {
        Some(mut vars) => {
            vars.remove_all(&filter.exclude);
            Some(vars)
        },
        None => None,
    };
    let has_vars: bool = match &vars {
        Some(vars) => !vars.is_empty(),
        None => false,
    };
    let through = Group { hosts, children, vars };
    proof {
        assert(through@ == group_through(model, whole, left@.dom()));
        assert(through@.hosts.len() == through.hosts@.len());
        assert(through@.children.len() == through.children@.len());
    }
    let stays: bool = if named_hosts {
        through.hosts.len() > 0 || through.children.len() > 0
    } else {
        through.children.len() > 0 || has_vars
    };
    if stays {
        Some(through)
    } else {
        None
    }
}

fn filter_groups(
    filter: &Filter,
    groups: StrMap<Group>,
    left: &StrMap<HostVars>,
    Ghost(model): Ghost<FilterView>,
) -> (kept: StrMap<Group>)
    requires
        filter.exclude@ == model.exclude.to_set(),
    ensures
        kept@ == groups_through(model, groups@, left@.dom()),
{
    let ghost before = groups@;
    let ghost keys = sorted(before.dom());
    let mut kept: StrMap<Group> = StrMap::new();
    let entries = groups.into_entries();
    let ghost all = entries@;
    for entry in it: entries
        invariant
            it.seq() == all,
            filter.exclude@ == model.exclude.to_set(),
            keys == sorted(before.dom()),
            all.len() == keys.len(),
            forall|i: int|
                0 <= i < all.len() ==> {
                    &&& (#[trigger] all[i]).0@ == keys[i]
                    &&& before.contains_key(all[i].0@)
                    &&& all[i].1.deep_view() == before[all[i].0@]
                },
            forall|k: Text| #[trigger]
                kept@.contains_key(k) <==> keys.take(it.index()).contains(k) && group_stays(
                    model,
                    before[k],
                    left@.dom(),
                ),
            forall|k: Text| #[trigger]
                kept@.contains_key(k) ==> kept@[k] == group_through(model, before[k], left@.dom()),
    {
        proof {
            lemma_prefix_step(keys, it.index());
            assert(all[it.index()] == entry);
        }
        let (name, group) = entry;
        if let Some(group) = filter_group(filter, group, left, Ghost(model)) {
            kept.insert(name, group);
        }
    }
    proof {
        lemma_prefix_whole(before.dom());
        assert(kept@ =~= groups_through(model, before, left@.dom()));
    }
    kept
}

/// Merges inventories, and lets through what an endpoint serves.
pub fn merge_and_filter(
    datasets: &StrMap<Arc<Dataset>>,
    config: &StrMap<String>,
    params: &Json,
) -> (r: (StrMap<HostVars>, StrMap<Group>))
    ensures
        r.0@ == served_hosts(datasets@, config@, params@),
        r.1@ == served_groups(datasets@, config@, params@),
{
    let mut hosts: StrMap<HostVars> = StrMap::new();
    let mut groups: StrMap<Group> = StrMap::new();
    let n: usize = datasets.len();
    let ghost ids = sorted(datasets@.dom());
    let mut i: usize = 0;
    while i < n
        invariant
            i <= n == ids.len(),
            ids == sorted(datasets@.dom()),
            hosts@ == merged_hosts(datasets@, ids.take(i as int)),
            groups@ == merged_groups(datasets@, ids.take(i as int)),
        decreases n - i,
    {
        assert(ids.take(i + 1).drop_last() =~= ids.take(i as int));
        let dataset: &Dataset = &**datasets.value_at(i);
        add_hosts(&mut hosts, &dataset.hostvars);
        add_groups(&mut groups, &dataset.groups);
        i += 1;
    }
    assert(ids.take(n as int) =~= ids);
    let filter = Filter::new(config, params, &groups);
    let ghost model = filter_of(params@, config@);
    let left = filter_hosts(&filter, hosts, Ghost(model), Ghost(groups@));
    let kept = filter_groups(&filter, groups, &left, Ghost(model));
    (left, kept)
}

/// Hosts with their variables as JSON.
pub open spec fn hosts_tree(hosts: Map<Text, VarsView>) -> JsonTree {
    JsonTree::Object(Map::new(|h: Text| hosts.contains_key(h), |h: Text| JsonTree::Object(hosts[h])))
}

fn hosts_json(hosts: StrMap<HostVars>) -> (json: Json)
    ensures
        json@ == hosts_tree(hosts@),
{
    let ghost before = hosts@;
    let ghost keys = sorted(before.dom());
    let mut members: StrMap<Json> = StrMap::new();
    let entries = hosts.into_entries();
    let ghost all = entries@;
    for entry in it: entries
        invariant
            it.seq() == all,
            keys == sorted(before.dom()),
            all.len() == keys.len(),
            forall|i: int|
                0 <= i < all.len() ==> {
                    &&& (#[trigger] all[i]).0@ == keys[i]
                    &&& before.contains_key(all[i].0@)
                    &&& all[i].1.deep_view() == before[all[i].0@]
                },
            forall|k: Text| #[trigger] members@.contains_key(k) <==> keys.take(it.index()).contains(k),
            forall|k: Text| #[trigger] members@.contains_key(k) ==> members@[k] == JsonTree::Object(before[k]),
    {
        proof {
            lemma_prefix_step(keys, it.index());
            assert(all[it.index()] == entry);
        }
        let (host, vars) = entry;
        members.insert(host, object(vars));
    }
    proof {
        lemma_prefix_whole(before.dom());
        assert(members@ =~= Map::new(|h: Text| before.contains_key(h), |h: Text| JsonTree::Object(before[h])));
    }
    object(members)
}

/// A list of names in ascending order, each once.
pub open spec fn ordered(names: Seq<Text>) -> Seq<Text> {
    sorted(names.to_set())
}

fn in_order(names: &Vec<String>) -> (list: Vec<String>)
    ensures
        list.deep_view() == ordered(names.deep_view()),
{
    let mut set = StrSet::new();
    set.extend(names);
    assert(set@ =~= names.deep_view().to_set());
    set.to_vec()
}

/// A group in Ansible's dynamic inventory: only what it has.
pub open spec fn ansible_group(group: GroupView) -> JsonTree {
    let hosts = if group.hosts.len() > 0 {
        Map::empty().insert("hosts"@, strings_tree(ordered(group.hosts)))
    } else {
        Map::<Text, JsonTree>::empty()
    };
    let children = if group.children.len() > 0 {
        hosts.insert("children"@, strings_tree(ordered(group.children)))
    } else {
        hosts
    };
    JsonTree::Object(
        match group.vars {
            Some(vars) => if vars == Map::<Text, JsonTree>::empty() {
                children
            } else {
                children.insert("vars"@, JsonTree::Object(vars))
            },
            None => children,
        },
    )
}

fn ansible_group_json(group: &Group) -> (json: Json)
    ensures
        json@ == ansible_group(group@),
{
    let mut members: StrMap<Json> = StrMap::new();
    proof {
        assert(group@.hosts.len() == group.hosts@.len());
        assert(group@.children.len() == group.children@.len());
    }
    if group.hosts.len() > 0 {
        members.insert("hosts".to_owned(), strings_json(&in_order(&group.hosts)));
    }
    if group.children.len() > 0 {
        members.insert("children".to_owned(), strings_json(&in_order(&group.children)));
    }
    if let Some(vars) = &group.vars {
        if !vars.is_empty() {
            members.insert("vars".to_owned(), object(vars.dup()));
        }
    }
    object(members)
}

/// Ansible's dynamic inventory: the hosts under `_meta`, each group under its name.
pub open spec fn ansible_tree(hosts: Map<Text, VarsView>, groups: Map<Text, GroupView>) -> JsonTree {
    JsonTree::Object(
        Map::new(
            |k: Text| k == "_meta"@ || groups.contains_key(k),
            |k: Text|
                if groups.contains_key(k) {
                    ansible_group(groups[k])
                } else {
                    JsonTree::Object(Map::empty().insert("hostvars"@, hosts_tree(hosts)))
                },
        ),
    )
}

/// Renders inventories as Ansible's dynamic inventory.
pub fn render_ansible(datasets: &StrMap<Arc<Dataset>>, config: &StrMap<String>, params: &Json) -> (text: String)
    ensures
        text@ == pretty_text(
            ansible_tree(
                served_hosts(datasets@, config@, params@),
                served_groups(datasets@, config@, params@),
            ),
        ),
{
    let (hosts, groups) = merge_and_filter(datasets, config, params);
    let ghost served = hosts@;
    let mut meta: StrMap<Json> = StrMap::new();
    meta.insert("hostvars".to_owned(), hosts_json(hosts));
    let ghost meta_tree = JsonTree::Object(Map::empty().insert("hostvars"@, hosts_tree(served)));
    let mut inventory: StrMap<Json> = StrMap::new();
    inventory.insert("_meta".to_owned(), object(meta));
    let n: usize = groups.len();
    let ghost names = sorted(groups@.dom());
    let mut i: usize = 0;
    while i < n
        invariant
            i <= n == names.len(),
            names == sorted(groups@.dom()),
            meta_tree == JsonTree::Object(Map::empty().insert("hostvars"@, hosts_tree(served))),
            forall|k: Text| #[trigger]
                inventory@.contains_key(k) <==> k == "_meta"@ || names.take(i as int).contains(k),
            forall|k: Text| #[trigger]
                inventory@.contains_key(k) ==> inventory@[k] == (if names.take(i as int).contains(k) {
                    ansible_group(groups@[k])
                } else {
                    meta_tree
                }),
        decreases n - i,
    {
        proof {
            lemma_prefix_step(names, i as int);
        }
        inventory.insert(groups.key_at(i).clone(), ansible_group_json(groups.value_at(i)));
        i += 1;
    }
    proof {
        lemma_prefix_whole(groups@.dom());
        let want = ansible_tree(served, groups@)->Object_0;
        assert forall|k: Text| #[trigger] inventory@.contains_key(k) <==> want.contains_key(k) by {
            assert(names.take(n as int).contains(k) <==> groups@.contains_key(k));
        }
        assert forall|k: Text| #[trigger] inventory@.contains_key(k) implies inventory@[k] == want[k] by {
            assert(names.take(n as int).contains(k) <==> groups@.contains_key(k));
        }
        assert(inventory@ =~= want);
    }
    object(inventory).pretty()
}

/// A group as JSON: always with all that a group can have.
pub open spec fn group_tree(group: GroupView) -> JsonTree {
    JsonTree::Object(
        Map::empty().insert("hosts"@, strings_tree(group.hosts)).insert(
            "children"@,
            strings_tree(group.children),
        ).insert(
            "vars"@,
            match group.vars {
                Some(vars) => JsonTree::Object(vars),
                None => JsonTree::Null,
            },
        ),
    )
}

fn group_json(group: Group) -> (json: Json)
    ensures
        json@ == group_tree(group@),
{
    let mut members: StrMap<Json> = StrMap::new();
    members.insert("hosts".to_owned(), strings_json(&group.hosts));
    members.insert("children".to_owned(), strings_json(&group.children));
    members.insert(
        "vars".to_owned(),
        match group.vars {
            Some(vars) => object(vars),
            None => Json::Null,
        },
    );
    object(members)
}

/// Hosts and groups as JSON.
pub open spec fn inventory_tree(hosts: Map<Text, VarsView>, groups: Map<Text, GroupView>) -> JsonTree {
    JsonTree::Object(
        Map::empty().insert("hostvars"@, hosts_tree(hosts)).insert(
            "groups"@,
            JsonTree::Object(Map::new(|g: Text| groups.contains_key(g), |g: Text| group_tree(groups[g]))),
        ),
    )
}

fn groups_json(groups: StrMap<Group>) -> (json: Json)
    ensures
        json@ == JsonTree::Object(
            Map::new(|g: Text| groups@.contains_key(g), |g: Text| group_tree(groups@[g])),
        ),
{
    let ghost before = groups@;
    let ghost keys = sorted(before.dom());
    let mut members: StrMap<Json> = StrMap::new();
    let entries = groups.into_entries();
    let ghost all = entries@;
    for entry in it: entries
        invariant
            it.seq() == all,
            keys == sorted(before.dom()),
            all.len() == keys.len(),
            forall|i: int|
                0 <= i < all.len() ==> {
                    &&& (#[trigger] all[i]).0@ == keys[i]
                    &&& before.contains_key(all[i].0@)
                    &&& all[i].1.deep_view() == before[all[i].0@]
                },
            forall|k: Text| #[trigger] members@.contains_key(k) <==> keys.take(it.index()).contains(k),
            forall|k: Text| #[trigger] members@.contains_key(k) ==> members@[k] == group_tree(before[k]),
    {
        proof {
            lemma_prefix_step(keys, it.index());
            assert(all[it.index()] == entry);
        }
        let (name, group) = entry;
        members.insert(name, group_json(group));
    }
    proof {
        lemma_prefix_whole(before.dom());
        assert(members@ =~= Map::new(|g: Text| before.contains_key(g), |g: Text| group_tree(before[g])));
    }
    object(members)
}

/// Renders inventories as they are, merged and filtered.
pub fn render_json(datasets: &StrMap<Arc<Dataset>>, config: &StrMap<String>, params: &Json) -> (text: String)
    ensures
        text@ == pretty_text(
            inventory_tree(
                served_hosts(datasets@, config@, params@),
                served_groups(datasets@, config@, params@),
            ),
        ),
{
    let (hosts, groups) = merge_and_filter(datasets, config, params);
    let mut members: StrMap<Json> = StrMap::new();
    members.insert("hostvars".to_owned(), hosts_json(hosts));
    members.insert("groups".to_owned(), groups_json(groups));
    object(members).pretty()
}

/// A field that has to stand in quotes.
pub open spec fn needs_quotes(field: Text) -> bool {
    field.contains(',') || field.contains('"') || field.contains('\n') || field.contains('\r')
}

/// A text with its quotes doubled.
pub open spec fn quotes_doubled(field: Text) -> Text
    decreases field.len(),
{
    if field.len() == 0 {
        field
    } else if field.last() == '"' {
        quotes_doubled(field.drop_last()).push('"').push('"')
    } else {
        quotes_doubled(field.drop_last()).push(field.last())
    }
}

/// A field of CSV: in quotes, with its own quotes doubled, where it has to be.
pub open spec fn csv_field_text(field: Text) -> Text {
    if needs_quotes(field) {
        "\""@ + quotes_doubled(field) + "\""@
    } else {
        field
    }
}

/// A variable as a cell: a string as it is, nothing for null, else its JSON.
pub open spec fn csv_cell(vars: VarsView, column: Text) -> Text {
    if !vars.contains_key(column) {
        Seq::empty()
    } else {
        match vars[column] {
            JsonTree::Null => Seq::empty(),
            JsonTree::Str(s) => s,
            other => compact_text(other),
        }
    }
}

/// A line of CSV.
pub open spec fn csv_line(cells: Seq<Text>) -> Text {
    join_text(cells.map_values(|c: Text| csv_field_text(c)), ","@) + "\n"@
}

/// The cells of a host: its name, then its columns.
pub open spec fn host_cells(host: Text, vars: VarsView, columns: Seq<Text>) -> Seq<Text> {
    seq![host] + columns.map_values(|c: Text| csv_cell(vars, c))
}

/// The lines of hosts, one after the other.
pub open spec fn csv_lines(hosts: Map<Text, VarsView>, names: Seq<Text>, columns: Seq<Text>) -> Text
    decreases names.len(),
{
    if names.len() == 0 {
        Seq::empty()
    } else {
        csv_lines(hosts, names.drop_last(), columns) + csv_line(
            host_cells(names.last(), hosts[names.last()], columns),
        )
    }
}

/// The names of all variables of all hosts.
pub open spec fn var_names(hosts: Map<Text, VarsView>) -> Set<Text> {
    Set::new(|v: Text| exists|h: Text| #[trigger] hosts.contains_key(h) && hosts[h].contains_key(v))
}

/// The columns after the host: those that are asked for, else all variables in
/// ascending order.
pub open spec fn csv_columns(hosts: Map<Text, VarsView>, wanted: Seq<Text>) -> Seq<Text> {
    if wanted.len() > 0 {
        wanted
    } else {
        sorted(var_names(hosts))
    }
}

/// Hosts as CSV: a header, then a line for each host in ascending order.
pub open spec fn csv_text(hosts: Map<Text, VarsView>, columns: Seq<Text>) -> Text {
    csv_line(seq!["host"@] + columns) + csv_lines(hosts, sorted(hosts.dom()), columns)
}

fn csv_field(raw: &str) -> (field: String)
    ensures
        field@ == csv_field_text(raw@),
{
    let chars = chars_of(raw);
    let mut special: bool = false;
    let mut doubled = String::new();
    let mut i: usize = 0;
    assert(chars@.take(0) =~= Seq::empty());
    assert(quotes_doubled(chars@.take(0)) =~= doubled@);
    while i < chars.len()
        invariant
            i <= chars@.len(),
            chars@ == raw@,
            special == needs_quotes(chars@.take(i as int)),
            doubled@ == quotes_doubled(chars@.take(i as int)),
        decreases chars@.len() - i,
    {
        let c = chars[i];
        proof {
            let next = chars@.take(i + 1);
            let now = chars@.take(i as int);
            assert(next.drop_last() =~= now);
            assert(next =~= now.push(c));
            lemma_push_contains(now, c, ',');
            lemma_push_contains(now, c, '"');
            lemma_push_contains(now, c, '\n');
            lemma_push_contains(now, c, '\r');
        }
        if c == ',' || c == '"' || c == '\n' || c == '\r' {
            special = true;
        }
        push_char(&mut doubled, c);
        if c == '"' {
            push_char(&mut doubled, c);
        }
        i += 1;
    }
    assert(chars@.take(chars@.len() as int) =~= chars@);
    if special {
        cat3("\"", doubled.as_str(), "\"")
    } else {
        raw.to_owned()
    }
}

proof fn lemma_push_contains(text: Text, c: char, d: char)
    ensures
        text.push(c).contains(d) <==> text.contains(d) || c == d,
{
    if text.contains(d) {
        let i = choose|i: int| 0 <= i < text.len() && text[i] == d;
        assert(text.push(c)[i] == d);
    }
    if c == d {
        assert(text.push(c)[text.len() as int] == d);
    }
    if text.push(c).contains(d) {
        let i = choose|i: int| 0 <= i < text.push(c).len() && text.push(c)[i] == d;
        if i < text.len() {
            assert(text[i] == d);
        }
    }
}

fn csv_value(value: Option<&Json>) -> (cell: String)
    ensures
        cell@ == (match value {
            None => Seq::empty(),
            Some(json) => match json@ {
                JsonTree::Null => Seq::empty(),
                JsonTree::Str(s) => s,
                other => compact_text(other),
            },
        }),
{
    match value {
        None => String::new(),
        Some(json) => match json {
            Json::Null => String::new(),
            Json::Str(s) => s.clone(),
            other => other.compact(),
        },
    }
}

fn line(cells: &Vec<String>) -> (text: String)
    ensures
        text@ == csv_line(cells.deep_view()),
{
    let ghost all = cells.deep_view();
    let ghost field_of = |c: Text| csv_field_text(c);
    let mut fields: Vec<String> = Vec::new();
    let mut i: usize = 0;
    while i < cells.len()
        invariant
            i <= cells@.len(),
            all == cells.deep_view(),
            field_of == (|c: Text| csv_field_text(c)),
            fields.deep_view() == all.take(i as int).map_values(field_of),
        decreases cells@.len() - i,
    {
        let ghost before = fields.deep_view();
        fields.push(csv_field(cells[i].as_str()));
        assert(all[i as int] == cells@[i as int]@);
        assert(fields.deep_view() =~= before.push(field_of(all[i as int])));
        assert(all.take(i + 1).map_values(field_of) =~= all.take(i as int).map_values(field_of).push(
            field_of(all[i as int]),
        ));
        i += 1;
    }
    assert(all.take(all.len() as int) =~= all);
    join(&fields, ",").concat("\n")
}

fn all_vars(hosts: &StrMap<HostVars>) -> (names: Vec<String>)
    ensures
        names.deep_view() == sorted(var_names(hosts@)),
{
    let mut found = StrSet::new();
    let n: usize = hosts.len();
    let ghost keys = sorted(hosts@.dom());
    let mut i: usize = 0;
    while i < n
        invariant
            i <= n == keys.len(),
            keys == sorted(hosts@.dom()),
            hosts@.dom().finite(),
            forall|v: Text| #[trigger]
                found@.contains(v) <==> exists|j: int| 0 <= j < i && hosts@[#[trigger] keys[j]].contains_key(v),
        decreases n - i,
    {
        let vars = hosts.value_at(i);
        let m: usize = vars.len();
        let ghost names = sorted(vars@.dom());
        let ghost before = found@;
        let mut j: usize = 0;
        while j < m
            invariant
                j <= m == names.len(),
                names == sorted(vars@.dom()),
                forall|v: Text| #[trigger]
                    found@.contains(v) <==> before.contains(v) || names.take(j as int).contains(v),
            decreases m - j,
        {
            proof {
                lemma_prefix_step(names, j as int);
            }
            found.insert(vars.key_at(j).clone());
            j += 1;
        }
        proof {
            lemma_prefix_whole(vars@.dom());
            assert forall|v: Text| #[trigger]
                found@.contains(v) <==> exists|j: int| 0 <= j < i + 1 && hosts@[#[trigger] keys[j]].contains_key(v) by {
                if before.contains(v) {
                    let j = choose|j: int| 0 <= j < i && hosts@[#[trigger] keys[j]].contains_key(v);
                    assert(0 <= j < i + 1 && hosts@[keys[j]].contains_key(v));
                }
                if vars@.contains_key(v) {
                    assert(hosts@[keys[i as int]].contains_key(v));
                }
                if exists|j: int| 0 <= j < i + 1 && hosts@[#[trigger] keys[j]].contains_key(v) {
                    let j = choose|j: int| 0 <= j < i + 1 && hosts@[#[trigger] keys[j]].contains_key(v);
                    if j < i {
                        assert(before.contains(v));
                    }
                }
            }
        }
        i += 1;
    }
    proof {
        lemma_prefix_whole(hosts@.dom());
        assert forall|v: Text| found@.contains(v) <==> var_names(hosts@).contains(v) by {
            if found@.contains(v) {
                let j = choose|j: int| 0 <= j < n && hosts@[#[trigger] keys[j]].contains_key(v);
                assert(keys.contains(keys[j]));
                assert(hosts@.contains_key(keys[j]));
            }
            if var_names(hosts@).contains(v) {
                let h = choose|h: Text| #[trigger] hosts@.contains_key(h) && hosts@[h].contains_key(v);
                assert(keys.contains(h));
                let j = choose|j: int| 0 <= j < keys.len() && keys[j] == h;
                assert(hosts@[keys[j]].contains_key(v));
            }
        }
        assert(found@ =~= var_names(hosts@));
    }
    found.to_vec()
}

fn host_line(host: &String, vars: &HostVars, columns: &Vec<String>) -> (text: String)
    ensures
        text@ == csv_line(host_cells(host@, vars@, columns.deep_view())),
{
    let ghost all = columns.deep_view();
    let ghost cell_of = |c: Text| csv_cell(vars@, c);
    let mut cells: Vec<String> = Vec::new();
    cells.push(host.clone());
    let mut i: usize = 0;
    assert(cells.deep_view() =~= seq![host@] + all.take(0).map_values(cell_of));
    while i < columns.len()
        invariant
            i <= columns@.len(),
            all == columns.deep_view(),
            cell_of == (|c: Text| csv_cell(vars@, c)),
            cells.deep_view() == seq![host@] + all.take(i as int).map_values(cell_of),
        decreases columns@.len() - i,
    {
        let ghost before = cells.deep_view();
        cells.push(csv_value(vars.get(columns[i].as_str())));
        assert(all[i as int] == columns@[i as int]@);
        assert(cells.deep_view() =~= before.push(cell_of(all[i as int])));
        assert(all.take(i + 1).map_values(cell_of) =~= all.take(i as int).map_values(cell_of).push(
            cell_of(all[i as int]),
        ));
        assert(cells.deep_view() =~= seq![host@] + all.take(i + 1).map_values(cell_of));
        i += 1;
    }
    assert(all.take(all.len() as int) =~= all);
    line(&cells)
}

/// Renders the hosts of inventories as CSV: the name of each host, then the
/// columns that are asked for, or all variables.
pub fn render_csv(datasets: &StrMap<Arc<Dataset>>, config: &StrMap<String>, params: &Json) -> (text: String)
    ensures
        text@ == csv_text(
            served_hosts(datasets@, config@, params@),
            csv_columns(
                served_hosts(datasets@, config@, params@),
                csv_names(setting_of(params@, config@, "columns"@)),
            ),
        ),
{
    let wanted = comma_list(setting(params, config, "columns").as_str());
    let (hosts, _) = merge_and_filter(datasets, config, params);
    assert(wanted.deep_view().len() == wanted@.len());
    let columns = if wanted.len() > 0 {
        wanted
    } else {
        all_vars(&hosts)
    };
    let mut header: Vec<String> = Vec::new();
    header.push("host".to_owned());
    let mut more = columns.dup();
    header.append(&mut more);
    assert(header.deep_view() =~= seq!["host"@] + columns.deep_view());
    let mut text = line(&header);
    let ghost first = text@;
    let n: usize = hosts.len();
    let ghost names = sorted(hosts@.dom());
    let mut i: usize = 0;
    assert(text@ =~= first + csv_lines(hosts@, names.take(0), columns.deep_view()));
    while i < n
        invariant
            i <= n == names.len(),
            names == sorted(hosts@.dom()),
            text@ == first + csv_lines(hosts@, names.take(i as int), columns.deep_view()),
        decreases n - i,
    {
        assert(names.take(i + 1).drop_last() =~= names.take(i as int));
        text.append(host_line(hosts.key_at(i), hosts.value_at(i), &columns).as_str());
        assert(text@ =~= first + csv_lines(hosts@, names.take(i + 1), columns.deep_view()));
        i += 1;
    }
    assert(names.take(n as int) =~= names);
    text
}

} // verus!
