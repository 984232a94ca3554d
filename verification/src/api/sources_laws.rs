//! What holds of what the service tells of its sources.

#[allow(unused_imports)]
use crate::api::sources::{
    arranged, asked_hosts, cached_info, configured, host_status, hosts_told, not_descending, scope_asked, status_is,
    status_ttl, HostStatusModel, SourceStatus, StatusParamsModel,
};
#[allow(unused_imports)]
use crate::application::sync::ScopeModel;
#[allow(unused_imports)]
use crate::application::sync_laws::lemma_filter_map_holds;
#[allow(unused_imports)]
use crate::domain::cache_entry::EntryView;
#[allow(unused_imports)]
use crate::domain::source::{group_ttls, SourceModel};
#[allow(unused_imports)]
use crate::domain::source_laws::lemma_in_filter_map;
#[allow(unused_imports)]
use crate::strmap::{lemma_prefix_whole, lemma_sorted, sorted};
#[allow(unused_imports)]
use crate::text::{csv_names, text_lt, Text};
use vstd::prelude::*;

verus! {

/// A listing has each cached source once, in the order of their names, with its age in
/// whole seconds, whether it is fresh, and how many hosts it has.
pub proof fn law_a_listing_has_every_cached_source(entries: Map<Text, EntryView>, now: int, id: Text, i: int, j: int)
    requires
        entries.dom().finite(),
    ensures
        ({
            let list = sorted(entries.dom()).map_values(cached_info(entries, now));
            &&& list.len() == entries.dom().len()
            &&& entries.contains_key(id) <==> exists|k: int| 0 <= k < list.len() && (#[trigger] list[k]).source_id == id
            &&& 0 <= i < j < list.len() ==> text_lt(list[i].source_id, list[j].source_id)
            &&& 0 <= i < list.len() ==> {
                let entry = entries[list[i].source_id];
                let age = if now >= entry.fetched_at {
                    (now - entry.fetched_at) / 1_000_000_000
                } else {
                    0
                };
                &&& list[i].age_seconds == age
                &&& list[i].is_fresh <==> entry.complete && age < entry.ttl
                &&& list[i].total_hosts == entry.dataset.hostvars.dom().len()
            }
        }),
{
    let ids = sorted(entries.dom());
    let list = ids.map_values(cached_info(entries, now));
    lemma_sorted(entries.dom());
    lemma_prefix_whole(entries.dom());
    if entries.contains_key(id) {
        assert(ids.contains(id));
        let k = choose|k: int| 0 <= k < ids.len() && ids[k] == id;
        assert(list[k].source_id == id);
    }
    if exists|k: int| 0 <= k < list.len() && (#[trigger] list[k]).source_id == id {
        let k = choose|k: int| 0 <= k < list.len() && (#[trigger] list[k]).source_id == id;
        assert(ids[k] == id);
        assert(ids.contains(id));
    }
}

/// A status is asked for one host, for the hosts of a group as it lists them, or for every
/// host with variables. There is none of a host or a group that is not cached.
pub proof fn law_a_status_is_of_what_is_asked_for(entry: EntryView, params: StatusParamsModel)
    ensures
        ({
            let asked = asked_hosts(entry, params);
            &&& params.host is Some ==> (asked is Some <==> entry.dataset.hostvars.contains_key(params.host->0))
            &&& params.host is Some && asked is Some ==> asked->0 == seq![params.host->0]
            &&& params.host is None && params.group is Some ==> (asked is Some <==> entry.dataset.groups.contains_key(
                params.group->0,
            ))
            &&& params.host is None && params.group is Some && asked is Some ==> asked->0
                == entry.dataset.groups[params.group->0].hosts
            &&& params.host is None && params.group is None ==> asked == Some(sorted(entry.dataset.hostvars.dom()))
        }),
{
}

/// The hosts of a status are told with their own time to live, with the one of the first of
/// their groups that has one, or with that of what is cached.
pub proof fn law_a_host_is_told_with_its_ttl(entry: EntryView, source: Option<SourceModel>, host: Text)
    requires
        0 <= entry.ttl <= u64::MAX,
    ensures
        source is None ==> status_ttl(entry, source, host) == entry.ttl,
        source is Some ==> {
            let overrides = source->0.ttl_overrides;
            let by_group = group_ttls(overrides, entry.dataset.groups);
            &&& overrides.hosts.contains_key(host) ==> status_ttl(entry, source, host) == overrides.hosts[host]
            &&& !overrides.hosts.contains_key(host) && by_group.contains_key(host) ==> status_ttl(entry, source, host)
                == by_group[host]
            &&& !overrides.hosts.contains_key(host) && !by_group.contains_key(host) ==> status_ttl(entry, source, host)
                == entry.ttl
        },
{
}

proof fn lemma_same_names(names: Seq<Text>, order: Seq<Text>, name: Text)
    requires
        arranged(names, order),
    ensures
        order.contains(name) <==> names.contains(name),
        order.len() == names.len(),
{
    names.to_multiset_ensures();
    order.to_multiset_ensures();
    assert(order.to_multiset().count(name) == names.to_multiset().count(name));
}

proof fn lemma_statuses_in_order(
    entry: EntryView,
    source: Option<SourceModel>,
    order: Seq<Text>,
    now: int,
)
    requires
        not_descending(order),
    ensures
        ({
            let hosts = order.filter_map(host_status(entry, source, now));
            &&& forall|i: int| 0 <= i < hosts.len() ==> order.contains((#[trigger] hosts[i]).hostname)
            &&& forall|i: int, j: int|
                #![trigger hosts[i], hosts[j]]
                0 <= i < j < hosts.len() ==> !text_lt(hosts[j].hostname, hosts[i].hostname)
        }),
    decreases order.len(),
{
    let f = host_status(entry, source, now);
    if order.len() > 0 {
        let n = order.len() - 1;
        let rest = order.take(n);
        assert forall|i: int, j: int| #![trigger rest[i], rest[j]] 0 <= i < j < rest.len() implies !text_lt(
            rest[j],
            rest[i],
        ) by {
            assert(rest[i] == order[i] && rest[j] == order[j]);
        }
        lemma_statuses_in_order(entry, source, rest, now);
        order.lemma_filter_map_take_succ(f, n);
        assert(order.take(n + 1) =~= order);
        let before = rest.filter_map(f);
        let hosts = order.filter_map(f);
        assert forall|i: int| 0 <= i < hosts.len() implies order.contains((#[trigger] hosts[i]).hostname) by {
            if i < before.len() {
                assert(hosts[i] == before[i]);
                let k = choose|k: int| 0 <= k < rest.len() && rest[k] == before[i].hostname;
                assert(order[k] == before[i].hostname);
            } else {
                assert(hosts[i].hostname == order[n]);
            }
        }
        assert forall|i: int, j: int| #![trigger hosts[i], hosts[j]] 0 <= i < j < hosts.len() implies !text_lt(
            hosts[j].hostname,
            hosts[i].hostname,
        ) by {
            assert(hosts[i] == before[i]);
            if j < before.len() {
                assert(hosts[j] == before[j]);
            } else {
                assert(rest.contains(before[i].hostname));
                let k = choose|k: int| 0 <= k < rest.len() && rest[k] == before[i].hostname;
                assert(order[k] == before[i].hostname);
            }
        }
    } else {
        assert(order.filter_map(f) =~= Seq::empty());
    }
}

/// A status tells of each host that is asked for and was ever gathered, in the order of
/// their names: how old it is in whole seconds, its time to live, and that it is fresh
/// where it is younger than that.
pub proof fn law_a_status_tells_of_each_host(
    entry: EntryView,
    source: Option<SourceModel>,
    names: Seq<Text>,
    now: int,
    hosts: Seq<HostStatusModel>,
    host: Text,
    i: int,
    j: int,
)
    requires
        hosts_told(entry, source, names, now, hosts),
    ensures
        (exists|k: int| 0 <= k < hosts.len() && (#[trigger] hosts[k]).hostname == host) <==> names.contains(host)
            && entry.stamps.contains_key(host),
        0 <= i < j < hosts.len() ==> !text_lt(hosts[j].hostname, hosts[i].hostname),
        0 <= i < hosts.len() ==> {
            let at = entry.stamps[hosts[i].hostname];
            let age = if now >= at {
                (now - at) / 1_000_000_000
            } else {
                0
            };
            &&& hosts[i].age_seconds == age
            &&& hosts[i].ttl_seconds == status_ttl(entry, source, hosts[i].hostname)
            &&& hosts[i].is_fresh <==> age < hosts[i].ttl_seconds
        },
{
    let f = host_status(entry, source, now);
    let order = choose|order: Seq<Text>| #[trigger] arranged(names, order) && hosts == order.filter_map(f);
    lemma_statuses_in_order(entry, source, order, now);
    lemma_same_names(names, order, host);
    if names.contains(host) && entry.stamps.contains_key(host) {
        let told = f(host)->0;
        assert(f(host) == Some(told));
        lemma_in_filter_map(order, f, told);
        assert(hosts.contains(told));
        let k = choose|k: int| 0 <= k < hosts.len() && hosts[k] == told;
        assert(hosts[k].hostname == host);
    }
    if exists|k: int| 0 <= k < hosts.len() && (#[trigger] hosts[k]).hostname == host {
        let k = choose|k: int| 0 <= k < hosts.len() && (#[trigger] hosts[k]).hostname == host;
        assert(order.contains(hosts[k].hostname));
        assert(hosts.contains(hosts[k]));
        lemma_in_filter_map(order, f, hosts[k]);
        let x = choose|x: Text| #[trigger] order.contains(x) && f(x) == Some(hosts[k]);
        assert(x == host);
    }
    if 0 <= i < hosts.len() {
        assert(hosts.contains(hosts[i]));
        lemma_in_filter_map(order, f, hosts[i]);
        let x = choose|x: Text| #[trigger] order.contains(x) && f(x) == Some(hosts[i]);
        assert(x == hosts[i].hostname);
    }
}

/// A status is given where the source is cached and what is asked for is in it; it tells of
/// the whole inventory beside the hosts.
pub proof fn law_a_status_is_given_where_there_is_one(
    entries: Map<Text, EntryView>,
    sources: Map<Text, SourceModel>,
    id: Text,
    params: StatusParamsModel,
    now: int,
    status: Option<SourceStatus>,
)
    requires
        status_is(entries, sources, id, params, now, status),
    ensures
        status is Some <==> entries.contains_key(id) && asked_hosts(entries[id], params) is Some,
        status is Some ==> {
            let s = status->0;
            let entry = entries[id];
            let age = if now >= entry.fetched_at {
                (now - entry.fetched_at) / 1_000_000_000
            } else {
                0
            };
            &&& s.source_id@ == id
            &&& s.dataset_age_seconds == age
            &&& s.dataset_is_fresh <==> entry.complete && age < entry.ttl
            &&& s.ttl_seconds == entry.ttl
            &&& s.total_hosts == s.hosts@.len()
            &&& sources.contains_key(id) ==> hosts_told(
                entry,
                Some(sources[id]),
                asked_hosts(entry, params)->0,
                now,
                s.hosts.deep_view(),
            )
            &&& !sources.contains_key(id) ==> hosts_told(
                entry,
                None,
                asked_hosts(entry, params)->0,
                now,
                s.hosts.deep_view(),
            )
        },
{
}

/// A sync is of the hosts that are named, where any are; else of the group, where one is
/// named; else of everything.
pub proof fn law_a_sync_is_of_what_is_named(host: Option<Text>, group: Option<Text>)
    ensures
        host is Some && csv_names(host->0).len() > 0 ==> scope_asked(host, group) == ScopeModel::Hosts(
            csv_names(host->0),
        ),
        (host is None || csv_names(host->0).len() == 0) && group is Some ==> scope_asked(host, group)
            == ScopeModel::Group(group->0),
        (host is None || csv_names(host->0).len() == 0) && group is None ==> scope_asked(host, group)
            == ScopeModel::Full,
{
}

} // verus!
