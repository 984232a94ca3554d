//! What holds of the hosts that a source takes from another, and of its records.

#[allow(unused_imports)]
use crate::application::sync::recorded;
#[allow(unused_imports)]
use crate::application::sync_laws::lemma_filter_map_holds;
#[allow(unused_imports)]
use crate::domain::dataset::{DatasetView, GroupView};
#[allow(unused_imports)]
use crate::domain::source::{
    address_warning, addresses_of, ansible_host, first_group_ttl, group_ttls, group_warning, host_warning,
    in_named_group, pattern_is_empty, resolved, scope_of, selected_hosts, spec_of, ttl_of, ConnectVia, HostSpecModel,
    HostsFromSourceModel, SourceModel, TtlOverridesModel,
};
#[allow(unused_imports)]
use crate::domain::sync_health::RecordView;
#[allow(unused_imports)]
use crate::json::JsonTree;
#[allow(unused_imports)]
use crate::strmap::{ascending, lemma_prefix_step, lemma_sorted, sorted};
#[allow(unused_imports)]
use crate::text::{lemma_text_lt_irreflexive, lemma_text_lt_transitive, text_lt, Text};
use vstd::prelude::*;

verus! {

/// A host has at least one address, and none twice.
pub proof fn law_addresses_are_distinct(via: ConnectVia, host: Text, address: Option<Text>)
    ensures
        addresses_of(via, host, address) matches Some(list) ==> list.len() > 0 && list.no_duplicates(),
        addresses_of(via, host, address) is None <==> via == ConnectVia::AnsibleHost && address is None,
{
}

/// The specs of ascending hosts stand in ascending order.
proof fn lemma_specs_ascend(from: HostsFromSourceModel, dataset: DatasetView, hosts: Seq<Text>, n: int)
    requires
        ascending(hosts),
        0 <= n <= hosts.len(),
    ensures
        ({
            let specs = hosts.take(n).filter_map(spec_of(from, dataset));
            &&& forall|i: int| 0 <= i < specs.len() ==> hosts.take(n).contains((#[trigger] specs[i]).name)
            &&& forall|i: int, j: int|
                #![trigger specs[i], specs[j]]
                0 <= i < j < specs.len() ==> text_lt(specs[i].name, specs[j].name)
            &&& forall|i: int|
                0 <= i < specs.len() ==> addresses_of(
                    from.connect_via,
                    (#[trigger] specs[i]).name,
                    ansible_host(dataset, specs[i].name),
                ) == Some(specs[i].addresses)
        }),
    decreases n,
{
    let f = spec_of(from, dataset);
    if n > 0 {
        lemma_specs_ascend(from, dataset, hosts, n - 1);
        hosts.lemma_filter_map_take_succ(f, n - 1);
        lemma_prefix_step(hosts, n - 1);
        let before = hosts.take(n - 1).filter_map(f);
        let specs = hosts.take(n).filter_map(f);
        let earlier = hosts.take(n - 1);
        assert forall|i: int| 0 <= i < specs.len() implies hosts.take(n).contains((#[trigger] specs[i]).name) by {
            if i < before.len() {
                assert(specs[i] == before[i]);
            }
        }
        assert forall|i: int, j: int| #![trigger specs[i], specs[j]] 0 <= i < j < specs.len() implies text_lt(
            specs[i].name,
            specs[j].name,
        ) by {
            assert(specs[i] == before[i]);
            if j < before.len() {
                assert(specs[j] == before[j]);
            } else {
                assert(earlier.contains(before[i].name));
                let k = choose|k: int| 0 <= k < earlier.len() && earlier[k] == before[i].name;
                assert(hosts[k] == before[i].name);
            }
        }
        assert forall|i: int| 0 <= i < specs.len() implies addresses_of(
            from.connect_via,
            (#[trigger] specs[i]).name,
            ansible_host(dataset, specs[i].name),
        ) == Some(specs[i].addresses) by {
            if i < before.len() {
                assert(specs[i] == before[i]);
            }
        }
    } else {
        assert(hosts.take(0).filter_map(f) =~= Seq::empty());
    }
}

/// The hosts to connect to stand in ascending order, no host twice, and each has an
/// address to try.
pub proof fn law_resolved_hosts_are_distinct(from: HostsFromSourceModel, dataset: DatasetView)
    requires
        selected_hosts(from.match_pattern, dataset).finite(),
    ensures
        ({
            let specs = resolved(from, dataset).0;
            &&& forall|i: int, j: int|
                #![trigger specs[i], specs[j]]
                0 <= i < j < specs.len() ==> specs[i].name != specs[j].name && text_lt(specs[i].name, specs[j].name)
            &&& forall|i: int| 0 <= i < specs.len() ==> (#[trigger] specs[i]).addresses.len() > 0
        }),
{
    let hosts = sorted(selected_hosts(from.match_pattern, dataset));
    lemma_sorted(selected_hosts(from.match_pattern, dataset));
    lemma_specs_ascend(from, dataset, hosts, hosts.len() as int);
    assert(hosts.take(hosts.len() as int) =~= hosts);
    let specs = resolved(from, dataset).0;
    assert forall|i: int, j: int| #![trigger specs[i], specs[j]] 0 <= i < j < specs.len() implies specs[i].name
        != specs[j].name && text_lt(specs[i].name, specs[j].name) by {
        lemma_text_lt_irreflexive(specs[i].name);
    }
    assert forall|i: int| 0 <= i < specs.len() implies (#[trigger] specs[i]).addresses.len() > 0 by {
        law_addresses_are_distinct(from.connect_via, specs[i].name, ansible_host(dataset, specs[i].name));
    }
}

/// An empty pattern takes every host; one that names something takes the members of its
/// groups and the hosts it names, as far as they are known.
pub proof fn law_a_pattern_takes_the_union(from: HostsFromSourceModel, dataset: DatasetView, host: Text)
    ensures
        pattern_is_empty(from.match_pattern) ==> (selected_hosts(from.match_pattern, dataset).contains(host)
            <==> dataset.hostvars.contains_key(host)),
        in_named_group(dataset.groups, from.match_pattern.groups, host) ==> selected_hosts(
            from.match_pattern,
            dataset,
        ).contains(host),
        from.match_pattern.hosts.contains(host) && dataset.hostvars.contains_key(host) ==> selected_hosts(
            from.match_pattern,
            dataset,
        ).contains(host),
{
    if in_named_group(dataset.groups, from.match_pattern.groups, host) {
        assert(from.match_pattern.groups.len() > 0);
    }
}

/// What a source says it covers comes before what follows from the hosts that it takes.
pub proof fn law_an_explicit_scope_comes_first(source: SourceModel)
    ensures
        source.advertise_scope matches Some(scope) ==> scope_of(source) is Some && scope_of(source)->0.groups
            == scope.groups && scope_of(source)->0.hosts == scope.hosts && !scope_of(source)->0.catch_all,
        source.advertise_scope is None && source.hosts_from_source is None ==> scope_of(source) is None,
{
}

/// A success clears the error and the count of failures; a failure keeps the last
/// success, and counts one more; neither says anything of another source.
pub proof fn law_a_record_tells_the_last_attempt(
    before: Map<Text, RecordView>,
    after: Map<Text, RecordView>,
    id: Text,
    error: Option<Text>,
    now: int,
    other: Text,
)
    requires
        recorded(before, after, id, error, now),
    ensures
        after.contains_key(id),
        after[id].last_attempt == now,
        after[id].last_error == error,
        error is None ==> after[id].consecutive_failures == 0 && after[id].last_success == Some(now),
        error is Some && before.contains_key(id) ==> after[id].last_success == before[id].last_success,
        error is Some && !before.contains_key(id) ==> after[id].last_success is None
            && after[id].consecutive_failures == 1,
        error is Some && before.contains_key(id) && before[id].consecutive_failures < u32::MAX
            ==> after[id].consecutive_failures == before[id].consecutive_failures + 1,
        other != id ==> after.contains_key(other) == before.contains_key(other) && (before.contains_key(other)
            ==> after[other] == before[other]),
{
}

/// A pattern that names nothing takes every host with variables. Any other takes the hosts
/// that a group of its groups lists, and the hosts that it names and that the inventory
/// knows: by their variables or from a group.
pub proof fn law_a_pattern_takes_what_it_names(from: HostsFromSourceModel, dataset: DatasetView, host: Text)
    ensures
        ({
            let pattern = from.match_pattern;
            let taken = selected_hosts(pattern, dataset).contains(host);
            &&& pattern.groups.len() == 0 && pattern.hosts.len() == 0 ==> (taken <==> dataset.hostvars.contains_key(
                host,
            ))
            &&& pattern.groups.len() > 0 || pattern.hosts.len() > 0 ==> (taken <==> (exists|g: Text|
                pattern.groups.contains(g) && #[trigger] dataset.groups.contains_key(g)
                    && dataset.groups[g].hosts.contains(host)) || (pattern.hosts.contains(host) && (
            dataset.hostvars.contains_key(host) || exists|g: Text| #[trigger]
                dataset.groups.contains_key(g) && dataset.groups[g].hosts.contains(host))))
        }),
{
    let pattern = from.match_pattern;
    if in_named_group(dataset.groups, pattern.groups, host) {
        let i = choose|i: int|
            0 <= i < pattern.groups.len() && dataset.groups.contains_key(#[trigger] pattern.groups[i])
                && dataset.groups[pattern.groups[i]].hosts.contains(host);
        assert(pattern.groups.contains(pattern.groups[i]));
    }
    if exists|g: Text|
        pattern.groups.contains(g) && #[trigger] dataset.groups.contains_key(g) && dataset.groups[g].hosts.contains(
            host,
        ) {
        let g = choose|g: Text|
            pattern.groups.contains(g) && #[trigger] dataset.groups.contains_key(g) && dataset.groups[g].hosts.contains(
                host,
            );
        let i = choose|i: int| 0 <= i < pattern.groups.len() && pattern.groups[i] == g;
        assert(dataset.groups.contains_key(pattern.groups[i]));
    }
}

/// A host is reached by its name, by the address that its variable `ansible_host` gives, or
/// by both, in the order that is asked for. Without an address its name is all there is,
/// and where only the address will do there is nothing.
pub proof fn law_a_host_is_reached_as_asked(how: ConnectVia, host: Text, address: Option<Text>)
    ensures
        how is Hostname ==> addresses_of(how, host, address) == Some(seq![host]),
        how is AnsibleHost && address is Some ==> addresses_of(how, host, address) == Some(seq![address->0]),
        how is AnsibleHost && address is None ==> addresses_of(how, host, address) is None,
        !(how is AnsibleHost) && address is None ==> addresses_of(how, host, address) == Some(seq![host]),
        !(how is AnsibleHost) && address == Some(host) ==> addresses_of(how, host, address) == Some(seq![host]),
        how is AnsibleHostThenHostname && address is Some && address->0 != host ==> addresses_of(how, host, address)
            == Some(seq![address->0, host]),
        how is HostnameThenAnsibleHost && address is Some && address->0 != host ==> addresses_of(how, host, address)
            == Some(seq![host, address->0]),
{
}

/// The address of a host is the text of its variable `ansible_host`, where it has one.
pub proof fn law_an_address_is_a_variable(dataset: DatasetView, host: Text)
    ensures
        ansible_host(dataset, host) is Some <==> dataset.hostvars.contains_key(host)
            && dataset.hostvars[host].contains_key("ansible_host"@) && dataset.hostvars[host]["ansible_host"@] is Str,
        ansible_host(dataset, host) is Some ==> dataset.hostvars[host]["ansible_host"@] == JsonTree::Str(
            ansible_host(dataset, host)->0,
        ),
{
}

pub(crate) proof fn lemma_in_filter_map<A, B>(s: Seq<A>, f: spec_fn(A) -> Option<B>, y: B)
    ensures
        s.filter_map(f).contains(y) <==> exists|x: A| #[trigger] s.contains(x) && f(x) == Some(y),
{
    if s.filter_map(f).contains(y) {
        s.lemma_filter_map_contains(f, y);
        let i = choose|i: int| 0 <= i < s.len() && f(#[trigger] s[i]) == Some(y);
        assert(s.contains(s[i]));
    }
    if exists|x: A| #[trigger] s.contains(x) && f(x) == Some(y) {
        let x = choose|x: A| #[trigger] s.contains(x) && f(x) == Some(y);
        lemma_filter_map_holds(s, f, x);
    }
}

/// A host that is taken is handed over with its addresses where it has any; no other is.
pub proof fn law_a_host_is_handed_over_with_its_addresses(
    from: HostsFromSourceModel,
    dataset: DatasetView,
    host: Text,
)
    requires
        selected_hosts(from.match_pattern, dataset).finite(),
    ensures
        ({
            let specs = resolved(from, dataset).0;
            let addresses = addresses_of(from.connect_via, host, ansible_host(dataset, host));
            (exists|i: int| 0 <= i < specs.len() && (#[trigger] specs[i]).name == host) <==> selected_hosts(
                from.match_pattern,
                dataset,
            ).contains(host) && addresses is Some
        }),
        forall|i: int|
            0 <= i < resolved(from, dataset).0.len() && (#[trigger] resolved(from, dataset).0[i]).name == host
                ==> addresses_of(from.connect_via, host, ansible_host(dataset, host)) == Some(
                resolved(from, dataset).0[i].addresses,
            ),
{
    let chosen = selected_hosts(from.match_pattern, dataset);
    let hosts = sorted(chosen);
    let f = spec_of(from, dataset);
    lemma_sorted(chosen);
    lemma_specs_ascend(from, dataset, hosts, hosts.len() as int);
    assert(hosts.take(hosts.len() as int) =~= hosts);
    assert(hosts.to_set().contains(host) <==> hosts.contains(host));
    let specs = resolved(from, dataset).0;
    let addresses = addresses_of(from.connect_via, host, ansible_host(dataset, host));
    if chosen.contains(host) && addresses is Some {
        let spec = HostSpecModel { name: host, addresses: addresses->0 };
        assert(f(host) == Some(spec));
        lemma_in_filter_map(hosts, f, spec);
        assert(specs.contains(spec));
        let i = choose|i: int| 0 <= i < specs.len() && specs[i] == spec;
        assert(specs[i].name == host);
    }
}

/// What a resolution warns of: each group and each host of the pattern that the inventory
/// does not know, and each host that is taken and cannot be reached.
pub proof fn law_what_is_missing_is_told(from: HostsFromSourceModel, dataset: DatasetView, warning: Text)
    requires
        selected_hosts(from.match_pattern, dataset).finite(),
    ensures
        resolved(from, dataset).1.contains(warning) <==> {
            ||| exists|g: Text| #[trigger]
                from.match_pattern.groups.contains(g) && !dataset.groups.contains_key(g) && warning
                    == "match_pattern group '"@ + g + "' does not exist in source '"@ + from.source + "'"@
            ||| exists|h: Text| #[trigger]
                from.match_pattern.hosts.contains(h) && !dataset.hostvars.contains_key(h) && !(exists|g: Text|
                    #[trigger] dataset.groups.contains_key(g) && dataset.groups[g].hosts.contains(h)) && warning
                    == "match_pattern host '"@ + h + "' does not exist in source '"@ + from.source + "'"@
            ||| exists|h: Text| #[trigger]
                selected_hosts(from.match_pattern, dataset).contains(h) && from.connect_via is AnsibleHost
                    && ansible_host(dataset, h) is None && warning == "host '"@ + h
                    + "' has no ansible_host variable and connect_via is ansible_host \u{2014} skipped"@
        },
{
    let chosen = selected_hosts(from.match_pattern, dataset);
    let hosts = sorted(chosen);
    lemma_sorted(chosen);
    assert forall|h: Text| #[trigger] chosen.contains(h) <==> hosts.contains(h) by {
        assert(hosts.to_set().contains(h) <==> hosts.contains(h));
    }
    let groups = from.match_pattern.groups;
    let named = from.match_pattern.hosts;
    let fg = group_warning(from, dataset);
    let fh = host_warning(from, dataset);
    let fa = address_warning(from, dataset);
    let a = groups.filter_map(fg);
    let b = named.filter_map(fh);
    let c = hosts.filter_map(fa);
    lemma_in_filter_map(groups, fg, warning);
    lemma_in_filter_map(named, fh, warning);
    lemma_in_filter_map(hosts, fa, warning);
    let all = resolved(from, dataset).1;
    assert(all == a + b + c);
    assert(all.contains(warning) <==> a.contains(warning) || b.contains(warning) || c.contains(warning)) by {
        if a.contains(warning) {
            let i = choose|i: int| 0 <= i < a.len() && a[i] == warning;
            assert(all[i] == warning);
        }
        if b.contains(warning) {
            let i = choose|i: int| 0 <= i < b.len() && b[i] == warning;
            assert(all[a.len() + i] == warning);
        }
        if c.contains(warning) {
            let i = choose|i: int| 0 <= i < c.len() && c[i] == warning;
            assert(all[a.len() + b.len() + i] == warning);
        }
    }
    if a.contains(warning) {
        let g = choose|g: Text| #[trigger] groups.contains(g) && fg(g) == Some(warning);
        assert(groups.contains(g));
    }
    if b.contains(warning) {
        let h = choose|h: Text| #[trigger] named.contains(h) && fh(h) == Some(warning);
        assert(named.contains(h));
    }
    if c.contains(warning) {
        let h = choose|h: Text| #[trigger] hosts.contains(h) && fa(h) == Some(warning);
        assert(chosen.contains(h));
    }
    if exists|g: Text| #[trigger] groups.contains(g) && fg(g) == Some(warning) {
        assert(a.contains(warning));
    }
    assert forall|g: Text| #[trigger] groups.contains(g) && !dataset.groups.contains_key(g) && warning
        == "match_pattern group '"@ + g + "' does not exist in source '"@ + from.source
        + "'"@ implies all.contains(warning) by {
        assert(fg(g) == Some(warning));
    }
    assert forall|h: Text| #[trigger] named.contains(h) && !dataset.hostvars.contains_key(h) && !(exists|g: Text|
        #[trigger] dataset.groups.contains_key(g) && dataset.groups[g].hosts.contains(h)) && warning
        == "match_pattern host '"@ + h + "' does not exist in source '"@ + from.source
        + "'"@ implies all.contains(warning) by {
        assert(fh(h) == Some(warning));
    }
    assert forall|h: Text| #[trigger] chosen.contains(h) && from.connect_via is AnsibleHost && ansible_host(dataset, h)
        is None && warning == "host '"@ + h
        + "' has no ansible_host variable and connect_via is ansible_host \u{2014} skipped"@ implies all.contains(
        warning,
    ) by {
        assert(fa(h) == Some(warning));
        assert(hosts.contains(h));
    }
}

proof fn lemma_first_group(ttls: Map<Text, u64>, groups: Map<Text, GroupView>, names: Seq<Text>, host: Text)
    ensures
        first_group_ttl(ttls, groups, names, host) is Some <==> exists|i: int|
            0 <= i < names.len() && groups.contains_key(#[trigger] names[i]) && groups[names[i]].hosts.contains(host),
        first_group_ttl(ttls, groups, names, host) is Some ==> exists|i: int|
            0 <= i < names.len() && groups.contains_key(#[trigger] names[i]) && groups[names[i]].hosts.contains(host)
                && first_group_ttl(ttls, groups, names, host) == Some(ttls[names[i]]) && forall|j: int|
                0 <= j < i ==> !(groups.contains_key(#[trigger] names[j]) && groups[names[j]].hosts.contains(host)),
    decreases names.len(),
{
    if names.len() > 0 {
        let rest = names.drop_last();
        lemma_first_group(ttls, groups, rest, host);
        assert forall|i: int| 0 <= i < rest.len() implies #[trigger] names[i] == rest[i] by {}
        if first_group_ttl(ttls, groups, rest, host) is Some {
            let i = choose|i: int|
                0 <= i < rest.len() && groups.contains_key(#[trigger] rest[i]) && groups[rest[i]].hosts.contains(host)
                    && first_group_ttl(ttls, groups, rest, host) == Some(ttls[rest[i]]) && forall|j: int|
                    0 <= j < i ==> !(groups.contains_key(#[trigger] rest[j]) && groups[rest[j]].hosts.contains(host));
            assert(names[i] == rest[i]);
            assert forall|j: int| 0 <= j < i implies !(groups.contains_key(#[trigger] names[j])
                && groups[names[j]].hosts.contains(host)) by {
                assert(rest[j] == names[j]);
            }
        } else {
            assert forall|j: int| 0 <= j < names.len() - 1 implies !(groups.contains_key(#[trigger] names[j])
                && groups[names[j]].hosts.contains(host)) by {
                assert(rest[j] == names[j]);
            }
            assert(names[names.len() - 1] == names.last());
        }
    }
}

/// A host has a time to live from a group where a group with one lists it; of several such
/// groups, the first by name decides.
pub proof fn law_the_first_group_by_name_decides(
    overrides: TtlOverridesModel,
    groups: Map<Text, GroupView>,
    host: Text,
)
    requires
        overrides.groups.dom().finite(),
    ensures
        group_ttls(overrides, groups).contains_key(host) <==> exists|g: Text| #[trigger]
            overrides.groups.contains_key(g) && groups.contains_key(g) && groups[g].hosts.contains(host),
        group_ttls(overrides, groups).contains_key(host) ==> exists|g: Text| #[trigger]
            overrides.groups.contains_key(g) && groups.contains_key(g) && groups[g].hosts.contains(host) && group_ttls(
                overrides,
                groups,
            )[host] == overrides.groups[g] && forall|other: Text| #[trigger]
                overrides.groups.contains_key(other) && text_lt(other, g) ==> !(groups.contains_key(other)
                    && groups[other].hosts.contains(host)),
{
    let names = sorted(overrides.groups.dom());
    lemma_sorted(overrides.groups.dom());
    lemma_first_group(overrides.groups, groups, names, host);
    assert forall|g: Text| #[trigger] overrides.groups.contains_key(g) <==> names.contains(g) by {
        assert(names.to_set().contains(g) <==> names.contains(g));
    }
    if group_ttls(overrides, groups).contains_key(host) {
        let i = choose|i: int|
            0 <= i < names.len() && groups.contains_key(#[trigger] names[i]) && groups[names[i]].hosts.contains(host)
                && first_group_ttl(overrides.groups, groups, names, host) == Some(overrides.groups[names[i]])
                && forall|j: int|
                0 <= j < i ==> !(groups.contains_key(#[trigger] names[j]) && groups[names[j]].hosts.contains(host));
        let g = names[i];
        assert(names.contains(g));
        assert(overrides.groups.contains_key(g));
        assert forall|other: Text| #[trigger] overrides.groups.contains_key(other) && text_lt(other, g) implies !(
        groups.contains_key(other) && groups[other].hosts.contains(host)) by {
            let j = choose|j: int| 0 <= j < names.len() && names[j] == other;
            if j >= i {
                lemma_text_lt_irreflexive(g);
                if j > i {
                    lemma_text_lt_transitive(g, other, g);
                }
            }
        }
    }
    if exists|g: Text| #[trigger]
        overrides.groups.contains_key(g) && groups.contains_key(g) && groups[g].hosts.contains(host) {
        let g = choose|g: Text| #[trigger]
            overrides.groups.contains_key(g) && groups.contains_key(g) && groups[g].hosts.contains(host);
        let i = choose|i: int| 0 <= i < names.len() && names[i] == g;
        assert(groups.contains_key(names[i]));
    }
}

/// A host's own time to live comes before that of its groups, and that before the one of
/// the source.
pub proof fn law_the_nearest_ttl_decides(
    overrides: TtlOverridesModel,
    from_groups: Map<Text, u64>,
    host: Text,
    fallback: u64,
)
    ensures
        overrides.hosts.contains_key(host) ==> ttl_of(overrides, from_groups, host, fallback) == overrides.hosts[host],
        !overrides.hosts.contains_key(host) && from_groups.contains_key(host) ==> ttl_of(
            overrides,
            from_groups,
            host,
            fallback,
        ) == from_groups[host],
        !overrides.hosts.contains_key(host) && !from_groups.contains_key(host) ==> ttl_of(
            overrides,
            from_groups,
            host,
            fallback,
        ) == fallback,
{
}

/// Where no scope is given, a source that takes its hosts from another advertises what it
/// takes: everything where its pattern names nothing.
pub proof fn law_a_source_advertises_what_it_takes(source: SourceModel)
    requires
        source.advertise_scope is None,
        source.hosts_from_source is Some,
    ensures
        ({
            let pattern = source.hosts_from_source->0.match_pattern;
            &&& scope_of(source) is Some
            &&& scope_of(source)->0.groups == pattern.groups
            &&& scope_of(source)->0.hosts == pattern.hosts
            &&& scope_of(source)->0.catch_all <==> pattern.groups.len() == 0 && pattern.hosts.len() == 0
        }),
{
}

} // verus!
