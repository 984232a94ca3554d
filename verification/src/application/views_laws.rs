//! How a view routes and sums up its members.

#[allow(unused_imports)]
use crate::application::sync_laws::lemma_filter_map_holds;
#[allow(unused_imports)]
use crate::application::views::{
    child_in_view_group, first_vars, has_group, in_view_group, lemma_owner, longest_ttl, member_claims,
    member_group_ttls, member_has, member_ttl, owned_by, owner, routed, selection_of, served_set, serves, snapped,
    unclaimed_name, view_age, view_fresh, view_group, view_groups, view_hostvars, MemberModel, MemberSnapshot,
    MergedDataset, MergedGroup, ROUTING_TABLE_WORTH_IT,
};
#[allow(unused_imports)]
use crate::clock::seconds_since;
#[allow(unused_imports)]
use crate::domain::cache_laws::lemma_filter_holds;
#[allow(unused_imports)]
use crate::domain::cache_entry::EntryView;
#[allow(unused_imports)]
use crate::domain::dataset::GroupView;
#[allow(unused_imports)]
use crate::domain::source::{group_ttls, in_named_group, in_some_group, SourceModel};
#[allow(unused_imports)]
use crate::domain::source_laws::lemma_in_filter_map;
#[allow(unused_imports)]
use crate::domain::view::ViewMemberModel;
#[allow(unused_imports)]
use crate::strmap::{ascending, lemma_prefix_whole, lemma_sorted, sorted};
#[allow(unused_imports)]
use crate::text::{csv_names, Text};
use vstd::prelude::*;

verus! {

/// A host belongs to the first member that claims it: where several do, the order in
/// which they are declared decides.
pub proof fn law_the_first_claim_wins(members: Seq<MemberModel>, host: Text, i: int)
    requires
        0 <= i < members.len(),
        member_claims(members[i], host),
    ensures
        owner(members, host) is Some,
        owner(members, host)->0 <= i,
        member_claims(members[owner(members, host)->0], host),
        (forall|j: int| 0 <= j < i ==> !member_claims(#[trigger] members[j], host)) ==> owner(members, host) == Some(
            i,
        ),
{
    lemma_owner(members, host);
}

proof fn lemma_routed(members: Seq<MemberModel>, hosts: Seq<Text>, n: int, host: Text)
    requires
        0 <= n,
    ensures
        ({
            let parts = routed(members, hosts, n);
            &&& forall|k: int|
                0 <= k < parts.len() ==> 0 <= (#[trigger] parts[k]).0 < n && parts[k].1 == owned_by(
                    members,
                    hosts,
                    parts[k].0,
                ) && parts[k].1.len() > 0
            &&& forall|k: int, l: int|
                #![trigger parts[k], parts[l]]
                0 <= k < l < parts.len() ==> parts[k].0 < parts[l].0
            &&& (exists|k: int| 0 <= k < parts.len() && (#[trigger] parts[k]).1.contains(host)) <==> hosts.contains(
                host,
            ) && owner(members, host) is Some && 0 <= owner(members, host)->0 < n
        }),
    decreases n,
{
    let parts = routed(members, hosts, n);
    if n > 0 {
        lemma_routed(members, hosts, n - 1, host);
        let before = routed(members, hosts, n - 1);
        let own = owned_by(members, hosts, n - 1);
        lemma_filter_holds(hosts, |h: Text| owner(members, h) == Some(n - 1), host);
        if own.len() > 0 {
            assert forall|k: int| 0 <= k < parts.len() implies 0 <= (#[trigger] parts[k]).0 < n && parts[k].1
                == owned_by(members, hosts, parts[k].0) && parts[k].1.len() > 0 by {
                if k < before.len() {
                    assert(parts[k] == before[k]);
                }
            }
            assert forall|k: int, l: int| #![trigger parts[k], parts[l]] 0 <= k < l < parts.len() implies parts[k].0
                < parts[l].0 by {
                assert(parts[k] == before[k]);
                if l < before.len() {
                    assert(parts[l] == before[l]);
                }
            }
            if exists|k: int| 0 <= k < before.len() && (#[trigger] before[k]).1.contains(host) {
                let k = choose|k: int| 0 <= k < before.len() && (#[trigger] before[k]).1.contains(host);
                assert(parts[k].1.contains(host));
            }
            if own.contains(host) {
                assert(parts[before.len() as int].1.contains(host));
            }
            if exists|k: int| 0 <= k < parts.len() && (#[trigger] parts[k]).1.contains(host) {
                let k = choose|k: int| 0 <= k < parts.len() && (#[trigger] parts[k]).1.contains(host);
                if k < before.len() {
                    assert(before[k].1.contains(host));
                }
            }
        } else {
            assert(!own.contains(host));
        }
    }
}

/// Routing puts each host into one part and no other: that of the member that owns it.
/// The members come in the order in which they are declared, each once, and none
/// without hosts.
pub proof fn law_routing_splits_the_hosts(members: Seq<MemberModel>, hosts: Seq<Text>, host: Text)
    requires
        hosts.contains(host),
        owner(members, host) is Some,
    ensures
        ({
            let parts = routed(members, hosts, members.len() as int);
            &&& exists|k: int| 0 <= k < parts.len() && (#[trigger] parts[k]).1.contains(host)
            &&& forall|k: int|
                0 <= k < parts.len() && (#[trigger] parts[k]).1.contains(host) ==> parts[k].0 == owner(
                    members,
                    host,
                )->0
            &&& forall|k: int, l: int|
                #![trigger parts[k], parts[l]]
                0 <= k < l < parts.len() ==> parts[k].0 < parts[l].0
            &&& forall|k: int| 0 <= k < parts.len() ==> (#[trigger] parts[k]).1.len() > 0
        }),
{
    lemma_owner(members, host);
    lemma_routed(members, hosts, members.len() as int, host);
    let parts = routed(members, hosts, members.len() as int);
    assert forall|k: int| 0 <= k < parts.len() && (#[trigger] parts[k]).1.contains(host) implies parts[k].0 == owner(
        members,
        host,
    )->0 by {
        let i = parts[k].0;
        lemma_filter_holds(hosts, |h: Text| owner(members, h) == Some(i), host);
    }
}

/// Naming a host that nobody claims is refused, and is the only thing that is.
pub proof fn law_an_unclaimed_host_is_refused(members: Seq<MemberModel>, host: Option<Text>, group: Option<Text>)
    ensures
        selection_of(members, host, group) is Err <==> host is Some && csv_names(host->0).filter_map(
            unclaimed_name(members),
        ).len() > 0,
        selection_of(members, host, group) matches Err(names) ==> forall|n: Text|
            names.contains(n) ==> owner(members, n) is None && csv_names(host->0).contains(n),
{
    if selection_of(members, host, group) is Err {
        let all = csv_names(host->0);
        let f = unclaimed_name(members);
        let names = all.filter_map(f);
        assert forall|n: Text| names.contains(n) implies owner(members, n) is None && all.contains(n) by {
            all.lemma_filter_map_contains(f, n);
        }
    }
}

/// A view serves a host only from the member that owns it, and only where that member
/// has data of it.
pub proof fn law_a_view_serves_from_the_owner(members: Seq<MemberModel>, selection: Seq<Text>, host: Text)
    requires
        view_hostvars(members, selection).contains_key(host),
    ensures
        owner(members, host) is Some,
        member_has(members[owner(members, host)->0], host),
        view_hostvars(members, selection)[host] == members[owner(
            members,
            host,
        )->0].entry->0.dataset.hostvars[host],
{
}

/// A view is as old as its oldest member.
pub proof fn law_a_view_is_as_old_as_its_oldest(members: Seq<MemberModel>, now: int, i: int)
    requires
        0 <= i < members.len(),
        members[i].entry is Some,
    ensures
        view_age(members, now) >= seconds_since(now, members[i].entry->0.fetched_at),
    decreases members.len(),
{
    if i < members.len() - 1 {
        assert(members.drop_last()[i] == members[i]);
        law_a_view_is_as_old_as_its_oldest(members.drop_last(), now, i);
    }
}

/// One member that is not cached, or not fresh, makes the view not fresh.
pub proof fn law_one_stale_member_makes_the_view_stale(members: Seq<MemberModel>, now: int, i: int)
    requires
        0 <= i < members.len(),
        members[i].entry is None || !members[i].entry->0.fresh(now),
    ensures
        !view_fresh(members, now),
{
}

/// What a view says of the time to live goes for every member; without it, each keeps
/// its own, and the view's is the longest.
pub proof fn law_a_view_ttl_replaces_the_default(members: Seq<MemberModel>, i: int, ttl: u64)
    requires
        0 <= i < members.len(),
    ensures
        member_ttl(members[i], Some(ttl)) == ttl,
        longest_ttl(members) >= member_ttl(members[i], None),
    decreases members.len(),
{
    if i < members.len() - 1 {
        assert(members.drop_last()[i] == members[i]);
        law_a_view_ttl_replaces_the_default(members.drop_last(), i, ttl);
    }
}

/// What a member's cached inventory says of a group.
pub open spec fn cached_group(member: MemberModel, group: Text) -> Option<GroupView> {
    match member.entry {
        Some(entry) => if entry.dataset.groups.contains_key(group) {
            Some(entry.dataset.groups[group])
        } else {
            None
        },
        None => None,
    }
}

proof fn lemma_listed_finite(members: Seq<MemberModel>, group: Text)
    ensures
        Set::new(|h: Text| in_view_group(members, group, h)).finite(),
        Set::new(|c: Text| child_in_view_group(members, group, c)).finite(),
    decreases members.len(),
{
    let hosts = Set::new(|h: Text| in_view_group(members, group, h));
    let children = Set::new(|c: Text| child_in_view_group(members, group, c));
    if members.len() == 0 {
        assert(hosts =~= Set::empty());
        assert(children =~= Set::empty());
    } else {
        let rest = members.drop_last();
        lemma_listed_finite(rest, group);
        let own = if has_group(members.last(), group) {
            members.last().entry->0.dataset.groups[group]
        } else {
            GroupView::none()
        };
        own.hosts.lemma_cardinality_of_set();
        own.children.lemma_cardinality_of_set();
        let more = Set::new(|h: Text| in_view_group(rest, group, h)) + own.hosts.to_set();
        assert forall|h: Text| hosts.contains(h) implies more.contains(h) by {
            let i = choose|i: int|
                0 <= i < members.len() && has_group(#[trigger] members[i], group)
                    && members[i].entry->0.dataset.groups[group].hosts.contains(h);
            if i < rest.len() {
                assert(rest[i] == members[i]);
            }
        }
        vstd::set_lib::lemma_set_subset_finite(more, hosts);
        let more = Set::new(|c: Text| child_in_view_group(rest, group, c)) + own.children.to_set();
        assert forall|c: Text| children.contains(c) implies more.contains(c) by {
            let i = choose|i: int|
                0 <= i < members.len() && has_group(#[trigger] members[i], group)
                    && members[i].entry->0.dataset.groups[group].children.contains(c);
            if i < rest.len() {
                assert(rest[i] == members[i]);
            }
        }
        vstd::set_lib::lemma_set_subset_finite(more, children);
    }
}

proof fn lemma_first_vars(members: Seq<MemberModel>, group: Text)
    ensures
        match first_vars(members, group) {
            Some(vars) => exists|i: int|
                0 <= i < members.len() && #[trigger] cached_group(members[i], group) is Some && cached_group(
                    members[i],
                    group,
                )->0.vars == Some(vars) && forall|j: int|
                    0 <= j < i && #[trigger] cached_group(members[j], group) is Some ==> cached_group(
                        members[j],
                        group,
                    )->0.vars is None,
            None => forall|i: int|
                0 <= i < members.len() && #[trigger] cached_group(members[i], group) is Some ==> cached_group(
                    members[i],
                    group,
                )->0.vars is None,
        },
    decreases members.len(),
{
    if members.len() > 0 {
        let rest = members.drop_last();
        let n = members.len() - 1;
        lemma_first_vars(rest, group);
        assert forall|j: int| 0 <= j < n implies #[trigger] members[j] == rest[j] by {}
        match first_vars(rest, group) {
            Some(vars) => {
                let i = choose|i: int|
                    0 <= i < rest.len() && #[trigger] cached_group(rest[i], group) is Some && cached_group(
                        rest[i],
                        group,
                    )->0.vars == Some(vars) && forall|j: int|
                        0 <= j < i && #[trigger] cached_group(rest[j], group) is Some ==> cached_group(
                            rest[j],
                            group,
                        )->0.vars is None;
                assert(cached_group(members[i], group) is Some);
                assert forall|j: int| 0 <= j < i && #[trigger] cached_group(members[j], group) is Some implies
                    cached_group(members[j], group)->0.vars is None by {
                    assert(cached_group(rest[j], group) is Some);
                }
            },
            None => {
                assert forall|j: int| 0 <= j < n && #[trigger] cached_group(members[j], group) is Some implies
                    cached_group(members[j], group)->0.vars is None by {
                    assert(cached_group(rest[j], group) is Some);
                }
                assert(members[n] == members.last());
                if has_group(members.last(), group) {
                    assert(cached_group(members[n], group) is Some);
                }
            },
        }
    }
}

/// A view has a group where some cached member has one of that name. It lists a host
/// where one of these groups lists it, and a child where one of these groups has it; each
/// list stands in ascending order. Its variables are those of the first member whose
/// group has any.
pub proof fn law_a_view_unites_the_groups_of_its_members(members: Seq<MemberModel>, group: Text, name: Text)
    ensures
        view_groups(members).contains_key(group) <==> exists|i: int|
            0 <= i < members.len() && #[trigger] cached_group(members[i], group) is Some,
        view_groups(members).contains_key(group) ==> {
            let merged = view_groups(members)[group];
            &&& merged.hosts.contains(name) <==> exists|i: int|
                0 <= i < members.len() && #[trigger] cached_group(members[i], group) is Some && cached_group(
                    members[i],
                    group,
                )->0.hosts.contains(name)
            &&& merged.children.contains(name) <==> exists|i: int|
                0 <= i < members.len() && #[trigger] cached_group(members[i], group) is Some && cached_group(
                    members[i],
                    group,
                )->0.children.contains(name)
            &&& ascending(merged.hosts)
            &&& ascending(merged.children)
            &&& match merged.vars {
                Some(vars) => exists|i: int|
                    0 <= i < members.len() && #[trigger] cached_group(members[i], group) is Some && cached_group(
                        members[i],
                        group,
                    )->0.vars == Some(vars) && forall|j: int|
                        0 <= j < i && #[trigger] cached_group(members[j], group) is Some ==> cached_group(
                            members[j],
                            group,
                        )->0.vars is None,
                None => forall|i: int|
                    0 <= i < members.len() && #[trigger] cached_group(members[i], group) is Some ==> cached_group(
                        members[i],
                        group,
                    )->0.vars is None,
            }
        },
{
    if exists|i: int| 0 <= i < members.len() && #[trigger] cached_group(members[i], group) is Some {
        let i = choose|i: int| 0 <= i < members.len() && #[trigger] cached_group(members[i], group) is Some;
        assert(has_group(members[i], group));
    }
    if view_groups(members).contains_key(group) {
        let i = choose|i: int| 0 <= i < members.len() && has_group(#[trigger] members[i], group);
        assert(cached_group(members[i], group) is Some);
        lemma_listed_finite(members, group);
        lemma_first_vars(members, group);
        let hosts = Set::new(|h: Text| in_view_group(members, group, h));
        let children = Set::new(|c: Text| child_in_view_group(members, group, c));
        lemma_sorted(hosts);
        lemma_sorted(children);
        lemma_prefix_whole(hosts);
        lemma_prefix_whole(children);
        assert(sorted(hosts).to_set().contains(name) <==> sorted(hosts).contains(name));
        assert(sorted(children).to_set().contains(name) <==> sorted(children).contains(name));
        if in_view_group(members, group, name) {
            let i = choose|i: int|
                0 <= i < members.len() && has_group(#[trigger] members[i], group)
                    && members[i].entry->0.dataset.groups[group].hosts.contains(name);
            assert(cached_group(members[i], group) is Some);
        }
        if child_in_view_group(members, group, name) {
            let i = choose|i: int|
                0 <= i < members.len() && has_group(#[trigger] members[i], group)
                    && members[i].entry->0.dataset.groups[group].children.contains(name);
            assert(cached_group(members[i], group) is Some);
        }
        if exists|i: int|
            0 <= i < members.len() && #[trigger] cached_group(members[i], group) is Some && cached_group(
                members[i],
                group,
            )->0.hosts.contains(name) {
            let i = choose|i: int|
                0 <= i < members.len() && #[trigger] cached_group(members[i], group) is Some && cached_group(
                    members[i],
                    group,
                )->0.hosts.contains(name);
            assert(has_group(members[i], group));
        }
        if exists|i: int|
            0 <= i < members.len() && #[trigger] cached_group(members[i], group) is Some && cached_group(
                members[i],
                group,
            )->0.children.contains(name) {
            let i = choose|i: int|
                0 <= i < members.len() && #[trigger] cached_group(members[i], group) is Some && cached_group(
                    members[i],
                    group,
                )->0.children.contains(name);
            assert(has_group(members[i], group));
        }
    }
}

/// A member claims the hosts that it names. Where the inventory that lists its groups is
/// cached, it claims the hosts of the groups that it names too; and where it names
/// nothing at all, every host that this inventory knows, of itself or in a group.
pub proof fn law_a_member_claims_what_it_names(member: MemberModel, host: Text)
    ensures
        member.owns.hosts.contains(host) ==> member_claims(member, host),
        member.ownership is None ==> (member_claims(member, host) <==> member.owns.hosts.contains(host)),
        member.ownership is Some && (member.owns.groups.len() > 0 || member.owns.hosts.len() > 0) ==> (member_claims(
            member,
            host,
        ) <==> member.owns.hosts.contains(host) || exists|g: Text|
            member.owns.groups.contains(g) && #[trigger] member.ownership->0.dataset.groups.contains_key(g)
                && member.ownership->0.dataset.groups[g].hosts.contains(host)),
        member.ownership is Some && member.owns.groups.len() == 0 && member.owns.hosts.len() == 0 ==> (member_claims(
            member,
            host,
        ) <==> member.ownership->0.dataset.hostvars.contains_key(host) || exists|g: Text| #[trigger]
            member.ownership->0.dataset.groups.contains_key(g)
                && member.ownership->0.dataset.groups[g].hosts.contains(host)),
{
    if member.ownership is Some {
        let dataset = member.ownership->0.dataset;
        let names = member.owns.groups;
        if in_named_group(dataset.groups, names, host) {
            let i = choose|i: int|
                0 <= i < names.len() && dataset.groups.contains_key(#[trigger] names[i])
                    && dataset.groups[names[i]].hosts.contains(host);
            assert(names.contains(names[i]));
        }
        if exists|g: Text|
            names.contains(g) && #[trigger] dataset.groups.contains_key(g) && dataset.groups[g].hosts.contains(host) {
            let g = choose|g: Text|
                names.contains(g) && #[trigger] dataset.groups.contains_key(g) && dataset.groups[g].hosts.contains(
                    host,
                );
            let i = choose|i: int| 0 <= i < names.len() && names[i] == g;
            assert(dataset.groups.contains_key(names[i]));
        }
    }
}

/// A host is served by a view where the first member that claims it has data of it: then
/// with that member's variables. It is not served by a later member.
pub proof fn law_a_host_is_served_by_its_owner_or_not_at_all(
    members: Seq<MemberModel>,
    selection: Seq<Text>,
    host: Text,
    i: int,
)
    requires
        0 <= i < members.len(),
        member_claims(members[i], host),
        forall|j: int| 0 <= j < i ==> !member_claims(#[trigger] members[j], host),
    ensures
        view_hostvars(members, selection).contains_key(host) <==> selection.contains(host)
            && members[i].entry is Some && members[i].entry->0.dataset.hostvars.contains_key(host),
        view_hostvars(members, selection).contains_key(host) ==> view_hostvars(members, selection)[host]
            == members[i].entry->0.dataset.hostvars[host],
{
    lemma_owner(members, host);
    let k = owner(members, host)->0;
    if k < i {
        assert(member_claims(members[k], host));
    }
}

/// A host that no member claims is not served.
pub proof fn law_an_unclaimed_host_is_not_served(members: Seq<MemberModel>, selection: Seq<Text>, host: Text)
    requires
        forall|j: int| 0 <= j < members.len() ==> !member_claims(#[trigger] members[j], host),
    ensures
        !view_hostvars(members, selection).contains_key(host),
        owner(members, host) is None,
{
    lemma_owner(members, host);
}

proof fn lemma_served_finite(members: Seq<MemberModel>, n: int)
    requires
        0 <= n <= members.len(),
        forall|i: int|
            0 <= i < members.len() && (#[trigger] members[i]).entry is Some
                ==> members[i].entry->0.dataset.hostvars.dom().finite(),
    ensures
        Set::new(
            |h: Text|
                exists|i: int|
                    0 <= i < n && (#[trigger] members[i]).entry is Some
                        && members[i].entry->0.dataset.hostvars.contains_key(h),
        ).finite(),
    decreases n,
{
    let known = Set::new(
        |h: Text|
            exists|i: int|
                0 <= i < n && (#[trigger] members[i]).entry is Some
                    && members[i].entry->0.dataset.hostvars.contains_key(h),
    );
    if n == 0 {
        assert(known =~= Set::empty());
    } else {
        lemma_served_finite(members, n - 1);
        let before = Set::new(
            |h: Text|
                exists|i: int|
                    0 <= i < n - 1 && (#[trigger] members[i]).entry is Some
                        && members[i].entry->0.dataset.hostvars.contains_key(h),
        );
        let own = match members[n - 1].entry {
            Some(entry) => entry.dataset.hostvars.dom(),
            None => Set::empty(),
        };
        assert forall|h: Text| known.contains(h) implies (before + own).contains(h) by {
            let i = choose|i: int|
                0 <= i < n && (#[trigger] members[i]).entry is Some
                    && members[i].entry->0.dataset.hostvars.contains_key(h);
            if i < n - 1 {
                assert(members[i].entry is Some);
            }
        }
        vstd::set_lib::lemma_set_subset_finite(before + own, known);
    }
}

/// Asked for everything, a view gives the hosts that it serves; asked for a group, the
/// hosts that some cached member's group of that name lists; asked for hosts by name,
/// those of them that it serves, unless nobody claims one of them. The hosts stand in
/// ascending order.
pub proof fn law_a_selection_is_what_was_asked_for(
    members: Seq<MemberModel>,
    named: Option<Text>,
    group: Option<Text>,
    host: Text,
)
    requires
        forall|i: int|
            0 <= i < members.len() && (#[trigger] members[i]).entry is Some
                ==> members[i].entry->0.dataset.hostvars.dom().finite(),
    ensures
        selection_of(members, named, group) matches Ok(hosts) ==> ascending(hosts),
        named is None && group is None ==> selection_of(members, named, group) is Ok && (selection_of(
            members,
            named,
            group,
        )->Ok_0.contains(host) <==> owner(members, host) is Some && members[owner(members, host)->0].entry is Some
            && members[owner(members, host)->0].entry->0.dataset.hostvars.contains_key(host)),
        named is None && group is Some ==> selection_of(members, named, group) is Ok && (selection_of(
            members,
            named,
            group,
        )->Ok_0.contains(host) <==> exists|i: int|
            0 <= i < members.len() && #[trigger] cached_group(members[i], group->0) is Some && cached_group(
                members[i],
                group->0,
            )->0.hosts.contains(host)),
        named matches Some(list) ==> (selection_of(members, named, group) is Ok <==> forall|i: int|
            0 <= i < csv_names(list).len() ==> owner(members, #[trigger] csv_names(list)[i]) is Some),
        named is Some && selection_of(members, named, group) is Ok ==> (selection_of(
            members,
            named,
            group,
        )->Ok_0.contains(host) <==> csv_names(named->0).contains(host) && owner(members, host) is Some
            && members[owner(members, host)->0].entry is Some
            && members[owner(members, host)->0].entry->0.dataset.hostvars.contains_key(host)),
{
    lemma_owner(members, host);
    match named {
        Some(list) => {
            let names = csv_names(list);
            let f = unclaimed_name(members);
            let unclaimed = names.filter_map(f);
            if unclaimed.len() > 0 {
                assert(unclaimed.contains(unclaimed[0]));
                names.lemma_filter_map_contains(f, unclaimed[0]);
                let i = choose|i: int| 0 <= i < names.len() && f(#[trigger] names[i]) == Some(unclaimed[0]);
                assert(owner(members, names[i]) is None);
            } else {
                assert forall|i: int| 0 <= i < names.len() implies owner(members, #[trigger] names[i]) is Some by {
                    if owner(members, names[i]) is None {
                        assert(names.contains(names[i]));
                        lemma_filter_map_holds(names, f, names[i]);
                    }
                }
                let wanted = Set::new(|h: Text| names.contains(h) && serves(members, h));
                names.lemma_cardinality_of_set();
                assert(wanted.subset_of(names.to_set()));
                vstd::set_lib::lemma_set_subset_finite(names.to_set(), wanted);
                lemma_sorted(wanted);
                assert(sorted(wanted).to_set().contains(host) <==> sorted(wanted).contains(host));
            }
        },
        None => match group {
            Some(name) => {
                lemma_listed_finite(members, name);
                let wanted = Set::new(|h: Text| in_view_group(members, name, h));
                lemma_sorted(wanted);
                assert(sorted(wanted).to_set().contains(host) <==> sorted(wanted).contains(host));
                if in_view_group(members, name, host) {
                    let i = choose|i: int|
                        0 <= i < members.len() && has_group(#[trigger] members[i], name)
                            && members[i].entry->0.dataset.groups[name].hosts.contains(host);
                    assert(cached_group(members[i], name) is Some);
                }
                if exists|i: int|
                    0 <= i < members.len() && #[trigger] cached_group(members[i], name) is Some && cached_group(
                        members[i],
                        name,
                    )->0.hosts.contains(host) {
                    let i = choose|i: int|
                        0 <= i < members.len() && #[trigger] cached_group(members[i], name) is Some && cached_group(
                            members[i],
                            name,
                        )->0.hosts.contains(host);
                    assert(has_group(members[i], name));
                }
            },
            None => {
                let wanted = served_set(members);
                lemma_served_finite(members, members.len() as int);
                let known = Set::new(
                    |h: Text|
                        exists|i: int|
                            0 <= i < members.len() && (#[trigger] members[i]).entry is Some
                                && members[i].entry->0.dataset.hostvars.contains_key(h),
                );
                assert forall|h: Text| wanted.contains(h) implies known.contains(h) by {
                    lemma_owner(members, h);
                    assert(members[owner(members, h)->0].entry is Some);
                }
                vstd::set_lib::lemma_set_subset_finite(known, wanted);
                lemma_sorted(wanted);
                assert(sorted(wanted).to_set().contains(host) <==> sorted(wanted).contains(host));
            },
        },
    }
}

/// The age of a view is that of one of its cached members, or zero where none is cached.
pub proof fn law_the_age_of_a_view_is_that_of_a_member(members: Seq<MemberModel>, now: int)
    ensures
        (forall|i: int| 0 <= i < members.len() ==> (#[trigger] members[i]).entry is None) ==> view_age(members, now)
            == 0,
        view_age(members, now) == 0 || exists|i: int|
            0 <= i < members.len() && (#[trigger] members[i]).entry is Some && view_age(members, now)
                == seconds_since(now, members[i].entry->0.fetched_at),
    decreases members.len(),
{
    if members.len() > 0 {
        let rest = members.drop_last();
        law_the_age_of_a_view_is_that_of_a_member(rest, now);
        assert(members[members.len() - 1] == members.last());
        assert forall|i: int| 0 <= i < rest.len() implies #[trigger] rest[i] == members[i] by {}
        if exists|i: int|
            0 <= i < rest.len() && (#[trigger] rest[i]).entry is Some && view_age(rest, now) == seconds_since(
                now,
                rest[i].entry->0.fetched_at,
            ) {
            let i = choose|i: int|
                0 <= i < rest.len() && (#[trigger] rest[i]).entry is Some && view_age(rest, now) == seconds_since(
                    now,
                    rest[i].entry->0.fetched_at,
                );
            assert(members[i].entry is Some);
        }
        if forall|i: int| 0 <= i < members.len() ==> (#[trigger] members[i]).entry is None {
            assert forall|i: int| 0 <= i < rest.len() implies (#[trigger] rest[i]).entry is None by {
                assert(members[i].entry is None);
            }
        }
    }
}

/// A view that has members is fresh where each of them is cached as a whole and was
/// gathered more recently than its time to live.
pub proof fn law_a_view_is_fresh_where_all_members_are(members: Seq<MemberModel>, now: int)
    requires
        members.len() > 0,
        forall|i: int|
            0 <= i < members.len() ==> (#[trigger] members[i]).entry is Some && members[i].entry->0.complete
                && seconds_since(now, members[i].entry->0.fetched_at) < members[i].entry->0.ttl,
    ensures
        view_fresh(members, now),
{
}

/// Without members a view is not fresh, has no age, and keeps nothing for any time.
pub proof fn law_a_view_of_nothing(now: int)
    ensures
        !view_fresh(Seq::empty(), now),
        view_age(Seq::empty(), now) == 0,
        longest_ttl(Seq::empty()) == 0,
{
}

/// Where the view says nothing, the time to live of a member is that of what is cached of
/// it; else the one that is configured; else none. The longest of them is one of them.
pub proof fn law_a_member_keeps_its_own_ttl(members: Seq<MemberModel>, i: int)
    requires
        0 <= i < members.len(),
    ensures
        members[i].entry matches Some(entry) ==> member_ttl(members[i], None) == entry.ttl,
        members[i].entry is None && members[i].source is Some ==> member_ttl(members[i], None)
            == members[i].source->0.ttl_seconds,
        members[i].entry is None && members[i].source is None ==> member_ttl(members[i], None) == 0,
        longest_ttl(members) == 0 || exists|k: int|
            0 <= k < members.len() && longest_ttl(members) == member_ttl(#[trigger] members[k], None),
{
    lemma_longest_ttl(members);
}

proof fn lemma_longest_ttl(members: Seq<MemberModel>)
    ensures
        longest_ttl(members) == 0 || exists|k: int|
            0 <= k < members.len() && longest_ttl(members) == member_ttl(#[trigger] members[k], None),
    decreases members.len(),
{
    if members.len() > 0 {
        let rest = members.drop_last();
        lemma_longest_ttl(rest);
        assert(members[members.len() - 1] == members.last());
        if longest_ttl(rest) != 0 {
            let k = choose|k: int|
                0 <= k < rest.len() && longest_ttl(rest) == member_ttl(#[trigger] rest[k], None);
            assert(members[k] == rest[k]);
        }
    }
}

/// A snapshot has of each member what the cache has under the id of its source, what it
/// has under the id of the source that lists its groups, and the source as it is
/// configured.
pub proof fn law_a_snapshot_shows_the_cache(
    entries: Map<Text, EntryView>,
    sources: Map<Text, SourceModel>,
    member: ViewMemberModel,
)
    ensures
        snapped(entries, sources, member).source_id == member.source,
        snapped(entries, sources, member).owns == member.owns,
        snapped(entries, sources, member).entry is Some <==> entries.contains_key(member.source),
        entries.contains_key(member.source) ==> snapped(entries, sources, member).entry == Some(
            entries[member.source],
        ),
        snapped(entries, sources, member).ownership is Some <==> entries.contains_key(member.owns.source),
        entries.contains_key(member.owns.source) ==> snapped(entries, sources, member).ownership == Some(
            entries[member.owns.source],
        ),
        snapped(entries, sources, member).source is Some <==> sources.contains_key(member.source),
        sources.contains_key(member.source) ==> snapped(entries, sources, member).source == Some(
            sources[member.source],
        ),
{
}

proof fn lemma_parts(members: Seq<MemberModel>, hosts: Seq<Text>, n: int)
    ensures
        forall|k: int|
            0 <= k < routed(members, hosts, n).len() ==> 0 <= (#[trigger] routed(members, hosts, n)[k]).0 < n && routed(
                members,
                hosts,
                n,
            )[k].1 == owned_by(members, hosts, routed(members, hosts, n)[k].0),
    decreases n,
{
    if n > 0 {
        lemma_parts(members, hosts, n - 1);
        let before = routed(members, hosts, n - 1);
        let parts = routed(members, hosts, n);
        assert forall|k: int| 0 <= k < parts.len() implies 0 <= (#[trigger] parts[k]).0 < n && parts[k].1 == owned_by(
            members,
            hosts,
            parts[k].0,
        ) by {
            if k < before.len() {
                assert(parts[k] == before[k]);
            }
        }
    }
}

/// A part of a routing has the hosts that were asked for and that its member owns, and no
/// others, in the order in which they were asked for.
pub proof fn law_a_part_has_the_hosts_of_its_member(
    members: Seq<MemberModel>,
    hosts: Seq<Text>,
    host: Text,
    next: Text,
    k: int,
)
    requires
        0 <= k < routed(members, hosts, members.len() as int).len(),
    ensures
        ({
            let part = routed(members, hosts, members.len() as int)[k];
            &&& 0 <= part.0 < members.len()
            &&& part.1.contains(host) <==> hosts.contains(host) && owner(members, host) == Some(part.0)
            &&& owned_by(members, hosts, part.0) == part.1
            &&& owner(members, next) == Some(part.0) ==> owned_by(members, hosts.push(next), part.0) == part.1.push(
                next,
            )
            &&& owner(members, next) != Some(part.0) ==> owned_by(members, hosts.push(next), part.0) == part.1
        }),
{
    lemma_parts(members, hosts, members.len() as int);
    let part = routed(members, hosts, members.len() as int)[k];
    let own = |h: Text| owner(members, h) == Some(part.0);
    lemma_filter_holds(hosts, own, host);
    reveal(Seq::filter);
    assert(hosts.push(next).drop_last() =~= hosts);
    assert(owned_by(members, hosts, part.0) == hosts.filter(own));
    assert(owned_by(members, hosts.push(next), part.0) == hosts.push(next).filter(own));
}

/// The hosts that are refused are all of those that were named and that nobody claims, in
/// the order in which they were named.
pub proof fn law_every_unclaimed_host_is_named(
    members: Seq<MemberModel>,
    names: Seq<Text>,
    name: Text,
    next: Text,
)
    ensures
        ({
            let refused = names.filter_map(unclaimed_name(members));
            &&& refused.contains(name) <==> names.contains(name) && owner(members, name) is None
            &&& names.push(next).filter_map(unclaimed_name(members)) == if owner(members, next) is None {
                refused.push(next)
            } else {
                refused
            }
        }),
        forall|list: Text, group: Option<Text>| #[trigger]
            selection_of(members, Some(list), group) is Err ==> selection_of(members, Some(list), group)->Err_0
                == csv_names(list).filter_map(unclaimed_name(members)),
{
    let f = unclaimed_name(members);
    lemma_in_filter_map(names, f, name);
    if names.contains(name) && owner(members, name) is None {
        assert(f(name) == Some(name));
    }
    names.push(next).lemma_filter_map_take_succ(f, names.len() as int);
    assert(names.push(next).take(names.len() as int) =~= names);
    assert(names.push(next).take(names.len() as int + 1) =~= names.push(next));
    assert(names.push(next)[names.len() as int] == next);
    assert(names.filter_map(f) + seq![next] =~= names.filter_map(f).push(next));
    assert(names.filter_map(f) + Seq::<Text>::empty() =~= names.filter_map(f));
}

/// The times to live that a member has from its groups are those that its source gives to
/// the groups that are cached of it. A member that is not cached or not configured has none.
pub proof fn law_a_member_has_the_ttls_of_its_groups(member: MemberModel)
    ensures
        member.source is Some && member.entry is Some ==> member_group_ttls(member) == group_ttls(
            member.source->0.ttl_overrides,
            member.entry->0.dataset.groups,
        ),
        member.source is None || member.entry is None ==> member_group_ttls(member) == Map::<Text, u64>::empty(),
{
}

/// A table of owners is worth it for more than sixteen hosts.
pub proof fn law_a_few_hosts_are_looked_up_one_by_one()
    ensures
        ROUTING_TABLE_WORTH_IT == 16,
{
}

/// What is put together shows each of its parts, and removes nobody.
pub proof fn law_a_merged_inventory_shows_every_part<'a>(
    dataset: MergedDataset<'a>,
    group: MergedGroup<'a>,
    member: MemberSnapshot<'a>,
)
    ensures
        dataset.deep_view().hostvars == dataset.hostvars@,
        dataset.deep_view().groups == dataset.groups@,
        dataset.deep_view().remove_hosts.len() == 0,
        group.deep_view().hosts == group.hosts.deep_view(),
        group.deep_view().children == group.children.deep_view(),
        group.deep_view().vars == group.vars.deep_view(),
        member.deep_view().source_id == member.source_id@,
        member.deep_view().source == member.source.deep_view(),
        member.deep_view().entry == member.entry.deep_view(),
        member.deep_view().ownership == member.ownership.deep_view(),
        member.deep_view().owns == member.owns.deep_view(),
{
}

} // verus!
