//! Reading a view: which member answers for a host, and the members' inventories
//! as one.

#[allow(unused_imports)]
use crate::clock::{is_reading, nanos, seconds_since};
use crate::clock::read_clock;
use crate::domain::cache_entry::{contains_string, CacheEntry};
#[allow(unused_imports)]
use crate::domain::cache_entry::EntryView;
#[allow(unused_imports)]
use crate::domain::dataset::{DatasetView, GroupView, VarsView};
use crate::domain::dataset::{Dataset, Group, HostVars};
use crate::domain::source::Source;
#[allow(unused_imports)]
use crate::domain::source::{group_ttls, ttl_of, SourceModel};
#[allow(unused_imports)]
use crate::domain::view::{claimed, claims_host, OwnershipModel, ViewMemberModel};
use crate::domain::view::{Ownership, View};
use crate::model::Dup;
use crate::ports::cache::CachePort;
#[allow(unused_imports)]
use crate::strmap::{lemma_prefix_step, lemma_prefix_whole, lemma_sorted, sorted};
use crate::strmap::{StrMap, StrSet};
#[allow(unused_imports)]
use crate::text::{csv_names, Text};
use crate::text::comma_list;
use std::time::Instant;
use vstd::prelude::*;
#[allow(unused_imports)]
use vstd::view::View as _;

verus! {

/// A member of a view, with everything that a read needs of it.
pub struct MemberSnapshot<'a> {
    pub source_id: &'a str,
    /// The source, where it is configured.
    pub source: Option<&'a Source>,
    /// What the cache has of the member.
    pub entry: Option<CacheEntry>,
    /// What the cache has of the source that says which hosts the member claims.
    pub ownership: Option<CacheEntry>,
    pub owns: &'a Ownership,
}

/// What a [`MemberSnapshot`] holds.
#[verifier::ext_equal]
pub struct MemberModel {
    pub source_id: Text,
    pub source: Option<SourceModel>,
    pub entry: Option<EntryView>,
    pub ownership: Option<EntryView>,
    pub owns: OwnershipModel,
}

impl<'a> DeepView for MemberSnapshot<'a> {
    type V = MemberModel;

    open spec fn deep_view(&self) -> MemberModel {
        MemberModel {
            source_id: self.source_id@,
            source: self.source.deep_view(),
            entry: self.entry.deep_view(),
            ownership: self.ownership.deep_view(),
            owns: self.owns.deep_view(),
        }
    }
}

/// A member claims a host. Where the source that lists the groups is not in the
/// cache, it still claims the hosts that it names.
pub open spec fn member_claims(member: MemberModel, host: Text) -> bool {
    match member.ownership {
        Some(entry) => claims_host(member.owns, entry.dataset, host),
        None => member.owns.hosts.contains(host),
    }
}

/// The hosts that a member claims.
pub open spec fn member_claimed(member: MemberModel) -> Set<Text> {
    Set::new(|h: Text| member_claims(member, h))
}

/// A member has data of a host.
pub open spec fn member_has(member: MemberModel, host: Text) -> bool {
    member.entry matches Some(entry) && entry.dataset.hostvars.contains_key(host)
}

/// The time to live of a member's hosts under a view: the view's own, else the
/// member's, else the one that is configured.
pub open spec fn member_ttl(member: MemberModel, view_ttl: Option<u64>) -> int {
    match view_ttl {
        Some(ttl) => ttl as int,
        None => match member.entry {
            Some(entry) => entry.ttl,
            None => match member.source {
                Some(source) => source.ttl_seconds as int,
                None => 0,
            },
        },
    }
}

/// The times to live that a member's hosts have from their groups.
pub open spec fn member_group_ttls(member: MemberModel) -> Map<Text, u64> {
    match member.source {
        Some(source) => match member.entry {
            Some(entry) => group_ttls(source.ttl_overrides, entry.dataset.groups),
            None => Map::empty(),
        },
        None => Map::empty(),
    }
}

impl<'a> MemberSnapshot<'a> {
    /// Whether the member claims a host.
    pub fn claims(&self, hostname: &str) -> (yes: bool)
        ensures
            yes == member_claims(self.deep_view(), hostname@),
    {
        match &self.ownership {
            Some(entry) => self.owns.claims(entry.dataset(), hostname),
            None => contains_string(&self.owns.hosts, hostname),
        }
    }

    /// The hosts that the member claims.
    pub fn claimed_hosts(&self) -> (hosts: StrSet)
        ensures
            hosts@ == member_claimed(self.deep_view()),
    {
        match &self.ownership {
            Some(entry) => {
                let hosts = self.owns.claimed_hosts(entry.dataset());
                assert(hosts@ =~= member_claimed(self.deep_view()));
                hosts
            },
            None => {
                let mut hosts = StrSet::new();
                hosts.extend(&self.owns.hosts);
                assert(hosts@ =~= member_claimed(self.deep_view()));
                hosts
            },
        }
    }

    /// Whether the source that says which hosts the member claims is in the cache.
    pub fn ownership_cached(&self) -> (yes: bool)
        ensures
            yes == (self.ownership is Some),
    {
        self.ownership.is_some()
    }

    /// The time to live of the member's hosts under a view.
    pub fn default_ttl(&self, view: &View) -> (ttl: u64)
        ensures
            ttl == member_ttl(self.deep_view(), view.ttl_seconds),
    {
        match view.ttl_seconds {
            Some(ttl) => ttl,
            None => match &self.entry {
                Some(entry) => entry.ttl_seconds(),
                None => match self.source {
                    Some(source) => source.ttl_seconds,
                    None => 0,
                },
            },
        }
    }

    /// The times to live that the member's hosts have from their groups.
    pub fn group_ttls(&self) -> (ttls: StrMap<u64>)
        ensures
            ttls@ == member_group_ttls(self.deep_view()),
    {
        match self.source {
            Some(source) => match &self.entry {
                Some(entry) => source.group_ttl_by_host(entry.dataset()),
                None => StrMap::new(),
            },
            None => StrMap::new(),
        }
    }

    /// The time to live of a host under a view. What the member's source says of
    /// the host or its groups goes before what the view says.
    pub fn effective_ttl(&self, view: &View, hostname: &str, group_ttls: &StrMap<u64>) -> (ttl: u64)
        ensures
            ttl == (match self.deep_view().source {
                Some(source) => ttl_of(
                    source.ttl_overrides,
                    group_ttls@,
                    hostname@,
                    member_ttl(self.deep_view(), view.ttl_seconds) as u64,
                ) as int,
                None => member_ttl(self.deep_view(), view.ttl_seconds),
            }),
    {
        let fallback: u64 = self.default_ttl(view);
        match self.source {
            Some(source) => source.effective_ttl(hostname, group_ttls, fallback),
            None => fallback,
        }
    }

    fn has(&self, hostname: &str) -> (yes: bool)
        ensures
            yes == member_has(self.deep_view(), hostname@),
    {
        match &self.entry {
            Some(entry) => entry.dataset().hostvars.contains_key(hostname),
            None => false,
        }
    }
}

/// A view, as the cache has its members at one moment.
pub struct ViewSnapshot<'a> {
    pub view_id: &'a str,
    pub view: &'a View,
    pub members: Vec<MemberSnapshot<'a>>,
}

/// The hosts that no member claims.
#[derive(Debug, PartialEq)]
pub struct UnclaimedHosts(pub Vec<String>);

/// What a member is at the moment of a snapshot.
pub open spec fn snapped(
    entries: Map<Text, EntryView>,
    sources: Map<Text, SourceModel>,
    member: ViewMemberModel,
) -> MemberModel {
    MemberModel {
        source_id: member.source,
        source: if sources.contains_key(member.source) {
            Some(sources[member.source])
        } else {
            None
        },
        entry: if entries.contains_key(member.source) {
            Some(entries[member.source])
        } else {
            None
        },
        ownership: if entries.contains_key(member.owns.source) {
            Some(entries[member.owns.source])
        } else {
            None
        },
        owns: member.owns,
    }
}

/// Takes a snapshot of a view.
pub fn snapshot<'a, C: CachePort>(
    cache: &C,
    sources: &'a StrMap<Source>,
    view_id: &'a str,
    view: &'a View,
) -> (snap: ViewSnapshot<'a>)
    ensures
        snap.view_id@ == view_id@,
        snap.view == view,
        snap.members.deep_view() == view.members.deep_view().map_values(
            |m: ViewMemberModel| snapped(cache.entries(), sources@, m),
        ),
{
    let mut members: Vec<MemberSnapshot<'a>> = Vec::new();
    let ghost all = view.members.deep_view();
    let ghost snap_of = |m: ViewMemberModel| snapped(cache.entries(), sources@, m);
    let mut i: usize = 0;
    while i < view.members.len()
        invariant
            i <= view.members@.len(),
            all == view.members.deep_view(),
            snap_of == (|m: ViewMemberModel| snapped(cache.entries(), sources@, m)),
            members.deep_view() == all.take(i as int).map_values(snap_of),
        decreases view.members@.len() - i,
    {
        let ghost before = members.deep_view();
        let member = &view.members[i];
        assert(all[i as int] == member.deep_view());
        let snap = MemberSnapshot {
            source_id: member.source.as_str(),
            source: sources.get(member.source.as_str()),
            entry: cache.get(member.source.as_str()),
            ownership: cache.get(member.owns.source.as_str()),
            owns: &member.owns,
        };
        assert(snap.deep_view() == snap_of(all[i as int]));
        members.push(snap);
        assert(members.deep_view() =~= before.push(snap_of(all[i as int])));
        assert(all.take(i + 1).map_values(snap_of) =~= all.take(i as int).map_values(snap_of).push(
            snap_of(all[i as int]),
        ));
        i += 1;
    }
    assert(all.take(all.len() as int) =~= all);
    ViewSnapshot { view_id, view, members }
}

/// The first member that claims a host.
pub open spec fn owner(members: Seq<MemberModel>, host: Text) -> Option<int>
    decreases members.len(),
{
    if members.len() == 0 {
        None
    } else {
        match owner(members.drop_last(), host) {
            Some(i) => Some(i),
            None => if member_claims(members.last(), host) {
                Some(members.len() - 1)
            } else {
                None
            },
        }
    }
}

/// The owner is a member that claims the host, and no earlier member does.
pub proof fn lemma_owner(members: Seq<MemberModel>, host: Text)
    ensures
        match owner(members, host) {
            Some(i) => 0 <= i < members.len() && member_claims(members[i], host) && forall|j: int|
                0 <= j < i ==> !member_claims(#[trigger] members[j], host),
            None => forall|j: int| 0 <= j < members.len() ==> !member_claims(#[trigger] members[j], host),
        },
    decreases members.len(),
{
    if members.len() > 0 {
        let rest = members.drop_last();
        lemma_owner(rest, host);
        match owner(rest, host) {
            Some(i) => {
                assert(members[i] == rest[i]);
                assert forall|j: int| 0 <= j < i implies !member_claims(#[trigger] members[j], host) by {
                    assert(rest[j] == members[j]);
                }
            },
            None => {
                assert forall|j: int| 0 <= j < members.len() - 1 implies !member_claims(
                    #[trigger] members[j],
                    host,
                ) by {
                    assert(rest[j] == members[j]);
                }
            },
        }
    }
}

/// A host that a view serves: its owner has data of it.
pub open spec fn serves(members: Seq<MemberModel>, host: Text) -> bool {
    owner(members, host) matches Some(i) && member_has(members[i], host)
}

/// The variables of a host that a view serves.
pub open spec fn served_vars(members: Seq<MemberModel>, host: Text) -> VarsView {
    members[owner(members, host)->0].entry->0.dataset.hostvars[host]
}

/// Above this many hosts in one question it pays to look all of them up at once.
pub const ROUTING_TABLE_WORTH_IT: usize = 16;

/// The owners of all hosts that are claimed.
pub open spec fn owners(members: Seq<MemberModel>) -> Map<Text, int> {
    Map::new(|h: Text| owner(members, h) is Some, |h: Text| owner(members, h)->0)
}

/// The owners of hosts, looked up in a table or one by one.
pub struct Routing {
    table: Option<StrMap<usize>>,
}

impl<'a> ViewSnapshot<'a> {
    /// The owners of all hosts that are claimed, as a table.
    fn routing(&self) -> (table: StrMap<usize>)
        ensures
            forall|h: Text| #[trigger]
                table@.contains_key(h) <==> owner(self.members.deep_view(), h) is Some,
            forall|h: Text| #[trigger]
                table@.contains_key(h) ==> owner(self.members.deep_view(), h) == Some(table@[h] as int),
    {
        let mut table: StrMap<usize> = StrMap::new();
        let ghost members = self.members.deep_view();
        let mut i: usize = 0;
        while i < self.members.len()
            invariant
                i <= self.members@.len(),
                members == self.members.deep_view(),
                forall|h: Text| #[trigger]
                    table@.contains_key(h) <==> owner(members.take(i as int), h) is Some,
                forall|h: Text| #[trigger]
                    table@.contains_key(h) ==> owner(members.take(i as int), h) == Some(table@[h] as int),
            decreases self.members@.len() - i,
        {
            let ghost before = table@;
            let hosts = self.members[i].claimed_hosts();
            let n: usize = hosts.len();
            let ghost names = sorted(hosts@);
            assert(members[i as int] == self.members@[i as int].deep_view());
            let mut j: usize = 0;
            while j < n
                invariant
                    j <= n == names.len(),
                    names == sorted(hosts@),
                    forall|h: Text| #[trigger]
                        table@.contains_key(h) <==> before.contains_key(h) || names.take(j as int).contains(h),
                    forall|h: Text| #[trigger]
                        table@.contains_key(h) ==> table@[h] == (if before.contains_key(h) {
                            before[h]
                        } else {
                            i
                        }),
                decreases n - j,
            {
                proof {
                    lemma_prefix_step(names, j as int);
                }
                let host: &String = hosts.at(j);
                if !table.contains_key(host.as_str()) {
                    table.insert(host.clone(), i);
                }
                j += 1;
            }
            proof {
                lemma_prefix_whole(hosts@);
                let next = members.take(i + 1);
                assert(next.drop_last() =~= members.take(i as int));
                assert(next.last() == members[i as int]);
                assert forall|h: Text| #[trigger]
                    table@.contains_key(h) <==> owner(next, h) is Some by {
                    assert(names.take(n as int).contains(h) <==> hosts@.contains(h));
                    assert(before.contains_key(h) <==> owner(members.take(i as int), h) is Some);
                }
                assert forall|h: Text| #[trigger] table@.contains_key(h) implies owner(next, h) == Some(
                    table@[h] as int,
                ) by {
                    assert(names.take(n as int).contains(h) <==> hosts@.contains(h));
                    assert(before.contains_key(h) <==> owner(members.take(i as int), h) is Some);
                }
            }
            i += 1;
        }
        assert(members.take(members.len() as int) =~= members);
        table
    }

    /// The position of the first member that claims a host.
    pub fn owner_index(&self, hostname: &str) -> (index: Option<usize>)
        ensures
            match index {
                Some(i) => owner(self.members.deep_view(), hostname@) == Some(i as int) && i < self.members@.len(),
                None => owner(self.members.deep_view(), hostname@) is None,
            },
    {
        let ghost members = self.members.deep_view();
        let mut i: usize = 0;
        while i < self.members.len()
            invariant
                i <= self.members@.len(),
                members == self.members.deep_view(),
                forall|j: int| 0 <= j < i ==> !member_claims(#[trigger] members[j], hostname@),
            decreases self.members@.len() - i,
        {
            assert(members[i as int] == self.members@[i as int].deep_view());
            if self.members[i].claims(hostname) {
                proof {
                    lemma_owner(members, hostname@);
                    match owner(members, hostname@) {
                        Some(k) => {
                            if k < i {
                                assert(member_claims(members[k], hostname@));
                            } else if k > i {
                                assert(!member_claims(members[i as int], hostname@));
                            }
                        },
                        None => {
                            assert(!member_claims(members[i as int], hostname@));
                        },
                    }
                }
                return Some(i);
            }
            i += 1;
        }
        proof {
            lemma_owner(members, hostname@);
        }
        None
    }

    /// The first member that claims a host.
    pub fn owner_of(&self, hostname: &str) -> (member: Option<&MemberSnapshot<'a>>)
        ensures
            match member {
                Some(m) => owner(self.members.deep_view(), hostname@) matches Some(i) && *m == self.members@[i],
                None => owner(self.members.deep_view(), hostname@) is None,
            },
    {
        match self.owner_index(hostname) {
            Some(i) => Some(&self.members[i]),
            None => None,
        }
    }

    /// A way to look up the owners of that many hosts: a table, where there are
    /// enough of them.
    pub fn prepare_routing(&self, hosts_in_question: usize) -> (routing: Routing)
        ensures
            routing.is_of(self.members.deep_view()),
            routing.has_table() == (hosts_in_question > ROUTING_TABLE_WORTH_IT),
    {
        if hosts_in_question > ROUTING_TABLE_WORTH_IT {
            Routing { table: Some(self.routing()) }
        } else {
            Routing { table: None }
        }
    }

    /// The position of the first member that claims a host, looked up.
    pub fn look_up(&self, routing: &Routing, hostname: &str) -> (index: Option<usize>)
        requires
            routing.is_of(self.members.deep_view()),
        ensures
            match index {
                Some(i) => owner(self.members.deep_view(), hostname@) == Some(i as int) && i < self.members@.len(),
                None => owner(self.members.deep_view(), hostname@) is None,
            },
    {
        match &routing.table {
            Some(table) => match table.get(hostname) {
                Some(i) => {
                    proof {
                        lemma_owner(self.members.deep_view(), hostname@);
                    }
                    Some(*i)
                },
                None => None,
            },
            None => self.owner_index(hostname),
        }
    }
}

impl Routing {
    /// Whether the owners stand in a table.
    pub closed spec fn has_table(self) -> bool {
        self.table is Some
    }

    /// Whether the owners stand in a table.
    pub fn built(&self) -> (yes: bool)
        ensures
            yes == self.has_table(),
    {
        self.table.is_some()
    }

    /// The owners are those of these members.
    pub closed spec fn is_of(self, members: Seq<MemberModel>) -> bool {
        self.table matches Some(table) ==> {
            &&& forall|h: Text| #[trigger] table@.contains_key(h) <==> owner(members, h) is Some
            &&& forall|h: Text| #[trigger]
                table@.contains_key(h) ==> owner(members, h) == Some(table@[h] as int)
        }
    }
}

/// The hosts that a view serves.
pub open spec fn served_set(members: Seq<MemberModel>) -> Set<Text> {
    Set::new(|h: Text| serves(members, h))
}

/// A host that some member's group has.
pub open spec fn in_view_group(members: Seq<MemberModel>, group: Text, host: Text) -> bool {
    exists|i: int|
        0 <= i < members.len() && has_group(#[trigger] members[i], group)
            && members[i].entry->0.dataset.groups[group].hosts.contains(host)
}

/// A child that some member's group has.
pub open spec fn child_in_view_group(members: Seq<MemberModel>, group: Text, child: Text) -> bool {
    exists|i: int|
        0 <= i < members.len() && has_group(#[trigger] members[i], group)
            && members[i].entry->0.dataset.groups[group].children.contains(child)
}

/// A member has a group.
pub open spec fn has_group(member: MemberModel, group: Text) -> bool {
    member.entry matches Some(entry) && entry.dataset.groups.contains_key(group)
}

/// A name that no member claims.
pub open spec fn unclaimed_name(members: Seq<MemberModel>) -> spec_fn(Text) -> Option<Text> {
    |n: Text|
        if owner(members, n) is None {
            Some(n)
        } else {
            None
        }
}

/// The hosts that a request asks for, in ascending order, or the hosts that it
/// names and that nobody claims.
pub open spec fn selection_of(
    members: Seq<MemberModel>,
    host: Option<Text>,
    group: Option<Text>,
) -> Result<Seq<Text>, Seq<Text>> {
    match host {
        Some(names) => {
            let unclaimed = csv_names(names).filter_map(unclaimed_name(members));
            if unclaimed.len() > 0 {
                Err(unclaimed)
            } else {
                Ok(sorted(Set::new(|h: Text| csv_names(names).contains(h) && serves(members, h))))
            }
        },
        None => match group {
            Some(name) => Ok(sorted(Set::new(|h: Text| in_view_group(members, name, h)))),
            None => Ok(sorted(served_set(members))),
        },
    }
}

/// The hosts of a list that a member owns.
pub open spec fn owned_by(members: Seq<MemberModel>, hosts: Seq<Text>, i: int) -> Seq<Text> {
    hosts.filter(|h: Text| owner(members, h) == Some(i))
}

/// The members from position 0 up to `n` that own any of the hosts, each with the
/// hosts that it owns.
pub open spec fn routed(members: Seq<MemberModel>, hosts: Seq<Text>, n: int) -> Seq<(int, Seq<Text>)>
    decreases n,
{
    if n <= 0 {
        Seq::empty()
    } else {
        let before = routed(members, hosts, n - 1);
        let own = owned_by(members, hosts, n - 1);
        if own.len() > 0 {
            before.push((n - 1, own))
        } else {
            before
        }
    }
}

/// The variables of the first member whose group has any.
pub open spec fn first_vars(members: Seq<MemberModel>, group: Text) -> Option<VarsView>
    decreases members.len(),
{
    if members.len() == 0 {
        None
    } else {
        match first_vars(members.drop_last(), group) {
            Some(vars) => Some(vars),
            None => if has_group(members.last(), group) {
                members.last().entry->0.dataset.groups[group].vars
            } else {
                None
            },
        }
    }
}

/// A group of a view: the hosts and the children that any member's group of that
/// name has, and the variables of the first that has any.
pub open spec fn view_group(members: Seq<MemberModel>, group: Text) -> GroupView {
    GroupView {
        hosts: sorted(Set::new(|h: Text| in_view_group(members, group, h))),
        children: sorted(Set::new(|c: Text| child_in_view_group(members, group, c))),
        vars: first_vars(members, group),
    }
}

/// The groups of a view.
pub open spec fn view_groups(members: Seq<MemberModel>) -> Map<Text, GroupView> {
    Map::new(
        |g: Text| exists|i: int| 0 <= i < members.len() && has_group(#[trigger] members[i], g),
        |g: Text| view_group(members, g),
    )
}

/// The variables of the selected hosts that a view serves.
pub open spec fn view_hostvars(members: Seq<MemberModel>, selection: Seq<Text>) -> Map<Text, VarsView> {
    Map::new(
        |h: Text| selection.contains(h) && serves(members, h),
        |h: Text| served_vars(members, h),
    )
}

/// How old the oldest member is that has ever synced.
pub open spec fn view_age(members: Seq<MemberModel>, now: int) -> int
    decreases members.len(),
{
    if members.len() == 0 {
        0
    } else {
        let before = view_age(members.drop_last(), now);
        match members.last().entry {
            Some(entry) => if seconds_since(now, entry.fetched_at) > before {
                seconds_since(now, entry.fetched_at)
            } else {
                before
            },
            None => before,
        }
    }
}

/// A view is fresh: it has members, and all of them are.
pub open spec fn view_fresh(members: Seq<MemberModel>, now: int) -> bool {
    members.len() > 0 && forall|i: int|
        0 <= i < members.len() ==> (#[trigger] members[i]).entry is Some && members[i].entry->0.fresh(now)
}

/// The longest time to live of any member.
pub open spec fn longest_ttl(members: Seq<MemberModel>) -> int
    decreases members.len(),
{
    if members.len() == 0 {
        0
    } else {
        let before = longest_ttl(members.drop_last());
        if member_ttl(members.last(), None) > before {
            member_ttl(members.last(), None)
        } else {
            before
        }
    }
}

/// A group of a view.
pub struct MergedGroup<'a> {
    pub hosts: Vec<String>,
    pub children: Vec<String>,
    pub vars: Option<&'a HostVars>,
}

impl<'a> DeepView for MergedGroup<'a> {
    type V = GroupView;

    open spec fn deep_view(&self) -> GroupView {
        GroupView {
            hosts: self.hosts.deep_view(),
            children: self.children.deep_view(),
            vars: self.vars.deep_view(),
        }
    }
}

/// A view as one inventory. It removes nothing: that is for those who write.
pub struct MergedDataset<'a> {
    pub hostvars: StrMap<&'a HostVars>,
    pub groups: StrMap<MergedGroup<'a>>,
}

impl<'a> DeepView for MergedDataset<'a> {
    type V = DatasetView;

    open spec fn deep_view(&self) -> DatasetView {
        DatasetView { hostvars: self.hostvars@, groups: self.groups@, remove_hosts: Seq::empty() }
    }
}

/// What a group has while the members are walked.
struct GroupWalk<'a> {
    hosts: StrSet,
    children: StrSet,
    vars: Option<&'a HostVars>,
}

#[verifier::ext_equal]
struct GroupWalkView {
    hosts: Set<Text>,
    children: Set<Text>,
    vars: Option<VarsView>,
}

impl<'a> DeepView for GroupWalk<'a> {
    type V = GroupWalkView;

    closed spec fn deep_view(&self) -> GroupWalkView {
        GroupWalkView { hosts: self.hosts@, children: self.children@, vars: self.vars.deep_view() }
    }
}

spec fn walked_group(members: Seq<MemberModel>, group: Text) -> GroupWalkView {
    GroupWalkView {
        hosts: Set::new(|h: Text| in_view_group(members, group, h)),
        children: Set::new(|c: Text| child_in_view_group(members, group, c)),
        vars: first_vars(members, group),
    }
}

spec fn any_has_group(members: Seq<MemberModel>, group: Text) -> bool {
    exists|i: int| 0 <= i < members.len() && has_group(#[trigger] members[i], group)
}

proof fn lemma_group_step(members: Seq<MemberModel>, i: int, group: Text)
    requires
        0 <= i < members.len(),
    ensures
        any_has_group(members.take(i + 1), group) <==> any_has_group(members.take(i), group) || has_group(
            members[i],
            group,
        ),
        !any_has_group(members.take(i), group) ==> walked_group(members.take(i), group) == (GroupWalkView {
            hosts: Set::empty(),
            children: Set::empty(),
            vars: None,
        }),
        walked_group(members.take(i + 1), group) == (if has_group(members[i], group) {
            let before = walked_group(members.take(i), group);
            let own = members[i].entry->0.dataset.groups[group];
            GroupWalkView {
                hosts: before.hosts.union(own.hosts.to_set()),
                children: before.children.union(own.children.to_set()),
                vars: match before.vars {
                    Some(vars) => Some(vars),
                    None => own.vars,
                },
            }
        } else {
            walked_group(members.take(i), group)
        }),
{
    let now = members.take(i);
    let next = members.take(i + 1);
    assert(next.drop_last() =~= now);
    assert(next.last() == members[i]);
    assert forall|j: int| 0 <= j < i implies #[trigger] now[j] == next[j] by {}
    if any_has_group(now, group) {
        let j = choose|j: int| 0 <= j < now.len() && has_group(#[trigger] now[j], group);
        assert(has_group(next[j], group));
    }
    if has_group(members[i], group) {
        assert(has_group(next[i], group));
    }
    if any_has_group(next, group) {
        let j = choose|j: int| 0 <= j < next.len() && has_group(#[trigger] next[j], group);
        if j < i {
            assert(has_group(now[j], group));
        }
    }
    let own = members[i].entry->0.dataset.groups[group];
    assert forall|h: Text| in_view_group(next, group, h) <==> in_view_group(now, group, h) || (has_group(
        members[i],
        group,
    ) && own.hosts.contains(h)) by {
        if in_view_group(now, group, h) {
            let j = choose|j: int|
                0 <= j < now.len() && has_group(#[trigger] now[j], group)
                    && now[j].entry->0.dataset.groups[group].hosts.contains(h);
            assert(next[j] == now[j]);
        }
        if has_group(members[i], group) && own.hosts.contains(h) {
            assert(next[i] == members[i]);
        }
        if in_view_group(next, group, h) {
            let j = choose|j: int|
                0 <= j < next.len() && has_group(#[trigger] next[j], group)
                    && next[j].entry->0.dataset.groups[group].hosts.contains(h);
            if j < i {
                assert(now[j] == next[j]);
            }
        }
    }
    assert forall|c: Text| child_in_view_group(next, group, c) <==> child_in_view_group(now, group, c) || (has_group(
        members[i],
        group,
    ) && own.children.contains(c)) by {
        if child_in_view_group(now, group, c) {
            let j = choose|j: int|
                0 <= j < now.len() && has_group(#[trigger] now[j], group)
                    && now[j].entry->0.dataset.groups[group].children.contains(c);
            assert(next[j] == now[j]);
        }
        if has_group(members[i], group) && own.children.contains(c) {
            assert(next[i] == members[i]);
        }
        if child_in_view_group(next, group, c) {
            let j = choose|j: int|
                0 <= j < next.len() && has_group(#[trigger] next[j], group)
                    && next[j].entry->0.dataset.groups[group].children.contains(c);
            if j < i {
                assert(now[j] == next[j]);
            }
        }
    }
    lemma_no_vars(now, group);
    if !any_has_group(now, group) {
        assert(walked_group(now, group).hosts =~= Set::empty());
        assert(walked_group(now, group).children =~= Set::empty());
    }
    if has_group(members[i], group) {
        assert(walked_group(next, group).hosts =~= walked_group(now, group).hosts.union(own.hosts.to_set()));
        assert(walked_group(next, group).children =~= walked_group(now, group).children.union(
            own.children.to_set(),
        ));
    } else {
        assert(walked_group(next, group).hosts =~= walked_group(now, group).hosts);
        assert(walked_group(next, group).children =~= walked_group(now, group).children);
    }
}

proof fn lemma_no_vars(members: Seq<MemberModel>, group: Text)
    ensures
        !any_has_group(members, group) ==> first_vars(members, group) is None,
    decreases members.len(),
{
    if members.len() > 0 && !any_has_group(members, group) {
        let rest = members.drop_last();
        assert(!any_has_group(rest, group)) by {
            if any_has_group(rest, group) {
                let j = choose|j: int| 0 <= j < rest.len() && has_group(#[trigger] rest[j], group);
                assert(has_group(members[j], group));
            }
        }
        lemma_no_vars(rest, group);
        assert(!has_group(members[members.len() - 1], group));
    }
}

impl<'a> ViewSnapshot<'a> {
    /// The hosts that the view serves, in ascending order: those that are claimed,
    /// and of which the owner has data.
    pub fn hosts(&self) -> (hosts: Vec<String>)
        ensures
            hosts.deep_view() == sorted(served_set(self.members.deep_view())),
    {
        let table = self.routing();
        let ghost members = self.members.deep_view();
        let mut found = StrSet::new();
        let n: usize = table.len();
        let ghost keys = sorted(table@.dom());
        let mut i: usize = 0;
        while i < n
            invariant
                i <= n == keys.len(),
                keys == sorted(table@.dom()),
                members == self.members.deep_view(),
                forall|h: Text| #[trigger] table@.contains_key(h) ==> owner(members, h) == Some(table@[h] as int),
                forall|h: Text| #[trigger]
                    found@.contains(h) <==> keys.take(i as int).contains(h) && serves(members, h),
            decreases n - i,
        {
            let host: &String = table.key_at(i);
            let index: usize = *table.value_at(i);
            proof {
                lemma_prefix_step(keys, i as int);
                lemma_owner(members, host@);
                assert(table@.contains_key(host@));
                assert(members[index as int] == self.members@[index as int].deep_view());
            }
            if self.members[index].has(host.as_str()) {
                found.insert(host.clone());
            }
            i += 1;
        }
        proof {
            lemma_prefix_whole(table@.dom());
            assert(found@ =~= served_set(members));
        }
        found.to_vec()
    }

    /// Splits names into those that the view serves and those that nobody claims.
    fn select_names(&self, names: &Vec<String>) -> (r: (StrSet, Vec<String>))
        ensures
            r.0@ == Set::new(
                |h: Text| names.deep_view().contains(h) && serves(self.members.deep_view(), h),
            ),
            r.1.deep_view() == names.deep_view().filter_map(unclaimed_name(self.members.deep_view())),
    {
        let ghost members = self.members.deep_view();
        let ghost all = names.deep_view();
        let ghost nobody = unclaimed_name(members);
        let mut selected = StrSet::new();
        let mut unclaimed: Vec<String> = Vec::new();
        let mut i: usize = 0;
        assert(unclaimed.deep_view() =~= all.take(0).filter_map(nobody));
        while i < names.len()
            invariant
                i <= names@.len(),
                all == names.deep_view(),
                members == self.members.deep_view(),
                nobody == unclaimed_name(members),
                forall|h: Text| #[trigger]
                    selected@.contains(h) <==> all.take(i as int).contains(h) && serves(members, h),
                unclaimed.deep_view() == all.take(i as int).filter_map(nobody),
            decreases names@.len() - i,
        {
            let name: &String = &names[i];
            let ghost before = unclaimed.deep_view();
            proof {
                lemma_prefix_step(all, i as int);
                all.lemma_filter_map_take_succ(nobody, i as int);
                assert(all[i as int] == name@);
            }
            match self.owner_index(name.as_str()) {
                Some(index) => {
                    assert(members[index as int] == self.members@[index as int].deep_view());
                    if self.members[index].has(name.as_str()) {
                        selected.insert(name.clone());
                    }
                },
                None => {
                    unclaimed.push(name.clone());
                    assert(unclaimed.deep_view() =~= before + seq![name@]);
                },
            }
            i += 1;
        }
        assert(all.take(all.len() as int) =~= all);
        assert(selected@ =~= Set::new(|h: Text| all.contains(h) && serves(members, h)));
        (selected, unclaimed)
    }

    fn select_group(&self, group: &str) -> (hosts: StrSet)
        ensures
            hosts@ == Set::new(|h: Text| in_view_group(self.members.deep_view(), group@, h)),
    {
        let ghost members = self.members.deep_view();
        let mut hosts = StrSet::new();
        let mut i: usize = 0;
        assert(hosts@ =~= walked_group(members.take(0), group@).hosts);
        while i < self.members.len()
            invariant
                i <= self.members@.len(),
                members == self.members.deep_view(),
                hosts@ == walked_group(members.take(i as int), group@).hosts,
            decreases self.members@.len() - i,
        {
            proof {
                lemma_group_step(members, i as int, group@);
                assert(members[i as int] == self.members@[i as int].deep_view());
            }
            if let Some(entry) = &self.members[i].entry {
                if let Some(found) = entry.dataset().groups.get(group) {
                    hosts.extend(&found.hosts);
                }
            }
            i += 1;
        }
        assert(members.take(members.len() as int) =~= members);
        hosts
    }

    /// The hosts that a request asks for, in ascending order and each once. A host
    /// that it names and that nobody claims is refused; a filter that matches
    /// nothing selects nothing.
    pub fn select(&self, host: Option<&str>, group: Option<&str>) -> (r: Result<Vec<String>, UnclaimedHosts>)
        ensures
            match r {
                Ok(hosts) => selection_of(self.members.deep_view(), host.deep_view(), group.deep_view()) == Ok::<
                    Seq<Text>,
                    Seq<Text>,
                >(hosts.deep_view()),
                Err(e) => selection_of(self.members.deep_view(), host.deep_view(), group.deep_view()) == Err::<
                    Seq<Text>,
                    Seq<Text>,
                >(e.0.deep_view()),
            },
    {
        match host {
            Some(names) => {
                let wanted = comma_list(names);
                let (selected, unclaimed) = self.select_names(&wanted);
                assert(unclaimed.deep_view().len() == unclaimed@.len());
                if unclaimed.len() > 0 {
                    return Err(UnclaimedHosts(unclaimed));
                }
                Ok(selected.to_vec())
            },
            None => match group {
                Some(name) => Ok(self.select_group(name).to_vec()),
                None => Ok(self.hosts()),
            },
        }
    }
}

/// The owners of hosts, one for each.
spec fn owners_are(members: Seq<MemberModel>, hosts: Seq<Text>, owners: Seq<usize>) -> bool {
    &&& owners.len() == hosts.len()
    &&& forall|j: int| 0 <= j < hosts.len() ==> owner(members, hosts[j]) == Some(#[trigger] owners[j] as int)
}

fn pick_owned(hosts: &Vec<String>, owners: &Vec<usize>, index: usize, Ghost(members): Ghost<Seq<MemberModel>>) -> (own: Vec<
    String,
>)
    requires
        owners_are(members, hosts.deep_view(), owners@),
    ensures
        own.deep_view() == owned_by(members, hosts.deep_view(), index as int),
{
    let ghost all = hosts.deep_view();
    let ghost mine = |h: Text| owner(members, h) == Some(index as int);
    let mut own: Vec<String> = Vec::new();
    let mut i: usize = 0;
    proof {
        reveal(Seq::filter);
        assert(all.take(0).filter(mine) =~= own.deep_view());
    }
    while i < hosts.len()
        invariant
            i <= hosts@.len(),
            all == hosts.deep_view(),
            owners_are(members, all, owners@),
            mine == (|h: Text| owner(members, h) == Some(index as int)),
            own.deep_view() == all.take(i as int).filter(mine),
        decreases hosts@.len() - i,
    {
        let ghost before = own.deep_view();
        proof {
            reveal(Seq::filter);
            assert(all.take(i + 1).drop_last() =~= all.take(i as int));
            assert(all[i as int] == hosts@[i as int]@);
            assert(owner(members, all[i as int]) == Some(owners@[i as int] as int));
        }
        if owners[i] == index {
            own.push(hosts[i].clone());
            assert(own.deep_view() =~= before.push(all[i as int]));
        }
        i += 1;
    }
    assert(all.take(all.len() as int) =~= all);
    own
}

impl<'a> ViewSnapshot<'a> {
    /// Groups hosts by the member that owns them, in the order of the members. A
    /// host that nobody claims is refused.
    pub fn route(&self, hosts: &Vec<String>) -> (r: Result<Vec<(&MemberSnapshot<'a>, Vec<String>)>, UnclaimedHosts>)
        ensures
            match r {
                Ok(parts) => {
                    let want = routed(
                        self.members.deep_view(),
                        hosts.deep_view(),
                        self.members@.len() as int,
                    );
                    &&& hosts.deep_view().filter_map(unclaimed_name(self.members.deep_view())).len() == 0
                    &&& parts@.len() == want.len()
                    &&& forall|k: int|
                        0 <= k < want.len() ==> *(#[trigger] parts@[k]).0 == self.members@[want[k].0]
                            && parts@[k].1.deep_view() == want[k].1
                },
                Err(e) => {
                    let nobody = hosts.deep_view().filter_map(unclaimed_name(self.members.deep_view()));
                    nobody.len() > 0 && e.0.deep_view() == nobody
                },
            },
    {
        let routing = self.prepare_routing(hosts.len());
        let ghost members = self.members.deep_view();
        let ghost all = hosts.deep_view();
        let ghost nobody = unclaimed_name(members);
        let mut owners: Vec<usize> = Vec::new();
        let mut unclaimed: Vec<String> = Vec::new();
        let mut i: usize = 0;
        assert(unclaimed.deep_view() =~= all.take(0).filter_map(nobody));
        while i < hosts.len()
            invariant
                i <= hosts@.len(),
                all == hosts.deep_view(),
                members == self.members.deep_view(),
                nobody == unclaimed_name(members),
                routing.is_of(members),
                unclaimed.deep_view() == all.take(i as int).filter_map(nobody),
                unclaimed@.len() == 0 ==> owners@.len() == i,
                unclaimed@.len() == 0 ==> forall|j: int|
                    0 <= j < i ==> owner(members, all[j]) == Some(#[trigger] owners@[j] as int),
            decreases hosts@.len() - i,
        {
            let ghost before = unclaimed.deep_view();
            proof {
                all.lemma_filter_map_take_succ(nobody, i as int);
                assert(all[i as int] == hosts@[i as int]@);
            }
            match self.look_up(&routing, hosts[i].as_str()) {
                Some(index) => {
                    owners.push(index);
                },
                None => {
                    unclaimed.push(hosts[i].clone());
                    assert(unclaimed.deep_view() =~= before + seq![all[i as int]]);
                },
            }
            i += 1;
        }
        assert(all.take(all.len() as int) =~= all);
        assert(unclaimed.deep_view().len() == unclaimed@.len());
        if unclaimed.len() > 0 {
            return Err(UnclaimedHosts(unclaimed));
        }
        let mut parts: Vec<(&MemberSnapshot<'a>, Vec<String>)> = Vec::new();
        let mut k: usize = 0;
        while k < self.members.len()
            invariant
                k <= self.members@.len(),
                all == hosts.deep_view(),
                members == self.members.deep_view(),
                owners_are(members, all, owners@),
                parts@.len() == routed(members, all, k as int).len(),
                forall|x: int|
                    0 <= x < parts@.len() ==> *(#[trigger] parts@[x]).0 == self.members@[routed(
                        members,
                        all,
                        k as int,
                    )[x].0] && parts@[x].1.deep_view() == routed(members, all, k as int)[x].1,
            decreases self.members@.len() - k,
        {
            let own = pick_owned(hosts, &owners, k, Ghost(members));
            let ghost list = own.deep_view();
            assert(list.len() == own@.len());
            if own.len() > 0 {
                parts.push((&self.members[k], own));
            }
            k += 1;
        }
        Ok(parts)
    }

    /// The variables of the selected hosts, each from the member that owns it.
    pub fn hostvars(&self, selection: &Vec<String>) -> (vars: StrMap<&HostVars>)
        ensures
            vars@ == view_hostvars(self.members.deep_view(), selection.deep_view()),
    {
        let routing = self.prepare_routing(selection.len());
        let ghost members = self.members.deep_view();
        let ghost all = selection.deep_view();
        let mut found: StrMap<&HostVars> = StrMap::new();
        let mut i: usize = 0;
        while i < selection.len()
            invariant
                i <= selection@.len(),
                all == selection.deep_view(),
                members == self.members.deep_view(),
                routing.is_of(members),
                forall|h: Text| #[trigger]
                    found@.contains_key(h) <==> all.take(i as int).contains(h) && serves(members, h),
                forall|h: Text| #[trigger] found@.contains_key(h) ==> found@[h] == served_vars(members, h),
            decreases selection@.len() - i,
        {
            let host: &String = &selection[i];
            proof {
                lemma_prefix_step(all, i as int);
                assert(all[i as int] == host@);
            }
            if let Some(index) = self.look_up(&routing, host.as_str()) {
                assert(members[index as int] == self.members@[index as int].deep_view());
                if let Some(entry) = &self.members[index].entry {
                    if let Some(vars) = entry.dataset().hostvars.get(host.as_str()) {
                        found.insert(host.clone(), vars);
                    }
                }
            }
            i += 1;
        }
        assert(all.take(all.len() as int) =~= all);
        assert(found@ =~= view_hostvars(members, all));
        found
    }

    fn walk_groups(&self) -> (walked: StrMap<GroupWalk<'_>>)
        ensures
            forall|g: Text| #[trigger]
                walked@.contains_key(g) <==> any_has_group(self.members.deep_view(), g),
            forall|g: Text| #[trigger]
                walked@.contains_key(g) ==> walked@[g] == walked_group(self.members.deep_view(), g),
    {
        let ghost members = self.members.deep_view();
        let mut walked: StrMap<GroupWalk<'_>> = StrMap::new();
        let mut i: usize = 0;
        while i < self.members.len()
            invariant
                i <= self.members@.len(),
                members == self.members.deep_view(),
                forall|g: Text| #[trigger]
                    walked@.contains_key(g) <==> any_has_group(members.take(i as int), g),
                forall|g: Text| #[trigger]
                    walked@.contains_key(g) ==> walked@[g] == walked_group(members.take(i as int), g),
            decreases self.members@.len() - i,
        {
            assert(members[i as int] == self.members@[i as int].deep_view());
            let ghost before = walked@;
            if let Some(entry) = &self.members[i].entry {
                let groups = &entry.dataset().groups;
                let n: usize = groups.len();
                let ghost names = sorted(groups@.dom());
                let mut j: usize = 0;
                while j < n
                    invariant
                        j <= n == names.len(),
                        i < members.len(),
                        names == sorted(groups@.dom()),
                        groups@.dom().finite(),
                        members[i as int].entry matches Some(e) && e.dataset.groups == groups@,
                        forall|g: Text| #[trigger]
                            before.contains_key(g) <==> any_has_group(members.take(i as int), g),
                        forall|g: Text| #[trigger]
                            before.contains_key(g) ==> before[g] == walked_group(members.take(i as int), g),
                        forall|g: Text| #[trigger]
                            walked@.contains_key(g) <==> before.contains_key(g) || names.take(j as int).contains(g),
                        forall|g: Text| #[trigger]
                            walked@.contains_key(g) ==> walked@[g] == (if names.take(j as int).contains(g) {
                                walked_group(members.take(i + 1), g)
                            } else {
                                before[g]
                            }),
                    decreases n - j,
                {
                    let name: &String = groups.key_at(j);
                    proof {
                        lemma_prefix_step(names, j as int);
                        lemma_sorted(groups@.dom());
                        let earlier = names.take(j as int);
                        if earlier.contains(names[j as int]) {
                            let x = choose|x: int| 0 <= x < earlier.len() && earlier[x] == names[j as int];
                            assert(names[x] == names[j as int]);
                        }
                        lemma_group_step(members, i as int, name@);
                        assert(has_group(members[i as int], name@));
                    }
                    let group = groups.value_at(j);
                    let mut target = match walked.remove(name.as_str()) {
                        Some(target) => target,
                        None => GroupWalk { hosts: StrSet::new(), children: StrSet::new(), vars: None },
                    };
                    target.hosts.extend(&group.hosts);
                    target.children.extend(&group.children);
                    if target.vars.is_none() {
                        target.vars = group.vars.as_ref();
                    }
                    assert(target.deep_view() =~= walked_group(members.take(i + 1), name@));
                    walked.insert(name.clone(), target);
                    j += 1;
                }
                proof {
                    lemma_prefix_whole(groups@.dom());
                }
            }
            proof {
                assert forall|g: Text| #[trigger]
                    walked@.contains_key(g) <==> any_has_group(members.take(i + 1), g) by {
                    lemma_group_step(members, i as int, g);
                    assert(before.contains_key(g) <==> any_has_group(members.take(i as int), g));
                }
                assert forall|g: Text| #[trigger] walked@.contains_key(g) implies walked@[g] == walked_group(
                    members.take(i + 1),
                    g,
                ) by {
                    lemma_group_step(members, i as int, g);
                    assert(before.contains_key(g) <==> any_has_group(members.take(i as int), g));
                }
            }
            i += 1;
        }
        assert(members.take(members.len() as int) =~= members);
        walked
    }

    /// The groups of the view: those of all members, of the same name as one.
    pub fn groups(&self) -> (groups: StrMap<MergedGroup<'_>>)
        ensures
            groups@ == view_groups(self.members.deep_view()),
    {
        let ghost members = self.members.deep_view();
        let walked = self.walk_groups();
        let mut groups: StrMap<MergedGroup<'_>> = StrMap::new();
        let n: usize = walked.len();
        let ghost names = sorted(walked@.dom());
        let mut i: usize = 0;
        while i < n
            invariant
                i <= n == names.len(),
                names == sorted(walked@.dom()),
                forall|g: Text| #[trigger]
                    walked@.contains_key(g) ==> walked@[g] == walked_group(members, g),
                forall|g: Text| #[trigger] groups@.contains_key(g) <==> names.take(i as int).contains(g),
                forall|g: Text| #[trigger] groups@.contains_key(g) ==> groups@[g] == view_group(members, g),
            decreases n - i,
        {
            let name: &String = walked.key_at(i);
            let found = walked.value_at(i);
            proof {
                lemma_prefix_step(names, i as int);
                assert(walked@.contains_key(name@));
            }
            let group = MergedGroup {
                hosts: found.hosts.to_vec(),
                children: found.children.to_vec(),
                vars: found.vars,
            };
            assert(group.deep_view() == view_group(members, name@));
            groups.insert(name.clone(), group);
            i += 1;
        }
        proof {
            lemma_prefix_whole(walked@.dom());
            assert forall|g: Text| #[trigger] groups@.contains_key(g) <==> view_groups(members).contains_key(g) by {
                assert(any_has_group(members, g) <==> walked@.contains_key(g));
            }
            assert(groups@ =~= view_groups(members));
        }
        groups
    }

    /// The view as one inventory, with the selected hosts.
    pub fn dataset(&self, selection: &Vec<String>) -> (dataset: MergedDataset<'_>)
        ensures
            dataset.deep_view() == (DatasetView {
                hostvars: view_hostvars(self.members.deep_view(), selection.deep_view()),
                groups: view_groups(self.members.deep_view()),
                remove_hosts: Seq::empty(),
            }),
    {
        MergedDataset { hostvars: self.hostvars(selection), groups: self.groups() }
    }

    /// How old the view is at the given moment: as old as its oldest member.
    pub fn age_seconds_at(&self, now: Instant) -> (age: u64)
        ensures
            age == view_age(self.members.deep_view(), nanos(now)),
    {
        let ghost members = self.members.deep_view();
        let mut age: u64 = 0;
        let mut i: usize = 0;
        while i < self.members.len()
            invariant
                i <= self.members@.len(),
                members == self.members.deep_view(),
                age == view_age(members.take(i as int), nanos(now)),
            decreases self.members@.len() - i,
        {
            assert(members.take(i + 1).drop_last() =~= members.take(i as int));
            assert(members[i as int] == self.members@[i as int].deep_view());
            if let Some(entry) = &self.members[i].entry {
                let own: u64 = entry.age_seconds_at(now);
                if own > age {
                    age = own;
                }
            }
            i += 1;
        }
        assert(members.take(members.len() as int) =~= members);
        age
    }

    /// How old the view is.
    pub fn age_seconds(&self) -> (age: u64)
        ensures
            exists|now: Instant| is_reading(now) && age == view_age(self.members.deep_view(), #[trigger] nanos(now)),
    {
        self.age_seconds_at(read_clock())
    }

    /// Whether the view is fresh at the given moment.
    pub fn is_fresh_at(&self, now: Instant) -> (fresh: bool)
        ensures
            fresh == view_fresh(self.members.deep_view(), nanos(now)),
    {
        let ghost members = self.members.deep_view();
        if self.members.len() == 0 {
            return false;
        }
        let mut i: usize = 0;
        while i < self.members.len()
            invariant
                i <= self.members@.len(),
                members == self.members.deep_view(),
                forall|j: int|
                    0 <= j < i ==> (#[trigger] members[j]).entry is Some && members[j].entry->0.fresh(nanos(now)),
            decreases self.members@.len() - i,
        {
            assert(members[i as int] == self.members@[i as int].deep_view());
            let fresh: bool = match &self.members[i].entry {
                Some(entry) => entry.is_fresh_at(now),
                None => false,
            };
            if !fresh {
                return false;
            }
            i += 1;
        }
        true
    }

    /// Whether the view is fresh.
    pub fn is_fresh(&self) -> (fresh: bool)
        ensures
            exists|now: Instant| is_reading(now) && fresh == view_fresh(self.members.deep_view(), #[trigger] nanos(now)),
    {
        self.is_fresh_at(read_clock())
    }

    /// The time to live of the view: its own, else the longest of its members.
    pub fn ttl_seconds(&self) -> (ttl: u64)
        ensures
            ttl == (match self.view.ttl_seconds {
                Some(ttl) => ttl as int,
                None => longest_ttl(self.members.deep_view()),
            }),
    {
        let ghost members = self.members.deep_view();
        if let Some(ttl) = self.view.ttl_seconds {
            return ttl;
        }
        let mut longest: u64 = 0;
        let mut i: usize = 0;
        while i < self.members.len()
            invariant
                i <= self.members@.len(),
                members == self.members.deep_view(),
                self.view.ttl_seconds is None,
                longest == longest_ttl(members.take(i as int)),
            decreases self.members@.len() - i,
        {
            assert(members.take(i + 1).drop_last() =~= members.take(i as int));
            assert(members[i as int] == self.members@[i as int].deep_view());
            let own: u64 = self.members[i].default_ttl(self.view);
            if own > longest {
                longest = own;
            }
            i += 1;
        }
        assert(members.take(members.len() as int) =~= members);
        longest
    }
}

impl<'a> MergedDataset<'a> {
    /// The view as an inventory of its own.
    pub fn to_dataset(&self) -> (dataset: Dataset)
        ensures
            dataset@ == self.deep_view(),
    {
        let mut hostvars: StrMap<HostVars> = StrMap::new();
        let n: usize = self.hostvars.len();
        let ghost hosts = sorted(self.hostvars@.dom());
        let mut i: usize = 0;
        while i < n
            invariant
                i <= n == hosts.len(),
                hosts == sorted(self.hostvars@.dom()),
                forall|k: Text| #[trigger] hostvars@.contains_key(k) <==> hosts.take(i as int).contains(k),
                forall|k: Text| #[trigger] hostvars@.contains_key(k) ==> hostvars@[k] == self.hostvars@[k],
            decreases n - i,
        {
            proof {
                lemma_prefix_step(hosts, i as int);
            }
            hostvars.insert(self.hostvars.key_at(i).clone(), (**self.hostvars.value_at(i)).dup());
            i += 1;
        }
        let mut groups: StrMap<Group> = StrMap::new();
        let m: usize = self.groups.len();
        let ghost names = sorted(self.groups@.dom());
        let mut j: usize = 0;
        while j < m
            invariant
                j <= m == names.len(),
                names == sorted(self.groups@.dom()),
                forall|k: Text| #[trigger] groups@.contains_key(k) <==> names.take(j as int).contains(k),
                forall|k: Text| #[trigger] groups@.contains_key(k) ==> groups@[k] == self.groups@[k],
            decreases m - j,
        {
            proof {
                lemma_prefix_step(names, j as int);
            }
            let found = self.groups.value_at(j);
            let vars: Option<HostVars> = match found.vars {
                Some(vars) => Some((*vars).dup()),
                None => None,
            };
            groups.insert(
                self.groups.key_at(j).clone(),
                Group { hosts: found.hosts.dup(), children: found.children.dup(), vars },
            );
            j += 1;
        }
        let dataset = Dataset { hostvars, groups, remove_hosts: Vec::new() };
        proof {
            lemma_prefix_whole(self.hostvars@.dom());
            lemma_prefix_whole(self.groups@.dom());
            assert(hostvars@ =~= self.hostvars@);
            assert(groups@ =~= self.groups@);
            assert(dataset@.remove_hosts =~= Seq::empty());
        }
        dataset
    }
}

} // verus!
