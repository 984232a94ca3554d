//! Inventories put together from several sources.

use crate::domain::cache_entry::contains_string;
use crate::domain::dataset::Dataset;
#[allow(unused_imports)]
use crate::domain::dataset::DatasetView;
use crate::domain::source::in_any_group;
#[allow(unused_imports)]
use crate::domain::source::{host_known, in_named_group, in_some_group, lemma_named_group_step};
use crate::model::{Dup, Same};
use crate::strmap::StrSet;
#[allow(unused_imports)]
use crate::strmap::{lemma_prefix_step, lemma_prefix_whole, sorted};
#[allow(unused_imports)]
use crate::text::Text;
#[allow(unused_imports)]
use vstd::view::View as _;
use vstd::prelude::*;

verus! {

/// Which hosts a member of a view answers for, as another source lists them; without groups and hosts, all of them.
#[derive(Debug, PartialEq)]
pub struct Ownership {
    /// The source that says who is in a group.
    pub source: String,
    pub groups: Vec<String>,
    pub hosts: Vec<String>,
    /// Whether the member itself says what it answers for.
    pub advertised: bool,
}

/// What a [`Ownership`] holds.
#[verifier::ext_equal]
pub struct OwnershipModel {
    pub source: Text,
    pub groups: Seq<Text>,
    pub hosts: Seq<Text>,
    pub advertised: bool,
}

impl DeepView for Ownership {
    type V = OwnershipModel;

    open spec fn deep_view(&self) -> OwnershipModel {
        OwnershipModel {
            source: self.source.deep_view(),
            groups: self.groups.deep_view(),
            hosts: self.hosts.deep_view(),
            advertised: self.advertised.deep_view(),
        }
    }
}

impl Dup for Ownership {
    fn dup(&self) -> (copy: Self) {
        Ownership {
            source: self.source.dup(),
            groups: self.groups.dup(),
            hosts: self.hosts.dup(),
            advertised: self.advertised.dup(),
        }
    }
}

impl Same for Ownership {
    fn same(&self, other: &Self) -> (equal: bool) {
        self.source.same(&other.source)
            && self.groups.same(&other.groups)
            && self.hosts.same(&other.hosts)
            && self.advertised.same(&other.advertised)
    }
}

impl Clone for Ownership {
    fn clone(&self) -> (copy: Self)
        ensures
            copy.deep_view() == self.deep_view(),
    {
        self.dup()
    }
}

/// A member of a view.
#[derive(Debug, PartialEq)]
pub struct ViewMember {
    pub source: String,
    pub owns: Ownership,
}

/// What a [`ViewMember`] holds.
#[verifier::ext_equal]
pub struct ViewMemberModel {
    pub source: Text,
    pub owns: OwnershipModel,
}

impl DeepView for ViewMember {
    type V = ViewMemberModel;

    open spec fn deep_view(&self) -> ViewMemberModel {
        ViewMemberModel {
            source: self.source.deep_view(),
            owns: self.owns.deep_view(),
        }
    }
}

impl Dup for ViewMember {
    fn dup(&self) -> (copy: Self) {
        ViewMember {
            source: self.source.dup(),
            owns: self.owns.dup(),
        }
    }
}

impl Same for ViewMember {
    fn same(&self, other: &Self) -> (equal: bool) {
        self.source.same(&other.source)
            && self.owns.same(&other.owns)
    }
}

impl Clone for ViewMember {
    fn clone(&self) -> (copy: Self)
        ensures
            copy.deep_view() == self.deep_view(),
    {
        self.dup()
    }
}

/// An inventory put together from several sources. The first member that claims a host answers for it.
#[derive(Debug, PartialEq)]
pub struct View {
    pub name: String,
    pub members: Vec<ViewMember>,
    pub ttl_seconds: Option<u64>,
}

/// What a [`View`] holds.
#[verifier::ext_equal]
pub struct ViewModel {
    pub name: Text,
    pub members: Seq<ViewMemberModel>,
    pub ttl_seconds: Option<u64>,
}

impl DeepView for View {
    type V = ViewModel;

    open spec fn deep_view(&self) -> ViewModel {
        ViewModel {
            name: self.name.deep_view(),
            members: self.members.deep_view(),
            ttl_seconds: self.ttl_seconds.deep_view(),
        }
    }
}

impl Dup for View {
    fn dup(&self) -> (copy: Self) {
        View {
            name: self.name.dup(),
            members: self.members.dup(),
            ttl_seconds: self.ttl_seconds.dup(),
        }
    }
}

impl Same for View {
    fn same(&self, other: &Self) -> (equal: bool) {
        self.name.same(&other.name)
            && self.members.same(&other.members)
            && self.ttl_seconds.same(&other.ttl_seconds)
    }
}

impl Clone for View {
    fn clone(&self) -> (copy: Self)
        ensures
            copy.deep_view() == self.deep_view(),
    {
        self.dup()
    }
}

/// Nothing is named, so that every host of the source is claimed.
pub open spec fn claims_all(owns: OwnershipModel) -> bool {
    owns.groups.len() == 0 && owns.hosts.len() == 0
}

/// A host is claimed, as the given inventory lists the groups.
pub open spec fn claims_host(owns: OwnershipModel, dataset: DatasetView, host: Text) -> bool {
    if claims_all(owns) {
        host_known(dataset, host)
    } else {
        owns.hosts.contains(host) || in_named_group(dataset.groups, owns.groups, host)
    }
}

/// The hosts that are claimed, as the given inventory lists the groups.
pub open spec fn claimed(owns: OwnershipModel, dataset: DatasetView) -> Set<Text> {
    Set::new(|h: Text| claims_host(owns, dataset, h))
}

impl Ownership {
    /// Whether nothing is named, so that every host of the source is claimed.
    pub fn is_catch_all(&self) -> (all: bool)
        ensures
            all == claims_all(self.deep_view()),
    {
        self.groups.is_empty() && self.hosts.is_empty()
    }

    /// Whether a host is claimed, as the given inventory lists the groups.
    pub fn claims(&self, dataset: &Dataset, hostname: &str) -> (claimed: bool)
        ensures
            claimed == claims_host(self.deep_view(), dataset@, hostname@),
    {
        if self.is_catch_all() {
            return dataset.hostvars.contains_key(hostname) || in_any_group(&dataset.groups, hostname);
        }
        if contains_string(&self.hosts, hostname) {
            return true;
        }
        let ghost names = self.groups.deep_view();
        let mut i: usize = 0;
        while i < self.groups.len()
            invariant
                i <= self.groups@.len(),
                names == self.groups.deep_view(),
                !in_named_group(dataset@.groups, names.take(i as int), hostname@),
            decreases self.groups@.len() - i,
        {
            proof {
                lemma_named_group_step(dataset@.groups, names, i as int, hostname@);
                assert(names[i as int] == self.groups@[i as int]@);
            }
            if let Some(group) = dataset.groups.get(self.groups[i].as_str()) {
                if contains_string(&group.hosts, hostname) {
                    assert(in_named_group(dataset@.groups, names, hostname@));
                    return true;
                }
            }
            i += 1;
        }
        assert(names.take(names.len() as int) =~= names);
        false
    }

    /// The hosts that are claimed, as the given inventory lists the groups.
    pub fn claimed_hosts(&self, dataset: &Dataset) -> (hosts: StrSet)
        ensures
            hosts@ == claimed(self.deep_view(), dataset@),
    {
        let mut hosts = StrSet::new();
        let ghost owns = self.deep_view();
        if self.is_catch_all() {
            let n: usize = dataset.hostvars.len();
            let ghost keys = sorted(dataset@.hostvars.dom());
            let mut i: usize = 0;
            while i < n
                invariant
                    i <= n == keys.len(),
                    keys == sorted(dataset@.hostvars.dom()),
                    forall|k: Text| #[trigger] hosts@.contains(k) <==> keys.take(i as int).contains(k),
                decreases n - i,
            {
                proof {
                    lemma_prefix_step(keys, i as int);
                }
                hosts.insert(dataset.hostvars.key_at(i).clone());
                i += 1;
            }
            proof {
                lemma_prefix_whole(dataset@.hostvars.dom());
            }
            let m: usize = dataset.groups.len();
            let ghost names = sorted(dataset@.groups.dom());
            let mut j: usize = 0;
            assert(forall|k: Text| #[trigger] hosts@.contains(k) <==> dataset@.hostvars.contains_key(k));
            while j < m
                invariant
                    j <= m == names.len(),
                    names == sorted(dataset@.groups.dom()),
                    forall|k: Text| #[trigger]
                        hosts@.contains(k) <==> dataset@.hostvars.contains_key(k) || in_named_group(
                            dataset@.groups,
                            names.take(j as int),
                            k,
                        ),
                decreases m - j,
            {
                let ghost before = hosts@;
                let group = dataset.groups.value_at(j);
                hosts.extend(&group.hosts);
                proof {
                    assert forall|k: Text| #[trigger]
                        hosts@.contains(k) <==> dataset@.hostvars.contains_key(k) || in_named_group(
                            dataset@.groups,
                            names.take(j + 1),
                            k,
                        ) by {
                        lemma_named_group_step(dataset@.groups, names, j as int, k);
                        assert(group.hosts.deep_view().to_set().contains(k) <==> group.hosts.deep_view().contains(k));
                        assert(before.contains(k) ==> hosts@.contains(k));
                    }
                }
                j += 1;
            }
            proof {
                assert(names.take(m as int) =~= names);
                lemma_prefix_whole(dataset@.groups.dom());
                assert forall|k: Text| in_named_group(dataset@.groups, names, k) <==> in_some_group(
                    dataset@.groups,
                    k,
                ) by {
                    if in_some_group(dataset@.groups, k) {
                        let g = choose|g: Text| #[trigger]
                            dataset@.groups.contains_key(g) && dataset@.groups[g].hosts.contains(k);
                        assert(names.contains(g));
                        let x = choose|x: int| 0 <= x < names.len() && names[x] == g;
                        assert(names[x] == g);
                    }
                }
                assert(hosts@ =~= claimed(owns, dataset@));
            }
            return hosts;
        }
        hosts.extend(&self.hosts);
        let ghost listed = self.hosts.deep_view();
        let ghost names = self.groups.deep_view();
        let mut i: usize = 0;
        proof {
            assert forall|k: Text| #[trigger]
                hosts@.contains(k) <==> listed.contains(k) || in_named_group(dataset@.groups, names.take(0), k) by {
                assert(listed.to_set().contains(k) <==> listed.contains(k));
            }
        }
        while i < self.groups.len()
            invariant
                i <= self.groups@.len(),
                names == self.groups.deep_view(),
                forall|k: Text| #[trigger]
                    hosts@.contains(k) <==> listed.contains(k) || in_named_group(
                        dataset@.groups,
                        names.take(i as int),
                        k,
                    ),
            decreases self.groups@.len() - i,
        {
            let ghost before = hosts@;
            let name: &String = &self.groups[i];
            assert(names[i as int] == name@);
            if let Some(group) = dataset.groups.get(name.as_str()) {
                hosts.extend(&group.hosts);
                assert forall|k: Text| #[trigger] hosts@.contains(k) <==> before.contains(k)
                    || dataset@.groups[name@].hosts.contains(k) by {
                    assert(group.hosts.deep_view().to_set().contains(k) <==> group.hosts.deep_view().contains(k));
                }
            }
            proof {
                assert forall|k: Text| #[trigger]
                    hosts@.contains(k) <==> listed.contains(k) || in_named_group(
                        dataset@.groups,
                        names.take(i + 1),
                        k,
                    ) by {
                    lemma_named_group_step(dataset@.groups, names, i as int, k);
                    assert(before.contains(k) ==> hosts@.contains(k));
                }
            }
            i += 1;
        }
        assert(names.take(names.len() as int) =~= names);
        assert(hosts@ =~= claimed(owns, dataset@));
        hosts
    }
}

impl View {
    /// The sources that the view is put together from, in order.
    pub fn member_ids(&self) -> (ids: Vec<&str>)
        ensures
            ids@.len() == self.members@.len(),
            forall|i: int| 0 <= i < ids@.len() ==> (#[trigger] ids@[i])@ == self.members@[i].source@,
    {
        let mut ids: Vec<&str> = Vec::new();
        let mut i: usize = 0;
        while i < self.members.len()
            invariant
                i <= self.members@.len(),
                ids@.len() == i,
                forall|j: int| 0 <= j < i ==> (#[trigger] ids@[j])@ == self.members@[j].source@,
            decreases self.members@.len() - i,
        {
            ids.push(self.members[i].source.as_str());
            i += 1;
        }
        ids
    }
}

} // verus!
