//! What the service tells of its sources, and what it is told of them.

use crate::application::enrich::EnrichOutcome;
use crate::application::sync::{SyncOutcome, SyncScope};
#[allow(unused_imports)]
use crate::application::sync::ScopeModel;
use crate::clock::read_clock;
#[allow(unused_imports)]
use crate::clock::{is_reading, nanos, seconds_since};
use crate::domain::cache_entry::{CacheEntry, SerializedJson};
#[allow(unused_imports)]
use crate::domain::cache_entry::EntryView;
#[allow(unused_imports)]
use crate::domain::dataset::dataset_text;
use crate::domain::dataset::HostVars;
use crate::domain::source::Source;
#[allow(unused_imports)]
use crate::domain::source::{group_ttls, ttl_of, SourceModel};
use crate::model::Dup;
use crate::ports::cache::CachePort;
use crate::strmap::StrMap;
#[allow(unused_imports)]
use crate::strmap::sorted;
#[allow(unused_imports)]
use crate::text::{csv_names, lemma_text_lt_asymmetric, lemma_text_lt_transitive, text_lt, Text};
use crate::text::str_lt;
use std::sync::Arc;
use std::time::Instant;
use vstd::prelude::*;

verus! {

/// A source that is cached.
#[derive(Clone, Debug, PartialEq, Eq)]
pub struct CachedSourceInfo {
    pub source_id: String,
    pub is_fresh: bool,
    pub age_seconds: u64,
    pub total_hosts: usize,
}

/// What a [`CachedSourceInfo`] says.
pub struct CachedModel {
    pub source_id: Text,
    pub is_fresh: bool,
    pub age_seconds: int,
    pub total_hosts: int,
}

impl DeepView for CachedSourceInfo {
    type V = CachedModel;

    open spec fn deep_view(&self) -> CachedModel {
        CachedModel {
            source_id: self.source_id@,
            is_fresh: self.is_fresh,
            age_seconds: self.age_seconds as int,
            total_hosts: self.total_hosts as int,
        }
    }
}

/// What is told of a cached source.
pub open spec fn cached_info(entries: Map<Text, EntryView>, now: int) -> spec_fn(Text) -> CachedModel {
    |id: Text|
        CachedModel {
            source_id: id,
            is_fresh: entries[id].fresh(now),
            age_seconds: seconds_since(now, entries[id].fetched_at),
            total_hosts: entries[id].dataset.hostvars.dom().len() as int,
        }
}

/// The sources that are cached, in ascending order, as they are at the given moment.
pub fn list_cached_sources_at<C: CachePort>(cache: &C, now: Instant) -> (found: Vec<CachedSourceInfo>)
    ensures
        found.deep_view() == sorted(cache.entries().dom()).map_values(cached_info(cache.entries(), nanos(now))),
{
    let all = cache.export();
    let ghost ids = sorted(cache.entries().dom());
    let ghost info = cached_info(cache.entries(), nanos(now));
    let mut found: Vec<CachedSourceInfo> = Vec::new();
    let mut i: usize = 0;
    while i < all.len()
        invariant
            i <= all@.len() == ids.len(),
            info == cached_info(cache.entries(), nanos(now)),
            forall|j: int|
                0 <= j < all@.len() ==> (#[trigger] all@[j]).0@ == ids[j] && all@[j].1@ == cache.entries()[all@[j].0@],
            found.deep_view() == ids.take(i as int).map_values(info),
        decreases all@.len() - i,
    {
        let ghost before = found.deep_view();
        let (id, entry): (&String, &CacheEntry) = (&all[i].0, &all[i].1);
        let told = CachedSourceInfo {
            source_id: id.clone(),
            is_fresh: entry.is_fresh_at(now),
            age_seconds: entry.age_seconds_at(now),
            total_hosts: entry.dataset().hostvars.len(),
        };
        let ghost model = told.deep_view();
        found.push(told);
        proof {
            assert(model == info(ids[i as int]));
            assert(found.deep_view() =~= before.push(model));
            assert(ids.take(i + 1).map_values(info) =~= ids.take(i as int).map_values(info).push(info(ids[i as int])));
        }
        i += 1;
    }
    assert(ids.take(ids.len() as int) =~= ids);
    found
}

/// The sources that are cached, in ascending order.
pub fn list_cached_sources<C: CachePort>(cache: &C) -> (found: Vec<CachedSourceInfo>)
    ensures
        exists|now: Instant|
            is_reading(now) && found.deep_view() == sorted(cache.entries().dom()).map_values(
                cached_info(cache.entries(), #[trigger] nanos(now)),
            ),
{
    list_cached_sources_at(cache, read_clock())
}

/// The inventory of a source as JSON, where it is cached.
pub fn get_source_dataset<C: CachePort>(cache: &C, id: &str) -> (json: Option<Arc<SerializedJson>>)
    ensures
        match json {
            Some(json) => cache.entries().contains_key(id@) && json.is_of(
                dataset_text(cache.entries()[id@].dataset),
            ),
            None => !cache.entries().contains_key(id@),
        },
{
    match cache.get(id) {
        Some(entry) => match entry.serialized_json() {
            Ok(json) => Some(json),
            Err(_) => None,
        },
        None => None,
    }
}

/// Which hosts a status is asked of: one, those of a group, or all.
#[derive(Clone, Debug, PartialEq, Eq)]
pub struct StatusParams {
    pub host: Option<String>,
    pub group: Option<String>,
}

/// What a [`StatusParams`] holds.
pub struct StatusParamsModel {
    pub host: Option<Text>,
    pub group: Option<Text>,
}

impl DeepView for StatusParams {
    type V = StatusParamsModel;

    open spec fn deep_view(&self) -> StatusParamsModel {
        StatusParamsModel { host: self.host.deep_view(), group: self.group.deep_view() }
    }
}

/// How a host is cached.
#[derive(Clone, Debug, PartialEq, Eq)]
pub struct HostStatus {
    pub hostname: String,
    pub age_seconds: u64,
    pub is_fresh: bool,
    pub ttl_seconds: u64,
}

/// What a [`HostStatus`] says.
pub struct HostStatusModel {
    pub hostname: Text,
    pub age_seconds: int,
    pub is_fresh: bool,
    pub ttl_seconds: int,
}

impl DeepView for HostStatus {
    type V = HostStatusModel;

    open spec fn deep_view(&self) -> HostStatusModel {
        HostStatusModel {
            hostname: self.hostname@,
            age_seconds: self.age_seconds as int,
            is_fresh: self.is_fresh,
            ttl_seconds: self.ttl_seconds as int,
        }
    }
}

/// How a source is cached.
#[derive(Clone, Debug, PartialEq, Eq)]
pub struct SourceStatus {
    pub source_id: String,
    pub dataset_age_seconds: u64,
    pub dataset_is_fresh: bool,
    pub ttl_seconds: u64,
    pub total_hosts: usize,
    pub hosts: Vec<HostStatus>,
}

/// The hosts that a status is asked of, where they are known.
pub open spec fn asked_hosts(entry: EntryView, params: StatusParamsModel) -> Option<Seq<Text>> {
    match params.host {
        Some(host) => if entry.dataset.hostvars.contains_key(host) {
            Some(seq![host])
        } else {
            None
        },
        None => match params.group {
            Some(group) => if entry.dataset.groups.contains_key(group) {
                Some(entry.dataset.groups[group].hosts)
            } else {
                None
            },
            None => Some(sorted(entry.dataset.hostvars.dom())),
        },
    }
}

/// The time to live of a host: what the source says of it or of its groups, else that
/// of the entry.
pub open spec fn status_ttl(entry: EntryView, source: Option<SourceModel>, host: Text) -> int {
    match source {
        Some(s) => ttl_of(
            s.ttl_overrides,
            group_ttls(s.ttl_overrides, entry.dataset.groups),
            host,
            entry.ttl as u64,
        ) as int,
        None => entry.ttl,
    }
}

/// How a host is cached, where it was ever gathered.
pub open spec fn host_status(entry: EntryView, source: Option<SourceModel>, now: int) -> spec_fn(Text) -> Option<
    HostStatusModel,
> {
    |host: Text|
        match entry.host_age(host, now) {
            Some(age) => Some(
                HostStatusModel {
                    hostname: host,
                    age_seconds: age,
                    is_fresh: entry.host_fresh(host, status_ttl(entry, source, host), now),
                    ttl_seconds: status_ttl(entry, source, host),
                },
            ),
            None => None,
        }
}

/// The same texts, none before a lesser one.
pub open spec fn arranged(names: Seq<Text>, order: Seq<Text>) -> bool {
    &&& order.to_multiset() == names.to_multiset()
    &&& not_descending(order)
}

/// No text stands before a lesser one.
pub open spec fn not_descending(order: Seq<Text>) -> bool {
    forall|i: int, j: int| #![trigger order[i], order[j]] 0 <= i < j < order.len() ==> !text_lt(order[j], order[i])
}

/// The source under an id, where one is configured.
pub open spec fn configured(sources: Map<Text, SourceModel>, id: Text) -> Option<SourceModel> {
    if sources.contains_key(id) {
        Some(sources[id])
    } else {
        None
    }
}

/// This is what is told of the hosts that are asked for: how each that was ever gathered
/// is cached, in ascending order of their names.
pub open spec fn hosts_told(
    entry: EntryView,
    source: Option<SourceModel>,
    names: Seq<Text>,
    now: int,
    hosts: Seq<HostStatusModel>,
) -> bool {
    exists|order: Seq<Text>| #[trigger]
        arranged(names, order) && hosts == order.filter_map(host_status(entry, source, now))
}

/// This is the answer to a question for a status: nothing where the source, the host or
/// the group is not cached.
pub open spec fn status_is(
    entries: Map<Text, EntryView>,
    sources: Map<Text, SourceModel>,
    id: Text,
    params: StatusParamsModel,
    now: int,
    status: Option<SourceStatus>,
) -> bool {
    match status {
        Some(s) => {
            &&& entries.contains_key(id)
            &&& s.source_id@ == id
            &&& s.dataset_age_seconds == seconds_since(now, entries[id].fetched_at)
            &&& s.dataset_is_fresh == entries[id].fresh(now)
            &&& s.ttl_seconds == entries[id].ttl
            &&& s.total_hosts == s.hosts@.len()
            &&& asked_hosts(entries[id], params) is Some
            &&& hosts_told(
                entries[id],
                configured(sources, id),
                asked_hosts(entries[id], params)->0,
                now,
                s.hosts.deep_view(),
            )
        },
        None => !entries.contains_key(id) || asked_hosts(entries[id], params) is None,
    }
}

proof fn lemma_insert_in_order(order: Seq<Text>, p: int, name: Text)
    requires
        not_descending(order),
        0 <= p <= order.len(),
        forall|i: int| 0 <= i < p ==> !text_lt(name, #[trigger] order[i]),
        p < order.len() ==> text_lt(name, order[p]),
    ensures
        not_descending(order.insert(p, name)),
{
    let next = order.insert(p, name);
    assert forall|i: int, j: int| #![trigger next[i], next[j]] 0 <= i < j < next.len() implies !text_lt(
        next[j],
        next[i],
    ) by {
        if i == p {
            let later = order[j - 1];
            assert(next[j] == later);
            if text_lt(later, name) {
                lemma_text_lt_transitive(later, name, order[p]);
                if j - 1 > p {
                    assert(!text_lt(order[j - 1], order[p]));
                } else {
                    lemma_text_lt_asymmetric(name, order[p]);
                }
            }
        } else if j == p {
            assert(next[i] == order[i]);
        } else {
            let a = if i < p {
                i
            } else {
                i - 1
            };
            let b = if j < p {
                j
            } else {
                j - 1
            };
            assert(next[i] == order[a] && next[j] == order[b]);
        }
    }
}

fn arrange(names: Vec<String>) -> (order: Vec<String>)
    ensures
        arranged(names.deep_view(), order.deep_view()),
{
    let ghost all = names.deep_view();
    let mut order: Vec<String> = Vec::new();
    let mut i: usize = 0;
    assert(all.take(0) =~= Seq::empty());
    assert(order.deep_view() =~= Seq::empty());
    while i < names.len()
        invariant
            i <= names@.len(),
            all == names.deep_view(),
            order.deep_view().to_multiset() == all.take(i as int).to_multiset(),
            not_descending(order.deep_view()),
        decreases names@.len() - i,
    {
        let ghost before = order.deep_view();
        let mut p: usize = 0;
        assert(before.len() == order@.len());
        while p < order.len() && !str_lt(names[i].as_str(), order[p].as_str())
            invariant
                i < names@.len(),
                p <= order@.len() == before.len(),
                before == order.deep_view(),
                forall|k: int| 0 <= k < p ==> !text_lt(names@[i as int]@, #[trigger] before[k]),
            decreases order@.len() - p,
        {
            assert(before[p as int] == order@[p as int]@);
            p += 1;
        }
        proof {
            if p < order@.len() {
                assert(before[p as int] == order@[p as int]@);
            }
            assert(all[i as int] == names@[i as int]@);
            lemma_insert_in_order(before, p as int, all[i as int]);
            vstd::seq_lib::to_multiset_insert(before, p as int, all[i as int]);
            vstd::seq_lib::to_multiset_build(all.take(i as int), all[i as int]);
            assert(all.take(i + 1) =~= all.take(i as int).push(all[i as int]));
        }
        order.insert(p, names[i].clone());
        assert(order.deep_view() =~= before.insert(p as int, all[i as int]));
        i += 1;
    }
    assert(all.take(all.len() as int) =~= all);
    order
}

fn names_asked(entry: &CacheEntry, params: &StatusParams) -> (names: Option<Vec<String>>)
    ensures
        match names {
            Some(list) => asked_hosts(entry@, params.deep_view()) == Some(list.deep_view()),
            None => asked_hosts(entry@, params.deep_view()) is None,
        },
{
    let dataset = entry.dataset();
    if let Some(host) = &params.host {
        if !dataset.hostvars.contains_key(host.as_str()) {
            return None;
        }
        let mut one: Vec<String> = Vec::new();
        one.push(host.clone());
        assert(one.deep_view() =~= seq![host@]);
        return Some(one);
    }
    if let Some(group) = &params.group {
        return match dataset.groups.get(group.as_str()) {
            Some(found) => Some(found.hosts.dup()),
            None => None,
        };
    }
    let ghost hosts = sorted(dataset@.hostvars.dom());
    let mut names: Vec<String> = Vec::new();
    let n: usize = dataset.hostvars.len();
    let mut i: usize = 0;
    while i < n
        invariant
            i <= n == hosts.len(),
            hosts == sorted(dataset.hostvars@.dom()),
            names.deep_view() == hosts.take(i as int),
        decreases n - i,
    {
        let ghost before = names.deep_view();
        names.push(dataset.hostvars.key_at(i).clone());
        assert(names.deep_view() =~= before.push(hosts[i as int]));
        assert(hosts.take(i + 1) =~= hosts.take(i as int).push(hosts[i as int]));
        i += 1;
    }
    assert(hosts.take(n as int) =~= hosts);
    Some(names)
}

/// How a source is cached at the given moment, as far as it was asked; nothing where the
/// source, the host or the group is not cached. The hosts stand in ascending order.
pub fn source_status_at<C: CachePort>(
    cache: &C,
    sources: &StrMap<Source>,
    id: &str,
    params: &StatusParams,
    now: Instant,
) -> (status: Option<SourceStatus>)
    ensures
        status_is(cache.entries(), sources@, id@, params.deep_view(), nanos(now), status),
{
    let entry = match cache.get(id) {
        Some(entry) => entry,
        None => return None,
    };
    let names = match names_asked(&entry, params) {
        Some(names) => names,
        None => return None,
    };
    let source = sources.get(id);
    let ghost model = configured(sources@, id@);
    let group_ttls = match source {
        Some(s) => s.group_ttl_by_host(entry.dataset()),
        None => StrMap::new(),
    };
    let ghost asked = names.deep_view();
    let order = arrange(names);
    let ghost all = order.deep_view();
    let ghost told = host_status(entry@, model, nanos(now));
    let mut hosts: Vec<HostStatus> = Vec::new();
    let mut i: usize = 0;
    assert(hosts.deep_view() =~= all.take(0).filter_map(told));
    while i < order.len()
        invariant
            i <= order@.len(),
            all == order.deep_view(),
            told == host_status(entry@, model, nanos(now)),
            match source {
                Some(s) => model == Some(s.deep_view()) && group_ttls@ == crate::domain::source::group_ttls(
                    s.ttl_overrides.deep_view(),
                    entry@.dataset.groups,
                ),
                None => model is None,
            },
            hosts.deep_view() == all.take(i as int).filter_map(told),
        decreases order@.len() - i,
    {
        let ghost before = hosts.deep_view();
        let hostname: &String = &order[i];
        proof {
            all.lemma_filter_map_take_succ(told, i as int);
            assert(all[i as int] == hostname@);
        }
        if let Some(age_seconds) = entry.host_age_seconds_at(hostname.as_str(), now) {
            let ttl_seconds: u64 = match source {
                Some(s) => s.effective_ttl(hostname.as_str(), &group_ttls, entry.ttl_seconds()),
                None => entry.ttl_seconds(),
            };
            let one = HostStatus {
                hostname: hostname.clone(),
                age_seconds,
                is_fresh: entry.is_host_fresh_at(hostname.as_str(), Some(ttl_seconds), now),
                ttl_seconds,
            };
            let ghost said = one.deep_view();
            hosts.push(one);
            assert(hosts.deep_view() =~= before + seq![said]);
        }
        i += 1;
    }
    assert(all.take(all.len() as int) =~= all);
    assert(arranged(asked, all));
    assert(hosts_told(entry@, model, asked, nanos(now), hosts.deep_view()));
    Some(
        SourceStatus {
            source_id: id.to_owned(),
            dataset_age_seconds: entry.age_seconds_at(now),
            dataset_is_fresh: entry.is_fresh_at(now),
            ttl_seconds: entry.ttl_seconds(),
            total_hosts: hosts.len(),
            hosts,
        },
    )
}

/// How a source is cached, as far as it was asked; nothing where the source, the host or
/// the group is not cached. The hosts stand in ascending order.
pub fn source_status<C: CachePort>(
    cache: &C,
    sources: &StrMap<Source>,
    id: &str,
    params: &StatusParams,
) -> (status: Option<SourceStatus>)
    ensures
        exists|now: Instant|
            is_reading(now) && status_is(cache.entries(), sources@, id@, params.deep_view(), #[trigger] nanos(now), status),
{
    source_status_at(cache, sources, id, params, read_clock())
}

/// What is to be synced of a source: hosts, a group, or all.
#[derive(Clone, Debug, PartialEq, Eq)]
pub struct SyncParams {
    pub host: Option<String>,
    pub group: Option<String>,
}

/// The scope that is asked for. A list of hosts that names none does not count.
pub open spec fn scope_asked(host: Option<Text>, group: Option<Text>) -> ScopeModel {
    if host matches Some(list) && csv_names(list).len() > 0 {
        ScopeModel::Hosts(csv_names(host->0))
    } else {
        match group {
            Some(name) => ScopeModel::Group(name),
            None => ScopeModel::Full,
        }
    }
}

/// The scope that is asked for. Hosts stand in a list, with commas between them.
pub fn sync_scope(params: &SyncParams) -> (scope: SyncScope)
    ensures
        scope.deep_view() == scope_asked(params.host.deep_view(), params.group.deep_view()),
{
    if let Some(list) = &params.host {
        if let Some(scope) = SyncScope::hosts_from_csv(list.as_str()) {
            return scope;
        }
    }
    match &params.group {
        Some(name) => SyncScope::Group(name.clone()),
        None => SyncScope::Full,
    }
}

/// What is told of a sync.
#[derive(Clone, Debug, PartialEq, Eq)]
pub struct SyncResult {
    pub source_id: String,
    pub success: bool,
    pub scope: String,
    pub total_hosts: usize,
    pub total_groups: usize,
    pub sync_duration_ms: u128,
    pub error: Option<String>,
}

/// What is told of a sync.
pub fn sync_result(source_id: String, outcome: SyncOutcome) -> (result: SyncResult)
    ensures
        result == (SyncResult {
            source_id,
            success: outcome.error is None,
            scope: outcome.scope,
            total_hosts: outcome.total_hosts,
            total_groups: outcome.total_groups,
            sync_duration_ms: outcome.duration_ms,
            error: outcome.error,
        }),
{
    SyncResult {
        source_id,
        success: outcome.success(),
        scope: outcome.scope,
        total_hosts: outcome.total_hosts,
        total_groups: outcome.total_groups,
        sync_duration_ms: outcome.duration_ms,
        error: outcome.error,
    }
}

/// What is told of a run of an enricher.
#[derive(Clone, Debug, PartialEq, Eq)]
pub struct EnrichResult {
    pub source_id: String,
    pub enricher_id: String,
    pub success: bool,
    pub hosts_updated: usize,
    pub hosts_removed: usize,
    pub duration_ms: u128,
    pub error: Option<String>,
}

/// What is told of a run of an enricher. The source is the one that it enriches.
pub fn enrich_result(source_id: String, enricher_id: String, outcome: EnrichOutcome) -> (result: EnrichResult)
    ensures
        result == (EnrichResult {
            source_id,
            enricher_id,
            success: outcome.error is None,
            hosts_updated: outcome.hosts_updated,
            hosts_removed: outcome.hosts_removed,
            duration_ms: outcome.duration_ms,
            error: outcome.error,
        }),
{
    EnrichResult {
        source_id,
        enricher_id,
        success: outcome.success(),
        hosts_updated: outcome.hosts_updated,
        hosts_removed: outcome.hosts_removed,
        duration_ms: outcome.duration_ms,
        error: outcome.error,
    }
}

/// Puts a host into a source that is cached: its variables are those, gathered now.
/// Gives whether the source is cached.
pub fn put_host<C: CachePort>(cache: &mut C, id: &str, hostname: &str, vars: HostVars) -> (found: bool)
    ensures
        found == old(cache).entries().contains_key(id@),
        exists|now: Instant|
            is_reading(now) && final(cache).entries() == (if found {
                old(cache).entries().insert(
                    id@,
                    old(cache).entries()[id@].with_host(hostname@, vars@, #[trigger] nanos(now)),
                )
            } else {
                old(cache).entries()
            }),
{
    let now = read_clock();
    let ghost moment = nanos(now);
    match cache.get(id) {
        Some(mut entry) => {
            entry.put_host(hostname.to_owned(), vars, now);
            cache.set(id, entry);
            true
        },
        None => false,
    }
}

/// Takes a host out of a source that is cached: neither its variables stay, nor its
/// places in groups. Gives whether there was such a host.
pub fn delete_host<C: CachePort>(cache: &mut C, id: &str, hostname: &str) -> (removed: bool)
    ensures
        removed == (old(cache).entries().contains_key(id@)
            && old(cache).entries()[id@].dataset.hostvars.contains_key(hostname@)),
        final(cache).entries() == (if removed {
            old(cache).entries().insert(id@, old(cache).entries()[id@].dropping(set![hostname@]))
        } else {
            old(cache).entries()
        }),
{
    match cache.get(id) {
        Some(mut entry) => {
            if !entry.dataset().hostvars.contains_key(hostname) {
                return false;
            }
            entry.remove_host(hostname);
            cache.set(id, entry);
            true
        },
        None => false,
    }
}

} // verus!
