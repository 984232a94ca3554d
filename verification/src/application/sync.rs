//! Syncing a source: what to ask a connector for, and what to make of the answer.

#[allow(unused_imports)]
use crate::clock::{is_reading, nanos};
use crate::clock::{read_clock, seconds_before};
#[allow(unused_imports)]
use crate::domain::cache_entry::{aged, rebuilt, EntryView, RetainedView};
use crate::domain::cache_entry::{CacheEntry, RetainedHost};
use crate::domain::dataset::Dataset;
#[allow(unused_imports)]
use crate::domain::dataset::DatasetView;
use crate::domain::source::{HostSpec, Source};
#[allow(unused_imports)]
use crate::domain::source::{resolved, HostSpecModel, SourceModel};
#[allow(unused_imports)]
use crate::domain::sync_health::RecordView;
use crate::domain::sync_health::SyncHealthRegistry;
use crate::domain::sync_mode::SyncMode;
use crate::json::{string_text, strings_text};
#[allow(unused_imports)]
use crate::json::{compact_text, strings_tree, JsonTree};
#[allow(unused_imports)]
use crate::locks::counts;
use crate::locks::{count_or_zero, no_counts, put_count};
use crate::model::Dup;
use crate::ports::cache::CachePort;
#[allow(unused_imports)]
use crate::ports::connector::OutputView;
use crate::ports::connector::{ConnectorError, ConnectorOutput, DatasetAges};
#[allow(unused_imports)]
use crate::strmap::lemma_prefix_step;
use crate::strmap::StrMap;
#[allow(unused_imports)]
use crate::text::{csv_names, decimal_text, join_text, Text};
use crate::text::{cat2, cat3, comma_list, decimal, join};
use dashmap::DashMap;
use std::collections::hash_map::RandomState;
use std::time::Instant;
use vstd::prelude::*;

verus! {

/// How much of a source is synced.
pub enum SyncScope {
    /// The whole source.
    Full,
    /// Some hosts.
    Hosts(Vec<String>),
    /// The hosts of a group.
    Group(String),
}

/// What a [`SyncScope`] says.
#[verifier::ext_equal]
pub enum ScopeModel {
    Full,
    Hosts(Seq<Text>),
    Group(Text),
}

impl DeepView for SyncScope {
    type V = ScopeModel;

    open spec fn deep_view(&self) -> ScopeModel {
        match self {
            SyncScope::Full => ScopeModel::Full,
            SyncScope::Hosts(hosts) => ScopeModel::Hosts(hosts.deep_view()),
            SyncScope::Group(group) => ScopeModel::Group(group@),
        }
    }
}

/// What a scope is called: `full`, `host:x,y` or `group:z`.
pub open spec fn scope_label(scope: ScopeModel) -> Text {
    match scope {
        ScopeModel::Full => "full"@,
        ScopeModel::Hosts(hosts) => "host:"@ + join_text(hosts, ","@),
        ScopeModel::Group(group) => "group:"@ + group,
    }
}

impl SyncScope {
    /// What the scope is called: `full`, `host:x,y` or `group:z`.
    pub fn label(&self) -> (label: String)
        ensures
            label@ == scope_label(self.deep_view()),
    {
        match self {
            SyncScope::Full => "full".to_owned(),
            SyncScope::Hosts(hosts) => cat2("host:", join(hosts, ",").as_str()),
            SyncScope::Group(group) => cat2("group:", group.as_str()),
        }
    }

    /// The hosts that a comma-separated list names, where it names any.
    pub fn hosts_from_csv(value: &str) -> (scope: Option<Self>)
        ensures
            match scope {
                Some(scope) => scope.deep_view() == ScopeModel::Hosts(csv_names(value@)) && csv_names(value@).len()
                    > 0,
                None => csv_names(value@).len() == 0,
            },
    {
        let hosts = comma_list(value);
        assert(hosts.deep_view().len() == hosts@.len());
        if hosts.len() > 0 {
            Some(SyncScope::Hosts(hosts))
        } else {
            None
        }
    }
}

/// How old a connector says a host is; new, where it does not say.
pub open spec fn age_of(output: OutputView, host: Text) -> int {
    match output.ages {
        Some(ages) => if ages.host_ages.contains_key(host) {
            ages.host_ages[host] as int
        } else {
            0
        },
        None => 0,
    }
}

/// A requested host that the connector brought.
pub open spec fn answered(hosts: Seq<Text>, output: OutputView, host: Text) -> bool {
    hosts.contains(host) && output.dataset.hostvars.contains_key(host)
}

/// What there is to change where nothing was there: what came, as gathered now,
/// but not as a gather of the whole source.
pub open spec fn part_of(before: Option<EntryView>, output: OutputView, ttl: int, now: int) -> EntryView {
    match before {
        Some(entry) => EntryView { ttl, ..entry },
        None => EntryView { complete: false, ..EntryView::gathered(output.dataset, ttl, now) },
    }
}

/// `after` is `base` with the hosts that answered, each as old as the connector says.
pub open spec fn hosts_applied(
    base: EntryView,
    after: EntryView,
    hosts: Seq<Text>,
    output: OutputView,
    now: int,
) -> bool {
    &&& after.dataset == DatasetView {
        hostvars: base.dataset.hostvars.union_prefer_right(
            Map::new(|h: Text| answered(hosts, output, h), |h: Text| output.dataset.hostvars[h]),
        ),
        ..base.dataset
    }
    &&& after.fetched_at == base.fetched_at
    &&& after.ttl == base.ttl
    &&& after.complete == base.complete
    &&& forall|h: Text| #[trigger]
        after.stamps.contains_key(h) <==> base.stamps.contains_key(h) || answered(hosts, output, h)
    &&& forall|h: Text| #[trigger]
        after.stamps.contains_key(h) ==> if answered(hosts, output, h) {
            aged(now, age_of(output, h), after.stamps[h])
        } else {
            after.stamps[h] == base.stamps[h]
        }
}

/// What a replacing sync of the whole source leaves behind, before any host is kept.
pub open spec fn replaced(after: EntryView, output: OutputView, ttl: int, now: int) -> bool {
    match output.ages {
        Some(ages) => rebuilt(
            after,
            output.dataset,
            ttl,
            ages.dataset_age_seconds as int,
            ages.host_ages,
            now,
        ),
        None => after == EntryView::gathered(output.dataset, ttl, now),
    }
}

/// What is known of a host that did not answer and did not come.
pub open spec fn kept_host(before: EntryView, output: OutputView, now: int) -> spec_fn(Text) -> Option<RetainedView> {
    |h: Text|
        if output.dataset.hostvars.contains_key(h) {
            None
        } else {
            before.captured(h, now)
        }
}

/// The hosts to keep: those that did not answer and that are known.
pub open spec fn kept_hosts(before: EntryView, output: OutputView, now: int) -> Seq<RetainedView> {
    output.unreachable.filter_map(kept_host(before, output, now))
}

/// `base` with the kept hosts put back in turn, gathered at the given moments.
pub open spec fn with_kept(base: EntryView, kept: Seq<RetainedView>, at: Seq<int>) -> EntryView
    decreases kept.len(),
{
    if kept.len() == 0 {
        base
    } else {
        with_kept(base, kept.drop_last(), at.drop_last()).with_retained(kept.last(), at.last())
    }
}

/// The moments are those of the kept hosts, each as old as it was.
pub open spec fn as_old_as(kept: Seq<RetainedView>, at: Seq<int>, now: int) -> bool {
    at.len() == kept.len() && forall|i: int| 0 <= i < kept.len() ==> aged(now, kept[i].age, #[trigger] at[i])
}

/// `after` is `base` with the kept hosts put back in turn, each as old as it was.
pub open spec fn hosts_kept(base: EntryView, after: EntryView, kept: Seq<RetainedView>, now: int) -> bool {
    exists|at: Seq<int>| as_old_as(kept, at, now) && after == #[trigger] with_kept(base, kept, at)
}

/// What a sync of some hosts makes of an entry.
pub open spec fn applied_hosts(
    before: Option<EntryView>,
    after: Option<EntryView>,
    ttl: int,
    hosts: Seq<Text>,
    output: OutputView,
    now: int,
) -> bool {
    if exists|h: Text| answered(hosts, output, h) {
        after matches Some(entry) && hosts_applied(part_of(before, output, ttl, now), entry, hosts, output, now)
    } else {
        after == before
    }
}

/// What a sync of a group makes of an entry.
pub open spec fn applied_group(
    before: Option<EntryView>,
    ttl: int,
    group: Text,
    output: OutputView,
    now: int,
) -> EntryView {
    match before {
        Some(_) => part_of(before, output, ttl, now).with_group(group, output.dataset, now),
        None => part_of(before, output, ttl, now),
    }
}

/// `after` is `base`, which replaced `previous`, with the hosts kept that did not
/// answer.
pub open spec fn replaced_keeping(
    base: EntryView,
    previous: EntryView,
    after: EntryView,
    ttl: int,
    output: OutputView,
    now: int,
) -> bool {
    replaced(base, output, ttl, now) && hosts_kept(base, after, kept_hosts(previous, output, now), now)
}

/// What a replacing sync of the whole source makes of an entry.
pub open spec fn applied_replace(
    before: Option<EntryView>,
    after: EntryView,
    ttl: int,
    output: OutputView,
    now: int,
) -> bool {
    match before {
        Some(previous) => exists|base: EntryView| replaced_keeping(base, previous, after, ttl, output, now),
        None => if output.unreachable.len() == 0 {
            replaced(after, output, ttl, now)
        } else {
            after == EntryView::gathered(output.dataset, ttl, now)
        },
    }
}

/// What a merging sync of the whole source makes of an entry.
pub open spec fn applied_merge(before: Option<EntryView>, ttl: int, output: OutputView, now: int) -> EntryView {
    match before {
        Some(previous) => EntryView {
            fetched_at: now,
            complete: true,
            ..EntryView { ttl, ..previous }.merged(output.dataset, true, now)
        },
        None => EntryView::gathered(output.dataset, ttl, now),
    }
}

/// What a sync makes of an entry: `after` of `before`, at the moment `now`.
pub open spec fn applied(
    before: Option<EntryView>,
    after: Option<EntryView>,
    source: SourceModel,
    scope: ScopeModel,
    output: OutputView,
    now: int,
) -> bool {
    let ttl = source.ttl_seconds as int;
    match scope {
        ScopeModel::Hosts(hosts) => applied_hosts(before, after, ttl, hosts, output, now),
        ScopeModel::Group(group) => after == Some(applied_group(before, ttl, group, output, now)),
        ScopeModel::Full => match source.sync_mode {
            SyncMode::Replace => after matches Some(entry) && applied_replace(before, entry, ttl, output, now),
            SyncMode::Merge => after == Some(applied_merge(before, ttl, output, now)),
        },
    }
}

fn host_age(ages: &Option<DatasetAges>, host: &str) -> (age: u64)
    ensures
        age == (match ages.deep_view() {
            Some(a) => if a.host_ages.contains_key(host@) {
                a.host_ages[host@]
            } else {
                0u64
            },
            None => 0u64,
        }),
{
    match ages {
        Some(a) => match a.host_ages.get(host) {
            Some(age) => *age,
            None => 0,
        },
        None => 0,
    }
}

/// The moment that many seconds ago; or now, where the clock cannot represent it.
fn moment(now: Instant, seconds: u64) -> (at: Instant)
    ensures
        aged(nanos(now), seconds as int, nanos(at)),
{
    match seconds_before(now, seconds) {
        Some(at) => at,
        None => now,
    }
}

/// Whether the connector brought any of the requested hosts.
fn any_answered(hosts: &Vec<String>, dataset: &Dataset) -> (any: bool)
    ensures
        any == exists|h: Text| hosts.deep_view().contains(h) && #[trigger] dataset@.hostvars.contains_key(h),
{
    let ghost all = hosts.deep_view();
    let mut i: usize = 0;
    while i < hosts.len()
        invariant
            i <= hosts@.len(),
            all == hosts.deep_view(),
            forall|j: int| 0 <= j < i ==> !dataset@.hostvars.contains_key(#[trigger] all[j]),
        decreases hosts@.len() - i,
    {
        assert(all[i as int] == hosts@[i as int]@);
        if dataset.hostvars.contains_key(hosts[i].as_str()) {
            assert(all.contains(all[i as int]) && dataset@.hostvars.contains_key(all[i as int]));
            return true;
        }
        i += 1;
    }
    false
}

fn apply_hosts(
    existing: Option<CacheEntry>,
    ttl_seconds: u64,
    hosts: &Vec<String>,
    output: ConnectorOutput,
    now: Instant,
) -> (entry: Option<CacheEntry>)
    ensures
        applied_hosts(
            existing.deep_view(),
            entry.deep_view(),
            ttl_seconds as int,
            hosts.deep_view(),
            output@,
            nanos(now),
        ),
{
    let ghost out = output@;
    let ghost all = hosts.deep_view();
    if !any_answered(hosts, &output.dataset) {
        assert forall|h: Text| !answered(all, out, h) by {
            assert(!(all.contains(h) && out.dataset.hostvars.contains_key(h)));
        }
        return existing;
    }
    proof {
        let h = choose|h: Text| all.contains(h) && #[trigger] out.dataset.hostvars.contains_key(h);
        assert(answered(all, out, h));
    }
    let ghost before = existing.deep_view();
    let mut entry = match existing {
        Some(mut entry) => {
            entry.set_ttl(ttl_seconds);
            entry
        },
        None => {
            let mut entry = CacheEntry::new_at(output.dataset.dup(), ttl_seconds, now);
            entry.mark_partial();
            entry
        },
    };
    let ghost base = part_of(before, out, ttl_seconds as int, nanos(now));
    assert(entry@ == base);
    let mut i: usize = 0;
    while i < hosts.len()
        invariant
            i <= hosts@.len(),
            all == hosts.deep_view(),
            out == output@,
            entry@.fetched_at == base.fetched_at,
            entry@.ttl == base.ttl,
            entry@.complete == base.complete,
            entry@.dataset.groups == base.dataset.groups,
            entry@.dataset.remove_hosts == base.dataset.remove_hosts,
            forall|h: Text| #[trigger]
                entry@.dataset.hostvars.contains_key(h) <==> base.dataset.hostvars.contains_key(h) || answered(
                    all.take(i as int),
                    out,
                    h,
                ),
            forall|h: Text| #[trigger]
                entry@.dataset.hostvars.contains_key(h) ==> entry@.dataset.hostvars[h] == (if answered(
                    all.take(i as int),
                    out,
                    h,
                ) {
                    out.dataset.hostvars[h]
                } else {
                    base.dataset.hostvars[h]
                }),
            forall|h: Text| #[trigger]
                entry@.stamps.contains_key(h) <==> base.stamps.contains_key(h) || answered(all.take(i as int), out, h),
            forall|h: Text| #[trigger]
                entry@.stamps.contains_key(h) ==> if answered(all.take(i as int), out, h) {
                    aged(nanos(now), age_of(out, h), entry@.stamps[h])
                } else {
                    entry@.stamps[h] == base.stamps[h]
                },
        decreases hosts@.len() - i,
    {
        proof {
            lemma_prefix_step(all, i as int);
            assert(all[i as int] == hosts@[i as int]@);
        }
        let host: &String = &hosts[i];
        if let Some(vars) = output.dataset.hostvars.get(host.as_str()) {
            let at = moment(now, host_age(&output.ages, host.as_str()));
            entry.put_host(host.clone(), vars.dup(), at);
        }
        i += 1;
    }
    proof {
        assert(all.take(all.len() as int) =~= all);
        assert(entry@.dataset.hostvars =~= base.dataset.hostvars.union_prefer_right(
            Map::new(|h: Text| answered(all, out, h), |h: Text| out.dataset.hostvars[h]),
        ));
        assert(hosts_applied(base, entry@, all, out, nanos(now)));
    }
    Some(entry)
}

fn replace_entry(dataset: Dataset, ages: &Option<DatasetAges>, ttl_seconds: u64, now: Instant) -> (entry: CacheEntry)
    ensures
        replaced(
            entry@,
            (OutputView { dataset: dataset@, ages: ages.deep_view(), unreachable: Seq::empty() }),
            ttl_seconds as int,
            nanos(now),
        ),
{
    match ages {
        Some(a) => CacheEntry::restore_at(dataset, ttl_seconds, a.dataset_age_seconds, &a.host_ages, now),
        None => CacheEntry::new_at(dataset, ttl_seconds, now),
    }
}

/// What is known of the hosts that did not answer and did not come.
fn capture_unreachable(entry: &CacheEntry, dataset: &Dataset, unreachable: &Vec<String>, now: Instant) -> (kept: Vec<
    RetainedHost,
>)
    ensures
        kept@.map_values(|r: RetainedHost| r@) == unreachable.deep_view().filter_map(
            |h: Text|
                if dataset@.hostvars.contains_key(h) {
                    None
                } else {
                    entry@.captured(h, nanos(now))
                },
        ),
{
    let ghost keep = |h: Text|
        if dataset@.hostvars.contains_key(h) {
            None
        } else {
            entry@.captured(h, nanos(now))
        };
    let ghost all = unreachable.deep_view();
    let ghost look = |r: RetainedHost| r@;
    let mut kept: Vec<RetainedHost> = Vec::new();
    let mut i: usize = 0;
    assert(kept@.map_values(look) =~= all.take(0).filter_map(keep));
    while i < unreachable.len()
        invariant
            i <= unreachable@.len(),
            all == unreachable.deep_view(),
            look == (|r: RetainedHost| r@),
            keep == (|h: Text|
                if dataset@.hostvars.contains_key(h) {
                    None
                } else {
                    entry@.captured(h, nanos(now))
                }),
            kept@.map_values(look) == all.take(i as int).filter_map(keep),
        decreases unreachable@.len() - i,
    {
        let ghost before = kept@.map_values(look);
        proof {
            all.lemma_filter_map_take_succ(keep, i as int);
            assert(all[i as int] == unreachable@[i as int]@);
        }
        let host: &str = unreachable[i].as_str();
        if !dataset.hostvars.contains_key(host) {
            if let Some(retained) = entry.capture_host_at(host, now) {
                let ghost host_view = retained@;
                kept.push(retained);
                assert(kept@.map_values(look) =~= before + seq![host_view]);
            }
        }
        i += 1;
    }
    assert(all.take(all.len() as int) =~= all);
    kept
}

fn put_back(entry: CacheEntry, kept: Vec<RetainedHost>, now: Instant) -> (after: CacheEntry)
    ensures
        hosts_kept(entry@, after@, kept@.map_values(|r: RetainedHost| r@), nanos(now)),
{
    let ghost base = entry@;
    let ghost all = kept@.map_values(|r: RetainedHost| r@);
    let ghost items = kept@;
    let mut after = entry;
    let ghost mut at: Seq<int> = Seq::empty();
    assert(all.take(0).len() == 0);
    for retained in it: kept
        invariant
            it.seq() == items,
            all == items.map_values(|r: RetainedHost| r@),
            as_old_as(all.take(it.index()), at, nanos(now)),
            after@ == with_kept(base, all.take(it.index()), at),
    {
        let ghost i = it.index();
        let ghost host = retained@;
        let then = moment(now, retained.age_seconds());
        after.put_retained(retained, then);
        proof {
            let next = all.take(i + 1);
            let at_next = at.push(nanos(then));
            assert(next.drop_last() =~= all.take(i));
            assert(next.last() == host);
            assert(at_next.drop_last() =~= at);
            assert forall|j: int| 0 <= j < next.len() implies aged(nanos(now), next[j].age, #[trigger] at_next[j]) by {
                if j < i {
                    assert(all.take(i)[j] == next[j]);
                    assert(at[j] == at_next[j]);
                }
            }
            at = at_next;
        }
    }
    assert(all.take(items.len() as int) =~= all);
    after
}

fn apply_replace(existing: Option<CacheEntry>, ttl: u64, output: ConnectorOutput, now: Instant) -> (entry: CacheEntry)
    ensures
        applied_replace(existing.deep_view(), entry@, ttl as int, output@, nanos(now)),
{
    let ghost out = output@;
    let ghost before = existing.deep_view();
    match existing {
        Some(previous) => {
            assert(before == Some(previous@));
            let ConnectorOutput { dataset, ages, unreachable } = output;
            let kept = capture_unreachable(&previous, &dataset, &unreachable, now);
            let base = replace_entry(dataset, &ages, ttl, now);
            let ghost fresh = base@;
            let ghost hosts = kept@.map_values(|r: RetainedHost| r@);
            let entry = put_back(base, kept, now);
            proof {
                assert(hosts == kept_hosts(previous@, out, nanos(now)));
                assert(replaced(fresh, out, ttl as int, nanos(now)));
                assert(replaced_keeping(fresh, before->0, entry@, ttl as int, out, nanos(now)));
            }
            entry
        },
        None => if output.unreachable.len() == 0 {
            assert(out.unreachable.len() == 0);
            let ConnectorOutput { dataset, ages, unreachable: _ } = output;
            replace_entry(dataset, &ages, ttl, now)
        } else {
            assert(out.unreachable.len() > 0);
            CacheEntry::new_at(output.dataset, ttl, now)
        },
    }
}

fn apply_merge(existing: Option<CacheEntry>, ttl: u64, output: ConnectorOutput, now: Instant) -> (entry: CacheEntry)
    ensures
        entry@ == applied_merge(existing.deep_view(), ttl as int, output@, nanos(now)),
{
    match existing {
        Some(mut entry) => {
            entry.set_ttl(ttl);
            entry.merge_at(output.dataset, true, now);
            entry.mark_gathered_at(now);
            entry
        },
        None => CacheEntry::new_at(output.dataset, ttl, now),
    }
}

fn apply_group(
    existing: Option<CacheEntry>,
    ttl: u64,
    group: &str,
    output: ConnectorOutput,
    now: Instant,
) -> (entry: CacheEntry)
    ensures
        entry@ == applied_group(existing.deep_view(), ttl as int, group@, output@, nanos(now)),
{
    match existing {
        Some(mut entry) => {
            entry.set_ttl(ttl);
            entry.update_group_at(group, output.dataset, now);
            entry
        },
        None => {
            let mut entry = CacheEntry::new_at(output.dataset, ttl, now);
            entry.mark_partial();
            entry
        },
    }
}

/// What a sync makes of the entry of its source, at the given moment.
pub fn apply_to_entry(
    existing: Option<CacheEntry>,
    source: &Source,
    scope: &SyncScope,
    output: ConnectorOutput,
    now: Instant,
) -> (entry: Option<CacheEntry>)
    ensures
        applied(
            existing.deep_view(),
            entry.deep_view(),
            source.deep_view(),
            scope.deep_view(),
            output@,
            nanos(now),
        ),
{
    let ttl: u64 = source.ttl_seconds;
    match scope {
        SyncScope::Hosts(hosts) => apply_hosts(existing, ttl, hosts, output, now),
        SyncScope::Group(group) => Some(apply_group(existing, ttl, group.as_str(), output, now)),
        SyncScope::Full => match source.sync_mode {
            SyncMode::Replace => Some(apply_replace(existing, ttl, output, now)),
            SyncMode::Merge => Some(apply_merge(existing, ttl, output, now)),
        },
    }
}

/// The entry of a source, where the cache has one.
pub open spec fn entry_of(entries: Map<Text, EntryView>, key: Text) -> Option<EntryView> {
    if entries.contains_key(key) {
        Some(entries[key])
    } else {
        None
    }
}

/// Puts what a connector gathered into the cache. Only the entry of the source
/// changes.
pub fn apply_to_cache<C: CachePort>(
    cache: &mut C,
    source_id: &str,
    source: &Source,
    scope: &SyncScope,
    output: ConnectorOutput,
)
    ensures
        exists|now: Instant|
            is_reading(now) && applied(
                entry_of(old(cache).entries(), source_id@),
                entry_of(final(cache).entries(), source_id@),
                source.deep_view(),
                scope.deep_view(),
                output@,
                #[trigger] nanos(now),
            ),
        final(cache).entries().remove(source_id@) == old(cache).entries().remove(source_id@),
{
    let ghost before = cache.entries();
    let now = read_clock();
    let existing = cache.remove(source_id);
    let ghost previous = existing.deep_view();
    assert(previous == entry_of(before, source_id@));
    let ghost out = output@;
    let entry = apply_to_entry(existing, source, scope, output, now);
    let ghost result = entry.deep_view();
    if let Some(entry) = entry {
        cache.set(source_id, entry);
    }
    proof {
        assert(entry_of(cache.entries(), source_id@) == result);
        assert(cache.entries().remove(source_id@) =~= before.remove(source_id@));
        assert(applied(
            entry_of(before, source_id@),
            entry_of(cache.entries(), source_id@),
            source.deep_view(),
            scope.deep_view(),
            out,
            nanos(now),
        ));
    }
}

/// How many hops a request to gather anew travels, where nothing says.
pub const DEFAULT_REFRESH_DEPTH: u8 = 3;

/// What to sync, and whether the origin is to gather it anew first.
pub struct SyncRequest {
    pub scope: SyncScope,
    pub refresh_origin: bool,
    /// How many hops the wish to gather anew may still travel.
    pub refresh_depth: u8,
    /// Who asked.
    pub trigger: Option<String>,
}

/// What a [`SyncRequest`] says.
#[verifier::ext_equal]
pub struct RequestModel {
    pub scope: ScopeModel,
    pub refresh_origin: bool,
    pub refresh_depth: u8,
    pub trigger: Option<Text>,
}

impl DeepView for SyncRequest {
    type V = RequestModel;

    open spec fn deep_view(&self) -> RequestModel {
        RequestModel {
            scope: self.scope.deep_view(),
            refresh_origin: self.refresh_origin,
            refresh_depth: self.refresh_depth,
            trigger: self.trigger.deep_view(),
        }
    }
}

/// A plain sync of the whole source. Only such a one can stand in for another.
pub open spec fn coalescable(request: RequestModel) -> bool {
    request.scope is Full && !request.refresh_origin
}

impl SyncRequest {
    /// A sync of whatever the source can give without asking anybody else.
    pub fn new(scope: SyncScope) -> (request: Self)
        ensures
            request == (SyncRequest { scope, refresh_origin: false, refresh_depth: 0, trigger: None }),
    {
        SyncRequest { scope, refresh_origin: false, refresh_depth: 0, trigger: None }
    }

    /// A sync for which the origin gathers anew, at most that many hops away.
    pub fn refreshing_origin(scope: SyncScope, refresh_depth: u8) -> (request: Self)
        ensures
            request == (SyncRequest { scope, refresh_origin: true, refresh_depth, trigger: None }),
    {
        SyncRequest { scope, refresh_origin: true, refresh_depth, trigger: None }
    }

    /// The same request, with who asked.
    pub fn with_trigger(self, trigger: String) -> (request: Self)
        ensures
            request == (SyncRequest { trigger: Some(trigger), ..self }),
    {
        SyncRequest {
            scope: self.scope,
            refresh_origin: self.refresh_origin,
            refresh_depth: self.refresh_depth,
            trigger: Some(trigger),
        }
    }

    /// Whether another plain sync of the whole source can stand in for this one.
    pub fn is_coalescable(&self) -> (yes: bool)
        ensures
            yes == coalescable(self.deep_view()),
    {
        matches!(self.scope, SyncScope::Full) && !self.refresh_origin
    }
}

impl From<SyncScope> for SyncRequest {
    fn from(scope: SyncScope) -> (request: Self) {
        SyncRequest::new(scope)
    }
}

impl vstd::std_specs::convert::FromSpecImpl<SyncScope> for SyncRequest {
    open spec fn obeys_from_spec() -> bool {
        true
    }

    open spec fn from_spec(scope: SyncScope) -> SyncRequest {
        SyncRequest { scope, refresh_origin: false, refresh_depth: 0, trigger: None }
    }
}

/// How often each source has been synced as a whole.
pub struct SyncCoordinator {
    in_flight: DashMap<String, u64, RandomState>,
}

impl View for SyncCoordinator {
    type V = Map<Text, u64>;

    closed spec fn view(&self) -> Map<Text, u64> {
        counts(self.in_flight)
    }
}

impl SyncCoordinator {
    /// No source has been synced.
    pub fn new() -> (coordinator: Self)
        ensures
            coordinator@ == Map::<Text, u64>::empty(),
    {
        SyncCoordinator { in_flight: no_counts() }
    }

    /// How many plain syncs of the whole source have succeeded. A source that nobody
    /// has asked for yet is entered with none.
    pub fn entry_for(&mut self, source_id: &str) -> (count: u64)
        ensures
            final(self)@ == (if old(self)@.contains_key(source_id@) {
                old(self)@
            } else {
                old(self)@.insert(source_id@, 0)
            }),
            count == final(self)@[source_id@],
    {
        count_or_zero(&mut self.in_flight, source_id)
    }

    /// One plain sync of the whole source more.
    pub fn count_full_sync(&mut self, source_id: &str)
        ensures
            final(self)@ == old(self)@.insert(
                source_id@,
                (if old(self)@.contains_key(source_id@) {
                    old(self)@[source_id@]
                } else {
                    0
                }).wrapping_add(1),
            ),
    {
        let ghost before = self@;
        let count: u64 = count_or_zero(&mut self.in_flight, source_id);
        put_count(&mut self.in_flight, source_id, count.wrapping_add(1));
        assert(self@ =~= before.insert(
            source_id@,
            (if before.contains_key(source_id@) {
                before[source_id@]
            } else {
                0
            }).wrapping_add(1),
        ));
    }
}

impl Default for SyncCoordinator {
    fn default() -> (coordinator: Self)
        ensures
            coordinator@ == Map::<Text, u64>::empty(),
    {
        SyncCoordinator::new()
    }
}

/// What became of a sync.
#[derive(Debug, PartialEq)]
pub struct SyncOutcome {
    pub scope: String,
    pub total_hosts: usize,
    pub total_groups: usize,
    pub duration_ms: u128,
    pub error: Option<String>,
    /// Nothing was gathered for this request: another sync of the whole source
    /// was, since it came.
    pub coalesced: bool,
}

/// What a [`SyncOutcome`] says.
#[verifier::ext_equal]
pub struct OutcomeModel {
    pub scope: Text,
    pub total_hosts: int,
    pub total_groups: int,
    pub duration_ms: int,
    pub error: Option<Text>,
    pub coalesced: bool,
}

impl DeepView for SyncOutcome {
    type V = OutcomeModel;

    open spec fn deep_view(&self) -> OutcomeModel {
        OutcomeModel {
            scope: self.scope@,
            total_hosts: self.total_hosts as int,
            total_groups: self.total_groups as int,
            duration_ms: self.duration_ms as int,
            error: self.error.deep_view(),
            coalesced: self.coalesced,
        }
    }
}

/// The outcome of a sync that failed.
pub open spec fn failed_outcome(scope: ScopeModel, duration_ms: int, error: Text) -> OutcomeModel {
    OutcomeModel {
        scope: scope_label(scope),
        total_hosts: 0,
        total_groups: 0,
        duration_ms,
        error: Some(error),
        coalesced: false,
    }
}

impl SyncOutcome {
    /// Whether the sync succeeded.
    pub fn success(&self) -> (ok: bool)
        ensures
            ok == (self.error is None),
    {
        self.error.is_none()
    }

    fn failed(scope: String, duration_ms: u128, error: String) -> (outcome: Self)
        ensures
            outcome.deep_view() == (OutcomeModel {
                scope: scope@,
                total_hosts: 0,
                total_groups: 0,
                duration_ms: duration_ms as int,
                error: Some(error@),
                coalesced: false,
            }),
    {
        SyncOutcome { scope, total_hosts: 0, total_groups: 0, duration_ms, error: Some(error), coalesced: false }
    }
}

/// The JSON text of a host to connect to.
pub open spec fn host_spec_text(spec: HostSpecModel) -> Text {
    "{\"name\":"@ + compact_text(JsonTree::Str(spec.name)) + ",\"addresses\":"@ + compact_text(
        strings_tree(spec.addresses),
    ) + "}"@
}

/// The JSON text of the hosts to connect to.
pub open spec fn hosts_spec_text(specs: Seq<HostSpecModel>) -> Text {
    "["@ + join_text(specs.map_values(|s: HostSpecModel| host_spec_text(s)), ","@) + "]"@
}

fn hosts_spec_json(specs: &Vec<HostSpec>) -> (text: String)
    ensures
        text@ == hosts_spec_text(specs.deep_view()),
{
    let ghost all = specs.deep_view();
    let ghost text_of = |s: HostSpecModel| host_spec_text(s);
    let mut parts: Vec<String> = Vec::new();
    let mut i: usize = 0;
    while i < specs.len()
        invariant
            i <= specs@.len(),
            all == specs.deep_view(),
            text_of == (|s: HostSpecModel| host_spec_text(s)),
            parts.deep_view() == all.take(i as int).map_values(text_of),
        decreases specs@.len() - i,
    {
        let ghost before = parts.deep_view();
        let mut part = "{\"name\":".to_owned();
        part.append(string_text(&specs[i].name).as_str());
        part.append(",\"addresses\":");
        part.append(strings_text(&specs[i].addresses).as_str());
        part.append("}");
        let ghost text = part@;
        parts.push(part);
        assert(all[i as int] == specs@[i as int].deep_view());
        assert(parts.deep_view() =~= before.push(text));
        assert(all.take(i + 1).map_values(text_of) =~= all.take(i as int).map_values(text_of).push(
            text_of(all[i as int]),
        ));
        i += 1;
    }
    assert(all.take(all.len() as int) =~= all);
    cat3("[", join(&parts, ",").as_str(), "]")
}

/// The configuration with the hosts to connect to, where they come from another
/// source, or why there are none.
pub open spec fn hosts_config(entries: Map<Text, EntryView>, source: SourceModel) -> Result<Map<Text, Text>, Text> {
    match source.hosts_from_source {
        None => Ok(source.config),
        Some(from) => if !entries.contains_key(from.source) {
            Err(
                "hosts_from_source '"@ + from.source + "' is not in the cache yet \u{2014} sync it first"@,
            )
        } else {
            let specs = resolved(from, entries[from.source].dataset).0;
            if specs.len() == 0 {
                Err(
                    "hosts_from_source '"@ + from.source
                        + "' resolved to zero hosts (pattern too narrow, or empty source?)"@,
                )
            } else {
                Ok(source.config.insert("hosts_spec"@, hosts_spec_text(specs)))
            }
        },
    }
}

/// What is to be said of the hosts that come from another source.
pub open spec fn hosts_warnings(entries: Map<Text, EntryView>, source: SourceModel) -> Seq<Text> {
    match source.hosts_from_source {
        None => Seq::empty(),
        Some(from) => resolved(from, entries[from.source].dataset).1,
    }
}

/// A configuration with what is asked for: the scope, who asked, and whether to
/// gather anew.
pub open spec fn asking(config: Map<Text, Text>, request: RequestModel) -> Map<Text, Text> {
    let scoped = match request.scope {
        ScopeModel::Full => config,
        ScopeModel::Hosts(hosts) => config.insert("scope"@, "host"@).insert("target"@, join_text(hosts, ","@)),
        ScopeModel::Group(group) => config.insert("scope"@, "group"@).insert("target"@, group),
    };
    let triggered = match request.trigger {
        Some(trigger) => scoped.insert("trigger"@, trigger),
        None => scoped,
    };
    if request.refresh_origin {
        triggered.insert("refresh_origin"@, "true"@).insert(
            "refresh_depth"@,
            decimal_text(request.refresh_depth as nat),
        )
    } else {
        triggered
    }
}

/// The configuration that a connector is handed, or why it cannot be run.
pub open spec fn sync_config(
    entries: Map<Text, EntryView>,
    source: SourceModel,
    request: RequestModel,
) -> Result<Map<Text, Text>, Text> {
    match hosts_config(entries, source) {
        Ok(config) => Ok(asking(config, request)),
        Err(e) => Err(e),
    }
}

/// What a connector is to be run with.
pub struct SyncPlan {
    pub config: StrMap<String>,
    /// What is to be said of it in the log.
    pub warnings: Vec<String>,
}

fn plan_hosts<C: CachePort>(cache: &C, source: &Source) -> (plan: Result<SyncPlan, String>)
    ensures
        match plan {
            Ok(p) => hosts_config(cache.entries(), source.deep_view()) == Ok::<Map<Text, Text>, Text>(p.config@)
                && p.warnings.deep_view() == hosts_warnings(cache.entries(), source.deep_view()),
            Err(e) => hosts_config(cache.entries(), source.deep_view()) == Err::<Map<Text, Text>, Text>(e@),
        },
{
    let mut config = source.config.dup();
    match &source.hosts_from_source {
        None => {
            let warnings: Vec<String> = Vec::new();
            assert(warnings.deep_view() =~= Seq::empty());
            Ok(SyncPlan { config, warnings })
        },
        Some(from) => {
            let entry = match cache.get(from.source.as_str()) {
                Some(entry) => entry,
                None => return Err(
                    cat3(
                        "hosts_from_source '",
                        from.source.as_str(),
                        "' is not in the cache yet \u{2014} sync it first",
                    ),
                ),
            };
            let (specs, warnings) = from.resolve(entry.dataset());
            assert(specs.deep_view().len() == specs@.len());
            if specs.len() == 0 {
                return Err(
                    cat3(
                        "hosts_from_source '",
                        from.source.as_str(),
                        "' resolved to zero hosts (pattern too narrow, or empty source?)",
                    ),
                );
            }
            config.insert("hosts_spec".to_owned(), hosts_spec_json(&specs));
            Ok(SyncPlan { config, warnings })
        },
    }
}

/// What a connector is to be run with for a request, or why it cannot be run.
pub fn prepare_sync<C: CachePort>(cache: &C, source: &Source, request: &SyncRequest) -> (plan: Result<SyncPlan, String>)
    ensures
        match plan {
            Ok(p) => sync_config(cache.entries(), source.deep_view(), request.deep_view()) == Ok::<
                Map<Text, Text>,
                Text,
            >(p.config@) && p.warnings.deep_view() == hosts_warnings(cache.entries(), source.deep_view()),
            Err(e) => sync_config(cache.entries(), source.deep_view(), request.deep_view()) == Err::<
                Map<Text, Text>,
                Text,
            >(e@),
        },
{
    let SyncPlan { mut config, warnings } = match plan_hosts(cache, source) {
        Ok(plan) => plan,
        Err(e) => return Err(e),
    };
    match &request.scope {
        SyncScope::Hosts(hosts) => {
            config.insert("scope".to_owned(), "host".to_owned());
            config.insert("target".to_owned(), join(hosts, ","));
        },
        SyncScope::Group(group) => {
            config.insert("scope".to_owned(), "group".to_owned());
            config.insert("target".to_owned(), group.clone());
        },
        SyncScope::Full => {},
    }
    if let Some(trigger) = &request.trigger {
        config.insert("trigger".to_owned(), trigger.clone());
    }
    if request.refresh_origin {
        config.insert("refresh_origin".to_owned(), "true".to_owned());
        config.insert("refresh_depth".to_owned(), decimal(request.refresh_depth as u64));
    }
    Ok(SyncPlan { config, warnings })
}

/// How a sync goes on once it is its turn.
pub enum SyncStart {
    /// There is nothing to do: the whole source was gathered since the request came.
    Coalesced(SyncOutcome),
    /// The connector cannot be run.
    Refused(SyncOutcome),
    /// The connector is to be run.
    Gather(SyncPlan),
}

/// How many hosts and groups the cache has of a source.
pub open spec fn totals(entries: Map<Text, EntryView>, key: Text) -> (int, int) {
    if entries.contains_key(key) {
        (entries[key].dataset.hostvars.dom().len() as int, entries[key].dataset.groups.dom().len() as int)
    } else {
        (0, 0)
    }
}

/// How a sync goes on once it is its turn. The counts say how many plain syncs
/// of the whole source had succeeded when the request came, and how many have by
/// now.
pub fn begin_sync<C: CachePort>(
    cache: &C,
    source_id: &str,
    source: &Source,
    request: &SyncRequest,
    full_syncs_before: u64,
    full_syncs_now: u64,
) -> (start: SyncStart)
    ensures
        start is Coalesced <==> coalescable(request.deep_view()) && full_syncs_now != full_syncs_before,
        match start {
            SyncStart::Coalesced(outcome) => outcome.deep_view() == (OutcomeModel {
                scope: scope_label(ScopeModel::Full),
                total_hosts: totals(cache.entries(), source_id@).0,
                total_groups: totals(cache.entries(), source_id@).1,
                duration_ms: 0,
                error: None,
                coalesced: true,
            }),
            SyncStart::Refused(outcome) => sync_config(
                cache.entries(),
                source.deep_view(),
                request.deep_view(),
            ) matches Err(e) && outcome.deep_view() == failed_outcome(request.scope.deep_view(), 0, e),
            SyncStart::Gather(plan) => sync_config(cache.entries(), source.deep_view(), request.deep_view()) == Ok::<
                Map<Text, Text>,
                Text,
            >(plan.config@) && plan.warnings.deep_view() == hosts_warnings(cache.entries(), source.deep_view()),
        },
{
    if request.is_coalescable() && full_syncs_now != full_syncs_before {
        let (total_hosts, total_groups): (usize, usize) = match cache.get(source_id) {
            Some(entry) => (entry.dataset().hostvars.len(), entry.dataset().groups.len()),
            None => (0, 0),
        };
        return SyncStart::Coalesced(
            SyncOutcome {
                scope: SyncScope::Full.label(),
                total_hosts,
                total_groups,
                duration_ms: 0,
                error: None,
                coalesced: true,
            },
        );
    }
    match prepare_sync(cache, source, request) {
        Ok(plan) => SyncStart::Gather(plan),
        Err(e) => SyncStart::Refused(SyncOutcome::failed(request.scope.label(), 0, e)),
    }
}

/// What came of running the connector.
pub enum Gathered {
    /// The credentials could not be had.
    NoCredentials(String),
    /// It did not end in time.
    TimedOut,
    /// It failed.
    Failed(ConnectorError),
    /// It brought something.
    Output(ConnectorOutput),
}

/// Why nothing was gathered.
pub open spec fn gather_error(gathered: Gathered, source: SourceModel) -> Option<Text> {
    match gathered {
        Gathered::NoCredentials(message) => Some(message@),
        Gathered::TimedOut => Some(
            "sync timed out after "@ + decimal_text(source.timeout_seconds as nat) + "s"@,
        ),
        Gathered::Failed(error) => Some(error.message@),
        Gathered::Output(_) => None,
    }
}

/// Ends a sync: puts what was gathered into the cache, and says what became of it.
/// Where nothing was gathered, the cache stays as it is.
pub fn complete_sync<C: CachePort>(
    cache: &mut C,
    source_id: &str,
    source: &Source,
    scope: &SyncScope,
    gathered: Gathered,
    duration_ms: u128,
) -> (outcome: SyncOutcome)
    ensures
        match gather_error(gathered, source.deep_view()) {
            Some(error) => final(cache).entries() == old(cache).entries() && outcome.deep_view() == failed_outcome(
                scope.deep_view(),
                duration_ms as int,
                error,
            ),
            None => gathered matches Gathered::Output(output) && outcome.deep_view() == (OutcomeModel {
                scope: scope_label(scope.deep_view()),
                total_hosts: output@.dataset.hostvars.dom().len() as int,
                total_groups: output@.dataset.groups.dom().len() as int,
                duration_ms: duration_ms as int,
                error: None,
                coalesced: false,
            }) && final(cache).entries().remove(source_id@) == old(cache).entries().remove(source_id@)
                && exists|now: Instant|
                is_reading(now) && applied(
                    entry_of(old(cache).entries(), source_id@),
                    entry_of(final(cache).entries(), source_id@),
                    source.deep_view(),
                    scope.deep_view(),
                    output@,
                    #[trigger] nanos(now),
                ),
        },
{
    match gathered {
        Gathered::NoCredentials(message) => SyncOutcome::failed(scope.label(), duration_ms, message),
        Gathered::TimedOut => SyncOutcome::failed(
            scope.label(),
            duration_ms,
            cat3("sync timed out after ", decimal(source.timeout_seconds).as_str(), "s"),
        ),
        Gathered::Failed(error) => SyncOutcome::failed(scope.label(), duration_ms, error.message),
        Gathered::Output(output) => {
            let total_hosts: usize = output.dataset.hostvars.len();
            let total_groups: usize = output.dataset.groups.len();
            apply_to_cache(cache, source_id, source, scope, output);
            SyncOutcome {
                scope: scope.label(),
                total_hosts,
                total_groups,
                duration_ms,
                error: None,
                coalesced: false,
            }
        },
    }
}

/// What an attempt leaves behind in the records of a registry.
pub open spec fn recorded(
    before: Map<Text, RecordView>,
    after: Map<Text, RecordView>,
    id: Text,
    error: Option<Text>,
    now: int,
) -> bool {
    after == before.insert(
        id,
        match error {
            None => RecordView::succeeded(now),
            Some(e) => RecordView::failed(
                if before.contains_key(id) {
                    Some(before[id])
                } else {
                    None
                },
                e,
                now,
            ),
        },
    )
}

/// Records how an attempt went.
pub(crate) fn record_attempt(health: &mut SyncHealthRegistry, id: &str, error: &Option<String>)
    ensures
        exists|now: Instant|
            is_reading(now) && recorded(old(health)@, final(health)@, id@, error.deep_view(), #[trigger] nanos(now)),
{
    let ghost before = health@;
    let now = read_clock();
    match error {
        None => health.record_success_at(id, now),
        Some(e) => health.record_failure_at(id, e.as_str(), now),
    }
    assert(recorded(before, health@, id@, error.deep_view(), nanos(now)));
}

/// Records how a sync went. A plain sync of the whole source that succeeded is
/// counted.
pub fn settle_sync(
    health: &mut SyncHealthRegistry,
    syncs: &mut SyncCoordinator,
    source_id: &str,
    request: &SyncRequest,
    outcome: &SyncOutcome,
)
    ensures
        exists|now: Instant|
            is_reading(now) && recorded(old(health)@, final(health)@, source_id@, outcome.error.deep_view(), #[trigger] nanos(now)),
        final(syncs)@ == (if coalescable(request.deep_view()) && outcome.error is None {
            old(syncs)@.insert(
                source_id@,
                (if old(syncs)@.contains_key(source_id@) {
                    old(syncs)@[source_id@]
                } else {
                    0
                }).wrapping_add(1),
            )
        } else {
            old(syncs)@
        }),
{
    record_attempt(health, source_id, &outcome.error);
    if request.is_coalescable() && outcome.success() {
        syncs.count_full_sync(source_id);
    }
}

} // verus!
