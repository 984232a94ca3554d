//! Reads that may bring the hosts they name up to date first.

use crate::application::sync::{SyncOutcome, SyncRequest, SyncScope, DEFAULT_REFRESH_DEPTH};
#[allow(unused_imports)]
use crate::application::sync::{entry_of, RequestModel, ScopeModel};
#[allow(unused_imports)]
use crate::clock::nanos;
#[allow(unused_imports)]
use crate::domain::cache_entry::EntryView;
use crate::domain::source::Source;
#[allow(unused_imports)]
use crate::domain::source::{group_ttls, ttl_of, SourceModel};
use crate::locks::{no_numbers, number_or};
#[allow(unused_imports)]
use crate::locks::numbers;
use crate::model::Dup;
use crate::ports::cache::CachePort;
use crate::strmap::StrSet;
#[allow(unused_imports)]
use crate::strmap::sorted;
#[allow(unused_imports)]
use crate::text::{decimal_text, Text};
use crate::text::{cat3, decimal};
use dashmap::DashMap;
use std::collections::hash_map::RandomState;
use std::time::Instant;
use vstd::prelude::*;

verus! {

/// The limits of refreshes, and the locks of the hosts that are refreshed.
pub struct RefreshCoordinator {
    in_flight: DashMap<(String, String), usize, RandomState>,
    /// The hosts that have a lock, each with its source, in the order in which they
    /// came.
    names: Vec<(String, String)>,
    permits: usize,
    timeout_seconds: u64,
}

/// What a [`RefreshCoordinator`] knows.
#[verifier::ext_equal]
pub struct CoordinatorModel {
    /// The sources and hosts that have a lock. The number of a lock is its place.
    pub locks: Seq<(Text, Text)>,
    /// How many refreshes run at once.
    pub permits: usize,
    /// How long a read waits for a refresh.
    pub timeout_seconds: u64,
}

impl View for RefreshCoordinator {
    type V = CoordinatorModel;

    closed spec fn view(&self) -> CoordinatorModel {
        CoordinatorModel {
            locks: self.names@.map_values(|n: (String, String)| (n.0@, n.1@)),
            permits: self.permits,
            timeout_seconds: self.timeout_seconds,
        }
    }
}

/// How many refreshes may run at once: at least one.
pub open spec fn at_least_one(max_concurrent: usize) -> usize {
    if max_concurrent == 0 {
        1
    } else {
        max_concurrent
    }
}

spec fn numbered(table: Map<(Text, Text), usize>, locks: Seq<(Text, Text)>) -> bool {
    &&& locks.no_duplicates()
    &&& forall|i: int| 0 <= i < locks.len() ==> table.contains_key(#[trigger] locks[i]) && table[locks[i]] == i
    &&& forall|pair: (Text, Text)| #[trigger] table.contains_key(pair) ==> locks.contains(pair)
}

impl RefreshCoordinator {
    /// The table of the numbers says of each lock its place.
    pub closed spec fn wf(&self) -> bool {
        numbered(numbers(self.in_flight), self@.locks)
    }

    /// No host has a lock yet. A limit of zero would let no refresh run ever, so it
    /// counts as one.
    pub fn new(max_concurrent: usize, timeout_seconds: u64) -> (coordinator: Self)
        ensures
            coordinator.wf(),
            coordinator@ == (CoordinatorModel {
                locks: Seq::empty(),
                permits: at_least_one(max_concurrent),
                timeout_seconds,
            }),
    {
        let permits: usize = if max_concurrent == 0 {
            1
        } else {
            max_concurrent
        };
        let coordinator = RefreshCoordinator {
            in_flight: no_numbers(),
            names: Vec::new(),
            permits,
            timeout_seconds,
        };
        assert(coordinator@.locks =~= Seq::empty());
        coordinator
    }

    /// How many refreshes may run at once.
    pub fn permits(&self) -> (permits: usize)
        ensures
            permits == self@.permits,
    {
        self.permits
    }

    /// How long a read waits for a refresh.
    pub fn timeout_seconds(&self) -> (seconds: u64)
        ensures
            seconds == self@.timeout_seconds,
    {
        self.timeout_seconds
    }

    /// Changes the limits. The locks stay.
    pub fn resize(&mut self, max_concurrent: usize, timeout_seconds: u64)
        ensures
            final(self)@ == (CoordinatorModel {
                permits: at_least_one(max_concurrent),
                timeout_seconds,
                ..old(self)@
            }),
            final(self).wf() == old(self).wf(),
    {
        self.permits = if max_concurrent == 0 {
            1
        } else {
            max_concurrent
        };
        self.timeout_seconds = timeout_seconds;
        assert(self@.locks =~= old(self)@.locks);
    }

    /// The number of the lock of a host of a source: always the same for the same,
    /// and never the same for another. A host that has no lock yet gets the next.
    pub fn lock_for(&mut self, source_id: &str, hostname: &str) -> (number: usize)
        requires
            old(self).wf(),
        ensures
            final(self).wf(),
            number < final(self)@.locks.len(),
            final(self)@.locks[number as int] == (source_id@, hostname@),
            final(self)@ == (if old(self)@.locks.contains((source_id@, hostname@)) {
                old(self)@
            } else {
                CoordinatorModel { locks: old(self)@.locks.push((source_id@, hostname@)), ..old(self)@ }
            }),
    {
        let ghost before = *self;
        let ghost pair = (source_id@, hostname@);
        let fresh: usize = self.names.len();
        let number: usize = number_or(&mut self.in_flight, source_id, hostname, fresh);
        assert(self@.locks =~= before@.locks);
        assert(before@.locks.len() == fresh);
        proof {
            if before@.locks.contains(pair) {
                let i = choose|i: int| 0 <= i < before@.locks.len() && before@.locks[i] == pair;
                assert(numbers(before.in_flight)[before@.locks[i]] == i);
            }
        }
        if number == fresh {
            self.names.push((source_id.to_owned(), hostname.to_owned()));
            proof {
                assert(!before@.locks.contains(pair));
                assert(self@.locks =~= before@.locks.push(pair));
                assert forall|i: int| 0 <= i < self@.locks.len() implies numbers(self.in_flight).contains_key(
                    #[trigger] self@.locks[i],
                ) && numbers(self.in_flight)[self@.locks[i]] == i by {
                    if i < before@.locks.len() {
                        assert(self@.locks[i] == before@.locks[i]);
                        assert(before@.locks.contains(before@.locks[i]));
                    }
                }
                assert forall|other: (Text, Text)| #[trigger]
                    numbers(self.in_flight).contains_key(other) implies self@.locks.contains(other) by {
                    if other != pair {
                        assert(numbers(before.in_flight).contains_key(other));
                        let i = choose|i: int| 0 <= i < before@.locks.len() && before@.locks[i] == other;
                        assert(self@.locks[i] == other);
                    } else {
                        assert(self@.locks[fresh as int] == pair);
                    }
                }
            }
        } else {
            assert(numbers(before.in_flight).contains_key(pair));
        }
        number
    }
}

/// Each host of a source has a lock of its own: two numbers are the same for the same
/// host of the same source, and only for that.
pub proof fn law_each_host_has_its_own_lock(coordinator: RefreshCoordinator, n: int, m: int)
    requires
        coordinator.wf(),
        0 <= n < coordinator@.locks.len(),
        0 <= m < coordinator@.locks.len(),
    ensures
        n == m <==> coordinator@.locks[n] == coordinator@.locks[m],
{
}

/// What a refresh did.
#[derive(Clone, Debug, PartialEq, Eq)]
pub struct RefreshOutcome {
    /// The hosts that were gathered anew.
    pub refreshed: Vec<String>,
    /// How many of the named hosts were fresh already.
    pub already_fresh: usize,
    /// Why a refresh did not succeed. What was cached is still served.
    pub error: Option<String>,
}

/// What a [`RefreshOutcome`] says.
#[verifier::ext_equal]
pub struct RefreshModel {
    pub refreshed: Seq<Text>,
    pub already_fresh: int,
    pub error: Option<Text>,
}

impl DeepView for RefreshOutcome {
    type V = RefreshModel;

    open spec fn deep_view(&self) -> RefreshModel {
        RefreshModel {
            refreshed: self.refreshed.deep_view(),
            already_fresh: self.already_fresh as int,
            error: self.error.deep_view(),
        }
    }
}

impl RefreshModel {
    /// Nothing was gathered: this many hosts were fresh already.
    pub open spec fn fresh(count: int) -> RefreshModel {
        RefreshModel { refreshed: Seq::empty(), already_fresh: count, error: None }
    }

    /// The refresh did not succeed.
    pub open spec fn failed(error: Text) -> RefreshModel {
        RefreshModel { refreshed: Seq::empty(), already_fresh: 0, error: Some(error) }
    }
}

impl Default for RefreshOutcome {
    fn default() -> (outcome: Self)
        ensures
            outcome.deep_view() == RefreshModel::fresh(0),
    {
        RefreshOutcome::fresh(0)
    }
}

impl RefreshOutcome {
    fn fresh(count: usize) -> (outcome: Self)
        ensures
            outcome.deep_view() == RefreshModel::fresh(count as int),
    {
        let outcome = RefreshOutcome { refreshed: Vec::new(), already_fresh: count, error: None };
        assert(outcome.deep_view().refreshed =~= Seq::empty());
        outcome
    }

    fn failed(error: String) -> (outcome: Self)
        ensures
            outcome.deep_view() == RefreshModel::failed(error@),
    {
        let outcome = RefreshOutcome { refreshed: Vec::new(), already_fresh: 0, error: Some(error) };
        assert(outcome.deep_view().refreshed =~= Seq::empty());
        outcome
    }
}

/// A host is outside its time to live. The time to live is its own or that of its
/// groups, where the source has one; else the given one, else that of the entry.
pub open spec fn host_stale(
    entry: EntryView,
    source: SourceModel,
    ttl_override: Option<u64>,
    now: int,
    host: Text,
) -> bool {
    let fallback = match ttl_override {
        Some(ttl) => ttl,
        None => entry.ttl as u64,
    };
    !entry.host_fresh(
        host,
        ttl_of(source.ttl_overrides, group_ttls(source.ttl_overrides, entry.dataset.groups), host, fallback) as int,
        now,
    )
}

/// Which of the named hosts are outside their time to live. Where nothing is cached,
/// all are.
pub open spec fn stale(
    entry: Option<EntryView>,
    source: SourceModel,
    hosts: Seq<Text>,
    ttl_override: Option<u64>,
    now: int,
) -> Seq<Text> {
    match entry {
        None => hosts,
        Some(e) => hosts.filter(|h: Text| host_stale(e, source, ttl_override, now, h)),
    }
}

/// Which of the named hosts are outside their time to live at the given moment.
pub fn stale_hosts_at<C: CachePort>(
    cache: &C,
    source: &Source,
    source_id: &str,
    hosts: &Vec<String>,
    ttl_override: Option<u64>,
    now: Instant,
) -> (found: Vec<String>)
    ensures
        found.deep_view() == stale(
            entry_of(cache.entries(), source_id@),
            source.deep_view(),
            hosts.deep_view(),
            ttl_override,
            nanos(now),
        ),
        found@.len() <= hosts@.len(),
{
    let entry = match cache.get(source_id) {
        Some(entry) => entry,
        None => {
            let all = hosts.dup();
            assert(all.deep_view().len() == hosts.deep_view().len());
            return all;
        },
    };
    let group_ttls = source.group_ttl_by_host(entry.dataset());
    let fallback: u64 = match ttl_override {
        Some(ttl) => ttl,
        None => entry.ttl_seconds(),
    };
    let ghost all = hosts.deep_view();
    let ghost outside = |h: Text| host_stale(entry@, source.deep_view(), ttl_override, nanos(now), h);
    let mut found: Vec<String> = Vec::new();
    let mut i: usize = 0;
    proof {
        reveal(Seq::filter);
        assert(found.deep_view() =~= all.take(0).filter(outside));
    }
    while i < hosts.len()
        invariant
            i <= hosts@.len(),
            all == hosts.deep_view(),
            found@.len() <= i,
            group_ttls@ == crate::domain::source::group_ttls(
                source.ttl_overrides.deep_view(),
                entry@.dataset.groups,
            ),
            fallback == (match ttl_override {
                Some(ttl) => ttl,
                None => entry@.ttl as u64,
            }),
            outside == (|h: Text| host_stale(entry@, source.deep_view(), ttl_override, nanos(now), h)),
            found.deep_view() == all.take(i as int).filter(outside),
        decreases hosts@.len() - i,
    {
        let ghost before = found.deep_view();
        proof {
            reveal(Seq::filter);
            assert(all.take(i + 1).drop_last() =~= all.take(i as int));
            assert(all[i as int] == hosts@[i as int]@);
        }
        let ttl: u64 = source.effective_ttl(hosts[i].as_str(), &group_ttls, fallback);
        if !entry.is_host_fresh_at(hosts[i].as_str(), Some(ttl), now) {
            found.push(hosts[i].clone());
            assert(found.deep_view() =~= before.push(all[i as int]));
        }
        i += 1;
    }
    assert(all.take(all.len() as int) =~= all);
    found
}

/// How a refresh goes on.
pub enum RefreshStart {
    /// There is nothing to do.
    Done(RefreshOutcome),
    /// The locks of these hosts are to be taken, in this order.
    Lock { stale: Vec<String>, order: Vec<String> },
}

/// Begins a refresh of the named hosts of a source, at the given moment. Nothing is
/// done where the source does not allow it, and where every host is fresh; how many
/// are is told all the same. Else the locks are to be taken in ascending order of the hosts,
/// so that no two refreshes wait for each other.
pub fn begin_refresh<C: CachePort>(
    cache: &C,
    source: &Source,
    source_id: &str,
    hosts: &Vec<String>,
    ttl_override: Option<u64>,
    now: Instant,
) -> (start: RefreshStart)
    ensures
        ({
            let outside = stale(
                entry_of(cache.entries(), source_id@),
                source.deep_view(),
                hosts.deep_view(),
                ttl_override,
                nanos(now),
            );
            match start {
                RefreshStart::Done(outcome) => (outside.len() == 0 || !source.allow_on_demand_refresh)
                    && outcome.deep_view() == RefreshModel::fresh(hosts@.len() - outside.len()),
                RefreshStart::Lock { stale: found, order } => source.allow_on_demand_refresh && outside.len() > 0
                    && found.deep_view() == outside && found@.len() <= hosts@.len() && order.deep_view() == sorted(
                    outside.to_set(),
                ),
            }
        }),
{
    let found = stale_hosts_at(cache, source, source_id, hosts, ttl_override, now);
    assert(found.deep_view().len() == found@.len());
    if found.len() == 0 || !source.allow_on_demand_refresh {
        return RefreshStart::Done(RefreshOutcome::fresh(hosts.len() - found.len()));
    }
    let mut names = StrSet::new();
    names.extend(&found);
    assert(names@ =~= found.deep_view().to_set());
    let order = names.to_vec();
    RefreshStart::Lock { stale: found, order }
}

/// How a refresh goes on once its locks are held.
pub enum RefreshTurn {
    /// Others refreshed the hosts meanwhile.
    Done(RefreshOutcome),
    /// These hosts are to be gathered, by this request.
    Gather { still_stale: Vec<String>, request: SyncRequest },
}

/// Goes on with a refresh once its locks are held: of the hosts that were outside
/// their time to live, those that still are have to be gathered at the origin, for a
/// read.
/// `asked` says how many hosts were named.
pub fn resume_refresh<C: CachePort>(
    cache: &C,
    source: &Source,
    source_id: &str,
    asked: usize,
    found: &Vec<String>,
    ttl_override: Option<u64>,
    now: Instant,
) -> (turn: RefreshTurn)
    ensures
        ({
            let outside = stale(
                entry_of(cache.entries(), source_id@),
                source.deep_view(),
                found.deep_view(),
                ttl_override,
                nanos(now),
            );
            match turn {
                RefreshTurn::Done(outcome) => outside.len() == 0 && outcome.deep_view() == RefreshModel::fresh(
                    asked as int,
                ),
                RefreshTurn::Gather { still_stale, request } => outside.len() > 0 && still_stale.deep_view()
                    == outside && still_stale@.len() <= found@.len() && request.deep_view() == (RequestModel {
                    scope: ScopeModel::Hosts(outside),
                    refresh_origin: true,
                    refresh_depth: DEFAULT_REFRESH_DEPTH,
                    trigger: Some("refresh"@),
                }),
            }
        }),
{
    let still_stale = stale_hosts_at(cache, source, source_id, found, ttl_override, now);
    assert(still_stale.deep_view().len() == still_stale@.len());
    if still_stale.len() == 0 {
        return RefreshTurn::Done(RefreshOutcome::fresh(asked));
    }
    let request = SyncRequest::refreshing_origin(SyncScope::Hosts(still_stale.dup()), DEFAULT_REFRESH_DEPTH).with_trigger(
        "refresh".to_owned(),
    );
    RefreshTurn::Gather { still_stale, request }
}

/// What came of gathering for a refresh.
pub enum RefreshSync {
    /// No refresh may run any more.
    NoPermit,
    /// It did not end within the time that a read waits.
    TimedOut,
    /// It ended.
    Synced(SyncOutcome),
}

/// Why gathering for a refresh did not succeed.
pub open spec fn refresh_error(sync: RefreshSync, timeout_seconds: u64) -> Option<Text> {
    match sync {
        RefreshSync::NoPermit => Some("refresh limiter unavailable"@),
        RefreshSync::TimedOut => Some(
            "refresh did not finish within "@ + decimal_text(timeout_seconds as nat) + "s"@,
        ),
        RefreshSync::Synced(outcome) => outcome.deep_view().error,
    }
}

/// Ends a refresh. `asked` says how many hosts were named, and `still_stale` which of
/// them were gathered.
pub fn finish_refresh(
    asked: usize,
    still_stale: Vec<String>,
    sync: RefreshSync,
    timeout_seconds: u64,
) -> (outcome: RefreshOutcome)
    requires
        still_stale@.len() <= asked,
    ensures
        outcome.deep_view() == (match refresh_error(sync, timeout_seconds) {
            Some(error) => RefreshModel::failed(error),
            None => RefreshModel {
                refreshed: still_stale.deep_view(),
                already_fresh: asked - still_stale@.len(),
                error: None,
            },
        }),
{
    match sync {
        RefreshSync::NoPermit => RefreshOutcome::failed("refresh limiter unavailable".to_owned()),
        RefreshSync::TimedOut => RefreshOutcome::failed(
            cat3("refresh did not finish within ", decimal(timeout_seconds).as_str(), "s"),
        ),
        RefreshSync::Synced(done) => match done.error {
            Some(error) => RefreshOutcome::failed(error),
            None => {
                let count: usize = still_stale.len();
                RefreshOutcome { refreshed: still_stale, already_fresh: asked - count, error: None }
            },
        },
    }
}

} // verus!
