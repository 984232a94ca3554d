//! What bounds a refresh.

#[allow(unused_imports)]
use crate::application::refresh::{
    at_least_one, host_stale, refresh_error, stale, RefreshModel, RefreshOutcome, RefreshSync,
};
#[allow(unused_imports)]
use crate::clock::seconds_since;
#[allow(unused_imports)]
use crate::domain::cache_entry::EntryView;
#[allow(unused_imports)]
use crate::domain::cache_laws::{law_an_age_is_in_whole_seconds, lemma_filter_holds};
#[allow(unused_imports)]
use crate::domain::source::{group_ttls, ttl_of, SourceModel, TtlOverridesModel};
#[allow(unused_imports)]
use crate::domain::source_laws::law_the_first_group_by_name_decides;
#[allow(unused_imports)]
use crate::strmap::{lemma_sorted, sorted};
#[allow(unused_imports)]
use crate::text::{decimal_text, Text};
use vstd::prelude::*;

verus! {

/// Only hosts that were named are gathered, and of those only the ones that are outside
/// their time to live; where anything is cached, a host inside it is left alone.
pub proof fn law_a_refresh_gathers_only_what_is_stale(
    entry: EntryView,
    source: SourceModel,
    hosts: Seq<Text>,
    ttl_override: Option<u64>,
    now: int,
    host: Text,
)
    ensures
        stale(Some(entry), source, hosts, ttl_override, now).contains(host) <==> hosts.contains(host) && host_stale(
            entry,
            source,
            ttl_override,
            now,
            host,
        ),
        stale(None, source, hosts, ttl_override, now) == hosts,
{
    lemma_filter_holds(hosts, |h: Text| host_stale(entry, source, ttl_override, now, h), host);
}

proof fn lemma_filter_len<A>(s: Seq<A>, keep: spec_fn(A) -> bool)
    ensures
        s.filter(keep).len() <= s.len(),
    decreases s.len(),
{
    reveal(Seq::filter);
    if s.len() > 0 {
        lemma_filter_len(s.drop_last(), keep);
    }
}

/// Of the hosts that are named, those that are gathered once the locks are held were
/// outside their time to live before and still are; and with those that are not gathered
/// they make up all that are named. `before` and `then` are what is cached at the two
/// moments.
pub proof fn law_a_refresh_accounts_for_every_host(
    before: Option<EntryView>,
    then: Option<EntryView>,
    source: SourceModel,
    hosts: Seq<Text>,
    ttl_override: Option<u64>,
    first: int,
    second: int,
    host: Text,
)
    ensures
        ({
            let found = stale(before, source, hosts, ttl_override, first);
            let gathered = stale(then, source, found, ttl_override, second);
            &&& gathered.contains(host) ==> hosts.contains(host) && found.contains(host)
            &&& gathered.contains(host) && before is Some ==> host_stale(
                before->0,
                source,
                ttl_override,
                first,
                host,
            )
            &&& gathered.contains(host) && then is Some ==> host_stale(then->0, source, ttl_override, second, host)
            &&& gathered.len() <= found.len() <= hosts.len()
        }),
{
    let found = stale(before, source, hosts, ttl_override, first);
    if before is Some {
        let outside = |h: Text| host_stale(before->0, source, ttl_override, first, h);
        lemma_filter_holds(hosts, outside, host);
        lemma_filter_len(hosts, outside);
    }
    if then is Some {
        let outside = |h: Text| host_stale(then->0, source, ttl_override, second, h);
        lemma_filter_holds(found, outside, host);
        lemma_filter_len(found, outside);
    }
}

/// A host that was just gathered is not gathered again, unless its time to live is zero.
pub proof fn law_a_gathered_host_is_not_stale(
    entry: EntryView,
    source: SourceModel,
    ttl_override: Option<u64>,
    now: int,
    host: Text,
)
    requires
        entry.stamps.contains_key(host),
        entry.stamps[host] == now,
        ({
            let fallback = match ttl_override {
                Some(ttl) => ttl,
                None => entry.ttl as u64,
            };
            ttl_of(source.ttl_overrides, group_ttls(source.ttl_overrides, entry.dataset.groups), host, fallback) > 0
        }),
    ensures
        !host_stale(entry, source, ttl_override, now, host),
{
}

/// What a view says of the time to live stands in for the default only: a time to live
/// that the source has for the host, or for its groups, still decides.
pub proof fn law_a_given_ttl_does_not_cancel_overrides(
    overrides: TtlOverridesModel,
    from_groups: Map<Text, u64>,
    host: Text,
    one: u64,
    other: u64,
)
    ensures
        overrides.hosts.contains_key(host) ==> ttl_of(overrides, from_groups, host, one) == overrides.hosts[host],
        !overrides.hosts.contains_key(host) && from_groups.contains_key(host) ==> ttl_of(
            overrides,
            from_groups,
            host,
            one,
        ) == from_groups[host],
        overrides.hosts.contains_key(host) || from_groups.contains_key(host) ==> ttl_of(
            overrides,
            from_groups,
            host,
            one,
        ) == ttl_of(overrides, from_groups, host, other),
        !overrides.hosts.contains_key(host) && !from_groups.contains_key(host) ==> ttl_of(
            overrides,
            from_groups,
            host,
            one,
        ) == one,
{
}

/// Two refreshes take the locks that they share in the same order, so that they never
/// wait for each other in a circle.
pub proof fn law_locks_are_taken_in_one_order(a: Set<Text>, b: Set<Text>, i: int, j: int, k: int, l: int)
    requires
        a.finite(),
        b.finite(),
        0 <= i < sorted(a).len(),
        0 <= j < sorted(a).len(),
        0 <= k < sorted(b).len(),
        0 <= l < sorted(b).len(),
        sorted(a)[i] == sorted(b)[k],
        sorted(a)[j] == sorted(b)[l],
        i < j,
    ensures
        k < l,
{
    lemma_sorted(a);
    lemma_sorted(b);
    let x = sorted(a)[i];
    let y = sorted(a)[j];
    assert(crate::text::text_lt(x, y));
    crate::text::lemma_text_lt_irreflexive(x);
    if k > l {
        assert(crate::text::text_lt(y, x));
        crate::text::lemma_text_lt_asymmetric(x, y);
    }
}

/// Where a time to live comes with the request, a host that has none of its own, nor from
/// its groups, is gathered exactly where it was never gathered or is at least that many
/// seconds old: whatever the entry says of how long it lives.
pub proof fn law_a_given_ttl_decides(entry: EntryView, source: SourceModel, ttl: u64, now: int, host: Text)
    requires
        !source.ttl_overrides.hosts.contains_key(host),
        !group_ttls(source.ttl_overrides, entry.dataset.groups).contains_key(host),
    ensures
        !entry.stamps.contains_key(host) ==> host_stale(entry, source, Some(ttl), now, host),
        entry.stamps.contains_key(host) ==> (host_stale(entry, source, Some(ttl), now, host) <==> seconds_since(
            now,
            entry.stamps[host],
        ) >= ttl),
        stale(Some(entry), source, seq![host], Some(ttl), now).contains(host) <==> host_stale(
            entry,
            source,
            Some(ttl),
            now,
            host,
        ),
{
    lemma_filter_holds(seq![host], |h: Text| host_stale(entry, source, Some(ttl), now, h), host);
    assert(seq![host][0] == host);
}

/// Where none comes with the request, such a host is gathered exactly where it was never
/// gathered or is at least as many seconds old as the entry lives.
pub proof fn law_without_a_given_ttl_the_entry_decides(entry: EntryView, source: SourceModel, now: int, host: Text)
    requires
        !source.ttl_overrides.hosts.contains_key(host),
        !group_ttls(source.ttl_overrides, entry.dataset.groups).contains_key(host),
        0 <= entry.ttl <= u64::MAX,
    ensures
        !entry.stamps.contains_key(host) ==> host_stale(entry, source, None, now, host),
        entry.stamps.contains_key(host) ==> (host_stale(entry, source, None, now, host) <==> seconds_since(
            now,
            entry.stamps[host],
        ) >= entry.ttl),
{
}

/// A host that has a time to live of its own is gathered by that; one that has one from
/// its groups by that. Neither the request nor the entry has a say.
pub proof fn law_an_override_decides(
    entry: EntryView,
    source: SourceModel,
    ttl_override: Option<u64>,
    now: int,
    host: Text,
)
    requires
        entry.stamps.contains_key(host),
    ensures
        source.ttl_overrides.hosts.contains_key(host) ==> (host_stale(entry, source, ttl_override, now, host)
            <==> seconds_since(now, entry.stamps[host]) >= source.ttl_overrides.hosts[host]),
        !source.ttl_overrides.hosts.contains_key(host) && group_ttls(
            source.ttl_overrides,
            entry.dataset.groups,
        ).contains_key(host) ==> (host_stale(entry, source, ttl_override, now, host) <==> seconds_since(
            now,
            entry.stamps[host],
        ) >= group_ttls(source.ttl_overrides, entry.dataset.groups)[host]),
{
}

/// The hosts that are to be gathered stand in the order in which they were named.
pub proof fn law_stale_hosts_keep_their_order(
    entry: EntryView,
    source: SourceModel,
    hosts: Seq<Text>,
    ttl_override: Option<u64>,
    now: int,
    next: Text,
)
    ensures
        ({
            let found = stale(Some(entry), source, hosts, ttl_override, now);
            let more = stale(Some(entry), source, hosts.push(next), ttl_override, now);
            if host_stale(entry, source, ttl_override, now, next) {
                more == found.push(next)
            } else {
                more == found
            }
        }),
{
    reveal(Seq::filter);
    assert(hosts.push(next).drop_last() =~= hosts);
}

/// A refresh that failed says why, and one that did not says nothing; the limit that it ran
/// into is named.
pub proof fn law_a_refresh_that_failed_says_why(sync: RefreshSync, timeout_seconds: u64)
    ensures
        sync matches RefreshSync::Synced(outcome) ==> (refresh_error(sync, timeout_seconds) is None
            <==> outcome.error is None),
        sync is TimedOut ==> refresh_error(sync, timeout_seconds) == Some(
            "refresh did not finish within "@ + decimal_text(timeout_seconds as nat) + "s"@,
        ),
        sync is NoPermit ==> refresh_error(sync, timeout_seconds) == Some("refresh limiter unavailable"@),
        sync matches RefreshSync::Synced(outcome) ==> (outcome.error matches Some(error) ==> refresh_error(
            sync,
            timeout_seconds,
        ) == Some(error@)),
{
}

/// At least one refresh may run at once, and else as many as are allowed.
pub proof fn law_some_refresh_may_run(max_concurrent: usize)
    ensures
        at_least_one(max_concurrent) >= 1,
        max_concurrent > 0 ==> at_least_one(max_concurrent) == max_concurrent,
        at_least_one(max_concurrent) <= max_concurrent || at_least_one(max_concurrent) == 1,
{
}

/// Where nothing is gathered, the hosts that are fresh are counted; where gathering failed,
/// nothing is, and it is said why.
pub proof fn law_a_refresh_counts_what_is_fresh(count: int, error: Text, outcome: RefreshOutcome)
    ensures
        RefreshModel::fresh(count).refreshed.len() == 0,
        RefreshModel::fresh(count).already_fresh == count,
        RefreshModel::fresh(count).error is None,
        RefreshModel::failed(error).refreshed.len() == 0,
        RefreshModel::failed(error).already_fresh == 0,
        RefreshModel::failed(error).error == Some(error),
        outcome.deep_view().refreshed == outcome.refreshed.deep_view(),
        outcome.deep_view().already_fresh == outcome.already_fresh,
        outcome.deep_view().error == outcome.error.deep_view(),
{
}

/// A host with a given time to live and none of its own or of its groups is gathered where
/// it was never gathered, or that many seconds have passed since: of all that are asked
/// for, and of no others.
pub proof fn law_what_is_older_than_asked_is_gathered(
    entry: EntryView,
    source: SourceModel,
    hosts: Seq<Text>,
    ttl: u64,
    now: int,
    host: Text,
)
    requires
        !source.ttl_overrides.hosts.contains_key(host),
        forall|g: Text| #[trigger]
            source.ttl_overrides.groups.contains_key(g) ==> !(entry.dataset.groups.contains_key(g)
                && entry.dataset.groups[g].hosts.contains(host)),
        source.ttl_overrides.groups.dom().finite(),
    ensures
        stale(Some(entry), source, hosts, Some(ttl), now).contains(host) <==> hosts.contains(host) && (
        !entry.stamps.contains_key(host) || ttl == 0 || now - entry.stamps[host] >= ttl * 1_000_000_000),
{
    law_the_first_group_by_name_decides(source.ttl_overrides, entry.dataset.groups, host);
    law_a_given_ttl_decides(entry, source, ttl, now, host);
    lemma_filter_holds(hosts, |h: Text| host_stale(entry, source, Some(ttl), now, h), host);
    law_an_age_is_in_whole_seconds(now, entry.stamps[host]);
}

} // verus!
