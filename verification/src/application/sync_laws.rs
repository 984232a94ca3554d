//! What a sync makes of what is cached, whatever it brings.

#[allow(unused_imports)]
use crate::application::sync::{
    answered, applied, applied_replace, as_old_as, asking, coalescable, entry_of, failed_outcome, gather_error,
    host_spec_text, hosts_config, hosts_spec_text, hosts_warnings, kept_host, kept_hosts, replaced_keeping,
    scope_label, sync_config, totals, with_kept, Gathered, RequestModel, ScopeModel, SyncOutcome, SyncRequest,
    SyncScope, DEFAULT_REFRESH_DEPTH,
};
#[allow(unused_imports)]
use crate::clock::{representable, seconds_since};
#[allow(unused_imports)]
use crate::domain::cache_entry::{aged, groups_of, refreshed, EntryView, RetainedView};
#[allow(unused_imports)]
use crate::domain::cache_laws::{law_a_merge_replaces_what_comes, law_an_aged_moment_lies_back, lemma_groups_of};
#[allow(unused_imports)]
use crate::domain::dataset::GroupView;
#[allow(unused_imports)]
use crate::domain::source::{resolved, HostSpecModel, SourceModel};
#[allow(unused_imports)]
use crate::domain::sync_mode::SyncMode;
#[allow(unused_imports)]
use crate::json::{compact_text, JsonTree};
#[allow(unused_imports)]
use crate::ports::connector::{ConnectorOutput, DatasetAges, OutputView};
#[allow(unused_imports)]
use crate::text::{decimal_text, join_text, Text};
use vstd::prelude::*;

verus! {

/// What is made of a list is what is made of something in it.
pub proof fn lemma_filter_map_holds<A, B>(s: Seq<A>, f: spec_fn(A) -> Option<B>, x: A)
    requires
        s.contains(x),
        f(x) is Some,
    ensures
        s.filter_map(f).contains(f(x)->0),
    decreases s.len(),
{
    let n = s.len() - 1;
    let rest = s.take(n);
    s.lemma_filter_map_take_succ(f, n);
    assert(s.take(n + 1) =~= s);
    let made = rest.filter_map(f);
    let i = choose|i: int| 0 <= i < s.len() && s[i] == x;
    if i < n {
        assert(rest[i] == x);
        lemma_filter_map_holds(rest, f, x);
        let j = choose|j: int| 0 <= j < made.len() && made[j] == f(x)->0;
        assert(s.filter_map(f)[j] == f(x)->0);
    } else {
        assert(s.filter_map(f)[made.len() as int] == f(x)->0);
    }
}

/// Putting kept hosts back changes nothing but those hosts and their groups.
proof fn lemma_with_kept(
    base: EntryView,
    kept: Seq<RetainedView>,
    at: Seq<int>,
    previous: EntryView,
    host: Text,
    now: int,
)
    requires
        at.len() == kept.len(),
        forall|i: int|
            0 <= i < kept.len() ==> previous.captured((#[trigger] kept[i]).hostname, now) == Some(kept[i]),
    ensures
        ({
            let after = with_kept(base, kept, at);
            let back = exists|i: int| 0 <= i < kept.len() && (#[trigger] kept[i]).hostname == host;
            &&& after.fetched_at == base.fetched_at
            &&& after.ttl == base.ttl
            &&& after.complete == base.complete
            &&& after.dataset.hostvars.contains_key(host) <==> base.dataset.hostvars.contains_key(host) || back
            &&& back ==> after.dataset.hostvars[host] == previous.dataset.hostvars[host]
            &&& !back && base.dataset.hostvars.contains_key(host) ==> after.dataset.hostvars[host]
                == base.dataset.hostvars[host]
            &&& back ==> after.stamps.contains_key(host) && exists|i: int|
                0 <= i < kept.len() && (#[trigger] kept[i]).hostname == host && after.stamps[host] == at[i]
            &&& !back ==> (after.stamps.contains_key(host) <==> base.stamps.contains_key(host))
            &&& !back && base.stamps.contains_key(host) ==> after.stamps[host] == base.stamps[host]
            &&& forall|g: Text| #[trigger]
                base.dataset.groups.contains_key(g) ==> after.dataset.groups.contains_key(g)
            &&& forall|g: Text|
                back && #[trigger] groups_of(previous.dataset.groups, host).contains(g)
                    ==> after.dataset.groups.contains_key(g) && after.dataset.groups[g].hosts.contains(host)
            &&& forall|g: Text|
                base.dataset.groups.contains_key(g) && #[trigger] base.dataset.groups[g].hosts.contains(host)
                    ==> after.dataset.groups[g].hosts.contains(host)
        }),
    decreases kept.len(),
{
    if kept.len() > 0 {
        let n = kept.len() - 1;
        let last = kept.last();
        let fewer = kept.drop_last();
        let inner = with_kept(base, fewer, at.drop_last());
        let after = with_kept(base, kept, at);
        assert forall|i: int| 0 <= i < fewer.len() implies previous.captured((#[trigger] fewer[i]).hostname, now) == Some(
            fewer[i],
        ) by {
            assert(fewer[i] == kept[i]);
        }
        lemma_with_kept(base, fewer, at.drop_last(), previous, host, now);
        assert(after == inner.with_retained(last, at.last()));
        assert(previous.captured(kept[n].hostname, now) == Some(kept[n]));
        let back_inner = exists|i: int| 0 <= i < fewer.len() && (#[trigger] fewer[i]).hostname == host;
        let back = exists|i: int| 0 <= i < kept.len() && (#[trigger] kept[i]).hostname == host;
        if back_inner {
            let i = choose|i: int| 0 <= i < fewer.len() && (#[trigger] fewer[i]).hostname == host;
            assert(kept[i].hostname == host);
            let j = choose|j: int|
                0 <= j < fewer.len() && (#[trigger] fewer[j]).hostname == host && inner.stamps[host] == at.drop_last()[j];
            assert(kept[j].hostname == host && at[j] == at.drop_last()[j]);
        }
        if back && !back_inner {
            let i = choose|i: int| 0 <= i < kept.len() && (#[trigger] kept[i]).hostname == host;
            if i < n {
                assert(fewer[i].hostname == host);
            }
        }
        if last.hostname == host {
            assert(kept[n].hostname == host && at[n] == at.last());
        }
        assert forall|g: Text, h: Text| inner.dataset.groups.contains_key(g) && #[trigger]
            inner.dataset.groups[g].hosts.contains(h) implies after.dataset.groups[g].hosts.contains(h) by {
            let own = inner.dataset.groups[g].hosts;
            let i = choose|i: int| 0 <= i < own.len() && own[i] == h;
            assert(own.push(last.hostname)[i] == h);
        }
        assert forall|g: Text|
            back && #[trigger] groups_of(previous.dataset.groups, host).contains(g) implies after.dataset.groups.contains_key(
            g,
        ) && after.dataset.groups[g].hosts.contains(host) by {
            if last.hostname == host {
                let own = if inner.dataset.groups.contains_key(g) {
                    inner.dataset.groups[g]
                } else {
                    GroupView::none()
                };
                assert(last.groups.contains(g));
                assert(own.hosts.push(host)[own.hosts.len() as int] == host);
            }
        }
    }
}

/// The kept hosts are those that did not answer, that did not come, and that are known.
proof fn lemma_kept_hosts(previous: EntryView, output: OutputView, now: int, host: Text)
    ensures
        ({
            let kept = kept_hosts(previous, output, now);
            &&& forall|i: int|
                0 <= i < kept.len() ==> previous.captured((#[trigger] kept[i]).hostname, now) == Some(kept[i])
            &&& (exists|i: int| 0 <= i < kept.len() && (#[trigger] kept[i]).hostname == host)
                <==> output.unreachable.contains(host) && !output.dataset.hostvars.contains_key(host)
                && previous.dataset.hostvars.contains_key(host)
        }),
{
    let f = kept_host(previous, output, now);
    let kept = kept_hosts(previous, output, now);
    assert forall|i: int| 0 <= i < kept.len() implies {
        let r = #[trigger] kept[i];
        &&& previous.captured(r.hostname, now) == Some(r)
        &&& output.unreachable.contains(r.hostname)
        &&& !output.dataset.hostvars.contains_key(r.hostname)
    } by {
        assert(kept.contains(kept[i]));
        output.unreachable.lemma_filter_map_contains(f, kept[i]);
        let h = choose|h: Text| #[trigger] output.unreachable.contains(h) && f(h) == Some(kept[i]);
        assert(kept[i].hostname == h);
    }
    if output.unreachable.contains(host) && !output.dataset.hostvars.contains_key(host)
        && previous.dataset.hostvars.contains_key(host) {
        lemma_filter_map_holds(output.unreachable, f, host);
        let r = f(host)->0;
        let i = choose|i: int| 0 <= i < kept.len() && kept[i] == r;
        assert(kept[i].hostname == host);
    }
}

/// A replacing sync of the whole source keeps a host that did not answer, with its
/// variables, in its groups, and as old as it was; and drops a host that is no longer
/// listed. What came stands there as it came.
pub proof fn law_a_replacing_sync_keeps_only_who_did_not_answer(
    previous: EntryView,
    after: EntryView,
    ttl: int,
    output: OutputView,
    now: int,
    host: Text,
)
    requires
        applied_replace(Some(previous), after, ttl, output, now),
    ensures
        output.dataset.hostvars.contains_key(host) ==> after.dataset.hostvars.contains_key(host)
            && after.dataset.hostvars[host] == output.dataset.hostvars[host],
        !output.dataset.hostvars.contains_key(host) ==> (after.dataset.hostvars.contains_key(host)
            <==> output.unreachable.contains(host) && previous.dataset.hostvars.contains_key(host)),
        !output.dataset.hostvars.contains_key(host) && output.unreachable.contains(host)
            && previous.dataset.hostvars.contains_key(host) ==> {
            &&& after.dataset.hostvars[host] == previous.dataset.hostvars[host]
            &&& after.stamps.contains_key(host)
            &&& aged(now, previous.captured(host, now)->0.age, after.stamps[host])
            &&& forall|g: Text| #[trigger]
                groups_of(previous.dataset.groups, host).contains(g) ==> after.dataset.groups.contains_key(g)
                    && after.dataset.groups[g].hosts.contains(host)
        },
        after.complete,
{
    let base = choose|base: EntryView| replaced_keeping(base, previous, after, ttl, output, now);
    let kept = kept_hosts(previous, output, now);
    let at = choose|at: Seq<int>| as_old_as(kept, at, now) && after == #[trigger] with_kept(base, kept, at);
    lemma_kept_hosts(previous, output, now, host);
    lemma_with_kept(base, kept, at, previous, host, now);
    assert(base.dataset == output.dataset);
    if !output.dataset.hostvars.contains_key(host) && output.unreachable.contains(host)
        && previous.dataset.hostvars.contains_key(host) {
        let i = choose|i: int|
            0 <= i < kept.len() && (#[trigger] kept[i]).hostname == host && after.stamps[host] == at[i];
        assert(aged(now, kept[i].age, at[i]));
    }
}

/// A sync of the whole source leaves a complete entry with the source's time to live.
pub proof fn law_a_full_sync_completes_the_entry(
    before: Option<EntryView>,
    after: Option<EntryView>,
    source: SourceModel,
    output: OutputView,
    now: int,
)
    requires
        applied(before, after, source, ScopeModel::Full, output, now),
    ensures
        after is Some,
        after->0.complete,
        output.ages is None ==> {
            &&& after->0.ttl == source.ttl_seconds
            &&& after->0.fetched_at == now
            &&& after->0.fresh(now) <==> source.ttl_seconds > 0
        },
{
    if source.sync_mode == SyncMode::Replace {
        let entry = after->0;
        let ttl = source.ttl_seconds as int;
        if before is Some {
            let previous = before->0;
            law_a_replacing_sync_keeps_only_who_did_not_answer(previous, entry, ttl, output, now, Seq::empty());
            let base = choose|base: EntryView| replaced_keeping(base, previous, entry, ttl, output, now);
            let kept = kept_hosts(previous, output, now);
            let at = choose|at: Seq<int>| as_old_as(kept, at, now) && entry == #[trigger] with_kept(base, kept, at);
            lemma_kept_hosts(previous, output, now, Seq::empty());
            lemma_with_kept(base, kept, at, previous, Seq::empty(), now);
        }
    }
}

/// A sync of some hosts, or of a group, makes no entry complete: where nothing was
/// cached, what it leaves is partial and so never fresh; where something was, it stays
/// what it was.
pub proof fn law_a_scoped_sync_claims_no_full_gather(
    before: Option<EntryView>,
    after: Option<EntryView>,
    source: SourceModel,
    scope: ScopeModel,
    output: OutputView,
    now: int,
    later: int,
)
    requires
        applied(before, after, source, scope, output, now),
        !(scope is Full),
    ensures
        before is None && after is Some ==> !after->0.complete && !after->0.fresh(later),
        before is Some ==> after is Some && after->0.complete == before->0.complete && after->0.fetched_at
            == before->0.fetched_at,
{
}

/// A sync of some hosts changes nothing of any other host that is cached.
pub proof fn law_a_host_sync_touches_only_its_hosts(
    before: EntryView,
    after: Option<EntryView>,
    source: SourceModel,
    hosts: Seq<Text>,
    output: OutputView,
    now: int,
    other: Text,
)
    requires
        applied(Some(before), after, source, ScopeModel::Hosts(hosts), output, now),
        !hosts.contains(other),
    ensures
        after is Some,
        after->0.dataset.hostvars.contains_key(other) == before.dataset.hostvars.contains_key(other),
        before.dataset.hostvars.contains_key(other) ==> after->0.dataset.hostvars[other]
            == before.dataset.hostvars[other],
        after->0.stamps.contains_key(other) == before.stamps.contains_key(other),
        before.stamps.contains_key(other) ==> after->0.stamps[other] == before.stamps[other],
        after->0.dataset.groups == before.dataset.groups,
{
    assert(!answered(hosts, output, other));
}

/// A host that was asked for and did not answer keeps what is known of it, and does not
/// keep the others from being updated.
pub proof fn law_a_host_sync_updates_who_answers(
    before: Option<EntryView>,
    after: Option<EntryView>,
    source: SourceModel,
    hosts: Seq<Text>,
    output: OutputView,
    now: int,
    host: Text,
)
    requires
        applied(before, after, source, ScopeModel::Hosts(hosts), output, now),
        answered(hosts, output, host),
    ensures
        after is Some,
        after->0.dataset.hostvars.contains_key(host),
        after->0.dataset.hostvars[host] == output.dataset.hostvars[host],
        after->0.stamps.contains_key(host),
{
}

/// A merging sync of the whole source keeps the hosts that it does not list, as old as
/// they are, unless they are removed by name.
pub proof fn law_a_merging_sync_keeps_who_is_not_listed(
    before: EntryView,
    after: Option<EntryView>,
    source: SourceModel,
    output: OutputView,
    now: int,
    host: Text,
)
    requires
        applied(Some(before), after, source, ScopeModel::Full, output, now),
        source.sync_mode == SyncMode::Merge,
        before.dataset.hostvars.contains_key(host),
        !output.dataset.hostvars.contains_key(host),
        !output.dataset.remove_hosts.contains(host),
    ensures
        after is Some,
        after->0.dataset.hostvars.contains_key(host),
        after->0.dataset.hostvars[host] == before.dataset.hostvars[host],
        before.stamps.contains_key(host) ==> after->0.stamps.contains_key(host) && after->0.stamps[host]
            == before.stamps[host],
{
    assert(!output.dataset.remove_hosts.to_set().contains(host));
}

/// Only a plain sync of the whole source can be answered by another: not one of hosts
/// or of a group, and not one for which the origin gathers anew.
pub proof fn law_only_a_plain_full_sync_coalesces(request: RequestModel)
    ensures
        coalescable(request) <==> request.scope is Full && !request.refresh_origin,
{
}

/// A full sync for which no ages are reported is a gather that happened now: the source,
/// and every host that came, is as old as nothing, whatever was cached before. Each host
/// that came has what came of it. The source lives as long as it is configured to.
pub proof fn law_a_full_sync_happened_now(
    before: Option<EntryView>,
    after: Option<EntryView>,
    source: SourceModel,
    output: OutputView,
    now: int,
    host: Text,
)
    requires
        applied(before, after, source, ScopeModel::Full, output, now),
        output.ages is None,
    ensures
        after is Some,
        after->0.fetched_at == now,
        after->0.ttl == source.ttl_seconds,
        after->0.complete,
        seconds_since(now, after->0.fetched_at) == 0,
        output.dataset.hostvars.contains_key(host) && !(source.sync_mode == SyncMode::Merge && before is Some
            && output.dataset.remove_hosts.contains(host)) ==> {
            &&& after->0.dataset.hostvars.contains_key(host)
            &&& after->0.dataset.hostvars[host] == output.dataset.hostvars[host]
            &&& after->0.stamps.contains_key(host)
            &&& after->0.stamps[host] == now
            &&& after->0.host_age(host, now) == Some(0int)
        },
{
    if source.sync_mode == SyncMode::Replace {
        if before is Some {
            let previous = before->0;
            let entry = after->0;
            let ttl = source.ttl_seconds as int;
            let base = choose|base: EntryView| replaced_keeping(base, previous, entry, ttl, output, now);
            let kept = kept_hosts(previous, output, now);
            let at = choose|at: Seq<int>| as_old_as(kept, at, now) && entry == #[trigger] with_kept(base, kept, at);
            lemma_kept_hosts(previous, output, now, host);
            lemma_with_kept(base, kept, at, previous, host, now);
        }
    } else if before is Some {
        let gone = output.dataset.remove_hosts.to_set();
        assert(gone.contains(host) <==> output.dataset.remove_hosts.contains(host));
    }
}

/// A replacing sync drops whoever neither came nor was tried in vain: no variables of such
/// a host stay. Where no host was tried in vain, what is cached is exactly what came.
pub proof fn law_a_replacing_sync_replaces(
    before: Option<EntryView>,
    after: Option<EntryView>,
    source: SourceModel,
    output: OutputView,
    now: int,
    host: Text,
)
    requires
        applied(before, after, source, ScopeModel::Full, output, now),
        source.sync_mode == SyncMode::Replace,
    ensures
        after is Some,
        !output.dataset.hostvars.contains_key(host) && !output.unreachable.contains(host)
            ==> !after->0.dataset.hostvars.contains_key(host),
        output.unreachable.len() == 0 || before is None ==> after->0.dataset == output.dataset,
        output.unreachable.len() == 0 && output.ages is Some ==> {
            let ages = output.ages->0;
            let at = now - ages.dataset_age_seconds * 1_000_000_000;
            &&& representable(at) ==> after->0.fetched_at == at && after->0.ttl == source.ttl_seconds
            &&& !representable(at) ==> after->0.ttl == 0
            &&& ages.host_ages.contains_key(host) && representable(now - ages.host_ages[host] * 1_000_000_000)
                ==> after->0.stamps.contains_key(host) && after->0.stamps[host] == now - ages.host_ages[host]
                * 1_000_000_000
        },
{
    let entry = after->0;
    let ttl = source.ttl_seconds as int;
    if before is Some {
        let previous = before->0;
        law_a_replacing_sync_keeps_only_who_did_not_answer(previous, entry, ttl, output, now, host);
        let base = choose|base: EntryView| replaced_keeping(base, previous, entry, ttl, output, now);
        let kept = kept_hosts(previous, output, now);
        if output.unreachable.len() == 0 {
            assert(output.unreachable =~= Seq::empty());
            assert(kept =~= Seq::empty());
            assert(entry == base);
        }
    }
}

/// A sync of some hosts updates exactly those that came: each has what came of it, as old
/// as the connector says, or new where it does not say. Where none came, nothing changes.
/// Where nothing was cached, all that came is there.
pub proof fn law_a_host_sync_is_as_old_as_reported(
    before: Option<EntryView>,
    after: Option<EntryView>,
    source: SourceModel,
    hosts: Seq<Text>,
    output: OutputView,
    now: int,
    host: Text,
)
    requires
        applied(before, after, source, ScopeModel::Hosts(hosts), output, now),
    ensures
        (forall|h: Text| hosts.contains(h) ==> !#[trigger] output.dataset.hostvars.contains_key(h)) ==> after == before,
        hosts.contains(host) && output.dataset.hostvars.contains_key(host) ==> {
            &&& after is Some
            &&& after->0.ttl == source.ttl_seconds
            &&& after->0.dataset.hostvars.contains_key(host)
            &&& after->0.dataset.hostvars[host] == output.dataset.hostvars[host]
            &&& after->0.stamps.contains_key(host)
            &&& output.ages is None ==> after->0.stamps[host] == now
            &&& output.ages is Some && !output.ages->0.host_ages.contains_key(host) ==> after->0.stamps[host] == now
            &&& output.ages is Some && output.ages->0.host_ages.contains_key(host) && representable(
                now - output.ages->0.host_ages[host] * 1_000_000_000,
            ) ==> after->0.stamps[host] == now - output.ages->0.host_ages[host] * 1_000_000_000
            &&& before is None ==> after->0.dataset.groups == output.dataset.groups
                && after->0.dataset.hostvars.dom() == output.dataset.hostvars.dom()
            &&& before is Some ==> after->0.dataset.groups == before->0.dataset.groups
        },
{
    if hosts.contains(host) && output.dataset.hostvars.contains_key(host) {
        assert(answered(hosts, output, host));
        if before is None {
            assert(after->0.dataset.hostvars.dom() =~= output.dataset.hostvars.dom());
        }
    }
    if forall|h: Text| hosts.contains(h) ==> !#[trigger] output.dataset.hostvars.contains_key(h) {
        assert forall|h: Text| !answered(hosts, output, h) by {
            assert(hosts.contains(h) ==> !output.dataset.hostvars.contains_key(h));
        }
    }
}

/// A sync of a group takes what came of the hosts that the cache has in the group, as
/// gathered now, and leaves every other host; the source takes the configured time to
/// live. Where nothing was cached, all that came is there, as gathered now.
pub proof fn law_a_group_sync_takes_what_came_of_the_group(
    before: Option<EntryView>,
    after: Option<EntryView>,
    source: SourceModel,
    group: Text,
    output: OutputView,
    now: int,
    host: Text,
)
    requires
        applied(before, after, source, ScopeModel::Group(group), output, now),
    ensures
        after is Some,
        after->0.ttl == source.ttl_seconds,
        before is None ==> after->0.dataset == output.dataset && after->0.fetched_at == now && (
        output.dataset.hostvars.contains_key(host) ==> after->0.stamps.contains_key(host) && after->0.stamps[host]
            == now),
        before is Some ==> {
            let known = before->0;
            let hit = known.dataset.groups.contains_key(group) && known.dataset.groups[group].hosts.contains(host)
                && output.dataset.hostvars.contains_key(host);
            &&& hit ==> after->0.dataset.hostvars.contains_key(host) && after->0.dataset.hostvars[host]
                == output.dataset.hostvars[host] && after->0.stamps.contains_key(host) && after->0.stamps[host] == now
            &&& !hit ==> after->0.dataset.hostvars.contains_key(host) == known.dataset.hostvars.contains_key(host)
                && after->0.stamps.contains_key(host) == known.stamps.contains_key(host)
            &&& !hit && known.dataset.hostvars.contains_key(host) ==> after->0.dataset.hostvars[host]
                == known.dataset.hostvars[host]
            &&& !hit && known.stamps.contains_key(host) ==> after->0.stamps[host] == known.stamps[host]
        },
{
    if before is Some {
        assert(refreshed(before->0.dataset, group, output.dataset, host) <==> (
        before->0.dataset.groups.contains_key(group) && before->0.dataset.groups[group].hosts.contains(host)
            && output.dataset.hostvars.contains_key(host)));
    }
}

/// A merging sync adds: of each host that came, what came; of each group that came, what
/// came of it, but for the hosts that are removed by name. Where nothing was cached, all
/// that came is there.
pub proof fn law_a_merging_sync_adds_what_came(
    before: Option<EntryView>,
    after: Option<EntryView>,
    source: SourceModel,
    output: OutputView,
    now: int,
    group: Text,
    host: Text,
)
    requires
        applied(before, after, source, ScopeModel::Full, output, now),
        source.sync_mode == SyncMode::Merge,
    ensures
        after is Some,
        before is None ==> after->0.dataset == output.dataset,
        before is Some && output.dataset.remove_hosts.contains(host) ==> !after->0.dataset.hostvars.contains_key(host)
            && !after->0.stamps.contains_key(host),
        before is Some ==> (after->0.dataset.groups.contains_key(group) <==> before->0.dataset.groups.contains_key(
            group,
        ) || output.dataset.groups.contains_key(group)),
        before is Some && output.dataset.groups.contains_key(group) ==> (
        after->0.dataset.groups[group].hosts.contains(host) <==> output.dataset.groups[group].hosts.contains(host)
            && !output.dataset.remove_hosts.contains(host)) && after->0.dataset.groups[group].vars
            == output.dataset.groups[group].vars && after->0.dataset.groups[group].children
            == output.dataset.groups[group].children,
        before is Some && !output.dataset.groups.contains_key(group) && before->0.dataset.groups.contains_key(group)
            ==> (after->0.dataset.groups[group].hosts.contains(host) <==> before->0.dataset.groups[group].hosts.contains(
            host,
        ) && !output.dataset.remove_hosts.contains(host)) && after->0.dataset.groups[group].vars
            == before->0.dataset.groups[group].vars,
{
    if before is Some {
        let base = EntryView { ttl: source.ttl_seconds as int, ..before->0 };
        law_a_merge_replaces_what_comes(base, output.dataset, true, now, host, group);
    }
}

/// A connector is told what is asked of it beside its own configuration, and nothing else:
/// the scope and its target, who asked, and, only where the origin is to gather anew, that
/// and how many hops the wish may travel. Every other setting is as it was configured.
pub proof fn law_a_connector_is_told_what_is_asked(config: Map<Text, Text>, request: RequestModel, key: Text)
    ensures
        ({
            let told = asking(config, request);
            &&& request.scope matches ScopeModel::Hosts(hosts) ==> told.contains_key("scope"@) && told["scope"@]
                == "host"@ && told.contains_key("target"@) && told["target"@] == join_text(hosts, ","@)
            &&& request.scope matches ScopeModel::Group(group) ==> told.contains_key("scope"@) && told["scope"@]
                == "group"@ && told.contains_key("target"@) && told["target"@] == group
            &&& request.scope is Full && (key == "scope"@ || key == "target"@) ==> told.contains_key(key)
                == config.contains_key(key) && (config.contains_key(key) ==> told[key] == config[key])
            &&& request.trigger matches Some(who) ==> told.contains_key("trigger"@) && told["trigger"@] == who
            &&& request.trigger is None && key == "trigger"@ ==> told.contains_key(key) == config.contains_key(key) && (
            config.contains_key(key) ==> told[key] == config[key])
            &&& request.refresh_origin ==> told.contains_key("refresh_origin"@) && told["refresh_origin"@]
                == "true"@ && told.contains_key("refresh_depth"@) && told["refresh_depth"@] == decimal_text(
                request.refresh_depth as nat,
            )
            &&& !request.refresh_origin && (key == "refresh_origin"@ || key == "refresh_depth"@)
                ==> told.contains_key(key) == config.contains_key(key) && (config.contains_key(key) ==> told[key]
                == config[key])
            &&& key != "scope"@ && key != "target"@ && key != "trigger"@ && key != "refresh_origin"@ && key
                != "refresh_depth"@ ==> told.contains_key(key) == config.contains_key(key) && (config.contains_key(key)
                ==> told[key] == config[key])
        }),
{
    reveal_strlit("scope");
    reveal_strlit("target");
    reveal_strlit("trigger");
    reveal_strlit("refresh_origin");
    reveal_strlit("refresh_depth");
    assert("scope"@.len() == 5 && "target"@.len() == 6 && "trigger"@.len() == 7);
    assert("refresh_origin"@.len() == 14 && "refresh_depth"@.len() == 13);
}

/// A source that takes its hosts from another cannot be synced before that one is cached,
/// nor where it gives no host; else its connector is handed the hosts that it gives, and
/// the rest of the configuration as it is. A source that takes none keeps its own.
pub proof fn law_hosts_come_from_the_other_source(
    entries: Map<Text, EntryView>,
    source: SourceModel,
    key: Text,
)
    ensures
        source.hosts_from_source is None ==> hosts_config(entries, source) == Ok::<Map<Text, Text>, Text>(
            source.config,
        ) && hosts_warnings(entries, source).len() == 0,
        source.hosts_from_source matches Some(from) ==> {
            let cached = entries.contains_key(from.source);
            let hosts = resolved(from, entries[from.source].dataset).0;
            &&& hosts_config(entries, source) is Ok <==> cached && hosts.len() > 0
            &&& hosts_config(entries, source) matches Ok(config) ==> config.contains_key("hosts_spec"@)
                && config["hosts_spec"@] == hosts_spec_text(hosts) && (key != "hosts_spec"@ ==> config.contains_key(key)
                == source.config.contains_key(key) && (source.config.contains_key(key) ==> config[key]
                == source.config[key]))
            &&& hosts_warnings(entries, source) == resolved(from, entries[from.source].dataset).1
        },
{
}

/// The hosts to connect to are handed over as a JSON list, each with its name and its
/// addresses, in the order in which they are given.
pub proof fn law_the_hosts_are_handed_over_in_order(specs: Seq<HostSpecModel>, next: HostSpecModel)
    ensures
        ({
            let one = "{\"name\":"@ + compact_text(JsonTree::Str(next.name)) + ",\"addresses\":"@ + compact_text(
                JsonTree::Array(next.addresses.map_values(|a: Text| JsonTree::Str(a))),
            ) + "}"@;
            &&& hosts_spec_text(Seq::empty()) == "["@ + "]"@
            &&& hosts_spec_text(seq![next]) == "["@ + one + "]"@
            &&& specs.len() > 0 ==> hosts_spec_text(specs.push(next)).len() > 0 && hosts_spec_text(
                specs.push(next),
            ).drop_last() == hosts_spec_text(specs).drop_last() + ","@ + one
        }),
{
    let f = |s: HostSpecModel| host_spec_text(s);
    reveal_strlit("]");
    assert(Seq::<HostSpecModel>::empty().map_values(f) =~= Seq::empty());
    assert("["@ + Seq::<char>::empty() + "]"@ =~= "["@ + "]"@);
    assert(seq![next].map_values(f) =~= seq![f(next)]);
    assert(next.addresses.map_values(|a: Text| JsonTree::Str(a)) =~= next.addresses.map_values(
        |t: Text| JsonTree::Str(t),
    ));
    if specs.len() > 0 {
        let before = specs.map_values(f);
        assert(specs.push(next).map_values(f) =~= before.push(f(next)));
        assert(before.push(f(next)).drop_last() =~= before);
        let parts = join_text(before, ","@);
        assert(hosts_spec_text(specs) == "["@ + parts + "]"@);
        assert(hosts_spec_text(specs).drop_last() =~= "["@ + parts);
        assert(hosts_spec_text(specs.push(next)).drop_last() =~= "["@ + parts + ","@ + f(next));
    }
}

/// A scope is called by what it takes in.
pub proof fn law_a_scope_is_called_by_what_it_takes(hosts: Seq<Text>, group: Text, host: Text)
    ensures
        scope_label(ScopeModel::Full) == "full"@,
        scope_label(ScopeModel::Hosts(hosts)) == "host:"@ + join_text(hosts, ","@),
        scope_label(ScopeModel::Hosts(seq![host])) == "host:"@ + host,
        scope_label(ScopeModel::Group(group)) == "group:"@ + group,
{
}

/// What is counted of a source is what is cached of it.
pub proof fn law_totals_count_what_is_cached(entries: Map<Text, EntryView>, id: Text)
    ensures
        entries.contains_key(id) ==> totals(entries, id).0 == entries[id].dataset.hostvars.dom().len() && totals(
            entries,
            id,
        ).1 == entries[id].dataset.groups.dom().len(),
        !entries.contains_key(id) ==> totals(entries, id) == (0int, 0int),
{
}

/// A sync that brought nothing says why: that there were no credentials, that it took
/// longer than the source allows, or what the connector says.
pub proof fn law_a_sync_that_failed_says_why(gathered: Gathered, source: SourceModel)
    ensures
        gather_error(gathered, source) is None <==> gathered is Output,
        gathered matches Gathered::NoCredentials(message) ==> gather_error(gathered, source) == Some(message@),
        gathered matches Gathered::Failed(error) ==> gather_error(gathered, source) == Some(error.message@),
        gathered is TimedOut ==> gather_error(gathered, source) == Some(
            "sync timed out after "@ + decimal_text(source.timeout_seconds as nat) + "s"@,
        ),
{
}

/// What is said of a sync that failed: nothing was counted, and it did not coalesce.
pub proof fn law_a_failed_outcome_counts_nothing(scope: ScopeModel, duration_ms: int, error: Text)
    ensures
        failed_outcome(scope, duration_ms, error).error == Some(error),
        failed_outcome(scope, duration_ms, error).total_hosts == 0,
        failed_outcome(scope, duration_ms, error).total_groups == 0,
        failed_outcome(scope, duration_ms, error).duration_ms == duration_ms,
        failed_outcome(scope, duration_ms, error).scope == scope_label(scope),
        !failed_outcome(scope, duration_ms, error).coalesced,
{
}

proof fn lemma_kept_groups(base: EntryView, kept: Seq<RetainedView>, at: Seq<int>, group: Text, host: Text)
    requires
        at.len() == kept.len(),
    ensures
        ({
            let groups = with_kept(base, kept, at).dataset.groups;
            let own = base.dataset.groups;
            &&& groups.contains_key(group) <==> own.contains_key(group) || exists|i: int|
                0 <= i < kept.len() && (#[trigger] kept[i]).groups.contains(group)
            &&& own.contains_key(group) ==> groups[group].children == own[group].children && groups[group].vars
                == own[group].vars
            &&& !own.contains_key(group) && groups.contains_key(group) ==> groups[group].children.len() == 0
                && groups[group].vars is None
            &&& groups.contains_key(group) ==> (groups[group].hosts.contains(host) <==> (own.contains_key(group)
                && own[group].hosts.contains(host)) || exists|i: int|
                0 <= i < kept.len() && (#[trigger] kept[i]).hostname == host && kept[i].groups.contains(group))
        }),
    decreases kept.len(),
{
    if kept.len() > 0 {
        let n = kept.len() - 1;
        let last = kept.last();
        let fewer = kept.drop_last();
        lemma_kept_groups(base, fewer, at.drop_last(), group, host);
        let inner = with_kept(base, fewer, at.drop_last());
        assert(with_kept(base, kept, at) == inner.with_retained(last, at.last()));
        assert(kept[n] == last);
        assert forall|i: int| 0 <= i < n implies #[trigger] kept[i] == fewer[i] by {}
        if exists|i: int| 0 <= i < fewer.len() && (#[trigger] fewer[i]).groups.contains(group) {
            let i = choose|i: int| 0 <= i < fewer.len() && (#[trigger] fewer[i]).groups.contains(group);
            assert(kept[i].groups.contains(group));
        }
        if exists|i: int|
            0 <= i < fewer.len() && (#[trigger] fewer[i]).hostname == host && fewer[i].groups.contains(group) {
            let i = choose|i: int|
                0 <= i < fewer.len() && (#[trigger] fewer[i]).hostname == host && fewer[i].groups.contains(group);
            assert(kept[i].hostname == host && kept[i].groups.contains(group));
        }
        if exists|i: int| 0 <= i < kept.len() && (#[trigger] kept[i]).groups.contains(group) {
            let i = choose|i: int| 0 <= i < kept.len() && (#[trigger] kept[i]).groups.contains(group);
            if i < n {
                assert(fewer[i].groups.contains(group));
            }
        }
        if exists|i: int|
            0 <= i < kept.len() && (#[trigger] kept[i]).hostname == host && kept[i].groups.contains(group) {
            let i = choose|i: int|
                0 <= i < kept.len() && (#[trigger] kept[i]).hostname == host && kept[i].groups.contains(group);
            if i < n {
                assert(fewer[i].hostname == host && fewer[i].groups.contains(group));
            }
        }
        let own = if inner.dataset.groups.contains_key(group) {
            inner.dataset.groups[group].hosts
        } else {
            Seq::empty()
        };
        if own.contains(host) {
            let i = choose|i: int| 0 <= i < own.len() && own[i] == host;
            assert(own.push(last.hostname)[i] == host);
        }
        assert(own.push(last.hostname)[own.len() as int] == last.hostname);
        if own.push(last.hostname).contains(host) {
            let i = choose|i: int| 0 <= i < own.len() + 1 && own.push(last.hostname)[i] == host;
            if i < own.len() {
                assert(own[i] == host);
            }
        }
    }
}

/// After a replacing sync the groups are those that came, with the children and the
/// variables that came. A host that did not answer is in the groups that it was in before,
/// which are created again where they did not come; nobody else joins any group.
pub proof fn law_a_replacing_sync_takes_the_groups_that_came(
    previous: EntryView,
    after: EntryView,
    ttl: int,
    output: OutputView,
    now: int,
    group: Text,
    host: Text,
)
    requires
        applied_replace(Some(previous), after, ttl, output, now),
        previous.dataset.groups.dom().finite(),
    ensures
        ({
            let groups = after.dataset.groups;
            let came = output.dataset.groups;
            let kept = output.unreachable.contains(host) && !output.dataset.hostvars.contains_key(host)
                && previous.dataset.hostvars.contains_key(host) && previous.dataset.groups.contains_key(group)
                && previous.dataset.groups[group].hosts.contains(host);
            &&& came.contains_key(group) ==> groups.contains_key(group) && groups[group].children
                == came[group].children && groups[group].vars == came[group].vars
            &&& groups.contains_key(group) ==> (groups[group].hosts.contains(host) <==> kept || (came.contains_key(group)
                && came[group].hosts.contains(host)))
            &&& kept ==> groups.contains_key(group)
            &&& groups.contains_key(group) && !came.contains_key(group) ==> previous.dataset.groups.contains_key(group)
                && groups[group].children.len() == 0 && groups[group].vars is None
            &&& after.dataset.remove_hosts == output.dataset.remove_hosts
        }),
{
    let base = choose|base: EntryView| replaced_keeping(base, previous, after, ttl, output, now);
    let kept = kept_hosts(previous, output, now);
    let at = choose|at: Seq<int>| as_old_as(kept, at, now) && after == #[trigger] with_kept(base, kept, at);
    lemma_kept_hosts(previous, output, now, host);
    lemma_kept_groups(base, kept, at, group, host);
    lemma_kept_removals(base, kept, at);
    lemma_groups_of(previous.dataset.groups, host);
    assert(base.dataset == output.dataset);
    if exists|i: int| 0 <= i < kept.len() && (#[trigger] kept[i]).groups.contains(group) {
        let i = choose|i: int| 0 <= i < kept.len() && (#[trigger] kept[i]).groups.contains(group);
        lemma_groups_of(previous.dataset.groups, kept[i].hostname);
        assert(previous.captured(kept[i].hostname, now) == Some(kept[i]));
        assert(previous.dataset.groups.contains_key(group));
    }
    if exists|i: int|
        0 <= i < kept.len() && (#[trigger] kept[i]).hostname == host && kept[i].groups.contains(group) {
        let i = choose|i: int|
            0 <= i < kept.len() && (#[trigger] kept[i]).hostname == host && kept[i].groups.contains(group);
        assert(previous.captured(kept[i].hostname, now) == Some(kept[i]));
    }
    if exists|i: int| 0 <= i < kept.len() && (#[trigger] kept[i]).hostname == host {
        let i = choose|i: int| 0 <= i < kept.len() && (#[trigger] kept[i]).hostname == host;
        assert(previous.captured(kept[i].hostname, now) == Some(kept[i]));
        assert(kept[i].groups == groups_of(previous.dataset.groups, host));
    }
}

proof fn lemma_kept_removals(base: EntryView, kept: Seq<RetainedView>, at: Seq<int>)
    requires
        at.len() == kept.len(),
    ensures
        with_kept(base, kept, at).dataset.remove_hosts == base.dataset.remove_hosts,
    decreases kept.len(),
{
    if kept.len() > 0 {
        lemma_kept_removals(base, kept.drop_last(), at.drop_last());
    }
}

/// A replacing sync is as old as the connector says: the whole inventory, and each host that
/// came, where the clock reaches that far back. Hosts that the connector gives no age for
/// have no moment. Where nothing was cached and some hosts did not answer, what came is of
/// now.
pub proof fn law_a_replacing_sync_is_as_old_as_reported(
    before: Option<EntryView>,
    after: Option<EntryView>,
    source: SourceModel,
    output: OutputView,
    now: int,
    host: Text,
)
    requires
        applied(before, after, source, ScopeModel::Full, output, now),
        source.sync_mode == SyncMode::Replace,
        output.ages is Some,
    ensures
        after is Some,
        ({
            let ages = output.ages->0;
            let at = now - ages.dataset_age_seconds * 1_000_000_000;
            let told = ages.host_ages.contains_key(host);
            let then = now - ages.host_ages[host] * 1_000_000_000;
            let as_told = before is Some || output.unreachable.len() == 0;
            &&& as_told && representable(at) ==> after->0.fetched_at == at && after->0.ttl == source.ttl_seconds
            &&& as_told && !representable(at) ==> after->0.fetched_at == now && after->0.ttl == 0
            &&& as_told && output.dataset.hostvars.contains_key(host) && told && representable(then)
                ==> after->0.stamps.contains_key(host) && after->0.stamps[host] == then
            &&& as_told && output.dataset.hostvars.contains_key(host) && !(told && representable(then))
                ==> !after->0.stamps.contains_key(host)
            &&& !as_told ==> after->0.fetched_at == now && after->0.ttl == source.ttl_seconds
            &&& !as_told && output.dataset.hostvars.contains_key(host) ==> after->0.stamps.contains_key(host)
                && after->0.stamps[host] == now
        }),
{
    if before is Some {
        let previous = before->0;
        let entry = after->0;
        let base = choose|base: EntryView|
            replaced_keeping(base, previous, entry, source.ttl_seconds as int, output, now);
        let kept = kept_hosts(previous, output, now);
        let at = choose|at: Seq<int>| as_old_as(kept, at, now) && entry == #[trigger] with_kept(base, kept, at);
        lemma_kept_hosts(previous, output, now, host);
        lemma_with_kept(base, kept, at, previous, host, now);
    }
}

/// A merging sync is of now, whatever ages the connector gives: the whole inventory, and
/// each host that came.
pub proof fn law_a_merging_sync_is_of_now(
    before: Option<EntryView>,
    after: Option<EntryView>,
    source: SourceModel,
    output: OutputView,
    now: int,
    host: Text,
    group: Text,
)
    requires
        applied(before, after, source, ScopeModel::Full, output, now),
        source.sync_mode == SyncMode::Merge,
    ensures
        after is Some,
        after->0.fetched_at == now,
        after->0.ttl == source.ttl_seconds,
        after->0.complete,
        output.dataset.hostvars.contains_key(host) && !(before is Some && output.dataset.remove_hosts.contains(host))
            ==> after->0.dataset.hostvars.contains_key(host) && after->0.dataset.hostvars[host]
            == output.dataset.hostvars[host] && after->0.stamps.contains_key(host) && after->0.stamps[host] == now,
        before is Some ==> (after->0.dataset.hostvars.contains_key(host) <==> (
        before->0.dataset.hostvars.contains_key(host) || output.dataset.hostvars.contains_key(host))
            && !output.dataset.remove_hosts.contains(host)),
        before is Some && !output.dataset.groups.contains_key(group) && before->0.dataset.groups.contains_key(group)
            ==> after->0.dataset.groups[group].children == before->0.dataset.groups[group].children,
        before is Some ==> after->0.dataset.remove_hosts == before->0.dataset.remove_hosts,
{
    assert(output.dataset.remove_hosts.to_set().contains(host) <==> output.dataset.remove_hosts.contains(host));
}

/// A sync of hosts where nothing was cached begins an entry with what came: as of now, but
/// for the hosts that were asked for and that the connector gives an age.
pub proof fn law_a_host_sync_may_begin_an_entry(
    after: Option<EntryView>,
    source: SourceModel,
    hosts: Seq<Text>,
    output: OutputView,
    now: int,
    host: Text,
)
    requires
        applied(None, after, source, ScopeModel::Hosts(hosts), output, now),
        after is Some,
    ensures
        after->0.fetched_at == now,
        after->0.ttl == source.ttl_seconds,
        !after->0.complete,
        after->0.dataset.remove_hosts == output.dataset.remove_hosts,
        after->0.dataset.hostvars.contains_key(host) <==> output.dataset.hostvars.contains_key(host),
        output.dataset.hostvars.contains_key(host) ==> after->0.dataset.hostvars[host] == output.dataset.hostvars[host],
        output.dataset.hostvars.contains_key(host) ==> after->0.stamps.contains_key(host),
        output.dataset.hostvars.contains_key(host) && !hosts.contains(host) ==> after->0.stamps[host] == now,
{
    if output.dataset.hostvars.contains_key(host) {
        assert(after->0.stamps.contains_key(host));
    }
}

/// What a host is stamped with by a sync of hosts is the present moment where the clock does
/// not reach as far back as the age that the connector gives.
pub proof fn law_a_host_that_is_too_old_is_of_now(
    before: Option<EntryView>,
    after: Option<EntryView>,
    source: SourceModel,
    hosts: Seq<Text>,
    output: OutputView,
    now: int,
    host: Text,
)
    requires
        applied(before, after, source, ScopeModel::Hosts(hosts), output, now),
        hosts.contains(host),
        output.dataset.hostvars.contains_key(host),
        output.ages is Some,
        output.ages->0.host_ages.contains_key(host),
        !representable(now - output.ages->0.host_ages[host] * 1_000_000_000),
    ensures
        after is Some,
        after->0.stamps.contains_key(host),
        after->0.stamps[host] == now,
{
    assert(answered(hosts, output, host));
    assert(after->0.stamps.contains_key(host));
    law_an_aged_moment_lies_back(now, output.ages->0.host_ages[host] as int, after->0.stamps[host]);
}

/// A sync of a group takes the variables that came of it, and leaves its hosts and children
/// and every other group.
pub proof fn law_a_group_sync_leaves_the_other_groups(
    before: EntryView,
    after: Option<EntryView>,
    source: SourceModel,
    group: Text,
    output: OutputView,
    now: int,
    other: Text,
)
    requires
        applied(Some(before), after, source, ScopeModel::Group(group), output, now),
    ensures
        after is Some,
        after->0.dataset.groups.contains_key(other) <==> before.dataset.groups.contains_key(other),
        before.dataset.groups.contains_key(other) ==> after->0.dataset.groups[other].hosts
            == before.dataset.groups[other].hosts && after->0.dataset.groups[other].children
            == before.dataset.groups[other].children,
        before.dataset.groups.contains_key(other) && (other != group || !output.dataset.groups.contains_key(group))
            ==> after->0.dataset.groups[other].vars == before.dataset.groups[other].vars,
        before.dataset.groups.contains_key(group) && output.dataset.groups.contains_key(group)
            ==> after->0.dataset.groups[group].vars == output.dataset.groups[group].vars,
        after->0.dataset.remove_hosts == before.dataset.remove_hosts,
{
}

/// Hosts that cannot be had from the other source stop a sync: because that is not cached,
/// or because none of its hosts is taken. Else the connector is told of them beside what is
/// asked.
pub proof fn law_a_sync_without_hosts_is_refused(
    entries: Map<Text, EntryView>,
    source: SourceModel,
    request: RequestModel,
)
    ensures
        hosts_config(entries, source) is Ok ==> sync_config(entries, source, request) == Ok::<Map<Text, Text>, Text>(
            asking(hosts_config(entries, source)->Ok_0, request),
        ),
        hosts_config(entries, source) is Err ==> sync_config(entries, source, request) == hosts_config(entries, source),
        source.hosts_from_source matches Some(from) ==> {
            &&& !entries.contains_key(from.source) ==> hosts_config(entries, source) == Err::<Map<Text, Text>, Text>(
                "hosts_from_source '"@ + from.source + "' is not in the cache yet \u{2014} sync it first"@,
            )
            &&& entries.contains_key(from.source) && resolved(from, entries[from.source].dataset).0.len() == 0
                ==> hosts_config(entries, source) == Err::<Map<Text, Text>, Text>(
                "hosts_from_source '"@ + from.source
                    + "' resolved to zero hosts (pattern too narrow, or empty source?)"@,
            )
        },
{
}

/// What is known of a source is what the cache has under its name.
pub proof fn law_an_entry_is_found_by_its_name(entries: Map<Text, EntryView>, id: Text)
    ensures
        entry_of(entries, id) is Some <==> entries.contains_key(id),
        entries.contains_key(id) ==> entry_of(entries, id) == Some(entries[id]),
{
}

/// A request, a scope, an outcome and what a connector brings show each of their parts.
pub proof fn law_a_sync_shows_every_part(
    request: SyncRequest,
    outcome: SyncOutcome,
    output: ConnectorOutput,
    ages: DatasetAges,
)
    ensures
        request.deep_view().scope == request.scope.deep_view(),
        request.scope is Full <==> request.scope.deep_view() is Full,
        request.scope matches SyncScope::Hosts(hosts) ==> request.scope.deep_view() == ScopeModel::Hosts(
            hosts.deep_view(),
        ),
        request.scope matches SyncScope::Group(group) ==> request.scope.deep_view() == ScopeModel::Group(group@),
        request.deep_view().refresh_origin == request.refresh_origin,
        request.deep_view().refresh_depth == request.refresh_depth,
        request.deep_view().trigger == request.trigger.deep_view(),
        outcome.deep_view().scope == outcome.scope@,
        outcome.deep_view().total_hosts == outcome.total_hosts,
        outcome.deep_view().total_groups == outcome.total_groups,
        outcome.deep_view().duration_ms == outcome.duration_ms,
        outcome.deep_view().error == outcome.error.deep_view(),
        outcome.deep_view().coalesced == outcome.coalesced,
        output@.dataset == output.dataset@,
        output@.ages == output.ages.deep_view(),
        output@.unreachable == output.unreachable.deep_view(),
        ages.deep_view().dataset_age_seconds == ages.dataset_age_seconds,
        ages.deep_view().host_ages == ages.host_ages@,
{
}

/// How far a refresh goes back through the sources that are themselves read from another.
pub proof fn law_a_refresh_goes_three_sources_back()
    ensures
        DEFAULT_REFRESH_DEPTH == 3,
{
}

} // verus!
