//! What holds of every entry of the cache, whatever is done to it.

#[allow(unused_imports)]
use crate::clock::{earlier, representable, seconds_since};
#[allow(unused_imports)]
use crate::domain::cache_entry::{
    aged, backdated, buffer, content_hash, etag_text, groups_of, hosts_patched, rebuilt, refreshed, EntryView,
    RetainedView, SerializedJson,
};
#[allow(unused_imports)]
use crate::domain::dataset::{DatasetView, GroupView, VarsView};
#[allow(unused_imports)]
use crate::strmap::{ascending, lemma_prefix_whole, lemma_sorted};
#[allow(unused_imports)]
use crate::text::Text;
use vstd::prelude::*;

verus! {

/// What is picked from a list is what was in it and is wanted.
pub proof fn lemma_filter_holds<A>(s: Seq<A>, wanted: spec_fn(A) -> bool, x: A)
    ensures
        s.filter(wanted).contains(x) <==> s.contains(x) && wanted(x),
    decreases s.len(),
{
    reveal(Seq::filter);
    if s.len() > 0 {
        let rest = s.drop_last();
        lemma_filter_holds(rest, wanted, x);
        assert(s.contains(x) <==> rest.contains(x) || x == s.last()) by {
            if rest.contains(x) {
                let i = choose|i: int| 0 <= i < rest.len() && rest[i] == x;
                assert(s[i] == x);
            }
            if s.contains(x) && x != s.last() {
                let i = choose|i: int| 0 <= i < s.len() && s[i] == x;
                assert(rest[i] == x);
            }
            assert(s[s.len() - 1] == s.last());
        }
        let kept = rest.filter(wanted);
        if wanted(s.last()) {
            let all = kept.push(s.last());
            assert(all.contains(x) <==> kept.contains(x) || x == s.last()) by {
                if kept.contains(x) {
                    let i = choose|i: int| 0 <= i < kept.len() && kept[i] == x;
                    assert(all[i] == x);
                }
                assert(all[kept.len() as int] == s.last());
            }
        }
    }
}

/// An entry that no gather of the whole source is behind is never fresh, however new
/// it is.
pub proof fn law_a_partial_entry_is_never_fresh(entry: EntryView, now: int)
    requires
        !entry.complete,
    ensures
        !entry.fresh(now),
{
}

/// What was just gathered is complete, of age zero, fresh unless its time to live is
/// zero, and every host has the moment of the gather.
pub proof fn law_a_gather_is_new(dataset: DatasetView, ttl: int, now: int)
    requires
        ttl >= 0,
    ensures
        ({
            let entry = EntryView::gathered(dataset, ttl, now);
            &&& entry.complete
            &&& seconds_since(now, entry.fetched_at) == 0
            &&& entry.fresh(now) <==> ttl > 0
            &&& entry.stamped()
            &&& forall|h: Text| #[trigger]
                dataset.hostvars.contains_key(h) ==> entry.host_age(h, now) == Some(0int)
        }),
{
}

/// Every host of an entry has a moment at which it was gathered: no operation takes
/// that away.
pub proof fn law_every_host_stays_stamped(
    entry: EntryView,
    host: Text,
    vars: VarsView,
    gone: Set<Text>,
    partial: DatasetView,
    restamp: bool,
    group: Text,
    retained: RetainedView,
    at: int,
)
    requires
        entry.stamped(),
    ensures
        entry.with_host(host, vars, at).stamped(),
        entry.dropping(gone).stamped(),
        entry.merged(partial, restamp, at).stamped(),
        entry.with_fields(partial).stamped(),
        entry.with_group_vars(partial).stamped(),
        entry.with_group(group, partial, at).stamped(),
        entry.with_retained(retained, at).stamped(),
{
}

/// A host that is taken out leaves nothing behind: no variables, no moment, and no
/// place in any group. Everything else stays.
pub proof fn law_a_removed_host_leaves_nothing(entry: EntryView, gone: Set<Text>, host: Text)
    ensures
        gone.contains(host) ==> {
            let after = entry.dropping(gone);
            &&& !after.dataset.hostvars.contains_key(host)
            &&& !after.stamps.contains_key(host)
            &&& forall|g: Text| #[trigger]
                after.dataset.groups.contains_key(g) ==> !after.dataset.groups[g].hosts.contains(host)
        },
        !gone.contains(host) ==> {
            let after = entry.dropping(gone);
            &&& after.dataset.hostvars.contains_key(host) == entry.dataset.hostvars.contains_key(host)
            &&& after.dataset.hostvars.contains_key(host) ==> after.dataset.hostvars[host]
                == entry.dataset.hostvars[host]
            &&& after.stamps.contains_key(host) == entry.stamps.contains_key(host)
            &&& after.stamps.contains_key(host) ==> after.stamps[host] == entry.stamps[host]
            &&& forall|g: Text| #[trigger]
                after.dataset.groups.contains_key(g) ==> after.dataset.groups[g].hosts.contains(host)
                    == entry.dataset.groups[g].hosts.contains(host)
        },
{
    let after = entry.dropping(gone);
    assert forall|g: Text| #[trigger] after.dataset.groups.contains_key(g) implies after.dataset.groups[g].hosts.contains(
        host,
    ) == (entry.dataset.groups[g].hosts.contains(host) && !gone.contains(host)) by {
        lemma_filter_holds(entry.dataset.groups[g].hosts, |h: Text| !gone.contains(h), host);
    }
}

/// What a connector gathers is stamped; what an enricher derives is not. A host that
/// an enricher brings and that had no moment gets one, and one that had keeps it.
pub proof fn law_enrichment_does_not_renew_a_host(entry: EntryView, partial: DatasetView, host: Text, now: int)
    requires
        !partial.remove_hosts.contains(host),
        entry.stamps.contains_key(host),
    ensures
        entry.merged(partial, false, now).stamps.contains_key(host),
        entry.merged(partial, false, now).stamps[host] == entry.stamps[host],
        partial.hostvars.contains_key(host) ==> entry.merged(partial, true, now).stamps[host] == now,
        !partial.hostvars.contains_key(host) ==> entry.merged(partial, true, now).stamps[host]
            == entry.stamps[host],
{
    let gone = partial.remove_hosts.to_set();
    assert(!gone.contains(host));
}

/// Putting variables over those of the hosts introduces no host and renews none, and
/// leaves every variable that it does not name as it was.
pub proof fn law_fields_only_add_to_known_hosts(entry: EntryView, partial: DatasetView, host: Text, key: Text)
    ensures
        ({
            let after = entry.with_fields(partial);
            &&& after.stamps == entry.stamps
            &&& after.fetched_at == entry.fetched_at
            &&& after.complete == entry.complete
            &&& after.dataset.groups == entry.dataset.groups
            &&& after.dataset.hostvars.dom() == entry.dataset.hostvars.dom()
            &&& entry.dataset.hostvars.contains_key(host) && !(partial.hostvars.contains_key(host)
                && partial.hostvars[host].contains_key(key)) ==> {
                &&& after.dataset.hostvars[host].contains_key(key) == entry.dataset.hostvars[host].contains_key(key)
                &&& after.dataset.hostvars[host].contains_key(key) ==> after.dataset.hostvars[host][key]
                    == entry.dataset.hostvars[host][key]
            }
        }),
{
    assert(entry.with_fields(partial).dataset.hostvars.dom() =~= entry.dataset.hostvars.dom());
}

/// No host gets a variable from both.
pub open spec fn different_keys(a: Map<Text, VarsView>, b: Map<Text, VarsView>) -> bool {
    forall|h: Text, k: Text|
        !(a.contains_key(h) && b.contains_key(h) && #[trigger] a[h].contains_key(k) && #[trigger] b[h].contains_key(k))
}

/// Two enrichers that set different variables do not undo each other: in whichever
/// order they come, the same stands there in the end.
pub proof fn law_enrichers_of_different_keys_commute(entry: EntryView, a: DatasetView, b: DatasetView)
    requires
        different_keys(a.hostvars, b.hostvars),
    ensures
        entry.with_fields(a).with_fields(b) == entry.with_fields(b).with_fields(a),
{
    let hosts = entry.dataset.hostvars;
    let ab = hosts_patched(hosts_patched(hosts, a.hostvars), b.hostvars);
    let ba = hosts_patched(hosts_patched(hosts, b.hostvars), a.hostvars);
    assert forall|h: Text| ab.contains_key(h) implies ab[h] == ba[h] by {
        assert forall|k: Text| ab[h].contains_key(k) == ba[h].contains_key(k) && (ab[h].contains_key(k) ==> ab[h][k]
            == ba[h][k]) by {
            if a.hostvars.contains_key(h) && b.hostvars.contains_key(h) {
                assert(!(a.hostvars[h].contains_key(k) && b.hostvars[h].contains_key(k)));
            }
        }
        assert(ab[h] =~= ba[h]);
    }
    assert(ab =~= ba);
}

/// What is put over twice is put over.
pub proof fn law_fields_are_put_once(entry: EntryView, partial: DatasetView)
    ensures
        entry.with_fields(partial).with_fields(partial) == entry.with_fields(partial),
{
    let hosts = entry.dataset.hostvars;
    let once = hosts_patched(hosts, partial.hostvars);
    let twice = hosts_patched(once, partial.hostvars);
    assert forall|h: Text| once.contains_key(h) implies once[h] == twice[h] by {
        assert(once[h] =~= twice[h]);
    }
    assert(once =~= twice);
}

pub proof fn lemma_groups_of(groups: Map<Text, GroupView>, host: Text)
    requires
        groups.dom().finite(),
    ensures
        forall|g: Text| #[trigger]
            groups_of(groups, host).contains(g) <==> groups.contains_key(g) && groups[g].hosts.contains(host),
{
    let set = Set::new(|g: Text| groups.contains_key(g) && groups[g].hosts.contains(host));
    assert(set.subset_of(groups.dom()));
    vstd::set_lib::lemma_set_subset_finite(groups.dom(), set);
    lemma_prefix_whole(set);
}

/// A moment that many seconds ago is that old.
pub proof fn lemma_backdated_age(now: int, seconds: int, at: int)
    requires
        backdated(now, seconds, at),
        seconds >= 0,
    ensures
        seconds_since(now, at) == seconds,
{
    assert(now - at == seconds * 1_000_000_000);
    assert((seconds * 1_000_000_000) / 1_000_000_000 == seconds) by (nonlinear_arith);
}

/// A host is in a group of an entry.
pub open spec fn is_in(entry: EntryView, group: Text, host: Text) -> bool {
    entry.dataset.groups.contains_key(group) && entry.dataset.groups[group].hosts.contains(host)
}

/// A host that is captured, taken out and put back is as it was: with its variables, in
/// its groups, and as old as before.
pub proof fn law_a_captured_host_can_be_put_back(entry: EntryView, host: Text, now: int, at: int)
    requires
        entry.dataset.groups.dom().finite(),
        entry.dataset.hostvars.contains_key(host),
    ensures
        entry.captured(host, now) is Some,
        ({
            let retained = entry.captured(host, now)->0;
            let after = entry.dropping(set![host]).with_retained(retained, at);
            &&& after.dataset.hostvars == entry.dataset.hostvars
            &&& after.dataset.groups.dom() == entry.dataset.groups.dom()
            &&& forall|g: Text, h: Text| #[trigger]
                after.dataset.groups.contains_key(g) ==> (#[trigger] after.dataset.groups[g].hosts.contains(h)
                    <==> entry.dataset.groups[g].hosts.contains(h))
            &&& after.stamps.contains_key(host) && after.stamps[host] == at
            &&& forall|h: Text| h != host ==> (#[trigger] after.stamps.contains_key(h) <==> entry.stamps.contains_key(
                h,
            )) && (after.stamps.contains_key(h) ==> after.stamps[h] == entry.stamps[h])
            &&& entry.stamps.contains_key(host) && backdated(now, retained.age, at) ==> after.host_age(host, now)
                == entry.host_age(host, now)
        }),
{
    let retained = entry.captured(host, now)->0;
    let gone = set![host];
    let base = entry.dropping(gone);
    let after = base.with_retained(retained, at);
    lemma_groups_of(entry.dataset.groups, host);
    assert(after.dataset.hostvars =~= entry.dataset.hostvars);
    assert forall|g: Text| after.dataset.groups.contains_key(g) == entry.dataset.groups.contains_key(g) by {
        assert(retained.groups.contains(g) ==> entry.dataset.groups.contains_key(g));
    }
    assert(after.dataset.groups.dom() =~= entry.dataset.groups.dom());
    assert forall|g: Text, h: Text| #[trigger]
        after.dataset.groups.contains_key(g) implies (#[trigger] after.dataset.groups[g].hosts.contains(h)
        <==> entry.dataset.groups[g].hosts.contains(h)) by {
        let own = base.dataset.groups[g].hosts;
        assert(entry.dataset.groups.contains_key(g));
        assert(base.dataset.groups.contains_key(g));
        lemma_filter_holds(entry.dataset.groups[g].hosts, |x: Text| !gone.contains(x), h);
        lemma_filter_holds(entry.dataset.groups[g].hosts, |x: Text| !gone.contains(x), host);
        assert(retained.groups.contains(g) <==> entry.dataset.groups[g].hosts.contains(host));
        assert(own.push(host).contains(h) <==> own.contains(h) || h == host) by {
            if own.contains(h) {
                let i = choose|i: int| 0 <= i < own.len() && own[i] == h;
                assert(own.push(host)[i] == h);
            }
            assert(own.push(host)[own.len() as int] == host);
        }
    }
    if entry.stamps.contains_key(host) && backdated(now, retained.age, at) {
        if now >= entry.stamps[host] {
            assert((now - entry.stamps[host]) / 1_000_000_000 >= 0) by (nonlinear_arith)
                requires
                    now >= entry.stamps[host],
            ;
        }
        lemma_backdated_age(now, retained.age, at);
    }
}

/// A host that was captured in one entry and is put into another has there the variables
/// that it was captured with. It joins the groups that it was captured in, each once; one
/// that is not there is created with it alone. Every other host stays as it is. Where
/// the clock can represent the moment, the host is never younger than it was.
pub proof fn law_a_captured_host_can_be_put_anywhere(
    known: EntryView,
    entry: EntryView,
    host: Text,
    captured_at: int,
    now: int,
    at: int,
    later: int,
)
    requires
        known.dataset.groups.dom().finite(),
        known.captured(host, captured_at) is Some,
        aged(now, known.captured(host, captured_at)->0.age, at),
    ensures
        ({
            let retained = known.captured(host, captured_at)->0;
            let after = entry.with_retained(retained, at);
            &&& after.dataset.hostvars == entry.dataset.hostvars.insert(host, known.dataset.hostvars[host])
            &&& after.stamps == entry.stamps.insert(host, at)
            &&& after.fetched_at == entry.fetched_at && after.ttl == entry.ttl && after.complete == entry.complete
            &&& forall|g: Text| #[trigger]
                after.dataset.groups.contains_key(g) <==> entry.dataset.groups.contains_key(g) || is_in(
                    known,
                    g,
                    host,
                )
            &&& forall|g: Text| #[trigger]
                entry.dataset.groups.contains_key(g) ==> after.dataset.groups[g] == (if is_in(known, g, host)
                    && !is_in(entry, g, host) {
                    GroupView {
                        hosts: entry.dataset.groups[g].hosts.push(host),
                        ..entry.dataset.groups[g]
                    }
                } else {
                    entry.dataset.groups[g]
                })
            &&& forall|g: Text| #[trigger]
                after.dataset.groups.contains_key(g) && !entry.dataset.groups.contains_key(g)
                    ==> after.dataset.groups[g] == (GroupView { hosts: seq![host], ..GroupView::none() })
            &&& forall|g: Text| #[trigger]
                is_in(after, g, host) <==> is_in(known, g, host) || is_in(entry, g, host)
            &&& forall|g: Text, h: Text| h != host ==> (#[trigger] is_in(after, g, h) <==> is_in(entry, g, h))
            &&& representable(earlier(now, retained.age)) && later >= now ==> {
                &&& after.host_age(host, later) matches Some(age) && age >= retained.age
                &&& known.host_age(host, captured_at) matches Some(age) ==> age == retained.age
            }
        }),
{
    let retained = known.captured(host, captured_at)->0;
    let after = entry.with_retained(retained, at);
    lemma_groups_of(known.dataset.groups, host);
    assert forall|g: Text| retained.groups.contains(g) == is_in(known, g, host) by {}
    assert forall|g: Text| #[trigger]
        after.dataset.groups.contains_key(g) && !entry.dataset.groups.contains_key(g) implies after.dataset.groups[g]
        == (GroupView { hosts: seq![host], ..GroupView::none() }) by {
        assert(GroupView::none().hosts.push(host) =~= seq![host]);
    }
    assert forall|g: Text, h: Text|
        is_in(after, g, h) == (is_in(entry, g, h) || (h == host && is_in(known, g, host))) by {
        let own = if entry.dataset.groups.contains_key(g) {
            entry.dataset.groups[g].hosts
        } else {
            Seq::empty()
        };
        if own.contains(h) {
            let i = choose|i: int| 0 <= i < own.len() && own[i] == h;
            assert(own.push(host)[i] == h);
        }
        assert(own.push(host)[own.len() as int] == host);
    }
    if representable(earlier(now, retained.age)) && later >= now {
        if known.stamps.contains_key(host) && captured_at >= known.stamps[host] {
            assert((captured_at - known.stamps[host]) / 1_000_000_000 >= 0) by (nonlinear_arith)
                requires
                    captured_at >= known.stamps[host],
            ;
        }
        assert(later - at >= retained.age * 1_000_000_000);
        assert((later - at) / 1_000_000_000 >= retained.age) by (nonlinear_arith)
            requires
                later - at >= retained.age * 1_000_000_000,
        ;
    }
}

/// A host that is put back is in every group that it was captured in, and in none twice
/// for it.
pub proof fn law_a_host_is_put_back_into_its_groups(entry: EntryView, retained: RetainedView, at: int, group: Text)
    requires
        retained.groups.contains(group),
        entry.dataset.groups.contains_key(group) ==> entry.dataset.groups[group].hosts.no_duplicates(),
    ensures
        ({
            let after = entry.with_retained(retained, at);
            &&& after.dataset.groups.contains_key(group)
            &&& after.dataset.groups[group].hosts.contains(retained.hostname)
            &&& after.dataset.groups[group].hosts.no_duplicates()
        }),
{
    let after = entry.with_retained(retained, at);
    let own = if entry.dataset.groups.contains_key(group) {
        entry.dataset.groups[group]
    } else {
        GroupView::none()
    };
    if !own.hosts.contains(retained.hostname) {
        let hosts = own.hosts.push(retained.hostname);
        assert(hosts[own.hosts.len() as int] == retained.hostname);
        assert(after.dataset.groups[group].hosts == hosts);
    }
}

/// An entry that is rebuilt from ages is as old as was said, and so are its hosts; or,
/// where the clock cannot tell, it is never fresh.
pub proof fn law_a_rebuilt_entry_is_as_old_as_said(
    entry: EntryView,
    dataset: DatasetView,
    ttl: int,
    age: int,
    host_ages: Map<Text, u64>,
    now: int,
    host: Text,
)
    requires
        rebuilt(entry, dataset, ttl, age, host_ages, now),
        age >= 0,
    ensures
        entry.dataset == dataset,
        seconds_since(now, entry.fetched_at) == age || (forall|later: int| !entry.fresh(later)),
        entry.stamps.contains_key(host) ==> entry.host_age(host, now) == Some(host_ages[host] as int),
{
    if backdated(now, age, entry.fetched_at) && entry.ttl == ttl {
        lemma_backdated_age(now, age, entry.fetched_at);
    } else {
        assert forall|later: int| !entry.fresh(later) by {
            if later >= now {
                assert((later - now) / 1_000_000_000 >= 0) by (nonlinear_arith)
                    requires
                        later >= now,
                ;
            }
        }
    }
    if entry.stamps.contains_key(host) {
        lemma_backdated_age(now, host_ages[host] as int, entry.stamps[host]);
    }
}

/// A sync of a group changes nobody outside the group, and does not say who is in it.
pub proof fn law_a_group_sync_stays_in_its_group(
    entry: EntryView,
    group: Text,
    partial: DatasetView,
    now: int,
    host: Text,
)
    requires
        !(entry.dataset.groups.contains_key(group) && entry.dataset.groups[group].hosts.contains(host)),
    ensures
        ({
            let after = entry.with_group(group, partial, now);
            &&& after.dataset.hostvars.contains_key(host) == entry.dataset.hostvars.contains_key(host)
            &&& after.dataset.hostvars.contains_key(host) ==> after.dataset.hostvars[host]
                == entry.dataset.hostvars[host]
            &&& after.stamps.contains_key(host) == entry.stamps.contains_key(host)
            &&& after.stamps.contains_key(host) ==> after.stamps[host] == entry.stamps[host]
            &&& after.dataset.groups.dom() == entry.dataset.groups.dom()
            &&& forall|g: Text| #[trigger]
                after.dataset.groups.contains_key(g) ==> after.dataset.groups[g].hosts == entry.dataset.groups[g].hosts
        }),
{
    let after = entry.with_group(group, partial, now);
    assert(!refreshed(entry.dataset, group, partial, host));
    assert(after.dataset.groups.dom() =~= entry.dataset.groups.dom());
}

/// The age of a moment is the whole seconds that have passed since; of one that is still
/// to come, none.
pub proof fn law_an_age_is_in_whole_seconds(now: int, at: int)
    ensures
        now >= at ==> seconds_since(now, at) * 1_000_000_000 <= now - at < (seconds_since(now, at) + 1) * 1_000_000_000,
        now < at ==> seconds_since(now, at) == 0,
{
    if now >= at {
        let d = now - at;
        assert((d / 1_000_000_000) * 1_000_000_000 <= d < (d / 1_000_000_000 + 1) * 1_000_000_000) by (nonlinear_arith);
    }
}

/// A source is fresh, where it was gathered as a whole, until its time to live has passed
/// since; a host until its own has passed since it was gathered. A host that was never
/// gathered is not fresh and has no age.
pub proof fn law_what_is_cached_expires_with_its_ttl(entry: EntryView, host: Text, ttl: int, now: int)
    ensures
        entry.fetched_at <= now ==> (entry.fresh(now) <==> entry.complete && now - entry.fetched_at < entry.ttl
            * 1_000_000_000),
        entry.stamps.contains_key(host) && entry.stamps[host] <= now ==> (entry.host_fresh(host, ttl, now) <==> now
            - entry.stamps[host] < ttl * 1_000_000_000),
        entry.stamps.contains_key(host) ==> entry.host_age(host, now) == Some(seconds_since(now, entry.stamps[host])),
        !entry.stamps.contains_key(host) ==> !entry.host_fresh(host, ttl, now) && entry.host_age(host, now) is None,
{
    lemma_within(now - entry.fetched_at, entry.ttl);
    lemma_within(now - entry.stamps[host], ttl);
}

proof fn lemma_within(nanos: int, seconds: int)
    ensures
        nanos / 1_000_000_000 < seconds <==> nanos < seconds * 1_000_000_000,
{
    let q = nanos / 1_000_000_000;
    assert(q * 1_000_000_000 <= nanos < (q + 1) * 1_000_000_000) by (nonlinear_arith)
        requires
            q == nanos / 1_000_000_000,
    ;
    if q < seconds {
        assert((q + 1) * 1_000_000_000 <= seconds * 1_000_000_000) by (nonlinear_arith)
            requires
                q + 1 <= seconds,
        ;
    } else {
        assert(q * 1_000_000_000 >= seconds * 1_000_000_000) by (nonlinear_arith)
            requires
                q >= seconds,
        ;
    }
}

/// A host that is put has the variables and the moment that it is put with. No group
/// changes for it, no other host, and not what is known of the source as a whole.
pub proof fn law_a_host_is_put_as_it_is(entry: EntryView, host: Text, vars: VarsView, at: int, other: Text)
    ensures
        ({
            let after = entry.with_host(host, vars, at);
            &&& after.dataset.hostvars.contains_key(host) && after.dataset.hostvars[host] == vars
            &&& after.stamps.contains_key(host) && after.stamps[host] == at
            &&& other != host ==> after.dataset.hostvars.contains_key(other) == entry.dataset.hostvars.contains_key(
                other,
            ) && after.dataset.hostvars[other] == entry.dataset.hostvars[other] && after.stamps.contains_key(other)
                == entry.stamps.contains_key(other) && after.stamps[other] == entry.stamps[other]
            &&& after.dataset.groups == entry.dataset.groups
            &&& after.dataset.remove_hosts == entry.dataset.remove_hosts
            &&& same_source(entry, after)
        }),
{
}

/// What is known of the source as a whole is the same.
pub open spec fn same_source(before: EntryView, after: EntryView) -> bool {
    before.fetched_at == after.fetched_at && before.ttl == after.ttl && before.complete == after.complete
}

/// Taking hosts out leaves every group, with its children and its variables, and leaves a
/// group that none of them is in as it is.
pub proof fn law_groups_outlive_their_hosts(entry: EntryView, gone: Set<Text>, group: Text)
    ensures
        ({
            let after = entry.dropping(gone);
            &&& after.dataset.groups.contains_key(group) <==> entry.dataset.groups.contains_key(group)
            &&& entry.dataset.groups.contains_key(group) ==> after.dataset.groups[group].children
                == entry.dataset.groups[group].children && after.dataset.groups[group].vars
                == entry.dataset.groups[group].vars
            &&& entry.dataset.groups.contains_key(group) && (forall|h: Text|
                entry.dataset.groups[group].hosts.contains(h) ==> !gone.contains(h)) ==> after.dataset.groups[group]
                == entry.dataset.groups[group]
            &&& after.dataset.remove_hosts == entry.dataset.remove_hosts
            &&& same_source(entry, after)
        }),
{
    if entry.dataset.groups.contains_key(group) {
        let hosts = entry.dataset.groups[group].hosts;
        if forall|h: Text| hosts.contains(h) ==> !gone.contains(h) {
            lemma_filter_whole(hosts, |h: Text| !gone.contains(h));
        }
    }
}

proof fn lemma_filter_whole<A>(s: Seq<A>, wanted: spec_fn(A) -> bool)
    requires
        forall|x: A| s.contains(x) ==> wanted(x),
    ensures
        s.filter(wanted) == s,
    decreases s.len(),
{
    reveal(Seq::filter);
    if s.len() > 0 {
        let rest = s.drop_last();
        assert forall|x: A| rest.contains(x) implies wanted(x) by {
            let i = choose|i: int| 0 <= i < rest.len() && rest[i] == x;
            assert(s[i] == x);
            assert(s.contains(x));
        }
        lemma_filter_whole(rest, wanted);
        assert(s.contains(s.last()));
        assert(rest.push(s.last()) =~= s);
    }
}

/// A merge takes each host that comes as it comes, and each group that comes as it comes,
/// in place of what was there; all others stay. Then it takes out the hosts that it is
/// told to. A host that comes is as new as the merge where the merge renews, and where
/// nothing was known of it; else it keeps its moment.
pub proof fn law_a_merge_replaces_what_comes(
    entry: EntryView,
    partial: DatasetView,
    restamp: bool,
    now: int,
    host: Text,
    group: Text,
)
    ensures
        ({
            let after = entry.merged(partial, restamp, now);
            let gone = partial.remove_hosts.contains(host);
            &&& after.dataset.hostvars.contains_key(host) <==> !gone && (partial.hostvars.contains_key(host)
                || entry.dataset.hostvars.contains_key(host))
            &&& !gone && partial.hostvars.contains_key(host) ==> after.dataset.hostvars[host]
                == partial.hostvars[host]
            &&& !gone && !partial.hostvars.contains_key(host) && entry.dataset.hostvars.contains_key(host)
                ==> after.dataset.hostvars[host] == entry.dataset.hostvars[host]
            &&& gone ==> !after.stamps.contains_key(host)
            &&& !gone && partial.hostvars.contains_key(host) && (restamp || !entry.stamps.contains_key(host))
                ==> after.stamps.contains_key(host) && after.stamps[host] == now
            &&& !gone && entry.stamps.contains_key(host) && !(restamp && partial.hostvars.contains_key(host))
                ==> after.stamps.contains_key(host) && after.stamps[host] == entry.stamps[host]
            &&& after.dataset.groups.contains_key(group) <==> partial.groups.contains_key(group)
                || entry.dataset.groups.contains_key(group)
            &&& partial.groups.contains_key(group) ==> after.dataset.groups[group].children
                == partial.groups[group].children && after.dataset.groups[group].vars == partial.groups[group].vars && (
            after.dataset.groups[group].hosts.contains(host) <==> partial.groups[group].hosts.contains(host) && !gone)
            &&& !partial.groups.contains_key(group) && entry.dataset.groups.contains_key(group)
                ==> after.dataset.groups[group].children == entry.dataset.groups[group].children
                && after.dataset.groups[group].vars == entry.dataset.groups[group].vars && (
            after.dataset.groups[group].hosts.contains(host) <==> entry.dataset.groups[group].hosts.contains(host)
                && !gone)
            &&& after.dataset.remove_hosts == entry.dataset.remove_hosts
            &&& same_source(entry, after)
        }),
{
    let gone = partial.remove_hosts.to_set();
    assert(gone.contains(host) <==> partial.remove_hosts.contains(host));
    let all = entry.dataset.groups.union_prefer_right(partial.groups);
    if all.contains_key(group) {
        lemma_filter_holds(all[group].hosts, |h: Text| !gone.contains(h), host);
    }
}

/// A variable that is put over a host is there as it was put, where the host is known.
/// Nothing else of the entry changes.
pub proof fn law_fields_are_put_as_they_are(entry: EntryView, partial: DatasetView, host: Text, key: Text)
    requires
        entry.dataset.hostvars.contains_key(host),
        partial.hostvars.contains_key(host),
        partial.hostvars[host].contains_key(key),
    ensures
        entry.with_fields(partial).dataset.hostvars[host].contains_key(key),
        entry.with_fields(partial).dataset.hostvars[host][key] == partial.hostvars[host][key],
        entry.with_fields(partial).dataset.remove_hosts == entry.dataset.remove_hosts,
        same_source(entry, entry.with_fields(partial)),
{
}

/// Group variables that come go over those of the group, key by key; a group that is not
/// there is created as it comes. No group loses hosts, children or variables for it, and
/// nothing else of the entry changes.
pub proof fn law_group_variables_go_over_the_groups(entry: EntryView, partial: DatasetView, group: Text, key: Text)
    ensures
        ({
            let after = entry.with_group_vars(partial);
            &&& after.dataset.groups.contains_key(group) <==> entry.dataset.groups.contains_key(group)
                || partial.groups.contains_key(group)
            &&& !entry.dataset.groups.contains_key(group) && partial.groups.contains_key(group)
                ==> after.dataset.groups[group] == partial.groups[group]
            &&& entry.dataset.groups.contains_key(group) ==> {
                let own = entry.dataset.groups[group];
                let new = after.dataset.groups[group];
                let come = partial.groups.contains_key(group) && partial.groups[group].vars is Some
                    && partial.groups[group].vars->0.contains_key(key);
                &&& new.hosts == own.hosts && new.children == own.children
                &&& come ==> new.vars is Some && new.vars->0.contains_key(key) && new.vars->0[key]
                    == partial.groups[group].vars->0[key]
                &&& !come && own.vars is Some && own.vars->0.contains_key(key) ==> new.vars is Some
                    && new.vars->0.contains_key(key) && new.vars->0[key] == own.vars->0[key]
                &&& new.vars is Some && new.vars->0.contains_key(key) ==> come || (own.vars is Some
                    && own.vars->0.contains_key(key))
            }
            &&& after.dataset.hostvars == entry.dataset.hostvars
            &&& after.dataset.remove_hosts == entry.dataset.remove_hosts
            &&& after.stamps == entry.stamps
            &&& same_source(entry, after)
        }),
{
}

/// A sync of a group takes what came of each host that the cache has in the group, as
/// gathered now; a host of the group that did not come keeps what it has. The variables
/// of the group are those that came with it, where it came.
pub proof fn law_a_group_sync_updates_its_group(
    entry: EntryView,
    group: Text,
    partial: DatasetView,
    now: int,
    host: Text,
)
    requires
        entry.dataset.groups.contains_key(group),
        entry.dataset.groups[group].hosts.contains(host),
    ensures
        ({
            let after = entry.with_group(group, partial, now);
            &&& partial.hostvars.contains_key(host) ==> after.dataset.hostvars.contains_key(host)
                && after.dataset.hostvars[host] == partial.hostvars[host] && after.stamps.contains_key(host)
                && after.stamps[host] == now
            &&& !partial.hostvars.contains_key(host) ==> after.dataset.hostvars.contains_key(host)
                == entry.dataset.hostvars.contains_key(host) && after.stamps.contains_key(host)
                == entry.stamps.contains_key(host)
            &&& !partial.hostvars.contains_key(host) && entry.dataset.hostvars.contains_key(host)
                ==> after.dataset.hostvars[host] == entry.dataset.hostvars[host]
            &&& !partial.hostvars.contains_key(host) && entry.stamps.contains_key(host) ==> after.stamps[host]
                == entry.stamps[host]
            &&& after.dataset.groups[group].vars == (if partial.groups.contains_key(group) {
                partial.groups[group].vars
            } else {
                entry.dataset.groups[group].vars
            })
            &&& after.dataset.groups[group].hosts == entry.dataset.groups[group].hosts
            &&& after.dataset.groups[group].children == entry.dataset.groups[group].children
            &&& forall|g: Text|
                g != group ==> #[trigger] after.dataset.groups.contains_key(g) == entry.dataset.groups.contains_key(g)
                    && after.dataset.groups[g] == entry.dataset.groups[g]
            &&& after.dataset.remove_hosts == entry.dataset.remove_hosts
            &&& same_source(entry, after)
        }),
{
    assert(refreshed(entry.dataset, group, partial, host) <==> partial.hostvars.contains_key(host));
}

/// Of a host that is known, everything is captured: its name, its variables, its age, and
/// every group that lists it. Of one that is not, nothing is.
pub proof fn law_a_capture_has_everything(entry: EntryView, host: Text, now: int, group: Text)
    requires
        entry.dataset.groups.dom().finite(),
    ensures
        entry.captured(host, now) is Some <==> entry.dataset.hostvars.contains_key(host),
        entry.captured(host, now) matches Some(retained) ==> {
            &&& retained.hostname == host
            &&& retained.vars == entry.dataset.hostvars[host]
            &&& entry.stamps.contains_key(host) ==> retained.age == seconds_since(now, entry.stamps[host])
            &&& !entry.stamps.contains_key(host) ==> retained.age == 0
            &&& retained.groups.contains(group) <==> entry.dataset.groups.contains_key(group)
                && entry.dataset.groups[group].hosts.contains(host)
        },
{
    lemma_groups_of(entry.dataset.groups, host);
}

/// An entry that is rebuilt from ages counts as a gather of the whole source. Where the
/// clock can represent its moment it lives as long as said, else not at all; and a host
/// has a moment where its age is known and the clock can represent it.
pub proof fn law_a_rebuilt_entry_is_whole(
    entry: EntryView,
    dataset: DatasetView,
    ttl: int,
    age: int,
    host_ages: Map<Text, u64>,
    now: int,
    host: Text,
)
    requires
        rebuilt(entry, dataset, ttl, age, host_ages, now),
    ensures
        entry.dataset == dataset,
        entry.complete,
        representable(now - age * 1_000_000_000) ==> entry.fetched_at == now - age * 1_000_000_000 && entry.ttl == ttl,
        !representable(now - age * 1_000_000_000) ==> entry.fetched_at == now && entry.ttl == 0,
        entry.stamps.contains_key(host) <==> host_ages.contains_key(host) && representable(
            now - host_ages[host] * 1_000_000_000,
        ),
        entry.stamps.contains_key(host) ==> entry.stamps[host] == now - host_ages[host] * 1_000_000_000,
{
}

/// A moment that is aged lies that many seconds back, where the clock reaches that far;
/// else it is the present one.
pub proof fn law_an_aged_moment_lies_back(now: int, seconds: int, at: int)
    requires
        aged(now, seconds, at),
    ensures
        representable(now - seconds * 1_000_000_000) ==> at == now - seconds * 1_000_000_000,
        !representable(now - seconds * 1_000_000_000) ==> at == now,
{
}

/// A host that is put back has its variables and its moment again, and is in the groups it
/// was in: after those that are there, where it is not. Nothing else changes.
pub proof fn law_a_host_that_is_put_back_changes_nothing_else(
    entry: EntryView,
    retained: RetainedView,
    at: int,
    other: Text,
    group: Text,
)
    ensures
        ({
            let after = entry.with_retained(retained, at);
            let own = entry.dataset.groups;
            let then = after.dataset.groups;
            &&& after.dataset.hostvars.contains_key(retained.hostname)
            &&& after.dataset.hostvars[retained.hostname] == retained.vars
            &&& after.stamps.contains_key(retained.hostname) && after.stamps[retained.hostname] == at
            &&& other != retained.hostname ==> (after.dataset.hostvars.contains_key(other)
                <==> entry.dataset.hostvars.contains_key(other)) && (after.stamps.contains_key(other)
                <==> entry.stamps.contains_key(other))
            &&& other != retained.hostname && entry.dataset.hostvars.contains_key(other)
                ==> after.dataset.hostvars[other] == entry.dataset.hostvars[other]
            &&& other != retained.hostname && entry.stamps.contains_key(other) ==> after.stamps[other]
                == entry.stamps[other]
            &&& then.contains_key(group) <==> own.contains_key(group) || retained.groups.contains(group)
            &&& own.contains_key(group) && (!retained.groups.contains(group) || own[group].hosts.contains(
                retained.hostname,
            )) ==> then[group] == own[group]
            &&& own.contains_key(group) && retained.groups.contains(group) && !own[group].hosts.contains(
                retained.hostname,
            ) ==> then[group].hosts == own[group].hosts.push(retained.hostname) && then[group].children
                == own[group].children && then[group].vars == own[group].vars
            &&& !own.contains_key(group) && retained.groups.contains(group) ==> then[group].hosts
                == seq![retained.hostname] && then[group].children.len() == 0 && then[group].vars is None
            &&& after.fetched_at == entry.fetched_at && after.ttl == entry.ttl && after.complete == entry.complete
            &&& after.dataset.remove_hosts == entry.dataset.remove_hosts
        }),
{
    assert(Seq::<Text>::empty().push(retained.hostname) =~= seq![retained.hostname]);
}

/// The groups that a host is captured with come in ascending order, each once.
pub proof fn law_a_capture_lists_groups_in_order(entry: EntryView, host: Text, now: int)
    requires
        entry.dataset.groups.dom().finite(),
        entry.captured(host, now) is Some,
    ensures
        ascending(entry.captured(host, now)->0.groups),
{
    let named = Set::new(
        |g: Text| entry.dataset.groups.contains_key(g) && entry.dataset.groups[g].hosts.contains(host),
    );
    vstd::set_lib::lemma_set_subset_finite(entry.dataset.groups.dom(), named);
    lemma_sorted(named);
}

/// What is served as JSON is the text in UTF-8, with a tag that is made of those bytes: the
/// same text has the same tag.
pub proof fn law_what_is_served_is_the_text(one: SerializedJson, other: SerializedJson, text: Text)
    requires
        one.is_of(text),
        other.is_of(text),
    ensures
        buffer(one.bytes) == vstd::utf8::encode_utf8(text),
        one.etag@ == etag_text(content_hash(vstd::utf8::encode_utf8(text)), vstd::utf8::encode_utf8(text).len()),
        one.etag@ == other.etag@,
        buffer(one.bytes) == buffer(other.bytes),
{
}

} // verus!
