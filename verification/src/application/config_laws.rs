//! What a reload tells and does.

#[allow(unused_imports)]
use crate::api::health::ready;
#[allow(unused_imports)]
use crate::application::config::{applied_names, delta, ids_differing, ids_only_in, limits_after, report, DeltaModel};
#[allow(unused_imports)]
use crate::application::refresh::CoordinatorModel;
#[allow(unused_imports)]
use crate::application::scripts::{script_found, with_venv};
#[allow(unused_imports)]
use crate::builder::AppBuilder;
#[allow(unused_imports)]
use crate::config::{restart_keys, restart_only, said_if, AppConfigModel, ConfigFiles, RestartOnlySettingsModel};
#[allow(unused_imports)]
use crate::domain::cache_entry::EntryView;
#[allow(unused_imports)]
use crate::domain::credential::CredentialModel;
#[allow(unused_imports)]
use crate::domain::api_key::ApiKeyDefModel;
#[allow(unused_imports)]
use crate::domain::endpoint::OutputEndpointModel;
#[allow(unused_imports)]
use crate::domain::enricher::EnricherModel;
#[allow(unused_imports)]
use crate::domain::project::GitProjectModel;
#[allow(unused_imports)]
use crate::domain::source::SourceModel;
#[allow(unused_imports)]
use crate::domain::sync_health::RecordView;
#[allow(unused_imports)]
use crate::domain::view::ViewModel;
#[allow(unused_imports)]
use crate::state::{as_run, runtime, AppState, RuntimeConfigModel};
#[allow(unused_imports)]
use crate::strmap::{ascending, lemma_prefix_whole, lemma_sorted, lemma_sorted_is, sorted};
#[allow(unused_imports)]
use crate::text::{lemma_text_lt_transitive, text_lt, Text};
#[allow(unused_imports)]
use crate::text_laws::law_texts_are_ordered_by_the_first_difference;
use vstd::prelude::*;

verus! {

proof fn lemma_sorted_none()
    ensures
        sorted(Set::<Text>::empty()) == Seq::<Text>::empty(),
{
    let none = Seq::<Text>::empty();
    assert(ascending(none));
    assert(none.to_set() =~= Set::<Text>::empty());
    lemma_sorted_is(none);
}

/// The ids of a section that are picked are finitely many.
proof fn lemma_finite<M>(a: Map<Text, M>, b: Map<Text, M>)
    requires
        a.dom().finite(),
    ensures
        ids_only_in(a, b).finite(),
        ids_differing(a, b).finite(),
{
    vstd::set_lib::lemma_set_subset_finite(a.dom(), ids_only_in(a, b));
    vstd::set_lib::lemma_set_subset_finite(a.dom(), ids_differing(a, b));
}

/// From a section to itself nothing changes.
pub proof fn law_nothing_changes_from_a_section_to_itself<M>(section: Map<Text, M>)
    ensures
        delta(section, section) == DeltaModel::nothing(),
{
    assert(ids_only_in(section, section) =~= Set::<Text>::empty());
    assert(ids_differing(section, section) =~= Set::<Text>::empty());
    lemma_sorted_none();
}

/// Nothing changed where two sections are the same, and only there.
pub proof fn law_nothing_changed_means_the_same<M>(before: Map<Text, M>, after: Map<Text, M>)
    requires
        before.dom().finite(),
        after.dom().finite(),
    ensures
        delta(before, after) == DeltaModel::nothing() <==> before == after,
{
    if before == after {
        law_nothing_changes_from_a_section_to_itself(before);
    }
    if delta(before, after) == DeltaModel::nothing() {
        law_a_delta_tells_of_each_id(before, after);
        assert forall|id: Text| before.contains_key(id) == after.contains_key(id) by {
            assert(!delta(before, after).added.contains(id));
            assert(!delta(before, after).removed.contains(id));
        }
        assert forall|id: Text| before.contains_key(id) implies before[id] == after[id] by {
            assert(!delta(before, after).changed.contains(id));
        }
        assert(before =~= after);
    }
}

/// An id is told of as added where only the new section has it, as removed where only
/// the old one has, and as changed where both have it for different things: never as
/// two of these. Each list stands in ascending order, so no id is told of twice.
pub proof fn law_a_delta_tells_of_each_id<M>(before: Map<Text, M>, after: Map<Text, M>)
    requires
        before.dom().finite(),
        after.dom().finite(),
    ensures
        forall|id: Text| #[trigger]
            delta(before, after).added.contains(id) <==> after.contains_key(id) && !before.contains_key(id),
        forall|id: Text| #[trigger]
            delta(before, after).removed.contains(id) <==> before.contains_key(id) && !after.contains_key(id),
        forall|id: Text| #[trigger]
            delta(before, after).changed.contains(id) <==> before.contains_key(id) && after.contains_key(id)
                && before[id] != after[id],
        ascending(delta(before, after).added),
        ascending(delta(before, after).removed),
        ascending(delta(before, after).changed),
{
    lemma_finite(after, before);
    lemma_finite(before, after);
    lemma_sorted(ids_only_in(after, before));
    lemma_sorted(ids_only_in(before, after));
    lemma_sorted(ids_differing(after, before));
    lemma_prefix_whole(ids_only_in(after, before));
    lemma_prefix_whole(ids_only_in(before, after));
    lemma_prefix_whole(ids_differing(after, before));
}

/// Going back, what was added is removed, what was removed is added, and what changed
/// changes again.
pub proof fn law_a_delta_can_be_turned_round<M>(before: Map<Text, M>, after: Map<Text, M>)
    ensures
        delta(after, before).added == delta(before, after).removed,
        delta(after, before).removed == delta(before, after).added,
        delta(after, before).changed == delta(before, after).changed,
{
    assert(ids_differing(after, before) =~= ids_differing(before, after));
}

/// The ids that one of two sections lacks, or that stand for different things in them.
pub open spec fn ids_apart<M>(before: Map<Text, M>, after: Map<Text, M>) -> Set<Text> {
    Set::new(
        |id: Text|
            (before.contains_key(id) || after.contains_key(id)) && !(before.contains_key(id) && after.contains_key(id)
                && before[id] == after[id]),
    )
}

/// A delta counts each id once that one of the sections lacks or that differs in them. It
/// counts none only where nothing changed, and as many going back.
pub proof fn law_a_delta_counts_each_id_once<M>(before: Map<Text, M>, after: Map<Text, M>)
    requires
        before.dom().finite(),
        after.dom().finite(),
    ensures
        delta(before, after).total() == ids_apart(before, after).len(),
        delta(before, after).total() == 0 <==> delta(before, after) == DeltaModel::nothing(),
        delta(after, before).total() == delta(before, after).total(),
{
    let added = ids_only_in(after, before);
    let removed = ids_only_in(before, after);
    let changed = ids_differing(after, before);
    lemma_finite(after, before);
    lemma_finite(before, after);
    lemma_sorted(added);
    lemma_sorted(removed);
    lemma_sorted(changed);
    assert(added.disjoint(removed));
    vstd::set_lib::lemma_set_disjoint_lens(added, removed);
    assert((added + removed).disjoint(changed));
    vstd::set_lib::lemma_set_disjoint_lens(added + removed, changed);
    assert(added + removed + changed =~= ids_apart(before, after));
    if delta(before, after).total() == 0 {
        assert(delta(before, after) =~= DeltaModel::nothing());
    }
    law_a_delta_can_be_turned_round(before, after);
}

/// A reload to the configuration that runs already adopts nothing; and where nothing is
/// adopted, that is the one that runs.
pub proof fn law_a_reload_to_the_same_adopts_nothing(before: RuntimeConfigModel, after: RuntimeConfigModel)
    requires
        before.sources.dom().finite() && after.sources.dom().finite(),
        before.views.dom().finite() && after.views.dom().finite(),
        before.enrichers.dom().finite() && after.enrichers.dom().finite(),
        before.endpoints.dom().finite() && after.endpoints.dom().finite(),
        before.projects.dom().finite() && after.projects.dom().finite(),
        before.credentials.dom().finite() && after.credentials.dom().finite(),
    ensures
        applied_names(before, after).len() == 0 <==> before == after,
{
    let names = applied_names(before, after);
    if names.len() > 0 {
        assert(names.contains(names[0]));
        law_what_differs_is_adopted(before, after, names[0]);
    } else {
        law_what_differs_is_adopted(before, after, "credentials"@);
        law_what_differs_is_adopted(before, after, "endpoints"@);
        law_what_differs_is_adopted(before, after, "enrichers"@);
        law_what_differs_is_adopted(before, after, "projects"@);
        law_what_differs_is_adopted(before, after, "secrets"@);
        law_what_differs_is_adopted(before, after, "server.metrics_require_auth"@);
        law_what_differs_is_adopted(before, after, "server.readyz_require_all_sources"@);
        law_what_differs_is_adopted(before, after, "server.refresh_max_concurrent"@);
        law_what_differs_is_adopted(before, after, "server.refresh_timeout_seconds"@);
        law_what_differs_is_adopted(before, after, "server.shutdown_grace_seconds"@);
        law_what_differs_is_adopted(before, after, "sources"@);
        law_what_differs_is_adopted(before, after, "views"@);
        assert(before =~= after);
    }
}

/// A process that was built from a configuration, or that has adopted it, has nothing
/// of it left to adopt, and needs no restart for it where it was built from its settings.
pub proof fn law_what_is_adopted_is_not_pending(cfg: AppConfigModel, generation: int)
    ensures
        report(runtime(cfg), runtime(cfg), cfg, Some(restart_only(cfg)), generation).applied.len() == 0,
        report(runtime(cfg), runtime(cfg), cfg, Some(restart_only(cfg)), generation).restart_required.len() == 0,
{
    let c = runtime(cfg);
    law_nothing_changes_from_a_section_to_itself(c.sources);
    law_nothing_changes_from_a_section_to_itself(c.views);
    law_nothing_changes_from_a_section_to_itself(c.enrichers);
    law_nothing_changes_from_a_section_to_itself(c.endpoints);
    law_nothing_changes_from_a_section_to_itself(c.projects);
    law_nothing_changes_from_a_section_to_itself(c.credentials);
}

/// No setting needs a restart where the process was built from the same settings, and
/// only there.
pub proof fn law_a_restart_is_needed_for_what_differs(live: RestartOnlySettingsModel, next: RestartOnlySettingsModel)
    ensures
        restart_keys(live, next).len() == 0 <==> live == next,
{
}

proof fn lemma_say(list: Seq<Text>, condition: bool, text: Text, name: Text)
    ensures
        (list + said_if(condition, text)).contains(name) <==> list.contains(name) || (condition && name == text),
{
    let all = list + said_if(condition, text);
    if list.contains(name) {
        let i = choose|i: int| 0 <= i < list.len() && list[i] == name;
        assert(all[i] == name);
    }
    if condition {
        assert(all[list.len() as int] == text);
    }
    if all.contains(name) {
        let i = choose|i: int| 0 <= i < all.len() && all[i] == name;
        if i < list.len() {
            assert(list[i] == name);
        }
    }
}

/// That a list is in order and has nothing after `last`.
#[verifier::opaque]
spec fn up_to(list: Seq<Text>, last: Text) -> bool {
    &&& ascending(list)
    &&& forall|i: int| 0 <= i < list.len() ==> #[trigger] list[i] == last || text_lt(list[i], last)
}

proof fn lemma_say_first(condition: bool, text: Text)
    ensures
        up_to(said_if(condition, text), text),
{
    reveal(up_to);
}

proof fn lemma_say_in_order(list: Seq<Text>, last: Text, condition: bool, text: Text)
    requires
        up_to(list, last),
        text_lt(last, text),
    ensures
        up_to(list + said_if(condition, text), text),
{
    reveal(up_to);
    let all = list + said_if(condition, text);
    assert forall|i: int| 0 <= i < list.len() implies text_lt(#[trigger] list[i], text) by {
        if list[i] != last {
            lemma_text_lt_transitive(list[i], last, text);
        }
    }
    assert forall|i: int, j: int| #![trigger all[i], all[j]] 0 <= i < j < all.len() implies text_lt(all[i], all[j]) by {
        assert(all[i] == list[i]);
        if j < list.len() {
            assert(all[j] == list[j]);
        }
    }
    assert forall|i: int| 0 <= i < all.len() implies #[trigger] all[i] == text || text_lt(all[i], text) by {
        if i < list.len() {
            assert(all[i] == list[i]);
        }
    }
}

proof fn lemma_apart_at(a: Text, b: Text, i: int)
    requires
        0 <= i < a.len(),
        i < b.len(),
        (a[i] as int) < (b[i] as int),
        forall|k: int| 0 <= k < i ==> a[k] == b[k],
    ensures
        text_lt(a, b),
{
    assert(a.take(i) =~= b.take(i));
    law_texts_are_ordered_by_the_first_difference(a, b);
}

/// What a reload says that it adopted are the sections and settings that differ, and
/// nothing else.
pub proof fn law_what_differs_is_adopted(before: RuntimeConfigModel, after: RuntimeConfigModel, name: Text)
    requires
        before.sources.dom().finite() && after.sources.dom().finite(),
        before.views.dom().finite() && after.views.dom().finite(),
        before.enrichers.dom().finite() && after.enrichers.dom().finite(),
        before.endpoints.dom().finite() && after.endpoints.dom().finite(),
        before.projects.dom().finite() && after.projects.dom().finite(),
        before.credentials.dom().finite() && after.credentials.dom().finite(),
    ensures
        applied_names(before, after).contains(name) <==> {
            ||| name == "credentials"@ && before.credentials != after.credentials
            ||| name == "endpoints"@ && before.endpoints != after.endpoints
            ||| name == "enrichers"@ && before.enrichers != after.enrichers
            ||| name == "projects"@ && before.projects != after.projects
            ||| name == "secrets"@ && before.secrets != after.secrets
            ||| name == "server.metrics_require_auth"@ && before.metrics_require_auth != after.metrics_require_auth
            ||| name == "server.readyz_require_all_sources"@ && before.readyz_require_all_sources != after.readyz_require_all_sources
            ||| name == "server.refresh_max_concurrent"@ && before.refresh_max_concurrent != after.refresh_max_concurrent
            ||| name == "server.refresh_timeout_seconds"@ && before.refresh_timeout_seconds != after.refresh_timeout_seconds
            ||| name == "server.shutdown_grace_seconds"@ && before.shutdown_grace_seconds != after.shutdown_grace_seconds
            ||| name == "sources"@ && before.sources != after.sources
            ||| name == "views"@ && before.views != after.views
        },
{
    law_nothing_changed_means_the_same(before.sources, after.sources);
    law_nothing_changed_means_the_same(before.views, after.views);
    law_nothing_changed_means_the_same(before.enrichers, after.enrichers);
    law_nothing_changed_means_the_same(before.endpoints, after.endpoints);
    law_nothing_changed_means_the_same(before.projects, after.projects);
    law_nothing_changed_means_the_same(before.credentials, after.credentials);
    let n0 = Seq::<Text>::empty();
    assert(!n0.contains(name));
    lemma_say(n0, before.credentials != after.credentials, "credentials"@, name);
    let n1 = n0 + said_if(before.credentials != after.credentials, "credentials"@);
    lemma_say(n1, before.endpoints != after.endpoints, "endpoints"@, name);
    let n2 = n1 + said_if(before.endpoints != after.endpoints, "endpoints"@);
    lemma_say(n2, before.enrichers != after.enrichers, "enrichers"@, name);
    let n3 = n2 + said_if(before.enrichers != after.enrichers, "enrichers"@);
    lemma_say(n3, before.projects != after.projects, "projects"@, name);
    let n4 = n3 + said_if(before.projects != after.projects, "projects"@);
    lemma_say(n4, before.secrets != after.secrets, "secrets"@, name);
    let n5 = n4 + said_if(before.secrets != after.secrets, "secrets"@);
    lemma_say(n5, before.metrics_require_auth != after.metrics_require_auth, "server.metrics_require_auth"@, name);
    let n6 = n5 + said_if(before.metrics_require_auth != after.metrics_require_auth, "server.metrics_require_auth"@);
    lemma_say(n6, before.readyz_require_all_sources != after.readyz_require_all_sources, "server.readyz_require_all_sources"@, name);
    let n7 = n6 + said_if(before.readyz_require_all_sources != after.readyz_require_all_sources, "server.readyz_require_all_sources"@);
    lemma_say(n7, before.refresh_max_concurrent != after.refresh_max_concurrent, "server.refresh_max_concurrent"@, name);
    let n8 = n7 + said_if(before.refresh_max_concurrent != after.refresh_max_concurrent, "server.refresh_max_concurrent"@);
    lemma_say(n8, before.refresh_timeout_seconds != after.refresh_timeout_seconds, "server.refresh_timeout_seconds"@, name);
    let n9 = n8 + said_if(before.refresh_timeout_seconds != after.refresh_timeout_seconds, "server.refresh_timeout_seconds"@);
    lemma_say(n9, before.shutdown_grace_seconds != after.shutdown_grace_seconds, "server.shutdown_grace_seconds"@, name);
    let n10 = n9 + said_if(before.shutdown_grace_seconds != after.shutdown_grace_seconds, "server.shutdown_grace_seconds"@);
    lemma_say(n10, before.sources != after.sources, "sources"@, name);
    let n11 = n10 + said_if(before.sources != after.sources, "sources"@);
    lemma_say(n11, before.views != after.views, "views"@, name);
    let n12 = n11 + said_if(before.views != after.views, "views"@);
    assert(n12 =~= applied_names(before, after));
}

proof fn lemma_names_in_order()
    ensures
        text_lt("credentials"@, "endpoints"@),
        text_lt("endpoints"@, "enrichers"@),
        text_lt("enrichers"@, "projects"@),
        text_lt("projects"@, "secrets"@),
        text_lt("secrets"@, "server.metrics_require_auth"@),
        text_lt("server.metrics_require_auth"@, "server.readyz_require_all_sources"@),
        text_lt("server.readyz_require_all_sources"@, "server.refresh_max_concurrent"@),
        text_lt("server.refresh_max_concurrent"@, "server.refresh_timeout_seconds"@),
        text_lt("server.refresh_timeout_seconds"@, "server.shutdown_grace_seconds"@),
        text_lt("server.shutdown_grace_seconds"@, "sources"@),
        text_lt("sources"@, "views"@),
{
    assert(text_lt("credentials"@, "endpoints"@)) by {
        reveal_strlit("credentials");
        reveal_strlit("endpoints");
        lemma_apart_at("credentials"@, "endpoints"@, 0);
    }
    assert(text_lt("endpoints"@, "enrichers"@)) by {
        reveal_strlit("endpoints");
        reveal_strlit("enrichers");
        lemma_apart_at("endpoints"@, "enrichers"@, 2);
    }
    assert(text_lt("enrichers"@, "projects"@)) by {
        reveal_strlit("enrichers");
        reveal_strlit("projects");
        lemma_apart_at("enrichers"@, "projects"@, 0);
    }
    assert(text_lt("projects"@, "secrets"@)) by {
        reveal_strlit("projects");
        reveal_strlit("secrets");
        lemma_apart_at("projects"@, "secrets"@, 0);
    }
    assert(text_lt("secrets"@, "server.metrics_require_auth"@)) by {
        reveal_strlit("secrets");
        reveal_strlit("server.metrics_require_auth");
        lemma_apart_at("secrets"@, "server.metrics_require_auth"@, 2);
    }
    assert(text_lt("server.metrics_require_auth"@, "server.readyz_require_all_sources"@)) by {
        reveal_strlit("server.metrics_require_auth");
        reveal_strlit("server.readyz_require_all_sources");
        lemma_apart_at("server.metrics_require_auth"@, "server.readyz_require_all_sources"@, 7);
    }
    assert(text_lt("server.readyz_require_all_sources"@, "server.refresh_max_concurrent"@)) by {
        reveal_strlit("server.readyz_require_all_sources");
        reveal_strlit("server.refresh_max_concurrent");
        lemma_apart_at("server.readyz_require_all_sources"@, "server.refresh_max_concurrent"@, 9);
    }
    assert(text_lt("server.refresh_max_concurrent"@, "server.refresh_timeout_seconds"@)) by {
        reveal_strlit("server.refresh_max_concurrent");
        reveal_strlit("server.refresh_timeout_seconds");
        lemma_apart_at("server.refresh_max_concurrent"@, "server.refresh_timeout_seconds"@, 15);
    }
    assert(text_lt("server.refresh_timeout_seconds"@, "server.shutdown_grace_seconds"@)) by {
        reveal_strlit("server.refresh_timeout_seconds");
        reveal_strlit("server.shutdown_grace_seconds");
        lemma_apart_at("server.refresh_timeout_seconds"@, "server.shutdown_grace_seconds"@, 7);
    }
    assert(text_lt("server.shutdown_grace_seconds"@, "sources"@)) by {
        reveal_strlit("server.shutdown_grace_seconds");
        reveal_strlit("sources");
        lemma_apart_at("server.shutdown_grace_seconds"@, "sources"@, 1);
    }
    assert(text_lt("sources"@, "views"@)) by {
        reveal_strlit("sources");
        reveal_strlit("views");
        lemma_apart_at("sources"@, "views"@, 0);
    }
}

proof fn lemma_twelve_in_order(
    c0: bool,
    c1: bool,
    c2: bool,
    c3: bool,
    c4: bool,
    c5: bool,
    c6: bool,
    c7: bool,
    c8: bool,
    c9: bool,
    c10: bool,
    c11: bool,
)
    ensures
        ascending(
            said_if(c0, "credentials"@) + said_if(c1, "endpoints"@) + said_if(c2, "enrichers"@) + said_if(c3, "projects"@) + said_if(c4, "secrets"@) + said_if(c5, "server.metrics_require_auth"@) + said_if(c6, "server.readyz_require_all_sources"@) + said_if(c7, "server.refresh_max_concurrent"@) + said_if(c8, "server.refresh_timeout_seconds"@) + said_if(c9, "server.shutdown_grace_seconds"@) + said_if(c10, "sources"@) + said_if(c11, "views"@),
        ),
{
    lemma_names_in_order();
    let n0 = said_if(c0, "credentials"@);
    lemma_say_first(c0, "credentials"@);
    lemma_say_in_order(n0, "credentials"@, c1, "endpoints"@);
    let n1 = n0 + said_if(c1, "endpoints"@);
    lemma_say_in_order(n1, "endpoints"@, c2, "enrichers"@);
    let n2 = n1 + said_if(c2, "enrichers"@);
    lemma_say_in_order(n2, "enrichers"@, c3, "projects"@);
    let n3 = n2 + said_if(c3, "projects"@);
    lemma_say_in_order(n3, "projects"@, c4, "secrets"@);
    let n4 = n3 + said_if(c4, "secrets"@);
    lemma_say_in_order(n4, "secrets"@, c5, "server.metrics_require_auth"@);
    let n5 = n4 + said_if(c5, "server.metrics_require_auth"@);
    lemma_say_in_order(n5, "server.metrics_require_auth"@, c6, "server.readyz_require_all_sources"@);
    let n6 = n5 + said_if(c6, "server.readyz_require_all_sources"@);
    lemma_say_in_order(n6, "server.readyz_require_all_sources"@, c7, "server.refresh_max_concurrent"@);
    let n7 = n6 + said_if(c7, "server.refresh_max_concurrent"@);
    lemma_say_in_order(n7, "server.refresh_max_concurrent"@, c8, "server.refresh_timeout_seconds"@);
    let n8 = n7 + said_if(c8, "server.refresh_timeout_seconds"@);
    lemma_say_in_order(n8, "server.refresh_timeout_seconds"@, c9, "server.shutdown_grace_seconds"@);
    let n9 = n8 + said_if(c9, "server.shutdown_grace_seconds"@);
    lemma_say_in_order(n9, "server.shutdown_grace_seconds"@, c10, "sources"@);
    let n10 = n9 + said_if(c10, "sources"@);
    lemma_say_in_order(n10, "sources"@, c11, "views"@);
    let n11 = n10 + said_if(c11, "views"@);
    assert(ascending(n11)) by {
        reveal(up_to);
    }
}

/// What a reload says that it adopted comes in ascending order.
pub proof fn law_what_is_adopted_comes_in_order(before: RuntimeConfigModel, after: RuntimeConfigModel)
    ensures
        ascending(applied_names(before, after)),
{
    lemma_twelve_in_order(
        delta(before.credentials, after.credentials) != DeltaModel::nothing(),
        delta(before.endpoints, after.endpoints) != DeltaModel::nothing(),
        delta(before.enrichers, after.enrichers) != DeltaModel::nothing(),
        delta(before.projects, after.projects) != DeltaModel::nothing(),
        before.secrets != after.secrets,
        before.metrics_require_auth != after.metrics_require_auth,
        before.readyz_require_all_sources != after.readyz_require_all_sources,
        before.refresh_max_concurrent != after.refresh_max_concurrent,
        before.refresh_timeout_seconds != after.refresh_timeout_seconds,
        before.shutdown_grace_seconds != after.shutdown_grace_seconds,
        delta(before.sources, after.sources) != DeltaModel::nothing(),
        delta(before.views, after.views) != DeltaModel::nothing(),
    );
}

/// A restart is asked for by the names of the settings that differ, in ascending order.
pub proof fn law_a_restart_is_asked_for_by_name(
    live: RestartOnlySettingsModel,
    next: RestartOnlySettingsModel,
    name: Text,
)
    ensures
        restart_keys(live, next).contains(name) <==> {
            ||| name == "cache.persistence"@ && live.persistence != next.persistence
            ||| name == "projects.dir"@ && live.projects_dir != next.projects_dir
            ||| name == "server.cors_allowed_origins"@ && live.cors_allowed_origins != next.cors_allowed_origins
            ||| name == "server.host"@ && live.host != next.host
            ||| name == "server.port"@ && live.port != next.port
        },
        ascending(restart_keys(live, next)),
{
    let n0 = Seq::<Text>::empty();
    assert(!n0.contains(name));
    lemma_say(n0, live.persistence != next.persistence, "cache.persistence"@, name);
    let n1 = n0 + said_if(live.persistence != next.persistence, "cache.persistence"@);
    lemma_say(n1, live.projects_dir != next.projects_dir, "projects.dir"@, name);
    let n2 = n1 + said_if(live.projects_dir != next.projects_dir, "projects.dir"@);
    lemma_say(n2, live.cors_allowed_origins != next.cors_allowed_origins, "server.cors_allowed_origins"@, name);
    let n3 = n2 + said_if(live.cors_allowed_origins != next.cors_allowed_origins, "server.cors_allowed_origins"@);
    lemma_say(n3, live.host != next.host, "server.host"@, name);
    let n4 = n3 + said_if(live.host != next.host, "server.host"@);
    lemma_say(n4, live.port != next.port, "server.port"@, name);
    let n5 = n4 + said_if(live.port != next.port, "server.port"@);
    assert(n5 =~= restart_keys(live, next));
    reveal_strlit("cache.persistence");
    reveal_strlit("projects.dir");
    reveal_strlit("server.cors_allowed_origins");
    reveal_strlit("server.host");
    reveal_strlit("server.port");
    lemma_apart_at("cache.persistence"@, "projects.dir"@, 0);
    lemma_apart_at("projects.dir"@, "server.cors_allowed_origins"@, 0);
    lemma_apart_at("server.cors_allowed_origins"@, "server.host"@, 7);
    lemma_apart_at("server.host"@, "server.port"@, 7);
    let m1 = said_if(live.persistence != next.persistence, "cache.persistence"@);
    lemma_say_first(live.persistence != next.persistence, "cache.persistence"@);
    lemma_say_in_order(m1, "cache.persistence"@, live.projects_dir != next.projects_dir, "projects.dir"@);
    let m2 = m1 + said_if(live.projects_dir != next.projects_dir, "projects.dir"@);
    lemma_say_in_order(m2, "projects.dir"@, live.cors_allowed_origins != next.cors_allowed_origins, "server.cors_allowed_origins"@);
    let m3 = m2 + said_if(live.cors_allowed_origins != next.cors_allowed_origins, "server.cors_allowed_origins"@);
    lemma_say_in_order(m3, "server.cors_allowed_origins"@, live.host != next.host, "server.host"@);
    let m4 = m3 + said_if(live.host != next.host, "server.host"@);
    lemma_say_in_order(m4, "server.host"@, live.port != next.port, "server.port"@);
    let m5 = m4 + said_if(live.port != next.port, "server.port"@);
    assert(m5 == restart_keys(live, next));
    reveal(up_to);
}

/// What only a restart changes is where the server listens, who may call it from a page,
/// where the cache is kept and where the checkouts are.
pub proof fn law_what_only_a_restart_changes(c: AppConfigModel)
    ensures
        restart_only(c).host == c.server.host,
        restart_only(c).port == c.server.port,
        restart_only(c).cors_allowed_origins == c.server.cors_allowed_origins,
        restart_only(c).persistence == c.cache.persistence,
        restart_only(c).projects_dir == c.projects_config.dir,
{
}

/// What a reload takes over is every section, and the settings of the server that a
/// running process can change.
pub proof fn law_a_reload_takes_over_every_section(c: AppConfigModel)
    ensures
        runtime(c).sources == c.sources,
        runtime(c).credentials == c.credentials,
        runtime(c).views == c.views,
        runtime(c).enrichers == c.enrichers,
        runtime(c).endpoints == c.endpoints,
        runtime(c).projects == c.projects,
        runtime(c).secrets == c.secrets_config,
        runtime(c).readyz_require_all_sources == c.server.readyz_require_all_sources,
        runtime(c).metrics_require_auth == c.server.metrics_require_auth,
        runtime(c).shutdown_grace_seconds == c.server.shutdown_grace_seconds,
        runtime(c).refresh_timeout_seconds == c.server.refresh_timeout_seconds,
        runtime(c).refresh_max_concurrent == c.server.refresh_max_concurrent,
{
}

/// A report has what became of each section; and asks for a restart only of a process that
/// knows what it was started with.
pub proof fn law_a_report_tells_of_each_section(
    before: RuntimeConfigModel,
    after: RuntimeConfigModel,
    cfg: AppConfigModel,
    live: Option<RestartOnlySettingsModel>,
    generation: int,
)
    ensures
        ({
            let told = report(before, after, cfg, live, generation);
            &&& told.generation == generation
            &&& told.sources == delta(before.sources, after.sources)
            &&& told.views == delta(before.views, after.views)
            &&& told.enrichers == delta(before.enrichers, after.enrichers)
            &&& told.endpoints == delta(before.endpoints, after.endpoints)
            &&& told.projects == delta(before.projects, after.projects)
            &&& told.credentials == delta(before.credentials, after.credentials)
            &&& told.applied == applied_names(before, after)
            &&& live is None ==> told.restart_required.len() == 0
            &&& live is Some ==> told.restart_required == restart_keys(live->0, restart_only(cfg))
        }),
{
}

/// After a reload the refreshes have the limits of the new configuration: at least one at
/// a time. Where the limits are as they were, nothing of them changes.
pub proof fn law_the_limits_follow_the_configuration(
    limits: CoordinatorModel,
    before: RuntimeConfigModel,
    after: RuntimeConfigModel,
)
    ensures
        ({
            let then = limits_after(limits, before, after);
            let same = before.refresh_max_concurrent == after.refresh_max_concurrent && before.refresh_timeout_seconds
                == after.refresh_timeout_seconds;
            &&& same ==> then == limits
            &&& !same ==> then.timeout_seconds == after.refresh_timeout_seconds
            &&& !same && after.refresh_max_concurrent >= 1 ==> then.permits == after.refresh_max_concurrent
            &&& !same && after.refresh_max_concurrent == 0 ==> then.permits == 1
            &&& then == (CoordinatorModel { permits: then.permits, timeout_seconds: then.timeout_seconds, ..limits })
        }),
{
}

/// A source is run with its script where that is found and with the programs of its
/// project; all else is as it is configured, and a source that is reached over SSH is left
/// alone.
pub proof fn law_a_source_is_run_as_configured(
    source: SourceModel,
    projects_dir: Text,
    files: Set<Text>,
    dirs: Set<Text>,
)
    ensures
        ({
            let run = as_run(source, projects_dir, files, dirs);
            &&& source.connector_type is Ssh ==> run == source
            &&& !(source.connector_type is Ssh) ==> run.script_path == script_found(
                projects_dir,
                source.project_id,
                source.script_path,
                files,
            ) && run.config == with_venv(source.config, projects_dir, source.project_id, dirs)
            &&& run == (SourceModel { script_path: run.script_path, config: run.config, ..source })
        }),
{
}

/// What is left alone when a part of the state is replaced is everything else.
pub proof fn law_the_rest_of_the_state_is_kept(state: AppState, before: AppState)
    requires
        state.kept(before),
        state@ == before@,
    ensures
        state.cache == before.cache,
        state.reload == before.reload,
        state.projects_dir == before.projects_dir,
        state.sync_health == before.sync_health,
        state.enrich_health == before.enrich_health,
        state.project_health == before.project_health,
        state.snapshot_health == before.snapshot_health,
        state.refresh == before.refresh,
        state.syncs == before.syncs,
        state.config.deep_view() == before.config.deep_view(),
        state.live_settings.deep_view() == before.live_settings.deep_view(),
        state.restart_pending.deep_view() == before.restart_pending.deep_view(),
{
}

/// A service that asks for every source is ready when each of them is cached; any other
/// when something is.
pub proof fn law_a_service_is_ready_when_it_has_something(entries: Map<Text, EntryView>, config: RuntimeConfigModel)
    requires
        entries.dom().finite(),
    ensures
        config.readyz_require_all_sources ==> (ready(entries, config) <==> forall|id: Text| #[trigger]
            config.sources.contains_key(id) ==> entries.contains_key(id)),
        !config.readyz_require_all_sources ==> (ready(entries, config) <==> exists|id: Text| #[trigger]
            entries.contains_key(id)),
{
    if config.readyz_require_all_sources {
        if forall|id: Text| #[trigger] config.sources.contains_key(id) ==> entries.contains_key(id) {
            assert forall|id: Text| config.sources.dom().contains(id) implies entries.dom().contains(id) by {
                assert(config.sources.contains_key(id));
            }
        }
        if ready(entries, config) {
            assert forall|id: Text| #[trigger] config.sources.contains_key(id) implies entries.contains_key(id) by {
                assert(entries.dom().contains(id));
            }
        }
    } else {
        if entries.dom().len() > 0 {
            let id = entries.dom().choose();
            assert(entries.dom().contains(id));
            assert(entries.contains_key(id));
        } else {
            assert(entries.dom() =~= Set::empty());
            assert forall|id: Text| !(#[trigger] entries.contains_key(id)) by {
                assert(!entries.dom().contains(id));
            }
        }
    }
}

/// The files are read where each can be; else the first that cannot is told of.
pub proof fn law_the_first_file_that_fails_is_told_of(files: ConfigFiles)
    ensures
        files.server_file is Err ==> files.error() == Some(files.server_file->Err_0@),
        files.server_file is Ok && files.credentials is Err ==> files.error() == Some(files.credentials->Err_0@),
        files.server_file is Ok && files.credentials is Ok && files.sources is Err ==> files.error() == Some(files.sources->Err_0@),
        files.server_file is Ok && files.credentials is Ok && files.sources is Ok && files.views is Err ==> files.error() == Some(files.views->Err_0@),
        files.server_file is Ok && files.credentials is Ok && files.sources is Ok && files.views is Ok && files.enrichers is Err ==> files.error() == Some(files.enrichers->Err_0@),
        files.server_file is Ok && files.credentials is Ok && files.sources is Ok && files.views is Ok && files.enrichers is Ok && files.projects is Err ==> files.error() == Some(files.projects->Err_0@),
        files.server_file is Ok && files.credentials is Ok && files.sources is Ok && files.views is Ok && files.enrichers is Ok && files.projects is Ok && files.endpoints is Err ==> files.error() == Some(files.endpoints->Err_0@),
        files.server_file is Ok && files.credentials is Ok && files.sources is Ok && files.views is Ok && files.enrichers is Ok && files.projects is Ok && files.endpoints is Ok && files.api_keys is Err ==> files.error() == Some(files.api_keys->Err_0@),
        files.server_file is Ok && files.credentials is Ok && files.sources is Ok && files.views is Ok && files.enrichers is Ok && files.projects is Ok && files.endpoints is Ok && files.api_keys is Ok ==> files.error() is None,
{
}

/// The configuration is what each file says; a file that is not there says nothing.
pub proof fn law_each_file_says_its_section(files: ConfigFiles)
    requires
        files.error() is None,
    ensures
        files.config().server == files.server_file->Ok_0.server.deep_view(),
        files.config().cache == files.server_file->Ok_0.cache.deep_view(),
        files.config().projects_config == files.server_file->Ok_0.projects.deep_view(),
        files.config().secrets_config == files.server_file->Ok_0.secrets.deep_view(),
        files.credentials matches Ok(Some(map)) ==> files.config().credentials == map@,
        files.credentials matches Ok(None) ==> files.config().credentials == Map::<Text, CredentialModel>::empty(),
        files.sources matches Ok(Some(map)) ==> files.config().sources == map@,
        files.sources matches Ok(None) ==> files.config().sources == Map::<Text, SourceModel>::empty(),
        files.views matches Ok(Some(map)) ==> files.config().views == map@,
        files.views matches Ok(None) ==> files.config().views == Map::<Text, ViewModel>::empty(),
        files.enrichers matches Ok(Some(map)) ==> files.config().enrichers == map@,
        files.enrichers matches Ok(None) ==> files.config().enrichers == Map::<Text, EnricherModel>::empty(),
        files.projects matches Ok(Some(map)) ==> files.config().projects == map@,
        files.projects matches Ok(None) ==> files.config().projects == Map::<Text, GitProjectModel>::empty(),
        files.endpoints matches Ok(Some(map)) ==> files.config().endpoints == map@,
        files.endpoints matches Ok(None) ==> files.config().endpoints == Map::<Text, OutputEndpointModel>::empty(),
        files.api_keys matches Ok(Some(map)) ==> files.config().api_keys == map@,
        files.api_keys matches Ok(None) ==> files.config().api_keys == Map::<Text, ApiKeyDefModel>::empty(),
{
}

/// A service that nothing was said of has no sections and no keys, and the settings that
/// hold where nothing says otherwise.
pub proof fn law_a_service_begins_with_nothing(builder: AppBuilder)
    requires
        builder.untouched(),
    ensures
        builder.sources@ == Map::<Text, SourceModel>::empty(),
        builder.credentials@ == Map::<Text, CredentialModel>::empty(),
        builder.views@ == Map::<Text, ViewModel>::empty(),
        builder.enrichers@ == Map::<Text, EnricherModel>::empty(),
        builder.endpoints@ == Map::<Text, OutputEndpointModel>::empty(),
        builder.projects@ == Map::<Text, GitProjectModel>::empty(),
        builder.secrets_settings.deep_view().cache_ttl_seconds == 60,
        builder.secrets_settings.deep_view().vault is None,
        !builder.readyz_require_all_sources,
        !builder.metrics_require_auth,
        builder.shutdown_grace_seconds == 20,
        builder.refresh_timeout_seconds == 15,
        builder.refresh_max_concurrent == 8,
        builder.projects_dir@ == "projects"@,
        builder.secrets is None,
        builder.config_store is None,
        builder.live_settings is None,
        builder.api_keys@.len() == 0,
        builder.project_health@ == Map::<Text, RecordView>::empty(),
        builder.cors_allowed_origins@.len() == 0,
{
    let r = builder.runtime();
    assert(builder.sources@ == r.sources);
    assert(builder.secrets_settings.deep_view() == r.secrets);
}

/// What a service is built with is what its builder was told.
pub proof fn law_a_service_runs_what_it_was_told(builder: AppBuilder)
    ensures
        builder.runtime().sources == builder.sources@,
        builder.runtime().credentials == builder.credentials@,
        builder.runtime().views == builder.views@,
        builder.runtime().enrichers == builder.enrichers@,
        builder.runtime().endpoints == builder.endpoints@,
        builder.runtime().projects == builder.projects@,
        builder.runtime().secrets == builder.secrets_settings.deep_view(),
        builder.runtime().readyz_require_all_sources == builder.readyz_require_all_sources,
        builder.runtime().metrics_require_auth == builder.metrics_require_auth,
        builder.runtime().shutdown_grace_seconds == builder.shutdown_grace_seconds,
        builder.runtime().refresh_timeout_seconds == builder.refresh_timeout_seconds,
        builder.runtime().refresh_max_concurrent == builder.refresh_max_concurrent,
{
}

} // verus!
