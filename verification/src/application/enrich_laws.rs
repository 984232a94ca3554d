//! What enrichers can and cannot do.

#[allow(unused_imports)]
use crate::application::enrich::{
    admitted, enricher_config, enricher_record, enricher_script, enriched, enrichment_error, group_gains, groups_gain,
    host_gains, hosts_gain, merge_error, selection, targeting, EnrichModel, EnrichOutcome, Enrichment,
};
#[allow(unused_imports)]
use crate::application::scripts::script_found;
#[allow(unused_imports)]
use crate::domain::cache_entry::EntryView;
#[allow(unused_imports)]
use crate::domain::cache_laws::lemma_filter_holds;
#[allow(unused_imports)]
use crate::domain::dataset::{DatasetView, VarsView};
#[allow(unused_imports)]
use crate::domain::enricher::EnricherModel;
#[allow(unused_imports)]
use crate::strmap::{ascending, lemma_sorted, sorted};
#[allow(unused_imports)]
use crate::text::{decimal_text, text_lt, Text};
use vstd::prelude::*;

verus! {

/// What is excluded is not taken, even where it is listed too; without a list, all else
/// is; with an empty list, nothing.
pub proof fn law_an_exclusion_beats_an_inclusion(name: Text, allowed: Option<Seq<Text>>, excluded: Option<Seq<Text>>)
    ensures
        excluded is Some && excluded->0.contains(name) ==> !admitted(name, allowed, excluded),
        allowed is None && excluded is None ==> admitted(name, allowed, excluded),
        allowed is Some && allowed->0.len() == 0 ==> !admitted(name, allowed, excluded),
        allowed is Some && !allowed->0.contains(name) ==> !admitted(name, allowed, excluded),
{
}

/// Without lists every variable is taken, and with a list only what it names; a
/// variable that is taken has the value that it has in the source.
pub proof fn law_a_selection_takes_what_is_named(
    vars: VarsView,
    fields: Option<Seq<Text>>,
    excluded: Option<Seq<Text>>,
    key: Text,
)
    ensures
        fields is None && excluded is None ==> selection(vars, fields, excluded) == vars,
        selection(vars, fields, excluded).contains_key(key) <==> vars.contains_key(key) && admitted(
            key,
            fields,
            excluded,
        ),
        selection(vars, fields, excluded).contains_key(key) ==> selection(vars, fields, excluded)[key] == vars[key],
{
    if fields is None && excluded is None {
        assert(selection(vars, fields, excluded) =~= vars);
    }
}

/// Only variables cross from one source to another: no host comes or goes, nobody
/// joins or leaves a group that is there, and nothing counts as gathered for it.
pub proof fn law_only_variables_cross(target: EntryView, source: EntryView, e: EnricherModel, group: Text)
    ensures
        ({
            let after = enriched(target, source, e);
            &&& after.dataset.hostvars.dom() == target.dataset.hostvars.dom()
            &&& after.stamps == target.stamps
            &&& after.fetched_at == target.fetched_at
            &&& after.complete == target.complete
            &&& after.ttl == target.ttl
            &&& target.dataset.groups.contains_key(group) ==> after.dataset.groups.contains_key(group)
                && after.dataset.groups[group].hosts == target.dataset.groups[group].hosts
                && after.dataset.groups[group].children == target.dataset.groups[group].children
        }),
{
    let after = enriched(target, source, e);
    assert(after.dataset.hostvars.dom() =~= target.dataset.hostvars.dom());
}

/// A group that the target does not have is created with the variables and without
/// hosts; only the group of all hosts comes with those of the target.
pub proof fn law_a_new_group_comes_without_hosts(target: EntryView, source: EntryView, e: EnricherModel, group: Text)
    requires
        !target.dataset.groups.contains_key(group),
    ensures
        ({
            let after = enriched(target, source, e);
            let gains = groups_gain(target.dataset, source.dataset, e);
            &&& after.dataset.groups.contains_key(group) <==> gains.contains_key(group)
            &&& after.dataset.groups.contains_key(group) ==> {
                &&& after.dataset.groups[group].vars == Some(group_gains(source.dataset, e, group))
                &&& after.dataset.groups[group].hosts == (if group == "all"@ {
                    sorted(target.dataset.hostvars.dom())
                } else {
                    Seq::empty()
                })
            }
        }),
{
}

/// What the source says of a group stays on the group: no host of the target gets a
/// variable that the source does not have on that host.
pub proof fn law_group_variables_stay_on_the_group(
    target: EntryView,
    source: EntryView,
    e: EnricherModel,
    host: Text,
    key: Text,
)
    requires
        target.dataset.hostvars.contains_key(host),
        !(source.dataset.hostvars.contains_key(host) && source.dataset.hostvars[host].contains_key(key)),
    ensures
        ({
            let after = enriched(target, source, e).dataset.hostvars[host];
            &&& after.contains_key(key) == target.dataset.hostvars[host].contains_key(key)
            &&& after.contains_key(key) ==> after[key] == target.dataset.hostvars[host][key]
        }),
{
}

/// A host that both sources know has every variable that is taken, as the source has it.
pub proof fn law_a_host_gets_what_is_taken(
    target: EntryView,
    source: EntryView,
    e: EnricherModel,
    host: Text,
    key: Text,
)
    requires
        target.dataset.hostvars.contains_key(host),
        source.dataset.hostvars.contains_key(host),
        source.dataset.hostvars[host].dom().finite(),
        source.dataset.hostvars[host].contains_key(key),
        admitted(key, e.fields, e.fields_excluded),
    ensures
        enriched(target, source, e).dataset.hostvars[host].contains_key(key),
        enriched(target, source, e).dataset.hostvars[host][key] == source.dataset.hostvars[host][key],
{
    let gains = host_gains(source.dataset, e, host);
    let all = source.dataset.hostvars[host];
    assert(gains.contains_key(key));
    assert(gains.dom().subset_of(all.dom()));
    vstd::set_lib::lemma_set_subset_finite(all.dom(), gains.dom());
    assert(gains.dom().len() > 0) by {
        if gains.dom().len() == 0 {
            assert(gains.dom().is_empty());
            assert(!gains.dom().contains(key));
        }
    }
    assert(hosts_gain(target.dataset, source.dataset, e).contains_key(host));
}

/// A name is taken where no list excludes it and, where there is a list of those to take,
/// that has it.
pub proof fn law_a_name_is_taken_by_the_lists(name: Text, allowed: Option<Seq<Text>>, excluded: Option<Seq<Text>>)
    ensures
        admitted(name, allowed, excluded) <==> (excluded is None || !excluded->0.contains(name)) && (allowed is None
            || allowed->0.contains(name)),
{
}

/// After an enricher a host has the variables that it had; and over them those of the
/// source that the enricher takes, where the source knows the host. It has no other, and
/// no other host has come.
pub proof fn law_an_enriched_host_has_both(
    target: EntryView,
    source: EntryView,
    e: EnricherModel,
    host: Text,
    key: Text,
)
    requires
        source.dataset.hostvars.contains_key(host) ==> source.dataset.hostvars[host].dom().finite(),
    ensures
        ({
            let was = target.dataset.hostvars;
            let has = enriched(target, source, e).dataset.hostvars;
            let given = source.dataset.hostvars.contains_key(host) && source.dataset.hostvars[host].contains_key(key)
                && (e.fields_excluded is None || !e.fields_excluded->0.contains(key)) && (e.fields is None
                || e.fields->0.contains(key));
            &&& has.contains_key(host) <==> was.contains_key(host)
            &&& was.contains_key(host) ==> (has[host].contains_key(key) <==> was[host].contains_key(key) || given)
            &&& was.contains_key(host) && given ==> has[host][key] == source.dataset.hostvars[host][key]
            &&& was.contains_key(host) && was[host].contains_key(key) && !given ==> has[host][key] == was[host][key]
        }),
{
    if target.dataset.hostvars.contains_key(host) && source.dataset.hostvars.contains_key(host) {
        let gains = host_gains(source.dataset, e, host);
        vstd::set_lib::lemma_set_subset_finite(source.dataset.hostvars[host].dom(), gains.dom());
        if gains.contains_key(key) {
            assert(gains.dom().contains(key));
            assert(gains.dom().len() > 0) by {
                if gains.dom().len() == 0 {
                    assert(gains.dom() =~= Set::empty());
                }
            }
        }
    }
}

/// After an enricher a group has the variables that it had; and over them those that the
/// source has of a group of that name, where the enricher takes the group and the
/// variable. It has no other.
pub proof fn law_an_enriched_group_has_both(
    target: EntryView,
    source: EntryView,
    e: EnricherModel,
    group: Text,
    key: Text,
)
    requires
        source.dataset.groups.contains_key(group) && source.dataset.groups[group].vars is Some
            ==> source.dataset.groups[group].vars->0.dom().finite(),
    ensures
        ({
            let was = target.dataset.groups;
            let has = enriched(target, source, e).dataset.groups;
            let had = was.contains_key(group) && was[group].vars is Some && was[group].vars->0.contains_key(key);
            let given = source.dataset.groups.contains_key(group) && source.dataset.groups[group].vars is Some
                && source.dataset.groups[group].vars->0.contains_key(key) && (e.groups_excluded is None
                || !e.groups_excluded->0.contains(group)) && (e.groups is None || e.groups->0.contains(group)) && (
            e.fields_excluded is None || !e.fields_excluded->0.contains(key)) && (e.fields is None
                || e.fields->0.contains(key));
            let now_has = has.contains_key(group) && has[group].vars is Some && has[group].vars->0.contains_key(key);
            &&& now_has <==> had || given
            &&& given ==> has[group].vars->0[key] == source.dataset.groups[group].vars->0[key]
            &&& had && !given ==> has[group].vars->0[key] == was[group].vars->0[key]
            &&& has.contains_key(group) && !was.contains_key(group) ==> has[group].children.len() == 0
            &&& has.contains_key(group) && !was.contains_key(group) && group != "all"@ ==> has[group].hosts.len() == 0
            &&& has.contains_key(group) && !was.contains_key(group) && group == "all"@ ==> has[group].hosts == sorted(
                target.dataset.hostvars.dom(),
            )
        }),
{
    if source.dataset.groups.contains_key(group) && source.dataset.groups[group].vars is Some {
        let gains = group_gains(source.dataset, e, group);
        vstd::set_lib::lemma_set_subset_finite(source.dataset.groups[group].vars->0.dom(), gains.dom());
        if gains.contains_key(key) {
            assert(gains.dom().contains(key));
            assert(gains.dom().len() > 0) by {
                if gains.dom().len() == 0 {
                    assert(gains.dom() =~= Set::empty());
                }
            }
        }
    }
}

/// A host counts as updated where the source has a variable for it that is taken.
pub proof fn law_a_host_counts_where_it_gets_something(
    target: DatasetView,
    source: DatasetView,
    e: EnricherModel,
    host: Text,
)
    requires
        source.hostvars.contains_key(host) ==> source.hostvars[host].dom().finite(),
    ensures
        hosts_gain(target, source, e).contains_key(host) <==> target.hostvars.contains_key(host)
            && source.hostvars.contains_key(host) && exists|key: Text| #[trigger]
            source.hostvars[host].contains_key(key) && (e.fields_excluded is None || !e.fields_excluded->0.contains(
                key,
            )) && (e.fields is None || e.fields->0.contains(key)),
{
    if source.hostvars.contains_key(host) {
        let gains = host_gains(source, e, host);
        vstd::set_lib::lemma_set_subset_finite(source.hostvars[host].dom(), gains.dom());
        assert forall|key: Text| gains.contains_key(key) <==> source.hostvars[host].contains_key(key) && (
        e.fields_excluded is None || !e.fields_excluded->0.contains(key)) && (e.fields is None
            || e.fields->0.contains(key)) by {}
        if gains.dom().len() > 0 {
            let key = gains.dom().choose();
            assert(gains.dom().contains(key));
            assert(source.hostvars[host].contains_key(key));
        } else {
            assert(gains.dom() =~= Set::empty());
            assert forall|key: Text| #[trigger] source.hostvars[host].contains_key(key) && (e.fields_excluded is None
                || !e.fields_excluded->0.contains(key)) && (e.fields is None || e.fields->0.contains(key)) implies false by {
                assert(gains.contains_key(key));
                assert(gains.dom().contains(key));
            }
        }
    }
}

/// What a merge of two cached inventories is refused for: that it names no source, or one
/// that is not cached.
pub proof fn law_a_merge_needs_its_source(entries: Map<Text, EntryView>, e: EnricherModel)
    ensures
        merge_error(entries, e) is None <==> e.source_id is Some && entries.contains_key(e.source_id->0),
        e.source_id is None ==> merge_error(entries, e) == Some("declarative enricher missing source_id"@),
        e.source_id is Some && !entries.contains_key(e.source_id->0) ==> merge_error(entries, e) == Some(
            "source '"@ + e.source_id->0 + "' not in cache"@,
        ),
{
}

/// A script of an enricher without a project is the file that is configured; one with a
/// project is looked for in the checkout.
pub proof fn law_a_script_is_found_by_the_project(
    e: EnricherModel,
    script_path: Text,
    projects_dir: Text,
    files: Set<Text>,
)
    ensures
        e.project_id is None ==> enricher_script(e, script_path, projects_dir, files) == script_path,
        e.project_id is Some ==> enricher_script(e, script_path, projects_dir, files) == script_found(
            projects_dir,
            e.project_id->0,
            script_path,
            files,
        ),
{
}

/// A script is told what is configured, who set it off, and where its interpreter is: each
/// setting but these two is as it is configured.
pub proof fn law_a_script_is_told_its_settings(
    e: EnricherModel,
    projects_dir: Text,
    dirs: Set<Text>,
    trigger: Option<Text>,
    key: Text,
)
    ensures
        ({
            let told = enricher_config(e, projects_dir, dirs, trigger);
            &&& trigger is Some ==> told.contains_key("trigger"@) && told["trigger"@] == trigger->0
            &&& trigger is None && e.project_id is None ==> told == e.config
            &&& key != "trigger"@ && key != "python_venv_bin"@ ==> (told.contains_key(key) <==> e.config.contains_key(key))
            &&& key != "trigger"@ && key != "python_venv_bin"@ && e.config.contains_key(key) ==> told[key] == e.config[key]
        }),
{
}

/// An enricher fails where it times out or its script does; and says which.
pub proof fn law_an_enricher_that_failed_says_why(enrichment: Enrichment, e: EnricherModel)
    ensures
        enrichment_error(enrichment, e) is None <==> enrichment is Partial,
        enrichment is TimedOut ==> enrichment_error(enrichment, e) == Some(
            "enricher timed out after "@ + decimal_text(e.timeout_seconds as nat) + "s"@,
        ),
        enrichment is Failed ==> enrichment_error(enrichment, e) == Some(enrichment->Failed_0.message@),
{
}

/// A run counts as failed where its outcome has an error or its target is not cached.
pub proof fn law_a_run_is_recorded_as_it_went(e: EnricherModel, outcome: Option<EnrichModel>)
    ensures
        outcome is Some ==> enricher_record(e, outcome) == outcome->0.error,
        outcome is None ==> enricher_record(e, outcome) == Some("target '"@ + e.target_id + "' is not in the cache"@),
{
}

/// A failed run has updated nothing and removed nothing.
pub proof fn law_a_failed_run_counts_nothing(duration_ms: int, error: Text)
    ensures
        EnrichModel::failed(duration_ms, error).hosts_updated == 0,
        EnrichModel::failed(duration_ms, error).hosts_removed == 0,
        EnrichModel::failed(duration_ms, error).duration_ms == duration_ms,
        EnrichModel::failed(duration_ms, error).error == Some(error),
{
}

/// The enrichers of a target are all those that name it, in the order of their names.
pub proof fn law_the_enrichers_of_a_target_are_those_that_name_it(
    enrichers: Map<Text, EnricherModel>,
    target: Text,
    id: Text,
)
    requires
        enrichers.dom().finite(),
    ensures
        ({
            let ids = sorted(enrichers.dom()).filter(targeting(enrichers, target));
            &&& ids.contains(id) <==> enrichers.contains_key(id) && enrichers[id].target_id == target
            &&& ascending(ids)
        }),
{
    let all = sorted(enrichers.dom());
    let named = targeting(enrichers, target);
    lemma_sorted(enrichers.dom());
    assert(all.to_set().contains(id) <==> all.contains(id));
    lemma_filter_holds(all, named, id);
    lemma_filter_ascending(all, named);
}

proof fn lemma_filter_ascending(all: Seq<Text>, p: spec_fn(Text) -> bool)
    requires
        ascending(all),
    ensures
        ascending(all.filter(p)),
    decreases all.len(),
{
    reveal(Seq::filter);
    if all.len() > 0 {
        let rest = all.drop_last();
        lemma_filter_ascending(rest, p);
        let before = rest.filter(p);
        assert forall|i: int| 0 <= i < before.len() implies text_lt(#[trigger] before[i], all.last()) by {
            assert(before.contains(before[i]));
            lemma_filter_holds(rest, p, before[i]);
            let k = choose|k: int| 0 <= k < rest.len() && rest[k] == before[i];
            assert(all[k] == before[i]);
        }
    }
}

/// What a run is known by shows each of its numbers and its error.
pub proof fn law_an_outcome_shows_every_field(outcome: EnrichOutcome)
    ensures
        outcome.deep_view().hosts_updated == outcome.hosts_updated,
        outcome.deep_view().hosts_removed == outcome.hosts_removed,
        outcome.deep_view().duration_ms == outcome.duration_ms,
        outcome.deep_view().error is Some <==> outcome.error is Some,
        outcome.error is Some ==> outcome.deep_view().error->0 == outcome.error->0@,
{
}

} // verus!
