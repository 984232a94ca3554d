//! Adding variables to inventories that are cached.

#[allow(unused_imports)]
use crate::application::scripts::{script_found, with_venv};
use crate::application::scripts::{resolve_script_path, venv_bin_dir};
#[allow(unused_imports)]
use crate::application::sync::recorded;
use crate::application::sync::record_attempt;
#[allow(unused_imports)]
use crate::clock::{is_reading, nanos};
use crate::clock::read_clock;
use crate::domain::cache_entry::contains_string;
#[allow(unused_imports)]
use crate::domain::cache_entry::EntryView;
#[allow(unused_imports)]
use crate::domain::dataset::{DatasetView, GroupView, VarsView};
use crate::domain::dataset::{Dataset, Group, HostVars};
use crate::domain::enricher::Enricher;
#[allow(unused_imports)]
use crate::domain::enricher::EnricherModel;
use crate::domain::sync_health::SyncHealthRegistry;
use crate::model::Dup;
use crate::ports::cache::CachePort;
use crate::ports::enricher::EnricherError;
use crate::ports::venv::VENV_BIN_CONFIG_KEY;
#[allow(unused_imports)]
use crate::strmap::{lemma_prefix_step, lemma_prefix_whole, sorted};
use crate::strmap::{StrMap, StrSet};
#[allow(unused_imports)]
use crate::text::{decimal_text, Text};
use crate::text::{cat3, decimal, str_eq};
use std::sync::Arc;
use std::time::Instant;
use vstd::prelude::*;

verus! {

/// What became of a run of an enricher.
#[derive(Clone, Debug, PartialEq, Eq)]
pub struct EnrichOutcome {
    pub hosts_updated: usize,
    pub hosts_removed: usize,
    pub duration_ms: u128,
    pub error: Option<String>,
}

/// What an [`EnrichOutcome`] says.
#[verifier::ext_equal]
pub struct EnrichModel {
    pub hosts_updated: int,
    pub hosts_removed: int,
    pub duration_ms: int,
    pub error: Option<Text>,
}

impl DeepView for EnrichOutcome {
    type V = EnrichModel;

    open spec fn deep_view(&self) -> EnrichModel {
        EnrichModel {
            hosts_updated: self.hosts_updated as int,
            hosts_removed: self.hosts_removed as int,
            duration_ms: self.duration_ms as int,
            error: self.error.deep_view(),
        }
    }
}

impl EnrichModel {
    /// The run changed nothing, since it failed.
    pub open spec fn failed(duration_ms: int, error: Text) -> EnrichModel {
        EnrichModel { hosts_updated: 0, hosts_removed: 0, duration_ms, error: Some(error) }
    }
}

impl EnrichOutcome {
    /// Whether the run succeeded.
    pub fn success(&self) -> (ok: bool)
        ensures
            ok == (self.error is None),
    {
        self.error.is_none()
    }

    fn failed(duration_ms: u128, error: String) -> (outcome: Self)
        ensures
            outcome.deep_view() == EnrichModel::failed(duration_ms as int, error@),
    {
        EnrichOutcome { hosts_updated: 0, hosts_removed: 0, duration_ms, error: Some(error) }
    }
}

/// A name is taken: it is not excluded, and where there is a list of what is taken,
/// it is in it.
pub open spec fn admitted(name: Text, allowed: Option<Seq<Text>>, excluded: Option<Seq<Text>>) -> bool {
    &&& !(excluded matches Some(names) && names.contains(name))
    &&& (allowed matches Some(names) ==> names.contains(name))
}

/// Whether a name is taken: it is not excluded, and where there is a list of what is
/// taken, it is in it.
pub fn admits(name: &str, allowed: &Option<Vec<String>>, excluded: &Option<Vec<String>>) -> (taken: bool)
    ensures
        taken == admitted(name@, allowed.deep_view(), excluded.deep_view()),
{
    if let Some(names) = excluded {
        if contains_string(names, name) {
            return false;
        }
    }
    match allowed {
        Some(names) => contains_string(names, name),
        None => true,
    }
}

/// The variables that are taken.
pub open spec fn selection(vars: VarsView, fields: Option<Seq<Text>>, excluded: Option<Seq<Text>>) -> VarsView {
    vars.restrict(vars.dom().filter(|k: Text| admitted(k, fields, excluded)))
}

/// The variables that are taken.
pub fn selected(vars: &HostVars, fields: &Option<Vec<String>>, excluded: &Option<Vec<String>>) -> (wanted: HostVars)
    ensures
        wanted@ == selection(vars@, fields.deep_view(), excluded.deep_view()),
{
    let ghost allow = fields.deep_view();
    let ghost deny = excluded.deep_view();
    let mut wanted: HostVars = StrMap::new();
    let n: usize = vars.len();
    let ghost keys = sorted(vars@.dom());
    let mut i: usize = 0;
    while i < n
        invariant
            i <= n == keys.len(),
            keys == sorted(vars@.dom()),
            allow == fields.deep_view(),
            deny == excluded.deep_view(),
            forall|k: Text| #[trigger]
                wanted@.contains_key(k) <==> keys.take(i as int).contains(k) && admitted(k, allow, deny),
            forall|k: Text| #[trigger] wanted@.contains_key(k) ==> wanted@[k] == vars@[k],
        decreases n - i,
    {
        let key: &String = vars.key_at(i);
        proof {
            lemma_prefix_step(keys, i as int);
        }
        if admits(key.as_str(), fields, excluded) {
            wanted.insert(key.clone(), vars.value_at(i).dup());
        }
        i += 1;
    }
    proof {
        lemma_prefix_whole(vars@.dom());
        assert(wanted@ =~= selection(vars@, allow, deny));
    }
    wanted
}

/// What an enricher takes for a host of the target.
pub open spec fn host_gains(source: DatasetView, e: EnricherModel, host: Text) -> VarsView {
    selection(source.hostvars[host], e.fields, e.fields_excluded)
}

/// What an enricher takes for the hosts of the target: of each host that the source
/// knows too, its variables there, where any are taken.
pub open spec fn hosts_gain(target: DatasetView, source: DatasetView, e: EnricherModel) -> Map<Text, VarsView> {
    Map::new(
        |h: Text|
            target.hostvars.contains_key(h) && source.hostvars.contains_key(h) && host_gains(source, e, h).dom().len()
                > 0,
        |h: Text| host_gains(source, e, h),
    )
}

/// What an enricher takes for a group.
pub open spec fn group_gains(source: DatasetView, e: EnricherModel, group: Text) -> VarsView {
    match source.groups[group].vars {
        Some(vars) => selection(vars, e.fields, e.fields_excluded),
        None => Map::empty(),
    }
}

/// What an enricher takes for groups: of each group of the source that is taken, its
/// variables, where any are taken. The group of all hosts comes with the hosts of the
/// target; any other comes without hosts, since the target decides who is in it.
pub open spec fn groups_gain(target: DatasetView, source: DatasetView, e: EnricherModel) -> Map<Text, GroupView> {
    Map::new(
        |g: Text|
            source.groups.contains_key(g) && admitted(g, e.groups, e.groups_excluded) && group_gains(
                source,
                e,
                g,
            ).dom().len() > 0,
        |g: Text|
            GroupView {
                hosts: if g == "all"@ {
                    sorted(target.hostvars.dom())
                } else {
                    Seq::empty()
                },
                children: Seq::empty(),
                vars: Some(group_gains(source, e, g)),
            },
    )
}

fn hosts_for_target(target: &Dataset, source: &Dataset, enricher: &Enricher) -> (partial: StrMap<HostVars>)
    ensures
        partial@ == hosts_gain(target@, source@, enricher.deep_view()),
{
    let ghost e = enricher.deep_view();
    let mut partial: StrMap<HostVars> = StrMap::new();
    let n: usize = target.hostvars.len();
    let ghost hosts = sorted(target@.hostvars.dom());
    let mut i: usize = 0;
    while i < n
        invariant
            i <= n == hosts.len(),
            hosts == sorted(target.hostvars@.dom()),
            e == enricher.deep_view(),
            forall|h: Text| #[trigger]
                partial@.contains_key(h) <==> hosts.take(i as int).contains(h) && source@.hostvars.contains_key(h)
                    && host_gains(source@, e, h).dom().len() > 0,
            forall|h: Text| #[trigger] partial@.contains_key(h) ==> partial@[h] == host_gains(source@, e, h),
        decreases n - i,
    {
        let host: &String = target.hostvars.key_at(i);
        proof {
            lemma_prefix_step(hosts, i as int);
        }
        if let Some(vars) = source.hostvars.get(host.as_str()) {
            let owned = selected(vars, &enricher.fields, &enricher.fields_excluded);
            if !owned.is_empty() {
                partial.insert(host.clone(), owned);
            }
        }
        i += 1;
    }
    proof {
        lemma_prefix_whole(target@.hostvars.dom());
        assert(partial@ =~= hosts_gain(target@, source@, e));
    }
    partial
}

fn host_names(dataset: &Dataset) -> (names: Vec<String>)
    ensures
        names.deep_view() == sorted(dataset@.hostvars.dom()),
{
    let mut names: Vec<String> = Vec::new();
    let n: usize = dataset.hostvars.len();
    let ghost hosts = sorted(dataset@.hostvars.dom());
    let mut i: usize = 0;
    while i < n
        invariant
            i <= n == hosts.len(),
            hosts == sorted(dataset.hostvars@.dom()),
            names.deep_view() == hosts.take(i as int),
        decreases n - i,
    {
        let ghost before = names.deep_view();
        names.push(dataset.hostvars.key_at(i).clone());
        assert(names.deep_view() =~= before.push(hosts[i as int]));
        assert(hosts.take(i + 1) =~= hosts.take(i as int).push(hosts[i as int]));
        i += 1;
    }
    assert(hosts.take(n as int) =~= hosts);
    names
}

/// What an enricher takes for the groups of the target.
pub fn group_vars_for_target(target: &Dataset, source: &Dataset, enricher: &Enricher) -> (partial: StrMap<Group>)
    ensures
        partial@ == groups_gain(target@, source@, enricher.deep_view()),
{
    let ghost e = enricher.deep_view();
    let mut partial: StrMap<Group> = StrMap::new();
    let n: usize = source.groups.len();
    let ghost names = sorted(source@.groups.dom());
    let mut i: usize = 0;
    while i < n
        invariant
            i <= n == names.len(),
            names == sorted(source.groups@.dom()),
            e == enricher.deep_view(),
            forall|g: Text| #[trigger]
                partial@.contains_key(g) <==> names.take(i as int).contains(g) && groups_gain(
                    target@,
                    source@,
                    e,
                ).contains_key(g),
            forall|g: Text| #[trigger]
                partial@.contains_key(g) ==> partial@[g] == groups_gain(target@, source@, e)[g],
        decreases n - i,
    {
        let name: &String = source.groups.key_at(i);
        proof {
            lemma_prefix_step(names, i as int);
        }
        let group = source.groups.value_at(i);
        assert(group.deep_view() == source@.groups[name@]);
        if admits(name.as_str(), &enricher.groups, &enricher.groups_excluded) {
            if let Some(vars) = &group.vars {
                let wanted = selected(vars, &enricher.fields, &enricher.fields_excluded);
                if !wanted.is_empty() {
                    let hosts: Vec<String> = if str_eq(name.as_str(), "all") {
                        host_names(target)
                    } else {
                        Vec::new()
                    };
                    let gained = Group { hosts, children: Vec::new(), vars: Some(wanted) };
                    assert(gained.deep_view() =~= groups_gain(target@, source@, e)[name@]);
                    partial.insert(name.clone(), gained);
                }
            }
        }
        i += 1;
    }
    proof {
        lemma_prefix_whole(source@.groups.dom());
        assert forall|g: Text| groups_gain(target@, source@, e).contains_key(g) implies source@.groups.contains_key(
            g,
        ) by {}
        assert(partial@ =~= groups_gain(target@, source@, e));
    }
    partial
}

/// An entry with what an enricher takes from another.
pub open spec fn enriched(target: EntryView, source: EntryView, e: EnricherModel) -> EntryView {
    target.with_group_vars(
        DatasetView {
            hostvars: Map::empty(),
            groups: groups_gain(target.dataset, source.dataset, e),
            remove_hosts: Seq::empty(),
        },
    ).with_fields(
        DatasetView {
            hostvars: hosts_gain(target.dataset, source.dataset, e),
            groups: Map::empty(),
            remove_hosts: Seq::empty(),
        },
    )
}

/// Why a source cannot be merged into its target.
pub open spec fn merge_error(entries: Map<Text, EntryView>, e: EnricherModel) -> Option<Text> {
    match e.source_id {
        None => Some("declarative enricher missing source_id"@),
        Some(source) => if entries.contains_key(source) {
            None
        } else {
            Some("source '"@ + source + "' not in cache"@)
        },
    }
}

/// Merges what an enricher takes from another source into its target. There is no
/// outcome where the target is not cached; the duration is left for the caller to
/// measure.
pub fn execute_declarative_merge<C: CachePort>(cache: &mut C, enricher: &Enricher) -> (outcome: Option<EnrichOutcome>)
    ensures
        ({
            let before = old(cache).entries();
            let e = enricher.deep_view();
            match outcome {
                None => e.source_id is Some && !before.contains_key(e.target_id) && final(cache).entries() == before,
                Some(o) => (e.source_id is Some ==> before.contains_key(e.target_id)) && match merge_error(before, e) {
                    Some(error) => o.deep_view() == EnrichModel::failed(0, error) && final(cache).entries() == before,
                    None => o.deep_view() == (EnrichModel {
                        hosts_updated: hosts_gain(
                            before[e.target_id].dataset,
                            before[e.source_id->0].dataset,
                            e,
                        ).dom().len() as int,
                        hosts_removed: 0,
                        duration_ms: 0,
                        error: None,
                    }) && final(cache).entries() == before.insert(
                        e.target_id,
                        enriched(before[e.target_id], before[e.source_id->0], e),
                    ),
                },
            }
        }),
{
    let source_id = match &enricher.source_id {
        Some(id) => id,
        None => return Some(
            EnrichOutcome::failed(0, "declarative enricher missing source_id".to_owned()),
        ),
    };
    let mut target = match cache.get(enricher.target_id.as_str()) {
        Some(entry) => entry,
        None => return None,
    };
    let source = match cache.get(source_id.as_str()) {
        Some(entry) => entry,
        None => return Some(
            EnrichOutcome::failed(0, cat3("source '", source_id.as_str(), "' not in cache")),
        ),
    };
    let hosts = hosts_for_target(target.dataset(), source.dataset(), enricher);
    let groups = group_vars_for_target(target.dataset(), source.dataset(), enricher);
    let hosts_updated: usize = hosts.len();
    let for_groups = Dataset { hostvars: StrMap::new(), groups, remove_hosts: Vec::new() };
    let for_hosts = Dataset { hostvars: hosts, groups: StrMap::new(), remove_hosts: Vec::new() };
    assert(for_groups@.remove_hosts =~= Seq::empty());
    assert(for_hosts@.remove_hosts =~= Seq::empty());
    target.merge_group_var_fields(for_groups);
    target.merge_hostvar_fields(for_hosts);
    cache.set(enricher.target_id.as_str(), target);
    Some(EnrichOutcome { hosts_updated, hosts_removed: 0, duration_ms: 0, error: None })
}

/// What the script of an enricher is to be run with.
pub struct ScriptRun {
    pub script_path: String,
    pub config: StrMap<String>,
    /// The inventory of the target, shared with the cache.
    pub dataset: Arc<Dataset>,
}

/// How a run of a script enricher goes on.
pub enum EnrichStart {
    /// The target is not cached.
    NotCached,
    /// There is no script.
    Refused(EnrichOutcome),
    /// The script is to be run.
    Run(ScriptRun),
}

/// Where the script of an enricher is. One that names a project has it in the checkout.
pub open spec fn enricher_script(e: EnricherModel, script_path: Text, projects_dir: Text, files: Set<Text>) -> Text {
    match e.project_id {
        Some(project) => script_found(projects_dir, project, script_path, files),
        None => script_path,
    }
}

/// The configuration that the script of an enricher is handed.
pub open spec fn enricher_config(
    e: EnricherModel,
    projects_dir: Text,
    dirs: Set<Text>,
    trigger: Option<Text>,
) -> Map<Text, Text> {
    let config = match e.project_id {
        Some(project) => with_venv(e.config, projects_dir, project, dirs),
        None => e.config,
    };
    match trigger {
        Some(who) => config.insert("trigger"@, who),
        None => config,
    }
}

/// Begins a run of a script enricher. The files and directories are those that there
/// are, and the trigger says who asked.
pub fn begin_enricher<C: CachePort>(
    cache: &C,
    projects_dir: &str,
    enricher: &Enricher,
    trigger: &Option<String>,
    files: &StrSet,
    dirs: &StrSet,
) -> (start: EnrichStart)
    ensures
        ({
            let e = enricher.deep_view();
            match start {
                EnrichStart::NotCached => !cache.entries().contains_key(e.target_id),
                EnrichStart::Refused(outcome) => cache.entries().contains_key(e.target_id) && e.script_path is None
                    && outcome.deep_view() == EnrichModel::failed(0, "script-based enricher missing script_path"@),
                EnrichStart::Run(run) => {
                    &&& cache.entries().contains_key(e.target_id)
                    &&& e.script_path is Some
                    &&& run.script_path@ == enricher_script(e, e.script_path->0, projects_dir@, files@)
                    &&& run.config@ == enricher_config(e, projects_dir@, dirs@, trigger.deep_view())
                    &&& run.dataset.deep_view() == cache.entries()[e.target_id].dataset
                },
            }
        }),
{
    let entry = match cache.get(enricher.target_id.as_str()) {
        Some(entry) => entry,
        None => return EnrichStart::NotCached,
    };
    let configured = match &enricher.script_path {
        Some(path) => path,
        None => return EnrichStart::Refused(
            EnrichOutcome::failed(0, "script-based enricher missing script_path".to_owned()),
        ),
    };
    let mut config = enricher.config.dup();
    let script_path = match &enricher.project_id {
        Some(project) => {
            if let Some(bin) = venv_bin_dir(projects_dir, project.as_str(), dirs) {
                config.insert(VENV_BIN_CONFIG_KEY.to_owned(), bin);
            }
            resolve_script_path(projects_dir, project.as_str(), configured.as_str(), files)
        },
        None => configured.clone(),
    };
    if let Some(who) = trigger {
        config.insert("trigger".to_owned(), who.clone());
    }
    EnrichStart::Run(ScriptRun { script_path, config, dataset: entry.share_dataset() })
}

/// What came of running the script of an enricher.
pub enum Enrichment {
    /// It did not end in time.
    TimedOut,
    /// It failed.
    Failed(EnricherError),
    /// It brought something.
    Partial(Dataset),
}

/// Why the script of an enricher brought nothing.
pub open spec fn enrichment_error(enrichment: Enrichment, e: EnricherModel) -> Option<Text> {
    match enrichment {
        Enrichment::TimedOut => Some(
            "enricher timed out after "@ + decimal_text(e.timeout_seconds as nat) + "s"@,
        ),
        Enrichment::Failed(error) => Some(error.message@),
        Enrichment::Partial(_) => None,
    }
}

/// Ends a run of a script enricher: merges what it brought into the target, where that
/// is still cached, and says what became of it. No host that was known counts as
/// gathered for it.
pub fn complete_enricher<C: CachePort>(
    cache: &mut C,
    enricher: &Enricher,
    enrichment: Enrichment,
    duration_ms: u128,
) -> (outcome: EnrichOutcome)
    ensures
        match enrichment_error(enrichment, enricher.deep_view()) {
            Some(error) => outcome.deep_view() == EnrichModel::failed(duration_ms as int, error)
                && final(cache).entries() == old(cache).entries(),
            None => enrichment matches Enrichment::Partial(partial) && outcome.deep_view() == (EnrichModel {
                hosts_updated: partial@.hostvars.dom().len() as int,
                hosts_removed: partial@.remove_hosts.len() as int,
                duration_ms: duration_ms as int,
                error: None,
            }) && exists|now: Instant|
                is_reading(now) && final(cache).entries() == (if old(cache).entries().contains_key(enricher.target_id@) {
                    old(cache).entries().insert(
                        enricher.target_id@,
                        old(cache).entries()[enricher.target_id@].merged(partial@, false, #[trigger] nanos(now)),
                    )
                } else {
                    old(cache).entries()
                }),
        },
{
    let partial = match enrichment {
        Enrichment::TimedOut => return EnrichOutcome::failed(
            duration_ms,
            cat3("enricher timed out after ", decimal(enricher.timeout_seconds).as_str(), "s"),
        ),
        Enrichment::Failed(error) => return EnrichOutcome::failed(duration_ms, error.message),
        Enrichment::Partial(partial) => partial,
    };
    let hosts_updated: usize = partial.hostvars.len();
    let hosts_removed: usize = partial.remove_hosts.len();
    assert(partial@.remove_hosts.len() == hosts_removed);
    let now = read_clock();
    let ghost moment = nanos(now);
    if let Some(mut entry) = cache.get(enricher.target_id.as_str()) {
        entry.merge_at(partial, false, now);
        cache.set(enricher.target_id.as_str(), entry);
    }
    EnrichOutcome { hosts_updated, hosts_removed, duration_ms, error: None }
}

/// What is recorded of a run of an enricher.
pub open spec fn enricher_record(e: EnricherModel, outcome: Option<EnrichModel>) -> Option<Text> {
    match outcome {
        None => Some("target '"@ + e.target_id + "' is not in the cache"@),
        Some(o) => o.error,
    }
}

/// Records how a run of an enricher went. A run that had no target is a failure too.
pub fn settle_enricher(
    health: &mut SyncHealthRegistry,
    enricher_id: &str,
    enricher: &Enricher,
    outcome: &Option<EnrichOutcome>,
)
    ensures
        exists|now: Instant|
            is_reading(now) && recorded(
                old(health)@,
                final(health)@,
                enricher_id@,
                enricher_record(enricher.deep_view(), outcome.deep_view()),
                #[trigger] nanos(now),
            ),
{
    match outcome {
        None => {
            let error: Option<String> = Some(
                cat3("target '", enricher.target_id.as_str(), "' is not in the cache"),
            );
            record_attempt(health, enricher_id, &error);
        },
        Some(o) => record_attempt(health, enricher_id, &o.error),
    }
}

/// The enrichers of a target.
pub open spec fn targeting(enrichers: Map<Text, EnricherModel>, target: Text) -> spec_fn(Text) -> bool {
    |id: Text| enrichers[id].target_id == target
}

/// The enrichers of a target, in ascending order of their ids: the order in which they
/// are run, so that of two that set the same variable the later one decides.
pub fn enrichers_for_target(enrichers: &StrMap<Enricher>, target_id: &str) -> (ids: Vec<String>)
    ensures
        ids.deep_view() == sorted(enrichers@.dom()).filter(targeting(enrichers@, target_id@)),
{
    let mut ids: Vec<String> = Vec::new();
    let n: usize = enrichers.len();
    let ghost keys = sorted(enrichers@.dom());
    let ghost matching = targeting(enrichers@, target_id@);
    let mut i: usize = 0;
    proof {
        reveal(Seq::filter);
        assert(ids.deep_view() =~= keys.take(0).filter(matching));
    }
    while i < n
        invariant
            i <= n == keys.len(),
            keys == sorted(enrichers@.dom()),
            matching == targeting(enrichers@, target_id@),
            ids.deep_view() == keys.take(i as int).filter(matching),
        decreases n - i,
    {
        let ghost before = ids.deep_view();
        proof {
            reveal(Seq::filter);
            assert(keys.take(i + 1).drop_last() =~= keys.take(i as int));
        }
        if str_eq(enrichers.value_at(i).target_id.as_str(), target_id) {
            ids.push(enrichers.key_at(i).clone());
            assert(ids.deep_view() =~= before.push(keys[i as int]));
        }
        i += 1;
    }
    assert(keys.take(n as int) =~= keys);
    ids
}

} // verus!
