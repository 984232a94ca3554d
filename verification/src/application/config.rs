//! Adopting a configuration without a restart.

#[allow(unused_imports)]
use crate::application::refresh::{at_least_one, CoordinatorModel};
#[allow(unused_imports)]
use crate::config::{restart_keys, restart_only, said_if, AppConfigModel, RestartOnlySettingsModel};
use crate::config::{say_if, AppConfig, RestartOnlySettings};
use crate::model::{Dup, Same};
use crate::state::{AppState, RuntimeConfig};
#[allow(unused_imports)]
use crate::state::{runtime, AppStateModel, RuntimeConfigModel};
#[allow(unused_imports)]
use crate::strmap::{ascending, lemma_prefix_step, lemma_prefix_whole, lemma_sorted, lemma_sorted_is, sorted};
use crate::strmap::StrMap;
#[allow(unused_imports)]
use crate::text::Text;
use vstd::prelude::*;

verus! {

/// What changed in one section of the configuration, by id.
#[derive(Clone, Debug, PartialEq, Eq)]
pub struct SectionDelta {
    pub added: Vec<String>,
    pub removed: Vec<String>,
    pub changed: Vec<String>,
}

/// What a [`SectionDelta`] holds.
#[verifier::ext_equal]
pub struct DeltaModel {
    pub added: Seq<Text>,
    pub removed: Seq<Text>,
    pub changed: Seq<Text>,
}

impl DeepView for SectionDelta {
    type V = DeltaModel;

    open spec fn deep_view(&self) -> DeltaModel {
        DeltaModel {
            added: self.added.deep_view(),
            removed: self.removed.deep_view(),
            changed: self.changed.deep_view(),
        }
    }
}

/// The ids of one section that another does not have.
pub open spec fn ids_only_in<M>(a: Map<Text, M>, b: Map<Text, M>) -> Set<Text> {
    a.dom().filter(|id: Text| !b.contains_key(id))
}

/// The ids that both sections have, for different things.
pub open spec fn ids_differing<M>(a: Map<Text, M>, b: Map<Text, M>) -> Set<Text> {
    a.dom().filter(|id: Text| b.contains_key(id) && b[id] != a[id])
}

/// What changed from one section to another, in ascending order of the ids.
pub open spec fn delta<M>(before: Map<Text, M>, after: Map<Text, M>) -> DeltaModel {
    DeltaModel {
        added: sorted(ids_only_in(after, before)),
        removed: sorted(ids_only_in(before, after)),
        changed: sorted(ids_differing(after, before)),
    }
}

impl DeltaModel {
    /// Nothing changed.
    pub open spec fn nothing() -> DeltaModel {
        DeltaModel { added: Seq::empty(), removed: Seq::empty(), changed: Seq::empty() }
    }

    /// How many ids changed.
    pub open spec fn total(self) -> nat {
        self.added.len() + self.removed.len() + self.changed.len()
    }
}

/// An ascending run of keys, of which some were picked in order, is picked whole.
proof fn lemma_picked(dom: Set<Text>, picked: Seq<Text>, wanted: Set<Text>)
    requires
        ascending(picked),
        forall|id: Text| #[trigger] picked.contains(id) <==> wanted.contains(id),
    ensures
        picked == sorted(wanted),
{
    assert forall|id: Text| picked.to_set().contains(id) <==> wanted.contains(id) by {
        assert(picked.contains(id) <==> wanted.contains(id));
    }
    assert(picked.to_set() =~= wanted);
    lemma_sorted_is(picked);
}

/// The next key of an ascending run may follow what was picked of the run before it.
proof fn lemma_pick(keys: Seq<Text>, i: int, picked: Seq<Text>)
    requires
        ascending(keys),
        0 <= i < keys.len(),
        ascending(picked),
        forall|k: int| 0 <= k < picked.len() ==> keys.take(i).contains(#[trigger] picked[k]),
    ensures
        ascending(picked.push(keys[i])),
        forall|k: int|
            0 <= k < picked.len() + 1 ==> keys.take(i + 1).contains(#[trigger] picked.push(keys[i])[k]),
        forall|id: Text| #[trigger]
            picked.push(keys[i]).contains(id) <==> picked.contains(id) || id == keys[i],
{
    let next = picked.push(keys[i]);
    lemma_prefix_step(keys, i);
    assert forall|a: int, b: int| #![trigger next[a], next[b]] 0 <= a < b < next.len() implies crate::text::text_lt(
        next[a],
        next[b],
    ) by {
        if b == picked.len() {
            let earlier = keys.take(i);
            assert(earlier.contains(picked[a]));
            let j = choose|j: int| 0 <= j < earlier.len() && earlier[j] == picked[a];
            assert(keys[j] == picked[a]);
        }
    }
    assert forall|id: Text| #[trigger] next.contains(id) <==> picked.contains(id) || id == keys[i] by {
        if picked.contains(id) {
            let j = choose|j: int| 0 <= j < picked.len() && picked[j] == id;
            assert(next[j] == id);
        }
        assert(next[picked.len() as int] == keys[i]);
    }
}

proof fn lemma_keep(keys: Seq<Text>, i: int, picked: Seq<Text>)
    requires
        0 <= i < keys.len(),
        forall|k: int| 0 <= k < picked.len() ==> keys.take(i).contains(#[trigger] picked[k]),
    ensures
        forall|k: int| 0 <= k < picked.len() ==> keys.take(i + 1).contains(#[trigger] picked[k]),
{
    lemma_prefix_step(keys, i);
}

fn only_in<T: Same>(a: &StrMap<T>, b: &StrMap<T>) -> (ids: Vec<String>)
    ensures
        ids.deep_view() == sorted(ids_only_in(a@, b@)),
{
    let mut ids: Vec<String> = Vec::new();
    let n: usize = a.len();
    let ghost keys = sorted(a@.dom());
    proof {
        lemma_sorted(a@.dom());
    }
    let mut i: usize = 0;
    while i < n
        invariant
            i <= n == keys.len(),
            keys == sorted(a@.dom()),
            ascending(keys),
            ascending(ids.deep_view()),
            forall|k: int|
                0 <= k < ids.deep_view().len() ==> keys.take(i as int).contains(#[trigger] ids.deep_view()[k]),
            forall|id: Text| #[trigger]
                ids.deep_view().contains(id) <==> keys.take(i as int).contains(id) && !b@.contains_key(id),
        decreases n - i,
    {
        let id: &String = a.key_at(i);
        let ghost before = ids.deep_view();
        proof {
            lemma_prefix_step(keys, i as int);
            lemma_pick(keys, i as int, before);
            lemma_keep(keys, i as int, before);
        }
        if !b.contains_key(id.as_str()) {
            ids.push(id.clone());
            assert(ids.deep_view() =~= before.push(keys[i as int]));
        }
        i += 1;
    }
    proof {
        lemma_prefix_whole(a@.dom());
        lemma_picked(a@.dom(), ids.deep_view(), ids_only_in(a@, b@));
    }
    ids
}

fn differing<T: Same>(a: &StrMap<T>, b: &StrMap<T>) -> (ids: Vec<String>)
    ensures
        ids.deep_view() == sorted(ids_differing(a@, b@)),
{
    let mut ids: Vec<String> = Vec::new();
    let n: usize = a.len();
    let ghost keys = sorted(a@.dom());
    proof {
        lemma_sorted(a@.dom());
    }
    let mut i: usize = 0;
    while i < n
        invariant
            i <= n == keys.len(),
            keys == sorted(a@.dom()),
            ascending(keys),
            ascending(ids.deep_view()),
            forall|k: int|
                0 <= k < ids.deep_view().len() ==> keys.take(i as int).contains(#[trigger] ids.deep_view()[k]),
            forall|id: Text| #[trigger]
                ids.deep_view().contains(id) <==> keys.take(i as int).contains(id) && b@.contains_key(id) && b@[id]
                    != a@[id],
        decreases n - i,
    {
        let id: &String = a.key_at(i);
        let ghost before = ids.deep_view();
        proof {
            lemma_prefix_step(keys, i as int);
            lemma_pick(keys, i as int, before);
            lemma_keep(keys, i as int, before);
        }
        if let Some(other) = b.get(id.as_str()) {
            if !other.same(a.value_at(i)) {
                ids.push(id.clone());
                assert(ids.deep_view() =~= before.push(keys[i as int]));
            }
        }
        i += 1;
    }
    proof {
        lemma_prefix_whole(a@.dom());
        lemma_picked(a@.dom(), ids.deep_view(), ids_differing(a@, b@));
    }
    ids
}

impl SectionDelta {
    /// What changed from one section to another.
    pub fn between<T: Same>(before: &StrMap<T>, after: &StrMap<T>) -> (found: Self)
        ensures
            found.deep_view() == delta(before@, after@),
    {
        SectionDelta {
            added: only_in(after, before),
            removed: only_in(before, after),
            changed: differing(after, before),
        }
    }

    /// Whether nothing changed.
    pub fn is_empty(&self) -> (empty: bool)
        ensures
            empty == (self.deep_view() == DeltaModel::nothing()),
    {
        proof {
            assert(self.deep_view().added.len() == self.added@.len());
            assert(self.deep_view().removed.len() == self.removed@.len());
            assert(self.deep_view().changed.len() == self.changed@.len());
            if self.added@.len() == 0 && self.removed@.len() == 0 && self.changed@.len() == 0 {
                assert(self.deep_view() =~= DeltaModel::nothing());
            }
        }
        self.added.len() == 0 && self.removed.len() == 0 && self.changed.len() == 0
    }

    /// How many ids changed.
    pub fn total(&self) -> (count: usize)
        requires
            self.added@.len() + self.removed@.len() + self.changed@.len() <= usize::MAX,
        ensures
            count == self.deep_view().total(),
    {
        self.added.len() + self.removed.len() + self.changed.len()
    }
}

impl Default for SectionDelta {
    fn default() -> (value: Self)
        ensures
            value.deep_view() == DeltaModel::nothing(),
    {
        let value = SectionDelta { added: Vec::new(), removed: Vec::new(), changed: Vec::new() };
        assert(value.deep_view() =~= DeltaModel::nothing());
        value
    }
}

/// What a reload did, or would do.
#[derive(Clone, Debug, PartialEq, Eq)]
pub struct ReloadReport {
    /// How often the configuration has been reloaded.
    pub generation: u64,
    /// The sections and settings that changed and are adopted, in ascending order.
    pub applied: Vec<String>,
    /// The settings that changed and need a restart, in ascending order.
    pub restart_required: Vec<String>,
    pub sources: SectionDelta,
    pub views: SectionDelta,
    pub enrichers: SectionDelta,
    pub endpoints: SectionDelta,
    pub projects: SectionDelta,
    pub credentials: SectionDelta,
}

/// What a [`ReloadReport`] says.
#[verifier::ext_equal]
pub struct ReportModel {
    pub generation: int,
    pub applied: Seq<Text>,
    pub restart_required: Seq<Text>,
    pub sources: DeltaModel,
    pub views: DeltaModel,
    pub enrichers: DeltaModel,
    pub endpoints: DeltaModel,
    pub projects: DeltaModel,
    pub credentials: DeltaModel,
}

impl DeepView for ReloadReport {
    type V = ReportModel;

    open spec fn deep_view(&self) -> ReportModel {
        ReportModel {
            generation: self.generation as int,
            applied: self.applied.deep_view(),
            restart_required: self.restart_required.deep_view(),
            sources: self.sources.deep_view(),
            views: self.views.deep_view(),
            enrichers: self.enrichers.deep_view(),
            endpoints: self.endpoints.deep_view(),
            projects: self.projects.deep_view(),
            credentials: self.credentials.deep_view(),
        }
    }
}

impl Default for ReloadReport {
    fn default() -> (value: Self)
        ensures
            value.deep_view() == (ReportModel {
                generation: 0,
                applied: Seq::empty(),
                restart_required: Seq::empty(),
                sources: DeltaModel::nothing(),
                views: DeltaModel::nothing(),
                enrichers: DeltaModel::nothing(),
                endpoints: DeltaModel::nothing(),
                projects: DeltaModel::nothing(),
                credentials: DeltaModel::nothing(),
            }),
    {
        let value = ReloadReport {
            generation: 0,
            applied: Vec::new(),
            restart_required: Vec::new(),
            sources: SectionDelta::default(),
            views: SectionDelta::default(),
            enrichers: SectionDelta::default(),
            endpoints: SectionDelta::default(),
            projects: SectionDelta::default(),
            credentials: SectionDelta::default(),
        };
        assert(value.deep_view().applied =~= Seq::empty());
        assert(value.deep_view().restart_required =~= Seq::empty());
        value
    }
}

impl ReloadReport {
    /// Whether anything was adopted.
    pub fn changed_anything(&self) -> (changed: bool)
        ensures
            changed == (self.applied@.len() > 0),
    {
        self.applied.len() > 0
    }
}

/// The sections and settings that differ between two configurations, in ascending
/// order.
pub open spec fn applied_names(before: RuntimeConfigModel, after: RuntimeConfigModel) -> Seq<Text> {
    said_if(delta(before.credentials, after.credentials) != DeltaModel::nothing(), "credentials"@)
        + said_if(delta(before.endpoints, after.endpoints) != DeltaModel::nothing(), "endpoints"@)
        + said_if(delta(before.enrichers, after.enrichers) != DeltaModel::nothing(), "enrichers"@)
        + said_if(delta(before.projects, after.projects) != DeltaModel::nothing(), "projects"@)
        + said_if(before.secrets != after.secrets, "secrets"@)
        + said_if(before.metrics_require_auth != after.metrics_require_auth, "server.metrics_require_auth"@)
        + said_if(
        before.readyz_require_all_sources != after.readyz_require_all_sources,
        "server.readyz_require_all_sources"@,
    ) + said_if(before.refresh_max_concurrent != after.refresh_max_concurrent, "server.refresh_max_concurrent"@)
        + said_if(before.refresh_timeout_seconds != after.refresh_timeout_seconds, "server.refresh_timeout_seconds"@)
        + said_if(before.shutdown_grace_seconds != after.shutdown_grace_seconds, "server.shutdown_grace_seconds"@)
        + said_if(delta(before.sources, after.sources) != DeltaModel::nothing(), "sources"@)
        + said_if(delta(before.views, after.views) != DeltaModel::nothing(), "views"@)
}

/// What a reload from one configuration to another does.
pub open spec fn report(
    before: RuntimeConfigModel,
    after: RuntimeConfigModel,
    cfg: AppConfigModel,
    live: Option<RestartOnlySettingsModel>,
    generation: int,
) -> ReportModel {
    ReportModel {
        generation,
        applied: applied_names(before, after),
        restart_required: match live {
            Some(settings) => restart_keys(settings, restart_only(cfg)),
            None => Seq::empty(),
        },
        sources: delta(before.sources, after.sources),
        views: delta(before.views, after.views),
        enrichers: delta(before.enrichers, after.enrichers),
        endpoints: delta(before.endpoints, after.endpoints),
        projects: delta(before.projects, after.projects),
        credentials: delta(before.credentials, after.credentials),
    }
}

/// The limits of refreshes after a reload: those of the new configuration, where it
/// says something else than the one before.
pub open spec fn limits_after(
    limits: CoordinatorModel,
    before: RuntimeConfigModel,
    after: RuntimeConfigModel,
) -> CoordinatorModel {
    if before.refresh_max_concurrent != after.refresh_max_concurrent || before.refresh_timeout_seconds
        != after.refresh_timeout_seconds {
        CoordinatorModel {
            permits: at_least_one(after.refresh_max_concurrent),
            timeout_seconds: after.refresh_timeout_seconds,
            ..limits
        }
    } else {
        limits
    }
}

/// The part of a configuration that is adopted without a restart.
pub fn runtime_config(cfg: &AppConfig) -> (config: RuntimeConfig)
    ensures
        config.deep_view() == runtime(cfg.deep_view()),
{
    RuntimeConfig {
        sources: cfg.sources.dup(),
        credentials: cfg.credentials.dup(),
        views: cfg.views.dup(),
        enrichers: cfg.enrichers.dup(),
        endpoints: cfg.endpoints.dup(),
        projects: cfg.projects.dup(),
        secrets: cfg.secrets_config.dup(),
        readyz_require_all_sources: cfg.server.readyz_require_all_sources,
        metrics_require_auth: cfg.server.metrics_require_auth,
        shutdown_grace_seconds: cfg.server.shutdown_grace_seconds,
        refresh_timeout_seconds: cfg.server.refresh_timeout_seconds,
        refresh_max_concurrent: cfg.server.refresh_max_concurrent,
    }
}

/// What a reload from one configuration to another does. The settings that the
/// process was built from decide what needs a restart.
pub fn diff(
    previous: &RuntimeConfig,
    next: &RuntimeConfig,
    cfg: &AppConfig,
    live: &Option<RestartOnlySettings>,
) -> (found: ReloadReport)
    ensures
        found.deep_view() == report(
            previous.deep_view(),
            next.deep_view(),
            cfg.deep_view(),
            live.deep_view(),
            0,
        ),
{
    let sources = SectionDelta::between(&previous.sources, &next.sources);
    let views = SectionDelta::between(&previous.views, &next.views);
    let enrichers = SectionDelta::between(&previous.enrichers, &next.enrichers);
    let endpoints = SectionDelta::between(&previous.endpoints, &next.endpoints);
    let projects = SectionDelta::between(&previous.projects, &next.projects);
    let credentials = SectionDelta::between(&previous.credentials, &next.credentials);
    let mut applied: Vec<String> = Vec::new();
    say_if(&mut applied, !credentials.is_empty(), "credentials");
    say_if(&mut applied, !endpoints.is_empty(), "endpoints");
    say_if(&mut applied, !enrichers.is_empty(), "enrichers");
    say_if(&mut applied, !projects.is_empty(), "projects");
    say_if(&mut applied, !previous.secrets.same(&next.secrets), "secrets");
    say_if(
        &mut applied,
        previous.metrics_require_auth != next.metrics_require_auth,
        "server.metrics_require_auth",
    );
    say_if(
        &mut applied,
        previous.readyz_require_all_sources != next.readyz_require_all_sources,
        "server.readyz_require_all_sources",
    );
    say_if(
        &mut applied,
        previous.refresh_max_concurrent != next.refresh_max_concurrent,
        "server.refresh_max_concurrent",
    );
    say_if(
        &mut applied,
        previous.refresh_timeout_seconds != next.refresh_timeout_seconds,
        "server.refresh_timeout_seconds",
    );
    say_if(
        &mut applied,
        previous.shutdown_grace_seconds != next.shutdown_grace_seconds,
        "server.shutdown_grace_seconds",
    );
    say_if(&mut applied, !sources.is_empty(), "sources");
    say_if(&mut applied, !views.is_empty(), "views");
    assert(applied.deep_view() =~= applied_names(previous.deep_view(), next.deep_view()));
    let restart_required: Vec<String> = match live {
        Some(settings) => settings.changed_keys(&RestartOnlySettings::from_config(cfg)),
        None => Vec::new(),
    };
    assert(live is None ==> restart_required.deep_view() =~= Seq::empty());
    ReloadReport {
        generation: 0,
        applied,
        restart_required,
        sources,
        views,
        enrichers,
        endpoints,
        projects,
        credentials,
    }
}

/// What a reload would do. Nothing is changed.
pub fn pending(state: &AppState, cfg: &AppConfig) -> (found: ReloadReport)
    ensures
        found.deep_view() == report(
            state@.config,
            runtime(cfg.deep_view()),
            cfg.deep_view(),
            state@.live_settings,
            0,
        ),
{
    diff(state.config(), &runtime_config(cfg), cfg, state.live_settings())
}

/// Adopts a configuration: the running part is swapped, the limits of refreshes
/// follow where they changed, what needs a restart is remembered, and the generation
/// is the next.
pub fn apply(state: &mut AppState, cfg: &AppConfig) -> (found: ReloadReport)
    requires
        old(state).reload@ < u64::MAX,
    ensures
        found.deep_view() == report(
            old(state)@.config,
            runtime(cfg.deep_view()),
            cfg.deep_view(),
            old(state)@.live_settings,
            old(state).reload@ + 1,
        ),
        final(state)@ == (AppStateModel {
            config: runtime(cfg.deep_view()),
            restart_pending: found.deep_view().restart_required,
            ..old(state)@
        }),
        final(state).reload@ == old(state).reload@ + 1,
        final(state).refresh@ == limits_after(
            old(state).refresh@,
            old(state)@.config,
            runtime(cfg.deep_view()),
        ),
        final(state).refresh.wf() == old(state).refresh.wf(),
        final(state).kept(
            AppState { reload: final(state).reload, refresh: final(state).refresh, ..*old(state) },
        ),
{
    let next = runtime_config(cfg);
    let mut found = diff(state.config(), &next, cfg, state.live_settings());
    if state.config().refresh_max_concurrent != next.refresh_max_concurrent
        || state.config().refresh_timeout_seconds != next.refresh_timeout_seconds {
        state.refresh.resize(next.refresh_max_concurrent, next.refresh_timeout_seconds);
    }
    state.swap_config(next);
    state.set_restart_pending(found.restart_required.dup());
    found.generation = state.reload.bump();
    found
}

} // verus!
