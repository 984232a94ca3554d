//! What a running process knows: its configuration, and what it was built from.

use crate::application::refresh::RefreshCoordinator;
use crate::application::scripts::{resolve_script_path, venv_bin_dir};
#[allow(unused_imports)]
use crate::application::scripts::{script_found, with_venv};
use crate::application::sync::SyncCoordinator;
use crate::config::{RestartOnlySettings, SecretsConfig};
#[allow(unused_imports)]
use crate::config::{AppConfigModel, RestartOnlySettingsModel, SecretsConfigModel};
use crate::domain::credential::Credential;
#[allow(unused_imports)]
use crate::domain::credential::CredentialModel;
use crate::domain::endpoint::OutputEndpoint;
#[allow(unused_imports)]
use crate::domain::endpoint::OutputEndpointModel;
use crate::domain::enricher::Enricher;
#[allow(unused_imports)]
use crate::domain::enricher::EnricherModel;
use crate::domain::project::GitProject;
#[allow(unused_imports)]
use crate::domain::project::GitProjectModel;
#[allow(unused_imports)]
use crate::domain::cache_entry::EntryView;
use crate::domain::source::{ConnectorType, Source};
#[allow(unused_imports)]
use crate::domain::source::SourceModel;
use crate::domain::sync_health::SyncHealthRegistry;
#[allow(unused_imports)]
use crate::domain::sync_health::RecordView;
use crate::domain::view::View;
#[allow(unused_imports)]
use crate::domain::view::ViewModel;
use crate::model::{Dup, Same};
#[allow(unused_imports)]
use crate::ports::cache::CachePort;
use crate::ports::cache::MemoryCache;
use crate::ports::venv::VENV_BIN_CONFIG_KEY;
use crate::strmap::{StrMap, StrSet};
#[allow(unused_imports)]
use crate::text::Text;
use vstd::prelude::*;
#[allow(unused_imports)]
use vstd::view::View as _;

verus! {

/// The part of the configuration that a running process adopts without a restart.
#[derive(Debug, PartialEq)]
pub struct RuntimeConfig {
    pub sources: StrMap<Source>,
    pub credentials: StrMap<Credential>,
    pub views: StrMap<View>,
    pub enrichers: StrMap<Enricher>,
    pub endpoints: StrMap<OutputEndpoint>,
    pub projects: StrMap<GitProject>,
    pub secrets: SecretsConfig,
    /// Ready only once every source has been synced.
    pub readyz_require_all_sources: bool,
    /// Whether the metrics need a key.
    pub metrics_require_auth: bool,
    pub shutdown_grace_seconds: u64,
    pub refresh_timeout_seconds: u64,
    pub refresh_max_concurrent: usize,
}

/// What a [`RuntimeConfig`] holds.
#[verifier::ext_equal]
pub struct RuntimeConfigModel {
    pub sources: Map<Text, SourceModel>,
    pub credentials: Map<Text, CredentialModel>,
    pub views: Map<Text, ViewModel>,
    pub enrichers: Map<Text, EnricherModel>,
    pub endpoints: Map<Text, OutputEndpointModel>,
    pub projects: Map<Text, GitProjectModel>,
    pub secrets: SecretsConfigModel,
    pub readyz_require_all_sources: bool,
    pub metrics_require_auth: bool,
    pub shutdown_grace_seconds: u64,
    pub refresh_timeout_seconds: u64,
    pub refresh_max_concurrent: usize,
}

impl DeepView for RuntimeConfig {
    type V = RuntimeConfigModel;

    open spec fn deep_view(&self) -> RuntimeConfigModel {
        RuntimeConfigModel {
            sources: self.sources.deep_view(),
            credentials: self.credentials.deep_view(),
            views: self.views.deep_view(),
            enrichers: self.enrichers.deep_view(),
            endpoints: self.endpoints.deep_view(),
            projects: self.projects.deep_view(),
            secrets: self.secrets.deep_view(),
            readyz_require_all_sources: self.readyz_require_all_sources.deep_view(),
            metrics_require_auth: self.metrics_require_auth.deep_view(),
            shutdown_grace_seconds: self.shutdown_grace_seconds.deep_view(),
            refresh_timeout_seconds: self.refresh_timeout_seconds.deep_view(),
            refresh_max_concurrent: self.refresh_max_concurrent.deep_view(),
        }
    }
}

impl Dup for RuntimeConfig {
    fn dup(&self) -> (copy: Self) {
        RuntimeConfig {
            sources: self.sources.dup(),
            credentials: self.credentials.dup(),
            views: self.views.dup(),
            enrichers: self.enrichers.dup(),
            endpoints: self.endpoints.dup(),
            projects: self.projects.dup(),
            secrets: self.secrets.dup(),
            readyz_require_all_sources: self.readyz_require_all_sources.dup(),
            metrics_require_auth: self.metrics_require_auth.dup(),
            shutdown_grace_seconds: self.shutdown_grace_seconds.dup(),
            refresh_timeout_seconds: self.refresh_timeout_seconds.dup(),
            refresh_max_concurrent: self.refresh_max_concurrent.dup(),
        }
    }
}

impl Same for RuntimeConfig {
    fn same(&self, other: &Self) -> (equal: bool) {
        self.sources.same(&other.sources)
            && self.credentials.same(&other.credentials)
            && self.views.same(&other.views)
            && self.enrichers.same(&other.enrichers)
            && self.endpoints.same(&other.endpoints)
            && self.projects.same(&other.projects)
            && self.secrets.same(&other.secrets)
            && self.readyz_require_all_sources.same(&other.readyz_require_all_sources)
            && self.metrics_require_auth.same(&other.metrics_require_auth)
            && self.shutdown_grace_seconds.same(&other.shutdown_grace_seconds)
            && self.refresh_timeout_seconds.same(&other.refresh_timeout_seconds)
            && self.refresh_max_concurrent.same(&other.refresh_max_concurrent)
    }
}

impl Clone for RuntimeConfig {
    fn clone(&self) -> (copy: Self)
        ensures
            copy.deep_view() == self.deep_view(),
    {
        self.dup()
    }
}

/// The part of a configuration that is adopted without a restart.
pub open spec fn runtime(c: AppConfigModel) -> RuntimeConfigModel {
    RuntimeConfigModel {
        sources: c.sources,
        credentials: c.credentials,
        views: c.views,
        enrichers: c.enrichers,
        endpoints: c.endpoints,
        projects: c.projects,
        secrets: c.secrets_config,
        readyz_require_all_sources: c.server.readyz_require_all_sources,
        metrics_require_auth: c.server.metrics_require_auth,
        shutdown_grace_seconds: c.server.shutdown_grace_seconds,
        refresh_timeout_seconds: c.server.refresh_timeout_seconds,
        refresh_max_concurrent: c.server.refresh_max_concurrent,
    }
}

/// How often the configuration has been reloaded.
pub struct ReloadNotifier {
    generation: u64,
}

impl vstd::view::View for ReloadNotifier {
    type V = int;

    closed spec fn view(&self) -> int {
        self.generation as int
    }
}

impl ReloadNotifier {
    /// Never yet.
    pub fn new() -> (notifier: Self)
        ensures
            notifier@ == 0,
    {
        ReloadNotifier { generation: 0 }
    }

    /// How often the configuration has been reloaded.
    pub fn generation(&self) -> (generation: u64)
        ensures
            generation == self@,
    {
        self.generation
    }

    /// One reload more. Gives the new generation.
    pub fn bump(&mut self) -> (generation: u64)
        requires
            old(self)@ < u64::MAX,
        ensures
            final(self)@ == old(self)@ + 1,
            generation == final(self)@,
    {
        self.generation = self.generation + 1;
        self.generation
    }
}

impl Default for ReloadNotifier {
    fn default() -> (notifier: Self)
        ensures
            notifier@ == 0,
    {
        ReloadNotifier::new()
    }
}

/// What a running process knows. Whoever may change it holds it alone.
pub struct AppState {
    pub cache: MemoryCache,
    /// What was last adopted.
    pub config: RuntimeConfig,
    /// What the process was built from, where that is known.
    pub live_settings: Option<RestartOnlySettings>,
    /// The settings that the last reload could not adopt.
    pub restart_pending: Vec<String>,
    pub reload: ReloadNotifier,
    /// Where the checkouts are.
    pub projects_dir: String,
    /// How the syncs of each source are going.
    pub sync_health: SyncHealthRegistry,
    /// How the runs of each enricher are going.
    pub enrich_health: SyncHealthRegistry,
    /// How the pulls of each project are going.
    pub project_health: SyncHealthRegistry,
    /// How the snapshots of the cache are going.
    pub snapshot_health: SyncHealthRegistry,
    pub refresh: RefreshCoordinator,
    pub syncs: SyncCoordinator,
}

/// The configuration of a running process.
#[verifier::ext_equal]
pub struct AppStateModel {
    /// What was last adopted.
    pub config: RuntimeConfigModel,
    /// What the process was built from, where that is known.
    pub live_settings: Option<RestartOnlySettingsModel>,
    /// The settings that the last reload could not adopt.
    pub restart_pending: Seq<Text>,
}

impl vstd::view::View for AppState {
    type V = AppStateModel;

    open spec fn view(&self) -> AppStateModel {
        AppStateModel {
            config: self.config.deep_view(),
            live_settings: self.live_settings.deep_view(),
            restart_pending: self.restart_pending.deep_view(),
        }
    }
}

impl AppState {
    /// Everything but the configuration is as it was.
    pub open spec fn kept(self, before: AppState) -> bool {
        &&& self.cache == before.cache
        &&& self.reload == before.reload
        &&& self.projects_dir == before.projects_dir
        &&& self.sync_health == before.sync_health
        &&& self.enrich_health == before.enrich_health
        &&& self.project_health == before.project_health
        &&& self.snapshot_health == before.snapshot_health
        &&& self.refresh == before.refresh
        &&& self.syncs == before.syncs
    }

    /// A process that has done nothing yet.
    pub fn new(
        config: RuntimeConfig,
        live_settings: Option<RestartOnlySettings>,
        projects_dir: String,
        project_health: SyncHealthRegistry,
        refresh: RefreshCoordinator,
    ) -> (state: Self)
        ensures
            state@ == (AppStateModel {
                config: config.deep_view(),
                live_settings: live_settings.deep_view(),
                restart_pending: Seq::empty(),
            }),
            state.cache.entries() == Map::<Text, EntryView>::empty(),
            state.reload@ == 0,
            state.projects_dir == projects_dir,
            state.project_health == project_health,
            state.sync_health@ == Map::<Text, RecordView>::empty(),
            state.enrich_health@ == Map::<Text, RecordView>::empty(),
            state.snapshot_health@ == Map::<Text, RecordView>::empty(),
            state.refresh == refresh,
            state.syncs@ == Map::<Text, u64>::empty(),
    {
        let state = AppState {
            cache: MemoryCache::new(),
            config,
            live_settings,
            restart_pending: Vec::new(),
            reload: ReloadNotifier::new(),
            projects_dir,
            sync_health: SyncHealthRegistry::new(),
            enrich_health: SyncHealthRegistry::new(),
            project_health,
            snapshot_health: SyncHealthRegistry::new(),
            refresh,
            syncs: SyncCoordinator::new(),
        };
        assert(state@.restart_pending =~= Seq::empty());
        state
    }

    /// The configuration.
    pub fn config(&self) -> (config: &RuntimeConfig)
        ensures
            config.deep_view() == self@.config,
    {
        &self.config
    }

    /// Puts another configuration in place, and gives back the one that was there.
    pub fn swap_config(&mut self, next: RuntimeConfig) -> (previous: RuntimeConfig)
        ensures
            previous.deep_view() == old(self)@.config,
            final(self)@ == (AppStateModel { config: next.deep_view(), ..old(self)@ }),
            final(self).kept(*old(self)),
    {
        let mut other = next;
        std::mem::swap(&mut self.config, &mut other);
        other
    }

    /// What the process was built from, where that is known.
    pub fn live_settings(&self) -> (settings: &Option<RestartOnlySettings>)
        ensures
            settings.deep_view() == self@.live_settings,
    {
        &self.live_settings
    }

    /// Says what the process was built from.
    pub fn set_live_settings(&mut self, settings: RestartOnlySettings)
        ensures
            final(self)@ == (AppStateModel { live_settings: Some(settings.deep_view()), ..old(self)@ }),
            final(self).kept(*old(self)),
    {
        self.live_settings = Some(settings);
    }

    /// The settings that the last reload could not adopt.
    pub fn restart_pending(&self) -> (keys: &Vec<String>)
        ensures
            keys.deep_view() == self@.restart_pending,
    {
        &self.restart_pending
    }

    /// Says which settings the last reload could not adopt.
    pub fn set_restart_pending(&mut self, keys: Vec<String>)
        ensures
            final(self)@ == (AppStateModel { restart_pending: keys.deep_view(), ..old(self)@ }),
            final(self).kept(*old(self)),
    {
        self.restart_pending = keys;
    }

    /// A source as a sync runs it. Its script is the one in the checkout, where there
    /// is one, and it is told of the project's virtualenv, where there is one. What an
    /// SSH source names is run elsewhere, so nothing changes for it.
    pub fn source_for_sync(&self, id: &str, files: &StrSet, dirs: &StrSet) -> (source: Option<Source>)
        ensures
            match source {
                Some(s) => self@.config.sources.contains_key(id@) && s.deep_view() == as_run(
                    self@.config.sources[id@],
                    self.projects_dir@,
                    files@,
                    dirs@,
                ),
                None => !self@.config.sources.contains_key(id@),
            },
    {
        let mut source = match self.config.sources.get(id) {
            Some(source) => source.dup(),
            None => return None,
        };
        if !matches!(source.connector_type, ConnectorType::Ssh) {
            source.script_path = resolve_script_path(
                self.projects_dir.as_str(),
                source.project_id.as_str(),
                source.script_path.as_str(),
                files,
            );
            if let Some(bin) = venv_bin_dir(self.projects_dir.as_str(), source.project_id.as_str(), dirs) {
                source.config.insert(VENV_BIN_CONFIG_KEY.to_owned(), bin);
            }
        }
        Some(source)
    }
}

/// A source as a sync runs it.
pub open spec fn as_run(source: SourceModel, projects_dir: Text, files: Set<Text>, dirs: Set<Text>) -> SourceModel {
    if source.connector_type == ConnectorType::Ssh {
        source
    } else {
        SourceModel {
            script_path: script_found(projects_dir, source.project_id, source.script_path, files),
            config: with_venv(source.config, projects_dir, source.project_id, dirs),
            ..source
        }
    }
}

} // verus!
