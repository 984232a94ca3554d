//! Putting a service together.

use crate::application::refresh::RefreshCoordinator;
#[allow(unused_imports)]
use crate::application::refresh::{at_least_one, CoordinatorModel};
#[allow(unused_imports)]
use crate::auth::default_key;
use crate::auth::ResolvedApiKey;
use crate::config::{AppConfig, RestartOnlySettings, SecretsConfig, VaultConfig};
#[allow(unused_imports)]
use crate::config::SecretsConfigModel;
#[allow(unused_imports)]
use crate::domain::cache_entry::EntryView;
use crate::domain::credential::Credential;
use crate::domain::endpoint::OutputEndpoint;
use crate::domain::enricher::Enricher;
use crate::domain::project::GitProject;
use crate::domain::source::Source;
use crate::domain::sync_health::SyncHealthRegistry;
#[allow(unused_imports)]
use crate::domain::sync_health::RecordView;
use crate::domain::view::View;
use crate::model::Dup;
#[allow(unused_imports)]
use crate::ports::cache::CachePort;
use crate::state::{AppState, RuntimeConfig};
#[allow(unused_imports)]
use crate::state::{runtime, AppStateModel, RuntimeConfigModel};
use crate::strmap::StrMap;
#[allow(unused_imports)]
use crate::text::Text;
use vstd::prelude::*;
#[allow(unused_imports)]
use vstd::view::View as _;

verus! {

/// Where secrets are looked for: in the environment and in files, before that in a
/// Vault, and before that in what was found of late.
#[derive(Debug, PartialEq)]
pub struct SecretsChain {
    /// The Vault that is asked first, where there is one.
    pub vault: Option<VaultConfig>,
    /// For how many seconds what was found is kept, where it is kept at all.
    pub cache_ttl_seconds: Option<u64>,
}

impl SecretsChain {
    /// The chain that a configuration asks for. Nothing is kept for no time.
    pub fn of(config: &SecretsConfig) -> (chain: Self)
        ensures
            chain.vault.deep_view() == config.deep_view().vault,
            chain.cache_ttl_seconds == (if config.cache_ttl_seconds == 0 {
                None
            } else {
                Some(config.cache_ttl_seconds)
            }),
    {
        SecretsChain {
            vault: config.vault.dup(),
            cache_ttl_seconds: if config.cache_ttl_seconds == 0 {
                None
            } else {
                Some(config.cache_ttl_seconds)
            },
        }
    }
}

/// What the routes are made from.
pub struct RouterSettings {
    pub api_keys: Vec<ResolvedApiKey>,
    pub cors_allowed_origins: Vec<String>,
    pub metrics_require_auth: bool,
    /// Where secrets are looked for; without it, there are none.
    pub secrets: Option<SecretsChain>,
    /// Where the configuration is, where it can be read and written over the API.
    pub config_store: Option<String>,
}

/// A service to be put together.
pub struct AppBuilder {
    pub sources: StrMap<Source>,
    pub views: StrMap<View>,
    pub enrichers: StrMap<Enricher>,
    pub endpoints: StrMap<OutputEndpoint>,
    pub projects: StrMap<GitProject>,
    pub credentials: StrMap<Credential>,
    pub secrets_settings: SecretsConfig,
    pub projects_dir: String,
    pub secrets: Option<SecretsChain>,
    pub config_store: Option<String>,
    pub live_settings: Option<RestartOnlySettings>,
    pub api_keys: Vec<ResolvedApiKey>,
    pub project_health: SyncHealthRegistry,
    pub cors_allowed_origins: Vec<String>,
    pub readyz_require_all_sources: bool,
    pub metrics_require_auth: bool,
    pub shutdown_grace_seconds: u64,
    pub refresh_timeout_seconds: u64,
    pub refresh_max_concurrent: usize,
}

impl AppBuilder {
    /// What the process that is put together runs with.
    pub open spec fn runtime(self) -> RuntimeConfigModel {
        RuntimeConfigModel {
            sources: self.sources@,
            credentials: self.credentials@,
            views: self.views@,
            enrichers: self.enrichers@,
            endpoints: self.endpoints@,
            projects: self.projects@,
            secrets: self.secrets_settings.deep_view(),
            readyz_require_all_sources: self.readyz_require_all_sources,
            metrics_require_auth: self.metrics_require_auth,
            shutdown_grace_seconds: self.shutdown_grace_seconds,
            refresh_timeout_seconds: self.refresh_timeout_seconds,
            refresh_max_concurrent: self.refresh_max_concurrent,
        }
    }

    /// Nothing has been said of the service.
    pub open spec fn untouched(self) -> bool {
        &&& self.runtime() == RuntimeConfigModel {
            sources: Map::empty(),
            credentials: Map::empty(),
            views: Map::empty(),
            enrichers: Map::empty(),
            endpoints: Map::empty(),
            projects: Map::empty(),
            secrets: SecretsConfigModel { cache_ttl_seconds: 60, vault: None },
            readyz_require_all_sources: false,
            metrics_require_auth: false,
            shutdown_grace_seconds: 20,
            refresh_timeout_seconds: 15,
            refresh_max_concurrent: 8,
        }
        &&& self.projects_dir@ == "projects"@
        &&& self.secrets is None
        &&& self.config_store is None
        &&& self.live_settings is None
        &&& self.api_keys@.len() == 0
        &&& self.project_health@ == Map::<Text, RecordView>::empty()
        &&& self.cors_allowed_origins@.len() == 0
    }

    /// A service with nothing in it.
    pub fn new() -> (builder: Self)
        ensures
            builder.untouched(),
    {
        AppBuilder {
            sources: StrMap::new(),
            views: StrMap::new(),
            enrichers: StrMap::new(),
            endpoints: StrMap::new(),
            projects: StrMap::new(),
            credentials: StrMap::new(),
            secrets_settings: SecretsConfig::default(),
            projects_dir: "projects".to_owned(),
            secrets: None,
            config_store: None,
            live_settings: None,
            api_keys: Vec::new(),
            project_health: SyncHealthRegistry::new(),
            cors_allowed_origins: Vec::new(),
            readyz_require_all_sources: false,
            metrics_require_auth: false,
            shutdown_grace_seconds: 20,
            refresh_timeout_seconds: 15,
            refresh_max_concurrent: 8,
        }
    }

    /// With these sources.
    pub fn sources(self, sources: StrMap<Source>) -> (builder: Self)
        ensures
            builder == (AppBuilder { sources, ..self }),
    {
        AppBuilder { sources, ..self }
    }

    /// With these views.
    pub fn views(self, views: StrMap<View>) -> (builder: Self)
        ensures
            builder == (AppBuilder { views, ..self }),
    {
        AppBuilder { views, ..self }
    }

    /// With these enrichers.
    pub fn enrichers(self, enrichers: StrMap<Enricher>) -> (builder: Self)
        ensures
            builder == (AppBuilder { enrichers, ..self }),
    {
        AppBuilder { enrichers, ..self }
    }

    /// With these endpoints.
    pub fn endpoints(self, endpoints: StrMap<OutputEndpoint>) -> (builder: Self)
        ensures
            builder == (AppBuilder { endpoints, ..self }),
    {
        AppBuilder { endpoints, ..self }
    }

    /// With these projects, and their checkouts in that directory.
    pub fn projects(self, projects: StrMap<GitProject>, projects_dir: String) -> (builder: Self)
        ensures
            builder == (AppBuilder { projects, projects_dir, ..self }),
    {
        AppBuilder { projects, projects_dir, ..self }
    }

    /// With secrets from this chain.
    pub fn secrets(self, secrets: SecretsChain) -> (builder: Self)
        ensures
            builder == (AppBuilder { secrets: Some(secrets), ..self }),
    {
        AppBuilder { secrets: Some(secrets), ..self }
    }

    /// With these credentials, resolved as the settings say.
    pub fn credentials(self, credentials: StrMap<Credential>, settings: SecretsConfig) -> (builder: Self)
        ensures
            builder == (AppBuilder { credentials, secrets_settings: settings, ..self }),
    {
        AppBuilder { credentials, secrets_settings: settings, ..self }
    }

    /// With everything that a configuration says of it.
    pub fn from_config(self, cfg: &AppConfig) -> (builder: Self)
        ensures
            builder.runtime() == runtime(cfg.deep_view()),
            builder.projects_dir@ == cfg.deep_view().projects_config.dir,
            builder.cors_allowed_origins.deep_view() == cfg.deep_view().server.cors_allowed_origins,
            builder.secrets == self.secrets,
            builder.config_store == self.config_store,
            builder.live_settings == self.live_settings,
            builder.api_keys == self.api_keys,
            builder.project_health == self.project_health,
    {
        AppBuilder {
            sources: cfg.sources.dup(),
            views: cfg.views.dup(),
            enrichers: cfg.enrichers.dup(),
            endpoints: cfg.endpoints.dup(),
            projects: cfg.projects.dup(),
            credentials: cfg.credentials.dup(),
            secrets_settings: cfg.secrets_config.dup(),
            projects_dir: cfg.projects_config.dir.dup(),
            cors_allowed_origins: cfg.server.cors_allowed_origins.dup(),
            readyz_require_all_sources: cfg.server.readyz_require_all_sources,
            metrics_require_auth: cfg.server.metrics_require_auth,
            shutdown_grace_seconds: cfg.server.shutdown_grace_seconds,
            refresh_timeout_seconds: cfg.server.refresh_timeout_seconds,
            refresh_max_concurrent: cfg.server.refresh_max_concurrent,
            ..self
        }
    }

    /// With a configuration that can be read and written over the API. The settings are
    /// those that the process is put together from.
    pub fn config_api(self, location: String, live_settings: RestartOnlySettings) -> (builder: Self)
        ensures
            builder == (AppBuilder {
                config_store: Some(location),
                live_settings: Some(live_settings),
                ..self
            }),
    {
        AppBuilder { config_store: Some(location), live_settings: Some(live_settings), ..self }
    }

    /// With one key more that opens everything, where there is one.
    pub fn api_key(self, api_key: Option<String>) -> (builder: Self)
        ensures
            builder == (AppBuilder { api_keys: builder.api_keys, ..self }),
            builder.api_keys.deep_view() == (match api_key {
                Some(secret) => self.api_keys.deep_view().push(default_key(secret@)),
                None => self.api_keys.deep_view(),
            }),
    {
        let mut builder = self;
        if let Some(secret) = api_key {
            let ghost before = builder.api_keys.deep_view();
            let key = ResolvedApiKey::admin(secret);
            let ghost model = key.deep_view();
            builder.api_keys.push(key);
            assert(builder.api_keys.deep_view() =~= before.push(model));
        }
        builder
    }

    /// With these keys.
    pub fn api_keys(self, api_keys: Vec<ResolvedApiKey>) -> (builder: Self)
        ensures
            builder == (AppBuilder { api_keys, ..self }),
    {
        AppBuilder { api_keys, ..self }
    }

    /// With what is known already of how the pulls of the projects are going.
    pub fn project_health(self, registry: SyncHealthRegistry) -> (builder: Self)
        ensures
            builder == (AppBuilder { project_health: registry, ..self }),
    {
        AppBuilder { project_health: registry, ..self }
    }

    /// With these origins allowed.
    pub fn cors_allowed_origins(self, origins: Vec<String>) -> (builder: Self)
        ensures
            builder == (AppBuilder { cors_allowed_origins: origins, ..self }),
    {
        AppBuilder { cors_allowed_origins: origins, ..self }
    }

    /// Ready only once every source has been synced, or not.
    pub fn readyz_require_all_sources(self, require_all: bool) -> (builder: Self)
        ensures
            builder == (AppBuilder { readyz_require_all_sources: require_all, ..self }),
    {
        AppBuilder { readyz_require_all_sources: require_all, ..self }
    }

    /// With these limits of refreshes.
    pub fn on_demand_refresh(self, timeout_seconds: u64, max_concurrent: usize) -> (builder: Self)
        ensures
            builder == (AppBuilder {
                refresh_timeout_seconds: timeout_seconds,
                refresh_max_concurrent: max_concurrent,
                ..self
            }),
    {
        AppBuilder { refresh_timeout_seconds: timeout_seconds, refresh_max_concurrent: max_concurrent, ..self }
    }

    /// The metrics need a key, or not.
    pub fn metrics_require_auth(self, require_auth: bool) -> (builder: Self)
        ensures
            builder == (AppBuilder { metrics_require_auth: require_auth, ..self }),
    {
        AppBuilder { metrics_require_auth: require_auth, ..self }
    }

    /// What the routes are made from.
    pub fn build(self) -> (settings: RouterSettings)
        ensures
            settings == (RouterSettings {
                api_keys: self.api_keys,
                cors_allowed_origins: self.cors_allowed_origins,
                metrics_require_auth: self.metrics_require_auth,
                secrets: self.secrets,
                config_store: self.config_store,
            }),
    {
        let (settings, _state) = self.build_with_state();
        settings
    }

    /// What the routes are made from, and the process that they serve: it runs with
    /// what the builder was told, has cached nothing, and has recorded nothing but how
    /// the projects are going.
    pub fn build_with_state(self) -> (built: (RouterSettings, AppState))
        ensures
            built.0 == (RouterSettings {
                api_keys: self.api_keys,
                cors_allowed_origins: self.cors_allowed_origins,
                metrics_require_auth: self.metrics_require_auth,
                secrets: self.secrets,
                config_store: self.config_store,
            }),
            built.1@ == (AppStateModel {
                config: self.runtime(),
                live_settings: self.live_settings.deep_view(),
                restart_pending: Seq::empty(),
            }),
            built.1.cache.entries() == Map::<Text, EntryView>::empty(),
            built.1.reload@ == 0,
            built.1.projects_dir == self.projects_dir,
            built.1.sync_health@ == Map::<Text, RecordView>::empty(),
            built.1.enrich_health@ == Map::<Text, RecordView>::empty(),
            built.1.project_health == self.project_health,
            built.1.snapshot_health@ == Map::<Text, RecordView>::empty(),
            built.1.refresh.wf(),
            built.1.refresh@ == (CoordinatorModel {
                locks: Seq::empty(),
                permits: at_least_one(self.refresh_max_concurrent),
                timeout_seconds: self.refresh_timeout_seconds,
            }),
            built.1.syncs@ == Map::<Text, u64>::empty(),
    {
        let refresh = RefreshCoordinator::new(self.refresh_max_concurrent, self.refresh_timeout_seconds);
        let config = RuntimeConfig {
            sources: self.sources,
            credentials: self.credentials,
            views: self.views,
            enrichers: self.enrichers,
            endpoints: self.endpoints,
            projects: self.projects,
            secrets: self.secrets_settings,
            readyz_require_all_sources: self.readyz_require_all_sources,
            metrics_require_auth: self.metrics_require_auth,
            shutdown_grace_seconds: self.shutdown_grace_seconds,
            refresh_timeout_seconds: self.refresh_timeout_seconds,
            refresh_max_concurrent: self.refresh_max_concurrent,
        };
        let settings = RouterSettings {
            api_keys: self.api_keys,
            cors_allowed_origins: self.cors_allowed_origins,
            metrics_require_auth: self.metrics_require_auth,
            secrets: self.secrets,
            config_store: self.config_store,
        };
        let state = AppState::new(config, self.live_settings, self.projects_dir, self.project_health, refresh);
        (settings, state)
    }
}

impl Default for AppBuilder {
    fn default() -> (builder: Self)
        ensures
            builder.untouched(),
    {
        AppBuilder::new()
    }
}

} // verus!
