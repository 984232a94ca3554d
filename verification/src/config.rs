//! The configuration of the service, and what has to hold of it as a whole.

#[allow(unused_imports)]
use crate::domain::api_key::ApiKeyDefModel;
use crate::domain::api_key::ApiKeyDef;
use crate::domain::credential::Credential;
#[allow(unused_imports)]
use crate::domain::credential::CredentialModel;
use crate::domain::endpoint::OutputEndpoint;
#[allow(unused_imports)]
use crate::domain::endpoint::OutputEndpointModel;
use crate::domain::enricher::Enricher;
#[allow(unused_imports)]
use crate::domain::enricher::EnricherModel;
use crate::domain::project::GitProject;
#[allow(unused_imports)]
use crate::domain::project::GitProjectModel;
#[allow(unused_imports)]
use crate::domain::source::SourceModel;
use crate::domain::source::Source;
#[allow(unused_imports)]
use crate::domain::view::ViewModel;
use crate::domain::view::View;
use crate::model::{Dup, Same};
use crate::strmap::{StrMap, StrSet};
#[allow(unused_imports)]
use crate::text::Text;
#[allow(unused_imports)]
use crate::validation::{config_errors, errors_text};
use vstd::prelude::*;
#[allow(unused_imports)]
use vstd::view::View as _;

verus! {

/// How the service is reached.
#[derive(Debug, PartialEq)]
pub struct ServerConfig {
    pub host: String,
    pub port: u16,
    pub cors_allowed_origins: Vec<String>,
    pub readyz_require_all_sources: bool,
    pub metrics_require_auth: bool,
    pub refresh_timeout_seconds: u64,
    pub refresh_max_concurrent: usize,
    pub shutdown_grace_seconds: u64,
}

/// What a [`ServerConfig`] holds.
#[verifier::ext_equal]
pub struct ServerConfigModel {
    pub host: Text,
    pub port: u16,
    pub cors_allowed_origins: Seq<Text>,
    pub readyz_require_all_sources: bool,
    pub metrics_require_auth: bool,
    pub refresh_timeout_seconds: u64,
    pub refresh_max_concurrent: usize,
    pub shutdown_grace_seconds: u64,
}

impl DeepView for ServerConfig {
    type V = ServerConfigModel;

    open spec fn deep_view(&self) -> ServerConfigModel {
        ServerConfigModel {
            host: self.host.deep_view(),
            port: self.port.deep_view(),
            cors_allowed_origins: self.cors_allowed_origins.deep_view(),
            readyz_require_all_sources: self.readyz_require_all_sources.deep_view(),
            metrics_require_auth: self.metrics_require_auth.deep_view(),
            refresh_timeout_seconds: self.refresh_timeout_seconds.deep_view(),
            refresh_max_concurrent: self.refresh_max_concurrent.deep_view(),
            shutdown_grace_seconds: self.shutdown_grace_seconds.deep_view(),
        }
    }
}

impl Dup for ServerConfig {
    fn dup(&self) -> (copy: Self) {
        ServerConfig {
            host: self.host.dup(),
            port: self.port.dup(),
            cors_allowed_origins: self.cors_allowed_origins.dup(),
            readyz_require_all_sources: self.readyz_require_all_sources.dup(),
            metrics_require_auth: self.metrics_require_auth.dup(),
            refresh_timeout_seconds: self.refresh_timeout_seconds.dup(),
            refresh_max_concurrent: self.refresh_max_concurrent.dup(),
            shutdown_grace_seconds: self.shutdown_grace_seconds.dup(),
        }
    }
}

impl Same for ServerConfig {
    fn same(&self, other: &Self) -> (equal: bool) {
        self.host.same(&other.host)
            && self.port.same(&other.port)
            && self.cors_allowed_origins.same(&other.cors_allowed_origins)
            && self.readyz_require_all_sources.same(&other.readyz_require_all_sources)
            && self.metrics_require_auth.same(&other.metrics_require_auth)
            && self.refresh_timeout_seconds.same(&other.refresh_timeout_seconds)
            && self.refresh_max_concurrent.same(&other.refresh_max_concurrent)
            && self.shutdown_grace_seconds.same(&other.shutdown_grace_seconds)
    }
}

impl Clone for ServerConfig {
    fn clone(&self) -> (copy: Self)
        ensures
            copy.deep_view() == self.deep_view(),
    {
        self.dup()
    }
}

/// For how many seconds a refresh may take, where nothing says.
pub fn default_refresh_timeout_seconds() -> (value: u64)
    ensures
        value == 15,
{
    15
}

/// How many refreshes may run at once, where nothing says.
pub fn default_refresh_max_concurrent() -> (value: usize)
    ensures
        value == 8,
{
    8
}

/// For how many seconds requests may still end on shutdown, where nothing says.
pub fn default_shutdown_grace_seconds() -> (value: u64)
    ensures
        value == 20,
{
    20
}

/// Where the cache is stored, and how often.
#[derive(Debug, PartialEq)]
pub struct PersistenceConfig {
    pub path: String,
    pub interval_seconds: u64,
}

/// What a [`PersistenceConfig`] holds.
#[verifier::ext_equal]
pub struct PersistenceConfigModel {
    pub path: Text,
    pub interval_seconds: u64,
}

impl DeepView for PersistenceConfig {
    type V = PersistenceConfigModel;

    open spec fn deep_view(&self) -> PersistenceConfigModel {
        PersistenceConfigModel {
            path: self.path.deep_view(),
            interval_seconds: self.interval_seconds.deep_view(),
        }
    }
}

impl Dup for PersistenceConfig {
    fn dup(&self) -> (copy: Self) {
        PersistenceConfig {
            path: self.path.dup(),
            interval_seconds: self.interval_seconds.dup(),
        }
    }
}

impl Same for PersistenceConfig {
    fn same(&self, other: &Self) -> (equal: bool) {
        self.path.same(&other.path)
            && self.interval_seconds.same(&other.interval_seconds)
    }
}

impl Clone for PersistenceConfig {
    fn clone(&self) -> (copy: Self)
        ensures
            copy.deep_view() == self.deep_view(),
    {
        self.dup()
    }
}

/// Every how many seconds the cache is stored, where nothing says.
pub fn default_persistence_interval() -> (value: u64)
    ensures
        value == 60,
{
    60
}

/// How the cache is kept.
#[derive(Debug, PartialEq)]
pub struct CacheConfig {
    pub persistence: Option<PersistenceConfig>,
}

/// What a [`CacheConfig`] holds.
#[verifier::ext_equal]
pub struct CacheConfigModel {
    pub persistence: Option<PersistenceConfigModel>,
}

impl DeepView for CacheConfig {
    type V = CacheConfigModel;

    open spec fn deep_view(&self) -> CacheConfigModel {
        CacheConfigModel {
            persistence: self.persistence.deep_view(),
        }
    }
}

impl Dup for CacheConfig {
    fn dup(&self) -> (copy: Self) {
        CacheConfig {
            persistence: self.persistence.dup(),
        }
    }
}

impl Same for CacheConfig {
    fn same(&self, other: &Self) -> (equal: bool) {
        self.persistence.same(&other.persistence)
    }
}

impl Clone for CacheConfig {
    fn clone(&self) -> (copy: Self)
        ensures
            copy.deep_view() == self.deep_view(),
    {
        self.dup()
    }
}

impl Default for CacheConfig {
    fn default() -> (value: Self)
        ensures
            value.deep_view() == (CacheConfigModel {
                persistence: None,
            }),
    {
        let value = CacheConfig {
            persistence: None,
        };
        value
    }
}

/// The settings of a vault. Only the adapter that talks to it reads them.
#[derive(Debug, PartialEq)]
pub struct VaultConfig {
    pub settings: StrMap<String>,
}

/// What a [`VaultConfig`] holds.
#[verifier::ext_equal]
pub struct VaultConfigModel {
    pub settings: Map<Text, Text>,
}

impl DeepView for VaultConfig {
    type V = VaultConfigModel;

    open spec fn deep_view(&self) -> VaultConfigModel {
        VaultConfigModel {
            settings: self.settings.deep_view(),
        }
    }
}

impl Dup for VaultConfig {
    fn dup(&self) -> (copy: Self) {
        VaultConfig {
            settings: self.settings.dup(),
        }
    }
}

impl Same for VaultConfig {
    fn same(&self, other: &Self) -> (equal: bool) {
        self.settings.same(&other.settings)
    }
}

impl Clone for VaultConfig {
    fn clone(&self) -> (copy: Self)
        ensures
            copy.deep_view() == self.deep_view(),
    {
        self.dup()
    }
}

/// How secrets are had.
#[derive(Debug, PartialEq)]
pub struct SecretsConfig {
    pub cache_ttl_seconds: u64,
    pub vault: Option<VaultConfig>,
}

/// What a [`SecretsConfig`] holds.
#[verifier::ext_equal]
pub struct SecretsConfigModel {
    pub cache_ttl_seconds: u64,
    pub vault: Option<VaultConfigModel>,
}

impl DeepView for SecretsConfig {
    type V = SecretsConfigModel;

    open spec fn deep_view(&self) -> SecretsConfigModel {
        SecretsConfigModel {
            cache_ttl_seconds: self.cache_ttl_seconds.deep_view(),
            vault: self.vault.deep_view(),
        }
    }
}

impl Dup for SecretsConfig {
    fn dup(&self) -> (copy: Self) {
        SecretsConfig {
            cache_ttl_seconds: self.cache_ttl_seconds.dup(),
            vault: self.vault.dup(),
        }
    }
}

impl Same for SecretsConfig {
    fn same(&self, other: &Self) -> (equal: bool) {
        self.cache_ttl_seconds.same(&other.cache_ttl_seconds)
            && self.vault.same(&other.vault)
    }
}

impl Clone for SecretsConfig {
    fn clone(&self) -> (copy: Self)
        ensures
            copy.deep_view() == self.deep_view(),
    {
        self.dup()
    }
}

/// For how many seconds a secret is kept, where nothing says.
pub fn default_credential_cache_ttl() -> (value: u64)
    ensures
        value == 60,
{
    60
}

impl Default for SecretsConfig {
    fn default() -> (value: Self)
        ensures
            value == (SecretsConfig { cache_ttl_seconds: 60, vault: None }),
    {
        SecretsConfig { cache_ttl_seconds: default_credential_cache_ttl(), vault: None }
    }
}

/// Where projects are checked out.
#[derive(Debug, PartialEq)]
pub struct ProjectsConfig {
    pub dir: String,
}

/// What a [`ProjectsConfig`] holds.
#[verifier::ext_equal]
pub struct ProjectsConfigModel {
    pub dir: Text,
}

impl DeepView for ProjectsConfig {
    type V = ProjectsConfigModel;

    open spec fn deep_view(&self) -> ProjectsConfigModel {
        ProjectsConfigModel {
            dir: self.dir.deep_view(),
        }
    }
}

impl Dup for ProjectsConfig {
    fn dup(&self) -> (copy: Self) {
        ProjectsConfig {
            dir: self.dir.dup(),
        }
    }
}

impl Same for ProjectsConfig {
    fn same(&self, other: &Self) -> (equal: bool) {
        self.dir.same(&other.dir)
    }
}

impl Clone for ProjectsConfig {
    fn clone(&self) -> (copy: Self)
        ensures
            copy.deep_view() == self.deep_view(),
    {
        self.dup()
    }
}

/// Where projects are checked out, where nothing says.
pub fn default_projects_dir() -> (value: String)
    ensures
        value@ == "projects"@,
{
    "projects".to_owned()
}

impl Default for ProjectsConfig {
    fn default() -> (value: Self)
        ensures
            value.dir@ == "projects"@,
    {
        ProjectsConfig { dir: default_projects_dir() }
    }
}

/// The whole configuration.
#[derive(Debug, PartialEq)]
pub struct AppConfig {
    pub server: ServerConfig,
    pub cache: CacheConfig,
    pub projects_config: ProjectsConfig,
    pub secrets_config: SecretsConfig,
    pub credentials: StrMap<Credential>,
    pub sources: StrMap<Source>,
    pub views: StrMap<View>,
    pub enrichers: StrMap<Enricher>,
    pub projects: StrMap<GitProject>,
    pub endpoints: StrMap<OutputEndpoint>,
    pub api_keys: StrMap<ApiKeyDef>,
}

/// What a [`AppConfig`] holds.
#[verifier::ext_equal]
pub struct AppConfigModel {
    pub server: ServerConfigModel,
    pub cache: CacheConfigModel,
    pub projects_config: ProjectsConfigModel,
    pub secrets_config: SecretsConfigModel,
    pub credentials: Map<Text, CredentialModel>,
    pub sources: Map<Text, SourceModel>,
    pub views: Map<Text, ViewModel>,
    pub enrichers: Map<Text, EnricherModel>,
    pub projects: Map<Text, GitProjectModel>,
    pub endpoints: Map<Text, OutputEndpointModel>,
    pub api_keys: Map<Text, ApiKeyDefModel>,
}

impl DeepView for AppConfig {
    type V = AppConfigModel;

    open spec fn deep_view(&self) -> AppConfigModel {
        AppConfigModel {
            server: self.server.deep_view(),
            cache: self.cache.deep_view(),
            projects_config: self.projects_config.deep_view(),
            secrets_config: self.secrets_config.deep_view(),
            credentials: self.credentials.deep_view(),
            sources: self.sources.deep_view(),
            views: self.views.deep_view(),
            enrichers: self.enrichers.deep_view(),
            projects: self.projects.deep_view(),
            endpoints: self.endpoints.deep_view(),
            api_keys: self.api_keys.deep_view(),
        }
    }
}

impl Dup for AppConfig {
    fn dup(&self) -> (copy: Self) {
        AppConfig {
            server: self.server.dup(),
            cache: self.cache.dup(),
            projects_config: self.projects_config.dup(),
            secrets_config: self.secrets_config.dup(),
            credentials: self.credentials.dup(),
            sources: self.sources.dup(),
            views: self.views.dup(),
            enrichers: self.enrichers.dup(),
            projects: self.projects.dup(),
            endpoints: self.endpoints.dup(),
            api_keys: self.api_keys.dup(),
        }
    }
}

impl Same for AppConfig {
    fn same(&self, other: &Self) -> (equal: bool) {
        self.server.same(&other.server)
            && self.cache.same(&other.cache)
            && self.projects_config.same(&other.projects_config)
            && self.secrets_config.same(&other.secrets_config)
            && self.credentials.same(&other.credentials)
            && self.sources.same(&other.sources)
            && self.views.same(&other.views)
            && self.enrichers.same(&other.enrichers)
            && self.projects.same(&other.projects)
            && self.endpoints.same(&other.endpoints)
            && self.api_keys.same(&other.api_keys)
    }
}

impl Clone for AppConfig {
    fn clone(&self) -> (copy: Self)
        ensures
            copy.deep_view() == self.deep_view(),
    {
        self.dup()
    }
}

/// What validation has to know of the world outside the configuration.
pub struct Surroundings {
    /// The cron expressions that are not valid, with what is wrong with each.
    pub invalid_crons: StrMap<String>,
    /// The paths at which there is a file.
    pub files: StrSet,
}

/// What [`Surroundings`] say.
#[verifier::ext_equal]
pub struct AroundModel {
    pub invalid_crons: Map<Text, Text>,
    pub files: Set<Text>,
}

impl DeepView for Surroundings {
    type V = AroundModel;

    open spec fn deep_view(&self) -> AroundModel {
        AroundModel { invalid_crons: self.invalid_crons@, files: self.files@ }
    }
}

/// The text, where the condition holds.
pub open spec fn said_if(condition: bool, text: Text) -> Seq<Text> {
    if condition {
        seq![text]
    } else {
        Seq::empty()
    }
}

/// The settings that a running process cannot change: what they built is running already.
#[derive(Debug, PartialEq)]
pub struct RestartOnlySettings {
    pub host: String,
    pub port: u16,
    pub cors_allowed_origins: Vec<String>,
    pub persistence: Option<PersistenceConfig>,
    pub projects_dir: String,
}

/// What a [`RestartOnlySettings`] holds.
#[verifier::ext_equal]
pub struct RestartOnlySettingsModel {
    pub host: Text,
    pub port: u16,
    pub cors_allowed_origins: Seq<Text>,
    pub persistence: Option<PersistenceConfigModel>,
    pub projects_dir: Text,
}

impl DeepView for RestartOnlySettings {
    type V = RestartOnlySettingsModel;

    open spec fn deep_view(&self) -> RestartOnlySettingsModel {
        RestartOnlySettingsModel {
            host: self.host.deep_view(),
            port: self.port.deep_view(),
            cors_allowed_origins: self.cors_allowed_origins.deep_view(),
            persistence: self.persistence.deep_view(),
            projects_dir: self.projects_dir.deep_view(),
        }
    }
}

impl Dup for RestartOnlySettings {
    fn dup(&self) -> (copy: Self) {
        RestartOnlySettings {
            host: self.host.dup(),
            port: self.port.dup(),
            cors_allowed_origins: self.cors_allowed_origins.dup(),
            persistence: self.persistence.dup(),
            projects_dir: self.projects_dir.dup(),
        }
    }
}

impl Same for RestartOnlySettings {
    fn same(&self, other: &Self) -> (equal: bool) {
        self.host.same(&other.host)
            && self.port.same(&other.port)
            && self.cors_allowed_origins.same(&other.cors_allowed_origins)
            && self.persistence.same(&other.persistence)
            && self.projects_dir.same(&other.projects_dir)
    }
}

impl Clone for RestartOnlySettings {
    fn clone(&self) -> (copy: Self)
        ensures
            copy.deep_view() == self.deep_view(),
    {
        self.dup()
    }
}

/// The settings of a configuration that only a restart adopts.
pub open spec fn restart_only(c: AppConfigModel) -> RestartOnlySettingsModel {
    RestartOnlySettingsModel {
        host: c.server.host,
        port: c.server.port,
        cors_allowed_origins: c.server.cors_allowed_origins,
        persistence: c.cache.persistence,
        projects_dir: c.projects_config.dir,
    }
}

/// The keys that differ between two settings, in ascending order.
pub open spec fn restart_keys(live: RestartOnlySettingsModel, next: RestartOnlySettingsModel) -> Seq<Text> {
    said_if(live.persistence != next.persistence, "cache.persistence"@)
        + said_if(live.projects_dir != next.projects_dir, "projects.dir"@)
        + said_if(live.cors_allowed_origins != next.cors_allowed_origins, "server.cors_allowed_origins"@)
        + said_if(live.host != next.host, "server.host"@)
        + said_if(live.port != next.port, "server.port"@)
}

/// Adds a text to a list, where the condition holds.
pub(crate) fn say_if(list: &mut Vec<String>, condition: bool, text: &str)
    ensures
        final(list).deep_view() == old(list).deep_view() + said_if(condition, text@),
{
    let ghost before = list.deep_view();
    if condition {
        list.push(text.to_owned());
        assert(list.deep_view() =~= before.push(text@));
    }
    assert(list.deep_view() =~= before + said_if(condition, text@));
}

impl RestartOnlySettings {
    /// The settings of a configuration.
    pub fn from_config(cfg: &AppConfig) -> (settings: Self)
        ensures
            settings.deep_view() == restart_only(cfg.deep_view()),
    {
        RestartOnlySettings {
            host: cfg.server.host.dup(),
            port: cfg.server.port,
            cors_allowed_origins: cfg.server.cors_allowed_origins.dup(),
            persistence: cfg.cache.persistence.dup(),
            projects_dir: cfg.projects_config.dir.dup(),
        }
    }

    /// The keys that differ between these settings and others, in ascending order.
    pub fn changed_keys(&self, next: &RestartOnlySettings) -> (keys: Vec<String>)
        ensures
            keys.deep_view() == restart_keys(self.deep_view(), next.deep_view()),
    {
        let mut keys: Vec<String> = Vec::new();
        say_if(&mut keys, !self.persistence.same(&next.persistence), "cache.persistence");
        say_if(&mut keys, !self.projects_dir.same(&next.projects_dir), "projects.dir");
        say_if(
            &mut keys,
            !self.cors_allowed_origins.same(&next.cors_allowed_origins),
            "server.cors_allowed_origins",
        );
        say_if(&mut keys, !self.host.same(&next.host), "server.host");
        say_if(&mut keys, self.port != next.port, "server.port");
        assert(keys.deep_view() =~= restart_keys(self.deep_view(), next.deep_view()));
        keys
    }
}

/// What `config.yaml` says.
pub struct ServerFile {
    pub server: ServerConfig,
    pub cache: CacheConfig,
    pub projects: ProjectsConfig,
    pub secrets: SecretsConfig,
}

/// What became of reading the files of a configuration. A file that is not there says
/// nothing; only `config.yaml` has to be there.
pub struct ConfigFiles {
    pub server_file: Result<ServerFile, String>,
    pub credentials: Result<Option<StrMap<Credential>>, String>,
    pub sources: Result<Option<StrMap<Source>>, String>,
    pub views: Result<Option<StrMap<View>>, String>,
    pub enrichers: Result<Option<StrMap<Enricher>>, String>,
    pub projects: Result<Option<StrMap<GitProject>>, String>,
    pub endpoints: Result<Option<StrMap<OutputEndpoint>>, String>,
    pub api_keys: Result<Option<StrMap<ApiKeyDef>>, String>,
}

/// Why a file could not be read.
pub open spec fn file_error<T>(file: Result<T, String>) -> Option<Text> {
    match file {
        Ok(_) => None,
        Err(e) => Some(e@),
    }
}

/// The first error, where there is one.
pub open spec fn first_of(a: Option<Text>, b: Option<Text>) -> Option<Text> {
    match a {
        Some(_) => a,
        None => b,
    }
}

/// What a file says; nothing where it is not there.
pub open spec fn section<T: DeepView>(file: Result<Option<StrMap<T>>, String>) -> Map<Text, T::V> {
    match file {
        Ok(Some(map)) => map@,
        _ => Map::empty(),
    }
}

impl ConfigFiles {
    /// Why the files could not be read: the error of the first that could not.
    pub open spec fn error(self) -> Option<Text> {
        first_of(
            file_error(self.server_file),
            first_of(
                file_error(self.credentials),
                first_of(
                    file_error(self.sources),
                    first_of(
                        file_error(self.views),
                        first_of(
                            file_error(self.enrichers),
                            first_of(
                                file_error(self.projects),
                                first_of(file_error(self.endpoints), file_error(self.api_keys)),
                            ),
                        ),
                    ),
                ),
            ),
        )
    }

    /// The configuration that the files say.
    pub open spec fn config(self) -> AppConfigModel {
        AppConfigModel {
            server: self.server_file->Ok_0.server.deep_view(),
            cache: self.server_file->Ok_0.cache.deep_view(),
            projects_config: self.server_file->Ok_0.projects.deep_view(),
            secrets_config: self.server_file->Ok_0.secrets.deep_view(),
            credentials: section(self.credentials),
            sources: section(self.sources),
            views: section(self.views),
            enrichers: section(self.enrichers),
            projects: section(self.projects),
            endpoints: section(self.endpoints),
            api_keys: section(self.api_keys),
        }
    }
}

fn read_section<T: Dup>(file: Result<Option<StrMap<T>>, String>) -> (r: Result<StrMap<T>, String>)
    ensures
        match r {
            Ok(map) => file_error(file) is None && map@ == section(file),
            Err(e) => file_error(file) == Some(e@),
        },
{
    match file {
        Ok(Some(map)) => Ok(map),
        Ok(None) => Ok(StrMap::new()),
        Err(e) => Err(e),
    }
}

/// The configuration that the files say, where they could all be read and it is
/// consistent.
pub fn load_config(files: ConfigFiles, around: &Surroundings) -> (r: Result<AppConfig, String>)
    ensures
        match r {
            Ok(cfg) => {
                &&& files.error() is None
                &&& cfg.deep_view() == files.config()
                &&& config_errors(files.config(), around.deep_view()).len() == 0
            },
            Err(e) => match files.error() {
                Some(error) => e@ == error,
                None => config_errors(files.config(), around.deep_view()).len() > 0 && e@
                    == errors_text(config_errors(files.config(), around.deep_view())),
            },
        },
{
    let server_file = match files.server_file {
        Ok(file) => file,
        Err(e) => return Err(e),
    };
    let credentials = match read_section(files.credentials) {
        Ok(map) => map,
        Err(e) => return Err(e),
    };
    let sources = match read_section(files.sources) {
        Ok(map) => map,
        Err(e) => return Err(e),
    };
    let views = match read_section(files.views) {
        Ok(map) => map,
        Err(e) => return Err(e),
    };
    let enrichers = match read_section(files.enrichers) {
        Ok(map) => map,
        Err(e) => return Err(e),
    };
    let projects = match read_section(files.projects) {
        Ok(map) => map,
        Err(e) => return Err(e),
    };
    let endpoints = match read_section(files.endpoints) {
        Ok(map) => map,
        Err(e) => return Err(e),
    };
    let api_keys = match read_section(files.api_keys) {
        Ok(map) => map,
        Err(e) => return Err(e),
    };
    let config = AppConfig {
        server: server_file.server,
        cache: server_file.cache,
        projects_config: server_file.projects,
        secrets_config: server_file.secrets,
        credentials,
        sources,
        views,
        enrichers,
        projects,
        endpoints,
        api_keys,
    };
    assert(config.deep_view() == files.config());
    match config.validate(around) {
        Ok(()) => Ok(config),
        Err(e) => Err(e),
    }
}

} // verus!
