use unified_api::api::health::readyz;
use unified_api::api::sources::{
    delete_host, enrich_result, get_source_dataset, list_cached_sources, put_host, source_status, sync_result,
    sync_scope, StatusParams, SyncParams,
};
use unified_api::application::config::{apply, pending, runtime_config};
use unified_api::application::enrich::EnrichOutcome;
use unified_api::application::sync::{SyncOutcome, SyncScope};
use unified_api::auth::{resolve_api_keys, Permissions, ResolvedApiKey};
use unified_api::builder::{AppBuilder, SecretsChain};
use unified_api::config::{
    AppConfig, CacheConfig, ProjectsConfig, RestartOnlySettings, SecretsConfig, ServerConfig, VaultConfig,
};
use unified_api::domain::api_key::{ApiKeyDef, ApiKeyRole};
use unified_api::domain::cache_entry::CacheEntry;
use unified_api::domain::dataset::{Dataset, Group, HostVars};
use unified_api::domain::enricher::Enricher;
use unified_api::domain::sync_health::SyncHealthRegistry;
use unified_api::json::Json;
use unified_api::ports::cache::{CachePort, MemoryCache};
use unified_api::ports::config_store::ConfigChange;
use unified_api::scheduler::{enricher_tasks, sync_tasks};
use unified_api::strmap::{StrMap, StrSet};
use unified_api::domain::source::{ConnectorType, OutputFormat, Source, TtlOverrides};
use unified_api::domain::sync_mode::SyncMode;

fn text(value: &str) -> Json {
    Json::Str(value.to_string())
}

fn vars_of(pairs: &[(&str, Json)]) -> HostVars {
    let mut vars = HostVars::new();
    for (key, value) in pairs {
        vars.insert(key.to_string(), value.clone());
    }
    vars
}

fn group_of(hosts: &[&str], children: &[&str], vars: &[(&str, Json)]) -> Group {
    Group {
        hosts: hosts.iter().map(|h| h.to_string()).collect(),
        children: children.iter().map(|c| c.to_string()).collect(),
        vars: if vars.is_empty() { None } else { Some(vars_of(vars)) },
    }
}

fn dataset_of(hosts: Vec<(&str, HostVars)>, groups: Vec<(&str, Group)>) -> Dataset {
    let mut dataset = Dataset::default();
    for (name, vars) in hosts {
        dataset.hostvars.insert(name.to_string(), vars);
    }
    for (name, group) in groups {
        dataset.groups.insert(name.to_string(), group);
    }
    dataset
}

fn source_of(name: &str, ttl_seconds: u64) -> Source {
    Source {
        name: name.to_string(),
        project_id: "test".to_string(),
        script_path: "x".to_string(),
        script_args: vec![],
        connector_type: ConnectorType::Script,
        output_format: OutputFormat::Native,
        timeout_seconds: 300,
        sync_mode: SyncMode::Replace,
        credential_ids: vec![],
        schedule: None,
        sync_interval_seconds: None,
        ttl_seconds,
        ttl_overrides: TtlOverrides::default(),
        hosts_from_source: None,
        allow_on_demand_refresh: false,
        advertise_scope: None,
        config: StrMap::new(),
    }
}

fn strings(list: &[&str]) -> Vec<String> {
    list.iter().map(|item| item.to_string()).collect()
}

fn config() -> AppConfig {
    AppConfig {
        server: ServerConfig {
            host: "127.0.0.1".to_string(),
            port: 9090,
            cors_allowed_origins: strings(&["https://forms.example"]),
            readyz_require_all_sources: false,
            metrics_require_auth: true,
            refresh_timeout_seconds: 10,
            refresh_max_concurrent: 4,
            shutdown_grace_seconds: 10,
        },
        cache: CacheConfig { persistence: None },
        projects_config: ProjectsConfig { dir: "/srv/projects".to_string() },
        secrets_config: SecretsConfig { cache_ttl_seconds: 300, vault: None },
        credentials: StrMap::new(),
        sources: StrMap::new(),
        views: StrMap::new(),
        enrichers: StrMap::new(),
        projects: StrMap::new(),
        endpoints: StrMap::new(),
        api_keys: StrMap::new(),
    }
}

fn enricher(interval: Option<u64>) -> Enricher {
    Enricher {
        name: "e".to_string(),
        target_id: "src".to_string(),
        script_path: Some("e.py".to_string()),
        script_args: vec![],
        project_id: None,
        source_id: None,
        fields: None,
        fields_excluded: None,
        groups: None,
        groups_excluded: None,
        sync_interval_seconds: interval,
        schedule: None,
        config: StrMap::new(),
        timeout_seconds: 300,
    }
}

fn cached() -> MemoryCache {
    let mut cache = MemoryCache::new();
    let mut entry = CacheEntry::new(
        dataset_of(
            vec![("a", vars_of(&[("x", text("1"))])), ("b", HostVars::new())],
            vec![("web", group_of(&["a"], &[], &[]))],
        ),
        60,
    );
    entry.update_host_aged("b".to_string(), HostVars::new(), 100);
    cache.set("src", entry);
    cache
}

#[test]
fn a_reload_adopts_what_changed_and_remembers_what_needs_a_restart() {
    let before = config();
    let (_, mut state) = AppBuilder::new()
        .from_config(&before)
        .config_api("/etc/unified".to_string(), RestartOnlySettings::from_config(&before))
        .build_with_state();
    assert_eq!(state.reload.generation(), 0);

    let mut after = config();
    after.sources.insert("src".to_string(), source_of("s", 60));
    after.server.refresh_max_concurrent = 0;
    after.server.port = 80;

    let report = pending(&state, &after);
    assert_eq!(report.generation, 0);
    assert_eq!(report.sources.added, vec!["src"]);
    assert_eq!(report.restart_required, vec!["server.port"]);
    assert!(state.config().sources.is_empty(), "nothing is changed by asking");

    let report = apply(&mut state, &after);
    assert_eq!(report.generation, 1);
    assert!(report.changed_anything());
    assert!(report.applied.contains(&"sources".to_string()), "{:?}", report.applied);
    assert!(state.config().sources.contains_key("src"));
    assert_eq!(state.refresh.permits(), 1);
    assert_eq!(*state.restart_pending(), vec!["server.port"]);

    // the same again adopts nothing, and still needs the restart
    let report = apply(&mut state, &after);
    assert_eq!(report.generation, 2);
    assert!(report.applied.is_empty());
    assert_eq!(report.restart_required, vec!["server.port"]);

    // of a process that was built from these settings, nothing is pending
    state.set_live_settings(RestartOnlySettings::from_config(&after));
    assert!(pending(&state, &after).restart_required.is_empty());
    state.set_live_settings(RestartOnlySettings::from_config(&before));

    // going back needs none
    let report = apply(&mut state, &before);
    assert_eq!(report.sources.removed, vec!["src"]);
    assert!(state.restart_pending().is_empty());
}

#[test]
fn a_source_runs_from_its_checkout() {
    let mut cfg = config();
    cfg.sources.insert("src".to_string(), source_of("s", 60));
    cfg.sources.insert(
        "far".to_string(),
        Source { connector_type: ConnectorType::Ssh, ..source_of("s", 60) },
    );
    let (_, state) = AppBuilder::new().from_config(&cfg).build_with_state();
    let mut files = StrSet::new();
    files.insert("/srv/projects/test/x".to_string());
    let mut dirs = StrSet::new();
    dirs.insert("/srv/projects/.venvs/test/bin".to_string());

    let run = state.source_for_sync("src", &files, &dirs).unwrap();
    assert_eq!(run.script_path, "/srv/projects/test/x");
    assert_eq!(
        run.config.get("python_venv_bin").map(String::as_str),
        Some("/srv/projects/.venvs/test/bin")
    );
    let far = state.source_for_sync("far", &files, &dirs).unwrap();
    assert_eq!(far.script_path, "x");
    assert!(far.config.is_empty());
    assert!(state.source_for_sync("none", &files, &dirs).is_none());
}

#[test]
fn a_builder_hands_on_what_it_was_given() {
    let (settings, state) = AppBuilder::new()
        .from_config(&config())
        .api_key(Some("SECRET-REDACTED".to_string()))
        .on_demand_refresh(7, 0)
        .readyz_require_all_sources(true)
        .project_health(SyncHealthRegistry::new())
        .build_with_state();
    assert_eq!(settings.api_keys.len(), 1);
    assert_eq!(settings.api_keys[0].name, "default");
    assert!(settings.metrics_require_auth);
    assert_eq!(settings.cors_allowed_origins, vec!["https://forms.example"]);
    assert_eq!(settings.config_store, None);
    assert_eq!(state.projects_dir, "/srv/projects");
    assert_eq!(state.refresh.permits(), 1);
    assert_eq!(state.refresh.timeout_seconds(), 7);
    assert!(state.config().readyz_require_all_sources);

    let settings = AppBuilder::new().api_key(None).metrics_require_auth(true).build();
    assert!(settings.api_keys.is_empty());
    assert!(settings.metrics_require_auth);
    assert!(settings.secrets.is_none());
}

#[test]
fn secrets_are_looked_for_where_the_configuration_says() {
    let chain = SecretsChain::of(&SecretsConfig { cache_ttl_seconds: 0, vault: None });
    assert!(chain.vault.is_none());
    assert_eq!(chain.cache_ttl_seconds, None, "nothing is kept");
    let vault = Some(VaultConfig { settings: StrMap::new() });
    let chain = SecretsChain::of(&SecretsConfig { cache_ttl_seconds: 5, vault });
    assert!(chain.vault.is_some());
    assert_eq!(chain.cache_ttl_seconds, Some(5));
}

fn key(name: &str, env: &str, role: ApiKeyRole, sources: &[&str]) -> ApiKeyDef {
    ApiKeyDef {
        name: name.to_string(),
        env: env.to_string(),
        role,
        sources: strings(sources),
        endpoints: vec![],
    }
}

fn env(pairs: &[(&str, &str)]) -> StrMap<String> {
    let mut env = StrMap::new();
    for (name, value) in pairs {
        env.insert(name.to_string(), value.to_string());
    }
    env
}

#[test]
fn keys_get_their_secrets_from_the_environment() {
    let mut cfg = config();
    cfg.api_keys.insert("b".to_string(), key("Forms", "FORMS", ApiKeyRole::Restricted, &["src"]));
    cfg.api_keys.insert("a".to_string(), key("Ops", "OPS", ApiKeyRole::Admin, &[]));

    let given = env(&[("FORMS", "f"), ("OPS", "o"), ("UNIFIED_API_KEY", "u"), ("OTHER", "x")]);
    let keys = resolve_api_keys(&cfg, &given).unwrap_or_else(|e| panic!("{}", e));
    let secrets: Vec<(&str, &str)> =
        keys.iter().map(|k| (k.name.as_str(), k.secret.as_str())).collect();
    assert_eq!(secrets, vec![("Ops", "o"), ("Forms", "f"), ("default", "u")]);
    assert!(matches!(&keys[0].permissions, Permissions::Admin));
    assert!(
        matches!(&keys[1].permissions, Permissions::Scoped { sources, .. } if sources.contains("src"))
    );

    assert_eq!(
        resolve_api_keys(&cfg, &env(&[("FORMS", "f")])).err().as_deref(),
        Some("API key 'a' expects the secret in env var 'OPS', which is not set")
    );
    assert_eq!(
        resolve_api_keys(&cfg, &env(&[("FORMS", ""), ("OPS", "o")])).err().as_deref(),
        Some("API key 'b': env var 'FORMS' is set but empty")
    );
    let none = resolve_api_keys(&config(), &env(&[("UNIFIED_API_KEY", "")]));
    assert!(none.unwrap_or_else(|e| panic!("{}", e)).is_empty());
    assert_eq!(ResolvedApiKey::admin("s".to_string()).secret, "s");
}

#[test]
fn what_has_an_interval_runs_by_itself() {
    let mut sources = StrMap::new();
    sources.insert(
        "b".to_string(),
        Source { sync_interval_seconds: Some(30), ..source_of("b", 1) },
    );
    sources.insert(
        "a".to_string(),
        Source { sync_interval_seconds: Some(60), ..source_of("a", 1) },
    );
    sources.insert("never".to_string(), source_of("n", 1));
    sources.insert(
        "zero".to_string(),
        Source { sync_interval_seconds: Some(0), ..source_of("z", 1) },
    );
    let tasks: Vec<(String, u64)> =
        sync_tasks(&sources).into_iter().map(|t| (t.id, t.interval_seconds)).collect();
    assert_eq!(tasks, vec![("a".to_string(), 60), ("b".to_string(), 30)]);

    let mut enrichers = StrMap::new();
    enrichers.insert("e".to_string(), enricher(Some(5)));
    enrichers.insert("f".to_string(), enricher(None));
    let tasks = enricher_tasks(&enrichers);
    assert_eq!(tasks.len(), 1);
    assert_eq!(tasks[0].id, "e");
    assert_eq!(tasks[0].interval_seconds, 5);
}

#[test]
fn readiness_is_about_one_source_or_about_all() {
    let mut cfg = config();
    cfg.sources.insert("src".to_string(), source_of("s", 60));
    cfg.sources.insert("other".to_string(), source_of("o", 60));
    let mut cache = MemoryCache::new();
    assert!(!readyz(&cache, &runtime_config(&cfg)));
    cache.set("src", CacheEntry::new(Dataset::default(), 60));
    assert!(readyz(&cache, &runtime_config(&cfg)));
    cfg.server.readyz_require_all_sources = true;
    assert!(!readyz(&cache, &runtime_config(&cfg)));
    cache.set("other", CacheEntry::new(Dataset::default(), 60));
    assert!(readyz(&cache, &runtime_config(&cfg)));
}

#[test]
fn the_cached_sources_are_listed() {
    let mut cache = cached();
    cache.set("old", CacheEntry::restore(Dataset::default(), 5, 50, StrMap::new()));
    let listed = list_cached_sources(&cache);
    assert_eq!(listed.len(), 2);
    assert_eq!(listed[0].source_id, "old");
    assert!(!listed[0].is_fresh);
    assert_eq!(listed[0].age_seconds, 50);
    assert_eq!(listed[1].source_id, "src");
    assert!(listed[1].is_fresh);
    assert_eq!(listed[1].total_hosts, 2);
}

#[test]
fn a_status_tells_of_every_host_by_its_own_time_to_live() {
    let cache = cached();
    let mut sources = StrMap::new();
    let mut source = source_of("s", 60);
    source.ttl_overrides.groups.insert("web".to_string(), 7);
    source.ttl_overrides.hosts.insert("b".to_string(), 500);
    sources.insert("src".to_string(), source);
    let all = StatusParams { host: None, group: None };

    let status = source_status(&cache, &sources, "src", &all).unwrap();
    assert_eq!(status.total_hosts, 2);
    assert_eq!(status.ttl_seconds, 60);
    let told: Vec<(&str, u64, bool)> = status
        .hosts
        .iter()
        .map(|h| (h.hostname.as_str(), h.ttl_seconds, h.is_fresh))
        .collect();
    assert_eq!(told, vec![("a", 7, true), ("b", 500, true)]);
    assert!(status.hosts[1].age_seconds >= 100);

    // without the source's overrides, the entry's time to live decides
    let status = source_status(&cache, &StrMap::new(), "src", &all).unwrap();
    assert_eq!(status.hosts[1].ttl_seconds, 60);
    assert!(!status.hosts[1].is_fresh);

    let web = StatusParams { host: None, group: Some("web".to_string()) };
    let status = source_status(&cache, &sources, "src", &web).unwrap();
    assert_eq!(status.hosts.len(), 1);
    assert_eq!(status.hosts[0].hostname, "a");
    let one = StatusParams { host: Some("b".to_string()), group: None };
    let status = source_status(&cache, &sources, "src", &one).unwrap();
    assert_eq!(status.hosts.len(), 1);
    assert_eq!(status.hosts[0].hostname, "b");
    assert!(source_status(&cache, &sources, "none", &all).is_none());
}

#[test]
fn a_cached_source_is_served_as_it_was_serialized() {
    let cache = cached();
    let first = get_source_dataset(&cache, "src").unwrap();
    let again = get_source_dataset(&cache, "src").unwrap();
    assert!(std::sync::Arc::ptr_eq(&first, &again), "serialized once");
    assert!(get_source_dataset(&cache, "none").is_none());
}

#[test]
fn hosts_are_put_and_deleted_one_by_one() {
    let mut cache = cached();
    assert!(put_host(&mut cache, "src", "c", vars_of(&[("y", text("2"))])));
    assert!(!put_host(&mut cache, "none", "c", HostVars::new()));
    let entry = cache.get("src").unwrap();
    assert_eq!(entry.dataset().hostvars.get("c").unwrap().get("y"), Some(&text("2")));
    assert_eq!(entry.host_age_seconds("c"), Some(0));

    assert!(delete_host(&mut cache, "src", "a"));
    assert!(!delete_host(&mut cache, "src", "a"), "it is gone already");
    assert!(!delete_host(&mut cache, "none", "a"));
    let entry = cache.get("src").unwrap();
    assert!(!entry.dataset().hostvars.contains_key("a"));
    assert!(!entry.dataset().groups.get("web").is_some_and(|g| g.hosts.contains(&"a".to_string())));
}

#[test]
fn a_scope_is_read_off_the_request() {
    let scope = |host: Option<&str>, group: Option<&str>| {
        sync_scope(&SyncParams { host: host.map(str::to_string), group: group.map(str::to_string) })
    };
    assert!(matches!(scope(None, None), SyncScope::Full));
    assert!(matches!(scope(None, Some("web")), SyncScope::Group(g) if g == "web"));
    assert!(
        matches!(scope(Some("a, b,,"), Some("web")), SyncScope::Hosts(h) if h == ["a", "b"])
    );
    assert!(matches!(scope(Some(" , "), Some("web")), SyncScope::Group(g) if g == "web"));
}

#[test]
fn outcomes_are_told_with_their_source() {
    let told = sync_result(
        "src".to_string(),
        SyncOutcome {
            scope: "full".to_string(),
            total_hosts: 3,
            total_groups: 2,
            duration_ms: 17,
            coalesced: false,
            error: Some("no".to_string()),
        },
    );
    assert!(!told.success);
    assert_eq!((told.total_hosts, told.total_groups, told.sync_duration_ms), (3, 2, 17));
    assert_eq!(told.error.as_deref(), Some("no"));

    let told = enrich_result(
        "src".to_string(),
        "en".to_string(),
        EnrichOutcome { hosts_updated: 4, hosts_removed: 1, duration_ms: 9, error: None },
    );
    assert!(told.success);
    assert_eq!((told.source_id.as_str(), told.enricher_id.as_str()), ("src", "en"));
    assert_eq!((told.hosts_updated, told.hosts_removed, told.duration_ms), (4, 1, 9));
}

#[test]
fn a_change_of_the_configuration_writes_and_deletes() {
    assert!(ConfigChange::default().is_empty());
    let mut files = StrMap::new();
    files.insert("sources.yaml".to_string(), "{}".to_string());
    let write = ConfigChange::writing(files);
    assert!(!write.is_empty());
    assert!(!write.prune);
    let delete = ConfigChange::deleting("views.yaml");
    assert!(delete.delete.contains("views.yaml"));
    assert!(delete.write.is_empty());
    assert!(!delete.is_empty());
}
