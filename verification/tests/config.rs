use unified_api::config::{
    load_config, AppConfig, CacheConfig, ConfigFiles, PersistenceConfig, ProjectsConfig, RestartOnlySettings,
    SecretsConfig, ServerConfig, ServerFile, Surroundings, VaultConfig,
};
use unified_api::cron::cron_error;
use unified_api::domain::api_key::{ApiKeyDef, ApiKeyRole};
use unified_api::domain::credential::{Credential, CredentialType};
use unified_api::domain::endpoint::{EndpointLimit, OutputEndpoint, OutputFormat as EndpointFormat};
use unified_api::domain::enricher::Enricher;
use unified_api::domain::project::{default_branch, GitProject};
use unified_api::domain::source::{
    AdvertisedScope, ConnectVia, ConnectorType, HostsFromSource, MatchPattern, OutputFormat, Source, TtlOverrides,
};
use unified_api::domain::sync_mode::SyncMode;
use unified_api::domain::view::{Ownership, View, ViewMember};
use unified_api::model::Same;
use unified_api::strmap::{StrMap, StrSet};

fn strings(list: &[&str]) -> Vec<String> {
    list.iter().map(|item| item.to_string()).collect()
}

fn one<V: Same>(key: &str, value: V) -> Option<StrMap<V>> {
    let mut map = StrMap::new();
    map.insert(key.to_string(), value);
    Some(map)
}

fn server_file() -> ServerFile {
    ServerFile {
        server: ServerConfig {
            host: "127.0.0.1".to_string(),
            port: 9090,
            cors_allowed_origins: vec![],
            readyz_require_all_sources: false,
            metrics_require_auth: false,
            refresh_timeout_seconds: 10,
            refresh_max_concurrent: 4,
            shutdown_grace_seconds: 10,
        },
        cache: CacheConfig { persistence: None },
        projects: ProjectsConfig { dir: "/data/projects".to_string() },
        secrets: SecretsConfig { cache_ttl_seconds: 300, vault: None },
    }
}

fn bare() -> ConfigFiles {
    ConfigFiles {
        server_file: Ok(server_file()),
        credentials: Ok(None),
        sources: Ok(None),
        views: Ok(None),
        enrichers: Ok(None),
        projects: Ok(None),
        endpoints: Ok(None),
        api_keys: Ok(None),
    }
}

fn around() -> Surroundings {
    Surroundings { invalid_crons: StrMap::new(), files: StrSet::new() }
}

fn load(files: ConfigFiles) -> Result<AppConfig, String> {
    load_config(files, &around())
}

fn load_err(files: ConfigFiles) -> String {
    load(files).err().expect("expected validation error")
}

fn project() -> GitProject {
    GitProject {
        name: "Test".to_string(),
        git_url: "https://example.com/repo.git".to_string(),
        branch: default_branch(),
        credential_id: None,
        sync_interval_seconds: None,
        schedule: None,
        timeout_seconds: 300,
        python_venv: false,
        sync_on_boot: true,
    }
}

fn source(project_id: &str) -> Source {
    Source {
        name: "Test".to_string(),
        project_id: project_id.to_string(),
        script_path: "test.py".to_string(),
        script_args: vec![],
        connector_type: ConnectorType::Script,
        output_format: OutputFormat::Native,
        timeout_seconds: 300,
        sync_mode: SyncMode::Replace,
        credential_ids: vec![],
        schedule: None,
        sync_interval_seconds: None,
        ttl_seconds: 60,
        ttl_overrides: TtlOverrides::default(),
        hosts_from_source: None,
        allow_on_demand_refresh: false,
        advertise_scope: None,
        config: StrMap::new(),
    }
}

fn enricher(target_id: &str) -> Enricher {
    Enricher {
        name: "Test".to_string(),
        target_id: target_id.to_string(),
        script_path: Some("test.py".to_string()),
        script_args: vec![],
        project_id: None,
        source_id: None,
        fields: None,
        fields_excluded: None,
        groups: None,
        groups_excluded: None,
        sync_interval_seconds: None,
        schedule: None,
        config: StrMap::new(),
        timeout_seconds: 300,
    }
}

fn endpoint(source_ids: &[&str]) -> OutputEndpoint {
    OutputEndpoint {
        name: "Test".to_string(),
        source_ids: strings(source_ids),
        output: None,
        script_path: Some("test.py".to_string()),
        script_args: vec![],
        project_id: None,
        config: StrMap::new(),
        limit: None,
        timeout_seconds: None,
    }
}

fn credential() -> Credential {
    Credential {
        name: "Test".to_string(),
        credential_type: CredentialType::Token,
        vault_path: None,
        env_prefix: Some("TEST".to_string()),
        secret_file: None,
        secret_keys: StrMap::new(),
        file_keys: StrMap::new(),
    }
}

fn hosts_from(source: &str) -> Option<HostsFromSource> {
    Some(HostsFromSource {
        source: source.to_string(),
        match_pattern: MatchPattern { groups: vec![], hosts: vec![] },
        connect_via: ConnectVia::Hostname,
    })
}

fn member(source: &str, owner: &str) -> ViewMember {
    ViewMember {
        source: source.to_string(),
        owns: Ownership {
            source: owner.to_string(),
            groups: vec![],
            hosts: vec![],
            advertised: false,
        },
    }
}

fn view(name: &str, members: Vec<ViewMember>) -> View {
    View { name: name.to_string(), members, ttl_seconds: None }
}

// One source and one project.
fn with_one_source() -> ConfigFiles {
    ConfigFiles {
        projects: Ok(one("prj-test", project())),
        sources: Ok(one("src-a", source("prj-test"))),
        ..bare()
    }
}

fn with_sources(list: Vec<(&str, Source)>) -> ConfigFiles {
    let mut sources = StrMap::new();
    for (id, source) in list {
        sources.insert(id.to_string(), source);
    }
    ConfigFiles { sources: Ok(Some(sources)), ..with_one_source() }
}

#[test]
fn load_config_from_directory() {
    let files = ConfigFiles { credentials: Ok(one("cred-test", credential())), ..bare() };
    let cfg = load(files).unwrap_or_else(|e| panic!("{}", e));

    assert_eq!(cfg.server.host, "127.0.0.1");
    assert_eq!(cfg.server.port, 9090);
    assert_eq!(cfg.credentials.len(), 1);
    assert!(cfg.credentials.contains_key("cred-test"));
    // a file that does not exist holds nothing, which is no error
    assert_eq!(cfg.sources.len(), 0);
}

#[test]
fn load_config_fails_without_server_config() {
    let files = ConfigFiles { server_file: Err("no such file".to_string()), ..bare() };
    assert!(load(files).is_err());
}

#[test]
fn the_first_file_that_cannot_be_read_is_named() {
    let files = ConfigFiles {
        views: Err("views".to_string()),
        sources: Err("sources".to_string()),
        ..bare()
    };
    assert_eq!(load_err(files), "sources");
}

#[test]
fn validate_catches_enricher_with_unknown_source() {
    let files =
        ConfigFiles { enrichers: Ok(one("enrich-test", enricher("src-nonexistent"))), ..bare() };
    assert!(load_err(files).contains("src-nonexistent"));
}

#[test]
fn validate_catches_endpoint_with_unknown_source() {
    let files = ConfigFiles { endpoints: Ok(one("ep-test", endpoint(&["src-ghost"]))), ..bare() };
    assert!(load_err(files).contains("src-ghost"));
}

#[test]
fn validate_catches_source_with_unknown_project() {
    let files = ConfigFiles { sources: Ok(one("src-test", source("prj-ghost"))), ..bare() };
    assert!(load_err(files).contains("prj-ghost"));
}

#[test]
fn validate_catches_a_missing_ssh_known_hosts_file() {
    let fleet = || {
        let mut fleet =
            Source { connector_type: ConnectorType::Ssh, ..source("prj-test") };
        fleet.config.insert("hosts".to_string(), "a.example".to_string());
        fleet.config.insert("ssh_known_hosts".to_string(), "/etc/known_hosts".to_string());
        with_sources(vec![("src-fleet", fleet)])
    };

    // the file does not exist yet: the start must fail and name the path
    let err = load_err(fleet());
    assert!(err.contains("ssh_known_hosts"), "{}", err);

    // creating the file is all it takes
    let mut files = StrSet::new();
    files.insert("/etc/known_hosts".to_string());
    let around = Surroundings { invalid_crons: StrMap::new(), files };
    assert!(load_config(fleet(), &around).is_ok(), "an existing file must validate");
}

#[test]
fn validate_catches_ssh_known_hosts_on_a_non_ssh_source() {
    let mut script = source("prj-test");
    script.config.insert("ssh_known_hosts".to_string(), "/anywhere".to_string());
    let err = load_err(with_sources(vec![("src-script", script)]));
    assert!(err.contains("not an ssh source"), "{}", err);
}

#[test]
fn validate_catches_project_with_unknown_credential() {
    let project = GitProject { credential_id: Some("cred-ghost".to_string()), ..project() };
    let files = ConfigFiles { projects: Ok(one("prj-test", project)), ..bare() };
    assert!(load_err(files).contains("cred-ghost"));
}

#[test]
fn validate_accepts_source_with_existing_project() {
    let cfg = load(with_one_source()).unwrap_or_else(|e| panic!("{}", e));
    assert_eq!(cfg.projects.len(), 1);
}

#[test]
fn validate_catches_enricher_with_unknown_project() {
    let enricher = Enricher { project_id: Some("prj-ghost".to_string()), ..enricher("src-a") };
    let files = ConfigFiles { enrichers: Ok(one("enrich-test", enricher)), ..with_one_source() };
    assert!(load_err(files).contains("prj-ghost"));
}

#[test]
fn validate_hosts_from_source_rules() {
    // at once: not an ssh source, a source that uses itself, and both lists of hosts
    let script = Source { hosts_from_source: hosts_from("src-ssh"), ..source("prj-test") };
    let mut ssh = Source {
        connector_type: ConnectorType::Ssh,
        hosts_from_source: hosts_from("src-ssh"),
        ..source("prj-test")
    };
    ssh.config.insert("hosts".to_string(), "a.example.com".to_string());

    let err = load_err(with_sources(vec![("src-script", script), ("src-ssh", ssh)]));
    assert!(err.contains("not an ssh source"), "missing rule: {}", err);
    assert!(err.contains("cannot use itself"), "missing rule: {}", err);
    assert!(err.contains("pick one"), "missing rule: {}", err);
}

#[test]
fn validate_hosts_from_source_unknown_source() {
    let ssh = Source {
        connector_type: ConnectorType::Ssh,
        hosts_from_source: hosts_from("src-ghost"),
        ..source("prj-test")
    };
    let err = load_err(with_sources(vec![("src-ssh", ssh)]));
    assert!(err.contains("src-ghost"), "error was: {}", err);
}

#[test]
fn validate_view_rules() {
    let mut views = StrMap::new();
    // its id is that of a source, and its member is unknown
    views.insert("src-a".to_string(), view("Collides", vec![member("src-ghost", "src-a")]));
    // lists the same member twice, and owns against an unknown source
    views.insert(
        "vw-dup".to_string(),
        view("Dup", vec![member("src-a", "src-a"), member("src-a", "src-nowhere")]),
    );
    // no members at all
    views.insert("vw-empty".to_string(), view("Empty", vec![]));

    let err = load_err(ConfigFiles { views: Ok(Some(views)), ..with_one_source() });
    assert!(err.contains("same id as a source"), "missing rule: {}", err);
    assert!(err.contains("src-ghost"), "missing rule: {}", err);
    assert!(err.contains("twice"), "missing rule: {}", err);
    assert!(err.contains("src-nowhere"), "missing rule: {}", err);
    assert!(err.contains("has no members"), "missing rule: {}", err);
}

#[test]
fn validate_rejects_a_view_as_a_views_member() {
    let mut views = StrMap::new();
    views.insert("vw-inner".to_string(), view("Inner", vec![member("src-a", "src-a")]));
    views.insert("vw-outer".to_string(), view("Outer", vec![member("vw-inner", "src-a")]));
    let files = ConfigFiles { views: Ok(Some(views)), ..with_one_source() };
    assert!(load_err(files).contains("views do not nest"));
}

#[test]
fn validate_rejects_an_endpoint_or_enricher_pointed_at_a_view() {
    let files = ConfigFiles {
        views: Ok(one("vw-a", view("V", vec![member("src-a", "src-a")]))),
        endpoints: Ok(one("ep-a", endpoint(&["vw-a"]))),
        enrichers: Ok(one("en-a", enricher("vw-a"))),
        ..with_one_source()
    };
    let err = load_err(files);
    assert!(err.contains("output endpoints read cached"), "{}", err);
    assert!(err.contains("no cache entry to write into"), "{}", err);
}

#[test]
fn a_restricted_api_key_may_be_granted_a_view_by_its_id() {
    let key = ApiKeyDef {
        name: "Forms".to_string(),
        env: "X".to_string(),
        role: ApiKeyRole::Restricted,
        sources: strings(&["vw-a"]),
        endpoints: vec![],
    };
    let files = ConfigFiles {
        views: Ok(one("vw-a", view("V", vec![member("src-a", "src-a")]))),
        api_keys: Ok(one("key-forms", key)),
        ..with_one_source()
    };
    let cfg = load(files).unwrap_or_else(|e| panic!("a view id is a valid grant: {}", e));
    assert_eq!(cfg.views.len(), 1);
}

#[test]
fn an_advertised_local_member_needs_a_claim_or_a_fallback() {
    let with_member = |groups: &[&str]| {
        let mut advertised = member("src-a", "src-a");
        advertised.owns.advertised = true;
        advertised.owns.groups = strings(groups);
        ConfigFiles { views: Ok(one("vw-a", view("V", vec![advertised]))), ..with_one_source() }
    };
    // the source makes no claim: there is nothing to route by
    assert!(load_err(with_member(&[])).contains("claim nothing"));

    // a declared fallback makes it valid
    assert!(load(with_member(&["dc1"])).is_ok(), "fallback makes it valid");
}

#[test]
fn an_empty_advertise_scope_fails_validation() {
    let empty = Source {
        advertise_scope: Some(AdvertisedScope { groups: vec![], hosts: vec![] }),
        ..source("prj-test")
    };
    assert!(load_err(with_sources(vec![("src-a", empty)])).contains("advertise_scope"));
}

#[test]
fn validate_cron_schedule_rules() {
    let bad = Source {
        schedule: Some("whenever feels right".to_string()),
        ..source("prj-test")
    };
    let both = Source {
        schedule: Some("0 2 * * *".to_string()),
        sync_interval_seconds: Some(60),
        ..source("prj-test")
    };
    let mut invalid_crons = StrMap::new();
    invalid_crons.insert("whenever feels right".to_string(), "five fields expected".to_string());
    let around = Surroundings { invalid_crons, files: StrSet::new() };

    let err = load_config(with_sources(vec![("src-bad", bad), ("src-both", both)]), &around)
        .err()
        .expect("expected validation errors");
    assert!(err.contains("src-bad"), "missing rule: {}", err);
    assert!(err.contains("invalid cron"), "missing rule: {}", err);
    assert!(err.contains("pick one"), "missing rule: {}", err);

    // with a valid schedule alone, it loads
    let cron = Source { schedule: Some("30 2 * * *".to_string()), ..source("prj-test") };
    assert!(
        load_config(with_sources(vec![("src-cron", cron)]), &around).is_ok(),
        "a valid cron schedule loads"
    );
}

#[test]
fn a_vault_path_without_a_vault_block_fails_validation() {
    let files = |server: ServerFile| ConfigFiles {
        server_file: Ok(server),
        credentials: Ok(one(
            "cred-v",
            Credential {
                name: "V".to_string(),
                vault_path: Some("team/api".to_string()),
                env_prefix: None,
                ..credential()
            },
        )),
        ..bare()
    };
    let err = load_err(files(server_file()));
    assert!(err.contains("secrets.vault"), "error was: {}", err);

    // declaring the Vault is all it takes
    let mut server = server_file();
    let mut settings = StrMap::new();
    settings.insert("address".to_string(), "http://vault.example:8200".to_string());
    server.secrets.vault = Some(VaultConfig { settings });
    assert!(load(files(server)).is_ok(), "a configured Vault validates");
}

#[test]
fn validate_catches_source_with_unknown_credential() {
    let source = Source { credential_ids: strings(&["cred-missing"]), ..source("p") };
    let files = ConfigFiles { sources: Ok(one("src-test", source)), ..bare() };
    assert!(load_err(files).contains("cred-missing"));
}

#[test]
fn what_needs_a_restart_is_told_in_order() {
    let load = |server: ServerFile| {
        let files = ConfigFiles { server_file: Ok(server), ..bare() };
        RestartOnlySettings::from_config(&load(files).unwrap_or_else(|e| panic!("{}", e)))
    };
    let before = load(server_file());
    assert!(before.changed_keys(&before).is_empty());
    let mut server = server_file();
    server.server.port = 80;
    server.server.host = "0.0.0.0".to_string();
    server.server.cors_allowed_origins = strings(&["*"]);
    server.projects.dir = "/elsewhere".to_string();
    server.cache.persistence =
        Some(PersistenceConfig { path: "/tmp/c.json".to_string(), interval_seconds: 60 });
    // this one is adopted without a restart
    server.server.metrics_require_auth = true;
    assert_eq!(
        before.changed_keys(&load(server)),
        vec![
            "cache.persistence",
            "projects.dir",
            "server.cors_allowed_origins",
            "server.host",
            "server.port"
        ]
    );
}

fn with_endpoint(endpoint: OutputEndpoint) -> ConfigFiles {
    ConfigFiles { endpoints: Ok(one("ep-a", endpoint)), ..with_one_source() }
}

#[test]
fn an_endpoint_transforms_in_exactly_one_way() {
    assert!(load(with_endpoint(endpoint(&["src-a"]))).is_ok());
    let builtin = || OutputEndpoint {
        output: Some(EndpointFormat::Ansible),
        script_path: None,
        ..endpoint(&["src-a"])
    };
    assert!(load(with_endpoint(builtin())).is_ok());

    let both = OutputEndpoint { output: Some(EndpointFormat::Csv), ..endpoint(&["src-a"]) };
    let neither = OutputEndpoint { script_path: None, ..endpoint(&["src-a"]) };
    for wrong in [both, neither] {
        assert_eq!(
            load_err(with_endpoint(wrong)),
            "Configuration errors:\n  - Endpoint 'ep-a' needs exactly one of output (builtin) or script_path (script)"
        );
    }

    let of_project =
        OutputEndpoint { project_id: Some("prj-test".to_string()), ..builtin() };
    assert!(load_err(with_endpoint(of_project)).contains("project_id"));
    let timed = OutputEndpoint { timeout_seconds: Some(5), ..builtin() };
    assert!(load_err(with_endpoint(timed)).contains("timeout_seconds"));
}

#[test]
fn a_limit_names_one_of_the_endpoints_sources() {
    let limited = |by: Option<&str>| OutputEndpoint {
        limit: Some(EndpointLimit { by_hosts_from_inventory: by.map(str::to_string) }),
        ..endpoint(&["src-a"])
    };
    assert!(load(with_endpoint(limited(Some("src-a")))).is_ok());
    assert!(load_err(with_endpoint(limited(Some("src-b")))).contains("'src-b'"));
    assert!(load_err(with_endpoint(limited(None))).contains("empty limit"));
}

#[test]
fn the_schedules_of_enrichers_and_projects_are_checked_too() {
    let schedule = |expression: &str| Some(expression.to_string());
    let files = ConfigFiles {
        enrichers: Ok(one("en-a", Enricher { schedule: schedule("junk"), ..enricher("src-a") })),
        projects: Ok(one(
            "prj-test",
            GitProject {
                schedule: schedule("0 2 * * *"),
                sync_interval_seconds: Some(60),
                ..project()
            },
        )),
        ..with_one_source()
    };
    let mut invalid_crons = StrMap::new();
    invalid_crons.insert("junk".to_string(), "no".to_string());
    let around = Surroundings { invalid_crons, files: StrSet::new() };
    let err = load_config(files, &around).err().expect("both are wrong");
    assert!(err.contains("Enricher 'en-a' has an invalid cron schedule 'junk': no"), "{}", err);
    assert!(err.contains("Project 'prj-test' sets both schedule and sync_interval_seconds"), "{}", err);
}

#[test]
fn a_remote_source_needs_an_address() {
    let remote = || Source { connector_type: ConnectorType::Remote, ..source("prj-test") };
    assert!(load_err(with_sources(vec![("src-r", remote())])).contains("'url'"));
    let mut addressed = remote();
    addressed.config.insert("url".to_string(), "http://edge".to_string());
    assert!(load(with_sources(vec![("src-r", addressed)])).is_ok());
}

#[test]
fn a_restricted_key_opens_what_is_there() {
    let key = |role: ApiKeyRole| ApiKeyDef {
        name: "k".to_string(),
        env: "K".to_string(),
        role,
        sources: strings(&["src-a", "src-ghost"]),
        endpoints: strings(&["ep-ghost"]),
    };
    let files = |role| ConfigFiles { api_keys: Ok(one("key", key(role))), ..with_one_source() };
    let err = load_err(files(ApiKeyRole::Restricted));
    assert!(err.contains("unknown source or view 'src-ghost'"), "{}", err);
    assert!(err.contains("unknown endpoint 'ep-ghost'"), "{}", err);
    assert!(load(files(ApiKeyRole::Admin)).is_ok());
}

#[test]
fn a_cron_expression_has_five_or_six_readable_fields() {
    assert_eq!(cron_error("30 2 * * *"), None);
    assert_eq!(cron_error("  0 */15 8-18  * *\t1,2 "), None);
    assert_eq!(
        cron_error("whenever feels right"),
        Some("expected 5 or 6 fields, found 3".to_string())
    );
    assert_eq!(cron_error(""), Some("expected 5 or 6 fields, found 0".to_string()));
    assert_eq!(
        cron_error("1 2 soon * later"),
        Some("cannot read the field 'soon'".to_string())
    );
}
