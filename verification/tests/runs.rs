use std::time::Instant;
use unified_api::application::config::SectionDelta;
use unified_api::application::credentials::{credential_error, CredentialResolution};
use unified_api::application::projects::{
    begin_project, next_step, settle_project, syncs_on_boot, ProjectEvent, ProjectStep,
};
use unified_api::application::refresh::{
    begin_refresh, finish_refresh, resume_refresh, stale_hosts_at, RefreshCoordinator, RefreshOutcome, RefreshStart,
    RefreshSync, RefreshTurn,
};
use unified_api::application::scripts::{
    resolve_script_path, script_candidate, venv_bin_candidate, venv_bin_dir,
};
use unified_api::application::sync::{SyncOutcome, SyncScope};
use unified_api::domain::cache_entry::CacheEntry;
use unified_api::domain::dataset::{Dataset, Group, HostVars};
use unified_api::domain::project::{default_branch, GitProject};
use unified_api::domain::sync_health::SyncHealthRegistry;
use unified_api::json::Json;
use unified_api::ports::cache::{CachePort, MemoryCache};
use unified_api::ports::git::GitError;
use unified_api::ports::secrets::SecretsError;
use unified_api::ports::venv::{VenvError, VenvOutcome};
use unified_api::strmap::{StrMap, StrSet};
use unified_api::domain::source::{ConnectorType, OutputFormat, Source, TtlOverrides};
use unified_api::domain::sync_mode::SyncMode;

fn text(value: &str) -> Json {
    Json::Str(value.to_string())
}

fn vars_of(pairs: &[(&str, Json)]) -> HostVars {
    let mut vars = HostVars::new();
    for (key, value) in pairs {
        vars.insert(key.to_string(), value.clone());
    }
    vars
}

fn group_of(hosts: &[&str], children: &[&str], vars: &[(&str, Json)]) -> Group {
    Group {
        hosts: hosts.iter().map(|h| h.to_string()).collect(),
        children: children.iter().map(|c| c.to_string()).collect(),
        vars: if vars.is_empty() { None } else { Some(vars_of(vars)) },
    }
}

fn dataset_of(hosts: Vec<(&str, HostVars)>, groups: Vec<(&str, Group)>) -> Dataset {
    let mut dataset = Dataset::default();
    for (name, vars) in hosts {
        dataset.hostvars.insert(name.to_string(), vars);
    }
    for (name, group) in groups {
        dataset.groups.insert(name.to_string(), group);
    }
    dataset
}

fn source_of(name: &str, ttl_seconds: u64) -> Source {
    Source {
        name: name.to_string(),
        project_id: "test".to_string(),
        script_path: "x".to_string(),
        script_args: vec![],
        connector_type: ConnectorType::Script,
        output_format: OutputFormat::Native,
        timeout_seconds: 300,
        sync_mode: SyncMode::Replace,
        credential_ids: vec![],
        schedule: None,
        sync_interval_seconds: None,
        ttl_seconds,
        ttl_overrides: TtlOverrides::default(),
        hosts_from_source: None,
        allow_on_demand_refresh: false,
        advertise_scope: None,
        config: StrMap::new(),
    }
}

fn strings(list: &[&str]) -> Vec<String> {
    list.iter().map(|item| item.to_string()).collect()
}

fn bytes(pairs: &[(&str, u8)]) -> StrMap<u8> {
    let mut map = StrMap::new();
    for (key, value) in pairs {
        map.insert(key.to_string(), *value);
    }
    map
}

#[test]
fn a_delta_names_what_arrived_left_and_changed() {
    let old = bytes(&[("a", 1), ("b", 2)]);
    let new = bytes(&[("b", 9), ("c", 3)]);

    let delta = SectionDelta::between(&old, &new);

    assert_eq!(delta.added, vec!["c"]);
    assert_eq!(delta.removed, vec!["a"]);
    assert_eq!(delta.changed, vec!["b"]);
    assert_eq!(delta.total(), 3);
}

#[test]
fn an_identical_map_is_an_empty_delta() {
    let map = bytes(&[("a", 1)]);
    assert!(SectionDelta::between(&map, &map).is_empty());
}

#[test]
fn a_delta_can_be_turned_round() {
    let one = bytes(&[("a", 1), ("b", 2), ("c", 3)]);
    let two = bytes(&[("b", 3), ("c", 3), ("d", 4)]);
    let there = SectionDelta::between(&one, &two);
    let back = SectionDelta::between(&two, &one);
    assert_eq!(there.added, back.removed);
    assert_eq!(there.removed, back.added);
    assert_eq!(there.changed, back.changed);
}

#[test]
fn a_delta_counts_each_id_once() {
    let one = bytes(&[("a", 1), ("b", 2), ("c", 3)]);
    let two = bytes(&[("b", 3), ("c", 3), ("d", 4)]);
    assert_eq!(SectionDelta::between(&one, &two).total(), 3);
    assert_eq!(SectionDelta::between(&two, &one).total(), 3);
    assert_eq!(SectionDelta::between(&one, &one).total(), 0);
}

// Resolves the credentials against a store that has these secrets.
fn resolve(ids: &[&str], store: &[(&str, &str, &str)]) -> Result<StrMap<String>, SecretsError> {
    let mut resolution = CredentialResolution::begin(&strings(ids));
    loop {
        let id = match resolution.next() {
            Some(id) => id.clone(),
            None => return Ok(resolution.finish()),
        };
        let mut found = StrMap::new();
        for (owner, key, value) in store {
            if *owner == id {
                found.insert(key.to_string(), value.to_string());
            }
        }
        let answer = if found.is_empty() {
            Err(SecretsError { message: "unknown credential".to_string() })
        } else {
            Ok(found)
        };
        resolution = resolution.answered(answer)?;
    }
}

#[test]
fn no_credential_ids_resolve_to_an_empty_map() {
    assert!(resolve(&[], &[]).expect("empty is fine").is_empty());
}

#[test]
fn a_failing_credential_halts_and_names_itself() {
    let err = resolve(&["cred-ghost"], &[]).err().expect("no such credential");
    assert!(err.message.contains("cred-ghost"), "error was: {}", err.message);
}

#[test]
fn of_two_credentials_the_later_wins() {
    let store = [("one", "user", "a"), ("one", "token", "t"), ("two", "user", "b")];
    let secrets = resolve(&["one", "two"], &store).unwrap_or_else(|e| panic!("{}", e.message));
    assert_eq!(secrets.get("user").map(String::as_str), Some("b"));
    assert_eq!(secrets.get("token").map(String::as_str), Some("t"));
    assert_eq!(credential_error("x", "why"), resolve_error("x", "why"));
}

fn resolve_error(id: &str, message: &str) -> String {
    let resolution = CredentialResolution::begin(&strings(&[id]));
    let answer = Err(SecretsError { message: message.to_string() });
    resolution.answered(answer).err().expect("it failed").message
}

fn project() -> GitProject {
    GitProject {
        name: "Test".to_string(),
        git_url: "https://example.com/repo.git".to_string(),
        branch: default_branch(),
        credential_id: None,
        sync_interval_seconds: None,
        schedule: None,
        timeout_seconds: 300,
        python_venv: false,
        sync_on_boot: true,
    }
}

#[derive(Default)]
struct Outside {
    git: Option<String>,
    git_hangs: bool,
    venv: Option<String>,
    venv_calls: usize,
}

// One update of a project, with all work outside played by `outside`.
fn sync_project(
    outside: &mut Outside,
    health: &mut SyncHealthRegistry,
    project_id: &str,
    project: &GitProject,
) -> Result<(), String> {
    let mut step = begin_project(project);
    let result = loop {
        let event = match &step {
            ProjectStep::Done => break Ok(()),
            ProjectStep::Resolve(id) => ProjectEvent::Credentials(
                resolve(&[id.as_str()], &[("cred-a", "token", "t")]).map(|_| ()),
            ),
            ProjectStep::Checkout => ProjectEvent::Checkout(if outside.git_hangs {
                None
            } else {
                Some(match &outside.git {
                    Some(message) => Err(GitError { message: message.clone() }),
                    None => Ok(()),
                })
            }),
            ProjectStep::Virtualenv => {
                outside.venv_calls += 1;
                ProjectEvent::Virtualenv(Some(match &outside.venv {
                    Some(message) => Err(VenvError { message: message.clone() }),
                    None => Ok(VenvOutcome::Installed),
                }))
            }
        };
        match next_step(project, event) {
            Ok(next) => step = next,
            Err(error) => break Err(error),
        }
    };
    let error = result.clone().err();
    settle_project(health, project_id, &error);
    result
}

#[test]
fn a_failed_pull_is_recorded_and_a_later_success_clears_it() {
    let mut health = SyncHealthRegistry::new();
    let mut failing =
        Outside { git: Some("remote unreachable".to_string()), ..Default::default() };
    sync_project(&mut failing, &mut health, "prj-a", &project()).expect_err("the stub fails");

    let recorded = health.get("prj-a").expect("failure must be recorded");
    assert_eq!(recorded.last_error.as_deref(), Some("remote unreachable"));
    assert_eq!(recorded.consecutive_failures, 1);

    sync_project(&mut Outside::default(), &mut health, "prj-a", &project())
        .expect("the stub succeeds");

    let recorded = health.get("prj-a").unwrap();
    assert_eq!(recorded.consecutive_failures, 0);
    assert_eq!(recorded.last_error, None);
}

#[test]
fn a_hung_git_remote_times_out_and_records_the_failure() {
    let mut health = SyncHealthRegistry::new();
    let project = GitProject { timeout_seconds: 30, ..project() };
    let mut hung = Outside { git_hangs: true, ..Default::default() };
    sync_project(&mut hung, &mut health, "prj-a", &project)
        .expect_err("the hung remote must time out");

    let recorded = health.get("prj-a").expect("failure must be recorded");
    assert!(
        recorded.last_error.as_deref().is_some_and(|e| e.contains("timed out after 30s")),
        "error was: {:?}",
        recorded.last_error
    );
}

#[test]
fn an_unresolvable_credential_is_a_recorded_failure_too() {
    let mut health = SyncHealthRegistry::new();
    let project = GitProject { credential_id: Some("cred-ghost".to_string()), ..project() };
    sync_project(&mut Outside::default(), &mut health, "prj-a", &project)
        .expect_err("the credential does not resolve");

    let recorded = health.get("prj-a").expect("failure must be recorded");
    assert!(recorded.last_error.as_deref().is_some_and(|e| e.contains("cred-ghost")));
}

#[test]
fn a_project_with_a_credential_is_checked_out_with_it() {
    let project = GitProject { credential_id: Some("cred-a".to_string()), ..project() };
    assert!(matches!(begin_project(&project), ProjectStep::Resolve(id) if id == "cred-a"));
    let mut health = SyncHealthRegistry::new();
    sync_project(&mut Outside::default(), &mut health, "prj-a", &project).expect("it succeeds");
}

#[test]
fn a_project_without_python_venv_never_builds_one() {
    let mut health = SyncHealthRegistry::new();
    let mut outside = Outside::default();
    sync_project(&mut outside, &mut health, "prj-a", &project()).expect("git succeeds");
    assert_eq!(
        outside.venv_calls, 0,
        "python_venv defaults to off: no venv work without the opt-in"
    );
}

#[test]
fn a_failing_venv_install_fails_the_sync_and_records_it() {
    let mut health = SyncHealthRegistry::new();
    let mut outside = Outside {
        venv: Some("pip could not find torch==999".to_string()),
        ..Default::default()
    };
    let project = GitProject { python_venv: true, ..project() };
    sync_project(&mut outside, &mut health, "prj-a", &project).expect_err("the venv step fails");

    assert_eq!(outside.venv_calls, 1);
    let recorded = health.get("prj-a").expect("failure recorded");
    assert!(
        recorded
            .last_error
            .as_deref()
            .is_some_and(|e| e.contains("venv") && e.contains("torch==999")),
        "error was: {:?}",
        recorded.last_error
    );
}

#[test]
fn a_project_is_synced_on_boot_unless_told_otherwise() {
    assert!(syncs_on_boot(&project(), true));
    assert!(syncs_on_boot(&project(), false));
    let quiet = GitProject { sync_on_boot: false, ..project() };
    assert!(!syncs_on_boot(&quiet, true));
    assert!(syncs_on_boot(&quiet, false), "without a checkout there is nothing to run");
}

#[test]
fn a_coordinator_hands_out_the_same_lock_for_the_same_host() {
    let mut coordinator = RefreshCoordinator::new(4, 10);
    let first = coordinator.lock_for("src-a", "h1.example");
    let again = coordinator.lock_for("src-a", "h1.example");
    assert_eq!(first, again);
}

#[test]
fn different_hosts_and_sources_get_different_locks() {
    let mut coordinator = RefreshCoordinator::new(4, 10);
    let a_h1 = coordinator.lock_for("src-a", "h1.example");
    assert_ne!(a_h1, coordinator.lock_for("src-a", "h2.example"));
    assert_ne!(a_h1, coordinator.lock_for("src-b", "h1.example"));
}

#[test]
fn a_zero_concurrency_limit_is_clamped_rather_than_deadlocking() {
    let mut coordinator = RefreshCoordinator::new(0, 10);
    assert_eq!(coordinator.permits(), 1);
    assert_eq!(coordinator.timeout_seconds(), 10);
    let lock = coordinator.lock_for("s", "h");
    coordinator.resize(0, 3);
    assert_eq!(coordinator.permits(), 1);
    coordinator.resize(7, 3);
    assert_eq!(coordinator.permits(), 7);
    assert_eq!(coordinator.timeout_seconds(), 3);
    assert_eq!(coordinator.lock_for("s", "h"), lock, "the locks stay");
}

#[test]
fn outcome_defaults_to_nothing_happened() {
    let outcome = RefreshOutcome::default();
    assert!(outcome.refreshed.is_empty());
    assert_eq!(outcome.already_fresh, 0);
    assert!(outcome.error.is_none());
}

fn refreshable() -> Source {
    Source { allow_on_demand_refresh: true, ..source_of("s", 60) }
}

fn aged_cache() -> MemoryCache {
    let mut entry = CacheEntry::new(Dataset::default(), 60);
    entry.update_host_aged("old".to_string(), vars_of(&[("x", text("1"))]), 500);
    entry.update_host_aged("new".to_string(), HostVars::new(), 0);
    let mut cache = MemoryCache::new();
    cache.set("src", entry);
    cache
}

#[test]
fn a_refresh_gathers_only_what_is_stale() {
    let cache = aged_cache();
    let source = refreshable();
    let hosts = strings(&["new", "old", "unknown"]);
    let now = Instant::now();
    let stale = stale_hosts_at(&cache, &source, "src", &hosts, None, now);
    assert_eq!(stale, vec!["old", "unknown"]);
    assert!(stale_hosts_at(&cache, &source, "src", &strings(&["old"]), Some(1000), now).is_empty());

    let hosts = strings(&["unknown", "old", "new"]);
    match begin_refresh(&cache, &source, "src", &hosts, None, now) {
        RefreshStart::Lock { stale, order } => {
            assert_eq!(stale, vec!["unknown", "old"]);
            assert_eq!(order, vec!["old", "unknown"], "in one order for everybody");
        }
        RefreshStart::Done(_) => panic!("two hosts are stale"),
    }
    let fresh = strings(&["new"]);
    match begin_refresh(&cache, &source, "src", &fresh, None, now) {
        RefreshStart::Done(outcome) => assert_eq!(outcome.already_fresh, 1),
        RefreshStart::Lock { .. } => panic!("nothing is stale"),
    }
}

#[test]
fn a_source_that_does_not_allow_it_is_not_refreshed() {
    let cache = aged_cache();
    let source = source_of("s", 60);
    match begin_refresh(&cache, &source, "src", &strings(&["old"]), None, Instant::now()) {
        RefreshStart::Done(outcome) => {
            assert!(outcome.refreshed.is_empty());
            assert_eq!(outcome.already_fresh, 0);
            assert_eq!(outcome.error, None);
        }
        RefreshStart::Lock { .. } => panic!("it is not allowed"),
    }
    // the hosts that are fresh count as fresh all the same
    let hosts = strings(&["new", "old"]);
    match begin_refresh(&cache, &source, "src", &hosts, None, Instant::now()) {
        RefreshStart::Done(outcome) => {
            assert!(outcome.refreshed.is_empty());
            assert_eq!(outcome.already_fresh, 1);
            assert_eq!(outcome.error, None);
        }
        RefreshStart::Lock { .. } => panic!("it is not allowed"),
    }
}

#[test]
fn whoever_waited_gathers_only_what_is_still_stale() {
    let mut cache = aged_cache();
    let source = refreshable();
    let found = strings(&["old", "unknown"]);
    match resume_refresh(&cache, &source, "src", 3, &found, None, Instant::now()) {
        RefreshTurn::Gather { still_stale, request } => {
            assert_eq!(still_stale, found);
            assert_eq!(request.trigger.as_deref(), Some("refresh"));
            assert!(request.refresh_origin && request.refresh_depth == 3);
            assert!(matches!(request.scope, SyncScope::Hosts(hosts) if hosts == found));
        }
        RefreshTurn::Done(_) => panic!("nobody refreshed them"),
    }
    let mut entry = cache.get("src").unwrap();
    entry.update_host("old".to_string(), HostVars::new());
    entry.update_host("unknown".to_string(), HostVars::new());
    cache.set("src", entry);
    match resume_refresh(&cache, &source, "src", 3, &found, None, Instant::now()) {
        RefreshTurn::Done(outcome) => {
            assert_eq!(outcome.already_fresh, 3);
            assert!(outcome.refreshed.is_empty());
        }
        RefreshTurn::Gather { .. } => panic!("others did it"),
    }
}

fn synced(error: Option<&str>) -> SyncOutcome {
    SyncOutcome {
        scope: "host:old".to_string(),
        total_hosts: 1,
        total_groups: 0,
        duration_ms: 4,
        coalesced: false,
        error: error.map(str::to_string),
    }
}

#[test]
fn a_refresh_that_fails_says_why_and_serves_what_is_cached() {
    let stale = || strings(&["old"]);
    let done = finish_refresh(3, stale(), RefreshSync::Synced(synced(None)), 10);
    assert_eq!(done.refreshed, vec!["old"]);
    assert_eq!(done.already_fresh, 2);
    assert_eq!(done.error, None);

    let failed = finish_refresh(1, stale(), RefreshSync::Synced(synced(Some("no route"))), 10);
    assert!(failed.refreshed.is_empty());
    assert_eq!(failed.error.as_deref(), Some("no route"));

    let late = finish_refresh(1, stale(), RefreshSync::TimedOut, 10);
    assert!(late.error.as_deref().is_some_and(|e| e.contains("10s")), "error was: {:?}", late.error);
    assert!(finish_refresh(1, stale(), RefreshSync::NoPermit, 10).error.is_some());
}

fn set_of(list: &[&str]) -> StrSet {
    let mut set = StrSet::new();
    for item in list {
        set.insert(item.to_string());
    }
    set
}

#[test]
fn a_script_inside_the_checkout_is_resolved_into_it() {
    let files = set_of(&["/srv/projects/prj-test/fetch.py"]);
    let resolved = resolve_script_path("/srv/projects", "prj-test", "fetch.py", &files);
    assert!(resolved.ends_with("prj-test/fetch.py"));
    assert!(resolved.starts_with("/srv/projects"));
}

#[test]
fn a_missing_checkout_keeps_the_configured_path() {
    // no checkout at all: the path does not change, so that scripts baked into the image
    // keep working
    let resolved = resolve_script_path("/srv/projects", "prj-test", "local/fetch.py", &set_of(&[]));
    assert_eq!(resolved, "local/fetch.py");
}

#[test]
fn a_script_missing_from_an_existing_checkout_keeps_the_configured_path() {
    let files = set_of(&["/srv/projects/prj-test/fetch.py"]);
    let resolved = resolve_script_path("/srv/projects", "prj-test", "typo.py", &files);
    assert_eq!(resolved, "typo.py");
}

#[test]
fn an_absolute_path_is_never_touched() {
    let files = set_of(&["/opt/fetch.py"]);
    let resolved = resolve_script_path("/srv/projects", "prj-test", "/opt/fetch.py", &files);
    assert_eq!(resolved, "/opt/fetch.py");
    assert_eq!(script_candidate("/srv/projects", "prj-test", "/opt/fetch.py"), None);
}

#[test]
fn a_checkout_appearing_later_is_picked_up() {
    let before = resolve_script_path("/srv/projects", "prj-test", "fetch.py", &set_of(&[]));
    assert_eq!(before, "fetch.py");

    let candidate = script_candidate("/srv/projects", "prj-test", "fetch.py").unwrap();
    let files = set_of(&[candidate.as_str()]);
    let after = resolve_script_path("/srv/projects", "prj-test", "fetch.py", &files);
    assert!(after.ends_with("prj-test/fetch.py"));
}

#[test]
fn a_virtualenv_is_used_where_there_is_one() {
    let candidate = venv_bin_candidate("/srv/projects", "prj-test");
    assert_eq!(candidate, "/srv/projects/.venvs/prj-test/bin");
    assert_eq!(venv_bin_dir("/srv/projects", "prj-test", &set_of(&[])), None);
    let dirs = set_of(&[candidate.as_str()]);
    assert_eq!(venv_bin_dir("/srv/projects", "prj-test", &dirs), Some(candidate));
}
