use unified_api::application::sync::{
    apply_to_cache, begin_sync, complete_sync, prepare_sync, settle_sync, Gathered, SyncCoordinator, SyncOutcome,
    SyncRequest, SyncScope, SyncStart, DEFAULT_REFRESH_DEPTH,
};
use unified_api::domain::cache_entry::CacheEntry;
use unified_api::domain::dataset::{Dataset, Group, HostVars};
use unified_api::domain::source::{
    ConnectVia, ConnectorType, HostsFromSource, MatchPattern, OutputFormat, Source, TtlOverrides,
};
use unified_api::domain::sync_health::SyncHealthRegistry;
use unified_api::domain::sync_mode::SyncMode;
use unified_api::json::Json;
use unified_api::ports::cache::{CachePort, MemoryCache};
use unified_api::ports::connector::{ConnectorError, ConnectorOutput, DatasetAges};
use unified_api::strmap::StrMap;

fn text(value: &str) -> Json {
    Json::Str(value.to_string())
}

fn vars_of(pairs: &[(&str, Json)]) -> HostVars {
    let mut vars = HostVars::new();
    for (key, value) in pairs {
        vars.insert(key.to_string(), value.clone());
    }
    vars
}

fn group_of(hosts: &[&str], children: &[&str], vars: &[(&str, Json)]) -> Group {
    Group {
        hosts: hosts.iter().map(|h| h.to_string()).collect(),
        children: children.iter().map(|c| c.to_string()).collect(),
        vars: if vars.is_empty() { None } else { Some(vars_of(vars)) },
    }
}

fn dataset_of(hosts: Vec<(&str, HostVars)>, groups: Vec<(&str, Group)>) -> Dataset {
    let mut dataset = Dataset::default();
    for (name, vars) in hosts {
        dataset.hostvars.insert(name.to_string(), vars);
    }
    for (name, group) in groups {
        dataset.groups.insert(name.to_string(), group);
    }
    dataset
}

fn source_of(name: &str, ttl_seconds: u64) -> Source {
    Source {
        name: name.to_string(),
        project_id: "test".to_string(),
        script_path: "x".to_string(),
        script_args: vec![],
        connector_type: ConnectorType::Script,
        output_format: OutputFormat::Native,
        timeout_seconds: 300,
        sync_mode: SyncMode::Replace,
        credential_ids: vec![],
        schedule: None,
        sync_interval_seconds: None,
        ttl_seconds,
        ttl_overrides: TtlOverrides::default(),
        hosts_from_source: None,
        allow_on_demand_refresh: false,
        advertise_scope: None,
        config: StrMap::new(),
    }
}

fn replace_source() -> Source {
    source_of("test", 3600)
}

fn merge_source(ttl_seconds: u64) -> Source {
    Source { sync_mode: SyncMode::Merge, ..source_of("test", ttl_seconds) }
}

fn role(value: &str) -> HostVars {
    vars_of(&[("role", text(value))])
}

fn members(hosts: &[&str]) -> Group {
    group_of(hosts, &[], &[])
}

fn output(dataset: Dataset, unreachable: &[&str]) -> ConnectorOutput {
    ConnectorOutput {
        dataset,
        ages: None,
        unreachable: unreachable.iter().map(|h| h.to_string()).collect(),
    }
}

fn var<'a>(entry: &'a CacheEntry, host: &str, key: &str) -> Option<&'a Json> {
    entry.dataset().hostvars.get(host)?.get(key)
}

#[test]
fn replace_keeps_a_host_that_did_not_answer() {
    let mut cache = MemoryCache::new();
    let source = replace_source();
    cache.set(
        "src",
        CacheEntry::new(
            dataset_of(vec![("a.example", role("web")), ("b.example", role("db"))], vec![]),
            3600,
        ),
    );

    // b did not answer this round, so the connector names it
    apply_to_cache(
        &mut cache,
        "src",
        &source,
        &SyncScope::Full,
        output(dataset_of(vec![("a.example", role("web"))], vec![]), &["b.example"]),
    );

    let entry = cache.get("src").expect("entry");
    assert_eq!(var(&entry, "b.example", "role"), Some(&text("db")));
    assert_eq!(var(&entry, "a.example", "role"), Some(&text("web")));
}

#[test]
fn replace_drops_a_host_upstream_stopped_listing() {
    let mut cache = MemoryCache::new();
    let source = replace_source();
    cache.set(
        "src",
        CacheEntry::new(
            dataset_of(vec![("a.example", role("web")), ("b.example", role("db"))], vec![]),
            3600,
        ),
    );

    apply_to_cache(
        &mut cache,
        "src",
        &source,
        &SyncScope::Full,
        output(dataset_of(vec![("a.example", role("web"))], vec![]), &[]),
    );

    let entry = cache.get("src").expect("entry");
    assert!(!entry.dataset().hostvars.contains_key("b.example"));
}

#[test]
fn a_retained_host_keeps_its_age() {
    let mut cache = MemoryCache::new();
    let source = replace_source();
    let mut previous = CacheEntry::new(dataset_of(vec![("b.example", role("db"))], vec![]), 3600);
    previous.update_host_aged("b.example".to_string(), role("db"), 900);
    cache.set("src", previous);

    apply_to_cache(
        &mut cache,
        "src",
        &source,
        &SyncScope::Full,
        output(dataset_of(vec![("a.example", role("web"))], vec![]), &["b.example"]),
    );

    let entry = cache.get("src").expect("entry");
    assert!(
        entry.host_age_seconds("b.example").unwrap_or(0) >= 900,
        "a retained host must not be stamped fresh"
    );
    assert!(!entry.is_host_fresh("b.example", Some(600)));
}

#[test]
fn a_retained_host_keeps_its_group_membership() {
    let mut cache = MemoryCache::new();
    let source = replace_source();
    cache.set(
        "src",
        CacheEntry::new(
            dataset_of(
                vec![("a.example", role("web")), ("b.example", role("db"))],
                vec![
                    ("ssh_gathered", members(&["a.example", "b.example"])),
                    ("ansible_os_family", members(&["a.example", "b.example"])),
                ],
            ),
            3600,
        ),
    );

    apply_to_cache(
        &mut cache,
        "src",
        &source,
        &SyncScope::Full,
        output(
            dataset_of(
                vec![("a.example", role("web"))],
                vec![
                    ("ssh_gathered", members(&["a.example"])),
                    ("ansible_os_family", members(&["a.example"])),
                ],
            ),
            &["b.example"],
        ),
    );

    let entry = cache.get("src").expect("entry");
    for group in ["ssh_gathered", "ansible_os_family"] {
        assert!(
            entry.dataset().groups.get(group).unwrap().hosts.contains(&"b.example".to_string()),
            "retained host missing from group '{}'",
            group
        );
    }
}

#[test]
fn a_group_whose_hosts_all_failed_comes_back_with_them() {
    let mut cache = MemoryCache::new();
    let source = replace_source();
    cache.set(
        "src",
        CacheEntry::new(
            dataset_of(
                vec![("a.example", role("web")), ("b.example", role("db"))],
                vec![
                    ("ssh_gathered", members(&["a.example", "b.example"])),
                    ("oracle_version", members(&["b.example"])),
                ],
            ),
            3600,
        ),
    );

    apply_to_cache(
        &mut cache,
        "src",
        &source,
        &SyncScope::Full,
        output(
            dataset_of(
                vec![("a.example", role("web"))],
                vec![("ssh_gathered", members(&["a.example"]))],
            ),
            &["b.example"],
        ),
    );

    let entry = cache.get("src").expect("entry");
    assert_eq!(entry.dataset().groups.get("oracle_version").unwrap().hosts, ["b.example"]);
}

#[test]
fn a_dropped_host_does_not_resurrect_its_groups() {
    let mut cache = MemoryCache::new();
    let source = replace_source();
    cache.set(
        "src",
        CacheEntry::new(
            dataset_of(
                vec![("a.example", role("web")), ("b.example", role("db"))],
                vec![("oracle_version", members(&["b.example"]))],
            ),
            3600,
        ),
    );

    apply_to_cache(
        &mut cache,
        "src",
        &source,
        &SyncScope::Full,
        output(dataset_of(vec![("a.example", role("web"))], vec![]), &[]),
    );

    let entry = cache.get("src").expect("entry");
    assert!(!entry.dataset().groups.contains_key("oracle_version"));
}

#[test]
fn a_merge_sync_adopts_a_changed_ttl() {
    let mut cache = MemoryCache::new();
    let source = merge_source(60);

    // the entry was made when the source was configured for a day
    cache.set(
        "src",
        CacheEntry::new(dataset_of(vec![("a.example", role("web"))], vec![]), 86400),
    );

    apply_to_cache(
        &mut cache,
        "src",
        &source,
        &SyncScope::Full,
        output(dataset_of(vec![("b.example", role("db"))], vec![]), &[]),
    );

    assert_eq!(cache.get("src").expect("entry").ttl_seconds(), 60);
}

#[test]
fn a_merge_sync_renews_the_dataset_clock() {
    let mut cache = MemoryCache::new();
    let source = merge_source(1);

    cache.set(
        "src",
        CacheEntry::restore(
            dataset_of(vec![("a.example", role("web"))], vec![]),
            1,
            5,
            StrMap::new(),
        ),
    );
    assert!(!cache.get("src").expect("entry").is_fresh());

    apply_to_cache(
        &mut cache,
        "src",
        &source,
        &SyncScope::Full,
        output(dataset_of(vec![("b.example", role("db"))], vec![]), &[]),
    );

    let entry = cache.get("src").expect("entry");
    assert_eq!(entry.age_seconds(), 0);
    assert!(entry.is_fresh(), "a merge sync must renew the dataset clock");
    // and it merged rather than replaced: both hosts are here
    assert!(entry.dataset().hostvars.contains_key("a.example"));
    assert!(entry.dataset().hostvars.contains_key("b.example"));
}

#[test]
fn a_host_scoped_sync_on_a_cold_cache_does_not_claim_a_full_dataset() {
    let mut cache = MemoryCache::new();
    let source = replace_source();

    apply_to_cache(
        &mut cache,
        "src",
        &source,
        &SyncScope::Hosts(vec!["a.example".to_string()]),
        output(dataset_of(vec![("a.example", role("web"))], vec![]), &[]),
    );

    let entry = cache.get("src").expect("entry");
    assert!(!entry.is_complete());
    assert!(!entry.is_fresh(), "one host is not a gathered source");
    // the host itself was genuinely gathered, and says so
    assert!(entry.is_host_fresh("a.example", None));
}

#[test]
fn a_group_scoped_sync_on_a_cold_cache_does_not_claim_a_full_dataset() {
    let mut cache = MemoryCache::new();
    let source = replace_source();

    apply_to_cache(
        &mut cache,
        "src",
        &source,
        &SyncScope::Group("web".to_string()),
        output(
            dataset_of(vec![("a.example", role("web"))], vec![("web", members(&["a.example"]))]),
            &[],
        ),
    );

    assert!(!cache.get("src").expect("entry").is_fresh());
}

#[test]
fn a_host_scoped_sync_leaves_an_existing_full_entry_complete() {
    let mut cache = MemoryCache::new();
    let source = replace_source();
    cache.set(
        "src",
        CacheEntry::new(dataset_of(vec![("a.example", role("web"))], vec![]), 3600),
    );

    apply_to_cache(
        &mut cache,
        "src",
        &source,
        &SyncScope::Hosts(vec!["a.example".to_string()]),
        output(dataset_of(vec![("a.example", role("db"))], vec![]), &[]),
    );

    assert!(cache.get("src").expect("entry").is_fresh());
}

#[test]
fn a_later_full_sync_makes_the_entry_complete() {
    for mode in [SyncMode::Replace, SyncMode::Merge] {
        let mut cache = MemoryCache::new();
        let source = Source { sync_mode: mode, ..source_of("test", 3600) };

        apply_to_cache(
            &mut cache,
            "src",
            &source,
            &SyncScope::Hosts(vec!["a.example".to_string()]),
            output(dataset_of(vec![("a.example", role("web"))], vec![]), &[]),
        );
        assert!(!cache.get("src").expect("entry").is_fresh(), "{:?}", mode);

        apply_to_cache(
            &mut cache,
            "src",
            &source,
            &SyncScope::Full,
            output(
                dataset_of(vec![("a.example", role("web")), ("b.example", role("db"))], vec![]),
                &[],
            ),
        );

        let entry = cache.get("src").expect("entry");
        assert!(entry.is_complete(), "{:?} mode left the entry partial", mode);
        assert!(entry.is_fresh(), "{:?}", mode);
    }
}

// One queue for the syncs of a source: whoever has the turn gathers, and those who
// waited look at the count again.
struct Queue {
    cache: MemoryCache,
    health: SyncHealthRegistry,
    syncs: SyncCoordinator,
    source: Source,
    gathers: usize,
}

impl Queue {
    fn new() -> Self {
        Queue {
            cache: MemoryCache::new(),
            health: SyncHealthRegistry::new(),
            syncs: SyncCoordinator::new(),
            source: replace_source(),
            gathers: 0,
        }
    }

    fn arrive(&mut self) -> u64 {
        self.syncs.entry_for("src")
    }

    fn turn(&mut self, came_at: u64, request: SyncRequest, fails: bool) -> SyncOutcome {
        let now = self.syncs.entry_for("src");
        match begin_sync(&self.cache, "src", &self.source, &request, came_at, now) {
            SyncStart::Coalesced(outcome) | SyncStart::Refused(outcome) => outcome,
            SyncStart::Gather(_) => {
                self.gathers += 1;
                let gathered = if fails {
                    Gathered::Failed(ConnectorError {
                        message: "first gather blew up".to_string(),
                        stderr: String::new(),
                        exit_code: Some(1),
                    })
                } else {
                    Gathered::Output(output(
                        dataset_of(vec![("a.example", role("web"))], vec![]),
                        &[],
                    ))
                };
                let outcome =
                    complete_sync(&mut self.cache, "src", &self.source, &request.scope, gathered, 7);
                settle_sync(&mut self.health, &mut self.syncs, "src", &request, &outcome);
                outcome
            }
        }
    }
}

#[test]
fn concurrent_full_syncs_cost_one_gather() {
    let mut queue = Queue::new();
    let arrivals = [queue.arrive(), queue.arrive(), queue.arrive()];
    let outcomes: Vec<SyncOutcome> = arrivals
        .iter()
        .map(|came_at| queue.turn(*came_at, SyncRequest::new(SyncScope::Full), false))
        .collect();

    assert!(outcomes.iter().all(|o| o.success()));
    assert!(
        outcomes.iter().all(|o| o.total_hosts == 1),
        "coalesced outcomes report what the winner left in the cache"
    );
    assert_eq!(
        outcomes.iter().filter(|o| o.coalesced).count(),
        2,
        "the winner gathered, the two queued requests coalesced onto it"
    );
    assert_eq!(queue.gathers, 1, "three requests must cost the origin one gather");
}

#[test]
fn a_scoped_sync_queued_behind_a_full_one_still_gathers() {
    let mut queue = Queue::new();
    let full = queue.arrive();
    let scoped = queue.arrive();

    assert!(queue.turn(full, SyncRequest::new(SyncScope::Full), false).success());
    let scope = SyncScope::Hosts(vec!["a.example".to_string()]);
    let scoped = queue.turn(scoped, SyncRequest::new(scope), false);
    assert!(scoped.success());
    assert!(!scoped.coalesced);
    assert_eq!(queue.gathers, 2);
}

#[test]
fn a_failed_sync_does_not_satisfy_the_queue() {
    let mut queue = Queue::new();
    let first = queue.arrive();
    let second = queue.arrive();

    let first = queue.turn(first, SyncRequest::new(SyncScope::Full), true);
    assert!(!first.success());
    assert_eq!(first.error.as_deref(), Some("first gather blew up"));
    let second = queue.turn(second, SyncRequest::new(SyncScope::Full), false);
    assert!(second.success(), "the retry gathered for real");
    assert!(!second.coalesced);
    assert_eq!(queue.gathers, 2);
    assert_eq!(queue.health.get("src").unwrap().consecutive_failures, 0);
}

#[test]
fn a_slow_full_sync_does_not_clobber_a_later_scoped_gather() {
    let mut cache = MemoryCache::new();
    let source = replace_source();
    // the full sync has the turn first; the scoped one waits for it to be put into the cache
    for (request, gathered_by) in [
        (SyncRequest::new(SyncScope::Full), "full"),
        (SyncRequest::new(SyncScope::Hosts(vec!["a.example".to_string()])), "scoped"),
    ] {
        let gathered = Gathered::Output(output(
            dataset_of(
                vec![("a.example", vars_of(&[("gathered_by", text(gathered_by))]))],
                vec![],
            ),
            &[],
        ));
        assert!(complete_sync(&mut cache, "src", &source, &request.scope, gathered, 300).success());
    }
    let entry = cache.get("src").expect("entry");
    assert_eq!(
        var(&entry, "a.example", "gathered_by"),
        Some(&text("scoped")),
        "the slow full sync overwrote a gather that started after it"
    );
}

#[test]
fn a_refresh_of_the_origin_never_coalesces() {
    let mut queue = Queue::new();
    let first = queue.arrive();
    let second = queue.arrive();
    assert!(queue.turn(first, SyncRequest::from(SyncScope::Full), false).success());
    let request = SyncRequest::refreshing_origin(SyncScope::Full, DEFAULT_REFRESH_DEPTH);
    assert!(!queue.turn(second, request, false).coalesced);
    assert_eq!(queue.gathers, 2);
}

#[test]
fn a_connector_is_told_what_is_asked_for() {
    let cache = MemoryCache::new();
    let source = replace_source();

    let plain = prepare_sync(&cache, &source, &SyncRequest::new(SyncScope::Full)).unwrap_or_else(|e| panic!("{}", e));
    assert!(plain.config.is_empty());

    let scope = SyncScope::Hosts(vec!["a".to_string(), "b".to_string()]);
    let request = SyncRequest::refreshing_origin(scope, 3).with_trigger("req-1".to_string());
    let plan = prepare_sync(&cache, &source, &request).unwrap_or_else(|e| panic!("{}", e));
    let get = |key: &str| plan.config.get(key).cloned();
    assert_eq!(get("scope").as_deref(), Some("host"));
    assert_eq!(get("target").as_deref(), Some("a,b"));
    assert_eq!(get("trigger").as_deref(), Some("req-1"));
    assert_eq!(get("refresh_origin").as_deref(), Some("true"));
    assert_eq!(get("refresh_depth").as_deref(), Some("3"));

    let group = SyncRequest::new(SyncScope::Group("magi".to_string()));
    let plan = prepare_sync(&cache, &source, &group).unwrap_or_else(|e| panic!("{}", e));
    assert_eq!(plan.config.get("scope").map(String::as_str), Some("group"));
    assert_eq!(plan.config.get("target").map(String::as_str), Some("magi"));
}

fn taking_hosts_from(source: &str, groups: &[&str]) -> Source {
    Source {
        hosts_from_source: Some(HostsFromSource {
            source: source.to_string(),
            match_pattern: MatchPattern {
                groups: groups.iter().map(|g| g.to_string()).collect(),
                hosts: vec![],
            },
            connect_via: ConnectVia::AnsibleHostThenHostname,
        }),
        ..replace_source()
    }
}

#[test]
fn the_hosts_of_another_source_are_handed_to_the_connector() {
    let mut cache = MemoryCache::new();
    let request = SyncRequest::new(SyncScope::Full);

    let source = taking_hosts_from("src-inv", &["web"]);
    let missing = prepare_sync(&cache, &source, &request);
    assert_eq!(
        missing.err().as_deref(),
        Some("hosts_from_source 'src-inv' is not in the cache yet \u{2014} sync it first")
    );

    cache.set(
        "src-inv",
        CacheEntry::new(
            dataset_of(
                vec![
                    ("a.example", vars_of(&[("ansible_host", text("10.0.0.1"))])),
                    ("b.example", HostVars::new()),
                ],
                vec![("web", members(&["a.example"])), ("none", members(&[]))],
            ),
            60,
        ),
    );
    let plan = prepare_sync(&cache, &source, &request).unwrap_or_else(|e| panic!("{}", e));
    assert_eq!(
        plan.config.get("hosts_spec").map(String::as_str),
        Some("[{\"name\":\"a.example\",\"addresses\":[\"10.0.0.1\",\"a.example\"]}]")
    );

    let nobody = prepare_sync(&cache, &taking_hosts_from("src-inv", &["none"]), &request);
    assert_eq!(
        nobody.err().as_deref(),
        Some("hosts_from_source 'src-inv' resolved to zero hosts (pattern too narrow, or empty source?)")
    );
}

#[test]
fn a_sync_that_brings_nothing_says_why_and_leaves_the_cache() {
    let mut cache = MemoryCache::new();
    let source = replace_source();
    cache.set(
        "src",
        CacheEntry::new(dataset_of(vec![("a.example", role("web"))], vec![]), 3600),
    );
    let scope = SyncScope::Group("magi".to_string());

    let timed_out = complete_sync(&mut cache, "src", &source, &scope, Gathered::TimedOut, 42);
    assert_eq!(timed_out.error.as_deref(), Some("sync timed out after 300s"));
    assert_eq!(timed_out.scope, "group:magi");
    assert_eq!(timed_out.duration_ms, 42);
    let denied = Gathered::NoCredentials("credential 'x': no".to_string());
    let denied = complete_sync(&mut cache, "src", &source, &scope, denied, 1);
    assert_eq!(denied.error.as_deref(), Some("credential 'x': no"));
    assert_eq!(cache.get("src").unwrap().dataset().hostvars.len(), 1);
}

#[test]
fn a_federated_gather_keeps_the_ages_of_its_origin() {
    let mut cache = MemoryCache::new();
    let mut host_ages = StrMap::new();
    host_ages.insert("a.example".to_string(), 120u64);
    let gathered = ConnectorOutput {
        dataset: dataset_of(vec![("a.example", role("web"))], vec![]),
        ages: Some(DatasetAges { dataset_age_seconds: 90, host_ages }),
        unreachable: vec![],
    };
    apply_to_cache(&mut cache, "src", &replace_source(), &SyncScope::Full, gathered);
    let entry = cache.get("src").unwrap();
    assert_eq!(entry.age_seconds(), 90);
    assert_eq!(entry.host_age_seconds("a.example"), Some(120));
}

#[test]
fn a_host_sync_changes_only_who_answers() {
    let mut cache = MemoryCache::new();
    cache.set(
        "src",
        CacheEntry::new(
            dataset_of(vec![("a.example", role("old")), ("b.example", role("old"))], vec![]),
            3600,
        ),
    );
    let scope = SyncScope::Hosts(vec!["a.example".to_string(), "gone.example".to_string()]);
    apply_to_cache(
        &mut cache,
        "src",
        &replace_source(),
        &scope,
        output(
            dataset_of(vec![("a.example", role("new")), ("b.example", role("new"))], vec![]),
            &[],
        ),
    );
    let entry = cache.get("src").unwrap();
    assert_eq!(var(&entry, "a.example", "role"), Some(&text("new")));
    assert_eq!(var(&entry, "b.example", "role"), Some(&text("old")));
    assert!(!entry.dataset().hostvars.contains_key("gone.example"));
}

#[test]
fn a_cache_lists_and_loses_its_entries() {
    let mut cache = MemoryCache::new();
    cache.set("b", CacheEntry::new(Dataset::default(), 1));
    cache.set("a", CacheEntry::new(Dataset::default(), 2));
    assert_eq!(cache.keys(), vec!["a", "b"]);
    let all = cache.export();
    assert_eq!(all.len(), 2);
    assert_eq!(all[1].0, "b");
    assert_eq!(all[1].1.ttl_seconds(), 1);
    assert!(cache.remove("a").is_some());
    assert!(cache.remove("a").is_none());
    assert!(cache.get("a").is_none());
}
