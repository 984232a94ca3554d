use std::sync::Arc;
use unified_api::application::enrich::{
    admits, begin_enricher, complete_enricher, enrichers_for_target, execute_declarative_merge, selected,
    settle_enricher, EnrichOutcome, EnrichStart, Enrichment,
};
use unified_api::domain::cache_entry::CacheEntry;
use unified_api::domain::dataset::{Dataset, Group, HostVars};
use unified_api::domain::enricher::Enricher;
use unified_api::domain::sync_health::SyncHealthRegistry;
use unified_api::json::Json;
use unified_api::ports::cache::{CachePort, MemoryCache};
use unified_api::ports::enricher::EnricherError;
use unified_api::strmap::{StrMap, StrSet};

fn text(value: &str) -> Json {
    Json::Str(value.to_string())
}

fn vars_of(pairs: &[(&str, Json)]) -> HostVars {
    let mut vars = HostVars::new();
    for (key, value) in pairs {
        vars.insert(key.to_string(), value.clone());
    }
    vars
}

fn group_of(hosts: &[&str], children: &[&str], vars: &[(&str, Json)]) -> Group {
    Group {
        hosts: hosts.iter().map(|h| h.to_string()).collect(),
        children: children.iter().map(|c| c.to_string()).collect(),
        vars: if vars.is_empty() { None } else { Some(vars_of(vars)) },
    }
}

fn dataset_of(hosts: Vec<(&str, HostVars)>, groups: Vec<(&str, Group)>) -> Dataset {
    let mut dataset = Dataset::default();
    for (name, vars) in hosts {
        dataset.hostvars.insert(name.to_string(), vars);
    }
    for (name, group) in groups {
        dataset.groups.insert(name.to_string(), group);
    }
    dataset
}

fn strings(list: &[&str]) -> Vec<String> {
    list.iter().map(|item| item.to_string()).collect()
}

// A script that keeps what it was handed and answers what it is told to.
#[derive(Default)]
struct SpyEnricher {
    received: Option<Arc<Dataset>>,
    fail: bool,
    returns: Option<Dataset>,
    hangs: bool,
}

fn dataset() -> Dataset {
    dataset_of(
        vec![("motoko.section9.net", vars_of(&[("role", text("commander"))]))],
        vec![],
    )
}

fn enricher_of(name: &str) -> Enricher {
    Enricher {
        name: name.to_string(),
        target_id: "src-a".to_string(),
        script_path: None,
        script_args: vec![],
        project_id: None,
        source_id: None,
        fields: None,
        fields_excluded: None,
        groups: None,
        groups_excluded: None,
        sync_interval_seconds: None,
        schedule: None,
        config: StrMap::new(),
        timeout_seconds: 300,
    }
}

fn script_enricher() -> Enricher {
    Enricher { script_path: Some("/bin/true".to_string()), ..enricher_of("spy") }
}

fn enricher_without_fields() -> Enricher {
    Enricher { source_id: Some("src-b".to_string()), ..enricher_of("d") }
}

fn declarative_enricher() -> Enricher {
    Enricher { fields: Some(strings(&["infinibox"])), ..enricher_without_fields() }
}

// One run of an enricher, with the script played by the spy.
fn run_enricher(
    cache: &mut MemoryCache,
    spy: &mut SpyEnricher,
    health: &mut SyncHealthRegistry,
    enricher_id: &str,
    enricher: &Enricher,
) -> Option<EnrichOutcome> {
    let outcome = if enricher.is_declarative() {
        execute_declarative_merge(cache, enricher)
    } else {
        match begin_enricher(cache, "unused", enricher, &None, &StrSet::new(), &StrSet::new()) {
            EnrichStart::NotCached => None,
            EnrichStart::Refused(outcome) => Some(outcome),
            EnrichStart::Run(run) => {
                spy.received = Some(Arc::clone(&run.dataset));
                let enrichment = if spy.hangs {
                    Enrichment::TimedOut
                } else if spy.fail {
                    Enrichment::Failed(EnricherError { message: "spy failure".to_string() })
                } else {
                    Enrichment::Partial(spy.returns.take().unwrap_or_default())
                };
                Some(complete_enricher(cache, enricher, enrichment, 3))
            }
        }
    };
    settle_enricher(health, enricher_id, enricher, &outcome);
    outcome
}

fn run_with(cache: &mut MemoryCache, enricher: &Enricher) -> EnrichOutcome {
    run_enricher(
        cache,
        &mut SpyEnricher::default(),
        &mut SyncHealthRegistry::new(),
        "en-d",
        enricher,
    )
    .expect("target is cached")
}

fn group(hosts: &[&str], children: &[&str], vars: &[(&str, &str)]) -> Group {
    Group {
        hosts: strings(hosts),
        children: strings(children),
        vars: if vars.is_empty() {
            None
        } else {
            let pairs: Vec<(&str, Json)> = vars.iter().map(|(k, v)| (*k, text(v))).collect();
            Some(vars_of(&pairs))
        },
    }
}

fn cached(a: Dataset, b: Dataset) -> MemoryCache {
    let mut cache = MemoryCache::new();
    cache.set("src-a", CacheEntry::new(a, 3600));
    cache.set("src-b", CacheEntry::new(b, 3600));
    cache
}

fn with_groups(groups: Vec<(&str, Group)>) -> Dataset {
    dataset_of(vec![("motoko.section9.net", vars_of(&[("role", text("commander"))]))], groups)
}

fn only_groups(groups: Vec<(&str, Group)>) -> Dataset {
    dataset_of(vec![], groups)
}

fn only_host(vars: &[(&str, Json)]) -> Dataset {
    dataset_of(vec![("motoko.section9.net", vars_of(vars))], vec![])
}

fn host_var(cache: &MemoryCache, key: &str) -> Option<Json> {
    let entry = cache.get("src-a").expect("entry");
    entry.dataset().hostvars.get("motoko.section9.net").unwrap().get(key).cloned()
}

fn group_var(cache: &MemoryCache, group: &str, key: &str) -> Option<Json> {
    let entry = cache.get("src-a").expect("entry");
    entry.dataset().groups.get(group)?.vars.as_ref()?.get(key).cloned()
}

#[test]
fn the_enricher_is_handed_the_dataset_the_cache_holds() {
    let mut cache = MemoryCache::new();
    cache.set("src-a", CacheEntry::new(dataset(), 3600));
    let cached = cache.get("src-a").expect("entry").share_dataset();

    let mut spy = SpyEnricher::default();
    run_enricher(&mut cache, &mut spy, &mut SyncHealthRegistry::new(), "en-spy", &script_enricher())
        .expect("target is cached, so the enricher runs");

    let received = spy.received.expect("the enricher was called");
    assert!(
        Arc::ptr_eq(&received, &cached),
        "the enricher was handed a copy of the dataset instead of the cached one"
    );
}

#[test]
fn a_script_enricher_does_not_reset_how_fresh_a_host_looks() {
    let mut cache = MemoryCache::new();
    let mut entry = CacheEntry::new(dataset(), 3600);
    entry.update_host_aged(
        "motoko.section9.net".to_string(),
        vars_of(&[("role", text("commander"))]),
        900,
    );
    cache.set("src-a", entry);

    let mut spy = SpyEnricher {
        returns: Some(only_host(&[("role", text("commander")), ("infinibox", text("vol-a"))])),
        ..Default::default()
    };

    let outcome =
        run_enricher(&mut cache, &mut spy, &mut SyncHealthRegistry::new(), "en-spy", &script_enricher())
            .expect("target is cached");
    assert!(outcome.success());

    // the derived key landed
    assert_eq!(host_var(&cache, "infinibox"), Some(text("vol-a")));
    // without the host claiming to have just been gathered, so a read that asked for a
    // refresh still gets one
    let entry = cache.get("src-a").expect("entry");
    assert!(
        entry.host_age_seconds("motoko.section9.net").unwrap_or(0) >= 900,
        "enrichment reset the host's gathered-at timestamp"
    );
    assert!(!entry.is_host_fresh("motoko.section9.net", Some(600)));
}

#[test]
fn a_failing_enricher_reports_the_reason() {
    let mut cache = MemoryCache::new();
    cache.set("src-a", CacheEntry::new(dataset(), 3600));

    let mut spy = SpyEnricher { fail: true, ..Default::default() };
    let mut health = SyncHealthRegistry::new();
    let outcome = run_enricher(&mut cache, &mut spy, &mut health, "en-spy", &script_enricher())
        .expect("target is cached");

    assert!(!outcome.success());
    assert_eq!(outcome.error.as_deref(), Some("spy failure"));

    let recorded = health.get("en-spy").expect("failure must be recorded");
    assert_eq!(recorded.last_error.as_deref(), Some("spy failure"));
    assert_eq!(recorded.consecutive_failures, 1);
}

#[test]
fn an_uncached_target_does_not_run_the_enricher() {
    let mut cache = MemoryCache::new();
    let mut spy = SpyEnricher::default();
    let mut health = SyncHealthRegistry::new();

    assert!(
        run_enricher(&mut cache, &mut spy, &mut health, "en-spy", &script_enricher()).is_none()
    );
    assert!(spy.received.is_none());

    let recorded = health.get("en-spy").expect("skip must be recorded");
    assert!(recorded.last_error.as_deref().is_some_and(|e| e.contains("not in the cache")));
}

#[test]
fn a_declarative_merge_copies_only_the_named_fields() {
    let mut cache = cached(
        dataset(),
        only_host(&[("infinibox", text("vol-a")), ("unrelated", text("nope"))]),
    );
    let outcome = run_with(&mut cache, &declarative_enricher());

    assert!(outcome.success());
    assert_eq!(outcome.hosts_updated, 1);
    assert_eq!(host_var(&cache, "infinibox"), Some(text("vol-a")));
    assert_eq!(host_var(&cache, "unrelated"), None, "only the declared fields may be copied");
}

#[test]
fn a_declarative_merge_carries_group_vars_onto_the_group() {
    let mut cache = cached(
        with_groups(vec![("section9", group(&["motoko.section9.net"], &[], &[]))]),
        only_groups(vec![(
            "section9",
            group(&[], &[], &[("infinibox", "vol-group"), ("unrelated", "nope")]),
        )]),
    );
    run_with(&mut cache, &declarative_enricher());

    assert_eq!(group_var(&cache, "section9", "infinibox"), Some(text("vol-group")));
    assert_eq!(
        group_var(&cache, "section9", "unrelated"),
        None,
        "the allow-list still applies to a group's vars"
    );
    // not copied onto the member: that is the duplication this avoids
    assert_eq!(host_var(&cache, "infinibox"), None);
    // no host crossed over: only variables travel
    assert_eq!(cache.get("src-a").unwrap().dataset().hostvars.len(), 1);
}

#[test]
fn the_sources_all_group_is_merged_and_carries_the_targets_hosts() {
    let mut cache = cached(
        dataset(),
        only_groups(vec![("all", group(&[], &[], &[("infinibox", "estate")]))]),
    );
    run_with(&mut cache, &declarative_enricher());

    let entry = cache.get("src-a").expect("entry");
    let all = entry.dataset().groups.get("all").expect("all was created");
    assert_eq!(all.vars.as_ref().unwrap().get("infinibox"), Some(&text("estate")));
    assert_eq!(
        all.hosts,
        vec!["motoko.section9.net"],
        "without hosts the endpoint would prune it and the vars would vanish"
    );
}

#[test]
fn a_group_the_target_does_not_have_is_created_vars_only() {
    let mut cache = cached(
        dataset(),
        only_groups(vec![("somewhere-else", group(&[], &[], &[("infinibox", "nope")]))]),
    );
    run_with(&mut cache, &declarative_enricher());

    let entry = cache.get("src-a").expect("entry");
    let created = entry
        .dataset()
        .groups
        .get("somewhere-else")
        .expect("the group is created rather than skipped");
    assert_eq!(created.vars.as_ref().unwrap().get("infinibox"), Some(&text("nope")));
    assert!(
        created.hosts.is_empty(),
        "an enricher publishes what a group means, never who is in it"
    );
    // and still no host crossed over
    assert_eq!(entry.dataset().hostvars.len(), 1);
}

#[test]
fn a_hosts_own_source_vars_are_still_copied_onto_the_host() {
    let mut cache = cached(dataset(), only_host(&[("infinibox", text("vol-host"))]));
    run_with(&mut cache, &declarative_enricher());
    assert_eq!(host_var(&cache, "infinibox"), Some(text("vol-host")));
}

#[test]
fn without_fields_every_var_is_taken() {
    let mut cache = cached(
        with_groups(vec![("section9", group(&["motoko.section9.net"], &[], &[]))]),
        dataset_of(
            vec![("motoko.section9.net", vars_of(&[("serial", text("SN-1"))]))],
            vec![("section9", group(&[], &[], &[("infinibox", "vol"), ("unrelated", "also")]))],
        ),
    );
    run_with(&mut cache, &enricher_without_fields());

    // both, where a fields list would have taken only what it named
    assert_eq!(group_var(&cache, "section9", "infinibox"), Some(text("vol")));
    assert_eq!(group_var(&cache, "section9", "unrelated"), Some(text("also")));
    // and the host's own vars from the source, all of them
    assert_eq!(host_var(&cache, "serial"), Some(text("SN-1")));
    // still only the target's hosts: taking every var is not taking hosts
    assert_eq!(cache.get("src-a").unwrap().dataset().hostvars.len(), 1);
}

#[test]
fn an_empty_fields_list_still_takes_nothing() {
    let mut cache = cached(dataset(), only_host(&[("infinibox", text("vol"))]));
    let enricher = Enricher { fields: Some(vec![]), ..enricher_without_fields() };
    run_with(&mut cache, &enricher);
    assert_eq!(host_var(&cache, "infinibox"), None);
}

// Two tenancies: the login that every play needs sits on a group beside that tenancy's
// password hashes, and another tenancy's group sits beside it.
fn cache_with_two_tenancies() -> MemoryCache {
    cached(
        with_groups(vec![("tenancy_ours", group(&["motoko.section9.net"], &[], &[]))]),
        only_groups(vec![
            ("all", group(&[], &[], &[("cmdb_role", "device42"), ("bind_password", "s3cret")])),
            (
                "tenancy_ours",
                group(&[], &[], &[("useransible", "pq_ansible"), ("users_all", "hashes")]),
            ),
            (
                "tenancy_theirs",
                group(&[], &[], &[("useransible", "other"), ("users_all", "their-hashes")]),
            ),
        ]),
    )
}

#[test]
fn groups_excluded_keeps_another_tenancys_group_out() {
    let mut cache = cache_with_two_tenancies();
    let enricher = Enricher {
        groups_excluded: Some(strings(&["tenancy_theirs"])),
        ..enricher_without_fields()
    };
    run_with(&mut cache, &enricher);

    assert!(!cache.get("src-a").unwrap().dataset().groups.contains_key("tenancy_theirs"));
    assert_eq!(group_var(&cache, "tenancy_ours", "useransible"), Some(text("pq_ansible")));
}

#[test]
fn fields_excluded_drops_a_name_from_a_group_that_is_kept() {
    let mut cache = cache_with_two_tenancies();
    let enricher = Enricher {
        fields_excluded: Some(strings(&["bind_password"])),
        ..enricher_without_fields()
    };
    run_with(&mut cache, &enricher);

    assert_eq!(group_var(&cache, "all", "cmdb_role"), Some(text("device42")));
    assert_eq!(group_var(&cache, "all", "bind_password"), None);
}

#[test]
fn an_explicit_groups_list_does_not_smuggle_all_in() {
    let mut cache = cache_with_two_tenancies();
    let enricher =
        Enricher { groups: Some(strings(&["tenancy_ours"])), ..enricher_without_fields() };
    run_with(&mut cache, &enricher);

    let entry = cache.get("src-a").expect("entry");
    assert!(entry.dataset().groups.contains_key("tenancy_ours"));
    assert!(
        !entry.dataset().groups.contains_key("all"),
        "`all` was not named, so it is not taken"
    );
}

#[test]
fn an_exclusion_beats_an_inclusion() {
    let mut cache = cache_with_two_tenancies();
    let enricher = Enricher {
        groups: Some(strings(&["all", "tenancy_ours"])),
        groups_excluded: Some(strings(&["tenancy_ours"])),
        ..enricher_without_fields()
    };
    run_with(&mut cache, &enricher);

    assert!(
        cache.get("src-a").unwrap().dataset().groups.contains_key("all"),
        "named and not excluded"
    );
    assert_eq!(
        group_var(&cache, "tenancy_ours", "useransible"),
        None,
        "excluded: the target keeps its own group, the source's vars stay out"
    );
    assert!(cache.get("src-a").unwrap().dataset().groups.contains_key("tenancy_ours"));
}

#[test]
fn a_declarative_merge_with_an_uncached_source_reports_it() {
    let mut cache = MemoryCache::new();
    cache.set("src-a", CacheEntry::new(dataset(), 3600));
    // src-b is not in the cache
    let outcome = run_with(&mut cache, &declarative_enricher());

    assert!(!outcome.success());
    assert!(
        outcome.error.as_deref().is_some_and(|e| e.contains("src-b")),
        "error was: {:?}",
        outcome.error
    );
}

#[test]
fn an_enricher_with_neither_mode_reports_the_missing_script() {
    let mut cache = MemoryCache::new();
    cache.set("src-a", CacheEntry::new(dataset(), 3600));

    let outcome = run_with(&mut cache, &enricher_of("bare"));
    assert!(
        outcome.error.as_deref().is_some_and(|e| e.contains("script_path")),
        "error was: {:?}",
        outcome.error
    );
}

#[test]
fn a_hung_enricher_times_out_and_records_the_failure() {
    let mut cache = MemoryCache::new();
    cache.set("src-a", CacheEntry::new(dataset(), 3600));

    let mut spy = SpyEnricher { hangs: true, ..Default::default() };
    let enricher = Enricher {
        project_id: Some("prj-x".to_string()),
        timeout_seconds: 5,
        ..script_enricher()
    };

    let mut health = SyncHealthRegistry::new();
    let outcome = run_enricher(&mut cache, &mut spy, &mut health, "en-hung", &enricher)
        .expect("target is cached");

    assert!(
        outcome.error.as_deref().is_some_and(|e| e.contains("timed out after 5s")),
        "error was: {:?}",
        outcome.error
    );
    assert_eq!(health.get("en-hung").unwrap().consecutive_failures, 1);
}

#[test]
fn a_success_clears_an_earlier_failure() {
    let mut cache = MemoryCache::new();
    let mut health = SyncHealthRegistry::new();

    // the target is missing: recorded as a failure
    let mut spy = SpyEnricher::default();
    run_enricher(&mut cache, &mut spy, &mut health, "en-spy", &script_enricher());
    assert_eq!(health.get("en-spy").unwrap().consecutive_failures, 1);

    // the target appears, the enricher runs: healthy again
    cache.set("src-a", CacheEntry::new(dataset(), 3600));
    run_enricher(&mut cache, &mut spy, &mut health, "en-spy", &script_enricher())
        .expect("target is cached now");

    let recorded = health.get("en-spy").unwrap();
    assert_eq!(recorded.consecutive_failures, 0);
    assert_eq!(recorded.last_error, None);
}

#[test]
fn a_script_of_a_project_runs_from_its_checkout_with_its_virtualenv() {
    let mut cache = MemoryCache::new();
    cache.set("src-a", CacheEntry::new(dataset(), 3600));
    let mut enricher = Enricher {
        script_path: Some("enrich.py".to_string()),
        project_id: Some("prj-x".to_string()),
        ..enricher_of("e")
    };
    enricher.config.insert("url".to_string(), "http://x".to_string());
    let mut files = StrSet::new();
    files.insert("/data/projects/prj-x/enrich.py".to_string());
    let mut dirs = StrSet::new();
    dirs.insert("/data/projects/.venvs/prj-x/bin".to_string());

    match begin_enricher(
        &cache,
        "/data/projects",
        &enricher,
        &Some("req-1".to_string()),
        &files,
        &dirs,
    ) {
        EnrichStart::Run(run) => {
            assert_eq!(run.script_path, "/data/projects/prj-x/enrich.py");
            assert_eq!(run.config.get("url").map(String::as_str), Some("http://x"));
            assert_eq!(run.config.get("trigger").map(String::as_str), Some("req-1"));
            assert_eq!(
                run.config.get("python_venv_bin").map(String::as_str),
                Some("/data/projects/.venvs/prj-x/bin")
            );
        }
        _ => panic!("the script is to be run"),
    }
}

#[test]
fn an_enricher_can_remove_hosts() {
    let mut cache = MemoryCache::new();
    cache.set("src-a", CacheEntry::new(dataset(), 3600));
    let mut partial = Dataset::default();
    partial.remove_hosts = strings(&["motoko.section9.net", "nobody"]);
    let mut spy = SpyEnricher { returns: Some(partial), ..Default::default() };
    let outcome =
        run_enricher(&mut cache, &mut spy, &mut SyncHealthRegistry::new(), "e", &script_enricher())
            .unwrap();
    assert_eq!(outcome.hosts_updated, 0);
    assert_eq!(outcome.duration_ms, 3);
    assert_eq!(cache.get("src-a").unwrap().dataset().hostvars.len(), 0);
}

#[test]
fn names_are_admitted_and_selected() {
    let list = Some(strings(&["a", "b"]));
    assert!(admits("a", &None, &None));
    assert!(admits("a", &list, &None));
    assert!(!admits("c", &list, &None));
    assert!(!admits("a", &list, &Some(strings(&["a"]))));
    let vars = vars_of(&[("a", text("1")), ("c", text("2"))]);
    let taken = selected(&vars, &list, &None);
    assert_eq!(taken.len(), 1);
    assert_eq!(taken.get("a"), Some(&text("1")));
}

#[test]
fn the_enrichers_of_a_target_are_found() {
    let mut enrichers = StrMap::new();
    enrichers.insert("en-b".to_string(), script_enricher());
    enrichers.insert("en-a".to_string(), declarative_enricher());
    enrichers.insert(
        "en-c".to_string(),
        Enricher { target_id: "src-z".to_string(), ..script_enricher() },
    );
    assert_eq!(enrichers_for_target(&enrichers, "src-a"), vec!["en-a", "en-b"]);
    assert_eq!(enrichers_for_target(&enrichers, "src-z"), vec!["en-c"]);
    assert!(enrichers_for_target(&enrichers, "none").is_empty());
}
