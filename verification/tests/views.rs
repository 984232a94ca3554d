use unified_api::application::views::{snapshot, ViewSnapshot};
use unified_api::domain::cache_entry::CacheEntry;
use unified_api::domain::dataset::{Dataset, Group};
use unified_api::domain::view::{Ownership, View, ViewMember};
use unified_api::json::{decode_object, Json};
use unified_api::ports::cache::{CachePort, MemoryCache};
use unified_api::strmap::StrMap;
use unified_api::domain::source::{ConnectorType, OutputFormat, Source, TtlOverrides};
use unified_api::domain::sync_mode::SyncMode;

fn json(source: &str) -> Json {
    Json::from_value(serde_json::from_str(source).unwrap())
}

fn names(value: Option<&Json>) -> Vec<String> {
    match value {
        Some(Json::Array(items)) => items
            .iter()
            .map(|item| match item {
                Json::Str(name) => name.clone(),
                _ => panic!("not a name"),
            })
            .collect(),
        _ => vec![],
    }
}

fn dataset_json(hosts: &str, groups: &str) -> Dataset {
    let mut dataset = Dataset::default();
    let hosts = json(hosts);
    let hosts = hosts.members().unwrap();
    for i in 0..hosts.len() {
        let vars = decode_object(hosts.value_at(i)).unwrap();
        dataset.hostvars.insert(hosts.key_at(i).clone(), vars);
    }
    let groups = json(groups);
    let groups = groups.members().unwrap();
    for i in 0..groups.len() {
        let group = groups.value_at(i);
        dataset.groups.insert(
            groups.key_at(i).clone(),
            Group {
                hosts: names(group.get("hosts")),
                children: names(group.get("children")),
                vars: group.get("vars").map(|vars| decode_object(vars).unwrap()),
            },
        );
    }
    dataset
}

fn source_of(name: &str, ttl_seconds: u64) -> Source {
    Source {
        name: name.to_string(),
        project_id: "test".to_string(),
        script_path: "x".to_string(),
        script_args: vec![],
        connector_type: ConnectorType::Script,
        output_format: OutputFormat::Native,
        timeout_seconds: 300,
        sync_mode: SyncMode::Replace,
        credential_ids: vec![],
        schedule: None,
        sync_interval_seconds: None,
        ttl_seconds,
        ttl_overrides: TtlOverrides::default(),
        hosts_from_source: None,
        allow_on_demand_refresh: false,
        advertise_scope: None,
        config: StrMap::new(),
    }
}

fn text(value: &str) -> Json {
    Json::Str(value.to_string())
}

fn owning(source: &str, group: &str) -> ViewMember {
    ViewMember {
        source: source.to_string(),
        owns: Ownership {
            source: "src-d42".to_string(),
            groups: vec![group.to_string()],
            hosts: vec![],
            advertised: false,
        },
    }
}

// src-d42 is the inventory both members resolve ownership against; src-dc1 and src-dc2
// are the facts sources the view serves.
fn fixture() -> (MemoryCache, StrMap<Source>, View) {
    let mut cache = MemoryCache::new();

    cache.set(
        "src-d42",
        CacheEntry::new(
            dataset_json(
                r#"{"web01.dc1": {}, "web02.dc1": {}, "db01.dc2": {}, "appliance.dc2": {}}"#,
                r#"{
                    "datacenter_dc1": {"hosts": ["web01.dc1", "web02.dc1"]},
                    "datacenter_dc2": {"hosts": ["db01.dc2", "appliance.dc2"]}
                }"#,
            ),
            7200,
        ),
    );

    cache.set(
        "src-dc1",
        CacheEntry::new(
            dataset_json(
                r#"{"web01.dc1": {"os": "ol8"}, "web02.dc1": {"os": "ol9"}}"#,
                r#"{"ol8": {"hosts": ["web01.dc1"]}, "shared": {"hosts": ["web01.dc1"]}}"#,
            ),
            86400,
        ),
    );

    // db01 only; appliance.dc2 is owned by this member and never gathered
    cache.set(
        "src-dc2",
        CacheEntry::new(
            dataset_json(
                r#"{"db01.dc2": {"os": "rhel9"}}"#,
                r#"{"shared": {"hosts": ["db01.dc2"]}}"#,
            ),
            30,
        ),
    );

    let mut sources = StrMap::new();
    sources.insert("src-d42".to_string(), source_of("d42", 7200));
    sources.insert("src-dc1".to_string(), source_of("dc1", 86400));
    sources.insert("src-dc2".to_string(), source_of("dc2", 30));

    let view = View {
        name: "All facts".to_string(),
        members: vec![owning("src-dc1", "datacenter_dc1"), owning("src-dc2", "datacenter_dc2")],
        ttl_seconds: None,
    };

    (cache, sources, view)
}

fn snap<'a>(cache: &MemoryCache, sources: &'a StrMap<Source>, view: &'a View) -> ViewSnapshot<'a> {
    snapshot(cache, sources, "view-all", view)
}

fn strings(list: &[&str]) -> Vec<String> {
    list.iter().map(|item| item.to_string()).collect()
}

// a multi-homed host in both datacenter groups
fn share_web01(cache: &mut MemoryCache) {
    let mut entry = cache.get("src-d42").unwrap();
    entry.merge_dataset(dataset_json(
        "{}",
        r#"{"datacenter_dc2": {"hosts": ["db01.dc2", "web01.dc1"]}}"#,
    ));
    cache.set("src-d42", entry);
}

#[test]
fn a_host_routes_to_the_member_that_claims_it() {
    let (cache, sources, view) = fixture();
    let s = snap(&cache, &sources, &view);
    assert_eq!(s.owner_of("web01.dc1").unwrap().source_id, "src-dc1");
    assert_eq!(s.owner_of("db01.dc2").unwrap().source_id, "src-dc2");
    assert!(s.owner_of("nobody.example").is_none());
}

#[test]
fn the_routing_table_and_the_direct_scan_agree() {
    let (mut cache, sources, mut view) = fixture();
    share_web01(&mut cache);

    for members_reversed in [false, true] {
        if members_reversed {
            view.members.reverse();
        }

        let s = snap(&cache, &sources, &view);
        let table = s.prepare_routing(100);
        assert!(table.built());

        for host in ["web01.dc1", "web02.dc1", "db01.dc2", "appliance.dc2", "nobody.example"] {
            assert_eq!(
                s.owner_index(host),
                s.look_up(&table, host),
                "the two routing paths disagree about '{}' (reversed: {})",
                host,
                members_reversed
            );
        }
    }
}

#[test]
fn a_single_host_question_does_not_build_the_table() {
    let (cache, sources, view) = fixture();
    let s = snap(&cache, &sources, &view);

    let routed = s.route(&strings(&["db01.dc2"])).unwrap_or_else(|_| panic!("claimed"));
    assert_eq!(routed[0].0.source_id, "src-dc2");
    assert!(!s.prepare_routing(1).built());

    // while a question for many hosts does build it
    assert!(s.prepare_routing(1000).built());
}

#[test]
fn a_claimed_host_with_no_data_still_routes() {
    let (cache, sources, view) = fixture();
    let s = snap(&cache, &sources, &view);
    assert_eq!(s.owner_of("appliance.dc2").unwrap().source_id, "src-dc2");
    assert!(!s.hosts().contains(&"appliance.dc2".to_string()));
}

#[test]
fn the_union_is_every_owned_host_that_has_data() {
    let (cache, sources, view) = fixture();
    let s = snap(&cache, &sources, &view);
    assert_eq!(s.hosts(), vec!["db01.dc2", "web01.dc1", "web02.dc1"]);
}

#[test]
fn hostvars_come_from_the_owning_member() {
    let (cache, sources, view) = fixture();
    let s = snap(&cache, &sources, &view);
    let selection = s.hosts();
    let vars = s.hostvars(&selection);
    assert_eq!(vars.get("web01.dc1").unwrap().get("os"), Some(&text("ol8")));
    assert_eq!(vars.get("db01.dc2").unwrap().get("os"), Some(&text("rhel9")));
}

#[test]
fn same_named_groups_union_their_hosts() {
    let (cache, sources, view) = fixture();
    let s = snap(&cache, &sources, &view);
    let groups = s.groups();
    assert_eq!(groups.get("shared").unwrap().hosts, vec!["db01.dc2", "web01.dc1"]);
    assert_eq!(groups.get("ol8").unwrap().hosts, vec!["web01.dc1"]);
}

#[test]
fn naming_a_host_nobody_claims_is_refused_rather_than_empty() {
    let (cache, sources, view) = fixture();
    let s = snap(&cache, &sources, &view);
    let err = s
        .select(Some("web01.dc1,nobody.example"), None)
        .expect_err("an unroutable host must not answer with empty data");
    assert_eq!(err.0, vec!["nobody.example"]);
}

#[test]
fn a_group_filter_matching_nothing_is_an_empty_selection() {
    let (cache, sources, view) = fixture();
    let s = snap(&cache, &sources, &view);
    assert!(s.select(None, Some("ghosts")).unwrap().is_empty());
}

#[test]
fn a_group_filter_spans_members() {
    let (cache, sources, view) = fixture();
    let s = snap(&cache, &sources, &view);
    assert_eq!(s.select(None, Some("shared")).unwrap(), vec!["db01.dc2", "web01.dc1"]);
}

#[test]
fn routing_groups_hosts_by_member() {
    let (cache, sources, view) = fixture();
    let s = snap(&cache, &sources, &view);
    let routed = s
        .route(&strings(&["db01.dc2", "web01.dc1", "web02.dc1"]))
        .unwrap_or_else(|_| panic!("claimed"));
    assert_eq!(routed.len(), 2);
    assert_eq!(routed[0].0.source_id, "src-dc1");
    assert_eq!(routed[0].1, vec!["web01.dc1", "web02.dc1"]);
    assert_eq!(routed[1].0.source_id, "src-dc2");
}

#[test]
fn overlap_resolves_by_declared_order() {
    let (mut cache, sources, mut view) = fixture();
    share_web01(&mut cache);
    {
        let s = snap(&cache, &sources, &view);
        assert_eq!(s.owner_of("web01.dc1").unwrap().source_id, "src-dc1");
    }

    view.members.reverse();
    let s = snap(&cache, &sources, &view);
    assert_eq!(s.owner_of("web01.dc1").unwrap().source_id, "src-dc2");
}

#[test]
fn a_declared_view_ttl_replaces_the_members_default() {
    let (cache, sources, mut view) = fixture();
    {
        let s = snap(&cache, &sources, &view);
        // inherited: the dc2 member's own 30s
        let dc2 = s.owner_of("db01.dc2").unwrap();
        assert_eq!(dc2.default_ttl(s.view), 30);
        assert_eq!(s.ttl_seconds(), 86400);
    }

    view.ttl_seconds = Some(120);
    let s = snap(&cache, &sources, &view);
    assert_eq!(s.owner_of("db01.dc2").unwrap().default_ttl(s.view), 120);
    assert_eq!(s.ttl_seconds(), 120);
}

#[test]
fn a_member_ttl_override_still_beats_a_view_ttl() {
    let (cache, mut sources, mut view) = fixture();
    view.ttl_seconds = Some(120);
    let mut dc2 = sources.remove("src-dc2").unwrap();
    dc2.ttl_overrides.hosts.insert("db01.dc2".to_string(), 5);
    sources.insert("src-dc2".to_string(), dc2);

    let s = snap(&cache, &sources, &view);
    let dc2 = s.owner_of("db01.dc2").unwrap();
    assert_eq!(dc2.effective_ttl(s.view, "db01.dc2", &dc2.group_ttls()), 5);
}

#[test]
fn the_view_reports_the_stalest_member() {
    let (mut cache, sources, view) = fixture();
    {
        let s = snap(&cache, &sources, &view);
        // nothing is old enough to have aged a second, but every member is cached and
        // inside its time to live
        assert_eq!(s.age_seconds(), 0);
        assert!(s.is_fresh());
    }
    cache.set("src-dc1", CacheEntry::restore(Dataset::default(), 86400, 77, StrMap::new()));
    assert_eq!(snap(&cache, &sources, &view).age_seconds(), 77);
}

#[test]
fn an_uncached_member_makes_the_view_not_fresh() {
    let (mut cache, sources, view) = fixture();
    cache.remove("src-dc2");
    let s = snap(&cache, &sources, &view);
    assert!(!s.is_fresh());
    // and its hosts leave the union, while staying routable for a refresh
    assert_eq!(s.hosts(), vec!["web01.dc1", "web02.dc1"]);
    assert_eq!(s.owner_of("db01.dc2").unwrap().source_id, "src-dc2");
}

#[test]
fn without_the_ownership_source_only_explicit_hosts_route() {
    let (mut cache, sources, mut view) = fixture();
    view.members[1].owns.hosts = strings(&["appliance.dc2"]);
    cache.remove("src-d42");

    let s = snap(&cache, &sources, &view);
    assert!(!s.members[0].ownership_cached());
    // the group patterns cannot be expanded
    assert!(s.owner_of("web01.dc1").is_none());
    // but a named host is a claim of its own
    assert_eq!(s.owner_of("appliance.dc2").unwrap().source_id, "src-dc2");
}

#[test]
fn the_merged_dataset_has_the_same_shape_as_a_source() {
    let (cache, sources, view) = fixture();
    let s = snap(&cache, &sources, &view);
    let selection = s.hosts();
    let dataset = s.dataset(&selection).to_dataset();
    let json: serde_json::Value = serde_json::from_str(&dataset.to_json()).unwrap();
    let keys: Vec<&str> = json.as_object().unwrap().keys().map(String::as_str).collect();
    assert_eq!(keys, vec!["groups", "hostvars", "remove_hosts"]);
    let group = &json["groups"]["shared"];
    let group_keys: Vec<&str> = group.as_object().unwrap().keys().map(String::as_str).collect();
    assert_eq!(group_keys, vec!["children", "hosts", "vars"]);
}

#[test]
fn an_unclaimed_host_cannot_be_routed() {
    let (cache, sources, view) = fixture();
    let s = snap(&cache, &sources, &view);
    let refused = s.route(&strings(&["web01.dc1", "x", "y"]));
    assert_eq!(refused.err().map(|e| e.0), Some(strings(&["x", "y"])));
}
