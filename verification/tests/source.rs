use unified_api::domain::dataset::{Dataset, Group};
use unified_api::domain::source::{
    AdvertisedScope, ConnectVia, ConnectorType, HostsFromSource, MatchPattern, OutputFormat, Source, TtlOverrides,
};
use unified_api::domain::sync_mode::SyncMode;
use unified_api::json::{decode_object, Json};
use unified_api::strmap::StrMap;

fn json(source: &str) -> Json {
    Json::from_value(serde_json::from_str(source).unwrap())
}

fn names(value: Option<&Json>) -> Vec<String> {
    match value {
        Some(Json::Array(items)) => items
            .iter()
            .map(|item| match item {
                Json::Str(name) => name.clone(),
                _ => panic!("not a name"),
            })
            .collect(),
        _ => vec![],
    }
}

fn dataset_json(hosts: &str, groups: &str) -> Dataset {
    let mut dataset = Dataset::default();
    let hosts = json(hosts);
    let hosts = hosts.members().unwrap();
    for i in 0..hosts.len() {
        let vars = decode_object(hosts.value_at(i)).unwrap();
        dataset.hostvars.insert(hosts.key_at(i).clone(), vars);
    }
    let groups = json(groups);
    let groups = groups.members().unwrap();
    for i in 0..groups.len() {
        let group = groups.value_at(i);
        dataset.groups.insert(
            groups.key_at(i).clone(),
            Group {
                hosts: names(group.get("hosts")),
                children: names(group.get("children")),
                vars: group.get("vars").map(|vars| decode_object(vars).unwrap()),
            },
        );
    }
    dataset
}

fn source_of(name: &str, ttl_seconds: u64) -> Source {
    Source {
        name: name.to_string(),
        project_id: "test".to_string(),
        script_path: "x".to_string(),
        script_args: vec![],
        connector_type: ConnectorType::Script,
        output_format: OutputFormat::Native,
        timeout_seconds: 300,
        sync_mode: SyncMode::Replace,
        credential_ids: vec![],
        schedule: None,
        sync_interval_seconds: None,
        ttl_seconds,
        ttl_overrides: TtlOverrides::default(),
        hosts_from_source: None,
        allow_on_demand_refresh: false,
        advertise_scope: None,
        config: StrMap::new(),
    }
}

fn strings(list: &[&str]) -> Vec<String> {
    list.iter().map(|item| item.to_string()).collect()
}

fn dataset() -> Dataset {
    dataset_json(
        r#"{
            "web01.example.com": {"ansible_host": "10.0.0.1"},
            "web02.example.com": {},
            "db01.example.com": {"ansible_host": "10.0.0.9"}
        }"#,
        r#"{
            "web": {"hosts": ["web01.example.com", "web02.example.com"]},
            "db": {"hosts": ["db01.example.com"]}
        }"#,
    )
}

fn hfs(groups: &[&str], hosts: &[&str], connect_via: ConnectVia) -> HostsFromSource {
    HostsFromSource {
        source: "src-a".to_string(),
        match_pattern: MatchPattern { groups: strings(groups), hosts: strings(hosts) },
        connect_via,
    }
}

fn ssh_source(pattern: MatchPattern) -> Source {
    Source {
        connector_type: ConnectorType::Ssh,
        hosts_from_source: Some(HostsFromSource {
            source: "src-inv".to_string(),
            match_pattern: pattern,
            connect_via: ConnectVia::Hostname,
        }),
        ..source_of("s", 60)
    }
}

#[test]
fn empty_pattern_selects_every_host() {
    let (specs, warnings) = hfs(&[], &[], ConnectVia::Hostname).resolve(&dataset());
    assert!(warnings.is_empty());
    assert_eq!(specs.len(), 3);
    // the hostname itself is the address
    assert_eq!(specs[0].addresses, vec![specs[0].name.clone()]);
}

#[test]
fn pattern_is_the_union_of_groups_and_hosts() {
    let (specs, warnings) =
        hfs(&["web"], &["db01.example.com"], ConnectVia::Hostname).resolve(&dataset());
    assert!(warnings.is_empty());
    let names: Vec<&str> = specs.iter().map(|s| s.name.as_str()).collect();
    assert_eq!(names, vec!["db01.example.com", "web01.example.com", "web02.example.com"]);
}

#[test]
fn unknown_group_and_host_warn_but_do_not_fail() {
    let (specs, warnings) =
        hfs(&["ghosts"], &["nope.example.com"], ConnectVia::Hostname).resolve(&dataset());
    assert!(specs.is_empty());
    assert_eq!(warnings.len(), 2);
    assert!(warnings[0].contains("ghosts"));
    assert!(warnings[1].contains("nope.example.com"));
}

#[test]
fn ansible_host_strategy_uses_the_var_and_skips_hosts_without_it() {
    let (specs, warnings) = hfs(&[], &[], ConnectVia::AnsibleHost).resolve(&dataset());
    // web02 has no ansible_host: skipped with a warning
    assert_eq!(specs.len(), 2);
    assert!(warnings.iter().any(|w| w.contains("web02.example.com")));
    let web01 = specs.iter().find(|s| s.name == "web01.example.com").unwrap();
    assert_eq!(web01.addresses, vec!["10.0.0.1".to_string()]);
}

#[test]
fn fallback_strategy_produces_ordered_candidates() {
    let (specs, _) = hfs(&[], &[], ConnectVia::AnsibleHostThenHostname).resolve(&dataset());
    let web01 = specs.iter().find(|s| s.name == "web01.example.com").unwrap();
    assert_eq!(web01.addresses, vec!["10.0.0.1".to_string(), "web01.example.com".to_string()]);
    // no ansible_host: a single candidate, no warning
    let web02 = specs.iter().find(|s| s.name == "web02.example.com").unwrap();
    assert_eq!(web02.addresses, vec!["web02.example.com".to_string()]);
}

#[test]
fn the_other_fallback_puts_the_hostname_first() {
    let (specs, _) = hfs(&["web"], &[], ConnectVia::HostnameThenAnsibleHost).resolve(&dataset());
    assert_eq!(specs[0].addresses, vec!["web01.example.com", "10.0.0.1"]);
    assert_eq!(specs[1].addresses, vec!["web02.example.com"]);
}

#[test]
fn group_members_without_hostvars_are_still_selected() {
    let mut ds = dataset();
    ds.groups.insert(
        "extra".to_string(),
        Group { hosts: strings(&["bare.example.com"]), children: vec![], vars: None },
    );
    let (specs, warnings) = hfs(&["extra"], &[], ConnectVia::Hostname).resolve(&ds);
    assert!(warnings.is_empty());
    assert_eq!(specs[0].name, "bare.example.com");
    assert_eq!(specs[0].addresses, vec!["bare.example.com".to_string()]);
}

#[test]
fn an_explicit_advertise_scope_beats_the_derived_pattern() {
    let mut source =
        ssh_source(MatchPattern { groups: strings(&["derived"]), hosts: vec![] });
    source.advertise_scope =
        Some(AdvertisedScope { groups: strings(&["explicit"]), hosts: vec![] });

    let claim = source.advertised_scope().expect("declared");
    assert_eq!(claim.groups, vec!["explicit"]);
    assert!(!claim.catch_all);
}

#[test]
fn a_hosts_from_source_pattern_is_the_advertised_scope() {
    let source = ssh_source(MatchPattern {
        groups: strings(&["datacenter_dc2"]),
        hosts: strings(&["appliance.dc2.example"]),
    });

    let claim = source.advertised_scope().expect("declared");
    assert_eq!(claim.groups, vec!["datacenter_dc2"]);
    assert_eq!(claim.hosts, vec!["appliance.dc2.example"]);
    assert!(!claim.catch_all);
}

#[test]
fn an_empty_pattern_advertises_a_spelled_out_catch_all() {
    let source = ssh_source(MatchPattern { groups: vec![], hosts: vec![] });

    let claim = source.advertised_scope().expect("declared");
    assert!(claim.groups.is_empty() && claim.hosts.is_empty());
    assert!(claim.catch_all, "claims-everything must be a flag, never bare empty lists");
}

#[test]
fn an_ordinary_source_makes_no_claim() {
    assert!(source_of("s", 60).advertised_scope().is_none());
}

#[test]
fn a_host_override_beats_a_group_override_and_the_first_group_wins() {
    let mut source = source_of("s", 60);
    source.ttl_overrides.groups.insert("web".to_string(), 30);
    source.ttl_overrides.groups.insert("db".to_string(), 90);
    source.ttl_overrides.hosts.insert("web02.example.com".to_string(), 5);
    let mut ds = dataset();
    ds.groups.insert(
        "db".to_string(),
        Group {
            hosts: strings(&["db01.example.com", "web01.example.com"]),
            children: vec![],
            vars: None,
        },
    );
    let group_ttls = source.group_ttl_by_host(&ds);
    assert_eq!(source.effective_ttl("web01.example.com", &group_ttls, 60), 90);
    assert_eq!(source.effective_ttl("web02.example.com", &group_ttls, 60), 5);
    assert_eq!(source.effective_ttl("db01.example.com", &group_ttls, 60), 90);
    assert_eq!(source.effective_ttl("other.example.com", &group_ttls, 60), 60);
}
