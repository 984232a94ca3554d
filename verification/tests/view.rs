use unified_api::domain::dataset::{Dataset, Group};
use unified_api::domain::view::{Ownership, View, ViewMember};
use unified_api::json::{decode_object, Json};

fn json(source: &str) -> Json {
    Json::from_value(serde_json::from_str(source).unwrap())
}

fn names(value: Option<&Json>) -> Vec<String> {
    match value {
        Some(Json::Array(items)) => items
            .iter()
            .map(|item| match item {
                Json::Str(name) => name.clone(),
                _ => panic!("not a name"),
            })
            .collect(),
        _ => vec![],
    }
}

fn dataset_json(hosts: &str, groups: &str) -> Dataset {
    let mut dataset = Dataset::default();
    let hosts = json(hosts);
    let hosts = hosts.members().unwrap();
    for i in 0..hosts.len() {
        let vars = decode_object(hosts.value_at(i)).unwrap();
        dataset.hostvars.insert(hosts.key_at(i).clone(), vars);
    }
    let groups = json(groups);
    let groups = groups.members().unwrap();
    for i in 0..groups.len() {
        let group = groups.value_at(i);
        dataset.groups.insert(
            groups.key_at(i).clone(),
            Group {
                hosts: names(group.get("hosts")),
                children: names(group.get("children")),
                vars: group.get("vars").map(|vars| decode_object(vars).unwrap()),
            },
        );
    }
    dataset
}

fn strings(list: &[&str]) -> Vec<String> {
    list.iter().map(|item| item.to_string()).collect()
}

fn dataset() -> Dataset {
    dataset_json(
        r#"{"web01.dc1.example": {}, "web02.dc1.example": {}, "db01.dc2.example": {}}"#,
        r#"{
            "datacenter_dc1": {"hosts": ["web01.dc1.example", "web02.dc1.example"]},
            "datacenter_dc2": {"hosts": ["db01.dc2.example", "web02.dc1.example"]}
        }"#,
    )
}

fn owns(groups: &[&str], hosts: &[&str]) -> Ownership {
    Ownership {
        source: "src-d42".to_string(),
        groups: strings(groups),
        hosts: strings(hosts),
        advertised: false,
    }
}

fn two_datacenters() -> View {
    View {
        name: "All facts".to_string(),
        members: vec![
            ViewMember { source: "src-dc1".to_string(), owns: owns(&["datacenter_dc1"], &[]) },
            ViewMember { source: "src-dc2".to_string(), owns: owns(&["datacenter_dc2"], &[]) },
        ],
        ttl_seconds: None,
    }
}

#[test]
fn a_group_pattern_claims_that_groups_members() {
    let view = two_datacenters();
    let ds = dataset();
    assert!(view.members[0].owns.claims(&ds, "web01.dc1.example"));
    assert!(!view.members[0].owns.claims(&ds, "db01.dc2.example"));
    assert!(view.members[1].owns.claims(&ds, "db01.dc2.example"));
}

#[test]
fn a_host_in_two_groups_is_claimed_by_both_patterns() {
    let view = two_datacenters();
    let ds = dataset();
    assert!(view.members[0].owns.claims(&ds, "web02.dc1.example"));
    assert!(view.members[1].owns.claims(&ds, "web02.dc1.example"));
}

#[test]
fn an_explicitly_named_host_is_claimed_even_when_the_dataset_lacks_it() {
    let owns = owns(&[], &["brandnew.dc2.example"]);
    assert!(owns.claims(&dataset(), "brandnew.dc2.example"));
    assert!(owns.claimed_hosts(&dataset()).contains("brandnew.dc2.example"));
}

#[test]
fn an_unknown_group_claims_nothing_rather_than_everything() {
    let owns = owns(&["datacenter_ghost"], &[]);
    assert!(!owns.claims(&dataset(), "web01.dc1.example"));
    assert_eq!(owns.claimed_hosts(&dataset()).len(), 0);
}

#[test]
fn an_empty_pattern_is_a_catch_all() {
    let owns = owns(&[], &[]);
    assert!(owns.is_catch_all());
    assert!(owns.claims(&dataset(), "web01.dc1.example"));
    assert!(!owns.claims(&dataset(), "nowhere.example"));
    assert_eq!(owns.claimed_hosts(&dataset()).len(), 3);
}

#[test]
fn group_members_without_hostvars_are_still_claimed() {
    let mut ds = dataset();
    ds.groups.insert(
        "datacenter_dc1".to_string(),
        Group { hosts: strings(&["appliance.dc1.example"]), children: vec![], vars: None },
    );
    let view = two_datacenters();
    // appliances that take no connection: claimed by the member, absent from its data, and
    // still routable
    assert!(view.members[0].owns.claims(&ds, "appliance.dc1.example"));
}

#[test]
fn claimed_hosts_is_the_union_of_groups_and_hosts() {
    let owns = owns(&["datacenter_dc1"], &["db01.dc2.example"]);
    let claimed = owns.claimed_hosts(&dataset());
    assert_eq!(claimed.len(), 3);
    assert!(claimed.contains("db01.dc2.example"));
}

#[test]
fn member_ids_lists_the_sources_in_declared_order() {
    assert_eq!(two_datacenters().member_ids(), vec!["src-dc1", "src-dc2"]);
}
