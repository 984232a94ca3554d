use std::time::{Duration, Instant};
use unified_api::domain::cache_entry::{etag, CacheEntry};
use unified_api::domain::dataset::{Dataset, Group, HostVars};
use unified_api::json::Json;
use unified_api::strmap::StrMap;

fn text(value: &str) -> Json {
    Json::Str(value.to_string())
}

fn vars_of(pairs: &[(&str, Json)]) -> HostVars {
    let mut vars = HostVars::new();
    for (key, value) in pairs {
        vars.insert(key.to_string(), value.clone());
    }
    vars
}

fn group_of(hosts: &[&str], children: &[&str], vars: &[(&str, Json)]) -> Group {
    Group {
        hosts: hosts.iter().map(|h| h.to_string()).collect(),
        children: children.iter().map(|c| c.to_string()).collect(),
        vars: if vars.is_empty() { None } else { Some(vars_of(vars)) },
    }
}

fn dataset_of(hosts: Vec<(&str, HostVars)>, groups: Vec<(&str, Group)>) -> Dataset {
    let mut dataset = Dataset::default();
    for (name, vars) in hosts {
        dataset.hostvars.insert(name.to_string(), vars);
    }
    for (name, group) in groups {
        dataset.groups.insert(name.to_string(), group);
    }
    dataset
}

fn empty_dataset() -> Dataset {
    dataset_of(vec![], vec![])
}

fn host_vars(name: &str, role: &str) -> (String, HostVars) {
    (name.to_string(), vars_of(&[("role", text(role))]))
}

fn dataset_with_hosts() -> Dataset {
    dataset_of(
        vec![
            ("motoko.section9.net", vars_of(&[("role", text("commander"))])),
            ("batou.section9.net", vars_of(&[("role", text("assault"))])),
        ],
        vec![],
    )
}

fn dataset_with_groups() -> Dataset {
    let mut dataset = dataset_with_hosts();
    dataset.groups.insert(
        "section9".to_string(),
        group_of(&["motoko.section9.net", "batou.section9.net"], &[], &[]),
    );
    dataset
        .groups
        .insert("commanders".to_string(), group_of(&["motoko.section9.net"], &[], &[]));
    dataset
}

fn var<'a>(entry: &'a CacheEntry, host: &str, key: &str) -> Option<&'a Json> {
    entry.dataset().hostvars.get(host)?.get(key)
}

fn removing(hosts: &[&str]) -> Dataset {
    let mut dataset = empty_dataset();
    dataset.remove_hosts = hosts.iter().map(|h| h.to_string()).collect();
    dataset
}

#[test]
fn new_entry_is_fresh() {
    let entry = CacheEntry::new(empty_dataset(), 3600);
    assert!(entry.is_fresh());
}

#[test]
fn update_host_aged_backdates_the_timestamp() {
    let mut entry = CacheEntry::new(dataset_with_hosts(), 600);
    let vars = vars_of(&[("role", text("sniper"))]);

    entry.update_host_aged("saito.section9.net".to_string(), vars, 300);

    assert_eq!(entry.host_age_seconds("saito.section9.net"), Some(300));
    // still fresh: the time to live is longer than the age it came with
    assert!(entry.is_host_fresh("saito.section9.net", None));
    // and stale under one shorter than that age
    assert!(!entry.is_host_fresh("saito.section9.net", Some(60)));
}

#[test]
fn update_host_aged_with_zero_age_matches_update_host() {
    let mut entry = CacheEntry::new(empty_dataset(), 600);
    entry.update_host_aged("a.example".to_string(), HostVars::new(), 0);
    assert_eq!(entry.host_age_seconds("a.example"), Some(0));
}

#[test]
fn update_host_aged_leaves_the_other_hosts_alone() {
    let mut entry = CacheEntry::new(dataset_with_hosts(), 600);
    entry.update_host_aged("motoko.section9.net".to_string(), HostVars::new(), 300);

    assert_eq!(entry.host_age_seconds("motoko.section9.net"), Some(300));
    assert_eq!(entry.host_age_seconds("batou.section9.net"), Some(0));
}

#[test]
fn a_new_entry_is_a_complete_one() {
    let entry = CacheEntry::new(dataset_with_hosts(), 3600);
    assert!(entry.is_complete());
    assert!(entry.is_fresh());
}

#[test]
fn a_partial_entry_is_never_fresh_however_new() {
    let mut entry = CacheEntry::new(dataset_with_hosts(), 3600);
    entry.mark_partial();

    assert!(!entry.is_complete());
    assert!(!entry.is_fresh());
    // its hosts are another matter: those really were gathered
    assert!(entry.is_host_fresh("motoko.section9.net", None));
}

#[test]
fn a_full_sync_makes_a_partial_entry_complete_again() {
    let mut entry = CacheEntry::new(dataset_with_hosts(), 3600);
    entry.mark_partial();

    entry.mark_gathered();

    assert!(entry.is_complete());
    assert!(entry.is_fresh());
}

#[test]
fn mark_gathered_restarts_the_dataset_clock() {
    let mut entry = CacheEntry::restore(dataset_with_hosts(), 1, 5, StrMap::new());
    assert_eq!(entry.age_seconds(), 5);
    assert!(!entry.is_fresh());

    entry.mark_gathered();

    assert_eq!(entry.age_seconds(), 0);
    assert!(entry.is_fresh());
}

#[test]
fn mark_gathered_leaves_the_host_timestamps_alone() {
    let mut entry = CacheEntry::new(dataset_with_hosts(), 3600);
    let (name, vars) = host_vars("motoko.section9.net", "commander");
    entry.update_host_aged(name, vars, 900);

    entry.mark_gathered();

    assert!(entry.host_age_seconds("motoko.section9.net").unwrap_or(0) >= 900);
}

#[test]
fn expired_entry_is_not_fresh() {
    let entry = CacheEntry::new(empty_dataset(), 0);
    assert!(!entry.is_fresh());
    let later = entry.fetched_at() + Duration::from_millis(10);
    assert!(!entry.is_fresh_at(later));
}

#[test]
fn age_starts_at_zero() {
    let entry = CacheEntry::new(empty_dataset(), 3600);
    assert_eq!(entry.age_seconds(), 0);
}

#[test]
fn ttl_is_set_correctly() {
    let entry = CacheEntry::new(empty_dataset(), 300);
    assert_eq!(entry.ttl_seconds(), 300);
}

#[test]
fn host_timestamps_created_on_new() {
    let entry = CacheEntry::new(dataset_with_hosts(), 3600);
    assert_eq!(entry.host_timestamps().len(), 2);
    assert!(entry.host_timestamps().contains_key("motoko.section9.net"));
}

#[test]
fn host_is_fresh_with_global_ttl() {
    let entry = CacheEntry::new(dataset_with_hosts(), 3600);
    assert!(entry.is_host_fresh("motoko.section9.net", None));
}

#[test]
fn host_is_stale_with_override_ttl() {
    let entry = CacheEntry::new(dataset_with_hosts(), 3600);
    // a time to live of zero seconds has always ended
    assert!(!entry.is_host_fresh("motoko.section9.net", Some(0)));
}

#[test]
fn unknown_host_is_not_fresh() {
    let entry = CacheEntry::new(dataset_with_hosts(), 3600);
    assert!(!entry.is_host_fresh("togusa.section9.net", None));
}

#[test]
fn update_host_refreshes_timestamp() {
    let earlier = Instant::now();
    let mut entry = CacheEntry::new_at(dataset_with_hosts(), 3600, earlier);
    let original = entry.host_timestamps().get("motoko.section9.net").unwrap().at;
    assert_eq!(original, earlier);

    let later = earlier + Duration::from_millis(10);
    entry.put_host(
        "motoko.section9.net".to_string(),
        vars_of(&[("role", text("upgraded"))]),
        later,
    );

    assert!(entry.host_timestamps().get("motoko.section9.net").unwrap().at > original);
    assert_eq!(var(&entry, "motoko.section9.net", "role"), Some(&text("upgraded")));
}

#[test]
fn host_age_returns_none_for_unknown() {
    let entry = CacheEntry::new(dataset_with_hosts(), 3600);
    assert!(entry.host_age_seconds("togusa.section9.net").is_none());
}

#[test]
fn merge_hostvar_fields_keeps_keys_it_was_not_given() {
    let mut entry = CacheEntry::new(dataset_with_hosts(), 3600);
    let volume = Json::Object(vec![("volume".to_string(), text("vol-a"))]);
    let client = Json::Object(vec![("client".to_string(), text("c-1"))]);

    let from_first = dataset_of(
        vec![("motoko.section9.net", vars_of(&[("infinibox", volume.clone())]))],
        vec![],
    );
    let from_second = dataset_of(
        vec![("motoko.section9.net", vars_of(&[("avamar", client.clone())]))],
        vec![],
    );

    entry.merge_hostvar_fields(from_first);
    entry.merge_hostvar_fields(from_second);

    // both derived keys survived, and so did what the connector gathered
    assert_eq!(
        var(&entry, "motoko.section9.net", "infinibox").unwrap().get("volume"),
        Some(&text("vol-a"))
    );
    assert_eq!(
        var(&entry, "motoko.section9.net", "avamar").unwrap().get("client"),
        Some(&text("c-1"))
    );
    assert_eq!(var(&entry, "motoko.section9.net", "role"), Some(&text("commander")));
}

#[test]
fn merge_hostvar_fields_does_not_refresh_host_age() {
    let mut entry = CacheEntry::new(dataset_with_hosts(), 3600);
    entry.update_host_aged(
        "motoko.section9.net".to_string(),
        vars_of(&[("role", text("commander"))]),
        900,
    );
    let before = entry.host_age_seconds("motoko.section9.net");
    assert!(before.unwrap_or(0) >= 900);

    entry.merge_hostvar_fields(dataset_of(
        vec![(
            "motoko.section9.net",
            vars_of(&[(
                "infinibox",
                Json::Object(vec![("volume".to_string(), text("vol-a"))]),
            )]),
        )],
        vec![],
    ));

    assert_eq!(before, entry.host_age_seconds("motoko.section9.net"));
}

#[test]
fn merge_hostvar_fields_ignores_unknown_hosts() {
    let mut entry = CacheEntry::new(dataset_with_hosts(), 3600);
    let before = entry.dataset().hostvars.len();

    entry.merge_hostvar_fields(dataset_of(
        vec![(
            "ghost.section9.net",
            vars_of(&[(
                "infinibox",
                Json::Object(vec![("volume".to_string(), text("vol-z"))]),
            )]),
        )],
        vec![],
    ));

    assert_eq!(entry.dataset().hostvars.len(), before);
    assert!(!entry.dataset().hostvars.contains_key("ghost.section9.net"));
}

#[test]
fn merge_dataset_adds_new_hosts() {
    let mut entry = CacheEntry::new(dataset_with_hosts(), 3600);
    assert_eq!(entry.dataset().hostvars.len(), 2);

    entry.merge_dataset(dataset_of(
        vec![("togusa.section9.net", vars_of(&[("role", text("detective"))]))],
        vec![],
    ));
    assert_eq!(entry.dataset().hostvars.len(), 3);
    assert_eq!(var(&entry, "togusa.section9.net", "role"), Some(&text("detective")));
}

#[test]
fn merge_dataset_updates_existing_hosts() {
    let mut entry = CacheEntry::new(dataset_with_hosts(), 3600);

    entry.merge_dataset(dataset_of(
        vec![("motoko.section9.net", vars_of(&[("role", text("major"))]))],
        vec![],
    ));
    assert_eq!(entry.dataset().hostvars.len(), 2);
    assert_eq!(var(&entry, "motoko.section9.net", "role"), Some(&text("major")));
}

#[test]
fn merge_enrichment_does_not_refresh_an_existing_hosts_age() {
    let mut entry = CacheEntry::new(dataset_with_hosts(), 3600);
    let (name, vars) = host_vars("motoko.section9.net", "commander");
    entry.update_host_aged(name, vars, 900);
    let before = entry.host_age_seconds("motoko.section9.net");

    entry.merge_enrichment(dataset_of(
        vec![("motoko.section9.net", vars_of(&[("infinibox", text("vol-a"))]))],
        vec![],
    ));

    assert_eq!(before, entry.host_age_seconds("motoko.section9.net"));
    assert_eq!(var(&entry, "motoko.section9.net", "infinibox"), Some(&text("vol-a")));
    assert!(!entry.is_host_fresh("motoko.section9.net", Some(600)));
}

#[test]
fn merge_enrichment_stamps_a_host_it_introduces() {
    let mut entry = CacheEntry::new(dataset_with_hosts(), 3600);

    entry.merge_enrichment(dataset_of(
        vec![("saito.section9.net", vars_of(&[("role", text("sniper"))]))],
        vec![],
    ));

    assert_eq!(entry.host_age_seconds("saito.section9.net"), Some(0));
    assert!(entry.is_host_fresh("saito.section9.net", None));
}

#[test]
fn merge_enrichment_still_removes_hosts() {
    let mut entry = CacheEntry::new(dataset_with_hosts(), 3600);

    entry.merge_enrichment(removing(&["batou.section9.net"]));

    assert!(!entry.dataset().hostvars.contains_key("batou.section9.net"));
    assert!(!entry.host_timestamps().contains_key("batou.section9.net"));
}

#[test]
fn merge_dataset_refreshes_an_existing_hosts_age() {
    let mut entry = CacheEntry::new(dataset_with_hosts(), 3600);
    let (name, vars) = host_vars("motoko.section9.net", "commander");
    entry.update_host_aged(name, vars, 900);

    entry.merge_dataset(dataset_of(
        vec![("motoko.section9.net", vars_of(&[("role", text("major"))]))],
        vec![],
    ));

    assert_eq!(entry.host_age_seconds("motoko.section9.net"), Some(0));
}

#[test]
fn merge_dataset_removes_hosts() {
    let mut entry = CacheEntry::new(dataset_with_hosts(), 3600);
    assert_eq!(entry.dataset().hostvars.len(), 2);

    entry.merge_dataset(removing(&["batou.section9.net"]));
    assert_eq!(entry.dataset().hostvars.len(), 1);
    assert!(!entry.dataset().hostvars.contains_key("batou.section9.net"));
    assert!(!entry.host_timestamps().contains_key("batou.section9.net"));
}

#[test]
fn serialized_json_reuses_the_same_buffer() {
    let entry = CacheEntry::new(dataset_with_hosts(), 3600);
    let first_ptr = entry.serialized_json().unwrap().bytes.as_ptr();
    // a second call and a clone of the entry both share the same buffer
    assert_eq!(entry.serialized_json().unwrap().bytes.as_ptr(), first_ptr);
    let clone = entry.clone();
    assert_eq!(clone.serialized_json().unwrap().bytes.as_ptr(), first_ptr);
}

#[test]
fn serialized_json_invalidated_by_mutation() {
    let mut entry = CacheEntry::new(dataset_with_hosts(), 3600);
    let before = entry.serialized_json().unwrap().etag.clone();

    entry.update_host("togusa.section9.net".to_string(), HostVars::new());

    let after = entry.serialized_json().unwrap().etag.clone();
    assert_ne!(before, after, "a mutation must produce a new ETag");
    let json: serde_json::Value =
        serde_json::from_slice(&entry.serialized_json().unwrap().bytes).unwrap();
    assert!(json["hostvars"]["togusa.section9.net"].is_object());
}

#[test]
fn capture_takes_the_hosts_vars_age_and_groups() {
    let mut entry = CacheEntry::new(dataset_with_groups(), 3600);
    let (name, vars) = host_vars("motoko.section9.net", "commander");
    entry.update_host_aged(name, vars, 900);

    let captured = entry.capture_host("motoko.section9.net").expect("captured");
    let mut groups = captured.groups().clone();
    groups.sort();
    assert_eq!(groups, vec!["commanders", "section9"]);
    assert!(captured.age_seconds() >= 900);
    assert_eq!(captured.vars().get("role"), Some(&text("commander")));
}

#[test]
fn capturing_an_unknown_host_returns_nothing() {
    let entry = CacheEntry::new(dataset_with_groups(), 3600);
    assert!(entry.capture_host("togusa.section9.net").is_none());
}

#[test]
fn restore_puts_the_host_back_in_its_groups() {
    let previous = CacheEntry::new(dataset_with_groups(), 3600);
    let captured = previous.capture_host("motoko.section9.net").expect("captured");

    // a fresh gather that reached nobody but batou
    let gathered = dataset_of(
        vec![("batou.section9.net", vars_of(&[("role", text("assault"))]))],
        vec![
            ("section9", group_of(&["batou.section9.net"], &[], &[])),
            ("commanders", group_of(&[], &[], &[])),
        ],
    );
    let mut entry = CacheEntry::new(gathered, 3600);

    entry.restore_host(captured);

    assert_eq!(var(&entry, "motoko.section9.net", "role"), Some(&text("commander")));
    assert!(entry
        .dataset()
        .groups
        .get("section9")
        .unwrap()
        .hosts
        .contains(&"motoko.section9.net".to_string()));
    assert_eq!(
        entry.dataset().groups.get("commanders").unwrap().hosts,
        vec!["motoko.section9.net"]
    );
}

#[test]
fn restore_recreates_a_group_the_new_dataset_lost() {
    let previous = CacheEntry::new(dataset_with_groups(), 3600);
    let captured = previous.capture_host("motoko.section9.net").expect("captured");

    let mut entry = CacheEntry::new(empty_dataset(), 3600);
    entry.restore_host(captured);

    assert_eq!(
        entry.dataset().groups.get("commanders").unwrap().hosts,
        vec!["motoko.section9.net"]
    );
}

#[test]
fn restore_does_not_list_a_host_twice_in_a_group() {
    let previous = CacheEntry::new(dataset_with_groups(), 3600);
    let captured = previous.capture_host("motoko.section9.net").expect("captured");

    let mut entry = CacheEntry::new(dataset_with_groups(), 3600);
    entry.restore_host(captured);

    assert_eq!(entry.dataset().groups.get("commanders").unwrap().hosts.len(), 1);
}

#[test]
fn restore_keeps_the_age_the_host_already_had() {
    let mut previous = CacheEntry::new(dataset_with_groups(), 3600);
    let (name, vars) = host_vars("motoko.section9.net", "commander");
    previous.update_host_aged(name, vars, 900);
    let captured = previous.capture_host("motoko.section9.net").expect("captured");

    let mut entry = CacheEntry::new(empty_dataset(), 3600);
    entry.restore_host(captured);

    assert!(entry.host_age_seconds("motoko.section9.net").unwrap_or(0) >= 900);
}

#[test]
fn remove_host_deletes_from_groups() {
    let mut entry = CacheEntry::new(
        dataset_of(
            vec![("motoko.section9.net", vars_of(&[("role", text("commander"))]))],
            vec![("section9", group_of(&["motoko.section9.net"], &[], &[]))],
        ),
        3600,
    );

    entry.remove_host("motoko.section9.net");
    assert!(!entry.dataset().hostvars.contains_key("motoko.section9.net"));
    assert!(entry.dataset().groups.get("section9").unwrap().hosts.is_empty());
}

#[test]
fn an_etag_is_sixteen_digits_and_a_length() {
    assert_eq!(etag(0, 0), "\"0000000000000000-0\"");
    assert_eq!(etag(0xdead_beef, 1024), "\"00000000deadbeef-1024\"");
    assert_eq!(etag(u64::MAX, 7), "\"ffffffffffffffff-7\"");
}

#[test]
fn an_entry_is_served_as_json_with_a_tag_of_its_bytes() {
    let entry = CacheEntry::new(dataset_with_groups(), 3600);
    let json = entry.serialized_json().unwrap();
    assert_eq!(
        json.bytes.as_ref(),
        b"{\"hostvars\":{\"batou.section9.net\":{\"role\":\"assault\"},\
\"motoko.section9.net\":{\"role\":\"commander\"}},\"groups\":{\
\"commanders\":{\"hosts\":[\"motoko.section9.net\"],\"children\":[],\"vars\":null},\
\"section9\":{\"hosts\":[\"motoko.section9.net\",\"batou.section9.net\"],\
\"children\":[],\"vars\":null}},\"remove_hosts\":[]}"
            .as_ref()
    );
    // the same inventory in another entry has the same tag
    let other = CacheEntry::new(dataset_with_groups(), 60);
    assert_eq!(json.etag, other.serialized_json().unwrap().etag);
    assert!(json.etag.ends_with(&format!("-{}\"", json.bytes.len())));
}

#[test]
fn a_rebuilt_entry_is_as_old_as_said() {
    let mut ages = StrMap::new();
    ages.insert("motoko.section9.net".to_string(), 40u64);
    let entry = CacheEntry::restore(dataset_with_hosts(), 3600, 30, ages);
    assert_eq!(entry.age_seconds(), 30);
    assert_eq!(entry.host_age_seconds("motoko.section9.net"), Some(40));
    assert_eq!(entry.host_age_seconds("batou.section9.net"), None);
    assert!(entry.is_fresh());
}

#[test]
fn a_captured_host_can_be_put_anywhere() {
    let known = dataset_of(
        vec![("h1", vars_of(&[("role", text("db"))]))],
        vec![("web", group_of(&["h1"], &[], &[])), ("gone", group_of(&["h1"], &[], &[]))],
    );
    let mut old = CacheEntry::new(known, 600);
    old.update_host_aged("h1".to_string(), vars_of(&[("role", text("db"))]), 90);
    let retained = old.capture_host("h1").unwrap();

    let other = vars_of(&[("role", text("app"))]);
    let mut entry = CacheEntry::new(
        dataset_of(
            vec![("h2", other)],
            vec![("web", group_of(&["h2", "h1"], &[], &[])), ("own", group_of(&["h2"], &[], &[]))],
        ),
        600,
    );
    entry.restore_host(retained);

    let dataset = entry.dataset();
    assert_eq!(dataset.hostvars.get("h1").unwrap().get("role"), Some(&text("db")));
    assert_eq!(dataset.hostvars.get("h2").unwrap().get("role"), Some(&text("app")));
    assert_eq!(dataset.groups.get("web").unwrap().hosts, vec!["h2", "h1"]);
    assert_eq!(dataset.groups.get("gone").unwrap().hosts, vec!["h1"]);
    assert_eq!(dataset.groups.get("own").unwrap().hosts, vec!["h2"]);
    assert!(entry.host_age_seconds("h1") >= Some(90));
    assert_eq!(entry.host_age_seconds("h2"), Some(0));
}

#[test]
fn a_moment_before_the_clock_falls_back() {
    let mut ages = StrMap::new();
    ages.insert("motoko.section9.net".to_string(), u64::MAX);
    let mut entry = CacheEntry::restore(dataset_with_hosts(), 3600, u64::MAX, ages);
    assert_eq!(entry.age_seconds(), 0);
    assert!(!entry.is_fresh());
    assert_eq!(entry.host_age_seconds("motoko.section9.net"), None);

    entry.update_host_aged("motoko.section9.net".to_string(), HostVars::new(), u64::MAX);
    assert_eq!(entry.host_age_seconds("motoko.section9.net"), Some(0));
}

#[test]
fn enrichers_of_different_keys_can_come_in_any_order() {
    let one = || dataset_of(vec![("motoko.section9.net", vars_of(&[("a", text("1"))]))], vec![]);
    let two = || dataset_of(vec![("motoko.section9.net", vars_of(&[("b", text("2"))]))], vec![]);
    let mut first = CacheEntry::new(dataset_with_hosts(), 60);
    first.merge_hostvar_fields(one());
    first.merge_hostvar_fields(two());
    let mut second = CacheEntry::new(dataset_with_hosts(), 60);
    second.merge_hostvar_fields(two());
    second.merge_hostvar_fields(one());
    assert_eq!(
        first.dataset().hostvars.get("motoko.section9.net"),
        second.dataset().hostvars.get("motoko.section9.net")
    );
}

#[test]
fn group_variables_are_put_over_those_that_are_there() {
    let mut entry = CacheEntry::new(dataset_with_groups(), 60);
    entry.merge_group_var_fields(dataset_of(
        vec![],
        vec![
            ("section9", group_of(&["nobody"], &[], &[("site", text("tokyo"))])),
            ("new", group_of(&[], &[], &[("x", text("y"))])),
        ],
    ));
    let group = entry.dataset().groups.get("section9").unwrap();
    assert_eq!(group.hosts, vec!["motoko.section9.net", "batou.section9.net"]);
    assert_eq!(group.vars.as_ref().unwrap().get("site"), Some(&text("tokyo")));
    assert!(entry.dataset().groups.get("new").unwrap().hosts.is_empty());
}

#[test]
fn a_group_update_stays_in_its_group() {
    let mut entry = CacheEntry::new(dataset_with_groups(), 60);
    entry.update_group(
        "commanders",
        dataset_of(
            vec![
                ("motoko.section9.net", vars_of(&[("role", text("major"))])),
                ("batou.section9.net", vars_of(&[("role", text("changed"))])),
            ],
            vec![("commanders", group_of(&["someone"], &[], &[("k", text("v"))]))],
        ),
    );
    assert_eq!(var(&entry, "motoko.section9.net", "role"), Some(&text("major")));
    assert_eq!(var(&entry, "batou.section9.net", "role"), Some(&text("assault")));
    let group = entry.dataset().groups.get("commanders").unwrap();
    assert_eq!(group.hosts, vec!["motoko.section9.net"]);
    assert_eq!(group.vars.as_ref().unwrap().get("k"), Some(&text("v")));
}
