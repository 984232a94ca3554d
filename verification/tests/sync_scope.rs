use unified_api::application::sync::SyncScope;

#[test]
fn a_single_host_keeps_the_old_label() {
    let scope = SyncScope::hosts_from_csv("motoko.section9.net").unwrap();
    assert_eq!(scope.label(), "host:motoko.section9.net");
}

#[test]
fn several_hosts_are_listed_in_the_label() {
    let scope = SyncScope::hosts_from_csv("a.example,b.example").unwrap();
    assert_eq!(scope.label(), "host:a.example,b.example");
}

#[test]
fn hosts_from_csv_trims_and_drops_empties() {
    let scope = SyncScope::hosts_from_csv(" a.example , , b.example ").unwrap();
    match scope {
        SyncScope::Hosts(hosts) => assert_eq!(hosts, vec!["a.example", "b.example"]),
        _ => panic!("expected a host scope"),
    }
}

#[test]
fn a_value_with_no_hostnames_is_not_a_host_scope() {
    assert!(SyncScope::hosts_from_csv(" , , ").is_none());
    assert!(SyncScope::hosts_from_csv("").is_none());
}

#[test]
fn the_other_labels_are_unchanged() {
    assert_eq!(SyncScope::Full.label(), "full");
    assert_eq!(SyncScope::Group("magi".to_string()).label(), "group:magi");
}
