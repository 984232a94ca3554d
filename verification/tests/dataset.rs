use unified_api::domain::dataset::Dataset;
use unified_api::json::{decode_object, Json};

fn json(source: &str) -> Json {
    Json::from_value(serde_json::from_str(source).unwrap())
}

fn text(value: &str) -> Json {
    Json::Str(value.to_string())
}

#[test]
fn converts_full_ansible_inventory() {
    let raw = json(
        r#"{
            "_meta": {
                "hostvars": {
                    "motoko.section9.net": {"ansible_host": "10.9.1.1", "os": "OracleLinux"},
                    "batou.section9.net": {"ansible_host": "10.9.1.2"}
                }
            },
            "section9": {
                "hosts": ["motoko.section9.net", "batou.section9.net"],
                "vars": {"ntp_server": "ntp.section9.net"}
            },
            "commanders": {
                "hosts": ["motoko.section9.net"],
                "children": ["section9"]
            }
        }"#,
    );

    let (dataset, warnings) = Dataset::from_ansible_inventory(raw).unwrap();

    assert!(warnings.is_empty());
    assert_eq!(dataset.hostvars.len(), 2);
    assert_eq!(
        dataset.hostvars.get("motoko.section9.net").unwrap().get("ansible_host"),
        Some(&text("10.9.1.1"))
    );
    assert_eq!(dataset.groups.len(), 2);
    assert_eq!(dataset.groups.get("section9").unwrap().hosts.len(), 2);
    assert_eq!(dataset.groups.get("commanders").unwrap().children, vec!["section9"]);
    assert_eq!(
        dataset.groups.get("section9").unwrap().vars.as_ref().unwrap().get("ntp_server"),
        Some(&text("ntp.section9.net"))
    );
}

#[test]
fn accepts_legacy_list_form_groups() {
    let raw = json(
        r#"{"_meta": {"hostvars": {}}, "web": ["web01.example.com", "web02.example.com"]}"#,
    );

    let (dataset, _) = Dataset::from_ansible_inventory(raw).unwrap();
    assert_eq!(
        dataset.groups.get("web").unwrap().hosts,
        vec!["web01.example.com", "web02.example.com"]
    );
}

#[test]
fn skips_all_and_ungrouped_meta_groups() {
    let raw = json(
        r#"{
            "_meta": {"hostvars": {}},
            "all": {"children": ["web", "ungrouped"]},
            "ungrouped": {"hosts": []},
            "web": {"hosts": ["web01.example.com"]}
        }"#,
    );

    let (dataset, warnings) = Dataset::from_ansible_inventory(raw).unwrap();
    assert_eq!(dataset.groups.len(), 1);
    assert!(dataset.groups.contains_key("web"));
    // `all` carried children, and dropping information must be said aloud
    assert!(warnings.iter().any(|w| w.contains("'all'")));
}

#[test]
fn missing_meta_warns_instead_of_failing() {
    let raw = json(r#"{"web": {"hosts": ["web01.example.com"]}}"#);

    let (dataset, warnings) = Dataset::from_ansible_inventory(raw).unwrap();
    assert_eq!(dataset.groups.len(), 1);
    assert!(dataset.hostvars.is_empty());
    assert!(warnings.iter().any(|w| w.contains("_meta")));
}

#[test]
fn malformed_group_is_an_error_not_a_silent_skip() {
    let raw = json(r#"{"_meta": {"hostvars": {}}, "web": {"hosts": "not-a-list"}}"#);

    let err = Dataset::from_ansible_inventory(raw).unwrap_err();
    assert!(err.contains("group 'web'"), "error was: {}", err);
}

#[test]
fn list_group_with_non_string_entry_is_an_error() {
    let raw = json(r#"{"_meta": {"hostvars": {}}, "web": ["web01.example.com", 42]}"#);

    let err = Dataset::from_ansible_inventory(raw).unwrap_err();
    assert!(err.contains("non-string"), "error was: {}", err);
}

#[test]
fn scalar_group_is_an_error() {
    let raw = json(r#"{"_meta": {"hostvars": {}}, "web": "oops"}"#);

    let err = Dataset::from_ansible_inventory(raw).unwrap_err();
    assert!(err.contains("got a string"), "error was: {}", err);
}

#[test]
fn non_object_top_level_is_an_error() {
    let err = Dataset::from_ansible_inventory(json("[1, 2]")).unwrap_err();
    assert!(err.contains("JSON object"));
}

#[test]
fn detects_ansible_looking_output() {
    assert!(Dataset::looks_like_ansible_inventory(&json(r#"{"_meta": {"hostvars": {}}}"#)));
    assert!(!Dataset::looks_like_ansible_inventory(&json(
        r#"{"hostvars": {}, "groups": {}}"#
    )));
}

#[test]
fn what_is_wrong_with_the_hosts_is_said() {
    let err = |source: &str| Dataset::from_ansible_inventory(json(source)).unwrap_err();
    assert_eq!(err(r#"{"_meta": {}}"#), "_meta is present but has no hostvars key");
    assert!(err(r#"{"_meta": {"hostvars": []}}"#).starts_with("_meta.hostvars is malformed: "));
    assert!(err(r#"{"_meta": {"hostvars": {"h": 1}}}"#).starts_with("_meta.hostvars is malformed: "));
    assert!(err(r#"{"_meta": {"hostvars": {}}, "g": {"vars": []}}"#)
        .starts_with("group 'g' is malformed: "));
}

#[test]
fn json_values_survive_going_out_and_coming_back() {
    let source = r#"{"a":[1,-2,2.5,1e+300,18446744073709551615],"b":{"c":null,"d":true},"e":"x\ny"}"#;
    let value = json(source);
    assert_eq!(value.compact(), source);
    assert_eq!(Json::from_value(value.to_value()), value);
    assert_eq!(json("[]").compact(), "[]");
    assert_eq!(json(r#"{"k":[1]}"#).pretty(), "{\n  \"k\": [\n    1\n  ]\n}");
    assert_eq!(decode_object(&value).unwrap().len(), 3);
    assert!(decode_object(&json("[1]")).is_err());
    assert_eq!(value.get("b").unwrap().get("d"), Some(&Json::Bool(true)));
    assert_eq!(value.get("nothing"), None);
}

#[test]
fn a_variable_is_kept_whatever_its_name() {
    // a name that serde_json gives a meaning of its own while it decodes
    let odd = "$serde_json::private::RawValue".to_string();
    let inner = Json::Object(vec![(odd.clone(), text("[1]"))]);

    let object = Json::Object(vec![("k".to_string(), inner.clone())]);
    assert_eq!(decode_object(&object).unwrap().get("k"), Some(&inner));

    let hosts = Json::Object(vec![("h1".to_string(), inner)]);
    let meta = Json::Object(vec![("hostvars".to_string(), hosts)]);
    let raw = Json::Object(vec![("_meta".to_string(), meta)]);
    let (dataset, _) = Dataset::from_ansible_inventory(raw).unwrap();
    assert_eq!(dataset.hostvars.get("h1").unwrap().get(&odd), Some(&text("[1]")));
}
