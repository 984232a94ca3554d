use unified_api::domain::dataset::Dataset;
use unified_api::domain::static_inventory::{parse, StaticInventoryInput};
use unified_api::json::Json;
use unified_api::strmap::StrMap;

fn one(name: &str, contents: &str) -> Vec<(String, String)> {
    vec![(format!("{}.yaml", name), contents.to_string())]
}

fn input(inventory: &str) -> StaticInventoryInput {
    StaticInventoryInput {
        inventory: inventory.to_string(),
        group_vars: StrMap::new(),
        host_vars: StrMap::new(),
    }
}

fn text(value: &str) -> Json {
    Json::Str(value.to_string())
}

fn number(value: u64) -> Json {
    Json::Number(serde_json::Number::from(value))
}

fn group_var<'a>(dataset: &'a Dataset, group: &str, key: &str) -> Option<&'a Json> {
    dataset.groups.get(group)?.vars.as_ref()?.get(key)
}

fn host_var<'a>(dataset: &'a Dataset, host: &str, key: &str) -> Option<&'a Json> {
    dataset.hostvars.get(host).expect("host").get(key)
}

const BASIC: &str = r#"
all:
  hosts:
    standalone.example.com:
      ansible_connection: local
  children:
    web:
      hosts:
        web01.example.com: {}
        web02.example.com:
          http_port: 8080
      vars:
        ntp_server: ntp.example.com
    db:
      hosts:
        db01.example.com: {}
"#;

#[test]
fn parses_hosts_groups_and_inline_vars() {
    let (dataset, warnings) = parse(&input(BASIC)).unwrap();

    assert!(warnings.is_empty());
    assert_eq!(dataset.hostvars.len(), 4);
    // inline host var, which is the host's own
    assert_eq!(host_var(&dataset, "web02.example.com", "http_port"), Some(&number(8080)));
    // the group's var is not copied onto its members
    assert_eq!(host_var(&dataset, "web01.example.com", "ntp_server"), None);
    // it stays on the group, once
    assert_eq!(group_var(&dataset, "web", "ntp_server"), Some(&text("ntp.example.com")));
    // `all` is a group like any other
    assert_eq!(dataset.groups.len(), 3);
    let all = dataset.groups.get("all").unwrap();
    assert_eq!(all.hosts, vec!["standalone.example.com"]);
    assert_eq!(all.children, vec!["db", "web"]);
    assert_eq!(
        dataset.groups.get("web").unwrap().hosts,
        vec!["web01.example.com", "web02.example.com"]
    );
}

#[test]
fn group_vars_files_land_on_their_own_group() {
    let mut inv = input(BASIC);
    inv.group_vars
        .insert("all".to_string(), one("all", "timezone: UTC\nntp_server: global.ntp\n"));
    // the group's file overrides the group's inline var
    inv.group_vars.insert("web".to_string(), one("web", "ntp_server: web.ntp\n"));
    inv.host_vars.insert(
        "web02.example.com".to_string(),
        one("web02.example.com", "http_port: 9090\n"),
    );

    let (dataset, _) = parse(&inv).unwrap();

    // group_vars/all lands on `all`, once, rather than on every host
    assert_eq!(group_var(&dataset, "all", "timezone"), Some(&text("UTC")));
    assert_eq!(group_var(&dataset, "all", "ntp_server"), Some(&text("global.ntp")));
    assert_eq!(host_var(&dataset, "standalone.example.com", "timezone"), None);
    assert_eq!(host_var(&dataset, "db01.example.com", "ntp_server"), None);

    // within a group, its file beats its inline var
    assert_eq!(group_var(&dataset, "web", "ntp_server"), Some(&text("web.ntp")));

    // the host's file beats the inline host var
    assert_eq!(host_var(&dataset, "web02.example.com", "http_port"), Some(&number(9090)));
}

#[test]
fn a_parent_and_child_each_keep_their_own_vars() {
    let inv = input(
        r#"
all:
  children:
    region-a:
      vars:
        dns: region.dns
      children:
        zone-a:
          hosts:
            host01.example.com: {}
          vars:
            dns: zone.dns
"#,
    );

    let (dataset, _) = parse(&inv).unwrap();
    // both values survive, each on its own group
    assert_eq!(group_var(&dataset, "region-a", "dns"), Some(&text("region.dns")));
    assert_eq!(group_var(&dataset, "zone-a", "dns"), Some(&text("zone.dns")));
    assert_eq!(host_var(&dataset, "host01.example.com", "dns"), None);
    assert_eq!(dataset.groups.get("region-a").unwrap().children, vec!["zone-a"]);
}

#[test]
fn vaulted_file_is_an_error() {
    let mut inv = input(BASIC);
    inv.host_vars.insert(
        "web01.example.com".to_string(),
        one("web01.example.com", "$ANSIBLE_VAULT;1.1;AES256\n6338386437..."),
    );

    let err = parse(&inv).unwrap_err();
    assert!(err.contains("ansible-vault"), "error was: {}", err);
    assert!(err.contains("web01.example.com"));
}

#[test]
fn host_range_pattern_is_an_error() {
    let inv = input(
        r#"
all:
  children:
    web:
      hosts:
        "web[01:20].example.com": {}
"#,
    );
    let err = parse(&inv).unwrap_err();
    assert!(err.contains("range"), "error was: {}", err);
}

#[test]
fn unknown_group_key_is_an_error() {
    let inv = input(
        r#"
all:
  children:
    web:
      host:
        web01.example.com: {}
"#,
    );
    let err = parse(&inv).unwrap_err();
    assert!(err.contains("unknown key 'host'"), "error was: {}", err);
}

#[test]
fn invalid_yaml_is_an_error() {
    let err = parse(&input("all: [unclosed")).unwrap_err();
    assert!(err.contains("not valid YAML"));
}

#[test]
fn orphan_vars_files_warn() {
    let mut inv = input(BASIC);
    inv.group_vars.insert("ghosts".to_string(), one("ghosts", "x: 1\n"));
    inv.host_vars.insert("nope.example.com".to_string(), one("nope.example.com", "y: 2\n"));

    let (_, warnings) = parse(&inv).unwrap();
    assert!(warnings.iter().any(|w| w.contains("group_vars/ghosts")));
    assert!(warnings.iter().any(|w| w.contains("host_vars/nope.example.com")));
}

#[test]
fn a_group_declared_under_two_parents_keeps_every_host() {
    let inv = input(
        r#"
all:
  children:
    dc1:
      children:
        web:
          hosts:
            web01.example.com:
    dc2:
      children:
        web:
          hosts:
            web02.example.com:
"#,
    );
    let (dataset, _) = parse(&inv).unwrap();

    assert_eq!(
        dataset.groups.get("web").unwrap().hosts,
        vec!["web01.example.com", "web02.example.com"]
    );
    assert_eq!(dataset.hostvars.len(), 2);
}

#[test]
fn a_group_declared_under_two_parents_is_a_child_of_each() {
    let inv = input(
        r#"
all:
  children:
    dc1:
      vars:
        site: site-a
      children:
        web:
          hosts:
            web01.example.com:
    dc2:
      vars:
        region: emea
      children:
        web: {}
"#,
    );
    let (dataset, _) = parse(&inv).unwrap();

    assert_eq!(dataset.groups.get("dc1").unwrap().children, vec!["web"]);
    assert_eq!(dataset.groups.get("dc2").unwrap().children, vec!["web"]);
    assert_eq!(dataset.groups.get("web").unwrap().hosts, vec!["web01.example.com"]);
    assert_eq!(group_var(&dataset, "dc1", "site"), Some(&text("site-a")));
    assert_eq!(group_var(&dataset, "dc2", "region"), Some(&text("emea")));
}

#[test]
fn a_group_declared_twice_merges_its_vars_and_children() {
    let inv = input(
        r#"
all:
  children:
    dc1:
      children:
        web:
          vars:
            role: frontend
          children:
            web_cache:
              hosts:
                cache01.example.com:
    dc2:
      children:
        web:
          vars:
            tier: public
          hosts:
            web02.example.com:
"#,
    );
    let (dataset, _) = parse(&inv).unwrap();

    let web = dataset.groups.get("web").unwrap();
    assert_eq!(web.children, vec!["web_cache"]);
    assert_eq!(web.hosts, vec!["web02.example.com"]);
    assert_eq!(group_var(&dataset, "web", "role"), Some(&text("frontend")));
    assert_eq!(group_var(&dataset, "web", "tier"), Some(&text("public")));
}

#[test]
fn a_host_named_in_both_declarations_is_listed_once() {
    let inv = input(
        r#"
all:
  children:
    dc1:
      children:
        web:
          hosts:
            web01.example.com:
    dc2:
      children:
        web:
          hosts:
            web01.example.com:
"#,
    );
    let (dataset, _) = parse(&inv).unwrap();
    assert_eq!(dataset.groups.get("web").unwrap().hosts, vec!["web01.example.com"]);
}

#[test]
fn jinja_templates_pass_through_as_strings() {
    let inv = input(
        r#"
all:
  hosts:
    localhost:
      ansible_python_interpreter: "{{ ansible_playbook_python }}"
"#,
    );
    let (dataset, _) = parse(&inv).unwrap();
    assert_eq!(
        host_var(&dataset, "localhost", "ansible_python_interpreter"),
        Some(&text("{{ ansible_playbook_python }}"))
    );
}

#[test]
fn of_several_files_the_later_wins() {
    let mut inv = input(BASIC);
    inv.group_vars.insert(
        "web".to_string(),
        vec![
            ("web/a.yaml".to_string(), "x: 1\ny: 1\n".to_string()),
            ("web/b.yaml".to_string(), "y: 2\n".to_string()),
        ],
    );
    let (dataset, _) = parse(&inv).unwrap();
    assert_eq!(group_var(&dataset, "web", "x"), Some(&number(1)));
    assert_eq!(group_var(&dataset, "web", "y"), Some(&number(2)));
    assert_eq!(group_var(&dataset, "web", "ntp_server"), Some(&text("ntp.example.com")));
}

#[test]
fn a_file_that_is_no_mapping_is_an_error() {
    let mut inv = input(BASIC);
    inv.group_vars.insert("web".to_string(), one("web", "- 1\n- 2\n"));
    assert!(parse(&inv).unwrap_err().contains("web"));
    assert!(parse(&input("- 1\n")).is_err());
    let mut unclosed = input(BASIC);
    unclosed.host_vars.insert("db01.example.com".to_string(), one("db01", "x: [1"));
    assert!(parse(&unclosed).unwrap_err().contains("db01"));
}
