use std::sync::Arc;
use unified_api::application::output::{render_ansible, render_csv, render_json};
use unified_api::domain::dataset::{Dataset, Group};
use unified_api::json::{decode_object, Json};
use unified_api::strmap::StrMap;

fn json(source: &str) -> Json {
    Json::from_value(serde_json::from_str(source).unwrap())
}

fn names(value: Option<&Json>) -> Vec<String> {
    match value {
        Some(Json::Array(items)) => items
            .iter()
            .map(|item| match item {
                Json::Str(name) => name.clone(),
                _ => panic!("not a name"),
            })
            .collect(),
        _ => vec![],
    }
}

fn dataset_json(hosts: &str, groups: &str) -> Dataset {
    let mut dataset = Dataset::default();
    let hosts = json(hosts);
    let hosts = hosts.members().unwrap();
    for i in 0..hosts.len() {
        let vars = decode_object(hosts.value_at(i)).unwrap();
        dataset.hostvars.insert(hosts.key_at(i).clone(), vars);
    }
    let groups = json(groups);
    let groups = groups.members().unwrap();
    for i in 0..groups.len() {
        let group = groups.value_at(i);
        dataset.groups.insert(
            groups.key_at(i).clone(),
            Group {
                hosts: names(group.get("hosts")),
                children: names(group.get("children")),
                vars: group.get("vars").map(|vars| decode_object(vars).unwrap()),
            },
        );
    }
    dataset
}

fn datasets_of(list: Vec<(&str, &str, &str)>) -> StrMap<Arc<Dataset>> {
    let mut datasets = StrMap::new();
    for (id, hosts, groups) in list {
        datasets.insert(id.to_string(), Arc::new(dataset_json(hosts, groups)));
    }
    datasets
}

fn config_of(pairs: &[(&str, &str)]) -> StrMap<String> {
    let mut config = StrMap::new();
    for (key, value) in pairs {
        config.insert(key.to_string(), value.to_string());
    }
    config
}

fn render(datasets: &StrMap<Arc<Dataset>>, config: &[(&str, &str)]) -> serde_json::Value {
    serde_json::from_str(&render_ansible(datasets, &config_of(config), &json("{}"))).unwrap()
}

fn value(source: &str) -> serde_json::Value {
    serde_json::from_str(source).unwrap()
}

#[test]
fn merges_sources_with_later_id_winning() {
    let datasets = datasets_of(vec![
        ("src-a", r#"{"h1": {"os": "linux", "role": "a"}}"#, r#"{"web": {"hosts": ["h1"]}}"#),
        (
            "src-b",
            r#"{"h1": {"role": "b"}, "h2": {"os": "linux"}}"#,
            r#"{"web": {"hosts": ["h1", "h2"]}}"#,
        ),
    ]);

    let inv = render(&datasets, &[]);

    // src-b sorts after src-a, so its `role` wins; `os` from src-a remains
    assert_eq!(inv["_meta"]["hostvars"]["h1"]["role"], "b");
    assert_eq!(inv["_meta"]["hostvars"]["h1"]["os"], "linux");
    // group hosts are merged and each listed once, in order
    assert_eq!(inv["web"]["hosts"], value(r#"["h1", "h2"]"#));
}

#[test]
fn filters_by_os_and_prunes_emptied_groups() {
    let datasets = datasets_of(vec![(
        "src",
        r#"{"linux1": {"os": "linux"}, "win1": {"os": "windows"}}"#,
        r#"{"linux": {"hosts": ["linux1"]}, "windows": {"hosts": ["win1"]}}"#,
    )]);

    let inv = render(&datasets, &[("filter_os", "linux")]);

    assert!(inv["_meta"]["hostvars"].get("win1").is_none());
    assert!(inv["_meta"]["hostvars"].get("linux1").is_some());
    // the windows group lost its only host and is dropped
    assert!(inv.get("windows").is_none());
    assert_eq!(inv["linux"]["hosts"], value(r#"["linux1"]"#));
}

#[test]
fn an_emptied_group_is_pruned_but_one_that_never_had_hosts_is_kept() {
    let datasets = datasets_of(vec![(
        "src",
        r#"{"linux1": {"os": "linux"}, "win1": {"os": "windows"}}"#,
        r#"{
            "windows": {"hosts": ["win1"], "vars": {"ntp": "ntp.win"}},
            "oraclelinux_9": {"vars": {"repositories_repos": ["ol9-baseos"]}}
        }"#,
    )]);

    let inv = render(&datasets, &[("filter_os", "linux")]);

    assert!(
        inv.get("windows").is_none(),
        "it named a host, the filter removed it, so the group carries nothing here"
    );
    assert_eq!(
        inv["oraclelinux_9"]["vars"]["repositories_repos"],
        value(r#"["ol9-baseos"]"#),
        "it never named a host: a declaration for members decided elsewhere"
    );
}

#[test]
fn exclude_vars_strips_named_hostvars() {
    let datasets = datasets_of(vec![(
        "src",
        r#"{"h1": {"os": "linux", "secret": "x", "serial": "y"}}"#,
        "{}",
    )]);

    let inv = render(&datasets, &[("exclude_vars", "secret, serial")]);

    let vars = &inv["_meta"]["hostvars"]["h1"];
    assert!(vars.get("secret").is_none());
    assert!(vars.get("serial").is_none());
    assert_eq!(vars["os"], "linux");
}

#[test]
fn exclude_vars_strips_the_name_from_groups_too() {
    let datasets = datasets_of(vec![(
        "src",
        r#"{"h1": {"os": "linux"}}"#,
        r#"{"web": {"hosts": ["h1"], "vars": {"secret": "x", "ntp": "pool"}}}"#,
    )]);

    let inv = render(&datasets, &[("exclude_vars", "secret")]);

    assert!(inv["web"]["vars"].get("secret").is_none());
    assert_eq!(inv["web"]["vars"]["ntp"], "pool");
}

#[test]
fn params_override_config() {
    let datasets = datasets_of(vec![(
        "src",
        r#"{"a": {"os": "linux"}, "b": {"os": "windows"}}"#,
        "{}",
    )]);
    let config = config_of(&[("filter_os", "linux")]);
    // the request asks for windows, over the configured linux filter
    let out = render_ansible(&datasets, &config, &json(r#"{"filter_os": "windows"}"#));
    let inv = value(&out);
    assert!(inv["_meta"]["hostvars"].get("b").is_some());
    assert!(inv["_meta"]["hostvars"].get("a").is_none());
}

#[test]
fn json_renders_the_merged_dataset_in_the_raw_shape() {
    let datasets = datasets_of(vec![
        ("src-a", r#"{"h1": {"os": "linux"}}"#, r#"{"web": {"hosts": ["h1"]}}"#),
        ("src-b", r#"{"h2": {"os": "windows"}}"#, r#"{"web": {"hosts": ["h2"]}}"#),
    ]);

    let out = render_json(&datasets, &config_of(&[]), &json("{}"));
    let merged = value(&out);

    // the raw source shape: hostvars and groups, without _meta
    assert!(merged.get("_meta").is_none());
    assert_eq!(merged["hostvars"]["h1"]["os"], "linux");
    assert_eq!(merged["hostvars"]["h2"]["os"], "windows");
    assert_eq!(merged["groups"]["web"]["hosts"], value(r#"["h1", "h2"]"#));
}

#[test]
fn json_applies_the_shared_filters() {
    let datasets = datasets_of(vec![(
        "src",
        r#"{"linux1": {"os": "linux", "secret": "x"}, "win1": {"os": "windows"}}"#,
        r#"{"all-hosts": {"hosts": ["linux1", "win1"]}}"#,
    )]);
    let config = config_of(&[("filter_os", "linux"), ("exclude_vars", "secret")]);

    let out = render_json(&datasets, &config, &json("{}"));
    let merged = value(&out);

    assert!(merged["hostvars"].get("win1").is_none());
    assert!(merged["hostvars"]["linux1"].get("secret").is_none());
    // the filtered host is gone from the group too
    assert_eq!(merged["groups"]["all-hosts"]["hosts"], value(r#"["linux1"]"#));
}

#[test]
fn csv_defaults_to_every_hostvar_seen_sorted() {
    let datasets = datasets_of(vec![(
        "src",
        r#"{
            "b-host": {"os": "linux", "ram_gb": 64},
            "a-host": {"os": "windows", "datacenter": "dc1"}
        }"#,
        "{}",
    )]);

    let out = render_csv(&datasets, &config_of(&[]), &json("{}"));
    let lines: Vec<&str> = out.lines().collect();

    assert_eq!(lines[0], "host,datacenter,os,ram_gb");
    assert_eq!(lines[1], "a-host,dc1,windows,");
    assert_eq!(lines[2], "b-host,,linux,64");
    assert_eq!(lines.len(), 3);
}

#[test]
fn csv_columns_setting_picks_and_orders_and_params_override() {
    let datasets = datasets_of(vec![(
        "src",
        r#"{"h1": {"os": "linux", "ram_gb": 64, "role": "web"}}"#,
        "{}",
    )]);
    let config = config_of(&[("columns", "role, os")]);

    let out = render_csv(&datasets, &config, &json("{}"));
    assert_eq!(out, "host,role,os\nh1,web,linux\n");

    // a request parameter replaces the configured column list entirely
    let out = render_csv(&datasets, &config, &json(r#"{"columns": "ram_gb"}"#));
    assert_eq!(out, "host,ram_gb\nh1,64\n");
}

#[test]
fn csv_quotes_and_serializes_structured_values() {
    let datasets = datasets_of(vec![(
        "src",
        r#"{"h1": {"comment": "a, \"quoted\" note", "tags": ["x", "y"], "gone": null}}"#,
        "{}",
    )]);

    let out = render_csv(&datasets, &config_of(&[]), &json("{}"));
    let lines: Vec<&str> = out.lines().collect();

    assert_eq!(lines[0], "host,comment,gone,tags");
    assert_eq!(
        lines[1],
        "h1,\"a, \"\"quoted\"\" note\",,\"[\"\"x\"\",\"\"y\"\"]\""
    );
}

#[test]
fn is_deterministic_across_renders() {
    let datasets = datasets_of(vec![
        ("src-z", r#"{"h2": {}}"#, r#"{"g": {"hosts": ["h2"]}}"#),
        ("src-a", r#"{"h1": {}}"#, r#"{"g": {"hosts": ["h1"]}}"#),
    ]);
    let first = render_ansible(&datasets, &config_of(&[]), &json("{}"));
    let second = render_ansible(&datasets, &config_of(&[]), &json("{}"));
    assert_eq!(first, second);
}

#[test]
fn a_rendered_inventory_reads_back() {
    let datasets = datasets_of(vec![(
        "src",
        r#"{"h1": {"os": "linux", "n": [1, 2.5, {"k": null}]}, "h2": {}}"#,
        r#"{"web": {"hosts": ["h2", "h1"], "children": ["db"], "vars": {"x": true}}, "db": {"vars": {"y": 1}}}"#,
    )]);
    let rendered = render_ansible(&datasets, &config_of(&[]), &json("{}"));
    assert!(rendered.starts_with("{\n  \"_meta\": {\n    \"hostvars\""));
    let (read, warnings) = Dataset::from_ansible_inventory(json(&rendered)).unwrap();
    assert!(warnings.is_empty());
    let original = datasets.get("src").unwrap();
    assert_eq!(read.hostvars, original.hostvars);
    assert_eq!(read.groups.get("web").unwrap().hosts, vec!["h1", "h2"]);
    assert_eq!(read.groups.get("web").unwrap().children, vec!["db"]);
    assert_eq!(read.groups.get("db"), original.groups.get("db"));
}

#[test]
fn a_group_filter_takes_the_members_of_any_named_group() {
    let datasets = datasets_of(vec![(
        "src",
        r#"{"a": {"datacenter": "dc1"}, "b": {"datacenter": "dc2"}, "c": {"datacenter": "dc1"}}"#,
        r#"{"one": {"hosts": ["a"]}, "two": {"hosts": ["b"]}}"#,
    )]);
    let inv = render(&datasets, &[("filter_group", "one, two"), ("filter_datacenter", "dc1")]);
    let hosts = inv["_meta"]["hostvars"].as_object().unwrap();
    assert_eq!(hosts.keys().collect::<Vec<_>>(), vec!["a"]);
}
