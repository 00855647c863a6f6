use netprobe::config::{
    default_max_concurrent_probes, default_poll, default_timeout, Config, GroupConfig, HostConfig,
    Settings,
};

fn parse(toml_str: &str) -> Config {
    let table: toml::Table = toml::from_str(toml_str).expect("test config should parse");
    assert!(table["settings"].is_table());
    let text = |t: &toml::Value, key: &str| t[key].as_str().unwrap().to_string();
    let group = table["group"]
        .as_array()
        .unwrap()
        .iter()
        .map(|g| GroupConfig {
            name: text(g, "name"),
            hosts: g["hosts"]
                .as_array()
                .unwrap()
                .iter()
                .map(|h| HostConfig {
                    name: text(h, "name"),
                    ip: text(h, "ip"),
                    parent: h.get("parent").map(|p| p.as_str().unwrap().to_string()),
                })
                .collect(),
        })
        .collect();
    Config {
        settings: Settings {
            poll_interval: default_poll(),
            connect_timeout_ms: default_timeout(),
            max_concurrent_probes: default_max_concurrent_probes(),
            ports: None,
            default_tab: None,
        },
        group,
    }
}

#[test]
fn clean_config_has_no_warnings() {
    let cfg = parse(
        r#"
            [settings]

            [[group]]
            name = "A"
            hosts = [
                { name = "H1", ip = "10.0.0.1" },
                { name = "H2", ip = "10.0.0.2" },
            ]

            [[group]]
            name = "B"
            hosts = [
                { name = "H1", ip = "10.0.0.3" },
            ]
            "#,
    );
    // "H1" appearing in both groups is allowed.
    assert!(cfg.validate().is_empty());
}

#[test]
fn duplicate_name_in_group_warns_case_insensitively() {
    let cfg = parse(
        r#"
            [settings]

            [[group]]
            name = "A"
            hosts = [
                { name = "Host1", ip = "10.0.0.1" },
                { name = "HOST1", ip = "10.0.0.2" },
            ]
            "#,
    );
    let warnings = cfg.validate();
    assert_eq!(warnings.len(), 1);
    assert!(warnings[0].contains("duplicate host name 'HOST1'"));
    assert!(warnings[0].contains("'Host1'"));
}

#[test]
fn duplicate_ip_warns_across_groups() {
    let cfg = parse(
        r#"
            [settings]

            [[group]]
            name = "A"
            hosts = [{ name = "H1", ip = "10.0.0.1" }]

            [[group]]
            name = "B"
            hosts = [{ name = "H2", ip = "10.0.0.1" }]
            "#,
    );
    let warnings = cfg.validate();
    assert_eq!(warnings.len(), 1);
    assert!(warnings[0].contains("duplicate IP 10.0.0.1"));
    assert!(warnings[0].contains("'H2'"));
    assert!(warnings[0].contains("'H1'"));
}

fn entry(name: &str, ip: &str) -> HostConfig {
    HostConfig {
        name: name.into(),
        ip: ip.into(),
        parent: None,
    }
}

fn config(groups: Vec<(&str, Vec<HostConfig>)>) -> Config {
    let mut cfg = parse("group = []\n[settings]");
    for (name, hosts) in groups {
        cfg.group.push(GroupConfig {
            name: name.into(),
            hosts,
        });
    }
    cfg
}

#[test]
fn warnings_name_the_first_holder() {
    let cfg = config(vec![
        (
            "A",
            vec![entry("x", "1"), entry(" X ", "2"), entry("x", "1 "), entry("y", "")],
        ),
        ("B", vec![entry("z", " "), entry("w", "2")]),
    ]);
    assert_eq!(
        cfg.validate(),
        vec![
            "group 'A': duplicate host name ' X ' (already defined as 'x')",
            "group 'A': duplicate host name 'x' (already defined as 'x')",
            "duplicate IP 1: 'x' in group 'A' (already used by 'x' in group 'A')",
            "duplicate IP 2: 'w' in group 'B' (already used by ' X ' in group 'A')",
        ]
    );
}

#[test]
fn hosts_without_an_address_are_no_duplicates() {
    let cfg = config(vec![("A", vec![entry("x", ""), entry("y", "  "), entry("z", "\t")])]);
    assert!(cfg.validate().is_empty());
}

#[test]
fn settings_have_defaults() {
    assert_eq!(default_poll(), 30);
    assert_eq!(default_timeout(), 2000);
    assert_eq!(default_max_concurrent_probes(), 64);
}
