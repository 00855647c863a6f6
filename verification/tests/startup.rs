use netprobe::app::App;
use netprobe::config::{Config, GroupConfig, HostConfig, Settings};
use netprobe::startup::{config_source, warning_line, ConfigSource};

fn config() -> Config {
    let host = |name: &str, ip: &str, parent: Option<&str>| HostConfig {
        name: name.into(),
        ip: ip.into(),
        parent: parent.map(|p| p.into()),
    };
    Config {
        settings: Settings {
            poll_interval: 15,
            connect_timeout_ms: 250,
            max_concurrent_probes: 8,
            ports: None,
            default_tab: Some("First".into()),
        },
        group: vec![
            GroupConfig {
                name: "Second".into(),
                hosts: vec![
                    host("vm", "10.0.0.2", Some("HOST")),
                    host("host", "10.0.0.1", None),
                ],
            },
            GroupConfig {
                name: "First".into(),
                hosts: vec![
                    host("x", "10.0.0.1", Some("nope")),
                    host("X", "", None),
                ],
            },
        ],
    }
}

#[test]
fn the_configuration_is_looked_for_in_order() {
    assert_eq!(config_source(true, true, true), ConfigSource::Argument);
    assert_eq!(config_source(true, false, false), ConfigSource::Argument);
    assert_eq!(config_source(false, true, true), ConfigSource::CurrentDir);
    assert_eq!(config_source(false, false, true), ConfigSource::BesideExecutable);
    assert_eq!(config_source(false, false, false), ConfigSource::CurrentDir);
}

#[test]
fn groups_stay_in_order_and_hosts_are_organised() {
    let (app, warnings) = App::from_config(&config(), None);
    let groups: Vec<&str> = app.groups.iter().map(|g| g.name.as_str()).collect();
    assert_eq!(groups, vec!["Second", "First"]);
    let hosts: Vec<(u64, &str)> = app
        .groups
        .iter()
        .flat_map(|g| g.hosts.iter())
        .map(|h| (h.id, h.name.as_str()))
        .collect();
    assert_eq!(hosts, vec![(2, "host"), (1, "vm"), (3, "x"), (4, "X")]);
    assert!(app.groups[0].hosts[1].is_child);
    assert_eq!(app.groups[0].hosts[1].parent.as_deref(), Some("HOST"));
    assert!(!app.groups[1].hosts[0].is_child);
    assert_eq!(
        warnings,
        vec![
            "group 'First': duplicate host name 'X' (already defined as 'x')",
            "duplicate IP 10.0.0.1: 'x' in group 'First' (already used by 'host' in group 'Second')",
            "host 'x': parent 'nope' not found in group 'First'; showing at top level",
        ]
    );
    assert_eq!(app.poll_interval, 15);
    assert_eq!(app.connect_timeout_ms, 250);
    assert_eq!(app.max_concurrent_probes, 8);
}

#[test]
fn the_opening_tab_is_the_remembered_one_or_the_configured_one() {
    let (app, _) = App::from_config(&config(), None);
    assert_eq!(app.tabs, vec!["All", "Second", "First"]);
    assert_eq!(app.active_tab, 2);
    assert_eq!(app.rows.len(), 2);
    assert_eq!(app.table_state.selected, Some(0));
    let (app, _) = App::from_config(&config(), Some("all\n"));
    assert_eq!(app.active_tab, 0);
    assert_eq!(app.rows.len(), 6);
    assert_eq!(app.table_state.selected, Some(1));
    let mut cfg = config();
    cfg.settings.default_tab = None;
    let (app, _) = App::from_config(&cfg, Some("gone"));
    assert_eq!(app.active_tab, 0);
}

#[test]
fn an_empty_port_list_is_no_override() {
    let mut cfg = config();
    assert!(!cfg.settings.ports_overridden());
    assert_eq!(cfg.settings.probe_ports().len(), 16);
    cfg.settings.ports = Some(vec![]);
    assert!(!cfg.settings.ports_overridden());
    assert_eq!(cfg.settings.probe_ports().len(), 16);
    cfg.settings.ports = Some(vec![443, 80]);
    assert!(cfg.settings.ports_overridden());
    assert_eq!(cfg.settings.probe_ports(), vec![443, 80]);
    let (app, _) = App::from_config(&cfg, None);
    assert_eq!(*app.probe_ports, vec![443, 80]);
}

#[test]
fn the_banner_says_what_was_loaded() {
    let mut cfg = config();
    cfg.settings.ports = Some(vec![443, 80]);
    let (app, _) = App::from_config(&cfg, None);
    assert_eq!(app.host_count(), 4);
    assert_eq!(
        app.banner("etc/config.toml", true),
        vec![
            "Loaded 4 hosts in 2 groups from etc/config.toml",
            "Concurrency cap: 8 simultaneous connects; connect timeout 250 ms",
            "Probing 2 ports (from config): 443,80",
        ]
    );
    let (app, _) = App::from_config(&config(), None);
    assert_eq!(
        app.banner("c", false)[2],
        "Probing 16 ports (default): 53,80,88,135,389,443,445,636,2179,3389,4660,5985,5986,7001,9100,10123"
    );
    assert_eq!(warning_line("odd"), "warning: odd");
}

#[test]
fn warnings_are_logged_and_counted() {
    let (mut app, warnings) = App::from_config(&config(), None);
    let times = vec!["t1".to_string(), "t2".to_string(), "t3".to_string()];
    app.report_warnings_at(&warnings, 9, &times);
    assert_eq!(
        app.status_message.as_deref(),
        Some("3 config warning(s) — press d for details")
    );
    assert_eq!(app.status_set_at, Some(9));
    assert_eq!(app.debug_log.len(), 3);
    assert_eq!(
        app.debug_log[2],
        "t3 config warning: host 'x': parent 'nope' not found in group 'First'; showing at top level"
    );
}

#[test]
fn without_warnings_nothing_is_reported() {
    let (mut app, _) = App::from_config(&config(), None);
    app.report_warnings(&vec![]);
    assert!(app.status_message.is_none() && app.debug_log.is_empty());
    app.report_warnings(&vec!["one".to_string()]);
    assert_eq!(
        app.status_message.as_deref(),
        Some("1 config warning(s) — press d for details")
    );
    assert!(app.debug_log[0].ends_with(" config warning: one"));
}
