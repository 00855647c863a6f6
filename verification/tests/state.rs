use netprobe::app::{App, DEBUG_LOG_CAP};
use netprobe::clock::Stamp;
use netprobe::config::{Config, GroupConfig, HostConfig, Settings};
use netprobe::keys::Key;
use netprobe::network::ProbeResult;

fn app() -> App {
    let host = |name: &str, ip: &str| HostConfig {
        name: name.into(),
        ip: ip.into(),
        parent: None,
    };
    let cfg = Config {
        settings: Settings {
            poll_interval: 1,
            connect_timeout_ms: 10,
            max_concurrent_probes: 2,
            ports: Some(vec![22, 80]),
            default_tab: None,
        },
        group: vec![
            GroupConfig {
                name: "A".into(),
                hosts: vec![host("a1", "10.0.0.1"), host("a2", "")],
            },
            GroupConfig {
                name: "Empty".into(),
                hosts: vec![],
            },
            GroupConfig {
                name: "B".into(),
                hosts: vec![host("b1", "10.0.1.1"), host("b2", "10.0.1.2")],
            },
        ],
    };
    App::from_config(&cfg, None).0
}

/// The parts of the state agree.
fn check(app: &App) {
    assert_eq!(app.tabs.len(), app.groups.len() + 1);
    assert!(app.active_tab < app.tabs.len());
    assert!(app.has_valid_rows());
    if let Some(i) = app.table_state.selected {
        assert!(i < app.rows.len());
    }
    assert_eq!(app.is_scanning, app.pending_results > 0);
    assert!(!app.is_scanning || app.scan_deadline.is_some());
    assert_eq!(app.status_message.is_some(), app.status_set_at.is_some());
    assert!(app.debug_log.len() <= DEBUG_LOG_CAP);
}

#[test]
fn the_state_stays_consistent() {
    let mut app = app();
    check(&app);
    let keys = [
        Key::Down,
        Key::Down,
        Key::Right,
        Key::Up,
        Key::Char('t'),
        Key::Tab,
        Key::Char('d'),
        Key::Char('/'),
        Key::Char('b'),
        Key::Char('9'),
        Key::Backspace,
        Key::Enter,
        Key::BackTab,
        Key::Down,
        Key::Char('r'),
        Key::Left,
        Key::Esc,
        Key::Char('?'),
        Key::Char('l'),
    ];
    let mut now: u128 = 0;
    for round in 0..20 {
        let stamp = Stamp::new(round, 0).unwrap();
        for key in keys {
            now += 300_000_000;
            assert!(app.key_fits(key));
            app.handle_key_at(key, now, "t");
            check(&app);
            if app.tick_at(now, stamp, "t") {
                let jobs = app.begin_scan_at(now, stamp, "t");
                check(&app);
                for job in jobs.iter().skip(round as usize % 3) {
                    let open_ports = if now % 2 == 0 { vec![80] } else { vec![] };
                    let result = ProbeResult { open_ports, latency_ms: 1 };
                    app.record_result_at(job.scan_id, job.host_id, result, stamp, "t");
                    check(&app);
                }
            }
            check(&app);
        }
        app.report_export_at(Err("no".into()), now, "t");
        app.report_warnings_at(&vec!["w".into()], now, &vec!["t".into()]);
        check(&app);
    }
}

#[test]
fn keys_leave_the_hosts_alone() {
    let mut app = app();
    let names = |app: &App| -> Vec<String> {
        app.groups.iter().flat_map(|g| g.hosts.iter()).map(|h| h.name.clone()).collect()
    };
    let before = names(&app);
    for c in "qjkltre?dD/xyz".chars() {
        app.handle_key_at(Key::Char(c), 0, "t");
        assert_eq!(names(&app), before);
    }
}
