use netprobe::app::{App, Group, Host, HostIds, HostStatus, DEBUG_LOG_CAP};
use netprobe::clock::Stamp;
use netprobe::network::ProbeResult;

const LOG: &str = "01:02:03.004";

fn app(ips: &[&str]) -> App {
    let mut ids = HostIds::new();
    let mut app = App::new(30, 2000, 64, vec![22, 80]);
    app.groups.push(Group {
        name: "G".into(),
        hosts: ips.iter().map(|ip| Host::from_config("h", ip, &mut ids)).collect(),
    });
    app.build_tabs();
    app.rebuild_rows();
    app
}

fn stamp(millis: i64) -> Stamp {
    Stamp::new(millis, 0).unwrap()
}

fn result(ports: &[u16]) -> ProbeResult {
    ProbeResult {
        open_ports: ports.to_vec(),
        latency_ms: 1,
    }
}

fn record(app: &mut App, scan_id: u64, host_id: u64, ports: &[u16]) {
    let r = result(ports);
    assert!(app.result_fits(host_id, &r));
    app.record_result_at(scan_id, host_id, r, stamp(5), LOG);
}

#[test]
fn a_scan_has_a_job_for_each_host_with_an_address() {
    let mut app = app(&["a", "", "b"]);
    assert!(app.scan_fits());
    let jobs = app.begin_scan_at(10, stamp(1), LOG);
    let got: Vec<(u64, u64, &str)> =
        jobs.iter().map(|j| (j.scan_id, j.host_id, j.ip.as_str())).collect();
    assert_eq!(got, vec![(1, 1, "a"), (1, 3, "b")]);
    assert!(app.is_scanning);
    assert_eq!(app.pending_results, 2);
    assert_eq!(app.last_scan, 10);
    assert!(app.debug_log.is_empty());
}

#[test]
fn a_scan_of_nothing_ends_at_once() {
    let mut app = app(&["", ""]);
    assert!(app.begin_scan_at(10, stamp(7), LOG).is_empty());
    assert!(!app.is_scanning);
    assert_eq!(app.scan_deadline, None);
    assert_eq!(app.last_poll, Some(stamp(7)));
}

#[test]
fn the_budget_is_twice_the_worst_case_and_slack() {
    // 2 hosts, 2 ports, a cap of 3: two rounds of two seconds, twice, and five.
    let mut app = app(&["a", "b"]);
    app.max_concurrent_probes = 3;
    app.show_debug = true;
    app.begin_scan_at(1_000, stamp(1), LOG);
    assert_eq!(app.scan_deadline, Some(13_000_001_000));
    assert_eq!(
        app.debug_log,
        ["01:02:03.004 spawn_scan #1: 2 hosts, cap=3, budget=13s"]
    );
}

#[test]
fn a_scan_ends_with_its_last_result() {
    let mut app = app(&["a", "b"]);
    app.set_status_at("Rescanning...", 3);
    app.begin_scan_at(10, stamp(1), LOG);
    record(&mut app, 1, 1, &[80]);
    assert!(app.is_scanning);
    assert_eq!(app.pending_results, 1);
    record(&mut app, 1, 2, &[]);
    assert!(!app.is_scanning);
    assert_eq!(app.last_poll, Some(stamp(5)));
    assert_eq!(app.status_message, None);
    assert_eq!(app.groups[0].hosts[0].status, HostStatus::Up);
    assert_eq!(app.groups[0].hosts[1].status, HostStatus::Unknown);
}

#[test]
fn finishing_keeps_other_messages() {
    let mut app = app(&["a"]);
    app.set_status_at("Exported x", 3);
    app.finish_scan();
    assert_eq!(app.status_message.as_deref(), Some("Exported x"));
    assert!(app.last_poll.is_some());
}

#[test]
fn late_results_are_applied_but_not_counted() {
    let mut app = app(&["a", "b"]);
    app.begin_scan_at(10, stamp(1), LOG);
    app.begin_scan_at(20, stamp(2), LOG);
    assert_eq!(app.current_scan, 2);
    record(&mut app, 1, 2, &[22]);
    assert_eq!(app.pending_results, 2);
    assert_eq!(app.groups[0].hosts[1].status, HostStatus::Up);
    assert_eq!(app.groups[0].hosts[0].status, HostStatus::Unknown);
}

#[test]
fn results_for_unknown_hosts_are_dropped() {
    let mut app = app(&["a"]);
    app.begin_scan_at(10, stamp(1), LOG);
    record(&mut app, 1, 99, &[22]);
    assert_eq!(app.debug_log, ["01:02:03.004 PortResult id=99 DROPPED (no host)"]);
    assert!(!app.is_scanning); // it was the one result that was missing
    assert!(app.groups[0].hosts[0].last_checked.is_none());
}

#[test]
fn results_are_noted_when_debugging() {
    let mut app = app(&["a"]);
    app.show_debug = true;
    record(&mut app, 0, 1, &[22, 80]);
    record(&mut app, 0, 1, &[]);
    assert_eq!(
        app.debug_log,
        [
            "01:02:03.004 PortResult id=1 h ● ports=[22,80]",
            "01:02:03.004 PortResult id=1 h ● ports=[]",
        ]
    );
}

#[test]
fn a_stalled_scan_is_given_up() {
    let mut app = app(&["a", "b"]);
    app.begin_scan_at(0, stamp(1), LOG);
    let deadline = app.scan_deadline.unwrap();
    assert!(!app.tick_at(deadline - 1, stamp(2), LOG));
    assert!(app.is_scanning);
    let due = app.tick_at(deadline, stamp(3), LOG);
    assert!(!app.is_scanning);
    assert_eq!(app.last_poll, Some(stamp(3)));
    assert_eq!(app.debug_log, ["01:02:03.004 scan watchdog fired: 2 result(s) never arrived"]);
    assert!(!due); // nine seconds are over, not thirty
    assert!(app.tick_at(30_000_000_000, stamp(4), LOG));
}

#[test]
fn rescans_are_due_after_the_interval() {
    let mut app = app(&["a"]);
    app.last_scan = 5;
    assert!(!app.rescan_due_at(30_000_000_004));
    assert!(app.rescan_due_at(30_000_000_005));
    assert!(!app.rescan_due_at(0));
    app.is_scanning = true;
    assert!(!app.rescan_due_at(99_000_000_000));
}

#[test]
fn the_countdown_counts_whole_seconds() {
    let mut app = app(&["a"]);
    assert_eq!(app.seconds_until_next_scan_at(0), Some(30));
    assert_eq!(app.seconds_until_next_scan_at(999_999_999), Some(30));
    assert_eq!(app.seconds_until_next_scan_at(1_000_000_000), Some(29));
    assert_eq!(app.seconds_until_next_scan_at(31_000_000_000), Some(0));
    assert_eq!(app.seconds_until_next_scan(), Some(30));
    app.is_scanning = true;
    assert_eq!(app.seconds_until_next_scan(), None);
}

#[test]
fn messages_expire() {
    let mut app = app(&["a"]);
    app.set_status_at("hello", 1);
    app.expire_status_at(6_000_000_000);
    assert_eq!(app.status_message.as_deref(), Some("hello"));
    app.expire_status_at(6_000_000_001);
    assert_eq!(app.status_message, None);
    assert_eq!(app.status_set_at, None);
    app.set_status("again");
    app.expire_status();
    assert_eq!(app.status_message.as_deref(), Some("again"));
}

#[test]
fn the_log_keeps_the_newest_lines() {
    let mut app = app(&["a"]);
    for i in 0..DEBUG_LOG_CAP + 3 {
        app.log_line("t", &format!("line {i}"));
    }
    assert_eq!(app.debug_log.len(), DEBUG_LOG_CAP);
    assert_eq!(app.debug_log[0], "t line 3");
    assert_eq!(app.debug_log[DEBUG_LOG_CAP - 1], "t line 202");
    app.log_debug("now");
    assert!(app.debug_log[DEBUG_LOG_CAP - 1].ends_with(" now"));
    assert_eq!(app.debug_log[DEBUG_LOG_CAP - 1].len(), "01:02:03.004 now".len());
}

#[test]
fn exports_are_reported() {
    let mut app = app(&["a"]);
    app.report_export_at(Ok("/tmp/x.csv".into()), 4, LOG);
    assert_eq!(app.status_message.as_deref(), Some("Exported /tmp/x.csv"));
    assert_eq!(app.status_set_at, Some(4));
    assert!(app.debug_log.is_empty());
    app.report_export_at(Err("disk full".into()), 5, LOG);
    assert_eq!(app.status_message.as_deref(), Some("Export failed: disk full"));
    assert_eq!(app.debug_log, ["01:02:03.004 export error: disk full"]);
    app.report_export(Err("gone".into()));
    assert!(app.debug_log[1].ends_with(" export error: gone"));
}

#[test]
fn scans_by_the_clock() {
    let mut app = app(&["a"]);
    assert_eq!(app.begin_scan().len(), 1);
    assert!(!app.tick());
    app.record_result(1, 1, result(&[80]));
    assert!(!app.is_scanning);
    assert!(app.groups[0].hosts[0].last_seen.is_some());
}

#[test]
fn scans_that_cannot_be_counted_are_told() {
    let mut app = app(&["a"]);
    app.current_scan = u64::MAX;
    assert!(!app.scan_fits());
    app.current_scan = 0;
    assert!(app.scan_fits());
    app.groups[0].hosts[0].consecutive_failures = u32::MAX;
    assert!(!app.result_fits(1, &result(&[])));
    assert!(app.result_fits(1, &result(&[80])));
    assert!(app.result_fits(2, &result(&[])));
}

#[test]
fn many_rounds_have_their_time() {
    // One host, 65535 ports, one at a time.
    let mut app = app(&["a"]);
    app.probe_ports = std::sync::Arc::new((1..=65535).collect());
    app.max_concurrent_probes = 1;
    assert!(app.scan_fits());
    app.begin_scan_at(0, stamp(1), LOG);
    assert_eq!(app.scan_deadline, Some(65_535 * 2 * 2_000_000_000 + 5_000_000_000));
    // A budget that no span can hold.
    app.connect_timeout_ms = u64::MAX;
    assert!(!app.scan_fits());
}
