use netprobe::app::{App, Group, Host, HostIds, HostStatus};
use netprobe::clock::Stamp;
use netprobe::csv::{csv_field, csv_line, snapshot_name, snapshot_name_now};

fn app_with(groups: &[(&str, &[(&str, &str, HostStatus)])]) -> App {
    let mut ids = HostIds::new();
    let mut app = App::new(30, 2000, 64, vec![80]);
    for (gname, hosts) in groups {
        let hs = hosts
            .iter()
            .map(|(n, ip, st)| {
                let mut h = Host::from_config(n, ip, &mut ids);
                h.status = *st;
                h
            })
            .collect();
        app.groups.push(Group {
            name: (*gname).into(),
            hosts: hs,
        });
    }
    app.build_tabs();
    app.rebuild_rows();
    app
}

#[test]
fn csv_export_has_header_row_per_host_and_quotes_ports() {
    let mut app = app_with(&[("Grp,A", &[("h1", "10.0.0.1", HostStatus::Up)])]);
    // Give the host multiple open ports so the field needs quoting.
    app.groups[0].hosts[0].open_ports = vec![80, 443];
    let csv = app.build_csv();
    let lines: Vec<&str> = csv.lines().collect();
    assert_eq!(lines.len(), 2); // header + 1 host
    assert!(lines[0].starts_with("group,host,ip,status,role,open_ports"));
    // group name with a comma is quoted; ports joined with ';' (no comma,
    // so no quoting needed).
    assert!(lines[1].contains("\"Grp,A\""));
    assert!(lines[1].contains("80;443"));
    assert!(!lines[1].contains("\"80;443\""));
    assert!(lines[1].contains("10.0.0.1"));
    assert!(lines[1].contains("up"));
}

#[test]
fn csv_field_quotes_only_when_needed() {
    assert_eq!(csv_field("plain"), "plain");
    assert_eq!(csv_field("a,b"), "\"a,b\"");
    assert_eq!(csv_field("a\"b"), "\"a\"\"b\"");
}

#[test]
fn line_breaks_are_quoted() {
    assert_eq!(csv_field("a\nb"), "\"a\nb\"");
    assert_eq!(csv_field("a\rb"), "\"a\rb\"");
    assert_eq!(csv_field(""), "");
    assert_eq!(csv_field(" "), " ");
}

#[test]
fn snapshot_is_exact() {
    let mut app = app_with(&[
        ("A", &[("h\"1", "10.0.0.1", HostStatus::Down)]),
        ("B", &[("h2", "", HostStatus::Unknown), ("h3", "x", HostStatus::Up)]),
    ]);
    let host = &mut app.groups[1].hosts[1];
    host.open_ports = vec![22, 88, 389];
    host.latency_ms = Some(7);
    host.last_seen = Stamp::new(0, 3600);
    host.last_checked = Stamp::new(86_400_000, 0);
    assert_eq!(
        app.build_csv(),
        "group,host,ip,status,role,open_ports,latency_ms,last_seen,last_checked\n\
         A,\"h\"\"1\",10.0.0.1,down,—,,,,\n\
         B,h2,,unknown,—,,,,\n\
         B,h3,x,up,DC,22;88;389,7,1970-01-01 01:00:00,1970-01-02 00:00:00\n"
    );
}

#[test]
fn line_takes_its_times_as_given() {
    let mut ids = HostIds::new();
    let host = Host::from_config("h", "ip", &mut ids);
    assert_eq!(csv_line("g", &host, "then", "no,w"), "g,h,ip,unknown,—,,,then,\"no,w\"");
}

#[test]
fn fields_are_read_back() {
    // What a reader of the format makes of a field.
    let read = |field: &str| -> String {
        match field.strip_prefix('"') {
            Some(rest) => rest.strip_suffix('"').unwrap().replace("\"\"", "\""),
            None => field.to_string(),
        }
    };
    for s in ["", "plain", "a,b", "\"", "\"\"", "a\"\n,\r\"b", "ü—", " \" "] {
        assert_eq!(read(&csv_field(s)), s);
    }
}

#[test]
fn snapshots_are_named_by_time() {
    assert_eq!(snapshot_name("20240102-030405"), "netprobe-snapshot-20240102-030405.csv");
    let name = snapshot_name_now();
    assert_eq!(name.len(), "netprobe-snapshot-20240102-030405.csv".len());
    assert!(name.starts_with("netprobe-snapshot-"));
    assert!(name.ends_with(".csv"));
}
