use netprobe::app::{Host, HostIds, HostStatus};

fn host_with(ports: &[u16]) -> Host {
    let mut ids = HostIds::new();
    let mut h = Host::from_config("h", "10.0.0.1", &mut ids);
    h.open_ports = ports.to_vec();
    h
}

#[test]
fn statuses_have_marks_and_labels() {
    assert_eq!(HostStatus::Unknown.symbol(), "?");
    assert_eq!(HostStatus::Up.symbol(), "●");
    assert_eq!(HostStatus::Down.symbol(), "✗");
    assert_eq!(HostStatus::Unknown.label(), "unknown");
    assert_eq!(HostStatus::Up.label(), "up");
    assert_eq!(HostStatus::Down.label(), "down");
}

#[test]
fn ids_start_at_one_and_count_up() {
    let mut ids = HostIds::new();
    let a = Host::from_config("a", "1", &mut ids);
    let b = Host::from_config("b", "2", &mut ids);
    assert_eq!((a.id, b.id), (1, 2));
    assert_eq!((a.name.as_str(), a.ip.as_str()), ("a", "1"));
    assert_eq!(a.status, HostStatus::Unknown);
    assert!(a.open_ports.is_empty() && a.latency_ms.is_none() && a.parent.is_none());
    let mut last = HostIds { next: u64::MAX };
    assert_eq!(last.take(), u64::MAX);
    assert_eq!(last.take(), 0);
}

#[test]
fn at_most_six_ports_are_shown() {
    assert_eq!(host_with(&[]).ports_display(), "—");
    assert_eq!(host_with(&[80]).ports_display(), "80");
    assert_eq!(host_with(&[1, 2, 3, 4, 5, 6]).ports_display(), "1,2,3,4,5,6");
    assert_eq!(host_with(&[1, 2, 3, 4, 5, 6, 7]).ports_display(), "1,2,3,4,5,6..+1");
    let many: Vec<u16> = (100..120).collect();
    assert_eq!(host_with(&many).ports_display(), "100,101,102,103,104,105..+14");
}

#[test]
fn the_most_specific_role_wins() {
    let cases: [(&[u16], &str); 14] = [
        (&[88, 389], "DC"),
        (&[80, 88, 389, 2179, 10123], "DC"),
        (&[88], "—"),
        (&[389], "—"),
        (&[80, 2179, 7001], "Hyper-V"),
        (&[443, 7001, 10123], "SCCM"),
        (&[7001, 9100], "NxWitness"),
        (&[80, 9100], "Print"),
        (&[443, 631], "Print"),
        (&[22, 80, 5985], "Web"),
        (&[443, 5985], "Web"),
        (&[22, 5985], "WinRM"),
        (&[22, 3389], "SSH"),
        (&[], "—"),
    ];
    for (ports, role) in cases {
        assert_eq!(host_with(ports).role_label(), role);
    }
}
