use netprobe::app::{Host, HostIds, HostStatus};
use netprobe::clock::Stamp;
use netprobe::network::{default_ports, PortOutcome, ProbeResult};

fn outcome(port: u16, answered_in: Option<u64>) -> PortOutcome {
    PortOutcome { port, answered_in }
}

fn result(ports: &[u16]) -> ProbeResult {
    ProbeResult {
        open_ports: ports.to_vec(),
        latency_ms: 3,
    }
}

fn new_host() -> Host {
    Host::from_config("h", "10.0.0.1", &mut HostIds::new())
}

#[test]
fn standard_ports_are_probed_by_default() {
    assert_eq!(
        default_ports(),
        vec![53, 80, 88, 135, 389, 443, 445, 636, 2179, 3389, 4660, 5985, 5986, 7001, 9100, 10123]
    );
}

#[test]
fn open_ports_are_sorted_and_the_fastest_gives_the_latency() {
    let r = ProbeResult::from_outcomes(
        &vec![
            outcome(443, Some(12)),
            outcome(22, None),
            outcome(80, Some(9)),
            outcome(53, Some(30)),
        ],
        2000,
    );
    assert_eq!(r.open_ports, vec![53, 80, 443]);
    assert_eq!(r.latency_ms, 9);
}

#[test]
fn without_an_answer_the_probe_took_its_time() {
    let r = ProbeResult::from_outcomes(&vec![outcome(80, None), outcome(22, None)], 2001);
    assert!(r.open_ports.is_empty());
    assert_eq!(r.latency_ms, 2001);
    assert_eq!(ProbeResult::from_outcomes(&vec![], 5).latency_ms, 5);
}

#[test]
fn a_host_is_up_as_soon_as_a_port_answers() {
    let mut h = new_host();
    let now = Stamp::new(1000, 0).unwrap();
    result(&[]).apply_at(&mut h, now);
    result(&[80]).apply_at(&mut h, now);
    assert_eq!(h.status, HostStatus::Up);
    assert_eq!(h.consecutive_failures, 0);
    assert_eq!(h.last_seen, Some(now));
    assert_eq!(h.last_checked, Some(now));
    assert_eq!(h.open_ports, vec![80]);
    assert_eq!(h.latency_ms, Some(3));
}

#[test]
fn a_host_is_down_after_two_misses() {
    let mut h = new_host();
    let (first, later) = (Stamp::new(1, 0).unwrap(), Stamp::new(2, 0).unwrap());
    result(&[80]).apply_at(&mut h, first);
    result(&[]).apply_at(&mut h, later);
    assert_eq!(h.status, HostStatus::Up); // one miss is forgiven
    assert_eq!(h.consecutive_failures, 1);
    result(&[]).apply_at(&mut h, later);
    assert_eq!(h.status, HostStatus::Down);
    assert_eq!(h.consecutive_failures, 2);
    assert_eq!(h.last_seen, Some(first));
    assert_eq!(h.last_checked, Some(later));
    assert!(h.open_ports.is_empty());
}

#[test]
fn one_miss_leaves_a_new_host_unknown() {
    let mut h = new_host();
    result(&[]).apply(&mut h);
    assert_eq!(h.status, HostStatus::Unknown);
    assert!(h.last_checked.is_some());
    assert!(h.last_seen.is_none());
    result(&[22]).apply(&mut h);
    assert!(h.last_seen.is_some());
}
