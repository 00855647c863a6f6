//! What a probe of a host found, and what it says of the host.

use crate::clock::Stamp;
use crate::host::{Host, HostStatus, HostView};
use vstd::prelude::*;
use vstd::seq_lib::*;

verus! {

/// The ports probed on a host where the configuration lists none.
pub open spec fn standard_ports() -> Seq<u16> {
    seq![53, 80, 88, 135, 389, 443, 445, 636, 2179, 3389, 4660, 5985, 5986, 7001, 9100, 10123]
}

/// The ports probed on a host where the configuration lists none: DNS, HTTP,
/// Kerberos, RPC, LDAP, HTTPS, SMB, LDAPS, Hyper-V vmconnect, RDP, CommBox,
/// WinRM HTTP, WinRM HTTPS, NX Witness, raw printing, SCCM.
pub fn default_ports() -> (r: Vec<u16>)
    ensures
        r@ == standard_ports(),
{
    let r: Vec<u16> = vec![
        53,
        80,
        88,
        135,
        389,
        443,
        445,
        636,
        2179,
        3389,
        4660,
        5985,
        5986,
        7001,
        9100,
        10123,
    ];
    assert(r@ =~= standard_ports());
    r
}

/// How one port answered.
#[derive(Debug, Clone, Copy)]
pub struct PortOutcome {
    pub port: u16,
    /// Milliseconds until the connection stood; none if it never did.
    pub answered_in: Option<u64>,
}

/// What a probe of all ports of a host found.
#[derive(Debug)]
pub struct ProbeResult {
    /// The ports that answered, in ascending order.
    pub open_ports: Vec<u16>,
    /// Milliseconds of the fastest port that answered; of the whole probe if
    /// none did.
    pub latency_ms: u64,
}

/// Those of the first `n` ports that answered.
pub open spec fn answering(outcomes: Seq<PortOutcome>, n: int) -> Seq<u16>
    decreases n,
{
    if n <= 0 {
        seq![]
    } else if outcomes[n - 1].answered_in is Some {
        answering(outcomes, n - 1).push(outcomes[n - 1].port)
    } else {
        answering(outcomes, n - 1)
    }
}

/// `ms` is the time of the fastest port that answered.
pub open spec fn is_fastest(outcomes: Seq<PortOutcome>, ms: u64) -> bool {
    &&& exists|i: int|
        0 <= i < outcomes.len() && (#[trigger] outcomes[i]).answered_in == Some(ms)
    &&& forall|i: int|
        0 <= i < outcomes.len() ==> ((#[trigger] outcomes[i]).answered_in matches Some(t) ==> ms
            <= t)
}

/// The ports ascend.
pub open spec fn ascending(ports: Seq<u16>) -> bool {
    forall|i: int, j: int| 0 <= i <= j < ports.len() ==> #[trigger] ports[i] <= #[trigger] ports[j]
}

/// Puts a port into an ascending vector.
fn insert_port(ports: &mut Vec<u16>, port: u16)
    requires
        ascending(old(ports)@),
    ensures
        ascending(final(ports)@),
        final(ports)@.to_multiset() == old(ports)@.to_multiset().insert(port),
{
    let mut at: usize = ports.len();
    while at > 0 && port < ports[at - 1]
        invariant
            at <= ports.len(),
            ports@ == old(ports)@,
            ascending(ports@),
            forall|k: int| at <= k < ports.len() ==> port < #[trigger] ports@[k],
        decreases at,
    {
        at = at - 1;
    }
    proof {
        to_multiset_insert(ports@, at as int, port);
    }
    ports.insert(at, port);
}

impl ProbeResult {
    /// What the outcomes of all ports of a host, probed within `elapsed_ms`
    /// milliseconds, amount to.
    pub fn from_outcomes(outcomes: &Vec<PortOutcome>, elapsed_ms: u64) -> (r: ProbeResult)
        ensures
            ascending(r.open_ports@),
            r.open_ports@.to_multiset() == answering(
                outcomes@,
                outcomes@.len() as int,
            ).to_multiset(),
            r.open_ports@.len() > 0 ==> is_fastest(outcomes@, r.latency_ms),
            r.open_ports@.len() == 0 ==> r.latency_ms == elapsed_ms,
    {
        let mut open_ports: Vec<u16> = Vec::new();
        let mut fastest: Option<u64> = None;
        assert(open_ports@ =~= answering(outcomes@, 0));
        for i in 0..outcomes.len()
            invariant
                ascending(open_ports@),
                open_ports@.to_multiset() == answering(outcomes@, i as int).to_multiset(),
                match fastest {
                    Some(ms) => is_fastest(outcomes@.take(i as int), ms) && answering(
                        outcomes@,
                        i as int,
                    ).len() > 0,
                    None => answering(outcomes@, i as int).len() == 0,
                },
                fastest is None ==> forall|k: int|
                    0 <= k < i ==> (#[trigger] outcomes@[k]).answered_in is None,
        {
            broadcast use group_to_multiset_ensures;

            let outcome = outcomes[i];
            let ghost so_far = outcomes@.take(i as int);
            let ghost next = outcomes@.take(i + 1);
            assert(next =~= so_far.push(outcome));
            if let Some(ms) = outcome.answered_in {
                insert_port(&mut open_ports, outcome.port);
                assert(next[i as int].answered_in == Some(ms));
                match fastest {
                    Some(best) => {
                        let ghost k = choose|k: int|
                            0 <= k < so_far.len() && so_far[k].answered_in == Some(best);
                        assert(next[k].answered_in == Some(best));
                        if ms < best {
                            fastest = Some(ms);
                        }
                    },
                    None => {
                        fastest = Some(ms);
                    },
                }
            } else if let Some(best) = fastest {
                let ghost k = choose|k: int|
                    0 <= k < so_far.len() && so_far[k].answered_in == Some(best);
                assert(next[k].answered_in == Some(best));
            }
        }
        proof {
            broadcast use group_to_multiset_ensures;

            assert(outcomes@.take(outcomes@.len() as int) =~= outcomes@);
            assert(open_ports@.len() == open_ports@.to_multiset().len());
            assert(answering(outcomes@, outcomes@.len() as int).len() == answering(
                outcomes@,
                outcomes@.len() as int,
            ).to_multiset().len());
        }
        let latency_ms: u64 = match fastest {
            Some(ms) => ms,
            None => elapsed_ms,
        };
        ProbeResult { open_ports, latency_ms }
    }

    /// Updates a host by this result, now.
    pub fn apply(self, host: &mut Host)
        requires
            self.open_ports@.len() == 0 ==> old(host).consecutive_failures < u32::MAX,
        ensures
            final(host).last_checked matches Some(now) && now.is_valid(),
            final(host)@ == probed(
                old(host)@,
                self.open_ports@,
                self.latency_ms,
                final(host).last_checked->0,
            ),
    {
        self.apply_at(host, Stamp::now());
    }

    /// Updates a host by this result, at the given time.
    pub fn apply_at(self, host: &mut Host, now: Stamp)
        requires
            self.open_ports@.len() == 0 ==> old(host).consecutive_failures < u32::MAX,
        ensures
            final(host)@ == probed(old(host)@, self.open_ports@, self.latency_ms, now),
            final(host).name == old(host).name,
    {
        host.last_checked = Some(now);
        host.open_ports = self.open_ports;
        host.latency_ms = Some(self.latency_ms);
        if host.open_ports.len() > 0 {
            host.status = HostStatus::Up;
            host.last_seen = Some(now);
            host.consecutive_failures = 0;
        } else {
            host.consecutive_failures = host.consecutive_failures + 1;
            if host.consecutive_failures >= 2 {
                host.status = HostStatus::Down;
            }
        }
    }
}

/// A host after a probe: up as soon as a port answered, down once two probes in
/// a row found none.
pub open spec fn probed(h: HostView, ports: Seq<u16>, latency_ms: u64, now: Stamp) -> HostView {
    let checked = HostView {
        last_checked: Some(now),
        open_ports: ports,
        latency_ms: Some(latency_ms),
        ..h
    };
    if ports.len() > 0 {
        HostView {
            status: HostStatus::Up,
            last_seen: Some(now),
            consecutive_failures: 0,
            ..checked
        }
    } else {
        HostView {
            status: if h.consecutive_failures >= 1 {
                HostStatus::Down
            } else {
                h.status
            },
            consecutive_failures: (h.consecutive_failures + 1) as u32,
            ..checked
        }
    }
}

/// A host is up as soon as any port answers, whatever was known of it.
pub proof fn up_once_a_port_answers(h: HostView, ports: Seq<u16>, latency_ms: u64, now: Stamp)
    requires
        ports.len() > 0,
    ensures
        probed(h, ports, latency_ms, now).status == HostStatus::Up,
        probed(h, ports, latency_ms, now).consecutive_failures == 0,
{
}

/// A host is down after two consecutive probes that found no open port, whatever
/// was known of it before.
pub proof fn down_after_two_misses(
    h: HostView,
    first_ms: u64,
    first: Stamp,
    second_ms: u64,
    second: Stamp,
)
    requires
        h.consecutive_failures < u32::MAX - 1,
    ensures
        probed(probed(h, seq![], first_ms, first), seq![], second_ms, second).status
            == HostStatus::Down,
{
}

/// One probe that found no open port, after one that found some, does not change
/// a host's status.
pub proof fn one_miss_changes_no_status(
    h: HostView,
    ports: Seq<u16>,
    first_ms: u64,
    first: Stamp,
    second_ms: u64,
    second: Stamp,
)
    requires
        ports.len() > 0,
    ensures
        probed(probed(h, ports, first_ms, first), seq![], second_ms, second).status
            == HostStatus::Up,
{
}

} // verus!
