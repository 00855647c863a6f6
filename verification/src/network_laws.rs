//! What a probe says of a host.

use crate::clock::Stamp;
use crate::host::{HostStatus, HostView};
use crate::network::{answering, ascending, is_fastest, probed, standard_ports, PortOutcome};
use vstd::prelude::*;
use vstd::seq_lib::*;

verus! {

/// After a probe the host's ports are those that the probe found open, its latency
/// is that of the probe, and it was last checked then, whatever was known of it.
pub proof fn a_probe_replaces_what_was_known(
    h: HostView,
    ports: Seq<u16>,
    latency_ms: u64,
    now: Stamp,
)
    ensures
        probed(h, ports, latency_ms, now).open_ports == ports,
        probed(h, ports, latency_ms, now).latency_ms == Some(latency_ms),
        probed(h, ports, latency_ms, now).last_checked == Some(now),
{
}

/// A host was last seen at the last probe that found a port open.
pub proof fn a_host_is_seen_when_a_port_answers(
    h: HostView,
    ports: Seq<u16>,
    latency_ms: u64,
    now: Stamp,
)
    ensures
        ports.len() > 0 ==> probed(h, ports, latency_ms, now).last_seen == Some(now),
        ports.len() == 0 ==> probed(h, ports, latency_ms, now).last_seen == h.last_seen,
{
}

/// Failures are counted from the last probe that found a port open; from the
/// second on the host is down, before that its status stays.
pub proof fn failures_are_counted(h: HostView, ports: Seq<u16>, latency_ms: u64, now: Stamp)
    requires
        ports.len() == 0 ==> h.consecutive_failures < u32::MAX,
    ensures
        ({
            let after = probed(h, ports, latency_ms, now);
            &&& ports.len() > 0 ==> after.consecutive_failures == 0 && after.status
                == HostStatus::Up
            &&& ports.len() == 0 ==> after.consecutive_failures == h.consecutive_failures + 1
            &&& ports.len() == 0 && after.consecutive_failures >= 2 ==> after.status
                == HostStatus::Down
            &&& ports.len() == 0 && after.consecutive_failures < 2 ==> after.status == h.status
        }),
{
}

/// A probe changes nothing of a host's identity or place.
pub proof fn a_probe_keeps_the_host(h: HostView, ports: Seq<u16>, latency_ms: u64, now: Stamp)
    ensures
        ({
            let after = probed(h, ports, latency_ms, now);
            &&& after.id == h.id
            &&& after.name == h.name
            &&& after.ip == h.ip
            &&& after.is_child == h.is_child
            &&& after.parent == h.parent
            &&& after.vm_state == h.vm_state
            &&& after.is_child_vm == h.is_child_vm
            &&& after.parent_host == h.parent_host
        }),
{
}

/// The ports that answered are, in order, those of the outcomes with a time.
pub proof fn ports_with_a_time_answered(outcomes: Seq<PortOutcome>)
    ensures
        answering(outcomes, outcomes.len() as int) == outcomes.filter(
            |o: PortOutcome| o.answered_in is Some,
        ).map_values(|o: PortOutcome| o.port),
{
    answering_is_a_filter(outcomes, outcomes.len() as int);
    assert(outcomes.take(outcomes.len() as int) =~= outcomes);
}

proof fn answering_is_a_filter(outcomes: Seq<PortOutcome>, n: int)
    requires
        0 <= n <= outcomes.len(),
    ensures
        answering(outcomes, n) == outcomes.take(n).filter(
            |o: PortOutcome| o.answered_in is Some,
        ).map_values(|o: PortOutcome| o.port),
    decreases n,
{
    reveal(Seq::filter);
    let p = |o: PortOutcome| o.answered_in is Some;
    let f = |o: PortOutcome| o.port;
    if n == 0 {
        assert(answering(outcomes, n) =~= outcomes.take(n).filter(p).map_values(f));
    } else {
        answering_is_a_filter(outcomes, n - 1);
        assert(outcomes.take(n).drop_last() =~= outcomes.take(n - 1));
        assert(outcomes.take(n).last() == outcomes[n - 1]);
        let front = outcomes.take(n - 1).filter(p);
        assert(front.push(outcomes[n - 1]).map_values(f) =~= front.map_values(f).push(
            outcomes[n - 1].port,
        ));
    }
}

/// Sorted ports that are the answering ones, with repetitions, hold a port just if
/// one of the outcomes for it has a time; and there is only one such row of ports.
pub proof fn open_ports_are_those_that_answered(
    outcomes: Seq<PortOutcome>,
    open_ports: Seq<u16>,
    port: u16,
)
    requires
        ascending(open_ports),
        open_ports.to_multiset() == answering(outcomes, outcomes.len() as int).to_multiset(),
    ensures
        open_ports.contains(port) <==> exists|i: int|
            0 <= i < outcomes.len() && (#[trigger] outcomes[i]).port == port
                && outcomes[i].answered_in is Some,
        forall|i: int, j: int|
            0 <= i < j < open_ports.len() ==> #[trigger] open_ports[i] <= #[trigger] open_ports[j],
{
    broadcast use group_to_multiset_ensures;

    let n = outcomes.len() as int;
    let all = answering(outcomes, n);
    answering_holds(outcomes, n, port);
    assert(open_ports.contains(port) <==> open_ports.to_multiset().count(port) > 0);
    assert(all.contains(port) <==> all.to_multiset().count(port) > 0);
}

proof fn answering_holds(outcomes: Seq<PortOutcome>, n: int, port: u16)
    requires
        0 <= n <= outcomes.len(),
    ensures
        answering(outcomes, n).contains(port) <==> exists|i: int|
            0 <= i < n && (#[trigger] outcomes[i]).port == port && outcomes[i].answered_in is Some,
    decreases n,
{
    if n > 0 {
        answering_holds(outcomes, n - 1, port);
        let front = answering(outcomes, n - 1);
        let all = answering(outcomes, n);
        if front.contains(port) {
            let k = choose|k: int| 0 <= k < front.len() && front[k] == port;
            assert(all[k] == port);
        }
        if outcomes[n - 1].answered_in is Some && outcomes[n - 1].port == port {
            assert(all[all.len() - 1] == port);
        }
        if all.contains(port) {
            let k = choose|k: int| 0 <= k < all.len() && all[k] == port;
            if k < front.len() {
                assert(front[k] == port);
            } else {
                assert(outcomes[n - 1].port == port);
            }
        }
    }
}

/// The latency is one of the times of the ports that answered, and none of them is
/// shorter.
pub proof fn latency_is_the_shortest_time(outcomes: Seq<PortOutcome>, ms: u64)
    ensures
        is_fastest(outcomes, ms) <==> (exists|i: int|
            0 <= i < outcomes.len() && (#[trigger] outcomes[i]).answered_in == Some(ms))
            && forall|i: int|
            0 <= i < outcomes.len() && (#[trigger] outcomes[i]).answered_in is Some ==> ms
                <= outcomes[i].answered_in->0,
{
}

/// The sixteen ports that are probed where the configuration lists none.
pub proof fn sixteen_standard_ports()
    ensures
        standard_ports() == seq![
            53u16,
            80,
            88,
            135,
            389,
            443,
            445,
            636,
            2179,
            3389,
            4660,
            5985,
            5986,
            7001,
            9100,
            10123,
        ],
{
}

} // verus!
