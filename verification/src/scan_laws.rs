//! Laws of scans.

use crate::app::{host_with_id, located, App, Group, Host, HostStatus, DEBUG_LOG_CAP};
use crate::app_laws::{
    hosts_are_found_by_id, same_message, same_panels, same_scan, same_settings, same_table,
};
use crate::clock::{Stamp, MAX_SPAN_NANOS};
use crate::host::HostView;
use crate::network::{probed, ProbeResult};
use crate::scan::{
    budget_rounds, dropped_note, effective_cap, host_jobs, log_notation, log_text, logged,
    result_note, rounds, scan_budget, scan_jobs, scan_note, watchdog_note, ScanJob,
    NANOS_PER_MILLI,
};
use crate::text::{decimal, joined_ports};
use vstd::prelude::*;

verus! {

/// A result as it comes in.
pub struct Arrival {
    pub scan_id: u64,
    pub host_id: u64,
    pub result: ProbeResult,
    pub now: Stamp,
    pub log_time: Seq<char>,
}

/// Each state is the one before it with the next result recorded.
pub open spec fn is_run(states: Seq<App>, arrivals: Seq<Arrival>) -> bool {
    &&& states.len() == arrivals.len() + 1
    &&& forall|i: int|
        0 <= i < arrivals.len() ==> (#[trigger] states[i + 1]).result_recorded(
            states[i],
            arrivals[i].scan_id,
            arrivals[i].host_id,
            arrivals[i].result,
            arrivals[i].now,
            arrivals[i].log_time,
        )
}

/// How many of the results belong to the given scan.
pub open spec fn results_of(arrivals: Seq<Arrival>, scan_id: u64) -> nat
    decreases arrivals.len(),
{
    if arrivals.len() == 0 {
        0
    } else {
        results_of(arrivals.drop_last(), scan_id) + if arrivals.last().scan_id == scan_id {
            1nat
        } else {
            0nat
        }
    }
}

proof fn counting_results(states: Seq<App>, arrivals: Seq<Arrival>)
    requires
        is_run(states, arrivals),
        states[0].is_scanning,
        states[0].pending_results > 0,
    ensures
        states.last().current_scan == states[0].current_scan,
        ({
            let came = results_of(arrivals, states[0].current_scan);
            if came < states[0].pending_results {
                states.last().is_scanning && states.last().pending_results
                    == states[0].pending_results - came
            } else {
                !states.last().is_scanning && states.last().pending_results == 0
            }
        }),
    decreases arrivals.len(),
{
    if arrivals.len() > 0 {
        let n = arrivals.len() as int;
        assert(is_run(states.drop_last(), arrivals.drop_last())) by {
            assert forall|i: int| 0 <= i < n - 1 implies (#[trigger] states.drop_last()[i
                + 1]).result_recorded(
                states.drop_last()[i],
                arrivals.drop_last()[i].scan_id,
                arrivals.drop_last()[i].host_id,
                arrivals.drop_last()[i].result,
                arrivals.drop_last()[i].now,
                arrivals.drop_last()[i].log_time,
            ) by {
                assert(states.drop_last()[i + 1] == states[i + 1]);
            }
        }
        counting_results(states.drop_last(), arrivals.drop_last());
        assert(states.drop_last().last() == states[n - 1]);
        assert(states[(n - 1) + 1].result_recorded(
            states[n - 1],
            arrivals[n - 1].scan_id,
            arrivals[n - 1].host_id,
            arrivals[n - 1].result,
            arrivals[n - 1].now,
            arrivals[n - 1].log_time,
        ));
    }
}

/// A scan ends with its last result: it is in progress until as many results of
/// it have come in as it handed out jobs, and no longer. Results of other scans
/// do not count.
pub proof fn scan_ends_with_its_last_result(
    before: App,
    states: Seq<App>,
    arrivals: Seq<Arrival>,
    now: u128,
    stamp: Stamp,
    log_time: Seq<char>,
)
    requires
        before.can_scan(),
        before.next_jobs().len() > 0,
        is_run(states, arrivals),
        states[0].scan_begun(before, now, stamp, log_time),
    ensures
        states.last().is_scanning <==> results_of(arrivals, states[0].current_scan)
            < before.next_jobs().len(),
{
    counting_results(states, arrivals);
}

/// A result of a superseded scan leaves the completion of the current one alone.
pub proof fn superseded_results_do_not_count(
    before: App,
    after: App,
    scan_id: u64,
    host_id: u64,
    result: ProbeResult,
    now: Stamp,
    log_time: Seq<char>,
)
    requires
        after.result_recorded(before, scan_id, host_id, result, now, log_time),
        scan_id != before.current_scan,
    ensures
        after.is_scanning == before.is_scanning,
        after.pending_results == before.pending_results,
        after.scan_deadline == before.scan_deadline,
        after.last_poll == before.last_poll,
{
}

/// The watchdog does not cut a slow scan short: before all rounds have run into
/// the connect timeout, the scan does not count as stalled.
pub proof fn slow_scans_are_not_cut_short(
    before: App,
    after: App,
    now: u128,
    stamp: Stamp,
    log_time: Seq<char>,
    later: u128,
)
    requires
        before.can_scan(),
        before.next_jobs().len() > 0,
        after.scan_begun(before, now, stamp, log_time),
        now <= MAX_SPAN_NANOS,
        later <= now + rounds(before.next_probes(), effective_cap(before.max_concurrent_probes)) * (
        before.connect_timeout_ms * NANOS_PER_MILLI),
    ensures
        !after.is_stalled(later),
{
    let n = rounds(before.next_probes(), effective_cap(before.max_concurrent_probes));
    let b = budget_rounds(before.next_probes(), before.max_concurrent_probes);
    let t = before.connect_timeout_ms * NANOS_PER_MILLI;
    assert(before.next_probes() >= 0);
    assert(n >= 0) by {
        vstd::arithmetic::div_mod::lemma_div_pos_is_pos(
            before.next_probes() + effective_cap(before.max_concurrent_probes) - 1,
            effective_cap(before.max_concurrent_probes),
        );
    }
    assert(n <= b);
    assert(n * t <= t * b * 2) by (nonlinear_arith)
        requires
            0 <= n <= b,
            0 <= t,
    ;
}

proof fn host_with_id_has_it(hosts: Seq<Host>, id: u64, n: int)
    requires
        n <= hosts.len(),
    ensures
        match host_with_id(hosts, id, n) {
            Some(h) => 0 <= h < n && hosts[h].id == id,
            None => forall|h: int| 0 <= h < n ==> (#[trigger] hosts[h]).id != id,
        },
    decreases n,
{
    if n > 0 {
        host_with_id_has_it(hosts, id, n - 1);
    }
}

proof fn located_host_has_id(groups: Seq<Group>, id: u64, n: int)
    requires
        n <= groups.len(),
    ensures
        match located(groups, id, n) {
            Some((g, h)) => 0 <= g < n && 0 <= h < groups[g].hosts@.len()
                && groups[g].hosts@[h].id == id,
            None => forall|g: int, h: int|
                0 <= g < n && 0 <= h < groups[g].hosts@.len()
                    ==> (#[trigger] groups[g].hosts@[h]).id != id,
        },
    decreases n,
{
    if n > 0 {
        located_host_has_id(groups, id, n - 1);
        host_with_id_has_it(groups[n - 1].hosts@, id, groups[n - 1].hosts@.len() as int);
    }
}

/// A result reaches no host but one with its id, wherever that host stands.
pub proof fn result_reaches_only_its_host(
    before: App,
    after: App,
    scan_id: u64,
    host_id: u64,
    result: ProbeResult,
    now: Stamp,
    log_time: Seq<char>,
)
    requires
        after.result_recorded(before, scan_id, host_id, result, now, log_time),
    ensures
        after.groups@.len() == before.groups@.len(),
        forall|g: int|
            0 <= g < before.groups@.len() ==> (#[trigger] after.groups@[g]).hosts@.len()
                == before.groups@[g].hosts@.len(),
        forall|g: int, h: int|
            0 <= g < before.groups@.len() && 0 <= h < before.groups@[g].hosts@.len()
                && before.groups@[g].hosts@[h].id != host_id
                ==> #[trigger] after.groups@[g].hosts@[h] == before.groups@[g].hosts@[h],
{
    located_host_has_id(before.groups@, host_id, before.groups@.len() as int);
}

/// A host with the id of a result, if its id is its own, is what the result
/// makes of it.
pub proof fn result_reaches_its_host(
    before: App,
    after: App,
    scan_id: u64,
    host_id: u64,
    result: ProbeResult,
    now: Stamp,
    log_time: Seq<char>,
    g: int,
    h: int,
)
    requires
        after.result_recorded(before, scan_id, host_id, result, now, log_time),
        0 <= g < before.groups@.len(),
        0 <= h < before.groups@[g].hosts@.len(),
        before.groups@[g].hosts@[h].id == host_id,
        forall|i: int, j: int|
            0 <= i < before.groups@.len() && 0 <= j < before.groups@[i].hosts@.len() && (
            #[trigger] before.groups@[i].hosts@[j]).id == host_id ==> i == g && j == h,
    ensures
        after.groups@[g].hosts@[h]@ == probed(
            before.groups@[g].hosts@[h]@,
            result.open_ports@,
            result.latency_ms,
            now,
        ),
{
    located_host_has_id(before.groups@, host_id, before.groups@.len() as int);
}

/// The debug log keeps within its bound, and its newest line is its last.
pub proof fn log_is_bounded(log: Seq<Seq<char>>, line: Seq<char>)
    requires
        log.len() <= DEBUG_LOG_CAP,
    ensures
        logged(log, line).len() <= DEBUG_LOG_CAP,
        logged(log, line).last() == line,
{
}

/// A stalled scan does not stay in progress.
pub proof fn stalled_scan_does_not_stay(
    before: App,
    after: App,
    now: u128,
    stamp: Stamp,
    log_time: Seq<char>,
)
    requires
        before.is_stalled(now),
        after.ticked(before, now, stamp, log_time),
    ensures
        !after.is_scanning,
        after.pending_results == 0,
{
}

/// The job of a host.
pub open spec fn job_of(host: Host, scan_id: u64) -> ScanJob {
    ScanJob { scan_id, host_id: host.id, ip: host.ip }
}

/// The job probes the host at position `h` of the group at position `g`, which
/// has an address.
pub open spec fn probes_host(
    job: ScanJob,
    scan_id: u64,
    groups: Seq<Group>,
    g: int,
    h: int,
) -> bool {
    &&& 0 <= g < groups.len()
    &&& 0 <= h < groups[g].hosts@.len()
    &&& groups[g].hosts@[h].ip@.len() > 0
    &&& job == job_of(groups[g].hosts@[h], scan_id)
}

proof fn host_has_a_job(hosts: Seq<Host>, scan_id: u64, n: int, h: int) -> (j: int)
    requires
        0 <= h < n <= hosts.len(),
        hosts[h].ip@.len() > 0,
    ensures
        0 <= j < host_jobs(hosts, scan_id, n).len(),
        host_jobs(hosts, scan_id, n)[j] == job_of(hosts[h], scan_id),
    decreases n,
{
    if h < n - 1 {
        host_has_a_job(hosts, scan_id, n - 1, h)
    } else {
        host_jobs(hosts, scan_id, n - 1).len() as int
    }
}

proof fn job_has_a_host(hosts: Seq<Host>, scan_id: u64, n: int, j: int) -> (h: int)
    requires
        0 <= n <= hosts.len(),
        0 <= j < host_jobs(hosts, scan_id, n).len(),
    ensures
        0 <= h < n,
        hosts[h].ip@.len() > 0,
        host_jobs(hosts, scan_id, n)[j] == job_of(hosts[h], scan_id),
    decreases n,
{
    if j < host_jobs(hosts, scan_id, n - 1).len() {
        job_has_a_host(hosts, scan_id, n - 1, j)
    } else {
        n - 1
    }
}

proof fn grouped_host_has_a_job(groups: Seq<Group>, scan_id: u64, n: int, g: int, h: int) -> (j:
    int)
    requires
        0 <= g < n <= groups.len(),
        0 <= h < groups[g].hosts@.len(),
        groups[g].hosts@[h].ip@.len() > 0,
    ensures
        0 <= j < scan_jobs(groups, scan_id, n).len(),
        scan_jobs(groups, scan_id, n)[j] == job_of(groups[g].hosts@[h], scan_id),
    decreases n,
{
    if g < n - 1 {
        grouped_host_has_a_job(groups, scan_id, n - 1, g, h)
    } else {
        let hosts = groups[g].hosts@;
        scan_jobs(groups, scan_id, n - 1).len() + host_has_a_job(
            hosts,
            scan_id,
            hosts.len() as int,
            h,
        )
    }
}

proof fn job_has_a_grouped_host(groups: Seq<Group>, scan_id: u64, n: int, j: int) -> (place: (
    int,
    int,
))
    requires
        0 <= n <= groups.len(),
        0 <= j < scan_jobs(groups, scan_id, n).len(),
    ensures
        probes_host(scan_jobs(groups, scan_id, n)[j], scan_id, groups, place.0, place.1),
    decreases n,
{
    let before = scan_jobs(groups, scan_id, n - 1).len();
    if j < before {
        job_has_a_grouped_host(groups, scan_id, n - 1, j)
    } else {
        let hosts = groups[n - 1].hosts@;
        (n - 1, job_has_a_host(hosts, scan_id, hosts.len() as int, j - before))
    }
}

/// A scan probes every host that has an address, on whatever tab it stands and
/// whatever the filter says.
pub proof fn every_host_with_an_address_is_probed(app: App, g: int, h: int)
    requires
        0 <= g < app.groups@.len(),
        0 <= h < app.groups@[g].hosts@.len(),
        app.groups@[g].hosts@[h].ip@.len() > 0,
    ensures
        app.next_jobs().contains(
            job_of(app.groups@[g].hosts@[h], (app.current_scan + 1) as u64),
        ),
{
    let j = grouped_host_has_a_job(
        app.groups@,
        (app.current_scan + 1) as u64,
        app.groups@.len() as int,
        g,
        h,
    );
    assert(app.next_jobs()[j] == job_of(
        app.groups@[g].hosts@[h],
        (app.current_scan + 1) as u64,
    ));
}

/// A scan probes only hosts there are, and only those that have an address.
pub proof fn only_hosts_with_an_address_are_probed(app: App, j: int)
    requires
        0 <= j < app.next_jobs().len(),
    ensures
        exists|g: int, h: int| #[trigger]
            probes_host(
                app.next_jobs()[j],
                (app.current_scan + 1) as u64,
                app.groups@,
                g,
                h,
            ),
{
    let (g, h) = job_has_a_grouped_host(
        app.groups@,
        (app.current_scan + 1) as u64,
        app.groups@.len() as int,
        j,
    );
    assert(probes_host(
        app.next_jobs()[j],
        (app.current_scan + 1) as u64,
        app.groups@,
        g,
        h,
    ));
}

// ── The log and the status line, written out ─────────────────────────────

/// The log has the text of each of its lines.
pub proof fn log_has_each_line(app: App)
    ensures
        app.log_lines().len() == app.debug_log@.len(),
        forall|i: int|
            0 <= i < app.debug_log@.len() ==> #[trigger] app.log_lines()[i] == app.debug_log@[i]@,
{
}

/// A new line comes behind all others. A log of fewer than two hundred lines keeps
/// them all; a longer one loses its first.
pub proof fn log_keeps_two_hundred_lines(log: Seq<Seq<char>>, line: Seq<char>)
    ensures
        logged(log, line).last() == line,
        log.len() < 200 ==> {
            &&& logged(log, line).len() == log.len() + 1
            &&& forall|i: int| 0 <= i < log.len() ==> #[trigger] logged(log, line)[i] == log[i]
        },
        log.len() >= 200 ==> {
            &&& logged(log, line).len() == log.len()
            &&& forall|i: int|
                0 <= i < log.len() - 1 ==> #[trigger] logged(log, line)[i] == log[i + 1]
        },
{
}

/// A line of the log is the time of day to the millisecond, a space and the message.
pub proof fn log_lines_begin_with_the_time(time: Seq<char>, msg: Seq<char>)
    ensures
        log_text(time, msg) == time + seq![' '] + msg,
        log_notation() == "%H:%M:%S%.3f"@,
{
    reveal_strlit(" ");
    assert(" "@ =~= seq![' ']);
}

/// A message is cleared once it has been shown for six seconds, and not before;
/// nothing else changes.
pub proof fn messages_are_shown_for_six_seconds(app: App, now: u128)
    ensures
        app.status_set_at is None ==> app.status_expired(now) == app,
        app.status_set_at matches Some(t) && now < t + 6_000_000_000 ==> app.status_expired(now)
            == app,
        app.status_set_at matches Some(t) && now >= t + 6_000_000_000 ==> {
            let after = app.status_expired(now);
            &&& after.status_message is None
            &&& after.status_set_at is None
            &&& after.groups == app.groups
            &&& after.debug_log == app.debug_log
            &&& same_settings(app, after)
            &&& same_panels(app, after)
            &&& same_scan(app, after)
            &&& same_table(app, after)
        },
{
}

/// There is no countdown during a scan. Otherwise it shows the seconds that are left
/// of the interval, a begun one as a whole one, and nothing once it is over.
pub proof fn countdown_shows_the_seconds_left(app: App, now: u128)
    ensures
        app.is_scanning <==> app.countdown(now) is None,
        app.countdown(now) matches Some(left) ==> {
            let passed = if now >= app.last_scan {
                now - app.last_scan
            } else {
                0
            };
            &&& left == 0 <==> passed >= app.poll_interval * 1_000_000_000
            &&& left > 0 ==> (left - 1) * 1_000_000_000 < app.poll_interval * 1_000_000_000 - passed
                <= left * 1_000_000_000
        },
{
}

/// A periodic scan is due once the interval is over, unless a scan runs.
pub proof fn scans_are_due_after_the_interval(app: App, now: u128)
    ensures
        app.scan_due(now) <==> !app.is_scanning && (app.poll_interval == 0 || now >= app.last_scan
            + app.poll_interval * 1_000_000_000),
        app.scan_due(now) <==> app.countdown(now) == Some(0u64),
{
}

// ── Starting and ending a scan, written out ──────────────────────────────

/// The hosts of all groups, in order.
pub open spec fn all_hosts(groups: Seq<Group>) -> Seq<Host>
    decreases groups.len(),
{
    if groups.len() == 0 {
        seq![]
    } else {
        all_hosts(groups.drop_last()) + groups.last().hosts@
    }
}

/// The jobs of all hosts that have an address, in order.
pub open spec fn jobs_for(hosts: Seq<Host>, scan_id: u64) -> Seq<ScanJob> {
    hosts.filter(|h: Host| h.ip@.len() > 0).map_values(
        |h: Host| ScanJob { scan_id, host_id: h.id, ip: h.ip },
    )
}

proof fn host_jobs_are_for_the_hosts(hosts: Seq<Host>, scan_id: u64, n: int)
    requires
        0 <= n <= hosts.len(),
    ensures
        host_jobs(hosts, scan_id, n) == jobs_for(hosts.take(n), scan_id),
    decreases n,
{
    reveal(Seq::filter);
    if n > 0 {
        host_jobs_are_for_the_hosts(hosts, scan_id, n - 1);
        assert(hosts.take(n).drop_last() =~= hosts.take(n - 1));
        assert(hosts.take(n).last() == hosts[n - 1]);
    }
    assert(host_jobs(hosts, scan_id, n) =~= jobs_for(hosts.take(n), scan_id));
}

proof fn jobs_for_more_hosts(a: Seq<Host>, b: Seq<Host>, scan_id: u64)
    ensures
        jobs_for(a + b, scan_id) == jobs_for(a, scan_id) + jobs_for(b, scan_id),
{
    Seq::filter_distributes_over_add(a, b, |h: Host| h.ip@.len() > 0);
    assert(jobs_for(a + b, scan_id) =~= jobs_for(a, scan_id) + jobs_for(b, scan_id));
}

proof fn scan_jobs_are_for_the_hosts(groups: Seq<Group>, scan_id: u64, n: int)
    requires
        0 <= n <= groups.len(),
    ensures
        scan_jobs(groups, scan_id, n) == jobs_for(all_hosts(groups.take(n)), scan_id),
    decreases n,
{
    reveal(Seq::filter);
    if n > 0 {
        let hosts = groups[n - 1].hosts@;
        scan_jobs_are_for_the_hosts(groups, scan_id, n - 1);
        host_jobs_are_for_the_hosts(hosts, scan_id, hosts.len() as int);
        assert(hosts.take(hosts.len() as int) =~= hosts);
        assert(groups.take(n).drop_last() =~= groups.take(n - 1));
        assert(groups.take(n).last() == groups[n - 1]);
        jobs_for_more_hosts(all_hosts(groups.take(n - 1)), hosts, scan_id);
    } else {
        assert(scan_jobs(groups, scan_id, n) =~= jobs_for(all_hosts(groups.take(n)), scan_id));
    }
}

/// A scan has one job for each host with an address, in the order of groups and
/// hosts, and no other; each has the number of the scan.
pub proof fn jobs_are_those_of_the_hosts_in_order(app: App)
    requires
        app.current_scan < u64::MAX,
    ensures
        app.next_jobs() == all_hosts(app.groups@).filter(|h: Host| h.ip@.len() > 0).map_values(
            |h: Host|
                ScanJob { scan_id: (app.current_scan + 1) as u64, host_id: h.id, ip: h.ip },
        ),
        app.next_probes() == app.next_jobs().len() * app.probe_ports@.len(),
{
    let scan_id = (app.current_scan + 1) as u64;
    scan_jobs_are_for_the_hosts(app.groups@, scan_id, app.groups@.len() as int);
    assert(app.groups@.take(app.groups@.len() as int) =~= app.groups@);
    assert(app.next_jobs() == jobs_for(all_hosts(app.groups@), scan_id));
    assert(jobs_for(all_hosts(app.groups@), scan_id) =~= all_hosts(app.groups@).filter(
        |h: Host| h.ip@.len() > 0,
    ).map_values(
        |h: Host| ScanJob { scan_id: (app.current_scan + 1) as u64, host_id: h.id, ip: h.ip },
    ));
}

/// A scan is given twice the connect timeout for each round of probes that run at
/// the same time, and five seconds. There are just as many rounds as take all
/// probes, at least one; a cap of no probes counts as one.
pub proof fn budget_allows_for_every_round(timeout_ms: u64, probes: int, cap: usize)
    requires
        probes >= 0,
    ensures
        ({
            let n = budget_rounds(probes, cap);
            let at_once = if cap == 0 {
                1
            } else {
                cap as int
            };
            &&& n >= 1
            &&& n * at_once >= probes
            &&& n > 1 ==> (n - 1) * at_once < probes
            &&& scan_budget(timeout_ms, probes, cap) == n * timeout_ms * 2_000_000 + 5_000_000_000
        }),
{
    let c = effective_cap(cap);
    let x = probes + c - 1;
    let q = rounds(probes, c);
    vstd::arithmetic::div_mod::lemma_fundamental_div_mod(x, c);
    vstd::arithmetic::div_mod::lemma_mod_bound(x, c);
    vstd::arithmetic::div_mod::lemma_div_pos_is_pos(x, c);
    assert(x == c * q + x % c);
    assert(q * c == c * q) by (nonlinear_arith);
    assert((q - 1) * c == q * c - c) by (nonlinear_arith);
    let n = budget_rounds(probes, cap);
    if q == 0 {
        assert(c * q == 0) by (nonlinear_arith)
            requires
                q == 0,
        ;
        assert(n * c == c) by (nonlinear_arith)
            requires
                n == 1,
        ;
    }
    assert(timeout_ms * 1_000_000 * n * 2 == n * timeout_ms * 2_000_000) by (nonlinear_arith);
}

/// A scan can be started if there is a number left for it, and if its jobs, its
/// probes and the nanoseconds of its budget can be counted.
pub proof fn scans_can_be_started_that_can_be_counted(app: App)
    ensures
        app.can_scan() <==> {
            &&& app.current_scan < u64::MAX
            &&& app.next_jobs().len() <= usize::MAX
            &&& app.next_jobs().len() * app.probe_ports@.len() <= usize::MAX
            &&& scan_budget(
                app.connect_timeout_ms,
                (app.next_jobs().len() * app.probe_ports@.len()) as int,
                app.max_concurrent_probes,
            ) <= MAX_SPAN_NANOS
        },
{
}

/// A scan that is started has the next number, waits for one result for each job,
/// and is given its budget from now on. What is shown and known of hosts stays.
pub proof fn started_scans_wait_for_their_results(
    before: App,
    after: App,
    now: u128,
    stamp: Stamp,
    log_time: Seq<char>,
)
    requires
        before.can_scan(),
        now <= MAX_SPAN_NANOS,
        after.scan_begun(before, now, stamp, log_time),
    ensures
        after.current_scan == before.current_scan + 1,
        after.last_scan == now,
        after.pending_results == before.next_jobs().len(),
        after.is_scanning <==> before.next_jobs().len() > 0,
        before.next_jobs().len() > 0 ==> {
            &&& after.scan_deadline matches Some(deadline)
            &&& deadline == now + scan_budget(
                before.connect_timeout_ms,
                (before.next_jobs().len() * before.probe_ports@.len()) as int,
                before.max_concurrent_probes,
            )
            &&& after.last_poll == before.last_poll
            &&& same_message(before, after)
        },
        before.next_jobs().len() == 0 ==> {
            &&& after.scan_deadline is None
            &&& after.last_poll == Some(stamp)
        },
        after.groups == before.groups,
        same_settings(before, after),
        same_panels(before, after),
        same_table(before, after),
        !before.show_debug ==> after.debug_log == before.debug_log,
        before.show_debug ==> after.log_lines() == logged(
            before.log_lines(),
            log_time + seq![' '] + scan_note(
                after.current_scan,
                before.next_jobs().len() as int,
                before.max_concurrent_probes,
                before.next_budget(),
            ),
        ),
{
    log_lines_begin_with_the_time(
        log_time,
        scan_note(
            after.current_scan,
            before.next_jobs().len() as int,
            before.max_concurrent_probes,
            before.next_budget(),
        ),
    );
    budget_allows_for_every_round(
        before.connect_timeout_ms,
        before.next_probes(),
        before.max_concurrent_probes,
    );
    let n = budget_rounds(before.next_probes(), before.max_concurrent_probes);
    let t = before.connect_timeout_ms;
    assert(n * t >= 0) by (nonlinear_arith)
        requires
            n >= 1,
            t >= 0,
    ;
}

/// What the log says of scans and results.
pub proof fn notes_tell_what_happened(
    scan_id: u64,
    hosts: int,
    cap: usize,
    budget: int,
    host_id: u64,
    host: HostView,
    missing: usize,
)
    ensures
        scan_note(scan_id, hosts, cap, budget) == "spawn_scan #"@ + decimal(scan_id as nat) + ": "@
            + decimal(hosts as nat) + " hosts, cap="@ + decimal(cap as nat) + ", budget="@ + decimal(
            (budget / 1_000_000_000) as nat,
        ) + "s"@,
        result_note(host_id, host) == "PortResult id="@ + decimal(host_id as nat) + " "@ + host.name
            + " "@ + host.status.symbol_text() + " ports=["@ + joined_ports(host.open_ports, ","@)
            + "]"@,
        dropped_note(host_id) == "PortResult id="@ + decimal(host_id as nat)
            + " DROPPED (no host)"@,
        watchdog_note(missing) == "scan watchdog fired: "@ + decimal(missing as nat)
            + " result(s) never arrived"@,
{
}

/// A finished scan waits for nothing; the time is noted; and the message that a scan
/// runs, no other, is taken away. What is shown and known of hosts stays.
pub proof fn finished_scans_wait_for_nothing(app: App, now: Stamp)
    ensures
        ({
            let after = app.scan_finished(now);
            &&& !after.is_scanning
            &&& after.pending_results == 0
            &&& after.scan_deadline is None
            &&& after.last_poll == Some(now)
            &&& after.current_scan == app.current_scan
            &&& after.last_scan == app.last_scan
            &&& (app.status_message matches Some(msg) && msg@ == "Rescanning..."@)
                ==> after.status_message is None && after.status_set_at is None
            &&& !(app.status_message matches Some(msg) && msg@ == "Rescanning..."@)
                ==> same_message(app, after)
            &&& after.groups == app.groups
            &&& after.debug_log == app.debug_log
            &&& same_settings(app, after)
            &&& same_panels(app, after)
            &&& same_table(app, after)
        }),
{
}

// ── Results and ticks, written out ───────────────────────────────────────

/// A result of the current scan makes one less to wait for, and the last one ends
/// the scan. A result changes no setting and nothing of what is shown but the host.
pub proof fn results_are_counted(
    before: App,
    after: App,
    scan_id: u64,
    host_id: u64,
    result: ProbeResult,
    now: Stamp,
    log_time: Seq<char>,
)
    requires
        after.result_recorded(before, scan_id, host_id, result, now, log_time),
    ensures
        scan_id != before.current_scan || before.pending_results == 0 ==> same_scan(before, after)
            && same_message(before, after),
        scan_id == before.current_scan && before.pending_results > 1 ==> {
            &&& after.pending_results == before.pending_results - 1
            &&& after.is_scanning == before.is_scanning
            &&& after.scan_deadline == before.scan_deadline
            &&& after.last_poll == before.last_poll
            &&& same_message(before, after)
        },
        scan_id == before.current_scan && before.pending_results == 1 ==> {
            &&& after.pending_results == 0
            &&& !after.is_scanning
            &&& after.scan_deadline is None
            &&& after.last_poll == Some(now)
        },
        after.current_scan == before.current_scan,
        after.last_scan == before.last_scan,
        same_settings(before, after),
        same_panels(before, after),
        same_table(before, after),
{
}

/// A result for the host at a place, the first with its id, makes it what the probe
/// found, and the log tells of it if it is open.
pub proof fn results_are_noted_of_their_host(
    before: App,
    after: App,
    scan_id: u64,
    host_id: u64,
    result: ProbeResult,
    now: Stamp,
    log_time: Seq<char>,
    g: int,
    h: int,
)
    requires
        after.result_recorded(before, scan_id, host_id, result, now, log_time),
        0 <= g < before.groups@.len(),
        0 <= h < before.groups@[g].hosts@.len(),
        before.groups@[g].hosts@[h].id == host_id,
        forall|k: int, j: int|
            0 <= k <= g && 0 <= j < before.groups@[k].hosts@.len() && (k < g || j < h) ==> (
            #[trigger] before.groups@[k].hosts@[j]).id != host_id,
    ensures
        after.groups@[g].hosts@[h].open_ports@ == result.open_ports@,
        after.groups@[g].hosts@[h].latency_ms == Some(result.latency_ms),
        after.groups@[g].hosts@[h].last_checked == Some(now),
        result.open_ports@.len() > 0 ==> {
            &&& after.groups@[g].hosts@[h].status == HostStatus::Up
            &&& after.groups@[g].hosts@[h].last_seen == Some(now)
            &&& after.groups@[g].hosts@[h].consecutive_failures == 0
        },
        result.open_ports@.len() == 0 ==> after.groups@[g].hosts@[h].last_seen
            == before.groups@[g].hosts@[h].last_seen,
        !before.show_debug ==> after.log_lines() == before.log_lines(),
        before.show_debug ==> after.log_lines() == logged(
            before.log_lines(),
            log_time + seq![' '] + result_note(host_id, after.groups@[g].hosts@[h]@),
        ),
{
    hosts_are_found_by_id(before, host_id);
    let found = before.host_place(host_id);
    assert(found is Some) by {
        if found is None {
            assert(before.groups@[g].hosts@[h].id != host_id);
        }
    }
    let (a, b) = found->0;
    assert(a == g && b == h) by {
        assert(before.groups@[a].hosts@[b].id == host_id);
        assert(before.groups@[g].hosts@[h].id == host_id);
    }
    log_lines_begin_with_the_time(log_time, result_note(host_id, after.groups@[g].hosts@[h]@));
}

/// A result for a host that is gone changes no host; the log tells of it.
pub proof fn results_of_nobody_are_noted(
    before: App,
    after: App,
    scan_id: u64,
    host_id: u64,
    result: ProbeResult,
    now: Stamp,
    log_time: Seq<char>,
)
    requires
        after.result_recorded(before, scan_id, host_id, result, now, log_time),
        forall|k: int, j: int|
            0 <= k < before.groups@.len() && 0 <= j < before.groups@[k].hosts@.len() ==> (
            #[trigger] before.groups@[k].hosts@[j]).id != host_id,
    ensures
        after.groups == before.groups,
        after.log_lines() == logged(
            before.log_lines(),
            log_time + seq![' '] + dropped_note(host_id),
        ),
{
    hosts_are_found_by_id(before, host_id);
    log_lines_begin_with_the_time(log_time, dropped_note(host_id));
}

/// Every result can be recorded but one without an open port for a host whose
/// failures cannot be counted on.
pub proof fn results_can_be_recorded(app: App, host_id: u64, open_ports: Seq<u16>)
    ensures
        open_ports.len() > 0 ==> app.can_record(host_id, open_ports),
        (forall|k: int, j: int|
            0 <= k < app.groups@.len() && 0 <= j < app.groups@[k].hosts@.len() && (
            #[trigger] app.groups@[k].hosts@[j]).id == host_id
                ==> app.groups@[k].hosts@[j].consecutive_failures < u32::MAX) ==> app.can_record(
            host_id,
            open_ports,
        ),
{
    hosts_are_found_by_id(app, host_id);
    if let Some((g, h)) = app.host_place(host_id) {
        assert(app.groups@[g].hosts@[h].id == host_id);
    }
}

/// A scan is given up once its deadline has come, and not before; the log tells how
/// many results are missing.
pub proof fn scans_are_given_up_at_their_deadline(
    before: App,
    after: App,
    now: u128,
    stamp: Stamp,
    log_time: Seq<char>,
)
    requires
        after.stalled_scan_ended(before, now, stamp, log_time),
    ensures
        before.is_scanning && (before.scan_deadline matches Some(deadline) && now >= deadline) ==> {
            &&& !after.is_scanning
            &&& after.pending_results == 0
            &&& after.scan_deadline is None
            &&& after.last_poll == Some(stamp)
            &&& after.current_scan == before.current_scan
            &&& after.last_scan == before.last_scan
            &&& after.groups == before.groups
            &&& after.log_lines() == logged(
                before.log_lines(),
                log_time + seq![' '] + watchdog_note(before.pending_results),
            )
            &&& same_settings(before, after)
            &&& same_panels(before, after)
            &&& same_table(before, after)
        },
        !(before.is_scanning && (before.scan_deadline matches Some(deadline) && now >= deadline))
            ==> after == before,
{
    log_lines_begin_with_the_time(log_time, watchdog_note(before.pending_results));
}

/// A tick gives up a scan whose deadline has come and clears a message that has been
/// shown for six seconds. It changes nothing else.
pub proof fn ticks_end_what_is_over(
    before: App,
    after: App,
    now: u128,
    stamp: Stamp,
    log_time: Seq<char>,
)
    requires
        after.ticked(before, now, stamp, log_time),
    ensures
        before.is_scanning && (before.scan_deadline matches Some(deadline) && now >= deadline) ==> {
            &&& !after.is_scanning
            &&& after.pending_results == 0
            &&& after.scan_deadline is None
            &&& after.last_poll == Some(stamp)
            &&& after.current_scan == before.current_scan
            &&& after.last_scan == before.last_scan
            &&& after.log_lines() == logged(
                before.log_lines(),
                log_time + seq![' '] + watchdog_note(before.pending_results),
            )
        },
        !(before.is_scanning && (before.scan_deadline matches Some(deadline) && now >= deadline))
            ==> {
            &&& same_scan(before, after)
            &&& after.debug_log == before.debug_log
            &&& (before.status_set_at matches Some(t) ==> now < t + 6_000_000_000) ==> same_message(
                before,
                after,
            )
        },
        before.status_set_at matches Some(t) && now >= t + 6_000_000_000 ==> after.status_message is None
            && after.status_set_at is None,
        after.groups == before.groups,
        same_settings(before, after),
        same_panels(before, after),
        same_table(before, after),
{
    log_lines_begin_with_the_time(log_time, watchdog_note(before.pending_results));
}

/// The outcome of an export stands in the status line from now on; the log tells of
/// an error. Nothing else changes.
pub proof fn exports_are_told_of(
    before: App,
    after: App,
    outcome: Result<String, String>,
    now: u128,
    log_time: Seq<char>,
)
    requires
        after.export_reported(before, outcome, now, log_time),
    ensures
        after.status_set_at == Some(now),
        outcome matches Ok(path) ==> {
            &&& after.status_message matches Some(msg)
            &&& msg@ == "Exported "@ + path@
            &&& after.debug_log == before.debug_log
        },
        outcome matches Err(err) ==> {
            &&& after.status_message matches Some(msg)
            &&& msg@ == "Export failed: "@ + err@
            &&& after.log_lines() == logged(
                before.log_lines(),
                log_time + seq![' '] + ("export error: "@ + err@),
            )
        },
        after.groups == before.groups,
        same_settings(before, after),
        same_panels(before, after),
        same_scan(before, after),
        same_table(before, after),
{
    if let Err(err) = outcome {
        log_lines_begin_with_the_time(log_time, "export error: "@ + err@);
    }
}

} // verus!
