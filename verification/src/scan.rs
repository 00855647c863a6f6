//! Scans: starting one, counting its results, giving one up; the status line
//! and the debug log that go with it.

use crate::app::{host_replaced, App, Group, Host, DEBUG_LOG_CAP};
use crate::clock::{Stamp, NANOS_PER_SEC, MAX_SPAN_NANOS};
use crate::host::{text_of, HostView};
use crate::network::{probed, ProbeResult};
use crate::text::{decimal, join_ports, joined_ports, push_decimal, same, texts, texts_push};
use vstd::prelude::*;

verus! {

/// How long a transient status-bar message stays before auto-clearing, in
/// nanoseconds.
pub const STATUS_TTL: u128 = 6_000_000_000;

/// Nanoseconds in a millisecond.
pub const NANOS_PER_MILLI: u128 = 1_000_000;

/// The slack that a scan is given beyond what it may need, in nanoseconds.
pub const SCAN_SLACK: u128 = 5_000_000_000;

/// A host to probe as part of a scan.
#[derive(Debug)]
pub struct ScanJob {
    pub scan_id: u64,
    pub host_id: u64,
    pub ip: String,
}

// ── Debug log ────────────────────────────────────────────────────────────

/// The log with one more line; the oldest leaves when the log is full.
pub open spec fn logged(log: Seq<Seq<char>>, line: Seq<char>) -> Seq<Seq<char>> {
    (if log.len() >= DEBUG_LOG_CAP {
        log.drop_first()
    } else {
        log
    }).push(line)
}

/// A line of the log.
pub open spec fn log_text(time: Seq<char>, msg: Seq<char>) -> Seq<char> {
    time + " "@ + msg
}

/// The notation of the times in the log.
pub open spec fn log_notation() -> Seq<char> {
    "%H:%M:%S%.3f"@
}

impl App {
    /// The lines of the debug log.
    pub open spec fn log_lines(self) -> Seq<Seq<char>> {
        texts(self.debug_log@)
    }

    /// Appends a timestamped line to the debug ring buffer.
    pub fn log_debug(&mut self, msg: &str)
        ensures
            exists|now: Stamp|
                now.is_valid() && final(self).log_lines() == logged(
                    old(self).log_lines(),
                    log_text(#[trigger] now.text(log_notation()), msg@),
                ),
            *final(self) == (App { debug_log: final(self).debug_log, ..*old(self) }),
    {
        let now = Stamp::now();
        let time = now.format("%H:%M:%S%.3f");
        self.log_line(time.as_str(), msg);
        assert(time@ == now.text(log_notation()));
    }

    /// Appends a line with the given time to the debug ring buffer.
    pub fn log_line(&mut self, time: &str, msg: &str)
        ensures
            final(self).log_lines() == logged(old(self).log_lines(), log_text(time@, msg@)),
            *final(self) == (App { debug_log: final(self).debug_log, ..*old(self) }),
    {
        let mut line = time.to_string();
        line.append(" ");
        line.append(msg);
        if self.debug_log.len() >= DEBUG_LOG_CAP {
            let _ = self.debug_log.pop_front();
            assert(texts(self.debug_log@) =~= old(self).log_lines().drop_first());
        }
        proof {
            texts_push(self.debug_log@, line);
        }
        self.debug_log.push_back(line);
    }

    // ── Status line ──────────────────────────────────────────────────────

    /// Shows a message in the status bar, from now on.
    pub fn set_status(&mut self, msg: &str)
        ensures
            text_of(final(self).status_message) == Some(msg@),
            final(self).status_set_at matches Some(now) && now <= MAX_SPAN_NANOS,
            *final(self) == (App {
                status_message: final(self).status_message,
                status_set_at: final(self).status_set_at,
                ..*old(self)
            }),
    {
        let now: u128 = self.clock.nanos();
        self.set_status_at(msg, now);
    }

    /// Shows a message in the status bar, from the given time on.
    pub fn set_status_at(&mut self, msg: &str, now: u128)
        ensures
            text_of(final(self).status_message) == Some(msg@),
            *final(self) == (App {
                status_message: final(self).status_message,
                status_set_at: Some(now),
                ..*old(self)
            }),
    {
        self.status_message = Some(msg.to_string());
        self.status_set_at = Some(now);
    }

    /// The state after an old status message has been cleared.
    pub open spec fn status_expired(self, now: u128) -> App {
        if self.status_set_at matches Some(t) && span(t, now) >= STATUS_TTL {
            App { status_message: None, status_set_at: None, ..self }
        } else {
            self
        }
    }

    /// Clears the status message once it has been shown long enough. Call each
    /// loop tick.
    pub fn expire_status(&mut self)
        ensures
            exists|now: u128|
                now <= MAX_SPAN_NANOS && *final(self) == #[trigger] old(self).status_expired(now),
    {
        let now: u128 = self.clock.nanos();
        self.expire_status_at(now);
    }

    /// Clears the status message if it has been shown long enough by the given time.
    pub fn expire_status_at(&mut self, now: u128)
        ensures
            *final(self) == old(self).status_expired(now),
    {
        if let Some(t) = self.status_set_at {
            if elapsed(t, now) >= STATUS_TTL {
                self.status_message = None;
                self.status_set_at = None;
            }
        }
    }

    // ── Schedule ─────────────────────────────────────────────────────────

    /// Seconds until the next periodic scan, by the given time.
    pub open spec fn countdown(self, now: u128) -> Option<u64> {
        if self.is_scanning {
            None
        } else {
            let secs = span(self.last_scan, now) / (NANOS_PER_SEC as int);
            Some(if secs >= self.poll_interval {
                0
            } else {
                (self.poll_interval - secs) as u64
            })
        }
    }

    /// Seconds until the next periodic scan, or None while scanning.
    pub fn seconds_until_next_scan(&self) -> (r: Option<u64>)
        ensures
            exists|now: u128| now <= MAX_SPAN_NANOS && r == #[trigger] self.countdown(now),
    {
        let now: u128 = self.clock.nanos();
        self.seconds_until_next_scan_at(now)
    }

    /// Seconds until the next periodic scan, by the given time, or None while
    /// scanning.
    pub fn seconds_until_next_scan_at(&self, now: u128) -> (r: Option<u64>)
        ensures
            r == self.countdown(now),
    {
        if self.is_scanning {
            return None;
        }
        let secs: u128 = elapsed(self.last_scan, now) / NANOS_PER_SEC;
        if secs >= self.poll_interval as u128 {
            Some(0)
        } else {
            Some(self.poll_interval - secs as u64)
        }
    }

    /// A periodic scan is due at the given time.
    pub open spec fn scan_due(self, now: u128) -> bool {
        !self.is_scanning && span(self.last_scan, now) >= self.poll_interval * NANOS_PER_SEC
    }

    /// Whether a periodic scan is due at the given time.
    pub fn rescan_due_at(&self, now: u128) -> (r: bool)
        ensures
            r == self.scan_due(now),
    {
        !self.is_scanning && elapsed(self.last_scan, now) >= (self.poll_interval as u128)
            * NANOS_PER_SEC
    }
}

/// The span from `since` to `now`; none if `now` is the earlier one.
pub open spec fn span(since: u128, now: u128) -> int {
    if now >= since {
        now - since
    } else {
        0
    }
}

/// The span from `since` to `now`; none if `now` is the earlier one.
fn elapsed(since: u128, now: u128) -> (r: u128)
    ensures
        r == span(since, now),
{
    if now >= since {
        now - since
    } else {
        0
    }
}

// ── Scans ────────────────────────────────────────────────────────────────

/// The jobs for the first `n` hosts: a host without an address is not probed.
pub open spec fn host_jobs(hosts: Seq<Host>, scan_id: u64, n: int) -> Seq<ScanJob>
    decreases n,
{
    if n <= 0 {
        seq![]
    } else if hosts[n - 1].ip@.len() == 0 {
        host_jobs(hosts, scan_id, n - 1)
    } else {
        host_jobs(hosts, scan_id, n - 1).push(
            ScanJob { scan_id, host_id: hosts[n - 1].id, ip: hosts[n - 1].ip },
        )
    }
}

/// The jobs for the hosts of the first `n` groups.
pub open spec fn scan_jobs(groups: Seq<Group>, scan_id: u64, n: int) -> Seq<ScanJob>
    decreases n,
{
    if n <= 0 {
        seq![]
    } else {
        scan_jobs(groups, scan_id, n - 1) + host_jobs(
            groups[n - 1].hosts@,
            scan_id,
            groups[n - 1].hosts@.len() as int,
        )
    }
}

/// How many rounds `probes` probes take, `cap` at a time.
pub open spec fn rounds(probes: int, cap: int) -> int {
    (probes + cap - 1) / cap
}

/// The cap on simultaneous probes, which is never below one.
pub open spec fn effective_cap(cap: usize) -> int {
    if cap == 0 {
        1
    } else {
        cap as int
    }
}

/// The rounds that a scan's budget allows for: all that its probes take, at least
/// one.
pub open spec fn budget_rounds(probes: int, cap: usize) -> int {
    let n = rounds(probes, effective_cap(cap));
    if n == 0 {
        1
    } else {
        n
    }
}

/// What a scan is given before it counts as stalled, in nanoseconds: twice the
/// time that all probes take if each one runs into the timeout, and some slack.
pub open spec fn scan_budget(timeout_ms: u64, probes: int, cap: usize) -> int {
    timeout_ms * NANOS_PER_MILLI * budget_rounds(probes, cap) * 2 + SCAN_SLACK
}

/// The message that stands in the status bar while a scan on request runs.
pub open spec fn rescanning() -> Seq<char> {
    "Rescanning..."@
}

impl App {
    /// The jobs of the next scan.
    pub open spec fn next_jobs(self) -> Seq<ScanJob> {
        scan_jobs(self.groups@, (self.current_scan + 1) as u64, self.groups@.len() as int)
    }

    /// The number of probes of the next scan.
    pub open spec fn next_probes(self) -> int {
        (self.next_jobs().len() * self.probe_ports@.len()) as int
    }

    /// The budget of the next scan.
    pub open spec fn next_budget(self) -> int {
        scan_budget(self.connect_timeout_ms, self.next_probes(), self.max_concurrent_probes)
    }

    /// A scan can be counted and timed: its number, its results and probes, and
    /// its budget fit their types.
    pub open spec fn can_scan(self) -> bool {
        &&& self.current_scan < u64::MAX
        &&& self.next_jobs().len() <= usize::MAX
        &&& self.next_probes() <= usize::MAX
        &&& self.next_budget() <= MAX_SPAN_NANOS
    }

    /// The state after the scan in progress has been marked finished.
    pub open spec fn scan_finished(self, now: Stamp) -> App {
        let done = App {
            is_scanning: false,
            pending_results: 0,
            scan_deadline: None,
            last_poll: Some(now),
            ..self
        };
        if text_of(self.status_message) == Some(rescanning()) {
            App { status_message: None, status_set_at: None, ..done }
        } else {
            done
        }
    }

    /// Marks the in-progress scan finished and stamps the poll time.
    pub fn finish_scan(&mut self)
        ensures
            final(self).last_poll matches Some(now) && now.is_valid(),
            *final(self) == old(self).scan_finished(final(self).last_poll->0),
    {
        self.finish_scan_at(Stamp::now());
    }

    /// Marks the in-progress scan finished at the given time.
    pub fn finish_scan_at(&mut self, now: Stamp)
        ensures
            *final(self) == old(self).scan_finished(now),
    {
        self.is_scanning = false;
        self.pending_results = 0;
        self.scan_deadline = None;
        self.last_poll = Some(now);
        let waiting = match &self.status_message {
            Some(msg) => same(msg.as_str(), "Rescanning..."),
            None => false,
        };
        if waiting {
            self.status_message = None;
            self.status_set_at = None;
        }
    }
}

/// Rounding a quotient up, by quotient and remainder.
proof fn rounds_by_remainder(probes: int, cap: int)
    requires
        probes >= 0,
        cap > 0,
    ensures
        rounds(probes, cap) == probes / cap + if probes % cap != 0 {
            1int
        } else {
            0int
        },
        0 <= probes / cap,
        probes % cap != 0 ==> probes / cap < probes,
{
    vstd::arithmetic::div_mod::lemma_fundamental_div_mod(probes, cap);
    vstd::arithmetic::div_mod::lemma_mod_bound(probes, cap);
    vstd::arithmetic::div_mod::lemma_div_pos_is_pos(probes, cap);
    let q = probes / cap;
    let r = probes % cap;
    assert(cap * q == q * cap) by (nonlinear_arith);
    if r == 0 {
        assert(probes + cap - 1 == q * cap + (cap - 1));
        vstd::arithmetic::div_mod::lemma_fundamental_div_mod_converse(
            probes + cap - 1,
            cap,
            q,
            cap - 1,
        );
    } else {
        assert((q + 1) * cap == q * cap + cap) by (nonlinear_arith);
        assert(probes + cap - 1 == (q + 1) * cap + (r - 1));
        vstd::arithmetic::div_mod::lemma_fundamental_div_mod_converse(
            probes + cap - 1,
            cap,
            q + 1,
            r - 1,
        );
        assert(q <= cap * q) by (nonlinear_arith)
            requires
                cap >= 1,
                q >= 0,
        ;
    }
}

/// The budget of a scan, in nanoseconds, if it is a span that can be measured.
fn compute_budget(timeout_ms: u64, probes: usize, cap: usize) -> (r: Option<u128>)
    ensures
        match r {
            Some(budget) => budget == scan_budget(timeout_ms, probes as int, cap) && budget
                <= MAX_SPAN_NANOS,
            None => scan_budget(timeout_ms, probes as int, cap) > MAX_SPAN_NANOS,
        },
{
    let ghost given = cap;
    let cap: usize = if cap == 0 {
        1
    } else {
        cap
    };
    proof {
        rounds_by_remainder(probes as int, cap as int);
    }
    let n: usize = probes / cap + if probes % cap != 0 {
        1
    } else {
        0
    };
    assert(n == rounds(probes as int, cap as int));
    let batches: usize = if n == 0 {
        1
    } else {
        n
    };
    assert(batches == budget_rounds(probes as int, given));
    let twice: u128 = (timeout_ms as u128) * NANOS_PER_MILLI * 2;
    assert(timeout_ms * NANOS_PER_MILLI * batches * 2 == twice * batches) by (nonlinear_arith)
        requires
            twice == timeout_ms * NANOS_PER_MILLI * 2,
    ;
    match twice.checked_mul(batches as u128) {
        Some(span) => {
            if span <= MAX_SPAN_NANOS - SCAN_SLACK {
                Some(span + SCAN_SLACK)
            } else {
                None
            }
        },
        None => None,
    }
}

/// The jobs for the hosts of one group.
fn jobs_of(hosts: &Vec<Host>, scan_id: u64) -> (r: Vec<ScanJob>)
    ensures
        r@ == host_jobs(hosts@, scan_id, hosts@.len() as int),
{
    let mut jobs: Vec<ScanJob> = Vec::new();
    for h in 0..hosts.len()
        invariant
            jobs@ == host_jobs(hosts@, scan_id, h as int),
    {
        let host = &hosts[h];
        if !host.ip.as_str().is_empty() {
            jobs.push(ScanJob { scan_id, host_id: host.id, ip: host.ip.clone() });
        }
    }
    jobs
}

/// What the debug log says of a scan that was started.
pub open spec fn scan_note(scan_id: u64, hosts: int, cap: usize, budget: int) -> Seq<char> {
    "spawn_scan #"@ + decimal(scan_id as nat) + ": "@ + decimal(hosts as nat) + " hosts, cap="@
        + decimal(cap as nat) + ", budget="@ + decimal((budget / (NANOS_PER_SEC as int)) as nat)
        + "s"@
}

impl App {
    /// The jobs of a scan.
    fn collect_jobs(&self, scan_id: u64) -> (r: Vec<ScanJob>)
        ensures
            r@ == scan_jobs(self.groups@, scan_id, self.groups@.len() as int),
    {
        let mut jobs: Vec<ScanJob> = Vec::new();
        for g in 0..self.groups.len()
            invariant
                jobs@ == scan_jobs(self.groups@, scan_id, g as int),
        {
            let mut more = jobs_of(&self.groups[g].hosts, scan_id);
            jobs.append(&mut more);
        }
        jobs
    }

    /// Whether the next scan can be counted and timed.
    pub fn scan_fits(&self) -> (r: bool)
        ensures
            r == self.can_scan(),
    {
        if self.current_scan == u64::MAX {
            return false;
        }
        let jobs = self.collect_jobs(self.current_scan + 1);
        match jobs.len().checked_mul(self.probe_ports.len()) {
            Some(probes) => {
                compute_budget(
                    self.connect_timeout_ms,
                    probes,
                    self.max_concurrent_probes,
                ).is_some()
            },
            None => false,
        }
    }

    /// `self` is `before` with its next scan started at the given times; a scan
    /// of no host is finished at once.
    pub open spec fn scan_begun(self, before: App, now: u128, stamp: Stamp, log_time: Seq<char>) -> bool {
        let jobs = before.next_jobs().len();
        let started = App {
            current_scan: (before.current_scan + 1) as u64,
            is_scanning: true,
            last_scan: now,
            pending_results: jobs as usize,
            scan_deadline: Some((now + before.next_budget()) as u128),
            debug_log: self.debug_log,
            ..before
        };
        &&& self.log_lines() == if before.show_debug {
            logged(
                before.log_lines(),
                log_text(
                    log_time,
                    scan_note(
                        (before.current_scan + 1) as u64,
                        jobs as int,
                        before.max_concurrent_probes,
                        before.next_budget(),
                    ),
                ),
            )
        } else {
            before.log_lines()
        }
        &&& !before.show_debug ==> self.debug_log == before.debug_log
        &&& self == if jobs == 0 {
            started.scan_finished(stamp)
        } else {
            started
        }
    }

    /// Starts a scan of all configured hosts: hands out one job per host with an
    /// address. Results are reported by `record_result`.
    pub fn begin_scan(&mut self) -> (r: Vec<ScanJob>)
        requires
            old(self).can_scan(),
        ensures
            r@ == old(self).next_jobs(),
            exists|now: u128, stamp: Stamp|
                now <= MAX_SPAN_NANOS && stamp.is_valid() && #[trigger] final(self).scan_begun(
                    *old(self),
                    now,
                    stamp,
                    stamp.text(log_notation()),
                ),
    {
        let now: u128 = self.clock.nanos();
        let stamp = Stamp::now();
        let log_time = stamp.format("%H:%M:%S%.3f");
        let r = self.begin_scan_at(now, stamp, log_time.as_str());
        assert(self.scan_begun(*old(self), now, stamp, stamp.text(log_notation())));
        r
    }

    /// Starts a scan of all configured hosts at the given times: `now` by the
    /// monotonic clock, `stamp` by the wall clock, `log_time` as the log shows it.
    pub fn begin_scan_at(&mut self, now: u128, stamp: Stamp, log_time: &str) -> (r: Vec<ScanJob>)
        requires
            old(self).can_scan(),
            now <= MAX_SPAN_NANOS,
        ensures
            r@ == old(self).next_jobs(),
            final(self).scan_begun(*old(self), now, stamp, log_time@),
    {
        let scan_id: u64 = self.current_scan + 1;
        let jobs = self.collect_jobs(scan_id);
        let probes: usize = jobs.len() * self.probe_ports.len();
        let budget: u128 = compute_budget(
            self.connect_timeout_ms,
            probes,
            self.max_concurrent_probes,
        ).unwrap();
        self.current_scan = scan_id;
        self.is_scanning = true;
        self.last_scan = now;
        self.pending_results = jobs.len();
        self.scan_deadline = Some(now + budget);
        if self.show_debug {
            let mut note = "spawn_scan #".to_string();
            push_decimal(&mut note, scan_id);
            note.append(": ");
            push_decimal(&mut note, jobs.len() as u64);
            note.append(" hosts, cap=");
            push_decimal(&mut note, self.max_concurrent_probes as u64);
            note.append(", budget=");
            push_decimal(&mut note, (budget / NANOS_PER_SEC) as u64);
            note.append("s");
            self.log_line(log_time, note.as_str());
        }
        if jobs.len() == 0 {
            // Nothing to scan: do not sit flagged as scanning.
            self.finish_scan_at(stamp);
        }
        jobs
    }
}

// ── Results ──────────────────────────────────────────────────────────────

/// What the debug log says of a result that reached its host.
pub open spec fn result_note(host_id: u64, host: HostView) -> Seq<char> {
    "PortResult id="@ + decimal(host_id as nat) + " "@ + host.name + " "@
        + host.status.symbol_text() + " ports=["@ + joined_ports(host.open_ports, ","@) + "]"@
}

/// What the debug log says of a result whose host is gone.
pub open spec fn dropped_note(host_id: u64) -> Seq<char> {
    "PortResult id="@ + decimal(host_id as nat) + " DROPPED (no host)"@
}

/// What the debug log says of a scan that was given up.
pub open spec fn watchdog_note(missing: usize) -> Seq<char> {
    "scan watchdog fired: "@ + decimal(missing as nat) + " result(s) never arrived"@
}

impl App {
    /// The state after a result of the given scan has been counted: only the
    /// current scan's results count toward its end.
    pub open spec fn result_counted(self, scan_id: u64, now: Stamp) -> App {
        if scan_id == self.current_scan && self.pending_results > 0 {
            let counted = App { pending_results: (self.pending_results - 1) as usize, ..self };
            if counted.pending_results == 0 {
                counted.scan_finished(now)
            } else {
                counted
            }
        } else {
            self
        }
    }

    /// The host that a result is for can count one more failure.
    pub open spec fn can_record(self, host_id: u64, open_ports: Seq<u16>) -> bool {
        self.host_place(host_id) matches Some((g, h)) ==> open_ports.len() == 0
            ==> self.groups@[g].hosts@[h].consecutive_failures < u32::MAX
    }

    /// `self` is `before` with the result applied to the host with the given id,
    /// if there is one, noted in the log, and counted.
    pub open spec fn result_recorded(
        self,
        before: App,
        scan_id: u64,
        host_id: u64,
        result: ProbeResult,
        now: Stamp,
        log_time: Seq<char>,
    ) -> bool {
        &&& match before.host_place(host_id) {
            Some((g, h)) => {
                let host = self.groups@[g].hosts@[h];
                &&& host_replaced(before.groups@, self.groups@, g, h, host)
                &&& host@ == probed(
                    before.groups@[g].hosts@[h]@,
                    result.open_ports@,
                    result.latency_ms,
                    now,
                )
                &&& self.log_lines() == if before.show_debug {
                    logged(before.log_lines(), log_text(log_time, result_note(host_id, host@)))
                } else {
                    before.log_lines()
                }
            },
            None => {
                &&& self.groups == before.groups
                &&& self.log_lines() == logged(
                    before.log_lines(),
                    log_text(log_time, dropped_note(host_id)),
                )
            },
        }
        &&& self == (App {
            groups: self.groups,
            debug_log: self.debug_log,
            ..before
        }).result_counted(scan_id, now)
    }

    /// Whether the host that a result is for can count one more failure.
    pub fn result_fits(&self, host_id: u64, result: &ProbeResult) -> (r: bool)
        ensures
            r == self.can_record(host_id, result.open_ports@),
    {
        match self.find_host(host_id) {
            Some((g, h)) => result.open_ports.len() > 0
                || self.groups[g].hosts[h].consecutive_failures < u32::MAX,
            None => true,
        }
    }

    /// Takes in the result of a job, now. Late results from a superseded scan
    /// still carry valid data, so they are applied, by stable host id, too.
    pub fn record_result(&mut self, scan_id: u64, host_id: u64, result: ProbeResult)
        requires
            old(self).can_record(host_id, result.open_ports@),
        ensures
            exists|now: Stamp|
                now.is_valid() && #[trigger] final(self).result_recorded(
                    *old(self),
                    scan_id,
                    host_id,
                    result,
                    now,
                    now.text(log_notation()),
                ),
    {
        let now = Stamp::now();
        let log_time = now.format("%H:%M:%S%.3f");
        let ghost given = result;
        self.record_result_at(scan_id, host_id, result, now, log_time.as_str());
        assert(self.result_recorded(
            *old(self),
            scan_id,
            host_id,
            given,
            now,
            now.text(log_notation()),
        ));
    }

    /// Takes in the result of a job at the given time, which the log shows as
    /// `log_time`.
    pub fn record_result_at(
        &mut self,
        scan_id: u64,
        host_id: u64,
        result: ProbeResult,
        now: Stamp,
        log_time: &str,
    )
        requires
            old(self).can_record(host_id, result.open_ports@),
        ensures
            final(self).result_recorded(
                *old(self),
                scan_id,
                host_id,
                result,
                now,
                log_time@,
            ),
    {
        match self.find_host(host_id) {
            Some((g, h)) => {
                result.apply_at(&mut self.groups[g].hosts[h], now);
                if self.show_debug {
                    let host = &self.groups[g].hosts[h];
                    let mut note = "PortResult id=".to_string();
                    push_decimal(&mut note, host_id);
                    note.append(" ");
                    note.append(host.name.as_str());
                    note.append(" ");
                    note.append(host.status.symbol());
                    note.append(" ports=[");
                    assert(host.open_ports@.take(host.open_ports@.len() as int)
                        == host.open_ports@);
                    let ports = join_ports(&host.open_ports, host.open_ports.len(), ",");
                    note.append(ports.as_str());
                    note.append("]");
                    self.log_line(log_time, note.as_str());
                }
            },
            None => {
                // A result for a host that no longer exists is dropped
                // explicitly rather than applied to the wrong host.
                let mut note = "PortResult id=".to_string();
                push_decimal(&mut note, host_id);
                note.append(" DROPPED (no host)");
                self.log_line(log_time, note.as_str());
            },
        }
        if scan_id == self.current_scan && self.pending_results > 0 {
            self.pending_results = self.pending_results - 1;
            if self.pending_results == 0 {
                self.finish_scan_at(now);
            }
        }
    }

    // ── Passing time ─────────────────────────────────────────────────────

    /// The scan in progress has outlived its budget.
    pub open spec fn is_stalled(self, now: u128) -> bool {
        &&& self.is_scanning
        &&& self.scan_deadline matches Some(deadline)
        &&& now >= deadline
    }

    /// `self` is `before` with a stalled scan given up.
    pub open spec fn stalled_scan_ended(
        self,
        before: App,
        now: u128,
        stamp: Stamp,
        log_time: Seq<char>,
    ) -> bool {
        if before.is_stalled(now) {
            &&& self.log_lines() == logged(
                before.log_lines(),
                log_text(log_time, watchdog_note(before.pending_results)),
            )
            &&& self == (App { debug_log: self.debug_log, ..before }).scan_finished(stamp)
        } else {
            self == before
        }
    }

    /// Backstop: if results stall, do not leave the scan flagged as running
    /// forever, which would block every future periodic rescan.
    pub fn end_stalled_scan_at(&mut self, now: u128, stamp: Stamp, log_time: &str)
        ensures
            final(self).stalled_scan_ended(*old(self), now, stamp, log_time@),
    {
        if self.is_scanning {
            if let Some(deadline) = self.scan_deadline {
                if now >= deadline {
                    let mut note = "scan watchdog fired: ".to_string();
                    push_decimal(&mut note, self.pending_results as u64);
                    note.append(" result(s) never arrived");
                    self.log_line(log_time, note.as_str());
                    self.finish_scan_at(stamp);
                }
            }
        }
    }

    /// `self` is `before` after the work of one loop tick: a stalled scan is
    /// given up, then an old status message is cleared.
    pub open spec fn ticked(
        self,
        before: App,
        now: u128,
        stamp: Stamp,
        log_time: Seq<char>,
    ) -> bool {
        if before.is_stalled(now) {
            &&& self.log_lines() == logged(
                before.log_lines(),
                log_text(log_time, watchdog_note(before.pending_results)),
            )
            &&& self == (App { debug_log: self.debug_log, ..before }).scan_finished(
                stamp,
            ).status_expired(now)
        } else {
            self == before.status_expired(now)
        }
    }

    /// The work of one loop tick, now: returns whether a periodic rescan is due.
    pub fn tick(&mut self) -> (r: bool)
        ensures
            exists|now: u128, stamp: Stamp|
                now <= MAX_SPAN_NANOS && stamp.is_valid() && #[trigger] final(self).ticked(
                    *old(self),
                    now,
                    stamp,
                    stamp.text(log_notation()),
                ) && r == final(self).scan_due(now),
    {
        let now: u128 = self.clock.nanos();
        let stamp = Stamp::now();
        let log_time = stamp.format("%H:%M:%S%.3f");
        let r = self.tick_at(now, stamp, log_time.as_str());
        assert(self.ticked(*old(self), now, stamp, stamp.text(log_notation())));
        r
    }

    /// The work of one loop tick at the given times: returns whether a periodic
    /// rescan is due.
    pub fn tick_at(&mut self, now: u128, stamp: Stamp, log_time: &str) -> (r: bool)
        ensures
            final(self).ticked(*old(self), now, stamp, log_time@),
            r == final(self).scan_due(now),
    {
        self.end_stalled_scan_at(now, stamp, log_time);
        self.expire_status_at(now);
        self.rescan_due_at(now)
    }

    // ── Export ───────────────────────────────────────────────────────────

    /// Reports the outcome of an export, now: the path written, or the error.
    pub fn report_export(&mut self, outcome: Result<String, String>)
        ensures
            exists|now: u128, stamp: Stamp|
                now <= MAX_SPAN_NANOS && stamp.is_valid()
                    && #[trigger] final(self).export_reported(
                    *old(self),
                    outcome,
                    now,
                    stamp.text(log_notation()),
                ),
    {
        let now: u128 = self.clock.nanos();
        let stamp = Stamp::now();
        let log_time = stamp.format("%H:%M:%S%.3f");
        let ghost given = outcome;
        self.report_export_at(outcome, now, log_time.as_str());
        assert(self.export_reported(*old(self), given, now, stamp.text(log_notation())));
    }

    /// `self` is `before` with the outcome of an export in the status bar, and an
    /// error in the log too.
    pub open spec fn export_reported(
        self,
        before: App,
        outcome: Result<String, String>,
        now: u128,
        log_time: Seq<char>,
    ) -> bool {
        &&& text_of(self.status_message) == Some(
            match outcome {
                Ok(path) => "Exported "@ + path@,
                Err(err) => "Export failed: "@ + err@,
            },
        )
        &&& match outcome {
            Ok(_) => self.debug_log == before.debug_log,
            Err(err) => self.log_lines() == logged(
                before.log_lines(),
                log_text(log_time, "export error: "@ + err@),
            ),
        }
        &&& self == (App {
            status_message: self.status_message,
            status_set_at: Some(now),
            debug_log: self.debug_log,
            ..before
        })
    }

    /// Reports the outcome of an export at the given times.
    pub fn report_export_at(
        &mut self,
        outcome: Result<String, String>,
        now: u128,
        log_time: &str,
    )
        ensures
            final(self).export_reported(*old(self), outcome, now, log_time@),
    {
        match outcome {
            Ok(path) => {
                let mut msg = "Exported ".to_string();
                msg.append(path.as_str());
                self.set_status_at(msg.as_str(), now);
            },
            Err(err) => {
                let mut msg = "Export failed: ".to_string();
                msg.append(err.as_str());
                self.set_status_at(msg.as_str(), now);
                let mut note = "export error: ".to_string();
                note.append(err.as_str());
                self.log_line(log_time, note.as_str());
            },
        }
    }
}

} // verus!
