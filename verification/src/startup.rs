//! From the configuration to a running monitor.

use crate::app::{
    clamped, opening_tab, saved_label, slice_text, tab_labels, total_hosts, App, Group, Host,
    HostIds, TableState,
};
use crate::clock::{Stamp, MAX_SPAN_NANOS};
use crate::config::{Config, GroupConfig, HostConfig, Settings};
use crate::group::{organised, parent_warnings};
use crate::host::{fresh_host, host_views, id_after, text_of, HostView};
use crate::network::{default_ports, standard_ports};
use crate::scan::{log_notation, log_text, logged};
use crate::text::{decimal, join_ports, joined_ports, push_decimal, texts, texts_add};
use vstd::prelude::*;

verus! {

// ── Where the configuration is ───────────────────────────────────────────

/// Which file holds the configuration.
#[derive(Debug, Clone, Copy, PartialEq, Eq, Structural)]
pub enum ConfigSource {
    /// The one named on the command line.
    Argument,
    /// `config.toml` in the current directory.
    CurrentDir,
    /// `config.toml` next to the executable.
    BesideExecutable,
}

/// With no argument, the configuration is looked for in the current directory,
/// then next to the executable, if it is known where that is.
pub fn config_source(has_argument: bool, in_current_dir: bool, executable_known: bool) -> (r:
    ConfigSource)
    ensures
        r == (if has_argument {
            ConfigSource::Argument
        } else if in_current_dir || !executable_known {
            ConfigSource::CurrentDir
        } else {
            ConfigSource::BesideExecutable
        }),
{
    if has_argument {
        ConfigSource::Argument
    } else if in_current_dir || !executable_known {
        ConfigSource::CurrentDir
    } else {
        ConfigSource::BesideExecutable
    }
}

// ── Ports ────────────────────────────────────────────────────────────────

impl Settings {
    /// The settings list ports of their own.
    pub open spec fn overrides_ports(self) -> bool {
        self.ports matches Some(ports) && ports@.len() > 0
    }

    /// The ports that are probed: those that the settings list, or the standard
    /// ones where they list none.
    pub open spec fn active_ports(self) -> Seq<u16> {
        if self.overrides_ports() {
            self.ports->0@
        } else {
            standard_ports()
        }
    }

    /// Whether the settings list ports of their own.
    pub fn ports_overridden(&self) -> (r: bool)
        ensures
            r == self.overrides_ports(),
    {
        match &self.ports {
            Some(ports) => ports.len() > 0,
            None => false,
        }
    }

    /// The ports that are probed.
    pub fn probe_ports(&self) -> (r: Vec<u16>)
        ensures
            r@ == self.active_ports(),
    {
        match &self.ports {
            Some(ports) => {
                if ports.len() > 0 {
                    let r = ports.clone();
                    assert(r@ =~= ports@);
                    r
                } else {
                    default_ports()
                }
            },
            None => default_ports(),
        }
    }
}

// ── Groups ───────────────────────────────────────────────────────────────

/// A host as its config entry describes it.
pub open spec fn configured_host(h: HostConfig, id: u64) -> HostView {
    HostView {
        is_child: h.parent is Some,
        parent: text_of(h.parent),
        ..fresh_host(id, h.name@, h.ip@)
    }
}

/// The hosts of a group as its config entries describe them, with consecutive ids.
pub open spec fn configured(hosts: Seq<HostConfig>, first_id: u64) -> Seq<HostView> {
    Seq::new(hosts.len(), |i: int| configured_host(hosts[i], id_after(first_id, i as nat)))
}

/// How many hosts the first `n` groups of a configuration list.
pub open spec fn hosts_listed(groups: Seq<GroupConfig>, n: int) -> nat
    decreases n,
{
    if n <= 0 {
        0
    } else {
        hosts_listed(groups, n - 1) + groups[n - 1].hosts@.len()
    }
}

/// The hosts of the group at position `g`, before they are organised. Ids start
/// at one and run through all groups.
pub open spec fn group_hosts(groups: Seq<GroupConfig>, g: int) -> Seq<HostView> {
    configured(groups[g].hosts@, id_after(1, hosts_listed(groups, g)))
}

/// The group is the one at position `g` of the configuration, organised.
pub open spec fn is_loaded(group: Group, groups: Seq<GroupConfig>, g: int) -> bool {
    &&& group.name@ == groups[g].name@
    &&& host_views(group.hosts@) == organised(group_hosts(groups, g))
}

/// The warnings about parents in the first `n` groups, group by group.
pub open spec fn all_parent_warnings(groups: Seq<GroupConfig>, n: int) -> Seq<Seq<char>>
    decreases n,
{
    if n <= 0 {
        seq![]
    } else {
        all_parent_warnings(groups, n - 1) + parent_warnings(
            group_hosts(groups, n - 1),
            groups[n - 1].name@,
            groups[n - 1].hosts@.len() as int,
        )
    }
}

/// The ids that come after `n` and then `m` others.
pub(crate) proof fn ids_add_up(id: u64, n: nat, m: nat)
    ensures
        id_after(id_after(id, n), m) == id_after(id, n + m),
    decreases m,
{
    if m > 0 {
        ids_add_up(id, n, (m - 1) as nat);
    }
}

/// The hosts of a group.
fn load_hosts(hosts: &Vec<HostConfig>, ids: &mut HostIds) -> (r: Vec<Host>)
    ensures
        host_views(r@) == configured(hosts@, old(ids).next),
        final(ids).next == id_after(old(ids).next, hosts@.len()),
{
    let ghost first = ids.next;
    let ghost goal = configured(hosts@, first);
    let mut r: Vec<Host> = Vec::new();
    assert(host_views(r@) =~= goal.take(0));
    for i in 0..hosts.len()
        invariant
            goal == configured(hosts@, first),
            r@.len() == i,
            host_views(r@) == goal.take(i as int),
            ids.next == id_after(first, i as nat),
    {
        let entry = &hosts[i];
        let mut host = Host::from_config(entry.name.as_str(), entry.ip.as_str(), ids);
        if let Some(parent) = &entry.parent {
            host.is_child = true;
            host.parent = Some(parent.clone());
        }
        assert(host@ =~= configured_host(hosts@[i as int], id_after(first, i as nat)));
        assert(host_views(r@.push(host)) =~= host_views(r@).push(host@));
        assert(goal.take(i + 1) =~= goal.take(i as int).push(goal[i as int]));
        r.push(host);
    }
    assert(goal.take(hosts@.len() as int) =~= goal);
    r
}

/// The groups, organised, and the warnings about parents.
fn load_groups(groups: &Vec<GroupConfig>, ids: &mut HostIds) -> (r: (Vec<Group>, Vec<String>))
    requires
        old(ids).next == 1,
    ensures
        final(ids).next == id_after(1, hosts_listed(groups@, groups@.len() as int)),
        r.0@.len() == groups@.len(),
        forall|g: int| 0 <= g < groups@.len() ==> is_loaded(#[trigger] r.0@[g], groups@, g),
        texts(r.1@) == all_parent_warnings(groups@, groups@.len() as int),
{
    let mut loaded: Vec<Group> = Vec::new();
    let mut warnings: Vec<String> = Vec::new();
    assert(texts(warnings@) =~= seq![]);
    for g in 0..groups.len()
        invariant
            loaded@.len() == g,
            forall|k: int| 0 <= k < g ==> is_loaded(#[trigger] loaded@[k], groups@, k),
            texts(warnings@) == all_parent_warnings(groups@, g as int),
            ids.next == id_after(1, hosts_listed(groups@, g as int)),
    {
        let entry = &groups[g];
        proof {
            ids_add_up(1, hosts_listed(groups@, g as int), entry.hosts@.len());
        }
        let hosts = load_hosts(&entry.hosts, ids);
        let mut group = Group { name: entry.name.clone(), hosts };
        let mut more = group.organise();
        proof {
            texts_add(warnings@, more@);
        }
        warnings.append(&mut more);
        loaded.push(group);
    }
    (loaded, warnings)
}

impl App {
    /// `self` is the monitor that the configuration and the contents of the state
    /// file call for.
    pub open spec fn is_started(self, cfg: Config, state_file: Option<Seq<char>>) -> bool {
        &&& self.is_idle(
            cfg.settings.poll_interval,
            cfg.settings.connect_timeout_ms,
            cfg.settings.max_concurrent_probes,
            cfg.settings.active_ports(),
        )
        &&& self.groups@.len() == cfg.group@.len()
        &&& forall|g: int|
            0 <= g < cfg.group@.len() ==> is_loaded(#[trigger] self.groups@[g], cfg.group@, g)
        &&& self.host_ids.next == id_after(
            1,
            hosts_listed(cfg.group@, cfg.group@.len() as int),
        )
        &&& texts(self.tabs@) == tab_labels(self.groups@)
        &&& self.active_tab == opening_tab(
            self.tabs@,
            saved_label(state_file),
            text_of(cfg.settings.default_tab),
        )
        &&& self.rows@ == self.wanted_rows()
        &&& self.table_state == clamped(
            self.wanted_rows(),
            TableState { selected: None, offset: 0 },
        )
    }

    /// The monitor for a configuration, with the tab open that the contents of the
    /// state file name. Returns it with all that is doubtful in the configuration:
    /// duplicate names and addresses, then bad references to parents.
    pub fn from_config(cfg: &Config, state_file: Option<&str>) -> (r: (App, Vec<String>))
        ensures
            r.0.is_started(*cfg, slice_text(state_file)),
            texts(r.1@) == cfg.warnings() + all_parent_warnings(
                cfg.group@,
                cfg.group@.len() as int,
            ),
    {
        let mut app = App::new(
            cfg.settings.poll_interval,
            cfg.settings.connect_timeout_ms,
            cfg.settings.max_concurrent_probes,
            cfg.settings.probe_ports(),
        );
        let (groups, mut more) = load_groups(&cfg.group, &mut app.host_ids);
        app.groups = groups;
        let mut warnings = cfg.validate();
        proof {
            texts_add(warnings@, more@);
        }
        warnings.append(&mut more);
        app.build_tabs();
        match &cfg.settings.default_tab {
            Some(tab) => app.restore_active_tab(state_file, Some(tab.as_str())),
            None => app.restore_active_tab(state_file, None),
        }
        app.rebuild_rows();
        (app, warnings)
    }
}

// ── Banner ───────────────────────────────────────────────────────────────

/// The first line of the banner.
pub open spec fn loaded_line(hosts: nat, groups: nat, path: Seq<char>) -> Seq<char> {
    "Loaded "@ + decimal(hosts) + " hosts in "@ + decimal(groups) + " groups from "@ + path
}

/// The second line of the banner.
pub open spec fn limits_line(cap: usize, timeout_ms: u64) -> Seq<char> {
    "Concurrency cap: "@ + decimal(cap as nat) + " simultaneous connects; connect timeout "@
        + decimal(timeout_ms as nat) + " ms"@
}

/// The third line of the banner.
pub open spec fn ports_line(ports: Seq<u16>, overridden: bool) -> Seq<char> {
    "Probing "@ + decimal(ports.len()) + " ports"@ + (if overridden {
        " (from config)"@
    } else {
        " (default)"@
    }) + ": "@ + joined_ports(ports, ","@)
}

proof fn total_hosts_grow(groups: Seq<Group>, n: int, m: int)
    requires
        n <= m,
    ensures
        total_hosts(groups, n) <= total_hosts(groups, m),
    decreases m - n,
{
    if n < m {
        total_hosts_grow(groups, n, m - 1);
    }
}

impl App {
    /// How many hosts there are, over all groups.
    pub fn host_count(&self) -> (r: usize)
        requires
            total_hosts(self.groups@, self.groups@.len() as int) <= usize::MAX,
        ensures
            r == total_hosts(self.groups@, self.groups@.len() as int),
    {
        let mut sum: usize = 0;
        for g in 0..self.groups.len()
            invariant
                sum == total_hosts(self.groups@, g as int),
                total_hosts(self.groups@, self.groups@.len() as int) <= usize::MAX,
        {
            proof {
                total_hosts_grow(self.groups@, g + 1, self.groups@.len() as int);
            }
            sum = sum + self.groups[g].hosts.len();
        }
        sum
    }

    /// What is printed at startup: what was loaded from where, the limits, and the
    /// ports that are probed.
    pub fn banner(&self, path: &str, ports_overridden: bool) -> (r: Vec<String>)
        requires
            total_hosts(self.groups@, self.groups@.len() as int) <= usize::MAX,
        ensures
            texts(r@) == seq![
                loaded_line(
                    total_hosts(self.groups@, self.groups@.len() as int),
                    self.groups@.len(),
                    path@,
                ),
                limits_line(self.max_concurrent_probes, self.connect_timeout_ms),
                ports_line(self.probe_ports@, ports_overridden),
            ],
    {
        let mut loaded = "Loaded ".to_string();
        push_decimal(&mut loaded, self.host_count() as u64);
        loaded.append(" hosts in ");
        push_decimal(&mut loaded, self.groups.len() as u64);
        loaded.append(" groups from ");
        loaded.append(path);
        let mut limits = "Concurrency cap: ".to_string();
        push_decimal(&mut limits, self.max_concurrent_probes as u64);
        limits.append(" simultaneous connects; connect timeout ");
        push_decimal(&mut limits, self.connect_timeout_ms);
        limits.append(" ms");
        let n: usize = self.probe_ports.len();
        let mut ports = "Probing ".to_string();
        push_decimal(&mut ports, n as u64);
        ports.append(" ports");
        if ports_overridden {
            ports.append(" (from config)");
        } else {
            ports.append(" (default)");
        }
        ports.append(": ");
        assert(self.probe_ports@.take(n as int) =~= self.probe_ports@);
        ports.append(join_ports(&self.probe_ports, n, ",").as_str());
        let mut r: Vec<String> = Vec::new();
        r.push(loaded);
        r.push(limits);
        r.push(ports);
        assert(texts(r@) =~= seq![
            loaded_line(
                total_hosts(self.groups@, self.groups@.len() as int),
                self.groups@.len(),
                path@,
            ),
            limits_line(self.max_concurrent_probes, self.connect_timeout_ms),
            ports_line(self.probe_ports@, ports_overridden),
        ]);
        r
    }
}

// ── Warnings ─────────────────────────────────────────────────────────────

/// The log with the first `n` warnings in it, each with its time.
pub open spec fn warnings_logged(
    log: Seq<Seq<char>>,
    warnings: Seq<Seq<char>>,
    times: Seq<Seq<char>>,
    n: int,
) -> Seq<Seq<char>>
    decreases n,
{
    if n <= 0 {
        log
    } else {
        logged(
            warnings_logged(log, warnings, times, n - 1),
            log_text(times[n - 1], "config warning: "@ + warnings[n - 1]),
        )
    }
}

/// Times as the log shows them.
pub open spec fn log_times(stamps: Seq<Stamp>) -> Seq<Seq<char>> {
    stamps.map_values(|s: Stamp| s.text(log_notation()))
}

/// The message in the status bar about warnings.
pub open spec fn warnings_message(count: nat) -> Seq<char> {
    decimal(count) + " config warning(s) — press d for details"@
}

/// A warning as it is printed at startup.
pub fn warning_line(warning: &str) -> (r: String)
    ensures
        r@ == "warning: "@ + warning@,
{
    let mut r = "warning: ".to_string();
    r.append(warning);
    r
}

impl App {
    /// `self` is `before` with the warnings in its log and, if there are any, their
    /// number in its status bar.
    pub open spec fn warnings_reported(
        self,
        before: App,
        warnings: Seq<Seq<char>>,
        now: u128,
        times: Seq<Seq<char>>,
    ) -> bool {
        &&& self.log_lines() == warnings_logged(
            before.log_lines(),
            warnings,
            times,
            warnings.len() as int,
        )
        &&& if warnings.len() == 0 {
            self == before
        } else {
            &&& text_of(self.status_message) == Some(warnings_message(warnings.len()))
            &&& self == (App {
                debug_log: self.debug_log,
                status_message: self.status_message,
                status_set_at: Some(now),
                ..before
            })
        }
    }

    /// Reports warnings about the configuration, now.
    pub fn report_warnings(&mut self, warnings: &Vec<String>)
        ensures
            exists|now: u128, stamps: Seq<Stamp>|
                now <= MAX_SPAN_NANOS && stamps.len() == warnings@.len() && (forall|i: int|
                    0 <= i < stamps.len() ==> (#[trigger] stamps[i]).is_valid())
                    && #[trigger] final(self).warnings_reported(
                    *old(self),
                    texts(warnings@),
                    now,
                    log_times(stamps),
                ),
    {
        let ghost mut stamps: Seq<Stamp> = seq![];
        let mut times: Vec<String> = Vec::new();
        for i in 0..warnings.len()
            invariant
                times@.len() == i,
                stamps.len() == i,
                forall|k: int| 0 <= k < i ==> (#[trigger] stamps[k]).is_valid(),
                forall|k: int|
                    0 <= k < i ==> (#[trigger] times@[k])@ == stamps[k].text(log_notation()),
        {
            let stamp = Stamp::now();
            let time = stamp.format("%H:%M:%S%.3f");
            times.push(time);
            proof {
                stamps = stamps.push(stamp);
            }
        }
        let now: u128 = self.clock.nanos();
        self.report_warnings_at(warnings, now, &times);
        assert(texts(times@) =~= log_times(stamps));
    }

    /// Reports warnings about the configuration at the given times: `now` by the
    /// monotonic clock, and one time for each warning as the log shows it.
    pub fn report_warnings_at(&mut self, warnings: &Vec<String>, now: u128, times: &Vec<String>)
        requires
            times@.len() == warnings@.len(),
        ensures
            final(self).warnings_reported(*old(self), texts(warnings@), now, texts(times@)),
    {
        if warnings.len() == 0 {
            return;
        }
        for i in 0..warnings.len()
            invariant
                times@.len() == warnings@.len(),
                self.log_lines() == warnings_logged(
                    old(self).log_lines(),
                    texts(warnings@),
                    texts(times@),
                    i as int,
                ),
                *self == (App { debug_log: self.debug_log, ..*old(self) }),
        {
            let mut note = "config warning: ".to_string();
            note.append(warnings[i].as_str());
            self.log_line(times[i].as_str(), note.as_str());
        }
        let mut message = String::new();
        push_decimal(&mut message, warnings.len() as u64);
        message.append(" config warning(s) — press d for details");
        assert(message@ =~= warnings_message(warnings@.len()));
        self.set_status_at(message.as_str(), now);
    }
}

} // verus!
