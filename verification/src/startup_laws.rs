//! What holds of a monitor that was started from a configuration.

use crate::app::{
    saved_label, tab_labels, total_hosts, App, Group, HostStatus, InputMode, TableState,
};
use crate::app_laws::{
    is_no_tab, is_tab_for, opening_tab_exists, rebuilt_selection_is_right, rebuilt_table_is_right,
    remembered_tab_goes_before_the_configured_one, same_panels, same_scan, same_settings,
    same_table, selection_is_right, state_file_holds_a_label, table_is_right,
    there_is_a_tab_for_each_group,
};
use crate::clock::Stamp;
use crate::config::{Config, GroupConfig, Settings};
use crate::config_laws::hosts_before;
use crate::csv_laws::hosts_in_front;
use crate::group::{checked, organised, parent_warnings};
use crate::group_laws::{organising_keeps_every_host, same_but_for_references};
use crate::host::{host_views, id_after, text_of, HostView};
use crate::network::standard_ports;
use crate::scan::logged;
use crate::scan_laws::log_lines_begin_with_the_time;
use crate::startup::{
    all_parent_warnings, group_hosts, hosts_listed, is_loaded, limits_line, loaded_line, log_times,
    ports_line, warnings_logged,
};
use crate::text::{decimal, joined_ports, texts, trimmed};
use vstd::prelude::*;
use vstd::seq_lib::*;

verus! {

/// Ids are consecutive numbers as long as they do not run out.
pub(crate) proof fn ids_count_up(id: u64, count: nat)
    requires
        id + count <= u64::MAX,
    ensures
        id_after(id, count) == id + count,
    decreases count,
{
    if count > 0 {
        ids_count_up(id, (count - 1) as nat);
    }
}

proof fn hosts_listed_grow(groups: Seq<GroupConfig>, n: int, m: int)
    requires
        n <= m,
    ensures
        hosts_listed(groups, n) <= hosts_listed(groups, m),
    decreases m - n,
{
    if n < m {
        hosts_listed_grow(groups, n, m - 1);
    }
}

/// The ids of the hosts are distinct numbers from `low` on, below `high`.
pub open spec fn ids_within(hosts: Seq<HostView>, low: int, high: int) -> bool {
    &&& forall|i: int| 0 <= i < hosts.len() ==> low <= (#[trigger] hosts[i]).id < high
    &&& forall|i: int, j: int|
        0 <= i < j < hosts.len() ==> (#[trigger] hosts[i]).id != (#[trigger] hosts[j]).id
}

/// Hosts in another order have the same ids.
proof fn order_does_not_matter_to_ids(a: Seq<HostView>, b: Seq<HostView>, low: int, high: int)
    requires
        a.to_multiset() == b.to_multiset(),
        ids_within(a, low, high),
    ensures
        ids_within(b, low, high),
        a.len() == b.len(),
{
    broadcast use group_to_multiset_ensures;

    to_multiset_len(a);
    to_multiset_len(b);
    assert(a.no_duplicates());
    a.lemma_multiset_has_no_duplicates();
    b.lemma_multiset_has_no_duplicates_conv();
    assert forall|i: int| 0 <= i < b.len() implies a.contains(#[trigger] b[i]) by {
        assert(b.contains(b[i]));
        assert(b.to_multiset().count(b[i]) > 0);
    }
    assert forall|i: int, j: int| 0 <= i < j < b.len() implies (#[trigger] b[i]).id != (
    #[trigger] b[j]).id by {
        let x = choose|x: int| 0 <= x < a.len() && a[x] == b[i];
        let y = choose|y: int| 0 <= y < a.len() && a[y] == b[j];
        assert(x != y);
        assert(a[x].id != a[y].id);
    }
}

/// The ids of the hosts of the group at position `g`.
proof fn group_ids(groups: Seq<GroupConfig>, g: int)
    requires
        0 <= g < groups.len(),
        1 + hosts_listed(groups, groups.len() as int) <= u64::MAX,
    ensures
        ids_within(
            organised(group_hosts(groups, g)),
            1 + hosts_listed(groups, g) as int,
            1 + hosts_listed(groups, g + 1) as int,
        ),
        organised(group_hosts(groups, g)).len() == groups[g].hosts@.len(),
{
    let hosts = group_hosts(groups, g);
    let first = hosts_listed(groups, g);
    hosts_listed_grow(groups, g + 1, groups.len() as int);
    ids_count_up(1, first);
    assert forall|i: int| 0 <= i < hosts.len() implies (#[trigger] hosts[i]).id == 1 + first
        + i by {
        ids_count_up((1 + first) as u64, i as nat);
    }
    organising_keeps_every_host(hosts);
    let kept = checked(hosts, hosts.len() as int);
    assert(same_but_for_references(hosts, kept));
    assert forall|i: int| 0 <= i < kept.len() implies (#[trigger] kept[i]).id == hosts[i].id by {}
    order_does_not_matter_to_ids(
        kept,
        organised(hosts),
        1 + first as int,
        1 + hosts_listed(groups, g + 1) as int,
    );
}

/// No two hosts of a monitor have the same id at startup, and the source that the
/// monitor keeps hands out none of their ids again.
pub proof fn ids_are_unique_at_startup(app: App, cfg: Config, state_file: Option<Seq<char>>)
    requires
        app.is_started(cfg, state_file),
        1 + hosts_listed(cfg.group@, cfg.group@.len() as int) <= u64::MAX,
    ensures
        app.has_unique_ids(),
{
    let groups = cfg.group@;
    let n = groups.len() as int;
    ids_count_up(1, hosts_listed(groups, n));
    assert forall|g: int, h: int|
        0 <= g < app.groups@.len() && 0 <= h < app.groups@[g].hosts@.len() implies hosts_listed(
        groups,
        g,
    ) < (#[trigger] app.groups@[g].hosts@[h]).id <= hosts_listed(groups, g + 1) <= hosts_listed(
        groups,
        n,
    ) by {
        host_id_at(app, cfg, state_file, g, h);
        hosts_listed_grow(groups, g + 1, n);
    }
    assert forall|g: int, h: int, k: int, j: int|
        0 <= g < app.groups@.len() && 0 <= h < app.groups@[g].hosts@.len() && 0 <= k
            < app.groups@.len() && 0 <= j < app.groups@[k].hosts@.len() && (
        #[trigger] app.groups@[g].hosts@[h]).id == (
        #[trigger] app.groups@[k].hosts@[j]).id implies g == k && h == j by {
        if g < k {
            hosts_listed_grow(groups, g + 1, k);
        } else if k < g {
            hosts_listed_grow(groups, k + 1, g);
        } else {
            host_id_at(app, cfg, state_file, g, h);
            let hosts = host_views(app.groups@[g].hosts@);
            assert(hosts[h] == app.groups@[g].hosts@[h]@);
            assert(hosts[j] == app.groups@[g].hosts@[j]@);
            if h < j {
                assert(hosts[h].id != hosts[j].id);
            } else if j < h {
                assert(hosts[j].id != hosts[h].id);
            }
        }
    }
}

/// Where the id of a host lies, and that it is its own in its group.
proof fn host_id_at(app: App, cfg: Config, state_file: Option<Seq<char>>, g: int, h: int)
    requires
        app.is_started(cfg, state_file),
        1 + hosts_listed(cfg.group@, cfg.group@.len() as int) <= u64::MAX,
        0 <= g < app.groups@.len(),
        0 <= h < app.groups@[g].hosts@.len(),
    ensures
        hosts_listed(cfg.group@, g) < app.groups@[g].hosts@[h].id <= hosts_listed(
            cfg.group@,
            g + 1,
        ),
        ids_within(
            host_views(app.groups@[g].hosts@),
            1 + hosts_listed(cfg.group@, g) as int,
            1 + hosts_listed(cfg.group@, g + 1) as int,
        ),
{
    assert(is_loaded(app.groups@[g], cfg.group@, g));
    group_ids(cfg.group@, g);
    assert(host_views(app.groups@[g].hosts@)[h] == app.groups@[g].hosts@[h]@);
}

/// Every host of the configuration is monitored, duplicates too: each group has
/// as many hosts as the configuration lists for it.
pub proof fn every_listed_host_is_monitored(
    app: App,
    cfg: Config,
    state_file: Option<Seq<char>>,
    g: int,
)
    requires
        app.is_started(cfg, state_file),
        0 <= g < cfg.group@.len(),
    ensures
        app.groups@[g].hosts@.len() == cfg.group@[g].hosts@.len(),
        forall|i: int|
            0 <= i < cfg.group@[g].hosts@.len() ==> exists|h: int|
                0 <= h < app.groups@[g].hosts@.len() && (
                #[trigger] app.groups@[g].hosts@[h]).name@ == (
                #[trigger] cfg.group@[g].hosts@[i]).name@ && app.groups@[g].hosts@[h].ip@
                    == cfg.group@[g].hosts@[i].ip@,
{
    broadcast use group_to_multiset_ensures;

    let hosts = group_hosts(cfg.group@, g);
    let kept = checked(hosts, hosts.len() as int);
    let shown = app.groups@[g].hosts@;
    assert(is_loaded(app.groups@[g], cfg.group@, g));
    organising_keeps_every_host(hosts);
    assert(same_but_for_references(hosts, kept));
    assert(organised(hosts).to_multiset().len() == kept.to_multiset().len());
    assert(host_views(shown).len() == shown.len());
    assert forall|i: int| 0 <= i < cfg.group@[g].hosts@.len() implies exists|h: int|
        0 <= h < shown.len() && (#[trigger] shown[h]).name@ == (
        #[trigger] cfg.group@[g].hosts@[i]).name@ && shown[h].ip@
            == cfg.group@[g].hosts@[i].ip@ by {
        assert(hosts[i].name == cfg.group@[g].hosts@[i].name@);
        assert(kept.contains(kept[i]));
        assert(kept.to_multiset().count(kept[i]) > 0);
        assert(organised(hosts).contains(kept[i]));
        let h = choose|h: int|
            0 <= h < organised(hosts).len() && organised(hosts)[h] == kept[i];
        assert(host_views(shown)[h] == shown[h]@);
    }
}

/// Groups stay in config order.
pub proof fn groups_stay_in_config_order(app: App, cfg: Config, state_file: Option<Seq<char>>)
    requires
        app.is_started(cfg, state_file),
    ensures
        app.groups@.len() == cfg.group@.len(),
        forall|g: int|
            0 <= g < cfg.group@.len() ==> (#[trigger] app.groups@[g]).name@
                == cfg.group@[g].name@,
{
    assert forall|g: int| 0 <= g < cfg.group@.len() implies (#[trigger] app.groups@[g]).name@
        == cfg.group@[g].name@ by {
        assert(is_loaded(app.groups@[g], cfg.group@, g));
    }
}

/// A monitor that was started has its active tab.
pub proof fn started_on_a_tab(app: App, cfg: Config, state_file: Option<Seq<char>>)
    requires
        app.is_started(cfg, state_file),
    ensures
        app.active_tab < app.tabs@.len(),
{
    assert(texts(app.tabs@).len() == app.tabs@.len());
    opening_tab_exists(
        app.tabs@,
        saved_label(state_file),
        text_of(cfg.settings.default_tab),
    );
}

// ── A start, written out ─────────────────────────────────────────────────

/// The ports that are probed are those of the configuration, all of them and in
/// order; where it lists none, the standard ones.
pub proof fn configured_ports_are_probed(settings: Settings)
    ensures
        settings.ports matches Some(ports) && ports@.len() > 0 ==> settings.overrides_ports()
            && settings.active_ports() == settings.ports->0@,
        settings.ports matches Some(ports) && ports@.len() == 0 ==> !settings.overrides_ports()
            && settings.active_ports() == standard_ports(),
        settings.ports is None ==> !settings.overrides_ports() && settings.active_ports()
            == standard_ports(),
{
}

proof fn listed_hosts_are_those_before(groups: Seq<GroupConfig>, g: int)
    requires
        0 <= g <= groups.len(),
    ensures
        hosts_listed(groups, g) == hosts_before(groups, g),
    decreases g,
{
    if g > 0 {
        listed_hosts_are_those_before(groups, g - 1);
    }
}

/// A host of the configuration is monitored under its name and at its address; it
/// has the parent that is configured and is a child just if there is one; its id is
/// its number in the configuration; and nothing else is known of it.
pub proof fn hosts_begin_as_configured(groups: Seq<GroupConfig>, g: int, i: int)
    requires
        0 <= g < groups.len(),
        0 <= i < groups[g].hosts@.len(),
    ensures
        group_hosts(groups, g).len() == groups[g].hosts@.len(),
        ({
            let h = group_hosts(groups, g)[i];
            let entry = groups[g].hosts@[i];
            &&& h.name == entry.name@
            &&& h.ip == entry.ip@
            &&& h.is_child <==> entry.parent is Some
            &&& entry.parent matches Some(p) ==> h.parent == Some(p@)
            &&& entry.parent is None ==> h.parent is None
            &&& 1 + hosts_before(groups, g) + i <= u64::MAX ==> h.id == 1 + hosts_before(groups, g)
                + i
            &&& h.status == HostStatus::Unknown
            &&& h.open_ports.len() == 0
            &&& h.latency_ms is None
            &&& h.last_seen is None
            &&& h.last_checked is None
            &&& h.consecutive_failures == 0
            &&& h.vm_state is None
            &&& !h.is_child_vm
            &&& h.parent_host is None
        }),
{
    listed_hosts_are_those_before(groups, g);
    if 1 + hosts_before(groups, g) + i <= u64::MAX {
        ids_count_up(1, hosts_listed(groups, g));
        ids_count_up((1 + hosts_listed(groups, g)) as u64, i as nat);
    }
}

/// A monitor starts with the settings that are configured, at least one probe at a
/// time, no scan, no message, no log, nothing open, no filter and no triage.
pub proof fn monitors_start_idle(app: App, cfg: Config, state_file: Option<Seq<char>>)
    requires
        app.is_started(cfg, state_file),
    ensures
        app.poll_interval == cfg.settings.poll_interval,
        app.connect_timeout_ms == cfg.settings.connect_timeout_ms,
        cfg.settings.max_concurrent_probes > 0 ==> app.max_concurrent_probes
            == cfg.settings.max_concurrent_probes,
        cfg.settings.max_concurrent_probes == 0 ==> app.max_concurrent_probes == 1,
        app.probe_ports@ == cfg.settings.active_ports(),
        app.last_poll is None,
        !app.is_scanning,
        app.current_scan == 0,
        app.pending_results == 0,
        app.scan_deadline is None,
        app.last_scan == 0,
        app.status_message is None,
        app.status_set_at is None,
        app.debug_log@.len() == 0,
        !app.show_debug,
        !app.show_help,
        !app.should_quit,
        app.input_mode == InputMode::Normal,
        app.filter_query@.len() == 0,
        app.filter_draft@.len() == 0,
        !app.triage,
{
}

/// A monitor starts with a group for each of the configuration, under its name, with
/// its hosts as organising places them; and the next id is behind those of all hosts.
pub proof fn monitors_start_with_the_configured_groups(
    app: App,
    cfg: Config,
    state_file: Option<Seq<char>>,
    g: int,
)
    requires
        app.is_started(cfg, state_file),
        0 <= g < cfg.group@.len(),
    ensures
        app.groups@.len() == cfg.group@.len(),
        app.groups@[g].name@ == cfg.group@[g].name@,
        host_views(app.groups@[g].hosts@) == organised(group_hosts(cfg.group@, g)),
        1 + hosts_before(cfg.group@, cfg.group@.len() as int) <= u64::MAX ==> app.host_ids.next == 1
            + hosts_before(cfg.group@, cfg.group@.len() as int),
{
    assert(is_loaded(app.groups@[g], cfg.group@, g));
    listed_hosts_are_those_before(cfg.group@, cfg.group@.len() as int);
    if 1 + hosts_before(cfg.group@, cfg.group@.len() as int) <= u64::MAX {
        ids_count_up(1, hosts_listed(cfg.group@, cfg.group@.len() as int));
    }
}

/// A monitor starts with a tab for all groups and one for each, on the remembered tab
/// if it is there, else on the configured one if it is there, else on that of all
/// groups.
pub proof fn monitors_start_on_the_right_tab(
    app: App,
    cfg: Config,
    state_file: Option<Seq<char>>,
    i: int,
)
    requires
        app.is_started(cfg, state_file),
    ensures
        app.tabs@.len() == cfg.group@.len() + 1,
        app.tabs@[0]@ == "All"@,
        forall|g: int|
            0 <= g < cfg.group@.len() ==> (#[trigger] app.tabs@[g + 1])@ == app.groups@[g].name@,
        ({
            let saved = match state_file {
                Some(s) => if trimmed(s).len() > 0 {
                    Some(trimmed(s))
                } else {
                    None
                },
                None => None,
            };
            let configured = match cfg.settings.default_tab {
                Some(s) => Some(s@),
                None => None,
            };
            &&& (saved matches Some(l) && is_tab_for(app.tabs@, l, i)) ==> app.active_tab == i
            &&& is_no_tab(app.tabs@, saved) && (configured matches Some(l) && is_tab_for(
                app.tabs@,
                l,
                i,
            )) ==> app.active_tab == i
            &&& is_no_tab(app.tabs@, saved) && is_no_tab(app.tabs@, configured) ==> app.active_tab
                == 0
        }),
{
    let tabs = app.tabs@;
    assert(texts(tabs) == tab_labels(app.groups@));
    assert(texts(tabs).len() == tabs.len());
    there_is_a_tab_for_each_group(app.groups@);
    assert(texts(tabs)[0] == tabs[0]@);
    assert forall|g: int| 0 <= g < cfg.group@.len() implies (#[trigger] tabs[g + 1])@
        == app.groups@[g].name@ by {
        assert(texts(tabs)[g + 1] == tabs[g + 1]@);
        assert(tab_labels(app.groups@)[g + 1] == app.groups@[g].name@);
    }
    remembered_tab_goes_before_the_configured_one(
        tabs,
        saved_label(state_file),
        text_of(cfg.settings.default_tab),
        i,
    );
    if let Some(s) = state_file {
        state_file_holds_a_label(s);
    }
}

/// A monitor starts with a table that shows what it should, and with the first host
/// selected.
pub proof fn monitors_start_with_their_table(app: App, cfg: Config, state_file: Option<Seq<char>>)
    requires
        app.is_started(cfg, state_file),
    ensures
        table_is_right(app),
        selection_is_right(TableState { selected: None, offset: 0 }, app),
{
    let given = App { table_state: TableState { selected: None, offset: 0 }, ..app };
    assert(app.is_rebuilt(given));
    rebuilt_table_is_right(given, app);
    rebuilt_selection_is_right(given, app);
}

/// The warnings about parents come group by group, and behind one another.
pub proof fn parents_are_warned_of_by_group(groups: Seq<GroupConfig>, g: int)
    requires
        0 <= g < groups.len(),
    ensures
        all_parent_warnings(groups, 0).len() == 0,
        all_parent_warnings(groups, g + 1) == all_parent_warnings(groups, g) + parent_warnings(
            group_hosts(groups, g),
            groups[g].name@,
            groups[g].hosts@.len() as int,
        ),
{
}

proof fn all_hosts_are_those_in_front(groups: Seq<Group>, n: int)
    ensures
        total_hosts(groups, n) == hosts_in_front(groups, n),
    decreases n,
{
    if n > 0 {
        all_hosts_are_those_in_front(groups, n - 1);
    }
}

/// What is said at the start: how many hosts and groups there are and where they come
/// from; how many connects are made at a time and how long one may take; and which
/// ports are probed.
pub proof fn banner_tells_what_was_loaded(app: App, path: Seq<char>, overridden: bool)
    ensures
        total_hosts(app.groups@, app.groups@.len() as int) == hosts_in_front(
            app.groups@,
            app.groups@.len() as int,
        ),
        forall|hosts: nat, groups: nat| #[trigger]
            loaded_line(hosts, groups, path) == "Loaded "@ + decimal(hosts) + " hosts in "@
                + decimal(groups) + " groups from "@ + path,
        limits_line(app.max_concurrent_probes, app.connect_timeout_ms) == "Concurrency cap: "@
            + decimal(app.max_concurrent_probes as nat)
            + " simultaneous connects; connect timeout "@ + decimal(
            app.connect_timeout_ms as nat,
        ) + " ms"@,
        ports_line(app.probe_ports@, true) == "Probing "@ + decimal(app.probe_ports@.len())
            + " ports"@ + " (from config)"@ + ": "@ + joined_ports(app.probe_ports@, ","@),
        ports_line(app.probe_ports@, false) == "Probing "@ + decimal(app.probe_ports@.len())
            + " ports"@ + " (default)"@ + ": "@ + joined_ports(app.probe_ports@, ","@),
{
    all_hosts_are_those_in_front(app.groups@, app.groups@.len() as int);
}

/// Each warning is logged behind the one before it, with its time.
pub proof fn warnings_are_logged_one_by_one(
    log: Seq<Seq<char>>,
    warnings: Seq<Seq<char>>,
    times: Seq<Seq<char>>,
    n: int,
)
    requires
        0 <= n < warnings.len(),
    ensures
        warnings_logged(log, warnings, times, 0) == log,
        warnings_logged(log, warnings, times, n + 1) == logged(
            warnings_logged(log, warnings, times, n),
            times[n] + seq![' '] + ("config warning: "@ + warnings[n]),
        ),
{
    log_lines_begin_with_the_time(times[n], "config warning: "@ + warnings[n]);
}

/// Where there are warnings, all of them are logged and the status line tells how many
/// there are, from now on; where there is none, nothing changes. No host, setting,
/// scan or row changes.
pub proof fn warnings_are_counted_in_the_status_line(
    before: App,
    after: App,
    warnings: Seq<Seq<char>>,
    now: u128,
    times: Seq<Seq<char>>,
)
    requires
        after.warnings_reported(before, warnings, now, times),
    ensures
        warnings.len() == 0 ==> after == before,
        warnings.len() > 0 ==> {
            &&& after.status_message matches Some(msg)
            &&& msg@ == decimal(warnings.len()) + " config warning(s) — press d for details"@
            &&& after.status_set_at == Some(now)
        },
        after.log_lines() == warnings_logged(
            before.log_lines(),
            warnings,
            times,
            warnings.len() as int,
        ),
        after.groups == before.groups,
        same_settings(before, after),
        same_panels(before, after),
        same_scan(before, after),
        same_table(before, after),
{
}

/// The times in the log are those of the stamps, to the millisecond.
pub proof fn log_times_are_those_of_the_stamps(stamps: Seq<Stamp>)
    ensures
        log_times(stamps).len() == stamps.len(),
        forall|i: int|
            0 <= i < stamps.len() ==> #[trigger] log_times(stamps)[i] == stamps[i].text(
                "%H:%M:%S%.3f"@,
            ),
{
}

} // verus!
