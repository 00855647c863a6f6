//! What holds of the monitor's state at all times.

use crate::app::{App, TableRow, TableState, DEBUG_LOG_CAP};
use crate::app_laws::{
    next_and_previous_row_undo_each_other, next_and_previous_tab_undo_each_other,
    selection_is_on_a_host, table_shows_what_it_should,
};
use crate::clock::Stamp;
use crate::config::Config;
use crate::keys::Key;
use crate::network::ProbeResult;
use crate::scan_laws::{result_reaches_its_host, result_reaches_only_its_host};
use crate::startup::warnings_logged;
use crate::startup_laws::started_on_a_tab;
use crate::text::texts;
use vstd::prelude::*;

verus! {

impl App {
    /// The parts of the state agree: there is a tab for each group and one for all,
    /// and one of them is active; each row is a header or that of a host there is,
    /// and the selected one exists; a scan is under way just as long as results are
    /// missing, and has a deadline; a message has a time; the log is bounded.
    pub open spec fn is_consistent(self) -> bool {
        &&& self.tabs@.len() == self.groups@.len() + 1
        &&& self.active_tab < self.tabs@.len()
        &&& self.rows_fit()
        &&& self.table_state.selected matches Some(i) ==> i < self.rows@.len()
        &&& self.is_scanning <==> self.pending_results > 0
        &&& self.is_scanning ==> self.scan_deadline is Some
        &&& self.status_message is Some <==> self.status_set_at is Some
        &&& self.debug_log@.len() <= DEBUG_LOG_CAP
    }
}

/// A rebuilt table fits its groups.
proof fn rebuilt_is_consistent(before: App, after: App)
    requires
        after.is_rebuilt(before),
        before.tabs@.len() == before.groups@.len() + 1,
        before.active_tab < before.tabs@.len(),
        before.is_scanning <==> before.pending_results > 0,
        before.is_scanning ==> before.scan_deadline is Some,
        before.status_message is Some <==> before.status_set_at is Some,
        before.debug_log@.len() <= DEBUG_LOG_CAP,
    ensures
        after.is_consistent(),
{
    table_shows_what_it_should(before, after);
    selection_is_on_a_host(before, after);
    assert forall|i: int| 0 <= i < after.rows@.len() implies after.row_fits(
        #[trigger] after.rows@[i],
    ) by {
        match after.rows@[i] {
            TableRow::GroupHeader { name } => {},
            TableRow::HostEntry { group_idx, host_idx } => {},
        }
    }
}

/// The state is consistent at startup.
pub proof fn consistent_at_startup(app: App, cfg: Config, state_file: Option<Seq<char>>)
    requires
        app.is_started(cfg, state_file),
    ensures
        app.is_consistent(),
{
    started_on_a_tab(app, cfg, state_file);
    assert(texts(app.tabs@).len() == app.tabs@.len());
    let empty = App {
        table_state: TableState { selected: None, offset: 0 },
        ..app
    };
    assert(app.is_rebuilt(empty));
    rebuilt_is_consistent(empty, app);
}

/// In a consistent state every key can be handled.
pub proof fn every_key_can_be_handled(app: App, key: Key)
    requires
        app.is_consistent(),
    ensures
        app.can_handle(key),
{
    assert(app.rows.len() == app.rows@.len());
    assert(app.tabs.len() == app.tabs@.len());
}

/// Rows that are kept still fit where every group keeps its number of hosts; and
/// the log has a text for each of its lines.
proof fn kept_rows_fit(before: App, after: App)
    requires
        before.rows_fit(),
        after.rows == before.rows,
        after.groups@.len() == before.groups@.len(),
        forall|g: int|
            0 <= g < before.groups@.len() ==> (#[trigger] after.groups@[g]).hosts@.len()
                == before.groups@[g].hosts@.len(),
    ensures
        after.rows_fit(),
        before.log_lines().len() == before.debug_log@.len(),
        after.log_lines().len() == after.debug_log@.len(),
{
    assert forall|i: int| 0 <= i < after.rows@.len() implies after.row_fits(
        #[trigger] after.rows@[i],
    ) by {
        assert(before.row_fits(before.rows@[i]));
    }
}

/// A key press leaves the state consistent.
pub proof fn keys_keep_the_state_consistent(
    before: App,
    after: App,
    key: Key,
    now: u128,
    log_time: Seq<char>,
)
    requires
        before.is_consistent(),
        after.key_handled(before, key, now, log_time),
    ensures
        after.is_consistent(),
{
    assert(before.rows.len() == before.rows@.len());
    assert(before.tabs.len() == before.tabs@.len());
    if before.rows@.len() > 0 {
        let selected = match before.table_state.selected {
            Some(i) => i,
            None => 0,
        };
        next_and_previous_row_undo_each_other(selected, before.rows@.len() as int);
    }
    next_and_previous_tab_undo_each_other(before.active_tab as int, before.tabs@.len() as int);
    // A key that changes filter or triage, and one that changes the tab, rebuild
    // the rows of these states.
    let edited = App {
        input_mode: after.input_mode,
        filter_query: after.filter_query,
        filter_draft: after.filter_draft,
        triage: after.triage,
        ..before
    };
    let turned = App {
        active_tab: after.active_tab,
        table_state: before.table_state.selecting(None),
        ..before
    };
    if after.is_rebuilt(edited) {
        rebuilt_is_consistent(edited, after);
    } else if after.is_rebuilt(turned) {
        rebuilt_is_consistent(turned, after);
    } else {
        kept_rows_fit(before, after);
    }
}

/// Starting a scan leaves the state consistent.
pub proof fn scans_keep_the_state_consistent(
    before: App,
    after: App,
    now: u128,
    stamp: Stamp,
    log_time: Seq<char>,
)
    requires
        before.is_consistent(),
        before.can_scan(),
        after.scan_begun(before, now, stamp, log_time),
    ensures
        after.is_consistent(),
{
    kept_rows_fit(before, after);
}

/// Taking in a result leaves the state consistent.
pub proof fn results_keep_the_state_consistent(
    before: App,
    after: App,
    scan_id: u64,
    host_id: u64,
    result: ProbeResult,
    now: Stamp,
    log_time: Seq<char>,
)
    requires
        before.is_consistent(),
        after.result_recorded(before, scan_id, host_id, result, now, log_time),
    ensures
        after.is_consistent(),
{
    result_reaches_only_its_host(before, after, scan_id, host_id, result, now, log_time);
    kept_rows_fit(before, after);
}

/// Taking in a result leaves the ids of the hosts as they are.
pub proof fn results_keep_ids_unique(
    before: App,
    after: App,
    scan_id: u64,
    host_id: u64,
    result: ProbeResult,
    now: Stamp,
    log_time: Seq<char>,
)
    requires
        before.has_unique_ids(),
        after.result_recorded(before, scan_id, host_id, result, now, log_time),
    ensures
        after.has_unique_ids(),
{
    result_reaches_only_its_host(before, after, scan_id, host_id, result, now, log_time);
    assert forall|g: int, h: int|
        0 <= g < after.groups@.len() && 0 <= h < after.groups@[g].hosts@.len() implies (
    #[trigger] after.groups@[g].hosts@[h]).id == before.groups@[g].hosts@[h].id by {
        if before.groups@[g].hosts@[h].id == host_id {
            result_reaches_its_host(
                before,
                after,
                scan_id,
                host_id,
                result,
                now,
                log_time,
                g,
                h,
            );
        }
    }
}

/// A tick of the loop leaves the state consistent.
pub proof fn ticks_keep_the_state_consistent(
    before: App,
    after: App,
    now: u128,
    stamp: Stamp,
    log_time: Seq<char>,
)
    requires
        before.is_consistent(),
        after.ticked(before, now, stamp, log_time),
    ensures
        after.is_consistent(),
{
    kept_rows_fit(before, after);
}

/// Reporting the outcome of an export leaves the state consistent.
pub proof fn exports_keep_the_state_consistent(
    before: App,
    after: App,
    outcome: Result<String, String>,
    now: u128,
    log_time: Seq<char>,
)
    requires
        before.is_consistent(),
        after.export_reported(before, outcome, now, log_time),
    ensures
        after.is_consistent(),
{
    kept_rows_fit(before, after);
}

proof fn warnings_keep_the_log_bounded(
    log: Seq<Seq<char>>,
    warnings: Seq<Seq<char>>,
    times: Seq<Seq<char>>,
    n: int,
)
    requires
        log.len() <= DEBUG_LOG_CAP,
    ensures
        warnings_logged(log, warnings, times, n).len() <= DEBUG_LOG_CAP,
    decreases n,
{
    if n > 0 {
        warnings_keep_the_log_bounded(log, warnings, times, n - 1);
    }
}

/// Reporting warnings leaves the state consistent.
pub proof fn warnings_keep_the_state_consistent(
    before: App,
    after: App,
    warnings: Seq<Seq<char>>,
    now: u128,
    times: Seq<Seq<char>>,
)
    requires
        before.is_consistent(),
        after.warnings_reported(before, warnings, now, times),
    ensures
        after.is_consistent(),
{
    kept_rows_fit(before, after);
    warnings_keep_the_log_bounded(before.log_lines(), warnings, times, warnings.len() as int);
}

} // verus!
