//! The state of the monitor: groups, the flat table of rows, tabs, search
//! filter, triage and selection.

use crate::clock::{Stamp, Stopwatch};
pub use crate::group::Group;
pub use crate::host::{Host, HostIds, HostStatus};
use crate::text::{
    ascii_lower, contains, contains_text, eq_ignore_case, lower, same_ignoring_case, texts,
    texts_push, trim, trimmed,
};
use std::collections::VecDeque;
use std::sync::Arc;
use vstd::prelude::*;

verus! {

/// Max number of debug log lines retained in the ring buffer.
pub const DEBUG_LOG_CAP: usize = 200;

/// Input focus: normal navigation vs editing the search filter.
#[derive(Debug, Clone, Copy, PartialEq, Eq, Structural)]
pub enum InputMode {
    Normal,
    Filter,
}

/// A row in the table. Either a group header or a host entry.
#[derive(Debug, Clone)]
pub enum TableRow {
    GroupHeader { name: String },
    HostEntry { group_idx: usize, host_idx: usize },
}

/// Which row of the table is selected, and which one is the first on screen.
#[derive(Debug, Clone, Copy, PartialEq, Eq, Structural)]
pub struct TableState {
    pub selected: Option<usize>,
    pub offset: usize,
}

impl TableState {
    /// The state with the given selection; without one the table is back at its top.
    pub open spec fn selecting(self, index: Option<usize>) -> TableState {
        TableState {
            selected: index,
            offset: if index is None {
                0
            } else {
                self.offset
            },
        }
    }

    /// Selects a row, or none.
    pub fn select(&mut self, index: Option<usize>)
        ensures
            *final(self) == old(self).selecting(index),
    {
        self.selected = index;
        if index.is_none() {
            self.offset = 0;
        }
    }
}

/// The monitor's state.
pub struct App {
    pub groups: Vec<Group>,
    pub table_state: TableState,
    pub rows: Vec<TableRow>,
    pub should_quit: bool,
    /// Seconds between automatic rescans.
    pub poll_interval: u64,
    /// Milliseconds that one TCP connect may take.
    pub connect_timeout_ms: u64,
    /// Caps simultaneous TCP connects across the whole scan.
    pub max_concurrent_probes: usize,
    /// TCP ports probed on each host (from config, or the built-in default).
    pub probe_ports: Arc<Vec<u16>>,
    pub last_poll: Option<Stamp>,
    pub is_scanning: bool,
    /// Generation counter, bumped each scan, so late results from a superseded
    /// scan do not affect completion tracking of the current one.
    pub current_scan: u64,
    /// Outstanding per-host results expected for the current scan.
    pub pending_results: usize,
    /// Backstop: force-finish a scan if results stop arriving past this point
    /// of `clock`, in nanoseconds.
    pub scan_deadline: Option<u128>,
    pub show_help: bool,
    pub status_message: Option<String>,
    /// When the current status message was set (for auto-expiry), by `clock`.
    pub status_set_at: Option<u128>,
    /// Tab labels: "All" followed by each group name.
    pub tabs: Vec<String>,
    /// Active tab: 0 = All, otherwise group index + 1.
    pub active_tab: usize,
    /// When true, the debug overlay is shown and event logging is verbose.
    pub show_debug: bool,
    /// Ring buffer of recent internal events, newest last.
    pub debug_log: VecDeque<String>,
    /// The monotonic clock by which spans are measured.
    pub clock: Stopwatch,
    /// When the most recent scan was kicked off (drives the idle countdown),
    /// by `clock`.
    pub last_scan: u128,
    /// Normal navigation vs editing the search filter.
    pub input_mode: InputMode,
    /// Committed search filter (matches host name or ip, case-insensitive).
    pub filter_query: String,
    /// Filter text currently being edited (before Enter commits it).
    pub filter_draft: String,
    /// When true, only hosts that are not Up are shown.
    pub triage: bool,
    /// Source of the ids of this monitor's hosts.
    pub host_ids: HostIds,
}

// ── Rows ─────────────────────────────────────────────────────────────────

/// The search finds the host: by name or address, up to case. An empty search
/// finds every host.
pub open spec fn found_by(h: Host, query: Seq<char>) -> bool {
    ||| query.len() == 0
    ||| contains_text(ascii_lower(h.name@), query)
    ||| contains_text(ascii_lower(h.ip@), query)
}

/// The host has a row: the search finds it, and in triage it is not up.
pub open spec fn is_shown(h: Host, query: Seq<char>, triage: bool) -> bool {
    found_by(h, query) && (!triage || h.status != HostStatus::Up)
}

/// The tab shows the group at position `g`.
pub open spec fn tab_shows(active_tab: int, g: int) -> bool {
    active_tab == 0 || active_tab == g + 1
}

/// The rows of the first `n` hosts of the group at position `g`.
pub open spec fn host_rows(
    hosts: Seq<Host>,
    g: int,
    query: Seq<char>,
    triage: bool,
    n: int,
) -> Seq<TableRow>
    decreases n,
{
    if n <= 0 {
        seq![]
    } else if is_shown(hosts[n - 1], query, triage) {
        host_rows(hosts, g, query, triage, n - 1).push(
            TableRow::HostEntry { group_idx: g as usize, host_idx: (n - 1) as usize },
        )
    } else {
        host_rows(hosts, g, query, triage, n - 1)
    }
}

/// The rows of the group at position `g`: none if the tab does not show it or
/// all its hosts are hidden; under a header on the tab of all groups.
pub open spec fn group_rows(
    groups: Seq<Group>,
    g: int,
    active_tab: int,
    query: Seq<char>,
    triage: bool,
) -> Seq<TableRow> {
    let hosts = host_rows(groups[g].hosts@, g, query, triage, groups[g].hosts@.len() as int);
    if !tab_shows(active_tab, g) || hosts.len() == 0 {
        seq![]
    } else if active_tab == 0 {
        seq![TableRow::GroupHeader { name: groups[g].name }] + hosts
    } else {
        hosts
    }
}

/// The rows of the first `n` groups.
pub open spec fn table_rows(
    groups: Seq<Group>,
    active_tab: int,
    query: Seq<char>,
    triage: bool,
    n: int,
) -> Seq<TableRow>
    decreases n,
{
    if n <= 0 {
        seq![]
    } else {
        table_rows(groups, active_tab, query, triage, n - 1) + group_rows(
            groups,
            n - 1,
            active_tab,
            query,
            triage,
        )
    }
}

/// The first of the first `n` rows that is a host's.
pub open spec fn first_host_row(rows: Seq<TableRow>, n: int) -> Option<usize>
    decreases n,
{
    if n <= 0 {
        None
    } else {
        match first_host_row(rows, n - 1) {
            Some(i) => Some(i),
            None => if rows[n - 1] is HostEntry {
                Some((n - 1) as usize)
            } else {
                None
            },
        }
    }
}

/// The index is that of a host's row.
pub open spec fn on_host_row(rows: Seq<TableRow>, index: Option<usize>) -> bool {
    index matches Some(i) && i < rows.len() && rows[i as int] is HostEntry
}

/// The table's state once its selection is on a host's row of `rows`, or is
/// none where there is no such row.
pub open spec fn clamped(rows: Seq<TableRow>, state: TableState) -> TableState {
    if on_host_row(rows, state.selected) {
        state
    } else {
        state.selecting(first_host_row(rows, rows.len() as int))
    }
}

// ── Hosts under a tab ────────────────────────────────────────────────────

/// How many of the first `n` hosts have the given status.
pub open spec fn status_count(hosts: Seq<Host>, status: HostStatus, n: int) -> nat
    decreases n,
{
    if n <= 0 {
        0
    } else {
        status_count(hosts, status, n - 1) + if hosts[n - 1].status == status {
            1nat
        } else {
            0nat
        }
    }
}

/// How many hosts of the first `n` groups that a tab shows have the given status.
pub open spec fn visible_with(
    groups: Seq<Group>,
    active_tab: int,
    status: HostStatus,
    n: int,
) -> nat
    decreases n,
{
    if n <= 0 {
        0
    } else {
        visible_with(groups, active_tab, status, n - 1) + if tab_shows(active_tab, n - 1) {
            status_count(groups[n - 1].hosts@, status, groups[n - 1].hosts@.len() as int)
        } else {
            0nat
        }
    }
}

/// How many hosts the first `n` groups that a tab shows have.
pub open spec fn visible_hosts(groups: Seq<Group>, active_tab: int, n: int) -> nat
    decreases n,
{
    if n <= 0 {
        0
    } else {
        visible_hosts(groups, active_tab, n - 1) + if tab_shows(active_tab, n - 1) {
            groups[n - 1].hosts@.len()
        } else {
            0nat
        }
    }
}

/// How many hosts the first `n` groups have.
pub open spec fn total_hosts(groups: Seq<Group>, n: int) -> nat
    decreases n,
{
    if n <= 0 {
        0
    } else {
        total_hosts(groups, n - 1) + groups[n - 1].hosts@.len()
    }
}

/// The first of the first `n` hosts with the given id.
pub open spec fn host_with_id(hosts: Seq<Host>, id: u64, n: int) -> Option<int>
    decreases n,
{
    if n <= 0 {
        None
    } else {
        match host_with_id(hosts, id, n - 1) {
            Some(i) => Some(i),
            None => if hosts[n - 1].id == id {
                Some(n - 1)
            } else {
                None
            },
        }
    }
}

/// Group and position of the first host with the given id in the first `n` groups.
pub open spec fn located(groups: Seq<Group>, id: u64, n: int) -> Option<(int, int)>
    decreases n,
{
    if n <= 0 {
        None
    } else {
        match located(groups, id, n - 1) {
            Some(at) => Some(at),
            None => match host_with_id(
                groups[n - 1].hosts@,
                id,
                groups[n - 1].hosts@.len() as int,
            ) {
                Some(h) => Some((n - 1, h)),
                None => None,
            },
        }
    }
}

/// `after` is `before` but for the host at position `h` of the group at position `g`.
pub open spec fn host_replaced(
    before: Seq<Group>,
    after: Seq<Group>,
    g: int,
    h: int,
    host: Host,
) -> bool {
    &&& after.len() == before.len()
    &&& after[g].name == before[g].name
    &&& after[g].hosts@ == before[g].hosts@.update(h, host)
    &&& forall|k: int| 0 <= k < before.len() && k != g ==> #[trigger] after[k] == before[k]
}

/// The labels of the tabs: "All", then each group's name.
pub open spec fn tab_labels(groups: Seq<Group>) -> Seq<Seq<char>> {
    seq!["All"@] + groups.map_values(|g: Group| g.name@)
}

/// The first of the first `n` tabs with the given label, up to case.
pub open spec fn tab_called(tabs: Seq<String>, label: Seq<char>, n: int) -> Option<int>
    decreases n,
{
    if n <= 0 {
        None
    } else {
        match tab_called(tabs, label, n - 1) {
            Some(i) => Some(i),
            None => if same_ignoring_case(tabs[n - 1]@, label) {
                Some(n - 1)
            } else {
                None
            },
        }
    }
}

/// The tab that an optional label names.
pub open spec fn tab_for(tabs: Seq<String>, label: Option<Seq<char>>) -> Option<int> {
    match label {
        Some(l) => tab_called(tabs, l, tabs.len() as int),
        None => None,
    }
}

/// The tab to open: the saved one, else the configured one, else the first. A
/// label that no tab has counts for nothing.
pub open spec fn opening_tab(
    tabs: Seq<String>,
    saved: Option<Seq<char>>,
    default_tab: Option<Seq<char>>,
) -> int {
    match tab_for(tabs, saved) {
        Some(i) => i,
        None => match tab_for(tabs, default_tab) {
            Some(i) => i,
            None => 0,
        },
    }
}

/// The characters of an optional text slice.
pub open spec fn slice_text(s: Option<&str>) -> Option<Seq<char>> {
    match s {
        Some(t) => Some(t@),
        None => None,
    }
}

/// Whether the search finds the host.
fn finds(h: &Host, query: &str) -> (r: bool)
    ensures
        r == found_by(*h, query@),
{
    query.is_empty() || contains(lower(h.name.as_str()).as_str(), query) || contains(
        lower(h.ip.as_str()).as_str(),
        query,
    )
}

impl App {
    /// The filter text in effect.
    pub open spec fn query_text(self) -> Seq<char> {
        if self.input_mode == InputMode::Filter {
            self.filter_draft@
        } else {
            self.filter_query@
        }
    }

    /// The form in which the filter is matched.
    pub open spec fn match_text(self) -> Seq<char> {
        ascii_lower(trimmed(self.query_text()))
    }

    /// The rows that tab, filter and triage call for.
    pub open spec fn wanted_rows(self) -> Seq<TableRow> {
        table_rows(
            self.groups@,
            self.active_tab as int,
            self.match_text(),
            self.triage,
            self.groups@.len() as int,
        )
    }

    /// `self` is `before` with its rows rebuilt and its selection put on one of them.
    pub open spec fn is_rebuilt(self, before: App) -> bool {
        &&& self.rows@ == before.wanted_rows()
        &&& self == (App {
            rows: self.rows,
            table_state: clamped(before.wanted_rows(), before.table_state),
            ..before
        })
    }

    /// How many hosts the active tab shows.
    pub open spec fn visible_count(self) -> nat {
        visible_hosts(self.groups@, self.active_tab as int, self.groups@.len() as int)
    }

    /// Group and position of the first host with the given id.
    pub open spec fn host_place(self, id: u64) -> Option<(int, int)> {
        located(self.groups@, id, self.groups@.len() as int)
    }

    /// No two hosts have the same id, and the next id that is handed out is larger
    /// than all of them.
    pub open spec fn has_unique_ids(self) -> bool {
        &&& forall|g: int, h: int|
            0 <= g < self.groups@.len() && 0 <= h < self.groups@[g].hosts@.len() ==> (
            #[trigger] self.groups@[g].hosts@[h]).id < self.host_ids.next
        &&& forall|g: int, h: int, k: int, j: int|
            0 <= g < self.groups@.len() && 0 <= h < self.groups@[g].hosts@.len() && 0 <= k
                < self.groups@.len() && 0 <= j < self.groups@[k].hosts@.len() && (
            #[trigger] self.groups@[g].hosts@[h]).id == (
            #[trigger] self.groups@[k].hosts@[j]).id ==> g == k && h == j
    }

    /// `self` is `before` with the filter being edited, from its committed text.
    pub open spec fn filter_entered(self, before: App) -> bool {
        self == (App {
            filter_draft: before.filter_query,
            input_mode: InputMode::Filter,
            ..before
        })
    }

    /// `self` is `before` with the edit discarded.
    pub open spec fn filter_cancelled(self, before: App) -> bool {
        &&& self.filter_draft@.len() == 0
        &&& self.is_rebuilt(
            App { filter_draft: self.filter_draft, input_mode: InputMode::Normal, ..before },
        )
    }

    /// `self` is `before` with the edited text, trimmed, as its filter.
    pub open spec fn filter_committed(self, before: App) -> bool {
        &&& self.filter_query@ == trimmed(before.filter_draft@)
        &&& self.is_rebuilt(
            App { filter_query: self.filter_query, input_mode: InputMode::Normal, ..before },
        )
    }

    /// `self` is `before` without a filter.
    pub open spec fn filter_cleared(self, before: App) -> bool {
        &&& self.filter_query@.len() == 0
        &&& self.filter_draft@.len() == 0
        &&& self.is_rebuilt(
            App { filter_query: self.filter_query, filter_draft: self.filter_draft, ..before },
        )
    }

    /// `self` is `before` with the edited text replaced.
    pub open spec fn draft_changed(self, before: App, draft: Seq<char>) -> bool {
        &&& self.filter_draft@ == draft
        &&& self.is_rebuilt(App { filter_draft: self.filter_draft, ..before })
    }

    /// The edited text without its last character.
    pub open spec fn shorter_draft(self) -> Seq<char> {
        if self.filter_draft@.len() == 0 {
            self.filter_draft@
        } else {
            self.filter_draft@.drop_last()
        }
    }

    /// `self` is `before` with triage switched.
    pub open spec fn triage_toggled(self, before: App) -> bool {
        self.is_rebuilt(App { triage: !before.triage, ..before })
    }

    /// `self` is `before` with another tab opened, if there is more than one.
    pub open spec fn tab_opened(self, before: App, tab: int) -> bool {
        if before.tabs@.len() < 2 {
            self == before
        } else {
            self.is_rebuilt(
                App {
                    active_tab: tab as usize,
                    table_state: before.table_state.selecting(None),
                    ..before
                },
            )
        }
    }

    /// The state with another row selected, if there is one.
    pub open spec fn row_selected(self, row: int) -> App {
        if self.rows@.len() == 0 {
            self
        } else {
            App { table_state: self.table_state.selecting(Some(row as usize)), ..self }
        }
    }

    /// The monitor has the given settings and nothing has happened to it: no scan,
    /// no message, no key.
    pub open spec fn is_idle(
        self,
        poll_interval: u64,
        connect_timeout_ms: u64,
        max_concurrent_probes: usize,
        probe_ports: Seq<u16>,
    ) -> bool {
        &&& self.poll_interval == poll_interval
        &&& self.connect_timeout_ms == connect_timeout_ms
        &&& self.max_concurrent_probes == (if max_concurrent_probes == 0 {
            1
        } else {
            max_concurrent_probes
        })
        &&& self.probe_ports@ == probe_ports
        &&& self.last_poll is None
        &&& !self.is_scanning
        &&& self.current_scan == 0
        &&& self.pending_results == 0
        &&& self.scan_deadline is None
        &&& self.last_scan == 0
        &&& self.status_message is None
        &&& self.status_set_at is None
        &&& self.debug_log@.len() == 0
        &&& !self.show_debug
        &&& !self.show_help
        &&& !self.should_quit
        &&& self.input_mode == InputMode::Normal
        &&& self.filter_query@.len() == 0
        &&& self.filter_draft@.len() == 0
        &&& !self.triage
    }

    /// A monitor without groups.
    pub fn new(
        poll_interval: u64,
        connect_timeout_ms: u64,
        max_concurrent_probes: usize,
        probe_ports: Vec<u16>,
    ) -> (r: App)
        ensures
            r.is_idle(poll_interval, connect_timeout_ms, max_concurrent_probes, probe_ports@),
            r.groups@.len() == 0,
            r.host_ids.next == 1,
            r.table_state == (TableState { selected: None, offset: 0 }),
            r.rows@.len() == 0,
            texts(r.tabs@) == seq!["All"@],
            r.active_tab == 0,
    {
        let mut tabs: Vec<String> = Vec::new();
        tabs.push("All".to_string());
        assert(texts(tabs@) =~= seq!["All"@]);
        App {
            groups: Vec::new(),
            table_state: TableState { selected: None, offset: 0 },
            rows: Vec::new(),
            should_quit: false,
            poll_interval,
            connect_timeout_ms,
            // A zero cap would let no probe through.
            max_concurrent_probes: if max_concurrent_probes == 0 {
                1
            } else {
                max_concurrent_probes
            },
            probe_ports: Arc::new(probe_ports),
            last_poll: None,
            is_scanning: false,
            current_scan: 0,
            pending_results: 0,
            scan_deadline: None,
            show_help: false,
            status_message: None,
            status_set_at: None,
            tabs,
            active_tab: 0,
            show_debug: false,
            debug_log: VecDeque::with_capacity(DEBUG_LOG_CAP),
            clock: Stopwatch::start(),
            last_scan: 0,
            input_mode: InputMode::Normal,
            filter_query: String::new(),
            filter_draft: String::new(),
            triage: false,
            host_ids: HostIds::new(),
        }
    }

    // ── Search filter ────────────────────────────────────────────────────

    /// Starts editing the filter, from its committed text.
    pub fn enter_filter(&mut self)
        ensures
            final(self).filter_entered(*old(self)),
    {
        self.filter_draft = self.filter_query.clone();
        self.input_mode = InputMode::Filter;
    }

    /// Discards the in-progress edit, keeps the previously committed filter.
    pub fn cancel_filter(&mut self)
        ensures
            final(self).filter_cancelled(*old(self)),
    {
        self.filter_draft = String::new();
        self.input_mode = InputMode::Normal;
        self.rebuild_rows();
    }

    /// Makes the edited text, trimmed, the filter.
    pub fn commit_filter(&mut self)
        ensures
            final(self).filter_committed(*old(self)),
    {
        self.filter_query = trim(self.filter_draft.as_str());
        self.input_mode = InputMode::Normal;
        self.rebuild_rows();
    }

    /// Clears an active committed filter.
    pub fn clear_filter(&mut self)
        ensures
            final(self).filter_cleared(*old(self)),
    {
        self.filter_query = String::new();
        self.filter_draft = String::new();
        self.rebuild_rows();
    }

    /// Appends a character to the edited text.
    pub fn push_filter_char(&mut self, c: char)
        ensures
            final(self).draft_changed(*old(self), old(self).filter_draft@.push(c)),
    {
        self.filter_draft.push(c);
        self.rebuild_rows();
    }

    /// Removes the last character of the edited text, if there is one.
    pub fn pop_filter_char(&mut self)
        ensures
            final(self).draft_changed(*old(self), old(self).shorter_draft()),
    {
        let _ = self.filter_draft.pop();
        self.rebuild_rows();
    }

    /// The filter text in effect for display/matching: the live draft while
    /// editing, otherwise the committed query.
    pub fn effective_query(&self) -> (r: &str)
        ensures
            r@ == self.query_text(),
    {
        if self.input_mode == InputMode::Filter {
            self.filter_draft.as_str()
        } else {
            self.filter_query.as_str()
        }
    }

    // ── Triage ───────────────────────────────────────────────────────────

    /// Switches triage on or off.
    pub fn toggle_triage(&mut self)
        ensures
            final(self).triage_toggled(*old(self)),
    {
        self.triage = !self.triage;
        self.rebuild_rows();
    }

    // ── Rows ─────────────────────────────────────────────────────────────

    /// Rebuilds the flat row list from groups, applying the active tab, search
    /// filter, and triage toggle. Call after any structural or filter change.
    pub fn rebuild_rows(&mut self)
        ensures
            final(self).is_rebuilt(*old(self)),
    {
        let query = lower(trim(self.effective_query()).as_str());
        let triage = self.triage;
        let active_tab: usize = self.active_tab;
        let mut rows: Vec<TableRow> = Vec::new();
        for g in 0..self.groups.len()
            invariant
                *self == *old(self),
                query@ == self.match_text(),
                triage == self.triage,
                active_tab == self.active_tab,
                rows@ == table_rows(
                    self.groups@,
                    active_tab as int,
                    query@,
                    triage,
                    g as int,
                ),
        {
            if active_tab == 0 || active_tab == g + 1 {
                let group = &self.groups[g];
                let mut shown = shown_rows(group, g, query.as_str(), triage);
                // Suppress a group whose hosts were all filtered out.
                if shown.len() > 0 {
                    // On a single-group tab the tab label already names the group.
                    if active_tab == 0 {
                        rows.push(TableRow::GroupHeader { name: group.name.clone() });
                    }
                    rows.append(&mut shown);
                }
            }
            assert(rows@ =~= table_rows(self.groups@, active_tab as int, query@, triage, g + 1));
        }
        self.rows = rows;
        self.clamp_selection();
    }

    /// Keeps the selection on a real host row after the row set changes.
    fn clamp_selection(&mut self)
        ensures
            *final(self) == (App {
                table_state: clamped(old(self).rows@, old(self).table_state),
                ..*old(self)
            }),
    {
        let valid = match self.table_state.selected {
            Some(i) => i < self.rows.len() && matches!(self.rows[i], TableRow::HostEntry { .. }),
            None => false,
        };
        if !valid {
            let mut first: Option<usize> = None;
            for i in 0..self.rows.len()
                invariant
                    *self == *old(self),
                    first == first_host_row(self.rows@, i as int),
            {
                if first.is_none() && matches!(self.rows[i], TableRow::HostEntry { .. }) {
                    first = Some(i);
                }
            }
            self.table_state.select(first);
        }
    }
}

// ── Tabs ─────────────────────────────────────────────────────────────────

/// The tab after the active one, round again to the first.
pub open spec fn tab_after(active_tab: int, tabs: int) -> int {
    (active_tab + 1) % tabs
}

/// The tab before the active one, round again to the last.
pub open spec fn tab_before(active_tab: int, tabs: int) -> int {
    if active_tab == 0 {
        tabs - 1
    } else {
        active_tab - 1
    }
}

/// The row after the selected one, round again to the first; the first where
/// none is selected.
pub open spec fn row_after(selected: Option<usize>, rows: int) -> int {
    match selected {
        Some(i) => (i + 1) % rows,
        None => 0,
    }
}

/// The row before the selected one, round again to the last; the first where
/// none is selected.
pub open spec fn row_before(selected: Option<usize>, rows: int) -> int {
    match selected {
        Some(i) => if i == 0 {
            rows - 1
        } else {
            i - 1
        },
        None => 0,
    }
}

impl App {
    /// Builds the tab list ("All" + each group name). Call after groups load.
    pub fn build_tabs(&mut self)
        ensures
            texts(final(self).tabs@) == tab_labels(old(self).groups@),
            *final(self) == (App {
                tabs: final(self).tabs,
                active_tab: if old(self).active_tab > old(self).groups@.len() {
                    0
                } else {
                    old(self).active_tab
                },
                ..*old(self)
            }),
    {
        let mut tabs: Vec<String> = Vec::new();
        tabs.push("All".to_string());
        let ghost names = self.groups@.map_values(|g: Group| g.name@);
        assert(texts(tabs@) =~= seq!["All"@] + names.take(0));
        for g in 0..self.groups.len()
            invariant
                *self == *old(self),
                names == self.groups@.map_values(|g: Group| g.name@),
                texts(tabs@) == seq!["All"@] + names.take(g as int),
                tabs.len() == g + 1,
        {
            let name = self.groups[g].name.clone();
            proof {
                texts_push(tabs@, name);
                assert(names.take(g + 1) =~= names.take(g as int).push(name@));
                assert(seq!["All"@] + names.take(g as int).push(name@) =~= (seq!["All"@]
                    + names.take(g as int)).push(name@));
            }
            tabs.push(name);
        }
        assert(names.take(self.groups@.len() as int) =~= names);
        self.tabs = tabs;
        if self.active_tab >= self.tabs.len() {
            self.active_tab = 0;
        }
    }

    /// Opens the next tab, round again to the first.
    pub fn next_tab(&mut self)
        requires
            old(self).tabs@.len() >= 2 ==> old(self).active_tab < usize::MAX,
        ensures
            final(self).tab_opened(
                *old(self),
                tab_after(old(self).active_tab as int, old(self).tabs@.len() as int),
            ),
    {
        if self.tabs.len() < 2 {
            return;
        }
        self.active_tab = (self.active_tab + 1) % self.tabs.len();
        self.table_state.select(None);
        self.rebuild_rows();
    }

    /// Opens the previous tab, round again to the last.
    pub fn prev_tab(&mut self)
        ensures
            final(self).tab_opened(
                *old(self),
                tab_before(old(self).active_tab as int, old(self).tabs@.len() as int),
            ),
    {
        if self.tabs.len() < 2 {
            return;
        }
        self.active_tab = if self.active_tab == 0 {
            self.tabs.len() - 1
        } else {
            self.active_tab - 1
        };
        self.table_state.select(None);
        self.rebuild_rows();
    }

    /// The first tab with the given label, up to case.
    fn tab_position(&self, label: &str) -> (r: Option<usize>)
        ensures
            match r {
                Some(i) => i < self.tabs@.len() && tab_called(
                    self.tabs@,
                    label@,
                    self.tabs@.len() as int,
                ) == Some(i as int),
                None => tab_called(self.tabs@, label@, self.tabs@.len() as int) is None,
            },
    {
        let mut found: Option<usize> = None;
        for i in 0..self.tabs.len()
            invariant
                match found {
                    Some(k) => k < i && tab_called(self.tabs@, label@, i as int) == Some(
                        k as int,
                    ),
                    None => tab_called(self.tabs@, label@, i as int) is None,
                },
        {
            if found.is_none() && eq_ignore_case(self.tabs[i].as_str(), label) {
                found = Some(i);
            }
        }
        found
    }

    /// Precedence: saved last tab > config default tab > "All" (0). Any label
    /// that no longer matches a tab falls through to the next.
    pub fn resolve_tab(&self, saved: Option<&str>, default_tab: Option<&str>) -> (r: usize)
        ensures
            r == opening_tab(self.tabs@, slice_text(saved), slice_text(default_tab)),
    {
        if let Some(label) = saved {
            if let Some(i) = self.tab_position(label) {
                return i;
            }
        }
        if let Some(label) = default_tab {
            if let Some(i) = self.tab_position(label) {
                return i;
            }
        }
        0
    }

    /// Opens the tab that the contents of the state file and the configuration
    /// call for. A blank state file names no tab.
    pub fn restore_active_tab(&mut self, state_file: Option<&str>, default_tab: Option<&str>)
        ensures
            final(self).active_tab == opening_tab(
                old(self).tabs@,
                saved_label(slice_text(state_file)),
                slice_text(default_tab),
            ),
            *final(self) == (App { active_tab: final(self).active_tab, ..*old(self) }),
    {
        let tab: usize = match state_file {
            Some(contents) => {
                let label = trim(contents);
                if label.as_str().is_empty() {
                    self.resolve_tab(None, default_tab)
                } else {
                    self.resolve_tab(Some(label.as_str()), default_tab)
                }
            },
            None => self.resolve_tab(None, default_tab),
        };
        self.active_tab = tab;
    }

    /// The label of the active tab, which is what the state file keeps.
    pub fn active_label(&self) -> (r: Option<&String>)
        ensures
            match r {
                Some(label) => self.active_tab < self.tabs@.len() && *label
                    == self.tabs@[self.active_tab as int],
                None => self.active_tab >= self.tabs@.len(),
            },
    {
        if self.active_tab < self.tabs.len() {
            Some(&self.tabs[self.active_tab])
        } else {
            None
        }
    }

    // ── Hosts ────────────────────────────────────────────────────────────

    /// Hosts shown under the active tab.
    pub fn visible_host_count(&self) -> (r: usize)
        requires
            self.visible_count() <= usize::MAX,
        ensures
            r == self.visible_count(),
    {
        let mut sum: usize = 0;
        for g in 0..self.groups.len()
            invariant
                self.visible_count() <= usize::MAX,
                sum == visible_hosts(self.groups@, self.active_tab as int, g as int),
        {
            proof {
                visible_hosts_grow(
                    self.groups@,
                    self.active_tab as int,
                    g + 1,
                    self.groups@.len() as int,
                );
            }
            if self.active_tab == 0 || self.active_tab == g + 1 {
                sum = sum + self.groups[g].hosts.len();
            }
        }
        sum
    }

    /// Up / down / unknown counts for the hosts under the active tab.
    pub fn counts(&self) -> (r: (usize, usize, usize))
        requires
            self.visible_count() <= usize::MAX,
        ensures
            r.0 == self.count_of(HostStatus::Up),
            r.1 == self.count_of(HostStatus::Down),
            r.2 == self.count_of(HostStatus::Unknown),
    {
        (
            self.count_visible(HostStatus::Up),
            self.count_visible(HostStatus::Down),
            self.count_visible(HostStatus::Unknown),
        )
    }

    /// How many hosts under the active tab have the given status.
    pub open spec fn count_of(self, status: HostStatus) -> nat {
        visible_with(self.groups@, self.active_tab as int, status, self.groups@.len() as int)
    }

    fn count_visible(&self, status: HostStatus) -> (r: usize)
        requires
            self.visible_count() <= usize::MAX,
        ensures
            r == self.count_of(status),
    {
        let mut sum: usize = 0;
        for g in 0..self.groups.len()
            invariant
                self.visible_count() <= usize::MAX,
                sum == visible_with(self.groups@, self.active_tab as int, status, g as int),
        {
            proof {
                visible_hosts_grow(
                    self.groups@,
                    self.active_tab as int,
                    g + 1,
                    self.groups@.len() as int,
                );
                some_visible(self.groups@, self.active_tab as int, status, g as int);
                some_of(
                    self.groups@[g as int].hosts@,
                    status,
                    self.groups@[g as int].hosts@.len() as int,
                );
            }
            if self.active_tab == 0 || self.active_tab == g + 1 {
                sum = sum + count_status(&self.groups[g].hosts, status);
            }
        }
        sum
    }

    /// Group and position of the first host with the given id.
    pub fn find_host(&self, id: u64) -> (r: Option<(usize, usize)>)
        ensures
            match r {
                Some((g, h)) => self.host_place(id) == Some((g as int, h as int)) && g
                    < self.groups@.len() && h < self.groups@[g as int].hosts@.len(),
                None => self.host_place(id) is None,
            },
    {
        let mut found: Option<(usize, usize)> = None;
        for g in 0..self.groups.len()
            invariant
                match found {
                    Some((i, h)) => located(self.groups@, id, g as int) == Some(
                        (i as int, h as int),
                    ) && i < g && h < self.groups@[i as int].hosts@.len(),
                    None => located(self.groups@, id, g as int) is None,
                },
        {
            if found.is_none() {
                if let Some(h) = position_of_id(&self.groups[g].hosts, id) {
                    found = Some((g, h));
                }
            }
        }
        found
    }

    /// Finds a host anywhere in any group by its stable id.
    pub fn find_host_mut(&mut self, id: u64) -> (r: Option<&mut Host>)
        ensures
            match r {
                Some(host) => {
                    &&& old(self).host_place(id) matches Some((g, h))
                    &&& *host == old(self).groups@[g].hosts@[h]
                    &&& host_replaced(
                        old(self).groups@,
                        final(self).groups@,
                        g,
                        h,
                        *final(host),
                    )
                    &&& *final(self) == (App { groups: final(self).groups, ..*old(self) })
                },
                None => old(self).host_place(id) is None && *final(self) == *old(self),
            },
    {
        match self.find_host(id) {
            Some((g, h)) => Some(&mut self.groups[g].hosts[h]),
            None => None,
        }
    }

    /// Gets the host at the selected row, if any.
    pub fn selected_host(&self) -> (r: Option<&Host>)
        ensures
            match r {
                Some(host) => self.selected_entry() matches Some((g, h)) && g < self.groups@.len()
                    && h < self.groups@[g as int].hosts@.len() && *host
                    == self.groups@[g as int].hosts@[h as int],
                None => self.selected_entry() matches Some((g, h)) ==> g >= self.groups@.len()
                    || h >= self.groups@[g as int].hosts@.len(),
            },
    {
        let i: usize = match self.table_state.selected {
            Some(i) => i,
            None => {
                return None;
            },
        };
        if i >= self.rows.len() {
            return None;
        }
        match &self.rows[i] {
            TableRow::HostEntry { group_idx, host_idx } => {
                if *group_idx < self.groups.len() && *host_idx < self.groups[*group_idx].hosts.len() {
                    Some(&self.groups[*group_idx].hosts[*host_idx])
                } else {
                    None
                }
            },
            TableRow::GroupHeader { .. } => None,
        }
    }

    /// Group and position that the selected row holds, if it is a host's.
    pub open spec fn selected_entry(self) -> Option<(usize, usize)> {
        match self.table_state.selected {
            Some(i) => if i < self.rows@.len() {
                match self.rows@[i as int] {
                    TableRow::HostEntry { group_idx, host_idx } => Some((group_idx, host_idx)),
                    TableRow::GroupHeader { .. } => None,
                }
            } else {
                None
            },
            None => None,
        }
    }

    /// Selects the next row, round again to the first.
    pub fn next_row(&mut self)
        requires
            old(self).rows@.len() > 0 ==> old(self).table_state.selected != Some(usize::MAX),
        ensures
            *final(self) == old(self).row_selected(
                row_after(old(self).table_state.selected, old(self).rows@.len() as int),
            ),
    {
        if self.rows.len() == 0 {
            return;
        }
        let i: usize = match self.table_state.selected {
            Some(i) => (i + 1) % self.rows.len(),
            None => 0,
        };
        self.table_state.select(Some(i));
    }

    /// Selects the previous row, round again to the last.
    pub fn prev_row(&mut self)
        ensures
            *final(self) == old(self).row_selected(
                row_before(old(self).table_state.selected, old(self).rows@.len() as int),
            ),
    {
        if self.rows.len() == 0 {
            return;
        }
        let i: usize = match self.table_state.selected {
            Some(i) => {
                if i == 0 {
                    self.rows.len() - 1
                } else {
                    i - 1
                }
            },
            None => 0,
        };
        self.table_state.select(Some(i));
    }
}

/// The label in the contents of a state file; a blank one holds none.
pub open spec fn saved_label(contents: Option<Seq<char>>) -> Option<Seq<char>> {
    match contents {
        Some(c) => if trimmed(c).len() == 0 {
            None
        } else {
            Some(trimmed(c))
        },
        None => None,
    }
}

proof fn visible_hosts_grow(groups: Seq<Group>, active_tab: int, n: int, m: int)
    requires
        n <= m,
    ensures
        visible_hosts(groups, active_tab, n) <= visible_hosts(groups, active_tab, m),
    decreases m - n,
{
    if n < m {
        visible_hosts_grow(groups, active_tab, n, m - 1);
    }
}

proof fn some_of(hosts: Seq<Host>, status: HostStatus, n: int)
    ensures
        status_count(hosts, status, n) <= if n < 0 {
            0
        } else {
            n
        },
    decreases n,
{
    if n > 0 {
        some_of(hosts, status, n - 1);
    }
}

proof fn some_visible(groups: Seq<Group>, active_tab: int, status: HostStatus, n: int)
    ensures
        visible_with(groups, active_tab, status, n) <= visible_hosts(groups, active_tab, n),
    decreases n,
{
    if n > 0 {
        some_visible(groups, active_tab, status, n - 1);
        some_of(groups[n - 1].hosts@, status, groups[n - 1].hosts@.len() as int);
    }
}

/// How many of the hosts have the given status.
fn count_status(hosts: &Vec<Host>, status: HostStatus) -> (r: usize)
    ensures
        r == status_count(hosts@, status, hosts@.len() as int),
{
    let mut sum: usize = 0;
    for h in 0..hosts.len()
        invariant
            sum == status_count(hosts@, status, h as int),
            sum <= h,
    {
        if hosts[h].status == status {
            sum = sum + 1;
        }
    }
    sum
}

/// The position of the first host with the given id.
fn position_of_id(hosts: &Vec<Host>, id: u64) -> (r: Option<usize>)
    ensures
        match r {
            Some(i) => i < hosts@.len() && host_with_id(hosts@, id, hosts@.len() as int) == Some(
                i as int,
            ),
            None => host_with_id(hosts@, id, hosts@.len() as int) is None,
        },
{
    let mut found: Option<usize> = None;
    for i in 0..hosts.len()
        invariant
            match found {
                Some(k) => k < i && host_with_id(hosts@, id, i as int) == Some(k as int),
                None => host_with_id(hosts@, id, i as int) is None,
            },
    {
        if found.is_none() && hosts[i].id == id {
            found = Some(i);
        }
    }
    found
}

/// The rows of the hosts of one group.
fn shown_rows(group: &Group, g: usize, query: &str, triage: bool) -> (r: Vec<TableRow>)
    ensures
        r@ == host_rows(group.hosts@, g as int, query@, triage, group.hosts@.len() as int),
{
    let mut rows: Vec<TableRow> = Vec::new();
    for h in 0..group.hosts.len()
        invariant
            rows@ == host_rows(group.hosts@, g as int, query@, triage, h as int),
    {
        let host = &group.hosts[h];
        if finds(host, query) && (!triage || host.status != HostStatus::Up) {
            rows.push(TableRow::HostEntry { group_idx: g, host_idx: h });
        }
    }
    rows
}

} // verus!
