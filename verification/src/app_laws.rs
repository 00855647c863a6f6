//! Laws of the table, its selection, the tabs and the search filter.

use crate::app::{
    first_host_row, group_rows, host_replaced, host_rows, host_with_id, is_shown, located,
    on_host_row, opening_tab, row_after, row_before, saved_label, slice_text, status_count,
    tab_after, tab_before, tab_called, tab_labels, tab_shows, table_rows, total_hosts,
    visible_hosts, visible_with, App, Group, Host, HostStatus, InputMode, TableRow, TableState,
};
use crate::text::{ascii_lower, contains_text, same_ignoring_case, trimmed};
use vstd::prelude::*;

verus! {

// ── Rows ─────────────────────────────────────────────────────────────────

/// The row of the host at position `h` of the group at position `g`.
pub open spec fn entry(g: int, h: int) -> TableRow {
    TableRow::HostEntry { group_idx: g as usize, host_idx: h as usize }
}

proof fn host_rows_are_shown_hosts(
    hosts: Seq<Host>,
    g: int,
    query: Seq<char>,
    triage: bool,
    n: int,
)
    requires
        0 <= n <= hosts.len() <= usize::MAX,
        0 <= g <= usize::MAX,
    ensures
        forall|i: int|
            0 <= i < host_rows(hosts, g, query, triage, n).len() ==> exists|h: int|
                0 <= h < n && is_shown(hosts[h], query, triage) && #[trigger] host_rows(
                    hosts,
                    g,
                    query,
                    triage,
                    n,
                )[i] == #[trigger] entry(g, h),
        forall|h: int|
            0 <= h < n && is_shown(hosts[h], query, triage) ==> host_rows(
                hosts,
                g,
                query,
                triage,
                n,
            ).contains(#[trigger] entry(g, h)),
    decreases n,
{
    if n > 0 {
        host_rows_are_shown_hosts(hosts, g, query, triage, n - 1);
        let front = host_rows(hosts, g, query, triage, n - 1);
        let r = host_rows(hosts, g, query, triage, n);
        assert forall|i: int| 0 <= i < r.len() implies exists|h: int|
            0 <= h < n && is_shown(hosts[h], query, triage) && #[trigger] r[i]
                == #[trigger] entry(g, h) by {
            if i < front.len() {
                assert(r[i] == front[i]);
                let h = choose|h: int|
                    0 <= h < n - 1 && is_shown(hosts[h], query, triage) && front[i]
                        == #[trigger] entry(g, h);
                assert(r[i] == entry(g, h));
            } else {
                assert(r[i] == entry(g, n - 1));
            }
        }
        assert forall|h: int|
            0 <= h < n && is_shown(hosts[h], query, triage) implies r.contains(
            #[trigger] entry(g, h),
        ) by {
            if h < n - 1 {
                let k = choose|k: int| 0 <= k < front.len() && front[k] == entry(g, h);
                assert(r[k] == entry(g, h));
            } else {
                assert(r[r.len() - 1] == entry(g, h));
            }
        }
    }
}

/// The group and position of a host that tab, search and triage let through.
pub open spec fn has_row(
    groups: Seq<Group>,
    active_tab: int,
    query: Seq<char>,
    triage: bool,
    g: int,
    h: int,
) -> bool {
    &&& 0 <= g < groups.len()
    &&& 0 <= h < groups[g].hosts@.len()
    &&& tab_shows(active_tab, g)
    &&& is_shown(groups[g].hosts@[h], query, triage)
}

proof fn table_rows_are_shown_hosts(
    groups: Seq<Group>,
    active_tab: int,
    query: Seq<char>,
    triage: bool,
    n: int,
)
    requires
        0 <= n <= groups.len() <= usize::MAX,
    ensures
        forall|i: int|
            0 <= i < table_rows(groups, active_tab, query, triage, n).len() && table_rows(
                groups,
                active_tab,
                query,
                triage,
                n,
            )[i] is HostEntry ==> exists|g: int, h: int|
                g < n && has_row(groups, active_tab, query, triage, g, h)
                    && #[trigger] table_rows(groups, active_tab, query, triage, n)[i]
                    == #[trigger] entry(g, h),
        forall|g: int, h: int|
            g < n && has_row(groups, active_tab, query, triage, g, h) ==> table_rows(
                groups,
                active_tab,
                query,
                triage,
                n,
            ).contains(#[trigger] entry(g, h)),
        forall|i: int|
            0 <= i < table_rows(groups, active_tab, query, triage, n).len() && (
            #[trigger] table_rows(groups, active_tab, query, triage, n)[i]) is GroupHeader
                ==> active_tab == 0 && i + 1 < table_rows(
                groups,
                active_tab,
                query,
                triage,
                n,
            ).len() && table_rows(groups, active_tab, query, triage, n)[i + 1] is HostEntry,
    decreases n,
{
    if n > 0 {
        table_rows_are_shown_hosts(groups, active_tab, query, triage, n - 1);
        let g = n - 1;
        let hosts = groups[g].hosts;
        assert(hosts@.len() == hosts.len());
        host_rows_are_shown_hosts(hosts@, g, query, triage, hosts@.len() as int);
        let rows = host_rows(hosts@, g, query, triage, hosts@.len() as int);
        let front = table_rows(groups, active_tab, query, triage, n - 1);
        let back = group_rows(groups, g, active_tab, query, triage);
        let r = table_rows(groups, active_tab, query, triage, n);
        let lead = back.len() - rows.len();
        assert forall|i: int|
            0 <= i < r.len() && r[i] is HostEntry implies exists|g: int, h: int|
            g < n && has_row(groups, active_tab, query, triage, g, h) && #[trigger] r[i]
                == #[trigger] entry(g, h) by {
            if i < front.len() {
                assert(r[i] == front[i]);
                let (a, b) = choose|a: int, b: int|
                    a < n - 1 && has_row(groups, active_tab, query, triage, a, b) && front[i]
                        == #[trigger] entry(a, b);
                assert(r[i] == entry(a, b));
            } else {
                let k = i - front.len();
                assert(r[i] == back[k]);
                assert(back[k] == rows[k - lead]);
                let h = choose|h: int|
                    0 <= h < hosts@.len() && is_shown(hosts@[h], query, triage) && rows[k - lead]
                        == #[trigger] entry(g, h);
                assert(has_row(groups, active_tab, query, triage, g, h));
                assert(r[i] == entry(g, h));
            }
        }
        assert forall|a: int, h: int|
            a < n && has_row(groups, active_tab, query, triage, a, h) implies r.contains(
            #[trigger] entry(a, h),
        ) by {
            if a < n - 1 {
                let k = choose|k: int| 0 <= k < front.len() && front[k] == entry(a, h);
                assert(r[k] == entry(a, h));
            } else {
                let k = choose|k: int| 0 <= k < rows.len() && rows[k] == entry(a, h);
                assert(back[k + lead] == rows[k]);
                assert(r[front.len() + lead + k] == entry(a, h));
            }
        }
        assert forall|i: int| 0 <= i < r.len() && (#[trigger] r[i]) is GroupHeader implies active_tab
            == 0 && i + 1 < r.len() && r[i + 1] is HostEntry by {
            if i < front.len() {
                assert(r[i] == front[i]);
                assert(r[i + 1] == front[i + 1]);
            } else {
                let k = i - front.len();
                assert(r[i] == back[k]);
                if k >= lead {
                    assert(back[k] == rows[k - lead]);
                } else {
                    assert(r[i + 1] == back[k + 1]);
                    assert(back[k + 1] == rows[0]);
                }
            }
        }
    }
}

/// Every host row of a rebuilt table is that of a host which exists, and which
/// tab, search and triage let through; every such host has a row; and a header
/// stands only on the tab of all groups, with a host's row right after it.
pub proof fn table_shows_what_it_should(before: App, after: App)
    requires
        after.is_rebuilt(before),
    ensures
        forall|i: int|
            0 <= i < after.rows@.len() ==> (#[trigger] after.rows@[i] matches TableRow::HostEntry {
                group_idx,
                host_idx,
            } ==> has_row(
                after.groups@,
                after.active_tab as int,
                after.match_text(),
                after.triage,
                group_idx as int,
                host_idx as int,
            )),
        forall|g: int, h: int|
            has_row(
                after.groups@,
                after.active_tab as int,
                after.match_text(),
                after.triage,
                g,
                h,
            ) ==> after.rows@.contains(#[trigger] entry(g, h)),
        forall|i: int|
            0 <= i < after.rows@.len() && (#[trigger] after.rows@[i]) is GroupHeader
                ==> after.active_tab == 0 && i + 1 < after.rows@.len() && after.rows@[i
                + 1] is HostEntry,
{
    let n = after.groups@.len() as int;
    assert(after.groups.len() == n);
    assert(after.wanted_rows() == before.wanted_rows());
    table_rows_are_shown_hosts(
        after.groups@,
        after.active_tab as int,
        after.match_text(),
        after.triage,
        n,
    );
    assert forall|i: int| 0 <= i < after.rows@.len() implies (
    #[trigger] after.rows@[i] matches TableRow::HostEntry { group_idx, host_idx } ==> has_row(
        after.groups@,
        after.active_tab as int,
        after.match_text(),
        after.triage,
        group_idx as int,
        host_idx as int,
    )) by {
        if after.rows@[i] is HostEntry {
            let (g, h) = choose|g: int, h: int|
                g < n && has_row(
                    after.groups@,
                    after.active_tab as int,
                    after.match_text(),
                    after.triage,
                    g,
                    h,
                ) && after.rows@[i] == #[trigger] entry(g, h);
            assert(after.groups@[g].hosts.len() == after.groups@[g].hosts@.len());
        }
    }
}

proof fn first_host_row_is_one(rows: Seq<TableRow>, n: int)
    requires
        0 <= n <= rows.len() <= usize::MAX,
    ensures
        match first_host_row(rows, n) {
            Some(i) => i < n && rows[i as int] is HostEntry,
            None => forall|k: int| 0 <= k < n ==> !((#[trigger] rows[k]) is HostEntry),
        },
    decreases n,
{
    if n > 0 {
        first_host_row_is_one(rows, n - 1);
    }
}

/// After a rebuild the selection is on the row of a host that exists; it is none
/// only where the table has no host row. A selection that was on a host row of
/// the new table stays.
pub proof fn selection_is_on_a_host(before: App, after: App)
    requires
        after.is_rebuilt(before),
    ensures
        on_host_row(after.rows@, after.table_state.selected) <==> exists|i: int|
            0 <= i < after.rows@.len() && (#[trigger] after.rows@[i]) is HostEntry,
        after.table_state.selected is Some ==> on_host_row(
            after.rows@,
            after.table_state.selected,
        ),
        after.selected_entry() matches Some((g, h)) ==> g < after.groups@.len() && h
            < after.groups@[g as int].hosts@.len(),
        on_host_row(after.rows@, before.table_state.selected) ==> after.table_state
            == before.table_state,
{
    assert(after.rows.len() == after.rows@.len());
    first_host_row_is_one(after.rows@, after.rows@.len() as int);
    table_shows_what_it_should(before, after);
    if let Some(i) = after.table_state.selected {
        assert(after.rows@[i as int] is HostEntry);
    }
}

/// Rebuilding twice is rebuilding once.
pub proof fn rebuilding_again_changes_nothing(first: App, second: App, third: App)
    requires
        second.is_rebuilt(first),
        third.is_rebuilt(second),
    ensures
        third.rows@ == second.rows@,
        third.table_state == second.table_state,
{
    assert(second.rows.len() == second.rows@.len());
    first_host_row_is_one(second.rows@, second.rows@.len() as int);
}

/// Switching triage on and off again brings the same rows back.
pub proof fn triage_twice_restores_rows(first: App, second: App, third: App)
    requires
        second.is_rebuilt(App { triage: !first.triage, ..first }),
        third.is_rebuilt(App { triage: !second.triage, ..second }),
    ensures
        third.rows@ == first.wanted_rows(),
        third.triage == first.triage,
{
}

/// Giving up an edit of the filter brings back the rows of the committed filter,
/// whatever was typed.
pub proof fn cancelling_restores_rows(committed: App, editing: App, cancelled: App)
    requires
        committed.input_mode == InputMode::Normal,
        editing.groups == committed.groups,
        editing.active_tab == committed.active_tab,
        editing.triage == committed.triage,
        editing.filter_query == committed.filter_query,
        cancelled.is_rebuilt(
            App {
                filter_draft: cancelled.filter_draft,
                input_mode: InputMode::Normal,
                ..editing
            },
        ),
    ensures
        cancelled.rows@ == committed.wanted_rows(),
        cancelled.filter_query == committed.filter_query,
{
}

/// Outside triage a blank filter hides nothing: on the tab of all groups every
/// host has a row.
pub proof fn blank_filter_hides_nothing(before: App, after: App, g: int, h: int)
    requires
        after.is_rebuilt(before),
        before.active_tab == 0,
        !before.triage,
        trimmed(before.query_text()).len() == 0,
        0 <= g < before.groups@.len(),
        0 <= h < before.groups@[g].hosts@.len(),
    ensures
        after.rows@.contains(entry(g, h)),
{
    table_shows_what_it_should(before, after);
    assert(before.match_text().len() == 0);
    assert(has_row(
        after.groups@,
        after.active_tab as int,
        after.match_text(),
        after.triage,
        g,
        h,
    ));
}

/// The row `a` stands before the row `b` in the order of groups and hosts; a
/// header has no place of its own in it.
pub open spec fn in_group_order(a: TableRow, b: TableRow) -> bool {
    match (a, b) {
        (
            TableRow::HostEntry { group_idx: g, host_idx: h },
            TableRow::HostEntry { group_idx: k, host_idx: j },
        ) => g < k || g == k && h < j,
        _ => true,
    }
}

proof fn host_rows_in_order(hosts: Seq<Host>, g: int, query: Seq<char>, triage: bool, n: int)
    requires
        0 <= n <= hosts.len() <= usize::MAX,
        0 <= g <= usize::MAX,
    ensures
        forall|i: int|
            0 <= i < host_rows(hosts, g, query, triage, n).len() ==> (#[trigger] host_rows(
                hosts,
                g,
                query,
                triage,
                n,
            )[i] matches TableRow::HostEntry { group_idx, host_idx } && group_idx == g && host_idx
                < n),
        forall|i: int, j: int|
            0 <= i < j < host_rows(hosts, g, query, triage, n).len() ==> in_group_order(
                #[trigger] host_rows(hosts, g, query, triage, n)[i],
                #[trigger] host_rows(hosts, g, query, triage, n)[j],
            ),
    decreases n,
{
    if n > 0 {
        host_rows_in_order(hosts, g, query, triage, n - 1);
    }
}

proof fn table_rows_in_order(
    groups: Seq<Group>,
    active_tab: int,
    query: Seq<char>,
    triage: bool,
    n: int,
)
    requires
        0 <= n <= groups.len() <= usize::MAX,
    ensures
        forall|i: int|
            0 <= i < table_rows(groups, active_tab, query, triage, n).len() ==> (
            #[trigger] table_rows(groups, active_tab, query, triage, n)[i] matches TableRow::HostEntry {
                group_idx,
                ..
            } ==> group_idx < n),
        forall|i: int, j: int|
            0 <= i < j < table_rows(groups, active_tab, query, triage, n).len() ==> in_group_order(
                #[trigger] table_rows(groups, active_tab, query, triage, n)[i],
                #[trigger] table_rows(groups, active_tab, query, triage, n)[j],
            ),
    decreases n,
{
    if n > 0 {
        table_rows_in_order(groups, active_tab, query, triage, n - 1);
        let g = n - 1;
        let hosts = groups[g].hosts;
        assert(hosts@.len() == hosts.len());
        host_rows_in_order(hosts@, g, query, triage, hosts@.len() as int);
        let rows = host_rows(hosts@, g, query, triage, hosts@.len() as int);
        let front = table_rows(groups, active_tab, query, triage, n - 1);
        let back = group_rows(groups, g, active_tab, query, triage);
        let r = table_rows(groups, active_tab, query, triage, n);
        let lead = back.len() - rows.len();
        assert forall|k: int| 0 <= k < back.len() && back[k] is HostEntry implies lead <= k
            && #[trigger] back[k] == rows[k - lead] by {}
        assert forall|i: int| 0 <= i < r.len() implies (#[trigger] r[i] matches TableRow::HostEntry {
            group_idx,
            ..
        } ==> group_idx < n) by {
            if i < front.len() {
                assert(r[i] == front[i]);
            } else {
                assert(r[i] == back[i - front.len()]);
            }
        }
        assert forall|i: int, j: int| 0 <= i < j < r.len() implies in_group_order(
            #[trigger] r[i],
            #[trigger] r[j],
        ) by {
            if j < front.len() {
                assert(r[i] == front[i] && r[j] == front[j]);
            } else {
                assert(r[j] == back[j - front.len()]);
                if i < front.len() {
                    assert(r[i] == front[i]);
                } else {
                    assert(r[i] == back[i - front.len()]);
                }
            }
        }
    }
}

/// The rows of a rebuilt table follow the order of the groups and of the hosts in
/// them, and no host has two rows.
pub proof fn rows_follow_the_groups(before: App, after: App, i: int, j: int)
    requires
        after.is_rebuilt(before),
        0 <= i < j < after.rows@.len(),
    ensures
        in_group_order(after.rows@[i], after.rows@[j]),
{
    assert(before.groups.len() == before.groups@.len());
    table_rows_in_order(
        before.groups@,
        before.active_tab as int,
        before.match_text(),
        before.triage,
        before.groups@.len() as int,
    );
}

// ── Hosts under a tab ────────────────────────────────────────────────────

proof fn statuses_add_up(hosts: Seq<Host>, n: int)
    requires
        n >= 0,
    ensures
        status_count(hosts, HostStatus::Up, n) + status_count(hosts, HostStatus::Down, n)
            + status_count(hosts, HostStatus::Unknown, n) == n,
    decreases n,
{
    if n > 0 {
        statuses_add_up(hosts, n - 1);
    }
}

proof fn visible_statuses_add_up(groups: Seq<Group>, active_tab: int, n: int)
    ensures
        visible_with(groups, active_tab, HostStatus::Up, n) + visible_with(
            groups,
            active_tab,
            HostStatus::Down,
            n,
        ) + visible_with(groups, active_tab, HostStatus::Unknown, n) == visible_hosts(
            groups,
            active_tab,
            n,
        ),
    decreases n,
{
    if n > 0 {
        visible_statuses_add_up(groups, active_tab, n - 1);
        statuses_add_up(groups[n - 1].hosts@, groups[n - 1].hosts@.len() as int);
    }
}

/// The counts of up, down and unknown hosts add up to the number of hosts shown.
pub proof fn counts_add_up(app: App)
    ensures
        app.count_of(HostStatus::Up) + app.count_of(HostStatus::Down) + app.count_of(
            HostStatus::Unknown,
        ) == app.visible_count(),
{
    visible_statuses_add_up(app.groups@, app.active_tab as int, app.groups@.len() as int);
}

proof fn first_tab_counts_all(groups: Seq<Group>, n: int)
    ensures
        visible_hosts(groups, 0, n) == total_hosts(groups, n),
    decreases n,
{
    if n > 0 {
        first_tab_counts_all(groups, n - 1);
    }
}

/// The first tab shows the hosts of all groups.
pub proof fn first_tab_shows_all(app: App)
    requires
        app.active_tab == 0,
    ensures
        app.visible_count() == total_hosts(app.groups@, app.groups@.len() as int),
{
    first_tab_counts_all(app.groups@, app.groups@.len() as int);
}

// ── Tabs and navigation ──────────────────────────────────────────────────

/// Going to the next tab and back, or to the previous one and forth, ends where
/// it began, and every tab on the way exists.
pub proof fn next_and_previous_tab_undo_each_other(active_tab: int, tabs: int)
    requires
        0 <= active_tab < tabs,
    ensures
        0 <= tab_after(active_tab, tabs) < tabs,
        0 <= tab_before(active_tab, tabs) < tabs,
        tab_before(tab_after(active_tab, tabs), tabs) == active_tab,
        tab_after(tab_before(active_tab, tabs), tabs) == active_tab,
{
    wrap_around(active_tab, tabs);
    wrap_around(tab_before(active_tab, tabs), tabs);
}

/// Going to the next row and back, or to the previous one and forth, ends where
/// it began, and every row on the way exists.
pub proof fn next_and_previous_row_undo_each_other(selected: usize, rows: int)
    requires
        selected < rows <= usize::MAX,
    ensures
        0 <= row_after(Some(selected), rows) < rows,
        0 <= row_before(Some(selected), rows) < rows,
        row_before(Some(row_after(Some(selected), rows) as usize), rows) == selected,
        row_after(Some(row_before(Some(selected), rows) as usize), rows) == selected,
{
    wrap_around(selected as int, rows);
    wrap_around(row_before(Some(selected), rows), rows);
}

proof fn wrap_around(i: int, n: int)
    requires
        0 <= i < n,
    ensures
        (i + 1) % n == if i + 1 == n {
            0
        } else {
            i + 1
        },
{
    if i + 1 == n {
        vstd::arithmetic::div_mod::lemma_mod_self_0(n);
    } else {
        vstd::arithmetic::div_mod::lemma_small_mod((i + 1) as nat, n as nat);
    }
}

proof fn tab_called_is_first(tabs: Seq<String>, label: Seq<char>, n: int)
    requires
        0 <= n <= tabs.len(),
    ensures
        match tab_called(tabs, label, n) {
            Some(i) => 0 <= i < n && same_ignoring_case(tabs[i]@, label) && forall|k: int|
                0 <= k < i ==> !same_ignoring_case(#[trigger] tabs[k]@, label),
            None => forall|k: int| 0 <= k < n ==> !same_ignoring_case(#[trigger] tabs[k]@, label),
        },
    decreases n,
{
    if n > 0 {
        tab_called_is_first(tabs, label, n - 1);
    }
}

/// The tab that is opened exists, as long as there is one.
pub proof fn opening_tab_exists(
    tabs: Seq<String>,
    saved: Option<Seq<char>>,
    default_tab: Option<Seq<char>>,
)
    requires
        tabs.len() > 0,
    ensures
        0 <= opening_tab(tabs, saved, default_tab) < tabs.len(),
{
    if let Some(l) = saved {
        tab_called_is_first(tabs, l, tabs.len() as int);
    }
    if let Some(l) = default_tab {
        tab_called_is_first(tabs, l, tabs.len() as int);
    }
}

/// The tab whose label was saved is the one that is opened again, whatever the
/// configuration says: for a label that is not blank, has no outer white space
/// and is no other tab's, up to case.
pub proof fn saved_tab_is_opened_again(
    tabs: Seq<String>,
    active_tab: int,
    default_tab: Option<Seq<char>>,
)
    requires
        0 <= active_tab < tabs.len(),
        tabs[active_tab]@.len() > 0,
        trimmed(tabs[active_tab]@) == tabs[active_tab]@,
        forall|i: int|
            0 <= i < tabs.len() && i != active_tab ==> !same_ignoring_case(
                (#[trigger] tabs[i])@,
                tabs[active_tab]@,
            ),
    ensures
        opening_tab(tabs, saved_label(Some(tabs[active_tab]@)), default_tab) == active_tab,
{
    tab_called_is_first(tabs, tabs[active_tab]@, tabs.len() as int);
}

// ── The table, written out ───────────────────────────────────────────────

/// The text that hosts are searched for: what is being typed while the filter is
/// edited, the committed filter otherwise; without white space around it and in
/// small letters.
pub open spec fn searched_text(app: App) -> Seq<char> {
    ascii_lower(
        trimmed(
            if app.input_mode == InputMode::Filter {
                app.filter_draft@
            } else {
                app.filter_query@
            },
        ),
    )
}

/// The host at position `h` of the group at position `g` is to have a row: the tab
/// shows its group; the search, if there is one, finds it by name or by address;
/// and in triage it is not up.
pub open spec fn row_is_due(app: App, g: int, h: int) -> bool {
    let host = app.groups@[g].hosts@[h];
    let text = searched_text(app);
    &&& 0 <= g < app.groups@.len()
    &&& 0 <= h < app.groups@[g].hosts@.len()
    &&& app.active_tab == 0 || app.active_tab == g + 1
    &&& text.len() == 0 || contains_text(ascii_lower(host.name@), text) || contains_text(
        ascii_lower(host.ip@),
        text,
    )
    &&& app.triage ==> host.status != HostStatus::Up
}

/// The row at position `i` is that of a host.
pub open spec fn is_entry(rows: Seq<TableRow>, i: int, g: int, h: int) -> bool {
    0 <= i < rows.len() && (rows[i] matches TableRow::HostEntry { group_idx, host_idx } && group_idx
        == g && host_idx == h)
}

/// A header at position `i` stands on the tab of all groups, above the first row of
/// a host of the group whose name it shows.
pub open spec fn header_is_right(app: App, i: int) -> bool {
    app.rows@[i] matches TableRow::GroupHeader { name } ==> {
        &&& app.active_tab == 0
        &&& i + 1 < app.rows@.len()
        &&& app.rows@[i + 1] matches TableRow::HostEntry { group_idx, .. }
        &&& group_idx < app.groups@.len()
        &&& name == app.groups@[group_idx as int].name
        &&& i > 0 ==> (app.rows@[i - 1] matches TableRow::HostEntry { group_idx: k, .. } && k
            < group_idx)
    }
}

/// On the tab of all groups a host's row stands below another of its group or below
/// a header.
pub open spec fn entry_is_under_a_header(app: App, i: int) -> bool {
    app.active_tab == 0 ==> (app.rows@[i] matches TableRow::HostEntry { group_idx, .. } ==> i > 0
        && (app.rows@[i - 1] matches TableRow::HostEntry { group_idx: k, .. } ==> k == group_idx))
}

/// The table shows what it should: a row for each host that is to have one and for
/// no other, in the order of groups and hosts, and headers where they belong.
pub open spec fn table_is_right(app: App) -> bool {
    &&& forall|g: int, h: int| #[trigger]
        row_is_due(app, g, h) ==> exists|i: int| is_entry(app.rows@, i, g, h)
    &&& forall|i: int, g: int, h: int| #[trigger]
        is_entry(app.rows@, i, g, h) ==> row_is_due(app, g, h)
    &&& forall|i: int, j: int|
        0 <= i < j < app.rows@.len() ==> in_group_order(
            #[trigger] app.rows@[i],
            #[trigger] app.rows@[j],
        )
    &&& forall|i: int| 0 <= i < app.rows@.len() ==> #[trigger] header_is_right(app, i)
    &&& forall|i: int| 0 <= i < app.rows@.len() ==> #[trigger] entry_is_under_a_header(app, i)
}

// A header in rows of the first `n` groups is followed by a host's row of its group
// and preceded by none or by one of an earlier group.
spec fn header_fits(groups: Seq<Group>, active_tab: int, r: Seq<TableRow>, n: int, i: int) -> bool {
    r[i] matches TableRow::GroupHeader { name } ==> {
        &&& active_tab == 0
        &&& i + 1 < r.len()
        &&& r[i + 1] matches TableRow::HostEntry { group_idx, .. }
        &&& group_idx < n
        &&& name == groups[group_idx as int].name
        &&& i > 0 ==> (r[i - 1] matches TableRow::HostEntry { group_idx: k, .. } && k < group_idx)
    }
}

// A host's row follows one of its group or a header, on the tab of all groups.
spec fn entry_fits(active_tab: int, r: Seq<TableRow>, n: int, i: int) -> bool {
    r[i] matches TableRow::HostEntry { group_idx, .. } ==> {
        &&& group_idx < n
        &&& active_tab == 0 ==> i > 0 && (r[i - 1] matches TableRow::HostEntry { group_idx: k, .. }
            ==> k == group_idx)
    }
}

spec fn rows_fit(groups: Seq<Group>, active_tab: int, r: Seq<TableRow>, n: int) -> bool {
    &&& forall|i: int| 0 <= i < r.len() ==> #[trigger] header_fits(groups, active_tab, r, n, i)
    &&& forall|i: int| 0 <= i < r.len() ==> #[trigger] entry_fits(active_tab, r, n, i)
    &&& r.len() > 0 ==> r[r.len() - 1] is HostEntry
}

// Rows of the group at position `n` behind rows that fit.
proof fn group_rows_fit_behind(
    groups: Seq<Group>,
    active_tab: int,
    front: Seq<TableRow>,
    back: Seq<TableRow>,
    n: int,
)
    requires
        0 <= n < groups.len() <= usize::MAX,
        rows_fit(groups, active_tab, front, n),
        active_tab == 0 && back.len() > 0 ==> back.len() > 1 && back[0] == (TableRow::GroupHeader {
            name: groups[n].name,
        }),
        forall|k: int|
            (if active_tab == 0 {
                1int
            } else {
                0int
            }) <= k < back.len() ==> (
            #[trigger] back[k] matches TableRow::HostEntry { group_idx, .. } && group_idx == n),
    ensures
        rows_fit(groups, active_tab, front + back, n + 1),
{
    let r = front + back;
    let m = front.len() as int;
    if m > 0 {
        assert(entry_fits(active_tab, front, n, m - 1));
    }
    assert forall|i: int| 0 <= i < r.len() implies #[trigger] header_fits(
        groups,
        active_tab,
        r,
        n + 1,
        i,
    ) by {
        if i < m {
            assert(header_fits(groups, active_tab, front, n, i));
        } else {
            assert(r[i] == back[i - m]);
            if active_tab == 0 && i == m {
                assert(r[i + 1] == back[1]);
            }
        }
    }
    assert forall|i: int| 0 <= i < r.len() implies #[trigger] entry_fits(
        active_tab,
        r,
        n + 1,
        i,
    ) by {
        if i < m {
            assert(entry_fits(active_tab, front, n, i));
        } else {
            assert(r[i] == back[i - m]);
            if i > m {
                assert(r[i - 1] == back[i - m - 1]);
            }
        }
    }
}

proof fn host_rows_are_of_the_group(
    hosts: Seq<Host>,
    g: int,
    query: Seq<char>,
    triage: bool,
    n: int,
)
    requires
        0 <= n <= hosts.len(),
        0 <= g <= usize::MAX,
    ensures
        forall|k: int|
            0 <= k < host_rows(hosts, g, query, triage, n).len() ==> (
            #[trigger] host_rows(
                hosts,
                g,
                query,
                triage,
                n,
            )[k] matches TableRow::HostEntry { group_idx, .. } && group_idx == g),
    decreases n,
{
    if n > 0 {
        host_rows_are_of_the_group(hosts, g, query, triage, n - 1);
    }
}

proof fn table_rows_fit(
    groups: Seq<Group>,
    active_tab: int,
    query: Seq<char>,
    triage: bool,
    n: int,
)
    requires
        0 <= n <= groups.len() <= usize::MAX,
    ensures
        rows_fit(groups, active_tab, table_rows(groups, active_tab, query, triage, n), n),
    decreases n,
{
    if n > 0 {
        let g = n - 1;
        let hosts = groups[g].hosts@;
        let front = table_rows(groups, active_tab, query, triage, g);
        let back = group_rows(groups, g, active_tab, query, triage);
        table_rows_fit(groups, active_tab, query, triage, g);
        host_rows_are_of_the_group(hosts, g, query, triage, hosts.len() as int);
        group_rows_fit_behind(groups, active_tab, front, back, g);
    }
}

/// After a rebuild, a host whose group the tab shows, which the search does not
/// exclude and which triage does not hide, has a row, and no other host has one.
pub proof fn rows_are_those_due(before: App, after: App, g: int, h: int)
    requires
        after.is_rebuilt(before),
    ensures
        row_is_due(after, g, h) <==> exists|i: int| is_entry(after.rows@, i, g, h),
{
    table_shows_what_it_should(before, after);
    assert(searched_text(after) == after.match_text());
    if row_is_due(after, g, h) {
        assert(has_row(
            after.groups@,
            after.active_tab as int,
            after.match_text(),
            after.triage,
            g,
            h,
        ));
        assert(after.groups.len() == after.groups@.len());
        assert(after.groups@[g].hosts.len() == after.groups@[g].hosts@.len());
        assert(after.rows@.contains(entry(g, h)));
        let i = choose|i: int| 0 <= i < after.rows@.len() && after.rows@[i] == entry(g, h);
        assert(is_entry(after.rows@, i, g, h));
    }
    if exists|i: int| is_entry(after.rows@, i, g, h) {
        let i = choose|i: int| is_entry(after.rows@, i, g, h);
        assert(after.rows@[i] is HostEntry);
    }
}

proof fn headers_are_right(before: App, after: App, i: int)
    requires
        after.is_rebuilt(before),
        0 <= i < after.rows@.len(),
    ensures
        header_is_right(after, i),
        entry_is_under_a_header(after, i),
{
    let groups = after.groups@;
    let n = groups.len() as int;
    assert(after.groups.len() == groups.len());
    assert(after.rows@ == after.wanted_rows());
    table_rows_fit(groups, after.active_tab as int, after.match_text(), after.triage, n);
    assert(header_fits(groups, after.active_tab as int, after.rows@, n, i));
    assert(entry_fits(after.active_tab as int, after.rows@, n, i));
}

/// A rebuilt table shows what it should.
pub proof fn rebuilt_table_is_right(before: App, after: App)
    requires
        after.is_rebuilt(before),
    ensures
        table_is_right(after),
{
    assert forall|g: int, h: int| #[trigger] row_is_due(after, g, h) implies exists|i: int|
        is_entry(after.rows@, i, g, h) by {
        rows_are_those_due(before, after, g, h);
    }
    assert forall|i: int, g: int, h: int| #[trigger]
        is_entry(after.rows@, i, g, h) implies row_is_due(after, g, h) by {
        rows_are_those_due(before, after, g, h);
    }
    assert forall|i: int, j: int| 0 <= i < j < after.rows@.len() implies in_group_order(
        #[trigger] after.rows@[i],
        #[trigger] after.rows@[j],
    ) by {
        rows_follow_the_groups(before, after, i, j);
    }
    assert forall|i: int| 0 <= i < after.rows@.len() implies #[trigger] header_is_right(
        after,
        i,
    ) by {
        headers_are_right(before, after, i);
    }
    assert forall|i: int| 0 <= i < after.rows@.len() implies #[trigger] entry_is_under_a_header(
        after,
        i,
    ) by {
        headers_are_right(before, after, i);
    }
}

/// The selection after a rebuild: it stays on a host's row; from anywhere else it
/// goes to the first host's row, or to none where there is no such row, and then the
/// table is back at its top.
pub open spec fn selection_is_right(given: TableState, app: App) -> bool {
    let rows = app.rows@;
    if given.selected matches Some(i) && i < rows.len() && rows[i as int] is HostEntry {
        app.table_state == given
    } else {
        match app.table_state.selected {
            Some(k) => {
                &&& k < rows.len()
                &&& rows[k as int] is HostEntry
                &&& forall|q: int| 0 <= q < k ==> (#[trigger] rows[q]) is GroupHeader
                &&& app.table_state.offset == given.offset
            },
            None => {
                &&& forall|q: int| 0 <= q < rows.len() ==> (#[trigger] rows[q]) is GroupHeader
                &&& app.table_state.offset == 0
            },
        }
    }
}

proof fn first_host_row_is_first(rows: Seq<TableRow>, n: int)
    requires
        0 <= n <= rows.len() <= usize::MAX,
    ensures
        first_host_row(rows, n) matches Some(i) ==> forall|k: int|
            0 <= k < i ==> (#[trigger] rows[k]) is GroupHeader,
    decreases n,
{
    if n > 0 {
        first_host_row_is_first(rows, n - 1);
        first_host_row_is_one(rows, n - 1);
        if first_host_row(rows, n - 1) is None {
            assert forall|k: int| 0 <= k < n - 1 implies (#[trigger] rows[k]) is GroupHeader by {
                assert(!(rows[k] is HostEntry));
            }
        }
    }
}

/// A rebuild puts the selection on a host's row.
pub proof fn rebuilt_selection_is_right(before: App, after: App)
    requires
        after.is_rebuilt(before),
    ensures
        selection_is_right(before.table_state, after),
{
    assert(after.rows.len() == after.rows@.len());
    first_host_row_is_one(after.rows@, after.rows@.len() as int);
    first_host_row_is_first(after.rows@, after.rows@.len() as int);
    if after.table_state.selected is None {
        assert forall|q: int| 0 <= q < after.rows@.len() implies (
        #[trigger] after.rows@[q]) is GroupHeader by {
            assert(!(after.rows@[q] is HostEntry));
        }
    }
}

/// The settings, the tabs, the clock and the source of ids are the same.
pub open spec fn same_settings(before: App, after: App) -> bool {
    &&& after.poll_interval == before.poll_interval
    &&& after.connect_timeout_ms == before.connect_timeout_ms
    &&& after.max_concurrent_probes == before.max_concurrent_probes
    &&& after.probe_ports == before.probe_ports
    &&& after.tabs == before.tabs
    &&& after.clock == before.clock
    &&& after.host_ids == before.host_ids
}

/// What is open on the screen is the same.
pub open spec fn same_panels(before: App, after: App) -> bool {
    &&& after.should_quit == before.should_quit
    &&& after.show_help == before.show_help
    &&& after.show_debug == before.show_debug
}

/// The scan and the times of scans are the same.
pub open spec fn same_scan(before: App, after: App) -> bool {
    &&& after.last_poll == before.last_poll
    &&& after.is_scanning == before.is_scanning
    &&& after.current_scan == before.current_scan
    &&& after.pending_results == before.pending_results
    &&& after.scan_deadline == before.scan_deadline
    &&& after.last_scan == before.last_scan
}

/// The status message is the same.
pub open spec fn same_message(before: App, after: App) -> bool {
    &&& after.status_message == before.status_message
    &&& after.status_set_at == before.status_set_at
}

/// The rows, the selection, the tab, triage and the filter are the same.
pub open spec fn same_table(before: App, after: App) -> bool {
    &&& after.rows == before.rows
    &&& after.table_state == before.table_state
    &&& after.active_tab == before.active_tab
    &&& after.triage == before.triage
    &&& same_filter(before, after)
}

/// Hosts, settings, scan, messages and log are the same.
pub open spec fn same_beside_the_table(before: App, after: App) -> bool {
    &&& after.groups == before.groups
    &&& after.debug_log == before.debug_log
    &&& same_settings(before, after)
    &&& same_panels(before, after)
    &&& same_scan(before, after)
    &&& same_message(before, after)
}

/// The filter and how it is edited are the same.
pub open spec fn same_filter(before: App, after: App) -> bool {
    &&& after.input_mode == before.input_mode
    &&& after.filter_query == before.filter_query
    &&& after.filter_draft == before.filter_draft
}

/// A rebuild changes nothing but rows and selection.
pub proof fn rebuilding_changes_only_the_table(before: App, after: App)
    requires
        after.is_rebuilt(before),
    ensures
        same_beside_the_table(before, after),
        same_filter(before, after),
        after.active_tab == before.active_tab,
        after.triage == before.triage,
{
}

// ── Editing the filter ───────────────────────────────────────────────────

/// The filter in effect is the draft while it is edited and the committed one
/// otherwise, just as it was typed.
pub proof fn filter_in_effect_is_as_typed(app: App)
    ensures
        app.input_mode == InputMode::Filter ==> app.query_text() == app.filter_draft@,
        app.input_mode == InputMode::Normal ==> app.query_text() == app.filter_query@,
{
}

/// Editing begins with the committed filter as the draft; nothing else changes.
pub proof fn editing_begins_with_the_filter(before: App, after: App)
    requires
        after.filter_entered(before),
    ensures
        after.input_mode == InputMode::Filter,
        after.filter_draft@ == before.filter_query@,
        after.filter_query == before.filter_query,
        after.rows == before.rows,
        after.table_state == before.table_state,
        after.active_tab == before.active_tab,
        after.triage == before.triage,
        same_beside_the_table(before, after),
{
}

/// Cancelling drops the draft and keeps the filter; the table shows what the filter
/// calls for.
pub proof fn cancelling_keeps_the_filter(before: App, after: App)
    requires
        after.filter_cancelled(before),
    ensures
        after.input_mode == InputMode::Normal,
        after.filter_draft@.len() == 0,
        after.filter_query == before.filter_query,
        after.active_tab == before.active_tab,
        after.triage == before.triage,
        same_beside_the_table(before, after),
        table_is_right(after),
        selection_is_right(before.table_state, after),
{
    let given = App {
        filter_draft: after.filter_draft,
        input_mode: InputMode::Normal,
        ..before
    };
    rebuilt_table_is_right(given, after);
    rebuilt_selection_is_right(given, after);
}

/// Committing makes the draft, without white space around it, the filter; the table
/// shows what it calls for.
pub proof fn committing_makes_the_draft_the_filter(before: App, after: App)
    requires
        after.filter_committed(before),
    ensures
        after.input_mode == InputMode::Normal,
        after.filter_query@ == trimmed(before.filter_draft@),
        after.filter_draft == before.filter_draft,
        after.active_tab == before.active_tab,
        after.triage == before.triage,
        same_beside_the_table(before, after),
        table_is_right(after),
        selection_is_right(before.table_state, after),
{
    let given = App {
        filter_query: after.filter_query,
        input_mode: InputMode::Normal,
        ..before
    };
    rebuilt_table_is_right(given, after);
    rebuilt_selection_is_right(given, after);
}

/// Clearing leaves no filter and no draft; the table shows what that calls for.
pub proof fn clearing_leaves_no_filter(before: App, after: App)
    requires
        after.filter_cleared(before),
    ensures
        after.input_mode == before.input_mode,
        after.filter_query@.len() == 0,
        after.filter_draft@.len() == 0,
        after.active_tab == before.active_tab,
        after.triage == before.triage,
        same_beside_the_table(before, after),
        table_is_right(after),
        selection_is_right(before.table_state, after),
{
    let given = App {
        filter_query: after.filter_query,
        filter_draft: after.filter_draft,
        ..before
    };
    rebuilt_table_is_right(given, after);
    rebuilt_selection_is_right(given, after);
}

/// A change of the draft changes the draft alone; the table shows what it calls for.
/// A draft without its last character is the draft up to there.
pub proof fn drafts_change_alone(before: App, after: App, draft: Seq<char>)
    requires
        after.draft_changed(before, draft),
    ensures
        after.filter_draft@ == draft,
        after.filter_query == before.filter_query,
        after.input_mode == before.input_mode,
        after.active_tab == before.active_tab,
        after.triage == before.triage,
        same_beside_the_table(before, after),
        table_is_right(after),
        selection_is_right(before.table_state, after),
        before.filter_draft@.len() > 0 ==> before.shorter_draft() == before.filter_draft@.subrange(
            0,
            before.filter_draft@.len() - 1,
        ),
        before.filter_draft@.len() == 0 ==> before.shorter_draft().len() == 0,
{
    let given = App { filter_draft: after.filter_draft, ..before };
    rebuilt_table_is_right(given, after);
    rebuilt_selection_is_right(given, after);
    if before.filter_draft@.len() > 0 {
        assert(before.shorter_draft() =~= before.filter_draft@.subrange(
            0,
            before.filter_draft@.len() - 1,
        ));
    }
}

/// Switching triage changes triage alone; the table shows what that calls for.
pub proof fn triage_switches_alone(before: App, after: App)
    requires
        after.triage_toggled(before),
    ensures
        after.triage == !before.triage,
        after.active_tab == before.active_tab,
        same_filter(before, after),
        same_beside_the_table(before, after),
        table_is_right(after),
        selection_is_right(before.table_state, after),
{
    let given = App { triage: !before.triage, ..before };
    rebuilt_table_is_right(given, after);
    rebuilt_selection_is_right(given, after);
}

// ── Tabs and rows, written out ───────────────────────────────────────────

/// The next tab is one further, the first behind the last; the previous one is one
/// before, the last before the first. A tab behind the last is counted round.
pub proof fn tabs_go_round(active_tab: int, tabs: int)
    requires
        0 <= active_tab,
        0 < tabs,
    ensures
        active_tab < tabs ==> tab_after(active_tab, tabs) == if active_tab + 1 < tabs {
            active_tab + 1
        } else {
            0
        },
        tab_after(active_tab, tabs) == (active_tab + 1) % tabs,
        tab_before(active_tab, tabs) == if active_tab > 0 {
            active_tab - 1
        } else {
            tabs - 1
        },
{
    if active_tab < tabs {
        wrap_around(active_tab, tabs);
    }
}

/// Opening another tab changes the tab alone, where there is more than one; the
/// selection goes to the tab's first host, and the table is at its top.
pub proof fn opening_a_tab_changes_the_tab_alone(before: App, after: App, tab: int)
    requires
        after.tab_opened(before, tab),
        0 <= tab < before.tabs@.len(),
    ensures
        before.tabs@.len() < 2 ==> after == before,
        before.tabs@.len() >= 2 ==> {
            &&& after.active_tab == tab
            &&& after.triage == before.triage
            &&& same_filter(before, after)
            &&& same_beside_the_table(before, after)
            &&& table_is_right(after)
            &&& selection_is_right(TableState { selected: None, offset: 0 }, after)
        },
{
    assert(before.tabs.len() == before.tabs@.len());
    if before.tabs@.len() >= 2 {
        let given = App {
            active_tab: tab as usize,
            table_state: before.table_state.selecting(None),
            ..before
        };
        rebuilt_table_is_right(given, after);
        rebuilt_selection_is_right(given, after);
    }
}

/// The next row is one further, the first behind the last; the previous one is one
/// before, the last before the first; from no selection both go to the first. A
/// selection behind the last row is counted round.
pub proof fn rows_go_round(selected: usize, rows: int)
    requires
        0 < rows <= usize::MAX,
    ensures
        selected < rows ==> row_after(Some(selected), rows) == if selected + 1 < rows {
            selected + 1
        } else {
            0
        },
        row_after(Some(selected), rows) == (selected + 1) % rows,
        row_before(Some(selected), rows) == if selected > 0 {
            selected - 1
        } else {
            rows - 1
        },
        row_after(None, rows) == 0,
        row_before(None, rows) == 0,
{
    if selected < rows {
        wrap_around(selected as int, rows);
    }
}

/// Selecting a row changes the selection alone, where there is a row.
pub proof fn selecting_a_row_changes_the_selection_alone(before: App, row: int)
    requires
        0 <= row <= usize::MAX,
    ensures
        before.rows@.len() == 0 ==> before.row_selected(row) == before,
        before.rows@.len() > 0 ==> before.row_selected(row).table_state == (TableState {
            selected: Some(row as usize),
            offset: before.table_state.offset,
        }),
        before.row_selected(row).rows == before.rows,
        before.row_selected(row).active_tab == before.active_tab,
        before.row_selected(row).triage == before.triage,
        same_filter(before, before.row_selected(row)),
        same_beside_the_table(before, before.row_selected(row)),
{
}

/// There is a tab for all groups, and then one for each, with its name.
pub proof fn there_is_a_tab_for_each_group(groups: Seq<Group>)
    ensures
        tab_labels(groups).len() == groups.len() + 1,
        tab_labels(groups)[0] == "All"@,
        forall|g: int|
            0 <= g < groups.len() ==> #[trigger] tab_labels(groups)[g + 1] == groups[g].name@,
{
}

/// The tab has the label, up to case, and is the first that has it.
pub open spec fn is_tab_for(tabs: Seq<String>, label: Seq<char>, i: int) -> bool {
    &&& 0 <= i < tabs.len()
    &&& same_ignoring_case(tabs[i]@, label)
    &&& forall|k: int| 0 <= k < i ==> !same_ignoring_case(#[trigger] tabs[k]@, label)
}

/// No tab has the label.
pub open spec fn is_no_tab(tabs: Seq<String>, label: Option<Seq<char>>) -> bool {
    label matches Some(l) ==> forall|k: int|
        0 <= k < tabs.len() ==> !same_ignoring_case(#[trigger] tabs[k]@, l)
}

/// The remembered tab is opened if it still exists, else the configured one if it
/// does, else the one for all groups.
pub proof fn remembered_tab_goes_before_the_configured_one(
    tabs: Seq<String>,
    saved: Option<Seq<char>>,
    default_tab: Option<Seq<char>>,
    i: int,
)
    ensures
        saved matches Some(l) && is_tab_for(tabs, l, i) ==> opening_tab(tabs, saved, default_tab)
            == i,
        is_no_tab(tabs, saved) && (default_tab matches Some(l) && is_tab_for(tabs, l, i))
            ==> opening_tab(tabs, saved, default_tab) == i,
        is_no_tab(tabs, saved) && is_no_tab(tabs, default_tab) ==> opening_tab(
            tabs,
            saved,
            default_tab,
        ) == 0,
{
    if let Some(l) = saved {
        tab_called_is_first(tabs, l, tabs.len() as int);
    }
    if let Some(l) = default_tab {
        tab_called_is_first(tabs, l, tabs.len() as int);
    }
}

/// What is remembered is the label in the state file, without white space around
/// it; a blank file, like none, remembers nothing.
pub proof fn state_file_holds_a_label(contents: Seq<char>)
    ensures
        trimmed(contents).len() > 0 ==> saved_label(Some(contents)) == Some(trimmed(contents)),
        trimmed(contents).len() == 0 ==> saved_label(Some(contents)) is None,
        saved_label(None) is None,
{
}

/// An optional text slice is known by its characters.
pub proof fn optional_slices_are_kept(s: Option<&str>)
    ensures
        s is None <==> slice_text(s) is None,
        s matches Some(t) ==> slice_text(s) == Some(t@),
{
}

// ── Counting and finding hosts, written out ──────────────────────────────

proof fn status_count_is_a_filter(hosts: Seq<Host>, status: HostStatus, n: int)
    requires
        0 <= n <= hosts.len(),
    ensures
        status_count(hosts, status, n) == hosts.take(n).filter(
            |h: Host| h.status == status,
        ).len(),
    decreases n,
{
    reveal(Seq::filter);
    if n > 0 {
        status_count_is_a_filter(hosts, status, n - 1);
        assert(hosts.take(n).drop_last() =~= hosts.take(n - 1));
        assert(hosts.take(n).last() == hosts[n - 1]);
    }
}

proof fn single_group_counts(groups: Seq<Group>, tab: int, status: HostStatus, n: int)
    requires
        0 <= n <= groups.len(),
        0 < tab,
    ensures
        visible_with(groups, tab, status, n) == if tab <= n {
            status_count(
                groups[tab - 1].hosts@,
                status,
                groups[tab - 1].hosts@.len() as int,
            )
        } else {
            0nat
        },
        visible_hosts(groups, tab, n) == if tab <= n {
            groups[tab - 1].hosts@.len()
        } else {
            0nat
        },
    decreases n,
{
    if n > 0 {
        single_group_counts(groups, tab, status, n - 1);
    }
}

/// On the tab of a group the counts are those of its hosts.
pub proof fn counts_are_those_of_the_group(app: App, status: HostStatus)
    requires
        0 < app.active_tab <= app.groups@.len(),
    ensures
        app.count_of(status) == app.groups@[app.active_tab - 1].hosts@.filter(
            |h: Host| h.status == status,
        ).len(),
        app.visible_count() == app.groups@[app.active_tab - 1].hosts@.len(),
{
    let hosts = app.groups@[app.active_tab - 1].hosts@;
    single_group_counts(
        app.groups@,
        app.active_tab as int,
        status,
        app.groups@.len() as int,
    );
    status_count_is_a_filter(hosts, status, hosts.len() as int);
    assert(hosts.take(hosts.len() as int) =~= hosts);
}

/// How many of the hosts of all groups meet a condition.
pub open spec fn hosts_that(groups: Seq<Group>, p: spec_fn(Host) -> bool) -> nat
    decreases groups.len(),
{
    if groups.len() == 0 {
        0
    } else {
        hosts_that(groups.drop_last(), p) + groups.last().hosts@.filter(p).len()
    }
}

proof fn all_groups_count(groups: Seq<Group>, status: HostStatus, n: int)
    requires
        0 <= n <= groups.len(),
    ensures
        visible_with(groups, 0, status, n) == hosts_that(
            groups.take(n),
            |h: Host| h.status == status,
        ),
        visible_hosts(groups, 0, n) == hosts_that(groups.take(n), |h: Host| true),
    decreases n,
{
    if n > 0 {
        all_groups_count(groups, status, n - 1);
        let hosts = groups[n - 1].hosts@;
        assert(groups.take(n).drop_last() =~= groups.take(n - 1));
        assert(groups.take(n).last() == groups[n - 1]);
        status_count_is_a_filter(hosts, status, hosts.len() as int);
        assert(hosts.take(hosts.len() as int) =~= hosts);
        every_host_is_counted(hosts);
    }
}

proof fn every_host_is_counted(hosts: Seq<Host>)
    ensures
        hosts.filter(|h: Host| true).len() == hosts.len(),
    decreases hosts.len(),
{
    reveal(Seq::filter);
    if hosts.len() > 0 {
        every_host_is_counted(hosts.drop_last());
    }
}

/// On the tab of all groups the counts are those of the hosts of all groups.
pub proof fn counts_are_those_of_all_groups(app: App, status: HostStatus)
    requires
        app.active_tab == 0,
    ensures
        app.count_of(status) == hosts_that(app.groups@, |h: Host| h.status == status),
        app.visible_count() == hosts_that(app.groups@, |h: Host| true),
{
    all_groups_count(app.groups@, status, app.groups@.len() as int);
    assert(app.groups@.take(app.groups@.len() as int) =~= app.groups@);
}

proof fn host_with_id_is_first(hosts: Seq<Host>, id: u64, n: int)
    requires
        0 <= n <= hosts.len(),
    ensures
        match host_with_id(hosts, id, n) {
            Some(h) => 0 <= h < n && hosts[h].id == id && forall|k: int|
                0 <= k < h ==> (#[trigger] hosts[k]).id != id,
            None => forall|k: int| 0 <= k < n ==> (#[trigger] hosts[k]).id != id,
        },
    decreases n,
{
    if n > 0 {
        host_with_id_is_first(hosts, id, n - 1);
    }
}

proof fn located_is_first(groups: Seq<Group>, id: u64, n: int)
    requires
        0 <= n <= groups.len(),
    ensures
        match located(groups, id, n) {
            Some((g, h)) => {
                &&& 0 <= g < n
                &&& 0 <= h < groups[g].hosts@.len()
                &&& groups[g].hosts@[h].id == id
                &&& forall|k: int, j: int|
                    0 <= k <= g && 0 <= j < groups[k].hosts@.len() && (k < g || j < h) ==> (
                    #[trigger] groups[k].hosts@[j]).id != id
            },
            None => forall|k: int, j: int|
                0 <= k < n && 0 <= j < groups[k].hosts@.len() ==> (
                #[trigger] groups[k].hosts@[j]).id != id,
        },
    decreases n,
{
    if n > 0 {
        located_is_first(groups, id, n - 1);
        host_with_id_is_first(groups[n - 1].hosts@, id, groups[n - 1].hosts@.len() as int);
    }
}

/// A host is found by its id wherever it stands; where several have it, the first
/// one is found; and none is found just if none has it.
pub proof fn hosts_are_found_by_id(app: App, id: u64)
    ensures
        match app.host_place(id) {
            Some((g, h)) => {
                &&& 0 <= g < app.groups@.len()
                &&& 0 <= h < app.groups@[g].hosts@.len()
                &&& app.groups@[g].hosts@[h].id == id
                &&& forall|k: int, j: int|
                    0 <= k <= g && 0 <= j < app.groups@[k].hosts@.len() && (k < g || j < h) ==> (
                    #[trigger] app.groups@[k].hosts@[j]).id != id
            },
            None => forall|k: int, j: int|
                0 <= k < app.groups@.len() && 0 <= j < app.groups@[k].hosts@.len() ==> (
                #[trigger] app.groups@[k].hosts@[j]).id != id,
        },
{
    located_is_first(app.groups@, id, app.groups@.len() as int);
}

/// Replacing a host leaves every other host and every group's name as it was.
pub proof fn replacing_a_host_leaves_the_others(
    before: Seq<Group>,
    after: Seq<Group>,
    g: int,
    h: int,
    host: Host,
)
    requires
        host_replaced(before, after, g, h, host),
        0 <= g < before.len(),
        0 <= h < before[g].hosts@.len(),
    ensures
        after.len() == before.len(),
        after[g].hosts@[h] == host,
        forall|k: int|
            0 <= k < before.len() ==> (#[trigger] after[k]).name == before[k].name
                && after[k].hosts@.len() == before[k].hosts@.len(),
        forall|k: int, j: int|
            0 <= k < before.len() && 0 <= j < before[k].hosts@.len() && !(k == g && j == h)
                ==> #[trigger] after[k].hosts@[j] == before[k].hosts@[j],
{
}

/// The selected host is the one in the selected row; a header, or no selection,
/// selects none.
pub proof fn selected_host_is_the_one_in_the_row(app: App, i: usize)
    ensures
        app.table_state.selected is None ==> app.selected_entry() is None,
        app.table_state.selected == Some(i) && i >= app.rows@.len() ==> app.selected_entry() is None,
        app.table_state.selected == Some(i) && i < app.rows@.len() ==> match app.rows@[i as int] {
            TableRow::HostEntry { group_idx, host_idx } => app.selected_entry() == Some(
                (group_idx, host_idx),
            ),
            TableRow::GroupHeader { .. } => app.selected_entry() is None,
        },
{
}

} // verus!
