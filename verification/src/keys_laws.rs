//! What holds of key presses.

use crate::app::{tab_after, tab_before, App, InputMode, TableState};
use crate::app_laws::{
    cancelling_keeps_the_filter, clearing_leaves_no_filter, committing_makes_the_draft_the_filter,
    drafts_change_alone, editing_begins_with_the_filter, opening_a_tab_changes_the_tab_alone,
    rows_go_round, same_beside_the_table, same_filter, same_message, same_scan, same_settings,
    same_table, selection_is_right, table_is_right, tabs_go_round, triage_switches_alone,
};
use crate::keys::{Key, KeyAction};
use crate::scan::logged;
use crate::scan_laws::log_lines_begin_with_the_time;
use crate::text::trimmed;
use vstd::prelude::*;

verus! {

/// Whatever key is pressed, no host and no group changes.
pub proof fn keys_change_no_host(
    before: App,
    after: App,
    key: Key,
    now: u128,
    log_time: Seq<char>,
)
    requires
        after.key_handled(before, key, now, log_time),
    ensures
        after.groups == before.groups,
{
}

/// Only `q`, and Esc where there is no filter, quit; neither does while the
/// filter is edited.
pub proof fn only_q_and_esc_quit(
    before: App,
    after: App,
    key: Key,
    now: u128,
    log_time: Seq<char>,
)
    requires
        after.key_handled(before, key, now, log_time),
    ensures
        after.should_quit <==> before.should_quit || before.input_mode == InputMode::Normal && (
        key == Key::Char('q') || key == Key::Esc && before.filter_query@.len() == 0),
{
}

/// Esc clears an active search first, and quits when it is pressed again.
pub proof fn esc_clears_the_search_then_quits(
    before: App,
    cleared: App,
    after: App,
    first: (u128, Seq<char>),
    second: (u128, Seq<char>),
)
    requires
        before.input_mode == InputMode::Normal,
        before.filter_query@.len() > 0,
        cleared.key_handled(before, Key::Esc, first.0, first.1),
        after.key_handled(cleared, Key::Esc, second.0, second.1),
    ensures
        cleared.filter_query@.len() == 0,
        cleared.should_quit == before.should_quit,
        after.should_quit,
{
}

/// Each state but the first comes of the one before it by pressing the next
/// character of a text.
pub open spec fn typed(states: Seq<App>, text: Seq<char>, times: Seq<(u128, Seq<char>)>) -> bool {
    &&& states.len() == text.len() + 1
    &&& times.len() == text.len()
    &&& forall|i: int|
        0 <= i < text.len() ==> #[trigger] states[i + 1].key_handled(
            states[i],
            Key::Char(text[i]),
            times[i].0,
            times[i].1,
        )
}

proof fn typing_extends_the_draft(
    states: Seq<App>,
    text: Seq<char>,
    times: Seq<(u128, Seq<char>)>,
    n: int,
)
    requires
        typed(states, text, times),
        states[0].input_mode == InputMode::Filter,
        0 <= n <= text.len(),
    ensures
        states[n].input_mode == InputMode::Filter,
        states[n].filter_draft@ == states[0].filter_draft@ + text.take(n),
        states[n].filter_query == states[0].filter_query,
    decreases n,
{
    if n > 0 {
        typing_extends_the_draft(states, text, times, n - 1);
        let i = n - 1;
        assert(states[i + 1].key_handled(
            states[i],
            Key::Char(text[i]),
            times[i].0,
            times[i].1,
        ));
        assert(text.take(n) =~= text.take(n - 1).push(text[n - 1]));
        assert(states[n].filter_draft@ =~= states[0].filter_draft@ + text.take(n));
    } else {
        assert(states[0].filter_draft@ =~= states[0].filter_draft@ + text.take(0));
    }
}

/// What is typed after `/`, up to Enter, becomes the filter, behind the filter
/// there was and without white space around it; Esc in the place of Enter leaves
/// the filter there was.
pub proof fn typed_text_becomes_the_filter(
    before: App,
    states: Seq<App>,
    text: Seq<char>,
    times: Seq<(u128, Seq<char>)>,
    after: App,
    first: (u128, Seq<char>),
    last: (u128, Seq<char>),
)
    requires
        before.input_mode == InputMode::Normal,
        typed(states, text, times),
        states[0].key_handled(before, Key::Char('/'), first.0, first.1),
    ensures
        after.key_handled(states.last(), Key::Enter, last.0, last.1) ==> after.filter_query@
            == trimmed(before.filter_query@ + text) && after.input_mode == InputMode::Normal,
        after.key_handled(states.last(), Key::Esc, last.0, last.1) ==> after.filter_query
            == before.filter_query && after.input_mode == InputMode::Normal,
{
    typing_extends_the_draft(states, text, times, text.len() as int);
    assert(text.take(text.len() as int) =~= text);
}

/// Pressing `?` twice, and pressing `d` twice, shows what was shown before.
pub proof fn overlays_toggle(
    before: App,
    once: App,
    twice: App,
    key: Key,
    first: (u128, Seq<char>),
    second: (u128, Seq<char>),
)
    requires
        before.input_mode == InputMode::Normal,
        key == Key::Char('?') || key == Key::Char('d'),
        once.key_handled(before, key, first.0, first.1),
        twice.key_handled(once, key, second.0, second.1),
    ensures
        twice.show_help == before.show_help,
        twice.show_debug == before.show_debug,
        key == Key::Char('?') ==> once.show_help != before.show_help && twice == before,
        key == Key::Char('d') ==> once.show_debug != before.show_debug,
{
}

/// Backspace takes back the character that was typed last.
pub proof fn backspace_takes_back_a_character(
    before: App,
    typed: App,
    after: App,
    c: char,
    first: (u128, Seq<char>),
    second: (u128, Seq<char>),
)
    requires
        before.input_mode == InputMode::Filter,
        typed.key_handled(before, Key::Char(c), first.0, first.1),
        after.key_handled(typed, Key::Backspace, second.0, second.1),
    ensures
        after.filter_draft@ == before.filter_draft@,
        after.rows@ == before.wanted_rows(),
{
    assert(before.filter_draft@.push(c).drop_last() =~= before.filter_draft@);
}

// ── Each key, written out ────────────────────────────────────────────────

/// Down and `j` select the next row, behind the last the first; Up and `k` the one
/// before, before the first the last. Nothing else changes.
pub proof fn arrows_move_the_selection(
    before: App,
    after: App,
    key: Key,
    now: u128,
    log_time: Seq<char>,
    i: usize,
)
    requires
        before.input_mode == InputMode::Normal,
        before.table_state.selected == Some(i),
        0 < before.rows@.len() <= usize::MAX,
        after.key_handled(before, key, now, log_time),
    ensures
        (key == Key::Down || key == Key::Char('j')) && i < before.rows@.len()
            ==> after.table_state.selected == Some(
            if i + 1 < before.rows@.len() {
                (i + 1) as usize
            } else {
                0
            },
        ),
        key == Key::Down || key == Key::Char('j') ==> after.table_state.selected == Some(
            ((i + 1) % (before.rows@.len() as int)) as usize,
        ),
        key == Key::Up || key == Key::Char('k') ==> after.table_state.selected == Some(
            if i > 0 {
                (i - 1) as usize
            } else {
                (before.rows@.len() - 1) as usize
            },
        ),
        key == Key::Down || key == Key::Char('j') || key == Key::Up || key == Key::Char('k') ==> {
            &&& after.table_state.offset == before.table_state.offset
            &&& after.rows == before.rows
            &&& after.active_tab == before.active_tab
            &&& after.triage == before.triage
            &&& same_filter(before, after)
            &&& same_beside_the_table(before, after)
        },
{
    rows_go_round(i, before.rows@.len() as int);
}

/// From no selection these keys select the first row; where there is no row they do
/// nothing.
pub proof fn arrows_select_the_first_row(
    before: App,
    after: App,
    key: Key,
    now: u128,
    log_time: Seq<char>,
)
    requires
        before.input_mode == InputMode::Normal,
        key == Key::Down || key == Key::Char('j') || key == Key::Up || key == Key::Char('k'),
        after.key_handled(before, key, now, log_time),
    ensures
        before.rows@.len() == 0 ==> after == before,
        before.rows@.len() > 0 && before.table_state.selected is None ==> {
            &&& after.table_state.selected == Some(0usize)
            &&& after.table_state.offset == before.table_state.offset
            &&& after.rows == before.rows
            &&& after.active_tab == before.active_tab
            &&& after.triage == before.triage
            &&& same_filter(before, after)
            &&& same_beside_the_table(before, after)
        },
{
}

/// Right, `l` and Tab open the next tab, behind the last the first; Left, `h` and
/// back-Tab the one before, before the first the last. The table shows what the tab
/// calls for, from its top, with its first host selected. Nothing else changes.
pub proof fn arrows_open_tabs(
    before: App,
    after: App,
    key: Key,
    now: u128,
    log_time: Seq<char>,
)
    requires
        before.input_mode == InputMode::Normal,
        before.tabs@.len() >= 2,
        before.active_tab < before.tabs@.len(),
        key == Key::Right || key == Key::Char('l') || key == Key::Tab || key == Key::Left || key
            == Key::Char('h') || key == Key::BackTab,
        after.key_handled(before, key, now, log_time),
    ensures
        key == Key::Right || key == Key::Char('l') || key == Key::Tab ==> after.active_tab == if (
        before.active_tab + 1 < before.tabs@.len()) {
            before.active_tab + 1
        } else {
            0
        },
        key == Key::Left || key == Key::Char('h') || key == Key::BackTab ==> after.active_tab == if (
        before.active_tab > 0) {
            before.active_tab - 1
        } else {
            before.tabs@.len() - 1
        },
        after.triage == before.triage,
        same_filter(before, after),
        same_beside_the_table(before, after),
        table_is_right(after),
        selection_is_right(TableState { selected: None, offset: 0 }, after),
{
    let tabs = before.tabs@.len() as int;
    tabs_go_round(before.active_tab as int, tabs);
    if key == Key::Right || key == Key::Char('l') || key == Key::Tab {
        opening_a_tab_changes_the_tab_alone(
            before,
            after,
            tab_after(before.active_tab as int, tabs),
        );
    } else {
        opening_a_tab_changes_the_tab_alone(
            before,
            after,
            tab_before(before.active_tab as int, tabs),
        );
    }
}

/// `q` quits, and so does Esc where there is no filter; nothing else changes. Esc
/// clears a filter that there is.
pub proof fn q_and_esc_leave(
    before: App,
    after: App,
    key: Key,
    now: u128,
    log_time: Seq<char>,
)
    requires
        before.input_mode == InputMode::Normal,
        after.key_handled(before, key, now, log_time),
    ensures
        key == Key::Char('q') || key == Key::Esc && before.filter_query@.len() == 0 ==> {
            &&& after.should_quit
            &&& after.groups == before.groups
            &&& after.debug_log == before.debug_log
            &&& after.show_help == before.show_help
            &&& after.show_debug == before.show_debug
            &&& same_settings(before, after)
            &&& same_scan(before, after)
            &&& same_message(before, after)
            &&& same_table(before, after)
        },
        key == Key::Esc && before.filter_query@.len() > 0 ==> {
            &&& after.filter_query@.len() == 0
            &&& after.filter_draft@.len() == 0
            &&& after.input_mode == InputMode::Normal
            &&& after.active_tab == before.active_tab
            &&& after.triage == before.triage
            &&& same_beside_the_table(before, after)
            &&& table_is_right(after)
            &&& selection_is_right(before.table_state, after)
        },
{
    if key == Key::Esc && before.filter_query@.len() > 0 {
        clearing_leaves_no_filter(before, after);
    }
}

/// `/` edits the filter, beginning with the one there is; `t` switches triage, and the
/// table shows what that calls for.
pub proof fn slash_and_t_change_what_is_searched(
    before: App,
    after: App,
    key: Key,
    now: u128,
    log_time: Seq<char>,
)
    requires
        before.input_mode == InputMode::Normal,
        after.key_handled(before, key, now, log_time),
    ensures
        key == Key::Char('/') ==> {
            &&& after.input_mode == InputMode::Filter
            &&& after.filter_draft@ == before.filter_query@
            &&& after.filter_query == before.filter_query
            &&& after.rows == before.rows
            &&& after.table_state == before.table_state
            &&& after.active_tab == before.active_tab
            &&& after.triage == before.triage
            &&& same_beside_the_table(before, after)
        },
        key == Key::Char('t') ==> {
            &&& after.triage == !before.triage
            &&& after.active_tab == before.active_tab
            &&& same_filter(before, after)
            &&& same_beside_the_table(before, after)
            &&& table_is_right(after)
            &&& selection_is_right(before.table_state, after)
        },
{
    if key == Key::Char('/') {
        editing_begins_with_the_filter(before, after);
    } else if key == Key::Char('t') {
        triage_switches_alone(before, after);
    }
}

/// `?` shows or hides the help; `d` shows or hides the debug overlay and logs which;
/// `D` empties the log; `r` says that a scan runs. Nothing else changes.
pub proof fn letters_switch_what_is_open(
    before: App,
    after: App,
    key: Key,
    now: u128,
    log_time: Seq<char>,
)
    requires
        before.input_mode == InputMode::Normal,
        key == Key::Char('?') || key == Key::Char('d') || key == Key::Char('D') || key == Key::Char(
            'r',
        ),
        after.key_handled(before, key, now, log_time),
    ensures
        after.show_help == if key == Key::Char('?') {
            !before.show_help
        } else {
            before.show_help
        },
        after.show_debug == if key == Key::Char('d') {
            !before.show_debug
        } else {
            before.show_debug
        },
        key == Key::Char('d') && before.show_debug ==> after.log_lines() == logged(
            before.log_lines(),
            log_time + seq![' '] + "debug overlay disabled"@,
        ),
        key == Key::Char('d') && !before.show_debug ==> after.log_lines() == logged(
            before.log_lines(),
            log_time + seq![' '] + "debug overlay enabled"@,
        ),
        key == Key::Char('D') ==> after.debug_log@.len() == 0,
        key == Key::Char('?') || key == Key::Char('r') ==> after.debug_log == before.debug_log,
        key == Key::Char('r') ==> {
            &&& after.status_message matches Some(msg)
            &&& msg@ == "Rescanning..."@
            &&& after.status_set_at == Some(now)
        },
        key != Key::Char('r') ==> same_message(before, after),
        after.should_quit == before.should_quit,
        after.groups == before.groups,
        same_settings(before, after),
        same_scan(before, after),
        same_table(before, after),
{
    log_lines_begin_with_the_time(log_time, "debug overlay enabled"@);
    log_lines_begin_with_the_time(log_time, "debug overlay disabled"@);
}

/// The key has a meaning outside the filter, beyond what it leaves to do.
pub open spec fn has_a_meaning(key: Key) -> bool {
    ||| key == Key::Esc || key == Key::Char('q')
    ||| key == Key::Down || key == Key::Char('j') || key == Key::Up || key == Key::Char('k')
    ||| key == Key::Right || key == Key::Char('l') || key == Key::Tab
    ||| key == Key::Left || key == Key::Char('h') || key == Key::BackTab
    ||| key == Key::Char('/') || key == Key::Char('t') || key == Key::Char('r')
    ||| key == Key::Char('?') || key == Key::Char('d') || key == Key::Char('D')
}

/// Any other key changes nothing, `e` neither.
pub proof fn other_keys_change_nothing(
    before: App,
    after: App,
    key: Key,
    now: u128,
    log_time: Seq<char>,
)
    requires
        before.input_mode == InputMode::Normal,
        !has_a_meaning(key),
        after.key_handled(before, key, now, log_time),
    ensures
        after == before,
{
}

/// While the filter is edited, a character is put behind the draft, Backspace takes
/// its last character away, Enter makes it the filter and Esc drops it; the table
/// shows what results. Any other key changes nothing.
pub proof fn keys_edit_the_filter(
    before: App,
    after: App,
    key: Key,
    now: u128,
    log_time: Seq<char>,
)
    requires
        before.input_mode == InputMode::Filter,
        after.key_handled(before, key, now, log_time),
    ensures
        key matches Key::Char(c) ==> after.filter_draft@ == before.filter_draft@ + seq![c],
        key == Key::Backspace && before.filter_draft@.len() > 0 ==> after.filter_draft@
            == before.filter_draft@.subrange(0, before.filter_draft@.len() - 1),
        key == Key::Backspace && before.filter_draft@.len() == 0 ==> after.filter_draft@.len() == 0,
        key == Key::Enter ==> after.filter_query@ == trimmed(before.filter_draft@),
        key != Key::Enter ==> after.filter_query == before.filter_query,
        key == Key::Esc ==> after.filter_draft@.len() == 0,
        after.input_mode == if key == Key::Enter || key == Key::Esc {
            InputMode::Normal
        } else {
            InputMode::Filter
        },
        after.active_tab == before.active_tab,
        after.triage == before.triage,
        same_beside_the_table(before, after),
        key is Char || key == Key::Backspace || key == Key::Enter || key == Key::Esc ==> {
            &&& table_is_right(after)
            &&& selection_is_right(before.table_state, after)
        },
        !(key is Char || key == Key::Backspace || key == Key::Enter || key == Key::Esc) ==> after
            == before,
{
    match key {
        Key::Char(c) => {
            drafts_change_alone(before, after, before.filter_draft@.push(c));
            assert(before.filter_draft@.push(c) =~= before.filter_draft@ + seq![c]);
        },
        Key::Backspace => {
            drafts_change_alone(before, after, before.shorter_draft());
        },
        Key::Enter => {
            committing_makes_the_draft_the_filter(before, after);
        },
        Key::Esc => {
            cancelling_keeps_the_filter(before, after);
        },
        _ => {},
    }
}

/// Outside the filter `e` leaves an export to do and `r` a scan; no other key leaves
/// anything to do, and none does while the filter is edited.
pub proof fn e_and_r_leave_something_to_do(app: App, key: Key)
    ensures
        app.action_for(key) == KeyAction::Export <==> app.input_mode == InputMode::Normal && key
            == Key::Char('e'),
        app.action_for(key) == KeyAction::Rescan <==> app.input_mode == InputMode::Normal && key
            == Key::Char('r'),
        app.action_for(key) == KeyAction::Nothing <==> app.input_mode == InputMode::Filter || key
            != Key::Char('e') && key != Key::Char('r'),
{
}

/// Every key can be handled, unless it asks for the row or the tab behind the last that
/// can be counted.
pub proof fn keys_can_be_handled(app: App, key: Key)
    ensures
        app.can_handle(key) <==> app.input_mode == InputMode::Filter || {
            &&& !((key == Key::Down || key == Key::Char('j')) && app.rows@.len() > 0
                && app.table_state.selected == Some(usize::MAX))
            &&& !((key == Key::Right || key == Key::Char('l') || key == Key::Tab)
                && app.tabs@.len() >= 2 && app.active_tab == usize::MAX)
        },
{
}

} // verus!
