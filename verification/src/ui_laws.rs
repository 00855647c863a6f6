//! What the screen shows, text by text.

use crate::app::{App, HostStatus, InputMode, TableRow};
use crate::clock::Stamp;
use crate::host::{ports_text, role_of, HostView};
use crate::text::{decimal, joined_ports};
use crate::ui::{
    bold_look, checked_text, coloured, detail_lines, group_line, head_line, help_pane,
    host_line_view, lines, log_lines_skipped, marked, padded, pieces, plain_look, poll_text,
    role_look, seen_text, spinner_at, strong, Hue, Look, Pane, Piece, PieceView, TableLine,
};
use vstd::prelude::*;

verus! {

// ── Pieces and looks ─────────────────────────────────────────────────────

/// The pieces of a line are its texts and looks, in order; the lines of a pane are
/// those of its lines; and a line of the table has its cells and its look.
pub proof fn every_piece_is_shown(line: Seq<Piece>, pane: Seq<Vec<Piece>>, row: TableLine)
    ensures
        pieces(line).len() == line.len(),
        forall|i: int|
            0 <= i < line.len() ==> (#[trigger] pieces(line)[i]).text == line[i].text@
                && pieces(line)[i].look == line[i].look,
        lines(pane).len() == pane.len(),
        forall|i: int| 0 <= i < pane.len() ==> #[trigger] lines(pane)[i] == pieces(pane[i]@),
        row@.cells == pieces(row.cells@),
        row@.look == row.look,
{
}

/// The piece has the text, in the colour if one is given, on the ground if one is
/// given, in bold or not.
pub open spec fn says(
    p: PieceView,
    text: Seq<char>,
    fg: Option<Hue>,
    bg: Option<Hue>,
    bold: bool,
) -> bool {
    p.text == text && p.look.fg == fg && p.look.bg == bg && p.look.bold == bold
}

/// The piece has the text and looks as what is around it.
pub open spec fn says_plainly(p: PieceView, text: Seq<char>) -> bool {
    says(p, text, None, None, false)
}

/// The piece has the text, in the colour.
pub open spec fn says_in(p: PieceView, text: Seq<char>, hue: Hue) -> bool {
    says(p, text, Some(hue), None, false)
}

/// The line has one piece with the text, in bold or not, and no colour.
pub open spec fn is_line(line: Seq<PieceView>, text: Seq<char>, bold: bool) -> bool {
    line.len() == 1 && says(line[0], text, None, None, bold)
}

/// What each look is.
pub proof fn looks_are_told_apart(hue: Hue)
    ensures
        plain_look().fg is None && plain_look().bg is None && !plain_look().bold,
        bold_look().fg is None && bold_look().bg is None && bold_look().bold,
        coloured(hue).fg == Some(hue) && coloured(hue).bg is None && !coloured(hue).bold,
        strong(hue).fg == Some(hue) && strong(hue).bg is None && strong(hue).bold,
        marked(hue).fg == Some(Hue::Black) && marked(hue).bg == Some(hue) && marked(hue).bold,
{
}

/// The debug overlay goes before the help, and the help before the table.
pub proof fn overlays_go_before_the_table(app: App)
    ensures
        app.show_debug ==> app.shown_pane() == Pane::Debug,
        !app.show_debug && app.show_help ==> app.shown_pane() == Pane::Help,
        !app.show_debug && !app.show_help ==> app.shown_pane() == Pane::Table,
        Pane::Debug.title_text() == " Debug (d to close) "@,
        Pane::Help.title_text() == " Help (? to close) "@,
        Pane::Table.title_text() == " Infrastructure "@,
{
}

// ── Header ───────────────────────────────────────────────────────────────

/// The spinner shows ten frames, each for a tenth of a second, and begins anew every
/// second.
pub proof fn spinner_turns_once_a_second(millis: int, k: int)
    requires
        millis >= 0,
        0 <= k < 10,
        100 * k <= millis % 1000 < 100 * (k + 1),
    ensures
        spinner_at(millis) == if k == 0 {
            "⠋"@
        } else if k == 1 {
            "⠙"@
        } else if k == 2 {
            "⠹"@
        } else if k == 3 {
            "⠸"@
        } else if k == 4 {
            "⠼"@
        } else if k == 5 {
            "⠴"@
        } else if k == 6 {
            "⠦"@
        } else if k == 7 {
            "⠧"@
        } else if k == 8 {
            "⠇"@
        } else {
            "⠏"@
        },
        spinner_at(millis + 1000) == spinner_at(millis),
{
    assert((millis / 100) % 10 == k);
    assert(((millis + 1000) / 100) % 10 == k);
}

/// The header begins with the program's name, the number of hosts under the tab, how
/// many of them are up, down and unknown, and when the last scan ended.
pub proof fn header_begins_with_the_counts(app: App, poll: Seq<char>, millis: int, now: u128)
    ensures
        ({
            let p = app.header_pieces(poll, millis, now);
            &&& p.len() >= 9
            &&& says(p[0], " netprobe "@, Some(Hue::Cyan), None, true)
            &&& says_plainly(p[1], "│ "@ + decimal(app.visible_count()) + " hosts │ "@)
            &&& says_in(p[2], "● "@ + decimal(app.count_of(HostStatus::Up)), Hue::Green)
            &&& says_plainly(p[3], " "@)
            &&& says_in(p[4], "✗ "@ + decimal(app.count_of(HostStatus::Down)), Hue::Red)
            &&& says_plainly(p[5], " "@)
            &&& says_in(
                p[6],
                "? "@ + decimal(app.count_of(HostStatus::Unknown)),
                Hue::DarkGray,
            )
            &&& says_in(p[7], poll, Hue::DarkGray)
        }),
{
}

/// Behind the counts stands the spinner while a scan runs, and the seconds to the next
/// one otherwise.
pub proof fn header_tells_of_the_scan(app: App, poll: Seq<char>, millis: int, now: u128)
    ensures
        ({
            let p = app.header_pieces(poll, millis, now);
            &&& app.is_scanning ==> says_in(
                p[8],
                " "@ + spinner_at(millis) + " scanning"@,
                Hue::Yellow,
            )
            &&& !app.is_scanning ==> (app.countdown(now) matches Some(secs) && says_in(
                p[8],
                " │ next scan "@ + decimal(secs as nat) + "s"@,
                Hue::DarkGray,
            ))
        }),
{
}

/// Behind the scan stand, where there are any, the filter, the mark of triage and the
/// status message, in this order, and nothing else.
pub proof fn header_ends_with_filter_triage_and_message(
    app: App,
    poll: Seq<char>,
    millis: int,
    now: u128,
)
    ensures
        ({
            let p = app.header_pieces(poll, millis, now);
            let editing = app.input_mode == InputMode::Filter;
            let filtered = editing || app.filter_query@.len() > 0;
            let message = app.status_message matches Some(msg) && msg@.len() > 0;
            let f = 9 + if filtered {
                1int
            } else {
                0int
            };
            let t = f + if app.triage {
                1int
            } else {
                0int
            };
            let m = t + if message {
                1int
            } else {
                0int
            };
            &&& p.len() == m
            &&& editing ==> says(
                p[9],
                " │ /"@ + app.filter_draft@ + "▏"@,
                Some(Hue::Black),
                Some(Hue::Yellow),
                true,
            )
            &&& !editing && filtered ==> says_in(p[9], " │ /"@ + app.filter_query@, Hue::Yellow)
            &&& app.triage ==> says_in(p[f], " │ [triage]"@, Hue::Magenta)
            &&& message ==> says_in(p[t], " "@ + app.status_message->0@, Hue::Yellow)
        }),
{
}

/// The header shows the time at which the last scan ended, to the second.
pub proof fn header_shows_the_last_scan(time: Stamp)
    ensures
        poll_text(Some(time)) == time.text(" │ %H:%M:%S"@),
        poll_text(None).len() == 0,
{
    reveal_strlit("");
}

// ── Table ────────────────────────────────────────────────────────────────

/// The head of the table names its seven columns.
pub proof fn head_names_the_columns()
    ensures
        head_line().cells.len() == 7,
        says_plainly(head_line().cells[0], "St"@),
        says_plainly(head_line().cells[1], "Host"@),
        says_plainly(head_line().cells[2], "IP"@),
        says_plainly(head_line().cells[3], "Role"@),
        says_plainly(head_line().cells[4], "Ports"@),
        says_plainly(head_line().cells[5], "ms"@),
        says_plainly(head_line().cells[6], "Seen"@),
        head_line().look == strong(Hue::DarkGray),
{
}

/// The line above the hosts of a group has its name between blanks, and a rule in
/// every other cell.
pub proof fn group_lines_have_the_name(name: Seq<char>)
    ensures
        ({
            let line = group_line(name);
            &&& line.cells.len() == 7
            &&& says_plainly(line.cells[0], "──"@)
            &&& says_plainly(line.cells[1], " "@ + name + " "@)
            &&& says_plainly(line.cells[2], "──────────────"@)
            &&& says_plainly(line.cells[3], "──────"@)
            &&& says_plainly(line.cells[4], "────────────────"@)
            &&& says_plainly(line.cells[5], "────"@)
            &&& says_plainly(line.cells[6], "────"@)
            &&& line.look == strong(Hue::Cyan)
        }),
{
}

/// A host's line has the mark of its status, its name, its address, its role, the
/// ports that are shown, its latency and when it was seen. A child's name is indented;
/// an unknown latency is a dash.
pub proof fn host_lines_have_what_is_known(h: HostView, seen: Seq<char>)
    ensures
        ({
            let c = host_line_view(h, seen).cells;
            &&& c.len() == 7
            &&& h.status == HostStatus::Up ==> says_in(c[0], " "@ + "●"@, Hue::Green)
            &&& h.status == HostStatus::Down ==> says_in(c[0], " "@ + "✗"@, Hue::Red)
            &&& h.status == HostStatus::Unknown ==> says_in(c[0], " "@ + "?"@, Hue::DarkGray)
            &&& h.is_child ==> says_plainly(c[1], "  └ "@ + h.name)
            &&& !h.is_child ==> says_plainly(c[1], h.name)
            &&& says_plainly(c[2], h.ip)
            &&& c[3].text == role_of(h.open_ports)
            &&& c[3].look == role_look(role_of(h.open_ports))
            &&& says_plainly(c[4], ports_text(h.open_ports))
            &&& h.latency_ms matches Some(ms) ==> says_plainly(c[5], decimal(ms as nat))
            &&& h.latency_ms is None ==> says_plainly(c[5], "—"@)
            &&& says_plainly(c[6], seen)
        }),
{
}

/// The line of a host that is up looks as what is around it, that of one that is down
/// is red, and that of any other is grey.
pub proof fn host_lines_look_by_status(h: HostView, seen: Seq<char>)
    ensures
        h.status == HostStatus::Up ==> host_line_view(h, seen).look == (Look {
            fg: None,
            bg: None,
            bold: false,
        }),
        h.status == HostStatus::Down ==> host_line_view(h, seen).look == (Look {
            fg: Some(Hue::Red),
            bg: None,
            bold: false,
        }),
        h.status == HostStatus::Unknown ==> host_line_view(h, seen).look == (Look {
            fg: Some(Hue::DarkGray),
            bg: None,
            bold: false,
        }),
{
}

/// The roles that have a colour of their own, and that no other has one.
pub proof fn roles_look_by_name(role: Seq<char>)
    ensures
        role_look("DC"@) == coloured(Hue::Yellow),
        role_look("Hyper-V"@) == coloured(Hue::Magenta),
        role_look("SCCM"@) == coloured(Hue::Blue),
        role_look("NxWitness"@) == coloured(Hue::Cyan),
        role_look("SSH"@) == coloured(Hue::Green),
        role != "DC"@ && role != "Hyper-V"@ && role != "SCCM"@ && role != "NxWitness"@ && role
            != "SSH"@ ==> role_look(role) == plain_look(),
{
    reveal_strlit("DC");
    reveal_strlit("Hyper-V");
    reveal_strlit("SCCM");
    reveal_strlit("NxWitness");
    reveal_strlit("SSH");
    assert("DC"@.len() == 2);
    assert("Hyper-V"@.len() == 7);
    assert("SCCM"@.len() == 4);
    assert("NxWitness"@.len() == 9);
    assert("SSH"@.len() == 3);
}

/// The table shows the hour and minute at which a host was seen, and a dash for one
/// that never was.
pub proof fn table_shows_when_hosts_were_seen(time: Stamp)
    ensures
        seen_text(Some(time)) == time.text("%H:%M"@),
        seen_text(None) == "—"@,
{
}

/// The line of a row is that of its group, or that of the host at its place.
pub proof fn rows_show_their_host(app: App, i: int)
    requires
        0 <= i < app.rows@.len(),
    ensures
        app.rows@[i] matches TableRow::GroupHeader { name } ==> app.row_line(app.rows@[i])
            == group_line(name@),
        app.rows@[i] matches TableRow::HostEntry { group_idx, host_idx } ==> {
            let host = app.groups@[group_idx as int].hosts@[host_idx as int];
            app.row_line(app.rows@[i]) == host_line_view(host@, seen_text(host.last_seen))
        },
{
}

/// Rows can be shown just if each is a header or that of a host there is.
pub proof fn rows_can_be_shown_of_hosts_there_are(app: App)
    ensures
        app.rows_fit() <==> forall|i: int|
            0 <= i < app.rows@.len() ==> (#[trigger] app.rows@[i] matches TableRow::HostEntry {
                group_idx,
                host_idx,
            } ==> group_idx < app.groups@.len() && host_idx < app.groups@[group_idx as int].hosts@.len()),
{
    if forall|i: int|
        0 <= i < app.rows@.len() ==> (#[trigger] app.rows@[i] matches TableRow::HostEntry {
            group_idx,
            host_idx,
        } ==> group_idx < app.groups@.len() && host_idx < app.groups@[group_idx as int].hosts@.len()) {
        assert forall|i: int| 0 <= i < app.rows@.len() implies app.row_fits(
            #[trigger] app.rows@[i],
        ) by {}
    }
    if app.rows_fit() {
        assert forall|i: int| 0 <= i < app.rows@.len() implies (
        #[trigger] app.rows@[i] matches TableRow::HostEntry { group_idx, host_idx } ==> group_idx
            < app.groups@.len() && host_idx < app.groups@[group_idx as int].hosts@.len()) by {
            assert(app.row_fits(app.rows@[i]));
        }
    }
}

// ── Detail ───────────────────────────────────────────────────────────────

/// The detail pane names the host, its address and its id, all of its ports, when it
/// was checked and how often it failed since it last answered.
pub proof fn detail_tells_all_ports(h: HostView, checked: Seq<char>)
    ensures
        ({
            let d = detail_lines(h, checked);
            &&& d.len() == 3
            &&& d[0].len() == 4
            &&& says_in(d[0][0], "Host: "@, Hue::DarkGray)
            &&& says_plainly(d[0][1], h.name)
            &&& says_plainly(d[0][2], "  ("@ + h.ip + ")"@)
            &&& says_in(d[0][3], "  id="@ + decimal(h.id as nat), Hue::DarkGray)
            &&& d[1].len() == 2
            &&& says_in(d[1][0], "Ports: "@, Hue::DarkGray)
            &&& h.open_ports.len() == 0 ==> says_plainly(d[1][1], "none"@)
            &&& h.open_ports.len() > 0 ==> says_plainly(
                d[1][1],
                joined_ports(h.open_ports, ", "@),
            )
            &&& d[2].len() == 3
            &&& says_in(d[2][0], "Checked: "@, Hue::DarkGray)
            &&& says_plainly(d[2][1], checked)
            &&& says_plainly(
                d[2][2],
                "  │  Failures: "@ + decimal(h.consecutive_failures as nat),
            )
        }),
{
}

/// The detail pane shows when a host was checked, to the second.
pub proof fn detail_shows_when_hosts_were_checked(time: Stamp)
    ensures
        checked_text(Some(time)) == time.text("%H:%M:%S"@),
        checked_text(None) == "never"@,
{
}

/// The host whose detail is shown is the one in the selected row.
pub proof fn detail_is_that_of_the_selected_row(app: App, i: usize)
    requires
        app.table_state.selected == Some(i),
        i < app.rows@.len(),
    ensures
        app.rows@[i as int] is GroupHeader ==> app.selected_view() is None,
        app.rows@[i as int] matches TableRow::HostEntry { group_idx, host_idx } ==> {
            &&& group_idx < app.groups@.len() && host_idx
                < app.groups@[group_idx as int].hosts@.len() ==> app.selected_view() == Some(
                app.groups@[group_idx as int].hosts@[host_idx as int]@,
            )
        },
{
}

/// Where no row is selected, no host's detail is shown.
pub proof fn no_selection_has_no_detail(app: App)
    requires
        app.table_state.selected matches Some(i) ==> i >= app.rows@.len(),
    ensures
        app.selected_view() is None,
{
}

// ── Debug overlay ────────────────────────────────────────────────────────

/// A text that is padded begins with the text, has at least the width, and has blanks
/// alone behind the text.
pub proof fn padding_puts_blanks_behind(s: Seq<char>, width: nat)
    ensures
        s.len() >= width ==> padded(s, width) == s,
        s.len() < width ==> padded(s, width).len() == width,
        forall|i: int| 0 <= i < s.len() ==> #[trigger] padded(s, width)[i] == s[i],
        forall|i: int| s.len() <= i < width ==> #[trigger] padded(s, width)[i] == ' ',
{
}

/// The overlay leaves out none but the oldest lines of the log, and no more of them
/// than it must: what it shows, with two borders, five lines and one for each group,
/// fits the height, or is one line.
pub proof fn overlay_shows_as_many_lines_as_fit(log: nat, groups: nat, height: u16)
    ensures
        ({
            let left_out = log_lines_skipped(log, groups, height);
            let shown = log - left_out;
            &&& left_out <= log
            &&& shown > 1 ==> shown + groups + 7 <= height
            &&& left_out > 0 ==> shown >= 1 && shown + 1 + groups + 7 > height
        }),
{
}

/// The overlay begins with a title, the state of the scan and the table, and the counts
/// and settings.
pub proof fn overlay_begins_with_the_state(app: App, height: u16)
    ensures
        ({
            let d = app.debug_pane(height);
            &&& d.len() >= 5 + app.groups@.len()
            &&& is_line(
                d[0],
                " Debug — internal state (d to close, Shift-D clears log)"@,
                true,
            )
            &&& is_line(
                d[1],
                " scanning="@ + (if app.is_scanning {
                    "true"@
                } else {
                    "false"@
                }) + " groups="@ + decimal(app.groups@.len()) + " rows="@ + decimal(
                    app.rows@.len(),
                ) + " selected_row="@ + (match app.table_state.selected {
                    Some(i) => decimal(i as nat),
                    None => "—"@,
                }),
                false,
            )
            &&& is_line(
                d[2],
                " counts: up="@ + decimal(app.count_of(HostStatus::Up)) + " down="@ + decimal(
                    app.count_of(HostStatus::Down),
                ) + " unknown="@ + decimal(app.count_of(HostStatus::Unknown))
                    + "  poll_interval="@ + decimal(app.poll_interval as nat) + "s timeout="@
                    + decimal(app.connect_timeout_ms as nat) + "ms"@,
                false,
            )
        }),
{
}

/// Then the overlay has a line for each group, with its number, its name and the number
/// of its hosts.
pub proof fn overlay_has_a_line_for_each_group(app: App, height: u16, g: int)
    requires
        0 <= g < app.groups@.len(),
    ensures
        ({
            let d = app.debug_pane(height);
            &&& d[3 + g].len() == 1
            &&& says_in(
                d[3 + g][0],
                " group["@ + decimal(g as nat) + "] "@ + padded(app.groups@[g].name@, 28)
                    + " hosts="@ + decimal(app.groups@[g].hosts@.len()),
                Hue::Cyan,
            )
        }),
{
    assert(app.debug_groups()[g].len() == 1);
}

/// The overlay ends with an empty line, a title and the newest lines of the log, the
/// newest last.
pub proof fn overlay_ends_with_the_log(app: App, height: u16, i: int)
    ensures
        ({
            let d = app.debug_pane(height);
            let n = app.groups@.len() as int;
            let log = app.debug_log@;
            let left_out = log_lines_skipped(log.len(), app.groups@.len(), height);
            &&& is_line(d[3 + n], ""@, false)
            &&& is_line(d[4 + n], " Event log (newest last):"@, true)
            &&& d.len() == 5 + n + log.len() - left_out
            &&& left_out <= i < log.len() ==> {
                &&& d[5 + n + i - left_out].len() == 1
                &&& says_in(d[5 + n + i - left_out][0], " "@ + log[i]@, Hue::DarkGray)
            }
        }),
{
    let n = app.groups@.len() as int;
    let log = app.debug_log@;
    let left_out = log_lines_skipped(log.len(), app.groups@.len(), height);
    assert(app.log_lines().len() == log.len());
    let events = app.debug_events(left_out);
    if left_out <= i < log.len() {
        assert(app.log_lines().skip(left_out as int)[i - left_out] == app.log_lines()[i]);
        assert(app.log_lines()[i] == log[i]@);
        assert(app.debug_pane(height)[5 + n + i - left_out] == events[i - left_out]);
    }
}

// ── Help ─────────────────────────────────────────────────────────────────

/// The help tells of every key.
pub proof fn help_tells_of_every_key()
    ensures
        help_pane().len() == 19,
        is_line(help_pane()[0], " Keybinds"@, true),
        is_line(help_pane()[1], ""@, false),
        is_line(help_pane()[2], " ↑/k, ↓/j    Navigate hosts"@, false),
        is_line(help_pane()[3], " ←/h, →/l    Switch group tab (All + one per group)"@, false),
        is_line(help_pane()[4], " Tab/Shift-Tab  Switch group tab"@, false),
        is_line(help_pane()[5], " /           Search: filter by name or IP (Enter apply, Esc clear)"@, false),
        is_line(help_pane()[6], " t           Triage: show only hosts that are not Up"@, false),
        is_line(help_pane()[7], " e           Export a CSV snapshot next to the executable"@, false),
        is_line(help_pane()[8], " r           Force rescan all hosts"@, false),
        is_line(help_pane()[9], " d           Toggle debug overlay (internal state + event log)"@, false),
        is_line(help_pane()[10], " Shift-D     Clear the debug event log"@, false),
        is_line(help_pane()[11], " ?           Toggle this help"@, false),
        is_line(help_pane()[12], " q / Esc     Quit (Esc clears an active search first)"@, false),
        is_line(help_pane()[13], ""@, false),
        is_line(help_pane()[14], " Config"@, true),
        is_line(help_pane()[15], ""@, false),
        is_line(help_pane()[16], " Edit config.toml to add/remove hosts and groups."@, false),
        is_line(help_pane()[17], " Roles are inferred from open ports (e.g. 88+389 = DC)."@, false),
        is_line(help_pane()[18], " default_tab opens a chosen tab; the last tab is remembered."@, false),
{
}

} // verus!
