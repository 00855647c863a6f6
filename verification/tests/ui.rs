use netprobe::app::{App, Group, Host, HostIds, HostStatus, InputMode, TableRow};
use netprobe::clock::Stamp;
use netprobe::ui::{
    help_lines, host_detail, host_line, keybinds, needs_scrollbar, table_head, Hue, Look, Pane,
    Piece, TableLine,
};

fn app() -> App {
    let mut ids = HostIds::new();
    let mut app = App::new(30, 2000, 64, vec![80]);
    app.groups.push(Group {
        name: "G".into(),
        hosts: ["one", "two", "three"]
            .iter()
            .map(|n| Host::from_config(n, "10.0.0.1", &mut ids))
            .collect(),
    });
    app.groups[0].hosts[0].status = HostStatus::Up;
    app.groups[0].hosts[1].status = HostStatus::Down;
    app.groups[0].hosts[1].is_child = true;
    app.build_tabs();
    app.rebuild_rows();
    app
}

fn text(line: &[Piece]) -> String {
    line.iter().map(|p| p.text.as_str()).collect()
}

fn cells(line: &TableLine) -> Vec<&str> {
    line.cells.iter().map(|p| p.text.as_str()).collect()
}

fn stamp(millis: i64) -> Stamp {
    Stamp::new(millis, 0).unwrap()
}

#[test]
fn the_debug_overlay_covers_the_help() {
    let mut app = app();
    assert_eq!(app.pane(), Pane::Table);
    app.show_help = true;
    assert_eq!(app.pane(), Pane::Help);
    app.show_debug = true;
    assert_eq!(app.pane(), Pane::Debug);
    assert_eq!(Pane::Table.title(), " Infrastructure ");
    assert_eq!(Pane::Help.title(), " Help (? to close) ");
    assert_eq!(Pane::Debug.title(), " Debug (d to close) ");
}

#[test]
fn tabs_have_room_around_them() {
    assert_eq!(app().tab_titles(), vec![" All ", " G "]);
}

#[test]
fn the_idle_header_counts_down() {
    let mut app = app();
    app.last_scan = 0;
    let line = app.header_at(" │ 12:34:56", &stamp(0), 4_500_000_000);
    assert_eq!(
        text(&line),
        " netprobe │ 3 hosts │ ● 1 ✗ 1 ? 1 │ 12:34:56 │ next scan 26s"
    );
    assert_eq!(line[0].look, Look::strong_colour(Hue::Cyan));
    assert_eq!(line[2].look, Look::colour(Hue::Green));
    assert_eq!(line[4].look, Look::colour(Hue::Red));
    assert_eq!(line[6].look, Look::colour(Hue::DarkGray));
    assert_eq!(line[8].look, Look::colour(Hue::DarkGray));
}

#[test]
fn the_scanning_header_spins() {
    let mut app = app();
    app.is_scanning = true;
    let frames: String = (0..11)
        .map(|i| {
            let line = app.header_at("", &stamp(i * 100 + 99), 0);
            assert_eq!(line[8].look, Look::colour(Hue::Yellow));
            assert!(line[8].text.ends_with(" scanning"));
            line[8].text.chars().nth(1).unwrap()
        })
        .collect();
    assert_eq!(frames, "⠋⠙⠹⠸⠼⠴⠦⠧⠇⠏⠋");
}

#[test]
fn the_header_shows_filter_triage_and_status() {
    let mut app = app();
    app.is_scanning = true;
    app.filter_query = "dc".into();
    app.triage = true;
    app.status_message = Some("Rescanning...".into());
    let line = app.header_at("", &stamp(0), 0);
    assert!(text(&line).ends_with(" scanning │ /dc │ [triage] Rescanning..."));
    assert_eq!(line[9].look, Look::colour(Hue::Yellow));
    assert_eq!(line[10].look, Look::colour(Hue::Magenta));
    app.input_mode = InputMode::Filter;
    app.filter_draft = "ps".into();
    app.status_message = Some(String::new());
    let line = app.header_at("", &stamp(0), 0);
    assert!(text(&line).ends_with(" scanning │ /ps▏ │ [triage]"));
    assert_eq!(line[9].look, Look::marker(Hue::Yellow));
}

#[test]
fn the_header_reads_the_clocks() {
    let mut app = app();
    assert!(text(&app.header()).ends_with("? 1 │ next scan 30s"));
    app.last_poll = Some(stamp(3_723_000));
    assert_eq!(app.header()[7].text, " │ 01:02:03");
}

#[test]
fn the_table_has_a_line_for_each_row() {
    let mut app = app();
    app.groups[0].hosts[1].open_ports = vec![22];
    app.groups[0].hosts[1].latency_ms = Some(12);
    app.groups[0].hosts[1].last_seen = Some(stamp(60_000));
    assert!(app.has_valid_rows());
    let lines = app.table_lines();
    assert_eq!(lines.len(), 4);
    assert_eq!(
        cells(&lines[0]),
        vec!["──", " G ", "──────────────", "──────", "────────────────", "────", "────"]
    );
    assert_eq!(lines[0].look, Look::strong_colour(Hue::Cyan));
    assert_eq!(cells(&lines[1]), vec![" ●", "one", "10.0.0.1", "—", "—", "—", "—"]);
    assert_eq!(lines[1].look, Look::plain());
    assert_eq!(lines[1].cells[0].look, Look::colour(Hue::Green));
    assert_eq!(cells(&lines[2]), vec![" ✗", "  └ two", "10.0.0.1", "SSH", "22", "12", "00:01"]);
    assert_eq!(lines[2].look, Look::colour(Hue::Red));
    assert_eq!(lines[2].cells[3].look, Look::colour(Hue::Green));
    assert_eq!(lines[3].look, Look::colour(Hue::DarkGray));
}

#[test]
fn roles_have_colours() {
    let looks: [(&[u16], Look); 7] = [
        (&[88, 389], Look::colour(Hue::Yellow)),
        (&[2179], Look::colour(Hue::Magenta)),
        (&[10123], Look::colour(Hue::Blue)),
        (&[7001], Look::colour(Hue::Cyan)),
        (&[22], Look::colour(Hue::Green)),
        (&[80], Look::plain()),
        (&[], Look::plain()),
    ];
    for (ports, look) in looks {
        let mut host = Host::from_config("h", "", &mut HostIds::new());
        host.open_ports = ports.to_vec();
        let line = host_line(&host, "09:00");
        assert_eq!(line.cells[3].look, look);
        assert_eq!(line.cells[6].text, "09:00");
    }
}

#[test]
fn rows_without_a_host_are_told() {
    let mut app = app();
    app.rows.push(TableRow::HostEntry { group_idx: 0, host_idx: 3 });
    assert!(!app.has_valid_rows());
    app.rows.pop();
    app.rows.push(TableRow::HostEntry { group_idx: 1, host_idx: 0 });
    assert!(!app.has_valid_rows());
}

#[test]
fn the_head_names_the_columns() {
    let head = table_head();
    assert_eq!(cells(&head), vec!["St", "Host", "IP", "Role", "Ports", "ms", "Seen"]);
    assert_eq!(head.look, Look::strong_colour(Hue::DarkGray));
}

#[test]
fn a_scrollbar_shows_when_rows_do_not_fit() {
    assert!(!needs_scrollbar(7, 10));
    assert!(needs_scrollbar(8, 10));
    assert!(!needs_scrollbar(0, 0));
    assert!(needs_scrollbar(1, 2));
}

#[test]
fn the_detail_pane_describes_the_selected_host() {
    let mut app = app();
    app.groups[0].hosts[0].open_ports = vec![80, 443];
    app.groups[0].hosts[0].last_checked = Some(stamp(1_000));
    let lines = app.detail();
    assert_eq!(text(&lines[0]), "Host: one  (10.0.0.1)  id=1");
    assert_eq!(text(&lines[1]), "Ports: 80, 443");
    assert_eq!(text(&lines[2]), "Checked: 00:00:01  │  Failures: 0");
    assert_eq!(lines[0][0].look, Look::colour(Hue::DarkGray));
    assert_eq!(lines[0][1].look, Look::plain());
    app.table_state.select(Some(3));
    let lines = app.detail();
    assert_eq!(text(&lines[1]), "Ports: none");
    assert_eq!(text(&lines[2]), "Checked: never  │  Failures: 0");
    app.table_state.select(None);
    let lines = app.detail();
    assert_eq!(lines.len(), 1);
    assert_eq!(text(&lines[0]), "Select a host");
    assert_eq!(text(&host_detail(&app.groups[0].hosts[1], "x")[2]), "Checked: x  │  Failures: 0");
}

#[test]
fn the_debug_overlay_shows_state_and_the_newest_events() {
    let mut app = app();
    for i in 0..5 {
        app.log_line("t", &format!("e{i}"));
    }
    // Two borders and six lines leave room for three of eleven.
    let lines = app.debug_lines(11);
    let texts: Vec<String> = lines.iter().map(|l| text(l)).collect();
    assert_eq!(
        texts,
        vec![
            " Debug — internal state (d to close, Shift-D clears log)",
            " scanning=false groups=1 rows=4 selected_row=1",
            " counts: up=1 down=1 unknown=1  poll_interval=30s timeout=2000ms",
            " group[0] G                            hosts=3",
            "",
            " Event log (newest last):",
            " t e2",
            " t e3",
            " t e4",
        ]
    );
    assert_eq!(lines[0][0].look, Look::bold());
    assert_eq!(lines[3][0].look, Look::colour(Hue::Cyan));
    assert_eq!(lines[8][0].look, Look::colour(Hue::DarkGray));
    // At least one event is shown, all of them where they fit.
    assert_eq!(app.debug_lines(0).len(), 7);
    assert_eq!(app.debug_lines(9).len(), 7);
    assert_eq!(app.debug_lines(10).len(), 8);
    assert_eq!(app.debug_lines(100).len(), 11);
    app.table_state.select(None);
    app.groups[0].name = "a name that is longer than twenty-eight".into();
    let lines = app.debug_lines(100);
    assert!(text(&lines[1]).ends_with("selected_row=—"));
    assert_eq!(
        text(&lines[3]),
        " group[0] a name that is longer than twenty-eight hosts=3"
    );
}

#[test]
fn the_help_lists_the_keys() {
    let lines = help_lines();
    assert_eq!(lines.len(), 19);
    assert_eq!(text(&lines[0]), " Keybinds");
    assert_eq!(lines[0][0].look, Look::bold());
    assert_eq!(text(&lines[12]), " q / Esc     Quit (Esc clears an active search first)");
    assert_eq!(text(&lines[18]), " default_tab opens a chosen tab; the last tab is remembered.");
    assert!(keybinds().contains("r rescan"));
}
