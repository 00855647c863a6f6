use netprobe::app::{App, Group, Host, HostIds, HostStatus, InputMode, TableRow, TableState};

fn app_with(groups: &[(&str, &[(&str, &str, HostStatus)])]) -> App {
    let mut ids = HostIds::new();
    let mut app = App::new(30, 2000, 64, vec![80]);
    for (gname, hosts) in groups {
        let hs = hosts
            .iter()
            .map(|(n, ip, st)| {
                let mut h = Host::from_config(n, ip, &mut ids);
                h.status = *st;
                h
            })
            .collect();
        app.groups.push(Group {
            name: (*gname).into(),
            hosts: hs,
        });
    }
    app.build_tabs();
    app.rebuild_rows();
    app
}

fn two_groups() -> App {
    app_with(&[
        (
            "A",
            &[("a1", "10.0.0.1", HostStatus::Up), ("a2", "10.0.0.2", HostStatus::Down)],
        ),
        ("B", &[("b1", "10.0.1.1", HostStatus::Unknown)]),
    ])
}

fn host_row_count(app: &App) -> usize {
    app.rows
        .iter()
        .filter(|r| matches!(r, TableRow::HostEntry { .. }))
        .count()
}

/// The rows as text: a header by its name, a host by its place.
fn rows(app: &App) -> Vec<String> {
    app.rows
        .iter()
        .map(|r| match r {
            TableRow::GroupHeader { name } => format!("[{name}]"),
            TableRow::HostEntry { group_idx, host_idx } => format!("{group_idx}.{host_idx}"),
        })
        .collect()
}

#[test]
fn filter_matches_name_or_ip_case_insensitively() {
    let mut app = app_with(&[(
        "G",
        &[
            ("KP-DC01", "10.0.0.1", HostStatus::Up),
            ("KP-PS01", "10.0.0.2", HostStatus::Up),
            ("CC-DNS", "10.0.0.99", HostStatus::Up),
        ],
    )]);
    app.filter_query = "dc".into();
    app.rebuild_rows();
    assert_eq!(host_row_count(&app), 1); // KP-DC01

    app.filter_query = "10.0.0.".into();
    app.rebuild_rows();
    assert_eq!(host_row_count(&app), 3); // all by ip

    app.filter_query = ".99".into();
    app.rebuild_rows();
    assert_eq!(host_row_count(&app), 1); // CC-DNS by ip
}

#[test]
fn triage_hides_up_hosts_and_suppresses_empty_groups() {
    let mut app = app_with(&[
        (
            "AllUp",
            &[("a", "10.0.0.1", HostStatus::Up), ("b", "10.0.0.2", HostStatus::Up)],
        ),
        (
            "HasDown",
            &[("c", "10.0.0.3", HostStatus::Down), ("d", "10.0.0.4", HostStatus::Up)],
        ),
    ]);
    app.triage = true;
    app.rebuild_rows();
    // Only the Down host 'c' remains; the all-Up group's header is suppressed.
    assert_eq!(host_row_count(&app), 1);
    let headers = app
        .rows
        .iter()
        .filter(|r| matches!(r, TableRow::GroupHeader { .. }))
        .count();
    assert_eq!(headers, 1); // only "HasDown"
}

#[test]
fn resolve_tab_precedence_and_fallback() {
    let mut app = App::new(30, 2000, 64, vec![80]);
    app.tabs = ["All", "DET", "Infra"].iter().map(|s| s.to_string()).collect();

    assert_eq!(app.resolve_tab(Some("Infra"), Some("DET")), 2); // saved wins
    assert_eq!(app.resolve_tab(None, Some("DET")), 1); // default
    assert_eq!(app.resolve_tab(Some("infra"), None), 2); // case-insensitive
    assert_eq!(app.resolve_tab(Some("Gone"), Some("DET")), 1); // invalid saved → default
    assert_eq!(app.resolve_tab(Some("Gone"), Some("AlsoGone")), 0); // → All
    assert_eq!(app.resolve_tab(None, None), 0); // → All
}

#[test]
fn a_new_app_is_empty() {
    let app = App::new(5, 6, 0, vec![1, 2]);
    assert_eq!(app.poll_interval, 5);
    assert_eq!(app.connect_timeout_ms, 6);
    assert_eq!(app.max_concurrent_probes, 1); // a cap of zero would let nothing through
    assert_eq!(*app.probe_ports, vec![1, 2]);
    assert_eq!(app.tabs, vec!["All"]);
    assert!(app.groups.is_empty() && app.rows.is_empty() && app.debug_log.is_empty());
    assert!(!app.is_scanning && !app.triage && !app.should_quit);
    assert_eq!(app.input_mode, InputMode::Normal);
}

#[test]
fn the_first_tab_shows_all_groups_with_headers() {
    let mut app = two_groups();
    assert_eq!(rows(&app), vec!["[A]", "0.0", "0.1", "[B]", "1.0"]);
    app.next_tab();
    assert_eq!(rows(&app), vec!["0.0", "0.1"]);
    app.next_tab();
    assert_eq!(rows(&app), vec!["1.0"]);
    app.next_tab();
    assert_eq!(app.active_tab, 0);
    app.prev_tab();
    assert_eq!(app.active_tab, 2);
    app.prev_tab();
    assert_eq!(app.active_tab, 1);
}

#[test]
fn a_single_tab_stays() {
    let mut app = App::new(30, 2000, 64, vec![80]);
    app.next_tab();
    assert_eq!(app.active_tab, 0);
    app.prev_tab();
    assert_eq!(app.active_tab, 0);
}

#[test]
fn build_tabs_resets_a_tab_that_is_gone() {
    let mut app = two_groups();
    app.active_tab = 2;
    app.build_tabs();
    assert_eq!(app.active_tab, 2);
    app.groups.pop();
    app.build_tabs();
    assert_eq!(app.tabs, vec!["All", "A"]);
    assert_eq!(app.active_tab, 0);
}

#[test]
fn rows_wrap_around() {
    let mut app = two_groups();
    assert_eq!(app.table_state.selected, Some(1)); // the first host, not its header
    app.prev_row();
    assert_eq!(app.table_state.selected, Some(0));
    app.prev_row();
    assert_eq!(app.table_state.selected, Some(4));
    app.next_row();
    assert_eq!(app.table_state.selected, Some(0));
    app.table_state = TableState { selected: None, offset: 0 };
    app.next_row();
    assert_eq!(app.table_state.selected, Some(0));
    app.table_state = TableState { selected: None, offset: 0 };
    app.prev_row();
    assert_eq!(app.table_state.selected, Some(0));
}

#[test]
fn no_row_no_selection() {
    let mut app = two_groups();
    app.filter_query = "no such host".into();
    app.rebuild_rows();
    assert!(app.rows.is_empty());
    assert_eq!(app.table_state.selected, None);
    app.next_row();
    app.prev_row();
    assert_eq!(app.table_state.selected, None);
    assert!(app.selected_host().is_none());
}

#[test]
fn rebuilding_keeps_a_selection_on_a_host() {
    let mut app = two_groups();
    app.table_state.select(Some(4));
    app.rebuild_rows();
    assert_eq!(app.table_state.selected, Some(4));
    assert_eq!(app.selected_host().unwrap().name, "b1");
    app.table_state.select(Some(3)); // B's header
    assert!(app.selected_host().is_none());
    app.rebuild_rows();
    assert_eq!(app.table_state.selected, Some(1));
    assert_eq!(app.selected_host().unwrap().name, "a1");
}

#[test]
fn clearing_the_selection_scrolls_to_the_top() {
    let mut state = TableState { selected: Some(9), offset: 7 };
    state.select(Some(8));
    assert_eq!(state, TableState { selected: Some(8), offset: 7 });
    state.select(None);
    assert_eq!(state, TableState { selected: None, offset: 0 });
}

#[test]
fn the_draft_filters_while_it_is_edited() {
    let mut app = two_groups();
    app.enter_filter();
    assert_eq!(app.input_mode, InputMode::Filter);
    for c in " B1 ".chars() {
        app.push_filter_char(c);
    }
    assert_eq!(app.effective_query(), " B1 ");
    assert_eq!(rows(&app), vec!["[B]", "1.0"]);
    app.commit_filter();
    assert_eq!(app.filter_query, "B1");
    assert_eq!(app.input_mode, InputMode::Normal);
    assert_eq!(rows(&app), vec!["[B]", "1.0"]);
    app.clear_filter();
    assert_eq!(app.filter_query, "");
    assert_eq!(rows(&app).len(), 5);
}

#[test]
fn cancelling_an_edit_brings_the_rows_back() {
    let mut app = two_groups();
    app.filter_query = "10.0.0".into();
    app.rebuild_rows();
    let before = rows(&app);
    assert_eq!(before, vec!["[A]", "0.0", "0.1"]);
    app.enter_filter();
    assert_eq!(app.filter_draft, "10.0.0");
    app.push_filter_char('x');
    assert!(app.rows.is_empty());
    app.cancel_filter();
    assert_eq!(app.filter_query, "10.0.0");
    assert_eq!(app.filter_draft, "");
    assert_eq!(rows(&app), before);
}

#[test]
fn popping_an_empty_draft_is_harmless() {
    let mut app = two_groups();
    app.enter_filter();
    app.pop_filter_char();
    assert_eq!(app.filter_draft, "");
    app.push_filter_char('ü');
    app.push_filter_char('2');
    app.pop_filter_char();
    assert_eq!(app.filter_draft, "ü");
}

#[test]
fn toggling_triage_twice_changes_nothing() {
    let mut app = two_groups();
    let before = rows(&app);
    app.toggle_triage();
    assert_eq!(rows(&app), vec!["[A]", "0.1", "[B]", "1.0"]);
    app.toggle_triage();
    assert_eq!(rows(&app), before);
}

#[test]
fn counts_follow_the_tab() {
    let mut app = two_groups();
    assert_eq!(app.counts(), (1, 1, 1));
    assert_eq!(app.visible_host_count(), 3);
    app.next_tab();
    assert_eq!(app.counts(), (1, 1, 0));
    assert_eq!(app.visible_host_count(), 2);
    app.next_tab();
    assert_eq!(app.counts(), (0, 0, 1));
    assert_eq!(app.visible_host_count(), 1);
    // Filters hide rows, not hosts.
    app.filter_query = "nothing".into();
    app.rebuild_rows();
    assert_eq!(app.visible_host_count(), 1);
}

#[test]
fn hosts_are_found_by_id() {
    let mut app = two_groups();
    assert_eq!(app.find_host(3), Some((1, 0)));
    assert_eq!(app.find_host(2), Some((0, 1)));
    assert_eq!(app.find_host(4), None);
    app.find_host_mut(2).unwrap().name = "renamed".into();
    assert_eq!(app.groups[0].hosts[1].name, "renamed");
    assert_eq!(app.groups[0].hosts[0].name, "a1");
    assert!(app.find_host_mut(9).is_none());
}

#[test]
fn the_saved_tab_is_opened_again() {
    let mut app = two_groups();
    app.active_tab = 2;
    let saved = app.active_label().unwrap().clone();
    assert_eq!(saved, "B");
    let mut again = two_groups();
    again.restore_active_tab(Some(" b\n"), Some("A"));
    assert_eq!(again.active_tab, 2);
    again.restore_active_tab(Some(saved.as_str()), None);
    assert_eq!(again.active_tab, 2);
    again.restore_active_tab(Some(" \n"), Some("A")); // blank: names no tab
    assert_eq!(again.active_tab, 1);
    again.restore_active_tab(None, None);
    assert_eq!(again.active_tab, 0);
    again.active_tab = 7;
    assert!(again.active_label().is_none());
}
