use netprobe::app::{App, Group, Host, HostIds, InputMode};
use netprobe::keys::{Key, KeyAction};

fn app() -> App {
    let mut ids = HostIds::new();
    let mut app = App::new(30, 2000, 64, vec![80]);
    for (group, names) in [("A", ["a1", "a2"]), ("B", ["b1", "b2"])] {
        app.groups.push(Group {
            name: group.into(),
            hosts: names.iter().map(|n| Host::from_config(n, "10.0.0.1", &mut ids)).collect(),
        });
    }
    app.build_tabs();
    app.rebuild_rows();
    app
}

fn press(app: &mut App, key: Key) -> KeyAction {
    assert!(app.key_fits(key));
    app.handle_key_at(key, 17, "12:00:00.000")
}

fn type_text(app: &mut App, text: &str) {
    for c in text.chars() {
        assert_eq!(press(app, Key::Char(c)), KeyAction::Nothing);
    }
}

#[test]
fn q_quits() {
    let mut app = app();
    assert_eq!(press(&mut app, Key::Char('q')), KeyAction::Nothing);
    assert!(app.should_quit);
}

#[test]
fn esc_clears_the_search_before_it_quits() {
    let mut app = app();
    press(&mut app, Key::Char('/'));
    type_text(&mut app, "b1");
    press(&mut app, Key::Enter);
    assert_eq!(app.filter_query, "b1");
    assert_eq!(app.rows.len(), 2);
    press(&mut app, Key::Esc);
    assert!(!app.should_quit);
    assert_eq!(app.filter_query, "");
    assert_eq!(app.rows.len(), 6);
    press(&mut app, Key::Esc);
    assert!(app.should_quit);
}

#[test]
fn every_key_edits_the_filter_while_it_is_edited() {
    let mut app = app();
    press(&mut app, Key::Char('/'));
    type_text(&mut app, "qrtdDe?jk");
    assert_eq!(app.filter_draft, "qrtdDe?jk");
    for key in [Key::Up, Key::Down, Key::Left, Key::Right, Key::Tab, Key::BackTab, Key::Other] {
        assert_eq!(press(&mut app, key), KeyAction::Nothing);
    }
    assert_eq!(app.filter_draft, "qrtdDe?jk");
    assert!(!app.should_quit && !app.show_debug && !app.show_help && !app.triage);
    press(&mut app, Key::Backspace);
    assert_eq!(app.filter_draft, "qrtdDe?j");
    press(&mut app, Key::Esc);
    assert_eq!(app.input_mode, InputMode::Normal);
    assert_eq!(app.filter_query, "");
}

#[test]
fn typed_text_is_appended_to_the_filter() {
    let mut app = app();
    for part in ["a", "1 "] {
        press(&mut app, Key::Char('/'));
        type_text(&mut app, part);
        press(&mut app, Key::Enter);
    }
    assert_eq!(app.filter_query, "a1");
    press(&mut app, Key::Char('/'));
    type_text(&mut app, "zzz");
    press(&mut app, Key::Esc);
    assert_eq!(app.filter_query, "a1");
}

#[test]
fn arrows_and_letters_navigate() {
    for (down, up, right, left) in [
        (Key::Down, Key::Up, Key::Right, Key::Left),
        (Key::Char('j'), Key::Char('k'), Key::Char('l'), Key::Char('h')),
        (Key::Down, Key::Up, Key::Tab, Key::BackTab),
    ] {
        let mut app = app();
        assert_eq!(app.table_state.selected, Some(1));
        press(&mut app, down);
        assert_eq!(app.table_state.selected, Some(2));
        press(&mut app, up);
        assert_eq!(app.table_state.selected, Some(1));
        press(&mut app, right);
        assert_eq!(app.active_tab, 1);
        press(&mut app, left);
        assert_eq!(app.active_tab, 0);
    }
}

#[test]
fn toggles_toggle() {
    let mut app = app();
    press(&mut app, Key::Char('?'));
    assert!(app.show_help);
    press(&mut app, Key::Char('?'));
    assert!(!app.show_help);
    press(&mut app, Key::Char('t'));
    assert!(app.triage);
    press(&mut app, Key::Char('d'));
    press(&mut app, Key::Char('d'));
    assert!(!app.show_debug);
    assert_eq!(
        app.debug_log,
        ["12:00:00.000 debug overlay enabled", "12:00:00.000 debug overlay disabled"]
    );
    press(&mut app, Key::Char('D'));
    assert!(app.debug_log.is_empty());
}

#[test]
fn export_and_rescan_are_left_to_the_caller() {
    let mut app = app();
    assert_eq!(press(&mut app, Key::Char('e')), KeyAction::Export);
    assert!(app.status_message.is_none());
    assert_eq!(press(&mut app, Key::Char('r')), KeyAction::Rescan);
    assert_eq!(app.status_message.as_deref(), Some("Rescanning..."));
    assert_eq!(app.status_set_at, Some(17));
    assert!(!app.is_scanning);
}

#[test]
fn other_keys_do_nothing() {
    let mut app = app();
    for key in [Key::Char('x'), Key::Enter, Key::Backspace, Key::Other] {
        assert_eq!(press(&mut app, key), KeyAction::Nothing);
    }
    assert_eq!(app.table_state.selected, Some(1));
    assert!(app.debug_log.is_empty() && !app.should_quit);
}

#[test]
fn a_key_is_noted_at_the_time_it_is_pressed() {
    let mut app = app();
    assert_eq!(app.handle_key(Key::Char('d')), KeyAction::Nothing);
    assert!(app.debug_log[0].ends_with(" debug overlay enabled"));
    assert_eq!(app.debug_log[0].len(), "12:00:00.000 debug overlay enabled".len());
    assert_eq!(app.handle_key(Key::Char('r')), KeyAction::Rescan);
    assert!(app.status_set_at.is_some());
}

#[test]
fn a_selection_that_cannot_be_counted_on_from_is_told() {
    let mut app = app();
    app.table_state.selected = Some(usize::MAX);
    assert!(!app.key_fits(Key::Down));
    assert!(!app.key_fits(Key::Char('j')));
    assert!(app.key_fits(Key::Up));
    app.active_tab = usize::MAX;
    assert!(!app.key_fits(Key::Tab));
    app.input_mode = InputMode::Filter;
    assert!(app.key_fits(Key::Char('j')));
}
