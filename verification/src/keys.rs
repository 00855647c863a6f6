//! What a key press does.

use crate::app::{row_after, row_before, tab_after, tab_before, App, InputMode};
use crate::clock::{Stamp, MAX_SPAN_NANOS};
use crate::host::text_of;
use crate::scan::{log_notation, log_text, logged, rescanning};
use std::collections::VecDeque;
use vstd::prelude::*;

verus! {

/// A key that was pressed.
#[derive(Debug, Clone, Copy, PartialEq, Eq, Structural)]
pub enum Key {
    Char(char),
    Enter,
    Esc,
    Backspace,
    Tab,
    BackTab,
    Up,
    Down,
    Left,
    Right,
    Other,
}

/// What is left to do after a key press.
#[derive(Debug, Clone, Copy, PartialEq, Eq, Structural)]
pub enum KeyAction {
    Nothing,
    /// Write a snapshot.
    Export,
    /// Start a scan.
    Rescan,
}

impl Key {
    /// The key selects the next row.
    pub open spec fn is_down(self) -> bool {
        self == Key::Down || self == Key::Char('j')
    }

    /// The key opens the next tab.
    pub open spec fn is_right(self) -> bool {
        self == Key::Right || self == Key::Char('l') || self == Key::Tab
    }
}

/// The note on the debug overlay being switched.
pub open spec fn overlay_note(shown: bool) -> Seq<char> {
    if shown {
        "debug overlay enabled"@
    } else {
        "debug overlay disabled"@
    }
}

impl App {
    /// A key pressed while the filter is edited has made `self` of `before`: each
    /// key edits the filter.
    pub open spec fn filter_key_handled(self, before: App, key: Key) -> bool {
        match key {
            Key::Esc => self.filter_cancelled(before),
            Key::Enter => self.filter_committed(before),
            Key::Backspace => self.draft_changed(before, before.shorter_draft()),
            Key::Char(c) => self.draft_changed(before, before.filter_draft@.push(c)),
            _ => self == before,
        }
    }

    /// `self` is `before` with the debug overlay switched, and a note of it.
    pub open spec fn overlay_toggled(self, before: App, log_time: Seq<char>) -> bool {
        &&& self.log_lines() == logged(
            before.log_lines(),
            log_text(log_time, overlay_note(!before.show_debug)),
        )
        &&& self == (App {
            show_debug: !before.show_debug,
            debug_log: self.debug_log,
            ..before
        })
    }

    /// `self` is `before` with the message in its status bar that a scan was asked
    /// for.
    pub open spec fn rescan_asked(self, before: App, now: u128) -> bool {
        &&& text_of(self.status_message) == Some(rescanning())
        &&& self == (App {
            status_message: self.status_message,
            status_set_at: Some(now),
            ..before
        })
    }

    /// A key pressed outside the filter has made `self` of `before`.
    pub open spec fn normal_key_handled(
        self,
        before: App,
        key: Key,
        now: u128,
        log_time: Seq<char>,
    ) -> bool {
        let rows = before.rows@.len() as int;
        let tabs = before.tabs@.len() as int;
        let tab = before.active_tab as int;
        let selected = before.table_state.selected;
        match key {
            Key::Char('q') => self == (App { should_quit: true, ..before }),
            Key::Esc => if before.filter_query@.len() > 0 {
                self.filter_cleared(before)
            } else {
                self == (App { should_quit: true, ..before })
            },
            Key::Down | Key::Char('j') => self == before.row_selected(row_after(selected, rows)),
            Key::Up | Key::Char('k') => self == before.row_selected(row_before(selected, rows)),
            Key::Right | Key::Char('l') | Key::Tab => self.tab_opened(
                before,
                tab_after(tab, tabs),
            ),
            Key::Left | Key::Char('h') | Key::BackTab => self.tab_opened(
                before,
                tab_before(tab, tabs),
            ),
            Key::Char('/') => self.filter_entered(before),
            Key::Char('t') => self.triage_toggled(before),
            Key::Char('r') => self.rescan_asked(before, now),
            Key::Char('?') => self == (App { show_help: !before.show_help, ..before }),
            Key::Char('d') => self.overlay_toggled(before, log_time),
            Key::Char('D') => self.debug_log@.len() == 0 && self == (App {
                debug_log: self.debug_log,
                ..before
            }),
            _ => self == before,
        }
    }

    /// A key press has made `self` of `before`.
    pub open spec fn key_handled(
        self,
        before: App,
        key: Key,
        now: u128,
        log_time: Seq<char>,
    ) -> bool {
        if before.input_mode == InputMode::Filter {
            self.filter_key_handled(before, key)
        } else {
            self.normal_key_handled(before, key, now, log_time)
        }
    }

    /// What is left to do after a key press.
    pub open spec fn action_for(self, key: Key) -> KeyAction {
        if self.input_mode == InputMode::Filter {
            KeyAction::Nothing
        } else if key == Key::Char('e') {
            KeyAction::Export
        } else if key == Key::Char('r') {
            KeyAction::Rescan
        } else {
            KeyAction::Nothing
        }
    }

    /// The next row and the next tab can be counted to, where the key asks for one.
    pub open spec fn can_handle(self, key: Key) -> bool {
        self.input_mode == InputMode::Normal ==> {
            &&& key.is_down() && self.rows@.len() > 0 ==> self.table_state.selected != Some(
                usize::MAX,
            )
            &&& key.is_right() && self.tabs@.len() >= 2 ==> self.active_tab < usize::MAX
        }
    }

    /// Whether the next row and the next tab can be counted to, where the key asks
    /// for one.
    pub fn key_fits(&self, key: Key) -> (r: bool)
        ensures
            r == self.can_handle(key),
    {
        if self.input_mode == InputMode::Filter {
            return true;
        }
        match key {
            Key::Down | Key::Char('j') => {
                self.rows.len() == 0 || match self.table_state.selected {
                    Some(i) => i != usize::MAX,
                    None => true,
                }
            },
            Key::Right | Key::Char('l') | Key::Tab => {
                self.tabs.len() < 2 || self.active_tab != usize::MAX
            },
            _ => true,
        }
    }

    /// Handles a key press, now. Returns what is left to do.
    pub fn handle_key(&mut self, key: Key) -> (r: KeyAction)
        requires
            old(self).can_handle(key),
        ensures
            r == old(self).action_for(key),
            exists|now: u128, stamp: Stamp|
                now <= MAX_SPAN_NANOS && stamp.is_valid() && #[trigger] final(self).key_handled(
                    *old(self),
                    key,
                    now,
                    stamp.text(log_notation()),
                ),
    {
        let now: u128 = self.clock.nanos();
        let stamp = Stamp::now();
        let log_time = stamp.format("%H:%M:%S%.3f");
        let r = self.handle_key_at(key, now, log_time.as_str());
        assert(self.key_handled(*old(self), key, now, stamp.text(log_notation())));
        r
    }

    /// Handles a key press at the given times: `now` by the monotonic clock,
    /// `log_time` as the log shows it. Returns what is left to do.
    pub fn handle_key_at(&mut self, key: Key, now: u128, log_time: &str) -> (r: KeyAction)
        requires
            old(self).can_handle(key),
        ensures
            r == old(self).action_for(key),
            final(self).key_handled(*old(self), key, now, log_time@),
    {
        if self.input_mode == InputMode::Filter {
            // While editing the filter, all keys edit the query.
            match key {
                Key::Esc => self.cancel_filter(),
                Key::Enter => self.commit_filter(),
                Key::Backspace => self.pop_filter_char(),
                Key::Char(c) => self.push_filter_char(c),
                _ => {},
            }
            return KeyAction::Nothing;
        }
        match key {
            Key::Char('q') => {
                self.should_quit = true;
            },
            Key::Esc => {
                // Esc clears an active search first; quits only when there is
                // no filter to clear.
                if self.filter_query.as_str().is_empty() {
                    self.should_quit = true;
                } else {
                    self.clear_filter();
                }
            },
            Key::Down | Key::Char('j') => self.next_row(),
            Key::Up | Key::Char('k') => self.prev_row(),
            Key::Right | Key::Char('l') | Key::Tab => self.next_tab(),
            Key::Left | Key::Char('h') | Key::BackTab => self.prev_tab(),
            Key::Char('/') => self.enter_filter(),
            Key::Char('t') => self.toggle_triage(),
            Key::Char('e') => {
                return KeyAction::Export;
            },
            Key::Char('r') => {
                self.set_status_at("Rescanning...", now);
                return KeyAction::Rescan;
            },
            Key::Char('?') => {
                self.show_help = !self.show_help;
            },
            Key::Char('d') => {
                self.show_debug = !self.show_debug;
                if self.show_debug {
                    self.log_line(log_time, "debug overlay enabled");
                } else {
                    self.log_line(log_time, "debug overlay disabled");
                }
            },
            Key::Char('D') => {
                self.debug_log = VecDeque::new();
            },
            _ => {},
        }
        KeyAction::Nothing
    }
}

} // verus!
