//! What the screen shows: texts and looks, without the terminal.

use crate::app::{App, Group, Host, HostStatus, InputMode, TableRow};
use crate::clock::{Stamp, MAX_SPAN_NANOS};
use crate::host::{ports_text, role_of, HostView};
use crate::text::{decimal, join_ports, joined_ports, push_decimal, same, texts};
use vstd::prelude::*;

verus! {

// ── Looks ────────────────────────────────────────────────────────────────

/// A colour of the terminal.
#[derive(Debug, Clone, Copy, PartialEq, Eq, Structural)]
pub enum Hue {
    Black,
    Red,
    Green,
    Yellow,
    Blue,
    Magenta,
    Cyan,
    DarkGray,
}

/// How a text looks; what is not given is as around it.
#[derive(Debug, Clone, Copy, PartialEq, Eq, Structural)]
pub struct Look {
    pub fg: Option<Hue>,
    pub bg: Option<Hue>,
    pub bold: bool,
}

/// As around it.
pub open spec fn plain_look() -> Look {
    Look { fg: None, bg: None, bold: false }
}

/// In bold.
pub open spec fn bold_look() -> Look {
    Look { fg: None, bg: None, bold: true }
}

/// In a colour.
pub open spec fn coloured(hue: Hue) -> Look {
    Look { fg: Some(hue), bg: None, bold: false }
}

/// In a colour and in bold.
pub open spec fn strong(hue: Hue) -> Look {
    Look { fg: Some(hue), bg: None, bold: true }
}

/// In bold, black on a colour.
pub open spec fn marked(hue: Hue) -> Look {
    Look { fg: Some(Hue::Black), bg: Some(hue), bold: true }
}

impl Look {
    /// As around it.
    pub fn plain() -> (r: Look)
        ensures
            r == plain_look(),
    {
        Look { fg: None, bg: None, bold: false }
    }

    /// In bold.
    pub fn bold() -> (r: Look)
        ensures
            r == bold_look(),
    {
        Look { fg: None, bg: None, bold: true }
    }

    /// In a colour.
    pub fn colour(hue: Hue) -> (r: Look)
        ensures
            r == coloured(hue),
    {
        Look { fg: Some(hue), bg: None, bold: false }
    }

    /// In a colour and in bold.
    pub fn strong_colour(hue: Hue) -> (r: Look)
        ensures
            r == strong(hue),
    {
        Look { fg: Some(hue), bg: None, bold: true }
    }

    /// In bold, black on a colour.
    pub fn marker(hue: Hue) -> (r: Look)
        ensures
            r == marked(hue),
    {
        Look { fg: Some(Hue::Black), bg: Some(hue), bold: true }
    }
}

/// A text with its look.
#[derive(Debug)]
pub struct Piece {
    pub text: String,
    pub look: Look,
}

/// A text with its look, as plain values.
#[verifier::ext_equal]
pub struct PieceView {
    pub text: Seq<char>,
    pub look: Look,
}

impl View for Piece {
    type V = PieceView;

    open spec fn view(&self) -> PieceView {
        PieceView { text: self.text@, look: self.look }
    }
}

/// A text in a look.
pub open spec fn shown(text: Seq<char>, look: Look) -> PieceView {
    PieceView { text, look }
}

/// The pieces of a line.
pub open spec fn pieces(line: Seq<Piece>) -> Seq<PieceView> {
    line.map_values(|p: Piece| p@)
}

/// The lines of a pane.
pub open spec fn lines(pane: Seq<Vec<Piece>>) -> Seq<Seq<PieceView>> {
    pane.map_values(|line: Vec<Piece>| pieces(line@))
}

fn piece(text: &str, look: Look) -> (r: Piece)
    ensures
        r@ == shown(text@, look),
{
    Piece { text: text.to_string(), look }
}

/// A line of one piece.
fn line_of(text: &str, look: Look) -> (r: Vec<Piece>)
    ensures
        pieces(r@) == seq![shown(text@, look)],
{
    let mut r: Vec<Piece> = Vec::new();
    r.push(piece(text, look));
    assert(pieces(r@) =~= seq![shown(text@, look)]);
    r
}

proof fn lines_push(pane: Seq<Vec<Piece>>, line: Vec<Piece>)
    ensures
        lines(pane.push(line)) == lines(pane).push(pieces(line@)),
{
    assert(lines(pane.push(line)) =~= lines(pane).push(pieces(line@)));
}

/// A number behind a text.
fn numbered(before: &str, n: u64) -> (r: String)
    ensures
        r@ == before@ + decimal(n as nat),
{
    let mut r = before.to_string();
    push_decimal(&mut r, n);
    r
}

/// A text behind another.
fn joined(before: &str, text: &str) -> (r: String)
    ensures
        r@ == before@ + text@,
{
    let mut r = before.to_string();
    r.append(text);
    r
}

/// A number between two texts.
fn counted(before: &str, n: u64, after: &str) -> (r: String)
    ensures
        r@ == before@ + decimal(n as nat) + after@,
{
    let mut r = before.to_string();
    push_decimal(&mut r, n);
    r.append(after);
    r
}

/// A text between two texts.
fn framed(before: &str, text: &str, after: &str) -> (r: String)
    ensures
        r@ == before@ + text@ + after@,
{
    let mut r = before.to_string();
    r.append(text);
    r.append(after);
    r
}

// ── Panes and tabs ───────────────────────────────────────────────────────

/// What stands between the tab bar and the detail pane.
#[derive(Debug, Clone, Copy, PartialEq, Eq, Structural)]
pub enum Pane {
    Debug,
    Help,
    Table,
}

impl Pane {
    /// The title in the border of a pane.
    pub open spec fn title_text(self) -> Seq<char> {
        match self {
            Pane::Debug => " Debug (d to close) "@,
            Pane::Help => " Help (? to close) "@,
            Pane::Table => " Infrastructure "@,
        }
    }

    /// The title in the border of a pane.
    pub fn title(&self) -> (r: &'static str)
        ensures
            r@ == self.title_text(),
    {
        match self {
            Pane::Debug => " Debug (d to close) ",
            Pane::Help => " Help (? to close) ",
            Pane::Table => " Infrastructure ",
        }
    }
}

/// The title in the border of the detail pane.
pub fn keybinds() -> (r: &'static str)
    ensures
        r@
            == " ↑↓ nav │ ←→ tab │ / find │ t triage │ e export │ r rescan │ ? help │ q quit "@,
{
    " ↑↓ nav │ ←→ tab │ / find │ t triage │ e export │ r rescan │ ? help │ q quit "
}

impl App {
    /// The pane that is shown: the debug overlay goes before the help.
    pub open spec fn shown_pane(self) -> Pane {
        if self.show_debug {
            Pane::Debug
        } else if self.show_help {
            Pane::Help
        } else {
            Pane::Table
        }
    }

    /// The pane that is shown.
    pub fn pane(&self) -> (r: Pane)
        ensures
            r == self.shown_pane(),
    {
        if self.show_debug {
            Pane::Debug
        } else if self.show_help {
            Pane::Help
        } else {
            Pane::Table
        }
    }

    /// The titles in the tab bar.
    pub fn tab_titles(&self) -> (r: Vec<String>)
        ensures
            texts(r@) == texts(self.tabs@).map_values(|t: Seq<char>| " "@ + t + " "@),
    {
        let mut r: Vec<String> = Vec::new();
        for i in 0..self.tabs.len()
            invariant
                r@.len() == i,
                forall|k: int|
                    0 <= k < i ==> (#[trigger] r@[k])@ == " "@ + self.tabs@[k]@ + " "@,
        {
            r.push(framed(" ", self.tabs[i].as_str(), " "));
        }
        assert(texts(r@) =~= texts(self.tabs@).map_values(|t: Seq<char>| " "@ + t + " "@));
        r
    }
}

// ── Header ───────────────────────────────────────────────────────────────

/// The frames of the spinner.
pub open spec fn spinner_frames() -> Seq<Seq<char>> {
    seq![
        "⠋"@,
        "⠙"@,
        "⠹"@,
        "⠸"@,
        "⠼"@,
        "⠴"@,
        "⠦"@,
        "⠧"@,
        "⠇"@,
        "⠏"@,
    ]
}

/// The spinner, which moves on every tenth of a second.
pub open spec fn spinner_at(millis: int) -> Seq<char> {
    spinner_frames()[(millis / 100) % 10]
}

fn spinner(stamp: &Stamp) -> (r: &'static str)
    ensures
        r@ == spinner_at(stamp.since_epoch()),
{
    let i: i64 = (stamp.millis() / 100) % 10;
    if i == 0 {
        "⠋"
    } else if i == 1 {
        "⠙"
    } else if i == 2 {
        "⠹"
    } else if i == 3 {
        "⠸"
    } else if i == 4 {
        "⠼"
    } else if i == 5 {
        "⠴"
    } else if i == 6 {
        "⠦"
    } else if i == 7 {
        "⠧"
    } else if i == 8 {
        "⠇"
    } else {
        "⠏"
    }
}

/// When the last scan ended, as the header shows it.
pub open spec fn poll_text(last_poll: Option<Stamp>) -> Seq<char> {
    match last_poll {
        Some(t) => t.text(" │ %H:%M:%S"@),
        None => ""@,
    }
}

impl App {
    /// The counts at the head of the header.
    pub open spec fn count_pieces(self, poll_text: Seq<char>) -> Seq<PieceView> {
        seq![
            shown(" netprobe "@, strong(Hue::Cyan)),
            shown("│ "@ + decimal(self.visible_count()) + " hosts │ "@, plain_look()),
            shown("● "@ + decimal(self.count_of(HostStatus::Up)), coloured(Hue::Green)),
            shown(" "@, plain_look()),
            shown("✗ "@ + decimal(self.count_of(HostStatus::Down)), coloured(Hue::Red)),
            shown(" "@, plain_look()),
            shown(
                "? "@ + decimal(self.count_of(HostStatus::Unknown)),
                coloured(Hue::DarkGray),
            ),
            shown(poll_text, coloured(Hue::DarkGray)),
        ]
    }

    /// The scanning spinner, or an idle countdown to the next scan.
    pub open spec fn scan_pieces(self, millis: int, now: u128) -> Seq<PieceView> {
        if self.is_scanning {
            seq![shown(" "@ + spinner_at(millis) + " scanning"@, coloured(Hue::Yellow))]
        } else {
            match self.countdown(now) {
                Some(secs) => seq![
                    shown(
                        " │ next scan "@ + decimal(secs as nat) + "s"@,
                        coloured(Hue::DarkGray),
                    ),
                ],
                None => seq![],
            }
        }
    }

    /// The search filter: the live draft while editing, committed otherwise.
    pub open spec fn filter_pieces(self) -> Seq<PieceView> {
        if self.input_mode == InputMode::Filter {
            seq![shown(" │ /"@ + self.query_text() + "▏"@, marked(Hue::Yellow))]
        } else if self.filter_query@.len() > 0 {
            seq![shown(" │ /"@ + self.filter_query@, coloured(Hue::Yellow))]
        } else {
            seq![]
        }
    }

    /// The mark of triage.
    pub open spec fn triage_pieces(self) -> Seq<PieceView> {
        if self.triage {
            seq![shown(" │ [triage]"@, coloured(Hue::Magenta))]
        } else {
            seq![]
        }
    }

    /// The status message.
    pub open spec fn status_pieces(self) -> Seq<PieceView> {
        match self.status_message {
            Some(msg) => if msg@.len() > 0 {
                seq![shown(" "@ + msg@, coloured(Hue::Yellow))]
            } else {
                seq![]
            },
            None => seq![],
        }
    }

    /// The header.
    pub open spec fn header_pieces(
        self,
        poll_text: Seq<char>,
        millis: int,
        now: u128,
    ) -> Seq<PieceView> {
        self.count_pieces(poll_text) + self.scan_pieces(millis, now) + self.filter_pieces()
            + self.triage_pieces() + self.status_pieces()
    }

    /// The header, now.
    pub fn header(&self) -> (r: Vec<Piece>)
        requires
            self.visible_count() <= usize::MAX,
        ensures
            exists|stamp: Stamp, now: u128|
                stamp.is_valid() && now <= MAX_SPAN_NANOS && pieces(r@)
                    == #[trigger] self.header_pieces(
                    poll_text(self.last_poll),
                    stamp.since_epoch(),
                    now,
                ),
    {
        let poll = match &self.last_poll {
            Some(t) => t.format(" │ %H:%M:%S"),
            None => "".to_string(),
        };
        let stamp = Stamp::now();
        let now: u128 = self.clock.nanos();
        let r = self.header_at(poll.as_str(), &stamp, now);
        assert(poll@ == poll_text(self.last_poll));
        assert(pieces(r@) == self.header_pieces(
            poll_text(self.last_poll),
            stamp.since_epoch(),
            now,
        ));
        r
    }

    /// The header at the given times: `stamp` by the wall clock, `now` by the
    /// monotonic one. `poll` says when the last scan ended.
    pub fn header_at(&self, poll: &str, stamp: &Stamp, now: u128) -> (r: Vec<Piece>)
        requires
            self.visible_count() <= usize::MAX,
        ensures
            pieces(r@) == self.header_pieces(poll@, stamp.since_epoch(), now),
    {
        let (up, down, unknown) = self.counts();
        let total: usize = self.visible_host_count();
        let mut r: Vec<Piece> = Vec::new();
        r.push(piece(" netprobe ", Look::strong_colour(Hue::Cyan)));
        r.push(piece(counted("│ ", total as u64, " hosts │ ").as_str(), Look::plain()));
        r.push(piece(numbered("● ", up as u64).as_str(), Look::colour(Hue::Green)));
        r.push(piece(" ", Look::plain()));
        r.push(piece(numbered("✗ ", down as u64).as_str(), Look::colour(Hue::Red)));
        r.push(piece(" ", Look::plain()));
        r.push(piece(numbered("? ", unknown as u64).as_str(), Look::colour(Hue::DarkGray)));
        r.push(piece(poll, Look::colour(Hue::DarkGray)));
        let ghost counts = pieces(r@);
        assert(counts =~= self.count_pieces(poll@));
        if self.is_scanning {
            r.push(
                piece(
                    framed(" ", spinner(stamp), " scanning").as_str(),
                    Look::colour(Hue::Yellow),
                ),
            );
        } else if let Some(secs) = self.seconds_until_next_scan_at(now) {
            r.push(
                piece(
                    counted(" │ next scan ", secs, "s").as_str(),
                    Look::colour(Hue::DarkGray),
                ),
            );
        }
        let ghost scan = pieces(r@);
        assert(scan =~= counts + self.scan_pieces(stamp.since_epoch(), now));
        if self.input_mode == InputMode::Filter {
            r.push(
                piece(
                    framed(" │ /", self.effective_query(), "▏").as_str(),
                    Look::marker(Hue::Yellow),
                ),
            );
        } else if !self.filter_query.as_str().is_empty() {
            r.push(
                piece(
                    joined(" │ /", self.filter_query.as_str()).as_str(),
                    Look::colour(Hue::Yellow),
                ),
            );
        }
        let ghost filter = pieces(r@);
        assert(filter =~= scan + self.filter_pieces());
        if self.triage {
            r.push(piece(" │ [triage]", Look::colour(Hue::Magenta)));
        }
        let ghost triage = pieces(r@);
        assert(triage =~= filter + self.triage_pieces());
        if let Some(msg) = &self.status_message {
            if !msg.as_str().is_empty() {
                r.push(piece(joined(" ", msg.as_str()).as_str(), Look::colour(Hue::Yellow)));
            }
        }
        assert(pieces(r@) =~= triage + self.status_pieces());
        r
    }
}

// ── Table ────────────────────────────────────────────────────────────────

/// A line of the table.
#[derive(Debug)]
pub struct TableLine {
    pub cells: Vec<Piece>,
    /// How the line looks where its cells do not say.
    pub look: Look,
}

/// A line of the table, as plain values.
#[verifier::ext_equal]
pub struct TableLineView {
    pub cells: Seq<PieceView>,
    pub look: Look,
}

impl View for TableLine {
    type V = TableLineView;

    open spec fn view(&self) -> TableLineView {
        TableLineView { cells: pieces(self.cells@), look: self.look }
    }
}

/// Seven cells without a look of their own.
pub open spec fn plain_cells(cells: Seq<Seq<char>>) -> Seq<PieceView> {
    cells.map_values(|text: Seq<char>| shown(text, plain_look()))
}

/// The head of the table.
pub open spec fn head_line() -> TableLineView {
    TableLineView {
        cells: plain_cells(seq!["St"@, "Host"@, "IP"@, "Role"@, "Ports"@, "ms"@, "Seen"@]),
        look: strong(Hue::DarkGray),
    }
}

/// The line above the hosts of a group.
pub open spec fn group_line(name: Seq<char>) -> TableLineView {
    TableLineView {
        cells: plain_cells(
            seq![
                "──"@,
                " "@ + name + " "@,
                "──────────────"@,
                "──────"@,
                "────────────────"@,
                "────"@,
                "────"@,
            ],
        ),
        look: strong(Hue::Cyan),
    }
}

/// The look of a status mark.
pub open spec fn status_look(status: HostStatus) -> Look {
    match status {
        HostStatus::Up => coloured(Hue::Green),
        HostStatus::Down => coloured(Hue::Red),
        HostStatus::Unknown => coloured(Hue::DarkGray),
    }
}

/// The look of a host's line: that of its status, unless it is up.
pub open spec fn row_look(status: HostStatus) -> Look {
    if status == HostStatus::Up {
        plain_look()
    } else {
        status_look(status)
    }
}

/// The look of a role.
pub open spec fn role_look(role: Seq<char>) -> Look {
    if role == "DC"@ {
        coloured(Hue::Yellow)
    } else if role == "Hyper-V"@ {
        coloured(Hue::Magenta)
    } else if role == "SCCM"@ {
        coloured(Hue::Blue)
    } else if role == "NxWitness"@ {
        coloured(Hue::Cyan)
    } else if role == "SSH"@ {
        coloured(Hue::Green)
    } else {
        plain_look()
    }
}

/// The name of a host in the table: a child is indented.
pub open spec fn name_text(h: HostView) -> Seq<char> {
    if h.is_child {
        "  └ "@ + h.name
    } else {
        h.name
    }
}

/// The latency of a host in the table.
pub open spec fn latency_text(latency_ms: Option<u64>) -> Seq<char> {
    match latency_ms {
        Some(ms) => decimal(ms as nat),
        None => "—"@,
    }
}

/// The line of a host that was last seen at the given time.
pub open spec fn host_line_view(h: HostView, seen: Seq<char>) -> TableLineView {
    TableLineView {
        cells: seq![
            shown(" "@ + h.status.symbol_text(), status_look(h.status)),
            shown(name_text(h), plain_look()),
            shown(h.ip, plain_look()),
            shown(role_of(h.open_ports), role_look(role_of(h.open_ports))),
            shown(ports_text(h.open_ports), plain_look()),
            shown(latency_text(h.latency_ms), plain_look()),
            shown(seen, plain_look()),
        ],
        look: row_look(h.status),
    }
}

/// When a host was last seen, as the table shows it.
pub open spec fn seen_text(last_seen: Option<Stamp>) -> Seq<char> {
    match last_seen {
        Some(t) => t.text("%H:%M"@),
        None => "—"@,
    }
}

/// Seven cells without a look of their own.
fn seven_cells(
    a: &str,
    b: &str,
    c: &str,
    d: &str,
    e: &str,
    f: &str,
    g: &str,
) -> (r: Vec<Piece>)
    ensures
        pieces(r@) == plain_cells(seq![a@, b@, c@, d@, e@, f@, g@]),
{
    let mut r: Vec<Piece> = Vec::new();
    r.push(piece(a, Look::plain()));
    r.push(piece(b, Look::plain()));
    r.push(piece(c, Look::plain()));
    r.push(piece(d, Look::plain()));
    r.push(piece(e, Look::plain()));
    r.push(piece(f, Look::plain()));
    r.push(piece(g, Look::plain()));
    assert(pieces(r@) =~= plain_cells(seq![a@, b@, c@, d@, e@, f@, g@]));
    r
}

/// The head of the table.
pub fn table_head() -> (r: TableLine)
    ensures
        r@ == head_line(),
{
    TableLine {
        cells: seven_cells("St", "Host", "IP", "Role", "Ports", "ms", "Seen"),
        look: Look::strong_colour(Hue::DarkGray),
    }
}

fn header_line(name: &str) -> (r: TableLine)
    ensures
        r@ == group_line(name@),
{
    TableLine {
        cells: seven_cells(
            "──",
            framed(" ", name, " ").as_str(),
            "──────────────",
            "──────",
            "────────────────",
            "────",
            "────",
        ),
        look: Look::strong_colour(Hue::Cyan),
    }
}

fn look_of_role(role: &str) -> (r: Look)
    ensures
        r == role_look(role@),
{
    if same(role, "DC") {
        Look::colour(Hue::Yellow)
    } else if same(role, "Hyper-V") {
        Look::colour(Hue::Magenta)
    } else if same(role, "SCCM") {
        Look::colour(Hue::Blue)
    } else if same(role, "NxWitness") {
        Look::colour(Hue::Cyan)
    } else if same(role, "SSH") {
        Look::colour(Hue::Green)
    } else {
        Look::plain()
    }
}

fn look_of_status(status: HostStatus) -> (r: Look)
    ensures
        r == status_look(status),
{
    match status {
        HostStatus::Up => Look::colour(Hue::Green),
        HostStatus::Down => Look::colour(Hue::Red),
        HostStatus::Unknown => Look::colour(Hue::DarkGray),
    }
}

/// The line of a host that was last seen at the given time.
pub fn host_line(host: &Host, seen: &str) -> (r: TableLine)
    ensures
        r@ == host_line_view(host@, seen@),
{
    let role = host.role_label();
    let name = if host.is_child {
        joined("  └ ", host.name.as_str())
    } else {
        host.name.clone()
    };
    let latency = match host.latency_ms {
        Some(ms) => {
            let mut text = String::new();
            push_decimal(&mut text, ms);
            assert(text@ =~= decimal(ms as nat));
            text
        },
        None => "—".to_string(),
    };
    let mut cells: Vec<Piece> = Vec::new();
    cells.push(
        piece(joined(" ", host.status.symbol()).as_str(), look_of_status(host.status)),
    );
    cells.push(piece(name.as_str(), Look::plain()));
    cells.push(piece(host.ip.as_str(), Look::plain()));
    cells.push(piece(role, look_of_role(role)));
    cells.push(piece(host.ports_display().as_str(), Look::plain()));
    cells.push(piece(latency.as_str(), Look::plain()));
    cells.push(piece(seen, Look::plain()));
    let look = if host.status == HostStatus::Up {
        Look::plain()
    } else {
        look_of_status(host.status)
    };
    let r = TableLine { cells, look };
    assert(r@.cells =~= host_line_view(host@, seen@).cells);
    r
}

/// Whether the table needs a scrollbar: only when the list is taller than the
/// viewport. Borders (2) and the head (1) hold no rows.
pub fn needs_scrollbar(rows: usize, height: u16) -> (r: bool)
    ensures
        r == (rows > if height < 3 {
            0
        } else {
            height - 3
        }),
{
    let visible: u16 = if height < 3 {
        0
    } else {
        height - 3
    };
    rows > visible as usize
}

impl App {
    /// The row is a header, or that of a host there is.
    pub open spec fn row_fits(self, row: TableRow) -> bool {
        match row {
            TableRow::GroupHeader { .. } => true,
            TableRow::HostEntry { group_idx, host_idx } => group_idx < self.groups@.len()
                && host_idx < self.groups@[group_idx as int].hosts@.len(),
        }
    }

    /// Every row is a header, or that of a host there is.
    pub open spec fn rows_fit(self) -> bool {
        forall|i: int| 0 <= i < self.rows@.len() ==> self.row_fits(#[trigger] self.rows@[i])
    }

    /// The line of a row.
    pub open spec fn row_line(self, row: TableRow) -> TableLineView {
        match row {
            TableRow::GroupHeader { name } => group_line(name@),
            TableRow::HostEntry { group_idx, host_idx } => {
                let host = self.groups@[group_idx as int].hosts@[host_idx as int];
                host_line_view(host@, seen_text(host.last_seen))
            },
        }
    }

    /// Whether every row is a header, or that of a host there is.
    pub fn has_valid_rows(&self) -> (r: bool)
        ensures
            r == self.rows_fit(),
    {
        for i in 0..self.rows.len()
            invariant
                forall|k: int| 0 <= k < i ==> self.row_fits(#[trigger] self.rows@[k]),
        {
            if let TableRow::HostEntry { group_idx, host_idx } = &self.rows[i] {
                if *group_idx >= self.groups.len() || *host_idx
                    >= self.groups[*group_idx].hosts.len() {
                    assert(!self.row_fits(self.rows@[i as int]));
                    return false;
                }
            }
        }
        true
    }

    /// The lines of the table, one for each row.
    pub fn table_lines(&self) -> (r: Vec<TableLine>)
        requires
            self.rows_fit(),
        ensures
            r@.len() == self.rows@.len(),
            forall|i: int|
                0 <= i < r@.len() ==> (#[trigger] r@[i])@ == self.row_line(self.rows@[i]),
    {
        let mut r: Vec<TableLine> = Vec::new();
        for i in 0..self.rows.len()
            invariant
                self.rows_fit(),
                r@.len() == i,
                forall|k: int|
                    0 <= k < i ==> (#[trigger] r@[k])@ == self.row_line(self.rows@[k]),
        {
            assert(self.row_fits(self.rows@[i as int]));
            let line = match &self.rows[i] {
                TableRow::GroupHeader { name } => header_line(name.as_str()),
                TableRow::HostEntry { group_idx, host_idx } => {
                    let host = &self.groups[*group_idx].hosts[*host_idx];
                    let seen = match &host.last_seen {
                        Some(t) => t.format("%H:%M"),
                        None => "—".to_string(),
                    };
                    host_line(host, seen.as_str())
                },
            };
            r.push(line);
        }
        r
    }
}

// ── Detail ───────────────────────────────────────────────────────────────

/// The ports of a host in the detail pane.
pub open spec fn detail_ports(ports: Seq<u16>) -> Seq<char> {
    if ports.len() == 0 {
        "none"@
    } else {
        joined_ports(ports, ", "@)
    }
}

/// The detail pane for a host that was last checked at the given time.
pub open spec fn detail_lines(h: HostView, checked: Seq<char>) -> Seq<Seq<PieceView>> {
    seq![
        seq![
            shown("Host: "@, coloured(Hue::DarkGray)),
            shown(h.name, plain_look()),
            shown("  ("@ + h.ip + ")"@, plain_look()),
            shown("  id="@ + decimal(h.id as nat), coloured(Hue::DarkGray)),
        ],
        seq![
            shown("Ports: "@, coloured(Hue::DarkGray)),
            shown(detail_ports(h.open_ports), plain_look()),
        ],
        seq![
            shown("Checked: "@, coloured(Hue::DarkGray)),
            shown(checked, plain_look()),
            shown(
                "  │  Failures: "@ + decimal(h.consecutive_failures as nat),
                plain_look(),
            ),
        ],
    ]
}

/// When a host was last checked, as the detail pane shows it.
pub open spec fn checked_text(last_checked: Option<Stamp>) -> Seq<char> {
    match last_checked {
        Some(t) => t.text("%H:%M:%S"@),
        None => "never"@,
    }
}

/// The detail pane for a host that was last checked at the given time.
pub fn host_detail(host: &Host, checked: &str) -> (r: Vec<Vec<Piece>>)
    ensures
        lines(r@) == detail_lines(host@, checked@),
{
    let mut first: Vec<Piece> = Vec::new();
    first.push(piece("Host: ", Look::colour(Hue::DarkGray)));
    first.push(piece(host.name.as_str(), Look::plain()));
    first.push(piece(framed("  (", host.ip.as_str(), ")").as_str(), Look::plain()));
    first.push(piece(numbered("  id=", host.id).as_str(), Look::colour(Hue::DarkGray)));
    let n: usize = host.open_ports.len();
    let ports = if n == 0 {
        "none".to_string()
    } else {
        assert(host.open_ports@.take(n as int) =~= host.open_ports@);
        join_ports(&host.open_ports, n, ", ")
    };
    let mut second: Vec<Piece> = Vec::new();
    second.push(piece("Ports: ", Look::colour(Hue::DarkGray)));
    second.push(piece(ports.as_str(), Look::plain()));
    let mut third: Vec<Piece> = Vec::new();
    third.push(piece("Checked: ", Look::colour(Hue::DarkGray)));
    third.push(piece(checked, Look::plain()));
    third.push(
        piece(
            numbered("  │  Failures: ", host.consecutive_failures as u64).as_str(),
            Look::plain(),
        ),
    );
    let ghost goal = detail_lines(host@, checked@);
    assert(pieces(first@) =~= goal[0]);
    assert(pieces(second@) =~= goal[1]);
    assert(pieces(third@) =~= goal[2]);
    let mut r: Vec<Vec<Piece>> = Vec::new();
    r.push(first);
    r.push(second);
    r.push(third);
    assert(lines(r@) =~= goal);
    r
}

impl App {
    /// The detail pane: what is known of the selected host.
    pub fn detail(&self) -> (r: Vec<Vec<Piece>>)
        ensures
            match self.selected_view() {
                Some(h) => lines(r@) == detail_lines(h, checked_text(h.last_checked)),
                None => lines(r@) == seq![seq![shown("Select a host"@, plain_look())]],
            },
    {
        match self.selected_host() {
            Some(host) => {
                let checked = match &host.last_checked {
                    Some(t) => t.format("%H:%M:%S"),
                    None => "never".to_string(),
                };
                host_detail(host, checked.as_str())
            },
            None => {
                let mut r: Vec<Vec<Piece>> = Vec::new();
                r.push(line_of("Select a host", Look::plain()));
                assert(lines(r@) =~= seq![seq![shown("Select a host"@, plain_look())]]);
                r
            },
        }
    }

    /// The host that is selected, if there is one.
    pub open spec fn selected_view(self) -> Option<HostView> {
        match self.selected_entry() {
            Some((g, h)) => if g < self.groups@.len() && h < self.groups@[g as int].hosts@.len() {
                Some(self.groups@[g as int].hosts@[h as int]@)
            } else {
                None
            },
            None => None,
        }
    }
}

// ── Debug overlay ────────────────────────────────────────────────────────

/// The text filled up with blanks to a width.
pub open spec fn padded(s: Seq<char>, width: nat) -> Seq<char> {
    if s.len() >= width {
        s
    } else {
        s + Seq::new((width - s.len()) as nat, |i: int| ' ')
    }
}

/// A truth value as a word.
pub open spec fn bool_text(b: bool) -> Seq<char> {
    if b {
        "true"@
    } else {
        "false"@
    }
}

/// The selected row as a number.
pub open spec fn row_text(selected: Option<usize>) -> Seq<char> {
    match selected {
        Some(i) => decimal(i as nat),
        None => "—"@,
    }
}

/// The line on the group at position `g`.
pub open spec fn debug_group_line(group: Group, g: int) -> Seq<PieceView> {
    seq![
        shown(
            " group["@ + decimal(g as nat) + "] "@ + padded(group.name@, 28) + " hosts="@
                + decimal(group.hosts@.len()),
            coloured(Hue::Cyan),
        ),
    ]
}

/// How many log lines the overlay leaves out: as many of the most recent ones are
/// shown as fit in a pane of the given height, at least one. Borders (2) and the
/// lines above the log (5, and one for each group) hold none.
pub open spec fn log_lines_skipped(log: nat, groups: nat, height: u16) -> nat {
    let head = groups + 7;
    let fit = if height > head + 1 {
        height - head
    } else {
        1
    };
    if log > fit {
        (log - fit) as nat
    } else {
        0
    }
}

impl App {
    /// The lines of the overlay on the state as a whole.
    pub open spec fn debug_head(self) -> Seq<Seq<PieceView>> {
        seq![
            seq![
                shown(" Debug — internal state (d to close, Shift-D clears log)"@, bold_look()),
            ],
            seq![
                shown(
                    " scanning="@ + bool_text(self.is_scanning) + " groups="@ + decimal(
                        self.groups@.len(),
                    ) + " rows="@ + decimal(self.rows@.len()) + " selected_row="@ + row_text(
                        self.table_state.selected,
                    ),
                    plain_look(),
                ),
            ],
            seq![
                shown(
                    " counts: up="@ + decimal(self.count_of(HostStatus::Up)) + " down="@ + decimal(
                        self.count_of(HostStatus::Down),
                    ) + " unknown="@ + decimal(self.count_of(HostStatus::Unknown))
                        + "  poll_interval="@ + decimal(self.poll_interval as nat) + "s timeout="@
                        + decimal(self.connect_timeout_ms as nat) + "ms"@,
                    plain_look(),
                ),
            ],
        ]
    }

    /// The lines of the overlay on the groups.
    pub open spec fn debug_groups(self) -> Seq<Seq<PieceView>> {
        Seq::new(self.groups@.len(), |g: int| debug_group_line(self.groups@[g], g))
    }

    /// The lines of the overlay from the log, without the first `skip` of them.
    pub open spec fn debug_events(self, skip: nat) -> Seq<Seq<PieceView>> {
        self.log_lines().skip(skip as int).map_values(
            |line: Seq<char>| seq![shown(" "@ + line, coloured(Hue::DarkGray))],
        )
    }

    /// The debug overlay in a pane of the given height.
    pub open spec fn debug_pane(self, height: u16) -> Seq<Seq<PieceView>> {
        self.debug_head() + self.debug_groups() + seq![
            seq![shown(""@, plain_look())],
            seq![shown(" Event log (newest last):"@, bold_look())],
        ] + self.debug_events(
            log_lines_skipped(self.log_lines().len(), self.groups@.len(), height),
        )
    }
}

fn pad(s: &str, width: usize) -> (r: String)
    ensures
        r@ == padded(s@, width as nat),
{
    let mut r = s.to_string();
    let n: usize = s.unicode_len();
    let mut i: usize = n;
    assert(r@ =~= s@ + Seq::new(0nat, |i: int| ' '));
    while i < width
        invariant
            n == s@.len(),
            n <= i,
            i <= width || i == n,
            r@ == s@ + Seq::new((i - n) as nat, |i: int| ' '),
        decreases width - i,
    {
        r.push(' ');
        assert(r@ =~= s@ + Seq::new((i + 1 - n) as nat, |i: int| ' '));
        i = i + 1;
    }
    assert(r@ =~= padded(s@, width as nat));
    r
}

fn truth(b: bool) -> (r: &'static str)
    ensures
        r@ == bool_text(b),
{
    if b {
        "true"
    } else {
        "false"
    }
}

/// How many log lines the overlay leaves out.
fn lines_to_skip(log: usize, groups: usize, height: u16) -> (r: usize)
    ensures
        r == log_lines_skipped(log as nat, groups as nat, height),
{
    let height: usize = height as usize;
    let fit: usize = if height > 8 && height - 8 > groups {
        height - 7 - groups
    } else {
        1
    };
    if log > fit {
        log - fit
    } else {
        0
    }
}

impl App {
    fn debug_head_lines(&self) -> (r: Vec<Vec<Piece>>)
        requires
            self.visible_count() <= usize::MAX,
        ensures
            lines(r@) == self.debug_head(),
    {
        let (up, down, unknown) = self.counts();
        let mut state = framed(" scanning=", truth(self.is_scanning), " groups=");
        push_decimal(&mut state, self.groups.len() as u64);
        state.append(" rows=");
        push_decimal(&mut state, self.rows.len() as u64);
        state.append(" selected_row=");
        match self.table_state.selected {
            Some(i) => push_decimal(&mut state, i as u64),
            None => state.append("—"),
        }
        let mut counts = counted(" counts: up=", up as u64, " down=");
        push_decimal(&mut counts, down as u64);
        counts.append(" unknown=");
        push_decimal(&mut counts, unknown as u64);
        counts.append("  poll_interval=");
        push_decimal(&mut counts, self.poll_interval);
        counts.append("s timeout=");
        push_decimal(&mut counts, self.connect_timeout_ms);
        counts.append("ms");
        let mut r: Vec<Vec<Piece>> = Vec::new();
        r.push(
            line_of(" Debug — internal state (d to close, Shift-D clears log)", Look::bold()),
        );
        r.push(line_of(state.as_str(), Look::plain()));
        r.push(line_of(counts.as_str(), Look::plain()));
        assert(lines(r@) =~= self.debug_head());
        r
    }

    /// The debug overlay, in a pane of the given height.
    pub fn debug_lines(&self, height: u16) -> (r: Vec<Vec<Piece>>)
        requires
            self.visible_count() <= usize::MAX,
        ensures
            lines(r@) == self.debug_pane(height),
    {
        let mut r = self.debug_head_lines();
        let ghost head = self.debug_head();
        let ghost groups = self.debug_groups();
        assert(head =~= head + groups.take(0));
        for g in 0..self.groups.len()
            invariant
                groups == self.debug_groups(),
                lines(r@) == head + groups.take(g as int),
        {
            let mut text = counted(" group[", g as u64, "] ");
            text.append(pad(self.groups[g].name.as_str(), 28).as_str());
            text.append(" hosts=");
            push_decimal(&mut text, self.groups[g].hosts.len() as u64);
            let line = line_of(text.as_str(), Look::colour(Hue::Cyan));
            proof {
                assert(pieces(line@) == groups[g as int]);
                lines_push(r@, line);
                assert(groups.take(g + 1) =~= groups.take(g as int).push(groups[g as int]));
                assert(head + groups.take(g + 1) =~= (head + groups.take(g as int)).push(
                    groups[g as int],
                ));
            }
            r.push(line);
        }
        assert(groups.take(self.groups@.len() as int) =~= groups);
        let gap = line_of("", Look::plain());
        proof {
            lines_push(r@, gap);
        }
        r.push(gap);
        let title = line_of(" Event log (newest last):", Look::bold());
        proof {
            lines_push(r@, title);
        }
        r.push(title);
        let ghost above = head + groups + seq![
            seq![shown(""@, plain_look())],
            seq![shown(" Event log (newest last):"@, bold_look())],
        ];
        assert(lines(r@) =~= above);
        let skip: usize = lines_to_skip(self.debug_log.len(), self.groups.len(), height);
        let ghost events = self.debug_events(skip as nat);
        assert(above =~= above + events.take(0));
        for i in skip..self.debug_log.len()
            invariant
                skip <= self.debug_log@.len(),
                events == self.debug_events(skip as nat),
                lines(r@) == above + events.take(i - skip),
        {
            let text = joined(" ", self.debug_log[i].as_str());
            let line = line_of(text.as_str(), Look::colour(Hue::DarkGray));
            let ghost k = i - skip;
            proof {
                assert(self.log_lines()[i as int] == self.debug_log@[i as int]@);
                assert(self.log_lines().skip(skip as int)[k] == self.log_lines()[i as int]);
                assert(pieces(line@) == events[k]);
                lines_push(r@, line);
                assert(events.take(k + 1) =~= events.take(k).push(events[k]));
                assert(above + events.take(k + 1) =~= (above + events.take(k)).push(events[k]));
            }
            r.push(line);
        }
        assert(events.take(events.len() as int) =~= events);
        r
    }
}

// ── Help ─────────────────────────────────────────────────────────────────

/// The help.
pub open spec fn help_pane() -> Seq<Seq<PieceView>> {
    seq![
        seq![shown(" Keybinds"@, bold_look())],
        seq![shown(""@, plain_look())],
        seq![shown(" ↑/k, ↓/j    Navigate hosts"@, plain_look())],
        seq![shown(" ←/h, →/l    Switch group tab (All + one per group)"@, plain_look())],
        seq![shown(" Tab/Shift-Tab  Switch group tab"@, plain_look())],
        seq![shown(" /           Search: filter by name or IP (Enter apply, Esc clear)"@, plain_look())],
        seq![shown(" t           Triage: show only hosts that are not Up"@, plain_look())],
        seq![shown(" e           Export a CSV snapshot next to the executable"@, plain_look())],
        seq![shown(" r           Force rescan all hosts"@, plain_look())],
        seq![shown(" d           Toggle debug overlay (internal state + event log)"@, plain_look())],
        seq![shown(" Shift-D     Clear the debug event log"@, plain_look())],
        seq![shown(" ?           Toggle this help"@, plain_look())],
        seq![shown(" q / Esc     Quit (Esc clears an active search first)"@, plain_look())],
        seq![shown(""@, plain_look())],
        seq![shown(" Config"@, bold_look())],
        seq![shown(""@, plain_look())],
        seq![shown(" Edit config.toml to add/remove hosts and groups."@, plain_look())],
        seq![shown(" Roles are inferred from open ports (e.g. 88+389 = DC)."@, plain_look())],
        seq![shown(" default_tab opens a chosen tab; the last tab is remembered."@, plain_look())],
    ]
}

/// The help.
pub fn help_lines() -> (r: Vec<Vec<Piece>>)
    ensures
        lines(r@) == help_pane(),
{
    let mut r: Vec<Vec<Piece>> = Vec::new();
    r.push(line_of(" Keybinds", Look::bold()));
    r.push(line_of("", Look::plain()));
    r.push(line_of(" ↑/k, ↓/j    Navigate hosts", Look::plain()));
    r.push(line_of(" ←/h, →/l    Switch group tab (All + one per group)", Look::plain()));
    r.push(line_of(" Tab/Shift-Tab  Switch group tab", Look::plain()));
    r.push(line_of(" /           Search: filter by name or IP (Enter apply, Esc clear)", Look::plain()));
    r.push(line_of(" t           Triage: show only hosts that are not Up", Look::plain()));
    r.push(line_of(" e           Export a CSV snapshot next to the executable", Look::plain()));
    r.push(line_of(" r           Force rescan all hosts", Look::plain()));
    r.push(line_of(" d           Toggle debug overlay (internal state + event log)", Look::plain()));
    r.push(line_of(" Shift-D     Clear the debug event log", Look::plain()));
    r.push(line_of(" ?           Toggle this help", Look::plain()));
    r.push(line_of(" q / Esc     Quit (Esc clears an active search first)", Look::plain()));
    r.push(line_of("", Look::plain()));
    r.push(line_of(" Config", Look::bold()));
    r.push(line_of("", Look::plain()));
    r.push(line_of(" Edit config.toml to add/remove hosts and groups.", Look::plain()));
    r.push(line_of(" Roles are inferred from open ports (e.g. 88+389 = DC).", Look::plain()));
    r.push(line_of(" default_tab opens a chosen tab; the last tab is remembered.", Look::plain()));
    assert(lines(r@) =~= help_pane());
    r
}

} // verus!
