//! State of the terminal interface: the table of forwards, the log panel,
//! the status line and the keyboard handling, and the texts that the
//! interface draws.
use std::collections::HashMap;
use vstd::prelude::*;

use crate::events::{clock_nanos, AppEvent, LogEntry, LogLevel, LogView};
use crate::text::{decimal, push_decimal, push_str, push_two_digits, two_digits};

verus! {

broadcast use vstd::std_specs::hash::group_hash_axioms;

/// How many entries the log panel keeps; older ones are dropped first.
pub const MAX_LOG_LINES: usize = 200;

/// Bits of the modifier set that holds the Control key alone.
pub const CONTROL_BITS: u8 = 2;

/// Whether a forward shown in the table is running.
#[derive(Debug, Clone, PartialEq, Eq, Structural)]
pub enum ForwardStatus {
    Active,
    Stopped,
}

/// A single active (or recently stopped) forward shown in the table.
#[derive(Debug, Clone)]
pub struct ForwardRow {
    pub remote_port: u16,
    pub local_port: u16,
    pub label: String,
    pub status: ForwardStatus,
    /// When the forward started, in nanoseconds from the UNIX epoch.
    pub started_at: i128,
}

/// What a row of the table says.
pub struct RowView {
    pub remote_port: u16,
    pub local_port: u16,
    pub label: Seq<char>,
    pub status: ForwardStatus,
    pub started_at: i128,
}

impl View for ForwardRow {
    type V = RowView;

    open spec fn view(&self) -> RowView {
        RowView {
            remote_port: self.remote_port,
            local_port: self.local_port,
            label: self.label@,
            status: self.status,
            started_at: self.started_at,
        }
    }
}

/// A key of the keyboard, as far as the interface tells keys apart.
#[derive(Debug, Clone, Copy, PartialEq, Eq, Structural)]
pub enum KeyCode {
    Char(char),
    Up,
    Down,
    PageUp,
    PageDown,
    Other,
}

/// The modifier keys held with a key, as a set of bits (Shift 1, Control 2,
/// Alt 4, Super 8, Hyper 16, Meta 32).
#[derive(Debug, Clone, Copy, PartialEq, Eq, Structural)]
pub struct KeyModifiers {
    pub bits: u8,
}

/// Complete state of the interface.
pub struct AppState {
    /// Forwards in the order they first started; a restarted forward keeps its row.
    forwards: Vec<ForwardRow>,
    /// Position in `forwards` of the row of each remote port.
    index: HashMap<u16, usize>,
    /// The most recent log entries, oldest first.
    logs: Vec<LogEntry>,
    /// The selected row of the table.
    selected: Option<usize>,
    /// How many lines the log panel is scrolled up from the newest entry.
    log_scroll: u16,
    /// SSH host shown in the title.
    host: String,
    /// Last poll status text.
    last_poll: String,
    /// Whether the interface should exit.
    should_quit: bool,
}

/// The interface state as the contracts speak of it.
pub struct AppView {
    pub rows: Seq<RowView>,
    pub logs: Seq<LogView>,
    pub selected: Option<usize>,
    pub log_scroll: u16,
    pub host: Seq<char>,
    pub last_poll: Seq<char>,
    pub should_quit: bool,
}

// ── Model ────────────────────────────────────────────────────────────────────

/// No two rows are for the same remote port.
pub open spec fn rows_unique(rows: Seq<RowView>) -> bool {
    forall|i: int, j: int|
        0 <= i < rows.len() && 0 <= j < rows.len() && i != j ==> #[trigger] rows[i].remote_port
            != #[trigger] rows[j].remote_port
}

/// What holds of every state the interface reaches.
pub open spec fn model_wf(v: AppView) -> bool {
    &&& rows_unique(v.rows)
    &&& v.logs.len() <= MAX_LOG_LINES
    &&& v.selected matches Some(i) ==> (i < v.rows.len() || i == 0)
}

/// Position of the row of `port`, if there is one.
pub open spec fn position_of(rows: Seq<RowView>, port: u16) -> Option<int> {
    if exists|i: int| 0 <= i < rows.len() && (#[trigger] rows[i]).remote_port == port {
        Some(choose|i: int| 0 <= i < rows.len() && (#[trigger] rows[i]).remote_port == port)
    } else {
        None
    }
}

/// Rows after a forward of `row.remote_port` started: its row is replaced,
/// or a new row is added at the end.
pub open spec fn rows_after_start(rows: Seq<RowView>, row: RowView) -> Seq<RowView> {
    match position_of(rows, row.remote_port) {
        Some(i) => rows.update(i, row),
        None => rows.push(row),
    }
}

/// Rows after the forward of `port` stopped: its row, if any, is marked stopped.
pub open spec fn rows_after_stop(rows: Seq<RowView>, port: u16) -> Seq<RowView> {
    match position_of(rows, port) {
        Some(i) => rows.update(
            i,
            RowView { status: ForwardStatus::Stopped, ..rows[i] },
        ),
        None => rows,
    }
}

/// Log entries after one more was added, the oldest dropped when full.
pub open spec fn logs_after_push(logs: Seq<LogView>, entry: LogView) -> Seq<LogView> {
    if logs.len() >= MAX_LOG_LINES {
        logs.drop_first().push(entry)
    } else {
        logs.push(entry)
    }
}

pub open spec fn started_message(remote_port: u16, local_port: u16) -> Seq<char> {
    "forward started  :"@ + decimal(remote_port as nat) + " → localhost:"@ + decimal(
        local_port as nat,
    )
}

pub open spec fn stopped_message(remote_port: u16, reason: Seq<char>) -> Seq<char> {
    "forward stopped  :"@ + decimal(remote_port as nat) + "  ("@ + reason + ")"@
}

pub open spec fn died_message(remote_port: u16) -> Seq<char> {
    "forward died unexpectedly  :"@ + decimal(remote_port as nat)
}

pub open spec fn poll_ok_text(discovered: usize) -> Seq<char> {
    "last poll ok — "@ + decimal(discovered as nat) + " remote port(s) listening"@
}

pub open spec fn poll_error_text(message: Seq<char>) -> Seq<char> {
    "poll error: "@ + message
}

pub open spec fn label_text(label: Option<String>) -> Seq<char> {
    match label {
        Some(l) => l@,
        None => Seq::empty(),
    }
}

/// The state after `event`, handled when the clock reads `now`: a started
/// forward's row and every new log entry are stamped with `now`.
pub open spec fn apply_model(m: AppView, event: AppEvent, now: i128) -> AppView {
    match event {
        AppEvent::ForwardStarted { remote_port, local_port, label } => AppView {
            rows: rows_after_start(
                m.rows,
                RowView {
                    remote_port,
                    local_port,
                    label: label_text(label),
                    status: ForwardStatus::Active,
                    started_at: now,
                },
            ),
            logs: logs_after_push(
                m.logs,
                LogView {
                    level: LogLevel::Info,
                    message: started_message(remote_port, local_port),
                    time: now,
                },
            ),
            ..m
        },
        AppEvent::ForwardStopped { remote_port, reason } => AppView {
            rows: rows_after_stop(m.rows, remote_port),
            logs: logs_after_push(
                m.logs,
                LogView { level: LogLevel::Warn, message: stopped_message(remote_port, reason@), time: now },
            ),
            ..m
        },
        AppEvent::ForwardDied { remote_port } => AppView {
            rows: rows_after_stop(m.rows, remote_port),
            logs: logs_after_push(
                m.logs,
                LogView { level: LogLevel::Error, message: died_message(remote_port), time: now },
            ),
            ..m
        },
        AppEvent::PollOk { discovered } => AppView { last_poll: poll_ok_text(discovered), ..m },
        AppEvent::PollError { message } => AppView {
            last_poll: poll_error_text(message@),
            logs: logs_after_push(
                m.logs,
                LogView { level: LogLevel::Error, message: poll_error_text(message@), time: now },
            ),
            ..m
        },
        AppEvent::Log { level, message } => AppView {
            logs: logs_after_push(m.logs, LogView { level, message: message@, time: now }),
            ..m
        },
        AppEvent::Shutdown => AppView { should_quit: true, ..m },
    }
}

// ── Laws ─────────────────────────────────────────────────────────────────────

/// Where the row of `port` stands, when rows are unique.
pub proof fn lemma_position_of(rows: Seq<RowView>, port: u16)
    requires
        rows_unique(rows),
    ensures
        match position_of(rows, port) {
            Some(i) => 0 <= i < rows.len() && rows[i].remote_port == port && forall|j: int|
                0 <= j < rows.len() && (#[trigger] rows[j]).remote_port == port ==> j == i,
            None => forall|j: int| 0 <= j < rows.len() ==> (#[trigger] rows[j]).remote_port != port,
        },
{
}

/// Every event keeps the interface's invariant: one row per remote port, at
/// most `MAX_LOG_LINES` log entries, and a selection within the table.
pub proof fn law_apply_keeps_invariant(m: AppView, event: AppEvent, now: i128)
    requires
        model_wf(m),
    ensures
        model_wf(apply_model(m, event, now)),
        apply_model(m, event, now).rows.len() >= m.rows.len(),
{
    match event {
        AppEvent::ForwardStarted { remote_port, .. } => {
            lemma_position_of(m.rows, remote_port);
        },
        AppEvent::ForwardStopped { remote_port, .. } => {
            lemma_position_of(m.rows, remote_port);
        },
        AppEvent::ForwardDied { remote_port } => {
            lemma_position_of(m.rows, remote_port);
        },
        _ => {},
    }
}

/// After a forward starts, the table shows it, active, with its local port,
/// its label and the start time `now`, in the row its port already had or in
/// a new last row; every other row stays as it was.
pub proof fn law_started_forward_is_shown_active(
    m: AppView,
    remote_port: u16,
    local_port: u16,
    label: Option<String>,
    now: i128,
)
    requires
        model_wf(m),
    ensures
        ({
            let after = apply_model(
                m,
                AppEvent::ForwardStarted { remote_port, local_port, label },
                now,
            );
            let row = RowView {
                remote_port,
                local_port,
                label: label_text(label),
                status: ForwardStatus::Active,
                started_at: now,
            };
            &&& position_of(after.rows, remote_port) matches Some(i)
            &&& after.rows[i] == row
            &&& (position_of(m.rows, remote_port) matches Some(j) ==> i == j)
            &&& (position_of(m.rows, remote_port) is None ==> i == m.rows.len())
            &&& forall|j: int|
                0 <= j < m.rows.len() && m.rows[j].remote_port != remote_port ==> after.rows[j]
                    == m.rows[j]
        }),
{
    let after = apply_model(m, AppEvent::ForwardStarted { remote_port, local_port, label }, now);
    lemma_position_of(m.rows, remote_port);
    law_apply_keeps_invariant(m, AppEvent::ForwardStarted { remote_port, local_port, label }, now);
    lemma_position_of(after.rows, remote_port);
    match position_of(m.rows, remote_port) {
        Some(j) => {
            assert(after.rows[j].remote_port == remote_port);
        },
        None => {
            assert(after.rows[m.rows.len() as int].remote_port == remote_port);
        },
    }
}

/// A forward that stops or dies stays in the table, marked stopped, with its
/// start time and other fields as they were; no other row changes.
pub proof fn law_stopped_forward_is_shown_stopped(
    m: AppView,
    event: AppEvent,
    port: u16,
    now: i128,
)
    requires
        model_wf(m),
        (event matches AppEvent::ForwardStopped { remote_port, .. } && remote_port == port)
            || (event matches AppEvent::ForwardDied { remote_port } && remote_port == port),
        position_of(m.rows, port) is Some,
    ensures
        ({
            let after = apply_model(m, event, now);
            let i = position_of(m.rows, port)->0;
            &&& after.rows.len() == m.rows.len()
            &&& after.rows[i] == RowView { status: ForwardStatus::Stopped, ..m.rows[i] }
            &&& forall|j: int| 0 <= j < m.rows.len() && j != i ==> after.rows[j] == m.rows[j]
        }),
{
    lemma_position_of(m.rows, port);
}

/// Once a remote port has a row, every later event leaves it a row.
pub proof fn law_rows_are_kept(m: AppView, event: AppEvent, port: u16, now: i128)
    requires
        model_wf(m),
        position_of(m.rows, port) is Some,
    ensures
        position_of(apply_model(m, event, now).rows, port) is Some,
{
    lemma_position_of(m.rows, port);
    let i = position_of(m.rows, port)->0;
    let after = apply_model(m, event, now);
    match event {
        AppEvent::ForwardStarted { remote_port, .. } => {
            lemma_position_of(m.rows, remote_port);
        },
        AppEvent::ForwardStopped { remote_port, .. } => {
            lemma_position_of(m.rows, remote_port);
        },
        AppEvent::ForwardDied { remote_port } => {
            lemma_position_of(m.rows, remote_port);
        },
        _ => {},
    }
    assert(after.rows[i].remote_port == port);
}

/// An event that logs adds its entry as the newest, and the log never holds
/// more than `MAX_LOG_LINES` entries.
pub proof fn law_log_keeps_newest(logs: Seq<LogView>, entry: LogView)
    requires
        logs.len() <= MAX_LOG_LINES,
    ensures
        logs_after_push(logs, entry).len() <= MAX_LOG_LINES,
        logs_after_push(logs, entry).last() == entry,
        logs.len() < MAX_LOG_LINES ==> logs_after_push(logs, entry) == logs.push(entry),
{
}

/// Keys keep the interface's invariant; `q`, and `c` with Control alone, quit.
pub proof fn law_keys(m: AppView, code: KeyCode, modifiers: KeyModifiers)
    requires
        model_wf(m),
    ensures
        model_wf(on_key_model(m, code, modifiers)),
        code == KeyCode::Char('q') ==> on_key_model(m, code, modifiers).should_quit,
        code == KeyCode::Char('c') && modifiers.bits == CONTROL_BITS ==> on_key_model(
            m,
            code,
            modifiers,
        ).should_quit,
        m.rows.len() > 0 && (code == KeyCode::Down || code == KeyCode::Up) ==> (on_key_model(
            m,
            code,
            modifiers,
        ).selected matches Some(i) && i < m.rows.len()),
{
}

/// What each key does. Every key leaves the table's rows, the log entries,
/// the host and the status line alone. `q` (with any modifiers), or `c` with
/// Control alone, sets the quit flag and changes nothing else. Otherwise:
/// Down or `j` selects the first row when nothing is selected, else the next
/// row, staying on the last one; Up or `k` selects the first row when nothing
/// is selected, else the previous row, staying on the first one; neither
/// moves anything when the table is empty and nothing is selected for Down.
/// Page Up scrolls the log panel 5 lines further up (at most to `u16::MAX`),
/// Page Down 5 lines back (not below 0), `G` back to the newest entries; no
/// other key scrolls or selects.
pub proof fn law_key_effects(m: AppView, code: KeyCode, modifiers: KeyModifiers)
    requires
        m.rows.len() <= usize::MAX,
    ensures
        ({
            let r = on_key_model(m, code, modifiers);
            let quits = code == KeyCode::Char('q') || (code == KeyCode::Char('c')
                && modifiers.bits == CONTROL_BITS);
            let down = code == KeyCode::Down || code == KeyCode::Char('j');
            let up = code == KeyCode::Up || code == KeyCode::Char('k');
            let n = m.rows.len();
            &&& r.rows == m.rows
            &&& r.logs == m.logs
            &&& r.host == m.host
            &&& r.last_poll == m.last_poll
            &&& r.should_quit == (m.should_quit || quits)
            &&& (quits ==> r.selected == m.selected && r.log_scroll == m.log_scroll)
            &&& (!quits && down && n > 0 && m.selected is None ==> r.selected == Some(0usize))
            &&& (!quits && down && n > 0 ==> (m.selected matches Some(i) ==> r.selected == Some(
                (if i + 1 < n {
                    i + 1
                } else {
                    n - 1
                }) as usize,
            )))
            &&& (!quits && down && n == 0 ==> r.selected == m.selected)
            &&& (!quits && up && m.selected is None ==> r.selected == Some(0usize))
            &&& (!quits && up ==> (m.selected matches Some(i) ==> r.selected == Some(
                (if i > 0 {
                    i - 1
                } else {
                    0
                }) as usize,
            )))
            &&& (!down && !up ==> r.selected == m.selected)
            &&& (!quits && code == KeyCode::PageUp ==> r.log_scroll == (if m.log_scroll + 5
                <= 65535 {
                m.log_scroll + 5
            } else {
                65535
            }))
            &&& (!quits && code == KeyCode::PageDown ==> r.log_scroll == (if m.log_scroll >= 5 {
                m.log_scroll - 5
            } else {
                0
            }))
            &&& (!quits && code == KeyCode::Char('G') ==> r.log_scroll == 0)
            &&& (code != KeyCode::PageUp && code != KeyCode::PageDown && code != KeyCode::Char('G')
                ==> r.log_scroll == m.log_scroll)
        }),
{
}

/// What every event does besides the table rows: the selection, the log
/// scroll and the host never change; only `Shutdown` sets the quit flag;
/// only poll results change the status line; and every event but `PollOk`
/// and `Shutdown` adds exactly one log entry, made at `now`, as the newest,
/// dropping the oldest only when `MAX_LOG_LINES` entries are kept.
pub proof fn law_event_effects(m: AppView, event: AppEvent, now: i128)
    requires
        m.logs.len() <= MAX_LOG_LINES,
    ensures
        ({
            let r = apply_model(m, event, now);
            let logs = event !is PollOk && event !is Shutdown;
            &&& r.selected == m.selected
            &&& r.log_scroll == m.log_scroll
            &&& r.host == m.host
            &&& r.should_quit == (m.should_quit || event is Shutdown)
            &&& (event !is PollOk && event !is PollError ==> r.last_poll == m.last_poll)
            &&& (event is PollOk || event is Shutdown ==> r.logs == m.logs)
            &&& (event !is ForwardStarted && event !is ForwardStopped && event !is ForwardDied
                ==> r.rows == m.rows)
            &&& (logs ==> {
                &&& r.logs.len() == (if m.logs.len() < MAX_LOG_LINES {
                    m.logs.len() + 1
                } else {
                    MAX_LOG_LINES as nat
                })
                &&& r.logs.last().time == now
                &&& r.logs.drop_last() == (if m.logs.len() < MAX_LOG_LINES {
                    m.logs
                } else {
                    m.logs.drop_first()
                })
            })
            &&& (event is ForwardStarted ==> r.logs.last().level == LogLevel::Info)
            &&& (event is ForwardStopped ==> r.logs.last().level == LogLevel::Warn)
            &&& (event is ForwardDied || event is PollError ==> r.logs.last().level
                == LogLevel::Error)
            &&& (event matches AppEvent::Log { level, message } ==> r.logs.last().level == level
                && r.logs.last().message == message@)
        }),
{
    let r = apply_model(m, event, now);
    if event !is PollOk && event !is Shutdown {
        if m.logs.len() < MAX_LOG_LINES {
            assert(r.logs.drop_last() =~= m.logs);
        } else {
            assert(r.logs.drop_last() =~= m.logs.drop_first());
        }
    }
}

// ── Messages ─────────────────────────────────────────────────────────────────

fn started_message_text(remote_port: u16, local_port: u16) -> (r: String)
    ensures
        r@ == started_message(remote_port, local_port),
{
    let mut s = String::new();
    push_str(&mut s, "forward started  :");
    push_decimal(&mut s, remote_port as u64);
    push_str(&mut s, " → localhost:");
    push_decimal(&mut s, local_port as u64);
    s
}

fn stopped_message_text(remote_port: u16, reason: &str) -> (r: String)
    ensures
        r@ == stopped_message(remote_port, reason@),
{
    let mut s = String::new();
    push_str(&mut s, "forward stopped  :");
    push_decimal(&mut s, remote_port as u64);
    push_str(&mut s, "  (");
    push_str(&mut s, reason);
    push_str(&mut s, ")");
    s
}

fn died_message_text(remote_port: u16) -> (r: String)
    ensures
        r@ == died_message(remote_port),
{
    let mut s = String::new();
    push_str(&mut s, "forward died unexpectedly  :");
    push_decimal(&mut s, remote_port as u64);
    s
}

fn poll_ok_string(discovered: usize) -> (r: String)
    ensures
        r@ == poll_ok_text(discovered),
{
    let mut s = String::new();
    push_str(&mut s, "last poll ok — ");
    push_decimal(&mut s, discovered as u64);
    push_str(&mut s, " remote port(s) listening");
    s
}

fn poll_error_string(message: &str) -> (r: String)
    ensures
        r@ == poll_error_text(message@),
{
    let mut s = String::new();
    push_str(&mut s, "poll error: ");
    push_str(&mut s, message);
    s
}

/// The selection after moving down: the next row, never past the last;
/// the first row when nothing was selected; unchanged when there are no rows.
pub open spec fn next_row_model(m: AppView) -> AppView {
    if m.rows.len() == 0 {
        m
    } else {
        let last = (m.rows.len() - 1) as usize;
        AppView {
            selected: Some(
                match m.selected {
                    Some(i) => if i + 1 <= last {
                        (i + 1) as usize
                    } else {
                        last
                    },
                    None => 0,
                },
            ),
            ..m
        }
    }
}

/// The selection after moving up: the previous row, never before the first;
/// the first row when nothing was selected.
pub open spec fn prev_row_model(m: AppView) -> AppView {
    AppView {
        selected: Some(
            match m.selected {
                Some(i) => if i == 0 {
                    0
                } else {
                    (i - 1) as usize
                },
                None => 0,
            },
        ),
        ..m
    }
}

/// The state after a key press: `q`, or `c` with Control alone, quits; Down or
/// `j` and Up or `k` move the selection; Page Down and Page Up scroll the log
/// panel five lines towards the newest or oldest entries; `G` goes back to
/// the newest entries. Other keys change nothing.
pub open spec fn on_key_model(m: AppView, code: KeyCode, modifiers: KeyModifiers) -> AppView {
    if code == KeyCode::Char('q') || (code == KeyCode::Char('c') && modifiers.bits == CONTROL_BITS) {
        AppView { should_quit: true, ..m }
    } else if code == KeyCode::Down || code == KeyCode::Char('j') {
        next_row_model(m)
    } else if code == KeyCode::Up || code == KeyCode::Char('k') {
        prev_row_model(m)
    } else if code == KeyCode::PageDown {
        AppView { log_scroll: if m.log_scroll >= 5 { (m.log_scroll - 5) as u16 } else { 0 }, ..m }
    } else if code == KeyCode::PageUp {
        AppView {
            log_scroll: if m.log_scroll <= u16::MAX - 5 { (m.log_scroll + 5) as u16 } else { u16::MAX },
            ..m
        }
    } else if code == KeyCode::Char('G') {
        AppView { log_scroll: 0, ..m }
    } else {
        m
    }
}

// ── Texts drawn on screen ────────────────────────────────────────────────────

/// Nanoseconds in a second.
pub const NANOS_PER_SEC: i128 = 1_000_000_000;

/// An uptime of `s` seconds: `42s`, `2m05s` (seconds in two digits), or `2h5m`.
pub open spec fn uptime_text(s: nat) -> Seq<char> {
    if s < 60 {
        decimal(s) + "s"@
    } else if s < 3600 {
        decimal(s / 60) + "m"@ + two_digits(s % 60) + "s"@
    } else {
        decimal(s / 3600) + "h"@ + decimal((s % 3600) / 60) + "m"@
    }
}

/// The time of day (UTC) of `secs` seconds after the epoch, as `hh:mm:ss`.
pub open spec fn clock_text(secs: nat) -> Seq<char> {
    two_digits((secs % 86400) / 3600) + ":"@ + two_digits((secs % 3600) / 60) + ":"@ + two_digits(
        secs % 60,
    )
}

/// Whole seconds from `started` to `now` (both in nanoseconds from the
/// epoch), 0 when `now` is earlier, at most `u64::MAX`.
pub open spec fn uptime_secs(now: i128, started: i128) -> nat {
    if now < started {
        0
    } else if (now - started) / (NANOS_PER_SEC as int) > u64::MAX {
        u64::MAX as nat
    } else {
        ((now - started) / (NANOS_PER_SEC as int)) as nat
    }
}

pub open spec fn status_text(status: ForwardStatus) -> Seq<char> {
    match status {
        ForwardStatus::Active => "active"@,
        ForwardStatus::Stopped => "stopped"@,
    }
}

pub open spec fn level_text(level: LogLevel) -> Seq<char> {
    match level {
        LogLevel::Info => "INFO "@,
        LogLevel::Warn => "WARN "@,
        LogLevel::Error => "ERROR"@,
    }
}

/// Number of rows whose forward is active.
pub open spec fn count_active(rows: Seq<RowView>) -> nat
    decreases rows.len(),
{
    if rows.len() == 0 {
        0
    } else {
        count_active(rows.drop_last()) + if rows.last().status == ForwardStatus::Active {
            1nat
        } else {
            0nat
        }
    }
}

pub proof fn lemma_count_active_bound(rows: Seq<RowView>)
    ensures
        count_active(rows) <= rows.len(),
    decreases rows.len(),
{
    if rows.len() > 0 {
        lemma_count_active_bound(rows.drop_last());
    }
}

/// The active count is the number of rows whose forward is active.
pub proof fn law_count_active(rows: Seq<RowView>)
    ensures
        count_active(rows) == rows.filter(|r: RowView| r.status == ForwardStatus::Active).len(),
    decreases rows.len(),
{
    reveal(Seq::filter);
    if rows.len() > 0 {
        law_count_active(rows.drop_last());
    }
}

/// `a - b`, or 0 when `b` is larger.
pub open spec fn sat_sub(a: int, b: int) -> int {
    if a >= b {
        a - b
    } else {
        0
    }
}

/// How an uptime of `s` seconds reads: under a minute, the seconds and `s`;
/// under an hour, the minutes, `m`, the remaining seconds in two digits and
/// `s`; from an hour on, the hours, `h`, the remaining whole minutes and `m`.
pub proof fn law_uptime_text(s: nat, h: nat, m: nat, r: nat)
    ensures
        s < 60 ==> uptime_text(s) == decimal(s) + "s"@,
        60 <= s < 3600 && m * 60 + r == s && r < 60 ==> uptime_text(s) == decimal(m) + "m"@
            + two_digits(r) + "s"@,
        s >= 3600 && h * 3600 + m * 60 + r == s && m < 60 && r < 60 ==> uptime_text(s) == decimal(
            h,
        ) + "h"@ + decimal(m) + "m"@,
{
    if 60 <= s < 3600 && m * 60 + r == s && r < 60 {
        assert(s / 60 == m && s % 60 == r) by (nonlinear_arith)
            requires
                m * 60 + r == s,
                r < 60,
        ;
    }
    if s >= 3600 && h * 3600 + m * 60 + r == s && m < 60 && r < 60 {
        assert(s / 3600 == h && (s % 3600) / 60 == m) by (nonlinear_arith)
            requires
                h * 3600 + m * 60 + r == s,
                m < 60,
                r < 60,
        ;
    }
}

/// The time of day shown for `secs` seconds after the epoch: with `secs`
/// made of whole days, `hh` hours, `mm` minutes and `ss` seconds, it reads
/// `hh:mm:ss`, each in two digits.
pub proof fn law_clock_text(secs: nat, d: nat, hh: nat, mm: nat, ss: nat)
    requires
        d * 86400 + hh * 3600 + mm * 60 + ss == secs,
        hh < 24,
        mm < 60,
        ss < 60,
    ensures
        clock_text(secs) == two_digits(hh) + ":"@ + two_digits(mm) + ":"@ + two_digits(ss),
{
    assert((secs % 86400) / 3600 == hh && (secs % 3600) / 60 == mm && secs % 60 == ss)
        by (nonlinear_arith)
        requires
            d * 86400 + hh * 3600 + mm * 60 + ss == secs,
            hh < 24,
            mm < 60,
            ss < 60,
    ;
}

/// The uptime counts the whole seconds from `started` to `now`: 0 when
/// `now` is earlier, and otherwise the largest `u` with `u` seconds at most
/// the time elapsed, capped at `u64::MAX`.
pub proof fn law_uptime_secs(now: i128, started: i128)
    ensures
        now < started ==> uptime_secs(now, started) == 0,
        now >= started && uptime_secs(now, started) < u64::MAX ==> uptime_secs(now, started)
            * 1_000_000_000 <= now - started < (uptime_secs(now, started) + 1) * 1_000_000_000,
        now >= started && uptime_secs(now, started) == u64::MAX ==> now - started >= u64::MAX
            * 1_000_000_000,
{
    if now >= started {
        let e: int = now - started;
        assert(e / 1_000_000_000 * 1_000_000_000 <= e < (e / 1_000_000_000 + 1) * 1_000_000_000)
            by (nonlinear_arith)
            requires
                e >= 0,
        ;
    }
}

/// Formats an uptime of `secs` seconds.
pub fn format_uptime(secs: u64) -> (r: String)
    ensures
        r@ == uptime_text(secs as nat),
{
    let mut t = String::new();
    if secs < 60 {
        push_decimal(&mut t, secs);
        push_str(&mut t, "s");
    } else if secs < 3600 {
        push_decimal(&mut t, secs / 60);
        push_str(&mut t, "m");
        push_two_digits(&mut t, secs % 60);
        push_str(&mut t, "s");
    } else {
        push_decimal(&mut t, secs / 3600);
        push_str(&mut t, "h");
        push_decimal(&mut t, (secs % 3600) / 60);
        push_str(&mut t, "m");
    }
    assert(t@ =~= uptime_text(secs as nat));
    t
}

/// Whole seconds from the epoch to `time` (nanoseconds), 0 for a time
/// before the epoch.
pub open spec fn epoch_secs(time: i128) -> nat {
    if time < 0 {
        0
    } else {
        (time / NANOS_PER_SEC) as nat
    }
}

/// Formats the time of day of `time` (nanoseconds from the epoch) as
/// `hh:mm:ss`; a time before the epoch shows as `00:00:00`.
pub fn format_time(time: i128) -> (r: String)
    ensures
        r@ == clock_text(epoch_secs(time)),
{
    let secs: i128 = if time < 0 {
        0
    } else {
        time / NANOS_PER_SEC
    };
    let h = ((secs % 86400) / 3600) as u64;
    let m = ((secs % 3600) / 60) as u64;
    let s = (secs % 60) as u64;
    let mut t = String::new();
    push_two_digits(&mut t, h);
    push_str(&mut t, ":");
    push_two_digits(&mut t, m);
    push_str(&mut t, ":");
    push_two_digits(&mut t, s);
    assert(t@ =~= clock_text(secs as nat));
    t
}

/// Whole seconds elapsed from `started` to `now`.
pub fn elapsed_secs(now: i128, started: i128) -> (r: u64)
    ensures
        r == uptime_secs(now, started),
{
    if now < started {
        return 0;
    }
    let diff: u128 = if started >= 0 || now < 0 {
        (now - started) as u128
    } else {
        now as u128 + (-(started + 1)) as u128 + 1
    };
    let d = diff / 1_000_000_000u128;
    if d > u64::MAX as u128 {
        u64::MAX
    } else {
        d as u64
    }
}

/// The lines of the log panel to show: `(start, end)` into the entries, for
/// `total` entries, a panel `height` lines tall with its two border lines,
/// scrolled `scroll` lines up.
pub fn visible_log_range(total: usize, height: u16, scroll: u16) -> (r: (usize, usize))
    ensures
        r.0 == sat_sub(sat_sub(total as int, sat_sub(height as int, 2)), scroll as int),
        r.1 == sat_sub(total as int, scroll as int),
        r.0 <= r.1 <= total,
{
    let inner = height.saturating_sub(2) as usize;
    let scroll = scroll as usize;
    let start = total.saturating_sub(inner).saturating_sub(scroll);
    let end = total.saturating_sub(scroll);
    (start, end)
}

/// Title of the log panel: how far it is scrolled, if at all.
pub fn scroll_hint(scroll: u16) -> (r: String)
    ensures
        r@ == (if scroll > 0 {
            " logs [↑"@ + decimal(scroll as nat) + " lines] "@
        } else {
            " logs "@
        }),
{
    let mut t = String::new();
    if scroll > 0 {
        push_str(&mut t, " logs [↑");
        push_decimal(&mut t, scroll as u64);
        push_str(&mut t, " lines] ");
    } else {
        push_str(&mut t, " logs ");
    }
    t
}

impl ForwardStatus {
    /// The word shown in the status column.
    pub fn text(&self) -> (r: &'static str)
        ensures
            r@ == status_text(*self),
    {
        match self {
            ForwardStatus::Active => "active",
            ForwardStatus::Stopped => "stopped",
        }
    }
}

impl LogLevel {
    /// The level as the log panel shows it, five characters wide.
    pub fn text(&self) -> (r: &'static str)
        ensures
            r@ == level_text(*self),
    {
        match self {
            LogLevel::Info => "INFO ",
            LogLevel::Warn => "WARN ",
            LogLevel::Error => "ERROR",
        }
    }
}

impl ForwardRow {
    /// The five cells of the row's line in the table at time `now`: remote
    /// port, local port, label, status and uptime.
    pub fn cells(&self, now: i128) -> (r: Vec<String>)
        ensures
            r@.len() == 5,
            r@[0]@ == ":"@ + decimal(self.remote_port as nat),
            r@[1]@ == ":"@ + decimal(self.local_port as nat),
            r@[2]@ == self.label@,
            r@[3]@ == status_text(self.status),
            r@[4]@ == uptime_text(uptime_secs(now, self.started_at)),
    {
        let mut remote = String::new();
        push_str(&mut remote, ":");
        push_decimal(&mut remote, self.remote_port as u64);
        let mut local = String::new();
        push_str(&mut local, ":");
        push_decimal(&mut local, self.local_port as u64);
        let mut label = String::new();
        push_str(&mut label, self.label.as_str());
        let mut status = String::new();
        push_str(&mut status, self.status.text());
        let uptime = format_uptime(elapsed_secs(now, self.started_at));
        let mut cells: Vec<String> = Vec::new();
        cells.push(remote);
        cells.push(local);
        cells.push(label);
        cells.push(status);
        cells.push(uptime);
        cells
    }
}

impl LogEntry {
    /// The time and level columns of the entry's line in the log panel,
    /// each followed by a space.
    pub fn prefixes(&self) -> (r: (String, String))
        ensures
            r.0@ == clock_text(epoch_secs(self.time)) + " "@,
            r.1@ == level_text(self.level) + " "@,
    {
        let mut time = format_time(self.time);
        push_str(&mut time, " ");
        let mut level = String::new();
        push_str(&mut level, self.level.text());
        push_str(&mut level, " ");
        (time, level)
    }
}

// ── State ────────────────────────────────────────────────────────────────────

impl View for AppState {
    type V = AppView;

    open spec fn view(&self) -> AppView {
        AppView {
            rows: self.rows_view(),
            logs: self.logs_view(),
            selected: self.selected_view(),
            log_scroll: self.log_scroll_view(),
            host: self.host_view(),
            last_poll: self.last_poll_view(),
            should_quit: self.quit_view(),
        }
    }
}

impl AppState {
    /// The rows of the table.
    pub closed spec fn rows_view(&self) -> Seq<RowView> {
        self.forwards@.map_values(|r: ForwardRow| r@)
    }

    /// The log entries, oldest first.
    pub closed spec fn logs_view(&self) -> Seq<LogView> {
        self.logs@.map_values(|e: LogEntry| e@)
    }

    /// The selected row.
    pub closed spec fn selected_view(&self) -> Option<usize> {
        self.selected
    }

    /// How far the log panel is scrolled up.
    pub closed spec fn log_scroll_view(&self) -> u16 {
        self.log_scroll
    }

    /// The last poll status text.
    pub closed spec fn last_poll_view(&self) -> Seq<char> {
        self.last_poll@
    }

    /// The SSH host shown in the title.
    pub closed spec fn host_view(&self) -> Seq<char> {
        self.host@
    }

    /// Whether the interface should exit.
    pub closed spec fn quit_view(&self) -> bool {
        self.should_quit
    }

    /// The interface's invariant holds of every state that `new`, `apply`
    /// and `on_key` produce.
    pub proof fn lemma_wf(&self)
        requires
            self.wf(),
        ensures
            model_wf(self@),
    {
    }

    /// The internal invariant: the index finds the row of each port, and the
    /// model's invariant holds.
    pub closed spec fn wf(&self) -> bool {
        &&& forall|p: u16|
            #[trigger] self.index@.contains_key(p) ==> self.index@[p] < self.forwards@.len()
                && self.forwards@[self.index@[p] as int].remote_port == p
        &&& forall|i: int|
            0 <= i < self.forwards@.len() ==> self.index@.contains_key(
                (#[trigger] self.forwards@[i]).remote_port,
            )
        &&& model_wf(self@)
    }

    /// A fresh state for the given host: no rows, no logs, nothing selected.
    pub fn new(host: String) -> (s: Self)
        ensures
            s.wf(),
            model_wf(s@),
            s@ == (AppView {
                rows: Seq::empty(),
                logs: Seq::empty(),
                selected: None,
                log_scroll: 0,
                host: host@,
                last_poll: "waiting for first poll…"@,
                should_quit: false,
            }),
    {
        let mut last_poll = String::new();
        push_str(&mut last_poll, "waiting for first poll…");
        let s = AppState {
            forwards: Vec::new(),
            index: HashMap::new(),
            logs: Vec::new(),
            selected: None,
            log_scroll: 0,
            host,
            last_poll,
            should_quit: false,
        };
        assert(s@.rows =~= Seq::<RowView>::empty());
        assert(s@.logs =~= Seq::<LogView>::empty());
        s
    }

    /// Puts `row` in the table: over the row of its port, or at the end.
    fn put_row(&mut self, row: ForwardRow)
        requires
            old(self).wf(),
        ensures
            final(self).wf(),
            final(self)@ == (AppView { rows: rows_after_start(old(self)@.rows, row@), ..old(self)@ }),
    {
        let ghost old_rows = self@.rows;
        let rp = row.remote_port;
        match self.index.get(&rp) {
            Some(i) => {
                let idx = *i;
                proof {
                    assert(old_rows[idx as int].remote_port == rp);
                    let c = choose|i: int| 0 <= i < old_rows.len() && (#[trigger] old_rows[i]).remote_port == rp;
                    assert(c == idx as int);
                    assert(position_of(old_rows, rp) == Some(idx as int));
                }
                self.forwards.set(idx, row);
                assert(self@.rows =~= old_rows.update(idx as int, row@));
            },
            None => {
                proof {
                    assert forall|i: int| 0 <= i < old_rows.len() implies (#[trigger] old_rows[i]).remote_port != rp by {
                        assert(self.index@.contains_key(self.forwards@[i].remote_port));
                    }
                    assert(position_of(old_rows, rp) == None::<int>);
                }
                let idx = self.forwards.len();
                self.index.insert(rp, idx);
                self.forwards.push(row);
                assert(self@.rows =~= old_rows.push(row@));
            },
        }
    }

    /// Marks the row of `port`, if any, as stopped.
    fn mark_stopped(&mut self, port: u16)
        requires
            old(self).wf(),
        ensures
            final(self).wf(),
            final(self)@ == (AppView { rows: rows_after_stop(old(self)@.rows, port), ..old(self)@ }),
    {
        let ghost old_rows = self@.rows;
        match self.index.get(&port) {
            Some(i) => {
                let idx = *i;
                proof {
                    assert(old_rows[idx as int].remote_port == port);
                    let c = choose|i: int| 0 <= i < old_rows.len() && (#[trigger] old_rows[i]).remote_port == port;
                    assert(c == idx as int);
                }
                self.forwards[idx].status = ForwardStatus::Stopped;
                assert(self@.rows =~= old_rows.update(
                    idx as int,
                    RowView { status: ForwardStatus::Stopped, ..old_rows[idx as int] },
                ));
            },
            None => {
                proof {
                    assert forall|i: int| 0 <= i < old_rows.len() implies (#[trigger] old_rows[i]).remote_port != port by {
                        assert(self.index@.contains_key(self.forwards@[i].remote_port));
                    }
                }
            },
        }
    }

    /// Applies one event from the polling loop, stamping a started forward
    /// and the new log entries with the time the clock reads.
    pub fn apply(&mut self, event: AppEvent)
        requires
            old(self).wf(),
        ensures
            final(self).wf(),
            model_wf(final(self)@),
            final(self)@.rows.len() >= old(self)@.rows.len(),
            exists|now: i128| final(self)@ == apply_model(old(self)@, event, now),
    {
        let now = clock_nanos();
        self.apply_at(event, now);
    }

    /// Applies one event from the polling loop at time `now` (nanoseconds
    /// from the epoch).
    pub fn apply_at(&mut self, event: AppEvent, now: i128)
        requires
            old(self).wf(),
        ensures
            final(self).wf(),
            model_wf(final(self)@),
            final(self)@.rows.len() >= old(self)@.rows.len(),
            final(self)@ == apply_model(old(self)@, event, now),
    {
        proof {
            law_apply_keeps_invariant(self@, event, now);
        }
        match event {
            AppEvent::ForwardStarted { remote_port, local_port, label } => {
                let text = match label {
                    Some(l) => l,
                    None => String::new(),
                };
                let row = ForwardRow {
                    remote_port,
                    local_port,
                    label: text,
                    status: ForwardStatus::Active,
                    started_at: now,
                };
                self.put_row(row);
                self.push_log(LogLevel::Info, started_message_text(remote_port, local_port), now);
            },
            AppEvent::ForwardStopped { remote_port, reason } => {
                self.mark_stopped(remote_port);
                self.push_log(LogLevel::Warn, stopped_message_text(remote_port, reason.as_str()), now);
            },
            AppEvent::ForwardDied { remote_port } => {
                self.mark_stopped(remote_port);
                self.push_log(LogLevel::Error, died_message_text(remote_port), now);
            },
            AppEvent::PollOk { discovered } => {
                self.last_poll = poll_ok_string(discovered);
            },
            AppEvent::PollError { message } => {
                self.last_poll = poll_error_string(message.as_str());
                self.push_log(LogLevel::Error, poll_error_string(message.as_str()), now);
            },
            AppEvent::Log { level, message } => {
                self.push_log(level, message, now);
            },
            AppEvent::Shutdown => {
                self.should_quit = true;
            },
        }
    }

    /// Handles a key press.
    pub fn on_key(&mut self, code: KeyCode, modifiers: KeyModifiers)
        requires
            old(self).wf(),
        ensures
            final(self).wf(),
            model_wf(final(self)@),
            final(self)@ == on_key_model(old(self)@, code, modifiers),
    {
        let quit = match code {
            KeyCode::Char(c) => c == 'q' || (c == 'c' && modifiers.bits == CONTROL_BITS),
            _ => false,
        };
        if quit {
            self.should_quit = true;
            return ;
        }
        match code {
            KeyCode::Down => self.next_row(),
            KeyCode::Up => self.prev_row(),
            KeyCode::PageDown => {
                self.log_scroll = self.log_scroll.saturating_sub(5);
            },
            KeyCode::PageUp => {
                self.log_scroll = self.log_scroll.saturating_add(5);
            },
            KeyCode::Char(c) => {
                if c == 'j' {
                    self.next_row();
                } else if c == 'k' {
                    self.prev_row();
                } else if c == 'G' {
                    self.log_scroll = 0;
                }
            },
            KeyCode::Other => {},
        }
    }

    fn next_row(&mut self)
        requires
            old(self).wf(),
        ensures
            final(self).wf(),
            final(self)@ == next_row_model(old(self)@),
    {
        let len = self.forwards.len();
        if len == 0 {
            return ;
        }
        let i = match self.selected {
            Some(i) => if i + 1 <= len - 1 {
                i + 1
            } else {
                len - 1
            },
            None => 0,
        };
        self.selected = Some(i);
    }

    fn prev_row(&mut self)
        requires
            old(self).wf(),
        ensures
            final(self).wf(),
            final(self)@ == prev_row_model(old(self)@),
    {
        let i = match self.selected {
            Some(i) => i.saturating_sub(1),
            None => 0,
        };
        self.selected = Some(i);
    }

    /// The rows of the table.
    pub fn forwards(&self) -> (r: &Vec<ForwardRow>)
        ensures
            r@.map_values(|x: ForwardRow| x@) == self@.rows,
    {
        &self.forwards
    }

    /// The log entries kept, oldest first.
    pub fn logs(&self) -> (r: &Vec<LogEntry>)
        ensures
            r@.map_values(|e: LogEntry| e@) == self@.logs,
    {
        &self.logs
    }

    /// The selected row.
    pub fn selected(&self) -> (r: Option<usize>)
        ensures
            r == self@.selected,
    {
        self.selected
    }

    /// How many lines the log panel is scrolled up.
    pub fn log_scroll(&self) -> (r: u16)
        ensures
            r == self@.log_scroll,
    {
        self.log_scroll
    }

    /// The SSH host shown in the title.
    pub fn host(&self) -> (r: &String)
        ensures
            r@ == self@.host,
    {
        &self.host
    }

    /// Whether the interface should exit.
    pub fn should_quit(&self) -> (r: bool)
        ensures
            r == self@.should_quit,
    {
        self.should_quit
    }

    /// The last poll status text.
    pub fn last_poll(&self) -> (r: &String)
        ensures
            r@ == self@.last_poll,
    {
        &self.last_poll
    }

    /// Number of rows whose forward is active.
    pub fn active_count(&self) -> (n: usize)
        requires
            self.wf(),
        ensures
            n == count_active(self@.rows),
    {
        let mut n: usize = 0;
        let mut i: usize = 0;
        while i < self.forwards.len()
            invariant
                i <= self.forwards@.len(),
                n == count_active(self@.rows.take(i as int)),
                self@.rows == self.forwards@.map_values(|r: ForwardRow| r@),
            decreases self.forwards@.len() - i,
        {
            proof {
                let t = self@.rows.take(i + 1);
                assert(t.drop_last() =~= self@.rows.take(i as int));
                lemma_count_active_bound(self@.rows.take(i as int));
            }
            if self.forwards[i].status == ForwardStatus::Active {
                n = n + 1;
            }
            i = i + 1;
        }
        assert(self@.rows.take(i as int) =~= self@.rows);
        n
    }

    /// Title of the table: the host and how many forwards are active.
    pub fn table_title(&self) -> (r: String)
        requires
            self.wf(),
        ensures
            r@ == " port-shadow — "@ + self@.host + " — "@ + decimal(count_active(self@.rows))
                + " active forward(s) "@,
    {
        let n = self.active_count();
        let mut t = String::new();
        push_str(&mut t, " port-shadow — ");
        push_str(&mut t, self.host.as_str());
        push_str(&mut t, " — ");
        push_decimal(&mut t, n as u64);
        push_str(&mut t, " active forward(s) ");
        t
    }

    /// Whether `cells` are the cells of every row of the table at time `now`:
    /// remote port, local port, label, status and uptime.
    pub open spec fn table_cells_are(&self, now: i128, cells: Seq<Vec<String>>) -> bool {
        &&& cells.len() == self@.rows.len()
        &&& forall|i: int|
            0 <= i < cells.len() ==> {
                &&& (#[trigger] cells[i])@.len() == 5
                &&& cells[i]@[0]@ == ":"@ + decimal(self@.rows[i].remote_port as nat)
                &&& cells[i]@[1]@ == ":"@ + decimal(self@.rows[i].local_port as nat)
                &&& cells[i]@[2]@ == self@.rows[i].label
                &&& cells[i]@[3]@ == status_text(self@.rows[i].status)
                &&& cells[i]@[4]@ == uptime_text(uptime_secs(now, self@.rows[i].started_at))
            }
    }

    /// The cells of every row of the table at time `now`.
    pub fn table_cells_at(&self, now: i128) -> (r: Vec<Vec<String>>)
        ensures
            self.table_cells_are(now, r@),
    {
        let mut out: Vec<Vec<String>> = Vec::new();
        let mut i: usize = 0;
        while i < self.forwards.len()
            invariant
                i <= self.forwards@.len(),
                out@.len() == i,
                self@.rows == self.forwards@.map_values(|r: ForwardRow| r@),
                forall|k: int|
                    0 <= k < i ==> {
                        &&& (#[trigger] out@[k])@.len() == 5
                        &&& out@[k]@[0]@ == ":"@ + decimal(self@.rows[k].remote_port as nat)
                        &&& out@[k]@[1]@ == ":"@ + decimal(self@.rows[k].local_port as nat)
                        &&& out@[k]@[2]@ == self@.rows[k].label
                        &&& out@[k]@[3]@ == status_text(self@.rows[k].status)
                        &&& out@[k]@[4]@ == uptime_text(uptime_secs(now, self@.rows[k].started_at))
                    },
            decreases self.forwards@.len() - i,
        {
            out.push(self.forwards[i].cells(now));
            i = i + 1;
        }
        out
    }

    /// The cells of every row of the table now: as [`Self::table_cells_at`]
    /// gives them at the time the clock reads.
    pub fn table_cells(&self) -> (r: Vec<Vec<String>>)
        ensures
            exists|now: i128| self.table_cells_are(now, r@),
    {
        let now = clock_nanos();
        let r = self.table_cells_at(now);
        assert(self.table_cells_are(now, r@));
        r
    }

    /// The text of the status line: the last poll status.
    pub fn status_line(&self) -> (r: String)
        ensures
            r@ == " "@ + self@.last_poll + " "@,
    {
        let mut t = String::new();
        push_str(&mut t, " ");
        push_str(&mut t, self.last_poll.as_str());
        push_str(&mut t, " ");
        t
    }

    /// Adds a log entry made at `now`, dropping the oldest when the panel is full.
    fn push_log(&mut self, level: LogLevel, message: String, now: i128)
        requires
            old(self).wf(),
        ensures
            final(self).wf(),
            final(self)@ == (AppView {
                logs: logs_after_push(
                    old(self)@.logs,
                    LogView { level, message: message@, time: now },
                ),
                ..old(self)@
            }),
    {
        let ghost old_logs = self@.logs;
        if self.logs.len() >= MAX_LOG_LINES {
            self.logs.remove(0);
            assert(self@.logs =~= old_logs.drop_first());
        }
        let ghost mid = self@.logs;
        self.logs.push(LogEntry::at(now, level, message));
        assert(self@.logs =~= mid.push(LogView { level, message: message@, time: now }));
    }
}

} // verus!
