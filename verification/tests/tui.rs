use port_shadow::events::{AppEvent, LogEntry, LogLevel};
use port_shadow::tui::{
    elapsed_secs, format_time, format_uptime, scroll_hint, visible_log_range, AppState,
    ForwardStatus, KeyCode, KeyModifiers, CONTROL_BITS, MAX_LOG_LINES,
};

fn started(remote_port: u16, local_port: u16, label: Option<&str>) -> AppEvent {
    AppEvent::ForwardStarted { remote_port, local_port, label: label.map(|s| s.to_string()) }
}

fn no_mods() -> KeyModifiers {
    KeyModifiers { bits: 0 }
}

#[test]
fn new_state_is_empty() {
    let s = AppState::new("user@myhost".to_string());
    assert!(s.forwards().is_empty());
    assert!(s.logs().is_empty());
    assert_eq!(s.selected(), None);
    assert_eq!(s.log_scroll(), 0);
    assert_eq!(s.last_poll(), "waiting for first poll…");
    assert_eq!(s.host(), "user@myhost");
    assert!(!s.should_quit());
}

#[test]
fn started_forward_gets_an_active_row_and_a_log_line() {
    let mut s = AppState::new("h".to_string());
    s.apply(started(3000, 3000, Some("dev server")));
    s.apply(started(8080, 9341, None));
    let rows = s.forwards();
    assert_eq!(rows.len(), 2);
    assert_eq!(rows[0].remote_port, 3000);
    assert_eq!(rows[0].label, "dev server");
    assert_eq!(rows[0].status, ForwardStatus::Active);
    assert_eq!(rows[1].local_port, 9341);
    assert_eq!(rows[1].label, "");
    let logs = s.logs();
    assert_eq!(logs.len(), 2);
    assert_eq!(logs[0].level, LogLevel::Info);
    assert_eq!(logs[0].message, "forward started  :3000 → localhost:3000");
    assert_eq!(logs[1].message, "forward started  :8080 → localhost:9341");
}

#[test]
fn stopped_and_died_forwards_keep_their_rows() {
    let mut s = AppState::new("h".to_string());
    s.apply(started(3000, 3000, None));
    s.apply(started(5432, 5432, None));
    s.apply(AppEvent::ForwardStopped {
        remote_port: 3000,
        reason: "remote port no longer listening".to_string(),
    });
    s.apply(AppEvent::ForwardDied { remote_port: 5432 });
    s.apply(AppEvent::ForwardStopped { remote_port: 1, reason: "x".to_string() });
    assert_eq!(s.forwards().len(), 2);
    assert_eq!(s.forwards()[0].status, ForwardStatus::Stopped);
    assert_eq!(s.forwards()[1].status, ForwardStatus::Stopped);
    let logs = s.logs();
    assert_eq!(logs[2].level, LogLevel::Warn);
    assert_eq!(logs[2].message, "forward stopped  :3000  (remote port no longer listening)");
    assert_eq!(logs[3].level, LogLevel::Error);
    assert_eq!(logs[3].message, "forward died unexpectedly  :5432");
    assert_eq!(logs[4].message, "forward stopped  :1  (x)");
}

#[test]
fn restarted_forward_reuses_its_row() {
    let mut s = AppState::new("h".to_string());
    s.apply(started(3000, 3000, None));
    s.apply(started(4000, 4000, None));
    s.apply(AppEvent::ForwardStopped { remote_port: 3000, reason: "r".to_string() });
    s.apply(started(3000, 3001, Some("again")));
    assert_eq!(s.forwards().len(), 2);
    assert_eq!(s.forwards()[0].local_port, 3001);
    assert_eq!(s.forwards()[0].label, "again");
    assert_eq!(s.forwards()[0].status, ForwardStatus::Active);
    assert_eq!(s.active_count(), 2);
}

#[test]
fn poll_results_update_the_status_line() {
    let mut s = AppState::new("h".to_string());
    s.apply(AppEvent::PollOk { discovered: 3 });
    assert_eq!(s.last_poll(), "last poll ok — 3 remote port(s) listening");
    assert!(s.logs().is_empty());
    assert_eq!(s.status_line(), " last poll ok — 3 remote port(s) listening ");
    s.apply(AppEvent::PollError { message: "boom".to_string() });
    assert_eq!(s.last_poll(), "poll error: boom");
    assert_eq!(s.logs().len(), 1);
    assert_eq!(s.logs()[0].level, LogLevel::Error);
    assert_eq!(s.logs()[0].message, "poll error: boom");
}

#[test]
fn log_and_shutdown_events() {
    let mut s = AppState::new("h".to_string());
    s.apply(AppEvent::Log { level: LogLevel::Warn, message: "careful".to_string() });
    assert_eq!(s.logs()[0].message, "careful");
    assert_eq!(s.logs()[0].level, LogLevel::Warn);
    assert!(!s.should_quit());
    s.apply(AppEvent::Shutdown);
    assert!(s.should_quit());
}

#[test]
fn log_keeps_the_newest_entries() {
    let mut s = AppState::new("h".to_string());
    for i in 0..(MAX_LOG_LINES + 5) {
        s.apply(AppEvent::Log { level: LogLevel::Info, message: format!("m{i}") });
    }
    let logs = s.logs();
    assert_eq!(logs.len(), MAX_LOG_LINES);
    assert_eq!(logs[0].message, "m5");
    assert_eq!(logs[MAX_LOG_LINES - 1].message, format!("m{}", MAX_LOG_LINES + 4));
}

#[test]
fn quit_keys() {
    let mut s = AppState::new("h".to_string());
    s.on_key(KeyCode::Char('c'), no_mods());
    assert!(!s.should_quit());
    s.on_key(KeyCode::Char('c'), KeyModifiers { bits: CONTROL_BITS | 1 });
    assert!(!s.should_quit());
    s.on_key(KeyCode::Char('c'), KeyModifiers { bits: CONTROL_BITS });
    assert!(s.should_quit());
    let mut s = AppState::new("h".to_string());
    s.on_key(KeyCode::Char('q'), KeyModifiers { bits: 4 });
    assert!(s.should_quit());
}

#[test]
fn selection_moves_within_the_table() {
    let mut s = AppState::new("h".to_string());
    s.on_key(KeyCode::Down, no_mods());
    assert_eq!(s.selected(), None);
    s.on_key(KeyCode::Up, no_mods());
    assert_eq!(s.selected(), Some(0));
    s.apply(started(1, 1, None));
    s.apply(started(2, 2, None));
    s.apply(started(3, 3, None));
    s.on_key(KeyCode::Char('j'), no_mods());
    assert_eq!(s.selected(), Some(1));
    s.on_key(KeyCode::Down, no_mods());
    s.on_key(KeyCode::Down, no_mods());
    assert_eq!(s.selected(), Some(2));
    s.on_key(KeyCode::Char('k'), no_mods());
    assert_eq!(s.selected(), Some(1));
    s.on_key(KeyCode::Up, no_mods());
    s.on_key(KeyCode::Up, no_mods());
    assert_eq!(s.selected(), Some(0));
}

#[test]
fn log_scrolling() {
    let mut s = AppState::new("h".to_string());
    s.on_key(KeyCode::PageDown, no_mods());
    assert_eq!(s.log_scroll(), 0);
    s.on_key(KeyCode::PageUp, no_mods());
    s.on_key(KeyCode::PageUp, no_mods());
    assert_eq!(s.log_scroll(), 10);
    s.on_key(KeyCode::PageDown, no_mods());
    assert_eq!(s.log_scroll(), 5);
    s.on_key(KeyCode::Char('G'), no_mods());
    assert_eq!(s.log_scroll(), 0);
    for _ in 0..20000 {
        s.on_key(KeyCode::PageUp, no_mods());
    }
    assert_eq!(s.log_scroll(), u16::MAX);
    s.on_key(KeyCode::Other, no_mods());
    assert_eq!(s.log_scroll(), u16::MAX);
}

#[test]
fn uptime_texts() {
    assert_eq!(format_uptime(0), "0s");
    assert_eq!(format_uptime(59), "59s");
    assert_eq!(format_uptime(60), "1m00s");
    assert_eq!(format_uptime(125), "2m05s");
    assert_eq!(format_uptime(252), "4m12s");
    assert_eq!(format_uptime(3599), "59m59s");
    assert_eq!(format_uptime(3600), "1h0m");
    assert_eq!(format_uptime(7500), "2h5m");
}

#[test]
fn clock_texts() {
    assert_eq!(format_time(0), "00:00:00");
    assert_eq!(format_time(-5), "00:00:00");
    assert_eq!(format_time(3661 * 1_000_000_000 + 999), "01:01:01");
    assert_eq!(format_time(86399 * 1_000_000_000), "23:59:59");
    assert_eq!(format_time((86400 + 50581) * 1_000_000_000), "14:03:01");
}

#[test]
fn elapsed_seconds() {
    assert_eq!(elapsed_secs(5_999_999_999, 1_000_000_000), 4);
    assert_eq!(elapsed_secs(1, 2), 0);
    assert_eq!(elapsed_secs(i128::MAX, i128::MIN), u64::MAX);
    assert_eq!(elapsed_secs(1_000_000_000, -2_000_000_000), 3);
    assert_eq!(elapsed_secs(-1_000_000_000, -3_500_000_000), 2);
}

#[test]
fn log_window() {
    assert_eq!(visible_log_range(0, 10, 0), (0, 0));
    assert_eq!(visible_log_range(30, 10, 0), (22, 30));
    assert_eq!(visible_log_range(30, 10, 5), (17, 25));
    assert_eq!(visible_log_range(30, 10, 100), (0, 0));
    assert_eq!(visible_log_range(5, 10, 0), (0, 5));
    assert_eq!(visible_log_range(5, 1, 0), (5, 5));
}

#[test]
fn panel_titles() {
    assert_eq!(scroll_hint(0), " logs ");
    assert_eq!(scroll_hint(15), " logs [↑15 lines] ");
    let mut s = AppState::new("user@myhost".to_string());
    assert_eq!(s.table_title(), " port-shadow — user@myhost — 0 active forward(s) ");
    s.apply(started(3000, 3000, None));
    s.apply(started(5432, 5432, None));
    s.apply(started(9000, 9000, None));
    s.apply(AppEvent::ForwardDied { remote_port: 9000 });
    assert_eq!(s.table_title(), " port-shadow — user@myhost — 2 active forward(s) ");
}

#[test]
fn table_cells() {
    let mut s = AppState::new("h".to_string());
    s.apply(started(8080, 9341, Some("app server")));
    let start = s.forwards()[0].started_at;
    let cells = s.table_cells_at(start + 125 * 1_000_000_000);
    assert_eq!(cells.len(), 1);
    assert_eq!(cells[0], vec![":8080", ":9341", "app server", "active", "2m05s"]);
    s.apply(AppEvent::ForwardStopped { remote_port: 8080, reason: "r".to_string() });
    let cells = s.table_cells_at(start);
    assert_eq!(cells[0][3], "stopped");
    assert_eq!(cells[0][4], "0s");
    assert_eq!(s.table_cells().len(), 1);
}

#[test]
fn log_line_prefixes() {
    let e = LogEntry::at(50581 * 1_000_000_000, LogLevel::Info, "x".to_string());
    assert_eq!(e.prefixes(), ("14:03:01 ".to_string(), "INFO  ".to_string()));
    let e = LogEntry::at(0, LogLevel::Error, "x".to_string());
    assert_eq!(e.prefixes().1, "ERROR ");
    let e = LogEntry::new(LogLevel::Warn, "now".to_string());
    assert_eq!(e.level, LogLevel::Warn);
    assert_eq!(e.message, "now");
    assert_eq!(e.prefixes().1, "WARN  ");
    assert_eq!(ForwardStatus::Active.text(), "active");
}

#[test]
fn events_are_stamped_with_the_given_time() {
    let mut s = AppState::new("h".to_string());
    s.apply_at(started(3000, 3000, None), 7_000_000_000);
    s.apply_at(started(4000, 4001, None), 9_000_000_000);
    assert_eq!(s.forwards()[0].started_at, 7_000_000_000);
    assert_eq!(s.forwards()[1].started_at, 9_000_000_000);
    assert_eq!(s.logs()[0].time, 7_000_000_000);
    assert_eq!(s.logs()[1].time, 9_000_000_000);
    s.apply_at(AppEvent::ForwardStopped { remote_port: 3000, reason: "r".to_string() }, 12_000_000_000);
    assert_eq!(s.forwards()[0].status, ForwardStatus::Stopped);
    assert_eq!(s.forwards()[0].started_at, 7_000_000_000);
    assert_eq!(s.forwards()[1].started_at, 9_000_000_000);
    assert_eq!(s.logs()[2].time, 12_000_000_000);
    s.apply_at(started(3000, 3000, None), 20_000_000_000);
    assert_eq!(s.forwards()[0].started_at, 20_000_000_000);
    assert_eq!(s.forwards()[1].started_at, 9_000_000_000);
    s.on_key(KeyCode::Down, no_mods());
    s.on_key(KeyCode::PageUp, no_mods());
    s.apply_at(AppEvent::Shutdown, 30_000_000_000);
    assert_eq!(s.forwards()[0].started_at, 20_000_000_000);
    assert_eq!(s.forwards()[1].started_at, 9_000_000_000);
    assert_eq!(s.logs()[0].time, 7_000_000_000);
    assert_eq!(s.logs().len(), 4);
    let cells = s.table_cells_at(20_000_000_000 + 65 * 1_000_000_000);
    assert_eq!(cells[0][4], "1m05s");
    assert_eq!(cells[1][4], "1m16s");
}

#[test]
fn pre_epoch_start_times_keep_their_difference() {
    let mut s = AppState::new("h".to_string());
    s.apply_at(started(1, 1, None), -100 * 1_000_000_000);
    let cells = s.table_cells_at(-40 * 1_000_000_000);
    assert_eq!(cells[0][4], "1m00s");
}
