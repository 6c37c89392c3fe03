//! Events that the polling loop hands to the user interface, and the log
//! entries that the interface keeps.
use vstd::prelude::*;

verus! {

/// Reads the system clock (`std::time::SystemTime::now`) and gives the time
/// relative to the UNIX epoch in nanoseconds: negative for a clock set before
/// the epoch (the distance that `duration_since` reports as its error).
/// Nothing is stated of the value: it is whatever the clock reads.
#[verifier::external_body]
pub(crate) fn clock_nanos() -> i128 {
    match std::time::SystemTime::now().duration_since(std::time::UNIX_EPOCH) {
        Ok(d) => d.as_nanos() as i128,
        Err(e) => -(e.duration().as_nanos() as i128),
    }
}

/// Events produced by the polling loop and consumed by the interface state.
#[derive(Debug, Clone)]
pub enum AppEvent {
    /// A new port forward has been established.
    ForwardStarted { remote_port: u16, local_port: u16, label: Option<String> },
    /// A port forward was torn down (remote stopped listening or config removed).
    ForwardStopped { remote_port: u16, reason: String },
    /// A poll cycle completed successfully.
    PollOk { discovered: usize },
    /// A poll cycle failed.
    PollError { message: String },
    /// An `ssh -L` process died unexpectedly.
    ForwardDied { remote_port: u16 },
    /// Generic log message.
    Log { level: LogLevel, message: String },
    /// Clean shutdown was requested.
    Shutdown,
}

/// Severity of a log entry.
#[derive(Debug, Clone, Copy, PartialEq, Eq, Structural)]
pub enum LogLevel {
    Info,
    Warn,
    Error,
}

/// A timestamped log entry stored in the log panel.
#[derive(Debug, Clone)]
pub struct LogEntry {
    /// When the entry was made, in nanoseconds from the UNIX epoch.
    pub time: i128,
    pub level: LogLevel,
    pub message: String,
}

/// What a log entry says, and when.
pub struct LogView {
    pub level: LogLevel,
    pub message: Seq<char>,
    pub time: i128,
}

impl View for LogEntry {
    type V = LogView;

    open spec fn view(&self) -> LogView {
        LogView { level: self.level, message: self.message@, time: self.time }
    }
}

impl LogEntry {
    /// An entry made now, with the given level and message.
    pub fn new(level: LogLevel, message: String) -> (e: Self)
        ensures
            e.level == level,
            e.message == message,
    {
        Self::at(clock_nanos(), level, message)
    }

    /// An entry made at `time` (nanoseconds from the UNIX epoch).
    pub fn at(time: i128, level: LogLevel, message: String) -> (e: Self)
        ensures
            e.time == time,
            e.level == level,
            e.message == message,
    {
        LogEntry { time, level, message }
    }
}

} // verus!
