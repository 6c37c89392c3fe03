//! The command-line flags.
use vstd::prelude::*;

use crate::text::push_str;

verus! {

/// The command-line flags of `port-shadow`. Each flag that is given
/// overrides the config file's value.
#[derive(Debug, Clone)]
pub struct Cli {
    /// SSH destination, e.g. "user@hostname".
    pub host: Option<String>,
    /// Path to the SSH ControlPath socket (Unix only).
    pub control_path: Option<String>,
    /// How often to poll the remote for changes (seconds).
    pub poll_interval: Option<u64>,
    /// SSH port on the remote host.
    pub ssh_port: Option<u16>,
    /// Path to the config file, or to the directory that holds it.
    pub config: Option<String>,
    /// Log verbosity: how many times `-v` was given.
    pub verbose: u8,
    /// Whether the terminal user interface was asked for.
    pub tui: bool,
}

/// The log level that a verbosity selects.
pub open spec fn level_name(verbose: u8) -> Seq<char> {
    if verbose == 0 {
        "info"@
    } else if verbose == 1 {
        "debug"@
    } else {
        "trace"@
    }
}

impl Cli {
    /// The log filter used unless the environment sets one:
    /// `port_shadow=info`, `=debug` with `-v`, `=trace` with `-vv` or more.
    pub fn log_filter(&self) -> (r: String)
        ensures
            r@ == "port_shadow="@ + level_name(self.verbose),
    {
        let mut s = String::new();
        push_str(&mut s, "port_shadow=");
        if self.verbose == 0 {
            push_str(&mut s, "info");
        } else if self.verbose == 1 {
            push_str(&mut s, "debug");
        } else {
            push_str(&mut s, "trace");
        }
        s
    }
}

} // verus!
