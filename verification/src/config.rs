//! The configuration: what `.port-shadow.toml` holds, its defaults, and how
//! command-line flags override it.
use std::collections::HashSet;
use vstd::prelude::*;

use crate::cli::Cli;
use crate::text::push_str;

verus! {

broadcast use vstd::std_specs::hash::group_hash_axioms;

/// A single port mapping entry from the config file.
#[derive(Debug, Clone)]
pub struct PortMapping {
    /// Port number on the remote host to forward.
    pub remote_port: u16,
    /// Local port to bind. If omitted, defaults to the same as `remote_port`,
    /// falling back to an ephemeral port if the preferred port is occupied.
    pub local_port: Option<u16>,
    /// Human-readable label shown in log output.
    pub label: Option<String>,
}

/// Top-level configuration file schema.
#[derive(Debug, Clone)]
pub struct Config {
    /// SSH connection settings. All fields can be overridden by CLI flags.
    pub ssh: SshConfig,
    /// Ports to forward. Only ports listed here are forwarded (opt-in).
    pub ports: Vec<PortMapping>,
    /// Ports that should never be forwarded even if listed elsewhere.
    pub excluded_ports: Vec<u16>,
}

/// SSH connection settings.
#[derive(Debug, Clone)]
pub struct SshConfig {
    /// SSH destination, e.g. "user@hostname" or just "hostname".
    pub host: Option<String>,
    /// Path to the ControlPath socket for connection multiplexing.
    /// On Windows this is ignored and a fresh connection is made per forward.
    pub control_path: Option<String>,
    /// How often (in seconds) to poll the remote for new listening ports.
    pub poll_interval_secs: u64,
    /// SSH port.
    pub port: u16,
    /// Additional SSH options passed verbatim to the ssh command.
    pub extra_args: Vec<String>,
}

/// Why the configuration cannot be used.
#[derive(Debug, Clone, PartialEq, Eq, Structural)]
pub enum ConfigError {
    /// Neither the command line nor the config file names the SSH host.
    MissingHost,
}

/// Default seconds between two polls.
pub fn default_poll_interval() -> (secs: u64)
    ensures
        secs == 5,
{
    5
}

/// Default SSH port.
pub fn default_ssh_port() -> (port: u16)
    ensures
        port == 22,
{
    22
}

/// Ports excluded by default: SSH's own.
pub fn default_excluded_ports() -> (ports: Vec<u16>)
    ensures
        ports@ == seq![22u16],
{
    let mut v: Vec<u16> = Vec::new();
    v.push(22);
    assert(v@ =~= seq![22u16]);
    v
}

/// The settings an empty `[ssh]` table gives.
impl Default for SshConfig {
    fn default() -> (c: Self)
        ensures
            c.host.is_none(),
            c.control_path.is_none(),
            c.poll_interval_secs == 5,
            c.port == 22,
            c.extra_args@.len() == 0,
    {
        SshConfig {
            host: None,
            control_path: None,
            poll_interval_secs: default_poll_interval(),
            port: default_ssh_port(),
            extra_args: Vec::new(),
        }
    }
}

/// The configuration an empty file gives, and the one used when there is no file.
impl Default for Config {
    fn default() -> (c: Self)
        ensures
            c.ssh.host.is_none(),
            c.ssh.control_path.is_none(),
            c.ssh.poll_interval_secs == 5,
            c.ssh.port == 22,
            c.ssh.extra_args@.len() == 0,
            c.ports@.len() == 0,
            c.excluded_ports@ == seq![22u16],
    {
        Config { ssh: SshConfig::default(), ports: Vec::new(), excluded_ports: default_excluded_ports() }
    }
}

impl PortMapping {
    /// The local port to try first: `local_port` if given, else the remote
    /// port itself (1:1 mapping).
    pub fn preferred_local_port(&self) -> (p: u16)
        ensures
            p == match self.local_port {
                Some(l) => l,
                None => self.remote_port,
            },
    {
        match self.local_port {
            Some(l) => l,
            None => self.remote_port,
        }
    }
}

impl ConfigError {
    /// What to tell the user.
    pub fn message(&self) -> (r: String)
        ensures
            r@ == "SSH host is required. Provide --host or set [ssh] host in .port-shadow.toml"@,
    {
        let mut s = String::new();
        push_str(&mut s, "SSH host is required. Provide --host or set [ssh] host in .port-shadow.toml");
        s
    }
}

impl Config {
    /// Returns the set of excluded ports.
    pub fn excluded_set(&self) -> (s: HashSet<u16>)
        ensures
            s@ == self.excluded_ports@.to_set(),
    {
        let mut s: HashSet<u16> = HashSet::new();
        let mut i: usize = 0;
        while i < self.excluded_ports.len()
            invariant
                i <= self.excluded_ports@.len(),
                s@ == self.excluded_ports@.take(i as int).to_set(),
            decreases self.excluded_ports@.len() - i,
        {
            let ghost before = s@;
            s.insert(self.excluded_ports[i]);
            proof {
                let t = self.excluded_ports@.take(i + 1);
                assert(t.drop_last() =~= self.excluded_ports@.take(i as int));
                assert(t.drop_last().to_set().insert(t.last()) =~= t.to_set());
                assert(s@ =~= t.to_set());
            }
            i = i + 1;
        }
        assert(self.excluded_ports@.take(i as int) =~= self.excluded_ports@);
        s
    }

    /// Applies the command-line flags: each flag that is given replaces the
    /// config file's value.
    pub fn apply_cli_overrides(&mut self, cli: &Cli)
        ensures
            final(self).ssh.host == (match cli.host {
                Some(h) => Some(h),
                None => old(self).ssh.host,
            }),
            final(self).ssh.control_path == (match cli.control_path {
                Some(c) => Some(c),
                None => old(self).ssh.control_path,
            }),
            final(self).ssh.poll_interval_secs == (match cli.poll_interval {
                Some(i) => i,
                None => old(self).ssh.poll_interval_secs,
            }),
            final(self).ssh.port == (match cli.ssh_port {
                Some(p) => p,
                None => old(self).ssh.port,
            }),
            final(self).ssh.extra_args == old(self).ssh.extra_args,
            final(self).ports == old(self).ports,
            final(self).excluded_ports == old(self).excluded_ports,
    {
        match &cli.host {
            Some(h) => {
                self.ssh.host = Some(h.clone());
            },
            None => {},
        }
        match &cli.control_path {
            Some(c) => {
                self.ssh.control_path = Some(c.clone());
            },
            None => {},
        }
        match cli.poll_interval {
            Some(i) => {
                self.ssh.poll_interval_secs = i;
            },
            None => {},
        }
        match cli.ssh_port {
            Some(p) => {
                self.ssh.port = p;
            },
            None => {},
        }
    }

    /// The SSH host, which must be given.
    pub fn required_host(&self) -> (r: Result<String, ConfigError>)
        ensures
            match self.ssh.host {
                Some(h) => r == Ok::<String, ConfigError>(h),
                None => r == Err::<String, ConfigError>(ConfigError::MissingHost),
            },
    {
        match &self.ssh.host {
            Some(h) => Ok(h.clone()),
            None => Err(ConfigError::MissingHost),
        }
    }
}

} // verus!
