use port_shadow::cli::Cli;
use port_shadow::config::{
    default_excluded_ports, default_poll_interval, default_ssh_port, Config, ConfigError,
    PortMapping, SshConfig,
};

fn cli() -> Cli {
    Cli {
        host: None,
        control_path: None,
        poll_interval: None,
        ssh_port: None,
        config: None,
        verbose: 0,
        tui: false,
    }
}

#[test]
fn documented_defaults() {
    assert_eq!(default_poll_interval(), 5);
    assert_eq!(default_ssh_port(), 22);
    assert_eq!(default_excluded_ports(), vec![22]);
    let c = Config::default();
    assert_eq!(c.ssh.poll_interval_secs, 5);
    assert_eq!(c.ssh.port, 22);
    assert!(c.ssh.host.is_none());
    assert!(c.ssh.control_path.is_none());
    assert!(c.ssh.extra_args.is_empty());
    assert!(c.ports.is_empty());
    assert_eq!(c.excluded_ports, vec![22]);
    let s = SshConfig::default();
    assert_eq!(s.poll_interval_secs, 5);
    assert_eq!(s.port, 22);
}

#[test]
fn excluded_set_holds_the_excluded_ports() {
    let mut c = Config::default();
    c.excluded_ports = vec![22, 2222, 22];
    let s = c.excluded_set();
    assert_eq!(s.len(), 2);
    assert!(s.contains(&22));
    assert!(s.contains(&2222));
    c.excluded_ports = vec![];
    assert!(c.excluded_set().is_empty());
}

#[test]
fn cli_flags_take_precedence() {
    let mut c = Config::default();
    c.ssh.host = Some("file@host".to_string());
    c.ssh.control_path = Some("/tmp/file.sock".to_string());
    c.ssh.poll_interval_secs = 9;
    c.ssh.port = 2200;
    let mut flags = cli();
    flags.host = Some("cli@host".to_string());
    flags.poll_interval = Some(1);
    c.apply_cli_overrides(&flags);
    assert_eq!(c.ssh.host.as_deref(), Some("cli@host"));
    assert_eq!(c.ssh.control_path.as_deref(), Some("/tmp/file.sock"));
    assert_eq!(c.ssh.poll_interval_secs, 1);
    assert_eq!(c.ssh.port, 2200);

    let mut flags = cli();
    flags.control_path = Some("/tmp/cli.sock".to_string());
    flags.ssh_port = Some(2022);
    c.apply_cli_overrides(&flags);
    assert_eq!(c.ssh.host.as_deref(), Some("cli@host"));
    assert_eq!(c.ssh.control_path.as_deref(), Some("/tmp/cli.sock"));
    assert_eq!(c.ssh.port, 2022);
}

#[test]
fn host_is_required() {
    let mut c = Config::default();
    let err = c.required_host().unwrap_err();
    assert_eq!(err, ConfigError::MissingHost);
    assert_eq!(
        err.message(),
        "SSH host is required. Provide --host or set [ssh] host in .port-shadow.toml"
    );
    c.ssh.host = Some("user@myhost".to_string());
    assert_eq!(c.required_host().unwrap(), "user@myhost");
}

#[test]
fn local_port_defaults_to_remote_port() {
    let m = PortMapping { remote_port: 3000, local_port: None, label: None };
    assert_eq!(m.preferred_local_port(), 3000);
    let m = PortMapping { remote_port: 8080, local_port: Some(9341), label: None };
    assert_eq!(m.preferred_local_port(), 9341);
}

#[test]
fn verbosity_selects_log_filter() {
    let mut flags = cli();
    assert_eq!(flags.log_filter(), "port_shadow=info");
    flags.verbose = 1;
    assert_eq!(flags.log_filter(), "port_shadow=debug");
    flags.verbose = 2;
    assert_eq!(flags.log_filter(), "port_shadow=trace");
    flags.verbose = 7;
    assert_eq!(flags.log_filter(), "port_shadow=trace");
}
