use port_shadow::discovery::parse_listening_ports;
use port_shadow::poll::discovery_command;

#[test]
fn parses_ss_output() {
    let input = r#"
State   Recv-Q  Send-Q  Local Address:Port  Peer Address:Port
LISTEN  0       128     0.0.0.0:22           0.0.0.0:*
LISTEN  0       128     0.0.0.0:3000         0.0.0.0:*
LISTEN  0       128     [::]:8080            [::]:*
"#;
    let ports = parse_listening_ports(input);
    assert!(ports.contains(&22));
    assert!(ports.contains(&3000));
    assert!(ports.contains(&8080));
}

#[test]
fn parses_netstat_output() {
    let input = r#"
Active Internet connections (only servers)
Proto Recv-Q Send-Q Local Address           Foreign Address         State
tcp        0      0 0.0.0.0:22              0.0.0.0:*               LISTEN
tcp        0      0 127.0.0.1:5432          0.0.0.0:*               LISTEN
tcp6       0      0 :::8080                 :::*                    LISTEN
"#;
    let ports = parse_listening_ports(input);
    assert!(ports.contains(&22));
    assert!(ports.contains(&5432));
    assert!(ports.contains(&8080));
}

#[test]
fn parses_exactly_the_reported_ports() {
    let input = "State Recv-Q Send-Q Local:Port Peer\nLISTEN 0 128 0.0.0.0:3000 0.0.0.0:*\nLISTEN 0 128 127.0.0.1:3000 x\n";
    let ports = parse_listening_ports(input);
    assert_eq!(ports.len(), 1);
    assert!(ports.contains(&3000));
}

#[test]
fn empty_and_header_only_output_gives_no_ports() {
    assert!(parse_listening_ports("").is_empty());
    assert!(parse_listening_ports("\n\n   \n").is_empty());
    assert!(parse_listening_ports("State Recv-Q Send-Q 0.0.0.0:22 x\n").is_empty());
    assert!(parse_listening_ports("Proto Recv-Q Send-Q 0.0.0.0:22 x").is_empty());
    assert!(parse_listening_ports("Active a b 0.0.0.0:22").is_empty());
    // A header word only counts at the start of the line.
    assert!(parse_listening_ports("LISTEN State 0 0.0.0.0:22").contains(&22));
}

#[test]
fn short_lines_are_skipped() {
    assert!(parse_listening_ports("LISTEN 0 0.0.0.0:22").is_empty());
    assert!(parse_listening_ports("a b c").is_empty());
}

#[test]
fn port_is_the_text_after_the_last_colon() {
    assert!(parse_listening_ports("a b c 80 d").contains(&80));
    assert!(parse_listening_ports("a b c [::1]:443 d").contains(&443));
    assert!(parse_listening_ports("a b c *:* d").is_empty());
    assert!(parse_listening_ports("a b c 0.0.0.0: d").is_empty());
}

#[test]
fn port_numbers_parse_as_u16() {
    assert!(parse_listening_ports("a b c x:65535").contains(&65535));
    assert!(parse_listening_ports("a b c x:65536").is_empty());
    assert!(parse_listening_ports("a b c x:99999999999").is_empty());
    assert!(parse_listening_ports("a b c x:+80").contains(&80));
    assert!(parse_listening_ports("a b c x:-80").is_empty());
    assert!(parse_listening_ports("a b c x:+").is_empty());
    assert!(parse_listening_ports("a b c x:0080").contains(&80));
    assert!(parse_listening_ports("a b c x:8o").is_empty());
}

#[test]
fn whitespace_of_all_kinds_separates_columns() {
    let ports = parse_listening_ports("\tLISTEN\t0\u{00A0}128\u{3000}0.0.0.0:7000  *\r\nLISTEN 0 1 :::7001 *\r\n");
    assert!(ports.contains(&7000));
    assert!(ports.contains(&7001));
    assert_eq!(ports.len(), 2);
}

#[test]
fn last_line_without_newline_counts() {
    let ports = parse_listening_ports("LISTEN 0 128 0.0.0.0:9000 *\nLISTEN 0 128 0.0.0.0:9001 *");
    assert!(ports.contains(&9000));
    assert!(ports.contains(&9001));
}

#[test]
fn discovery_runs_ss_then_netstat() {
    assert_eq!(
        discovery_command(),
        "ss -tlnp 2>/dev/null || netstat -tlnp 2>/dev/null"
    );
}
