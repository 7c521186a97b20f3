use daemonctl::pidparse::accept_resolved_pid;
use daemonctl::pidparse::parse_lsof_listener_pid;
use daemonctl::pidparse::parse_netstat_listener_pid;
use daemonctl::pidparse::parse_port_from_addr_token;
use daemonctl::pidparse::parse_ss_listener_pid;
use daemonctl::pidparse::safe_force_stop_pid;

#[test]
fn safe_force_stop_pid_rejects_reserved_values() {
    assert_eq!(safe_force_stop_pid(0), None);
    assert_eq!(safe_force_stop_pid(1), None);
    assert_eq!(safe_force_stop_pid(2), Some(2));
}

#[test]
fn parses_pid_from_ss_output() {
    let output = r#"State  Recv-Q Send-Q Local Address:Port Peer Address:PortProcess
LISTEN 0      4096   0.0.0.0:4732      0.0.0.0:*    users:(("codex-monitor-da",pid=12345,fd=7))
"#;
    assert_eq!(parse_ss_listener_pid(output, 4732), Some(12345));
    assert_eq!(parse_ss_listener_pid(output, 9000), None);
}

#[test]
fn parses_pid_from_netstat_output() {
    let output = r#"Active Internet connections (only servers)
Proto Recv-Q Send-Q Local Address           Foreign Address         State       PID/Program name
tcp        0      0 0.0.0.0:4732            0.0.0.0:*               LISTEN      6789/codex-monitor-da
"#;
    assert_eq!(parse_netstat_listener_pid(output, 4732), Some(6789));
    assert_eq!(parse_netstat_listener_pid(output, 9000), None);
}

#[test]
fn ss_parser_does_not_match_port_prefix() {
    let output = r#"State  Recv-Q Send-Q Local Address:Port Peer Address:PortProcess
LISTEN 0      4096   0.0.0.0:47320     0.0.0.0:*    users:(("other",pid=45678,fd=7))
"#;
    assert_eq!(parse_ss_listener_pid(output, 4732), None);
}

#[test]
fn netstat_parser_does_not_match_port_prefix() {
    let output = r#"Active Internet connections (only servers)
Proto Recv-Q Send-Q Local Address           Foreign Address         State       PID/Program name
tcp        0      0 0.0.0.0:47320           0.0.0.0:*               LISTEN      8765/other
"#;
    assert_eq!(parse_netstat_listener_pid(output, 4732), None);
}

#[test]
fn lsof_parser_takes_first_plain_pid_line() {
    assert_eq!(parse_lsof_listener_pid("  12345  \n678\n"), Some(12345));
    assert_eq!(parse_lsof_listener_pid("oops\n 42 \n"), Some(42));
    assert_eq!(parse_lsof_listener_pid(""), None);
    assert_eq!(parse_lsof_listener_pid("notapid\n"), None);
}

#[test]
fn addr_token_port_must_be_exact() {
    assert_eq!(parse_port_from_addr_token("0.0.0.0:4732"), Some(4732));
    assert_eq!(parse_port_from_addr_token(" [::]:4545 "), Some(4545));
    assert_eq!(parse_port_from_addr_token("0.0.0.0:47320"), Some(47320));
    assert_eq!(parse_port_from_addr_token("0.0.0.0"), None);
    assert_eq!(parse_port_from_addr_token("0.0.0.0:"), None);
    assert_eq!(parse_port_from_addr_token("0.0.0.0:port"), None);
    assert_eq!(parse_port_from_addr_token("0.0.0.0:65536"), None);
}

#[test]
fn resolved_pid_respects_reserved_and_expected() {
    assert_eq!(accept_resolved_pid(None, None), None);
    assert_eq!(accept_resolved_pid(Some(0), None), None);
    assert_eq!(accept_resolved_pid(Some(1), Some(1)), None);
    assert_eq!(accept_resolved_pid(Some(2), None), Some(2));
    assert_eq!(accept_resolved_pid(Some(2), Some(2)), Some(2));
    assert_eq!(accept_resolved_pid(Some(2), Some(3)), None);
}

#[test]
fn ss_parser_skips_lines_without_listen_state() {
    let output = "ESTAB 0 0 0.0.0.0:4732 0.0.0.0:* users:((\"x\",pid=1111,fd=7))\n";
    assert_eq!(parse_ss_listener_pid(output, 4732), None);
}
