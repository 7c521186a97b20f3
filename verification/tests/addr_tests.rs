use daemonctl::addr::daemon_connect_addr;
use daemonctl::addr::daemon_listen_addr;
use daemonctl::addr::local_listener_port;
use daemonctl::addr::parse_port_from_remote_host;
use daemonctl::addr::parse_sock_addr;
use daemonctl::addr::trim_non_empty;
use daemonctl::settings::resolve_listen_addr;

#[test]
fn parses_listen_port_from_host() {
    assert_eq!(parse_port_from_remote_host("100.100.100.1:4732"), Some(4732));
    assert_eq!(parse_port_from_remote_host("[fd7a:115c:a1e0::1]:4545"), Some(4545));
    assert_eq!(parse_port_from_remote_host("fd7a:115c:a1e0::1"), None);
    assert_eq!(parse_port_from_remote_host("fd7a:115c:a1e0::1:4732"), None);
    assert_eq!(parse_port_from_remote_host("example.ts.net"), None);
}

#[test]
fn builds_listen_addr_with_fallback_port() {
    assert_eq!(daemon_listen_addr("mac.example.ts.net:8888"), "0.0.0.0:8888");
    assert_eq!(daemon_listen_addr("mac.example.ts.net"), "0.0.0.0:4732");
}

#[test]
fn connect_addr_keeps_non_loopback_host() {
    assert_eq!(
        daemon_connect_addr("100.101.102.103:4732").as_deref(),
        Some("100.101.102.103:4732")
    );
}

#[test]
fn connect_addr_maps_unspecified_hosts_to_loopback() {
    assert_eq!(daemon_connect_addr("0.0.0.0:4732").as_deref(), Some("127.0.0.1:4732"));
    assert_eq!(daemon_connect_addr("[::]:4732").as_deref(), Some("[::1]:4732"));
}

#[test]
fn local_listener_port_allows_local_addresses_only() {
    assert_eq!(local_listener_port("127.0.0.1:4732"), Some(4732));
    assert_eq!(local_listener_port("[::1]:4732"), Some(4732));
    assert_eq!(local_listener_port("0.0.0.0:4732"), Some(4732));
    assert_eq!(local_listener_port("[::]:4732"), Some(4732));
    assert_eq!(local_listener_port("192.168.1.42:4732"), None);
    assert_eq!(local_listener_port("100.64.0.1:4732"), None);
}

#[test]
fn listen_addr_works_without_settings() {
    assert_eq!(resolve_listen_addr(None, None).expect("default listen addr"), "0.0.0.0:4732");
    assert_eq!(
        resolve_listen_addr(Some("127.0.0.1:9999"), None).expect("override listen addr"),
        "127.0.0.1:9999"
    );
}

#[test]
fn connect_addr_is_idempotent_on_examples() {
    let first = daemon_connect_addr("0.0.0.0:4732").expect("wildcard maps");
    let second = daemon_connect_addr(&first).expect("loopback stays valid");
    assert_eq!(first, second);
    let first = daemon_connect_addr("[::]:8080").expect("wildcard maps");
    let second = daemon_connect_addr(&first).expect("loopback stays valid");
    assert_eq!(first, second);
    let first = daemon_connect_addr("100.101.102.103:4732").expect("pass through");
    let second = daemon_connect_addr(&first).expect("pass through again");
    assert_eq!(first, second);
}

#[test]
fn connect_addr_rejects_invalid_addresses() {
    assert_eq!(daemon_connect_addr("not-an-address"), None);
    assert_eq!(daemon_connect_addr("0.0.0.0"), None);
    assert_eq!(daemon_connect_addr("[::1]"), None);
    assert_eq!(daemon_connect_addr("1.2.3.4:99999"), None);
    assert_eq!(daemon_connect_addr("01.2.3.4:80"), None);
    assert_eq!(daemon_connect_addr("1.2.3.4.5:80"), None);
    assert_eq!(daemon_connect_addr("[1::2::3]:80"), None);
}

#[test]
fn sock_addr_parser_reads_families_and_flags() {
    let a = parse_sock_addr("0.0.0.0:4732").expect("v4 wildcard");
    assert!(!a.v6 && a.unspecified && !a.loopback && a.port == 4732);
    let a = parse_sock_addr("127.9.8.7:1").expect("v4 loopback net");
    assert!(!a.v6 && !a.unspecified && a.loopback && a.port == 1);
    let a = parse_sock_addr("[::]:65535").expect("v6 wildcard");
    assert!(a.v6 && a.unspecified && !a.loopback && a.port == 65535);
    let a = parse_sock_addr("[::1]:80").expect("v6 loopback");
    assert!(a.v6 && !a.unspecified && a.loopback && a.port == 80);
    let a = parse_sock_addr("[fd7a:115c:a1e0::1]:4545").expect("v6 host");
    assert!(a.v6 && !a.unspecified && !a.loopback && a.port == 4545);
    assert!(parse_sock_addr("[0:0:0:0:0:0:0:1]:80").expect("full form").loopback);
    assert!(parse_sock_addr("[1:2:3:4:5:6:7:8]:80").is_some());
    assert!(parse_sock_addr("[1:2:3:4:5:6:7:8:9]:80").is_none());
    assert!(parse_sock_addr("[12345::1]:80").is_none());
}

#[test]
fn trim_non_empty_drops_blanks() {
    assert_eq!(trim_non_empty(Some("  x  ")), Some("x".to_string()));
    assert_eq!(trim_non_empty(Some("   ")), None);
    assert_eq!(trim_non_empty(None), None);
}

#[test]
fn invalid_listen_argument_is_a_config_error() {
    let err = resolve_listen_addr(Some("bogus"), None).expect_err("must fail");
    assert_eq!(err, "Invalid --listen address `bogus`: invalid socket address syntax");
}
