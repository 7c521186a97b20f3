use daemonctl::ident::daemon_restart_reason;
use daemonctl::ident::is_auth_error_message;
use daemonctl::ident::is_managed_daemon;
use daemonctl::ident::can_force_stop_daemon;
use daemonctl::ident::should_restart_daemon;
use daemonctl::ident::DaemonInfo;
use daemonctl::mcp::is_known_server_key;
use daemonctl::mcp::normalize_optional_string;
use daemonctl::mcp::normalize_server_name;
use daemonctl::mcp::validate_connection_shape;
use daemonctl::settings::load_settings;
use daemonctl::settings::normalize_personality;
use daemonctl::settings::reconcile_managed_config_fields;
use daemonctl::settings::resolve_token;
use daemonctl::settings::AppSettings;
use daemonctl::settings::CodexConfigValues;
use daemonctl::usagestats::path_matches_workspace;
use daemonctl::usagestats::sanitize_thread_ids;
use daemonctl::usagestats::ThreadUsageAggregate;
use daemonctl::usagestats::ThreadUsageUpdate;
use daemonctl::usagestats::UsageValues;
use daemonctl::wire::build_request_line;
use daemonctl::wire::daemon_info_from_fields;
use daemonctl::wire::expect_result;
use daemonctl::wire::json_parse_line;
use daemonctl::wire::parse_daemon_info;
use daemonctl::wire::response_line_step;
use daemonctl::wire::split_response;
use daemonctl::wire::LineStep;
use daemonctl::wire::RpcParams;

fn info(name: &str, version: &str, mode: &str) -> DaemonInfo {
    DaemonInfo {
        name: name.to_string(),
        version: version.to_string(),
        pid: None,
        mode: mode.to_string(),
        binary_path: None,
    }
}

#[test]
fn restart_decision_checks_name_version_and_mode() {
    assert!(should_restart_daemon(None));
    assert!(should_restart_daemon(Some(&info("other", "0.1.0", "tcp"))));
    assert!(should_restart_daemon(Some(&info("codex-monitor-daemon", "0.0.9", "tcp"))));
    assert!(should_restart_daemon(Some(&info("codex-monitor-daemon", "0.1.0", "ws"))));
    assert!(!should_restart_daemon(Some(&info("codex-monitor-daemon", "0.1.0", "tcp"))));
}

#[test]
fn restart_reason_names_the_first_mismatch() {
    assert_eq!(
        daemon_restart_reason(None),
        "Daemon is running but did not report identity/version metadata"
    );
    assert_eq!(
        daemon_restart_reason(Some(&info("imposter", "0.1.0", "tcp"))),
        "Daemon identity mismatch (`imposter`)"
    );
    assert_eq!(
        daemon_restart_reason(Some(&info("codex-monitor-daemon", "9.9.9", "tcp"))),
        "Daemon version 9.9.9 is different from app version 0.1.0"
    );
    assert_eq!(
        daemon_restart_reason(Some(&info("codex-monitor-daemon", "0.1.0", "ws"))),
        "Daemon mode `ws` does not match expected `tcp`"
    );
    assert_eq!(
        daemon_restart_reason(Some(&info("codex-monitor-daemon", "0.1.0", "tcp"))),
        "Daemon restart required"
    );
}

#[test]
fn ownership_gate_requires_auth_and_managed_name() {
    let ours = info("codex-monitor-daemon", "9.9.9", "tcp");
    let foreign = info("other", "0.1.0", "tcp");
    assert!(can_force_stop_daemon(true, Some(&ours)));
    assert!(!can_force_stop_daemon(false, Some(&ours)));
    assert!(!can_force_stop_daemon(true, Some(&foreign)));
    assert!(!can_force_stop_daemon(true, None));
    assert!(is_managed_daemon(&ours));
    assert!(!is_managed_daemon(&foreign));
}

#[test]
fn auth_error_detection_is_case_insensitive_substring() {
    assert!(is_auth_error_message("UNAUTHORIZED"));
    assert!(is_auth_error_message("request was Unauthorized today"));
    assert!(is_auth_error_message("bad: Invalid Token supplied"));
    assert!(!is_auth_error_message("connection reset by peer"));
    assert!(!is_auth_error_message("invalid toke"));
}

#[test]
fn request_lines_are_exact_json() {
    assert_eq!(
        build_request_line(1, "ping", &RpcParams::Empty),
        "{\"id\":1,\"method\":\"ping\",\"params\":{}}\n"
    );
    assert_eq!(
        build_request_line(10, "auth", &RpcParams::Token("se\"cret\\".to_string())),
        "{\"id\":10,\"method\":\"auth\",\"params\":{\"token\":\"se\\\"cret\\\\\"}}\n"
    );
    assert_eq!(
        build_request_line(3, "daemon_shutdown", &RpcParams::Token("a\nb".to_string())),
        "{\"id\":3,\"method\":\"daemon_shutdown\",\"params\":{\"token\":\"a\\nb\"}}\n"
    );
    // The line round-trips through the JSON parser with the same fields.
    let line = build_request_line(7, "ping", &RpcParams::Token("t\u{1}x".to_string()));
    let (_, id) = json_parse_line(line.trim_end()).expect("well-formed");
    assert_eq!(id, Some(7));
    assert!(matches!(response_line_step(&line, 7), LineStep::Matched(_)));
    assert!(matches!(response_line_step(&line, 8), LineStep::OtherId));
}

#[test]
fn response_lines_are_classified_by_id() {
    assert!(matches!(response_line_step("   ", 1), LineStep::SkipBlank));
    assert!(matches!(response_line_step("not json", 1), LineStep::Malformed(_)));
    assert!(matches!(response_line_step("{\"id\":2,\"result\":true}", 1), LineStep::OtherId));
    assert!(matches!(response_line_step("{\"result\":true}", 1), LineStep::OtherId));
    match response_line_step("{\"id\":1,\"error\":{\"message\":\"unauthorized\"}}", 1) {
        LineStep::Matched(v) => {
            assert_eq!(split_response(&v).expect_err("remote error"), "unauthorized");
        },
        _ => panic!("expected a match"),
    }
    match response_line_step("{\"id\":1,\"result\":{}}", 1) {
        LineStep::Matched(v) => {
            assert!(split_response(&v).is_ok());
        },
        _ => panic!("expected a match"),
    }
    match response_line_step("{\"id\":1}", 1) {
        LineStep::Matched(v) => {
            assert_eq!(
                split_response(&v).expect_err("no result"),
                "daemon response missing result"
            );
        },
        _ => panic!("expected a match"),
    }
}

#[test]
fn daemon_info_fields_are_trimmed_and_required() {
    let (v, _) = json_parse_line(
        "{\"name\":\" codex-monitor-daemon \",\"version\":\"0.1.0\",\"mode\":\"tcp\",\"pid\":42,\"binaryPath\":\" /bin/d \"}",
    )
    .expect("well-formed");
    let parsed = parse_daemon_info(&v).expect("complete info");
    assert_eq!(parsed.name, "codex-monitor-daemon");
    assert_eq!(parsed.version, "0.1.0");
    assert_eq!(parsed.mode, "tcp");
    assert_eq!(parsed.pid, Some(42));
    assert_eq!(parsed.binary_path.as_deref(), Some("/bin/d"));
    let (v, _) = json_parse_line("{\"version\":\"0.1.0\",\"mode\":\"tcp\"}").expect("well-formed");
    assert_eq!(parse_daemon_info(&v).expect_err("no name"), "daemon_info missing `name`");
    let (v, _) = json_parse_line("{\"name\":\"  \",\"version\":\"1\",\"mode\":\"tcp\"}").expect("ok");
    assert_eq!(parse_daemon_info(&v).expect_err("blank name"), "daemon_info missing `name`");
}

#[test]
fn settings_snapshot_supplies_host_and_token() {
    let settings = load_settings(Some(
        "{\"remoteBackendHost\":\"mac.example.ts.net:8888\",\"remoteBackendToken\":\" tok \"}",
    ))
    .expect("snapshot");
    assert_eq!(settings.remote_backend_host, "mac.example.ts.net:8888");
    assert_eq!(settings.remote_backend_token.as_deref(), Some(" tok "));
    assert_eq!(resolve_token(None, None, Some(&settings)).as_deref(), Some("tok"));
    assert_eq!(resolve_token(Some(" flag "), None, Some(&settings)).as_deref(), Some("flag"));
    assert_eq!(resolve_token(None, Some("env"), Some(&settings)).as_deref(), Some("env"));
    assert_eq!(resolve_token(Some("  "), Some("  "), None), None);
    assert_eq!(load_settings(Some("not json")), None);
    assert_eq!(load_settings(None), None);
}

#[test]
fn personality_values_are_normalized() {
    assert_eq!(normalize_personality(" friendly "), Some("friendly"));
    assert_eq!(normalize_personality("pragmatic"), Some("pragmatic"));
    assert_eq!(normalize_personality("grumpy"), None);
    assert_eq!(normalize_personality(""), None);
}

#[test]
fn unchanged_fields_follow_the_configuration_file() {
    let previous = AppSettings {
        remote_backend_host: "h".to_string(),
        remote_backend_token: None,
        collaboration_modes_enabled: false,
        steer_enabled: false,
        unified_exec_enabled: true,
        experimental_apps_enabled: false,
        personality: "friendly".to_string(),
    };
    let mut next = AppSettings { steer_enabled: true, ..previous.clone() };
    let disk = CodexConfigValues {
        collaboration_modes_enabled: Some(true),
        steer_enabled: Some(false),
        unified_exec_enabled: None,
        apps_enabled: Some(true),
        personality: Some(Some("pragmatic".to_string())),
    };
    reconcile_managed_config_fields(&previous, &mut next, &disk);
    // Unchanged fields take the file's value; the caller's change wins.
    assert!(next.collaboration_modes_enabled);
    assert!(next.steer_enabled);
    assert!(next.unified_exec_enabled);
    assert!(next.experimental_apps_enabled);
    assert_eq!(next.personality, "pragmatic");
}

#[test]
fn server_names_follow_the_grammar() {
    assert_eq!(normalize_server_name("  tool-1.v2_x  "), Ok("tool-1.v2_x".to_string()));
    assert_eq!(normalize_server_name("   "), Err("MCP server name is required".to_string()));
    let long = "a".repeat(65);
    assert_eq!(
        normalize_server_name(&long),
        Err("MCP server name must be 64 characters or fewer".to_string())
    );
    assert_eq!(
        normalize_server_name("a b"),
        Err("MCP server name must not contain spaces".to_string())
    );
    assert_eq!(
        normalize_server_name("a/b"),
        Err("MCP server name must use only letters, digits, '.', '_' or '-'".to_string())
    );
}

#[test]
fn connection_shape_requires_command_or_url() {
    let none: Vec<String> = Vec::new();
    let no_env: Vec<(String, String)> = Vec::new();
    assert_eq!(
        validate_connection_shape(None, None, &none, &no_env),
        Err("Set either command or url for the MCP server".to_string())
    );
    assert!(validate_connection_shape(Some("cmd"), None, &none, &no_env).is_ok());
    assert!(validate_connection_shape(None, Some("https://x"), &none, &no_env).is_ok());
    let args = vec!["--x".to_string()];
    assert_eq!(
        validate_connection_shape(None, Some("https://x"), &args, &no_env),
        Err("args requires command".to_string())
    );
    let env = vec![("K".to_string(), "V".to_string())];
    assert_eq!(
        validate_connection_shape(None, Some("https://x"), &none, &env),
        Err("env requires command".to_string())
    );
    assert_eq!(
        validate_connection_shape(Some("  "), None, &none, &no_env),
        Err("Set either command or url for the MCP server".to_string())
    );
}

#[test]
fn optional_strings_and_known_keys() {
    assert_eq!(normalize_optional_string(Some("  x ".to_string())), Some("x".to_string()));
    assert_eq!(normalize_optional_string(Some("   ".to_string())), None);
    assert_eq!(normalize_optional_string(None), None);
    assert!(is_known_server_key("enabled"));
    assert!(is_known_server_key("headers"));
    assert!(!is_known_server_key("Enabled"));
    assert!(!is_known_server_key("extra"));
}

#[test]
fn thread_ids_are_trimmed_and_deduplicated() {
    let ids = vec![
        " a ".to_string(),
        "".to_string(),
        "b".to_string(),
        "a".to_string(),
        "  ".to_string(),
        "c".to_string(),
    ];
    assert_eq!(sanitize_thread_ids(ids), vec!["a".to_string(), "b".to_string(), "c".to_string()]);
}

#[test]
fn workspace_match_requires_a_component_boundary() {
    assert!(path_matches_workspace("/tmp/project", "/tmp/project"));
    assert!(path_matches_workspace("/tmp/project/sub", "/tmp/project"));
    assert!(!path_matches_workspace("/tmp/project-two", "/tmp/project"));
    assert!(!path_matches_workspace("/tmp/other", "/tmp/project"));
}

#[test]
fn usage_aggregate_keeps_totals_and_latest_reading() {
    let mut aggregate = ThreadUsageAggregate::default();
    let first = ThreadUsageUpdate {
        total_delta: UsageValues {
            total_tokens: 15,
            input_tokens: 10,
            cached_input_tokens: 0,
            output_tokens: 5,
            reasoning_output_tokens: 2,
        },
        last: UsageValues {
            total_tokens: 15,
            input_tokens: 10,
            cached_input_tokens: 0,
            output_tokens: 5,
            reasoning_output_tokens: 2,
        },
        model_context_window: Some(200000),
        timestamp_ms: 100,
    };
    aggregate.absorb(first);
    let second = ThreadUsageUpdate {
        total_delta: UsageValues {
            total_tokens: 3,
            input_tokens: 2,
            cached_input_tokens: 0,
            output_tokens: 1,
            reasoning_output_tokens: 0,
        },
        last: UsageValues {
            total_tokens: 3,
            input_tokens: 2,
            cached_input_tokens: 0,
            output_tokens: 1,
            reasoning_output_tokens: 0,
        },
        model_context_window: None,
        timestamp_ms: 200,
    };
    aggregate.absorb(second);
    let snapshot = aggregate.into_snapshot();
    assert_eq!(snapshot.total.total_tokens, 18);
    assert_eq!(snapshot.total.input_tokens, 12);
    assert_eq!(snapshot.total.output_tokens, 6);
    assert_eq!(snapshot.last.input_tokens, 2);
    assert_eq!(snapshot.last.output_tokens, 1);
    assert_eq!(snapshot.model_context_window, Some(200000));
}

#[test]
fn saturating_delta_never_goes_negative() {
    let newer = UsageValues {
        total_tokens: 18,
        input_tokens: 12,
        cached_input_tokens: 0,
        output_tokens: 6,
        reasoning_output_tokens: 2,
    };
    let older = UsageValues {
        total_tokens: 15,
        input_tokens: 13,
        cached_input_tokens: 0,
        output_tokens: 5,
        reasoning_output_tokens: 2,
    };
    let delta = newer.saturating_delta(older);
    assert_eq!(delta.total_tokens, 3);
    assert_eq!(delta.input_tokens, 0);
    assert_eq!(delta.output_tokens, 1);
    assert!(newer.is_zero() == false);
    assert!(UsageValues::default().is_zero());
}

#[test]
fn daemon_info_decision_names_the_first_missing_field() {
    let ok = daemon_info_from_fields(
        Some(" d ".to_string()),
        Some("1.0".to_string()),
        Some(" tcp ".to_string()),
        Some(7),
        Some("  ".to_string()),
    )
    .expect("complete");
    assert_eq!(ok.name, "d");
    assert_eq!(ok.version, "1.0");
    assert_eq!(ok.mode, "tcp");
    assert_eq!(ok.pid, Some(7));
    assert_eq!(ok.binary_path, None);
    assert_eq!(
        daemon_info_from_fields(None, None, None, None, None).expect_err("no name"),
        "daemon_info missing `name`"
    );
    assert_eq!(
        daemon_info_from_fields(Some("d".to_string()), Some(" ".to_string()), None, None, None)
            .expect_err("blank version"),
        "daemon_info missing `version`"
    );
    assert_eq!(
        daemon_info_from_fields(Some("d".to_string()), Some("1".to_string()), None, None, None)
            .expect_err("no mode"),
        "daemon_info missing `mode`"
    );
    // A pid too large for the field is dropped, not an error.
    let big = daemon_info_from_fields(
        Some("d".to_string()),
        Some("1".to_string()),
        Some("tcp".to_string()),
        Some(0x1_0000_0000),
        None,
    )
    .expect("complete");
    assert_eq!(big.pid, None);
}

#[test]
fn result_splitting_prefers_the_error_message() {
    let (v, _) = json_parse_line("{\"ok\":true}").expect("well-formed");
    let err = expect_result(Some("denied".to_string()), Some(v)).expect_err("error wins");
    assert_eq!(err, "denied");
    let (v, _) = json_parse_line("{\"ok\":true}").expect("well-formed");
    assert!(expect_result(None, Some(v)).is_ok());
    assert_eq!(
        expect_result(None, None).expect_err("nothing to return"),
        "daemon response missing result"
    );
}
