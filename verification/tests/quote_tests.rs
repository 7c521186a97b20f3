use daemonctl::quote::daemon_command_preview;
use daemonctl::quote::daemon_spawn_args;
use daemonctl::quote::shell_quote;
use daemonctl::quote::shell_unquote;

#[test]
fn shell_quote_handles_single_quotes() {
    let rendered = shell_quote("abc'def", false);
    assert_eq!(rendered, "'abc'\"'\"'def'");
}

#[test]
fn shell_quote_handles_double_quotes() {
    let rendered = shell_quote("abc\"def", false);
    assert_eq!(rendered, "'abc\"def'");
}

#[test]
fn shell_quote_windows_escapes_double_quotes() {
    assert_eq!(shell_quote("abc\"def", true), "\"abc\\\"def\"");
    assert_eq!(shell_quote("abc'def", true), "\"abc'def\"");
    assert_eq!(shell_quote("", true), "\"\"");
    assert_eq!(shell_quote("", false), "''");
}

#[test]
fn shell_quote_round_trips_embedded_quotes() {
    let cases = ["abc'def", "abc\"def", "", "a\\\"b", "it's \"fine\"", "trailing\\"];
    for case in cases {
        let posix = shell_quote(case, false);
        assert_eq!(shell_unquote(&posix, false).as_deref(), Some(case));
        let windows = shell_quote(case, true);
        assert_eq!(shell_unquote(&windows, true).as_deref(), Some(case));
    }
}

#[test]
fn shell_unquote_rejects_malformed_input() {
    assert_eq!(shell_unquote("abc", false), None);
    assert_eq!(shell_unquote("'a'b'", false), None);
    assert_eq!(shell_unquote("\"a\"b\"", true), None);
}

#[test]
fn command_preview_renders_quoted_words() {
    let preview = daemon_command_preview(
        "/opt/bin/daemon",
        "/data dir",
        true,
        "0.0.0.0:4732",
        false,
        false,
    );
    assert_eq!(
        preview.command,
        "'/opt/bin/daemon' '--listen' '0.0.0.0:4732' '--data-dir' '/data dir' '--token' '<remote-backend-token>'"
    );
    assert_eq!(preview.daemon_path, "/opt/bin/daemon");
    assert!(preview.token_configured);
    assert_eq!(
        preview.args,
        vec![
            "--listen".to_string(),
            "0.0.0.0:4732".to_string(),
            "--data-dir".to_string(),
            "/data dir".to_string(),
            "--token".to_string(),
            "<remote-backend-token>".to_string(),
        ]
    );
}

#[test]
fn command_preview_no_auth_omits_token() {
    let preview = daemon_command_preview("/bin/d", "/d", false, "0.0.0.0:1", true, false);
    assert_eq!(
        preview.args,
        vec![
            "--listen".to_string(),
            "0.0.0.0:1".to_string(),
            "--data-dir".to_string(),
            "/d".to_string(),
            "--insecure-no-auth".to_string(),
        ]
    );
}

#[test]
fn spawn_args_require_token_unless_opted_out() {
    let args = daemon_spawn_args("0.0.0.0:4732", "/data", Some("secret"), false).expect("token");
    assert_eq!(args[4], "--token");
    assert_eq!(args[5], "secret");
    let args = daemon_spawn_args("0.0.0.0:4732", "/data", None, true).expect("no auth");
    assert_eq!(args[4], "--insecure-no-auth");
    let err = daemon_spawn_args("0.0.0.0:4732", "/data", None, false).expect_err("owed");
    assert_eq!(err, "Missing remote backend token");
}
