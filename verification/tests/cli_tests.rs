use daemonctl::cli::parse_cli_args;
use daemonctl::cli::CliCommand;
use daemonctl::cli::ParsedCli;

fn argv(parts: &[&str]) -> Vec<String> {
    parts.iter().map(|p| p.to_string()).collect()
}

#[test]
fn cli_parses_subcommand_and_flags() {
    let parsed = parse_cli_args(&argv(&[
        "start",
        "--listen",
        " 0.0.0.0:4732 ",
        "--token",
        "tok",
        "--data-dir",
        "/data",
        "--daemon-path",
        "/bin/daemon",
        "--json",
    ]))
    .expect("parses");
    let args = match parsed {
        ParsedCli::Run(args) => args,
        ParsedCli::Help => panic!("not a help request"),
    };
    assert_eq!(args.command, CliCommand::Start);
    assert_eq!(args.listen.as_deref(), Some("0.0.0.0:4732"));
    assert_eq!(args.token.as_deref(), Some("tok"));
    assert_eq!(args.data_dir.as_deref(), Some("/data"));
    assert_eq!(args.daemon_path.as_deref(), Some("/bin/daemon"));
    assert!(args.json);
    assert!(!args.insecure_no_auth);
}

#[test]
fn cli_no_auth_opt_in_clears_the_token() {
    let parsed = parse_cli_args(&argv(&["stop", "--token", "tok", "--insecure-no-auth"]))
        .expect("parses");
    let args = match parsed {
        ParsedCli::Run(args) => args,
        ParsedCli::Help => panic!("not a help request"),
    };
    assert_eq!(args.command, CliCommand::Stop);
    assert_eq!(args.token, None);
    assert!(args.insecure_no_auth);
}

#[test]
fn cli_rejects_unknown_and_incomplete_input() {
    let err = parse_cli_args(&argv(&[])).expect_err("no command");
    assert!(err.starts_with("USAGE:"));
    let err = parse_cli_args(&argv(&["restart"])).expect_err("unknown command");
    assert!(err.starts_with("Unknown command: restart"));
    let err = parse_cli_args(&argv(&["status", "--listen"])).expect_err("missing value");
    assert_eq!(err, "--listen requires a value");
    let err = parse_cli_args(&argv(&["status", "--token", "  "])).expect_err("blank value");
    assert_eq!(err, "--token requires a non-empty value");
    let err = parse_cli_args(&argv(&["status", "--bogus"])).expect_err("unknown flag");
    assert!(err.starts_with("Unknown argument: --bogus"));
}

#[test]
fn cli_help_wins_anywhere() {
    assert!(matches!(parse_cli_args(&argv(&["help"])), Ok(ParsedCli::Help)));
    assert!(matches!(parse_cli_args(&argv(&["-h"])), Ok(ParsedCli::Help)));
    assert!(matches!(
        parse_cli_args(&argv(&["status", "--json", "--help"])),
        Ok(ParsedCli::Help)
    ));
}
