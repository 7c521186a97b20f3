//! The command-line grammar: one subcommand, then flags.  Value flags
//! demand a non-blank value, the no-auth opt-in clears any token given
//! before it, and a help flag anywhere wins.  The caller only supplies
//! the argument list and acts on the outcome.
use crate::chars::spec_trim;
use crate::chars::str_concat;
use crate::chars::str_eq;
use crate::chars::trim_str;
use crate::settings::spec_usage_text;
use crate::settings::usage;
use vstd::prelude::*;
use vstd::string::StrSliceExecFns;
use vstd::string::StringExecFns;

verus! {

#[derive(Clone, Copy, Debug, PartialEq, Eq, Structural)]
pub enum CliCommand {
    Start,
    Stop,
    Status,
    CommandPreview,
}

/// What the command line resolved to.
#[derive(Debug, Clone)]
pub struct CliArgs {
    pub command: CliCommand,
    pub listen: Option<String>,
    pub token: Option<String>,
    pub data_dir: Option<String>,
    pub daemon_path: Option<String>,
    pub json: bool,
    pub insecure_no_auth: bool,
}

/// A parse either asks for the help text or carries the arguments.
#[derive(Debug, Clone)]
pub enum ParsedCli {
    Help,
    Run(CliArgs),
}

/// The view of parsed arguments, option values as sequences.
pub struct CliArgsV {
    pub command: CliCommand,
    pub listen: Option<Seq<char>>,
    pub token: Option<Seq<char>>,
    pub data_dir: Option<Seq<char>>,
    pub daemon_path: Option<Seq<char>>,
    pub json: bool,
    pub insecure_no_auth: bool,
}

pub open spec fn cli_view(a: CliArgs) -> CliArgsV {
    CliArgsV {
        command: a.command,
        listen: crate::probe::opt_str_view(a.listen),
        token: crate::probe::opt_str_view(a.token),
        data_dir: crate::probe::opt_str_view(a.data_dir),
        daemon_path: crate::probe::opt_str_view(a.daemon_path),
        json: a.json,
        insecure_no_auth: a.insecure_no_auth,
    }
}

pub open spec fn spec_is_help(a: Seq<char>) -> bool {
    a == "-h"@ || a == "--help"@ || a == "help"@
}

pub open spec fn spec_command(a: Seq<char>) -> Option<CliCommand> {
    if a == "start"@ {
        Some(CliCommand::Start)
    } else if a == "stop"@ {
        Some(CliCommand::Stop)
    } else if a == "status"@ {
        Some(CliCommand::Status)
    } else if a == "command-preview"@ {
        Some(CliCommand::CommandPreview)
    } else {
        None
    }
}

/// The flag grammar, one flag (and possibly its value) at a time.
pub open spec fn spec_parse_flags(rest: Seq<Seq<char>>, acc: CliArgsV) -> Result<
    Option<CliArgsV>,
    Seq<char>,
>
    decreases rest.len(),
{
    if rest.len() == 0 {
        Ok(Some(acc))
    } else {
        let a = rest[0];
        if a == "--listen"@ {
            if rest.len() < 2 {
                Err("--listen requires a value"@)
            } else if spec_trim(rest[1]).len() == 0 {
                Err("--listen requires a non-empty value"@)
            } else {
                spec_parse_flags(
                    rest.skip(2),
                    CliArgsV { listen: Some(spec_trim(rest[1])), ..acc },
                )
            }
        } else if a == "--token"@ {
            if rest.len() < 2 {
                Err("--token requires a value"@)
            } else if spec_trim(rest[1]).len() == 0 {
                Err("--token requires a non-empty value"@)
            } else {
                spec_parse_flags(rest.skip(2), CliArgsV { token: Some(spec_trim(rest[1])), ..acc })
            }
        } else if a == "--data-dir"@ {
            if rest.len() < 2 {
                Err("--data-dir requires a value"@)
            } else if spec_trim(rest[1]).len() == 0 {
                Err("--data-dir requires a non-empty value"@)
            } else {
                spec_parse_flags(
                    rest.skip(2),
                    CliArgsV { data_dir: Some(spec_trim(rest[1])), ..acc },
                )
            }
        } else if a == "--daemon-path"@ {
            if rest.len() < 2 {
                Err("--daemon-path requires a value"@)
            } else if spec_trim(rest[1]).len() == 0 {
                Err("--daemon-path requires a non-empty value"@)
            } else {
                spec_parse_flags(
                    rest.skip(2),
                    CliArgsV { daemon_path: Some(spec_trim(rest[1])), ..acc },
                )
            }
        } else if a == "--json"@ {
            spec_parse_flags(rest.skip(1), CliArgsV { json: true, ..acc })
        } else if a == "--insecure-no-auth"@ {
            spec_parse_flags(
                rest.skip(1),
                CliArgsV { insecure_no_auth: true, token: None, ..acc },
            )
        } else if a == "-h"@ || a == "--help"@ {
            Ok(None)
        } else {
            Err("Unknown argument: "@ + a + "\n\n"@ + spec_usage_text())
        }
    }
}

/// The initial state of the flag parse for a subcommand.
pub open spec fn spec_cli_init(command: CliCommand) -> CliArgsV {
    CliArgsV {
        command,
        listen: None,
        token: None,
        data_dir: None,
        daemon_path: None,
        json: false,
        insecure_no_auth: false,
    }
}

/// The whole command line (without the program name): empty lines and
/// unknown commands fail with the help text attached, a help token is
/// the help request, and anything else parses the flags.
pub open spec fn spec_parse_cli(args: Seq<Seq<char>>) -> Result<Option<CliArgsV>, Seq<char>> {
    if args.len() == 0 {
        Err(spec_usage_text())
    } else if spec_is_help(args[0]) {
        Ok(None)
    } else {
        match spec_command(args[0]) {
            Option::Some(cmd) => spec_parse_flags(args.drop_first(), spec_cli_init(cmd)),
            Option::None => Err("Unknown command: "@ + args[0] + "\n\n"@ + spec_usage_text()),
        }
    }
}

/// Parses the command line the process received, without its own name.
#[verifier::loop_isolation(false)]
pub fn parse_cli_args(args: &Vec<String>) -> (r: Result<ParsedCli, String>)
    ensures
        r matches Result::Ok(p) ==> (match p {
            ParsedCli::Help => spec_parse_cli(args.deep_view()) == Result::<
                Option<CliArgsV>,
                Seq<char>,
            >::Ok(None),
            ParsedCli::Run(a) => spec_parse_cli(args.deep_view()) == Result::<
                Option<CliArgsV>,
                Seq<char>,
            >::Ok(Some(cli_view(a))),
        }),
        r matches Result::Err(m) ==> spec_parse_cli(args.deep_view()) == Result::<
            Option<CliArgsV>,
            Seq<char>,
        >::Err(m@),
{
    let n: usize = args.len();
    proof {
        assert(args.deep_view().len() == args@.len());
    }
    if n == 0 {
        return Err(usage());
    }
    proof {
        assert(args.deep_view()[0] == args@[0].deep_view());
    }
    let first = args[0].as_str();
    if str_eq(first, "-h") || str_eq(first, "--help") || str_eq(first, "help") {
        return Ok(ParsedCli::Help);
    }
    let command = if str_eq(first, "start") {
        CliCommand::Start
    } else if str_eq(first, "stop") {
        CliCommand::Stop
    } else if str_eq(first, "status") {
        CliCommand::Status
    } else if str_eq(first, "command-preview") {
        CliCommand::CommandPreview
    } else {
        let head = str_concat("Unknown command: ", first);
        let mid = str_concat(head.as_str(), "\n\n");
        let msg = str_concat(mid.as_str(), usage().as_str());
        return Err(msg);
    };

    let mut listen: Option<String> = None;
    let mut token: Option<String> = None;
    let mut data_dir: Option<String> = None;
    let mut daemon_path: Option<String> = None;
    let mut json = false;
    let mut insecure_no_auth = false;
    let mut i: usize = 1;
    proof {
        assert(args.deep_view().skip(1) =~= args.deep_view().drop_first());
    }
    while i < n
        invariant
            1 <= i <= n,
            spec_parse_cli(args.deep_view()) == spec_parse_flags(
                args.deep_view().skip(i as int),
                CliArgsV {
                    command,
                    listen: crate::probe::opt_str_view(listen),
                    token: crate::probe::opt_str_view(token),
                    data_dir: crate::probe::opt_str_view(data_dir),
                    daemon_path: crate::probe::opt_str_view(daemon_path),
                    json,
                    insecure_no_auth,
                },
            ),
        decreases n - i,
    {
        proof {
            assert(args.deep_view()[i as int] == args@[i as int].deep_view());
            assert(args.deep_view().skip(i as int)[0] == args.deep_view()[i as int]);
        }
        let arg = args[i].as_str();
        let ghost rest = args.deep_view().skip(i as int);
        if str_eq(arg, "--listen") || str_eq(arg, "--token") || str_eq(arg, "--data-dir")
            || str_eq(arg, "--daemon-path") {
            if i + 1 >= n {
                if str_eq(arg, "--listen") {
                    return Err(String::from_str("--listen requires a value"));
                } else if str_eq(arg, "--token") {
                    return Err(String::from_str("--token requires a value"));
                } else if str_eq(arg, "--data-dir") {
                    return Err(String::from_str("--data-dir requires a value"));
                } else {
                    return Err(String::from_str("--daemon-path requires a value"));
                }
            }
            proof {
                assert(args.deep_view()[i as int + 1] == args@[i as int + 1].deep_view());
                assert(rest[1] == args.deep_view()[i as int + 1]);
            }
            let value = trim_str(args[i + 1].as_str());
            if value.as_str().unicode_len() == 0 {
                if str_eq(arg, "--listen") {
                    return Err(String::from_str("--listen requires a non-empty value"));
                } else if str_eq(arg, "--token") {
                    return Err(String::from_str("--token requires a non-empty value"));
                } else if str_eq(arg, "--data-dir") {
                    return Err(String::from_str("--data-dir requires a non-empty value"));
                } else {
                    return Err(String::from_str("--daemon-path requires a non-empty value"));
                }
            }
            if str_eq(arg, "--listen") {
                listen = Some(value);
            } else if str_eq(arg, "--token") {
                token = Some(value);
            } else if str_eq(arg, "--data-dir") {
                data_dir = Some(value);
            } else {
                daemon_path = Some(value);
            }
            proof {
                assert(rest.skip(2) =~= args.deep_view().skip(i as int + 2));
            }
            i = i + 2;
        } else if str_eq(arg, "--json") {
            json = true;
            proof {
                assert(rest.skip(1) =~= args.deep_view().skip(i as int + 1));
            }
            i = i + 1;
        } else if str_eq(arg, "--insecure-no-auth") {
            insecure_no_auth = true;
            token = None;
            proof {
                assert(rest.skip(1) =~= args.deep_view().skip(i as int + 1));
            }
            i = i + 1;
        } else if str_eq(arg, "-h") || str_eq(arg, "--help") {
            return Ok(ParsedCli::Help);
        } else {
            let head = str_concat("Unknown argument: ", arg);
            let mid = str_concat(head.as_str(), "\n\n");
            let msg = str_concat(mid.as_str(), usage().as_str());
            return Err(msg);
        }
    }
    proof {
        assert(args.deep_view().skip(n as int) =~= Seq::<Seq<char>>::empty());
    }
    Ok(
        ParsedCli::Run(
            CliArgs { command, listen, token, data_dir, daemon_path, json, insecure_no_auth },
        ),
    )
}

} // verus!
