//! Configuration resolution: the settings snapshot the controller
//! reads, the listen-address and token precedence rules, and the
//! reconciliation of the managed configuration fields.
use crate::addr::daemon_listen_addr;
use crate::addr::parse_sock_addr;
use crate::addr::spec_daemon_listen_addr;
use crate::addr::spec_parse_sock_addr;
use crate::addr::spec_trim_non_empty;
use crate::addr::trim_non_empty;
use crate::chars::spec_trim;
use crate::chars::str_concat;
use crate::chars::str_eq;
use crate::chars::trim_str;
use crate::wire::json_bool_field;
use crate::wire::json_parse_line;
use crate::wire::json_str_field;
use vstd::prelude::*;
use vstd::string::StrSliceExecFns;
use vstd::string::StringExecFns;

verus! {

/// The slice of the externally-owned settings snapshot this controller
/// reads: the remote host and token, and the managed feature switches.
#[derive(Clone, Debug, PartialEq, Eq)]
pub struct AppSettings {
    pub remote_backend_host: String,
    pub remote_backend_token: Option<String>,
    pub collaboration_modes_enabled: bool,
    pub steer_enabled: bool,
    pub unified_exec_enabled: bool,
    pub experimental_apps_enabled: bool,
    pub personality: String,
}

/// The snapshot the raw field reads make: a missing host is the empty
/// host, a missing switch is off, a missing personality is the default,
/// and the token passes through untouched.
pub fn settings_from_fields(
    host_raw: Option<String>,
    token_raw: Option<String>,
    collaboration_raw: Option<bool>,
    steer_raw: Option<bool>,
    unified_raw: Option<bool>,
    apps_raw: Option<bool>,
    personality_raw: Option<String>,
) -> (r: AppSettings)
    ensures
        r.remote_backend_host@ == (match host_raw {
            Option::Some(h) => h@,
            Option::None => Seq::<char>::empty(),
        }),
        crate::probe::opt_str_view(r.remote_backend_token) == crate::probe::opt_str_view(
            token_raw,
        ),
        r.collaboration_modes_enabled == (match collaboration_raw {
            Option::Some(b) => b,
            Option::None => false,
        }),
        r.steer_enabled == (match steer_raw {
            Option::Some(b) => b,
            Option::None => false,
        }),
        r.unified_exec_enabled == (match unified_raw {
            Option::Some(b) => b,
            Option::None => false,
        }),
        r.experimental_apps_enabled == (match apps_raw {
            Option::Some(b) => b,
            Option::None => false,
        }),
        r.personality@ == (match personality_raw {
            Option::Some(p) => p@,
            Option::None => "friendly"@,
        }),
{
    AppSettings {
        remote_backend_host: match host_raw {
            Some(h) => h,
            None => String::new(),
        },
        remote_backend_token: token_raw,
        collaboration_modes_enabled: match collaboration_raw {
            Some(b) => b,
            None => false,
        },
        steer_enabled: match steer_raw {
            Some(b) => b,
            None => false,
        },
        unified_exec_enabled: match unified_raw {
            Some(b) => b,
            None => false,
        },
        experimental_apps_enabled: match apps_raw {
            Some(b) => b,
            None => false,
        },
        personality: match personality_raw {
            Some(p) => p,
            None => String::from_str("friendly"),
        },
    }
}

/// Reads a settings snapshot out of the settings file's text; an
/// unreadable file or unparseable text yields no snapshot.  The field
/// reads go through the document accessors; what the snapshot holds for
/// each read is fixed by `settings_from_fields`.
pub fn load_settings(settings_json: Option<&str>) -> (r: Option<AppSettings>) {
    let text = match settings_json {
        Some(t) => t,
        None => {
            return None;
        },
    };
    let v = match json_parse_line(text) {
        Ok(p) => p.0,
        Err(_) => {
            return None;
        },
    };
    Some(
        settings_from_fields(
            json_str_field(&v, "remoteBackendHost"),
            json_str_field(&v, "remoteBackendToken"),
            json_bool_field(&v, "collaborationModesEnabled"),
            json_bool_field(&v, "steerEnabled"),
            json_bool_field(&v, "unifiedExecEnabled"),
            json_bool_field(&v, "experimentalAppsEnabled"),
            json_str_field(&v, "personality"),
        ),
    )
}

/// What listen-address resolution returns: an explicit argument must
/// itself parse as a socket address; otherwise the settings host
/// derives the wildcard address, which is validated the same way.
pub open spec fn spec_resolve_listen_addr(
    arg: Option<Seq<char>>,
    host: Option<Seq<char>>,
) -> Result<Seq<char>, Seq<char>> {
    match spec_trim_non_empty(arg) {
        Option::Some(value) => {
            if spec_parse_sock_addr(value) is Some {
                Ok(value)
            } else {
                Err(
                    "Invalid --listen address `"@ + value
                        + "`: invalid socket address syntax"@,
                )
            }
        },
        Option::None => {
            let resolved = match host {
                Option::Some(h) => spec_daemon_listen_addr(h),
                Option::None => "0.0.0.0:4732"@,
            };
            if spec_parse_sock_addr(resolved) is Some {
                Ok(resolved)
            } else {
                Err(
                    "Invalid listen address `"@ + resolved
                        + "`: invalid socket address syntax"@,
                )
            }
        },
    }
}

pub fn resolve_listen_addr(listen_arg: Option<&str>, settings: Option<&AppSettings>) -> (r: Result<
    String,
    String,
>)
    ensures
        r matches Result::Ok(v) ==> Result::<Seq<char>, Seq<char>>::Ok(v@)
            == spec_resolve_listen_addr(
            crate::profiles::opt_view(listen_arg),
            spec_settings_host(settings),
        ),
        r matches Result::Err(m) ==> Result::<Seq<char>, Seq<char>>::Err(m@)
            == spec_resolve_listen_addr(
            crate::profiles::opt_view(listen_arg),
            spec_settings_host(settings),
        ),
{
    if let Some(value) = trim_non_empty(listen_arg) {
        if parse_sock_addr(value.as_str()).is_some() {
            return Ok(value);
        }
        let head = str_concat("Invalid --listen address `", value.as_str());
        let msg = str_concat(head.as_str(), "`: invalid socket address syntax");
        return Err(msg);
    }
    let resolved = match settings {
        Some(s) => daemon_listen_addr(s.remote_backend_host.as_str()),
        None => String::from_str("0.0.0.0:4732"),
    };
    if parse_sock_addr(resolved.as_str()).is_some() {
        return Ok(resolved);
    }
    let head = str_concat("Invalid listen address `", resolved.as_str());
    let msg = str_concat(head.as_str(), "`: invalid socket address syntax");
    Err(msg)
}

/// The settings host, when a snapshot is there.
pub open spec fn spec_settings_host(settings: Option<&AppSettings>) -> Option<Seq<char>> {
    match settings {
        Option::Some(s) => Some(s.remote_backend_host@),
        Option::None => None,
    }
}

/// A listen-address string that fails socket-address parsing is refused
/// by resolution, whatever the settings say, before anything else can
/// happen with it.
pub proof fn lemma_invalid_listen_rejected(arg: Seq<char>, host: Option<Seq<char>>)
    requires
        spec_trim(arg).len() > 0,
        spec_parse_sock_addr(spec_trim(arg)) is None,
    ensures
        spec_resolve_listen_addr(Some(arg), host) is Err,
{
}

/// The token precedence: the explicit flag wins, then the environment
/// variable, then the settings snapshot; blanks count as absent.
pub open spec fn spec_resolve_token(
    arg: Option<Seq<char>>,
    env: Option<Seq<char>>,
    settings_token: Option<Seq<char>>,
) -> Option<Seq<char>> {
    match spec_trim_non_empty(arg) {
        Option::Some(v) => Some(v),
        Option::None => match spec_trim_non_empty(env) {
            Option::Some(v) => Some(v),
            Option::None => spec_trim_non_empty(settings_token),
        },
    }
}

/// Resolves the auth token; the environment variable's value is handed
/// in by the caller, which owns the process environment.
pub fn resolve_token(
    token_arg: Option<&str>,
    env_token: Option<&str>,
    settings: Option<&AppSettings>,
) -> (r: Option<String>)
    ensures
        crate::probe::opt_str_view(r) == spec_resolve_token(
            crate::profiles::opt_view(token_arg),
            crate::profiles::opt_view(env_token),
            spec_settings_token(settings),
        ),
{
    if let Some(v) = trim_non_empty(token_arg) {
        return Some(v);
    }
    if let Some(v) = trim_non_empty(env_token) {
        return Some(v);
    }
    match settings {
        Some(s) => trim_non_empty(
            match &s.remote_backend_token {
                Some(t) => Some(t.as_str()),
                None => None,
            },
        ),
        None => None,
    }
}

/// The settings token, when a snapshot is there and carries one.
pub open spec fn spec_settings_token(settings: Option<&AppSettings>) -> Option<Seq<char>> {
    match settings {
        Option::Some(s) => match s.remote_backend_token {
            Option::Some(t) => Some(t@),
            Option::None => None,
        },
        Option::None => None,
    }
}

/// The data directory: the explicit override, or the platform default
/// the caller resolved.
pub fn resolve_data_dir(data_dir: Option<String>, default_dir: String) -> (r: String)
    ensures
        r@ == (match data_dir {
            Option::Some(d) => d@,
            Option::None => default_dir@,
        }),
{
    match data_dir {
        Some(d) => d,
        None => default_dir,
    }
}

/// The command-line help text.
pub open spec fn spec_usage_text() -> Seq<char> {
    "USAGE:\n  codex-monitor-daemonctl <command> [options]\n\nCOMMANDS:\n  start              Start daemon (auto-restarts mismatched daemon if safe)\n  stop               Stop daemon\n  status             Show daemon status\n  command-preview    Print equivalent daemon start command\n\nOPTIONS:\n  --listen <addr>        Bind/listen address (default derived from settings, fallback: 0.0.0.0:4732)\n  --token <token>        Remote backend token override\n  --data-dir <path>      App data dir (contains settings.json/workspaces.json)\n  --daemon-path <path>   Explicit path to codex-monitor-daemon binary\n  --insecure-no-auth     Start/probe daemon without auth token (dev only)\n  --json                 Print JSON output\n  -h, --help             Show this help\n\nNOTES:\n  - Defaults read token/host from <data-dir>/settings.json\n  - If no --data-dir is provided, default app data dir is used for this platform\n"@
}

pub fn usage() -> (r: String)
    ensures
        r@ == spec_usage_text(),
        r@
            == "USAGE:\n  codex-monitor-daemonctl <command> [options]\n\nCOMMANDS:\n  start              Start daemon (auto-restarts mismatched daemon if safe)\n  stop               Stop daemon\n  status             Show daemon status\n  command-preview    Print equivalent daemon start command\n\nOPTIONS:\n  --listen <addr>        Bind/listen address (default derived from settings, fallback: 0.0.0.0:4732)\n  --token <token>        Remote backend token override\n  --data-dir <path>      App data dir (contains settings.json/workspaces.json)\n  --daemon-path <path>   Explicit path to codex-monitor-daemon binary\n  --insecure-no-auth     Start/probe daemon without auth token (dev only)\n  --json                 Print JSON output\n  -h, --help             Show this help\n\nNOTES:\n  - Defaults read token/host from <data-dir>/settings.json\n  - If no --data-dir is provided, default app data dir is used for this platform\n"@,
{
    String::from_str(
        "USAGE:\n  codex-monitor-daemonctl <command> [options]\n\nCOMMANDS:\n  start              Start daemon (auto-restarts mismatched daemon if safe)\n  stop               Stop daemon\n  status             Show daemon status\n  command-preview    Print equivalent daemon start command\n\nOPTIONS:\n  --listen <addr>        Bind/listen address (default derived from settings, fallback: 0.0.0.0:4732)\n  --token <token>        Remote backend token override\n  --data-dir <path>      App data dir (contains settings.json/workspaces.json)\n  --daemon-path <path>   Explicit path to codex-monitor-daemon binary\n  --insecure-no-auth     Start/probe daemon without auth token (dev only)\n  --json                 Print JSON output\n  -h, --help             Show this help\n\nNOTES:\n  - Defaults read token/host from <data-dir>/settings.json\n  - If no --data-dir is provided, default app data dir is used for this platform\n",
    )
}

/// The accepted personality values; anything else is nothing.
pub open spec fn spec_normalize_personality(value: Seq<char>) -> Option<Seq<char>> {
    if spec_trim(value) == "friendly"@ {
        Some("friendly"@)
    } else if spec_trim(value) == "pragmatic"@ {
        Some("pragmatic"@)
    } else {
        None
    }
}

pub fn normalize_personality(value: &str) -> (r: Option<&'static str>)
    ensures
        (r is Some) == (spec_normalize_personality(value@) is Some),
        r matches Option::Some(v) ==> Some(v@) == spec_normalize_personality(value@),
{
    let t = trim_str(value);
    if str_eq(t.as_str(), "friendly") {
        Some("friendly")
    } else if str_eq(t.as_str(), "pragmatic") {
        Some("pragmatic")
    } else {
        None
    }
}

/// The values read back from the managed configuration file, each
/// absent when the read failed or the file names none.
#[derive(Clone, Debug, PartialEq, Eq)]
pub struct CodexConfigValues {
    pub collaboration_modes_enabled: Option<bool>,
    pub steer_enabled: Option<bool>,
    pub unified_exec_enabled: Option<bool>,
    pub apps_enabled: Option<bool>,
    /// The outer option is the read itself; the inner is the field.
    pub personality: Option<Option<String>>,
}

/// The field a successful configuration read carried, when any.
pub open spec fn spec_inner_personality(p: Option<Option<String>>) -> Option<Seq<char>> {
    match p {
        Option::Some(inner) => match inner {
            Option::Some(v) => Some(v@),
            Option::None => None,
        },
        Option::None => None,
    }
}

/// The personality that results from one configuration read.
pub open spec fn spec_personality_choice(p: Option<Seq<char>>) -> Seq<char> {
    match p {
        Option::Some(v) => match spec_normalize_personality(v) {
            Option::Some(n) => n,
            Option::None => "friendly"@,
        },
        Option::None => "friendly"@,
    }
}

/// Lets the configuration file win for every managed field the caller
/// did not itself change: a field equal to its previous value follows
/// the file, a changed one keeps the caller's new value.
pub fn reconcile_managed_config_fields(
    previous: &AppSettings,
    next: &mut AppSettings,
    disk: &CodexConfigValues,
)
    ensures
        final(next).collaboration_modes_enabled == (if old(next).collaboration_modes_enabled
            == previous.collaboration_modes_enabled
            && disk.collaboration_modes_enabled is Some {
            disk.collaboration_modes_enabled->Some_0
        } else {
            old(next).collaboration_modes_enabled
        }),
        final(next).steer_enabled == (if old(next).steer_enabled == previous.steer_enabled
            && disk.steer_enabled is Some {
            disk.steer_enabled->Some_0
        } else {
            old(next).steer_enabled
        }),
        final(next).unified_exec_enabled == (if old(next).unified_exec_enabled
            == previous.unified_exec_enabled && disk.unified_exec_enabled is Some {
            disk.unified_exec_enabled->Some_0
        } else {
            old(next).unified_exec_enabled
        }),
        final(next).experimental_apps_enabled == (if old(next).experimental_apps_enabled
            == previous.experimental_apps_enabled && disk.apps_enabled is Some {
            disk.apps_enabled->Some_0
        } else {
            old(next).experimental_apps_enabled
        }),
        old(next).personality@ == previous.personality@ && disk.personality is Some ==> final(next).personality@ == spec_personality_choice(spec_inner_personality(disk.personality)),
        !(old(next).personality@ == previous.personality@ && disk.personality is Some) ==> final(next).personality == old(next).personality,
        final(next).remote_backend_host == old(next).remote_backend_host,
        final(next).remote_backend_token == old(next).remote_backend_token,
{
    if next.collaboration_modes_enabled == previous.collaboration_modes_enabled {
        if let Some(value) = disk.collaboration_modes_enabled {
            next.collaboration_modes_enabled = value;
        }
    }
    if next.steer_enabled == previous.steer_enabled {
        if let Some(value) = disk.steer_enabled {
            next.steer_enabled = value;
        }
    }
    if next.unified_exec_enabled == previous.unified_exec_enabled {
        if let Some(value) = disk.unified_exec_enabled {
            next.unified_exec_enabled = value;
        }
    }
    if next.experimental_apps_enabled == previous.experimental_apps_enabled {
        if let Some(value) = disk.apps_enabled {
            next.experimental_apps_enabled = value;
        }
    }
    if str_eq(next.personality.as_str(), previous.personality.as_str()) {
        if let Some(personality) = &disk.personality {
            let chosen = match personality {
                Some(p) => match normalize_personality(p.as_str()) {
                    Some(n) => String::from_str(n),
                    None => String::from_str("friendly"),
                },
                None => String::from_str("friendly"),
            };
            next.personality = chosen;
        }
    }
}

} // verus!
