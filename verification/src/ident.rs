//! Identity reconciliation: whether a reachable daemon is the managed
//! one, and whether it must be replaced because its name, version or
//! transport mode differs from what this controller expects.
use crate::chars::ascii_lowercase;
use crate::chars::contains_str;
use crate::chars::spec_contains;
use crate::chars::spec_lower;
use crate::chars::str_concat;
use crate::chars::str_eq;
use vstd::prelude::*;
use vstd::string::StringExecFns;

verus! {

/// The name a managed daemon reports.
pub open spec fn spec_expected_name() -> Seq<char> {
    "codex-monitor-daemon"@
}

/// The transport mode a managed daemon reports.
pub open spec fn spec_expected_mode() -> Seq<char> {
    "tcp"@
}

/// This controller's own version, which a compatible daemon must match.
pub open spec fn spec_current_version() -> Seq<char> {
    "0.1.0"@
}

/// What a daemon reports about itself over the info request.
#[derive(Clone, Debug, PartialEq, Eq)]
pub struct DaemonInfo {
    pub name: String,
    pub version: String,
    pub pid: Option<u32>,
    pub mode: String,
    pub binary_path: Option<String>,
}

/// The reported name matches the managed daemon's.
pub open spec fn spec_is_managed(info: DaemonInfo) -> bool {
    info.name@ == spec_expected_name()
}

pub fn is_managed_daemon(info: &DaemonInfo) -> (r: bool)
    ensures
        r == spec_is_managed(*info),
{
    str_eq(info.name.as_str(), "codex-monitor-daemon")
}

/// Forced termination is allowed only for an authenticated daemon whose
/// reported name passed the managed check.
pub open spec fn spec_can_force_stop(auth_ok: bool, info: Option<DaemonInfo>) -> bool {
    auth_ok && info is Some && spec_is_managed(info->Some_0)
}

pub fn can_force_stop_daemon(auth_ok: bool, info: Option<&DaemonInfo>) -> (r: bool)
    ensures
        r == spec_can_force_stop(
            auth_ok,
            match info {
                Option::Some(i) => Some(*i),
                Option::None => None,
            },
        ),
{
    auth_ok && match info {
        Some(i) => is_managed_daemon(i),
        None => false,
    }
}

/// A running daemon must be replaced when it reported no identity, or
/// when its name, version or mode differs from the expected one.
pub open spec fn spec_should_restart(info: Option<DaemonInfo>) -> bool {
    match info {
        Option::None => true,
        Option::Some(i) => !spec_is_managed(i) || i.version@ != spec_current_version() || i.mode@
            != spec_expected_mode(),
    }
}

pub fn should_restart_daemon(info: Option<&DaemonInfo>) -> (r: bool)
    ensures
        r == spec_should_restart(
            match info {
                Option::Some(i) => Some(*i),
                Option::None => None,
            },
        ),
{
    match info {
        None => true,
        Some(i) => {
            !is_managed_daemon(i) || !str_eq(i.version.as_str(), "0.1.0") || !str_eq(
                i.mode.as_str(),
                "tcp",
            )
        },
    }
}

/// The human-readable reason a restart is owed, in the order the rules
/// are checked: identity first, then version, then mode.
pub open spec fn spec_restart_reason(info: Option<DaemonInfo>) -> Seq<char> {
    match info {
        Option::None => "Daemon is running but did not report identity/version metadata"@,
        Option::Some(i) => if !spec_is_managed(i) {
            "Daemon identity mismatch (`"@ + i.name@ + "`)"@
        } else if i.version@ != spec_current_version() {
            "Daemon version "@ + i.version@ + " is different from app version "@
                + spec_current_version()
        } else if i.mode@ != spec_expected_mode() {
            "Daemon mode `"@ + i.mode@ + "` does not match expected `"@ + spec_expected_mode()
                + "`"@
        } else {
            "Daemon restart required"@
        },
    }
}

pub fn daemon_restart_reason(info: Option<&DaemonInfo>) -> (r: String)
    ensures
        info is None ==> r@ == spec_restart_reason(None),
        info is Some ==> r@ == spec_restart_reason(Some(*info->Some_0)),
{
    match info {
        None => String::from_str("Daemon is running but did not report identity/version metadata"),
        Some(i) => {
            if !is_managed_daemon(i) {
                let head = str_concat("Daemon identity mismatch (`", i.name.as_str());
                str_concat(head.as_str(), "`)")
            } else if !str_eq(i.version.as_str(), "0.1.0") {
                let head = str_concat("Daemon version ", i.version.as_str());
                let mid = str_concat(head.as_str(), " is different from app version ");
                str_concat(mid.as_str(), "0.1.0")
            } else if !str_eq(i.mode.as_str(), "tcp") {
                let head = str_concat("Daemon mode `", i.mode.as_str());
                let mid = str_concat(head.as_str(), "` does not match expected `");
                let tail = str_concat(mid.as_str(), "tcp");
                str_concat(tail.as_str(), "`")
            } else {
                String::from_str("Daemon restart required")
            }
        },
    }
}

/// A restart is owed exactly on absent identity, a name mismatch, a
/// version mismatch or a mode mismatch; when name, version and mode all
/// match the expectations, no restart is owed.
pub proof fn lemma_restart_decision(info: Option<DaemonInfo>)
    ensures
        info is None ==> spec_should_restart(info),
        info is Some && !spec_is_managed(info->Some_0) ==> spec_should_restart(info),
        info is Some && info->Some_0.version@ != spec_current_version() ==> spec_should_restart(
            info,
        ),
        info is Some && info->Some_0.mode@ != spec_expected_mode() ==> spec_should_restart(info),
        (info is Some && spec_is_managed(info->Some_0) && info->Some_0.version@
            == spec_current_version() && info->Some_0.mode@ == spec_expected_mode())
            <==> !spec_should_restart(info),
{
}

/// The remote's message marks an authorization failure: it mentions,
/// case-insensitively, an unauthorized call or an invalid token.
pub open spec fn spec_is_auth_error(message: Seq<char>) -> bool {
    spec_contains(spec_lower(message), "unauthorized"@) || spec_contains(
        spec_lower(message),
        "invalid token"@,
    )
}

pub fn is_auth_error_message(message: &str) -> (r: bool)
    ensures
        r == spec_is_auth_error(message@),
{
    let lower = ascii_lowercase(message);
    contains_str(lower.as_str(), "unauthorized") || contains_str(lower.as_str(), "invalid token")
}

} // verus!
