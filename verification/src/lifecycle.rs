//! The lifecycle orchestrator: `status` maps one probe to a status,
//! `stop` escalates from a protocol shutdown to a forced stop behind
//! the ownership gate, and `start` replaces an incompatible daemon
//! before spawning, never binding an occupied port.  Each command is a
//! machine; the driver performs probes, requests, signals and sleeps.
use crate::chars::str_concat;
use crate::ident::can_force_stop_daemon;
use crate::ident::daemon_restart_reason;
use crate::ident::should_restart_daemon;
use crate::ident::spec_can_force_stop;
use crate::ident::spec_restart_reason;
use crate::ident::spec_should_restart;
use crate::ident::DaemonInfo;
use crate::probe::opt_str_view;
use crate::probe::DaemonProbe;
use vstd::prelude::*;
use vstd::string::StringExecFns;

verus! {

/// How many probes the shutdown wait performs before giving up.
pub const SHUTDOWN_WAIT_TRIES: u8 = 20;

#[derive(Clone, Copy, Debug, PartialEq, Eq, Structural)]
pub enum TcpDaemonState {
    Stopped,
    Running,
    Error,
}

/// The terminal output of every lifecycle command.
#[derive(Clone, Debug, PartialEq, Eq)]
pub struct TcpDaemonStatus {
    pub state: TcpDaemonState,
    pub pid: Option<u32>,
    pub started_at_ms: Option<i64>,
    pub last_error: Option<String>,
    pub listen_addr: Option<String>,
}

/// The status fields, compared at the view level.
pub open spec fn status_ok(
    s: TcpDaemonStatus,
    state: TcpDaemonState,
    pid: Option<u32>,
    started_at_ms: Option<i64>,
    last_error: Option<Seq<char>>,
    listen_addr: Option<Seq<char>>,
) -> bool {
    s.state == state && s.pid == pid && s.started_at_ms == started_at_ms && opt_str_view(
        s.last_error,
    ) == last_error && opt_str_view(s.listen_addr) == listen_addr
}

/// What `status` reports for one probe outcome: a reachable protocol
/// endpoint is running (with any authentication error attached), a
/// foreign listener is an error naming the address, and an unreachable
/// port is stopped with no pid at all.
pub open spec fn spec_status_from_probe(
    s: TcpDaemonStatus,
    probe: DaemonProbe,
    pid: Option<u32>,
    listen_addr: Seq<char>,
) -> bool {
    match probe {
        DaemonProbe::Running { auth_error, .. } => status_ok(
            s,
            TcpDaemonState::Running,
            pid,
            None,
            opt_str_view(auth_error),
            Some(listen_addr),
        ),
        DaemonProbe::NotDaemon => status_ok(
            s,
            TcpDaemonState::Error,
            pid,
            None,
            Some(
                "Configured daemon port "@ + listen_addr
                    + " is occupied by a non-daemon process."@,
            ),
            Some(listen_addr),
        ),
        DaemonProbe::NotReachable => status_ok(
            s,
            TcpDaemonState::Stopped,
            None,
            None,
            None,
            Some(listen_addr),
        ),
    }
}

/// The whole of the `status` command after its one probe and one pid
/// resolution.
pub fn status_from_probe(probe: DaemonProbe, pid: Option<u32>, listen_addr: &str) -> (r:
    TcpDaemonStatus)
    ensures
        spec_status_from_probe(r, probe, pid, listen_addr@),
{
    match probe {
        DaemonProbe::Running { auth_error, .. } => TcpDaemonStatus {
            state: TcpDaemonState::Running,
            pid,
            started_at_ms: None,
            last_error: auth_error,
            listen_addr: Some(String::from_str(listen_addr)),
        },
        DaemonProbe::NotDaemon => {
            let head = str_concat("Configured daemon port ", listen_addr);
            let msg = str_concat(head.as_str(), " is occupied by a non-daemon process.");
            TcpDaemonStatus {
                state: TcpDaemonState::Error,
                pid,
                started_at_ms: None,
                last_error: Some(msg),
                listen_addr: Some(String::from_str(listen_addr)),
            }
        },
        DaemonProbe::NotReachable => TcpDaemonStatus {
            state: TcpDaemonState::Stopped,
            pid: None,
            started_at_ms: None,
            last_error: None,
            listen_addr: Some(String::from_str(listen_addr)),
        },
    }
}

/// The status `stop` reports after its final probe: any surviving
/// listener is an error carrying the most specific message available,
/// and only an unreachable port counts as stopped.
pub open spec fn spec_stop_final_status(
    s: TcpDaemonStatus,
    probe: DaemonProbe,
    pid_after: Option<u32>,
    stop_error: Option<Seq<char>>,
    listen_addr: Seq<char>,
) -> bool {
    match probe {
        DaemonProbe::Running { auth_error, .. } => status_ok(
            s,
            TcpDaemonState::Error,
            pid_after,
            None,
            Some(
                match stop_error {
                    Option::Some(e) => e,
                    Option::None => match opt_str_view(auth_error) {
                        Option::Some(ae) => ae,
                        Option::None => "Daemon is still running after stop attempt."@,
                    },
                },
            ),
            Some(listen_addr),
        ),
        DaemonProbe::NotDaemon => status_ok(
            s,
            TcpDaemonState::Error,
            pid_after,
            None,
            Some(
                match stop_error {
                    Option::Some(e) => e,
                    Option::None => "Configured port is now occupied by a non-daemon process."@,
                },
            ),
            Some(listen_addr),
        ),
        DaemonProbe::NotReachable => status_ok(
            s,
            TcpDaemonState::Stopped,
            None,
            None,
            stop_error,
            Some(listen_addr),
        ),
    }
}

fn stop_final_status(
    probe: DaemonProbe,
    pid_after: Option<u32>,
    stop_error: Option<String>,
    listen_addr: &str,
) -> (r: TcpDaemonStatus)
    ensures
        spec_stop_final_status(r, probe, pid_after, opt_str_view(stop_error), listen_addr@),
{
    match probe {
        DaemonProbe::Running { auth_error, .. } => {
            let msg = match stop_error {
                Some(e) => e,
                None => match auth_error {
                    Some(ae) => ae,
                    None => String::from_str("Daemon is still running after stop attempt."),
                },
            };
            TcpDaemonStatus {
                state: TcpDaemonState::Error,
                pid: pid_after,
                started_at_ms: None,
                last_error: Some(msg),
                listen_addr: Some(String::from_str(listen_addr)),
            }
        },
        DaemonProbe::NotDaemon => {
            let msg = match stop_error {
                Some(e) => e,
                None => String::from_str("Configured port is now occupied by a non-daemon process."),
            };
            TcpDaemonStatus {
                state: TcpDaemonState::Error,
                pid: pid_after,
                started_at_ms: None,
                last_error: Some(msg),
                listen_addr: Some(String::from_str(listen_addr)),
            }
        },
        DaemonProbe::NotReachable => TcpDaemonStatus {
            state: TcpDaemonState::Stopped,
            pid: None,
            started_at_ms: None,
            last_error: stop_error,
            listen_addr: Some(String::from_str(listen_addr)),
        },
    }
}

/// The pid reported by an identity, when one was reported.
pub open spec fn spec_info_pid(info: Option<DaemonInfo>) -> Option<u32> {
    match info {
        Option::Some(i) => i.pid,
        Option::None => None,
    }
}

fn info_pid(info: &Option<DaemonInfo>) -> (r: Option<u32>)
    ensures
        r == spec_info_pid(*info),
{
    match info {
        Some(i) => i.pid,
        None => None,
    }
}

pub enum StopAction {
    /// Run one full probe against the configured address.
    Probe,
    /// Perform the protocol shutdown request.
    RequestShutdown,
    /// Resolve the pid listening on the configured port, discarding one
    /// that contradicts the expected pid.
    ResolvePid { expected: Option<u32> },
    /// Run the graceful-termination flow against this pid.
    Kill { pid: u32 },
    /// Sleep one poll interval.
    Sleep,
    Finish,
}

pub enum StopEvent {
    Probe(DaemonProbe),
    Shutdown(Result<(), String>),
    Pid(Option<u32>),
    Kill(Result<(), String>),
    Slept,
}

pub enum StopPhase {
    AwaitInitialProbe { port: u16 },
    AwaitShutdown { fk: bool, expected: Option<u32> },
    AwaitPidAfterErr { fk: bool, expected: Option<u32>, shutdown_error: String },
    AwaitKillAfterErr { fk: bool, expected: Option<u32>, shutdown_error: String },
    AwaitWaitProbe { fk: bool, expected: Option<u32>, tries_left: u8 },
    AwaitWaitSleep { fk: bool, expected: Option<u32>, tries_left: u8 },
    AwaitPidAfterWait,
    AwaitKillAfterWait,
    AwaitFinalProbe { stop_error: Option<String> },
    AwaitFinalPid { stop_error: Option<String>, probe: DaemonProbe },
    Done(TcpDaemonStatus),
}

pub struct StopMachine {
    pub listen_addr: String,
    pub phase: StopPhase,
}

pub open spec fn stop_expects(phase: StopPhase, event: StopEvent) -> bool {
    match phase {
        StopPhase::AwaitInitialProbe { .. } => event is Probe,
        StopPhase::AwaitShutdown { .. } => event is Shutdown,
        StopPhase::AwaitPidAfterErr { .. } => event is Pid,
        StopPhase::AwaitKillAfterErr { .. } => event is Kill,
        StopPhase::AwaitWaitProbe { .. } => event is Probe,
        StopPhase::AwaitWaitSleep { .. } => event is Slept,
        StopPhase::AwaitPidAfterWait => event is Pid,
        StopPhase::AwaitKillAfterWait => event is Kill,
        StopPhase::AwaitFinalProbe { .. } => event is Probe,
        StopPhase::AwaitFinalPid { .. } => event is Pid,
        StopPhase::Done(_) => false,
    }
}

/// The transition relation of `stop`.  A foreign listener is never
/// touched; a forced stop happens only behind the ownership gate; the
/// wait loop is bounded; and the final status comes from a fresh probe.
pub open spec fn stop_step_ok(
    pre: StopMachine,
    event: StopEvent,
    post: StopMachine,
    action: StopAction,
) -> bool {
    post.listen_addr@ == pre.listen_addr@ && match pre.phase {
        StopPhase::AwaitInitialProbe { port } => {
            &&& event matches StopEvent::Probe(p)
            &&& match p {
                DaemonProbe::Running { auth_ok, auth_error, info } => {
                    &&& post.phase matches StopPhase::AwaitShutdown { fk, expected }
                    &&& fk == spec_can_force_stop(auth_ok, info)
                    &&& expected == spec_info_pid(info)
                    &&& action is RequestShutdown
                },
                DaemonProbe::NotDaemon => {
                    &&& post.phase matches StopPhase::AwaitFinalProbe { stop_error }
                    &&& stop_error matches Option::Some(e)
                    &&& e@ == "Port "@ + crate::chars::dec_digits(port as nat)
                        + " is in use by a non-daemon process; refusing to stop it."@
                    &&& action is Probe
                },
                DaemonProbe::NotReachable => {
                    &&& post.phase matches StopPhase::AwaitFinalProbe { stop_error }
                    &&& stop_error is None
                    &&& action is Probe
                },
            }
        },
        StopPhase::AwaitShutdown { fk, expected } => {
            &&& event matches StopEvent::Shutdown(r)
            &&& match r {
                Result::Ok(_) => post.phase == (StopPhase::AwaitWaitProbe {
                    fk,
                    expected,
                    tries_left: SHUTDOWN_WAIT_TRIES,
                }) && action is Probe,
                Result::Err(e) => {
                    &&& post.phase matches StopPhase::AwaitPidAfterErr {
                        fk: fk2,
                        expected: ex2,
                        shutdown_error,
                    }
                    &&& fk2 == fk
                    &&& ex2 == expected
                    &&& shutdown_error@ == e@
                    &&& action == (StopAction::ResolvePid { expected })
                },
            }
        },
        StopPhase::AwaitPidAfterErr { fk, expected, shutdown_error } => {
            &&& event matches StopEvent::Pid(p)
            &&& match p {
                Option::Some(pid) => {
                    if fk {
                        &&& post.phase matches StopPhase::AwaitKillAfterErr {
                            fk: fk2,
                            expected: ex2,
                            shutdown_error: e2,
                        }
                        &&& fk2 == fk
                        &&& ex2 == expected
                        &&& e2@ == shutdown_error@
                        &&& action == (StopAction::Kill { pid })
                    } else {
                        &&& post.phase matches StopPhase::AwaitFinalProbe { stop_error }
                        &&& stop_error matches Option::Some(e)
                        &&& e@ == shutdown_error@
                            + "; refusing forced stop because daemon ownership could not be verified"@
                        &&& action is Probe
                    }
                },
                Option::None => {
                    &&& post.phase matches StopPhase::AwaitFinalProbe { stop_error }
                    &&& stop_error matches Option::Some(e)
                    &&& e@ == shutdown_error@
                    &&& action is Probe
                },
            }
        },
        StopPhase::AwaitKillAfterErr { fk, expected, shutdown_error } => {
            &&& event matches StopEvent::Kill(r)
            &&& match r {
                Result::Ok(_) => post.phase == (StopPhase::AwaitWaitProbe {
                    fk,
                    expected,
                    tries_left: SHUTDOWN_WAIT_TRIES,
                }) && action is Probe,
                Result::Err(err) => {
                    &&& post.phase matches StopPhase::AwaitFinalProbe { stop_error }
                    &&& stop_error matches Option::Some(e)
                    &&& e@ == shutdown_error@ + "; "@ + err@
                    &&& action is Probe
                },
            }
        },
        StopPhase::AwaitWaitProbe { fk, expected, tries_left } => {
            &&& event matches StopEvent::Probe(p)
            &&& match p {
                DaemonProbe::NotReachable => {
                    &&& post.phase matches StopPhase::AwaitFinalProbe { stop_error }
                    &&& stop_error is None
                    &&& action is Probe
                },
                _ => post.phase == (StopPhase::AwaitWaitSleep { fk, expected, tries_left })
                    && action is Sleep,
            }
        },
        StopPhase::AwaitWaitSleep { fk, expected, tries_left } => {
            &&& event is Slept
            &&& if tries_left > 1 {
                post.phase == (StopPhase::AwaitWaitProbe {
                    fk,
                    expected,
                    tries_left: (tries_left - 1) as u8,
                }) && action is Probe
            } else if fk {
                post.phase is AwaitPidAfterWait && action == (StopAction::ResolvePid { expected })
            } else {
                &&& post.phase matches StopPhase::AwaitFinalProbe { stop_error }
                &&& stop_error matches Option::Some(e)
                &&& e@
                    == "Daemon acknowledged shutdown but is still reachable; refusing forced stop because daemon ownership could not be verified."@
                &&& action is Probe
            }
        },
        StopPhase::AwaitPidAfterWait => {
            &&& event matches StopEvent::Pid(p)
            &&& match p {
                Option::Some(pid) => post.phase is AwaitKillAfterWait && action
                    == (StopAction::Kill { pid }),
                Option::None => {
                    &&& post.phase matches StopPhase::AwaitFinalProbe { stop_error }
                    &&& stop_error matches Option::Some(e)
                    &&& e@
                        == "Daemon acknowledged shutdown but remained reachable and PID could not be resolved."@
                    &&& action is Probe
                },
            }
        },
        StopPhase::AwaitKillAfterWait => {
            &&& event matches StopEvent::Kill(r)
            &&& match r {
                Result::Ok(_) => {
                    &&& post.phase matches StopPhase::AwaitFinalProbe { stop_error }
                    &&& stop_error is None
                    &&& action is Probe
                },
                Result::Err(err) => {
                    &&& post.phase matches StopPhase::AwaitFinalProbe { stop_error }
                    &&& stop_error matches Option::Some(e)
                    &&& e@ == "Daemon acknowledged shutdown but remained reachable; "@ + err@
                    &&& action is Probe
                },
            }
        },
        StopPhase::AwaitFinalProbe { stop_error } => {
            &&& event matches StopEvent::Probe(p)
            &&& post.phase matches StopPhase::AwaitFinalPid { stop_error: se2, probe }
            &&& opt_str_view(se2) == opt_str_view(stop_error)
            &&& probe_eq(probe, p)
            &&& action == (StopAction::ResolvePid { expected: Option::<u32>::None })
        },
        StopPhase::AwaitFinalPid { stop_error, probe } => {
            &&& event matches StopEvent::Pid(pid_after)
            &&& post.phase matches StopPhase::Done(s)
            &&& spec_stop_final_status(s, probe, pid_after, opt_str_view(stop_error), pre.listen_addr@)
            &&& action is Finish
        },
        StopPhase::Done(_) => false,
    }
}

/// View-level equality of two probe outcomes.
pub open spec fn probe_eq(a: DaemonProbe, b: DaemonProbe) -> bool {
    match (a, b) {
        (DaemonProbe::NotReachable, DaemonProbe::NotReachable) => true,
        (DaemonProbe::NotDaemon, DaemonProbe::NotDaemon) => true,
        (
            DaemonProbe::Running { auth_ok: a_ok, auth_error: a_err, info: a_info },
            DaemonProbe::Running { auth_ok: b_ok, auth_error: b_err, info: b_info },
        ) => a_ok == b_ok && opt_str_view(a_err) == opt_str_view(b_err) && info_eq_opt(
            a_info,
            b_info,
        ),
        _ => false,
    }
}

pub open spec fn info_eq_opt(a: Option<DaemonInfo>, b: Option<DaemonInfo>) -> bool {
    match (a, b) {
        (Option::None, Option::None) => true,
        (Option::Some(x), Option::Some(y)) => x.name@ == y.name@ && x.version@ == y.version@
            && x.pid == y.pid && x.mode@ == y.mode@ && opt_str_view(x.binary_path) == opt_str_view(
            y.binary_path,
        ),
        _ => false,
    }
}

impl StopMachine {
    /// A fresh `stop`.  When the listen address names no port at all,
    /// the command skips straight to the final confirmation probe, as
    /// there is nothing it could have stopped.
    pub fn new(listen_addr: String) -> (r: (StopMachine, StopAction))
        ensures
            r.0.listen_addr@ == listen_addr@,
            match crate::addr::spec_port_from_remote_host(listen_addr@) {
                Option::Some(port) => r.0.phase == (StopPhase::AwaitInitialProbe { port }),
                Option::None => r.0.phase matches StopPhase::AwaitFinalProbe { stop_error }
                    && stop_error is None,
            },
            r.1 is Probe,
    {
        match crate::addr::parse_port_from_remote_host(listen_addr.as_str()) {
            Some(port) => (
                StopMachine { listen_addr, phase: StopPhase::AwaitInitialProbe { port } },
                StopAction::Probe,
            ),
            None => (
                StopMachine {
                    listen_addr,
                    phase: StopPhase::AwaitFinalProbe { stop_error: None },
                },
                StopAction::Probe,
            ),
        }
    }

    pub fn step(self, event: StopEvent) -> (r: (StopMachine, StopAction))
        requires
            stop_expects(self.phase, event),
        ensures
            stop_step_ok(self, event, r.0, r.1),
    {
        let StopMachine { listen_addr, phase } = self;
        match phase {
            StopPhase::AwaitInitialProbe { port } => {
                let p = match event {
                    StopEvent::Probe(p) => p,
                    _ => {
                        proof {
                            assert(false);
                        }
                        DaemonProbe::NotReachable
                    },
                };
                match p {
                    DaemonProbe::Running { auth_ok, auth_error: _, info } => {
                        let fk = can_force_stop_daemon(
                            auth_ok,
                            match &info {
                                Some(i) => Some(i),
                                None => None,
                            },
                        );
                        let expected = info_pid(&info);
                        (
                            StopMachine {
                                listen_addr,
                                phase: StopPhase::AwaitShutdown { fk, expected },
                            },
                            StopAction::RequestShutdown,
                        )
                    },
                    DaemonProbe::NotDaemon => {
                        let head = str_concat(
                            "Port ",
                            crate::chars::u64_to_string(port as u64).as_str(),
                        );
                        let msg = str_concat(
                            head.as_str(),
                            " is in use by a non-daemon process; refusing to stop it.",
                        );
                        (
                            StopMachine {
                                listen_addr,
                                phase: StopPhase::AwaitFinalProbe { stop_error: Some(msg) },
                            },
                            StopAction::Probe,
                        )
                    },
                    DaemonProbe::NotReachable => (
                        StopMachine {
                            listen_addr,
                            phase: StopPhase::AwaitFinalProbe { stop_error: None },
                        },
                        StopAction::Probe,
                    ),
                }
            },
            StopPhase::AwaitShutdown { fk, expected } => {
                let r = match event {
                    StopEvent::Shutdown(r) => r,
                    _ => {
                        proof {
                            assert(false);
                        }
                        Ok(())
                    },
                };
                match r {
                    Ok(_) => (
                        StopMachine {
                            listen_addr,
                            phase: StopPhase::AwaitWaitProbe {
                                fk,
                                expected,
                                tries_left: SHUTDOWN_WAIT_TRIES,
                            },
                        },
                        StopAction::Probe,
                    ),
                    Err(e) => (
                        StopMachine {
                            listen_addr,
                            phase: StopPhase::AwaitPidAfterErr {
                                fk,
                                expected,
                                shutdown_error: e,
                            },
                        },
                        StopAction::ResolvePid { expected },
                    ),
                }
            },
            StopPhase::AwaitPidAfterErr { fk, expected, shutdown_error } => {
                let p = match event {
                    StopEvent::Pid(p) => p,
                    _ => {
                        proof {
                            assert(false);
                        }
                        None
                    },
                };
                match p {
                    Some(pid) => {
                        if fk {
                            (
                                StopMachine {
                                    listen_addr,
                                    phase: StopPhase::AwaitKillAfterErr {
                                        fk,
                                        expected,
                                        shutdown_error,
                                    },
                                },
                                StopAction::Kill { pid },
                            )
                        } else {
                            let msg = str_concat(
                                shutdown_error.as_str(),
                                "; refusing forced stop because daemon ownership could not be verified",
                            );
                            (
                                StopMachine {
                                    listen_addr,
                                    phase: StopPhase::AwaitFinalProbe { stop_error: Some(msg) },
                                },
                                StopAction::Probe,
                            )
                        }
                    },
                    None => (
                        StopMachine {
                            listen_addr,
                            phase: StopPhase::AwaitFinalProbe {
                                stop_error: Some(shutdown_error),
                            },
                        },
                        StopAction::Probe,
                    ),
                }
            },
            StopPhase::AwaitKillAfterErr { fk, expected, shutdown_error } => {
                let r = match event {
                    StopEvent::Kill(r) => r,
                    _ => {
                        proof {
                            assert(false);
                        }
                        Ok(())
                    },
                };
                match r {
                    Ok(_) => (
                        StopMachine {
                            listen_addr,
                            phase: StopPhase::AwaitWaitProbe {
                                fk,
                                expected,
                                tries_left: SHUTDOWN_WAIT_TRIES,
                            },
                        },
                        StopAction::Probe,
                    ),
                    Err(err) => {
                        let head = str_concat(shutdown_error.as_str(), "; ");
                        let msg = str_concat(head.as_str(), err.as_str());
                        (
                            StopMachine {
                                listen_addr,
                                phase: StopPhase::AwaitFinalProbe { stop_error: Some(msg) },
                            },
                            StopAction::Probe,
                        )
                    },
                }
            },
            StopPhase::AwaitWaitProbe { fk, expected, tries_left } => {
                let p = match event {
                    StopEvent::Probe(p) => p,
                    _ => {
                        proof {
                            assert(false);
                        }
                        DaemonProbe::NotReachable
                    },
                };
                match p {
                    DaemonProbe::NotReachable => (
                        StopMachine {
                            listen_addr,
                            phase: StopPhase::AwaitFinalProbe { stop_error: None },
                        },
                        StopAction::Probe,
                    ),
                    _ => (
                        StopMachine {
                            listen_addr,
                            phase: StopPhase::AwaitWaitSleep { fk, expected, tries_left },
                        },
                        StopAction::Sleep,
                    ),
                }
            },
            StopPhase::AwaitWaitSleep { fk, expected, tries_left } => {
                if tries_left > 1 {
                    (
                        StopMachine {
                            listen_addr,
                            phase: StopPhase::AwaitWaitProbe {
                                fk,
                                expected,
                                tries_left: tries_left - 1,
                            },
                        },
                        StopAction::Probe,
                    )
                } else if fk {
                    (
                        StopMachine { listen_addr, phase: StopPhase::AwaitPidAfterWait },
                        StopAction::ResolvePid { expected },
                    )
                } else {
                    (
                        StopMachine {
                            listen_addr,
                            phase: StopPhase::AwaitFinalProbe {
                                stop_error: Some(
                                    String::from_str(
                                        "Daemon acknowledged shutdown but is still reachable; refusing forced stop because daemon ownership could not be verified.",
                                    ),
                                ),
                            },
                        },
                        StopAction::Probe,
                    )
                }
            },
            StopPhase::AwaitPidAfterWait => {
                let p = match event {
                    StopEvent::Pid(p) => p,
                    _ => {
                        proof {
                            assert(false);
                        }
                        None
                    },
                };
                match p {
                    Some(pid) => (
                        StopMachine { listen_addr, phase: StopPhase::AwaitKillAfterWait },
                        StopAction::Kill { pid },
                    ),
                    None => (
                        StopMachine {
                            listen_addr,
                            phase: StopPhase::AwaitFinalProbe {
                                stop_error: Some(
                                    String::from_str(
                                        "Daemon acknowledged shutdown but remained reachable and PID could not be resolved.",
                                    ),
                                ),
                            },
                        },
                        StopAction::Probe,
                    ),
                }
            },
            StopPhase::AwaitKillAfterWait => {
                let r = match event {
                    StopEvent::Kill(r) => r,
                    _ => {
                        proof {
                            assert(false);
                        }
                        Ok(())
                    },
                };
                match r {
                    Ok(_) => (
                        StopMachine {
                            listen_addr,
                            phase: StopPhase::AwaitFinalProbe { stop_error: None },
                        },
                        StopAction::Probe,
                    ),
                    Err(err) => {
                        let msg = str_concat(
                            "Daemon acknowledged shutdown but remained reachable; ",
                            err.as_str(),
                        );
                        (
                            StopMachine {
                                listen_addr,
                                phase: StopPhase::AwaitFinalProbe { stop_error: Some(msg) },
                            },
                            StopAction::Probe,
                        )
                    },
                }
            },
            StopPhase::AwaitFinalProbe { stop_error } => {
                let p = match event {
                    StopEvent::Probe(p) => p,
                    _ => {
                        proof {
                            assert(false);
                        }
                        DaemonProbe::NotReachable
                    },
                };
                (
                    StopMachine {
                        listen_addr,
                        phase: StopPhase::AwaitFinalPid { stop_error, probe: p },
                    },
                    StopAction::ResolvePid { expected: None },
                )
            },
            StopPhase::AwaitFinalPid { stop_error, probe } => {
                let pid_after = match event {
                    StopEvent::Pid(p) => p,
                    _ => {
                        proof {
                            assert(false);
                        }
                        None
                    },
                };
                let status = stop_final_status(probe, pid_after, stop_error, listen_addr.as_str());
                (
                    StopMachine { listen_addr, phase: StopPhase::Done(status) },
                    StopAction::Finish,
                )
            },
            StopPhase::Done(s) => {
                proof {
                    assert(false);
                }
                (StopMachine { listen_addr, phase: StopPhase::Done(s) }, StopAction::Finish)
            },
        }
    }

    pub fn outcome(self) -> (r: Option<TcpDaemonStatus>)
        ensures
            match self.phase {
                StopPhase::Done(s) => r == Some(s),
                _ => r is None,
            },
    {
        match self.phase {
            StopPhase::Done(s) => Some(s),
            _ => None,
        }
    }
}


pub enum StartAction {
    Probe,
    ResolvePid { expected: Option<u32> },
    RequestShutdown,
    Kill { pid: u32 },
    Sleep,
    /// Bind-test the listen address, to fail fast when something else
    /// grabbed it between the probe and the spawn.
    BindTest,
    /// Spawn the daemon process with the resolved arguments.
    Spawn,
    Finish,
}

pub enum StartEvent {
    Probe(DaemonProbe),
    Pid(Option<u32>),
    Shutdown(Result<(), String>),
    Kill(Result<(), String>),
    Slept,
    /// The bind test: success, or the OS error text.
    Bind(Result<(), String>),
    /// The spawn: the child pid when the OS reports one, and the clock
    /// reading for `started_at_ms`; or the OS error text.
    Spawn(Result<(Option<u32>, i64), String>),
}

pub enum StartPhase {
    AwaitProbe,
    AwaitPid { auth_ok: bool, auth_error: Option<String>, info: Option<DaemonInfo> },
    AwaitShutdown {
        fk: bool,
        expected: Option<u32>,
        pid_for_control: Option<u32>,
        reason: String,
    },
    AwaitKillAfterErr { fk: bool, expected: Option<u32>, reason: String, shutdown_error: String },
    AwaitWaitProbe { fk: bool, expected: Option<u32>, reason: String, tries_left: u8 },
    AwaitWaitSleep { fk: bool, expected: Option<u32>, reason: String, tries_left: u8 },
    AwaitPidAfterWait { reason: String },
    AwaitKillAfterWait { reason: String },
    AwaitBind,
    AwaitSpawn,
    Done(Result<TcpDaemonStatus, String>),
}

pub struct StartMachine {
    pub listen_addr: String,
    pub phase: StartPhase,
}

pub open spec fn start_expects(phase: StartPhase, event: StartEvent) -> bool {
    match phase {
        StartPhase::AwaitProbe => event is Probe,
        StartPhase::AwaitPid { .. } => event is Pid,
        StartPhase::AwaitShutdown { .. } => event is Shutdown,
        StartPhase::AwaitKillAfterErr { .. } => event is Kill,
        StartPhase::AwaitWaitProbe { .. } => event is Probe,
        StartPhase::AwaitWaitSleep { .. } => event is Slept,
        StartPhase::AwaitPidAfterWait { .. } => event is Pid,
        StartPhase::AwaitKillAfterWait { .. } => event is Kill,
        StartPhase::AwaitBind => event is Bind,
        StartPhase::AwaitSpawn => event is Spawn,
        StartPhase::Done(_) => false,
    }
}

/// The transition relation of `start`.  A compatible daemon short-circuits
/// to success without a spawn; a foreign listener refuses outright; an
/// incompatible daemon is stopped, behind the ownership gate, before
/// anything is spawned; and the spawn is preceded by a bind test.
pub open spec fn start_step_ok(
    pre: StartMachine,
    event: StartEvent,
    post: StartMachine,
    action: StartAction,
) -> bool {
    post.listen_addr@ == pre.listen_addr@ && match pre.phase {
        StartPhase::AwaitProbe => {
            &&& event matches StartEvent::Probe(p)
            &&& match p {
                DaemonProbe::Running { auth_ok, auth_error, info } => {
                    &&& post.phase matches StartPhase::AwaitPid {
                        auth_ok: ok2,
                        auth_error: ae2,
                        info: info2,
                    }
                    &&& ok2 == auth_ok
                    &&& opt_str_view(ae2) == opt_str_view(auth_error)
                    &&& info_eq_opt(info2, info)
                    &&& action == (StartAction::ResolvePid { expected: spec_info_pid(info) })
                },
                DaemonProbe::NotDaemon => {
                    &&& post.phase matches StartPhase::Done(Result::Err(m))
                    &&& m@ == "Cannot start mobile access daemon because "@ + pre.listen_addr@
                        + " is already in use by another process."@
                    &&& action is Finish
                },
                DaemonProbe::NotReachable => post.phase is AwaitBind && action is BindTest,
            }
        },
        StartPhase::AwaitPid { auth_ok, auth_error, info } => {
            &&& event matches StartEvent::Pid(pid)
            &&& if !auth_ok {
                &&& post.phase matches StartPhase::Done(Result::Err(m))
                &&& m@ == match opt_str_view(auth_error) {
                    Option::Some(ae) => ae,
                    Option::None => "Daemon is already running but authentication failed."@,
                }
                &&& action is Finish
            } else if !spec_should_restart(info) {
                &&& post.phase matches StartPhase::Done(Result::Ok(s))
                &&& status_ok(
                    s,
                    TcpDaemonState::Running,
                    pid,
                    None,
                    None,
                    Some(pre.listen_addr@),
                )
                &&& action is Finish
            } else {
                &&& post.phase matches StartPhase::AwaitShutdown {
                    fk,
                    expected,
                    pid_for_control,
                    reason,
                }
                &&& fk == spec_can_force_stop(auth_ok, info)
                &&& expected == spec_info_pid(info)
                &&& pid_for_control == pid
                &&& reason@ == spec_restart_reason(info)
                &&& action is RequestShutdown
            }
        },
        StartPhase::AwaitShutdown { fk, expected, pid_for_control, reason } => {
            &&& event matches StartEvent::Shutdown(r)
            &&& match r {
                Result::Ok(_) => {
                    &&& post.phase matches StartPhase::AwaitWaitProbe {
                        fk: fk2,
                        expected: ex2,
                        reason: r2,
                        tries_left,
                    }
                    &&& fk2 == fk
                    &&& ex2 == expected
                    &&& r2@ == reason@
                    &&& tries_left == SHUTDOWN_WAIT_TRIES
                    &&& action is Probe
                },
                Result::Err(e) => {
                    if !fk {
                        &&& post.phase matches StartPhase::Done(Result::Err(m))
                        &&& m@ == reason@
                            + "; automatic restart aborted because daemon ownership could not be verified: "@
                            + e@
                        &&& action is Finish
                    } else {
                        match pid_for_control {
                            Option::Some(pid) => {
                                &&& post.phase matches StartPhase::AwaitKillAfterErr {
                                    fk: fk2,
                                    expected: ex2,
                                    reason: r2,
                                    shutdown_error,
                                }
                                &&& fk2 == fk
                                &&& ex2 == expected
                                &&& r2@ == reason@
                                &&& shutdown_error@ == e@
                                &&& action == (StartAction::Kill { pid })
                            },
                            Option::None => {
                                &&& post.phase matches StartPhase::Done(Result::Err(m))
                                &&& m@ == reason@
                                    + "; daemon did not stop and no PID could be resolved for safe forced stop ("@
                                    + e@ + ")"@
                                &&& action is Finish
                            },
                        }
                    }
                },
            }
        },
        StartPhase::AwaitKillAfterErr { fk, expected, reason, shutdown_error } => {
            &&& event matches StartEvent::Kill(r)
            &&& match r {
                Result::Ok(_) => {
                    &&& post.phase matches StartPhase::AwaitWaitProbe {
                        fk: fk2,
                        expected: ex2,
                        reason: r2,
                        tries_left,
                    }
                    &&& fk2 == fk
                    &&& ex2 == expected
                    &&& r2@ == reason@
                    &&& tries_left == SHUTDOWN_WAIT_TRIES
                    &&& action is Probe
                },
                Result::Err(err) => {
                    &&& post.phase matches StartPhase::Done(Result::Err(m))
                    &&& m@ == reason@ + "; graceful shutdown failed ("@ + shutdown_error@
                        + ") and forced stop failed: "@ + err@
                    &&& action is Finish
                },
            }
        },
        StartPhase::AwaitWaitProbe { fk, expected, reason, tries_left } => {
            &&& event matches StartEvent::Probe(p)
            &&& match p {
                DaemonProbe::NotReachable => post.phase is AwaitBind && action is BindTest,
                _ => {
                    &&& post.phase matches StartPhase::AwaitWaitSleep {
                        fk: fk2,
                        expected: ex2,
                        reason: r2,
                        tries_left: t2,
                    }
                    &&& fk2 == fk
                    &&& ex2 == expected
                    &&& r2@ == reason@
                    &&& t2 == tries_left
                    &&& action is Sleep
                },
            }
        },
        StartPhase::AwaitWaitSleep { fk, expected, reason, tries_left } => {
            &&& event is Slept
            &&& if tries_left > 1 {
                &&& post.phase matches StartPhase::AwaitWaitProbe {
                    fk: fk2,
                    expected: ex2,
                    reason: r2,
                    tries_left: t2,
                }
                &&& fk2 == fk
                &&& ex2 == expected
                &&& r2@ == reason@
                &&& t2 == tries_left - 1
                &&& action is Probe
            } else if !fk {
                &&& post.phase matches StartPhase::Done(Result::Err(m))
                &&& m@ == reason@ + "; daemon acknowledged shutdown but is still reachable"@
                &&& action is Finish
            } else {
                &&& post.phase matches StartPhase::AwaitPidAfterWait { reason: r2 }
                &&& r2@ == reason@
                &&& action == (StartAction::ResolvePid { expected })
            }
        },
        StartPhase::AwaitPidAfterWait { reason } => {
            &&& event matches StartEvent::Pid(p)
            &&& match p {
                Option::Some(pid) => {
                    &&& post.phase matches StartPhase::AwaitKillAfterWait { reason: r2 }
                    &&& r2@ == reason@
                    &&& action == (StartAction::Kill { pid })
                },
                Option::None => {
                    &&& post.phase matches StartPhase::Done(Result::Err(m))
                    &&& m@ == reason@
                        + "; daemon remained reachable and no PID could be resolved for safe forced stop"@
                    &&& action is Finish
                },
            }
        },
        StartPhase::AwaitKillAfterWait { reason } => {
            &&& event matches StartEvent::Kill(r)
            &&& match r {
                Result::Ok(_) => post.phase is AwaitBind && action is BindTest,
                Result::Err(err) => {
                    &&& post.phase matches StartPhase::Done(Result::Err(m))
                    &&& m@ == reason@ + "; daemon remained reachable and forced stop failed: "@
                        + err@
                    &&& action is Finish
                },
            }
        },
        StartPhase::AwaitBind => {
            &&& event matches StartEvent::Bind(r)
            &&& match r {
                Result::Ok(_) => post.phase is AwaitSpawn && action is Spawn,
                Result::Err(e) => {
                    &&& post.phase matches StartPhase::Done(Result::Err(m))
                    &&& m@ == "Cannot start mobile access daemon because "@ + pre.listen_addr@
                        + " is unavailable: "@ + e@
                    &&& action is Finish
                },
            }
        },
        StartPhase::AwaitSpawn => {
            &&& event matches StartEvent::Spawn(r)
            &&& match r {
                Result::Ok((pid, now_ms)) => {
                    &&& post.phase matches StartPhase::Done(Result::Ok(s))
                    &&& status_ok(
                        s,
                        TcpDaemonState::Running,
                        pid,
                        Some(now_ms),
                        None,
                        Some(pre.listen_addr@),
                    )
                    &&& action is Finish
                },
                Result::Err(e) => {
                    &&& post.phase matches StartPhase::Done(Result::Err(m))
                    &&& m@ == "Failed to start mobile access daemon: "@ + e@
                    &&& action is Finish
                },
            }
        },
        StartPhase::Done(_) => false,
    }
}

impl StartMachine {
    /// A fresh `start`.  Without a token and without the explicit
    /// no-auth opt-in, or with an address naming no port, the command
    /// refuses before touching the network.
    pub fn new(listen_addr: String, has_token: bool, insecure_no_auth: bool) -> (r: (
        StartMachine,
        StartAction,
    ))
        ensures
            r.0.listen_addr@ == listen_addr@,
            if !insecure_no_auth && !has_token {
                &&& r.0.phase matches StartPhase::Done(Result::Err(m))
                &&& m@
                    == "Set a Remote backend token before starting mobile access daemon (or pass --insecure-no-auth for development)."@
                &&& r.1 is Finish
            } else if crate::addr::spec_port_from_remote_host(listen_addr@) is None {
                &&& r.0.phase matches StartPhase::Done(Result::Err(m))
                &&& m@ == "Invalid daemon listen address: "@ + listen_addr@
                &&& r.1 is Finish
            } else {
                r.0.phase is AwaitProbe && r.1 is Probe
            },
    {
        if !insecure_no_auth && !has_token {
            let msg = String::from_str(
                "Set a Remote backend token before starting mobile access daemon (or pass --insecure-no-auth for development).",
            );
            return (
                StartMachine { listen_addr, phase: StartPhase::Done(Err(msg)) },
                StartAction::Finish,
            );
        }
        if crate::addr::parse_port_from_remote_host(listen_addr.as_str()).is_none() {
            let msg = str_concat("Invalid daemon listen address: ", listen_addr.as_str());
            return (
                StartMachine { listen_addr, phase: StartPhase::Done(Err(msg)) },
                StartAction::Finish,
            );
        }
        (StartMachine { listen_addr, phase: StartPhase::AwaitProbe }, StartAction::Probe)
    }

    pub fn step(self, event: StartEvent) -> (r: (StartMachine, StartAction))
        requires
            start_expects(self.phase, event),
        ensures
            start_step_ok(self, event, r.0, r.1),
    {
        let StartMachine { listen_addr, phase } = self;
        match phase {
            StartPhase::AwaitProbe => {
                let p = match event {
                    StartEvent::Probe(p) => p,
                    _ => {
                        proof {
                            assert(false);
                        }
                        DaemonProbe::NotReachable
                    },
                };
                match p {
                    DaemonProbe::Running { auth_ok, auth_error, info } => {
                        let expected = info_pid(&info);
                        (
                            StartMachine {
                                listen_addr,
                                phase: StartPhase::AwaitPid { auth_ok, auth_error, info },
                            },
                            StartAction::ResolvePid { expected },
                        )
                    },
                    DaemonProbe::NotDaemon => {
                        let head = str_concat(
                            "Cannot start mobile access daemon because ",
                            listen_addr.as_str(),
                        );
                        let msg = str_concat(
                            head.as_str(),
                            " is already in use by another process.",
                        );
                        (
                            StartMachine { listen_addr, phase: StartPhase::Done(Err(msg)) },
                            StartAction::Finish,
                        )
                    },
                    DaemonProbe::NotReachable => (
                        StartMachine { listen_addr, phase: StartPhase::AwaitBind },
                        StartAction::BindTest,
                    ),
                }
            },
            StartPhase::AwaitPid { auth_ok, auth_error, info } => {
                let pid = match event {
                    StartEvent::Pid(p) => p,
                    _ => {
                        proof {
                            assert(false);
                        }
                        None
                    },
                };
                if !auth_ok {
                    let msg = match auth_error {
                        Some(ae) => ae,
                        None => String::from_str(
                            "Daemon is already running but authentication failed.",
                        ),
                    };
                    (
                        StartMachine { listen_addr, phase: StartPhase::Done(Err(msg)) },
                        StartAction::Finish,
                    )
                } else {
                    let restart_required = should_restart_daemon(
                        match &info {
                            Some(i) => Some(i),
                            None => None,
                        },
                    );
                    if !restart_required {
                        let status = TcpDaemonStatus {
                            state: TcpDaemonState::Running,
                            pid,
                            started_at_ms: None,
                            last_error: None,
                            listen_addr: Some(listen_addr.clone()),
                        };
                        (
                            StartMachine { listen_addr, phase: StartPhase::Done(Ok(status)) },
                            StartAction::Finish,
                        )
                    } else {
                        let fk = can_force_stop_daemon(
                            auth_ok,
                            match &info {
                                Some(i) => Some(i),
                                None => None,
                            },
                        );
                        let reason = daemon_restart_reason(
                            match &info {
                                Some(i) => Some(i),
                                None => None,
                            },
                        );
                        let expected = info_pid(&info);
                        (
                            StartMachine {
                                listen_addr,
                                phase: StartPhase::AwaitShutdown {
                                    fk,
                                    expected,
                                    pid_for_control: pid,
                                    reason,
                                },
                            },
                            StartAction::RequestShutdown,
                        )
                    }
                }
            },
            StartPhase::AwaitShutdown { fk, expected, pid_for_control, reason } => {
                let r = match event {
                    StartEvent::Shutdown(r) => r,
                    _ => {
                        proof {
                            assert(false);
                        }
                        Ok(())
                    },
                };
                match r {
                    Ok(_) => (
                        StartMachine {
                            listen_addr,
                            phase: StartPhase::AwaitWaitProbe {
                                fk,
                                expected,
                                reason,
                                tries_left: SHUTDOWN_WAIT_TRIES,
                            },
                        },
                        StartAction::Probe,
                    ),
                    Err(e) => {
                        if !fk {
                            let head = str_concat(
                                reason.as_str(),
                                "; automatic restart aborted because daemon ownership could not be verified: ",
                            );
                            let msg = str_concat(head.as_str(), e.as_str());
                            (
                                StartMachine { listen_addr, phase: StartPhase::Done(Err(msg)) },
                                StartAction::Finish,
                            )
                        } else {
                            match pid_for_control {
                                Some(pid) => (
                                    StartMachine {
                                        listen_addr,
                                        phase: StartPhase::AwaitKillAfterErr {
                                            fk,
                                            expected,
                                            reason,
                                            shutdown_error: e,
                                        },
                                    },
                                    StartAction::Kill { pid },
                                ),
                                None => {
                                    let head = str_concat(
                                        reason.as_str(),
                                        "; daemon did not stop and no PID could be resolved for safe forced stop (",
                                    );
                                    let mid = str_concat(head.as_str(), e.as_str());
                                    let msg = str_concat(mid.as_str(), ")");
                                    (
                                        StartMachine {
                                            listen_addr,
                                            phase: StartPhase::Done(Err(msg)),
                                        },
                                        StartAction::Finish,
                                    )
                                },
                            }
                        }
                    },
                }
            },
            StartPhase::AwaitKillAfterErr { fk, expected, reason, shutdown_error } => {
                let r = match event {
                    StartEvent::Kill(r) => r,
                    _ => {
                        proof {
                            assert(false);
                        }
                        Ok(())
                    },
                };
                match r {
                    Ok(_) => (
                        StartMachine {
                            listen_addr,
                            phase: StartPhase::AwaitWaitProbe {
                                fk,
                                expected,
                                reason,
                                tries_left: SHUTDOWN_WAIT_TRIES,
                            },
                        },
                        StartAction::Probe,
                    ),
                    Err(err) => {
                        let a = str_concat(reason.as_str(), "; graceful shutdown failed (");
                        let b = str_concat(a.as_str(), shutdown_error.as_str());
                        let c = str_concat(b.as_str(), ") and forced stop failed: ");
                        let msg = str_concat(c.as_str(), err.as_str());
                        (
                            StartMachine { listen_addr, phase: StartPhase::Done(Err(msg)) },
                            StartAction::Finish,
                        )
                    },
                }
            },
            StartPhase::AwaitWaitProbe { fk, expected, reason, tries_left } => {
                let p = match event {
                    StartEvent::Probe(p) => p,
                    _ => {
                        proof {
                            assert(false);
                        }
                        DaemonProbe::NotReachable
                    },
                };
                match p {
                    DaemonProbe::NotReachable => (
                        StartMachine { listen_addr, phase: StartPhase::AwaitBind },
                        StartAction::BindTest,
                    ),
                    _ => (
                        StartMachine {
                            listen_addr,
                            phase: StartPhase::AwaitWaitSleep { fk, expected, reason, tries_left },
                        },
                        StartAction::Sleep,
                    ),
                }
            },
            StartPhase::AwaitWaitSleep { fk, expected, reason, tries_left } => {
                if tries_left > 1 {
                    (
                        StartMachine {
                            listen_addr,
                            phase: StartPhase::AwaitWaitProbe {
                                fk,
                                expected,
                                reason,
                                tries_left: tries_left - 1,
                            },
                        },
                        StartAction::Probe,
                    )
                } else if !fk {
                    let msg = str_concat(
                        reason.as_str(),
                        "; daemon acknowledged shutdown but is still reachable",
                    );
                    (
                        StartMachine { listen_addr, phase: StartPhase::Done(Err(msg)) },
                        StartAction::Finish,
                    )
                } else {
                    (
                        StartMachine {
                            listen_addr,
                            phase: StartPhase::AwaitPidAfterWait { reason },
                        },
                        StartAction::ResolvePid { expected },
                    )
                }
            },
            StartPhase::AwaitPidAfterWait { reason } => {
                let p = match event {
                    StartEvent::Pid(p) => p,
                    _ => {
                        proof {
                            assert(false);
                        }
                        None
                    },
                };
                match p {
                    Some(pid) => (
                        StartMachine {
                            listen_addr,
                            phase: StartPhase::AwaitKillAfterWait { reason },
                        },
                        StartAction::Kill { pid },
                    ),
                    None => {
                        let msg = str_concat(
                            reason.as_str(),
                            "; daemon remained reachable and no PID could be resolved for safe forced stop",
                        );
                        (
                            StartMachine { listen_addr, phase: StartPhase::Done(Err(msg)) },
                            StartAction::Finish,
                        )
                    },
                }
            },
            StartPhase::AwaitKillAfterWait { reason } => {
                let r = match event {
                    StartEvent::Kill(r) => r,
                    _ => {
                        proof {
                            assert(false);
                        }
                        Ok(())
                    },
                };
                match r {
                    Ok(_) => (
                        StartMachine { listen_addr, phase: StartPhase::AwaitBind },
                        StartAction::BindTest,
                    ),
                    Err(err) => {
                        let head = str_concat(
                            reason.as_str(),
                            "; daemon remained reachable and forced stop failed: ",
                        );
                        let msg = str_concat(head.as_str(), err.as_str());
                        (
                            StartMachine { listen_addr, phase: StartPhase::Done(Err(msg)) },
                            StartAction::Finish,
                        )
                    },
                }
            },
            StartPhase::AwaitBind => {
                let r = match event {
                    StartEvent::Bind(r) => r,
                    _ => {
                        proof {
                            assert(false);
                        }
                        Ok(())
                    },
                };
                match r {
                    Ok(_) => (
                        StartMachine { listen_addr, phase: StartPhase::AwaitSpawn },
                        StartAction::Spawn,
                    ),
                    Err(e) => {
                        let head = str_concat(
                            "Cannot start mobile access daemon because ",
                            listen_addr.as_str(),
                        );
                        let mid = str_concat(head.as_str(), " is unavailable: ");
                        let msg = str_concat(mid.as_str(), e.as_str());
                        (
                            StartMachine { listen_addr, phase: StartPhase::Done(Err(msg)) },
                            StartAction::Finish,
                        )
                    },
                }
            },
            StartPhase::AwaitSpawn => {
                let r = match event {
                    StartEvent::Spawn(r) => r,
                    _ => {
                        proof {
                            assert(false);
                        }
                        Err(String::new())
                    },
                };
                match r {
                    Ok((pid, now_ms)) => {
                        let status = TcpDaemonStatus {
                            state: TcpDaemonState::Running,
                            pid,
                            started_at_ms: Some(now_ms),
                            last_error: None,
                            listen_addr: Some(listen_addr.clone()),
                        };
                        (
                            StartMachine { listen_addr, phase: StartPhase::Done(Ok(status)) },
                            StartAction::Finish,
                        )
                    },
                    Err(e) => {
                        let msg = str_concat("Failed to start mobile access daemon: ", e.as_str());
                        (
                            StartMachine { listen_addr, phase: StartPhase::Done(Err(msg)) },
                            StartAction::Finish,
                        )
                    },
                }
            },
            StartPhase::Done(d) => {
                proof {
                    assert(false);
                }
                (StartMachine { listen_addr, phase: StartPhase::Done(d) }, StartAction::Finish)
            },
        }
    }

    pub fn outcome(self) -> (r: Option<Result<TcpDaemonStatus, String>>)
        ensures
            match self.phase {
                StartPhase::Done(d) => r == Some(d),
                _ => r is None,
            },
    {
        match self.phase {
            StartPhase::Done(d) => Some(d),
            _ => None,
        }
    }
}


/// The ownership rule over one `stop` transition: a forced stop is
/// requested only where the machine recorded a verified owner, and the
/// branch that retries a forced stop after the wait is reachable only
/// from a wait that recorded one.
pub proof fn lemma_stop_kill_requires_ownership(
    pre: StopMachine,
    event: StopEvent,
    post: StopMachine,
    action: StopAction,
)
    requires
        stop_step_ok(pre, event, post, action),
    ensures
        action matches StopAction::Kill { .. } ==> ((pre.phase matches StopPhase::AwaitPidAfterErr {
            fk,
            ..
        } && fk) || pre.phase is AwaitPidAfterWait),
        post.phase is AwaitPidAfterWait ==> (pre.phase matches StopPhase::AwaitWaitSleep {
            fk,
            ..
        } && fk),
{
}

/// The ownership rule over one `start` transition, stated the same way.
pub proof fn lemma_start_kill_requires_ownership(
    pre: StartMachine,
    event: StartEvent,
    post: StartMachine,
    action: StartAction,
)
    requires
        start_step_ok(pre, event, post, action),
    ensures
        action matches StartAction::Kill { .. } ==> ((pre.phase matches StartPhase::AwaitShutdown {
            fk,
            ..
        } && fk) || pre.phase is AwaitPidAfterWait),
        post.phase is AwaitPidAfterWait ==> (pre.phase matches StartPhase::AwaitWaitSleep {
            fk,
            ..
        } && fk),
{
}

} // verus!
