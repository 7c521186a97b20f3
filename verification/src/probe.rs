//! The probe state machine: `ping`, then on an authorization failure
//! `auth` and a second `ping`, then a best-effort identity request.
//! The machine makes every decision; the caller only connects, sends
//! the requests and hands back each outcome.
use crate::addr::spec_trim_non_empty;
use crate::addr::trim_non_empty;
use crate::chars::str_concat;
use crate::ident::spec_is_auth_error;
use crate::ident::is_auth_error_message;
use crate::ident::DaemonInfo;
use vstd::prelude::*;
use vstd::string::StringExecFns;

verus! {

/// The classification of the remote endpoint, recomputed on every
/// probe and never cached.
pub enum DaemonProbe {
    /// Nothing answered the connection attempt in time.
    NotReachable,
    /// The protocol answered; authentication may still have failed.
    Running { auth_ok: bool, auth_error: Option<String>, info: Option<DaemonInfo> },
    /// Something answered, but not with this protocol.
    NotDaemon,
}

pub enum ProbePhase {
    AwaitConnect,
    AwaitPing,
    AwaitAuth,
    AwaitRetryPing,
    AwaitInfo,
    Done(DaemonProbe),
}

/// What the driver reports back after performing the last action.
pub enum ProbeEvent {
    /// The connection attempt succeeded or failed (failure includes a
    /// timeout and an unusable address).
    Connect(bool),
    /// A request round trip: success, or the error message, whether
    /// the transport or the remote produced it.
    Rpc(Result<(), String>),
    /// The identity request, already parsed; any failure is `None`.
    Info(Option<DaemonInfo>),
}

/// What the driver must do next.
pub enum ProbeAction {
    SendPing,
    SendAuth(String),
    SendInfo,
    Finish,
}

pub struct ProbeMachine {
    pub token: Option<String>,
    pub phase: ProbePhase,
}

pub open spec fn opt_str_view(o: Option<String>) -> Option<Seq<char>> {
    match o {
        Option::Some(s) => Some(s@),
        Option::None => None,
    }
}

/// The event kind each phase waits for.
pub open spec fn probe_expects(phase: ProbePhase, event: ProbeEvent) -> bool {
    match phase {
        ProbePhase::AwaitConnect => event is Connect,
        ProbePhase::AwaitPing => event is Rpc,
        ProbePhase::AwaitAuth => event is Rpc,
        ProbePhase::AwaitRetryPing => event is Rpc,
        ProbePhase::AwaitInfo => event is Info,
        ProbePhase::Done(_) => false,
    }
}

/// The transition relation of the probe: one clause per rule of the
/// challenge flow.
pub open spec fn probe_step_ok(
    pre: ProbeMachine,
    event: ProbeEvent,
    post: ProbeMachine,
    action: ProbeAction,
) -> bool {
    opt_str_view(post.token) == opt_str_view(pre.token) && match pre.phase {
        ProbePhase::AwaitConnect => {
            &&& event matches ProbeEvent::Connect(ok)
            &&& if ok {
                post.phase is AwaitPing && action is SendPing
            } else {
                post.phase == ProbePhase::Done(DaemonProbe::NotReachable) && action is Finish
            }
        },
        ProbePhase::AwaitPing => {
            &&& event matches ProbeEvent::Rpc(r)
            &&& match r {
                Result::Ok(_) => post.phase is AwaitInfo && action is SendInfo,
                Result::Err(m) => {
                    if !spec_is_auth_error(m@) {
                        post.phase == ProbePhase::Done(DaemonProbe::NotDaemon) && action is Finish
                    } else {
                        match spec_trim_non_empty(opt_str_view(pre.token)) {
                            Option::None => {
                                &&& post.phase matches ProbePhase::Done(
                                    DaemonProbe::Running { auth_ok, auth_error, info },
                                )
                                &&& auth_ok == false
                                &&& info is None
                                &&& auth_error matches Option::Some(ae)
                                &&& ae@
                                    == "Daemon is running but requires a remote backend token."@
                                &&& action is Finish
                            },
                            Option::Some(t) => {
                                &&& post.phase is AwaitAuth
                                &&& action matches ProbeAction::SendAuth(tok)
                                &&& tok@ == t
                            },
                        }
                    }
                },
            }
        },
        ProbePhase::AwaitAuth => {
            &&& event matches ProbeEvent::Rpc(r)
            &&& match r {
                Result::Ok(_) => post.phase is AwaitRetryPing && action is SendPing,
                Result::Err(m) => {
                    if spec_is_auth_error(m@) {
                        &&& post.phase matches ProbePhase::Done(
                            DaemonProbe::Running { auth_ok, auth_error, info },
                        )
                        &&& auth_ok == false
                        &&& info is None
                        &&& auth_error matches Option::Some(ae)
                        &&& ae@ == "Daemon is running but token authentication failed: "@ + m@
                        &&& action is Finish
                    } else {
                        post.phase == ProbePhase::Done(DaemonProbe::NotDaemon) && action is Finish
                    }
                },
            }
        },
        ProbePhase::AwaitRetryPing => {
            &&& event matches ProbeEvent::Rpc(r)
            &&& match r {
                Result::Ok(_) => post.phase is AwaitInfo && action is SendInfo,
                Result::Err(m) => {
                    &&& post.phase matches ProbePhase::Done(
                        DaemonProbe::Running { auth_ok, auth_error, info },
                    )
                    &&& auth_ok == false
                    &&& info is None
                    &&& auth_error matches Option::Some(ae)
                    &&& ae@ == "Daemon is running but ping failed after auth: "@ + m@
                    &&& action is Finish
                },
            }
        },
        ProbePhase::AwaitInfo => {
            &&& event matches ProbeEvent::Info(oi)
            &&& post.phase == ProbePhase::Done(
                DaemonProbe::Running { auth_ok: true, auth_error: None, info: oi },
            )
            &&& action is Finish
        },
        ProbePhase::Done(_) => false,
    }
}

impl ProbeMachine {
    /// A fresh probe; the driver connects first and reports the result.
    pub fn new(token: Option<String>) -> (m: ProbeMachine)
        ensures
            m.phase is AwaitConnect,
            opt_str_view(m.token) == opt_str_view(token),
    {
        ProbeMachine { token, phase: ProbePhase::AwaitConnect }
    }

    /// One transition of the challenge flow.
    pub fn step(self, event: ProbeEvent) -> (r: (ProbeMachine, ProbeAction))
        requires
            probe_expects(self.phase, event),
        ensures
            probe_step_ok(self, event, r.0, r.1),
    {
        let ProbeMachine { token, phase } = self;
        match phase {
            ProbePhase::AwaitConnect => {
                let ok = match event {
                    ProbeEvent::Connect(ok) => ok,
                    _ => {
                        proof {
                            assert(false);
                        }
                        false
                    },
                };
                if ok {
                    (
                        ProbeMachine { token, phase: ProbePhase::AwaitPing },
                        ProbeAction::SendPing,
                    )
                } else {
                    (
                        ProbeMachine {
                            token,
                            phase: ProbePhase::Done(DaemonProbe::NotReachable),
                        },
                        ProbeAction::Finish,
                    )
                }
            },
            ProbePhase::AwaitPing => {
                let r = match event {
                    ProbeEvent::Rpc(r) => r,
                    _ => {
                        proof {
                            assert(false);
                        }
                        Ok(())
                    },
                };
                match r {
                    Ok(_) => (
                        ProbeMachine { token, phase: ProbePhase::AwaitInfo },
                        ProbeAction::SendInfo,
                    ),
                    Err(m) => {
                        if !is_auth_error_message(m.as_str()) {
                            (
                                ProbeMachine {
                                    token,
                                    phase: ProbePhase::Done(DaemonProbe::NotDaemon),
                                },
                                ProbeAction::Finish,
                            )
                        } else {
                            let trimmed = trim_non_empty(
                                match &token {
                                    Some(t) => Some(t.as_str()),
                                    None => None,
                                },
                            );
                            match trimmed {
                                None => (
                                    ProbeMachine {
                                        token,
                                        phase: ProbePhase::Done(
                                            DaemonProbe::Running {
                                                auth_ok: false,
                                                auth_error: Some(
                                                    String::from_str(
                                                        "Daemon is running but requires a remote backend token.",
                                                    ),
                                                ),
                                                info: None,
                                            },
                                        ),
                                    },
                                    ProbeAction::Finish,
                                ),
                                Some(t) => (
                                    ProbeMachine { token, phase: ProbePhase::AwaitAuth },
                                    ProbeAction::SendAuth(t),
                                ),
                            }
                        }
                    },
                }
            },
            ProbePhase::AwaitAuth => {
                let r = match event {
                    ProbeEvent::Rpc(r) => r,
                    _ => {
                        proof {
                            assert(false);
                        }
                        Ok(())
                    },
                };
                match r {
                    Ok(_) => (
                        ProbeMachine { token, phase: ProbePhase::AwaitRetryPing },
                        ProbeAction::SendPing,
                    ),
                    Err(m) => {
                        if is_auth_error_message(m.as_str()) {
                            let msg = str_concat(
                                "Daemon is running but token authentication failed: ",
                                m.as_str(),
                            );
                            (
                                ProbeMachine {
                                    token,
                                    phase: ProbePhase::Done(
                                        DaemonProbe::Running {
                                            auth_ok: false,
                                            auth_error: Some(msg),
                                            info: None,
                                        },
                                    ),
                                },
                                ProbeAction::Finish,
                            )
                        } else {
                            (
                                ProbeMachine {
                                    token,
                                    phase: ProbePhase::Done(DaemonProbe::NotDaemon),
                                },
                                ProbeAction::Finish,
                            )
                        }
                    },
                }
            },
            ProbePhase::AwaitRetryPing => {
                let r = match event {
                    ProbeEvent::Rpc(r) => r,
                    _ => {
                        proof {
                            assert(false);
                        }
                        Ok(())
                    },
                };
                match r {
                    Ok(_) => (
                        ProbeMachine { token, phase: ProbePhase::AwaitInfo },
                        ProbeAction::SendInfo,
                    ),
                    Err(m) => {
                        let msg = str_concat(
                            "Daemon is running but ping failed after auth: ",
                            m.as_str(),
                        );
                        (
                            ProbeMachine {
                                token,
                                phase: ProbePhase::Done(
                                    DaemonProbe::Running {
                                        auth_ok: false,
                                        auth_error: Some(msg),
                                        info: None,
                                    },
                                ),
                            },
                            ProbeAction::Finish,
                        )
                    },
                }
            },
            ProbePhase::AwaitInfo => {
                let oi = match event {
                    ProbeEvent::Info(oi) => oi,
                    _ => {
                        proof {
                            assert(false);
                        }
                        None
                    },
                };
                (
                    ProbeMachine {
                        token,
                        phase: ProbePhase::Done(
                            DaemonProbe::Running { auth_ok: true, auth_error: None, info: oi },
                        ),
                    },
                    ProbeAction::Finish,
                )
            },
            ProbePhase::Done(p) => {
                proof {
                    assert(false);
                }
                (ProbeMachine { token, phase: ProbePhase::Done(p) }, ProbeAction::Finish)
            },
        }
    }

    /// The classification, once the probe has finished.
    pub fn outcome(self) -> (r: Option<DaemonProbe>)
        ensures
            match self.phase {
                ProbePhase::Done(p) => r == Some(p),
                _ => r is None,
            },
    {
        match self.phase {
            ProbePhase::Done(p) => Some(p),
            _ => None,
        }
    }
}

} // verus!
