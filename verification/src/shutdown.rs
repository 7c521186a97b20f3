//! The protocol-level shutdown request: connect, authenticate if the
//! first ping is rejected for authorization, then ask the daemon to
//! terminate itself.  Every failure becomes one message; the driver
//! only connects and performs the round trips.
use crate::addr::daemon_connect_addr;
use crate::addr::spec_connect_addr;
use crate::addr::spec_trim_non_empty;
use crate::addr::trim_non_empty;
use crate::chars::str_concat;
use crate::ident::is_auth_error_message;
use crate::ident::spec_is_auth_error;
use crate::probe::opt_str_view;
use vstd::prelude::*;
use vstd::string::StringExecFns;

verus! {

/// Why a connection attempt failed.
pub enum ConnectFail {
    /// The deadline elapsed first.
    Timeout,
    /// The attempt itself failed, with the OS error text.
    Io(String),
}

pub enum ShutdownEvent {
    Connect(Result<(), ConnectFail>),
    Rpc(Result<(), String>),
}

pub enum ShutdownAction {
    /// Connect to the machine's `connect_addr` under the deadline.
    Connect,
    SendPing,
    SendAuth(String),
    SendShutdown,
    Finish,
}

pub enum ShutdownPhase {
    AwaitConnect,
    AwaitPing,
    AwaitAuth,
    AwaitReply,
    Done(Result<(), String>),
}

pub struct ShutdownMachine {
    pub token: Option<String>,
    /// The resolved address to connect to; empty when resolution failed.
    pub connect_addr: String,
    pub phase: ShutdownPhase,
}

pub open spec fn shutdown_expects(phase: ShutdownPhase, event: ShutdownEvent) -> bool {
    match phase {
        ShutdownPhase::AwaitConnect => event is Connect,
        ShutdownPhase::AwaitPing => event is Rpc,
        ShutdownPhase::AwaitAuth => event is Rpc,
        ShutdownPhase::AwaitReply => event is Rpc,
        ShutdownPhase::Done(_) => false,
    }
}

pub open spec fn shutdown_step_ok(
    pre: ShutdownMachine,
    event: ShutdownEvent,
    post: ShutdownMachine,
    action: ShutdownAction,
) -> bool {
    opt_str_view(post.token) == opt_str_view(pre.token) && post.connect_addr@ == pre.connect_addr@
        && match pre.phase {
        ShutdownPhase::AwaitConnect => {
            &&& event matches ShutdownEvent::Connect(r)
            &&& match r {
                Result::Ok(_) => post.phase is AwaitPing && action is SendPing,
                Result::Err(f) => match f {
                    ConnectFail::Timeout => {
                        &&& post.phase matches ShutdownPhase::Done(Result::Err(m))
                        &&& m@ == "Timed out connecting to daemon at "@ + pre.connect_addr@
                        &&& action is Finish
                    },
                    ConnectFail::Io(e) => {
                        &&& post.phase matches ShutdownPhase::Done(Result::Err(m))
                        &&& m@ == "Failed to connect to daemon at "@ + pre.connect_addr@ + ": "@
                            + e@
                        &&& action is Finish
                    },
                },
            }
        },
        ShutdownPhase::AwaitPing => {
            &&& event matches ShutdownEvent::Rpc(r)
            &&& match r {
                Result::Ok(_) => post.phase is AwaitReply && action is SendShutdown,
                Result::Err(m) => {
                    if spec_is_auth_error(m@) {
                        match spec_trim_non_empty(opt_str_view(pre.token)) {
                            Option::None => {
                                &&& post.phase matches ShutdownPhase::Done(Result::Err(msg))
                                &&& msg@
                                    == "Daemon is running but requires a remote backend token."@
                                &&& action is Finish
                            },
                            Option::Some(t) => {
                                &&& post.phase is AwaitAuth
                                &&& action matches ShutdownAction::SendAuth(tok)
                                &&& tok@ == t
                            },
                        }
                    } else {
                        &&& post.phase matches ShutdownPhase::Done(Result::Err(msg))
                        &&& msg@ == "Daemon ping failed: "@ + m@
                        &&& action is Finish
                    }
                },
            }
        },
        ShutdownPhase::AwaitAuth => {
            &&& event matches ShutdownEvent::Rpc(r)
            &&& match r {
                Result::Ok(_) => post.phase is AwaitReply && action is SendShutdown,
                Result::Err(m) => {
                    &&& post.phase matches ShutdownPhase::Done(Result::Err(msg))
                    &&& msg@ == "Daemon authentication failed: "@ + m@
                    &&& action is Finish
                },
            }
        },
        ShutdownPhase::AwaitReply => {
            &&& event matches ShutdownEvent::Rpc(r)
            &&& match r {
                Result::Ok(_) => post.phase == ShutdownPhase::Done(Ok(())) && action is Finish,
                Result::Err(m) => {
                    &&& post.phase matches ShutdownPhase::Done(Result::Err(msg))
                    &&& msg@ == "Daemon shutdown request failed: "@ + m@
                    &&& action is Finish
                },
            }
        },
        ShutdownPhase::Done(_) => false,
    }
}

impl ShutdownMachine {
    /// A fresh shutdown request against a listen address.  When the
    /// address cannot be rewritten into a connect address, the request
    /// is over before any network action.
    pub fn new(listen_addr: &str, token: Option<String>) -> (r: (ShutdownMachine, ShutdownAction))
        ensures
            opt_str_view(r.0.token) == opt_str_view(token),
            match spec_connect_addr(listen_addr@) {
                Option::Some(ca) => r.0.connect_addr@ == ca && r.0.phase is AwaitConnect
                    && r.1 is Connect,
                Option::None => {
                    &&& r.0.phase matches ShutdownPhase::Done(Result::Err(m))
                    &&& m@ == "invalid daemon listen address"@
                    &&& r.1 is Finish
                },
            },
    {
        match daemon_connect_addr(listen_addr) {
            Some(ca) => (
                ShutdownMachine { token, connect_addr: ca, phase: ShutdownPhase::AwaitConnect },
                ShutdownAction::Connect,
            ),
            None => (
                ShutdownMachine {
                    token,
                    connect_addr: String::new(),
                    phase: ShutdownPhase::Done(
                        Err(String::from_str("invalid daemon listen address")),
                    ),
                },
                ShutdownAction::Finish,
            ),
        }
    }

    pub fn step(self, event: ShutdownEvent) -> (r: (ShutdownMachine, ShutdownAction))
        requires
            shutdown_expects(self.phase, event),
        ensures
            shutdown_step_ok(self, event, r.0, r.1),
    {
        let ShutdownMachine { token, connect_addr, phase } = self;
        match phase {
            ShutdownPhase::AwaitConnect => {
                let r = match event {
                    ShutdownEvent::Connect(r) => r,
                    _ => {
                        proof {
                            assert(false);
                        }
                        Ok(())
                    },
                };
                match r {
                    Ok(_) => (
                        ShutdownMachine { token, connect_addr, phase: ShutdownPhase::AwaitPing },
                        ShutdownAction::SendPing,
                    ),
                    Err(ConnectFail::Timeout) => {
                        let msg = str_concat(
                            "Timed out connecting to daemon at ",
                            connect_addr.as_str(),
                        );
                        (
                            ShutdownMachine {
                                token,
                                connect_addr,
                                phase: ShutdownPhase::Done(Err(msg)),
                            },
                            ShutdownAction::Finish,
                        )
                    },
                    Err(ConnectFail::Io(e)) => {
                        let head = str_concat(
                            "Failed to connect to daemon at ",
                            connect_addr.as_str(),
                        );
                        let mid = str_concat(head.as_str(), ": ");
                        let msg = str_concat(mid.as_str(), e.as_str());
                        (
                            ShutdownMachine {
                                token,
                                connect_addr,
                                phase: ShutdownPhase::Done(Err(msg)),
                            },
                            ShutdownAction::Finish,
                        )
                    },
                }
            },
            ShutdownPhase::AwaitPing => {
                let r = match event {
                    ShutdownEvent::Rpc(r) => r,
                    _ => {
                        proof {
                            assert(false);
                        }
                        Ok(())
                    },
                };
                match r {
                    Ok(_) => (
                        ShutdownMachine { token, connect_addr, phase: ShutdownPhase::AwaitReply },
                        ShutdownAction::SendShutdown,
                    ),
                    Err(m) => {
                        if is_auth_error_message(m.as_str()) {
                            let trimmed = trim_non_empty(
                                match &token {
                                    Some(t) => Some(t.as_str()),
                                    None => None,
                                },
                            );
                            match trimmed {
                                None => (
                                    ShutdownMachine {
                                        token,
                                        connect_addr,
                                        phase: ShutdownPhase::Done(
                                            Err(
                                                String::from_str(
                                                    "Daemon is running but requires a remote backend token.",
                                                ),
                                            ),
                                        ),
                                    },
                                    ShutdownAction::Finish,
                                ),
                                Some(t) => (
                                    ShutdownMachine {
                                        token,
                                        connect_addr,
                                        phase: ShutdownPhase::AwaitAuth,
                                    },
                                    ShutdownAction::SendAuth(t),
                                ),
                            }
                        } else {
                            let msg = str_concat("Daemon ping failed: ", m.as_str());
                            (
                                ShutdownMachine {
                                    token,
                                    connect_addr,
                                    phase: ShutdownPhase::Done(Err(msg)),
                                },
                                ShutdownAction::Finish,
                            )
                        }
                    },
                }
            },
            ShutdownPhase::AwaitAuth => {
                let r = match event {
                    ShutdownEvent::Rpc(r) => r,
                    _ => {
                        proof {
                            assert(false);
                        }
                        Ok(())
                    },
                };
                match r {
                    Ok(_) => (
                        ShutdownMachine { token, connect_addr, phase: ShutdownPhase::AwaitReply },
                        ShutdownAction::SendShutdown,
                    ),
                    Err(m) => {
                        let msg = str_concat("Daemon authentication failed: ", m.as_str());
                        (
                            ShutdownMachine {
                                token,
                                connect_addr,
                                phase: ShutdownPhase::Done(Err(msg)),
                            },
                            ShutdownAction::Finish,
                        )
                    },
                }
            },
            ShutdownPhase::AwaitReply => {
                let r = match event {
                    ShutdownEvent::Rpc(r) => r,
                    _ => {
                        proof {
                            assert(false);
                        }
                        Ok(())
                    },
                };
                match r {
                    Ok(_) => (
                        ShutdownMachine {
                            token,
                            connect_addr,
                            phase: ShutdownPhase::Done(Ok(())),
                        },
                        ShutdownAction::Finish,
                    ),
                    Err(m) => {
                        let msg = str_concat("Daemon shutdown request failed: ", m.as_str());
                        (
                            ShutdownMachine {
                                token,
                                connect_addr,
                                phase: ShutdownPhase::Done(Err(msg)),
                            },
                            ShutdownAction::Finish,
                        )
                    },
                }
            },
            ShutdownPhase::Done(d) => {
                proof {
                    assert(false);
                }
                (
                    ShutdownMachine { token, connect_addr, phase: ShutdownPhase::Done(d) },
                    ShutdownAction::Finish,
                )
            },
        }
    }

    pub fn outcome(self) -> (r: Option<Result<(), String>>)
        ensures
            match self.phase {
                ShutdownPhase::Done(d) => r == Some(d),
                _ => r is None,
            },
    {
        match self.phase {
            ShutdownPhase::Done(d) => Some(d),
            _ => None,
        }
    }
}

} // verus!
