//! Graceful process termination: a polite signal, a bounded liveness
//! poll, then a forceful signal and a shorter poll.  The machine owns
//! every decision and both iteration caps; the driver only delivers
//! signals, checks liveness and sleeps.
use crate::chars::dec_digits;
use crate::chars::str_concat;
use crate::chars::u64_to_string;
use vstd::prelude::*;
use vstd::string::StringExecFns;

verus! {

/// How many liveness checks follow the polite signal.
pub const TERM_POLL_TRIES: u8 = 12;

/// How many liveness checks follow the forceful signal.
pub const KILL_POLL_TRIES: u8 = 8;

/// The outcome of delivering one signal.
pub enum SignalOutcome {
    Delivered,
    /// The process does not exist: already gone, which counts as done.
    NoSuchProcess,
    /// Any other delivery failure, with the OS error text.
    Failed(String),
}

pub enum KillEvent {
    Signal(SignalOutcome),
    Alive(bool),
    Slept,
}

pub enum KillAction {
    /// Deliver the polite termination signal.
    SendTerm,
    /// Deliver the forceful kill signal.
    SendKill,
    CheckAlive,
    Sleep,
    Finish,
}

pub enum KillPhase {
    AwaitTermSignal,
    AwaitTermAlive { left: u8 },
    AwaitTermSleep { left: u8 },
    AwaitKillSignal,
    AwaitKillAlive { left: u8 },
    AwaitKillSleep { left: u8 },
    Done(Result<(), String>),
}

pub struct KillMachine {
    pub pid: u32,
    pub phase: KillPhase,
}

pub open spec fn kill_expects(phase: KillPhase, event: KillEvent) -> bool {
    match phase {
        KillPhase::AwaitTermSignal => event is Signal,
        KillPhase::AwaitTermAlive { .. } => event is Alive,
        KillPhase::AwaitTermSleep { .. } => event is Slept,
        KillPhase::AwaitKillSignal => event is Signal,
        KillPhase::AwaitKillAlive { .. } => event is Alive,
        KillPhase::AwaitKillSleep { .. } => event is Slept,
        KillPhase::Done(_) => false,
    }
}

/// The transition relation of the termination flow: a failure to
/// deliver a signal is fatal unless the process is already gone, a poll
/// ends as soon as the process is gone, each poll is bounded, and only
/// the polite phase escalates.
pub open spec fn kill_step_ok(
    pre: KillMachine,
    event: KillEvent,
    post: KillMachine,
    action: KillAction,
) -> bool {
    post.pid == pre.pid && match pre.phase {
        KillPhase::AwaitTermSignal => {
            &&& event matches KillEvent::Signal(o)
            &&& match o {
                SignalOutcome::Delivered => post.phase == (KillPhase::AwaitTermAlive {
                    left: TERM_POLL_TRIES,
                }) && action is CheckAlive,
                SignalOutcome::NoSuchProcess => post.phase == KillPhase::Done(Ok(()))
                    && action is Finish,
                SignalOutcome::Failed(e) => {
                    &&& post.phase matches KillPhase::Done(Result::Err(m))
                    &&& m@ == "Failed to stop daemon process "@ + dec_digits(pre.pid as nat)
                        + ": "@ + e@
                    &&& action is Finish
                },
            }
        },
        KillPhase::AwaitTermAlive { left } => {
            &&& event matches KillEvent::Alive(alive)
            &&& if !alive {
                post.phase == KillPhase::Done(Ok(())) && action is Finish
            } else {
                post.phase == (KillPhase::AwaitTermSleep { left }) && action is Sleep
            }
        },
        KillPhase::AwaitTermSleep { left } => {
            &&& event is Slept
            &&& if left <= 1 {
                post.phase == KillPhase::AwaitKillSignal && action is SendKill
            } else {
                post.phase == (KillPhase::AwaitTermAlive { left: (left - 1) as u8 })
                    && action is CheckAlive
            }
        },
        KillPhase::AwaitKillSignal => {
            &&& event matches KillEvent::Signal(o)
            &&& match o {
                SignalOutcome::Delivered => post.phase == (KillPhase::AwaitKillAlive {
                    left: KILL_POLL_TRIES,
                }) && action is CheckAlive,
                SignalOutcome::NoSuchProcess => post.phase == (KillPhase::AwaitKillAlive {
                    left: KILL_POLL_TRIES,
                }) && action is CheckAlive,
                SignalOutcome::Failed(e) => {
                    &&& post.phase matches KillPhase::Done(Result::Err(m))
                    &&& m@ == "Failed to force-stop daemon process "@ + dec_digits(pre.pid as nat)
                        + ": "@ + e@
                    &&& action is Finish
                },
            }
        },
        KillPhase::AwaitKillAlive { left } => {
            &&& event matches KillEvent::Alive(alive)
            &&& if !alive {
                post.phase == KillPhase::Done(Ok(())) && action is Finish
            } else {
                post.phase == (KillPhase::AwaitKillSleep { left }) && action is Sleep
            }
        },
        KillPhase::AwaitKillSleep { left } => {
            &&& event is Slept
            &&& if left <= 1 {
                &&& post.phase matches KillPhase::Done(Result::Err(m))
                &&& m@ == "Daemon process "@ + dec_digits(pre.pid as nat)
                    + " is still running."@
                &&& action is Finish
            } else {
                post.phase == (KillPhase::AwaitKillAlive { left: (left - 1) as u8 })
                    && action is CheckAlive
            }
        },
        KillPhase::Done(_) => false,
    }
}

impl KillMachine {
    /// A fresh termination attempt: the first action is the polite
    /// signal, whose outcome the driver reports back.
    pub fn new(pid: u32) -> (r: (KillMachine, KillAction))
        ensures
            r.0.pid == pid,
            r.0.phase is AwaitTermSignal,
            r.1 is SendTerm,
    {
        (KillMachine { pid, phase: KillPhase::AwaitTermSignal }, KillAction::SendTerm)
    }

    pub fn step(self, event: KillEvent) -> (r: (KillMachine, KillAction))
        requires
            kill_expects(self.phase, event),
        ensures
            kill_step_ok(self, event, r.0, r.1),
    {
        let KillMachine { pid, phase } = self;
        match phase {
            KillPhase::AwaitTermSignal => {
                let o = match event {
                    KillEvent::Signal(o) => o,
                    _ => {
                        proof {
                            assert(false);
                        }
                        SignalOutcome::NoSuchProcess
                    },
                };
                match o {
                    SignalOutcome::Delivered => (
                        KillMachine {
                            pid,
                            phase: KillPhase::AwaitTermAlive { left: TERM_POLL_TRIES },
                        },
                        KillAction::CheckAlive,
                    ),
                    SignalOutcome::NoSuchProcess => (
                        KillMachine { pid, phase: KillPhase::Done(Ok(())) },
                        KillAction::Finish,
                    ),
                    SignalOutcome::Failed(e) => {
                        let msg = Self::signal_error("Failed to stop daemon process ", pid, &e);
                        (
                            KillMachine { pid, phase: KillPhase::Done(Err(msg)) },
                            KillAction::Finish,
                        )
                    },
                }
            },
            KillPhase::AwaitTermAlive { left } => {
                let alive = match event {
                    KillEvent::Alive(a) => a,
                    _ => {
                        proof {
                            assert(false);
                        }
                        false
                    },
                };
                if !alive {
                    (KillMachine { pid, phase: KillPhase::Done(Ok(())) }, KillAction::Finish)
                } else {
                    (
                        KillMachine { pid, phase: KillPhase::AwaitTermSleep { left } },
                        KillAction::Sleep,
                    )
                }
            },
            KillPhase::AwaitTermSleep { left } => {
                if left <= 1 {
                    (
                        KillMachine { pid, phase: KillPhase::AwaitKillSignal },
                        KillAction::SendKill,
                    )
                } else {
                    (
                        KillMachine { pid, phase: KillPhase::AwaitTermAlive { left: left - 1 } },
                        KillAction::CheckAlive,
                    )
                }
            },
            KillPhase::AwaitKillSignal => {
                let o = match event {
                    KillEvent::Signal(o) => o,
                    _ => {
                        proof {
                            assert(false);
                        }
                        SignalOutcome::NoSuchProcess
                    },
                };
                match o {
                    SignalOutcome::Failed(e) => {
                        let msg = Self::signal_error(
                            "Failed to force-stop daemon process ",
                            pid,
                            &e,
                        );
                        (
                            KillMachine { pid, phase: KillPhase::Done(Err(msg)) },
                            KillAction::Finish,
                        )
                    },
                    _ => (
                        KillMachine {
                            pid,
                            phase: KillPhase::AwaitKillAlive { left: KILL_POLL_TRIES },
                        },
                        KillAction::CheckAlive,
                    ),
                }
            },
            KillPhase::AwaitKillAlive { left } => {
                let alive = match event {
                    KillEvent::Alive(a) => a,
                    _ => {
                        proof {
                            assert(false);
                        }
                        false
                    },
                };
                if !alive {
                    (KillMachine { pid, phase: KillPhase::Done(Ok(())) }, KillAction::Finish)
                } else {
                    (
                        KillMachine { pid, phase: KillPhase::AwaitKillSleep { left } },
                        KillAction::Sleep,
                    )
                }
            },
            KillPhase::AwaitKillSleep { left } => {
                if left <= 1 {
                    let head = str_concat("Daemon process ", u64_to_string(pid as u64).as_str());
                    let msg = str_concat(head.as_str(), " is still running.");
                    (
                        KillMachine { pid, phase: KillPhase::Done(Err(msg)) },
                        KillAction::Finish,
                    )
                } else {
                    (
                        KillMachine { pid, phase: KillPhase::AwaitKillAlive { left: left - 1 } },
                        KillAction::CheckAlive,
                    )
                }
            },
            KillPhase::Done(d) => {
                proof {
                    assert(false);
                }
                (KillMachine { pid, phase: KillPhase::Done(d) }, KillAction::Finish)
            },
        }
    }

    /// `<head><pid>: <err>`, the shape of both signal-failure messages.
    fn signal_error(head: &str, pid: u32, err: &String) -> (r: String)
        ensures
            r@ == head@ + dec_digits(pid as nat) + ": "@ + err@,
    {
        let with_pid = str_concat(head, u64_to_string(pid as u64).as_str());
        let with_sep = str_concat(with_pid.as_str(), ": ");
        str_concat(with_sep.as_str(), err.as_str())
    }

    /// The result, once the flow has finished.
    pub fn outcome(self) -> (r: Option<Result<(), String>>)
        ensures
            match self.phase {
                KillPhase::Done(d) => r == Some(d),
                _ => r is None,
            },
    {
        match self.phase {
            KillPhase::Done(d) => Some(d),
            _ => None,
        }
    }
}

} // verus!
