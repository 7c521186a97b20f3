use daemonctl::ident::DaemonInfo;
use daemonctl::lifecycle::status_from_probe;
use daemonctl::lifecycle::StartAction;
use daemonctl::lifecycle::StartEvent;
use daemonctl::lifecycle::StartMachine;
use daemonctl::lifecycle::StopAction;
use daemonctl::lifecycle::StopEvent;
use daemonctl::lifecycle::StopMachine;
use daemonctl::lifecycle::TcpDaemonState;
use daemonctl::probe::DaemonProbe;
use daemonctl::probe::ProbeAction;
use daemonctl::probe::ProbeEvent;
use daemonctl::probe::ProbeMachine;
use daemonctl::shutdown::ConnectFail;
use daemonctl::shutdown::ShutdownAction;
use daemonctl::shutdown::ShutdownEvent;
use daemonctl::shutdown::ShutdownMachine;
use daemonctl::terminate::KillAction;
use daemonctl::terminate::KillEvent;
use daemonctl::terminate::KillMachine;
use daemonctl::terminate::SignalOutcome;

fn compatible_info(pid: Option<u32>) -> DaemonInfo {
    DaemonInfo {
        name: "codex-monitor-daemon".to_string(),
        version: "0.1.0".to_string(),
        pid,
        mode: "tcp".to_string(),
        binary_path: None,
    }
}

#[test]
fn probe_classifies_unreachable_port_as_stopped() {
    // No process listens on the configured port: the connection fails,
    // and `status` reports a stopped daemon with no pid at all.
    let machine = ProbeMachine::new(None);
    let (machine, action) = machine.step(ProbeEvent::Connect(false));
    assert!(matches!(action, ProbeAction::Finish));
    let outcome = machine.outcome().expect("probe finished");
    assert!(matches!(outcome, DaemonProbe::NotReachable));
    let status = status_from_probe(outcome, Some(77), "0.0.0.0:4732");
    assert_eq!(status.state, TcpDaemonState::Stopped);
    assert_eq!(status.pid, None);
    assert_eq!(status.last_error, None);
    assert_eq!(status.listen_addr.as_deref(), Some("0.0.0.0:4732"));
}

#[test]
fn probe_authenticates_after_unauthorized_ping() {
    let machine = ProbeMachine::new(Some(" secret ".to_string()));
    let (machine, action) = machine.step(ProbeEvent::Connect(true));
    assert!(matches!(action, ProbeAction::SendPing));
    let (machine, action) = machine.step(ProbeEvent::Rpc(Err("Unauthorized call".to_string())));
    match &action {
        ProbeAction::SendAuth(token) => assert_eq!(token, "secret"),
        _ => panic!("expected the auth challenge"),
    }
    let (machine, action) = machine.step(ProbeEvent::Rpc(Ok(())));
    assert!(matches!(action, ProbeAction::SendPing));
    let (machine, action) = machine.step(ProbeEvent::Rpc(Ok(())));
    assert!(matches!(action, ProbeAction::SendInfo));
    let (machine, _) = machine.step(ProbeEvent::Info(Some(compatible_info(Some(42)))));
    match machine.outcome().expect("finished") {
        DaemonProbe::Running { auth_ok, auth_error, info } => {
            assert!(auth_ok);
            assert_eq!(auth_error, None);
            assert_eq!(info.expect("identity").pid, Some(42));
        },
        _ => panic!("expected a running daemon"),
    }
}

#[test]
fn probe_without_token_reports_token_requirement() {
    let machine = ProbeMachine::new(None);
    let (machine, _) = machine.step(ProbeEvent::Connect(true));
    let (machine, _) = machine.step(ProbeEvent::Rpc(Err("invalid token".to_string())));
    match machine.outcome().expect("finished") {
        DaemonProbe::Running { auth_ok, auth_error, info } => {
            assert!(!auth_ok);
            assert_eq!(
                auth_error.as_deref(),
                Some("Daemon is running but requires a remote backend token.")
            );
            assert!(info.is_none());
        },
        _ => panic!("expected a running daemon"),
    }
}

#[test]
fn probe_treats_non_auth_failure_as_foreign() {
    // A listener that never answers the ping (the round trip times out)
    // is classified as something that is not the daemon.
    let machine = ProbeMachine::new(Some("secret".to_string()));
    let (machine, _) = machine.step(ProbeEvent::Connect(true));
    let (machine, _) = machine.step(
        ProbeEvent::Rpc(Err("timed out waiting for daemon response".to_string())),
    );
    assert!(matches!(machine.outcome(), Some(DaemonProbe::NotDaemon)));
}

#[test]
fn start_reuses_compatible_daemon_without_spawning() {
    // A compatible daemon already runs: `start` returns its pid and
    // never asks for a bind test, a spawn, or any termination.
    let (machine, action) = StartMachine::new("0.0.0.0:4732".to_string(), true, false);
    assert!(matches!(action, StartAction::Probe));
    let (machine, action) = machine.step(StartEvent::Probe(DaemonProbe::Running {
        auth_ok: true,
        auth_error: None,
        info: Some(compatible_info(Some(4242))),
    }));
    assert!(matches!(action, StartAction::ResolvePid { expected: Some(4242) }));
    let (machine, action) = machine.step(StartEvent::Pid(Some(4242)));
    assert!(matches!(action, StartAction::Finish));
    let status = machine.outcome().expect("finished").expect("success");
    assert_eq!(status.state, TcpDaemonState::Running);
    assert_eq!(status.pid, Some(4242));
    assert_eq!(status.started_at_ms, None);
    assert_eq!(status.last_error, None);
}

#[test]
fn start_replaces_version_mismatched_daemon() {
    // A daemon with another version and verifiable ownership: `start`
    // asks for the protocol shutdown, confirms unreachability within
    // the bounded wait, bind-tests, spawns, and reports the new pid.
    let old = DaemonInfo { version: "0.0.9".to_string(), ..compatible_info(Some(500)) };
    let (machine, _) = StartMachine::new("0.0.0.0:4732".to_string(), true, false);
    let (machine, action) = machine.step(StartEvent::Probe(DaemonProbe::Running {
        auth_ok: true,
        auth_error: None,
        info: Some(old),
    }));
    assert!(matches!(action, StartAction::ResolvePid { expected: Some(500) }));
    let (machine, action) = machine.step(StartEvent::Pid(Some(500)));
    assert!(matches!(action, StartAction::RequestShutdown));
    let (machine, action) = machine.step(StartEvent::Shutdown(Ok(())));
    assert!(matches!(action, StartAction::Probe));
    let (machine, action) = machine.step(StartEvent::Probe(DaemonProbe::NotReachable));
    assert!(matches!(action, StartAction::BindTest));
    let (machine, action) = machine.step(StartEvent::Bind(Ok(())));
    assert!(matches!(action, StartAction::Spawn));
    let (machine, action) = machine.step(StartEvent::Spawn(Ok((Some(501), 1_700_000_000_000))));
    assert!(matches!(action, StartAction::Finish));
    let status = machine.outcome().expect("finished").expect("success");
    assert_eq!(status.state, TcpDaemonState::Running);
    assert_eq!(status.pid, Some(501));
    assert_eq!(status.started_at_ms, Some(1_700_000_000_000));
}

#[test]
fn start_refuses_port_held_by_foreign_process() {
    // The configured port is occupied by something that never answers
    // the protocol: `start` fails without any termination action.
    let (machine, _) = StartMachine::new("0.0.0.0:4732".to_string(), true, false);
    let (machine, action) = machine.step(StartEvent::Probe(DaemonProbe::NotDaemon));
    assert!(matches!(action, StartAction::Finish));
    let err = machine.outcome().expect("finished").expect_err("refused");
    assert_eq!(
        err,
        "Cannot start mobile access daemon because 0.0.0.0:4732 is already in use by another process."
    );
}

#[test]
fn start_requires_token_or_explicit_opt_in() {
    let (machine, action) = StartMachine::new("0.0.0.0:4732".to_string(), false, false);
    assert!(matches!(action, StartAction::Finish));
    let err = machine.outcome().expect("finished").expect_err("refused");
    assert!(err.contains("Set a Remote backend token"));
    let (machine, action) = StartMachine::new("nonsense".to_string(), true, false);
    assert!(matches!(action, StartAction::Finish));
    let err = machine.outcome().expect("finished").expect_err("refused");
    assert_eq!(err, "Invalid daemon listen address: nonsense");
}

#[test]
fn stop_refuses_port_held_by_foreign_process() {
    // Both halves of the refusal: the stop error names the port, no
    // kill is ever requested, and the final status is an error.
    let (machine, action) = StopMachine::new("0.0.0.0:4732".to_string());
    assert!(matches!(action, StopAction::Probe));
    let (machine, action) = machine.step(StopEvent::Probe(DaemonProbe::NotDaemon));
    assert!(matches!(action, StopAction::Probe));
    let (machine, action) = machine.step(StopEvent::Probe(DaemonProbe::NotDaemon));
    assert!(matches!(action, StopAction::ResolvePid { expected: None }));
    let (machine, action) = machine.step(StopEvent::Pid(Some(999)));
    assert!(matches!(action, StopAction::Finish));
    let status = machine.outcome().expect("finished");
    assert_eq!(status.state, TcpDaemonState::Error);
    assert_eq!(status.pid, Some(999));
    assert_eq!(
        status.last_error.as_deref(),
        Some("Port 4732 is in use by a non-daemon process; refusing to stop it.")
    );
}

#[test]
fn stop_confirms_shutdown_with_final_probe() {
    let (machine, _) = StopMachine::new("0.0.0.0:4732".to_string());
    let (machine, action) = machine.step(StopEvent::Probe(DaemonProbe::Running {
        auth_ok: true,
        auth_error: None,
        info: Some(compatible_info(Some(4242))),
    }));
    assert!(matches!(action, StopAction::RequestShutdown));
    let (machine, action) = machine.step(StopEvent::Shutdown(Ok(())));
    assert!(matches!(action, StopAction::Probe));
    // Still reachable on the first wait probe, gone on the second.
    let (machine, action) = machine.step(StopEvent::Probe(DaemonProbe::Running {
        auth_ok: true,
        auth_error: None,
        info: None,
    }));
    assert!(matches!(action, StopAction::Sleep));
    let (machine, action) = machine.step(StopEvent::Slept);
    assert!(matches!(action, StopAction::Probe));
    let (machine, action) = machine.step(StopEvent::Probe(DaemonProbe::NotReachable));
    assert!(matches!(action, StopAction::Probe));
    let (machine, action) = machine.step(StopEvent::Probe(DaemonProbe::NotReachable));
    assert!(matches!(action, StopAction::ResolvePid { expected: None }));
    let (machine, action) = machine.step(StopEvent::Pid(None));
    assert!(matches!(action, StopAction::Finish));
    let status = machine.outcome().expect("finished");
    assert_eq!(status.state, TcpDaemonState::Stopped);
    assert_eq!(status.pid, None);
    assert_eq!(status.last_error, None);
}

#[test]
fn stop_refuses_forced_stop_without_ownership() {
    // The daemon answered but its identity could not be verified: the
    // shutdown error surfaces and no kill is requested.
    let (machine, _) = StopMachine::new("0.0.0.0:4732".to_string());
    let (machine, action) = machine.step(StopEvent::Probe(DaemonProbe::Running {
        auth_ok: false,
        auth_error: Some("Daemon is running but requires a remote backend token.".to_string()),
        info: None,
    }));
    assert!(matches!(action, StopAction::RequestShutdown));
    let (machine, action) = machine.step(
        StopEvent::Shutdown(Err("Daemon ping failed: nope".to_string())),
    );
    assert!(matches!(action, StopAction::ResolvePid { expected: None }));
    let (machine, action) = machine.step(StopEvent::Pid(Some(321)));
    assert!(matches!(action, StopAction::Probe));
    let (machine, action) = machine.step(StopEvent::Probe(DaemonProbe::NotReachable));
    assert!(matches!(action, StopAction::ResolvePid { expected: None }));
    let (machine, action) = machine.step(StopEvent::Pid(None));
    assert!(matches!(action, StopAction::Finish));
    let status = machine.outcome().expect("finished");
    assert_eq!(status.state, TcpDaemonState::Stopped);
    assert_eq!(
        status.last_error.as_deref(),
        Some(
            "Daemon ping failed: nope; refusing forced stop because daemon ownership could not be verified"
        )
    );
}

#[test]
fn kill_machine_escalates_then_reports_survivor() {
    let (mut machine, action) = KillMachine::new(7);
    assert!(matches!(action, KillAction::SendTerm));
    let (m, action) = machine.step(KillEvent::Signal(SignalOutcome::Delivered));
    machine = m;
    assert!(matches!(action, KillAction::CheckAlive));
    // Twelve liveness checks survive the polite signal.
    for _ in 0..11 {
        let (m, action) = machine.step(KillEvent::Alive(true));
        machine = m;
        assert!(matches!(action, KillAction::Sleep));
        let (m, action) = machine.step(KillEvent::Slept);
        machine = m;
        assert!(matches!(action, KillAction::CheckAlive));
    }
    let (m, action) = machine.step(KillEvent::Alive(true));
    machine = m;
    assert!(matches!(action, KillAction::Sleep));
    let (m, action) = machine.step(KillEvent::Slept);
    machine = m;
    assert!(matches!(action, KillAction::SendKill));
    let (m, action) = machine.step(KillEvent::Signal(SignalOutcome::Delivered));
    machine = m;
    assert!(matches!(action, KillAction::CheckAlive));
    // Eight more checks survive the forceful signal.
    for _ in 0..7 {
        let (m, _) = machine.step(KillEvent::Alive(true));
        machine = m;
        let (m, action) = machine.step(KillEvent::Slept);
        machine = m;
        assert!(matches!(action, KillAction::CheckAlive));
    }
    let (m, _) = machine.step(KillEvent::Alive(true));
    machine = m;
    let (m, action) = machine.step(KillEvent::Slept);
    machine = m;
    assert!(matches!(action, KillAction::Finish));
    let err = machine.outcome().expect("finished").expect_err("still alive");
    assert_eq!(err, "Daemon process 7 is still running.");
}

#[test]
fn kill_machine_counts_vanished_process_as_success() {
    let (machine, _) = KillMachine::new(9);
    let (machine, action) = machine.step(KillEvent::Signal(SignalOutcome::NoSuchProcess));
    assert!(matches!(action, KillAction::Finish));
    assert_eq!(machine.outcome(), Some(Ok(())));
}

#[test]
fn kill_machine_reports_signal_failure() {
    let (machine, _) = KillMachine::new(9);
    let (machine, _) = machine.step(
        KillEvent::Signal(SignalOutcome::Failed("Operation not permitted".to_string())),
    );
    let err = machine.outcome().expect("finished").expect_err("failed");
    assert_eq!(err, "Failed to stop daemon process 9: Operation not permitted");
}

#[test]
fn shutdown_request_authenticates_when_challenged() {
    let (machine, action) = ShutdownMachine::new("0.0.0.0:4732", Some("tok".to_string()));
    assert!(matches!(action, ShutdownAction::Connect));
    assert_eq!(machine.connect_addr, "127.0.0.1:4732");
    let (machine, action) = machine.step(ShutdownEvent::Connect(Ok(())));
    assert!(matches!(action, ShutdownAction::SendPing));
    let (machine, action) = machine.step(ShutdownEvent::Rpc(Err("unauthorized".to_string())));
    match &action {
        ShutdownAction::SendAuth(token) => assert_eq!(token, "tok"),
        _ => panic!("expected the auth challenge"),
    }
    let (machine, action) = machine.step(ShutdownEvent::Rpc(Ok(())));
    assert!(matches!(action, ShutdownAction::SendShutdown));
    let (machine, _) = machine.step(ShutdownEvent::Rpc(Ok(())));
    assert_eq!(machine.outcome(), Some(Ok(())));
}

#[test]
fn shutdown_request_surfaces_remote_errors() {
    let (machine, _) = ShutdownMachine::new("0.0.0.0:4732", None);
    let (machine, _) = machine.step(ShutdownEvent::Connect(Ok(())));
    let (machine, _) = machine.step(ShutdownEvent::Rpc(Err("boom".to_string())));
    let err = machine.outcome().expect("finished").expect_err("failed");
    assert_eq!(err, "Daemon ping failed: boom");
    let (machine, _) = ShutdownMachine::new("bogus", None);
    let err = machine.outcome().expect("finished").expect_err("failed");
    assert_eq!(err, "invalid daemon listen address");
}

#[test]
fn stop_waits_for_unreachability_after_forced_stop() {
    // The shutdown request failed, the owned daemon was terminated by
    // pid, and the bounded wait still confirms the port went quiet
    // before the final probe.
    let (machine, _) = StopMachine::new("0.0.0.0:4732".to_string());
    let (machine, action) = machine.step(StopEvent::Probe(DaemonProbe::Running {
        auth_ok: true,
        auth_error: None,
        info: Some(compatible_info(Some(4242))),
    }));
    assert!(matches!(action, StopAction::RequestShutdown));
    let (machine, action) = machine.step(
        StopEvent::Shutdown(Err("Daemon shutdown request failed: closed".to_string())),
    );
    assert!(matches!(action, StopAction::ResolvePid { expected: Some(4242) }));
    let (machine, action) = machine.step(StopEvent::Pid(Some(4242)));
    assert!(matches!(action, StopAction::Kill { pid: 4242 }));
    let (machine, action) = machine.step(StopEvent::Kill(Ok(())));
    assert!(matches!(action, StopAction::Probe));
    let (machine, action) = machine.step(StopEvent::Probe(DaemonProbe::NotReachable));
    assert!(matches!(action, StopAction::Probe));
    let (machine, action) = machine.step(StopEvent::Probe(DaemonProbe::NotReachable));
    assert!(matches!(action, StopAction::ResolvePid { expected: None }));
    let (machine, action) = machine.step(StopEvent::Pid(None));
    assert!(matches!(action, StopAction::Finish));
    let status = machine.outcome().expect("finished");
    assert_eq!(status.state, TcpDaemonState::Stopped);
    assert_eq!(status.last_error, None);
}

#[test]
fn start_aborts_when_ownership_cannot_be_verified() {
    // Version mismatch but the probe never authenticated the identity:
    // the shutdown failure aborts the restart without any kill.
    let old = DaemonInfo { name: "other".to_string(), ..compatible_info(Some(500)) };
    let (machine, _) = StartMachine::new("0.0.0.0:4732".to_string(), true, false);
    let (machine, _) = machine.step(StartEvent::Probe(DaemonProbe::Running {
        auth_ok: true,
        auth_error: None,
        info: Some(old),
    }));
    let (machine, action) = machine.step(StartEvent::Pid(Some(500)));
    assert!(matches!(action, StartAction::RequestShutdown));
    let (machine, action) = machine.step(
        StartEvent::Shutdown(Err("Daemon ping failed: nope".to_string())),
    );
    assert!(matches!(action, StartAction::Finish));
    let err = machine.outcome().expect("finished").expect_err("aborted");
    assert_eq!(
        err,
        "Daemon identity mismatch (`other`); automatic restart aborted because daemon ownership could not be verified: Daemon ping failed: nope"
    );
}

#[test]
fn start_reports_bind_and_spawn_failures() {
    let (machine, _) = StartMachine::new("0.0.0.0:4732".to_string(), true, false);
    let (machine, action) = machine.step(StartEvent::Probe(DaemonProbe::NotReachable));
    assert!(matches!(action, StartAction::BindTest));
    let (machine, _) = machine.step(StartEvent::Bind(Err("address in use".to_string())));
    let err = machine.outcome().expect("finished").expect_err("bind failed");
    assert_eq!(
        err,
        "Cannot start mobile access daemon because 0.0.0.0:4732 is unavailable: address in use"
    );
    let (machine, _) = StartMachine::new("0.0.0.0:4732".to_string(), true, false);
    let (machine, _) = machine.step(StartEvent::Probe(DaemonProbe::NotReachable));
    let (machine, _) = machine.step(StartEvent::Bind(Ok(())));
    let (machine, _) = machine.step(StartEvent::Spawn(Err("no such file".to_string())));
    let err = machine.outcome().expect("finished").expect_err("spawn failed");
    assert_eq!(err, "Failed to start mobile access daemon: no such file");
}

#[test]
fn shutdown_request_names_connect_failures() {
    let (machine, _) = ShutdownMachine::new("0.0.0.0:4732", None);
    let (machine, _) = machine.step(ShutdownEvent::Connect(Err(ConnectFail::Timeout)));
    let err = machine.outcome().expect("finished").expect_err("timeout");
    assert_eq!(err, "Timed out connecting to daemon at 127.0.0.1:4732");
    let (machine, _) = ShutdownMachine::new("0.0.0.0:4732", None);
    let (machine, _) = machine.step(
        ShutdownEvent::Connect(Err(ConnectFail::Io("refused".to_string()))),
    );
    let err = machine.outcome().expect("finished").expect_err("io");
    assert_eq!(err, "Failed to connect to daemon at 127.0.0.1:4732: refused");
    let (machine, _) = ShutdownMachine::new("0.0.0.0:4732", None);
    let (machine, _) = machine.step(ShutdownEvent::Connect(Ok(())));
    let (machine, _) = machine.step(ShutdownEvent::Rpc(Err("unauthorized".to_string())));
    let err = machine.outcome().expect("finished").expect_err("no token");
    assert_eq!(err, "Daemon is running but requires a remote backend token.");
}
