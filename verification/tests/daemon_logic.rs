use supervisord::config::{Config, ProgramConfig, WebServerConf};
use supervisord::daemon::start_daemon;
use supervisord::ipc::{
    classify_parse, process_request, start_output, status_output, stop_output, stop_reply,
    ClientStep, IpcRequest, IpcResponse, ParseOutcome, RequestOutcome, StatusOutput,
};
use supervisord::state::{Intent, ProcessTable, Status};
use supervisord::supervise::{Action, Event, Phase, ProgramSupervisor};

fn program(name: &str, autostart: bool, autorestart: bool) -> ProgramConfig {
    ProgramConfig {
        name: name.to_string(),
        command: format!("run-{name}"),
        directory: None,
        autostart,
        autorestart,
        environment: None,
        stdout_logfile: None,
        stderr_logfile: None,
    }
}

fn config(programs: Vec<ProgramConfig>) -> Config {
    Config { web: WebServerConf { port: 18099, listen_addr: "127.0.0.1".to_string() }, program: programs }
}

fn table_with(names: &[(&str, bool)]) -> ProcessTable {
    let mut t = ProcessTable::new();
    for (n, a) in names {
        t.register(n.to_string(), *a);
    }
    t
}

#[test]
fn registration_follows_autostart() {
    let t = table_with(&[("api", true), ("worker", false)]);
    assert_eq!(t.len(), 2);
    assert_eq!(t.intent_of("api"), Intent::Run);
    assert_eq!(t.intent_of("worker"), Intent::Stop);
    assert_eq!(t.intent_of("ghost"), Intent::Stop);
    assert!(matches!(t.get("api").unwrap().status, Status::Stopped));
}

#[test]
fn registering_a_name_again_replaces_it() {
    let mut t = table_with(&[("api", true)]);
    t.register("api".to_string(), false);
    assert_eq!(t.len(), 1);
    assert_eq!(t.intent_of("api"), Intent::Stop);
}

#[test]
fn daemon_start_builds_records_and_supervisors() {
    let (state, sups) = start_daemon(config(vec![program("a", true, true), program("b", false, false)]), "./etc".into());
    assert_eq!(state.processes.len(), 2);
    assert_eq!(state.processes.name_at(0), "a");
    assert_eq!(state.processes.intent_of("a"), Intent::Run);
    assert_eq!(state.processes.intent_of("b"), Intent::Stop);
    assert_eq!(sups.len(), 2);
    assert_eq!(sups[1].name, "b");
    assert!(!sups[1].autorestart);
    assert_eq!(sups[0].phase, Phase::Idle);
    assert_eq!(state.config_dir, "./etc");
}

#[test]
fn status_request_reports_every_program() {
    let mut t = table_with(&[("api", true), ("worker", false)]);
    t.set_status("api", Status::Running(1234));
    t.set_status("worker", Status::Exited(-1));
    match process_request(&mut t, IpcRequest::Status) {
        RequestOutcome::Reply(IpcResponse::StatusData(rows)) => {
            assert_eq!(
                rows,
                vec![
                    ("api".to_string(), "RUNNING (pid 1234) [intended: RUN]".to_string()),
                    ("worker".to_string(), "EXITED (code -1) [intended: STOP]".to_string()),
                ]
            );
        }
        other => panic!("unexpected {other:?}"),
    }
    let mut f = table_with(&[("x", false)]);
    f.set_status("x", Status::Failed("command not found".into()));
    match process_request(&mut f, IpcRequest::Status) {
        RequestOutcome::Reply(IpcResponse::StatusData(rows)) => {
            assert_eq!(rows[0].1, "FAILED (command not found) [intended: STOP]");
        }
        other => panic!("unexpected {other:?}"),
    }
}

#[test]
fn start_request_sets_run_intent() {
    let mut t = table_with(&[("api", false)]);
    assert!(matches!(
        process_request(&mut t, IpcRequest::Start { target: "api".into() }),
        RequestOutcome::Reply(IpcResponse::Ack)
    ));
    assert_eq!(t.intent_of("api"), Intent::Run);
}

#[test]
fn unknown_target_is_not_found() {
    let mut t = table_with(&[("api", false)]);
    match process_request(&mut t, IpcRequest::Start { target: "nope".into() }) {
        RequestOutcome::Reply(IpcResponse::Error(m)) => assert_eq!(m, "Process not found"),
        other => panic!("unexpected {other:?}"),
    }
    match process_request(&mut t, IpcRequest::Stop { target: "nope".into() }) {
        RequestOutcome::Reply(IpcResponse::Error(m)) => assert_eq!(m, "Process not found"),
        other => panic!("unexpected {other:?}"),
    }
    assert_eq!(t.intent_of("api"), Intent::Stop);
}

#[test]
fn stop_request_signals_a_running_program() {
    let mut t = table_with(&[("api", true)]);
    t.set_status("api", Status::Running(77));
    assert!(matches!(
        process_request(&mut t, IpcRequest::Stop { target: "api".into() }),
        RequestOutcome::Terminate(77)
    ));
    assert_eq!(t.intent_of("api"), Intent::Stop);
    let mut u = table_with(&[("idle", true)]);
    assert!(matches!(
        process_request(&mut u, IpcRequest::Stop { target: "idle".into() }),
        RequestOutcome::Reply(IpcResponse::Ack)
    ));
}

#[test]
fn stop_reply_reports_signal_errors() {
    assert!(matches!(stop_reply(Ok(())), IpcResponse::Ack));
    match stop_reply(Err("ESRCH".into())) {
        IpcResponse::Error(m) => assert_eq!(m, "Failed to stop process: ESRCH"),
        other => panic!("unexpected {other:?}"),
    }
}

#[test]
fn shutdown_stops_everything() {
    let mut t = table_with(&[("a", true), ("b", true), ("c", false)]);
    t.set_status("a", Status::Running(10));
    t.set_status("c", Status::Running(30));
    let pids = t.stop_all();
    assert_eq!(pids, vec![10, 30]);
    for n in ["a", "b", "c"] {
        assert_eq!(t.intent_of(n), Intent::Stop);
    }
}

#[test]
fn client_connection_steps() {
    assert!(matches!(classify_parse(ParseOutcome::Incomplete), ClientStep::ReadMore));
    assert!(matches!(classify_parse(ParseOutcome::Parsed(IpcRequest::Status)), ClientStep::Handle(IpcRequest::Status)));
    match classify_parse(ParseOutcome::Invalid("expected value".into())) {
        ClientStep::Reply(IpcResponse::Error(m)) => assert_eq!(m, "Invalid request: expected value"),
        other => panic!("unexpected {other:?}"),
    }
}

#[test]
fn client_outputs() {
    assert_eq!(start_output("api", IpcResponse::Ack), "Started api");
    assert_eq!(stop_output("api", IpcResponse::Ack), "Stopped api");
    assert_eq!(start_output("api", IpcResponse::Error("Process not found".into())), "Error: Process not found");
    assert_eq!(stop_output("api", IpcResponse::StatusData(vec![])), "Unexpected response");
    match status_output(IpcResponse::StatusData(vec![])) {
        StatusOutput::Line(l) => assert_eq!(l, "No processes configured."),
        other => panic!("unexpected {other:?}"),
    }
    match status_output(IpcResponse::StatusData(vec![("b".into(), "x".into()), ("a".into(), "y".into())])) {
        StatusOutput::Table(rows) => assert_eq!(rows, vec![("a".to_string(), "y".to_string()), ("b".to_string(), "x".to_string())]),
        other => panic!("unexpected {other:?}"),
    }
    match status_output(IpcResponse::Ack) {
        StatusOutput::Line(l) => assert_eq!(l, "Unexpected response"),
        other => panic!("unexpected {other:?}"),
    }
}

#[test]
fn supervision_restarts_with_autorestart() {
    let mut t = table_with(&[("api", true)]);
    let mut s = ProgramSupervisor::new("api".into(), true);
    assert_eq!(s.first_action(), Action::Sleep(0));
    assert_eq!(s.step(&mut t, Event::Tick), Action::Spawn);
    assert_eq!(s.step(&mut t, Event::Spawned(Some(42))), Action::WaitForExit);
    assert!(matches!(t.get("api").unwrap().status, Status::Running(42)));
    assert_eq!(s.step(&mut t, Event::Exited(Some(3))), Action::Sleep(500));
    assert!(matches!(t.get("api").unwrap().status, Status::Exited(3)));
    assert_eq!(t.intent_of("api"), Intent::Run);
    assert_eq!(s.step(&mut t, Event::Tick), Action::Spawn);
}

#[test]
fn supervision_parks_without_autorestart() {
    let mut t = table_with(&[("job", true)]);
    let mut s = ProgramSupervisor::new("job".into(), false);
    assert_eq!(s.step(&mut t, Event::Tick), Action::Spawn);
    assert_eq!(s.step(&mut t, Event::Spawned(None)), Action::WaitForExit);
    assert!(matches!(t.get("job").unwrap().status, Status::Running(0)));
    assert_eq!(s.step(&mut t, Event::Exited(None)), Action::Sleep(500));
    assert!(matches!(t.get("job").unwrap().status, Status::Exited(-1)));
    assert_eq!(t.intent_of("job"), Intent::Stop);
    assert_eq!(s.step(&mut t, Event::Tick), Action::Sleep(500));
    // a manual start brings it back
    process_request(&mut t, IpcRequest::Start { target: "job".into() });
    assert_eq!(s.step(&mut t, Event::Tick), Action::Spawn);
}

#[test]
fn supervision_backs_off_after_a_failed_spawn() {
    let mut t = table_with(&[("bad", true)]);
    let mut s = ProgramSupervisor::new("bad".into(), true);
    assert_eq!(s.step(&mut t, Event::Tick), Action::Spawn);
    assert_eq!(s.step(&mut t, Event::SpawnFailed("No such file".into())), Action::Sleep(5000));
    assert_eq!(s.phase, Phase::Backoff);
    match &t.get("bad").unwrap().status {
        Status::Failed(m) => assert_eq!(m, "No such file"),
        other => panic!("unexpected {other:?}"),
    }
    assert_eq!(s.step(&mut t, Event::Tick), Action::Sleep(500));
    assert_eq!(s.step(&mut t, Event::Tick), Action::Spawn);
}

#[test]
fn user_stop_is_not_restarted() {
    let mut t = table_with(&[("api", true)]);
    let mut s = ProgramSupervisor::new("api".into(), true);
    s.step(&mut t, Event::Tick);
    s.step(&mut t, Event::Spawned(Some(9)));
    assert!(matches!(process_request(&mut t, IpcRequest::Stop { target: "api".into() }), RequestOutcome::Terminate(9)));
    s.step(&mut t, Event::Exited(None));
    assert_eq!(t.intent_of("api"), Intent::Stop);
    assert_eq!(s.step(&mut t, Event::Tick), Action::Sleep(500));
    assert_eq!(s.step(&mut t, Event::Tick), Action::Sleep(500));
}

#[test]
fn stopped_intent_never_spawns_and_other_records_stay() {
    let mut t = table_with(&[("a", false), ("b", true)]);
    t.set_status("b", Status::Running(5));
    let mut s = ProgramSupervisor::new("a".into(), true);
    for _ in 0..3 {
        assert_eq!(s.step(&mut t, Event::Tick), Action::Sleep(500));
    }
    assert!(matches!(t.get("b").unwrap().status, Status::Running(5)));
    assert_eq!(t.intent_of("b"), Intent::Run);
    // events the phase does not wait for change nothing
    assert_eq!(s.step(&mut t, Event::Exited(Some(1))), Action::Sleep(500));
    assert_eq!(s.phase, Phase::Idle);
}
