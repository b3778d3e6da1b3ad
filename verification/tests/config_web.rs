use supervisord::config::{readable_programs, ProgramFile,
    assemble_config, check_base_settings, default_true, is_program_file, program_files, Config, ConfigError,
    ProgramConfig, WebServerConf,
};
use supervisord::state::{ProcessTable, Status};
use supervisord::web::{web_action, web_status, web_stop_reply, WebOutcome};

fn program(name: &str) -> ProgramConfig {
    ProgramConfig {
        name: name.to_string(),
        command: format!("run {name}"),
        directory: Some("/srv".into()),
        autostart: true,
        autorestart: false,
        environment: Some(vec![("PORT".into(), "8080".into())]),
        stdout_logfile: None,
        stderr_logfile: None,
    }
}

fn web() -> WebServerConf {
    WebServerConf { port: 18099, listen_addr: "127.0.0.1".to_string() }
}

#[test]
fn web_addresses() {
    assert_eq!(web().into_addr(), "127.0.0.1:18099");
    assert_eq!(web().into_http_addr(), "http://127.0.0.1:18099");
    let w = WebServerConf { port: 0, listen_addr: "0.0.0.0".into() };
    assert_eq!(w.into_addr(), "0.0.0.0:0");
}

#[test]
fn defaults_are_true() {
    assert!(default_true());
}

#[test]
fn only_toml_files_are_programs() {
    assert!(is_program_file("api.toml"));
    assert!(is_program_file("a.b.toml"));
    assert!(!is_program_file(".toml"));
    assert!(!is_program_file("api.TOML"));
    assert!(!is_program_file("api.toml.bak"));
    assert!(!is_program_file("toml"));
}

#[test]
fn program_files_are_filtered_and_sorted() {
    let names = vec!["worker.toml".to_string(), "README".into(), "api.toml".into(), ".toml".into(), "b.toml".into()];
    assert_eq!(program_files(names), vec!["api.toml", "b.toml", "worker.toml"]);
    assert!(program_files(vec![]).is_empty());
}

#[test]
fn assembling_keeps_programs_in_order() {
    let loaded = vec![("app/a.toml".to_string(), program("api")), ("app/w.toml".to_string(), program("worker"))];
    match assemble_config(web(), loaded) {
        Ok(c) => {
            assert_eq!(c.program.len(), 2);
            assert_eq!(c.program[0].name, "api");
            assert_eq!(c.program[1].name, "worker");
            assert_eq!(c.web.port, 18099);
        }
        Err(e) => panic!("unexpected {e:?}"),
    }
}

#[test]
fn base_programs_are_refused() {
    assert!(matches!(check_base_settings(true), Err(ConfigError::BaseHasPrograms)));
    assert!(check_base_settings(false).is_ok());
}

#[test]
fn duplicate_names_are_refused() {
    let loaded = vec![
        ("app/a.toml".to_string(), program("api")),
        ("app/b.toml".to_string(), program("worker")),
        ("app/c.toml".to_string(), program("api")),
        ("app/d.toml".to_string(), program("worker")),
    ];
    match assemble_config(web(), loaded) {
        Err(ConfigError::DuplicateName { name, file }) => {
            assert_eq!(name, "api");
            assert_eq!(file, "app/c.toml");
        }
        other => panic!("unexpected {other:?}"),
    }
}

fn table() -> ProcessTable {
    let mut t = ProcessTable::new();
    t.register("worker".into(), false);
    t.register("api".into(), true);
    t.set_status("api", Status::Running(321));
    t
}

#[test]
fn dashboard_status_is_sorted_and_complete() {
    let c = Config { web: web(), program: vec![program("api")] };
    let rows = web_status(&table(), &c);
    assert_eq!(rows.len(), 2);
    assert_eq!(rows[0].name, "api");
    assert_eq!(rows[0].status, "Running (pid 321)");
    assert_eq!(rows[0].intent, "Run");
    assert_eq!(rows[0].mem_pid, Some(321));
    assert_eq!(rows[0].command, "run api");
    assert_eq!(rows[0].directory.as_deref(), Some("/srv"));
    assert!(rows[0].autostart);
    assert!(!rows[0].autorestart);
    assert_eq!(rows[1].name, "worker");
    assert_eq!(rows[1].status, "Stopped");
    assert_eq!(rows[1].intent, "Stop");
    assert_eq!(rows[1].mem_pid, None);
    assert_eq!(rows[1].command, "");
    assert_eq!(rows[1].directory, None);
    assert!(!rows[1].autostart);
}

#[test]
fn dashboard_status_words() {
    let mut t = ProcessTable::new();
    t.register("e".into(), true);
    t.register("f".into(), true);
    t.set_status("e", Status::Exited(2));
    t.set_status("f", Status::Failed("boom".into()));
    let c = Config { web: web(), program: vec![] };
    let rows = web_status(&t, &c);
    assert_eq!(rows[0].status, "Exited (code 2)");
    assert_eq!(rows[1].status, "Failed: boom");
}

#[test]
fn dashboard_actions() {
    let mut t = table();
    match web_action(&mut t, "start", "worker") {
        WebOutcome::Reply(r) => {
            assert!(r.success);
            assert_eq!(r.error, None);
        }
        other => panic!("unexpected {other:?}"),
    }
    assert_eq!(t.intent_of("worker"), supervisord::state::Intent::Run);
    assert!(matches!(web_action(&mut t, "stop", "api"), WebOutcome::Terminate(321)));
    assert_eq!(t.intent_of("api"), supervisord::state::Intent::Stop);
    match web_action(&mut t, "restart", "api") {
        WebOutcome::Reply(r) => {
            assert!(!r.success);
            assert_eq!(r.error.as_deref(), Some("Unknown action"));
        }
        other => panic!("unexpected {other:?}"),
    }
    match web_action(&mut t, "restart", "nobody") {
        WebOutcome::Reply(r) => {
            assert!(!r.success);
            assert_eq!(r.error.as_deref(), Some("Process not found"));
        }
        other => panic!("unexpected {other:?}"),
    }
    let ok = web_stop_reply(Ok(()));
    assert!(ok.success && ok.error.is_none());
    let bad = web_stop_reply(Err("EPERM".into()));
    assert!(!bad.success);
    assert_eq!(bad.error.as_deref(), Some("Failed to stop process: EPERM"));
}

#[test]
fn unreadable_program_files_are_skipped() {

    let files = vec![
        ("app/a.toml".to_string(), ProgramFile::Parsed(program("api"))),
        ("app/b.toml".to_string(), ProgramFile::Unreadable("missing field `command`".into())),
        ("app/c.toml".to_string(), ProgramFile::Parsed(program("worker"))),
    ];
    let kept = readable_programs(files);
    assert_eq!(kept.len(), 2);
    assert_eq!(kept[0].0, "app/a.toml");
    assert_eq!(kept[0].1.name, "api");
    assert_eq!(kept[1].0, "app/c.toml");
    assert_eq!(kept[1].1.name, "worker");
}
