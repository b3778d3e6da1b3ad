use supervisord::install::{config_dir_is_copyable, sc_create_args, sc_description_args, sc_failure_args, sc_service_args};
use supervisord::platform::{is_verbatim_path, Platform};
use supervisord::install::{service_control_decision, ServiceControlEvent};
use supervisord::cli::{base_config_template, demo_program_config, requested_config, Commands};
use supervisord::install::{
    binary_plan, cli_exe_path, decode_windows_output, exe_path, install_default_dir,
    parse_sc_registered, parse_sc_state, sc_command_line, sc_create_result, sc_query_stopped,
    sc_start_result, service_bin_path, split_lines, stop_poll_limit, systemctl_error,
    systemd_unit_path, unit_file_text, world_traversable, BinaryPlan, Rk3588Install,
    SystemdInstall, WindowsInstall,
};

#[test]
fn installers_use_the_supervisord_setup() {
    let s = SystemdInstall::supervisord();
    assert_eq!(s.exe_name, "supervisord");
    assert_eq!(s.exe_configs_dirs, vec!["./etc".to_string()]);
    assert_eq!(s.get_service_name(), "supervisord");
    let w = WindowsInstall::supervisord();
    assert_eq!(w.get_service_name(), "supervisord");
    assert_eq!(w.exe_configs_dirs, vec!["./etc".to_string()]);
    let r = Rk3588Install::supervisord();
    assert_eq!(r.get_service_name(), "supervisord");
}

#[test]
fn systemd_paths_and_unit() {
    assert_eq!(systemd_unit_path(), "/etc/systemd/system/supervisord.service");
    assert_eq!(cli_exe_path(), "/usr/local/bin/supervisord");
    assert_eq!(
        unit_file_text("ExecStart={{exe_path}} daemon\n# {{exe_path}}", "/usr/bin/s"),
        "ExecStart=/usr/bin/s daemon\n# /usr/bin/s"
    );
}

#[test]
fn traversal_needs_every_other_execute_bit() {
    assert!(world_traversable(&vec![Some(0o755), Some(0o711)]));
    assert!(world_traversable(&vec![]));
    assert!(!world_traversable(&vec![Some(0o755), Some(0o750)]));
    assert!(!world_traversable(&vec![None]));
}

#[test]
fn binary_plans() {
    assert_eq!(binary_plan(true, false), BinaryPlan::UseCurrent);
    assert_eq!(binary_plan(false, true), BinaryPlan::UseInstalled);
    assert_eq!(binary_plan(false, false), BinaryPlan::CopyToInstalled);
}

#[test]
fn systemctl_errors() {
    let args = vec!["enable".to_string(), "supervisord".to_string()];
    assert_eq!(systemctl_error(&args, false, "not found"), "systemctl enable supervisord failed: not found");
    assert_eq!(systemctl_error(&args, true, "exit status: 1"), "systemctl enable supervisord exited with exit status: 1");
}

#[test]
fn windows_install_paths() {
    assert_eq!(install_default_dir(None, "supervisord"), r"C:\ProgramData\supervisord");
    assert_eq!(exe_path(None, "supervisord"), r"C:\ProgramData\supervisord\supervisord.exe");
    assert_eq!(exe_path(Some(r"D:\data\"), "svc"), r"D:\data\svc\svc.exe");
    assert_eq!(service_bin_path(r"C:\p\s.exe", "supervisord"), "\"C:\\p\\s.exe\" service supervisord");
}

#[test]
fn sc_outputs() {
    assert!(parse_sc_registered(true, "anything"));
    assert!(!parse_sc_registered(false, "[SC] OpenService FAILED 1060:"));
    assert!(parse_sc_registered(false, "[SC] other failure 5"));
    assert_eq!(parse_sc_state("[SC] EnumQueryServicesStatus:OpenService FAILED 1060:"), "Service is not installed.");
    let out = "SERVICE_NAME: supervisord\r\n        TYPE               : 10  WIN32_OWN_PROCESS\r\n        STATE              : 4  RUNNING\r\n";
    assert_eq!(parse_sc_state(out), "STATE              : 4  RUNNING");
    assert_eq!(parse_sc_state("nothing useful"), "unknown");
    assert!(sc_query_stopped("STATE : 1 STOPPED"));
    assert!(sc_query_stopped("FAILED 1060"));
    assert!(!sc_query_stopped("STATE : 4 RUNNING"));
    assert_eq!(stop_poll_limit(), 20);
}

#[test]
fn lines_split_like_str_lines() {
    for s in ["a\nb", "a\r\nb\r\n", "", "\n", "x\n\ny", "tail\r"] {
        let expected: Vec<String> = s.lines().map(|l| l.to_string()).collect();
        assert_eq!(split_lines(s), expected, "input {s:?}");
    }
}

#[test]
fn sc_results() {
    assert!(sc_create_result(true, "").is_ok());
    assert!(sc_create_result(false, "[SC] CreateService FAILED 1073:").is_ok());
    assert_eq!(sc_create_result(false, "  [SC] FAILED 5: Access is denied.\r\n"), Err("sc create failed: [SC] FAILED 5: Access is denied.".to_string()));
    assert!(sc_start_result(false, "FAILED 1056: already running").is_ok());
    assert_eq!(sc_start_result(false, " boom \n"), Err("sc start failed: boom".to_string()));
    assert!(sc_start_result(true, "").is_ok());
}

#[test]
fn sc_command_lines_quote_spaced_arguments() {
    let args = vec!["create".to_string(), "svc".to_string(), "binPath=".to_string(), "\"C:\\x y\\s.exe\" service".to_string()];
    assert_eq!(sc_command_line(&args), "create svc binPath= \"\\\"C:\\x y\\s.exe\\\" service\"");
    assert_eq!(sc_command_line(&vec![]), "");
}

#[test]
fn windows_output_decoding() {
    assert_eq!(decode_windows_output("STATE : RUNNING".as_bytes()), "STATE : RUNNING");
    // "服务" in GBK
    assert_eq!(decode_windows_output(&[0xB7, 0xFE, 0xCE, 0xF1]), "服务");
}

#[test]
fn init_templates() {
    let base = base_config_template();
    assert!(base.starts_with("socket_file = \"supervisord\"\n"));
    assert!(base.contains("web.port = 18099"));
    let demo = demo_program_config();
    assert!(demo.starts_with("name = \"demo\""));
    assert!(demo.ends_with("stderr_logfile = \"demo.err\""));
}

#[test]
fn only_init_and_daemon_name_a_config_directory() {
    assert_eq!(requested_config(&Commands::Init { config: Some("./c".into()) }), Some("./c"));
    assert_eq!(requested_config(&Commands::Daemon { config: None }), None);
    assert_eq!(requested_config(&Commands::Status), None);
    assert_eq!(requested_config(&Commands::Start { target: "x".into() }), None);
}

#[test]
fn config_dirs_must_stay_beside_the_executable() {
    assert!(config_dir_is_copyable(Platform::Windows, "./etc"));
    assert!(config_dir_is_copyable(Platform::Windows, "etc\\app"));
    assert!(config_dir_is_copyable(Platform::Windows, "a..b"));
    assert!(config_dir_is_copyable(Platform::Windows, ""));
    assert!(!config_dir_is_copyable(Platform::Windows, "..\\etc"));
    assert!(!config_dir_is_copyable(Platform::Windows, "etc/.."));
    assert!(!config_dir_is_copyable(Platform::Windows, "C:\\etc"));
    assert!(!config_dir_is_copyable(Platform::Windows, "c:etc"));
    assert!(!config_dir_is_copyable(Platform::Windows, "\\etc"));
    assert!(!config_dir_is_copyable(Platform::Windows, "\\\\server\\share"));
    assert!(!config_dir_is_copyable(Platform::Unix, "/etc"));
    assert!(config_dir_is_copyable(Platform::Unix, "etc\\.."));
    assert!(!config_dir_is_copyable(Platform::Unix, "x/../y"));
}

#[test]
fn sc_argument_lists() {
    assert_eq!(
        sc_create_args("supervisord", "\"C:\\s.exe\" service supervisord"),
        vec!["create", "supervisord", "binPath=", "\"C:\\s.exe\" service supervisord", "DisplayName=", "Supervisord", "start=", "auto", "obj=", "LocalSystem"]
    );
    assert_eq!(
        sc_description_args("svc"),
        vec!["description", "svc", "A watchdog developed by Rust, guarding the base system"]
    );
    assert_eq!(
        sc_failure_args("svc"),
        vec!["failure", "svc", "reset=", "60", "actions=", "restart/5000/restart/5000/restart/10000"]
    );
    assert_eq!(sc_service_args("query", "svc"), vec!["query", "svc"]);
}

#[test]
fn verbatim_paths_are_recognized() {
    assert!(is_verbatim_path(Platform::Windows, r"\\?\C:\data"));
    assert!(!is_verbatim_path(Platform::Windows, r"C:\data"));
    assert!(!is_verbatim_path(Platform::Windows, r"\\server\share"));
    assert!(!is_verbatim_path(Platform::Unix, r"\\?\C:\data"));
}

#[test]
fn service_controls() {
    let stop = service_control_decision(ServiceControlEvent::Stop);
    assert!(stop.handled && stop.shut_down);
    let down = service_control_decision(ServiceControlEvent::Shutdown);
    assert!(down.handled && down.shut_down);
    let ask = service_control_decision(ServiceControlEvent::Interrogate);
    assert!(ask.handled && !ask.shut_down);
    let other = service_control_decision(ServiceControlEvent::Other);
    assert!(!other.handled && !other.shut_down);
}

#[test]
fn install_paths_join_any_name() {
    assert_eq!(install_default_dir(Some(r"C:\data"), r"D:\other"), r"D:\other");
    assert_eq!(install_default_dir(Some(r"C:\data"), r"\root"), r"C:\root");
    assert_eq!(install_default_dir(Some(r"data"), r"\root"), r"\root");
    assert_eq!(install_default_dir(Some(r"C:\data"), r"\\server\share"), r"\\server\share");
    assert_eq!(install_default_dir(Some(r"C:\data"), ""), r"C:\data\");
    assert_eq!(install_default_dir(None, "a/b"), r"C:\ProgramData\a/b");
}
