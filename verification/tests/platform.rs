use supervisord::platform::{
    client_endpoint, command, default_ipc_endpoint, join_path, normalize_ipc_endpoint,
    resolve_config_path, Platform,
};

#[test]
fn default_endpoint_is_not_empty() {
    assert!(!default_ipc_endpoint(Platform::Unix, "/tmp").is_empty());
    assert!(!default_ipc_endpoint(Platform::Windows, "").is_empty());
}

#[test]
fn windows_pipe_names_are_normalized() {
    assert_eq!(normalize_ipc_endpoint(Platform::Windows, "custom"), r"\\.\pipe\custom");
    assert_eq!(
        normalize_ipc_endpoint(Platform::Windows, r"\\.\pipe\custom"),
        r"\\.\pipe\custom"
    );
}

#[test]
fn unix_endpoints_are_kept() {
    assert_eq!(normalize_ipc_endpoint(Platform::Unix, "custom"), "custom");
    assert_eq!(normalize_ipc_endpoint(Platform::Unix, "/run/x.sock"), "/run/x.sock");
}

#[test]
fn normalizing_twice_changes_nothing() {
    let once = normalize_ipc_endpoint(Platform::Windows, "abc");
    assert_eq!(normalize_ipc_endpoint(Platform::Windows, &once), once);
}

#[test]
fn default_endpoints() {
    assert_eq!(default_ipc_endpoint(Platform::Unix, "/tmp"), "/tmp/supervisord.sock");
    assert_eq!(default_ipc_endpoint(Platform::Unix, "/tmp/"), "/tmp/supervisord.sock");
    assert_eq!(default_ipc_endpoint(Platform::Unix, ""), "supervisord.sock");
    assert_eq!(default_ipc_endpoint(Platform::Windows, "/tmp"), r"\\.\pipe\supervisord");
}

#[test]
fn client_endpoint_prefers_the_configured_one() {
    assert_eq!(client_endpoint(Platform::Unix, Some("/x/y.sock"), "/tmp"), "/x/y.sock");
    assert_eq!(client_endpoint(Platform::Unix, None, "/tmp"), "/tmp/supervisord.sock");
    assert_eq!(client_endpoint(Platform::Windows, Some("mine"), ""), r"\\.\pipe\mine");
    assert_eq!(client_endpoint(Platform::Windows, None, ""), r"\\.\pipe\supervisord");
}

#[test]
fn paths_join_with_the_platform_separator() {
    assert_eq!(join_path(Platform::Unix, "/opt", "etc"), "/opt/etc");
    assert_eq!(join_path(Platform::Windows, r"C:\ProgramData", "etc"), r"C:\ProgramData\etc");
    assert_eq!(join_path(Platform::Windows, r"C:\data\", "etc"), r"C:\data\etc");
    assert_eq!(join_path(Platform::Windows, "C:", "etc"), "C:etc");
    assert_eq!(join_path(Platform::Windows, "dir/", "etc"), "dir/etc");
}

#[test]
fn shell_commands() {
    let c = command(Platform::Unix, "node index.js");
    assert_eq!(c.program, "sh");
    assert_eq!(c.args, vec!["-c".to_string(), "node index.js".to_string()]);
    let w = command(Platform::Windows, "run.bat");
    assert_eq!(w.program, "cmd.exe");
    assert_eq!(w.args, vec!["/D", "/S", "/C", "run.bat"]);
}

#[test]
fn config_path_resolution() {
    assert_eq!(resolve_config_path(Platform::Unix, Some("./conf"), Some("/usr/bin")), "./conf");
    assert_eq!(resolve_config_path(Platform::Unix, None, Some("/usr/bin")), "/usr/bin/etc");
    assert_eq!(resolve_config_path(Platform::Windows, None, Some(r"C:\app")), r"C:\app\etc");
    assert_eq!(resolve_config_path(Platform::Unix, None, None), "./etc");
}

#[test]
fn joining_rooted_and_prefixed_names() {
    assert_eq!(join_path(Platform::Unix, "/opt", "/etc"), "/etc");
    assert_eq!(join_path(Platform::Unix, "/opt", ""), "/opt/");
    assert_eq!(join_path(Platform::Unix, "", "etc"), "etc");
    assert_eq!(join_path(Platform::Windows, r"C:\a", r"\b"), r"C:\b");
    assert_eq!(join_path(Platform::Windows, r"C:\a", r"E:b"), r"E:b");
    assert_eq!(join_path(Platform::Windows, r"C:\a", r"\\?\x"), r"\\?\x");
    assert_eq!(join_path(Platform::Windows, "a", "/b"), "/b");
}
