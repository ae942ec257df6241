use kokorobox_native::error::NativeError;
use kokorobox_native::paths::ResolvedPath;
use kokorobox_native::privileged_operations::{
    applescript_escape, check_requested_owner, linux_repair_arguments, macos_repair_command,
    macos_service_command, pkexec_service_arguments, privileged_shell_script,
};
use kokorobox_native::privileges::{
    command_path, get_core_privilege_status, set_core_privileges, CorePathLookup,
    PrivilegedCommand,
};
use kokorobox_native::terminal_proxy::{
    clear_terminal_proxy_environment, config_path, may_replace, quote, set_terminal_proxy_environment,
    validate_value,
};
use kokorobox_native::TargetOs;

fn resolved(canonical: &str, mode: u32) -> CorePathLookup {
    CorePathLookup::Resolved(ResolvedPath {
        canonical: canonical.to_string(),
        is_file: true,
        is_dir: false,
        mode,
    })
}

#[test]
fn core_status_reports_the_setuid_bit() {
    let paths = vec!["/opt/core/mihomo".to_string(), "/opt/core/alpha".to_string()];
    let lookups = vec![
        resolved("/opt/core/mihomo", 0o104755),
        resolved("/opt/core/bin/mihomo-alpha", 0o100755),
    ];
    let status = get_core_privilege_status(&paths, &lookups, TargetOs::Linux).unwrap();
    assert_eq!(status.len(), 2);
    assert_eq!(status[0].path, "/opt/core/mihomo");
    assert!(status[0].granted);
    assert_eq!(status[1].path, "/opt/core/bin/mihomo-alpha");
    assert!(!status[1].granted);
    let windows = get_core_privilege_status(
        &vec!["C:\\core\\mihomo".to_string()],
        &vec![resolved("C:\\core\\mihomo", 0)],
        TargetOs::Windows,
    )
    .unwrap_err();
    assert_eq!(
        windows.message,
        "UNSUPPORTED_PLATFORM: core file privileges are only available on Unix"
    );
}

#[test]
fn core_paths_are_checked_in_order() {
    let paths = vec!["/opt/core/tool".to_string()];
    let error =
        get_core_privilege_status(&paths, &vec![resolved("/opt/core/tool", 0o755)], TargetOs::Linux)
            .unwrap_err();
    assert_eq!(
        error.message,
        "CORE_PRIVILEGE_INVALID_PATH: only mihomo and mihomo-alpha are accepted"
    );
    let error = get_core_privilege_status(
        &vec!["/opt/core/mihomo".to_string()],
        &vec![resolved("/opt/core/mihomo", 0o644)],
        TargetOs::Linux,
    )
    .unwrap_err();
    assert_eq!(error.message, "CORE_PRIVILEGE_INVALID_PATH: core path must be executable");
    let error = get_core_privilege_status(
        &vec!["/opt/core/missing".to_string()],
        &vec![CorePathLookup::Unresolved],
        TargetOs::Linux,
    )
    .unwrap_err();
    assert_eq!(error.message, "CORE_PRIVILEGE_INVALID_PATH: unable to resolve /opt/core/missing");
    let nine: Vec<String> = (0..9).map(|i| format!("/opt/{i}/mihomo")).collect();
    let lookups: Vec<CorePathLookup> = nine.iter().map(|p| resolved(p, 0o755)).collect();
    assert_eq!(
        get_core_privilege_status(&nine, &lookups, TargetOs::Linux).unwrap_err().message,
        "CORE_PRIVILEGE_INVALID_PATH: too many core paths"
    );
}

#[test]
fn tool_paths_prefer_usr_bin() {
    assert_eq!(command_path("chmod", (true, true)), Ok("/usr/bin/chmod".to_string()));
    assert_eq!(command_path("chown", (false, true)), Ok("/bin/chown".to_string()));
    assert_eq!(
        command_path("chown", (false, false)).unwrap_err().message,
        "CORE_PRIVILEGE_ELEVATION_FAILED: chown is unavailable"
    );
}

#[test]
fn linux_grant_changes_owner_then_sets_the_bit() {
    let paths = vec!["/opt/core/mihomo".to_string()];
    let lookups = vec![resolved("/opt/core/mihomo", 0o755)];
    let chmod: Result<String, NativeError> = Ok("/usr/bin/chmod".to_string());
    let chown: Result<String, NativeError> = Ok("/bin/chown".to_string());
    let commands =
        set_core_privileges(&paths, &lookups, true, TargetOs::Linux, &chmod, &chown).unwrap();
    assert_eq!(commands.len(), 2);
    match (&commands[0], &commands[1]) {
        (PrivilegedCommand::Pkexec(first), PrivilegedCommand::Pkexec(second)) => {
            assert_eq!(first, &vec!["/bin/chown", "root:root", "--", "/opt/core/mihomo"]);
            assert_eq!(second, &vec!["/usr/bin/chmod", "u+s", "--", "/opt/core/mihomo"]);
        }
        other => panic!("unexpected commands {other:?}"),
    }
    let revoke =
        set_core_privileges(&paths, &lookups, false, TargetOs::Linux, &chmod, &chown).unwrap();
    match &revoke[..] {
        [PrivilegedCommand::Pkexec(argv)] => {
            assert_eq!(argv, &vec!["/usr/bin/chmod", "u-s", "--", "/opt/core/mihomo"])
        }
        other => panic!("unexpected commands {other:?}"),
    }
    let missing: Result<String, NativeError> =
        Err(NativeError { message: "CORE_PRIVILEGE_ELEVATION_FAILED: chown is unavailable".to_string() });
    assert_eq!(
        set_core_privileges(&paths, &lookups, true, TargetOs::Linux, &chmod, &missing)
            .unwrap_err()
            .message,
        "CORE_PRIVILEGE_ELEVATION_FAILED: chown is unavailable"
    );
}

#[test]
fn macos_grant_runs_one_administrator_script() {
    let paths = vec!["/Users/u/core/mihomo".to_string()];
    let lookups = vec![resolved("/Users/u/core/mihomo", 0o755)];
    let unused: Result<String, NativeError> = Ok(String::new());
    let commands =
        set_core_privileges(&paths, &lookups, true, TargetOs::Macos, &unused, &unused).unwrap();
    match &commands[..] {
        [PrivilegedCommand::Osascript(script)] => assert_eq!(
            script,
            "do shell script \"/usr/sbin/chown root:admin -- '/Users/u/core/mihomo' && /bin/chmod u+s -- '/Users/u/core/mihomo'\" with administrator privileges"
        ),
        other => panic!("unexpected commands {other:?}"),
    }
    let windows = set_core_privileges(
        &vec!["C:\\core\\mihomo.exe".to_string()],
        &vec![resolved("C:\\core\\mihomo", 0)],
        true,
        TargetOs::Windows,
        &unused,
        &unused,
    )
    .unwrap_err();
    assert_eq!(
        windows.message,
        "UNSUPPORTED_PLATFORM: core file privileges are only available on Linux and macOS"
    );
}

#[test]
fn requested_owner_must_be_the_current_user() {
    assert!(check_requested_owner(1000, 1000, 1000, 1000).is_ok());
    for (uid, gid) in [(0, 0), (1001, 1000), (1000, 0)] {
        let current = if uid == 0 { 0 } else { 1000 };
        assert_eq!(
            check_requested_owner(uid, gid, current, 1000).unwrap_err().message,
            "PRIVILEGED_FILE_INVALID_OWNER: owner must be the current non-root user"
        );
    }
}

#[test]
fn permission_repair_commands() {
    let argv = linux_repair_arguments("/home/u/.kb/config.yaml", "/home/u/.kb", 1000, 100);
    assert_eq!(argv.len(), 8);
    assert_eq!(argv[0], "/bin/sh");
    assert_eq!(argv[1], "-c");
    assert!(argv[2].starts_with("mkdir -p -- \"$1\" && chown \"$2:$3\""));
    assert_eq!(&argv[3..], ["kokorobox-permission-repair", "/home/u/.kb", "1000", "100", "/home/u/.kb/config.yaml"]);
    assert_eq!(
        macos_repair_command("/Users/u/kb/config.yaml", "/Users/u/kb", 501, 20),
        "/bin/mkdir -p '/Users/u/kb' && /usr/sbin/chown '501:20' '/Users/u/kb' && /bin/chmod u+rwx '/Users/u/kb' && { [ ! -e '/Users/u/kb/config.yaml' ] || { /usr/sbin/chown '501:20' '/Users/u/kb/config.yaml' && /bin/chmod u+rw '/Users/u/kb/config.yaml'; }; }"
    );
}

#[test]
fn service_commands_quote_each_word() {
    assert_eq!(
        macos_service_command("/Applications/K B.app/svc", &vec!["it's".to_string(), "start".to_string()]),
        "'/Applications/K B.app/svc' 'it'\\''s' 'start'"
    );
    assert_eq!(
        pkexec_service_arguments("/opt/kb/service", &vec!["stop".to_string()]),
        vec!["/opt/kb/service", "stop"]
    );
    assert_eq!(applescript_escape("a\\b\"c"), "a\\\\b\\\"c");
    assert_eq!(
        privileged_shell_script("echo \"hi\""),
        "do shell script \"echo \\\"hi\\\"\" with administrator privileges"
    );
}

#[test]
fn terminal_proxy_file_location() {
    let home = Some("/home/u".to_string());
    assert_eq!(
        config_path(&home, &None),
        Ok("/home/u/.config/environment.d/90-kokorobox-proxy.conf".to_string())
    );
    assert_eq!(
        config_path(&home, &Some("/xdg".to_string())),
        Ok("/xdg/environment.d/90-kokorobox-proxy.conf".to_string())
    );
    assert_eq!(
        config_path(&home, &Some("relative".to_string())),
        Ok("/home/u/.config/environment.d/90-kokorobox-proxy.conf".to_string())
    );
    assert_eq!(config_path(&None, &None).unwrap_err().message, "HOME is not set");
}

#[test]
fn terminal_proxy_values_are_quoted_for_environment_d() {
    assert!(validate_value("http://host:1").is_ok());
    assert_eq!(
        validate_value("a\rb").unwrap_err().message,
        "Terminal proxy value contains an invalid line break or NUL"
    );
    assert_eq!(quote("a$b"), Ok("\"a$$b\"".to_string()));
    assert!(quote("a\0b").is_err());
}

#[test]
fn terminal_proxy_update_on_linux_only() {
    let update = set_terminal_proxy_environment(
        "127.0.0.1",
        7890,
        &vec!["localhost".to_string(), "*.lan".to_string()],
        TargetOs::Linux,
    )
    .unwrap();
    assert_eq!(update.assignments.len(), 8);
    assert_eq!(update.assignments[7], "NO_PROXY=localhost,*.lan");
    assert!(update.content.starts_with("# Managed by KokoroBox. Changes will be overwritten.\nhttp_proxy=\"http://127.0.0.1:7890\"\n"));
    assert!(update.content.ends_with("NO_PROXY=\"localhost,*.lan\"\n"));
    assert_eq!(
        set_terminal_proxy_environment("", 7890, &vec![], TargetOs::Linux).unwrap_err().message,
        "Terminal proxy host and port are required"
    );
    assert_eq!(
        set_terminal_proxy_environment("h", 1, &vec![], TargetOs::Macos).unwrap_err().message,
        "Terminal proxy environment is only available on Linux"
    );
}

#[test]
fn terminal_proxy_clears_only_its_own_file() {
    let managed = Some("# Managed by KokoroBox. Changes will be overwritten.\n".to_string());
    let cleared = clear_terminal_proxy_environment(&managed, TargetOs::Linux).unwrap().unwrap();
    assert_eq!(cleared.len(), 8);
    assert_eq!(cleared[0], "http_proxy");
    let foreign = Some("export http_proxy=x\n".to_string());
    assert_eq!(clear_terminal_proxy_environment(&foreign, TargetOs::Linux), Ok(None));
    assert_eq!(clear_terminal_proxy_environment(&None, TargetOs::Linux), Ok(None));
    assert!(clear_terminal_proxy_environment(&managed, TargetOs::Windows).is_err());
}

#[test]
fn terminal_proxy_replaces_only_its_own_file() {
    assert!(may_replace(&None).is_ok());
    let update = set_terminal_proxy_environment("127.0.0.1", 7890, &vec![], TargetOs::Linux).unwrap();
    assert!(may_replace(&Some(update.content)).is_ok());
    assert_eq!(
        may_replace(&Some("http_proxy=x\n".to_string())).unwrap_err().message,
        "Terminal proxy path is not owned by KokoroBox"
    );
}
