use kokorobox_native::paths::ResolvedPath;
use kokorobox_native::privileged_operations::{
    cleanup_legacy_macos_service, relaunch_current_application_with_privilege,
    stop_macos_managed_service, Relaunch,
    normalized_absolute, repair_managed_file_permissions, run_service_lifecycle, service_arguments,
    shell_quote, ManagedFileFacts, ServiceInvocation, ServiceLifecycleAction, ServiceLifecycleOptions,
};
use kokorobox_native::privileges::{validate_core_paths, CorePathLookup};
use kokorobox_native::TargetOs;

fn init_options() -> ServiceLifecycleOptions {
    ServiceLifecycleOptions {
        executable_path: "/missing/kokorobox-service".to_string(),
        action: ServiceLifecycleAction::Init,
        public_key: Some("A".repeat(44)),
        authorized_sid: None,
        authorized_uid: Some(1000),
    }
}

fn resolved_file(path: &str) -> Option<ResolvedPath> {
    Some(ResolvedPath {
        canonical: path.to_string(),
        is_file: true,
        is_dir: false,
        mode: 0o755,
    })
}

#[test]
fn accepts_only_named_service_actions() {
    for action in ["init", "install", "uninstall", "start", "stop", "restart"] {
        assert!(ServiceLifecycleAction::parse(action).is_ok());
    }
    assert!(ServiceLifecycleAction::parse("exec").is_err());
    assert!(ServiceLifecycleAction::parse("--help").is_err());
}

#[test]
fn validates_service_init_fields() {
    let options = init_options();
    assert!(service_arguments(&options, TargetOs::Linux).is_ok());
    let mut invalid = options.clone();
    invalid.public_key = Some("not a key!".to_string());
    assert!(service_arguments(&invalid, TargetOs::Linux).is_err());
}

#[test]
fn rejects_parent_traversal_in_managed_paths() {
    assert!(normalized_absolute("relative/file").is_err());
    assert!(normalized_absolute("/tmp/root/../outside").is_err());
}

#[test]
fn rejects_empty_core_path_list() {
    assert!(validate_core_paths(&Vec::new(), &Vec::new(), TargetOs::Linux).is_err());
}

#[test]
fn rejects_relative_core_path() {
    let paths = vec!["mihomo".to_string()];
    let lookups = vec![CorePathLookup::Unresolved];
    assert!(validate_core_paths(&paths, &lookups, TargetOs::Linux).is_err());
}

#[test]
fn service_action_names_round_trip() {
    for action in [
        ServiceLifecycleAction::Init,
        ServiceLifecycleAction::Install,
        ServiceLifecycleAction::Uninstall,
        ServiceLifecycleAction::Start,
        ServiceLifecycleAction::Stop,
        ServiceLifecycleAction::Restart,
    ] {
        assert_eq!(ServiceLifecycleAction::parse(action.as_str()).unwrap(), action);
    }
    assert_eq!(
        ServiceLifecycleAction::parse("exec").unwrap_err().message,
        "PRIVILEGED_SERVICE_INVALID_ACTION: unsupported service action"
    );
}

#[test]
fn init_arguments_name_the_key_and_the_principal() {
    let arguments = service_arguments(&init_options(), TargetOs::Linux).unwrap();
    let key = "A".repeat(44);
    assert_eq!(
        arguments,
        vec!["service", "init", "--public-key", key.as_str(), "--authorized-uid", "1000"]
    );
    let mut windows = init_options();
    windows.authorized_uid = None;
    windows.authorized_sid = Some("S-1-5-21-1000".to_string());
    assert_eq!(
        service_arguments(&windows, TargetOs::Windows).unwrap(),
        vec!["service", "init", "--public-key", key.as_str(), "--authorized-sid", "S-1-5-21-1000"]
    );
    assert_eq!(
        service_arguments(&init_options(), TargetOs::Windows).unwrap_err().message,
        "PRIVILEGED_SERVICE_INVALID_PRINCIPAL: Windows SID is required"
    );
    let mut stray = init_options();
    stray.action = ServiceLifecycleAction::Start;
    assert_eq!(
        service_arguments(&stray, TargetOs::Linux).unwrap_err().message,
        "PRIVILEGED_SERVICE_INVALID_ARGUMENT: init fields require the init action"
    );
}

#[test]
fn service_lifecycle_runs_through_the_platform_elevation() {
    let mut options = init_options();
    options.executable_path = "/opt/kokorobox/kokorobox-service".to_string();
    let resolved = resolved_file("/opt/kokorobox/kokorobox-service");
    match run_service_lifecycle(&options, &resolved, TargetOs::Linux).unwrap() {
        ServiceInvocation::Pkexec(argv) => {
            assert_eq!(argv[0], "/opt/kokorobox/kokorobox-service");
            assert_eq!(argv[1], "service");
            assert_eq!(argv[2], "init");
            assert_eq!(argv.len(), 7);
        }
        other => panic!("unexpected invocation {other:?}"),
    }
    match run_service_lifecycle(&options, &resolved, TargetOs::Macos).unwrap() {
        ServiceInvocation::Osascript(script) => {
            assert!(script.starts_with("do shell script \"'/opt/kokorobox/kokorobox-service' 'service' 'init'"));
            assert!(script.ends_with("\" with administrator privileges"));
        }
        other => panic!("unexpected invocation {other:?}"),
    }
    assert_eq!(
        run_service_lifecycle(&options, &None, TargetOs::Linux).unwrap_err().message,
        "PRIVILEGED_SERVICE_INVALID_PATH: unable to resolve service executable"
    );
    let other = resolved_file("/opt/kokorobox/other");
    assert_eq!(
        run_service_lifecycle(&options, &other, TargetOs::Linux).unwrap_err().message,
        "PRIVILEGED_SERVICE_INVALID_PATH: unexpected service executable name"
    );
    assert_eq!(
        run_service_lifecycle(&options, &resolved, TargetOs::Other).unwrap_err().message,
        "UNSUPPORTED_PLATFORM: privileged service commands require Windows, Linux, or macOS"
    );
}

#[test]
fn shell_quote_escapes_single_quotes() {
    assert_eq!(shell_quote("it's"), "'it'\\''s'");
    assert_eq!(shell_quote(""), "''");
}

fn managed_facts() -> ManagedFileFacts {
    ManagedFileFacts {
        root: Some(ResolvedPath {
            canonical: "/home/user/.config/kokorobox".to_string(),
            is_file: false,
            is_dir: true,
            mode: 0o700,
        }),
        parent: Some("/home/user/.config/kokorobox/profiles".to_string()),
        ancestor: Some("/home/user/.config/kokorobox/profiles".to_string()),
        target_exists: false,
        target_canonical: None,
    }
}

#[test]
fn repairs_only_files_inside_the_managed_root() {
    let target = "/home/user/.config/kokorobox/profiles/a.yaml";
    let root = "/home/user/.config/kokorobox";
    match repair_managed_file_permissions(target, root, 1000, 1000, (1000, 1000), &managed_facts(), TargetOs::Linux)
        .unwrap()
    {
        ServiceInvocation::Pkexec(argv) => {
            assert_eq!(argv[0], "/bin/sh");
            assert_eq!(argv[3], "kokorobox-permission-repair");
            assert_eq!(argv[4], "/home/user/.config/kokorobox/profiles");
            assert_eq!(argv[5], "1000");
            assert_eq!(argv[6], "1000");
            assert_eq!(argv[7], target);
        }
        other => panic!("unexpected invocation {other:?}"),
    }
    assert_eq!(
        repair_managed_file_permissions(target, root, 0, 0, (0, 0), &managed_facts(), TargetOs::Linux)
            .unwrap_err()
            .message,
        "PRIVILEGED_FILE_INVALID_OWNER: owner must be the current non-root user"
    );
    assert_eq!(
        repair_managed_file_permissions("/etc/passwd", root, 1000, 1000, (1000, 1000), &managed_facts(), TargetOs::Linux)
            .unwrap_err()
            .message,
        "PRIVILEGED_FILE_INVALID_PATH: target is outside the managed root"
    );
    assert_eq!(
        repair_managed_file_permissions(target, root, 1000, 1000, (1000, 1000), &managed_facts(), TargetOs::Windows)
            .unwrap_err()
            .message,
        "UNSUPPORTED_PLATFORM: managed-file permission repair requires Unix"
    );
}

#[test]
fn macos_service_commands_and_windows_relaunch_are_platform_bound() {
    match stop_macos_managed_service(TargetOs::Macos).unwrap() {
        ServiceInvocation::Osascript(script) => assert_eq!(
            script,
            "do shell script \"/bin/launchctl kill SIGTERM system/KokoroBoxService\" with administrator privileges"
        ),
        other => panic!("unexpected invocation {other:?}"),
    }
    assert_eq!(
        stop_macos_managed_service(TargetOs::Linux).unwrap_err().message,
        "UNSUPPORTED_PLATFORM: stopping the managed macOS service requires macOS"
    );
    assert!(cleanup_legacy_macos_service(TargetOs::Macos).is_ok());
    assert_eq!(
        cleanup_legacy_macos_service(TargetOs::Windows).unwrap_err().message,
        "UNSUPPORTED_PLATFORM: legacy macOS service cleanup requires macOS"
    );
    let arguments = vec!["--restart".to_string()];
    match relaunch_current_application_with_privilege(r"C:\App\KokoroBox.exe", &arguments, true, TargetOs::Windows)
        .unwrap()
    {
        Relaunch::Elevated(request) => assert!(!request.wait_for_exit),
        other => panic!("unexpected relaunch {other:?}"),
    }
    assert!(matches!(
        relaunch_current_application_with_privilege(r"C:\App\KokoroBox.exe", &arguments, false, TargetOs::Windows),
        Ok(Relaunch::Unelevated(_))
    ));
    assert_eq!(
        relaunch_current_application_with_privilege("/usr/bin/kokorobox", &arguments, true, TargetOs::Linux)
            .unwrap_err()
            .message,
        "UNSUPPORTED_PLATFORM: privilege relaunch requires Windows"
    );
}
