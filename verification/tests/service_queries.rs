use kokorobox_native::linux_service_status::{
    after_unit_file_state, after_unit_state, status_from_active_state, LinuxServiceStatus,
    SystemdReply,
};
use kokorobox_native::macos_app_routing::{
    get_macos_application_routing_status, invoke_unsupported,
    open_macos_application_routing_settings, stop_macos_application_routing,
};
use kokorobox_native::macos_service::{
    get_macos_managed_service_status, open_macos_login_items_settings,
    register_macos_managed_service, reload_macos_managed_service,
    unregister_macos_managed_service, MacOSManagedServiceStatus, ServiceAnswers,
};
use kokorobox_native::macos_service_process_status::{
    launchctl_query_result, MacosServiceProcessStatus,
};
use kokorobox_native::paths::ResolvedPath;
use kokorobox_native::privileged_operations::{
    privileged_shell_error, privileged_shell_start_error, validate_service_executable,
};
use kokorobox_native::traffic_presenter::{
    check_command_version, stream_step, PresenterCommand, PresenterLayout, PresenterState,
    PresenterTheme, ProtocolError, StreamAction, StreamEvent, TrafficSnapshot,
};
use kokorobox_native::TargetOs;

#[test]
fn routing_requests_name_their_command() {
    assert_eq!(
        get_macos_application_routing_status(TargetOs::Macos),
        Ok("{\"version\":1,\"command\":\"status\"}".to_string())
    );
    assert_eq!(
        stop_macos_application_routing(TargetOs::Macos),
        Ok("{\"version\":1,\"command\":\"stop\"}".to_string())
    );
    assert_eq!(
        open_macos_application_routing_settings(TargetOs::Macos),
        Ok("{\"version\":1,\"command\":\"open-settings\"}".to_string())
    );
    assert_eq!(
        get_macos_application_routing_status(TargetOs::Linux).unwrap_err().message,
        "UNSUPPORTED_PLATFORM: macOS application routing requires macOS"
    );
    assert_eq!(
        invoke_unsupported("{}").unwrap_err().message,
        "UNSUPPORTED_PLATFORM: macOS application routing requires macOS"
    );
    assert_eq!(
        invoke_unsupported("").unwrap_err().message,
        "macOS application-routing request size is invalid"
    );
}

fn answers(current: MacOSManagedServiceStatus) -> ServiceAnswers {
    ServiceAnswers {
        available: true,
        current,
        unregister_error: None,
        register_error: None,
        after: MacOSManagedServiceStatus::Enabled,
    }
}

#[test]
fn managed_service_calls_validate_then_refuse_outside_macos() {
    let any = answers(MacOSManagedServiceStatus::Enabled);
    for call in [
        get_macos_managed_service_status,
        register_macos_managed_service,
        unregister_macos_managed_service,
        reload_macos_managed_service,
    ] {
        assert_eq!(
            call("KokoroBoxService.plist", TargetOs::Linux, &any).unwrap_err().message,
            "UNSUPPORTED_PLATFORM: macOS managed-service operations require macOS"
        );
        assert_eq!(
            call("../evil.plist", TargetOs::Macos, &any).unwrap_err().message,
            "macOS managed-service plist name must be a safe .plist basename"
        );
        let old_system = ServiceAnswers { available: false, ..any.clone() };
        assert_eq!(
            call("KokoroBoxService.plist", TargetOs::Macos, &old_system).unwrap_err().message,
            "SMAppService requires macOS 13 or later"
        );
    }
    assert_eq!(
        open_macos_login_items_settings().unwrap_err().message,
        "UNSUPPORTED_PLATFORM: macOS Login Items settings require macOS"
    );
}

#[test]
fn managed_service_requests_on_macos() {
    let name = "KokoroBoxService.plist";
    let pending = answers(MacOSManagedServiceStatus::RequiresApproval);
    assert_eq!(
        register_macos_managed_service(name, TargetOs::Macos, &pending),
        Ok(MacOSManagedServiceStatus::RequiresApproval)
    );
    let failed = ServiceAnswers {
        register_error: Some("Operation not permitted".to_string()),
        after: MacOSManagedServiceStatus::NotRegistered,
        ..answers(MacOSManagedServiceStatus::NotRegistered)
    };
    assert_eq!(
        register_macos_managed_service(name, TargetOs::Macos, &failed).unwrap_err().message,
        "SMAppService register failed: Operation not permitted"
    );
    let awaiting = ServiceAnswers {
        after: MacOSManagedServiceStatus::RequiresApproval,
        ..failed.clone()
    };
    assert_eq!(
        register_macos_managed_service(name, TargetOs::Macos, &awaiting),
        Ok(MacOSManagedServiceStatus::RequiresApproval)
    );
    assert_eq!(
        reload_macos_managed_service(name, TargetOs::Macos, &failed).unwrap_err().message,
        "SMAppService reload register failed: Operation not permitted"
    );
    let stuck = ServiceAnswers {
        unregister_error: Some("busy".to_string()),
        ..answers(MacOSManagedServiceStatus::Enabled)
    };
    assert_eq!(
        reload_macos_managed_service(name, TargetOs::Macos, &stuck).unwrap_err().message,
        "SMAppService reload unregister failed: busy"
    );
    assert_eq!(
        unregister_macos_managed_service(name, TargetOs::Macos, &stuck).unwrap_err().message,
        "SMAppService unregister failed: busy"
    );
    let removed = ServiceAnswers {
        after: MacOSManagedServiceStatus::NotRegistered,
        ..answers(MacOSManagedServiceStatus::Enabled)
    };
    assert_eq!(
        unregister_macos_managed_service(name, TargetOs::Macos, &removed),
        Ok(MacOSManagedServiceStatus::NotRegistered)
    );
    assert_eq!(
        unregister_macos_managed_service(name, TargetOs::Macos, &answers(MacOSManagedServiceStatus::NotFound)),
        Ok(MacOSManagedServiceStatus::NotFound)
    );
    assert_eq!(
        get_macos_managed_service_status(name, TargetOs::Macos, &answers(MacOSManagedServiceStatus::Unknown)),
        Ok(MacOSManagedServiceStatus::Unknown)
    );
}

#[test]
fn launchctl_answers() {
    assert_eq!(
        launchctl_query_result("system/KokoroBoxService = {\n\tstate = running\n}", true),
        Ok(MacosServiceProcessStatus::Running)
    );
    assert_eq!(
        launchctl_query_result("system/KokoroBoxService = {\n\tstate = waiting\n}", true),
        Ok(MacosServiceProcessStatus::Stopped)
    );
    assert_eq!(
        launchctl_query_result("Could not find service \"KokoroBoxService\"", false),
        Ok(MacosServiceProcessStatus::NotInstalled)
    );
    assert_eq!(
        launchctl_query_result("Operation not permitted", false).unwrap_err().message,
        "launchctl could not determine KokoroBox Service state"
    );
}

#[test]
fn systemd_replies_decide_the_linux_status() {
    assert_eq!(status_from_active_state("activating"), LinuxServiceStatus::Running);
    assert_eq!(status_from_active_state("deactivating"), LinuxServiceStatus::Stopped);
    assert_eq!(status_from_active_state("failed"), LinuxServiceStatus::Unknown);
    assert_eq!(
        after_unit_file_state(&SystemdReply::Value("not-found".to_string())),
        Some(Ok(LinuxServiceStatus::NotInstalled))
    );
    assert_eq!(after_unit_file_state(&SystemdReply::Value("enabled".to_string())), None);
    assert_eq!(
        after_unit_file_state(&SystemdReply::MissingUnit),
        Some(Ok(LinuxServiceStatus::NotInstalled))
    );
    assert_eq!(
        after_unit_file_state(&SystemdReply::Failed).unwrap().unwrap_err().message,
        "Read KokoroBox Service unit file"
    );
    assert_eq!(after_unit_state(&SystemdReply::MissingUnit), Ok(LinuxServiceStatus::Stopped));
    assert_eq!(
        after_unit_state(&SystemdReply::Value("active".to_string())),
        Ok(LinuxServiceStatus::Running)
    );
    assert_eq!(
        after_unit_state(&SystemdReply::Failed).unwrap_err().message,
        "Find KokoroBox Service unit"
    );
}

#[test]
fn presenter_stream_steps() {
    let mut state = PresenterState::default();
    assert_eq!(stream_step(&mut state, StreamEvent::Blank), StreamAction::Continue);
    let configure = PresenterCommand::Configure {
        version: 1,
        visible: true,
        layout: PresenterLayout::Horizontal,
        theme: PresenterTheme::Dark,
    };
    let configured = PresenterState {
        visible: true,
        layout: PresenterLayout::Horizontal,
        theme: PresenterTheme::Dark,
        traffic: None,
    };
    assert_eq!(stream_step(&mut state, StreamEvent::Command(configure)), StreamAction::Update(configured));
    let sample = PresenterCommand::Traffic { version: 1, up: 10, down: 20 };
    let with_traffic = PresenterState {
        traffic: Some(TrafficSnapshot { up: 10, down: 20 }),
        ..configured
    };
    assert_eq!(stream_step(&mut state, StreamEvent::Command(sample)), StreamAction::Update(with_traffic));
    assert_eq!(
        stream_step(&mut state, StreamEvent::Command(PresenterCommand::Shutdown { version: 1 })),
        StreamAction::Shutdown
    );
    assert_eq!(state, with_traffic);
    assert_eq!(stream_step(&mut state, StreamEvent::Closed), StreamAction::Shutdown);
    assert_eq!(state, with_traffic);
}

#[test]
fn presenter_commands_must_speak_the_protocol_version() {
    let current = PresenterCommand::Unavailable { version: 1 };
    assert_eq!(check_command_version(current), Ok(current));
    assert_eq!(
        check_command_version(PresenterCommand::Shutdown { version: 2 }),
        Err(ProtocolError::UnsupportedVersion(2))
    );
}

#[test]
fn service_executables_are_resolved_files() {
    let file = Some(ResolvedPath {
        canonical: "/opt/KokoroBox/kokorobox-service".to_string(),
        is_file: true,
        is_dir: false,
        mode: 0o755,
    });
    assert_eq!(
        validate_service_executable("/opt/KokoroBox/kokorobox-service", &file, TargetOs::Linux),
        Ok("/opt/KokoroBox/kokorobox-service".to_string())
    );
    assert!(validate_service_executable("kokorobox-service", &file, TargetOs::Linux).is_err());
    assert!(validate_service_executable("/opt/KokoroBox/kokorobox-service", &None, TargetOs::Linux).is_err());
}

#[test]
fn privileged_shell_errors_quote_osascript() {
    assert_eq!(
        privileged_shell_start_error("PRIVILEGED_SERVICE_FAILED").message,
        "PRIVILEGED_SERVICE_FAILED: unable to run osascript"
    );
    assert_eq!(
        privileged_shell_error("PRIVILEGED_FILE_REPAIR_FAILED", b"  User canceled. (-128)\n").message,
        "PRIVILEGED_FILE_REPAIR_FAILED: User canceled. (-128)"
    );
}
