use kokorobox_native::application::{inspect_application, ApplicationFacts};
use kokorobox_native::executables::{validate_options as validate_search_options, ExecutableSearchOptions};
use kokorobox_native::linux_service_status::{
    get_linux_service_status, LinuxServiceStatus, SystemdReply,
};
use kokorobox_native::macos_service::{validate_plist_name, MacOSManagedServiceStatus};
use kokorobox_native::macos_service_process_status::{
    parse_launchctl_status, MacosServiceProcessStatus,
};
use kokorobox_native::non_windows::{current_user_sid, is_running_as_admin, setup_firewall_rules};
use kokorobox_native::service_status::WindowsServiceStatus;
use kokorobox_native::{native_capabilities, TargetOs};

#[test]
fn missing_application_has_stable_error_prefix() {
    let facts = ApplicationFacts {
        canonical: None,
        metadata: Err("No such file or directory".to_string()),
        app_name: None,
        icon: None,
        codesign_stderr: None,
    };
    let error = inspect_application("/definitely/not/a/kokorobox/application", TargetOs::Linux, &facts)
        .unwrap_err();
    assert!(error.message.starts_with("APPLICATION_NOT_FOUND:"));
}

#[test]
fn validates_names_and_additional_paths() {
    for name in ["", "../mihomo", "folder/mihomo", "folder\\mihomo"] {
        let options = ExecutableSearchOptions {
            names: vec![name.to_string()],
            ..Default::default()
        };
        assert!(validate_search_options(&options, TargetOs::Linux).is_err(), "accepted {name:?}");
    }
    let options = ExecutableSearchOptions {
        names: vec!["mihomo".to_string()],
        additional_paths: vec!["relative".to_string()],
        ..Default::default()
    };
    assert!(validate_search_options(&options, TargetOs::Linux).is_err());
}

#[test]
fn reports_platform_specific_operation_boundaries() {
    for os in [TargetOs::Windows, TargetOs::Macos, TargetOs::Linux, TargetOs::Other] {
        let capabilities = native_capabilities(os);
        let windows = os == TargetOs::Windows;
        let macos = os == TargetOs::Macos;
        let linux = os == TargetOs::Linux;
        assert_eq!(capabilities.service_lifecycle, windows || macos || linux);
        assert_eq!(capabilities.managed_file_permissions, macos || linux);
        assert_eq!(capabilities.windows_privilege_relaunch, windows);
        assert_eq!(capabilities.windows_uwp_loopback, windows);
        assert_eq!(capabilities.windows_service_status, windows);
        assert_eq!(capabilities.linux_terminal_proxy, linux);
        assert_eq!(capabilities.linux_service_status, linux);
    }
}

#[test]
fn linux_service_status_status_strings_match_desktop_contract() {
    assert_eq!(LinuxServiceStatus::Running.as_str(), "running");
    assert_eq!(LinuxServiceStatus::Stopped.as_str(), "stopped");
    assert_eq!(LinuxServiceStatus::NotInstalled.as_str(), "not-installed");
    assert_eq!(LinuxServiceStatus::Unknown.as_str(), "unknown");
}

#[test]
fn service_status_status_strings_match_desktop_contract() {
    assert_eq!(WindowsServiceStatus::Running.as_str(), "running");
    assert_eq!(WindowsServiceStatus::Stopped.as_str(), "stopped");
    assert_eq!(WindowsServiceStatus::Paused.as_str(), "paused");
    assert_eq!(WindowsServiceStatus::NotInstalled.as_str(), "not-installed");
    assert_eq!(WindowsServiceStatus::Unknown.as_str(), "unknown");
}

#[test]
fn accepts_safe_plist_basename() {
    assert!(validate_plist_name("KokoroBoxService.plist").is_ok());
    assert!(validate_plist_name("com.example.service-1.plist").is_ok());
}

#[test]
fn rejects_paths_and_invalid_plist_names() {
    for name in [
        "",
        ".plist",
        "service",
        "../service.plist",
        "folder/service.plist",
        "folder\\service.plist",
        "service name.plist",
    ] {
        assert!(validate_plist_name(name).is_err(), "accepted {name:?}");
    }
}

#[test]
fn exposes_stable_status_names() {
    assert_eq!(MacOSManagedServiceStatus::NotRegistered.as_str(), "not-registered");
    assert_eq!(MacOSManagedServiceStatus::Enabled.as_str(), "enabled");
    assert_eq!(MacOSManagedServiceStatus::RequiresApproval.as_str(), "requires-approval");
    assert_eq!(MacOSManagedServiceStatus::NotFound.as_str(), "not-found");
    assert_eq!(MacOSManagedServiceStatus::Unknown.as_str(), "unknown");
}

#[test]
fn interprets_launchd_output_like_the_service() {
    assert_eq!(
        parse_launchctl_status("state = running", true),
        Some(MacosServiceProcessStatus::Running)
    );
    assert_eq!(
        parse_launchctl_status("service = {\n\tpid = 42\n}", true),
        Some(MacosServiceProcessStatus::Running)
    );
    assert_eq!(
        parse_launchctl_status("state = exited", true),
        Some(MacosServiceProcessStatus::Stopped)
    );
    assert_eq!(
        parse_launchctl_status("Could not find service", false),
        Some(MacosServiceProcessStatus::NotInstalled)
    );
    assert_eq!(parse_launchctl_status("permission denied", false), None);
}

#[test]
fn windows_only_apis_do_not_report_success() {
    let error = current_user_sid().unwrap_err();
    assert!(error.message.starts_with("UNSUPPORTED_PLATFORM:"));
    assert!(is_running_as_admin().is_err());
    assert!(setup_firewall_rules(Vec::new()).is_err());
}

#[test]
fn linux_service_status_follows_the_unit_file_then_the_unit() {
    let not_found = SystemdReply::Value("not-found".to_string());
    let enabled = SystemdReply::Value("enabled".to_string());
    let active = SystemdReply::Value("active".to_string());
    let deactivating = SystemdReply::Value("deactivating".to_string());
    let failed = SystemdReply::Value("failed".to_string());
    assert_eq!(
        get_linux_service_status(TargetOs::Linux, &not_found, &active).unwrap(),
        LinuxServiceStatus::NotInstalled
    );
    assert_eq!(
        get_linux_service_status(TargetOs::Linux, &SystemdReply::MissingUnit, &active).unwrap(),
        LinuxServiceStatus::NotInstalled
    );
    assert_eq!(
        get_linux_service_status(TargetOs::Linux, &enabled, &active).unwrap(),
        LinuxServiceStatus::Running
    );
    assert_eq!(
        get_linux_service_status(TargetOs::Linux, &enabled, &deactivating).unwrap(),
        LinuxServiceStatus::Stopped
    );
    assert_eq!(
        get_linux_service_status(TargetOs::Linux, &enabled, &failed).unwrap(),
        LinuxServiceStatus::Unknown
    );
    assert_eq!(
        get_linux_service_status(TargetOs::Linux, &enabled, &SystemdReply::MissingUnit).unwrap(),
        LinuxServiceStatus::Stopped
    );
    assert_eq!(
        get_linux_service_status(TargetOs::Linux, &SystemdReply::Failed, &active)
            .unwrap_err()
            .message,
        "Read KokoroBox Service unit file"
    );
    assert_eq!(
        get_linux_service_status(TargetOs::Linux, &enabled, &SystemdReply::Failed)
            .unwrap_err()
            .message,
        "Find KokoroBox Service unit"
    );
    assert_eq!(
        get_linux_service_status(TargetOs::Macos, &enabled, &active).unwrap_err().message,
        "Linux Service status is unavailable on this platform"
    );
}
