use kokorobox_native::macos_app_routing::bridge_outcome;
use kokorobox_native::macos_service::{
    plan_service_request, register_failure_is_pending, MacOSManagedServiceStatus, ServicePlan,
    ServiceRequest,
};
use kokorobox_native::platform::{
    autostart_path, delete_windows_task_arguments, desktop_exec_argument,
    elevated_task_command_error, get_launch_at_login, launch_at_login_status, login_item_change,
    query_windows_task_arguments, set_launch_at_login, task_command_error, temporary_path,
    windows_launch_steps, windows_run_value_bytes, LaunchAtLoginBackend, LaunchAtLoginChange, LaunchAtLoginOptions,
    LoginItemChange, WindowsLaunchStep,
};
use kokorobox_native::privileged_operations::service_exit_error;
use kokorobox_native::privileges::{elevation_exit_error, elevation_start_error};
use kokorobox_native::traffic_presenter::{
    presenter_placement, PresenterLayout, PresenterPlacement, ScreenRect,
};
use kokorobox_native::windows::elevation::{
    launch_elevated, launch_unelevated, run_elevated, shell_execute_error, ShowWindow,
    CANCELLED_HRESULT,
};
use kokorobox_native::TargetOs;
use kokorobox_native::macos_service::MacOSManagedServiceStatus as S;

fn wide(text: &str) -> Vec<u16> {
    text.encode_utf16().chain(std::iter::once(0)).collect()
}

fn linux_options() -> LaunchAtLoginOptions {
    LaunchAtLoginOptions {
        identifier: "dev.kokorobox.desktop".to_string(),
        display_name: "KokoroBox".to_string(),
        executable_path: "/opt/KokoroBox/kokorobox".to_string(),
        arguments: vec!["--hidden".to_string()],
    }
}

#[test]
fn autostart_entry_follows_xdg_config_home() {
    assert_eq!(
        autostart_path(&Some("/home/u/.cfg".to_string()), &Some("/home/u".to_string()), "app"),
        Ok("/home/u/.cfg/autostart/app.desktop".to_string())
    );
    assert_eq!(
        autostart_path(&None, &Some("/home/u".to_string()), "app"),
        Ok("/home/u/.config/autostart/app.desktop".to_string())
    );
    let error = autostart_path(&None, &None, "app").unwrap_err();
    assert_eq!(error.message, "Unable to determine XDG config directory");
}

#[test]
fn temporary_autostart_file_names_the_process() {
    assert_eq!(
        temporary_path("/home/u/.config/autostart/app.desktop", 4242),
        "/home/u/.config/autostart/app.desktop.4242.tmp"
    );
}

#[test]
fn desktop_arguments_are_quoted_only_when_needed() {
    assert_eq!(desktop_exec_argument("--hidden"), "--hidden");
    assert_eq!(desktop_exec_argument("two words"), "\"two words\"");
    assert_eq!(desktop_exec_argument("a$b`c\"d\\e"), "\"a\\$b\\`c\\\"d\\\\e\"");
}

#[test]
fn linux_launch_at_login_writes_then_removes_the_entry() {
    let options = linux_options();
    let config = Some("/home/u/.config".to_string());
    match get_launch_at_login(&options, TargetOs::Linux, &config, &None) {
        Ok(LaunchAtLoginBackend::LinuxAutostart { path }) => {
            assert_eq!(path, "/home/u/.config/autostart/dev.kokorobox.desktop.desktop")
        }
        other => panic!("unexpected backend {other:?}"),
    }
    match set_launch_at_login(&options, true, TargetOs::Linux, &config, &None, 7) {
        Ok(LaunchAtLoginChange::WriteAutostart { path, temporary, content }) => {
            assert_eq!(path, "/home/u/.config/autostart/dev.kokorobox.desktop.desktop");
            assert_eq!(temporary, format!("{path}.7.tmp"));
            assert_eq!(
                content,
                "[Desktop Entry]\nVersion=1.0\nType=Application\nName=KokoroBox\nExec=/opt/KokoroBox/kokorobox --hidden\nTerminal=false\nX-GNOME-Autostart-enabled=true\n"
            );
        }
        other => panic!("unexpected change {other:?}"),
    }
    match set_launch_at_login(&options, false, TargetOs::Linux, &config, &None, 7) {
        Ok(LaunchAtLoginChange::RemoveAutostart { path }) => {
            assert_eq!(path, "/home/u/.config/autostart/dev.kokorobox.desktop.desktop")
        }
        other => panic!("unexpected change {other:?}"),
    }
}

#[test]
fn launch_at_login_backends_by_platform() {
    let mut mac = linux_options();
    mac.executable_path = "/Applications/KokoroBox.app/Contents/MacOS/KokoroBox".to_string();
    mac.arguments.clear();
    assert_eq!(
        get_launch_at_login(&mac, TargetOs::Macos, &None, &None),
        Ok(LaunchAtLoginBackend::MacosMainApp)
    );
    let mut windows = linux_options();
    windows.executable_path = "C:\\Program Files\\KokoroBox\\KokoroBox.exe".to_string();
    assert_eq!(
        get_launch_at_login(&windows, TargetOs::Windows, &None, &None),
        Ok(LaunchAtLoginBackend::WindowsRun)
    );
    assert!(matches!(
        set_launch_at_login(&windows, true, TargetOs::Windows, &None, &None, 1),
        Ok(LaunchAtLoginChange::WindowsRun { enabled: true })
    ));
    assert!(matches!(
        set_launch_at_login(&mac, false, TargetOs::Macos, &None, &None, 1),
        Ok(LaunchAtLoginChange::MacosLoginItem { enabled: false })
    ));
    let other = get_launch_at_login(&linux_options(), TargetOs::Other, &None, &None).unwrap_err();
    assert_eq!(other.message, "Launch-at-login is unsupported on this platform");
}

#[test]
fn macos_login_items_need_a_bundle_without_arguments() {
    let with_arguments = LaunchAtLoginOptions {
        executable_path: "/Applications/KokoroBox.app/Contents/MacOS/KokoroBox".to_string(),
        ..linux_options()
    };
    let error = get_launch_at_login(&with_arguments, TargetOs::Macos, &None, &None).unwrap_err();
    assert_eq!(
        error.message,
        "macOS main-app launch at login does not support command-line arguments"
    );
    let bare = LaunchAtLoginOptions { arguments: vec![], ..linux_options() };
    let error = get_launch_at_login(&bare, TargetOs::Macos, &None, &None).unwrap_err();
    assert_eq!(error.message, "macOS login items require an application bundle path");
}

#[test]
fn launch_at_login_option_errors() {
    let blank_name = LaunchAtLoginOptions { display_name: "  ".to_string(), ..linux_options() };
    assert_eq!(
        get_launch_at_login(&blank_name, TargetOs::Linux, &None, &None).unwrap_err().message,
        "Launch-at-login display name is empty"
    );
    let relative = LaunchAtLoginOptions { executable_path: "bin/app".to_string(), ..linux_options() };
    assert_eq!(
        get_launch_at_login(&relative, TargetOs::Linux, &None, &None).unwrap_err().message,
        "Launch-at-login executable path must be absolute"
    );
    let nul = LaunchAtLoginOptions { arguments: vec!["a\0b".to_string()], ..linux_options() };
    assert_eq!(
        get_launch_at_login(&nul, TargetOs::Linux, &None, &None).unwrap_err().message,
        "Launch-at-login arguments must not contain NUL characters"
    );
}

#[test]
fn launch_at_login_status_per_backend() {
    let linux = LaunchAtLoginBackend::LinuxAutostart { path: "/x".to_string() };
    let status = launch_at_login_status(&linux, true, MacOSManagedServiceStatus::Unknown);
    assert!(status.enabled && !status.requires_approval);
    assert_eq!(status.backend, "linux-xdg-autostart");
    let status = launch_at_login_status(
        &LaunchAtLoginBackend::MacosMainApp,
        true,
        MacOSManagedServiceStatus::RequiresApproval,
    );
    assert!(!status.enabled && status.requires_approval);
    assert_eq!(status.backend, "macos-sm-app-service");
    let status = launch_at_login_status(
        &LaunchAtLoginBackend::WindowsRun,
        false,
        MacOSManagedServiceStatus::Enabled,
    );
    assert!(!status.enabled && !status.requires_approval);
    assert_eq!(status.backend, "windows-current-user-run");
}

#[test]
fn login_item_changes_only_when_needed() {
    assert_eq!(login_item_change(MacOSManagedServiceStatus::NotFound, true), LoginItemChange::Register);
    assert_eq!(login_item_change(MacOSManagedServiceStatus::Enabled, true), LoginItemChange::Keep);
    assert_eq!(login_item_change(MacOSManagedServiceStatus::Enabled, false), LoginItemChange::Unregister);
    assert_eq!(
        login_item_change(MacOSManagedServiceStatus::NotRegistered, false),
        LoginItemChange::Keep
    );
}

#[test]
fn windows_launch_steps_migrate_legacy_tasks() {
    assert_eq!(windows_launch_steps(false, false), vec![WindowsLaunchStep::DeleteRunValue]);
    assert_eq!(
        windows_launch_steps(false, true),
        vec![
            WindowsLaunchStep::DeleteRunValue,
            WindowsLaunchStep::DeleteLegacyTask { fallback_operation: "delete".to_string() },
        ]
    );
    assert_eq!(
        windows_launch_steps(true, true),
        vec![
            WindowsLaunchStep::DeleteLegacyTask { fallback_operation: "migrate".to_string() },
            WindowsLaunchStep::SetRunValue,
        ]
    );
    assert_eq!(windows_launch_steps(true, false), vec![WindowsLaunchStep::SetRunValue]);
}

#[test]
fn scheduled_task_commands_and_errors() {
    assert_eq!(query_windows_task_arguments("KokoroBox"), vec!["/query", "/tn", "KokoroBox"]);
    assert_eq!(
        delete_windows_task_arguments("KokoroBox"),
        vec!["/delete", "/tn", "KokoroBox", "/f"]
    );
    assert_eq!(
        task_command_error("delete", Some(1)).message,
        "Unable to delete launch-at-login task (exit code: 1)"
    );
    assert_eq!(
        task_command_error("delete", None).message,
        "Unable to delete launch-at-login task (exit code: unknown)"
    );
    assert_eq!(
        elevated_task_command_error("migrate", 5).message,
        "Unable to migrate legacy launch-at-login task (exit code: 5)"
    );
}

#[test]
fn elevated_requests_use_runas() {
    let args = vec!["/delete".to_string(), "two words".to_string()];
    let request = run_elevated("schtasks.exe", &args);
    assert_eq!(request.verb, wide("runas"));
    assert_eq!(request.file, wide("schtasks.exe"));
    assert_eq!(request.parameters, wide("/delete \"two words\""));
    assert_eq!(request.show, ShowWindow::Hidden);
    assert!(request.wait_for_exit);
    let launch = launch_elevated("C:\\App\\app.exe", &vec![]);
    assert_eq!(launch.show, ShowWindow::Normal);
    assert!(!launch.wait_for_exit);
    assert_eq!(launch.parameters, wide(""));
}

#[test]
fn unelevated_launch_quotes_the_command_line() {
    let launch = launch_unelevated("C:\\Program Files\\App\\app.exe", &vec!["--tray".to_string()]);
    assert_eq!(launch.application, wide("C:\\Program Files\\App\\app.exe"));
    assert_eq!(launch.command_line, wide("\"C:\\Program Files\\App\\app.exe\" --tray"));
}

#[test]
fn shell_execute_errors() {
    assert_eq!(shell_execute_error(CANCELLED_HRESULT, "x").message, "User canceled");
    assert_eq!(
        shell_execute_error(-5, "Access is denied.").message,
        "ShellExecuteExW failed: Access is denied."
    );
}

#[test]
fn privileged_command_errors_carry_exit_codes() {
    assert_eq!(
        elevation_start_error("pkexec").message,
        "CORE_PRIVILEGE_ELEVATION_FAILED: unable to run pkexec"
    );
    assert_eq!(
        elevation_exit_error("pkexec", -1).message,
        "CORE_PRIVILEGE_ELEVATION_FAILED: pkexec exited with -1"
    );
    assert_eq!(
        service_exit_error(126).message,
        "PRIVILEGED_SERVICE_FAILED: service command exited with 126"
    );
}

#[test]
fn managed_service_plans_follow_the_current_status() {
    assert_eq!(plan_service_request(ServiceRequest::Register, S::Enabled), ServicePlan::Keep);
    assert_eq!(plan_service_request(ServiceRequest::Register, S::NotFound), ServicePlan::Register);
    assert_eq!(plan_service_request(ServiceRequest::Unregister, S::NotRegistered), ServicePlan::Keep);
    assert_eq!(plan_service_request(ServiceRequest::Unregister, S::Unknown), ServicePlan::Unregister);
    assert_eq!(plan_service_request(ServiceRequest::Reload, S::RequiresApproval), ServicePlan::Keep);
    assert_eq!(
        plan_service_request(ServiceRequest::Reload, S::Enabled),
        ServicePlan::UnregisterThenRegister
    );
    assert_eq!(plan_service_request(ServiceRequest::Reload, S::NotRegistered), ServicePlan::Register);
    assert!(register_failure_is_pending(S::RequiresApproval));
    assert!(!register_failure_is_pending(S::NotFound));
}

#[test]
fn routing_bridge_outcomes() {
    assert_eq!(bridge_outcome(true, Some("{}".to_string()), None), Ok("{}".to_string()));
    assert_eq!(
        bridge_outcome(true, None, None).unwrap_err().message,
        "macOS application routing returned no response"
    );
    assert_eq!(
        bridge_outcome(false, Some("{}".to_string()), Some("denied".to_string()))
            .unwrap_err()
            .message,
        "denied"
    );
    assert_eq!(
        bridge_outcome(false, None, None).unwrap_err().message,
        "macOS application routing failed"
    );
}

#[test]
fn presenter_sits_left_of_the_tray_on_a_horizontal_taskbar() {
    let taskbar = ScreenRect { left: 0, top: 1040, right: 1920, bottom: 1080 };
    let tray = ScreenRect { left: 1700, top: 1040, right: 1900, bottom: 1080 };
    assert_eq!(
        presenter_placement(taskbar, Some(tray), PresenterLayout::Horizontal, true),
        PresenterPlacement { x: 1466, y: 0, width: 230, height: 40, topmost: false }
    );
    assert_eq!(
        presenter_placement(taskbar, None, PresenterLayout::Stacked, false),
        PresenterPlacement { x: 1602, y: 1040, width: 138, height: 40, topmost: true }
    );
}

#[test]
fn presenter_sits_above_the_tray_on_a_vertical_taskbar() {
    let taskbar = ScreenRect { left: 1860, top: 0, right: 1920, bottom: 1080 };
    let tray = ScreenRect { left: 1860, top: 900, right: 1920, bottom: 1080 };
    assert_eq!(
        presenter_placement(taskbar, Some(tray), PresenterLayout::Horizontal, false),
        PresenterPlacement { x: 1860, y: 832, width: 60, height: 64, topmost: true }
    );
    assert_eq!(
        presenter_placement(taskbar, None, PresenterLayout::Horizontal, true),
        PresenterPlacement { x: 0, y: 896, width: 60, height: 64, topmost: false }
    );
}

#[test]
fn run_value_is_nul_terminated_utf16_little_endian() {
    let options = LaunchAtLoginOptions {
        identifier: "KokoroBox".to_string(),
        display_name: "KokoroBox".to_string(),
        executable_path: "C:\\K B\\k.exe".to_string(),
        arguments: vec!["-\u{e9}".to_string()],
    };
    let bytes = windows_run_value_bytes(&options);
    let expected: Vec<u8> = "\"C:\\K B\\k.exe\" -\u{e9}"
        .encode_utf16()
        .chain(std::iter::once(0))
        .flat_map(u16::to_le_bytes)
        .collect();
    assert_eq!(bytes, expected);
    assert_eq!(&bytes[bytes.len() - 2..], &[0, 0]);
}

#[test]
fn linux_setting_is_read_back_from_the_same_entry() {
    let options = linux_options();
    let home = Some("/home/u".to_string());
    let written = match set_launch_at_login(&options, true, TargetOs::Linux, &None, &home, 3) {
        Ok(LaunchAtLoginChange::WriteAutostart { path, .. }) => path,
        other => panic!("unexpected change {other:?}"),
    };
    let backend = get_launch_at_login(&options, TargetOs::Linux, &None, &home).unwrap();
    assert_eq!(backend, LaunchAtLoginBackend::LinuxAutostart { path: written.clone() });
    let status = launch_at_login_status(&backend, true, MacOSManagedServiceStatus::Unknown);
    assert!(status.enabled && !status.requires_approval);
    match set_launch_at_login(&options, true, TargetOs::Linux, &None, &home, 3) {
        Ok(LaunchAtLoginChange::WriteAutostart { path, .. }) => assert_eq!(path, written),
        other => panic!("unexpected change {other:?}"),
    }
    match set_launch_at_login(&options, false, TargetOs::Linux, &None, &home, 3) {
        Ok(LaunchAtLoginChange::RemoveAutostart { path }) => assert_eq!(path, written),
        other => panic!("unexpected change {other:?}"),
    }
}
