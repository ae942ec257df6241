use kokorobox_native::application::{ApplicationInfo, ApplicationScanResult};
use kokorobox_native::bindings::{
    get_native_capabilities, network_wait_timeout, scan_limit, JsApplicationInfo,
    JsApplicationScanResult, JsExecutableSearchOptions, JsLaunchAtLoginOptions,
    JsMacosApplicationRoutingConfiguration, JsMacosApplicationRoutingRule,
    JsMacosApplicationRoutingStatus, JsServiceLifecycleOptions, JsUwpLoopbackApp,
};
use kokorobox_native::macos_app_routing::{
    MacosApplicationRoutingAction, MacosApplicationRoutingConfiguration,
    MacosApplicationRoutingIdentifierKind, MacosApplicationRoutingProtocol,
    MacosApplicationRoutingRule, MacosApplicationRoutingState, MacosApplicationRoutingStatus,
};
use kokorobox_native::privileged_operations::ServiceLifecycleAction;
use kokorobox_native::traffic_presenter::{set_pixel, status_icon, ICON_SIZE};
use kokorobox_native::{TargetOs, UwpLoopbackApp, UwpLoopbackAppCategory, UwpLoopbackPackageType};

fn js_rule(kind: &str, protocol: &str, action: &str) -> JsMacosApplicationRoutingRule {
    JsMacosApplicationRoutingRule {
        signing_identifier: "com.example.app".to_string(),
        identifier_kind: kind.to_string(),
        rule_protocol: protocol.to_string(),
        action: action.to_string(),
        enabled: true,
        priority: 3,
    }
}

#[test]
fn javascript_rules_use_the_wire_names() {
    let rule = MacosApplicationRoutingRule::try_from(js_rule("PROCESS_NAME", "UDP", "BLOCK")).unwrap();
    assert_eq!(rule.identifier_kind, MacosApplicationRoutingIdentifierKind::ProcessName);
    assert_eq!(rule.rule_protocol, MacosApplicationRoutingProtocol::Udp);
    assert_eq!(rule.action, MacosApplicationRoutingAction::Block);
    assert_eq!(rule.priority, 3);
    assert_eq!(
        MacosApplicationRoutingRule::try_from(js_rule("BUNDLE", "UDP", "BLOCK")).unwrap_err().message,
        "Invalid macOS application identifier kind"
    );
    assert_eq!(
        MacosApplicationRoutingRule::try_from(js_rule("PROCESS_NAME", "ICMP", "BLOCK")).unwrap_err().message,
        "Invalid macOS application-routing protocol"
    );
    assert_eq!(
        MacosApplicationRoutingRule::try_from(js_rule("PROCESS_NAME", "TCP", "drop")).unwrap_err().message,
        "Invalid macOS application-routing action"
    );
    let configuration = MacosApplicationRoutingConfiguration::try_from(JsMacosApplicationRoutingConfiguration {
        proxy_available: true,
        proxy_udp_dns: false,
        diagnostic_logging: true,
        rules: vec![js_rule("SIGNING_IDENTIFIER", "BOTH", "PROXY"), js_rule("PROCESS_NAME", "TCP", "DIRECT")],
    })
    .unwrap();
    assert_eq!(configuration.rules.len(), 2);
    assert_eq!(configuration.rules[1].action, MacosApplicationRoutingAction::Direct);
    assert!(configuration.diagnostic_logging);
    let refused = MacosApplicationRoutingConfiguration::try_from(JsMacosApplicationRoutingConfiguration {
        proxy_available: true,
        proxy_udp_dns: false,
        diagnostic_logging: false,
        rules: vec![js_rule("SIGNING_IDENTIFIER", "BOTH", "PROXY"), js_rule("X", "TCP", "DIRECT")],
    });
    assert_eq!(refused.unwrap_err().message, "Invalid macOS application identifier kind");
    let status = JsMacosApplicationRoutingStatus::from_status(MacosApplicationRoutingStatus {
        state: MacosApplicationRoutingState::Running,
        needs_user_approval: true,
        message: None,
    });
    assert_eq!(status.state, "running");
    assert!(status.needs_user_approval);
}

#[test]
fn javascript_records_carry_the_library_values() {
    let capabilities = get_native_capabilities(TargetOs::Windows);
    assert!(capabilities.windows_firewall);
    assert!(!capabilities.core_file_privileges);
    let info = ApplicationInfo {
        executable_path: "/usr/bin/app".to_string(),
        executable_name: "app".to_string(),
        identifier: "/usr/bin/app".to_string(),
        identifier_kind: "linux-executable".to_string(),
        icon_data_url: None,
    };
    let js = JsApplicationInfo::from(info.clone());
    assert_eq!(js.identifier_kind, "linux-executable");
    let scan = JsApplicationScanResult::from_scan(ApplicationScanResult {
        applications: vec![info.clone(), info],
        truncated: true,
        unreadable_directory_count: 2,
    });
    assert_eq!(scan.applications.len(), 2);
    assert!(scan.truncated);
    assert_eq!(scan.unreadable_directory_count, 2);
    let search = JsExecutableSearchOptions { names: vec!["mihomo".to_string()], additional_paths: None, match_name_prefixes: None }
        .into_options();
    assert!(search.additional_paths.is_empty());
    assert!(!search.match_name_prefixes);
    let launch = JsLaunchAtLoginOptions {
        identifier: "KokoroBox".to_string(),
        display_name: "KokoroBox".to_string(),
        executable_path: "/opt/KokoroBox/KokoroBox".to_string(),
        arguments: None,
    }
    .into_options();
    assert!(launch.arguments.is_empty());
    let lifecycle = JsServiceLifecycleOptions {
        executable_path: "/opt/kokorobox-service".to_string(),
        action: "restart".to_string(),
        public_key: None,
        authorized_sid: None,
        authorized_uid: None,
    };
    assert_eq!(lifecycle.clone().into_options().unwrap().action, ServiceLifecycleAction::Restart);
    let mut bad = lifecycle;
    bad.action = "exec".to_string();
    assert_eq!(
        bad.into_options().unwrap_err().message,
        "PRIVILEGED_SERVICE_INVALID_ACTION: unsupported service action"
    );
    let app = JsUwpLoopbackApp::from_app(UwpLoopbackApp {
        id: "S-1-15-2-1".to_string(),
        package_family_name: "Microsoft.App_8wekyb3d8bbwe".to_string(),
        package_full_name: None,
        display_name: "App".to_string(),
        description: None,
        enabled: true,
        category: UwpLoopbackAppCategory::Microsoft,
        package_type: Some(UwpLoopbackPackageType::Framework),
        framework: true,
        resource_package: false,
    });
    assert_eq!(app.category, "microsoft");
    assert_eq!(app.package_type.as_deref(), Some("framework"));
    assert_eq!(scan_limit(None), 512);
    assert_eq!(scan_limit(Some(7)), 7);
    assert_eq!(network_wait_timeout(None), 30_000);
    assert_eq!(network_wait_timeout(Some(10)), 500);
    assert_eq!(network_wait_timeout(Some(120_000)), 60_000);
}

#[test]
fn tray_icon_draws_white_arrows_on_blue() {
    let rgba = status_icon();
    let size = ICON_SIZE as usize;
    assert_eq!(rgba.len(), size * size * 4);
    let pixel = |x: usize, y: usize| rgba[(y * size + x) * 4..(y * size + x) * 4 + 4].to_vec();
    assert_eq!(pixel(0, 0), vec![0, 0, 0, 0]);
    assert_eq!(pixel(17, 9), vec![0, 0, 0, 0]);
    assert_eq!(pixel(1, 1), vec![30, 122, 238, 255]);
    assert_eq!(pixel(5, 7), vec![255, 255, 255, 255]);
    assert_eq!(pixel(1, 11), vec![255, 255, 255, 255]);
    assert_eq!(pixel(16, 6), vec![255, 255, 255, 255]);
    assert_eq!(pixel(12, 10), vec![255, 255, 255, 255]);
    assert_eq!(pixel(8, 8), vec![30, 122, 238, 255]);
    let mut image = vec![0u8; 16];
    set_pixel(&mut image, 2, 1, 1, [1, 2, 3, 4]);
    assert_eq!(image[12..16], [1, 2, 3, 4]);
    set_pixel(&mut image, 2, 2, 0, [9, 9, 9, 9]);
    assert_eq!(image[0..12], [0; 12]);
}

#[test]
fn javascript_capabilities_carry_every_operation_flag() {
    let windows = get_native_capabilities(TargetOs::Windows);
    assert!(windows.service_lifecycle && !windows.managed_file_permissions);
    assert!(windows.windows_privilege_relaunch && windows.windows_uwp_loopback);
    assert!(!windows.linux_terminal_proxy);
    let linux = get_native_capabilities(TargetOs::Linux);
    assert!(linux.service_lifecycle && linux.managed_file_permissions && linux.linux_terminal_proxy);
    assert!(!linux.windows_privilege_relaunch && !linux.windows_uwp_loopback);
    let macos = get_native_capabilities(TargetOs::Macos);
    assert!(macos.service_lifecycle && macos.managed_file_permissions);
    assert!(!macos.linux_terminal_proxy && macos.macos_application_routing);
    let other = get_native_capabilities(TargetOs::Other);
    assert!(!other.service_lifecycle && !other.managed_file_permissions);
    assert!(other.executable_discovery && other.service_identity);
}
