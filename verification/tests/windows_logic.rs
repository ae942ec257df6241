use kokorobox_native::platform::{
    desktop_entry, mac_dns_servers, quote_windows_command_argument, validate_options, windows_run_value,
    LaunchAtLoginOptions,
};
use kokorobox_native::windows::elevation::{command_line, quote_windows_arg, to_wide_null};
use kokorobox_native::windows::firewall::validate_executable_path;
use kokorobox_native::windows::uwp_loopback::{
    classify_package, is_indirect_resource, package_type, PackageSignatureKind,
};
use kokorobox_native::{TargetOs, UwpLoopbackAppCategory, UwpLoopbackPackageType};

#[test]
fn launch_at_login_registry_value_quotes_every_argument() {
    let value = windows_run_value(&LaunchAtLoginOptions {
        identifier: "KokoroBox".to_string(),
        display_name: "KokoroBox".to_string(),
        executable_path: r"C:\Program Files\KokoroBox\KokoroBox.exe".to_string(),
        arguments: vec!["--flag".to_string(), "value with spaces".to_string()],
    });

    assert_eq!(
        value,
        r#""C:\Program Files\KokoroBox\KokoroBox.exe" --flag "value with spaces""#
    );
}

#[test]
fn rejects_unsafe_launch_identifier() {
    let options = LaunchAtLoginOptions {
        identifier: "KokoroBox/unsafe".to_string(),
        display_name: "KokoroBox".to_string(),
        executable_path: "/Applications/KokoroBox.app".to_string(),
        arguments: Vec::new(),
    };
    assert!(validate_options(&options, TargetOs::Macos).is_err());
}

#[test]
fn desktop_entry_escapes_spaced_arguments() {
    let options = LaunchAtLoginOptions {
        identifier: "com.amamiyakokoro.kokorobox".to_string(),
        display_name: "KokoroBox".to_string(),
        executable_path: "/opt/KokoroBox/KokoroBox".to_string(),
        arguments: vec!["--profile path".to_string()],
    };
    assert!(desktop_entry(&options).contains("\"--profile path\""));
}

#[test]
fn filters_and_deduplicates_dynamic_store_dns_values() {
    let values = vec![
        "192.168.1.1".to_string(),
        "not-an-address".to_string(),
        "192.168.1.1".to_string(),
        "2001:db8::1".to_string(),
    ];
    let is_address = vec![true, false, true, true];
    assert_eq!(mac_dns_servers(&values, &is_address), ["192.168.1.1", "2001:db8::1"]);
}

#[test]
fn command_line_quotes_windows_paths_and_arguments() {
    let actual = command_line(
        r"C:\Program Files\KokoroBox\KokoroBox.exe",
        &vec!["--example".to_string(), "value with spaces".to_string()],
    );
    let expected = to_wide_null(
        r#""C:\Program Files\KokoroBox\KokoroBox.exe" --example "value with spaces""#,
    );
    assert_eq!(actual, expected);
}

#[test]
fn windows_quoting_doubles_backslashes_before_quotes() {
    assert_eq!(quote_windows_arg("plain"), "plain");
    assert_eq!(quote_windows_arg(""), "\"\"");
    assert_eq!(quote_windows_arg("a \"b\""), r#""a \"b\"""#);
    assert_eq!(quote_windows_arg(r"C:\dir with space\"), r#""C:\dir with space\\""#);
    assert_eq!(quote_windows_command_argument("two words"), "\"two words\"");
}

#[test]
fn rejects_unrelated_firewall_executables() {
    assert!(validate_executable_path(r"C:\KokoroBox\mihomo.exe", &vec!["mihomo.exe"]).is_ok());
    assert!(validate_executable_path(r"C:\KokoroBox\other.exe", &vec!["mihomo.exe"]).is_err());
    assert!(validate_executable_path("mihomo.exe", &vec!["mihomo.exe"]).is_err());
    assert!(validate_executable_path("C:\\mihomo.exe\0junk", &vec!["mihomo.exe"]).is_err());
}

#[test]
fn framework_and_resource_packages_are_system_components() {
    assert_eq!(
        classify_package(None, true, false, "", "", "", &None),
        UwpLoopbackAppCategory::System
    );
    assert_eq!(
        classify_package(None, false, true, "", "", "", &None),
        UwpLoopbackAppCategory::System
    );
}

#[test]
fn microsoft_publisher_is_not_confused_with_system_signature() {
    assert_eq!(
        classify_package(
            Some(PackageSignatureKind::Store),
            false,
            false,
            r"C:\Program Files\WindowsApps\Microsoft.GamingApp",
            "CN=Microsoft Corporation, O=Microsoft Corporation, L=Redmond, S=Washington, C=US",
            "Microsoft Corporation",
            &None,
        ),
        UwpLoopbackAppCategory::Microsoft
    );
}

#[test]
fn package_type_uses_the_most_specific_package_flag() {
    assert_eq!(package_type(true, true, true), UwpLoopbackPackageType::Framework);
    assert_eq!(package_type(false, true, true), UwpLoopbackPackageType::Resource);
    assert_eq!(package_type(false, false, true), UwpLoopbackPackageType::Optional);
    assert_eq!(package_type(false, false, false), UwpLoopbackPackageType::Main);
}

#[test]
fn recognizes_indirect_manifest_resources() {
    assert!(is_indirect_resource("@{Microsoft.App_1.0?ms-resource://AppName}"));
    assert!(is_indirect_resource("ms-resource:AppName"));
    assert!(!is_indirect_resource("Microsoft Store"));
}

#[test]
fn system_signature_and_system_paths_are_system_components() {
    assert_eq!(
        classify_package(Some(PackageSignatureKind::System), false, false, r"C:\Apps\X", "CN=X", "X", &None),
        UwpLoopbackAppCategory::System
    );
    assert_eq!(
        classify_package(
            Some(PackageSignatureKind::Developer),
            false,
            false,
            r"C:\Windows\SystemApps\Shell",
            "CN=Someone",
            "Someone",
            &Some(r"C:\Windows".to_string()),
        ),
        UwpLoopbackAppCategory::System
    );
    assert_eq!(
        classify_package(Some(PackageSignatureKind::Developer), false, false, r"D:\Apps\X", "CN=Someone", "Someone", &None),
        UwpLoopbackAppCategory::User
    );
}
