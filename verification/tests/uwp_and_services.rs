use kokorobox_native::service_status::{
    windows_service_status, ERROR_SERVICE_DOES_NOT_EXIST, get_windows_service_status, windows_service_status_from_state, WindowsServiceStatus,
};
use kokorobox_native::macos_service_process_status::get_macos_service_process_status;
use kokorobox_native::windows::firewall::{ensure_kokoro_box_core_firewall, FirewallRule};
use kokorobox_native::windows::uwp_loopback::{
    fallback_category, list_uwp_loopback_apps, metadata_for_package, set_uwp_loopback_exemption,
    sid_key, AppContainerRecord, ExemptionEntry, PackageFacts, PackageSignatureKind,
};
use kokorobox_native::{UwpLoopbackAppCategory, UwpLoopbackPackageType};

fn sid(last: u8) -> Option<Vec<u8>> {
    Some(vec![1, 1, 0, 0, 0, 0, 0, 15, 2, 0, 0, last])
}

fn key(last: u8) -> String {
    sid(last).unwrap().iter().map(|b| format!("{b:02x}")).collect()
}

fn container(
    sid: Option<Vec<u8>>,
    name: &str,
    display_name: &str,
    description: &str,
    working_directory: &str,
) -> AppContainerRecord {
    AppContainerRecord {
        sid,
        name: name.to_string(),
        package_full_name: String::new(),
        display_name: display_name.to_string(),
        description: description.to_string(),
        working_directory: working_directory.to_string(),
    }
}

fn notes_package() -> PackageFacts {
    PackageFacts {
        package_full_name: "Contoso.Notes_1.0.0.0_x64__abc".to_string(),
        package_family_name: "Contoso.Notes_abc".to_string(),
        framework: false,
        resource_package: false,
        optional: false,
        publisher: "CN=Contoso".to_string(),
        publisher_display_name: "Contoso".to_string(),
        installed_path: "C:\\Program Files\\WindowsApps\\Contoso.Notes".to_string(),
        display_name: Some("Notes".to_string()),
        description: Some("Take notes".to_string()),
        signature_kind: Some(PackageSignatureKind::Store),
    }
}

#[test]
fn sid_keys_are_lowercase_hex_of_valid_lengths() {
    assert_eq!(sid_key(&sid(0xab)), Some("010100000000000f020000ab".to_string()));
    assert_eq!(sid_key(&sid(0xab)), Some(key(0xab)));
    assert_eq!(sid_key(&Some(vec![1; 7])), None);
    assert_eq!(sid_key(&Some(vec![1; 69])), None);
    assert_eq!(sid_key(&Some(vec![0; 8])), Some("0000000000000000".to_string()));
    assert_eq!(sid_key(&None), None);
}

#[test]
fn fallback_category_uses_system_folders_and_family_prefix() {
    let windows = Some("C:\\Windows".to_string());
    assert_eq!(
        fallback_category("Contoso.App", "C:\\WINDOWS\\SystemApps\\Shell", &windows),
        UwpLoopbackAppCategory::System
    );
    assert_eq!(
        fallback_category("Contoso.App", "C:\\Windows\\SystemResources", &windows),
        UwpLoopbackAppCategory::System
    );
    assert_eq!(
        fallback_category("  microsoft.Photos_8wekyb3d8bbwe", "", &windows),
        UwpLoopbackAppCategory::Microsoft
    );
    assert_eq!(
        fallback_category("Contoso.App", "C:\\Windows\\SystemApps\\Shell", &None),
        UwpLoopbackAppCategory::User
    );
}

#[test]
fn package_metadata_classifies_and_types_packages() {
    let metadata = metadata_for_package(&notes_package(), &Some("C:\\Windows".to_string()));
    assert_eq!(metadata.package_full_name, "Contoso.Notes_1.0.0.0_x64__abc");
    assert_eq!(metadata.display_name, Some("Notes".to_string()));
    assert_eq!(metadata.category, UwpLoopbackAppCategory::User);
    assert_eq!(metadata.package_type, UwpLoopbackPackageType::Main);
    let framework = PackageFacts {
        framework: true,
        display_name: Some("   ".to_string()),
        ..notes_package()
    };
    let metadata = metadata_for_package(&framework, &None);
    assert_eq!(metadata.display_name, None);
    assert_eq!(metadata.category, UwpLoopbackAppCategory::System);
    assert_eq!(metadata.package_type, UwpLoopbackPackageType::Framework);
    let optional = PackageFacts {
        optional: true,
        publisher: "CN=Microsoft Corporation, O=Microsoft".to_string(),
        ..notes_package()
    };
    let metadata = metadata_for_package(&optional, &None);
    assert_eq!(metadata.category, UwpLoopbackAppCategory::Microsoft);
    assert_eq!(metadata.package_type, UwpLoopbackPackageType::Optional);
}

#[test]
fn loopback_listing_merges_containers_packages_and_configuration() {
    let containers = vec![
        container(
            sid(2),
            "Microsoft.Photos_8wekyb3d8bbwe",
            "Photos",
            "Photo viewer",
            "",
        ),
        container(
            sid(1),
            "Contoso.Notes_abc",
            "@{Contoso.Notes?ms-resource://Notes/Name}",
            "",
            "C:\\Program Files\\WindowsApps\\Contoso.Notes",
        ),
        container(sid(1), "Contoso.Notes_abc", "Duplicate", "", ""),
        container(None, "Broken", "Broken", "", ""),
        container(sid(3), "", "Nameless", "", ""),
    ];
    let allowed = vec![sid(2), None];
    let apps = list_uwp_loopback_apps(
        &containers,
        &allowed,
        &vec![notes_package()],
        &Some("C:\\Windows".to_string()),
    );
    assert_eq!(apps.len(), 2);
    let notes = &apps[0];
    assert_eq!(notes.id, key(1));
    assert_eq!(notes.display_name, "Notes");
    assert_eq!(notes.package_family_name, "Contoso.Notes_abc");
    assert_eq!(notes.package_full_name, Some("Contoso.Notes_1.0.0.0_x64__abc".to_string()));
    assert_eq!(notes.description, Some("Take notes".to_string()));
    assert!(!notes.enabled);
    assert_eq!(notes.category, UwpLoopbackAppCategory::User);
    assert_eq!(notes.package_type, Some(UwpLoopbackPackageType::Main));
    let photos = &apps[1];
    assert_eq!(photos.id, key(2));
    assert_eq!(photos.display_name, "Photos");
    assert_eq!(photos.description, Some("Photo viewer".to_string()));
    assert!(photos.enabled);
    assert_eq!(photos.package_full_name, None);
    assert_eq!(photos.category, UwpLoopbackAppCategory::Microsoft);
    assert_eq!(photos.package_type, None);
    assert!(!photos.framework && !photos.resource_package);
}

#[test]
fn loopback_exemption_adds_or_removes_one_sid() {
    let containers = vec![sid(1), sid(2)];
    let config = vec![sid(2), None, sid(2)];
    assert_eq!(
        set_uwp_loopback_exemption(&containers, &config, &key(1), true),
        Ok(Some(vec![
            ExemptionEntry::Existing(0),
            ExemptionEntry::Existing(1),
            ExemptionEntry::Existing(2),
            ExemptionEntry::Container(0),
        ]))
    );
    assert_eq!(
        set_uwp_loopback_exemption(&containers, &config, &key(2), false),
        Ok(Some(vec![ExemptionEntry::Existing(1)]))
    );
    assert_eq!(set_uwp_loopback_exemption(&containers, &config, &key(2), true), Ok(None));
    assert_eq!(set_uwp_loopback_exemption(&containers, &config, &key(1), false), Ok(None));
    assert_eq!(
        set_uwp_loopback_exemption(&containers, &config, &key(9), true).unwrap_err().message,
        "UWP app container is no longer installed"
    );
}

#[test]
fn core_firewall_rules_name_each_executable() {
    let rules = ensure_kokoro_box_core_firewall(
        "C:\\KokoroBox\\core\\MIHOMO.EXE",
        "C:\\KokoroBox\\core\\mihomo-alpha.exe",
        "C:\\KokoroBox\\electron.exe",
    )
    .unwrap();
    assert_eq!(
        rules,
        vec![
            FirewallRule {
                name: "mihomo".to_string(),
                application_path: "C:\\KokoroBox\\core\\MIHOMO.EXE".to_string()
            },
            FirewallRule {
                name: "mihomo-alpha".to_string(),
                application_path: "C:\\KokoroBox\\core\\mihomo-alpha.exe".to_string()
            },
            FirewallRule {
                name: "KokoroBox".to_string(),
                application_path: "C:\\KokoroBox\\electron.exe".to_string()
            },
        ]
    );
    assert_eq!(
        ensure_kokoro_box_core_firewall("core\\mihomo.exe", "C:\\a\\mihomo-alpha.exe", "C:\\k\\KokoroBox.exe")
            .unwrap_err()
            .message,
        "Firewall executable path must be absolute and NUL-free"
    );
    assert_eq!(
        ensure_kokoro_box_core_firewall("C:\\a\\mihomo.exe", "C:\\a\\mihomo.exe", "C:\\k\\KokoroBox.exe")
            .unwrap_err()
            .message,
        "Unexpected firewall executable: mihomo.exe"
    );
}

#[test]
fn windows_service_states_map_to_statuses() {
    assert_eq!(windows_service_status_from_state(true, 4), WindowsServiceStatus::Running);
    assert_eq!(windows_service_status_from_state(true, 2), WindowsServiceStatus::Running);
    assert_eq!(windows_service_status_from_state(true, 7), WindowsServiceStatus::Paused);
    assert_eq!(windows_service_status_from_state(true, 6), WindowsServiceStatus::Paused);
    assert_eq!(windows_service_status_from_state(true, 1), WindowsServiceStatus::Stopped);
    assert_eq!(windows_service_status_from_state(true, 3), WindowsServiceStatus::Unknown);
    assert_eq!(windows_service_status_from_state(false, 4), WindowsServiceStatus::Unknown);
}

#[test]
fn service_status_queries_outside_their_platform() {
    assert_eq!(
        get_windows_service_status().unwrap_err().message,
        "Windows Service status is unavailable on this platform"
    );
    assert_eq!(
        get_macos_service_process_status().unwrap_err().message,
        "macOS Service status is unavailable on this platform"
    );
}

#[test]
fn windows_service_answers_decide_the_status() {
    assert_eq!(
        windows_service_status(true, Err(ERROR_SERVICE_DOES_NOT_EXIST), None),
        Ok(WindowsServiceStatus::NotInstalled)
    );
    assert_eq!(
        windows_service_status(true, Err(5), None).unwrap_err().message,
        "OpenServiceW failed"
    );
    assert_eq!(
        windows_service_status(false, Ok(()), Some((true, 4))).unwrap_err().message,
        "OpenSCManagerW failed"
    );
    assert_eq!(
        windows_service_status(true, Ok(()), None).unwrap_err().message,
        "QueryServiceStatusEx failed"
    );
    assert_eq!(windows_service_status(true, Ok(()), Some((true, 4))), Ok(WindowsServiceStatus::Running));
    assert_eq!(windows_service_status(true, Ok(()), Some((false, 4))), Ok(WindowsServiceStatus::Unknown));
}
