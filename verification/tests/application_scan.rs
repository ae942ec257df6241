use kokorobox_native::application::{
    display_name, finish_scan, macos_signing_identifier, next_directory, normalize_windows_path,
    scan_directory, scan_windows_applications, ApplicationInfo, EntryKind, ScanEntry, ScanState,
};
use kokorobox_native::TargetOs;

fn entry(name: &str, directory: &str, kind: Option<EntryKind>) -> ScanEntry {
    ScanEntry {
        name: name.to_string(),
        path: format!("{directory}\\{name}"),
        kind,
    }
}

fn start(maximum: u32, excluded: &[&str]) -> ScanState {
    scan_windows_applications(
        "C:\\Apps",
        &Some("C:\\Apps".to_string()),
        &Ok(true),
        maximum,
        &excluded.iter().map(|name| name.to_string()).collect(),
        TargetOs::Windows,
    )
    .unwrap()
}

#[test]
fn scan_start_checks_the_root() {
    let state = start(0, &["Uninstall.EXE"]);
    assert_eq!(state.pending, vec!["C:\\Apps".to_string()]);
    assert_eq!(state.maximum, 1);
    assert_eq!(state.excluded, vec!["uninstall.exe".to_string()]);
    assert_eq!(start(10_000, &[]).maximum, 4096);
    let missing = scan_windows_applications("C:\\Nope", &None, &Ok(true), 5, &vec![], TargetOs::Windows);
    assert_eq!(missing.unwrap_err().message, "APPLICATION_NOT_FOUND: unable to resolve C:\\Nope");
    let file = scan_windows_applications(
        "C:\\a.exe",
        &Some("C:\\a.exe".to_string()),
        &Ok(false),
        5,
        &vec![],
        TargetOs::Windows,
    );
    assert_eq!(
        file.unwrap_err().message,
        "INVALID_DIRECTORY: application scan requires an existing directory"
    );
    let unix = scan_windows_applications("/apps", &Some("/apps".to_string()), &Ok(true), 5, &vec![], TargetOs::Linux);
    assert_eq!(
        unix.unwrap_err().message,
        "UNSUPPORTED_PLATFORM: Windows application scanning is only available on Windows"
    );
}

#[test]
fn scan_walks_directories_in_name_order_and_skips_excluded_executables() {
    let mut state = start(10, &["uninstall.exe"]);
    let root = next_directory(&mut state).unwrap();
    assert_eq!(root, "C:\\Apps");
    let listing = vec![
        entry("zeta.exe", &root, Some(EntryKind::File)),
        entry("Beta", &root, Some(EntryKind::Directory)),
        entry("Alpha", &root, Some(EntryKind::Directory)),
        entry("readme.txt", &root, Some(EntryKind::File)),
        entry("Uninstall.exe", &root, Some(EntryKind::File)),
        entry("link.exe", &root, Some(EntryKind::Symlink)),
        entry("broken.exe", &root, None),
        entry("Tool.EXE", &root, Some(EntryKind::File)),
    ];
    let found = scan_directory(&mut state, Some(listing)).unwrap();
    assert_eq!(found, vec!["C:\\Apps\\Tool.EXE".to_string(), "C:\\Apps\\zeta.exe".to_string()]);
    assert_eq!(state.found, 2);
    assert_eq!(next_directory(&mut state), Some("C:\\Apps\\Alpha".to_string()));
    assert_eq!(scan_directory(&mut state, None), Ok(vec![]));
    assert_eq!(state.unreadable, 1);
    assert_eq!(next_directory(&mut state), Some("C:\\Apps\\Beta".to_string()));
    assert_eq!(scan_directory(&mut state, Some(vec![])), Ok(vec![]));
    assert_eq!(next_directory(&mut state), None);
    let result = finish_scan(state, vec![]);
    assert!(!result.truncated);
    assert_eq!(result.unreadable_directory_count, 1);
}

#[test]
fn scan_stops_at_the_limit() {
    let mut state = start(1, &[]);
    let root = next_directory(&mut state).unwrap();
    let listing = vec![
        entry("a.exe", &root, Some(EntryKind::File)),
        entry("b.exe", &root, Some(EntryKind::File)),
        entry("c", &root, Some(EntryKind::Directory)),
    ];
    let found = scan_directory(&mut state, Some(listing)).unwrap();
    assert_eq!(found, vec!["C:\\Apps\\a.exe".to_string()]);
    assert!(state.truncated);
    assert!(state.pending.is_empty());
    let application = ApplicationInfo {
        executable_path: found[0].clone(),
        executable_name: "a".to_string(),
        identifier: "c:\\apps\\a.exe".to_string(),
        identifier_kind: "windows-path".to_string(),
        icon_data_url: None,
    };
    let result = finish_scan(state, vec![application]);
    assert!(result.truncated);
    assert_eq!(result.applications.len(), 1);
}

#[test]
fn unreadable_root_fails_the_scan() {
    let mut state = start(5, &[]);
    next_directory(&mut state).unwrap();
    assert_eq!(
        scan_directory(&mut state, None).unwrap_err().message,
        "APPLICATION_SCAN_FAILED: unable to read selected directory"
    );
}

#[test]
fn macos_identifier_comes_from_codesign_output() {
    let output = b"Executable=/Applications/K.app/Contents/MacOS/K\r\nIdentifier= com.example.k \nFormat=app bundle\n".to_vec();
    assert_eq!(macos_signing_identifier(&output), Ok("com.example.k".to_string()));
    let empty = b"Identifier=   \nIdentifier=second\n".to_vec();
    assert_eq!(
        macos_signing_identifier(&empty).unwrap_err().message,
        "APPLICATION_IDENTIFIER_UNAVAILABLE: selected application has no signing identifier"
    );
    assert!(macos_signing_identifier(&b"code object is not signed".to_vec()).is_err());
}

#[test]
fn display_names_and_windows_identifiers() {
    assert_eq!(display_name("C:\\Apps\\Tool.v2.exe", &None, TargetOs::Windows), "Tool.v2");
    assert_eq!(
        display_name("/Applications/K.app", &Some("KokoroBox".to_string()), TargetOs::Macos),
        "KokoroBox"
    );
    assert_eq!(normalize_windows_path("C:/Program Files/App/APP.EXE"), "C:\\Program Files\\App\\APP.EXE");
    assert_eq!(normalize_windows_path("\\\\?\\C:\\App\\a.exe"), "C:\\App\\a.exe");
    assert_eq!(normalize_windows_path("\\\\?\\UNC\\server\\share\\a.exe"), "\\\\server\\share\\a.exe");
}
