use base64::Engine;
use ed25519_dalek::pkcs8::{EncodePrivateKey, EncodePublicKey};
use sha2::Digest;
use ed25519_dalek::{Signature, SigningKey, Verifier};
use kokorobox_native::icons::{bundle_icon_resource, is_app_bundle};
use kokorobox_native::paths::ResolvedPath;
use kokorobox_native::portable_update::{
    desktop_wait_result, extraction_arguments, extraction_error, parse_options, parse_u32,
    validate_paths, DesktopWait,
};
use kokorobox_native::service_identity::{
    decode_credential, delete_service_identity, encode_credential, generate_signing_key,
    keyring_backend, open_service_identity, public_identity, validate_options, FallbackRead,
    KeyringDelete, KeyringRead, LegacyServiceIdentity, ServiceIdentity, ServiceIdentityOptions,
};
use kokorobox_native::TargetOs;

const STANDARD: base64::engine::GeneralPurpose = base64::engine::general_purpose::STANDARD;

fn verifying_key(seed: &[u8]) -> ed25519_dalek::VerifyingKey {
    SigningKey::from_bytes(seed.try_into().unwrap()).verifying_key()
}

#[test]
fn generated_identity_signatures_verify() {
    let signing_key = generate_signing_key().unwrap();
    let identity = ServiceIdentity::new(signing_key.clone(), "test").unwrap();
    assert_eq!(identity.info().backend, "test");
    let signature =
        Signature::from_slice(&STANDARD.decode(identity.sign(b"request")).unwrap()).unwrap();
    verifying_key(&signing_key).verify(b"request", &signature).unwrap();
}

#[test]
fn credential_round_trip_preserves_identity() {
    let generated = generate_signing_key().unwrap();
    let restored = decode_credential(&encode_credential(&generated).unwrap()).unwrap();
    assert_eq!(verifying_key(&generated), verifying_key(&restored));
}

#[test]
fn credential_versions_and_bodies_are_checked() {
    let seed = vec![7u8; 32];
    let credential = encode_credential(&seed).unwrap();
    assert!(credential.starts_with("ed25519-v1:"));
    assert_eq!(decode_credential(&credential).unwrap(), seed);
    assert_eq!(
        decode_credential("ed25519-v2:AAAA").unwrap_err().message,
        "Unsupported service identity credential version"
    );
    assert_eq!(
        decode_credential("ed25519-v1:not base64!").unwrap_err().message,
        "Invalid service identity credential"
    );
    assert_eq!(
        decode_credential("ed25519-v1:AAAA").unwrap_err().message,
        "Invalid service identity credential"
    );
}

#[test]
fn key_id_is_the_hex_digest_of_the_public_key_document() {
    let seed = vec![1u8; 32];
    let info = public_identity(&seed, "macos-keychain").unwrap();
    let der = STANDARD.decode(&info.public_key).unwrap();
    let digest = sha2::Sha256::digest(&der);
    let expected: String = digest.iter().map(|byte| format!("{byte:02x}")).collect();
    assert_eq!(info.key_id, expected);
    assert_eq!(info.key_id.len(), 64);
    assert_eq!(info.backend, "macos-keychain");
}

fn options(path: Option<&str>) -> ServiceIdentityOptions {
    ServiceIdentityOptions {
        service: " KokoroBox ".to_string(),
        account: "desktop".to_string(),
        linux_fallback_path: path.map(str::to_string),
    }
}

#[test]
fn identity_options_are_validated() {
    let mut empty = options(None);
    empty.service = "  ".to_string();
    assert_eq!(
        validate_options(&empty, TargetOs::Linux).unwrap_err().message,
        "Service identity namespace is empty"
    );
    let mut nul = options(None);
    nul.account = "a\0b".to_string();
    assert_eq!(
        validate_options(&nul, TargetOs::Linux).unwrap_err().message,
        "Service identity namespace contains NUL characters"
    );
    assert_eq!(
        validate_options(&options(Some("relative/identity")), TargetOs::Linux)
            .unwrap_err()
            .message,
        "Service identity fallback path must be absolute"
    );
    assert!(validate_options(&options(Some("/home/user/.identity")), TargetOs::Linux).is_ok());
}

#[test]
fn stored_credentials_are_kept_and_missing_entries_are_filled() {
    let seed = vec![3u8; 32];
    let credential = encode_credential(&seed).unwrap();
    let plan = open_service_identity(
        &options(None),
        TargetOs::Macos,
        None,
        KeyringRead::Found(credential.clone()),
        FallbackRead::Missing,
    )
    .unwrap();
    assert!(plan.keyring_write.is_none());
    assert!(plan.fallback_write.is_none());
    assert!(!plan.remove_fallback);
    let identity = plan.identity.unwrap();
    assert_eq!(identity.info().backend, keyring_backend(TargetOs::Macos));
    assert_eq!(identity.info().key_id, public_identity(&seed, "x").unwrap().key_id);

    let created = open_service_identity(
        &options(None),
        TargetOs::Windows,
        None,
        KeyringRead::NoEntry,
        FallbackRead::Missing,
    )
    .unwrap();
    let written = created.keyring_write.unwrap();
    assert!(written.starts_with("ed25519-v1:"));
    assert_eq!(created.identity.unwrap().info().backend, "windows-credential-manager");
}

#[test]
fn linux_falls_back_to_the_protected_file() {
    let seed = vec![9u8; 32];
    let credential = encode_credential(&seed).unwrap();
    let from_file = open_service_identity(
        &options(Some("/home/user/.config/kokorobox/identity")),
        TargetOs::Linux,
        None,
        KeyringRead::Failed("Secret Service unavailable".to_string()),
        FallbackRead::Found(format!("{credential}\n")),
    )
    .unwrap();
    assert!(from_file.keyring_write.is_none());
    assert!(from_file.fallback_write.is_none());
    assert_eq!(from_file.identity.unwrap().info().backend, "linux-protected-file");

    let generated = open_service_identity(
        &options(Some("/home/user/.config/kokorobox/identity")),
        TargetOs::Linux,
        None,
        KeyringRead::Failed("Secret Service unavailable".to_string()),
        FallbackRead::Missing,
    )
    .unwrap();
    assert!(generated.fallback_write.unwrap().starts_with("ed25519-v1:"));

    let no_path = open_service_identity(
        &options(None),
        TargetOs::Linux,
        None,
        KeyringRead::Failed("Secret Service unavailable".to_string()),
        FallbackRead::Missing,
    );
    assert_eq!(
        no_path.err().unwrap().message,
        "Linux Secret Service is unavailable and no fallback path was supplied"
    );

    let elsewhere = open_service_identity(
        &options(None),
        TargetOs::Macos,
        None,
        KeyringRead::Failed("keychain locked".to_string()),
        FallbackRead::Missing,
    );
    assert_eq!(elsewhere.err().unwrap().message, "keychain locked");

    let migrated = open_service_identity(
        &options(Some("/home/user/.config/kokorobox/identity")),
        TargetOs::Linux,
        None,
        KeyringRead::NoEntry,
        FallbackRead::Found(credential.clone()),
    )
    .unwrap();
    assert_eq!(migrated.keyring_write.unwrap(), credential);
    assert!(migrated.remove_fallback);
}

fn legacy_for(seed: &[u8]) -> LegacyServiceIdentity {
    let key = SigningKey::from_bytes(seed.try_into().unwrap());
    let private_key = key
        .to_pkcs8_pem(ed25519_dalek::pkcs8::spki::der::pem::LineEnding::LF)
        .unwrap()
        .to_string();
    let public_der = key.verifying_key().to_public_key_der().unwrap();
    LegacyServiceIdentity {
        key_id: None,
        public_key: STANDARD.encode(public_der.as_bytes()),
        private_key,
    }
}

#[test]
fn earlier_identities_are_migrated_over_another_stored_key() {
    let stored = vec![4u8; 32];
    let earlier = vec![5u8; 32];
    let plan = open_service_identity(
        &options(None),
        TargetOs::Macos,
        Some(legacy_for(&earlier)),
        KeyringRead::Found(encode_credential(&stored).unwrap()),
        FallbackRead::Missing,
    )
    .unwrap();
    assert_eq!(plan.keyring_write.unwrap(), encode_credential(&earlier).unwrap());
    assert_eq!(
        plan.identity.unwrap().info().key_id,
        public_identity(&earlier, "x").unwrap().key_id
    );

    let mut mismatched = legacy_for(&earlier);
    mismatched.public_key = legacy_for(&stored).public_key;
    let refused = open_service_identity(
        &options(None),
        TargetOs::Macos,
        Some(mismatched),
        KeyringRead::NoEntry,
        FallbackRead::Missing,
    );
    assert_eq!(
        refused.err().unwrap().message,
        "Legacy service identity key pair does not match"
    );

    let mut wrong_id = legacy_for(&earlier);
    wrong_id.key_id = Some("00".to_string());
    let refused = open_service_identity(
        &options(None),
        TargetOs::Macos,
        Some(wrong_id),
        KeyringRead::NoEntry,
        FallbackRead::Missing,
    );
    assert_eq!(
        refused.err().unwrap().message,
        "Legacy service identity key ID does not match"
    );
}

#[test]
fn deleting_removes_the_fallback_file_on_linux() {
    let path = Some("/home/user/.config/kokorobox/identity");
    assert_eq!(delete_service_identity(&options(path), TargetOs::Linux, KeyringDelete::Deleted).unwrap(), true);
    assert_eq!(delete_service_identity(&options(None), TargetOs::Linux, KeyringDelete::NoEntry).unwrap(), false);
    assert_eq!(delete_service_identity(&options(path), TargetOs::Macos, KeyringDelete::Deleted).unwrap(), false);
    assert_eq!(
        delete_service_identity(&options(path), TargetOs::Linux, KeyringDelete::Failed("down".to_string()))
            .unwrap(),
        true
    );
    assert_eq!(
        delete_service_identity(&options(None), TargetOs::Linux, KeyringDelete::Failed("down".to_string()))
            .unwrap_err()
            .message,
        "Linux Secret Service is unavailable and no fallback path was supplied"
    );
    assert_eq!(
        delete_service_identity(&options(None), TargetOs::Windows, KeyringDelete::Failed("down".to_string()))
            .unwrap_err()
            .message,
        "down"
    );
}

#[test]
fn rejects_missing_duplicate_and_invalid_arguments() {
    assert!(parse_options(&Vec::<String>::new()).is_err());
    assert!(parse_options(&vec!["--parent-pid".to_string(), "0".to_string()]).is_err());
    assert!(parse_options(&vec!["--unknown".to_string(), "x".to_string()]).is_err());
    assert!(parse_options(&vec![
        "--parent-pid".to_string(),
        "1".to_string(),
        "--parent-pid".to_string(),
        "2".to_string()
    ])
    .is_err());
}

#[test]
fn accepts_the_bounded_update_contract() {
    let options = parse_options(
        &[
            "--parent-pid",
            "42",
            "--archive",
            "C:\\Data\\update.7z",
            "--extractor",
            "C:\\Data\\7za.exe",
            "--application",
            "C:\\App\\KokoroBox.exe",
        ]
        .map(String::from)
        .to_vec(),
    )
    .unwrap();
    assert_eq!(options.parent_pid, 42);
}

#[test]
fn update_arguments_report_each_problem() {
    let message = |arguments: &[&str]| {
        parse_options(&arguments.iter().map(|value| value.to_string()).collect())
            .err()
            .unwrap()
            .message
    };
    assert_eq!(message(&["--archive"]), "missing value for --archive");
    assert_eq!(message(&["--archive", "a\nb"]), "portable update argument contains a control character");
    assert_eq!(message(&["--unknown", "x"]), "unsupported portable update argument: --unknown");
    assert_eq!(message(&["--archive", "a", "--archive", "b"]), "duplicate portable update argument: --archive");
    assert_eq!(message(&["--archive", "a"]), "missing Desktop process ID");
    assert_eq!(message(&["--parent-pid", "x"]), "invalid Desktop process ID");
    assert_eq!(message(&["--parent-pid", "4294967296"]), "invalid Desktop process ID");
    assert_eq!(message(&["--parent-pid", "7"]), "missing archive");
    assert_eq!(parse_u32("+17"), Some(17));
    assert_eq!(parse_u32("4294967295"), Some(u32::MAX));
    assert_eq!(parse_u32("-1"), None);
    assert_eq!(parse_u32("+"), None);
}

fn file(path: &str) -> Option<ResolvedPath> {
    Some(ResolvedPath { canonical: path.to_string(), is_file: true, is_dir: false, mode: 0o644 })
}

#[test]
fn update_files_must_match_the_bundle_layout() {
    let options = parse_options(
        &[
            "--parent-pid",
            "42",
            "--archive",
            "C:\\Data\\update.7z",
            "--extractor",
            "C:\\Data\\7za.exe",
            "--application",
            "C:\\App\\KokoroBox.exe",
        ]
        .map(String::from)
        .to_vec(),
    )
    .unwrap();
    let archive = file("\\\\?\\C:\\Data\\update.7Z");
    let extractor = file("\\\\?\\C:\\Data\\7ZA.exe");
    let application = file("\\\\?\\C:\\App\\KokoroBox.exe");
    assert!(validate_paths(&options, &archive, &extractor, &application, TargetOs::Windows).is_ok());
    let elsewhere = file("\\\\?\\C:\\Tools\\7za.exe");
    assert_eq!(
        validate_paths(&options, &archive, &elsewhere, &application, TargetOs::Windows)
            .unwrap_err()
            .message,
        "archive and extractor must share a directory"
    );
    let zip = file("\\\\?\\C:\\Data\\update.zip");
    assert_eq!(
        validate_paths(&options, &zip, &extractor, &application, TargetOs::Windows)
            .unwrap_err()
            .message,
        "invalid portable update paths"
    );
    assert_eq!(
        validate_paths(&options, &None, &extractor, &application, TargetOs::Windows)
            .unwrap_err()
            .message,
        "locate archive"
    );
    assert_eq!(
        extraction_arguments(&Some("C:\\App".to_string()), "C:\\Data\\update.7z").unwrap(),
        vec!["x", "-oC:\\App", "-y", "C:\\Data\\update.7z"]
    );
    assert_eq!(
        extraction_arguments(&None, "C:\\Data\\update.7z").unwrap_err().message,
        "invalid application path"
    );
    assert_eq!(
        extraction_error(b"  disk full \n").message,
        "extract portable update failed: disk full"
    );
    assert!(desktop_wait_result(TargetOs::Windows, DesktopWait::Gone).is_ok());
    assert_eq!(
        desktop_wait_result(TargetOs::Windows, DesktopWait::TimedOut).unwrap_err().message,
        "Desktop did not exit before portable update"
    );
    assert_eq!(
        desktop_wait_result(TargetOs::Linux, DesktopWait::Exited).unwrap_err().message,
        "portable updater is only available on Windows"
    );
}

#[test]
fn bundle_icons_name_a_resource_file() {
    assert!(is_app_bundle("/Applications/KokoroBox.app", true));
    assert!(is_app_bundle("/Applications/Other.APP", true));
    assert!(!is_app_bundle("/Applications/KokoroBox.app", false));
    assert!(!is_app_bundle("/Applications/KokoroBox", true));
    assert_eq!(bundle_icon_resource(b"AppIcon\n").unwrap(), "AppIcon.icns");
    assert_eq!(bundle_icon_resource(b"AppIcon.icns").unwrap(), "AppIcon.icns");
    assert!(bundle_icon_resource(b"").is_none());
    assert!(bundle_icon_resource(b"..").is_none());
    assert!(bundle_icon_resource(b"../secret").is_none());
    assert!(bundle_icon_resource(&[0xff, 0xfe]).is_none());
}
