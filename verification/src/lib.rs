//! Native services of KokoroBox Desktop: validation, command construction,
//! parsing and state machines behind application inspection, executable
//! discovery, launch at login, privileged service operations, platform
//! service status, terminal proxy configuration, service identity and the
//! traffic presenter.
//!
//! Everything here is platform-neutral and verified; the operating-system
//! calls that feed these functions (file system, processes, D-Bus, the
//! Windows and macOS APIs) live in the application crate.
use vstd::prelude::*;

pub mod application;
pub mod bindings;
pub mod error;
pub mod executables;
pub mod icons;
pub mod linux_service_status;
pub mod macos_app_routing;
pub mod macos_service;
pub mod macos_service_process_status;
pub mod non_windows;
pub mod service_identity;
pub mod service_status;
pub mod terminal_proxy;
pub mod paths;
pub mod platform;
pub mod portable_update;
pub mod privileged_operations;
pub mod privileges;
pub mod text;
pub mod traffic_presenter;
pub mod windows;
pub mod windows_paths;

verus! {

/// The operating system a build targets.
#[derive(Debug, Clone, Copy, PartialEq, Eq, Structural)]
pub enum TargetOs {
    Windows,
    Macos,
    Linux,
    Other,
}

/// Whether `os` is one of the three supported desktop systems.
pub open spec fn is_desktop_os(os: TargetOs) -> bool {
    os == TargetOs::Windows || os == TargetOs::Macos || os == TargetOs::Linux
}

/// Whether `os` is macOS or Linux.
pub open spec fn is_unix_desktop(os: TargetOs) -> bool {
    os == TargetOs::Macos || os == TargetOs::Linux
}

#[derive(Debug, Clone, Copy, PartialEq, Eq, Structural)]
pub enum UwpLoopbackAppCategory {
    User,
    Microsoft,
    System,
}

/// The name Desktop knows a category by.
pub open spec fn category_name(category: UwpLoopbackAppCategory) -> Seq<char> {
    match category {
        UwpLoopbackAppCategory::User => "user"@,
        UwpLoopbackAppCategory::Microsoft => "microsoft"@,
        UwpLoopbackAppCategory::System => "system"@,
    }
}

impl UwpLoopbackAppCategory {
    pub fn as_str(self) -> (name: &'static str)
        ensures
            name@ == category_name(self),
    {
        match self {
            UwpLoopbackAppCategory::User => "user",
            UwpLoopbackAppCategory::Microsoft => "microsoft",
            UwpLoopbackAppCategory::System => "system",
        }
    }
}

#[derive(Debug, Clone, Copy, PartialEq, Eq, Structural)]
pub enum UwpLoopbackPackageType {
    Main,
    Framework,
    Resource,
    Optional,
}

/// The name Desktop knows a package type by.
pub open spec fn package_type_name(kind: UwpLoopbackPackageType) -> Seq<char> {
    match kind {
        UwpLoopbackPackageType::Main => "main"@,
        UwpLoopbackPackageType::Framework => "framework"@,
        UwpLoopbackPackageType::Resource => "resource"@,
        UwpLoopbackPackageType::Optional => "optional"@,
    }
}

impl UwpLoopbackPackageType {
    pub fn as_str(self) -> (name: &'static str)
        ensures
            name@ == package_type_name(self),
    {
        match self {
            UwpLoopbackPackageType::Main => "main",
            UwpLoopbackPackageType::Framework => "framework",
            UwpLoopbackPackageType::Resource => "resource",
            UwpLoopbackPackageType::Optional => "optional",
        }
    }
}

/// A Windows app container and its loopback exemption.
#[derive(Debug, Clone)]
pub struct UwpLoopbackApp {
    pub id: String,
    pub package_family_name: String,
    pub package_full_name: Option<String>,
    pub display_name: String,
    pub description: Option<String>,
    pub enabled: bool,
    pub category: UwpLoopbackAppCategory,
    pub package_type: Option<UwpLoopbackPackageType>,
    pub framework: bool,
    pub resource_package: bool,
}

/// The features compiled into a build.  Each flag names an operation, not an
/// operating system.
#[derive(Debug, Clone, Copy, PartialEq, Eq, Structural)]
pub struct NativeCapabilities {
    pub application_inspection: bool,
    pub executable_discovery: bool,
    pub windows_application_scan: bool,
    pub windows_account: bool,
    pub windows_elevation: bool,
    pub windows_firewall: bool,
    pub launch_at_login: bool,
    pub network_context: bool,
    pub network_monitor: bool,
    pub service_lifecycle: bool,
    pub managed_file_permissions: bool,
    pub macos_service_management: bool,
    pub macos_application_routing: bool,
    pub windows_privilege_relaunch: bool,
    pub windows_uwp_loopback: bool,
    pub windows_service_status: bool,
    pub core_file_privileges: bool,
    pub service_identity: bool,
    pub linux_terminal_proxy: bool,
    pub linux_service_status: bool,
}

/// The capabilities of a build for `os`.
pub open spec fn capabilities_of(os: TargetOs) -> NativeCapabilities {
    let windows = os == TargetOs::Windows;
    let macos = os == TargetOs::Macos;
    let linux = os == TargetOs::Linux;
    NativeCapabilities {
        application_inspection: true,
        executable_discovery: true,
        windows_application_scan: windows,
        windows_account: windows,
        windows_elevation: windows,
        windows_firewall: windows,
        launch_at_login: is_desktop_os(os),
        network_context: is_desktop_os(os),
        network_monitor: is_desktop_os(os),
        service_lifecycle: is_desktop_os(os),
        managed_file_permissions: is_unix_desktop(os),
        macos_service_management: macos,
        macos_application_routing: macos,
        windows_privilege_relaunch: windows,
        windows_uwp_loopback: windows,
        windows_service_status: windows,
        core_file_privileges: is_unix_desktop(os),
        service_identity: true,
        linux_terminal_proxy: linux,
        linux_service_status: linux,
    }
}

/// Reports the features of a build for `os`.
pub fn native_capabilities(os: TargetOs) -> (capabilities: NativeCapabilities)
    ensures
        capabilities == capabilities_of(os),
{
    let windows = os == TargetOs::Windows;
    let macos = os == TargetOs::Macos;
    let linux = os == TargetOs::Linux;
    let desktop = windows || macos || linux;
    let unix = macos || linux;
    NativeCapabilities {
        application_inspection: true,
        executable_discovery: true,
        windows_application_scan: windows,
        windows_account: windows,
        windows_elevation: windows,
        windows_firewall: windows,
        launch_at_login: desktop,
        network_context: desktop,
        network_monitor: desktop,
        service_lifecycle: desktop,
        managed_file_permissions: unix,
        macos_service_management: macos,
        macos_application_routing: macos,
        windows_privilege_relaunch: windows,
        windows_uwp_loopback: windows,
        windows_service_status: windows,
        core_file_privileges: unix,
        service_identity: true,
        linux_terminal_proxy: linux,
        linux_service_status: linux,
    }
}

} // verus!
