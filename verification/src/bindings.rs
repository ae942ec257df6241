//! The records exchanged with the JavaScript side of Desktop and their
//! conversions to and from the library's types: enumerations travel as
//! their stable names, optional arguments get their documented defaults.
use vstd::prelude::*;
use vstd::std_specs::convert::FromSpecImpl;
use crate::{NativeCapabilities, TargetOs, UwpLoopbackApp, capabilities_of, native_capabilities};
use crate::application::{ApplicationInfo, ApplicationScanResult};
use crate::error::{NativeError, fails_with};
use crate::executables::{ExecutableCandidate, ExecutableSearchOptions};
use crate::macos_app_routing::{
    MacosApplicationRoutingAction, MacosApplicationRoutingConfiguration,
    MacosApplicationRoutingIdentifierKind, MacosApplicationRoutingProtocol,
    MacosApplicationRoutingRule, MacosApplicationRoutingStatus, action_name, kind_name,
    protocol_name, state_name,
};
use crate::platform::{LaunchAtLoginOptions, LaunchAtLoginStatus};
use crate::privileged_operations::{ServiceLifecycleAction, ServiceLifecycleOptions, action_named};
use crate::privileges::CorePrivilegeStatus;
use crate::service_identity::{LegacyServiceIdentity, ServiceIdentityInfo, ServiceIdentityOptions};

verus! {

broadcast use vstd::string::group_string_axioms;

// ---------------------------------------------------------------------------
// Capabilities
// ---------------------------------------------------------------------------
/// The capabilities reported to JavaScript: every flag of
/// [`NativeCapabilities`], under the same name.
#[derive(Debug, Clone, Copy, PartialEq, Eq, Structural)]
pub struct JsNativeCapabilities {
    pub application_inspection: bool,
    pub executable_discovery: bool,
    pub windows_application_scan: bool,
    pub windows_account: bool,
    pub windows_elevation: bool,
    pub windows_firewall: bool,
    pub launch_at_login: bool,
    pub network_context: bool,
    pub network_monitor: bool,
    pub service_lifecycle: bool,
    pub managed_file_permissions: bool,
    pub macos_service_management: bool,
    pub macos_application_routing: bool,
    pub windows_privilege_relaunch: bool,
    pub windows_uwp_loopback: bool,
    pub windows_service_status: bool,
    pub core_file_privileges: bool,
    pub service_identity: bool,
    pub linux_terminal_proxy: bool,
    pub linux_service_status: bool,
}

/// The capabilities of a build for `os`, as JavaScript sees them.
pub open spec fn js_capabilities(c: NativeCapabilities) -> JsNativeCapabilities {
    JsNativeCapabilities {
        application_inspection: c.application_inspection,
        executable_discovery: c.executable_discovery,
        windows_application_scan: c.windows_application_scan,
        windows_account: c.windows_account,
        windows_elevation: c.windows_elevation,
        windows_firewall: c.windows_firewall,
        launch_at_login: c.launch_at_login,
        network_context: c.network_context,
        network_monitor: c.network_monitor,
        service_lifecycle: c.service_lifecycle,
        managed_file_permissions: c.managed_file_permissions,
        macos_service_management: c.macos_service_management,
        macos_application_routing: c.macos_application_routing,
        windows_privilege_relaunch: c.windows_privilege_relaunch,
        windows_uwp_loopback: c.windows_uwp_loopback,
        windows_service_status: c.windows_service_status,
        core_file_privileges: c.core_file_privileges,
        service_identity: c.service_identity,
        linux_terminal_proxy: c.linux_terminal_proxy,
        linux_service_status: c.linux_service_status,
    }
}

/// Reports the capabilities of a build for `os` to JavaScript.
pub fn get_native_capabilities(os: TargetOs) -> (capabilities: JsNativeCapabilities)
    ensures
        capabilities == js_capabilities(capabilities_of(os)),
{
    let c = native_capabilities(os);
    JsNativeCapabilities {
        application_inspection: c.application_inspection,
        executable_discovery: c.executable_discovery,
        windows_application_scan: c.windows_application_scan,
        windows_account: c.windows_account,
        windows_elevation: c.windows_elevation,
        windows_firewall: c.windows_firewall,
        launch_at_login: c.launch_at_login,
        network_context: c.network_context,
        network_monitor: c.network_monitor,
        service_lifecycle: c.service_lifecycle,
        managed_file_permissions: c.managed_file_permissions,
        macos_service_management: c.macos_service_management,
        macos_application_routing: c.macos_application_routing,
        windows_privilege_relaunch: c.windows_privilege_relaunch,
        windows_uwp_loopback: c.windows_uwp_loopback,
        windows_service_status: c.windows_service_status,
        core_file_privileges: c.core_file_privileges,
        service_identity: c.service_identity,
        linux_terminal_proxy: c.linux_terminal_proxy,
        linux_service_status: c.linux_service_status,
    }
}

// ---------------------------------------------------------------------------
// Applications and executables
// ---------------------------------------------------------------------------
#[derive(Debug, Clone)]
pub struct JsApplicationInfo {
    pub executable_path: String,
    pub executable_name: String,
    pub identifier: String,
    pub identifier_kind: String,
    pub icon_data_url: Option<String>,
}

impl From<ApplicationInfo> for JsApplicationInfo {
    fn from(value: ApplicationInfo) -> (result: Self) {
        JsApplicationInfo {
            executable_path: value.executable_path,
            executable_name: value.executable_name,
            identifier: value.identifier,
            identifier_kind: value.identifier_kind,
            icon_data_url: value.icon_data_url,
        }
    }
}

impl FromSpecImpl<ApplicationInfo> for JsApplicationInfo {
    open spec fn obeys_from_spec() -> bool {
        true
    }

    open spec fn from_spec(value: ApplicationInfo) -> Self {
        JsApplicationInfo {
            executable_path: value.executable_path,
            executable_name: value.executable_name,
            identifier: value.identifier,
            identifier_kind: value.identifier_kind,
            icon_data_url: value.icon_data_url,
        }
    }
}

#[derive(Debug, Clone)]
pub struct JsApplicationScanResult {
    pub applications: Vec<JsApplicationInfo>,
    pub truncated: bool,
    pub unreadable_directory_count: u32,
}

/// The JavaScript record of an application.
pub open spec fn js_application(value: ApplicationInfo) -> JsApplicationInfo {
    JsApplicationInfo {
        executable_path: value.executable_path,
        executable_name: value.executable_name,
        identifier: value.identifier,
        identifier_kind: value.identifier_kind,
        icon_data_url: value.icon_data_url,
    }
}

impl JsApplicationScanResult {
    /// The JavaScript record of a scan, every application converted in order.
    pub fn from_scan(value: ApplicationScanResult) -> (result: Self)
        ensures
            result.applications@ == value.applications@.map_values(
                |a: ApplicationInfo| js_application(a),
            ),
            result.truncated == value.truncated,
            result.unreadable_directory_count == value.unreadable_directory_count,
    {
        let ApplicationScanResult { applications, truncated, unreadable_directory_count } = value;
        let ghost source = applications@;
        let mut converted: Vec<JsApplicationInfo> = Vec::new();
        let mut remaining = applications;
        while remaining.len() > 0
            invariant
                remaining@.len() + converted@.len() == source.len(),
                remaining@ == source.subrange(converted@.len() as int, source.len() as int),
                converted@ == source.take(converted@.len() as int).map_values(
                    |a: ApplicationInfo| js_application(a),
                ),
            decreases remaining.len(),
        {
            let ghost k = converted@.len() as int;
            let item = remaining.remove(0);
            converted.push(JsApplicationInfo::from(item));
            assert(source.take(k + 1) =~= source.take(k).push(source[k]));
            assert(converted@ =~= source.take(k + 1).map_values(
                |a: ApplicationInfo| js_application(a),
            ));
            assert(remaining@ =~= source.subrange(k + 1, source.len() as int));
        }
        assert(source.take(source.len() as int) =~= source);
        JsApplicationScanResult {
            applications: converted,
            truncated,
            unreadable_directory_count,
        }
    }
}

#[derive(Debug, Clone)]
pub struct JsExecutableSearchOptions {
    pub names: Vec<String>,
    pub additional_paths: Option<Vec<String>>,
    pub match_name_prefixes: Option<bool>,
}

impl JsExecutableSearchOptions {
    /// The search options, with no additional paths and exact matching
    /// unless given.
    pub fn into_options(self) -> (options: ExecutableSearchOptions)
        ensures
            options.names@ == self.names@,
            options.additional_paths@ == match self.additional_paths {
                Some(paths) => paths@,
                None => Seq::<String>::empty(),
            },
            options.match_name_prefixes == match self.match_name_prefixes {
                Some(flag) => flag,
                None => false,
            },
    {
        ExecutableSearchOptions {
            names: self.names,
            additional_paths: match self.additional_paths {
                Some(paths) => paths,
                None => Vec::new(),
            },
            match_name_prefixes: match self.match_name_prefixes {
                Some(flag) => flag,
                None => false,
            },
        }
    }
}

#[derive(Debug, Clone)]
pub struct JsExecutableCandidate {
    pub path: String,
    pub canonical_path: String,
    pub name: String,
}

impl From<ExecutableCandidate> for JsExecutableCandidate {
    fn from(value: ExecutableCandidate) -> (result: Self) {
        JsExecutableCandidate { path: value.path, canonical_path: value.canonical_path, name: value.name }
    }
}

impl FromSpecImpl<ExecutableCandidate> for JsExecutableCandidate {
    open spec fn obeys_from_spec() -> bool {
        true
    }

    open spec fn from_spec(value: ExecutableCandidate) -> Self {
        JsExecutableCandidate { path: value.path, canonical_path: value.canonical_path, name: value.name }
    }
}

/// The largest number of applications a scan returns unless told otherwise.
pub const DEFAULT_SCAN_RESULTS: u32 = 512;

/// The limit of a scan: the requested one, or 512.
pub fn scan_limit(maximum_results: Option<u32>) -> (limit: u32)
    ensures
        limit == match maximum_results {
            Some(m) => m,
            None => DEFAULT_SCAN_RESULTS,
        },
{
    match maximum_results {
        Some(m) => m,
        None => DEFAULT_SCAN_RESULTS,
    }
}

/// How long to wait for a network change: 30 seconds unless told, kept
/// between half a second and a minute.
pub fn network_wait_timeout(timeout_ms: Option<u32>) -> (timeout: u32)
    ensures
        timeout == ({
            let t = match timeout_ms {
                Some(t) => t,
                None => 30_000u32,
            };
            if t < 500 {
                500u32
            } else if t > 60_000 {
                60_000u32
            } else {
                t
            }
        }),
{
    let t = match timeout_ms {
        Some(t) => t,
        None => 30_000,
    };
    if t < 500 {
        500
    } else if t > 60_000 {
        60_000
    } else {
        t
    }
}

// ---------------------------------------------------------------------------
// Launch at login
// ---------------------------------------------------------------------------
#[derive(Debug, Clone)]
pub struct JsLaunchAtLoginOptions {
    pub identifier: String,
    pub display_name: String,
    pub executable_path: String,
    pub arguments: Option<Vec<String>>,
}

impl JsLaunchAtLoginOptions {
    /// The launch options, without arguments unless given.
    pub fn into_options(self) -> (options: LaunchAtLoginOptions)
        ensures
            options.identifier == self.identifier,
            options.display_name == self.display_name,
            options.executable_path == self.executable_path,
            options.arguments@ == match self.arguments {
                Some(arguments) => arguments@,
                None => Seq::<String>::empty(),
            },
    {
        LaunchAtLoginOptions {
            identifier: self.identifier,
            display_name: self.display_name,
            executable_path: self.executable_path,
            arguments: match self.arguments {
                Some(arguments) => arguments,
                None => Vec::new(),
            },
        }
    }
}

#[derive(Debug, Clone)]
pub struct JsLaunchAtLoginStatus {
    pub enabled: bool,
    pub requires_approval: bool,
    pub backend: String,
}

impl From<LaunchAtLoginStatus> for JsLaunchAtLoginStatus {
    fn from(value: LaunchAtLoginStatus) -> (result: Self) {
        JsLaunchAtLoginStatus {
            enabled: value.enabled,
            requires_approval: value.requires_approval,
            backend: value.backend,
        }
    }
}

impl FromSpecImpl<LaunchAtLoginStatus> for JsLaunchAtLoginStatus {
    open spec fn obeys_from_spec() -> bool {
        true
    }

    open spec fn from_spec(value: LaunchAtLoginStatus) -> Self {
        JsLaunchAtLoginStatus {
            enabled: value.enabled,
            requires_approval: value.requires_approval,
            backend: value.backend,
        }
    }
}

// ---------------------------------------------------------------------------
// Privileged operations
// ---------------------------------------------------------------------------
#[derive(Debug, Clone)]
pub struct JsServiceLifecycleOptions {
    pub executable_path: String,
    pub action: String,
    pub public_key: Option<String>,
    pub authorized_sid: Option<String>,
    pub authorized_uid: Option<u32>,
}

impl JsServiceLifecycleOptions {
    /// The lifecycle options, once the action names one of the service
    /// actions.
    pub fn into_options(self) -> (result: Result<ServiceLifecycleOptions, NativeError>)
        ensures
            match action_named(self.action@) {
                Some(action) => result matches Ok(options) && options.action == action
                    && options.executable_path == self.executable_path && options.public_key
                    == self.public_key && options.authorized_sid == self.authorized_sid
                    && options.authorized_uid == self.authorized_uid,
                None => fails_with(
                    result,
                    "PRIVILEGED_SERVICE_INVALID_ACTION: unsupported service action"@,
                ),
            },
    {
        let action = ServiceLifecycleAction::parse(self.action.as_str())?;
        Ok(
            ServiceLifecycleOptions {
                executable_path: self.executable_path,
                action,
                public_key: self.public_key,
                authorized_sid: self.authorized_sid,
                authorized_uid: self.authorized_uid,
            },
        )
    }
}

#[derive(Debug, Clone)]
pub struct JsCorePrivilegeStatus {
    pub path: String,
    pub granted: bool,
}

impl From<CorePrivilegeStatus> for JsCorePrivilegeStatus {
    fn from(value: CorePrivilegeStatus) -> (result: Self) {
        JsCorePrivilegeStatus { path: value.path, granted: value.granted }
    }
}

impl FromSpecImpl<CorePrivilegeStatus> for JsCorePrivilegeStatus {
    open spec fn obeys_from_spec() -> bool {
        true
    }

    open spec fn from_spec(value: CorePrivilegeStatus) -> Self {
        JsCorePrivilegeStatus { path: value.path, granted: value.granted }
    }
}

// ---------------------------------------------------------------------------
// Service identity
// ---------------------------------------------------------------------------
#[derive(Debug, Clone)]
pub struct JsServiceIdentityOptions {
    pub service: String,
    pub account: String,
    pub linux_fallback_path: Option<String>,
}

impl From<JsServiceIdentityOptions> for ServiceIdentityOptions {
    fn from(value: JsServiceIdentityOptions) -> (result: Self) {
        ServiceIdentityOptions { service: value.service, account: value.account, linux_fallback_path: value.linux_fallback_path }
    }
}

impl FromSpecImpl<JsServiceIdentityOptions> for ServiceIdentityOptions {
    open spec fn obeys_from_spec() -> bool {
        true
    }

    open spec fn from_spec(value: JsServiceIdentityOptions) -> Self {
        ServiceIdentityOptions { service: value.service, account: value.account, linux_fallback_path: value.linux_fallback_path }
    }
}

#[derive(Debug, Clone)]
pub struct JsLegacyServiceIdentity {
    pub key_id: Option<String>,
    pub public_key: String,
    pub private_key: String,
}

impl From<JsLegacyServiceIdentity> for LegacyServiceIdentity {
    fn from(value: JsLegacyServiceIdentity) -> (result: Self) {
        LegacyServiceIdentity { key_id: value.key_id, public_key: value.public_key, private_key: value.private_key }
    }
}

impl FromSpecImpl<JsLegacyServiceIdentity> for LegacyServiceIdentity {
    open spec fn obeys_from_spec() -> bool {
        true
    }

    open spec fn from_spec(value: JsLegacyServiceIdentity) -> Self {
        LegacyServiceIdentity { key_id: value.key_id, public_key: value.public_key, private_key: value.private_key }
    }
}

#[derive(Debug, Clone)]
pub struct JsServiceIdentityInfo {
    pub key_id: String,
    pub public_key: String,
    pub backend: String,
}

impl From<ServiceIdentityInfo> for JsServiceIdentityInfo {
    fn from(value: ServiceIdentityInfo) -> (result: Self) {
        JsServiceIdentityInfo { key_id: value.key_id, public_key: value.public_key, backend: value.backend }
    }
}

impl FromSpecImpl<ServiceIdentityInfo> for JsServiceIdentityInfo {
    open spec fn obeys_from_spec() -> bool {
        true
    }

    open spec fn from_spec(value: ServiceIdentityInfo) -> Self {
        JsServiceIdentityInfo { key_id: value.key_id, public_key: value.public_key, backend: value.backend }
    }
}

// ---------------------------------------------------------------------------
// Windows app containers
// ---------------------------------------------------------------------------
#[derive(Debug, Clone)]
pub struct JsUwpLoopbackApp {
    pub id: String,
    pub package_family_name: String,
    pub package_full_name: Option<String>,
    pub display_name: String,
    pub description: Option<String>,
    pub enabled: bool,
    pub category: String,
    pub package_type: Option<String>,
    pub framework: bool,
    pub resource_package: bool,
}

impl JsUwpLoopbackApp {
    /// The JavaScript record of an app container: the category and package
    /// type by their names.
    pub fn from_app(app: UwpLoopbackApp) -> (result: Self)
        ensures
            result.id == app.id,
            result.package_family_name == app.package_family_name,
            result.package_full_name == app.package_full_name,
            result.display_name == app.display_name,
            result.description == app.description,
            result.enabled == app.enabled,
            result.category@ == crate::category_name(app.category),
            match app.package_type {
                Some(kind) => result.package_type matches Some(name) && name@
                    == crate::package_type_name(kind),
                None => result.package_type is None,
            },
            result.framework == app.framework,
            result.resource_package == app.resource_package,
    {
        let category = app.category.as_str().to_string();
        let package_type = match app.package_type {
            Some(kind) => Some(kind.as_str().to_string()),
            None => None,
        };
        JsUwpLoopbackApp {
            id: app.id,
            package_family_name: app.package_family_name,
            package_full_name: app.package_full_name,
            display_name: app.display_name,
            description: app.description,
            enabled: app.enabled,
            category,
            package_type,
            framework: app.framework,
            resource_package: app.resource_package,
        }
    }
}

// ---------------------------------------------------------------------------
// macOS application routing
// ---------------------------------------------------------------------------
#[derive(Debug, Clone)]
pub struct JsMacosApplicationRoutingRule {
    pub signing_identifier: String,
    pub identifier_kind: String,
    pub rule_protocol: String,
    pub action: String,
    pub enabled: bool,
    pub priority: u32,
}

#[derive(Debug, Clone)]
pub struct JsMacosApplicationRoutingConfiguration {
    pub proxy_available: bool,
    pub proxy_udp_dns: bool,
    pub diagnostic_logging: bool,
    pub rules: Vec<JsMacosApplicationRoutingRule>,
}

#[derive(Debug, Clone)]
pub struct JsMacosApplicationRoutingStatus {
    pub state: String,
    pub needs_user_approval: bool,
    pub message: Option<String>,
}

/// The identifier kind a wire name stands for.
pub open spec fn kind_named(name: Seq<char>) -> Option<MacosApplicationRoutingIdentifierKind> {
    if name == "SIGNING_IDENTIFIER"@ {
        Some(MacosApplicationRoutingIdentifierKind::SigningIdentifier)
    } else if name == "PROCESS_NAME"@ {
        Some(MacosApplicationRoutingIdentifierKind::ProcessName)
    } else {
        None
    }
}

/// The protocol a wire name stands for.
pub open spec fn protocol_named(name: Seq<char>) -> Option<MacosApplicationRoutingProtocol> {
    if name == "TCP"@ {
        Some(MacosApplicationRoutingProtocol::Tcp)
    } else if name == "UDP"@ {
        Some(MacosApplicationRoutingProtocol::Udp)
    } else if name == "BOTH"@ {
        Some(MacosApplicationRoutingProtocol::Both)
    } else {
        None
    }
}

/// The action a wire name stands for.
pub open spec fn routing_action_named(name: Seq<char>) -> Option<MacosApplicationRoutingAction> {
    if name == "PROXY"@ {
        Some(MacosApplicationRoutingAction::Proxy)
    } else if name == "DIRECT"@ {
        Some(MacosApplicationRoutingAction::Direct)
    } else if name == "BLOCK"@ {
        Some(MacosApplicationRoutingAction::Block)
    } else {
        None
    }
}

/// The names JavaScript sends are the names the request carries to the
/// routing extension: each kind, protocol and action reads back from its
/// wire name, and the rule conversion accepts exactly those names.
pub proof fn routing_names_round_trip(
    kind: MacosApplicationRoutingIdentifierKind,
    protocol: MacosApplicationRoutingProtocol,
    action: MacosApplicationRoutingAction,
    name: Seq<char>,
)
    ensures
        kind_named(kind_name(kind)) == Some(kind),
        protocol_named(protocol_name(protocol)) == Some(protocol),
        routing_action_named(action_name(action)) == Some(action),
        kind_named(name) == Some(kind) ==> name == kind_name(kind),
        protocol_named(name) == Some(protocol) ==> name == protocol_name(protocol),
        routing_action_named(name) == Some(action) ==> name == action_name(action),
{
    reveal_strlit("SIGNING_IDENTIFIER");
    reveal_strlit("PROCESS_NAME");
    reveal_strlit("TCP");
    reveal_strlit("UDP");
    reveal_strlit("BOTH");
    reveal_strlit("PROXY");
    reveal_strlit("DIRECT");
    reveal_strlit("BLOCK");
    assert("SIGNING_IDENTIFIER"@.len() == 18 && "PROCESS_NAME"@.len() == 12);
    assert("TCP"@[0] == 'T' && "UDP"@[0] == 'U' && "BOTH"@.len() == 4);
    assert("PROXY"@[0] == 'P' && "DIRECT"@[0] == 'D' && "BLOCK"@[0] == 'B');
}

/// The rule a JavaScript record describes, or why it is refused.
pub open spec fn rule_from_js(value: JsMacosApplicationRoutingRule) -> Result<
    MacosApplicationRoutingRule,
    Seq<char>,
> {
    match kind_named(value.identifier_kind@) {
        None => Err("Invalid macOS application identifier kind"@),
        Some(identifier_kind) => match protocol_named(value.rule_protocol@) {
            None => Err("Invalid macOS application-routing protocol"@),
            Some(rule_protocol) => match routing_action_named(value.action@) {
                None => Err("Invalid macOS application-routing action"@),
                Some(action) => Ok(
                    MacosApplicationRoutingRule {
                        signing_identifier: value.signing_identifier,
                        identifier_kind,
                        rule_protocol,
                        action,
                        enabled: value.enabled,
                        priority: value.priority,
                    },
                ),
            },
        },
    }
}

/// A rule result as values.
pub open spec fn rule_result(result: Result<MacosApplicationRoutingRule, NativeError>) -> Result<
    MacosApplicationRoutingRule,
    Seq<char>,
> {
    match result {
        Ok(rule) => Ok(rule),
        Err(error) => Err(error.message@),
    }
}

impl MacosApplicationRoutingRule {
    /// Reads a rule from JavaScript: the identifier kind, protocol and
    /// action must be among their wire names.
    pub fn try_from(value: JsMacosApplicationRoutingRule) -> (result: Result<Self, NativeError>)
        ensures
            rule_result(result) == rule_from_js(value),
    {
        let kind = value.identifier_kind.clone();
        let identifier_kind = if kind == "SIGNING_IDENTIFIER".to_string() {
            MacosApplicationRoutingIdentifierKind::SigningIdentifier
        } else if kind == "PROCESS_NAME".to_string() {
            MacosApplicationRoutingIdentifierKind::ProcessName
        } else {
            return Err(NativeError::new("Invalid macOS application identifier kind"));
        };
        let protocol = value.rule_protocol.clone();
        let rule_protocol = if protocol == "TCP".to_string() {
            MacosApplicationRoutingProtocol::Tcp
        } else if protocol == "UDP".to_string() {
            MacosApplicationRoutingProtocol::Udp
        } else if protocol == "BOTH".to_string() {
            MacosApplicationRoutingProtocol::Both
        } else {
            return Err(NativeError::new("Invalid macOS application-routing protocol"));
        };
        let action_text = value.action.clone();
        let action = if action_text == "PROXY".to_string() {
            MacosApplicationRoutingAction::Proxy
        } else if action_text == "DIRECT".to_string() {
            MacosApplicationRoutingAction::Direct
        } else if action_text == "BLOCK".to_string() {
            MacosApplicationRoutingAction::Block
        } else {
            return Err(NativeError::new("Invalid macOS application-routing action"));
        };
        Ok(
            MacosApplicationRoutingRule {
                signing_identifier: value.signing_identifier,
                identifier_kind,
                rule_protocol,
                action,
                enabled: value.enabled,
                priority: value.priority,
            },
        )
    }
}

/// The first rule, from position `i` on, that JavaScript described wrongly.
pub open spec fn first_rule_error(rules: Seq<JsMacosApplicationRoutingRule>, i: int) -> Option<
    Seq<char>,
>
    decreases rules.len() - i,
{
    if i < 0 || i >= rules.len() {
        None
    } else {
        match rule_from_js(rules[i]) {
            Err(message) => Some(message),
            Ok(_) => first_rule_error(rules, i + 1),
        }
    }
}

impl MacosApplicationRoutingConfiguration {
    /// Reads a configuration from JavaScript, every rule in order; the first
    /// refused rule refuses it.
    pub fn try_from(value: JsMacosApplicationRoutingConfiguration) -> (result: Result<
        Self,
        NativeError,
    >)
        ensures
            match first_rule_error(value.rules@, 0) {
                Some(message) => fails_with(result, message),
                None => result matches Ok(configuration) && configuration.proxy_available
                    == value.proxy_available && configuration.proxy_udp_dns == value.proxy_udp_dns
                    && configuration.diagnostic_logging == value.diagnostic_logging
                    && configuration.rules@.len() == value.rules@.len() && forall|i: int|
                    0 <= i < value.rules@.len() ==> rule_from_js(#[trigger] value.rules@[i])
                    == Ok::<MacosApplicationRoutingRule, Seq<char>>(configuration.rules@[i]),
            },
    {
        let JsMacosApplicationRoutingConfiguration {
            proxy_available,
            proxy_udp_dns,
            diagnostic_logging,
            rules,
        } = value;
        let ghost source = rules@;
        let mut remaining = rules;
        let mut converted: Vec<MacosApplicationRoutingRule> = Vec::new();
        while remaining.len() > 0
            invariant
                remaining@.len() + converted@.len() == source.len(),
                source == value.rules@,
                remaining@ == source.subrange(converted@.len() as int, source.len() as int),
                first_rule_error(source, converted@.len() as int) == first_rule_error(source, 0),
                forall|i: int|
                    0 <= i < converted@.len() ==> rule_from_js(#[trigger] source[i]) == Ok::<
                        MacosApplicationRoutingRule,
                        Seq<char>,
                    >(converted@[i]),
            decreases remaining.len(),
        {
            let ghost k = converted@.len() as int;
            let item = remaining.remove(0);
            assert(item == source[k]);
            let rule = match MacosApplicationRoutingRule::try_from(item) {
                Ok(rule) => rule,
                Err(error) => {
                    assert(first_rule_error(source, k) == Some(error.message@));
                    return Err(error);
                },
            };
            converted.push(rule);
            assert(remaining@ =~= source.subrange(k + 1, source.len() as int));
        }
        Ok(
            MacosApplicationRoutingConfiguration {
                proxy_available,
                proxy_udp_dns,
                diagnostic_logging,
                rules: converted,
            },
        )
    }
}

impl JsMacosApplicationRoutingStatus {
    /// The JavaScript record of a routing status, the state by its name.
    pub fn from_status(value: MacosApplicationRoutingStatus) -> (result: Self)
        ensures
            result.state@ == state_name(value.state),
            result.needs_user_approval == value.needs_user_approval,
            result.message == value.message,
    {
        JsMacosApplicationRoutingStatus {
            state: value.state.as_str().to_string(),
            needs_user_approval: value.needs_user_approval,
            message: value.message,
        }
    }
}

} // verus!
