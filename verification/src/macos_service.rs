//! The embedded macOS LaunchDaemon managed through `SMAppService`: plist-name
//! validation, the registration decisions and the status names.
use vstd::prelude::*;
use crate::TargetOs;
use crate::error::{NativeError, fails_with};
use crate::text::{chars_of, ends_with, ends_with_exec, is_ascii_alnum, is_ascii_alnum_exec};

verus! {

#[derive(Debug, Clone, Copy, PartialEq, Eq, Structural)]
pub enum MacOSManagedServiceStatus {
    NotRegistered,
    Enabled,
    RequiresApproval,
    NotFound,
    Unknown,
}

impl MacOSManagedServiceStatus {
    pub fn as_str(self) -> (name: &'static str)
        ensures
            name@ == match self {
                MacOSManagedServiceStatus::NotRegistered => "not-registered"@,
                MacOSManagedServiceStatus::Enabled => "enabled"@,
                MacOSManagedServiceStatus::RequiresApproval => "requires-approval"@,
                MacOSManagedServiceStatus::NotFound => "not-found"@,
                MacOSManagedServiceStatus::Unknown => "unknown"@,
            },
    {
        match self {
            MacOSManagedServiceStatus::NotRegistered => "not-registered",
            MacOSManagedServiceStatus::Enabled => "enabled",
            MacOSManagedServiceStatus::RequiresApproval => "requires-approval",
            MacOSManagedServiceStatus::NotFound => "not-found",
            MacOSManagedServiceStatus::Unknown => "unknown",
        }
    }
}

/// Characters a plist basename may hold.
pub open spec fn is_plist_name_char(c: char) -> bool {
    is_ascii_alnum(c) || c == '.' || c == '-' || c == '_'
}

/// A name that `validate_plist_name` accepts: 1 to 255 bytes, ending in
/// `.plist` with something before it, of ASCII letters, digits, `.`, `-` and
/// `_` only (so no path separators).
pub open spec fn is_safe_plist_name(name: &str) -> bool {
    &&& name@.len() > 0
    &&& name.len() <= 255
    &&& ends_with(name@, ".plist"@)
    &&& name@ != ".plist"@
    &&& forall|i: int| 0 <= i < name@.len() ==> #[trigger] is_plist_name_char(name@[i])
}

/// Why a plist name is refused, if it is.
pub open spec fn plist_name_error(name: &str) -> Option<Seq<char>> {
    if name@.len() == 0 || name.len() > 255 {
        Some("invalid macOS managed-service plist name"@)
    } else if !is_safe_plist_name(name) {
        Some("macOS managed-service plist name must be a safe .plist basename"@)
    } else {
        None
    }
}

/// Checks that a plist name is the basename of an embedded LaunchDaemon.
pub fn validate_plist_name(plist_name: &str) -> (result: Result<(), NativeError>)
    ensures
        result is Ok <==> is_safe_plist_name(plist_name),
        (plist_name@.len() == 0 || plist_name.len() > 255) ==> fails_with(
            result,
            "invalid macOS managed-service plist name"@,
        ),
        !(plist_name@.len() == 0 || plist_name.len() > 255) && !is_safe_plist_name(
            plist_name,
        ) ==> fails_with(result, "macOS managed-service plist name must be a safe .plist basename"@),
{
    let chars = chars_of(plist_name);
    if chars.len() == 0 || plist_name.len() > 255 {
        return Err(NativeError::new("invalid macOS managed-service plist name"));
    }
    let suffix = chars_of(".plist");
    let mut all_safe = true;
    let mut i: usize = 0;
    while i < chars.len()
        invariant
            i <= chars.len(),
            all_safe <==> forall|j: int| 0 <= j < i ==> #[trigger] is_plist_name_char(chars@[j]),
        decreases chars.len() - i,
    {
        let c = chars[i];
        let ok = is_ascii_alnum_exec(c) || c == '.' || c == '-' || c == '_';
        assert(ok == is_plist_name_char(chars@[i as int]));
        if !ok {
            all_safe = false;
        }
        i = i + 1;
    }
    let is_bare_suffix = chars.len() == suffix.len() && ends_with_exec(&chars, &suffix);
    proof {
        if chars.len() == suffix.len() && ends_with(chars@, suffix@) {
            assert(chars@ =~= chars@.subrange(0, chars@.len() as int));
        }
        if chars@ == ".plist"@ {
            assert(chars@.subrange(0, chars@.len() as int) =~= chars@);
        }
    }
    if !ends_with_exec(&chars, &suffix) || is_bare_suffix || !all_safe {
        return Err(NativeError::new("macOS managed-service plist name must be a safe .plist basename"));
    }
    Ok(())
}

/// What a managed-service request does from the current status.
#[derive(Debug, Clone, Copy, PartialEq, Eq, Structural)]
pub enum ServiceRequest {
    Register,
    Unregister,
    Reload,
}

/// The `SMAppService` calls a request makes, in order.
#[derive(Debug, Clone, Copy, PartialEq, Eq, Structural)]
pub enum ServicePlan {
    /// Nothing to do; report the current status.
    Keep,
    /// Call `register`.
    Register,
    /// Call `unregister`.
    Unregister,
    /// Call `unregister`, then `register`.
    UnregisterThenRegister,
}

/// The plan for a request: registering leaves an enabled or pending service
/// alone; unregistering leaves an absent one alone; reloading leaves a
/// service awaiting approval alone and re-registers an enabled one.
pub open spec fn service_plan(request: ServiceRequest, current: MacOSManagedServiceStatus) -> ServicePlan {
    match request {
        ServiceRequest::Register => if current == MacOSManagedServiceStatus::Enabled || current
            == MacOSManagedServiceStatus::RequiresApproval {
            ServicePlan::Keep
        } else {
            ServicePlan::Register
        },
        ServiceRequest::Unregister => if current == MacOSManagedServiceStatus::NotRegistered
            || current == MacOSManagedServiceStatus::NotFound {
            ServicePlan::Keep
        } else {
            ServicePlan::Unregister
        },
        ServiceRequest::Reload => if current == MacOSManagedServiceStatus::RequiresApproval {
            ServicePlan::Keep
        } else if current == MacOSManagedServiceStatus::Enabled {
            ServicePlan::UnregisterThenRegister
        } else {
            ServicePlan::Register
        },
    }
}

/// Chooses the `SMAppService` calls for a request.
pub fn plan_service_request(request: ServiceRequest, current: MacOSManagedServiceStatus) -> (plan:
    ServicePlan)
    ensures
        plan == service_plan(request, current),
{
    match request {
        ServiceRequest::Register => if current == MacOSManagedServiceStatus::Enabled || current
            == MacOSManagedServiceStatus::RequiresApproval {
            ServicePlan::Keep
        } else {
            ServicePlan::Register
        },
        ServiceRequest::Unregister => if current == MacOSManagedServiceStatus::NotRegistered
            || current == MacOSManagedServiceStatus::NotFound {
            ServicePlan::Keep
        } else {
            ServicePlan::Unregister
        },
        ServiceRequest::Reload => if current == MacOSManagedServiceStatus::RequiresApproval {
            ServicePlan::Keep
        } else if current == MacOSManagedServiceStatus::Enabled {
            ServicePlan::UnregisterThenRegister
        } else {
            ServicePlan::Register
        },
    }
}

/// A failed `register` still succeeds when the service now awaits the
/// user's approval.
pub fn register_failure_is_pending(status_after: MacOSManagedServiceStatus) -> (pending: bool)
    ensures
        pending == (status_after == MacOSManagedServiceStatus::RequiresApproval),
{
    status_after == MacOSManagedServiceStatus::RequiresApproval
}

/// The message for managed-service operations outside macOS.
pub open spec fn unsupported_service_message() -> Seq<char> {
    "UNSUPPORTED_PLATFORM: macOS managed-service operations require macOS"@
}

/// What `SMAppService` answered for one request on macOS.  The caller reads
/// the status, makes the calls `plan_service_request` gives for it (stopping
/// at a failed `unregister`), then reads the status again.
#[derive(Debug, Clone)]
pub struct ServiceAnswers {
    /// Whether the system is macOS 13 or later, where `SMAppService` exists.
    pub available: bool,
    /// The status before any call.
    pub current: MacOSManagedServiceStatus,
    /// The error `unregister` reported, when it was called and failed.
    pub unregister_error: Option<String>,
    /// The error `register` reported, when it was called and failed.
    pub register_error: Option<String>,
    /// The status after the calls.
    pub after: MacOSManagedServiceStatus,
}

/// The outcome of a failed or successful `register`: the status after it,
/// also when it failed but the service now awaits approval.
pub open spec fn register_outcome(
    error: Option<String>,
    after: MacOSManagedServiceStatus,
    failure: Seq<char>,
) -> Result<MacOSManagedServiceStatus, Seq<char>> {
    match error {
        None => Ok(after),
        Some(e) => if after == MacOSManagedServiceStatus::RequiresApproval {
            Ok(after)
        } else {
            Err(failure + e@)
        },
    }
}

/// The outcome of a request on macOS, from the answers.
pub open spec fn service_outcome(request: ServiceRequest, answers: ServiceAnswers) -> Result<
    MacOSManagedServiceStatus,
    Seq<char>,
> {
    if !answers.available {
        Err("SMAppService requires macOS 13 or later"@)
    } else {
        let register_failure = if request == ServiceRequest::Reload {
            "SMAppService reload register failed: "@
        } else {
            "SMAppService register failed: "@
        };
        match service_plan(request, answers.current) {
            ServicePlan::Keep => Ok(answers.current),
            ServicePlan::Register => register_outcome(
                answers.register_error,
                answers.after,
                register_failure,
            ),
            ServicePlan::Unregister => match answers.unregister_error {
                None => Ok(answers.after),
                Some(e) => Err("SMAppService unregister failed: "@ + e@),
            },
            ServicePlan::UnregisterThenRegister => match answers.unregister_error {
                Some(e) => Err("SMAppService reload unregister failed: "@ + e@),
                None => register_outcome(answers.register_error, answers.after, register_failure),
            },
        }
    }
}

/// The outcome of a request on `os`: the plist name is validated first;
/// outside macOS the operation is refused.
pub open spec fn request_outcome(
    plist_name: &str,
    os: TargetOs,
    request: ServiceRequest,
    answers: ServiceAnswers,
) -> Result<MacOSManagedServiceStatus, Seq<char>> {
    match plist_name_error(plist_name) {
        Some(message) => Err(message),
        None => if os != TargetOs::Macos {
            Err(unsupported_service_message())
        } else {
            service_outcome(request, answers)
        },
    }
}

/// The result as plain values.
pub open spec fn outcome_matches(
    result: Result<MacOSManagedServiceStatus, NativeError>,
    outcome: Result<MacOSManagedServiceStatus, Seq<char>>,
) -> bool {
    match outcome {
        Ok(status) => result == Ok::<MacOSManagedServiceStatus, NativeError>(status),
        Err(message) => fails_with(result, message),
    }
}

fn append_error(prefix: &str, error: &String) -> (e: NativeError)
    ensures
        e.message@ == prefix@ + error@,
{
    let mut out = chars_of(prefix);
    crate::text::push_str(&mut out, error.as_str());
    NativeError { message: crate::text::string_of(&out) }
}

fn finish_register(error: &Option<String>, after: MacOSManagedServiceStatus, failure: &str) -> (result:
    Result<MacOSManagedServiceStatus, NativeError>)
    ensures
        outcome_matches(result, register_outcome(*error, after, failure@)),
{
    match error {
        None => Ok(after),
        Some(e) => if after == MacOSManagedServiceStatus::RequiresApproval {
            Ok(after)
        } else {
            Err(append_error(failure, e))
        },
    }
}

fn decide_request(plist_name: &str, os: TargetOs, request: ServiceRequest, answers: &ServiceAnswers) -> (result:
    Result<MacOSManagedServiceStatus, NativeError>)
    ensures
        outcome_matches(result, request_outcome(plist_name, os, request, *answers)),
{
    match validate_plist_name(plist_name) {
        Err(error) => {
            return Err(error);
        },
        Ok(()) => {},
    }
    if os != TargetOs::Macos {
        return Err(NativeError::new("UNSUPPORTED_PLATFORM: macOS managed-service operations require macOS"));
    }
    if !answers.available {
        return Err(NativeError::new("SMAppService requires macOS 13 or later"));
    }
    let failure = if request == ServiceRequest::Reload {
        "SMAppService reload register failed: "
    } else {
        "SMAppService register failed: "
    };
    proof {
        reveal_strlit("SMAppService reload register failed: ");
        reveal_strlit("SMAppService register failed: ");
    }
    match plan_service_request(request, answers.current) {
        ServicePlan::Keep => Ok(answers.current),
        ServicePlan::Register => finish_register(&answers.register_error, answers.after, failure),
        ServicePlan::Unregister => match &answers.unregister_error {
            None => Ok(answers.after),
            Some(e) => Err(append_error("SMAppService unregister failed: ", e)),
        },
        ServicePlan::UnregisterThenRegister => match &answers.unregister_error {
            Some(e) => Err(append_error("SMAppService reload unregister failed: ", e)),
            None => finish_register(&answers.register_error, answers.after, failure),
        },
    }
}

/// The status of the managed service: the plist name is validated; on macOS
/// the status `SMAppService` reported, outside macOS the operation is
/// refused.
pub fn get_macos_managed_service_status(plist_name: &str, os: TargetOs, answers: &ServiceAnswers) -> (result:
    Result<MacOSManagedServiceStatus, NativeError>)
    ensures
        outcome_matches(
            result,
            match plist_name_error(plist_name) {
                Some(message) => Err(message),
                None => if os != TargetOs::Macos {
                    Err(unsupported_service_message())
                } else if !answers.available {
                    Err("SMAppService requires macOS 13 or later"@)
                } else {
                    Ok(answers.current)
                },
            },
        ),
{
    match validate_plist_name(plist_name) {
        Err(error) => {
            return Err(error);
        },
        Ok(()) => {},
    }
    if os != TargetOs::Macos {
        return Err(NativeError::new("UNSUPPORTED_PLATFORM: macOS managed-service operations require macOS"));
    }
    if !answers.available {
        return Err(NativeError::new("SMAppService requires macOS 13 or later"));
    }
    Ok(answers.current)
}

/// Registers the managed service: an enabled service or one awaiting
/// approval is left alone; otherwise `register` is called, and a failure
/// still succeeds when the service then awaits approval.
pub fn register_macos_managed_service(plist_name: &str, os: TargetOs, answers: &ServiceAnswers) -> (result:
    Result<MacOSManagedServiceStatus, NativeError>)
    ensures
        outcome_matches(result, request_outcome(plist_name, os, ServiceRequest::Register, *answers)),
{
    decide_request(plist_name, os, ServiceRequest::Register, answers)
}

/// Unregisters the managed service: an absent one is left alone; otherwise
/// `unregister` is called and its failure is the error.
pub fn unregister_macos_managed_service(plist_name: &str, os: TargetOs, answers: &ServiceAnswers) -> (result:
    Result<MacOSManagedServiceStatus, NativeError>)
    ensures
        outcome_matches(result, request_outcome(plist_name, os, ServiceRequest::Unregister, *answers)),
{
    decide_request(plist_name, os, ServiceRequest::Unregister, answers)
}

/// Reloads the managed service: one awaiting approval is left alone; an
/// enabled one is unregistered first; then `register` is called as when
/// registering.
pub fn reload_macos_managed_service(plist_name: &str, os: TargetOs, answers: &ServiceAnswers) -> (result:
    Result<MacOSManagedServiceStatus, NativeError>)
    ensures
        outcome_matches(result, request_outcome(plist_name, os, ServiceRequest::Reload, *answers)),
{
    decide_request(plist_name, os, ServiceRequest::Reload, answers)
}

/// Outside macOS there are no Login Items settings to open.
pub fn open_macos_login_items_settings() -> (result: Result<(), NativeError>)
    ensures
        fails_with(result, "UNSUPPORTED_PLATFORM: macOS Login Items settings require macOS"@),
{
    Err(NativeError::new("UNSUPPORTED_PLATFORM: macOS Login Items settings require macOS"))
}

} // verus!
