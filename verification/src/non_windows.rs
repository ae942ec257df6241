//! The Windows-only operations as they answer on every other system.
use vstd::prelude::*;
use crate::UwpLoopbackApp;
use crate::error::{NativeError, fails_with};
use crate::text::{push_str, string_of};
use crate::windows::firewall::FirewallRule;

verus! {

broadcast use vstd::string::group_string_axioms;

/// The message for a Windows-only operation.
pub open spec fn windows_only_message(operation: Seq<char>) -> Seq<char> {
    "UNSUPPORTED_PLATFORM: "@ + operation + " is only available on Windows"@
}

fn windows_only(operation: &str) -> (error: NativeError)
    ensures
        error.message@ == windows_only_message(operation@),
{
    let mut out: Vec<char> = Vec::new();
    push_str(&mut out, "UNSUPPORTED_PLATFORM: ");
    push_str(&mut out, operation);
    push_str(&mut out, " is only available on Windows");
    NativeError { message: string_of(&out) }
}

pub fn list_uwp_loopback_apps() -> (result: Result<Vec<UwpLoopbackApp>, NativeError>)
    ensures
        fails_with(result, windows_only_message("list_uwp_loopback_apps"@)),
{
    Err(windows_only("list_uwp_loopback_apps"))
}

pub fn set_uwp_loopback_exemption(sid: &str, enabled: bool) -> (result: Result<(), NativeError>)
    ensures
        fails_with(result, windows_only_message("set_uwp_loopback_exemption"@)),
{
    Err(windows_only("set_uwp_loopback_exemption"))
}

pub fn current_user_sid() -> (result: Result<String, NativeError>)
    ensures
        fails_with(result, windows_only_message("current_user_sid"@)),
{
    Err(windows_only("current_user_sid"))
}

pub fn is_running_as_admin() -> (result: Result<bool, NativeError>)
    ensures
        fails_with(result, windows_only_message("is_running_as_admin"@)),
{
    Err(windows_only("is_running_as_admin"))
}

pub fn setup_firewall_rules(rules: Vec<FirewallRule>) -> (result: Result<(), NativeError>)
    ensures
        fails_with(result, windows_only_message("setup_firewall_rules"@)),
{
    Err(windows_only("setup_firewall_rules"))
}

pub fn ensure_kokoro_box_core_firewall(
    mihomo_path: &str,
    mihomo_alpha_path: &str,
    application_path: &str,
) -> (result: Result<(), NativeError>)
    ensures
        fails_with(result, windows_only_message("ensure_kokoro_box_core_firewall"@)),
{
    Err(windows_only("ensure_kokoro_box_core_firewall"))
}

} // verus!
