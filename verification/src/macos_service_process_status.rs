//! Process status of the managed macOS LaunchDaemon, read from `launchctl`.
use vstd::prelude::*;
use crate::error::{NativeError, fails_with};
use crate::text::{ascii_lower, ascii_lower_exec, chars_of, contains_seq, contains_seq_exec};

verus! {

#[derive(Debug, Clone, Copy, PartialEq, Eq, Structural)]
pub enum MacosServiceProcessStatus {
    Running,
    Stopped,
    NotInstalled,
    Unknown,
}

impl MacosServiceProcessStatus {
    pub fn as_str(self) -> (name: &'static str)
        ensures
            name@ == match self {
                MacosServiceProcessStatus::Running => "running"@,
                MacosServiceProcessStatus::Stopped => "stopped"@,
                MacosServiceProcessStatus::NotInstalled => "not-installed"@,
                MacosServiceProcessStatus::Unknown => "unknown"@,
            },
    {
        match self {
            MacosServiceProcessStatus::Running => "running",
            MacosServiceProcessStatus::Stopped => "stopped",
            MacosServiceProcessStatus::NotInstalled => "not-installed",
            MacosServiceProcessStatus::Unknown => "unknown",
        }
    }
}

/// How `launchctl print system/KokoroBoxService` is read: after a successful
/// query the daemon runs when launchd reports a running state or a pid; after
/// a failed one it is not installed when launchd could not find it, and the
/// state is otherwise undetermined (`None`).
pub open spec fn launchctl_status(output: Seq<char>, success: bool) -> Option<
    MacosServiceProcessStatus,
> {
    if success {
        if contains_seq(output, "state = running"@) || contains_seq(output, "\n\tpid = "@) {
            Some(MacosServiceProcessStatus::Running)
        } else {
            Some(MacosServiceProcessStatus::Stopped)
        }
    } else if contains_seq(ascii_lower(output), "could not find service"@) || contains_seq(
        ascii_lower(output),
        "service not found"@,
    ) {
        Some(MacosServiceProcessStatus::NotInstalled)
    } else {
        None
    }
}

/// Interprets the combined output of the `launchctl` query.
pub fn parse_launchctl_status(output: &str, success: bool) -> (status: Option<
    MacosServiceProcessStatus,
>)
    ensures
        status == launchctl_status(output@, success),
{
    let text = chars_of(output);
    if success {
        let running = chars_of("state = running");
        let pid = chars_of("\n\tpid = ");
        if contains_seq_exec(&text, &running) || contains_seq_exec(&text, &pid) {
            return Some(MacosServiceProcessStatus::Running);
        } else {
            return Some(MacosServiceProcessStatus::Stopped);
        }
    }
    let lower = ascii_lower_exec(&text);
    let missing = chars_of("could not find service");
    let not_found = chars_of("service not found");
    if contains_seq_exec(&lower, &missing) || contains_seq_exec(&lower, &not_found) {
        Some(MacosServiceProcessStatus::NotInstalled)
    } else {
        None
    }
}

/// The answer to a `launchctl` query: its status, or the error when launchd
/// left the state undetermined.
pub fn launchctl_query_result(output: &str, success: bool) -> (result: Result<
    MacosServiceProcessStatus,
    NativeError,
>)
    ensures
        match launchctl_status(output@, success) {
            Some(status) => result == Ok::<MacosServiceProcessStatus, NativeError>(status),
            None => fails_with(result, "launchctl could not determine KokoroBox Service state"@),
        },
{
    match parse_launchctl_status(output, success) {
        Some(status) => Ok(status),
        None => Err(NativeError::new("launchctl could not determine KokoroBox Service state")),
    }
}

/// Outside macOS there is no LaunchDaemon to query.
pub fn get_macos_service_process_status() -> (result: Result<
    MacosServiceProcessStatus,
    NativeError,
>)
    ensures
        fails_with(result, "macOS Service status is unavailable on this platform"@),
{
    Err(NativeError::new("macOS Service status is unavailable on this platform"))
}

} // verus!
