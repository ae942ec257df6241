//! Status of the KokoroBox systemd service on Linux.
use vstd::prelude::*;
use crate::TargetOs;
use crate::error::{NativeError, fails_with};

verus! {

#[derive(Debug, Clone, Copy, PartialEq, Eq, Structural)]
pub enum LinuxServiceStatus {
    Running,
    Stopped,
    NotInstalled,
    Unknown,
}

impl LinuxServiceStatus {
    pub fn as_str(self) -> (name: &'static str)
        ensures
            name@ == match self {
                LinuxServiceStatus::Running => "running"@,
                LinuxServiceStatus::Stopped => "stopped"@,
                LinuxServiceStatus::NotInstalled => "not-installed"@,
                LinuxServiceStatus::Unknown => "unknown"@,
            },
    {
        match self {
            LinuxServiceStatus::Running => "running",
            LinuxServiceStatus::Stopped => "stopped",
            LinuxServiceStatus::NotInstalled => "not-installed",
            LinuxServiceStatus::Unknown => "unknown",
        }
    }
}

/// The systemd unit of the service.
pub const SERVICE_UNIT: &'static str = "KokoroBoxService.service";

/// What systemd answered to one of the two manager calls.
#[derive(Debug, Clone, PartialEq, Eq)]
pub enum SystemdReply {
    /// The call returned this string (a unit-file state or an active state).
    Value(String),
    /// systemd reported `NoSuchUnit` or `NoSuchUnitFile`.
    MissingUnit,
    /// Any other failure.
    Failed,
}

/// The systemd active states that count as running.
pub open spec fn is_running_state(state: Seq<char>) -> bool {
    state == "active"@ || state == "reloading"@ || state == "activating"@
}

/// The systemd active states that count as stopped.
pub open spec fn is_stopped_state(state: Seq<char>) -> bool {
    state == "inactive"@ || state == "deactivating"@
}

/// The status for a unit's `ActiveState`.
pub open spec fn status_of_active_state(state: Seq<char>) -> LinuxServiceStatus {
    if is_running_state(state) {
        LinuxServiceStatus::Running
    } else if is_stopped_state(state) {
        LinuxServiceStatus::Stopped
    } else {
        LinuxServiceStatus::Unknown
    }
}

/// A unit is running exactly in the systemd active states `active`,
/// `reloading` and `activating`, stopped exactly in `inactive` and
/// `deactivating`, and of unknown status in every other state; an active
/// state never reads as not installed.
pub proof fn active_states_map_to_statuses(state: Seq<char>)
    ensures
        (status_of_active_state(state) == LinuxServiceStatus::Running) <==> (state == "active"@
            || state == "reloading"@ || state == "activating"@),
        (status_of_active_state(state) == LinuxServiceStatus::Stopped) <==> (state == "inactive"@
            || state == "deactivating"@),
        (status_of_active_state(state) == LinuxServiceStatus::Unknown) <==> !(state == "active"@
            || state == "reloading"@ || state == "activating"@ || state == "inactive"@ || state
            == "deactivating"@),
        status_of_active_state(state) != LinuxServiceStatus::NotInstalled,
{
    reveal_strlit("active");
    reveal_strlit("reloading");
    reveal_strlit("activating");
    reveal_strlit("inactive");
    reveal_strlit("deactivating");
    assert("active"@.len() == 6 && "active"@[0] == 'a');
    assert("reloading"@.len() == 9);
    assert("activating"@.len() == 10 && "activating"@[0] == 'a');
    assert("inactive"@.len() == 8);
    assert("deactivating"@.len() == 12);
}

/// Maps a unit's `ActiveState` to a service status.
pub fn status_from_active_state(state: &str) -> (status: LinuxServiceStatus)
    ensures
        status == status_of_active_state(state@),
{
    let s = state.to_string();
    if s == "active".to_string() || s == "reloading".to_string() || s == "activating".to_string() {
        LinuxServiceStatus::Running
    } else if s == "inactive".to_string() || s == "deactivating".to_string() {
        LinuxServiceStatus::Stopped
    } else {
        LinuxServiceStatus::Unknown
    }
}

/// The first step of the status query, `GetUnitFileState`: `Some` is the
/// final answer, `None` means the unit must be looked up next.
pub open spec fn unit_file_outcome(reply: SystemdReply) -> Option<
    Result<LinuxServiceStatus, Seq<char>>,
> {
    match reply {
        SystemdReply::Value(state) => if state@ == "not-found"@ {
            Some(Ok(LinuxServiceStatus::NotInstalled))
        } else {
            None
        },
        SystemdReply::MissingUnit => Some(Ok(LinuxServiceStatus::NotInstalled)),
        SystemdReply::Failed => Some(Err("Read KokoroBox Service unit file"@)),
    }
}

/// Decides from the `GetUnitFileState` reply whether the query is over.
pub fn after_unit_file_state(reply: &SystemdReply) -> (outcome: Option<
    Result<LinuxServiceStatus, NativeError>,
>)
    ensures
        match unit_file_outcome(*reply) {
            None => outcome is None,
            Some(Ok(status)) => outcome == Some(Ok::<LinuxServiceStatus, NativeError>(status)),
            Some(Err(message)) => outcome matches Some(Err(error)) && error.message@ == message,
        },
{
    match reply {
        SystemdReply::Value(state) => {
            if *state == "not-found".to_string() {
                Some(Ok(LinuxServiceStatus::NotInstalled))
            } else {
                None
            }
        },
        SystemdReply::MissingUnit => Some(Ok(LinuxServiceStatus::NotInstalled)),
        SystemdReply::Failed => Some(Err(NativeError::new("Read KokoroBox Service unit file"))),
    }
}

/// The second step, `GetUnit` followed by reading `ActiveState`: the unit
/// file exists, so a missing loaded unit means the service is stopped.
pub open spec fn unit_outcome(reply: SystemdReply) -> Result<LinuxServiceStatus, Seq<char>> {
    match reply {
        SystemdReply::Value(state) => Ok(status_of_active_state(state@)),
        SystemdReply::MissingUnit => Ok(LinuxServiceStatus::Stopped),
        SystemdReply::Failed => Err("Find KokoroBox Service unit"@),
    }
}

/// Decides the status from the loaded unit's `ActiveState` reply.
pub fn after_unit_state(reply: &SystemdReply) -> (outcome: Result<
    LinuxServiceStatus,
    NativeError,
>)
    ensures
        match unit_outcome(*reply) {
            Ok(status) => outcome == Ok::<LinuxServiceStatus, NativeError>(status),
            Err(message) => outcome matches Err(error) && error.message@ == message,
        },
{
    match reply {
        SystemdReply::Value(state) => Ok(status_from_active_state(state.as_str())),
        SystemdReply::MissingUnit => Ok(LinuxServiceStatus::Stopped),
        SystemdReply::Failed => Err(NativeError::new("Find KokoroBox Service unit")),
    }
}

/// The status of the service from the two systemd replies: the unit-file
/// state decides first, and only when it leaves the question open is the
/// loaded unit's state consulted.  Only Linux has the service.
pub fn get_linux_service_status(
    os: TargetOs,
    unit_file: &SystemdReply,
    unit: &SystemdReply,
) -> (result: Result<LinuxServiceStatus, NativeError>)
    ensures
        os != TargetOs::Linux ==> fails_with(
            result,
            "Linux Service status is unavailable on this platform"@,
        ),
        os == TargetOs::Linux ==> match unit_file_outcome(*unit_file) {
            Some(Ok(status)) => result == Ok::<LinuxServiceStatus, NativeError>(status),
            Some(Err(message)) => fails_with(result, message),
            None => match unit_outcome(*unit) {
                Ok(status) => result == Ok::<LinuxServiceStatus, NativeError>(status),
                Err(message) => fails_with(result, message),
            },
        },
{
    if os != TargetOs::Linux {
        return Err(NativeError::new("Linux Service status is unavailable on this platform"));
    }
    match after_unit_file_state(unit_file) {
        Some(outcome) => outcome,
        None => after_unit_state(unit),
    }
}

} // verus!
