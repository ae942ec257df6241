//! Status of the KokoroBox Windows service.
use vstd::prelude::*;
use crate::error::{NativeError, fails_with};

verus! {

#[derive(Debug, Clone, Copy, PartialEq, Eq, Structural)]
pub enum WindowsServiceStatus {
    Running,
    Stopped,
    Paused,
    NotInstalled,
    Unknown,
}

impl WindowsServiceStatus {
    pub fn as_str(self) -> (name: &'static str)
        ensures
            name@ == match self {
                WindowsServiceStatus::Running => "running"@,
                WindowsServiceStatus::Stopped => "stopped"@,
                WindowsServiceStatus::Paused => "paused"@,
                WindowsServiceStatus::NotInstalled => "not-installed"@,
                WindowsServiceStatus::Unknown => "unknown"@,
            },
    {
        match self {
            WindowsServiceStatus::Running => "running",
            WindowsServiceStatus::Stopped => "stopped",
            WindowsServiceStatus::Paused => "paused",
            WindowsServiceStatus::NotInstalled => "not-installed",
            WindowsServiceStatus::Unknown => "unknown",
        }
    }
}

/// `SERVICE_STOPPED` .. `SERVICE_PAUSED`, the `dwCurrentState` values of the
/// service control manager.
pub const SERVICE_STOPPED: u32 = 1;
pub const SERVICE_START_PENDING: u32 = 2;
pub const SERVICE_STOP_PENDING: u32 = 3;
pub const SERVICE_RUNNING: u32 = 4;
pub const SERVICE_CONTINUE_PENDING: u32 = 5;
pub const SERVICE_PAUSE_PENDING: u32 = 6;
pub const SERVICE_PAUSED: u32 = 7;

/// The status reported for a service control manager answer: `complete` says
/// whether the status structure came back whole, `current_state` is its
/// `dwCurrentState`.
pub open spec fn status_of_state(complete: bool, current_state: u32) -> WindowsServiceStatus {
    if !complete {
        WindowsServiceStatus::Unknown
    } else if current_state == SERVICE_RUNNING || current_state == SERVICE_START_PENDING {
        WindowsServiceStatus::Running
    } else if current_state == SERVICE_PAUSED || current_state == SERVICE_PAUSE_PENDING {
        WindowsServiceStatus::Paused
    } else if current_state == SERVICE_STOPPED {
        WindowsServiceStatus::Stopped
    } else {
        WindowsServiceStatus::Unknown
    }
}

/// Interprets a service control manager status query.
pub fn windows_service_status_from_state(complete: bool, current_state: u32) -> (status:
    WindowsServiceStatus)
    ensures
        status == status_of_state(complete, current_state),
{
    if !complete {
        WindowsServiceStatus::Unknown
    } else if current_state == SERVICE_RUNNING || current_state == SERVICE_START_PENDING {
        WindowsServiceStatus::Running
    } else if current_state == SERVICE_PAUSED || current_state == SERVICE_PAUSE_PENDING {
        WindowsServiceStatus::Paused
    } else if current_state == SERVICE_STOPPED {
        WindowsServiceStatus::Stopped
    } else {
        WindowsServiceStatus::Unknown
    }
}

/// The Win32 error `OpenServiceW` reports for a service that is not
/// installed.
pub const ERROR_SERVICE_DOES_NOT_EXIST: u32 = 1060;

/// The status of the KokoroBox service, or the message of the failure, from
/// what the service control manager answered: whether the manager could be
/// opened, how opening the service went (its Win32 error code on failure),
/// and the status query (`None` when it failed, else whether the status
/// structure came back whole and its `dwCurrentState`).
pub open spec fn service_status_spec(
    manager_opened: bool,
    open: Result<(), u32>,
    query: Option<(bool, u32)>,
) -> Result<WindowsServiceStatus, Seq<char>> {
    if !manager_opened {
        Err("OpenSCManagerW failed"@)
    } else {
        match open {
            Err(code) => if code == ERROR_SERVICE_DOES_NOT_EXIST {
                Ok(WindowsServiceStatus::NotInstalled)
            } else {
                Err("OpenServiceW failed"@)
            },
            Ok(()) => match query {
                None => Err("QueryServiceStatusEx failed"@),
                Some((complete, state)) => Ok(status_of_state(complete, state)),
            },
        }
    }
}

/// Decides the Windows service status from the service control manager's
/// answers: a missing service is not installed, other failures are errors,
/// and a queried state is mapped by `status_of_state`.
pub fn windows_service_status(
    manager_opened: bool,
    open: Result<(), u32>,
    query: Option<(bool, u32)>,
) -> (result: Result<WindowsServiceStatus, NativeError>)
    ensures
        match service_status_spec(manager_opened, open, query) {
            Ok(status) => result == Ok::<WindowsServiceStatus, NativeError>(status),
            Err(message) => fails_with(result, message),
        },
{
    if !manager_opened {
        return Err(NativeError::new("OpenSCManagerW failed"));
    }
    match open {
        Err(code) => {
            if code == ERROR_SERVICE_DOES_NOT_EXIST {
                Ok(WindowsServiceStatus::NotInstalled)
            } else {
                Err(NativeError::new("OpenServiceW failed"))
            }
        },
        Ok(()) => match query {
            None => Err(NativeError::new("QueryServiceStatusEx failed")),
            Some((complete, state)) => Ok(windows_service_status_from_state(complete, state)),
        },
    }
}

/// Outside Windows there is no Windows service to ask.
pub fn get_windows_service_status() -> (result: Result<WindowsServiceStatus, NativeError>)
    ensures
        fails_with(result, "Windows Service status is unavailable on this platform"@),
{
    Err(NativeError::new("Windows Service status is unavailable on this platform"))
}

} // verus!
