//! Launch at login and the network context: option validation, the XDG
//! autostart entry, the macOS login item rules, the Windows `Run` value and
//! its migration from scheduled tasks, and reading routes, DNS servers and
//! the Wi-Fi SSID from what the system reports.
use vstd::prelude::*;
use crate::TargetOs;
use crate::error::{NativeError, fails_with};
use crate::macos_service::MacOSManagedServiceStatus;
use crate::paths::{is_absolute, is_absolute_exec, join_path, joined_path};
use crate::text::{
    chars_of, decimal, escape, first_occurrence, find_occurrence, is_ascii_alnum,
    is_ascii_alnum_exec, is_white_space, is_white_space_exec, join, push_decimal, push_escaped,
    push_joined, push_str, push_signed_decimal, signed_decimal, string_of, string_views,
    table_view, trim, trim_exec, from_utf8_lossy, lossy_utf8,
};
use crate::windows::elevation::{command_line_text, quote_windows_arg, utf16, windows_quoted};
use crate::windows_paths::{win_is_absolute, win_is_absolute_exec};

verus! {

broadcast use vstd::string::group_string_axioms;

#[derive(Debug, Clone)]
pub struct LaunchAtLoginOptions {
    pub identifier: String,
    pub display_name: String,
    pub executable_path: String,
    pub arguments: Vec<String>,
}

#[derive(Debug, Clone)]
pub struct LaunchAtLoginStatus {
    pub enabled: bool,
    pub requires_approval: bool,
    pub backend: String,
}

#[derive(Debug, Clone)]
pub struct NetworkContext {
    pub default_interface: Option<String>,
    pub default_service: Option<String>,
    pub dns_servers: Vec<String>,
    pub ssid: Option<String>,
}

// ---------------------------------------------------------------------------
// Options
// ---------------------------------------------------------------------------
/// A character an identifier may hold.
pub open spec fn is_identifier_char(c: char) -> bool {
    is_ascii_alnum(c) || c == '.' || c == '_' || c == '-'
}

/// Absolute under the rules of `os`.
pub open spec fn is_absolute_on(path: Seq<char>, os: TargetOs) -> bool {
    if os == TargetOs::Windows {
        win_is_absolute(path)
    } else {
        is_absolute(path)
    }
}

/// The options are usable, or the message of the first rule they break: a
/// non-empty identifier of letters, digits, `.`, `_` and `-`; a display name
/// that is not blank; an absolute executable; arguments without NUL.
pub open spec fn options_check(options: LaunchAtLoginOptions, os: TargetOs) -> Result<(), Seq<char>> {
    let id = options.identifier@;
    if id.len() == 0 || exists|i: int| 0 <= i < id.len() && !is_identifier_char(#[trigger] id[i]) {
        Err("Launch-at-login identifier contains unsupported characters"@)
    } else if trim(options.display_name@).len() == 0 {
        Err("Launch-at-login display name is empty"@)
    } else if !is_absolute_on(options.executable_path@, os) {
        Err("Launch-at-login executable path must be absolute"@)
    } else if exists|i: int|
        0 <= i < options.arguments@.len() && (#[trigger] options.arguments@[i])@.contains('\0') {
        Err("Launch-at-login arguments must not contain NUL characters"@)
    } else {
        Ok(())
    }
}

/// Checks launch-at-login options for a build on `os`.
pub fn validate_options(options: &LaunchAtLoginOptions, os: TargetOs) -> (result: Result<
    (),
    NativeError,
>)
    ensures
        match options_check(*options, os) {
            Ok(()) => result is Ok,
            Err(message) => fails_with(result, message),
        },
{
    let id = chars_of(options.identifier.as_str());
    let mut ok = id.len() > 0;
    let mut i: usize = 0;
    while i < id.len()
        invariant
            i <= id.len(),
            id@ == options.identifier@,
            ok == (id@.len() > 0 && forall|j: int| 0 <= j < i ==> is_identifier_char(#[trigger] id@[j])),
        decreases id.len() - i,
    {
        let c = id[i];
        if !(is_ascii_alnum_exec(c) || c == '.' || c == '_' || c == '-') {
            ok = false;
        }
        i = i + 1;
    }
    if !ok {
        return Err(NativeError::new("Launch-at-login identifier contains unsupported characters"));
    }
    if trim_exec(&chars_of(options.display_name.as_str())).len() == 0 {
        return Err(NativeError::new("Launch-at-login display name is empty"));
    }
    let absolute = if os == TargetOs::Windows {
        win_is_absolute_exec(options.executable_path.as_str())
    } else {
        is_absolute_exec(options.executable_path.as_str())
    };
    if !absolute {
        return Err(NativeError::new("Launch-at-login executable path must be absolute"));
    }
    assert(!(options.identifier@.len() == 0 || exists|i: int|
        0 <= i < options.identifier@.len() && !is_identifier_char(#[trigger] options.identifier@[i])));
    let mut k: usize = 0;
    while k < options.arguments.len()
        invariant
            k <= options.arguments.len(),
            !(options.identifier@.len() == 0 || exists|i: int|
                0 <= i < options.identifier@.len() && !is_identifier_char(
                    #[trigger] options.identifier@[i],
                )),
            trim(options.display_name@).len() != 0,
            is_absolute_on(options.executable_path@, os),
            forall|j: int| 0 <= j < k ==> !(#[trigger] options.arguments@[j])@.contains('\0'),
        decreases options.arguments.len() - k,
    {
        if crate::text::contains_char(&chars_of(options.arguments[k].as_str()), '\0') {
            return Err(NativeError::new("Launch-at-login arguments must not contain NUL characters"));
        }
        k = k + 1;
    }
    Ok(())
}

// ---------------------------------------------------------------------------
// Linux: the XDG autostart entry
// ---------------------------------------------------------------------------
/// The autostart file: `$XDG_CONFIG_HOME`, else `$HOME/.config`, then
/// `autostart/<identifier>.desktop`.
pub open spec fn autostart_path_spec(
    config_home: Option<Seq<char>>,
    home: Option<Seq<char>>,
    identifier: Seq<char>,
) -> Result<Seq<char>, Seq<char>> {
    let base = match config_home {
        Some(c) => Some(c),
        None => match home {
            Some(h) => Some(joined_path(h, ".config"@)),
            None => None,
        },
    };
    match base {
        None => Err("Unable to determine XDG config directory"@),
        Some(b) => Ok(joined_path(joined_path(b, "autostart"@), identifier + ".desktop"@)),
    }
}

/// The optional string as a sequence.
pub open spec fn opt_str(value: Option<String>) -> Option<Seq<char>> {
    match value {
        Some(v) => Some(v@),
        None => None,
    }
}

/// Where the autostart entry lives.
pub fn autostart_path(config_home: &Option<String>, home: &Option<String>, identifier: &str) -> (result:
    Result<String, NativeError>)
    ensures
        match autostart_path_spec(opt_str(*config_home), opt_str(*home), identifier@) {
            Ok(path) => result matches Ok(p) && p@ == path,
            Err(message) => fails_with(result, message),
        },
{
    let base = match config_home {
        Some(c) => c.clone(),
        None => match home {
            Some(h) => join_path(h.as_str(), ".config"),
            None => {
                return Err(NativeError::new("Unable to determine XDG config directory"));
            },
        },
    };
    let dir = join_path(base.as_str(), "autostart");
    let mut name = chars_of(identifier);
    push_str(&mut name, ".desktop");
    Ok(join_path(dir.as_str(), string_of(&name).as_str()))
}

/// The temporary file the entry is written to before it replaces the entry:
/// the entry's path with `.<pid>.tmp` appended.
pub open spec fn temporary_path_spec(target: Seq<char>, process_id: u32) -> Seq<char> {
    target + "."@ + decimal(process_id as nat) + ".tmp"@
}

pub fn temporary_path(target: &str, process_id: u32) -> (path: String)
    ensures
        path@ == temporary_path_spec(target@, process_id),
{
    let mut out = chars_of(target);
    out.push('.');
    push_decimal(&mut out, process_id as u128);
    push_str(&mut out, ".tmp");
    proof {
        reveal_strlit(".");
    }
    assert(out@ =~= temporary_path_spec(target@, process_id));
    string_of(&out)
}

/// A character that makes an `Exec` argument need quotes.
pub open spec fn needs_desktop_quotes(c: char) -> bool {
    is_white_space(c) || c == '"' || c == '\\' || c == '$' || c == '`'
}

/// Inside quotes of an `Exec` line, backslash, quote, dollar and backtick
/// are escaped with a backslash.
pub open spec fn desktop_table() -> Seq<(char, Seq<char>)> {
    seq![('\\', "\\\\"@), ('"', "\\\""@), ('$', "\\$"@), ('`', "\\`"@)]
}

/// One `Exec` argument: unchanged when it needs no quotes, else quoted and
/// escaped.
pub open spec fn desktop_argument(arg: Seq<char>) -> Seq<char> {
    if !(exists|i: int| 0 <= i < arg.len() && needs_desktop_quotes(#[trigger] arg[i])) {
        arg
    } else {
        seq!['"'] + escape(arg, desktop_table()) + seq!['"']
    }
}

/// Quotes one argument for a desktop entry's `Exec` line.
pub fn desktop_exec_argument(argument: &str) -> (quoted: String)
    ensures
        quoted@ == desktop_argument(argument@),
{
    let chars = chars_of(argument);
    let mut needs = false;
    let mut i: usize = 0;
    while i < chars.len()
        invariant
            i <= chars.len(),
            chars@ == argument@,
            needs == (exists|j: int| 0 <= j < i && needs_desktop_quotes(#[trigger] chars@[j])),
        decreases chars.len() - i,
    {
        let c = chars[i];
        if is_white_space_exec(c) || c == '"' || c == '\\' || c == '$' || c == '`' {
            needs = true;
        }
        i = i + 1;
    }
    if !needs {
        return argument.to_string();
    }
    let table: Vec<(char, &str)> = vec![('\\', "\\\\"), ('"', "\\\""), ('$', "\\$"), ('`', "\\`")];
    assert(table_view(table@) =~= desktop_table());
    let mut out: Vec<char> = Vec::new();
    out.push('"');
    push_escaped(&mut out, &chars, &table);
    out.push('"');
    assert(out@ =~= desktop_argument(argument@));
    string_of(&out)
}

/// Every argument of the `Exec` line.
pub open spec fn desktop_arguments(args: Seq<Seq<char>>) -> Seq<Seq<char>> {
    args.map_values(|a: Seq<char>| desktop_argument(a))
}

/// The display name with each line feed turned into a space.
pub open spec fn one_line(name: Seq<char>) -> Seq<char> {
    name.map_values(|c: char| if c == '\n' { ' ' } else { c })
}

/// The autostart entry.
pub open spec fn desktop_entry_text(options: LaunchAtLoginOptions) -> Seq<char> {
    let exec = join(
        desktop_arguments(seq![options.executable_path@] + string_views(options.arguments@)),
        " "@,
    );
    "[Desktop Entry]\nVersion=1.0\nType=Application\nName="@ + one_line(options.display_name@)
        + "\nExec="@ + exec + "\nTerminal=false\nX-GNOME-Autostart-enabled=true\n"@
}

/// Writes the autostart entry for the options.
pub fn desktop_entry(options: &LaunchAtLoginOptions) -> (entry: String)
    ensures
        entry@ == desktop_entry_text(*options),
{
    let ghost all = seq![options.executable_path@] + string_views(options.arguments@);
    let mut words: Vec<String> = Vec::new();
    words.push(desktop_exec_argument(options.executable_path.as_str()));
    let mut i: usize = 0;
    while i < options.arguments.len()
        invariant
            i <= options.arguments.len(),
            all == seq![options.executable_path@] + string_views(options.arguments@),
            string_views(words@) == desktop_arguments(all.take(i + 1)),
        decreases options.arguments.len() - i,
    {
        let ghost before = words@;
        let q = desktop_exec_argument(options.arguments[i].as_str());
        words.push(q);
        proof {
            assert(all.take(i + 2) =~= all.take(i + 1).push(all[i + 1]));
            assert(all[i + 1] == options.arguments@[i as int]@);
            assert(string_views(words@) =~= string_views(before).push(q@));
            assert(desktop_arguments(all.take(i + 2)) =~= desktop_arguments(all.take(i + 1)).push(
                desktop_argument(all[i + 1]),
            ));
        }
        i = i + 1;
    }
    assert(all.take(options.arguments.len() + 1) =~= all);
    let mut out: Vec<char> = Vec::new();
    push_str(&mut out, "[Desktop Entry]\nVersion=1.0\nType=Application\nName=");
    let name = chars_of(options.display_name.as_str());
    let ghost before_name = out@;
    let mut k: usize = 0;
    while k < name.len()
        invariant
            k <= name.len(),
            name@ == options.display_name@,
            out@ == before_name + one_line(name@.take(k as int)),
        decreases name.len() - k,
    {
        let c = if name[k] == '\n' {
            ' '
        } else {
            name[k]
        };
        out.push(c);
        assert(one_line(name@.take(k + 1)) =~= one_line(name@.take(k as int)).push(c));
        k = k + 1;
    }
    assert(name@.take(name.len() as int) =~= name@);
    push_str(&mut out, "\nExec=");
    push_joined(&mut out, &words, " ");
    push_str(&mut out, "\nTerminal=false\nX-GNOME-Autostart-enabled=true\n");
    assert(out@ =~= desktop_entry_text(*options));
    string_of(&out)
}

// ---------------------------------------------------------------------------
// macOS: the main-app login item
// ---------------------------------------------------------------------------
/// The application bundle that holds the executable: the path up to and
/// including the first `.app`.
pub open spec fn application_path_spec(executable_path: Seq<char>) -> Result<Seq<char>, Seq<char>> {
    match first_occurrence(executable_path, ".app"@) {
        None => Err("macOS login items require an application bundle path"@),
        Some(i) => Ok(executable_path.subrange(0, i + 4)),
    }
}

/// The application bundle that holds the executable.
pub fn mac_application_path(executable_path: &str) -> (result: Result<String, NativeError>)
    ensures
        match application_path_spec(executable_path@) {
            Ok(path) => result matches Ok(p) && p@ == path,
            Err(message) => fails_with(result, message),
        },
{
    let chars = chars_of(executable_path);
    let marker = chars_of(".app");
    proof {
        reveal_strlit(".app");
    }
    assert(marker@.len() == 4);
    match find_occurrence(&chars, &marker) {
        None => Err(NativeError::new("macOS login items require an application bundle path")),
        Some(i) => {
            assert(crate::text::occurs_at(chars@, marker@, i as int));
            assert(i + marker@.len() <= chars@.len());
            assert(i as int + marker.len() as int <= chars.len() as int);
            let end = i + marker.len();
            Ok(string_of(&crate::text::sub_chars(&chars, 0, end)))
        },
    }
}

/// The main app can be its own login item when it runs from a bundle and
/// takes no arguments.
pub open spec fn main_app_check(options: LaunchAtLoginOptions) -> Result<(), Seq<char>> {
    match application_path_spec(options.executable_path@) {
        Err(message) => Err(message),
        Ok(_) => if options.arguments@.len() > 0 {
            Err("macOS main-app launch at login does not support command-line arguments"@)
        } else {
            Ok(())
        },
    }
}

pub fn mac_main_app_service(options: &LaunchAtLoginOptions) -> (result: Result<(), NativeError>)
    ensures
        match main_app_check(*options) {
            Ok(()) => result is Ok,
            Err(message) => fails_with(result, message),
        },
{
    match mac_application_path(options.executable_path.as_str()) {
        Err(error) => {
            return Err(error);
        },
        Ok(_) => {},
    }
    if options.arguments.len() > 0 {
        return Err(
            NativeError::new("macOS main-app launch at login does not support command-line arguments"),
        );
    }
    Ok(())
}

/// What changing the login item takes.
#[derive(Debug, Clone, Copy, PartialEq, Eq, Structural)]
pub enum LoginItemChange {
    Register,
    Unregister,
    Keep,
}

/// Whether a status means the item is not registered.
pub open spec fn is_unregistered(status: MacOSManagedServiceStatus) -> bool {
    status == MacOSManagedServiceStatus::NotRegistered || status
        == MacOSManagedServiceStatus::NotFound
}

/// Registers when enabling an item that is not registered, unregisters when
/// disabling one that is, and otherwise leaves it.
pub fn login_item_change(status: MacOSManagedServiceStatus, enabled: bool) -> (change: LoginItemChange)
    ensures
        change == if enabled && is_unregistered(status) {
            LoginItemChange::Register
        } else if !enabled && !is_unregistered(status) {
            LoginItemChange::Unregister
        } else {
            LoginItemChange::Keep
        },
{
    let unregistered = match status {
        MacOSManagedServiceStatus::NotRegistered => true,
        MacOSManagedServiceStatus::NotFound => true,
        _ => false,
    };
    if enabled && unregistered {
        LoginItemChange::Register
    } else if !enabled && !unregistered {
        LoginItemChange::Unregister
    } else {
        LoginItemChange::Keep
    }
}

// ---------------------------------------------------------------------------
// Windows: the current user's Run value
// ---------------------------------------------------------------------------
/// The registry key of per-user startup programs.
pub const WINDOWS_RUN_KEY: &'static str = "Software\\Microsoft\\Windows\\CurrentVersion\\Run";

/// Quotes one argument of the `Run` command.
pub fn quote_windows_command_argument(argument: &str) -> (quoted: String)
    ensures
        quoted@ == windows_quoted(argument@),
{
    quote_windows_arg(argument)
}

/// The `Run` value: the executable and its arguments, each quoted.
pub fn windows_run_value(options: &LaunchAtLoginOptions) -> (value: String)
    ensures
        value@ == command_line_text(options.executable_path@, string_views(options.arguments@)),
{
    let text = crate::windows::elevation::parameters(&options.arguments);
    let exe = quote_windows_arg(options.executable_path.as_str());
    let mut out = chars_of(exe.as_str());
    let ghost args = string_views(options.arguments@);
    if options.arguments.len() > 0 {
        out.push(' ');
        push_str(&mut out, text.as_str());
    }
    proof {
        let q = crate::windows::elevation::quoted_arguments(args);
        crate::text::lemma_join_front(windows_quoted(options.executable_path@), q, " "@);
        reveal_strlit(" ");
    }
    assert(out@ =~= command_line_text(options.executable_path@, args));
    string_of(&out)
}

/// Little-endian bytes of UTF-16 code units.
pub open spec fn le_bytes(units: Seq<u16>) -> Seq<u8>
    decreases units.len(),
{
    if units.len() == 0 {
        seq![]
    } else {
        le_bytes(units.drop_last()) + seq![
            (units.last() % 256) as u8,
            (units.last() / 256) as u8,
        ]
    }
}

/// The bytes stored as the `REG_SZ` value: the command as NUL-terminated
/// UTF-16, little-endian.
pub fn windows_run_value_bytes(options: &LaunchAtLoginOptions) -> (bytes: Vec<u8>)
    ensures
        bytes@ == le_bytes(
            utf16(command_line_text(options.executable_path@, string_views(options.arguments@))).push(
                0u16,
            ),
        ),
{
    let value = windows_run_value(options);
    let wide = crate::windows::elevation::to_wide_null(value.as_str());
    let mut bytes: Vec<u8> = Vec::new();
    let mut i: usize = 0;
    while i < wide.len()
        invariant
            i <= wide.len(),
            bytes@ == le_bytes(wide@.take(i as int)),
        decreases wide.len() - i,
    {
        let u = wide[i];
        bytes.push((u % 256) as u8);
        bytes.push((u / 256) as u8);
        assert(wide@.take(i + 1).drop_last() =~= wide@.take(i as int));
        assert(bytes@ =~= le_bytes(wide@.take(i + 1)));
        i = i + 1;
    }
    assert(wide@.take(wide.len() as int) =~= wide@);
    bytes
}

/// The `schtasks.exe` arguments that delete a legacy task.
pub fn delete_windows_task_arguments(identifier: &str) -> (arguments: Vec<String>)
    ensures
        string_views(arguments@) == seq!["/delete"@, "/tn"@, identifier@, "/f"@],
{
    let arguments: Vec<String> = vec![
        "/delete".to_string(),
        "/tn".to_string(),
        identifier.to_string(),
        "/f".to_string(),
    ];
    assert(string_views(arguments@) =~= seq!["/delete"@, "/tn"@, identifier@, "/f"@]);
    arguments
}

/// The `schtasks.exe` arguments that ask whether a legacy task exists.
pub fn query_windows_task_arguments(identifier: &str) -> (arguments: Vec<String>)
    ensures
        string_views(arguments@) == seq!["/query"@, "/tn"@, identifier@],
{
    let arguments: Vec<String> = vec!["/query".to_string(), "/tn".to_string(), identifier.to_string()];
    assert(string_views(arguments@) =~= seq!["/query"@, "/tn"@, identifier@]);
    arguments
}

/// The error for a task command that failed.
pub open spec fn task_error_text(operation: Seq<char>, exit_code: Option<i32>) -> Seq<char> {
    let code = match exit_code {
        Some(c) => signed_decimal(c as int),
        None => "unknown"@,
    };
    "Unable to "@ + operation + " launch-at-login task (exit code: "@ + code + ")"@
}

pub fn task_command_error(operation: &str, exit_code: Option<i32>) -> (error: NativeError)
    ensures
        error.message@ == task_error_text(operation@, exit_code),
{
    let mut out: Vec<char> = Vec::new();
    push_str(&mut out, "Unable to ");
    push_str(&mut out, operation);
    push_str(&mut out, " launch-at-login task (exit code: ");
    match exit_code {
        Some(c) => push_signed_decimal(&mut out, c as i64),
        None => push_str(&mut out, "unknown"),
    }
    push_str(&mut out, ")");
    assert(out@ =~= task_error_text(operation@, exit_code));
    NativeError { message: string_of(&out) }
}

/// The error for an elevated task command that failed.
pub fn elevated_task_command_error(operation: &str, exit_code: u32) -> (error: NativeError)
    ensures
        error.message@ == "Unable to "@ + operation@ + " legacy launch-at-login task (exit code: "@
            + decimal(exit_code as nat) + ")"@,
{
    let mut out: Vec<char> = Vec::new();
    push_str(&mut out, "Unable to ");
    push_str(&mut out, operation);
    push_str(&mut out, " legacy launch-at-login task (exit code: ");
    push_decimal(&mut out, exit_code as u128);
    push_str(&mut out, ")");
    NativeError { message: string_of(&out) }
}

/// One step of changing launch at login on Windows.
#[derive(Debug, Clone, PartialEq, Eq)]
pub enum WindowsLaunchStep {
    /// Delete the `Run` value (a missing value is no error).
    DeleteRunValue,
    /// Delete the legacy task; when that fails, delete it elevated, reporting
    /// a failure under `fallback_operation`.
    DeleteLegacyTask { fallback_operation: String },
    /// Write the `Run` value.
    SetRunValue,
}

/// The steps, given whether a legacy scheduled task exists: disabling
/// deletes the value and then any task; enabling first migrates away from
/// the task, then writes the value.
pub open spec fn windows_steps_spec(enabled: bool, task_exists: bool) -> Seq<(int, Seq<char>)> {
    if !enabled {
        if task_exists {
            seq![(0, seq![]), (1, "delete"@)]
        } else {
            seq![(0, seq![])]
        }
    } else if task_exists {
        seq![(1, "migrate"@), (2, seq![])]
    } else {
        seq![(2, seq![])]
    }
}

/// A step as a number and its fallback operation.
pub open spec fn step_view(step: WindowsLaunchStep) -> (int, Seq<char>) {
    match step {
        WindowsLaunchStep::DeleteRunValue => (0, seq![]),
        WindowsLaunchStep::DeleteLegacyTask { fallback_operation } => (1, fallback_operation@),
        WindowsLaunchStep::SetRunValue => (2, seq![]),
    }
}

pub fn windows_launch_steps(enabled: bool, task_exists: bool) -> (steps: Vec<WindowsLaunchStep>)
    ensures
        steps@.map_values(|s: WindowsLaunchStep| step_view(s)) == windows_steps_spec(enabled, task_exists),
{
    let mut steps: Vec<WindowsLaunchStep> = Vec::new();
    if !enabled {
        steps.push(WindowsLaunchStep::DeleteRunValue);
        if task_exists {
            steps.push(WindowsLaunchStep::DeleteLegacyTask { fallback_operation: "delete".to_string() });
        }
    } else {
        if task_exists {
            steps.push(WindowsLaunchStep::DeleteLegacyTask { fallback_operation: "migrate".to_string() });
        }
        steps.push(WindowsLaunchStep::SetRunValue);
    }
    assert(steps@.map_values(|s: WindowsLaunchStep| step_view(s)) =~= windows_steps_spec(
        enabled,
        task_exists,
    ));
    steps
}

// ---------------------------------------------------------------------------
// The operations
// ---------------------------------------------------------------------------
/// How launch at login is kept on a system.
#[derive(Debug, Clone, PartialEq, Eq)]
pub enum LaunchAtLoginBackend {
    /// An XDG autostart entry at this path.
    LinuxAutostart { path: String },
    /// The application's own login item.
    MacosMainApp,
    /// The current user's `Run` value.
    WindowsRun,
}

/// The backend's name as reported in the status.
pub open spec fn backend_name(backend: LaunchAtLoginBackend) -> Seq<char> {
    match backend {
        LaunchAtLoginBackend::LinuxAutostart { .. } => "linux-xdg-autostart"@,
        LaunchAtLoginBackend::MacosMainApp => "macos-sm-app-service"@,
        LaunchAtLoginBackend::WindowsRun => "windows-current-user-run"@,
    }
}

/// The backend for the options on `os`, or the message of the first rule
/// broken.
pub open spec fn backend_spec(
    options: LaunchAtLoginOptions,
    os: TargetOs,
    config_home: Option<Seq<char>>,
    home: Option<Seq<char>>,
) -> Result<Option<Seq<char>>, Seq<char>> {
    match options_check(options, os) {
        Err(m) => Err(m),
        Ok(()) => match os {
            TargetOs::Linux => match autostart_path_spec(config_home, home, options.identifier@) {
                Err(m) => Err(m),
                Ok(p) => Ok(Some(p)),
            },
            TargetOs::Macos => match main_app_check(options) {
                Err(m) => Err(m),
                Ok(()) => Ok(None),
            },
            TargetOs::Windows => Ok(None),
            TargetOs::Other => Err("Launch-at-login is unsupported on this platform"@),
        },
    }
}

/// The backend matches what `backend_spec` gives for `os`.
pub open spec fn backend_matches(
    result: Result<LaunchAtLoginBackend, NativeError>,
    spec: Result<Option<Seq<char>>, Seq<char>>,
    os: TargetOs,
) -> bool {
    match spec {
        Err(m) => fails_with(result, m),
        Ok(path) => match result {
            Ok(LaunchAtLoginBackend::LinuxAutostart { path: p }) => os == TargetOs::Linux && path
                == Some(p@),
            Ok(LaunchAtLoginBackend::MacosMainApp) => os == TargetOs::Macos,
            Ok(LaunchAtLoginBackend::WindowsRun) => os == TargetOs::Windows,
            Err(_) => false,
        },
    }
}

fn backend_for(
    options: &LaunchAtLoginOptions,
    os: TargetOs,
    config_home: &Option<String>,
    home: &Option<String>,
) -> (result: Result<LaunchAtLoginBackend, NativeError>)
    ensures
        backend_matches(result, backend_spec(*options, os, opt_str(*config_home), opt_str(*home)), os),
{
    match validate_options(options, os) {
        Err(e) => {
            return Err(e);
        },
        Ok(()) => {},
    }
    match os {
        TargetOs::Linux => match autostart_path(config_home, home, options.identifier.as_str()) {
            Err(e) => Err(e),
            Ok(path) => Ok(LaunchAtLoginBackend::LinuxAutostart { path }),
        },
        TargetOs::Macos => match mac_main_app_service(options) {
            Err(e) => Err(e),
            Ok(()) => Ok(LaunchAtLoginBackend::MacosMainApp),
        },
        TargetOs::Windows => Ok(LaunchAtLoginBackend::WindowsRun),
        TargetOs::Other => Err(NativeError::new("Launch-at-login is unsupported on this platform")),
    }
}

/// Decides where launch at login is read from on `os` (the caller then asks
/// that backend whether the entry exists, and builds the status with
/// `launch_at_login_status`).
pub fn get_launch_at_login(
    options: &LaunchAtLoginOptions,
    os: TargetOs,
    config_home: &Option<String>,
    home: &Option<String>,
) -> (result: Result<LaunchAtLoginBackend, NativeError>)
    ensures
        backend_matches(result, backend_spec(*options, os, opt_str(*config_home), opt_str(*home)), os),
{
    backend_for(options, os, config_home, home)
}

/// What setting launch at login takes on a backend.
#[derive(Debug, Clone)]
pub enum LaunchAtLoginChange {
    /// Write `content` to `temporary`, then rename it over `path`.
    WriteAutostart { path: String, temporary: String, content: String },
    /// Remove the entry at `path` if it exists.
    RemoveAutostart { path: String },
    /// Read the login item's status, then apply `login_item_change`.
    MacosLoginItem { enabled: bool },
    /// Check for a legacy task, then run `windows_launch_steps`.
    WindowsRun { enabled: bool },
}

/// The autostart entry after a change is applied to `before` (the entry's
/// text, `None` when it does not exist); changes of other backends leave it.
pub open spec fn entry_after_change(change: LaunchAtLoginChange, before: Option<Seq<char>>) -> Option<
    Seq<char>,
> {
    match change {
        LaunchAtLoginChange::WriteAutostart { content, .. } => Some(content@),
        LaunchAtLoginChange::RemoveAutostart { .. } => None,
        _ => before,
    }
}

/// The Linux autostart entry after setting launch at login: the desktop
/// entry when enabled, nothing otherwise, whatever was there before.
pub open spec fn linux_entry_after(options: LaunchAtLoginOptions, enabled: bool) -> Option<Seq<char>> {
    if enabled {
        Some(desktop_entry_text(options))
    } else {
        None
    }
}

/// On Linux, setting launch at login leaves the entry present exactly when
/// enabled, holding the desktop entry; setting it again changes nothing; and
/// the status read back from that entry (at the autostart `path` that
/// getting and setting both use) reports what was set.
pub proof fn linux_setting_is_idempotent(
    options: LaunchAtLoginOptions,
    enabled: bool,
    change: LaunchAtLoginChange,
    before: Option<Seq<char>>,
    path: String,
    login_item: MacOSManagedServiceStatus,
)
    requires
        forall|b: Option<Seq<char>>| #[trigger] entry_after_change(change, b) == linux_entry_after(options, enabled),
    ensures
        entry_after_change(change, before) == linux_entry_after(options, enabled),
        entry_after_change(change, entry_after_change(change, before)) == entry_after_change(
            change,
            before,
        ),
        (entry_after_change(change, before) is Some) == enabled,
        status_spec(
            LaunchAtLoginBackend::LinuxAutostart { path },
            entry_after_change(change, before) is Some,
            login_item,
        ) == (enabled, false, "linux-xdg-autostart"@),
{
    assert(entry_after_change(change, before) == linux_entry_after(options, enabled));
    assert(entry_after_change(change, entry_after_change(change, before)) == linux_entry_after(
        options,
        enabled,
    ));
}

/// Decides how launch at login is set on `os`; `process_id` names the
/// temporary autostart file.
pub fn set_launch_at_login(
    options: &LaunchAtLoginOptions,
    enabled: bool,
    os: TargetOs,
    config_home: &Option<String>,
    home: &Option<String>,
    process_id: u32,
) -> (result: Result<LaunchAtLoginChange, NativeError>)
    ensures
        match backend_spec(*options, os, opt_str(*config_home), opt_str(*home)) {
            Err(m) => fails_with(result, m),
            Ok(path) => match result {
                Ok(LaunchAtLoginChange::WriteAutostart { path: p, temporary, content }) => {
                    &&& os == TargetOs::Linux
                    &&& enabled
                    &&& path == Some(p@)
                    &&& temporary@ == temporary_path_spec(p@, process_id)
                    &&& content@ == desktop_entry_text(*options)
                },
                Ok(LaunchAtLoginChange::RemoveAutostart { path: p }) => os == TargetOs::Linux
                    && !enabled && path == Some(p@),
                Ok(LaunchAtLoginChange::MacosLoginItem { enabled: e }) => os == TargetOs::Macos && e
                    == enabled,
                Ok(LaunchAtLoginChange::WindowsRun { enabled: e }) => os == TargetOs::Windows && e
                    == enabled,
                Err(_) => false,
            },
        },
        os == TargetOs::Linux && result is Ok ==> forall|before: Option<Seq<char>>|
            #[trigger] entry_after_change(result->Ok_0, before) == linux_entry_after(
                *options,
                enabled,
            ),
{
    match backend_for(options, os, config_home, home) {
        Err(e) => Err(e),
        Ok(LaunchAtLoginBackend::LinuxAutostart { path }) => {
            if enabled {
                let temporary = temporary_path(path.as_str(), process_id);
                Ok(
                    LaunchAtLoginChange::WriteAutostart {
                        path,
                        temporary,
                        content: desktop_entry(options),
                    },
                )
            } else {
                Ok(LaunchAtLoginChange::RemoveAutostart { path })
            }
        },
        Ok(LaunchAtLoginBackend::MacosMainApp) => Ok(LaunchAtLoginChange::MacosLoginItem { enabled }),
        Ok(LaunchAtLoginBackend::WindowsRun) => Ok(LaunchAtLoginChange::WindowsRun { enabled }),
    }
}

/// The status a backend reports, as (enabled, requires approval, backend
/// name): the login item's own status on macOS, elsewhere whether the entry
/// exists.
pub open spec fn status_spec(
    backend: LaunchAtLoginBackend,
    entry_exists: bool,
    login_item: MacOSManagedServiceStatus,
) -> (bool, bool, Seq<char>) {
    match backend {
        LaunchAtLoginBackend::MacosMainApp => (
            login_item == MacOSManagedServiceStatus::Enabled,
            login_item == MacOSManagedServiceStatus::RequiresApproval,
            backend_name(backend),
        ),
        _ => (entry_exists, false, backend_name(backend)),
    }
}

/// The status a backend reports: for the login item, `enabled` and
/// `requires_approval` come from its status; elsewhere `enabled` is whether
/// the entry exists and no approval is ever required.
pub fn launch_at_login_status(
    backend: &LaunchAtLoginBackend,
    entry_exists: bool,
    login_item: MacOSManagedServiceStatus,
) -> (status: LaunchAtLoginStatus)
    ensures
        (status.enabled, status.requires_approval, status.backend@) == status_spec(
            *backend,
            entry_exists,
            login_item,
        ),
        status.backend@ == backend_name(*backend),
        match backend {
            LaunchAtLoginBackend::MacosMainApp => status.enabled == (login_item
                == MacOSManagedServiceStatus::Enabled) && status.requires_approval == (login_item
                == MacOSManagedServiceStatus::RequiresApproval),
            _ => status.enabled == entry_exists && !status.requires_approval,
        },
{
    match backend {
        LaunchAtLoginBackend::LinuxAutostart { .. } => LaunchAtLoginStatus {
            enabled: entry_exists,
            requires_approval: false,
            backend: "linux-xdg-autostart".to_string(),
        },
        LaunchAtLoginBackend::MacosMainApp => LaunchAtLoginStatus {
            enabled: login_item == MacOSManagedServiceStatus::Enabled,
            requires_approval: login_item == MacOSManagedServiceStatus::RequiresApproval,
            backend: "macos-sm-app-service".to_string(),
        },
        LaunchAtLoginBackend::WindowsRun => LaunchAtLoginStatus {
            enabled: entry_exists,
            requires_approval: false,
            backend: "windows-current-user-run".to_string(),
        },
    }
}

} // verus!

verus! {

// ---------------------------------------------------------------------------
// Network context: Linux
// ---------------------------------------------------------------------------
/// The value of a hexadecimal digit.
pub open spec fn hex_digit_value(c: char) -> int {
    if '0' <= c <= '9' {
        c as int - '0' as int
    } else if 'a' <= c <= 'f' {
        c as int - 'a' as int + 10
    } else {
        c as int - 'A' as int + 10
    }
}

/// A hexadecimal digit.
pub open spec fn is_hex_digit(c: char) -> bool {
    ('0' <= c <= '9') || ('a' <= c <= 'f') || ('A' <= c <= 'F')
}

/// The number the digits spell.
pub open spec fn hex_value(digits: Seq<char>) -> int
    decreases digits.len(),
{
    if digits.len() == 0 {
        0
    } else {
        16 * hex_value(digits.drop_last()) + hex_digit_value(digits.last())
    }
}

/// The digits of a hexadecimal number: all but a leading `+`.
pub open spec fn hex_digits_part(s: Seq<char>) -> Seq<char> {
    if s.len() > 0 && s[0] == '+' {
        s.drop_first()
    } else {
        s
    }
}

/// `u32::from_str_radix(s, 16)`: an optional `+`, then at least one
/// hexadecimal digit, for a value that fits in 32 bits.
pub open spec fn parse_hex_u32(s: Seq<char>) -> Option<u32> {
    let digits = hex_digits_part(s);
    if digits.len() == 0 || exists|i: int| 0 <= i < digits.len() && !is_hex_digit(#[trigger] digits[i]) {
        None
    } else if hex_value(digits) > 0xFFFF_FFFF {
        None
    } else {
        Some(hex_value(digits) as u32)
    }
}

proof fn lemma_hex_value_nonnegative(digits: Seq<char>)
    requires
        forall|i: int| 0 <= i < digits.len() ==> is_hex_digit(#[trigger] digits[i]),
    ensures
        hex_value(digits) >= 0,
    decreases digits.len(),
{
    if digits.len() > 0 {
        assert forall|i: int| 0 <= i < digits.drop_last().len() implies is_hex_digit(#[trigger] digits.drop_last()[i]) by {
            assert(digits.drop_last()[i] == digits[i]);
        }
        lemma_hex_value_nonnegative(digits.drop_last());
    }
}

/// Parses a hexadecimal `u32`.
pub fn parse_hex_u32_exec(s: &Vec<char>) -> (value: Option<u32>)
    ensures
        value == parse_hex_u32(s@),
{
    let start: usize = if s.len() > 0 && s[0] == '+' {
        1
    } else {
        0
    };
    let ghost digits = s@.subrange(start as int, s.len() as int);
    assert(digits =~= hex_digits_part(s@));
    if start == s.len() {
        return None;
    }
    let mut value: u64 = 0;
    let mut overflow = false;
    let mut i: usize = start;
    while i < s.len()
        invariant
            start <= i <= s.len(),
            digits == s@.subrange(start as int, s.len() as int),
            digits == hex_digits_part(s@),
            digits.len() > 0,
            forall|j: int| 0 <= j < i - start ==> is_hex_digit(#[trigger] digits[j]),
            !overflow ==> value as int == hex_value(digits.take(i - start)) && value <= 0xFFFF_FFFF,
            overflow ==> hex_value(digits.take(i - start)) > 0xFFFF_FFFF,
        decreases s.len() - i,
    {
        let c = s[i];
        let ghost k = i - start;
        assert(digits[k] == c);
        assert(digits.take(k + 1).drop_last() =~= digits.take(k));
        assert(digits.take(k + 1).last() == c);
        let d: u64 = if '0' <= c && c <= '9' {
            (c as u64) - ('0' as u64)
        } else if 'a' <= c && c <= 'f' {
            (c as u64) - ('a' as u64) + 10
        } else if 'A' <= c && c <= 'F' {
            (c as u64) - ('A' as u64) + 10
        } else {
            assert(!is_hex_digit(digits[k]));
            assert(0 <= k < digits.len());
            assert(!is_hex_digit(hex_digits_part(s@)[k]));
            return None;
        };
        assert(d as int == hex_digit_value(c));
        proof {
            assert forall|j: int| 0 <= j < k + 1 implies is_hex_digit(#[trigger] digits[j]) by {}
            lemma_hex_value_nonnegative(digits.take(k));
        }
        if !overflow {
            let next = value * 16 + d;
            if next > 0xFFFF_FFFF {
                overflow = true;
            } else {
                value = next;
            }
        }
        i = i + 1;
    }
    assert(digits.take(s.len() - start) =~= digits);
    if overflow {
        None
    } else {
        Some(value as u32)
    }
}

/// A route line is the default route when its destination is `00000000`
/// and its flags mark it as up through a gateway (bit `0x2`).
pub open spec fn is_default_route(line: Seq<char>) -> bool {
    let columns = crate::text::words_of(line);
    columns.len() > 3 && columns[1] == "00000000"@ && (parse_hex_u32(columns[3]) matches Some(
        flags,
    ) && flags & 2 != 0)
}

/// The interface of the first default route among the lines.
pub open spec fn first_default_route(lines: Seq<Seq<char>>) -> Option<Seq<char>>
    decreases lines.len(),
{
    if lines.len() == 0 {
        None
    } else if is_default_route(lines[0]) {
        Some(crate::text::words_of(lines[0])[0])
    } else {
        first_default_route(lines.drop_first())
    }
}

/// The default interface from `/proc/net/route`: the first default route
/// after the header line.
pub open spec fn default_interface_spec(routes: Seq<char>) -> Option<Seq<char>> {
    let lines = crate::text::lines_of(routes);
    if lines.len() <= 1 {
        None
    } else {
        first_default_route(lines.drop_first())
    }
}

fn is_default_route_exec(line: &Vec<char>) -> (default: bool)
    ensures
        default == is_default_route(line@),
{
    let columns = crate::text::words_exec(line);
    if columns.len() <= 3 {
        return false;
    }
    let zeros = chars_of("00000000");
    if !crate::paths::chars_equal(&columns[1], &zeros) {
        return false;
    }
    match parse_hex_u32_exec(&columns[3]) {
        Some(flags) => flags & 2 != 0,
        None => false,
    }
}

/// Reads the default interface from the route table.
pub fn default_interface(routes: &str) -> (interface: Option<String>)
    ensures
        opt_str(interface) == default_interface_spec(routes@),
{
    let lines = crate::text::lines_exec(&chars_of(routes));
    let ghost views = crate::text::vec_views(lines@);
    if lines.len() <= 1 {
        return None;
    }
    let mut i: usize = 1;
    assert(views.drop_first().skip(0) =~= views.drop_first());
    while i < lines.len()
        invariant
            1 <= i <= lines.len(),
            views == crate::text::vec_views(lines@),
            views == crate::text::lines_of(routes@),
            first_default_route(views.drop_first()) == first_default_route(views.skip(i as int)),
        decreases lines.len() - i,
    {
        let ghost rest = views.skip(i as int);
        assert(rest[0] == lines@[i as int]@);
        assert(rest.drop_first() =~= views.skip(i + 1));
        if is_default_route_exec(&lines[i]) {
            let columns = crate::text::words_exec(&lines[i]);
            return Some(string_of(&columns[0]));
        }
        i = i + 1;
    }
    assert(views.skip(i as int).len() == 0);
    None
}

/// The `nameserver` entries of `/etc/resolv.conf`, in file order.
pub open spec fn nameserver_entries(lines: Seq<Seq<char>>) -> Seq<Seq<char>>
    decreases lines.len(),
{
    if lines.len() == 0 {
        seq![]
    } else {
        let before = nameserver_entries(lines.drop_last());
        let w = crate::text::words_of(lines.last());
        if w.len() >= 2 && w[0] == "nameserver"@ {
            before.push(w[1])
        } else {
            before
        }
    }
}

/// The DNS servers of `/etc/resolv.conf`: every `nameserver` entry, sorted
/// and without duplicates.
pub open spec fn resolv_conf_servers_spec(content: Seq<char>) -> Seq<Seq<char>> {
    crate::text::sorted_unique(nameserver_entries(crate::text::lines_of(content)))
}

pub fn resolv_conf_dns_servers(content: &str) -> (servers: Vec<String>)
    ensures
        string_views(servers@) == resolv_conf_servers_spec(content@),
{
    let lines = crate::text::lines_exec(&chars_of(content));
    let ghost views = crate::text::vec_views(lines@);
    let keyword = chars_of("nameserver");
    let mut entries: Vec<String> = Vec::new();
    let mut i: usize = 0;
    assert(views.take(0) =~= Seq::<Seq<char>>::empty());
    while i < lines.len()
        invariant
            i <= lines.len(),
            views == crate::text::vec_views(lines@),
            keyword@ == "nameserver"@,
            string_views(entries@) == nameserver_entries(views.take(i as int)),
        decreases lines.len() - i,
    {
        assert(views.take(i + 1).drop_last() =~= views.take(i as int));
        assert(views.take(i + 1).last() == lines@[i as int]@);
        let w = crate::text::words_exec(&lines[i]);
        if w.len() >= 2 && crate::paths::chars_equal(&w[0], &keyword) {
            let ghost before = entries@;
            let server = string_of(&w[1]);
            entries.push(server);
            assert(string_views(entries@) =~= string_views(before).push(w@[1]@));
        }
        i = i + 1;
    }
    assert(views.take(lines.len() as int) =~= views);
    crate::text::sort_unique(&entries)
}

/// The words `resolvectl dns <interface>` prints after its first colon.
pub open spec fn resolvectl_candidates_spec(output: Seq<char>) -> Seq<Seq<char>> {
    match crate::text::first_index_of(output, ':') {
        None => seq![],
        Some(k) => crate::text::words_of(output.subrange(k + 1, output.len() as int)),
    }
}

/// The candidate servers in `resolvectl` output (each still to be checked
/// as an IP address).
pub fn resolvectl_candidates(output: &str) -> (candidates: Vec<String>)
    ensures
        string_views(candidates@) == resolvectl_candidates_spec(output@),
{
    let chars = chars_of(output);
    match crate::text::find_char(&chars, ':') {
        None => Vec::new(),
        Some(k) => {
            assert(k < chars.len());
            let rest = crate::text::sub_chars(&chars, k + 1, chars.len());
            let words = crate::text::words_exec(&rest);
            let mut out: Vec<String> = Vec::new();
            let mut i: usize = 0;
            while i < words.len()
                invariant
                    i <= words.len(),
                    string_views(out@) == crate::text::vec_views(words@).take(i as int),
                decreases words.len() - i,
            {
                let ghost before = out@;
                out.push(string_of(&words[i]));
                assert(crate::text::vec_views(words@).take(i + 1) =~= crate::text::vec_views(
                    words@,
                ).take(i as int).push(words@[i as int]@));
                assert(string_views(out@) =~= string_views(before).push(words@[i as int]@));
                i = i + 1;
            }
            assert(crate::text::vec_views(words@).take(words.len() as int) =~= crate::text::vec_views(
                words@,
            ));
            out
        },
    }
}

/// The candidates that are IP addresses, in order.
pub open spec fn addresses_only(candidates: Seq<Seq<char>>, is_address: Seq<bool>) -> Seq<Seq<char>>
    decreases candidates.len(),
{
    if candidates.len() == 0 {
        seq![]
    } else {
        let before = addresses_only(candidates.drop_last(), is_address);
        if is_address[candidates.len() - 1] {
            before.push(candidates.last())
        } else {
            before
        }
    }
}

/// The Linux DNS servers: `resolvectl`'s addresses for the interface, or
/// when there are none, those of `/etc/resolv.conf`.  `is_address` says
/// which candidates parse as IP addresses; `resolv_conf` is the file's text
/// when it could be read.
pub open spec fn linux_dns_spec(
    candidates: Seq<Seq<char>>,
    is_address: Seq<bool>,
    resolv_conf: Option<Seq<char>>,
) -> Seq<Seq<char>> {
    let resolved = addresses_only(candidates, is_address);
    if resolved.len() > 0 {
        resolved
    } else {
        match resolv_conf {
            Some(content) => resolv_conf_servers_spec(content),
            None => seq![],
        }
    }
}

pub fn linux_dns_servers(
    candidates: &Vec<String>,
    is_address: &Vec<bool>,
    resolv_conf: &Option<String>,
) -> (servers: Vec<String>)
    requires
        is_address.len() == candidates.len(),
    ensures
        string_views(servers@) == linux_dns_spec(
            string_views(candidates@),
            is_address@,
            opt_str(*resolv_conf),
        ),
{
    let ghost views = string_views(candidates@);
    let mut resolved: Vec<String> = Vec::new();
    let mut i: usize = 0;
    assert(views.take(0) =~= Seq::<Seq<char>>::empty());
    while i < candidates.len()
        invariant
            i <= candidates.len(),
            is_address.len() == candidates.len(),
            views == string_views(candidates@),
            string_views(resolved@) == addresses_only(views.take(i as int), is_address@),
        decreases candidates.len() - i,
    {
        assert(views.take(i + 1).drop_last() =~= views.take(i as int));
        if is_address[i] {
            let ghost before = resolved@;
            let c = candidates[i].clone();
            resolved.push(c);
            assert(string_views(resolved@) =~= string_views(before).push(views[i as int]));
        }
        i = i + 1;
    }
    assert(views.take(candidates.len() as int) =~= views);
    if resolved.len() > 0 {
        resolved
    } else {
        match resolv_conf {
            Some(content) => resolv_conf_dns_servers(content.as_str()),
            None => Vec::new(),
        }
    }
}

/// The SSID in `nmcli --terse --fields ACTIVE,SSID device wifi` output: the
/// first line that starts with `yes:`, with `\:` and then `\\` unescaped.
pub open spec fn nmcli_ssid_spec(output: Seq<char>) -> Option<Seq<char>> {
    nmcli_active(crate::text::lines_of(output))
}

/// The unescaped SSID of the first active line.
pub open spec fn nmcli_active(lines: Seq<Seq<char>>) -> Option<Seq<char>>
    decreases lines.len(),
{
    if lines.len() == 0 {
        None
    } else if crate::text::starts_with(lines[0], "yes:"@) {
        let rest = lines[0].subrange(4, lines[0].len() as int);
        Some(
            crate::text::replace_all(
                crate::text::replace_all(rest, seq!['\\', ':'], seq![':']),
                seq!['\\', '\\'],
                seq!['\\'],
            ),
        )
    } else {
        nmcli_active(lines.drop_first())
    }
}

fn nmcli_ssid(output: &str) -> (ssid: Option<Vec<char>>)
    ensures
        match nmcli_ssid_spec(output@) {
            Some(s) => ssid matches Some(v) && v@ == s,
            None => ssid is None,
        },
{
    let lines = crate::text::lines_exec(&chars_of(output));
    let ghost views = crate::text::vec_views(lines@);
    let prefix = chars_of("yes:");
    proof {
        reveal_strlit("yes:");
    }
    let colon_escape: Vec<char> = vec!['\\', ':'];
    let colon: Vec<char> = vec![':'];
    let backslash_escape: Vec<char> = vec!['\\', '\\'];
    let backslash: Vec<char> = vec!['\\'];
    let mut i: usize = 0;
    assert(views.skip(0) =~= views);
    while i < lines.len()
        invariant
            i <= lines.len(),
            views == crate::text::vec_views(lines@),
            views == crate::text::lines_of(output@),
            prefix@ == "yes:"@,
            prefix@.len() == 4,
            colon_escape@ == seq!['\\', ':'],
            colon@ == seq![':'],
            backslash_escape@ == seq!['\\', '\\'],
            backslash@ == seq!['\\'],
            nmcli_active(views) == nmcli_active(views.skip(i as int)),
        decreases lines.len() - i,
    {
        let ghost rest = views.skip(i as int);
        assert(rest[0] == lines@[i as int]@);
        assert(rest.drop_first() =~= views.skip(i + 1));
        if crate::text::starts_with_exec(&lines[i], &prefix) {
            let tail = crate::text::sub_chars(&lines[i], 4, lines[i].len());
            let first = crate::text::replace_all_exec(&tail, &colon_escape, &colon);
            let second = crate::text::replace_all_exec(&first, &backslash_escape, &backslash);
            return Some(second);
        }
        i = i + 1;
    }
    None
}

/// The Linux SSID: the first of `/usr/sbin/iwgetid --raw`, `iwgetid --raw`
/// and the active `nmcli` network that gave an answer, trimmed, when not
/// empty.
pub open spec fn linux_ssid_spec(
    system_iwgetid: Option<Seq<char>>,
    path_iwgetid: Option<Seq<char>>,
    nmcli: Option<Seq<char>>,
) -> Option<Seq<char>> {
    let raw = match system_iwgetid {
        Some(s) => Some(s),
        None => match path_iwgetid {
            Some(s) => Some(s),
            None => match nmcli {
                Some(out) => nmcli_ssid_spec(out),
                None => None,
            },
        },
    };
    match raw {
        Some(s) => if trim(s).len() > 0 {
            Some(trim(s))
        } else {
            None
        },
        None => None,
    }
}

pub fn linux_ssid(
    system_iwgetid: &Option<String>,
    path_iwgetid: &Option<String>,
    nmcli: &Option<String>,
) -> (ssid: Option<String>)
    ensures
        opt_str(ssid) == linux_ssid_spec(opt_str(*system_iwgetid), opt_str(*path_iwgetid), opt_str(*nmcli)),
{
    let raw: Option<Vec<char>> = match system_iwgetid {
        Some(s) => Some(chars_of(s.as_str())),
        None => match path_iwgetid {
            Some(s) => Some(chars_of(s.as_str())),
            None => match nmcli {
                Some(out) => nmcli_ssid(out.as_str()),
                None => None,
            },
        },
    };
    match raw {
        Some(s) => {
            let t = trim_exec(&s);
            if t.len() > 0 {
                Some(string_of(&t))
            } else {
                None
            }
        },
        None => None,
    }
}

/// The Linux network context: the default interface also stands for the
/// service.
pub fn linux_network_context(
    default_interface: Option<String>,
    dns_servers: Vec<String>,
    ssid: Option<String>,
) -> (context: NetworkContext)
    ensures
        opt_str(context.default_interface) == opt_str(default_interface),
        opt_str(context.default_service) == opt_str(default_interface),
        context.dns_servers@ == dns_servers@,
        opt_str(context.ssid) == opt_str(ssid),
{
    let service = match &default_interface {
        Some(i) => Some(i.clone()),
        None => None,
    };
    NetworkContext { default_interface, default_service: service, dns_servers, ssid }
}

/// The context when nothing is known.
pub fn empty_network_context() -> (context: NetworkContext)
    ensures
        context.default_interface is None,
        context.default_service is None,
        context.dns_servers@.len() == 0,
        context.ssid is None,
{
    NetworkContext {
        default_interface: None,
        default_service: None,
        dns_servers: Vec::new(),
        ssid: None,
    }
}

} // verus!

verus! {

// ---------------------------------------------------------------------------
// Network context: macOS
// ---------------------------------------------------------------------------
/// A dictionary string counts only when it is not empty.
pub open spec fn present(value: Option<Seq<char>>) -> Option<Seq<char>> {
    match value {
        Some(v) => if v.len() > 0 {
            Some(v)
        } else {
            None
        },
        None => None,
    }
}

fn present_exec(value: &Option<String>) -> (kept: Option<String>)
    ensures
        opt_str(kept) == present(opt_str(*value)),
{
    match value {
        Some(v) => if chars_of(v.as_str()).len() > 0 {
            Some(v.clone())
        } else {
            None
        },
        None => None,
    }
}

/// The interface and service of one global state dictionary (`None` when
/// the dictionary is missing).
pub type GlobalState = Option<(Option<String>, Option<String>)>;

/// The pair as sequences.
pub open spec fn state_view(state: GlobalState) -> Option<(Option<Seq<char>>, Option<Seq<char>>)> {
    match state {
        Some((i, s)) => Some((present(opt_str(i)), present(opt_str(s)))),
        None => None,
    }
}

/// The primary interface and service: from the first of the IPv4 and IPv6
/// global states that names either.
pub open spec fn primary_network_spec(states: Seq<Option<(Option<Seq<char>>, Option<Seq<char>>)>>) -> (
    Option<Seq<char>>,
    Option<Seq<char>>,
)
    decreases states.len(),
{
    if states.len() == 0 {
        (None, None)
    } else {
        match states[0] {
            Some((i, s)) => if i is Some || s is Some {
                (i, s)
            } else {
                primary_network_spec(states.drop_first())
            },
            None => primary_network_spec(states.drop_first()),
        }
    }
}

/// Picks the primary interface and service from the IPv4 and IPv6 global
/// states, in that order.
pub fn mac_primary_network(states: &Vec<GlobalState>) -> (primary: (Option<String>, Option<String>))
    ensures
        (opt_str(primary.0), opt_str(primary.1)) == primary_network_spec(
            states@.map_values(|s: GlobalState| state_view(s)),
        ),
{
    let ghost views = states@.map_values(|s: GlobalState| state_view(s));
    let mut i: usize = 0;
    assert(views.skip(0) =~= views);
    while i < states.len()
        invariant
            i <= states.len(),
            views == states@.map_values(|s: GlobalState| state_view(s)),
            primary_network_spec(views) == primary_network_spec(views.skip(i as int)),
        decreases states.len() - i,
    {
        let ghost rest = views.skip(i as int);
        assert(rest[0] == state_view(states@[i as int]));
        assert(rest.drop_first() =~= views.skip(i + 1));
        match &states[i] {
            Some((interface, service)) => {
                let a = present_exec(interface);
                let b = present_exec(service);
                if a.is_some() || b.is_some() {
                    return (a, b);
                }
            },
            None => {},
        }
        i = i + 1;
    }
    (None, None)
}

/// The DNS servers of a dictionary: its addresses, sorted, each once.
pub fn mac_dns_servers(values: &Vec<String>, is_address: &Vec<bool>) -> (servers: Vec<String>)
    requires
        is_address.len() == values.len(),
    ensures
        string_views(servers@) == crate::text::sorted_unique(
            addresses_only(string_views(values@), is_address@),
        ),
{
    let filtered = linux_dns_servers(values, is_address, &None);
    proof {
        let a = addresses_only(string_views(values@), is_address@);
        if a.len() == 0 {
            assert(a =~= Seq::<Seq<char>>::empty());
            assert(crate::text::sorted_unique(a) =~= Seq::<Seq<char>>::empty());
        }
    }
    let sorted = crate::text::sort_unique(&filtered);
    sorted
}

/// The dynamic-store key of a service's setup.
pub fn service_setup_key(service: &str) -> (key: String)
    ensures
        key@ == "Setup:/Network/Service/"@ + service@,
{
    let mut out: Vec<char> = Vec::new();
    push_str(&mut out, "Setup:/Network/Service/");
    push_str(&mut out, service);
    string_of(&out)
}

/// The dynamic-store key of a service's DNS state.
pub fn service_dns_key(service: &str) -> (key: String)
    ensures
        key@ == "State:/Network/Service/"@ + service@ + "/DNS"@,
{
    let mut out: Vec<char> = Vec::new();
    push_str(&mut out, "State:/Network/Service/");
    push_str(&mut out, service);
    push_str(&mut out, "/DNS");
    string_of(&out)
}

/// The dynamic-store key of an interface's Wi-Fi state.
pub fn airport_key(interface: &str) -> (key: String)
    ensures
        key@ == "State:/Network/Interface/"@ + interface@ + "/AirPort"@,
{
    let mut out: Vec<char> = Vec::new();
    push_str(&mut out, "State:/Network/Interface/");
    push_str(&mut out, interface);
    push_str(&mut out, "/AirPort");
    string_of(&out)
}

// ---------------------------------------------------------------------------
// Network context: Windows
// ---------------------------------------------------------------------------
/// What Windows reports about one network adapter.
#[derive(Debug, Clone)]
pub struct AdapterRecord {
    pub if_index: u32,
    pub ipv6_if_index: u32,
    pub friendly_name: Option<String>,
    pub dns_servers: Vec<String>,
}

/// The first adapter whose interface index (IPv6 or IPv4, as the route
/// was found) is the best route's.
pub open spec fn adapter_pick(adapters: Seq<AdapterRecord>, index: u32, ipv6: bool) -> Option<int>
    decreases adapters.len(),
{
    if adapters.len() == 0 {
        None
    } else {
        match adapter_pick(adapters.drop_last(), index, ipv6) {
            Some(k) => Some(k),
            None => if (if ipv6 {
                adapters.last().ipv6_if_index
            } else {
                adapters.last().if_index
            }) == index {
                Some(adapters.len() - 1)
            } else {
                None
            },
        }
    }
}

proof fn lemma_adapter_pick_prefix(adapters: Seq<AdapterRecord>, n: int, index: u32, ipv6: bool)
    requires
        0 <= n <= adapters.len(),
        adapter_pick(adapters.take(n), index, ipv6) is Some,
    ensures
        adapter_pick(adapters, index, ipv6) == adapter_pick(adapters.take(n), index, ipv6),
    decreases adapters.len(),
{
    if adapters.len() == n {
        assert(adapters.take(n) =~= adapters);
    } else {
        assert(adapters.drop_last().take(n) =~= adapters.take(n));
        lemma_adapter_pick_prefix(adapters.drop_last(), n, index, ipv6);
    }
}

/// The default interface and DNS servers on Windows: from the adapter of the
/// best route to the public resolvers, its name when not empty and its
/// servers sorted, each once.
pub open spec fn ip_configuration_spec(best: Option<(u32, bool)>, adapters: Seq<AdapterRecord>) -> (
    Option<Seq<char>>,
    Seq<Seq<char>>,
) {
    match best {
        None => (None, seq![]),
        Some((index, ipv6)) => match adapter_pick(adapters, index, ipv6) {
            None => (None, seq![]),
            Some(k) => (
                present(opt_str(adapters[k].friendly_name)),
                crate::text::sorted_unique(string_views(adapters[k].dns_servers@)),
            ),
        },
    }
}

pub fn windows_ip_configuration(best: Option<(u32, bool)>, adapters: &Vec<AdapterRecord>) -> (config: (
    Option<String>,
    Vec<String>,
))
    ensures
        (opt_str(config.0), string_views(config.1@)) == ip_configuration_spec(best, adapters@),
{
    let (index, ipv6) = match best {
        None => {
            return (None, Vec::new());
        },
        Some(b) => b,
    };
    let mut i: usize = 0;
    assert(adapters@.take(0) =~= Seq::<AdapterRecord>::empty());
    while i < adapters.len()
        invariant
            i <= adapters.len(),
            best == Some((index, ipv6)),
            adapter_pick(adapters@.take(i as int), index, ipv6) is None,
        decreases adapters.len() - i,
    {
        assert(adapters@.take(i + 1).drop_last() =~= adapters@.take(i as int));
        let adapter_index = if ipv6 {
            adapters[i].ipv6_if_index
        } else {
            adapters[i].if_index
        };
        if adapter_index == index {
            proof {
                assert(adapter_pick(adapters@.take(i + 1), index, ipv6) == Some(i as int));
                lemma_adapter_pick_prefix(adapters@, i + 1, index, ipv6);
            }
            let name = present_exec(&adapters[i].friendly_name);
            let servers = crate::text::sort_unique(&adapters[i].dns_servers);
            return (name, servers);
        }
        i = i + 1;
    }
    assert(adapters@.take(adapters.len() as int) =~= adapters@);
    (None, Vec::new())
}

/// What the Wi-Fi API reports about one wireless interface.
#[derive(Debug, Clone)]
pub struct WlanInterfaceRecord {
    pub connected: bool,
    /// The SSID buffer and its reported length, when the connection could be
    /// queried.
    pub ssid: Option<(Vec<u8>, u32)>,
}

/// The SSID of one interface: the reported length of the buffer, decoded
/// and trimmed.
pub open spec fn interface_ssid(record: WlanInterfaceRecord) -> Option<Seq<char>> {
    if !record.connected {
        None
    } else {
        match record.ssid {
            None => None,
            Some((buffer, length)) => {
                let n = if (length as int) < buffer@.len() {
                    length as int
                } else {
                    buffer@.len() as int
                };
                let value = trim(lossy_utf8(buffer@.take(n)));
                if value.len() > 0 {
                    Some(value)
                } else {
                    None
                }
            },
        }
    }
}

/// The first connected interface's non-empty SSID.
pub open spec fn windows_ssid_spec(records: Seq<WlanInterfaceRecord>) -> Option<Seq<char>>
    decreases records.len(),
{
    if records.len() == 0 {
        None
    } else {
        match interface_ssid(records[0]) {
            Some(s) => Some(s),
            None => windows_ssid_spec(records.drop_first()),
        }
    }
}

pub fn windows_ssid(records: &Vec<WlanInterfaceRecord>) -> (ssid: Option<String>)
    ensures
        opt_str(ssid) == windows_ssid_spec(records@),
{
    let mut i: usize = 0;
    assert(records@.skip(0) =~= records@);
    while i < records.len()
        invariant
            i <= records.len(),
            windows_ssid_spec(records@) == windows_ssid_spec(records@.skip(i as int)),
        decreases records.len() - i,
    {
        let ghost rest = records@.skip(i as int);
        assert(rest[0] == records@[i as int]);
        assert(rest.drop_first() =~= records@.skip(i + 1));
        if records[i].connected {
            match &records[i].ssid {
                Some((buffer, length)) => {
                    let n: usize = if (*length as u64) < (buffer.len() as u64) {
                        *length as usize
                    } else {
                        buffer.len()
                    };
                    let text = from_utf8_lossy(vstd::slice::slice_subrange(buffer.as_slice(), 0, n));
                    let value = trim_exec(&chars_of(text.as_str()));
                    if value.len() > 0 {
                        return Some(string_of(&value));
                    }
                },
                None => {},
            }
        }
        i = i + 1;
    }
    None
}

/// The Windows network context; Windows names no service.
pub fn windows_network_context(
    best: Option<(u32, bool)>,
    adapters: &Vec<AdapterRecord>,
    wlan: &Vec<WlanInterfaceRecord>,
) -> (context: NetworkContext)
    ensures
        (opt_str(context.default_interface), string_views(context.dns_servers@))
            == ip_configuration_spec(best, adapters@),
        context.default_service is None,
        opt_str(context.ssid) == windows_ssid_spec(wlan@),
{
    let (interface, servers) = windows_ip_configuration(best, adapters);
    NetworkContext {
        default_interface: interface,
        default_service: None,
        dns_servers: servers,
        ssid: windows_ssid(wlan),
    }
}

} // verus!

verus! {

/// What a system reported for the network context.
#[derive(Debug, Clone)]
pub enum NetworkFacts {
    /// Linux: `/proc/net/route`, the `resolvectl` candidates for the default
    /// interface with which of them are IP addresses, `/etc/resolv.conf`, and
    /// the outputs of the SSID tools (each `None` when unavailable).
    Linux {
        routes: Option<String>,
        resolved: Vec<String>,
        resolved_is_address: Vec<bool>,
        resolv_conf: Option<String>,
        system_iwgetid: Option<String>,
        path_iwgetid: Option<String>,
        nmcli: Option<String>,
    },
    /// macOS: the primary interface, the service's user-defined name, the DNS
    /// values with which are addresses, and the Wi-Fi SSID string.
    Macos {
        interface: Option<String>,
        service_name: Option<String>,
        dns_values: Vec<String>,
        dns_is_address: Vec<bool>,
        ssid: Option<String>,
    },
    /// Windows: the best route's interface, the adapters and the wireless
    /// interfaces.
    Windows { best: Option<(u32, bool)>, adapters: Vec<AdapterRecord>, wlan: Vec<WlanInterfaceRecord> },
    /// A system without network context.
    Unavailable,
}

/// The facts are consistent: each candidate has its address flag.
pub open spec fn facts_well_formed(facts: NetworkFacts) -> bool {
    match facts {
        NetworkFacts::Linux { resolved, resolved_is_address, .. } => resolved_is_address@.len()
            == resolved@.len(),
        NetworkFacts::Macos { dns_values, dns_is_address, .. } => dns_is_address@.len()
            == dns_values@.len(),
        _ => true,
    }
}

/// The context from what the system reported: missing data stays absent
/// or empty.
pub open spec fn network_context_spec(facts: NetworkFacts) -> (
    Option<Seq<char>>,
    Option<Seq<char>>,
    Seq<Seq<char>>,
    Option<Seq<char>>,
) {
    match facts {
        NetworkFacts::Linux {
            routes,
            resolved,
            resolved_is_address,
            resolv_conf,
            system_iwgetid,
            path_iwgetid,
            nmcli,
        } => {
            let interface = match routes {
                Some(r) => default_interface_spec(r@),
                None => None,
            };
            (
                interface,
                interface,
                linux_dns_spec(string_views(resolved@), resolved_is_address@, opt_str(resolv_conf)),
                linux_ssid_spec(opt_str(system_iwgetid), opt_str(path_iwgetid), opt_str(nmcli)),
            )
        },
        NetworkFacts::Macos { interface, service_name, dns_values, dns_is_address, ssid } => (
            present(opt_str(interface)),
            present(opt_str(service_name)),
            crate::text::sorted_unique(addresses_only(string_views(dns_values@), dns_is_address@)),
            present(opt_str(ssid)),
        ),
        NetworkFacts::Windows { best, adapters, wlan } => {
            let (interface, servers) = ip_configuration_spec(best, adapters@);
            (interface, None, servers, windows_ssid_spec(wlan@))
        },
        NetworkFacts::Unavailable => (None, None, seq![], None),
    }
}

/// Builds the network context from what the system reported.
pub fn get_network_context(facts: &NetworkFacts) -> (context: NetworkContext)
    requires
        facts_well_formed(*facts),
    ensures
        (
            opt_str(context.default_interface),
            opt_str(context.default_service),
            string_views(context.dns_servers@),
            opt_str(context.ssid),
        ) == network_context_spec(*facts),
{
    match facts {
        NetworkFacts::Linux {
            routes,
            resolved,
            resolved_is_address,
            resolv_conf,
            system_iwgetid,
            path_iwgetid,
            nmcli,
        } => {
            let interface = match routes {
                Some(r) => default_interface(r.as_str()),
                None => None,
            };
            let dns = linux_dns_servers(resolved, resolved_is_address, resolv_conf);
            let ssid = linux_ssid(system_iwgetid, path_iwgetid, nmcli);
            linux_network_context(interface, dns, ssid)
        },
        NetworkFacts::Macos { interface, service_name, dns_values, dns_is_address, ssid } => {
            NetworkContext {
                default_interface: present_exec(interface),
                default_service: present_exec(service_name),
                dns_servers: mac_dns_servers(dns_values, dns_is_address),
                ssid: present_exec(ssid),
            }
        },
        NetworkFacts::Windows { best, adapters, wlan } => windows_network_context(*best, adapters, wlan),
        NetworkFacts::Unavailable => empty_network_context(),
    }
}

} // verus!
