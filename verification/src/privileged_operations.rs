//! Privileged operations: the service lifecycle command line, quoting for
//! the shells that run it elevated, and the validation of managed files.
use vstd::prelude::*;
use crate::TargetOs;
use crate::error::{NativeError, fails_with};
use crate::paths::{
    ResolvedPath, file_name, file_name_exec, has_parent_traversal, has_parent_traversal_exec,
    is_absolute, is_absolute_exec, path_starts_with, path_starts_with_exec,
};
use crate::windows_paths::{
    win_file_name, win_file_name_exec, win_is_absolute, win_is_absolute_exec,
};
use crate::windows::elevation::{
    ShellExecuteRequest, ShowWindow, UnelevatedLaunch, command_line_text, launch_elevated,
    launch_unelevated, runas_request, wide_null,
};
use crate::text::{
    append_chars, from_utf8_lossy, lossy_utf8, trim, trim_exec,
    chars_of, decimal, decimal_string, escape, is_ascii_alnum, is_ascii_alnum_exec, is_ascii_digit,
    join, push_escaped, push_joined, push_signed_decimal, push_str, signed_decimal, starts_with,
    starts_with_exec, string_of, string_views, table_view,
};

verus! {

broadcast use vstd::string::group_string_axioms;

#[derive(Debug, Clone, Copy, PartialEq, Eq, Structural)]
pub enum ServiceLifecycleAction {
    Init,
    Install,
    Uninstall,
    Start,
    Stop,
    Restart,
}

/// The command-line name of an action.
pub open spec fn action_name(action: ServiceLifecycleAction) -> Seq<char> {
    match action {
        ServiceLifecycleAction::Init => "init"@,
        ServiceLifecycleAction::Install => "install"@,
        ServiceLifecycleAction::Uninstall => "uninstall"@,
        ServiceLifecycleAction::Start => "start"@,
        ServiceLifecycleAction::Stop => "stop"@,
        ServiceLifecycleAction::Restart => "restart"@,
    }
}

/// The action a name denotes, if any.
pub open spec fn action_named(name: Seq<char>) -> Option<ServiceLifecycleAction> {
    if name == "init"@ {
        Some(ServiceLifecycleAction::Init)
    } else if name == "install"@ {
        Some(ServiceLifecycleAction::Install)
    } else if name == "uninstall"@ {
        Some(ServiceLifecycleAction::Uninstall)
    } else if name == "start"@ {
        Some(ServiceLifecycleAction::Start)
    } else if name == "stop"@ {
        Some(ServiceLifecycleAction::Stop)
    } else if name == "restart"@ {
        Some(ServiceLifecycleAction::Restart)
    } else {
        None
    }
}

impl ServiceLifecycleAction {
    /// Accepts exactly the six action names.
    pub fn parse(value: &str) -> (result: Result<ServiceLifecycleAction, NativeError>)
        ensures
            match action_named(value@) {
                Some(action) => result == Ok::<ServiceLifecycleAction, NativeError>(action),
                None => fails_with(
                    result,
                    "PRIVILEGED_SERVICE_INVALID_ACTION: unsupported service action"@,
                ),
            },
    {
        let v = value.to_string();
        if v == "init".to_string() {
            Ok(ServiceLifecycleAction::Init)
        } else if v == "install".to_string() {
            Ok(ServiceLifecycleAction::Install)
        } else if v == "uninstall".to_string() {
            Ok(ServiceLifecycleAction::Uninstall)
        } else if v == "start".to_string() {
            Ok(ServiceLifecycleAction::Start)
        } else if v == "stop".to_string() {
            Ok(ServiceLifecycleAction::Stop)
        } else if v == "restart".to_string() {
            Ok(ServiceLifecycleAction::Restart)
        } else {
            Err(NativeError::new("PRIVILEGED_SERVICE_INVALID_ACTION: unsupported service action"))
        }
    }

    pub fn as_str(self) -> (name: &'static str)
        ensures
            name@ == action_name(self),
    {
        match self {
            ServiceLifecycleAction::Init => "init",
            ServiceLifecycleAction::Install => "install",
            ServiceLifecycleAction::Uninstall => "uninstall",
            ServiceLifecycleAction::Start => "start",
            ServiceLifecycleAction::Stop => "stop",
            ServiceLifecycleAction::Restart => "restart",
        }
    }
}

/// Every action's name parses back to the action, and only action names
/// parse: the names and the actions correspond one to one.
pub proof fn action_names_round_trip(action: ServiceLifecycleAction, name: Seq<char>)
    ensures
        action_named(action_name(action)) == Some(action),
        action_named(name) == Some(action) ==> name == action_name(action),
{
    reveal_strlit("init");
    reveal_strlit("install");
    reveal_strlit("uninstall");
    reveal_strlit("start");
    reveal_strlit("stop");
    reveal_strlit("restart");
    assert("init"@.len() == 4 && "init"@[0] == 'i');
    assert("install"@.len() == 7 && "install"@[0] == 'i');
    assert("uninstall"@.len() == 9 && "uninstall"@[0] == 'u');
    assert("start"@.len() == 5 && "start"@[0] == 's');
    assert("stop"@.len() == 4 && "stop"@[0] == 's');
    assert("restart"@.len() == 7 && "restart"@[0] == 'r');
}

/// Each action is named by its own word on the command line (`start` starts
/// the service, `stop` stops it, and so on), and a word denotes exactly the
/// action it names.
pub proof fn actions_are_named_by_their_own_words(name: Seq<char>)
    ensures
        action_name(ServiceLifecycleAction::Init) == "init"@,
        action_name(ServiceLifecycleAction::Install) == "install"@,
        action_name(ServiceLifecycleAction::Uninstall) == "uninstall"@,
        action_name(ServiceLifecycleAction::Start) == "start"@,
        action_name(ServiceLifecycleAction::Stop) == "stop"@,
        action_name(ServiceLifecycleAction::Restart) == "restart"@,
        (action_named(name) == Some(ServiceLifecycleAction::Init)) <==> name == "init"@,
        (action_named(name) == Some(ServiceLifecycleAction::Install)) <==> name == "install"@,
        (action_named(name) == Some(ServiceLifecycleAction::Uninstall)) <==> name == "uninstall"@,
        (action_named(name) == Some(ServiceLifecycleAction::Start)) <==> name == "start"@,
        (action_named(name) == Some(ServiceLifecycleAction::Stop)) <==> name == "stop"@,
        (action_named(name) == Some(ServiceLifecycleAction::Restart)) <==> name == "restart"@,
{
    reveal_strlit("init");
    reveal_strlit("install");
    reveal_strlit("uninstall");
    reveal_strlit("start");
    reveal_strlit("stop");
    reveal_strlit("restart");
    assert("init"@.len() == 4 && "init"@[0] == 'i');
    assert("install"@.len() == 7 && "install"@[0] == 'i');
    assert("uninstall"@.len() == 9 && "uninstall"@[0] == 'u');
    assert("start"@.len() == 5 && "start"@[0] == 's');
    assert("stop"@.len() == 4 && "stop"@[0] == 's');
    assert("restart"@.len() == 7 && "restart"@[0] == 'r');
}

#[derive(Debug, Clone)]
pub struct ServiceLifecycleOptions {
    pub executable_path: String,
    pub action: ServiceLifecycleAction,
    pub public_key: Option<String>,
    pub authorized_sid: Option<String>,
    pub authorized_uid: Option<u32>,
}

/// Characters of a base64 public key.
pub open spec fn is_public_key_char(c: char) -> bool {
    is_ascii_alnum(c) || c == '+' || c == '/' || c == '='
}

/// 32 to 512 base64 characters.
pub open spec fn valid_public_key(key: Seq<char>) -> bool {
    32 <= key.len() <= 512 && forall|i: int| 0 <= i < key.len() ==> #[trigger] is_public_key_char(
        key[i],
    )
}

/// Checks a service public key.
pub fn validate_public_key(value: &str) -> (result: Result<(), NativeError>)
    ensures
        valid_public_key(value@) ==> result is Ok,
        !valid_public_key(value@) ==> fails_with(
            result,
            "PRIVILEGED_SERVICE_INVALID_KEY: invalid service public key"@,
        ),
{
    let chars = chars_of(value);
    let mut valid = 32 <= chars.len() && chars.len() <= 512;
    let mut i: usize = 0;
    while i < chars.len()
        invariant
            i <= chars.len(),
            chars@ == value@,
            valid <==> (32 <= chars.len() <= 512 && forall|j: int|
                0 <= j < i ==> #[trigger] is_public_key_char(chars@[j])),
        decreases chars.len() - i,
    {
        let c = chars[i];
        let ok = is_ascii_alnum_exec(c) || c == '+' || c == '/' || c == '=';
        assert(ok == is_public_key_char(chars@[i as int]));
        if !ok {
            valid = false;
        }
        i = i + 1;
    }
    if !valid {
        return Err(NativeError::new("PRIVILEGED_SERVICE_INVALID_KEY: invalid service public key"));
    }
    Ok(())
}

/// Characters of a Windows SID.
pub open spec fn is_sid_char(c: char) -> bool {
    is_ascii_digit(c) || c == 'S' || c == '-'
}

/// A Windows SID in string form: `S-` then digits, `S` and `-`, at most 184
/// characters.
pub open spec fn valid_sid(sid: Seq<char>) -> bool {
    &&& sid.len() <= 184
    &&& starts_with(sid, "S-"@)
    &&& forall|i: int| 0 <= i < sid.len() ==> #[trigger] is_sid_char(sid[i])
}

/// Checks a Windows SID.
pub fn validate_sid(value: &str) -> (result: Result<(), NativeError>)
    ensures
        valid_sid(value@) ==> result is Ok,
        !valid_sid(value@) ==> fails_with(
            result,
            "PRIVILEGED_SERVICE_INVALID_PRINCIPAL: invalid Windows SID"@,
        ),
{
    let chars = chars_of(value);
    let prefix = chars_of("S-");
    let mut valid = chars.len() <= 184 && starts_with_exec(&chars, &prefix);
    let mut i: usize = 0;
    while i < chars.len()
        invariant
            i <= chars.len(),
            chars@ == value@,
            prefix@ == "S-"@,
            valid <==> (chars.len() <= 184 && starts_with(chars@, prefix@) && forall|j: int|
                0 <= j < i ==> #[trigger] is_sid_char(chars@[j])),
        decreases chars.len() - i,
    {
        let c = chars[i];
        let ok = ('0' <= c && c <= '9') || c == 'S' || c == '-';
        assert(ok == is_sid_char(chars@[i as int]));
        if !ok {
            valid = false;
        }
        i = i + 1;
    }
    if !valid {
        return Err(NativeError::new("PRIVILEGED_SERVICE_INVALID_PRINCIPAL: invalid Windows SID"));
    }
    Ok(())
}

/// The arguments passed to the service executable, or the message of the
/// first rule they break.  `init` needs a public key and the principal the
/// service will trust: a SID on Windows, a UID elsewhere; the other actions
/// take no extra fields.
pub open spec fn service_arguments_spec(
    options: ServiceLifecycleOptions,
    os: TargetOs,
) -> Result<Seq<Seq<char>>, Seq<char>> {
    let base = seq!["service"@, action_name(options.action)];
    if options.action == ServiceLifecycleAction::Init {
        match options.public_key {
            None => Err("PRIVILEGED_SERVICE_INVALID_KEY: public key is required"@),
            Some(key) => if !valid_public_key(key@) {
                Err("PRIVILEGED_SERVICE_INVALID_KEY: invalid service public key"@)
            } else {
                let with_key = base + seq!["--public-key"@, key@];
                if os == TargetOs::Windows {
                    match options.authorized_sid {
                        None => Err("PRIVILEGED_SERVICE_INVALID_PRINCIPAL: Windows SID is required"@),
                        Some(sid) => if !valid_sid(sid@) {
                            Err("PRIVILEGED_SERVICE_INVALID_PRINCIPAL: invalid Windows SID"@)
                        } else if options.authorized_uid is Some {
                            Err("PRIVILEGED_SERVICE_INVALID_PRINCIPAL: UID is not valid on Windows"@)
                        } else {
                            Ok(with_key + seq!["--authorized-sid"@, sid@])
                        },
                    }
                } else {
                    match options.authorized_uid {
                        None => Err("PRIVILEGED_SERVICE_INVALID_PRINCIPAL: Unix UID is required"@),
                        Some(uid) => if options.authorized_sid is Some {
                            Err("PRIVILEGED_SERVICE_INVALID_PRINCIPAL: SID is not valid on Unix"@)
                        } else {
                            Ok(with_key + seq!["--authorized-uid"@, decimal(uid as nat)])
                        },
                    }
                }
            },
        }
    } else if options.public_key is Some || options.authorized_sid is Some
        || options.authorized_uid is Some {
        Err("PRIVILEGED_SERVICE_INVALID_ARGUMENT: init fields require the init action"@)
    } else {
        Ok(base)
    }
}

/// `result` carries the strings `expected`, or fails with the message.
pub open spec fn strings_result(
    result: Result<Vec<String>, NativeError>,
    expected: Result<Seq<Seq<char>>, Seq<char>>,
) -> bool {
    match expected {
        Ok(args) => result matches Ok(v) && string_views(v@) == args,
        Err(message) => fails_with(result, message),
    }
}

/// Builds the service command line for a build on `os`.
pub fn service_arguments(options: &ServiceLifecycleOptions, os: TargetOs) -> (result: Result<
    Vec<String>,
    NativeError,
>)
    ensures
        strings_result(result, service_arguments_spec(*options, os)),
{
    let mut arguments: Vec<String> = Vec::new();
    arguments.push("service".to_string());
    arguments.push(options.action.as_str().to_string());
    let ghost base = seq!["service"@, action_name(options.action)];
    assert(string_views(arguments@) =~= base);
    if options.action == ServiceLifecycleAction::Init {
        let public_key = match &options.public_key {
            None => {
                return Err(NativeError::new("PRIVILEGED_SERVICE_INVALID_KEY: public key is required"));
            },
            Some(key) => key,
        };
        match validate_public_key(public_key.as_str()) {
            Err(error) => {
                return Err(error);
            },
            Ok(()) => {},
        }
        arguments.push("--public-key".to_string());
        arguments.push(public_key.clone());
        let ghost with_key = base + seq!["--public-key"@, public_key@];
        assert(string_views(arguments@) =~= with_key);
        if os == TargetOs::Windows {
            let sid = match &options.authorized_sid {
                None => {
                    return Err(
                        NativeError::new("PRIVILEGED_SERVICE_INVALID_PRINCIPAL: Windows SID is required"),
                    );
                },
                Some(sid) => sid,
            };
            match validate_sid(sid.as_str()) {
                Err(error) => {
                    return Err(error);
                },
                Ok(()) => {},
            }
            if options.authorized_uid.is_some() {
                return Err(
                    NativeError::new("PRIVILEGED_SERVICE_INVALID_PRINCIPAL: UID is not valid on Windows"),
                );
            }
            arguments.push("--authorized-sid".to_string());
            arguments.push(sid.clone());
            assert(string_views(arguments@) =~= with_key + seq!["--authorized-sid"@, sid@]);
        } else {
            let uid = match options.authorized_uid {
                None => {
                    return Err(
                        NativeError::new("PRIVILEGED_SERVICE_INVALID_PRINCIPAL: Unix UID is required"),
                    );
                },
                Some(uid) => uid,
            };
            if options.authorized_sid.is_some() {
                return Err(
                    NativeError::new("PRIVILEGED_SERVICE_INVALID_PRINCIPAL: SID is not valid on Unix"),
                );
            }
            arguments.push("--authorized-uid".to_string());
            arguments.push(decimal_string(uid as u128));
            assert(string_views(arguments@) =~= with_key + seq![
                "--authorized-uid"@,
                decimal(uid as nat),
            ]);
        }
    } else if options.public_key.is_some() || options.authorized_sid.is_some()
        || options.authorized_uid.is_some() {
        return Err(
            NativeError::new("PRIVILEGED_SERVICE_INVALID_ARGUMENT: init fields require the init action"),
        );
    }
    Ok(arguments)
}

/// The names the service executable may have.
pub open spec fn is_service_executable_name(name: Seq<char>) -> bool {
    name == "kokorobox-service"@ || name == "kokorobox-service.exe"@
}

/// The service executable after resolution, or the message of the first rule
/// broken: the requested path must be absolute, resolve, be a regular file and
/// be named `kokorobox-service` (or `.exe`).
pub open spec fn service_executable_spec(
    requested: Seq<char>,
    resolved: Option<ResolvedPath>,
    os: TargetOs,
) -> Result<Seq<char>, Seq<char>> {
    if !absolute_on(os, requested) {
        Err("PRIVILEGED_SERVICE_INVALID_PATH: service path must be absolute"@)
    } else {
        match resolved {
            None => Err("PRIVILEGED_SERVICE_INVALID_PATH: unable to resolve service executable"@),
            Some(r) => if !r.is_file {
                Err("PRIVILEGED_SERVICE_INVALID_PATH: service path must be a regular file"@)
            } else if !(file_name_on(os, r.canonical@) matches Some(name)
                && is_service_executable_name(name)) {
                Err("PRIVILEGED_SERVICE_INVALID_PATH: unexpected service executable name"@)
            } else {
                Ok(r.canonical@)
            },
        }
    }
}

/// Whether `path` is absolute on `os`.
pub open spec fn absolute_on(os: TargetOs, path: Seq<char>) -> bool {
    if os == TargetOs::Windows {
        win_is_absolute(path)
    } else {
        is_absolute(path)
    }
}

/// The last component of `path` as `os` reads it.
pub open spec fn file_name_on(os: TargetOs, path: Seq<char>) -> Option<Seq<char>> {
    if os == TargetOs::Windows {
        win_file_name(path)
    } else {
        file_name(path)
    }
}

/// Validates the service executable; `resolved` is what canonicalising the
/// requested path gave (`None` when it could not be resolved).
pub fn validate_service_executable(
    requested: &str,
    resolved: &Option<ResolvedPath>,
    os: TargetOs,
) -> (result: Result<String, NativeError>)
    ensures
        match service_executable_spec(requested@, *resolved, os) {
            Ok(path) => result matches Ok(p) && p@ == path,
            Err(message) => fails_with(result, message),
        },
{
    let absolute = if os == TargetOs::Windows {
        win_is_absolute_exec(requested)
    } else {
        is_absolute_exec(requested)
    };
    if !absolute {
        return Err(NativeError::new("PRIVILEGED_SERVICE_INVALID_PATH: service path must be absolute"));
    }
    let resolved = match resolved {
        None => {
            return Err(
                NativeError::new("PRIVILEGED_SERVICE_INVALID_PATH: unable to resolve service executable"),
            );
        },
        Some(r) => r,
    };
    if !resolved.is_file {
        return Err(
            NativeError::new("PRIVILEGED_SERVICE_INVALID_PATH: service path must be a regular file"),
        );
    }
    let name = if os == TargetOs::Windows {
        match win_file_name_exec(resolved.canonical.as_str()) {
            Some(chars) => Some(string_of(&chars)),
            None => None,
        }
    } else {
        file_name_exec(resolved.canonical.as_str())
    };
    let name_ok = match name {
        None => false,
        Some(name) => name == "kokorobox-service".to_string() || name
            == "kokorobox-service.exe".to_string(),
    };
    if !name_ok {
        return Err(
            NativeError::new("PRIVILEGED_SERVICE_INVALID_PATH: unexpected service executable name"),
        );
    }
    Ok(resolved.canonical.clone())
}

// ---------------------------------------------------------------------------
// Shell quoting
// ---------------------------------------------------------------------------
/// Inside single quotes a quote is written `'\''`.
pub open spec fn shell_quote_table() -> Seq<(char, Seq<char>)> {
    seq![('\'', "'\\''"@)]
}

/// A POSIX shell word that stands for `value` literally.
pub open spec fn shell_quoted(value: Seq<char>) -> Seq<char> {
    seq!['\''] + escape(value, shell_quote_table()) + seq!['\'']
}

/// Quotes `value` for `/bin/sh`.
pub fn shell_quote(value: &str) -> (quoted: String)
    ensures
        quoted@ == shell_quoted(value@),
{
    let mut out: Vec<char> = Vec::new();
    push_shell_quoted(&mut out, value);
    string_of(&out)
}

fn push_shell_quoted(out: &mut Vec<char>, value: &str)
    ensures
        final(out)@ == old(out)@ + shell_quoted(value@),
{
    let table: Vec<(char, &str)> = vec![('\'', "'\\''")];
    assert(table_view(table@) =~= shell_quote_table());
    out.push('\'');
    push_escaped(out, &chars_of(value), &table);
    out.push('\'');
    assert(out@ =~= old(out)@ + shell_quoted(value@));
}

/// AppleScript string escapes for backslash and double quote.
pub open spec fn applescript_table() -> Seq<(char, Seq<char>)> {
    seq![('\\', "\\\\"@), ('"', "\\\""@)]
}

/// Escapes `value` for an AppleScript string literal.
pub fn applescript_escape(value: &str) -> (escaped: String)
    ensures
        escaped@ == escape(value@, applescript_table()),
{
    let table: Vec<(char, &str)> = vec![('\\', "\\\\"), ('"', "\\\"")];
    assert(table_view(table@) =~= applescript_table());
    let mut out: Vec<char> = Vec::new();
    push_escaped(&mut out, &chars_of(value), &table);
    string_of(&out)
}

/// The AppleScript that runs `shell` with administrator privileges.
pub open spec fn administrator_script(shell: Seq<char>) -> Seq<char> {
    "do shell script \""@ + escape(shell, applescript_table()) + "\" with administrator privileges"@
}

/// Builds the `osascript -e` program for a privileged shell command.
pub fn privileged_shell_script(shell: &str) -> (script: String)
    ensures
        script@ == administrator_script(shell@),
{
    let table: Vec<(char, &str)> = vec![('\\', "\\\\"), ('"', "\\\"")];
    assert(table_view(table@) =~= applescript_table());
    let mut out: Vec<char> = Vec::new();
    push_str(&mut out, "do shell script \"");
    push_escaped(&mut out, &chars_of(shell), &table);
    push_str(&mut out, "\" with administrator privileges");
    assert(out@ =~= administrator_script(shell@));
    string_of(&out)
}

/// Each word single-quoted.
pub open spec fn quoted_words(words: Seq<Seq<char>>) -> Seq<Seq<char>> {
    words.map_values(|a: Seq<char>| shell_quoted(a))
}

/// The shell command that runs the service executable with its arguments,
/// every word single-quoted.
pub open spec fn service_shell_command(executable: Seq<char>, arguments: Seq<Seq<char>>) -> Seq<char> {
    join(seq![shell_quoted(executable)] + quoted_words(arguments), " "@)
}

/// Builds the macOS shell command for a service action.
pub fn macos_service_command(executable: &str, arguments: &Vec<String>) -> (command: String)
    ensures
        command@ == service_shell_command(executable@, string_views(arguments@)),
{
    let mut words: Vec<String> = Vec::new();
    words.push(shell_quote(executable));
    proof {
        assert(string_views(words@) =~= seq![shell_quoted(executable@)]);
        assert(quoted_words(string_views(arguments@).take(0)) =~= Seq::<Seq<char>>::empty());
    }
    let mut i: usize = 0;
    while i < arguments.len()
        invariant
            i <= arguments.len(),
            string_views(words@) == seq![shell_quoted(executable@)] + quoted_words(
                string_views(arguments@).take(i as int),
            ),
        decreases arguments.len() - i,
    {
        let ghost before = words@;
        let q = shell_quote(arguments[i].as_str());
        words.push(q);
        proof {
            let args = string_views(arguments@);
            assert(string_views(words@) =~= string_views(before).push(q@));
            assert(args.take(i + 1) =~= args.take(i as int).push(args[i as int]));
            assert(quoted_words(args.take(i + 1)) =~= quoted_words(args.take(i as int)).push(
                shell_quoted(args[i as int]),
            ));
            assert(string_views(words@) =~= seq![shell_quoted(executable@)] + quoted_words(
                args.take(i + 1),
            ));
        }
        i = i + 1;
    }
    proof {
        assert(string_views(arguments@).take(arguments.len() as int) =~= string_views(arguments@));
    }
    let mut out: Vec<char> = Vec::new();
    push_joined(&mut out, &words, " ");
    assert(out@ =~= service_shell_command(executable@, string_views(arguments@)));
    string_of(&out)
}

/// The `pkexec` argument vector that runs the service executable on Linux.
pub fn pkexec_service_arguments(executable: &str, arguments: &Vec<String>) -> (argv: Vec<String>)
    ensures
        string_views(argv@) == seq![executable@] + string_views(arguments@),
{
    let mut argv: Vec<String> = Vec::new();
    argv.push(executable.to_string());
    let mut i: usize = 0;
    while i < arguments.len()
        invariant
            i <= arguments.len(),
            string_views(argv@) == seq![executable@] + string_views(arguments@).take(i as int),
        decreases arguments.len() - i,
    {
        let ghost before = argv@;
        let item = arguments[i].clone();
        assert(item@ == arguments@[i as int]@);
        argv.push(item);
        proof {
            let args = string_views(arguments@);
            assert(string_views(argv@) =~= string_views(before).push(args[i as int]));
            assert(args.take(i + 1) =~= args.take(i as int).push(args[i as int]));
            assert(string_views(argv@) =~= seq![executable@] + args.take(i + 1));
        }
        i = i + 1;
    }
    proof {
        assert(string_views(arguments@).take(arguments.len() as int) =~= string_views(arguments@));
    }
    argv
}

/// The error for a service command that exited with `code`.
pub fn service_exit_error(code: i64) -> (error: NativeError)
    ensures
        error.message@ == "PRIVILEGED_SERVICE_FAILED: service command exited with "@
            + signed_decimal(code as int),
{
    let mut out: Vec<char> = Vec::new();
    push_str(&mut out, "PRIVILEGED_SERVICE_FAILED: service command exited with ");
    push_signed_decimal(&mut out, code);
    NativeError { message: string_of(&out) }
}

// ---------------------------------------------------------------------------
// Managed files
// ---------------------------------------------------------------------------
/// An absolute path without `..` components, or the message of the rule it
/// breaks.
pub open spec fn normalized_absolute_spec(path: Seq<char>) -> Result<Seq<char>, Seq<char>> {
    if !is_absolute(path) {
        Err("PRIVILEGED_FILE_INVALID_PATH: path must be absolute"@)
    } else if has_parent_traversal(path) {
        Err("PRIVILEGED_FILE_INVALID_PATH: parent traversal is not allowed"@)
    } else {
        Ok(path)
    }
}

/// Accepts an absolute path without parent traversal.
pub fn normalized_absolute(path: &str) -> (result: Result<String, NativeError>)
    ensures
        match normalized_absolute_spec(path@) {
            Ok(p) => result matches Ok(s) && s@ == p,
            Err(message) => fails_with(result, message),
        },
{
    if !is_absolute_exec(path) {
        return Err(NativeError::new("PRIVILEGED_FILE_INVALID_PATH: path must be absolute"));
    }
    if has_parent_traversal_exec(path) {
        return Err(NativeError::new("PRIVILEGED_FILE_INVALID_PATH: parent traversal is not allowed"));
    }
    Ok(path.to_string())
}

/// What the file system said about a managed file and its root.
#[derive(Debug, Clone)]
pub struct ManagedFileFacts {
    /// The canonical managed root, `None` when it could not be resolved.
    pub root: Option<ResolvedPath>,
    /// The target's parent directory (`Path::parent`), `None` when it has
    /// none.
    pub parent: Option<String>,
    /// The canonical form of the nearest existing ancestor of the target's
    /// parent, `None` when none could be resolved.
    pub ancestor: Option<String>,
    /// Whether the target exists.
    pub target_exists: bool,
    /// The canonical target when it exists, `None` when it could not be
    /// resolved.
    pub target_canonical: Option<String>,
}

/// The decision on a managed file: both paths are absolute and free of `..`,
/// the root is a directory, the target's existing ancestry and the target
/// itself resolve inside the root, and the target lies below the root as
/// written.
pub open spec fn managed_file_spec(target: Seq<char>, managed_root: Seq<char>, facts: ManagedFileFacts) -> Result<
    (),
    Seq<char>,
> {
    match normalized_absolute_spec(target) {
        Err(message) => Err(message),
        Ok(_) => match normalized_absolute_spec(managed_root) {
            Err(message) => Err(message),
            Ok(_) => match facts.root {
                None => Err("PRIVILEGED_FILE_INVALID_PATH: unable to resolve managed root"@),
                Some(root) => if !root.is_dir {
                    Err("PRIVILEGED_FILE_INVALID_PATH: managed root must be a directory"@)
                } else if facts.parent is None {
                    Err("PRIVILEGED_FILE_INVALID_PATH: target has no parent"@)
                } else {
                    match facts.ancestor {
                        None => Err("PRIVILEGED_FILE_INVALID_PATH: unable to resolve target parent"@),
                        Some(ancestor) => if !path_starts_with(ancestor@, root.canonical@)
                            || !path_starts_with(target, managed_root) {
                            Err("PRIVILEGED_FILE_INVALID_PATH: target is outside the managed root"@)
                        } else if facts.target_exists {
                            match facts.target_canonical {
                                None => Err(
                                    "PRIVILEGED_FILE_INVALID_PATH: unable to resolve target"@,
                                ),
                                Some(resolved) => if !path_starts_with(
                                    resolved@,
                                    root.canonical@,
                                ) {
                                    Err(
                                        "PRIVILEGED_FILE_INVALID_PATH: target resolves outside the managed root"@,
                                    )
                                } else {
                                    Ok(())
                                },
                            }
                        } else {
                            Ok(())
                        },
                    }
                },
            },
        },
    }
}

/// Decides whether a managed file may be repaired.
pub fn validate_managed_file(target: &str, managed_root: &str, facts: &ManagedFileFacts) -> (result:
    Result<(), NativeError>)
    ensures
        match managed_file_spec(target@, managed_root@, *facts) {
            Ok(()) => result is Ok,
            Err(message) => fails_with(result, message),
        },
{
    match normalized_absolute(target) {
        Err(error) => {
            return Err(error);
        },
        Ok(_) => {},
    }
    match normalized_absolute(managed_root) {
        Err(error) => {
            return Err(error);
        },
        Ok(_) => {},
    }
    let root = match &facts.root {
        None => {
            return Err(NativeError::new("PRIVILEGED_FILE_INVALID_PATH: unable to resolve managed root"));
        },
        Some(root) => root,
    };
    if !root.is_dir {
        return Err(NativeError::new("PRIVILEGED_FILE_INVALID_PATH: managed root must be a directory"));
    }
    if facts.parent.is_none() {
        return Err(NativeError::new("PRIVILEGED_FILE_INVALID_PATH: target has no parent"));
    }
    let ancestor = match &facts.ancestor {
        None => {
            return Err(NativeError::new("PRIVILEGED_FILE_INVALID_PATH: unable to resolve target parent"));
        },
        Some(ancestor) => ancestor,
    };
    if !path_starts_with_exec(ancestor.as_str(), root.canonical.as_str()) || !path_starts_with_exec(
        target,
        managed_root,
    ) {
        return Err(NativeError::new("PRIVILEGED_FILE_INVALID_PATH: target is outside the managed root"));
    }
    if facts.target_exists {
        match &facts.target_canonical {
            None => {
                return Err(NativeError::new("PRIVILEGED_FILE_INVALID_PATH: unable to resolve target"));
            },
            Some(resolved) => {
                if !path_starts_with_exec(resolved.as_str(), root.canonical.as_str()) {
                    return Err(
                        NativeError::new(
                            "PRIVILEGED_FILE_INVALID_PATH: target resolves outside the managed root",
                        ),
                    );
                }
            },
        }
    }
    Ok(())
}

/// The owner may only be the current, non-root user and group.
pub fn check_requested_owner(uid: u32, gid: u32, current_uid: u32, current_gid: u32) -> (result:
    Result<(), NativeError>)
    ensures
        (uid != 0 && uid == current_uid && gid == current_gid) ==> result is Ok,
        !(uid != 0 && uid == current_uid && gid == current_gid) ==> fails_with(
            result,
            "PRIVILEGED_FILE_INVALID_OWNER: owner must be the current non-root user"@,
        ),
{
    if uid == 0 || uid != current_uid || gid != current_gid {
        return Err(
            NativeError::new("PRIVILEGED_FILE_INVALID_OWNER: owner must be the current non-root user"),
        );
    }
    Ok(())
}

/// The script `pkexec /bin/sh -c` runs to repair a managed file on Linux;
/// the paths and ids arrive as positional parameters, never inside it.
pub open spec fn linux_repair_script() -> Seq<char> {
    "mkdir -p -- \"$1\" && chown \"$2:$3\" -- \"$1\" && chmod u+rwx -- \"$1\" && { [ ! -e \"$4\" ] || { chown \"$2:$3\" -- \"$4\" && chmod u+rw -- \"$4\"; }; }"@
}

/// The `pkexec` argument vector that repairs a managed file on Linux.
pub fn linux_repair_arguments(target: &str, parent: &str, uid: u32, gid: u32) -> (argv: Vec<String>)
    ensures
        string_views(argv@) == seq![
            "/bin/sh"@,
            "-c"@,
            linux_repair_script(),
            "kokorobox-permission-repair"@,
            parent@,
            decimal(uid as nat),
            decimal(gid as nat),
            target@,
        ],
{
    let mut argv: Vec<String> = Vec::new();
    argv.push("/bin/sh".to_string());
    argv.push("-c".to_string());
    argv.push(
        "mkdir -p -- \"$1\" && chown \"$2:$3\" -- \"$1\" && chmod u+rwx -- \"$1\" && { [ ! -e \"$4\" ] || { chown \"$2:$3\" -- \"$4\" && chmod u+rw -- \"$4\"; }; }".to_string(),
    );
    argv.push("kokorobox-permission-repair".to_string());
    argv.push(parent.to_string());
    argv.push(decimal_string(uid as u128));
    argv.push(decimal_string(gid as u128));
    argv.push(target.to_string());
    assert(string_views(argv@) =~= seq![
        "/bin/sh"@,
        "-c"@,
        linux_repair_script(),
        "kokorobox-permission-repair"@,
        parent@,
        decimal(uid as nat),
        decimal(gid as nat),
        target@,
    ]);
    argv
}

/// The shell command that repairs a managed file on macOS, every path and
/// the owner single-quoted.
pub open spec fn macos_repair_shell(target: Seq<char>, parent: Seq<char>, uid: nat, gid: nat) -> Seq<
    char,
> {
    let owner = shell_quoted(decimal(uid) + ":"@ + decimal(gid));
    let p = shell_quoted(parent);
    let t = shell_quoted(target);
    "/bin/mkdir -p "@ + p + " && /usr/sbin/chown "@ + owner + " "@ + p + " && /bin/chmod u+rwx "@ + p
        + " && { [ ! -e "@ + t + " ] || { /usr/sbin/chown "@ + owner + " "@ + t
        + " && /bin/chmod u+rw "@ + t + "; }; }"@
}

/// Builds the macOS repair command.
pub fn macos_repair_command(target: &str, parent: &str, uid: u32, gid: u32) -> (shell: String)
    ensures
        shell@ == macos_repair_shell(target@, parent@, uid as nat, gid as nat),
{
    let mut owner_text: Vec<char> = Vec::new();
    crate::text::push_decimal(&mut owner_text, uid as u128);
    owner_text.push(':');
    crate::text::push_decimal(&mut owner_text, gid as u128);
    let owner_string = string_of(&owner_text);
    proof {
        reveal_strlit(":");
    }
    assert(owner_string@ =~= decimal(uid as nat) + ":"@ + decimal(gid as nat));
    let mut out: Vec<char> = Vec::new();
    push_str(&mut out, "/bin/mkdir -p ");
    push_shell_quoted(&mut out, parent);
    push_str(&mut out, " && /usr/sbin/chown ");
    push_shell_quoted(&mut out, owner_string.as_str());
    push_str(&mut out, " ");
    push_shell_quoted(&mut out, parent);
    push_str(&mut out, " && /bin/chmod u+rwx ");
    push_shell_quoted(&mut out, parent);
    push_str(&mut out, " && { [ ! -e ");
    push_shell_quoted(&mut out, target);
    push_str(&mut out, " ] || { /usr/sbin/chown ");
    push_shell_quoted(&mut out, owner_string.as_str());
    push_str(&mut out, " ");
    push_shell_quoted(&mut out, target);
    push_str(&mut out, " && /bin/chmod u+rw ");
    push_shell_quoted(&mut out, target);
    push_str(&mut out, "; }; }");
    assert(out@ =~= macos_repair_shell(target@, parent@, uid as nat, gid as nat));
    string_of(&out)
}

// ---------------------------------------------------------------------------
// Running the elevated commands
// ---------------------------------------------------------------------------
/// How an elevated command is run.
#[derive(Debug, Clone)]
pub enum ServiceInvocation {
    /// On Windows: the executable with its arguments, run directly when the
    /// process is already elevated and through the elevation prompt
    /// otherwise.
    Windows { executable: String, arguments: Vec<String> },
    /// `pkexec` with these arguments.
    Pkexec(Vec<String>),
    /// `osascript -e` with this program.
    Osascript(String),
}

/// An invocation as values: its kind (0 Windows, 1 pkexec, 2 osascript) and
/// its words.
pub open spec fn invocation_view(invocation: ServiceInvocation) -> (int, Seq<Seq<char>>) {
    match invocation {
        ServiceInvocation::Windows { executable, arguments } => (
            0,
            seq![executable@] + string_views(arguments@),
        ),
        ServiceInvocation::Pkexec(argv) => (1, string_views(argv@)),
        ServiceInvocation::Osascript(script) => (2, seq![script@]),
    }
}

/// The invocation that runs the service executable with `arguments` on
/// `os`.
pub open spec fn service_invocation_spec(
    executable: Seq<char>,
    arguments: Seq<Seq<char>>,
    os: TargetOs,
) -> Result<(int, Seq<Seq<char>>), Seq<char>> {
    match os {
        TargetOs::Windows => Ok((0, seq![executable] + arguments)),
        TargetOs::Linux => Ok((1, seq![executable] + arguments)),
        TargetOs::Macos => Ok(
            (2, seq![administrator_script(service_shell_command(executable, arguments))]),
        ),
        TargetOs::Other => Err(
            "UNSUPPORTED_PLATFORM: privileged service commands require Windows, Linux, or macOS"@,
        ),
    }
}

/// The decision of a service lifecycle request: the executable is validated
/// (`resolved` is what canonicalising it gave), the command line built, and
/// the elevated invocation chosen for `os`.
pub open spec fn service_lifecycle_spec(
    options: ServiceLifecycleOptions,
    resolved: Option<ResolvedPath>,
    os: TargetOs,
) -> Result<(int, Seq<Seq<char>>), Seq<char>> {
    match service_executable_spec(options.executable_path@, resolved, os) {
        Err(message) => Err(message),
        Ok(executable) => match service_arguments_spec(options, os) {
            Err(message) => Err(message),
            Ok(arguments) => service_invocation_spec(executable, arguments, os),
        },
    }
}

/// Decides how a service lifecycle request is run.
pub fn run_service_lifecycle(
    options: &ServiceLifecycleOptions,
    resolved: &Option<ResolvedPath>,
    os: TargetOs,
) -> (result: Result<ServiceInvocation, NativeError>)
    ensures
        match service_lifecycle_spec(*options, *resolved, os) {
            Ok(expected) => result matches Ok(invocation) && invocation_view(invocation)
                == expected,
            Err(message) => fails_with(result, message),
        },
{
    let executable = validate_service_executable(options.executable_path.as_str(), resolved, os)?;
    let arguments = service_arguments(options, os)?;
    match os {
        TargetOs::Windows => Ok(ServiceInvocation::Windows { executable, arguments }),
        TargetOs::Linux => Ok(
            ServiceInvocation::Pkexec(pkexec_service_arguments(executable.as_str(), &arguments)),
        ),
        TargetOs::Macos => {
            let command = macos_service_command(executable.as_str(), &arguments);
            Ok(ServiceInvocation::Osascript(privileged_shell_script(command.as_str())))
        },
        TargetOs::Other => Err(
            NativeError::new(
                "UNSUPPORTED_PLATFORM: privileged service commands require Windows, Linux, or macOS",
            ),
        ),
    }
}

/// The error for an elevated shell command that could not be started:
/// `code` followed by `: unable to run osascript`.
pub fn privileged_shell_start_error(code: &str) -> (error: NativeError)
    ensures
        error.message@ == code@ + ": unable to run osascript"@,
{
    let mut out: Vec<char> = Vec::new();
    push_str(&mut out, code);
    push_str(&mut out, ": unable to run osascript");
    NativeError { message: string_of(&out) }
}

/// The error for an elevated shell command that failed: `code` followed by
/// what it wrote to standard error, decoded and trimmed.
pub fn privileged_shell_error(code: &str, stderr: &[u8]) -> (error: NativeError)
    ensures
        error.message@ == code@ + ": "@ + trim(lossy_utf8(stderr@)),
{
    let text = from_utf8_lossy(stderr);
    let mut out: Vec<char> = Vec::new();
    push_str(&mut out, code);
    push_str(&mut out, ": ");
    append_chars(&mut out, &trim_exec(&chars_of(text.as_str())));
    NativeError { message: string_of(&out) }
}

/// The decision of a permission repair: the owner must be the current
/// non-root user (`current` holds the real user and group IDs) on a Unix
/// system, the managed file must pass its checks, and the repair runs
/// through `pkexec` on Linux and `osascript` on macOS.
pub open spec fn repair_spec(
    target: Seq<char>,
    managed_root: Seq<char>,
    uid: u32,
    gid: u32,
    current: (u32, u32),
    facts: ManagedFileFacts,
    os: TargetOs,
) -> Result<(int, Seq<Seq<char>>), Seq<char>> {
    if os == TargetOs::Windows {
        Err("UNSUPPORTED_PLATFORM: managed-file permission repair requires Unix"@)
    } else if !(uid != 0 && uid == current.0 && gid == current.1) {
        Err("PRIVILEGED_FILE_INVALID_OWNER: owner must be the current non-root user"@)
    } else {
        match managed_file_spec(target, managed_root, facts) {
            Err(message) => Err(message),
            Ok(()) => {
                let parent = facts.parent->Some_0@;
                match os {
                    TargetOs::Linux => Ok(
                        (
                            1,
                            seq![
                                "/bin/sh"@,
                                "-c"@,
                                linux_repair_script(),
                                "kokorobox-permission-repair"@,
                                parent,
                                decimal(uid as nat),
                                decimal(gid as nat),
                                target,
                            ],
                        ),
                    ),
                    TargetOs::Macos => Ok(
                        (
                            2,
                            seq![
                                administrator_script(
                                    macos_repair_shell(target, parent, uid as nat, gid as nat),
                                ),
                            ],
                        ),
                    ),
                    _ => Err(
                        "UNSUPPORTED_PLATFORM: managed-file permission repair requires Linux or macOS"@,
                    ),
                }
            },
        }
    }
}

/// Decides how a managed file's ownership and permissions are repaired.
pub fn repair_managed_file_permissions(
    target: &str,
    managed_root: &str,
    uid: u32,
    gid: u32,
    current: (u32, u32),
    facts: &ManagedFileFacts,
    os: TargetOs,
) -> (result: Result<ServiceInvocation, NativeError>)
    ensures
        match repair_spec(target@, managed_root@, uid, gid, current, *facts, os) {
            Ok(expected) => result matches Ok(invocation) && invocation_view(invocation)
                == expected,
            Err(message) => fails_with(result, message),
        },
{
    if os == TargetOs::Windows {
        return Err(
            NativeError::new("UNSUPPORTED_PLATFORM: managed-file permission repair requires Unix"),
        );
    }
    check_requested_owner(uid, gid, current.0, current.1)?;
    validate_managed_file(target, managed_root, facts)?;
    let parent = match &facts.parent {
        Some(parent) => parent,
        None => {
            return Err(NativeError::new("PRIVILEGED_FILE_INVALID_PATH: target has no parent"));
        },
    };
    match os {
        TargetOs::Linux => Ok(
            ServiceInvocation::Pkexec(linux_repair_arguments(target, parent.as_str(), uid, gid)),
        ),
        TargetOs::Macos => {
            let shell = macos_repair_command(target, parent.as_str(), uid, gid);
            Ok(ServiceInvocation::Osascript(privileged_shell_script(shell.as_str())))
        },
        _ => Err(
            NativeError::new(
                "UNSUPPORTED_PLATFORM: managed-file permission repair requires Linux or macOS",
            ),
        ),
    }
}

// ---------------------------------------------------------------------------
// Operations that only exist on other systems
// ---------------------------------------------------------------------------
/// The shell command that removes the service of earlier releases.
pub open spec fn legacy_cleanup_shell() -> Seq<char> {
    "/bin/launchctl bootout system/KokoroBoxService >/dev/null 2>&1 || true; /bin/rm -f '/Library/LaunchDaemons/KokoroBoxService.plist' '/Library/PrivilegedHelperTools/com.amamiyakokoro.kokorobox-service'"@
}

/// Removes the service left by earlier releases, as administrator; only
/// macOS has it.  A failure is reported under
/// `PRIVILEGED_MACOS_SERVICE_CLEANUP_FAILED`.
pub fn cleanup_legacy_macos_service(os: TargetOs) -> (result: Result<ServiceInvocation, NativeError>)
    ensures
        os == TargetOs::Macos ==> (result matches Ok(invocation) && invocation_view(invocation) == (
            2int,
            seq![administrator_script(legacy_cleanup_shell())],
        )),
        os != TargetOs::Macos ==> fails_with(
            result,
            "UNSUPPORTED_PLATFORM: legacy macOS service cleanup requires macOS"@,
        ),
{
    if os != TargetOs::Macos {
        return Err(NativeError::new("UNSUPPORTED_PLATFORM: legacy macOS service cleanup requires macOS"));
    }
    Ok(
        ServiceInvocation::Osascript(
            privileged_shell_script(
                "/bin/launchctl bootout system/KokoroBoxService >/dev/null 2>&1 || true; /bin/rm -f '/Library/LaunchDaemons/KokoroBoxService.plist' '/Library/PrivilegedHelperTools/com.amamiyakokoro.kokorobox-service'",
            ),
        ),
    )
}

/// The shell command that stops the managed service.
pub open spec fn stop_service_shell() -> Seq<char> {
    "/bin/launchctl kill SIGTERM system/KokoroBoxService"@
}

/// Stops the managed service, as administrator; only macOS has it.  A
/// failure is reported under `PRIVILEGED_MACOS_SERVICE_STOP_FAILED`.
pub fn stop_macos_managed_service(os: TargetOs) -> (result: Result<ServiceInvocation, NativeError>)
    ensures
        os == TargetOs::Macos ==> (result matches Ok(invocation) && invocation_view(invocation) == (
            2int,
            seq![administrator_script(stop_service_shell())],
        )),
        os != TargetOs::Macos ==> fails_with(
            result,
            "UNSUPPORTED_PLATFORM: stopping the managed macOS service requires macOS"@,
        ),
{
    if os != TargetOs::Macos {
        return Err(
            NativeError::new("UNSUPPORTED_PLATFORM: stopping the managed macOS service requires macOS"),
        );
    }
    Ok(
        ServiceInvocation::Osascript(
            privileged_shell_script("/bin/launchctl kill SIGTERM system/KokoroBoxService"),
        ),
    )
}

/// How the current application is started again.
#[derive(Debug, Clone)]
pub enum Relaunch {
    /// Through the elevation prompt.
    Elevated(ShellExecuteRequest),
    /// Below the interactive desktop shell, without elevation.
    Unelevated(UnelevatedLaunch),
}

/// Starts a new copy of the current application (`executable`, as the
/// process reports it) with `arguments`, elevated or not; only Windows
/// relaunches.
pub fn relaunch_current_application_with_privilege(
    executable: &str,
    arguments: &Vec<String>,
    elevated: bool,
    os: TargetOs,
) -> (result: Result<Relaunch, NativeError>)
    ensures
        os != TargetOs::Windows ==> fails_with(
            result,
            "UNSUPPORTED_PLATFORM: privilege relaunch requires Windows"@,
        ),
        os == TargetOs::Windows && elevated ==> (result matches Ok(Relaunch::Elevated(request))
            && runas_request(request, executable@, string_views(arguments@)) && request.show
            == ShowWindow::Normal && !request.wait_for_exit),
        os == TargetOs::Windows && !elevated ==> (result matches Ok(Relaunch::Unelevated(launch))
            && launch.application@ == wide_null(executable@) && launch.command_line@ == wide_null(
            command_line_text(executable@, string_views(arguments@)),
        )),
{
    if os != TargetOs::Windows {
        return Err(NativeError::new("UNSUPPORTED_PLATFORM: privilege relaunch requires Windows"));
    }
    if elevated {
        Ok(Relaunch::Elevated(launch_elevated(executable, arguments)))
    } else {
        Ok(Relaunch::Unelevated(launch_unelevated(executable, arguments)))
    }
}

} // verus!
