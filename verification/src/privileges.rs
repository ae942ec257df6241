//! Set-user-ID privileges of the Mihomo core files: which paths may be
//! changed, the status of each, and the privileged commands that grant or
//! revoke the bit.
use vstd::prelude::*;
use crate::TargetOs;
use crate::error::{NativeError, fails_with};
use crate::paths::{ResolvedPath, file_name, file_name_exec, is_absolute, is_absolute_exec};
use crate::privileged_operations::{
    administrator_script, privileged_shell_script, shell_quote, shell_quoted,
};
use crate::text::{chars_of, join, push_joined, push_str, push_signed_decimal, signed_decimal, string_of, string_views};
use crate::windows_paths::{win_file_name, win_file_name_exec, win_is_absolute, win_is_absolute_exec};

verus! {

broadcast use vstd::string::group_string_axioms;

#[derive(Debug, Clone)]
pub struct CorePrivilegeStatus {
    pub path: String,
    pub granted: bool,
}

pub const MAXIMUM_CORE_PATHS: usize = 8;

/// What resolving one requested path gave.
#[derive(Debug, Clone)]
pub enum CorePathLookup {
    /// The path could not be canonicalised.
    Unresolved,
    /// Its metadata could not be read; the error's message.
    MetadataError(String),
    /// The canonical path with its type and permission bits.
    Resolved(ResolvedPath),
}

/// Whether `os` is a Unix.
pub open spec fn is_unix(os: TargetOs) -> bool {
    os != TargetOs::Windows
}

/// The check of one path: its canonical form, or the message of the rule
/// it breaks (absolute, resolvable, a regular file, executable on Unix,
/// named `mihomo` or `mihomo-alpha`).
pub open spec fn core_path_check(path: Seq<char>, lookup: CorePathLookup, os: TargetOs) -> Result<Seq<char>, Seq<char>> {
    let absolute = if os == TargetOs::Windows {
        win_is_absolute(path)
    } else {
        is_absolute(path)
    };
    if !absolute {
        Err("CORE_PRIVILEGE_INVALID_PATH: core path must be absolute"@)
    } else {
        match lookup {
            CorePathLookup::Unresolved => Err("CORE_PRIVILEGE_INVALID_PATH: unable to resolve "@ + path),
            CorePathLookup::MetadataError(m) => Err(m@),
            CorePathLookup::Resolved(r) => if !r.is_file {
                Err("CORE_PRIVILEGE_INVALID_PATH: core path must be a regular file"@)
            } else if is_unix(os) && r.mode & 0o111u32 == 0 {
                Err("CORE_PRIVILEGE_INVALID_PATH: core path must be executable"@)
            } else {
                let name = if os == TargetOs::Windows {
                    win_file_name(r.canonical@)
                } else {
                    file_name(r.canonical@)
                };
                if !(name == Some("mihomo"@) || name == Some("mihomo-alpha"@)) {
                    Err("CORE_PRIVILEGE_INVALID_PATH: only mihomo and mihomo-alpha are accepted"@)
                } else {
                    Ok(r.canonical@)
                }
            },
        }
    }
}

/// The canonical paths of the first `n` requests, or the first failure.
pub open spec fn core_paths_from(
    paths: Seq<Seq<char>>,
    lookups: Seq<CorePathLookup>,
    os: TargetOs,
    n: int,
) -> Result<Seq<Seq<char>>, Seq<char>>
    decreases n,
{
    if n <= 0 {
        Ok(seq![])
    } else {
        match core_paths_from(paths, lookups, os, n - 1) {
            Err(m) => Err(m),
            Ok(done) => match core_path_check(paths[n - 1], lookups[n - 1], os) {
                Err(m) => Err(m),
                Ok(c) => Ok(done.push(c)),
            },
        }
    }
}

/// One to eight paths, each accepted: their canonical forms, or the first
/// failure.
pub open spec fn core_paths_spec(paths: Seq<Seq<char>>, lookups: Seq<CorePathLookup>, os: TargetOs) -> Result<
    Seq<Seq<char>>,
    Seq<char>,
> {
    if paths.len() == 0 {
        Err("CORE_PRIVILEGE_INVALID_PATH: at least one core path is required"@)
    } else if paths.len() > MAXIMUM_CORE_PATHS {
        Err("CORE_PRIVILEGE_INVALID_PATH: too many core paths"@)
    } else {
        core_paths_from(paths, lookups, os, paths.len() as int)
    }
}

/// The file name of a canonical path as `os` reads it.
pub open spec fn core_file_name(path: Seq<char>, os: TargetOs) -> Option<Seq<char>> {
    if os == TargetOs::Windows {
        win_file_name(path)
    } else {
        file_name(path)
    }
}

proof fn lemma_core_paths_from_named(
    paths: Seq<Seq<char>>,
    lookups: Seq<CorePathLookup>,
    os: TargetOs,
    n: int,
)
    requires
        0 <= n,
        core_paths_from(paths, lookups, os, n) is Ok,
    ensures
        core_paths_from(paths, lookups, os, n)->Ok_0.len() == n,
        forall|i: int|
            0 <= i < n ==> #[trigger] core_file_name(core_paths_from(paths, lookups, os, n)->Ok_0[i], os)
                == Some("mihomo"@) || core_file_name(core_paths_from(paths, lookups, os, n)->Ok_0[i], os)
                == Some("mihomo-alpha"@),
    decreases n,
{
    if n > 0 {
        lemma_core_paths_from_named(paths, lookups, os, n - 1);
    }
}

/// The privileged commands only ever touch core executables: an accepted
/// request names one to eight files, and the canonical name of each is
/// `mihomo` or `mihomo-alpha`.
pub proof fn accepted_core_paths_are_core_executables(
    paths: Seq<Seq<char>>,
    lookups: Seq<CorePathLookup>,
    os: TargetOs,
)
    requires
        core_paths_spec(paths, lookups, os) is Ok,
    ensures
        1 <= core_paths_spec(paths, lookups, os)->Ok_0.len() <= MAXIMUM_CORE_PATHS,
        core_paths_spec(paths, lookups, os)->Ok_0.len() == paths.len(),
        forall|i: int|
            0 <= i < paths.len() ==> #[trigger] core_file_name(
                core_paths_spec(paths, lookups, os)->Ok_0[i],
                os,
            ) == Some("mihomo"@) || core_file_name(core_paths_spec(paths, lookups, os)->Ok_0[i], os)
                == Some("mihomo-alpha"@),
{
    lemma_core_paths_from_named(paths, lookups, os, paths.len() as int);
}

fn check_core_path(path: &str, lookup: &CorePathLookup, os: TargetOs) -> (result: Result<String, NativeError>)
    ensures
        match core_path_check(path@, *lookup, os) {
            Ok(c) => result matches Ok(s) && s@ == c,
            Err(m) => fails_with(result, m),
        },
{
    let absolute = if os == TargetOs::Windows {
        win_is_absolute_exec(path)
    } else {
        is_absolute_exec(path)
    };
    if !absolute {
        return Err(NativeError::new("CORE_PRIVILEGE_INVALID_PATH: core path must be absolute"));
    }
    match lookup {
        CorePathLookup::Unresolved => {
            let mut out: Vec<char> = Vec::new();
            push_str(&mut out, "CORE_PRIVILEGE_INVALID_PATH: unable to resolve ");
            push_str(&mut out, path);
            Err(NativeError { message: string_of(&out) })
        },
        CorePathLookup::MetadataError(m) => Err(NativeError { message: m.clone() }),
        CorePathLookup::Resolved(r) => {
            if !r.is_file {
                return Err(NativeError::new("CORE_PRIVILEGE_INVALID_PATH: core path must be a regular file"));
            }
            if os != TargetOs::Windows && r.mode & 0o111u32 == 0 {
                return Err(NativeError::new("CORE_PRIVILEGE_INVALID_PATH: core path must be executable"));
            }
            let name: Option<Vec<char>> = if os == TargetOs::Windows {
                win_file_name_exec(r.canonical.as_str())
            } else {
                match file_name_exec(r.canonical.as_str()) {
                    Some(n) => Some(chars_of(n.as_str())),
                    None => None,
                }
            };
            let accepted = match &name {
                Some(n) => crate::paths::chars_equal(n, &chars_of("mihomo")) || crate::paths::chars_equal(
                    n,
                    &chars_of("mihomo-alpha"),
                ),
                None => false,
            };
            if !accepted {
                return Err(
                    NativeError::new(
                        "CORE_PRIVILEGE_INVALID_PATH: only mihomo and mihomo-alpha are accepted",
                    ),
                );
            }
            Ok(r.canonical.clone())
        },
    }
}

/// Validates the requested core paths; `lookups` holds what resolving each
/// gave.
pub fn validate_core_paths(paths: &Vec<String>, lookups: &Vec<CorePathLookup>, os: TargetOs) -> (result:
    Result<Vec<String>, NativeError>)
    requires
        lookups.len() == paths.len(),
    ensures
        match core_paths_spec(string_views(paths@), lookups@, os) {
            Ok(c) => result matches Ok(v) && string_views(v@) == c,
            Err(m) => fails_with(result, m),
        },
{
    if paths.len() == 0 {
        return Err(NativeError::new("CORE_PRIVILEGE_INVALID_PATH: at least one core path is required"));
    }
    if paths.len() > MAXIMUM_CORE_PATHS {
        return Err(NativeError::new("CORE_PRIVILEGE_INVALID_PATH: too many core paths"));
    }
    let ghost views = string_views(paths@);
    let mut out: Vec<String> = Vec::new();
    let mut i: usize = 0;
    while i < paths.len()
        invariant
            i <= paths.len(),
            lookups.len() == paths.len(),
            0 < paths.len() <= MAXIMUM_CORE_PATHS,
            views == string_views(paths@),
            core_paths_from(views, lookups@, os, i as int) matches Ok(done) && string_views(out@) == done,
        decreases paths.len() - i,
    {
        assert(views[i as int] == paths@[i as int]@);
        match check_core_path(paths[i].as_str(), &lookups[i], os) {
            Err(e) => {
                proof {
                    lemma_core_error_persists(views, lookups@, os, i + 1, paths.len() as int);
                }
                return Err(e);
            },
            Ok(c) => {
                let ghost before = out@;
                out.push(c);
                assert(string_views(out@) =~= string_views(before).push(c@));
            },
        }
        i = i + 1;
    }
    Ok(out)
}

proof fn lemma_core_error_persists(
    paths: Seq<Seq<char>>,
    lookups: Seq<CorePathLookup>,
    os: TargetOs,
    k: int,
    n: int,
)
    requires
        0 < k <= n,
        core_paths_from(paths, lookups, os, k) is Err,
    ensures
        core_paths_from(paths, lookups, os, n) == core_paths_from(paths, lookups, os, k),
    decreases n - k,
{
    if k < n {
        lemma_core_error_persists(paths, lookups, os, k, n - 1);
    }
}

/// The set-user-ID bit.
pub const SETUID: u32 = 0o4000;

/// The status of each validated path: granted when its set-user-ID bit is
/// set.  Only Unix has the bit.
pub fn get_core_privilege_status(paths: &Vec<String>, lookups: &Vec<CorePathLookup>, os: TargetOs) -> (result:
    Result<Vec<CorePrivilegeStatus>, NativeError>)
    requires
        lookups.len() == paths.len(),
    ensures
        match core_paths_spec(string_views(paths@), lookups@, os) {
            Err(m) => fails_with(result, m),
            Ok(c) => if !is_unix(os) {
                fails_with(result, "UNSUPPORTED_PLATFORM: core file privileges are only available on Unix"@)
            } else {
                result matches Ok(v) && v@.len() == c.len() && forall|i: int|
                    0 <= i < c.len() ==> (#[trigger] v@[i]).path@ == c[i] && v@[i].granted == (
                    lookups@[i]->Resolved_0.mode & SETUID != 0)
            },
        },
{
    let validated = match validate_core_paths(paths, lookups, os) {
        Err(e) => {
            return Err(e);
        },
        Ok(v) => v,
    };
    if os == TargetOs::Windows {
        return Err(NativeError::new("UNSUPPORTED_PLATFORM: core file privileges are only available on Unix"));
    }
    proof {
        lemma_core_paths_resolved(string_views(paths@), lookups@, os, paths.len() as int);
    }
    let mut out: Vec<CorePrivilegeStatus> = Vec::new();
    let mut i: usize = 0;
    while i < validated.len()
        invariant
            i <= validated.len(),
            validated.len() == paths.len(),
            lookups.len() == paths.len(),
            out@.len() == i,
            forall|j: int| 0 <= j < paths.len() ==> (#[trigger] lookups@[j]) is Resolved,
            forall|j: int|
                0 <= j < i ==> (#[trigger] out@[j]).path@ == validated@[j]@ && out@[j].granted == (
                lookups@[j]->Resolved_0.mode & SETUID != 0),
        decreases validated.len() - i,
    {
        let granted = match &lookups[i] {
            CorePathLookup::Resolved(r) => r.mode & SETUID != 0,
            _ => false,
        };
        out.push(CorePrivilegeStatus { path: validated[i].clone(), granted });
        i = i + 1;
    }
    Ok(out)
}

proof fn lemma_core_paths_resolved(
    paths: Seq<Seq<char>>,
    lookups: Seq<CorePathLookup>,
    os: TargetOs,
    n: int,
)
    requires
        0 <= n,
        core_paths_from(paths, lookups, os, n) is Ok,
    ensures
        forall|j: int| 0 <= j < n ==> (#[trigger] lookups[j]) is Resolved,
        core_paths_from(paths, lookups, os, n)->Ok_0.len() == n,
    decreases n,
{
    if n > 0 {
        lemma_core_paths_resolved(paths, lookups, os, n - 1);
    }
}

// ---------------------------------------------------------------------------
// Changing the bit
// ---------------------------------------------------------------------------
/// A privileged command.
#[derive(Debug, Clone)]
pub enum PrivilegedCommand {
    /// `pkexec` with these arguments.
    Pkexec(Vec<String>),
    /// `osascript -e` with this program.
    Osascript(String),
}

/// Where `chown` or `chmod` lives: the first of `/usr/bin` and `/bin` that
/// holds it (`present` says which do).
pub fn command_path(name: &str, present: (bool, bool)) -> (result: Result<String, NativeError>)
    ensures
        present.0 ==> (result matches Ok(p) && p@ == "/usr/bin/"@ + name@),
        !present.0 && present.1 ==> (result matches Ok(p) && p@ == "/bin/"@ + name@),
        !present.0 && !present.1 ==> fails_with(
            result,
            "CORE_PRIVILEGE_ELEVATION_FAILED: "@ + name@ + " is unavailable"@,
        ),
{
    let mut out: Vec<char> = Vec::new();
    if present.0 {
        push_str(&mut out, "/usr/bin/");
        push_str(&mut out, name);
        Ok(string_of(&out))
    } else if present.1 {
        push_str(&mut out, "/bin/");
        push_str(&mut out, name);
        Ok(string_of(&out))
    } else {
        push_str(&mut out, "CORE_PRIVILEGE_ELEVATION_FAILED: ");
        push_str(&mut out, name);
        push_str(&mut out, " is unavailable");
        Err(NativeError { message: string_of(&out) })
    }
}

/// The `pkexec` arguments running `program` with `operation` on the paths.
pub open spec fn pkexec_arguments(program: Seq<char>, operation: Seq<char>, paths: Seq<Seq<char>>) -> Seq<Seq<char>> {
    seq![program, operation, "--"@] + paths
}

fn pkexec_command(program: &str, operation: &str, paths: &Vec<String>) -> (argv: Vec<String>)
    ensures
        string_views(argv@) == pkexec_arguments(program@, operation@, string_views(paths@)),
{
    let mut argv: Vec<String> = vec![program.to_string(), operation.to_string(), "--".to_string()];
    assert(string_views(argv@) =~= seq![program@, operation@, "--"@]);
    let ghost head = string_views(argv@);
    let mut i: usize = 0;
    while i < paths.len()
        invariant
            i <= paths.len(),
            string_views(argv@) == head + string_views(paths@).take(i as int),
        decreases paths.len() - i,
    {
        let ghost before = argv@;
        let p = paths[i].clone();
        argv.push(p);
        assert(string_views(argv@) =~= string_views(before).push(p@));
        assert(string_views(paths@).take(i + 1) =~= string_views(paths@).take(i as int).push(paths@[i as int]@));
        i = i + 1;
    }
    assert(string_views(paths@).take(paths.len() as int) =~= string_views(paths@));
    argv
}

/// The quoted paths, separated by spaces.
pub open spec fn quoted_paths(paths: Seq<Seq<char>>) -> Seq<char> {
    join(crate::privileged_operations::quoted_words(paths), " "@)
}

/// The shell command that changes the bit on macOS.
pub open spec fn macos_privilege_shell(paths: Seq<Seq<char>>, enabled: bool) -> Seq<char> {
    let a = quoted_paths(paths);
    if enabled {
        "/usr/sbin/chown root:admin -- "@ + a + " && /bin/chmod u+s -- "@ + a
    } else {
        "/bin/chmod u-s -- "@ + a
    }
}

fn quoted_paths_exec(paths: &Vec<String>) -> (text: Vec<char>)
    ensures
        text@ == quoted_paths(string_views(paths@)),
{
    let mut words: Vec<String> = Vec::new();
    let mut i: usize = 0;
    while i < paths.len()
        invariant
            i <= paths.len(),
            string_views(words@) == crate::privileged_operations::quoted_words(string_views(paths@).take(i as int)),
        decreases paths.len() - i,
    {
        let ghost before = words@;
        let q = shell_quote(paths[i].as_str());
        words.push(q);
        proof {
            let v = string_views(paths@);
            assert(string_views(words@) =~= string_views(before).push(q@));
            assert(v.take(i + 1) =~= v.take(i as int).push(v[i as int]));
            assert(crate::privileged_operations::quoted_words(v.take(i + 1)) =~= crate::privileged_operations::quoted_words(
                v.take(i as int),
            ).push(shell_quoted(v[i as int])));
        }
        i = i + 1;
    }
    assert(string_views(paths@).take(paths.len() as int) =~= string_views(paths@));
    let mut out: Vec<char> = Vec::new();
    push_joined(&mut out, &words, " ");
    assert(out@ =~= quoted_paths(string_views(paths@)));
    out
}

/// The commands for a validated set of paths: on Linux `chown root:root`
/// (when enabling) then `chmod u+s`, or `chmod u-s`, through `pkexec`; on
/// macOS one administrator shell.
pub open spec fn privilege_commands_spec(
    paths: Seq<Seq<char>>,
    enabled: bool,
    os: TargetOs,
    chmod: Result<Seq<char>, Seq<char>>,
    chown: Result<Seq<char>, Seq<char>>,
) -> Result<Seq<(bool, Seq<Seq<char>>, Seq<char>)>, Seq<char>> {
    match os {
        TargetOs::Linux => match chmod {
            Err(m) => Err(m),
            Ok(chmod) => if enabled {
                match chown {
                    Err(m) => Err(m),
                    Ok(chown) => Ok(
                        seq![
                            (true, pkexec_arguments(chown, "root:root"@, paths), seq![]),
                            (true, pkexec_arguments(chmod, "u+s"@, paths), seq![]),
                        ],
                    ),
                }
            } else {
                Ok(seq![(true, pkexec_arguments(chmod, "u-s"@, paths), seq![])])
            },
        },
        TargetOs::Macos => Ok(seq![(false, seq![], administrator_script(macos_privilege_shell(paths, enabled)))]),
        _ => Err("UNSUPPORTED_PLATFORM: core file privileges are only available on Linux and macOS"@),
    }
}

/// Granting sets the set-user-ID bit (`u+s`) after making root the owner;
/// revoking clears it (`u-s`) and does nothing else.  On Linux each is a
/// `pkexec` of the tool found, its operation, `--` and the paths; on macOS
/// one administrator shell runs `chown root:admin` and `chmod u+s`, or
/// `chmod u-s`, on the single-quoted paths.
pub proof fn privilege_commands_set_or_clear_the_bit(
    paths: Seq<Seq<char>>,
    chmod: Seq<char>,
    chown: Seq<char>,
    other: Result<Seq<char>, Seq<char>>,
)
    ensures
        privilege_commands_spec(paths, false, TargetOs::Linux, Ok::<Seq<char>, Seq<char>>(chmod), other) == Ok::<Seq<(bool, Seq<Seq<char>>, Seq<char>)>, Seq<char>>(
            seq![(true, seq![chmod, "u-s"@, "--"@] + paths, Seq::<char>::empty())],
        ),
        privilege_commands_spec(paths, true, TargetOs::Linux, Ok::<Seq<char>, Seq<char>>(chmod), Ok::<Seq<char>, Seq<char>>(chown)) == Ok::<Seq<(bool, Seq<Seq<char>>, Seq<char>)>, Seq<char>>(
            seq![
                (true, seq![chown, "root:root"@, "--"@] + paths, Seq::<char>::empty()),
                (true, seq![chmod, "u+s"@, "--"@] + paths, Seq::<char>::empty()),
            ],
        ),
        privilege_commands_spec(paths, false, TargetOs::Macos, other, other) == Ok::<Seq<(bool, Seq<Seq<char>>, Seq<char>)>, Seq<char>>(
            seq![
                (
                    false,
                    Seq::<Seq<char>>::empty(),
                    crate::privileged_operations::administrator_script(
                        "/bin/chmod u-s -- "@ + quoted_paths(paths),
                    ),
                ),
            ],
        ),
        privilege_commands_spec(paths, true, TargetOs::Macos, other, other) == Ok::<Seq<(bool, Seq<Seq<char>>, Seq<char>)>, Seq<char>>(
            seq![
                (
                    false,
                    Seq::<Seq<char>>::empty(),
                    crate::privileged_operations::administrator_script(
                        "/usr/sbin/chown root:admin -- "@ + quoted_paths(paths)
                            + " && /bin/chmod u+s -- "@ + quoted_paths(paths),
                    ),
                ),
            ],
        ),
{
}

/// A command as plain values.
pub open spec fn command_view(c: PrivilegedCommand) -> (bool, Seq<Seq<char>>, Seq<char>) {
    match c {
        PrivilegedCommand::Pkexec(argv) => (true, string_views(argv@), seq![]),
        PrivilegedCommand::Osascript(script) => (false, seq![], script@),
    }
}

/// The optional result as plain values.
pub open spec fn result_view(r: Result<String, NativeError>) -> Result<Seq<char>, Seq<char>> {
    match r {
        Ok(s) => Ok(s@),
        Err(e) => Err(e.message@),
    }
}

/// Decides how the bit is changed: the paths are validated, then the
/// commands built; `chmod` and `chown` are where those tools were found
/// (`command_path`).
pub fn set_core_privileges(
    paths: &Vec<String>,
    lookups: &Vec<CorePathLookup>,
    enabled: bool,
    os: TargetOs,
    chmod: &Result<String, NativeError>,
    chown: &Result<String, NativeError>,
) -> (result: Result<Vec<PrivilegedCommand>, NativeError>)
    requires
        lookups.len() == paths.len(),
    ensures
        match core_paths_spec(string_views(paths@), lookups@, os) {
            Err(m) => fails_with(result, m),
            Ok(c) => match privilege_commands_spec(c, enabled, os, result_view(*chmod), result_view(*chown)) {
                Err(m) => fails_with(result, m),
                Ok(cmds) => result matches Ok(v) && v@.map_values(|x: PrivilegedCommand| command_view(x)) == cmds,
            },
        },
{
    let validated = match validate_core_paths(paths, lookups, os) {
        Err(e) => {
            return Err(e);
        },
        Ok(v) => v,
    };
    match os {
        TargetOs::Linux => {
            let chmod_path = match chmod {
                Err(e) => {
                    return Err(NativeError { message: e.message.clone() });
                },
                Ok(p) => p,
            };
            let mut commands: Vec<PrivilegedCommand> = Vec::new();
            if enabled {
                let chown_path = match chown {
                    Err(e) => {
                        return Err(NativeError { message: e.message.clone() });
                    },
                    Ok(p) => p,
                };
                commands.push(PrivilegedCommand::Pkexec(pkexec_command(chown_path.as_str(), "root:root", &validated)));
                commands.push(PrivilegedCommand::Pkexec(pkexec_command(chmod_path.as_str(), "u+s", &validated)));
            } else {
                commands.push(PrivilegedCommand::Pkexec(pkexec_command(chmod_path.as_str(), "u-s", &validated)));
            }
            proof {
                let c = core_paths_spec(string_views(paths@), lookups@, os)->Ok_0;
                let cmds = privilege_commands_spec(c, enabled, os, result_view(*chmod), result_view(*chown))->Ok_0;
                assert(commands@.map_values(|x: PrivilegedCommand| command_view(x)) =~= cmds);
            }
            Ok(commands)
        },
        TargetOs::Macos => {
            let a = quoted_paths_exec(&validated);
            let mut shell: Vec<char> = Vec::new();
            if enabled {
                push_str(&mut shell, "/usr/sbin/chown root:admin -- ");
                crate::text::append_chars(&mut shell, &a);
                push_str(&mut shell, " && /bin/chmod u+s -- ");
                crate::text::append_chars(&mut shell, &a);
            } else {
                push_str(&mut shell, "/bin/chmod u-s -- ");
                crate::text::append_chars(&mut shell, &a);
            }
            assert(shell@ =~= macos_privilege_shell(string_views(validated@), enabled));
            let script = privileged_shell_script(string_of(&shell).as_str());
            let commands: Vec<PrivilegedCommand> = vec![PrivilegedCommand::Osascript(script)];
            proof {
                let c = core_paths_spec(string_views(paths@), lookups@, os)->Ok_0;
                let cmds = privilege_commands_spec(c, enabled, os, result_view(*chmod), result_view(*chown))->Ok_0;
                assert(commands@.map_values(|x: PrivilegedCommand| command_view(x)) =~= cmds);
            }
            Ok(commands)
        },
        _ => Err(
            NativeError::new(
                "UNSUPPORTED_PLATFORM: core file privileges are only available on Linux and macOS",
            ),
        ),
    }
}

/// The error for a `pkexec` command that could not start.
pub fn elevation_start_error(program: &str) -> (error: NativeError)
    ensures
        error.message@ == "CORE_PRIVILEGE_ELEVATION_FAILED: unable to run "@ + program@,
{
    let mut out: Vec<char> = Vec::new();
    push_str(&mut out, "CORE_PRIVILEGE_ELEVATION_FAILED: unable to run ");
    push_str(&mut out, program);
    NativeError { message: string_of(&out) }
}

/// The error for a `pkexec` command that exited unsuccessfully (`-1` when
/// it has no exit code).
pub fn elevation_exit_error(program: &str, code: i64) -> (error: NativeError)
    ensures
        error.message@ == "CORE_PRIVILEGE_ELEVATION_FAILED: "@ + program@ + " exited with "@
            + signed_decimal(code as int),
{
    let mut out: Vec<char> = Vec::new();
    push_str(&mut out, "CORE_PRIVILEGE_ELEVATION_FAILED: ");
    push_str(&mut out, program);
    push_str(&mut out, " exited with ");
    push_signed_decimal(&mut out, code);
    NativeError { message: string_of(&out) }
}

} // verus!
