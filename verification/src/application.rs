//! Application inspection: what identifies an application selected for
//! routing on each system, its display name, and the scan of a directory
//! tree for Windows executables.
use vstd::prelude::*;
use crate::TargetOs;
use crate::error::{NativeError, fails_with};
use crate::paths::{file_name, file_name_exec};
use crate::platform::opt_str;
use crate::text::{
    chars_of, from_utf8_lossy, lines_of, lossy_utf8, push_str, starts_with, string_of,
    string_views, to_lowercase, trim, trim_exec, unicode_lowercase,
};
use crate::windows_paths::{eq_ignore_ascii_case, win_file_name, win_file_name_exec};

verus! {

broadcast use vstd::string::group_string_axioms;

#[derive(Debug, Clone)]
pub struct ApplicationInfo {
    pub executable_path: String,
    pub executable_name: String,
    pub identifier: String,
    pub identifier_kind: String,
    pub icon_data_url: Option<String>,
}

#[derive(Debug, Clone)]
pub struct ApplicationScanResult {
    pub applications: Vec<ApplicationInfo>,
    pub truncated: bool,
    pub unreadable_directory_count: u32,
}

/// The error for a path that does not resolve.
pub fn not_found_error(path: &str) -> (error: NativeError)
    ensures
        error.message@ == "APPLICATION_NOT_FOUND: unable to resolve "@ + path@,
{
    let mut out: Vec<char> = Vec::new();
    push_str(&mut out, "APPLICATION_NOT_FOUND: unable to resolve ");
    push_str(&mut out, path);
    NativeError { message: string_of(&out) }
}

// ---------------------------------------------------------------------------
// Names
// ---------------------------------------------------------------------------
/// The file name of a path under the rules of `os`.
pub open spec fn file_name_for(path: Seq<char>, os: TargetOs) -> Option<Seq<char>> {
    if os == TargetOs::Windows {
        win_file_name(path)
    } else {
        file_name(path)
    }
}

/// Whether `k` is the position of the last `.` of `name`.
pub open spec fn is_last_dot(name: Seq<char>, k: int) -> bool {
    0 <= k < name.len() && name[k] == '.' && forall|j: int| k < j < name.len() ==> name[j] != '.'
}

/// `Path::file_stem` of a file name: the part before its last `.`, unless
/// that `.` is the first character.
pub open spec fn file_stem(name: Seq<char>) -> Seq<char> {
    if exists|k: int| 0 < k && is_last_dot(name, k) {
        name.take(choose|k: int| 0 < k && is_last_dot(name, k))
    } else {
        name
    }
}

fn file_stem_exec(name: &Vec<char>) -> (stem: Vec<char>)
    ensures
        stem@ == file_stem(name@),
{
    let mut k: usize = name.len();
    while k > 0 && name[k - 1] != '.'
        invariant
            k <= name.len(),
            forall|j: int| k <= j < name.len() ==> name@[j] != '.',
        decreases k,
    {
        k = k - 1;
    }
    if k >= 2 {
        let dot = k - 1;
        proof {
            assert(is_last_dot(name@, dot as int));
            let c = choose|c: int| 0 < c && is_last_dot(name@, c);
            if c < dot {
                assert(name@[dot as int] == '.');
            }
            if c > dot {
                assert(name@[c] == '.');
            }
        }
        crate::text::sub_chars(name, 0, dot)
    } else {
        proof {
            assert forall|c: int| 0 < c implies !is_last_dot(name@, c) by {
                if c < name.len() && name@[c] == '.' {
                    assert(c >= k);
                }
            }
        }
        crate::text::sub_chars(name, 0, name.len())
    }
}

/// The name shown for an application: its own name when it has one that is
/// not blank, else the path's file stem, else the path.
pub open spec fn display_name_spec(path: Seq<char>, app_name: Option<Seq<char>>, os: TargetOs) -> Seq<char> {
    match app_name {
        Some(n) if trim(n).len() > 0 => n,
        _ => match file_name_for(path, os) {
            Some(f) => file_stem(f),
            None => path,
        },
    }
}

/// The display name of an application; `app_name` is the name its bundle
/// or version resource gives.
pub fn display_name(path: &str, app_name: &Option<String>, os: TargetOs) -> (name: String)
    ensures
        name@ == display_name_spec(path@, opt_str(*app_name), os),
{
    match app_name {
        Some(n) => {
            if trim_exec(&chars_of(n.as_str())).len() > 0 {
                return n.clone();
            }
        },
        None => {},
    }
    let f: Option<Vec<char>> = if os == TargetOs::Windows {
        win_file_name_exec(path)
    } else {
        match file_name_exec(path) {
            Some(n) => Some(chars_of(n.as_str())),
            None => None,
        }
    };
    match f {
        Some(f) => string_of(&file_stem_exec(&f)),
        None => path.to_string(),
    }
}

/// An icon counts when it is not empty.
pub fn icon_data_url(icon: &Option<String>) -> (kept: Option<String>)
    ensures
        match *icon {
            Some(i) if i@.len() > 0 => kept matches Some(k) && k@ == i@,
            _ => kept is None,
        },
{
    match icon {
        Some(i) => if chars_of(i.as_str()).len() > 0 {
            Some(i.clone())
        } else {
            None
        },
        None => None,
    }
}

// ---------------------------------------------------------------------------
// Windows paths as shown
// ---------------------------------------------------------------------------
/// A Windows path with `\` separators and without the verbatim prefix:
/// `\\?\UNC\server` becomes `\\server`, `\\?\C:` becomes `C:`.
pub open spec fn normalized_windows_path(path: Seq<char>) -> Seq<char> {
    let p = crate::text::replace_all(path, seq!['/'], seq!['\\']);
    if starts_with(p, "\\\\?\\UNC\\"@) {
        "\\\\"@ + p.subrange(8, p.len() as int)
    } else if starts_with(p, "\\\\?\\"@) {
        p.subrange(4, p.len() as int)
    } else {
        p
    }
}

pub fn normalize_windows_path(path: &str) -> (normalized: String)
    ensures
        normalized@ == normalized_windows_path(path@),
{
    let slash: Vec<char> = vec!['/'];
    let backslash: Vec<char> = vec!['\\'];
    let p = crate::text::replace_all_exec(&chars_of(path), &slash, &backslash);
    assert(slash@ =~= seq!['/'] && backslash@ =~= seq!['\\']);
    let unc = chars_of("\\\\?\\UNC\\");
    let verbatim = chars_of("\\\\?\\");
    proof {
        reveal_strlit("\\\\?\\UNC\\");
        reveal_strlit("\\\\?\\");
        reveal_strlit("\\\\");
    }
    if crate::text::starts_with_exec(&p, &unc) {
        let mut out: Vec<char> = vec!['\\', '\\'];
        let rest = crate::text::sub_chars(&p, 8, p.len());
        crate::text::append_chars(&mut out, &rest);
        assert(out@ =~= normalized_windows_path(path@));
        string_of(&out)
    } else if crate::text::starts_with_exec(&p, &verbatim) {
        string_of(&crate::text::sub_chars(&p, 4, p.len()))
    } else {
        string_of(&p)
    }
}

// ---------------------------------------------------------------------------
// Inspection
// ---------------------------------------------------------------------------
/// What the system reported about the selected path.
#[derive(Debug)]
pub struct ApplicationFacts {
    /// The canonical path, `None` when it could not be resolved.
    pub canonical: Option<String>,
    /// Whether it is a file, whether a directory, and its permission bits;
    /// or the message of the error reading its metadata.
    pub metadata: Result<(bool, bool, u32), String>,
    /// The name its bundle or version resource gives, when it has one.
    pub app_name: Option<String>,
    /// Its icon as a data URL, when one could be made.
    pub icon: Option<String>,
    /// What `codesign --display --verbose=2` wrote to standard error, `None`
    /// when it could not be run (macOS only).
    pub codesign_stderr: Option<Vec<u8>>,
}

/// The identifier on a `codesign` line.
pub open spec fn identifier_line(lines: Seq<Seq<char>>) -> Option<Seq<char>>
    decreases lines.len(),
{
    if lines.len() == 0 {
        None
    } else if starts_with(lines[0], "Identifier="@) {
        Some(lines[0].subrange(11, lines[0].len() as int))
    } else {
        identifier_line(lines.drop_first())
    }
}

/// The signing identifier in `codesign` output: the first `Identifier=`
/// line, trimmed, when it is not empty.
pub open spec fn signing_identifier_spec(stderr: Seq<u8>) -> Result<Seq<char>, Seq<char>> {
    match identifier_line(lines_of(lossy_utf8(stderr))) {
        Some(id) if trim(id).len() > 0 && !trim(id).contains('\r') && !trim(id).contains('\n') => Ok(
            trim(id),
        ),
        _ => Err("APPLICATION_IDENTIFIER_UNAVAILABLE: selected application has no signing identifier"@),
    }
}

/// Reads the signing identifier from `codesign`'s standard error.
pub fn macos_signing_identifier(stderr: &Vec<u8>) -> (result: Result<String, NativeError>)
    ensures
        match signing_identifier_spec(stderr@) {
            Ok(id) => result matches Ok(s) && s@ == id,
            Err(m) => fails_with(result, m),
        },
{
    let text = from_utf8_lossy(stderr.as_slice());
    let lines = crate::text::lines_exec(&chars_of(text.as_str()));
    let ghost views = crate::text::vec_views(lines@);
    let prefix = chars_of("Identifier=");
    proof {
        reveal_strlit("Identifier=");
    }
    let mut i: usize = 0;
    assert(views.skip(0) =~= views);
    while i < lines.len()
        invariant
            i <= lines.len(),
            views == crate::text::vec_views(lines@),
            views == lines_of(lossy_utf8(stderr@)),
            prefix@ == "Identifier="@,
            prefix@.len() == 11,
            identifier_line(views) == identifier_line(views.skip(i as int)),
        decreases lines.len() - i,
    {
        let ghost rest = views.skip(i as int);
        assert(rest[0] == lines@[i as int]@);
        assert(rest.drop_first() =~= views.skip(i + 1));
        if crate::text::starts_with_exec(&lines[i], &prefix) {
            let id = crate::text::sub_chars(&lines[i], 11, lines[i].len());
            let t = trim_exec(&id);
            if t.len() > 0 && !crate::text::contains_char(&t, '\r') && !crate::text::contains_char(
                &t,
                '\n',
            ) {
                return Ok(string_of(&t));
            }
            return Err(
                NativeError::new(
                    "APPLICATION_IDENTIFIER_UNAVAILABLE: selected application has no signing identifier",
                ),
            );
        }
        i = i + 1;
    }
    Err(
        NativeError::new(
            "APPLICATION_IDENTIFIER_UNAVAILABLE: selected application has no signing identifier",
        ),
    )
}

/// The extension of a file name is `ext`, ignoring ASCII case.
pub open spec fn has_extension_ci(name: Seq<char>, ext: Seq<char>) -> bool {
    name.len() >= ext.len() + 2 && name[name.len() - ext.len() - 1] == '.' && eq_ignore_ascii_case(
        name.subrange(name.len() - ext.len(), name.len() as int),
        ext,
    )
}

/// The fields of an inspected application, or the message of the rule it
/// breaks.
pub open spec fn inspection_spec(facts: ApplicationFacts, os: TargetOs) -> Result<
    (Seq<char>, Seq<char>, Seq<char>, Seq<char>),
    Seq<char>,
> {
    match facts.canonical {
        None => Err(seq![]),
        Some(c) => {
            let path = c@;
            match facts.metadata {
                Err(m) => if os == TargetOs::Other {
                    Err("UNSUPPORTED_PLATFORM: application inspection is not supported on this platform"@)
                } else {
                    Err(m@)
                },
                Ok((is_file, is_dir, mode)) => match os {
                    TargetOs::Windows => if !is_file || !(win_file_name(path) matches Some(n)
                        && has_extension_ci(n, "exe"@)) {
                        Err(
                            "INVALID_APPLICATION: Windows application routing requires an existing .exe file"@,
                        )
                    } else {
                        let p = normalized_windows_path(path);
                        Ok(
                            (
                                p,
                                display_name_spec(path, opt_str(facts.app_name), os),
                                p,
                                "windows-executable"@,
                            ),
                        )
                    },
                    TargetOs::Macos => {
                        let bundle = is_dir && (file_name(path) matches Some(n) && has_extension_ci(
                            n,
                            "app"@,
                        ));
                        let executable = is_file && mode & 0o111u32 != 0;
                        if !bundle && !executable {
                            Err("INVALID_APPLICATION: select a signed macOS application or executable"@)
                        } else {
                            match facts.codesign_stderr {
                                None => Err(
                                    "APPLICATION_IDENTIFIER_UNAVAILABLE: unable to inspect macOS code signature"@,
                                ),
                                Some(out) => match signing_identifier_spec(out@) {
                                    Err(m) => Err(m),
                                    Ok(id) => Ok(
                                        (
                                            path,
                                            display_name_spec(path, opt_str(facts.app_name), os),
                                            id,
                                            "macos-signing-identifier"@,
                                        ),
                                    ),
                                },
                            }
                        }
                    },
                    TargetOs::Linux => if !is_file || mode & 0o111u32 == 0 {
                        Err("INVALID_APPLICATION: application routing requires an executable Linux file"@)
                    } else {
                        Ok(
                            (
                                path,
                                display_name_spec(path, opt_str(facts.app_name), os),
                                path,
                                "linux-executable"@,
                            ),
                        )
                    },
                    TargetOs::Other => Err(
                        "UNSUPPORTED_PLATFORM: application inspection is not supported on this platform"@,
                    ),
                },
            }
        },
    }
}

/// The icon kept for an inspected application.
pub open spec fn kept_icon(icon: Option<String>) -> Option<Seq<char>> {
    match icon {
        Some(i) if i@.len() > 0 => Some(i@),
        _ => None,
    }
}

fn has_extension_ci_exec(name: &Vec<char>, ext: &str) -> (b: bool)
    ensures
        b == has_extension_ci(name@, ext@),
{
    let e = chars_of(ext);
    if name.len() < e.len() || name.len() - e.len() < 2 {
        return false;
    }
    let dot = name.len() - e.len() - 1;
    if name[dot] != '.' {
        return false;
    }
    let tail = crate::text::sub_chars(name, name.len() - e.len(), name.len());
    crate::windows_paths::eq_ignore_ascii_case_exec(&tail, &e)
}

/// Inspects the selected application from what the system reported about
/// `path`.
pub fn inspect_application(path: &str, os: TargetOs, facts: &ApplicationFacts) -> (result: Result<
    ApplicationInfo,
    NativeError,
>)
    ensures
        match inspection_spec(*facts, os) {
            Err(m) => if facts.canonical is None {
                fails_with(result, "APPLICATION_NOT_FOUND: unable to resolve "@ + path@)
            } else {
                fails_with(result, m)
            },
            Ok((p, name, id, kind)) => result matches Ok(info) && {
                &&& info.executable_path@ == p
                &&& info.executable_name@ == name
                &&& info.identifier@ == id
                &&& info.identifier_kind@ == kind
                &&& opt_str(info.icon_data_url) == kept_icon(facts.icon)
            },
        },
{
    let canonical = match &facts.canonical {
        None => {
            return Err(not_found_error(path));
        },
        Some(c) => c,
    };
    let (is_file, is_dir, mode) = match &facts.metadata {
        Err(m) => {
            if os == TargetOs::Other {
                return Err(
                    NativeError::new(
                        "UNSUPPORTED_PLATFORM: application inspection is not supported on this platform",
                    ),
                );
            }
            return Err(NativeError { message: m.clone() });
        },
        Ok(m) => *m,
    };
    let icon = icon_data_url(&facts.icon);
    match os {
        TargetOs::Windows => {
            let ok = is_file && match win_file_name_exec(canonical.as_str()) {
                Some(n) => has_extension_ci_exec(&n, "exe"),
                None => false,
            };
            if !ok {
                return Err(
                    NativeError::new(
                        "INVALID_APPLICATION: Windows application routing requires an existing .exe file",
                    ),
                );
            }
            let p = normalize_windows_path(canonical.as_str());
            Ok(
                ApplicationInfo {
                    executable_path: p.clone(),
                    executable_name: display_name(canonical.as_str(), &facts.app_name, os),
                    identifier: p,
                    identifier_kind: "windows-executable".to_string(),
                    icon_data_url: icon,
                },
            )
        },
        TargetOs::Macos => {
            let bundle = is_dir && match file_name_exec(canonical.as_str()) {
                Some(n) => has_extension_ci_exec(&chars_of(n.as_str()), "app"),
                None => false,
            };
            let executable = is_file && mode & 0o111u32 != 0;
            if !bundle && !executable {
                return Err(
                    NativeError::new(
                        "INVALID_APPLICATION: select a signed macOS application or executable",
                    ),
                );
            }
            let id = match &facts.codesign_stderr {
                None => {
                    return Err(
                        NativeError::new(
                            "APPLICATION_IDENTIFIER_UNAVAILABLE: unable to inspect macOS code signature",
                        ),
                    );
                },
                Some(out) => match macos_signing_identifier(out) {
                    Err(e) => {
                        return Err(e);
                    },
                    Ok(id) => id,
                },
            };
            Ok(
                ApplicationInfo {
                    executable_path: canonical.clone(),
                    executable_name: display_name(canonical.as_str(), &facts.app_name, os),
                    identifier: id,
                    identifier_kind: "macos-signing-identifier".to_string(),
                    icon_data_url: icon,
                },
            )
        },
        TargetOs::Linux => {
            if !is_file || mode & 0o111u32 == 0 {
                return Err(
                    NativeError::new(
                        "INVALID_APPLICATION: application routing requires an executable Linux file",
                    ),
                );
            }
            Ok(
                ApplicationInfo {
                    executable_path: canonical.clone(),
                    executable_name: display_name(canonical.as_str(), &facts.app_name, os),
                    identifier: canonical.clone(),
                    identifier_kind: "linux-executable".to_string(),
                    icon_data_url: icon,
                },
            )
        },
        TargetOs::Other => Err(
            NativeError::new(
                "UNSUPPORTED_PLATFORM: application inspection is not supported on this platform",
            ),
        ),
    }
}

} // verus!

verus! {

// ---------------------------------------------------------------------------
// Scanning a directory tree for Windows executables
// ---------------------------------------------------------------------------
/// What a directory entry is.
#[derive(Debug, Clone, Copy, PartialEq, Eq, Structural)]
pub enum EntryKind {
    Symlink,
    Directory,
    File,
    Other,
}

/// One directory entry: its file name, its path, and its kind (`None` when
/// the kind could not be read).
#[derive(Debug, Clone)]
pub struct ScanEntry {
    pub name: String,
    pub path: String,
    pub kind: Option<EntryKind>,
}

/// The scan in progress: directories still to read (the last is read
/// next), how many applications were accepted, the limit, whether the
/// limit cut the scan short, how many directories could not be read, and
/// the excluded file names lower-cased.
#[derive(Debug, Clone)]
pub struct ScanState {
    pub pending: Vec<String>,
    pub found: usize,
    pub maximum: usize,
    pub truncated: bool,
    pub unreadable: u32,
    pub excluded: Vec<String>,
}

/// The limit on results: between 1 and 4096.
pub open spec fn clamp_results(maximum: u32) -> nat {
    if maximum < 1 {
        1
    } else if maximum > 4096 {
        4096
    } else {
        maximum as nat
    }
}

/// The excluded names lower-cased.
pub open spec fn lowered(names: Seq<Seq<char>>) -> Seq<Seq<char>> {
    names.map_values(|n: Seq<char>| unicode_lowercase(n))
}

/// Starts a scan of `root`: it must resolve (`canonical`) and be a
/// directory (`is_dir`, or the error reading its metadata); the scan
/// exists only on Windows.
pub fn scan_windows_applications(
    root: &str,
    canonical: &Option<String>,
    is_dir: &Result<bool, String>,
    maximum_results: u32,
    excluded_executable_names: &Vec<String>,
    os: TargetOs,
) -> (result: Result<ScanState, NativeError>)
    ensures
        os != TargetOs::Windows ==> fails_with(
            result,
            "UNSUPPORTED_PLATFORM: Windows application scanning is only available on Windows"@,
        ),
        os == TargetOs::Windows ==> match *canonical {
            None => fails_with(result, "APPLICATION_NOT_FOUND: unable to resolve "@ + root@),
            Some(c) => match *is_dir {
                Err(m) => fails_with(result, m@),
                Ok(false) => fails_with(
                    result,
                    "INVALID_DIRECTORY: application scan requires an existing directory"@,
                ),
                Ok(true) => result matches Ok(state) && {
                    &&& string_views(state.pending@) == seq![c@]
                    &&& state.found == 0
                    &&& state.maximum == clamp_results(maximum_results)
                    &&& !state.truncated
                    &&& state.unreadable == 0
                    &&& string_views(state.excluded@) == lowered(string_views(excluded_executable_names@))
                },
            },
        },
{
    if os != TargetOs::Windows {
        return Err(
            NativeError::new(
                "UNSUPPORTED_PLATFORM: Windows application scanning is only available on Windows",
            ),
        );
    }
    let c = match canonical {
        None => {
            return Err(not_found_error(root));
        },
        Some(c) => c,
    };
    match is_dir {
        Err(m) => {
            return Err(NativeError { message: m.clone() });
        },
        Ok(false) => {
            return Err(
                NativeError::new("INVALID_DIRECTORY: application scan requires an existing directory"),
            );
        },
        Ok(true) => {},
    }
    let maximum: usize = if maximum_results < 1 {
        1
    } else if maximum_results > 4096 {
        4096
    } else {
        maximum_results as usize
    };
    let mut excluded: Vec<String> = Vec::new();
    let mut i: usize = 0;
    while i < excluded_executable_names.len()
        invariant
            i <= excluded_executable_names.len(),
            string_views(excluded@) == lowered(string_views(excluded_executable_names@).take(i as int)),
        decreases excluded_executable_names.len() - i,
    {
        let ghost before = excluded@;
        let l = to_lowercase(excluded_executable_names[i].as_str());
        excluded.push(l);
        proof {
            let v = string_views(excluded_executable_names@);
            assert(v.take(i + 1) =~= v.take(i as int).push(v[i as int]));
            assert(string_views(excluded@) =~= string_views(before).push(l@));
            assert(lowered(v.take(i + 1)) =~= lowered(v.take(i as int)).push(unicode_lowercase(v[i as int])));
        }
        i = i + 1;
    }
    assert(string_views(excluded_executable_names@).take(excluded_executable_names.len() as int)
        =~= string_views(excluded_executable_names@));
    let pending: Vec<String> = vec![c.clone()];
    assert(string_views(pending@) =~= seq![c@]);
    Ok(ScanState { pending, found: 0, maximum, truncated: false, unreadable: 0, excluded })
}

/// Takes the next directory to read: none when no directory is left, or
/// when the limit is reached (the scan is then cut short).
pub fn next_directory(state: &mut ScanState) -> (directory: Option<String>)
    ensures
        old(state).pending@.len() == 0 ==> directory is None && *final(state) == *old(state),
        old(state).pending@.len() > 0 ==> {
            &&& final(state).pending@ == old(state).pending@.drop_last()
            &&& old(state).found >= old(state).maximum ==> directory is None && final(state).truncated
            &&& old(state).found < old(state).maximum ==> directory == Some(old(state).pending@.last())
                && final(state).truncated == old(state).truncated
            &&& final(state).found == old(state).found
            &&& final(state).maximum == old(state).maximum
            &&& final(state).unreadable == old(state).unreadable
            &&& final(state).excluded == old(state).excluded
        },
        scan_view(*final(state)) == next_step(scan_view(*old(state))),
{
    proof {
        if state.pending@.len() > 0 {
            assert(string_views(state.pending@.drop_last()) =~= string_views(state.pending@).drop_last());
        }
    }
    if state.pending.len() == 0 {
        return None;
    }
    match state.pending.pop() {
        None => None,
        Some(d) => {
            if state.found >= state.maximum {
                state.truncated = true;
                None
            } else {
                Some(d)
            }
        },
    }
}

/// Whether an entry is an executable that is not excluded.
pub open spec fn is_candidate(entry: ScanEntry, excluded: Seq<Seq<char>>) -> bool {
    has_extension_ci(entry.name@, "exe"@) && !excluded.contains(unicode_lowercase(entry.name@))
}

/// The executables to inspect, the subdirectories met, and whether the
/// limit stopped the listing: entries in order, directories noted, files
/// that are executables and not excluded taken while there is room; the
/// first one past the room stops the listing.
pub open spec fn scan_entries(entries: Seq<ScanEntry>, room: nat, excluded: Seq<Seq<char>>) -> (
    Seq<Seq<char>>,
    Seq<Seq<char>>,
    bool,
)
    decreases entries.len(),
{
    if entries.len() == 0 {
        (seq![], seq![], false)
    } else {
        let e = entries[0];
        match e.kind {
            Some(EntryKind::Directory) => {
                let (s, d, t) = scan_entries(entries.drop_first(), room, excluded);
                (s, seq![e.path@] + d, t)
            },
            Some(EntryKind::File) => if !is_candidate(e, excluded) {
                scan_entries(entries.drop_first(), room, excluded)
            } else if room == 0 {
                (seq![], seq![], true)
            } else {
                let (s, d, t) = scan_entries(entries.drop_first(), (room - 1) as nat, excluded);
                (seq![e.path@] + s, d, t)
            },
            _ => scan_entries(entries.drop_first(), room, excluded),
        }
    }
}

/// The entries ordered by file name, stably.
pub open spec fn entries_by_name(entries: Seq<ScanEntry>) -> Seq<ScanEntry>
    decreases entries.len(),
{
    if entries.len() == 0 {
        seq![]
    } else {
        let s = entries_by_name(entries.drop_last());
        s.insert(entry_insert_pos(s, entries.last().name@), entries.last())
    }
}

/// Where an entry named `name` goes: after every entry not named later.
pub open spec fn entry_insert_pos(sorted: Seq<ScanEntry>, name: Seq<char>) -> int
    decreases sorted.len(),
{
    if sorted.len() == 0 {
        0
    } else if crate::text::seq_lt(name, sorted[0].name@) {
        0
    } else {
        1 + entry_insert_pos(sorted.drop_first(), name)
    }
}

fn sort_entries(entries: Vec<ScanEntry>) -> (sorted: Vec<ScanEntry>)
    ensures
        sorted@ == entries_by_name(entries@),
{
    let mut sorted: Vec<ScanEntry> = Vec::new();
    let mut i: usize = 0;
    assert(entries@.take(0) =~= Seq::<ScanEntry>::empty());
    while i < entries.len()
        invariant
            i <= entries.len(),
            sorted@ == entries_by_name(entries@.take(i as int)),
        decreases entries.len() - i,
    {
        let ghost s = sorted@;
        assert(entries@.take(i + 1).drop_last() =~= entries@.take(i as int));
        assert(entries@.take(i + 1).last() == entries@[i as int]);
        let name = chars_of(entries[i].name.as_str());
        let mut j: usize = 0;
        assert(s.skip(0) =~= s);
        while j < sorted.len() && !crate::text::chars_lt(&name, &chars_of(sorted[j].name.as_str()))
            invariant
                j <= sorted.len(),
                s == sorted@,
                entry_insert_pos(s, name@) == j + entry_insert_pos(s.skip(j as int), name@),
            decreases sorted.len() - j,
        {
            proof {
                let rest = s.skip(j as int);
                assert(rest[0] == s[j as int]);
                assert(rest.drop_first() =~= s.skip(j + 1));
            }
            j = j + 1;
        }
        proof {
            let rest = s.skip(j as int);
            if j < sorted.len() {
                assert(rest[0] == s[j as int]);
            } else {
                assert(rest.len() == 0);
            }
        }
        let e = ScanEntry {
            name: entries[i].name.clone(),
            path: entries[i].path.clone(),
            kind: entries[i].kind,
        };
        assert(e == entries@[i as int]);
        sorted.insert(j, e);
        i = i + 1;
    }
    assert(entries@.take(entries.len() as int) =~= entries@);
    sorted
}

/// Records what reading the directory gave (`None` when it could not be
/// read) and gives the executables to inspect, in order.  A failure to read
/// fails the scan only when nothing was found and nothing else is pending;
/// otherwise it is counted.
pub fn scan_directory(state: &mut ScanState, listing: Option<Vec<ScanEntry>>) -> (result: Result<
    Vec<String>,
    NativeError,
>)
    requires
        old(state).found <= old(state).maximum,
    ensures
        final(state).found <= final(state).maximum,
        final(state).maximum == old(state).maximum,
        final(state).excluded == old(state).excluded,
        match listing {
            None => if old(state).found == 0 && old(state).pending@.len() == 0 {
                fails_with(result, "APPLICATION_SCAN_FAILED: unable to read selected directory"@)
            } else {
                &&& result matches Ok(v) && v@.len() == 0
                &&& final(state).unreadable == if old(state).unreadable < u32::MAX {
                    (old(state).unreadable + 1) as u32
                } else {
                    u32::MAX
                }
                &&& final(state).pending == old(state).pending
                &&& final(state).found == old(state).found
                &&& final(state).truncated == old(state).truncated
            },
            Some(entries) => {
                let (s, d, t) = scan_entries(
                    entries_by_name(entries@),
                    (old(state).maximum - old(state).found) as nat,
                    string_views(old(state).excluded@),
                );
                &&& result matches Ok(v) && string_views(v@) == s
                &&& string_views(final(state).pending@) == string_views(old(state).pending@) + d.reverse()
                &&& final(state).found == old(state).found + s.len()
                &&& final(state).truncated == (old(state).truncated || t)
                &&& final(state).unreadable == old(state).unreadable
            },
        },
        listing matches Some(entries) ==> scan_view(*final(state)) == listing_step(
            scan_view(*old(state)),
            entries@,
            string_views(old(state).excluded@),
        ),
        within_limit(scan_view(*old(state))) && old(state).found < old(state).maximum ==> within_limit(
            scan_view(*final(state)),
        ),
{
    proof {
        if listing is Some {
            lemma_scan_entries_room(
                entries_by_name(listing->Some_0@),
                (state.maximum - state.found) as nat,
                string_views(state.excluded@),
            );
        }
    }
    let entries = match listing {
        None => {
            if state.found == 0 && state.pending.len() == 0 {
                return Err(NativeError::new("APPLICATION_SCAN_FAILED: unable to read selected directory"));
            }
            state.unreadable = state.unreadable.saturating_add(1);
            return Ok(Vec::new());
        },
        Some(e) => e,
    };
    let sorted = sort_entries(entries);
    let ghost ex = string_views(state.excluded@);
    let ghost room0 = (state.maximum - state.found) as nat;
    let mut selected: Vec<String> = Vec::new();
    let mut subdirectories: Vec<String> = Vec::new();
    let mut stopped = false;
    let mut i: usize = 0;
    assert(sorted@.skip(0) =~= sorted@);
    while i < sorted.len() && !stopped
        invariant
            i <= sorted.len(),
            ex == string_views(state.excluded@),
            state.found <= state.maximum,
            room0 == state.maximum - state.found,
            selected@.len() <= room0,
            !stopped ==> {
                let (s, d, t) = scan_entries(sorted@.skip(i as int), (room0 - selected@.len()) as nat, ex);
                scan_entries(sorted@, room0, ex) == (string_views(selected@) + s, string_views(
                    subdirectories@,
                ) + d, t)
            },
            stopped ==> scan_entries(sorted@, room0, ex) == (string_views(selected@), string_views(
                subdirectories@,
            ), true),
        decreases sorted.len() - i,
    {
        let ghost rest = sorted@.skip(i as int);
        let ghost room = (room0 - selected@.len()) as nat;
        assert(rest[0] == sorted@[i as int]);
        assert(rest.drop_first() =~= sorted@.skip(i + 1));
        let e = &sorted[i];
        match e.kind {
            Some(EntryKind::Directory) => {
                let ghost before = subdirectories@;
                subdirectories.push(e.path.clone());
                proof {
                    assert(string_views(subdirectories@) =~= string_views(before).push(e.path@));
                    let (s, d, t) = scan_entries(rest.drop_first(), room, ex);
                    assert(string_views(before) + (seq![e.path@] + d) =~= string_views(subdirectories@) + d);
                }
            },
            Some(EntryKind::File) => {
                let lower = to_lowercase(e.name.as_str());
                let mut excluded_here = false;
                let mut k: usize = 0;
                while k < state.excluded.len()
                    invariant
                        k <= state.excluded.len(),
                        ex == string_views(state.excluded@),
                        excluded_here == (exists|t: int| 0 <= t < k && ex[t] == lower@),
                    decreases state.excluded.len() - k,
                {
                    assert(ex[k as int] == state.excluded@[k as int]@);
                    if crate::paths::chars_equal(&chars_of(state.excluded[k].as_str()), &chars_of(lower.as_str())) {
                        excluded_here = true;
                    }
                    k = k + 1;
                }
                let exe = has_extension_ci_exec(&chars_of(e.name.as_str()), "exe");
                if exe && !excluded_here {
                    if selected.len() >= state.maximum - state.found {
                        stopped = true;
                    } else {
                        let ghost before = selected@;
                        selected.push(e.path.clone());
                        proof {
                            assert(string_views(selected@) =~= string_views(before).push(e.path@));
                            let (s, d, t) = scan_entries(rest.drop_first(), (room - 1) as nat, ex);
                            assert(string_views(before) + (seq![e.path@] + s) =~= string_views(selected@) + s);
                        }
                    }
                }
            },
            _ => {},
        }
        i = i + 1;
    }
    proof {
        if !stopped {
            assert(sorted@.skip(i as int).len() == 0);
            assert(string_views(selected@) + seq![] =~= string_views(selected@));
            assert(string_views(subdirectories@) + seq![] =~= string_views(subdirectories@));
        }
    }
    let ghost old_pending = string_views(state.pending@);
    let ghost found0 = state.found;
    let ghost max0 = state.maximum;
    let ghost trunc0 = state.truncated;
    let ghost unread0 = state.unreadable;
    let ghost excl0 = state.excluded;
    let mut k: usize = subdirectories.len();
    while k > 0
        invariant
            k <= subdirectories.len(),
            state.found == found0,
            state.maximum == max0,
            state.truncated == trunc0,
            state.unreadable == unread0,
            state.excluded == excl0,
            string_views(state.pending@) == old_pending + string_views(subdirectories@).subrange(
                k as int,
                subdirectories@.len() as int,
            ).reverse(),
        decreases k,
    {
        let ghost before = state.pending@;
        state.pending.push(subdirectories[k - 1].clone());
        proof {
            let sv = string_views(subdirectories@);
            assert(string_views(state.pending@) =~= string_views(before).push(sv[k - 1]));
            assert(sv.subrange(k - 1, sv.len() as int).reverse() =~= sv.subrange(k as int, sv.len() as int).reverse().push(sv[k - 1]));
        }
        k = k - 1;
    }
    assert(string_views(subdirectories@).subrange(0, subdirectories@.len() as int) =~= string_views(subdirectories@));
    state.found = state.found + selected.len();
    if stopped {
        state.truncated = true;
    }
    Ok(selected)
}

/// A scan state as plain values: the directories still to read, how many
/// applications were taken, the limit, and whether the scan was cut short.
pub open spec fn scan_view(state: ScanState) -> (Seq<Seq<char>>, int, int, bool) {
    (string_views(state.pending@), state.found as int, state.maximum as int, state.truncated)
}

/// Taking the next directory: the last pending one is removed; when the
/// limit is already reached, the scan is cut short instead of reading it.
pub open spec fn next_step(v: (Seq<Seq<char>>, int, int, bool)) -> (Seq<Seq<char>>, int, int, bool) {
    let (pending, found, maximum, truncated) = v;
    if pending.len() == 0 {
        v
    } else if found >= maximum {
        (pending.drop_last(), found, maximum, true)
    } else {
        (pending.drop_last(), found, maximum, truncated)
    }
}

/// Reading a directory's entries: its executables are taken while there is
/// room, its subdirectories queued, and an executable past the room cuts
/// the scan short.
pub open spec fn listing_step(
    v: (Seq<Seq<char>>, int, int, bool),
    entries: Seq<ScanEntry>,
    excluded: Seq<Seq<char>>,
) -> (Seq<Seq<char>>, int, int, bool) {
    let (pending, found, maximum, truncated) = v;
    let (s, d, t) = scan_entries(entries_by_name(entries), (maximum - found) as nat, excluded);
    (pending + d.reverse(), found + s.len(), maximum, truncated || t)
}

/// A run of the scan from `v`: each taken directory is read with the next
/// listing (`None` for one that could not be read); the run ends when no
/// directory is pending, when the limit cuts it short, or when the listings
/// run out.
pub open spec fn scan_run(
    v: (Seq<Seq<char>>, int, int, bool),
    listings: Seq<Option<Seq<ScanEntry>>>,
    excluded: Seq<Seq<char>>,
) -> (Seq<Seq<char>>, int, int, bool)
    decreases listings.len(),
{
    if v.0.len() == 0 || v.1 >= v.2 || listings.len() == 0 {
        next_step(v)
    } else {
        let n = next_step(v);
        match listings[0] {
            None => scan_run(n, listings.drop_first(), excluded),
            Some(entries) => scan_run(listing_step(n, entries, excluded), listings.drop_first(), excluded),
        }
    }
}

/// What a scan keeps throughout: a limit of 1 to 4096, at most that many
/// applications taken, and a scan cut short only with the limit reached.
pub open spec fn within_limit(v: (Seq<Seq<char>>, int, int, bool)) -> bool {
    &&& 1 <= v.2 <= 4096
    &&& 0 <= v.1 <= v.2
    &&& v.3 ==> v.1 == v.2
}

/// Taking entries never takes more than the room, and stops short only
/// with the room used up.
proof fn lemma_scan_entries_room(entries: Seq<ScanEntry>, room: nat, excluded: Seq<Seq<char>>)
    ensures
        scan_entries(entries, room, excluded).0.len() <= room,
        scan_entries(entries, room, excluded).2 ==> scan_entries(entries, room, excluded).0.len()
            == room,
    decreases entries.len(),
{
    if entries.len() > 0 {
        lemma_scan_entries_room(entries.drop_first(), room, excluded);
        if room > 0 {
            lemma_scan_entries_room(entries.drop_first(), (room - 1) as nat, excluded);
        }
    }
}

proof fn lemma_run_within_limit(
    v: (Seq<Seq<char>>, int, int, bool),
    listings: Seq<Option<Seq<ScanEntry>>>,
    excluded: Seq<Seq<char>>,
)
    requires
        within_limit(v),
    ensures
        within_limit(scan_run(v, listings, excluded)),
        scan_run(v, listings, excluded).2 == v.2,
    decreases listings.len(),
{
    if !(v.0.len() == 0 || v.1 >= v.2 || listings.len() == 0) {
        let n = next_step(v);
        match listings[0] {
            None => lemma_run_within_limit(n, listings.drop_first(), excluded),
            Some(entries) => {
                lemma_scan_entries_room(entries_by_name(entries), (n.2 - n.1) as nat, excluded);
                lemma_run_within_limit(listing_step(n, entries, excluded), listings.drop_first(), excluded);
            },
        }
    }
}

/// A scan started on `root` with `maximum_results`, whatever its directories
/// hold, takes at most `clamp_results(maximum_results)` applications, and
/// is cut short only when it has taken exactly that many.
pub proof fn scans_stay_within_the_limit(
    root: Seq<char>,
    maximum_results: u32,
    listings: Seq<Option<Seq<ScanEntry>>>,
    excluded: Seq<Seq<char>>,
)
    ensures
        ({
            let r = scan_run(
                (seq![root], 0, clamp_results(maximum_results) as int, false),
                listings,
                excluded,
            );
            &&& r.1 <= clamp_results(maximum_results)
            &&& r.3 ==> r.1 == clamp_results(maximum_results)
        }),
{
    lemma_run_within_limit(
        (seq![root], 0, clamp_results(maximum_results) as int, false),
        listings,
        excluded,
    );
}

/// The executables of a listing that a scan with room takes: every regular
/// file that is an executable and not excluded, in order.
pub open spec fn candidates(entries: Seq<ScanEntry>, excluded: Seq<Seq<char>>) -> Seq<Seq<char>>
    decreases entries.len(),
{
    if entries.len() == 0 {
        seq![]
    } else {
        let e = entries[0];
        if e.kind == Some(EntryKind::File) && is_candidate(e, excluded) {
            seq![e.path@] + candidates(entries.drop_first(), excluded)
        } else {
            candidates(entries.drop_first(), excluded)
        }
    }
}

proof fn lemma_uncut_listing_takes_all(entries: Seq<ScanEntry>, room: nat, excluded: Seq<Seq<char>>)
    ensures
        !scan_entries(entries, room, excluded).2 ==> scan_entries(entries, room, excluded).0
            == candidates(entries, excluded),
    decreases entries.len(),
{
    if entries.len() > 0 {
        lemma_uncut_listing_takes_all(entries.drop_first(), room, excluded);
        if room > 0 {
            lemma_uncut_listing_takes_all(entries.drop_first(), (room - 1) as nat, excluded);
        }
    }
}

/// The executables a run takes, in the order it takes them.
pub open spec fn run_taken(
    v: (Seq<Seq<char>>, int, int, bool),
    listings: Seq<Option<Seq<ScanEntry>>>,
    excluded: Seq<Seq<char>>,
) -> Seq<Seq<char>>
    decreases listings.len(),
{
    if v.0.len() == 0 || v.1 >= v.2 || listings.len() == 0 {
        seq![]
    } else {
        let n = next_step(v);
        match listings[0] {
            None => run_taken(n, listings.drop_first(), excluded),
            Some(entries) => scan_entries(entries_by_name(entries), (n.2 - n.1) as nat, excluded).0
                + run_taken(listing_step(n, entries, excluded), listings.drop_first(), excluded),
        }
    }
}

/// Every executable in the directories a run reads, in reading order.
pub open spec fn run_candidates(
    v: (Seq<Seq<char>>, int, int, bool),
    listings: Seq<Option<Seq<ScanEntry>>>,
    excluded: Seq<Seq<char>>,
) -> Seq<Seq<char>>
    decreases listings.len(),
{
    if v.0.len() == 0 || v.1 >= v.2 || listings.len() == 0 {
        seq![]
    } else {
        let n = next_step(v);
        match listings[0] {
            None => run_candidates(n, listings.drop_first(), excluded),
            Some(entries) => candidates(entries_by_name(entries), excluded) + run_candidates(
                listing_step(n, entries, excluded),
                listings.drop_first(),
                excluded,
            ),
        }
    }
}

proof fn lemma_run_keeps_cut(
    v: (Seq<Seq<char>>, int, int, bool),
    listings: Seq<Option<Seq<ScanEntry>>>,
    excluded: Seq<Seq<char>>,
)
    ensures
        v.3 ==> scan_run(v, listings, excluded).3,
    decreases listings.len(),
{
    if !(v.0.len() == 0 || v.1 >= v.2 || listings.len() == 0) {
        let n = next_step(v);
        match listings[0] {
            None => lemma_run_keeps_cut(n, listings.drop_first(), excluded),
            Some(entries) => lemma_run_keeps_cut(listing_step(n, entries, excluded), listings.drop_first(), excluded),
        }
    }
}

proof fn lemma_uncut_run_takes_all(
    v: (Seq<Seq<char>>, int, int, bool),
    listings: Seq<Option<Seq<ScanEntry>>>,
    excluded: Seq<Seq<char>>,
)
    ensures
        !scan_run(v, listings, excluded).3 ==> run_taken(v, listings, excluded) == run_candidates(
            v,
            listings,
            excluded,
        ),
    decreases listings.len(),
{
    if !(v.0.len() == 0 || v.1 >= v.2 || listings.len() == 0) {
        let n = next_step(v);
        match listings[0] {
            None => lemma_uncut_run_takes_all(n, listings.drop_first(), excluded),
            Some(entries) => {
                let next = listing_step(n, entries, excluded);
                lemma_uncut_run_takes_all(next, listings.drop_first(), excluded);
                lemma_run_keeps_cut(next, listings.drop_first(), excluded);
                lemma_uncut_listing_takes_all(entries_by_name(entries), (n.2 - n.1) as nat, excluded);
            },
        }
    }
}

/// A scan that was not cut short took every executable, not excluded, of
/// every directory it read, in reading order.
pub proof fn uncut_scans_take_every_executable(
    root: Seq<char>,
    maximum_results: u32,
    listings: Seq<Option<Seq<ScanEntry>>>,
    excluded: Seq<Seq<char>>,
)
    ensures
        ({
            let start = (seq![root], 0, clamp_results(maximum_results) as int, false);
            !scan_run(start, listings, excluded).3 ==> run_taken(start, listings, excluded)
                == run_candidates(start, listings, excluded)
        }),
{
    lemma_uncut_run_takes_all(
        (seq![root], 0, clamp_results(maximum_results) as int, false),
        listings,
        excluded,
    );
}

/// The result of a finished scan.
pub fn finish_scan(state: ScanState, applications: Vec<ApplicationInfo>) -> (result: ApplicationScanResult)
    ensures
        result.applications@ == applications@,
        result.truncated == state.truncated,
        result.unreadable_directory_count == state.unreadable,
{
    ApplicationScanResult {
        applications,
        truncated: state.truncated,
        unreadable_directory_count: state.unreadable,
    }
}

} // verus!
