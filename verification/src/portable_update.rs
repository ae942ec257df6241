//! The portable updater's rules: its command line, the checks on the
//! archive, extractor and application it is handed, and the extraction
//! command.  Waiting for Desktop, running 7-Zip and restarting KokoroBox are
//! done by the updater program.
use vstd::prelude::*;
use crate::TargetOs;
use crate::error::{NativeError, fails_with};
use crate::paths::{
    ResolvedPath, chars_equal, components, components_exec, extension_exec, extension_of,
    file_name_exec,
};
use crate::privileged_operations::{absolute_on, file_name_on};
use crate::text::{
    append_chars, chars_of, contains_char, from_utf8_lossy, is_ascii_digit, lossy_utf8,
    push_str, string_of, string_views, trim, trim_exec, vec_views,
};
use crate::windows_paths::{
    char_views, eq_ignore_ascii_case, eq_ignore_ascii_case_exec, win_components, win_components_exec,
    win_file_name_exec, win_is_absolute_exec,
};
use crate::paths::is_absolute_exec;

verus! {

broadcast use vstd::string::group_string_axioms;

/// The updater's validated command line.
#[derive(Debug, Clone)]
pub struct UpdateOptions {
    pub parent_pid: u32,
    pub archive: String,
    pub extractor: String,
    pub application: String,
}

// ---------------------------------------------------------------------------
// Decimal numbers
// ---------------------------------------------------------------------------
/// The value of a string of decimal digits.
pub open spec fn digits_value(digits: Seq<char>) -> nat
    decreases digits.len(),
{
    if digits.len() == 0 {
        0
    } else {
        digits_value(digits.drop_last()) * 10 + (digits.last() as nat - '0' as nat) as nat
    }
}

/// The digits of an unsigned number: the text after an optional `+`.
pub open spec fn unsigned_digits(s: Seq<char>) -> Seq<char> {
    if s.len() > 0 && s[0] == '+' {
        s.subrange(1, s.len() as int)
    } else {
        s
    }
}

/// `u32::from_str`: an optional `+` and at least one decimal digit, whose
/// value fits in 32 bits.
pub open spec fn parsed_u32(s: Seq<char>) -> Option<u32> {
    let digits = unsigned_digits(s);
    if digits.len() > 0 && (forall|i: int| 0 <= i < digits.len() ==> is_ascii_digit(#[trigger] digits[i]))
        && digits_value(digits) <= u32::MAX {
        Some(digits_value(digits) as u32)
    } else {
        None
    }
}

/// Appending digits never makes the value smaller.
proof fn lemma_digits_value_grows(digits: Seq<char>, i: int, j: int)
    requires
        0 <= i <= j <= digits.len(),
        forall|k: int| 0 <= k < digits.len() ==> is_ascii_digit(#[trigger] digits[k]),
    ensures
        digits_value(digits.take(i)) <= digits_value(digits.take(j)),
    decreases j - i,
{
    if i < j {
        lemma_digits_value_grows(digits, i, j - 1);
        assert(digits.take(j).drop_last() =~= digits.take(j - 1));
    }
}

/// Parses a decimal `u32` as `str::parse` does.
pub fn parse_u32(s: &str) -> (value: Option<u32>)
    ensures
        value == parsed_u32(s@),
{
    let chars = chars_of(s);
    let start: usize = if chars.len() > 0 && chars[0] == '+' {
        1
    } else {
        0
    };
    let ghost digits = chars@.subrange(start as int, chars@.len() as int);
    assert(digits =~= unsigned_digits(s@));
    if start >= chars.len() {
        assert(digits.len() == 0);
        return None;
    }
    let mut i: usize = start;
    while i < chars.len()
        invariant
            start <= i <= chars.len(),
            digits == chars@.subrange(start as int, chars@.len() as int),
            digits == unsigned_digits(s@),
            forall|k: int| 0 <= k < i - start ==> is_ascii_digit(#[trigger] digits[k]),
        decreases chars.len() - i,
    {
        if !('0' <= chars[i] && chars[i] <= '9') {
            assert(digits[i - start] == chars@[i as int]);
            assert(!is_ascii_digit(digits[i - start]));
            assert(!(forall|k: int| 0 <= k < digits.len() ==> is_ascii_digit(#[trigger] digits[k])));
            return None;
        }
        i = i + 1;
    }
    let mut value: u64 = 0;
    let mut i: usize = start;
    while i < chars.len()
        invariant
            start <= i <= chars.len(),
            digits == chars@.subrange(start as int, chars@.len() as int),
            digits == unsigned_digits(s@),
            forall|k: int| 0 <= k < digits.len() ==> is_ascii_digit(#[trigger] digits[k]),
            value == digits_value(digits.take(i - start)),
            value <= u32::MAX,
        decreases chars.len() - i,
    {
        assert(digits[i - start] == chars@[i as int]);
        assert(is_ascii_digit(digits[i - start]));
        assert(digits.take(i - start + 1).drop_last() =~= digits.take(i - start));
        let digit = (chars[i] as u32 - '0' as u32) as u64;
        value = value * 10 + digit;
        assert(digits.take(i - start + 1).last() == digits[i - start]);
        assert(value == digits_value(digits.take(i - start + 1)));
        if value > 4294967295 {
            proof {
                lemma_digits_value_grows(digits, i - start + 1, digits.len() as int);
                assert(digits.take(digits.len() as int) =~= digits);
            }
            return None;
        }
        i = i + 1;
    }
    assert(digits.take(digits.len() as int) =~= digits);
    Some(value as u32)
}

// ---------------------------------------------------------------------------
// Command line
// ---------------------------------------------------------------------------
/// The slot a flag fills (process ID, archive, extractor, application), or
/// `-1` for an unknown flag.
pub open spec fn flag_slot(flag: Seq<char>) -> int {
    if flag == "--parent-pid"@ {
        0
    } else if flag == "--archive"@ {
        1
    } else if flag == "--extractor"@ {
        2
    } else if flag == "--application"@ {
        3
    } else {
        -1
    }
}

/// Values may not hold NUL, carriage return or line feed.
pub open spec fn has_control(value: Seq<char>) -> bool {
    value.contains('\0') || value.contains('\r') || value.contains('\n')
}

/// Reads the flag and value pairs from position `i` on into `slots`: every
/// flag needs a value without control characters, must be known and may
/// appear once.
pub open spec fn scan_arguments(args: Seq<Seq<char>>, i: int, slots: Seq<Option<Seq<char>>>) -> Result<
    Seq<Option<Seq<char>>>,
    Seq<char>,
>
    decreases args.len() - i,
{
    if i < 0 || i >= args.len() {
        Ok(slots)
    } else if i + 1 >= args.len() {
        Err("missing value for "@ + args[i])
    } else if has_control(args[i + 1]) {
        Err("portable update argument contains a control character"@)
    } else if flag_slot(args[i]) < 0 {
        Err("unsupported portable update argument: "@ + args[i])
    } else if slots[flag_slot(args[i])] is Some {
        Err("duplicate portable update argument: "@ + args[i])
    } else {
        scan_arguments(args, i + 2, slots.update(flag_slot(args[i]), Some(args[i + 1])))
    }
}

/// The options the command line gives: the process ID, archive, extractor
/// and application.
pub open spec fn options_spec(args: Seq<Seq<char>>) -> Result<
    (u32, Seq<char>, Seq<char>, Seq<char>),
    Seq<char>,
> {
    match scan_arguments(args, 0, seq![None, None, None, None]) {
        Err(message) => Err(message),
        Ok(slots) => match slots[0] {
            None => Err("missing Desktop process ID"@),
            Some(pid) => match parsed_u32(pid) {
                None => Err("invalid Desktop process ID"@),
                Some(parent_pid) => if parent_pid == 0 {
                    Err("invalid Desktop process ID"@)
                } else if slots[1] is None {
                    Err("missing archive"@)
                } else if slots[2] is None {
                    Err("missing extractor"@)
                } else if slots[3] is None {
                    Err("missing application"@)
                } else {
                    Ok((parent_pid, slots[1]->Some_0, slots[2]->Some_0, slots[3]->Some_0))
                },
            },
        },
    }
}

/// The slots as values.
pub open spec fn slot_views(slots: Seq<Option<String>>) -> Seq<Option<Seq<char>>> {
    slots.map_values(
        |slot: Option<String>|
            match slot {
                Some(s) => Some(s@),
                None => None,
            },
    )
}

/// Builds `prefix` followed by `text`.
fn message_with(prefix: &str, text: &str) -> (error: NativeError)
    ensures
        error.message@ == prefix@ + text@,
{
    let mut out: Vec<char> = Vec::new();
    push_str(&mut out, prefix);
    push_str(&mut out, text);
    NativeError { message: string_of(&out) }
}

/// Reads the updater's command line (the arguments after the program name).
pub fn parse_options(arguments: &Vec<String>) -> (result: Result<UpdateOptions, NativeError>)
    ensures
        match options_spec(string_views(arguments@)) {
            Ok((pid, archive, extractor, application)) => result matches Ok(options)
                && options.parent_pid == pid && options.archive@ == archive && options.extractor@
                == extractor && options.application@ == application,
            Err(message) => fails_with(result, message),
        },
{
    let ghost args = string_views(arguments@);
    let mut slots: Vec<Option<String>> = vec![None, None, None, None];
    assert(slot_views(slots@) =~= seq![None, None, None, None]);
    let mut i: usize = 0;
    while i < arguments.len()
        invariant
            args == string_views(arguments@),
            slots@.len() == 4,
            i <= arguments.len() + 1,
            i < arguments.len() ==> scan_arguments(args, i as int, slot_views(slots@))
                == scan_arguments(args, 0, seq![None, None, None, None]),
            i >= arguments.len() ==> scan_arguments(args, 0, seq![None, None, None, None]) == Ok::<
                Seq<Option<Seq<char>>>,
                Seq<char>,
            >(slot_views(slots@)),
        decreases arguments.len() + 2 - i,
    {
        let flag = &arguments[i];
        if i + 1 >= arguments.len() {
            return Err(message_with("missing value for ", flag.as_str()));
        }
        let value = &arguments[i + 1];
        let chars = chars_of(value.as_str());
        if contains_char(&chars, '\0') || contains_char(&chars, '\r') || contains_char(&chars, '\n') {
            return Err(NativeError::new("portable update argument contains a control character"));
        }
        let name = flag.clone();
        let slot: usize = if name == "--parent-pid".to_string() {
            0
        } else if name == "--archive".to_string() {
            1
        } else if name == "--extractor".to_string() {
            2
        } else if name == "--application".to_string() {
            3
        } else {
            return Err(message_with("unsupported portable update argument: ", flag.as_str()));
        };
        assert(flag_slot(args[i as int]) == slot);
        if slots[slot].is_some() {
            return Err(message_with("duplicate portable update argument: ", flag.as_str()));
        }
        let ghost before = slot_views(slots@);
        slots.set(slot, Some(value.clone()));
        assert(slot_views(slots@) =~= before.update(slot as int, Some(args[i + 1])));
        i = i + 2;
    }
    assert(slot_views(slots@)[0] == match slots@[0] {
        Some(s) => Some(s@),
        None => None::<Seq<char>>,
    });
    let parent_pid = match &slots[0] {
        None => {
            return Err(NativeError::new("missing Desktop process ID"));
        },
        Some(pid) => match parse_u32(pid.as_str()) {
            None => {
                return Err(NativeError::new("invalid Desktop process ID"));
            },
            Some(value) => value,
        },
    };
    if parent_pid == 0 {
        return Err(NativeError::new("invalid Desktop process ID"));
    }
    assert(slot_views(slots@)[1] == match slots@[1] {
        Some(s) => Some(s@),
        None => None::<Seq<char>>,
    });
    assert(slot_views(slots@)[2] == match slots@[2] {
        Some(s) => Some(s@),
        None => None::<Seq<char>>,
    });
    assert(slot_views(slots@)[3] == match slots@[3] {
        Some(s) => Some(s@),
        None => None::<Seq<char>>,
    });
    let archive = match &slots[1] {
        None => {
            return Err(NativeError::new("missing archive"));
        },
        Some(path) => path.clone(),
    };
    let extractor = match &slots[2] {
        None => {
            return Err(NativeError::new("missing extractor"));
        },
        Some(path) => path.clone(),
    };
    let application = match &slots[3] {
        None => {
            return Err(NativeError::new("missing application"));
        },
        Some(path) => path.clone(),
    };
    Ok(UpdateOptions { parent_pid, archive, extractor, application })
}


// ---------------------------------------------------------------------------
// Files
// ---------------------------------------------------------------------------
/// A path the updater was handed, after resolution: `resolved` is what
/// canonicalising it gave (`None` when it could not be resolved).
pub open spec fn canonical_file_spec(
    path: Seq<char>,
    name: Seq<char>,
    resolved: Option<ResolvedPath>,
    os: TargetOs,
) -> Result<Seq<char>, Seq<char>> {
    if !absolute_on(os, path) {
        Err(name + " must be an absolute path"@)
    } else {
        match resolved {
            None => Err("locate "@ + name),
            Some(r) => if !r.is_file {
                Err(name + " is not a regular file"@)
            } else {
                Ok(r.canonical@)
            },
        }
    }
}

/// Checks one path and gives its canonical form.
fn canonical_file(path: &str, name: &str, resolved: &Option<ResolvedPath>, os: TargetOs) -> (result:
    Result<String, NativeError>)
    ensures
        match canonical_file_spec(path@, name@, *resolved, os) {
            Ok(canonical) => result matches Ok(c) && c@ == canonical,
            Err(message) => fails_with(result, message),
        },
{
    let absolute = if os == TargetOs::Windows {
        win_is_absolute_exec(path)
    } else {
        is_absolute_exec(path)
    };
    if !absolute {
        return Err(message_with(name, " must be an absolute path"));
    }
    match resolved {
        None => Err(message_with("locate ", name)),
        Some(r) => if !r.is_file {
            Err(message_with(name, " is not a regular file"))
        } else {
            Ok(r.canonical.clone())
        },
    }
}

/// The components of `path` as `os` reads them.
pub open spec fn components_on(os: TargetOs, path: Seq<char>) -> Seq<Seq<char>> {
    if os == TargetOs::Windows {
        win_components(path)
    } else {
        components(path)
    }
}

/// The file name of `path` on `os` compared without regard to ASCII case.
pub open spec fn named(os: TargetOs, path: Seq<char>, expected: Seq<char>) -> bool {
    file_name_on(os, path) matches Some(name) && eq_ignore_ascii_case(name, expected)
}

/// The decision on the three files: each must be an absolute path to a
/// regular file; the archive must have the extension `7z`, the extractor be
/// `7za.exe` and the application `KokoroBox.exe` (without regard to ASCII
/// case); and the archive and extractor must lie in one directory (their
/// parents compared component by component).  The paths as given are what
/// is used afterwards.
pub open spec fn validate_paths_spec(
    options: UpdateOptions,
    archive: Option<ResolvedPath>,
    extractor: Option<ResolvedPath>,
    application: Option<ResolvedPath>,
    os: TargetOs,
) -> Result<(), Seq<char>> {
    match canonical_file_spec(options.archive@, "archive"@, archive, os) {
        Err(message) => Err(message),
        Ok(a) => match canonical_file_spec(options.extractor@, "extractor"@, extractor, os) {
            Err(message) => Err(message),
            Ok(e) => match canonical_file_spec(
                options.application@,
                "application"@,
                application,
                os,
            ) {
                Err(message) => Err(message),
                Ok(p) => if !(file_name_on(os, a) matches Some(name) && extension_of(name) matches Some(
                    extension,
                ) && eq_ignore_ascii_case(extension, "7z"@)) || !named(os, e, "7za.exe"@) || !named(
                    os,
                    p,
                    "KokoroBox.exe"@,
                ) {
                    Err("invalid portable update paths"@)
                } else if components_on(os, a).drop_last() != components_on(os, e).drop_last() {
                    Err("archive and extractor must share a directory"@)
                } else {
                    Ok(())
                },
            },
        },
    }
}

/// The file name of `path` on `os`.
fn file_name_on_exec(os: TargetOs, path: &str) -> (name: Option<Vec<char>>)
    ensures
        match file_name_on(os, path@) {
            Some(n) => name matches Some(v) && v@ == n,
            None => name is None,
        },
{
    if os == TargetOs::Windows {
        win_file_name_exec(path)
    } else {
        match file_name_exec(path) {
            Some(name) => Some(chars_of(name.as_str())),
            None => None,
        }
    }
}

/// Whether the file name of `path` is `expected` up to ASCII case.
fn named_exec(os: TargetOs, path: &str, expected: &str) -> (found: bool)
    ensures
        found == named(os, path@, expected@),
{
    match file_name_on_exec(os, path) {
        Some(name) => eq_ignore_ascii_case_exec(&name, &chars_of(expected)),
        None => false,
    }
}

/// The components of `path` as `os` reads them.
fn components_on_exec(os: TargetOs, path: &str) -> (parts: Vec<Vec<char>>)
    ensures
        vec_views(parts@) == components_on(os, path@),
{
    let chars = chars_of(path);
    if os == TargetOs::Windows {
        let parts = win_components_exec(&chars);
        assert(vec_views(parts@) =~= char_views(parts@));
        parts
    } else {
        let parts = components_exec(&chars);
        assert(vec_views(parts@) =~= parts@.map_values(|c: Vec<char>| c@));
        parts
    }
}

/// Whether two component lists agree, the last component of each left out.
fn same_parent(a: &Vec<Vec<char>>, b: &Vec<Vec<char>>) -> (same: bool)
    requires
        a.len() > 0,
        b.len() > 0,
    ensures
        same == (vec_views(a@).drop_last() == vec_views(b@).drop_last()),
{
    let ghost va = vec_views(a@).drop_last();
    let ghost vb = vec_views(b@).drop_last();
    if a.len() != b.len() {
        assert(va.len() != vb.len());
        return false;
    }
    let mut i: usize = 0;
    while i + 1 < a.len()
        invariant
            a.len() == b.len(),
            a.len() > 0,
            i + 1 <= a.len(),
            va == vec_views(a@).drop_last(),
            vb == vec_views(b@).drop_last(),
            forall|k: int| 0 <= k < i ==> va[k] == vb[k],
        decreases a.len() - i,
    {
        if !chars_equal(&a[i], &b[i]) {
            assert(va[i as int] == a@[i as int]@);
            return false;
        }
        i = i + 1;
    }
    assert(va =~= vb);
    true
}

/// Checks the archive, extractor and application (`archive`, `extractor`
/// and `application` are what canonicalising each gave).
pub fn validate_paths(
    options: &UpdateOptions,
    archive: &Option<ResolvedPath>,
    extractor: &Option<ResolvedPath>,
    application: &Option<ResolvedPath>,
    os: TargetOs,
) -> (result: Result<(), NativeError>)
    ensures
        match validate_paths_spec(*options, *archive, *extractor, *application, os) {
            Ok(()) => result is Ok,
            Err(message) => fails_with(result, message),
        },
{
    let a = canonical_file(options.archive.as_str(), "archive", archive, os)?;
    let e = canonical_file(options.extractor.as_str(), "extractor", extractor, os)?;
    let p = canonical_file(options.application.as_str(), "application", application, os)?;
    let archive_is_7z = match file_name_on_exec(os, a.as_str()) {
        Some(name) => match extension_exec(&name) {
            Some(extension) => eq_ignore_ascii_case_exec(&extension, &chars_of("7z")),
            None => false,
        },
        None => false,
    };
    if !archive_is_7z || !named_exec(os, e.as_str(), "7za.exe") || !named_exec(
        os,
        p.as_str(),
        "KokoroBox.exe",
    ) {
        return Err(NativeError::new("invalid portable update paths"));
    }
    let archive_parts = components_on_exec(os, a.as_str());
    let extractor_parts = components_on_exec(os, e.as_str());
    proof {
        lemma_named_has_components(os, a@);
        lemma_named_has_components(os, e@);
    }
    if !same_parent(&archive_parts, &extractor_parts) {
        return Err(NativeError::new("archive and extractor must share a directory"));
    }
    Ok(())
}

/// A path with a file name has at least one component.
proof fn lemma_named_has_components(os: TargetOs, path: Seq<char>)
    requires
        file_name_on(os, path) is Some,
    ensures
        components_on(os, path).len() > 0,
{
    if os != TargetOs::Windows {
        assert(components(path).len() > 0);
    }
}

// ---------------------------------------------------------------------------
// Waiting, extracting, restarting
// ---------------------------------------------------------------------------
/// What waiting for Desktop to exit observed.
#[derive(Debug, Clone)]
pub enum DesktopWait {
    /// The process no longer exists (opening it reported an invalid
    /// parameter).
    Gone,
    /// Opening the process failed otherwise, with the error's text.
    OpenFailed(String),
    /// The process exited.
    Exited,
    /// The two-minute wait ran out.
    TimedOut,
    /// Waiting failed.
    Failed,
}

/// How waiting for Desktop ends: only on Windows, and only once Desktop is
/// gone.
pub fn desktop_wait_result(os: TargetOs, wait: DesktopWait) -> (result: Result<(), NativeError>)
    ensures
        os != TargetOs::Windows ==> fails_with(
            result,
            "portable updater is only available on Windows"@,
        ),
        os == TargetOs::Windows ==> match wait {
            DesktopWait::Gone | DesktopWait::Exited => result is Ok,
            DesktopWait::OpenFailed(message) => fails_with(
                result,
                "open Desktop process for wait: "@ + message@,
            ),
            DesktopWait::TimedOut => fails_with(
                result,
                "Desktop did not exit before portable update"@,
            ),
            DesktopWait::Failed => fails_with(result, "failed to wait for Desktop process"@),
        },
{
    if os != TargetOs::Windows {
        return Err(NativeError::new("portable updater is only available on Windows"));
    }
    match wait {
        DesktopWait::Gone | DesktopWait::Exited => Ok(()),
        DesktopWait::OpenFailed(message) => Err(
            message_with("open Desktop process for wait: ", message.as_str()),
        ),
        DesktopWait::TimedOut => Err(NativeError::new("Desktop did not exit before portable update")),
        DesktopWait::Failed => Err(NativeError::new("failed to wait for Desktop process")),
    }
}

/// The 7-Zip arguments that extract `archive` into `target`, the
/// application's directory (`None` when the application path has no
/// parent): `x -o<target> -y <archive>`.
pub fn extraction_arguments(target: &Option<String>, archive: &str) -> (result: Result<
    Vec<String>,
    NativeError,
>)
    ensures
        match target {
            Some(t) => result matches Ok(v) && string_views(v@) == seq![
                "x"@,
                "-o"@ + t@,
                "-y"@,
                archive@,
            ],
            None => fails_with(result, "invalid application path"@),
        },
{
    let target = match target {
        Some(t) => t,
        None => {
            return Err(NativeError::new("invalid application path"));
        },
    };
    let mut output: Vec<char> = Vec::new();
    push_str(&mut output, "-o");
    push_str(&mut output, target.as_str());
    let argv: Vec<String> = vec!["x".to_string(), string_of(&output), "-y".to_string(), archive.to_string()];
    assert(string_views(argv@) =~= seq!["x"@, "-o"@ + target@, "-y"@, archive@]);
    Ok(argv)
}

/// The error for a failed extraction: what 7-Zip wrote to standard error,
/// decoded and trimmed.
pub fn extraction_error(stderr: &[u8]) -> (error: NativeError)
    ensures
        error.message@ == "extract portable update failed: "@ + trim(lossy_utf8(stderr@)),
{
    let text = from_utf8_lossy(stderr);
    let mut out: Vec<char> = Vec::new();
    push_str(&mut out, "extract portable update failed: ");
    append_chars(&mut out, &trim_exec(&chars_of(text.as_str())));
    NativeError { message: string_of(&out) }
}

} // verus!
