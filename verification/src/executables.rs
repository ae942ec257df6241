//! Executable discovery: validating the request, the directories searched,
//! matching file names, and collecting candidates without duplicates.
use vstd::prelude::*;
use crate::TargetOs;
use crate::error::{NativeError, fails_with};
use crate::paths::{chars_equal, file_name, file_name_exec, is_absolute, join_path, joined_path};
use crate::text::{
    utf8_len, chars_of, ends_with, ends_with_exec, push_str, starts_with, starts_with_exec, string_of,
    string_views, to_lowercase, unicode_lowercase,
};
use crate::windows_paths::{
    eq_ignore_ascii_case, eq_ignore_ascii_case_exec, win_file_name, win_file_name_exec,
    win_is_absolute,
};
use crate::windows::uwp_loopback::win_join;

verus! {

broadcast use vstd::string::group_string_axioms;

pub const MAX_NAMES: usize = 32;

pub const MAX_ADDITIONAL_PATHS: usize = 64;

#[derive(Debug, Clone)]
pub struct ExecutableSearchOptions {
    pub names: Vec<String>,
    pub additional_paths: Vec<String>,
    pub match_name_prefixes: bool,
}

impl Default for ExecutableSearchOptions {
    fn default() -> (options: Self)
        ensures
            options.names@.len() == 0,
            options.additional_paths@.len() == 0,
            !options.match_name_prefixes,
    {
        ExecutableSearchOptions {
            names: Vec::new(),
            additional_paths: Vec::new(),
            match_name_prefixes: false,
        }
    }
}

#[derive(Debug, Clone, PartialEq, Eq)]
pub struct ExecutableCandidate {
    pub path: String,
    pub canonical_path: String,
    pub name: String,
}

// ---------------------------------------------------------------------------
// The request
// ---------------------------------------------------------------------------
/// A name that is a plain file name: 1 to 128 bytes, not `.` or `..`, and
/// without `/`, `\` or NUL.
pub open spec fn is_safe_basename(name: Seq<char>) -> bool {
    &&& name.len() > 0
    &&& utf8_len(name) <= 128
    &&& name != "."@
    &&& name != ".."@
    &&& !name.contains('/')
    &&& !name.contains('\\')
    &&& !name.contains('\0')
}

/// Absolute under the rules of `os`.
pub open spec fn absolute_on(path: Seq<char>, os: TargetOs) -> bool {
    if os == TargetOs::Windows {
        win_is_absolute(path)
    } else {
        is_absolute(path)
    }
}

/// The request is usable, or the message of the first rule it breaks.
pub open spec fn search_options_check(options: ExecutableSearchOptions, os: TargetOs) -> Result<
    (),
    Seq<char>,
> {
    let names = string_views(options.names@);
    let paths = string_views(options.additional_paths@);
    if names.len() == 0 || names.len() > MAX_NAMES {
        Err("executable discovery requires between 1 and 32 names"@)
    } else if paths.len() > MAX_ADDITIONAL_PATHS {
        Err("executable discovery accepts at most 64 additional paths"@)
    } else if exists|i: int| 0 <= i < names.len() && !is_safe_basename(#[trigger] names[i]) {
        Err("executable discovery names must be safe file basenames"@)
    } else if exists|i: int|
        0 <= i < paths.len() && ((#[trigger] paths[i]).contains('\0') || !absolute_on(paths[i], os)) {
        Err("executable discovery additional paths must be absolute directories"@)
    } else {
        Ok(())
    }
}

fn is_safe_basename_exec(name: &String) -> (safe: bool)
    ensures
        safe == is_safe_basename(name@),
{
    let chars = chars_of(name.as_str());
    let byte_len = crate::text::utf8_len_capped(&chars, 128);
    proof {
        reveal_strlit(".");
        reveal_strlit("..");
    }
    chars.len() > 0 && byte_len <= 128 && !chars_equal(&chars, &chars_of(".")) && !chars_equal(
        &chars,
        &chars_of(".."),
    ) && !crate::text::contains_char(&chars, '/') && !crate::text::contains_char(&chars, '\\')
        && !crate::text::contains_char(&chars, '\0')
}

/// Checks a discovery request for a build on `os`.
pub fn validate_options(options: &ExecutableSearchOptions, os: TargetOs) -> (result: Result<
    (),
    NativeError,
>)
    ensures
        match search_options_check(*options, os) {
            Ok(()) => result is Ok,
            Err(message) => fails_with(result, message),
        },
{
    if options.names.len() == 0 || options.names.len() > MAX_NAMES {
        return Err(NativeError::new("executable discovery requires between 1 and 32 names"));
    }
    if options.additional_paths.len() > MAX_ADDITIONAL_PATHS {
        return Err(NativeError::new("executable discovery accepts at most 64 additional paths"));
    }
    let ghost names = string_views(options.names@);
    let ghost paths = string_views(options.additional_paths@);
    let mut i: usize = 0;
    while i < options.names.len()
        invariant
            i <= options.names.len(),
            names == string_views(options.names@),
            paths == string_views(options.additional_paths@),
            0 < names.len() <= MAX_NAMES,
            paths.len() <= MAX_ADDITIONAL_PATHS,
            forall|j: int| 0 <= j < i ==> is_safe_basename(#[trigger] names[j]),
        decreases options.names.len() - i,
    {
        if !is_safe_basename_exec(&options.names[i]) {
            assert(!is_safe_basename(names[i as int]));
            return Err(NativeError::new("executable discovery names must be safe file basenames"));
        }
        i = i + 1;
    }
    let mut k: usize = 0;
    while k < options.additional_paths.len()
        invariant
            k <= options.additional_paths.len(),
            names == string_views(options.names@),
            paths == string_views(options.additional_paths@),
            0 < names.len() <= MAX_NAMES,
            paths.len() <= MAX_ADDITIONAL_PATHS,
            forall|j: int| 0 <= j < names.len() ==> is_safe_basename(#[trigger] names[j]),
            forall|j: int|
                0 <= j < k ==> !((#[trigger] paths[j]).contains('\0') || !absolute_on(paths[j], os)),
        decreases options.additional_paths.len() - k,
    {
        let p = options.additional_paths[k].as_str();
        let absolute = if os == TargetOs::Windows {
            crate::windows_paths::win_is_absolute_exec(p)
        } else {
            crate::paths::is_absolute_exec(p)
        };
        if crate::text::contains_char(&chars_of(p), '\0') || !absolute {
            assert(paths[k as int] == p@);
            return Err(
                NativeError::new("executable discovery additional paths must be absolute directories"),
            );
        }
        k = k + 1;
    }
    Ok(())
}

// ---------------------------------------------------------------------------
// Names
// ---------------------------------------------------------------------------
/// On Windows names compare lower-cased with any `.exe` dropped.
pub open spec fn comparable_name(name: Seq<char>, os: TargetOs) -> Seq<char> {
    if os == TargetOs::Windows {
        let lower = unicode_lowercase(name);
        if ends_with(lower, ".exe"@) {
            lower.subrange(0, lower.len() - 4)
        } else {
            lower
        }
    } else {
        name
    }
}

/// A file name matches a requested name when they are equal, or with
/// `prefixes` when it starts with the name.
pub open spec fn name_matches_spec(filename: Seq<char>, names: Seq<Seq<char>>, prefixes: bool, os: TargetOs) -> bool {
    exists|i: int|
        0 <= i < names.len() && {
            let f = comparable_name(filename, os);
            let n = comparable_name(#[trigger] names[i], os);
            f == n || (prefixes && starts_with(f, n))
        }
}

fn comparable_name_exec(name: &str, os: TargetOs) -> (c: Vec<char>)
    ensures
        c@ == comparable_name(name@, os),
{
    if os == TargetOs::Windows {
        let lower = chars_of(to_lowercase(name).as_str());
        let suffix = chars_of(".exe");
        proof {
            reveal_strlit(".exe");
        }
        if ends_with_exec(&lower, &suffix) {
            crate::text::sub_chars(&lower, 0, lower.len() - 4)
        } else {
            lower
        }
    } else {
        chars_of(name)
    }
}

/// Whether a file name matches one of the requested names.
pub fn name_matches(filename: &str, names: &Vec<String>, prefixes: bool, os: TargetOs) -> (matches:
    bool)
    ensures
        matches == name_matches_spec(filename@, string_views(names@), prefixes, os),
{
    let f = comparable_name_exec(filename, os);
    let mut i: usize = 0;
    while i < names.len()
        invariant
            i <= names.len(),
            f@ == comparable_name(filename@, os),
            forall|j: int|
                0 <= j < i ==> {
                    let n = comparable_name(#[trigger] string_views(names@)[j], os);
                    !(f@ == n || (prefixes && starts_with(f@, n)))
                },
        decreases names.len() - i,
    {
        let n = comparable_name_exec(names[i].as_str(), os);
        assert(string_views(names@)[i as int] == names@[i as int]@);
        if chars_equal(&f, &n) || (prefixes && starts_with_exec(&f, &n)) {
            return true;
        }
        i = i + 1;
    }
    false
}

/// The key two paths are the same under: on Windows lower-cased.
pub open spec fn normalized_key_spec(path: Seq<char>, os: TargetOs) -> Seq<char> {
    if os == TargetOs::Windows {
        unicode_lowercase(path)
    } else {
        path
    }
}

pub fn normalized_key(path: &str, os: TargetOs) -> (key: String)
    ensures
        key@ == normalized_key_spec(path@, os),
{
    if os == TargetOs::Windows {
        to_lowercase(path)
    } else {
        path.to_string()
    }
}

// ---------------------------------------------------------------------------
// Directories
// ---------------------------------------------------------------------------
/// The pieces of a `PATH` value (`env::split_paths`): split at `:`, or on
/// Windows at `;` outside double quotes, with the quotes dropped.
pub open spec fn split_search_path(value: Seq<char>, os: TargetOs) -> Seq<Seq<char>>
    decreases value.len(),
{
    split_search_path_from(value, os, false)
}

/// Splitting with a record of whether a quote is open.
pub open spec fn split_search_path_from(value: Seq<char>, os: TargetOs, quoted: bool) -> Seq<Seq<char>>
    decreases value.len(),
{
    if value.len() == 0 {
        seq![seq![]]
    } else {
        let c = value[0];
        let rest = value.drop_first();
        if os == TargetOs::Windows {
            if c == '"' {
                split_search_path_from(rest, os, !quoted)
            } else if c == ';' && !quoted {
                seq![seq![]] + split_search_path_from(rest, os, quoted)
            } else {
                let tail = split_search_path_from(rest, os, quoted);
                tail.update(0, seq![c] + tail[0])
            }
        } else if c == ':' {
            seq![seq![]] + split_search_path_from(rest, os, quoted)
        } else {
            let tail = split_search_path_from(rest, os, quoted);
            tail.update(0, seq![c] + tail[0])
        }
    }
}

/// The entries that are absolute, in order.
pub open spec fn absolute_entries(entries: Seq<Seq<char>>, os: TargetOs) -> Seq<Seq<char>>
    decreases entries.len(),
{
    if entries.len() == 0 {
        seq![]
    } else {
        let before = absolute_entries(entries.drop_last(), os);
        if absolute_on(entries.last(), os) {
            before.push(entries.last())
        } else {
            before
        }
    }
}

/// A path joined to a relative name under the rules of `os`.
pub open spec fn join_on(base: Seq<char>, name: Seq<char>, os: TargetOs) -> Seq<char> {
    if os == TargetOs::Windows {
        win_join(base, name)
    } else {
        joined_path(base, name)
    }
}

/// The directories searched after the requested ones: the absolute entries
/// of `PATH`; on Unix `/bin`, `/usr/bin`, `/usr/local/bin` and
/// `/opt/homebrew/bin`, on Windows Chocolatey's `bin`; then the home
/// directory's `.local/bin` and `bin` (Unix) or Scoop's `shims` (Windows).
pub open spec fn standard_directories_spec(
    path_var: Option<Seq<char>>,
    program_data: Option<Seq<char>>,
    home: Option<Seq<char>>,
    os: TargetOs,
) -> Seq<Seq<char>> {
    let from_path = match path_var {
        Some(v) => absolute_entries(split_search_path(v, os), os),
        None => seq![],
    };
    let fixed = if os == TargetOs::Windows {
        match program_data {
            Some(d) => seq![join_on(join_on(d, "chocolatey"@, os), "bin"@, os)],
            None => seq![],
        }
    } else {
        seq!["/bin"@, "/usr/bin"@, "/usr/local/bin"@, "/opt/homebrew/bin"@]
    };
    let from_home = match home {
        Some(h) => if os == TargetOs::Windows {
            seq![join_on(join_on(h, "scoop"@, os), "shims"@, os)]
        } else {
            seq![join_on(join_on(h, ".local"@, os), "bin"@, os), join_on(h, "bin"@, os)]
        },
        None => seq![],
    };
    from_path + fixed + from_home
}

/// `cur` put in front of the first piece.
pub open spec fn prepend_first(cur: Seq<char>, pieces: Seq<Seq<char>>) -> Seq<Seq<char>> {
    pieces.update(0, cur + pieces[0])
}

proof fn lemma_split_search_nonempty(value: Seq<char>, os: TargetOs, quoted: bool)
    ensures
        split_search_path_from(value, os, quoted).len() >= 1,
    decreases value.len(),
{
    if value.len() > 0 {
        lemma_split_search_nonempty(value.drop_first(), os, !quoted);
        lemma_split_search_nonempty(value.drop_first(), os, quoted);
    }
}

/// Splits a `PATH` value into its entries.
pub fn split_search_path_exec(value: &str, os: TargetOs) -> (entries: Vec<String>)
    ensures
        string_views(entries@) == split_search_path(value@, os),
{
    let chars = chars_of(value);
    let mut done: Vec<String> = Vec::new();
    let mut cur: Vec<char> = Vec::new();
    let mut quoted = false;
    let mut i: usize = 0;
    assert(chars@.skip(0) =~= chars@);
    proof {
        lemma_split_search_nonempty(chars@, os, false);
        assert(prepend_first(cur@, split_search_path_from(chars@, os, false)) =~= split_search_path_from(
            chars@,
            os,
            false,
        ));
    }
    while i < chars.len()
        invariant
            i <= chars.len(),
            chars@ == value@,
            split_search_path(value@, os) == string_views(done@) + prepend_first(
                cur@,
                split_search_path_from(chars@.skip(i as int), os, quoted),
            ),
        decreases chars.len() - i,
    {
        let c = chars[i];
        let ghost rest = chars@.skip(i as int);
        let ghost next = chars@.skip(i + 1);
        proof {
            assert(rest[0] == c);
            assert(rest.drop_first() =~= next);
            lemma_split_search_nonempty(next, os, quoted);
            lemma_split_search_nonempty(next, os, !quoted);
        }
        if os == TargetOs::Windows && c == '"' {
            quoted = !quoted;
        } else if (os == TargetOs::Windows && c == ';' && !quoted) || (os != TargetOs::Windows && c
            == ':') {
            let ghost before = done@;
            let ghost cv = cur@;
            done.push(string_of(&cur));
            cur = Vec::new();
            proof {
                let t = split_search_path_from(next, os, quoted);
                assert(prepend_first(cv, seq![seq![]] + t) =~= seq![cv] + t);
                assert(prepend_first(cur@, t) =~= t);
                assert(string_views(done@) =~= string_views(before).push(cv));
            }
        } else {
            let ghost cv = cur@;
            cur.push(c);
            proof {
                let t = split_search_path_from(next, os, quoted);
                assert(cv + (seq![c] + t[0]) =~= cur@ + t[0]);
                assert(t.update(0, seq![c] + t[0])[0] == seq![c] + t[0]);
                assert(prepend_first(cv, t.update(0, seq![c] + t[0])) =~= prepend_first(cur@, t));
            }
        }
        i = i + 1;
    }
    proof {
        assert(chars@.skip(i as int) =~= Seq::<char>::empty());
        assert(prepend_first(cur@, seq![seq![]]) =~= seq![cur@]);
    }
    let ghost before = done@;
    done.push(string_of(&cur));
    assert(string_views(done@) =~= string_views(before).push(cur@));
    done
}

fn join_on_exec(base: &str, name: &str, os: TargetOs) -> (joined: String)
    ensures
        joined@ == join_on(base@, name@, os),
{
    if os == TargetOs::Windows {
        string_of(&crate::windows::uwp_loopback::win_join_exec(base, name))
    } else {
        join_path(base, name)
    }
}

fn push_view(out: &mut Vec<String>, s: String)
    ensures
        string_views(final(out)@) == string_views(old(out)@).push(s@),
{
    out.push(s);
    assert(string_views(out@) =~= string_views(old(out)@).push(s@));
}

/// The standard search directories from `PATH`, `ProgramData` and the home
/// directory (`USERPROFILE` on Windows, `HOME` elsewhere).
pub fn standard_search_directories(
    path_var: &Option<String>,
    program_data: &Option<String>,
    home: &Option<String>,
    os: TargetOs,
) -> (directories: Vec<String>)
    ensures
        string_views(directories@) == standard_directories_spec(
            crate::platform::opt_str(*path_var),
            crate::platform::opt_str(*program_data),
            crate::platform::opt_str(*home),
            os,
        ),
{
    let mut dirs: Vec<String> = Vec::new();
    match path_var {
        Some(v) => {
            let entries = split_search_path_exec(v.as_str(), os);
            let ghost views = string_views(entries@);
            let mut i: usize = 0;
            assert(views.take(0) =~= Seq::<Seq<char>>::empty());
            while i < entries.len()
                invariant
                    i <= entries.len(),
                    views == string_views(entries@),
                    string_views(dirs@) == absolute_entries(views.take(i as int), os),
                decreases entries.len() - i,
            {
                assert(views.take(i + 1).drop_last() =~= views.take(i as int));
                assert(views.take(i + 1).last() == entries@[i as int]@);
                let e = entries[i].as_str();
                let absolute = if os == TargetOs::Windows {
                    crate::windows_paths::win_is_absolute_exec(e)
                } else {
                    crate::paths::is_absolute_exec(e)
                };
                if absolute {
                    push_view(&mut dirs, entries[i].clone());
                }
                i = i + 1;
            }
            assert(views.take(entries.len() as int) =~= views);
        },
        None => {},
    }
    let ghost from_path = string_views(dirs@);
    if os == TargetOs::Windows {
        match program_data {
            Some(d) => {
                let c = join_on_exec(d.as_str(), "chocolatey", os);
                push_view(&mut dirs, join_on_exec(c.as_str(), "bin", os));
            },
            None => {},
        }
    } else {
        push_view(&mut dirs, "/bin".to_string());
        push_view(&mut dirs, "/usr/bin".to_string());
        push_view(&mut dirs, "/usr/local/bin".to_string());
        push_view(&mut dirs, "/opt/homebrew/bin".to_string());
    }
    let ghost after_fixed = string_views(dirs@);
    match home {
        Some(h) => {
            if os == TargetOs::Windows {
                let s = join_on_exec(h.as_str(), "scoop", os);
                push_view(&mut dirs, join_on_exec(s.as_str(), "shims", os));
            } else {
                let l = join_on_exec(h.as_str(), ".local", os);
                push_view(&mut dirs, join_on_exec(l.as_str(), "bin", os));
                push_view(&mut dirs, join_on_exec(h.as_str(), "bin", os));
            }
        },
        None => {},
    }
    assert(string_views(dirs@) =~= standard_directories_spec(
        crate::platform::opt_str(*path_var),
        crate::platform::opt_str(*program_data),
        crate::platform::opt_str(*home),
        os,
    ));
    dirs
}

} // verus!

verus! {

// ---------------------------------------------------------------------------
// The search
// ---------------------------------------------------------------------------
/// A name has an extension: a `.` after its first character.
pub open spec fn has_extension(name: Seq<char>) -> bool {
    exists|k: int| 0 < k < name.len() && name[k] == '.'
}

fn has_extension_exec(name: &Vec<char>) -> (b: bool)
    ensures
        b == has_extension(name@),
{
    let mut k: usize = 1;
    while k < name.len()
        invariant
            1 <= k,
            forall|j: int| 0 < j < k && j < name.len() ==> name@[j] != '.',
        decreases name.len() - k,
    {
        if name[k] == '.' {
            return true;
        }
        k = k + 1;
    }
    false
}

/// One step of the search.
#[derive(Debug, Clone, PartialEq, Eq)]
pub enum SearchStep {
    /// List the directory and keep the entries `matching_entries` accepts.
    ListDirectory(String),
    /// Probe these paths, in order.
    Probe(Vec<String>),
}

/// The paths probed in a directory: each name, and on Windows also the name
/// with `.exe` when it has no extension.
pub open spec fn probe_paths(directory: Seq<char>, names: Seq<Seq<char>>, os: TargetOs) -> Seq<Seq<char>>
    decreases names.len(),
{
    if names.len() == 0 {
        seq![]
    } else {
        let before = probe_paths(directory, names.drop_last(), os);
        let name = names.last();
        let plain = before.push(join_on(directory, name, os));
        if os == TargetOs::Windows && !has_extension(name) {
            plain.push(join_on(directory, name + ".exe"@, os))
        } else {
            plain
        }
    }
}

/// A directory is searched when no earlier one has the same key.
pub open spec fn first_of_key(directories: Seq<Seq<char>>, i: int, os: TargetOs) -> bool {
    forall|j: int| 0 <= j < i ==> normalized_key_spec(#[trigger] directories[j], os) != normalized_key_spec(directories[i], os)
}

/// A step as the directory listed, or the paths probed.
pub open spec fn step_view(step: SearchStep) -> (bool, Seq<Seq<char>>) {
    match step {
        SearchStep::ListDirectory(d) => (true, seq![d@]),
        SearchStep::Probe(paths) => (false, string_views(paths@)),
    }
}

/// The steps for the directories: each directory once, listed when
/// prefixes match, else probed for each name.
pub open spec fn search_steps(
    directories: Seq<Seq<char>>,
    names: Seq<Seq<char>>,
    prefixes: bool,
    os: TargetOs,
) -> Seq<(bool, Seq<Seq<char>>)>
    decreases directories.len(),
{
    if directories.len() == 0 {
        seq![]
    } else {
        let before = search_steps(directories.drop_last(), names, prefixes, os);
        let d = directories.last();
        if !first_of_key(directories, directories.len() - 1, os) {
            before
        } else if prefixes {
            before.push((true, seq![d]))
        } else {
            before.push((false, probe_paths(d, names, os)))
        }
    }
}

fn probe_paths_exec(directory: &str, names: &Vec<String>, os: TargetOs) -> (paths: Vec<String>)
    ensures
        string_views(paths@) == probe_paths(directory@, string_views(names@), os),
{
    let ghost views = string_views(names@);
    let mut paths: Vec<String> = Vec::new();
    let mut i: usize = 0;
    assert(views.take(0) =~= Seq::<Seq<char>>::empty());
    while i < names.len()
        invariant
            i <= names.len(),
            views == string_views(names@),
            string_views(paths@) == probe_paths(directory@, views.take(i as int), os),
        decreases names.len() - i,
    {
        assert(views.take(i + 1).drop_last() =~= views.take(i as int));
        assert(views.take(i + 1).last() == names@[i as int]@);
        push_view(&mut paths, join_on_exec(directory, names[i].as_str(), os));
        if os == TargetOs::Windows && !has_extension_exec(&chars_of(names[i].as_str())) {
            let mut with_exe = chars_of(names[i].as_str());
            push_str(&mut with_exe, ".exe");
            push_view(&mut paths, join_on_exec(directory, string_of(&with_exe).as_str(), os));
        }
        i = i + 1;
    }
    assert(views.take(names.len() as int) =~= views);
    paths
}

proof fn lemma_first_of_key_prefix(directories: Seq<Seq<char>>, n: int, i: int, os: TargetOs)
    requires
        0 <= i < n <= directories.len(),
    ensures
        first_of_key(directories.take(n), i, os) == first_of_key(directories, i, os),
{
    assert forall|j: int| 0 <= j <= i implies directories.take(n)[j] == directories[j] by {}
}

/// Plans the search of the directories, in order.
pub fn plan_search(directories: &Vec<String>, options: &ExecutableSearchOptions, os: TargetOs) -> (steps:
    Vec<SearchStep>)
    ensures
        steps@.map_values(|s: SearchStep| step_view(s)) == search_steps(
            string_views(directories@),
            string_views(options.names@),
            options.match_name_prefixes,
            os,
        ),
{
    let ghost dirs = string_views(directories@);
    let mut steps: Vec<SearchStep> = Vec::new();
    let mut keys: Vec<String> = Vec::new();
    let mut i: usize = 0;
    assert(dirs.take(0) =~= Seq::<Seq<char>>::empty());
    while i < directories.len()
        invariant
            i <= directories.len(),
            dirs == string_views(directories@),
            keys@.len() == i,
            forall|j: int| 0 <= j < i ==> (#[trigger] keys@[j])@ == normalized_key_spec(dirs[j], os),
            steps@.map_values(|s: SearchStep| step_view(s)) == search_steps(
                dirs.take(i as int),
                string_views(options.names@),
                options.match_name_prefixes,
                os,
            ),
        decreases directories.len() - i,
    {
        let ghost before = steps@;
        assert(dirs.take(i + 1).drop_last() =~= dirs.take(i as int));
        assert(dirs.take(i + 1).last() == directories@[i as int]@);
        proof {
            lemma_first_of_key_prefix(dirs, i + 1, i as int, os);
            assert(dirs.take(i + 1)[i as int] == dirs[i as int]);
        }
        let key = normalized_key(directories[i].as_str(), os);
        let mut seen = false;
        let mut k: usize = 0;
        while k < keys.len()
            invariant
                k <= keys.len(),
                keys@.len() == i,
                seen == (exists|j: int| 0 <= j < k && (#[trigger] keys@[j])@ == key@),
            decreases keys.len() - k,
        {
            if chars_equal(&chars_of(keys[k].as_str()), &chars_of(key.as_str())) {
                seen = true;
            }
            k = k + 1;
        }
        proof {
            if seen {
                let j = choose|j: int| 0 <= j < i && (#[trigger] keys@[j])@ == key@;
                assert(normalized_key_spec(dirs[j], os) == normalized_key_spec(dirs[i as int], os));
                assert(!first_of_key(dirs, i as int, os));
            } else {
                assert forall|j: int| 0 <= j < i implies normalized_key_spec(#[trigger] dirs[j], os)
                    != normalized_key_spec(dirs[i as int], os) by {
                    assert(keys@[j]@ == normalized_key_spec(dirs[j], os));
                }
            }
        }
        if !seen {
            if options.match_name_prefixes {
                steps.push(SearchStep::ListDirectory(directories[i].clone()));
            } else {
                steps.push(SearchStep::Probe(probe_paths_exec(directories[i].as_str(), &options.names, os)));
            }
        }
        assert(steps@.map_values(|s: SearchStep| step_view(s)) =~= search_steps(
            dirs.take(i + 1),
            string_views(options.names@),
            options.match_name_prefixes,
            os,
        ));
        keys.push(key);
        i = i + 1;
    }
    assert(dirs.take(directories.len() as int) =~= dirs);
    steps
}

/// The file name of a path under the rules of `os`.
pub open spec fn file_name_on(path: Seq<char>, os: TargetOs) -> Option<Seq<char>> {
    if os == TargetOs::Windows {
        win_file_name(path)
    } else {
        file_name(path)
    }
}

fn file_name_on_exec(path: &str, os: TargetOs) -> (name: Option<Vec<char>>)
    ensures
        match file_name_on(path@, os) {
            Some(n) => name matches Some(v) && v@ == n,
            None => name is None,
        },
{
    if os == TargetOs::Windows {
        win_file_name_exec(path)
    } else {
        match file_name_exec(path) {
            Some(n) => Some(chars_of(n.as_str())),
            None => None,
        }
    }
}

/// The entries of a listed directory whose file names match a requested
/// name or start with one, in path order.
pub open spec fn matching_entries_spec(entries: Seq<Seq<char>>, names: Seq<Seq<char>>, os: TargetOs) -> Seq<
    Seq<char>,
> {
    crate::text::sorted_strings(matching_only(entries, names, os))
}

/// The entries whose file names match, in listing order.
pub open spec fn matching_only(entries: Seq<Seq<char>>, names: Seq<Seq<char>>, os: TargetOs) -> Seq<Seq<char>>
    decreases entries.len(),
{
    if entries.len() == 0 {
        seq![]
    } else {
        let before = matching_only(entries.drop_last(), names, os);
        if file_name_on(entries.last(), os) matches Some(n) && name_matches_spec(n, names, true, os) {
            before.push(entries.last())
        } else {
            before
        }
    }
}

pub fn matching_entries(entries: &Vec<String>, names: &Vec<String>, os: TargetOs) -> (paths: Vec<String>)
    ensures
        string_views(paths@) == matching_entries_spec(string_views(entries@), string_views(names@), os),
{
    let ghost views = string_views(entries@);
    let mut kept: Vec<String> = Vec::new();
    let mut i: usize = 0;
    assert(views.take(0) =~= Seq::<Seq<char>>::empty());
    while i < entries.len()
        invariant
            i <= entries.len(),
            views == string_views(entries@),
            string_views(kept@) == matching_only(views.take(i as int), string_views(names@), os),
        decreases entries.len() - i,
    {
        assert(views.take(i + 1).drop_last() =~= views.take(i as int));
        assert(views.take(i + 1).last() == entries@[i as int]@);
        match file_name_on_exec(entries[i].as_str(), os) {
            Some(n) => {
                if name_matches(string_of(&n).as_str(), names, true, os) {
                    push_view(&mut kept, entries[i].clone());
                }
            },
            None => {},
        }
        i = i + 1;
    }
    assert(views.take(entries.len() as int) =~= views);
    crate::text::sort_strings(&kept)
}

/// What the file system said about one probed path.
#[derive(Debug, Clone)]
pub struct CandidateProbe {
    pub path: String,
    /// Whether it is a regular file and its permission bits, when its
    /// metadata could be read.
    pub metadata: Option<(bool, u32)>,
    /// Its canonical path, when it could be resolved.
    pub canonical: Option<String>,
}

/// A path is executable: a regular file, with an execute bit on Unix and an
/// `.exe` extension (ASCII case ignored) on Windows.
pub open spec fn is_executable_spec(path: Seq<char>, is_file: bool, mode: u32, os: TargetOs) -> bool {
    is_file && if os == TargetOs::Windows {
        win_file_name(path) matches Some(n) && exe_extension(n)
    } else {
        mode & 0o111u32 != 0
    }
}

/// The extension of a file name (`Path::extension`) is `exe`, ignoring
/// ASCII case: the text after the last `.`, which is not the first
/// character.
pub open spec fn exe_extension(name: Seq<char>) -> bool {
    name.len() >= 5 && name[name.len() - 4] == '.' && eq_ignore_ascii_case(
        name.subrange(name.len() - 3, name.len() as int),
        "exe"@,
    )
}

pub fn is_executable(path: &str, is_file: bool, mode: u32, os: TargetOs) -> (executable: bool)
    ensures
        executable == is_executable_spec(path@, is_file, mode, os),
{
    if !is_file {
        return false;
    }
    if os == TargetOs::Windows {
        match win_file_name_exec(path) {
            Some(n) => {
                let len = n.len();
                if len >= 5 && n[len - 4] == '.' {
                    let ext = crate::text::sub_chars(&n, len - 3, len);
                    eq_ignore_ascii_case_exec(&ext, &chars_of("exe"))
                } else {
                    false
                }
            },
            None => false,
        }
    } else {
        mode & 0o111u32 != 0
    }
}

/// The candidate for one probe, given the keys seen so far.
pub open spec fn probe_candidate(probe: CandidateProbe, os: TargetOs) -> Option<(Seq<char>, Seq<char>, Seq<char>)> {
    match probe.metadata {
        None => None,
        Some((is_file, mode)) => if !is_executable_spec(probe.path@, is_file, mode, os) {
            None
        } else {
            match probe.canonical {
                None => None,
                Some(c) => match file_name_on(probe.path@, os) {
                    None => None,
                    Some(n) => Some((probe.path@, c@, n)),
                },
            }
        },
    }
}

/// The candidates of the probes: each executable probe that resolves, the
/// first for each canonical key, as path, canonical path and file name.
pub open spec fn collected(probes: Seq<CandidateProbe>, os: TargetOs) -> Seq<(Seq<char>, Seq<char>, Seq<char>)>
    decreases probes.len(),
{
    if probes.len() == 0 {
        seq![]
    } else {
        let before = collected(probes.drop_last(), os);
        let p = probes.last();
        match probe_candidate(p, os) {
            None => before,
            Some((path, canonical, name)) => if claims_key(probes.drop_last(), normalized_key_spec(canonical, os), os) {
                before
            } else {
                before.push((path, canonical, name))
            },
        }
    }
}

/// One of the probes marked the key as seen: it was executable and resolved.
pub open spec fn claims_key(probes: Seq<CandidateProbe>, key: Seq<char>, os: TargetOs) -> bool {
    exists|j: int|
        0 <= j < probes.len() && marks_key(#[trigger] probes[j], key, os)
}

/// The probe was executable, resolved, and has the key.
pub open spec fn marks_key(probe: CandidateProbe, key: Seq<char>, os: TargetOs) -> bool {
    match probe.metadata {
        None => false,
        Some((is_file, mode)) => is_executable_spec(probe.path@, is_file, mode, os) && match probe.canonical {
            None => false,
            Some(c) => normalized_key_spec(c@, os) == key,
        },
    }
}

/// Every candidate's canonical key is claimed by one of the probes.
proof fn lemma_collected_keys_claimed(probes: Seq<CandidateProbe>, os: TargetOs)
    ensures
        forall|i: int|
            0 <= i < collected(probes, os).len() ==> claims_key(
                probes,
                normalized_key_spec(#[trigger] collected(probes, os)[i].1, os),
                os,
            ),
    decreases probes.len(),
{
    if probes.len() > 0 {
        let rest = probes.drop_last();
        lemma_collected_keys_claimed(rest, os);
        let before = collected(rest, os);
        assert forall|i: int| 0 <= i < collected(probes, os).len() implies claims_key(
            probes,
            normalized_key_spec(#[trigger] collected(probes, os)[i].1, os),
            os,
        ) by {
            let key = normalized_key_spec(collected(probes, os)[i].1, os);
            if i < before.len() {
                assert(collected(probes, os)[i] == before[i]);
                assert(claims_key(rest, key, os));
                let j = choose|j: int| 0 <= j < rest.len() && marks_key(#[trigger] rest[j], key, os);
                assert(probes[j] == rest[j]);
            } else {
                assert(marks_key(probes[probes.len() - 1], key, os));
            }
        }
    }
}

/// Executable discovery reports each executable once: no two candidates
/// have canonical paths with the same key (on Windows, compared without
/// regard to case).
pub proof fn candidates_have_distinct_canonical_paths(probes: Seq<CandidateProbe>, os: TargetOs)
    ensures
        forall|i: int, j: int|
            0 <= i < j < collected(probes, os).len() ==> normalized_key_spec(
                #[trigger] collected(probes, os)[i].1,
                os,
            ) != normalized_key_spec(#[trigger] collected(probes, os)[j].1, os),
    decreases probes.len(),
{
    if probes.len() > 0 {
        let rest = probes.drop_last();
        candidates_have_distinct_canonical_paths(rest, os);
        lemma_collected_keys_claimed(rest, os);
        let before = collected(rest, os);
        let all = collected(probes, os);
        assert forall|i: int, j: int| 0 <= i < j < all.len() implies normalized_key_spec(
            #[trigger] all[i].1,
            os,
        ) != normalized_key_spec(#[trigger] all[j].1, os) by {
            assert(all[i] == before[i]);
            if j < before.len() {
                assert(all[j] == before[j]);
            } else {
                assert(claims_key(rest, normalized_key_spec(before[i].1, os), os));
            }
        }
    }
}

/// The candidates as plain triples.
pub open spec fn candidate_views(c: Seq<ExecutableCandidate>) -> Seq<(Seq<char>, Seq<char>, Seq<char>)> {
    c.map_values(|x: ExecutableCandidate| (x.path@, x.canonical_path@, x.name@))
}

/// Collects the candidates from the probes, in order.
pub fn collect_candidates(probes: &Vec<CandidateProbe>, os: TargetOs) -> (candidates: Vec<
    ExecutableCandidate,
>)
    ensures
        candidate_views(candidates@) == collected(probes@, os),
{
    let mut out: Vec<ExecutableCandidate> = Vec::new();
    let mut seen: Vec<String> = Vec::new();
    let mut i: usize = 0;
    assert(probes@.take(0) =~= Seq::<CandidateProbe>::empty());
    while i < probes.len()
        invariant
            i <= probes.len(),
            forall|key: Seq<char>|
                #![trigger claims_key(probes@.take(i as int), key, os)]
                claims_key(probes@.take(i as int), key, os) == (exists|k: int|
                    0 <= k < seen.len() && (#[trigger] seen@[k])@ == key),
            candidate_views(out@) == collected(probes@.take(i as int), os),
        decreases probes.len() - i,
    {
        let ghost pre = probes@.take(i as int);
        let ghost post = probes@.take(i + 1);
        let ghost seen_before = seen@;
        proof {
            assert(post.drop_last() =~= pre);
            assert(post.last() == probes@[i as int]);
        }
        let p = &probes[i];
        let mut marked: Option<String> = None;
        match p.metadata {
            None => {},
            Some((is_file, mode)) => {
                if is_executable(p.path.as_str(), is_file, mode, os) {
                    match &p.canonical {
                        None => {},
                        Some(c) => {
                            let key = normalized_key(c.as_str(), os);
                            let mut found = false;
                            let mut k: usize = 0;
                            while k < seen.len()
                                invariant
                                    k <= seen.len(),
                                    found == (exists|t: int| 0 <= t < k && (#[trigger] seen@[t])@ == key@),
                                decreases seen.len() - k,
                            {
                                if chars_equal(&chars_of(seen[k].as_str()), &chars_of(key.as_str())) {
                                    found = true;
                                }
                                k = k + 1;
                            }
                            if !found {
                                match file_name_on_exec(p.path.as_str(), os) {
                                    None => {},
                                    Some(n) => {
                                        let ghost before = out@;
                                        out.push(
                                            ExecutableCandidate {
                                                path: p.path.clone(),
                                                canonical_path: c.clone(),
                                                name: string_of(&n),
                                            },
                                        );
                                        assert(candidate_views(out@) =~= candidate_views(before).push(
                                            (p.path@, c@, n@),
                                        ));
                                    },
                                }
                            }
                            marked = Some(key);
                        },
                    }
                }
            },
        }
        match marked {
            Some(key) => {
                let ghost kv = key@;
                seen.push(key);
                proof {
                    assert forall|x: Seq<char>|
                        #![trigger claims_key(post, x, os)]
                        claims_key(post, x, os) == (exists|k: int|
                            0 <= k < seen.len() && (#[trigger] seen@[k])@ == x) by {
                        if claims_key(post, x, os) {
                            let j = choose|j: int| 0 <= j < post.len() && marks_key(#[trigger] post[j], x, os);
                            if j < i {
                                assert(pre[j] == post[j]);
                                assert(claims_key(pre, x, os));
                                let k = choose|k: int| 0 <= k < seen_before.len() && (#[trigger] seen_before[k])@ == x;
                                assert(seen@[k] == seen_before[k]);
                            } else {
                                assert(seen@[seen_before.len() as int]@ == kv);
                            }
                        }
                        if exists|k: int| 0 <= k < seen.len() && (#[trigger] seen@[k])@ == x {
                            let k = choose|k: int| 0 <= k < seen.len() && (#[trigger] seen@[k])@ == x;
                            if k < seen_before.len() {
                                assert(seen_before[k] == seen@[k]);
                                assert(exists|t: int| 0 <= t < seen_before.len() && (#[trigger] seen_before[t])@ == x);
                                assert(claims_key(pre, x, os));
                                let j = choose|j: int| 0 <= j < pre.len() && marks_key(#[trigger] pre[j], x, os);
                                assert(post[j] == pre[j]);
                            } else {
                                assert(marks_key(post[i as int], x, os));
                            }
                        }
                    }
                }
            },
            None => {
                proof {
                    assert forall|x: Seq<char>|
                        #![trigger claims_key(post, x, os)]
                        claims_key(post, x, os) == claims_key(pre, x, os) by {
                        if claims_key(post, x, os) {
                            let j = choose|j: int| 0 <= j < post.len() && marks_key(#[trigger] post[j], x, os);
                            if j < i {
                                assert(pre[j] == post[j]);
                            }
                        }
                        if claims_key(pre, x, os) {
                            let j = choose|j: int| 0 <= j < pre.len() && marks_key(#[trigger] pre[j], x, os);
                            assert(post[j] == pre[j]);
                        }
                    }
                }
            },
        }
        i = i + 1;
    }
    assert(probes@.take(probes.len() as int) =~= probes@);
    out
}

/// The directories a request searches, in order: the additional paths,
/// then the standard ones.
pub fn find_executables(
    options: &ExecutableSearchOptions,
    os: TargetOs,
    path_var: &Option<String>,
    program_data: &Option<String>,
    home: &Option<String>,
) -> (result: Result<Vec<SearchStep>, NativeError>)
    ensures
        match search_options_check(*options, os) {
            Err(message) => fails_with(result, message),
            Ok(()) => result matches Ok(steps) && steps@.map_values(|s: SearchStep| step_view(s))
                == search_steps(
                string_views(options.additional_paths@) + standard_directories_spec(
                    crate::platform::opt_str(*path_var),
                    crate::platform::opt_str(*program_data),
                    crate::platform::opt_str(*home),
                    os,
                ),
                string_views(options.names@),
                options.match_name_prefixes,
                os,
            ),
        },
{
    match validate_options(options, os) {
        Err(e) => {
            return Err(e);
        },
        Ok(()) => {},
    }
    let standard = standard_search_directories(path_var, program_data, home, os);
    let mut directories: Vec<String> = Vec::new();
    let mut i: usize = 0;
    while i < options.additional_paths.len()
        invariant
            i <= options.additional_paths.len(),
            string_views(directories@) == string_views(options.additional_paths@).take(i as int),
        decreases options.additional_paths.len() - i,
    {
        push_view(&mut directories, options.additional_paths[i].clone());
        assert(string_views(options.additional_paths@).take(i + 1) =~= string_views(
            options.additional_paths@,
        ).take(i as int).push(options.additional_paths@[i as int]@));
        i = i + 1;
    }
    assert(string_views(options.additional_paths@).take(options.additional_paths.len() as int)
        =~= string_views(options.additional_paths@));
    let ghost first = string_views(directories@);
    let mut k: usize = 0;
    while k < standard.len()
        invariant
            k <= standard.len(),
            string_views(directories@) == first + string_views(standard@).take(k as int),
        decreases standard.len() - k,
    {
        push_view(&mut directories, standard[k].clone());
        assert(string_views(standard@).take(k + 1) =~= string_views(standard@).take(k as int).push(
            standard@[k as int]@,
        ));
        k = k + 1;
    }
    assert(string_views(standard@).take(standard.len() as int) =~= string_views(standard@));
    Ok(plan_search(&directories, options, os))
}

} // verus!
