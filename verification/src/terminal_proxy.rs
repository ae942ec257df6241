//! The terminal proxy environment: the `environment.d` file that exports the
//! proxy to terminal sessions on Linux, and the decisions around writing and
//! removing it.
use vstd::prelude::*;
use crate::TargetOs;
use crate::error::{NativeError, fails_with};
use crate::paths::{is_absolute, is_absolute_exec, join_path, joined_path};
use crate::text::{
    substitute, chars_of, decimal, escape, first_index_of, find_char, free_of, free_of_exec, join, push_decimal,
    push_escaped, push_joined, push_str, starts_with, starts_with_exec, string_of, string_views,
    sub_chars, table_view,
};

verus! {

broadcast use vstd::string::group_string_axioms;

/// The first line of every file this library writes.
pub const MARKER: &'static str = "# Managed by KokoroBox.";

/// The file below the configuration directory.
pub const CONFIG_FILE: &'static str = "environment.d/90-kokorobox-proxy.conf";

/// The error for a value that would break the file's line structure.
pub open spec fn invalid_value_message() -> Seq<char> {
    "Terminal proxy value contains an invalid line break or NUL"@
}

/// A value may hold no NUL, carriage return or line feed.
pub open spec fn valid_value(value: Seq<char>) -> bool {
    free_of(value, seq!['\0', '\r', '\n'])
}

/// Rejects values with a line break or NUL.
pub fn validate_value(value: &str) -> (result: Result<(), NativeError>)
    ensures
        valid_value(value@) ==> result is Ok,
        !valid_value(value@) ==> fails_with(result, invalid_value_message()),
{
    let forbidden: Vec<char> = vec!['\0', '\r', '\n'];
    assert(forbidden@ =~= seq!['\0', '\r', '\n']);
    if !free_of_exec(&chars_of(value), &forbidden) {
        return Err(NativeError::new("Terminal proxy value contains an invalid line break or NUL"));
    }
    Ok(())
}

/// Inside the double quotes of an `environment.d` value, backslash, quote
/// and backtick are escaped with a backslash and `$` is doubled.
pub open spec fn quote_table() -> Seq<(char, Seq<char>)> {
    seq![('\\', "\\\\"@), ('"', "\\\""@), ('`', "\\`"@), ('$', "$$"@)]
}

/// A value in double quotes.
pub open spec fn quoted_value(value: Seq<char>) -> Seq<char> {
    seq!['"'] + escape(value, quote_table()) + seq!['"']
}

fn push_quoted(out: &mut Vec<char>, value: &Vec<char>)
    ensures
        final(out)@ == old(out)@ + quoted_value(value@),
{
    let table: Vec<(char, &str)> = vec![('\\', "\\\\"), ('"', "\\\""), ('`', "\\`"), ('$', "$$")];
    assert(table_view(table@) =~= quote_table());
    out.push('"');
    push_escaped(out, value, &table);
    out.push('"');
    assert(out@ =~= old(out)@ + quoted_value(value@));
}

/// Quotes a value for the file, refusing one that would break a line.
pub fn quote(value: &str) -> (result: Result<String, NativeError>)
    ensures
        valid_value(value@) ==> (result matches Ok(q) && q@ == quoted_value(value@)),
        !valid_value(value@) ==> fails_with(result, invalid_value_message()),
{
    match validate_value(value) {
        Err(error) => {
            return Err(error);
        },
        Ok(()) => {},
    }
    let mut out: Vec<char> = Vec::new();
    push_quoted(&mut out, &chars_of(value));
    Ok(string_of(&out))
}

// ---------------------------------------------------------------------------
// Reading a quoted value back
// ---------------------------------------------------------------------------
/// The text between the quotes read back: a backslash takes the next
/// character literally and `$$` stands for `$`.
pub open spec fn unescaped(s: Seq<char>) -> Seq<char>
    decreases s.len(),
{
    if s.len() == 0 {
        seq![]
    } else if s[0] == '\\' && s.len() >= 2 {
        seq![s[1]] + unescaped(s.subrange(2, s.len() as int))
    } else if s[0] == '$' && s.len() >= 2 && s[1] == '$' {
        seq!['$'] + unescaped(s.subrange(2, s.len() as int))
    } else {
        seq![s[0]] + unescaped(s.subrange(1, s.len() as int))
    }
}

/// A quoted value read back: the text between its quotes, unescaped.
pub open spec fn unquoted(q: Seq<char>) -> Seq<char> {
    unescaped(q.subrange(1, q.len() - 1))
}

proof fn lemma_unescaped_front(c: char, rest: Seq<char>)
    ensures
        unescaped(escape(seq![c], quote_table()) + escape(rest, quote_table())) == seq![c]
            + unescaped(escape(rest, quote_table())),
{
    reveal_strlit("\\\\");
    reveal_strlit("\\\"");
    reveal_strlit("\\`");
    reveal_strlit("$$");
    reveal_with_fuel(substitute, 5);
    let e = escape(rest, quote_table());
    assert(seq![c].drop_last() =~= Seq::<char>::empty());
    assert(seq![c].last() == c);
    assert(escape(seq![c].drop_last(), quote_table()) =~= Seq::<char>::empty());
    assert(escape(seq![c], quote_table()) =~= substitute(quote_table(), c));
    let s = escape(seq![c], quote_table()) + e;
    if c == '\\' || c == '"' || c == '`' || c == '$' {
        assert(substitute(quote_table(), c).len() == 2);
        assert(s.subrange(2, s.len() as int) =~= e);
    } else {
        assert(substitute(quote_table(), c) =~= seq![c]);
        assert(s.subrange(1, s.len() as int) =~= e);
    }
}

proof fn lemma_unescaped_escape(value: Seq<char>)
    ensures
        unescaped(escape(value, quote_table())) == value,
    decreases value.len(),
{
    if value.len() == 0 {
        assert(escape(value, quote_table()) =~= Seq::<char>::empty());
    } else {
        let rest = value.drop_first();
        assert(value =~= seq![value[0]] + rest);
        crate::text::lemma_escape_append(seq![value[0]], rest, quote_table());
        lemma_unescaped_front(value[0], rest);
        lemma_unescaped_escape(rest);
    }
}

/// Quoting loses nothing: every value reads back from its quoted form as it
/// was written, whatever characters it holds.
pub proof fn quoted_value_reads_back(value: Seq<char>)
    ensures
        unquoted(quoted_value(value)) == value,
{
    let q = quoted_value(value);
    assert(q.subrange(1, q.len() - 1) =~= escape(value, quote_table()));
    lemma_unescaped_escape(value);
}

// ---------------------------------------------------------------------------
// Assignments and file content
// ---------------------------------------------------------------------------
/// The proxy URL.
pub open spec fn proxy_url(host: Seq<char>, port: u16) -> Seq<char> {
    "http://"@ + host + ":"@ + decimal(port as nat)
}

/// The eight assignments, in the order the variables are exported: the
/// lower-case names first, each `no_proxy` carrying the bypass list and every
/// other name the proxy URL.
pub open spec fn proxy_assignments(proxy: Seq<char>, no_proxy: Seq<char>) -> Seq<Seq<char>> {
    seq![
        "http_proxy="@ + proxy,
        "https_proxy="@ + proxy,
        "all_proxy="@ + proxy,
        "no_proxy="@ + no_proxy,
        "HTTP_PROXY="@ + proxy,
        "HTTPS_PROXY="@ + proxy,
        "ALL_PROXY="@ + proxy,
        "NO_PROXY="@ + no_proxy,
    ]
}

/// The assignments for a proxy, or the message of the rule it breaks.
pub open spec fn assignments_spec(host: Seq<char>, port: u16, bypass: Seq<Seq<char>>) -> Result<
    Seq<Seq<char>>,
    Seq<char>,
> {
    if host.len() == 0 || port == 0 {
        Err("Terminal proxy host and port are required"@)
    } else if !valid_value(host) {
        Err(invalid_value_message())
    } else if exists|i: int| 0 <= i < bypass.len() && !valid_value(#[trigger] bypass[i]) {
        Err(invalid_value_message())
    } else {
        Ok(proxy_assignments(proxy_url(host, port), join(bypass, ","@)))
    }
}

/// `result` carries the strings `expected`, or fails with its message.
pub open spec fn strings_outcome(
    result: Result<Vec<String>, NativeError>,
    expected: Result<Seq<Seq<char>>, Seq<char>>,
) -> bool {
    match expected {
        Ok(values) => result matches Ok(v) && string_views(v@) == values,
        Err(message) => fails_with(result, message),
    }
}

fn push_assignment(out: &mut Vec<String>, name: &str, value: &Vec<char>)
    ensures
        string_views(final(out)@) == string_views(old(out)@).push(name@ + value@),
{
    let mut line = chars_of(name);
    let ghost before = line@;
    crate::text::append_chars(&mut line, value);
    let s = string_of(&line);
    out.push(s);
    assert(string_views(out@) =~= string_views(old(out)@).push(name@ + value@));
}

/// The assignments that export the proxy at `host:port`, bypassed for the
/// hosts in `bypass`.
pub fn assignments(host: &str, port: u16, bypass: &Vec<String>) -> (result: Result<
    Vec<String>,
    NativeError,
>)
    ensures
        strings_outcome(result, assignments_spec(host@, port, string_views(bypass@))),
{
    if chars_of(host).len() == 0 || port == 0 {
        return Err(NativeError::new("Terminal proxy host and port are required"));
    }
    match validate_value(host) {
        Err(error) => {
            return Err(error);
        },
        Ok(()) => {},
    }
    let mut i: usize = 0;
    while i < bypass.len()
        invariant
            i <= bypass.len(),
            host@.len() > 0,
            port != 0,
            valid_value(host@),
            forall|j: int| 0 <= j < i ==> valid_value(#[trigger] string_views(bypass@)[j]),
        decreases bypass.len() - i,
    {
        match validate_value(bypass[i].as_str()) {
            Err(error) => {
                assert(!valid_value(string_views(bypass@)[i as int]));
                return Err(error);
            },
            Ok(()) => {},
        }
        i = i + 1;
    }
    let mut proxy: Vec<char> = Vec::new();
    push_str(&mut proxy, "http://");
    push_str(&mut proxy, host);
    proxy.push(':');
    push_decimal(&mut proxy, port as u128);
    proof {
        reveal_strlit(":");
    }
    assert(proxy@ =~= proxy_url(host@, port));
    let mut no_proxy: Vec<char> = Vec::new();
    push_joined(&mut no_proxy, bypass, ",");
    assert(no_proxy@ =~= join(string_views(bypass@), ","@));
    let mut out: Vec<String> = Vec::new();
    push_assignment(&mut out, "http_proxy=", &proxy);
    push_assignment(&mut out, "https_proxy=", &proxy);
    push_assignment(&mut out, "all_proxy=", &proxy);
    push_assignment(&mut out, "no_proxy=", &no_proxy);
    push_assignment(&mut out, "HTTP_PROXY=", &proxy);
    push_assignment(&mut out, "HTTPS_PROXY=", &proxy);
    push_assignment(&mut out, "ALL_PROXY=", &proxy);
    push_assignment(&mut out, "NO_PROXY=", &no_proxy);
    assert(string_views(out@) =~= proxy_assignments(proxy@, no_proxy@));
    Ok(out)
}

/// The file's first line.
pub open spec fn content_header() -> Seq<char> {
    MARKER@ + " Changes will be overwritten.\n"@
}

/// One assignment as a line of the file: the name up to the first `=`, then
/// the rest quoted; or the message of the rule it breaks.
pub open spec fn content_line(assignment: Seq<char>) -> Result<Seq<char>, Seq<char>> {
    match first_index_of(assignment, '=') {
        None => Err("Invalid terminal proxy assignment"@),
        Some(k) => {
            let value = assignment.subrange(k + 1, assignment.len() as int);
            if !valid_value(value) {
                Err(invalid_value_message())
            } else {
                Ok(assignment.subrange(0, k) + seq!['='] + quoted_value(value) + seq!['\n'])
            }
        },
    }
}

/// The lines of all assignments, or the message of the first that fails.
pub open spec fn content_lines(assignments: Seq<Seq<char>>) -> Result<Seq<char>, Seq<char>>
    decreases assignments.len(),
{
    if assignments.len() == 0 {
        Ok(seq![])
    } else {
        match content_lines(assignments.drop_last()) {
            Err(message) => Err(message),
            Ok(before) => match content_line(assignments.last()) {
                Err(message) => Err(message),
                Ok(line) => Ok(before + line),
            },
        }
    }
}

/// The whole file for `assignments`, or the message of the first line that
/// fails.
pub open spec fn content_spec(assignments: Seq<Seq<char>>) -> Result<Seq<char>, Seq<char>> {
    match content_lines(assignments) {
        Err(message) => Err(message),
        Ok(lines) => Ok(content_header() + lines),
    }
}

proof fn lemma_content_error_persists(a: Seq<Seq<char>>, k: int, message: Seq<char>)
    requires
        0 <= k <= a.len(),
        content_lines(a.take(k)) == Err::<Seq<char>, Seq<char>>(message),
    ensures
        content_lines(a) == Err::<Seq<char>, Seq<char>>(message),
    decreases a.len(),
{
    if a.len() == k {
        assert(a.take(k) =~= a);
    } else {
        assert(a.drop_last().take(k) =~= a.take(k));
        lemma_content_error_persists(a.drop_last(), k, message);
    }
}

fn content_line_exec(assignment: &str, out: &mut Vec<char>) -> (result: Result<(), NativeError>)
    ensures
        match content_line(assignment@) {
            Ok(line) => result is Ok && final(out)@ == old(out)@ + line,
            Err(message) => fails_with(result, message),
        },
{
    let chars = chars_of(assignment);
    let k = match find_char(&chars, '=') {
        None => {
            return Err(NativeError::new("Invalid terminal proxy assignment"));
        },
        Some(k) => k,
    };
    let name = sub_chars(&chars, 0, k);
    let value = sub_chars(&chars, k + 1, chars.len());
    let forbidden: Vec<char> = vec!['\0', '\r', '\n'];
    assert(forbidden@ =~= seq!['\0', '\r', '\n']);
    if !free_of_exec(&value, &forbidden) {
        return Err(NativeError::new("Terminal proxy value contains an invalid line break or NUL"));
    }
    crate::text::append_chars(out, &name);
    out.push('=');
    push_quoted(out, &value);
    out.push('\n');
    assert(out@ =~= old(out)@ + content_line(assignment@)->Ok_0);
    Ok(())
}

/// The file that holds `assignments`, each value quoted.
pub fn content(assignments: &Vec<String>) -> (result: Result<String, NativeError>)
    ensures
        match content_spec(string_views(assignments@)) {
            Ok(text) => result matches Ok(s) && s@ == text,
            Err(message) => fails_with(result, message),
        },
{
    let ghost views = string_views(assignments@);
    let mut out: Vec<char> = Vec::new();
    push_str(&mut out, MARKER);
    push_str(&mut out, " Changes will be overwritten.\n");
    let mut i: usize = 0;
    assert(views.take(0) =~= Seq::<Seq<char>>::empty());
    while i < assignments.len()
        invariant
            i <= assignments.len(),
            views == string_views(assignments@),
            content_lines(views.take(i as int)) matches Ok(lines) && out@ == content_header()
                + lines,
        decreases assignments.len() - i,
    {
        let ghost before = out@;
        let ghost lines = content_lines(views.take(i as int))->Ok_0;
        proof {
            assert(views.take(i + 1).drop_last() =~= views.take(i as int));
            assert(views.take(i + 1).last() == views[i as int]);
        }
        match content_line_exec(assignments[i].as_str(), &mut out) {
            Err(error) => {
                proof {
                    lemma_content_error_persists(
                        views,
                        i + 1,
                        content_line(views[i as int])->Err_0,
                    );
                }
                return Err(error);
            },
            Ok(()) => {},
        }
        assert(out@ =~= content_header() + content_lines(views.take(i + 1))->Ok_0);
        i = i + 1;
    }
    assert(views.take(assignments.len() as int) =~= views);
    Ok(string_of(&out))
}

// ---------------------------------------------------------------------------
// The file's location and ownership
// ---------------------------------------------------------------------------
/// The configuration file: below `$XDG_CONFIG_HOME` when that is absolute,
/// else below `$HOME/.config`; an unset `HOME` is an error.
pub open spec fn config_path_spec(home: Option<Seq<char>>, config_home: Option<Seq<char>>) -> Result<
    Seq<char>,
    Seq<char>,
> {
    match home {
        None => Err("HOME is not set"@),
        Some(h) => {
            let dir = match config_home {
                Some(c) => if is_absolute(c) {
                    c
                } else {
                    joined_path(h, ".config"@)
                },
                None => joined_path(h, ".config"@),
            };
            Ok(joined_path(dir, CONFIG_FILE@))
        },
    }
}

/// Where the configuration file lives, from `HOME` and `XDG_CONFIG_HOME`.
pub fn config_path(home: &Option<String>, config_home: &Option<String>) -> (result: Result<
    String,
    NativeError,
>)
    ensures
        match config_path_spec(
            match home {
                Some(h) => Some(h@),
                None => None,
            },
            match config_home {
                Some(c) => Some(c@),
                None => None,
            },
        ) {
            Ok(path) => result matches Ok(p) && p@ == path,
            Err(message) => fails_with(result, message),
        },
{
    let h = match home {
        None => {
            return Err(NativeError::new("HOME is not set"));
        },
        Some(h) => h,
    };
    let dir = match config_home {
        Some(c) => if is_absolute_exec(c.as_str()) {
            c.clone()
        } else {
            join_path(h.as_str(), ".config")
        },
        None => join_path(h.as_str(), ".config"),
    };
    Ok(join_path(dir.as_str(), CONFIG_FILE))
}

/// Whether a file's text marks it as written by this library.
pub open spec fn is_managed(existing: Seq<char>) -> bool {
    starts_with(existing, MARKER@)
}

/// What setting writes is what clearing removes: every configuration file
/// the library produces is recognised as its own, so a later update may
/// replace it and clearing unsets the variables.
pub proof fn written_configuration_is_managed(assignments: Seq<Seq<char>>)
    requires
        content_spec(assignments) is Ok,
    ensures
        is_managed(content_spec(assignments)->Ok_0),
{
    let text = content_spec(assignments)->Ok_0;
    let lines = content_lines(assignments)->Ok_0;
    assert(text == MARKER@ + (" Changes will be overwritten.\n"@ + lines));
    assert(text.subrange(0, MARKER@.len() as int) =~= MARKER@);
}

/// A file may be replaced when it does not exist or was written by this
/// library.
pub fn may_replace(existing: &Option<String>) -> (result: Result<(), NativeError>)
    ensures
        match existing {
            None => result is Ok,
            Some(text) => if is_managed(text@) {
                result is Ok
            } else {
                fails_with(result, "Terminal proxy path is not owned by KokoroBox"@)
            },
        },
{
    match existing {
        None => Ok(()),
        Some(text) => {
            if starts_with_exec(&chars_of(text.as_str()), &chars_of(MARKER)) {
                Ok(())
            } else {
                Err(NativeError::new("Terminal proxy path is not owned by KokoroBox"))
            }
        },
    }
}

/// The eight variable names.
pub open spec fn proxy_names() -> Seq<Seq<char>> {
    seq![
        "http_proxy"@,
        "https_proxy"@,
        "all_proxy"@,
        "no_proxy"@,
        "HTTP_PROXY"@,
        "HTTPS_PROXY"@,
        "ALL_PROXY"@,
        "NO_PROXY"@,
    ]
}

/// The names of the exported variables.
pub fn names() -> (names: Vec<String>)
    ensures
        string_views(names@) == proxy_names(),
{
    let names: Vec<String> = vec![
        "http_proxy".to_string(),
        "https_proxy".to_string(),
        "all_proxy".to_string(),
        "no_proxy".to_string(),
        "HTTP_PROXY".to_string(),
        "HTTPS_PROXY".to_string(),
        "ALL_PROXY".to_string(),
        "NO_PROXY".to_string(),
    ];
    assert(string_views(names@) =~= proxy_names());
    names
}

/// What setting the proxy takes: the file to write and the assignments to
/// hand to the user's service manager.
#[derive(Debug, Clone)]
pub struct TerminalProxyUpdate {
    pub assignments: Vec<String>,
    pub content: String,
}

/// Prepares setting the proxy at `host:port` with the bypass list.
pub fn set(host: &str, port: u16, bypass: &Vec<String>) -> (result: Result<
    TerminalProxyUpdate,
    NativeError,
>)
    ensures
        match assignments_spec(host@, port, string_views(bypass@)) {
            Err(message) => fails_with(result, message),
            Ok(values) => match content_spec(values) {
                Err(message) => fails_with(result, message),
                Ok(text) => result matches Ok(update) && string_views(update.assignments@)
                    == values && update.content@ == text,
            },
        },
{
    let values = match assignments(host, port, bypass) {
        Err(error) => {
            return Err(error);
        },
        Ok(values) => values,
    };
    let text = match content(&values) {
        Err(error) => {
            return Err(error);
        },
        Ok(text) => text,
    };
    Ok(TerminalProxyUpdate { assignments: values, content: text })
}

/// What clearing the proxy takes, from the file's text (`None` when there is
/// no file): `None` when there is nothing of this library's to remove, else
/// the names to unset once the file is removed.
pub fn clear(existing: &Option<String>) -> (unset: Option<Vec<String>>)
    ensures
        match existing {
            Some(text) if is_managed(text@) => unset matches Some(n) && string_views(n@)
                == proxy_names(),
            _ => unset is None,
        },
{
    match existing {
        None => None,
        Some(text) => {
            if starts_with_exec(&chars_of(text.as_str()), &chars_of(MARKER)) {
                Some(names())
            } else {
                None
            }
        },
    }
}

/// The error on systems without `environment.d`.
pub open spec fn linux_only_message() -> Seq<char> {
    "Terminal proxy environment is only available on Linux"@
}

/// Prepares setting the proxy on `os`.
pub fn set_terminal_proxy_environment(host: &str, port: u16, bypass: &Vec<String>, os: TargetOs) -> (result:
    Result<TerminalProxyUpdate, NativeError>)
    ensures
        os != TargetOs::Linux ==> fails_with(result, linux_only_message()),
        os == TargetOs::Linux ==> match assignments_spec(host@, port, string_views(bypass@)) {
            Err(message) => fails_with(result, message),
            Ok(values) => match content_spec(values) {
                Err(message) => fails_with(result, message),
                Ok(text) => result matches Ok(update) && string_views(update.assignments@)
                    == values && update.content@ == text,
            },
        },
{
    if os != TargetOs::Linux {
        return Err(NativeError::new("Terminal proxy environment is only available on Linux"));
    }
    set(host, port, bypass)
}

/// Decides clearing the proxy on `os` from the file's text.
pub fn clear_terminal_proxy_environment(existing: &Option<String>, os: TargetOs) -> (result: Result<
    Option<Vec<String>>,
    NativeError,
>)
    ensures
        os != TargetOs::Linux ==> fails_with(result, linux_only_message()),
        os == TargetOs::Linux ==> match existing {
            Some(text) if is_managed(text@) => result matches Ok(Some(n)) && string_views(n@)
                == proxy_names(),
            _ => result == Ok::<Option<Vec<String>>, NativeError>(None),
        },
{
    if os != TargetOs::Linux {
        return Err(NativeError::new("Terminal proxy environment is only available on Linux"));
    }
    Ok(clear(existing))
}

} // verus!
