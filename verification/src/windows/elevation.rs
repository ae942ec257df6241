//! Command lines for processes started elevated or unelevated: the quoting
//! Windows' argument splitter expects, and UTF-16 text for the Win32 calls.
use vstd::prelude::*;
use crate::error::NativeError;
use crate::text::{chars_of, join, push_joined, push_str, string_of, string_views};

verus! {

broadcast use vstd::string::group_string_axioms;

// ---------------------------------------------------------------------------
// UTF-16
// ---------------------------------------------------------------------------
/// The UTF-16 code units of one character (`char::encode_utf16`).
pub open spec fn utf16_of_char(c: char) -> Seq<u16> {
    let v = c as u32;
    if v < 0x10000 {
        seq![v as u16]
    } else {
        let w = (v - 0x10000) as u32;
        seq![(0xD800 + w / 0x400) as u16, (0xDC00 + w % 0x400) as u16]
    }
}

/// The UTF-16 code units of a string (`str::encode_utf16`).
pub open spec fn utf16(s: Seq<char>) -> Seq<u16>
    decreases s.len(),
{
    if s.len() == 0 {
        seq![]
    } else {
        utf16(s.drop_last()) + utf16_of_char(s.last())
    }
}

/// A string as a NUL-terminated wide string.
pub open spec fn wide_null(s: Seq<char>) -> Seq<u16> {
    utf16(s).push(0u16)
}

fn push_utf16(out: &mut Vec<u16>, c: char)
    ensures
        final(out)@ == old(out)@ + utf16_of_char(c),
{
    let v = c as u32;
    if v < 0x10000 {
        out.push(v as u16);
    } else {
        assert(v <= 0x10FFFF);
        let w = v - 0x10000;
        out.push((0xD800 + w / 0x400) as u16);
        out.push((0xDC00 + w % 0x400) as u16);
    }
    assert(out@ =~= old(out)@ + utf16_of_char(c));
}

/// `value` as UTF-16 followed by a NUL.
pub fn to_wide_null(value: &str) -> (wide: Vec<u16>)
    ensures
        wide@ == wide_null(value@),
{
    let chars = chars_of(value);
    let mut wide: Vec<u16> = Vec::new();
    let mut i: usize = 0;
    while i < chars.len()
        invariant
            i <= chars.len(),
            chars@ == value@,
            wide@ == utf16(chars@.take(i as int)),
        decreases chars.len() - i,
    {
        push_utf16(&mut wide, chars[i]);
        assert(chars@.take(i + 1).drop_last() =~= chars@.take(i as int));
        i = i + 1;
    }
    assert(chars@.take(chars.len() as int) =~= chars@);
    wide.push(0u16);
    wide
}

// ---------------------------------------------------------------------------
// Argument quoting
// ---------------------------------------------------------------------------
/// `n` backslashes.
pub open spec fn backslashes(n: nat) -> Seq<char> {
    Seq::new(n, |i: int| '\\')
}

/// A character that forces an argument into quotes.
pub open spec fn forces_quotes(c: char) -> bool {
    c == ' ' || c == '\t' || c == '\n' || c == '\r' || c == '"'
}

/// Whether an argument must be quoted: it is empty or holds a blank or a
/// quote.
pub open spec fn needs_quotes(arg: Seq<char>) -> bool {
    arg.len() == 0 || exists|i: int| 0 <= i < arg.len() && forces_quotes(#[trigger] arg[i])
}

/// The text inside the quotes, `pending` backslashes not yet written: a run
/// of backslashes is doubled when a quote or the closing quote follows it,
/// and a quote is escaped with one more backslash.
pub open spec fn quoted_body(s: Seq<char>, pending: nat) -> Seq<char>
    decreases s.len(),
{
    if s.len() == 0 {
        backslashes(2 * pending)
    } else if s[0] == '\\' {
        quoted_body(s.drop_first(), pending + 1)
    } else if s[0] == '"' {
        backslashes(2 * pending + 1) + seq!['"'] + quoted_body(s.drop_first(), 0)
    } else {
        backslashes(pending) + seq![s[0]] + quoted_body(s.drop_first(), 0)
    }
}

/// One argument as Windows' argument splitter reads it back: unchanged when
/// it needs no quotes, else quoted.
pub open spec fn windows_quoted(arg: Seq<char>) -> Seq<char> {
    if !needs_quotes(arg) {
        arg
    } else {
        seq!['"'] + quoted_body(arg, 0) + seq!['"']
    }
}

fn push_backslashes(out: &mut Vec<char>, n: usize)
    ensures
        final(out)@ == old(out)@ + backslashes(n as nat),
{
    let mut i: usize = 0;
    while i < n
        invariant
            i <= n,
            out@ == old(out)@ + backslashes(i as nat),
        decreases n - i,
    {
        out.push('\\');
        assert(backslashes((i + 1) as nat) =~= backslashes(i as nat).push('\\'));
        i = i + 1;
    }
}

proof fn lemma_backslashes_add(a: nat, b: nat)
    ensures
        backslashes(a) + backslashes(b) == backslashes(a + b),
{
    assert(backslashes(a) + backslashes(b) =~= backslashes(a + b));
}

/// Quotes one argument for a Windows command line.
pub fn quote_windows_arg(arg: &str) -> (quoted: String)
    ensures
        quoted@ == windows_quoted(arg@),
{
    let chars = chars_of(arg);
    let mut needs = chars.len() == 0;
    let mut k: usize = 0;
    while k < chars.len()
        invariant
            k <= chars.len(),
            chars@ == arg@,
            needs == (chars@.len() == 0 || exists|i: int|
                0 <= i < k && forces_quotes(#[trigger] chars@[i])),
        decreases chars.len() - k,
    {
        let c = chars[k];
        if c == ' ' || c == '\t' || c == '\n' || c == '\r' || c == '"' {
            needs = true;
        }
        k = k + 1;
    }
    if !needs {
        return arg.to_string();
    }
    let mut out: Vec<char> = Vec::new();
    out.push('"');
    let mut pending: usize = 0;
    let mut i: usize = 0;
    assert(chars@.skip(0) =~= chars@);
    while i < chars.len()
        invariant
            i <= chars.len(),
            pending <= i,
            chars@ == arg@,
            seq!['"'] + quoted_body(arg@, 0) == out@ + quoted_body(chars@.skip(i as int), pending as nat),
        decreases chars.len() - i,
    {
        let c = chars[i];
        let ghost rest = chars@.skip(i as int);
        assert(rest[0] == c);
        assert(rest.drop_first() =~= chars@.skip(i + 1));
        if c == '\\' {
            pending = pending + 1;
        } else if c == '"' {
            let ghost before = out@;
            push_backslashes(&mut out, pending);
            push_backslashes(&mut out, pending);
            out.push('\\');
            out.push('"');
            proof {
                lemma_backslashes_add(pending as nat, pending as nat);
                assert(backslashes((2 * pending) as nat).push('\\') =~= backslashes(
                    (2 * pending + 1) as nat,
                ));
                assert(out@ =~= before + backslashes((2 * pending + 1) as nat) + seq!['"']);
            }
            pending = 0;
        } else {
            push_backslashes(&mut out, pending);
            out.push(c);
            pending = 0;
        }
        i = i + 1;
    }
    let ghost before = out@;
    push_backslashes(&mut out, pending);
    push_backslashes(&mut out, pending);
    proof {
        lemma_backslashes_add(pending as nat, pending as nat);
        assert(chars@.skip(i as int) =~= Seq::<char>::empty());
    }
    out.push('"');
    assert(out@ =~= windows_quoted(arg@));
    string_of(&out)
}


// ---------------------------------------------------------------------------
// Reading an argument back
// ---------------------------------------------------------------------------
/// A blank that ends an argument outside quotes.
pub open spec fn is_argument_blank(c: char) -> bool {
    c == ' ' || c == '\t'
}

/// The first argument of `s` as the Microsoft C runtime reads it: `n`
/// backslashes are pending; before a quote an even run is halved and the
/// quote opens or closes quoting, an odd run is halved and the quote is
/// literal; elsewhere backslashes are literal; outside quotes a blank ends
/// the argument.
pub open spec fn read_argument(s: Seq<char>, quoted: bool, n: nat) -> Seq<char>
    decreases s.len(),
{
    if s.len() == 0 {
        backslashes(n)
    } else if s[0] == '\\' {
        read_argument(s.drop_first(), quoted, n + 1)
    } else if s[0] == '"' {
        if n % 2 == 0 {
            backslashes(n / 2) + read_argument(s.drop_first(), !quoted, 0)
        } else {
            backslashes(n / 2) + seq!['"'] + read_argument(s.drop_first(), quoted, 0)
        }
    } else if !quoted && is_argument_blank(s[0]) {
        backslashes(n)
    } else {
        backslashes(n) + seq![s[0]] + read_argument(s.drop_first(), quoted, 0)
    }
}

proof fn lemma_read_backslashes(k: nat, rest: Seq<char>, quoted: bool, n: nat)
    ensures
        read_argument(backslashes(k) + rest, quoted, n) == read_argument(rest, quoted, n + k),
    decreases k,
{
    if k > 0 {
        let s = backslashes(k) + rest;
        assert(s[0] == '\\');
        assert(s.drop_first() =~= backslashes((k - 1) as nat) + rest);
        lemma_read_backslashes((k - 1) as nat, rest, quoted, n + 1);
    } else {
        assert(backslashes(k) + rest =~= rest);
    }
}

proof fn lemma_read_plain(a: Seq<char>, n: nat)
    requires
        !needs_quotes(a) || a.len() == 0,
        forall|i: int| 0 <= i < a.len() ==> !forces_quotes(#[trigger] a[i]),
    ensures
        read_argument(a, false, n) == backslashes(n) + a,
    decreases a.len(),
{
    if a.len() == 0 {
        assert(backslashes(n) + a =~= backslashes(n));
    } else {
        assert(!forces_quotes(a[0]));
        let rest = a.drop_first();
        assert forall|i: int| 0 <= i < rest.len() implies !forces_quotes(#[trigger] rest[i]) by {
            assert(rest[i] == a[i + 1]);
        }
        if a[0] == '\\' {
            lemma_read_plain(rest, n + 1);
            assert(backslashes(n + 1) + rest =~= backslashes(n) + a);
        } else {
            lemma_read_plain(rest, 0);
            assert(backslashes(0) + rest =~= rest);
            assert(backslashes(n) + seq![a[0]] + rest =~= backslashes(n) + a);
        }
    }
}

proof fn lemma_read_body(a: Seq<char>, p: nat)
    ensures
        read_argument(quoted_body(a, p) + seq!['"'], true, 0) == backslashes(p) + a,
    decreases a.len(),
{
    let tail = seq!['"'];
    if a.len() == 0 {
        lemma_read_backslashes(2 * p, tail, true, 0);
        assert(backslashes(2 * p) + tail =~= quoted_body(a, p) + tail);
        assert(tail.drop_first() =~= Seq::<char>::empty());
        assert((2 * p) / 2 == p) by (nonlinear_arith);
        assert(read_argument(tail, true, 2 * p) == backslashes(p) + read_argument(
            tail.drop_first(),
            false,
            0,
        ));
        assert(backslashes(p) + Seq::<char>::empty() =~= backslashes(p) + a);
    } else {
        let rest = a.drop_first();
        if a[0] == '\\' {
            lemma_read_body(rest, p + 1);
            assert(backslashes(p + 1) + rest =~= backslashes(p) + a);
        } else if a[0] == '"' {
            let body = quoted_body(rest, 0) + tail;
            let s = backslashes(2 * p + 1) + seq!['"'] + body;
            assert(quoted_body(a, p) + tail =~= backslashes(2 * p + 1) + (seq!['"'] + body));
            lemma_read_backslashes(2 * p + 1, seq!['"'] + body, true, 0);
            assert((seq!['"'] + body).drop_first() =~= body);
            assert((2 * p + 1) % 2 == 1 && (2 * p + 1) / 2 == p) by (nonlinear_arith);
            lemma_read_body(rest, 0);
            assert(backslashes(0) + rest =~= rest);
            assert(backslashes(p) + seq!['"'] + rest =~= backslashes(p) + a);
        } else {
            let body = quoted_body(rest, 0) + tail;
            assert(quoted_body(a, p) + tail =~= backslashes(p) + (seq![a[0]] + body));
            lemma_read_backslashes(p, seq![a[0]] + body, true, 0);
            assert((seq![a[0]] + body).drop_first() =~= body);
            lemma_read_body(rest, 0);
            assert(backslashes(0) + rest =~= rest);
            assert(backslashes(p) + seq![a[0]] + rest =~= backslashes(p) + a);
        }
    }
}

/// Quoting loses nothing: Windows reads every quoted argument back as the
/// argument that was given, whatever characters it holds.
pub proof fn windows_quoted_reads_back(arg: Seq<char>)
    ensures
        read_argument(windows_quoted(arg), false, 0) == arg,
{
    if !needs_quotes(arg) {
        assert forall|i: int| 0 <= i < arg.len() implies !forces_quotes(#[trigger] arg[i]) by {}
        lemma_read_plain(arg, 0);
        assert(backslashes(0) + arg =~= arg);
    } else {
        let q = windows_quoted(arg);
        let body = quoted_body(arg, 0) + seq!['"'];
        assert(q =~= seq!['"'] + body);
        assert(q.drop_first() =~= body);
        assert(backslashes(0) =~= Seq::<char>::empty());
        lemma_read_body(arg, 0);
        assert(backslashes(0) + arg =~= arg);
    }
}

/// Every argument quoted.
pub open spec fn quoted_arguments(args: Seq<Seq<char>>) -> Seq<Seq<char>> {
    args.map_values(|a: Seq<char>| windows_quoted(a))
}

fn quote_all(args: &Vec<String>) -> (quoted: Vec<String>)
    ensures
        string_views(quoted@) == quoted_arguments(string_views(args@)),
{
    let mut quoted: Vec<String> = Vec::new();
    let mut i: usize = 0;
    while i < args.len()
        invariant
            i <= args.len(),
            string_views(quoted@) == quoted_arguments(string_views(args@).take(i as int)),
        decreases args.len() - i,
    {
        let ghost before = quoted@;
        let q = quote_windows_arg(args[i].as_str());
        quoted.push(q);
        proof {
            let v = string_views(args@);
            assert(v.take(i + 1) =~= v.take(i as int).push(v[i as int]));
            assert(string_views(quoted@) =~= string_views(before).push(q@));
            assert(quoted_arguments(v.take(i + 1)) =~= quoted_arguments(v.take(i as int)).push(
                windows_quoted(v[i as int]),
            ));
        }
        i = i + 1;
    }
    assert(string_views(args@).take(args.len() as int) =~= string_views(args@));
    quoted
}

/// The quoted arguments separated by spaces.
pub open spec fn parameters_text(args: Seq<Seq<char>>) -> Seq<char> {
    join(quoted_arguments(args), " "@)
}

/// The parameters for `args` as one string.
pub fn parameters(args: &Vec<String>) -> (text: String)
    ensures
        text@ == parameters_text(string_views(args@)),
{
    let quoted = quote_all(args);
    let mut out: Vec<char> = Vec::new();
    push_joined(&mut out, &quoted, " ");
    assert(out@ =~= parameters_text(string_views(args@)));
    string_of(&out)
}

/// The full command line: the command and its arguments, each quoted.
pub open spec fn command_line_text(command: Seq<char>, args: Seq<Seq<char>>) -> Seq<char> {
    join(seq![windows_quoted(command)] + quoted_arguments(args), " "@)
}

/// The command line for `CreateProcessW`, NUL-terminated UTF-16.
pub fn command_line(command: &str, args: &Vec<String>) -> (line: Vec<u16>)
    ensures
        line@ == wide_null(command_line_text(command@, string_views(args@))),
{
    let mut parts: Vec<String> = Vec::new();
    parts.push(quote_windows_arg(command));
    let quoted = quote_all(args);
    let mut i: usize = 0;
    while i < quoted.len()
        invariant
            i <= quoted.len(),
            string_views(parts@) == seq![windows_quoted(command@)] + string_views(quoted@).take(
                i as int,
            ),
        decreases quoted.len() - i,
    {
        let ghost before = parts@;
        let q = quoted[i].clone();
        parts.push(q);
        proof {
            assert(string_views(parts@) =~= string_views(before).push(q@));
            assert(string_views(quoted@).take(i + 1) =~= string_views(quoted@).take(i as int).push(
                quoted@[i as int]@,
            ));
        }
        i = i + 1;
    }
    assert(string_views(quoted@).take(quoted.len() as int) =~= string_views(quoted@));
    let mut out: Vec<char> = Vec::new();
    push_joined(&mut out, &parts, " ");
    assert(out@ =~= command_line_text(command@, string_views(args@)));
    to_wide_null(string_of(&out).as_str())
}

// ---------------------------------------------------------------------------
// ShellExecute requests
// ---------------------------------------------------------------------------
/// How the started process shows its window.
#[derive(Debug, Clone, Copy, PartialEq, Eq, Structural)]
pub enum ShowWindow {
    Hidden,
    Normal,
}

/// What `ShellExecuteExW` is asked to do.
#[derive(Debug, Clone)]
pub struct ShellExecuteRequest {
    pub verb: Vec<u16>,
    pub file: Vec<u16>,
    pub parameters: Vec<u16>,
    pub show: ShowWindow,
    /// Whether the caller waits for the process and reads its exit code.
    pub wait_for_exit: bool,
}

/// The request shared by both elevated starts.
pub open spec fn runas_request(
    request: ShellExecuteRequest,
    command: Seq<char>,
    args: Seq<Seq<char>>,
) -> bool {
    &&& request.verb@ == wide_null("runas"@)
    &&& request.file@ == wide_null(command)
    &&& request.parameters@ == wide_null(parameters_text(args))
}

fn runas(command: &str, args: &Vec<String>, show: ShowWindow, wait: bool) -> (request:
    ShellExecuteRequest)
    ensures
        runas_request(request, command@, string_views(args@)),
        request.show == show,
        request.wait_for_exit == wait,
{
    let text = parameters(args);
    ShellExecuteRequest {
        verb: to_wide_null("runas"),
        file: to_wide_null(command),
        parameters: to_wide_null(text.as_str()),
        show,
        wait_for_exit: wait,
    }
}

/// Runs `command` elevated through the `runas` verb, hidden, and waits for
/// its exit code.
pub fn run_elevated(command: &str, args: &Vec<String>) -> (request: ShellExecuteRequest)
    ensures
        runas_request(request, command@, string_views(args@)),
        request.show == ShowWindow::Hidden,
        request.wait_for_exit,
{
    runas(command, args, ShowWindow::Hidden, true)
}

/// Starts `command` elevated through the `runas` verb, visible, without
/// waiting.
pub fn launch_elevated(command: &str, args: &Vec<String>) -> (request: ShellExecuteRequest)
    ensures
        runas_request(request, command@, string_views(args@)),
        request.show == ShowWindow::Normal,
        !request.wait_for_exit,
{
    runas(command, args, ShowWindow::Normal, false)
}

/// The failure code `ShellExecuteExW` reports when the user declines the UAC
/// prompt (`HRESULT_FROM_WIN32(ERROR_CANCELLED)`).
pub const CANCELLED_HRESULT: i32 = -2147023673i32;

/// The error for a failed `ShellExecuteExW`.
pub fn shell_execute_error(code: i32, description: &str) -> (error: NativeError)
    ensures
        code == CANCELLED_HRESULT ==> error.message@ == "User canceled"@,
        code != CANCELLED_HRESULT ==> error.message@ == "ShellExecuteExW failed: "@ + description@,
{
    if code == CANCELLED_HRESULT {
        NativeError::new("User canceled")
    } else {
        let mut out: Vec<char> = Vec::new();
        push_str(&mut out, "ShellExecuteExW failed: ");
        push_str(&mut out, description);
        NativeError { message: string_of(&out) }
    }
}

/// What `CreateProcessW` is given to start a process below the desktop
/// shell.
#[derive(Debug, Clone)]
pub struct UnelevatedLaunch {
    pub application: Vec<u16>,
    pub command_line: Vec<u16>,
}

/// Starts `command` unelevated, with the interactive shell as its parent.
pub fn launch_unelevated(command: &str, args: &Vec<String>) -> (launch: UnelevatedLaunch)
    ensures
        launch.application@ == wide_null(command@),
        launch.command_line@ == wide_null(command_line_text(command@, string_views(args@))),
{
    UnelevatedLaunch { application: to_wide_null(command), command_line: command_line(command, args) }
}

} // verus!
