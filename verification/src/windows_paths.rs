//! Windows path syntax as `std::path::Path` reads it on Windows: prefixes
//! (`C:`, `\\server\share`, `\\.\device`, `\\?\verbatim`), roots, components,
//! absoluteness and file names.  Both `\` and `/` separate components, except
//! in verbatim paths, where only `\` does.
use vstd::prelude::*;
use crate::text::{ascii_lower, ascii_lower_exec, chars_of};
use crate::paths::chars_equal;

verus! {

broadcast use vstd::string::group_string_axioms;

/// A separator: `\` always, `/` outside verbatim paths.
pub open spec fn is_win_sep(c: char, verbatim: bool) -> bool {
    c == '\\' || (!verbatim && c == '/')
}

/// ASCII letters (`u8::is_ascii_alphabetic`).
pub open spec fn is_ascii_alpha(c: char) -> bool {
    ('a' <= c <= 'z') || ('A' <= c <= 'Z')
}

/// The end of the component that starts at `from`: the position of the next
/// separator, or the end of the path.
pub open spec fn comp_end(p: Seq<char>, from: int, verbatim: bool) -> int
    decreases p.len() - from,
{
    if from >= p.len() || from < 0 {
        p.len() as int
    } else if is_win_sep(p[from], verbatim) {
        from
    } else {
        comp_end(p, from + 1, verbatim)
    }
}

/// The kinds of path prefix.
#[derive(Debug, Clone, Copy, PartialEq, Eq, Structural)]
pub enum WinPrefixKind {
    NoPrefix,
    Disk,
    Verbatim,
    VerbatimUnc,
    VerbatimDisk,
    DeviceNs,
    Unc,
}

/// The path begins with two separators.
pub open spec fn two_separators(p: Seq<char>) -> bool {
    p.len() >= 2 && is_win_sep(p[0], false) && is_win_sep(p[1], false)
}

/// The path begins with `\\?\` spelled with backslashes, and no `/` occurs
/// among its first eight characters.
pub open spec fn verbatim_start(p: Seq<char>) -> bool {
    &&& p.len() >= 4
    &&& p[0] == '\\'
    &&& p[1] == '\\'
    &&& p[2] == '?'
    &&& p[3] == '\\'
    &&& forall|i: int| 0 <= i < p.len() && i < 8 ==> p[i] != '/'
}

/// The verbatim path continues with `UNC\`.
pub open spec fn verbatim_unc_start(p: Seq<char>) -> bool {
    p.len() >= 8 && p[4] == 'U' && p[5] == 'N' && p[6] == 'C' && p[7] == '\\'
}

/// The verbatim path continues with exactly a drive, `C:` alone or followed
/// by `\`.
pub open spec fn verbatim_disk_start(p: Seq<char>) -> bool {
    p.len() >= 6 && is_ascii_alpha(p[4]) && p[5] == ':' && (p.len() == 6 || p[6] == '\\')
}

/// Two components that start at `from`: the length of the text they cover,
/// a separator between them counted only when the second is not empty.
pub open spec fn two_comps_len(p: Seq<char>, from: int, verbatim: bool) -> int {
    let e1 = comp_end(p, from, verbatim);
    if e1 < p.len() {
        let e2 = comp_end(p, e1 + 1, verbatim);
        if e2 > e1 + 1 {
            e2 - from
        } else {
            e1 - from
        }
    } else {
        e1 - from
    }
}

/// The UNC form `\\server\share`: both names present.
pub open spec fn unc_names_present(p: Seq<char>) -> bool {
    let e1 = comp_end(p, 2, false);
    e1 > 2 && e1 < p.len() && comp_end(p, e1 + 1, false) > e1 + 1
}

/// The prefix of a path and its length in characters.
pub open spec fn win_prefix(p: Seq<char>) -> (WinPrefixKind, int) {
    if two_separators(p) {
        if verbatim_start(p) {
            if verbatim_unc_start(p) {
                (WinPrefixKind::VerbatimUnc, 8 + two_comps_len(p, 8, true))
            } else if verbatim_disk_start(p) {
                (WinPrefixKind::VerbatimDisk, 6)
            } else {
                (WinPrefixKind::Verbatim, comp_end(p, 4, true))
            }
        } else if p.len() >= 4 && p[2] == '.' && is_win_sep(p[3], false) {
            (WinPrefixKind::DeviceNs, comp_end(p, 4, false))
        } else if unc_names_present(p) {
            (WinPrefixKind::Unc, 2 + two_comps_len(p, 2, false))
        } else {
            (WinPrefixKind::NoPrefix, 0)
        }
    } else if p.len() >= 2 && is_ascii_alpha(p[0]) && p[1] == ':' {
        (WinPrefixKind::Disk, 2)
    } else {
        (WinPrefixKind::NoPrefix, 0)
    }
}

/// Whether the prefix makes the path verbatim.
pub open spec fn is_verbatim_kind(kind: WinPrefixKind) -> bool {
    kind == WinPrefixKind::Verbatim || kind == WinPrefixKind::VerbatimUnc || kind
        == WinPrefixKind::VerbatimDisk
}

/// A separator right after the prefix.
pub open spec fn has_physical_root(p: Seq<char>) -> bool {
    let (kind, len) = win_prefix(p);
    len < p.len() && is_win_sep(p[len], is_verbatim_kind(kind))
}

/// `Path::is_absolute` on Windows: a prefix and a root, where every prefix
/// but a bare drive brings its root with it.
pub open spec fn win_is_absolute(p: Seq<char>) -> bool {
    let (kind, len) = win_prefix(p);
    match kind {
        WinPrefixKind::NoPrefix => false,
        WinPrefixKind::Disk => has_physical_root(p),
        _ => true,
    }
}

/// The pieces of `s` between separators.
pub open spec fn win_split(s: Seq<char>, verbatim: bool) -> Seq<Seq<char>>
    decreases s.len(),
{
    if s.len() == 0 {
        seq![seq![]]
    } else {
        let rest = win_split(s.drop_last(), verbatim);
        if is_win_sep(s.last(), verbatim) {
            rest.push(seq![])
        } else {
            rest.update(rest.len() - 1, rest.last().push(s.last()))
        }
    }
}

/// A piece that is a component: not empty, and not `.` outside verbatim
/// paths.
pub open spec fn is_win_piece(piece: Seq<char>, verbatim: bool) -> bool {
    piece.len() > 0 && (verbatim || piece != seq!['.'])
}

/// The pieces that are components, in order.
pub open spec fn win_pieces(pieces: Seq<Seq<char>>, verbatim: bool) -> Seq<Seq<char>>
    decreases pieces.len(),
{
    if pieces.len() == 0 {
        seq![]
    } else {
        let rest = win_pieces(pieces.drop_last(), verbatim);
        if is_win_piece(pieces.last(), verbatim) {
            rest.push(pieces.last())
        } else {
            rest
        }
    }
}

/// The text after the prefix and its root separator.
pub open spec fn win_body(p: Seq<char>) -> Seq<char> {
    let (kind, len) = win_prefix(p);
    let start = if has_physical_root(p) {
        len + 1
    } else {
        len
    };
    p.subrange(start, p.len() as int)
}

/// The names after the prefix and root (including `..` and, in verbatim
/// paths, `.`).
pub open spec fn win_names(p: Seq<char>) -> Seq<Seq<char>> {
    let (kind, len) = win_prefix(p);
    let v = is_verbatim_kind(kind);
    win_pieces(win_split(win_body(p), v), v)
}

/// A relative path without a root that begins with `.` as its own piece.
pub open spec fn includes_cur_dir(p: Seq<char>) -> bool {
    let (kind, len) = win_prefix(p);
    let has_root = has_physical_root(p) || (kind != WinPrefixKind::NoPrefix && kind
        != WinPrefixKind::Disk);
    !has_root && len < p.len() && p[len] == '.' && (len + 1 == p.len() || is_win_sep(
        p[len + 1],
        false,
    ))
}

/// `Path::components` on Windows, each as its text: the prefix, the root
/// (`\`), a leading `.`, then the names.
pub open spec fn win_components(p: Seq<char>) -> Seq<Seq<char>> {
    let (kind, len) = win_prefix(p);
    let prefix = if kind == WinPrefixKind::NoPrefix {
        seq![]
    } else {
        seq![p.subrange(0, len)]
    };
    let root = if has_physical_root(p) || (kind == WinPrefixKind::Unc || kind
        == WinPrefixKind::DeviceNs) {
        seq![seq!['\\']]
    } else {
        seq![]
    };
    let cur = if includes_cur_dir(p) {
        seq![seq!['.']]
    } else {
        seq![]
    };
    prefix + root + cur + win_names(p)
}

/// `Path::file_name` on Windows: the last name, unless it is `.` or `..`.
pub open spec fn win_file_name(p: Seq<char>) -> Option<Seq<char>> {
    let names = win_names(p);
    if names.len() == 0 {
        None
    } else {
        let last = names.last();
        if last == seq!['.'] || last == seq!['.', '.'] {
            None
        } else {
            Some(last)
        }
    }
}

/// ASCII case-insensitive equality (`eq_ignore_ascii_case`).
pub open spec fn eq_ignore_ascii_case(a: Seq<char>, b: Seq<char>) -> bool {
    ascii_lower(a) == ascii_lower(b)
}

/// `is_path_below`: the components of `parent` begin those of `path`, each
/// compared without regard to ASCII case.
pub open spec fn components_below(path: Seq<Seq<char>>, parent: Seq<Seq<char>>) -> bool {
    parent.len() <= path.len() && forall|i: int|
        0 <= i < parent.len() ==> eq_ignore_ascii_case(#[trigger] path[i], parent[i])
}

// ---------------------------------------------------------------------------
// Executable counterparts
// ---------------------------------------------------------------------------
fn is_win_sep_exec(c: char, verbatim: bool) -> (b: bool)
    ensures
        b == is_win_sep(c, verbatim),
{
    c == '\\' || (!verbatim && c == '/')
}

fn is_ascii_alpha_exec(c: char) -> (b: bool)
    ensures
        b == is_ascii_alpha(c),
{
    ('a' <= c && c <= 'z') || ('A' <= c && c <= 'Z')
}

proof fn lemma_comp_end(p: Seq<char>, from: int, verbatim: bool)
    requires
        0 <= from <= p.len(),
    ensures
        from <= comp_end(p, from, verbatim) <= p.len(),
        forall|j: int| from <= j < comp_end(p, from, verbatim) ==> !is_win_sep(p[j], verbatim),
        comp_end(p, from, verbatim) < p.len() ==> is_win_sep(
            p[comp_end(p, from, verbatim)],
            verbatim,
        ),
    decreases p.len() - from,
{
    if from < p.len() && !is_win_sep(p[from], verbatim) {
        lemma_comp_end(p, from + 1, verbatim);
    }
}

fn comp_end_exec(p: &Vec<char>, from: usize, verbatim: bool) -> (end: usize)
    requires
        from <= p.len(),
    ensures
        end == comp_end(p@, from as int, verbatim),
        from <= end <= p.len(),
{
    let mut i = from;
    while i < p.len() && !is_win_sep_exec(p[i], verbatim)
        invariant
            from <= i <= p.len(),
            comp_end(p@, from as int, verbatim) == comp_end(p@, i as int, verbatim),
        decreases p.len() - i,
    {
        i = i + 1;
    }
    i
}

fn two_comps_len_exec(p: &Vec<char>, from: usize, verbatim: bool) -> (n: usize)
    requires
        from <= p.len(),
    ensures
        n == two_comps_len(p@, from as int, verbatim),
        from + n <= p.len(),
{
    proof {
        lemma_comp_end(p@, from as int, verbatim);
    }
    let e1 = comp_end_exec(p, from, verbatim);
    if e1 < p.len() {
        proof {
            lemma_comp_end(p@, e1 + 1, verbatim);
        }
        let e2 = comp_end_exec(p, e1 + 1, verbatim);
        if e2 > e1 + 1 {
            e2 - from
        } else {
            e1 - from
        }
    } else {
        e1 - from
    }
}

/// The prefix of a path and its length.
pub fn win_prefix_exec(p: &Vec<char>) -> (prefix: (WinPrefixKind, usize))
    ensures
        prefix.0 == win_prefix(p@).0,
        prefix.1 as int == win_prefix(p@).1,
        prefix.1 <= p.len(),
{
    let n = p.len();
    if n >= 2 && is_win_sep_exec(p[0], false) && is_win_sep_exec(p[1], false) {
        let mut no_slash = true;
        let mut i: usize = 0;
        while i < n && i < 8
            invariant
                i <= n,
                i <= 8,
                n == p.len(),
                no_slash == (forall|j: int| 0 <= j < i ==> p@[j] != '/'),
            decreases 8 - i,
        {
            if p[i] == '/' {
                no_slash = false;
            }
            i = i + 1;
        }
        assert(no_slash == (forall|j: int| 0 <= j < p.len() && j < 8 ==> p@[j] != '/'));
        if n >= 4 && p[0] == '\\' && p[1] == '\\' && p[2] == '?' && p[3] == '\\' && no_slash {
            if n >= 8 && p[4] == 'U' && p[5] == 'N' && p[6] == 'C' && p[7] == '\\' {
                let k = two_comps_len_exec(p, 8, true);
                (WinPrefixKind::VerbatimUnc, 8 + k)
            } else if n >= 6 && is_ascii_alpha_exec(p[4]) && p[5] == ':' && (n == 6 || p[6]
                == '\\') {
                (WinPrefixKind::VerbatimDisk, 6)
            } else {
                (WinPrefixKind::Verbatim, comp_end_exec(p, 4, true))
            }
        } else if n >= 4 && p[2] == '.' && is_win_sep_exec(p[3], false) {
            (WinPrefixKind::DeviceNs, comp_end_exec(p, 4, false))
        } else {
            proof {
                lemma_comp_end(p@, 2, false);
            }
            let e1 = comp_end_exec(p, 2, false);
            if e1 > 2 && e1 < n {
                proof {
                    lemma_comp_end(p@, e1 + 1, false);
                }
                let e2 = comp_end_exec(p, e1 + 1, false);
                if e2 > e1 + 1 {
                    let k = two_comps_len_exec(p, 2, false);
                    return (WinPrefixKind::Unc, 2 + k);
                }
            }
            (WinPrefixKind::NoPrefix, 0)
        }
    } else if n >= 2 && is_ascii_alpha_exec(p[0]) && p[1] == ':' {
        (WinPrefixKind::Disk, 2)
    } else {
        (WinPrefixKind::NoPrefix, 0)
    }
}

fn is_verbatim_kind_exec(kind: WinPrefixKind) -> (b: bool)
    ensures
        b == is_verbatim_kind(kind),
{
    kind == WinPrefixKind::Verbatim || kind == WinPrefixKind::VerbatimUnc || kind
        == WinPrefixKind::VerbatimDisk
}

fn has_physical_root_exec(p: &Vec<char>, kind: WinPrefixKind, len: usize) -> (b: bool)
    requires
        kind == win_prefix(p@).0,
        len as int == win_prefix(p@).1,
    ensures
        b == has_physical_root(p@),
{
    len < p.len() && is_win_sep_exec(p[len], is_verbatim_kind_exec(kind))
}

/// Whether a path is absolute under Windows rules.
pub fn win_is_absolute_exec(p: &str) -> (absolute: bool)
    ensures
        absolute == win_is_absolute(p@),
{
    let chars = chars_of(p);
    let (kind, len) = win_prefix_exec(&chars);
    match kind {
        WinPrefixKind::NoPrefix => false,
        WinPrefixKind::Disk => has_physical_root_exec(&chars, kind, len),
        _ => true,
    }
}

proof fn lemma_win_split_nonempty(s: Seq<char>, verbatim: bool)
    ensures
        win_split(s, verbatim).len() >= 1,
    decreases s.len(),
{
    if s.len() > 0 {
        lemma_win_split_nonempty(s.drop_last(), verbatim);
    }
}

/// The character vectors as sequences.
pub open spec fn char_views(v: Seq<Vec<char>>) -> Seq<Seq<char>> {
    v.map_values(|c: Vec<char>| c@)
}

fn win_split_exec(s: &Vec<char>, start: usize, verbatim: bool) -> (pieces: Vec<Vec<char>>)
    requires
        start <= s.len(),
    ensures
        char_views(pieces@) == win_split(s@.subrange(start as int, s.len() as int), verbatim),
{
    let mut pieces: Vec<Vec<char>> = Vec::new();
    pieces.push(Vec::new());
    let mut i = start;
    proof {
        assert(s@.subrange(start as int, start as int) =~= Seq::<char>::empty());
        assert(char_views(pieces@) =~= seq![seq![]]);
    }
    while i < s.len()
        invariant
            start <= i <= s.len(),
            char_views(pieces@) == win_split(s@.subrange(start as int, i as int), verbatim),
        decreases s.len() - i,
    {
        let ghost sub = s@.subrange(start as int, i + 1);
        proof {
            assert(sub.drop_last() =~= s@.subrange(start as int, i as int));
            assert(sub.last() == s@[i as int]);
            lemma_win_split_nonempty(s@.subrange(start as int, i as int), verbatim);
        }
        let c = s[i];
        if is_win_sep_exec(c, verbatim) {
            pieces.push(Vec::new());
            assert(char_views(pieces@) =~= win_split(sub, verbatim));
        } else {
            let ghost before = pieces@;
            let mut last = pieces.pop().unwrap();
            last.push(c);
            pieces.push(last);
            proof {
                let prev = win_split(s@.subrange(start as int, i as int), verbatim);
                assert(char_views(before) == prev);
                assert(char_views(pieces@) =~= prev.update(
                    prev.len() - 1,
                    prev.last().push(c),
                ));
            }
        }
        i = i + 1;
    }
    proof {
        assert(s@.subrange(start as int, i as int) == s@.subrange(start as int, s.len() as int));
    }
    pieces
}

fn win_pieces_exec(pieces: &Vec<Vec<char>>, verbatim: bool) -> (names: Vec<Vec<char>>)
    ensures
        char_views(names@) == win_pieces(char_views(pieces@), verbatim),
{
    let ghost views = char_views(pieces@);
    let mut names: Vec<Vec<char>> = Vec::new();
    let dot: Vec<char> = vec!['.'];
    assert(dot@ =~= seq!['.']);
    let mut i: usize = 0;
    assert(views.take(0) =~= Seq::<Seq<char>>::empty());
    while i < pieces.len()
        invariant
            i <= pieces.len(),
            views == char_views(pieces@),
            dot@ == seq!['.'],
            char_views(names@) == win_pieces(views.take(i as int), verbatim),
        decreases pieces.len() - i,
    {
        proof {
            assert(views.take(i + 1).drop_last() =~= views.take(i as int));
            assert(views.take(i + 1).last() == pieces@[i as int]@);
        }
        let keep = pieces[i].len() > 0 && (verbatim || !chars_equal(&pieces[i], &dot));
        if keep {
            names.push(pieces[i].clone());
            assert(char_views(names@) =~= win_pieces(views.take(i + 1), verbatim));
        } else {
            assert(char_views(names@) =~= win_pieces(views.take(i + 1), verbatim));
        }
        i = i + 1;
    }
    assert(views.take(pieces.len() as int) =~= views);
    names
}

/// The names of a Windows path.
pub fn win_names_exec(p: &Vec<char>) -> (names: Vec<Vec<char>>)
    ensures
        char_views(names@) == win_names(p@),
{
    let (kind, len) = win_prefix_exec(p);
    let v = is_verbatim_kind_exec(kind);
    let start = if has_physical_root_exec(p, kind, len) {
        len + 1
    } else {
        len
    };
    let pieces = win_split_exec(p, start, v);
    win_pieces_exec(&pieces, v)
}

/// The file name of a Windows path.
pub fn win_file_name_exec(p: &str) -> (name: Option<Vec<char>>)
    ensures
        match win_file_name(p@) {
            Some(n) => name matches Some(v) && v@ == n,
            None => name is None,
        },
{
    let chars = chars_of(p);
    let names = win_names_exec(&chars);
    if names.len() == 0 {
        return None;
    }
    let last = names[names.len() - 1].clone();
    let dot: Vec<char> = vec!['.'];
    let dots: Vec<char> = vec!['.', '.'];
    assert(dot@ =~= seq!['.']);
    assert(dots@ =~= seq!['.', '.']);
    assert(last@ == win_names(p@).last());
    if chars_equal(&last, &dot) || chars_equal(&last, &dots) {
        None
    } else {
        Some(last)
    }
}

/// The components of a Windows path.
pub fn win_components_exec(p: &Vec<char>) -> (components: Vec<Vec<char>>)
    ensures
        char_views(components@) == win_components(p@),
{
    let (kind, len) = win_prefix_exec(p);
    let mut out: Vec<Vec<char>> = Vec::new();
    if kind != WinPrefixKind::NoPrefix {
        out.push(crate::text::sub_chars(p, 0, len));
    }
    let ghost prefix = if kind == WinPrefixKind::NoPrefix {
        Seq::<Seq<char>>::empty()
    } else {
        seq![p@.subrange(0, len as int)]
    };
    assert(char_views(out@) =~= prefix);
    let physical = has_physical_root_exec(p, kind, len);
    let ghost before_root = out@;
    if physical || kind == WinPrefixKind::Unc || kind == WinPrefixKind::DeviceNs {
        let root: Vec<char> = vec!['\\'];
        assert(root@ =~= seq!['\\']);
        out.push(root);
        assert(char_views(out@) =~= char_views(before_root).push(seq!['\\']));
    }
    let ghost root_part = if physical || kind == WinPrefixKind::Unc || kind
        == WinPrefixKind::DeviceNs {
        seq![seq!['\\']]
    } else {
        Seq::<Seq<char>>::empty()
    };
    assert(char_views(out@) =~= prefix + root_part);
    let has_root = physical || (kind != WinPrefixKind::NoPrefix && kind != WinPrefixKind::Disk);
    let cur = !has_root && len < p.len() && p[len] == '.' && (len + 1 == p.len() || is_win_sep_exec(
        p[len + 1],
        false,
    ));
    let ghost before_cur = out@;
    if cur {
        let dot: Vec<char> = vec!['.'];
        assert(dot@ =~= seq!['.']);
        out.push(dot);
        assert(char_views(out@) =~= char_views(before_cur).push(seq!['.']));
    }
    let ghost cur_part = if cur {
        seq![seq!['.']]
    } else {
        Seq::<Seq<char>>::empty()
    };
    assert(char_views(out@) =~= prefix + root_part + cur_part);
    let names = win_names_exec(p);
    let ghost head = char_views(out@);
    let mut i: usize = 0;
    while i < names.len()
        invariant
            i <= names.len(),
            char_views(out@) == head + char_views(names@).take(i as int),
        decreases names.len() - i,
    {
        let item = names[i].clone();
        assert(item@ =~= names@[i as int]@);
        let ghost before = out@;
        out.push(item);
        assert(char_views(out@) =~= char_views(before).push(names@[i as int]@));
        assert(char_views(names@).take(i + 1) =~= char_views(names@).take(i as int).push(
            names@[i as int]@,
        ));
        assert(char_views(out@) =~= head + char_views(names@).take(i + 1));
        i = i + 1;
    }
    assert(char_views(names@).take(names.len() as int) =~= char_views(names@));
    assert(char_views(out@) =~= win_components(p@));
    out
}

/// Whether `a` and `b` are equal without regard to ASCII case.
pub fn eq_ignore_ascii_case_exec(a: &Vec<char>, b: &Vec<char>) -> (equal: bool)
    ensures
        equal == eq_ignore_ascii_case(a@, b@),
{
    let la = ascii_lower_exec(a);
    let lb = ascii_lower_exec(b);
    chars_equal(&la, &lb)
}

/// Whether the components of `parent` begin those of `path`, without regard
/// to ASCII case.
pub fn components_below_exec(path: &Vec<Vec<char>>, parent: &Vec<Vec<char>>) -> (below: bool)
    ensures
        below == components_below(char_views(path@), char_views(parent@)),
{
    if parent.len() > path.len() {
        return false;
    }
    let mut i: usize = 0;
    while i < parent.len()
        invariant
            i <= parent.len() <= path.len(),
            forall|j: int|
                0 <= j < i ==> eq_ignore_ascii_case(
                    #[trigger] char_views(path@)[j],
                    char_views(parent@)[j],
                ),
        decreases parent.len() - i,
    {
        if !eq_ignore_ascii_case_exec(&path[i], &parent[i]) {
            assert(!eq_ignore_ascii_case(char_views(path@)[i as int], char_views(parent@)[i as int]));
            return false;
        }
        i = i + 1;
    }
    true
}

} // verus!
