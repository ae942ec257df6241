//! Unix path syntax as `std::path::Path` reads it: components, absoluteness,
//! parent traversal, file names and component-wise prefixes.
use vstd::prelude::*;
use crate::text::{chars_of, push_str, string_of, sub_chars};

verus! {

broadcast use vstd::string::group_string_axioms;

/// The pieces of `s` between the occurrences of `sep` (`str::split`).
pub open spec fn split_on(s: Seq<char>, sep: char) -> Seq<Seq<char>>
    decreases s.len(),
{
    if s.len() == 0 {
        seq![seq![]]
    } else {
        let rest = split_on(s.drop_last(), sep);
        if s.last() == sep {
            rest.push(seq![])
        } else {
            rest.update(rest.len() - 1, rest.last().push(s.last()))
        }
    }
}

/// A piece that is a component of its own: not empty and not `.`.
pub open spec fn is_component_piece(piece: Seq<char>) -> bool {
    piece.len() > 0 && piece != seq!['.']
}

/// The pieces that are components, in order.
pub open spec fn component_pieces(pieces: Seq<Seq<char>>) -> Seq<Seq<char>>
    decreases pieces.len(),
{
    if pieces.len() == 0 {
        seq![]
    } else {
        let rest = component_pieces(pieces.drop_last());
        if is_component_piece(pieces.last()) {
            rest.push(pieces.last())
        } else {
            rest
        }
    }
}

/// The path has a root: it begins with `/`.
pub open spec fn is_absolute(p: Seq<char>) -> bool {
    p.len() > 0 && p[0] == '/'
}

/// The components of a path: the root `/` (for absolute paths) or a leading
/// `.` (for paths that begin with one), then the names between separators,
/// with empty names and inner `.` names dropped.
pub open spec fn components(p: Seq<char>) -> Seq<Seq<char>> {
    component_head(p) + component_pieces(split_on(p, '/'))
}

/// The leading component that is not a name: the root, or a leading `.`.
pub open spec fn component_head(p: Seq<char>) -> Seq<Seq<char>> {
    if is_absolute(p) {
        seq![seq!['/']]
    } else if p == seq!['.'] || (p.len() >= 2 && p[0] == '.' && p[1] == '/') {
        seq![seq!['.']]
    } else {
        seq![]
    }
}

/// One of the components is `..`.
pub open spec fn has_parent_traversal(p: Seq<char>) -> bool {
    components(p).contains(seq!['.', '.'])
}

/// `Path::file_name`: the last component when it is a name.
pub open spec fn file_name(p: Seq<char>) -> Option<Seq<char>> {
    let c = components(p);
    if c.len() == 0 {
        None
    } else {
        let last = c.last();
        if last == seq!['/'] || last == seq!['.'] || last == seq!['.', '.'] {
            None
        } else {
            Some(last)
        }
    }
}

/// `Path::starts_with`: the components of `base` begin those of `p`.
pub open spec fn path_starts_with(p: Seq<char>, base: Seq<char>) -> bool {
    let a = components(p);
    let b = components(base);
    b.len() <= a.len() && a.subrange(0, b.len() as int) == b
}

pub proof fn lemma_split_nonempty(s: Seq<char>, sep: char)
    ensures
        split_on(s, sep).len() >= 1,
    decreases s.len(),
{
    if s.len() > 0 {
        lemma_split_nonempty(s.drop_last(), sep);
    }
}

/// The components of a path.
pub fn components_exec(p: &Vec<char>) -> (result: Vec<Vec<char>>)
    ensures
        result@.map_values(|c: Vec<char>| c@) == components(p@),
{
    let mut result: Vec<Vec<char>> = Vec::new();
    if p.len() > 0 && p[0] == '/' {
        let root: Vec<char> = vec!['/'];
        assert(root@ =~= seq!['/']);
        result.push(root);
        assert(result@.map_values(|c: Vec<char>| c@) =~= component_head(p@));
    } else if (p.len() == 1 && p[0] == '.') || (p.len() >= 2 && p[0] == '.' && p[1] == '/') {
        let dot: Vec<char> = vec!['.'];
        assert(dot@ =~= seq!['.']);
        result.push(dot);
        proof {
            if p.len() == 1 {
                assert(p@ =~= seq!['.']);
            }
        }
        assert(result@.map_values(|c: Vec<char>| c@) =~= component_head(p@));
    } else {
        proof {
            if p@ == seq!['.'] {
                assert(p@[0] == '.');
            }
        }
        assert(result@.map_values(|c: Vec<char>| c@) =~= component_head(p@));
    }
    let ghost head = result@.map_values(|c: Vec<char>| c@);
    let mut current: Vec<char> = Vec::new();
    let mut i: usize = 0;
    assert(p@.take(0) =~= Seq::<char>::empty());
    while i < p.len()
        invariant
            i <= p.len(),
            split_on(p@.take(i as int), '/').len() >= 1,
            current@ == split_on(p@.take(i as int), '/').last(),
            result@.map_values(|c: Vec<char>| c@) == head + component_pieces(
                split_on(p@.take(i as int), '/').drop_last(),
            ),
        decreases p.len() - i,
    {
        let c = p[i];
        let ghost before = split_on(p@.take(i as int), '/');
        proof {
            assert(p@.take(i + 1).drop_last() =~= p@.take(i as int));
            assert(p@.take(i + 1).last() == c);
        }
        if c == '/' {
            let piece_is_component = current.len() > 0 && !(current.len() == 1 && current[0] == '.');
            proof {
                assert(piece_is_component == is_component_piece(current@)) by {
                    if current@ == seq!['.'] {
                        assert(current@[0] == '.');
                    }
                    if current.len() == 1 && current@[0] == '.' {
                        assert(current@ =~= seq!['.']);
                    }
                }
                let after = split_on(p@.take(i + 1), '/');
                assert(after == before.push(seq![]));
                assert(after.drop_last() =~= before);
                assert(before =~= before.drop_last().push(before.last()));
            }
            let ghost old_views = result@.map_values(|c: Vec<char>| c@);
            if piece_is_component {
                result.push(current);
                assert(result@.map_values(|c: Vec<char>| c@) =~= old_views.push(before.last()));
            }
            current = Vec::new();
            proof {
                assert(result@.map_values(|c: Vec<char>| c@) =~= head + component_pieces(
                    split_on(p@.take(i + 1), '/').drop_last(),
                ));
            }
        } else {
            current.push(c);
            proof {
                let after = split_on(p@.take(i + 1), '/');
                assert(after == before.update(before.len() - 1, before.last().push(c)));
                assert(after.drop_last() =~= before.drop_last());
            }
        }
        i = i + 1;
    }
    proof {
        assert(p@.take(p.len() as int) =~= p@);
        let pieces = split_on(p@, '/');
        assert(pieces =~= pieces.drop_last().push(pieces.last()));
    }
    let last_is_component = current.len() > 0 && !(current.len() == 1 && current[0] == '.');
    proof {
        assert(last_is_component == is_component_piece(current@)) by {
            if current@ == seq!['.'] {
                assert(current@[0] == '.');
            }
            if current.len() == 1 && current@[0] == '.' {
                assert(current@ =~= seq!['.']);
            }
        }
    }
    let ghost old_views = result@.map_values(|c: Vec<char>| c@);
    let ghost last_piece = current@;
    if last_is_component {
        result.push(current);
        assert(result@.map_values(|c: Vec<char>| c@) =~= old_views.push(last_piece));
    }
    proof {
        assert(result@.map_values(|c: Vec<char>| c@) =~= components(p@));
    }
    result
}

/// Whether two character vectors are equal.
pub fn chars_equal(a: &Vec<char>, b: &Vec<char>) -> (equal: bool)
    ensures
        equal == (a@ == b@),
{
    if a.len() != b.len() {
        return false;
    }
    let mut i: usize = 0;
    while i < a.len()
        invariant
            i <= a.len(),
            a.len() == b.len(),
            forall|j: int| 0 <= j < i ==> a@[j] == b@[j],
        decreases a.len() - i,
    {
        if a[i] != b[i] {
            return false;
        }
        i = i + 1;
    }
    assert(a@ =~= b@);
    true
}

/// Whether a path names its parent directory anywhere.
pub fn has_parent_traversal_exec(p: &str) -> (found: bool)
    ensures
        found == has_parent_traversal(p@),
{
    let chars = chars_of(p);
    let parts = components_exec(&chars);
    let ghost views = parts@.map_values(|c: Vec<char>| c@);
    let dots: Vec<char> = vec!['.', '.'];
    assert(dots@ =~= seq!['.', '.']);
    let mut i: usize = 0;
    while i < parts.len()
        invariant
            i <= parts.len(),
            views == parts@.map_values(|c: Vec<char>| c@),
            views == components(p@),
            dots@ == seq!['.', '.'],
            forall|j: int| 0 <= j < i ==> views[j] != seq!['.', '.'],
        decreases parts.len() - i,
    {
        assert(views[i as int] == parts@[i as int]@);
        if chars_equal(&parts[i], &dots) {
            assert(views[i as int] == seq!['.', '.']);
            return true;
        }
        i = i + 1;
    }
    false
}

/// Whether `p` is absolute.
pub fn is_absolute_exec(p: &str) -> (absolute: bool)
    ensures
        absolute == is_absolute(p@),
{
    let chars = chars_of(p);
    chars.len() > 0 && chars[0] == '/'
}

/// `Path::file_name` on a Unix path.
pub fn file_name_exec(p: &str) -> (name: Option<String>)
    ensures
        match file_name(p@) {
            Some(n) => name matches Some(s) && s@ == n,
            None => name is None,
        },
{
    let chars = chars_of(p);
    let parts = components_exec(&chars);
    let ghost views = parts@.map_values(|c: Vec<char>| c@);
    if parts.len() == 0 {
        return None;
    }
    let last = &parts[parts.len() - 1];
    assert(views.last() == last@);
    let root: Vec<char> = vec!['/'];
    let dot: Vec<char> = vec!['.'];
    let dots: Vec<char> = vec!['.', '.'];
    assert(root@ =~= seq!['/']);
    assert(dot@ =~= seq!['.']);
    assert(dots@ =~= seq!['.', '.']);
    if chars_equal(last, &root) || chars_equal(last, &dot) || chars_equal(last, &dots) {
        return None;
    }
    Some(crate::text::string_of(last))
}

/// `Path::starts_with` on Unix paths.
pub fn path_starts_with_exec(p: &str, base: &str) -> (found: bool)
    ensures
        found == path_starts_with(p@, base@),
{
    let pc = chars_of(p);
    let bc = chars_of(base);
    let a = components_exec(&pc);
    let b = components_exec(&bc);
    let ghost av = a@.map_values(|c: Vec<char>| c@);
    let ghost bv = b@.map_values(|c: Vec<char>| c@);
    assert(av == components(p@));
    assert(bv == components(base@));
    assert(av.len() == a.len() && bv.len() == b.len());
    if b.len() > a.len() {
        return false;
    }
    let mut i: usize = 0;
    while i < b.len()
        invariant
            i <= b.len(),
            b.len() <= a.len(),
            av == a@.map_values(|c: Vec<char>| c@),
            bv == b@.map_values(|c: Vec<char>| c@),
            av == components(p@),
            bv == components(base@),
            forall|j: int| 0 <= j < i ==> av[j] == bv[j],
        decreases b.len() - i,
    {
        assert(av[i as int] == a@[i as int]@);
        assert(bv[i as int] == b@[i as int]@);
        if !chars_equal(&a[i], &b[i]) {
            assert(av.subrange(0, bv.len() as int)[i as int] != bv[i as int]);
            return false;
        }
        i = i + 1;
    }
    assert(av.subrange(0, bv.len() as int) =~= bv);
    true
}

} // verus!

verus! {

/// What the file system said about a path once it was resolved:
/// its canonical form and its type and permission bits.
#[derive(Debug, Clone, PartialEq, Eq)]
pub struct ResolvedPath {
    pub canonical: String,
    pub is_file: bool,
    pub is_dir: bool,
    pub mode: u32,
}

/// `PathBuf::push` of a relative path: a separator is added unless the base
/// is empty or already ends with one.
pub open spec fn joined_path(base: Seq<char>, relative: Seq<char>) -> Seq<char> {
    if base.len() == 0 || base.last() == '/' {
        base + relative
    } else {
        base + seq!['/'] + relative
    }
}

pub fn join_path(base: &str, relative: &str) -> (joined: String)
    ensures
        joined@ == joined_path(base@, relative@),
{
    let mut out = chars_of(base);
    if out.len() > 0 && out[out.len() - 1] != '/' {
        out.push('/');
    }
    push_str(&mut out, relative);
    assert(out@ =~= joined_path(base@, relative@));
    string_of(&out)
}

/// The position of the last `c` in `s`, or `-1`.
pub open spec fn last_index_of(s: Seq<char>, c: char) -> int
    decreases s.len(),
{
    if s.len() == 0 {
        -1
    } else if s.last() == c {
        s.len() - 1
    } else {
        last_index_of(s.drop_last(), c)
    }
}

/// `Path::extension` of a file name: the text after its last dot, unless
/// there is no dot or the only dot begins the name.
pub open spec fn extension_of(name: Seq<char>) -> Option<Seq<char>> {
    let dot = last_index_of(name, '.');
    if dot <= 0 {
        None
    } else {
        Some(name.subrange(dot + 1, name.len() as int))
    }
}

pub proof fn lemma_last_index_bounds(s: Seq<char>, c: char)
    ensures
        -1 <= last_index_of(s, c) < s.len(),
        last_index_of(s, c) >= 0 ==> s[last_index_of(s, c)] == c,
    decreases s.len(),
{
    if s.len() > 0 && s.last() != c {
        lemma_last_index_bounds(s.drop_last(), c);
    }
}

/// The extension of a file name.
pub fn extension_exec(name: &Vec<char>) -> (extension: Option<Vec<char>>)
    ensures
        match extension_of(name@) {
            Some(e) => extension matches Some(v) && v@ == e,
            None => extension is None,
        },
{
    let mut i: usize = name.len();
    assert(name@.take(name.len() as int) =~= name@);
    while i > 0 && name[i - 1] != '.'
        invariant
            i <= name.len(),
            last_index_of(name@.take(i as int), '.') == last_index_of(name@, '.'),
        decreases i,
    {
        assert(name@.take(i as int).drop_last() =~= name@.take(i - 1));
        i = i - 1;
    }
    proof {
        assert(name@.take(name.len() as int) =~= name@);
        if i > 0 {
            assert(name@.take(i as int).last() == '.');
        }
    }
    if i <= 1 {
        None
    } else {
        Some(sub_chars(name, i, name.len()))
    }
}

} // verus!
