//! Character-sequence utilities shared by the rest of the library.
//!
//! Text is modelled as `Seq<char>`, the view that vstd gives `str` and
//! `String`; the executable helpers work on `Vec<char>` and build `String`s
//! character by character.
use vstd::prelude::*;

verus! {

broadcast use vstd::string::group_string_axioms;

/// `String::push` appends one character to the string (std documentation:
/// "Appends the given char to the end of this String").
pub assume_specification[ String::push ](s: &mut String, ch: char)
    ensures
        final(s)@ == old(s)@.push(ch),
;

// ---------------------------------------------------------------------------
// Specification vocabulary
// ---------------------------------------------------------------------------
/// ASCII letters and digits.
pub open spec fn is_ascii_alnum(c: char) -> bool {
    ('a' <= c <= 'z') || ('A' <= c <= 'Z') || ('0' <= c <= '9')
}

/// ASCII decimal digits.
pub open spec fn is_ascii_digit(c: char) -> bool {
    '0' <= c <= '9'
}

/// The characters with the Unicode `White_Space` property, which is what
/// `char::is_whitespace` and `str::trim` test for.
pub open spec fn is_white_space(c: char) -> bool {
    ||| '\u{9}' <= c <= '\u{d}'
    ||| c == ' '
    ||| c == '\u{85}'
    ||| c == '\u{a0}'
    ||| c == '\u{1680}'
    ||| '\u{2000}' <= c <= '\u{200a}'
    ||| c == '\u{2028}'
    ||| c == '\u{2029}'
    ||| c == '\u{202f}'
    ||| c == '\u{205f}'
    ||| c == '\u{3000}'
}

/// ASCII lower-casing of one character; other characters are unchanged.
pub open spec fn ascii_lower_char(c: char) -> char {
    if 'A' <= c <= 'Z' {
        ((c as u32) + 32) as char
    } else {
        c
    }
}

/// `str::to_ascii_lowercase`.
pub open spec fn ascii_lower(s: Seq<char>) -> Seq<char> {
    s.map_values(|c: char| ascii_lower_char(c))
}

/// `s` begins with `prefix`.
pub open spec fn starts_with(s: Seq<char>, prefix: Seq<char>) -> bool {
    prefix.len() <= s.len() && s.subrange(0, prefix.len() as int) == prefix
}

/// `s` ends with `suffix`.
pub open spec fn ends_with(s: Seq<char>, suffix: Seq<char>) -> bool {
    suffix.len() <= s.len() && s.subrange(s.len() - suffix.len(), s.len() as int) == suffix
}

/// `needle` occurs in `s` at position `i`.
pub open spec fn occurs_at(s: Seq<char>, needle: Seq<char>, i: int) -> bool {
    0 <= i && i + needle.len() <= s.len() && s.subrange(i, i + needle.len()) == needle
}

/// `needle` occurs somewhere in `s` (`str::contains` with a string pattern).
pub open spec fn contains_seq(s: Seq<char>, needle: Seq<char>) -> bool {
    exists|i: int| occurs_at(s, needle, i)
}

/// `s` without its leading white space (`str::trim_start`).
pub open spec fn trim_start(s: Seq<char>) -> Seq<char>
    decreases s.len(),
{
    if s.len() > 0 && is_white_space(s[0]) {
        trim_start(s.drop_first())
    } else {
        s
    }
}

/// `s` without its trailing white space (`str::trim_end`).
pub open spec fn trim_end(s: Seq<char>) -> Seq<char>
    decreases s.len(),
{
    if s.len() > 0 && is_white_space(s.last()) {
        trim_end(s.drop_last())
    } else {
        s
    }
}

/// `str::trim`.
pub open spec fn trim(s: Seq<char>) -> Seq<char> {
    trim_end(trim_start(s))
}

/// The pieces of `parts` separated by `sep` (`[T]::join`).
pub open spec fn join(parts: Seq<Seq<char>>, sep: Seq<char>) -> Seq<char>
    decreases parts.len(),
{
    if parts.len() == 0 {
        seq![]
    } else if parts.len() == 1 {
        parts[0]
    } else {
        join(parts.drop_last(), sep) + sep + parts.last()
    }
}

/// The character of the decimal digit `d`.
pub open spec fn digit_char(d: nat) -> char {
    if d == 0 { '0' }
    else if d == 1 { '1' }
    else if d == 2 { '2' }
    else if d == 3 { '3' }
    else if d == 4 { '4' }
    else if d == 5 { '5' }
    else if d == 6 { '6' }
    else if d == 7 { '7' }
    else if d == 8 { '8' }
    else { '9' }
}

/// The decimal representation of `n` without leading zeros (`Display` for
/// unsigned integers).
pub open spec fn decimal(n: nat) -> Seq<char>
    decreases n,
{
    if n < 10 {
        seq![digit_char(n)]
    } else {
        decimal(n / 10).push(digit_char(n % 10))
    }
}

// ---------------------------------------------------------------------------
// Lemmas
// ---------------------------------------------------------------------------
/// Joining one more piece appends the separator and that piece.
pub proof fn lemma_join_push(parts: Seq<Seq<char>>, sep: Seq<char>, last: Seq<char>)
    ensures
        join(parts.push(last), sep) == if parts.len() == 0 {
            last
        } else {
            join(parts, sep) + sep + last
        },
{
    assert(parts.push(last).drop_last() == parts);
}

/// A decimal representation is never empty and holds only digits.
pub proof fn lemma_decimal_digits(n: nat)
    ensures
        decimal(n).len() >= 1,
        forall|i: int| 0 <= i < decimal(n).len() ==> is_ascii_digit(#[trigger] decimal(n)[i]),
    decreases n,
{
    if n >= 10 {
        lemma_decimal_digits(n / 10);
    }
}

/// Distinct digits have distinct characters.
pub proof fn lemma_digit_char_injective(a: nat, b: nat)
    requires
        a < 10,
        b < 10,
        digit_char(a) == digit_char(b),
    ensures
        a == b,
{
}

/// Numbers with the same decimal representation are equal.
pub proof fn lemma_decimal_injective(a: nat, b: nat)
    requires
        decimal(a) == decimal(b),
    ensures
        a == b,
    decreases a,
{
    if a < 10 && b < 10 {
        assert(decimal(a) == seq![digit_char(a)]);
        assert(decimal(b) == seq![digit_char(b)]);
        assert(decimal(a)[0] == digit_char(a));
        assert(decimal(b)[0] == digit_char(b));
        assert(decimal(a)[0] == decimal(b)[0]);
        lemma_digit_char_injective(a, b);
    } else if a < 10 {
        lemma_decimal_digits(b / 10);
        assert(decimal(b).len() >= 2);
    } else if b < 10 {
        lemma_decimal_digits(a / 10);
        assert(decimal(a).len() >= 2);
    } else {
        assert(decimal(a).drop_last() == decimal(a / 10));
        assert(decimal(b).drop_last() == decimal(b / 10));
        lemma_decimal_injective(a / 10, b / 10);
        assert(decimal(a).last() == digit_char(a % 10));
        assert(decimal(b).last() == digit_char(b % 10));
        lemma_digit_char_injective(a % 10, b % 10);
        assert(a == 10 * (a / 10) + a % 10);
        assert(b == 10 * (b / 10) + b % 10);
    }
}

// ---------------------------------------------------------------------------
// Executable helpers
// ---------------------------------------------------------------------------
/// The characters of `s`.
pub fn chars_of(s: &str) -> (v: Vec<char>)
    ensures
        v@ == s@,
{
    let mut v: Vec<char> = Vec::new();
    for ch in it: s.chars()
        invariant
            it.seq() == s@,
            v@ == s@.take(it.index() as int),
    {
        v.push(ch);
        proof {
            assert(s@.take(it.index() + 1) == s@.take(it.index() as int).push(ch));
        }
    }
    proof {
        assert(s@.take(s@.len() as int) == s@);
    }
    v
}

/// A `String` holding exactly `chars`.
pub fn string_of(chars: &Vec<char>) -> (s: String)
    ensures
        s@ == chars@,
{
    let mut s = String::new();
    let mut i: usize = 0;
    while i < chars.len()
        invariant
            i <= chars.len(),
            s@ == chars@.take(i as int),
        decreases chars.len() - i,
    {
        s.push(chars[i]);
        proof {
            assert(chars@.take(i + 1) == chars@.take(i as int).push(chars@[i as int]));
        }
        i = i + 1;
    }
    proof {
        assert(chars@.take(chars.len() as int) == chars@);
    }
    s
}

/// Appends the characters of `s` to `out`.
pub fn push_str(out: &mut Vec<char>, s: &str)
    ensures
        final(out)@ == old(out)@ + s@,
{
    let chars = chars_of(s);
    append_chars(out, &chars);
}

/// Appends `extra` to `out`.
pub fn append_chars(out: &mut Vec<char>, extra: &Vec<char>)
    ensures
        final(out)@ == old(out)@ + extra@,
{
    let mut i: usize = 0;
    while i < extra.len()
        invariant
            i <= extra.len(),
            out@ == old(out)@ + extra@.take(i as int),
        decreases extra.len() - i,
    {
        out.push(extra[i]);
        proof {
            assert(extra@.take(i + 1) == extra@.take(i as int).push(extra@[i as int]));
        }
        i = i + 1;
    }
    proof {
        assert(extra@.take(extra.len() as int) == extra@);
    }
}

/// Whether `s` holds the character `c`.
pub fn contains_char(s: &Vec<char>, c: char) -> (found: bool)
    ensures
        found == s@.contains(c),
{
    let mut i: usize = 0;
    while i < s.len()
        invariant
            i <= s.len(),
            forall|j: int| 0 <= j < i ==> s@[j] != c,
        decreases s.len() - i,
    {
        if s[i] == c {
            return true;
        }
        i = i + 1;
    }
    false
}

/// Whether `needle` occurs in `s` at position `at`.
pub fn occurs_at_exec(s: &Vec<char>, needle: &Vec<char>, at: usize) -> (found: bool)
    ensures
        found == occurs_at(s@, needle@, at as int),
{
    if at > s.len() || needle.len() > s.len() - at {
        return false;
    }
    let mut i: usize = 0;
    while i < needle.len()
        invariant
            i <= needle.len(),
            at + needle.len() <= s.len(),
            forall|j: int| 0 <= j < i ==> s@[at + j] == needle@[j],
        decreases needle.len() - i,
    {
        if s[at + i] != needle[i] {
            assert(s@.subrange(at as int, at + needle.len())[i as int] != needle@[i as int]);
            return false;
        }
        i = i + 1;
    }
    assert(s@.subrange(at as int, at + needle.len()) =~= needle@);
    true
}

/// Whether `s` begins with `prefix`.
pub fn starts_with_exec(s: &Vec<char>, prefix: &Vec<char>) -> (found: bool)
    ensures
        found == starts_with(s@, prefix@),
{
    occurs_at_exec(s, prefix, 0)
}

/// Whether `s` ends with `suffix`.
pub fn ends_with_exec(s: &Vec<char>, suffix: &Vec<char>) -> (found: bool)
    ensures
        found == ends_with(s@, suffix@),
{
    if suffix.len() > s.len() {
        return false;
    }
    occurs_at_exec(s, suffix, s.len() - suffix.len())
}

/// Whether `needle` occurs anywhere in `s`.
pub fn contains_seq_exec(s: &Vec<char>, needle: &Vec<char>) -> (found: bool)
    ensures
        found == contains_seq(s@, needle@),
{
    if needle.len() > s.len() {
        return false;
    }
    let last = s.len() - needle.len();
    let mut i: usize = 0;
    while i <= last
        invariant
            last == s.len() - needle.len(),
            i <= last + 1,
            forall|j: int| 0 <= j < i ==> !occurs_at(s@, needle@, j),
        decreases last + 1 - i,
    {
        if occurs_at_exec(s, needle, i) {
            return true;
        }
        if i == last {
            return false;
        }
        i = i + 1;
    }
    false
}

/// `str::to_ascii_lowercase` on a character vector.
pub fn ascii_lower_exec(s: &Vec<char>) -> (lower: Vec<char>)
    ensures
        lower@ == ascii_lower(s@),
{
    let mut lower: Vec<char> = Vec::new();
    let mut i: usize = 0;
    while i < s.len()
        invariant
            i <= s.len(),
            lower@ == ascii_lower(s@.take(i as int)),
        decreases s.len() - i,
    {
        let c = s[i];
        let l = if 'A' <= c && c <= 'Z' {
            ascii_lower_char_exec(c)
        } else {
            c
        };
        lower.push(l);
        proof {
            assert(ascii_lower(s@.take(i + 1)) =~= ascii_lower(s@.take(i as int)).push(
                ascii_lower_char(c),
            ));
        }
        i = i + 1;
    }
    proof {
        assert(s@.take(s.len() as int) == s@);
    }
    lower
}

/// ASCII lower-casing of one upper-case ASCII letter.
fn ascii_lower_char_exec(c: char) -> (l: char)
    requires
        'A' <= c <= 'Z',
    ensures
        l == ascii_lower_char(c),
{
    match c {
        'A' => 'a',
        'B' => 'b',
        'C' => 'c',
        'D' => 'd',
        'E' => 'e',
        'F' => 'f',
        'G' => 'g',
        'H' => 'h',
        'I' => 'i',
        'J' => 'j',
        'K' => 'k',
        'L' => 'l',
        'M' => 'm',
        'N' => 'n',
        'O' => 'o',
        'P' => 'p',
        'Q' => 'q',
        'R' => 'r',
        'S' => 's',
        'T' => 't',
        'U' => 'u',
        'V' => 'v',
        'W' => 'w',
        'X' => 'x',
        'Y' => 'y',
        _ => 'z',
    }
}

/// `char::is_whitespace`.
pub fn is_white_space_exec(c: char) -> (b: bool)
    ensures
        b == is_white_space(c),
{
    ('\u{9}' <= c && c <= '\u{d}') || c == ' ' || c == '\u{85}' || c == '\u{a0}' || c
        == '\u{1680}' || ('\u{2000}' <= c && c <= '\u{200a}') || c == '\u{2028}' || c
        == '\u{2029}' || c == '\u{202f}' || c == '\u{205f}' || c == '\u{3000}'
}

/// ASCII letters and digits (`char::is_ascii_alphanumeric`).
pub fn is_ascii_alnum_exec(c: char) -> (b: bool)
    ensures
        b == is_ascii_alnum(c),
{
    ('a' <= c && c <= 'z') || ('A' <= c && c <= 'Z') || ('0' <= c && c <= '9')
}

pub proof fn lemma_trim_start_skip(s: Seq<char>, i: int)
    requires
        0 <= i <= s.len(),
        forall|j: int| 0 <= j < i ==> is_white_space(#[trigger] s[j]),
    ensures
        trim_start(s) == trim_start(s.subrange(i, s.len() as int)),
    decreases i,
{
    if i > 0 {
        assert(s.drop_first().subrange(i - 1, s.drop_first().len() as int) =~= s.subrange(
            i,
            s.len() as int,
        ));
        assert forall|j: int| 0 <= j < i - 1 implies is_white_space(#[trigger] s.drop_first()[j]) by {
            assert(s.drop_first()[j] == s[j + 1]);
        }
        lemma_trim_start_skip(s.drop_first(), i - 1);
    } else {
        assert(s.subrange(0, s.len() as int) =~= s);
    }
}

proof fn lemma_trim_end_skip(s: Seq<char>, k: int)
    requires
        0 <= k <= s.len(),
        forall|j: int| k <= j < s.len() ==> is_white_space(#[trigger] s[j]),
    ensures
        trim_end(s) == trim_end(s.subrange(0, k)),
    decreases s.len() - k,
{
    if k < s.len() {
        assert(s.drop_last().subrange(0, k) =~= s.subrange(0, k));
        lemma_trim_end_skip(s.drop_last(), k);
    } else {
        assert(s.subrange(0, k) =~= s);
    }
}

/// `str::trim` on a character vector.
pub fn trim_exec(s: &Vec<char>) -> (t: Vec<char>)
    ensures
        t@ == trim(s@),
{
    let mut start: usize = 0;
    while start < s.len() && is_white_space_exec(s[start])
        invariant
            start <= s.len(),
            forall|j: int| 0 <= j < start ==> is_white_space(#[trigger] s@[j]),
        decreases s.len() - start,
    {
        start = start + 1;
    }
    proof {
        lemma_trim_start_skip(s@, start as int);
    }
    let mut end: usize = s.len();
    while end > start && is_white_space_exec(s[end - 1])
        invariant
            start <= end <= s.len(),
            forall|j: int| end <= j < s.len() ==> is_white_space(#[trigger] s@[j]),
        decreases end - start,
    {
        end = end - 1;
    }
    let ghost rest = s@.subrange(start as int, s.len() as int);
    proof {
        if start < s.len() {
            assert(rest[0] == s@[start as int]);
        }
        assert(trim_start(rest) == rest);
        assert forall|j: int| end - start <= j < rest.len() implies is_white_space(#[trigger] rest[j]) by {
            assert(rest[j] == s@[start + j]);
        }
        lemma_trim_end_skip(rest, end - start);
        assert(rest.subrange(0, end - start) =~= s@.subrange(start as int, end as int));
        let r = s@.subrange(start as int, end as int);
        if r.len() > 0 {
            assert(r.last() == s@[end - 1]);
        }
    }
    let mut t: Vec<char> = Vec::new();
    let mut i: usize = start;
    while i < end
        invariant
            start <= i <= end,
            end <= s.len(),
            t@ == s@.subrange(start as int, i as int),
        decreases end - i,
    {
        t.push(s[i]);
        proof {
            assert(s@.subrange(start as int, i + 1) =~= s@.subrange(start as int, i as int).push(
                s@[i as int],
            ));
        }
        i = i + 1;
    }
    t
}

/// The decimal digit character for `d < 10`.
pub fn digit_char_exec(d: u8) -> (c: char)
    requires
        d < 10,
    ensures
        c == digit_char(d as nat),
{
    match d {
        0 => '0',
        1 => '1',
        2 => '2',
        3 => '3',
        4 => '4',
        5 => '5',
        6 => '6',
        7 => '7',
        8 => '8',
        _ => '9',
    }
}

/// Appends the decimal representation of `n` to `out`.
pub fn push_decimal(out: &mut Vec<char>, n: u128)
    ensures
        final(out)@ == old(out)@ + decimal(n as nat),
    decreases n,
{
    if n >= 10 {
        push_decimal(out, n / 10);
    }
    let d = (n % 10) as u8;
    out.push(digit_char_exec(d));
    proof {
        if n >= 10 {
            assert(decimal(n as nat) == decimal((n / 10) as nat).push(digit_char((n % 10) as nat)));
        }
    }
}

/// The decimal representation of `n` as a `String`.
pub fn decimal_string(n: u128) -> (s: String)
    ensures
        s@ == decimal(n as nat),
{
    let mut v: Vec<char> = Vec::new();
    push_decimal(&mut v, n);
    proof {
        assert(v@ =~= decimal(n as nat));
    }
    string_of(&v)
}

} // verus!

verus! {

// ---------------------------------------------------------------------------
// Character substitution
// ---------------------------------------------------------------------------
/// What `c` becomes under a substitution table: the text of its first entry,
/// or `c` itself when no entry names it.
pub open spec fn substitute(table: Seq<(char, Seq<char>)>, c: char) -> Seq<char>
    decreases table.len(),
{
    if table.len() == 0 {
        seq![c]
    } else if table[0].0 == c {
        table[0].1
    } else {
        substitute(table.drop_first(), c)
    }
}

/// `s` with every character substituted through `table` (a chain of
/// `str::replace` calls whose patterns are distinct characters).
pub open spec fn escape(s: Seq<char>, table: Seq<(char, Seq<char>)>) -> Seq<char>
    decreases s.len(),
{
    if s.len() == 0 {
        seq![]
    } else {
        escape(s.drop_last(), table) + substitute(table, s.last())
    }
}

/// The table as plain sequences.
pub open spec fn table_view(table: Seq<(char, &str)>) -> Seq<(char, Seq<char>)> {
    table.map_values(|entry: (char, &str)| (entry.0, entry.1@))
}

/// Escaping distributes over concatenation.
pub proof fn lemma_escape_append(a: Seq<char>, b: Seq<char>, table: Seq<(char, Seq<char>)>)
    ensures
        escape(a + b, table) == escape(a, table) + escape(b, table),
    decreases b.len(),
{
    if b.len() == 0 {
        assert(a + b =~= a);
    } else {
        assert((a + b).drop_last() =~= a + b.drop_last());
        lemma_escape_append(a, b.drop_last(), table);
    }
}

fn substitute_exec(table: &Vec<(char, &str)>, c: char, out: &mut Vec<char>)
    ensures
        final(out)@ == old(out)@ + substitute(table_view(table@), c),
{
    let mut i: usize = 0;
    assert(table_view(table@).skip(0) =~= table_view(table@));
    while i < table.len()
        invariant
            i <= table.len(),
            out@ == old(out)@,
            substitute(table_view(table@), c) == substitute(table_view(table@).skip(i as int), c),
        decreases table.len() - i,
    {
        let (from, to) = table[i];
        proof {
            let rest = table_view(table@).skip(i as int);
            assert(rest[0] == (from, to@));
            assert(rest.drop_first() =~= table_view(table@).skip(i + 1));
        }
        if from == c {
            proof {
                let rest = table_view(table@).skip(i as int);
                assert(substitute(rest, c) == to@);
            }
            push_str(out, to);
            return;
        }
        i = i + 1;
    }
    out.push(c);
    proof {
        assert(table_view(table@).skip(i as int) =~= Seq::<(char, Seq<char>)>::empty());
        assert(substitute(table_view(table@).skip(i as int), c) == seq![c]);
    }
}

/// Appends `s` with every character substituted through `table`.
pub fn push_escaped(out: &mut Vec<char>, s: &Vec<char>, table: &Vec<(char, &str)>)
    ensures
        final(out)@ == old(out)@ + escape(s@, table_view(table@)),
{
    let mut i: usize = 0;
    while i < s.len()
        invariant
            i <= s.len(),
            out@ == old(out)@ + escape(s@.take(i as int), table_view(table@)),
        decreases s.len() - i,
    {
        substitute_exec(table, s[i], out);
        proof {
            assert(s@.take(i + 1).drop_last() =~= s@.take(i as int));
        }
        i = i + 1;
    }
    proof {
        assert(s@.take(s.len() as int) =~= s@);
    }
}

/// Appends the pieces of `parts` separated by `sep`.
pub fn push_joined(out: &mut Vec<char>, parts: &Vec<String>, sep: &str)
    ensures
        final(out)@ == old(out)@ + join(string_views(parts@), sep@),
{
    let ghost views = string_views(parts@);
    let mut i: usize = 0;
    while i < parts.len()
        invariant
            i <= parts.len(),
            views == string_views(parts@),
            out@ == old(out)@ + join(views.take(i as int), sep@),
        decreases parts.len() - i,
    {
        proof {
            assert(views.take(i + 1) =~= views.take(i as int).push(views[i as int]));
            lemma_join_push(views.take(i as int), sep@, views[i as int]);
        }
        if i > 0 {
            push_str(out, sep);
        }
        push_str(out, parts[i].as_str());
        proof {
            if i == 0 {
                assert(views.take(0) =~= Seq::<Seq<char>>::empty());
            }
            assert(out@ =~= old(out)@ + join(views.take(i + 1), sep@));
        }
        i = i + 1;
    }
    proof {
        assert(views.take(parts.len() as int) =~= views);
    }
}

/// The string views of a vector of strings.
pub open spec fn string_views(v: Seq<String>) -> Seq<Seq<char>> {
    v.map_values(|s: String| s@)
}

} // verus!

verus! {

/// The decimal representation of a signed integer (`Display` for `i64`).
pub open spec fn signed_decimal(i: int) -> Seq<char> {
    if i < 0 {
        seq!['-'] + decimal((-i) as nat)
    } else {
        decimal(i as nat)
    }
}

/// Appends the decimal representation of `i`.
pub fn push_signed_decimal(out: &mut Vec<char>, i: i64)
    ensures
        final(out)@ == old(out)@ + signed_decimal(i as int),
{
    if i < 0 {
        out.push('-');
        let magnitude: u128 = (0i128 - i as i128) as u128;
        push_decimal(out, magnitude);
        proof {
            assert(out@ =~= old(out)@ + signed_decimal(i as int));
        }
    } else {
        push_decimal(out, i as u128);
    }
}

} // verus!

verus! {

/// Whether `i` is the position of the first `c` in `s`.
pub open spec fn is_first_index(s: Seq<char>, c: char, i: int) -> bool {
    0 <= i < s.len() && s[i] == c && forall|j: int| 0 <= j < i ==> s[j] != c
}

/// The position of the first `c` in `s` (`str::find` with a `char`, counted
/// in characters), `None` when there is none.
pub open spec fn first_index_of(s: Seq<char>, c: char) -> Option<int> {
    if exists|i: int| is_first_index(s, c, i) {
        Some(choose|i: int| is_first_index(s, c, i))
    } else {
        None
    }
}

/// The first position is unique.
pub proof fn lemma_first_index(s: Seq<char>, c: char, i: int)
    requires
        is_first_index(s, c, i),
    ensures
        first_index_of(s, c) == Some(i),
{
    let k = choose|k: int| is_first_index(s, c, k);
    assert(is_first_index(s, c, k));
    if k < i {
        assert(s[k] != c);
    }
    if i < k {
        assert(s[i] != c);
    }
}

/// Finds the first `c` in `s`.
pub fn find_char(s: &Vec<char>, c: char) -> (found: Option<usize>)
    ensures
        match found {
            Some(i) => is_first_index(s@, c, i as int) && first_index_of(s@, c) == Some(i as int),
            None => first_index_of(s@, c) is None && !s@.contains(c),
        },
{
    let mut i: usize = 0;
    while i < s.len()
        invariant
            i <= s.len(),
            forall|j: int| 0 <= j < i ==> s@[j] != c,
        decreases s.len() - i,
    {
        if s[i] == c {
            proof {
                lemma_first_index(s@, c, i as int);
            }
            return Some(i);
        }
        i = i + 1;
    }
    None
}

/// The characters of `s` from `start` up to `end`.
pub fn sub_chars(s: &Vec<char>, start: usize, end: usize) -> (part: Vec<char>)
    requires
        start <= end <= s.len(),
    ensures
        part@ == s@.subrange(start as int, end as int),
{
    let mut part: Vec<char> = Vec::new();
    let mut i: usize = start;
    while i < end
        invariant
            start <= i <= end <= s.len(),
            part@ == s@.subrange(start as int, i as int),
        decreases end - i,
    {
        part.push(s[i]);
        proof {
            assert(s@.subrange(start as int, i + 1) =~= s@.subrange(start as int, i as int).push(
                s@[i as int],
            ));
        }
        i = i + 1;
    }
    part
}

/// Whether none of `s` is one of the characters in `forbidden`.
pub open spec fn free_of(s: Seq<char>, forbidden: Seq<char>) -> bool {
    forall|i: int| 0 <= i < s.len() ==> !forbidden.contains(#[trigger] s[i])
}

/// Whether `s` holds none of the characters in `forbidden`.
pub fn free_of_exec(s: &Vec<char>, forbidden: &Vec<char>) -> (free: bool)
    ensures
        free == free_of(s@, forbidden@),
{
    let mut i: usize = 0;
    while i < s.len()
        invariant
            i <= s.len(),
            forall|j: int| 0 <= j < i ==> !forbidden@.contains(#[trigger] s@[j]),
        decreases s.len() - i,
    {
        if contains_char(forbidden, s[i]) {
            return false;
        }
        i = i + 1;
    }
    true
}

} // verus!

verus! {

/// `str::trim_start` on a character vector.
pub fn trim_start_exec(s: &Vec<char>) -> (t: Vec<char>)
    ensures
        t@ == trim_start(s@),
{
    let mut start: usize = 0;
    while start < s.len() && is_white_space_exec(s[start])
        invariant
            start <= s.len(),
            forall|j: int| 0 <= j < start ==> is_white_space(#[trigger] s@[j]),
        decreases s.len() - start,
    {
        start = start + 1;
    }
    proof {
        lemma_trim_start_skip(s@, start as int);
        let rest = s@.subrange(start as int, s.len() as int);
        if start < s.len() {
            assert(rest[0] == s@[start as int]);
        }
        assert(trim_start(rest) == rest);
    }
    sub_chars(s, start, s.len())
}

/// `a` sorts strictly before `b`: the first differing character is smaller,
/// or `a` is a proper prefix of `b` (`Ord` for `str`: UTF-8 byte order and
/// code point order agree).
pub open spec fn seq_lt(a: Seq<char>, b: Seq<char>) -> bool
    decreases a.len(),
{
    if a.len() == 0 {
        b.len() > 0
    } else if b.len() == 0 {
        false
    } else if a[0] != b[0] {
        a[0] < b[0]
    } else {
        seq_lt(a.drop_first(), b.drop_first())
    }
}

/// Whether `a` sorts strictly before `b`.
pub fn chars_lt(a: &Vec<char>, b: &Vec<char>) -> (lt: bool)
    ensures
        lt == seq_lt(a@, b@),
{
    let mut i: usize = 0;
    assert(a@.skip(0) =~= a@);
    assert(b@.skip(0) =~= b@);
    while i < a.len() && i < b.len() && a[i] == b[i]
        invariant
            i <= a.len(),
            i <= b.len(),
            seq_lt(a@, b@) == seq_lt(a@.skip(i as int), b@.skip(i as int)),
        decreases a.len() - i,
    {
        proof {
            let sa = a@.skip(i as int);
            let sb = b@.skip(i as int);
            assert(sa.drop_first() =~= a@.skip(i + 1));
            assert(sb.drop_first() =~= b@.skip(i + 1));
        }
        i = i + 1;
    }
    let ghost sa = a@.skip(i as int);
    let ghost sb = b@.skip(i as int);
    if i == a.len() {
        assert(sa.len() == 0);
        i < b.len()
    } else if i == b.len() {
        assert(sb.len() == 0 && sa.len() > 0);
        false
    } else {
        assert(sa[0] == a@[i as int] && sb[0] == b@[i as int]);
        a[i] < b[i]
    }
}

} // verus!

verus! {

/// `seq_lt` is irreflexive.
pub proof fn lemma_seq_lt_irreflexive(a: Seq<char>)
    ensures
        !seq_lt(a, a),
    decreases a.len(),
{
    if a.len() > 0 {
        lemma_seq_lt_irreflexive(a.drop_first());
    }
}

/// `seq_lt` is transitive.
pub proof fn lemma_seq_lt_transitive(a: Seq<char>, b: Seq<char>, c: Seq<char>)
    requires
        seq_lt(a, b),
        seq_lt(b, c),
    ensures
        seq_lt(a, c),
    decreases a.len(),
{
    if a.len() > 0 && b.len() > 0 && c.len() > 0 && a[0] == b[0] && b[0] == c[0] {
        lemma_seq_lt_transitive(a.drop_first(), b.drop_first(), c.drop_first());
    }
}

/// Any two sequences are equal or one sorts before the other.
pub proof fn lemma_seq_lt_total(a: Seq<char>, b: Seq<char>)
    ensures
        seq_lt(a, b) || seq_lt(b, a) || a == b,
    decreases a.len(),
{
    if a.len() > 0 && b.len() > 0 && a[0] == b[0] {
        lemma_seq_lt_total(a.drop_first(), b.drop_first());
        if a.drop_first() == b.drop_first() {
            assert(a =~= seq![a[0]] + a.drop_first());
            assert(b =~= seq![b[0]] + b.drop_first());
        }
    } else if a.len() == 0 && b.len() == 0 {
        assert(a =~= b);
    }
}

} // verus!

verus! {

// ---------------------------------------------------------------------------
// Lines and words
// ---------------------------------------------------------------------------
/// `s` without one trailing carriage return.
pub open spec fn strip_cr(s: Seq<char>) -> Seq<char> {
    if s.len() > 0 && s.last() == '\r' {
        s.drop_last()
    } else {
        s
    }
}

/// `str::lines`: the pieces between line feeds, each that ended with a line
/// feed without one trailing carriage return, and no empty piece after a
/// final line feed.
pub open spec fn lines_of(s: Seq<char>) -> Seq<Seq<char>> {
    let p = crate::paths::split_on(s, '\n');
    if p.last().len() == 0 {
        p.drop_last().map_values(|l: Seq<char>| strip_cr(l))
    } else {
        p.drop_last().map_values(|l: Seq<char>| strip_cr(l)).push(p.last())
    }
}

/// The pieces of `s` between white-space characters.
pub open spec fn split_white(s: Seq<char>) -> Seq<Seq<char>>
    decreases s.len(),
{
    if s.len() == 0 {
        seq![seq![]]
    } else {
        let rest = split_white(s.drop_last());
        if is_white_space(s.last()) {
            rest.push(seq![])
        } else {
            rest.update(rest.len() - 1, rest.last().push(s.last()))
        }
    }
}

/// The non-empty pieces, in order.
pub open spec fn non_empty_pieces(pieces: Seq<Seq<char>>) -> Seq<Seq<char>>
    decreases pieces.len(),
{
    if pieces.len() == 0 {
        seq![]
    } else if pieces.last().len() > 0 {
        non_empty_pieces(pieces.drop_last()).push(pieces.last())
    } else {
        non_empty_pieces(pieces.drop_last())
    }
}

/// `str::split_whitespace`.
pub open spec fn words_of(s: Seq<char>) -> Seq<Seq<char>> {
    non_empty_pieces(split_white(s))
}

proof fn lemma_split_white_nonempty(s: Seq<char>)
    ensures
        split_white(s).len() >= 1,
    decreases s.len(),
{
    if s.len() > 0 {
        lemma_split_white_nonempty(s.drop_last());
    }
}

/// The character vectors as sequences.
pub open spec fn vec_views(v: Seq<Vec<char>>) -> Seq<Seq<char>> {
    v.map_values(|c: Vec<char>| c@)
}

fn split_exec(s: &Vec<char>, on_line_feed: bool) -> (pieces: Vec<Vec<char>>)
    ensures
        on_line_feed ==> vec_views(pieces@) == crate::paths::split_on(s@, '\n'),
        !on_line_feed ==> vec_views(pieces@) == split_white(s@),
{
    let mut pieces: Vec<Vec<char>> = Vec::new();
    pieces.push(Vec::new());
    let mut i: usize = 0;
    assert(s@.take(0) =~= Seq::<char>::empty());
    assert(vec_views(pieces@) =~= seq![seq![]]);
    while i < s.len()
        invariant
            i <= s.len(),
            on_line_feed ==> vec_views(pieces@) == crate::paths::split_on(s@.take(i as int), '\n'),
            !on_line_feed ==> vec_views(pieces@) == split_white(s@.take(i as int)),
            pieces@.len() >= 1,
        decreases s.len() - i,
    {
        let ghost sub = s@.take(i + 1);
        proof {
            assert(sub.drop_last() =~= s@.take(i as int));
            assert(sub.last() == s@[i as int]);
            crate::paths::lemma_split_nonempty(s@.take(i as int), '\n');
            lemma_split_white_nonempty(s@.take(i as int));
        }
        let c = s[i];
        let breaks = if on_line_feed {
            c == '\n'
        } else {
            is_white_space_exec(c)
        };
        let ghost before = pieces@;
        if breaks {
            pieces.push(Vec::new());
            assert(vec_views(pieces@) =~= vec_views(before).push(seq![]));
        } else {
            let mut last = pieces.pop().unwrap();
            last.push(c);
            pieces.push(last);
            assert(vec_views(pieces@) =~= vec_views(before).update(
                before.len() - 1,
                vec_views(before).last().push(c),
            ));
        }
        i = i + 1;
    }
    assert(s@.take(s.len() as int) =~= s@);
    pieces
}

/// `str::lines`.
pub fn lines_exec(s: &Vec<char>) -> (lines: Vec<Vec<char>>)
    ensures
        vec_views(lines@) == lines_of(s@),
{
    let pieces = split_exec(s, true);
    let ghost p = vec_views(pieces@);
    proof {
        crate::paths::lemma_split_nonempty(s@, '\n');
    }
    let mut lines: Vec<Vec<char>> = Vec::new();
    let n = pieces.len();
    let mut i: usize = 0;
    while i + 1 < n
        invariant
            n == pieces.len() >= 1,
            i + 1 <= n,
            p == vec_views(pieces@),
            vec_views(lines@) == p.drop_last().take(i as int).map_values(|l: Seq<char>| strip_cr(l)),
        decreases n - i,
    {
        let mut line = pieces[i].clone();
        assert(line@ =~= p[i as int]);
        let len = line.len();
        if len > 0 && line[len - 1] == '\r' {
            line.pop();
        }
        assert(line@ =~= strip_cr(p[i as int]));
        let ghost before = lines@;
        let ghost lv = line@;
        lines.push(line);
        assert(vec_views(lines@) =~= vec_views(before).push(lv));
        assert(p.drop_last().take(i + 1) =~= p.drop_last().take(i as int).push(p[i as int]));
        assert(vec_views(lines@) =~= p.drop_last().take(i + 1).map_values(
            |l: Seq<char>| strip_cr(l),
        ));
        i = i + 1;
    }
    assert(p.drop_last().take(i as int) =~= p.drop_last());
    let last = pieces[n - 1].clone();
    assert(last@ =~= p.last());
    if last.len() > 0 {
        lines.push(last);
    }
    assert(vec_views(lines@) =~= lines_of(s@));
    lines
}

/// `str::split_whitespace`.
pub fn words_exec(s: &Vec<char>) -> (words: Vec<Vec<char>>)
    ensures
        vec_views(words@) == words_of(s@),
{
    let pieces = split_exec(s, false);
    let ghost p = vec_views(pieces@);
    let mut words: Vec<Vec<char>> = Vec::new();
    let mut i: usize = 0;
    assert(p.take(0) =~= Seq::<Seq<char>>::empty());
    while i < pieces.len()
        invariant
            i <= pieces.len(),
            p == vec_views(pieces@),
            vec_views(words@) == non_empty_pieces(p.take(i as int)),
        decreases pieces.len() - i,
    {
        assert(p.take(i + 1).drop_last() =~= p.take(i as int));
        assert(p.take(i + 1).last() == pieces@[i as int]@);
        if pieces[i].len() > 0 {
            let w = pieces[i].clone();
            assert(w@ =~= pieces@[i as int]@);
            let ghost before = words@;
            words.push(w);
            assert(vec_views(words@) =~= vec_views(before).push(pieces@[i as int]@));
        }
        i = i + 1;
    }
    assert(p.take(pieces.len() as int) =~= p);
    words
}

// ---------------------------------------------------------------------------
// Replacement
// ---------------------------------------------------------------------------
/// `str::replace`: every non-overlapping occurrence of `from`, found from
/// the left, replaced by `to`.
pub open spec fn replace_all(s: Seq<char>, from: Seq<char>, to: Seq<char>) -> Seq<char>
    recommends
        from.len() > 0,
    decreases s.len(),
{
    if s.len() == 0 || from.len() == 0 {
        s
    } else if from.len() <= s.len() && s.take(from.len() as int) == from {
        to + replace_all(s.skip(from.len() as int), from, to)
    } else {
        seq![s[0]] + replace_all(s.drop_first(), from, to)
    }
}

/// Replaces every occurrence of `from` in `s` by `to`.
pub fn replace_all_exec(s: &Vec<char>, from: &Vec<char>, to: &Vec<char>) -> (out: Vec<char>)
    requires
        from.len() > 0,
    ensures
        out@ == replace_all(s@, from@, to@),
{
    let mut out: Vec<char> = Vec::new();
    let mut i: usize = 0;
    assert(s@.skip(0) =~= s@);
    while i < s.len()
        invariant
            i <= s.len(),
            from@.len() > 0,
            replace_all(s@, from@, to@) == out@ + replace_all(s@.skip(i as int), from@, to@),
        decreases s.len() - i,
    {
        let ghost rest = s@.skip(i as int);
        if from.len() <= s.len() - i && occurs_at_exec(s, from, i) {
            proof {
                assert(rest.take(from.len() as int) =~= from@);
                assert(rest.skip(from.len() as int) =~= s@.skip(i + from.len()));
            }
            proof {
                assert(s@.subrange(i as int, i + from.len()) =~= rest.take(from.len() as int));
            }
            append_chars(&mut out, to);
            assert(out@ + replace_all(s@.skip(i + from.len()), from@, to@) =~= replace_all(s@, from@, to@));
            i = i + from.len();
        } else {
            proof {
                if from.len() <= rest.len() {
                    assert(rest.take(from.len() as int) =~= s@.subrange(i as int, i + from.len()));
                }
                assert(rest.drop_first() =~= s@.skip(i + 1));
                assert(rest[0] == s@[i as int]);
                assert(replace_all(rest, from@, to@) == seq![rest[0]] + replace_all(
                    rest.drop_first(),
                    from@,
                    to@,
                ));
            }
            out.push(s[i]);
            assert(out@ + replace_all(s@.skip(i + 1), from@, to@) =~= replace_all(s@, from@, to@));
            i = i + 1;
        }
    }
    assert(s@.skip(i as int) =~= Seq::<char>::empty());
    out
}

/// Whether `i` is where `needle` first occurs in `s`.
pub open spec fn is_first_occurrence(s: Seq<char>, needle: Seq<char>, i: int) -> bool {
    occurs_at(s, needle, i) && forall|j: int| 0 <= j < i ==> !occurs_at(s, needle, j)
}

/// The position of the first occurrence of `needle` in `s` (`str::find`,
/// counted in characters).
pub open spec fn first_occurrence(s: Seq<char>, needle: Seq<char>) -> Option<int> {
    if exists|i: int| is_first_occurrence(s, needle, i) {
        Some(choose|i: int| is_first_occurrence(s, needle, i))
    } else {
        None
    }
}

/// Finds the first occurrence of `needle` in `s`.
pub fn find_occurrence(s: &Vec<char>, needle: &Vec<char>) -> (found: Option<usize>)
    ensures
        match found {
            Some(i) => first_occurrence(s@, needle@) == Some(i as int) && is_first_occurrence(
                s@,
                needle@,
                i as int,
            ),
            None => first_occurrence(s@, needle@) is None && forall|i: int| !occurs_at(s@, needle@, i),
        },
{
    let mut i: usize = 0;
    loop
        invariant
            i <= s.len(),
            forall|j: int| 0 <= j < i ==> !occurs_at(s@, needle@, j),
        ensures
            forall|j: int| 0 <= j <= s.len() ==> !occurs_at(s@, needle@, j),
        decreases s.len() - i,
    {
        if occurs_at_exec(s, needle, i) {
            proof {
                assert(is_first_occurrence(s@, needle@, i as int));
                let k = choose|k: int| is_first_occurrence(s@, needle@, k);
                if k < i {
                    assert(!occurs_at(s@, needle@, k));
                }
                if i < k {
                    assert(!occurs_at(s@, needle@, i as int));
                }
            }
            return Some(i);
        }
        if i == s.len() {
            break;
        }
        i = i + 1;
    }
    assert forall|k: int| !occurs_at(s@, needle@, k) by {
        if k > s.len() {
            assert(!(k + needle@.len() <= s@.len()));
        }
    }
    None
}

} // verus!

verus! {

// ---------------------------------------------------------------------------
// Sorted, without duplicates
// ---------------------------------------------------------------------------
/// Where `x` goes in an ordered list: before the first greater entry.
pub open spec fn sorted_insert_pos(sorted: Seq<Seq<char>>, x: Seq<char>) -> int
    decreases sorted.len(),
{
    if sorted.len() == 0 {
        0
    } else if seq_lt(x, sorted[0]) {
        0
    } else {
        1 + sorted_insert_pos(sorted.drop_first(), x)
    }
}

/// `x` added to an ordered list unless it is already there.
pub open spec fn insert_unique(sorted: Seq<Seq<char>>, x: Seq<char>) -> Seq<Seq<char>> {
    if sorted.contains(x) {
        sorted
    } else {
        sorted.insert(sorted_insert_pos(sorted, x), x)
    }
}

/// The strings in order, each once (`sort` followed by `dedup`).
pub open spec fn sorted_unique(items: Seq<Seq<char>>) -> Seq<Seq<char>>
    decreases items.len(),
{
    if items.len() == 0 {
        seq![]
    } else {
        insert_unique(sorted_unique(items.drop_last()), items.last())
    }
}

/// Strictly increasing.
pub open spec fn strictly_increasing(s: Seq<Seq<char>>) -> bool {
    forall|i: int, j: int| 0 <= i < j < s.len() ==> seq_lt(#[trigger] s[i], #[trigger] s[j])
}

proof fn lemma_sorted_insert_pos(sorted: Seq<Seq<char>>, x: Seq<char>)
    ensures
        0 <= sorted_insert_pos(sorted, x) <= sorted.len(),
        forall|i: int| 0 <= i < sorted_insert_pos(sorted, x) ==> !seq_lt(x, #[trigger] sorted[i]),
        sorted_insert_pos(sorted, x) < sorted.len() ==> seq_lt(x, sorted[sorted_insert_pos(sorted, x)]),
    decreases sorted.len(),
{
    if sorted.len() > 0 && !seq_lt(x, sorted[0]) {
        lemma_sorted_insert_pos(sorted.drop_first(), x);
        assert forall|i: int| 0 <= i < sorted_insert_pos(sorted, x) implies !seq_lt(x, #[trigger] sorted[i]) by {
            if i > 0 {
                assert(sorted[i] == sorted.drop_first()[i - 1]);
            }
        }
    }
}

/// The ordered list without duplicates holds exactly the given strings and
/// each only once, in increasing order.
pub proof fn sorted_unique_is_ordered_set(items: Seq<Seq<char>>)
    ensures
        strictly_increasing(sorted_unique(items)),
        forall|x: Seq<char>| sorted_unique(items).contains(x) <==> items.contains(x),
    decreases items.len(),
{
    if items.len() > 0 {
        let s = sorted_unique(items.drop_last());
        let x = items.last();
        sorted_unique_is_ordered_set(items.drop_last());
        if !s.contains(x) {
            let p = sorted_insert_pos(s, x);
            lemma_sorted_insert_pos(s, x);
            let r = s.insert(p, x);
            assert forall|i: int, j: int| 0 <= i < j < r.len() implies seq_lt(#[trigger] r[i], #[trigger] r[j]) by {
                if j < p {
                    assert(r[i] == s[i] && r[j] == s[j]);
                } else if j == p {
                    assert(r[i] == s[i]);
                    lemma_seq_lt_total(x, s[i]);
                    assert(s[i] != x);
                } else if i < p {
                    assert(r[i] == s[i] && r[j] == s[j - 1]);
                } else if i == p {
                    assert(r[j] == s[j - 1]);
                    if j - 1 > p {
                        lemma_seq_lt_transitive(x, s[p], s[j - 1]);
                    }
                } else {
                    assert(r[i] == s[i - 1] && r[j] == s[j - 1]);
                }
            }
            assert forall|y: Seq<char>| r.contains(y) <==> items.contains(y) by {
                if r.contains(y) {
                    let k = choose|k: int| 0 <= k < r.len() && r[k] == y;
                    if y != x {
                        if k < p {
                            assert(s[k] == y);
                            assert(s.contains(y));
                        } else if k > p {
                            assert(s[k - 1] == y);
                            assert(s.contains(y));
                        } else {
                            assert(r[p] == x);
                        }
                        assert(items.drop_last().contains(y));
                        let m = choose|m: int| 0 <= m < items.drop_last().len() && items.drop_last()[m] == y;
                        assert(items[m] == y);
                    } else {
                        assert(items[items.len() - 1] == y);
                    }
                }
                if items.contains(y) {
                    let m = choose|m: int| 0 <= m < items.len() && items[m] == y;
                    if m < items.len() - 1 {
                        assert(items.drop_last()[m] == y);
                        assert(items.drop_last().contains(y));
                        assert(s.contains(y));
                        let k = choose|k: int| 0 <= k < s.len() && s[k] == y;
                        if k < p {
                            assert(r[k] == y);
                        } else {
                            assert(r[k + 1] == y);
                        }
                    } else {
                        assert(r[p] == y);
                    }
                }
            }
        } else {
            assert forall|y: Seq<char>| s.contains(y) <==> items.contains(y) by {
                if s.contains(y) {
                    assert(items.drop_last().contains(y));
                    let m = choose|m: int| 0 <= m < items.drop_last().len() && items.drop_last()[m] == y;
                    assert(items[m] == y);
                }
                if items.contains(y) {
                    let m = choose|m: int| 0 <= m < items.len() && items[m] == y;
                    if m < items.len() - 1 {
                        assert(items.drop_last()[m] == y);
                        assert(items.drop_last().contains(y));
                    } else {
                        assert(y == x);
                    }
                }
            }
            assert(sorted_unique(items) == s);
        }
    }
}

/// The strings in order, each once.
pub fn sort_unique(items: &Vec<String>) -> (sorted: Vec<String>)
    ensures
        string_views(sorted@) == sorted_unique(string_views(items@)),
{
    let ghost views = string_views(items@);
    let mut sorted: Vec<String> = Vec::new();
    let mut i: usize = 0;
    assert(views.take(0) =~= Seq::<Seq<char>>::empty());
    while i < items.len()
        invariant
            i <= items.len(),
            views == string_views(items@),
            string_views(sorted@) == sorted_unique(views.take(i as int)),
        decreases items.len() - i,
    {
        let ghost s = string_views(sorted@);
        let x = chars_of(items[i].as_str());
        proof {
            assert(views.take(i + 1).drop_last() =~= views.take(i as int));
            assert(views.take(i + 1).last() == x@);
        }
        let mut found = false;
        let mut k: usize = 0;
        while k < sorted.len()
            invariant
                k <= sorted.len(),
                s == string_views(sorted@),
                found == (exists|t: int| 0 <= t < k && s[t] == x@),
            decreases sorted.len() - k,
        {
            assert(s[k as int] == sorted@[k as int]@);
            if crate::paths::chars_equal(&chars_of(sorted[k].as_str()), &x) {
                found = true;
            }
            k = k + 1;
        }
        if !found {
            assert(!s.contains(x@));
            let mut j: usize = 0;
            assert(s.skip(0) =~= s);
            while j < sorted.len() && !chars_lt(&x, &chars_of(sorted[j].as_str()))
                invariant
                    j <= sorted.len(),
                    s == string_views(sorted@),
                    sorted_insert_pos(s, x@) == j + sorted_insert_pos(s.skip(j as int), x@),
                decreases sorted.len() - j,
            {
                proof {
                    let rest = s.skip(j as int);
                    assert(rest[0] == s[j as int]);
                    assert(rest.drop_first() =~= s.skip(j + 1));
                }
                j = j + 1;
            }
            proof {
                let rest = s.skip(j as int);
                if j < sorted.len() {
                    assert(rest[0] == s[j as int]);
                } else {
                    assert(rest.len() == 0);
                }
            }
            let item = string_of(&x);
            sorted.insert(j, item);
            assert(string_views(sorted@) =~= s.insert(j as int, x@));
        } else {
            assert(s.contains(x@));
        }
        i = i + 1;
    }
    assert(views.take(items.len() as int) =~= views);
    sorted
}

} // verus!

verus! {

/// Joining a first piece and the rest.
pub proof fn lemma_join_front(a: Seq<char>, rest: Seq<Seq<char>>, sep: Seq<char>)
    ensures
        join(seq![a] + rest, sep) == if rest.len() == 0 {
            a
        } else {
            a + sep + join(rest, sep)
        },
    decreases rest.len(),
{
    let x = seq![a] + rest;
    if rest.len() == 0 {
        assert(x =~= seq![a]);
    } else if rest.len() == 1 {
        assert(x.drop_last() =~= seq![a]);
        assert(x.last() == rest[0]);
        assert(join(seq![a], sep) == a);
        assert(join(rest, sep) == rest[0]);
        assert(join(x, sep) == join(x.drop_last(), sep) + sep + x.last());
    } else {
        lemma_join_front(a, rest.drop_last(), sep);
        assert(x.drop_last() =~= seq![a] + rest.drop_last());
        assert(x.last() == rest.last());
        assert(join(x, sep) == join(x.drop_last(), sep) + sep + x.last());
        assert(join(rest, sep) == join(rest.drop_last(), sep) + sep + rest.last());
        assert(a + sep + join(rest.drop_last(), sep) + sep + rest.last() =~= a + sep + (join(
            rest.drop_last(),
            sep,
        ) + sep + rest.last()));
    }
}

} // verus!

verus! {

/// `str::to_lowercase`: Unicode lower-casing (tables of the Unicode
/// standard, named here rather than restated).
pub uninterp spec fn unicode_lowercase(s: Seq<char>) -> Seq<char>;

/// Lower-cases `s` (std `str::to_lowercase`); the result is the Unicode
/// lower-case mapping of `s`, which depends on `s` alone.
#[verifier::external_body]
pub(crate) fn to_lowercase(s: &str) -> (lower: String)
    ensures
        lower@ == unicode_lowercase(s@),
{
    s.to_lowercase()
}

} // verus!

verus! {

/// The strings in order, equal ones keeping their order (`sort` of strings;
/// a stable sort).
pub open spec fn sorted_strings(items: Seq<Seq<char>>) -> Seq<Seq<char>>
    decreases items.len(),
{
    if items.len() == 0 {
        seq![]
    } else {
        let s = sorted_strings(items.drop_last());
        s.insert(sorted_insert_pos(s, items.last()), items.last())
    }
}

/// Sorts strings.
pub fn sort_strings(items: &Vec<String>) -> (sorted: Vec<String>)
    ensures
        string_views(sorted@) == sorted_strings(string_views(items@)),
{
    let ghost views = string_views(items@);
    let mut sorted: Vec<String> = Vec::new();
    let mut i: usize = 0;
    assert(views.take(0) =~= Seq::<Seq<char>>::empty());
    while i < items.len()
        invariant
            i <= items.len(),
            views == string_views(items@),
            string_views(sorted@) == sorted_strings(views.take(i as int)),
        decreases items.len() - i,
    {
        let ghost s = string_views(sorted@);
        let x = chars_of(items[i].as_str());
        proof {
            assert(views.take(i + 1).drop_last() =~= views.take(i as int));
            assert(views.take(i + 1).last() == x@);
        }
        let mut j: usize = 0;
        assert(s.skip(0) =~= s);
        while j < sorted.len() && !chars_lt(&x, &chars_of(sorted[j].as_str()))
            invariant
                j <= sorted.len(),
                s == string_views(sorted@),
                sorted_insert_pos(s, x@) == j + sorted_insert_pos(s.skip(j as int), x@),
            decreases sorted.len() - j,
        {
            proof {
                let rest = s.skip(j as int);
                assert(rest[0] == s[j as int]);
                assert(rest.drop_first() =~= s.skip(j + 1));
            }
            j = j + 1;
        }
        proof {
            let rest = s.skip(j as int);
            if j < sorted.len() {
                assert(rest[0] == s[j as int]);
            } else {
                assert(rest.len() == 0);
            }
        }
        sorted.insert(j, string_of(&x));
        assert(string_views(sorted@) =~= s.insert(j as int, x@));
        i = i + 1;
    }
    assert(views.take(items.len() as int) =~= views);
    sorted
}

} // verus!

verus! {

/// `String::from_utf8_lossy`: the bytes decoded as UTF-8, each invalid
/// sequence replaced by U+FFFD (tables of the standard, named here).
pub uninterp spec fn lossy_utf8(bytes: Seq<u8>) -> Seq<char>;

/// Decodes bytes as UTF-8, replacing invalid sequences (std
/// `String::from_utf8_lossy`); the result depends on the bytes alone.
#[verifier::external_body]
pub(crate) fn from_utf8_lossy(bytes: &[u8]) -> (text: String)
    ensures
        text@ == lossy_utf8(bytes@),
{
    String::from_utf8_lossy(bytes).into_owned()
}

} // verus!

verus! {

/// The number of bytes a character takes in UTF-8.
pub open spec fn utf8_width(c: char) -> nat {
    if (c as u32) < 0x80 {
        1
    } else if (c as u32) < 0x800 {
        2
    } else if (c as u32) < 0x10000 {
        3
    } else {
        4
    }
}

/// The number of bytes a string takes in UTF-8 (`str::len`).
pub open spec fn utf8_len(s: Seq<char>) -> nat
    decreases s.len(),
{
    if s.len() == 0 {
        0
    } else {
        utf8_len(s.drop_last()) + utf8_width(s.last())
    }
}

pub proof fn lemma_utf8_len_prefix(s: Seq<char>, n: int)
    requires
        0 <= n <= s.len(),
    ensures
        utf8_len(s.take(n)) <= utf8_len(s),
    decreases s.len(),
{
    if s.len() > n {
        assert(s.drop_last().take(n) =~= s.take(n));
        lemma_utf8_len_prefix(s.drop_last(), n);
    } else {
        assert(s.take(n) =~= s);
    }
}

/// The UTF-8 length of `s`, or some number above `cap` when it is longer
/// than `cap`.
pub fn utf8_len_capped(s: &Vec<char>, cap: usize) -> (n: usize)
    requires
        cap <= 0x1000_0000,
    ensures
        utf8_len(s@) <= cap ==> n as nat == utf8_len(s@),
        utf8_len(s@) > cap ==> n > cap,
{
    let mut n: usize = 0;
    let mut i: usize = 0;
    while i < s.len() && n <= cap
        invariant
            i <= s.len(),
            cap <= 0x1000_0000,
            n as nat == utf8_len(s@.take(i as int)),
            n <= cap + 4,
        decreases s.len() - i,
    {
        let v = s[i] as u32;
        let w: usize = if v < 0x80 {
            1
        } else if v < 0x800 {
            2
        } else if v < 0x10000 {
            3
        } else {
            4
        };
        assert(s@.take(i + 1).drop_last() =~= s@.take(i as int));
        n = n + w;
        i = i + 1;
    }
    proof {
        if n <= cap {
            assert(s@.take(i as int) =~= s@);
        } else {
            lemma_utf8_len_prefix(s@, i as int);
        }
    }
    n
}

/// A JSON string: the text in double quotes, with `"` and `\` escaped by a
/// backslash, backspace, form feed, line feed, carriage return and tab
/// written `\b`, `\f`, `\n`, `\r`, `\t`, and the other characters below
/// U+0020 written `\u00` and two lower-case hexadecimal digits.
pub open spec fn json_escaped_char(c: char) -> Seq<char> {
    if c == '"' {
        seq!['\\', '"']
    } else if c == '\\' {
        seq!['\\', '\\']
    } else if c == '\u{8}' {
        seq!['\\', 'b']
    } else if c == '\u{c}' {
        seq!['\\', 'f']
    } else if c == '\n' {
        seq!['\\', 'n']
    } else if c == '\r' {
        seq!['\\', 'r']
    } else if c == '\t' {
        seq!['\\', 't']
    } else if (c as u32) < 0x20 {
        seq!['\\', 'u', '0', '0', lower_hex((c as u32 / 16) as nat), lower_hex((c as u32 % 16) as nat)]
    } else {
        seq![c]
    }
}

/// A lower-case hexadecimal digit.
pub open spec fn lower_hex(d: nat) -> char {
    if d < 10 {
        ('0' as u32 + d) as char
    } else {
        ('a' as u32 + (d - 10)) as char
    }
}

/// The characters of a string escaped for JSON.
pub open spec fn json_escaped(s: Seq<char>) -> Seq<char>
    decreases s.len(),
{
    if s.len() == 0 {
        seq![]
    } else {
        json_escaped(s.drop_last()) + json_escaped_char(s.last())
    }
}

/// A string as a JSON string literal.
pub open spec fn json_quoted(s: Seq<char>) -> Seq<char> {
    seq!['"'] + json_escaped(s) + seq!['"']
}

/// Writes `value` as a JSON string (serde_json `to_string` of a `str`): the
/// text quoted, with quote, backslash and control characters escaped as
/// `json_quoted` states.  Serialising a string into memory cannot fail.
#[verifier::external_body]
pub(crate) fn json_string(value: &str) -> (json: String)
    ensures
        json@ == json_quoted(value@),
{
    serde_json::to_string(value).unwrap_or_default()
}

/// A lower-case hexadecimal digit.
pub open spec fn hex_digit(d: nat) -> char {
    if d < 10 {
        ('0' as u32 + d) as char
    } else {
        ('a' as u32 + (d - 10)) as char
    }
}

/// The bytes in lower-case hexadecimal, two digits each.
pub open spec fn hex(bytes: Seq<u8>) -> Seq<char>
    decreases bytes.len(),
{
    if bytes.len() == 0 {
        seq![]
    } else {
        hex(bytes.drop_last()) + seq![
            hex_digit((bytes.last() / 16) as nat),
            hex_digit((bytes.last() % 16) as nat),
        ]
    }
}

/// A lower-case hexadecimal digit character.
pub open spec fn is_lower_hex_char(c: char) -> bool {
    ('0' <= c && c <= '9') || ('a' <= c && c <= 'f')
}

/// Every character of a hexadecimal text is a lower-case hexadecimal digit.
pub proof fn lemma_hex_chars(bytes: Seq<u8>)
    ensures
        forall|i: int| 0 <= i < hex(bytes).len() ==> is_lower_hex_char(#[trigger] hex(bytes)[i]),
    decreases bytes.len(),
{
    if bytes.len() > 0 {
        lemma_hex_chars(bytes.drop_last());
        let hi = (bytes.last() / 16) as nat;
        let lo = (bytes.last() % 16) as nat;
        assert(is_lower_hex_char(hex_digit(hi)));
        assert(is_lower_hex_char(hex_digit(lo)));
        let h = hex(bytes);
        let front = hex(bytes.drop_last());
        assert forall|i: int| 0 <= i < h.len() implies is_lower_hex_char(#[trigger] h[i]) by {
            if i < front.len() {
                assert(h[i] == front[i]);
            }
        }
    }
}

/// Two hexadecimal digits per byte.
pub proof fn lemma_hex_len(bytes: Seq<u8>)
    ensures
        hex(bytes).len() == 2 * bytes.len(),
    decreases bytes.len(),
{
    if bytes.len() > 0 {
        lemma_hex_len(bytes.drop_last());
    }
}

/// `d` as a lower-case hexadecimal digit.
pub fn hex_digit_exec(d: u8) -> (c: char)
    requires
        d < 16,
    ensures
        c == hex_digit(d as nat),
{
    if d < 10 {
        ((48u8 + d) as char)
    } else {
        ((97u8 + (d - 10)) as char)
    }
}

/// Appends `bytes` in lower-case hexadecimal, two digits each.
pub fn push_hex(out: &mut Vec<char>, bytes: &Vec<u8>)
    ensures
        final(out)@ == old(out)@ + hex(bytes@),
{
    let mut i: usize = 0;
    while i < bytes.len()
        invariant
            i <= bytes.len(),
            out@ == old(out)@ + hex(bytes@.take(i as int)),
        decreases bytes.len() - i,
    {
        let b = bytes[i];
        out.push(hex_digit_exec(b / 16));
        out.push(hex_digit_exec(b % 16));
        proof {
            assert(bytes@.take(i + 1).drop_last() =~= bytes@.take(i as int));
            assert(out@ =~= old(out)@ + hex(bytes@.take(i + 1)));
        }
        i = i + 1;
    }
    assert(bytes@.take(bytes.len() as int) =~= bytes@);
}

} // verus!
