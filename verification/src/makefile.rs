//! Line classification for a makefile scan: recognising annotation comment
//! lines, recognising target-definition lines, and splitting a rule head
//! into its target names.

use vstd::prelude::*;
use vstd::string::StrSliceExecFns;

verus! {

/// The characters the scan treats as blank: the Unicode `White_Space` set.
pub open spec fn is_space_char(c: char) -> bool {
    c == ' ' || c == '\t' || c == '\n' || c == '\r'
        || c == '\u{000B}' || c == '\u{000C}' || c == '\u{0085}' || c == '\u{00A0}'
        || c == '\u{1680}'
        || c == '\u{2000}' || c == '\u{2001}' || c == '\u{2002}' || c == '\u{2003}'
        || c == '\u{2004}' || c == '\u{2005}' || c == '\u{2006}' || c == '\u{2007}'
        || c == '\u{2008}' || c == '\u{2009}' || c == '\u{200A}'
        || c == '\u{2028}' || c == '\u{2029}' || c == '\u{202F}' || c == '\u{205F}'
        || c == '\u{3000}'
}

fn is_space(c: char) -> (b: bool)
    ensures
        b == is_space_char(c),
{
    c == ' ' || c == '\t' || c == '\n' || c == '\r'
        || c == '\u{000B}' || c == '\u{000C}' || c == '\u{0085}' || c == '\u{00A0}'
        || c == '\u{1680}'
        || c == '\u{2000}' || c == '\u{2001}' || c == '\u{2002}' || c == '\u{2003}'
        || c == '\u{2004}' || c == '\u{2005}' || c == '\u{2006}' || c == '\u{2007}'
        || c == '\u{2008}' || c == '\u{2009}' || c == '\u{200A}'
        || c == '\u{2028}' || c == '\u{2029}' || c == '\u{202F}' || c == '\u{205F}'
        || c == '\u{3000}'
}

/// The index of the first character at or after `i` that is not blank,
/// or `s.len()` when only blanks remain.
pub open spec fn skip_spaces(s: Seq<char>, i: int) -> int
    decreases s.len() - i,
{
    if 0 <= i < s.len() && is_space_char(s[i]) {
        skip_spaces(s, i + 1)
    } else {
        i
    }
}

/// Returns the first index at or after `from` whose character is not blank.
fn first_non_space(line: &str, from: usize) -> (i: usize)
    requires
        from <= line@.len(),
    ensures
        i == skip_spaces(line@, from as int),
        from <= i <= line@.len(),
{
    let n = line.unicode_len();
    let mut i: usize = from;
    while i < n && is_space(line.get_char(i))
        invariant
            from <= i <= n,
            n == line@.len(),
            skip_spaces(line@, from as int) == skip_spaces(line@, i as int),
        decreases n - i,
    {
        i = i + 1;
    }
    i
}

/// The bracketed annotation that marks the targets of the following rule
/// as phony.
pub open spec fn annotation_tag() -> Seq<char> {
    seq!['[', 'p', 'h', 'o', 'n', 'i', 'p', 'h', 'y', ']']
}

/// `s` carries the annotation text starting exactly at index `j`.
pub open spec fn tag_at(s: Seq<char>, j: int) -> bool {
    0 <= j && j + annotation_tag().len() <= s.len()
        && s.subrange(j, j + annotation_tag().len() as int) == annotation_tag()
}

/// An annotation comment line: optional blanks, a `#`, optional blanks,
/// then the annotation itself. Whatever follows the closing bracket is
/// ignored.
pub open spec fn is_phoniphy(s: Seq<char>) -> bool {
    let i = skip_spaces(s, 0);
    if i < s.len() && s[i] == '#' {
        tag_at(s, skip_spaces(s, i + 1))
    } else {
        false
    }
}

fn tag_char(k: usize) -> (c: char)
    requires
        k < annotation_tag().len(),
    ensures
        c == annotation_tag()[k as int],
{
    if k == 0 {
        '['
    } else if k == 1 {
        'p'
    } else if k == 2 {
        'h'
    } else if k == 3 {
        'o'
    } else if k == 4 {
        'n'
    } else if k == 5 {
        'i'
    } else if k == 6 {
        'p'
    } else if k == 7 {
        'h'
    } else if k == 8 {
        'y'
    } else {
        ']'
    }
}

/// Checks whether the annotation text stands in `line` starting at `j`.
fn has_tag_at(line: &str, j: usize) -> (b: bool)
    requires
        j <= line@.len(),
    ensures
        b == tag_at(line@, j as int),
{
    let n = line.unicode_len();
    if n - j < 10 {
        return false;
    }
    let mut k: usize = 0;
    while k < 10
        invariant
            j + 10 <= n,
            n == line@.len(),
            k <= 10,
            forall|m: int| 0 <= m < k ==> line@[j + m] == annotation_tag()[m],
        decreases 10 - k,
    {
        let c = line.get_char(j + k);
        if c != tag_char(k) {
            proof {
                assert(line@.subrange(j as int, j as int + 10)[k as int]
                    == line@[j + k as int]);
            }
            return false;
        }
        k = k + 1;
    }
    proof {
        assert(line@.subrange(j as int, j as int + 10) =~= annotation_tag());
    }
    true
}

/// Reports whether `line` is an annotation comment line.
pub fn is_phoniphy_macro(line: &str) -> (b: bool)
    ensures
        b == is_phoniphy(line@),
{
    let n = line.unicode_len();
    let i = first_non_space(line, 0);
    if i == n {
        return false;
    }
    if line.get_char(i) != '#' {
        return false;
    }
    let j = first_non_space(line, i + 1);
    has_tag_at(line, j)
}

/// The index just past the run of non-blank characters that starts at `i`:
/// the first index at or after `i` that is blank or past the end.
pub open spec fn token_end(s: Seq<char>, i: int) -> int
    decreases s.len() - i,
{
    if 0 <= i < s.len() && !is_space_char(s[i]) {
        token_end(s, i + 1)
    } else {
        i
    }
}

/// The run found by `token_end` stays within `s`, ends at a blank or at the
/// end, and holds no blank inside.
pub proof fn lemma_token_end(s: Seq<char>, i: int)
    requires
        0 <= i <= s.len(),
    ensures
        i <= token_end(s, i) <= s.len(),
        token_end(s, i) < s.len() ==> is_space_char(s[token_end(s, i)]),
        forall|k: int| i <= k < token_end(s, i) ==> !is_space_char(s[k]),
    decreases s.len() - i,
{
    if i < s.len() && !is_space_char(s[i]) {
        lemma_token_end(s, i + 1);
    }
}

/// The target names found at or after index `i`: the maximal runs of
/// non-blank characters, in order, leaving out every run that holds a `%`
/// (a pattern, not a target).
pub open spec fn targets_from(s: Seq<char>, i: int) -> Seq<Seq<char>>
    decreases s.len() - i,
{
    if !(0 <= i < s.len()) {
        Seq::empty()
    } else if is_space_char(s[i]) {
        targets_from(s, i + 1)
    } else {
        proof {
            lemma_token_end(s, i);
        }
        let j = token_end(s, i);
        let tok = s.subrange(i, j);
        if tok.contains('%') {
            targets_from(s, j)
        } else {
            seq![tok] + targets_from(s, j)
        }
    }
}

/// The target names of a whole field, from its start.
pub open spec fn split_names(s: Seq<char>) -> Seq<Seq<char>> {
    targets_from(s, 0)
}

/// Returns the index just past the run of non-blank characters starting
/// at `from`.
fn end_of_token(t: &str, from: usize) -> (j: usize)
    requires
        from <= t@.len(),
    ensures
        j == token_end(t@, from as int),
        from <= j <= t@.len(),
{
    let n = t.unicode_len();
    let mut j: usize = from;
    while j < n && !is_space(t.get_char(j))
        invariant
            from <= j <= n,
            n == t@.len(),
            token_end(t@, from as int) == token_end(t@, j as int),
        decreases n - j,
    {
        j = j + 1;
    }
    j
}

/// Reports whether `t` holds a `%` character.
fn contains_percent(t: &str) -> (b: bool)
    ensures
        b == t@.contains('%'),
{
    let n = t.unicode_len();
    let mut k: usize = 0;
    while k < n
        invariant
            k <= n,
            n == t@.len(),
            forall|m: int| 0 <= m < k ==> t@[m] != '%',
        decreases n - k,
    {
        if t.get_char(k) == '%' {
            proof {
                assert(t@[k as int] == '%');
            }
            return true;
        }
        k = k + 1;
    }
    proof {
        assert(!t@.contains('%')) by {
            if t@.contains('%') {
                let idx = choose|idx: int| 0 <= idx < t@.len() && t@[idx] == '%';
                assert(t@[idx] != '%');
            }
        }
    }
    false
}

/// Splits a rule head into its target names: the blank-separated words,
/// in order, leaving out every word that holds a `%`.
pub fn split_targets<'a>(t: &'a str) -> (r: Vec<&'a str>)
    ensures
        r.deep_view() == split_names(t@),
{
    let n = t.unicode_len();
    let mut r: Vec<&'a str> = Vec::new();
    let mut i: usize = 0;
    proof {
        assert(r.deep_view() + targets_from(t@, 0) =~= targets_from(t@, 0));
    }
    while i < n
        invariant
            i <= n,
            n == t@.len(),
            r.deep_view() + targets_from(t@, i as int) == targets_from(t@, 0),
        decreases n - i,
    {
        if is_space(t.get_char(i)) {
            i = i + 1;
        } else {
            let ghost prev = r.deep_view();
            let j = end_of_token(t, i);
            proof {
                lemma_token_end(t@, i as int);
            }
            let tok = t.substring_char(i, j);
            if !contains_percent(tok) {
                r.push(tok);
                proof {
                    assert(r.deep_view() =~= prev + seq![tok@]);
                    assert((prev + seq![tok@]) + targets_from(t@, j as int)
                        =~= prev + (seq![tok@] + targets_from(t@, j as int)));
                }
            }
            i = j;
        }
    }
    proof {
        assert(r.deep_view() + targets_from(t@, i as int) =~= r.deep_view());
    }
    r
}

/// The index of the first `:` at or after `i`, or `s.len()` when there is
/// none.
pub open spec fn find_colon(s: Seq<char>, i: int) -> int
    decreases s.len() - i,
{
    if 0 <= i < s.len() && s[i] != ':' {
        find_colon(s, i + 1)
    } else {
        i
    }
}

/// `find_colon` stays within `s`, lands on a `:` when one exists, and skips
/// no `:` on the way; when it reaches the end, `s` holds no `:` at all.
pub proof fn lemma_find_colon(s: Seq<char>, i: int)
    requires
        0 <= i <= s.len(),
    ensures
        i <= find_colon(s, i) <= s.len(),
        find_colon(s, i) < s.len() ==> s[find_colon(s, i)] == ':',
        forall|k: int| i <= k < find_colon(s, i) ==> s[k] != ':',
    decreases s.len() - i,
{
    if i < s.len() && s[i] != ':' {
        lemma_find_colon(s, i + 1);
    }
}

/// The target names of a line: the words of the part before the first `:`,
/// leaving out every word that holds a `%`. A line without a `:` defines
/// no target, and its value here is what its (empty) head would give.
pub open spec fn line_targets(s: Seq<char>) -> Seq<Seq<char>> {
    split_names(s.subrange(0, find_colon(s, 0)))
}

/// Extracts the target names of a target-definition line: the words before
/// the first `:`, patterns left out. Returns `None` for a line without a
/// `:`, and for one whose head yields no name.
pub fn get_targets_from_line<'a>(l: &'a str) -> (r: Option<Vec<&'a str>>)
    ensures
        match r {
            Some(v) => l@.contains(':') && v.deep_view() == line_targets(l@)
                && v.deep_view().len() > 0,
            None => !l@.contains(':') || line_targets(l@).len() == 0,
        },
{
    let n = l.unicode_len();
    let mut k: usize = 0;
    while k < n && l.get_char(k) != ':'
        invariant
            k <= n,
            n == l@.len(),
            find_colon(l@, 0) == find_colon(l@, k as int),
        decreases n - k,
    {
        k = k + 1;
    }
    if k == n {
        proof {
            lemma_find_colon(l@, 0);
            assert(!l@.contains(':')) by {
                if l@.contains(':') {
                    let idx = choose|idx: int| 0 <= idx < l@.len() && l@[idx] == ':';
                    assert(l@[idx] != ':');
                }
            }
        }
        return None;
    }
    let head = l.substring_char(0, k);
    let ts = split_targets(head);
    if ts.len() > 0 {
        proof {
            assert(l@[k as int] == ':');
            assert(l@.contains(':'));
        }
        Some(ts)
    } else {
        None
    }
}

/// The two ways a scan can fail: the file cannot be opened, or a read
/// from it fails.
#[derive(Clone, Copy, PartialEq, Eq, Structural, Debug)]
pub enum Error {
    OpeningFile,
    ParsingTargets,
}

/// A scanned build-description file: where it was found, and the targets
/// its annotations mark as phony.
pub struct Makefile {
    pub targets: Vec<String>,
    pub path: String,
}

impl Makefile {
    /// Builds the record of a scanned file from its path and the targets
    /// the scan collected.
    pub fn new(path: String, targets: Vec<String>) -> (m: Makefile)
        ensures
            m.path == path,
            m.targets == targets,
    {
        Makefile { targets, path }
    }
}

} // verus!
