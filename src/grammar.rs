//! The three kinds of line that the interpreter recognises, and the parent of a
//! path, each as a spec function with a matcher proved against it.
use vstd::prelude::*;

use crate::text::{prefix_string, to_chars};

verus! {

pub open spec fn is_digit(c: char) -> bool {
    '0' <= c && c <= '9'
}

pub open spec fn is_terminator(c: char) -> bool {
    c == '\n' || c == '\r'
}

/// `w` stands in `s` at position `i`.
pub open spec fn occurs_at(s: Seq<char>, i: int, w: Seq<char>) -> bool {
    0 <= i && i + w.len() <= s.len() && s.subrange(i, i + w.len()) == w
}

/// Index of the first `c` in `s` at or after `i`, or `s.len()` when there is none.
pub open spec fn find_from(s: Seq<char>, c: char, i: int) -> int
    decreases s.len() - i,
{
    if i < 0 || i >= s.len() {
        s.len() as int
    } else if s[i] == c {
        i
    } else {
        find_from(s, c, i + 1)
    }
}

/// End of the run of decimal digits in `s` that starts at `i`.
pub open spec fn digits_end(s: Seq<char>, i: int) -> int
    decreases s.len() - i,
{
    if 0 <= i < s.len() && is_digit(s[i]) {
        digits_end(s, i + 1)
    } else {
        i
    }
}

/// `s` without the line terminators at its end.
pub open spec fn strip_terminators(s: Seq<char>) -> Seq<char>
    decreases s.len(),
{
    if s.len() > 0 && is_terminator(s.last()) {
        strip_terminators(s.drop_last())
    } else {
        s
    }
}

/// `make[N]: ` with `N` a digit from 1 to 9, at the start of `s`.
pub open spec fn has_make_tag(s: Seq<char>) -> bool {
    &&& occurs_at(s, 0, "make["@)
    &&& s.len() > 5
    &&& '1' <= s[5] && s[5] <= '9'
    &&& occurs_at(s, 6, "]: "@)
}

pub open spec fn enter_verb() -> Seq<char> {
    "Entering directory '"@
}

pub open spec fn leave_verb() -> Seq<char> {
    "Leaving directory '"@
}

/// The path of a line that starts `make[N]: <verb><path>'`, where the path is
/// not empty and holds no quote; what follows the closing quote is free.
pub open spec fn announced(s: Seq<char>, verb: Seq<char>) -> Option<Seq<char>> {
    let start = 9 + verb.len() as int;
    let close = find_from(s, '\'', start);
    if has_make_tag(s) && occurs_at(s, 9, verb) && start < close < s.len() {
        Some(s.subrange(start, close))
    } else {
        None
    }
}

/// A compiler message about a relative file: a first character other than `/`,
/// at least one more character up to the first colon, then
/// `<line>:<column>: ` and `error:`, `warning:` or `note:`.
pub open spec fn is_diagnostic(s: Seq<char>) -> bool {
    let file_end = find_from(s, ':', 1);
    let line_end = digits_end(s, file_end + 1);
    let column_end = digits_end(s, line_end + 1);
    &&& s.len() > 0 && s[0] != '/'
    &&& 2 <= file_end < s.len()
    &&& file_end + 1 < line_end < s.len() && s[line_end] == ':'
    &&& line_end + 1 < column_end
    &&& {
        ||| occurs_at(s, column_end, ": error:"@)
        ||| occurs_at(s, column_end, ": warning:"@)
        ||| occurs_at(s, column_end, ": note:"@)
    }
}

/// `p` without the slashes at its end.
pub open spec fn trim_slashes(p: Seq<char>) -> Seq<char>
    decreases p.len(),
{
    if p.len() > 0 && p.last() == '/' {
        trim_slashes(p.drop_last())
    } else {
        p
    }
}

/// Index of the last `c` in `s`, or -1 when there is none.
pub open spec fn last_index_of(s: Seq<char>, c: char) -> int
    decreases s.len(),
{
    if s.len() == 0 {
        -1
    } else if s.last() == c {
        s.len() - 1
    } else {
        last_index_of(s.drop_last(), c)
    }
}

/// The directory that holds `p`: `p` without its last segment and the slashes
/// before it. A root or an empty path has none; a single relative segment has
/// the empty path as its parent.
pub open spec fn parent_dir(p: Seq<char>) -> Option<Seq<char>> {
    let t = trim_slashes(p);
    let i = last_index_of(t, '/');
    let head = trim_slashes(t.take(i));
    if t.len() == 0 {
        None
    } else if i < 0 {
        Some(Seq::empty())
    } else if head.len() == 0 {
        Some(seq!['/'])
    } else {
        Some(head)
    }
}

pub fn match_word(s: &Vec<char>, i: usize, w: &Vec<char>) -> (r: bool)
    ensures
        r == occurs_at(s@, i as int, w@),
{
    if i > s.len() || w.len() > s.len() - i {
        return false;
    }
    let n = s.len();
    let mut j: usize = 0;
    while j < w.len()
        invariant
            n == s@.len(),
            i + w@.len() <= s@.len(),
            j <= w@.len(),
            forall|k: int| 0 <= k < j ==> s@[i + k] == w@[k],
        decreases w.len() - j,
    {
        if s[i + j] != w[j] {
            assert(s@.subrange(i as int, i + w@.len())[j as int] != w@[j as int]);
            return false;
        }
        j += 1;
    }
    assert(s@.subrange(i as int, i + w@.len()) =~= w@);
    true
}

pub fn find_char(s: &Vec<char>, c: char, i: usize) -> (r: usize)
    ensures
        r == find_from(s@, c, i as int),
{
    if i >= s.len() {
        return s.len();
    }
    let mut j: usize = i;
    while j < s.len() && s[j] != c
        invariant
            i <= j <= s@.len(),
            find_from(s@, c, j as int) == find_from(s@, c, i as int),
        decreases s.len() - j,
    {
        j += 1;
    }
    j
}

pub fn scan_digits(s: &Vec<char>, i: usize) -> (r: usize)
    ensures
        r == digits_end(s@, i as int),
{
    let mut j: usize = i;
    while j < s.len() && '0' <= s[j] && s[j] <= '9'
        invariant
            i <= j,
            digits_end(s@, j as int) == digits_end(s@, i as int),
        decreases s.len() - j,
    {
        j += 1;
    }
    j
}

/// Length of `s` once the line terminators at its end are removed.
pub fn stripped_len(s: &Vec<char>) -> (m: usize)
    ensures
        m <= s@.len(),
        s@.take(m as int) == strip_terminators(s@),
{
    let mut m: usize = s.len();
    assert(s@.take(m as int) =~= s@);
    while m > 0 && (s[m - 1] == '\n' || s[m - 1] == '\r')
        invariant
            m <= s@.len(),
            strip_terminators(s@.take(m as int)) == strip_terminators(s@),
        decreases m,
    {
        assert(s@.take(m as int).drop_last() =~= s@.take(m - 1));
        m -= 1;
    }
    m
}

/// Length of `s[..n]` once the slashes at its end are removed.
pub fn slash_trimmed_len(s: &Vec<char>, n: usize) -> (m: usize)
    requires
        n <= s@.len(),
    ensures
        m <= n,
        s@.take(m as int) == trim_slashes(s@.take(n as int)),
{
    let mut m: usize = n;
    while m > 0 && s[m - 1] == '/'
        invariant
            m <= n <= s@.len(),
            trim_slashes(s@.take(m as int)) == trim_slashes(s@.take(n as int)),
        decreases m,
    {
        assert(s@.take(m as int).drop_last() =~= s@.take(m - 1));
        m -= 1;
    }
    m
}

/// Index of the last `c` in `s[..n]`.
pub fn last_index(s: &Vec<char>, n: usize, c: char) -> (r: Option<usize>)
    requires
        n <= s@.len(),
    ensures
        match r {
            Some(i) => i < n && last_index_of(s@.take(n as int), c) == i,
            None => last_index_of(s@.take(n as int), c) == -1,
        },
{
    let mut m: usize = n;
    while m > 0 && s[m - 1] != c
        invariant
            m <= n <= s@.len(),
            last_index_of(s@.take(m as int), c) == last_index_of(s@.take(n as int), c),
        decreases m,
    {
        assert(s@.take(m as int).drop_last() =~= s@.take(m - 1));
        m -= 1;
    }
    if m == 0 {
        None
    } else {
        Some(m - 1)
    }
}

/// The parent directory of `p`, as `parent_dir` gives it.
pub fn parent_of(p: &Vec<char>) -> (r: Option<String>)
    ensures
        match r {
            Some(q) => parent_dir(p@) == Some(q@),
            None => parent_dir(p@) is None,
        },
{
    assert(p@.take(p@.len() as int) =~= p@);
    let t = slash_trimmed_len(p, p.len());
    if t == 0 {
        return None;
    }
    match last_index(p, t, '/') {
        None => Some(String::new()),
        Some(i) => {
            assert(p@.take(t as int).take(i as int) =~= p@.take(i as int));
            let h = slash_trimmed_len(p, i);
            if h == 0 {
                let root = String::from_str("/");
                proof {
                    reveal_strlit("/");
                    assert(root@ =~= seq!['/']);
                }
                Some(root)
            } else {
                Some(prefix_string(p, h))
            }
        },
    }
}

/// The span of the path that `s` announces with `verb`, as `announced` gives it.
pub fn announcement(s: &Vec<char>, verb: &Vec<char>) -> (r: Option<(usize, usize)>)
    ensures
        match r {
            Some((a, b)) => a <= b <= s@.len() && announced(s@, verb@) == Some(
                s@.subrange(a as int, b as int),
            ),
            None => announced(s@, verb@) is None,
        },
{
    let tag = to_chars("make[");
    let close = to_chars("]: ");
    if !(match_word(s, 0, &tag) && s.len() > 5 && '1' <= s[5] && s[5] <= '9' && match_word(
        s,
        6,
        &close,
    ) && match_word(s, 9, verb)) {
        return None;
    }
    let start = 9 + verb.len();
    let quote = find_char(s, '\'', start);
    if start < quote && quote < s.len() {
        Some((start, quote))
    } else {
        None
    }
}

/// Whether `s` is a diagnostic line, as `is_diagnostic` says.
pub fn diagnostic(s: &Vec<char>) -> (r: bool)
    ensures
        r == is_diagnostic(s@),
{
    if s.len() == 0 || s[0] == '/' {
        return false;
    }
    let file_end = find_char(s, ':', 1);
    if file_end < 2 || file_end >= s.len() {
        return false;
    }
    let line_end = scan_digits(s, file_end + 1);
    if line_end <= file_end + 1 || line_end >= s.len() || s[line_end] != ':' {
        return false;
    }
    let column_end = scan_digits(s, line_end + 1);
    if column_end <= line_end + 1 {
        return false;
    }
    let error = to_chars(": error:");
    let warning = to_chars(": warning:");
    let note = to_chars(": note:");
    match_word(s, column_end, &error) || match_word(s, column_end, &warning) || match_word(
        s,
        column_end,
        &note,
    )
}

} // verus!
