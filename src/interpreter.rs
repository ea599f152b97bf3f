//! The line interpreter: one directory slot, updated by `make`'s directory
//! announcements and read when a diagnostic line is annotated.
use vstd::prelude::*;

use crate::grammar::{
    announced, announcement, diagnostic, enter_verb, is_diagnostic, is_terminator, occurs_at, leave_verb, parent_dir,
    parent_of, strip_terminators,
};
use crate::text::{prefix_string, push_prefix, range_string, to_chars};

verus! {

/// What the interpreter does with one line, from the tracked directory `dir`:
/// the new directory and the line to emit, or `None` when the line leaves
/// `dir` and `dir` has no parent.
pub open spec fn step(dir: Seq<char>, raw: Seq<char>) -> Option<(Seq<char>, Seq<char>)> {
    let s = strip_terminators(raw);
    match announced(s, enter_verb()) {
        Some(p) => Some((p, s)),
        None => match announced(s, leave_verb()) {
            Some(p) => if p == dir {
                match parent_dir(p) {
                    Some(q) => Some((q, s)),
                    None => None,
                }
            } else {
                Some((dir, s))
            },
            None => if is_diagnostic(s) {
                Some((dir, dir + seq!['/'] + s))
            } else {
                Some((dir, s))
            },
        },
    }
}

/// The lines emitted for `lines`, in order, and the directory after the last
/// one, from the tracked directory `dir`; `None` when a line fails.
pub open spec fn run(dir: Seq<char>, lines: Seq<Seq<char>>) -> Option<(Seq<char>, Seq<Seq<char>>)>
    decreases lines.len(),
{
    if lines.len() == 0 {
        Some((dir, Seq::empty()))
    } else {
        match step(dir, lines[0]) {
            None => None,
            Some((d, out)) => match run(d, lines.drop_first()) {
                None => None,
                Some((last, outs)) => Some((last, seq![out] + outs)),
            },
        }
    }
}

/// Why a line could not be interpreted: it leaves the tracked directory, and
/// that directory has no parent.
#[derive(Debug, Clone, PartialEq, Eq)]
pub enum ProcessError {
    NoParentDirectory { path: String },
}

/// Tracks the directory that `make` is in and annotates diagnostic lines.
pub struct LineProcessor {
    /// The directory of the latest announcement; empty before any.
    pub current_dir: String,
}

impl LineProcessor {
    pub fn new() -> (r: Self)
        ensures
            r.current_dir@ == Seq::<char>::empty(),
    {
        LineProcessor { current_dir: String::new() }
    }

    /// Interprets one line of `make`'s output, with its line terminators
    /// removed, and returns the line to emit.
    pub fn process_line(&mut self, line: &str) -> (r: Result<Option<String>, ProcessError>)
        ensures
            match step(old(self).current_dir@, line@) {
                Some((dir, out)) => {
                    &&& r matches Ok(Some(o)) && o@ == out
                    &&& final(self).current_dir@ == dir
                },
                None => {
                    &&& r matches Err(ProcessError::NoParentDirectory { path }) && path@
                        == old(self).current_dir@
                    &&& final(self).current_dir@ == old(self).current_dir@
                },
            },
            ({
                let s = strip_terminators(line@);
                announced(s, enter_verb()) is None && announced(s, leave_verb()) is None
                    && !is_diagnostic(s) ==> (r matches Ok(Some(o)) && o@ == s)
                    && final(self).current_dir@ == old(self).current_dir@
            }),
    {
        let mut chars = to_chars(line);
        let n = crate::grammar::stripped_len(&chars);
        chars.truncate(n);
        assert(chars@ =~= strip_terminators(line@));
        let enter = to_chars("Entering directory '");
        let leave = to_chars("Leaving directory '");
        if let Some((a, b)) = announcement(&chars, &enter) {
            self.current_dir = range_string(&chars, a, b);
            return Ok(Some(prefix_string(&chars, n)));
        }
        if let Some((a, b)) = announcement(&chars, &leave) {
            let left = range_string(&chars, a, b);
            if left == self.current_dir {
                match parent_of(&chars_of_range(&chars, a, b)) {
                    Some(parent) => self.current_dir = parent,
                    None => return Err(ProcessError::NoParentDirectory { path: left }),
                }
            }
            return Ok(Some(prefix_string(&chars, n)));
        }
        if diagnostic(&chars) {
            let mut out = self.current_dir.clone();
            out.append("/");
            push_prefix(&mut out, &chars, n);
            proof {
                reveal_strlit("/");
            }
            assert(out@ =~= old(self).current_dir@ + seq!['/'] + chars@);
            return Ok(Some(out));
        }
        Ok(Some(prefix_string(&chars, n)))
    }
}

/// Removing the line terminators leaves a prefix of the line that ends in no
/// terminator, and keeps a first character that is no terminator.
pub proof fn lemma_strip_terminators(raw: Seq<char>)
    ensures
        strip_terminators(raw).len() <= raw.len(),
        strip_terminators(raw) == raw.take(strip_terminators(raw).len() as int),
        strip_terminators(raw).len() > 0 ==> !is_terminator(strip_terminators(raw).last()),
        raw.len() > 0 && !is_terminator(raw[0]) ==> strip_terminators(raw).len() > 0,
    decreases raw.len(),
{
    if raw.len() > 0 && is_terminator(raw.last()) {
        lemma_strip_terminators(raw.drop_last());
        let t = strip_terminators(raw.drop_last());
        assert(raw.drop_last().take(t.len() as int) =~= raw.take(t.len() as int));
    } else {
        assert(raw.take(raw.len() as int) =~= raw);
    }
}

/// A line whose first character is `/` names an absolute path: it is never a
/// diagnostic nor an announcement, and passes through with the directory kept.
pub proof fn lemma_absolute_path_is_not_diagnostic(dir: Seq<char>, raw: Seq<char>)
    requires
        raw.len() > 0,
        raw[0] == '/',
    ensures
        !is_diagnostic(strip_terminators(raw)),
        step(dir, raw) == Some((dir, strip_terminators(raw))),
{
    lemma_strip_terminators(raw);
    let s = strip_terminators(raw);
    assert(s[0] == raw[0]);
    reveal_strlit("make[");
    assert(!occurs_at(s, 0, "make["@)) by {
        if occurs_at(s, 0, "make["@) {
            assert(s.subrange(0, 5)[0] == s[0]);
        }
    }
}

/// A line with no directory announcement, once run from the empty directory:
/// the line emitted, which the same run then passes through unchanged.
proof fn lemma_quiet_line(raw: Seq<char>) -> (out: Seq<char>)
    requires
        announced(strip_terminators(raw), enter_verb()) is None,
        announced(strip_terminators(raw), leave_verb()) is None,
    ensures
        step(Seq::empty(), raw) == Some((Seq::<char>::empty(), out)),
        step(Seq::empty(), out) == Some((Seq::<char>::empty(), out)),
{
    let s = strip_terminators(raw);
    lemma_strip_terminators(raw);
    lemma_strip_terminators(s);
    assert(s.take(s.len() as int) =~= s);
    if is_diagnostic(s) {
        let out = Seq::<char>::empty() + seq!['/'] + s;
        assert(out[0] == '/');
        lemma_absolute_path_is_not_diagnostic(Seq::empty(), out);
        out
    } else {
        assert(strip_terminators(s) == s) by {
            if s.len() > 0 {
                assert(!is_terminator(s.last()));
            }
        }
        s
    }
}

/// Feeding the emitted lines of a run without directory announcements, started
/// from the empty directory, through a second such run emits them unchanged.
pub proof fn lemma_rerun_is_stable(lines: Seq<Seq<char>>)
    requires
        forall|i: int|
            0 <= i < lines.len() ==> announced(strip_terminators(#[trigger] lines[i]), enter_verb())
                is None && announced(strip_terminators(lines[i]), leave_verb()) is None,
    ensures
        run(Seq::empty(), lines) matches Some((dir, out)) && dir == Seq::<char>::empty() && run(
            Seq::empty(),
            out,
        ) == Some((dir, out)),
    decreases lines.len(),
{
    if lines.len() > 0 {
        let rest = lines.drop_first();
        assert forall|i: int| 0 <= i < rest.len() implies announced(
            strip_terminators(#[trigger] rest[i]),
            enter_verb(),
        ) is None && announced(strip_terminators(rest[i]), leave_verb()) is None by {
            assert(rest[i] == lines[i + 1]);
        }
        lemma_rerun_is_stable(rest);
        let first = lemma_quiet_line(lines[0]);
        let outs = run(Seq::empty(), rest)->Some_0.1;
        let all = seq![first] + outs;
        assert(all[0] == first);
        assert(all.drop_first() =~= outs);
    }
}

/// `v[lo..hi]` as a vector of its own.
fn chars_of_range(v: &Vec<char>, lo: usize, hi: usize) -> (r: Vec<char>)
    requires
        lo <= hi <= v@.len(),
    ensures
        r@ == v@.subrange(lo as int, hi as int),
{
    let mut r: Vec<char> = Vec::new();
    let mut i: usize = lo;
    while i < hi
        invariant
            lo <= i <= hi <= v@.len(),
            r@ == v@.subrange(lo as int, i as int),
        decreases hi - i,
    {
        r.push(v[i]);
        i += 1;
        assert(r@ =~= v@.subrange(lo as int, i as int));
    }
    r
}

} // verus!
