use vstd::prelude::*;

verus! {

/// The characters of `s`, one per element.
pub fn to_chars(s: &str) -> (r: Vec<char>)
    ensures
        r@ == s@,
{
    let mut out: Vec<char> = Vec::new();
    for c in it: s.chars()
        invariant
            it.seq() == s@,
            out@ == s@.take(it.index() as int),
    {
        out.push(c);
    }
    assert(out@ =~= s@);
    out
}

/// Relies on `String::push`: appends one character at the end of the string.
#[verifier::external_body]
fn push_char(s: &mut String, c: char)
    ensures
        final(s)@ == old(s)@.push(c),
{
    s.push(c);
}

/// Appends the first `n` characters of `v` to `out`.
pub fn push_prefix(out: &mut String, v: &Vec<char>, n: usize)
    requires
        n <= v@.len(),
    ensures
        final(out)@ == old(out)@ + v@.take(n as int),
{
    let mut i: usize = 0;
    while i < n
        invariant
            i <= n <= v@.len(),
            out@ == old(out)@ + v@.take(i as int),
        decreases n - i,
    {
        push_char(out, v[i]);
        i += 1;
        assert(v@.take(i as int) =~= v@.take(i - 1).push(v@[i - 1]));
    }
}

/// A string holding the first `n` characters of `v`.
pub fn prefix_string(v: &Vec<char>, n: usize) -> (r: String)
    requires
        n <= v@.len(),
    ensures
        r@ == v@.take(n as int),
{
    let mut r = String::new();
    push_prefix(&mut r, v, n);
    assert(r@ =~= v@.take(n as int));
    r
}

/// A string holding `v[lo..hi]`.
pub fn range_string(v: &Vec<char>, lo: usize, hi: usize) -> (r: String)
    requires
        lo <= hi <= v@.len(),
    ensures
        r@ == v@.subrange(lo as int, hi as int),
{
    let mut r = String::new();
    let mut i: usize = lo;
    while i < hi
        invariant
            lo <= i <= hi <= v@.len(),
            r@ == v@.subrange(lo as int, i as int),
        decreases hi - i,
    {
        push_char(&mut r, v[i]);
        i += 1;
        assert(v@.subrange(lo as int, i as int) =~= v@.subrange(lo as int, i - 1).push(v@[i - 1]));
    }
    r
}

} // verus!
