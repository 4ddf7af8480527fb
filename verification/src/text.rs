//! Text as a sequence of characters: conversion from and to strings,
//! search and replacement of a pattern, and trimming of white space.

use vstd::prelude::*;

verus! {

/// Appends one character to a string.
///
/// Trusted: `String::push` is taken to append exactly the given character
/// at the end and to leave what was there untouched.
#[verifier::external_body]
fn push_char(s: &mut String, c: char)
    ensures
        final(s)@ == old(s)@.push(c),
{
    s.push(c)
}

/// The characters of `s`, in order.
pub fn to_chars(s: &str) -> (v: Vec<char>)
    ensures
        v@ == s@,
{
    let mut v: Vec<char> = Vec::new();
    for c in it: s.chars()
        invariant
            it.seq() == s@,
            v@ == s@.subrange(0, it.index() as int),
    {
        v.push(c);
        assert(v@ == s@.subrange(0, it.index() + 1));
    }
    assert(s@.subrange(0, s@.len() as int) == s@);
    v
}

/// The string made of the characters of `v`, in order.
pub fn from_chars(v: &Vec<char>) -> (s: String)
    ensures
        s@ == v@,
{
    let mut s = String::new();
    let mut i: usize = 0;
    while i < v.len()
        invariant
            i <= v.len(),
            s@ == v@.subrange(0, i as int),
        decreases v.len() - i,
    {
        push_char(&mut s, v[i]);
        i += 1;
        assert(s@ == v@.subrange(0, i as int));
    }
    assert(v@.subrange(0, v.len() as int) == v@);
    s
}

/// Whether `pat` stands in `s` at position `i`.
pub open spec fn occurs_at(s: Seq<char>, i: int, pat: Seq<char>) -> bool {
    0 <= i && i + pat.len() <= s.len() && s.subrange(i, i + pat.len()) == pat
}

/// Whether `pat` stands somewhere in `s`.
pub open spec fn occurs_in(s: Seq<char>, pat: Seq<char>) -> bool {
    exists|i: int| occurs_at(s, i, pat)
}

/// `s` with every occurrence of `pat` replaced by `to`. Occurrences are
/// found from left to right and do not overlap; what was put in is not
/// searched again. With an empty `pat` nothing is replaced.
pub open spec fn replace_all(s: Seq<char>, pat: Seq<char>, to: Seq<char>) -> Seq<char>
    decreases s.len(),
{
    if pat.len() == 0 || s.len() < pat.len() {
        s
    } else if occurs_at(s, 0, pat) {
        to + replace_all(s.subrange(pat.len() as int, s.len() as int), pat, to)
    } else {
        seq![s[0]] + replace_all(s.drop_first(), pat, to)
    }
}

/// Whether `pat` stands in `s` at position `i`.
pub fn matches_at(s: &Vec<char>, i: usize, pat: &Vec<char>) -> (b: bool)
    ensures
        b == occurs_at(s@, i as int, pat@),
{
    if pat.len() > s.len() || i > s.len() - pat.len() {
        return false;
    }
    let mut j: usize = 0;
    while j < pat.len()
        invariant
            i + pat.len() <= s.len(),
            j <= pat.len(),
            forall|k: int| 0 <= k < j ==> s@[i + k] == pat@[k],
        decreases pat.len() - j,
    {
        if s[i + j] != pat[j] {
            assert(s@.subrange(i as int, i + pat.len())[j as int] == s@[i + j]);
            return false;
        }
        j += 1;
    }
    assert(s@.subrange(i as int, i + pat.len()) =~= pat@);
    true
}

/// Whether `c` is among the characters of `s`.
pub fn contains_char(s: &Vec<char>, c: char) -> (b: bool)
    ensures
        b == s@.contains(c),
{
    let mut i: usize = 0;
    while i < s.len()
        invariant
            i <= s.len(),
            forall|k: int| 0 <= k < i ==> s@[k] != c,
        decreases s.len() - i,
    {
        if s[i] == c {
            return true;
        }
        i += 1;
    }
    false
}

/// Replaces every occurrence of `pat` in `s` by `to`; with an empty `pat`
/// nothing is replaced.
pub fn replace(s: &Vec<char>, pat: &Vec<char>, to: &Vec<char>) -> (r: Vec<char>)
    ensures
        r@ == replace_all(s@, pat@, to@),
{
    let mut r: Vec<char> = Vec::new();
    let mut i: usize = 0;
    if pat.len() == 0 {
        while i < s.len()
            invariant
                i <= s.len(),
                r@ == s@.subrange(0, i as int),
            decreases s.len() - i,
        {
            r.push(s[i]);
            i += 1;
            assert(r@ =~= s@.subrange(0, i as int));
        }
        assert(s@.subrange(0, s.len() as int) =~= s@);
        return r;
    }
    assert(s@.subrange(0, s.len() as int) =~= s@);
    assert(r@ + replace_all(s@, pat@, to@) =~= replace_all(s@, pat@, to@));
    while i < s.len()
        invariant
            pat.len() > 0,
            i <= s.len(),
            r@ + replace_all(s@.subrange(i as int, s.len() as int), pat@, to@) == replace_all(
                s@,
                pat@,
                to@,
            ),
        decreases s.len() - i,
    {
        let ghost rest = s@.subrange(i as int, s.len() as int);
        let ghost before = r@;
        if matches_at(s, i, pat) {
            assert(rest.subrange(0, pat.len() as int) =~= s@.subrange(i as int, i + pat.len()));
            assert(rest.subrange(pat.len() as int, rest.len() as int) =~= s@.subrange(
                i + pat.len(),
                s.len() as int,
            ));
            let mut j: usize = 0;
            while j < to.len()
                invariant
                    j <= to.len(),
                    r@ == before + to@.subrange(0, j as int),
                decreases to.len() - j,
            {
                r.push(to[j]);
                j += 1;
                assert(r@ =~= before + to@.subrange(0, j as int));
            }
            assert(to@.subrange(0, to.len() as int) =~= to@);
            i += pat.len();
            assert(r@ + replace_all(s@.subrange(i as int, s.len() as int), pat@, to@) =~= before
                + replace_all(rest, pat@, to@));
        } else {
            proof {
                if pat@.len() <= rest.len() {
                    assert(rest.subrange(0, pat@.len() as int) =~= s@.subrange(
                        i as int,
                        i + pat@.len(),
                    ));
                }
            }
            assert(rest.drop_first() =~= s@.subrange(i + 1, s.len() as int));
            r.push(s[i]);
            i += 1;
            proof {
                if rest.len() < pat@.len() {
                    lemma_replace_all_short(rest, pat@, to@);
                    lemma_replace_all_short(rest.drop_first(), pat@, to@);
                    assert(rest =~= seq![rest[0]] + rest.drop_first());
                }
            }
            assert(r@ + replace_all(s@.subrange(i as int, s.len() as int), pat@, to@) =~= before
                + replace_all(rest, pat@, to@));
        }
    }
    assert(s@.subrange(s.len() as int, s.len() as int) =~= Seq::<char>::empty());
    assert(r@ + Seq::<char>::empty() =~= r@);
    r
}

/// A text shorter than the pattern holds no occurrence of it.
pub proof fn lemma_replace_all_short(s: Seq<char>, pat: Seq<char>, to: Seq<char>)
    requires
        s.len() < pat.len(),
    ensures
        replace_all(s, pat, to) == s,
{
}

/// Replacing a pattern that stands nowhere in a text leaves the text as
/// it is.
pub proof fn lemma_replace_all_absent(s: Seq<char>, pat: Seq<char>, to: Seq<char>)
    requires
        !occurs_in(s, pat),
    ensures
        replace_all(s, pat, to) == s,
    decreases s.len(),
{
    if pat.len() > 0 && s.len() >= pat.len() {
        assert(!occurs_at(s, 0, pat));
        let rest = s.drop_first();
        assert forall|i: int| !occurs_at(rest, i, pat) by {
            if occurs_at(rest, i, pat) {
                assert(s.subrange(i + 1, i + 1 + pat.len()) =~= rest.subrange(i, i + pat.len()));
                assert(occurs_at(s, i + 1, pat));
            }
        }
        lemma_replace_all_absent(rest, pat, to);
        assert(seq![s[0]] + rest =~= s);
    }
}

/// A stretch of text in which the first character of the pattern does not
/// stand is passed over: what follows it is replaced as if it stood alone.
pub proof fn lemma_replace_all_skips(
    skipped: Seq<char>,
    rest: Seq<char>,
    pat: Seq<char>,
    to: Seq<char>,
)
    requires
        pat.len() > 0,
        !skipped.contains(pat[0]),
    ensures
        replace_all(skipped + rest, pat, to) == skipped + replace_all(rest, pat, to),
    decreases skipped.len(),
{
    let s = skipped + rest;
    if skipped.len() == 0 {
        assert(s =~= rest);
        assert(skipped + replace_all(rest, pat, to) =~= replace_all(rest, pat, to));
    } else {
        let shorter = skipped.drop_first();
        assert(s.drop_first() =~= shorter + rest);
        assert forall|c: char| shorter.contains(c) implies skipped.contains(c) by {
            let i = choose|i: int| 0 <= i < shorter.len() && shorter[i] == c;
            assert(skipped[i + 1] == c);
        }
        lemma_replace_all_skips(shorter, rest, pat, to);
        assert(skipped[0] == s[0]);
        assert(skipped.contains(skipped[0]));
        if s.len() < pat.len() {
            lemma_replace_all_short(rest, pat, to);
        } else {
            assert(s.subrange(0, pat.len() as int)[0] == s[0]);
            assert(!occurs_at(s, 0, pat));
            assert(seq![s[0]] + (shorter + replace_all(rest, pat, to)) =~= skipped + replace_all(
                rest,
                pat,
                to,
            ));
        }
    }
}

/// Whether a character is white space, as `char::is_whitespace` tells.
pub uninterp spec fn is_whitespace(c: char) -> bool;

/// Tells whether a character is white space.
///
/// Trusted: `char::is_whitespace` is taken to depend on the character
/// alone. Which characters count is left to it.
#[verifier::external_body]
fn is_whitespace_char(c: char) -> (b: bool)
    ensures
        b == is_whitespace(c),
{
    c.is_whitespace()
}

/// `s` without the white space at its start.
pub open spec fn trim_start(s: Seq<char>) -> Seq<char>
    decreases s.len(),
{
    if s.len() > 0 && is_whitespace(s[0]) {
        trim_start(s.drop_first())
    } else {
        s
    }
}

/// `s` without the white space at its end.
pub open spec fn trim_end(s: Seq<char>) -> Seq<char>
    decreases s.len(),
{
    if s.len() > 0 && is_whitespace(s.last()) {
        trim_end(s.drop_last())
    } else {
        s
    }
}

/// `s` without the white space at its start and at its end.
pub open spec fn trimmed(s: Seq<char>) -> Seq<char> {
    trim_end(trim_start(s))
}

/// The text without the white space at its start and at its end.
pub fn trim(s: &str) -> (r: String)
    ensures
        r@ == trimmed(s@),
{
    let chars = to_chars(s);
    let n = chars.len();
    let mut lo: usize = 0;
    assert(chars@.subrange(0, n as int) =~= chars@);
    while lo < n && is_whitespace_char(chars[lo])
        invariant
            n == chars.len(),
            lo <= n,
            trim_start(chars@) == trim_start(chars@.subrange(lo as int, n as int)),
        decreases n - lo,
    {
        assert(chars@.subrange(lo as int, n as int).drop_first() =~= chars@.subrange(
            lo + 1,
            n as int,
        ));
        lo += 1;
    }
    let ghost front = chars@.subrange(lo as int, n as int);
    assert(trim_start(chars@) == front);
    let mut hi: usize = n;
    assert(front.subrange(0, hi - lo) =~= front);
    while hi > lo && is_whitespace_char(chars[hi - 1])
        invariant
            lo <= hi <= n,
            n == chars.len(),
            front == chars@.subrange(lo as int, n as int),
            trim_end(front) == trim_end(front.subrange(0, hi - lo)),
        decreases hi,
    {
        assert(front.subrange(0, hi - lo).drop_last() =~= front.subrange(0, hi - lo - 1));
        hi -= 1;
    }
    assert(trim_end(front) == front.subrange(0, hi - lo));
    let mut r: Vec<char> = Vec::new();
    let mut i: usize = lo;
    while i < hi
        invariant
            lo <= i <= hi <= n,
            n == chars.len(),
            r@ == chars@.subrange(lo as int, i as int),
        decreases hi - i,
    {
        r.push(chars[i]);
        i += 1;
        assert(r@ =~= chars@.subrange(lo as int, i as int));
    }
    assert(r@ =~= front.subrange(0, hi - lo));
    from_chars(&r)
}

} // verus!
