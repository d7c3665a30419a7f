//! Character classes and small helpers over the characters of a string.
use vstd::prelude::*;

verus! {

/// Whether a character has Unicode's Alphabetic property.
pub uninterp spec fn alphabetic(c: char) -> bool;

/// Whether a character has Unicode's White_Space property.
pub uninterp spec fn whitespace(c: char) -> bool;

/// Relies on `char::is_alphabetic`: the answer depends on the character alone.
#[verifier::external_body]
pub(crate) fn is_alpha(c: char) -> (r: bool)
    ensures
        r == alphabetic(c),
{
    c.is_alphabetic()
}

/// Relies on `char::is_whitespace`: the answer depends on the character alone.
#[verifier::external_body]
pub(crate) fn is_space(c: char) -> (r: bool)
    ensures
        r == whitespace(c),
{
    c.is_whitespace()
}

/// Relies on `String::push`: appends one character at the end.
#[verifier::external_body]
pub(crate) fn push_char(s: &mut String, c: char)
    ensures
        final(s)@ == old(s)@.push(c),
{
    s.push(c);
}

/// The blank characters skipped before a comment marker: space, tab, CR and LF.
pub open spec fn is_blank(c: char) -> bool {
    c == ' ' || c == '\t' || c == '\r' || c == '\n'
}

/// Whether `c` is a blank character.
pub fn blank(c: char) -> (r: bool)
    ensures
        r == is_blank(c),
{
    c == ' ' || c == '\t' || c == '\r' || c == '\n'
}

/// Whether `t` occurs in `s` starting at index `i`.
pub open spec fn occurs_at(s: Seq<char>, i: int, t: Seq<char>) -> bool {
    0 <= i && i + t.len() <= s.len() && s.subrange(i, i + t.len()) == t
}

/// Whether `t` occurs anywhere in `s` (the empty sequence occurs everywhere).
pub open spec fn contains_seq(s: Seq<char>, t: Seq<char>) -> bool {
    exists|i: int| #[trigger] occurs_at(s, i, t)
}

/// The characters of a string slice, in order.
pub fn chars_of(s: &str) -> (r: Vec<char>)
    ensures
        r@ == s@,
{
    let mut r: Vec<char> = Vec::new();
    for c in it: s.chars()
        invariant
            it.seq() == s@,
            r@ == it.seq().subrange(0, it.index() as int),
    {
        r.push(c);
    }
    r
}

/// A string holding the characters `s[lo..hi]`.
pub fn string_of_range(s: &Vec<char>, lo: usize, hi: usize) -> (r: String)
    requires
        lo <= hi <= s@.len(),
    ensures
        r@ == s@.subrange(lo as int, hi as int),
{
    let mut r = String::new();
    let mut i: usize = lo;
    while i < hi
        invariant
            lo <= i <= hi <= s@.len(),
            r@ == s@.subrange(lo as int, i as int),
        decreases hi - i,
    {
        push_char(&mut r, s[i]);
        assert(s@.subrange(lo as int, i + 1) == s@.subrange(lo as int, i as int).push(s@[i as int]));
        i = i + 1;
    }
    r
}

/// A copy of the characters `s[lo..hi]`.
pub fn copy_range(s: &Vec<char>, lo: usize, hi: usize) -> (r: Vec<char>)
    requires
        lo <= hi <= s@.len(),
    ensures
        r@ == s@.subrange(lo as int, hi as int),
{
    let mut r: Vec<char> = Vec::new();
    let mut i: usize = lo;
    while i < hi
        invariant
            lo <= i <= hi <= s@.len(),
            r@ == s@.subrange(lo as int, i as int),
        decreases hi - i,
    {
        r.push(s[i]);
        assert(s@.subrange(lo as int, i + 1) == s@.subrange(lo as int, i as int).push(s@[i as int]));
        i = i + 1;
    }
    r
}

/// Whether `t` occurs in `s` at index `i`.
pub fn matches_at(s: &Vec<char>, i: usize, t: &Vec<char>) -> (r: bool)
    ensures
        r == occurs_at(s@, i as int, t@),
{
    if i > s.len() || t.len() > s.len() - i {
        return false;
    }
    let n = s.len();
    let mut j: usize = 0;
    while j < t.len()
        invariant
            n == s@.len(),
            i + t@.len() <= s@.len(),
            j <= t@.len(),
            forall|k: int| 0 <= k < j ==> s@[i + k] == t@[k],
        decreases t@.len() - j,
    {
        if s[i + j] != t[j] {
            assert(s@.subrange(i as int, i + t@.len())[j as int] != t@[j as int]);
            return false;
        }
        j = j + 1;
    }
    assert(s@.subrange(i as int, i + t@.len()) == t@);
    true
}

/// Whether `t` occurs anywhere in `s`.
pub fn contains_chars(s: &Vec<char>, t: &Vec<char>) -> (r: bool)
    ensures
        r == contains_seq(s@, t@),
{
    if t.len() > s.len() {
        assert forall|i: int| !occurs_at(s@, i, t@) by {}
        return false;
    }
    let last = s.len() - t.len();
    let mut i: usize = 0;
    while i < last
        invariant
            last == s@.len() - t@.len(),
            i <= last,
            forall|k: int| 0 <= k < i ==> !occurs_at(s@, k, t@),
        decreases last - i,
    {
        if matches_at(s, i, t) {
            return true;
        }
        i = i + 1;
    }
    let r = matches_at(s, last, t);
    assert(!r ==> forall|k: int| !occurs_at(s@, k, t@));
    r
}

} // verus!
