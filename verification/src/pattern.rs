//! Building blocks for the URL and output patterns: character classes over
//! index ranges, maximal runs, and the `https?://` scheme prefix.
use vstd::prelude::*;
use crate::text::{
    is_alnum, is_digit, is_id_char, is_lower, is_white, white, lit_at, lit_at_exec, str_chars, digit, lower, alnum,
    id_char,
};

verus! {

/// The character classes that the patterns use.
#[derive(Clone, Copy, Debug, PartialEq, Eq)]
pub enum CharClass {
    /// `[0-9]`: the patterns' `\d` read as ASCII digits. Digits of other
    /// scripts, which `\d` also matches in Unicode mode, are not in this
    /// class: youtube-dl and ffmpeg print ASCII digits, and a step number in
    /// another script could not be parsed as an `i32`.
    Digit,
    /// `[a-z]`
    Lower,
    /// `[a-zA-Z0-9]`
    Alnum,
    /// `[a-zA-Z0-9_-]`
    Id,
    /// `.`: every character but a line feed
    NotNewline,
    /// `\s`: white space
    White,
}

pub open spec fn in_class(c: char, k: CharClass) -> bool {
    match k {
        CharClass::Digit => is_digit(c),
        CharClass::Lower => is_lower(c),
        CharClass::Alnum => is_alnum(c),
        CharClass::Id => is_id_char(c),
        CharClass::NotNewline => c != '\n',
        CharClass::White => is_white(c),
    }
}

pub fn class_member(c: char, k: CharClass) -> (r: bool)
    ensures
        r == in_class(c, k),
{
    match k {
        CharClass::Digit => digit(c),
        CharClass::Lower => lower(c),
        CharClass::Alnum => alnum(c),
        CharClass::Id => id_char(c),
        CharClass::NotNewline => c != '\n',
        CharClass::White => white(c),
    }
}

/// Every character of `s[a..b]` is in class `k`.
pub open spec fn all_in(s: Seq<char>, a: int, b: int, k: CharClass) -> bool {
    &&& 0 <= a <= b <= s.len()
    &&& forall|j: int| a <= j < b ==> in_class(#[trigger] s[j], k)
}

/// There is a character at `p`, and it is in class `k`.
pub open spec fn one_in(s: Seq<char>, p: int, k: CharClass) -> bool {
    0 <= p < s.len() && in_class(s[p], k)
}

pub fn one_in_exec(s: &[char], p: usize, k: CharClass) -> (r: bool)
    ensures
        r == one_in(s@, p as int, k),
{
    p < s.len() && class_member(s[p], k)
}

/// `s[a..a+n]` lies in `s` and is all in class `k`.
pub fn all_in_exec(s: &[char], a: usize, n: usize, k: CharClass) -> (r: bool)
    ensures
        r == all_in(s@, a as int, a + n, k),
{
    if a > s.len() || n > s.len() - a {
        return false;
    }
    let mut j: usize = 0;
    while j < n
        invariant
            a + n <= s.len(),
            j <= n,
            forall|t: int| a <= t < a + j ==> in_class(#[trigger] s@[t], k),
        decreases n - j,
    {
        if !class_member(s[a + j], k) {
            return false;
        }
        j = j + 1;
    }
    true
}

/// End of the longest run of class `k` that starts at `p`.
pub fn run_end(s: &[char], p: usize, k: CharClass) -> (e: usize)
    requires
        p <= s@.len(),
    ensures
        p <= e <= s@.len(),
        all_in(s@, p as int, e as int, k),
        e == s@.len() || !in_class(s@[e as int], k),
{
    let mut e = p;
    while e < s.len() && class_member(s[e], k)
        invariant
            p <= e <= s@.len(),
            all_in(s@, p as int, e as int, k),
        decreases s@.len() - e,
    {
        e = e + 1;
    }
    e
}

/// A run of class `k` from `p` that stops at a character outside `k` ends
/// exactly where the longest such run ends.
pub proof fn lemma_run_end_unique(s: Seq<char>, p: int, e: int, q: int, k: CharClass)
    requires
        all_in(s, p, e, k),
        e == s.len() || !in_class(s[e], k),
        all_in(s, p, q, k),
        q < s.len(),
        !in_class(s[q], k),
    ensures
        q == e,
{
    if q < e {
        assert(in_class(s[q], k));
    } else if q > e {
        assert(in_class(s[e], k));
    }
}

/// A run of identifier characters holds no line feed.
pub proof fn lemma_id_run_no_newline(s: Seq<char>, a: int, b: int)
    requires
        all_in(s, a, b, CharClass::Id),
    ensures
        all_in(s, a, b, CharClass::NotNewline),
{
    assert forall|j: int| a <= j < b implies in_class(#[trigger] s[j], CharClass::NotNewline) by {
        assert(in_class(s[j], CharClass::Id));
    }
}

/// Two adjacent ranges of class `k` make one.
pub proof fn lemma_all_in_join(s: Seq<char>, a: int, b: int, c: int, k: CharClass)
    requires
        all_in(s, a, b, k),
        all_in(s, b, c, k),
    ensures
        all_in(s, a, c, k),
{
    assert forall|j: int| a <= j < c implies in_class(#[trigger] s[j], k) by {
        if j < b {
        } else {
        }
    }
}

/// Number of characters of a literal.
pub fn lit_len(lit: &str) -> (n: usize)
    ensures
        n == lit@.len(),
{
    let l = str_chars(lit);
    l.len()
}

/// Position just after the literal, when the literal stands at `i`.
pub fn after_lit(s: &[char], i: usize, lit: &str) -> (r: Option<usize>)
    ensures
        r is Some <==> lit_at(s@, i as int, lit@),
        r matches Some(j) ==> j == i + lit@.len() && j <= s@.len(),
{
    let l = str_chars(lit);
    if lit_at_exec(s, i, l.as_slice()) {
        assert(s@.len() == s.len());
        Some(i + l.len())
    } else {
        None
    }
}

/// End of the longest run of class `k` from `p` (what a greedy `k*` takes).
pub open spec fn max_run(s: Seq<char>, p: int, k: CharClass) -> int
    decreases s.len() - p,
{
    if 0 <= p < s.len() && in_class(s[p], k) {
        max_run(s, p + 1, k)
    } else {
        p
    }
}

/// A run that stops at the end or at a character outside `k` is the longest.
pub proof fn lemma_max_run(s: Seq<char>, p: int, e: int, k: CharClass)
    requires
        all_in(s, p, e, k),
        e == s.len() || !in_class(s[e], k),
    ensures
        max_run(s, p, k) == e,
    decreases e - p,
{
    if p < e {
        lemma_max_run(s, p + 1, e, k);
    }
}

/// `run_end` as `max_run`.
pub fn run_end_max(s: &[char], p: usize, k: CharClass) -> (e: usize)
    requires
        p <= s@.len(),
    ensures
        e == max_run(s@, p as int, k),
        p <= e <= s@.len(),
        all_in(s@, p as int, e as int, k),
{
    let e = run_end(s, p, k);
    proof {
        lemma_max_run(s@, p as int, e as int, k);
    }
    e
}

} // verus!
