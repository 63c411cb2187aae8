//! What the backend asks the downloader program and how it reads the answers:
//! command lines, file names, progress, playlist ids and error classes.
//! Where a pattern has `\d`, it is read as an ASCII digit (`CharClass::Digit`).
use vstd::prelude::*;
use crate::text::{
    str_chars, string_from_chars, slice_string, slice_chars, lit_at, lit_at_exec, trim, trim_chars,
    contains_seq, str_contains, push_all,
};
use crate::common::{Error, sanitized, sanitize_chars};
use crate::config::ConfigGen;
use crate::text::{nat_dec, int_dec, u64_chars, i64_chars};
use vstd::utf8::{valid_utf8, decode_utf8};
use crate::pattern::{
    CharClass, in_class, all_in, one_in, class_member, run_end, lemma_run_end_unique,
};

verus! {

broadcast use vstd::string::group_string_axioms;

/// A file name split into its stem and extension.
#[derive(Debug)]
pub struct Filename {
    pub name: String,
    pub extension: String,
}

impl Filename {
    /// `name.extension`
    pub open spec fn full_name_spec(&self) -> Seq<char> {
        self.name@ + seq!['.'] + self.extension@
    }

    pub fn full_name(&self) -> (r: String)
        ensures
            r@ == self.full_name_spec(),
    {
        let mut v = str_chars(self.name.as_str());
        v.push('.');
        let e = str_chars(self.extension.as_str());
        let ghost before = v@;
        let mut k: usize = 0;
        while k < e.len()
            invariant
                k <= e@.len(),
                v@ == before + e@.take(k as int),
            decreases e@.len() - k,
        {
            v.push(e[k]);
            assert(v@ =~= before + e@.take(k + 1));
            k = k + 1;
        }
        assert(e@.take(e@.len() as int) =~= e@);
        string_from_chars(v.as_slice())
    }
}


// ---------------------------------------------------------------------------
// `(.*)\.([a-zA-Z0-9]+)\z`: a file name and its extension
// ---------------------------------------------------------------------------

/// The name pattern matches from `i` with its `.` at `d`: no line feed in
/// `s[i..d]`, and only `[a-zA-Z0-9]`, at least one, after the dot to the end.
pub open spec fn name_match_at(s: Seq<char>, i: int, d: int) -> bool {
    &&& 0 <= i <= d
    &&& d + 1 < s.len()
    &&& all_in(s, i, d, CharClass::NotNewline)
    &&& s[d] == '.'
    &&& all_in(s, d + 1, s.len() as int, CharClass::Alnum)
}

/// The match that the pattern reports: the leftmost start, and for it the
/// longest `.*`.
pub open spec fn name_match_first(s: Seq<char>, i: int, d: int) -> bool {
    &&& name_match_at(s, i, d)
    &&& forall|i2: int, d2: int| #[trigger]
        name_match_at(s, i2, d2) ==> i <= i2 && (i2 == i ==> d2 <= d)
}

pub open spec fn name_matches(s: Seq<char>) -> bool {
    exists|i: int, d: int| #[trigger] name_match_at(s, i, d)
}

/// The captures of the name pattern: the name (group 1) and the extension
/// (group 2), or `None` where the pattern does not match.
pub fn parse_name(s: &[char]) -> (r: Option<(usize, usize)>)
    ensures
        r is None <==> !name_matches(s@),
        r matches Some((i, d)) ==> name_match_first(s@, i as int, d as int),
{
    let n = s.len();
    let mut e: usize = n;
    while e > 0 && class_member(s[e - 1], CharClass::Alnum)
        invariant
            e <= n == s@.len(),
            all_in(s@, e as int, n as int, CharClass::Alnum),
        decreases e,
    {
        e = e - 1;
    }
    // Any match has its dot just before the alnum suffix.
    assert forall|i2: int, d2: int| #[trigger] name_match_at(s@, i2, d2) implies d2 + 1 == e by {
        if d2 + 1 < e {
            assert(in_class(s@[e - 1], CharClass::Alnum));
        } else if d2 + 1 > e {
            assert(in_class(s@[d2], CharClass::Alnum));
        }
    }
    if e == n || e == 0 || s[e - 1] != '.' {
        return None;
    }
    let d = e - 1;
    let mut i: usize = d;
    while i > 0 && s[i - 1] != '\n'
        invariant
            i <= d < n == s@.len(),
            all_in(s@, i as int, d as int, CharClass::NotNewline),
        decreases i,
    {
        i = i - 1;
    }
    assert(name_match_at(s@, i as int, d as int));
    assert forall|i2: int, d2: int| #[trigger] name_match_at(s@, i2, d2) implies i <= i2 && (i2
        == i ==> d2 <= d) by {
        if i2 < i {
            assert(in_class(s@[i - 1], CharClass::NotNewline));
        }
    }
    Some((i, d))
}

/// The file name that a name-pattern match in `s` captures.
pub fn filename_from_match(s: &[char], i: usize, d: usize) -> (r: Filename)
    requires
        name_match_at(s@, i as int, d as int),
    ensures
        r.name@ == s@.subrange(i as int, d as int),
        r.extension@ == s@.subrange(d + 1, s@.len() as int),
{
    assert(s@.len() == s.len());
    Filename { name: slice_string(s, i, d), extension: slice_string(s, d + 1, s.len()) }
}

/// The name pattern's captures in `s`, as a file name.
pub fn capture_name(s: &str) -> (r: Option<Filename>)
    ensures
        r is None <==> !name_matches(s@),
        r matches Some(f) ==> exists|i: int, d: int|
            name_match_first(s@, i, d) && f.name@ == s@.subrange(i, d) && f.extension@
                == s@.subrange(d + 1, s@.len() as int),
{
    let v = str_chars(s);
    match parse_name(v.as_slice()) {
        None => None,
        Some((i, d)) => {
            let f = filename_from_match(v.as_slice(), i, d);
            assert(name_match_first(s@, i as int, d as int));
            Some(f)
        },
    }
}

/// A name-pattern match is unique once the leftmost-longest rule has picked it.
pub proof fn lemma_name_match_first_unique(s: Seq<char>, i: int, d: int, i2: int, d2: int)
    requires
        name_match_first(s, i, d),
        name_match_first(s, i2, d2),
    ensures
        i == i2 && d == d2,
{
    assert(name_match_at(s, i2, d2));
    assert(name_match_at(s, i, d));
}

/// Reading a full name back: for a name without line feeds and a non-empty
/// `[a-zA-Z0-9]` extension, the name pattern on `name.extension` captures
/// exactly `name` and `extension`.
pub proof fn lemma_full_name_roundtrip(name: Seq<char>, ext: Seq<char>)
    requires
        all_in(name, 0, name.len() as int, CharClass::NotNewline),
        ext.len() >= 1,
        all_in(ext, 0, ext.len() as int, CharClass::Alnum),
    ensures
        name_match_first(name + seq!['.'] + ext, 0, name.len() as int),
        forall|i: int, d: int|
            name_match_first(name + seq!['.'] + ext, i, d) ==> i == 0 && d == name.len(),
        (name + seq!['.'] + ext).subrange(0, name.len() as int) == name,
        (name + seq!['.'] + ext).subrange(name.len() + 1int, (name + seq!['.'] + ext).len() as int)
            == ext,
{
    let s = name + seq!['.'] + ext;
    let d = name.len() as int;
    assert(s[d] == '.');
    assert forall|j: int| 0 <= j < d implies in_class(#[trigger] s[j], CharClass::NotNewline) by {
        assert(s[j] == name[j]);
    }
    assert forall|j: int| d + 1 <= j < s.len() implies in_class(#[trigger] s[j], CharClass::Alnum) by {
        assert(s[j] == ext[j - d - 1]);
        assert(in_class(ext[j - d - 1], CharClass::Alnum));
    }
    assert(name_match_at(s, 0, d));
    assert forall|i2: int, d2: int| #[trigger] name_match_at(s, i2, d2) implies 0 <= i2 && (i2 == 0
        ==> d2 <= d) by {
        if d2 > d {
            assert(in_class(s[d2], CharClass::Alnum));
        }
    }
    assert forall|i: int, d2: int| name_match_first(s, i, d2) implies i == 0 && d2 == d by {
        lemma_name_match_first_unique(s, i, d2, 0, d);
    }
    assert(s.subrange(0, d) =~= name);
    assert(s.subrange(d + 1, s.len() as int) =~= ext);
}

// ---------------------------------------------------------------------------
// `(\d+\.\d)%`: download progress
// ---------------------------------------------------------------------------

/// The progress pattern matches from `i` with `m` digits before the dot.
pub open spec fn progress_match(s: Seq<char>, i: int, m: int) -> bool {
    &&& m >= 1
    &&& all_in(s, i, i + m, CharClass::Digit)
    &&& i + m + 2 < s.len()
    &&& s[i + m] == '.'
    &&& in_class(s[i + m + 1], CharClass::Digit)
    &&& s[i + m + 2] == '%'
}

/// youtube-dl's progress line: after text without digits, the percentage
/// `{digits}.{digit}%` is the leftmost and longest progress match, so the
/// progress captured is exactly `{digits}.{digit}`.
pub proof fn lemma_progress_line(pre: Seq<char>, d: Seq<char>, f: char, post: Seq<char>)
    requires
        forall|j: int| 0 <= j < pre.len() ==> !in_class(#[trigger] pre[j], CharClass::Digit),
        d.len() >= 1,
        all_in(d, 0, d.len() as int, CharClass::Digit),
        in_class(f, CharClass::Digit),
    ensures
        ({
            let s = pre + d + seq!['.', f, '%'] + post;
            let p = pre.len() as int;
            let m = d.len() as int;
            &&& progress_match(s, p, m)
            &&& forall|i2: int, m2: int| #[trigger]
                progress_match(s, i2, m2) ==> p <= i2 && (i2 == p ==> m2 <= m)
            &&& s.subrange(p, p + m + 2) == d + seq!['.', f]
        }),
{
    let s = pre + d + seq!['.', f, '%'] + post;
    let p = pre.len() as int;
    let m = d.len() as int;
    assert forall|j: int| p <= j < p + m implies in_class(#[trigger] s[j], CharClass::Digit) by {
        assert(s[j] == d[j - p]);
    }
    assert(s[p + m] == '.');
    assert(s[p + m + 1] == f);
    assert(s[p + m + 2] == '%');
    assert(progress_match(s, p, m));
    assert forall|i2: int, m2: int| #[trigger] progress_match(s, i2, m2) implies p <= i2 && (i2 == p
        ==> m2 <= m) by {
        if i2 < p {
            assert(in_class(s[i2], CharClass::Digit));
            assert(s[i2] == pre[i2]);
        }
        if i2 == p && m2 > m {
            assert(in_class(s[p + m], CharClass::Digit));
        }
    }
    assert(s.subrange(p, p + m + 2) =~= d + seq!['.', f]);
}

/// The progress percentage (group 1 of the leftmost match), if any.
pub fn progress_capture(line: &str) -> (r: Option<String>)
    ensures
        r is None <==> !exists|i: int, m: int| #[trigger] progress_match(line@, i, m),
        r matches Some(c) ==> exists|i: int, m: int|
            {
                &&& #[trigger] progress_match(line@, i, m)
                &&& c@ == line@.subrange(i, i + m + 2)
                &&& forall|i2: int, m2: int| #[trigger]
                    progress_match(line@, i2, m2) ==> i <= i2 && (i2 == i ==> m2 <= m)
            },
{
    let s = str_chars(line);
    let n = s.len();
    let mut i: usize = 0;
    while i < n
        invariant
            i <= n == s@.len(),
            s@ == line@,
            forall|i2: int, m2: int| 0 <= i2 < i ==> !#[trigger] progress_match(s@, i2, m2),
        decreases n - i,
    {
        let e = run_end(s.as_slice(), i, CharClass::Digit);
        let found = e > i && e < n && n - e > 2 && s[e] == '.' && class_member(s[e + 1], CharClass::Digit)
            && s[e + 2] == '%';
        assert forall|m2: int| #[trigger] progress_match(s@, i as int, m2) implies found && m2 == e
            - i by {
            lemma_run_end_unique(s@, i as int, e as int, i + m2, CharClass::Digit);
        }
        if found {
            assert(progress_match(s@, i as int, e - i));
            let c = slice_string(s.as_slice(), i, e + 2);
            assert forall|i2: int, m2: int| #[trigger] progress_match(s@, i2, m2) implies i <= i2
                && (i2 == i ==> m2 <= e - i) by {
                if i2 == i {
                    lemma_run_end_unique(s@, i as int, e as int, i + m2, CharClass::Digit);
                }
            }
            return Some(c);
        }
        i = i + 1;
    }
    assert forall|i2: int, m2: int| !#[trigger] progress_match(s@, i2, m2) by {
        if 0 <= i2 < i {
        }
    }
    None
}

// ---------------------------------------------------------------------------
// `"url": "([a-zA-Z0-9_-]+)"`: playlist entries
// ---------------------------------------------------------------------------

/// The entry pattern matches from `i` with an id of `m` characters.
pub open spec fn entry_match(s: Seq<char>, i: int, m: int) -> bool {
    let p = i + "\"url\": \""@.len();
    &&& lit_at(s, i, "\"url\": \""@)
    &&& m >= 1
    &&& all_in(s, p, p + m, CharClass::Id)
    &&& lit_at(s, p + m, "\""@)
}

/// The leftmost entry match, with its longest id.
pub open spec fn entry_first(s: Seq<char>, i: int, m: int) -> bool {
    &&& entry_match(s, i, m)
    &&& forall|i2: int, m2: int| #[trigger]
        entry_match(s, i2, m2) ==> i <= i2 && (i2 == i ==> m2 <= m)
}

/// The id that the entry pattern captures in `s`, if it matches.
pub open spec fn entry_capture(s: Seq<char>) -> Option<Seq<char>> {
    if exists|i: int, m: int| #[trigger] entry_first(s, i, m) {
        let (i, m) = choose|i: int, m: int| #[trigger] entry_first(s, i, m);
        Some(s.subrange(i + "\"url\": \""@.len(), i + "\"url\": \""@.len() + m))
    } else {
        None
    }
}

/// The id (group 1) of the leftmost entry match, if any.
pub fn extract_playlist_id(line: &str) -> (r: Option<String>)
    ensures
        r is None <==> !exists|i: int, m: int| #[trigger] entry_match(line@, i, m),
        r is None ==> entry_capture(line@) is None,
        r matches Some(c) ==> entry_capture(line@) == Some(c@),
{
    proof {
        reveal_strlit("\"");
    }
    let s = str_chars(line);
    let pre = str_chars("\"url\": \"");
    let quote = str_chars("\"");
    let n = s.len();
    let mut i: usize = 0;
    while i < n
        invariant
            i <= n == s@.len(),
            s@ == line@,
            pre@ == "\"url\": \""@,
            quote@ == "\""@,
            quote@ == seq!['"'],
            forall|i2: int, m2: int| 0 <= i2 < i ==> !#[trigger] entry_match(s@, i2, m2),
        decreases n - i,
    {
        if lit_at_exec(s.as_slice(), i, pre.as_slice()) {
            let p = i + pre.len();
            let e = run_end(s.as_slice(), p, CharClass::Id);
            let found = e > p && lit_at_exec(s.as_slice(), e, quote.as_slice());
            assert forall|m2: int| #[trigger] entry_match(s@, i as int, m2) implies found && m2 == e
                - p by {
                assert(s@.subrange(p + m2, p + m2 + 1)[0] == s@[p + m2]);
                lemma_run_end_unique(s@, p as int, e as int, p + m2, CharClass::Id);
            }
            if found {
                assert(entry_match(s@, i as int, e - p));
                let c = slice_string(s.as_slice(), p, e);
                assert forall|i2: int, m2: int| #[trigger] entry_match(s@, i2, m2) implies i <= i2
                    && (i2 == i ==> m2 <= e - p) by {
                    if i2 == i {
                        assert(s@.subrange(p + m2, p + m2 + 1)[0] == s@[p + m2]);
                        lemma_run_end_unique(s@, p as int, e as int, p + m2, CharClass::Id);
                    }
                }
                assert(entry_first(s@, i as int, e - p));
                proof {
                    let (i3, m3) = choose|i3: int, m3: int| #[trigger] entry_first(s@, i3, m3);
                    assert(entry_match(s@, i3, m3));
                    assert(entry_match(s@, i as int, e - p));
                    assert(i3 == i && m3 == e - p);
                }
                return Some(c);
            }
        }
        i = i + 1;
    }
    assert forall|i2: int, m2: int| !#[trigger] entry_match(s@, i2, m2) by {
        if 0 <= i2 < i {
        }
    }
    assert forall|i2: int, m2: int| !#[trigger] entry_first(s@, i2, m2) by {
        assert(!entry_match(s@, i2, m2));
    }
    None
}

// ---------------------------------------------------------------------------
// `\[download\] Downloading playlist: (.*)`: the playlist's name
// ---------------------------------------------------------------------------

/// The playlist-name pattern matches from `i`, its `.*` ending at `e`.
pub open spec fn playlist_name_match(s: Seq<char>, i: int, e: int) -> bool {
    let p = i + "[download] Downloading playlist: "@.len();
    &&& lit_at(s, i, "[download] Downloading playlist: "@)
    &&& all_in(s, p, e, CharClass::NotNewline)
    &&& (e == s.len() || s[e] == '\n')
}

/// The leftmost playlist-name match, with its longest `.*`.
pub open spec fn playlist_name_first(s: Seq<char>, i: int, e: int) -> bool {
    &&& playlist_name_match(s, i, e)
    &&& forall|i2: int, e2: int| #[trigger]
        playlist_name_match(s, i2, e2) ==> i <= i2 && (i2 == i ==> e2 <= e)
}

/// The name that the playlist-name pattern captures in `s`, if it matches.
pub open spec fn playlist_name_capture(s: Seq<char>) -> Option<Seq<char>> {
    if exists|i: int, e: int| #[trigger] playlist_name_first(s, i, e) {
        let (i, e) = choose|i: int, e: int| #[trigger] playlist_name_first(s, i, e);
        Some(s.subrange(i + "[download] Downloading playlist: "@.len(), e))
    } else {
        None
    }
}

/// The playlist name (group 1 of the leftmost match), if any.
pub fn extract_playlist_name(line: &str) -> (r: Option<String>)
    ensures
        r is None <==> !exists|i: int, e: int| #[trigger] playlist_name_match(line@, i, e),
        r matches Some(c) ==> exists|i: int, e: int|
            {
                &&& #[trigger] playlist_name_match(line@, i, e)
                &&& c@ == line@.subrange(i + "[download] Downloading playlist: "@.len(), e)
                &&& forall|i2: int, e2: int| #[trigger]
                    playlist_name_match(line@, i2, e2) ==> i <= i2 && (i2 == i ==> e2 <= e)
            },
        r is None ==> playlist_name_capture(line@) is None,
        r matches Some(c) ==> playlist_name_capture(line@) == Some(c@),
{
    proof {
        reveal_strlit("[download] Downloading playlist: ");
    }
    let s = str_chars(line);
    let pre = str_chars("[download] Downloading playlist: ");
    let n = s.len();
    let mut i: usize = 0;
    while i < n
        invariant
            i <= n == s@.len(),
            s@ == line@,
            pre@ == "[download] Downloading playlist: "@,
            pre@.len() > 0,
            forall|i2: int, e2: int| 0 <= i2 < i ==> !#[trigger] playlist_name_match(s@, i2, e2),
        decreases n - i,
    {
        if lit_at_exec(s.as_slice(), i, pre.as_slice()) {
            let p = i + pre.len();
            let e = run_end(s.as_slice(), p, CharClass::NotNewline);
            assert(playlist_name_match(s@, i as int, e as int));
            assert forall|i2: int, e2: int| #[trigger] playlist_name_match(s@, i2, e2) implies i
                <= i2 && (i2 == i ==> e2 <= e) by {
                if i2 == i && e2 > e {
                    assert(in_class(s@[e as int], CharClass::NotNewline));
                }
            }
            assert(playlist_name_first(s@, i as int, e as int));
            proof {
                let (i3, e3) = choose|i3: int, e3: int| #[trigger] playlist_name_first(s@, i3, e3);
                assert(playlist_name_match(s@, i3, e3));
                assert(playlist_name_match(s@, i as int, e as int));
                assert(i3 == i && e3 == e);
            }
            return Some(slice_string(s.as_slice(), p, e));
        }
        assert forall|e2: int| !#[trigger] playlist_name_match(s@, i as int, e2) by {}
        i = i + 1;
    }
    assert forall|i2: int, e2: int| !#[trigger] playlist_name_match(s@, i2, e2) by {
        if 0 <= i2 < i {
        }
    }
    assert forall|i2: int, e2: int| !#[trigger] playlist_name_first(s@, i2, e2) by {
        assert(!playlist_name_match(s@, i2, e2));
    }
    None
}

// ---------------------------------------------------------------------------
// `step (\d)`: progress of the external lib
// ---------------------------------------------------------------------------

pub open spec fn step_match(s: Seq<char>, i: int) -> bool {
    lit_at(s, i, "step "@) && one_in(s, i + "step "@.len(), CharClass::Digit)
}

/// `v` is the digit of the leftmost `step (\d)` match in `s`.
pub open spec fn step_reported(s: Seq<char>, v: i32) -> bool {
    exists|i: int|
        {
            &&& #[trigger] step_match(s, i)
            &&& v == s[i + "step "@.len()] as int - 48
            &&& forall|i2: int| #[trigger] step_match(s, i2) ==> i <= i2
        }
}

/// The step number that the leftmost `step (\d)` match in `line` reports.
pub fn parse_step_line(line: &str) -> (r: Option<i32>)
    ensures
        r is None <==> !exists|i: int| #[trigger] step_match(line@, i),
        r matches Some(v) ==> step_reported(line@, v),
{
    let s = str_chars(line);
    let pre = str_chars("step ");
    let n = s.len();
    let mut i: usize = 0;
    while i < n
        invariant
            i <= n == s@.len(),
            s@ == line@,
            pre@ == "step "@,
            forall|i2: int| 0 <= i2 < i ==> !#[trigger] step_match(s@, i2),
        decreases n - i,
    {
        if lit_at_exec(s.as_slice(), i, pre.as_slice()) {
            let p = i + pre.len();
            if p < n && class_member(s[p], CharClass::Digit) {
                let c = s[p];
                let v: i32 = if c == '0' {
                    0
                } else if c == '1' {
                    1
                } else if c == '2' {
                    2
                } else if c == '3' {
                    3
                } else if c == '4' {
                    4
                } else if c == '5' {
                    5
                } else if c == '6' {
                    6
                } else if c == '7' {
                    7
                } else if c == '8' {
                    8
                } else {
                    9
                };
                assert(step_match(s@, i as int));
                return Some(v);
            }
        }
        i = i + 1;
    }
    assert forall|i2: int| !#[trigger] step_match(s@, i2) by {
        if 0 <= i2 < i {
        }
    }
    None
}

// ---------------------------------------------------------------------------
// The external lib's report of the file it saved
// ---------------------------------------------------------------------------

/// Index of the first occurrence of `lit` in `s`.
pub open spec fn first_at(s: Seq<char>, lit: Seq<char>, k: int) -> bool {
    lit_at(s, k, lit) && forall|k2: int| 0 <= k2 < k ==> !#[trigger] lit_at(s, k2, lit)
}

/// What the lib's last line names, after `filename: ` (counted from its
/// ninth character), trimmed and sanitized.
pub open spec fn lib_reported_name(s: Seq<char>, k: int) -> Seq<char> {
    sanitized(trim(s.skip(k + 9)))
}

/// The file name that the lib reports in its last output line: the text after
/// the first `filename: `, trimmed, sanitized and split by the name pattern.
pub fn lib_output_name(last_line: &str) -> (r: Result<Filename, Error>)
    requires
        contains_seq(last_line@, "filename: "@),
    ensures
        exists|k: int|
            {
                &&& #[trigger] first_at(last_line@, "filename: "@, k)
                &&& {
                    let out = lib_reported_name(last_line@, k);
                    &&& name_matches(out) ==> (r matches Ok(f) && exists|i: int, d: int|
                        name_match_first(out, i, d) && f.name@ == out.subrange(i, d)
                            && f.extension@ == out.subrange(d + 1, out.len() as int))
                    &&& !name_matches(out) ==> (r matches Err(Error::InternalError(m)) && m@
                        == "no name match! "@ + out)
                }
            },
{
    proof {
        reveal_strlit("filename: ");
    }
    let s = str_chars(last_line);
    let pat = str_chars("filename: ");
    let n = s.len();
    let mut k: usize = 0;
    while !lit_at_exec(s.as_slice(), k, pat.as_slice())
        invariant
            k <= n == s@.len(),
            s@ == last_line@,
            pat@ == "filename: "@,
            pat@.len() == 10,
            contains_seq(s@, pat@),
            forall|k2: int| 0 <= k2 < k ==> !#[trigger] lit_at(s@, k2, pat@),
        decreases n - k,
    {
        assert(k < n) by {
            let w = choose|w: int| lit_at(s@, w, pat@);
            assert(w >= k);
        }
        k = k + 1;
    }
    assert(first_at(s@, pat@, k as int));
    let rest = slice_chars(s.as_slice(), k + 9, n);
    assert(rest@ =~= s@.skip(k + 9));
    let t = trim_chars(rest.as_slice());
    let out = sanitize_chars(t.as_slice());
    match parse_name(out.as_slice()) {
        Some((i, d)) => {
            let f = filename_from_match(out.as_slice(), i, d);
            Ok(f)
        },
        None => {
            let mut msg = str_chars("no name match! ");
            push_all(&mut msg, out.as_slice());
            Err(Error::InternalError(string_from_chars(msg.as_slice())))
        },
    }
}

/// One output line of the external lib: a step line reports its step; any
/// other line becomes the last plain line, which names the saved file once
/// the lib is done.
pub fn lib_output_line(last_line: &mut String, line: &str) -> (r: Option<i32>)
    ensures
        r is None <==> !exists|i: int| #[trigger] step_match(line@, i),
        r matches Some(v) ==> step_reported(line@, v) && final(last_line)@ == old(last_line)@,
        r is None ==> final(last_line)@ == line@,
{
    let step = parse_step_line(line);
    if step.is_none() {
        *last_line = line.to_string();
    }
    step
}

/// The end of an external lib run: its error output as an internal error
/// when there is any, else the file that its last plain line names.
pub fn lib_outcome(last_line: &str, stderr: &str) -> (r: Result<Filename, Error>)
    requires
        stderr@.len() == 0 ==> contains_seq(last_line@, "filename: "@),
    ensures
        stderr@.len() != 0 ==> (r matches Err(Error::InternalError(m)) && m@ == stderr@),
        stderr@.len() == 0 ==> exists|k: int|
            {
                &&& #[trigger] first_at(last_line@, "filename: "@, k)
                &&& {
                    let out = lib_reported_name(last_line@, k);
                    &&& name_matches(out) ==> (r matches Ok(f) && exists|i: int, d: int|
                        name_match_first(out, i, d) && f.name@ == out.subrange(i, d)
                            && f.extension@ == out.subrange(d + 1, out.len() as int))
                    &&& !name_matches(out) ==> (r matches Err(Error::InternalError(m)) && m@
                        == "no name match! "@ + out)
                }
            },
{
    if !stderr.is_empty() {
        return Err(Error::InternalError(stderr.to_string()));
    }
    lib_output_name(last_line)
}

// ---------------------------------------------------------------------------
// Reading the downloader's error output
// ---------------------------------------------------------------------------

/// Classifies the error output of a download run.
pub fn classify_download_stderr(stderr: &str) -> (r: Result<bool, Error>)
    ensures
        stderr@.len() == 0 ==> r == Ok::<bool, Error>(true),
        stderr@.len() != 0 && contains_seq(stderr@, "requested format not available"@) ==> r
            matches Err(Error::QualityNotAvailable),
        stderr@.len() != 0 && !contains_seq(stderr@, "requested format not available"@)
            && contains_seq(stderr@, "ExtractorError"@) ==> r matches Err(Error::ExtractorError),
        stderr@.len() != 0 && !contains_seq(stderr@, "requested format not available"@)
            && !contains_seq(stderr@, "ExtractorError"@) ==> (r matches Err(Error::InternalError(m))
            && m@ == stderr@),
{
    if stderr.is_empty() {
        Ok(true)
    } else if str_contains(stderr, "requested format not available") {
        Err(Error::QualityNotAvailable)
    } else if str_contains(stderr, "ExtractorError") {
        Err(Error::ExtractorError)
    } else {
        Err(Error::InternalError(stderr.to_string()))
    }
}

/// The end of one attempt of a retried step.
pub enum Attempt<T> {
    /// The step is over, with this result
    Done(Result<T, Error>),
    /// The downloader hit its random extractor failure; try again
    Retry,
}

/// A download attempt's result: extractor failures are retried, everything
/// else ends the download.
pub fn download_attempt(result: Result<bool, Error>) -> (r: Attempt<bool>)
    ensures
        (result matches Err(Error::ExtractorError)) ==> r is Retry,
        !(result matches Err(Error::ExtractorError)) ==> r == Attempt::Done(result),
{
    match result {
        Err(Error::ExtractorError) => Attempt::Retry,
        other => Attempt::Done(other),
    }
}

/// The error output means that the video is blocked in this region.
pub open spec fn dmca_message(stderr: Seq<char>) -> bool {
    ||| contains_seq(stderr, "not available in your country"@)
    ||| contains_seq(stderr, "contains content from"@)
    ||| contains_seq(stderr, "This video is available in"@)
}

/// Each of the three region-block messages that youtube-dl prints marks a
/// region block, wherever it stands in the error output: a file-name
/// attempt that read no name then ends with `DMCAError`.
pub proof fn lemma_region_block_messages(pre: Seq<char>, post: Seq<char>)
    ensures
        dmca_message(pre + "not available in your country"@ + post),
        dmca_message(pre + "contains content from"@ + post),
        dmca_message(pre + "This video is available in"@ + post),
{
    let a = "not available in your country"@;
    let b = "contains content from"@;
    let c = "This video is available in"@;
    assert((pre + a + post).subrange(pre.len() as int, (pre.len() + a.len()) as int) =~= a);
    assert((pre + b + post).subrange(pre.len() as int, (pre.len() + b.len()) as int) =~= b);
    assert((pre + c + post).subrange(pre.len() as int, (pre.len() + c.len()) as int) =~= c);
    assert(lit_at(pre + a + post, pre.len() as int, a));
    assert(lit_at(pre + b + post, pre.len() as int, b));
    assert(lit_at(pre + c + post, pre.len() as int, c));
}

/// One attempt of reading a video's file name: the trimmed output split by
/// the name pattern when nothing was written to the error output; otherwise
/// the known messages decide, and extractor failures are retried.
pub fn filename_attempt(stdout: &str, stderr: &str) -> (r: Attempt<Filename>)
    ensures
        stderr@.len() == 0 && name_matches(trim(stdout@)) ==> (r matches Attempt::Done(Ok(f))
            && exists|i: int, d: int|
            name_match_first(trim(stdout@), i, d) && f.name@ == trim(stdout@).subrange(i, d)
                && f.extension@ == trim(stdout@).subrange(d + 1, trim(stdout@).len() as int)),
        !(stderr@.len() == 0 && name_matches(trim(stdout@))) ==> {
            if dmca_message(stderr@) {
                r matches Attempt::Done(Err(Error::DMCAError))
            } else if contains_seq(stderr@, "Please sign in to view this video"@) {
                r matches Attempt::Done(Err(Error::NotAvailable))
            } else if contains_seq(stderr@, "ExtractorError"@) {
                r is Retry
            } else {
                r matches Attempt::Done(Err(Error::DownloadError(m))) && m@ == stderr@
            }
        },
{
    let out = str_chars(stdout);
    let trimmed = trim_chars(out.as_slice());
    let capture = parse_name(trimmed.as_slice());
    if stderr.is_empty() {
        if let Some((i, d)) = capture {
            let f = filename_from_match(trimmed.as_slice(), i, d);
            return Attempt::Done(Ok(f));
        }
    }
    if str_contains(stderr, "not available in your country") || str_contains(
        stderr,
        "contains content from",
    ) || str_contains(stderr, "This video is available in") {
        Attempt::Done(Err(Error::DMCAError))
    } else if str_contains(stderr, "Please sign in to view this video") {
        Attempt::Done(Err(Error::NotAvailable))
    } else if str_contains(stderr, "ExtractorError") {
        Attempt::Retry
    } else {
        Attempt::Done(Err(Error::DownloadError(stderr.to_string())))
    }
}

/// How often a download that hits the extractor failure is run.
pub const DOWNLOAD_ATTEMPTS: u32 = 2;

/// How often the file-name query is run when it hits the extractor failure:
/// one try and two retries.
pub const FILENAME_ATTEMPTS: u32 = 3;

/// Counts the attempts of a retried step, out of `max`.
pub struct Retry {
    pub tries: u32,
    pub max: u32,
}

impl Retry {
    /// No attempt made yet, `max` allowed.
    pub fn new(max: u32) -> (r: Retry)
        ensures
            r.tries == 0,
            r.max == max,
    {
        Retry { tries: 0, max }
    }

    /// Records one more attempt. `Some` ends the step with that result: the
    /// attempt's own, or `ExtractorError` once every attempt asked for a
    /// retry. `None` asks for another attempt.
    pub fn step<T>(&mut self, outcome: Attempt<T>) -> (r: Option<Result<T, Error>>)
        requires
            old(self).tries < old(self).max,
        ensures
            final(self).tries == old(self).tries + 1,
            final(self).max == old(self).max,
            outcome matches Attempt::Done(x) ==> r == Some(x),
            outcome is Retry && final(self).tries < final(self).max ==> r is None,
            outcome is Retry && final(self).tries == final(self).max ==> r matches Some(
                Err(Error::ExtractorError),
            ),
    {
        self.tries = self.tries + 1;
        match outcome {
            Attempt::Done(x) => Some(x),
            Attempt::Retry => {
                if self.tries < self.max {
                    None
                } else {
                    Some(Err(Error::ExtractorError))
                }
            },
        }
    }
}

/// The ids that the entry pattern captures in the lines, in order; lines
/// without an entry contribute nothing.
pub open spec fn ids_of(lines: Seq<Seq<char>>) -> Seq<Seq<char>>
    decreases lines.len(),
{
    if lines.len() == 0 {
        Seq::empty()
    } else {
        match entry_capture(lines.last()) {
            Some(c) => ids_of(lines.drop_last()).push(c),
            None => ids_of(lines.drop_last()),
        }
    }
}

pub open spec fn string_views(v: Seq<String>) -> Seq<Seq<char>> {
    v.map_values(|x: String| x@)
}

/// The playlist ids named by the listing's output lines, in order, or the
/// error output as an internal error.
pub fn collect_playlist_ids(lines: &Vec<String>, stderr: &str) -> (r: Result<Vec<String>, Error>)
    ensures
        stderr@.len() != 0 ==> (r matches Err(Error::InternalError(m)) && m@ == stderr@),
        stderr@.len() == 0 ==> (r matches Ok(ids) && string_views(ids@) == ids_of(
            string_views(lines@),
        )),
{
    let ghost lv = string_views(lines@);
    let mut ids: Vec<String> = Vec::new();
    let mut k: usize = 0;
    while k < lines.len()
        invariant
            k <= lines@.len(),
            lv == string_views(lines@),
            string_views(ids@) == ids_of(lv.take(k as int)),
        decreases lines@.len() - k,
    {
        assert(lv.take(k + 1).drop_last() =~= lv.take(k as int));
        assert(lv.take(k + 1).last() == lines@[k as int]@);
        match extract_playlist_id(lines[k].as_str()) {
            Some(id) => {
                let ghost before = ids@;
                ids.push(id);
                assert(string_views(ids@) =~= string_views(before).push(id@));
            },
            None => {},
        }
        assert(string_views(ids@) =~= ids_of(lv.take(k + 1)));
        k = k + 1;
    }
    assert(lv.take(lines@.len() as int) =~= lv);
    if !stderr.is_empty() {
        return Err(Error::InternalError(stderr.to_string()));
    }
    Ok(ids)
}

/// The name that the first line with a playlist-name match captures.
pub open spec fn first_playlist_name(lines: Seq<Seq<char>>) -> Option<Seq<char>>
    decreases lines.len(),
{
    if lines.len() == 0 {
        None
    } else if playlist_name_capture(lines[0]) is Some {
        playlist_name_capture(lines[0])
    } else {
        first_playlist_name(lines.drop_first())
    }
}

/// The playlist's name from the listing's output lines: the capture of the
/// first line that names it, or `DownloadError("no playlist name")`.
pub fn playlist_name_from_lines(lines: &Vec<String>) -> (r: Result<String, Error>)
    ensures
        first_playlist_name(string_views(lines@)) matches Some(n) ==> (r matches Ok(s) && s@ == n),
        first_playlist_name(string_views(lines@)) is None ==> (r matches Err(
            Error::DownloadError(m),
        ) && m@ == "no playlist name"@),
{
    let ghost lv = string_views(lines@);
    let mut k: usize = 0;
    assert(lv.skip(0) =~= lv);
    while k < lines.len()
        invariant
            k <= lines@.len(),
            lv == string_views(lines@),
            first_playlist_name(lv.skip(k as int)) == first_playlist_name(lv),
        decreases lines@.len() - k,
    {
        assert(lv.skip(k as int)[0] == lines@[k as int]@);
        assert(lv.skip(k as int).drop_first() =~= lv.skip(k + 1));
        match extract_playlist_name(lines[k].as_str()) {
            Some(name) => {
                return Ok(name);
            },
            None => {},
        }
        k = k + 1;
    }
    assert(lv.skip(k as int).len() == 0);
    Err(Error::DownloadError("no playlist name".to_string()))
}

// ---------------------------------------------------------------------------
// The downloader and its command lines
// ---------------------------------------------------------------------------

/// Name of the downloader program inside its directory.
pub const YTDL_NAME: &'static str = "youtube-dl";

/// The downloader's newest version and the SHA-256 of its program file.
#[derive(Debug)]
pub struct Version {
    pub version: String,
    pub sha256: String,
}

/// Which self-test runs at startup.
#[derive(Debug, Clone, Copy, PartialEq, Eq)]
pub enum StartupCheck {
    Update,
    Version,
}

/// What an update run does with the program file.
#[derive(Debug, Clone, Copy, PartialEq, Eq)]
pub enum UpdatePlan {
    /// No program yet: download it
    Install,
    /// An older version is there: replace it, rolling back on failure
    Replace,
    /// The newest version is there already
    Keep,
}

/// The update step for the installed version (`None` when no program file
/// exists) and the newest one.
pub fn update_plan(current: Option<&str>, latest: &str) -> (r: UpdatePlan)
    ensures
        current is None ==> r == UpdatePlan::Install,
        current matches Some(c) && c@ == latest@ ==> r == UpdatePlan::Keep,
        current matches Some(c) && c@ != latest@ ==> r == UpdatePlan::Replace,
{
    match current {
        None => UpdatePlan::Install,
        Some(c) => {
            let a = str_chars(c);
            let b = str_chars(latest);
            let same = a.len() == b.len() && lit_at_exec(a.as_slice(), 0, b.as_slice());
            proof {
                if same {
                    assert(a@.subrange(0, b@.len() as int) =~= a@);
                } else if a@ == b@ {
                    assert(a@.subrange(0, b@.len() as int) =~= a@);
                }
            }
            if same {
                UpdatePlan::Keep
            } else {
                UpdatePlan::Replace
            }
        },
    }
}

/// The downloader program, as the configuration describes it.
pub struct Downloader {
    pub defaults: ConfigGen,
    /// Directory of the program
    pub cmd_path: String,
}

/// What `String::from_utf8_lossy` makes of these bytes.
pub uninterp spec fn utf8_lossy(bytes: Seq<u8>) -> Seq<char>;

/// `String::from_utf8_lossy`, owned: the bytes decoded as UTF-8, each invalid
/// sequence replaced by U+FFFD. Stated: the result is a function of the bytes,
/// and valid UTF-8 decodes to exactly its characters.
#[verifier::external_body]
fn from_utf8_lossy(bytes: &[u8]) -> (r: String)
    ensures
        r@ == utf8_lossy(bytes@),
        valid_utf8(bytes@) ==> r@ == decode_utf8(bytes@),
{
    String::from_utf8_lossy(bytes).into_owned()
}

/// `format!("{}M", n)`
fn rate_arg(n: u16) -> (r: String)
    ensures
        r@ == nat_dec(n as nat) + "M"@,
{
    let mut v = u64_chars(n as u64);
    let m = str_chars("M");
    push_all(&mut v, m.as_slice());
    string_from_chars(v.as_slice())
}

fn push_arg(v: &mut Vec<String>, a: String)
    ensures
        string_views(final(v)@) == string_views(old(v)@).push(a@),
{
    let ghost before = v@;
    v.push(a);
    assert(string_views(v@) =~= string_views(before).push(a@));
}

fn push_lit(v: &mut Vec<String>, a: &str)
    ensures
        string_views(final(v)@) == string_views(old(v)@).push(a@),
{
    push_arg(v, a.to_string());
}

impl Downloader {
    pub fn new(defaults: ConfigGen) -> (r: Downloader)
        ensures
            r.defaults == defaults,
            r.cmd_path@ == defaults.youtube_dl_dir@,
    {
        let cmd_path = defaults.youtube_dl_dir.clone();
        Downloader { defaults, cmd_path }
    }

    /// The self-test at startup: an update when updates are automatic,
    /// otherwise the version query.
    pub fn startup_test(&self) -> (r: StartupCheck)
        ensures
            self.defaults.youtube_dl_auto_update ==> r == StartupCheck::Update,
            !self.defaults.youtube_dl_auto_update ==> r == StartupCheck::Version,
    {
        if self.defaults.youtube_dl_auto_update {
            StartupCheck::Update
        } else {
            StartupCheck::Version
        }
    }

    /// Arguments that ask the downloader for its version.
    pub fn version_args(&self) -> (r: Vec<String>)
        ensures
            string_views(r@) == seq!["--version"@],
    {
        let mut v: Vec<String> = Vec::new();
        push_lit(&mut v, "--version");
        assert(string_views(v@) =~= seq!["--version"@]);
        v
    }

    /// The version from the downloader's answer: its output, trimmed, when it
    /// exited successfully, `InternalError("Process errored")` otherwise.
    pub fn version(&self, success: bool, stdout: &[u8]) -> (r: Result<String, Error>)
        ensures
            success ==> (r matches Ok(v) && v@ == trim(utf8_lossy(stdout@))),
            !success ==> (r matches Err(Error::InternalError(m)) && m@ == "Process errored"@),
    {
        if success {
            let text = from_utf8_lossy(stdout);
            let c = str_chars(text.as_str());
            let t = trim_chars(c.as_slice());
            Ok(string_from_chars(t.as_slice()))
        } else {
            Err(Error::InternalError("Process errored".to_string()))
        }
    }

    /// Arguments of a download into `file_path`: the rate limit in MB/s (the
    /// configuration gives MBit/s), the format, and ffmpeg as fallback.
    pub fn download_args(&self, file_path: &str, url: &str, quality: &str) -> (r: Vec<String>)
        ensures
            string_views(r@) == seq![
                "--newline"@,
                "--no-warnings"@,
                "-r"@,
                nat_dec((self.defaults.download_mbps / 8) as nat) + "M"@,
                "-f"@,
                quality@,
                "-o"@,
                file_path@,
                "--hls-prefer-native"@,
                "--ffmpeg-location"@,
                self.defaults.ffmpeg_bin_dir@,
                url@,
            ],
    {
        let mut v: Vec<String> = Vec::new();
        push_lit(&mut v, "--newline");
        push_lit(&mut v, "--no-warnings");
        push_lit(&mut v, "-r");
        push_arg(&mut v, rate_arg(self.defaults.download_mbps / 8));
        push_lit(&mut v, "-f");
        push_lit(&mut v, quality);
        push_lit(&mut v, "-o");
        push_lit(&mut v, file_path);
        push_lit(&mut v, "--hls-prefer-native");
        push_lit(&mut v, "--ffmpeg-location");
        push_lit(&mut v, self.defaults.ffmpeg_bin_dir.as_str());
        push_lit(&mut v, url);
        v
    }

    /// Arguments that ask for a video's file name, for a given format if any.
    pub fn filename_args(&self, url: &str, quality: Option<&str>) -> (r: Vec<String>)
        ensures
            quality is None ==> string_views(r@) == seq![
                "--get-filename"@,
                "--no-warnings"@,
                "-o"@,
                "%(title)s.%(ext)s"@,
                url@,
            ],
            quality matches Some(q) ==> string_views(r@) == seq![
                "--get-filename"@,
                "--no-warnings"@,
                "-o"@,
                "%(title)s.%(ext)s"@,
                "-f"@,
                q@,
                url@,
            ],
    {
        let mut v: Vec<String> = Vec::new();
        push_lit(&mut v, "--get-filename");
        push_lit(&mut v, "--no-warnings");
        push_lit(&mut v, "-o");
        push_lit(&mut v, "%(title)s.%(ext)s");
        match quality {
            Some(q) => {
                push_lit(&mut v, "-f");
                push_lit(&mut v, q);
            },
            None => {},
        }
        push_lit(&mut v, url);
        v
    }

    /// Arguments of the external lib:
    /// `[lib_args] -q {quality} -r {rate}M -f {file} -v {true/false} {url}`.
    pub fn lib_request_args(&self, url: &str, file_path: &str, quality: &str, get_video: bool) -> (r:
        Vec<String>)
        ensures
            string_views(r@) == string_views(self.defaults.lib_args@) + seq![
                "-q"@,
                quality@,
                "-r"@,
                nat_dec(self.defaults.download_mbps as nat) + "M"@,
                "-f"@,
                file_path@,
                "-v"@,
                if get_video {
                    "true"@
                } else {
                    "false"@
                },
                url@,
            ],
    {
        let mut v: Vec<String> = Vec::new();
        let mut k: usize = 0;
        while k < self.defaults.lib_args.len()
            invariant
                k <= self.defaults.lib_args@.len(),
                string_views(v@) == string_views(self.defaults.lib_args@).take(k as int),
            decreases self.defaults.lib_args@.len() - k,
        {
            push_arg(&mut v, self.defaults.lib_args[k].clone());
            assert(string_views(self.defaults.lib_args@).take(k + 1) =~= string_views(
                self.defaults.lib_args@,
            ).take(k as int).push(self.defaults.lib_args@[k as int]@));
            k = k + 1;
        }
        assert(string_views(self.defaults.lib_args@).take(k as int) =~= string_views(
            self.defaults.lib_args@,
        ));
        let ghost base = string_views(v@);
        push_lit(&mut v, "-q");
        push_lit(&mut v, quality);
        push_lit(&mut v, "-r");
        push_arg(&mut v, rate_arg(self.defaults.download_mbps));
        push_lit(&mut v, "-f");
        push_lit(&mut v, file_path);
        push_lit(&mut v, "-v");
        push_lit(&mut v, if get_video { "true" } else { "false" });
        push_lit(&mut v, url);
        assert(string_views(v@) =~= base + seq![
            "-q"@,
            quality@,
            "-r"@,
            nat_dec(self.defaults.download_mbps as nat) + "M"@,
            "-f"@,
            file_path@,
            "-v"@,
            if get_video {
                "true"@
            } else {
                "false"@
            },
            url@,
        ]);
        v
    }

    /// Arguments that list a playlist's entries, from and to the requested
    /// positions where those are positive.
    pub fn playlist_extract_args(&self, url: &str, from: i16, to: i16) -> (r: Vec<String>)
        ensures
            string_views(r@) == seq!["-s"@, "--dump-json"@, "--flat-playlist"@, "--no-warnings"@]
                + (if from > 0 {
                seq!["--playlist-start"@, int_dec(from as int)]
            } else {
                Seq::empty()
            }) + (if to > 0 {
                seq!["--playlist-end"@, int_dec(to as int)]
            } else {
                Seq::empty()
            }) + seq![url@],
    {
        let mut v: Vec<String> = Vec::new();
        push_lit(&mut v, "-s");
        push_lit(&mut v, "--dump-json");
        push_lit(&mut v, "--flat-playlist");
        push_lit(&mut v, "--no-warnings");
        if from > 0 {
            push_lit(&mut v, "--playlist-start");
            let f = i64_chars(from as i64);
            push_arg(&mut v, string_from_chars(f.as_slice()));
        }
        if to > 0 {
            push_lit(&mut v, "--playlist-end");
            let f = i64_chars(to as i64);
            push_arg(&mut v, string_from_chars(f.as_slice()));
        }
        push_lit(&mut v, url);
        assert(string_views(v@) =~= seq![
            "-s"@,
            "--dump-json"@,
            "--flat-playlist"@,
            "--no-warnings"@,
        ] + (if from > 0 {
            seq!["--playlist-start"@, int_dec(from as int)]
        } else {
            Seq::empty()
        }) + (if to > 0 {
            seq!["--playlist-end"@, int_dec(to as int)]
        } else {
            Seq::empty()
        }) + seq![url@]);
        v
    }

    /// Arguments that make the downloader print the playlist's name.
    pub fn playlist_name_args(&self, url: &str) -> (r: Vec<String>)
        ensures
            string_views(r@) == seq![
                "-s"@,
                "--no-warnings"@,
                "--playlist-start"@,
                "1"@,
                "--playlist-end"@,
                "1"@,
                url@,
            ],
    {
        let mut v: Vec<String> = Vec::new();
        push_lit(&mut v, "-s");
        push_lit(&mut v, "--no-warnings");
        push_lit(&mut v, "--playlist-start");
        push_lit(&mut v, "1");
        push_lit(&mut v, "--playlist-end");
        push_lit(&mut v, "1");
        push_lit(&mut v, url);
        v
    }
}

// ---------------------------------------------------------------------------
// The version list of the downloader's project
// ---------------------------------------------------------------------------

/// Where the downloader's newest version is listed.
pub const UPDATE_VERSION_URL: &'static str = "https://rg3.github.io/youtube-dl/update/versions.json";

/// Where the newest downloader program is fetched from.
pub const UPDATE_DOWNLOAD_URL: &'static str = "https://yt-dl.org/downloads/latest/youtube-dl";

/// A JSON document, as far as this crate reads one.
#[derive(Debug)]
pub enum Json {
    Null,
    Str(String),
    Number,
    Boolean(bool),
    /// Members in document order
    Object(Vec<(String, Json)>),
    Array(Vec<Json>),
}

#[verifier::external_type_specification]
#[verifier::external_body]
pub struct ExJsonValue(json::JsonValue);

/// What `json::parse` makes of this text: the document if it is valid JSON,
/// otherwise the `Display` text of the parse error.
pub uninterp spec fn json_document(text: Seq<char>) -> Result<Json, Seq<char>>;

/// `json::parse` of the json crate, the parsed value given as a `Json` and
/// a parse error as its `Display` text. Stated: the outcome, document or
/// error text, is a function of the text; nothing is stated about how the
/// parser reads text or words its errors.
#[verifier::external_body]
fn json_parse(text: &str) -> (r: Result<Json, String>)
    ensures
        r matches Ok(v) ==> (json_document(text@) matches Ok(d) && d == v),
        r matches Err(e) ==> (json_document(text@) matches Err(m) && m == e@),
{
    match json::parse(text) {
        Ok(v) => Ok(json_model(&v)),
        Err(e) => Err(e.to_string()),
    }
}

/// A `json::JsonValue` as `Json`, variant by variant; short and long
/// strings both become `Str`, numbers lose their value.
#[verifier::external_body]
fn json_model(v: &json::JsonValue) -> Json {
    match v {
        json::JsonValue::Null => Json::Null,
        json::JsonValue::Short(s) => Json::Str(s.as_str().to_string()),
        json::JsonValue::String(s) => Json::Str(s.clone()),
        json::JsonValue::Number(_) => Json::Number,
        json::JsonValue::Boolean(b) => Json::Boolean(*b),
        json::JsonValue::Object(o) => Json::Object(o.iter().map(|(k, x)| (k.to_string(), json_model(x))).collect()),
        json::JsonValue::Array(a) => Json::Array(a.iter().map(json_model).collect()),
    }
}

/// The value of the first member named `key`, as a list of members.
pub open spec fn member_of(entries: Seq<(String, Json)>, key: Seq<char>) -> Json
    decreases entries.len(),
{
    if entries.len() == 0 {
        Json::Null
    } else if entries[0].0@ == key {
        entries[0].1
    } else {
        member_of(entries.drop_first(), key)
    }
}

/// `value[key]` of the json crate: an object's member, `Null` otherwise.
pub open spec fn json_member_spec(v: Json, key: Seq<char>) -> Json {
    match v {
        Json::Object(entries) => member_of(entries@, key),
        _ => Json::Null,
    }
}

/// `value[i]` of the json crate: an array's element, `Null` otherwise.
pub open spec fn json_element_spec(v: Json, i: int) -> Json {
    match v {
        Json::Array(items) => if 0 <= i < items@.len() {
            items@[i]
        } else {
            Json::Null
        },
        _ => Json::Null,
    }
}

/// `value[key]`; `None` stands for `Null`.
pub fn json_member<'a>(v: &'a Json, key: &str) -> (r: Option<&'a Json>)
    ensures
        r matches Some(x) ==> *x == json_member_spec(*v, key@),
        r is None ==> json_member_spec(*v, key@) == Json::Null,
{
    match v {
        Json::Object(entries) => {
            let ghost es = entries@;
            let mut k: usize = 0;
            assert(es.skip(0) =~= es);
            while k < entries.len()
                invariant
                    k <= es.len(),
                    es == entries@,
                    json_member_spec(*v, key@) == member_of(es, key@),
                    member_of(es.skip(k as int), key@) == member_of(es, key@),
                decreases es.len() - k,
            {
                assert(es.skip(k as int)[0] == es[k as int]);
                assert(es.skip(k as int).drop_first() =~= es.skip(k + 1));
                let name = str_chars(entries[k].0.as_str());
                let kc = str_chars(key);
                if name.len() == kc.len() && lit_at_exec(name.as_slice(), 0, kc.as_slice()) {
                    assert(name@.subrange(0, kc@.len() as int) =~= name@);
                    assert(entries@[k as int].0@ == key@);
                    assert(member_of(es.skip(k as int), key@) == es[k as int].1);
                    return Some(&entries[k].1);
                }
                assert(entries@[k as int].0@ != key@) by {
                    if entries@[k as int].0@ == key@ {
                        assert(name@.subrange(0, kc@.len() as int) =~= name@);
                    }
                }
                k = k + 1;
            }
            None
        },
        _ => None,
    }
}

/// `value[i]`; `None` stands for `Null`.
pub fn json_element<'a>(v: &'a Json, i: usize) -> (r: Option<&'a Json>)
    ensures
        r matches Some(x) ==> *x == json_element_spec(*v, i as int),
        r is None ==> json_element_spec(*v, i as int) == Json::Null,
{
    match v {
        Json::Array(items) => {
            if i < items.len() {
                Some(&items[i])
            } else {
                None
            }
        },
        _ => None,
    }
}

/// What `take_string` finds: a string, `Null`, or another kind of value.
pub enum JsonLeaf {
    Missing,
    Text(String),
    NotText,
}

fn leaf(v: Option<&Json>) -> (r: JsonLeaf)
    ensures
        (v is None || v matches Some(Json::Null)) ==> r is Missing,
        v matches Some(Json::Str(s)) ==> (r matches JsonLeaf::Text(t) && t@ == s@),
        v matches Some(x) && !(x is Null) && !(x is Str) ==> r is NotText,
{
    match v {
        None => JsonLeaf::Missing,
        Some(Json::Null) => JsonLeaf::Missing,
        Some(Json::Str(s)) => JsonLeaf::Text(s.clone()),
        Some(_) => JsonLeaf::NotText,
    }
}

/// The newest version and its program's SHA-256 in a parsed version list:
/// `latest`, then `versions[latest].bin[1]`; the message of the first
/// lookup that fails otherwise.
pub open spec fn latest_version_of(doc: Json) -> Result<(Seq<char>, Seq<char>), Seq<char>> {
    match json_member_spec(doc, "latest"@) {
        Json::Null => Err("Version key not found!"@),
        Json::Str(v) => {
            let sha = json_element_spec(
                json_member_spec(json_member_spec(json_member_spec(doc, "versions"@), v@), "bin"@),
                1,
            );
            match sha {
                Json::Null => Err("SHA256 key not found!"@),
                Json::Str(s) => Ok((v@, s@)),
                _ => Err("SHA256 value is not an str!"@),
            }
        },
        _ => Err("Version value is not a str!"@),
    }
}

impl Downloader {
    /// The newest version and its SHA-256 from the text of the version list.
    pub fn get_latest_version(body: &str) -> (r: Result<Version, Error>)
        ensures
            json_document(body@) matches Err(e) ==> (r matches Err(Error::InternalError(m)) && m@
                == "Parsing error "@ + e + " for "@ + body@),
            json_document(body@) matches Ok(doc) ==> match latest_version_of(doc) {
                Ok((v, s)) => r matches Ok(ver) && ver.version@ == v && ver.sha256@ == s,
                Err(m) => r matches Err(Error::InternalError(e)) && e@ == m,
            },
    {
        let doc = match json_parse(body) {
            Ok(d) => d,
            Err(e) => {
                let mut msg = str_chars("Parsing error ");
                let ec = str_chars(e.as_str());
                push_all(&mut msg, ec.as_slice());
                let f = str_chars(" for ");
                push_all(&mut msg, f.as_slice());
                let b = str_chars(body);
                push_all(&mut msg, b.as_slice());
                return Err(Error::InternalError(string_from_chars(msg.as_slice())));
            },
        };
        let version = match leaf(json_member(&doc, "latest")) {
            JsonLeaf::Missing => {
                return Err(Error::InternalError("Version key not found!".to_string()));
            },
            JsonLeaf::Text(v) => v,
            JsonLeaf::NotText => {
                return Err(Error::InternalError("Version value is not a str!".to_string()));
            },
        };
        let versions = json_member(&doc, "versions");
        let entry = match versions {
            Some(x) => json_member(x, version.as_str()),
            None => None,
        };
        let bin = match entry {
            Some(x) => json_member(x, "bin"),
            None => None,
        };
        let sha = match bin {
            Some(x) => json_element(x, 1),
            None => None,
        };
        let sha256 = match leaf(sha) {
            JsonLeaf::Missing => {
                return Err(Error::InternalError("SHA256 key not found!".to_string()));
            },
            JsonLeaf::Text(s) => s,
            JsonLeaf::NotText => {
                return Err(Error::InternalError("SHA256 value is not an str!".to_string()));
            },
        };
        Ok(Version { version, sha256 })
    }
}

} // verus!
