//! The youtube handler's URL patterns and quality choices.
//!
//! A video URL is what the pattern
//! `https?://(www\.|m\.)?(youtube\.[a-z]{2,3}/watch\?(feature=player_embedded&)?(list=[a-zA-Z0-9_-]+&)?v=[a-zA-Z0-9_-]+|youtu\.be/[a-zA-Z0-9_-]+)`
//! finds somewhere in the text; a playlist URL is what
//! `https?://(www\.|m\.)?youtube\.[a-z]{2,4}/(watch\?(feature=player_embedded&)?(v=[a-zA-Z0-9_-]+.*&)?list=[A-Za-z0-9_-]+|playlist\?list=[a-zA-Z0-9_-]+)`
//! finds. Each spec function below states which texts match from a given
//! position on; a search matches when the pattern matches from some position.
use vstd::prelude::*;
use crate::text::{lit_at, str_chars, string_from_chars, push_all, int_dec, i64_chars};
use crate::downloader::Filename;
use crate::pattern::{
    CharClass, in_class, all_in, one_in, one_in_exec, all_in_exec, run_end, after_lit,
    lemma_run_end_unique, lemma_id_run_no_newline, lemma_all_in_join,
};
use crate::common::{Error, Request};
use crate::config::ConfigCodecs;

verus! {

broadcast use vstd::string::group_string_axioms;

// ---------------------------------------------------------------------------
// Video pattern
// ---------------------------------------------------------------------------

pub open spec fn yt_video_at(s: Seq<char>, i: int) -> bool {
    ||| (lit_at(s, i, "http://"@) && yt_video_after_scheme(s, i + "http://"@.len()))
    ||| (lit_at(s, i, "https://"@) && yt_video_after_scheme(s, i + "https://"@.len()))
}

/// `(www\.|m\.)?` and then the host part.
pub open spec fn yt_video_after_scheme(s: Seq<char>, j: int) -> bool {
    ||| yt_video_host(s, j)
    ||| (lit_at(s, j, "www."@) && yt_video_host(s, j + "www."@.len()))
    ||| (lit_at(s, j, "m."@) && yt_video_host(s, j + "m."@.len()))
}

/// `youtube\.[a-z]{2,3}/watch\?...` or `youtu\.be/[a-zA-Z0-9_-]+`.
pub open spec fn yt_video_host(s: Seq<char>, k: int) -> bool {
    ||| (lit_at(s, k, "youtube."@) && yt_video_tld(s, k + "youtube."@.len()))
    ||| (lit_at(s, k, "youtu.be/"@) && one_in(s, k + "youtu.be/"@.len(), CharClass::Id))
}

/// `[a-z]{2,3}/watch\?...`
pub open spec fn yt_video_tld(s: Seq<char>, k: int) -> bool {
    ||| (all_in(s, k, k + 2, CharClass::Lower) && yt_watch(s, k + 2))
    ||| (all_in(s, k, k + 3, CharClass::Lower) && yt_watch(s, k + 3))
}

/// `/watch\?(feature=player_embedded&)?...`
pub open spec fn yt_watch(s: Seq<char>, p: int) -> bool {
    &&& lit_at(s, p, "/watch?"@)
    &&& {
        let q = p + "/watch?"@.len();
        ||| yt_list_opt(s, q)
        ||| (lit_at(s, q, "feature=player_embedded&"@) && yt_list_opt(
            s,
            q + "feature=player_embedded&"@.len(),
        ))
    }
}

/// `(list=[a-zA-Z0-9_-]+&)?v=[a-zA-Z0-9_-]+`
pub open spec fn yt_list_opt(s: Seq<char>, q: int) -> bool {
    ||| yt_v_param(s, q)
    ||| (lit_at(s, q, "list="@) && exists|m: int| #[trigger]
        yt_list_then_v(s, q + "list="@.len(), m))
}

/// A list id of `m` characters from `p`, then `&` and the `v=` parameter.
pub open spec fn yt_list_then_v(s: Seq<char>, p: int, m: int) -> bool {
    &&& m >= 1
    &&& all_in(s, p, p + m, CharClass::Id)
    &&& lit_at(s, p + m, "&"@)
    &&& yt_v_param(s, p + m + "&"@.len())
}

/// `v=[a-zA-Z0-9_-]+`
pub open spec fn yt_v_param(s: Seq<char>, q: int) -> bool {
    lit_at(s, q, "v="@) && one_in(s, q + "v="@.len(), CharClass::Id)
}

/// The video pattern matches somewhere in `s`.
pub open spec fn yt_video_match(s: Seq<char>) -> bool {
    exists|i: int| #[trigger] yt_video_at(s, i)
}

// ---------------------------------------------------------------------------
// Playlist pattern
// ---------------------------------------------------------------------------

pub open spec fn yt_playlist_at(s: Seq<char>, i: int) -> bool {
    ||| (lit_at(s, i, "http://"@) && yt_playlist_after_scheme(s, i + "http://"@.len()))
    ||| (lit_at(s, i, "https://"@) && yt_playlist_after_scheme(s, i + "https://"@.len()))
}

pub open spec fn yt_playlist_after_scheme(s: Seq<char>, j: int) -> bool {
    ||| yt_playlist_host(s, j)
    ||| (lit_at(s, j, "www."@) && yt_playlist_host(s, j + "www."@.len()))
    ||| (lit_at(s, j, "m."@) && yt_playlist_host(s, j + "m."@.len()))
}

/// `youtube\.[a-z]{2,4}/...`
pub open spec fn yt_playlist_host(s: Seq<char>, k: int) -> bool {
    &&& lit_at(s, k, "youtube."@)
    &&& {
        let t = k + "youtube."@.len();
        ||| (all_in(s, t, t + 2, CharClass::Lower) && yt_playlist_path(s, t + 2))
        ||| (all_in(s, t, t + 3, CharClass::Lower) && yt_playlist_path(s, t + 3))
        ||| (all_in(s, t, t + 4, CharClass::Lower) && yt_playlist_path(s, t + 4))
    }
}

/// `/(watch\?(feature=player_embedded&)?(v=...&)?list=...|playlist\?list=...)`
pub open spec fn yt_playlist_path(s: Seq<char>, p: int) -> bool {
    &&& lit_at(s, p, "/"@)
    &&& {
        let q = p + "/"@.len();
        ||| (lit_at(s, q, "watch?"@) && yt_playlist_feature_opt(s, q + "watch?"@.len()))
        ||| (lit_at(s, q, "playlist?list="@) && one_in(
            s,
            q + "playlist?list="@.len(),
            CharClass::Id,
        ))
    }
}

pub open spec fn yt_playlist_feature_opt(s: Seq<char>, q: int) -> bool {
    ||| yt_playlist_v_opt(s, q)
    ||| (lit_at(s, q, "feature=player_embedded&"@) && yt_playlist_v_opt(
        s,
        q + "feature=player_embedded&"@.len(),
    ))
}

/// `(v=[a-zA-Z0-9_-]+.*&)?list=[A-Za-z0-9_-]+`
pub open spec fn yt_playlist_v_opt(s: Seq<char>, q: int) -> bool {
    ||| yt_list_param(s, q)
    ||| (lit_at(s, q, "v="@) && exists|m: int, r: int| #[trigger]
        yt_v_then_list(s, q + "v="@.len(), m, r))
}

/// A video id of `m` characters from `p`, `r` more characters other than a
/// line feed, then `&` and the `list=` parameter.
pub open spec fn yt_v_then_list(s: Seq<char>, p: int, m: int, r: int) -> bool {
    &&& m >= 1
    &&& r >= 0
    &&& all_in(s, p, p + m, CharClass::Id)
    &&& all_in(s, p + m, p + m + r, CharClass::NotNewline)
    &&& lit_at(s, p + m + r, "&"@)
    &&& yt_list_param(s, p + m + r + "&"@.len())
}

/// `list=[A-Za-z0-9_-]+`
pub open spec fn yt_list_param(s: Seq<char>, q: int) -> bool {
    lit_at(s, q, "list="@) && one_in(s, q + "list="@.len(), CharClass::Id)
}

/// The playlist pattern matches somewhere in `s`.
pub open spec fn yt_playlist_match(s: Seq<char>) -> bool {
    exists|i: int| #[trigger] yt_playlist_at(s, i)
}

// ---------------------------------------------------------------------------
// Executable recognisers
// ---------------------------------------------------------------------------

fn v_param(s: &[char], q: usize) -> (r: bool)
    ensures
        r == yt_v_param(s@, q as int),
{
    match after_lit(s, q, "v=") {
        Some(j) => one_in_exec(s, j, CharClass::Id),
        None => false,
    }
}

fn list_opt(s: &[char], q: usize) -> (r: bool)
    ensures
        r == yt_list_opt(s@, q as int),
{
    if v_param(s, q) {
        return true;
    }
    match after_lit(s, q, "list=") {
        None => false,
        Some(p) => {
            let e = run_end(s, p, CharClass::Id);
            let ok = e > p && match after_lit(s, e, "&") {
                Some(t) => v_param(s, t),
                None => false,
            };
            proof {
                reveal_strlit("&");
                if ok {
                    assert(yt_list_then_v(s@, p as int, e - p));
                }
                assert forall|m: int| !ok implies !#[trigger] yt_list_then_v(s@, p as int, m) by {
                    if yt_list_then_v(s@, p as int, m) {
                        assert(s@.subrange(p + m, p + m + 1)[0] == s@[p + m]);
                        assert(s@[p + m] == '&');
                        lemma_run_end_unique(s@, p as int, e as int, p + m, CharClass::Id);
                    }
                }
            }
            ok
        },
    }
}

fn watch(s: &[char], p: usize) -> (r: bool)
    ensures
        r == yt_watch(s@, p as int),
{
    match after_lit(s, p, "/watch?") {
        None => false,
        Some(q) => {
            if list_opt(s, q) {
                true
            } else {
                match after_lit(s, q, "feature=player_embedded&") {
                    Some(t) => list_opt(s, t),
                    None => false,
                }
            }
        },
    }
}

fn video_tld(s: &[char], k: usize) -> (r: bool)
    ensures
        r == yt_video_tld(s@, k as int),
{
    proof {
        assert(s@.len() == s.len());
    }
    (all_in_exec(s, k, 2, CharClass::Lower) && watch(s, k + 2)) || (all_in_exec(
        s,
        k,
        3,
        CharClass::Lower,
    ) && watch(s, k + 3))
}

fn video_host(s: &[char], k: usize) -> (r: bool)
    ensures
        r == yt_video_host(s@, k as int),
{
    let a = match after_lit(s, k, "youtube.") {
        Some(t) => video_tld(s, t),
        None => false,
    };
    if a {
        return true;
    }
    match after_lit(s, k, "youtu.be/") {
        Some(t) => one_in_exec(s, t, CharClass::Id),
        None => false,
    }
}

fn video_after_scheme(s: &[char], j: usize) -> (r: bool)
    ensures
        r == yt_video_after_scheme(s@, j as int),
{
    if video_host(s, j) {
        return true;
    }
    let a = match after_lit(s, j, "www.") {
        Some(t) => video_host(s, t),
        None => false,
    };
    if a {
        return true;
    }
    match after_lit(s, j, "m.") {
        Some(t) => video_host(s, t),
        None => false,
    }
}

fn video_at(s: &[char], i: usize) -> (r: bool)
    ensures
        r == yt_video_at(s@, i as int),
{
    let a = match after_lit(s, i, "http://") {
        Some(t) => video_after_scheme(s, t),
        None => false,
    };
    if a {
        return true;
    }
    match after_lit(s, i, "https://") {
        Some(t) => video_after_scheme(s, t),
        None => false,
    }
}

fn list_param(s: &[char], q: usize) -> (r: bool)
    ensures
        r == yt_list_param(s@, q as int),
{
    match after_lit(s, q, "list=") {
        Some(j) => one_in_exec(s, j, CharClass::Id),
        None => false,
    }
}

/// After `v=`: a video id, anything but a line feed, `&`, then `list=...`.
fn v_then_list(s: &[char], p: usize) -> (r: bool)
    ensures
        r == exists|m: int, n: int| #[trigger] yt_v_then_list(s@, p as int, m, n),
{
    proof {
        reveal_strlit("&");
    }
    if !one_in_exec(s, p, CharClass::Id) {
        assert forall|m: int, n: int| !#[trigger] yt_v_then_list(s@, p as int, m, n) by {
            if yt_v_then_list(s@, p as int, m, n) {
                assert(in_class(s@[p as int], CharClass::Id));
            }
        }
        return false;
    }
    assert(s@.len() == s.len());
    let mut t: usize = p + 1;
    while t < s.len() && s[t] != '\n'
        invariant
            p < t <= s@.len(),
            one_in(s@, p as int, CharClass::Id),
            all_in(s@, p + 1, t as int, CharClass::NotNewline),
            forall|u: int|
                p + 1 <= u < t && s@[u] == '&' ==> !#[trigger] yt_list_param(s@, u + 1),
        decreases s@.len() - t,
    {
        if s[t] == '&' && list_param(s, t + 1) {
            proof {
                reveal_strlit("&");
                assert(all_in(s@, p as int, p + 1, CharClass::Id));
                assert(s@.subrange(t as int, t + 1) =~= "&"@);
                assert(yt_v_then_list(s@, p as int, 1, t - p - 1));
            }
            return true;
        }
        t = t + 1;
    }
    assert forall|m: int, n: int| !#[trigger] yt_v_then_list(s@, p as int, m, n) by {
        if yt_v_then_list(s@, p as int, m, n) {
            let w = p + m + n;
            assert(s@.subrange(w, w + 1)[0] == s@[w]);
            assert(s@[w] == '&');
            lemma_id_run_no_newline(s@, p as int, p + m);
            lemma_all_in_join(s@, p as int, p + m, w, CharClass::NotNewline);
            if w < t {
                assert(!yt_list_param(s@, w + 1));
            } else if w > t {
                assert(in_class(s@[t as int], CharClass::NotNewline));
            }
        }
    }
    false
}

fn playlist_v_opt(s: &[char], q: usize) -> (r: bool)
    ensures
        r == yt_playlist_v_opt(s@, q as int),
{
    if list_param(s, q) {
        return true;
    }
    match after_lit(s, q, "v=") {
        Some(p) => v_then_list(s, p),
        None => false,
    }
}

fn playlist_feature_opt(s: &[char], q: usize) -> (r: bool)
    ensures
        r == yt_playlist_feature_opt(s@, q as int),
{
    if playlist_v_opt(s, q) {
        return true;
    }
    match after_lit(s, q, "feature=player_embedded&") {
        Some(t) => playlist_v_opt(s, t),
        None => false,
    }
}

fn playlist_path(s: &[char], p: usize) -> (r: bool)
    ensures
        r == yt_playlist_path(s@, p as int),
{
    match after_lit(s, p, "/") {
        None => false,
        Some(q) => {
            let a = match after_lit(s, q, "watch?") {
                Some(t) => playlist_feature_opt(s, t),
                None => false,
            };
            if a {
                return true;
            }
            match after_lit(s, q, "playlist?list=") {
                Some(t) => one_in_exec(s, t, CharClass::Id),
                None => false,
            }
        },
    }
}

fn playlist_host(s: &[char], k: usize) -> (r: bool)
    ensures
        r == yt_playlist_host(s@, k as int),
{
    match after_lit(s, k, "youtube.") {
        None => false,
        Some(t) => {
            proof {
                assert(s@.len() == s.len());
            }
            (all_in_exec(s, t, 2, CharClass::Lower) && playlist_path(s, t + 2)) || (all_in_exec(
                s,
                t,
                3,
                CharClass::Lower,
            ) && playlist_path(s, t + 3)) || (all_in_exec(s, t, 4, CharClass::Lower)
                && playlist_path(s, t + 4))
        },
    }
}

fn playlist_after_scheme(s: &[char], j: usize) -> (r: bool)
    ensures
        r == yt_playlist_after_scheme(s@, j as int),
{
    if playlist_host(s, j) {
        return true;
    }
    let a = match after_lit(s, j, "www.") {
        Some(t) => playlist_host(s, t),
        None => false,
    };
    if a {
        return true;
    }
    match after_lit(s, j, "m.") {
        Some(t) => playlist_host(s, t),
        None => false,
    }
}

fn playlist_at(s: &[char], i: usize) -> (r: bool)
    ensures
        r == yt_playlist_at(s@, i as int),
{
    let a = match after_lit(s, i, "http://") {
        Some(t) => playlist_after_scheme(s, t),
        None => false,
    };
    if a {
        return true;
    }
    match after_lit(s, i, "https://") {
        Some(t) => playlist_after_scheme(s, t),
        None => false,
    }
}

/// Whether the video pattern matches somewhere in `url`.
pub fn is_video_url(url: &str) -> (r: bool)
    ensures
        r == yt_video_match(url@),
{
    let s = str_chars(url);
    let mut i: usize = 0;
    while i < s.len()
        invariant
            i <= s@.len(),
            s@ == url@,
            forall|j: int| 0 <= j < i ==> !#[trigger] yt_video_at(s@, j),
        decreases s@.len() - i,
    {
        if video_at(s.as_slice(), i) {
            return true;
        }
        i = i + 1;
    }
    proof {
        reveal_strlit("http://");
        reveal_strlit("https://");
    }
    assert forall|j: int| !#[trigger] yt_video_at(s@, j) by {
        if j >= i {
            assert(!lit_at(s@, j, "http://"@));
            assert(!lit_at(s@, j, "https://"@));
        }
    }
    false
}

/// Whether the playlist pattern matches somewhere in `url`.
pub fn is_playlist_url(url: &str) -> (r: bool)
    ensures
        r == yt_playlist_match(url@),
{
    let s = str_chars(url);
    let mut i: usize = 0;
    while i < s.len()
        invariant
            i <= s@.len(),
            s@ == url@,
            forall|j: int| 0 <= j < i ==> !#[trigger] yt_playlist_at(s@, j),
        decreases s@.len() - i,
    {
        if playlist_at(s.as_slice(), i) {
            return true;
        }
        i = i + 1;
    }
    proof {
        reveal_strlit("http://");
        reveal_strlit("https://");
    }
    assert forall|j: int| !#[trigger] yt_playlist_at(s@, j) by {
        if j >= i {
            assert(!lit_at(s@, j, "http://"@));
            assert(!lit_at(s@, j, "https://"@));
        }
    }
    false
}

// ---------------------------------------------------------------------------
// Module checks and job choices
// ---------------------------------------------------------------------------

/// The file handler takes single (non-playlist) requests for video URLs.
pub fn checker_file(data: &Request) -> (r: bool)
    ensures
        r == (!data.playlist && yt_video_match(data.url@)),
{
    if data.playlist {
        return false;
    }
    is_video_url(data.url.as_str())
}

/// The playlist handler takes playlist requests for playlist URLs.
pub fn checker_playlist(data: &Request) -> (r: bool)
    ensures
        r == (data.playlist && yt_playlist_match(data.url@)),
{
    if !data.playlist {
        return false;
    }
    is_playlist_url(data.url.as_str())
}

/// Base of a single video's URL.
pub const YT_VIDEO_URL: &'static str = "https://www.youtube.com/watch?v=";

/// The URL of the playlist entry with this id.
pub fn video_url(id: &str) -> (r: String)
    ensures
        r@ == YT_VIDEO_URL@ + id@,
{
    let mut v = str_chars(YT_VIDEO_URL);
    let i = str_chars(id);
    push_all(&mut v, i.as_slice());
    string_from_chars(v.as_slice())
}

/// The URL made for a playlist entry with a non-empty id of `[a-zA-Z0-9_-]`
/// is a video URL: the sub-queries of a split playlist go to the file module.
pub proof fn lemma_video_url_accepted(id: Seq<char>)
    requires
        id.len() > 0,
        all_in(id, 0, id.len() as int, CharClass::Id),
    ensures
        yt_video_match(YT_VIDEO_URL@ + id),
{
    reveal_strlit("https://www.youtube.com/watch?v=");
    reveal_strlit("https://");
    reveal_strlit("www.");
    reveal_strlit("youtube.");
    reveal_strlit("/watch?");
    reveal_strlit("v=");
    let s = YT_VIDEO_URL@ + id;
    assert(s.subrange(0, 8) =~= "https://"@);
    assert(s.subrange(8, 12) =~= "www."@);
    assert(s.subrange(12, 20) =~= "youtube."@);
    assert(all_in(s, 20, 23, CharClass::Lower)) by {
        assert(s[20] == 'c' && s[21] == 'o' && s[22] == 'm');
    }
    assert(s.subrange(23, 30) =~= "/watch?"@);
    assert(s.subrange(30, 32) =~= "v="@);
    assert(s[32] == id[0]);
    assert(in_class(id[0], CharClass::Id));
    assert(yt_v_param(s, 30));
    assert(yt_list_opt(s, 30));
    assert(yt_watch(s, 23));
    assert(yt_video_tld(s, 20));
    assert(yt_video_host(s, 12));
    assert(yt_video_after_scheme(s, 8));
    assert(yt_video_at(s, 0));
}

/// Every youtube country domain of two or three lower-case letters is
/// accepted for a watch URL: `https://www.youtube.{cc}/watch?v={id}` with a
/// non-empty id of `[a-zA-Z0-9_-]` is a video URL.
pub proof fn lemma_video_url_any_domain(cc: Seq<char>, id: Seq<char>)
    requires
        cc.len() == 2 || cc.len() == 3,
        all_in(cc, 0, cc.len() as int, CharClass::Lower),
        id.len() > 0,
        all_in(id, 0, id.len() as int, CharClass::Id),
    ensures
        yt_video_match("https://www.youtube."@ + cc + "/watch?v="@ + id),
{
    reveal_strlit("https://www.youtube.");
    reveal_strlit("/watch?v=");
    reveal_strlit("https://");
    reveal_strlit("www.");
    reveal_strlit("youtube.");
    reveal_strlit("/watch?");
    reveal_strlit("v=");
    let s = "https://www.youtube."@ + cc + "/watch?v="@ + id;
    let k: int = 20 + cc.len() as int;
    assert(s.subrange(0, 8) =~= "https://"@);
    assert(s.subrange(8, 12) =~= "www."@);
    assert(s.subrange(12, 20) =~= "youtube."@);
    assert(all_in(s, 20, k, CharClass::Lower)) by {
        assert forall|j: int| 20 <= j < k implies in_class(#[trigger] s[j], CharClass::Lower) by {
            assert(s[j] == cc[j - 20]);
        }
    }
    assert(s.subrange(k, k + 7) =~= "/watch?"@);
    assert(s.subrange(k + 7, k + 9) =~= "v="@);
    assert(s[k + 9] == id[0]);
    assert(in_class(id[0], CharClass::Id));
    assert(yt_v_param(s, k + 7));
    assert(yt_list_opt(s, k + 7));
    assert(yt_watch(s, k));
    assert(yt_video_tld(s, 20));
    assert(yt_video_host(s, 12));
    assert(yt_video_after_scheme(s, 8));
    assert(yt_video_at(s, 0));
}

/// Every youtube domain of two to four lower-case letters is accepted for a
/// playlist page: `https://www.youtube.{cc}/playlist?list={id}` with a
/// non-empty list id of `[a-zA-Z0-9_-]` is a playlist URL.
pub proof fn lemma_playlist_url_any_domain(cc: Seq<char>, id: Seq<char>)
    requires
        2 <= cc.len() <= 4,
        all_in(cc, 0, cc.len() as int, CharClass::Lower),
        id.len() > 0,
        all_in(id, 0, id.len() as int, CharClass::Id),
    ensures
        yt_playlist_match("https://www.youtube."@ + cc + "/playlist?list="@ + id),
{
    reveal_strlit("https://www.youtube.");
    reveal_strlit("/playlist?list=");
    reveal_strlit("https://");
    reveal_strlit("www.");
    reveal_strlit("youtube.");
    reveal_strlit("/");
    reveal_strlit("playlist?list=");
    let s = "https://www.youtube."@ + cc + "/playlist?list="@ + id;
    let k: int = 20 + cc.len() as int;
    assert(s.subrange(0, 8) =~= "https://"@);
    assert(s.subrange(8, 12) =~= "www."@);
    assert(s.subrange(12, 20) =~= "youtube."@);
    assert(all_in(s, 20, k, CharClass::Lower)) by {
        assert forall|j: int| 20 <= j < k implies in_class(#[trigger] s[j], CharClass::Lower) by {
            assert(s[j] == cc[j - 20]);
        }
    }
    assert(s.subrange(k, k + 1) =~= "/"@);
    assert(s.subrange(k + 1, k + 15) =~= "playlist?list="@);
    assert(s[k + 15] == id[0]);
    assert(in_class(id[0], CharClass::Id));
    assert(yt_playlist_path(s, k));
    assert(yt_playlist_host(s, 12));
    assert(yt_playlist_after_scheme(s, 8));
    assert(yt_playlist_at(s, 0));
}

/// Steps of a zipped playlist download of `n` entries: one per entry, plus
/// the listing and the zipping.
pub fn playlist_max_steps(n: usize) -> (r: i32)
    requires
        n + 2 <= i32::MAX,
    ensures
        r == n + 2,
{
    n as i32 + 2
}

/// The step shown once the playlist's entries are listed.
pub const PLAYLIST_LISTED_STEP: i32 = 2;

/// First line of the error report of a zipped playlist.
pub const FAILED_LOG_HEADER: &'static str = "Following urls couldn't be downloaded: \n";

/// The state of a zipped playlist download: the step shown, the number of
/// steps, and the report of the entries that failed.
pub struct PlaylistProgress {
    pub step: i32,
    pub max_steps: i32,
    pub warnings: bool,
    pub failed_log: String,
}

impl PlaylistProgress {
    /// The step shown never passes the number of steps.
    pub open spec fn wf(self) -> bool {
        1 <= self.step <= self.max_steps
    }

    /// The start of a playlist of `n` entries: the listing (step 1) is done,
    /// no entry has failed.
    pub fn start(n: usize) -> (r: PlaylistProgress)
        requires
            n + 2 <= i32::MAX,
        ensures
            r.wf(),
            r.step == 1,
            r.max_steps == n + 2,
            !r.warnings,
            r.failed_log@ == FAILED_LOG_HEADER@,
    {
        PlaylistProgress {
            step: 1,
            max_steps: playlist_max_steps(n),
            warnings: false,
            failed_log: FAILED_LOG_HEADER.to_string(),
        }
    }

    /// The next step begins (an entry's download, or the zipping at the
    /// end); gives the step to show.
    pub fn advance(&mut self) -> (r: i32)
        requires
            old(self).wf(),
            old(self).step < old(self).max_steps,
        ensures
            final(self).wf(),
            r == final(self).step,
            final(self).step == old(self).step + 1,
            final(self).max_steps == old(self).max_steps,
            final(self).warnings == old(self).warnings,
            final(self).failed_log@ == old(self).failed_log@,
    {
        self.step = self.step + 1;
        self.step
    }

    /// An entry failed: its URL and the error's text join the report.
    pub fn entry_failed(&mut self, url: &str, error: &str)
        ensures
            final(self).warnings,
            final(self).failed_log@ == old(self).failed_log@ + url@ + seq![' '] + error@ + seq!['\n'],
            final(self).step == old(self).step,
            final(self).max_steps == old(self).max_steps,
    {
        let mut v = str_chars(self.failed_log.as_str());
        let u = str_chars(url);
        push_all(&mut v, u.as_slice());
        v.push(' ');
        let e = str_chars(error);
        push_all(&mut v, e.as_slice());
        v.push('\n');
        self.failed_log = string_from_chars(v.as_slice());
        self.warnings = true;
    }

    /// The error report for the job, when an entry failed.
    pub fn report(&self) -> (r: Option<String>)
        ensures
            r is Some <==> self.warnings,
            r matches Some(t) ==> t@ == self.failed_log@,
    {
        if self.warnings {
            Some(self.failed_log.clone())
        } else {
            None
        }
    }
}

/// Whether a quality code asks for audio only (negative codes) or for a video.
pub fn is_audio_quality(quality: i16) -> (r: bool)
    ensures
        r == (quality < 0),
{
    quality < 0
}

/// The itag whose audio track goes with a video of this extension.
pub fn audio_itag_for(codecs: &ConfigCodecs, extension: &str) -> (r: i16)
    ensures
        extension@ == "mp4"@ ==> r == codecs.yt.audio_normal_mp4,
        extension@ != "mp4"@ ==> r == codecs.yt.audio_normal_webm,
{
    let e = str_chars(extension);
    let m = str_chars("mp4");
    let mut same = e.len() == m.len();
    let mut k: usize = 0;
    while same && k < e.len()
        invariant
            k <= e@.len(),
            same ==> e@.len() == m@.len(),
            same ==> forall|j: int| 0 <= j < k ==> e@[j] == m@[j],
            !same ==> e@ != m@,
        decreases e@.len() - k,
    {
        if e[k] != m[k] {
            same = false;
        }
        k = k + 1;
    }
    if same {
        assert(e@ =~= m@);
        codecs.yt.audio_normal_mp4
    } else {
        codecs.yt.audio_normal_webm
    }
}

/// The audio itag that an audio job downloads: the normal mp4 audio for raw
/// audio and for mp3 conversions, the HQ audio itag for HQ source audio,
/// none for any other code.
pub open spec fn audio_itag_spec(codecs: ConfigCodecs, id: i16) -> Option<i16> {
    if id == codecs.audio_raw {
        Some(codecs.yt.audio_normal_mp4)
    } else if id == codecs.audio_source_hq {
        Some(codecs.yt.audio_hq)
    } else if id == codecs.audio_mp3 {
        Some(codecs.yt.audio_normal_mp4)
    } else {
        None
    }
}

/// The itags of the audio codes (which differ in the configuration): HQ
/// source audio downloads the HQ audio itag, raw audio and mp3 conversions
/// the normal mp4 audio itag, and any other code has none.
pub proof fn lemma_audio_itags(codecs: ConfigCodecs, id: i16)
    requires
        codecs.audio_raw != codecs.audio_source_hq,
        codecs.audio_raw != codecs.audio_mp3,
        codecs.audio_source_hq != codecs.audio_mp3,
    ensures
        id == codecs.audio_source_hq ==> audio_itag_spec(codecs, id) == Some(codecs.yt.audio_hq),
        id == codecs.audio_raw ==> audio_itag_spec(codecs, id) == Some(codecs.yt.audio_normal_mp4),
        id == codecs.audio_mp3 ==> audio_itag_spec(codecs, id) == Some(codecs.yt.audio_normal_mp4),
        !(id == codecs.audio_source_hq || id == codecs.audio_raw || id == codecs.audio_mp3)
            ==> audio_itag_spec(codecs, id) is None,
{
}

/// The format to download for an audio job, or
/// `InputError("Unknown audio quality!")`.
pub fn get_audio_quality(codecs: &ConfigCodecs, id: &i16) -> (r: Result<String, Error>)
    ensures
        audio_itag_spec(*codecs, *id) matches Some(itag) ==> (r matches Ok(s) && s@ == int_dec(
            itag as int,
        )),
        audio_itag_spec(*codecs, *id) is None ==> (r matches Err(Error::InputError(m)) && m@
            == "Unknown audio quality!"@),
{
    let itag = if *id == codecs.audio_raw {
        codecs.yt.audio_normal_mp4
    } else if *id == codecs.audio_source_hq {
        codecs.yt.audio_hq
    } else if *id == codecs.audio_mp3 {
        codecs.yt.audio_normal_mp4
    } else {
        return Err(Error::InputError("Unknown audio quality!".to_string()));
    };
    let c = i64_chars(itag as i64);
    Ok(string_from_chars(c.as_slice()))
}

/// The extension of an audio job's result: `m4a` for raw and HQ source
/// audio, `mp3` for conversions, the source's own otherwise.
pub fn audio_extension(codecs: &ConfigCodecs, quality: i16, source: &str) -> (r: String)
    ensures
        (quality == codecs.audio_raw || quality == codecs.audio_source_hq) ==> r@ == "m4a"@,
        !(quality == codecs.audio_raw || quality == codecs.audio_source_hq) && quality
            == codecs.audio_mp3 ==> r@ == "mp3"@,
        !(quality == codecs.audio_raw || quality == codecs.audio_source_hq || quality
            == codecs.audio_mp3) ==> r@ == source@,
{
    if quality == codecs.audio_raw || quality == codecs.audio_source_hq {
        "m4a".to_string()
    } else if quality == codecs.audio_mp3 {
        "mp3".to_string()
    } else {
        source.to_string()
    }
}

/// What to do with the answer to a file-name request.
pub enum NameStep {
    /// Use this name and download normally
    Use(Filename),
    /// The video is blocked here: fetch it through the external lib
    AskLib,
    /// Give up with this error
    Fail(Error),
}

/// A region block is handed to the external lib when it is enabled and
/// reported as `NotAvailable` otherwise; other failures end the job.
pub fn get_name_step(result: Result<Filename, Error>, lib_use: bool) -> (r: NameStep)
    ensures
        result matches Ok(f) ==> r == NameStep::Use(f),
        (result matches Err(Error::DMCAError)) && lib_use ==> r is AskLib,
        (result matches Err(Error::DMCAError)) && !lib_use ==> r matches NameStep::Fail(
            Error::NotAvailable,
        ),
        (result matches Err(e) && !(e is DMCAError)) ==> r == NameStep::Fail(result->Err_0),
{
    match result {
        Ok(v) => NameStep::Use(v),
        Err(Error::DMCAError) => {
            if lib_use {
                NameStep::AskLib
            } else {
                NameStep::Fail(Error::NotAvailable)
            }
        },
        Err(e) => NameStep::Fail(e),
    }
}

} // verus!
