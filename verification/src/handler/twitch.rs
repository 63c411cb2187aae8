//! The twitch handler's URL pattern and quality names.
//!
//! A video URL is what the pattern
//! `https?://(secure|www)\.twitch\.tv/[A-Za-z0-9]+/v/[0-9]+` finds somewhere
//! in the text.
use vstd::prelude::*;
use crate::text::{lit_at, str_chars};
use crate::pattern::{
    CharClass, in_class, all_in, one_in, one_in_exec, run_end, after_lit, lemma_run_end_unique,
};
use crate::common::{Error, Request};

verus! {

broadcast use vstd::string::group_string_axioms;

pub open spec fn tw_video_at(s: Seq<char>, i: int) -> bool {
    ||| (lit_at(s, i, "http://"@) && tw_after_scheme(s, i + "http://"@.len()))
    ||| (lit_at(s, i, "https://"@) && tw_after_scheme(s, i + "https://"@.len()))
}

/// `(secure|www)\.twitch\.tv/...`
pub open spec fn tw_after_scheme(s: Seq<char>, j: int) -> bool {
    ||| (lit_at(s, j, "secure"@) && tw_domain(s, j + "secure"@.len()))
    ||| (lit_at(s, j, "www"@) && tw_domain(s, j + "www"@.len()))
}

/// `\.twitch\.tv/[A-Za-z0-9]+/v/[0-9]+`
pub open spec fn tw_domain(s: Seq<char>, k: int) -> bool {
    lit_at(s, k, ".twitch.tv/"@) && exists|m: int| #[trigger]
        tw_channel_then_video(s, k + ".twitch.tv/"@.len(), m)
}

/// A channel name of `m` characters from `p`, then `/v/` and a digit.
pub open spec fn tw_channel_then_video(s: Seq<char>, p: int, m: int) -> bool {
    &&& m >= 1
    &&& all_in(s, p, p + m, CharClass::Alnum)
    &&& lit_at(s, p + m, "/v/"@)
    &&& one_in(s, p + m + "/v/"@.len(), CharClass::Digit)
}

/// The twitch video pattern matches somewhere in `s`.
pub open spec fn tw_video_match(s: Seq<char>) -> bool {
    exists|i: int| #[trigger] tw_video_at(s, i)
}

fn domain(s: &[char], k: usize) -> (r: bool)
    ensures
        r == tw_domain(s@, k as int),
{
    match after_lit(s, k, ".twitch.tv/") {
        None => false,
        Some(p) => {
            let e = run_end(s, p, CharClass::Alnum);
            let ok = e > p && match after_lit(s, e, "/v/") {
                Some(t) => one_in_exec(s, t, CharClass::Digit),
                None => false,
            };
            proof {
                reveal_strlit("/v/");
                if ok {
                    assert(tw_channel_then_video(s@, p as int, e - p));
                }
                assert forall|m: int| !ok implies !#[trigger] tw_channel_then_video(
                    s@,
                    p as int,
                    m,
                ) by {
                    if tw_channel_then_video(s@, p as int, m) {
                        assert(s@.subrange(p + m, p + m + 3)[0] == s@[p + m]);
                        assert(s@[p + m] == '/');
                        lemma_run_end_unique(s@, p as int, e as int, p + m, CharClass::Alnum);
                    }
                }
            }
            ok
        },
    }
}

fn after_scheme(s: &[char], j: usize) -> (r: bool)
    ensures
        r == tw_after_scheme(s@, j as int),
{
    let a = match after_lit(s, j, "secure") {
        Some(k) => domain(s, k),
        None => false,
    };
    if a {
        return true;
    }
    match after_lit(s, j, "www") {
        Some(k) => domain(s, k),
        None => false,
    }
}

fn video_at(s: &[char], i: usize) -> (r: bool)
    ensures
        r == tw_video_at(s@, i as int),
{
    let a = match after_lit(s, i, "http://") {
        Some(t) => after_scheme(s, t),
        None => false,
    };
    if a {
        return true;
    }
    match after_lit(s, i, "https://") {
        Some(t) => after_scheme(s, t),
        None => false,
    }
}

/// Whether the twitch video pattern matches somewhere in `url`.
pub fn is_video_url(url: &str) -> (r: bool)
    ensures
        r == tw_video_match(url@),
{
    let s = str_chars(url);
    let mut i: usize = 0;
    while i < s.len()
        invariant
            i <= s@.len(),
            s@ == url@,
            forall|j: int| 0 <= j < i ==> !#[trigger] tw_video_at(s@, j),
        decreases s@.len() - i,
    {
        if video_at(s.as_slice(), i) {
            return true;
        }
        i = i + 1;
    }
    proof {
        reveal_strlit("http://");
        reveal_strlit("https://");
    }
    assert forall|j: int| !#[trigger] tw_video_at(s@, j) by {
        if j >= i {
            assert(!lit_at(s@, j, "http://"@));
            assert(!lit_at(s@, j, "https://"@));
        }
    }
    false
}

/// A twitch video page is a video URL: `https://www.twitch.tv/{channel}/v/{n}`
/// with a non-empty channel of `[A-Za-z0-9]` and a number that starts with a
/// digit is accepted, on `secure.` as on `www.`.
pub proof fn lemma_video_page_accepted(host: Seq<char>, channel: Seq<char>, rest: Seq<char>)
    requires
        host == "www"@ || host == "secure"@,
        channel.len() > 0,
        all_in(channel, 0, channel.len() as int, CharClass::Alnum),
        rest.len() > 0,
        in_class(rest[0], CharClass::Digit),
    ensures
        tw_video_match("https://"@ + host + ".twitch.tv/"@ + channel + "/v/"@ + rest),
{
    reveal_strlit("https://");
    reveal_strlit("www");
    reveal_strlit("secure");
    reveal_strlit(".twitch.tv/");
    reveal_strlit("/v/");
    let s = "https://"@ + host + ".twitch.tv/"@ + channel + "/v/"@ + rest;
    let h: int = 8 + host.len() as int;
    let p: int = h + 11;
    let m: int = channel.len() as int;
    assert(s.subrange(0, 8) =~= "https://"@);
    assert(s.subrange(8, h) =~= host);
    assert(s.subrange(h, p) =~= ".twitch.tv/"@);
    assert(all_in(s, p, p + m, CharClass::Alnum)) by {
        assert forall|j: int| p <= j < p + m implies in_class(#[trigger] s[j], CharClass::Alnum) by {
            assert(s[j] == channel[j - p]);
        }
    }
    assert(s.subrange(p + m, p + m + 3) =~= "/v/"@);
    assert(s[p + m + 3] == rest[0]);
    assert(tw_channel_then_video(s, p, m));
    assert(tw_domain(s, h));
    assert(tw_after_scheme(s, 8));
    assert(tw_video_at(s, 0));
}

/// The file handler takes single (non-playlist) requests for twitch videos.
pub fn checker_file(data: &Request) -> (r: bool)
    ensures
        r == (!data.playlist && tw_video_match(data.url@)),
{
    if data.playlist {
        return false;
    }
    is_video_url(data.url.as_str())
}

/// The downloader's name of each twitch quality code.
pub open spec fn tw_quality_name(q: i16) -> Option<Seq<char>> {
    if q == -14 {
        Some("Source"@)
    } else if q == -13 {
        Some("High"@)
    } else if q == -12 {
        Some("Medium"@)
    } else if q == -11 {
        Some("Low"@)
    } else if q == -10 {
        Some("Mobile"@)
    } else {
        None
    }
}

/// The twitch quality codes of the configuration documentation: -10 asks
/// for "Mobile", -11 for "Low", -12 for "Medium", -13 for "High", -14 for
/// "Source"; every other code has no twitch quality.
pub proof fn lemma_twitch_qualities(q: i16)
    ensures
        q == -10 ==> tw_quality_name(q) == Some("Mobile"@),
        q == -11 ==> tw_quality_name(q) == Some("Low"@),
        q == -12 ==> tw_quality_name(q) == Some("Medium"@),
        q == -13 ==> tw_quality_name(q) == Some("High"@),
        q == -14 ==> tw_quality_name(q) == Some("Source"@),
        (q < -14 || q > -10) ==> tw_quality_name(q) is None,
{
}

/// The quality name to ask the downloader for; codes other than -14 to -10
/// are refused with `InputError("Unknown quality!")`.
pub fn get_quality(qual_id: &i16) -> (r: Result<String, Error>)
    ensures
        tw_quality_name(*qual_id) matches Some(name) ==> (r matches Ok(s) && s@ == name),
        tw_quality_name(*qual_id) is None ==> (r matches Err(Error::InputError(m)) && m@
            == "Unknown quality!"@),
{
    let qual = if *qual_id == -14 {
        "Source"
    } else if *qual_id == -13 {
        "High"
    } else if *qual_id == -12 {
        "Medium"
    } else if *qual_id == -11 {
        "Low"
    } else if *qual_id == -10 {
        "Mobile"
    } else {
        return Err(Error::InputError("Unknown quality!".to_string()));
    };
    Ok(qual.to_string())
}

} // verus!
