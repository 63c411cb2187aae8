//! What the backend asks ffmpeg and ffprobe, and the numbers it reads back
//! from their output. The arithmetic on those numbers (progress in percent)
//! is floating point and happens outside this crate. Where a pattern has
//! `\d`, it is read as an ASCII digit (`CharClass::Digit`).
use vstd::prelude::*;
use crate::text::{str_chars, string_from_chars, slice_string, lit_at, lit_at_exec, int_dec, i64_chars};
use crate::pattern::{CharClass, in_class, max_run, run_end_max, lit_len};
use crate::downloader::string_views;

verus! {

broadcast use vstd::string::group_string_axioms;

// ---------------------------------------------------------------------------
// ffprobe: `duration=(\d+\.?\d*)` and `r_frame_rate=(\d+)/(\d+)`
// ---------------------------------------------------------------------------

/// End of the greedy `\d+\.?\d*` from `p`, or `p` when no digit stands there.
pub open spec fn decimal_end(s: Seq<char>, p: int) -> int {
    let q = max_run(s, p, CharClass::Digit);
    if q == p {
        p
    } else if q < s.len() && s[q] == '.' {
        max_run(s, q + 1, CharClass::Digit)
    } else {
        q
    }
}

/// The number after the first `duration=` that is followed by a digit
/// (the leftmost match of the duration pattern), as text.
pub open spec fn duration_capture(s: Seq<char>) -> Option<Seq<char>> {
    if exists|i: int| #[trigger] duration_at(s, i) {
        let i = choose|i: int| #[trigger] duration_at(s, i) && forall|j: int|
            0 <= j < i ==> !duration_at(s, j);
        let p = i + "duration="@.len();
        Some(s.subrange(p, decimal_end(s, p)))
    } else {
        None
    }
}

pub open spec fn duration_at(s: Seq<char>, i: int) -> bool {
    let p = i + "duration="@.len();
    lit_at(s, i, "duration="@) && p < s.len() && in_class(s[p], CharClass::Digit)
}

/// Position of the leftmost duration match.
fn duration_pos(s: &[char]) -> (r: Option<usize>)
    ensures
        r is None ==> forall|i: int| !#[trigger] duration_at(s@, i),
        r matches Some(i) ==> duration_at(s@, i as int) && forall|j: int|
            0 <= j < i ==> !#[trigger] duration_at(s@, j),
{
    let l = str_chars("duration=");
    let n = s.len();
    let mut i: usize = 0;
    while i < n
        invariant
            i <= n == s@.len(),
            l@ == "duration="@,
            forall|j: int| 0 <= j < i ==> !#[trigger] duration_at(s@, j),
        decreases n - i,
    {
        if lit_at_exec(s, i, l.as_slice()) {
            let p = i + l.len();
            if p < n && s[p] >= '0' && s[p] <= '9' {
                return Some(i);
            }
        }
        i = i + 1;
    }
    None
}

/// The duration that ffprobe reports, as text.
pub fn probe_duration(stdout: &str) -> (r: Option<String>)
    ensures
        r is None ==> duration_capture(stdout@) is None,
        r matches Some(c) ==> duration_capture(stdout@) == Some(c@),
{
    let s = str_chars(stdout);
    match duration_pos(s.as_slice()) {
        None => None,
        Some(i) => {
            let p = i + lit_len("duration=");
            let q = run_end_max(s.as_slice(), p, CharClass::Digit);
            let e = if q < s.len() && s[q] == '.' {
                run_end_max(s.as_slice(), q + 1, CharClass::Digit)
            } else {
                q
            };
            proof {
                let i2 = choose|i2: int| #[trigger] duration_at(s@, i2) && forall|j: int|
                    0 <= j < i2 ==> !duration_at(s@, j);
                assert(i2 == i) by {
                    if i2 < i {
                        assert(!duration_at(s@, i2));
                    } else if i2 > i {
                        assert(!duration_at(s@, i as int));
                    }
                }
            }
            Some(slice_string(s.as_slice(), p, e))
        },
    }
}

pub open spec fn frame_rate_at(s: Seq<char>, i: int) -> bool {
    let p = i + "r_frame_rate="@.len();
    let q = max_run(s, p, CharClass::Digit);
    &&& lit_at(s, i, "r_frame_rate="@)
    &&& q > p
    &&& q < s.len()
    &&& s[q] == '/'
    &&& max_run(s, q + 1, CharClass::Digit) > q + 1
}

/// The numerator and denominator of the leftmost frame-rate match.
pub open spec fn frame_rate_capture(s: Seq<char>) -> Option<(Seq<char>, Seq<char>)> {
    if exists|i: int| #[trigger] frame_rate_at(s, i) {
        let i = choose|i: int| #[trigger] frame_rate_at(s, i) && forall|j: int|
            0 <= j < i ==> !frame_rate_at(s, j);
        let p = i + "r_frame_rate="@.len();
        let q = max_run(s, p, CharClass::Digit);
        Some((s.subrange(p, q), s.subrange(q + 1, max_run(s, q + 1, CharClass::Digit))))
    } else {
        None
    }
}

/// The frame rate that ffprobe reports, as numerator and denominator text.
pub fn probe_frame_rate(stdout: &str) -> (r: Option<(String, String)>)
    ensures
        r is None ==> frame_rate_capture(stdout@) is None,
        r matches Some((a, b)) ==> frame_rate_capture(stdout@) == Some((a@, b@)),
{
    let s = str_chars(stdout);
    let l = str_chars("r_frame_rate=");
    let n = s.len();
    let mut i: usize = 0;
    while i < n
        invariant
            i <= n == s@.len(),
            s@ == stdout@,
            l@ == "r_frame_rate="@,
            forall|j: int| 0 <= j < i ==> !#[trigger] frame_rate_at(s@, j),
        decreases n - i,
    {
        if lit_at_exec(s.as_slice(), i, l.as_slice()) {
            let p = i + l.len();
            let q = run_end_max(s.as_slice(), p, CharClass::Digit);
            if q > p && q < n && s[q] == '/' {
                let e = run_end_max(s.as_slice(), q + 1, CharClass::Digit);
                if e > q + 1 {
                    proof {
                        assert(frame_rate_at(s@, i as int));
                        let i2 = choose|i2: int| #[trigger] frame_rate_at(s@, i2) && forall|j: int|
                            0 <= j < i2 ==> !frame_rate_at(s@, j);
                        assert(i2 == i) by {
                            if i2 < i {
                                assert(!frame_rate_at(s@, i2));
                            } else if i2 > i {
                                assert(!frame_rate_at(s@, i as int));
                            }
                        }
                    }
                    return Some(
                        (slice_string(s.as_slice(), p, q), slice_string(s.as_slice(), q + 1, e)),
                    );
                }
            }
        }
        i = i + 1;
    }
    proof {
        reveal_strlit("r_frame_rate=");
    }
    assert forall|j: int| !#[trigger] frame_rate_at(s@, j) by {
        if 0 <= j < i {
        }
    }
    None
}

// ---------------------------------------------------------------------------
// ffmpeg progress: `frame=\s*(\d+)` and `time=(\d+):(\d+):(\d+.?\d*)`
// ---------------------------------------------------------------------------

pub open spec fn frame_at(s: Seq<char>, i: int) -> bool {
    let w = max_run(s, i + "frame="@.len(), CharClass::White);
    lit_at(s, i, "frame="@) && w < s.len() && in_class(s[w], CharClass::Digit)
}

/// The frame number of the leftmost frame match, as text.
pub open spec fn frame_capture(s: Seq<char>) -> Option<Seq<char>> {
    if exists|i: int| #[trigger] frame_at(s, i) {
        let i = choose|i: int| #[trigger] frame_at(s, i) && forall|j: int|
            0 <= j < i ==> !frame_at(s, j);
        let w = max_run(s, i + "frame="@.len(), CharClass::White);
        Some(s.subrange(w, max_run(s, w, CharClass::Digit)))
    } else {
        None
    }
}

/// The frame number in a line of ffmpeg's progress output, as text.
pub fn progress_frame(line: &str) -> (r: Option<String>)
    ensures
        r is None ==> frame_capture(line@) is None,
        r matches Some(c) ==> frame_capture(line@) == Some(c@),
{
    let s = str_chars(line);
    let l = str_chars("frame=");
    let n = s.len();
    let mut i: usize = 0;
    while i < n
        invariant
            i <= n == s@.len(),
            s@ == line@,
            l@ == "frame="@,
            forall|j: int| 0 <= j < i ==> !#[trigger] frame_at(s@, j),
        decreases n - i,
    {
        if lit_at_exec(s.as_slice(), i, l.as_slice()) {
            let w = run_end_max(s.as_slice(), i + l.len(), CharClass::White);
            if w < n && s[w] >= '0' && s[w] <= '9' {
                let e = run_end_max(s.as_slice(), w, CharClass::Digit);
                proof {
                    assert(frame_at(s@, i as int));
                    let i2 = choose|i2: int| #[trigger] frame_at(s@, i2) && forall|j: int|
                        0 <= j < i2 ==> !frame_at(s@, j);
                    assert(i2 == i) by {
                        if i2 < i {
                            assert(!frame_at(s@, i2));
                        } else if i2 > i {
                            assert(!frame_at(s@, i as int));
                        }
                    }
                }
                return Some(slice_string(s.as_slice(), w, e));
            }
        }
        i = i + 1;
    }
    proof {
        reveal_strlit("frame=");
    }
    assert forall|j: int| !#[trigger] frame_at(s@, j) by {
        if 0 <= j < i {
        }
    }
    None
}

/// Positions of the time match from `i`: end of the hours, end of the
/// minutes, end of the seconds' leading digits.
pub open spec fn time_at(s: Seq<char>, i: int) -> bool {
    let p = i + "time="@.len();
    let h = max_run(s, p, CharClass::Digit);
    let m = max_run(s, h + 1, CharClass::Digit);
    &&& lit_at(s, i, "time="@)
    &&& h > p
    &&& h < s.len()
    &&& s[h] == ':'
    &&& m > h + 1
    &&& m < s.len()
    &&& s[m] == ':'
    &&& max_run(s, m + 1, CharClass::Digit) > m + 1
}

/// End of the greedy `\d+.?\d*` from `p`: the digits, then any one character
/// but a line feed, then digits again.
pub open spec fn seconds_end(s: Seq<char>, p: int) -> int {
    let q = max_run(s, p, CharClass::Digit);
    if q < s.len() && s[q] != '\n' {
        max_run(s, q + 1, CharClass::Digit)
    } else {
        q
    }
}

/// Hours, minutes and seconds of the leftmost time match, as text.
pub open spec fn time_capture(s: Seq<char>) -> Option<(Seq<char>, Seq<char>, Seq<char>)> {
    if exists|i: int| #[trigger] time_at(s, i) {
        let i = choose|i: int| #[trigger] time_at(s, i) && forall|j: int|
            0 <= j < i ==> !time_at(s, j);
        let p = i + "time="@.len();
        let h = max_run(s, p, CharClass::Digit);
        let m = max_run(s, h + 1, CharClass::Digit);
        Some((s.subrange(p, h), s.subrange(h + 1, m), s.subrange(m + 1, seconds_end(s, m + 1))))
    } else {
        None
    }
}

/// Hours, minutes and seconds in a line of ffmpeg's progress output.
pub fn progress_time(line: &str) -> (r: Option<(String, String, String)>)
    ensures
        r is None ==> time_capture(line@) is None,
        r matches Some((a, b, c)) ==> time_capture(line@) == Some((a@, b@, c@)),
{
    let s = str_chars(line);
    let l = str_chars("time=");
    let n = s.len();
    let mut i: usize = 0;
    while i < n
        invariant
            i <= n == s@.len(),
            s@ == line@,
            l@ == "time="@,
            forall|j: int| 0 <= j < i ==> !#[trigger] time_at(s@, j),
        decreases n - i,
    {
        if lit_at_exec(s.as_slice(), i, l.as_slice()) {
            let p = i + l.len();
            let h = run_end_max(s.as_slice(), p, CharClass::Digit);
            if h > p && h < n && s[h] == ':' {
                let m = run_end_max(s.as_slice(), h + 1, CharClass::Digit);
                if m > h + 1 && m < n && s[m] == ':' {
                    let q = run_end_max(s.as_slice(), m + 1, CharClass::Digit);
                    if q > m + 1 {
                        let e = if q < n && s[q] != '\n' {
                            run_end_max(s.as_slice(), q + 1, CharClass::Digit)
                        } else {
                            q
                        };
                        proof {
                            assert(time_at(s@, i as int));
                            let i2 = choose|i2: int| #[trigger] time_at(s@, i2) && forall|j: int|
                                0 <= j < i2 ==> !time_at(s@, j);
                            assert(i2 == i) by {
                                if i2 < i {
                                    assert(!time_at(s@, i2));
                                } else if i2 > i {
                                    assert(!time_at(s@, i as int));
                                }
                            }
                        }
                        return Some(
                            (
                                slice_string(s.as_slice(), p, h),
                                slice_string(s.as_slice(), h + 1, m),
                                slice_string(s.as_slice(), m + 1, e),
                            ),
                        );
                    }
                }
            }
        }
        i = i + 1;
    }
    proof {
        reveal_strlit("time=");
    }
    assert forall|j: int| !#[trigger] time_at(s@, j) by {
        if 0 <= j < i {
        }
    }
    None
}

// ---------------------------------------------------------------------------
// Command lines
// ---------------------------------------------------------------------------

/// The converter: where the ffmpeg binaries are, and the mp3 quality.
pub struct Converter {
    pub ffmpeg_dir: String,
    pub mp3_quality: i16,
}

fn push_lit(v: &mut Vec<String>, a: &str)
    ensures
        string_views(final(v)@) == string_views(old(v)@).push(a@),
{
    let ghost before = v@;
    v.push(a.to_string());
    assert(string_views(v@) =~= string_views(before).push(a@));
}

impl Converter {
    pub fn new(ffmpeg_dir: &str, mp3_quality: i16) -> (r: Converter)
        ensures
            r.ffmpeg_dir@ == ffmpeg_dir@,
            r.mp3_quality == mp3_quality,
    {
        Converter { ffmpeg_dir: ffmpeg_dir.to_string(), mp3_quality }
    }

    /// Arguments every ffmpeg and ffprobe run starts with: errors only.
    pub fn base_args(&self) -> (r: Vec<String>)
        ensures
            string_views(r@) == seq!["-v"@, "error"@],
    {
        let mut v: Vec<String> = Vec::new();
        push_lit(&mut v, "-v");
        push_lit(&mut v, "error");
        v
    }

    /// ffprobe arguments that report the first stream's duration and frame rate.
    pub fn probe_args(&self, video_file: &str) -> (r: Vec<String>)
        ensures
            string_views(r@) == seq![
                "-v"@,
                "error"@,
                "-select_streams"@,
                "0"@,
                "-show_entries"@,
                "stream=duration,r_frame_rate"@,
                "-of"@,
                "default=noprint_wrappers=1"@,
                video_file@,
            ],
    {
        let mut v = self.base_args();
        push_lit(&mut v, "-select_streams");
        push_lit(&mut v, "0");
        push_lit(&mut v, "-show_entries");
        push_lit(&mut v, "stream=duration,r_frame_rate");
        push_lit(&mut v, "-of");
        push_lit(&mut v, "default=noprint_wrappers=1");
        push_lit(&mut v, video_file);
        v
    }

    /// ffmpeg arguments that put the video and the audio file into one.
    pub fn merge_args(&self, audio_file: &str, video_file: &str, output_file: &str) -> (r: Vec<
        String,
    >)
        ensures
            string_views(r@) == seq![
                "-v"@,
                "error"@,
                "-threads"@,
                "0"@,
                "-i"@,
                video_file@,
                "-i"@,
                audio_file@,
                "-map"@,
                "0"@,
                "-map"@,
                "1"@,
                "-codec"@,
                "copy"@,
                "-shortest"@,
                output_file@,
            ],
    {
        let mut v = self.base_args();
        push_lit(&mut v, "-threads");
        push_lit(&mut v, "0");
        push_lit(&mut v, "-i");
        push_lit(&mut v, video_file);
        push_lit(&mut v, "-i");
        push_lit(&mut v, audio_file);
        push_lit(&mut v, "-map");
        push_lit(&mut v, "0");
        push_lit(&mut v, "-map");
        push_lit(&mut v, "1");
        push_lit(&mut v, "-codec");
        push_lit(&mut v, "copy");
        push_lit(&mut v, "-shortest");
        push_lit(&mut v, output_file);
        v
    }

    /// ffmpeg arguments that copy the audio track out of a video.
    pub fn audio_extract_args(&self, video_file: &str, output_file: &str) -> (r: Vec<String>)
        ensures
            string_views(r@) == seq![
                "-v"@,
                "error"@,
                "-threads"@,
                "0"@,
                "-i"@,
                video_file@,
                "-vn"@,
                "-acodec"@,
                "copy"@,
                output_file@,
            ],
    {
        let mut v = self.base_args();
        push_lit(&mut v, "-threads");
        push_lit(&mut v, "0");
        push_lit(&mut v, "-i");
        push_lit(&mut v, video_file);
        push_lit(&mut v, "-vn");
        push_lit(&mut v, "-acodec");
        push_lit(&mut v, "copy");
        push_lit(&mut v, output_file);
        v
    }

    /// ffmpeg arguments that convert a video's audio to mp3 at the configured
    /// quality.
    pub fn audio_extract_to_mp3_args(&self, video_file: &str, output_file: &str) -> (r: Vec<
        String,
    >)
        ensures
            string_views(r@) == seq![
                "-v"@,
                "error"@,
                "-threads"@,
                "0"@,
                "-i"@,
                video_file@,
                "-codec:a"@,
                "libmp3lame"@,
                "-qscale:a"@,
                int_dec(self.mp3_quality as int),
                output_file@,
            ],
    {
        let mut v = self.base_args();
        push_lit(&mut v, "-threads");
        push_lit(&mut v, "0");
        push_lit(&mut v, "-i");
        push_lit(&mut v, video_file);
        push_lit(&mut v, "-codec:a");
        push_lit(&mut v, "libmp3lame");
        push_lit(&mut v, "-qscale:a");
        let q = i64_chars(self.mp3_quality as i64);
        let qs = string_from_chars(q.as_slice());
        let ghost before = v@;
        v.push(qs);
        assert(string_views(v@) =~= string_views(before).push(int_dec(self.mp3_quality as int)));
        push_lit(&mut v, output_file);
        v
    }
}

} // verus!
