//! The steps of a single youtube video or audio job.
//!
//! A job alternates between decisions and outside work (downloads, ffmpeg,
//! the file system, the database). The decisions are step functions: from
//! the job's state and the answer to the last outside request they give the
//! next state and the actions to perform, in order. The program around the
//! library performs the actions, and answers `GetName` and `PlaceFile`.
use vstd::prelude::*;
use crate::text::{str_chars, string_from_chars, push_all, nat_dec, int_dec, u64_chars, i64_chars};
use crate::common::{Error, Request};
use crate::config::ConfigCodecs;
use crate::downloader::Filename;
use crate::handler::youtube::{
    audio_itag_for, audio_itag_spec, get_audio_quality, audio_extension, video_url, YT_VIDEO_URL,
    PlaylistProgress, FAILED_LOG_HEADER, PLAYLIST_LISTED_STEP,
};
use crate::downloader::string_views;
use crate::pattern::{CharClass, all_in};
use crate::handler::youtube::{yt_video_match, lemma_video_url_accepted};
use crate::handler::twitch::{get_quality, tw_quality_name};

verus! {

broadcast use vstd::string::group_string_axioms;

// ---------------------------------------------------------------------------
// Paths of the job's temporary files
// ---------------------------------------------------------------------------

/// `PathBuf::push` of a relative name: the name alone on an empty path, else
/// appended with one `/` between.
pub open spec fn path_join(dir: Seq<char>, name: Seq<char>) -> Seq<char> {
    if dir.len() == 0 {
        name
    } else if dir.last() == '/' {
        dir + name
    } else {
        dir + seq!['/'] + name
    }
}

/// A temporary file of the job: its query id, then `suffix`, in the job's
/// temporary folder.
pub open spec fn temp_file(req: Request, suffix: Seq<char>) -> Seq<char> {
    path_join(req.temp_path@, nat_dec(req.qid as nat) + suffix)
}

fn join_path(dir: &str, name: &[char]) -> (r: String)
    ensures
        r@ == path_join(dir@, name@),
{
    let mut v = str_chars(dir);
    if v.len() > 0 && v[v.len() - 1] != '/' {
        v.push('/');
    }
    push_all(&mut v, name);
    string_from_chars(v.as_slice())
}

fn job_temp_file(req: &Request, suffix: &str) -> (r: String)
    ensures
        r@ == temp_file(*req, suffix@),
{
    let mut n = u64_chars(req.qid);
    let s = str_chars(suffix);
    push_all(&mut n, s.as_slice());
    join_path(req.temp_path.as_str(), n.as_slice())
}

fn number_string(n: i64) -> (r: String)
    ensures
        r@ == int_dec(n as int),
{
    let c = i64_chars(n);
    string_from_chars(c.as_slice())
}

fn copy_filename(f: &Filename) -> (r: Filename)
    ensures
        r.name@ == f.name@,
        r.extension@ == f.extension@,
{
    Filename { name: f.name.clone(), extension: f.extension.clone() }
}

// ---------------------------------------------------------------------------
// Actions, states, events
// ---------------------------------------------------------------------------

/// One piece of outside work of a job.
pub enum JobAction {
    /// Mark the query as running
    SetInProgress,
    /// Create this folder; the job's temporary files go there from now on
    EnterTempDir(String),
    /// Remove the folder and its contents
    RemoveDir(String),
    /// Ask for the video's file name as the downloader gives it, without a
    /// quality (answered by `Named`)
    GetFileName,
    /// Record a temporary file
    PushTemp(String),
    /// The last recorded temporary file is dealt with
    PopTemp,
    /// Show step `.0` of `.1`
    Progress(i32, i32),
    /// Ask for the video's name (answered by `Named`); for the requested
    /// quality when `use_quality`; a region block fetches the file into `path`
    GetName { use_quality: bool, want_video: bool, path: String },
    /// Find the save path for this name (answered by `Placed`)
    PlaceFile(Filename),
    /// Download the format `quality` into `target`
    Download { target: String, quality: String },
    /// Merge a video and an audio file into `output`
    Merge { video: String, audio: String, output: String },
    /// Extract the audio of `source` into `output`, converting to mp3 if `mp3`
    ExtractAudio { source: String, output: String, mp3: bool },
    /// Move a file
    Move { from: String, to: String },
    /// Record a result file with its original name
    AddFile { path: String, origin: String },
    /// Remove a file
    RemoveFile(String),
    /// End the job with this error
    Fail(Error),
}

/// Where a job stands.
pub enum JobState {
    /// Nothing done yet
    Start,
    /// Waiting for the video's name
    Naming,
    /// Waiting for the save path of this name; `true` when the file was
    /// already fetched through the external lib
    Placing(Filename, bool),
    /// No more work
    Finished,
}

/// The answer to the job's last request.
pub enum JobEvent {
    /// The job begins
    Begin,
    /// The video's name, and whether the external lib fetched the file
    Named(Filename, bool),
    /// The save path found for the name
    Placed(String),
}

/// An action as plain values.
pub enum Act {
    SetInProgress,
    EnterTempDir(Seq<char>),
    RemoveDir(Seq<char>),
    GetFileName,
    PushTemp(Seq<char>),
    PopTemp,
    Progress(i32, i32),
    GetName(bool, bool, Seq<char>),
    PlaceFile(Seq<char>, Seq<char>),
    Download(Seq<char>, Seq<char>),
    Merge(Seq<char>, Seq<char>, Seq<char>),
    ExtractAudio(Seq<char>, Seq<char>, bool),
    Move(Seq<char>, Seq<char>),
    AddFile(Seq<char>, Seq<char>),
    RemoveFile(Seq<char>),
    FailInput(Seq<char>),
    FailOther,
}

/// A state as plain values.
pub enum StateView {
    Start,
    Naming,
    Placing(Seq<char>, Seq<char>, bool),
    Finished,
}

/// An event as plain values.
pub enum EventView {
    Begin,
    Named(Seq<char>, Seq<char>, bool),
    Placed(Seq<char>),
}

pub open spec fn act(a: JobAction) -> Act {
    match a {
        JobAction::SetInProgress => Act::SetInProgress,
        JobAction::EnterTempDir(d) => Act::EnterTempDir(d@),
        JobAction::RemoveDir(d) => Act::RemoveDir(d@),
        JobAction::GetFileName => Act::GetFileName,
        JobAction::PushTemp(p) => Act::PushTemp(p@),
        JobAction::PopTemp => Act::PopTemp,
        JobAction::Progress(s, m) => Act::Progress(s, m),
        JobAction::GetName { use_quality, want_video, path } => Act::GetName(use_quality, want_video, path@),
        JobAction::PlaceFile(f) => Act::PlaceFile(f.name@, f.extension@),
        JobAction::Download { target, quality } => Act::Download(target@, quality@),
        JobAction::Merge { video, audio, output } => Act::Merge(video@, audio@, output@),
        JobAction::ExtractAudio { source, output, mp3 } => Act::ExtractAudio(source@, output@, mp3),
        JobAction::Move { from, to } => Act::Move(from@, to@),
        JobAction::AddFile { path, origin } => Act::AddFile(path@, origin@),
        JobAction::RemoveFile(p) => Act::RemoveFile(p@),
        JobAction::Fail(e) => match e {
            Error::InputError(m) => Act::FailInput(m@),
            _ => Act::FailOther,
        },
    }
}

pub open spec fn acts(v: Seq<JobAction>) -> Seq<Act> {
    v.map_values(|a: JobAction| act(a))
}

pub open spec fn state_view(s: JobState) -> StateView {
    match s {
        JobState::Start => StateView::Start,
        JobState::Naming => StateView::Naming,
        JobState::Placing(f, d) => StateView::Placing(f.name@, f.extension@, d),
        JobState::Finished => StateView::Finished,
    }
}

pub open spec fn event_view(e: JobEvent) -> EventView {
    match e {
        JobEvent::Begin => EventView::Begin,
        JobEvent::Named(f, d) => EventView::Named(f.name@, f.extension@, d),
        JobEvent::Placed(p) => EventView::Placed(p@),
    }
}

/// `s` with `a` appended when `b` holds.
pub open spec fn push_if(s: Seq<Act>, b: bool, a: Act) -> Seq<Act> {
    if b {
        s.push(a)
    } else {
        s
    }
}

fn push_action(v: &mut Vec<JobAction>, a: JobAction)
    ensures
        acts(final(v)@) == acts(old(v)@).push(act(a)),
{
    let ghost before = v@;
    v.push(a);
    assert(acts(v@) =~= acts(before).push(act(a)));
}

fn push_action_if(v: &mut Vec<JobAction>, b: bool, a: JobAction)
    ensures
        acts(final(v)@) == push_if(acts(old(v)@), b, act(a)),
{
    if b {
        push_action(v, a);
    }
}

/// What an unexpected event does: the job ends without further work.
pub open spec fn stop() -> (StateView, Seq<Act>) {
    (StateView::Finished, Seq::empty())
}

// ---------------------------------------------------------------------------
// Video jobs
// ---------------------------------------------------------------------------

/// The audio itag that goes with a video of extension `ext`.
pub open spec fn audio_itag_of(codecs: ConfigCodecs, ext: Seq<char>) -> i16 {
    if ext == "mp4"@ {
        codecs.yt.audio_normal_mp4
    } else {
        codecs.yt.audio_normal_webm
    }
}

/// The work of a video job once its save path is known. A file that the
/// external lib fetched is moved there and recorded as a result, also inside
/// a playlist. Otherwise the video in the requested
/// quality goes to the temporary file `{qid}`, the audio with the itag for
/// the video's extension to `{qid}a`, and the two are merged into the save
/// path, after which both temporary files go; here progress is shown and the
/// result recorded only for a job that is not part of a playlist.
pub open spec fn video_finish(
    req: Request,
    codecs: ConfigCodecs,
    name: Seq<char>,
    ext: Seq<char>,
    lib_fetched: bool,
    save: Seq<char>,
) -> Seq<Act> {
    let single = !req.playlist;
    let tv = temp_file(req, Seq::empty());
    let ta = temp_file(req, seq!['a']);
    let origin = name + seq!['.'] + ext;
    if lib_fetched {
        seq![Act::Move(tv, save), Act::AddFile(save, origin), Act::PopTemp]
    } else {
        let s = push_if(Seq::empty(), single, Act::Progress(1, 3));
        let s = s.push(Act::Download(tv, int_dec(req.quality as int)));
        let s = push_if(s, single, Act::Progress(2, 3));
        let s = s.push(Act::PushTemp(ta));
        let s = s.push(Act::Download(ta, int_dec(audio_itag_of(codecs, ext) as int)));
        let s = push_if(s, single, Act::Progress(3, 3));
        let s = s.push(Act::Merge(tv, ta, save));
        let s = push_if(s, single, Act::AddFile(save, origin));
        s.push(Act::RemoveFile(ta)).push(Act::PopTemp).push(Act::RemoveFile(tv)).push(Act::PopTemp)
    }
}

/// The steps of a video job: mark it running (single jobs), record the
/// temporary file `{qid}` and ask for the name in the requested quality;
/// then ask for the save path; then `video_finish`.
pub open spec fn video_step(req: Request, codecs: ConfigCodecs, s: StateView, e: EventView) -> (
    StateView,
    Seq<Act>,
) {
    let tv = temp_file(req, Seq::empty());
    match s {
        StateView::Start => match e {
            EventView::Begin => (
                StateView::Naming,
                push_if(Seq::empty(), !req.playlist, Act::SetInProgress).push(Act::PushTemp(tv)).push(
                    Act::GetName(true, true, tv),
                ),
            ),
            _ => stop(),
        },
        StateView::Naming => match e {
            EventView::Named(n, x, d) => (StateView::Placing(n, x, d), seq![Act::PlaceFile(n, x)]),
            _ => stop(),
        },
        StateView::Placing(n, x, d) => match e {
            EventView::Placed(save) => (StateView::Finished, video_finish(req, codecs, n, x, d, save)),
            _ => stop(),
        },
        StateView::Finished => stop(),
    }
}

/// The next step of a video job.
pub fn video_job_next(req: &Request, codecs: &ConfigCodecs, state: JobState, event: JobEvent) -> (r:
    (JobState, Vec<JobAction>))
    ensures
        (state_view(r.0), acts(r.1@)) == video_step(*req, *codecs, state_view(state), event_view(event)),
{
    proof {
        reveal_strlit("");
    }
    let mut v: Vec<JobAction> = Vec::new();
    assert(acts(v@) =~= Seq::<Act>::empty());
    match state {
        JobState::Start => match event {
            JobEvent::Begin => {
                let tv = job_temp_file(req, "");
                push_action_if(&mut v, !req.playlist, JobAction::SetInProgress);
                push_action(&mut v, JobAction::PushTemp(tv.clone()));
                push_action(&mut v, JobAction::GetName { use_quality: true, want_video: true, path: tv });
                (JobState::Naming, v)
            },
            _ => (JobState::Finished, v),
        },
        JobState::Naming => match event {
            JobEvent::Named(name, d) => {
                push_action(&mut v, JobAction::PlaceFile(copy_filename(&name)));
                assert(acts(v@) =~= seq![Act::PlaceFile(name.name@, name.extension@)]);
                (JobState::Placing(name, d), v)
            },
            _ => (JobState::Finished, v),
        },
        JobState::Placing(name, d) => match event {
            JobEvent::Placed(save) => {
                video_finish_actions(&mut v, req, codecs, &name, d, &save);
                (JobState::Finished, v)
            },
            _ => (JobState::Finished, v),
        },
        JobState::Finished => (JobState::Finished, v),
    }
}

fn video_finish_actions(
    v: &mut Vec<JobAction>,
    req: &Request,
    codecs: &ConfigCodecs,
    name: &Filename,
    lib_fetched: bool,
    save: &String,
)
    requires
        old(v)@.len() == 0,
    ensures
        acts(final(v)@) == video_finish(
            *req,
            *codecs,
            name.name@,
            name.extension@,
            lib_fetched,
            save@,
        ),
{
    proof {
        reveal_strlit("");
        reveal_strlit("a");
    }
    assert(acts(v@) =~= Seq::<Act>::empty());
    let single = !req.playlist;
    let tv = job_temp_file(req, "");
    let origin = name.full_name();
    if lib_fetched {
        push_action(v, JobAction::Move { from: tv, to: save.clone() });
        push_action(v, JobAction::AddFile { path: save.clone(), origin });
        push_action(v, JobAction::PopTemp);
        assert(acts(v@) =~= seq![
            Act::Move(temp_file(*req, Seq::empty()), save@),
            Act::AddFile(save@, name.full_name_spec()),
            Act::PopTemp,
        ]);
    } else {
        let ta = job_temp_file(req, "a");
        assert("a"@ =~= seq!['a']);
        let itag = audio_itag_for(codecs, name.extension.as_str());
        push_action_if(v, single, JobAction::Progress(1, 3));
        push_action(
            v,
            JobAction::Download { target: tv.clone(), quality: number_string(req.quality as i64) },
        );
        push_action_if(v, single, JobAction::Progress(2, 3));
        push_action(v, JobAction::PushTemp(ta.clone()));
        push_action(v, JobAction::Download { target: ta.clone(), quality: number_string(itag as i64) });
        push_action_if(v, single, JobAction::Progress(3, 3));
        push_action(v, JobAction::Merge { video: tv.clone(), audio: ta.clone(), output: save.clone() });
        push_action_if(v, single, JobAction::AddFile { path: save.clone(), origin });
        push_action(v, JobAction::RemoveFile(ta));
        push_action(v, JobAction::PopTemp);
        push_action(v, JobAction::RemoveFile(tv));
        push_action(v, JobAction::PopTemp);
    }
}

// ---------------------------------------------------------------------------
// Audio jobs
// ---------------------------------------------------------------------------

/// The extension of an audio job's result for a source of extension `ext`.
pub open spec fn audio_ext_of(codecs: ConfigCodecs, quality: i16, ext: Seq<char>) -> Seq<char> {
    if quality == codecs.audio_raw || quality == codecs.audio_source_hq {
        "m4a"@
    } else if quality == codecs.audio_mp3 {
        "mp3"@
    } else {
        ext
    }
}

/// The steps of an audio job. It is marked running (single jobs); a quality
/// code without an audio itag ends it with `InputError("Unknown audio
/// quality!")`. Otherwise the temporary file `{qid}` is recorded and the name
/// asked for without a quality. A file that the external lib fetched is
/// moved to its save path. Otherwise the audio itag of the code is
/// downloaded, the result named with the extension of `audio_ext_of`, its
/// save path asked for, the audio extracted there (converted exactly for
/// the mp3 code) and the temporary file removed. Progress is shown and the
/// result recorded only for a job that is not part of a playlist.
pub open spec fn audio_step(req: Request, codecs: ConfigCodecs, s: StateView, e: EventView) -> (
    StateView,
    Seq<Act>,
) {
    let single = !req.playlist;
    let tv = temp_file(req, Seq::empty());
    match s {
        StateView::Start => match e {
            EventView::Begin => match audio_itag_spec(codecs, req.quality) {
                None => (
                    StateView::Finished,
                    push_if(Seq::empty(), single, Act::SetInProgress).push(
                        Act::FailInput("Unknown audio quality!"@),
                    ),
                ),
                Some(_) => (
                    StateView::Naming,
                    push_if(
                        push_if(Seq::empty(), single, Act::SetInProgress).push(Act::PushTemp(tv)),
                        single,
                        Act::Progress(1, 3),
                    ).push(Act::GetName(false, false, tv)),
                ),
            },
            _ => stop(),
        },
        StateView::Naming => match e {
            EventView::Named(n, x, d) => if d {
                (StateView::Placing(n, x, true), seq![Act::PlaceFile(n, x)])
            } else {
                match audio_itag_spec(codecs, req.quality) {
                    None => (
                        StateView::Finished,
                        seq![Act::FailInput("Unknown audio quality!"@)],
                    ),
                    Some(itag) => {
                        let x2 = audio_ext_of(codecs, req.quality, x);
                        (
                            StateView::Placing(n, x2, false),
                            push_if(
                                push_if(Seq::empty(), single, Act::Progress(2, 3)).push(
                                    Act::Download(tv, int_dec(itag as int)),
                                ),
                                single,
                                Act::Progress(3, 3),
                            ).push(Act::PlaceFile(n, x2)),
                        )
                    },
                }
            },
            _ => stop(),
        },
        StateView::Placing(n, x, d) => match e {
            EventView::Placed(save) => {
                let origin = n + seq!['.'] + x;
                if d {
                    (
                        StateView::Finished,
                        push_if(
                            push_if(seq![Act::Move(tv, save)], single, Act::PopTemp),
                            single,
                            Act::AddFile(save, origin),
                        ),
                    )
                } else {
                    (
                        StateView::Finished,
                        push_if(
                            seq![
                                Act::ExtractAudio(tv, save, req.quality == codecs.audio_mp3),
                                Act::RemoveFile(tv),
                                Act::PopTemp,
                            ],
                            single,
                            Act::AddFile(save, origin),
                        ),
                    )
                }
            },
            _ => stop(),
        },
        StateView::Finished => stop(),
    }
}

/// The next step of an audio job.
pub fn audio_job_next(req: &Request, codecs: &ConfigCodecs, state: JobState, event: JobEvent) -> (r:
    (JobState, Vec<JobAction>))
    ensures
        (state_view(r.0), acts(r.1@)) == audio_step(*req, *codecs, state_view(state), event_view(event)),
{
    proof {
        reveal_strlit("");
    }
    let single = !req.playlist;
    let mut v: Vec<JobAction> = Vec::new();
    assert(acts(v@) =~= Seq::<Act>::empty());
    match state {
        JobState::Start => match event {
            JobEvent::Begin => {
                push_action_if(&mut v, single, JobAction::SetInProgress);
                match get_audio_quality(codecs, &req.quality) {
                    Err(e) => {
                        push_action(&mut v, JobAction::Fail(e));
                        (JobState::Finished, v)
                    },
                    Ok(_) => {
                        let tv = job_temp_file(req, "");
                        push_action(&mut v, JobAction::PushTemp(tv.clone()));
                        push_action_if(&mut v, single, JobAction::Progress(1, 3));
                        push_action(
                            &mut v,
                            JobAction::GetName { use_quality: false, want_video: false, path: tv },
                        );
                        (JobState::Naming, v)
                    },
                }
            },
            _ => (JobState::Finished, v),
        },
        JobState::Naming => match event {
            JobEvent::Named(name, d) => {
                if d {
                    push_action(&mut v, JobAction::PlaceFile(copy_filename(&name)));
                    assert(acts(v@) =~= seq![Act::PlaceFile(name.name@, name.extension@)]);
                    (JobState::Placing(name, true), v)
                } else {
                    match get_audio_quality(codecs, &req.quality) {
                        Err(e) => {
                            push_action(&mut v, JobAction::Fail(e));
                            assert(acts(v@) =~= seq![Act::FailInput("Unknown audio quality!"@)]);
                            (JobState::Finished, v)
                        },
                        Ok(quality) => {
                            let tv = job_temp_file(req, "");
                            push_action_if(&mut v, single, JobAction::Progress(2, 3));
                            push_action(&mut v, JobAction::Download { target: tv, quality });
                            push_action_if(&mut v, single, JobAction::Progress(3, 3));
                            let ext = audio_extension(codecs, req.quality, name.extension.as_str());
                            let renamed = Filename { name: name.name, extension: ext };
                            push_action(&mut v, JobAction::PlaceFile(copy_filename(&renamed)));
                            (JobState::Placing(renamed, false), v)
                        },
                    }
                }
            },
            _ => (JobState::Finished, v),
        },
        JobState::Placing(name, d) => match event {
            JobEvent::Placed(save) => {
                let tv = job_temp_file(req, "");
                let origin = name.full_name();
                if d {
                    push_action(&mut v, JobAction::Move { from: tv, to: save.clone() });
                    push_action_if(&mut v, single, JobAction::PopTemp);
                    push_action_if(&mut v, single, JobAction::AddFile { path: save, origin });
                    (JobState::Finished, v)
                } else {
                    push_action(
                        &mut v,
                        JobAction::ExtractAudio {
                            source: tv.clone(),
                            output: save.clone(),
                            mp3: req.quality == codecs.audio_mp3,
                        },
                    );
                    push_action(&mut v, JobAction::RemoveFile(tv));
                    push_action(&mut v, JobAction::PopTemp);
                    push_action_if(&mut v, single, JobAction::AddFile { path: save, origin });
                    (JobState::Finished, v)
                }
            },
            _ => (JobState::Finished, v),
        },
        JobState::Finished => (JobState::Finished, v),
    }
}

// ---------------------------------------------------------------------------
// Twitch jobs
// ---------------------------------------------------------------------------

/// The steps of a twitch job. It is marked running, the folder `{qid}` in
/// the temporary folder entered, the temporary file `{qid}` in it recorded
/// and step 1 of 2 shown; a quality code without a twitch quality name ends
/// it with `InputError("Unknown quality!")`, otherwise the file name is
/// asked for. Then the save path is asked for. Then step 2 is shown, the
/// video downloaded in that quality, moved to the save path and recorded,
/// and the folder removed.
pub open spec fn twitch_step(req: Request, s: StateView, e: EventView) -> (StateView, Seq<Act>) {
    let d = temp_file(req, Seq::empty());
    let tv = path_join(d, nat_dec(req.qid as nat));
    match s {
        StateView::Start => match e {
            EventView::Begin => {
                let pre = seq![
                    Act::SetInProgress,
                    Act::EnterTempDir(d),
                    Act::PushTemp(tv),
                    Act::Progress(1, 2),
                ];
                match tw_quality_name(req.quality) {
                    None => (StateView::Finished, pre.push(Act::FailInput("Unknown quality!"@))),
                    Some(_) => (StateView::Naming, pre.push(Act::GetFileName)),
                }
            },
            _ => stop(),
        },
        StateView::Naming => match e {
            EventView::Named(n, x, _) => (StateView::Placing(n, x, false), seq![Act::PlaceFile(n, x)]),
            _ => stop(),
        },
        StateView::Placing(n, x, _) => match e {
            EventView::Placed(save) => match tw_quality_name(req.quality) {
                None => (StateView::Finished, seq![Act::FailInput("Unknown quality!"@)]),
                Some(q) => (
                    StateView::Finished,
                    seq![
                        Act::Progress(2, 2),
                        Act::Download(tv, q),
                        Act::Move(tv, save),
                        Act::AddFile(save, n + seq!['.'] + x),
                        Act::RemoveDir(d),
                        Act::PopTemp,
                    ],
                ),
            },
            _ => stop(),
        },
        StateView::Finished => stop(),
    }
}

/// The next step of a twitch job.
pub fn twitch_job_next(req: &Request, state: JobState, event: JobEvent) -> (r: (
    JobState,
    Vec<JobAction>,
))
    ensures
        (state_view(r.0), acts(r.1@)) == twitch_step(*req, state_view(state), event_view(event)),
{
    proof {
        reveal_strlit("");
    }
    let mut v: Vec<JobAction> = Vec::new();
    assert(acts(v@) =~= Seq::<Act>::empty());
    let d = job_temp_file(req, "");
    let q = u64_chars(req.qid);
    let tv = join_path(d.as_str(), q.as_slice());
    match state {
        JobState::Start => match event {
            JobEvent::Begin => {
                push_action(&mut v, JobAction::SetInProgress);
                push_action(&mut v, JobAction::EnterTempDir(d));
                push_action(&mut v, JobAction::PushTemp(tv));
                push_action(&mut v, JobAction::Progress(1, 2));
                match get_quality(&req.quality) {
                    Err(e) => {
                        push_action(&mut v, JobAction::Fail(e));
                        (JobState::Finished, v)
                    },
                    Ok(_) => {
                        push_action(&mut v, JobAction::GetFileName);
                        (JobState::Naming, v)
                    },
                }
            },
            _ => (JobState::Finished, v),
        },
        JobState::Naming => match event {
            JobEvent::Named(name, _) => {
                push_action(&mut v, JobAction::PlaceFile(copy_filename(&name)));
                assert(acts(v@) =~= seq![Act::PlaceFile(name.name@, name.extension@)]);
                (JobState::Placing(name, false), v)
            },
            _ => (JobState::Finished, v),
        },
        JobState::Placing(name, _) => match event {
            JobEvent::Placed(save) => match get_quality(&req.quality) {
                Err(e) => {
                    push_action(&mut v, JobAction::Fail(e));
                    assert(acts(v@) =~= seq![Act::FailInput("Unknown quality!"@)]);
                    (JobState::Finished, v)
                },
                Ok(quality) => {
                    let origin = name.full_name();
                    push_action(&mut v, JobAction::Progress(2, 2));
                    push_action(&mut v, JobAction::Download { target: tv.clone(), quality });
                    push_action(&mut v, JobAction::Move { from: tv, to: save.clone() });
                    push_action(&mut v, JobAction::AddFile { path: save, origin });
                    push_action(&mut v, JobAction::RemoveDir(d));
                    push_action(&mut v, JobAction::PopTemp);
                    (JobState::Finished, v)
                },
            },
            _ => (JobState::Finished, v),
        },
        JobState::Finished => (JobState::Finished, v),
    }
}

// ---------------------------------------------------------------------------
// Playlist jobs
// ---------------------------------------------------------------------------

/// One piece of outside work of a playlist job.
pub enum PlaylistAction {
    /// Mark the query as running
    SetInProgress,
    /// Ask for the playlist's name (answered by `Named`)
    GetPlaylistName,
    /// Set the query's status text
    SetState(String),
    /// Ask for the ids of the playlist's entries (answered by `Listed`)
    GetPlaylistIds,
    /// Enter a new query for this URL, split off the playlist
    AddSubQuery(String),
    /// Find the save path for this name (answered by `Placed`)
    PlaceFile(Filename),
    /// Create this folder; the job's files go there from now on
    EnterTempDir(String),
    /// Show step `.0` of `.1`
    Progress(i32, i32),
    /// Download the video at this URL as a single file of the job (answered
    /// by `EntryDone`)
    RunEntry(String),
    /// Store this error report for the query
    AddQueryError(String),
    /// Zip the folder into `output`
    Zip { dir: String, output: String },
    /// Record a result file with its original name
    AddFile { path: String, origin: String },
    /// Remove the folder and its contents
    RemoveDir(String),
    /// End the job with this error
    Fail(Error),
}

/// A zipped playlist while its entries are downloaded.
pub struct PlaylistRun {
    /// The playlist's name
    pub name: String,
    /// Where the zip goes
    pub save: String,
    /// The folder that collects the entries
    pub dir: String,
    /// The entries' ids
    pub ids: Vec<String>,
    /// The number of entries before the one running
    pub done: usize,
    pub progress: PlaylistProgress,
}

/// Where a playlist job stands.
pub enum PlaylistState {
    Start,
    /// Waiting for the playlist's name
    Naming,
    /// Waiting for the ids; the playlist's name
    Listing(String),
    /// Waiting for the zip's save path; the name and the ids
    Placing(String, Vec<String>),
    /// Waiting for the entry `done` to finish
    Entries(PlaylistRun),
    Finished,
}

/// The answer to a playlist job's last request.
pub enum PlaylistEvent {
    Begin,
    Named(String),
    Listed(Vec<String>),
    Placed(String),
    /// The running entry finished: `None` when it succeeded, else its error
    /// as text
    EntryDone(Option<String>),
}

/// A playlist action as plain values.
pub enum PAct {
    SetInProgress,
    GetPlaylistName,
    SetState(Seq<char>),
    GetPlaylistIds,
    AddSubQuery(Seq<char>),
    PlaceFile(Seq<char>, Seq<char>),
    EnterTempDir(Seq<char>),
    Progress(i32, i32),
    RunEntry(Seq<char>),
    AddQueryError(Seq<char>),
    Zip(Seq<char>, Seq<char>),
    AddFile(Seq<char>, Seq<char>),
    RemoveDir(Seq<char>),
    FailInternal(Seq<char>),
    FailOther,
}

/// A `PlaylistRun` as plain values.
pub struct RunView {
    pub name: Seq<char>,
    pub save: Seq<char>,
    pub dir: Seq<char>,
    pub ids: Seq<Seq<char>>,
    pub done: int,
    pub step: i32,
    pub max: i32,
    pub warnings: bool,
    pub log: Seq<char>,
}

pub enum PStateView {
    Start,
    Naming,
    Listing(Seq<char>),
    Placing(Seq<char>, Seq<Seq<char>>),
    Entries(RunView),
    Finished,
}

pub enum PEventView {
    Begin,
    Named(Seq<char>),
    Listed(Seq<Seq<char>>),
    Placed(Seq<char>),
    EntryDone(Option<Seq<char>>),
}

pub open spec fn pact(a: PlaylistAction) -> PAct {
    match a {
        PlaylistAction::SetInProgress => PAct::SetInProgress,
        PlaylistAction::GetPlaylistName => PAct::GetPlaylistName,
        PlaylistAction::SetState(t) => PAct::SetState(t@),
        PlaylistAction::GetPlaylistIds => PAct::GetPlaylistIds,
        PlaylistAction::AddSubQuery(u) => PAct::AddSubQuery(u@),
        PlaylistAction::PlaceFile(f) => PAct::PlaceFile(f.name@, f.extension@),
        PlaylistAction::EnterTempDir(d) => PAct::EnterTempDir(d@),
        PlaylistAction::Progress(s, m) => PAct::Progress(s, m),
        PlaylistAction::RunEntry(u) => PAct::RunEntry(u@),
        PlaylistAction::AddQueryError(t) => PAct::AddQueryError(t@),
        PlaylistAction::Zip { dir, output } => PAct::Zip(dir@, output@),
        PlaylistAction::AddFile { path, origin } => PAct::AddFile(path@, origin@),
        PlaylistAction::RemoveDir(d) => PAct::RemoveDir(d@),
        PlaylistAction::Fail(e) => match e {
            Error::InternalError(m) => PAct::FailInternal(m@),
            _ => PAct::FailOther,
        },
    }
}

pub open spec fn pacts(v: Seq<PlaylistAction>) -> Seq<PAct> {
    v.map_values(|a: PlaylistAction| pact(a))
}

pub open spec fn run_view(r: PlaylistRun) -> RunView {
    RunView {
        name: r.name@,
        save: r.save@,
        dir: r.dir@,
        ids: string_views(r.ids@),
        done: r.done as int,
        step: r.progress.step,
        max: r.progress.max_steps,
        warnings: r.progress.warnings,
        log: r.progress.failed_log@,
    }
}

pub open spec fn pstate_view(s: PlaylistState) -> PStateView {
    match s {
        PlaylistState::Start => PStateView::Start,
        PlaylistState::Naming => PStateView::Naming,
        PlaylistState::Listing(n) => PStateView::Listing(n@),
        PlaylistState::Placing(n, ids) => PStateView::Placing(n@, string_views(ids@)),
        PlaylistState::Entries(r) => PStateView::Entries(run_view(r)),
        PlaylistState::Finished => PStateView::Finished,
    }
}

pub open spec fn pevent_view(e: PlaylistEvent) -> PEventView {
    match e {
        PlaylistEvent::Begin => PEventView::Begin,
        PlaylistEvent::Named(n) => PEventView::Named(n@),
        PlaylistEvent::Listed(ids) => PEventView::Listed(string_views(ids@)),
        PlaylistEvent::Placed(p) => PEventView::Placed(p@),
        PlaylistEvent::EntryDone(r) => PEventView::EntryDone(
            match r {
                Some(t) => Some(t@),
                None => None,
            },
        ),
    }
}

/// The URL of a playlist entry.
pub open spec fn entry_url(id: Seq<char>) -> Seq<char> {
    YT_VIDEO_URL@ + id
}

pub open spec fn pstop() -> (PStateView, Seq<PAct>) {
    (PStateView::Finished, Seq::empty())
}

/// Before the next entry starts: `done` entries are over and each took a step.
pub open spec fn run_between(r: RunView) -> bool {
    &&& 0 <= r.done <= r.ids.len()
    &&& r.ids.len() + 2 <= i32::MAX
    &&& r.max == r.ids.len() + 2
    &&& r.step == r.done + 1
}

/// While entry `done` runs.
pub open spec fn run_running(r: RunView) -> bool {
    &&& 0 <= r.done < r.ids.len()
    &&& r.ids.len() + 2 <= i32::MAX
    &&& r.max == r.ids.len() + 2
    &&& r.step == r.done + 2
}

/// The next entry, with its step; or, when every entry is over, the error
/// report if an entry failed, the last step, the zipping, the zip as result
/// and the removal of the folder.
pub open spec fn next_entry(r: RunView) -> (PStateView, Seq<PAct>) {
    if r.done < r.ids.len() {
        let r2 = RunView { step: (r.step + 1) as i32, ..r };
        (
            PStateView::Entries(r2),
            seq![PAct::Progress(r2.step, r.max), PAct::RunEntry(entry_url(r.ids[r.done]))],
        )
    } else {
        let s = if r.warnings {
            seq![PAct::AddQueryError(r.log)]
        } else {
            Seq::empty()
        };
        (
            PStateView::Finished,
            s + seq![
                PAct::Progress((r.step + 1) as i32, r.max),
                PAct::Zip(r.dir, r.save),
                PAct::AddFile(r.save, r.name + ".zip"@),
                PAct::RemoveDir(r.dir),
            ],
        )
    }
}

/// The steps of a playlist job: mark it running and ask for its name; set
/// the status `1/?` and ask for the ids. A split playlist enters one query
/// per entry and is done. Otherwise (at most `i32::MAX - 2` entries, else
/// `InternalError("playlist too long")`) the zip's save path is asked for,
/// the folder `{qid}` in the temporary folder entered, the listing's step
/// (`PLAYLIST_LISTED_STEP`) shown, and the
/// entries run one after another, each on its own step; failed entries join
/// the report. Then `next_entry` finishes the job.
pub open spec fn playlist_step(req: Request, s: PStateView, e: PEventView) -> (
    PStateView,
    Seq<PAct>,
) {
    match s {
        PStateView::Start => match e {
            PEventView::Begin => (
                PStateView::Naming,
                seq![PAct::SetInProgress, PAct::GetPlaylistName],
            ),
            _ => pstop(),
        },
        PStateView::Naming => match e {
            PEventView::Named(n) => (
                PStateView::Listing(n),
                seq![PAct::SetState("1/?"@), PAct::GetPlaylistIds],
            ),
            _ => pstop(),
        },
        PStateView::Listing(n) => match e {
            PEventView::Listed(ids) => if req.split {
                (PStateView::Finished, ids.map_values(|id: Seq<char>| PAct::AddSubQuery(entry_url(id))))
            } else if ids.len() + 2 > i32::MAX {
                (PStateView::Finished, seq![PAct::FailInternal("playlist too long"@)])
            } else {
                (PStateView::Placing(n, ids), seq![PAct::PlaceFile(n, "zip"@)])
            },
            _ => pstop(),
        },
        PStateView::Placing(n, ids) => match e {
            PEventView::Placed(save) => if ids.len() + 2 > i32::MAX {
                pstop()
            } else {
                let dir = temp_file(req, Seq::empty());
                let r = RunView {
                    name: n,
                    save,
                    dir,
                    ids,
                    done: 0,
                    step: 1,
                    max: (ids.len() + 2) as i32,
                    warnings: false,
                    log: FAILED_LOG_HEADER@,
                };
                let (s2, a) = next_entry(r);
                (s2, seq![PAct::EnterTempDir(dir), PAct::Progress(PLAYLIST_LISTED_STEP, r.max)] + a)
            },
            _ => pstop(),
        },
        PStateView::Entries(r) => match e {
            PEventView::EntryDone(res) => if !run_running(r) {
                pstop()
            } else {
                let r1 = match res {
                    None => RunView { done: r.done + 1, ..r },
                    Some(t) => RunView {
                        done: r.done + 1,
                        warnings: true,
                        log: r.log + entry_url(r.ids[r.done]) + seq![' '] + t + seq!['\n'],
                        ..r
                    },
                };
                next_entry(r1)
            },
            _ => pstop(),
        },
        PStateView::Finished => pstop(),
    }
}

fn push_paction(v: &mut Vec<PlaylistAction>, a: PlaylistAction)
    ensures
        pacts(final(v)@) == pacts(old(v)@).push(pact(a)),
{
    let ghost before = v@;
    v.push(a);
    assert(pacts(v@) =~= pacts(before).push(pact(a)));
}

/// Starts the next entry, or finishes the job.
fn run_next_entry(run: PlaylistRun) -> (r: (PlaylistState, Vec<PlaylistAction>))
    requires
        run_between(run_view(run)),
        run.progress.wf(),
    ensures
        (pstate_view(r.0), pacts(r.1@)) == next_entry(run_view(run)),
{
    let mut run = run;
    let mut v: Vec<PlaylistAction> = Vec::new();
    assert(pacts(v@) =~= Seq::<PAct>::empty());
    if run.done < run.ids.len() {
        let step = run.progress.advance();
        push_paction(&mut v, PlaylistAction::Progress(step, run.progress.max_steps));
        let url = video_url(run.ids[run.done].as_str());
        push_paction(&mut v, PlaylistAction::RunEntry(url));
        assert(string_views(run.ids@)[run.done as int] == run.ids@[run.done as int]@);
        (PlaylistState::Entries(run), v)
    } else {
        let ghost r0 = run_view(run);
        if let Some(log) = run.progress.report() {
            push_paction(&mut v, PlaylistAction::AddQueryError(log));
        }
        let ghost pre = pacts(v@);
        proof {
            reveal_strlit(".zip");
            reveal_strlit("zip");
            assert(".zip"@ =~= seq!['.'] + "zip"@);
        }
        let step = run.progress.advance();
        assert(step == r0.step + 1 && run.progress.max_steps == r0.max);
        push_paction(&mut v, PlaylistAction::Progress(step, run.progress.max_steps));
        assert(pacts(v@) =~= pre.push(PAct::Progress((r0.step + 1) as i32, r0.max)));
        push_paction(&mut v, PlaylistAction::Zip { dir: run.dir.clone(), output: run.save.clone() });
        let zip = Filename { name: run.name.clone(), extension: "zip".to_string() };
        let origin = zip.full_name();
        assert(origin@ == r0.name + ".zip"@);
        push_paction(&mut v, PlaylistAction::AddFile { path: run.save.clone(), origin });
        push_paction(&mut v, PlaylistAction::RemoveDir(run.dir.clone()));
        assert(pacts(v@) =~= pre + seq![
            PAct::Progress((r0.step + 1) as i32, r0.max),
            PAct::Zip(r0.dir, r0.save),
            PAct::AddFile(r0.save, r0.name + ".zip"@),
            PAct::RemoveDir(r0.dir),
        ]);
        (PlaylistState::Finished, v)
    }
}

/// The next step of a playlist job.
pub fn playlist_job_next(req: &Request, state: PlaylistState, event: PlaylistEvent) -> (r: (
    PlaylistState,
    Vec<PlaylistAction>,
))
    ensures
        (pstate_view(r.0), pacts(r.1@)) == playlist_step(*req, pstate_view(state), pevent_view(event)),
{
    let mut v: Vec<PlaylistAction> = Vec::new();
    assert(pacts(v@) =~= Seq::<PAct>::empty());
    match state {
        PlaylistState::Start => match event {
            PlaylistEvent::Begin => {
                push_paction(&mut v, PlaylistAction::SetInProgress);
                push_paction(&mut v, PlaylistAction::GetPlaylistName);
                assert(pacts(v@) =~= seq![PAct::SetInProgress, PAct::GetPlaylistName]);
                (PlaylistState::Naming, v)
            },
            _ => (PlaylistState::Finished, v),
        },
        PlaylistState::Naming => match event {
            PlaylistEvent::Named(n) => {
                push_paction(&mut v, PlaylistAction::SetState("1/?".to_string()));
                push_paction(&mut v, PlaylistAction::GetPlaylistIds);
                assert(pacts(v@) =~= seq![PAct::SetState("1/?"@), PAct::GetPlaylistIds]);
                (PlaylistState::Listing(n), v)
            },
            _ => (PlaylistState::Finished, v),
        },
        PlaylistState::Listing(n) => match event {
            PlaylistEvent::Listed(ids) => {
                if req.split {
                    let ghost iv = string_views(ids@);
                    let mut k: usize = 0;
                    while k < ids.len()
                        invariant
                            k <= ids@.len(),
                            iv == string_views(ids@),
                            pacts(v@) == iv.take(k as int).map_values(
                                |id: Seq<char>| PAct::AddSubQuery(entry_url(id)),
                            ),
                        decreases ids@.len() - k,
                    {
                        let url = video_url(ids[k].as_str());
                        push_paction(&mut v, PlaylistAction::AddSubQuery(url));
                        assert(iv.take(k + 1).map_values(
                            |id: Seq<char>| PAct::AddSubQuery(entry_url(id)),
                        ) =~= iv.take(k as int).map_values(
                            |id: Seq<char>| PAct::AddSubQuery(entry_url(id)),
                        ).push(PAct::AddSubQuery(entry_url(iv[k as int]))));
                        k = k + 1;
                    }
                    assert(iv.take(ids@.len() as int) =~= iv);
                    (PlaylistState::Finished, v)
                } else if ids.len() > 2147483645 {
                    push_paction(
                        &mut v,
                        PlaylistAction::Fail(Error::InternalError("playlist too long".to_string())),
                    );
                    assert(pacts(v@) =~= seq![PAct::FailInternal("playlist too long"@)]);
                    (PlaylistState::Finished, v)
                } else {
                    let zip = Filename { name: n.clone(), extension: "zip".to_string() };
                    push_paction(&mut v, PlaylistAction::PlaceFile(zip));
                    assert(pacts(v@) =~= seq![PAct::PlaceFile(n@, "zip"@)]);
                    (PlaylistState::Placing(n, ids), v)
                }
            },
            _ => (PlaylistState::Finished, v),
        },
        PlaylistState::Placing(n, ids) => match event {
            PlaylistEvent::Placed(save) => {
                if ids.len() > 2147483645 {
                    return (PlaylistState::Finished, v);
                }
                proof {
                    reveal_strlit("");
                }
                let dir = job_temp_file(req, "");
                let progress = PlaylistProgress::start(ids.len());
                let max = progress.max_steps;
                push_paction(&mut v, PlaylistAction::EnterTempDir(dir.clone()));
                push_paction(&mut v, PlaylistAction::Progress(PLAYLIST_LISTED_STEP, max));
                let run = PlaylistRun { name: n, save, dir, ids, done: 0, progress };
                let ghost head = pacts(v@);
                let (s2, mut rest) = run_next_entry(run);
                let ghost tail = pacts(rest@);
                v.append(&mut rest);
                assert(pacts(v@) =~= head + tail);
                (s2, v)
            },
            _ => (PlaylistState::Finished, v),
        },
        PlaylistState::Entries(run) => match event {
            PlaylistEvent::EntryDone(res) => {
                let ok = run.done < run.ids.len() && run.ids.len() <= 2147483645
                    && run.progress.max_steps >= 0 && run.progress.max_steps as usize
                    == run.ids.len() + 2 && run.progress.step >= 0 && run.progress.step as usize
                    == run.done + 2;
                if !ok {
                    return (PlaylistState::Finished, v);
                }
                let mut run = run;
                match res {
                    None => {},
                    Some(t) => {
                        let url = video_url(run.ids[run.done].as_str());
                        assert(string_views(run.ids@)[run.done as int] == run.ids@[run.done as int]@);
                        run.progress.entry_failed(url.as_str(), t.as_str());
                    },
                }
                run.done = run.done + 1;
                run_next_entry(run)
            },
            _ => (PlaylistState::Finished, v),
        },
        PlaylistState::Finished => (PlaylistState::Finished, v),
    }
}

// ---------------------------------------------------------------------------
// Laws of the job steps
// ---------------------------------------------------------------------------

/// In every video job, single or part of a playlist, the audio track is
/// downloaded into the temporary file `{qid}a` in the normal mp4 audio itag
/// exactly when the video is an mp4, and in the normal webm audio itag
/// otherwise; nothing else is downloaded into that file.
pub proof fn lemma_video_audio_itag(
    req: Request,
    codecs: ConfigCodecs,
    name: Seq<char>,
    ext: Seq<char>,
    save: Seq<char>,
)
    ensures
        ({
            let a = video_step(
                req,
                codecs,
                StateView::Placing(name, ext, false),
                EventView::Placed(save),
            ).1;
            let ta = temp_file(req, seq!['a']);
            let itag = if ext == "mp4"@ {
                codecs.yt.audio_normal_mp4
            } else {
                codecs.yt.audio_normal_webm
            };
            &&& a.contains(Act::Download(ta, int_dec(itag as int)))
            &&& forall|i: int|
                0 <= i < a.len() ==> (#[trigger] a[i] matches Act::Download(t, q) ==> (t == ta ==> q
                    == int_dec(itag as int)))
        }),
{
    let a = video_step(req, codecs, StateView::Placing(name, ext, false), EventView::Placed(save)).1;
    let tv = temp_file(req, Seq::empty());
    let ta = temp_file(req, seq!['a']);
    let itag = if ext == "mp4"@ {
        codecs.yt.audio_normal_mp4
    } else {
        codecs.yt.audio_normal_webm
    };
    assert(tv.len() != ta.len());
    if !req.playlist {
        assert(a[4] == Act::Download(ta, int_dec(itag as int)));
    } else {
        assert(a[2] == Act::Download(ta, int_dec(itag as int)));
    }
}

/// An audio job converts to mp3 exactly for the mp3 code: its extraction
/// step carries the mp3 flag if and only if the quality code is
/// `audio_mp3`, so raw and HQ source audio (other codes) are copied as they
/// are.
pub proof fn lemma_audio_mp3_flag(
    req: Request,
    codecs: ConfigCodecs,
    name: Seq<char>,
    ext: Seq<char>,
    save: Seq<char>,
)
    ensures
        ({
            let a = audio_step(
                req,
                codecs,
                StateView::Placing(name, ext, false),
                EventView::Placed(save),
            ).1;
            &&& exists|i: int| 0 <= i < a.len() && #[trigger] a[i] is ExtractAudio
            &&& forall|i: int|
                0 <= i < a.len() ==> (#[trigger] a[i] matches Act::ExtractAudio(_, _, m) ==> (m
                    <==> req.quality == codecs.audio_mp3))
        }),
{
    let a = audio_step(req, codecs, StateView::Placing(name, ext, false), EventView::Placed(save)).1;
    assert(a[0] is ExtractAudio);
}

/// A zipped playlist starts with a clean report: entering the entries
/// stores no error and records no failure.
pub proof fn lemma_playlist_starts_clean(
    req: Request,
    name: Seq<char>,
    ids: Seq<Seq<char>>,
    save: Seq<char>,
)
    ensures
        ({
            let (s, a) = playlist_step(req, PStateView::Placing(name, ids), PEventView::Placed(save));
            &&& forall|i: int| 0 <= i < a.len() ==> !(#[trigger] a[i] is AddQueryError)
            &&& (s matches PStateView::Entries(r) ==> !r.warnings)
        }),
{
}

/// Between entries, the playlist's failure mark changes only by a failed
/// entry: it is set when the entry finished with an error and kept
/// otherwise; no error is stored yet.
pub proof fn lemma_playlist_failure_mark(req: Request, r: RunView, res: Option<Seq<char>>)
    requires
        run_running(r),
        r.done + 1 < r.ids.len(),
    ensures
        ({
            let (s, a) = playlist_step(req, PStateView::Entries(r), PEventView::EntryDone(res));
            &&& s matches PStateView::Entries(r2) && r2.warnings == (r.warnings || res is Some)
            &&& forall|i: int| 0 <= i < a.len() ==> !(#[trigger] a[i] is AddQueryError)
        }),
{
}

/// At the end of a zipped playlist the failure report is stored if and only
/// if an entry failed: after the last entry finishes, an `AddQueryError`
/// action comes exactly when an earlier entry or this one finished with an
/// error.
pub proof fn lemma_playlist_report_iff_failure(req: Request, r: RunView, res: Option<Seq<char>>)
    requires
        run_running(r),
        r.done + 1 == r.ids.len(),
    ensures
        ({
            let a = playlist_step(req, PStateView::Entries(r), PEventView::EntryDone(res)).1;
            (exists|i: int| 0 <= i < a.len() && #[trigger] a[i] is AddQueryError) <==> (r.warnings
                || res is Some)
        }),
{
    let a = playlist_step(req, PStateView::Entries(r), PEventView::EntryDone(res)).1;
    if r.warnings || res is Some {
        assert(a[0] is AddQueryError);
    } else {
        assert forall|i: int| 0 <= i < a.len() implies !(#[trigger] a[i] is AddQueryError) by {}
    }
}

/// A video job's work once its save path is known. Without the external
/// lib, the video is downloaded in the requested quality into `{qid}`, and
/// that file is merged with the audio file `{qid}a` into the save path; the
/// result is recorded exactly for a single job. A file that the external lib
/// fetched is moved to the save path and recorded, and nothing is
/// downloaded.
pub proof fn lemma_video_job_work(
    req: Request,
    codecs: ConfigCodecs,
    name: Seq<char>,
    ext: Seq<char>,
    lib_fetched: bool,
    save: Seq<char>,
)
    ensures
        ({
            let a = video_step(
                req,
                codecs,
                StateView::Placing(name, ext, lib_fetched),
                EventView::Placed(save),
            ).1;
            let tv = temp_file(req, Seq::empty());
            let ta = temp_file(req, seq!['a']);
            let origin = name + seq!['.'] + ext;
            &&& !lib_fetched ==> a.contains(Act::Download(tv, int_dec(req.quality as int)))
            &&& !lib_fetched ==> a.contains(Act::Merge(tv, ta, save))
            &&& !lib_fetched ==> (a.contains(Act::AddFile(save, origin)) <==> !req.playlist)
            &&& lib_fetched ==> a.contains(Act::Move(tv, save))
            &&& lib_fetched ==> a.contains(Act::AddFile(save, origin))
            &&& lib_fetched ==> forall|i: int| 0 <= i < a.len() ==> !(#[trigger] a[i] is Download)
        }),
{
    let a = video_step(req, codecs, StateView::Placing(name, ext, lib_fetched), EventView::Placed(save)).1;
    let tv = temp_file(req, Seq::empty());
    let ta = temp_file(req, seq!['a']);
    let origin = name + seq!['.'] + ext;
    if lib_fetched {
        assert(a[0] == Act::Move(tv, save));
        assert(a[1] == Act::AddFile(save, origin));
    } else if !req.playlist {
        assert(a[1] == Act::Download(tv, int_dec(req.quality as int)));
        assert(a[6] == Act::Merge(tv, ta, save));
        assert(a[7] == Act::AddFile(save, origin));
    } else {
        assert(a[0] == Act::Download(tv, int_dec(req.quality as int)));
        assert(a[3] == Act::Merge(tv, ta, save));
        assert forall|i: int| 0 <= i < a.len() implies a[i] != Act::AddFile(save, origin) by {}
    }
}

/// What an audio job downloads and how it names the result, for the three
/// audio codes of the configuration (which differ): HQ source audio takes
/// the HQ audio itag, raw audio and mp3 conversions the normal mp4 audio
/// itag; raw and HQ audio end in `m4a`, conversions in `mp3`. Any other code
/// is refused.
pub proof fn lemma_audio_job_source(req: Request, codecs: ConfigCodecs, name: Seq<char>, ext: Seq<char>)
    requires
        codecs.audio_raw != codecs.audio_source_hq,
        codecs.audio_raw != codecs.audio_mp3,
        codecs.audio_source_hq != codecs.audio_mp3,
    ensures
        ({
            let (s, a) = audio_step(req, codecs, StateView::Naming, EventView::Named(name, ext, false));
            let tv = temp_file(req, Seq::empty());
            &&& req.quality == codecs.audio_source_hq ==> a.contains(
                Act::Download(tv, int_dec(codecs.yt.audio_hq as int)),
            ) && s == StateView::Placing(name, "m4a"@, false)
            &&& req.quality == codecs.audio_raw ==> a.contains(
                Act::Download(tv, int_dec(codecs.yt.audio_normal_mp4 as int)),
            ) && s == StateView::Placing(name, "m4a"@, false)
            &&& req.quality == codecs.audio_mp3 ==> a.contains(
                Act::Download(tv, int_dec(codecs.yt.audio_normal_mp4 as int)),
            ) && s == StateView::Placing(name, "mp3"@, false)
            &&& !(req.quality == codecs.audio_source_hq || req.quality == codecs.audio_raw
                || req.quality == codecs.audio_mp3) ==> a == seq![
                Act::FailInput("Unknown audio quality!"@),
            ]
        }),
{
    let (s, a) = audio_step(req, codecs, StateView::Naming, EventView::Named(name, ext, false));
    let tv = temp_file(req, Seq::empty());
    if req.quality == codecs.audio_source_hq || req.quality == codecs.audio_raw
        || req.quality == codecs.audio_mp3 {
        let i = if req.playlist {
            0int
        } else {
            1int
        };
        assert(a[i] is Download);
    }
}

/// A split playlist becomes one new query per entry, in the order of the
/// entries, each for the entry's watch URL, which the file module accepts.
pub proof fn lemma_split_playlist_entries(req: Request, name: Seq<char>, ids: Seq<Seq<char>>)
    requires
        req.split,
        forall|i: int|
            0 <= i < ids.len() ==> (#[trigger] ids[i]).len() > 0 && all_in(
                ids[i],
                0,
                ids[i].len() as int,
                CharClass::Id,
            ),
    ensures
        ({
            let a = playlist_step(req, PStateView::Listing(name), PEventView::Listed(ids)).1;
            &&& a.len() == ids.len()
            &&& forall|i: int|
                0 <= i < a.len() ==> #[trigger] a[i] == PAct::AddSubQuery(YT_VIDEO_URL@ + ids[i])
                    && yt_video_match(YT_VIDEO_URL@ + ids[i])
        }),
{
    let a = playlist_step(req, PStateView::Listing(name), PEventView::Listed(ids)).1;
    assert forall|i: int| 0 <= i < a.len() implies #[trigger] a[i] == PAct::AddSubQuery(
        YT_VIDEO_URL@ + ids[i],
    ) && yt_video_match(YT_VIDEO_URL@ + ids[i]) by {
        lemma_video_url_accepted(ids[i]);
    }
}

/// While the entries of a zipped playlist run, every step shown lies
/// between the listing's step and the last step, which is the number of
/// entries plus two; when the last entry finishes, the last step is shown,
/// the folder is zipped into the save path, the zip (`{name}.zip`) is
/// recorded and the folder removed.
pub proof fn lemma_playlist_entry_steps(req: Request, r: RunView, res: Option<Seq<char>>)
    requires
        run_running(r),
    ensures
        ({
            let a = playlist_step(req, PStateView::Entries(r), PEventView::EntryDone(res)).1;
            let max = r.ids.len() + 2;
            &&& forall|i: int|
                0 <= i < a.len() ==> (#[trigger] a[i] matches PAct::Progress(st, m) ==> 2 <= st
                    <= m && m == max)
            &&& r.done + 1 == r.ids.len() ==> a.contains(PAct::Progress(max as i32, max as i32))
                && a.contains(PAct::Zip(r.dir, r.save)) && a.contains(
                PAct::AddFile(r.save, r.name + ".zip"@),
            ) && a.contains(PAct::RemoveDir(r.dir))
        }),
{
    let a = playlist_step(req, PStateView::Entries(r), PEventView::EntryDone(res)).1;
    if r.done + 1 == r.ids.len() {
        let w = r.warnings || res is Some;
        let k = if w {
            1int
        } else {
            0int
        };
        assert(a[k] is Progress);
        assert(a[k + 1] is Zip);
        assert(a[k + 2] is AddFile);
        assert(a[k + 3] is RemoveDir);
    }
}

/// A twitch job downloads its video in the quality name of its code into
/// the temporary file, moves that file to the save path, records it under
/// its name and removes the job's folder.
pub proof fn lemma_twitch_job_work(req: Request, name: Seq<char>, ext: Seq<char>, save: Seq<char>)
    requires
        tw_quality_name(req.quality) is Some,
    ensures
        ({
            let a = twitch_step(req, StateView::Placing(name, ext, false), EventView::Placed(save)).1;
            let d = temp_file(req, Seq::empty());
            let tv = path_join(d, nat_dec(req.qid as nat));
            &&& a.contains(Act::Download(tv, tw_quality_name(req.quality)->Some_0))
            &&& a.contains(Act::Move(tv, save))
            &&& a.contains(Act::AddFile(save, name + seq!['.'] + ext))
            &&& a.contains(Act::RemoveDir(d))
        }),
{
    let a = twitch_step(req, StateView::Placing(name, ext, false), EventView::Placed(save)).1;
    assert(a[1] is Download);
    assert(a[2] is Move);
    assert(a[3] is AddFile);
    assert(a[4] is RemoveDir);
}

} // verus!
