use yayd::common::{free_save_attempt, Error, Request};
use yayd::config::{ConfigCodecs, ConfigYT};
use yayd::downloader::{lib_outcome, lib_output_line, Filename};
use yayd::handler::job::{
    audio_job_next, playlist_job_next, twitch_job_next, video_job_next, JobAction, JobEvent, JobState, PlaylistAction,
    PlaylistEvent, PlaylistState,
};
use yayd::handler::{file_name_of, job_cleanup, EntryWriter, HandleData, WriteStep};

fn job(quality: i16, playlist: bool) -> Request {
    Request {
        url: "https://www.youtube.com/watch?v=x".to_string(),
        quality,
        playlist,
        split: false,
        qid: 42,
        r_type: 0,
        from: -2,
        to: -2,
        path: "/done".to_string(),
        temp_path: "/tmp/".to_string(),
        uid: 1,
    }
}

fn codecs() -> ConfigCodecs {
    ConfigCodecs {
        audio_raw: -2,
        audio_source_hq: -3,
        audio_mp3: -1,
        yt: ConfigYT { audio_normal_mp4: 140, audio_normal_webm: 171, audio_hq: 22 },
    }
}

fn name(n: &str, e: &str) -> Filename {
    Filename { name: n.to_string(), extension: e.to_string() }
}

/// The actions as text, for comparing.
fn show(actions: &[JobAction]) -> Vec<String> {
    actions
        .iter()
        .map(|a| match a {
            JobAction::SetInProgress => "running".to_string(),
            JobAction::EnterTempDir(d) => format!("enter {}", d),
            JobAction::RemoveDir(d) => format!("rmdir {}", d),
            JobAction::GetFileName => "filename".to_string(),
            JobAction::PushTemp(p) => format!("push {}", p),
            JobAction::PopTemp => "pop".to_string(),
            JobAction::Progress(s, m) => format!("step {}/{}", s, m),
            JobAction::GetName { use_quality, want_video, path } => {
                format!("name {} {} {}", use_quality, want_video, path)
            }
            JobAction::PlaceFile(f) => format!("place {}.{}", f.name, f.extension),
            JobAction::Download { target, quality } => format!("download {} {}", quality, target),
            JobAction::Merge { video, audio, output } => format!("merge {} {} {}", video, audio, output),
            JobAction::ExtractAudio { source, output, mp3 } => format!("extract {} {} {}", source, output, mp3),
            JobAction::Move { from, to } => format!("move {} {}", from, to),
            JobAction::AddFile { path, origin } => format!("add {} {}", path, origin),
            JobAction::RemoveFile(p) => format!("remove {}", p),
            JobAction::Fail(e) => format!("fail {:?}", e),
        })
        .collect()
}

#[test]
fn video_job_steps() {
    let r = job(137, false);
    let c = codecs();
    let (s, a) = video_job_next(&r, &c, JobState::Start, JobEvent::Begin);
    assert_eq!(show(&a), vec!["running", "push /tmp/42", "name true true /tmp/42"]);
    let (s, a) = video_job_next(&r, &c, s, JobEvent::Named(name("Clip", "mp4"), false));
    assert_eq!(show(&a), vec!["place Clip.mp4"]);
    let (s, a) = video_job_next(&r, &c, s, JobEvent::Placed("/done/Clip.mp4".to_string()));
    assert_eq!(
        show(&a),
        vec![
            "step 1/3",
            "download 137 /tmp/42",
            "step 2/3",
            "push /tmp/42a",
            "download 140 /tmp/42a",
            "step 3/3",
            "merge /tmp/42 /tmp/42a /done/Clip.mp4",
            "add /done/Clip.mp4 Clip.mp4",
            "remove /tmp/42a",
            "pop",
            "remove /tmp/42",
            "pop",
        ]
    );
    assert!(matches!(s, JobState::Finished));
    let (_, a) = video_job_next(&r, &c, s, JobEvent::Begin);
    assert!(a.is_empty());
}

#[test]
fn video_job_in_a_playlist_and_through_the_lib() {
    let r = job(137, true);
    let c = codecs();
    let (s, a) = video_job_next(&r, &c, JobState::Start, JobEvent::Begin);
    assert_eq!(show(&a), vec!["push /tmp/42", "name true true /tmp/42"]);
    let (s, _) = video_job_next(&r, &c, s, JobEvent::Named(name("Clip", "webm"), false));
    let (_, a) = video_job_next(&r, &c, s, JobEvent::Placed("/p/Clip.webm".to_string()));
    assert_eq!(
        show(&a),
        vec![
            "download 137 /tmp/42",
            "push /tmp/42a",
            "download 171 /tmp/42a",
            "merge /tmp/42 /tmp/42a /p/Clip.webm",
            "remove /tmp/42a",
            "pop",
            "remove /tmp/42",
            "pop",
        ]
    );
    let r = job(137, false);
    let (s, _) = video_job_next(&r, &c, JobState::Start, JobEvent::Begin);
    let (s, _) = video_job_next(&r, &c, s, JobEvent::Named(name("Clip", "mp4"), true));
    let (_, a) = video_job_next(&r, &c, s, JobEvent::Placed("/done/Clip.mp4".to_string()));
    assert_eq!(show(&a), vec!["move /tmp/42 /done/Clip.mp4", "add /done/Clip.mp4 Clip.mp4", "pop"]);
    // inside a playlist the fetched file is recorded too
    let r = job(137, true);
    let (s, _) = video_job_next(&r, &c, JobState::Start, JobEvent::Begin);
    let (s, _) = video_job_next(&r, &c, s, JobEvent::Named(name("Clip", "mp4"), true));
    let (_, a) = video_job_next(&r, &c, s, JobEvent::Placed("/p/Clip.mp4".to_string()));
    assert_eq!(show(&a), vec!["move /tmp/42 /p/Clip.mp4", "add /p/Clip.mp4 Clip.mp4", "pop"]);
}

#[test]
fn audio_job_steps() {
    let r = job(-1, false);
    let c = codecs();
    let (s, a) = audio_job_next(&r, &c, JobState::Start, JobEvent::Begin);
    assert_eq!(show(&a), vec!["running", "push /tmp/42", "step 1/3", "name false false /tmp/42"]);
    let (s, a) = audio_job_next(&r, &c, s, JobEvent::Named(name("Song", "m4a"), false));
    assert_eq!(show(&a), vec!["step 2/3", "download 140 /tmp/42", "step 3/3", "place Song.mp3"]);
    let (_, a) = audio_job_next(&r, &c, s, JobEvent::Placed("/done/Song.mp3".to_string()));
    assert_eq!(
        show(&a),
        vec!["extract /tmp/42 /done/Song.mp3 true", "remove /tmp/42", "pop", "add /done/Song.mp3 Song.mp3"]
    );
    // HQ audio uses the HQ itag and keeps m4a
    let r = job(-3, true);
    let (s, _) = audio_job_next(&r, &c, JobState::Start, JobEvent::Begin);
    let (s, a) = audio_job_next(&r, &c, s, JobEvent::Named(name("Song", "webm"), false));
    assert_eq!(show(&a), vec!["download 22 /tmp/42", "place Song.m4a"]);
    let (_, a) = audio_job_next(&r, &c, s, JobEvent::Placed("/p/Song.m4a".to_string()));
    assert_eq!(show(&a), vec!["extract /tmp/42 /p/Song.m4a false", "remove /tmp/42", "pop"]);
    // an unknown audio code
    let r = job(-7, false);
    let (s, a) = audio_job_next(&r, &c, JobState::Start, JobEvent::Begin);
    assert_eq!(show(&a), vec!["running".to_string(), format!("fail {:?}", Error::InputError("Unknown audio quality!".to_string()))]);
    assert!(matches!(s, JobState::Finished));
}

#[test]
fn cleanup_after_a_job() {
    let mut h = HandleData::new();
    h.push("/tmp/1/a");
    h.push("/tmp/1/b");
    h.addFile("/done/x.mp4", "x.mp4");
    h.addFile("/done/sub/y-1.mp3", "y.mp3");
    let c = job_cleanup(&h, "/tmp/1", "/tmp");
    assert_eq!(c.remove_files, vec!["/tmp/1/a", "/tmp/1/b"]);
    assert!(c.remove_temp_dir);
    assert_eq!(
        c.entries,
        vec![
            ("x.mp4".to_string(), "x.mp4".to_string()),
            ("y-1.mp3".to_string(), "y.mp3".to_string())
        ]
    );
    let c = job_cleanup(&HandleData::new(), "/tmp", "/tmp");
    assert!(!c.remove_temp_dir);
    assert!(c.remove_files.is_empty() && c.entries.is_empty());
    assert_eq!(file_name_of("name.zip"), "name.zip");
    assert_eq!(file_name_of("/a/b/c.mp4"), "c.mp4");
}

#[test]
fn lib_output_lines() {
    let mut last = String::new();
    assert_eq!(lib_output_line(&mut last, "starting"), None);
    assert_eq!(last, "starting");
    assert_eq!(lib_output_line(&mut last, "step 2 of 3"), Some(2));
    assert_eq!(last, "starting");
    assert_eq!(lib_output_line(&mut last, "done filename: Vid.mp4"), None);
    match lib_outcome(&last, "") {
        Ok(f) => {
            assert_eq!(f.name, "Vid");
            assert_eq!(f.extension, "mp4");
        }
        Err(e) => panic!("unexpected {:?}", e),
    }
    match lib_outcome(&last, "boom") {
        Err(Error::InternalError(m)) => assert_eq!(m, "boom"),
        _ => panic!("expected the error output"),
    }
}

#[test]
fn free_save_names() {
    assert_eq!(free_save_attempt(&vec![false]), 0);
    assert_eq!(free_save_attempt(&vec![true, true, false]), 2);
    // past the hundredth candidate the search goes on
    let mut exists = vec![true; 150];
    exists.push(false);
    assert_eq!(free_save_attempt(&exists), 150);
}

/// The playlist actions as text, for comparing.
fn show_playlist(actions: &[PlaylistAction]) -> Vec<String> {
    actions
        .iter()
        .map(|a| match a {
            PlaylistAction::SetInProgress => "running".to_string(),
            PlaylistAction::GetPlaylistName => "name".to_string(),
            PlaylistAction::SetState(t) => format!("state {}", t),
            PlaylistAction::GetPlaylistIds => "ids".to_string(),
            PlaylistAction::AddSubQuery(u) => format!("sub {}", u),
            PlaylistAction::PlaceFile(f) => format!("place {}.{}", f.name, f.extension),
            PlaylistAction::EnterTempDir(d) => format!("enter {}", d),
            PlaylistAction::Progress(s, m) => format!("step {}/{}", s, m),
            PlaylistAction::RunEntry(u) => format!("run {}", u),
            PlaylistAction::AddQueryError(t) => format!("error {}", t),
            PlaylistAction::Zip { dir, output } => format!("zip {} {}", dir, output),
            PlaylistAction::AddFile { path, origin } => format!("add {} {}", path, origin),
            PlaylistAction::RemoveDir(d) => format!("rmdir {}", d),
            PlaylistAction::Fail(e) => format!("fail {:?}", e),
        })
        .collect()
}

#[test]
fn zipped_playlist_steps() {
    let r = job(137, true);
    let (s, a) = playlist_job_next(&r, PlaylistState::Start, PlaylistEvent::Begin);
    assert_eq!(show_playlist(&a), vec!["running", "name"]);
    let (s, a) = playlist_job_next(&r, s, PlaylistEvent::Named("Mix".to_string()));
    assert_eq!(show_playlist(&a), vec!["state 1/?", "ids"]);
    let ids = vec!["a1".to_string(), "b2".to_string()];
    let (s, a) = playlist_job_next(&r, s, PlaylistEvent::Listed(ids));
    assert_eq!(show_playlist(&a), vec!["place Mix.zip"]);
    let (s, a) = playlist_job_next(&r, s, PlaylistEvent::Placed("/done/Mix.zip".to_string()));
    assert_eq!(
        show_playlist(&a),
        vec!["enter /tmp/42", "step 2/4", "step 2/4", "run https://www.youtube.com/watch?v=a1"]
    );
    let (s, a) = playlist_job_next(&r, s, PlaylistEvent::EntryDone(Some("NotAvailable".to_string())));
    assert_eq!(show_playlist(&a), vec!["step 3/4", "run https://www.youtube.com/watch?v=b2"]);
    let (s, a) = playlist_job_next(&r, s, PlaylistEvent::EntryDone(None));
    assert_eq!(
        show_playlist(&a),
        vec![
            "error Following urls couldn't be downloaded: \nhttps://www.youtube.com/watch?v=a1 NotAvailable\n",
            "step 4/4",
            "zip /tmp/42 /done/Mix.zip",
            "add /done/Mix.zip Mix.zip",
            "rmdir /tmp/42",
        ]
    );
    assert!(matches!(s, PlaylistState::Finished));
}

#[test]
fn split_playlist_steps() {
    let mut r = job(137, true);
    r.split = true;
    let (s, _) = playlist_job_next(&r, PlaylistState::Start, PlaylistEvent::Begin);
    let (s, _) = playlist_job_next(&r, s, PlaylistEvent::Named("Mix".to_string()));
    let (s, a) = playlist_job_next(&r, s, PlaylistEvent::Listed(vec!["a1".to_string(), "b2".to_string()]));
    assert_eq!(
        show_playlist(&a),
        vec!["sub https://www.youtube.com/watch?v=a1", "sub https://www.youtube.com/watch?v=b2"]
    );
    assert!(matches!(s, PlaylistState::Finished));
}

#[test]
fn twitch_job_steps() {
    let r = job(-13, false);
    let (s, a) = twitch_job_next(&r, JobState::Start, JobEvent::Begin);
    assert_eq!(show(&a), vec!["running", "enter /tmp/42", "push /tmp/42/42", "step 1/2", "filename"]);
    let (s, a) = twitch_job_next(&r, s, JobEvent::Named(name("Stream", "mp4"), false));
    assert_eq!(show(&a), vec!["place Stream.mp4"]);
    let (s, a) = twitch_job_next(&r, s, JobEvent::Placed("/done/Stream.mp4".to_string()));
    assert_eq!(
        show(&a),
        vec![
            "step 2/2",
            "download High /tmp/42/42",
            "move /tmp/42/42 /done/Stream.mp4",
            "add /done/Stream.mp4 Stream.mp4",
            "rmdir /tmp/42",
            "pop",
        ]
    );
    assert!(matches!(s, JobState::Finished));
    let r = job(5, false);
    let (s, a) = twitch_job_next(&r, JobState::Start, JobEvent::Begin);
    assert_eq!(a.len(), 5);
    assert!(matches!(&a[4], JobAction::Fail(Error::InputError(m)) if m == "Unknown quality!"));
    assert!(matches!(s, JobState::Finished));
}

#[test]
fn job_end_writes_entries_in_order() {
    let entries = vec![("a.mp4".to_string(), "A.mp4".to_string()), ("b.mp4".to_string(), "B.mp4".to_string())];
    let mut w = EntryWriter::new(entries.clone(), Err(Error::NotAvailable));
    assert!(matches!(w.step(Ok(())), WriteStep::Write(n, o) if n == "a.mp4" && o == "A.mp4"));
    assert!(matches!(w.step(Ok(())), WriteStep::Write(n, _) if n == "b.mp4"));
    assert!(matches!(w.step(Ok(())), WriteStep::Done(Err(Error::NotAvailable))));
    // a failed write ends the job with its error
    let mut w = EntryWriter::new(entries, Ok(()));
    assert!(matches!(w.step(Ok(())), WriteStep::Write(_, _)));
    assert!(matches!(
        w.step(Err(Error::DBError("gone".to_string()))),
        WriteStep::Done(Err(Error::DBError(m))) if m == "gone"
    ));
    let mut w = EntryWriter::new(Vec::new(), Ok(()));
    assert!(matches!(w.step(Ok(())), WriteStep::Done(Ok(()))));
}
