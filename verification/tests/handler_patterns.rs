use yayd::handler::twitch;
use yayd::handler::youtube;
use yayd::handler::youtube::{PlaylistProgress, FAILED_LOG_HEADER, PLAYLIST_LISTED_STEP};
use yayd::handler::{init_handlers, HandleData, Module, Registry};
use yayd::common::{Error, Request};
use yayd::config::{ConfigCodecs, ConfigYT};
use yayd::downloader::Filename;

#[test]
fn twitch_regex() {
    assert!(twitch::is_video_url(r"https://www.twitch.tv/fleddi/v/68777299"));
    assert!(twitch::is_video_url(r"https://secure.twitch.tv/fleddi/v/68777299"));
    assert!(!twitch::is_video_url(r"https://www.twitch.tv/fleddi/profile"));
}

#[test]
fn youtube_regex() {
    assert!(youtube::is_video_url(r"https://m.youtube.com/watch?list=PLTXoSHLJey0RR60hjLhuUAaj_ftAdShqv&v=IO-_EoRSpUA"));
    assert!(youtube::is_video_url(r"http://m.youtube.com/watch?v=IO-_EoRSpUA"));
    assert!(youtube::is_video_url(r"https://m.youtube.com/watch?v=IO-_EoRSpUA"));
    assert!(youtube::is_video_url(r"http://youtu.be/IO-_EoRSpUA"));
    assert!(youtube::is_video_url(r"https://www.youtube.com/watch?v=IO-_EoRSpUA"));
    assert!(youtube::is_video_url(r"https://www.youtube.com/watch?v=IO-_EoRSpUA&list=PL6DA1502C5DDC0317&index=21"));
    assert!(!youtube::is_video_url(r"https://www.youtube.com/playlist?list=PLJYiF4qyO-fpaYWfTylcFu3VGUCVK4xfz"));

    assert!(youtube::is_playlist_url(r"https://m.youtube.com/playlist?list=PLTXoSHLJey0RR60hjLhuUAaj_ftAdShqv"));
    assert!(youtube::is_playlist_url(r"https://m.youtube.com/watch?list=PLTXoSHLJey0RR60hjLhuUAaj_ftAdShqv&v=IO-_EoRSpUA"));
    assert!(youtube::is_playlist_url(r"https://www.youtube.com/playlist?list=PLBCC15D0E3ED5E67A"));
    assert!(youtube::is_playlist_url(r"https://www.youtube.com/watch?v=IO-_EoRSpUA&index=2&list=PLBCC15D0E3ED5E67A"));
    assert!(youtube::is_playlist_url(r"https://www.youtube.com/watch?v=IO-_EoRSpUA&list=PL6DA1502C5DDC0317&index=21"));
    assert!(!youtube::is_playlist_url(r"https://www.youtube.com/watch?v=IO-_EoRSpUA"));
}

#[test]
fn youtube_video_pattern_edges() {
    // embedded player prefix and a country domain of three letters
    assert!(youtube::is_video_url("https://www.youtube.com/watch?feature=player_embedded&v=abc"));
    assert!(youtube::is_video_url("text before http://youtube.com/watch?v=x and after"));
    // the id needs at least one character
    assert!(!youtube::is_video_url("https://www.youtube.com/watch?v="));
    // four-letter domains are only accepted for playlists
    assert!(!youtube::is_video_url("https://www.youtube.info/watch?v=abc"));
    assert!(youtube::is_playlist_url("https://www.youtube.info/playlist?list=abc"));
    // the list id must be followed by `&` before `v=`
    assert!(!youtube::is_video_url("https://www.youtube.com/watch?list=abc"));
    assert!(!youtube::is_video_url("ftp://www.youtube.com/watch?v=abc"));
    assert!(!youtube::is_video_url(""));
}

#[test]
fn youtube_playlist_pattern_edges() {
    // anything but a line feed may stand between the video id and the `&`
    assert!(youtube::is_playlist_url("https://youtube.de/watch?v=a#?!&list=b"));
    assert!(!youtube::is_playlist_url("https://youtube.de/watch?v=a\n&list=b"));
    assert!(!youtube::is_playlist_url("https://youtube.de/watch?v=&list=b"));
    assert!(!youtube::is_playlist_url("https://youtube.de/playlist?list="));
}

#[test]
fn twitch_pattern_edges() {
    assert!(twitch::is_video_url("http://www.twitch.tv/a/v/1"));
    // the channel name is alphanumeric only
    assert!(!twitch::is_video_url("https://www.twitch.tv/a_b/v/1"));
    assert!(!twitch::is_video_url("https://m.twitch.tv/abc/v/1"));
    assert!(!twitch::is_video_url("https://www.twitch.tv/abc/v/x"));
}

#[test]
fn twitch_quality_names() {
    let expected = [(-14, "Source"), (-13, "High"), (-12, "Medium"), (-11, "Low"), (-10, "Mobile")];
    for (code, name) in expected.iter() {
        match twitch::get_quality(code) {
            Ok(s) => assert_eq!(&s, name),
            Err(_) => panic!("quality {} refused", code),
        }
    }
    match twitch::get_quality(&-9) {
        Err(Error::InputError(m)) => assert_eq!(m, "Unknown quality!"),
        _ => panic!("quality -9 accepted"),
    }
}

fn request(url: &str, playlist: bool) -> Request {
    Request {
        url: url.to_string(),
        quality: 137,
        playlist,
        split: false,
        qid: 1,
        r_type: 0,
        from: -2,
        to: -2,
        path: "/tmp".to_string(),
        temp_path: "/tmp".to_string(),
        uid: 1,
    }
}

#[test]
fn registry_dispatch() {
    let reg = init_handlers();
    match reg.handle(&request("https://www.youtube.com/watch?v=abc", false)) {
        Ok(m) => assert_eq!(m, Module::YoutubeFile),
        Err(_) => panic!("youtube video refused"),
    }
    match reg.handle(&request("https://www.youtube.com/playlist?list=abc", true)) {
        Ok(m) => assert_eq!(m, Module::YoutubePlaylist),
        Err(_) => panic!("youtube playlist refused"),
    }
    match reg.handle(&request("https://www.twitch.tv/abc/v/12", false)) {
        Ok(m) => assert_eq!(m, Module::TwitchFile),
        Err(_) => panic!("twitch video refused"),
    }
    // a video URL sent as playlist request has no module
    match reg.handle(&request("https://www.youtube.com/watch?v=abc", true)) {
        Err(Error::UnknownURL) => {}
        _ => panic!("expected UnknownURL"),
    }
    match reg.handle(&request("https://example.com/", false)) {
        Err(Error::UnknownURL) => {}
        _ => panic!("expected UnknownURL"),
    }
    let empty = Registry::new();
    match empty.handle(&request("https://www.youtube.com/watch?v=abc", false)) {
        Err(Error::UnknownURL) => {}
        _ => panic!("expected UnknownURL"),
    }
}

#[test]
fn handle_data_push_pop() {
    let mut hd = HandleData::new();
    hd.push("/tmp/a");
    hd.push("/tmp/b");
    hd.pop();
    assert_eq!(hd.getLeftFiles(), &vec!["/tmp/a".to_string()]);
    hd.addFile("/dl/x.mp4", "x.mp4");
    assert_eq!(hd.getFiles().len(), 1);
    assert_eq!(hd.getFiles()[0].path, "/dl/x.mp4");
    assert_eq!(hd.getFiles()[0].origin_name, "x.mp4");
    hd.pop();
    hd.pop();
    assert!(hd.getLeftFiles().is_empty());
}

fn codecs() -> ConfigCodecs {
    ConfigCodecs {
        audio_raw: -2,
        audio_source_hq: -3,
        audio_mp3: -1,
        yt: ConfigYT { audio_normal_mp4: 140, audio_normal_webm: 171, audio_hq: 22 },
    }
}

#[test]
fn youtube_audio_choices() {
    let c = codecs();
    for q in [-1i16, -2].iter() {
        match youtube::get_audio_quality(&c, q) {
            Ok(s) => assert_eq!(s, "140"),
            Err(_) => panic!("audio quality refused"),
        }
    }
    // HQ source audio uses the HQ itag
    match youtube::get_audio_quality(&c, &-3) {
        Ok(s) => assert_eq!(s, "22"),
        Err(_) => panic!("audio quality refused"),
    }
    match youtube::get_audio_quality(&c, &-4) {
        Err(Error::InputError(m)) => assert_eq!(m, "Unknown audio quality!"),
        _ => panic!("expected InputError"),
    }
    assert_eq!(youtube::audio_itag_for(&c, "mp4"), 140);
    assert_eq!(youtube::audio_itag_for(&c, "webm"), 171);
    assert_eq!(youtube::audio_itag_for(&c, "mp"), 171);
    assert_eq!(youtube::audio_extension(&c, -2, "webm"), "m4a");
    assert_eq!(youtube::audio_extension(&c, -3, "webm"), "m4a");
    assert_eq!(youtube::audio_extension(&c, -1, "webm"), "mp3");
    assert_eq!(youtube::audio_extension(&c, 140, "webm"), "webm");
    assert!(youtube::is_audio_quality(-1));
    assert!(!youtube::is_audio_quality(137));
    assert_eq!(youtube::video_url("IO-_EoRSpUA"), "https://www.youtube.com/watch?v=IO-_EoRSpUA");
    assert_eq!(youtube::playlist_max_steps(3), 5);
}

#[test]
fn youtube_name_steps() {
    let f = Filename { name: "a".to_string(), extension: "mp4".to_string() };
    match youtube::get_name_step(Ok(f), false) {
        youtube::NameStep::Use(g) => assert_eq!(g.full_name(), "a.mp4"),
        _ => panic!("expected Use"),
    }
    match youtube::get_name_step(Err(Error::DMCAError), true) {
        youtube::NameStep::AskLib => {}
        _ => panic!("expected AskLib"),
    }
    match youtube::get_name_step(Err(Error::DMCAError), false) {
        youtube::NameStep::Fail(Error::NotAvailable) => {}
        _ => panic!("expected NotAvailable"),
    }
    match youtube::get_name_step(Err(Error::QualityNotAvailable), true) {
        youtube::NameStep::Fail(Error::QualityNotAvailable) => {}
        _ => panic!("expected the error itself"),
    }
}

#[test]
fn playlist_entry_urls_go_to_the_file_module() {
    let u = youtube::video_url("a_B-9");
    assert_eq!(u, "https://www.youtube.com/watch?v=a_B-9");
    assert!(youtube::is_video_url(&u));
    assert!(!youtube::is_playlist_url(&u));
}

#[test]
fn playlist_progress_steps_and_report() {
    let mut run = PlaylistProgress::start(2);
    assert_eq!(run.step, 1);
    assert_eq!(run.max_steps, 4);
    assert_eq!(PLAYLIST_LISTED_STEP, 2);
    assert!(run.report().is_none());
    assert_eq!(run.advance(), 2);
    run.entry_failed("https://www.youtube.com/watch?v=a", "NotAvailable");
    assert_eq!(run.advance(), 3);
    assert_eq!(run.advance(), 4);
    assert_eq!(run.step, run.max_steps);
    assert_eq!(
        run.report().unwrap(),
        format!("{}https://www.youtube.com/watch?v=a NotAvailable\n", FAILED_LOG_HEADER)
    );
    assert_eq!(FAILED_LOG_HEADER, "Following urls couldn't be downloaded: \n");
}
