use yayd::common::Error;
use yayd::config::ConfigGen;
use yayd::downloader::{
    capture_name, classify_download_stderr, collect_playlist_ids, download_attempt,
    extract_playlist_id, extract_playlist_name, filename_attempt, lib_output_name,
    parse_step_line, playlist_name_from_lines, progress_capture, Attempt, Downloader, Filename,
    Retry, StartupCheck, UpdatePlan, DOWNLOAD_ATTEMPTS, FILENAME_ATTEMPTS, update_plan,
};

#[test]
fn filenames() {
    assert!(capture_name("A#B\"C.ABCÜ02.mp4").is_some());
    assert!(capture_name("A#B\"C.ABCÜ02.webm").is_some());
    assert!(!capture_name("A#B\"C.ABCÜ02.").is_some());
}

#[test]
fn filename_captures() {
    let f = capture_name("A#B\"C.ABCÜ02.mp4").unwrap();
    assert_eq!(f.name, "A#B\"C.ABCÜ02");
    assert_eq!(f.extension, "mp4");
    // the name starts after the last line feed before the dot
    let f = capture_name("first line\nmy video.webm").unwrap();
    assert_eq!(f.name, "my video");
    assert_eq!(f.extension, "webm");
    // the extension is alphanumeric only
    assert!(capture_name("name.mp-4").is_none());
    assert!(capture_name("noextension").is_none());
    let f = capture_name(".mp4").unwrap();
    assert_eq!(f.name, "");
}

#[test]
fn full_name_roundtrip() {
    let f = Filename { name: "some.video name".to_string(), extension: "mkv".to_string() };
    let full = f.full_name();
    assert_eq!(full, "some.video name.mkv");
    let g = capture_name(&full).unwrap();
    assert_eq!(g.name, f.name);
    assert_eq!(g.extension, f.extension);
}

#[test]
fn progress_lines() {
    assert_eq!(
        progress_capture("[download]  13.4% of 275.27MiB at 525.36KiB/s ETA 07:52"),
        Some("13.4".to_string())
    );
    assert_eq!(progress_capture("[download] 100.0% of 3MiB"), Some("100.0".to_string()));
    assert_eq!(progress_capture("no progress 13%"), None);
    // `1.23%` has two digits after the dot, so the first match is `4.5%`
    assert_eq!(progress_capture("1.23% then 4.5%"), Some("4.5".to_string()));
}

#[test]
fn playlist_entries() {
    assert_eq!(
        extract_playlist_id(r#"{"_type": "url", "url": "IO-_EoRSpUA", "ie_key": "Youtube"}"#),
        Some("IO-_EoRSpUA".to_string())
    );
    assert_eq!(extract_playlist_id(r#"{"url": ""}"#), None);
    assert_eq!(extract_playlist_id(r#"{"url": "a b"}"#), None);
    let lines = vec![
        r#"{"url": "aaa"}"#.to_string(),
        "nothing".to_string(),
        r#"{"url": "bbb", "x": 1}"#.to_string(),
    ];
    match collect_playlist_ids(&lines, "") {
        Ok(ids) => assert_eq!(ids, vec!["aaa".to_string(), "bbb".to_string()]),
        Err(_) => panic!("expected ids"),
    }
    match collect_playlist_ids(&lines, "ERROR: oops") {
        Err(Error::InternalError(m)) => assert_eq!(m, "ERROR: oops"),
        _ => panic!("expected InternalError"),
    }
}

#[test]
fn playlist_names() {
    assert_eq!(
        extract_playlist_name("[download] Downloading playlist: My list"),
        Some("My list".to_string())
    );
    assert_eq!(extract_playlist_name("[download] Downloading video 1 of 3"), None);
    let lines = vec![
        "[youtube:playlist] PL: Downloading webpage".to_string(),
        "[download] Downloading playlist: First".to_string(),
        "[download] Downloading playlist: Second".to_string(),
    ];
    match playlist_name_from_lines(&lines) {
        Ok(n) => assert_eq!(n, "First"),
        Err(_) => panic!("expected a name"),
    }
    match playlist_name_from_lines(&vec!["x".to_string()]) {
        Err(Error::DownloadError(m)) => assert_eq!(m, "no playlist name"),
        _ => panic!("expected DownloadError"),
    }
}

#[test]
fn lib_lines() {
    assert_eq!(parse_step_line("step 3 of 5"), Some(3));
    assert_eq!(parse_step_line("steps 3"), None);
    assert_eq!(parse_step_line("step x step 7"), Some(7));
    match lib_output_name("done, filename: Vidéo clip.mp4  ") {
        Ok(f) => {
            assert_eq!(f.name, "Vid_o clip");
            assert_eq!(f.extension, "mp4");
        }
        Err(_) => panic!("expected a name"),
    }
    match lib_output_name("filename: broken") {
        Err(Error::InternalError(m)) => assert_eq!(m, "no name match! broken"),
        _ => panic!("expected InternalError"),
    }
}

#[test]
fn download_stderr_classes() {
    assert!(matches!(classify_download_stderr(""), Ok(true)));
    assert!(matches!(
        classify_download_stderr("ERROR: requested format not available"),
        Err(Error::QualityNotAvailable)
    ));
    assert!(matches!(
        classify_download_stderr("youtube_dl.utils.ExtractorError: x"),
        Err(Error::ExtractorError)
    ));
    match classify_download_stderr("something else") {
        Err(Error::InternalError(m)) => assert_eq!(m, "something else"),
        _ => panic!("expected InternalError"),
    }
}

#[test]
fn filename_attempts() {
    match filename_attempt("  My video.mp4\n", "") {
        Attempt::Done(Ok(f)) => {
            assert_eq!(f.name, "My video");
            assert_eq!(f.extension, "mp4");
        }
        _ => panic!("expected a name"),
    }
    assert!(matches!(
        filename_attempt("", "ERROR: This video is not available in your country."),
        Attempt::Done(Err(Error::DMCAError))
    ));
    assert!(matches!(
        filename_attempt("", "ERROR: Please sign in to view this video"),
        Attempt::Done(Err(Error::NotAvailable))
    ));
    assert!(matches!(filename_attempt("", "ExtractorError"), Attempt::Retry));
    match filename_attempt("x.mp4", "WARNING: odd") {
        Attempt::Done(Err(Error::DownloadError(m))) => assert_eq!(m, "WARNING: odd"),
        _ => panic!("expected DownloadError"),
    }
}

#[test]
fn retries_end_after_two_attempts() {
    assert_eq!(DOWNLOAD_ATTEMPTS, 2);
    let mut r = Retry::new(DOWNLOAD_ATTEMPTS);
    assert!(r.step::<bool>(download_attempt(Err(Error::ExtractorError))).is_none());
    assert!(matches!(
        r.step::<bool>(download_attempt(Err(Error::ExtractorError))),
        Some(Err(Error::ExtractorError))
    ));
    let mut r = Retry::new(DOWNLOAD_ATTEMPTS);
    assert!(matches!(r.step(download_attempt(Ok(true))), Some(Ok(true))));
    let mut r = Retry::new(DOWNLOAD_ATTEMPTS);
    assert!(matches!(
        r.step::<bool>(download_attempt(Err(Error::NotAvailable))),
        Some(Err(Error::NotAvailable))
    ));
}

#[test]
fn file_name_query_retried_twice() {
    assert_eq!(FILENAME_ATTEMPTS, 3);
    let mut r = Retry::new(FILENAME_ATTEMPTS);
    assert!(r.step(filename_attempt("", "ExtractorError")).is_none());
    assert!(r.step(filename_attempt("", "ExtractorError")).is_none());
    assert!(matches!(
        r.step(filename_attempt("", "ExtractorError")),
        Some(Err(Error::ExtractorError))
    ));
    assert_eq!(r.tries, 3);
}

fn general() -> ConfigGen {
    ConfigGen {
        link_subqueries: true,
        link_files: true,
        temp_dir: "/tmp/t".to_string(),
        download_dir: "/tmp/d".to_string(),
        mp3_quality: 2,
        download_mbps: 48,
        ffmpeg_bin_dir: "/ff".to_string(),
        lib_use: false,
        lib_dir: "/".to_string(),
        lib_bin: "/binary".to_string(),
        lib_args: vec!["arg1".to_string(), "arg2".to_string()],
        clean_temp_dir: false,
        youtube_dl_dir: "/ytdl/".to_string(),
        youtube_dl_auto_update: true,
    }
}

#[test]
fn downloader_commands() {
    let d = Downloader::new(general());
    assert_eq!(d.cmd_path, "/ytdl/");
    assert_eq!(d.version_args(), vec!["--version"]);
    assert_eq!(
        d.download_args("/tmp/t/1", "https://u", "137"),
        vec![
            "--newline", "--no-warnings", "-r", "6M", "-f", "137", "-o", "/tmp/t/1",
            "--hls-prefer-native", "--ffmpeg-location", "/ff", "https://u"
        ]
    );
    assert_eq!(
        d.filename_args("https://u", None),
        vec!["--get-filename", "--no-warnings", "-o", "%(title)s.%(ext)s", "https://u"]
    );
    assert_eq!(
        d.filename_args("https://u", Some("22")),
        vec!["--get-filename", "--no-warnings", "-o", "%(title)s.%(ext)s", "-f", "22", "https://u"]
    );
    assert_eq!(
        d.lib_request_args("https://u", "/f", "140", false),
        vec!["arg1", "arg2", "-q", "140", "-r", "48M", "-f", "/f", "-v", "false", "https://u"]
    );
    assert_eq!(
        d.playlist_extract_args("https://u", 2, 10),
        vec![
            "-s", "--dump-json", "--flat-playlist", "--no-warnings", "--playlist-start", "2",
            "--playlist-end", "10", "https://u"
        ]
    );
    assert_eq!(
        d.playlist_extract_args("https://u", -2, -2),
        vec!["-s", "--dump-json", "--flat-playlist", "--no-warnings", "https://u"]
    );
    assert_eq!(
        d.playlist_name_args("https://u"),
        vec!["-s", "--no-warnings", "--playlist-start", "1", "--playlist-end", "1", "https://u"]
    );
}

#[test]
fn downloader_version() {
    let d = Downloader::new(general());
    match d.version(true, b"  2021.12.17\n") {
        Ok(v) => assert_eq!(v, "2021.12.17"),
        Err(_) => panic!("expected a version"),
    }
    match d.version(true, &[0x32, 0xff, 0x30]) {
        Ok(v) => assert_eq!(v, "2\u{fffd}0"),
        Err(_) => panic!("expected a version"),
    }
    match d.version(true, "\u{3000}2021 \t\n".as_bytes()) {
        Ok(v) => assert_eq!(v, "2021"),
        Err(_) => panic!("expected a version"),
    }
    match d.version(false, b"2021") {
        Err(Error::InternalError(m)) => assert_eq!(m, "Process errored"),
        _ => panic!("expected InternalError"),
    }
}

#[test]
fn update_plans() {
    assert_eq!(update_plan(None, "2024.01.01"), UpdatePlan::Install);
    assert_eq!(update_plan(Some("2024.01.01"), "2024.01.01"), UpdatePlan::Keep);
    assert_eq!(update_plan(Some("2023.12.30"), "2024.01.01"), UpdatePlan::Replace);
    assert_eq!(update_plan(Some("2024.01.0"), "2024.01.01"), UpdatePlan::Replace);
}

#[test]
fn startup_tests() {
    let d = Downloader::new(general());
    assert_eq!(d.startup_test(), StartupCheck::Update);
    let mut g = general();
    g.youtube_dl_auto_update = false;
    let d = Downloader::new(g);
    assert_eq!(d.startup_test(), StartupCheck::Version);
}
