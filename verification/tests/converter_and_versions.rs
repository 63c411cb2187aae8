use yayd::common::{Error, ReqCore};
use yayd::converter::{probe_duration, probe_frame_rate, progress_frame, progress_time, Converter};
use yayd::db::request_from_row;
use yayd::downloader::Downloader;

#[test]
fn probe_output() {
    let out = "r_frame_rate=30000/1001\nduration=634.567000\n";
    assert_eq!(probe_duration(out), Some("634.567000".to_string()));
    assert_eq!(probe_frame_rate(out), Some(("30000".to_string(), "1001".to_string())));
    assert_eq!(probe_duration("duration=N/A\nduration=12\n"), Some("12".to_string()));
    assert_eq!(probe_duration("duration=7."), Some("7.".to_string()));
    assert_eq!(probe_duration("nothing"), None);
    assert_eq!(probe_frame_rate("r_frame_rate=30/"), None);
}

#[test]
fn ffmpeg_progress_lines() {
    assert_eq!(
        progress_frame("frame=  123 fps= 25 q=-1.0 size=    1024kB time=00:00:05.12 bitrate= 1.6kbits/s"),
        Some("123".to_string())
    );
    assert_eq!(progress_frame("frame= x"), None);
    assert_eq!(
        progress_time("size=    1024kB time=01:02:05.12 bitrate= 1.6kbits/s"),
        Some(("01".to_string(), "02".to_string(), "05.12".to_string()))
    );
    // `.` in the seconds part takes any one character
    assert_eq!(
        progress_time("time=00:00:05 bitrate"),
        Some(("00".to_string(), "00".to_string(), "05 ".to_string()))
    );
    assert_eq!(progress_time("time=00:00"), None);
}

#[test]
fn ffmpeg_commands() {
    let c = Converter::new("/ff", 2);
    assert_eq!(c.ffmpeg_dir, "/ff");
    assert_eq!(
        c.probe_args("v"),
        vec!["-v", "error", "-select_streams", "0", "-show_entries", "stream=duration,r_frame_rate", "-of", "default=noprint_wrappers=1", "v"]
    );
    assert_eq!(
        c.merge_args("a", "v", "o"),
        vec!["-v", "error", "-threads", "0", "-i", "v", "-i", "a", "-map", "0", "-map", "1", "-codec", "copy", "-shortest", "o"]
    );
    assert_eq!(
        c.audio_extract_args("v", "o"),
        vec!["-v", "error", "-threads", "0", "-i", "v", "-vn", "-acodec", "copy", "o"]
    );
    assert_eq!(
        c.audio_extract_to_mp3_args("v", "o"),
        vec!["-v", "error", "-threads", "0", "-i", "v", "-codec:a", "libmp3lame", "-qscale:a", "2", "o"]
    );
}

#[test]
fn latest_version() {
    // the shape of the project's published version list
    let body = r#"{
        "latest": "2021.12.17",
        "versions": {
            "2021.06.06": {"bin": ["https://yt-dl.org/downloads/2021.06.06/youtube-dl", "aa"]},
            "2021.12.17": {
                "bin": ["https://yt-dl.org/downloads/2021.12.17/youtube-dl", "9f3b63c2"],
                "exe": ["https://yt-dl.org/downloads/2021.12.17/youtube-dl.exe", "bb"],
                "tar": ["https://yt-dl.org/downloads/2021.12.17/youtube-dl-2021.12.17.tar.gz", "cc"]
            }
        }
    }"#;
    assert!(Downloader::get_latest_version(body).is_ok());
    let v = Downloader::get_latest_version(body).unwrap();
    assert_eq!(v.version, "2021.12.17");
    assert_eq!(v.sha256, "9f3b63c2");
}

#[test]
fn latest_versions() {
    let body = r#"{"latest": "2021.12.17", "versions": {"2021.12.17": {"bin": ["https://x/youtube-dl", "abc123"], "exe": []}}}"#;
    match Downloader::get_latest_version(body) {
        Ok(v) => {
            assert_eq!(v.version, "2021.12.17");
            assert_eq!(v.sha256, "abc123");
        }
        Err(e) => panic!("unexpected {:?}", e),
    }
    match Downloader::get_latest_version(r#"{"versions": {}}"#) {
        Err(Error::InternalError(m)) => assert_eq!(m, "Version key not found!"),
        _ => panic!("expected a missing key"),
    }
    match Downloader::get_latest_version(r#"{"latest": 3}"#) {
        Err(Error::InternalError(m)) => assert_eq!(m, "Version value is not a str!"),
        _ => panic!("expected a non-string version"),
    }
    match Downloader::get_latest_version(r#"{"latest": "1", "versions": {}}"#) {
        Err(Error::InternalError(m)) => assert_eq!(m, "SHA256 key not found!"),
        _ => panic!("expected a missing digest"),
    }
    match Downloader::get_latest_version(r#"{"latest": "1", "versions": {"1": {"bin": ["u", 5]}}}"#) {
        Err(Error::InternalError(m)) => assert_eq!(m, "SHA256 value is not an str!"),
        _ => panic!("expected a non-string digest"),
    }
    match Downloader::get_latest_version("not json") {
        Err(Error::InternalError(m)) => assert!(m.starts_with("Parsing error ") && m.ends_with(" for not json")),
        _ => panic!("expected a parse error"),
    }
}

#[test]
fn request_comparison() {
    let core = ReqCore {
        url: "test.com".to_string(),
        quality: 1,
        playlist: true,
        split: true,
        qid: 3,
        r_type: -2,
        from: 0,
        to: 100,
        path: "/d".to_string(),
        temp_path: "/t".to_string(),
        uid: 1,
    };
    let r = request_from_row(
        "test.com".to_string(), 1, 3, -2, 1, Some((true, 0, 100)), "/d".to_string(), "/t".to_string(),
    );
    assert!(core.verify(&r));
    let r = request_from_row(
        "test.com".to_string(), 1, 3, -2, 1, None, "/d".to_string(), "/t".to_string(),
    );
    assert!(!core.verify(&r));
}
