use yayd::common::{
    check_SHA256, delete_action, inner_update, l_expect, result_code, retain_removed,
    save_file_name, url_sanitize, DeleteAction, Error, CODE_FAILED_INTERNAL,
    CODE_FAILED_QUALITY, CODE_FAILED_UNAVAILABLE, CODE_FAILED_UNKNOWN, CODE_SUCCESS,
};
use yayd::config::{create_config, ConfigCleanup, CONFIG_TEMPLATE};
use yayd::db::{
    check_affected_rows, collect_delete_rows, delete_table_sql, files_to_delete_sql,
    get_db_create_sql, req_db_tables, request_from_row, steps_state, DeleteRequestType,
    DEFAULT_PLAYLIST_VAL,
};
use yayd::downloader::Filename;
use yayd::http::{header, HeaderType, C_USER_AGENT};
use yayd::text::str_replace;

const SETUP_SQL: &str = "/* tables of the job queue */
CREATE TABLE `queries` (
  `qid` int NOT NULL /* id */,
  `url` varchar(255)
);
CREATE TABLE `files` (`fid` int);\r
/* unclosed";

#[test]
fn sql_test() {
    get_db_create_sql(SETUP_SQL);
}

#[test]
fn create_sql_statements() {
    let stmts = get_db_create_sql(SETUP_SQL);
    assert_eq!(
        stmts,
        vec![
            "CREATE TABLE `queries` (  `qid` int NOT NULL ,  `url` varchar(255))".to_string(),
            "CREATE TABLE `files` (`fid` int)".to_string(),
            "/* unclosed".to_string(),
        ]
    );
    assert!(get_db_create_sql("").is_empty());
    assert!(get_db_create_sql(";;\n;").is_empty());
    assert_eq!(get_db_create_sql("/**/a/*x*/b;c"), vec!["ab".to_string(), "c".to_string()]);
    // `/*/` opens a comment that the next `*/` closes
    assert_eq!(get_db_create_sql("a/*/b*/c"), vec!["ac".to_string()]);
}

#[test]
fn sanitize() {
    assert_eq!(url_sanitize("Vidéo – 1"), "Vid_o _ 1");
    assert_eq!(url_sanitize("plain ascii"), "plain ascii");
    let once = url_sanitize("ÄÖÜ");
    assert_eq!(url_sanitize(&once), once);
}

#[test]
fn expect_ok() {
    let r: Result<u8, String> = Ok(4);
    assert_eq!(l_expect(r, "value"), 4);
}

#[test]
fn status_codes() {
    assert_eq!(result_code(&Ok(())), CODE_SUCCESS);
    assert_eq!(result_code(&Err(Error::NotAvailable)), CODE_FAILED_UNAVAILABLE);
    assert_eq!(result_code(&Err(Error::ExtractorError)), CODE_FAILED_UNAVAILABLE);
    assert_eq!(result_code(&Err(Error::QualityNotAvailable)), CODE_FAILED_QUALITY);
    assert_eq!(result_code(&Err(Error::UnknownURL)), CODE_FAILED_UNKNOWN);
    assert_eq!(result_code(&Err(Error::DMCAError)), CODE_FAILED_INTERNAL);
    assert_eq!(result_code(&Err(Error::InternalError("x".to_string()))), CODE_FAILED_INTERNAL);
    assert_eq!(CODE_SUCCESS, 2);
    assert_eq!(CODE_FAILED_INTERNAL, 10);
}

#[test]
fn sha256_check() {
    let digest_abc = "ba7816bf8f01cfea414140de5dae2223b00361a396177a9cb410ff61f20015ad";
    assert!(check_SHA256(b"abc", digest_abc));
    assert!(!check_SHA256(b"abc", &digest_abc.to_uppercase()));
    assert!(!check_SHA256(b"abd", digest_abc));
    assert!(check_SHA256(b"", "e3b0c44298fc1c149afbf4c8996fb92427ae41e4649b934ca495991b7852b855"));
    assert!(inner_update(b"abc", digest_abc).is_ok());
    match inner_update(b"abc", "00") {
        Err(Error::InternalError(m)) => assert_eq!(m, "Hash mismatch"),
        _ => panic!("expected a hash mismatch"),
    }
}

#[test]
fn save_names() {
    let f = Filename { name: "Vidéo".to_string(), extension: "mp4".to_string() };
    assert_eq!(save_file_name(&f, 0), "Vid_o.mp4");
    assert_eq!(save_file_name(&f, 1), "Vid_o-1.mp4");
    assert_eq!(save_file_name(&f, 99), "Vid_o-99.mp4");
}

#[test]
fn cleanup_choices() {
    let mut c = ConfigCleanup {
        auto_delete_files: true,
        auto_delete_age: 4320,
        auto_delete_interval: 1440,
        auto_delete_request: false,
        delete_files: true,
        delete_request: false,
        delete_interval: 900,
    };
    assert_eq!(delete_action(&c), DeleteAction::ClearFlags);
    c.auto_delete_request = true;
    assert_eq!(delete_action(&c), DeleteAction::DeleteRequests);
    let files = vec![(1u64, "a".to_string()), (2, "b".to_string()), (3, "c".to_string())];
    let outcomes = vec![(true, false), (false, true), (false, false)];
    assert_eq!(
        retain_removed(files, &outcomes),
        vec![(1u64, "a".to_string()), (3, "c".to_string())]
    );
}

#[test]
fn statements() {
    assert_eq!(
        req_db_tables(),
        vec!["queries", "querydetails", "playlists", "subqueries", "query_files"]
    );
    assert_eq!(delete_table_sql("queries"), "DELETE FROM queries WHERE qid = ?");
    assert_eq!(
        files_to_delete_sql(DeleteRequestType::AgedMin(60)),
        "SELECT `query_files`.`qid`,`files`.`fid`,`name` FROM files LEFT JOIN `query_files` ON files.fid = query_files.fid WHERE `valid` = 1 AND `created` < (NOW() - INTERVAL 60 DAY_MINUTE)"
    );
    assert_eq!(
        files_to_delete_sql(DeleteRequestType::Marked),
        "SELECT `query_files`.`qid`,`files`.`fid`,`name` FROM files LEFT JOIN `query_files` ON files.fid = query_files.fid WHERE files.`delete` = 1 AND `valid` = 1"
    );
    assert_eq!(steps_state(2, 3), "2|3");
    assert_eq!(steps_state(-1, 0), "-1|0");
    assert!(check_affected_rows(1).is_ok());
    match check_affected_rows(0) {
        Err(Error::InternalError(m)) => assert_eq!(m, "Invalid affected lines count!"),
        _ => panic!("expected InternalError"),
    }
}

#[test]
fn delete_rows() {
    let rows = vec![
        (5u64, 10u64, "a".to_string()),
        (3, 11, "b".to_string()),
        (5, 12, "c".to_string()),
    ];
    let (qids, files) = collect_delete_rows(rows);
    assert_eq!(qids, vec![3, 5]);
    assert_eq!(files, vec![(10, "a".to_string()), (11, "b".to_string()), (12, "c".to_string())]);
    let (qids, files) = collect_delete_rows(Vec::new());
    assert!(qids.is_empty() && files.is_empty());
}

#[test]
fn rows_to_requests() {
    let r = request_from_row(
        "test.com".to_string(), 1, 7, -2, 1, None, "/d".to_string(), "/t".to_string(),
    );
    assert!(!r.playlist && !r.split);
    assert_eq!((r.from, r.to), (DEFAULT_PLAYLIST_VAL, DEFAULT_PLAYLIST_VAL));
    let r = request_from_row(
        "test.com".to_string(), 1, 7, -2, 1, Some((true, 0, 100)), "/d".to_string(),
        "/t".to_string(),
    );
    assert!(r.playlist && r.split);
    assert_eq!((r.from, r.to, r.qid, r.uid), (0, 100, 7, 1));
    assert_eq!(r.path, "/d");
    assert_eq!(r.temp_path, "/t");
}

#[test]
fn config_template() {
    let c = create_config();
    assert_eq!(c, CONFIG_TEMPLATE);
    assert!(c.starts_with("[db]\nuser = \"user\""));
    assert!(c.contains("audio_normal_webm = 171"));
}

#[test]
fn request_headers() {
    let h = header(HeaderType::Ajax);
    assert_eq!(h.len(), 4);
    assert_eq!(h[0], ("accept-encoding".to_string(), "gzip, deflate, br".to_string()));
    assert_eq!(h[1].1, "application/json, text/javascript, */*; q=0.01");
    assert_eq!(h[2], ("connection".to_string(), "close".to_string()));
    assert_eq!(h[3], ("user-agent".to_string(), C_USER_AGENT.to_string()));
    let h = header(HeaderType::Html);
    assert_eq!(h[1].1, "text/html,application/xhtml+xml,application/xml;q=0.9,*/*;q=0.8");
}

#[test]
fn text_helpers() {
    assert_eq!(steps_state(-2147483648, 2147483647), "-2147483648|2147483647");
    assert_eq!(steps_state(0, 10), "0|10");
    assert_eq!(files_to_delete_sql(DeleteRequestType::AgedMin(65535)).contains("INTERVAL 65535 DAY_MINUTE"), true);
    assert_eq!(str_replace("aaa", "aa", "b"), "ba");
    assert_eq!(str_replace("x%db%y%db%", "%db%", "T"), "xTyT");
}
