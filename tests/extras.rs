use mua_core::commands::{check_urls, is_safe_filename, torrent_submission, resubmit_options_with_home, DownloadConfig, OptionValue};
use mua_core::error::AppError;
use mua_core::feed::{next_poll_delay_ms, to_view, total_active_speed};
use mua_core::format::format_duration;
use mua_core::state::TaskState;
use mua_core::task::PersistedTask;
use mua_core::torrent::{check_torrent_size, torrent_info, TorrentEntry};

fn task(gid: &str, state: TaskState, speed: u64) -> PersistedTask {
    PersistedTask {
        gid: gid.to_string(),
        filename: "f.bin".to_string(),
        url: "http://x/f.bin".to_string(),
        save_path: "~/dl".to_string(),
        added_at: 1,
        state,
        total_length: 0,
        completed_length: 0,
        download_speed: speed,
        completed_at: None,
        error_message: String::new(),
        user_agent: String::new(),
        referer: "http://r".to_string(),
        proxy: String::new(),
        headers: vec!["A: 1".to_string()],
        max_download_limit: String::new(),
        select_file: Some("1,3".to_string()),
        trackers: None,
    }
}

fn cfg() -> DownloadConfig {
    DownloadConfig {
        urls: vec![],
        save_path: Some("/dl".to_string()),
        filename: None,
        user_agent: None,
        referer: None,
        headers: None,
        proxy: None,
        max_download_limit: None,
    }
}

#[test]
fn durations_in_words() {
    assert_eq!(format_duration(0), "");
    assert_eq!(format_duration(59), "59秒");
    assert_eq!(format_duration(60), "1分钟");
    assert_eq!(format_duration(61), "1分钟1秒");
    assert_eq!(format_duration(3600), "1小时");
    assert_eq!(format_duration(3720), "1小时2分钟");
    assert_eq!(format_duration(86400), "1天");
    assert_eq!(format_duration(90000), "1天1小时");
    assert_eq!(format_duration(2592000), "30天");
    assert_eq!(format_duration(2592001), "很久很久");
}

#[test]
fn torrent_file_lists() {
    let info = torrent_info(
        "pack".to_string(),
        None,
        Some(vec![
            TorrentEntry { path: vec!["a".to_string(), "b.txt".to_string()], length: 10 },
            TorrentEntry { path: vec!["c.txt".to_string()], length: 5 },
        ]),
    )
    .unwrap();
    assert_eq!(info.total_length, 15);
    assert_eq!(info.files[0].path, "a/b.txt");
    assert_eq!(info.files[1].index, 1);
    let single = torrent_info("one.iso".to_string(), Some(7), None).unwrap();
    assert_eq!(single.files.len(), 1);
    assert_eq!(single.files[0].path, "one.iso");
    assert!(matches!(torrent_info("x".to_string(), None, None), Err(AppError::Validation(_))));
    let huge = torrent_info(
        "x".to_string(),
        None,
        Some(vec![TorrentEntry { path: vec![], length: u64::MAX }, TorrentEntry { path: vec![], length: 1 }]),
    );
    assert!(matches!(huge, Err(AppError::Validation(_))));
    assert!(check_torrent_size(20971520).is_ok());
    assert!(matches!(check_torrent_size(20971521), Err(AppError::Validation(_))));
}

#[test]
fn torrent_submission_encodes_the_file() {
    let s = torrent_submission(&b"hello".to_vec(), "/t/a.torrent", &cfg(), Some("2".to_string()), None).unwrap();
    assert_eq!(s.payload, "aGVsbG8=");
    assert_eq!(s.filename, "a.torrent");
    assert_eq!(s.url, "file:///t/a.torrent");
    assert_eq!(s.save_path, "/dl");
    let keys: Vec<&str> = s.options.iter().map(|o| o.key.as_str()).collect();
    assert_eq!(keys, vec!["dir", "select-file"]);
    let big = vec![0u8; 20971521];
    assert!(matches!(torrent_submission(&big, "/t/b.torrent", &cfg(), None, None), Err(AppError::Validation(_))));
}

#[test]
fn url_checks() {
    assert!(check_urls(&vec!["http://a".to_string(), "FTP://b".to_string()]).is_ok());
    assert!(matches!(check_urls(&vec!["http://a".to_string(), "gopher://b".to_string()]), Err(AppError::Validation(_))));
}

#[test]
fn safe_file_names() {
    assert!(is_safe_filename("movie.mkv"));
    assert!(!is_safe_filename(""));
    assert!(!is_safe_filename(".."));
    assert!(!is_safe_filename("../etc/passwd"));
    assert!(!is_safe_filename("a\\b"));
}

#[test]
fn poll_interval_and_speed() {
    let busy = vec![to_view(&task("a", TaskState::Complete, 3)), to_view(&task("b", TaskState::Paused, 4))];
    assert_eq!(next_poll_delay_ms(&busy), 200);
    let idle = vec![to_view(&task("a", TaskState::Complete, 3))];
    assert_eq!(next_poll_delay_ms(&idle), 2000);
    let speeds = vec![
        to_view(&task("a", TaskState::Active, 3)),
        to_view(&task("b", TaskState::Paused, 4)),
        to_view(&task("c", TaskState::Active, 10)),
    ];
    assert_eq!(total_active_speed(&speeds), 13);
}

#[test]
fn resubmit_options_from_record() {
    let opts = resubmit_options_with_home(&task("a", TaskState::Error, 0), Some("/home/u".to_string()));
    let keys: Vec<&str> = opts.iter().map(|o| o.key.as_str()).collect();
    assert_eq!(keys, vec!["dir", "out", "referer", "header", "select-file"]);
    match &opts[0].value {
        OptionValue::Text(d) => assert_eq!(d, "/home/u/dl"),
        OptionValue::List(_) => panic!("expected text"),
    }
}

#[test]
fn binary_in_use() {
    let h = Some("abc".to_string());
    let v = mua_core::supervisor::version_info(true, true, Some("aria2 1.37".to_string()), "/c/aria2c".to_string(), true, &h, &h);
    assert!(v.is_custom);
    assert_eq!(v.version, "aria2 1.37");
    assert_eq!(v.custom_binary_security_status, "trusted");
    let w = mua_core::supervisor::version_info(true, true, None, "/c/aria2c".to_string(), true, &h, &Some("x".to_string()));
    assert!(!w.is_custom);
    assert_eq!(w.custom_binary_security_status, "hash_mismatch");
    assert_eq!(w.path, "Embedded Sidecar");
    let u = mua_core::supervisor::version_info(false, false, None, String::new(), false, &None, &None);
    assert_eq!(u.custom_binary_security_status, "missing");
    let e = Some(String::new());
    assert!(!mua_core::supervisor::use_custom_binary(true, true, true, &e, &e));
}

#[test]
fn tracker_lines() {
    let t = mua_core::text::parse_tracker_list("udp://a:1/announce\r\n\r\n  http://b/announce \n");
    assert_eq!(t, vec!["udp://a:1/announce".to_string(), "http://b/announce".to_string()]);
    assert!(mua_core::text::parse_tracker_list("").is_empty());
}

#[test]
fn runtime_settings_sync() {
    let c = mua_core::supervisor::WorkerConfig {
        max_concurrent_downloads: 3,
        enable_dht: false,
        enable_peer_exchange: true,
        enable_seeding: true,
        seed_ratio: "2".to_string(),
        dht_listen_port: "1".to_string(),
        listen_port: "2".to_string(),
        global_max_upload_limit: String::new(),
        bt_trackers: String::new(),
        rpc_secret: None,
        save_session_interval: 60,
    };
    let opts = mua_core::commands::build_global_options(&c, &"5M".to_string());
    let pairs: Vec<(String, String)> = opts
        .iter()
        .map(|o| match &o.value {
            OptionValue::Text(t) => (o.key.clone(), t.clone()),
            OptionValue::List(_) => panic!("expected text"),
        })
        .collect();
    assert_eq!(pairs[0], ("max-concurrent-downloads".to_string(), "3".to_string()));
    assert_eq!(pairs[1], ("max-download-limit".to_string(), "5M".to_string()));
    assert_eq!(pairs[2], ("max-overall-upload-limit".to_string(), "0".to_string()));
    assert_eq!(pairs[3], ("enable-dht".to_string(), "false".to_string()));
    assert_eq!(pairs[6], ("seed-time".to_string(), "999999999".to_string()));
    assert_eq!(pairs.len(), 9);
}
