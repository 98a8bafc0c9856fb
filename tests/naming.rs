use mua_core::commands::{build_aria2_options_with_home, create_persisted_task, DownloadConfig, OptionValue};
use mua_core::naming::{deduce_filename, get_unique_filename, is_valid_url, resolve_path_with_home};
use mua_core::supervisor::{build_worker_args, next_port, use_custom_binary, ConnectionParams, WorkerConfig, set_aria2_port, get_aria2_port};
use mua_core::text::{decimal_string, parse_u64, split_headers, trim_str};

#[test]
fn second_add_of_same_url_gets_numbered_name() {
    let urls = vec!["http://x/file.bin".to_string()];
    let first = deduce_filename(None, &urls);
    assert_eq!(first, "file.bin");
    assert_eq!(get_unique_filename(&first, &vec![], &vec![]), "file.bin");
    let second = deduce_filename(None, &urls);
    assert_eq!(get_unique_filename(&second, &vec![first.clone()], &vec![]), "file (1).bin");
    assert_eq!(
        get_unique_filename("file.bin", &vec!["file.bin".to_string()], &vec!["file (1).bin".to_string()]),
        "file (2).bin"
    );
}

#[test]
fn deduced_names() {
    assert_eq!(deduce_filename(Some("given.iso".to_string()), &vec![]), "given.iso");
    assert_eq!(deduce_filename(Some(String::new()), &vec!["https://h/p/a.zip?x=1".to_string()]), "a.zip");
    assert_eq!(deduce_filename(None, &vec!["https://h/".to_string()]), "Unknown");
    assert_eq!(deduce_filename(None, &vec![]), "Unknown");
    assert_eq!(get_unique_filename(".bashrc", &vec![".bashrc".to_string()], &vec![]), ".bashrc (1)");
    assert_eq!(get_unique_filename("noext", &vec!["noext".to_string()], &vec![]), "noext (1)");
}

#[test]
fn url_schemes() {
    assert!(is_valid_url("HTTP://a"));
    assert!(is_valid_url("ftps://a"));
    assert!(!is_valid_url("magnet:?xt=urn"));
    assert!(!is_valid_url("file:///x"));
}

#[test]
fn numbers_and_text() {
    assert_eq!(parse_u64("12345"), Some(12345));
    assert_eq!(parse_u64("18446744073709551615"), Some(u64::MAX));
    assert_eq!(parse_u64("18446744073709551616"), None);
    assert_eq!(parse_u64(""), None);
    assert_eq!(parse_u64("12a"), None);
    assert_eq!(decimal_string(0), "0");
    assert_eq!(decimal_string(9070), "9070");
    assert_eq!(trim_str("  a b \t"), "a b");
    assert_eq!(split_headers(" A: 1 ;\nB: 2;; "), vec!["A: 1".to_string(), "B: 2".to_string()]);
}

#[test]
fn options_of_a_request() {
    let (opts, dir) = build_aria2_options_with_home(
        Some("~/dl".to_string()),
        Some("f.bin".to_string()),
        Some(String::new()),
        Some("http://r".to_string()),
        Some("A: 1; B: 2".to_string()),
        None,
        Some("1M".to_string()),
        Some("/home/u".to_string()),
    );
    assert_eq!(dir, "/home/u/dl");
    let keys: Vec<&str> = opts.iter().map(|o| o.key.as_str()).collect();
    assert_eq!(keys, vec!["dir", "out", "referer", "header", "max-download-limit"]);
    match &opts[3].value {
        OptionValue::List(v) => assert_eq!(v, &vec!["A: 1".to_string(), "B: 2".to_string()]),
        OptionValue::Text(_) => panic!("expected a list"),
    }
    assert_eq!(resolve_path_with_home("~/x", None), "~/x");
}

#[test]
fn new_record_from_request() {
    let cfg = DownloadConfig {
        urls: vec!["http://x/a".to_string()],
        save_path: None,
        filename: None,
        user_agent: Some("UA".to_string()),
        referer: None,
        headers: Some("X: 1\nY: 2".to_string()),
        proxy: None,
        max_download_limit: None,
    };
    let t = create_persisted_task("g".to_string(), "a".to_string(), "http://x/a".to_string(), ".".to_string(), &cfg, 9);
    assert_eq!(t.headers, vec!["X: 1".to_string(), "Y: 2".to_string()]);
    assert_eq!(t.user_agent, "UA");
    assert_eq!(t.referer, "");
    assert_eq!(t.added_at, 9);
    assert_eq!(t.completed_length, 0);
}

#[test]
fn worker_command_line() {
    let c = WorkerConfig {
        max_concurrent_downloads: 5,
        enable_dht: true,
        enable_peer_exchange: false,
        enable_seeding: false,
        seed_ratio: "1.0".to_string(),
        dht_listen_port: "6881".to_string(),
        listen_port: "6882".to_string(),
        global_max_upload_limit: String::new(),
        bt_trackers: "udp://t".to_string(),
        rpc_secret: Some("s3".to_string()),
        save_session_interval: 30,
    };
    let a = build_worker_args(&c, 6801, 42, None, Some("/c/aria2.session".to_string()));
    assert_eq!(a[2], "--rpc-listen-port=6801");
    assert_eq!(a[5], "--max-concurrent-downloads=5");
    assert_eq!(a[6], "--stop-with-process=42");
    assert_eq!(a[7], "--enable-dht=true");
    assert_eq!(a[10], "--seed-time=0");
    assert_eq!(a[13], "--bt-tracker=udp://t");
    assert_eq!(a[14], "--rpc-secret=s3");
    assert_eq!(a[17], "--save-session-interval=30");
    assert_eq!(a.len(), 18);
}

#[test]
fn ports_and_trust() {
    assert_eq!(next_port(6800, 6800), Some(6801));
    assert_eq!(next_port(6800, 6900), None);
    assert_eq!(next_port(65535, 65535), None);
    let mut cell = ConnectionParams::new();
    set_aria2_port(&mut cell, 6811);
    assert_eq!(get_aria2_port(&cell), 6811);
    assert!(cell.token_param().is_none());
    let h = Some("abc".to_string());
    assert!(use_custom_binary(true, true, true, &h, &h));
    assert!(!use_custom_binary(true, true, false, &h, &h));
    assert!(!use_custom_binary(true, true, true, &h, &Some("abd".to_string())));
}
