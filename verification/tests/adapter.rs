use gosh_fetch::options::{convert_options, parse_speed, ChecksumKind, Priority};
use gosh_fetch::text::is_float_str;
use gosh_fetch::resolve::{looks_like_html_download, resolve_probe, ProbeOutcome};
use gosh_fetch::error::{error_from_engine, EngineFailure, FetchError};
use gosh_fetch::status::{
    convert_status, gid_ok, settings_to_engine_config, EngineKind, EngineLifecycle, EngineMeta,
    EngineProgress, EngineStatus, EngineTorrentFile, EngineTorrentInfo,
};
use gosh_fetch::types::{DownloadOptions, DownloadState, DownloadType, Settings};

#[test]
fn test_parse_speed() {
    assert_eq!(parse_speed("1024"), Some(1024));
    assert_eq!(parse_speed("1K"), Some(1024));
    assert_eq!(parse_speed("1M"), Some(1024 * 1024));
    assert_eq!(parse_speed("2G"), Some(2 * 1024 * 1024 * 1024));
}

#[test]
fn test_html_download_detection() {
    assert!(looks_like_html_download(
        "https://example.com/download",
        Some("text/html; charset=utf-8"),
        None
    ));
    assert!(!looks_like_html_download(
        "https://example.com/file.html",
        Some("text/html; charset=utf-8"),
        None
    ));
    assert!(!looks_like_html_download(
        "https://example.com/file.bin",
        Some("application/octet-stream"),
        None
    ));
    assert!(!looks_like_html_download(
        "https://example.com/file.bin",
        Some("text/html; charset=utf-8"),
        Some("attachment; filename=\"file.bin\"")
    ));
}

#[test]
fn parse_speed_rejects_and_trims() {
    assert_eq!(parse_speed("abc"), None);
    assert_eq!(parse_speed(""), None);
    assert_eq!(parse_speed("  500k  "), Some(500 * 1024));
    assert_eq!(parse_speed("3m"), Some(3 * 1024 * 1024));
    assert_eq!(parse_speed("+7"), Some(7));
    // the scaled product must fit in 64 bits
    assert_eq!(parse_speed("18446744073709551615"), Some(u64::MAX));
    assert_eq!(parse_speed("18446744073709551615K"), None);
}

#[test]
fn html_detection_htm_suffix() {
    assert!(!looks_like_html_download(
        "https://example.com/INDEX.HTM",
        Some("TEXT/HTML"),
        None
    ));
    assert!(looks_like_html_download(
        "https://example.com/a",
        Some("text/html"),
        Some("inline")
    ));
}

#[test]
fn resolve_probe_rejects_html_page() {
    let outcome = ProbeOutcome {
        final_url: "https://example.com/login".to_string(),
        content_type: Some("text/html".to_string()),
        content_disposition: None,
    };
    match resolve_probe(outcome) {
        Err(FetchError::InvalidInput(msg)) => {
            assert_eq!(
                msg,
                "url: URL resolved to an HTML page. Try the direct download link."
            );
        }
        other => panic!("expected an invalid-input rejection, got {:?}", other),
    }

    let outcome = ProbeOutcome {
        final_url: "https://example.com/file.iso".to_string(),
        content_type: Some("application/octet-stream".to_string()),
        content_disposition: None,
    };
    assert_eq!(resolve_probe(outcome).unwrap(), "https://example.com/file.iso");
}

fn full_bag() -> DownloadOptions {
    DownloadOptions {
        dir: Some("/downloads".to_string()),
        out: Some("file.iso".to_string()),
        max_connection_per_server: Some("8".to_string()),
        user_agent: Some("agent/1.0".to_string()),
        referer: Some("https://ref".to_string()),
        header: Some(vec![
            "X-One: a".to_string(),
            "broken line".to_string(),
            " X-Two :  b ".to_string(),
        ]),
        cookies: Some("a=1; b=2; ;c=3".to_string()),
        checksum_type: Some("SHA256".to_string()),
        checksum_value: Some("deadbeef".to_string()),
        mirror_urls: Some(vec!["https://m1".to_string()]),
        priority: Some("HIGH".to_string()),
        select_file: Some("0,2,x,5".to_string()),
        seed_ratio: Some("1.5".to_string()),
        max_download_limit: Some("2M".to_string()),
        max_upload_limit: Some("junk".to_string()),
        sequential: Some(true),
    }
}

#[test]
fn convert_options_translates_every_field() {
    let opts = convert_options(full_bag());
    assert_eq!(opts.save_dir.as_deref(), Some("/downloads"));
    assert_eq!(opts.filename.as_deref(), Some("file.iso"));
    assert_eq!(opts.max_connections, Some(8));
    assert_eq!(opts.user_agent.as_deref(), Some("agent/1.0"));
    assert_eq!(opts.referer.as_deref(), Some("https://ref"));
    assert_eq!(
        opts.headers,
        vec![
            ("X-One".to_string(), "a".to_string()),
            ("X-Two".to_string(), "b".to_string()),
        ]
    );
    assert_eq!(
        opts.cookies,
        Some(vec!["a=1".to_string(), "b=2".to_string(), "c=3".to_string()])
    );
    let checksum = opts.checksum.expect("checksum should be recognised");
    assert_eq!(checksum.kind, ChecksumKind::Sha256);
    assert_eq!(checksum.value, "deadbeef");
    assert_eq!(opts.mirrors, vec!["https://m1".to_string()]);
    assert_eq!(opts.priority, Priority::High);
    assert_eq!(opts.max_download_speed, Some(2 * 1024 * 1024));
    assert_eq!(opts.max_upload_speed, None);
    assert_eq!(opts.seed_ratio.as_deref(), Some("1.5"));
    assert_eq!(opts.selected_files, Some(vec![0, 2, 5]));
    assert_eq!(opts.sequential, Some(true));
}

#[test]
fn convert_options_never_fails_on_junk() {
    let mut bag = full_bag();
    bag.max_connection_per_server = Some("not a number".to_string());
    bag.priority = Some("unknown".to_string());
    bag.checksum_type = Some("crc32".to_string());
    bag.max_download_limit = Some("??".to_string());
    bag.select_file = Some(",,".to_string());
    bag.seed_ratio = Some("zz".to_string());
    let opts = convert_options(bag);
    assert_eq!(opts.max_connections, None);
    assert_eq!(opts.priority, Priority::Normal);
    assert!(opts.checksum.is_none());
    assert_eq!(opts.max_download_speed, None);
    assert_eq!(opts.selected_files, Some(vec![]));
    // an unparseable seed ratio falls back to the engine default
    assert_eq!(opts.seed_ratio, None);

    let empty = convert_options(DownloadOptions::default());
    assert!(empty.save_dir.is_none());
    assert!(empty.headers.is_empty());
    assert!(empty.cookies.is_none());
    assert_eq!(empty.priority, Priority::Normal);
}

#[test]
fn convert_status_maps_engine_snapshot() {
    let status = EngineStatus {
        gid: "0f0e0d0c-0b0a-0908-0706-050403020100".to_string(),
        kind: EngineKind::Torrent,
        state: EngineLifecycle::Error {
            message: "tracker unreachable".to_string(),
        },
        progress: EngineProgress {
            total_size: None,
            completed_size: 42,
            download_speed: 7,
            upload_speed: 3,
            connections: 4,
            seeders: 2,
        },
        metadata: EngineMeta {
            name: "big.iso".to_string(),
            url: None,
            magnet_uri: None,
            info_hash: Some("abcd".to_string()),
            save_dir: "/dl".to_string(),
        },
        created_at: 1700000000,
        completed_at: None,
        torrent_info: Some(EngineTorrentInfo {
            files: vec![
                EngineTorrentFile {
                    index: 0,
                    path: "a".to_string(),
                    size: 1,
                    completed: 0,
                    selected: true,
                },
                EngineTorrentFile {
                    index: 1,
                    path: "b".to_string(),
                    size: 1,
                    completed: 0,
                    selected: false,
                },
                EngineTorrentFile {
                    index: 2,
                    path: "c".to_string(),
                    size: 1,
                    completed: 0,
                    selected: true,
                },
            ],
        }),
        peers: None,
    };
    let d = convert_status(status);
    assert_eq!(d.id, 0);
    assert_eq!(d.download_type, DownloadType::Torrent);
    assert_eq!(d.status, DownloadState::Error);
    assert_eq!(d.error_message.as_deref(), Some("tracker unreachable"));
    assert_eq!(d.total_size, 0);
    assert_eq!(d.completed_size, 42);
    assert_eq!(d.save_path, "/dl");
    assert_eq!(d.created_at, 1700000000);
    assert_eq!(d.selected_files, Some(vec![0, 2]));
}

#[test]
fn settings_feed_engine_config() {
    let mut settings = Settings::defaults("/home/u/Downloads".to_string());
    settings.download_speed_limit = 0;
    settings.upload_speed_limit = 9000;
    let config = settings_to_engine_config(&settings, Some("/data/engine.db".to_string()));
    assert_eq!(config.download_dir, "/home/u/Downloads");
    assert_eq!(config.global_download_limit, None);
    assert_eq!(config.global_upload_limit, Some(9000));
    assert_eq!(config.max_concurrent_downloads, 5);
    assert_eq!(config.user_agent, "gosh-dl/0.1.0");
    assert_eq!(config.seed_ratio, "1.0");
    assert_eq!(config.database_path.as_deref(), Some("/data/engine.db"));
}

#[test]
fn gid_validation() {
    assert!(gid_ok("0f0e0d0c-0b0a-0908-0706-050403020100"));
    assert!(gid_ok("0F0E0D0C0B0A09080706050403020100"));
    assert!(!gid_ok("not-a-gid"));
    assert!(!gid_ok(""));
    assert!(!gid_ok("0f0e0d0c-0b0a-0908-0706-05040302010g"));
}

#[test]
fn state_and_type_codes() {
    assert_eq!(DownloadState::parse("complete"), DownloadState::Complete);
    assert_eq!(DownloadState::parse("PAUSED"), DownloadState::Paused);
    assert_eq!(DownloadState::parse("bogus"), DownloadState::Waiting);
    assert_eq!(DownloadState::Error.as_str(), "error");
    assert_eq!(DownloadType::parse("magnet"), DownloadType::Magnet);
    assert_eq!(DownloadType::parse("bogus"), DownloadType::Http);
    assert_eq!(DownloadType::Torrent.as_str(), "torrent");
    // a single pause is valid from Active or Waiting; resume from Paused or Error
    assert!(DownloadState::Active.pausable());
    assert!(DownloadState::Waiting.pausable());
    assert!(!DownloadState::Paused.pausable());
    assert!(DownloadState::Paused.resumable());
    assert!(DownloadState::Error.resumable());
    assert!(!DownloadState::Complete.resumable());
    assert!(DownloadState::Paused.incomplete());
    assert!(!DownloadState::Removed.incomplete());
}

#[test]
fn error_messages_by_category() {
    let e = error_from_engine(EngineFailure::NotFound("gid 7".to_string()));
    assert_eq!(e.to_text(), "not found: gid 7");
    let e = error_from_engine(EngineFailure::InvalidInput {
        field: "url".to_string(),
        message: "empty".to_string(),
    });
    assert_eq!(e.to_text(), "invalid input: url: empty");
    let e = error_from_engine(EngineFailure::Network {
        message: "timed out".to_string(),
        retryable: true,
    });
    assert_eq!(e.to_text(), "network error: timed out");
    let e = error_from_engine(EngineFailure::Storage("disk full".to_string()));
    assert_eq!(e.to_text(), "database error: disk full");
    let e = error_from_engine(EngineFailure::Other("broken".to_string()));
    assert_eq!(e.to_text(), "download engine error: broken");
}

#[test]
fn seed_ratio_grammar() {
    assert!(is_float_str("1.5"));
    assert!(is_float_str("2"));
    assert!(is_float_str("-0.25"));
    assert!(is_float_str(".5"));
    assert!(is_float_str("5."));
    assert!(is_float_str("1e3"));
    assert!(is_float_str("1.5E-2"));
    assert!(is_float_str("+inf"));
    assert!(is_float_str("NaN"));
    assert!(!is_float_str(""));
    assert!(!is_float_str("zz"));
    assert!(!is_float_str("1.2.3"));
    assert!(!is_float_str("1e"));
    assert!(!is_float_str("e5"));
    assert!(!is_float_str("."));
    assert!(!is_float_str(" 1.5"));
    assert!(!is_float_str("+-3"));
    // the recognizer matches what the engine's parser accepts
    for t in ["1.5", "2", "-0.25", ".5", "5.", "1e3", "1.5E-2", "+inf", "NaN",
              "", "zz", "1.2.3", "1e", "e5", ".", " 1.5", "+-3", "infinity", "1_0"] {
        assert_eq!(is_float_str(t), t.parse::<f64>().is_ok(), "mismatch on {:?}", t);
    }
}
