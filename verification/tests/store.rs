use gosh_fetch::service::{restoration_commands, EngineCommand};
use gosh_fetch::store::{Database, DownloadsDb, SettingsDb, TrackersDb};
use gosh_fetch::types::{Download, DownloadState, DownloadType};

fn record(gid: &str, name: &str, kind: DownloadType, state: DownloadState, created: i64) -> Download {
    let mut d = Download::default();
    d.gid = gid.to_string();
    d.name = name.to_string();
    d.download_type = kind;
    d.status = state;
    d.created_at = created;
    d
}

#[test]
fn save_and_read_back_round_trip() {
    let mut db = Database::open_in_memory().unwrap();
    let mut d = record("g-1", "big.iso", DownloadType::Http, DownloadState::Active, 100);
    d.url = Some("https://example.com/big.iso".to_string());
    d.total_size = 123456789;
    d.completed_size = 1000;
    d.download_speed = 42;
    d.upload_speed = 7;
    d.save_path = "/downloads".to_string();
    d.completed_at = None;
    d.error_message = Some("retried once".to_string());
    d.selected_files = Some(vec![0, 2, 17]);
    d.connections = 0;
    d.seeders = 0;

    DownloadsDb::save(&mut db, &d).unwrap();
    let back = DownloadsDb::get_by_gid(&db, "g-1").unwrap().expect("row should exist");
    assert_eq!(back.gid, d.gid);
    assert_eq!(back.name, d.name);
    assert_eq!(back.url, d.url);
    assert_eq!(back.magnet_uri, None);
    assert_eq!(back.info_hash, None);
    assert_eq!(back.download_type, d.download_type);
    assert_eq!(back.status, d.status);
    assert_eq!(back.total_size, d.total_size);
    assert_eq!(back.completed_size, d.completed_size);
    assert_eq!(back.download_speed, d.download_speed);
    assert_eq!(back.upload_speed, d.upload_speed);
    assert_eq!(back.save_path, d.save_path);
    assert_eq!(back.created_at, d.created_at);
    assert_eq!(back.completed_at, d.completed_at);
    assert_eq!(back.error_message, d.error_message);
    assert_eq!(back.connections, 0);
    assert_eq!(back.seeders, 0);
    assert_eq!(back.selected_files, Some(vec![0, 2, 17]));

    assert!(DownloadsDb::get_by_gid(&db, "g-2").unwrap().is_none());
}

#[test]
fn save_twice_is_an_upsert() {
    let mut db = Database::open_in_memory().unwrap();
    let mut d = record("g-1", "file", DownloadType::Http, DownloadState::Active, 5);
    d.completed_size = 10;
    DownloadsDb::save(&mut db, &d).unwrap();
    d.completed_size = 999;
    d.status = DownloadState::Paused;
    DownloadsDb::save(&mut db, &d).unwrap();

    let rows = DownloadsDb::get_incomplete(&db).unwrap();
    assert_eq!(rows.len(), 1);
    assert_eq!(rows[0].completed_size, 999);
    assert_eq!(rows[0].status, DownloadState::Paused);
}

#[test]
fn restoration_scenario() {
    let mut db = Database::open_in_memory().unwrap();
    let mut http = record("g-http", "h", DownloadType::Http, DownloadState::Waiting, 10);
    http.url = Some("https://example.com/a".to_string());
    let mut magnet = record("g-mag", "m", DownloadType::Magnet, DownloadState::Paused, 30);
    magnet.magnet_uri = Some("magnet:?xt=urn:btih:abcd".to_string());
    let torrent = record("g-tor", "t", DownloadType::Torrent, DownloadState::Active, 20);
    let mut done = record("g-done", "d", DownloadType::Http, DownloadState::Complete, 5);
    done.completed_at = Some(50);

    DownloadsDb::save(&mut db, &http).unwrap();
    DownloadsDb::save(&mut db, &magnet).unwrap();
    DownloadsDb::save(&mut db, &torrent).unwrap();
    DownloadsDb::save(&mut db, &done).unwrap();

    // incomplete rows come back newest creation first; the complete row stays out
    let incomplete = DownloadsDb::get_incomplete(&db).unwrap();
    let gids: Vec<&str> = incomplete.iter().map(|d| d.gid.as_str()).collect();
    assert_eq!(gids, vec!["g-mag", "g-tor", "g-http"]);

    // only the HTTP and magnet records are re-submitted, in that order;
    // the torrent is intentionally skipped
    let commands = restoration_commands(&incomplete);
    assert_eq!(commands.len(), 2);
    match &commands[0] {
        EngineCommand::AddMagnet { uri, options } => {
            assert_eq!(uri, "magnet:?xt=urn:btih:abcd");
            assert!(options.is_none());
        }
        other => panic!("expected a magnet re-submission, got {:?}", other),
    }
    match &commands[1] {
        EngineCommand::AddDownload { url, options } => {
            assert_eq!(url, "https://example.com/a");
            assert!(options.is_none());
        }
        other => panic!("expected an HTTP re-submission, got {:?}", other),
    }

    // history shows exactly the complete row
    let completed = DownloadsDb::get_completed(&db, 100).unwrap();
    assert_eq!(completed.len(), 1);
    assert_eq!(completed[0].gid, "g-done");
    assert_eq!(DownloadsDb::count_completed(&db).unwrap(), 1);
}

#[test]
fn completed_ordering_and_limit() {
    let mut db = Database::open_in_memory().unwrap();
    for (gid, at) in [("a", 10i64), ("b", 30), ("c", 20)] {
        let mut d = record(gid, gid, DownloadType::Http, DownloadState::Complete, 1);
        d.completed_at = Some(at);
        DownloadsDb::save(&mut db, &d).unwrap();
    }
    let all = DownloadsDb::get_completed(&db, -1).unwrap();
    let gids: Vec<&str> = all.iter().map(|d| d.gid.as_str()).collect();
    assert_eq!(gids, vec!["b", "c", "a"]);
    let top = DownloadsDb::get_completed(&db, 2).unwrap();
    let top_gids: Vec<&str> = top.iter().map(|d| d.gid.as_str()).collect();
    // the bound keeps the newest completions
    assert_eq!(top_gids, vec!["b", "c"]);
}

#[test]
fn status_updates_and_deletion() {
    let mut db = Database::open_in_memory().unwrap();
    let d = record("g-1", "f", DownloadType::Http, DownloadState::Active, 1);
    DownloadsDb::save(&mut db, &d).unwrap();

    DownloadsDb::update_status(&mut db, "g-1", DownloadState::Paused).unwrap();
    let back = DownloadsDb::get_by_gid(&db, "g-1").unwrap().unwrap();
    assert_eq!(back.status, DownloadState::Paused);

    DownloadsDb::mark_completed(&mut db, "g-1", 777).unwrap();
    let back = DownloadsDb::get_by_gid(&db, "g-1").unwrap().unwrap();
    assert_eq!(back.status, DownloadState::Complete);
    assert_eq!(back.completed_at, Some(777));

    // updating an unknown gid succeeds and changes nothing
    DownloadsDb::update_status(&mut db, "missing", DownloadState::Error).unwrap();
    assert!(DownloadsDb::get_by_gid(&db, "missing").unwrap().is_none());

    DownloadsDb::delete(&mut db, "g-1").unwrap();
    assert!(DownloadsDb::get_by_gid(&db, "g-1").unwrap().is_none());
}

#[test]
fn clear_history_removes_only_complete_rows() {
    let mut db = Database::open_in_memory().unwrap();
    let live = record("live", "l", DownloadType::Http, DownloadState::Active, 1);
    let mut done = record("done", "d", DownloadType::Http, DownloadState::Complete, 2);
    done.completed_at = Some(9);
    DownloadsDb::save(&mut db, &live).unwrap();
    DownloadsDb::save(&mut db, &done).unwrap();

    DownloadsDb::clear_history(&mut db).unwrap();
    assert!(DownloadsDb::get_by_gid(&db, "done").unwrap().is_none());
    assert!(DownloadsDb::get_by_gid(&db, "live").unwrap().is_some());
    assert_eq!(DownloadsDb::count_completed(&db).unwrap(), 0);
}

#[test]
fn settings_defaults_and_round_trip() {
    let mut db = Database::open_in_memory().unwrap();
    let s = SettingsDb::load(&db, "/dl".to_string(), None).unwrap();
    assert_eq!(s.download_path, "/dl");
    assert_eq!(s.max_concurrent_downloads, 5);
    assert_eq!(s.max_connections_per_server, 16);
    assert_eq!(s.split_count, 16);
    assert_eq!(s.download_speed_limit, 0);
    assert_eq!(s.user_agent, "gosh-dl/0.1.0");
    assert!(s.enable_notifications);
    assert_eq!(s.bt_max_peers, 55);
    assert_eq!(s.bt_seed_ratio, "1.0");
    assert!(!s.delete_files_on_remove);

    let mut edited = s.clone();
    edited.max_concurrent_downloads = 9;
    edited.download_speed_limit = 4096;
    edited.enable_notifications = false;
    edited.user_agent = "curl/8.4.0".to_string();
    SettingsDb::save(&mut db, &edited).unwrap();
    let back = SettingsDb::load(&db, "/other".to_string(), None).unwrap();
    assert_eq!(back.max_concurrent_downloads, 9);
    assert_eq!(back.download_speed_limit, 4096);
    assert!(!back.enable_notifications);
    assert_eq!(back.user_agent, "curl/8.4.0");
    // a stored path wins over the caller's default
    assert_eq!(back.download_path, "/dl");
}

#[test]
fn settings_fall_back_on_unparseable_values() {
    let mut db = Database::open_in_memory().unwrap();
    SettingsDb::set(&mut db, "max_concurrent_downloads", "lots").unwrap();
    SettingsDb::set(&mut db, "bt_max_peers", "999999999999999999999").unwrap();
    SettingsDb::set(&mut db, "enable_notifications", "yes").unwrap();
    let s = SettingsDb::load(&db, "/dl".to_string(), None).unwrap();
    assert_eq!(s.max_concurrent_downloads, 5);
    assert_eq!(s.bt_max_peers, 55);
    assert!(!s.enable_notifications);

    assert_eq!(
        SettingsDb::get(&db, "enable_notifications").unwrap().as_deref(),
        Some("yes")
    );
    assert_eq!(SettingsDb::get(&db, "no_such_key").unwrap(), None);
}

#[test]
fn settings_seed_ratio_fallback() {
    let mut db = Database::open_in_memory().unwrap();
    SettingsDb::set(&mut db, "bt_seed_ratio", "zz").unwrap();
    let s = SettingsDb::load(&db, "/dl".to_string(), None).unwrap();
    // an unparseable stored ratio takes the typed default
    assert_eq!(s.bt_seed_ratio, "1.0");

    SettingsDb::set(&mut db, "bt_seed_ratio", "2.5").unwrap();
    let s = SettingsDb::load(&db, "/dl".to_string(), None).unwrap();
    assert_eq!(s.bt_seed_ratio, "2.5");
}

#[test]
fn settings_home_expansion() {
    let mut db = Database::open_in_memory().unwrap();
    SettingsDb::set(&mut db, "download_path", "~/Downloads").unwrap();
    let s = SettingsDb::load(&db, "/dl".to_string(), Some("/home/u")).unwrap();
    assert_eq!(s.download_path, "/home/u/Downloads");

    SettingsDb::set(&mut db, "download_path", "~").unwrap();
    let s = SettingsDb::load(&db, "/dl".to_string(), Some("/home/u")).unwrap();
    assert_eq!(s.download_path, "/home/u");

    // without a home directory the raw value is kept
    let s = SettingsDb::load(&db, "/dl".to_string(), None).unwrap();
    assert_eq!(s.download_path, "~");
}

#[test]
fn tracker_replacement_is_complete() {
    let mut db = Database::open_in_memory().unwrap();
    assert_eq!(TrackersDb::get_enabled(&db).unwrap(), Vec::<String>::new());
    assert_eq!(TrackersDb::get_last_updated(&db).unwrap(), None);

    let first = vec![
        "udp://one/announce".to_string(),
        "udp://two/announce".to_string(),
        "udp://three/announce".to_string(),
    ];
    TrackersDb::replace_all(&mut db, &first).unwrap();
    assert_eq!(TrackersDb::get_enabled(&db).unwrap(), first);
    assert!(TrackersDb::get_last_updated(&db).unwrap().is_some());

    // a second replacement leaves no trace of the first list
    let second = vec!["udp://four/announce".to_string()];
    TrackersDb::replace_all(&mut db, &second).unwrap();
    assert_eq!(TrackersDb::get_enabled(&db).unwrap(), second);
}
