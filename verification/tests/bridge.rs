use gosh_fetch::error::EngineFailure;
use gosh_fetch::service::{
    command_for_url, command_reply, event_reply, handle_ui_message, run_bridge, BridgeInput,
    CommandOutcome, EngineCommand, EngineEvent, UiMessage, UiState,
};
use gosh_fetch::status::{pausable_gids, resumable_gids, EngineGlobalStats, EngineKind, EngineLifecycle, EngineMeta, EngineProgress, EngineStatus};
use gosh_fetch::types::{Download, DownloadState, GlobalStats};

fn snapshot(gid: &str, state: EngineLifecycle) -> EngineStatus {
    EngineStatus {
        gid: gid.to_string(),
        kind: EngineKind::Http,
        state,
        progress: EngineProgress {
            total_size: Some(100),
            completed_size: 50,
            download_speed: 10,
            upload_speed: 0,
            connections: 1,
            seeders: 0,
        },
        metadata: EngineMeta {
            name: "f".to_string(),
            url: Some("https://example.com/f".to_string()),
            magnet_uri: None,
            info_hash: None,
            save_dir: "/dl".to_string(),
        },
        created_at: 1,
        completed_at: None,
        torrent_info: None,
        peers: None,
    }
}

fn download(gid: &str) -> Download {
    let mut d = Download::default();
    d.gid = gid.to_string();
    d
}

#[test]
fn command_replies() {
    let cmd = EngineCommand::AddDownload {
        url: "https://example.com/f".to_string(),
        options: None,
    };
    let reply = command_reply(
        &cmd,
        CommandOutcome::Accepted(Some(snapshot("g-1", EngineLifecycle::Queued))),
    );
    match reply {
        Some(UiMessage::DownloadAdded(d)) => {
            assert_eq!(d.gid, "g-1");
            assert_eq!(d.status, DownloadState::Waiting);
        }
        other => panic!("expected an added announcement, got {:?}", other),
    }

    let cmd = EngineCommand::Remove {
        gid: "g-1".to_string(),
        delete_files: false,
    };
    match command_reply(&cmd, CommandOutcome::Completed) {
        Some(UiMessage::DownloadRemoved(gid)) => assert_eq!(gid, "g-1"),
        other => panic!("expected a removal echo, got {:?}", other),
    }

    // a failed handler becomes an Error message, never a crash
    let cmd = EngineCommand::Pause("g-9".to_string());
    match command_reply(
        &cmd,
        CommandOutcome::Rejected(EngineFailure::NotFound("g-9".to_string())),
    ) {
        Some(UiMessage::Error(msg)) => assert_eq!(msg, "not found: g-9"),
        other => panic!("expected an error message, got {:?}", other),
    }

    // a control command that succeeded answers nothing
    let cmd = EngineCommand::Pause("g-1".to_string());
    assert!(command_reply(&cmd, CommandOutcome::Completed).is_none());
}

#[test]
fn event_replies() {
    let ev = EngineEvent::Completed {
        gid: "g-1".to_string(),
    };
    match event_reply(ev, Some(snapshot("g-1", EngineLifecycle::Completed))) {
        Some(UiMessage::DownloadCompleted(d)) => {
            assert_eq!(d.status, DownloadState::Complete)
        }
        other => panic!("expected a completion, got {:?}", other),
    }

    let ev = EngineEvent::Failed {
        gid: "g-2".to_string(),
        error: "checksum mismatch".to_string(),
    };
    match event_reply(ev, None) {
        Some(UiMessage::DownloadFailed(gid, msg)) => {
            assert_eq!(gid, "g-2");
            assert_eq!(msg, "checksum mismatch");
        }
        other => panic!("expected a failure report, got {:?}", other),
    }

    let ev = EngineEvent::Removed {
        gid: "g-3".to_string(),
    };
    assert!(event_reply(ev, None).is_none());
}

#[test]
fn bridge_keeps_command_order() {
    let c1 = BridgeInput::Command(
        EngineCommand::Remove {
            gid: "g-1".to_string(),
            delete_files: false,
        },
        CommandOutcome::Completed,
    );
    let c2 = BridgeInput::Command(
        EngineCommand::Remove {
            gid: "g-2".to_string(),
            delete_files: true,
        },
        CommandOutcome::Completed,
    );
    let quiet = BridgeInput::Command(
        EngineCommand::Pause("g-3".to_string()),
        CommandOutcome::Completed,
    );
    let out = run_bridge(vec![c1, quiet, c2]);
    let gids: Vec<String> = out
        .into_iter()
        .map(|m| match m {
            UiMessage::DownloadRemoved(g) => g,
            other => panic!("unexpected message {:?}", other),
        })
        .collect();
    assert_eq!(gids, vec!["g-1".to_string(), "g-2".to_string()]);
}

#[test]
fn bridge_stops_at_shutdown() {
    let before = BridgeInput::Command(
        EngineCommand::Remove {
            gid: "g-1".to_string(),
            delete_files: false,
        },
        CommandOutcome::Completed,
    );
    let stop = BridgeInput::Command(EngineCommand::Shutdown, CommandOutcome::Completed);
    let after = BridgeInput::Command(
        EngineCommand::Remove {
            gid: "g-2".to_string(),
            delete_files: false,
        },
        CommandOutcome::Completed,
    );
    let out = run_bridge(vec![before, stop, after]);
    assert_eq!(out.len(), 1);
}

#[test]
fn url_dispatch() {
    match command_for_url("magnet:?xt=urn:btih:ab".to_string(), None) {
        EngineCommand::AddMagnet { uri, .. } => assert_eq!(uri, "magnet:?xt=urn:btih:ab"),
        other => panic!("expected a magnet command, got {:?}", other),
    }
    match command_for_url("https://example.com/f".to_string(), None) {
        EngineCommand::AddDownload { url, .. } => assert_eq!(url, "https://example.com/f"),
        other => panic!("expected an http command, got {:?}", other),
    }
}

#[test]
fn ui_state_follows_messages() {
    let mut state = UiState::new();
    handle_ui_message(&mut state, UiMessage::DownloadAdded(download("g-1")));
    handle_ui_message(&mut state, UiMessage::DownloadAdded(download("g-2")));
    assert_eq!(state.downloads.len(), 2);

    let mut updated = download("g-1");
    updated.completed_size = 99;
    handle_ui_message(
        &mut state,
        UiMessage::DownloadUpdated("g-1".to_string(), updated),
    );
    assert_eq!(state.downloads.len(), 2);
    assert_eq!(state.downloads[0].completed_size, 99);

    handle_ui_message(&mut state, UiMessage::DownloadRemoved("g-2".to_string()));
    assert_eq!(state.downloads.len(), 1);

    let mut done = download("g-1");
    done.status = DownloadState::Complete;
    handle_ui_message(&mut state, UiMessage::DownloadCompleted(done));
    assert_eq!(state.downloads.len(), 0);
    assert_eq!(state.completed.len(), 1);
    assert_eq!(state.completed[0].gid, "g-1");

    let stats = GlobalStats {
        download_speed: 5,
        upload_speed: 6,
        num_active: 1,
        num_waiting: 2,
        num_stopped: 3,
    };
    handle_ui_message(&mut state, UiMessage::StatsUpdated(stats));
    assert_eq!(state.stats.download_speed, 5);

    handle_ui_message(
        &mut state,
        UiMessage::DownloadsList(vec![download("g-7"), download("g-8")]),
    );
    assert_eq!(state.downloads.len(), 2);

    // unknown-transfer failures and plain errors change nothing
    handle_ui_message(
        &mut state,
        UiMessage::DownloadFailed("g-7".to_string(), "x".to_string()),
    );
    handle_ui_message(&mut state, UiMessage::Error("x".to_string()));
    handle_ui_message(&mut state, UiMessage::EngineReady);
    assert_eq!(state.downloads.len(), 2);
}

#[test]
fn pause_and_resume_targets() {
    let statuses = vec![
        snapshot("g-active", EngineLifecycle::Downloading),
        snapshot("g-queued", EngineLifecycle::Queued),
        snapshot("g-paused", EngineLifecycle::Paused),
        snapshot(
            "g-failed",
            EngineLifecycle::Error {
                message: "x".to_string(),
            },
        ),
        snapshot("g-done", EngineLifecycle::Completed),
    ];
    // the bulk pause targets only currently active transfers
    assert_eq!(pausable_gids(&statuses), vec!["g-active"]);
    assert_eq!(resumable_gids(&statuses), vec!["g-paused", "g-failed"]);
}

#[test]
fn listing_and_stats_replies() {
    let cmd = EngineCommand::RefreshDownloads;
    let listing = vec![
        snapshot("g-1", EngineLifecycle::Downloading),
        snapshot("g-2", EngineLifecycle::Paused),
    ];
    match command_reply(&cmd, CommandOutcome::Listing(listing)) {
        Some(UiMessage::DownloadsList(list)) => {
            assert_eq!(list.len(), 2);
            assert_eq!(list[0].gid, "g-1");
            assert_eq!(list[0].status, DownloadState::Active);
            assert_eq!(list[1].gid, "g-2");
            assert_eq!(list[1].status, DownloadState::Paused);
        }
        other => panic!("expected a listing, got {:?}", other),
    }

    let cmd = EngineCommand::RefreshStats;
    let stats = EngineGlobalStats {
        download_speed: 11,
        upload_speed: 22,
        num_active: 1,
        num_waiting: 2,
        num_stopped: 3,
    };
    match command_reply(&cmd, CommandOutcome::Stats(stats)) {
        Some(UiMessage::StatsUpdated(g)) => {
            assert_eq!(g.download_speed, 11);
            assert_eq!(g.upload_speed, 22);
            assert_eq!(g.num_active, 1);
            assert_eq!(g.num_waiting, 2);
            assert_eq!(g.num_stopped, 3);
        }
        other => panic!("expected counters, got {:?}", other),
    }
}
