//! Status translation: from the engine's snapshot shapes, flattened to plain
//! values at the boundary, to the record shape the user interfaces consume.

use vstd::prelude::*;
use vstd::string::StrSliceExecFns;
use crate::types::{
    Download, DownloadState, DownloadType, GlobalStats, PeerInfo, Settings, TorrentFileInfo,
};
use crate::text::{is_digit, lower_char};

verus! {

/// Kind of transfer as the engine distinguishes them.
#[derive(Debug, Clone, Copy, PartialEq, Eq, Structural)]
pub enum EngineKind {
    Http,
    Torrent,
    Magnet,
}

/// The engine's own lifecycle states.
#[derive(Debug, Clone)]
pub enum EngineLifecycle {
    Queued,
    Connecting,
    Downloading,
    Seeding,
    Paused,
    Completed,
    Error { message: String },
}

/// Progress counters of one transfer.
#[derive(Debug, Clone)]
pub struct EngineProgress {
    pub total_size: Option<u64>,
    pub completed_size: u64,
    pub download_speed: u64,
    pub upload_speed: u64,
    pub connections: u32,
    pub seeders: u32,
}

/// Identity and placement of one transfer.
#[derive(Debug, Clone)]
pub struct EngineMeta {
    pub name: String,
    pub url: Option<String>,
    pub magnet_uri: Option<String>,
    pub info_hash: Option<String>,
    pub save_dir: String,
}

/// One file of a torrent as the engine reports it.
#[derive(Debug, Clone)]
pub struct EngineTorrentFile {
    pub index: usize,
    pub path: String,
    pub size: u64,
    pub completed: u64,
    pub selected: bool,
}

/// Torrent-specific detail of a snapshot.
#[derive(Debug, Clone)]
pub struct EngineTorrentInfo {
    pub files: Vec<EngineTorrentFile>,
}

/// One peer as the engine reports it.
#[derive(Debug, Clone)]
pub struct EnginePeer {
    pub ip: String,
    pub port: u16,
    pub client: Option<String>,
    pub download_speed: u64,
    pub upload_speed: u64,
}

/// A full status snapshot of one transfer, with the engine's identifier
/// already rendered as its gid string and timestamps as epoch seconds.
#[derive(Debug, Clone)]
pub struct EngineStatus {
    pub gid: String,
    pub kind: EngineKind,
    pub state: EngineLifecycle,
    pub progress: EngineProgress,
    pub metadata: EngineMeta,
    pub created_at: i64,
    pub completed_at: Option<i64>,
    pub torrent_info: Option<EngineTorrentInfo>,
    pub peers: Option<Vec<EnginePeer>>,
}

/// Engine configuration as the adapter fills it from settings.
#[derive(Debug, Clone)]
pub struct EngineConfig {
    pub download_dir: String,
    pub max_concurrent_downloads: u32,
    pub max_connections_per_download: u32,
    pub global_download_limit: Option<u64>,
    pub global_upload_limit: Option<u64>,
    pub user_agent: String,
    pub enable_dht: bool,
    pub enable_pex: bool,
    pub enable_lpd: bool,
    pub max_peers: u32,
    pub seed_ratio: String,
    pub database_path: Option<String>,
}

/// Session-wide counters as the engine reports them.
#[derive(Debug, Clone)]
pub struct EngineGlobalStats {
    pub download_speed: u64,
    pub upload_speed: u64,
    pub num_active: usize,
    pub num_waiting: usize,
    pub num_stopped: usize,
}

// ---------------------------------------------------------------------------
// mappings
// ---------------------------------------------------------------------------

pub open spec fn kind_to_type(k: EngineKind) -> DownloadType {
    match k {
        EngineKind::Http => DownloadType::Http,
        EngineKind::Torrent => DownloadType::Torrent,
        EngineKind::Magnet => DownloadType::Magnet,
    }
}

/// How the engine's lifecycle collapses onto the UI-facing one: everything
/// the engine is actively working on is Active.
pub open spec fn lifecycle_to_state(l: EngineLifecycle) -> DownloadState {
    match l {
        EngineLifecycle::Queued => DownloadState::Waiting,
        EngineLifecycle::Connecting => DownloadState::Active,
        EngineLifecycle::Downloading => DownloadState::Active,
        EngineLifecycle::Seeding => DownloadState::Active,
        EngineLifecycle::Paused => DownloadState::Paused,
        EngineLifecycle::Completed => DownloadState::Complete,
        EngineLifecycle::Error { .. } => DownloadState::Error,
    }
}

pub open spec fn lifecycle_error(l: EngineLifecycle) -> Option<String> {
    match l {
        EngineLifecycle::Error { message } => Some(message),
        _ => None,
    }
}

/// Indices of the files marked selected, in file order.
pub open spec fn selected_of(files: Seq<EngineTorrentFile>) -> Seq<usize>
    decreases files.len(),
{
    if files.len() == 0 {
        Seq::empty()
    } else if files.last().selected {
        selected_of(files.drop_last()).push(files.last().index)
    } else {
        selected_of(files.drop_last())
    }
}

fn selected_indices_of(files: &Vec<EngineTorrentFile>) -> (r: Vec<usize>)
    ensures
        r@ == selected_of(files@),
{
    let mut out: Vec<usize> = Vec::new();
    proof {
        assert(out@ =~= selected_of(files@.take(0)));
    }
    let mut i: usize = 0;
    while i < files.len()
        invariant
            0 <= i <= files@.len(),
            out@ == selected_of(files@.take(i as int)),
        decreases files@.len() - i,
    {
        proof {
            assert(files@.take(i as int + 1).drop_last() =~= files@.take(i as int));
            assert(files@.take(i as int + 1).last() == files@[i as int]);
        }
        if files[i].selected {
            out.push(files[i].index);
        }
        i += 1;
    }
    proof {
        assert(files@.take(files@.len() as int) =~= files@);
    }
    out
}

/// How a converted record relates to the snapshot it came from: kind and
/// lifecycle mapped, a terminal error kept as a plain message, an unknown
/// total size read as zero, a torrent's selection flattened to an index
/// list, and a zero row id (that is the store's to assign).
pub open spec fn is_converted(r: Download, status: EngineStatus) -> bool {
    &&& r.id == 0
    &&& r.gid == status.gid
    &&& r.name == status.metadata.name
    &&& r.url == status.metadata.url
    &&& r.magnet_uri == status.metadata.magnet_uri
    &&& r.info_hash == status.metadata.info_hash
    &&& r.download_type == kind_to_type(status.kind)
    &&& r.status == lifecycle_to_state(status.state)
    &&& r.error_message == lifecycle_error(status.state)
    &&& r.total_size == (match status.progress.total_size {
        Some(t) => t,
        None => 0u64,
    })
    &&& r.completed_size == status.progress.completed_size
    &&& r.download_speed == status.progress.download_speed
    &&& r.upload_speed == status.progress.upload_speed
    &&& r.save_path == status.metadata.save_dir
    &&& r.created_at == status.created_at
    &&& r.completed_at == status.completed_at
    &&& r.connections == status.progress.connections
    &&& r.seeders == status.progress.seeders
    &&& (match status.torrent_info {
        Some(info) => r.selected_files is Some && r.selected_files->Some_0@ == selected_of(
            info.files@,
        ),
        None => r.selected_files is None,
    })
}

/// Flatten an engine snapshot into the UI-facing record.
pub fn convert_status(status: EngineStatus) -> (r: Download)
    ensures
        is_converted(r, status),
        r.id == 0,
        r.gid == status.gid,
        r.name == status.metadata.name,
        r.url == status.metadata.url,
        r.magnet_uri == status.metadata.magnet_uri,
        r.info_hash == status.metadata.info_hash,
        r.download_type == kind_to_type(status.kind),
        r.status == lifecycle_to_state(status.state),
        r.error_message == lifecycle_error(status.state),
        r.total_size == (match status.progress.total_size {
            Some(t) => t,
            None => 0u64,
        }),
        r.completed_size == status.progress.completed_size,
        r.download_speed == status.progress.download_speed,
        r.upload_speed == status.progress.upload_speed,
        r.save_path == status.metadata.save_dir,
        r.created_at == status.created_at,
        r.completed_at == status.completed_at,
        r.connections == status.progress.connections,
        r.seeders == status.progress.seeders,
        (match status.torrent_info {
            Some(info) => r.selected_files is Some && r.selected_files->Some_0@ == selected_of(
                info.files@,
            ),
            None => r.selected_files is None,
        }),
{
    let error_message = match &status.state {
        EngineLifecycle::Error { message } => Some(message.clone()),
        _ => None,
    };
    proof {
        assert(error_message == lifecycle_error(status.state));
    }
    let state = match &status.state {
        EngineLifecycle::Queued => DownloadState::Waiting,
        EngineLifecycle::Connecting => DownloadState::Active,
        EngineLifecycle::Downloading => DownloadState::Active,
        EngineLifecycle::Seeding => DownloadState::Active,
        EngineLifecycle::Paused => DownloadState::Paused,
        EngineLifecycle::Completed => DownloadState::Complete,
        EngineLifecycle::Error { .. } => DownloadState::Error,
    };
    let download_type = match status.kind {
        EngineKind::Http => DownloadType::Http,
        EngineKind::Torrent => DownloadType::Torrent,
        EngineKind::Magnet => DownloadType::Magnet,
    };
    let selected_files = match &status.torrent_info {
        Some(info) => Some(selected_indices_of(&info.files)),
        None => None,
    };
    let total_size = match status.progress.total_size {
        Some(t) => t,
        None => 0,
    };
    Download {
        id: 0,
        gid: status.gid,
        name: status.metadata.name,
        url: status.metadata.url,
        magnet_uri: status.metadata.magnet_uri,
        info_hash: status.metadata.info_hash,
        download_type,
        status: state,
        total_size,
        completed_size: status.progress.completed_size,
        download_speed: status.progress.download_speed,
        upload_speed: status.progress.upload_speed,
        save_path: status.metadata.save_dir,
        created_at: status.created_at,
        completed_at: status.completed_at,
        error_message,
        connections: status.progress.connections,
        seeders: status.progress.seeders,
        selected_files,
    }
}

/// Map every snapshot of a listing, keeping the order the engine gave.
pub fn convert_statuses(statuses: Vec<EngineStatus>) -> (r: Vec<Download>)
    ensures
        r@.len() == statuses@.len(),
        forall|i: int| 0 <= i < statuses@.len() ==> is_converted(#[trigger] r@[i], statuses@[i]),
{
    let ghost orig = statuses@;
    let mut rest = statuses;
    let mut out: Vec<Download> = Vec::new();
    while rest.len() > 0
        invariant
            out@.len() + rest@.len() == orig.len(),
            rest@ =~= orig.subrange(out@.len() as int, orig.len() as int),
            forall|j: int| 0 <= j < out@.len() ==> is_converted(#[trigger] out@[j], orig[j]),
        decreases rest@.len(),
    {
        let s = rest.remove(0);
        proof {
            assert(s == orig[out@.len() as int]);
        }
        out.push(convert_status(s));
        proof {
            assert(rest@ =~= orig.subrange(out@.len() as int, orig.len() as int));
        }
    }
    out
}

/// Per-file display rows of a torrent snapshot.
pub fn torrent_file_infos(files: &Vec<EngineTorrentFile>) -> (r: Vec<TorrentFileInfo>)
    ensures
        r@.len() == files@.len(),
        forall|i: int|
            0 <= i < files@.len() ==> (#[trigger] r@[i]).path == files@[i].path && r@[i].size
                == files@[i].size && r@[i].completed == files@[i].completed && r@[i].selected
                == files@[i].selected,
{
    let mut out: Vec<TorrentFileInfo> = Vec::new();
    let mut i: usize = 0;
    while i < files.len()
        invariant
            0 <= i <= files@.len(),
            out@.len() == i,
            forall|j: int|
                0 <= j < i ==> (#[trigger] out@[j]).path == files@[j].path && out@[j].size
                    == files@[j].size && out@[j].completed == files@[j].completed
                    && out@[j].selected == files@[j].selected,
        decreases files@.len() - i,
    {
        let f = &files[i];
        out.push(
            TorrentFileInfo {
                path: f.path.clone(),
                size: f.size,
                completed: f.completed,
                selected: f.selected,
            },
        );
        i += 1;
    }
    out
}

/// Peer display rows of a torrent snapshot.
pub fn peer_infos(peers: &Vec<EnginePeer>) -> (r: Vec<PeerInfo>)
    ensures
        r@.len() == peers@.len(),
        forall|i: int|
            0 <= i < peers@.len() ==> (#[trigger] r@[i]).ip == peers@[i].ip && r@[i].port
                == peers@[i].port && r@[i].client == peers@[i].client && r@[i].download_speed
                == peers@[i].download_speed && r@[i].upload_speed == peers@[i].upload_speed,
{
    let mut out: Vec<PeerInfo> = Vec::new();
    let mut i: usize = 0;
    while i < peers.len()
        invariant
            0 <= i <= peers@.len(),
            out@.len() == i,
            forall|j: int|
                0 <= j < i ==> (#[trigger] out@[j]).ip == peers@[j].ip && out@[j].port
                    == peers@[j].port && out@[j].client == peers@[j].client
                    && out@[j].download_speed == peers@[j].download_speed && out@[j].upload_speed
                    == peers@[j].upload_speed,
        decreases peers@.len() - i,
    {
        let p = &peers[i];
        out.push(
            PeerInfo {
                ip: p.ip.clone(),
                port: p.port,
                client: p.client.clone(),
                download_speed: p.download_speed,
                upload_speed: p.upload_speed,
            },
        );
        i += 1;
    }
    out
}

/// Gids of the snapshots whose UI-facing state passes a filter, in order.
pub open spec fn gids_where(sts: Seq<EngineStatus>, pass: spec_fn(DownloadState) -> bool) -> Seq<
    Seq<char>,
>
    decreases sts.len(),
{
    if sts.len() == 0 {
        Seq::empty()
    } else if pass(lifecycle_to_state(sts.last().state)) {
        gids_where(sts.drop_last(), pass).push(sts.last().gid@)
    } else {
        gids_where(sts.drop_last(), pass)
    }
}

/// The transfers Resume All targets: exactly those stopped without
/// finishing — paused, or failed and so resumable.
pub fn resumable_gids(statuses: &Vec<EngineStatus>) -> (r: Vec<String>)
    ensures
        r@.map_values(|g: String| g@) == gids_where(
            statuses@,
            |s: DownloadState| crate::types::is_resumable(s),
        ),
{
    let ghost pass = |s: DownloadState| crate::types::is_resumable(s);
    let mut out: Vec<String> = Vec::new();
    proof {
        assert(out@.map_values(|g: String| g@) =~= gids_where(statuses@.take(0), pass));
    }
    let mut i: usize = 0;
    while i < statuses.len()
        invariant
            0 <= i <= statuses@.len(),
            pass == (|s: DownloadState| crate::types::is_resumable(s)),
            out@.map_values(|g: String| g@) == gids_where(statuses@.take(i as int), pass),
        decreases statuses@.len() - i,
    {
        proof {
            assert(statuses@.take(i as int + 1).drop_last() =~= statuses@.take(i as int));
            assert(statuses@.take(i as int + 1).last() == statuses@[i as int]);
        }
        let state = match &statuses[i].state {
            EngineLifecycle::Queued => DownloadState::Waiting,
            EngineLifecycle::Connecting => DownloadState::Active,
            EngineLifecycle::Downloading => DownloadState::Active,
            EngineLifecycle::Seeding => DownloadState::Active,
            EngineLifecycle::Paused => DownloadState::Paused,
            EngineLifecycle::Completed => DownloadState::Complete,
            EngineLifecycle::Error { .. } => DownloadState::Error,
        };
        if state.resumable() {
            let ghost old_out = out@;
            out.push(statuses[i].gid.clone());
            proof {
                assert(out@.map_values(|g: String| g@) =~= old_out.map_values(|g: String| g@)
                    .push(statuses@[i as int].gid@));
            }
        }
        i += 1;
    }
    proof {
        assert(statuses@.take(statuses@.len() as int) =~= statuses@);
    }
    out
}

/// The transfers Pause All targets: exactly those currently active.  (A
/// single pause is also valid on a waiting transfer; the bulk command is
/// narrower on purpose.)
pub fn pausable_gids(statuses: &Vec<EngineStatus>) -> (r: Vec<String>)
    ensures
        r@.map_values(|g: String| g@) == gids_where(
            statuses@,
            |s: DownloadState| s == DownloadState::Active,
        ),
{
    let ghost pass = |s: DownloadState| s == DownloadState::Active;
    let mut out: Vec<String> = Vec::new();
    proof {
        assert(out@.map_values(|g: String| g@) =~= gids_where(statuses@.take(0), pass));
    }
    let mut i: usize = 0;
    while i < statuses.len()
        invariant
            0 <= i <= statuses@.len(),
            pass == (|s: DownloadState| s == DownloadState::Active),
            out@.map_values(|g: String| g@) == gids_where(statuses@.take(i as int), pass),
        decreases statuses@.len() - i,
    {
        proof {
            assert(statuses@.take(i as int + 1).drop_last() =~= statuses@.take(i as int));
            assert(statuses@.take(i as int + 1).last() == statuses@[i as int]);
        }
        let state = match &statuses[i].state {
            EngineLifecycle::Queued => DownloadState::Waiting,
            EngineLifecycle::Connecting => DownloadState::Active,
            EngineLifecycle::Downloading => DownloadState::Active,
            EngineLifecycle::Seeding => DownloadState::Active,
            EngineLifecycle::Paused => DownloadState::Paused,
            EngineLifecycle::Completed => DownloadState::Complete,
            EngineLifecycle::Error { .. } => DownloadState::Error,
        };
        if state == DownloadState::Active {
            let ghost old_out = out@;
            out.push(statuses[i].gid.clone());
            proof {
                assert(out@.map_values(|g: String| g@) =~= old_out.map_values(|g: String| g@)
                    .push(statuses@[i as int].gid@));
            }
        }
        i += 1;
    }
    proof {
        assert(statuses@.take(statuses@.len() as int) =~= statuses@);
    }
    out
}

/// Session counters for display; the engine's machine-sized counts are
/// clipped to `u32` range.
pub fn convert_global_stats(stats: &EngineGlobalStats) -> (r: GlobalStats)
    ensures
        r.download_speed == stats.download_speed,
        r.upload_speed == stats.upload_speed,
        r.num_active == (if stats.num_active <= u32::MAX { stats.num_active as u32 } else {
            u32::MAX
        }),
        r.num_waiting == (if stats.num_waiting <= u32::MAX { stats.num_waiting as u32 } else {
            u32::MAX
        }),
        r.num_stopped == (if stats.num_stopped <= u32::MAX { stats.num_stopped as u32 } else {
            u32::MAX
        }),
{
    GlobalStats {
        download_speed: stats.download_speed,
        upload_speed: stats.upload_speed,
        num_active: clip_u32(stats.num_active),
        num_waiting: clip_u32(stats.num_waiting),
        num_stopped: clip_u32(stats.num_stopped),
    }
}

fn clip_u32(v: usize) -> (r: u32)
    ensures
        r == (if v <= u32::MAX { v as u32 } else { u32::MAX }),
{
    if v <= u32::MAX as usize {
        v as u32
    } else {
        u32::MAX
    }
}

/// Seed the engine configuration from stored settings.
///
/// A zero speed limit means unlimited and becomes `None`; the paths come
/// from the caller, which knows the machine's directories.
pub fn settings_to_engine_config(settings: &Settings, database_path: Option<String>) -> (r:
    EngineConfig)
    ensures
        r.download_dir == settings.download_path,
        r.max_concurrent_downloads == settings.max_concurrent_downloads,
        r.max_connections_per_download == settings.max_connections_per_server,
        r.global_download_limit == (if settings.download_speed_limit > 0 {
            Some(settings.download_speed_limit)
        } else {
            None::<u64>
        }),
        r.global_upload_limit == (if settings.upload_speed_limit > 0 {
            Some(settings.upload_speed_limit)
        } else {
            None::<u64>
        }),
        r.user_agent == settings.user_agent,
        r.enable_dht == settings.bt_enable_dht,
        r.enable_pex == settings.bt_enable_pex,
        r.enable_lpd == settings.bt_enable_lpd,
        r.max_peers == settings.bt_max_peers,
        r.seed_ratio == settings.bt_seed_ratio,
        r.database_path == database_path,
{
    EngineConfig {
        download_dir: settings.download_path.clone(),
        max_concurrent_downloads: settings.max_concurrent_downloads,
        max_connections_per_download: settings.max_connections_per_server,
        global_download_limit: if settings.download_speed_limit > 0 {
            Some(settings.download_speed_limit)
        } else {
            None
        },
        global_upload_limit: if settings.upload_speed_limit > 0 {
            Some(settings.upload_speed_limit)
        } else {
            None
        },
        user_agent: settings.user_agent.clone(),
        enable_dht: settings.bt_enable_dht,
        enable_pex: settings.bt_enable_pex,
        enable_lpd: settings.bt_enable_lpd,
        max_peers: settings.bt_max_peers,
        seed_ratio: settings.bt_seed_ratio.clone(),
        database_path,
    }
}

/// Replace the global speed limits of a configuration, leaving the rest.
pub fn config_with_limits(
    config: EngineConfig,
    download_limit: Option<u64>,
    upload_limit: Option<u64>,
) -> (r: EngineConfig)
    ensures
        r == (EngineConfig {
            global_download_limit: download_limit,
            global_upload_limit: upload_limit,
            ..config
        }),
{
    EngineConfig { global_download_limit: download_limit, global_upload_limit: upload_limit, ..config }
}

// ---------------------------------------------------------------------------
// gid validation
// ---------------------------------------------------------------------------

pub open spec fn is_hex_digit(c: char) -> bool {
    is_digit(c) || lower_char(c) == 'a' || lower_char(c) == 'b' || lower_char(c) == 'c'
        || lower_char(c) == 'd' || lower_char(c) == 'e' || lower_char(c) == 'f'
}

fn char_is_hex(c: char) -> (r: bool)
    ensures
        r == is_hex_digit(c),
{
    let l = crate::text::char_lower(c);
    crate::text::char_digit_val(c) < 10 || l == 'a' || l == 'b' || l == 'c' || l == 'd' || l == 'e'
        || l == 'f'
}

/// A well-formed gid: the hyphenated form of a UUID (8-4-4-4-12 hex groups)
/// or its plain 32-digit form.
pub open spec fn valid_gid(s: Seq<char>) -> bool {
    ||| (s.len() == 36 && (forall|i: int|
        0 <= i < 36 ==> (if i == 8 || i == 13 || i == 18 || i == 23 {
            #[trigger] s[i] == '-'
        } else {
            is_hex_digit(s[i])
        })))
    ||| (s.len() == 32 && (forall|i: int| 0 <= i < 32 ==> is_hex_digit(#[trigger] s[i])))
}

/// Whether a string has one of the plain UUID text shapes gids are
/// rendered in: a validator offered to callers that want to screen
/// identifiers before use.  The engine itself may accept further forms of
/// its own; nothing here consults it.
pub fn gid_ok(s: &str) -> (r: bool)
    ensures
        r == valid_gid(s@),
{
    let n = s.unicode_len();
    if n == 36 {
        let mut i: usize = 0;
        while i < 36
            invariant
                0 <= i <= 36,
                s@.len() == 36,
                forall|k: int|
                    0 <= k < i ==> (if k == 8 || k == 13 || k == 18 || k == 23 {
                        #[trigger] s@[k] == '-'
                    } else {
                        is_hex_digit(s@[k])
                    }),
            decreases 36 - i,
        {
            let c = s.get_char(i);
            if i == 8 || i == 13 || i == 18 || i == 23 {
                if c != '-' {
                    return false;
                }
            } else {
                if !char_is_hex(c) {
                    return false;
                }
            }
            i += 1;
        }
        true
    } else if n == 32 {
        let mut i: usize = 0;
        while i < 32
            invariant
                0 <= i <= 32,
                s@.len() == 32,
                forall|k: int| 0 <= k < i ==> is_hex_digit(#[trigger] s@[k]),
            decreases 32 - i,
        {
            if !char_is_hex(s.get_char(i)) {
                return false;
            }
            i += 1;
        }
        true
    } else {
        false
    }
}

} // verus!
