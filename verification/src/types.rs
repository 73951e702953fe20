//! Data model: download records, option bags, settings, statistics and the
//! typed engine-facing shapes the adapter produces.

use vstd::prelude::*;
use crate::text::{eq_lower, lower_seq};

verus! {

/// Kind of a transfer.
#[derive(Debug, Clone, Copy, PartialEq, Eq, Structural)]
pub enum DownloadType {
    Http,
    Ftp,
    Torrent,
    Magnet,
}

/// Text code of a transfer kind, as the store writes it.
pub open spec fn type_code(t: DownloadType) -> Seq<char> {
    match t {
        DownloadType::Http => "http"@,
        DownloadType::Ftp => "ftp"@,
        DownloadType::Torrent => "torrent"@,
        DownloadType::Magnet => "magnet"@,
    }
}

/// Transfer kind named by a text code, case-insensitively; anything
/// unrecognised falls back to HTTP.
pub open spec fn type_of_code(s: Seq<char>) -> DownloadType {
    if lower_seq(s) == "ftp"@ {
        DownloadType::Ftp
    } else if lower_seq(s) == "torrent"@ {
        DownloadType::Torrent
    } else if lower_seq(s) == "magnet"@ {
        DownloadType::Magnet
    } else {
        DownloadType::Http
    }
}

impl DownloadType {
    pub fn as_str(&self) -> (r: &'static str)
        ensures
            r@ == type_code(*self),
    {
        match self {
            DownloadType::Http => "http",
            DownloadType::Ftp => "ftp",
            DownloadType::Torrent => "torrent",
            DownloadType::Magnet => "magnet",
        }
    }

    pub fn parse(s: &str) -> (r: DownloadType)
        ensures
            r == type_of_code(s@),
    {
        if eq_lower(s, "ftp") {
            DownloadType::Ftp
        } else if eq_lower(s, "torrent") {
            DownloadType::Torrent
        } else if eq_lower(s, "magnet") {
            DownloadType::Magnet
        } else {
            DownloadType::Http
        }
    }
}

/// Lifecycle state of a transfer.
#[derive(Debug, Clone, Copy, PartialEq, Eq, Structural)]
pub enum DownloadState {
    Active,
    Waiting,
    Paused,
    Complete,
    Error,
    Removed,
}

/// Text code of a lifecycle state, as the store writes it.
pub open spec fn state_code(s: DownloadState) -> Seq<char> {
    match s {
        DownloadState::Active => "active"@,
        DownloadState::Waiting => "waiting"@,
        DownloadState::Paused => "paused"@,
        DownloadState::Complete => "complete"@,
        DownloadState::Error => "error"@,
        DownloadState::Removed => "removed"@,
    }
}

/// Lifecycle state named by a text code, case-insensitively; anything
/// unrecognised falls back to Waiting.
pub open spec fn state_of_code(s: Seq<char>) -> DownloadState {
    if lower_seq(s) == "active"@ {
        DownloadState::Active
    } else if lower_seq(s) == "paused"@ {
        DownloadState::Paused
    } else if lower_seq(s) == "complete"@ {
        DownloadState::Complete
    } else if lower_seq(s) == "error"@ {
        DownloadState::Error
    } else if lower_seq(s) == "removed"@ {
        DownloadState::Removed
    } else {
        DownloadState::Waiting
    }
}

/// A record counts as incomplete while it is neither finished nor removed;
/// the restoration procedure reads exactly these back.
pub open spec fn is_incomplete(s: DownloadState) -> bool {
    s != DownloadState::Complete && s != DownloadState::Removed
}

/// Resume applies only to transfers that stopped without finishing.
pub open spec fn is_resumable(s: DownloadState) -> bool {
    s == DownloadState::Paused || s == DownloadState::Error
}

/// Pause applies only to transfers the engine still works on.
pub open spec fn is_pausable(s: DownloadState) -> bool {
    s == DownloadState::Active || s == DownloadState::Waiting
}

impl DownloadState {
    pub fn as_str(&self) -> (r: &'static str)
        ensures
            r@ == state_code(*self),
    {
        match self {
            DownloadState::Active => "active",
            DownloadState::Waiting => "waiting",
            DownloadState::Paused => "paused",
            DownloadState::Complete => "complete",
            DownloadState::Error => "error",
            DownloadState::Removed => "removed",
        }
    }

    pub fn parse(s: &str) -> (r: DownloadState)
        ensures
            r == state_of_code(s@),
    {
        if eq_lower(s, "active") {
            DownloadState::Active
        } else if eq_lower(s, "paused") {
            DownloadState::Paused
        } else if eq_lower(s, "complete") {
            DownloadState::Complete
        } else if eq_lower(s, "error") {
            DownloadState::Error
        } else if eq_lower(s, "removed") {
            DownloadState::Removed
        } else {
            DownloadState::Waiting
        }
    }

    pub fn incomplete(&self) -> (r: bool)
        ensures
            r == is_incomplete(*self),
    {
        *self != DownloadState::Complete && *self != DownloadState::Removed
    }

    pub fn resumable(&self) -> (r: bool)
        ensures
            r == is_resumable(*self),
    {
        *self == DownloadState::Paused || *self == DownloadState::Error
    }

    pub fn pausable(&self) -> (r: bool)
        ensures
            r == is_pausable(*self),
    {
        *self == DownloadState::Active || *self == DownloadState::Waiting
    }
}

/// Each kind's text code names that kind back.
pub proof fn lemma_type_code_roundtrip(t: DownloadType)
    ensures
        type_of_code(type_code(t)) == t,
{
    reveal_strlit("http");
    reveal_strlit("ftp");
    reveal_strlit("torrent");
    reveal_strlit("magnet");
    match t {
        DownloadType::Http => {
            assert(lower_seq("http"@).len() == 4);
        },
        DownloadType::Ftp => {
            assert(lower_seq("ftp"@) =~= "ftp"@);
        },
        DownloadType::Torrent => {
            assert(lower_seq("torrent"@) =~= "torrent"@);
            assert(lower_seq("torrent"@).len() == 7);
        },
        DownloadType::Magnet => {
            assert(lower_seq("magnet"@) =~= "magnet"@);
            assert(lower_seq("magnet"@).len() == 6);
        },
    }
}

/// Each state's text code names that state back.
pub proof fn lemma_state_code_roundtrip(s: DownloadState)
    ensures
        state_of_code(state_code(s)) == s,
{
    reveal_strlit("active");
    reveal_strlit("waiting");
    reveal_strlit("paused");
    reveal_strlit("complete");
    reveal_strlit("error");
    reveal_strlit("removed");
    match s {
        DownloadState::Active => {
            assert(lower_seq("active"@) =~= "active"@);
        },
        DownloadState::Waiting => {
            assert(lower_seq("waiting"@).len() == 7);
            assert(lower_seq("waiting"@)[0] == 'w');
            assert("removed"@[0] == 'r');
            assert(lower_seq("waiting"@) != "removed"@);
        },
        DownloadState::Paused => {
            assert(lower_seq("paused"@)[0] == 'p');
            assert("active"@[0] == 'a');
            assert(lower_seq("paused"@) != "active"@);
            assert(lower_seq("paused"@) =~= "paused"@);
        },
        DownloadState::Complete => {
            assert(lower_seq("complete"@).len() == 8);
            assert(lower_seq("complete"@) =~= "complete"@);
        },
        DownloadState::Error => {
            assert(lower_seq("error"@).len() == 5);
            assert(lower_seq("error"@) =~= "error"@);
        },
        DownloadState::Removed => {
            assert(lower_seq("removed"@)[0] == 'r');
            assert("waiting"@[0] == 'w');
            assert(lower_seq("removed"@) != "waiting"@);
            assert(lower_seq("removed"@) =~= "removed"@);
        },
    }
}

/// One transfer as the user interfaces and the store see it.
///
/// Timestamps are seconds since the Unix epoch; `completed_at` is present
/// exactly on finished transfers.
#[derive(Debug, Clone)]
pub struct Download {
    pub id: i64,
    pub gid: String,
    pub name: String,
    pub url: Option<String>,
    pub magnet_uri: Option<String>,
    pub info_hash: Option<String>,
    pub download_type: DownloadType,
    pub status: DownloadState,
    pub total_size: u64,
    pub completed_size: u64,
    pub download_speed: u64,
    pub upload_speed: u64,
    pub save_path: String,
    pub created_at: i64,
    pub completed_at: Option<i64>,
    pub error_message: Option<String>,
    pub connections: u32,
    pub seeders: u32,
    pub selected_files: Option<Vec<usize>>,
}

impl Default for Download {
    fn default() -> (r: Download)
        ensures
            r.id == 0,
            r.gid@ == Seq::<char>::empty(),
            r.name@ == Seq::<char>::empty(),
            r.url is None,
            r.magnet_uri is None,
            r.info_hash is None,
            r.download_type == DownloadType::Http,
            r.status == DownloadState::Waiting,
            r.total_size == 0,
            r.completed_size == 0,
            r.download_speed == 0,
            r.upload_speed == 0,
            r.save_path@ == Seq::<char>::empty(),
            r.created_at == 0,
            r.completed_at is None,
            r.error_message is None,
            r.connections == 0,
            r.seeders == 0,
            r.selected_files is None,
    {
        Download {
            id: 0,
            gid: String::new(),
            name: String::new(),
            url: None,
            magnet_uri: None,
            info_hash: None,
            download_type: DownloadType::Http,
            status: DownloadState::Waiting,
            total_size: 0,
            completed_size: 0,
            download_speed: 0,
            upload_speed: 0,
            save_path: String::new(),
            created_at: 0,
            completed_at: None,
            error_message: None,
            connections: 0,
            seeders: 0,
            selected_files: None,
        }
    }
}

/// Loosely-typed option bag a front end hands in when adding a download;
/// numbers and enumerations arrive as strings.
#[derive(Debug, Clone)]
pub struct DownloadOptions {
    pub dir: Option<String>,
    pub out: Option<String>,
    pub max_connection_per_server: Option<String>,
    pub user_agent: Option<String>,
    pub referer: Option<String>,
    pub header: Option<Vec<String>>,
    pub cookies: Option<String>,
    pub checksum_type: Option<String>,
    pub checksum_value: Option<String>,
    pub mirror_urls: Option<Vec<String>>,
    pub priority: Option<String>,
    pub select_file: Option<String>,
    pub seed_ratio: Option<String>,
    pub max_download_limit: Option<String>,
    pub max_upload_limit: Option<String>,
    pub sequential: Option<bool>,
}

impl Default for DownloadOptions {
    fn default() -> (r: DownloadOptions)
        ensures
            r.dir is None,
            r.out is None,
            r.max_connection_per_server is None,
            r.user_agent is None,
            r.referer is None,
            r.header is None,
            r.cookies is None,
            r.checksum_type is None,
            r.checksum_value is None,
            r.mirror_urls is None,
            r.priority is None,
            r.select_file is None,
            r.seed_ratio is None,
            r.max_download_limit is None,
            r.max_upload_limit is None,
            r.sequential is None,
    {
        DownloadOptions {
            dir: None,
            out: None,
            max_connection_per_server: None,
            user_agent: None,
            referer: None,
            header: None,
            cookies: None,
            checksum_type: None,
            checksum_value: None,
            mirror_urls: None,
            priority: None,
            select_file: None,
            seed_ratio: None,
            max_download_limit: None,
            max_upload_limit: None,
            sequential: None,
        }
    }
}

/// Aggregate counters the engine reports for the whole session.
#[derive(Debug, Clone)]
pub struct GlobalStats {
    pub download_speed: u64,
    pub upload_speed: u64,
    pub num_active: u32,
    pub num_waiting: u32,
    pub num_stopped: u32,
}

impl Default for GlobalStats {
    fn default() -> (r: GlobalStats)
        ensures
            r.download_speed == 0,
            r.upload_speed == 0,
            r.num_active == 0,
            r.num_waiting == 0,
            r.num_stopped == 0,
    {
        GlobalStats { download_speed: 0, upload_speed: 0, num_active: 0, num_waiting: 0, num_stopped: 0 }
    }
}

/// Metadata of a torrent shown before it is added.
#[derive(Debug, Clone)]
pub struct TorrentInfo {
    pub name: String,
    pub info_hash: String,
    pub total_size: u64,
    pub files: Vec<TorrentFileEntry>,
    pub comment: Option<String>,
    pub creation_date: Option<i64>,
    pub announce_list: Vec<String>,
}

/// One file inside a torrent.
#[derive(Debug, Clone)]
pub struct TorrentFileEntry {
    pub index: usize,
    pub path: String,
    pub length: u64,
}

/// Metadata parsed out of a magnet link shown before it is added.
#[derive(Debug, Clone)]
pub struct MagnetInfo {
    pub name: Option<String>,
    pub info_hash: String,
    pub trackers: Vec<String>,
}

/// Per-file progress of a running torrent, for display.
#[derive(Debug, Clone)]
pub struct TorrentFileInfo {
    pub path: String,
    pub size: u64,
    pub completed: u64,
    pub selected: bool,
}

/// One connected peer of a running torrent, for display.
#[derive(Debug, Clone)]
pub struct PeerInfo {
    pub ip: String,
    pub port: u16,
    pub client: Option<String>,
    pub download_speed: u64,
    pub upload_speed: u64,
}

/// Process-wide configuration, one stored row per field.
///
/// The seed ratio is carried as its stored decimal text; only the engine
/// boundary interprets it as a number.
#[derive(Debug, Clone)]
pub struct Settings {
    pub download_path: String,
    pub max_concurrent_downloads: u32,
    pub max_connections_per_server: u32,
    pub split_count: u32,
    pub download_speed_limit: u64,
    pub upload_speed_limit: u64,
    pub user_agent: String,
    pub enable_notifications: bool,
    pub close_to_tray: bool,
    pub bt_enable_dht: bool,
    pub bt_enable_pex: bool,
    pub bt_enable_lpd: bool,
    pub bt_max_peers: u32,
    pub bt_seed_ratio: String,
    pub auto_update_trackers: bool,
    pub delete_files_on_remove: bool,
}

impl Settings {
    /// The hardcoded fallback for every key; the download directory is
    /// machine-dependent and is handed in by the caller.
    pub fn defaults(download_path: String) -> (r: Settings)
        ensures
            r.download_path == download_path,
            r.max_concurrent_downloads == 5,
            r.max_connections_per_server == 16,
            r.split_count == 16,
            r.download_speed_limit == 0,
            r.upload_speed_limit == 0,
            r.user_agent@ == "gosh-dl/0.1.0"@,
            r.enable_notifications,
            r.close_to_tray,
            r.bt_enable_dht,
            r.bt_enable_pex,
            r.bt_enable_lpd,
            r.bt_max_peers == 55,
            r.bt_seed_ratio@ == "1.0"@,
            r.auto_update_trackers,
            !r.delete_files_on_remove,
    {
        Settings {
            download_path,
            max_concurrent_downloads: 5,
            max_connections_per_server: 16,
            split_count: 16,
            download_speed_limit: 0,
            upload_speed_limit: 0,
            user_agent: String::from_str("gosh-dl/0.1.0"),
            enable_notifications: true,
            close_to_tray: true,
            bt_enable_dht: true,
            bt_enable_pex: true,
            bt_enable_lpd: true,
            bt_max_peers: 55,
            bt_seed_ratio: String::from_str("1.0"),
            auto_update_trackers: true,
            delete_files_on_remove: false,
        }
    }
}

/// Names under which a user agent preset is offered, with its header value.
pub fn get_user_agent_presets() -> (r: Vec<(&'static str, &'static str)>)
    ensures
        r@.len() == 7,
        r@[0].0@ == "gosh-dl/0.1.0"@ && r@[0].1@ == "gosh-dl/0.1.0"@,
        r@[1].0@ == "Chrome (Windows)"@ && r@[1].1@
            == "Mozilla/5.0 (Windows NT 10.0; Win64; x64) AppleWebKit/537.36 (KHTML, like Gecko) Chrome/120.0.0.0 Safari/537.36"@,
        r@[2].0@ == "Chrome (macOS)"@ && r@[2].1@
            == "Mozilla/5.0 (Macintosh; Intel Mac OS X 10_15_7) AppleWebKit/537.36 (KHTML, like Gecko) Chrome/120.0.0.0 Safari/537.36"@,
        r@[3].0@ == "Firefox (Windows)"@ && r@[3].1@
            == "Mozilla/5.0 (Windows NT 10.0; Win64; x64; rv:121.0) Gecko/20100101 Firefox/121.0"@,
        r@[4].0@ == "Firefox (Linux)"@ && r@[4].1@
            == "Mozilla/5.0 (X11; Linux x86_64; rv:121.0) Gecko/20100101 Firefox/121.0"@,
        r@[5].0@ == "Wget"@ && r@[5].1@ == "Wget/1.21"@,
        r@[6].0@ == "Curl"@ && r@[6].1@ == "curl/8.4.0"@,
{
    vec![
        ("gosh-dl/0.1.0", "gosh-dl/0.1.0"),
        (
            "Chrome (Windows)",
            "Mozilla/5.0 (Windows NT 10.0; Win64; x64) AppleWebKit/537.36 (KHTML, like Gecko) Chrome/120.0.0.0 Safari/537.36",
        ),
        (
            "Chrome (macOS)",
            "Mozilla/5.0 (Macintosh; Intel Mac OS X 10_15_7) AppleWebKit/537.36 (KHTML, like Gecko) Chrome/120.0.0.0 Safari/537.36",
        ),
        (
            "Firefox (Windows)",
            "Mozilla/5.0 (Windows NT 10.0; Win64; x64; rv:121.0) Gecko/20100101 Firefox/121.0",
        ),
        (
            "Firefox (Linux)",
            "Mozilla/5.0 (X11; Linux x86_64; rv:121.0) Gecko/20100101 Firefox/121.0",
        ),
        ("Wget", "Wget/1.21"),
        ("Curl", "curl/8.4.0"),
    ]
}

} // verus!
