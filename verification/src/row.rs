//! The row codec of the downloads table: a `Download` flattened to the plain
//! column values the store keeps, and read back.
//!
//! Enumerations are stored as their text codes, sizes as signed integers
//! (two's-complement image of the unsigned value), the selected-file list as
//! comma-separated decimal indices.  Connection and seeder counts are live
//! values and are not persisted; the row id is the store's to assign.

use vstd::prelude::*;
use vstd::string::StringExecFns;
use crate::options::{numeral_value, selected_indices};
use crate::text::join_dec;
use crate::types::{state_code, state_of_code, type_code, type_of_code, Download, DownloadState,
    DownloadType};

verus! {

/// One stored row, as the table holds it.
#[derive(Debug, Clone)]
pub struct StoredRow {
    pub id: i64,
    pub gid: String,
    pub name: String,
    pub url: Option<String>,
    pub magnet_uri: Option<String>,
    pub info_hash: Option<String>,
    pub download_type: String,
    pub status: String,
    pub total_size: i64,
    pub completed_size: i64,
    pub download_speed: i64,
    pub upload_speed: i64,
    pub save_path: String,
    pub created_at: i64,
    pub completed_at: Option<i64>,
    pub error_message: Option<String>,
    pub selected_files: Option<String>,
}

/// The mathematical image of a stored row.  The row id is no part of it:
/// the store assigns ids and nothing else may depend on them.
pub ghost struct RowV {
    pub gid: Seq<char>,
    pub name: Seq<char>,
    pub url: Option<Seq<char>>,
    pub magnet_uri: Option<Seq<char>>,
    pub info_hash: Option<Seq<char>>,
    pub download_type: Seq<char>,
    pub status: Seq<char>,
    pub total_size: int,
    pub completed_size: int,
    pub download_speed: int,
    pub upload_speed: int,
    pub save_path: Seq<char>,
    pub created_at: int,
    pub completed_at: Option<int>,
    pub error_message: Option<Seq<char>>,
    pub selected_files: Option<Seq<char>>,
}

pub open spec fn opt_int(o: Option<i64>) -> Option<int> {
    match o {
        Some(v) => Some(v as int),
        None => None,
    }
}

pub open spec fn row_view(r: StoredRow) -> RowV {
    RowV {
        gid: r.gid@,
        name: r.name@,
        url: r.url.deep_view(),
        magnet_uri: r.magnet_uri.deep_view(),
        info_hash: r.info_hash.deep_view(),
        download_type: r.download_type@,
        status: r.status@,
        total_size: r.total_size as int,
        completed_size: r.completed_size as int,
        download_speed: r.download_speed as int,
        upload_speed: r.upload_speed as int,
        save_path: r.save_path@,
        created_at: r.created_at as int,
        completed_at: opt_int(r.completed_at),
        error_message: r.error_message.deep_view(),
        selected_files: r.selected_files.deep_view(),
    }
}

/// The row a record is persisted as.
pub open spec fn record_row(d: Download) -> RowV {
    RowV {
        gid: d.gid@,
        name: d.name@,
        url: d.url.deep_view(),
        magnet_uri: d.magnet_uri.deep_view(),
        info_hash: d.info_hash.deep_view(),
        download_type: type_code(d.download_type),
        status: state_code(d.status),
        total_size: d.total_size as i64 as int,
        completed_size: d.completed_size as i64 as int,
        download_speed: d.download_speed as i64 as int,
        upload_speed: d.upload_speed as i64 as int,
        save_path: d.save_path@,
        created_at: d.created_at as int,
        completed_at: (match d.completed_at {
            Some(t) => Some(t as int),
            None => None,
        }),
        error_message: d.error_message.deep_view(),
        selected_files: (match d.selected_files {
            Some(v) => Some(join_dec(v@)),
            None => None,
        }),
    }
}

/// How a record read from the store relates to the stored row it came from:
/// the text codes parsed with their fallbacks, sizes as the unsigned image
/// of the stored integer, live counters zero.  The row id is not part of
/// this relation; the store assigns it.
pub open spec fn decoded_from(d: Download, rv: RowV) -> bool {
    &&& d.gid@ == rv.gid
    &&& d.name@ == rv.name
    &&& d.url.deep_view() == rv.url
    &&& d.magnet_uri.deep_view() == rv.magnet_uri
    &&& d.info_hash.deep_view() == rv.info_hash
    &&& d.download_type == type_of_code(rv.download_type)
    &&& d.status == state_of_code(rv.status)
    &&& d.total_size as int == (rv.total_size as i64 as u64) as int
    &&& d.completed_size as int == (rv.completed_size as i64 as u64) as int
    &&& d.download_speed as int == (rv.download_speed as i64 as u64) as int
    &&& d.upload_speed as int == (rv.upload_speed as i64 as u64) as int
    &&& d.save_path@ == rv.save_path
    &&& d.created_at as int == rv.created_at
    &&& (match (d.completed_at, rv.completed_at) {
        (Some(a), Some(b)) => a as int == b,
        (None, None) => true,
        _ => false,
    })
    &&& d.error_message.deep_view() == rv.error_message
    &&& d.connections == 0
    &&& d.seeders == 0
    &&& (match rv.selected_files {
        Some(s) => d.selected_files is Some && d.selected_files->Some_0@ == selected_indices(s),
        None => d.selected_files is None,
    })
}

/// Flatten a record for storage.
pub fn encode_row(d: &Download) -> (r: StoredRow)
    ensures
        row_view(r) == record_row(*d),
{
    let selected_files = match &d.selected_files {
        Some(v) => Some(crate::text::join_dec_string(v)),
        None => None,
    };
    let r = StoredRow {
        id: 0,
        gid: d.gid.clone(),
        name: d.name.clone(),
        url: clone_opt(&d.url),
        magnet_uri: clone_opt(&d.magnet_uri),
        info_hash: clone_opt(&d.info_hash),
        download_type: String::from_str(d.download_type.as_str()),
        status: String::from_str(d.status.as_str()),
        total_size: #[verifier::truncate] (d.total_size as i64),
        completed_size: #[verifier::truncate] (d.completed_size as i64),
        download_speed: #[verifier::truncate] (d.download_speed as i64),
        upload_speed: #[verifier::truncate] (d.upload_speed as i64),
        save_path: d.save_path.clone(),
        created_at: d.created_at,
        completed_at: d.completed_at,
        error_message: clone_opt(&d.error_message),
        selected_files,
    };
    r
}

fn clone_opt(o: &Option<String>) -> (r: Option<String>)
    ensures
        r == *o,
{
    match o {
        Some(s) => Some(s.clone()),
        None => None,
    }
}

/// Read a stored row back into the record shape.  The kind and state codes
/// are parsed with their fallbacks, sizes come back as the unsigned image,
/// live counters are zero, the id is the row's.
pub fn decode_row(row: StoredRow) -> (d: Download)
    ensures
        d.id == row.id,
        d.gid == row.gid,
        d.name == row.name,
        d.url == row.url,
        d.magnet_uri == row.magnet_uri,
        d.info_hash == row.info_hash,
        d.download_type == type_of_code(row.download_type@),
        d.status == state_of_code(row.status@),
        d.total_size == row.total_size as u64,
        d.completed_size == row.completed_size as u64,
        d.download_speed == row.download_speed as u64,
        d.upload_speed == row.upload_speed as u64,
        d.save_path == row.save_path,
        d.created_at == row.created_at,
        d.completed_at == row.completed_at,
        d.error_message == row.error_message,
        d.connections == 0,
        d.seeders == 0,
        (match row.selected_files {
            Some(s) => d.selected_files is Some && d.selected_files->Some_0@
                == selected_indices(s@),
            None => d.selected_files is None,
        }),
        decoded_from(d, row_view(row)),
{
    let selected_files = match &row.selected_files {
        Some(s) => Some(crate::options::convert_selected_files(s.as_str())),
        None => None,
    };
    Download {
        id: row.id,
        gid: row.gid,
        name: row.name,
        url: row.url,
        magnet_uri: row.magnet_uri,
        info_hash: row.info_hash,
        download_type: DownloadType::parse(row.download_type.as_str()),
        status: DownloadState::parse(row.status.as_str()),
        total_size: #[verifier::truncate] (row.total_size as u64),
        completed_size: #[verifier::truncate] (row.completed_size as u64),
        download_speed: #[verifier::truncate] (row.download_speed as u64),
        upload_speed: #[verifier::truncate] (row.upload_speed as u64),
        save_path: row.save_path,
        created_at: row.created_at,
        completed_at: row.completed_at,
        error_message: row.error_message,
        connections: 0,
        seeders: 0,
        selected_files,
    }
}

/// The store round trip is the identity on everything a row persists:
/// a record written with `record_row` and read back under `decoded_from`
/// keeps every field — the selected-file list included, through its
/// comma-separated encoding — except the live connection and seeder
/// counts, which are not persisted and come back zero, and the row id,
/// which the store assigns.
pub proof fn lemma_record_roundtrip(d: Download, r2: Download)
    requires
        decoded_from(r2, record_row(d)),
    ensures
        r2.gid@ == d.gid@,
        r2.name@ == d.name@,
        r2.url.deep_view() == d.url.deep_view(),
        r2.magnet_uri.deep_view() == d.magnet_uri.deep_view(),
        r2.info_hash.deep_view() == d.info_hash.deep_view(),
        r2.download_type == d.download_type,
        r2.status == d.status,
        r2.total_size == d.total_size,
        r2.completed_size == d.completed_size,
        r2.download_speed == d.download_speed,
        r2.upload_speed == d.upload_speed,
        r2.save_path@ == d.save_path@,
        r2.created_at == d.created_at,
        r2.completed_at == d.completed_at,
        r2.error_message.deep_view() == d.error_message.deep_view(),
        r2.connections == 0,
        r2.seeders == 0,
        (match d.selected_files {
            Some(v) => r2.selected_files is Some && r2.selected_files->Some_0@ == v@,
            None => r2.selected_files is None,
        }),
{
    crate::types::lemma_type_code_roundtrip(d.download_type);
    crate::types::lemma_state_code_roundtrip(d.status);
    let a = d.total_size;
    assert(((a as i64) as u64) == a) by (bit_vector);
    let b = d.completed_size;
    assert(((b as i64) as u64) == b) by (bit_vector);
    let c = d.download_speed;
    assert(((c as i64) as u64) == c) by (bit_vector);
    let e = d.upload_speed;
    assert(((e as i64) as u64) == e) by (bit_vector);
    match d.selected_files {
        Some(v) => {
            crate::options::lemma_selected_files_roundtrip(v@);
        },
        None => {},
    }
}

} // verus!
