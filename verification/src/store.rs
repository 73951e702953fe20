//! The persistence store: durable tables for download records, settings and
//! tracker lists, kept in SQLite through `rusqlite`.
//!
//! Each table is modelled by a name for its contents — a map from gid to row
//! for downloads, a map for settings, a sequence for trackers — and every
//! statement the store runs sits in one trusted wrapper whose contract says
//! what that statement does to the contents.  Everything above the wrappers
//! — row encoding, filtering, ordering, fallback parsing — is verified.

use vstd::prelude::*;
use vstd::string::StringExecFns;
use crate::error::FetchError;
use crate::row::{decoded_from, encode_row, record_row, row_view, StoredRow, RowV};
use crate::text::eq_str;
use crate::types::{state_code, Download, DownloadState, Settings};

verus! {

#[verifier::external_type_specification]
#[verifier::external_body]
pub struct ExConnection(rusqlite::Connection);

#[verifier::external_type_specification]
#[verifier::external_body]
pub struct ExSqlRow<'a>(rusqlite::Row<'a>);

#[verifier::external_type_specification]
#[verifier::external_body]
pub struct ExSqlError(rusqlite::Error);

/// Contents of the downloads table: the stored row of each gid.
pub uninterp spec fn downloads_of(c: rusqlite::Connection) -> Map<Seq<char>, RowV>;

/// Contents of the settings table: the stored value of each key.
pub uninterp spec fn settings_of(c: rusqlite::Connection) -> Map<Seq<char>, Seq<char>>;

/// Contents of the trackers table: each URL with its enabled flag, in table
/// order.
pub uninterp spec fn trackers_of(c: rusqlite::Connection) -> Seq<(Seq<char>, bool)>;

/// The single last-updated timestamp of the tracker list, if one is set.
pub uninterp spec fn tracker_meta_of(c: rusqlite::Connection) -> Option<Seq<char>>;

/// The open store: one connection, exclusively owned.
pub struct Database {
    conn: rusqlite::Connection,
}

impl Database {
    pub closed spec fn downloads(self) -> Map<Seq<char>, RowV> {
        downloads_of(self.conn)
    }

    pub closed spec fn settings(self) -> Map<Seq<char>, Seq<char>> {
        settings_of(self.conn)
    }

    pub closed spec fn trackers(self) -> Seq<(Seq<char>, bool)> {
        trackers_of(self.conn)
    }

    pub closed spec fn tracker_meta(self) -> Option<Seq<char>> {
        tracker_meta_of(self.conn)
    }

    /// Open a private in-memory store, as the tests do.
    pub fn open_in_memory() -> (r: Result<Database, FetchError>)
        ensures
            r is Ok ==> r->Ok_0.downloads() == Map::<Seq<char>, RowV>::empty()
                && r->Ok_0.settings() == Map::<Seq<char>, Seq<char>>::empty()
                && r->Ok_0.trackers() == Seq::<(Seq<char>, bool)>::empty()
                && r->Ok_0.tracker_meta() is None,
            r is Err ==> r->Err_0 is Database,
    {
        match open_memory_raw() {
            Ok(db) => Ok(db),
            Err(m) => Err(FetchError::Database(m)),
        }
    }

    /// Open (or create) the store at a file path.  What an existing file
    /// holds is whatever was stored before; nothing is promised of it.
    pub fn open_at(path: &str) -> (r: Result<Database, FetchError>)
        ensures
            r is Err ==> r->Err_0 is Database,
    {
        match open_path_raw(path) {
            Ok(db) => Ok(db),
            Err(m) => Err(FetchError::Database(m)),
        }
    }
}

// ---------------------------------------------------------------------------
// trusted statement wrappers
// ---------------------------------------------------------------------------

/// Relies on `rusqlite::Connection::open_in_memory` and `execute_batch`: a
/// fresh in-memory database, after the schema runs, holds empty tables and a
/// null tracker timestamp.
#[verifier::external_body]
fn open_memory_raw() -> (r: Result<Database, String>)
    ensures
        r is Ok ==> downloads_of(r->Ok_0.conn).dom() == Set::<Seq<char>>::empty(),
        r is Ok ==> settings_of(r->Ok_0.conn).dom() == Set::<Seq<char>>::empty(),
        r is Ok ==> trackers_of(r->Ok_0.conn).len() == 0,
        r is Ok ==> tracker_meta_of(r->Ok_0.conn) is None,
{
    let conn = rusqlite::Connection::open_in_memory().map_err(|e| e.to_string())?;
    conn.execute_batch(
        "CREATE TABLE IF NOT EXISTS downloads (id INTEGER PRIMARY KEY AUTOINCREMENT, gid TEXT UNIQUE NOT NULL, name TEXT NOT NULL, url TEXT, magnet_uri TEXT, info_hash TEXT, download_type TEXT NOT NULL, status TEXT NOT NULL, total_size INTEGER NOT NULL, completed_size INTEGER NOT NULL, download_speed INTEGER NOT NULL, upload_speed INTEGER NOT NULL, save_path TEXT NOT NULL, created_at INTEGER NOT NULL, completed_at INTEGER, error_message TEXT, selected_files TEXT); CREATE TABLE IF NOT EXISTS settings (key TEXT PRIMARY KEY, value TEXT NOT NULL, updated_at TEXT); CREATE TABLE IF NOT EXISTS trackers (url TEXT NOT NULL, enabled INTEGER NOT NULL DEFAULT 1); CREATE TABLE IF NOT EXISTS tracker_meta (id INTEGER PRIMARY KEY, last_updated TEXT); INSERT OR IGNORE INTO tracker_meta (id, last_updated) VALUES (1, NULL);",
    ).map_err(|e| e.to_string())?;
    Ok(Database { conn })
}

/// Relies on `rusqlite::Connection::open` and `execute_batch`: opens or
/// creates the file and ensures the schema exists; existing contents are
/// kept, so nothing is promised of them.
#[verifier::external_body]
fn open_path_raw(path: &str) -> (r: Result<Database, String>)
{
    let conn = rusqlite::Connection::open(path).map_err(|e| e.to_string())?;
    conn.execute_batch(
        "CREATE TABLE IF NOT EXISTS downloads (id INTEGER PRIMARY KEY AUTOINCREMENT, gid TEXT UNIQUE NOT NULL, name TEXT NOT NULL, url TEXT, magnet_uri TEXT, info_hash TEXT, download_type TEXT NOT NULL, status TEXT NOT NULL, total_size INTEGER NOT NULL, completed_size INTEGER NOT NULL, download_speed INTEGER NOT NULL, upload_speed INTEGER NOT NULL, save_path TEXT NOT NULL, created_at INTEGER NOT NULL, completed_at INTEGER, error_message TEXT, selected_files TEXT); CREATE TABLE IF NOT EXISTS settings (key TEXT PRIMARY KEY, value TEXT NOT NULL, updated_at TEXT); CREATE TABLE IF NOT EXISTS trackers (url TEXT NOT NULL, enabled INTEGER NOT NULL DEFAULT 1); CREATE TABLE IF NOT EXISTS tracker_meta (id INTEGER PRIMARY KEY, last_updated TEXT); INSERT OR IGNORE INTO tracker_meta (id, last_updated) VALUES (1, NULL);",
    ).map_err(|e| e.to_string())?;
    Ok(Database { conn })
}

/// Relies on `rusqlite::Connection::execute` running `INSERT OR REPLACE`
/// keyed by the unique gid: the new row replaces any row with that gid, a
/// failed statement changes nothing, and `last_insert_rowid` names the row
/// just written.
#[verifier::external_body]
fn upsert_row_raw(db: &mut Database, row: &StoredRow) -> (r: Result<i64, String>)
    ensures
        r is Ok ==> downloads_of(final(db).conn) == downloads_of(old(db).conn).insert(
            row.gid@,
            row_view(*row),
        ),
        r is Err ==> downloads_of(final(db).conn) == downloads_of(old(db).conn),
        settings_of(final(db).conn) == settings_of(old(db).conn),
        trackers_of(final(db).conn) == trackers_of(old(db).conn),
        tracker_meta_of(final(db).conn) == tracker_meta_of(old(db).conn),
{
    let res = db.conn.execute(
        "INSERT OR REPLACE INTO downloads (gid, name, url, magnet_uri, info_hash, download_type, status, total_size, completed_size, download_speed, upload_speed, save_path, created_at, completed_at, error_message, selected_files) VALUES (?1, ?2, ?3, ?4, ?5, ?6, ?7, ?8, ?9, ?10, ?11, ?12, ?13, ?14, ?15, ?16)",
        (&row.gid, &row.name, &row.url, &row.magnet_uri, &row.info_hash, &row.download_type,
            &row.status, row.total_size, row.completed_size, row.download_speed, row.upload_speed,
            &row.save_path, row.created_at, row.completed_at, &row.error_message,
            &row.selected_files),
    );
    match res {
        Ok(_) => Ok(db.conn.last_insert_rowid()),
        Err(e) => Err(e.to_string()),
    }
}

/// Relies on `rusqlite` prepare/query over `SELECT * FROM downloads`: every
/// stored row comes back exactly once (the gid column is unique), in an
/// order this contract leaves open.
#[verifier::external_body]
fn select_rows_raw(db: &Database) -> (r: Result<Vec<StoredRow>, String>)
    ensures
        r is Ok ==> ({
            let m = downloads_of(db.conn);
            let rows = r->Ok_0@;
            &&& m.dom().finite()
            &&& rows.len() == m.dom().len()
            &&& forall|i: int|
                0 <= i < rows.len() ==> m.contains_pair(
                    (#[trigger] rows[i]).gid@,
                    row_view(rows[i]),
                )
            &&& forall|i: int, j: int|
                0 <= i < rows.len() && 0 <= j < rows.len() && i != j ==> (#[trigger] rows[i]).gid@
                    != (#[trigger] rows[j]).gid@
            &&& forall|k: Seq<char>|
                #[trigger] m.dom().contains(k) ==> exists|i: int|
                    0 <= i < rows.len() && (#[trigger] rows[i]).gid@ == k
        }),
{
    let mut stmt = db.conn.prepare(
        "SELECT id, gid, name, url, magnet_uri, info_hash, download_type, status, total_size, completed_size, download_speed, upload_speed, save_path, created_at, completed_at, error_message, selected_files FROM downloads",
    ).map_err(|e| e.to_string())?;
    let rows = stmt.query_map([], |r| read_row(r)).map_err(|e| e.to_string())?
        .collect::<Result<Vec<StoredRow>, _>>().map_err(|e| e.to_string())?;
    Ok(rows)
}

/// Relies on `rusqlite::Row::get`: reads one stored downloads row, column by
/// column in the order the select statement names them.
#[verifier::external_body]
fn read_row(r: &rusqlite::Row) -> Result<StoredRow, rusqlite::Error> {
    Ok(StoredRow {
        id: r.get(0)?, gid: r.get(1)?, name: r.get(2)?, url: r.get(3)?,
        magnet_uri: r.get(4)?, info_hash: r.get(5)?, download_type: r.get(6)?,
        status: r.get(7)?, total_size: r.get(8)?, completed_size: r.get(9)?,
        download_speed: r.get(10)?, upload_speed: r.get(11)?, save_path: r.get(12)?,
        created_at: r.get(13)?, completed_at: r.get(14)?, error_message: r.get(15)?,
        selected_files: r.get(16)?,
    })
}

/// Relies on `rusqlite::Connection::execute` running `DELETE ... WHERE gid`:
/// exactly the row with that gid goes; a failed statement changes nothing.
#[verifier::external_body]
fn delete_row_raw(db: &mut Database, gid: &str) -> (r: Result<(), String>)
    ensures
        r is Ok ==> downloads_of(final(db).conn) == downloads_of(old(db).conn).remove(gid@),
        r is Err ==> downloads_of(final(db).conn) == downloads_of(old(db).conn),
        settings_of(final(db).conn) == settings_of(old(db).conn),
        trackers_of(final(db).conn) == trackers_of(old(db).conn),
        tracker_meta_of(final(db).conn) == tracker_meta_of(old(db).conn),
{
    match db.conn.execute("DELETE FROM downloads WHERE gid = ?1", (gid,)) {
        Ok(_) => Ok(()),
        Err(e) => Err(e.to_string()),
    }
}

/// Relies on `rusqlite::Connection::execute` running
/// `DELETE FROM downloads WHERE status = 'complete'`: exactly the rows whose
/// stored status is that text go; a failed statement changes nothing.
#[verifier::external_body]
fn delete_complete_rows_raw(db: &mut Database) -> (r: Result<(), String>)
    ensures
        r is Ok ==> ({
            let m = downloads_of(old(db).conn);
            downloads_of(final(db).conn) == m.remove_keys(
                m.dom().filter(|k: Seq<char>| m[k].status == "complete"@),
            )
        }),
        r is Err ==> downloads_of(final(db).conn) == downloads_of(old(db).conn),
        settings_of(final(db).conn) == settings_of(old(db).conn),
        trackers_of(final(db).conn) == trackers_of(old(db).conn),
        tracker_meta_of(final(db).conn) == tracker_meta_of(old(db).conn),
{
    match db.conn.execute("DELETE FROM downloads WHERE status = 'complete'", ()) {
        Ok(_) => Ok(()),
        Err(e) => Err(e.to_string()),
    }
}

/// Relies on `rusqlite::Connection::execute` running `INSERT OR REPLACE`
/// keyed by the settings primary key: the value is stored under the key; a
/// failed statement changes nothing.
#[verifier::external_body]
fn set_setting_raw(db: &mut Database, key: &str, value: &str) -> (r: Result<(), String>)
    ensures
        r is Ok ==> settings_of(final(db).conn) == settings_of(old(db).conn).insert(key@, value@),
        r is Err ==> settings_of(final(db).conn) == settings_of(old(db).conn),
        downloads_of(final(db).conn) == downloads_of(old(db).conn),
        trackers_of(final(db).conn) == trackers_of(old(db).conn),
        tracker_meta_of(final(db).conn) == tracker_meta_of(old(db).conn),
{
    match db.conn.execute(
        "INSERT OR REPLACE INTO settings (key, value, updated_at) VALUES (?1, ?2, CURRENT_TIMESTAMP)",
        (key, value),
    ) {
        Ok(_) => Ok(()),
        Err(e) => Err(e.to_string()),
    }
}

/// Relies on `rusqlite` prepare/query over `SELECT key, value FROM settings`:
/// every stored pair comes back exactly once (the key is the primary key).
#[verifier::external_body]
fn select_settings_raw(db: &Database) -> (r: Result<Vec<(String, String)>, String>)
    ensures
        r is Ok ==> ({
            let m = settings_of(db.conn);
            let ps = r->Ok_0@;
            &&& forall|i: int|
                0 <= i < ps.len() ==> m.contains_pair((#[trigger] ps[i]).0@, ps[i].1@)
            &&& forall|k: Seq<char>|
                #[trigger] m.dom().contains(k) ==> exists|i: int|
                    0 <= i < ps.len() && (#[trigger] ps[i]).0@ == k
        }),
{
    let mut stmt = db.conn.prepare("SELECT key, value FROM settings").map_err(|e| e.to_string())?;
    let rows = stmt.query_map([], |r| Ok((r.get(0)?, r.get(1)?))).map_err(|e| e.to_string())?
        .collect::<Result<Vec<(String, String)>, _>>().map_err(|e| e.to_string())?;
    Ok(rows)
}

/// Relies on `rusqlite::Transaction`: the delete, the inserts and the
/// timestamp update all commit together, and a transaction dropped before
/// `commit` rolls every statement back; so on failure the stored tracker
/// list and its timestamp are exactly what they were.
#[verifier::external_body]
fn replace_trackers_raw(db: &mut Database, trackers: &Vec<String>) -> (r: Result<(), String>)
    ensures
        r is Ok ==> trackers_of(final(db).conn) == trackers@.map_values(
            |t: String| (t@, true),
        ),
        r is Ok ==> tracker_meta_of(final(db).conn) is Some,
        r is Err ==> trackers_of(final(db).conn) == trackers_of(old(db).conn),
        r is Err ==> tracker_meta_of(final(db).conn) == tracker_meta_of(old(db).conn),
        downloads_of(final(db).conn) == downloads_of(old(db).conn),
        settings_of(final(db).conn) == settings_of(old(db).conn),
{
    let tx = db.conn.transaction().map_err(|e| e.to_string())?;
    tx.execute("DELETE FROM trackers", ()).map_err(|e| e.to_string())?;
    for t in trackers.iter() {
        tx.execute("INSERT INTO trackers (url, enabled) VALUES (?1, 1)", (t,)).map_err(|e| e.to_string())?;
    }
    tx.execute("UPDATE tracker_meta SET last_updated = CURRENT_TIMESTAMP WHERE id = 1", ()).map_err(|e| e.to_string())?;
    tx.commit().map_err(|e| e.to_string())
}

/// Relies on `rusqlite` prepare/query over `SELECT url, enabled FROM
/// trackers`: the stored rows come back in table order.  The table is only
/// ever rewritten whole inside one transaction, so a plain scan walks it in
/// insertion order.
#[verifier::external_body]
fn select_trackers_raw(db: &Database) -> (r: Result<Vec<(String, bool)>, String>)
    ensures
        r is Ok ==> r->Ok_0@.map_values(|p: (String, bool)| (p.0@, p.1)) == trackers_of(db.conn),
{
    let mut stmt = db.conn.prepare("SELECT url, enabled FROM trackers").map_err(
        |e| e.to_string(),
    )?;
    let rows = stmt.query_map([], |r| Ok((r.get(0)?, r.get(1)?))).map_err(|e| e.to_string())?
        .collect::<Result<Vec<(String, bool)>, _>>().map_err(|e| e.to_string())?;
    Ok(rows)
}

/// Relies on `rusqlite::Connection::query_row` over the single tracker_meta
/// row: the stored timestamp, or nothing where it is null or the row is
/// missing.
#[verifier::external_body]
fn select_meta_raw(db: &Database) -> (r: Result<Option<String>, String>)
    ensures
        r is Ok ==> ({
            let meta = tracker_meta_of(db.conn);
            (match r->Ok_0 {
                Some(s) => meta == Some(s@),
                None => meta is None,
            })
        }),
{
    let res: rusqlite::Result<Option<String>> = db.conn.query_row(
        "SELECT last_updated FROM tracker_meta WHERE id = 1",
        (),
        |row| row.get(0),
    );
    match res {
        Ok(v) => Ok(v),
        Err(rusqlite::Error::QueryReturnedNoRows) => Ok(None),
        Err(e) => Err(e.to_string()),
    }
}

// ---------------------------------------------------------------------------
// ordering
// ---------------------------------------------------------------------------

/// The key filtered reads order by: completion time for history, creation
/// time for everything else; a missing completion time sorts last.
pub open spec fn sort_key(d: Download, by_completed: bool) -> int {
    if by_completed {
        match d.completed_at {
            Some(t) => t as int,
            None => i64::MIN as int,
        }
    } else {
        d.created_at as int
    }
}

pub open spec fn sorted_desc(s: Seq<Download>, by_completed: bool) -> bool {
    forall|i: int, j: int|
        0 <= i < j < s.len() ==> sort_key(#[trigger] s[i], by_completed) >= sort_key(
            #[trigger] s[j],
            by_completed,
        )
}

fn key_of(d: &Download, by_completed: bool) -> (r: i64)
    ensures
        r as int == sort_key(*d, by_completed),
{
    if by_completed {
        match d.completed_at {
            Some(t) => t,
            None => i64::MIN,
        }
    } else {
        d.created_at
    }
}

/// Insertion sort, newest first.
fn sort_downloads_desc(v: &mut Vec<Download>, by_completed: bool)
    ensures
        final(v)@.len() == old(v)@.len(),
        final(v)@.to_multiset() == old(v)@.to_multiset(),
        sorted_desc(final(v)@, by_completed),
{
    broadcast use vstd::seq_lib::group_to_multiset_ensures;

    proof {
        if v@.len() >= 1 {
            assert(v@.take(1).len() == 1);
        }
    }
    let mut i: usize = 1;
    while i < v.len()
        invariant
            1 <= i,
            v@.len() == old(v)@.len(),
            v@.to_multiset() == old(v)@.to_multiset(),
            v@.len() >= 1 ==> i <= v@.len() && sorted_desc(v@.take(i as int), by_completed),
        decreases v@.len() - i,
    {
        let key_i = key_of(&v[i], by_completed);
        let mut k: usize = 0;
        while k < i && key_of(&v[k], by_completed) >= key_i
            invariant
                0 <= k <= i < v@.len(),
                key_i as int == sort_key(v@[i as int], by_completed),
                forall|m: int|
                    0 <= m < k ==> sort_key(#[trigger] v@[m], by_completed) >= key_i as int,
            decreases i - k,
        {
            k += 1;
        }
        if k < i {
            let ghost u = v@;
            let x = v.remove(i);
            v.insert(k, x);
            proof {
                assert(v@ =~= u.subrange(0, k as int) + seq![x] + u.subrange(k as int, i as int)
                    + u.subrange(i as int + 1, u.len() as int));
                assert(u =~= u.subrange(0, k as int) + u.subrange(k as int, i as int) + seq![x]
                    + u.subrange(i as int + 1, u.len() as int));
                lemma_concat_multiset(u, v@, u.subrange(0, k as int), seq![x], u.subrange(k as int, i as int), u.subrange(i as int + 1, u.len() as int));
                assert forall|a: int, b: int| 0 <= a < b < i + 1 implies sort_key(
                    #[trigger] v@[a],
                    by_completed,
                ) >= sort_key(#[trigger] v@[b], by_completed) by {
                    assert(sort_key(u[k as int], by_completed) < key_i);
                    assert(forall|m: int|
                        0 <= m < i ==> sort_key(#[trigger] u[m], by_completed) == sort_key(
                            u.take(i as int)[m],
                            by_completed,
                        ));
                }
                assert(sorted_desc(v@.take(i as int + 1), by_completed));
            }
        }
        i += 1;
    }
    proof {
        assert(v@.take(v@.len() as int) =~= v@);
        if v@.len() < 1 {
            assert(v@.to_multiset() =~= old(v)@.to_multiset());
        }
    }
}

/// Two arrangements of the same four blocks carry the same multiset.
proof fn lemma_concat_multiset(
    u: Seq<Download>,
    w: Seq<Download>,
    a: Seq<Download>,
    b: Seq<Download>,
    c: Seq<Download>,
    d: Seq<Download>,
)
    requires
        u == a + c + b + d,
        w == a + b + c + d,
    ensures
        u.to_multiset() == w.to_multiset(),
{
    broadcast use vstd::seq_lib::lemma_multiset_commutative;

    assert(u.to_multiset() =~= a.to_multiset().add(c.to_multiset()).add(b.to_multiset()).add(
        d.to_multiset(),
    )) by {
        assert((a + c + b).to_multiset() == (a + c).to_multiset().add(b.to_multiset()));
    }
    assert(w.to_multiset() =~= a.to_multiset().add(b.to_multiset()).add(c.to_multiset()).add(
        d.to_multiset(),
    )) by {
        assert((a + b + c).to_multiset() == (a + b).to_multiset().add(c.to_multiset()));
    }
}

/// Some record in `s` carries this gid.
pub open spec fn has_gid(s: Seq<Download>, g: Seq<char>) -> bool {
    exists|i: int| 0 <= i < s.len() && (#[trigger] s[i]).gid@ == g
}

/// Rearranging records keeps every per-record fact, keeps gids pairwise
/// distinct, and keeps the set of gids present.
proof fn lemma_permutation_elements(
    a: Seq<Download>,
    b: Seq<Download>,
    pred: spec_fn(Download) -> bool,
)
    requires
        a.to_multiset() == b.to_multiset(),
        forall|i: int| 0 <= i < a.len() ==> pred(#[trigger] a[i]),
        forall|i: int, j: int|
            0 <= i < a.len() && 0 <= j < a.len() && i != j ==> (#[trigger] a[i]).gid@ != (
            #[trigger] a[j]).gid@,
    ensures
        forall|i: int| 0 <= i < b.len() ==> pred(#[trigger] b[i]),
        forall|i: int, j: int|
            0 <= i < b.len() && 0 <= j < b.len() && i != j ==> (#[trigger] b[i]).gid@ != (
            #[trigger] b[j]).gid@,
        forall|g: Seq<char>| #[trigger] has_gid(a, g) == has_gid(b, g),
{
    broadcast use vstd::seq_lib::group_to_multiset_ensures;
    broadcast use vstd::multiset::group_multiset_axioms;

    assert forall|i: int| 0 <= i < b.len() implies pred(#[trigger] b[i]) by {
        assert(b.contains(b[i]));
        assert(b.to_multiset().count(b[i]) > 0);
        assert(a.to_multiset().count(b[i]) > 0);
        assert(a.contains(b[i]));
    }
    assert(a.no_duplicates());
    a.lemma_multiset_has_no_duplicates();
    assert forall|i: int, j: int|
        0 <= i < b.len() && 0 <= j < b.len() && i != j implies (#[trigger] b[i]).gid@ != (
    #[trigger] b[j]).gid@ by {
        if b[i] == b[j] {
            let v = b[i];
            assert(b.remove(i).to_multiset() == b.to_multiset().remove(v));
            if i < j {
                assert(b.remove(i)[j - 1] == v);
                assert(b.remove(i).contains(v));
            } else {
                assert(b.remove(i)[j] == v);
                assert(b.remove(i).contains(v));
            }
            assert(b.remove(i).to_multiset().count(v) > 0);
            assert(b.remove(i).to_multiset() == b.to_multiset().remove(v));
            assert(b.to_multiset().count(v) >= 2);
            assert(a.to_multiset().count(v) <= 1);
            assert(false);
        } else {
            assert(b.contains(b[i]));
            assert(b.contains(b[j]));
            assert(b.to_multiset().count(b[i]) > 0);
            assert(b.to_multiset().count(b[j]) > 0);
            assert(a.to_multiset().count(b[i]) > 0);
            assert(a.to_multiset().count(b[j]) > 0);
            assert(a.contains(b[i]));
            assert(a.contains(b[j]));
            let ia = choose|ia: int| 0 <= ia < a.len() && a[ia] == b[i];
            let ja = choose|ja: int| 0 <= ja < a.len() && a[ja] == b[j];
            assert(ia != ja);
        }
    }
    assert forall|g: Seq<char>| #[trigger] has_gid(a, g) == has_gid(b, g) by {
        if has_gid(a, g) {
            let i = choose|i: int| 0 <= i < a.len() && (#[trigger] a[i]).gid@ == g;
            assert(a.contains(a[i]));
            assert(a.to_multiset().count(a[i]) > 0);
            assert(b.to_multiset().count(a[i]) > 0);
            assert(b.contains(a[i]));
            let j = choose|j: int| 0 <= j < b.len() && b[j] == a[i];
            assert(has_gid(b, g));
        }
        if has_gid(b, g) {
            let i = choose|i: int| 0 <= i < b.len() && (#[trigger] b[i]).gid@ == g;
            assert(b.contains(b[i]));
            assert(b.to_multiset().count(b[i]) > 0);
            assert(a.to_multiset().count(b[i]) > 0);
            assert(a.contains(b[i]));
            let j = choose|j: int| 0 <= j < a.len() && a[j] == b[i];
            assert(has_gid(a, g));
        }
    }
}

/// Records with pairwise-distinct gids that cover a set of gids exactly are
/// as many as the set has members.
proof fn lemma_gid_count(out: Seq<Download>, s: Set<Seq<char>>)
    requires
        s.finite(),
        forall|i: int| 0 <= i < out.len() ==> s.contains((#[trigger] out[i]).gid@),
        forall|i: int, j: int|
            0 <= i < out.len() && 0 <= j < out.len() && i != j ==> (#[trigger] out[i]).gid@ != (
            #[trigger] out[j]).gid@,
        forall|k: Seq<char>| #[trigger] s.contains(k) ==> has_gid(out, k),
    ensures
        out.len() == s.len(),
    decreases out.len(),
{
    if out.len() == 0 {
        assert forall|k: Seq<char>| !(#[trigger] s.contains(k)) by {
            if s.contains(k) {
                assert(has_gid(out, k));
                let i = choose|i: int| 0 <= i < out.len() && (#[trigger] out[i]).gid@ == k;
                assert(false);
            }
        }
        assert(s =~= Set::<Seq<char>>::empty());
    } else {
        let g = out.last().gid@;
        let rest = out.drop_last();
        assert(s.contains(g));
        assert forall|k: Seq<char>| #[trigger] s.remove(g).contains(k) implies has_gid(
            rest,
            k,
        ) by {
            assert(s.contains(k));
            let i = choose|i: int| 0 <= i < out.len() && (#[trigger] out[i]).gid@ == k;
            assert(i != out.len() - 1);
            assert(rest[i] == out[i]);
            assert(has_gid(rest, k));
        }
        assert forall|i: int| 0 <= i < rest.len() implies s.remove(g).contains(
            (#[trigger] rest[i]).gid@,
        ) by {
            assert(rest[i] == out[i]);
            assert(out[i].gid@ != g);
        }
        lemma_gid_count(rest, s.remove(g));
    }
}

fn len_exceeds(n: usize, limit: i64) -> (r: bool)
    requires
        limit >= 0,
    ensures
        r == (n > limit),
{
    (n as u128) > (limit as u128)
}

/// The stored status text of a finished transfer, exactly as the filtered
/// statements compare it.
pub open spec fn row_is_complete(rv: RowV) -> bool {
    rv.status == "complete"@
}

/// A stored row that is neither complete nor removed.
pub open spec fn row_is_incomplete(rv: RowV) -> bool {
    rv.status != "complete"@ && rv.status != "removed"@
}

/// The ordering key of a stored completed row: its completion time, with a
/// missing one ranked last.
pub open spec fn completed_key(rv: RowV) -> int {
    match rv.completed_at {
        Some(t) => t,
        None => i64::MIN as int,
    }
}

pub open spec fn row_matches(rv: RowV, want_complete: bool) -> bool {
    if want_complete {
        row_is_complete(rv)
    } else {
        row_is_incomplete(rv)
    }
}

/// Decode the rows whose stored status passes the filter, in row order.
fn decode_matching(rows: Vec<StoredRow>, want_complete: bool, Ghost(m): Ghost<Map<Seq<char>, RowV>>) -> (
    out: Vec<Download>)
    requires
        forall|i: int|
            0 <= i < rows@.len() ==> m.contains_pair((#[trigger] rows@[i]).gid@, row_view(rows@[i])),
        forall|i: int, j: int|
            0 <= i < rows@.len() && 0 <= j < rows@.len() && i != j ==> (#[trigger] rows@[i]).gid@
                != (#[trigger] rows@[j]).gid@,
        forall|k: Seq<char>|
            #[trigger] m.dom().contains(k) ==> exists|i: int|
                0 <= i < rows@.len() && (#[trigger] rows@[i]).gid@ == k,
    ensures
        forall|i: int|
            0 <= i < out@.len() ==> m.contains_key((#[trigger] out@[i]).gid@) && row_matches(
                m[out@[i].gid@],
                want_complete,
            ) && decoded_from(out@[i], m[out@[i].gid@]),
        forall|i: int, j: int|
            0 <= i < out@.len() && 0 <= j < out@.len() && i != j ==> (#[trigger] out@[i]).gid@ != (
            #[trigger] out@[j]).gid@,
        forall|k: Seq<char>|
            m.contains_key(k) && row_matches(#[trigger] m[k], want_complete) ==> has_gid(out@, k),
{
    let ghost orig = rows@;
    let mut rest = rows;
    let mut out: Vec<Download> = Vec::new();
    while rest.len() > 0
        invariant
            out@.len() <= orig.len() - rest@.len(),
            rest@.len() <= orig.len(),
            rest@ =~= orig.subrange(orig.len() - rest@.len(), orig.len() as int),
            forall|i: int|
                0 <= i < orig.len() ==> m.contains_pair(
                    (#[trigger] orig[i]).gid@,
                    row_view(orig[i]),
                ),
            forall|i: int, j: int|
                0 <= i < orig.len() && 0 <= j < orig.len() && i != j ==> (#[trigger] orig[i]).gid@
                    != (#[trigger] orig[j]).gid@,
            forall|i: int|
                0 <= i < out@.len() ==> m.contains_key((#[trigger] out@[i]).gid@) && row_matches(
                    m[out@[i].gid@],
                    want_complete,
                ) && decoded_from(out@[i], m[out@[i].gid@]),
            forall|i: int|
                0 <= i < out@.len() ==> exists|j: int|
                    0 <= j < orig.len() - rest@.len() && (#[trigger] out@[i]).gid@ == (
                    #[trigger] orig[j]).gid@,
            forall|i: int, j: int|
                0 <= i < out@.len() && 0 <= j < out@.len() && i != j ==> (
                #[trigger] out@[i]).gid@ != (#[trigger] out@[j]).gid@,
            forall|j: int|
                0 <= j < orig.len() - rest@.len() && row_matches(
                    row_view(#[trigger] orig[j]),
                    want_complete,
                ) ==> has_gid(out@, orig[j].gid@),
        decreases rest@.len(),
    {
        let ghost p = orig.len() - rest@.len();
        let row = rest.remove(0);
        proof {
            assert(row == orig[p]);
            assert(rest@ =~= orig.subrange(orig.len() - rest@.len(), orig.len() as int));
        }
        let is_complete = eq_str(row.status.as_str(), "complete");
        let is_removed = eq_str(row.status.as_str(), "removed");
        let keep = if want_complete {
            is_complete
        } else {
            !is_complete && !is_removed
        };
        proof {
            reveal_strlit("complete");
            reveal_strlit("removed");
            assert(keep == row_matches(row_view(row), want_complete));
        }
        if keep {
            let ghost old_out = out@;
            let d = crate::row::decode_row(row);
            out.push(d);
            proof {
                assert(m.contains_pair(orig[p].gid@, row_view(orig[p])));
                assert(d.gid@ == orig[p].gid@);
                assert(out@[out@.len() - 1].gid@ == orig[p].gid@);
                assert(has_gid(out@, orig[p].gid@));
                assert forall|j: int|
                    0 <= j < orig.len() - rest@.len() && row_matches(
                        row_view(#[trigger] orig[j]),
                        want_complete,
                    ) implies has_gid(out@, orig[j].gid@) by {
                    if j < p {
                        assert(has_gid(old_out, orig[j].gid@));
                        let w = choose|w: int|
                            0 <= w < old_out.len() && (#[trigger] old_out[w]).gid@ == orig[j].gid@;
                        assert(out@[w].gid@ == orig[j].gid@);
                    }
                }
            }
        } else {
            proof {
                assert forall|j: int|
                    0 <= j < orig.len() - rest@.len() && row_matches(
                        row_view(#[trigger] orig[j]),
                        want_complete,
                    ) implies has_gid(out@, orig[j].gid@) by {
                    assert(j != p);
                }
            }
        }
    }
    proof {
        assert forall|k: Seq<char>|
            m.contains_key(k) && row_matches(#[trigger] m[k], want_complete) implies has_gid(
            out@,
            k,
        ) by {
            assert(m.dom().contains(k));
            let i = choose|i: int| 0 <= i < orig.len() && (#[trigger] orig[i]).gid@ == k;
            assert(m.contains_pair(orig[i].gid@, row_view(orig[i])));
            assert(row_view(orig[i]) == m[k]);
        }
    }
    out
}

// ---------------------------------------------------------------------------
// download records
// ---------------------------------------------------------------------------

/// Operations on stored download records.
pub struct DownloadsDb;

impl DownloadsDb {
    /// Persist a record: an upsert keyed by gid, overwriting any earlier
    /// row with the same gid.  Returns the storage row id.
    pub fn save(db: &mut Database, download: &Download) -> (r: Result<i64, FetchError>)
        ensures
            r is Ok ==> final(db).downloads() == old(db).downloads().insert(
                download.gid@,
                record_row(*download),
            ),
            r is Err ==> final(db).downloads() == old(db).downloads() && r->Err_0 is Database,
            final(db).settings() == old(db).settings(),
            final(db).trackers() == old(db).trackers(),
            final(db).tracker_meta() == old(db).tracker_meta(),
    {
        let row = encode_row(download);
        match upsert_row_raw(db, &row) {
            Ok(id) => Ok(id),
            Err(m) => Err(FetchError::Database(m)),
        }
    }

    /// The stored completed records, newest completion first, at most
    /// `limit` of them (a negative limit means no bound, as the store reads
    /// it).  Whenever the bound does not bite, every completed record is
    /// there; when it does, every record kept completed no earlier than any
    /// record dropped.
    pub fn get_completed(db: &Database, limit: i64) -> (r: Result<Vec<Download>, FetchError>)
        ensures
            r is Ok ==> ({
                let out = r->Ok_0@;
                let m = db.downloads();
                &&& forall|i: int|
                    0 <= i < out.len() ==> m.contains_key((#[trigger] out[i]).gid@)
                        && row_is_complete(m[out[i].gid@]) && decoded_from(out[i], m[out[i].gid@])
                &&& forall|i: int, j: int|
                    0 <= i < out.len() && 0 <= j < out.len() && i != j ==> (
                    #[trigger] out[i]).gid@ != (#[trigger] out[j]).gid@
                &&& sorted_desc(out, true)
                &&& limit >= 0 ==> out.len() <= limit
                &&& (limit < 0 || out.len() < limit) ==> (forall|k: Seq<char>|
                    m.contains_key(k) && row_is_complete(#[trigger] m[k]) ==> has_gid(out, k))
                &&& forall|k: Seq<char>, i: int|
                    #![trigger m[k], out[i]]
                    m.contains_key(k) && row_is_complete(m[k]) && !has_gid(out, k) && 0 <= i
                        < out.len() ==> sort_key(out[i], true) >= completed_key(m[k])
            }),
            r is Err ==> r->Err_0 is Database,
    {
        let rows = match select_rows_raw(db) {
            Ok(rows) => rows,
            Err(m) => {
                return Err(FetchError::Database(m));
            },
        };
        let ghost m = db.downloads();
        let mut out = decode_matching(rows, true, Ghost(m));
        let ghost pre = out@;
        sort_downloads_desc(&mut out, true);
        proof {
            lemma_permutation_elements(
                pre,
                out@,
                |d: Download| m.contains_key(d.gid@) && row_is_complete(m[d.gid@])
                    && decoded_from(d, m[d.gid@]),
            );
        }
        let ghost full = out@;
        if limit >= 0 {
            while len_exceeds(out.len(), limit)
                invariant
                    limit >= 0,
                    out@.len() <= full.len(),
                    out@ =~= full.take(out@.len() as int),
                    out@.len() >= limit || out@ == full,
                decreases out@.len(),
            {
                let ghost before = out@;
                out.pop();
                proof {
                    assert(out@ =~= before.drop_last());
                    assert(out@ =~= full.take(out@.len() as int));
                }
            }
            proof {
                assert forall|i: int| 0 <= i < out@.len() implies full[i] == out@[i] by {
                    assert(out@[i] == full.take(out@.len() as int)[i]);
                }
            }
        }
        proof {
            assert forall|k: Seq<char>, i: int|
                #![trigger m[k], out@[i]]
                m.contains_key(k) && row_is_complete(m[k]) && !has_gid(out@, k) && 0 <= i
                    < out@.len() implies sort_key(out@[i], true) >= completed_key(m[k]) by {
                assert(has_gid(full, k));
                let j = choose|j: int| 0 <= j < full.len() && (#[trigger] full[j]).gid@ == k;
                if j < out@.len() {
                    assert(out@[j] == full[j]);
                    assert(has_gid(out@, k));
                }
                assert(out@[i] == full[i]);
                assert(sort_key(full[i], true) >= sort_key(full[j], true));
                assert(decoded_from(full[j], m[full[j].gid@]));
                assert(sort_key(full[j], true) == completed_key(m[k]));
            }
        }
        Ok(out)
    }

    /// The stored records that are neither complete nor removed — the ones
    /// the restoration procedure considers — newest creation first.
    pub fn get_incomplete(db: &Database) -> (r: Result<Vec<Download>, FetchError>)
        ensures
            r is Ok ==> ({
                let out = r->Ok_0@;
                let m = db.downloads();
                &&& forall|i: int|
                    0 <= i < out.len() ==> m.contains_key((#[trigger] out[i]).gid@)
                        && row_is_incomplete(m[out[i].gid@]) && decoded_from(
                        out[i],
                        m[out[i].gid@],
                    )
                &&& forall|i: int, j: int|
                    0 <= i < out.len() && 0 <= j < out.len() && i != j ==> (
                    #[trigger] out[i]).gid@ != (#[trigger] out[j]).gid@
                &&& sorted_desc(out, false)
                &&& forall|k: Seq<char>|
                    m.contains_key(k) && row_is_incomplete(#[trigger] m[k]) ==> has_gid(out, k)
            }),
            r is Err ==> r->Err_0 is Database,
    {
        let rows = match select_rows_raw(db) {
            Ok(rows) => rows,
            Err(m) => {
                return Err(FetchError::Database(m));
            },
        };
        let ghost m = db.downloads();
        let mut out = decode_matching(rows, false, Ghost(m));
        let ghost pre = out@;
        sort_downloads_desc(&mut out, false);
        proof {
            lemma_permutation_elements(
                pre,
                out@,
                |d: Download| m.contains_key(d.gid@) && row_is_incomplete(m[d.gid@])
                    && decoded_from(d, m[d.gid@]),
            );
        }
        Ok(out)
    }

    /// Rewrite the stored lifecycle state of one record; a gid nothing is
    /// stored under changes nothing and still succeeds, as the underlying
    /// update statement does.
    pub fn update_status(db: &mut Database, gid: &str, status: DownloadState) -> (r: Result<
        (),
        FetchError,
    >)
        ensures
            r is Ok ==> final(db).downloads() == (if old(db).downloads().contains_key(gid@) {
                old(db).downloads().insert(
                    gid@,
                    (RowV { status: state_code(status), ..old(db).downloads()[gid@] }),
                )
            } else {
                old(db).downloads()
            }),
            r is Err ==> final(db).downloads() == old(db).downloads() && r->Err_0 is Database,
            final(db).settings() == old(db).settings(),
            final(db).trackers() == old(db).trackers(),
            final(db).tracker_meta() == old(db).tracker_meta(),
    {
        let mut rows = match select_rows_raw(db) {
            Ok(rows) => rows,
            Err(m) => {
                return Err(FetchError::Database(m));
            },
        };
        let ghost m = db.downloads();
        let mut i: usize = 0;
        while i < rows.len()
            invariant
                0 <= i <= rows@.len(),
                m == db.downloads(),
                *db == *old(db),
                forall|k: int| 0 <= k < i ==> (#[trigger] rows@[k]).gid@ != gid@,
                forall|k: int|
                    0 <= k < rows@.len() ==> m.contains_pair(
                        (#[trigger] rows@[k]).gid@,
                        row_view(rows@[k]),
                    ),
                forall|k: Seq<char>|
                    #[trigger] m.dom().contains(k) ==> exists|j: int|
                        0 <= j < rows@.len() && (#[trigger] rows@[j]).gid@ == k,
            decreases rows@.len() - i,
        {
            if eq_str(rows[i].gid.as_str(), gid) {
                let mut row = rows.remove(i);
                row.status = String::from_str(status.as_str());
                proof {
                    assert(row_view(row) == (RowV { status: state_code(status), ..m[gid@] }));
                }
                return match upsert_row_raw(db, &row) {
                    Ok(_) => Ok(()),
                    Err(e) => Err(FetchError::Database(e)),
                };
            }
            i += 1;
        }
        proof {
            if m.dom().contains(gid@) {
                let j = choose|j: int| 0 <= j < rows@.len() && (#[trigger] rows@[j]).gid@ == gid@;
                assert(false);
            }
        }
        Ok(())
    }

    /// Mark one record finished: state complete, with its completion time.
    /// A gid nothing is stored under changes nothing.
    pub fn mark_completed(db: &mut Database, gid: &str, completed_at: i64) -> (r: Result<
        (),
        FetchError,
    >)
        ensures
            r is Ok ==> final(db).downloads() == (if old(db).downloads().contains_key(gid@) {
                old(db).downloads().insert(
                    gid@,
                    (RowV {
                        status: "complete"@,
                        completed_at: Some(completed_at as int),
                        ..old(db).downloads()[gid@]
                    }),
                )
            } else {
                old(db).downloads()
            }),
            r is Err ==> final(db).downloads() == old(db).downloads() && r->Err_0 is Database,
            final(db).settings() == old(db).settings(),
            final(db).trackers() == old(db).trackers(),
            final(db).tracker_meta() == old(db).tracker_meta(),
    {
        let mut rows = match select_rows_raw(db) {
            Ok(rows) => rows,
            Err(m) => {
                return Err(FetchError::Database(m));
            },
        };
        let ghost m = db.downloads();
        let mut i: usize = 0;
        while i < rows.len()
            invariant
                0 <= i <= rows@.len(),
                m == db.downloads(),
                *db == *old(db),
                forall|k: int| 0 <= k < i ==> (#[trigger] rows@[k]).gid@ != gid@,
                forall|k: int|
                    0 <= k < rows@.len() ==> m.contains_pair(
                        (#[trigger] rows@[k]).gid@,
                        row_view(rows@[k]),
                    ),
                forall|k: Seq<char>|
                    #[trigger] m.dom().contains(k) ==> exists|j: int|
                        0 <= j < rows@.len() && (#[trigger] rows@[j]).gid@ == k,
            decreases rows@.len() - i,
        {
            if eq_str(rows[i].gid.as_str(), gid) {
                let mut row = rows.remove(i);
                row.status = String::from_str("complete");
                row.completed_at = Some(completed_at);
                proof {
                    assert(row_view(row) == (RowV {
                        status: "complete"@,
                        completed_at: Some(completed_at as int),
                        ..m[gid@]
                    }));
                }
                return match upsert_row_raw(db, &row) {
                    Ok(_) => Ok(()),
                    Err(e) => Err(FetchError::Database(e)),
                };
            }
            i += 1;
        }
        proof {
            if m.dom().contains(gid@) {
                let j = choose|j: int| 0 <= j < rows@.len() && (#[trigger] rows@[j]).gid@ == gid@;
                assert(false);
            }
        }
        Ok(())
    }

    /// Forget one record.
    pub fn delete(db: &mut Database, gid: &str) -> (r: Result<(), FetchError>)
        ensures
            r is Ok ==> final(db).downloads() == old(db).downloads().remove(gid@),
            r is Err ==> final(db).downloads() == old(db).downloads() && r->Err_0 is Database,
            final(db).settings() == old(db).settings(),
            final(db).trackers() == old(db).trackers(),
            final(db).tracker_meta() == old(db).tracker_meta(),
    {
        match delete_row_raw(db, gid) {
            Ok(()) => Ok(()),
            Err(m) => Err(FetchError::Database(m)),
        }
    }

    /// Forget every completed record, in one statement.
    pub fn clear_history(db: &mut Database) -> (r: Result<(), FetchError>)
        ensures
            r is Ok ==> final(db).downloads() == old(db).downloads().remove_keys(
                old(db).downloads().dom().filter(
                    |k: Seq<char>| row_is_complete(old(db).downloads()[k]),
                ),
            ),
            r is Err ==> final(db).downloads() == old(db).downloads() && r->Err_0 is Database,
            final(db).settings() == old(db).settings(),
            final(db).trackers() == old(db).trackers(),
            final(db).tracker_meta() == old(db).tracker_meta(),
    {
        match delete_complete_rows_raw(db) {
            Ok(()) => Ok(()),
            Err(m) => Err(FetchError::Database(m)),
        }
    }

    /// How many completed records the store holds.
    pub fn count_completed(db: &Database) -> (r: Result<i64, FetchError>)
        ensures
            r is Ok ==> ({
                let n = db.downloads().dom().filter(
                    |k: Seq<char>| row_is_complete(db.downloads()[k]),
                ).len();
                r->Ok_0 >= 0 && (n <= i64::MAX ==> r->Ok_0 == n)
            }),
            r is Err ==> r->Err_0 is Database,
    {
        let rows = match select_rows_raw(db) {
            Ok(rows) => rows,
            Err(m) => {
                return Err(FetchError::Database(m));
            },
        };
        let ghost m = db.downloads();
        let out = decode_matching(rows, true, Ghost(m));
        proof {
            let s = m.dom().filter(|k: Seq<char>| row_is_complete(m[k]));
            vstd::set_lib::lemma_len_subset(s, m.dom());
            assert forall|i: int| 0 <= i < out@.len() implies s.contains(
                (#[trigger] out@[i]).gid@,
            ) by {}
            assert forall|k: Seq<char>| #[trigger] s.contains(k) implies has_gid(out@, k) by {}
            lemma_gid_count(out@, s);
        }
        if (out.len() as u128) <= (i64::MAX as u128) {
            Ok(out.len() as i64)
        } else {
            Ok(i64::MAX)
        }
    }

    /// The stored record with this gid, if one exists.
    pub fn get_by_gid(db: &Database, gid: &str) -> (r: Result<Option<Download>, FetchError>)
        ensures
            r is Ok ==> (r->Ok_0 is Some <==> db.downloads().contains_key(gid@)),
            r is Ok && r->Ok_0 is Some ==> decoded_from(r->Ok_0->Some_0, db.downloads()[gid@]),
            r is Err ==> r->Err_0 is Database,
    {
        let mut rows = match select_rows_raw(db) {
            Ok(rows) => rows,
            Err(m) => {
                return Err(FetchError::Database(m));
            },
        };
        let ghost m = db.downloads();
        let mut i: usize = 0;
        while i < rows.len()
            invariant
                0 <= i <= rows@.len(),
                m == db.downloads(),
                forall|k: int| 0 <= k < i ==> (#[trigger] rows@[k]).gid@ != gid@,
                forall|k: int|
                    0 <= k < rows@.len() ==> m.contains_pair(
                        (#[trigger] rows@[k]).gid@,
                        row_view(rows@[k]),
                    ),
                forall|k: Seq<char>|
                    #[trigger] m.dom().contains(k) ==> exists|j: int|
                        0 <= j < rows@.len() && (#[trigger] rows@[j]).gid@ == k,
            decreases rows@.len() - i,
        {
            if eq_str(rows[i].gid.as_str(), gid) {
                let row = rows.remove(i);
                let d = crate::row::decode_row(row);
                return Ok(Some(d));
            }
            i += 1;
        }
        proof {
            if m.dom().contains(gid@) {
                let j = choose|j: int| 0 <= j < rows@.len() && (#[trigger] rows@[j]).gid@ == gid@;
                assert(false);
            }
        }
        Ok(None)
    }
}

/// The store's text filters agree with the lifecycle states: a persisted
/// record passes the completed filter exactly when its state is Complete,
/// and the incomplete filter exactly when its state is neither Complete nor
/// Removed — the records the restoration procedure considers.
pub proof fn lemma_stored_state_filters(d: Download)
    ensures
        row_is_complete(crate::row::record_row(d)) == (d.status == DownloadState::Complete),
        row_is_incomplete(crate::row::record_row(d)) == crate::types::is_incomplete(d.status),
{
    reveal_strlit("active");
    reveal_strlit("waiting");
    reveal_strlit("paused");
    reveal_strlit("complete");
    reveal_strlit("error");
    reveal_strlit("removed");
    assert("complete"@[0] == 'c');
    assert("removed"@[0] == 'r');
    match d.status {
        DownloadState::Waiting => {
            assert(state_code(d.status)[0] == 'w');
            assert(state_code(d.status) != "complete"@);
            assert(state_code(d.status) != "removed"@);
        },
        DownloadState::Removed => {
            assert(state_code(d.status)[0] == 'r');
            assert(state_code(d.status) != "complete"@);
        },
        DownloadState::Active => {
            assert(state_code(d.status)[0] == 'a');
            assert(state_code(d.status) != "complete"@);
            assert(state_code(d.status) != "removed"@);
        },
        DownloadState::Paused => {
            assert(state_code(d.status)[0] == 'p');
            assert(state_code(d.status) != "complete"@);
            assert(state_code(d.status) != "removed"@);
        },
        DownloadState::Error => {
            assert(state_code(d.status)[0] == 'e');
            assert(state_code(d.status) != "complete"@);
            assert(state_code(d.status) != "removed"@);
        },
        DownloadState::Complete => {
            assert(state_code(d.status)[0] == 'c');
            assert(state_code(d.status) == "complete"@);
            assert(state_code(d.status) != "removed"@);
        },
    }
}

/// Saving is idempotent per gid: a second save under the same gid leaves
/// exactly one row for it, holding the latest values.
pub proof fn lemma_save_twice(m: Map<Seq<char>, RowV>, g: Seq<char>, r1: RowV, r2: RowV)
    ensures
        m.insert(g, r1).insert(g, r2) == m.insert(g, r2),
        m.insert(g, r1).insert(g, r2).dom() == m.dom().insert(g),
        m.insert(g, r1).insert(g, r2)[g] == r2,
{
    assert(m.insert(g, r1).insert(g, r2) =~= m.insert(g, r2));
    assert(m.insert(g, r1).insert(g, r2).dom() =~= m.dom().insert(g));
}

// ---------------------------------------------------------------------------
// settings
// ---------------------------------------------------------------------------

/// A numeric setting: the stored value if it parses (and fits), else the
/// hardcoded default.
pub open spec fn u32_setting(m: Map<Seq<char>, Seq<char>>, key: Seq<char>, default: u32) -> u32 {
    if m.contains_key(key) {
        match crate::options::numeral_value(m[key]) {
            Some(v) => if v <= u32::MAX {
                v as u32
            } else {
                default
            },
            None => default,
        }
    } else {
        default
    }
}

pub open spec fn u64_setting(m: Map<Seq<char>, Seq<char>>, key: Seq<char>, default: u64) -> u64 {
    if m.contains_key(key) {
        match crate::options::numeral_value(m[key]) {
            Some(v) => v,
            None => default,
        }
    } else {
        default
    }
}

/// A boolean setting: true exactly when the stored text is `true`.
pub open spec fn bool_setting(m: Map<Seq<char>, Seq<char>>, key: Seq<char>, default: bool) -> bool {
    if m.contains_key(key) {
        m[key] == "true"@
    } else {
        default
    }
}

pub open spec fn str_setting(
    m: Map<Seq<char>, Seq<char>>,
    key: Seq<char>,
    default: Seq<char>,
) -> Seq<char> {
    if m.contains_key(key) {
        m[key]
    } else {
        default
    }
}

/// A decimal setting kept as text: the stored value when it matches the
/// number grammar the engine parses, else the hardcoded default.
pub open spec fn float_setting(
    m: Map<Seq<char>, Seq<char>>,
    key: Seq<char>,
    default: Seq<char>,
) -> Seq<char> {
    if m.contains_key(key) && crate::text::is_float_text(m[key]) {
        m[key]
    } else {
        default
    }
}

/// A leading `~` or `~/` in a stored path stands for the home directory.
pub open spec fn expand_home_spec(v: Seq<char>, home: Option<Seq<char>>) -> Seq<char> {
    match home {
        Some(h) => if v.len() >= 2 && v[0] == '~' && v[1] == '/' {
            h + "/"@ + v.subrange(2, v.len() as int)
        } else if v == "~"@ {
            h
        } else {
            v
        },
        None => v,
    }
}

fn expand_home(value: String, home: Option<&str>) -> (r: String)
    ensures
        r@ == expand_home_spec(
            value@,
            (match home {
                Some(h) => Some(h@),
                None => None,
            }),
        ),
{
    let h = match home {
        Some(h) => h,
        None => {
            return value;
        },
    };
    let n = value.as_str().unicode_len();
    proof {
        reveal_strlit("~");
    }
    if n >= 2 && value.as_str().get_char(0) == '~' && value.as_str().get_char(1) == '/' {
        let mut out = String::from_str(h);
        out.append("/");
        out.append(value.as_str().substring_char(2, n));
        proof {
            reveal_strlit("/");
            assert(out@ =~= h@ + "/"@ + value@.subrange(2, value@.len() as int));
        }
        out
    } else if n == 1 && value.as_str().get_char(0) == '~' {
        proof {
            assert(value@ =~= "~"@);
        }
        String::from_str(h)
    } else {
        proof {
            if value@ == "~"@ {
                assert(value@.len() == 1 && value@[0] == '~');
                assert(false);
            }
        }
        value
    }
}

fn setting_lookup(
    pairs: &Vec<(String, String)>,
    key: &str,
    Ghost(m): Ghost<Map<Seq<char>, Seq<char>>>,
) -> (r: Option<String>)
    requires
        forall|i: int|
            0 <= i < pairs@.len() ==> m.contains_pair((#[trigger] pairs@[i]).0@, pairs@[i].1@),
        forall|k: Seq<char>|
            #[trigger] m.dom().contains(k) ==> exists|i: int|
                0 <= i < pairs@.len() && (#[trigger] pairs@[i]).0@ == k,
    ensures
        r is Some <==> m.contains_key(key@),
        r is Some ==> r->Some_0@ == m[key@],
{
    let mut i: usize = 0;
    while i < pairs.len()
        invariant
            0 <= i <= pairs@.len(),
            forall|k: int| 0 <= k < i ==> (#[trigger] pairs@[k]).0@ != key@,
            forall|k: int|
                0 <= k < pairs@.len() ==> m.contains_pair((#[trigger] pairs@[k]).0@, pairs@[k].1@),
            forall|k: Seq<char>|
                #[trigger] m.dom().contains(k) ==> exists|j: int|
                    0 <= j < pairs@.len() && (#[trigger] pairs@[j]).0@ == k,
        decreases pairs@.len() - i,
    {
        if eq_str(pairs[i].0.as_str(), key) {
            return Some(pairs[i].1.clone());
        }
        i += 1;
    }
    proof {
        if m.dom().contains(key@) {
            let j = choose|j: int| 0 <= j < pairs@.len() && (#[trigger] pairs@[j]).0@ == key@;
            assert(false);
        }
    }
    None
}

fn u32_from(
    pairs: &Vec<(String, String)>,
    key: &str,
    default: u32,
    Ghost(m): Ghost<Map<Seq<char>, Seq<char>>>,
) -> (r: u32)
    requires
        forall|i: int|
            0 <= i < pairs@.len() ==> m.contains_pair((#[trigger] pairs@[i]).0@, pairs@[i].1@),
        forall|k: Seq<char>|
            #[trigger] m.dom().contains(k) ==> exists|i: int|
                0 <= i < pairs@.len() && (#[trigger] pairs@[i]).0@ == k,
    ensures
        r == u32_setting(m, key@, default),
{
    match setting_lookup(pairs, key, Ghost(m)) {
        Some(v) => match crate::text::parse_u64(v.as_str()) {
            Some(n) => if n <= u32::MAX as u64 {
                n as u32
            } else {
                default
            },
            None => default,
        },
        None => default,
    }
}

fn u64_from(
    pairs: &Vec<(String, String)>,
    key: &str,
    default: u64,
    Ghost(m): Ghost<Map<Seq<char>, Seq<char>>>,
) -> (r: u64)
    requires
        forall|i: int|
            0 <= i < pairs@.len() ==> m.contains_pair((#[trigger] pairs@[i]).0@, pairs@[i].1@),
        forall|k: Seq<char>|
            #[trigger] m.dom().contains(k) ==> exists|i: int|
                0 <= i < pairs@.len() && (#[trigger] pairs@[i]).0@ == k,
    ensures
        r == u64_setting(m, key@, default),
{
    match setting_lookup(pairs, key, Ghost(m)) {
        Some(v) => match crate::text::parse_u64(v.as_str()) {
            Some(n) => n,
            None => default,
        },
        None => default,
    }
}

fn bool_from(
    pairs: &Vec<(String, String)>,
    key: &str,
    default: bool,
    Ghost(m): Ghost<Map<Seq<char>, Seq<char>>>,
) -> (r: bool)
    requires
        forall|i: int|
            0 <= i < pairs@.len() ==> m.contains_pair((#[trigger] pairs@[i]).0@, pairs@[i].1@),
        forall|k: Seq<char>|
            #[trigger] m.dom().contains(k) ==> exists|i: int|
                0 <= i < pairs@.len() && (#[trigger] pairs@[i]).0@ == k,
    ensures
        r == bool_setting(m, key@, default),
{
    match setting_lookup(pairs, key, Ghost(m)) {
        Some(v) => eq_str(v.as_str(), "true"),
        None => default,
    }
}

fn string_from(
    pairs: &Vec<(String, String)>,
    key: &str,
    default: String,
    Ghost(m): Ghost<Map<Seq<char>, Seq<char>>>,
) -> (r: String)
    requires
        forall|i: int|
            0 <= i < pairs@.len() ==> m.contains_pair((#[trigger] pairs@[i]).0@, pairs@[i].1@),
        forall|k: Seq<char>|
            #[trigger] m.dom().contains(k) ==> exists|i: int|
                0 <= i < pairs@.len() && (#[trigger] pairs@[i]).0@ == k,
    ensures
        r@ == str_setting(m, key@, default@),
{
    match setting_lookup(pairs, key, Ghost(m)) {
        Some(v) => v,
        None => default,
    }
}

fn float_string_from(
    pairs: &Vec<(String, String)>,
    key: &str,
    default: String,
    Ghost(m): Ghost<Map<Seq<char>, Seq<char>>>,
) -> (r: String)
    requires
        forall|i: int|
            0 <= i < pairs@.len() ==> m.contains_pair((#[trigger] pairs@[i]).0@, pairs@[i].1@),
        forall|k: Seq<char>|
            #[trigger] m.dom().contains(k) ==> exists|i: int|
                0 <= i < pairs@.len() && (#[trigger] pairs@[i]).0@ == k,
    ensures
        r@ == float_setting(m, key@, default@),
{
    match setting_lookup(pairs, key, Ghost(m)) {
        Some(v) => {
            if crate::text::is_float_str(v.as_str()) {
                v
            } else {
                default
            }
        },
        None => default,
    }
}

pub open spec fn bool_text(b: bool) -> Seq<char> {
    if b {
        "true"@
    } else {
        "false"@
    }
}

fn bool_to_str(b: bool) -> (r: &'static str)
    ensures
        r@ == bool_text(b),
{
    if b {
        "true"
    } else {
        "false"
    }
}

/// Operations on stored settings.
pub struct SettingsDb;

impl SettingsDb {
    /// Store one setting under its key.
    pub fn set(db: &mut Database, key: &str, value: &str) -> (r: Result<(), FetchError>)
        ensures
            r is Ok ==> final(db).settings() == old(db).settings().insert(key@, value@),
            r is Err ==> final(db).settings() == old(db).settings() && r->Err_0 is Database,
            final(db).downloads() == old(db).downloads(),
            final(db).trackers() == old(db).trackers(),
            final(db).tracker_meta() == old(db).tracker_meta(),
    {
        match set_setting_raw(db, key, value) {
            Ok(()) => Ok(()),
            Err(m) => Err(FetchError::Database(m)),
        }
    }

    /// The stored text of one setting, if any.
    pub fn get(db: &Database, key: &str) -> (r: Result<Option<String>, FetchError>)
        ensures
            r is Ok ==> (r->Ok_0 is Some <==> db.settings().contains_key(key@)),
            r is Ok && r->Ok_0 is Some ==> r->Ok_0->Some_0@ == db.settings()[key@],
            r is Err ==> r->Err_0 is Database,
    {
        let pairs = match select_settings_raw(db) {
            Ok(pairs) => pairs,
            Err(m) => {
                return Err(FetchError::Database(m));
            },
        };
        Ok(setting_lookup(&pairs, key, Ghost(db.settings())))
    }

    /// Materialise the whole settings value: every key read with its typed
    /// fallback — numbers that do not parse, booleans that are not `true`,
    /// and a seed ratio that is not numeric text all take their defaults —
    /// so missing or unparseable rows never fail.  The default
    /// download directory and the home directory (for `~` expansion) are
    /// machine facts the caller supplies.
    pub fn load(db: &Database, default_download_path: String, home_dir: Option<&str>) -> (r:
        Result<Settings, FetchError>)
        ensures
            r is Ok ==> ({
                let s = r->Ok_0;
                let m = db.settings();
                let home = (match home_dir {
                    Some(h) => Some(h@),
                    None => None,
                });
                &&& s.download_path@ == expand_home_spec(
                    str_setting(m, "download_path"@, default_download_path@),
                    home,
                )
                &&& s.max_concurrent_downloads == u32_setting(m, "max_concurrent_downloads"@, 5)
                &&& s.max_connections_per_server == u32_setting(
                    m,
                    "max_connections_per_server"@,
                    16,
                )
                &&& s.split_count == u32_setting(m, "split_count"@, 16)
                &&& s.download_speed_limit == u64_setting(m, "download_speed_limit"@, 0)
                &&& s.upload_speed_limit == u64_setting(m, "upload_speed_limit"@, 0)
                &&& s.user_agent@ == str_setting(m, "user_agent"@, "gosh-dl/0.1.0"@)
                &&& s.enable_notifications == bool_setting(m, "enable_notifications"@, true)
                &&& s.close_to_tray == bool_setting(m, "close_to_tray"@, true)
                &&& s.bt_enable_dht == bool_setting(m, "bt_enable_dht"@, true)
                &&& s.bt_enable_pex == bool_setting(m, "bt_enable_pex"@, true)
                &&& s.bt_enable_lpd == bool_setting(m, "bt_enable_lpd"@, true)
                &&& s.bt_max_peers == u32_setting(m, "bt_max_peers"@, 55)
                &&& s.bt_seed_ratio@ == float_setting(m, "bt_seed_ratio"@, "1.0"@)
                &&& s.auto_update_trackers == bool_setting(m, "auto_update_trackers"@, true)
                &&& s.delete_files_on_remove == bool_setting(m, "delete_files_on_remove"@, false)
            }),
            r is Err ==> r->Err_0 is Database,
    {
        let pairs = match select_settings_raw(db) {
            Ok(pairs) => pairs,
            Err(m) => {
                return Err(FetchError::Database(m));
            },
        };
        let ghost m = db.settings();
        let raw_path = string_from(&pairs, "download_path", default_download_path, Ghost(m));
        Ok(
            Settings {
                download_path: expand_home(raw_path, home_dir),
                max_concurrent_downloads: u32_from(&pairs, "max_concurrent_downloads", 5, Ghost(m)),
                max_connections_per_server: u32_from(
                    &pairs,
                    "max_connections_per_server",
                    16,
                    Ghost(m),
                ),
                split_count: u32_from(&pairs, "split_count", 16, Ghost(m)),
                download_speed_limit: u64_from(&pairs, "download_speed_limit", 0, Ghost(m)),
                upload_speed_limit: u64_from(&pairs, "upload_speed_limit", 0, Ghost(m)),
                user_agent: string_from(
                    &pairs,
                    "user_agent",
                    String::from_str("gosh-dl/0.1.0"),
                    Ghost(m),
                ),
                enable_notifications: bool_from(&pairs, "enable_notifications", true, Ghost(m)),
                close_to_tray: bool_from(&pairs, "close_to_tray", true, Ghost(m)),
                bt_enable_dht: bool_from(&pairs, "bt_enable_dht", true, Ghost(m)),
                bt_enable_pex: bool_from(&pairs, "bt_enable_pex", true, Ghost(m)),
                bt_enable_lpd: bool_from(&pairs, "bt_enable_lpd", true, Ghost(m)),
                bt_max_peers: u32_from(&pairs, "bt_max_peers", 55, Ghost(m)),
                bt_seed_ratio: float_string_from(
                    &pairs,
                    "bt_seed_ratio",
                    String::from_str("1.0"),
                    Ghost(m),
                ),
                auto_update_trackers: bool_from(&pairs, "auto_update_trackers", true, Ghost(m)),
                delete_files_on_remove: bool_from(
                    &pairs,
                    "delete_files_on_remove",
                    false,
                    Ghost(m),
                ),
            },
        )
    }

    /// Write every field under its key, one statement each; settings writes
    /// are not required to be atomic as a group, so a failure may leave
    /// earlier fields written.
    pub fn save(db: &mut Database, settings: &Settings) -> (r: Result<(), FetchError>)
        ensures
            r is Ok ==> final(db).settings() == old(db).settings().insert(
                "download_path"@,
                settings.download_path@,
            ).insert(
                "max_concurrent_downloads"@,
                crate::text::dec_str(settings.max_concurrent_downloads as nat),
            ).insert(
                "max_connections_per_server"@,
                crate::text::dec_str(settings.max_connections_per_server as nat),
            ).insert("split_count"@, crate::text::dec_str(settings.split_count as nat)).insert(
                "download_speed_limit"@,
                crate::text::dec_str(settings.download_speed_limit as nat),
            ).insert(
                "upload_speed_limit"@,
                crate::text::dec_str(settings.upload_speed_limit as nat),
            ).insert("user_agent"@, settings.user_agent@).insert(
                "enable_notifications"@,
                bool_text(settings.enable_notifications),
            ).insert("close_to_tray"@, bool_text(settings.close_to_tray)).insert(
                "bt_enable_dht"@,
                bool_text(settings.bt_enable_dht),
            ).insert("bt_enable_pex"@, bool_text(settings.bt_enable_pex)).insert(
                "bt_enable_lpd"@,
                bool_text(settings.bt_enable_lpd),
            ).insert("bt_max_peers"@, crate::text::dec_str(settings.bt_max_peers as nat)).insert(
                "bt_seed_ratio"@,
                settings.bt_seed_ratio@,
            ).insert("auto_update_trackers"@, bool_text(settings.auto_update_trackers)).insert(
                "delete_files_on_remove"@,
                bool_text(settings.delete_files_on_remove),
            ),
            r is Err ==> r->Err_0 is Database,
            final(db).downloads() == old(db).downloads(),
            final(db).trackers() == old(db).trackers(),
            final(db).tracker_meta() == old(db).tracker_meta(),
    {
        if let Err(e) = set_setting_raw(db, "download_path", settings.download_path.as_str()) {
            return Err(FetchError::Database(e));
        }
        let v = crate::text::u64_to_string(settings.max_concurrent_downloads as u64);
        if let Err(e) = set_setting_raw(db, "max_concurrent_downloads", v.as_str()) {
            return Err(FetchError::Database(e));
        }
        let v = crate::text::u64_to_string(settings.max_connections_per_server as u64);
        if let Err(e) = set_setting_raw(db, "max_connections_per_server", v.as_str()) {
            return Err(FetchError::Database(e));
        }
        let v = crate::text::u64_to_string(settings.split_count as u64);
        if let Err(e) = set_setting_raw(db, "split_count", v.as_str()) {
            return Err(FetchError::Database(e));
        }
        let v = crate::text::u64_to_string(settings.download_speed_limit);
        if let Err(e) = set_setting_raw(db, "download_speed_limit", v.as_str()) {
            return Err(FetchError::Database(e));
        }
        let v = crate::text::u64_to_string(settings.upload_speed_limit);
        if let Err(e) = set_setting_raw(db, "upload_speed_limit", v.as_str()) {
            return Err(FetchError::Database(e));
        }
        if let Err(e) = set_setting_raw(db, "user_agent", settings.user_agent.as_str()) {
            return Err(FetchError::Database(e));
        }
        if let Err(e) = set_setting_raw(
            db,
            "enable_notifications",
            bool_to_str(settings.enable_notifications),
        ) {
            return Err(FetchError::Database(e));
        }
        if let Err(e) = set_setting_raw(db, "close_to_tray", bool_to_str(settings.close_to_tray)) {
            return Err(FetchError::Database(e));
        }
        if let Err(e) = set_setting_raw(db, "bt_enable_dht", bool_to_str(settings.bt_enable_dht)) {
            return Err(FetchError::Database(e));
        }
        if let Err(e) = set_setting_raw(db, "bt_enable_pex", bool_to_str(settings.bt_enable_pex)) {
            return Err(FetchError::Database(e));
        }
        if let Err(e) = set_setting_raw(db, "bt_enable_lpd", bool_to_str(settings.bt_enable_lpd)) {
            return Err(FetchError::Database(e));
        }
        let v = crate::text::u64_to_string(settings.bt_max_peers as u64);
        if let Err(e) = set_setting_raw(db, "bt_max_peers", v.as_str()) {
            return Err(FetchError::Database(e));
        }
        if let Err(e) = set_setting_raw(db, "bt_seed_ratio", settings.bt_seed_ratio.as_str()) {
            return Err(FetchError::Database(e));
        }
        if let Err(e) = set_setting_raw(
            db,
            "auto_update_trackers",
            bool_to_str(settings.auto_update_trackers),
        ) {
            return Err(FetchError::Database(e));
        }
        if let Err(e) = set_setting_raw(
            db,
            "delete_files_on_remove",
            bool_to_str(settings.delete_files_on_remove),
        ) {
            return Err(FetchError::Database(e));
        }
        Ok(())
    }
}

// ---------------------------------------------------------------------------
// trackers
// ---------------------------------------------------------------------------

/// The URLs whose enabled flag is set, in table order.
pub open spec fn enabled_urls(ts: Seq<(Seq<char>, bool)>) -> Seq<Seq<char>>
    decreases ts.len(),
{
    if ts.len() == 0 {
        Seq::empty()
    } else if ts.last().1 {
        enabled_urls(ts.drop_last()).push(ts.last().0)
    } else {
        enabled_urls(ts.drop_last())
    }
}

/// Operations on the stored tracker list.
pub struct TrackersDb;

impl TrackersDb {
    /// Every enabled tracker URL, in stored order.
    pub fn get_enabled(db: &Database) -> (r: Result<Vec<String>, FetchError>)
        ensures
            r is Ok ==> r->Ok_0@.map_values(|t: String| t@) == enabled_urls(db.trackers()),
            r is Err ==> r->Err_0 is Database,
    {
        let pairs = match select_trackers_raw(db) {
            Ok(pairs) => pairs,
            Err(m) => {
                return Err(FetchError::Database(m));
            },
        };
        let ghost ts = db.trackers();
        let ghost pv = pairs@.map_values(|p: (String, bool)| (p.0@, p.1));
        let mut out: Vec<String> = Vec::new();
        proof {
            assert(out@.map_values(|t: String| t@) =~= enabled_urls(pv.take(0)));
        }
        let mut i: usize = 0;
        while i < pairs.len()
            invariant
                0 <= i <= pairs@.len(),
                pv == pairs@.map_values(|p: (String, bool)| (p.0@, p.1)),
                pv == ts,
                out@.map_values(|t: String| t@) == enabled_urls(pv.take(i as int)),
            decreases pairs@.len() - i,
        {
            proof {
                assert(pv.take(i as int + 1).drop_last() =~= pv.take(i as int));
                assert(pv.take(i as int + 1).last() == pv[i as int]);
            }
            if pairs[i].1 {
                let ghost old_out = out@;
                out.push(pairs[i].0.clone());
                proof {
                    assert(out@.map_values(|t: String| t@) =~= old_out.map_values(
                        |t: String| t@,
                    ).push(pv[i as int].0));
                }
            }
            i += 1;
        }
        proof {
            assert(pv.take(pv.len() as int) =~= pv);
        }
        Ok(out)
    }

    /// Replace the whole stored list in one transaction, enabling every
    /// given URL and stamping the update time.  Failure is all-or-nothing:
    /// on an error the stored list and its timestamp are untouched.
    pub fn replace_all(db: &mut Database, trackers: &Vec<String>) -> (r: Result<(), FetchError>)
        ensures
            r is Ok ==> final(db).trackers() == trackers@.map_values(|t: String| (t@, true)),
            r is Ok ==> final(db).tracker_meta() is Some,
            r is Err ==> final(db).trackers() == old(db).trackers() && final(db).tracker_meta()
                == old(db).tracker_meta() && r->Err_0 is Database,
            final(db).downloads() == old(db).downloads(),
            final(db).settings() == old(db).settings(),
    {
        match replace_trackers_raw(db, trackers) {
            Ok(()) => Ok(()),
            Err(m) => Err(FetchError::Database(m)),
        }
    }

    /// When the stored list was last replaced, if ever.
    pub fn get_last_updated(db: &Database) -> (r: Result<Option<String>, FetchError>)
        ensures
            r is Ok ==> (match r->Ok_0 {
                Some(s) => db.tracker_meta() == Some(s@),
                None => db.tracker_meta() is None,
            }),
            r is Err ==> r->Err_0 is Database,
    {
        match select_meta_raw(db) {
            Ok(v) => Ok(v),
            Err(m) => Err(FetchError::Database(m)),
        }
    }
}

} // verus!
