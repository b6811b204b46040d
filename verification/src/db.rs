//! Trusted boundary to the embedded SQLite engine (rusqlite) and to the
//! filesystem's path resolution.
//!
//! Every function here is believed, not verified: each body makes one call
//! into the outside world and converts its result. What a call returns
//! depends on what is on disk, so the contracts promise nothing about the
//! returned values; the verified store takes whatever comes back and is
//! proved correct for every possible outcome. A failed conversion or call is
//! reported as a bare `Err(())` and mapped to the library's own error kinds
//! in verified code.
use vstd::prelude::*;

use crate::store::Assoc;

verus! {

/// rusqlite's database connection, declared so that the store can own one.
/// Verus sees nothing inside a value of this type.
#[verifier::external_type_specification]
#[verifier::external_body]
pub struct ExConnection(rusqlite::Connection);

/// Relies on rusqlite's `Connection::open`: opens the database file at
/// `path`, creating it if absent.
#[verifier::external_body]
pub(crate) fn open_db(path: &String) -> (r: Result<rusqlite::Connection, ()>) {
    match rusqlite::Connection::open(path.as_str()) {
        Ok(conn) => Ok(conn),
        Err(_) => Err(()),
    }
}

/// Relies on rusqlite's `Connection::execute_batch`: creates the three-table
/// schema (paths, tags, and the unique association pairs) if it does not
/// exist yet; safe to run on every startup.
#[verifier::external_body]
pub(crate) fn init_schema(conn: &rusqlite::Connection) -> (r: Result<(), ()>) {
    conn.execute_batch(
        "CREATE TABLE IF NOT EXISTS files (id INTEGER PRIMARY KEY, path TEXT NOT NULL UNIQUE);
         CREATE TABLE IF NOT EXISTS tags (id INTEGER PRIMARY KEY, name TEXT NOT NULL UNIQUE);
         CREATE TABLE IF NOT EXISTS file_tags (
             file_id INTEGER NOT NULL REFERENCES files(id),
             tag_id INTEGER NOT NULL REFERENCES tags(id),
             UNIQUE (file_id, tag_id));",
    ).map_err(|_| ())
}

/// Relies on rusqlite's `Connection::execute_batch`: starts a transaction.
#[verifier::external_body]
pub(crate) fn begin_tx(conn: &rusqlite::Connection) -> (r: Result<(), ()>) {
    conn.execute_batch("BEGIN").map_err(|_| ())
}

/// Relies on rusqlite's `Connection::execute_batch`: commits the open
/// transaction, making its writes durable.
#[verifier::external_body]
pub(crate) fn commit_tx(conn: &rusqlite::Connection) -> (r: Result<(), ()>) {
    conn.execute_batch("COMMIT").map_err(|_| ())
}

/// Relies on rusqlite's `Connection::execute_batch`: rolls the open
/// transaction back, discarding its writes.
#[verifier::external_body]
pub(crate) fn rollback_tx(conn: &rusqlite::Connection) -> (r: Result<(), ()>) {
    conn.execute_batch("ROLLBACK").map_err(|_| ())
}

/// Relies on rusqlite's `Connection::execute`: records path `p` in the path
/// table if it is not there yet.
#[verifier::external_body]
pub(crate) fn insert_file_row(conn: &rusqlite::Connection, p: &String) -> (r: Result<(), ()>) {
    match conn.execute("INSERT OR IGNORE INTO files (path) VALUES (?1)", [p.as_str()]) {
        Ok(_) => Ok(()),
        Err(_) => Err(()),
    }
}

/// Relies on rusqlite's `Connection::execute`: records tag `t` in the tag
/// table if it is not there yet.
#[verifier::external_body]
pub(crate) fn insert_tag_row(conn: &rusqlite::Connection, t: &String) -> (r: Result<(), ()>) {
    match conn.execute("INSERT OR IGNORE INTO tags (name) VALUES (?1)", [t.as_str()]) {
        Ok(_) => Ok(()),
        Err(_) => Err(()),
    }
}

/// Relies on rusqlite's `Connection::execute`: records the association
/// between path `p` and tag `t` if it is not there yet.
#[verifier::external_body]
pub(crate) fn insert_assoc_row(conn: &rusqlite::Connection, p: &String, t: &String) -> (r: Result<
    (),
    (),
>) {
    match conn.execute(
        "INSERT OR IGNORE INTO file_tags (file_id, tag_id)
         SELECT f.id, t.id FROM files f, tags t WHERE f.path = ?1 AND t.name = ?2",
        [p.as_str(), t.as_str()],
    ) {
        Ok(_) => Ok(()),
        Err(_) => Err(()),
    }
}

/// Relies on rusqlite's `Connection::execute`: deletes the association
/// between path `p` and tag `t`, if present.
#[verifier::external_body]
pub(crate) fn delete_assoc_row(conn: &rusqlite::Connection, p: &String, t: &String) -> (r: Result<
    (),
    (),
>) {
    match conn.execute(
        "DELETE FROM file_tags WHERE file_id IN (SELECT id FROM files WHERE path = ?1)
         AND tag_id IN (SELECT id FROM tags WHERE name = ?2)",
        [p.as_str(), t.as_str()],
    ) {
        Ok(_) => Ok(()),
        Err(_) => Err(()),
    }
}

/// Relies on rusqlite's `Connection::execute`: deletes every path row that
/// no longer has any association (tag rows are kept as dangling dictionary
/// entries; they never surface in a result).
#[verifier::external_body]
pub(crate) fn delete_orphan_files(conn: &rusqlite::Connection) -> (r: Result<(), ()>) {
    match conn.execute(
        "DELETE FROM files WHERE id NOT IN (SELECT DISTINCT file_id FROM file_tags)",
        [],
    ) {
        Ok(_) => Ok(()),
        Err(_) => Err(()),
    }
}

/// Relies on rusqlite's `Statement::query_map`: reads every persisted
/// (path, tag) association. What comes back depends on the file on disk, so
/// nothing is promised of it; the caller normalizes the rows.
#[verifier::external_body]
pub(crate) fn load_rows(conn: &rusqlite::Connection) -> (r: Result<Vec<Assoc>, ()>) {
    let mut stmt = match conn.prepare(
        "SELECT f.path, t.name FROM file_tags ft
         JOIN files f ON f.id = ft.file_id JOIN tags t ON t.id = ft.tag_id",
    ) {
        Ok(stmt) => stmt,
        Err(_) => return Err(()),
    };
    let rows = match stmt.query_map([], |row| Ok(Assoc { path: row.get(0)?, tag: row.get(1)? })) {
        Ok(rows) => rows,
        Err(_) => return Err(()),
    };
    rows.collect::<Result<Vec<Assoc>, rusqlite::Error>>().map_err(|_| ())
}

/// Relies on std's `Path::canonicalize`: resolves relative components and
/// symlinks against the real filesystem, failing when the path does not
/// exist. The result depends on what is on disk, so nothing is promised of
/// the returned string.
#[verifier::external_body]
pub(crate) fn canonicalize_path(path: &String) -> (r: Option<String>) {
    match std::path::Path::new(path.as_str()).canonicalize() {
        Ok(resolved) => Some(resolved.to_string_lossy().into_owned()),
        Err(_) => None,
    }
}

} // verus!
