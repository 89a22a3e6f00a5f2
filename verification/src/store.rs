//! The embedded relational store that backs the second scan path.
//!
//! The store holds one table, `data`, with an auto-assigned integer key and
//! one blob column; every row is the binary layout of one vector. Opening
//! the store, creating the table and ingesting a collection are verified
//! here against a model of the table's contents; running the ranked query
//! itself returns scores, which the caller retrieves from the connection
//! directly and feeds back to the selection logic as score keys.

use vstd::prelude::*;

use crate::codec::{encoded, encode};
use crate::vector::Vector;

verus! {

#[verifier::external_type_specification]
#[verifier::external_body]
pub struct ExConnection(rusqlite::Connection);

#[verifier::external_type_specification]
#[verifier::external_body]
pub struct ExSqlError(rusqlite::Error);

// The blobs of the `data` table, in rowid order, as statements run on this
// connection see them (the empty sequence while the table does not exist).
pub uninterp spec fn stored_rows(c: rusqlite::Connection) -> Seq<Seq<u8>>;

/// A failure reported by the store engine, carrying its diagnostic text.
#[derive(Debug)]
pub struct StoreError {
    pub message: String,
}

/// Relies on rusqlite's Connection::open_in_memory: a fresh connection to a
/// new in-memory database, which holds no tables and hence no rows.
#[verifier::external_body]
fn conn_open() -> (r: Result<rusqlite::Connection, rusqlite::Error>)
    ensures
        r matches Ok(c) ==> stored_rows(c) == Seq::<Seq<u8>>::empty(),
{
    rusqlite::Connection::open_in_memory()
}

/// Relies on rusqlite's Connection::execute running `CREATE TABLE IF NOT
/// EXISTS`: it creates the table when absent and never adds, removes or
/// changes rows.
#[verifier::external_body]
fn conn_create_table(conn: &mut rusqlite::Connection) -> (r: Result<usize, rusqlite::Error>)
    ensures
        r is Ok ==> stored_rows(*final(conn)) == stored_rows(*old(conn)),
{
    conn.execute("CREATE TABLE IF NOT EXISTS data (id INTEGER PRIMARY KEY, v BLOB);", [])
}

/// Relies on rusqlite's Connection::execute_batch running `BEGIN`: opening
/// a transaction neither adds, removes nor changes rows.
#[verifier::external_body]
fn conn_begin(conn: &mut rusqlite::Connection) -> (r: Result<(), rusqlite::Error>)
    ensures
        r is Ok ==> stored_rows(*final(conn)) == stored_rows(*old(conn)),
{
    conn.execute_batch("BEGIN;")
}

/// Relies on rusqlite's Connection::execute_batch running `COMMIT`: making
/// the open transaction durable changes nothing in what this connection
/// sees of the table.
#[verifier::external_body]
fn conn_commit(conn: &mut rusqlite::Connection) -> (r: Result<(), rusqlite::Error>)
    ensures
        r is Ok ==> stored_rows(*final(conn)) == stored_rows(*old(conn)),
{
    conn.execute_batch("COMMIT;")
}

/// Relies on rusqlite's Connection::execute_batch running `ROLLBACK`: the
/// uncommitted inserts are discarded. Nothing is stated of the rows
/// afterwards; a caller that rolls back reports failure and promises
/// nothing of the table.
#[verifier::external_body]
fn conn_rollback(conn: &mut rusqlite::Connection) -> Result<(), rusqlite::Error> {
    conn.execute_batch("ROLLBACK;")
}

/// Relies on rusqlite's Connection::execute running a single-row `INSERT`
/// on the `data` table: on success exactly one row holding the given blob
/// is appended, with the next auto-assigned key.
#[verifier::external_body]
fn conn_insert_row(conn: &mut rusqlite::Connection, blob: &Vec<u8>) -> (r: Result<
    usize,
    rusqlite::Error,
>)
    ensures
        r is Ok ==> stored_rows(*final(conn)) == stored_rows(*old(conn)).push(blob@),
{
    conn.execute("INSERT INTO data (v) VALUES (?1);", [blob.as_slice()])
}

/// Relies on rusqlite's Error implementing Display: renders the engine's
/// diagnostic text.
#[verifier::external_body]
fn sql_error_text(e: &rusqlite::Error) -> String {
    format!("{}", e)
}

/// Wraps an engine failure into the store's own error value.
fn engine_error(e: rusqlite::Error) -> StoreError {
    StoreError { message: sql_error_text(&e) }
}

/// Opens a fresh in-memory store; on success it holds no rows at all.
pub fn open_store() -> (r: Result<rusqlite::Connection, StoreError>)
    ensures
        r matches Ok(c) ==> stored_rows(c) == Seq::<Seq<u8>>::empty(),
{
    match conn_open() {
        Ok(c) => Ok(c),
        Err(e) => Err(engine_error(e)),
    }
}

/// Creates the `data` table when it is absent; the rows are unchanged.
pub fn create_table(conn: &mut rusqlite::Connection) -> (r: Result<(), StoreError>)
    ensures
        r is Ok ==> stored_rows(*final(conn)) == stored_rows(*old(conn)),
{
    match conn_create_table(conn) {
        Ok(_) => Ok(()),
        Err(e) => Err(engine_error(e)),
    }
}

/// The binary layouts of a vector collection, row by row, in order.
pub open spec fn encoded_rows(vs: Seq<Vector>) -> Seq<Seq<u8>> {
    vs.map_values(|v: Vector| encoded(v@))
}

/// Ingests a whole collection inside one transaction: on success the table
/// gained exactly the collection's binary layouts, in collection order,
/// after whatever rows it already held. On failure the transaction is
/// rolled back and the engine's diagnostic is reported; no claim is made
/// of the table then.
pub fn ingest(conn: &mut rusqlite::Connection, vs: &Vec<Vector>) -> (r: Result<(), StoreError>)
    ensures
        r is Ok ==> stored_rows(*final(conn)) == stored_rows(*old(conn)) + encoded_rows(vs@),
{
    if let Err(e) = conn_begin(conn) {
        return Err(engine_error(e));
    }
    let mut i: usize = 0;
    proof {
        assert(stored_rows(*conn) =~= stored_rows(*old(conn)) + encoded_rows(vs@.take(0)));
    }
    while i < vs.len()
        invariant
            i <= vs@.len(),
            stored_rows(*conn) == stored_rows(*old(conn)) + encoded_rows(vs@.take(i as int)),
        decreases vs@.len() - i,
    {
        let blob = encode(&vs[i]);
        let ghost before = stored_rows(*conn);
        if let Err(e) = conn_insert_row(conn, &blob) {
            let _ = conn_rollback(conn);
            return Err(engine_error(e));
        }
        proof {
            assert(encoded_rows(vs@.take(i as int + 1)) =~= encoded_rows(
                vs@.take(i as int),
            ).push(encoded(vs@[i as int]@)));
            assert(stored_rows(*conn) =~= stored_rows(*old(conn)) + encoded_rows(
                vs@.take(i as int + 1),
            ));
        }
        i = i + 1;
    }
    if let Err(e) = conn_commit(conn) {
        let _ = conn_rollback(conn);
        return Err(engine_error(e));
    }
    proof {
        assert(vs@.take(vs@.len() as int) =~= vs@);
    }
    Ok(())
}

} // verus!
