//! The SQLite-backed usage store. It offers the same read/write contract as
//! the in-memory ledger; the SQL calls themselves are trusted, and all
//! handling of what they return is verified.
use vstd::prelude::*;
use vstd::string::StrSliceExecFns;

verus! {

#[verifier::external_type_specification]
#[verifier::external_body]
pub struct ExConnection(rusqlite::Connection);

/// Relies on rusqlite's `Connection::open`: opens, creating it if missing,
/// the SQLite database at `db_path`. A failure of the engine is handed
/// back as its message text.
#[verifier::external_body]
fn sqlite_open(db_path: &str) -> Result<rusqlite::Connection, String> {
    rusqlite::Connection::open(db_path).map_err(|e| format!("{:?}", e))
}

/// Relies on rusqlite's `Connection::open_in_memory`.
#[verifier::external_body]
fn sqlite_open_in_memory() -> Result<rusqlite::Connection, String> {
    rusqlite::Connection::open_in_memory().map_err(|e| format!("{:?}", e))
}

/// Relies on rusqlite's `Connection::execute`, with no bound parameters.
#[verifier::external_body]
fn sqlite_execute(conn: &rusqlite::Connection, sql: &str) -> Result<usize, String> {
    conn.execute(sql, []).map_err(|e| format!("{:?}", e))
}

/// Relies on rusqlite's `Connection::execute`, binding one text and two
/// integer parameters positionally.
#[verifier::external_body]
fn sqlite_execute3(
    conn: &rusqlite::Connection,
    sql: &str,
    p1: &str,
    p2: i64,
    p3: i64,
) -> Result<usize, String> {
    conn.execute(sql, (p1, p2, p3)).map_err(|e| format!("{:?}", e))
}

/// Relies on rusqlite's `Connection::query_row`, binding one text and two
/// integer parameters positionally and reading the single column of the
/// single row as a nullable integer (an SQL aggregate over no rows is
/// NULL, which becomes `None`).
#[verifier::external_body]
fn sqlite_query_sum(
    conn: &rusqlite::Connection,
    sql: &str,
    p1: &str,
    p2: i64,
    p3: i64,
) -> Result<Option<i64>, String> {
    conn.query_row(sql, (p1, p2, p3), |row| row.get(0)).map_err(|e| format!("{:?}", e))
}

/// An error while reading or writing the store.
#[derive(Debug)]
pub enum Error {
    /// The storage engine itself failed; the field holds its message.
    RusqliteError(String),
    /// The store answered, but with data that breaks the ledger contract.
    InvalidDataError(String),
}

/// A connection to the SQLite usage store.
pub struct Db {
    connection: rusqlite::Connection,
}

/// Open, and create if needed, the usage store at `db_path`.
pub fn connect_sqlite(db_path: &str) -> Result<Db, Error> {
    match sqlite_open(db_path) {
        Err(e) => Err(Error::RusqliteError(e)),
        Ok(connection) => {
            let db = Db { connection };
            match db.init() {
                Ok(_) => Ok(db),
                Err(e) => Err(e),
            }
        }
    }
}

/// Open a fresh usage store held in memory.
pub fn open_in_memory() -> Result<Db, Error> {
    match sqlite_open_in_memory() {
        Err(e) => Err(Error::RusqliteError(e)),
        Ok(connection) => {
            let db = Db { connection };
            match db.init() {
                Ok(_) => Ok(db),
                Err(e) => Err(e),
            }
        }
    }
}

/// Interpret the aggregate a usage query returned: no rows count as zero
/// usage, and a negative total is a data-integrity error, never silently
/// coerced.
pub fn usage_from_sum(sum: Option<i64>) -> (r: Result<u64, Error>)
    ensures
        (r is Ok) == (sum is None || (sum matches Some(v) && v >= 0)),
        r matches Ok(u) ==> u as int == (match sum {
            None => 0int,
            Some(v) => v as int,
        }),
        r matches Err(e) ==> e is InvalidDataError,
{
    match sum {
        None => Ok(0),
        Some(v) => {
            if v < 0 {
                Err(Error::InvalidDataError("total usage must be non-negative".to_owned()))
            } else {
                Ok(v as u64)
            }
        }
    }
}

impl Db {
    fn init(&self) -> Result<(), Error> {
        let r = sqlite_execute(
            &self.connection,
            "CREATE TABLE IF NOT EXISTS usage (\n                app_key     TEXT NOT NULL,\n                timestamp   INT,\n                duration    INT\n            )",
        );
        match r {
            Ok(_) => Ok(()),
            Err(e) => Err(Error::RusqliteError(e)),
        }
    }

    /// Append one usage sample; never overwrites. A timestamp or duration
    /// beyond what the store's signed integers hold is a data error; a
    /// value in range can fail only with the storage engine itself.
    pub fn record_usage(&self, app_key: &str, timestamp: u64, duration: u64) -> (r: Result<
        (),
        Error,
    >)
        ensures
            (timestamp > i64::MAX as u64 || duration > i64::MAX as u64) <==> (r matches Err(e)
                && e is InvalidDataError),
    {
        if timestamp > i64::MAX as u64 || duration > i64::MAX as u64 {
            return Err(
                Error::InvalidDataError("timestamp or duration too large for the store".to_owned()),
            );
        }
        let r = sqlite_execute3(
            &self.connection,
            "INSERT INTO usage\n                (app_key, timestamp, duration) VALUES (?1, ?2, ?3)",
            app_key,
            timestamp as i64,
            duration as i64,
        );
        match r {
            Ok(_) => Ok(()),
            Err(e) => Err(Error::RusqliteError(e)),
        }
    }

    /// Total usage of `app_key` over the inclusive range `[from, to]`: the
    /// summed durations of the samples in range, `0` when there are none,
    /// and an error when the store fails or answers a negative total. A
    /// range beyond the store's signed integers, and a negative total, are
    /// data errors, never reported as engine failures.
    pub fn get_usage(&self, app_key: &str, from: u64, to: u64) -> (r: Result<u64, Error>)
        ensures
            (from > i64::MAX as u64 || to > i64::MAX as u64) ==> (r matches Err(e)
                && e is InvalidDataError),
    {
        if from > i64::MAX as u64 || to > i64::MAX as u64 {
            return Err(
                Error::InvalidDataError("query range too large for the store".to_owned()),
            );
        }
        let r = sqlite_query_sum(
            &self.connection,
            "SELECT SUM(duration) FROM USAGE\n                WHERE app_key = ?1\n                  AND timestamp >= ?2\n                  AND timestamp <= ?3",
            app_key,
            from as i64,
            to as i64,
        );
        match r {
            Err(e) => Err(Error::RusqliteError(e)),
            Ok(sum) => usage_from_sum(sum),
        }
    }
}

} // verus!
