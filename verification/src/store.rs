//! SeriesStore: the persisted time series.
//!
//! One SQLite database file holds one table, `predictions`, with one row
//! per reading: a store-assigned `id`, the observation time `dt`, the
//! `temperature`, and the ingestion time `upload_time`, the times in
//! epoch seconds. The store owns the schema lifecycle (create, and
//! destructive recreate on request) and the write path; it enforces no
//! uniqueness, so inserting the same reading twice makes two rows.
//!
//! Every call into SQLite stands behind a small trusted wrapper; what the
//! database does with a statement is not modelled, so each operation
//! promises only which error it reports when the database refuses.

use vstd::prelude::*;

use crate::{Error, Reading};

verus! {

#[verifier::external_type_specification]
#[verifier::external_body]
pub struct ExConnection(sqlite::Connection);

#[verifier::external_type_specification]
#[verifier::external_body]
pub struct ExStatement<'l>(sqlite::Statement<'l>);

/// Relies on `sqlite::open`: opens a read-write connection to a new or
/// existing database at `path`; an unusable path comes back as an error.
#[verifier::external_body]
fn open_connection(path: &str) -> (r: Result<sqlite::Connection, Error>)
    ensures
        r matches Err(e) ==> e == Error::StoreOpenError,
{
    match sqlite::open(path) {
        Ok(c) => Ok(c),
        Err(_) => Err(Error::StoreOpenError),
    }
}

/// Relies on sqlite's `Connection::execute`: runs the statement to
/// completion without producing rows; any failure comes back as an error.
#[verifier::external_body]
fn execute_sql(conn: &sqlite::Connection, sql: &str) -> (r: Result<(), Error>)
    ensures
        r matches Err(e) ==> e == Error::StoreWriteError,
{
    match conn.execute(sql) {
        Ok(_) => Ok(()),
        Err(_) => Err(Error::StoreWriteError),
    }
}

/// Relies on sqlite's `Connection::prepare`: compiles one SQL statement
/// against the connection.
#[verifier::external_body]
fn prepare_sql<'l>(conn: &'l sqlite::Connection, sql: &str) -> (r: Result<
    sqlite::Statement<'l>,
    Error,
>)
    ensures
        r matches Err(e) ==> e == Error::StoreWriteError,
{
    match conn.prepare(sql) {
        Ok(s) => Ok(s),
        Err(_) => Err(Error::StoreWriteError),
    }
}

/// Relies on sqlite's `Statement::bind`: binds the 1-based parameter
/// `index` to the 64-bit integer `value`.
#[verifier::external_body]
fn bind_int<'l>(stmt: &mut sqlite::Statement<'l>, index: usize, value: i64) -> (r: Result<
    (),
    Error,
>)
    ensures
        r matches Err(e) ==> e == Error::StoreWriteError,
{
    match stmt.bind((index, value)) {
        Ok(_) => Ok(()),
        Err(_) => Err(Error::StoreWriteError),
    }
}

/// Relies on sqlite's `Statement::next`: advances the statement one step;
/// `true` while a row is available, `false` once evaluation is done.
#[verifier::external_body]
fn step_statement<'l>(stmt: &mut sqlite::Statement<'l>) -> (r: Result<bool, Error>)
    ensures
        r matches Err(e) ==> e == Error::StoreWriteError,
{
    match stmt.next() {
        Ok(sqlite::State::Row) => Ok(true),
        Ok(sqlite::State::Done) => Ok(false),
        Err(_) => Err(Error::StoreWriteError),
    }
}

/// Relies on sqlite's `Statement::read`: reads the 0-based column `col`
/// of the current row as a 64-bit integer.
#[verifier::external_body]
fn read_int<'l>(stmt: &sqlite::Statement<'l>, col: usize) -> (r: Result<i64, Error>)
    ensures
        r matches Err(e) ==> e == Error::StoreWriteError,
{
    match stmt.read::<i64, usize>(col) {
        Ok(v) => Ok(v),
        Err(_) => Err(Error::StoreWriteError),
    }
}

/// The persisted series: the `predictions` table behind one open
/// connection, exclusively owned by the run from open to process exit.
pub struct Store {
    conn: sqlite::Connection,
}

impl Store {
    /// Open or create the backing store at `path`; the one operation
    /// that reports `StoreOpenError`.
    pub fn open(path: &str) -> (r: Result<Store, Error>)
        ensures
            r matches Err(e) ==> e == Error::StoreOpenError,
    {
        match open_connection(path) {
            Ok(c) => Ok(Store { conn: c }),
            Err(e) => Err(e),
        }
    }

    /// Create the `predictions` table if it is absent; a no-op when it
    /// already exists. Called unconditionally at the start of every run,
    /// so the table exists before any insert.
    pub fn ensure_schema(&mut self) -> (r: Result<(), Error>)
        ensures
            r matches Err(e) ==> e == Error::StoreWriteError,
    {
        execute_sql(
            &self.conn,
            "create table if not exists predictions (
                id integer primary key,
                dt timestamp not null,
                temperature integer not null,
                upload_time timestamp not null
            )",
        )
    }

    /// Drop the `predictions` table if it exists, then create it fresh.
    /// Safe on a store that never had the table; used only when the
    /// caller asks for destructive recreation.
    pub fn recreate_schema(&mut self) -> (r: Result<(), Error>)
        ensures
            r matches Err(e) ==> e == Error::StoreWriteError,
    {
        match execute_sql(&self.conn, "drop table if exists predictions") {
            Ok(_) => self.ensure_schema(),
            Err(e) => Err(e),
        }
    }

    /// Append one reading as one row. Nothing is deduplicated: the same
    /// reading inserted twice makes two rows.
    pub fn insert(&mut self, reading: &Reading) -> (r: Result<(), Error>)
        ensures
            r matches Err(e) ==> e == Error::StoreWriteError,
    {
        let mut stmt = match prepare_sql(
            &self.conn,
            "insert into predictions (dt, temperature, upload_time) values (?, ?, ?)",
        ) {
            Ok(s) => s,
            Err(e) => {
                return Err(e);
            },
        };
        match bind_int(&mut stmt, 1, reading.observation_time) {
            Ok(_) => {},
            Err(e) => {
                return Err(e);
            },
        }
        match bind_int(&mut stmt, 2, reading.temperature) {
            Ok(_) => {},
            Err(e) => {
                return Err(e);
            },
        }
        match bind_int(&mut stmt, 3, reading.ingestion_time) {
            Ok(_) => {},
            Err(e) => {
                return Err(e);
            },
        }
        // An insert yields no rows, so one step normally finishes it; a
        // statement that keeps yielding rows is treated as a write fault.
        let mut fuel: u64 = 1000000;
        while fuel > 0
            decreases fuel,
        {
            match step_statement(&mut stmt) {
                Ok(false) => {
                    return Ok(());
                },
                Ok(true) => {
                    fuel = fuel - 1;
                },
                Err(e) => {
                    return Err(e);
                },
            }
        }
        Err(Error::StoreWriteError)
    }

    /// Read every row back in insertion order: the series as stored,
    /// seconds-level timestamps and all.
    pub fn rows(&self) -> (r: Result<Vec<Reading>, Error>)
        ensures
            r matches Err(e) ==> e == Error::StoreWriteError,
    {
        let mut stmt = match prepare_sql(
            &self.conn,
            "select dt, temperature, upload_time from predictions order by id",
        ) {
            Ok(s) => s,
            Err(e) => {
                return Err(e);
            },
        };
        let mut out: Vec<Reading> = Vec::new();
        let mut fuel: u64 = 1000000000;
        while fuel > 0
            decreases fuel,
        {
            match step_statement(&mut stmt) {
                Ok(false) => {
                    return Ok(out);
                },
                Ok(true) => {
                    let dt = match read_int(&stmt, 0) {
                        Ok(v) => v,
                        Err(e) => {
                            return Err(e);
                        },
                    };
                    let temperature = match read_int(&stmt, 1) {
                        Ok(v) => v,
                        Err(e) => {
                            return Err(e);
                        },
                    };
                    let upload = match read_int(&stmt, 2) {
                        Ok(v) => v,
                        Err(e) => {
                            return Err(e);
                        },
                    };
                    out.push(
                        Reading {
                            observation_time: dt,
                            temperature: temperature,
                            ingestion_time: upload,
                        },
                    );
                    fuel = fuel - 1;
                },
                Err(e) => {
                    return Err(e);
                },
            }
        }
        Err(Error::StoreWriteError)
    }

    /// How many tables named `predictions` the store holds; what the
    /// schema-idempotence checks read.
    pub fn predictions_table_count(&self) -> (r: Result<i64, Error>)
        ensures
            r matches Err(e) ==> e == Error::StoreWriteError,
    {
        let mut stmt = match prepare_sql(
            &self.conn,
            "select count(*) from sqlite_master where type = 'table' and name = 'predictions'",
        ) {
            Ok(s) => s,
            Err(e) => {
                return Err(e);
            },
        };
        match step_statement(&mut stmt) {
            Ok(true) => read_int(&stmt, 0),
            Ok(false) => Err(Error::StoreWriteError),
            Err(e) => Err(e),
        }
    }

    /// Open the transaction that wraps one run's writes.
    pub(crate) fn begin_run(&mut self) -> (r: Result<(), Error>)
        ensures
            r matches Err(e) ==> e == Error::StoreWriteError,
    {
        execute_sql(&self.conn, "begin transaction")
    }

    /// Commit one run's writes.
    pub(crate) fn commit_run(&mut self) -> (r: Result<(), Error>)
        ensures
            r matches Err(e) ==> e == Error::StoreWriteError,
    {
        execute_sql(&self.conn, "commit")
    }

    /// Abandon one run's writes after a failure mid-run.
    pub(crate) fn rollback_run(&mut self) -> (r: Result<(), Error>)
        ensures
            r matches Err(e) ==> e == Error::StoreWriteError,
    {
        execute_sql(&self.conn, "rollback")
    }
}

} // verus!
