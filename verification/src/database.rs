//! The storage interface, its entities and its two engines.

use rusqlite::Connection;
use vstd::prelude::*;

use crate::database::relational::send;
use crate::database::relational::sent;

pub mod builder;
pub mod clients;
pub mod engine;
pub mod in_memory_database;
pub mod laws;
pub mod ledger;
pub mod relational;
pub mod rows;
pub mod sequences;
pub mod statements;
pub mod text;
pub mod transactions;

verus! {

/// How many statements set a database up.
pub const SCHEMA_STEPS: usize = 4;

/// The statements that set a database up, in the order in which they are
/// sent. The first has the engine enforce references between tables. The
/// others create, unless it is there, the table of clients, then that of
/// transactions, whose owner is emptied when its client is deleted, then
/// that of aliases, which are deleted with their client.
pub fn schema_step(step: usize) -> (sql: &'static str)
    requires
        step < SCHEMA_STEPS,
    ensures
        sql@ == schema_text(step as int),
{
    if step == 0 {
        "PRAGMA foreign_keys = ON;"
    } else if step == 1 {
        "
        CREATE TABLE IF NOT EXISTS clients (
            uid INTEGER PRIMARY KEY NOT NULL,
            name TEXT NOT NULL,
            balance INTEGER NOT NULL DEFAULT 0,
            detail TEXT
        );"
    } else if step == 2 {
        "
        CREATE TABLE IF NOT EXISTS transactions (
            tid INTEGER PRIMARY KEY NOT NULL,
            uid INTEGER,
            date INTEGER NOT NULL,
            price INTEGER NOT NULL,
            payment INTEGER NOT NULL DEFAULT 0,
            detail TEXT,

            FOREIGN KEY (uid) REFERENCES clients (uid)
                ON UPDATE CASCADE
                ON DELETE SET NULL
        );"
    } else {
        "
        CREATE TABLE IF NOT EXISTS aliases (
            aid INTEGER PRIMARY KEY NOT NULL,
            uid INTEGER NOT NULL,
            alias TEXT NOT NULL,

            FOREIGN KEY (uid) REFERENCES clients (uid)
                ON UPDATE CASCADE
                ON DELETE CASCADE
        );"
    }
}

/// The text of each statement of the schema.
pub open spec fn schema_text(step: int) -> Seq<char> {
    if step == 0 {
        "PRAGMA foreign_keys = ON;"@
    } else if step == 1 {
        "
        CREATE TABLE IF NOT EXISTS clients (
            uid INTEGER PRIMARY KEY NOT NULL,
            name TEXT NOT NULL,
            balance INTEGER NOT NULL DEFAULT 0,
            detail TEXT
        );"@
    } else if step == 2 {
        "
        CREATE TABLE IF NOT EXISTS transactions (
            tid INTEGER PRIMARY KEY NOT NULL,
            uid INTEGER,
            date INTEGER NOT NULL,
            price INTEGER NOT NULL,
            payment INTEGER NOT NULL DEFAULT 0,
            detail TEXT,

            FOREIGN KEY (uid) REFERENCES clients (uid)
                ON UPDATE CASCADE
                ON DELETE SET NULL
        );"@
    } else {
        "
        CREATE TABLE IF NOT EXISTS aliases (
            aid INTEGER PRIMARY KEY NOT NULL,
            uid INTEGER NOT NULL,
            alias TEXT NOT NULL,

            FOREIGN KEY (uid) REFERENCES clients (uid)
                ON UPDATE CASCADE
                ON DELETE CASCADE
        );"@
    }
}

/// Whether the engine answered the statement `step` of the schema, sent on
/// `conn`, with success.
pub open spec fn schema_step_taken(conn: Connection, step: int) -> bool {
    exists|changed: usize| #[trigger]
        sent(conn, schema_text(step), Ok::<usize, rusqlite::Error>(changed))
}

/// Whether the engine answered the first `steps` statements of the schema
/// with success, each sent on `conn` in its turn.
pub open spec fn schema_sent(conn: Connection, steps: int) -> bool {
    forall|step: int| 0 <= step < steps ==> #[trigger] schema_step_taken(conn, step)
}

/// Whether the engine answered the statement `step` of the schema with the
/// failure `e`, after it answered every statement before it with success.
pub open spec fn schema_failed(conn: Connection, step: int, e: rusqlite::Error) -> bool {
    &&& 0 <= step < SCHEMA_STEPS
    &&& schema_sent(conn, step)
    &&& sent(conn, schema_text(step), Err::<usize, rusqlite::Error>(e))
}

/// Sets up a database for the store.
pub trait InitializeDB {
    /// Sends the statements of `schema_step` in their order and stops at
    /// the first that the engine fails on, with its error.
    fn initialize(&mut self) -> Result<(), rusqlite::Error>;
}

impl InitializeDB for Connection {
    /// Succeeds where the engine took every statement of the schema, and
    /// fails with the error of the first that it did not take.
    fn initialize(&mut self) -> (res: Result<(), rusqlite::Error>)
        ensures
            match res {
                Ok(()) => schema_sent(*old(self), SCHEMA_STEPS as int),
                Err(e) => exists|step: int| #[trigger] schema_failed(*old(self), step, e),
            },
    {
        let ghost conn = *self;
        let mut step: usize = 0;
        while step < SCHEMA_STEPS
            invariant
                step <= SCHEMA_STEPS,
                *self == conn,
                conn == *old(self),
                schema_sent(conn, step as int),
            decreases SCHEMA_STEPS - step,
        {
            match send(self, schema_step(step)) {
                Err(e) => {
                    let res: Result<(), rusqlite::Error> = Err(e);
                    assert(res matches Err(failure) && schema_failed(
                        *old(self),
                        step as int,
                        failure,
                    ));
                    return res;
                },
                Ok(changed) => {
                    assert(schema_step_taken(*self, step as int)) by {
                        assert(sent(
                            *self,
                            schema_text(step as int),
                            Ok::<usize, rusqlite::Error>(changed),
                        ));
                    }
                },
            }
            step = step + 1;
        }
        Ok(())
    }
}

} // verus!
