//! The relational engine, SQLite through the `rusqlite` crate: the calls
//! that reach it, and what the store makes of its answers.
//!
//! The calls are not proved, and nothing is claimed of what the engine
//! answers: that depends on the database. What the store makes of an answer
//! is a verified function of that answer.

use rusqlite::Connection;
use rusqlite::Row;
use rusqlite::Statement;
use vstd::prelude::*;

use crate::database::clients::text_of;
use crate::database::transactions::id_of;

verus! {

/// An open database.
#[verifier::external_type_specification]
#[verifier::external_body]
pub struct ExConnection(rusqlite::Connection);

/// A statement that the engine has compiled.
#[verifier::external_type_specification]
#[verifier::external_body]
pub struct ExStatement<'conn>(rusqlite::Statement<'conn>);

/// One row of an answer, while the engine stands on it.
#[verifier::external_type_specification]
#[verifier::external_body]
pub struct ExRow<'stmt>(rusqlite::Row<'stmt>);

/// What the engine reports when it fails.
#[verifier::external_type_specification]
#[verifier::external_body]
pub struct ExError(rusqlite::Error);

/// One value of a row, as the engine holds it. A real number is told apart
/// from the rest, and its value is not kept: no column of the store holds
/// one.
#[derive(Debug)]
pub enum Cell {
    Null,
    Integer(i64),
    Real,
    Text(String),
    Blob(Vec<u8>),
}

/// The rows of an answer: the values of each row, or `None` for a row that
/// the engine could not hand over.
pub type Rows = Vec<Option<Vec<Cell>>>;

/// `Connection::execute`, without parameters: runs one statement that
/// answers with no rows and returns how many rows it changed.
#[verifier::external_body]
pub(crate) fn execute(conn: &Connection, sql: &str) -> (r: Result<usize, rusqlite::Error>) {
    conn.execute(sql, [])
}

/// `Connection::last_insert_rowid`: the row identity that the last
/// successful insertion on this connection was given.
#[verifier::external_body]
pub(crate) fn last_insert_rowid(conn: &Connection) -> (r: i64) {
    conn.last_insert_rowid()
}

/// `Connection::prepare`: has the engine compile one statement.
#[verifier::external_body]
pub(crate) fn prepare<'a>(conn: &'a Connection, sql: &str) -> (r: Result<
    Statement<'a>,
    rusqlite::Error,
>) {
    conn.prepare(sql)
}

/// `Row::get`, for the dynamically typed `Value`: the value in column `idx`
/// of the row.
#[verifier::external_body]
pub(crate) fn cell_at(row: &Row<'_>, idx: usize) -> (r: Result<Cell, rusqlite::Error>) {
    Ok(
        match row.get::<usize, rusqlite::types::Value>(idx)? {
            rusqlite::types::Value::Null => Cell::Null,
            rusqlite::types::Value::Integer(i) => Cell::Integer(i),
            rusqlite::types::Value::Real(_) => Cell::Real,
            rusqlite::types::Value::Text(t) => Cell::Text(t),
            rusqlite::types::Value::Blob(b) => Cell::Blob(b),
        },
    )
}

/// Whether `cells` are the values that the engine gave for the first
/// columns of `row`, one call of `cell_at` for each, in their order.
pub(crate) open spec fn cells_of(row: &Row<'_>, cells: Seq<Cell>) -> bool {
    forall|i: int|
        0 <= i < cells.len() ==> call_ensures(
            cell_at,
            (row, i as usize),
            Ok::<Cell, rusqlite::Error>(#[trigger] cells[i]),
        )
}

/// The first `width` values of a row, each as the engine gave it, or the
/// first failure to read one: the failure of the first column that the
/// engine did not give, after it gave all the columns before it. Of a row
/// of no column nothing is asked, and nothing fails.
pub(crate) fn read_row(row: &Row<'_>, width: usize) -> (r: Result<Vec<Cell>, rusqlite::Error>)
    ensures
        match r {
            Ok(cells) => cells.len() == width && cells_of(row, cells@),
            Err(e) => exists|before: Seq<Cell>|
                #[trigger] cells_of(row, before) && before.len() < width && call_ensures(
                    cell_at,
                    (row, before.len() as usize),
                    Err::<Cell, rusqlite::Error>(e),
                ),
        },
{
    let mut cells: Vec<Cell> = Vec::new();
    let mut i: usize = 0;
    while i < width
        invariant
            i <= width,
            cells.len() == i,
            cells_of(row, cells@),
        decreases width - i,
    {
        let ghost before = cells@;
        match cell_at(row, i) {
            Ok(c) => {
                cells.push(c);
                assert forall|j: int| 0 <= j < cells@.len() implies call_ensures(
                    cell_at,
                    (row, j as usize),
                    Ok::<Cell, rusqlite::Error>(#[trigger] cells@[j]),
                ) by {
                    if j < i {
                        assert(cells@[j] == before[j]);
                    }
                }
            },
            Err(e) => {
                assert(cells_of(row, before) && before.len() == i);
                return Err(e);
            },
        }
        i = i + 1;
    }
    Ok(cells)
}

/// `Statement::query_map`, without parameters: runs a compiled query and
/// hands each row of the answer to `read_row`. A row that could not be
/// stepped to or read is kept as `None`, in its place.
#[verifier::external_body]
pub(crate) fn query_rows(stmt: Statement<'_>, width: usize) -> (r: Result<Rows, rusqlite::Error>) {
    let mut stmt = stmt;
    let rows = stmt.query_map([], |row| read_row(row, width))?;
    let read = rows.map(|r| r.ok()).collect();
    Ok(read)
}

/// What went wrong between the store and the engine.
#[derive(Debug, Clone, Copy, PartialEq, Eq, Structural)]
pub enum Fault {
    /// The statement ran and found no row to work on.
    NotFound,
    /// The engine refused the statement or failed on it.
    Backend,
}

/// What the store makes of the answer to a statement that must change a
/// row: a failure of the engine is a `Backend` fault, no row changed means
/// that the row is not there.
pub open spec fn changed_one(outcome: Result<usize, rusqlite::Error>) -> Result<(), Fault> {
    match outcome {
        Err(_) => Err(Fault::Backend),
        Ok(n) => if n == 0 {
            Err(Fault::NotFound)
        } else {
            Ok(())
        },
    }
}

/// What the store makes of the answer to a statement that may change
/// nothing: only a failure of the engine is a fault.
pub open spec fn changed_any(outcome: Result<usize, rusqlite::Error>) -> Result<(), Fault> {
    match outcome {
        Err(_) => Err(Fault::Backend),
        Ok(_) => Ok(()),
    }
}

/// What the store makes of a statement that must change a row.
pub fn must_change(outcome: Result<usize, rusqlite::Error>) -> (r: Result<(), Fault>)
    ensures
        r == changed_one(outcome),
{
    match outcome {
        Err(_) => Err(Fault::Backend),
        Ok(n) => if n == 0 {
            Err(Fault::NotFound)
        } else {
            Ok(())
        },
    }
}

/// What the store makes of a statement that may change nothing.
pub fn may_change(outcome: Result<usize, rusqlite::Error>) -> (r: Result<(), Fault>)
    ensures
        r == changed_any(outcome),
{
    match outcome {
        Err(_) => Err(Fault::Backend),
        Ok(_) => Ok(()),
    }
}

/// The identity that a cell holds: a whole number that is not negative.
pub open spec fn id_in(c: Cell) -> Option<nat> {
    match c {
        Cell::Integer(i) => if i >= 0 {
            Some(i as nat)
        } else {
            None
        },
        _ => None,
    }
}

/// The identity that a cell holds.
pub fn read_id(c: &Cell) -> (r: Option<u64>)
    ensures
        id_of(r) == id_in(*c),
{
    match c {
        Cell::Integer(i) => if *i >= 0 {
            Some(*i as u64)
        } else {
            None
        },
        _ => None,
    }
}

/// The text that a cell holds.
pub open spec fn text_in(c: Cell) -> Option<Seq<char>> {
    match c {
        Cell::Text(t) => Some(t@),
        _ => None,
    }
}

/// The text that a cell holds.
pub fn read_text(c: &Cell) -> (r: Option<String>)
    ensures
        text_of(r) == text_in(*c),
{
    match c {
        Cell::Text(t) => Some(t.clone()),
        _ => None,
    }
}

/// The amount that a cell holds: a whole number.
pub open spec fn amount_in(c: Cell) -> Option<int> {
    match c {
        Cell::Integer(i) => Some(i as int),
        _ => None,
    }
}

/// The amount that a cell holds.
pub fn read_amount(c: &Cell) -> (r: Option<i64>)
    ensures
        match r {
            Some(i) => amount_in(*c) == Some(i as int),
            None => amount_in(*c) is None,
        },
{
    match c {
        Cell::Integer(i) => Some(*i),
        _ => None,
    }
}

/// What a cell of a column that may be empty holds: `Some(None)` for the
/// empty cell, `Some(Some(..))` for a text, `None` for anything else.
pub open spec fn optional_text_in(c: Cell) -> Option<Option<Seq<char>>> {
    match c {
        Cell::Null => Some(None),
        Cell::Text(t) => Some(Some(t@)),
        _ => None,
    }
}

/// What a cell of a text column that may be empty holds.
pub fn read_optional_text(c: &Cell) -> (r: Option<Option<String>>)
    ensures
        match r {
            Some(t) => optional_text_in(*c) == Some(text_of(t)),
            None => optional_text_in(*c) is None,
        },
{
    match c {
        Cell::Null => Some(None),
        Cell::Text(t) => Some(Some(t.clone())),
        _ => None,
    }
}

/// What a cell of an identity column that may be empty holds.
pub open spec fn optional_id_in(c: Cell) -> Option<Option<nat>> {
    match c {
        Cell::Null => Some(None),
        Cell::Integer(i) => if i >= 0 {
            Some(Some(i as nat))
        } else {
            None
        },
        _ => None,
    }
}

/// What a cell of an identity column that may be empty holds.
pub fn read_optional_id(c: &Cell) -> (r: Option<Option<u64>>)
    ensures
        match r {
            Some(id) => optional_id_in(*c) == Some(id_of(id)),
            None => optional_id_in(*c) is None,
        },
{
    match c {
        Cell::Null => Some(None),
        Cell::Integer(i) => if *i >= 0 {
            Some(Some(*i as u64))
        } else {
            None
        },
        _ => None,
    }
}

} // verus!
