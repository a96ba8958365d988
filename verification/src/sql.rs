//! The relational store as this library sees it: a connection that takes
//! statements with parameters and hands back counts, rows and errors.
//!
//! What the store answers depends on what it holds, so none of the calls
//! that ask the store promises which answer comes. What a row holds and
//! what a cursor has handed out are named and not defined here: the step of
//! a cursor says how the row that it hands out joins the rows handed out,
//! and the reading of a column says when it gives a value and which.

use vstd::prelude::*;
use rusqlite::{Connection, Row, Rows, Statement};

verus! {

/// A connection to the store.
#[verifier::external_type_specification]
#[verifier::external_body]
pub struct ExConnection(rusqlite::Connection);

/// An error of the store.
#[verifier::external_type_specification]
#[verifier::external_body]
pub struct ExError(rusqlite::Error);

/// A statement that the store has prepared.
#[verifier::external_type_specification]
#[verifier::external_body]
pub struct ExStatement<'conn>(rusqlite::Statement<'conn>);

/// The rows that a running query still has to give.
#[verifier::external_type_specification]
#[verifier::external_body]
pub struct ExRows<'stmt>(rusqlite::Rows<'stmt>);

/// One row of a query's result.
#[verifier::external_type_specification]
#[verifier::external_body]
pub struct ExRow<'stmt>(rusqlite::Row<'stmt>);

/// The parameters of a statement, bound by position: all integers or all
/// texts.
#[derive(Debug, Clone, PartialEq, Eq)]
pub enum Params {
    Integers(Vec<i64>),
    Texts(Vec<String>),
}

/// What `Params` stand for.
pub enum ParamsView {
    Integers(Seq<i64>),
    Texts(Seq<Seq<char>>),
}

impl DeepView for Params {
    type V = ParamsView;

    open spec fn deep_view(&self) -> ParamsView {
        match self {
            Params::Integers(values) => ParamsView::Integers(values@),
            Params::Texts(values) => ParamsView::Texts(values.deep_view()),
        }
    }
}

/// A value that the store holds in a column. Of a floating-point number and
/// of a blob, which no record of this library holds, only the kind is kept.
#[derive(Debug, Clone, PartialEq, Eq)]
pub enum SqlValue {
    Null,
    Integer(i64),
    Real,
    Text(String),
    Blob,
}

/// What a `SqlValue` stands for, and beside that what a column of the store
/// can hold and no `SqlValue` stands for: a text that is not valid UTF-8,
/// which cannot be read.
pub enum SqlValueView {
    Null,
    Integer(i64),
    Real,
    Text(Seq<char>),
    Blob,
    /// A text that is not valid UTF-8.
    Unreadable,
}

impl DeepView for SqlValue {
    type V = SqlValueView;

    open spec fn deep_view(&self) -> SqlValueView {
        match self {
            SqlValue::Null => SqlValueView::Null,
            SqlValue::Integer(i) => SqlValueView::Integer(*i),
            SqlValue::Real => SqlValueView::Real,
            SqlValue::Text(t) => SqlValueView::Text(t@),
            SqlValue::Blob => SqlValueView::Blob,
        }
    }
}

/// Calls `ToString::to_string` on an error of the store, which writes the
/// error as its `Display` does. Nothing is promised of the text.
#[verifier::external_body]
pub(crate) fn error_text(error: &rusqlite::Error) -> String {
    error.to_string()
}

/// Calls `Connection::prepare`: compiles `sql`, which must hold one
/// statement. Nothing is promised of the outcome.
#[verifier::external_body]
pub(crate) fn prepare<'c>(conn: &'c Connection, sql: &str) -> Result<Statement<'c>, rusqlite::Error> {
    conn.prepare(sql)
}

/// What a row holds: the value of each of its columns, in order, as many as
/// the query has columns. The values of a row do not change while the row
/// is held.
pub uninterp spec fn row_values(row: Row<'_>) -> Seq<SqlValueView>;

/// `values` has the position `index` and holds no unreadable text there.
pub open spec fn has_value(values: Seq<SqlValueView>, index: int) -> bool {
    0 <= index < values.len() && !(values[index] is Unreadable)
}

/// The rows that a cursor has handed out up to now, each as what it held, in
/// the order in which the cursor handed them out.
pub uninterp spec fn handed_out(rows: Rows<'_>) -> Seq<Seq<SqlValueView>>;

/// Calls `Statement::query`: binds `params` by position and gives the cursor
/// over the rows of the query, of which none is read yet. Nothing is promised
/// of the outcome.
#[verifier::external_body]
pub(crate) fn start<'s, 'c>(statement: &'s mut Statement<'c>, params: &Params) -> Result<
    Rows<'s>,
    rusqlite::Error,
> {
    match params {
        Params::Integers(values) => statement.query(rusqlite::params_from_iter(values.iter())),
        Params::Texts(values) => statement.query(rusqlite::params_from_iter(values.iter())),
    }
}

/// Calls `Rows::next`: steps the query to its next row, `None` when there is
/// no further row. Not proved: a row that the call hands out joins the rows
/// that the cursor has handed out, as the last of them, and a call that
/// hands out no row leaves them as they were. Nothing is promised of which
/// of the three outcomes comes, nor of what the row holds.
#[verifier::external_body]
pub(crate) fn next_row<'r, 's>(rows: &'r mut Rows<'s>) -> (outcome: Result<
    Option<&'r Row<'s>>,
    rusqlite::Error,
>)
    ensures
        match outcome {
            Ok(Some(row)) => handed_out(*final(rows)) == handed_out(*old(rows)).push(
                row_values(*row),
            ),
            _ => handed_out(*final(rows)) == handed_out(*old(rows)),
        },
{
    rows.next()
}

/// Calls `Row::get` for the column at `index`, a position counted from 0, and
/// asks for the value in the kind that the store holds. Not proved: the call
/// gives a value exactly where the row has that position and holds no
/// unreadable text there, and the value that it gives is the one that the
/// row holds at that position.
#[verifier::external_body]
pub(crate) fn column(row: &Row<'_>, index: usize) -> (outcome: Result<SqlValue, rusqlite::Error>)
    ensures
        outcome is Ok <==> has_value(row_values(*row), index as int),
        outcome matches Ok(value) ==> value.deep_view() == row_values(*row)[index as int],
{
    Ok(match row.get::<usize, rusqlite::types::Value>(index)? {
        rusqlite::types::Value::Null => SqlValue::Null,
        rusqlite::types::Value::Integer(i) => SqlValue::Integer(i),
        rusqlite::types::Value::Real(_) => SqlValue::Real,
        rusqlite::types::Value::Text(t) => SqlValue::Text(t),
        rusqlite::types::Value::Blob(_) => SqlValue::Blob,
    })
}

/// Calls `Connection::execute`: runs one statement with `params` bound by
/// position and gives the connection's count of changed rows, which is that
/// of its latest statement that inserted, updated or deleted. A statement
/// that gives rows is an error. Nothing is promised of the outcome.
#[verifier::external_body]
pub(crate) fn execute(conn: &Connection, sql: &str, params: &Params) -> Result<usize, rusqlite::Error> {
    match params {
        Params::Integers(values) => conn.execute(sql, rusqlite::params_from_iter(values.iter())),
        Params::Texts(values) => conn.execute(sql, rusqlite::params_from_iter(values.iter())),
    }
}

/// Calls `Connection::execute_batch`: runs the statements of `sql` one after
/// the other and stops at the first that fails. Nothing is promised of the
/// outcome.
#[verifier::external_body]
pub(crate) fn execute_batch(conn: &Connection, sql: &str) -> Result<(), rusqlite::Error> {
    conn.execute_batch(sql)
}

/// Calls `Connection::last_insert_rowid`: the row id of the latest insert on
/// this connection that succeeded. Nothing is promised of the outcome.
#[verifier::external_body]
pub(crate) fn last_insert_rowid(conn: &Connection) -> i64 {
    conn.last_insert_rowid()
}

} // verus!
