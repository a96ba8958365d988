//! A session with the store: a connection and the journal of what was asked
//! of it and what it answered.
//!
//! The journal is what the contracts of the storage functions speak of. What
//! the store answers is not known before it is asked; what a function asks,
//! in which order, and what it makes of each answer is.
//!
//! Nothing but the methods of `Session` talks to the store. Each of them
//! hands its arguments to the store as they are and notes them in the
//! journal with what came back. The rows of a query are read by `read_rows`
//! of the module `cursor`.

use vstd::prelude::*;
use rusqlite::Connection;
use crate::cursor::read_rows;
use crate::sql::{
    error_text, execute, execute_batch, last_insert_rowid, prepare, start, Params, ParamsView,
    SqlValue, SqlValueView,
};

verus! {

/// The step at which the store refused a request.
#[derive(Clone, Copy, PartialEq, Eq, Structural, Debug)]
pub enum Stage {
    /// A query's statement could not be prepared.
    Prepare,
    /// A query's parameters could not be bound.
    Bind,
    /// A query could not be stepped to its next row.
    Step,
    /// A column of a row could not be read.
    Column,
    /// A statement that gives no rows failed.
    Execute,
    /// A batch of statements failed.
    Batch,
}

/// A refusal of the store: the step that failed and the store's own words.
#[derive(Debug, PartialEq, Eq)]
pub struct Failure {
    pub stage: Stage,
    pub detail: String,
}

/// What a `Failure` stands for.
pub struct FailureModel {
    pub stage: Stage,
    pub detail: Seq<char>,
}

impl DeepView for Failure {
    type V = FailureModel;

    open spec fn deep_view(&self) -> FailureModel {
        FailureModel { stage: self.stage, detail: self.detail@ }
    }
}

/// What can be asked of the store.
pub enum Request {
    /// Run one statement that gives no rows.
    Execute { sql: Seq<char>, params: ParamsView },
    /// Run a batch of statements.
    Batch { sql: Seq<char> },
    /// Run a query and read the first `columns` columns of at most `max_rows`
    /// of its rows.
    Query { sql: Seq<char>, params: ParamsView, columns: nat, max_rows: nat },
    /// Give the row id of the latest insert.
    LastInsertRowid,
}

/// What the store can answer.
pub enum Reply {
    /// The statement ran, and the store counts this many changed rows: those
    /// of its latest statement that inserted, updated or deleted.
    Changed(nat),
    /// The batch ran.
    Done,
    /// The query gave these rows.
    Rows(Seq<Seq<SqlValueView>>),
    /// The latest insert has this row id.
    RowId(i64),
    /// The store refused.
    Failed(FailureModel),
}

/// One request with the store's answer to it.
pub struct Exchange {
    pub request: Request,
    pub reply: Reply,
}

/// `reply` is an answer to `request`: a count or a refusal for a statement,
/// rows of the asked width and number or a refusal for a query, and so on,
/// and a refusal names a step of that kind of request.
pub open spec fn answers(request: Request, reply: Reply) -> bool {
    match request {
        Request::Execute { .. } => match reply {
            Reply::Changed(_) => true,
            Reply::Failed(failure) => failure.stage == Stage::Execute,
            _ => false,
        },
        Request::Batch { .. } => match reply {
            Reply::Done => true,
            Reply::Failed(failure) => failure.stage == Stage::Batch,
            _ => false,
        },
        Request::Query { columns, max_rows, .. } => match reply {
            Reply::Rows(rows) => rows.len() <= max_rows && forall|i: int|
                0 <= i < rows.len() ==> (#[trigger] rows[i]).len() == columns,
            Reply::Failed(failure) => failure.stage == Stage::Prepare || failure.stage
                == Stage::Bind || failure.stage == Stage::Step || failure.stage == Stage::Column,
            _ => false,
        },
        Request::LastInsertRowid => reply is RowId,
    }
}

/// What a function that talks with the store does next.
pub enum Next<R> {
    /// It asks this of the store.
    Ask(Request),
    /// It returns this.
    Return(R),
}

/// The answers that the store gave between the journals `before` and `after`.
pub open spec fn replies_since(before: Seq<Exchange>, after: Seq<Exchange>) -> Seq<Reply> {
    Seq::new((after.len() - before.len()) as nat, |i: int| after[before.len() + i].reply)
}

/// Between the journals `before` and `after` a function has kept to `script`
/// so far: the journal has grown at its end only; each request is the one
/// that the script asks after the answers before it; and each answer is one
/// to its request.
pub open spec fn keeps_to<R>(
    script: spec_fn(Seq<Reply>) -> Next<R>,
    before: Seq<Exchange>,
    after: Seq<Exchange>,
) -> bool {
    let replies = replies_since(before, after);
    &&& before.len() <= after.len()
    &&& after.take(before.len() as int) == before
    &&& forall|i: int|
        0 <= i < replies.len() ==> #[trigger] script(replies.take(i)) == Next::<R>::Ask(
            after[before.len() + i].request,
        )
    &&& forall|i: int|
        before.len() <= i < after.len() ==> answers(
            (#[trigger] after[i]).request,
            after[i].reply,
        )
}

/// Between the journals `before` and `after` a function has followed `script`
/// and returned `result`: it has kept to the script, and after the last
/// answer the script returns `result`.
pub open spec fn follows<R>(
    script: spec_fn(Seq<Reply>) -> Next<R>,
    before: Seq<Exchange>,
    after: Seq<Exchange>,
    result: R,
) -> bool {
    &&& keeps_to(script, before, after)
    &&& script(replies_since(before, after)) == Next::Return(result)
}

/// What `script` returns after the answers between the journals `before` and
/// `after`.
pub open spec fn returned<R>(
    script: spec_fn(Seq<Reply>) -> Next<R>,
    before: Seq<Exchange>,
    after: Seq<Exchange>,
) -> R {
    match script(replies_since(before, after)) {
        Next::Return(result) => result,
        Next::Ask(_) => arbitrary(),
    }
}

/// Between the journals `before` and `after` a function has followed `script`
/// to its end.
pub open spec fn finished<R>(
    script: spec_fn(Seq<Reply>) -> Next<R>,
    before: Seq<Exchange>,
    after: Seq<Exchange>,
) -> bool {
    &&& keeps_to(script, before, after)
    &&& script(replies_since(before, after)) is Return
}

/// Before anything is asked, every script is kept to.
pub proof fn lemma_script_start<R>(script: spec_fn(Seq<Reply>) -> Next<R>, before: Seq<Exchange>)
    ensures
        keeps_to(script, before, before),
        replies_since(before, before) == Seq::<Reply>::empty(),
{
    assert(before.take(before.len() as int) =~= before);
    assert(replies_since(before, before) =~= Seq::<Reply>::empty());
}

/// A function that has kept to its script and then asks what the script asks
/// next keeps to the script, and the answer joins the answers it has had.
pub proof fn lemma_script_step<R>(
    script: spec_fn(Seq<Reply>) -> Next<R>,
    before: Seq<Exchange>,
    after: Seq<Exchange>,
    exchange: Exchange,
)
    requires
        keeps_to(script, before, after),
        script(replies_since(before, after)) == Next::<R>::Ask(exchange.request),
        answers(exchange.request, exchange.reply),
    ensures
        keeps_to(script, before, after.push(exchange)),
        replies_since(before, after.push(exchange)) == replies_since(before, after).push(
            exchange.reply,
        ),
{
    let longer = after.push(exchange);
    let replies = replies_since(before, after);
    let more = replies_since(before, longer);
    assert(more =~= replies.push(exchange.reply));
    assert(longer.take(before.len() as int) =~= after.take(before.len() as int));
    assert forall|i: int| 0 <= i < more.len() implies #[trigger] script(more.take(i)) == Next::<
        R,
    >::Ask(longer[before.len() + i].request) by {
        if i < replies.len() {
            assert(more.take(i) =~= replies.take(i));
        } else {
            assert(more.take(i) =~= replies);
        }
    }
}

/// Between the journals `before` and `after` exactly `request` was asked and
/// answered.
pub open spec fn asked_once(request: Request, before: Seq<Exchange>, after: Seq<Exchange>) -> bool {
    &&& after.len() == before.len() + 1
    &&& after.drop_last() == before
    &&& after.last().request == request
    &&& answers(request, after.last().reply)
}

/// An outcome as the contracts speak of it: with what its failure stands for.
pub open spec fn settled<T>(outcome: Result<T, Failure>) -> Result<T, FailureModel> {
    match outcome {
        Ok(value) => Ok(value),
        Err(failure) => Err(failure.deep_view()),
    }
}

/// The answer that the outcome of `Session::execute` stands for.
pub open spec fn changed_reply(outcome: Result<usize, Failure>) -> Reply {
    match outcome {
        Ok(changed) => Reply::Changed(changed as nat),
        Err(failure) => Reply::Failed(failure.deep_view()),
    }
}

/// The answer that the outcome of `Session::execute_batch` stands for.
pub open spec fn done_reply(outcome: Result<(), Failure>) -> Reply {
    match outcome {
        Ok(_) => Reply::Done,
        Err(failure) => Reply::Failed(failure.deep_view()),
    }
}

/// The answer that the outcome of `Session::query` stands for.
pub open spec fn rows_reply(outcome: Result<Vec<Vec<SqlValue>>, Failure>) -> Reply {
    match outcome {
        Ok(rows) => Reply::Rows(rows.deep_view()),
        Err(failure) => Reply::Failed(failure.deep_view()),
    }
}

/// A connection to the store with the journal of this session.
pub struct Session<'c> {
    conn: &'c Connection,
    journal: Ghost<Seq<Exchange>>,
}

impl<'c> Session<'c> {
    /// All that was asked of the store in this session, with its answers, in
    /// order.
    pub closed spec fn journal(&self) -> Seq<Exchange> {
        self.journal@
    }

    /// Opens a session on `conn`. Its journal is empty.
    pub fn new(conn: &'c Connection) -> (session: Session<'c>)
        ensures
            session.journal() == Seq::<Exchange>::empty(),
    {
        Session { conn, journal: Ghost(Seq::empty()) }
    }

    /// Runs one statement that gives no rows, and gives the store's count of
    /// changed rows. For a statement that inserts, updates or deletes that is
    /// the number of rows that it changed.
    pub fn execute(&mut self, sql: &str, params: &Params) -> (outcome: Result<usize, Failure>)
        ensures
            final(self).journal() == old(self).journal().push(
                (Exchange {
                    request: Request::Execute { sql: sql@, params: params.deep_view() },
                    reply: changed_reply(outcome),
                }),
            ),
            outcome matches Err(failure) ==> failure.stage == Stage::Execute,
            answers(final(self).journal().last().request, final(self).journal().last().reply),
    {
        let outcome = match execute(self.conn, sql, params) {
            Ok(changed) => Ok(changed),
            Err(e) => Err(Failure { stage: Stage::Execute, detail: error_text(&e) }),
        };
        self.journal = Ghost(
            self.journal@.push(
                Exchange {
                    request: Request::Execute { sql: sql@, params: params.deep_view() },
                    reply: changed_reply(outcome),
                },
            ),
        );
        outcome
    }

    /// Runs a batch of statements.
    pub fn execute_batch(&mut self, sql: &str) -> (outcome: Result<(), Failure>)
        ensures
            final(self).journal() == old(self).journal().push(
                (Exchange { request: Request::Batch { sql: sql@ }, reply: done_reply(outcome) }),
            ),
            outcome matches Err(failure) ==> failure.stage == Stage::Batch,
            answers(final(self).journal().last().request, final(self).journal().last().reply),
    {
        let outcome = match execute_batch(self.conn, sql) {
            Ok(_) => Ok(()),
            Err(e) => Err(Failure { stage: Stage::Batch, detail: error_text(&e) }),
        };
        self.journal = Ghost(
            self.journal@.push(
                Exchange { request: Request::Batch { sql: sql@ }, reply: done_reply(outcome) },
            ),
        );
        outcome
    }

    /// Gives the row id of the latest insert.
    pub fn last_insert_rowid(&mut self) -> (id: i64)
        ensures
            final(self).journal() == old(self).journal().push(
                (Exchange { request: Request::LastInsertRowid, reply: Reply::RowId(id) }),
            ),
            answers(final(self).journal().last().request, final(self).journal().last().reply),
    {
        let id = last_insert_rowid(self.conn);
        self.journal = Ghost(
            self.journal@.push(Exchange { request: Request::LastInsertRowid, reply: Reply::RowId(id) }),
        );
        id
    }

    /// Notes in the journal how a query ended.
    fn note_query(
        &mut self,
        sql: &str,
        params: &Params,
        columns: usize,
        max_rows: usize,
        outcome: Result<Vec<Vec<SqlValue>>, Failure>,
    ) -> (same: Result<Vec<Vec<SqlValue>>, Failure>)
        ensures
            same == outcome,
            final(self).journal() == old(self).journal().push(
                (Exchange {
                    request: Request::Query {
                        sql: sql@,
                        params: params.deep_view(),
                        columns: columns as nat,
                        max_rows: max_rows as nat,
                    },
                    reply: rows_reply(outcome),
                }),
            ),
    {
        self.journal = Ghost(
            self.journal@.push(
                Exchange {
                    request: Request::Query {
                        sql: sql@,
                        params: params.deep_view(),
                        columns: columns as nat,
                        max_rows: max_rows as nat,
                    },
                    reply: rows_reply(outcome),
                },
            ),
        );
        outcome
    }

    /// Runs a query and reads the first `columns` columns of its rows, in the
    /// order in which the store gives them, until there is no further row or
    /// `max_rows` rows are read: it prepares the statement, binds the
    /// parameters, and hands the cursor to `read_rows`, whose contract says
    /// what is read from a cursor.
    pub fn query(&mut self, sql: &str, params: &Params, columns: usize, max_rows: usize) -> (outcome:
        Result<Vec<Vec<SqlValue>>, Failure>)
        ensures
            final(self).journal() == old(self).journal().push(
                (Exchange {
                    request: Request::Query {
                        sql: sql@,
                        params: params.deep_view(),
                        columns: columns as nat,
                        max_rows: max_rows as nat,
                    },
                    reply: rows_reply(outcome),
                }),
            ),
            outcome matches Ok(rows) ==> rows.len() <= max_rows && forall|i: int|
                0 <= i < rows.len() ==> (#[trigger] rows[i]).len() == columns,
            outcome matches Err(failure) ==> failure.stage == Stage::Prepare || failure.stage
                == Stage::Bind || failure.stage == Stage::Step || failure.stage == Stage::Column,
            answers(final(self).journal().last().request, final(self).journal().last().reply),
    {
        let conn = self.conn;
        let mut statement = match prepare(conn, sql) {
            Ok(statement) => statement,
            Err(e) => {
                let failure = Failure { stage: Stage::Prepare, detail: error_text(&e) };
                return self.note_query(sql, params, columns, max_rows, Err(failure));
            },
        };
        let mut rows = match start(&mut statement, params) {
            Ok(rows) => rows,
            Err(e) => {
                let failure = Failure { stage: Stage::Bind, detail: error_text(&e) };
                return self.note_query(sql, params, columns, max_rows, Err(failure));
            },
        };
        let read = read_rows(&mut rows, columns, max_rows);
        self.note_query(sql, params, columns, max_rows, read)
    }
}

} // verus!
