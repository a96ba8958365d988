//! The storage accessor: one function for each thing that can be done with
//! conversations, messages, mind-maps and preferences.
//!
//! Each function asks the store for what it needs through a `Session` and
//! makes its result of the answers. Its contract names the requests, in
//! order, and says what is returned for each answer that the store can give.

use vstd::prelude::*;
use crate::records::{
    analytics_reader, conversation_reader, decode_analytics_rows, decode_conversation,
    decode_conversations, decode_messages, decode_mindmap, integer_at, integer_in, message_reader,
    mindmap_of, optional_text_at, optional_text_in, read_all, records_of, AnalyticsData,
    AnalyticsDataView, Conversation, Message, MindMapData, MindMapDataView,
};
use crate::session::{
    answers, asked_once, follows, lemma_script_start, lemma_script_step, replies_since, Exchange,
    Failure, FailureModel, Next, Reply, Request, Session, Stage,
};
use crate::sql::{Params, ParamsView, SqlValueView};
use crate::text::{decimal, decimal_text, joined, numeral, signed_decimal};

verus! {

/// The query that tells whether the store answers at all.
pub const CHECK_SQL: &'static str = "SELECT 1";

/// The statement that adds a conversation.
pub const INSERT_CONVERSATION_SQL: &'static str =
    "INSERT INTO conversations (name, summary) VALUES (?1, ?2)";

/// The query for all conversations, the newest first.
pub const CONVERSATIONS_SQL: &'static str =
    "SELECT id, name, created_at, summary, notes FROM conversations ORDER BY created_at DESC";

/// The query for one page of the conversations, the newest first.
pub const CONVERSATIONS_PAGE_SQL: &'static str =
    "SELECT id, name, created_at, summary, notes FROM conversations ORDER BY created_at DESC LIMIT ?1 OFFSET ?2";

/// The query for the number of conversations.
pub const CONVERSATIONS_COUNT_SQL: &'static str = "SELECT COUNT(*) FROM conversations";

/// The query for one conversation.
pub const CONVERSATION_SQL: &'static str =
    "SELECT id, name, created_at, summary, notes FROM conversations WHERE id = ?1";

/// The statement that deletes the messages of a conversation.
pub const DELETE_MESSAGES_SQL: &'static str = "DELETE FROM messages WHERE conversation_id = ?1";

/// The statement that deletes the mind-map of a conversation.
pub const DELETE_MINDMAPS_SQL: &'static str = "DELETE FROM mindmaps WHERE conversation_id = ?1";

/// The statement that deletes a conversation.
pub const DELETE_CONVERSATION_SQL: &'static str = "DELETE FROM conversations WHERE id = ?1";

/// The statement that adds a message.
pub const INSERT_MESSAGE_SQL: &'static str =
    "INSERT INTO messages (conversation_id, role, content, seq) VALUES (?1, ?2, ?3, ?4)";

/// The query for the messages of a conversation, in the order of their
/// sequence numbers.
pub const MESSAGES_SQL: &'static str =
    "SELECT id, conversation_id, role, content, seq FROM messages WHERE conversation_id = ?1 ORDER BY seq ASC";

/// The statement that sets the notes of a conversation.
pub const UPDATE_NOTES_SQL: &'static str = "UPDATE conversations SET notes = ?1 WHERE id = ?2";

/// The statement that sets the summary of a conversation.
pub const UPDATE_SUMMARY_SQL: &'static str = "UPDATE conversations SET summary = ?1 WHERE id = ?2";

/// The number of columns of a conversation.
pub const CONVERSATION_COLUMNS: usize = 5;

/// The number of columns of a message.
pub const MESSAGE_COLUMNS: usize = 5;

/// The number of columns of a mind-map.
pub const MINDMAP_COLUMNS: usize = 8;

/// The number of columns of a bucket of the analytics.
pub const ANALYTICS_COLUMNS: usize = 2;

/// The query for the mind-map of a conversation.
pub const MINDMAP_SQL: &'static str =
    "SELECT id, conversation_id, title, nodes, connections, theme, created_at, updated_at FROM mindmaps WHERE conversation_id = ?1";

/// The query for the id of the mind-map of a conversation.
pub const MINDMAP_ID_SQL: &'static str = "SELECT id FROM mindmaps WHERE conversation_id = ?1";

/// The statement that saves a mind-map over the one that is there. It sets
/// the time of the last save to the present time where that is later than
/// the time that stands there, and else to one second behind the time that
/// stands there: the store tells the time in whole seconds, and each save
/// is to leave a later time than the save before it.
pub const UPDATE_MINDMAP_SQL: &'static str =
    "UPDATE mindmaps SET title = ?1, nodes = ?2, connections = ?3, theme = ?4, updated_at = CASE WHEN updated_at IS NULL OR CURRENT_TIMESTAMP > updated_at THEN CURRENT_TIMESTAMP ELSE datetime(updated_at, '+1 second') END WHERE conversation_id = ?5";

/// The statement that adds a mind-map.
pub const INSERT_MINDMAP_SQL: &'static str =
    "INSERT INTO mindmaps (conversation_id, title, nodes, connections, theme) VALUES (?1, ?2, ?3, ?4, ?5)";

/// The query that counts the conversations of the last 30 days by day.
pub const ANALYTICS_DAY_SQL: &'static str = "
            SELECT 
                DATE(created_at) as date,
                COUNT(*) as count
            FROM conversations 
            WHERE created_at >= DATE('now', '-30 days')
            GROUP BY DATE(created_at)
            ORDER BY date DESC
        ";

/// The query that counts the conversations of the last 12 weeks, which are 84
/// days, by week; a week is named by its Monday.
pub const ANALYTICS_WEEK_SQL: &'static str = "
            SELECT 
                DATE(created_at, 'weekday 0', '-6 days') as date,
                COUNT(*) as count
            FROM conversations 
            WHERE created_at >= DATE('now', '-84 days')
            GROUP BY DATE(created_at, 'weekday 0', '-6 days')
            ORDER BY date DESC
        ";

/// The query that counts the conversations of the last 12 months by month; a
/// month is named by its first day.
pub const ANALYTICS_MONTH_SQL: &'static str = "
            SELECT 
                DATE(created_at, 'start of month') as date,
                COUNT(*) as count
            FROM conversations 
            WHERE created_at >= DATE('now', '-12 months')
            GROUP BY DATE(created_at, 'start of month')
            ORDER BY date DESC
        ";

/// The error for a period that is none of `day`, `week` and `month`.
pub const INVALID_PERIOD: &'static str = "Invalid period. Use 'day', 'week', or 'month'";

/// The query for the key of the service that the application talks to.
pub const API_KEY_SQL: &'static str =
    "SELECT value FROM user_preferences WHERE key = 'gemini_api_key'";

/// The statement that sets that key, whether or not one is there.
pub const SET_API_KEY_SQL: &'static str = r#"
        INSERT INTO user_preferences (key, value, updated_at) 
        VALUES ('gemini_api_key', ?1, CURRENT_TIMESTAMP)
        ON CONFLICT(key) DO UPDATE SET 
            value = excluded.value,
            updated_at = excluded.updated_at
        "#;

/// What stands in an error where a query that must give a row gave none.
pub const NO_ROWS: &'static str = "Query returned no rows";

/// No parameters.
pub open spec fn no_params() -> ParamsView {
    ParamsView::Integers(Seq::empty())
}

/// Makes an empty list of parameters.
pub fn without_params() -> (params: Params)
    ensures
        params.deep_view() == no_params(),
{
    let none: Vec<i64> = Vec::new();
    Params::Integers(none)
}

/// A result as the contracts speak of it: with what its value and its error
/// text stand for.
pub open spec fn told<T: DeepView>(outcome: Result<T, String>) -> Result<T::V, Seq<char>> {
    match outcome {
        Ok(value) => Ok(value.deep_view()),
        Err(text) => Err(text@),
    }
}

/// What is said of a column that holds a value of another kind than the
/// record takes there.
pub open spec fn mismatch(index: nat) -> Seq<char> {
    "unexpected kind of value in column "@ + decimal(index as int)
}

/// Says that column `index` holds a value of another kind than the record
/// takes there.
pub fn mismatch_text(index: usize) -> (text: String)
    ensures
        text@ == mismatch(index as nat),
{
    let number = numeral(index as u64);
    joined("unexpected kind of value in column ", number.as_str())
}

/// The rows, or the refusal, that an answer to a query holds.
pub open spec fn rows_of(reply: Reply) -> Result<Seq<Seq<SqlValueView>>, FailureModel> {
    match reply {
        Reply::Rows(rows) => Ok(rows),
        Reply::Failed(failure) => Err(failure),
        _ => arbitrary(),
    }
}

/// The number of changed rows, or the refusal, that an answer to a statement
/// holds.
pub open spec fn changed_of(reply: Reply) -> Result<nat, FailureModel> {
    match reply {
        Reply::Changed(count) => Ok(count),
        Reply::Failed(failure) => Err(failure),
        _ => arbitrary(),
    }
}

/// The row id that an answer holds.
pub open spec fn row_id_of(reply: Reply) -> i64 {
    match reply {
        Reply::RowId(id) => id,
        _ => arbitrary(),
    }
}

/// The error of a list that the store refused to give: the words for the step
/// that failed, then the store's own.
pub open spec fn listing_error(failure: FailureModel) -> Seq<char> {
    (match failure.stage {
        Stage::Prepare => "Prepare error: "@,
        Stage::Bind => "Query error: "@,
        _ => "Row error: "@,
    }) + failure.detail
}

/// Words the refusal of a list.
pub fn listing_error_text(failure: &Failure) -> (text: String)
    ensures
        text@ == listing_error(failure.deep_view()),
{
    match failure.stage {
        Stage::Prepare => joined("Prepare error: ", failure.detail.as_str()),
        Stage::Bind => joined("Query error: ", failure.detail.as_str()),
        _ => joined("Row error: ", failure.detail.as_str()),
    }
}

/// The list that is made of an answer: its rows, each read by `record_of`; an
/// error where the store refused or a row does not fit.
pub open spec fn listed<V>(
    reply: Reply,
    record_of: spec_fn(Seq<SqlValueView>) -> Result<V, nat>,
) -> Result<Seq<V>, Seq<char>> {
    match rows_of(reply) {
        Ok(rows) => match records_of(rows, record_of) {
            Ok(records) => Ok(records),
            Err(index) => Err("Row error: "@ + mismatch(index)),
        },
        Err(failure) => Err(listing_error(failure)),
    }
}

/// The error of a single record that the store refused to give.
pub open spec fn lookup_error(failure: FailureModel) -> Seq<char> {
    (match failure.stage {
        Stage::Prepare => "Prepare error: "@,
        _ => "Query error: "@,
    }) + failure.detail
}

/// Words the refusal of a single record.
pub fn lookup_error_text(failure: &Failure) -> (text: String)
    ensures
        text@ == lookup_error(failure.deep_view()),
{
    match failure.stage {
        Stage::Prepare => joined("Prepare error: ", failure.detail.as_str()),
        _ => joined("Query error: ", failure.detail.as_str()),
    }
}

/// The single record that is made of an answer: none where the store gave no
/// row, else its first row read by `record_of`; an error where the store
/// refused or the row does not fit.
pub open spec fn looked_up<V>(
    reply: Reply,
    record_of: spec_fn(Seq<SqlValueView>) -> Result<V, nat>,
) -> Result<Option<V>, Seq<char>> {
    match rows_of(reply) {
        Ok(rows) => if rows.len() == 0 {
            Ok(None)
        } else {
            match record_of(rows[0]) {
                Ok(record) => Ok(Some(record)),
                Err(index) => Err("Query error: "@ + mismatch(index)),
            }
        },
        Err(failure) => Err(lookup_error(failure)),
    }
}

/// The request that tells whether the store answers.
pub open spec fn check_request() -> Request {
    Request::Query { sql: CHECK_SQL@, params: no_params(), columns: 0, max_rows: 1 }
}

/// What is made of the answer to the check: `true` where the store gave a
/// row, else an error.
pub open spec fn checked(reply: Reply) -> Result<bool, Seq<char>> {
    match rows_of(reply) {
        Ok(rows) => if rows.len() > 0 {
            Ok(true)
        } else {
            Err("Database check failed: "@ + NO_ROWS@)
        },
        Err(failure) => Err("Database check failed: "@ + failure.detail),
    }
}

/// Tells whether the store answers.
pub fn init_database(session: &mut Session<'_>) -> (outcome: Result<bool, String>)
    ensures
        asked_once(check_request(), old(session).journal(), final(session).journal()),
        told(outcome) == checked(final(session).journal().last().reply),
{
    let ghost before = session.journal();
    let params = without_params();
    let answer = session.query(CHECK_SQL, &params, 0, 1);
    assert(session.journal().drop_last() =~= before);
    match answer {
        Ok(rows) => {
            if rows.len() > 0 {
                Ok(true)
            } else {
                Err(joined("Database check failed: ", NO_ROWS))
            }
        },
        Err(failure) => Err(joined("Database check failed: ", failure.detail.as_str())),
    }
}

/// The request that adds a conversation.
pub open spec fn insert_conversation_request(name: Seq<char>, summary: Seq<char>) -> Request {
    Request::Execute { sql: INSERT_CONVERSATION_SQL@, params: ParamsView::Texts(seq![name, summary]) }
}

/// The script of an insert: run the statement `insert`; where the store
/// refuses, return the refusal behind `prefix`; else ask for the row id of
/// what was inserted and return it.
pub open spec fn insert_script(insert: Request, prefix: Seq<char>) -> spec_fn(Seq<Reply>) -> Next<
    Result<i64, Seq<char>>,
> {
    |replies: Seq<Reply>|
        if replies.len() == 0 {
            Next::Ask(insert)
        } else {
            match changed_of(replies[0]) {
                Err(failure) => Next::Return(Err(prefix + failure.detail)),
                Ok(_) => if replies.len() == 1 {
                    Next::Ask(Request::LastInsertRowid)
                } else {
                    Next::Return(Ok(row_id_of(replies[1])))
                },
            }
        }
}

/// Runs an insert and gives the row id of what was inserted.
fn insert(session: &mut Session<'_>, sql: &str, params: &Params, prefix: &str) -> (outcome: Result<
    i64,
    String,
>)
    ensures
        follows(
            insert_script(
                (Request::Execute { sql: sql@, params: params.deep_view() }),
                prefix@,
            ),
            old(session).journal(),
            final(session).journal(),
            told(outcome),
        ),
{
    let ghost before = session.journal();
    let ghost script = insert_script(
        Request::Execute { sql: sql@, params: params.deep_view() },
        prefix@,
    );
    proof {
        lemma_script_start(script, before);
    }
    let ran = session.execute(sql, params);
    proof {
        lemma_script_step(script, before, before, session.journal().last());
    }
    match ran {
        Err(failure) => Err(joined(prefix, failure.detail.as_str())),
        Ok(_) => {
            let ghost earlier = session.journal();
            let id = session.last_insert_rowid();
            proof {
                lemma_script_step(script, before, earlier, session.journal().last());
            }
            Ok(id)
        },
    }
}

/// Adds a conversation and gives its id.
pub fn create_conversation(session: &mut Session<'_>, name: String, summary: String) -> (outcome:
    Result<i64, String>)
    ensures
        follows(
            insert_script(
                insert_conversation_request(name@, summary@),
                "Insert conversation error: "@,
            ),
            old(session).journal(),
            final(session).journal(),
            told(outcome),
        ),
{
    let ghost texts = seq![name@, summary@];
    let params = Params::Texts(vec![name, summary]);
    proof {
        assert(params->Texts_0.deep_view() =~= texts);
    }
    insert(session, INSERT_CONVERSATION_SQL, &params, "Insert conversation error: ")
}

/// The request for all conversations.
pub open spec fn conversations_request() -> Request {
    Request::Query {
        sql: CONVERSATIONS_SQL@,
        params: no_params(),
        columns: CONVERSATION_COLUMNS as nat,
        max_rows: usize::MAX as nat,
    }
}

/// Words the outcome of reading a list.
fn list_outcome<T: DeepView>(records: Result<Vec<T>, usize>) -> (outcome: Result<Vec<T>, String>)
    ensures
        told(outcome) == (match read_all(records) {
            Ok(list) => Ok::<Seq<T::V>, Seq<char>>(list),
            Err(index) => Err("Row error: "@ + mismatch(index)),
        }),
{
    match records {
        Ok(list) => Ok(list),
        Err(index) => {
            let detail = mismatch_text(index);
            Err(joined("Row error: ", detail.as_str()))
        },
    }
}

/// Gives all conversations, the newest first.
pub fn get_conversations(session: &mut Session<'_>) -> (outcome: Result<Vec<Conversation>, String>)
    ensures
        asked_once(conversations_request(), old(session).journal(), final(session).journal()),
        told(outcome) == listed(final(session).journal().last().reply, conversation_reader()),
{
    let ghost before = session.journal();
    let params = without_params();
    let answer = session.query(CONVERSATIONS_SQL, &params, CONVERSATION_COLUMNS, usize::MAX);
    assert(session.journal().drop_last() =~= before);
    match answer {
        Ok(rows) => list_outcome(decode_conversations(&rows)),
        Err(failure) => Err(listing_error_text(&failure)),
    }
}

/// The request for one page of the conversations.
pub open spec fn conversations_page_request(limit: i64, offset: i64) -> Request {
    Request::Query {
        sql: CONVERSATIONS_PAGE_SQL@,
        params: ParamsView::Integers(seq![limit, offset]),
        columns: CONVERSATION_COLUMNS as nat,
        max_rows: usize::MAX as nat,
    }
}

/// Gives at most `limit` conversations, the newest first, without the first
/// `offset` of them.
pub fn get_conversations_paginated(session: &mut Session<'_>, limit: i64, offset: i64) -> (outcome:
    Result<Vec<Conversation>, String>)
    ensures
        asked_once(
            conversations_page_request(limit, offset),
            old(session).journal(),
            final(session).journal(),
        ),
        told(outcome) == listed(final(session).journal().last().reply, conversation_reader()),
{
    let ghost before = session.journal();
    let params = Params::Integers(vec![limit, offset]);
    assert(params->Integers_0@ =~= seq![limit, offset]);
    let answer = session.query(CONVERSATIONS_PAGE_SQL, &params, CONVERSATION_COLUMNS, usize::MAX);
    assert(session.journal().drop_last() =~= before);
    match answer {
        Ok(rows) => list_outcome(decode_conversations(&rows)),
        Err(failure) => Err(listing_error_text(&failure)),
    }
}

/// The request for the number of conversations.
pub open spec fn conversations_count_request() -> Request {
    Request::Query { sql: CONVERSATIONS_COUNT_SQL@, params: no_params(), columns: 1, max_rows: 1 }
}

/// The number that is made of an answer: the integer of its first row; an
/// error where the store refused, gave no row or gave another kind of value.
pub open spec fn counted(reply: Reply) -> Result<i64, Seq<char>> {
    match rows_of(reply) {
        Ok(rows) => if rows.len() == 0 {
            Err("Query error: "@ + NO_ROWS@)
        } else {
            match integer_at(rows[0], 0) {
                Some(count) => Ok(count),
                None => Err("Query error: "@ + mismatch(0)),
            }
        },
        Err(failure) => Err("Query error: "@ + failure.detail),
    }
}

/// Gives the number of conversations.
pub fn get_conversations_count(session: &mut Session<'_>) -> (outcome: Result<i64, String>)
    ensures
        asked_once(conversations_count_request(), old(session).journal(), final(session).journal()),
        told(outcome) == counted(final(session).journal().last().reply),
{
    let ghost before = session.journal();
    let params = without_params();
    let answer = session.query(CONVERSATIONS_COUNT_SQL, &params, 1, 1);
    assert(session.journal().drop_last() =~= before);
    match answer {
        Ok(rows) => {
            if rows.len() == 0 {
                Err(joined("Query error: ", NO_ROWS))
            } else {
                assert(rows.deep_view()[0] == rows[0].deep_view());
                match integer_in(&rows[0], 0) {
                    Some(count) => Ok(count),
                    None => {
                        let detail = mismatch_text(0);
                        Err(joined("Query error: ", detail.as_str()))
                    },
                }
            }
        },
        Err(failure) => Err(joined("Query error: ", failure.detail.as_str())),
    }
}

/// The request for the conversation `conversation_id`.
pub open spec fn conversation_request(conversation_id: i64) -> Request {
    Request::Query {
        sql: CONVERSATION_SQL@,
        params: ParamsView::Integers(seq![conversation_id]),
        columns: CONVERSATION_COLUMNS as nat,
        max_rows: 1,
    }
}

/// Gives the conversation `conversation_id`, or none where the store has no
/// such conversation.
pub fn get_conversation(session: &mut Session<'_>, conversation_id: i64) -> (outcome: Result<
    Option<Conversation>,
    String,
>)
    ensures
        asked_once(
            conversation_request(conversation_id),
            old(session).journal(),
            final(session).journal(),
        ),
        told(outcome) == looked_up(final(session).journal().last().reply, conversation_reader()),
{
    let ghost before = session.journal();
    let params = Params::Integers(vec![conversation_id]);
    assert(params->Integers_0@ =~= seq![conversation_id]);
    let answer = session.query(CONVERSATION_SQL, &params, CONVERSATION_COLUMNS, 1);
    assert(session.journal().drop_last() =~= before);
    match answer {
        Ok(rows) => {
            if rows.len() == 0 {
                Ok(None)
            } else {
                assert(rows.deep_view()[0] == rows[0].deep_view());
                match decode_conversation(&rows[0]) {
                    Ok(record) => Ok(Some(record)),
                    Err(index) => {
                        let detail = mismatch_text(index);
                        Err(joined("Query error: ", detail.as_str()))
                    },
                }
            }
        },
        Err(failure) => Err(lookup_error_text(&failure)),
    }
}

/// The request that runs the delete statement `sql` for `conversation_id`.
pub open spec fn delete_request(sql: Seq<char>, conversation_id: i64) -> Request {
    Request::Execute { sql, params: ParamsView::Integers(seq![conversation_id]) }
}

/// The script of the deletion of a conversation: delete its messages, then
/// its mind-map, then the conversation itself. The first refusal of the
/// store ends the deletion with an error that names the step. After the last
/// step the result tells whether a conversation was deleted.
pub open spec fn delete_script(conversation_id: i64) -> spec_fn(Seq<Reply>) -> Next<
    Result<bool, Seq<char>>,
> {
    |replies: Seq<Reply>|
        if replies.len() == 0 {
            Next::Ask(delete_request(DELETE_MESSAGES_SQL@, conversation_id))
        } else {
            match changed_of(replies[0]) {
                Err(failure) => Next::Return(Err("Delete messages error: "@ + failure.detail)),
                Ok(_) => if replies.len() == 1 {
                    Next::Ask(delete_request(DELETE_MINDMAPS_SQL@, conversation_id))
                } else {
                    match changed_of(replies[1]) {
                        Err(failure) => Next::Return(
                            Err("Delete mindmaps error: "@ + failure.detail),
                        ),
                        Ok(_) => if replies.len() == 2 {
                            Next::Ask(delete_request(DELETE_CONVERSATION_SQL@, conversation_id))
                        } else {
                            match changed_of(replies[2]) {
                                Err(failure) => Next::Return(
                                    Err("Delete conversation error: "@ + failure.detail),
                                ),
                                Ok(changed) => Next::Return(Ok(changed > 0)),
                            }
                        },
                    }
                },
            }
        }
}

/// A deletion that ends without an error has asked for three things and no
/// more, each for the conversation `conversation_id` alone: to delete its
/// messages, then its mind-map, then the conversation itself; none was
/// refused; and the result tells whether the last changed a row.
pub proof fn lemma_deletion_that_ends_well(
    conversation_id: i64,
    before: Seq<Exchange>,
    after: Seq<Exchange>,
    deleted: bool,
)
    requires
        follows(delete_script(conversation_id), before, after, Ok::<bool, Seq<char>>(deleted)),
    ensures
        ({
            let replies = replies_since(before, after);
            let start = before.len() as int;
            &&& replies.len() == 3
            &&& after[start].request == delete_request(DELETE_MESSAGES_SQL@, conversation_id)
            &&& after[start + 1].request == delete_request(DELETE_MINDMAPS_SQL@, conversation_id)
            &&& after[start + 2].request == delete_request(
                DELETE_CONVERSATION_SQL@,
                conversation_id,
            )
            &&& replies[0] is Changed && replies[1] is Changed
            &&& replies[2] matches Reply::Changed(changed) && deleted == (changed > 0)
        }),
{
    let script = delete_script(conversation_id);
    let replies = replies_since(before, after);
    let start = before.len() as int;
    assert(replies.take(replies.len() as int) =~= replies);
    assert(replies.len() >= 3) by {
        if replies.len() == 1 {
            assert(answers(after[start].request, after[start].reply));
            assert(script(replies.take(0)) == Next::<Result<bool, Seq<char>>>::Ask(
                after[start + 0].request,
            ));
        } else if replies.len() == 2 {
            assert(answers(after[start].request, after[start].reply));
            assert(answers(after[start + 1].request, after[start + 1].reply));
            assert(script(replies.take(0)) == Next::<Result<bool, Seq<char>>>::Ask(
                after[start + 0].request,
            ));
            assert(script(replies.take(1)) == Next::<Result<bool, Seq<char>>>::Ask(
                after[start + 1].request,
            ));
            assert(replies.take(1)[0] == replies[0]);
        }
    }
    assert(script(replies.take(0)) == Next::<Result<bool, Seq<char>>>::Ask(
        after[start + 0].request,
    ));
    assert(script(replies.take(1)) == Next::<Result<bool, Seq<char>>>::Ask(
        after[start + 1].request,
    ));
    assert(script(replies.take(2)) == Next::<Result<bool, Seq<char>>>::Ask(
        after[start + 2].request,
    ));
    assert(replies.take(1)[0] == replies[0]);
    assert(replies.take(2)[0] == replies[0]);
    assert(replies.take(2)[1] == replies[1]);
    assert(answers(after[start].request, after[start].reply));
    assert(answers(after[start + 1].request, after[start + 1].reply));
    assert(answers(after[start + 2].request, after[start + 2].reply));
    if replies.len() > 3 {
        assert(script(replies.take(3)) == Next::<Result<bool, Seq<char>>>::Ask(
            after[start + 3].request,
        ));
        assert(replies.take(3)[0] == replies[0]);
        assert(replies.take(3)[1] == replies[1]);
        assert(replies.take(3)[2] == replies[2]);
    }
}

/// Deletes the conversation `conversation_id` with its messages and its
/// mind-map, and tells whether there was such a conversation.
pub fn delete_conversation(session: &mut Session<'_>, conversation_id: i64) -> (outcome: Result<
    bool,
    String,
>)
    ensures
        follows(
            delete_script(conversation_id),
            old(session).journal(),
            final(session).journal(),
            told(outcome),
        ),
{
    let ghost before = session.journal();
    let ghost script = delete_script(conversation_id);
    proof {
        lemma_script_start(script, before);
    }
    let params = Params::Integers(vec![conversation_id]);
    assert(params->Integers_0@ =~= seq![conversation_id]);
    let messages = session.execute(DELETE_MESSAGES_SQL, &params);
    proof {
        lemma_script_step(script, before, before, session.journal().last());
    }
    match messages {
        Err(failure) => {
            return Err(joined("Delete messages error: ", failure.detail.as_str()));
        },
        Ok(_) => {},
    }
    let ghost earlier = session.journal();
    let mindmaps = session.execute(DELETE_MINDMAPS_SQL, &params);
    proof {
        lemma_script_step(script, before, earlier, session.journal().last());
    }
    match mindmaps {
        Err(failure) => {
            return Err(joined("Delete mindmaps error: ", failure.detail.as_str()));
        },
        Ok(_) => {},
    }
    let ghost earlier = session.journal();
    let conversation = session.execute(DELETE_CONVERSATION_SQL, &params);
    proof {
        lemma_script_step(script, before, earlier, session.journal().last());
    }
    match conversation {
        Err(failure) => Err(joined("Delete conversation error: ", failure.detail.as_str())),
        Ok(changed) => Ok(changed > 0),
    }
}

/// The request that adds a message.
pub open spec fn insert_message_request(
    conversation_id: i64,
    role: Seq<char>,
    content: Seq<char>,
    seq: i64,
) -> Request {
    Request::Execute {
        sql: INSERT_MESSAGE_SQL@,
        params: ParamsView::Texts(
            seq![signed_decimal(conversation_id as int), role, content, signed_decimal(seq as int)],
        ),
    }
}

/// Adds a message to the conversation `conversation_id` and gives its id.
/// `seq` is the message's sequence number, by which the messages of a
/// conversation are ordered: the caller's clock in milliseconds at the time
/// of the call.
pub fn save_message(
    session: &mut Session<'_>,
    conversation_id: i64,
    role: String,
    content: String,
    seq: i64,
) -> (outcome: Result<i64, String>)
    ensures
        follows(
            insert_script(
                insert_message_request(conversation_id, role@, content@, seq),
                "Insert message error: "@,
            ),
            old(session).journal(),
            final(session).journal(),
            told(outcome),
        ),
{
    let ghost texts = seq![
        signed_decimal(conversation_id as int),
        role@,
        content@,
        signed_decimal(seq as int),
    ];
    let params = Params::Texts(
        vec![decimal_text(conversation_id), role, content, decimal_text(seq)],
    );
    proof {
        assert(params->Texts_0.deep_view() =~= texts);
    }
    insert(session, INSERT_MESSAGE_SQL, &params, "Insert message error: ")
}

/// The request for the messages of the conversation `conversation_id`.
pub open spec fn messages_request(conversation_id: i64) -> Request {
    Request::Query {
        sql: MESSAGES_SQL@,
        params: ParamsView::Integers(seq![conversation_id]),
        columns: MESSAGE_COLUMNS as nat,
        max_rows: usize::MAX as nat,
    }
}

/// Gives the messages of the conversation `conversation_id`, in the order in
/// which the store gives them: it is asked for the order of their sequence
/// numbers.
pub fn get_messages(session: &mut Session<'_>, conversation_id: i64) -> (outcome: Result<
    Vec<Message>,
    String,
>)
    ensures
        asked_once(
            messages_request(conversation_id),
            old(session).journal(),
            final(session).journal(),
        ),
        told(outcome) == listed(final(session).journal().last().reply, message_reader()),
{
    let ghost before = session.journal();
    let params = Params::Integers(vec![conversation_id]);
    assert(params->Integers_0@ =~= seq![conversation_id]);
    let answer = session.query(MESSAGES_SQL, &params, MESSAGE_COLUMNS, usize::MAX);
    assert(session.journal().drop_last() =~= before);
    match answer {
        Ok(rows) => list_outcome(decode_messages(&rows)),
        Err(failure) => Err(listing_error_text(&failure)),
    }
}

/// The request that sets a text of the conversation `conversation_id` with
/// the statement `sql`.
pub open spec fn update_request(sql: Seq<char>, text: Seq<char>, conversation_id: i64) -> Request {
    Request::Execute {
        sql,
        params: ParamsView::Texts(seq![text, signed_decimal(conversation_id as int)]),
    }
}

/// What is made of the answer to an update: whether a row was changed, or the
/// refusal behind `prefix`.
pub open spec fn updated(reply: Reply, prefix: Seq<char>) -> Result<bool, Seq<char>> {
    match changed_of(reply) {
        Ok(changed) => Ok(changed > 0),
        Err(failure) => Err(prefix + failure.detail),
    }
}

/// Sets a text of a conversation and tells whether there was such a
/// conversation.
fn update_text(
    session: &mut Session<'_>,
    sql: &str,
    text: String,
    conversation_id: i64,
    prefix: &str,
) -> (outcome: Result<bool, String>)
    ensures
        asked_once(
            update_request(sql@, text@, conversation_id),
            old(session).journal(),
            final(session).journal(),
        ),
        told(outcome) == updated(final(session).journal().last().reply, prefix@),
{
    let ghost before = session.journal();
    let ghost texts = seq![text@, signed_decimal(conversation_id as int)];
    let params = Params::Texts(vec![text, decimal_text(conversation_id)]);
    proof {
        assert(params->Texts_0.deep_view() =~= texts);
    }
    let answer = session.execute(sql, &params);
    assert(session.journal().drop_last() =~= before);
    match answer {
        Ok(changed) => Ok(changed > 0),
        Err(failure) => Err(joined(prefix, failure.detail.as_str())),
    }
}

/// Sets the notes of the conversation `conversation_id` and tells whether
/// there was such a conversation.
pub fn update_conversation_notes(
    session: &mut Session<'_>,
    conversation_id: i64,
    notes: String,
) -> (outcome: Result<bool, String>)
    ensures
        asked_once(
            update_request(UPDATE_NOTES_SQL@, notes@, conversation_id),
            old(session).journal(),
            final(session).journal(),
        ),
        told(outcome) == updated(final(session).journal().last().reply, "Update notes error: "@),
{
    update_text(session, UPDATE_NOTES_SQL, notes, conversation_id, "Update notes error: ")
}

/// Sets the summary of the conversation `conversation_id` and tells whether
/// there was such a conversation.
pub fn update_conversation_summary(
    session: &mut Session<'_>,
    conversation_id: i64,
    summary: String,
) -> (outcome: Result<bool, String>)
    ensures
        asked_once(
            update_request(UPDATE_SUMMARY_SQL@, summary@, conversation_id),
            old(session).journal(),
            final(session).journal(),
        ),
        told(outcome) == updated(final(session).journal().last().reply, "Update summary error: "@),
{
    update_text(session, UPDATE_SUMMARY_SQL, summary, conversation_id, "Update summary error: ")
}

/// The request for the mind-map of the conversation `conversation_id`.
pub open spec fn mindmap_request(conversation_id: i64) -> Request {
    Request::Query {
        sql: MINDMAP_SQL@,
        params: ParamsView::Integers(seq![conversation_id]),
        columns: MINDMAP_COLUMNS as nat,
        max_rows: 1,
    }
}

/// The way a mind-map is read from a row.
pub open spec fn mindmap_reader() -> spec_fn(Seq<SqlValueView>) -> Result<MindMapDataView, nat> {
    |row: Seq<SqlValueView>| mindmap_of(row)
}

/// Gives the mind-map of the conversation `conversation_id`, or none where
/// the store has none for it.
pub fn get_mindmap_data(session: &mut Session<'_>, conversation_id: i64) -> (outcome: Result<
    Option<MindMapData>,
    String,
>)
    ensures
        asked_once(
            mindmap_request(conversation_id),
            old(session).journal(),
            final(session).journal(),
        ),
        told(outcome) == looked_up(final(session).journal().last().reply, mindmap_reader()),
{
    let ghost before = session.journal();
    let params = Params::Integers(vec![conversation_id]);
    assert(params->Integers_0@ =~= seq![conversation_id]);
    let answer = session.query(MINDMAP_SQL, &params, MINDMAP_COLUMNS, 1);
    assert(session.journal().drop_last() =~= before);
    match answer {
        Ok(rows) => {
            if rows.len() == 0 {
                Ok(None)
            } else {
                assert(rows.deep_view()[0] == rows[0].deep_view());
                match decode_mindmap(&rows[0]) {
                    Ok(record) => Ok(Some(record)),
                    Err(index) => {
                        let detail = mismatch_text(index);
                        Err(joined("Query error: ", detail.as_str()))
                    },
                }
            }
        },
        Err(failure) => Err(lookup_error_text(&failure)),
    }
}

/// The request for the id of the mind-map of the conversation
/// `conversation_id`.
pub open spec fn mindmap_id_request(conversation_id: i64) -> Request {
    Request::Query {
        sql: MINDMAP_ID_SQL@,
        params: ParamsView::Integers(seq![conversation_id]),
        columns: 1,
        max_rows: 1,
    }
}

/// The request that saves a mind-map over the one of the conversation
/// `conversation_id`.
pub open spec fn update_mindmap_request(
    conversation_id: i64,
    title: Seq<char>,
    nodes: Seq<char>,
    connections: Seq<char>,
    theme: Seq<char>,
) -> Request {
    Request::Execute {
        sql: UPDATE_MINDMAP_SQL@,
        params: ParamsView::Texts(
            seq![title, nodes, connections, theme, signed_decimal(conversation_id as int)],
        ),
    }
}

/// The request that adds a mind-map for the conversation `conversation_id`.
pub open spec fn insert_mindmap_request(
    conversation_id: i64,
    title: Seq<char>,
    nodes: Seq<char>,
    connections: Seq<char>,
    theme: Seq<char>,
) -> Request {
    Request::Execute {
        sql: INSERT_MINDMAP_SQL@,
        params: ParamsView::Texts(
            seq![signed_decimal(conversation_id as int), title, nodes, connections, theme],
        ),
    }
}

/// The script of the saving of a mind-map: ask for the id of the mind-map of
/// the conversation. Where there is one, save over it and return that id.
/// Where there is none, add the mind-map and return the row id that the
/// store then gives. A refusal of the store ends the saving with an error
/// that names the step.
pub open spec fn save_mindmap_script(
    conversation_id: i64,
    title: Seq<char>,
    nodes: Seq<char>,
    connections: Seq<char>,
    theme: Seq<char>,
) -> spec_fn(Seq<Reply>) -> Next<Result<i64, Seq<char>>> {
    |replies: Seq<Reply>|
        if replies.len() == 0 {
            Next::Ask(mindmap_id_request(conversation_id))
        } else {
            match rows_of(replies[0]) {
                Err(failure) => Next::Return(Err("Query error: "@ + failure.detail)),
                Ok(rows) => if rows.len() == 0 {
                    insert_script(
                        insert_mindmap_request(conversation_id, title, nodes, connections, theme),
                        "Insert mindmap error: "@,
                    )(replies.skip(1))
                } else {
                    match integer_at(rows[0], 0) {
                        None => Next::Return(Err("Query error: "@ + mismatch(0))),
                        Some(mindmap_id) => if replies.len() == 1 {
                            Next::Ask(
                                update_mindmap_request(
                                    conversation_id,
                                    title,
                                    nodes,
                                    connections,
                                    theme,
                                ),
                            )
                        } else {
                            match changed_of(replies[1]) {
                                Err(failure) => Next::Return(
                                    Err("Update mindmap error: "@ + failure.detail),
                                ),
                                Ok(_) => Next::Return(Ok(mindmap_id)),
                            }
                        },
                    }
                },
            }
        }
}

/// A saving that ends without an error has first asked for the id of the
/// mind-map of the conversation. Where the store gave one, it has then saved
/// over that mind-map, added none, and returned that id. Where the store gave
/// none, it has then added the mind-map and returned the row id that the
/// store gave for it.
pub proof fn lemma_saving_that_ends_well(
    conversation_id: i64,
    title: Seq<char>,
    nodes: Seq<char>,
    connections: Seq<char>,
    theme: Seq<char>,
    before: Seq<Exchange>,
    after: Seq<Exchange>,
    id: i64,
)
    requires
        follows(
            save_mindmap_script(conversation_id, title, nodes, connections, theme),
            before,
            after,
            Ok::<i64, Seq<char>>(id),
        ),
    ensures
        ({
            let replies = replies_since(before, after);
            let start = before.len() as int;
            &&& replies.len() >= 2
            &&& after[start].request == mindmap_id_request(conversation_id)
            &&& replies[0] matches Reply::Rows(rows) && if rows.len() > 0 {
                &&& replies.len() == 2
                &&& after[start + 1].request == update_mindmap_request(
                    conversation_id,
                    title,
                    nodes,
                    connections,
                    theme,
                )
                &&& replies[1] is Changed
                &&& integer_at(rows[0], 0) == Some(id)
            } else {
                &&& replies.len() == 3
                &&& after[start + 1].request == insert_mindmap_request(
                    conversation_id,
                    title,
                    nodes,
                    connections,
                    theme,
                )
                &&& replies[1] is Changed
                &&& after[start + 2].request == Request::LastInsertRowid
                &&& replies[2] == Reply::RowId(id)
            }
        }),
{
    let script = save_mindmap_script(conversation_id, title, nodes, connections, theme);
    let replies = replies_since(before, after);
    let start = before.len() as int;
    assert(replies.take(replies.len() as int) =~= replies);
    assert(replies.len() >= 1);
    assert(script(replies.take(0)) == Next::<Result<i64, Seq<char>>>::Ask(
        after[start + 0].request,
    ));
    assert(answers(after[start].request, after[start].reply));
    let rows = replies[0]->Rows_0;
    assert(replies.len() >= 2) by {
        if replies.len() == 1 {
            assert(replies.skip(1) =~= Seq::<Reply>::empty());
        }
    }
    assert(script(replies.take(1)) == Next::<Result<i64, Seq<char>>>::Ask(
        after[start + 1].request,
    ));
    assert(replies.take(1)[0] == replies[0]);
    assert(replies.take(1).skip(1) =~= Seq::<Reply>::empty());
    assert(answers(after[start + 1].request, after[start + 1].reply));
    if rows.len() > 0 {
        if replies.len() > 2 {
            assert(script(replies.take(2)) == Next::<Result<i64, Seq<char>>>::Ask(
                after[start + 2].request,
            ));
            assert(replies.take(2)[0] == replies[0]);
            assert(replies.take(2)[1] == replies[1]);
        }
    } else {
        assert(replies.skip(1)[0] == replies[1]);
        if replies.len() == 2 {
            assert(replies.skip(1).len() == 1);
        } else {
            assert(script(replies.take(2)) == Next::<Result<i64, Seq<char>>>::Ask(
                after[start + 2].request,
            ));
            assert(replies.take(2)[0] == replies[0]);
            assert(replies.take(2).skip(1) =~= seq![replies[1]]);
            assert(answers(after[start + 2].request, after[start + 2].reply));
            assert(replies.skip(1)[1] == replies[2]);
            if replies.len() > 3 {
                assert(script(replies.take(3)) == Next::<Result<i64, Seq<char>>>::Ask(
                    after[start + 3].request,
                ));
                assert(replies.take(3)[0] == replies[0]);
                assert(replies.take(3).skip(1) =~= seq![replies[1], replies[2]]);
            }
        }
    }
}

/// Saves the mind-map of the conversation `conversation_id`, over the one
/// that is there or as a new one, and gives its id.
pub fn save_mindmap_data(
    session: &mut Session<'_>,
    conversation_id: i64,
    title: String,
    nodes: String,
    connections: String,
    theme: String,
) -> (outcome: Result<i64, String>)
    ensures
        follows(
            save_mindmap_script(conversation_id, title@, nodes@, connections@, theme@),
            old(session).journal(),
            final(session).journal(),
            told(outcome),
        ),
{
    let ghost before = session.journal();
    let ghost script = save_mindmap_script(conversation_id, title@, nodes@, connections@, theme@);
    proof {
        lemma_script_start(script, before);
    }
    let key = Params::Integers(vec![conversation_id]);
    assert(key->Integers_0@ =~= seq![conversation_id]);
    let existing = session.query(MINDMAP_ID_SQL, &key, 1, 1);
    proof {
        lemma_script_step(script, before, before, session.journal().last());
    }
    let rows = match existing {
        Err(failure) => {
            return Err(joined("Query error: ", failure.detail.as_str()));
        },
        Ok(rows) => rows,
    };
    if rows.len() == 0 {
        let ghost texts = seq![
            signed_decimal(conversation_id as int),
            title@,
            nodes@,
            connections@,
            theme@,
        ];
        let params = Params::Texts(
            vec![decimal_text(conversation_id), title, nodes, connections, theme],
        );
        proof {
            assert(params->Texts_0.deep_view() =~= texts);
        }
        let ghost earlier = session.journal();
        let ghost first = replies_since(before, earlier);
        let ran = session.execute(INSERT_MINDMAP_SQL, &params);
        proof {
            assert(first.skip(1) =~= Seq::<Reply>::empty());
            lemma_script_step(script, before, earlier, session.journal().last());
        }
        match ran {
            Err(failure) => {
                proof {
                    let now = replies_since(before, session.journal());
                    assert(now.skip(1) =~= seq![now[1]]);
                }
                Err(joined("Insert mindmap error: ", failure.detail.as_str()))
            },
            Ok(_) => {
                let ghost earlier = session.journal();
                proof {
                    let now = replies_since(before, earlier);
                    assert(now.skip(1) =~= seq![now[1]]);
                }
                let id = session.last_insert_rowid();
                proof {
                    lemma_script_step(script, before, earlier, session.journal().last());
                    let now = replies_since(before, session.journal());
                    assert(now.skip(1) =~= seq![now[1], now[2]]);
                }
                Ok(id)
            },
        }
    } else {
        assert(rows.deep_view()[0] == rows[0].deep_view());
        match integer_in(&rows[0], 0) {
            None => {
                let detail = mismatch_text(0);
                Err(joined("Query error: ", detail.as_str()))
            },
            Some(mindmap_id) => {
                let ghost texts = seq![
                    title@,
                    nodes@,
                    connections@,
                    theme@,
                    signed_decimal(conversation_id as int),
                ];
                let params = Params::Texts(
                    vec![title, nodes, connections, theme, decimal_text(conversation_id)],
                );
                proof {
                    assert(params->Texts_0.deep_view() =~= texts);
                }
                let ghost earlier = session.journal();
                let ran = session.execute(UPDATE_MINDMAP_SQL, &params);
                proof {
                    lemma_script_step(script, before, earlier, session.journal().last());
                }
                match ran {
                    Err(failure) => Err(joined("Update mindmap error: ", failure.detail.as_str())),
                    Ok(_) => Ok(mindmap_id),
                }
            },
        }
    }
}

/// A period by which conversations are counted.
#[derive(Clone, Copy, PartialEq, Eq, Structural, Debug)]
pub enum Period {
    Day,
    Week,
    Month,
}

/// The period that `text` names, if it names one: `day`, `week` or `month`.
pub open spec fn period_of(text: Seq<char>) -> Option<Period> {
    if text == "day"@ {
        Some(Period::Day)
    } else if text == "week"@ {
        Some(Period::Week)
    } else if text == "month"@ {
        Some(Period::Month)
    } else {
        None
    }
}

/// Reads a period from its name.
pub fn parse_period(text: &String) -> (period: Option<Period>)
    ensures
        period == period_of(text@),
{
    if *text == "day".to_owned() {
        Some(Period::Day)
    } else if *text == "week".to_owned() {
        Some(Period::Week)
    } else if *text == "month".to_owned() {
        Some(Period::Month)
    } else {
        None
    }
}

/// The query that counts the conversations by `period`.
pub open spec fn analytics_sql(period: Period) -> Seq<char> {
    match period {
        Period::Day => ANALYTICS_DAY_SQL@,
        Period::Week => ANALYTICS_WEEK_SQL@,
        Period::Month => ANALYTICS_MONTH_SQL@,
    }
}

/// The request that counts the conversations by `period`.
pub open spec fn analytics_request(period: Period) -> Request {
    Request::Query {
        sql: analytics_sql(period),
        params: no_params(),
        columns: ANALYTICS_COLUMNS as nat,
        max_rows: usize::MAX as nat,
    }
}

/// Counts the conversations of the latest time by `period`, one of `day`,
/// `week` and `month`: the last 30 days by day, the last 12 weeks by week,
/// the last 12 months by month, the latest bucket first. Any other period is
/// refused, and the store is not asked.
pub fn get_conversation_analytics(session: &mut Session<'_>, period: String) -> (outcome: Result<
    Vec<AnalyticsData>,
    String,
>)
    ensures
        match period_of(period@) {
            None => {
                &&& final(session).journal() == old(session).journal()
                &&& told(outcome) == Err::<Seq<AnalyticsDataView>, Seq<char>>(INVALID_PERIOD@)
            },
            Some(bucket) => {
                &&& asked_once(
                    analytics_request(bucket),
                    old(session).journal(),
                    final(session).journal(),
                )
                &&& told(outcome) == listed(
                    final(session).journal().last().reply,
                    analytics_reader(),
                )
            },
        },
{
    let sql = match parse_period(&period) {
        None => {
            return Err(INVALID_PERIOD.to_owned());
        },
        Some(Period::Day) => ANALYTICS_DAY_SQL,
        Some(Period::Week) => ANALYTICS_WEEK_SQL,
        Some(Period::Month) => ANALYTICS_MONTH_SQL,
    };
    let ghost before = session.journal();
    let params = without_params();
    let answer = session.query(sql, &params, ANALYTICS_COLUMNS, usize::MAX);
    assert(session.journal().drop_last() =~= before);
    match answer {
        Ok(rows) => list_outcome(decode_analytics_rows(&rows)),
        Err(failure) => Err(listing_error_text(&failure)),
    }
}

/// The request for the key.
pub open spec fn api_key_request() -> Request {
    Request::Query { sql: API_KEY_SQL@, params: no_params(), columns: 1, max_rows: 1 }
}

/// The key that is made of an answer: none where the store gave no row or a
/// row without a value; an error where the store refused or gave a value
/// that is no text.
pub open spec fn api_key_of(reply: Reply) -> Result<Option<Seq<char>>, Seq<char>> {
    match rows_of(reply) {
        Ok(rows) => if rows.len() == 0 {
            Ok(None)
        } else {
            match optional_text_at(rows[0], 0) {
                Some(value) => Ok(value),
                None => Err("Failed to get API key: "@ + mismatch(0)),
            }
        },
        Err(failure) => Err("Failed to get API key: "@ + failure.detail),
    }
}

/// Gives the key, or none where none is set.
pub fn get_api_key(session: &mut Session<'_>) -> (outcome: Result<Option<String>, String>)
    ensures
        asked_once(api_key_request(), old(session).journal(), final(session).journal()),
        told(outcome) == api_key_of(final(session).journal().last().reply),
{
    let ghost before = session.journal();
    let params = without_params();
    let answer = session.query(API_KEY_SQL, &params, 1, 1);
    assert(session.journal().drop_last() =~= before);
    match answer {
        Ok(rows) => {
            if rows.len() == 0 {
                Ok(None)
            } else {
                assert(rows.deep_view()[0] == rows[0].deep_view());
                match optional_text_in(&rows[0], 0) {
                    Some(value) => Ok(value),
                    None => {
                        let detail = mismatch_text(0);
                        Err(joined("Failed to get API key: ", detail.as_str()))
                    },
                }
            }
        },
        Err(failure) => Err(joined("Failed to get API key: ", failure.detail.as_str())),
    }
}

/// The request that sets the key to `api_key`.
pub open spec fn set_api_key_request(api_key: Seq<char>) -> Request {
    Request::Execute { sql: SET_API_KEY_SQL@, params: ParamsView::Texts(seq![api_key]) }
}

/// What is made of the answer to the setting of the key.
pub open spec fn api_key_set(reply: Reply) -> Result<(), Seq<char>> {
    match changed_of(reply) {
        Ok(_) => Ok(()),
        Err(failure) => Err("Failed to set API key: "@ + failure.detail),
    }
}

/// A result without a value as the contracts speak of it.
pub open spec fn told_done(outcome: Result<(), String>) -> Result<(), Seq<char>> {
    match outcome {
        Ok(_) => Ok(()),
        Err(text) => Err(text@),
    }
}

/// Sets the key to `api_key`, whether or not one is set.
pub fn set_api_key(session: &mut Session<'_>, api_key: String) -> (outcome: Result<(), String>)
    ensures
        asked_once(
            set_api_key_request(api_key@),
            old(session).journal(),
            final(session).journal(),
        ),
        told_done(outcome) == api_key_set(final(session).journal().last().reply),
{
    let ghost before = session.journal();
    let ghost texts = seq![api_key@];
    let params = Params::Texts(vec![api_key]);
    proof {
        assert(params->Texts_0.deep_view() =~= texts);
    }
    let answer = session.execute(SET_API_KEY_SQL, &params);
    assert(session.journal().drop_last() =~= before);
    match answer {
        Ok(_) => Ok(()),
        Err(failure) => Err(joined("Failed to set API key: ", failure.detail.as_str())),
    }
}

} // verus!
