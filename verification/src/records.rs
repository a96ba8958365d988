//! The records of the store and how they are read from the rows of a query.
//!
//! A row is read by position. Each column must hold a value of the kind that
//! the record's field takes: an integer where the field is an integer, a text
//! where it is a text, and a text or no value where it is an optional text.
//! A row that does not fit is refused with the position of the first column
//! that does not fit; a list of rows is refused with that of its first row
//! that does not fit.

use vstd::prelude::*;
use crate::sql::{SqlValue, SqlValueView};

verus! {

/// A conversation.
#[derive(Debug, PartialEq, Eq)]
pub struct Conversation {
    pub id: i64,
    pub name: String,
    pub created_at: String,
    pub summary: Option<String>,
    pub notes: Option<String>,
}

/// What a `Conversation` stands for.
pub struct ConversationView {
    pub id: i64,
    pub name: Seq<char>,
    pub created_at: Seq<char>,
    pub summary: Option<Seq<char>>,
    pub notes: Option<Seq<char>>,
}

impl DeepView for Conversation {
    type V = ConversationView;

    open spec fn deep_view(&self) -> ConversationView {
        ConversationView {
            id: self.id,
            name: self.name@,
            created_at: self.created_at@,
            summary: self.summary.deep_view(),
            notes: self.notes.deep_view(),
        }
    }
}

/// A message of a conversation.
#[derive(Debug, PartialEq, Eq)]
pub struct Message {
    pub id: i64,
    pub conversation_id: i64,
    pub role: String,
    pub content: String,
    pub seq: i64,
}

/// What a `Message` stands for.
pub struct MessageView {
    pub id: i64,
    pub conversation_id: i64,
    pub role: Seq<char>,
    pub content: Seq<char>,
    pub seq: i64,
}

impl DeepView for Message {
    type V = MessageView;

    open spec fn deep_view(&self) -> MessageView {
        MessageView {
            id: self.id,
            conversation_id: self.conversation_id,
            role: self.role@,
            content: self.content@,
            seq: self.seq,
        }
    }
}

/// The mind-map of a conversation.
#[derive(Debug, PartialEq, Eq)]
pub struct MindMapData {
    pub id: i64,
    pub conversation_id: i64,
    pub title: String,
    pub nodes: String,
    pub connections: String,
    pub theme: String,
    pub created_at: String,
    pub updated_at: String,
}

/// What a `MindMapData` stands for.
pub struct MindMapDataView {
    pub id: i64,
    pub conversation_id: i64,
    pub title: Seq<char>,
    pub nodes: Seq<char>,
    pub connections: Seq<char>,
    pub theme: Seq<char>,
    pub created_at: Seq<char>,
    pub updated_at: Seq<char>,
}

impl DeepView for MindMapData {
    type V = MindMapDataView;

    open spec fn deep_view(&self) -> MindMapDataView {
        MindMapDataView {
            id: self.id,
            conversation_id: self.conversation_id,
            title: self.title@,
            nodes: self.nodes@,
            connections: self.connections@,
            theme: self.theme@,
            created_at: self.created_at@,
            updated_at: self.updated_at@,
        }
    }
}

/// The number of conversations created in one calendar bucket.
#[derive(Debug, PartialEq, Eq)]
pub struct AnalyticsData {
    pub date: String,
    pub count: i64,
}

/// What an `AnalyticsData` stands for.
pub struct AnalyticsDataView {
    pub date: Seq<char>,
    pub count: i64,
}

impl DeepView for AnalyticsData {
    type V = AnalyticsDataView;

    open spec fn deep_view(&self) -> AnalyticsDataView {
        AnalyticsDataView { date: self.date@, count: self.count }
    }
}

/// A message that a search has found, with the name and the creation time of
/// its conversation.
#[derive(Debug, PartialEq, Eq)]
pub struct MessageMatch {
    pub id: i64,
    pub conversation_id: i64,
    pub conversation_name: String,
    pub content: String,
    pub role: String,
    pub created_at: String,
}

/// What a `MessageMatch` stands for.
pub struct MessageMatchView {
    pub id: i64,
    pub conversation_id: i64,
    pub conversation_name: Seq<char>,
    pub content: Seq<char>,
    pub role: Seq<char>,
    pub created_at: Seq<char>,
}

impl DeepView for MessageMatch {
    type V = MessageMatchView;

    open spec fn deep_view(&self) -> MessageMatchView {
        MessageMatchView {
            id: self.id,
            conversation_id: self.conversation_id,
            conversation_name: self.conversation_name@,
            content: self.content@,
            role: self.role@,
            created_at: self.created_at@,
        }
    }
}

/// A conversation that a search has found, with its summary as content.
#[derive(Debug, PartialEq, Eq)]
pub struct ConversationMatch {
    pub id: i64,
    pub conversation_id: i64,
    pub conversation_name: String,
    pub content: String,
    pub created_at: String,
}

/// What a `ConversationMatch` stands for.
pub struct ConversationMatchView {
    pub id: i64,
    pub conversation_id: i64,
    pub conversation_name: Seq<char>,
    pub content: Seq<char>,
    pub created_at: Seq<char>,
}

impl DeepView for ConversationMatch {
    type V = ConversationMatchView;

    open spec fn deep_view(&self) -> ConversationMatchView {
        ConversationMatchView {
            id: self.id,
            conversation_id: self.conversation_id,
            conversation_name: self.conversation_name@,
            content: self.content@,
            created_at: self.created_at@,
        }
    }
}

/// The integer in column `index` of `row`, if the column is there and holds
/// one.
pub open spec fn integer_at(row: Seq<SqlValueView>, index: int) -> Option<i64> {
    if 0 <= index < row.len() {
        match row[index] {
            SqlValueView::Integer(i) => Some(i),
            _ => None,
        }
    } else {
        None
    }
}

/// The text in column `index` of `row`, if the column is there and holds one.
pub open spec fn text_at(row: Seq<SqlValueView>, index: int) -> Option<Seq<char>> {
    if 0 <= index < row.len() {
        match row[index] {
            SqlValueView::Text(t) => Some(t),
            _ => None,
        }
    } else {
        None
    }
}

/// The optional text in column `index` of `row`, if the column is there and
/// holds a text or no value.
pub open spec fn optional_text_at(row: Seq<SqlValueView>, index: int) -> Option<Option<Seq<char>>> {
    if 0 <= index < row.len() {
        match row[index] {
            SqlValueView::Text(t) => Some(Some(t)),
            SqlValueView::Null => Some(None),
            _ => None,
        }
    } else {
        None
    }
}

/// Reads the integer in column `index` of `row`.
pub fn integer_in(row: &Vec<SqlValue>, index: usize) -> (value: Option<i64>)
    ensures
        value == integer_at(row.deep_view(), index as int),
{
    if index < row.len() {
        assert(row.deep_view()[index as int] == row[index as int].deep_view());
        match &row[index] {
            SqlValue::Integer(i) => Some(*i),
            _ => None,
        }
    } else {
        None
    }
}

/// Reads the text in column `index` of `row`.
pub fn text_in(row: &Vec<SqlValue>, index: usize) -> (value: Option<String>)
    ensures
        value.deep_view() == text_at(row.deep_view(), index as int),
{
    if index < row.len() {
        assert(row.deep_view()[index as int] == row[index as int].deep_view());
        match &row[index] {
            SqlValue::Text(t) => Some(t.clone()),
            _ => None,
        }
    } else {
        None
    }
}

/// Reads the optional text in column `index` of `row`.
pub fn optional_text_in(row: &Vec<SqlValue>, index: usize) -> (value: Option<Option<String>>)
    ensures
        value.deep_view() == optional_text_at(row.deep_view(), index as int),
{
    if index < row.len() {
        assert(row.deep_view()[index as int] == row[index as int].deep_view());
        match &row[index] {
            SqlValue::Text(t) => Some(Some(t.clone())),
            SqlValue::Null => Some(None),
            _ => None,
        }
    } else {
        None
    }
}

/// A record that was read, or the position of the column that did not fit,
/// as the contracts speak of it.
pub open spec fn read<T: DeepView>(outcome: Result<T, usize>) -> Result<T::V, nat> {
    match outcome {
        Ok(record) => Ok(record.deep_view()),
        Err(index) => Err(index as nat),
    }
}

/// The conversation that `row` holds: id, name, creation time, summary, notes.
pub open spec fn conversation_of(row: Seq<SqlValueView>) -> Result<ConversationView, nat> {
    if integer_at(row, 0) is None {
        Err(0)
    } else if text_at(row, 1) is None {
        Err(1)
    } else if text_at(row, 2) is None {
        Err(2)
    } else if optional_text_at(row, 3) is None {
        Err(3)
    } else if optional_text_at(row, 4) is None {
        Err(4)
    } else {
        Ok(
            ConversationView {
                id: integer_at(row, 0).unwrap(),
                name: text_at(row, 1).unwrap(),
                created_at: text_at(row, 2).unwrap(),
                summary: optional_text_at(row, 3).unwrap(),
                notes: optional_text_at(row, 4).unwrap(),
            },
        )
    }
}

/// Reads a conversation from `row`.
pub fn decode_conversation(row: &Vec<SqlValue>) -> (outcome: Result<Conversation, usize>)
    ensures
        read(outcome) == conversation_of(row.deep_view()),
{
    let id = match integer_in(row, 0) {
        Some(v) => v,
        None => { return Err(0); },
    };
    let name = match text_in(row, 1) {
        Some(v) => v,
        None => { return Err(1); },
    };
    let created_at = match text_in(row, 2) {
        Some(v) => v,
        None => { return Err(2); },
    };
    let summary = match optional_text_in(row, 3) {
        Some(v) => v,
        None => { return Err(3); },
    };
    let notes = match optional_text_in(row, 4) {
        Some(v) => v,
        None => { return Err(4); },
    };
    Ok(Conversation { id, name, created_at, summary, notes })
}

/// The message that `row` holds: id, conversation, role, content, sequence
/// number.
pub open spec fn message_of(row: Seq<SqlValueView>) -> Result<MessageView, nat> {
    if integer_at(row, 0) is None {
        Err(0)
    } else if integer_at(row, 1) is None {
        Err(1)
    } else if text_at(row, 2) is None {
        Err(2)
    } else if text_at(row, 3) is None {
        Err(3)
    } else if integer_at(row, 4) is None {
        Err(4)
    } else {
        Ok(
            MessageView {
                id: integer_at(row, 0).unwrap(),
                conversation_id: integer_at(row, 1).unwrap(),
                role: text_at(row, 2).unwrap(),
                content: text_at(row, 3).unwrap(),
                seq: integer_at(row, 4).unwrap(),
            },
        )
    }
}

/// Reads a message from `row`.
pub fn decode_message(row: &Vec<SqlValue>) -> (outcome: Result<Message, usize>)
    ensures
        read(outcome) == message_of(row.deep_view()),
{
    let id = match integer_in(row, 0) {
        Some(v) => v,
        None => { return Err(0); },
    };
    let conversation_id = match integer_in(row, 1) {
        Some(v) => v,
        None => { return Err(1); },
    };
    let role = match text_in(row, 2) {
        Some(v) => v,
        None => { return Err(2); },
    };
    let content = match text_in(row, 3) {
        Some(v) => v,
        None => { return Err(3); },
    };
    let seq = match integer_in(row, 4) {
        Some(v) => v,
        None => { return Err(4); },
    };
    Ok(Message { id, conversation_id, role, content, seq })
}

/// The mind-map that `row` holds: id, conversation, title, nodes,
/// connections, theme, creation time, time of the last save.
pub open spec fn mindmap_of(row: Seq<SqlValueView>) -> Result<MindMapDataView, nat> {
    if integer_at(row, 0) is None {
        Err(0)
    } else if integer_at(row, 1) is None {
        Err(1)
    } else if text_at(row, 2) is None {
        Err(2)
    } else if text_at(row, 3) is None {
        Err(3)
    } else if text_at(row, 4) is None {
        Err(4)
    } else if text_at(row, 5) is None {
        Err(5)
    } else if text_at(row, 6) is None {
        Err(6)
    } else if text_at(row, 7) is None {
        Err(7)
    } else {
        Ok(
            MindMapDataView {
                id: integer_at(row, 0).unwrap(),
                conversation_id: integer_at(row, 1).unwrap(),
                title: text_at(row, 2).unwrap(),
                nodes: text_at(row, 3).unwrap(),
                connections: text_at(row, 4).unwrap(),
                theme: text_at(row, 5).unwrap(),
                created_at: text_at(row, 6).unwrap(),
                updated_at: text_at(row, 7).unwrap(),
            },
        )
    }
}

/// Reads a mind-map from `row`.
pub fn decode_mindmap(row: &Vec<SqlValue>) -> (outcome: Result<MindMapData, usize>)
    ensures
        read(outcome) == mindmap_of(row.deep_view()),
{
    let id = match integer_in(row, 0) {
        Some(v) => v,
        None => { return Err(0); },
    };
    let conversation_id = match integer_in(row, 1) {
        Some(v) => v,
        None => { return Err(1); },
    };
    let title = match text_in(row, 2) {
        Some(v) => v,
        None => { return Err(2); },
    };
    let nodes = match text_in(row, 3) {
        Some(v) => v,
        None => { return Err(3); },
    };
    let connections = match text_in(row, 4) {
        Some(v) => v,
        None => { return Err(4); },
    };
    let theme = match text_in(row, 5) {
        Some(v) => v,
        None => { return Err(5); },
    };
    let created_at = match text_in(row, 6) {
        Some(v) => v,
        None => { return Err(6); },
    };
    let updated_at = match text_in(row, 7) {
        Some(v) => v,
        None => { return Err(7); },
    };
    Ok(MindMapData { id, conversation_id, title, nodes, connections, theme, created_at, updated_at })
}

/// The bucket that `row` holds: date, count.
pub open spec fn analytics_of(row: Seq<SqlValueView>) -> Result<AnalyticsDataView, nat> {
    if text_at(row, 0) is None {
        Err(0)
    } else if integer_at(row, 1) is None {
        Err(1)
    } else {
        Ok(AnalyticsDataView { date: text_at(row, 0).unwrap(), count: integer_at(row, 1).unwrap() })
    }
}

/// Reads a bucket from `row`.
pub fn decode_analytics(row: &Vec<SqlValue>) -> (outcome: Result<AnalyticsData, usize>)
    ensures
        read(outcome) == analytics_of(row.deep_view()),
{
    let date = match text_in(row, 0) {
        Some(v) => v,
        None => { return Err(0); },
    };
    let count = match integer_in(row, 1) {
        Some(v) => v,
        None => { return Err(1); },
    };
    Ok(AnalyticsData { date, count })
}

/// The found message that `row` holds: id, conversation, name of the
/// conversation, content, role, creation time of the conversation.
pub open spec fn message_match_of(row: Seq<SqlValueView>) -> Result<MessageMatchView, nat> {
    if integer_at(row, 0) is None {
        Err(0)
    } else if integer_at(row, 1) is None {
        Err(1)
    } else if text_at(row, 2) is None {
        Err(2)
    } else if text_at(row, 3) is None {
        Err(3)
    } else if text_at(row, 4) is None {
        Err(4)
    } else if text_at(row, 5) is None {
        Err(5)
    } else {
        Ok(
            MessageMatchView {
                id: integer_at(row, 0).unwrap(),
                conversation_id: integer_at(row, 1).unwrap(),
                conversation_name: text_at(row, 2).unwrap(),
                content: text_at(row, 3).unwrap(),
                role: text_at(row, 4).unwrap(),
                created_at: text_at(row, 5).unwrap(),
            },
        )
    }
}

/// Reads a found message from `row`.
pub fn decode_message_match(row: &Vec<SqlValue>) -> (outcome: Result<MessageMatch, usize>)
    ensures
        read(outcome) == message_match_of(row.deep_view()),
{
    let id = match integer_in(row, 0) {
        Some(v) => v,
        None => { return Err(0); },
    };
    let conversation_id = match integer_in(row, 1) {
        Some(v) => v,
        None => { return Err(1); },
    };
    let conversation_name = match text_in(row, 2) {
        Some(v) => v,
        None => { return Err(2); },
    };
    let content = match text_in(row, 3) {
        Some(v) => v,
        None => { return Err(3); },
    };
    let role = match text_in(row, 4) {
        Some(v) => v,
        None => { return Err(4); },
    };
    let created_at = match text_in(row, 5) {
        Some(v) => v,
        None => { return Err(5); },
    };
    Ok(MessageMatch { id, conversation_id, conversation_name, content, role, created_at })
}

/// The found conversation that `row` holds: id, the id again as that of the
/// conversation, name, content, creation time.
pub open spec fn conversation_match_of(row: Seq<SqlValueView>) -> Result<
    ConversationMatchView,
    nat,
> {
    if integer_at(row, 0) is None {
        Err(0)
    } else if integer_at(row, 1) is None {
        Err(1)
    } else if text_at(row, 2) is None {
        Err(2)
    } else if text_at(row, 3) is None {
        Err(3)
    } else if text_at(row, 4) is None {
        Err(4)
    } else {
        Ok(
            ConversationMatchView {
                id: integer_at(row, 0).unwrap(),
                conversation_id: integer_at(row, 1).unwrap(),
                conversation_name: text_at(row, 2).unwrap(),
                content: text_at(row, 3).unwrap(),
                created_at: text_at(row, 4).unwrap(),
            },
        )
    }
}

/// Reads a found conversation from `row`.
pub fn decode_conversation_match(row: &Vec<SqlValue>) -> (outcome: Result<ConversationMatch, usize>)
    ensures
        read(outcome) == conversation_match_of(row.deep_view()),
{
    let id = match integer_in(row, 0) {
        Some(v) => v,
        None => { return Err(0); },
    };
    let conversation_id = match integer_in(row, 1) {
        Some(v) => v,
        None => { return Err(1); },
    };
    let conversation_name = match text_in(row, 2) {
        Some(v) => v,
        None => { return Err(2); },
    };
    let content = match text_in(row, 3) {
        Some(v) => v,
        None => { return Err(3); },
    };
    let created_at = match text_in(row, 4) {
        Some(v) => v,
        None => { return Err(4); },
    };
    Ok(ConversationMatch { id, conversation_id, conversation_name, content, created_at })
}

/// The way a conversation is read from a row.
pub open spec fn conversation_reader() -> spec_fn(Seq<SqlValueView>) -> Result<ConversationView, nat> {
    |row: Seq<SqlValueView>| conversation_of(row)
}

/// The way a message is read from a row.
pub open spec fn message_reader() -> spec_fn(Seq<SqlValueView>) -> Result<MessageView, nat> {
    |row: Seq<SqlValueView>| message_of(row)
}

/// The way a bucket is read from a row.
pub open spec fn analytics_reader() -> spec_fn(Seq<SqlValueView>) -> Result<AnalyticsDataView, nat> {
    |row: Seq<SqlValueView>| analytics_of(row)
}

/// The way a found message is read from a row.
pub open spec fn message_match_reader() -> spec_fn(Seq<SqlValueView>) -> Result<MessageMatchView, nat> {
    |row: Seq<SqlValueView>| message_match_of(row)
}

/// The way a found conversation is read from a row.
pub open spec fn conversation_match_reader() -> spec_fn(Seq<SqlValueView>) -> Result<
    ConversationMatchView,
    nat,
> {
    |row: Seq<SqlValueView>| conversation_match_of(row)
}

/// The records that `rows` hold, each read by `record_of`, or the position of
/// the column that did not fit in the first row that did not fit.
pub open spec fn records_of<V>(
    rows: Seq<Seq<SqlValueView>>,
    record_of: spec_fn(Seq<SqlValueView>) -> Result<V, nat>,
) -> Result<Seq<V>, nat>
    decreases rows.len(),
{
    if rows.len() == 0 {
        Ok(Seq::empty())
    } else {
        match records_of(rows.drop_last(), record_of) {
            Err(index) => Err(index),
            Ok(front) => match record_of(rows.last()) {
                Err(index) => Err(index),
                Ok(record) => Ok(front.push(record)),
            },
        }
    }
}

/// Records that were read, or the position of the column that did not fit, as
/// the contracts speak of them.
pub open spec fn read_all<T: DeepView>(outcome: Result<Vec<T>, usize>) -> Result<Seq<T::V>, nat> {
    match outcome {
        Ok(records) => Ok(records.deep_view()),
        Err(index) => Err(index as nat),
    }
}

/// Reads a conversation from each of `rows`.
pub fn decode_conversations(rows: &Vec<Vec<SqlValue>>) -> (outcome: Result<Vec<Conversation>, usize>)
    ensures
        read_all(outcome) == records_of(rows.deep_view(), conversation_reader()),
{
    let ghost record_of = conversation_reader();
    let mut records: Vec<Conversation> = Vec::new();
    assert(records.deep_view() =~= Seq::empty());
    let mut i: usize = 0;
    while i < rows.len()
        invariant
            i <= rows.len(),
            record_of == conversation_reader(),
            records_of(rows.deep_view().take(i as int), record_of) == Ok::<
                Seq<ConversationView>,
                nat,
            >(records.deep_view()),
        decreases rows.len() - i,
    {
        proof {
            assert(rows.deep_view().take(i + 1).drop_last() =~= rows.deep_view().take(i as int));
            assert(rows.deep_view().take(i + 1).last() == rows[i as int].deep_view());
        }
        let ghost before = records.deep_view();
        match decode_conversation(&rows[i]) {
            Err(index) => {
                proof {
                    lemma_refused_stays_refused(rows.deep_view(), record_of, i + 1);
                }
                return Err(index);
            },
            Ok(record) => {
                records.push(record);
                assert(records.deep_view() =~= before.push(record.deep_view()));
            },
        }
        i += 1;
    }
    assert(rows.deep_view().take(i as int) =~= rows.deep_view());
    Ok(records)
}

/// Reads a message from each of `rows`.
pub fn decode_messages(rows: &Vec<Vec<SqlValue>>) -> (outcome: Result<Vec<Message>, usize>)
    ensures
        read_all(outcome) == records_of(rows.deep_view(), message_reader()),
{
    let ghost record_of = message_reader();
    let mut records: Vec<Message> = Vec::new();
    assert(records.deep_view() =~= Seq::empty());
    let mut i: usize = 0;
    while i < rows.len()
        invariant
            i <= rows.len(),
            record_of == message_reader(),
            records_of(rows.deep_view().take(i as int), record_of) == Ok::<Seq<MessageView>, nat>(
                records.deep_view(),
            ),
        decreases rows.len() - i,
    {
        proof {
            assert(rows.deep_view().take(i + 1).drop_last() =~= rows.deep_view().take(i as int));
            assert(rows.deep_view().take(i + 1).last() == rows[i as int].deep_view());
        }
        let ghost before = records.deep_view();
        match decode_message(&rows[i]) {
            Err(index) => {
                proof {
                    lemma_refused_stays_refused(rows.deep_view(), record_of, i + 1);
                }
                return Err(index);
            },
            Ok(record) => {
                records.push(record);
                assert(records.deep_view() =~= before.push(record.deep_view()));
            },
        }
        i += 1;
    }
    assert(rows.deep_view().take(i as int) =~= rows.deep_view());
    Ok(records)
}

/// Reads a bucket from each of `rows`.
pub fn decode_analytics_rows(rows: &Vec<Vec<SqlValue>>) -> (outcome: Result<
    Vec<AnalyticsData>,
    usize,
>)
    ensures
        read_all(outcome) == records_of(rows.deep_view(), analytics_reader()),
{
    let ghost record_of = analytics_reader();
    let mut records: Vec<AnalyticsData> = Vec::new();
    assert(records.deep_view() =~= Seq::empty());
    let mut i: usize = 0;
    while i < rows.len()
        invariant
            i <= rows.len(),
            record_of == analytics_reader(),
            records_of(rows.deep_view().take(i as int), record_of) == Ok::<
                Seq<AnalyticsDataView>,
                nat,
            >(records.deep_view()),
        decreases rows.len() - i,
    {
        proof {
            assert(rows.deep_view().take(i + 1).drop_last() =~= rows.deep_view().take(i as int));
            assert(rows.deep_view().take(i + 1).last() == rows[i as int].deep_view());
        }
        let ghost before = records.deep_view();
        match decode_analytics(&rows[i]) {
            Err(index) => {
                proof {
                    lemma_refused_stays_refused(rows.deep_view(), record_of, i + 1);
                }
                return Err(index);
            },
            Ok(record) => {
                records.push(record);
                assert(records.deep_view() =~= before.push(record.deep_view()));
            },
        }
        i += 1;
    }
    assert(rows.deep_view().take(i as int) =~= rows.deep_view());
    Ok(records)
}

/// Reads a found message from each of `rows`.
pub fn decode_message_matches(rows: &Vec<Vec<SqlValue>>) -> (outcome: Result<
    Vec<MessageMatch>,
    usize,
>)
    ensures
        read_all(outcome) == records_of(rows.deep_view(), message_match_reader()),
{
    let ghost record_of = message_match_reader();
    let mut records: Vec<MessageMatch> = Vec::new();
    assert(records.deep_view() =~= Seq::empty());
    let mut i: usize = 0;
    while i < rows.len()
        invariant
            i <= rows.len(),
            record_of == message_match_reader(),
            records_of(rows.deep_view().take(i as int), record_of) == Ok::<
                Seq<MessageMatchView>,
                nat,
            >(records.deep_view()),
        decreases rows.len() - i,
    {
        proof {
            assert(rows.deep_view().take(i + 1).drop_last() =~= rows.deep_view().take(i as int));
            assert(rows.deep_view().take(i + 1).last() == rows[i as int].deep_view());
        }
        let ghost before = records.deep_view();
        match decode_message_match(&rows[i]) {
            Err(index) => {
                proof {
                    lemma_refused_stays_refused(rows.deep_view(), record_of, i + 1);
                }
                return Err(index);
            },
            Ok(record) => {
                records.push(record);
                assert(records.deep_view() =~= before.push(record.deep_view()));
            },
        }
        i += 1;
    }
    assert(rows.deep_view().take(i as int) =~= rows.deep_view());
    Ok(records)
}

/// Reads a found conversation from each of `rows`.
pub fn decode_conversation_matches(rows: &Vec<Vec<SqlValue>>) -> (outcome: Result<
    Vec<ConversationMatch>,
    usize,
>)
    ensures
        read_all(outcome) == records_of(rows.deep_view(), conversation_match_reader()),
{
    let ghost record_of = conversation_match_reader();
    let mut records: Vec<ConversationMatch> = Vec::new();
    assert(records.deep_view() =~= Seq::empty());
    let mut i: usize = 0;
    while i < rows.len()
        invariant
            i <= rows.len(),
            record_of == conversation_match_reader(),
            records_of(rows.deep_view().take(i as int), record_of) == Ok::<
                Seq<ConversationMatchView>,
                nat,
            >(records.deep_view()),
        decreases rows.len() - i,
    {
        proof {
            assert(rows.deep_view().take(i + 1).drop_last() =~= rows.deep_view().take(i as int));
            assert(rows.deep_view().take(i + 1).last() == rows[i as int].deep_view());
        }
        let ghost before = records.deep_view();
        match decode_conversation_match(&rows[i]) {
            Err(index) => {
                proof {
                    lemma_refused_stays_refused(rows.deep_view(), record_of, i + 1);
                }
                return Err(index);
            },
            Ok(record) => {
                records.push(record);
                assert(records.deep_view() =~= before.push(record.deep_view()));
            },
        }
        i += 1;
    }
    assert(rows.deep_view().take(i as int) =~= rows.deep_view());
    Ok(records)
}

/// Rows of which the first `n` are refused are refused as a whole, for the
/// same column.
pub proof fn lemma_refused_stays_refused<V>(
    rows: Seq<Seq<SqlValueView>>,
    record_of: spec_fn(Seq<SqlValueView>) -> Result<V, nat>,
    n: int,
)
    requires
        0 <= n <= rows.len(),
        records_of(rows.take(n), record_of) is Err,
    ensures
        records_of(rows, record_of) == records_of(rows.take(n), record_of),
    decreases rows.len() - n,
{
    if n < rows.len() {
        assert(rows.take(n + 1).drop_last() =~= rows.take(n));
        lemma_refused_stays_refused(rows, record_of, n + 1);
    } else {
        assert(rows.take(n) =~= rows);
    }
}

} // verus!
