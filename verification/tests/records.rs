use rwe_store::records::{
    decode_analytics, decode_analytics_rows, decode_conversation, decode_conversation_match,
    decode_conversation_matches, decode_conversations, decode_message, decode_message_match,
    decode_message_matches, decode_messages, decode_mindmap, integer_in, optional_text_in,
    text_in, AnalyticsData, Conversation, ConversationMatch, Message, MessageMatch, MindMapData,
};
use rwe_store::sql::SqlValue;

fn text(value: &str) -> SqlValue {
    SqlValue::Text(value.to_string())
}

fn conversation_row(id: i64) -> Vec<SqlValue> {
    vec![SqlValue::Integer(id), text("name"), text("2024-01-01 00:00:00"), text("summary"), SqlValue::Null]
}

#[test]
fn integer_in_reads_integers_only() {
    let row = vec![SqlValue::Integer(5), text("5"), SqlValue::Null, SqlValue::Real, SqlValue::Blob];
    assert_eq!(integer_in(&row, 0), Some(5));
    for index in 1..=5 {
        assert_eq!(integer_in(&row, index), None);
    }
}

#[test]
fn text_in_reads_texts_only() {
    let row = vec![SqlValue::Integer(5), text("five"), SqlValue::Null, SqlValue::Real, SqlValue::Blob];
    assert_eq!(text_in(&row, 1), Some("five".to_string()));
    for index in [0, 2, 3, 4, 5] {
        assert_eq!(text_in(&row, index), None);
    }
}

#[test]
fn optional_text_in_reads_texts_and_no_value() {
    let row = vec![SqlValue::Integer(5), text("five"), SqlValue::Null, SqlValue::Real, SqlValue::Blob];
    assert_eq!(optional_text_in(&row, 1), Some(Some("five".to_string())));
    assert_eq!(optional_text_in(&row, 2), Some(None));
    for index in [0, 3, 4, 5] {
        assert_eq!(optional_text_in(&row, index), None);
    }
}

#[test]
fn decode_conversation_reads_the_five_columns() {
    assert_eq!(
        decode_conversation(&conversation_row(4)),
        Ok(Conversation {
            id: 4,
            name: "name".to_string(),
            created_at: "2024-01-01 00:00:00".to_string(),
            summary: Some("summary".to_string()),
            notes: None,
        })
    );
}

#[test]
fn decode_conversation_tells_the_first_column_that_does_not_fit() {
    for index in 0..5 {
        let mut row = conversation_row(4);
        row[index] = SqlValue::Blob;
        row[4] = SqlValue::Real;
        assert_eq!(decode_conversation(&row), Err(index));
    }
    for length in 0..5 {
        let row: Vec<SqlValue> = conversation_row(4).into_iter().take(length).collect();
        assert_eq!(decode_conversation(&row), Err(length));
    }
    let mut row = conversation_row(4);
    row[1] = SqlValue::Null;
    assert_eq!(decode_conversation(&row), Err(1));
}

#[test]
fn decode_message_reads_the_five_columns() {
    let row = vec![SqlValue::Integer(1), SqlValue::Integer(2), text("user"), text("hello"), SqlValue::Integer(3)];
    assert_eq!(
        decode_message(&row),
        Ok(Message { id: 1, conversation_id: 2, role: "user".to_string(), content: "hello".to_string(), seq: 3 })
    );
    for index in 0..5 {
        let mut bad = row.clone();
        bad[index] = SqlValue::Null;
        assert_eq!(decode_message(&bad), Err(index));
    }
}

#[test]
fn decode_mindmap_reads_the_eight_columns() {
    let row = vec![
        SqlValue::Integer(1),
        SqlValue::Integer(2),
        text("title"),
        text("nodes"),
        text("connections"),
        text("theme"),
        text("created"),
        text("updated"),
    ];
    assert_eq!(
        decode_mindmap(&row),
        Ok(MindMapData {
            id: 1,
            conversation_id: 2,
            title: "title".to_string(),
            nodes: "nodes".to_string(),
            connections: "connections".to_string(),
            theme: "theme".to_string(),
            created_at: "created".to_string(),
            updated_at: "updated".to_string(),
        })
    );
    for index in 0..8 {
        let mut bad = row.clone();
        bad[index] = SqlValue::Null;
        assert_eq!(decode_mindmap(&bad), Err(index));
    }
}

#[test]
fn decode_analytics_reads_the_two_columns() {
    let row = vec![text("2024-01-01"), SqlValue::Integer(3)];
    assert_eq!(decode_analytics(&row), Ok(AnalyticsData { date: "2024-01-01".to_string(), count: 3 }));
    assert_eq!(decode_analytics(&vec![SqlValue::Null, SqlValue::Integer(3)]), Err(0));
    assert_eq!(decode_analytics(&vec![text("2024-01-01"), text("3")]), Err(1));
}

#[test]
fn decode_message_match_reads_the_six_columns() {
    let row = vec![SqlValue::Integer(1), SqlValue::Integer(2), text("talk"), text("content"), text("user"), text("created")];
    assert_eq!(
        decode_message_match(&row),
        Ok(MessageMatch {
            id: 1,
            conversation_id: 2,
            conversation_name: "talk".to_string(),
            content: "content".to_string(),
            role: "user".to_string(),
            created_at: "created".to_string(),
        })
    );
    for index in 0..6 {
        let mut bad = row.clone();
        bad[index] = SqlValue::Null;
        assert_eq!(decode_message_match(&bad), Err(index));
    }
}

#[test]
fn decode_conversation_match_reads_the_five_columns() {
    let row = vec![SqlValue::Integer(1), SqlValue::Integer(1), text("talk"), text("summary"), text("created")];
    assert_eq!(
        decode_conversation_match(&row),
        Ok(ConversationMatch {
            id: 1,
            conversation_id: 1,
            conversation_name: "talk".to_string(),
            content: "summary".to_string(),
            created_at: "created".to_string(),
        })
    );
    for index in 0..5 {
        let mut bad = row.clone();
        bad[index] = SqlValue::Null;
        assert_eq!(decode_conversation_match(&bad), Err(index));
    }
}

#[test]
fn lists_are_read_row_by_row() {
    let rows = vec![conversation_row(1), conversation_row(2), conversation_row(3)];
    let ids: Vec<i64> = decode_conversations(&rows).unwrap().iter().map(|record| record.id).collect();
    assert_eq!(ids, vec![1, 2, 3]);
    assert_eq!(decode_conversations(&Vec::new()), Ok(Vec::new()));
    assert_eq!(decode_messages(&Vec::new()), Ok(Vec::new()));
    assert_eq!(decode_analytics_rows(&Vec::new()), Ok(Vec::new()));
    assert_eq!(decode_message_matches(&Vec::new()), Ok(Vec::new()));
    assert_eq!(decode_conversation_matches(&Vec::new()), Ok(Vec::new()));
}

#[test]
fn lists_are_refused_for_the_first_row_that_does_not_fit() {
    let mut second = conversation_row(2);
    second[3] = SqlValue::Integer(0);
    let mut third = conversation_row(3);
    third[1] = SqlValue::Integer(0);
    assert_eq!(decode_conversations(&vec![conversation_row(1), second, third]), Err(3));
    let message = vec![SqlValue::Integer(1), SqlValue::Integer(2), text("user"), text("hello"), SqlValue::Integer(3)];
    let mut bad = message.clone();
    bad[4] = SqlValue::Real;
    assert_eq!(decode_messages(&vec![message, bad]), Err(4));
    assert_eq!(decode_analytics_rows(&vec![vec![text("d"), SqlValue::Integer(1)], vec![text("e")]]), Err(1));
    assert_eq!(decode_message_matches(&vec![vec![SqlValue::Integer(1)]]), Err(1));
    assert_eq!(decode_conversation_matches(&vec![vec![]]), Err(0));
}
