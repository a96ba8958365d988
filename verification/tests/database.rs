use rusqlite::Connection;
use rwe_store::database::{
    create_conversation, delete_conversation, get_api_key, get_conversation,
    get_conversation_analytics, get_conversations, get_conversations_count,
    get_conversations_paginated, get_messages, get_mindmap_data, init_database, parse_period,
    save_message, save_mindmap_data, set_api_key, update_conversation_notes,
    update_conversation_summary, Period,
};
use rwe_store::migrations::MigrationRunner;
use rwe_store::records::{AnalyticsData, Conversation, Message};
use rwe_store::session::Session;

fn store() -> Connection {
    let conn = Connection::open_in_memory().unwrap();
    let mut session = Session::new(&conn);
    MigrationRunner::new().run_migrations(&mut session).unwrap();
    conn
}

fn number(conn: &Connection, sql: &str) -> i64 {
    conn.query_row(sql, [], |row| row.get(0)).unwrap()
}

fn text(conn: &Connection, sql: &str) -> String {
    conn.query_row(sql, [], |row| row.get(0)).unwrap()
}

fn add(session: &mut Session<'_>, name: &str, summary: &str) -> i64 {
    create_conversation(session, name.to_string(), summary.to_string()).unwrap()
}

#[test]
fn init_database_tells_that_the_store_answers() {
    let conn = Connection::open_in_memory().unwrap();
    let mut session = Session::new(&conn);
    assert_eq!(init_database(&mut session), Ok(true));
}

#[test]
fn create_conversation_gives_new_ids() {
    let conn = store();
    let mut session = Session::new(&conn);
    let first = add(&mut session, "first", "about one");
    let second = add(&mut session, "second", "about two");
    assert_eq!(first, 1);
    assert_eq!(second, 2);
    assert_eq!(text(&conn, "SELECT name FROM conversations WHERE id = 2"), "second");
    assert_eq!(text(&conn, "SELECT summary FROM conversations WHERE id = 2"), "about two");
}

#[test]
fn create_conversation_without_tables_is_an_error() {
    let conn = Connection::open_in_memory().unwrap();
    let mut session = Session::new(&conn);
    let error = create_conversation(&mut session, "n".to_string(), "s".to_string()).unwrap_err();
    assert!(error.starts_with("Insert conversation error: "), "{}", error);
    assert!(error.contains("no such table"), "{}", error);
}

#[test]
fn get_conversation_gives_the_record() {
    let conn = store();
    let mut session = Session::new(&conn);
    let id = add(&mut session, "first", "about one");
    conn.execute("UPDATE conversations SET created_at = '2024-03-01 10:00:00'", []).unwrap();
    assert_eq!(
        get_conversation(&mut session, id),
        Ok(Some(Conversation {
            id,
            name: "first".to_string(),
            created_at: "2024-03-01 10:00:00".to_string(),
            summary: Some("about one".to_string()),
            notes: None,
        }))
    );
}

#[test]
fn get_conversation_that_is_not_there_is_none() {
    let conn = store();
    let mut session = Session::new(&conn);
    add(&mut session, "first", "about one");
    assert_eq!(get_conversation(&mut session, 99), Ok(None));
}

#[test]
fn get_conversation_without_tables_is_a_prepare_error() {
    let conn = Connection::open_in_memory().unwrap();
    let mut session = Session::new(&conn);
    let error = get_conversation(&mut session, 1).unwrap_err();
    assert!(error.starts_with("Prepare error: "), "{}", error);
}

#[test]
fn get_conversation_with_an_unfit_column_is_a_query_error() {
    let conn = store();
    let mut session = Session::new(&conn);
    let id = add(&mut session, "first", "about one");
    conn.execute("UPDATE conversations SET created_at = NULL", []).unwrap();
    assert_eq!(
        get_conversation(&mut session, id),
        Err("Query error: unexpected kind of value in column 2".to_string())
    );
}

#[test]
fn get_conversations_gives_the_newest_first() {
    let conn = store();
    let mut session = Session::new(&conn);
    let a = add(&mut session, "a", "sa");
    let b = add(&mut session, "b", "sb");
    let c = add(&mut session, "c", "sc");
    conn.execute("UPDATE conversations SET created_at = '2024-01-02 00:00:00' WHERE id = ?1", [a]).unwrap();
    conn.execute("UPDATE conversations SET created_at = '2024-01-03 00:00:00' WHERE id = ?1", [b]).unwrap();
    conn.execute("UPDATE conversations SET created_at = '2024-01-01 00:00:00' WHERE id = ?1", [c]).unwrap();
    let all = get_conversations(&mut session).unwrap();
    let ids: Vec<i64> = all.iter().map(|conversation| conversation.id).collect();
    assert_eq!(ids, vec![b, a, c]);
    assert_eq!(all[0].name, "b");
    assert_eq!(all[0].summary, Some("sb".to_string()));
    assert_eq!(all[0].notes, None);
}

#[test]
fn get_conversations_of_an_empty_store_is_empty() {
    let conn = store();
    let mut session = Session::new(&conn);
    assert_eq!(get_conversations(&mut session), Ok(Vec::new()));
}

#[test]
fn get_conversations_without_tables_is_a_prepare_error() {
    let conn = Connection::open_in_memory().unwrap();
    let mut session = Session::new(&conn);
    let error = get_conversations(&mut session).unwrap_err();
    assert!(error.starts_with("Prepare error: "), "{}", error);
}

#[test]
fn get_conversations_with_an_unfit_column_is_a_row_error() {
    let conn = store();
    let mut session = Session::new(&conn);
    add(&mut session, "a", "sa");
    add(&mut session, "b", "sb");
    conn.execute("UPDATE conversations SET created_at = NULL WHERE id = 2", []).unwrap();
    assert_eq!(
        get_conversations(&mut session),
        Err("Row error: unexpected kind of value in column 2".to_string())
    );
}

#[test]
fn get_conversations_paginated_gives_one_page() {
    let conn = store();
    let mut session = Session::new(&conn);
    for day in 1..=5 {
        let id = add(&mut session, &format!("c{}", day), "s");
        conn.execute(
            "UPDATE conversations SET created_at = ?1 WHERE id = ?2",
            [format!("2024-01-0{} 00:00:00", day), id.to_string()],
        )
        .unwrap();
    }
    let names = |page: Vec<Conversation>| -> Vec<String> {
        page.into_iter().map(|conversation| conversation.name).collect()
    };
    assert_eq!(names(get_conversations_paginated(&mut session, 2, 0).unwrap()), vec!["c5", "c4"]);
    assert_eq!(names(get_conversations_paginated(&mut session, 2, 2).unwrap()), vec!["c3", "c2"]);
    assert_eq!(names(get_conversations_paginated(&mut session, 2, 4).unwrap()), vec!["c1"]);
    assert_eq!(names(get_conversations_paginated(&mut session, 2, 6).unwrap()), Vec::<String>::new());
    assert_eq!(names(get_conversations_paginated(&mut session, 0, 0).unwrap()), Vec::<String>::new());
    assert_eq!(names(get_conversations_paginated(&mut session, -1, 3).unwrap()), vec!["c2", "c1"]);
}

#[test]
fn get_conversations_count_counts() {
    let conn = store();
    let mut session = Session::new(&conn);
    assert_eq!(get_conversations_count(&mut session), Ok(0));
    add(&mut session, "a", "sa");
    add(&mut session, "b", "sb");
    assert_eq!(get_conversations_count(&mut session), Ok(2));
}

#[test]
fn get_conversations_count_without_tables_is_a_query_error() {
    let conn = Connection::open_in_memory().unwrap();
    let mut session = Session::new(&conn);
    let error = get_conversations_count(&mut session).unwrap_err();
    assert!(error.starts_with("Query error: "), "{}", error);
}

#[test]
fn delete_conversation_removes_its_messages_and_its_mindmap_only() {
    let conn = store();
    let mut session = Session::new(&conn);
    let doomed = add(&mut session, "doomed", "s");
    let kept = add(&mut session, "kept", "s");
    for (conversation, seq) in [(doomed, 1), (kept, 2), (doomed, 3), (kept, 4), (kept, 5)] {
        save_message(&mut session, conversation, "user".to_string(), format!("m{}", seq), seq).unwrap();
    }
    for conversation in [doomed, kept] {
        save_mindmap_data(
            &mut session,
            conversation,
            format!("map{}", conversation),
            "[]".to_string(),
            "[]".to_string(),
            "default".to_string(),
        )
        .unwrap();
    }
    let kept_messages = get_messages(&mut session, kept).unwrap();
    let kept_mindmap = get_mindmap_data(&mut session, kept).unwrap();
    let kept_record = get_conversation(&mut session, kept).unwrap();

    assert_eq!(delete_conversation(&mut session, doomed), Ok(true));

    assert_eq!(get_conversation(&mut session, doomed), Ok(None));
    assert_eq!(get_messages(&mut session, doomed), Ok(Vec::new()));
    assert_eq!(get_mindmap_data(&mut session, doomed), Ok(None));
    assert_eq!(number(&conn, "SELECT COUNT(*) FROM messages"), 3);
    assert_eq!(number(&conn, "SELECT COUNT(*) FROM mindmaps"), 1);
    assert_eq!(number(&conn, "SELECT COUNT(*) FROM conversations"), 1);
    assert_eq!(get_messages(&mut session, kept).unwrap(), kept_messages);
    assert_eq!(get_mindmap_data(&mut session, kept).unwrap(), kept_mindmap);
    assert_eq!(get_conversation(&mut session, kept).unwrap(), kept_record);
}

#[test]
fn delete_conversation_that_is_not_there_is_false() {
    let conn = store();
    let mut session = Session::new(&conn);
    let id = add(&mut session, "a", "s");
    assert_eq!(delete_conversation(&mut session, id + 1), Ok(false));
    assert_eq!(delete_conversation(&mut session, id), Ok(true));
    assert_eq!(delete_conversation(&mut session, id), Ok(false));
}

#[test]
fn delete_conversation_removes_orphaned_messages_of_that_id() {
    let conn = store();
    let mut session = Session::new(&conn);
    save_message(&mut session, 42, "user".to_string(), "orphan".to_string(), 1).unwrap();
    assert_eq!(delete_conversation(&mut session, 42), Ok(false));
    assert_eq!(number(&conn, "SELECT COUNT(*) FROM messages"), 0);
}

#[test]
fn delete_conversation_names_the_step_that_failed() {
    let conn = Connection::open_in_memory().unwrap();
    let mut session = Session::new(&conn);
    let error = delete_conversation(&mut session, 1).unwrap_err();
    assert!(error.starts_with("Delete messages error: "), "{}", error);
    conn.execute("CREATE TABLE messages (conversation_id INTEGER)", []).unwrap();
    let error = delete_conversation(&mut session, 1).unwrap_err();
    assert!(error.starts_with("Delete mindmaps error: "), "{}", error);
    conn.execute("CREATE TABLE mindmaps (conversation_id INTEGER)", []).unwrap();
    conn.execute("INSERT INTO messages VALUES (1)", []).unwrap();
    let error = delete_conversation(&mut session, 1).unwrap_err();
    assert!(error.starts_with("Delete conversation error: "), "{}", error);
    assert_eq!(number(&conn, "SELECT COUNT(*) FROM messages"), 0);
}

#[test]
fn save_message_gives_new_ids_and_stores_the_fields() {
    let conn = store();
    let mut session = Session::new(&conn);
    let conversation = add(&mut session, "a", "s");
    let first = save_message(&mut session, conversation, "user".to_string(), "hello".to_string(), 1700000000123).unwrap();
    let second = save_message(&mut session, conversation, "assistant".to_string(), "hi".to_string(), 1700000000456).unwrap();
    assert_eq!((first, second), (1, 2));
    assert_eq!(
        get_messages(&mut session, conversation),
        Ok(vec![
            Message { id: 1, conversation_id: conversation, role: "user".to_string(), content: "hello".to_string(), seq: 1700000000123 },
            Message { id: 2, conversation_id: conversation, role: "assistant".to_string(), content: "hi".to_string(), seq: 1700000000456 },
        ])
    );
    assert_eq!(text(&conn, "SELECT typeof(seq) FROM messages WHERE id = 1"), "integer");
    assert_eq!(text(&conn, "SELECT typeof(conversation_id) FROM messages WHERE id = 1"), "integer");
}

#[test]
fn save_message_stores_negative_numbers() {
    let conn = store();
    let mut session = Session::new(&conn);
    save_message(&mut session, -5, "user".to_string(), "odd".to_string(), i64::MIN).unwrap();
    let messages = get_messages(&mut session, -5).unwrap();
    assert_eq!(messages.len(), 1);
    assert_eq!(messages[0].seq, i64::MIN);
    assert_eq!(messages[0].conversation_id, -5);
}

#[test]
fn save_message_without_tables_is_an_error() {
    let conn = Connection::open_in_memory().unwrap();
    let mut session = Session::new(&conn);
    let error = save_message(&mut session, 1, "user".to_string(), "x".to_string(), 1).unwrap_err();
    assert!(error.starts_with("Insert message error: "), "{}", error);
}

#[test]
fn get_messages_gives_them_in_the_order_of_their_sequence_numbers() {
    let conn = store();
    let mut session = Session::new(&conn);
    let one = add(&mut session, "one", "s");
    let two = add(&mut session, "two", "s");
    for (conversation, seq) in [(one, 30), (two, 5), (one, 10), (two, 50), (one, 20), (two, 15), (one, 10)] {
        save_message(&mut session, conversation, "user".to_string(), format!("m{}", seq), seq).unwrap();
    }
    let messages = get_messages(&mut session, one).unwrap();
    let seqs: Vec<i64> = messages.iter().map(|message| message.seq).collect();
    assert_eq!(seqs, vec![10, 10, 20, 30]);
    assert!(messages.iter().all(|message| message.conversation_id == one));
    assert!(messages.windows(2).all(|pair| pair[0].seq <= pair[1].seq));
    let others: Vec<i64> = get_messages(&mut session, two).unwrap().iter().map(|message| message.seq).collect();
    assert_eq!(others, vec![5, 15, 50]);
}

#[test]
fn update_conversation_notes_sets_the_notes() {
    let conn = store();
    let mut session = Session::new(&conn);
    let id = add(&mut session, "a", "s");
    let other = add(&mut session, "b", "s");
    assert_eq!(update_conversation_notes(&mut session, id, "remember".to_string()), Ok(true));
    assert_eq!(get_conversation(&mut session, id).unwrap().unwrap().notes, Some("remember".to_string()));
    assert_eq!(get_conversation(&mut session, other).unwrap().unwrap().notes, None);
    assert_eq!(update_conversation_notes(&mut session, 99, "lost".to_string()), Ok(false));
}

#[test]
fn update_conversation_summary_sets_the_summary() {
    let conn = store();
    let mut session = Session::new(&conn);
    let id = add(&mut session, "a", "old");
    assert_eq!(update_conversation_summary(&mut session, id, "new".to_string()), Ok(true));
    assert_eq!(get_conversation(&mut session, id).unwrap().unwrap().summary, Some("new".to_string()));
    assert_eq!(update_conversation_summary(&mut session, 99, "lost".to_string()), Ok(false));
}

#[test]
fn updates_without_tables_are_errors() {
    let conn = Connection::open_in_memory().unwrap();
    let mut session = Session::new(&conn);
    let error = update_conversation_notes(&mut session, 1, "n".to_string()).unwrap_err();
    assert!(error.starts_with("Update notes error: "), "{}", error);
    let error = update_conversation_summary(&mut session, 1, "s".to_string()).unwrap_err();
    assert!(error.starts_with("Update summary error: "), "{}", error);
}

#[test]
fn get_mindmap_data_that_is_not_there_is_none() {
    let conn = store();
    let mut session = Session::new(&conn);
    assert_eq!(get_mindmap_data(&mut session, 1), Ok(None));
}

#[test]
fn save_mindmap_data_twice_keeps_one_row_and_renews_the_time() {
    let conn = store();
    let mut session = Session::new(&conn);
    let conversation = add(&mut session, "a", "s");
    let first = save_mindmap_data(
        &mut session,
        conversation,
        "first title".to_string(),
        "[1]".to_string(),
        "[2]".to_string(),
        "dark".to_string(),
    )
    .unwrap();
    conn.execute(
        "UPDATE mindmaps SET created_at = '2001-01-01 00:00:00', updated_at = '2001-01-01 00:00:00'",
        [],
    )
    .unwrap();
    let before = get_mindmap_data(&mut session, conversation).unwrap().unwrap();
    let second = save_mindmap_data(
        &mut session,
        conversation,
        "second title".to_string(),
        "[3]".to_string(),
        "[4]".to_string(),
        "light".to_string(),
    )
    .unwrap();
    assert_eq!(first, second);
    assert_eq!(number(&conn, "SELECT COUNT(*) FROM mindmaps"), 1);
    let after = get_mindmap_data(&mut session, conversation).unwrap().unwrap();
    assert_eq!(after.id, first);
    assert_eq!(after.conversation_id, conversation);
    assert_eq!(after.title, "second title");
    assert_eq!(after.nodes, "[3]");
    assert_eq!(after.connections, "[4]");
    assert_eq!(after.theme, "light");
    assert_eq!(after.created_at, before.created_at);
    assert!(after.updated_at > before.updated_at, "{} {}", after.updated_at, before.updated_at);
}

#[test]
fn saves_in_quick_succession_leave_later_and_later_times() {
    let conn = store();
    let mut session = Session::new(&conn);
    let conversation = add(&mut session, "a", "s");
    let mut times: Vec<String> = Vec::new();
    for round in 0..4 {
        let id = save_mindmap_data(
            &mut session,
            conversation,
            format!("title {}", round),
            "[]".to_string(),
            "[]".to_string(),
            "default".to_string(),
        )
        .unwrap();
        assert_eq!(id, 1);
        times.push(get_mindmap_data(&mut session, conversation).unwrap().unwrap().updated_at);
    }
    assert!(times.windows(2).all(|pair| pair[0] < pair[1]), "{:?}", times);
    assert!(times.iter().all(|time| time.len() == 19), "{:?}", times);
    assert_eq!(number(&conn, "SELECT COUNT(*) FROM mindmaps"), 1);
}

#[test]
fn save_over_a_time_that_lies_ahead_leaves_the_next_second() {
    let conn = store();
    let mut session = Session::new(&conn);
    let conversation = add(&mut session, "a", "s");
    save_mindmap_data(&mut session, conversation, "t".to_string(), "n".to_string(), "c".to_string(), "d".to_string()).unwrap();
    conn.execute("UPDATE mindmaps SET updated_at = '2999-12-31 23:59:59'", []).unwrap();
    save_mindmap_data(&mut session, conversation, "t".to_string(), "n".to_string(), "c".to_string(), "d".to_string()).unwrap();
    assert_eq!(
        get_mindmap_data(&mut session, conversation).unwrap().unwrap().updated_at,
        "3000-01-01 00:00:00"
    );
}

#[test]
fn save_mindmap_data_keeps_the_maps_of_other_conversations() {
    let conn = store();
    let mut session = Session::new(&conn);
    let one = save_mindmap_data(&mut session, 1, "one".to_string(), "n".to_string(), "c".to_string(), "t".to_string()).unwrap();
    let two = save_mindmap_data(&mut session, 2, "two".to_string(), "n".to_string(), "c".to_string(), "t".to_string()).unwrap();
    assert!(one != two);
    assert_eq!(save_mindmap_data(&mut session, 1, "again".to_string(), "n".to_string(), "c".to_string(), "t".to_string()), Ok(one));
    assert_eq!(get_mindmap_data(&mut session, 2).unwrap().unwrap().title, "two");
    assert_eq!(get_mindmap_data(&mut session, 1).unwrap().unwrap().title, "again");
    assert_eq!(number(&conn, "SELECT COUNT(*) FROM mindmaps"), 2);
}

#[test]
fn save_mindmap_data_without_tables_is_a_query_error() {
    let conn = Connection::open_in_memory().unwrap();
    let mut session = Session::new(&conn);
    let error = save_mindmap_data(&mut session, 1, "t".to_string(), "n".to_string(), "c".to_string(), "d".to_string()).unwrap_err();
    assert!(error.starts_with("Query error: "), "{}", error);
}

#[test]
fn save_mindmap_data_names_the_statement_that_failed() {
    let conn = Connection::open_in_memory().unwrap();
    conn.execute("CREATE TABLE mindmaps (id INTEGER PRIMARY KEY, conversation_id INTEGER)", []).unwrap();
    let mut session = Session::new(&conn);
    let error = save_mindmap_data(&mut session, 1, "t".to_string(), "n".to_string(), "c".to_string(), "d".to_string()).unwrap_err();
    assert!(error.starts_with("Insert mindmap error: "), "{}", error);
    conn.execute("INSERT INTO mindmaps (conversation_id) VALUES (1)", []).unwrap();
    let error = save_mindmap_data(&mut session, 1, "t".to_string(), "n".to_string(), "c".to_string(), "d".to_string()).unwrap_err();
    assert!(error.starts_with("Update mindmap error: "), "{}", error);
}

#[test]
fn parse_period_reads_the_three_periods() {
    assert_eq!(parse_period(&"day".to_string()), Some(Period::Day));
    assert_eq!(parse_period(&"week".to_string()), Some(Period::Week));
    assert_eq!(parse_period(&"month".to_string()), Some(Period::Month));
    assert_eq!(parse_period(&"year".to_string()), None);
    assert_eq!(parse_period(&"Day".to_string()), None);
    assert_eq!(parse_period(&"".to_string()), None);
    assert_eq!(parse_period(&" day".to_string()), None);
}

#[test]
fn analytics_by_day_counts_each_day() {
    let conn = store();
    let mut session = Session::new(&conn);
    for name in ["a", "b", "c", "d"] {
        add(&mut session, name, "s");
    }
    conn.execute("UPDATE conversations SET created_at = datetime('now', '-1 day') WHERE name = 'c'", []).unwrap();
    conn.execute("UPDATE conversations SET created_at = datetime('now', '-40 days') WHERE name = 'd'", []).unwrap();
    let today = text(&conn, "SELECT DATE('now')");
    let yesterday = text(&conn, "SELECT DATE('now', '-1 day')");
    assert_eq!(
        get_conversation_analytics(&mut session, "day".to_string()),
        Ok(vec![
            AnalyticsData { date: today, count: 2 },
            AnalyticsData { date: yesterday, count: 1 },
        ])
    );
}

#[test]
fn analytics_by_week_names_the_week_by_its_monday() {
    let conn = store();
    let mut session = Session::new(&conn);
    for name in ["a", "b"] {
        add(&mut session, name, "s");
    }
    conn.execute("UPDATE conversations SET created_at = datetime('now', '-14 days') WHERE name = 'b'", []).unwrap();
    let this_week = text(&conn, "SELECT DATE('now', 'weekday 0', '-6 days')");
    let earlier_week = text(&conn, "SELECT DATE('now', '-14 days', 'weekday 0', '-6 days')");
    assert_eq!(text(&conn, "SELECT strftime('%w', DATE('now', 'weekday 0', '-6 days'))"), "1");
    assert_eq!(
        get_conversation_analytics(&mut session, "week".to_string()),
        Ok(vec![
            AnalyticsData { date: this_week, count: 1 },
            AnalyticsData { date: earlier_week, count: 1 },
        ])
    );
}

#[test]
fn analytics_by_month_names_the_month_by_its_first_day() {
    let conn = store();
    let mut session = Session::new(&conn);
    for name in ["a", "b", "c"] {
        add(&mut session, name, "s");
    }
    conn.execute("UPDATE conversations SET created_at = datetime('now', '-13 months') WHERE name = 'c'", []).unwrap();
    let this_month = text(&conn, "SELECT DATE('now', 'start of month')");
    assert_eq!(
        get_conversation_analytics(&mut session, "month".to_string()),
        Ok(vec![AnalyticsData { date: this_month, count: 2 }])
    );
}

#[test]
fn analytics_refuses_other_periods_without_asking_the_store() {
    let conn = Connection::open_in_memory().unwrap();
    let mut session = Session::new(&conn);
    for period in ["year", "", "DAY", "days", "hour"] {
        assert_eq!(
            get_conversation_analytics(&mut session, period.to_string()),
            Err("Invalid period. Use 'day', 'week', or 'month'".to_string())
        );
    }
    let error = get_conversation_analytics(&mut session, "day".to_string()).unwrap_err();
    assert!(error.starts_with("Prepare error: "), "{}", error);
}

#[test]
fn api_key_is_none_until_it_is_set() {
    let conn = store();
    let mut session = Session::new(&conn);
    assert_eq!(get_api_key(&mut session), Ok(None));
    assert_eq!(set_api_key(&mut session, "first".to_string()), Ok(()));
    assert_eq!(get_api_key(&mut session), Ok(Some("first".to_string())));
}

#[test]
fn api_key_is_set_over_the_one_that_is_there() {
    let conn = store();
    let mut session = Session::new(&conn);
    set_api_key(&mut session, "first".to_string()).unwrap();
    conn.execute("UPDATE user_preferences SET updated_at = '2001-01-01 00:00:00' WHERE key = 'gemini_api_key'", []).unwrap();
    set_api_key(&mut session, "second".to_string()).unwrap();
    assert_eq!(get_api_key(&mut session), Ok(Some("second".to_string())));
    assert_eq!(number(&conn, "SELECT COUNT(*) FROM user_preferences WHERE key = 'gemini_api_key'"), 1);
    assert!(text(&conn, "SELECT updated_at FROM user_preferences WHERE key = 'gemini_api_key'").as_str() > "2001-01-01 00:00:00");
    assert_eq!(number(&conn, "SELECT COUNT(*) FROM user_preferences"), 3);
}

#[test]
fn api_key_without_a_value_is_none() {
    let conn = store();
    let mut session = Session::new(&conn);
    conn.execute("INSERT INTO user_preferences (key, value) VALUES ('gemini_api_key', NULL)", []).unwrap();
    assert_eq!(get_api_key(&mut session), Ok(None));
}

#[test]
fn api_key_without_tables_is_an_error() {
    let conn = Connection::open_in_memory().unwrap();
    let mut session = Session::new(&conn);
    let error = get_api_key(&mut session).unwrap_err();
    assert!(error.starts_with("Failed to get API key: "), "{}", error);
    let error = set_api_key(&mut session, "k".to_string()).unwrap_err();
    assert!(error.starts_with("Failed to set API key: "), "{}", error);
}
