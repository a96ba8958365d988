use rusqlite::Connection;
use rwe_store::database::{create_conversation, save_message};
use rwe_store::migrations::MigrationRunner;
use rwe_store::query::parse_query;
use rwe_store::records::{ConversationMatch, MessageMatch};
use rwe_store::search::{score_candidates, score_conversation, score_message, search_content};
use rwe_store::session::Session;

fn rank_of(points: u64, length: usize) -> u64 {
    let score = points as f64 / (length as f64).log10().max(1.0);
    assert!(!score.is_nan());
    score.to_bits()
}

fn score_of(rank: u64) -> f64 {
    f64::from_bits(rank)
}

fn store() -> Connection {
    let conn = Connection::open_in_memory().unwrap();
    let mut session = Session::new(&conn);
    MigrationRunner::new().run_migrations(&mut session).unwrap();
    conn
}

fn add(session: &mut Session<'_>, name: &str, summary: &str) -> i64 {
    create_conversation(session, name.to_string(), summary.to_string()).unwrap()
}

fn say(session: &mut Session<'_>, conversation: i64, role: &str, content: &str, seq: i64) -> i64 {
    save_message(session, conversation, role.to_string(), content.to_string(), seq).unwrap()
}

#[test]
fn empty_query_finds_nothing() {
    let conn = store();
    let mut session = Session::new(&conn);
    let conversation = add(&mut session, "talk", "all about errors");
    say(&mut session, conversation, "user", "an error", 1);
    assert_eq!(search_content(&mut session, "", &rank_of), Ok(Vec::new()));
    assert_eq!(search_content(&mut session, "   ", &rank_of), Ok(Vec::new()));
    assert_eq!(search_content(&mut session, " \t\n\u{3000}", &rank_of), Ok(Vec::new()));
}

#[test]
fn empty_query_does_not_ask_the_store() {
    let conn = Connection::open_in_memory().unwrap();
    let mut session = Session::new(&conn);
    assert_eq!(search_content(&mut session, " ", &rank_of), Ok(Vec::new()));
    let error = search_content(&mut session, "x", &rank_of).unwrap_err();
    assert!(error.starts_with("Prepare messages error: "), "{}", error);
}

#[test]
fn term_in_a_summary_alone_gives_one_conversation_result() {
    let conn = store();
    let mut session = Session::new(&conn);
    let conversation = add(&mut session, "weekly talk", "we spoke of the harvest");
    add(&mut session, "other talk", "nothing of note");
    say(&mut session, conversation, "user", "hello there", 1);
    conn.execute("UPDATE conversations SET created_at = '2024-05-01 08:00:00' WHERE id = ?1", [conversation]).unwrap();
    let results = search_content(&mut session, "harvest", &rank_of).unwrap();
    assert_eq!(results.len(), 1);
    let result = &results[0];
    assert_eq!(result.content_type, "conversation");
    assert_eq!(result.id, conversation);
    assert_eq!(result.conversation_id, conversation);
    assert_eq!(result.conversation_name, "weekly talk");
    assert_eq!(result.content, "we spoke of the harvest");
    assert_eq!(result.snippet, "we spoke of the harvest");
    assert_eq!(result.created_at, "2024-05-01 08:00:00");
    assert_eq!(result.relevance.points, 2 + 3);
    assert_eq!(result.relevance.length, 23);
    assert_eq!(score_of(result.rank), 5.0 / 23f64.log10());
}

#[test]
fn term_in_a_message_gives_a_message_result_with_its_role() {
    let conn = store();
    let mut session = Session::new(&conn);
    let conversation = add(&mut session, "talk", "summary");
    let message = say(&mut session, conversation, "assistant", "the Disk is full", 7);
    let results = search_content(&mut session, "disk", &rank_of).unwrap();
    assert_eq!(results.len(), 1);
    assert_eq!(results[0].content_type, "message_assistant");
    assert_eq!(results[0].id, message);
    assert_eq!(results[0].conversation_id, conversation);
    assert_eq!(results[0].conversation_name, "talk");
    assert_eq!(results[0].content, "the Disk is full");
    assert_eq!(results[0].snippet, "the Disk is full");
    assert_eq!(results[0].relevance.points, 5);
}

#[test]
fn conversation_is_found_by_its_name_and_scored_by_its_summary() {
    let conn = store();
    let mut session = Session::new(&conn);
    let conversation = add(&mut session, "harvest plans", "what to sow");
    let results = search_content(&mut session, "harvest", &rank_of).unwrap();
    assert_eq!(results.len(), 1);
    assert_eq!(results[0].id, conversation);
    assert_eq!(results[0].content, "what to sow");
    assert_eq!(results[0].relevance.points, 0);
    assert_eq!(results[0].rank, rank_of(0, 11));
}

#[test]
fn more_relevant_results_come_first() {
    let conn = store();
    let mut session = Session::new(&conn);
    let conversation = add(&mut session, "talk", "summary");
    let single = say(&mut session, conversation, "user", "error", 1);
    let triple = say(&mut session, conversation, "user", "error error error", 2);
    let buried = say(&mut session, conversation, "user", &format!("{}error", "x".repeat(500)), 3);
    let results = search_content(&mut session, "error", &rank_of).unwrap();
    let ids: Vec<i64> = results.iter().map(|result| result.id).collect();
    assert_eq!(ids, vec![triple, single, buried]);
    assert!(score_of(results[0].rank) >= score_of(results[1].rank));
    assert!(results.windows(2).all(|pair| pair[0].rank >= pair[1].rank));
}

#[test]
fn messages_and_conversations_are_ranked_together() {
    let conn = store();
    let mut session = Session::new(&conn);
    let conversation = add(&mut session, "talk", "error error error error");
    let message = say(&mut session, conversation, "user", "one error in a longer message about many things", 1);
    let results = search_content(&mut session, "error", &rank_of).unwrap();
    assert_eq!(results.len(), 2);
    assert_eq!(results[0].content_type, "conversation");
    assert_eq!(results[0].id, conversation);
    assert_eq!(results[1].content_type, "message_user");
    assert_eq!(results[1].id, message);
}

#[test]
fn results_of_equal_rank_keep_the_order_of_the_store() {
    let conn = store();
    let mut session = Session::new(&conn);
    let older = add(&mut session, "older", "s");
    let newer = add(&mut session, "newer", "s");
    conn.execute("UPDATE conversations SET created_at = '2024-01-01 00:00:00' WHERE id = ?1", [older]).unwrap();
    conn.execute("UPDATE conversations SET created_at = '2024-02-01 00:00:00' WHERE id = ?1", [newer]).unwrap();
    let a = say(&mut session, older, "user", "same error", 2);
    let b = say(&mut session, older, "user", "same error", 1);
    let c = say(&mut session, newer, "user", "same error", 9);
    let results = search_content(&mut session, "error", &rank_of).unwrap();
    let ids: Vec<i64> = results.iter().map(|result| result.id).collect();
    assert_eq!(ids, vec![c, b, a]);
}

#[test]
fn at_most_fifty_results_are_returned() {
    let conn = store();
    let mut session = Session::new(&conn);
    for i in 0..40 {
        let conversation = add(&mut session, &format!("talk {}", i), "an error was seen");
        say(&mut session, conversation, "user", "error again", i);
        say(&mut session, conversation, "user", "and one more error", 100 + i);
    }
    let results = search_content(&mut session, "error", &rank_of).unwrap();
    assert_eq!(results.len(), 50);
    assert!(results.windows(2).all(|pair| pair[0].rank >= pair[1].rank));
    let conversations = results.iter().filter(|result| result.content_type == "conversation").count();
    let messages = results.iter().filter(|result| result.content_type == "message_user").count();
    assert!(conversations <= 30);
    assert_eq!(conversations + messages, 50);
}

#[test]
fn query_is_put_in_lower_case_for_the_store() {
    let conn = store();
    let mut session = Session::new(&conn);
    let conversation = add(&mut session, "talk", "summary");
    let message = say(&mut session, conversation, "user", "viel ärger heute", 1);
    let results = search_content(&mut session, "ÄRGER", &rank_of).unwrap();
    assert_eq!(results.len(), 1);
    assert_eq!(results[0].id, message);
    assert_eq!(results[0].relevance.points, 5);
}

#[test]
fn whole_query_is_the_pattern_and_each_word_a_term() {
    let conn = store();
    let mut session = Session::new(&conn);
    let conversation = add(&mut session, "talk", "summary");
    let both = say(&mut session, conversation, "user", "disk error on disk", 1);
    say(&mut session, conversation, "user", "error on disk", 2);
    let results = search_content(&mut session, "disk error", &rank_of).unwrap();
    assert_eq!(results.len(), 1);
    assert_eq!(results[0].id, both);
    assert_eq!(results[0].relevance.points, 4 + 5 + 3 + 2 + 3);
}

#[test]
fn long_content_gets_a_snippet_round_the_match() {
    let conn = store();
    let mut session = Session::new(&conn);
    let conversation = add(&mut session, "talk", "summary");
    let content = format!("{}needle{}", "a".repeat(150), "b".repeat(150));
    say(&mut session, conversation, "user", &content, 1);
    let results = search_content(&mut session, "needle", &rank_of).unwrap();
    assert_eq!(results.len(), 1);
    assert_eq!(results[0].content, content);
    assert_eq!(results[0].snippet, format!("...{}needle{}...", "a".repeat(80), "b".repeat(80)));
    assert!(results[0].snippet.chars().count() <= 200);
}

#[test]
fn search_names_the_source_that_failed() {
    let conn = Connection::open_in_memory().unwrap();
    let mut session = Session::new(&conn);
    let error = search_content(&mut session, "x", &rank_of).unwrap_err();
    assert!(error.starts_with("Prepare messages error: "), "{}", error);
    conn.execute("CREATE TABLE messages (id INTEGER, conversation_id INTEGER, content TEXT, role TEXT, seq INTEGER)", []).unwrap();
    conn.execute("CREATE TABLE conversations (id INTEGER, name TEXT, created_at TEXT)", []).unwrap();
    let error = search_content(&mut session, "x", &rank_of).unwrap_err();
    assert!(error.starts_with("Prepare conversations error: "), "{}", error);
}

#[test]
fn search_refuses_rows_that_do_not_fit() {
    let conn = store();
    let mut session = Session::new(&conn);
    let conversation = add(&mut session, "talk", "summary");
    say(&mut session, conversation, "user", "an error", 1);
    conn.execute("UPDATE conversations SET created_at = NULL", []).unwrap();
    assert_eq!(
        search_content(&mut session, "error", &rank_of),
        Err("Row error: unexpected kind of value in column 5".to_string())
    );
}

#[test]
fn score_message_makes_the_result_of_a_found_message() {
    let terms = parse_query("Error");
    let found = MessageMatch {
        id: 3,
        conversation_id: 4,
        conversation_name: "talk".to_string(),
        content: "An ERROR".to_string(),
        role: "user".to_string(),
        created_at: "2024-01-01 00:00:00".to_string(),
    };
    let result = score_message(found, &terms, &rank_of);
    assert_eq!(result.id, 3);
    assert_eq!(result.conversation_id, 4);
    assert_eq!(result.conversation_name, "talk");
    assert_eq!(result.content_type, "message_user");
    assert_eq!(result.content, "An ERROR");
    assert_eq!(result.snippet, "An ERROR");
    assert_eq!(result.relevance.points, 5);
    assert_eq!(result.relevance.length, 8);
    assert_eq!(result.rank, rank_of(5, 8));
    assert_eq!(result.created_at, "2024-01-01 00:00:00");
}

#[test]
fn score_conversation_makes_the_result_of_a_found_conversation() {
    let terms = parse_query("error");
    let found = ConversationMatch {
        id: 9,
        conversation_id: 9,
        conversation_name: "talk".to_string(),
        content: "error".to_string(),
        created_at: "2024-01-01 00:00:00".to_string(),
    };
    let result = score_conversation(found, &terms, &rank_of);
    assert_eq!(result.content_type, "conversation");
    assert_eq!(result.relevance.points, 7);
    assert_eq!(result.rank, 7f64.to_bits());
}

#[test]
fn score_candidates_puts_messages_before_conversations() {
    let terms = parse_query("error");
    let message = |id: i64| MessageMatch {
        id,
        conversation_id: 1,
        conversation_name: "talk".to_string(),
        content: "error".to_string(),
        role: "user".to_string(),
        created_at: "t".to_string(),
    };
    let conversation = |id: i64| ConversationMatch {
        id,
        conversation_id: id,
        conversation_name: "talk".to_string(),
        content: "error".to_string(),
        created_at: "t".to_string(),
    };
    let scored = score_candidates(
        vec![message(1), message(2)],
        vec![conversation(3), conversation(4), conversation(5)],
        &terms,
        &rank_of,
    );
    let ids: Vec<i64> = scored.iter().map(|result| result.id).collect();
    assert_eq!(ids, vec![1, 2, 3, 4, 5]);
    assert_eq!(scored[1].content_type, "message_user");
    assert_eq!(scored[2].content_type, "conversation");
}

#[test]
fn conversation_without_a_summary_is_no_candidate() {
    let conn = store();
    let mut session = Session::new(&conn);
    add(&mut session, "harvest notes", "");
    conn.execute("INSERT INTO conversations (name) VALUES ('harvest plans')", []).unwrap();
    let kept = add(&mut session, "harvest talk", "what to sow");
    let results = search_content(&mut session, "harvest", &rank_of).unwrap();
    assert_eq!(results.len(), 1);
    assert_eq!(results[0].id, kept);
}
