use rusqlite::Connection;
use rwe_store::database::{create_conversation, save_message};
use rwe_store::maintenance::{
    after_backup_step, get_database_info, name_copy, start_backup, BackupAction, BackupProgress,
    BackupStep, DatabaseInfo, BACKUP_ATTEMPTS, BACKUP_PAGES_PER_STEP, BACKUP_PAUSE_MILLIS,
};
use rwe_store::migrations::MigrationRunner;
use rwe_store::session::Session;

#[test]
fn database_info_tells_version_counts_and_size() {
    let conn = Connection::open_in_memory().unwrap();
    let mut session = Session::new(&conn);
    MigrationRunner::new().run_migrations(&mut session).unwrap();
    for i in 0..3 {
        let id = create_conversation(&mut session, format!("c{}", i), "s".to_string()).unwrap();
        save_message(&mut session, id, "user".to_string(), "one".to_string(), 1).unwrap();
        save_message(&mut session, id, "user".to_string(), "two".to_string(), 2).unwrap();
    }
    let pages: i64 = conn.query_row("PRAGMA page_count", [], |row| row.get(0)).unwrap();
    let page_size: i64 = conn.query_row("PRAGMA page_size", [], |row| row.get(0)).unwrap();
    let info = get_database_info(&mut session, "1.2.3".to_string());
    assert_eq!(
        info,
        DatabaseInfo {
            schema_version: 2,
            conversations_count: 3,
            messages_count: 6,
            database_size_bytes: pages * page_size,
            app_version: "1.2.3".to_string(),
        }
    );
    assert!(info.database_size_bytes > 0);
}

#[test]
fn database_info_of_a_store_without_tables_is_zero() {
    let conn = Connection::open_in_memory().unwrap();
    let mut session = Session::new(&conn);
    let info = get_database_info(&mut session, "0.1.0".to_string());
    assert_eq!(info.schema_version, 0);
    assert_eq!(info.conversations_count, 0);
    assert_eq!(info.messages_count, 0);
    assert_eq!(info.app_version, "0.1.0");
}

#[test]
fn backup_policy_is_five_pages_five_attempts_and_a_quarter_second() {
    assert_eq!(BACKUP_PAGES_PER_STEP, 5);
    assert_eq!(BACKUP_ATTEMPTS, 5);
    assert_eq!(BACKUP_PAUSE_MILLIS, 250);
}

#[test]
fn backup_finishes_when_all_is_copied() {
    let (progress, action) = after_backup_step(start_backup(), BackupStep::Done);
    assert_eq!(action, BackupAction::Finish);
    assert_eq!(progress, BackupProgress { contended: 0 });
}

#[test]
fn backup_goes_on_after_a_step_that_copied() {
    let (progress, action) = after_backup_step(BackupProgress { contended: 3 }, BackupStep::More);
    assert_eq!(action, BackupAction::PauseAndStep(250));
    assert_eq!(progress, BackupProgress { contended: 0 });
}

#[test]
fn backup_gives_up_at_the_fifth_contended_step_in_a_row() {
    let mut progress = start_backup();
    for attempt in 1..=4 {
        let step = if attempt % 2 == 0 { BackupStep::Busy } else { BackupStep::Locked };
        let (next, action) = after_backup_step(progress, step);
        assert_eq!(action, BackupAction::PauseAndStep(250), "attempt {}", attempt);
        assert_eq!(next.contended, attempt);
        progress = next;
    }
    let (_, action) = after_backup_step(progress, BackupStep::Busy);
    assert_eq!(action, BackupAction::GiveUp);
}

#[test]
fn backup_counts_anew_after_a_step_that_copied() {
    let mut progress = start_backup();
    for _ in 0..4 {
        progress = after_backup_step(progress, BackupStep::Busy).0;
    }
    progress = after_backup_step(progress, BackupStep::More).0;
    let (next, action) = after_backup_step(progress, BackupStep::Locked);
    assert_eq!(action, BackupAction::PauseAndStep(250));
    assert_eq!(next.contended, 1);
}

#[test]
fn backup_gives_up_from_any_count_at_the_limit() {
    let (_, action) = after_backup_step(BackupProgress { contended: u32::MAX }, BackupStep::Busy);
    assert_eq!(action, BackupAction::GiveUp);
}

#[test]
fn name_copy_puts_the_time_between_prefix_and_suffix() {
    assert_eq!(name_copy("backup_", "20240501_083000"), "backup_20240501_083000.db");
    assert_eq!(name_copy("RWE_Export_", "20240501_083000"), "RWE_Export_20240501_083000.db");
    assert_eq!(name_copy("", ""), ".db");
}
