//! Maintenance: what the store tells about itself, and the pacing of a
//! backup of a store that is in use.

use vstd::prelude::*;
use crate::database::{conversations_count_request, without_params, CONVERSATIONS_COUNT_SQL};
use crate::migrations::{version_of, version_request, CURRENT_VERSION_SQL};
use crate::records::{integer_at, integer_in};
use crate::session::{
    asked_once, follows, lemma_script_start, lemma_script_step, Next, Reply, Request, Session,
};
use crate::sql::ParamsView;

verus! {

/// The query for the number of messages.
pub const MESSAGES_COUNT_SQL: &'static str = "SELECT COUNT(*) FROM messages";

/// The query for the size of the store in bytes: the number of its pages
/// times the size of a page.
pub const DATABASE_SIZE_SQL: &'static str =
    "SELECT page_count * page_size as size FROM pragma_page_count(), pragma_page_size()";

/// What the store tells about itself.
#[derive(Debug, PartialEq, Eq)]
pub struct DatabaseInfo {
    /// The highest version of the schema that is recorded.
    pub schema_version: u32,
    pub conversations_count: i64,
    pub messages_count: i64,
    pub database_size_bytes: i64,
    /// The version of the running application.
    pub app_version: String,
}

/// What a `DatabaseInfo` stands for.
pub struct DatabaseInfoView {
    pub schema_version: u32,
    pub conversations_count: i64,
    pub messages_count: i64,
    pub database_size_bytes: i64,
    pub app_version: Seq<char>,
}

impl DeepView for DatabaseInfo {
    type V = DatabaseInfoView;

    open spec fn deep_view(&self) -> DatabaseInfoView {
        DatabaseInfoView {
            schema_version: self.schema_version,
            conversations_count: self.conversations_count,
            messages_count: self.messages_count,
            database_size_bytes: self.database_size_bytes,
            app_version: self.app_version@,
        }
    }
}

/// The request for the number of messages.
pub open spec fn messages_count_request() -> Request {
    Request::Query {
        sql: MESSAGES_COUNT_SQL@,
        params: ParamsView::Integers(Seq::empty()),
        columns: 1,
        max_rows: 1,
    }
}

/// The request for the size of the store.
pub open spec fn database_size_request() -> Request {
    Request::Query {
        sql: DATABASE_SIZE_SQL@,
        params: ParamsView::Integers(Seq::empty()),
        columns: 1,
        max_rows: 1,
    }
}

/// The number that an answer tells: the integer of its first row, and 0 for
/// every other answer.
pub open spec fn number_of(reply: Reply) -> i64 {
    match reply {
        Reply::Rows(rows) => if rows.len() > 0 {
            match integer_at(rows[0], 0) {
                Some(number) => number,
                None => 0,
            }
        } else {
            0
        },
        _ => 0,
    }
}

/// The script of the gathering of the information: ask for the version of
/// the schema, the number of conversations, the number of messages and the
/// size of the store, whatever the answers; then return what they tell, with
/// 0 for each that does not tell a number.
pub open spec fn info_script(app_version: Seq<char>) -> spec_fn(Seq<Reply>) -> Next<
    DatabaseInfoView,
> {
    |replies: Seq<Reply>|
        if replies.len() == 0 {
            Next::Ask(version_request())
        } else if replies.len() == 1 {
            Next::Ask(conversations_count_request())
        } else if replies.len() == 2 {
            Next::Ask(messages_count_request())
        } else if replies.len() == 3 {
            Next::Ask(database_size_request())
        } else {
            Next::Return(
                DatabaseInfoView {
                    schema_version: version_of(replies[0]),
                    conversations_count: number_of(replies[1]),
                    messages_count: number_of(replies[2]),
                    database_size_bytes: number_of(replies[3]),
                    app_version,
                },
            )
        }
}

/// Asks the store for a number.
fn ask_number(session: &mut Session<'_>, sql: &str) -> (number: i64)
    ensures
        asked_once(
            (Request::Query {
                sql: sql@,
                params: ParamsView::Integers(Seq::empty()),
                columns: 1,
                max_rows: 1,
            }),
            old(session).journal(),
            final(session).journal(),
        ),
        number == number_of(final(session).journal().last().reply),
{
    let ghost before = session.journal();
    let params = without_params();
    let answer = session.query(sql, &params, 1, 1);
    assert(session.journal().drop_last() =~= before);
    match answer {
        Ok(rows) => {
            if rows.len() > 0 {
                assert(rows.deep_view()[0] == rows[0].deep_view());
                match integer_in(&rows[0], 0) {
                    Some(number) => number,
                    None => 0,
                }
            } else {
                0
            }
        },
        Err(_) => 0,
    }
}

/// Gathers what the store tells about itself. `app_version` is the version
/// of the running application, which is handed through.
pub fn get_database_info(session: &mut Session<'_>, app_version: String) -> (info: DatabaseInfo)
    ensures
        follows(
            info_script(app_version@),
            old(session).journal(),
            final(session).journal(),
            info.deep_view(),
        ),
{
    let ghost before = session.journal();
    let ghost script = info_script(app_version@);
    proof {
        lemma_script_start(script, before);
    }
    let version = ask_number(session, CURRENT_VERSION_SQL);
    proof {
        assert(session.journal() =~= before.push(session.journal().last()));
        lemma_script_step(script, before, before, session.journal().last());
    }
    let schema_version: u32 = if 0 <= version && version <= u32::MAX as i64 {
        version as u32
    } else {
        0
    };
    let ghost earlier = session.journal();
    let conversations_count = ask_number(session, CONVERSATIONS_COUNT_SQL);
    proof {
        assert(session.journal() =~= earlier.push(session.journal().last()));
        lemma_script_step(script, before, earlier, session.journal().last());
    }
    let ghost earlier = session.journal();
    let messages_count = ask_number(session, MESSAGES_COUNT_SQL);
    proof {
        assert(session.journal() =~= earlier.push(session.journal().last()));
        lemma_script_step(script, before, earlier, session.journal().last());
    }
    let ghost earlier = session.journal();
    let database_size_bytes = ask_number(session, DATABASE_SIZE_SQL);
    proof {
        assert(session.journal() =~= earlier.push(session.journal().last()));
        lemma_script_step(script, before, earlier, session.journal().last());
    }
    DatabaseInfo {
        schema_version,
        conversations_count,
        messages_count,
        database_size_bytes,
        app_version,
    }
}

/// The number of pages that one step of a backup copies.
pub const BACKUP_PAGES_PER_STEP: i32 = 5;

/// The milliseconds that a backup waits between two steps.
pub const BACKUP_PAUSE_MILLIS: u64 = 250;

/// The number of steps in a row that may find the store busy or locked
/// before the backup gives up.
pub const BACKUP_ATTEMPTS: u32 = 5;

/// How a step of a backup ended.
#[derive(Clone, Copy, PartialEq, Eq, Structural, Debug)]
pub enum BackupStep {
    /// All pages are copied.
    Done,
    /// The step copied pages, and more are left.
    More,
    /// The store was busy, and nothing was copied.
    Busy,
    /// The store was locked, and nothing was copied.
    Locked,
}

/// What a backup does after a step.
#[derive(Clone, Copy, PartialEq, Eq, Structural, Debug)]
pub enum BackupAction {
    /// The copy is complete.
    Finish,
    /// Wait for this many milliseconds and take the next step.
    PauseAndStep(u64),
    /// Stop without a copy.
    GiveUp,
}

/// How far a backup has come: the number of steps in a row, up to now, that
/// found the store busy or locked.
#[derive(Clone, Copy, PartialEq, Eq, Structural, Debug)]
pub struct BackupProgress {
    pub contended: u32,
}

/// What a backup does after a step that ended as `step`, and how far it has
/// then come: a complete copy finishes it; a step that copied pages lets it
/// go on after the pause; a step that found the store busy or locked lets it
/// go on after the pause as long as fewer than 5 such steps have come in a
/// row, the fifth makes it give up.
pub open spec fn backup_decision(progress: BackupProgress, step: BackupStep) -> (
    BackupProgress,
    BackupAction,
) {
    match step {
        BackupStep::Done => (BackupProgress { contended: 0 }, BackupAction::Finish),
        BackupStep::More => (
            BackupProgress { contended: 0 },
            BackupAction::PauseAndStep(BACKUP_PAUSE_MILLIS),
        ),
        _ => if progress.contended + 1 >= BACKUP_ATTEMPTS {
            (progress, BackupAction::GiveUp)
        } else {
            (
                BackupProgress { contended: (progress.contended + 1) as u32 },
                BackupAction::PauseAndStep(BACKUP_PAUSE_MILLIS),
            )
        },
    }
}

/// The progress of a backup that has taken no step yet.
pub fn start_backup() -> (progress: BackupProgress)
    ensures
        progress.contended == 0,
{
    BackupProgress { contended: 0 }
}

/// Decides what a backup does after a step.
pub fn after_backup_step(progress: BackupProgress, step: BackupStep) -> (decision: (
    BackupProgress,
    BackupAction,
))
    ensures
        decision == backup_decision(progress, step),
{
    match step {
        BackupStep::Done => (BackupProgress { contended: 0 }, BackupAction::Finish),
        BackupStep::More => (
            BackupProgress { contended: 0 },
            BackupAction::PauseAndStep(BACKUP_PAUSE_MILLIS),
        ),
        _ => {
            if progress.contended >= BACKUP_ATTEMPTS - 1 {
                (progress, BackupAction::GiveUp)
            } else {
                (
                    BackupProgress { contended: progress.contended + 1 },
                    BackupAction::PauseAndStep(BACKUP_PAUSE_MILLIS),
                )
            }
        },
    }
}

/// A backup whose steps find the store busy gives up at the fifth such step
/// in a row at the latest, wherever it starts: no backup waits for a busy
/// store without end.
pub proof fn lemma_backup_gives_up(progress: BackupProgress)
    ensures
        ({
            let first = backup_decision(progress, BackupStep::Busy);
            let second = backup_decision(first.0, BackupStep::Busy);
            let third = backup_decision(second.0, BackupStep::Busy);
            let fourth = backup_decision(third.0, BackupStep::Busy);
            let fifth = backup_decision(fourth.0, BackupStep::Busy);
            first.1 == BackupAction::GiveUp || second.1 == BackupAction::GiveUp || third.1
                == BackupAction::GiveUp || fourth.1 == BackupAction::GiveUp || fifth.1
                == BackupAction::GiveUp
        }),
{
}

/// The name of a copy of the store that is made at the time `timestamp`:
/// `prefix`, the time, and `.db`.
pub open spec fn copy_name(prefix: Seq<char>, timestamp: Seq<char>) -> Seq<char> {
    prefix + timestamp + ".db"@
}

/// Names a copy of the store that is made at the time `timestamp`.
pub fn name_copy(prefix: &str, timestamp: &str) -> (name: String)
    ensures
        name@ == copy_name(prefix@, timestamp@),
{
    let start = crate::text::joined(prefix, timestamp);
    crate::text::joined(start.as_str(), ".db")
}

} // verus!
