//! The migration registry: the ordered list of schema changes, and the run
//! that brings a store up to the latest of them.
//!
//! Each migration is written so that running it again changes nothing. A run
//! reads the highest version that the store has recorded, and then, for each
//! migration of a higher version in ascending order, runs its statements and
//! records it. The record is written only after the statements have run; the
//! first failure ends the run.

use vstd::prelude::*;
use crate::session::{
    asked_once, follows, keeps_to, lemma_script_start, lemma_script_step, replies_since, settled,
    Exchange, Failure, FailureModel, Next, Reply, Request, Session,
};
use crate::sql::{Params, ParamsView, SqlValue, SqlValueView};
use crate::text::{decimal_text, signed_decimal};

verus! {

/// The statements of the first migration: the tables of conversations,
/// messages and mind-maps, and their indexes.
pub const INITIAL_SCHEMA_SQL: &'static str = r#"
                CREATE TABLE IF NOT EXISTS conversations (
                    id INTEGER PRIMARY KEY AUTOINCREMENT,
                    name TEXT NOT NULL,
                    created_at DATETIME DEFAULT CURRENT_TIMESTAMP,
                    summary TEXT,
                    notes TEXT
                );

                CREATE TABLE IF NOT EXISTS messages (
                    id INTEGER PRIMARY KEY AUTOINCREMENT,
                    conversation_id INTEGER NOT NULL,
                    role TEXT NOT NULL,
                    content TEXT NOT NULL,
                    seq INTEGER NOT NULL,
                    FOREIGN KEY(conversation_id) REFERENCES conversations(id)
                );

                CREATE TABLE IF NOT EXISTS mindmaps (
                    id INTEGER PRIMARY KEY AUTOINCREMENT,
                    conversation_id INTEGER NOT NULL UNIQUE,
                    title TEXT NOT NULL,
                    nodes TEXT NOT NULL,
                    connections TEXT NOT NULL,
                    theme TEXT DEFAULT 'default',
                    created_at DATETIME DEFAULT CURRENT_TIMESTAMP,
                    updated_at DATETIME DEFAULT CURRENT_TIMESTAMP,
                    FOREIGN KEY(conversation_id) REFERENCES conversations(id)
                );

                CREATE INDEX IF NOT EXISTS idx_messages_conversation ON messages(conversation_id);
                CREATE INDEX IF NOT EXISTS idx_messages_seq ON messages(seq);
                CREATE INDEX IF NOT EXISTS idx_mindmaps_conversation ON mindmaps(conversation_id);
            "#;

/// The statements of the second migration: the table of preferences and the
/// preferences that every store starts with.
pub const USER_PREFERENCES_SQL: &'static str = r#"
                CREATE TABLE IF NOT EXISTS user_preferences (
                    id INTEGER PRIMARY KEY AUTOINCREMENT,
                    key TEXT UNIQUE NOT NULL,
                    value TEXT,
                    created_at DATETIME DEFAULT CURRENT_TIMESTAMP,
                    updated_at DATETIME DEFAULT CURRENT_TIMESTAMP
                );
                
                INSERT OR IGNORE INTO user_preferences (key, value) VALUES ('theme', 'system');
                INSERT OR IGNORE INTO user_preferences (key, value) VALUES ('app_version', '1.0.0');
            "#;

/// The statement that makes the table in which applied migrations are
/// recorded, where the store has none.
pub const MIGRATION_TABLE_SQL: &'static str = r#"
            CREATE TABLE IF NOT EXISTS schema_migrations (
                version INTEGER PRIMARY KEY,
                name TEXT NOT NULL,
                applied_at DATETIME DEFAULT CURRENT_TIMESTAMP
            )
            "#;

/// The query for the highest version that the store has recorded.
pub const CURRENT_VERSION_SQL: &'static str = "SELECT MAX(version) FROM schema_migrations";

/// The statement that records an applied migration.
pub const RECORD_MIGRATION_SQL: &'static str =
    "INSERT INTO schema_migrations (version, name) VALUES (?1, ?2)";

/// One versioned change of the schema.
#[derive(Debug, PartialEq, Eq)]
pub struct Migration {
    pub version: u32,
    pub name: String,
    pub up_sql: String,
}

/// What a `Migration` stands for.
pub struct MigrationView {
    pub version: u32,
    pub name: Seq<char>,
    pub up_sql: Seq<char>,
}

impl DeepView for Migration {
    type V = MigrationView;

    open spec fn deep_view(&self) -> MigrationView {
        MigrationView { version: self.version, name: self.name@, up_sql: self.up_sql@ }
    }
}

/// Each version is higher than the one before it.
pub open spec fn ascending(registry: Seq<MigrationView>) -> bool {
    forall|i: int, j: int| 0 <= i < j < registry.len() ==> registry[i].version < registry[j].version
}

/// The migrations that every runner starts with.
pub open spec fn initial_registry() -> Seq<MigrationView> {
    seq![
        MigrationView { version: 1, name: "initial_schema"@, up_sql: INITIAL_SCHEMA_SQL@ },
        MigrationView { version: 2, name: "add_user_preferences"@, up_sql: USER_PREFERENCES_SQL@ },
    ]
}

/// The migrations of `registry` whose version is higher than `current`, in
/// the order of the registry.
pub open spec fn pending(registry: Seq<MigrationView>, current: u32) -> Seq<MigrationView>
    decreases registry.len(),
{
    if registry.len() == 0 {
        Seq::empty()
    } else if registry.last().version > current {
        pending(registry.drop_last(), current).push(registry.last())
    } else {
        pending(registry.drop_last(), current)
    }
}

/// The highest version of `registry`, 0 where it is empty.
pub open spec fn latest_version(registry: Seq<MigrationView>) -> u32
    decreases registry.len(),
{
    if registry.len() == 0 {
        0
    } else if registry.last().version > latest_version(registry.drop_last()) {
        registry.last().version
    } else {
        latest_version(registry.drop_last())
    }
}

/// The request that makes the table of applied migrations.
pub open spec fn setup_request() -> Request {
    Request::Execute { sql: MIGRATION_TABLE_SQL@, params: ParamsView::Integers(Seq::empty()) }
}

/// The request for the highest recorded version.
pub open spec fn version_request() -> Request {
    Request::Query {
        sql: CURRENT_VERSION_SQL@,
        params: ParamsView::Integers(Seq::empty()),
        columns: 1,
        max_rows: 1,
    }
}

/// The request that runs the statements of `migration`.
pub open spec fn batch_request(migration: MigrationView) -> Request {
    Request::Batch { sql: migration.up_sql }
}

/// The request that records `migration` as applied.
pub open spec fn record_request(migration: MigrationView) -> Request {
    Request::Execute {
        sql: RECORD_MIGRATION_SQL@,
        params: ParamsView::Texts(seq![signed_decimal(migration.version as int), migration.name]),
    }
}

/// The version that an answer to the version request tells: the integer of
/// its first row where that is a version, and 0 for every other answer (no
/// row, no value, a value that is no version, a refusal).
pub open spec fn version_of(reply: Reply) -> u32 {
    match reply {
        Reply::Rows(rows) => if rows.len() > 0 && rows[0].len() > 0 {
            match rows[0][0] {
                SqlValueView::Integer(version) => if 0 <= version <= u32::MAX {
                    version as u32
                } else {
                    0
                },
                _ => 0,
            }
        } else {
            0
        },
        _ => 0,
    }
}

/// What a refusal among the answers makes of a run: the refusal itself.
pub open spec fn refusal(reply: Reply) -> FailureModel {
    match reply {
        Reply::Failed(failure) => failure,
        _ => arbitrary(),
    }
}

/// The script of a run of the migrations of `registry`: make the table of
/// applied migrations; read the current version; then for each pending
/// migration in turn run its statements and record it. A refusal of the
/// store, other than of the version request, ends the run with that refusal.
pub open spec fn migration_script(registry: Seq<MigrationView>) -> spec_fn(Seq<Reply>) -> Next<
    Result<(), FailureModel>,
> {
    |replies: Seq<Reply>|
        if replies.len() == 0 {
            Next::Ask(setup_request())
        } else if replies[0] is Failed {
            Next::Return(Err(refusal(replies[0])))
        } else if replies.len() == 1 {
            Next::Ask(version_request())
        } else {
            let todo = pending(registry, version_of(replies[1]));
            let steps = replies.len() - 2;
            if steps > 0 && replies.last() is Failed {
                Next::Return(Err(refusal(replies.last())))
            } else if steps >= 2 * todo.len() {
                Next::Return(Ok(()))
            } else if steps % 2 == 0 {
                Next::Ask(batch_request(todo[steps / 2]))
            } else {
                Next::Ask(record_request(todo[steps / 2]))
            }
        }
}

/// What is pending of the first `n` migrations is the start of what is
/// pending of all.
pub proof fn lemma_pending_prefix(registry: Seq<MigrationView>, current: u32, n: int)
    requires
        0 <= n <= registry.len(),
    ensures
        pending(registry.take(n), current).len() <= pending(registry, current).len(),
        pending(registry.take(n), current) == pending(registry, current).take(
            pending(registry.take(n), current).len() as int,
        ),
    decreases registry.len() - n,
{
    if n == registry.len() {
        assert(registry.take(n) =~= registry);
        assert(pending(registry, current).take(pending(registry, current).len() as int)
            =~= pending(registry, current));
    } else {
        lemma_pending_prefix(registry, current, n + 1);
        assert(registry.take(n + 1).drop_last() =~= registry.take(n));
        let longer = pending(registry.take(n + 1), current);
        let shorter = pending(registry.take(n), current);
        let all = pending(registry, current);
        assert(shorter =~= all.take(shorter.len() as int));
    }
}

/// Every pending migration has a version above `current`, and what is pending
/// stands in ascending order where the registry does.
pub proof fn lemma_pending(registry: Seq<MigrationView>, current: u32)
    ensures
        forall|i: int|
            0 <= i < pending(registry, current).len() ==> (#[trigger] pending(
                registry,
                current,
            )[i]).version > current,
        ascending(registry) ==> ascending(pending(registry, current)),
        forall|i: int|
            0 <= i < pending(registry, current).len() ==> exists|j: int|
                0 <= j < registry.len() && registry[j] == #[trigger] pending(registry, current)[i],
    decreases registry.len(),
{
    if registry.len() > 0 {
        let front = registry.drop_last();
        lemma_pending(front, current);
        let all = pending(registry, current);
        let before = pending(front, current);
        assert forall|i: int| 0 <= i < all.len() implies exists|j: int|
            0 <= j < registry.len() && registry[j] == #[trigger] all[i] by {
            if i < before.len() {
                let j = choose|j: int| 0 <= j < front.len() && front[j] == before[i];
                assert(registry[j] == all[i]);
            } else {
                assert(registry[registry.len() - 1] == all[i]);
            }
        }
        if ascending(registry) {
            assert(ascending(front));
            assert forall|i: int, k: int| 0 <= i < k < all.len() implies all[i].version
                < all[k].version by {
                if k == before.len() {
                    let j = choose|j: int| 0 <= j < front.len() && front[j] == before[i];
                    assert(registry[j].version < registry[registry.len() - 1].version);
                }
            }
        }
    }
}

/// No migration has a version above the latest.
pub proof fn lemma_latest_version(registry: Seq<MigrationView>)
    ensures
        forall|i: int| 0 <= i < registry.len() ==> registry[i].version <= latest_version(registry),
    decreases registry.len(),
{
    if registry.len() > 0 {
        lemma_latest_version(registry.drop_last());
        assert forall|i: int| 0 <= i < registry.len() implies registry[i].version
            <= latest_version(registry) by {
            if i < registry.len() - 1 {
                assert(registry.drop_last()[i] == registry[i]);
            }
        }
    }
}

/// A store that has recorded the latest version, or a higher one, has nothing
/// pending: a run on it asks for the table and for the version and for
/// nothing else, and changes nothing. So a second run after a run that
/// recorded all migrations runs no statements again.
pub proof fn lemma_up_to_date_has_nothing_pending(
    registry: Seq<MigrationView>,
    current: u32,
    replies: Seq<Reply>,
)
    requires
        current >= latest_version(registry),
        replies.len() == 2,
        !(replies[0] is Failed),
        version_of(replies[1]) == current,
    ensures
        pending(registry, current) == Seq::<MigrationView>::empty(),
        migration_script(registry)(replies) == Next::<Result<(), FailureModel>>::Return(Ok(())),
{
    lemma_latest_version(registry);
    lemma_pending(registry, current);
    let todo = pending(registry, current);
    if todo.len() > 0 {
        let j = choose|j: int| 0 <= j < registry.len() && registry[j] == todo[0];
        assert(registry[j].version > current);
    }
    assert(todo =~= Seq::<MigrationView>::empty());
}

/// A run that ends well has asked for the table and for the version, and
/// then, for each pending migration in the order of the registry, first for
/// its statements and then for its record, and for nothing else; and none of
/// these steps was refused. So no migration is recorded before its statements
/// have run, and none whose statements were refused.
pub proof fn lemma_run_that_ends_well(
    registry: Seq<MigrationView>,
    before: Seq<Exchange>,
    after: Seq<Exchange>,
)
    requires
        follows(migration_script(registry), before, after, Ok::<(), FailureModel>(())),
    ensures
        ({
            let replies = replies_since(before, after);
            let todo = pending(registry, version_of(replies[1]));
            let start = before.len() as int;
            &&& replies.len() == 2 + 2 * todo.len()
            &&& after[start].request == setup_request()
            &&& after[start + 1].request == version_request()
            &&& forall|k: int|
                0 <= k < todo.len() ==> {
                    &&& (#[trigger] after[start + 2 + 2 * k]).request == batch_request(
                        todo[k],
                    )
                    &&& after[start + 3 + 2 * k].request == record_request(todo[k])
                }
            &&& forall|j: int| 2 <= j < replies.len() ==> !(#[trigger] replies[j] is Failed)
            &&& !(replies[0] is Failed)
        }),
{
    let script = migration_script(registry);
    let start = before.len() as int;
    let replies = replies_since(before, after);
    assert(replies.take(replies.len() as int) =~= replies);
    assert(replies.len() >= 2) by {
        if replies.len() == 1 {
            assert(script(replies.take(0)) == Next::<Result<(), FailureModel>>::Ask(
                after[start].request,
            ));
        }
    }
    let todo = pending(registry, version_of(replies[1]));
    assert(script(replies.take(0)) == Next::<Result<(), FailureModel>>::Ask(
        after[start].request,
    ));
    assert(script(replies.take(1)) == Next::<Result<(), FailureModel>>::Ask(
        after[start + 1].request,
    ));
    assert(replies.take(1)[0] == replies[0]);
    assert forall|i: int| 2 <= i < replies.len() implies {
        &&& (#[trigger] replies.take(i)).len() == i
        &&& i - 2 < 2 * todo.len()
        &&& (i > 2 ==> !(replies[i - 1] is Failed))
        &&& ((i - 2) % 2 == 0 ==> after[start + i].request == batch_request(
            todo[(i - 2) / 2],
        ))
        &&& ((i - 2) % 2 == 1 ==> after[start + i].request == record_request(
            todo[(i - 2) / 2],
        ))
    } by {
        let so_far = replies.take(i);
        assert(script(so_far) == Next::<Result<(), FailureModel>>::Ask(
            after[start + i].request,
        ));
        assert(so_far[0] == replies[0]);
        assert(so_far[1] == replies[1]);
        assert(so_far.last() == replies[i - 1]);
    }
    assert(replies.len() == 2 + 2 * todo.len()) by {
        if replies.len() > 2 {
            let i = replies.len() - 1;
            assert(replies.take(i).len() == i);
            assert(i - 2 < 2 * todo.len());
        }
    }
    assert forall|k: int| 0 <= k < todo.len() implies {
        &&& (#[trigger] after[start + 2 + 2 * k]).request == batch_request(todo[k])
        &&& after[start + 3 + 2 * k].request == record_request(todo[k])
    } by {
        let i = 2 + 2 * k;
        assert((i - 2) % 2 == 0 && (i - 2) / 2 == k);
        assert(((i + 1) - 2) % 2 == 1 && ((i + 1) - 2) / 2 == k);
        assert(2 <= i < replies.len());
        assert(2 <= i + 1 < replies.len());
        assert(replies.take(i).len() == i);
        assert(replies.take(i + 1).len() == i + 1);
    }
    assert forall|j: int| 2 <= j < replies.len() implies !(#[trigger] replies[j] is Failed) by {
        if j + 1 < replies.len() {
            let i = j + 1;
            assert(2 <= i < replies.len());
            assert(replies.take(i).len() == i);
            assert(i > 2 ==> !(replies[i - 1] is Failed));
        }
    }
}

/// The migrations of this library and the run that applies them.
pub struct MigrationRunner {
    migrations: Vec<Migration>,
}

impl MigrationRunner {
    #[verifier::type_invariant]
    spec fn in_order(self) -> bool {
        ascending(self.migrations.deep_view())
    }

    /// The migrations that this runner holds, in order.
    pub closed spec fn registry(&self) -> Seq<MigrationView> {
        self.migrations.deep_view()
    }

    /// Makes a runner with the migrations of this library.
    pub fn new() -> (runner: Self)
        ensures
            runner.registry() == initial_registry(),
    {
        let mut runner = Self { migrations: Vec::new() };
        runner.add_initial_migrations();
        runner
    }

    /// Puts the migrations of this library into an empty runner.
    fn add_initial_migrations(&mut self)
        requires
            old(self).registry().len() == 0,
        ensures
            final(self).registry() == initial_registry(),
    {
        let mut list: Vec<Migration> = Vec::new();
        list.push(
            Migration {
                version: 1,
                name: "initial_schema".to_owned(),
                up_sql: INITIAL_SCHEMA_SQL.to_owned(),
            },
        );
        list.push(
            Migration {
                version: 2,
                name: "add_user_preferences".to_owned(),
                up_sql: USER_PREFERENCES_SQL.to_owned(),
            },
        );
        assert(list.deep_view() =~= initial_registry());
        self.migrations = list;
    }

    /// The migrations of this runner, in order. Their versions ascend.
    pub fn migrations(&self) -> (list: &Vec<Migration>)
        ensures
            list.deep_view() == self.registry(),
            ascending(self.registry()),
    {
        proof {
            use_type_invariant(self);
        }
        &self.migrations
    }

    /// Makes the table of applied migrations where the store has none.
    pub fn setup_migration_table(&self, session: &mut Session<'_>) -> (outcome: Result<(), Failure>)
        ensures
            asked_once(setup_request(), old(session).journal(), final(session).journal()),
            outcome is Err <==> final(session).journal().last().reply is Failed,
            outcome matches Err(failure) ==> final(session).journal().last().reply == Reply::Failed(
                failure.deep_view(),
            ),
    {
        let none: Vec<i64> = Vec::new();
        let params = Params::Integers(none);
        let ghost before = session.journal();
        let outcome = session.execute(MIGRATION_TABLE_SQL, &params);
        proof {
            assert(params.deep_view() == ParamsView::Integers(Seq::<i64>::empty()));
            assert(session.journal().drop_last() =~= before);
        }
        match outcome {
            Ok(_) => Ok(()),
            Err(failure) => Err(failure),
        }
    }

    /// Reads the highest version that the store has recorded: 0 where it has
    /// recorded none, and 0 as well where it cannot tell.
    pub fn get_current_version(&self, session: &mut Session<'_>) -> (outcome: Result<u32, Failure>)
        ensures
            asked_once(version_request(), old(session).journal(), final(session).journal()),
            outcome matches Ok(version) && version == version_of(
                final(session).journal().last().reply,
            ),
    {
        let none: Vec<i64> = Vec::new();
        let params = Params::Integers(none);
        let ghost before = session.journal();
        let outcome = session.query(CURRENT_VERSION_SQL, &params, 1, 1);
        proof {
            assert(params.deep_view() == ParamsView::Integers(Seq::<i64>::empty()));
            assert(session.journal().drop_last() =~= before);
        }
        match outcome {
            Ok(rows) => {
                if rows.len() > 0 {
                    assert(rows.deep_view()[0] == rows[0].deep_view());
                    assert(rows[0].deep_view()[0] == rows[0][0].deep_view());
                    match &rows[0][0] {
                        SqlValue::Integer(version) => {
                            if 0 <= *version && *version <= u32::MAX as i64 {
                                Ok(*version as u32)
                            } else {
                                Ok(0)
                            }
                        },
                        _ => Ok(0),
                    }
                } else {
                    Ok(0)
                }
            },
            Err(_) => Ok(0),
        }
    }

    /// Brings the store up to the latest migration.
    pub fn run_migrations(&self, session: &mut Session<'_>) -> (outcome: Result<(), Failure>)
        ensures
            follows(
                migration_script(self.registry()),
                old(session).journal(),
                final(session).journal(),
                settled(outcome),
            ),
    {
        let ghost before = session.journal();
        let ghost script = migration_script(self.registry());
        let ghost registry = self.registry();
        proof {
            lemma_script_start(script, before);
        }
        let ghost earlier = session.journal();
        match self.setup_migration_table(session) {
            Err(failure) => {
                proof {
                    assert(session.journal() =~= earlier.push(session.journal().last()));
                    lemma_script_step(script, before, earlier, session.journal().last());
                }
                return Err(failure);
            },
            Ok(_) => {},
        }
        proof {
            assert(session.journal() =~= earlier.push(session.journal().last()));
            lemma_script_step(script, before, earlier, session.journal().last());
        }
        let ghost earlier = session.journal();
        let current: u32 = match self.get_current_version(session) {
            Ok(version) => version,
            Err(failure) => {
                return Err(failure);
            },
        };
        proof {
            assert(session.journal() =~= earlier.push(session.journal().last()));
            lemma_script_step(script, before, earlier, session.journal().last());
        }
        let mut i: usize = 0;
        while i < self.migrations.len()
            invariant
                i <= self.migrations.len(),
                before == old(session).journal(),
                registry == self.registry(),
                registry == self.migrations.deep_view(),
                script == migration_script(registry),
                keeps_to(script, before, session.journal()),
                replies_since(before, session.journal()).len() == 2 + 2 * pending(
                    registry.take(i as int),
                    current,
                ).len(),
                !(replies_since(before, session.journal())[0] is Failed),
                version_of(replies_since(before, session.journal())[1]) == current,
                replies_since(before, session.journal()).len() > 2 ==> !(replies_since(
                    before,
                    session.journal(),
                ).last() is Failed),
            decreases self.migrations.len() - i,
        {
            let migration = &self.migrations[i];
            proof {
                lemma_pending_prefix(registry, current, i as int);
                lemma_pending_prefix(registry, current, i + 1);
                assert(registry.take(i + 1).drop_last() =~= registry.take(i as int));
                assert(registry[i as int] == migration.deep_view());
            }
            if migration.version > current {
                let ghost done = pending(registry.take(i as int), current);
                let ghost todo = pending(registry, current);
                assert(todo[done.len() as int] == migration.deep_view()) by {
                    let longer = pending(registry.take(i + 1), current);
                    assert(longer == done.push(migration.deep_view()));
                    let place = done.len() as int;
                    assert(longer[place] == todo.take(longer.len() as int)[place]);
                }
                let ghost earlier = session.journal();
                let ghost replies = replies_since(before, earlier);
                assert(script(replies) == Next::<Result<(), FailureModel>>::Ask(
                    batch_request(migration.deep_view()),
                )) by {
                    assert((replies.len() - 2) / 2 == done.len());
                    assert((replies.len() - 2) % 2 == 0);
                }
                let ran = session.execute_batch(migration.up_sql.as_str());
                proof {
                    lemma_script_step(script, before, earlier, session.journal().last());
                }
                match ran {
                    Err(failure) => {
                        proof {
                            let now = replies_since(before, session.journal());
                            assert(now[0] == replies[0]);
                            assert(now[1] == replies[1]);
                            assert(now.last() == Reply::Failed(failure.deep_view()));
                        }
                        return Err(failure);
                    },
                    Ok(_) => {},
                }
                let params = Params::Texts(
                    vec![decimal_text(migration.version as i64), migration.name.clone()],
                );
                proof {
                    assert(params.deep_view() == ParamsView::Texts(
                        seq![signed_decimal(migration.version as int), migration.name@],
                    )) by {
                        let texts = params->Texts_0;
                        assert(texts.deep_view() =~= seq![
                            signed_decimal(migration.version as int),
                            migration.name@,
                        ]);
                    }
                }
                let ghost earlier = session.journal();
                let ghost replies = replies_since(before, earlier);
                assert(script(replies) == Next::<Result<(), FailureModel>>::Ask(
                    record_request(migration.deep_view()),
                )) by {
                    assert((replies.len() - 2) / 2 == done.len());
                    assert((replies.len() - 2) % 2 == 1);
                }
                let recorded = session.execute(RECORD_MIGRATION_SQL, &params);
                proof {
                    lemma_script_step(script, before, earlier, session.journal().last());
                }
                match recorded {
                    Err(failure) => {
                        proof {
                            let now = replies_since(before, session.journal());
                            assert(now[0] == replies[0]);
                            assert(now[1] == replies[1]);
                            assert(now.last() == Reply::Failed(failure.deep_view()));
                        }
                        return Err(failure);
                    },
                    Ok(_) => {},
                }
            }
            i += 1;
        }
        proof {
            assert(registry.take(i as int) =~= registry);
        }
        Ok(())
    }
}

} // verus!
