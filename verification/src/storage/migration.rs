//! The steps that bring a database to the current schema.
use crate::text;
use crate::text::{decimal_text, join4};
use vstd::prelude::*;

verus! {

/// The current schema version.
pub const SCHEMA_VERSION: u32 = 18;

pub const CREATE_BASE_TABLES: &'static str = "
CREATE TABLE IF NOT EXISTS scopes (
    hash        BLOB PRIMARY KEY,   -- 32-byte blake3
    parent      BLOB,               -- nullable FK → scopes.hash
    delta_json  TEXT,                -- JSON-encoded EnvDelta (NULL for root)
    snap_json   TEXT                 -- JSON-encoded EnvSnapshot
);

CREATE TABLE IF NOT EXISTS scope_head (
    id   INTEGER PRIMARY KEY CHECK (id = 0),
    hash BLOB NOT NULL
);

CREATE TABLE IF NOT EXISTS crons (
    id          TEXT PRIMARY KEY,    -- e.g. 'C1'
    schedule    TEXT NOT NULL,
    command     TEXT NOT NULL,
    enabled     INTEGER NOT NULL DEFAULT 1,
    scope_hash  BLOB,
    cwd_override TEXT,
    scope_enabled INTEGER NOT NULL DEFAULT 0,
    wrapper_enabled INTEGER NOT NULL DEFAULT 0,
    created_at  TEXT NOT NULL DEFAULT (datetime('now')),
    created_at_ms INTEGER
);

CREATE TABLE IF NOT EXISTS jobs_history (
    id          TEXT PRIMARY KEY,    -- e.g. 'J1'
    pipeline    TEXT NOT NULL,
    status      TEXT NOT NULL,
    exit_code   INTEGER,
    scope_hash  BLOB,
    start_scope BLOB,
    end_scope   BLOB,
    created_at  TEXT NOT NULL DEFAULT (datetime('now')),
    finished_at TEXT
);

CREATE TABLE IF NOT EXISTS config_cache (
    key   TEXT PRIMARY KEY,
    value TEXT NOT NULL
);
";

pub const ADD_CRON_SCOPE: &'static str = "
ALTER TABLE crons ADD COLUMN scope_hash BLOB;
";

pub const FILL_JOB_SCOPES: &'static str = "
UPDATE jobs_history
SET start_scope = COALESCE(start_scope, scope_hash),
    end_scope = COALESCE(end_scope, scope_hash)
WHERE start_scope IS NULL OR end_scope IS NULL;
";

pub const FILL_CRON_STATUS: &'static str = "UPDATE crons
             SET status = CASE WHEN enabled != 0 THEN 'scheduled' ELSE 'paused' END
             WHERE status IS NULL OR status = '';";

pub const CREATE_SCRIPT_TABLES: &'static str = "
CREATE TABLE IF NOT EXISTS script_runs (
    id            TEXT PRIMARY KEY,
    mode          TEXT NOT NULL,
    input         TEXT NOT NULL,
    status        TEXT NOT NULL,
    item_count    INTEGER NOT NULL,
    error_code    TEXT,
    error_message TEXT,
    created_at    TEXT NOT NULL DEFAULT (datetime('now'))
);

CREATE TABLE IF NOT EXISTS script_items (
    script_id     TEXT NOT NULL REFERENCES script_runs(id) ON DELETE CASCADE,
    item_index    INTEGER NOT NULL,
    source_text   TEXT NOT NULL,
    kind          TEXT NOT NULL,
    target_id     TEXT,
    chain_id      TEXT,
    job_ids_json  TEXT NOT NULL DEFAULT '[]',
    PRIMARY KEY (script_id, item_index)
);
";

pub const ADD_CRON_CWD: &'static str = "
ALTER TABLE crons ADD COLUMN cwd_override TEXT;
";

pub const ADD_CRON_SCOPE_ENABLED: &'static str = "
ALTER TABLE crons ADD COLUMN scope_enabled INTEGER NOT NULL DEFAULT 0;
";

pub const ADD_CRON_WRAPPER_ENABLED: &'static str = "
ALTER TABLE crons ADD COLUMN wrapper_enabled INTEGER NOT NULL DEFAULT 0;
";

/// The time now, in milliseconds, as the database computes it.
pub const CRON_CREATED_AT_MS_EXPR: &'static str =
    "CAST((julianday('now') - 2440587.5) * 86400000 AS INTEGER)";

pub const FILL_CRON_CREATION: &'static str = "UPDATE crons
             SET created_at_ms = CAST((julianday('now') - 2440587.5) * 86400000 AS INTEGER)
             WHERE created_at_ms IS NULL;";

pub const CREATE_SESSIONS: &'static str = "
CREATE TABLE IF NOT EXISTS sessions (
    id                  TEXT PRIMARY KEY,
    name                TEXT NOT NULL UNIQUE,
    scope_hash          BLOB REFERENCES scopes(hash),
    pty_default         INTEGER,
    wrapper_enabled     INTEGER,
    created_at_ms       INTEGER NOT NULL,
    updated_at_ms       INTEGER NOT NULL
);
";

pub const ADD_JOB_SESSION: &'static str = "ALTER TABLE jobs_history
                 ADD COLUMN session_id TEXT REFERENCES sessions(id);";

pub const ADD_CRON_SESSION: &'static str = "ALTER TABLE crons
                 ADD COLUMN session_id TEXT REFERENCES sessions(id);";

/// One step of a migration. `context` says what failed if the step does.
#[derive(Clone, Copy, Debug)]
pub enum MigrationStep {
    /// Run statements.
    Run { sql: &'static str, context: &'static str },
    /// Run a statement that adds a column, unless the table has it.
    AddColumn {
        table: &'static str,
        column: &'static str,
        sql: &'static str,
        context: &'static str,
    },
    /// Remove the stored scopes that hold credentials, and what refers to them.
    PurgeSensitiveScopes { context: &'static str },
    /// Record that the schema has reached a version.
    SetVersion { version: u32 },
}

pub open spec fn run(sql: &'static str, context: &'static str) -> MigrationStep {
    MigrationStep::Run { sql, context }
}

pub open spec fn add_column(
    table: &'static str,
    column: &'static str,
    sql: &'static str,
    context: &'static str,
) -> MigrationStep {
    MigrationStep::AddColumn { table, column, sql, context }
}

/// The steps that lead from the version before to `version`, without the record of it.
pub open spec fn changes_of(version: u32) -> Seq<MigrationStep> {
    if version == 1 {
        seq![run(CREATE_BASE_TABLES, "failed to run schema migration v1")]
    } else if version == 2 {
        seq![
            add_column(
                "crons",
                "scope_hash",
                ADD_CRON_SCOPE,
                "failed to run schema migration v2",
            ),
        ]
    } else if version == 3 {
        seq![
            add_column(
                "jobs_history",
                "start_scope",
                "ALTER TABLE jobs_history ADD COLUMN start_scope BLOB;",
                "failed to add jobs_history.start_scope",
            ),
            add_column(
                "jobs_history",
                "end_scope",
                "ALTER TABLE jobs_history ADD COLUMN end_scope BLOB;",
                "failed to add jobs_history.end_scope",
            ),
            run(FILL_JOB_SCOPES, "failed to backfill jobs_history start/end scope"),
        ]
    } else if version == 6 {
        seq![
            add_column(
                "crons",
                "status",
                "ALTER TABLE crons ADD COLUMN status TEXT;",
                "failed to add crons.status",
            ),
            run(FILL_CRON_STATUS, "failed to backfill crons.status"),
        ]
    } else if version == 7 {
        seq![
            add_column(
                "jobs_history",
                "chain_id",
                "ALTER TABLE jobs_history ADD COLUMN chain_id TEXT;",
                "failed to add jobs_history.chain_id",
            ),
        ]
    } else if version == 8 {
        seq![
            add_column(
                "jobs_history",
                "stderr",
                "ALTER TABLE jobs_history ADD COLUMN stderr TEXT NOT NULL DEFAULT '';",
                "failed to add jobs_history.stderr",
            ),
        ]
    } else if version == 9 {
        seq![run(CREATE_SCRIPT_TABLES, "failed to run schema migration v9")]
    } else if version == 10 {
        seq![
            add_column(
                "crons",
                "cwd_override",
                ADD_CRON_CWD,
                "failed to run schema migration v10",
            ),
        ]
    } else if version == 11 {
        seq![
            add_column(
                "crons",
                "scope_enabled",
                ADD_CRON_SCOPE_ENABLED,
                "failed to run schema migration v11",
            ),
        ]
    } else if version == 12 {
        seq![
            add_column(
                "crons",
                "wrapper_enabled",
                ADD_CRON_WRAPPER_ENABLED,
                "failed to run schema migration v12",
            ),
        ]
    } else if version == 13 {
        seq![
            add_column(
                "script_runs",
                "exit_code",
                "ALTER TABLE script_runs ADD COLUMN exit_code INTEGER;",
                "failed to add script_runs.exit_code",
            ),
            add_column(
                "script_runs",
                "failed_item_index",
                "ALTER TABLE script_runs ADD COLUMN failed_item_index INTEGER;",
                "failed to add script_runs.failed_item_index",
            ),
            add_column(
                "script_runs",
                "finished_at",
                "ALTER TABLE script_runs ADD COLUMN finished_at TEXT;",
                "failed to add script_runs.finished_at",
            ),
        ]
    } else if version == 14 {
        seq![
            add_column(
                "crons",
                "created_at_ms",
                "ALTER TABLE crons ADD COLUMN created_at_ms INTEGER;",
                "failed to add crons.created_at_ms",
            ),
            run(FILL_CRON_CREATION, "failed to initialize crons.created_at_ms"),
        ]
    } else if version == 15 {
        seq![
            MigrationStep::PurgeSensitiveScopes {
                context: "failed to purge persisted sensitive environment scopes",
            },
        ]
    } else if version == 16 {
        seq![run(CREATE_SESSIONS, "failed to run schema migration v16")]
    } else if version == 17 {
        seq![
            add_column(
                "jobs_history",
                "session_id",
                ADD_JOB_SESSION,
                "failed to add jobs_history.session_id",
            ),
            add_column(
                "crons",
                "session_id",
                ADD_CRON_SESSION,
                "failed to add crons.session_id",
            ),
        ]
    } else if version == 18 {
        seq![
            add_column(
                "sessions",
                "archived_at_ms",
                "ALTER TABLE sessions ADD COLUMN archived_at_ms INTEGER;",
                "failed to add sessions.archived_at_ms",
            ),
        ]
    } else {
        Seq::empty()
    }
}

/// The steps that lead from the version before to `version`.
pub open spec fn steps_to(version: u32) -> Seq<MigrationStep> {
    changes_of(version).push(MigrationStep::SetVersion { version })
}

/// The steps that lead from one version to a later one.
pub open spec fn steps_between(from: int, to: int) -> Seq<MigrationStep>
    decreases to - from,
{
    if from >= to {
        Seq::empty()
    } else {
        steps_between(from, to - 1) + steps_to(to as u32)
    }
}

fn add_step(
    steps: &mut Vec<MigrationStep>,
    table: &'static str,
    column: &'static str,
    sql: &'static str,
    context: &'static str,
)
    ensures
        final(steps)@ == old(steps)@.push(add_column(table, column, sql, context)),
{
    steps.push(MigrationStep::AddColumn { table, column, sql, context });
}

fn run_step(steps: &mut Vec<MigrationStep>, sql: &'static str, context: &'static str)
    ensures
        final(steps)@ == old(steps)@.push(run(sql, context)),
{
    steps.push(MigrationStep::Run { sql, context });
}

/// The steps that lead from the version before to `version`.
pub fn migration_steps(version: u32) -> (steps: Vec<MigrationStep>)
    ensures
        steps@ == steps_to(version),
{
    let mut steps: Vec<MigrationStep> = Vec::new();
    if version == 1 {
        run_step(&mut steps, CREATE_BASE_TABLES, "failed to run schema migration v1");
    } else if version == 2 {
        add_step(
            &mut steps,
            "crons",
            "scope_hash",
            ADD_CRON_SCOPE,
            "failed to run schema migration v2",
        );
    } else if version == 3 {
        add_step(
            &mut steps,
            "jobs_history",
            "start_scope",
            "ALTER TABLE jobs_history ADD COLUMN start_scope BLOB;",
            "failed to add jobs_history.start_scope",
        );
        add_step(
            &mut steps,
            "jobs_history",
            "end_scope",
            "ALTER TABLE jobs_history ADD COLUMN end_scope BLOB;",
            "failed to add jobs_history.end_scope",
        );
        run_step(&mut steps, FILL_JOB_SCOPES, "failed to backfill jobs_history start/end scope");
    } else if version == 6 {
        add_step(
            &mut steps,
            "crons",
            "status",
            "ALTER TABLE crons ADD COLUMN status TEXT;",
            "failed to add crons.status",
        );
        run_step(&mut steps, FILL_CRON_STATUS, "failed to backfill crons.status");
    } else if version == 7 {
        add_step(
            &mut steps,
            "jobs_history",
            "chain_id",
            "ALTER TABLE jobs_history ADD COLUMN chain_id TEXT;",
            "failed to add jobs_history.chain_id",
        );
    } else if version == 8 {
        add_step(
            &mut steps,
            "jobs_history",
            "stderr",
            "ALTER TABLE jobs_history ADD COLUMN stderr TEXT NOT NULL DEFAULT '';",
            "failed to add jobs_history.stderr",
        );
    } else if version == 9 {
        run_step(&mut steps, CREATE_SCRIPT_TABLES, "failed to run schema migration v9");
    } else if version == 10 {
        add_step(
            &mut steps,
            "crons",
            "cwd_override",
            ADD_CRON_CWD,
            "failed to run schema migration v10",
        );
    } else if version == 11 {
        add_step(
            &mut steps,
            "crons",
            "scope_enabled",
            ADD_CRON_SCOPE_ENABLED,
            "failed to run schema migration v11",
        );
    } else if version == 12 {
        add_step(
            &mut steps,
            "crons",
            "wrapper_enabled",
            ADD_CRON_WRAPPER_ENABLED,
            "failed to run schema migration v12",
        );
    } else if version == 13 {
        add_step(
            &mut steps,
            "script_runs",
            "exit_code",
            "ALTER TABLE script_runs ADD COLUMN exit_code INTEGER;",
            "failed to add script_runs.exit_code",
        );
        add_step(
            &mut steps,
            "script_runs",
            "failed_item_index",
            "ALTER TABLE script_runs ADD COLUMN failed_item_index INTEGER;",
            "failed to add script_runs.failed_item_index",
        );
        add_step(
            &mut steps,
            "script_runs",
            "finished_at",
            "ALTER TABLE script_runs ADD COLUMN finished_at TEXT;",
            "failed to add script_runs.finished_at",
        );
    } else if version == 14 {
        add_step(
            &mut steps,
            "crons",
            "created_at_ms",
            "ALTER TABLE crons ADD COLUMN created_at_ms INTEGER;",
            "failed to add crons.created_at_ms",
        );
        run_step(&mut steps, FILL_CRON_CREATION, "failed to initialize crons.created_at_ms");
    } else if version == 15 {
        steps.push(
            MigrationStep::PurgeSensitiveScopes {
                context: "failed to purge persisted sensitive environment scopes",
            },
        );
    } else if version == 16 {
        run_step(&mut steps, CREATE_SESSIONS, "failed to run schema migration v16");
    } else if version == 17 {
        add_step(
            &mut steps,
            "jobs_history",
            "session_id",
            ADD_JOB_SESSION,
            "failed to add jobs_history.session_id",
        );
        add_step(
            &mut steps,
            "crons",
            "session_id",
            ADD_CRON_SESSION,
            "failed to add crons.session_id",
        );
    } else if version == 18 {
        add_step(
            &mut steps,
            "sessions",
            "archived_at_ms",
            "ALTER TABLE sessions ADD COLUMN archived_at_ms INTEGER;",
            "failed to add sessions.archived_at_ms",
        );
    }
    assert(steps@ =~= changes_of(version));
    steps.push(MigrationStep::SetVersion { version });
    steps
}

/// Why a database cannot be opened.
pub open spec fn newer_schema(current: u32) -> Seq<char> {
    "database schema version "@ + text::decimal(current as nat) + " is newer than supported version "@
        + text::decimal(SCHEMA_VERSION as nat)
}

/// The steps that bring a database from version `current` to the current schema. A newer database
/// is refused.
pub fn migrate(current: u32) -> (result: Result<Vec<MigrationStep>, String>)
    ensures
        match result {
            Ok(steps) => current <= SCHEMA_VERSION && steps@ == steps_between(
                current as int,
                SCHEMA_VERSION as int,
            ),
            Err(message) => current > SCHEMA_VERSION && message@ == newer_schema(current),
        },
{
    if current > SCHEMA_VERSION {
        let found = decimal_text(current as u64);
        let supported = decimal_text(SCHEMA_VERSION as u64);
        return Err(
            join4(
                "database schema version ",
                found.as_str(),
                " is newer than supported version ",
                supported.as_str(),
            ),
        );
    }
    let mut steps: Vec<MigrationStep> = Vec::new();
    let mut version: u32 = current;
    while version < SCHEMA_VERSION
        invariant
            current <= version <= SCHEMA_VERSION,
            steps@ == steps_between(current as int, version as int),
        decreases SCHEMA_VERSION - version,
    {
        version = version + 1;
        let mut more = migration_steps(version);
        steps.append(&mut more);
    }
    Ok(steps)
}

/// A statement to run, and what failed if it does.
#[derive(Clone, Copy, Debug)]
pub struct Statement {
    pub sql: &'static str,
    pub context: &'static str,
}

/// What a step runs, when `column_exists` says whether the column that it would add is there.
pub fn step_statement(step: &MigrationStep, column_exists: bool) -> (statement: Option<Statement>)
    ensures
        statement == match *step {
            MigrationStep::Run { sql, context } => Some(Statement { sql, context }),
            MigrationStep::AddColumn { sql, context, .. } => if column_exists {
                None
            } else {
                Some(Statement { sql, context })
            },
            _ => None,
        },
{
    match step {
        MigrationStep::Run { sql, context } => Some(Statement { sql: *sql, context: *context }),
        MigrationStep::AddColumn { sql, context, .. } => if column_exists {
            None
        } else {
            Some(Statement { sql: *sql, context: *context })
        },
        MigrationStep::PurgeSensitiveScopes { .. } => None,
        MigrationStep::SetVersion { .. } => None,
    }
}

/// The version on record once some steps have been taken on a database of version `current`.
pub open spec fn recorded_version(current: int, steps: Seq<MigrationStep>) -> int
    decreases steps.len(),
{
    if steps.len() == 0 {
        current
    } else {
        match steps.last() {
            MigrationStep::SetVersion { version } => version as int,
            _ => recorded_version(current, steps.drop_last()),
        }
    }
}

/// A migration leaves a database at the current schema, and one at the current schema needs no
/// steps.
pub proof fn migration_is_idempotent(current: u32)
    requires
        current <= SCHEMA_VERSION,
    ensures
        recorded_version(
            current as int,
            steps_between(current as int, SCHEMA_VERSION as int),
        ) == SCHEMA_VERSION,
        steps_between(SCHEMA_VERSION as int, SCHEMA_VERSION as int) == Seq::<
            MigrationStep,
        >::empty(),
{
    lemma_recorded_at_end(current as int, SCHEMA_VERSION as int);
}

proof fn lemma_recorded_at_end(from: int, to: int)
    requires
        0 <= from <= to <= u32::MAX,
    ensures
        recorded_version(from, steps_between(from, to)) == to,
{
    if from < to {
        assert(steps_between(from, to).last() == steps_to(to as u32).last());
    }
}

/// A migration that stops after it has recorded a version goes on from there: what is left to do
/// is what a migration from that version does.
pub proof fn stopped_migration_goes_on(from: int, at: int, to: int)
    requires
        from <= at <= to,
    ensures
        steps_between(from, to) == steps_between(from, at) + steps_between(at, to),
    decreases to - at,
{
    if at < to {
        stopped_migration_goes_on(from, at, to - 1);
    }
    assert(steps_between(from, to) =~= steps_between(from, at) + steps_between(at, to));
}

/// A version is recorded as the last step that leads to it, so a step that fails leaves the last
/// version that was reached.
pub proof fn version_is_recorded_last(version: u32)
    ensures
        steps_to(version).last() == (MigrationStep::SetVersion { version }),
        forall|i: int|
            0 <= i < steps_to(version).len() - 1 ==> !(
            #[trigger] steps_to(version)[i] is SetVersion),
{
    assert forall|i: int| 0 <= i < changes_of(version).len() implies !(
    #[trigger] changes_of(version)[i] is SetVersion) by {}
}

proof fn lemma_changes_record_nothing(from: int, steps: Seq<MigrationStep>, version: u32, k: int)
    requires
        0 <= k <= changes_of(version).len(),
    ensures
        recorded_version(from, steps + changes_of(version).take(k)) == recorded_version(
            from,
            steps,
        ),
    decreases k,
{
    let taken = steps + changes_of(version).take(k);
    if k == 0 {
        assert(taken =~= steps);
    } else {
        version_is_recorded_last(version);
        assert(steps_to(version)[k - 1] == changes_of(version)[k - 1]);
        assert(taken.last() == changes_of(version)[k - 1]);
        assert(taken.drop_last() =~= steps + changes_of(version).take(k - 1));
        lemma_changes_record_nothing(from, steps, version, k - 1);
    }
}

/// A migration that is cut short after its first `k` steps leaves on record a version all of whose
/// steps have been taken, so none is left out when the migration goes on from there.
pub proof fn recorded_version_was_reached(from: int, to: int, k: int)
    requires
        0 <= from <= to <= u32::MAX,
        0 <= k <= steps_between(from, to).len(),
    ensures
        ({
            let reached = recorded_version(from, steps_between(from, to).take(k));
            &&& from <= reached <= to
            &&& steps_between(from, reached).is_prefix_of(steps_between(from, to).take(k))
            &&& steps_between(from, to) == steps_between(from, reached) + steps_between(
                reached,
                to,
            )
        }),
    decreases to - from,
{
    let all = steps_between(from, to);
    if from == to {
        assert(all.take(k) =~= all);
    } else {
        let earlier = steps_between(from, to - 1);
        let last = steps_to(to as u32);
        if k <= earlier.len() {
            recorded_version_was_reached(from, to - 1, k);
            assert(all.take(k) =~= earlier.take(k));
        } else if k == all.len() {
            assert(all.take(k) =~= all);
            lemma_recorded_at_end(from, to);
        } else {
            let some = changes_of(to as u32).take(k - earlier.len());
            assert(all.take(k) =~= earlier + some);
            lemma_changes_record_nothing(from, earlier, to as u32, k - earlier.len());
            lemma_recorded_at_end(from, to - 1);
        }
    }
    let reached = recorded_version(from, all.take(k));
    stopped_migration_goes_on(from, reached, to);
}

/// A migration goes version by version: it takes the steps to the next version and then those of a
/// migration from there. One from the current version takes none, and a newer database is refused.
pub proof fn migration_goes_version_by_version(
    current: u32,
    next: u32,
    result: Result<Vec<MigrationStep>, String>,
    first: Vec<MigrationStep>,
    rest: Result<Vec<MigrationStep>, String>,
)
    requires
        call_ensures(migrate, (current,), result),
        current < 18 ==> next == current + 1,
        call_ensures(migration_steps, (next,), first),
        call_ensures(migrate, (next,), rest),
    ensures
        result is Ok <==> current <= 18,
        current == 18 ==> (result matches Ok(steps) && steps@.len() == 0),
        current < 18 ==> (result matches Ok(steps) && rest matches Ok(more) && steps@ == first@
            + more@),
{
    if current < 18 {
        stopped_migration_goes_on(current as int, next as int, 18);
        assert(steps_between(current as int, current as int) =~= Seq::<MigrationStep>::empty());
        assert(steps_between(current as int, next as int) =~= first@);
    }
}

/// The step at a place adds a column of a table.
pub open spec fn adds_at(
    steps: Seq<MigrationStep>,
    at: int,
    table: Seq<char>,
    column: Seq<char>,
) -> bool {
    steps[at] matches MigrationStep::AddColumn { table: t, column: c, .. } && t@ == table && c@
        == column
}

/// Every version brings its columns and tables, fills new columns after it added them, and is recorded
/// when everything else of it is done, and only then. Credentials are purged on the way to one version.
pub proof fn every_version_brings_its_changes(version: u32, steps: Vec<MigrationStep>, i: int)
    requires
        call_ensures(migration_steps, (version,), steps),
    ensures
        steps@.len() >= 1,
        steps@.last() == (MigrationStep::SetVersion { version }),
        0 <= i < steps@.len() - 1 ==> !(steps@[i] is SetVersion),
        0 <= i < steps@.len() ==> (steps@[i] is PurgeSensitiveScopes <==> version == 15 && i == 0),
        version == 1 || version == 9 || version == 16 ==> steps@.len() == 2 && steps@[0] is Run,
        version == 2 ==> steps@.len() == 2 && adds_at(steps@, 0, "crons"@, "scope_hash"@),
        version == 3 ==> steps@.len() == 4 && adds_at(
            steps@,
            0,
            "jobs_history"@,
            "start_scope"@,
        ) && adds_at(steps@, 1, "jobs_history"@, "end_scope"@) && steps@[2] is Run,
        version == 4 || version == 5 || version > 18 || version == 0 ==> steps@.len() == 1,
        version == 6 ==> steps@.len() == 3 && adds_at(steps@, 0, "crons"@, "status"@)
            && steps@[1] is Run,
        version == 7 ==> steps@.len() == 2 && adds_at(steps@, 0, "jobs_history"@, "chain_id"@),
        version == 8 ==> steps@.len() == 2 && adds_at(steps@, 0, "jobs_history"@, "stderr"@),
        version == 10 ==> steps@.len() == 2 && adds_at(steps@, 0, "crons"@, "cwd_override"@),
        version == 11 ==> steps@.len() == 2 && adds_at(steps@, 0, "crons"@, "scope_enabled"@),
        version == 12 ==> steps@.len() == 2 && adds_at(steps@, 0, "crons"@, "wrapper_enabled"@),
        version == 13 ==> steps@.len() == 4 && adds_at(steps@, 0, "script_runs"@, "exit_code"@)
            && adds_at(steps@, 1, "script_runs"@, "failed_item_index"@) && adds_at(
            steps@,
            2,
            "script_runs"@,
            "finished_at"@,
        ),
        version == 14 ==> steps@.len() == 3 && adds_at(steps@, 0, "crons"@, "created_at_ms"@)
            && steps@[1] is Run,
        version == 15 ==> steps@.len() == 2,
        version == 17 ==> steps@.len() == 3 && adds_at(
            steps@,
            0,
            "jobs_history"@,
            "session_id"@,
        ) && adds_at(steps@, 1, "crons"@, "session_id"@),
        version == 18 ==> steps@.len() == 2 && adds_at(
            steps@,
            0,
            "sessions"@,
            "archived_at_ms"@,
        ),
{
    version_is_recorded_last(version);
}

/// A column is added only where it is not there. Statements that add none are run in any case.
pub proof fn columns_are_added_once(
    step: &MigrationStep,
    there: Option<Statement>,
    missing: Option<Statement>,
)
    requires
        call_ensures(step_statement, (step, true), there),
        call_ensures(step_statement, (step, false), missing),
    ensures
        step is AddColumn ==> there is None,
        !(step is AddColumn) ==> there == missing,
        missing is Some <==> step is AddColumn || step is Run,
        *step matches MigrationStep::AddColumn { sql, context, .. } ==> missing == Some(
            Statement { sql, context },
        ),
        *step matches MigrationStep::Run { sql, context } ==> missing == Some(
            Statement { sql, context },
        ),
{
}

} // verus!
