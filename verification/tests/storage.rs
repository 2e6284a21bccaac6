use anyhow::{Context, Error, Result};
use cue_daemon::digest::Digest;
use cue_daemon::ordered_map::OrderedMap;
use cue_daemon::storage::crons::{
    self, CronRecord, CronRow, CronStatus, CronUpsert, LoadedCron, StoredCron,
};
use cue_daemon::storage::jobs::{
    self, JobProgress, JobRecord, JobRow, JobStatus, StoredJob,
};
use cue_daemon::storage::migration::{
    self, step_statement, MigrationStep, Statement, CREATE_BASE_TABLES, CREATE_SESSIONS,
    CRON_CREATED_AT_MS_EXPR, SCHEMA_VERSION,
};
use cue_daemon::storage::pruning::{prune, HistoryEntry};
use cue_daemon::storage::scope_cleanup::{
    self, purged_hashes, CronScope, JobScopes, PersistedScopeMetadata, SensitiveScopePurgeReport,
};
use cue_daemon::storage::scopes::{
    self, blob_to_scope_hash, digest_bytes, optional_scope_hash,
    persisted_scope_has_sensitive_environment, scope_contains_sensitive_environment,
    scope_from_row_parts, EnvDelta, EnvSnapshot, Scope, ScopePersistence, StoredJson,
};
use cue_daemon::storage::scripts::{
    self, parse_script_run_status, ScriptRecord, ScriptStatement, StoredScriptItem,
    StoredScriptRun, StoredScriptRunStatus,
};
use cue_daemon::storage::sensitive_env::is_sensitive_env_name;
use cue_daemon::storage::sessions::{self, SessionRow, StoredSession};
use rusqlite::Connection;
use serde_json::Value;

// The database that the tests drive.

fn column_exists(conn: &Connection, table: &str, column: &str) -> Result<bool> {
    let mut stmt = conn.prepare(&format!("PRAGMA table_info({table})"))?;
    let names = stmt.query_map([], |row| row.get::<_, String>(1))?;
    for name in names {
        if name? == column {
            return Ok(true);
        }
    }
    Ok(false)
}

fn schema_version(conn: &Connection) -> u32 {
    conn.pragma_query_value(None, "user_version", |row| row.get(0))
        .expect("read schema version")
}

fn migrate(conn: &Connection) -> Result<()> {
    let current: u32 = conn.pragma_query_value(None, "user_version", |row| row.get(0))?;
    for step in migration::migrate(current).map_err(Error::msg)? {
        let exists = match step {
            MigrationStep::AddColumn { table, column, .. } => column_exists(conn, table, column)?,
            _ => false,
        };
        if let Some(statement) = step_statement(&step, exists) {
            conn.execute_batch(statement.sql).context(statement.context)?;
        }
        match step {
            MigrationStep::PurgeSensitiveScopes { context } => {
                purge_sensitive_scope_history(conn).context(context)?;
            }
            MigrationStep::SetVersion { version } => {
                conn.pragma_update(None, "user_version", version)?;
            }
            _ => {}
        }
    }
    Ok(())
}

fn in_memory_db() -> Connection {
    let conn = Connection::open_in_memory().expect("open in-memory db");
    conn.pragma_update(None, "foreign_keys", "ON").expect("enforce references");
    migrate(&conn).expect("migrate");
    conn
}

fn text_map(pairs: &OrderedMap<String>) -> Value {
    let mut map = serde_json::Map::new();
    for i in 0..pairs.len() {
        let (name, value) = pairs.entry(i);
        map.insert(name.clone(), Value::String(value.clone()));
    }
    Value::Object(map)
}

fn read_text_map(value: &Value) -> Option<OrderedMap<String>> {
    let mut map = OrderedMap::new();
    for (name, value) in value.as_object()? {
        map.insert(name.clone(), value.as_str()?.to_string());
    }
    Some(map)
}

fn snapshot_json(snapshot: &EnvSnapshot) -> String {
    let mut map = serde_json::Map::new();
    map.insert("env".into(), text_map(&snapshot.env));
    map.insert("cwd".into(), Value::String(snapshot.cwd.clone()));
    Value::Object(map).to_string()
}

fn delta_json(delta: &EnvDelta) -> String {
    let unset = delta.unset.iter().map(|name| Value::String(name.clone()));
    let mut map = serde_json::Map::new();
    map.insert("set".into(), text_map(&delta.set));
    map.insert("unset".into(), Value::Array(unset.collect()));
    map.insert(
        "cwd".into(),
        delta.cwd.clone().map(Value::String).unwrap_or(Value::Null),
    );
    Value::Object(map).to_string()
}

fn read_snapshot(json: &str) -> Option<EnvSnapshot> {
    let value: Value = serde_json::from_str(json).ok()?;
    Some(EnvSnapshot {
        env: read_text_map(value.get("env")?)?,
        cwd: value.get("cwd")?.as_str()?.to_string(),
    })
}

fn read_delta(json: &str) -> Option<EnvDelta> {
    let value: Value = serde_json::from_str(json).ok()?;
    let mut unset = Vec::new();
    for name in value.get("unset")?.as_array()? {
        unset.push(name.as_str()?.to_string());
    }
    Some(EnvDelta {
        set: read_text_map(value.get("set")?)?,
        unset,
        cwd: value.get("cwd")?.as_str().map(str::to_string),
    })
}

fn stored<T>(json: Option<String>, read: fn(&str) -> Option<T>) -> StoredJson<T> {
    match json {
        None => StoredJson::Absent,
        Some(json) => match read(&json) {
            Some(value) => StoredJson::Value(value),
            None => StoredJson::Corrupt,
        },
    }
}

type ScopeParts = (Vec<u8>, Option<Vec<u8>>, Option<String>, Option<String>);

fn scope_rows(conn: &Connection) -> Result<Vec<ScopeParts>> {
    let mut stmt = conn.prepare("SELECT hash, parent, delta_json, snap_json FROM scopes")?;
    let rows = stmt.query_map([], |row| {
        Ok((row.get(0)?, row.get(1)?, row.get(2)?, row.get(3)?))
    })?;
    Ok(rows.collect::<rusqlite::Result<Vec<_>>>()?)
}

fn head(conn: &Connection) -> Result<Option<Vec<u8>>> {
    let mut stmt = conn.prepare("SELECT hash FROM scope_head WHERE id = 0")?;
    let rows = stmt.query_map([], |row| row.get(0))?;
    let hashes = rows.collect::<rusqlite::Result<Vec<Vec<u8>>>>()?;
    Ok(hashes.into_iter().next())
}

fn purge_sensitive_scope_history(conn: &Connection) -> Result<SensitiveScopePurgeReport> {
    let scopes = scope_rows(conn)?
        .into_iter()
        .map(|(hash, parent, delta, snapshot)| {
            PersistedScopeMetadata::from_row(
                hash,
                parent,
                &stored(delta, read_delta),
                &stored(snapshot, read_snapshot),
            )
        })
        .collect();
    let mut stmt =
        conn.prepare("SELECT id, scope_hash, start_scope, end_scope FROM jobs_history")?;
    let jobs = stmt
        .query_map([], |row| {
            Ok(JobScopes {
                id: row.get(0)?,
                scope_hash: row.get(1)?,
                start_scope: row.get(2)?,
                end_scope: row.get(3)?,
            })
        })?
        .collect::<rusqlite::Result<Vec<_>>>()?;
    let mut stmt = conn.prepare("SELECT id, scope_hash, enabled != 0 FROM crons")?;
    let crons = stmt
        .query_map([], |row| {
            Ok(CronScope {
                id: row.get(0)?,
                scope_hash: row.get(1)?,
                enabled: row.get(2)?,
            })
        })?
        .collect::<rusqlite::Result<Vec<_>>>()?;

    let purge =
        scope_cleanup::purge_sensitive_scope_history(&scopes, &jobs, &crons, &head(conn)?);
    for job in &purge.jobs {
        conn.execute(
            "UPDATE jobs_history SET scope_hash = ?2, start_scope = ?3, end_scope = ?4
             WHERE id = ?1",
            (&job.id, &job.scope_hash, &job.start_scope, &job.end_scope),
        )?;
    }
    for id in &purge.crons {
        conn.execute(
            "UPDATE crons SET scope_hash = NULL, enabled = 0, status = ?2 WHERE id = ?1",
            (id, CronStatus::paused().encoded),
        )?;
    }
    if purge.drop_head {
        conn.execute("DELETE FROM scope_head", [])?;
    }
    for hash in &purge.hashes {
        conn.execute("DELETE FROM scopes WHERE hash = ?1", (hash,))?;
    }
    Ok(purge.report)
}

fn is_persisted(conn: &Connection, hash: Option<Digest>) -> Result<bool> {
    let Some(hash) = hash else {
        return Ok(false);
    };
    Ok(conn.query_row(
        "SELECT EXISTS(SELECT 1 FROM scopes WHERE hash = ?1)",
        (hash.bytes.as_slice(),),
        |row| row.get(0),
    )?)
}

fn raw_insert_scope(conn: &Connection, scope: &Scope) -> Result<()> {
    conn.execute(
        "INSERT OR IGNORE INTO scopes (hash, parent, delta_json, snap_json)
         VALUES (?1, ?2, ?3, ?4)",
        (
            digest_bytes(&scope.hash),
            scope.parent.map(|parent| digest_bytes(&parent)),
            scope.delta.as_ref().map(delta_json),
            scope.snapshot.as_ref().map(snapshot_json),
        ),
    )?;
    Ok(())
}

fn insert_scope(conn: &Connection, scope: &Scope) -> Result<ScopePersistence> {
    let persistence = scopes::insert_scope(scope, is_persisted(conn, scope.parent)?);
    if !persistence.is_volatile() {
        raw_insert_scope(conn, scope)?;
    }
    Ok(persistence)
}

fn list_scopes(conn: &Connection) -> Result<Vec<Scope>> {
    let mut scopes = Vec::new();
    for (hash, parent, delta, snapshot) in scope_rows(conn)? {
        scopes.push(
            scope_from_row_parts(
                hash,
                parent,
                stored(delta, read_delta),
                stored(snapshot, read_snapshot),
            )
            .map_err(Error::msg)?,
        );
    }
    Ok(scopes)
}

fn get_scope(conn: &Connection, hash: &Digest) -> Result<Option<Scope>> {
    Ok(list_scopes(conn)?.into_iter().find(|scope| scope.hash == *hash))
}

fn sweep_scopes(conn: &Connection, reachable: &[Digest]) -> Result<usize> {
    let hashes = scope_rows(conn)?.into_iter().map(|row| row.0).collect();
    let mut stmt = conn.prepare(
        "SELECT scope_hash FROM jobs_history WHERE scope_hash IS NOT NULL
         UNION SELECT start_scope FROM jobs_history WHERE start_scope IS NOT NULL
         UNION SELECT end_scope FROM jobs_history WHERE end_scope IS NOT NULL
         UNION SELECT scope_hash FROM crons WHERE scope_hash IS NOT NULL
         UNION SELECT scope_hash FROM sessions WHERE scope_hash IS NOT NULL",
    )?;
    let references = stmt
        .query_map([], |row| row.get(0))?
        .collect::<rusqlite::Result<Vec<Vec<u8>>>>()?;
    let sweep =
        scope_cleanup::sweep_scopes(&hashes, &references, &head(conn)?, &reachable.to_vec())
            .map_err(Error::msg)?;
    if sweep.drop_head {
        conn.execute("DELETE FROM scope_head", [])?;
    }
    for hash in &sweep.removed {
        conn.execute("DELETE FROM scopes WHERE hash = ?1", (hash,))?;
    }
    Ok(sweep.removed.len())
}

fn numbered(id: &str, letter: &str) -> Option<u32> {
    id.strip_prefix(letter)?.parse().ok()
}

fn job_status(encoded: &str) -> Option<JobStatus> {
    let value: Value = serde_json::from_str(encoded).ok()?;
    let terminal = match value.as_str() {
        Some(name) => name != "Running" && name != "Pending",
        None => value.get("Cancelled").is_some(),
    };
    Some(JobStatus {
        encoded: encoded.to_string(),
        terminal,
    })
}

fn job(status: &str) -> JobStatus {
    job_status(status).expect("a job status")
}

fn cron_status(encoded: &str) -> Option<CronStatus> {
    let value: Value = serde_json::from_str(encoded).ok()?;
    let name = value.as_str()?;
    Some(CronStatus {
        encoded: encoded.to_string(),
        runnable: name == "scheduled",
    })
}

fn cron(status: &str) -> CronStatus {
    cron_status(status).expect("a cron status")
}

fn upsert_session(conn: &Connection, session: &StoredSession) -> Result<bool> {
    let persisted = is_persisted(conn, session.scope_hash)?;
    let upsert = sessions::upsert_session(session.clone(), persisted);
    let row = upsert.row;
    conn.execute(
        upsert.sql,
        (
            row.id,
            row.name,
            row.scope_hash,
            row.pty_default,
            row.wrapper_enabled,
            row.created_at_ms,
            row.updated_at_ms,
            row.archived_at_ms,
        ),
    )?;
    Ok(upsert.stored_scope)
}

fn set_session_archived_at(
    conn: &Connection,
    id: &str,
    archived_at_ms: Option<i64>,
    updated_at_ms: i64,
) -> Result<()> {
    let changed = conn.execute(
        sessions::ARCHIVE_SESSION,
        (id, archived_at_ms, updated_at_ms),
    )?;
    sessions::set_session_archived_at(id, changed).map_err(Error::msg)
}

fn load_sessions(conn: &Connection) -> Result<Vec<StoredSession>> {
    let mut stmt = conn.prepare(
        "SELECT id, name, scope_hash, pty_default, wrapper_enabled,
                created_at_ms, updated_at_ms, archived_at_ms
         FROM sessions ORDER BY created_at_ms, id",
    )?;
    let rows = stmt
        .query_map([], |row| {
            Ok(SessionRow {
                id: row.get(0)?,
                name: row.get(1)?,
                scope_hash: row.get(2)?,
                pty_default: row.get(3)?,
                wrapper_enabled: row.get(4)?,
                created_at_ms: row.get(5)?,
                updated_at_ms: row.get(6)?,
                archived_at_ms: row.get(7)?,
            })
        })?
        .collect::<rusqlite::Result<Vec<_>>>()?;
    sessions::load_sessions(rows).map_err(Error::msg)
}

fn upsert_job_history(conn: &Connection, job: &StoredJob) -> Result<()> {
    let upsert = jobs::upsert_job_history(
        job.clone(),
        is_persisted(conn, job.start_scope)?,
        is_persisted(conn, job.end_scope)?,
    );
    let row = upsert.row;
    conn.execute(
        "INSERT INTO jobs_history (id, session_id, pipeline, status, exit_code, scope_hash,
             start_scope, end_scope, chain_id, stderr, finished_at)
         VALUES (?1, ?2, ?3, ?4, ?5, ?6, ?7, ?8, ?9, ?10,
             CASE WHEN ?11 THEN datetime('now') ELSE NULL END)
         ON CONFLICT(id) DO UPDATE SET session_id = excluded.session_id,
             pipeline = excluded.pipeline, status = excluded.status,
             exit_code = excluded.exit_code, scope_hash = excluded.scope_hash,
             start_scope = excluded.start_scope, end_scope = excluded.end_scope,
             chain_id = excluded.chain_id, stderr = excluded.stderr,
             finished_at = CASE WHEN ?11 THEN datetime('now') ELSE jobs_history.finished_at END",
        (
            row.id,
            row.session_id,
            row.pipeline,
            row.status,
            row.exit_code,
            row.scope_hash,
            row.start_scope,
            row.end_scope,
            row.chain_id,
            row.stderr,
            upsert.finished,
        ),
    )?;
    Ok(())
}

fn load_job_history(conn: &Connection) -> Result<Vec<StoredJob>> {
    let mut stmt = conn.prepare(
        "SELECT id, session_id, pipeline, status, exit_code, scope_hash, start_scope, end_scope,
                chain_id, COALESCE(stderr, '')
         FROM jobs_history",
    )?;
    let rows = stmt
        .query_map([], |row| {
            Ok(JobRow {
                id: row.get(0)?,
                session_id: row.get(1)?,
                pipeline: row.get(2)?,
                status: row.get(3)?,
                exit_code: row.get(4)?,
                scope_hash: row.get(5)?,
                start_scope: row.get(6)?,
                end_scope: row.get(7)?,
                chain_id: row.get(8)?,
                stderr: row.get(9)?,
            })
        })?
        .collect::<rusqlite::Result<Vec<_>>>()?;
    let records = rows
        .into_iter()
        .map(|row| JobRecord {
            number: numbered(&row.id, "J"),
            status: job_status(&row.status),
            row,
        })
        .collect();
    jobs::load_job_history(records).map_err(Error::msg)
}

fn prune_job_history(conn: &Connection, keep: usize) -> Result<Vec<String>> {
    let mut stmt = conn.prepare("SELECT id, status FROM jobs_history")?;
    let records = stmt
        .query_map([], |row| Ok((row.get(0)?, row.get(1)?)))?
        .map(|row| {
            row.map(|(id, status): (String, String)| JobProgress {
                number: numbered(&id, "J"),
                terminal: job_status(&status).map(|status| status.terminal),
                id,
                status,
            })
        })
        .collect::<rusqlite::Result<Vec<_>>>()?;
    let removed = jobs::prune_job_history(&records, keep).map_err(Error::msg)?;
    for id in &removed {
        conn.execute("DELETE FROM jobs_history WHERE id = ?1", (id,))?;
    }
    Ok(removed)
}

fn upsert_cron(conn: &Connection, cron: &StoredCron) -> Result<()> {
    let CronUpsert { sql, row } =
        crons::upsert_cron(cron.clone(), is_persisted(conn, cron.scope_hash)?);
    conn.execute(
        sql,
        (
            row.id,
            row.session_id,
            row.schedule,
            row.command,
            row.enabled,
            row.scope_hash,
            row.status,
            row.cwd_override,
            row.scope_enabled,
            row.wrapper_enabled,
        ),
    )?;
    Ok(())
}

fn load_crons(conn: &Connection) -> Result<Vec<LoadedCron>> {
    let mut stmt = conn.prepare(&format!(
        "WITH now_ms(value) AS (SELECT {CRON_CREATED_AT_MS_EXPR})
         SELECT id, session_id, schedule, command, enabled, scope_hash, status, cwd_override,
                scope_enabled, wrapper_enabled, now_ms.value - created_at_ms AS age_millis
         FROM crons, now_ms"
    ))?;
    let rows = stmt
        .query_map([], |row| {
            Ok((
                CronRow {
                    id: row.get(0)?,
                    session_id: row.get(1)?,
                    schedule: row.get(2)?,
                    command: row.get(3)?,
                    enabled: row.get(4)?,
                    scope_hash: row.get(5)?,
                    status: row.get(6)?,
                    cwd_override: row.get(7)?,
                    scope_enabled: row.get(8)?,
                    wrapper_enabled: row.get(9)?,
                },
                row.get(10)?,
            ))
        })?
        .collect::<rusqlite::Result<Vec<_>>>()?;
    let records = rows
        .into_iter()
        .map(|(row, age_millis)| CronRecord {
            number: numbered(&row.id, "C"),
            status: cron_status(&row.status),
            row,
            age_millis,
        })
        .collect();
    crons::load_crons(records).map_err(Error::msg)
}

fn upsert_script_run(
    conn: &Connection,
    script: &StoredScriptRun,
    items: &[StoredScriptItem],
) -> Result<()> {
    let tx = conn.unchecked_transaction()?;
    for step in scripts::upsert_script_run(script.clone(), items.to_vec()) {
        let Statement { sql, context } = step.statement();
        match step {
            ScriptStatement::PutRun(row) => tx.execute(
                sql,
                (
                    row.id,
                    row.mode,
                    row.input,
                    row.status,
                    row.item_count,
                    row.error_code,
                    row.error_message,
                    row.exit_code,
                    row.failed_item_index,
                    row.finished,
                ),
            ),
            ScriptStatement::DropItems { script_id } => tx.execute(sql, (script_id,)),
            ScriptStatement::AddItem(row) => tx.execute(
                sql,
                (
                    row.script_id,
                    row.item_index,
                    row.source_text,
                    row.kind,
                    row.target_id,
                    row.chain_id,
                    row.job_ids_json,
                ),
            ),
        }
        .context(context)?;
    }
    tx.commit().context("commit script run upsert")
}

fn script_records(conn: &Connection) -> Result<Vec<ScriptRecord>> {
    let mut stmt = conn.prepare("SELECT id, status FROM script_runs")?;
    let records = stmt
        .query_map([], |row| Ok((row.get(0)?, row.get(1)?)))?
        .map(|row| {
            row.map(|(id, status): (String, String)| ScriptRecord {
                number: numbered(&id, "R"),
                id,
                status,
            })
        })
        .collect::<rusqlite::Result<Vec<_>>>()?;
    Ok(records)
}

fn max_script_run_id(conn: &Connection) -> Result<Option<u32>> {
    scripts::max_script_run_id(&script_records(conn)?).map_err(Error::msg)
}

fn prune_script_runs(conn: &Connection, keep: usize) -> Result<Vec<String>> {
    let removed =
        scripts::prune_script_runs(&script_records(conn)?, keep).map_err(Error::msg)?;
    for id in &removed {
        conn.execute("DELETE FROM script_runs WHERE id = ?1", (id,))?;
    }
    Ok(removed)
}

fn count(conn: &Connection, query: &str) -> i64 {
    conn.query_row(query, [], |row| row.get(0)).expect("count")
}

// Values that the tests store.

fn env(pairs: &[(&str, &str)]) -> OrderedMap<String> {
    let mut map = OrderedMap::new();
    for (name, value) in pairs {
        map.insert(name.to_string(), value.to_string());
    }
    map
}

fn snapshot(pairs: &[(&str, &str)], cwd: &str) -> EnvSnapshot {
    EnvSnapshot {
        env: env(pairs),
        cwd: cwd.to_string(),
    }
}

fn hash_of(snapshot: &EnvSnapshot) -> Digest {
    Digest {
        bytes: *blake3::hash(snapshot_json(snapshot).as_bytes()).as_bytes(),
    }
}

fn root(pairs: &[(&str, &str)], cwd: &str) -> Scope {
    let snapshot = snapshot(pairs, cwd);
    Scope {
        hash: hash_of(&snapshot),
        parent: None,
        delta: None,
        snapshot: Some(snapshot),
    }
}

fn fork(parent: &Scope, delta: EnvDelta, pairs: &[(&str, &str)], cwd: &str) -> Scope {
    let snapshot = snapshot(pairs, cwd);
    Scope {
        hash: hash_of(&snapshot),
        parent: Some(parent.hash),
        delta: Some(delta),
        snapshot: Some(snapshot),
    }
}

fn insert_safe_scope(conn: &Connection, cwd: &str) -> Digest {
    let scope = root(&[("PATH", "/usr/bin")], cwd);
    assert_eq!(
        insert_scope(conn, &scope).expect("insert safe scope fixture"),
        ScopePersistence::Persisted
    );
    scope.hash
}

fn done_job(id: &str, start: Option<Digest>, end: Option<Digest>) -> StoredJob {
    StoredJob {
        id: id.into(),
        session_id: None,
        pipeline: "echo".into(),
        status: job("\"Done\""),
        exit_code: Some(0),
        start_scope: start,
        end_scope: end,
        chain_id: None,
        stderr: String::new(),
    }
}

fn scheduled_cron(id: &str, scope_hash: Option<Digest>, scope_enabled: bool) -> StoredCron {
    StoredCron {
        id: id.into(),
        session_id: None,
        schedule: "every 5m".into(),
        command: "echo".into(),
        status: cron("\"scheduled\""),
        scope_hash,
        cwd_override: None,
        scope_enabled,
        wrapper_enabled: false,
    }
}

fn script(id: &str, status: StoredScriptRunStatus, exit_code: Option<i32>) -> StoredScriptRun {
    StoredScriptRun {
        id: id.into(),
        mode: "job".into(),
        input: "echo".into(),
        status,
        item_count: 1,
        error_code: None,
        error_message: None,
        exit_code,
        failed_item_index: None,
    }
}

#[test]
fn migration_is_idempotent() {
    let conn = in_memory_db();
    migrate(&conn).expect("second migration");
    assert_eq!(schema_version(&conn), SCHEMA_VERSION);
    assert_eq!(SCHEMA_VERSION, 18);
    assert!(migration::migrate(SCHEMA_VERSION).unwrap().is_empty());
}

#[test]
fn migration_from_v15_adds_named_sessions_table() {
    let conn = Connection::open_in_memory().expect("open legacy in-memory db");
    conn.execute_batch(CREATE_BASE_TABLES).expect("seed legacy schema");
    conn.pragma_update(None, "user_version", 15)
        .expect("mark schema version 15");

    migrate(&conn).expect("migrate schema to v16");

    for column in [
        "id",
        "name",
        "scope_hash",
        "pty_default",
        "wrapper_enabled",
        "created_at_ms",
        "updated_at_ms",
        "archived_at_ms",
    ] {
        assert!(
            column_exists(&conn, "sessions", column).expect("inspect sessions schema"),
            "missing sessions.{column}"
        );
    }
    assert_eq!(schema_version(&conn), SCHEMA_VERSION);
}

#[test]
fn migration_v17_and_v18_preserve_legacy_unowned_jobs_and_crons() {
    let conn = Connection::open_in_memory().expect("open legacy in-memory db");
    conn.execute_batch(CREATE_BASE_TABLES).expect("seed legacy base schema");
    conn.execute_batch(
        "ALTER TABLE jobs_history ADD COLUMN chain_id TEXT;
         ALTER TABLE jobs_history ADD COLUMN stderr TEXT NOT NULL DEFAULT '';
         ALTER TABLE crons ADD COLUMN status TEXT;
         CREATE TABLE sessions (
             id                  TEXT PRIMARY KEY,
             name                TEXT NOT NULL UNIQUE,
             scope_hash          BLOB REFERENCES scopes(hash),
             pty_default         INTEGER,
             wrapper_enabled     INTEGER,
             created_at_ms       INTEGER NOT NULL,
             updated_at_ms       INTEGER NOT NULL
         );",
    )
    .expect("complete schema version 16 fixture");
    conn.execute(
        "INSERT INTO jobs_history (id, pipeline, status)
         VALUES ('J1', 'echo legacy job', ?1)",
        ("\"Done\"",),
    )
    .expect("insert legacy unowned job");
    conn.execute(
        &format!(
            "INSERT INTO crons (id, schedule, command, enabled, status, created_at_ms)
             VALUES ('C1', 'every 5m', 'echo legacy cron', 0, ?1, {CRON_CREATED_AT_MS_EXPR})"
        ),
        ("\"paused\"",),
    )
    .expect("insert legacy unowned cron");
    conn.pragma_update(None, "user_version", 16)
        .expect("mark schema version 16");

    migrate(&conn).expect("migrate schema to current version");

    assert!(column_exists(&conn, "jobs_history", "session_id").expect("inspect jobs schema"));
    assert!(column_exists(&conn, "crons", "session_id").expect("inspect crons schema"));
    assert!(column_exists(&conn, "sessions", "archived_at_ms").expect("inspect sessions schema"));
    assert_eq!(load_job_history(&conn).expect("load legacy jobs")[0].session_id, None);
    assert_eq!(
        load_crons(&conn).expect("load legacy crons")[0].record.session_id,
        None
    );
    assert_eq!(schema_version(&conn), SCHEMA_VERSION);
}

#[test]
fn migration_v18_preserves_sessions_as_active() {
    let conn = Connection::open_in_memory().expect("open legacy in-memory db");
    conn.execute_batch(CREATE_BASE_TABLES).expect("seed legacy base schema");
    conn.execute_batch(CREATE_SESSIONS).expect("seed legacy sessions schema");
    conn.execute(
        "INSERT INTO sessions (
             id, name, scope_hash, pty_default, wrapper_enabled, created_at_ms, updated_at_ms
         ) VALUES ('SS-legacy', 'legacy', NULL, NULL, NULL, 10, 20)",
        [],
    )
    .expect("insert legacy session");
    conn.pragma_update(None, "user_version", 17)
        .expect("mark schema version 17");

    migrate(&conn).expect("migrate schema to v18");

    assert_eq!(
        load_sessions(&conn).expect("load migrated session")[0].archived_at_ms,
        None
    );
    assert_eq!(schema_version(&conn), SCHEMA_VERSION);
}

#[test]
fn failed_later_migration_preserves_last_successful_version() {
    let conn = Connection::open_in_memory().expect("open in-memory db");
    conn.execute_batch(
        "
        CREATE VIEW crons AS
        SELECT
            'C1' AS id,
            'every 5m' AS schedule,
            'echo hi' AS command,
            1 AS enabled,
            NULL AS scope_hash,
            datetime('now') AS created_at;
        CREATE TABLE jobs_history (
            id          TEXT PRIMARY KEY,
            pipeline    TEXT NOT NULL,
            status      TEXT NOT NULL,
            exit_code   INTEGER,
            scope_hash  BLOB,
            start_scope BLOB,
            end_scope   BLOB,
            chain_id    TEXT,
            stderr      TEXT NOT NULL DEFAULT '',
            created_at  TEXT NOT NULL DEFAULT (datetime('now')),
            finished_at TEXT
        );
        PRAGMA user_version = 8;
        ",
    )
    .expect("seed broken v8 database");

    let error = migrate(&conn).expect_err("v10 must fail against a crons view");

    assert!(error.to_string().contains("failed to run schema migration v10"));
    assert_eq!(schema_version(&conn), 9);
}

#[test]
fn migration_rejects_newer_schema_version() {
    let conn = Connection::open_in_memory().expect("open in-memory db");
    conn.pragma_update(None, "user_version", SCHEMA_VERSION + 1)
        .expect("set future schema version");

    let error = migrate(&conn).expect_err("future schema must be rejected");

    assert!(error.to_string().contains("newer than supported version"));
    assert_eq!(
        error.to_string(),
        "database schema version 19 is newer than supported version 18"
    );
}

#[test]
fn stopped_migration_goes_on_from_its_version() {
    let all = migration::migrate(0).unwrap().len();
    let mut seen = 0;
    for version in 1..=SCHEMA_VERSION {
        seen += migration::migration_steps(version).len();
        assert_eq!(migration::migrate(version).unwrap().len(), all - seen);
    }
    assert_eq!(seen, all);
}

#[test]
fn cut_migration_leaves_a_version_whose_steps_were_taken() {
    let steps = migration::migrate(2).unwrap();
    for taken in 0..=steps.len() {
        let reached = steps[..taken]
            .iter()
            .rev()
            .find_map(|step| match step {
                MigrationStep::SetVersion { version } => Some(*version),
                _ => None,
            })
            .unwrap_or(2);
        let left = migration::migrate(reached).unwrap().len();
        assert!(steps.len() - left <= taken);
    }
}

#[test]
fn sensitive_environment_names_are_classified_without_reading_values() {
    for name in [
        "TOKEN",
        "GITHUB_TOKEN",
        "OPENAI_API_KEY",
        "AWS_ACCESS_KEY_ID",
        "PRIVATE_KEY",
        "CLIENT_SECRET",
        "PGPASSWORD",
        "DB_PASS",
        "SHARED_CREDENTIALS_FILE",
        "HTTP_AUTH",
        "AUTHORIZATION",
        "SESSION_COOKIE",
        "SENTRY_DSN",
        "DATABASE_URL",
        "REDIS_URI",
        "MONGODB_CONNECTION_STRING",
        "POSTGRESQL_URL_READ_ONLY",
    ] {
        assert!(is_sensitive_env_name(name), "expected sensitive name");
    }

    for name in [
        "PATH",
        "HOME",
        "PWD",
        "OLDPWD",
        "AUTHOR",
        "AUTHORS",
        "TOKENIZERS_PARALLELISM",
        "DATABASE_HOST",
        "REDIS_PORT",
        "POSTGRES_USER",
    ] {
        assert!(!is_sensitive_env_name(name), "expected non-sensitive name");
    }
}

#[test]
fn sensitive_names_ignore_case_and_separators() {
    for name in ["openai_api_key", "Openai.Api.Key", "apiKey", "database-url", "my_oauth", "__TOKEN--", "-é-my_oauth."] {
        assert!(is_sensitive_env_name(name), "{name}");
    }
    for name in ["", "___", "URL", "DATABASE", "SECRETARY", "PASSENGER"] {
        assert!(!is_sensitive_env_name(name), "{name}");
    }
}

#[test]
fn sensitive_scope_and_its_descendant_remain_volatile() {
    let conn = in_memory_db();
    let sensitive = root(
        &[
            ("PATH", "/usr/bin"),
            ("OPENAI_API_KEY", "fixture-do-not-persist"),
        ],
        "/tmp/root",
    );
    assert_eq!(
        insert_scope(&conn, &sensitive).expect("insert sensitive scope"),
        ScopePersistence::VolatileSensitiveEnvironment
    );
    assert!(get_scope(&conn, &sensitive.hash)
        .expect("query sensitive scope")
        .is_none());

    let descendant = fork(
        &sensitive,
        EnvDelta {
            set: env(&[]),
            unset: vec!["OPENAI_API_KEY".into()],
            cwd: Some("/tmp/clean-child".into()),
        },
        &[("PATH", "/usr/bin")],
        "/tmp/clean-child",
    );
    assert!(
        !scope_contains_sensitive_environment(&descendant),
        "unset names do not contain persisted values"
    );
    assert_eq!(
        insert_scope(&conn, &descendant).expect("insert descendant"),
        ScopePersistence::VolatileParent
    );
    assert!(get_scope(&conn, &descendant.hash)
        .expect("query descendant")
        .is_none());

    upsert_job_history(
        &conn,
        &done_job("J1", Some(sensitive.hash), Some(descendant.hash)),
    )
    .expect("persist job without volatile scope references");
    let job = load_job_history(&conn)
        .expect("load job")
        .pop()
        .expect("job exists");
    assert_eq!(job.start_scope, None);
    assert_eq!(job.end_scope, None);

    for cron in [
        scheduled_cron("C1", Some(sensitive.hash), true),
        scheduled_cron("C2", Some(descendant.hash), false),
    ] {
        upsert_cron(&conn, &cron).expect("persist cron without volatile scope reference");
    }
    let crons = load_crons(&conn).expect("load crons");
    assert_eq!(crons[0].record.scope_hash, None);
    assert_eq!(crons[0].record.status, CronStatus::paused());
    assert_eq!(crons[1].record.scope_hash, None);
    assert_eq!(crons[1].record.status, CronStatus::paused());
    assert_eq!(CronStatus::paused(), cron("\"paused\""));
}

#[test]
fn volatility_is_reported_with_its_reason() {
    assert!(!ScopePersistence::Persisted.is_volatile());
    assert!(ScopePersistence::VolatileSensitiveEnvironment.is_volatile());
    assert!(ScopePersistence::VolatileParent.is_volatile());
    assert_eq!(ScopePersistence::Persisted.reason(), "persisted");
    assert_eq!(
        ScopePersistence::VolatileSensitiveEnvironment.reason(),
        "sensitive_environment"
    );
    assert_eq!(ScopePersistence::VolatileParent.reason(), "unpersisted_parent");
}

#[test]
fn migration_purges_sensitive_scopes_and_descendants_and_repairs_references() {
    let conn = in_memory_db();
    let safe = root(&[("PATH", "/usr/bin")], "/tmp/safe");
    let sensitive = root(
        &[("PATH", "/usr/bin"), ("DATABASE_URL", "fixture-do-not-log")],
        "/tmp/sensitive",
    );
    let descendant = fork(
        &sensitive,
        EnvDelta {
            set: env(&[]),
            unset: vec!["DATABASE_URL".into()],
            cwd: Some("/tmp/descendant".into()),
        },
        &[("PATH", "/usr/bin")],
        "/tmp/descendant",
    );
    assert!(!scope_contains_sensitive_environment(&descendant));
    for scope in [&safe, &sensitive, &descendant] {
        raw_insert_scope(&conn, scope).expect("insert raw scope fixture");
    }
    conn.execute(
        "INSERT INTO scope_head (id, hash) VALUES (0, ?1)",
        (sensitive.hash.bytes.as_slice(),),
    )
    .expect("insert legacy scope head");

    upsert_job_history(&conn, &done_job("J1", Some(sensitive.hash), Some(safe.hash)))
        .expect("insert first job");
    upsert_job_history(&conn, &done_job("J2", Some(safe.hash), Some(descendant.hash)))
        .expect("insert second job");
    for cron in [
        scheduled_cron("C1", Some(sensitive.hash), true),
        scheduled_cron("C2", Some(descendant.hash), false),
        scheduled_cron("C3", Some(safe.hash), true),
    ] {
        upsert_cron(&conn, &cron).expect("insert cron fixture");
    }

    conn.pragma_update(None, "user_version", 14)
        .expect("mark legacy schema");
    migrate(&conn).expect("migrate sensitive scope history");

    assert!(get_scope(&conn, &safe.hash).expect("load safe").is_some());
    assert!(get_scope(&conn, &sensitive.hash)
        .expect("load sensitive")
        .is_none());
    assert!(get_scope(&conn, &descendant.hash)
        .expect("load descendant")
        .is_none());
    let jobs = load_job_history(&conn).expect("load repaired jobs");
    assert_eq!(jobs[0].start_scope, None);
    assert_eq!(jobs[0].end_scope, Some(safe.hash));
    assert_eq!(jobs[1].start_scope, Some(safe.hash));
    assert_eq!(jobs[1].end_scope, None);

    let crons = load_crons(&conn).expect("load repaired crons");
    assert_eq!(crons[0].record.scope_hash, None);
    assert_eq!(crons[0].record.status, CronStatus::paused());
    assert!(crons[0].record.scope_enabled);
    assert_eq!(crons[1].record.scope_hash, None);
    assert_eq!(crons[1].record.status, CronStatus::paused());
    assert!(!crons[1].record.scope_enabled);
    assert_eq!(crons[2].record.scope_hash, Some(safe.hash));
    assert_eq!(crons[2].record.status, cron("\"scheduled\""));

    assert_eq!(count(&conn, "SELECT COUNT(*) FROM scope_head"), 0);
    assert_eq!(
        count(
            &conn,
            "SELECT COUNT(*) FROM scopes
             WHERE instr(COALESCE(delta_json, ''), 'fixture-do-not-log') != 0
                OR instr(COALESCE(snap_json, ''), 'fixture-do-not-log') != 0",
        ),
        0
    );
    assert_eq!(schema_version(&conn), SCHEMA_VERSION);
}

#[test]
fn purge_reports_what_it_did() {
    let conn = in_memory_db();
    let sensitive = root(&[("API_TOKEN", "x")], "/tmp/s");
    let safe = root(&[("PATH", "x")], "/tmp/p");
    raw_insert_scope(&conn, &sensitive).unwrap();
    raw_insert_scope(&conn, &safe).unwrap();
    upsert_job_history(&conn, &done_job("J1", Some(sensitive.hash), Some(safe.hash))).unwrap();
    upsert_job_history(&conn, &done_job("J2", Some(safe.hash), None)).unwrap();
    upsert_cron(&conn, &scheduled_cron("C1", Some(sensitive.hash), true)).unwrap();
    let mut paused = scheduled_cron("C2", Some(sensitive.hash), true);
    paused.status = cron("\"paused\"");
    upsert_cron(&conn, &paused).unwrap();

    assert_eq!(
        purge_sensitive_scope_history(&conn).unwrap(),
        SensitiveScopePurgeReport {
            removed_scopes: 1,
            cleared_job_rows: 1,
            cleared_crons: 2,
            disabled_scope_crons: 1,
        }
    );
    assert_eq!(
        purge_sensitive_scope_history(&conn).unwrap(),
        SensitiveScopePurgeReport {
            removed_scopes: 0,
            cleared_job_rows: 0,
            cleared_crons: 0,
            disabled_scope_crons: 0,
        }
    );
}

#[test]
fn purge_follows_chains_of_descent_in_any_order() {
    let scope = |hash: u8, parent: Option<u8>, sensitive: bool| PersistedScopeMetadata {
        hash: vec![hash],
        parent: parent.map(|parent| vec![parent]),
        contains_sensitive_environment: sensitive,
    };
    let scopes = vec![
        scope(4, Some(3), false),
        scope(3, Some(2), false),
        scope(2, Some(1), true),
        scope(1, None, false),
        scope(5, Some(9), false),
    ];
    let mut hashes = purged_hashes(&scopes);
    hashes.sort();
    assert_eq!(hashes, vec![vec![2], vec![3], vec![4]]);
}

#[test]
fn corrupt_scope_rows_count_as_sensitive() {
    assert!(persisted_scope_has_sensitive_environment(
        &stored(Some("{".into()), read_delta),
        &StoredJson::Absent,
    ));
    assert!(persisted_scope_has_sensitive_environment(
        &StoredJson::Absent,
        &stored(Some("{".into()), read_snapshot),
    ));
    assert!(!persisted_scope_has_sensitive_environment(
        &StoredJson::Absent,
        &StoredJson::Absent,
    ));
}

#[test]
fn scope_roundtrip() {
    let conn = in_memory_db();
    let scope = root(&[("PATH", "/usr/bin")], "/tmp");
    insert_scope(&conn, &scope).unwrap();
    let loaded = get_scope(&conn, &scope.hash)
        .unwrap()
        .expect("scope exists");
    assert_eq!(loaded.hash, scope.hash);
    assert!(loaded.parent.is_none());
    assert_eq!(
        snapshot_json(loaded.snapshot.as_ref().expect("a snapshot")),
        snapshot_json(scope.snapshot.as_ref().expect("a snapshot"))
    );
}

#[test]
fn list_scopes_returns_persisted_scopes() {
    let conn = in_memory_db();
    let root = root(&[("PATH", "/usr/bin")], "/tmp/root");
    let child = fork(
        &root,
        EnvDelta {
            set: env(&[("FOO", "bar")]),
            unset: vec![],
            cwd: Some("/tmp/child".into()),
        },
        &[("PATH", "/usr/bin"), ("FOO", "bar")],
        "/tmp/child",
    );
    insert_scope(&conn, &root).unwrap();
    insert_scope(&conn, &child).unwrap();

    let hashes = list_scopes(&conn)
        .unwrap()
        .iter()
        .map(|scope| scope.hash)
        .collect::<Vec<_>>();

    assert!(hashes.contains(&root.hash));
    assert!(hashes.contains(&child.hash));
}

#[test]
fn scope_rows_are_checked() {
    assert_eq!(
        blob_to_scope_hash(&vec![1, 2, 3]),
        Err("scope hash blob is not 32 bytes (got 3)".to_string())
    );
    assert_eq!(
        blob_to_scope_hash(&vec![7; 32]),
        Ok(Digest { bytes: [7; 32] })
    );
    assert_eq!(optional_scope_hash(&None), Ok(None));
    assert_eq!(
        optional_scope_hash(&Some(vec![])),
        Err("scope hash blob is not 32 bytes (got 0)".to_string())
    );
    let corrupt = |delta: Option<&str>, snapshot: Option<&str>| {
        scope_from_row_parts(
            vec![1; 32],
            None,
            stored(delta.map(str::to_string), read_delta),
            stored(snapshot.map(str::to_string), read_snapshot),
        )
        .unwrap_err()
    };
    assert_eq!(corrupt(Some("{"), Some("{")), "corrupt delta_json");
    assert_eq!(corrupt(None, Some("{")), "corrupt snap_json");
}

#[test]
fn sweep_scopes_deletes_only_unmarked_scopes() {
    let conn = in_memory_db();
    let base = root(&[("PATH", "/usr/bin")], "/tmp/root");
    let child = fork(
        &base,
        EnvDelta {
            set: env(&[("MODE", "debug")]),
            unset: vec![],
            cwd: None,
        },
        &[("PATH", "/usr/bin"), ("MODE", "debug")],
        "/tmp/root",
    );
    let orphan = root(&[("PATH", "/bin")], "/tmp/orphan");
    for scope in [&base, &child, &orphan] {
        insert_scope(&conn, scope).expect("insert scope fixture");
    }

    let removed = sweep_scopes(&conn, &[base.hash, child.hash]).expect("sweep scopes");

    assert_eq!(removed, 1);
    assert!(get_scope(&conn, &base.hash).expect("load root").is_some());
    assert!(get_scope(&conn, &child.hash).expect("load child").is_some());
    assert!(get_scope(&conn, &orphan.hash)
        .expect("load orphan")
        .is_none());
}

#[test]
fn sweep_drops_an_unmarked_head() {
    let conn = in_memory_db();
    let base = insert_safe_scope(&conn, "/tmp/head");
    conn.execute(
        "INSERT INTO scope_head (id, hash) VALUES (0, ?1)",
        (base.bytes.as_slice(),),
    )
    .unwrap();
    sweep_scopes(&conn, &[base]).unwrap();
    assert_eq!(count(&conn, "SELECT COUNT(*) FROM scope_head"), 1);
    sweep_scopes(&conn, &[]).unwrap();
    assert_eq!(count(&conn, "SELECT COUNT(*) FROM scope_head"), 0);
}

#[test]
fn sweep_scopes_refuses_to_delete_durable_references() {
    let conn = in_memory_db();
    let root = root(&[("PATH", "/usr/bin")], "/tmp/referenced");
    insert_scope(&conn, &root).expect("insert referenced scope");
    upsert_job_history(&conn, &done_job("J1", Some(root.hash), Some(root.hash)))
        .expect("persist referenced job");

    let error =
        sweep_scopes(&conn, &[]).expect_err("unmarked durable reference must fail closed");

    assert!(error.to_string().contains("still references unmarked scope"));
    let hex: String = root.hash.bytes.iter().map(|byte| format!("{byte:02X}")).collect();
    assert!(error.to_string().ends_with(&hex));
    assert!(get_scope(&conn, &root.hash).expect("load root").is_some());
}

#[test]
fn sweep_scopes_refuses_to_delete_named_session_scope() {
    let conn = in_memory_db();
    let scope_hash = insert_safe_scope(&conn, "/tmp/named-session");
    let session = StoredSession {
        id: "session-1".into(),
        name: "shared".into(),
        scope_hash: Some(scope_hash),
        pty_default: None,
        wrapper_enabled: None,
        created_at_ms: 100,
        updated_at_ms: 100,
        archived_at_ms: None,
    };
    assert!(upsert_session(&conn, &session).expect("persist named session"));

    let error =
        sweep_scopes(&conn, &[]).expect_err("unmarked named-session scope must fail closed");

    assert!(error
        .to_string()
        .contains("session still references unmarked scope"));
    assert!(get_scope(&conn, &scope_hash)
        .expect("load named-session scope")
        .is_some());
}

#[test]
fn named_session_roundtrips_durable_scope_and_defaults() {
    let conn = in_memory_db();
    let scope_hash = insert_safe_scope(&conn, "/tmp/shared");
    let session = StoredSession {
        id: "session-2".into(),
        name: "pairing".into(),
        scope_hash: Some(scope_hash),
        pty_default: Some(true),
        wrapper_enabled: Some(false),
        created_at_ms: 200,
        updated_at_ms: 250,
        archived_at_ms: Some(260),
    };

    assert!(upsert_session(&conn, &session).expect("persist durable session scope"));

    assert_eq!(
        load_sessions(&conn).expect("load named sessions"),
        vec![session]
    );
}

#[test]
fn named_session_archive_state_updates_without_replacing_identity_or_scope() {
    let conn = in_memory_db();
    let scope_hash = insert_safe_scope(&conn, "/tmp/archive-state");
    let session = StoredSession {
        id: "session-archive".into(),
        name: "archive-state".into(),
        scope_hash: Some(scope_hash),
        pty_default: Some(true),
        wrapper_enabled: Some(false),
        created_at_ms: 10,
        updated_at_ms: 20,
        archived_at_ms: None,
    };
    assert!(upsert_session(&conn, &session).expect("persist session"));

    set_session_archived_at(&conn, &session.id, Some(30), 30).expect("archive session");
    let archived = load_sessions(&conn).expect("load archived session");
    assert_eq!(archived[0].archived_at_ms, Some(30));
    assert_eq!(archived[0].scope_hash, Some(scope_hash));
    assert_eq!(archived[0].name, session.name);

    set_session_archived_at(&conn, &session.id, None, 40).expect("restore session");
    let restored = load_sessions(&conn).expect("load restored session");
    assert_eq!(restored[0].archived_at_ms, None);
    assert_eq!(restored[0].updated_at_ms, 40);

    let error = set_session_archived_at(&conn, "nobody", None, 40).unwrap_err();
    assert_eq!(
        error.to_string(),
        "named session nobody is missing from storage"
    );
}

#[test]
fn named_session_without_scope_reports_not_durable() {
    let conn = in_memory_db();
    let session = StoredSession {
        id: "session-unbound".into(),
        name: "needs-refresh".into(),
        scope_hash: None,
        pty_default: None,
        wrapper_enabled: None,
        created_at_ms: 275,
        updated_at_ms: 275,
        archived_at_ms: None,
    };

    assert!(!upsert_session(&conn, &session).expect("persist unbound session"));
    assert_eq!(
        load_sessions(&conn).expect("load unbound session"),
        vec![session]
    );
}

#[test]
fn named_session_keeps_identity_but_not_volatile_scope() {
    let conn = in_memory_db();
    let volatile_scope = root(
        &[
            ("PATH", "/usr/bin"),
            ("API_TOKEN", "fixture-do-not-persist"),
        ],
        "/tmp/volatile-session",
    );
    assert_eq!(
        insert_scope(&conn, &volatile_scope).expect("insert volatile session scope"),
        ScopePersistence::VolatileSensitiveEnvironment
    );
    let requested = StoredSession {
        id: "session-3".into(),
        name: "agent-pair".into(),
        scope_hash: Some(volatile_scope.hash),
        pty_default: Some(false),
        wrapper_enabled: None,
        created_at_ms: 300,
        updated_at_ms: 300,
        archived_at_ms: None,
    };

    assert!(
        !upsert_session(&conn, &requested).expect("persist volatile session metadata"),
        "volatile scope must not be reported as durable"
    );

    let mut expected = requested;
    expected.scope_hash = None;
    assert_eq!(
        load_sessions(&conn).expect("load volatile session metadata"),
        vec![expected]
    );
    assert_eq!(
        count(
            &conn,
            "SELECT COUNT(*) FROM scopes
             WHERE instr(COALESCE(delta_json, ''), 'fixture-do-not-persist') != 0
                OR instr(COALESCE(snap_json, ''), 'fixture-do-not-persist') != 0",
        ),
        0
    );
}

#[test]
fn volatile_scope_references_stay_null_across_database_connections() {
    let shared = "file:volatile-reference-test?mode=memory&cache=shared";
    let scope_conn = Connection::open(shared).expect("open scope connection");
    migrate(&scope_conn).expect("migrate");
    let scheduler_conn = Connection::open(shared).expect("open scheduler connection");
    migrate(&scheduler_conn).expect("migrate");
    let sensitive = root(&[("API_TOKEN", "memory-only")], "/tmp/sensitive");
    assert_eq!(
        insert_scope(&scope_conn, &sensitive).expect("insert volatile scope"),
        ScopePersistence::VolatileSensitiveEnvironment
    );

    upsert_job_history(
        &scheduler_conn,
        &StoredJob {
            id: "J1".into(),
            session_id: None,
            pipeline: "echo volatile".into(),
            status: job("\"Done\""),
            exit_code: Some(0),
            start_scope: Some(sensitive.hash),
            end_scope: Some(sensitive.hash),
            chain_id: None,
            stderr: String::new(),
        },
    )
    .expect("persist job without volatile scope reference");

    let jobs = load_job_history(&scheduler_conn).expect("load job history");
    assert_eq!(jobs[0].start_scope, None);
    assert_eq!(jobs[0].end_scope, None);
}

#[test]
fn named_session_owner_roundtrips_for_jobs_and_crons() {
    let conn = in_memory_db();
    let scope_hash = insert_safe_scope(&conn, "/tmp/owned-work");
    let session = StoredSession {
        id: "session-owned".into(),
        name: "owned-work".into(),
        scope_hash: Some(scope_hash),
        pty_default: None,
        wrapper_enabled: None,
        created_at_ms: 400,
        updated_at_ms: 400,
        archived_at_ms: None,
    };
    assert!(upsert_session(&conn, &session).expect("persist owning session"));
    let mut job = done_job("J40", Some(scope_hash), Some(scope_hash));
    job.session_id = Some(session.id.clone());
    job.pipeline = "echo owned job".into();
    let mut cron = scheduled_cron("C40", Some(scope_hash), false);
    cron.session_id = Some(session.id.clone());
    cron.command = "echo owned cron".into();

    upsert_job_history(&conn, &job).expect("persist owned job");
    upsert_cron(&conn, &cron).expect("persist owned cron");

    assert_eq!(load_job_history(&conn).expect("load owned job"), vec![job]);
    assert_eq!(load_crons(&conn).expect("load owned cron")[0].record, cron);
}

#[test]
fn job_history_roundtrip() {
    let conn = in_memory_db();
    let start_scope = insert_safe_scope(&conn, "/tmp/job-start");
    let end_scope = insert_safe_scope(&conn, "/tmp/job-end");
    let job = StoredJob {
        id: "J12".into(),
        session_id: None,
        pipeline: "cargo test".into(),
        status: job("{\"Cancelled\":\"User\"}"),
        exit_code: Some(130),
        start_scope: Some(start_scope),
        end_scope: Some(end_scope),
        chain_id: None,
        stderr: String::new(),
    };

    upsert_job_history(&conn, &job).unwrap();
    let loaded = load_job_history(&conn).unwrap();

    assert_eq!(loaded, vec![job]);
}

#[test]
fn job_history_comes_in_the_order_of_its_numbers() {
    let conn = in_memory_db();
    for id in ["J10", "J9", "J100"] {
        upsert_job_history(&conn, &done_job(id, None, None)).unwrap();
    }
    let ids = load_job_history(&conn)
        .unwrap()
        .into_iter()
        .map(|job| job.id)
        .collect::<Vec<_>>();
    assert_eq!(ids, vec!["J9", "J10", "J100"]);
}

#[test]
fn load_job_history_rejects_invalid_ids() {
    let conn = in_memory_db();
    conn.execute(
        "INSERT INTO jobs_history (id, pipeline, status)
         VALUES ('not-a-job', 'echo bad', '\"Done\"')",
        [],
    )
    .unwrap();

    let error = load_job_history(&conn).unwrap_err();

    assert!(error.to_string().contains("invalid job history id"));
}

#[test]
fn load_job_history_rejects_unknown_status() {
    let conn = in_memory_db();
    conn.execute(
        "INSERT INTO jobs_history (id, pipeline, status) VALUES ('J1', 'echo bad', 'Done')",
        [],
    )
    .unwrap();

    assert_eq!(
        load_job_history(&conn).unwrap_err().to_string(),
        "unknown job status encoding: Done"
    );
}

#[test]
fn prune_job_history_rejects_invalid_ids_without_deleting_valid_rows() {
    let conn = in_memory_db();
    for id in ["J1", "bad-job"] {
        conn.execute(
            "INSERT INTO jobs_history (id, pipeline, status) VALUES (?1, 'echo', '\"Done\"')",
            (id,),
        )
        .unwrap();
    }

    let error = prune_job_history(&conn, 0).unwrap_err();

    assert!(error.to_string().contains("invalid job history id"));
    assert_eq!(
        count(&conn, "SELECT COUNT(*) FROM jobs_history WHERE id = 'J1'"),
        1
    );
}

#[test]
fn prune_job_history_keeps_active_jobs_when_over_limit() {
    let conn = in_memory_db();
    let mut running = done_job("J1", None, None);
    running.pipeline = "sleep 60".into();
    running.status = job("\"Running\"");
    running.exit_code = None;
    for job in [running, done_job("J2", None, None), done_job("J3", None, None)] {
        upsert_job_history(&conn, &job).unwrap();
    }

    let removed = prune_job_history(&conn, 1).unwrap();

    assert_eq!(removed, vec!["J2"]);
    let remaining = load_job_history(&conn)
        .unwrap()
        .into_iter()
        .map(|job| (job.id, job.status))
        .collect::<Vec<_>>();
    assert_eq!(
        remaining,
        vec![
            ("J1".into(), job("\"Running\"")),
            ("J3".into(), job("\"Done\""))
        ]
    );
}

#[test]
fn pruning_keeps_the_newest_finished_entries() {
    let entry = |id: &str, number: u32, finished: bool| HistoryEntry {
        id: id.into(),
        number,
        finished,
    };
    let entries = vec![
        entry("J10", 10, true),
        entry("J2", 2, true),
        entry("J1", 1, false),
        entry("J7", 7, true),
    ];
    assert_eq!(prune(entries.clone(), 1), vec!["J2", "J7"]);
    assert_eq!(prune(entries.clone(), 0), vec!["J2", "J7", "J10"]);
    assert!(prune(entries, 3).is_empty());
}

#[test]
fn cron_roundtrip() {
    let conn = in_memory_db();
    let scope_hash = insert_safe_scope(&conn, "/tmp/cron");
    let cron = StoredCron {
        id: "C3".into(),
        session_id: None,
        schedule: "every 5m".into(),
        command: "cargo test".into(),
        status: cron("\"scheduled\""),
        scope_hash: Some(scope_hash),
        cwd_override: Some("/tmp/cue-cron-cwd".into()),
        scope_enabled: true,
        wrapper_enabled: true,
    };

    upsert_cron(&conn, &cron).unwrap();
    let loaded = load_crons(&conn).unwrap();

    assert_eq!(loaded.len(), 1);
    assert_eq!(loaded[0].record, cron);
}

#[test]
fn failed_cron_status_roundtrips() {
    let conn = in_memory_db();
    let scope_hash = insert_safe_scope(&conn, "/tmp/failed-cron");
    let mut stored = scheduled_cron("C4", Some(scope_hash), false);
    stored.schedule = "in 1s".into();
    stored.command = "echo due".into();
    stored.status = cron("\"failed\"");

    upsert_cron(&conn, &stored).unwrap();
    let loaded = load_crons(&conn).unwrap();

    assert_eq!(loaded.len(), 1);
    assert_eq!(loaded[0].record.status, cron("\"failed\""));
    assert_eq!(count(&conn, "SELECT enabled FROM crons WHERE id = 'C4'"), 0);
}

#[test]
fn cron_load_preserves_millisecond_age() {
    let conn = in_memory_db();
    let scope_hash = insert_safe_scope(&conn, "/tmp/elapsed-cron");
    let mut stored = scheduled_cron("C7", Some(scope_hash), false);
    stored.schedule = "in 1500ms".into();
    upsert_cron(&conn, &stored).unwrap();
    conn.execute(
        &format!(
            "UPDATE crons SET created_at_ms = {CRON_CREATED_AT_MS_EXPR} - 1500 WHERE id = 'C7'"
        ),
        [],
    )
    .unwrap();

    let loaded = load_crons(&conn).unwrap();

    assert_eq!(loaded.len(), 1);
    assert!(loaded[0].elapsed >= 1500);
    assert!(loaded[0].elapsed < 3000);
}

#[test]
fn rewritten_cron_keeps_its_age() {
    let conn = in_memory_db();
    let mut stored = scheduled_cron("C7", None, false);
    upsert_cron(&conn, &stored).unwrap();
    upsert_cron(&conn, &scheduled_cron("C8", None, false)).unwrap();
    conn.execute(
        "UPDATE crons SET created_at_ms = 1500 WHERE id = 'C7'",
        [],
    )
    .unwrap();

    stored.command = "echo again".into();
    stored.schedule = "every 1h".into();
    upsert_cron(&conn, &stored).unwrap();

    assert_eq!(
        count(&conn, "SELECT created_at_ms FROM crons WHERE id = 'C7'"),
        1500
    );
    assert_eq!(count(&conn, "SELECT COUNT(*) FROM crons"), 2);
    let loaded = load_crons(&conn).unwrap();
    assert_eq!(loaded[0].record, stored);
    assert_eq!(loaded[1].record, scheduled_cron("C8", None, false));
    assert!(loaded[0].elapsed > loaded[1].elapsed);
}

#[test]
fn rewritten_session_keeps_its_creation_time() {
    let conn = in_memory_db();
    let first = StoredSession {
        id: "S1".into(),
        name: "first".into(),
        scope_hash: None,
        pty_default: Some(true),
        wrapper_enabled: None,
        created_at_ms: 10,
        updated_at_ms: 20,
        archived_at_ms: None,
    };
    let other = StoredSession {
        id: "S2".into(),
        name: "other".into(),
        created_at_ms: 11,
        ..first.clone()
    };
    upsert_session(&conn, &first).unwrap();
    upsert_session(&conn, &other).unwrap();

    let again = StoredSession {
        name: "renamed".into(),
        pty_default: None,
        wrapper_enabled: Some(false),
        created_at_ms: 90,
        updated_at_ms: 91,
        archived_at_ms: Some(92),
        ..first.clone()
    };
    upsert_session(&conn, &again).unwrap();
    let kept = StoredSession {
        created_at_ms: 10,
        ..again.clone()
    };
    assert_eq!(load_sessions(&conn).unwrap(), vec![kept.clone(), other.clone()]);

    set_session_archived_at(&conn, "S1", None, 93).unwrap();
    let restored = StoredSession {
        updated_at_ms: 93,
        archived_at_ms: None,
        ..kept
    };
    assert_eq!(load_sessions(&conn).unwrap(), vec![restored.clone(), other.clone()]);

    let taken = StoredSession {
        name: "other".into(),
        ..again
    };
    assert!(upsert_session(&conn, &taken).is_err());
    assert_eq!(load_sessions(&conn).unwrap(), vec![restored, other]);
}

#[test]
fn cron_load_rejects_creation_in_the_future() {
    let conn = in_memory_db();
    upsert_cron(&conn, &scheduled_cron("C7", None, false)).unwrap();
    conn.execute(
        &format!("UPDATE crons SET created_at_ms = {CRON_CREATED_AT_MS_EXPR} + 60000"),
        [],
    )
    .unwrap();
    let error = load_crons(&conn).unwrap_err().to_string();
    assert!(error.contains("load cron elapsed age"), "{error}");
    assert_eq!(crons::duration_from_nonnegative_millis(1500), Ok(1500));
    assert!(crons::duration_from_nonnegative_millis(-1).is_err());
}

#[test]
fn cron_load_rejects_invalid_status_text() {
    let conn = in_memory_db();
    conn.execute(
        &format!(
            "INSERT INTO crons (id, schedule, command, enabled, scope_hash, status, created_at_ms)
             VALUES ('C6', 'every 5m', 'echo invalid', 1, ?1, 'unknown', {CRON_CREATED_AT_MS_EXPR})"
        ),
        (vec![6u8; 32],),
    )
    .unwrap();

    let error = load_crons(&conn).unwrap_err();

    assert!(error.to_string().contains("parse cron C6 status"));
}

#[test]
fn load_crons_rejects_invalid_ids() {
    let conn = in_memory_db();
    conn.execute(
        &format!(
            "INSERT INTO crons (id, schedule, command, enabled, scope_hash, status, created_at_ms)
             VALUES ('not-a-cron', 'every 5m', 'echo invalid', 1, ?1, '\"scheduled\"', {CRON_CREATED_AT_MS_EXPR})"
        ),
        (vec![6u8; 32],),
    )
    .unwrap();

    let error = load_crons(&conn).unwrap_err();

    assert!(error.to_string().contains("invalid cron id"));
}

#[test]
fn script_run_upsert_rolls_back_when_items_cannot_be_written() {
    let conn = in_memory_db();
    let mut original = script("R1", StoredScriptRunStatus::Submitted, None);
    original.input = "echo old".into();
    let original_items = vec![StoredScriptItem {
        script_id: "R1".into(),
        item_index: 0,
        source_text: "echo old".into(),
        kind: "job".into(),
        target_id: Some("J1".into()),
        chain_id: None,
        job_ids: vec!["J1".into()],
    }];
    upsert_script_run(&conn, &original, &original_items).unwrap();

    conn.execute_batch("DROP TABLE script_items;").unwrap();
    let mut updated = script("R1", StoredScriptRunStatus::PartialError, None);
    updated.input = "echo new".into();
    updated.item_count = 0;
    updated.error_code = Some("INTERNAL".into());
    updated.error_message = Some("write failed".into());

    let error = upsert_script_run(&conn, &updated, &[]).unwrap_err();
    assert!(error.to_string().contains("delete existing script items"));

    let (input, status, item_count, error_code): (String, String, i64, Option<String>) = conn
        .query_row(
            "SELECT input, status, item_count, error_code FROM script_runs WHERE id = 'R1'",
            [],
            |row| Ok((row.get(0)?, row.get(1)?, row.get(2)?, row.get(3)?)),
        )
        .unwrap();
    assert_eq!(input, "echo old");
    assert_eq!(status, "submitted");
    assert_eq!(item_count, 1);
    assert_eq!(error_code, None);
}

fn script_item(script_id: &str, item_index: usize, source_text: &str) -> StoredScriptItem {
    StoredScriptItem {
        script_id: script_id.into(),
        item_index,
        source_text: source_text.into(),
        kind: "job".into(),
        target_id: None,
        chain_id: Some("chain".into()),
        job_ids: vec!["J1".into(), "a\"b".into()],
    }
}

fn script_sources(conn: &Connection, script_id: &str) -> Vec<String> {
    conn.prepare("SELECT source_text FROM script_items WHERE script_id = ?1 ORDER BY item_index")
        .unwrap()
        .query_map([script_id], |row| row.get(0))
        .unwrap()
        .collect::<rusqlite::Result<Vec<String>>>()
        .unwrap()
}

#[test]
fn script_run_upsert_writes_exactly_the_given_items() {
    let conn = in_memory_db();
    let run = script("R1", StoredScriptRunStatus::Submitted, None);
    let other = script("R2", StoredScriptRunStatus::Submitted, None);
    upsert_script_run(&conn, &other, &[script_item("R2", 0, "other")]).unwrap();
    upsert_script_run(
        &conn,
        &run,
        &[script_item("R1", 0, "first"), script_item("R1", 1, "second")],
    )
    .unwrap();
    assert_eq!(script_sources(&conn, "R1"), ["first", "second"]);

    upsert_script_run(&conn, &run, &[script_item("R1", 3, "third")]).unwrap();
    assert_eq!(script_sources(&conn, "R1"), ["third"]);
    assert_eq!(script_sources(&conn, "R2"), ["other"]);

    let twice = [script_item("R1", 0, "a"), script_item("R1", 0, "b")];
    let error = upsert_script_run(&conn, &run, &twice).unwrap_err();
    assert!(error.to_string().contains("insert script item"));
    assert_eq!(script_sources(&conn, "R1"), ["third"]);
    assert_eq!(count(&conn, "SELECT COUNT(*) FROM script_runs"), 2);
}

#[test]
fn script_item_rows_hold_their_job_ids_as_json() {
    let rows = scripts::script_item_rows(vec![script_item("R1", 4, "echo")]);
    assert_eq!(rows.len(), 1);
    assert_eq!(rows[0].script_id, "R1");
    assert_eq!(rows[0].item_index, 4);
    assert_eq!(rows[0].source_text, "echo");
    assert_eq!(rows[0].kind, "job");
    assert_eq!(rows[0].target_id, None);
    assert_eq!(rows[0].chain_id.as_deref(), Some("chain"));
    assert_eq!(rows[0].job_ids_json, r#"["J1","a\"b"]"#);
}

#[test]
fn script_run_terminal_state_persists_exit_and_failed_item() {
    let conn = in_memory_db();
    let mut run = script("R2", StoredScriptRunStatus::Failed, Some(7));
    run.input = "false".into();
    run.failed_item_index = Some(0);
    let items = vec![StoredScriptItem {
        script_id: "R2".into(),
        item_index: 0,
        source_text: "false".into(),
        kind: "job".into(),
        target_id: Some("J2".into()),
        chain_id: None,
        job_ids: vec!["J2".into()],
    }];

    upsert_script_run(&conn, &run, &items).unwrap();

    let (status, exit_code, failed_item_index, finished_at): (
        String,
        Option<i32>,
        Option<i64>,
        Option<String>,
    ) = conn
        .query_row(
            "SELECT status, exit_code, failed_item_index, finished_at
             FROM script_runs WHERE id = 'R2'",
            [],
            |row| Ok((row.get(0)?, row.get(1)?, row.get(2)?, row.get(3)?)),
        )
        .unwrap();
    assert_eq!(status, "failed");
    assert_eq!(exit_code, Some(7));
    assert_eq!(failed_item_index, Some(0));
    assert!(finished_at.is_some());
}

#[test]
fn script_run_statuses_are_read_back() {
    for status in [
        StoredScriptRunStatus::Submitted,
        StoredScriptRunStatus::PartialError,
        StoredScriptRunStatus::Done,
        StoredScriptRunStatus::Failed,
    ] {
        assert_eq!(parse_script_run_status(status.as_str()), Ok(status));
    }
    assert_eq!(
        parse_script_run_status("\"done\""),
        Ok(StoredScriptRunStatus::Done)
    );
    assert_eq!(
        parse_script_run_status("\"lost\""),
        Err("unknown script run status \"lost\"".to_string())
    );
    assert!(!StoredScriptRunStatus::PartialError.is_terminal());
    assert!(StoredScriptRunStatus::Failed.is_terminal());
}

#[test]
fn max_script_run_id_rejects_invalid_ids() {
    let conn = in_memory_db();
    conn.execute(
        "INSERT INTO script_runs (id, mode, input, status, item_count)
         VALUES ('not-a-script', 'job', 'echo bad', 'submitted', 1)",
        [],
    )
    .unwrap();

    let error = max_script_run_id(&conn).unwrap_err();

    assert!(error.to_string().contains("invalid script run id"));
}

#[test]
fn max_script_run_id_is_the_greatest_number() {
    let conn = in_memory_db();
    assert_eq!(max_script_run_id(&conn).unwrap(), None);
    for id in ["R2", "R10", "R9"] {
        upsert_script_run(&conn, &script(id, StoredScriptRunStatus::Done, Some(0)), &[]).unwrap();
    }
    assert_eq!(max_script_run_id(&conn).unwrap(), Some(10));
}

#[test]
fn prune_script_runs_rejects_invalid_ids_without_deleting_valid_rows() {
    let conn = in_memory_db();
    for id in ["R1", "bad-script"] {
        conn.execute(
            "INSERT INTO script_runs (id, mode, input, status, item_count)
             VALUES (?1, 'job', 'echo', 'submitted', 1)",
            (id,),
        )
        .unwrap();
    }

    let error = prune_script_runs(&conn, 0).unwrap_err();

    assert!(error.to_string().contains("invalid script run id"));
    assert_eq!(
        count(&conn, "SELECT COUNT(*) FROM script_runs WHERE id = 'R1'"),
        1
    );
}

#[test]
fn prune_script_runs_keeps_active_runs_when_over_limit() {
    let conn = in_memory_db();
    let mut failed = script("R3", StoredScriptRunStatus::Failed, Some(7));
    failed.failed_item_index = Some(0);
    for script in [
        script("R1", StoredScriptRunStatus::Submitted, None),
        script("R2", StoredScriptRunStatus::Done, Some(0)),
        failed,
    ] {
        upsert_script_run(&conn, &script, &[]).unwrap();
    }

    let removed = prune_script_runs(&conn, 1).unwrap();

    assert_eq!(removed, vec!["R2"]);
    let mut remaining = script_records(&conn)
        .unwrap()
        .into_iter()
        .map(|record| (record.id, record.status))
        .collect::<Vec<_>>();
    remaining.sort();
    assert_eq!(
        remaining,
        vec![
            ("R1".into(), "submitted".into()),
            ("R3".into(), "failed".into())
        ]
    );
}

#[test]
fn job_stderr_persistence_roundtrip() {
    let conn = in_memory_db();
    let mut stored = done_job("J3", None, None);
    stored.pipeline = "echo oops 1>&2".into();
    stored.status = job("\"Failed\"");
    stored.exit_code = Some(1);
    stored.stderr = "error: something went wrong\n".into();

    upsert_job_history(&conn, &stored).unwrap();
    let loaded = load_job_history(&conn).unwrap();

    assert_eq!(loaded.len(), 1);
    assert_eq!(loaded[0].id, "J3");
    assert_eq!(loaded[0].stderr, "error: something went wrong\n");
}

#[test]
fn job_stderr_defaults_to_empty_when_omitted() {
    let conn = in_memory_db();
    conn.execute(
        "INSERT INTO jobs_history (id, pipeline, status) VALUES ('J1', 'echo hi', '\"Done\"')",
        [],
    )
    .unwrap();

    let loaded = load_job_history(&conn).unwrap();
    assert_eq!(loaded.len(), 1);
    assert_eq!(loaded[0].stderr, "");
}
