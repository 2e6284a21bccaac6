//! The stored named sessions.
use crate::digest::Digest;
use crate::storage::crons;
use crate::storage::crons::stored_flag;
use crate::storage::scopes;
use crate::storage::scopes::{durable_scope_reference, optional_scope_hash};
use crate::text::join3;
use vstd::prelude::*;

verus! {

#[derive(Clone, PartialEq, Eq, Debug)]
pub struct StoredSession {
    pub id: String,
    pub name: String,
    /// Durable scope cursor. A scope that is in memory only is not stored.
    pub scope_hash: Option<Digest>,
    /// `None` inherits the daemon default.
    pub pty_default: Option<bool>,
    /// `None` inherits the daemon default.
    pub wrapper_enabled: Option<bool>,
    pub created_at_ms: i64,
    pub updated_at_ms: i64,
    pub archived_at_ms: Option<i64>,
}

/// A session as its row holds it.
#[derive(Clone, PartialEq, Eq, Debug)]
pub struct SessionRow {
    pub id: String,
    pub name: String,
    pub scope_hash: Option<Vec<u8>>,
    pub pty_default: Option<i64>,
    pub wrapper_enabled: Option<i64>,
    pub created_at_ms: i64,
    pub updated_at_ms: i64,
    pub archived_at_ms: Option<i64>,
}

/// The statement that writes a session. Its parameters are the fields of the row in their order. A
/// session that is stored already keeps the time of its creation.
pub const UPSERT_SESSION: &'static str = "INSERT INTO sessions (
             id, name, scope_hash, pty_default, wrapper_enabled, created_at_ms, updated_at_ms,
             archived_at_ms
         )
         VALUES (?1, ?2, ?3, ?4, ?5, ?6, ?7, ?8)
         ON CONFLICT(id) DO UPDATE SET
              name = excluded.name,
              scope_hash = excluded.scope_hash,
              pty_default = excluded.pty_default,
              wrapper_enabled = excluded.wrapper_enabled,
              updated_at_ms = excluded.updated_at_ms,
              archived_at_ms = excluded.archived_at_ms";

/// The statement that changes the archive time of a session, by its id, that time and the time of
/// the change.
pub const ARCHIVE_SESSION: &'static str = "UPDATE sessions
         SET archived_at_ms = ?2, updated_at_ms = ?3
         WHERE id = ?1";

/// The statement and the row that are to be written, and whether the row names the scope that was
/// asked for.
#[derive(Clone, PartialEq, Eq, Debug)]
pub struct SessionUpsert {
    pub sql: &'static str,
    pub row: SessionRow,
    pub stored_scope: bool,
}

/// Another stored session has the name of a row.
pub open spec fn name_is_taken(table: Map<Seq<char>, SessionRow>, row: SessionRow) -> bool {
    exists|id: Seq<char>|
        id != row.id@ && #[trigger] table.contains_key(id) && table[id].name@ == row.name@
}

/// No two stored sessions have one name.
pub open spec fn names_are_distinct(table: Map<Seq<char>, SessionRow>) -> bool {
    forall|a: Seq<char>, b: Seq<char>|
        #[trigger] table.contains_key(a) && #[trigger] table.contains_key(b) && table[a].name@
            == table[b].name@ ==> a == b
}

/// The stored sessions, by their ids, after [`UPSERT_SESSION`] was run with a row: a row that was
/// there keeps the time of its creation, and has everything else from the new one. A name that
/// another session has is refused, and nothing changes.
pub open spec fn after_upsert(
    table: Map<Seq<char>, SessionRow>,
    row: SessionRow,
) -> Map<Seq<char>, SessionRow> {
    if name_is_taken(table, row) {
        table
    } else {
        table.insert(
            row.id@,
            if table.contains_key(row.id@) {
                SessionRow { created_at_ms: table[row.id@].created_at_ms, ..row }
            } else {
                row
            },
        )
    }
}

/// The stored sessions after [`ARCHIVE_SESSION`] changed the archive time of one.
pub open spec fn after_archive(
    table: Map<Seq<char>, SessionRow>,
    id: Seq<char>,
    archived_at_ms: Option<i64>,
    updated_at_ms: i64,
) -> Map<Seq<char>, SessionRow> {
    if table.contains_key(id) {
        table.insert(id, SessionRow { archived_at_ms, updated_at_ms, ..table[id] })
    } else {
        table
    }
}

/// An optional flag as it is stored.
pub open spec fn optional_flag_number(flag: Option<bool>) -> Option<i64> {
    match flag {
        Some(flag) => Some(crons::flag_number(flag)),
        None => None,
    }
}

fn stored_optional_flag(flag: Option<bool>) -> (number: Option<i64>)
    ensures
        number == optional_flag_number(flag),
{
    match flag {
        Some(flag) => Some(stored_flag(flag)),
        None => None,
    }
}

/// The flag that a stored number stands for.
pub open spec fn flag_of(number: Option<i64>) -> Option<bool> {
    match number {
        Some(number) => Some(number != 0),
        None => None,
    }
}

fn read_flag(number: Option<i64>) -> (flag: Option<bool>)
    ensures
        flag == flag_of(number),
{
    match number {
        Some(number) => Some(number != 0),
        None => None,
    }
}

/// The row that stands for a session.
pub open spec fn stores_session(row: SessionRow, session: StoredSession, persisted: bool) -> bool {
    &&& row.id == session.id
    &&& row.name == session.name
    &&& scopes::is_durable_reference(row.scope_hash, session.scope_hash, persisted)
    &&& row.pty_default == optional_flag_number(session.pty_default)
    &&& row.wrapper_enabled == optional_flag_number(session.wrapper_enabled)
    &&& row.created_at_ms == session.created_at_ms
    &&& row.updated_at_ms == session.updated_at_ms
    &&& row.archived_at_ms == session.archived_at_ms
}

/// The row of a session and the statement that writes it. `persisted` says whether the scope that it names, if it names one, is
/// stored. A scope that is missing and one that is in memory only are both left out, so the name
/// is kept without the environment.
pub fn upsert_session(session: StoredSession, persisted: bool) -> (upsert: SessionUpsert)
    ensures
        upsert.sql == UPSERT_SESSION,
        stores_session(upsert.row, session, persisted),
        upsert.stored_scope == (session.scope_hash is Some && persisted),
{
    let scope_hash = durable_scope_reference(session.scope_hash, persisted);
    let stored_scope = scope_hash.is_some();
    SessionUpsert {
        sql: UPSERT_SESSION,
        row: SessionRow {
            id: session.id,
            name: session.name,
            scope_hash,
            pty_default: stored_optional_flag(session.pty_default),
            wrapper_enabled: stored_optional_flag(session.wrapper_enabled),
            created_at_ms: session.created_at_ms,
            updated_at_ms: session.updated_at_ms,
            archived_at_ms: session.archived_at_ms,
        },
        stored_scope,
    }
}

/// What became of a change of a session's archive time, by the number of rows that it changed.
pub fn set_session_archived_at(id: &str, changed: usize) -> (result: Result<(), String>)
    ensures
        match result {
            Ok(()) => changed == 1,
            Err(message) => changed != 1 && message@ == "named session "@ + id@
                + " is missing from storage"@,
        },
{
    if changed != 1 {
        return Err(join3("named session ", id, " is missing from storage"));
    }
    Ok(())
}

/// The session that a row stands for.
pub open spec fn session_of(row: SessionRow) -> StoredSession {
    StoredSession {
        id: row.id,
        name: row.name,
        scope_hash: scopes::stored_hash(row.scope_hash),
        pty_default: flag_of(row.pty_default),
        wrapper_enabled: flag_of(row.wrapper_enabled),
        created_at_ms: row.created_at_ms,
        updated_at_ms: row.updated_at_ms,
        archived_at_ms: row.archived_at_ms,
    }
}

/// Why the first of the first `n` rows that cannot be read cannot.
pub open spec fn first_session_fault(rows: Seq<SessionRow>, n: int) -> Option<Seq<char>>
    decreases n,
{
    if n <= 0 || n > rows.len() {
        None
    } else if first_session_fault(rows, n - 1) is Some {
        first_session_fault(rows, n - 1)
    } else {
        scopes::optional_hash_fault(rows[n - 1].scope_hash)
    }
}

proof fn lemma_first_session_fault(rows: Seq<SessionRow>, from: int, to: int)
    requires
        0 <= from <= to <= rows.len(),
        first_session_fault(rows, from) is Some,
    ensures
        first_session_fault(rows, to) == first_session_fault(rows, from),
    decreases to - from,
{
    if from < to {
        lemma_first_session_fault(rows, from, to - 1);
    }
}

fn read_session(row: SessionRow) -> (result: Option<StoredSession>)
    requires
        scopes::optional_hash_fault(row.scope_hash) is None,
    ensures
        result == Some(session_of(row)),
{
    let scope_hash = match optional_scope_hash(&row.scope_hash) {
        Ok(scope) => scope,
        Err(_) => return None,
    };
    Some(
        StoredSession {
            id: row.id,
            name: row.name,
            scope_hash,
            pty_default: read_flag(row.pty_default),
            wrapper_enabled: read_flag(row.wrapper_enabled),
            created_at_ms: row.created_at_ms,
            updated_at_ms: row.updated_at_ms,
            archived_at_ms: row.archived_at_ms,
        },
    )
}

/// Reads the sessions, in the order in which their rows come.
pub fn load_sessions(rows: Vec<SessionRow>) -> (result: Result<Vec<StoredSession>, String>)
    ensures
        match result {
            Ok(sessions) => {
                &&& first_session_fault(rows@, rows@.len() as int) is None
                &&& sessions@ == rows@.map_values(|row: SessionRow| session_of(row))
            },
            Err(message) => first_session_fault(rows@, rows@.len() as int) == Some(message@),
        },
{
    for i in 0..rows.len()
        invariant
            first_session_fault(rows@, i as int) is None,
            forall|j: int|
                0 <= j < i ==> scopes::optional_hash_fault((#[trigger] rows@[j]).scope_hash) is None,
    {
        if let Err(message) = optional_scope_hash(&rows[i].scope_hash) {
            proof {
                lemma_first_session_fault(rows@, i + 1, rows@.len() as int);
            }
            return Err(message);
        }
    }
    let ghost all = rows@;
    let ghost read = all.map_values(|row: SessionRow| session_of(row));
    let mut left = rows;
    let mut sessions: Vec<StoredSession> = Vec::new();
    assert(sessions@ =~= read.skip(all.len() as int));
    while left.len() > 0
        invariant
            read == all.map_values(|row: SessionRow| session_of(row)),
            left@.len() <= all.len(),
            left@ == all.take(left@.len() as int),
            forall|j: int|
                0 <= j < all.len() ==> scopes::optional_hash_fault(
                    (#[trigger] all[j]).scope_hash,
                ) is None,
            sessions@ == read.skip(left@.len() as int),
        decreases left@.len(),
    {
        if let Some(row) = left.pop() {
            let ghost at = left@.len() as int;
            assert(row == all[at]);
            if let Some(session) = read_session(row) {
                let ghost before = sessions@;
                sessions.insert(0, session);
                assert(sessions@ =~= read.skip(at));
            }
            assert(left@ =~= all.take(at));
        }
    }
    assert(read.skip(0) =~= read);
    Ok(sessions)
}

/// A session that is stored is read back as it was, but for a scope that is in memory only, which
/// it forgets.
pub proof fn stored_session_is_read_back(row: SessionRow, session: StoredSession, persisted: bool)
    requires
        stores_session(row, session, persisted),
    ensures
        scopes::optional_hash_fault(row.scope_hash) is None,
        session_of(row) == (StoredSession {
            scope_hash: if persisted {
                session.scope_hash
            } else {
                None
            },
            ..session
        }),
{
    scopes::durable_reference_is_read_back(row.scope_hash, session.scope_hash, persisted);
}

/// Writing a session under a name that is free leaves one row for it. A session that was stored
/// keeps the time of its creation; a new one has its own. Everything else is as given, and other
/// sessions stay as they were.
pub proof fn stored_session_keeps_its_creation_time(
    table: Map<Seq<char>, SessionRow>,
    session: StoredSession,
    persisted: bool,
    row: SessionRow,
)
    requires
        stores_session(row, session, persisted),
        !name_is_taken(table, row),
    ensures
        ({
            let after = after_upsert(table, row);
            let id = session.id@;
            let created_at_ms = if table.contains_key(id) {
                table[id].created_at_ms
            } else {
                session.created_at_ms
            };
            &&& after.dom() == table.dom().insert(id)
            &&& after[id].created_at_ms == created_at_ms
            &&& stores_session(after[id], StoredSession { created_at_ms, ..session }, persisted)
            &&& forall|other: Seq<char>|
                other != id && table.contains_key(other) ==> #[trigger] after[other]
                    == table[other]
        }),
{
    assert(after_upsert(table, row).dom() =~= table.dom().insert(session.id@));
}

/// Writing sessions and changing their archive times keeps their names distinct.
pub proof fn session_names_stay_distinct(
    table: Map<Seq<char>, SessionRow>,
    row: SessionRow,
    id: Seq<char>,
    archived_at_ms: Option<i64>,
    updated_at_ms: i64,
)
    requires
        names_are_distinct(table),
    ensures
        names_are_distinct(after_upsert(table, row)),
        names_are_distinct(after_archive(table, id, archived_at_ms, updated_at_ms)),
{
    let written = after_upsert(table, row);
    assert forall|a: Seq<char>, b: Seq<char>|
        #[trigger] written.contains_key(a) && #[trigger] written.contains_key(b)
            && written[a].name@ == written[b].name@ implies a == b by {
        if a != b && !name_is_taken(table, row) {
            if a == row.id@ {
                assert(table.contains_key(b));
            } else if b == row.id@ {
                assert(table.contains_key(a));
            } else {
                assert(table.contains_key(a) && table.contains_key(b));
            }
        }
    }
    let archived = after_archive(table, id, archived_at_ms, updated_at_ms);
    assert forall|a: Seq<char>, b: Seq<char>|
        #[trigger] archived.contains_key(a) && #[trigger] archived.contains_key(b)
            && archived[a].name@ == archived[b].name@ implies a == b by {
        assert(table.contains_key(a) && table.contains_key(b));
    }
}

/// Archiving a session, or taking it back, changes nothing of it but the archive time and the time
/// of the change, and nothing of other sessions.
pub proof fn archiving_keeps_the_session(
    table: Map<Seq<char>, SessionRow>,
    id: Seq<char>,
    archived_at_ms: Option<i64>,
    updated_at_ms: i64,
    other: Seq<char>,
)
    ensures
        ({
            let after = after_archive(table, id, archived_at_ms, updated_at_ms);
            &&& after.dom() == table.dom()
            &&& table.contains_key(id) ==> session_of(after[id]) == (StoredSession {
                archived_at_ms,
                updated_at_ms,
                ..session_of(table[id])
            })
            &&& other != id && table.contains_key(other) ==> after[other] == table[other]
        }),
{
    assert(after_archive(table, id, archived_at_ms, updated_at_ms).dom() =~= table.dom());
}

proof fn lemma_no_session_fault(rows: Seq<SessionRow>, n: int)
    requires
        0 <= n <= rows.len(),
    ensures
        first_session_fault(rows, n) is None <==> forall|i: int|
            0 <= i < n ==> scopes::optional_hash_fault((#[trigger] rows[i]).scope_hash) is None,
    decreases n,
{
    if n > 0 {
        lemma_no_session_fault(rows, n - 1);
        if first_session_fault(rows, n) is None {
            assert(scopes::optional_hash_fault(rows[n - 1].scope_hash) is None);
        }
    }
}

/// A session goes into its row field by field. The row names its scope exactly where that is stored, and
/// the writer is told so.
pub proof fn session_is_written_field_by_field(
    session: StoredSession,
    persisted: bool,
    upsert: SessionUpsert,
)
    requires
        call_ensures(upsert_session, (session, persisted), upsert),
    ensures
        upsert.row.id == session.id,
        upsert.row.name == session.name,
        upsert.row.created_at_ms == session.created_at_ms,
        upsert.row.updated_at_ms == session.updated_at_ms,
        upsert.row.archived_at_ms == session.archived_at_ms,
        upsert.row.pty_default == match session.pty_default {
            Some(true) => Some(1i64),
            Some(false) => Some(0i64),
            None => None,
        },
        upsert.row.wrapper_enabled == match session.wrapper_enabled {
            Some(true) => Some(1i64),
            Some(false) => Some(0i64),
            None => None,
        },
        upsert.row.scope_hash is Some <==> session.scope_hash is Some && persisted,
        upsert.row.scope_hash matches Some(bytes) ==> bytes@ == session.scope_hash->0.bytes@,
        upsert.stored_scope <==> upsert.row.scope_hash is Some,
{
}

/// A session that was written is loaded at the place of its row, as it was, but for a scope that is not
/// stored, which it forgets.
pub proof fn written_session_is_loaded(
    session: StoredSession,
    persisted: bool,
    upsert: SessionUpsert,
    rows: Vec<SessionRow>,
    i: int,
    sessions: Vec<StoredSession>,
)
    requires
        call_ensures(upsert_session, (session, persisted), upsert),
        0 <= i < rows@.len(),
        rows@[i] == upsert.row,
        call_ensures(load_sessions, (rows,), Ok::<Vec<StoredSession>, String>(sessions)),
    ensures
        sessions@.len() == rows@.len(),
        sessions@[i] == (StoredSession {
            scope_hash: if persisted {
                session.scope_hash
            } else {
                None
            },
            ..session
        }),
{
    stored_session_is_read_back(rows@[i], session, persisted);
}

/// Sessions are refused exactly where one of their rows holds what is no hash.
pub proof fn unreadable_session_refuses_all(
    rows: Vec<SessionRow>,
    result: Result<Vec<StoredSession>, String>,
)
    requires
        call_ensures(load_sessions, (rows,), result),
    ensures
        result is Ok <==> forall|i: int|
            0 <= i < rows@.len() ==> ((#[trigger] rows@[i]).scope_hash matches Some(blob)
                ==> blob@.len() == 32),
{
    lemma_no_session_fault(rows@, rows@.len() as int);
    assert forall|i: int| 0 <= i < rows@.len() implies (scopes::optional_hash_fault(
        (#[trigger] rows@[i]).scope_hash,
    ) is None <==> (rows@[i].scope_hash matches Some(blob) ==> blob@.len() == 32)) by {}
}

/// Archiving a session succeeds exactly where it changed the one row.
pub proof fn archiving_changes_one_row(id: &str, changed: usize, result: Result<(), String>)
    requires
        call_ensures(set_session_archived_at, (id, changed), result),
    ensures
        result is Ok <==> changed == 1,
{
}

} // verus!
