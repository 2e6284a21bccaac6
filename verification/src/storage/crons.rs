//! The stored crons.
use crate::digest::Digest;
use crate::numbering;
use crate::numbering::insert_numbered;
use crate::storage::scopes;
use crate::storage::scopes::{durable_scope_reference, optional_scope_hash};
use crate::text::{join2, join3};
use vstd::prelude::*;

verus! {

/// The status of a cron: how it is stored, and whether a cron that has it runs when it is due.
#[derive(Clone, PartialEq, Eq, Debug)]
pub struct CronStatus {
    pub encoded: String,
    pub runnable: bool,
}

impl CronStatus {
    /// The status of a cron that was paused.
    pub open spec fn is_paused(&self) -> bool {
        self.encoded@ == "\"paused\""@ && !self.runnable
    }

    /// The status of a cron that was paused.
    pub fn paused() -> (status: Self)
        ensures
            status.is_paused(),
    {
        CronStatus { encoded: "\"paused\"".to_owned(), runnable: false }
    }
}

#[derive(Clone, PartialEq, Eq, Debug)]
pub struct StoredCron {
    pub id: String,
    pub session_id: Option<String>,
    pub schedule: String,
    pub command: String,
    pub status: CronStatus,
    pub scope_hash: Option<Digest>,
    pub cwd_override: Option<String>,
    pub scope_enabled: bool,
    pub wrapper_enabled: bool,
}

/// A cron that was read, with its age.
#[derive(Clone, PartialEq, Eq, Debug)]
pub struct LoadedCron {
    pub record: StoredCron,
    /// How many milliseconds ago the cron was created.
    pub elapsed: u64,
}

/// A cron as its row holds it.
#[derive(Clone, PartialEq, Eq, Debug)]
pub struct CronRow {
    pub id: String,
    pub session_id: Option<String>,
    pub schedule: String,
    pub command: String,
    pub enabled: i64,
    pub scope_hash: Option<Vec<u8>>,
    pub status: String,
    pub cwd_override: Option<String>,
    pub scope_enabled: i64,
    pub wrapper_enabled: i64,
}

/// The statement that writes a cron. Its parameters are the fields of the row in their order. A new
/// cron gets the time of writing as the time of its creation; one that is stored already keeps its
/// own.
pub const UPSERT_CRON: &'static str = "INSERT INTO crons (id, session_id, schedule, command, enabled, scope_hash, status, cwd_override, scope_enabled, wrapper_enabled, created_at_ms)
         VALUES (?1, ?2, ?3, ?4, ?5, ?6, ?7, ?8, ?9, ?10, CAST((julianday('now') - 2440587.5) * 86400000 AS INTEGER))
         ON CONFLICT(id) DO UPDATE SET
              session_id = excluded.session_id,
              schedule = excluded.schedule,
              command = excluded.command,
              enabled = excluded.enabled,
              scope_hash = excluded.scope_hash,
              status = excluded.status,
              cwd_override = excluded.cwd_override,
              scope_enabled = excluded.scope_enabled,
              wrapper_enabled = excluded.wrapper_enabled";

/// The statement and the row that are to be written.
#[derive(Clone, PartialEq, Eq, Debug)]
pub struct CronUpsert {
    pub sql: &'static str,
    pub row: CronRow,
}

/// A stored cron with the time of its creation.
pub struct StoredCronRow {
    pub row: CronRow,
    pub created_at_ms: int,
}

/// The stored crons, by their ids, after [`UPSERT_CRON`] wrote a row at a time: a row that was there
/// keeps the time of its creation, and has everything else from the new one.
pub open spec fn after_upsert(
    table: Map<Seq<char>, StoredCronRow>,
    row: CronRow,
    now: int,
) -> Map<Seq<char>, StoredCronRow> {
    table.insert(
        row.id@,
        StoredCronRow {
            row,
            created_at_ms: if table.contains_key(row.id@) {
                table[row.id@].created_at_ms
            } else {
                now
            },
        },
    )
}

/// A flag as it is stored.
pub open spec fn flag_number(flag: bool) -> i64 {
    if flag {
        1
    } else {
        0
    }
}

/// A flag as it is stored.
pub fn stored_flag(flag: bool) -> (number: i64)
    ensures
        number == flag_number(flag),
{
    if flag {
        1
    } else {
        0
    }
}

/// The row that stands for a cron. One whose scope is in memory only loses it and is paused.
pub open spec fn stores_cron(row: CronRow, cron: StoredCron, persisted: bool) -> bool {
    let volatile = cron.scope_hash is Some && !persisted;
    &&& row.id == cron.id
    &&& row.session_id == cron.session_id
    &&& row.schedule == cron.schedule
    &&& row.command == cron.command
    &&& scopes::is_durable_reference(row.scope_hash, cron.scope_hash, persisted)
    &&& if volatile {
        row.status@ == "\"paused\""@ && row.enabled == 0
    } else {
        row.status == cron.status.encoded && row.enabled == flag_number(cron.status.runnable)
    }
    &&& row.cwd_override == cron.cwd_override
    &&& row.scope_enabled == flag_number(cron.scope_enabled)
    &&& row.wrapper_enabled == flag_number(cron.wrapper_enabled)
}

/// The row of a cron and the statement that writes it. `persisted` says whether the scope that the
/// cron names, if it names one, is stored.
pub fn upsert_cron(cron: StoredCron, persisted: bool) -> (upsert: CronUpsert)
    ensures
        upsert.sql == UPSERT_CRON,
        stores_cron(upsert.row, cron, persisted),
{
    let volatile = cron.scope_hash.is_some() && !persisted;
    let scope_hash = durable_scope_reference(cron.scope_hash, persisted);
    let status = if volatile {
        CronStatus::paused()
    } else {
        cron.status
    };
    let row = CronRow {
        id: cron.id,
        session_id: cron.session_id,
        schedule: cron.schedule,
        command: cron.command,
        enabled: stored_flag(status.runnable),
        scope_hash,
        status: status.encoded,
        cwd_override: cron.cwd_override,
        scope_enabled: stored_flag(cron.scope_enabled),
        wrapper_enabled: stored_flag(cron.wrapper_enabled),
    };
    CronUpsert { sql: UPSERT_CRON, row }
}

/// A row that was read, with the number of its id and its status, where they could be decoded, and
/// the milliseconds since the cron was created.
#[derive(Clone, PartialEq, Eq, Debug)]
pub struct CronRecord {
    pub row: CronRow,
    pub number: Option<u32>,
    pub status: Option<CronStatus>,
    pub age_millis: i64,
}

/// An age that is not negative, in milliseconds.
pub fn duration_from_nonnegative_millis(millis: i64) -> (result: Result<u64, String>)
    ensures
        match result {
            Ok(age) => millis >= 0 && age == millis,
            Err(message) => millis < 0 && message@ == "cron created_at is in the future"@,
        },
{
    if millis < 0 {
        Err("cron created_at is in the future".to_owned())
    } else {
        Ok(millis as u64)
    }
}

/// Why a row cannot be read.
pub open spec fn cron_fault(record: CronRecord) -> Option<Seq<char>> {
    if record.number is None {
        Some("invalid cron id "@ + record.row.id@)
    } else if record.status is None {
        Some("parse cron "@ + record.row.id@ + " status"@)
    } else if scopes::optional_hash_fault(record.row.scope_hash) is Some {
        scopes::optional_hash_fault(record.row.scope_hash)
    } else if record.age_millis < 0 {
        Some("load cron elapsed age"@)
    } else {
        None
    }
}

/// Why the first of the first `n` rows that cannot be read cannot.
pub open spec fn first_cron_fault(records: Seq<CronRecord>, n: int) -> Option<Seq<char>>
    decreases n,
{
    if n <= 0 || n > records.len() {
        None
    } else if first_cron_fault(records, n - 1) is Some {
        first_cron_fault(records, n - 1)
    } else {
        cron_fault(records[n - 1])
    }
}

proof fn lemma_first_cron_fault(records: Seq<CronRecord>, from: int, to: int)
    requires
        0 <= from <= to <= records.len(),
        first_cron_fault(records, from) is Some,
    ensures
        first_cron_fault(records, to) == first_cron_fault(records, from),
    decreases to - from,
{
    if from < to {
        lemma_first_cron_fault(records, from, to - 1);
    }
}

/// The cron that a row stands for.
pub open spec fn cron_of(record: CronRecord) -> LoadedCron {
    LoadedCron {
        record: StoredCron {
            id: record.row.id,
            session_id: record.row.session_id,
            schedule: record.row.schedule,
            command: record.row.command,
            status: record.status->0,
            scope_hash: scopes::stored_hash(record.row.scope_hash),
            cwd_override: record.row.cwd_override,
            scope_enabled: record.row.scope_enabled != 0,
            wrapper_enabled: record.row.wrapper_enabled != 0,
        },
        elapsed: record.age_millis as u64,
    }
}

/// The crons that rows stand for, with their numbers.
pub open spec fn numbered_crons(records: Seq<CronRecord>) -> Seq<(u32, LoadedCron)> {
    records.map_values(|record: CronRecord| (record.number->0, cron_of(record)))
}

fn check_cron(record: &CronRecord) -> (fault: Option<String>)
    ensures
        match fault {
            Some(message) => cron_fault(*record) == Some(message@),
            None => cron_fault(*record) is None,
        },
{
    if record.number.is_none() {
        return Some(join2("invalid cron id ", record.row.id.as_str()));
    }
    if record.status.is_none() {
        return Some(join3("parse cron ", record.row.id.as_str(), " status"));
    }
    if let Err(message) = optional_scope_hash(&record.row.scope_hash) {
        return Some(message);
    }
    if duration_from_nonnegative_millis(record.age_millis).is_err() {
        return Some("load cron elapsed age".to_owned());
    }
    None
}

fn read_cron(record: CronRecord) -> (result: Option<(u32, LoadedCron)>)
    requires
        cron_fault(record) is None,
    ensures
        result == Some((record.number->0, cron_of(record))),
{
    let (number, status) = match (record.number, record.status) {
        (Some(number), Some(status)) => (number, status),
        _ => return None,
    };
    let scope_hash = match optional_scope_hash(&record.row.scope_hash) {
        Ok(scope) => scope,
        Err(_) => return None,
    };
    let elapsed = match duration_from_nonnegative_millis(record.age_millis) {
        Ok(elapsed) => elapsed,
        Err(_) => return None,
    };
    let row = record.row;
    Some(
        (
            number,
            LoadedCron {
                record: StoredCron {
                    id: row.id,
                    session_id: row.session_id,
                    schedule: row.schedule,
                    command: row.command,
                    status,
                    scope_hash,
                    cwd_override: row.cwd_override,
                    scope_enabled: row.scope_enabled != 0,
                    wrapper_enabled: row.wrapper_enabled != 0,
                },
                elapsed,
            },
        ),
    )
}

/// Reads the crons, in the order of their numbers.
pub fn load_crons(records: Vec<CronRecord>) -> (result: Result<Vec<LoadedCron>, String>)
    ensures
        match result {
            Ok(crons) => {
                &&& first_cron_fault(records@, records@.len() as int) is None
                &&& crons@ == numbering::unpaired(numbering::sorted(numbered_crons(records@)))
            },
            Err(message) => first_cron_fault(records@, records@.len() as int) == Some(message@),
        },
{
    for i in 0..records.len()
        invariant
            first_cron_fault(records@, i as int) is None,
            forall|j: int| 0 <= j < i ==> cron_fault(#[trigger] records@[j]) is None,
    {
        if let Some(message) = check_cron(&records[i]) {
            proof {
                lemma_first_cron_fault(records@, i + 1, records@.len() as int);
            }
            return Err(message);
        }
    }
    let ghost all = records@;
    let mut left = records;
    let mut numbers: Vec<u32> = Vec::new();
    let mut crons: Vec<LoadedCron> = Vec::new();
    let ghost numbered = numbered_crons(all);
    assert(numbered.skip(all.len() as int) =~= Seq::<(u32, LoadedCron)>::empty());
    assert(numbering::paired(numbers@, crons@) =~= Seq::<(u32, LoadedCron)>::empty());
    while left.len() > 0
        invariant
            numbered == numbered_crons(all),
            left@.len() <= all.len(),
            left@ == all.take(left@.len() as int),
            forall|j: int| 0 <= j < all.len() ==> cron_fault(#[trigger] all[j]) is None,
            numbers.len() == crons.len(),
            numbering::paired(numbers@, crons@) == numbering::sorted(
                numbered.skip(left@.len() as int),
            ),
        decreases left@.len(),
    {
        if let Some(record) = left.pop() {
            let ghost at = left@.len() as int;
            assert(record == all[at]);
            assert(cron_fault(all[at]) is None);
            if let Some((number, cron)) = read_cron(record) {
                assert(numbered.skip(at)[0] == (number, cron));
                assert(numbered.skip(at).drop_first() =~= numbered.skip(at + 1));
                insert_numbered(&mut numbers, &mut crons, number, cron);
            }
            assert(left@ =~= all.take(at));
        }
    }
    assert(numbered.skip(0) =~= numbered);
    assert(crons@ =~= numbering::unpaired(numbering::paired(numbers@, crons@)));
    Ok(crons)
}

/// A cron that is stored is read back as it was, unless its scope is in memory only: then it has
/// no scope and its row says that it is paused and does not run.
pub proof fn stored_cron_is_read_back(record: CronRecord, cron: StoredCron, persisted: bool)
    requires
        stores_cron(record.row, cron, persisted),
        record.number is Some,
        record.status is Some,
        record.status->0.encoded@ == record.row.status@,
        record.status->0.encoded@ == cron.status.encoded@ ==> record.status->0 == cron.status,
        record.age_millis >= 0,
    ensures
        cron_fault(record) is None,
        cron.scope_hash is None || persisted ==> cron_of(record).record == cron,
        cron.scope_hash is Some && !persisted ==> cron_of(record).record.scope_hash is None
            && cron_of(record).record.status.encoded@ == "\"paused\""@ && record.row.enabled == 0,
{
    scopes::durable_reference_is_read_back(record.row.scope_hash, cron.scope_hash, persisted);
}

/// Writing a cron leaves one row for it, as given. A cron that was stored keeps the time of its
/// creation; a new one has the time of writing. Other crons stay as they were.
pub proof fn stored_cron_keeps_its_creation_time(
    table: Map<Seq<char>, StoredCronRow>,
    cron: StoredCron,
    persisted: bool,
    row: CronRow,
    now: int,
)
    requires
        stores_cron(row, cron, persisted),
    ensures
        ({
            let after = after_upsert(table, row, now);
            let id = cron.id@;
            &&& after.dom() == table.dom().insert(id)
            &&& stores_cron(after[id].row, cron, persisted)
            &&& after[id].created_at_ms == if table.contains_key(id) {
                table[id].created_at_ms
            } else {
                now
            }
            &&& forall|other: Seq<char>|
                other != id && table.contains_key(other) ==> #[trigger] after[other]
                    == table[other]
        }),
{
    assert(after_upsert(table, row, now).dom() =~= table.dom().insert(cron.id@));
}

/// A record is what is read of a stored cron at a time.
pub open spec fn is_read_at(record: CronRecord, stored: StoredCronRow, now: int) -> bool {
    record.row == stored.row && record.age_millis == now - stored.created_at_ms
}

/// Writing a cron again does not make it younger: it is read with the age that it has without the
/// writing.
pub proof fn rewritten_cron_keeps_its_age(
    table: Map<Seq<char>, StoredCronRow>,
    row: CronRow,
    now: int,
    before: CronRecord,
    after: CronRecord,
    later: int,
)
    requires
        table.contains_key(row.id@),
        is_read_at(before, table[row.id@], later),
        is_read_at(after, after_upsert(table, row, now)[row.id@], later),
    ensures
        after.row == row,
        cron_of(after).elapsed == cron_of(before).elapsed,
{
}

proof fn lemma_no_cron_fault(records: Seq<CronRecord>, n: int)
    requires
        0 <= n <= records.len(),
    ensures
        first_cron_fault(records, n) is None <==> forall|i: int|
            0 <= i < n ==> cron_fault(#[trigger] records[i]) is None,
    decreases n,
{
    if n > 0 {
        lemma_no_cron_fault(records, n - 1);
        if first_cron_fault(records, n) is None {
            assert(cron_fault(records[n - 1]) is None);
        }
    }
}

/// A cron goes into its row field by field. One whose scope is stored, or that has none, is enabled
/// exactly where it runs. One whose scope is not stored is paused instead, and never enabled.
pub proof fn cron_is_written_field_by_field(cron: StoredCron, persisted: bool, upsert: CronUpsert)
    requires
        call_ensures(upsert_cron, (cron, persisted), upsert),
    ensures
        upsert.row.id == cron.id,
        upsert.row.session_id == cron.session_id,
        upsert.row.schedule == cron.schedule,
        upsert.row.command == cron.command,
        upsert.row.cwd_override == cron.cwd_override,
        upsert.row.scope_enabled == if cron.scope_enabled {
            1i64
        } else {
            0i64
        },
        upsert.row.wrapper_enabled == if cron.wrapper_enabled {
            1i64
        } else {
            0i64
        },
        cron.scope_hash is None || persisted ==> upsert.row.status == cron.status.encoded && (
        upsert.row.enabled == 1 <==> cron.status.runnable) && (upsert.row.enabled == 0
            <==> !cron.status.runnable),
        cron.scope_hash is Some && !persisted ==> upsert.row.status@ == "\"paused\""@
            && upsert.row.enabled == 0 && upsert.row.scope_hash is None,
        cron.scope_hash is None ==> upsert.row.scope_hash is None,
        cron.scope_hash is Some && persisted ==> (upsert.row.scope_hash matches Some(bytes)
            && bytes@ == cron.scope_hash->0.bytes@),
{
}

/// A cron that was written is loaded with the crons, as it was, together with its age; unless its scope
/// is not stored: then it comes without one.
pub proof fn written_cron_is_loaded(
    cron: StoredCron,
    persisted: bool,
    upsert: CronUpsert,
    records: Vec<CronRecord>,
    i: int,
    crons: Vec<LoadedCron>,
)
    requires
        call_ensures(upsert_cron, (cron, persisted), upsert),
        0 <= i < records@.len(),
        records@[i].row == upsert.row,
        cron.scope_hash is None || persisted ==> records@[i].status == Some(cron.status),
        call_ensures(load_crons, (records,), Ok::<Vec<LoadedCron>, String>(crons)),
    ensures
        crons@.len() == records@.len(),
        exists|k: int|
            0 <= k < crons@.len() && (#[trigger] crons@[k]).elapsed == records@[i].age_millis
                && crons@[k].record == (StoredCron {
                status: records@[i].status->0,
                scope_hash: if persisted {
                    cron.scope_hash
                } else {
                    None
                },
                ..cron
            }),
{
    lemma_no_cron_fault(records@, records@.len() as int);
    assert(cron_fault(records@[i]) is None);
    scopes::durable_reference_is_read_back(
        records@[i].row.scope_hash,
        cron.scope_hash,
        persisted,
    );
    let numbered = numbered_crons(records@);
    numbering::lemma_sorted(numbered);
    let at = numbering::lemma_item_stays(numbered, i);
    assert(numbered[i].1 == cron_of(records@[i]));
    assert(crons@[at] == cron_of(records@[i]));
}

/// Crons come in the order of the numbers of their ids, and those of one number in the order of their
/// rows.
pub proof fn crons_come_by_their_numbers(
    records: Vec<CronRecord>,
    crons: Vec<LoadedCron>,
    i: int,
    j: int,
)
    requires
        call_ensures(load_crons, (records,), Ok::<Vec<LoadedCron>, String>(crons)),
        0 <= i < records@.len(),
        0 <= j < records@.len(),
        records@[i].number->0 < records@[j].number->0 || records@[i].number == records@[j].number
            && i < j,
    ensures
        exists|p: int, q: int|
            0 <= p < q < crons@.len() && (#[trigger] crons@[p]).record.id == records@[i].row.id && (
            #[trigger] crons@[q]).record.id == records@[j].row.id,
{
    let numbered = numbered_crons(records@);
    let (p, q) = numbering::numbers_decide_on_the_order(numbered, i, j);
    assert(crons@[p] == numbered[i].1);
    assert(crons@[q] == numbered[j].1);
}

/// Crons are refused exactly where one of their rows cannot be read: its id, its status or the hash of its
/// scope, or where it was created in the future.
pub proof fn unreadable_cron_refuses_all(
    records: Vec<CronRecord>,
    result: Result<Vec<LoadedCron>, String>,
)
    requires
        call_ensures(load_crons, (records,), result),
    ensures
        result is Ok <==> forall|i: int|
            0 <= i < records@.len() ==> (#[trigger] records@[i]).number is Some
                && records@[i].status is Some && records@[i].age_millis >= 0 && (
            records@[i].row.scope_hash matches Some(blob) ==> blob@.len() == 32),
{
    lemma_no_cron_fault(records@, records@.len() as int);
    assert forall|i: int| 0 <= i < records@.len() implies (cron_fault(#[trigger] records@[i]) is None
        <==> records@[i].number is Some && records@[i].status is Some && records@[i].age_millis >= 0
        && (records@[i].row.scope_hash matches Some(blob) ==> blob@.len() == 32)) by {}
}

/// A stored flag tells whether it is set, and a paused cron does not run.
pub proof fn stored_flag_is_read_back(flag: bool, number: i64, paused: CronStatus)
    requires
        call_ensures(stored_flag, (flag,), number),
        call_ensures(CronStatus::paused, (), paused),
    ensures
        number != 0 <==> flag,
        number == 0 || number == 1,
        !paused.runnable,
        paused.encoded@ == "\"paused\""@,
{
}

/// An age is as old as it was told to be, and never negative.
pub proof fn age_is_kept(millis: i64, result: Result<u64, String>)
    requires
        call_ensures(duration_from_nonnegative_millis, (millis,), result),
    ensures
        result is Ok <==> millis >= 0,
        result matches Ok(age) ==> age == millis,
{
}

} // verus!
