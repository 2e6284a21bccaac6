//! The stored history of jobs.
use crate::digest::Digest;
use crate::numbering;
use crate::numbering::insert_numbered;
use crate::storage::pruning;
use crate::storage::pruning::{prune, EntryView, HistoryEntry};
use crate::storage::scopes;
use crate::storage::scopes::{durable_scope_reference, optional_scope_hash};
use crate::text;
use crate::text::join2;
use vstd::prelude::*;

verus! {

/// The status of a job: how it is stored, and whether a job that has it is over.
#[derive(Clone, PartialEq, Eq, Debug)]
pub struct JobStatus {
    pub encoded: String,
    pub terminal: bool,
}

#[derive(Clone, PartialEq, Eq, Debug)]
pub struct StoredJob {
    pub id: String,
    pub session_id: Option<String>,
    pub pipeline: String,
    pub status: JobStatus,
    pub exit_code: Option<i32>,
    pub start_scope: Option<Digest>,
    pub end_scope: Option<Digest>,
    pub chain_id: Option<String>,
    /// Captured stderr text. Empty for jobs on a terminal, whose streams are merged.
    pub stderr: String,
}

/// A job as its row holds it.
#[derive(Clone, PartialEq, Eq, Debug)]
pub struct JobRow {
    pub id: String,
    pub session_id: Option<String>,
    pub pipeline: String,
    pub status: String,
    pub exit_code: Option<i32>,
    pub scope_hash: Option<Vec<u8>>,
    pub start_scope: Option<Vec<u8>>,
    pub end_scope: Option<Vec<u8>>,
    pub chain_id: Option<String>,
    pub stderr: String,
}

/// The row that is to be written, and whether it gets the time of writing as the job's end.
#[derive(Clone, PartialEq, Eq, Debug)]
pub struct JobUpsert {
    pub row: JobRow,
    pub finished: bool,
}

/// The row that stands for a job.
pub open spec fn stores_job(
    row: JobRow,
    job: StoredJob,
    start_persisted: bool,
    end_persisted: bool,
) -> bool {
    &&& row.id == job.id
    &&& row.session_id == job.session_id
    &&& row.pipeline == job.pipeline
    &&& row.status == job.status.encoded
    &&& row.exit_code == job.exit_code
    &&& scopes::is_durable_reference(row.scope_hash, job.start_scope, start_persisted)
    &&& scopes::is_durable_reference(row.start_scope, job.start_scope, start_persisted)
    &&& scopes::is_durable_reference(row.end_scope, job.end_scope, end_persisted)
    &&& row.chain_id == job.chain_id
    &&& row.stderr == job.stderr
}

/// The row of a job. `start_persisted` and `end_persisted` say whether the scopes that it names
/// are stored.
pub fn upsert_job_history(job: StoredJob, start_persisted: bool, end_persisted: bool) -> (upsert:
    JobUpsert)
    ensures
        stores_job(upsert.row, job, start_persisted, end_persisted),
        upsert.finished == job.status.terminal,
{
    let scope_hash = durable_scope_reference(job.start_scope, start_persisted);
    let start_scope = durable_scope_reference(job.start_scope, start_persisted);
    let end_scope = durable_scope_reference(job.end_scope, end_persisted);
    JobUpsert {
        finished: job.status.terminal,
        row: JobRow {
            id: job.id,
            session_id: job.session_id,
            pipeline: job.pipeline,
            status: job.status.encoded,
            exit_code: job.exit_code,
            scope_hash,
            start_scope,
            end_scope,
            chain_id: job.chain_id,
            stderr: job.stderr,
        },
    }
}

/// A row that was read, with the number of its id and its status, where they could be decoded.
#[derive(Clone, PartialEq, Eq, Debug)]
pub struct JobRecord {
    pub row: JobRow,
    pub number: Option<u32>,
    pub status: Option<JobStatus>,
}

/// Why an id is none.
pub open spec fn job_id_fault(id: Seq<char>) -> Seq<char> {
    "invalid job history id "@ + id
}

/// Why a status is none.
pub open spec fn job_status_fault(status: Seq<char>) -> Seq<char> {
    "unknown job status encoding: "@ + status
}

/// Why a row cannot be read.
pub open spec fn job_fault(record: JobRecord) -> Option<Seq<char>> {
    if record.number is None {
        Some(job_id_fault(record.row.id@))
    } else if record.status is None {
        Some(job_status_fault(record.row.status@))
    } else if scopes::optional_hash_fault(record.row.start_scope) is Some {
        scopes::optional_hash_fault(record.row.start_scope)
    } else {
        scopes::optional_hash_fault(record.row.end_scope)
    }
}

/// Why the first of the first `n` rows that cannot be read cannot.
pub open spec fn first_job_fault(records: Seq<JobRecord>, n: int) -> Option<Seq<char>>
    decreases n,
{
    if n <= 0 || n > records.len() {
        None
    } else if first_job_fault(records, n - 1) is Some {
        first_job_fault(records, n - 1)
    } else {
        job_fault(records[n - 1])
    }
}

/// The job that a row stands for.
pub open spec fn job_of(record: JobRecord) -> StoredJob {
    StoredJob {
        id: record.row.id,
        session_id: record.row.session_id,
        pipeline: record.row.pipeline,
        status: record.status->0,
        exit_code: record.row.exit_code,
        start_scope: scopes::stored_hash(record.row.start_scope),
        end_scope: scopes::stored_hash(record.row.end_scope),
        chain_id: record.row.chain_id,
        stderr: record.row.stderr,
    }
}

/// The jobs that rows stand for, with their numbers.
pub open spec fn numbered_jobs(records: Seq<JobRecord>) -> Seq<(u32, StoredJob)> {
    records.map_values(|record: JobRecord| (record.number->0, job_of(record)))
}

fn check_job(record: &JobRecord) -> (fault: Option<String>)
    ensures
        match fault {
            Some(message) => job_fault(*record) == Some(message@),
            None => job_fault(*record) is None,
        },
{
    if record.number.is_none() {
        return Some(join2("invalid job history id ", record.row.id.as_str()));
    }
    if record.status.is_none() {
        return Some(join2("unknown job status encoding: ", record.row.status.as_str()));
    }
    if let Err(message) = optional_scope_hash(&record.row.start_scope) {
        return Some(message);
    }
    if let Err(message) = optional_scope_hash(&record.row.end_scope) {
        return Some(message);
    }
    None
}

fn read_job(record: JobRecord) -> (result: Option<(u32, StoredJob)>)
    requires
        job_fault(record) is None,
    ensures
        result == Some((record.number->0, job_of(record))),
{
    let (number, status) = match (record.number, record.status) {
        (Some(number), Some(status)) => (number, status),
        _ => return None,
    };
    let start_scope = match optional_scope_hash(&record.row.start_scope) {
        Ok(scope) => scope,
        Err(_) => return None,
    };
    let end_scope = match optional_scope_hash(&record.row.end_scope) {
        Ok(scope) => scope,
        Err(_) => return None,
    };
    let row = record.row;
    Some(
        (
            number,
            StoredJob {
                id: row.id,
                session_id: row.session_id,
                pipeline: row.pipeline,
                status,
                exit_code: row.exit_code,
                start_scope,
                end_scope,
                chain_id: row.chain_id,
                stderr: row.stderr,
            },
        ),
    )
}

/// Reads the history of jobs, in the order of their numbers.
pub fn load_job_history(records: Vec<JobRecord>) -> (result: Result<Vec<StoredJob>, String>)
    ensures
        match result {
            Ok(jobs) => {
                &&& first_job_fault(records@, records@.len() as int) is None
                &&& jobs@ == numbering::unpaired(numbering::sorted(numbered_jobs(records@)))
            },
            Err(message) => first_job_fault(records@, records@.len() as int) == Some(message@),
        },
{
    for i in 0..records.len()
        invariant
            first_job_fault(records@, i as int) is None,
            forall|j: int| 0 <= j < i ==> job_fault(#[trigger] records@[j]) is None,
    {
        if let Some(message) = check_job(&records[i]) {
            proof {
                lemma_first_job_fault(records@, i + 1, records@.len() as int);
            }
            return Err(message);
        }
    }
    let ghost all = records@;
    let mut left = records;
    let mut numbers: Vec<u32> = Vec::new();
    let mut jobs: Vec<StoredJob> = Vec::new();
    let ghost numbered = numbered_jobs(all);
    assert(numbered.skip(all.len() as int) =~= Seq::<(u32, StoredJob)>::empty());
    assert(numbering::paired(numbers@, jobs@) =~= Seq::<(u32, StoredJob)>::empty());
    while left.len() > 0
        invariant
            numbered == numbered_jobs(all),
            left@.len() <= all.len(),
            left@ == all.take(left@.len() as int),
            forall|j: int| 0 <= j < all.len() ==> job_fault(#[trigger] all[j]) is None,
            numbers.len() == jobs.len(),
            numbering::paired(numbers@, jobs@) == numbering::sorted(
                numbered.skip(left@.len() as int),
            ),
        decreases left@.len(),
    {
        if let Some(record) = left.pop() {
            let ghost at = left@.len() as int;
            assert(record == all[at]);
            assert(job_fault(all[at]) is None);
            if let Some((number, job)) = read_job(record) {
                assert(numbered.skip(at)[0] == (number, job));
                assert(numbered.skip(at).drop_first() =~= numbered.skip(at + 1));
                insert_numbered(&mut numbers, &mut jobs, number, job);
            }
            assert(left@ =~= all.take(at));
        }
    }
    assert(numbered.skip(0) =~= numbered);
    assert(jobs@ =~= numbering::unpaired(numbering::paired(numbers@, jobs@)));
    Ok(jobs)
}

proof fn lemma_first_job_fault(records: Seq<JobRecord>, from: int, to: int)
    requires
        0 <= from <= to <= records.len(),
        first_job_fault(records, from) is Some,
    ensures
        first_job_fault(records, to) == first_job_fault(records, from),
    decreases to - from,
{
    if from < to {
        lemma_first_job_fault(records, from, to - 1);
    }
}

/// A job that is stored is read back as it was, but for scopes that are in memory only, which it
/// forgets.
pub proof fn stored_job_is_read_back(
    record: JobRecord,
    job: StoredJob,
    start_persisted: bool,
    end_persisted: bool,
)
    requires
        stores_job(record.row, job, start_persisted, end_persisted),
        record.number is Some,
        record.status == Some(job.status),
    ensures
        job_fault(record) is None,
        job_of(record) == (StoredJob {
            start_scope: if start_persisted {
                job.start_scope
            } else {
                None
            },
            end_scope: if end_persisted {
                job.end_scope
            } else {
                None
            },
            ..job
        }),
{
    scopes::durable_reference_is_read_back(
        record.row.start_scope,
        job.start_scope,
        start_persisted,
    );
    scopes::durable_reference_is_read_back(record.row.end_scope, job.end_scope, end_persisted);
}

/// A row that was read, with the number of its id, where it could be decoded, and whether its
/// status, where it could be decoded, is that of a job that is over.
#[derive(Clone, PartialEq, Eq, Debug)]
pub struct JobProgress {
    pub id: String,
    pub number: Option<u32>,
    pub status: String,
    pub terminal: Option<bool>,
}

/// Why a row cannot be read.
pub open spec fn progress_fault(record: JobProgress) -> Option<Seq<char>> {
    if record.number is None {
        Some(job_id_fault(record.id@))
    } else if record.terminal is None {
        Some(job_status_fault(record.status@))
    } else {
        None
    }
}

/// Why the first of the first `n` rows that cannot be read cannot.
pub open spec fn first_progress_fault(records: Seq<JobProgress>, n: int) -> Option<Seq<char>>
    decreases n,
{
    if n <= 0 || n > records.len() {
        None
    } else if first_progress_fault(records, n - 1) is Some {
        first_progress_fault(records, n - 1)
    } else {
        progress_fault(records[n - 1])
    }
}

proof fn lemma_first_progress_fault(records: Seq<JobProgress>, from: int, to: int)
    requires
        0 <= from <= to <= records.len(),
        first_progress_fault(records, from) is Some,
    ensures
        first_progress_fault(records, to) == first_progress_fault(records, from),
    decreases to - from,
{
    if from < to {
        lemma_first_progress_fault(records, from, to - 1);
    }
}

/// The jobs as entries of a history.
pub open spec fn job_entries(records: Seq<JobProgress>) -> Seq<EntryView> {
    records.map_values(
        |record: JobProgress|
            EntryView {
                id: record.id@,
                number: record.number->0,
                finished: record.terminal->0,
            },
    )
}

/// The ids of the jobs that go so that no more than `keep` jobs that are over stay. If a row
/// cannot be read, none goes.
pub fn prune_job_history(records: &Vec<JobProgress>, keep: usize) -> (result: Result<
    Vec<String>,
    String,
>)
    ensures
        match result {
            Ok(removed) => {
                &&& first_progress_fault(records@, records@.len() as int) is None
                &&& text::texts(removed@) == pruning::ids_of(
                    pruning::pruned(job_entries(records@), keep),
                )
            },
            Err(message) => first_progress_fault(records@, records@.len() as int) == Some(message@),
        },
{
    let mut entries: Vec<HistoryEntry> = Vec::new();
    for i in 0..records.len()
        invariant
            first_progress_fault(records@, i as int) is None,
            entries.len() == i,
            forall|j: int| 0 <= j < i ==> (#[trigger] entries@[j])@ == job_entries(records@)[j],
    {
        match (records[i].number, records[i].terminal) {
            (Some(number), Some(finished)) => {
                entries.push(HistoryEntry { id: records[i].id.clone(), number, finished });
            },
            (None, _) => {
                proof {
                    lemma_first_progress_fault(records@, i + 1, records@.len() as int);
                }
                return Err(join2("invalid job history id ", records[i].id.as_str()));
            },
            (Some(_), None) => {
                proof {
                    lemma_first_progress_fault(records@, i + 1, records@.len() as int);
                }
                return Err(join2("unknown job status encoding: ", records[i].status.as_str()));
            },
        }
    }
    assert(pruning::entry_views(entries@) =~= job_entries(records@));
    Ok(prune(entries, keep))
}

proof fn lemma_no_job_fault(records: Seq<JobRecord>, n: int)
    requires
        0 <= n <= records.len(),
    ensures
        first_job_fault(records, n) is None <==> forall|i: int|
            0 <= i < n ==> job_fault(#[trigger] records[i]) is None,
    decreases n,
{
    if n > 0 {
        lemma_no_job_fault(records, n - 1);
        if first_job_fault(records, n) is None {
            assert(job_fault(records[n - 1]) is None);
        }
    }
}

/// A job goes into its row field by field, with the scope that it started in under both names. It
/// gets a time of its end exactly where it is over.
pub proof fn job_is_written_field_by_field(
    job: StoredJob,
    start_persisted: bool,
    end_persisted: bool,
    upsert: JobUpsert,
)
    requires
        call_ensures(upsert_job_history, (job, start_persisted, end_persisted), upsert),
    ensures
        upsert.finished == job.status.terminal,
        upsert.row.id == job.id,
        upsert.row.session_id == job.session_id,
        upsert.row.pipeline == job.pipeline,
        upsert.row.status == job.status.encoded,
        upsert.row.exit_code == job.exit_code,
        upsert.row.chain_id == job.chain_id,
        upsert.row.stderr == job.stderr,
        upsert.row.start_scope is Some <==> job.start_scope is Some && start_persisted,
        upsert.row.end_scope is Some <==> job.end_scope is Some && end_persisted,
        upsert.row.scope_hash is Some <==> upsert.row.start_scope is Some,
        upsert.row.start_scope matches Some(bytes) ==> bytes@ == job.start_scope->0.bytes@
            && upsert.row.scope_hash->0@ == bytes@,
        upsert.row.end_scope matches Some(bytes) ==> bytes@ == job.end_scope->0.bytes@,
{
}

/// A job that was written comes back with the history, as it was; of its scopes only those that are not
/// stored are forgotten. Every row gives one job.
pub proof fn written_job_is_loaded(
    job: StoredJob,
    start_persisted: bool,
    end_persisted: bool,
    upsert: JobUpsert,
    records: Vec<JobRecord>,
    i: int,
    jobs: Vec<StoredJob>,
)
    requires
        call_ensures(upsert_job_history, (job, start_persisted, end_persisted), upsert),
        0 <= i < records@.len(),
        records@[i].row == upsert.row,
        records@[i].status == Some(job.status),
        call_ensures(load_job_history, (records,), Ok::<Vec<StoredJob>, String>(jobs)),
    ensures
        jobs@.len() == records@.len(),
        jobs@.contains(
            StoredJob {
                start_scope: if start_persisted {
                    job.start_scope
                } else {
                    None
                },
                end_scope: if end_persisted {
                    job.end_scope
                } else {
                    None
                },
                ..job
            },
        ),
{
    lemma_no_job_fault(records@, records@.len() as int);
    assert(job_fault(records@[i]) is None);
    stored_job_is_read_back(records@[i], job, start_persisted, end_persisted);
    let numbered = numbered_jobs(records@);
    numbering::lemma_sorted(numbered);
    let at = numbering::lemma_item_stays(numbered, i);
    assert(numbered[i].1 == job_of(records@[i]));
    assert(jobs@[at] == job_of(records@[i]));
}

/// Jobs come in the order of the numbers of their ids, and those of one number in the order of their
/// rows.
pub proof fn jobs_come_by_their_numbers(
    records: Vec<JobRecord>,
    jobs: Vec<StoredJob>,
    i: int,
    j: int,
)
    requires
        call_ensures(load_job_history, (records,), Ok::<Vec<StoredJob>, String>(jobs)),
        0 <= i < records@.len(),
        0 <= j < records@.len(),
        records@[i].number->0 < records@[j].number->0 || records@[i].number == records@[j].number
            && i < j,
    ensures
        exists|p: int, q: int|
            0 <= p < q < jobs@.len() && (#[trigger] jobs@[p]).id == records@[i].row.id && (
            #[trigger] jobs@[q]).id == records@[j].row.id,
{
    let numbered = numbered_jobs(records@);
    let (p, q) = numbering::numbers_decide_on_the_order(numbered, i, j);
    assert(jobs@[p] == numbered[i].1);
    assert(jobs@[q] == numbered[j].1);
}

/// The history is refused exactly where one of its rows cannot be read: its id, its status, or the hash
/// of one of its scopes.
pub proof fn unreadable_job_refuses_the_history(
    records: Vec<JobRecord>,
    result: Result<Vec<StoredJob>, String>,
)
    requires
        call_ensures(load_job_history, (records,), result),
    ensures
        result is Ok <==> forall|i: int|
            0 <= i < records@.len() ==> (#[trigger] records@[i]).number is Some
                && records@[i].status is Some && (records@[i].row.start_scope matches Some(blob)
                ==> blob@.len() == 32) && (records@[i].row.end_scope matches Some(blob)
                ==> blob@.len() == 32),
{
    lemma_no_job_fault(records@, records@.len() as int);
    assert forall|i: int| 0 <= i < records@.len() implies (job_fault(#[trigger] records@[i]) is None
        <==> records@[i].number is Some && records@[i].status is Some && (
    records@[i].row.start_scope matches Some(blob) ==> blob@.len() == 32) && (
    records@[i].row.end_scope matches Some(blob) ==> blob@.len() == 32)) by {}
}

proof fn lemma_no_progress_fault(records: Seq<JobProgress>, n: int)
    requires
        0 <= n <= records.len(),
    ensures
        first_progress_fault(records, n) is None <==> forall|i: int|
            0 <= i < n ==> progress_fault(#[trigger] records[i]) is None,
    decreases n,
{
    if n > 0 {
        lemma_no_progress_fault(records, n - 1);
        if first_progress_fault(records, n) is None {
            assert(progress_fault(records[n - 1]) is None);
        }
    }
}

proof fn lemma_jobs_that_are_over(records: Seq<JobProgress>, n: int)
    requires
        0 <= n <= records.len(),
        forall|i: int| 0 <= i < records.len() ==> (#[trigger] records[i]).terminal is Some,
    ensures
        job_entries(records).take(n).filter(pruning::is_finished()).len() == records.take(n).filter(
            |record: JobProgress| record.terminal == Some(true),
        ).len(),
    decreases n,
{
    reveal(Seq::filter);
    if n > 0 {
        lemma_jobs_that_are_over(records, n - 1);
        let entries = job_entries(records);
        assert(entries.take(n).drop_last() =~= entries.take(n - 1));
        assert(records.take(n).drop_last() =~= records.take(n - 1));
        assert(records[n - 1].terminal is Some);
        assert(entries.take(n).last() == entries[n - 1]);
    }
}

/// Pruning the history of jobs takes as many as are over beyond those that are kept, the oldest first. A
/// job that is not over stays.
pub proof fn running_jobs_stay(
    records: &Vec<JobProgress>,
    keep: usize,
    removed: Vec<String>,
    a: int,
    b: int,
)
    requires
        call_ensures(prune_job_history, (records, keep), Ok::<Vec<String>, String>(removed)),
        0 <= a < records@.len(),
        0 <= b < records@.len(),
        forall|i: int, j: int|
            0 <= i < j < records@.len() ==> (#[trigger] records@[i]).id@ != (
            #[trigger] records@[j]).id@,
    ensures
        ({
            let gone = text::texts(removed@);
            let total = records@.filter(
                |record: JobProgress| record.terminal == Some(true),
            ).len();
            &&& removed@.len() == if total > keep {
                total - keep
            } else {
                0
            }
            &&& records@[a].terminal == Some(false) ==> !gone.contains(records@[a].id@)
            &&& gone.contains(records@[a].id@) && records@[b].terminal == Some(true)
                && !gone.contains(records@[b].id@) ==> records@[a].number->0
                <= records@[b].number->0
            &&& keep == 0 && records@[a].terminal == Some(true) ==> gone.contains(records@[a].id@)
        }),
{
    let entries = job_entries(records@);
    let n = records@.len() as int;
    lemma_no_progress_fault(records@, n);
    assert forall|i: int| 0 <= i < n implies (#[trigger] records@[i]).terminal is Some by {
        assert(progress_fault(records@[i]) is None);
    }
    lemma_jobs_that_are_over(records@, n);
    assert(entries.take(n) =~= entries);
    assert(records@.take(n) =~= records@);
    assert forall|i: int, j: int| 0 <= i < j < entries.len() implies (#[trigger] entries[i]).id != (
    #[trigger] entries[j]).id by {
        assert(records@[i].id@ != records@[j].id@);
    }
    pruning::lemma_pruning(entries, keep, a, b);
    assert(entries[a].id == records@[a].id@);
    assert(entries[b].id == records@[b].id@);
    assert(text::texts(removed@).len() == removed@.len());
}

/// Nothing is pruned exactly where a row cannot be read.
pub proof fn unreadable_job_stops_pruning(
    records: &Vec<JobProgress>,
    keep: usize,
    result: Result<Vec<String>, String>,
)
    requires
        call_ensures(prune_job_history, (records, keep), result),
    ensures
        result is Ok <==> forall|i: int|
            0 <= i < records@.len() ==> (#[trigger] records@[i]).number is Some
                && records@[i].terminal is Some,
{
    lemma_no_progress_fault(records@, records@.len() as int);
    assert forall|i: int| 0 <= i < records@.len() implies (progress_fault(
        #[trigger] records@[i],
    ) is None <==> records@[i].number is Some && records@[i].terminal is Some) by {}
}

} // verus!
