//! Removal of stored scopes: of those that hold credentials, and of those that nothing needs.
use crate::bytes;
use crate::bytes::{copy_blob, holds_blob, push_blob, same_bytes};
use crate::digest::Digest;
use crate::storage::scopes;
use crate::storage::scopes::{
    digest_bytes, persisted_scope_has_sensitive_environment, EnvDelta, EnvSnapshot, StoredJson,
};
use crate::text;
use crate::text::join2;
use vstd::prelude::*;

verus! {

/// What the purge reads of a stored scope.
#[derive(Debug)]
pub struct PersistedScopeMetadata {
    pub hash: Vec<u8>,
    pub parent: Option<Vec<u8>>,
    pub contains_sensitive_environment: bool,
}

/// What the purge reads of a stored scope, as values.
pub struct ScopeLink {
    pub hash: Seq<u8>,
    pub parent: Option<Seq<u8>>,
    pub sensitive: bool,
}

impl View for PersistedScopeMetadata {
    type V = ScopeLink;

    open spec fn view(&self) -> ScopeLink {
        ScopeLink {
            hash: self.hash@,
            parent: bytes::optional_blob(self.parent),
            sensitive: self.contains_sensitive_environment,
        }
    }
}

impl PersistedScopeMetadata {
    /// What the purge reads of a stored scope, from the columns of its row.
    pub fn from_row(
        hash: Vec<u8>,
        parent: Option<Vec<u8>>,
        delta: &StoredJson<EnvDelta>,
        snapshot: &StoredJson<EnvSnapshot>,
    ) -> (scope: Self)
        ensures
            scope.hash == hash,
            scope.parent == parent,
            scope.contains_sensitive_environment == scopes::stored_scope_is_sensitive(
                *delta,
                *snapshot,
            ),
    {
        PersistedScopeMetadata {
            hash,
            parent,
            contains_sensitive_environment: persisted_scope_has_sensitive_environment(
                delta,
                snapshot,
            ),
        }
    }
}

/// The stored scopes, as values.
pub open spec fn links(scopes: Seq<PersistedScopeMetadata>) -> Seq<ScopeLink> {
    scopes.map_values(|scope: PersistedScopeMetadata| scope@)
}

/// A stored scope of that hash holds credentials.
pub open spec fn is_tainted(scopes: Seq<ScopeLink>, hash: Seq<u8>) -> bool {
    exists|i: int| 0 <= i < scopes.len() && (#[trigger] scopes[i]).sensitive && scopes[i].hash == hash
}

/// A stored scope of that hash holds credentials, or descends in at most `steps` steps from one
/// that does.
pub open spec fn purged_within(scopes: Seq<ScopeLink>, hash: Seq<u8>, steps: nat) -> bool
    decreases steps,
{
    ||| is_tainted(scopes, hash)
    ||| steps > 0 && exists|i: int|
        0 <= i < scopes.len() && (#[trigger] scopes[i]).hash == hash && (
        scopes[i].parent matches Some(parent) && purged_within(scopes, parent, (steps - 1) as nat))
}

/// A stored scope of that hash holds credentials or descends from one that does.
pub open spec fn is_purged(scopes: Seq<ScopeLink>, hash: Seq<u8>) -> bool {
    exists|steps: nat| purged_within(scopes, hash, steps)
}

/// A set of hashes that holds what holds credentials, and with a scope every child of it.
pub open spec fn is_closed(scopes: Seq<ScopeLink>, hashes: Set<Seq<u8>>) -> bool {
    forall|i: int|
        0 <= i < scopes.len() && ((#[trigger] scopes[i]).sensitive || (
        scopes[i].parent matches Some(parent) && hashes.contains(parent))) ==> hashes.contains(
            scopes[i].hash,
        )
}

/// No child is kept of a scope that is purged.
pub proof fn purged_parents_leave_no_children(scopes: Seq<ScopeLink>, child: int)
    requires
        0 <= child < scopes.len(),
    ensures
        scopes[child].sensitive ==> is_purged(scopes, scopes[child].hash),
        scopes[child].parent matches Some(parent) && is_purged(scopes, parent) ==> is_purged(
            scopes,
            scopes[child].hash,
        ),
{
    let hash = scopes[child].hash;
    if scopes[child].sensitive {
        assert(purged_within(scopes, hash, 0));
    }
    if let Some(parent) = scopes[child].parent {
        if is_purged(scopes, parent) {
            let steps = choose|steps: nat| purged_within(scopes, parent, steps);
            assert(purged_within(scopes, hash, steps + 1));
        }
    }
}

proof fn lemma_purged_within(scopes: Seq<ScopeLink>, hashes: Set<Seq<u8>>, hash: Seq<u8>, steps: nat)
    requires
        is_closed(scopes, hashes),
        purged_within(scopes, hash, steps),
    ensures
        hashes.contains(hash),
    decreases steps,
{
    if !is_tainted(scopes, hash) {
        let i = choose|i: int|
            0 <= i < scopes.len() && (#[trigger] scopes[i]).hash == hash && (
            scopes[i].parent matches Some(parent) && purged_within(
                scopes,
                parent,
                (steps - 1) as nat,
            ));
        lemma_purged_within(scopes, hashes, scopes[i].parent->0, (steps - 1) as nat);
    }
}

/// Nothing more is purged than has to be: a purged hash is in every set that holds what holds
/// credentials and, with a scope, its children.
pub proof fn purge_is_least(scopes: Seq<ScopeLink>, hashes: Set<Seq<u8>>, hash: Seq<u8>)
    requires
        is_closed(scopes, hashes),
        is_purged(scopes, hash),
    ensures
        hashes.contains(hash),
{
    let steps = choose|steps: nat| purged_within(scopes, hash, steps);
    lemma_purged_within(scopes, hashes, hash, steps);
}

/// How many of the first `n` marks are not set.
spec fn unmarked(marks: Seq<bool>, n: int) -> nat
    decreases n,
{
    if n <= 0 {
        0
    } else {
        unmarked(marks, n - 1) + if marks[n - 1] {
            0nat
        } else {
            1nat
        }
    }
}

proof fn lemma_mark(marks: Seq<bool>, at: int, n: int)
    requires
        0 <= at < marks.len(),
        0 <= n <= marks.len(),
        !marks[at],
    ensures
        unmarked(marks.update(at, true), n) == unmarked(marks, n) - (if at < n {
            1int
        } else {
            0int
        }),
    decreases n,
{
    if n > 0 {
        lemma_mark(marks, at, n - 1);
    }
}

/// The hashes of the marked scopes.
spec fn marked_hashes(scopes: Seq<ScopeLink>, marks: Seq<bool>) -> Set<Seq<u8>> {
    Set::new(
        |hash: Seq<u8>|
            exists|i: int| 0 <= i < scopes.len() && marks[i] && (#[trigger] scopes[i]).hash == hash,
    )
}

/// Whether a marked scope has the hash.
fn is_marked(scopes: &Vec<PersistedScopeMetadata>, marks: &Vec<bool>, hash: &Vec<u8>) -> (result:
    bool)
    requires
        marks.len() == scopes.len(),
    ensures
        result == marked_hashes(links(scopes@), marks@).contains(hash@),
{
    for i in 0..scopes.len()
        invariant
            marks.len() == scopes.len(),
            forall|j: int|
                0 <= j < i && marks@[j] ==> (#[trigger] links(scopes@)[j]).hash != hash@,
    {
        assert(links(scopes@)[i as int] == scopes@[i as int]@);
        if marks[i] && same_bytes(&scopes[i].hash, hash) {
            return true;
        }
    }
    false
}

/// Marks each child of a marked scope once, in order. The result says whether a mark was set.
fn mark_children(scopes: &Vec<PersistedScopeMetadata>, marks: &mut Vec<bool>) -> (grown: bool)
    requires
        old(marks).len() == scopes.len(),
        forall|i: int|
            0 <= i < scopes.len() && old(marks)@[i] ==> is_purged(
                links(scopes@),
                (#[trigger] links(scopes@)[i]).hash,
            ),
    ensures
        final(marks).len() == scopes.len(),
        forall|i: int| 0 <= i < scopes.len() && old(marks)@[i] ==> #[trigger] final(marks)@[i],
        forall|i: int|
            0 <= i < scopes.len() && final(marks)@[i] ==> is_purged(
                links(scopes@),
                (#[trigger] links(scopes@)[i]).hash,
            ),
        grown ==> unmarked(final(marks)@, scopes.len() as int) < unmarked(
            old(marks)@,
            scopes.len() as int,
        ),
        !grown ==> final(marks)@ == old(marks)@ && forall|i: int|
            0 <= i < scopes.len() && ((#[trigger] links(scopes@)[i]).parent matches Some(parent)
                && marked_hashes(links(scopes@), final(marks)@).contains(parent))
                ==> final(marks)@[i],
{
    let ghost scope_links = links(scopes@);
    let mut grown = false;
    for i in 0..scopes.len()
        invariant
            scope_links == links(scopes@),
            old(marks).len() == scopes.len(),
            marks.len() == scopes.len(),
            forall|j: int| 0 <= j < scopes.len() && old(marks)@[j] ==> #[trigger] marks@[j],
            forall|j: int|
                0 <= j < scopes.len() && marks@[j] ==> is_purged(
                    scope_links,
                    (#[trigger] scope_links[j]).hash,
                ),
            unmarked(marks@, scopes.len() as int) <= unmarked(old(marks)@, scopes.len() as int),
            grown ==> unmarked(marks@, scopes.len() as int) < unmarked(
                old(marks)@,
                scopes.len() as int,
            ),
            !grown ==> marks@ == old(marks)@,
            !grown ==> forall|j: int|
                0 <= j < i && ((#[trigger] scope_links[j]).parent matches Some(parent)
                    && marked_hashes(scope_links, marks@).contains(parent)) ==> marks@[j],
    {
        assert(scope_links[i as int] == scopes@[i as int]@);
        if !marks[i] {
            if let Some(parent) = &scopes[i].parent {
                if is_marked(scopes, marks, parent) {
                    proof {
                        let k = choose|k: int|
                            0 <= k < scope_links.len() && marks@[k] && (
                            #[trigger] scope_links[k]).hash == parent@;
                        assert(is_purged(scope_links, scope_links[k].hash));
                        purged_parents_leave_no_children(scope_links, i as int);
                        lemma_mark(marks@, i as int, scopes.len() as int);
                    }
                    marks.set(i, true);
                    grown = true;
                }
            }
        }
    }
    grown
}

/// The hashes of the stored scopes that hold credentials and of all their descendants.
///
/// Descendants go too, because a child whose parent is absent would break the chain of scopes.
pub fn purged_hashes(scopes: &Vec<PersistedScopeMetadata>) -> (hashes: Vec<Vec<u8>>)
    ensures
        forall|hash: Seq<u8>|
            #[trigger] bytes::blobs(hashes@).contains(hash) <==> is_purged(links(scopes@), hash),
{
    let ghost scope_links = links(scopes@);
    let mut marks: Vec<bool> = Vec::new();
    for i in 0..scopes.len()
        invariant
            scope_links == links(scopes@),
            marks.len() == i,
            forall|j: int| 0 <= j < i ==> #[trigger] marks@[j] == scope_links[j].sensitive,
    {
        assert(scope_links[i as int] == scopes@[i as int]@);
        marks.push(scopes[i].contains_sensitive_environment);
    }
    assert forall|i: int| 0 <= i < scopes.len() && marks@[i] implies is_purged(
        scope_links,
        (#[trigger] scope_links[i]).hash,
    ) by {
        purged_parents_leave_no_children(scope_links, i);
    }
    let mut grown = true;
    while grown
        invariant
            scope_links == links(scopes@),
            marks.len() == scopes.len(),
            forall|i: int| 0 <= i < scopes.len() && scope_links[i].sensitive ==> #[trigger] marks@[i],
            forall|i: int|
                0 <= i < scopes.len() && marks@[i] ==> is_purged(
                    scope_links,
                    (#[trigger] scope_links[i]).hash,
                ),
            !grown ==> forall|i: int|
                0 <= i < scopes.len() && ((#[trigger] scope_links[i]).parent matches Some(parent)
                    && marked_hashes(scope_links, marks@).contains(parent)) ==> marks@[i],
        decreases unmarked(marks@, scopes.len() as int), if grown {
                1int
            } else {
                0int
            },
    {
        grown = mark_children(scopes, &mut marks);
    }
    let ghost marked = marked_hashes(scope_links, marks@);
    assert(is_closed(scope_links, marked)) by {
        assert forall|i: int|
            0 <= i < scope_links.len() && ((#[trigger] scope_links[i]).sensitive || (
            scope_links[i].parent matches Some(parent) && marked.contains(
                parent,
            ))) implies marked.contains(scope_links[i].hash) by {
            assert(marks@[i]);
        }
    }
    let mut hashes: Vec<Vec<u8>> = Vec::new();
    for i in 0..scopes.len()
        invariant
            scope_links == links(scopes@),
            marks.len() == scopes.len(),
            forall|j: int|
                0 <= j < i && marks@[j] ==> bytes::blobs(hashes@).contains(
                    (#[trigger] scope_links[j]).hash,
                ),
            forall|j: int|
                0 <= j < scopes.len() && marks@[j] ==> is_purged(
                    scope_links,
                    (#[trigger] scope_links[j]).hash,
                ),
            forall|k: int|
                0 <= k < hashes.len() ==> is_purged(scope_links, #[trigger] bytes::blobs(hashes@)[k]),
    {
        assert(scope_links[i as int] == scopes@[i as int]@);
        if marks[i] && !holds_blob(&hashes, &scopes[i].hash) {
            let ghost before = bytes::blobs(hashes@);
            assert(before.len() == hashes@.len());
            push_blob(&mut hashes, copy_blob(&scopes[i].hash));
            assert(bytes::blobs(hashes@).len() == hashes@.len());
            assert(is_purged(scope_links, scope_links[i as int].hash));
            assert(bytes::blobs(hashes@)[before.len() as int] == scope_links[i as int].hash);
            assert forall|j: int| 0 <= j < i && marks@[j] implies bytes::blobs(hashes@).contains(
                (#[trigger] scope_links[j]).hash,
            ) by {
                let k = before.index_of(scope_links[j].hash);
                assert(bytes::blobs(hashes@)[k] == scope_links[j].hash);
            }
            assert forall|k: int| 0 <= k < hashes.len() implies is_purged(
                scope_links,
                #[trigger] bytes::blobs(hashes@)[k],
            ) by {
                if k < before.len() {
                    assert(bytes::blobs(hashes@)[k] == before[k]);
                }
            }
        }
    }
    assert forall|hash: Seq<u8>| #[trigger] bytes::blobs(hashes@).contains(hash) <==> is_purged(
        scope_links,
        hash,
    ) by {
        if is_purged(scope_links, hash) {
            purge_is_least(scope_links, marked, hash);
            let i = choose|i: int|
                0 <= i < scope_links.len() && marks@[i] && (#[trigger] scope_links[i]).hash == hash;
            assert(bytes::blobs(hashes@).contains(scope_links[i].hash));
        }
    }
    hashes
}

/// The scopes that a stored job refers to.
#[derive(Debug)]
pub struct JobScopes {
    pub id: String,
    pub scope_hash: Option<Vec<u8>>,
    pub start_scope: Option<Vec<u8>>,
    pub end_scope: Option<Vec<u8>>,
}

/// The scopes that a stored job refers to, as values.
pub struct JobLinks {
    pub id: Seq<char>,
    pub scope_hash: Option<Seq<u8>>,
    pub start_scope: Option<Seq<u8>>,
    pub end_scope: Option<Seq<u8>>,
}

impl View for JobScopes {
    type V = JobLinks;

    open spec fn view(&self) -> JobLinks {
        JobLinks {
            id: self.id@,
            scope_hash: bytes::optional_blob(self.scope_hash),
            start_scope: bytes::optional_blob(self.start_scope),
            end_scope: bytes::optional_blob(self.end_scope),
        }
    }
}

/// The scope that a stored cron refers to.
#[derive(Debug)]
pub struct CronScope {
    pub id: String,
    pub scope_hash: Option<Vec<u8>>,
    pub enabled: bool,
}

/// What a purge did.
#[derive(Clone, Copy, PartialEq, Eq, Structural, Debug)]
pub struct SensitiveScopePurgeReport {
    pub removed_scopes: usize,
    pub cleared_job_rows: usize,
    pub cleared_crons: usize,
    pub disabled_scope_crons: usize,
}

/// What a purge has to change.
#[derive(Debug)]
pub struct ScopePurge {
    /// The scopes to delete.
    pub hashes: Vec<Vec<u8>>,
    /// The jobs to rewrite, as they have to be.
    pub jobs: Vec<JobScopes>,
    /// The crons that lose their scope and are paused.
    pub crons: Vec<String>,
    /// Whether the head is to be forgotten.
    pub drop_head: bool,
    pub report: SensitiveScopePurgeReport,
}

/// A reference to a scope that is purged.
pub open spec fn refers_to_purged(scopes: Seq<ScopeLink>, reference: Option<Seq<u8>>) -> bool {
    reference matches Some(hash) && is_purged(scopes, hash)
}

/// A reference after the purge.
pub open spec fn repaired(scopes: Seq<ScopeLink>, reference: Option<Seq<u8>>) -> Option<Seq<u8>> {
    if refers_to_purged(scopes, reference) {
        None
    } else {
        reference
    }
}

pub open spec fn job_refers_to_purged(scopes: Seq<ScopeLink>, job: JobLinks) -> bool {
    ||| refers_to_purged(scopes, job.scope_hash)
    ||| refers_to_purged(scopes, job.start_scope)
    ||| refers_to_purged(scopes, job.end_scope)
}

/// A job after the purge.
pub open spec fn repaired_job(scopes: Seq<ScopeLink>, job: JobLinks) -> JobLinks {
    JobLinks {
        id: job.id,
        scope_hash: repaired(scopes, job.scope_hash),
        start_scope: repaired(scopes, job.start_scope),
        end_scope: repaired(scopes, job.end_scope),
    }
}

/// The stored jobs, as values.
pub open spec fn job_links(jobs: Seq<JobScopes>) -> Seq<JobLinks> {
    jobs.map_values(|job: JobScopes| job@)
}

/// Those of the first `n` jobs that the purge rewrites, as they then are.
pub open spec fn rewritten_jobs(scopes: Seq<ScopeLink>, jobs: Seq<JobLinks>, n: int) -> Seq<
    JobLinks,
>
    decreases n,
{
    if n <= 0 || n > jobs.len() {
        Seq::empty()
    } else if job_refers_to_purged(scopes, jobs[n - 1]) {
        rewritten_jobs(scopes, jobs, n - 1).push(repaired_job(scopes, jobs[n - 1]))
    } else {
        rewritten_jobs(scopes, jobs, n - 1)
    }
}

/// Those of the first `n` crons that lose their scope.
pub open spec fn cleared_crons(scopes: Seq<ScopeLink>, crons: Seq<CronScope>, n: int) -> Seq<
    Seq<char>,
>
    decreases n,
{
    if n <= 0 || n > crons.len() {
        Seq::empty()
    } else if refers_to_purged(scopes, bytes::optional_blob(crons[n - 1].scope_hash)) {
        cleared_crons(scopes, crons, n - 1).push(crons[n - 1].id@)
    } else {
        cleared_crons(scopes, crons, n - 1)
    }
}

/// How many of the first `n` crons ran and lose their scope.
pub open spec fn disabled_crons(scopes: Seq<ScopeLink>, crons: Seq<CronScope>, n: int) -> nat
    decreases n,
{
    if n <= 0 || n > crons.len() {
        0
    } else if refers_to_purged(scopes, bytes::optional_blob(crons[n - 1].scope_hash))
        && crons[n - 1].enabled {
        disabled_crons(scopes, crons, n - 1) + 1
    } else {
        disabled_crons(scopes, crons, n - 1)
    }
}

/// How many of the first `n` stored scopes are purged.
pub open spec fn removed_scopes(scopes: Seq<ScopeLink>, n: int) -> nat
    decreases n,
{
    if n <= 0 || n > scopes.len() {
        0
    } else if is_purged(scopes, scopes[n - 1].hash) {
        removed_scopes(scopes, n - 1) + 1
    } else {
        removed_scopes(scopes, n - 1)
    }
}

/// The hashes are those that are purged.
pub open spec fn lists_purged(scopes: Seq<ScopeLink>, hashes: Seq<Seq<u8>>) -> bool {
    forall|hash: Seq<u8>| #[trigger] hashes.contains(hash) <==> is_purged(scopes, hash)
}

fn reference_is_purged(
    Ghost(scopes): Ghost<Seq<ScopeLink>>,
    hashes: &Vec<Vec<u8>>,
    reference: &Option<Vec<u8>>,
) -> (result: bool)
    requires
        lists_purged(scopes, bytes::blobs(hashes@)),
    ensures
        result == refers_to_purged(scopes, bytes::optional_blob(*reference)),
{
    match reference {
        Some(hash) => {
            assert(bytes::blobs(hashes@).contains(hash@) <==> is_purged(scopes, hash@));
            holds_blob(hashes, hash)
        },
        None => false,
    }
}

fn repair_reference(
    Ghost(scopes): Ghost<Seq<ScopeLink>>,
    hashes: &Vec<Vec<u8>>,
    reference: &Option<Vec<u8>>,
) -> (result: Option<Vec<u8>>)
    requires
        lists_purged(scopes, bytes::blobs(hashes@)),
    ensures
        bytes::optional_blob(result) == repaired(scopes, bytes::optional_blob(*reference)),
{
    match reference {
        Some(hash) => {
            assert(bytes::blobs(hashes@).contains(hash@) <==> is_purged(scopes, hash@));
            if holds_blob(hashes, hash) {
                None
            } else {
                Some(copy_blob(hash))
            }
        },
        None => None,
    }
}

/// What has to change so that no stored scope holds credentials: scopes with credentials and their
/// descendants go, jobs forget them, crons that ran in them are paused, and a head among them is
/// forgotten.
pub fn purge_sensitive_scope_history(
    scopes: &Vec<PersistedScopeMetadata>,
    jobs: &Vec<JobScopes>,
    crons: &Vec<CronScope>,
    head: &Option<Vec<u8>>,
) -> (purge: ScopePurge)
    ensures
        lists_purged(links(scopes@), bytes::blobs(purge.hashes@)),
        job_links(purge.jobs@) == rewritten_jobs(
            links(scopes@),
            job_links(jobs@),
            jobs@.len() as int,
        ),
        text::texts(purge.crons@) == cleared_crons(
            links(scopes@),
            crons@,
            crons@.len() as int,
        ),
        purge.drop_head == refers_to_purged(links(scopes@), bytes::optional_blob(*head)),
        purge.report.removed_scopes == removed_scopes(links(scopes@), scopes@.len() as int),
        purge.report.cleared_job_rows == purge.jobs@.len(),
        purge.report.cleared_crons == purge.crons@.len(),
        purge.report.disabled_scope_crons == disabled_crons(
            links(scopes@),
            crons@,
            crons@.len() as int,
        ),
{
    let ghost scope_links = links(scopes@);
    let hashes = purged_hashes(scopes);
    let mut removed: usize = 0;
    for i in 0..scopes.len()
        invariant
            scope_links == links(scopes@),
            lists_purged(scope_links, bytes::blobs(hashes@)),
            removed == removed_scopes(scope_links, i as int),
            removed <= i,
    {
        assert(scope_links[i as int] == scopes@[i as int]@);
        assert(bytes::blobs(hashes@).contains(scope_links[i as int].hash) <==> is_purged(
            scope_links,
            scope_links[i as int].hash,
        ));
        if holds_blob(&hashes, &scopes[i].hash) {
            removed = removed + 1;
        }
    }
    let mut rewritten: Vec<JobScopes> = Vec::new();
    assert(job_links(rewritten@) =~= Seq::<JobLinks>::empty());
    for i in 0..jobs.len()
        invariant
            lists_purged(scope_links, bytes::blobs(hashes@)),
            job_links(rewritten@) == rewritten_jobs(scope_links, job_links(jobs@), i as int),
    {
        let job = &jobs[i];
        assert(job_links(jobs@)[i as int] == jobs@[i as int]@);
        if reference_is_purged(Ghost(scope_links), &hashes, &job.scope_hash) || reference_is_purged(
            Ghost(scope_links),
            &hashes,
            &job.start_scope,
        ) || reference_is_purged(Ghost(scope_links), &hashes, &job.end_scope) {
            let changed = JobScopes {
                id: job.id.clone(),
                scope_hash: repair_reference(Ghost(scope_links), &hashes, &job.scope_hash),
                start_scope: repair_reference(Ghost(scope_links), &hashes, &job.start_scope),
                end_scope: repair_reference(Ghost(scope_links), &hashes, &job.end_scope),
            };
            let ghost before = rewritten@;
            rewritten.push(changed);
            assert(job_links(rewritten@) =~= job_links(before).push(changed@));
        }
    }
    let mut paused: Vec<String> = Vec::new();
    let mut disabled: usize = 0;
    assert(text::texts(paused@) =~= Seq::<Seq<char>>::empty());
    for i in 0..crons.len()
        invariant
            lists_purged(scope_links, bytes::blobs(hashes@)),
            text::texts(paused@) == cleared_crons(scope_links, crons@, i as int),
            disabled == disabled_crons(scope_links, crons@, i as int),
            disabled <= i,
    {
        if reference_is_purged(Ghost(scope_links), &hashes, &crons[i].scope_hash) {
            let ghost before = paused@;
            let id = crons[i].id.clone();
            paused.push(id);
            assert(text::texts(paused@) =~= text::texts(before).push(id@));
            if crons[i].enabled {
                disabled = disabled + 1;
            }
        }
    }
    let drop_head = reference_is_purged(Ghost(scope_links), &hashes, head);
    let report = SensitiveScopePurgeReport {
        removed_scopes: removed,
        cleared_job_rows: rewritten.len(),
        cleared_crons: paused.len(),
        disabled_scope_crons: disabled,
    };
    ScopePurge { hashes, jobs: rewritten, crons: paused, drop_head, report }
}

/// After a purge no job refers to a scope that is gone.
pub proof fn purged_jobs_refer_to_nothing_gone(scopes: Seq<ScopeLink>, job: JobLinks)
    ensures
        !job_refers_to_purged(scopes, repaired_job(scopes, job)),
        !job_refers_to_purged(scopes, job) ==> repaired_job(scopes, job) == job,
{
}

/// What a sweep has to change.
#[derive(Debug)]
pub struct ScopeSweep {
    /// The scopes to delete.
    pub removed: Vec<Vec<u8>>,
    /// Whether the head is to be forgotten.
    pub drop_head: bool,
}

/// The bytes of the scopes that are still reachable.
pub open spec fn hash_bytes(hashes: Seq<Digest>) -> Seq<Seq<u8>> {
    hashes.map_values(|hash: Digest| hash.bytes@)
}

/// A stored scope that is not reachable although a record refers to it.
pub open spec fn is_unmarked_reference(
    scope: Seq<u8>,
    references: Seq<Seq<u8>>,
    reachable: Seq<Seq<u8>>,
) -> bool {
    !reachable.contains(scope) && references.contains(scope)
}

/// No stored scope is unreachable while a record refers to it.
pub open spec fn may_sweep(
    scopes: Seq<Seq<u8>>,
    references: Seq<Seq<u8>>,
    reachable: Seq<Seq<u8>>,
) -> bool {
    forall|i: int|
        0 <= i < scopes.len() ==> !is_unmarked_reference(
            #[trigger] scopes[i],
            references,
            reachable,
        )
}

/// Those of the first `n` stored scopes that are not reachable.
pub open spec fn unreachable_scopes(scopes: Seq<Seq<u8>>, reachable: Seq<Seq<u8>>, n: int) -> Seq<
    Seq<u8>,
>
    decreases n,
{
    if n <= 0 || n > scopes.len() {
        Seq::empty()
    } else if reachable.contains(scopes[n - 1]) {
        unreachable_scopes(scopes, reachable, n - 1)
    } else {
        unreachable_scopes(scopes, reachable, n - 1).push(scopes[n - 1])
    }
}

/// A digit in base sixteen, in upper case.
pub open spec fn hex_digit(n: u8) -> char {
    if n < 10 {
        (48 + n) as char
    } else {
        (65 + (n - 10)) as char
    }
}

/// Bytes in base sixteen, in upper case.
pub open spec fn hex(bytes: Seq<u8>) -> Seq<char>
    decreases bytes.len(),
{
    if bytes.len() == 0 {
        Seq::empty()
    } else {
        hex(bytes.drop_last()).push(hex_digit(bytes.last() / 16)).push(hex_digit(bytes.last() % 16))
    }
}

fn hex_char(n: u8) -> (c: char)
    requires
        n < 16,
    ensures
        c == hex_digit(n),
{
    if n < 10 {
        (48 + n) as char
    } else {
        (65 + (n - 10)) as char
    }
}

fn hex_text(bytes: &Vec<u8>) -> (result: String)
    ensures
        result@ == hex(bytes@),
{
    let mut result = String::new();
    for i in 0..bytes.len()
        invariant
            result@ == hex(bytes@.take(i as int)),
    {
        assert(bytes@.take(i + 1).drop_last() =~= bytes@.take(i as int));
        result.push(hex_char(bytes[i] / 16));
        result.push(hex_char(bytes[i] % 16));
    }
    assert(bytes@.take(bytes@.len() as int) =~= bytes@);
    result
}

/// Why a sweep is refused.
pub open spec fn sweep_refusal(scope: Seq<u8>) -> Seq<char> {
    "refusing scope sweep: persisted job, cron, or session still references unmarked scope "@ + hex(
        scope,
    )
}

fn is_reachable(reachable: &Vec<Digest>, scope: &Vec<u8>) -> (result: bool)
    ensures
        result == hash_bytes(reachable@).contains(scope@),
{
    for i in 0..reachable.len()
        invariant
            forall|j: int| 0 <= j < i ==> #[trigger] hash_bytes(reachable@)[j] != scope@,
    {
        let bytes = digest_bytes(&reachable[i]);
        assert(hash_bytes(reachable@)[i as int] == bytes@);
        if same_bytes(&bytes, scope) {
            return true;
        }
    }
    false
}

/// Decides which stored scopes go because they are not reachable.
///
/// `reachable` holds with each scope its ancestors. `references` are the scopes that stored jobs,
/// crons and sessions refer to: where one of them is stored and not reachable, nothing goes.
pub fn sweep_scopes(
    scopes: &Vec<Vec<u8>>,
    references: &Vec<Vec<u8>>,
    head: &Option<Vec<u8>>,
    reachable: &Vec<Digest>,
) -> (result: Result<ScopeSweep, String>)
    ensures
        match result {
            Ok(sweep) => {
                &&& may_sweep(bytes::blobs(scopes@), bytes::blobs(references@), hash_bytes(reachable@))
                &&& bytes::blobs(sweep.removed@) == unreachable_scopes(
                    bytes::blobs(scopes@),
                    hash_bytes(reachable@),
                    scopes@.len() as int,
                )
                &&& sweep.drop_head == (bytes::optional_blob(*head) matches Some(hash) && !hash_bytes(
                    reachable@,
                ).contains(hash))
            },
            Err(message) => exists|i: int|
                0 <= i < scopes@.len() && is_unmarked_reference(
                    #[trigger] bytes::blobs(scopes@)[i],
                    bytes::blobs(references@),
                    hash_bytes(reachable@),
                ) && message@ == sweep_refusal(bytes::blobs(scopes@)[i]),
        },
{
    let ghost marked = hash_bytes(reachable@);
    let mut removed: Vec<Vec<u8>> = Vec::new();
    assert(bytes::blobs(removed@) =~= Seq::<Seq<u8>>::empty());
    for i in 0..scopes.len()
        invariant
            marked == hash_bytes(reachable@),
            bytes::blobs(removed@) == unreachable_scopes(bytes::blobs(scopes@), marked, i as int),
            forall|j: int|
                0 <= j < i ==> !is_unmarked_reference(
                    #[trigger] bytes::blobs(scopes@)[j],
                    bytes::blobs(references@),
                    marked,
                ),
    {
        assert(bytes::blobs(scopes@)[i as int] == scopes@[i as int]@);
        if !is_reachable(reachable, &scopes[i]) {
            if holds_blob(references, &scopes[i]) {
                let hash = hex_text(&scopes[i]);
                let message = join2(
                    "refusing scope sweep: persisted job, cron, or session still references unmarked scope ",
                    hash.as_str(),
                );
                assert(is_unmarked_reference(
                    bytes::blobs(scopes@)[i as int],
                    bytes::blobs(references@),
                    marked,
                ));
                return Err(message);
            }
            push_blob(&mut removed, copy_blob(&scopes[i]));
        }
    }
    let drop_head = match head {
        Some(hash) => !is_reachable(reachable, hash),
        None => false,
    };
    Ok(ScopeSweep { removed, drop_head })
}

proof fn lemma_unreachable_scopes(
    scopes: Seq<Seq<u8>>,
    reachable: Seq<Seq<u8>>,
    n: int,
    scope: Seq<u8>,
)
    requires
        0 <= n <= scopes.len(),
    ensures
        unreachable_scopes(scopes, reachable, n).contains(scope) <==> scopes.take(n).contains(scope)
            && !reachable.contains(scope),
    decreases n,
{
    if n > 0 {
        lemma_unreachable_scopes(scopes, reachable, n - 1, scope);
        let before = unreachable_scopes(scopes, reachable, n - 1);
        let after = unreachable_scopes(scopes, reachable, n);
        if before.contains(scope) {
            let k = before.index_of(scope);
            assert(after[k] == scope);
        }
        if !reachable.contains(scopes[n - 1]) {
            assert(after[before.len() as int] == scopes[n - 1]);
            if after.contains(scope) && scope != scopes[n - 1] {
                let k = after.index_of(scope);
                assert(before[k] == scope);
            }
        }
        if scopes.take(n).contains(scope) && scope != scopes[n - 1] {
            let k = scopes.take(n).index_of(scope);
            assert(scopes.take(n - 1)[k] == scope);
        }
        if scopes.take(n - 1).contains(scope) {
            let k = scopes.take(n - 1).index_of(scope);
            assert(scopes.take(n)[k] == scope);
        }
        assert(scopes.take(n)[n - 1] == scopes[n - 1]);
    }
}

/// A sweep takes exactly the stored scopes that are not reachable, and never one that a record
/// refers to.
pub proof fn sweep_takes_only_what_nothing_needs(
    scopes: Seq<Seq<u8>>,
    references: Seq<Seq<u8>>,
    reachable: Seq<Seq<u8>>,
    scope: Seq<u8>,
)
    requires
        may_sweep(scopes, references, reachable),
    ensures
        unreachable_scopes(scopes, reachable, scopes.len() as int).contains(scope)
            <==> scopes.contains(scope) && !reachable.contains(scope),
        references.contains(scope) ==> !unreachable_scopes(
            scopes,
            reachable,
            scopes.len() as int,
        ).contains(scope),
{
    lemma_unreachable_scopes(scopes, reachable, scopes.len() as int, scope);
    assert(scopes.take(scopes.len() as int) =~= scopes);
    if scopes.contains(scope) {
        let i = scopes.index_of(scope);
        assert(!is_unmarked_reference(scopes[i], references, reachable));
    }
}

/// A purge takes every scope that holds credentials and, with a scope, every child of it, and takes
/// nothing but what follows from that.
pub proof fn purge_takes_credentials_and_descendants(
    scopes: &Vec<PersistedScopeMetadata>,
    jobs: &Vec<JobScopes>,
    crons: &Vec<CronScope>,
    head: &Option<Vec<u8>>,
    purge: ScopePurge,
    i: int,
    others: Set<Seq<u8>>,
    hash: Seq<u8>,
)
    requires
        call_ensures(purge_sensitive_scope_history, (scopes, jobs, crons, head), purge),
        forall|k: int|
            0 <= k < scopes@.len() && ((#[trigger] scopes@[k]).contains_sensitive_environment || (
            scopes@[k].parent matches Some(parent) && others.contains(parent@)))
                ==> others.contains(scopes@[k].hash@),
    ensures
        ({
            let gone = bytes::blobs(purge.hashes@);
            &&& 0 <= i < scopes@.len() && scopes@[i].contains_sensitive_environment
                ==> gone.contains(scopes@[i].hash@)
            &&& 0 <= i < scopes@.len() ==> (scopes@[i].parent matches Some(parent) ==> (
            gone.contains(parent@) ==> gone.contains(scopes@[i].hash@)))
            &&& gone.contains(hash) ==> others.contains(hash)
            &&& purge.drop_head <==> (*head matches Some(hash) && gone.contains(hash@))
        }),
{
    let scope_links = links(scopes@);
    if 0 <= i < scopes@.len() {
        assert(scope_links[i] == scopes@[i]@);
        purged_parents_leave_no_children(scope_links, i);
    }
    assert forall|k: int|
        0 <= k < scope_links.len() && ((#[trigger] scope_links[k]).sensitive || (
        scope_links[k].parent matches Some(parent) && others.contains(
            parent,
        ))) implies others.contains(scope_links[k].hash) by {
        assert(scope_links[k] == scopes@[k]@);
    }
    if bytes::blobs(purge.hashes@).contains(hash) {
        purge_is_least(scope_links, others, hash);
    }
}

proof fn lemma_rewritten(scopes: Seq<ScopeLink>, jobs: Seq<JobLinks>, n: int, i: int) -> (at: int)
    requires
        0 <= i < n <= jobs.len(),
        job_refers_to_purged(scopes, jobs[i]),
    ensures
        0 <= at < rewritten_jobs(scopes, jobs, n).len(),
        rewritten_jobs(scopes, jobs, n)[at] == repaired_job(scopes, jobs[i]),
    decreases n,
{
    if i == n - 1 {
        rewritten_jobs(scopes, jobs, i).len() as int
    } else {
        lemma_rewritten(scopes, jobs, n - 1, i)
    }
}

proof fn lemma_rewritten_job(scopes: Seq<ScopeLink>, jobs: Seq<JobLinks>, n: int, at: int) -> (i: int)
    requires
        0 <= n <= jobs.len(),
        0 <= at < rewritten_jobs(scopes, jobs, n).len(),
    ensures
        0 <= i < n,
        job_refers_to_purged(scopes, jobs[i]),
        rewritten_jobs(scopes, jobs, n)[at] == repaired_job(scopes, jobs[i]),
    decreases n,
{
    if at < rewritten_jobs(scopes, jobs, n - 1).len() {
        lemma_rewritten_job(scopes, jobs, n - 1, at)
    } else {
        n - 1
    }
}

/// A job forgets, of its three scopes, exactly those that are gone, and only jobs that do are
/// rewritten.
pub proof fn jobs_forget_what_is_gone(
    scopes: &Vec<PersistedScopeMetadata>,
    jobs: &Vec<JobScopes>,
    crons: &Vec<CronScope>,
    head: &Option<Vec<u8>>,
    purge: ScopePurge,
    i: int,
    k: int,
)
    requires
        call_ensures(purge_sensitive_scope_history, (scopes, jobs, crons, head), purge),
    ensures
        ({
            let gone = bytes::blobs(purge.hashes@);
            let left = |reference: Option<Vec<u8>>|
                if reference matches Some(hash) && gone.contains(hash@) {
                    None
                } else {
                    bytes::optional_blob(reference)
                };
            let refers = |reference: Option<Vec<u8>>|
                (reference matches Some(hash) && gone.contains(hash@));
            &&& 0 <= i < jobs@.len() && (refers(jobs@[i].scope_hash) || refers(jobs@[i].start_scope)
                || refers(jobs@[i].end_scope)) ==> exists|at: int|
                0 <= at < purge.jobs@.len() && (#[trigger] purge.jobs@[at]).id@ == jobs@[i].id@
                    && bytes::optional_blob(purge.jobs@[at].scope_hash) == left(jobs@[i].scope_hash)
                    && bytes::optional_blob(purge.jobs@[at].start_scope) == left(
                    jobs@[i].start_scope,
                ) && bytes::optional_blob(purge.jobs@[at].end_scope) == left(jobs@[i].end_scope)
            &&& 0 <= k < purge.jobs@.len() ==> exists|from: int|
                0 <= from < jobs@.len() && (#[trigger] jobs@[from]).id@ == purge.jobs@[k].id@ && (
                refers(jobs@[from].scope_hash) || refers(jobs@[from].start_scope) || refers(
                    jobs@[from].end_scope,
                ))
            &&& purge.report.cleared_job_rows == purge.jobs@.len()
        }),
{
    let scope_links = links(scopes@);
    let all = job_links(jobs@);
    let n = jobs@.len() as int;
    let gone = bytes::blobs(purge.hashes@);
    assert forall|hash: Seq<u8>| #[trigger] gone.contains(hash) <==> is_purged(scope_links, hash) by {}
    assert(job_links(purge.jobs@).len() == purge.jobs@.len());
    if 0 <= i < n && job_refers_to_purged(scope_links, all[i]) {
        let at = lemma_rewritten(scope_links, all, n, i);
        assert(job_links(purge.jobs@)[at] == purge.jobs@[at]@);
        assert(all[i] == jobs@[i]@);
        assert(purge.jobs@[at].id@ == jobs@[i].id@);
    }
    if 0 <= i < n {
        assert(all[i] == jobs@[i]@);
    }
    if 0 <= k < purge.jobs@.len() {
        let from = lemma_rewritten_job(scope_links, all, n, k);
        assert(job_links(purge.jobs@)[k] == purge.jobs@[k]@);
        assert(all[from] == jobs@[from]@);
        assert(jobs@[from].id@ == purge.jobs@[k].id@);
    }
}

proof fn lemma_cleared(scopes: Seq<ScopeLink>, crons: Seq<CronScope>, n: int, i: int)
    requires
        0 <= i < n <= crons.len(),
        refers_to_purged(scopes, bytes::optional_blob(crons[i].scope_hash)),
    ensures
        cleared_crons(scopes, crons, n).contains(crons[i].id@),
    decreases n,
{
    let after = cleared_crons(scopes, crons, n);
    if i == n - 1 {
        assert(after.last() == crons[i].id@);
        assert(after[after.len() - 1] == crons[i].id@);
    } else {
        lemma_cleared(scopes, crons, n - 1, i);
        let before = cleared_crons(scopes, crons, n - 1);
        let at = before.index_of(crons[i].id@);
        assert(after[at] == crons[i].id@);
    }
}

proof fn lemma_cleared_cron(scopes: Seq<ScopeLink>, crons: Seq<CronScope>, n: int, at: int) -> (i: int)
    requires
        0 <= n <= crons.len(),
        0 <= at < cleared_crons(scopes, crons, n).len(),
    ensures
        0 <= i < n,
        refers_to_purged(scopes, bytes::optional_blob(crons[i].scope_hash)),
        cleared_crons(scopes, crons, n)[at] == crons[i].id@,
    decreases n,
{
    if at < cleared_crons(scopes, crons, n - 1).len() {
        lemma_cleared_cron(scopes, crons, n - 1, at)
    } else {
        n - 1
    }
}

proof fn lemma_counted(scopes: Seq<ScopeLink>, crons: Seq<CronScope>, gone: Seq<Seq<u8>>, n: int)
    requires
        lists_purged(scopes, gone),
        0 <= n <= crons.len(),
    ensures
        disabled_crons(scopes, crons, n) == crons.take(n).filter(
            |cron: CronScope|
                cron.enabled && (cron.scope_hash matches Some(hash) && gone.contains(hash@)),
        ).len(),
    decreases n,
{
    reveal(Seq::filter);
    if n > 0 {
        lemma_counted(scopes, crons, gone, n - 1);
        assert(crons.take(n).drop_last() =~= crons.take(n - 1));
        assert(crons.take(n).last() == crons[n - 1]);
        if let Some(hash) = crons[n - 1].scope_hash {
            assert(gone.contains(hash@) <==> is_purged(scopes, hash@));
        }
    }
}

proof fn lemma_removed(
    scopes: Seq<PersistedScopeMetadata>,
    gone: Seq<Seq<u8>>,
    n: int,
)
    requires
        lists_purged(links(scopes), gone),
        0 <= n <= scopes.len(),
    ensures
        removed_scopes(links(scopes), n) == scopes.take(n).filter(
            |scope: PersistedScopeMetadata| gone.contains(scope.hash@),
        ).len(),
    decreases n,
{
    reveal(Seq::filter);
    if n > 0 {
        lemma_removed(scopes, gone, n - 1);
        assert(scopes.take(n).drop_last() =~= scopes.take(n - 1));
        assert(scopes.take(n).last() == scopes[n - 1]);
        assert(links(scopes)[n - 1] == scopes[n - 1]@);
        assert(gone.contains(scopes[n - 1].hash@) <==> is_purged(links(scopes), scopes[n - 1].hash@));
    }
}

/// Exactly the crons whose scope is gone lose it, and those of them that ran are counted, as are the
/// scopes.
pub proof fn crons_lose_what_is_gone(
    scopes: &Vec<PersistedScopeMetadata>,
    jobs: &Vec<JobScopes>,
    crons: &Vec<CronScope>,
    head: &Option<Vec<u8>>,
    purge: ScopePurge,
    i: int,
    k: int,
)
    requires
        call_ensures(purge_sensitive_scope_history, (scopes, jobs, crons, head), purge),
    ensures
        ({
            let gone = bytes::blobs(purge.hashes@);
            &&& 0 <= i < crons@.len() && (crons@[i].scope_hash matches Some(hash) && gone.contains(
                hash@,
            )) ==> text::texts(purge.crons@).contains(crons@[i].id@)
            &&& 0 <= k < purge.crons@.len() ==> exists|from: int|
                0 <= from < crons@.len() && (#[trigger] crons@[from]).id@ == purge.crons@[k]@ && (
                crons@[from].scope_hash matches Some(hash) && gone.contains(hash@))
            &&& purge.report.cleared_crons == purge.crons@.len()
            &&& purge.report.disabled_scope_crons == crons@.filter(
                |cron: CronScope|
                    cron.enabled && (cron.scope_hash matches Some(hash) && gone.contains(hash@)),
            ).len()
            &&& purge.report.removed_scopes == scopes@.filter(
                |scope: PersistedScopeMetadata| gone.contains(scope.hash@),
            ).len()
        }),
{
    let scope_links = links(scopes@);
    let gone = bytes::blobs(purge.hashes@);
    let n = crons@.len() as int;
    assert forall|hash: Seq<u8>| #[trigger] gone.contains(hash) <==> is_purged(scope_links, hash) by {}
    lemma_counted(scope_links, crons@, gone, n);
    lemma_removed(scopes@, gone, scopes@.len() as int);
    assert(crons@.take(n) =~= crons@);
    assert(scopes@.take(scopes@.len() as int) =~= scopes@);
    if 0 <= i < n && (crons@[i].scope_hash matches Some(hash) && gone.contains(hash@)) {
        lemma_cleared(scope_links, crons@, n, i);
    }
    if 0 <= k < purge.crons@.len() {
        assert(text::texts(purge.crons@)[k] == purge.crons@[k]@);
        let from = lemma_cleared_cron(scope_links, crons@, n, k);
        assert(crons@[from].id@ == purge.crons@[k]@);
    }
}

/// A purge reads of a row its hash and its parent as they are, and takes one that it cannot read for one
/// with credentials.
pub proof fn unreadable_rows_are_purged(
    hash: Vec<u8>,
    parent: Option<Vec<u8>>,
    delta: &StoredJson<EnvDelta>,
    snapshot: &StoredJson<EnvSnapshot>,
    scope: PersistedScopeMetadata,
)
    requires
        call_ensures(PersistedScopeMetadata::from_row, (hash, parent, delta, snapshot), scope),
    ensures
        scope.hash == hash,
        scope.parent == parent,
        delta is Corrupt || snapshot is Corrupt ==> scope.contains_sensitive_environment,
        delta is Absent && snapshot is Absent ==> !scope.contains_sensitive_environment,
{
}

/// A sweep takes exactly the stored scopes that are not reachable. It takes nothing exactly where a record
/// refers to one of these. The head goes exactly where it is not reachable.
pub proof fn sweep_is_all_or_nothing(
    scopes: &Vec<Vec<u8>>,
    references: &Vec<Vec<u8>>,
    head: &Option<Vec<u8>>,
    reachable: &Vec<Digest>,
    result: Result<ScopeSweep, String>,
    scope: Seq<u8>,
    marked: Digest,
)
    requires
        call_ensures(sweep_scopes, (scopes, references, head, reachable), result),
    ensures
        ({
            let stored = bytes::blobs(scopes@);
            let kept = reachable@.map_values(|hash: Digest| hash.bytes@);
            &&& stored.contains(scope) && bytes::blobs(references@).contains(scope)
                && !kept.contains(scope) ==> result is Err
            &&& result is Err ==> exists|found: Seq<u8>| #[trigger]
                stored.contains(found) && bytes::blobs(references@).contains(found)
                    && !kept.contains(found)
            &&& result matches Ok(sweep) ==> (bytes::blobs(sweep.removed@).contains(scope)
                <==> stored.contains(scope) && !kept.contains(scope))
            &&& result matches Ok(sweep) ==> (sweep.drop_head <==> (*head matches Some(hash)
                && !kept.contains(hash@)))
            &&& reachable@.contains(marked) ==> kept.contains(marked.bytes@)
        }),
{
    let stored = bytes::blobs(scopes@);
    let kept = hash_bytes(reachable@);
    assert(kept =~= reachable@.map_values(|hash: Digest| hash.bytes@));
    if reachable@.contains(marked) {
        let k = reachable@.index_of(marked);
        assert(kept[k] == marked.bytes@);
    }
    if let Ok(sweep) = result {
        sweep_takes_only_what_nothing_needs(stored, bytes::blobs(references@), kept, scope);
        if stored.contains(scope) {
            let i = stored.index_of(scope);
            assert(!is_unmarked_reference(stored[i], bytes::blobs(references@), kept));
        }
    } else {
        let i = choose|i: int|
            0 <= i < scopes@.len() && is_unmarked_reference(
                #[trigger] stored[i],
                bytes::blobs(references@),
                kept,
            );
        assert(stored.contains(stored[i]));
    }
}

proof fn lemma_hex_digit(n: u8)
    requires
        n < 16,
    ensures
        "0123456789ABCDEF"@[n as int] == hex_digit(n),
{
    reveal_strlit("0123456789ABCDEF");
    assert(n == 0 || n == 1 || n == 2 || n == 3 || n == 4 || n == 5 || n == 6 || n == 7 || n == 8 || n
        == 9 || n == 10 || n == 11 || n == 12 || n == 13 || n == 14 || n == 15);
}

proof fn lemma_hex(blob: Seq<u8>, i: int)
    ensures
        hex(blob).len() == 2 * blob.len(),
        0 <= i < blob.len() ==> hex(blob)[2 * i] == "0123456789ABCDEF"@[blob[i] as int / 16]
            && hex(blob)[2 * i + 1] == "0123456789ABCDEF"@[blob[i] as int % 16],
    decreases blob.len(),
{
    if blob.len() > 0 {
        lemma_hex(blob.drop_last(), i);
        let last = blob.last();
        lemma_hex_digit(last / 16);
        lemma_hex_digit(last % 16);
    }
}

/// A sweep that is refused names a scope that is still needed, each of its bytes by two digits of base
/// sixteen.
pub proof fn refused_sweep_names_the_scope(
    scopes: &Vec<Vec<u8>>,
    references: &Vec<Vec<u8>>,
    head: &Option<Vec<u8>>,
    reachable: &Vec<Digest>,
    message: String,
)
    requires
        call_ensures(
            sweep_scopes,
            (scopes, references, head, reachable),
            Err::<ScopeSweep, String>(message),
        ),
    ensures
        exists|scope: Seq<u8>, digits: Seq<char>|
            #![trigger bytes::blobs(scopes@).contains(scope), digits.len()]
            bytes::blobs(scopes@).contains(scope) && bytes::blobs(references@).contains(scope)
                && digits.len() == 2 * scope.len() && (forall|i: int|
                #![trigger scope[i]]
                0 <= i < scope.len() ==> digits[2 * i] == "0123456789ABCDEF"@[scope[i] as int / 16]
                    && digits[2 * i + 1] == "0123456789ABCDEF"@[scope[i] as int % 16]) && message@
                == "refusing scope sweep: persisted job, cron, or session still references unmarked scope "@
                + digits,
{
    let stored = bytes::blobs(scopes@);
    let kept = hash_bytes(reachable@);
    let i = choose|i: int|
        0 <= i < scopes@.len() && is_unmarked_reference(
            #[trigger] stored[i],
            bytes::blobs(references@),
            kept,
        ) && message@ == sweep_refusal(stored[i]);
    let scope = stored[i];
    let digits = hex(scope);
    assert(stored.contains(scope));
    lemma_hex(scope, 0);
    assert forall|k: int|
        #![trigger scope[k]]
        0 <= k < scope.len() implies digits[2 * k] == "0123456789ABCDEF"@[scope[k] as int / 16]
        && digits[2 * k + 1] == "0123456789ABCDEF"@[scope[k] as int % 16] by {
        lemma_hex(scope, k);
    }
    assert(digits.len() == 2 * scope.len());
}

} // verus!
