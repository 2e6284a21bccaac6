//! Bounded ledger of side-effecting requests: each identity is executed at most once for the
//! lifetime of the daemon.
use crate::assoc;
use crate::assoc::{AssocMap, Key};
use crate::digest;
use crate::digest::{blake3_hash, push_be_bytes, Digest};
use crate::ipc;
use crate::ipc::{ErrorCode, ResponsePayload};
use crate::text;
use crate::text::{debug_text, decimal_text, has_padding, join3};
use std::sync::Arc;
use vstd::prelude::*;

verus! {

/// How long the identity of an operation may be, in bytes of UTF-8.
pub const MAX_OPERATION_ID_BYTES: usize = 128;

pub const DEFAULT_IDENTITY_CAPACITY: usize = 65_536;

pub const DEFAULT_RESPONSE_CAPACITY: usize = 1_024;

/// A quarter of an hour in nanoseconds.
pub const DEFAULT_COMPLETED_TTL_NANOS: u64 = 900_000_000_000;

pub const DEFAULT_MAX_WAITERS: usize = 4;

/// Well below the size of one message, so that neither the envelope nor escaping can push a
/// cached reply over it.
pub const DEFAULT_MAX_RESPONSE_BYTES: usize = 8 * 1024 * 1024;

pub const DEFAULT_MAX_COMPLETED_BYTES: usize = 64 * 1024 * 1024;

/// One request of one connection.
#[derive(Clone, Copy, PartialEq, Eq, Structural, Debug)]
pub struct OperationWaiter {
    pub client_id: u64,
    pub request_id: u32,
}

impl Key for OperationWaiter {
    fn is(&self, other: &Self) -> (result: bool) {
        *self == *other
    }
}

/// The identity of an operation: the session that it belongs to and its own digest.
#[derive(Clone, Copy, Debug)]
pub struct OperationKey {
    pub session_namespace: Digest,
    pub operation_id_hash: Digest,
}

impl Key for OperationKey {
    fn is(&self, other: &Self) -> (result: bool) {
        self.session_namespace.is(&other.session_namespace) && self.operation_id_hash.is(
            &other.operation_id_hash,
        )
    }
}

/// What a caller has to do with a request.
#[derive(Debug)]
pub enum BeginOutcome {
    /// The caller owns the first execution and routes the request.
    Route,
    /// The same operation is pending; its reply goes to this request too.
    Wait,
    /// The request is answered at once, by a cached reply or by a refusal.
    Respond(Arc<ResponsePayload>),
}

/// A finished operation.
#[derive(Debug)]
pub struct CompletedOperation {
    /// The requests that receive the reply.
    pub waiters: Vec<OperationWaiter>,
    pub response: Arc<ResponsePayload>,
}

/// The bounds of a ledger.
#[derive(Clone, Copy, PartialEq, Eq, Structural, Debug)]
pub struct LedgerLimits {
    pub identity_capacity: usize,
    pub response_capacity: usize,
    pub completed_ttl_nanos: u64,
    pub max_waiters: usize,
    pub max_response_bytes: usize,
    pub max_completed_bytes: usize,
}

impl Default for LedgerLimits {
    fn default() -> (limits: Self)
        ensures
            limits == (LedgerLimits {
                identity_capacity: DEFAULT_IDENTITY_CAPACITY,
                response_capacity: DEFAULT_RESPONSE_CAPACITY,
                completed_ttl_nanos: DEFAULT_COMPLETED_TTL_NANOS,
                max_waiters: DEFAULT_MAX_WAITERS,
                max_response_bytes: DEFAULT_MAX_RESPONSE_BYTES,
                max_completed_bytes: DEFAULT_MAX_COMPLETED_BYTES,
            }),
            limits.countable(),
    {
        LedgerLimits {
            identity_capacity: DEFAULT_IDENTITY_CAPACITY,
            response_capacity: DEFAULT_RESPONSE_CAPACITY,
            completed_ttl_nanos: DEFAULT_COMPLETED_TTL_NANOS,
            max_waiters: DEFAULT_MAX_WAITERS,
            max_response_bytes: DEFAULT_MAX_RESPONSE_BYTES,
            max_completed_bytes: DEFAULT_MAX_COMPLETED_BYTES,
        }
    }
}

impl LedgerLimits {
    /// The bytes of the cached replies can be counted without overflow.
    pub open spec fn countable(&self) -> bool {
        &&& self.max_completed_bytes + self.max_response_bytes <= usize::MAX
        &&& self.max_response_bytes + self.max_response_bytes <= usize::MAX
    }
}

#[derive(Debug)]
enum OperationState {
    Pending { waiters: Vec<OperationWaiter> },
    Completed { response: Arc<ResponsePayload>, completed_at: u64, response_bytes: usize },
    /// The reply is gone; the identity stays, so that the side effect is never routed again.
    Tombstone,
}

#[derive(Debug)]
struct OperationEntry {
    fingerprint: Digest,
    state: OperationState,
}

/// Where an operation stands.
pub enum StateView {
    /// It runs, and these requests wait for its reply.
    Pending(Seq<OperationWaiter>),
    /// It is finished, and its reply is cached.
    Completed { response: ResponsePayload, completed_at: u64, response_bytes: nat },
    /// It is finished, and its reply is gone.
    Tombstone,
}

/// An operation of the ledger: the digest of its payload and where it stands.
pub struct EntryView {
    pub fingerprint: Digest,
    pub state: StateView,
}

/// What the ledger knows.
pub struct LedgerView {
    /// The operations in the order of their arrival.
    pub history: Seq<(OperationKey, EntryView)>,
    /// The one request of each pending operation whose reply completes it.
    pub routed: Map<OperationWaiter, OperationKey>,
    /// The requests that wait, each for one operation.
    pub pending: Map<OperationWaiter, OperationKey>,
    pub limits: LedgerLimits,
}

impl OperationEntry {
    spec fn entry_view(&self) -> EntryView {
        EntryView {
            fingerprint: self.fingerprint,
            state: match self.state {
                OperationState::Pending { waiters } => StateView::Pending(waiters@),
                OperationState::Completed { response, completed_at, response_bytes } => {
                    StateView::Completed {
                        response: *response,
                        completed_at,
                        response_bytes: response_bytes as nat,
                    }
                },
                OperationState::Tombstone => StateView::Tombstone,
            },
        }
    }
}

/// What entering a request comes to.
///
/// Replies that are too old are forgotten first, whatever becomes of the request. An improper
/// identity is refused; a proper one is looked up by its digest.
pub open spec fn begins(
    before: LedgerView,
    session_namespace: Digest,
    id: Seq<char>,
    fingerprint: Digest,
    waiter: OperationWaiter,
    now: u64,
    after: LedgerView,
    outcome: BeginOutcome,
) -> bool {
    let pruned = pruned_ledger(before, now);
    match operation_id_fault(id) {
        Some(message) => {
            &&& after == pruned
            &&& outcome_is(
                outcome,
                OutcomeView::Refuse { code: ErrorCode::InvalidRequest, message },
            )
        },
        None => exists|key: OperationKey| {
            &&& key.session_namespace == session_namespace
            &&& key.operation_id_hash.bytes@ == digest::blake3_digest(text::utf8(id))
            &&& after == #[trigger] begin_ledger(pruned, key, id, fingerprint, waiter)
            &&& outcome_is(outcome, begin_outcome(pruned, key, id, fingerprint, waiter))
        },
    }
}

/// How many replies are cached.
pub open spec fn cached_replies(history: Seq<(OperationKey, EntryView)>) -> nat
    decreases history.len(),
{
    if history.len() == 0 {
        0
    } else {
        cached_replies(history.drop_last()) + if history.last().1.state is Completed {
            1nat
        } else {
            0nat
        }
    }
}

/// The size of a cached reply.
pub open spec fn reply_bytes(entry: EntryView) -> nat {
    match entry.state {
        StateView::Completed { response_bytes, .. } => response_bytes,
        _ => 0,
    }
}

/// The size of the cached replies together.
pub open spec fn cached_bytes(history: Seq<(OperationKey, EntryView)>) -> nat
    decreases history.len(),
{
    if history.len() == 0 {
        0
    } else {
        cached_bytes(history.drop_last()) + reply_bytes(history.last().1)
    }
}

impl LedgerView {
    /// The operations by identity.
    pub open spec fn entries(&self) -> Map<OperationKey, EntryView> {
        assoc::as_map(self.history)
    }

    /// The requests that wait are those that the pending operations list, each under one
    /// operation; every pending operation that was routed is completed by one request; and the
    /// bounds hold.
    pub open spec fn valid(&self) -> bool {
        &&& assoc::distinct(self.history)
        &&& self.history.len() <= self.limits.identity_capacity
        &&& self.limits.countable()
        &&& forall|waiter: OperationWaiter| #[trigger]
            self.pending.contains_key(waiter) ==> self.waits_for(waiter, self.pending[waiter])
        &&& forall|key: OperationKey, waiter: OperationWaiter|
            self.waits_for(waiter, key) ==> self.pending.contains_key(waiter)
                && self.pending[waiter] == key
        &&& forall|key: OperationKey| #[trigger]
            self.entries().contains_key(key) && self.entries()[key].state is Pending ==> {
                let waiters = self.entries()[key].state->Pending_0;
                &&& waiters.no_duplicates()
                &&& waiters.len() <= self.limits.max_waiters || waiters.len() <= 1
            }
        &&& forall|waiter: OperationWaiter| #[trigger]
            self.routed.contains_key(waiter) ==> self.entries().contains_key(self.routed[waiter])
                && self.entries()[self.routed[waiter]].state is Pending
        &&& forall|a: OperationWaiter, b: OperationWaiter|
            self.routed.contains_key(a) && self.routed.contains_key(b) && #[trigger] self.routed[a]
                == #[trigger] self.routed[b] ==> a == b
        &&& cached_replies(self.history) <= self.limits.response_capacity || cached_replies(
            self.history,
        ) <= 1
        &&& cached_bytes(self.history) <= self.limits.max_completed_bytes || cached_bytes(
            self.history,
        ) <= self.limits.max_response_bytes
        &&& forall|i: int|
            0 <= i < self.history.len() ==> reply_bytes((#[trigger] self.history[i]).1)
                <= self.limits.max_response_bytes
    }

    /// A request waits for an operation.
    pub open spec fn waits_for(&self, waiter: OperationWaiter, key: OperationKey) -> bool {
        &&& self.entries().contains_key(key)
        &&& self.entries()[key].state is Pending
        &&& self.entries()[key].state->Pending_0.contains(waiter)
    }
}

/// The time that has passed.
pub open spec fn elapsed(now: u64, since: u64) -> nat {
    if now >= since {
        (now - since) as nat
    } else {
        0
    }
}

/// An operation whose cached reply is older than the limit.
pub open spec fn is_expired(entry: EntryView, limits: LedgerLimits, now: u64) -> bool {
    match entry.state {
        StateView::Completed { completed_at, .. } => elapsed(now, completed_at)
            >= limits.completed_ttl_nanos,
        _ => false,
    }
}

/// An operation without its reply.
pub open spec fn tombstone_of(entry: EntryView) -> EntryView {
    EntryView { fingerprint: entry.fingerprint, state: StateView::Tombstone }
}

/// The history without the replies that are too old.
pub open spec fn pruned(
    history: Seq<(OperationKey, EntryView)>,
    limits: LedgerLimits,
    now: u64,
) -> Seq<(OperationKey, EntryView)> {
    history.map_values(
        |pair: (OperationKey, EntryView)|
            (
                pair.0,
                if is_expired(pair.1, limits, now) {
                    tombstone_of(pair.1)
                } else {
                    pair.1
                },
            ),
    )
}

/// The ledger without the replies that are too old.
pub open spec fn pruned_ledger(ledger: LedgerView, now: u64) -> LedgerView {
    LedgerView { history: pruned(ledger.history, ledger.limits, now), ..ledger }
}

/// Some character is a control character.
pub open spec fn has_control(s: Seq<char>) -> bool {
    exists|i: int| 0 <= i < s.len() && text::is_control(#[trigger] s[i])
}

/// Why an identity is refused, if it is.
pub open spec fn operation_id_fault(id: Seq<char>) -> Option<Seq<char>> {
    if id.len() == 0 {
        Some("operation_id must not be empty"@)
    } else if text::utf8(id).len() > MAX_OPERATION_ID_BYTES {
        Some("operation_id must be at most 128 UTF-8 bytes"@)
    } else if text::is_padded(id) || has_control(id) {
        Some("operation_id must not contain surrounding whitespace or control characters"@)
    } else {
        None
    }
}

/// Checks the identity of an operation; hands back what is wrong with it.
pub fn invalid_operation_id(operation_id: &str) -> (fault: Option<&'static str>)
    ensures
        match fault {
            Some(message) => operation_id_fault(operation_id@) == Some(message@),
            None => operation_id_fault(operation_id@).is_none(),
        },
{
    if operation_id.is_empty() {
        return Some("operation_id must not be empty");
    }
    if operation_id.as_bytes().len() > MAX_OPERATION_ID_BYTES {
        return Some("operation_id must be at most 128 UTF-8 bytes");
    }
    if has_padding(operation_id) || text::contains_control(operation_id) {
        return Some("operation_id must not contain surrounding whitespace or control characters");
    }
    None
}

/// What becomes of a request, with the reply that it is given.
pub enum OutcomeView {
    Route,
    Wait,
    Refuse { code: ErrorCode, message: Seq<char> },
    Replay(ResponsePayload),
}

/// An outcome is the one that is described.
pub open spec fn outcome_is(outcome: BeginOutcome, view: OutcomeView) -> bool {
    match view {
        OutcomeView::Route => outcome is Route,
        OutcomeView::Wait => outcome is Wait,
        OutcomeView::Refuse { code, message } => match outcome {
            BeginOutcome::Respond(response) => ipc::refuses(*response, code, message),
            _ => false,
        },
        OutcomeView::Replay(reply) => match outcome {
            BeginOutcome::Respond(response) => *response == reply,
            _ => false,
        },
    }
}

/// What becomes of a request with a proper identity.
///
/// A different payload under the same identity is refused first of all. Then a request that waits
/// already keeps waiting, or is refused if it waits for something else. A known operation is
/// joined while it is pending and has room, replayed while its reply is cached, and refused
/// otherwise. Only a new identity is routed, while there is room for it.
pub open spec fn begin_outcome(
    ledger: LedgerView,
    key: OperationKey,
    id: Seq<char>,
    fingerprint: Digest,
    waiter: OperationWaiter,
) -> OutcomeView {
    let entries = ledger.entries();
    if entries.contains_key(key) && entries[key].fingerprint != fingerprint {
        OutcomeView::Refuse {
            code: ErrorCode::InvalidRequest,
            message: "operation_id "@ + text::debug_of(id)
                + " was reused with a different payload"@,
        }
    } else if ledger.pending.contains_key(waiter) {
        if ledger.pending[waiter] == key {
            OutcomeView::Wait
        } else {
            OutcomeView::Refuse {
                code: ErrorCode::InvalidRequest,
                message: "request "@ + text::decimal(waiter.request_id as nat)
                    + " is already waiting on another operation"@,
            }
        }
    } else if entries.contains_key(key) {
        match entries[key].state {
            StateView::Pending(waiters) => if waiters.len() >= ledger.limits.max_waiters {
                OutcomeView::Refuse {
                    code: ErrorCode::InvalidState,
                    message: "operation_id "@ + text::debug_of(id)
                        + " has too many pending retry waiters"@,
                }
            } else {
                OutcomeView::Wait
            },
            StateView::Completed { response, .. } => OutcomeView::Replay(response),
            StateView::Tombstone => OutcomeView::Refuse {
                code: ErrorCode::InvalidState,
                message: "operation_id "@ + text::debug_of(id)
                    + " already completed, but its replay response expired"@,
            },
        }
    } else if ledger.history.len() >= ledger.limits.identity_capacity {
        OutcomeView::Refuse {
            code: ErrorCode::InvalidState,
            message: "operation identity ledger is saturated; refusing a new side effect"@,
        }
    } else {
        OutcomeView::Route
    }
}

/// The ledger after a request with a proper identity: a routed operation is entered, a request
/// that joins is listed, and everything else leaves the ledger as it is.
pub open spec fn begin_ledger(
    ledger: LedgerView,
    key: OperationKey,
    id: Seq<char>,
    fingerprint: Digest,
    waiter: OperationWaiter,
) -> LedgerView {
    match begin_outcome(ledger, key, id, fingerprint, waiter) {
        OutcomeView::Route => LedgerView {
            history: ledger.history.push(
                (key, EntryView { fingerprint, state: StateView::Pending(seq![waiter]) }),
            ),
            routed: ledger.routed.insert(waiter, key),
            pending: ledger.pending.insert(waiter, key),
            limits: ledger.limits,
        },
        OutcomeView::Wait => if ledger.pending.contains_key(waiter) {
            ledger
        } else {
            let entry = ledger.entries()[key];
            LedgerView {
                history: ledger.history.update(
                    assoc::place_of(ledger.history, key),
                    (
                        key,
                        EntryView {
                            fingerprint: entry.fingerprint,
                            state: StateView::Pending(entry.state->Pending_0.push(waiter)),
                        },
                    ),
                ),
                pending: ledger.pending.insert(waiter, key),
                ..ledger
            }
        },
        _ => ledger,
    }
}

/// The request that joins or enters leaves a valid ledger valid.
pub proof fn begin_keeps_ledger_valid(
    ledger: LedgerView,
    key: OperationKey,
    id: Seq<char>,
    fingerprint: Digest,
    waiter: OperationWaiter,
)
    requires
        ledger.valid(),
    ensures
        begin_ledger(ledger, key, id, fingerprint, waiter).valid(),
{
    let next = begin_ledger(ledger, key, id, fingerprint, waiter);
    let entries = ledger.entries();
    match begin_outcome(ledger, key, id, fingerprint, waiter) {
        OutcomeView::Route => {
            let entry = EntryView { fingerprint, state: StateView::Pending(seq![waiter]) };
            assoc::lemma_push(ledger.history, key, entry);
            assert(next.entries() == entries.insert(key, entry));
            assert(next.history.drop_last() =~= ledger.history);
            assert(seq![waiter].contains(waiter)) by {
                assert(seq![waiter][0] == waiter);
            }
            assert forall|w: OperationWaiter| #[trigger]
                next.pending.contains_key(w) implies next.waits_for(w, next.pending[w]) by {
                if w != waiter {
                    assert(ledger.pending.contains_key(w));
                    assert(ledger.waits_for(w, ledger.pending[w]));
                }
            }
            assert forall|k: OperationKey, w: OperationWaiter|
                next.waits_for(w, k) implies next.pending.contains_key(w) && next.pending[w]
                == k by {
                if k == key {
                    assert(seq![waiter].contains(w));
                    assert(w == waiter);
                } else {
                    assert(ledger.waits_for(w, k));
                }
            }
            assert forall|a: OperationWaiter, b: OperationWaiter|
                next.routed.contains_key(a) && next.routed.contains_key(b)
                    && #[trigger] next.routed[a] == #[trigger] next.routed[b] implies a == b by {
                if a == waiter && b != waiter {
                    assert(ledger.routed.contains_key(b));
                } else if b == waiter && a != waiter {
                    assert(ledger.routed.contains_key(a));
                }
            }
        },
        OutcomeView::Wait => {
            if !ledger.pending.contains_key(waiter) {
                let place = assoc::place_of(ledger.history, key);
                let old_waiters = entries[key].state->Pending_0;
                let entry = EntryView {
                    fingerprint: entries[key].fingerprint,
                    state: StateView::Pending(old_waiters.push(waiter)),
                };
                assert(assoc::has_key(ledger.history, key));
                assert(0 <= place < ledger.history.len() && ledger.history[place].0 == key);
                assoc::lemma_update(ledger.history, place, entry);
                lemma_update_counts(ledger.history, place, (key, entry));
                assoc::lemma_entry(ledger.history, place);
                assert(next.entries() == entries.insert(key, entry));
                assert(!old_waiters.contains(waiter)) by {
                    if old_waiters.contains(waiter) {
                        assert(ledger.waits_for(waiter, key));
                    }
                }
                assert(old_waiters.push(waiter).no_duplicates()) by {
                    assert(entries.contains_key(key) && entries[key].state is Pending);
                    let grown = old_waiters.push(waiter);
                    assert forall|i: int, j: int|
                        0 <= i < grown.len() && 0 <= j < grown.len() && i != j implies grown[i]
                        != grown[j] by {
                        if i < old_waiters.len() && j < old_waiters.len() {
                            assert(old_waiters[i] != old_waiters[j]);
                        } else if i < old_waiters.len() {
                            assert(old_waiters.contains(old_waiters[i]));
                        } else if j < old_waiters.len() {
                            assert(old_waiters.contains(old_waiters[j]));
                        }
                    }
                }
                assert forall|w: OperationWaiter| #[trigger]
                    next.pending.contains_key(w) implies next.waits_for(w, next.pending[w]) by {
                    if w == waiter {
                        assert(old_waiters.push(waiter)[old_waiters.len() as int] == w);
                    } else {
                        assert(ledger.waits_for(w, ledger.pending[w]));
                        if ledger.pending[w] == key {
                            let i = choose|i: int|
                                0 <= i < old_waiters.len() && old_waiters[i] == w;
                            assert(old_waiters.push(waiter)[i] == w);
                        }
                    }
                }
                assert forall|k: OperationKey, w: OperationWaiter|
                    next.waits_for(w, k) implies next.pending.contains_key(w) && next.pending[w]
                    == k by {
                    if k == key {
                        if w != waiter {
                            let grown = old_waiters.push(waiter);
                            let i = choose|i: int| 0 <= i < grown.len() && grown[i] == w;
                            assert(old_waiters[i] == w);
                            assert(ledger.waits_for(w, k));
                        }
                    } else {
                        assert(ledger.waits_for(w, k));
                        if w == waiter {
                            assert(ledger.pending.contains_key(w));
                        }
                    }
                }
                assert forall|i: int| 0 <= i < next.history.len() implies reply_bytes(
                    (#[trigger] next.history[i]).1,
                ) <= next.limits.max_response_bytes by {
                    if i != place {
                        assert(next.history[i] == ledger.history[i]);
                    }
                }
            }
        },
        _ => {},
    }
}

/// Whether an operation has a cached reply, as a number.
pub open spec fn reply_count(entry: EntryView) -> nat {
    if entry.state is Completed {
        1
    } else {
        0
    }
}

proof fn lemma_update_counts(
    history: Seq<(OperationKey, EntryView)>,
    i: int,
    pair: (OperationKey, EntryView),
)
    requires
        0 <= i < history.len(),
    ensures
        cached_replies(history.update(i, pair)) == cached_replies(history) - reply_count(
            history[i].1,
        ) + reply_count(pair.1),
        cached_bytes(history.update(i, pair)) == cached_bytes(history) - reply_bytes(history[i].1)
            + reply_bytes(pair.1),
        cached_replies(history) >= reply_count(history[i].1),
        cached_bytes(history) >= reply_bytes(history[i].1),
    decreases history.len(),
{
    let changed = history.update(i, pair);
    if i == history.len() - 1 {
        assert(changed.drop_last() =~= history.drop_last());
    } else {
        lemma_update_counts(history.drop_last(), i, pair);
        assert(changed.drop_last() =~= history.drop_last().update(i, pair));
    }
}

proof fn lemma_only_one_reply(history: Seq<(OperationKey, EntryView)>, p: int)
    requires
        forall|i: int|
            0 <= i < history.len() && (#[trigger] history[i]).1.state is Completed ==> i == p,
    ensures
        cached_replies(history) <= 1,
        0 <= p < history.len() ==> cached_bytes(history) <= reply_bytes(history[p].1),
        p < 0 || p >= history.len() ==> cached_bytes(history) == 0 && cached_replies(history) == 0,
    decreases history.len(),
{
    if history.len() > 0 {
        let last = history.len() - 1;
        let rest = history.drop_last();
        assert forall|i: int|
            0 <= i < rest.len() && (#[trigger] rest[i]).1.state is Completed implies i == p by {
            assert(rest[i] == history[i]);
        }
        if p == last {
            assert forall|i: int|
                0 <= i < rest.len() && (#[trigger] rest[i]).1.state is Completed implies i
                == -1 by {
                assert(rest[i] == history[i]);
            }
            lemma_only_one_reply(rest, -1);
        } else {
            lemma_only_one_reply(rest, p);
            assert(!(history[last].1.state is Completed));
            if 0 <= p < rest.len() {
                assert(rest[p] == history[p]);
            }
        }
    }
}

proof fn lemma_pruned_counts(
    history: Seq<(OperationKey, EntryView)>,
    limits: LedgerLimits,
    now: u64,
)
    ensures
        cached_replies(pruned(history, limits, now)) <= cached_replies(history),
        cached_bytes(pruned(history, limits, now)) <= cached_bytes(history),
    decreases history.len(),
{
    if history.len() > 0 {
        lemma_pruned_counts(history.drop_last(), limits, now);
        assert(pruned(history, limits, now).drop_last() =~= pruned(
            history.drop_last(),
            limits,
            now,
        ));
    }
}

/// Two histories with the same identities, and with the same state wherever an operation is
/// pending in either.
pub open spec fn same_pending(
    a: Seq<(OperationKey, EntryView)>,
    b: Seq<(OperationKey, EntryView)>,
) -> bool {
    &&& a.len() == b.len()
    &&& forall|i: int|
        0 <= i < a.len() ==> (#[trigger] a[i]).0 == b[i].0 && (a[i].1.state is Pending
            || b[i].1.state is Pending ==> a[i].1.state == b[i].1.state)
}

proof fn lemma_same_pending(ledger: LedgerView, history: Seq<(OperationKey, EntryView)>)
    requires
        ledger.valid(),
        same_pending(ledger.history, history),
        cached_replies(history) <= cached_replies(ledger.history) || cached_replies(history) <= 1
            || cached_replies(history) <= ledger.limits.response_capacity,
        cached_bytes(history) <= cached_bytes(ledger.history) || cached_bytes(history)
            <= ledger.limits.max_completed_bytes || cached_bytes(history)
            <= ledger.limits.max_response_bytes,
        forall|i: int|
            0 <= i < history.len() ==> reply_bytes((#[trigger] history[i]).1)
                <= ledger.limits.max_response_bytes,
    ensures
        (LedgerView { history, ..ledger }).valid(),
{
    let next = LedgerView { history, ..ledger };
    assert forall|a: int, b: int| 0 <= a < b < history.len() implies (#[trigger] history[a]).0 != (
    #[trigger] history[b]).0 by {
        assert(ledger.history[a].0 == history[a].0);
        assert(ledger.history[b].0 == history[b].0);
    }
    assert forall|k: OperationKey|
        #![trigger next.entries().contains_key(k)]
        #![trigger ledger.entries().contains_key(k)]
        {
            &&& next.entries().contains_key(k) == ledger.entries().contains_key(k)
            &&& next.entries().contains_key(k) && (next.entries()[k].state is Pending
                || ledger.entries()[k].state is Pending) ==> next.entries()[k].state
                == ledger.entries()[k].state
        } by {
        if next.entries().contains_key(k) {
            let i = assoc::place_of(history, k);
            assert(history[i].0 == k);
            assert(ledger.history[i].0 == k);
            assoc::lemma_entry(history, i);
            assoc::lemma_entry(ledger.history, i);
        }
        if ledger.entries().contains_key(k) {
            let i = assoc::place_of(ledger.history, k);
            assert(ledger.history[i].0 == k);
            assert(history[i].0 == k);
            assoc::lemma_entry(history, i);
            assoc::lemma_entry(ledger.history, i);
        }
    }
    assert forall|w: OperationWaiter, k: OperationKey|
        next.waits_for(w, k) == ledger.waits_for(w, k) by {
        assert(next.entries().contains_key(k) == ledger.entries().contains_key(k));
    }
    assert forall|w: OperationWaiter| #[trigger]
        next.pending.contains_key(w) implies next.waits_for(w, next.pending[w]) by {
        assert(ledger.pending.contains_key(w));
        assert(ledger.waits_for(w, ledger.pending[w]));
    }
    assert forall|k: OperationKey| #[trigger]
        next.entries().contains_key(k) && next.entries()[k].state is Pending implies {
        let waiters = next.entries()[k].state->Pending_0;
        &&& waiters.no_duplicates()
        &&& waiters.len() <= next.limits.max_waiters || waiters.len() <= 1
    } by {
        assert(ledger.entries().contains_key(k));
    }
    assert forall|w: OperationWaiter| #[trigger]
        next.routed.contains_key(w) implies next.entries().contains_key(next.routed[w])
        && next.entries()[next.routed[w]].state is Pending by {
        assert(ledger.routed.contains_key(w));
        assert(ledger.entries().contains_key(ledger.routed[w]));
    }
}

/// Forgetting replies that are too old leaves a valid ledger valid.
pub proof fn pruning_keeps_ledger_valid(ledger: LedgerView, now: u64)
    requires
        ledger.valid(),
    ensures
        pruned_ledger(ledger, now).valid(),
{
    let history = pruned(ledger.history, ledger.limits, now);
    lemma_pruned_counts(ledger.history, ledger.limits, now);
    assert(same_pending(ledger.history, history));
    lemma_same_pending(ledger, history);
}

/// The cached replies are too many or too large.
pub open spec fn over_limits(limits: LedgerLimits, replies: nat, bytes: nat) -> bool {
    replies > limits.response_capacity || bytes > limits.max_completed_bytes
}

/// The time at which an operation was completed.
pub open spec fn completed_at(entry: EntryView) -> u64 {
    match entry.state {
        StateView::Completed { completed_at, .. } => completed_at,
        _ => 0,
    }
}

/// The reply in place `i` was given up.
pub open spec fn is_evicted(
    before: Seq<(OperationKey, EntryView)>,
    after: Seq<(OperationKey, EntryView)>,
    kept: OperationKey,
    i: int,
) -> bool {
    &&& 0 <= i < before.len()
    &&& before[i].1.state is Completed
    &&& before[i].0 != kept
    &&& after[i] == (before[i].0, tombstone_of(before[i].1))
}

/// The reply in place `i` was given up, and none younger than it.
pub open spec fn is_youngest_evicted(
    before: Seq<(OperationKey, EntryView)>,
    after: Seq<(OperationKey, EntryView)>,
    kept: OperationKey,
    i: int,
) -> bool {
    &&& is_evicted(before, after, kept, i)
    &&& forall|j: int| #[trigger]
        is_evicted(before, after, kept, j) ==> completed_at(before[j].1) <= completed_at(
            before[i].1,
        )
}

/// Replies were given up for room.
///
/// Nothing but cached replies goes, and never the one of `kept`. Older ones go before younger ones.
/// No more go than needed: with a youngest of them back, the limits would not hold. Afterwards they
/// hold unless only the reply of `kept` is left.
pub open spec fn evicts(
    before: Seq<(OperationKey, EntryView)>,
    after: Seq<(OperationKey, EntryView)>,
    kept: OperationKey,
    limits: LedgerLimits,
) -> bool {
    &&& after.len() == before.len()
    &&& forall|i: int|
        0 <= i < before.len() ==> #[trigger] after[i] == before[i] || is_evicted(
            before,
            after,
            kept,
            i,
        )
    &&& forall|i: int, j: int|
        #![trigger is_evicted(before, after, kept, i), after[j]]
        is_evicted(before, after, kept, i) && 0 <= j < after.len() && after[j].1.state is Completed
            && after[j].0 != kept ==> completed_at(before[i].1) <= completed_at(after[j].1)
    &&& !over_limits(limits, cached_replies(after), cached_bytes(after)) || forall|i: int|
        0 <= i < after.len() && (#[trigger] after[i]).1.state is Completed ==> after[i].0 == kept
    &&& after == before || exists|i: int| #[trigger]
        is_youngest_evicted(before, after, kept, i) && over_limits(
            limits,
            cached_replies(after) + 1,
            cached_bytes(after) + reply_bytes(before[i].1),
        )
}

/// The ledger with the operation of a routed request finished: its reply is cached unless it is too
/// large, and nobody waits for it any more.
pub open spec fn settled(
    ledger: LedgerView,
    routed: OperationWaiter,
    response: ResponsePayload,
    response_bytes: nat,
    at: u64,
) -> LedgerView {
    let key = ledger.routed[routed];
    let entry = ledger.entries()[key];
    let state = if response_bytes > ledger.limits.max_response_bytes {
        StateView::Tombstone
    } else {
        StateView::Completed { response, completed_at: at, response_bytes }
    };
    LedgerView {
        history: ledger.history.update(
            assoc::place_of(ledger.history, key),
            (key, EntryView { fingerprint: entry.fingerprint, state }),
        ),
        routed: ledger.routed.remove(routed),
        pending: ledger.pending.remove_keys(entry.state->Pending_0.to_set()),
        limits: ledger.limits,
    }
}

/// The requests that wait for the operation that a request was routed for.
pub open spec fn waiting_for(ledger: LedgerView, routed: OperationWaiter) -> Seq<OperationWaiter> {
    ledger.entries()[ledger.routed[routed]].state->Pending_0
}

/// What a reply does to the ledger: nothing unless its request was routed for an operation; and
/// otherwise the operation is finished, and older replies make room for its own.
pub open spec fn completes(
    before: LedgerView,
    routed: OperationWaiter,
    response: ResponsePayload,
    response_bytes: nat,
    at: u64,
    after: LedgerView,
) -> bool {
    if !before.routed.contains_key(routed) {
        after == before
    } else {
        let middle = settled(before, routed, response, response_bytes, at);
        &&& after.routed == middle.routed
        &&& after.pending == middle.pending
        &&& after.limits == middle.limits
        &&& if response_bytes > before.limits.max_response_bytes {
            after.history == middle.history
        } else {
            evicts(middle.history, after.history, before.routed[routed], middle.limits)
        }
    }
}

/// The reply behind a shared pointer.
pub open spec fn reply_of(response: Arc<ResponsePayload>) -> ResponsePayload {
    *response
}

/// The requests of one client leave a list.
pub open spec fn without_client(
    waiters: Seq<OperationWaiter>,
    client_id: u64,
) -> Seq<OperationWaiter> {
    waiters.filter(|waiter: OperationWaiter| waiter.client_id != client_id)
}

/// The requests of one client leave an operation.
pub open spec fn entry_without_client(entry: EntryView, client_id: u64) -> EntryView {
    EntryView {
        fingerprint: entry.fingerprint,
        state: match entry.state {
            StateView::Pending(waiters) => StateView::Pending(without_client(waiters, client_id)),
            other => other,
        },
    }
}

/// The ledger once a client is gone: none of its requests waits, and every operation is still
/// there, with the request that completes it.
pub open spec fn ledger_without_client(ledger: LedgerView, client_id: u64) -> LedgerView {
    LedgerView {
        history: ledger.history.map_values(
            |pair: (OperationKey, EntryView)| (pair.0, entry_without_client(pair.1, client_id)),
        ),
        pending: ledger.pending.restrict(
            Set::new(|waiter: OperationWaiter| waiter.client_id != client_id),
        ),
        ..ledger
    }
}

/// The bytes from which the namespace of a session is hashed: the length of its name, the name, and
/// the number of its incarnation.
pub open spec fn incarnation_bytes(session_id: Seq<u8>, incarnation: u64) -> Seq<u8> {
    digest::be_bytes(session_id.len() as u64) + session_id + digest::be_bytes(incarnation)
}

/// One ledger for all connections of a daemon.
#[derive(Debug)]
pub struct OperationLedger {
    entries: AssocMap<OperationKey, OperationEntry>,
    /// Only the first routed request completes a pending operation.
    routed_requests: AssocMap<OperationWaiter, OperationKey>,
    /// Keeps a client from using one request for two pending operations.
    pending_requests: AssocMap<OperationWaiter, OperationKey>,
    completed_responses: usize,
    completed_bytes: usize,
    limits: LedgerLimits,
}

spec fn history_of(pairs: Seq<(OperationKey, OperationEntry)>) -> Seq<(OperationKey, EntryView)> {
    pairs.map_values(|pair: (OperationKey, OperationEntry)| (pair.0, pair.1.entry_view()))
}

proof fn lemma_history(pairs: Seq<(OperationKey, OperationEntry)>)
    requires
        assoc::distinct(pairs),
    ensures
        assoc::distinct(history_of(pairs)),
        forall|key: OperationKey| #[trigger]
            assoc::as_map(pairs).contains_key(key) == assoc::as_map(history_of(pairs)).contains_key(
                key,
            ),
        forall|i: int|
            0 <= i < pairs.len() ==> assoc::place_of(history_of(pairs), (#[trigger] pairs[i]).0)
                == i && assoc::as_map(history_of(pairs)).contains_key(pairs[i].0)
                && assoc::as_map(history_of(pairs))[pairs[i].0] == pairs[i].1.entry_view(),
{
    let history = history_of(pairs);
    assert forall|a: int, b: int| 0 <= a < b < history.len() implies (#[trigger] history[a]).0 != (
    #[trigger] history[b]).0 by {
        assert(history[a].0 == pairs[a].0);
        assert(history[b].0 == pairs[b].0);
    }
    assert forall|i: int| 0 <= i < pairs.len() implies assoc::place_of(
        history,
        (#[trigger] pairs[i]).0,
    ) == i && assoc::as_map(history).contains_key(pairs[i].0) && assoc::as_map(
        history,
    )[pairs[i].0] == pairs[i].1.entry_view() by {
        assert(history[i] == (pairs[i].0, pairs[i].1.entry_view()));
        assoc::lemma_entry(history, i);
    }
    assert forall|key: OperationKey| #[trigger]
        assoc::as_map(pairs).contains_key(key) == assoc::as_map(history).contains_key(key) by {
        if assoc::as_map(pairs).contains_key(key) {
            let i = assoc::place_of(pairs, key);
            assert(history[i].0 == key);
        }
        if assoc::as_map(history).contains_key(key) {
            let i = assoc::place_of(history, key);
            assert(pairs[i].0 == key);
        }
    }
}

fn copy_waiters(waiters: &Vec<OperationWaiter>) -> (copy: Vec<OperationWaiter>)
    ensures
        copy@ == waiters@,
{
    let mut copy: Vec<OperationWaiter> = Vec::new();
    for i in 0..waiters.len()
        invariant
            copy@ == waiters@.take(i as int),
    {
        copy.push(waiters[i]);
    }
    assert(waiters@.take(waiters.len() as int) =~= waiters@);
    copy
}

fn refuse(code: ErrorCode, message: &str) -> (outcome: BeginOutcome)
    ensures
        outcome_is(outcome, OutcomeView::Refuse { code, message: message@ }),
{
    BeginOutcome::Respond(Arc::new(ResponsePayload::err(code, message)))
}

impl View for OperationLedger {
    type V = LedgerView;

    closed spec fn view(&self) -> LedgerView {
        LedgerView {
            history: history_of(self.entries.pairs()),
            routed: self.routed_requests@,
            pending: self.pending_requests@,
            limits: self.limits,
        }
    }
}

impl Default for OperationLedger {
    fn default() -> (ledger: Self)
        ensures
            ledger.wf(),
            ledger@.history == Seq::<(OperationKey, EntryView)>::empty(),
            ledger@.routed == Map::<OperationWaiter, OperationKey>::empty(),
            ledger@.pending == Map::<OperationWaiter, OperationKey>::empty(),
            ledger@.limits.identity_capacity == DEFAULT_IDENTITY_CAPACITY,
            ledger@.limits.response_capacity == DEFAULT_RESPONSE_CAPACITY,
            ledger@.limits.completed_ttl_nanos == DEFAULT_COMPLETED_TTL_NANOS,
            ledger@.limits.max_waiters == DEFAULT_MAX_WAITERS,
            ledger@.limits.max_response_bytes == DEFAULT_MAX_RESPONSE_BYTES,
            ledger@.limits.max_completed_bytes == DEFAULT_MAX_COMPLETED_BYTES,
    {
        OperationLedger::new(LedgerLimits::default())
    }
}

impl OperationLedger {
    /// The ledger is valid, and its counters count what is cached.
    pub closed spec fn wf(&self) -> bool {
        &&& self@.valid()
        &&& self.completed_responses == cached_replies(self@.history)
        &&& self.completed_bytes == cached_bytes(self@.history)
    }

    /// A well-formed ledger is valid.
    pub proof fn lemma_wf(&self)
        requires
            self.wf(),
        ensures
            self@.valid(),
    {
    }

    /// A ledger without operations.
    pub fn new(limits: LedgerLimits) -> (ledger: Self)
        requires
            limits.countable(),
        ensures
            ledger.wf(),
            ledger@.history == Seq::<(OperationKey, EntryView)>::empty(),
            ledger@.routed == Map::<OperationWaiter, OperationKey>::empty(),
            ledger@.pending == Map::<OperationWaiter, OperationKey>::empty(),
            ledger@.limits == limits,
    {
        let ledger = OperationLedger {
            entries: AssocMap::new(),
            routed_requests: AssocMap::new(),
            pending_requests: AssocMap::new(),
            completed_responses: 0,
            completed_bytes: 0,
            limits,
        };
        assert(ledger@.history =~= Seq::<(OperationKey, EntryView)>::empty());
        ledger
    }

    /// The namespace of a session that has one incarnation.
    pub fn session_namespace(session_id: &str) -> (namespace: Digest)
        ensures
            namespace.bytes@ == digest::blake3_digest(text::utf8(session_id@)),
    {
        blake3_hash(session_id.as_bytes())
    }

    /// The namespace of one incarnation of a session.
    pub fn session_incarnation_namespace(session_id: &str, incarnation: u64) -> (namespace: Digest)
        ensures
            namespace.bytes@ == digest::blake3_digest(
                incarnation_bytes(text::utf8(session_id@), incarnation),
            ),
    {
        let name = session_id.as_bytes();
        let mut buffer: Vec<u8> = Vec::new();
        push_be_bytes(&mut buffer, name.len() as u64);
        buffer.extend_from_slice(name);
        push_be_bytes(&mut buffer, incarnation);
        assert(buffer@ =~= incarnation_bytes(name@, incarnation));
        blake3_hash(buffer.as_slice())
    }

    /// The digest of an encoded payload.
    pub fn fingerprint(encoded: &[u8]) -> (fingerprint: Digest)
        ensures
            fingerprint.bytes@ == digest::blake3_digest(encoded@),
    {
        blake3_hash(encoded)
    }

    /// Enters a request under the identity that its client gave it.
    ///
    /// Replies that are too old at `now` are forgotten first, whatever becomes of the request. An
    /// improper identity is refused before the ledger is asked.
    pub fn begin(
        &mut self,
        session_namespace: Digest,
        operation_id: &str,
        fingerprint: Digest,
        waiter: OperationWaiter,
        now: u64,
    ) -> (outcome: BeginOutcome)
        requires
            old(self).wf(),
        ensures
            final(self).wf(),
            begins(
                old(self)@,
                session_namespace,
                operation_id@,
                fingerprint,
                waiter,
                now,
                final(self)@,
                outcome,
            ),
    {
        self.prune_expired(now);
        if let Some(message) = invalid_operation_id(operation_id) {
            return refuse(ErrorCode::InvalidRequest, message);
        }
        let key = OperationKey {
            session_namespace,
            operation_id_hash: blake3_hash(operation_id.as_bytes()),
        };
        self.begin_keyed(key, operation_id, fingerprint, waiter)
    }

    /// Enters a request under the digest of its identity.
    pub fn begin_keyed(
        &mut self,
        key: OperationKey,
        operation_id: &str,
        fingerprint: Digest,
        waiter: OperationWaiter,
    ) -> (outcome: BeginOutcome)
        requires
            old(self).wf(),
        ensures
            final(self).wf(),
            final(self)@ == begin_ledger(old(self)@, key, operation_id@, fingerprint, waiter),
            outcome_is(
                outcome,
                begin_outcome(old(self)@, key, operation_id@, fingerprint, waiter),
            ),
    {
        let ghost before = self@;
        let place = self.entries.find(&key);
        proof {
            lemma_history(self.entries.pairs());
            begin_keeps_ledger_valid(before, key, operation_id@, fingerprint, waiter);
            if let Some(i) = place {
                assert(self.entries.pairs()[i as int].0 == key);
            }
        }
        if let Some(i) = place {
            if !self.entries.value_at(i).fingerprint.is(&fingerprint) {
                let name = debug_text(operation_id);
                let message = join3(
                    "operation_id ",
                    name.as_str(),
                    " was reused with a different payload",
                );
                return refuse(ErrorCode::InvalidRequest, message.as_str());
            }
        }
        if let Some(existing) = self.pending_requests.get(&waiter) {
            if existing.is(&key) {
                return BeginOutcome::Wait;
            }
            let number = decimal_text(waiter.request_id as u64);
            let message = join3(
                "request ",
                number.as_str(),
                " is already waiting on another operation",
            );
            return refuse(ErrorCode::InvalidRequest, message.as_str());
        }
        if let Some(i) = place {
            let entry = self.entries.value_at(i);
            match &entry.state {
                OperationState::Pending { waiters } => {
                    if waiters.len() >= self.limits.max_waiters {
                        let name = debug_text(operation_id);
                        let message = join3(
                            "operation_id ",
                            name.as_str(),
                            " has too many pending retry waiters",
                        );
                        return refuse(ErrorCode::InvalidState, message.as_str());
                    }
                    let mut joined = copy_waiters(waiters);
                    joined.push(waiter);
                    let updated = OperationEntry {
                        fingerprint: entry.fingerprint,
                        state: OperationState::Pending { waiters: joined },
                    };
                    let ghost pairs = self.entries.pairs();
                    proof {
                        lemma_update_counts(
                            before.history,
                            i as int,
                            (key, updated.entry_view()),
                        );
                    }
                    self.entries.set_value_at(i, updated);
                    self.pending_requests.insert(waiter, key);
                    proof {
                        assert(history_of(self.entries.pairs()) =~= history_of(pairs).update(
                            i as int,
                            (key, updated.entry_view()),
                        ));
                        assert(self@ == begin_ledger(
                            before,
                            key,
                            operation_id@,
                            fingerprint,
                            waiter,
                        ));
                    }
                    return BeginOutcome::Wait;
                },
                OperationState::Completed { response, .. } => {
                    return BeginOutcome::Respond(response.clone());
                },
                OperationState::Tombstone => {
                    let name = debug_text(operation_id);
                    let message = join3(
                        "operation_id ",
                        name.as_str(),
                        " already completed, but its replay response expired",
                    );
                    return refuse(ErrorCode::InvalidState, message.as_str());
                },
            }
        }
        if self.entries.len() >= self.limits.identity_capacity {
            return refuse(
                ErrorCode::InvalidState,
                "operation identity ledger is saturated; refusing a new side effect",
            );
        }
        let mut waiters: Vec<OperationWaiter> = Vec::new();
        waiters.push(waiter);
        let entry = OperationEntry { fingerprint, state: OperationState::Pending { waiters } };
        let ghost pairs = self.entries.pairs();
        self.entries.insert(key, entry);
        self.routed_requests.insert(waiter, key);
        self.pending_requests.insert(waiter, key);
        proof {
            assert(waiters@ =~= seq![waiter]);
            assert(history_of(self.entries.pairs()) =~= history_of(pairs).push(
                (key, entry.entry_view()),
            ));
            assert(self@.history.drop_last() =~= before.history);
        }
        BeginOutcome::Route
    }

    fn prune_expired(&mut self, now: u64)
        requires
            old(self).wf(),
        ensures
            final(self).wf(),
            final(self)@ == pruned_ledger(old(self)@, now),
    {
        let ghost before = self@;
        let ghost limits = self.limits;
        let ghost all = before.history.len();
        let mut i: usize = 0;
        while i < self.entries.len()
            invariant
                i <= self.entries.pairs().len(),
                self.entries.pairs().len() == before.history.len(),
                limits == before.limits,
                self@.limits == limits,
                self@.routed == before.routed,
                self@.pending == before.pending,
                self@.history.len() == before.history.len(),
                forall|k: int|
                    0 <= k < i ==> #[trigger] self@.history[k] == pruned(
                        before.history,
                        limits,
                        now,
                    )[k],
                forall|k: int|
                    i <= k < self@.history.len() ==> #[trigger] self@.history[k]
                        == before.history[k],
                self.completed_responses == cached_replies(self@.history),
                self.completed_bytes == cached_bytes(self@.history),
            decreases self.entries.pairs().len() - i,
        {
            let entry = self.entries.value_at(i);
            let ghost old_history = self@.history;
            assert(old_history[i as int] == (self.entries.pairs()[i as int].0, entry.entry_view()));
            if let OperationState::Completed { completed_at, .. } = &entry.state {
                let age: u64 = if now >= *completed_at {
                    now - *completed_at
                } else {
                    0
                };
                if age >= self.limits.completed_ttl_nanos {
                    self.expire_completed(i);
                }
            }
            proof {
                assert forall|k: int| i + 1 <= k < self@.history.len() implies
                    #[trigger] self@.history[k] == before.history[k] by {
                    assert(old_history[k] == before.history[k]);
                }
                assert forall|k: int| 0 <= k < i + 1 implies #[trigger] self@.history[k] == pruned(
                    before.history,
                    limits,
                    now,
                )[k] by {
                    if k < i {
                        assert(old_history[k] == pruned(before.history, limits, now)[k]);
                    }
                }
            }
            i = i + 1;
        }
        proof {
            assert(self@.history =~= pruned(before.history, limits, now));
            pruning_keeps_ledger_valid(before, now);
        }
    }

    /// Gives up the reply in place `i`.
    fn expire_completed(&mut self, i: usize)
        requires
            i < old(self)@.history.len(),
            old(self)@.history[i as int].1.state is Completed,
            old(self).completed_responses == cached_replies(old(self)@.history),
            old(self).completed_bytes == cached_bytes(old(self)@.history),
        ensures
            final(self)@ == (LedgerView {
                history: old(self)@.history.update(
                    i as int,
                    (
                        old(self)@.history[i as int].0,
                        tombstone_of(old(self)@.history[i as int].1),
                    ),
                ),
                ..old(self)@
            }),
            final(self).completed_responses == cached_replies(final(self)@.history),
            final(self).completed_bytes == cached_bytes(final(self)@.history),
            final(self).completed_responses < old(self).completed_responses,
    {
        let ghost before = self@;
        let entry = self.entries.value_at(i);
        assert(before.history[i as int] == (self.entries.pairs()[i as int].0, entry.entry_view()));
        let response_bytes = match &entry.state {
            OperationState::Completed { response_bytes, .. } => *response_bytes,
            _ => 0,
        };
        let tombstone = OperationEntry {
            fingerprint: entry.fingerprint,
            state: OperationState::Tombstone,
        };
        let ghost pairs = self.entries.pairs();
        proof {
            lemma_update_counts(
                before.history,
                i as int,
                (before.history[i as int].0, tombstone_of(before.history[i as int].1)),
            );
        }
        self.entries.set_value_at(i, tombstone);
        assert(history_of(self.entries.pairs()) =~= history_of(pairs).update(
            i as int,
            (pairs[i as int].0, tombstone.entry_view()),
        ));
        self.completed_bytes = self.completed_bytes - response_bytes;
        self.completed_responses = self.completed_responses - 1;
    }
}

proof fn lemma_settled_valid(
    ledger: LedgerView,
    routed: OperationWaiter,
    response: ResponsePayload,
    response_bytes: nat,
    at: u64,
    history: Seq<(OperationKey, EntryView)>,
)
    requires
        ledger.valid(),
        ledger.routed.contains_key(routed),
        ({
            let middle = settled(ledger, routed, response, response_bytes, at);
            let key = ledger.routed[routed];
            if response_bytes > ledger.limits.max_response_bytes {
                history == middle.history
            } else {
                evicts(middle.history, history, key, ledger.limits)
            }
        }),
    ensures
        (LedgerView {
            history,
            ..settled(ledger, routed, response, response_bytes, at)
        }).valid(),
{
    let key = ledger.routed[routed];
    let entries = ledger.entries();
    assert(entries.contains_key(key) && entries[key].state is Pending);
    let place = assoc::place_of(ledger.history, key);
    assert(assoc::has_key(ledger.history, key));
    assert(0 <= place < ledger.history.len() && ledger.history[place].0 == key);
    assoc::lemma_entry(ledger.history, place);
    let middle = settled(ledger, routed, response, response_bytes, at);
    let settled_entry = middle.history[place].1;
    assoc::lemma_update(ledger.history, place, settled_entry);
    lemma_update_counts(ledger.history, place, (key, settled_entry));
    let waiters = entries[key].state->Pending_0;
    let next = LedgerView { history, ..middle };
    assert(middle.entries() == entries.insert(key, settled_entry));
    // The same identities, and no pending operation is touched but the settled one.
    assert forall|i: int| 0 <= i < history.len() implies (#[trigger] history[i]).0
        == ledger.history[i].0 && (i != place && (history[i].1.state is Pending
        || ledger.history[i].1.state is Pending) ==> history[i].1.state
        == ledger.history[i].1.state) && (i == place ==> !(history[i].1.state is Pending)) by {
        assert(history[i] == middle.history[i] || is_evicted(middle.history, history, key, i));
        if i != place {
            assert(middle.history[i] == ledger.history[i]);
        }
    }
    assert forall|a: int, b: int| 0 <= a < b < history.len() implies (#[trigger] history[a]).0 != (
    #[trigger] history[b]).0 by {
        assert(ledger.history[a].0 == history[a].0);
        assert(ledger.history[b].0 == history[b].0);
    }
    assert forall|k: OperationKey|
        #![trigger next.entries().contains_key(k)]
        #![trigger entries.contains_key(k)]
        {
            &&& next.entries().contains_key(k) == entries.contains_key(k)
            &&& entries.contains_key(k) && k != key && (next.entries()[k].state is Pending
                || entries[k].state is Pending) ==> next.entries()[k].state == entries[k].state
            &&& k == key ==> !(next.entries()[k].state is Pending)
        } by {
        if next.entries().contains_key(k) {
            let i = assoc::place_of(history, k);
            assert(history[i].0 == k);
            assert(ledger.history[i].0 == k);
            assoc::lemma_entry(history, i);
            assoc::lemma_entry(ledger.history, i);
        }
        if entries.contains_key(k) {
            let i = assoc::place_of(ledger.history, k);
            assert(ledger.history[i].0 == k);
            assert(history[i].0 == k);
            assoc::lemma_entry(history, i);
            assoc::lemma_entry(ledger.history, i);
        }
    }
    assert forall|w: OperationWaiter, k: OperationKey| next.waits_for(w, k) == (k != key
        && ledger.waits_for(w, k)) by {
        assert(next.entries().contains_key(k) == entries.contains_key(k));
    }
    assert forall|w: OperationWaiter| #[trigger] next.pending.contains_key(w) implies next.waits_for(
        w,
        next.pending[w],
    ) by {
        assert(ledger.pending.contains_key(w));
        assert(ledger.waits_for(w, ledger.pending[w]));
        if ledger.pending[w] == key {
            assert(waiters.contains(w));
        }
    }
    assert forall|k: OperationKey, w: OperationWaiter|
        next.waits_for(w, k) implies next.pending.contains_key(w) && next.pending[w] == k by {
        assert(ledger.waits_for(w, k));
        if waiters.to_set().contains(w) {
            assert(waiters.contains(w));
            assert(ledger.waits_for(w, key));
        }
    }
    assert forall|k: OperationKey| #[trigger]
        next.entries().contains_key(k) && next.entries()[k].state is Pending implies {
        let waiters = next.entries()[k].state->Pending_0;
        &&& waiters.no_duplicates()
        &&& waiters.len() <= next.limits.max_waiters || waiters.len() <= 1
    } by {
        assert(entries.contains_key(k));
    }
    assert forall|w: OperationWaiter| #[trigger]
        next.routed.contains_key(w) implies next.entries().contains_key(next.routed[w])
        && next.entries()[next.routed[w]].state is Pending by {
        assert(ledger.routed.contains_key(w));
        assert(ledger.routed[w] != ledger.routed[routed]);
        assert(entries.contains_key(ledger.routed[w]));
    }
    assert forall|a: OperationWaiter, b: OperationWaiter|
        next.routed.contains_key(a) && next.routed.contains_key(b) && #[trigger] next.routed[a]
            == #[trigger] next.routed[b] implies a == b by {
        assert(ledger.routed[a] == ledger.routed[b]);
    }
    assert forall|i: int| 0 <= i < history.len() implies reply_bytes((#[trigger] history[i]).1)
        <= next.limits.max_response_bytes by {
        assert(history[i] == middle.history[i] || is_evicted(middle.history, history, key, i));
        if i != place {
            assert(middle.history[i] == ledger.history[i]);
        }
    }
    if response_bytes > ledger.limits.max_response_bytes {
    } else if over_limits(ledger.limits, cached_replies(history), cached_bytes(history)) {
        assert forall|i: int|
            0 <= i < history.len() && (#[trigger] history[i]).1.state is Completed implies i
            == place by {
            assert(history[i].0 == key);
            assert(ledger.history[i].0 == ledger.history[place].0);
        }
        lemma_only_one_reply(history, place);
    }
}

impl OperationLedger {
    /// Finishes the operation that a request was routed for, and lists the requests that receive
    /// its reply. A request that was routed for none gives nothing back.
    ///
    /// `response_bytes` is the encoded size of the reply, or the largest number where it cannot be
    /// encoded.
    pub fn complete(
        &mut self,
        routed_request: OperationWaiter,
        response: Arc<ResponsePayload>,
        response_bytes: usize,
        completed_at: u64,
    ) -> (completion: Option<CompletedOperation>)
        requires
            old(self).wf(),
        ensures
            final(self).wf(),
            completes(
                old(self)@,
                routed_request,
                *response,
                response_bytes as nat,
                completed_at,
                final(self)@,
            ),
            match completion {
                Some(completion) => {
                    &&& old(self)@.routed.contains_key(routed_request)
                    &&& *completion.response == *response
                    &&& completion.waiters@ == waiting_for(old(self)@, routed_request)
                },
                None => !old(self)@.routed.contains_key(routed_request),
            },
    {
        let ghost before = self@;
        let key = match self.routed_requests.get(&routed_request) {
            Some(key) => *key,
            None => {
                return None;
            },
        };
        let ghost middle = settled(
            before,
            routed_request,
            reply_of(response),
            response_bytes as nat,
            completed_at,
        );
        let _ = self.routed_requests.remove(&routed_request);
        proof {
            assert(before.entries().contains_key(key));
            assert(before.entries()[key].state is Pending);
        }
        let found = self.entries.find(&key);
        proof {
            lemma_history(self.entries.pairs());
        }
        let i = match found {
            Some(i) => i,
            None => {
                assert(false);
                return None;
            },
        };
        assert(self.entries.pairs()[i as int].0 == key);
        let entry = self.entries.value_at(i);
        let fingerprint = entry.fingerprint;
        let waiters = match &entry.state {
            OperationState::Pending { waiters } => copy_waiters(waiters),
            _ => {
                assert(false);
                return None;
            },
        };
        self.release_waiters(&waiters);
        let ghost pairs = self.entries.pairs();
        if response_bytes > self.limits.max_response_bytes {
            let updated = OperationEntry { fingerprint, state: OperationState::Tombstone };
            proof {
                lemma_update_counts(before.history, i as int, (key, updated.entry_view()));
            }
            self.entries.set_value_at(i, updated);
            proof {
                assert(history_of(self.entries.pairs()) =~= history_of(pairs).update(
                    i as int,
                    (key, updated.entry_view()),
                ));
                lemma_settled_valid(
                    before,
                    routed_request,
                    reply_of(response),
                    response_bytes as nat,
                    completed_at,
                    self@.history,
                );
            }
            return Some(CompletedOperation { waiters, response });
        }
        let updated = OperationEntry {
            fingerprint,
            state: OperationState::Completed {
                response: response.clone(),
                completed_at,
                response_bytes,
            },
        };
        proof {
            lemma_update_counts(before.history, i as int, (key, updated.entry_view()));
            lemma_reply_count_bound(
                before.history.update(i as int, (key, updated.entry_view())),
            );
        }
        self.entries.set_value_at(i, updated);
        self.completed_responses = self.completed_responses + 1;
        self.completed_bytes = self.completed_bytes + response_bytes;
        proof {
            assert(history_of(self.entries.pairs()) =~= history_of(pairs).update(
                i as int,
                (key, updated.entry_view()),
            ));
            assert(self@ == middle);
        }
        self.evict_for_room(&key);
        proof {
            lemma_settled_valid(
                before,
                routed_request,
                reply_of(response),
                response_bytes as nat,
                completed_at,
                self@.history,
            );
        }
        Some(CompletedOperation { waiters, response })
    }

    fn release_waiters(&mut self, waiters: &Vec<OperationWaiter>)
        ensures
            final(self).entries == old(self).entries,
            final(self).routed_requests == old(self).routed_requests,
            final(self).completed_responses == old(self).completed_responses,
            final(self).completed_bytes == old(self).completed_bytes,
            final(self).limits == old(self).limits,
            final(self).pending_requests@ == old(self).pending_requests@.remove_keys(
                waiters@.to_set(),
            ),
    {
        let ghost before = self.pending_requests@;
        assert(before =~= before.remove_keys(waiters@.take(0).to_set()));
        for i in 0..waiters.len()
            invariant
                self.entries == old(self).entries,
                self.routed_requests == old(self).routed_requests,
                self.completed_responses == old(self).completed_responses,
                self.completed_bytes == old(self).completed_bytes,
                self.limits == old(self).limits,
                before == old(self).pending_requests@,
                self.pending_requests@ == before.remove_keys(waiters@.take(i as int).to_set()),
        {
            let _ = self.pending_requests.remove(&waiters[i]);
            proof {
                let next = waiters@.take(i + 1);
                let prev = waiters@.take(i as int);
                assert(next =~= prev.push(waiters@[i as int]));
                assert forall|w: OperationWaiter| next.to_set().contains(w) == (
                prev.to_set().contains(w) || w == waiters@[i as int]) by {
                    if next.contains(w) {
                        let k = choose|k: int| 0 <= k < next.len() && next[k] == w;
                        if k < i {
                            assert(prev[k] == w);
                        }
                    }
                    if prev.contains(w) {
                        let k = choose|k: int| 0 <= k < prev.len() && prev[k] == w;
                        assert(next[k] == w);
                    }
                    if w == waiters@[i as int] {
                        assert(next[i as int] == w);
                    }
                }
                assert(self.pending_requests@ =~= before.remove_keys(next.to_set()));
            }
        }
        assert(waiters@.take(waiters.len() as int) =~= waiters@);
    }

    /// The place of the oldest cached reply that is not the one of `kept`.
    fn oldest_completed(&self, kept: &OperationKey) -> (oldest: Option<usize>)
        ensures
            match oldest {
                Some(i) => {
                    &&& i < self@.history.len()
                    &&& self@.history[i as int].1.state is Completed
                    &&& self@.history[i as int].0 != *kept
                    &&& forall|j: int|
                        0 <= j < self@.history.len() && (
                        #[trigger] self@.history[j]).1.state is Completed && self@.history[j].0
                            != *kept ==> completed_at(self@.history[i as int].1) <= completed_at(
                            self@.history[j].1,
                        )
                },
                None => forall|j: int|
                    0 <= j < self@.history.len() && (#[trigger] self@.history[j]).1.state is Completed
                        ==> self@.history[j].0 == *kept,
            },
    {
        let mut oldest: Option<usize> = None;
        let mut oldest_at: u64 = 0;
        let mut i: usize = 0;
        while i < self.entries.len()
            invariant
                i <= self.entries.pairs().len(),
                self.entries.pairs().len() == self@.history.len(),
                match oldest {
                    Some(o) => {
                        &&& o < i
                        &&& self@.history[o as int].1.state is Completed
                        &&& self@.history[o as int].0 != *kept
                        &&& completed_at(self@.history[o as int].1) == oldest_at
                        &&& forall|j: int|
                            0 <= j < i && (#[trigger] self@.history[j]).1.state is Completed
                                && self@.history[j].0 != *kept ==> oldest_at <= completed_at(
                                self@.history[j].1,
                            )
                    },
                    None => forall|j: int|
                        0 <= j < i && (#[trigger] self@.history[j]).1.state is Completed
                            ==> self@.history[j].0 == *kept,
                },
            decreases self.entries.pairs().len() - i,
        {
            let key = self.entries.key_at(i);
            let entry = self.entries.value_at(i);
            assert(self@.history[i as int] == (key, entry.entry_view()));
            if let OperationState::Completed { completed_at, .. } = &entry.state {
                if !key.is(kept) {
                    let younger = match oldest {
                        Some(_) => *completed_at >= oldest_at,
                        None => false,
                    };
                    if !younger {
                        oldest = Some(i);
                        oldest_at = *completed_at;
                    }
                }
            }
            i = i + 1;
        }
        oldest
    }

    /// Gives up the oldest replies until the cache is within its limits.
    fn evict_for_room(&mut self, kept: &OperationKey)
        requires
            old(self).completed_responses == cached_replies(old(self)@.history),
            old(self).completed_bytes == cached_bytes(old(self)@.history),
        ensures
            final(self).completed_responses == cached_replies(final(self)@.history),
            final(self).completed_bytes == cached_bytes(final(self)@.history),
            final(self)@.routed == old(self)@.routed,
            final(self)@.pending == old(self)@.pending,
            final(self)@.limits == old(self)@.limits,
            evicts(old(self)@.history, final(self)@.history, *kept, old(self)@.limits),
    {
        let ghost before = self@.history;
        let ghost limits = self.limits;
        let mut exhausted = false;
        while !exhausted && (self.completed_responses > self.limits.response_capacity
            || self.completed_bytes > self.limits.max_completed_bytes)
            invariant
                before == old(self)@.history,
                limits == old(self)@.limits,
                self@.limits == limits,
                self@.routed == old(self)@.routed,
                self@.pending == old(self)@.pending,
                self.completed_responses == cached_replies(self@.history),
                self.completed_bytes == cached_bytes(self@.history),
                self@.history.len() == before.len(),
                forall|i: int|
                    0 <= i < before.len() ==> #[trigger] self@.history[i] == before[i]
                        || is_evicted(before, self@.history, *kept, i),
                forall|i: int, j: int|
                    #![trigger is_evicted(before, self@.history, *kept, i), self@.history[j]]
                    is_evicted(before, self@.history, *kept, i) && 0 <= j < before.len()
                        && self@.history[j].1.state is Completed && self@.history[j].0 != *kept
                        ==> completed_at(before[i].1) <= completed_at(self@.history[j].1),
                self@.history == before || exists|i: int| #[trigger]
                    is_youngest_evicted(before, self@.history, *kept, i) && over_limits(
                        limits,
                        cached_replies(self@.history) + 1,
                        cached_bytes(self@.history) + reply_bytes(before[i].1),
                    ),
                exhausted ==> forall|i: int|
                    0 <= i < before.len() && (#[trigger] self@.history[i]).1.state is Completed
                        ==> self@.history[i].0 == *kept,
            decreases
                    (if exhausted {
                        0int
                    } else {
                        1int
                    }),
                    self.completed_responses,
        {
            match self.oldest_completed(kept) {
                Some(i) => {
                    let ghost current = self@.history;
                    proof {
                        assert(current[i as int] == before[i as int]);
                        lemma_update_counts(
                            current,
                            i as int,
                            (current[i as int].0, tombstone_of(current[i as int].1)),
                        );
                    }
                    self.expire_completed(i);
                    proof {
                        let next = self@.history;
                        assert forall|k: int| 0 <= k < before.len() implies #[trigger] next[k]
                            == before[k] || is_evicted(before, next, *kept, k) by {
                            if k != i {
                                assert(next[k] == current[k]);
                                assert(current[k] == before[k] || is_evicted(
                                    before,
                                    current,
                                    *kept,
                                    k,
                                ));
                            }
                        }
                        assert forall|a: int, b: int|
                            #![trigger is_evicted(before, next, *kept, a), next[b]]
                            is_evicted(before, next, *kept, a) && 0 <= b < before.len()
                                && next[b].1.state is Completed && next[b].0
                                != *kept implies completed_at(before[a].1) <= completed_at(
                            next[b].1,
                        ) by {
                            assert(next[b] == current[b]);
                            if a != i {
                                assert(next[a] == current[a]);
                                assert(is_evicted(before, current, *kept, a));
                            }
                        }
                        assert forall|j: int| #[trigger]
                            is_evicted(before, next, *kept, j) implies completed_at(before[j].1)
                            <= completed_at(before[i as int].1) by {
                            if j != i {
                                assert(next[j] == current[j]);
                                assert(is_evicted(before, current, *kept, j));
                                assert(current[i as int].1.state is Completed);
                            }
                        }
                        assert(is_youngest_evicted(before, next, *kept, i as int));
                    }
                },
                None => {
                    exhausted = true;
                },
            }
        }
    }

    /// A client is gone: its requests wait for nothing any more. The operations stay, so that a
    /// late completion and a retry over another connection still find them.
    pub fn remove_waiters_for_client(&mut self, client_id: u64)
        requires
            old(self).wf(),
        ensures
            final(self).wf(),
            final(self)@ == ledger_without_client(old(self)@, client_id),
    {
        let ghost before = self@;
        let ghost target = ledger_without_client(before, client_id);
        let mut i: usize = 0;
        while i < self.entries.len()
            invariant
                i <= self.entries.pairs().len(),
                before == old(self)@,
                target == ledger_without_client(before, client_id),
                self.routed_requests == old(self).routed_requests,
                self.pending_requests == old(self).pending_requests,
                self.limits == old(self).limits,
                self.completed_responses == cached_replies(self@.history),
                self.completed_bytes == cached_bytes(self@.history),
                self.entries.pairs().len() == before.history.len(),
                self@.history.len() == before.history.len(),
                forall|k: int|
                    0 <= k < i ==> #[trigger] self@.history[k] == target.history[k],
                forall|k: int|
                    i <= k < before.history.len() ==> #[trigger] self@.history[k]
                        == before.history[k],
            decreases self.entries.pairs().len() - i,
        {
            let entry = self.entries.value_at(i);
            let ghost current = self@.history;
            let ghost pairs = self.entries.pairs();
            assert(current[i as int] == (pairs[i as int].0, entry.entry_view()));
            assert(current[i as int] == before.history[i as int]);
            if let OperationState::Pending { waiters } = &entry.state {
                let kept = retain_other_clients(waiters, client_id);
                let updated = OperationEntry {
                    fingerprint: entry.fingerprint,
                    state: OperationState::Pending { waiters: kept },
                };
                proof {
                    lemma_update_counts(
                        current,
                        i as int,
                        (pairs[i as int].0, updated.entry_view()),
                    );
                }
                self.entries.set_value_at(i, updated);
                assert(history_of(self.entries.pairs()) =~= history_of(pairs).update(
                    i as int,
                    (pairs[i as int].0, updated.entry_view()),
                ));
            }
            proof {
                assert forall|k: int| 0 <= k < i + 1 implies #[trigger] self@.history[k]
                    == target.history[k] by {
                    if k < i {
                        assert(current[k] == target.history[k]);
                    }
                }
                assert forall|k: int| i + 1 <= k < before.history.len() implies
                    #[trigger] self@.history[k] == before.history[k] by {
                    assert(current[k] == before.history[k]);
                }
            }
            i = i + 1;
        }
        assert(self@.history =~= target.history);
        let ghost all = self.pending_requests@;
        let mut j: usize = 0;
        while j < self.pending_requests.len()
            invariant
                j <= self.pending_requests.pairs().len(),
                self@.history == target.history,
                self@.routed == target.routed,
                self@.limits == target.limits,
                self.completed_responses == cached_replies(self@.history),
                self.completed_bytes == cached_bytes(self@.history),
                all == before.pending,
                target.pending == all.restrict(
                    Set::new(|waiter: OperationWaiter| waiter.client_id != client_id),
                ),
                forall|w: OperationWaiter| #[trigger]
                    self.pending_requests@.contains_key(w) ==> all.contains_key(w)
                        && self.pending_requests@[w] == all[w],
                forall|w: OperationWaiter|
                    all.contains_key(w) && !(#[trigger] self.pending_requests@.contains_key(w))
                        ==> w.client_id == client_id,
                forall|k: int|
                    0 <= k < j ==> (#[trigger] self.pending_requests.pairs()[k]).0.client_id
                        != client_id,
            decreases self.pending_requests.pairs().len() - j,
        {
            let waiter = self.pending_requests.key_at(j);
            if waiter.client_id == client_id {
                let ghost pairs = self.pending_requests.pairs();
                let _ = self.pending_requests.remove_at(j);
                assert(forall|k: int|
                    0 <= k < j ==> #[trigger] self.pending_requests.pairs()[k] == pairs[k]);
            } else {
                j = j + 1;
            }
        }
        proof {
            let rest = self.pending_requests.pairs();
            assert forall|w: OperationWaiter| #[trigger]
                self.pending_requests@.contains_key(w) implies w.client_id != client_id by {
                let k = assoc::place_of(rest, w);
                assert(rest[k].0 == w);
            }
            assert(self.pending_requests@ =~= target.pending);
            leaving_client_keeps_ledger_valid(before, client_id);
        }
    }
}

proof fn lemma_reply_count_bound(history: Seq<(OperationKey, EntryView)>)
    ensures
        cached_replies(history) <= history.len(),
    decreases history.len(),
{
    if history.len() > 0 {
        lemma_reply_count_bound(history.drop_last());
    }
}

fn retain_other_clients(waiters: &Vec<OperationWaiter>, client_id: u64) -> (kept: Vec<
    OperationWaiter,
>)
    ensures
        kept@ == without_client(waiters@, client_id),
{
    let mut kept: Vec<OperationWaiter> = Vec::new();
    assert(waiters@.take(0) =~= Seq::<OperationWaiter>::empty());
    reveal(Seq::filter);
    for i in 0..waiters.len()
        invariant
            kept@ == without_client(waiters@.take(i as int), client_id),
    {
        let waiter = waiters[i];
        proof {
            reveal(Seq::filter);
            assert(waiters@.take(i + 1).drop_last() =~= waiters@.take(i as int));
        }
        if waiter.client_id != client_id {
            kept.push(waiter);
        }
    }
    assert(waiters@.take(waiters.len() as int) =~= waiters@);
    kept
}

proof fn lemma_without_client(waiters: Seq<OperationWaiter>, client_id: u64)
    ensures
        without_client(waiters, client_id).len() <= waiters.len(),
        forall|w: OperationWaiter| #[trigger]
            without_client(waiters, client_id).contains(w) <==> waiters.contains(w) && w.client_id
                != client_id,
        waiters.no_duplicates() ==> without_client(waiters, client_id).no_duplicates(),
    decreases waiters.len(),
{
    reveal(Seq::filter);
    if waiters.len() > 0 {
        let rest = waiters.drop_last();
        let last = waiters.last();
        lemma_without_client(rest, client_id);
        let kept = without_client(waiters, client_id);
        let kept_rest = without_client(rest, client_id);
        assert forall|w: OperationWaiter| #[trigger] kept.contains(w) <==> waiters.contains(w)
            && w.client_id != client_id by {
            if kept.contains(w) {
                let k = choose|k: int| 0 <= k < kept.len() && kept[k] == w;
                if k < kept_rest.len() {
                    assert(kept_rest[k] == w);
                    assert(kept_rest.contains(w));
                    let m = choose|m: int| 0 <= m < rest.len() && rest[m] == w;
                    assert(waiters[m] == w);
                } else {
                    assert(waiters[waiters.len() - 1] == w);
                }
            }
            if waiters.contains(w) && w.client_id != client_id {
                let m = choose|m: int| 0 <= m < waiters.len() && waiters[m] == w;
                if m < rest.len() {
                    assert(rest[m] == w);
                    assert(kept_rest.contains(w));
                    let k = choose|k: int| 0 <= k < kept_rest.len() && kept_rest[k] == w;
                    assert(kept[k] == w);
                } else {
                    assert(kept[kept.len() - 1] == w);
                }
            }
        }
        if waiters.no_duplicates() {
            assert(rest.no_duplicates());
            assert forall|i: int, j: int|
                0 <= i < kept.len() && 0 <= j < kept.len() && i != j implies kept[i]
                != kept[j] by {
                if i < kept_rest.len() && j < kept_rest.len() {
                    assert(kept_rest[i] != kept_rest[j]);
                } else {
                    let k = if i < kept_rest.len() { i } else { j };
                    assert(kept_rest.contains(kept_rest[k]));
                    assert(rest.contains(kept_rest[k]));
                    let m = choose|m: int| 0 <= m < rest.len() && rest[m] == kept_rest[k];
                    assert(waiters[m] != waiters[waiters.len() - 1]);
                }
            }
        }
    }
}

proof fn lemma_same_replies(
    a: Seq<(OperationKey, EntryView)>,
    b: Seq<(OperationKey, EntryView)>,
)
    requires
        a.len() == b.len(),
        forall|i: int|
            0 <= i < a.len() ==> reply_count((#[trigger] a[i]).1) == reply_count(b[i].1)
                && reply_bytes(a[i].1) == reply_bytes(b[i].1),
    ensures
        cached_replies(a) == cached_replies(b),
        cached_bytes(a) == cached_bytes(b),
    decreases a.len(),
{
    if a.len() > 0 {
        let ra = a.drop_last();
        let rb = b.drop_last();
        assert forall|i: int| 0 <= i < ra.len() implies reply_count((#[trigger] ra[i]).1)
            == reply_count(rb[i].1) && reply_bytes(ra[i].1) == reply_bytes(rb[i].1) by {
            assert(ra[i] == a[i]);
        }
        lemma_same_replies(ra, rb);
        assert(reply_count(a[a.len() - 1].1) == reply_count(b[a.len() - 1].1));
    }
}

/// A client that leaves keeps a valid ledger valid.
pub proof fn leaving_client_keeps_ledger_valid(ledger: LedgerView, client_id: u64)
    requires
        ledger.valid(),
    ensures
        ledger_without_client(ledger, client_id).valid(),
{
    let next = ledger_without_client(ledger, client_id);
    let history = next.history;
    assert forall|i: int| 0 <= i < history.len() implies #[trigger] history[i] == (
        ledger.history[i].0,
        entry_without_client(ledger.history[i].1, client_id),
    ) by {}
    lemma_same_replies(ledger.history, history);
    assert forall|a: int, b: int| 0 <= a < b < history.len() implies (#[trigger] history[a]).0 != (
    #[trigger] history[b]).0 by {
        assert(ledger.history[a].0 != ledger.history[b].0);
    }
    let entries = ledger.entries();
    assert forall|k: OperationKey|
        #![trigger next.entries().contains_key(k)]
        #![trigger entries.contains_key(k)]
        {
            &&& next.entries().contains_key(k) == entries.contains_key(k)
            &&& entries.contains_key(k) ==> next.entries()[k] == entry_without_client(
                entries[k],
                client_id,
            )
        } by {
        if next.entries().contains_key(k) {
            let i = assoc::place_of(history, k);
            assert(history[i].0 == k);
            assert(ledger.history[i].0 == k);
            assoc::lemma_entry(history, i);
            assoc::lemma_entry(ledger.history, i);
        }
        if entries.contains_key(k) {
            let i = assoc::place_of(ledger.history, k);
            assert(ledger.history[i].0 == k);
            assert(history[i].0 == k);
            assoc::lemma_entry(history, i);
            assoc::lemma_entry(ledger.history, i);
        }
    }
    assert forall|w: OperationWaiter, k: OperationKey| next.waits_for(w, k) == (ledger.waits_for(
        w,
        k,
    ) && w.client_id != client_id) by {
        assert(next.entries().contains_key(k) == entries.contains_key(k));
        if entries.contains_key(k) && entries[k].state is Pending {
            lemma_without_client(entries[k].state->Pending_0, client_id);
        }
    }
    assert forall|w: OperationWaiter| #[trigger] next.pending.contains_key(w) implies next.waits_for(
        w,
        next.pending[w],
    ) by {
        assert(ledger.pending.contains_key(w));
        assert(ledger.waits_for(w, ledger.pending[w]));
    }
    assert forall|k: OperationKey, w: OperationWaiter|
        next.waits_for(w, k) implies next.pending.contains_key(w) && next.pending[w] == k by {
        assert(ledger.waits_for(w, k));
    }
    assert forall|k: OperationKey| #[trigger]
        next.entries().contains_key(k) && next.entries()[k].state is Pending implies {
        let waiters = next.entries()[k].state->Pending_0;
        &&& waiters.no_duplicates()
        &&& waiters.len() <= next.limits.max_waiters || waiters.len() <= 1
    } by {
        assert(entries.contains_key(k) && entries[k].state is Pending);
        lemma_without_client(entries[k].state->Pending_0, client_id);
    }
    assert forall|w: OperationWaiter| #[trigger]
        next.routed.contains_key(w) implies next.entries().contains_key(next.routed[w])
        && next.entries()[next.routed[w]].state is Pending by {
        assert(ledger.routed.contains_key(w));
        assert(entries.contains_key(ledger.routed[w]));
    }
}

/// An identity that the ledger knows is never routed again, however often it comes.
pub proof fn known_identity_is_never_routed(
    ledger: LedgerView,
    key: OperationKey,
    id: Seq<char>,
    fingerprint: Digest,
    waiter: OperationWaiter,
)
    requires
        ledger.entries().contains_key(key),
    ensures
        !(begin_outcome(ledger, key, id, fingerprint, waiter) is Route),
{
}

/// A routed identity is known from then on, and a request never makes the ledger forget one.
pub proof fn begin_keeps_identities(
    ledger: LedgerView,
    key: OperationKey,
    id: Seq<char>,
    fingerprint: Digest,
    waiter: OperationWaiter,
    other: OperationKey,
)
    requires
        ledger.valid(),
    ensures
        begin_outcome(ledger, key, id, fingerprint, waiter) is Route ==> begin_ledger(
            ledger,
            key,
            id,
            fingerprint,
            waiter,
        ).entries().contains_key(key),
        ledger.entries().contains_key(other) ==> begin_ledger(
            ledger,
            key,
            id,
            fingerprint,
            waiter,
        ).entries().contains_key(other),
        other != key && ledger.entries().contains_key(other) ==> begin_ledger(
            ledger,
            key,
            id,
            fingerprint,
            waiter,
        ).entries()[other] == ledger.entries()[other],
{
    match begin_outcome(ledger, key, id, fingerprint, waiter) {
        OutcomeView::Route => {
            assoc::lemma_push(
                ledger.history,
                key,
                EntryView { fingerprint, state: StateView::Pending(seq![waiter]) },
            );
        },
        OutcomeView::Wait => {
            if !ledger.pending.contains_key(waiter) {
                let place = assoc::place_of(ledger.history, key);
                let entry = ledger.entries()[key];
                assert(assoc::has_key(ledger.history, key));
                assoc::lemma_update(
                    ledger.history,
                    place,
                    EntryView {
                        fingerprint: entry.fingerprint,
                        state: StateView::Pending(entry.state->Pending_0.push(waiter)),
                    },
                );
            }
        },
        _ => {},
    }
}

/// The same identities stand in the same places.
pub open spec fn same_identities(
    a: Seq<(OperationKey, EntryView)>,
    b: Seq<(OperationKey, EntryView)>,
) -> bool {
    &&& a.len() == b.len()
    &&& forall|i: int|
        0 <= i < a.len() ==> (#[trigger] a[i]).0 == b[i].0 && a[i].1.fingerprint
            == b[i].1.fingerprint
}

/// Neither age nor completion nor a lost connection makes the ledger forget an identity or the
/// payload that it stands for.
pub proof fn identities_are_never_forgotten(
    ledger: LedgerView,
    now: u64,
    client_id: u64,
    routed: OperationWaiter,
    response: ResponsePayload,
    response_bytes: nat,
    at: u64,
    after: LedgerView,
)
    requires
        ledger.valid(),
        completes(ledger, routed, response, response_bytes, at, after),
    ensures
        same_identities(ledger.history, pruned_ledger(ledger, now).history),
        same_identities(ledger.history, ledger_without_client(ledger, client_id).history),
        same_identities(ledger.history, after.history),
{
    if ledger.routed.contains_key(routed) {
        let key = ledger.routed[routed];
        let middle = settled(ledger, routed, response, response_bytes, at).history;
        let place = assoc::place_of(ledger.history, key);
        assert(ledger.entries().contains_key(key));
        assert(ledger.history[place].0 == key);
        assoc::lemma_entry(ledger.history, place);
        assert forall|i: int| 0 <= i < after.history.len() implies (
        #[trigger] ledger.history[i]).0 == after.history[i].0 && ledger.history[i].1.fingerprint
            == after.history[i].1.fingerprint by {
            assert(after.history[i] == middle[i] || is_evicted(middle, after.history, key, i));
            if i != place {
                assert(middle[i] == ledger.history[i]);
            }
        }
    }
}

/// A pending operation is never given up, neither for its age nor for the reply of another.
pub proof fn pending_is_never_evicted(
    ledger: LedgerView,
    now: u64,
    routed: OperationWaiter,
    response: ResponsePayload,
    response_bytes: nat,
    at: u64,
    after: LedgerView,
    i: int,
)
    requires
        ledger.valid(),
        completes(ledger, routed, response, response_bytes, at, after),
        0 <= i < ledger.history.len(),
        ledger.history[i].1.state is Pending,
    ensures
        pruned_ledger(ledger, now).history[i] == ledger.history[i],
        ledger.routed.contains_key(routed) && ledger.history[i].0 == ledger.routed[routed]
            || after.history[i] == ledger.history[i],
{
    if ledger.routed.contains_key(routed) && ledger.history[i].0 != ledger.routed[routed] {
        let key = ledger.routed[routed];
        let middle = settled(ledger, routed, response, response_bytes, at).history;
        let place = assoc::place_of(ledger.history, key);
        assert(ledger.entries().contains_key(key));
        assert(ledger.history[place].0 == key);
        assert(middle[i] == ledger.history[i]);
        assert(after.history[i] == middle[i] || is_evicted(middle, after.history, key, i));
    }
}

/// While the cache is within its limits nothing is given up for room.
pub proof fn no_eviction_within_limits(
    before: Seq<(OperationKey, EntryView)>,
    after: Seq<(OperationKey, EntryView)>,
    kept: OperationKey,
    limits: LedgerLimits,
)
    requires
        evicts(before, after, kept, limits),
        !over_limits(limits, cached_replies(before), cached_bytes(before)),
    ensures
        after == before,
{
    if after != before {
        let i = choose|i: int| #[trigger]
            is_evicted(before, after, kept, i) && over_limits(
                limits,
                cached_replies(after) + 1,
                cached_bytes(after) + reply_bytes(before[i].1),
            );
        lemma_evicted_counts(before, after, i, kept);
    }
}

proof fn lemma_evicted_counts(
    before: Seq<(OperationKey, EntryView)>,
    after: Seq<(OperationKey, EntryView)>,
    x: int,
    kept: OperationKey,
)
    requires
        after.len() == before.len(),
        is_evicted(before, after, kept, x),
        forall|i: int|
            0 <= i < before.len() ==> #[trigger] after[i] == before[i] || is_evicted(
                before,
                after,
                kept,
                i,
            ),
    ensures
        cached_replies(after) + 1 <= cached_replies(before),
        cached_bytes(after) + reply_bytes(before[x].1) <= cached_bytes(before),
    decreases before.len(),
{
    let last = before.len() - 1;
    let rb = before.drop_last();
    let ra = after.drop_last();
    assert forall|i: int| 0 <= i < rb.len() implies #[trigger] ra[i] == rb[i] || is_evicted(
        rb,
        ra,
        kept,
        i,
    ) by {
        assert(after[i] == before[i] || is_evicted(before, after, kept, i));
    }
    assert(after[last] == before[last] || is_evicted(before, after, kept, last));
    if x < last {
        assert(is_evicted(rb, ra, kept, x));
        lemma_evicted_counts(rb, ra, x, kept);
    } else {
        lemma_not_more_replies(rb, ra, kept);
    }
}

proof fn lemma_not_more_replies(
    before: Seq<(OperationKey, EntryView)>,
    after: Seq<(OperationKey, EntryView)>,
    kept: OperationKey,
)
    requires
        after.len() == before.len(),
        forall|i: int|
            0 <= i < before.len() ==> #[trigger] after[i] == before[i] || is_evicted(
                before,
                after,
                kept,
                i,
            ),
    ensures
        cached_replies(after) <= cached_replies(before),
        cached_bytes(after) <= cached_bytes(before),
    decreases before.len(),
{
    if before.len() > 0 {
        let last = before.len() - 1;
        let rb = before.drop_last();
        let ra = after.drop_last();
        assert forall|i: int| 0 <= i < rb.len() implies #[trigger] ra[i] == rb[i] || is_evicted(
            rb,
            ra,
            kept,
            i,
        ) by {
            assert(after[i] == before[i] || is_evicted(before, after, kept, i));
        }
        assert(after[last] == before[last] || is_evicted(before, after, kept, last));
        lemma_not_more_replies(rb, ra, kept);
    }
}

/// The reply of a finished operation answers every later request under the same identity and with
/// the same payload, until it is too old: completing an operation keeps its own reply, and a
/// retry gets it.
pub proof fn finished_operation_is_replayed(
    ledger: LedgerView,
    routed: OperationWaiter,
    response: ResponsePayload,
    response_bytes: nat,
    at: u64,
    after: LedgerView,
    now: u64,
    id: Seq<char>,
    retry: OperationWaiter,
)
    requires
        ledger.valid(),
        ledger.routed.contains_key(routed),
        response_bytes <= ledger.limits.max_response_bytes,
        completes(ledger, routed, response, response_bytes, at, after),
        after.valid(),
        elapsed(now, at) < ledger.limits.completed_ttl_nanos,
        !after.pending.contains_key(retry),
    ensures
        begin_outcome(
            pruned_ledger(after, now),
            ledger.routed[routed],
            id,
            ledger.entries()[ledger.routed[routed]].fingerprint,
            retry,
        ) == OutcomeView::Replay(response),
{
    let key = ledger.routed[routed];
    let middle = settled(ledger, routed, response, response_bytes, at).history;
    let place = assoc::place_of(ledger.history, key);
    assert(ledger.entries().contains_key(key));
    assert(ledger.history[place].0 == key);
    assoc::lemma_entry(ledger.history, place);
    assert(after.history[place] == middle[place] || is_evicted(middle, after.history, key, place));
    pruning_keeps_ledger_valid(after, now);
    let fresh = pruned_ledger(after, now);
    assert(fresh.history[place] == after.history[place]);
    assoc::lemma_entry(fresh.history, place);
}

/// A payload that differs is refused whatever else is known of the operation or of the request.
pub proof fn conflicting_payload_is_refused_first(
    ledger: LedgerView,
    key: OperationKey,
    id: Seq<char>,
    fingerprint: Digest,
    waiter: OperationWaiter,
)
    requires
        ledger.entries().contains_key(key),
        ledger.entries()[key].fingerprint != fingerprint,
    ensures
        begin_outcome(ledger, key, id, fingerprint, waiter) is Refuse,
        begin_outcome(ledger, key, id, fingerprint, waiter)->Refuse_code
            == ErrorCode::InvalidRequest,
        begin_ledger(ledger, key, id, fingerprint, waiter) == ledger,
{
}

/// What one session does under an identity neither shows to another session nor changes what the
/// other does under the same identity.
pub proof fn sessions_do_not_share_identities(
    ledger: LedgerView,
    key: OperationKey,
    other: OperationKey,
    id: Seq<char>,
    fingerprint: Digest,
    waiter: OperationWaiter,
)
    requires
        ledger.valid(),
        key.session_namespace != other.session_namespace,
    ensures
        begin_ledger(ledger, key, id, fingerprint, waiter).entries().contains_key(other)
            == ledger.entries().contains_key(other),
        ledger.entries().contains_key(other) ==> begin_ledger(
            ledger,
            key,
            id,
            fingerprint,
            waiter,
        ).entries()[other] == ledger.entries()[other],
{
    begin_keeps_identities(ledger, key, id, fingerprint, waiter, other);
    match begin_outcome(ledger, key, id, fingerprint, waiter) {
        OutcomeView::Route => {
            assoc::lemma_push(
                ledger.history,
                key,
                EntryView { fingerprint, state: StateView::Pending(seq![waiter]) },
            );
        },
        OutcomeView::Wait => {
            if !ledger.pending.contains_key(waiter) {
                let place = assoc::place_of(ledger.history, key);
                let entry = ledger.entries()[key];
                assert(assoc::has_key(ledger.history, key));
                assoc::lemma_update(
                    ledger.history,
                    place,
                    EntryView {
                        fingerprint: entry.fingerprint,
                        state: StateView::Pending(entry.state->Pending_0.push(waiter)),
                    },
                );
            }
        },
        _ => {},
    }
}

/// Different sessions, and different incarnations of one session, are hashed from different bytes.
pub proof fn incarnations_are_told_apart(a: Seq<u8>, m: u64, b: Seq<u8>, n: u64)
    requires
        a.len() <= u64::MAX,
        b.len() <= u64::MAX,
        incarnation_bytes(a, m) == incarnation_bytes(b, n),
    ensures
        a == b,
        m == n,
{
    let x = incarnation_bytes(a, m);
    let y = incarnation_bytes(b, n);
    assert(x.subrange(0, 8) =~= digest::be_bytes(a.len() as u64));
    assert(y.subrange(0, 8) =~= digest::be_bytes(b.len() as u64));
    digest::lemma_be_bytes_injective(a.len() as u64, b.len() as u64);
    assert(a.len() == b.len());
    assert(x.subrange(8, 8int + a.len()) =~= a);
    assert(y.subrange(8, 8int + a.len()) =~= b);
    assert(x.subrange(8int + a.len(), x.len() as int) =~= digest::be_bytes(m));
    assert(y.subrange(8int + a.len(), y.len() as int) =~= digest::be_bytes(n));
    digest::lemma_be_bytes_injective(m, n);
}

/// One call that changes the ledger: a request comes, a reply is given, or a client leaves.
pub open spec fn changes(before: LedgerView, after: LedgerView) -> bool {
    ||| exists|
        session_namespace: Digest,
        id: Seq<char>,
        fingerprint: Digest,
        waiter: OperationWaiter,
        now: u64,
        outcome: BeginOutcome,
    |
        begins(before, session_namespace, id, fingerprint, waiter, now, after, outcome)
    ||| exists|
        routed: OperationWaiter,
        response: ResponsePayload,
        response_bytes: nat,
        at: u64,
    |
        completes(before, routed, response, response_bytes, at, after)
    ||| exists|client_id: u64| after == #[trigger] ledger_without_client(before, client_id)
}

proof fn lemma_same_identities(
    a: Seq<(OperationKey, EntryView)>,
    b: Seq<(OperationKey, EntryView)>,
    key: OperationKey,
)
    requires
        same_identities(a, b),
        assoc::as_map(a).contains_key(key),
    ensures
        assoc::as_map(b).contains_key(key),
{
    let i = assoc::place_of(a, key);
    assert(a[i].0 == key);
    assert(b[i].0 == key);
}

proof fn lemma_change_keeps_identity(before: LedgerView, after: LedgerView, key: OperationKey)
    requires
        before.valid(),
        changes(before, after),
        before.entries().contains_key(key),
    ensures
        after.entries().contains_key(key),
{
    if exists|
        session_namespace: Digest,
        id: Seq<char>,
        fingerprint: Digest,
        waiter: OperationWaiter,
        now: u64,
        outcome: BeginOutcome,
    |
        begins(before, session_namespace, id, fingerprint, waiter, now, after, outcome) {
        let (session_namespace, id, fingerprint, waiter, now, outcome) = choose|
            session_namespace: Digest,
            id: Seq<char>,
            fingerprint: Digest,
            waiter: OperationWaiter,
            now: u64,
            outcome: BeginOutcome,
        |
            begins(before, session_namespace, id, fingerprint, waiter, now, after, outcome);
        let pruned = pruned_ledger(before, now);
        pruning_keeps_ledger_valid(before, now);
        assert(same_identities(before.history, pruned.history));
        lemma_same_identities(before.history, pruned.history, key);
        if operation_id_fault(id) is None {
            let entered = choose|entered: OperationKey|
                {
                    &&& entered.session_namespace == session_namespace
                    &&& entered.operation_id_hash.bytes@ == digest::blake3_digest(text::utf8(id))
                    &&& after == #[trigger] begin_ledger(pruned, entered, id, fingerprint, waiter)
                    &&& outcome_is(
                        outcome,
                        begin_outcome(pruned, entered, id, fingerprint, waiter),
                    )
                };
            begin_keeps_identities(pruned, entered, id, fingerprint, waiter, key);
        }
    } else if exists|
        routed: OperationWaiter,
        response: ResponsePayload,
        response_bytes: nat,
        at: u64,
    |
        completes(before, routed, response, response_bytes, at, after) {
        let (routed, response, response_bytes, at) = choose|
            routed: OperationWaiter,
            response: ResponsePayload,
            response_bytes: nat,
            at: u64,
        |
            completes(before, routed, response, response_bytes, at, after);
        identities_are_never_forgotten(before, 0, 0, routed, response, response_bytes, at, after);
        lemma_same_identities(before.history, after.history, key);
    } else {
        let client_id = choose|client_id: u64|
            after == #[trigger] ledger_without_client(before, client_id);
        assert(same_identities(before.history, after.history));
        lemma_same_identities(before.history, after.history, key);
    }
}

proof fn lemma_changes_keep_identity(states: Seq<LedgerView>, key: OperationKey)
    requires
        states.len() > 0,
        forall|i: int| 0 <= i < states.len() ==> (#[trigger] states[i]).valid(),
        forall|i: int|
            0 < i < states.len() ==> changes(states[i - 1], #[trigger] states[i]),
        states[0].entries().contains_key(key),
    ensures
        states.last().entries().contains_key(key),
    decreases states.len(),
{
    if states.len() > 1 {
        let earlier = states.drop_last();
        assert forall|i: int| 0 < i < earlier.len() implies changes(
            earlier[i - 1],
            #[trigger] earlier[i],
        ) by {
            assert(earlier[i] == states[i]);
        }
        lemma_changes_keep_identity(earlier, key);
        assert(states[states.len() - 2].valid());
        lemma_change_keeps_identity(states[states.len() - 2], states.last(), key);
    }
}

/// An operation is routed at most once. Once a request under its identity has been routed, none is
/// routed again, with whatever payload and from whatever client: whatever the daemon is asked,
/// whatever is answered and whoever leaves in between.
pub proof fn operation_is_routed_at_most_once(
    session_namespace: Digest,
    id: Seq<char>,
    fingerprint: Digest,
    waiter: OperationWaiter,
    now: u64,
    before: LedgerView,
    outcome: BeginOutcome,
    states: Seq<LedgerView>,
    later_fingerprint: Digest,
    later_waiter: OperationWaiter,
    later: u64,
    after: LedgerView,
    later_outcome: BeginOutcome,
)
    requires
        before.valid(),
        states.len() > 0,
        begins(before, session_namespace, id, fingerprint, waiter, now, states[0], outcome),
        outcome is Route,
        forall|i: int| 0 <= i < states.len() ==> (#[trigger] states[i]).valid(),
        forall|i: int|
            0 < i < states.len() ==> changes(states[i - 1], #[trigger] states[i]),
        begins(
            states.last(),
            session_namespace,
            id,
            later_fingerprint,
            later_waiter,
            later,
            after,
            later_outcome,
        ),
    ensures
        !(later_outcome is Route),
{
    let pruned = pruned_ledger(before, now);
    pruning_keeps_ledger_valid(before, now);
    let key = choose|key: OperationKey|
        {
            &&& key.session_namespace == session_namespace
            &&& key.operation_id_hash.bytes@ == digest::blake3_digest(text::utf8(id))
            &&& states[0] == #[trigger] begin_ledger(pruned, key, id, fingerprint, waiter)
            &&& outcome_is(outcome, begin_outcome(pruned, key, id, fingerprint, waiter))
        };
    begin_keeps_identities(pruned, key, id, fingerprint, waiter, key);
    lemma_changes_keep_identity(states, key);
    let last = states.last();
    let fresh = pruned_ledger(last, later);
    assert(same_identities(last.history, fresh.history));
    lemma_same_identities(last.history, fresh.history, key);
    let again = choose|again: OperationKey|
        {
            &&& again.session_namespace == session_namespace
            &&& again.operation_id_hash.bytes@ == digest::blake3_digest(text::utf8(id))
            &&& after == #[trigger] begin_ledger(
                fresh,
                again,
                id,
                later_fingerprint,
                later_waiter,
            )
            &&& outcome_is(
                later_outcome,
                begin_outcome(fresh, again, id, later_fingerprint, later_waiter),
            )
        };
    assert(again.operation_id_hash.bytes == key.operation_id_hash.bytes);
    known_identity_is_never_routed(fresh, key, id, later_fingerprint, later_waiter);
}

/// What comes back for a request whose identity is known, and whose connection does not wait for
/// anything under it: another payload is refused; a running operation is joined while there is room; a
/// finished one gives its reply back, or is refused where that is gone. Only joining changes the ledger,
/// by the one request that joins.
pub proof fn known_operation_is_not_run_again(
    ledger: &mut OperationLedger,
    key: OperationKey,
    id: &str,
    fingerprint: Digest,
    waiter: OperationWaiter,
    outcome: BeginOutcome,
    i: int,
)
    requires
        call_ensures(
            OperationLedger::begin_keyed,
            (ledger, key, id, fingerprint, waiter),
            outcome,
        ),
        old(ledger)@.valid(),
        0 <= i < old(ledger)@.history.len(),
        old(ledger)@.history[i].0 == key,
        !old(ledger)@.pending.contains_key(waiter),
    ensures
        ({
            let entry = old(ledger)@.history[i].1;
            let before = old(ledger)@;
            let after = final(ledger)@;
            let limit = before.limits.max_waiters;
            &&& !(outcome is Route)
            &&& entry.fingerprint != fingerprint ==> (outcome matches BeginOutcome::Respond(reply)
                && *reply matches ResponsePayload::Failure { code, .. } && code
                == ErrorCode::InvalidRequest) && after == before
            &&& entry.fingerprint == fingerprint ==> match entry.state {
                StateView::Pending(waiters) => if waiters.len() < limit {
                    outcome is Wait && after.pending == before.pending.insert(waiter, key)
                        && after.routed == before.routed && after.history[i].1.state
                        == StateView::Pending(waiters.push(waiter))
                        && after.history[i].1.fingerprint == fingerprint
                } else {
                    (outcome matches BeginOutcome::Respond(reply)
                        && *reply matches ResponsePayload::Failure { code, .. } && code
                        == ErrorCode::InvalidState) && after == before
                },
                StateView::Completed { response, .. } => (outcome matches BeginOutcome::Respond(
                    reply,
                ) && *reply == response) && after == before,
                StateView::Tombstone => (outcome matches BeginOutcome::Respond(reply)
                    && *reply matches ResponsePayload::Failure { code, .. } && code
                    == ErrorCode::InvalidState) && after == before,
            }
        }),
{
    assoc::lemma_entry(old(ledger)@.history, i);
}

/// A request that waits already goes on waiting for the same operation, and is refused for another one.
/// Neither changes the ledger.
pub proof fn waiting_request_waits_for_one_operation(
    ledger: &mut OperationLedger,
    key: OperationKey,
    id: &str,
    fingerprint: Digest,
    waiter: OperationWaiter,
    outcome: BeginOutcome,
)
    requires
        call_ensures(
            OperationLedger::begin_keyed,
            (ledger, key, id, fingerprint, waiter),
            outcome,
        ),
        old(ledger)@.pending.contains_key(waiter),
    ensures
        final(ledger)@ == old(ledger)@,
        old(ledger)@.pending[waiter] != key ==> (outcome matches BeginOutcome::Respond(reply)
            && *reply matches ResponsePayload::Failure { code, .. } && code
            == ErrorCode::InvalidRequest),
        old(ledger)@.pending[waiter] == key && old(ledger)@.entries().contains_key(key) && old(ledger)@.entries()[key].fingerprint == fingerprint ==> outcome is Wait,
{
}

/// A new operation is run exactly while there is room for its identity. Then it is entered as one that
/// runs, with its payload and the one request that waits, whose reply completes it. Without room nothing
/// changes.
pub proof fn new_operation_is_run_while_there_is_room(
    ledger: &mut OperationLedger,
    key: OperationKey,
    id: &str,
    fingerprint: Digest,
    waiter: OperationWaiter,
    outcome: BeginOutcome,
    i: int,
)
    requires
        call_ensures(
            OperationLedger::begin_keyed,
            (ledger, key, id, fingerprint, waiter),
            outcome,
        ),
        !old(ledger)@.entries().contains_key(key),
        !old(ledger)@.pending.contains_key(waiter),
    ensures
        ({
            let before = old(ledger)@;
            let after = final(ledger)@;
            &&& outcome is Route <==> before.history.len() < before.limits.identity_capacity
            &&& outcome is Route ==> after.history.len() == before.history.len() + 1
                && after.history.last().0 == key && after.history.last().1.fingerprint
                == fingerprint && after.history.last().1.state == StateView::Pending(seq![waiter])
                && after.routed == before.routed.insert(waiter, key) && after.pending
                == before.pending.insert(waiter, key)
            &&& 0 <= i < before.history.len() ==> after.history[i] == before.history[i]
            &&& after.limits == before.limits
            &&& !(outcome is Route) ==> (outcome matches BeginOutcome::Respond(reply)
                && *reply matches ResponsePayload::Failure { code, .. } && code
                == ErrorCode::InvalidState) && after == before
        }),
{
}

/// Before a request is looked at, every reply is forgotten whose time is up: its identity stays. Replies
/// that are younger stay as they are, as do operations without a reply, but for who waits for them.
pub proof fn replies_are_kept_for_their_time(
    ledger: &mut OperationLedger,
    session_namespace: Digest,
    id: &str,
    fingerprint: Digest,
    waiter: OperationWaiter,
    now: u64,
    outcome: BeginOutcome,
    i: int,
)
    requires
        call_ensures(
            OperationLedger::begin,
            (ledger, session_namespace, id, fingerprint, waiter, now),
            outcome,
        ),
        old(ledger)@.valid(),
        0 <= i < old(ledger)@.history.len(),
    ensures
        ({
            let before = old(ledger)@.history[i];
            let after = final(ledger)@.history[i];
            let limit = old(ledger)@.limits.completed_ttl_nanos;
            &&& after.0 == before.0
            &&& after.1.fingerprint == before.1.fingerprint
            &&& before.1.state matches StateView::Completed { completed_at, .. } ==> if now
                - completed_at >= limit || limit == 0 {
                after.1.state is Tombstone
            } else {
                after == before
            }
            &&& before.1.state is Tombstone ==> after == before
            &&& before.1.state is Pending ==> after.1.state is Pending
        }),
{
    let pruned = pruned_ledger(old(ledger)@, now);
    pruning_keeps_ledger_valid(old(ledger)@, now);
    if operation_id_fault(id@) is None {
        let key = choose|key: OperationKey|
            {
                &&& key.session_namespace == session_namespace
                &&& key.operation_id_hash.bytes@ == digest::blake3_digest(text::utf8(id@))
                &&& final(ledger)@ == #[trigger] begin_ledger(
                    pruned,
                    key,
                    id@,
                    fingerprint,
                    waiter,
                )
                &&& outcome_is(outcome, begin_outcome(pruned, key, id@, fingerprint, waiter))
            };
        if pruned.entries().contains_key(key) {
            let place = assoc::place_of(pruned.history, key);
            assert(assoc::has_key(pruned.history, key));
            assoc::lemma_entry(pruned.history, place);
        }
    }
}

/// A request whose identity is improper is refused and enters nothing.
pub proof fn improper_identity_is_refused(
    ledger: &mut OperationLedger,
    session_namespace: Digest,
    id: &str,
    fingerprint: Digest,
    waiter: OperationWaiter,
    now: u64,
    outcome: BeginOutcome,
    fault: Option<&'static str>,
)
    requires
        call_ensures(
            OperationLedger::begin,
            (ledger, session_namespace, id, fingerprint, waiter, now),
            outcome,
        ),
        call_ensures(invalid_operation_id, (id,), fault),
        fault is Some,
    ensures
        outcome matches BeginOutcome::Respond(reply) && *reply matches ResponsePayload::Failure {
            code,
            message,
        } && code == ErrorCode::InvalidRequest && message@ == fault->0@,
        final(ledger)@.history.len() == old(ledger)@.history.len(),
        final(ledger)@.routed == old(ledger)@.routed,
        final(ledger)@.pending == old(ledger)@.pending,
{
}

/// An identity is proper exactly where it has from one to a hundred and twenty-eight bytes, no white space
/// around it and no control character in it.
pub proof fn identity_is_short_and_plain(id: &str, fault: Option<&'static str>)
    requires
        call_ensures(invalid_operation_id, (id,), fault),
    ensures
        fault is None <==> id@.len() > 0 && text::utf8(id@).len() <= 128 && !text::is_space(id@[0])
            && !text::is_space(id@.last()) && forall|i: int|
            0 <= i < id@.len() ==> !text::is_control(#[trigger] id@[i]),
        id@.len() == 0 ==> fault->0@ == "operation_id must not be empty"@,
        id@.len() > 0 && text::utf8(id@).len() > 128 ==> fault->0@
            == "operation_id must be at most 128 UTF-8 bytes"@,
{
}

/// A reply finishes the operation that its request was routed for, and no other: everyone who waits for
/// that gets it, and nobody waits for it any longer. It is kept unless it is too large. A request that was
/// routed for nothing changes nothing.
pub proof fn reply_finishes_its_operation(
    ledger: &mut OperationLedger,
    routed: OperationWaiter,
    response: Arc<ResponsePayload>,
    response_bytes: usize,
    at: u64,
    completion: Option<CompletedOperation>,
    i: int,
    other: OperationWaiter,
)
    requires
        call_ensures(
            OperationLedger::complete,
            (ledger, routed, response, response_bytes, at),
            completion,
        ),
        old(ledger)@.valid(),
        0 <= i < old(ledger)@.history.len(),
    ensures
        ({
            let before = old(ledger)@;
            let after = final(ledger)@;
            let key = before.routed[routed];
            &&& completion is Some <==> before.routed.contains_key(routed)
            &&& completion is None ==> after == before
            &&& completion matches Some(done) ==> {
                &&& *done.response == *response
                &&& before.history[i].0 == key ==> before.history[i].1.state == StateView::Pending(
                    done.waiters@,
                ) && after.history[i].0 == key && after.history[i].1.fingerprint
                    == before.history[i].1.fingerprint && after.history[i].1.state
                    == if response_bytes > before.limits.max_response_bytes {
                    StateView::Tombstone
                } else {
                    StateView::Completed {
                        response: *response,
                        completed_at: at,
                        response_bytes: response_bytes as nat,
                    }
                }
                &&& before.history[i].0 != key && !(before.history[i].1.state is Completed)
                    ==> after.history[i] == before.history[i]
                &&& after.routed == before.routed.remove(routed)
                &&& done.waiters@.contains(other) ==> !after.pending.contains_key(other)
                &&& !done.waiters@.contains(other) ==> (after.pending.contains_key(other)
                    <==> before.pending.contains_key(other)) && (before.pending.contains_key(other)
                    ==> after.pending[other] == before.pending[other])
            }
        }),
{
    let before = old(ledger)@;
    let after = final(ledger)@;
    if before.routed.contains_key(routed) {
        let key = before.routed[routed];
        let middle = settled(before, routed, reply_of(response), response_bytes as nat, at);
        let place = assoc::place_of(before.history, key);
        assert(before.entries().contains_key(key));
        assert(before.history[place].0 == key);
        assoc::lemma_entry(before.history, place);
        assoc::lemma_entry(before.history, i);
        assert(after.history[i] == middle.history[i] || is_evicted(
            middle.history,
            after.history,
            key,
            i,
        ));
    }
}

/// When a reply is kept, older ones make room for it: of two others, of which one goes and one stays, the
/// one that goes is not the younger one. None goes while all fit. What goes is only the reply: the
/// identity stays.
pub proof fn older_replies_make_room(
    ledger: &mut OperationLedger,
    routed: OperationWaiter,
    response: Arc<ResponsePayload>,
    response_bytes: usize,
    at: u64,
    completion: Option<CompletedOperation>,
    i: int,
    j: int,
)
    requires
        call_ensures(
            OperationLedger::complete,
            (ledger, routed, response, response_bytes, at),
            completion,
        ),
        old(ledger)@.valid(),
        old(ledger)@.routed.contains_key(routed),
        0 <= i < old(ledger)@.history.len(),
        0 <= j < old(ledger)@.history.len(),
        old(ledger)@.history[i].0 != old(ledger)@.routed[routed],
        old(ledger)@.history[j].0 != old(ledger)@.routed[routed],
        old(ledger)@.history[i].1.state is Completed,
    ensures
        ({
            let before = old(ledger)@;
            let after = final(ledger)@;
            &&& after.history[i] == before.history[i] || after.history[i].1.state is Tombstone
            &&& after.history[i].0 == before.history[i].0
            &&& after.history[i].1.fingerprint == before.history[i].1.fingerprint
            &&& (before.history[i].1.state matches StateView::Completed { completed_at: gone, .. }
                && after.history[i].1.state is Tombstone
                && after.history[j].1.state matches StateView::Completed {
                completed_at: kept,
                ..
            }) ==> before.history[i].1.state->completed_at <= after.history[j].1.state->completed_at
            &&& cached_replies(before.history) + 1 <= before.limits.response_capacity
                && cached_bytes(before.history) + response_bytes
                <= before.limits.max_completed_bytes ==> after.history[i] == before.history[i]
        }),
{
    let before = old(ledger)@;
    let after = final(ledger)@;
    let key = before.routed[routed];
    let middle = settled(before, routed, reply_of(response), response_bytes as nat, at);
    let place = assoc::place_of(before.history, key);
    assert(before.entries().contains_key(key));
    assert(before.history[place].0 == key);
    assoc::lemma_entry(before.history, place);
    assert(middle.history[i] == before.history[i]);
    assert(middle.history[j] == before.history[j]);
    if response_bytes <= before.limits.max_response_bytes {
        assert(after.history[i] == middle.history[i] || is_evicted(
            middle.history,
            after.history,
            key,
            i,
        ));
        assert(after.history[j] == middle.history[j] || is_evicted(
            middle.history,
            after.history,
            key,
            j,
        ));
        lemma_update_counts(before.history, place, middle.history[place]);
        if cached_replies(before.history) + 1 <= before.limits.response_capacity && cached_bytes(
            before.history,
        ) + response_bytes <= before.limits.max_completed_bytes {
            no_eviction_within_limits(middle.history, after.history, key, middle.limits);
        }
    }
}

/// Replies never take more room than there is: afterwards their number and their size are within the
/// limits, unless the newest one is the only one.
pub proof fn replies_stay_within_their_room(
    ledger: &mut OperationLedger,
    routed: OperationWaiter,
    response: Arc<ResponsePayload>,
    response_bytes: usize,
    at: u64,
    completion: Option<CompletedOperation>,
    i: int,
)
    requires
        call_ensures(
            OperationLedger::complete,
            (ledger, routed, response, response_bytes, at),
            completion,
        ),
        old(ledger)@.valid(),
        old(ledger)@.routed.contains_key(routed),
        response_bytes <= old(ledger)@.limits.max_response_bytes,
    ensures
        ({
            let after = final(ledger)@;
            ||| cached_replies(after.history) <= after.limits.response_capacity && cached_bytes(
                after.history,
            ) <= after.limits.max_completed_bytes
            ||| (0 <= i < after.history.len() && after.history[i].1.state is Completed
                ==> after.history[i].0 == old(ledger)@.routed[routed])
        }),
{
}

/// A client that leaves waits for nothing any longer. Everyone else waits for what they did, every
/// operation stays with its payload and its reply, and the replies that are owed still finish them.
pub proof fn leaving_client_stops_no_operation(
    ledger: &mut OperationLedger,
    client_id: u64,
    i: int,
    waiter: OperationWaiter,
)
    requires
        call_ensures(OperationLedger::remove_waiters_for_client, (ledger, client_id), ()),
    ensures
        ({
            let before = old(ledger)@;
            let after = final(ledger)@;
            &&& after.history.len() == before.history.len()
            &&& after.routed == before.routed
            &&& after.limits == before.limits
            &&& waiter.client_id == client_id ==> !after.pending.contains_key(waiter)
            &&& waiter.client_id != client_id ==> (after.pending.contains_key(waiter)
                <==> before.pending.contains_key(waiter)) && (before.pending.contains_key(waiter)
                ==> after.pending[waiter] == before.pending[waiter])
            &&& 0 <= i < before.history.len() ==> after.history[i].0 == before.history[i].0
                && after.history[i].1.fingerprint == before.history[i].1.fingerprint
            &&& 0 <= i < before.history.len() && !(before.history[i].1.state is Pending)
                ==> after.history[i].1.state == before.history[i].1.state
            &&& 0 <= i < before.history.len() ==> (
            before.history[i].1.state matches StateView::Pending(waiters) ==> (
            after.history[i].1.state matches StateView::Pending(left) && (left.contains(waiter)
                <==> waiters.contains(waiter) && waiter.client_id != client_id)))
        }),
{
    let before = old(ledger)@;
    if 0 <= i < before.history.len() {
        if let StateView::Pending(waiters) = before.history[i].1.state {
            lemma_without_client(waiters, client_id);
            assert(without_client(waiters, client_id).contains(waiter) <==> waiters.contains(waiter)
                && waiter.client_id != client_id);
        }
    }
}

/// The daemon keeps its identities, replies and waiting requests within fixed limits: replies for a
/// quarter of an hour, a thousand and twenty-four of them, of eight mebibytes each and sixty-four together.
pub proof fn default_limits(limits: LedgerLimits, ledger: OperationLedger)
    requires
        call_ensures(<LedgerLimits as Default>::default, (), limits),
        call_ensures(<OperationLedger as Default>::default, (), ledger),
    ensures
        limits.identity_capacity == 65536,
        limits.response_capacity == 1024,
        limits.completed_ttl_nanos == 15 * 60 * 1_000_000_000,
        limits.max_waiters == 4,
        limits.max_response_bytes == 8 * 1024 * 1024,
        limits.max_completed_bytes == 64 * 1024 * 1024,
        ledger@.limits == limits,
        ledger@.history.len() == 0,
        ledger@.routed.dom().is_empty(),
        ledger@.pending.dom().is_empty(),
{
}

/// Sessions are told apart by their names, and their incarnations by their numbers: what a namespace is
/// hashed from is the name alone, or the name between its length and the number.
pub proof fn namespace_comes_from_name_and_incarnation(
    name: &str,
    incarnation: u64,
    plain: Digest,
    numbered: Digest,
    encoded: &[u8],
    payload: Digest,
)
    requires
        call_ensures(OperationLedger::session_namespace, (name,), plain),
        call_ensures(
            OperationLedger::session_incarnation_namespace,
            (name, incarnation),
            numbered,
        ),
        call_ensures(OperationLedger::fingerprint, (encoded,), payload),
        text::utf8(name@).len() <= u64::MAX,
    ensures
        plain.bytes@ == digest::blake3_digest(text::utf8(name@)),
        payload.bytes@ == digest::blake3_digest(encoded@),
        numbered.bytes@ == digest::blake3_digest(
            digest::be_bytes(text::utf8(name@).len() as u64) + text::utf8(name@)
                + digest::be_bytes(incarnation),
        ),
{
}

} // verus!
