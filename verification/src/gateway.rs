//! One connection: its requests, its replies and its events.
use crate::assoc;
use crate::assoc::AssocMap;
use crate::client_events;
use crate::client_events::{
    client_event_can_enqueue, client_event_is_deliverable, complete_client_event_fence,
    release_request_id, reserve_request_id, ClientEventAudience, ClientEventFencePolicy,
    ClientEventState,
};
use crate::config;
use crate::config::AliasConfig;
use crate::digest;
use crate::digest::Digest;
use crate::ipc;
use crate::ipc::{ErrorCode, OkPayload, ResponsePayload};
use crate::lifecycle::{DaemonLifecycle, LifecycleState};
use crate::operation_ledger;
use crate::operation_ledger::{BeginOutcome, LedgerView, OperationLedger, OperationWaiter};
use crate::routing;
use crate::routing::{
    command_contains_connection_local_foreground, is_side_effecting_request, RequestPayload,
    ResolvedCommand,
};
use crate::text;
use std::collections::HashSet;
use std::sync::Arc;
use vstd::prelude::*;

verus! {

/// How many replies of one connection may be queued.
pub const CLIENT_RESPONSE_CAP: usize = 64;

/// How many events of one connection may be queued.
pub const CLIENT_EVENT_CAP: usize = 64;

/// The input that has to be parsed before a request with an identity is entered: that of an
/// evaluation, with its aliases replaced.
pub fn eval_input(payload: &RequestPayload, aliases: &AliasConfig) -> (input: Option<String>)
    requires
        payload matches RequestPayload::Eval { input, .. } ==> config::alias_exempt(
            aliases.entries@,
            input@,
        ) || !config::reaches_wordless_alias(aliases.entries@, input@),
    ensures
        match payload {
            RequestPayload::Eval { input: text, .. } => input matches Some(expanded) && expanded@
                == config::aliased(aliases.entries@, text@),
            _ => input.is_none(),
        },
{
    match payload {
        RequestPayload::Eval { input, .. } => Some(aliases.apply(input.as_str())),
        _ => None,
    }
}

/// The request evaluates a command that attaches the connection to a job. `parsed` is what the
/// parser made of its input; there is nothing where it could not be parsed.
pub open spec fn is_foreground_eval(
    payload: RequestPayload,
    parsed: Option<ResolvedCommand>,
) -> bool {
    payload is Eval && (parsed matches Some(command) && routing::has_foreground(command))
}

/// Whether a request evaluates a command that attaches the connection to a job.
pub fn eval_resolves_to_connection_local_foreground(
    payload: &RequestPayload,
    parsed: &Option<ResolvedCommand>,
) -> (result: bool)
    ensures
        result == is_foreground_eval(*payload, *parsed),
{
    match payload {
        RequestPayload::Eval { .. } => match parsed {
            Some(command) => command_contains_connection_local_foreground(command),
            None => false,
        },
        _ => false,
    }
}

/// An outcome that refuses a request.
pub open spec fn is_refusal(outcome: BeginOutcome, code: ErrorCode, message: Seq<char>) -> bool {
    operation_ledger::outcome_is(
        outcome,
        operation_ledger::OutcomeView::Refuse { code, message },
    )
}

fn refusal(message: &str) -> (outcome: BeginOutcome)
    ensures
        is_refusal(outcome, ErrorCode::InvalidRequest, message@),
{
    BeginOutcome::Respond(Arc::new(ResponsePayload::err(ErrorCode::InvalidRequest, message)))
}

/// What entering an identity comes to, with the payload that it stands for.
pub open spec fn begins_with_payload(
    before: LedgerView,
    namespace: Digest,
    id: Seq<char>,
    encoded: Seq<u8>,
    waiter: OperationWaiter,
    now: u64,
    after: LedgerView,
    outcome: BeginOutcome,
) -> bool {
    exists|fingerprint: Digest|
        fingerprint.bytes@ == digest::blake3_digest(encoded) && #[trigger] operation_ledger::begins(
            before,
            namespace,
            id,
            fingerprint,
            waiter,
            now,
            after,
            outcome,
        )
}

/// What entering a request comes to.
pub open spec fn enters(
    before: LedgerView,
    session_namespace: Option<Digest>,
    operation_id: Option<Seq<char>>,
    payload: RequestPayload,
    parsed: Option<ResolvedCommand>,
    encoded: Result<Vec<u8>, String>,
    waiter: OperationWaiter,
    now: u64,
    after: LedgerView,
    result: Result<BeginOutcome, String>,
) -> bool {
    match operation_id {
        None => after == before && (result matches Ok(outcome) && outcome is Route),
        Some(id) => if is_foreground_eval(payload, parsed) {
            after == before && (result matches Ok(outcome) && is_refusal(
                outcome,
                ErrorCode::InvalidRequest,
                "operation_id is not supported for connection-local :fg or :watch requests"@,
            ))
        } else if !routing::has_side_effect(payload) {
            after == before && (result matches Ok(outcome) && is_refusal(
                outcome,
                ErrorCode::InvalidRequest,
                "operation_id is supported only for daemon-global side-effecting requests"@,
            ))
        } else {
            match (session_namespace, encoded) {
                (None, _) => after == before && (result matches Ok(outcome) && is_refusal(
                    outcome,
                    ErrorCode::InvalidRequest,
                    "operation_id requires a successful session handshake"@,
                )),
                (Some(_), Err(_)) => after == before && (result matches Err(message) && message@
                    == "fingerprint IPC request"@),
                (Some(namespace), Ok(bytes)) => result matches Ok(outcome) && begins_with_payload(
                    before,
                    namespace,
                    id,
                    bytes@,
                    waiter,
                    now,
                    after,
                    outcome,
                ),
            }
        },
    }
}

/// Decides whether a request is routed, waits, or is answered at once.
///
/// One without an identity is routed. An identity is refused where the request belongs to its
/// connection, where it has no effect beyond it, and before the handshake. `encoded` is the payload
/// as it is hashed, or why it could not be encoded.
pub fn idempotency_outcome(
    ledger: &mut OperationLedger,
    session_namespace: Option<Digest>,
    operation_id: Option<&str>,
    payload: &RequestPayload,
    parsed: &Option<ResolvedCommand>,
    encoded: &Result<Vec<u8>, String>,
    waiter: OperationWaiter,
    now: u64,
) -> (result: Result<BeginOutcome, String>)
    requires
        old(ledger).wf(),
    ensures
        final(ledger).wf(),
        enters(
            old(ledger)@,
            session_namespace,
            config::optional_text(operation_id),
            *payload,
            *parsed,
            *encoded,
            waiter,
            now,
            final(ledger)@,
            result,
        ),
{
    let id = match operation_id {
        Some(id) => id,
        None => {
            return Ok(BeginOutcome::Route);
        },
    };
    if eval_resolves_to_connection_local_foreground(payload, parsed) {
        return Ok(
            refusal(
                "operation_id is not supported for connection-local :fg or :watch requests",
            ),
        );
    }
    if !is_side_effecting_request(payload) {
        return Ok(
            refusal("operation_id is supported only for daemon-global side-effecting requests"),
        );
    }
    let namespace = match session_namespace {
        Some(namespace) => namespace,
        None => {
            return Ok(refusal("operation_id requires a successful session handshake"));
        },
    };
    match encoded {
        Ok(bytes) => {
            let fingerprint = OperationLedger::fingerprint(bytes.as_slice());
            let outcome = ledger.begin(namespace, id, fingerprint, waiter, now);
            assert(begins_with_payload(
                old(ledger)@,
                namespace,
                id@,
                bytes@,
                waiter,
                now,
                ledger@,
                outcome,
            ));
            Ok(outcome)
        },
        Err(_) => Err("fingerprint IPC request".to_owned()),
    }
}

/// Decides to whom a reply goes: to everybody who waits for the operation that it completes, or to
/// the request alone.
pub fn dispatch_response(
    ledger: &mut OperationLedger,
    client_id: u64,
    request_id: u32,
    response: Arc<ResponsePayload>,
    response_bytes: usize,
    now: u64,
) -> (targets: Vec<OperationWaiter>)
    requires
        old(ledger).wf(),
    ensures
        final(ledger).wf(),
        operation_ledger::completes(
            old(ledger)@,
            (OperationWaiter { client_id, request_id }),
            *response,
            response_bytes as nat,
            now,
            final(ledger)@,
        ),
        targets@ == if old(ledger)@.routed.contains_key(
            (OperationWaiter { client_id, request_id }),
        ) {
            operation_ledger::waiting_for(
                old(ledger)@,
                (OperationWaiter { client_id, request_id }),
            )
        } else {
            seq![OperationWaiter { client_id, request_id }]
        },
{
    let request = OperationWaiter { client_id, request_id };
    match ledger.complete(request, response, response_bytes, now) {
        Some(completion) => completion.waiters,
        None => {
            let mut targets: Vec<OperationWaiter> = Vec::new();
            targets.push(request);
            assert(targets@ =~= seq![request]);
            targets
        },
    }
}

/// What became of something that was put into the queue of a connection.
#[derive(Clone, Copy, PartialEq, Eq, Structural, Debug)]
pub enum QueueOutcome {
    Queued,
    Full,
    Closed,
}

/// The connections of the daemon, with what each may see.
#[derive(Debug)]
pub struct ClientRegistry {
    pub clients: AssocMap<u64, ClientEventState>,
}

impl ClientRegistry {
    pub fn new() -> (registry: Self)
        ensures
            registry.clients@ == Map::<u64, ClientEventState>::empty(),
    {
        ClientRegistry { clients: AssocMap::new() }
    }

    /// A connection that cannot take what it is sent is cut off: it leaves the registry, and has to
    /// be disconnected. Every other one stays.
    pub fn settle_queue(&mut self, client_id: u64, outcome: QueueOutcome) -> (disconnect: bool)
        ensures
            disconnect == (outcome != QueueOutcome::Queued && old(self).clients@.contains_key(
                client_id,
            )),
            final(self).clients@ == if outcome == QueueOutcome::Queued {
                old(self).clients@
            } else {
                old(self).clients@.remove(client_id)
            },
    {
        match outcome {
            QueueOutcome::Queued => false,
            QueueOutcome::Full => self.evict_client(client_id),
            QueueOutcome::Closed => self.evict_client(client_id),
        }
    }

    fn evict_client(&mut self, client_id: u64) -> (known: bool)
        ensures
            known == old(self).clients@.contains_key(client_id),
            final(self).clients@ == old(self).clients@.remove(client_id),
    {
        self.clients.remove(&client_id).is_some()
    }

    /// Whether an event is queued for a connection: it is known, may see the event, and does not
    /// change its session just now.
    pub fn accepts_event(&self, client_id: u64, audience: &ClientEventAudience) -> (result: bool)
        ensures
            result == (self.clients@.contains_key(client_id) && client_events::may_enqueue(
                self.clients@[client_id],
                *audience,
            )),
    {
        match self.clients.get(&client_id) {
            Some(state) => client_event_can_enqueue(state, audience),
            None => false,
        }
    }
}

/// What a connection is, beyond its queues.
#[derive(Debug)]
pub struct ClientConnection {
    pub client_id: u64,
    /// The requests that have no reply yet.
    pub inflight: HashSet<u32>,
    pub events: ClientEventState,
    /// The namespace of the identities, once there was a handshake.
    pub session_namespace: Option<Digest>,
}

/// What has to be done with a request that was read.
#[derive(Debug)]
pub enum RequestAction {
    /// Close the connection: the number of the request is taken, or there are too many.
    Disconnect,
    /// Route the request.
    Route,
    /// Do nothing: the reply to the same operation comes here too.
    Wait,
    /// Send this reply.
    Respond(Arc<ResponsePayload>),
}

/// What has to be done once a reply was written, or was not.
#[derive(Clone, Copy, PartialEq, Eq, Structural, Debug)]
pub enum WriteAction {
    /// Close the connection.
    Disconnect,
    /// Go on.
    Continue,
    /// Drop the events that are queued, and go on.
    DropQueuedEvents,
}

/// What has to be done with a request, by what entering it came to.
pub open spec fn action_for(
    action: RequestAction,
    result: Result<BeginOutcome, String>,
) -> bool {
    match result {
        Ok(BeginOutcome::Route) => action is Route,
        Ok(BeginOutcome::Wait) => action is Wait,
        Ok(BeginOutcome::Respond(response)) => action == RequestAction::Respond(response),
        Err(message) => action matches RequestAction::Respond(response) && ipc::refuses(
            *response,
            ErrorCode::Internal,
            message@,
        ),
    }
}

impl ClientConnection {
    pub fn new(client_id: u64) -> (connection: Self)
        ensures
            connection.client_id == client_id,
            connection.inflight@ == Set::<u32>::empty(),
            connection.events.binding.is_none(),
            connection.events.fence.is_none(),
            connection.session_namespace.is_none(),
    {
        ClientConnection {
            client_id,
            inflight: HashSet::new(),
            events: ClientEventState::default(),
            session_namespace: None,
        }
    }

    /// Whether the next request may be read, and the next event be written: not while a reply holds
    /// both back.
    pub fn is_open(&self) -> (result: bool)
        ensures
            result == self.events.fence.is_none(),
    {
        !client_events::client_event_fenced(&self.events)
    }

    /// Takes a request in: reserves its number and enters its identity.
    ///
    /// A request whose number cannot be reserved ends the connection before the ledger is asked.
    /// One that cannot be hashed is answered with an internal error.
    pub fn take_request(
        &mut self,
        ledger: &mut OperationLedger,
        request_id: u32,
        operation_id: Option<&str>,
        payload: &RequestPayload,
        parsed: &Option<ResolvedCommand>,
        encoded: &Result<Vec<u8>, String>,
        now: u64,
    ) -> (action: RequestAction)
        requires
            old(ledger).wf(),
        ensures
            final(ledger).wf(),
            final(self).client_id == old(self).client_id,
            final(self).events == old(self).events,
            final(self).session_namespace == old(self).session_namespace,
            if old(self).inflight@.len() >= client_events::MAX_INFLIGHT_REQUESTS_PER_CLIENT || old(
                self,
            ).inflight@.contains(request_id) {
                &&& action is Disconnect
                &&& final(ledger)@ == old(ledger)@
                &&& final(self).inflight@ == old(self).inflight@
            } else {
                &&& final(self).inflight@ == old(self).inflight@.insert(request_id)
                &&& exists|result: Result<BeginOutcome, String>|
                    action_for(action, result) && #[trigger] enters(
                        old(ledger)@,
                        old(self).session_namespace,
                        config::optional_text(operation_id),
                        *payload,
                        *parsed,
                        *encoded,
                        (OperationWaiter { client_id: old(self).client_id, request_id }),
                        now,
                        final(ledger)@,
                        result,
                    )
            },
    {
        if !reserve_request_id(&mut self.inflight, request_id) {
            return RequestAction::Disconnect;
        }
        let waiter = OperationWaiter { client_id: self.client_id, request_id };
        let result = idempotency_outcome(
            ledger,
            self.session_namespace,
            operation_id,
            payload,
            parsed,
            encoded,
            waiter,
            now,
        );
        let ghost entered = result;
        let action = match result {
            Ok(BeginOutcome::Route) => RequestAction::Route,
            Ok(BeginOutcome::Wait) => RequestAction::Wait,
            Ok(BeginOutcome::Respond(response)) => RequestAction::Respond(response),
            Err(message) => RequestAction::Respond(
                Arc::new(ResponsePayload::err(ErrorCode::Internal, message.as_str())),
            ),
        };
        assert(action_for(action, entered));
        action
    }

    /// A reply was written, or could not be.
    ///
    /// A reply that accepts a restart counts as given either way: the restart goes on, and a client
    /// that did not get the reply cannot know. A reply that was written lets events flow again if
    /// they waited for it, and frees the number of its request.
    pub fn reply_written(
        &mut self,
        request_id: u32,
        response: &ResponsePayload,
        written: bool,
        lifecycle: &mut DaemonLifecycle,
    ) -> (action: WriteAction)
        ensures
            *final(lifecycle) == if response matches ResponsePayload::Success(
                OkPayload::RestartAccepted { .. },
            ) {
                old(lifecycle).after_answer(old(self).client_id, request_id)
            } else {
                *old(lifecycle)
            },
            final(self).client_id == old(self).client_id,
            final(self).session_namespace == old(self).session_namespace,
            final(self).events.binding == old(self).events.binding,
            if !written {
                &&& action == WriteAction::Disconnect
                &&& final(self).inflight@ == old(self).inflight@
                &&& final(self).events == old(self).events
            } else {
                &&& final(self).inflight@ == old(self).inflight@.remove(request_id)
                &&& match old(self).events.fence {
                    Some(fence) if fence.request_id == request_id => {
                        &&& final(self).events.fence.is_none()
                        &&& action == if fence.policy == ClientEventFencePolicy::DropQueued {
                            WriteAction::DropQueuedEvents
                        } else {
                            WriteAction::Continue
                        }
                    },
                    _ => final(self).events.fence == old(self).events.fence && action
                        == WriteAction::Continue,
                }
            },
    {
        if let ResponsePayload::Success(OkPayload::RestartAccepted { .. }) = response {
            lifecycle.mark_restart_response_complete(self.client_id, request_id);
        }
        if !written {
            return WriteAction::Disconnect;
        }
        let drop_queued = complete_client_event_fence(&mut self.events, request_id);
        release_request_id(&mut self.inflight, request_id);
        if drop_queued {
            WriteAction::DropQueuedEvents
        } else {
            WriteAction::Continue
        }
    }

    /// Whether an event from the queue is written: not where a reply holds it back, and not where
    /// the connection has changed its session since it was queued.
    pub fn writes_event(&self, audience: &ClientEventAudience) -> (result: bool)
        ensures
            result == (self.events.fence.is_none() && client_events::may_see(
                client_events::binding_name(self.events.binding),
                *audience,
            )),
    {
        client_event_is_deliverable(&self.events, audience)
    }

    /// A handshake or a session command has bound the connection.
    pub fn bind_namespace(&mut self, namespace: Option<Digest>)
        ensures
            *final(self) == (ClientConnection {
                session_namespace: if namespace.is_some() {
                    namespace
                } else {
                    old(self).session_namespace
                },
                ..*old(self)
            }),
    {
        if namespace.is_some() {
            self.session_namespace = namespace;
        }
    }

    /// The connection is gone: the restart that it was to be told of counts as told, and none of its
    /// requests waits for an operation any more.
    pub fn disconnected(&self, lifecycle: &mut DaemonLifecycle, ledger: &mut OperationLedger)
        requires
            old(ledger).wf(),
        ensures
            final(ledger).wf(),
            final(ledger)@ == operation_ledger::ledger_without_client(
                old(ledger)@,
                self.client_id,
            ),
            *final(lifecycle) == old(lifecycle).after_disconnect(self.client_id),
    {
        lifecycle.resolve_restart_response_disconnect(self.client_id);
        ledger.remove_waiters_for_client(self.client_id);
    }
}

/// A request that makes the daemon do work outside its connection is routed when its identity is
/// new: after a handshake, with a proper identity that the session has not used, while the ledger
/// has room. From then on the ledger knows the identity, and the reply to the request completes it.
pub proof fn new_operation_is_routed(
    before: LedgerView,
    namespace: Digest,
    id: Seq<char>,
    payload: RequestPayload,
    parsed: Option<ResolvedCommand>,
    bytes: Vec<u8>,
    waiter: OperationWaiter,
    now: u64,
    after: LedgerView,
    result: Result<BeginOutcome, String>,
)
    requires
        payload is Eval || payload is RunScript || payload is KillJob || payload is CancelExecution
            || payload is RemoveCron || payload is ArchiveSession || payload is RestoreSession
            || payload is Restart || payload is Shutdown,
        payload is Eval ==> (parsed matches Some(command) ==> !(command is Fg) && !(command
            is Script)),
        0 < id.len(),
        text::utf8(id).len() <= 128,
        !text::is_space(id[0]),
        !text::is_space(id.last()),
        forall|i: int| 0 <= i < id.len() ==> !text::is_control(#[trigger] id[i]),
        before.history.len() < before.limits.identity_capacity,
        !before.pending.contains_key(waiter),
        forall|i: int|
            0 <= i < before.history.len() && (#[trigger] before.history[i]).0.session_namespace
                == namespace ==> before.history[i].0.operation_id_hash.bytes@
                != digest::blake3_digest(text::utf8(id)),
        enters(
            before,
            Some(namespace),
            Some(id),
            payload,
            parsed,
            Ok(bytes),
            waiter,
            now,
            after,
            result,
        ),
    ensures
        result matches Ok(outcome) && outcome is Route,
        after.history.len() == before.history.len() + 1,
        after.history.last().0.session_namespace == namespace,
        after.history.last().0.operation_id_hash.bytes@ == digest::blake3_digest(text::utf8(id)),
        after.history.last().1.fingerprint.bytes@ == digest::blake3_digest(bytes@),
        after.history.last().1.state == operation_ledger::StateView::Pending(seq![waiter]),
        after.routed == before.routed.insert(waiter, after.history.last().0),
        after.pending == before.pending.insert(waiter, after.history.last().0),
{
    assert(!is_foreground_eval(payload, parsed));
    assert(operation_ledger::operation_id_fault(id) is None);
    let pruned = operation_ledger::pruned_ledger(before, now);
    assert forall|key: operation_ledger::OperationKey| #[trigger]
        pruned.entries().contains_key(key) && key.session_namespace
            == namespace implies key.operation_id_hash.bytes@ != digest::blake3_digest(
        text::utf8(id),
    ) by {
        let i = assoc::place_of(pruned.history, key);
        assert(assoc::has_key(pruned.history, key));
        assert(pruned.history[i].0 == key);
        assert(before.history[i].0 == key);
    }
}

/// A request that stays within its connection, or only asks, is refused with an identity: nothing is
/// entered, and the same request without an identity is routed.
pub proof fn questions_take_no_identity(
    before: LedgerView,
    session_namespace: Option<Digest>,
    id: Seq<char>,
    payload: RequestPayload,
    parsed: Option<ResolvedCommand>,
    encoded: Result<Vec<u8>, String>,
    waiter: OperationWaiter,
    now: u64,
    after: LedgerView,
    result: Result<BeginOutcome, String>,
)
    requires
        !(payload is Eval),
        !(payload is RunScript),
        !(payload is KillJob),
        !(payload is CancelExecution),
        !(payload is RemoveCron),
        !(payload is ArchiveSession),
        !(payload is RestoreSession),
        !(payload is Restart),
        !(payload is Shutdown),
        enters(
            before,
            session_namespace,
            Some(id),
            payload,
            parsed,
            encoded,
            waiter,
            now,
            after,
            result,
        ),
    ensures
        after == before,
        result matches Ok(BeginOutcome::Respond(response)) && (*response
            matches ResponsePayload::Failure { code, .. } && code == ErrorCode::InvalidRequest),
{
}

/// A request without an identity is routed, whatever it asks for, and leaves the ledger alone. One
/// with an identity is refused before the handshake, and where it attaches its connection.
pub proof fn identity_needs_a_session(
    before: LedgerView,
    session_namespace: Option<Digest>,
    operation_id: Option<Seq<char>>,
    payload: RequestPayload,
    parsed: Option<ResolvedCommand>,
    encoded: Result<Vec<u8>, String>,
    waiter: OperationWaiter,
    now: u64,
    after: LedgerView,
    result: Result<BeginOutcome, String>,
)
    requires
        enters(
            before,
            session_namespace,
            operation_id,
            payload,
            parsed,
            encoded,
            waiter,
            now,
            after,
            result,
        ),
    ensures
        operation_id is None ==> after == before && (result matches Ok(outcome) && outcome is Route),
        operation_id is Some && (session_namespace is None || payload is Eval && (parsed
            matches Some(command) && command is Fg)) ==> after == before && (result
            matches Ok(BeginOutcome::Respond(response)) && (*response
            matches ResponsePayload::Failure { code, .. } && code == ErrorCode::InvalidRequest)),
        result is Err ==> operation_id is Some && session_namespace is Some && encoded is Err
            && after == before,
{
}

/// A connection is closed for a request exactly where the number of the request is taken, or where
/// it would be the 1025th that has no reply; then nothing changes. Otherwise the number is taken,
/// and a request without an identity is routed.
pub proof fn request_numbers_are_bounded(
    connection: &mut ClientConnection,
    ledger: &mut OperationLedger,
    request_id: u32,
    operation_id: Option<&str>,
    payload: &RequestPayload,
    parsed: &Option<ResolvedCommand>,
    encoded: &Result<Vec<u8>, String>,
    now: u64,
    action: RequestAction,
)
    requires
        call_ensures(
            ClientConnection::take_request,
            (connection, ledger, request_id, operation_id, payload, parsed, encoded, now),
            action,
        ),
    ensures
        action is Disconnect <==> old(connection).inflight@.len() >= 1024 || old(connection).inflight@.contains(request_id),
        action is Disconnect ==> final(ledger)@ == old(ledger)@ && final(connection).inflight@
            == old(connection).inflight@,
        !(action is Disconnect) ==> final(connection).inflight@ == old(connection).inflight@.insert(request_id),
        !(action is Disconnect) && operation_id is None ==> action is Route && final(ledger)@
            == old(ledger)@,
{
}

/// What is done with a request is what the ledger says of it: it is routed, it waits, or it is
/// answered with the very reply.
pub proof fn ledger_decides_on_a_request(
    action: RequestAction,
    result: Result<BeginOutcome, String>,
)
    requires
        action_for(action, result),
    ensures
        action is Route <==> (result matches Ok(outcome) && outcome is Route),
        action is Wait <==> (result matches Ok(outcome) && outcome is Wait),
        !(action is Disconnect),
        result matches Ok(BeginOutcome::Respond(response)) ==> action == RequestAction::Respond(
            response,
        ),
        result matches Err(why) ==> (action matches RequestAction::Respond(response) && (*response
            matches ResponsePayload::Failure { code, message } && code == ErrorCode::Internal
            && message@ == why@)),
{
}

/// A reply goes to exactly those requests that wait for the operation that it completes, and where
/// it completes none to its own request alone.
pub proof fn reply_reaches_everyone_who_waits(
    ledger: &mut OperationLedger,
    client_id: u64,
    request_id: u32,
    response: Arc<ResponsePayload>,
    response_bytes: usize,
    now: u64,
    targets: Vec<OperationWaiter>,
    waiter: OperationWaiter,
)
    requires
        old(ledger)@.valid(),
        call_ensures(
            dispatch_response,
            (ledger, client_id, request_id, response, response_bytes, now),
            targets,
        ),
    ensures
        ({
            let request = OperationWaiter { client_id, request_id };
            let before = old(ledger)@;
            targets@.contains(waiter) <==> if before.routed.contains_key(request) {
                before.pending.contains_key(waiter) && before.pending[waiter]
                    == before.routed[request]
            } else {
                waiter == request
            }
        }),
{
    let request = OperationWaiter { client_id, request_id };
    let before = old(ledger)@;
    if before.routed.contains_key(request) {
        let key = before.routed[request];
        assert(before.entries().contains_key(key) && before.entries()[key].state is Pending);
        if targets@.contains(waiter) {
            assert(before.waits_for(waiter, key));
        }
        if before.pending.contains_key(waiter) && before.pending[waiter] == key {
            assert(before.waits_for(waiter, key));
        }
    } else {
        assert(seq![request][0] == request);
        assert(seq![request].contains(request));
    }
}

/// A connection that cannot take what it is sent leaves, and no other one is touched; one that can
/// stays.
pub proof fn slow_connection_leaves_alone(
    registry: &mut ClientRegistry,
    client_id: u64,
    outcome: QueueOutcome,
    disconnect: bool,
    other: u64,
)
    requires
        call_ensures(ClientRegistry::settle_queue, (registry, client_id, outcome), disconnect),
    ensures
        outcome == QueueOutcome::Queued ==> !disconnect && final(registry).clients@ == old(registry).clients@,
        outcome != QueueOutcome::Queued ==> !final(registry).clients@.contains_key(client_id),
        disconnect <==> old(registry).clients@.contains_key(client_id) && !final(registry).clients@.contains_key(client_id),
        other != client_id ==> (final(registry).clients@.contains_key(other) <==> old(registry).clients@.contains_key(other)),
        other != client_id && old(registry).clients@.contains_key(other) ==> final(registry).clients@[other] == old(registry).clients@[other],
{
}

/// Nothing is queued for a connection that is not known, or while it changes its session. A known
/// one that does not change it is sent what is for everybody.
pub proof fn only_known_connections_get_events(
    registry: &ClientRegistry,
    client_id: u64,
    audience: &ClientEventAudience,
    result: bool,
)
    requires
        call_ensures(ClientRegistry::accepts_event, (registry, client_id, audience), result),
    ensures
        result ==> registry.clients@.contains_key(client_id),
        result ==> !(registry.clients@[client_id].fence matches Some(fence) && fence.policy
            == ClientEventFencePolicy::DropQueued),
        registry.clients@.contains_key(client_id) && registry.clients@[client_id].fence is None
            && *audience is Global ==> result,
        registry.clients@.contains_key(client_id) && registry.clients@[client_id].binding is None
            && *audience is Session ==> !result,
{
}

/// A reply that could not be written ends the connection. One that was written frees the number of
/// its request, lets the events that waited for it flow, and drops what is queued exactly where the
/// connection had changed its session.
pub proof fn written_reply_frees_its_request(
    connection: &mut ClientConnection,
    request_id: u32,
    response: &ResponsePayload,
    written: bool,
    lifecycle: &mut DaemonLifecycle,
    action: WriteAction,
)
    requires
        call_ensures(
            ClientConnection::reply_written,
            (connection, request_id, response, written, lifecycle),
            action,
        ),
    ensures
        action == WriteAction::Disconnect <==> !written,
        !written ==> final(connection).inflight@ == old(connection).inflight@ && final(connection).events.fence == old(connection).events.fence,
        written ==> final(connection).inflight@ == old(connection).inflight@.remove(request_id),
        written ==> !(final(connection).events.fence matches Some(fence) && fence.request_id
            == request_id),
        action == WriteAction::DropQueuedEvents <==> written && (old(connection).events.fence
            matches Some(fence) && fence.request_id == request_id && fence.policy
            == ClientEventFencePolicy::DropQueued),
        !(*response matches ResponsePayload::Success(OkPayload::RestartAccepted { .. }))
            ==> *final(lifecycle) == *old(lifecycle),
        (*response matches ResponsePayload::Success(OkPayload::RestartAccepted { .. })) && old(
            lifecycle,
        ).state == LifecycleState::Draining && old(lifecycle).pending_response == Some(
            (old(connection).client_id, request_id),
        ) ==> final(lifecycle).response_complete,
{
}

/// A namespace stays until another one takes its place, and nothing else of the connection changes
/// with it.
pub proof fn namespace_stays_until_replaced(
    connection: &mut ClientConnection,
    namespace: Option<Digest>,
)
    requires
        call_ensures(ClientConnection::bind_namespace, (connection, namespace), ()),
    ensures
        namespace is Some ==> final(connection).session_namespace == namespace,
        namespace is None ==> final(connection).session_namespace == old(connection).session_namespace,
        final(connection).inflight == old(connection).inflight,
        final(connection).events == old(connection).events,
        final(connection).client_id == old(connection).client_id,
{
}

/// Events are written to a connection only while no reply holds them back; then those for everybody
/// always are.
pub proof fn events_wait_for_the_reply(
    connection: &ClientConnection,
    audience: &ClientEventAudience,
    writes: bool,
    open: bool,
)
    requires
        call_ensures(ClientConnection::writes_event, (connection, audience), writes),
        call_ensures(ClientConnection::is_open, (connection,), open),
    ensures
        writes ==> open,
        open <==> connection.events.fence is None,
        open && *audience is Global ==> writes,
        *audience is Session && connection.events.binding is None ==> !writes,
{
}

/// An evaluation is parsed with its aliases replaced, and nothing else is parsed before it is
/// entered.
pub proof fn only_evaluations_are_parsed_first(
    payload: &RequestPayload,
    aliases: &AliasConfig,
    input: Option<String>,
)
    requires
        call_ensures(eval_input, (payload, aliases), input),
    ensures
        input is Some <==> *payload is Eval,
        *payload is Eval && aliases.entries@.len() == 0 ==> input->0@ == (*payload)->Eval_input@,
{
}

} // verus!
