use std::sync::Arc;

use cue_daemon::digest::Digest;
use cue_daemon::ipc::{ErrorCode, OkPayload, ResponsePayload};
use cue_daemon::operation_ledger::{
    invalid_operation_id, BeginOutcome, LedgerLimits, OperationLedger, OperationWaiter,
    DEFAULT_MAX_RESPONSE_BYTES, MAX_OPERATION_ID_BYTES,
};

/// The most bytes that a message may have.
const MAX_MESSAGE_SIZE: usize = 16 * 1024 * 1024;

fn waiter(client_id: u64, request_id: u32) -> OperationWaiter {
    OperationWaiter {
        client_id,
        request_id,
    }
}

fn fingerprint(value: &str) -> Digest {
    OperationLedger::fingerprint(value.as_bytes())
}

fn ack() -> Arc<ResponsePayload> {
    Arc::new(ResponsePayload::ack())
}

fn assert_ack(response: &ResponsePayload) {
    assert!(matches!(
        response,
        ResponsePayload::Success(OkPayload::Ack)
    ));
}

fn unwrap_error(outcome: BeginOutcome) -> (ErrorCode, String) {
    match outcome {
        BeginOutcome::Respond(response) => match response.as_ref() {
            ResponsePayload::Failure { code, message } => (*code, message.clone()),
            other => panic!("expected error response, got {other:?}"),
        },
        other => panic!("expected response, got {other:?}"),
    }
}

#[test]
fn pending_retries_join_and_completed_retries_replay() {
    let mut ledger = OperationLedger::default();
    let namespace = OperationLedger::session_namespace("session-a");
    let first = waiter(1, 1);
    let retry = waiter(2, 7);

    assert!(matches!(
        ledger.begin(namespace, "tool-call-1", fingerprint("payload"), first, 0),
        BeginOutcome::Route
    ));
    assert!(matches!(
        ledger.begin(namespace, "tool-call-1", fingerprint("payload"), retry, 0),
        BeginOutcome::Wait
    ));

    let completed = ledger
        .complete(first, ack(), 2, 0)
        .expect("idempotent completion");
    assert_eq!(completed.waiters, vec![first, retry]);
    assert_ack(&completed.response);

    match ledger.begin(
        namespace,
        "tool-call-1",
        fingerprint("payload"),
        waiter(3, 9),
        0,
    ) {
        BeginOutcome::Respond(response) => assert_ack(&response),
        other => panic!("expected replay, got {other:?}"),
    }
}

#[test]
fn operation_id_reuse_with_different_payload_is_rejected() {
    let mut ledger = OperationLedger::default();
    let namespace = OperationLedger::session_namespace("session-a");
    assert!(matches!(
        ledger.begin(namespace, "same", fingerprint("first"), waiter(1, 1), 0),
        BeginOutcome::Route
    ));

    let (code, message) =
        unwrap_error(ledger.begin(namespace, "same", fingerprint("second"), waiter(2, 1), 0));
    assert_eq!(code, ErrorCode::InvalidRequest);
    assert!(message.contains("different payload"));
}

#[test]
fn same_waiter_cannot_hide_an_operation_payload_conflict() {
    let mut ledger = OperationLedger::default();
    let namespace = OperationLedger::session_namespace("session-a");
    let same_waiter = waiter(1, 1);
    assert!(matches!(
        ledger.begin(namespace, "same", fingerprint("first"), same_waiter, 0),
        BeginOutcome::Route
    ));

    let (code, _) =
        unwrap_error(ledger.begin(namespace, "same", fingerprint("second"), same_waiter, 0));
    assert_eq!(code, ErrorCode::InvalidRequest);
}

#[test]
fn identical_ids_are_isolated_by_logical_session() {
    let mut ledger = OperationLedger::default();
    let first = OperationLedger::session_namespace("session-a");
    let second = OperationLedger::session_namespace("session-b");

    assert!(matches!(
        ledger.begin(first, "same", fingerprint("first"), waiter(1, 1), 0),
        BeginOutcome::Route
    ));
    assert!(matches!(
        ledger.begin(second, "same", fingerprint("second"), waiter(2, 1), 0),
        BeginOutcome::Route
    ));
}

#[test]
fn incarnations_of_a_session_are_told_apart() {
    let first = OperationLedger::session_incarnation_namespace("session-a", 1);
    let second = OperationLedger::session_incarnation_namespace("session-a", 2);
    let plain = OperationLedger::session_namespace("session-a");
    assert_ne!(first, second);
    assert_ne!(first, plain);
    assert_eq!(
        first,
        OperationLedger::session_incarnation_namespace("session-a", 1)
    );
    assert_eq!(plain.bytes, *blake3::hash(b"session-a").as_bytes());
}

#[test]
fn disconnect_removes_waiter_but_preserves_pending_execution() {
    let mut ledger = OperationLedger::default();
    let namespace = OperationLedger::session_namespace("session-a");
    let original = waiter(1, 1);
    assert!(matches!(
        ledger.begin(namespace, "retry", fingerprint("payload"), original, 0),
        BeginOutcome::Route
    ));
    ledger.remove_waiters_for_client(1);

    let retry = waiter(2, 1);
    assert!(matches!(
        ledger.begin(namespace, "retry", fingerprint("payload"), retry, 0),
        BeginOutcome::Wait
    ));
    let completed = ledger
        .complete(original, ack(), 2, 0)
        .expect("late completion");
    assert_eq!(completed.waiters, vec![retry]);
}

#[test]
fn operation_is_routed_at_most_once() {
    let limits = LedgerLimits {
        response_capacity: 1,
        ..LedgerLimits::default()
    };
    let ttl = limits.completed_ttl_nanos;
    let mut ledger = OperationLedger::new(limits);
    let namespace = OperationLedger::session_namespace("session-a");
    let first = waiter(1, 1);
    assert!(matches!(
        ledger.begin(namespace, "once", fingerprint("payload"), first, 0),
        BeginOutcome::Route
    ));
    ledger.remove_waiters_for_client(1);
    let again = |ledger: &mut OperationLedger, request_id: u32, now: u64| {
        let outcome =
            ledger.begin(namespace, "once", fingerprint("payload"), waiter(9, request_id), now);
        assert!(!matches!(outcome, BeginOutcome::Route));
    };
    again(&mut ledger, 1, 0);
    assert!(ledger.complete(first, ack(), 2, 0).is_some());
    again(&mut ledger, 2, 0);

    let other = waiter(2, 1);
    assert!(matches!(
        ledger.begin(namespace, "other", fingerprint("payload"), other, 1),
        BeginOutcome::Route
    ));
    assert!(ledger.complete(other, ack(), 2, 1).is_some());
    again(&mut ledger, 3, 1);
    again(&mut ledger, 4, ttl.saturating_mul(2));
}

#[test]
fn no_more_replies_go_than_needed() {
    let mut ledger = OperationLedger::new(LedgerLimits {
        max_completed_bytes: 1008,
        ..LedgerLimits::default()
    });
    let namespace = OperationLedger::session_namespace("session-a");
    for (request_id, id, bytes) in [(1, "large", 1000), (2, "small", 3), (3, "last", 10)] {
        let first = waiter(1, request_id);
        assert!(matches!(
            ledger.begin(namespace, id, fingerprint(id), first, 0),
            BeginOutcome::Route
        ));
        assert!(ledger.complete(first, ack(), bytes, u64::from(request_id)).is_some());
    }
    let (code, _) = unwrap_error(ledger.begin(
        namespace,
        "large",
        fingerprint("large"),
        waiter(2, 1),
        3,
    ));
    assert_eq!(code, ErrorCode::InvalidState);
    for (request_id, id) in [(2, "small"), (3, "last")] {
        match ledger.begin(namespace, id, fingerprint(id), waiter(2, request_id), 3) {
            BeginOutcome::Respond(response) => assert_ack(&response),
            other => panic!("expected a replay of {id}, got {other:?}"),
        }
    }
}

#[test]
fn capacity_never_evicts_pending_operations() {
    let mut ledger = OperationLedger::new(LedgerLimits {
        identity_capacity: 1,
        ..LedgerLimits::default()
    });
    let namespace = OperationLedger::session_namespace("session-a");
    assert!(matches!(
        ledger.begin(namespace, "first", fingerprint("first"), waiter(1, 1), 0),
        BeginOutcome::Route
    ));

    let (code, message) =
        unwrap_error(ledger.begin(namespace, "second", fingerprint("second"), waiter(2, 1), 0));
    assert_eq!(code, ErrorCode::InvalidState);
    assert!(message.contains("identity ledger is saturated"));
}

#[test]
fn operation_id_length_is_bounded() {
    let mut ledger = OperationLedger::default();
    let namespace = OperationLedger::session_namespace("session-a");
    let oversized = "x".repeat(MAX_OPERATION_ID_BYTES + 1);
    let (code, _) = unwrap_error(ledger.begin(
        namespace,
        &oversized,
        fingerprint("payload"),
        waiter(1, 1),
        0,
    ));
    assert_eq!(code, ErrorCode::InvalidRequest);
}

#[test]
fn operation_ids_are_checked() {
    assert!(invalid_operation_id("tool-call-1").is_none());
    assert!(invalid_operation_id(&"x".repeat(MAX_OPERATION_ID_BYTES)).is_none());
    assert!(invalid_operation_id("").is_some());
    assert!(invalid_operation_id(" padded").is_some());
    assert!(invalid_operation_id("with\u{7}bell").is_some());
}

#[test]
fn pending_waiter_count_is_bounded() {
    let mut ledger = OperationLedger::new(LedgerLimits {
        max_waiters: 1,
        ..LedgerLimits::default()
    });
    let namespace = OperationLedger::session_namespace("session-a");
    assert!(matches!(
        ledger.begin(namespace, "busy", fingerprint("payload"), waiter(1, 1), 0),
        BeginOutcome::Route
    ));
    let (code, _) =
        unwrap_error(ledger.begin(namespace, "busy", fingerprint("payload"), waiter(2, 1), 0));
    assert_eq!(code, ErrorCode::InvalidState);
}

#[test]
fn completed_ttl_keeps_a_tombstone_and_never_reroutes_the_side_effect() {
    let mut ledger = OperationLedger::new(LedgerLimits {
        identity_capacity: 2,
        completed_ttl_nanos: 0,
        ..LedgerLimits::default()
    });
    let namespace = OperationLedger::session_namespace("session-a");
    let first = waiter(1, 1);
    assert!(matches!(
        ledger.begin(namespace, "first", fingerprint("first"), first, 0),
        BeginOutcome::Route
    ));
    ledger
        .complete(first, ack(), 2, 5)
        .expect("complete first operation");

    let (code, _) =
        unwrap_error(ledger.begin(namespace, "first", fingerprint("first"), waiter(2, 1), 5));
    assert_eq!(code, ErrorCode::InvalidState);
    assert!(matches!(
        ledger.begin(namespace, "second", fingerprint("second"), waiter(2, 2), 5),
        BeginOutcome::Route
    ));
}

#[test]
fn response_cache_pressure_degrades_to_tombstone_instead_of_rerouting() {
    let mut ledger = OperationLedger::new(LedgerLimits {
        response_capacity: 1,
        ..LedgerLimits::default()
    });
    let namespace = OperationLedger::session_namespace("session-a");
    for (index, operation_id) in ["first", "second"].into_iter().enumerate() {
        let owner = waiter(1, index as u32 + 1);
        assert!(matches!(
            ledger.begin(namespace, operation_id, fingerprint(operation_id), owner, 0),
            BeginOutcome::Route
        ));
        ledger
            .complete(owner, ack(), 2, 0)
            .expect("complete operation");
    }

    let (code, _) =
        unwrap_error(ledger.begin(namespace, "first", fingerprint("first"), waiter(2, 1), 0));
    assert_eq!(code, ErrorCode::InvalidState);
}

#[test]
fn oversized_response_reaches_live_waiters_but_is_not_replayed() {
    assert!(DEFAULT_MAX_RESPONSE_BYTES <= MAX_MESSAGE_SIZE / 2);
    let mut ledger = OperationLedger::new(LedgerLimits {
        max_response_bytes: 1,
        ..LedgerLimits::default()
    });
    let namespace = OperationLedger::session_namespace("session-a");
    let first = waiter(1, 1);
    assert!(matches!(
        ledger.begin(namespace, "large", fingerprint("payload"), first, 0),
        BeginOutcome::Route
    ));
    let completed = ledger
        .complete(first, ack(), 2, 0)
        .expect("complete oversized response");
    assert_ack(&completed.response);

    let (code, _) =
        unwrap_error(ledger.begin(namespace, "large", fingerprint("payload"), waiter(2, 1), 0));
    assert_eq!(code, ErrorCode::InvalidState);
}

#[test]
fn only_the_routed_request_completes_an_operation() {
    let mut ledger = OperationLedger::default();
    let namespace = OperationLedger::session_namespace("session-a");
    ledger.begin(namespace, "op", fingerprint("payload"), waiter(1, 1), 0);
    ledger.begin(namespace, "op", fingerprint("payload"), waiter(2, 2), 0);
    assert!(ledger.complete(waiter(2, 2), ack(), 2, 0).is_none());
    assert!(ledger.complete(waiter(1, 1), ack(), 2, 0).is_some());
    assert!(ledger.complete(waiter(1, 1), ack(), 2, 0).is_none());
}
