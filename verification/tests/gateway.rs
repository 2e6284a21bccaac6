use std::collections::HashSet;
use std::sync::Arc;

use cue_daemon::client_events::{
    begin_client_event_fence, begin_client_event_hold_fence, client_event_can_enqueue,
    client_event_is_deliverable, complete_client_event_fence, release_request_id,
    reserve_request_id, ClientEvent, ClientEventAudience, ClientEventState,
    MAX_INFLIGHT_REQUESTS_PER_CLIENT,
};
use cue_daemon::completion::{
    complete_input, prefix_before_cursor, CommandSpec, CompletionItem, CompletionKind, ParamSpec,
};
use cue_daemon::config::{AliasConfig, AliasEntry};
use cue_daemon::event_bus::{to_disconnect, Delivery, EventSubscriptions, PublishStats};
use cue_daemon::framing::{frame_message, message_length, read_frame, Frame};
use cue_daemon::gateway::{
    dispatch_response, eval_input, idempotency_outcome, ClientConnection, ClientRegistry,
    QueueOutcome, RequestAction, WriteAction,
};
use cue_daemon::highlight::{highlight_input, HighlightKind, SpannedToken, TokenKind};
use cue_daemon::ipc::{ErrorCode, ForegroundRole, OkPayload, ResponsePayload};
use cue_daemon::lifecycle::{
    DaemonLifecycle, LifecycleState, RestartOwnership, RestartPhase, RestartRecord, RestartTicket,
};
use cue_daemon::operation_ledger::{BeginOutcome, OperationLedger, OperationWaiter};
use cue_daemon::routing::{
    channels_reply, drain_reply, foreground_io_response, foreground_role_response,
    handshake_reply, inline_script_disabled_response, pong, restart_ticket_step, route_command,
    route_request, route_script, session_command_reply, ConnectReply, ForegroundRoleUpdate, Mode,
    ProcessReply, RequestPayload, ResolvedCommand, RestartReplyStep, RouteStep, ScriptSource,
    SessionBinding,
};
use cue_daemon::syntax_hints::syntax_error_message;
use tokio::sync::{mpsc, watch};

fn running() -> DaemonLifecycle {
    DaemonLifecycle::new_with_startup(RestartOwnership::Standalone, None)
}

fn starting() -> DaemonLifecycle {
    DaemonLifecycle::new_with_startup(
        RestartOwnership::Standalone,
        Some(RestartRecord {
            restart_id: "scheduler-gate".into(),
            daemon_instance_id: "predecessor".into(),
            protocol_version: 1,
            target_generation: "target".into(),
            phase: RestartPhase::Armed,
            supervisor_restart: false,
        }),
    )
}

fn unbound() -> ClientEventState {
    ClientEventState {
        binding: None,
        fence: None,
    }
}

fn bound(session: Option<&str>) -> ClientEventState {
    ClientEventState {
        binding: Some(session.map(|name| name.to_string())),
        fence: None,
    }
}

fn session(name: &str) -> ClientEventAudience {
    ClientEventAudience::Session(Some(name.to_string()))
}

/// The queues of subscribers, by the number of their sinks.
struct Sinks {
    queues: Vec<(mpsc::Sender<&'static str>, watch::Sender<bool>)>,
}

impl Sinks {
    fn send(&self, sink: u64) -> Delivery {
        match self.queues[sink as usize].0.try_send("event") {
            Ok(()) => Delivery::Delivered,
            Err(mpsc::error::TrySendError::Full(_)) => Delivery::Lagging,
            Err(mpsc::error::TrySendError::Closed(_)) => Delivery::Closed,
        }
    }

    fn publish(
        &self,
        subscriptions: &mut EventSubscriptions,
        channel: &str,
        excluded: Option<u64>,
    ) -> PublishStats {
        let targets = subscriptions.deliveries(channel, excluded);
        let results = targets
            .iter()
            .map(|(client, sink)| (*client, self.send(*sink)))
            .collect::<Vec<_>>();
        for client in to_disconnect(&results) {
            for (_, sink) in targets.iter().filter(|target| target.0 == client) {
                let _ = self.queues[*sink as usize].1.send(true);
            }
        }
        subscriptions.finish_publish(&results)
    }
}

#[test]
fn publish_removes_closed_subscribers() {
    let mut subscriptions = EventSubscriptions::new();
    let (tx, rx) = mpsc::channel(1);
    let (disconnect_tx, mut disconnect_rx) = watch::channel(false);
    drop(rx);
    let sinks = Sinks {
        queues: vec![(tx, disconnect_tx)],
    };
    subscriptions.subscribe(1, "system".into(), 0);

    let stats = sinks.publish(&mut subscriptions, "system", None);

    assert_eq!(stats.delivered, 0);
    assert_eq!(stats.lagging, 0);
    assert_eq!(stats.closed, 1);
    assert!(*disconnect_rx.borrow_and_update());
    assert_eq!(subscriptions.subscriber_count("system"), 0);
}

#[test]
fn publish_evicts_lagging_subscriber_without_blocking_healthy_subscriber() {
    let mut subscriptions = EventSubscriptions::new();
    let (slow_tx, mut slow_rx) = mpsc::channel(1);
    let (healthy_tx, mut healthy_rx) = mpsc::channel(1);
    let (slow_disconnect_tx, mut slow_disconnect_rx) = watch::channel(false);
    let (healthy_disconnect_tx, healthy_disconnect_rx) = watch::channel(false);
    let mut sinks = Sinks {
        queues: vec![
            (slow_tx, slow_disconnect_tx),
            (healthy_tx, healthy_disconnect_tx),
        ],
    };
    subscriptions.subscribe(1, "system".into(), 0);
    subscriptions.subscribe(1, "jobs".into(), 0);
    subscriptions.subscribe(2, "system".into(), 1);

    let first = sinks.publish(&mut subscriptions, "system", None);
    assert_eq!(first.delivered, 2);
    assert!(healthy_rx.try_recv().is_ok());

    let second_stats = sinks.publish(&mut subscriptions, "system", None);

    assert_eq!(second_stats.delivered, 1);
    assert_eq!(second_stats.lagging, 1);
    assert_eq!(second_stats.closed, 0);
    assert!(*slow_disconnect_rx.borrow_and_update());
    assert!(!*healthy_disconnect_rx.borrow());
    assert!(slow_rx.try_recv().is_ok());
    assert!(healthy_rx.try_recv().is_ok());
    assert_eq!(subscriptions.subscriber_count("system"), 1);
    assert_eq!(subscriptions.subscriber_count("jobs"), 0);

    // A fresh transport can subscribe normally after the evicted one closes.
    let (reconnected_tx, mut reconnected_rx) = mpsc::channel(1);
    let (reconnected_disconnect_tx, reconnected_disconnect_rx) = watch::channel(false);
    sinks.queues.push((reconnected_tx, reconnected_disconnect_tx));
    subscriptions.subscribe(3, "system".into(), 2);
    let reconnect_stats = sinks.publish(&mut subscriptions, "system", None);
    assert_eq!(reconnect_stats.delivered, 2);
    assert!(healthy_rx.try_recv().is_ok());
    assert!(reconnected_rx.try_recv().is_ok());
    assert!(!*reconnected_disconnect_rx.borrow());
}

#[test]
fn publish_can_skip_one_subscriber_without_unsubscribing_it() {
    let mut subscriptions = EventSubscriptions::new();
    let (first_tx, mut first_rx) = mpsc::channel(1);
    let (second_tx, mut second_rx) = mpsc::channel(1);
    let (first_disconnect_tx, _) = watch::channel(false);
    let (second_disconnect_tx, _) = watch::channel(false);
    let sinks = Sinks {
        queues: vec![
            (first_tx, first_disconnect_tx),
            (second_tx, second_disconnect_tx),
        ],
    };
    subscriptions.subscribe(1, "system".into(), 0);
    subscriptions.subscribe(2, "system".into(), 1);

    let stats = sinks.publish(&mut subscriptions, "system", Some(1));

    assert_eq!(stats.delivered, 1);
    assert!(first_rx.try_recv().is_err());
    assert!(second_rx.try_recv().is_ok());
    assert_eq!(subscriptions.subscriber_count("system"), 2);
}

#[test]
fn clients_that_lost_an_event_are_told_once() {
    let results = vec![
        (1, Delivery::Delivered),
        (2, Delivery::Lagging),
        (3, Delivery::Closed),
        (2, Delivery::Closed),
    ];
    assert_eq!(to_disconnect(&results), vec![2, 3]);
    assert_eq!(to_disconnect(&vec![(1, Delivery::Delivered)]), Vec::<u64>::new());
}

#[test]
fn unsubscribing_ends_one_channel_or_all() {
    let mut subscriptions = EventSubscriptions::new();
    subscriptions.subscribe(1, "system".into(), 0);
    subscriptions.subscribe(1, "jobs".into(), 0);
    subscriptions.unsubscribe(1, "jobs");
    assert_eq!(subscriptions.subscriber_count("jobs"), 0);
    assert_eq!(subscriptions.subscriber_count("system"), 1);
    subscriptions.unsubscribe_all(1);
    assert_eq!(subscriptions.subscriber_count("system"), 0);
}

#[test]
fn request_id_fence_rejects_reuse_until_response_is_written() {
    let mut inflight = HashSet::new();

    assert!(reserve_request_id(&mut inflight, 7));
    assert!(!reserve_request_id(&mut inflight, 7));
    release_request_id(&mut inflight, 7);
    assert!(reserve_request_id(&mut inflight, 7));
}

#[test]
fn requests_without_a_reply_are_bounded() {
    let mut inflight = HashSet::new();
    for request_id in 0..MAX_INFLIGHT_REQUESTS_PER_CLIENT as u32 {
        assert!(reserve_request_id(&mut inflight, request_id));
    }
    assert!(!reserve_request_id(&mut inflight, u32::MAX));
}

#[test]
fn binding_response_fence_discards_queued_events_and_revalidates_owner() {
    let mut state = bound(Some("SS-alpha"));
    let mut queue = vec![ClientEvent::session("queued alpha", Some("SS-alpha".into()))];

    assert!(begin_client_event_fence(&mut state, 41, Some("SS-beta".into())));
    queue.push(ClientEvent::session("early beta", Some("SS-beta".into())));
    if complete_client_event_fence(&mut state, 41) {
        queue.clear();
    }

    assert!(queue.is_empty());
    assert!(client_event_is_deliverable(&state, &session("SS-beta")));
    assert!(!client_event_is_deliverable(&state, &session("SS-alpha")));
}

#[test]
fn foreground_response_fence_holds_matching_events_until_response_is_written() {
    let mut state = bound(Some("SS-alpha"));

    begin_client_event_hold_fence(&mut state, 42);
    let audience = session("SS-alpha");
    assert!(client_event_can_enqueue(&state, &audience));
    assert!(!client_event_is_deliverable(&state, &audience));
    assert!(!complete_client_event_fence(&mut state, 42));

    assert!(client_event_is_deliverable(&state, &audience));
}

#[test]
fn direct_event_dispatch_filters_named_owner_and_preserves_anonymous_compatibility() {
    let mut clients = ClientRegistry::new();
    clients.clients.insert(7, bound(Some("SS-alpha")));

    assert!(!clients.accepts_event(7, &session("SS-beta")));
    assert!(clients.accepts_event(7, &session("SS-alpha")));

    clients.clients.insert(7, bound(None));
    assert!(clients.accepts_event(7, &session("SS-beta")));
    assert!(!clients.accepts_event(9, &session("SS-beta")));
}

#[test]
fn response_dispatch_evicts_lagging_client_without_blocking_healthy_client() {
    let mut clients = ClientRegistry::new();
    clients.clients.insert(7, bound(None));
    clients.clients.insert(8, bound(None));

    assert!(clients.settle_queue(7, QueueOutcome::Full));
    assert!(!clients.settle_queue(8, QueueOutcome::Queued));

    assert!(clients.clients.get(&7).is_none());
    assert!(clients.clients.get(&8).is_some());
}

#[test]
fn direct_event_dispatch_evicts_lagging_client_without_blocking_healthy_client() {
    let mut clients = ClientRegistry::new();
    clients.clients.insert(7, bound(None));
    clients.clients.insert(8, bound(None));

    assert!(clients.accepts_event(7, &ClientEventAudience::Global));
    assert!(clients.settle_queue(7, QueueOutcome::Full));
    assert!(clients.accepts_event(8, &ClientEventAudience::Global));
    assert!(!clients.settle_queue(8, QueueOutcome::Queued));

    assert!(clients.clients.get(&7).is_none());
    assert!(clients.clients.get(&8).is_some());
}

#[test]
fn subscribe_request_registers_only_requested_channels() {
    let mut events = unbound();
    let step = route_request(
        RequestPayload::Subscribe {
            channels: vec!["system".into()],
        },
        42,
        &running(),
        &AliasConfig::default(),
        &mut events,
    );
    match step {
        RouteStep::ParseChannels {
            channels,
            subscribe,
        } => {
            assert!(subscribe);
            assert_eq!(channels, vec!["system"]);
        }
        other => panic!("expected explicit system subscription, got {other:?}"),
    }
    let plan = channels_reply(Ok(vec!["system".into()]), "jobs, system");
    assert_eq!(plan.channels, vec!["system"]);
    let mut subscriptions = EventSubscriptions::new();
    let (tx, mut rx) = mpsc::channel(1);
    let (disconnect_tx, _disconnect_rx) = watch::channel(false);
    let sinks = Sinks {
        queues: vec![(tx, disconnect_tx)],
    };
    for channel in plan.channels {
        subscriptions.subscribe(7, channel, 0);
    }
    assert_eq!(subscriptions.deliveries("system", None), vec![(7, 0)]);
    assert!(subscriptions.deliveries("jobs", None).is_empty());
    assert_eq!(sinks.publish(&mut subscriptions, "system", None).delivered, 1);
    assert!(rx.try_recv().is_ok());
    assert!(matches!(
        plan.response,
        ResponsePayload::Success(OkPayload::Ack)
    ));
}

#[test]
fn subscribe_rejects_unknown_event_channels() {
    let step = route_request(
        RequestPayload::Subscribe {
            channels: vec!["output:C1".into()],
        },
        42,
        &running(),
        &AliasConfig::default(),
        &mut unbound(),
    );
    assert!(matches!(
        step,
        RouteStep::ParseChannels { channels, subscribe: true } if channels == ["output:C1"]
    ));
    let plan = channels_reply(Err("output:C1".into()), "jobs, system");
    assert!(plan.channels.is_empty());
    match plan.response {
        ResponsePayload::Failure { code, message } => {
            assert_eq!(code, ErrorCode::InvalidRequest);
            assert!(message.contains("invalid event channel `output:C1`"));
        }
        other => panic!("expected invalid subscription response, got {other:?}"),
    }
}

fn specs() -> Vec<CommandSpec> {
    let command = |name: &str, params: &[&str]| CommandSpec {
        name: name.to_string(),
        detail: format!("{name} detail"),
        accepts_mode_params: !params.is_empty(),
        params: params
            .iter()
            .map(|param| ParamSpec {
                name: param.to_string(),
                value_hint: "true|false".to_string(),
                detail: "a parameter".to_string(),
            })
            .collect(),
    };
    vec![
        command("run", &["pty", "retry"]),
        command("cron", &["retry"]),
        command("tail", &[]),
        command("jobs", &[]),
    ]
}

fn labels(items: &[CompletionItem]) -> Vec<&str> {
    items.iter().map(|item| item.label.as_str()).collect()
}

#[test]
fn completion_uses_shared_command_specs() {
    let items = complete_input(&specs(), ":ta", 3);
    assert!(items.iter().any(|item| item.label == ":tail"));
    assert!(items.iter().all(|item| item.kind == CompletionKind::Command));
}

#[test]
fn completion_clamps_cursor_to_utf8_boundary() {
    let input = ":r💖un";
    let cursor_inside_heart = ":r".len() + 1;

    assert_eq!(prefix_before_cursor(input, cursor_inside_heart), ":r");
    let items = complete_input(&specs(), input, cursor_inside_heart);

    assert!(items.iter().any(|item| item.label == ":run"));
    assert_eq!(prefix_before_cursor(input, 1000), input);
}

#[test]
fn completion_uses_shared_mode_param_specs() {
    let items = complete_input(&specs(), ":run(p", 6);
    assert!(items.iter().any(|item| item.label == "pty"));
    assert!(!items.iter().any(|item| item.label == "retry"));

    let cron_items = complete_input(&specs(), ":cron(p", 7);
    assert!(!cron_items.iter().any(|item| item.label == "pty"));
    assert_eq!(labels(&complete_input(&specs(), ":cron(r", 7)), vec!["retry"]);
}

#[test]
fn inline_multiline_script_rejection_points_to_cue_run() {
    let command = ResolvedCommand::Script {
        source: ScriptSource::Inline,
        items: vec![
            ResolvedCommand::Run { plan: 1 },
            ResolvedCommand::Run { plan: 2 },
        ],
        plan: 0,
    };
    assert!(matches!(
        command,
        ResolvedCommand::Script { source: ScriptSource::Inline, .. }
    ));
    let mut events = unbound();
    let step = route_command(
        Ok(command),
        "cargo test\n:run cargo clippy",
        1,
        &running(),
        &mut events,
    );
    let RouteStep::Respond(routed) = step else {
        panic!("expected a refusal");
    };
    for response in [routed, inline_script_disabled_response()] {
        match response {
            ResponsePayload::Failure { code, message } => {
                assert_eq!(code, ErrorCode::NotSupported);
                assert!(message.contains("cue run path/to/file.cue"));
            }
            other => panic!("expected error response, got {other:?}"),
        }
    }
}

#[test]
fn foreground_eval_operation_id_is_rejected_before_ledger_after_alias_resolution() {
    let mut operations = OperationLedger::default();
    let aliases = AliasConfig {
        entries: vec![AliasEntry {
            from: "observe".into(),
            to: ":watch".into(),
        }],
    };
    let namespace = Some(OperationLedger::session_namespace("session-foreground"));
    let job_mode = Mode { number: 0 };

    for (index, input) in [":fg J1", ":watch J1", "observe J1"].into_iter().enumerate() {
        let operation_id = format!("foreground-{index}");
        let payload = RequestPayload::Eval {
            input: input.into(),
            mode: job_mode,
        };
        let resolved = eval_input(&payload, &aliases).expect("an evaluation has an input");
        let role = match resolved.as_str() {
            ":fg J1" => ForegroundRole::Controller,
            ":watch J1" => ForegroundRole::Observer,
            other => panic!("unexpected input {other}"),
        };
        let parsed = Some(ResolvedCommand::Fg {
            id: "J1".into(),
            role,
        });
        let outcome = idempotency_outcome(
            &mut operations,
            namespace,
            Some(&operation_id),
            &payload,
            &parsed,
            &Ok(input.as_bytes().to_vec()),
            OperationWaiter {
                client_id: 7,
                request_id: index as u32,
            },
            0,
        )
        .unwrap();

        let BeginOutcome::Respond(response) = outcome else {
            panic!("foreground Eval with operation_id must not route: {input}");
        };
        assert!(matches!(
            response.as_ref(),
            ResponsePayload::Failure { code, message }
                if *code == ErrorCode::InvalidRequest
                    && message.contains("connection-local :fg or :watch")
        ));

        let ordinary_input = format!("echo admitted-{index}");
        let ordinary = idempotency_outcome(
            &mut operations,
            namespace,
            Some(&operation_id),
            &RequestPayload::Eval {
                input: ordinary_input.clone(),
                mode: job_mode,
            },
            &Some(ResolvedCommand::Run { plan: 1 }),
            &Ok(ordinary_input.into_bytes()),
            OperationWaiter {
                client_id: 7,
                request_id: 100 + index as u32,
            },
            0,
        )
        .unwrap();
        assert!(matches!(ordinary, BeginOutcome::Route));
    }
}

#[test]
fn run_script_rejects_connection_local_foreground_commands() {
    let run_then_fg = ResolvedCommand::Script {
        source: ScriptSource::Inline,
        items: vec![
            ResolvedCommand::Run { plan: 1 },
            ResolvedCommand::Fg {
                id: "J1".into(),
                role: ForegroundRole::Controller,
            },
        ],
        plan: 0,
    };
    let watch = ResolvedCommand::Script {
        source: ScriptSource::Inline,
        items: vec![ResolvedCommand::Fg {
            id: "J1".into(),
            role: ForegroundRole::Observer,
        }],
        plan: 0,
    };
    for (command, input) in [(run_then_fg, ":run echo before\n:fg J1"), (watch, ":watch J1")] {
        match route_script(Ok(command), "foreground.cue".into(), input) {
            RouteStep::Respond(ResponsePayload::Failure { code, message }) => {
                assert_eq!(code, ErrorCode::NotSupported);
                assert!(message.contains("file scripts"));
                assert!(message.contains(":fg or :watch"));
                assert!(message.contains("interactively"));
            }
            other => panic!("expected foreground script rejection, got {other:?}"),
        }
    }
}

#[test]
fn starting_daemon_takes_no_work() {
    let mut events = unbound();
    let step = route_command(
        Ok(ResolvedCommand::Run { plan: 1 }),
        "touch marker",
        2,
        &starting(),
        &mut events,
    );
    match step {
        RouteStep::Respond(ResponsePayload::Failure { code, .. }) => {
            assert_eq!(code, ErrorCode::DaemonDraining);
        }
        other => panic!("startup execution must be rejected, got {other:?}"),
    }
    let step = route_command(
        Ok(ResolvedCommand::Run { plan: 1 }),
        "touch marker",
        2,
        &running(),
        &mut events,
    );
    assert!(matches!(step, RouteStep::Eval(ResolvedCommand::Run { plan: 1 })));
}

#[test]
fn syntax_error_message_adds_bash_hints() {
    let message = syntax_error_message("echo hi | wc -c > out.txt", "parse failed");
    assert!(message.contains("Possible bash syntax issue"));
    assert!(message.contains("bare '|' is shell syntax"));
    assert!(message.contains("redirection is shell syntax"));
}

#[test]
fn syntax_error_message_without_shell_syntax_is_kept() {
    assert_eq!(syntax_error_message("echo hi", "parse failed"), "parse failed");
}

#[test]
fn highlight_tokenizes_command_and_operator_spans() {
    let token = |kind, start, end| SpannedToken { kind, start, end };
    let spans = highlight_input(
        Ok(vec![
            token(TokenKind::Colon, 0, 1),
            token(TokenKind::Command, 1, 4),
            token(TokenKind::Whitespace, 4, 5),
            token(TokenKind::Word, 5, 10),
            token(TokenKind::SerialThen, 16, 18),
            token(TokenKind::Eof, 24, 24),
        ]),
        24,
    );
    assert!(spans.iter().any(|span| span.kind == HighlightKind::CommandName));
    assert!(spans.iter().any(|span| span.kind == HighlightKind::Operator));
    assert_eq!(spans.len(), 4);
}

#[test]
fn highlight_marks_the_place_of_an_error() {
    let at = |position, length| {
        let spans = highlight_input(Err(position), length);
        assert_eq!(spans.len(), 1);
        assert_eq!(spans[0].kind, HighlightKind::Error);
        (spans[0].start, spans[0].end)
    };
    assert_eq!(at(3, 10), (3, 4));
    assert_eq!(at(9, 10), (9, 10));
    assert_eq!(at(10, 10), (10, 10));
}

const LIMIT: u32 = 1024;

#[test]
fn message_framing_roundtrip() {
    let body = b"{\"ping\":{}}";
    let framed = frame_message(body, LIMIT).expect("frame a small message");
    assert_eq!(&framed[..4], &[0, 0, 0, 11]);
    match read_frame(&framed, LIMIT) {
        Frame::Message {
            body: read,
            consumed,
        } => {
            assert_eq!(read, body);
            assert_eq!(consumed, framed.len());
        }
        other => panic!("expected a message, got {other:?}"),
    }
}

#[test]
fn partial_request_frame_survives_concurrent_outbound_event() {
    let framed = frame_message(b"hello", LIMIT).expect("frame");
    for cut in 0..framed.len() {
        assert!(matches!(read_frame(&framed[..cut], LIMIT), Frame::Incomplete));
    }
    assert!(matches!(
        read_frame(&framed, LIMIT),
        Frame::Message { consumed: 9, .. }
    ));
}

#[test]
fn messages_that_are_too_large_are_refused() {
    let most = LIMIT.to_be_bytes();
    assert_eq!(message_length(most, LIMIT), Ok(LIMIT));
    let over = (LIMIT + 1).to_be_bytes();
    assert_eq!(
        message_length(over, LIMIT),
        Err("message too large: 1025 bytes".to_string())
    );
    assert!(matches!(read_frame(&over, LIMIT), Frame::TooLarge(_)));
    assert!(frame_message(&[0; 1024], LIMIT).is_ok());
    assert_eq!(
        frame_message(&[0; 1025], LIMIT),
        Err("message too large: 1025 bytes".to_string())
    );
}

#[test]
fn a_connection_answers_each_request_once() {
    let mut ledger = OperationLedger::default();
    let mut lifecycle = running();
    let mut connection = ClientConnection::new(7);
    let ping = RequestPayload::Ping;
    let encoded = Ok(b"ping".to_vec());

    assert!(matches!(
        connection.take_request(&mut ledger, 1, None, &ping, &None, &encoded, 0),
        RequestAction::Route
    ));
    assert!(matches!(
        connection.take_request(&mut ledger, 1, None, &ping, &None, &encoded, 0),
        RequestAction::Disconnect
    ));
    let targets = dispatch_response(
        &mut ledger,
        7,
        1,
        Arc::new(ResponsePayload::ack()),
        2,
        0,
    );
    assert_eq!(
        targets,
        vec![OperationWaiter {
            client_id: 7,
            request_id: 1
        }]
    );
    assert_eq!(
        connection.reply_written(1, &ResponsePayload::ack(), true, &mut lifecycle),
        WriteAction::Continue
    );
    assert!(matches!(
        connection.take_request(&mut ledger, 1, None, &ping, &None, &encoded, 0),
        RequestAction::Route
    ));
    assert_eq!(
        connection.reply_written(1, &ResponsePayload::ack(), false, &mut lifecycle),
        WriteAction::Disconnect
    );
}

fn binding(named: Option<&str>, incarnation: u64) -> SessionBinding {
    SessionBinding {
        session_id: "session".into(),
        named_session_id: named.map(str::to_string),
        incarnation,
    }
}

fn refusal(response: &ResponsePayload) -> (ErrorCode, &str) {
    match response {
        ResponsePayload::Failure { code, message } => (*code, message.as_str()),
        other => panic!("expected a refusal, got {other:?}"),
    }
}

#[test]
fn handshake_binds_the_connection() {
    let mut connection = ClientConnection::new(7);
    let plan = handshake_reply(
        ConnectReply::Bound(binding(Some("team"), 3)),
        5,
        &mut connection.events,
    );
    let bind = plan.bind.expect("a binding");
    assert_eq!(bind.named_session_id.as_deref(), Some("team"));
    assert!(bind.detach_foreground);
    assert!(matches!(plan.response, ResponsePayload::Success(OkPayload::Ack)));
    assert_eq!(
        plan.namespace,
        Some(OperationLedger::session_incarnation_namespace("session", 3))
    );
    assert!(!connection.is_open());
    assert!(!connection.writes_event(&ClientEventAudience::Global));
    connection.bind_namespace(plan.namespace);
    assert_eq!(connection.session_namespace, plan.namespace);
    connection.bind_namespace(None);
    assert_eq!(connection.session_namespace, plan.namespace);

    let mut lifecycle = running();
    let action = connection.reply_written(5, &plan.response, true, &mut lifecycle);
    assert_eq!(action, WriteAction::DropQueuedEvents);
    assert!(connection.is_open());
    assert!(connection.writes_event(&ClientEventAudience::Session(Some("team".into()))));
    assert!(!connection.writes_event(&ClientEventAudience::Session(Some("other".into()))));

    let again = handshake_reply(
        ConnectReply::Bound(binding(Some("team"), 4)),
        6,
        &mut connection.events,
    );
    assert!(!again.bind.expect("a binding").detach_foreground);
}

#[test]
fn refused_handshake_binds_nothing() {
    let mut connection = ClientConnection::new(7);
    let plan = handshake_reply(
        ConnectReply::Refused("no such directory".into()),
        5,
        &mut connection.events,
    );
    assert!(plan.bind.is_none() && plan.namespace.is_none());
    assert_eq!(
        refusal(&plan.response),
        (ErrorCode::Internal, "no such directory")
    );
    let plan = handshake_reply(ConnectReply::Dropped, 5, &mut connection.events);
    assert_eq!(
        refusal(&plan.response),
        (ErrorCode::Internal, "scheduler session reply dropped")
    );
    assert!(connection.is_open());
}

#[test]
fn session_command_binds_where_the_scheduler_does() {
    let mut connection = ClientConnection::new(7);
    let plan = session_command_reply(ResponsePayload::ack(), None, 5, &mut connection.events);
    assert!(plan.bind.is_none() && plan.namespace.is_none());
    let plan = session_command_reply(
        ResponsePayload::ack(),
        Some(binding(None, 1)),
        5,
        &mut connection.events,
    );
    assert_eq!(plan.bind.expect("a binding").named_session_id, None);
    assert!(!connection.is_open());
}

#[test]
fn foreground_replies_tell_what_came_of_them() {
    let update = ForegroundRoleUpdate {
        id: "J1".into(),
        attachment_id: 4,
        role: ForegroundRole::Controller,
        control_available: false,
    };
    assert!(matches!(
        foreground_role_response(ProcessReply::Done(update), "claim foreground control"),
        ResponsePayload::Success(OkPayload::FgRoleChanged {
            attachment_id: 4,
            role: ForegroundRole::Controller,
            control_available: false,
            ..
        })
    ));
    assert_eq!(
        refusal(&foreground_role_response(
            ProcessReply::Refused("busy".into()),
            "claim foreground control"
        )),
        (ErrorCode::InvalidState, "busy")
    );
    assert_eq!(
        refusal(&foreground_role_response(
            ProcessReply::Dropped("closed".into()),
            "claim foreground control"
        )),
        (
            ErrorCode::Internal,
            "process manager dropped claim foreground control reply: closed"
        )
    );
    assert!(matches!(
        foreground_io_response(ProcessReply::Done(())),
        ResponsePayload::Success(OkPayload::Ack)
    ));
    assert_eq!(
        refusal(&foreground_io_response(ProcessReply::Dropped("closed".into()))),
        (ErrorCode::Internal, "process_mgr unreachable")
    );
}

#[test]
fn response_roundtrip() {
    let response = pong(
        "0.1.0",
        "00000000-0000-4000-8000-000000000000",
        "generation-1",
        true,
        3,
        vec!["sessions".into()],
    );
    assert!(matches!(
        response,
        ResponsePayload::Success(OkPayload::Pong {
            version,
            ready: true,
            protocol_version: 3,
            capabilities,
            ..
        }) if version == "0.1.0" && capabilities == ["sessions"]
    ));
}

#[test]
fn restart_is_accepted_once_the_drain_began() {
    let ticket = |first_request: bool| RestartTicket {
        restart_id: "restart".into(),
        daemon_instance_id: "instance".into(),
        target_generation: "target".into(),
        first_request,
    };
    assert!(matches!(
        restart_ticket_step(ticket(false)),
        RestartReplyStep::Respond(ResponsePayload::Success(OkPayload::RestartAccepted { .. }))
    ));
    let RestartReplyStep::BeginDrain(first) = restart_ticket_step(ticket(true)) else {
        panic!("the first request begins the drain");
    };
    let mut lifecycle = running();
    assert!(matches!(
        drain_reply(first, true, &mut lifecycle),
        ResponsePayload::Success(OkPayload::RestartAccepted { .. })
    ));
    assert_eq!(lifecycle.state, LifecycleState::Running);
    assert_eq!(
        refusal(&drain_reply(ticket(true), false, &mut lifecycle)),
        (
            ErrorCode::Internal,
            "scheduler could not begin daemon drain"
        )
    );
    assert!(lifecycle.stop_requested);
    assert_eq!(lifecycle.state, LifecycleState::Draining);
}
