use cue_daemon::actors::{
    shutdown, shutdown_with_reason, unwind_start, Actor, ShutdownStep, StartFailure,
    ACTOR_CHANNEL_CAP,
};
use cue_daemon::cli_args::{
    background_start_args, checked_directive, chosen_directive_is_parsable, daemon_runtime_paths,
    daemon_socket_path, directive_is_parsable, env_filter_from_env, normalize_cli_args_vec, restart_successor_args,
    validate_daemon_socket_path,
};
use cue_daemon::dirs::{pid_path_for_socket, socket_path};
use cue_daemon::handoff::{
    accept_restart, check_handoff_fd, complete_restart_successor_handoff, expect_signal,
    handoff_authority, is_exact_successor, read_restart_handoff_signal, restart_handoff_frame,
    start_successor_for_record, wait_for_any_ready_daemon, wait_for_successor, waiting_failure,
    watchdog_step, AcceptedRestart, DaemonIdentity, HandoffAuthority, HandoffEvent, HandoffRead,
    HandoffReader, HandoffStep, ReadyStep, RestartReply, WatchdogStep, RESTART_HANDOFF_ABORT, RESTART_HANDOFF_ACTIVE,
    RESTART_HANDOFF_COMMIT, RESTART_HANDOFF_WAITING,
};
use cue_daemon::identity::{daemon_generation, new_instance_id};
use cue_daemon::instance::{
    check_pid_marker, check_socket_marker, daemon_status_message, ensure_socket_not_live_with,
    fdinfo_tells_write_lock, force_stop, inspect_pid_file_with, marker_pid,
    normalize_proc_exe_path, owns_pid_file, unconfirmed_refusal, verify_unreachable_daemon,
    wait_for_daemon_release, ForceStop, PidFileState, ReleaseStep, RELEASE_ATTEMPTS,
};
use cue_daemon::lifecycle::{
    cancel_restart_intent_for_stop, RecordWrite, RestartCompletion, RestartOwnership,
    RestartPhase, RestartRecord,
};
use cue_daemon::replies::{
    daemon_pong_ready, daemon_ready, daemon_responding, ping_daemon, request_confirmed_shutdown,
    request_shutdown, restart_reply, DaemonMessage, DaemonReply, ShutdownTold, FIRST_REQUEST,
};
use cue_daemon::service::CurrentProcessOwnership;
use cue_daemon::startup::{
    completed_restart_exit, exit_step, finalize_startup_restart, prepare_foreground_startup,
    restart_ownership, run_restart, run_start, run_start_background, stop_poll_delay,
    wait_and_clear_cancelled_restart, BackgroundStep, ClearStep, DaemonExit, ExitEvent, ExitStep,
    ForegroundStartup, RestartCommandStep, ShutdownAttempt, StartStep, StopStep, StopWait, TakeoverEvent, TakeoverStage, TakeoverStep,
};

const PROTOCOL: u32 = 3;

fn bytes(text: &str) -> Vec<u8> {
    text.as_bytes().to_vec()
}

fn lines(args: Vec<Vec<u8>>) -> Vec<String> {
    args.into_iter()
        .map(|arg| String::from_utf8(arg).expect("an argument of text"))
        .collect()
}

fn normalize(args: &[&str]) -> Vec<String> {
    lines(normalize_cli_args_vec(
        args.iter().map(|arg| bytes(arg)).collect(),
    ))
}

fn default_socket() -> Vec<u8> {
    socket_path(&None, &bytes("/tmp"))
}

fn armed(supervisor_restart: bool) -> RestartRecord {
    RestartRecord {
        restart_id: "restart".into(),
        daemon_instance_id: "old".into(),
        protocol_version: PROTOCOL,
        target_generation: "target".into(),
        phase: RestartPhase::Armed,
        supervisor_restart,
    }
}

fn successor() -> DaemonIdentity {
    DaemonIdentity {
        instance_id: "new".into(),
        generation_id: "target".into(),
        protocol_version: PROTOCOL,
        ready: true,
    }
}

#[test]
fn version_is_set() {
    assert!(!cue_daemon::version().is_empty());
}

#[test]
fn inserts_start_for_top_level_fg_flag() {
    assert_eq!(normalize(&["-f"]), vec!["start", "-f"]);
    assert_eq!(normalize(&["--fg"]), vec!["start", "--fg"]);
}

#[test]
fn inserts_start_for_socket_override() {
    assert_eq!(
        normalize(&["--socket", "/tmp/cued.sock", "-f"]),
        vec!["start", "--socket", "/tmp/cued.sock", "-f"]
    );
    assert_eq!(
        normalize(&["--socket=/tmp/cued.sock"]),
        vec!["start", "--socket=/tmp/cued.sock"]
    );
}

#[test]
fn preserves_real_subcommands_and_help() {
    assert_eq!(normalize(&["start", "--fg"]), vec!["start", "--fg"]);
    assert_eq!(normalize(&["restart"]), vec!["restart"]);
    assert_eq!(normalize(&["status"]), vec!["status"]);
    assert_eq!(
        normalize(&["gateway", "--stdio"]),
        vec!["gateway", "--stdio"]
    );
    assert_eq!(normalize(&["--help"]), vec!["--help"]);
}

#[test]
fn does_not_rewrite_unknown_top_level_args() {
    assert_eq!(normalize(&["oops"]), vec!["oops"]);
}

#[test]
fn normalizing_twice_changes_nothing_more() {
    for args in [
        vec!["-F"],
        vec!["--socket", "a", "--force"],
        vec!["--socket"],
        vec!["--fg", "oops"],
        vec![],
    ] {
        let once = normalize(&args);
        let again: Vec<&str> = once.iter().map(String::as_str).collect();
        assert_eq!(normalize(&again), once);
    }
}

#[test]
fn legacy_foreground_service_activation_honours_cancelled_tombstone() {
    let mut cancelled = armed(true);
    cancelled.restart_id = "cancelled-restart".into();
    cancelled.phase = RestartPhase::Cancelled;

    let (startup, write) = prepare_foreground_startup(Some(cancelled.clone()), false);
    assert!(matches!(startup, ForegroundStartup::SuppressedByCancellation));
    assert!(
        matches!(write, RecordWrite::Keep),
        "legacy start --fg must retain tombstone"
    );

    let (startup, write) = prepare_foreground_startup(Some(cancelled), true);
    assert!(matches!(startup, ForegroundStartup::Start(None)));
    assert!(matches!(write, RecordWrite::Remove));
}

#[test]
fn foreground_startup_takes_up_an_armed_restart() {
    let (startup, write) = prepare_foreground_startup(Some(armed(false)), true);
    match startup {
        ForegroundStartup::Start(Some(record)) => assert_eq!(record.restart_id, "restart"),
        other => panic!("{other:?}"),
    }
    assert!(matches!(write, RecordWrite::Keep));
}

#[test]
fn default_installed_restart_uses_supervisor_failure_exit() {
    let default_socket = bytes("/tmp/cued-default.sock");
    assert_eq!(
        restart_ownership(
            &default_socket,
            &default_socket,
            CurrentProcessOwnership::Managed,
        ),
        RestartOwnership::Supervisor
    );
    assert_eq!(
        restart_ownership(
            &default_socket,
            &default_socket,
            CurrentProcessOwnership::Unknown,
        ),
        RestartOwnership::Unknown
    );
    assert_eq!(completed_restart_exit(true).code(), 75);
    assert_eq!(completed_restart_exit(false).code(), 0);
    assert_eq!(
        restart_ownership(
            &default_socket,
            &default_socket,
            CurrentProcessOwnership::NotManaged,
        ),
        RestartOwnership::Standalone
    );
    assert_eq!(
        restart_ownership(
            &bytes("/tmp/cued-custom.sock"),
            &default_socket,
            CurrentProcessOwnership::Managed,
        ),
        RestartOwnership::Standalone
    );
}

#[test]
fn watchdog_start_owner_is_fixed_by_the_durable_record() {
    assert_eq!(
        start_successor_for_record(&armed(true)),
        WatchdogStep::StartService
    );
    assert_eq!(
        start_successor_for_record(&armed(false)),
        WatchdogStep::StartDirectly
    );
}

#[test]
fn watchdog_starts_a_successor_once_the_owner_is_gone() {
    let record = armed(false);
    let step = |released: bool, last: Option<u64>, now: u64| {
        watchdog_step(Some(&record), None, released, last, now)
    };
    assert_eq!(step(false, None, 10), WatchdogStep::Wait);
    assert_eq!(step(true, None, 10), WatchdogStep::StartDirectly);
    assert_eq!(step(true, Some(10), 3009), WatchdogStep::Wait);
    assert_eq!(step(true, Some(10), 3010), WatchdogStep::StartDirectly);
    assert_eq!(
        watchdog_step(None, None, true, None, 10),
        WatchdogStep::Finish
    );
    let mut identity = successor();
    assert_eq!(
        watchdog_step(Some(&record), Some(&identity), true, None, 10),
        WatchdogStep::Finish
    );
    identity.ready = false;
    assert_eq!(
        watchdog_step(Some(&record), Some(&identity), true, None, 10),
        WatchdogStep::StartDirectly
    );
}

#[test]
fn readiness_fence_requires_exact_successor_identity() {
    let record = armed(false);
    let exact = successor();
    assert!(is_exact_successor(&exact, &record));

    let mut wrong = exact.clone();
    wrong.instance_id = "old".into();
    assert!(!is_exact_successor(&wrong, &record));
    wrong = exact.clone();
    wrong.generation_id = "other".into();
    assert!(!is_exact_successor(&wrong, &record));
    wrong = exact;
    wrong.protocol_version += 1;
    assert!(!is_exact_successor(&wrong, &record));
}

#[test]
fn daemon_socket_override_rejects_empty_or_padded_values() {
    for (path, expected) in [
        ("", "--socket must not be empty"),
        ("   ", "--socket must not be empty"),
        (
            " /tmp/cued.sock",
            "--socket must not have leading or trailing whitespace",
        ),
        (
            "/tmp/cued.sock ",
            "--socket must not have leading or trailing whitespace",
        ),
    ] {
        let error = daemon_socket_path(Some(bytes(path)), default_socket())
            .expect_err("invalid --socket override should fail");

        assert!(error.contains(expected), "wrong error for socket {path:?}: {error}");
    }
    assert_eq!(
        validate_daemon_socket_path("--socket", &vec![0xff]),
        Err("--socket must be valid UTF-8".to_string())
    );
    assert_eq!(
        daemon_socket_path(None, default_socket()),
        Ok(default_socket())
    );
}

#[test]
fn daemon_run_paths_reject_invalid_socket_before_side_effects() {
    let start_error = daemon_runtime_paths(Some(bytes("")), default_socket())
        .expect_err("start should reject invalid socket before process checks");
    assert!(start_error.contains("--socket must not be empty"));

    let status_error = daemon_runtime_paths(Some(bytes(" /tmp/cued.sock")), default_socket())
        .expect_err("status should reject invalid socket before probing");
    assert!(status_error.contains("--socket must not have leading or trailing whitespace"));
}

#[test]
fn env_filter_uses_default_when_rust_log_is_absent() {
    let directive =
        env_filter_from_env("info", None).expect("default tracing directive should parse");
    assert_eq!(directive, "info");
}

#[test]
fn env_filter_prefers_rust_log() {
    assert_eq!(
        env_filter_from_env("info", Some(bytes("cue_daemon=debug,warn"))),
        Ok("cue_daemon=debug,warn".to_string())
    );
}

#[test]
fn env_filter_rejects_empty_rust_log() {
    let error = env_filter_from_env("info", Some(Vec::new()))
        .expect_err("explicit empty RUST_LOG should fail");

    assert_eq!(error, "RUST_LOG must not be empty");
    assert_eq!(
        env_filter_from_env("info", Some(vec![0xff])),
        Err("RUST_LOG must be valid UTF-8".to_string())
    );
}

#[test]
fn env_filter_rejects_invalid_rust_log_instead_of_falling_back() {
    let error = env_filter_from_env("info", Some(bytes("cue_daemon=debug,[")))
        .expect_err("invalid RUST_LOG should fail");

    assert!(
        error.contains("parse RUST_LOG `cue_daemon=debug,[`"),
        "unexpected error: {error}"
    );
    assert_eq!(
        checked_directive("[", false, false),
        Err("parse default tracing directive `[`".to_string())
    );
}

#[test]
fn directives_that_cannot_be_cut_are_told_apart() {
    for directive in [
        "",
        "info",
        " info, cue_daemon=debug",
        "é=info",
        "é=info, warn",
        " é",
        "info,\u{3000}a",
    ] {
        assert!(directive_is_parsable(directive), "{directive}");
        let rust_log = Some(bytes(directive));
        assert!(chosen_directive_is_parsable("info", &rust_log));
        let _ = env_filter_from_env("info", rust_log);
    }
    for directive in [" é=info", "info, é=debug", "\u{3000}a=info", " [é]=info"] {
        assert!(!directive_is_parsable(directive), "{directive}");
        assert!(!chosen_directive_is_parsable("info", &Some(bytes(directive))));
    }
    assert!(!chosen_directive_is_parsable(" é=info", &None));
    assert!(chosen_directive_is_parsable(" é=info", &Some(Vec::new())));
    assert!(chosen_directive_is_parsable(" é=info", &Some(vec![0xff])));
}

#[test]
fn custom_socket_derives_isolated_runtime_markers() {
    let socket = bytes("/tmp/cue-custom/worker.sock");
    let paths =
        daemon_runtime_paths(Some(socket.clone()), default_socket()).expect("derive daemon paths");

    assert_eq!(paths.socket, socket);
    assert_eq!(paths.pid, bytes("/tmp/cue-custom/worker.sock.cued.pid"));
    assert_eq!(paths.lock, bytes("/tmp/cue-custom/worker.sock.cued.lock"));
    assert_ne!(paths.pid, pid_path_for_socket(&default_socket()));
}

#[test]
fn children_are_started_with_their_arguments() {
    assert_eq!(lines(background_start_args(false, None)), vec!["start", "--fg"]);
    assert_eq!(
        lines(background_start_args(true, Some(bytes("/a.sock")))),
        vec!["start", "--fg", "--preserve-restart-fence", "--socket", "/a.sock"]
    );
    assert_eq!(
        lines(restart_successor_args(bytes("/a.sock"), &armed(false), 5)),
        vec![
            "__restart-successor",
            "--socket",
            "/a.sock",
            "--restart-id",
            "restart",
            "--predecessor-instance-id",
            "old",
            "--target-generation",
            "target",
            "--protocol-version",
            "3",
            "--handoff-fd",
            "5",
        ]
    );
}

#[test]
fn stop_fails_closed_when_socket_is_unreachable_but_instance_lock_is_owned() {
    let record = cancel_restart_intent_for_stop(None, PROTOCOL);
    assert_eq!(record.phase, RestartPhase::Cancelled);

    let mut wait = StopWait::new();
    let deadline = 125;
    let mut now = 0;
    let message = loop {
        match wait.lock_tried(Some("held"), now, deadline, 125, "/tmp/cued.lock") {
            StopStep::RequestShutdown => {
                wait.shutdown_tried(
                    ShutdownAttempt::NotConnected {
                        error: "refused".into(),
                    },
                    "/tmp/cued.sock",
                );
                now += stop_poll_delay(now, deadline);
            }
            StopStep::TimedOut { message } => break message,
            other => panic!("{other:?}"),
        }
    };
    assert!(message.contains("stop timed out"), "{message}");
    assert!(message.contains("was not released"), "{message}");
    assert_eq!(
        message,
        "cued stop timed out after 125 ms: daemon ownership lock /tmp/cued.lock was not \
         released; last lock result: held; last socket result: connect to /tmp/cued.sock: refused"
    );
}

#[test]
fn stop_retries_after_connect_failure_until_instance_lock_is_released() {
    let mut wait = StopWait::new();
    assert_eq!(
        wait.lock_tried(Some("held"), 0, 1000, 1000, "/l"),
        StopStep::RequestShutdown
    );
    wait.shutdown_tried(
        ShutdownAttempt::NotConnected {
            error: "refused".into(),
        },
        "/s",
    );
    assert_eq!(
        wait.lock_tried(None, 100, 1000, 1000, "/l"),
        StopStep::Stopped {
            told: "cued: no active daemon; restart handoff durably cancelled"
        }
    );
}

#[test]
fn stop_asks_once() {
    let mut wait = StopWait::new();
    wait.shutdown_tried(ShutdownAttempt::TimedOut, "/s");
    assert_eq!(
        wait.last_socket_error.as_deref(),
        Some("shutdown request timed out")
    );
    wait.shutdown_tried(ShutdownAttempt::Requested, "/s");
    assert_eq!(
        wait.lock_tried(Some("held"), 0, 1000, 1000, "/l"),
        StopStep::Sleep
    );
    assert_eq!(
        wait.lock_tried(None, 0, 1000, 1000, "/l"),
        StopStep::Stopped {
            told: "cued: daemon stopped"
        }
    );
    assert_eq!(stop_poll_delay(0, 1000), 50);
    assert_eq!(stop_poll_delay(980, 1000), 20);
    assert_eq!(stop_poll_delay(2000, 1000), 0);
}

/// Runs a handoff against what the daemon says on its channel. Gives what the daemon was told, how
/// often the record was looked at, and how the handoff ended.
fn run_handoff(
    channel: &[u8],
    daemon_listens: bool,
    exact_armed: &[bool],
) -> (Vec<String>, usize, Result<bool, String>) {
    let mut told = Vec::new();
    let mut looked = 0;
    let mut step = HandoffStep::SendWaiting;
    loop {
        let event = match &step {
            HandoffStep::SendWaiting | HandoffStep::SendActive => {
                let frame = restart_handoff_frame(step.signal().expect("a signal"));
                if step == HandoffStep::SendActive && !daemon_listens {
                    HandoffEvent::NotSent
                } else {
                    match read_restart_handoff_signal(&frame) {
                        HandoffRead::Signal(signal) => told.push(signal),
                        other => panic!("expected a signal, got {other:?}"),
                    }
                    HandoffEvent::Sent
                }
            }
            HandoffStep::ReadWord => match read_restart_handoff_signal(channel) {
                HandoffRead::Signal(word) => HandoffEvent::Word(Some(word)),
                HandoffRead::Closed => HandoffEvent::Word(None),
                HandoffRead::Failed(error) => HandoffEvent::Failed(error),
                HandoffRead::More => unreachable!(),
            },
            HandoffStep::CheckArmed | HandoffStep::CheckStillArmed => {
                let armed = exact_armed[looked];
                looked += 1;
                HandoffEvent::Armed(armed)
            }
            HandoffStep::Done(_) => break,
        };
        step = complete_restart_successor_handoff(step, event);
    }
    match step {
        HandoffStep::Done(result) => (told, looked, result),
        other => panic!("expected an end, got {other:?}"),
    }
}

#[test]
fn restart_handoff_requires_commit_and_exact_armed_ticket() {
    let commit = restart_handoff_frame(RESTART_HANDOFF_COMMIT);
    assert_eq!(
        run_handoff(&commit, true, &[true]),
        (
            vec![
                RESTART_HANDOFF_WAITING.to_string(),
                RESTART_HANDOFF_ACTIVE.to_string()
            ],
            1,
            Ok(true)
        )
    );
    assert_eq!(
        run_handoff(&commit, true, &[false]),
        (vec![RESTART_HANDOFF_WAITING.to_string()], 1, Ok(false))
    );
}

#[test]
fn restart_handoff_parent_eof_takes_over_only_for_exact_armed_ticket() {
    for (exact_armed, expected_takeover) in [(false, false), (true, true)] {
        let (told, _, result) = run_handoff(b"", false, &[exact_armed, exact_armed]);
        assert_eq!(told, vec![RESTART_HANDOFF_WAITING]);
        assert_eq!(result, Ok(expected_takeover));
    }
}

#[test]
fn restart_handoff_ends_without_the_record_where_the_word_is_against_it() {
    let waiting = vec![RESTART_HANDOFF_WAITING.to_string()];
    assert_eq!(
        run_handoff(&restart_handoff_frame(RESTART_HANDOFF_ABORT), true, &[]),
        (waiting.clone(), 0, Ok(false))
    );
    assert_eq!(
        run_handoff(b"HELLO\n", true, &[]),
        (
            waiting.clone(),
            0,
            Err("invalid restart handoff command \"HELLO\"".to_string())
        )
    );
    assert_eq!(
        run_handoff(b"COMM", true, &[]),
        (
            waiting.clone(),
            0,
            Err("restart handoff closed with a partial frame".to_string())
        )
    );
    assert_eq!(
        run_handoff(b"", false, &[true, false]),
        (waiting, 2, Err("publish ACTIVE restart successor".to_string()))
    );
    assert_eq!(
        complete_restart_successor_handoff(HandoffStep::SendWaiting, HandoffEvent::NotSent),
        HandoffStep::Done(Err("announce WAITING restart successor".into()))
    );
    assert_eq!(
        complete_restart_successor_handoff(
            HandoffStep::CheckStillArmed,
            HandoffEvent::Failed("read".into())
        ),
        HandoffStep::Done(Err("read".into()))
    );
    assert_eq!(
        complete_restart_successor_handoff(HandoffStep::ReadWord, HandoffEvent::Armed(true)),
        HandoffStep::ReadWord
    );
}

#[test]
fn restart_handoff_rejects_broken_frames() {
    assert_eq!(
        read_restart_handoff_signal(b"COMM"),
        HandoffRead::Failed("restart handoff closed with a partial frame".into())
    );
    assert_eq!(
        read_restart_handoff_signal(b"\xff\n"),
        HandoffRead::Failed("restart handoff signal is not UTF-8".into())
    );
    assert_eq!(
        read_restart_handoff_signal(&[b'A'; 40]),
        HandoffRead::Failed("restart handoff signal exceeds 32 bytes".into())
    );
    let mut reader = HandoffReader::new();
    assert_eq!(reader.closed(), HandoffRead::Closed);
    assert_eq!(reader.take(b'G'), HandoffRead::More);
    assert_eq!(reader.take(b'O'), HandoffRead::More);
    assert_eq!(reader.take(b'\n'), HandoffRead::Signal("GO".into()));
}

#[test]
fn handoff_words_are_judged() {
    assert_eq!(handoff_authority(None), HandoffAuthority::IfArmed);
    assert_eq!(
        handoff_authority(Some(RESTART_HANDOFF_COMMIT)),
        HandoffAuthority::IfArmed
    );
    assert_eq!(
        handoff_authority(Some(RESTART_HANDOFF_ABORT)),
        HandoffAuthority::Denied
    );
    assert_eq!(
        handoff_authority(Some("HELLO")),
        HandoffAuthority::Invalid {
            message: "invalid restart handoff command \"HELLO\"".into()
        }
    );
    assert_eq!(expect_signal(Some("ACTIVE"), "ACTIVE"), Ok(()));
    assert_eq!(
        expect_signal(Some("ABORT"), "ACTIVE"),
        Err("restart successor sent \"ABORT\", expected \"ACTIVE\"".to_string())
    );
    assert_eq!(
        expect_signal(None, "ACTIVE"),
        Err("restart successor closed its handoff channel".to_string())
    );
    assert_eq!(check_handoff_fd(3), Ok(()));
    assert_eq!(
        check_handoff_fd(-7),
        Err("invalid restart handoff fd -7".to_string())
    );
    assert_eq!(
        waiting_failure("timeout", Some("busy")),
        "successor helper did not reach WAITING: timeout; helper could not be reaped: busy"
    );
}

fn reply_to(id: u32, reply: DaemonReply) -> DaemonMessage {
    DaemonMessage {
        response: Some((id, reply)),
        shown: "Response".into(),
    }
}

#[test]
fn only_the_pong_of_the_first_request_identifies_a_daemon() {
    let pong = reply_to(FIRST_REQUEST, DaemonReply::Pong(successor()));
    assert_eq!(ping_daemon(pong.clone()), Ok(successor()));
    assert!(daemon_ready(Some(&pong)));
    assert_eq!(request_confirmed_shutdown(&pong, "/tmp/cued.sock"), Ok(()));

    let starting = reply_to(
        FIRST_REQUEST,
        DaemonReply::Pong(DaemonIdentity {
            ready: false,
            ..successor()
        }),
    );
    assert_eq!(daemon_pong_ready(Some(&starting)), Some(false));
    assert!(daemon_responding(Some(&starting)));
    assert!(!daemon_ready(Some(&starting)));

    for other in [
        reply_to(7, DaemonReply::Pong(successor())),
        reply_to(FIRST_REQUEST, DaemonReply::Success),
        DaemonMessage {
            response: None,
            shown: "Response".into(),
        },
    ] {
        assert_eq!(daemon_pong_ready(Some(&other)), None);
        assert_eq!(
            request_confirmed_shutdown(&other, "/tmp/cued.sock"),
            Err("refusing --force: socket /tmp/cued.sock did not return a cued Pong".to_string())
        );
        assert_eq!(
            ping_daemon(other),
            Err("daemon returned unexpected Ping response: Response".to_string())
        );
    }
    assert!(!daemon_responding(None));
    assert!(!daemon_ready(None));
}

#[test]
fn replies_to_restart_and_stop_are_told_apart() {
    let accepted = DaemonReply::RestartAccepted {
        restart_id: "restart".into(),
        daemon_instance_id: "old".into(),
        target_generation: "target".into(),
    };
    let refused = DaemonReply::Failure {
        code: "BUSY".into(),
        message: "later".into(),
    };
    assert_eq!(
        restart_reply(reply_to(FIRST_REQUEST, accepted.clone())),
        RestartReply::Accepted {
            restart_id: "restart".into(),
            daemon_instance_id: "old".into(),
            target_generation: "target".into(),
        }
    );
    assert_eq!(
        restart_reply(reply_to(3, accepted)),
        RestartReply::Unexpected {
            shown: "Response".into()
        }
    );
    assert_eq!(
        restart_reply(reply_to(3, refused.clone())),
        RestartReply::Rejected {
            code: "BUSY".into(),
            message: "later".into(),
        }
    );

    assert_eq!(
        request_shutdown(Ok(reply_to(5, DaemonReply::Success))),
        ShutdownTold::Line("cued: shutdown acknowledged".into())
    );
    assert_eq!(
        request_shutdown(Ok(reply_to(5, refused))),
        ShutdownTold::Refusal("later".into())
    );
    assert_eq!(
        request_shutdown(Ok(DaemonMessage {
            response: None,
            shown: "Event".into(),
        })),
        ShutdownTold::Line("cued: unexpected response".into())
    );
    assert_eq!(
        request_shutdown(Err("eof".into())),
        ShutdownTold::Line("cued: connection closed (eof) — daemon likely stopped".into())
    );
}

#[test]
fn background_start_waits_for_a_while() {
    let socket = "/tmp/cued.sock";
    assert_eq!(
        run_start_background(0, None, false, 42, socket),
        BackgroundStep::Wait
    );
    assert_eq!(
        run_start_background(19, None, true, 42, socket),
        BackgroundStep::Told {
            line: "cued started in background (pid 42, socket /tmp/cued.sock)".into()
        }
    );
    assert_eq!(
        run_start_background(3, Some("exit status: 1"), true, 42, socket),
        BackgroundStep::Failed {
            message: "background cued exited early with status exit status: 1".into()
        }
    );
    assert_eq!(
        run_start_background(20, None, false, 42, socket),
        BackgroundStep::Told {
            line: "cued is starting in background (pid 42, socket /tmp/cued.sock)".into()
        }
    );
}

#[test]
fn accepted_restart_comes_from_the_daemon_that_was_asked() {
    let predecessor = DaemonIdentity {
        instance_id: "old".into(),
        generation_id: "before".into(),
        protocol_version: PROTOCOL,
        ready: true,
    };
    let accepted = accept_restart(
        predecessor.clone(),
        RestartReply::Accepted {
            restart_id: "restart".into(),
            daemon_instance_id: "old".into(),
            target_generation: "target".into(),
        },
    )
    .unwrap();
    assert_eq!(
        accepted,
        AcceptedRestart {
            restart_id: "restart".into(),
            predecessor: predecessor.clone(),
            target_generation: "target".into(),
        }
    );
    assert_eq!(
        accept_restart(
            predecessor.clone(),
            RestartReply::Rejected {
                code: "BUSY".into(),
                message: "later".into(),
            },
        ),
        Err("daemon rejected restart (BUSY): later".to_string())
    );
    assert!(accept_restart(
        predecessor,
        RestartReply::Accepted {
            restart_id: "restart".into(),
            daemon_instance_id: "other".into(),
            target_generation: "target".into(),
        },
    )
    .is_err());

    assert_eq!(
        wait_for_successor(Some(&successor()), &accepted, 0, 100, 1),
        ReadyStep::Ready
    );
    assert_eq!(wait_for_successor(None, &accepted, 0, 100, 1), ReadyStep::Wait);
    assert_eq!(
        wait_for_successor(None, &accepted, 100, 100, 1),
        ReadyStep::GiveUp {
            message: "successor for restart restart was not ready within 1 s; drain/restart \
                      continues and no task was killed"
                .into()
        }
    );
    assert_eq!(wait_for_any_ready_daemon(true, 0, 100, 1), ReadyStep::Ready);
    assert_eq!(wait_for_any_ready_daemon(false, 0, 100, 1), ReadyStep::Wait);
    assert_eq!(
        wait_for_any_ready_daemon(false, 100, 100, 1),
        ReadyStep::GiveUp {
            message: "daemon was not ready within 1 s".into()
        }
    );
}

#[test]
fn pid_cleanup_removes_only_the_current_daemon_marker() {
    assert!(
        !owns_pid_file("124", 123),
        "foreign PID marker must be preserved"
    );
    assert!(owns_pid_file("123", 123), "owned PID marker should be removed");
    assert!(owns_pid_file(" 123\n", 123));
    assert!(!owns_pid_file("not-a-pid", 123));
}

#[test]
fn force_fails_closed_for_live_pid_without_confirmed_socket() {
    assert_eq!(
        force_stop(PidFileState::Running(7), false),
        ForceStop::Terminate(7)
    );
    let error = verify_unreachable_daemon(7, true, false, "/p", "/l")
        .expect_err("unconfirmed live PID must never be signalled");
    assert!(error.contains("refusing --force"));
    assert!(error.contains("does not hold daemon lock"));
    assert_eq!(
        verify_unreachable_daemon(7, false, true, "/p", "/l"),
        Err(
            "refusing --force: PID marker /p names live pid 7, but that process is not this \
             cued executable"
                .to_string()
        )
    );
    assert_eq!(verify_unreachable_daemon(7, true, true, "/p", "/l"), Ok(()));
    assert!(unconfirmed_refusal(7, "/p", "/s").contains("cannot be confirmed as cued"));
}

#[test]
fn force_asks_a_daemon_that_answers() {
    assert_eq!(
        force_stop(PidFileState::Running(7), true),
        ForceStop::RequestShutdown
    );
    assert_eq!(force_stop(PidFileState::Missing, false), ForceStop::Nothing);
}

#[test]
fn pid_file_inspection_distinguishes_running_dead_malformed_and_missing() {
    assert_eq!(inspect_pid_file_with(None, true), PidFileState::Missing);
    assert_eq!(
        inspect_pid_file_with(Some("123"), true),
        PidFileState::Running(123)
    );
    assert_eq!(
        inspect_pid_file_with(Some("123"), false),
        PidFileState::Dead(123)
    );
    assert_eq!(
        inspect_pid_file_with(Some("not-a-pid"), true),
        PidFileState::Malformed
    );
    assert_eq!(marker_pid("4294967296"), None);
    assert_eq!(marker_pid(" 42 \n"), Some(42));
}

#[test]
fn status_reports_reachable_socket_when_pid_file_is_missing() {
    assert_eq!(
        daemon_status_message(PidFileState::Missing, true, "/tmp/cued.sock"),
        "cued is running (socket /tmp/cued.sock reachable, PID file is missing)"
    );
}

#[test]
fn status_reports_reachable_socket_when_pid_file_is_malformed() {
    assert_eq!(
        daemon_status_message(PidFileState::Malformed, true, "/tmp/cued.sock"),
        "cued is running (socket /tmp/cued.sock reachable, PID file is malformed)"
    );
}

#[test]
fn status_reports_unreachable_socket_for_live_pid() {
    assert_eq!(
        daemon_status_message(PidFileState::Running(123), false, "/tmp/cued.sock"),
        "cued process is running (pid 123) but socket /tmp/cued.sock is not reachable"
    );
}

#[test]
fn status_reports_not_running_when_pid_and_socket_are_missing() {
    assert_eq!(
        daemon_status_message(PidFileState::Missing, false, "/tmp/cued.sock"),
        "cued is not running"
    );
}

#[test]
fn malformed_pid_file_is_not_removed_while_socket_is_live() {
    let error = check_pid_marker(PidFileState::Malformed, true, "/p", "/s")
        .expect_err("live socket should prevent stale marker cleanup");

    assert!(error.contains("reachable"));
    assert_eq!(
        check_pid_marker(PidFileState::Malformed, false, "/p", "/s"),
        Ok(true)
    );
    assert_eq!(
        check_pid_marker(PidFileState::Missing, false, "/p", "/s"),
        Ok(false)
    );
    assert_eq!(
        check_pid_marker(PidFileState::Running(9), false, "/p", "/s"),
        Err("cued already running (pid 9). If stale, remove /p and retry.".to_string())
    );
}

#[test]
fn socket_liveness_guard_rejects_reachable_socket() {
    let error = ensure_socket_not_live_with(true, "/s", "PID file is missing")
        .expect_err("socket is live");

    assert!(error.contains("socket"));
    assert!(error.contains("reachable"));
    assert_eq!(
        error,
        "cued socket /s is reachable but PID file is missing; run `cued stop --socket /s` first"
    );
    assert_eq!(
        ensure_socket_not_live_with(false, "/s", "PID file is missing"),
        Ok(())
    );
    assert_eq!(
        check_socket_marker(true, "/s"),
        Err("cued already running on socket /s".to_string())
    );
}

#[test]
fn replaced_programs_are_still_recognised() {
    assert_eq!(normalize_proc_exe_path("/opt/cued (deleted)"), "/opt/cued");
    assert_eq!(normalize_proc_exe_path("/opt/cued"), "/opt/cued");
}

#[test]
fn lock_owner_is_read_from_fdinfo() {
    let fdinfo = "pos:\t0\nlock:\t1: FLOCK  ADVISORY  WRITE 77 08:01:123 0 EOF\n";
    assert!(fdinfo_tells_write_lock(fdinfo, 77));
    assert!(!fdinfo_tells_write_lock(fdinfo, 78));
    assert!(!fdinfo_tells_write_lock("lock: 1: FLOCK ADVISORY READ 77", 77));
    assert!(!fdinfo_tells_write_lock("pos: WRITE 77", 77));
}

#[test]
fn release_is_awaited_for_a_while() {
    assert_eq!(
        wait_for_daemon_release(0, false, true, "/s"),
        ReleaseStep::Released
    );
    assert_eq!(
        wait_for_daemon_release(0, true, true, "/s"),
        ReleaseStep::Wait
    );
    assert!(matches!(
        wait_for_daemon_release(RELEASE_ATTEMPTS, true, false, "/s"),
        ReleaseStep::GiveUp { .. }
    ));
    assert_eq!(
        wait_and_clear_cancelled_restart(true, 0, 10, 5, "/l"),
        ClearStep::Clear
    );
    assert_eq!(
        wait_and_clear_cancelled_restart(false, 0, 10, 5, "/l"),
        ClearStep::Wait
    );
    assert_eq!(
        wait_and_clear_cancelled_restart(false, 10, 10, 5, "/l"),
        ClearStep::GiveUp {
            message: "daemon did not release /l within 5 s".into()
        }
    );
}

#[test]
fn start_takes_its_steps_in_order() {
    assert_eq!(
        run_start(true, false, true, false, false, false),
        vec![
            StartStep::RequireSilentSocket,
            StartStep::RunForeground {
                clear_cancelled: false
            },
        ]
    );
    assert_eq!(
        run_start(false, true, false, false, true, true),
        vec![
            StartStep::Stop,
            StartStep::WaitAndClearCancelled,
            StartStep::RestartService,
        ]
    );
    assert_eq!(
        run_start(false, true, false, true, false, true),
        vec![
            StartStep::ForceStop,
            StartStep::ClearCancelled,
            StartStep::RunBackground,
        ]
    );
}

#[test]
fn restart_never_forces_a_silent_daemon() {
    assert_eq!(
        run_restart(false, PidFileState::Running(7), true, false, true, true, "/s"),
        Err(
            "refusing restart: cued pid 7 is alive but /s is not ready; no force-stop was \
             attempted"
                .to_string()
        )
    );
    assert_eq!(
        run_restart(true, PidFileState::Running(7), true, false, true, true, "/s"),
        Ok(vec![
            RestartCommandStep::RequestGracefulRestart,
            RestartCommandStep::WaitForSuccessor,
        ])
    );
    assert_eq!(
        run_restart(false, PidFileState::Missing, true, false, true, false, "/s"),
        Ok(vec![
            RestartCommandStep::ClearCancelledUnderLock,
            RestartCommandStep::RestartService,
        ])
    );
    assert_eq!(
        run_restart(false, PidFileState::Dead(7), true, true, true, true, "/s"),
        Ok(vec![
            RestartCommandStep::ClearCancelledUnderLock,
            RestartCommandStep::RunBackground,
            RestartCommandStep::WaitUntilReady,
        ])
    );
}

#[test]
fn planned_restart_drains_before_it_ends() {
    assert_eq!(
        exit_step(false, ExitEvent::RestartAccepted, false),
        ExitStep::Drain
    );
    assert_eq!(
        exit_step(false, ExitEvent::HandoffReady, false),
        ExitStep::Ignore
    );
    assert_eq!(
        exit_step(true, ExitEvent::HandoffReady, true),
        ExitStep::ShutDown {
            reason: "restart",
            exit: DaemonExit::PlannedRestart,
            cancel_restart: false,
        }
    );
    assert_eq!(
        exit_step(true, ExitEvent::SigTerm, true),
        ExitStep::ShutDown {
            reason: "SIGTERM",
            exit: DaemonExit::Stopped,
            cancel_restart: true,
        }
    );
}

#[test]
fn takeover_goes_through_its_stages() {
    assert_eq!(
        finalize_startup_restart(
            TakeoverStage::Probe,
            TakeoverEvent::Probed { exact: true },
            false
        ),
        TakeoverStep::Go {
            stage: TakeoverStage::Activate
        }
    );
    assert_eq!(
        finalize_startup_restart(
            TakeoverStage::Commit,
            TakeoverEvent::Committed {
                completion: RestartCompletion::Completed
            },
            false
        ),
        TakeoverStep::MarkCompleted
    );
    assert_eq!(
        finalize_startup_restart(
            TakeoverStage::Commit,
            TakeoverEvent::Committed {
                completion: RestartCompletion::CancelledOrReplaced
            },
            true
        ),
        TakeoverStep::ShutDown {
            reason: "restart cancelled",
            exit: DaemonExit::Stopped,
        }
    );
    assert_eq!(
        finalize_startup_restart(
            TakeoverStage::AwaitExecution,
            TakeoverEvent::Executing { ready: false },
            true
        ),
        TakeoverStep::ShutDown {
            reason: "restart activation failed",
            exit: DaemonExit::PlannedRestart,
        }
    );
}

#[test]
fn shutdown_publishes_system_notice_before_stopping_event_bus() {
    let steps = shutdown_with_reason("SIGTERM".into());
    assert_eq!(
        steps[0],
        ShutdownStep::Announce {
            reason: "SIGTERM".into()
        }
    );
    assert!(steps.contains(&ShutdownStep::Stop {
        actor: Actor::Gateway
    }));
    assert_eq!(
        steps.last(),
        Some(&ShutdownStep::Stop {
            actor: Actor::EventBus
        })
    );
    assert_eq!(steps.len(), 6);
    assert_eq!(ACTOR_CHANNEL_CAP, 256);
}

#[test]
fn spawn_all_reports_gateway_initialization_failure() {
    let (steps, error) = unwind_start(StartFailure::Gateway, "bind socket /tmp/s");
    assert!(error.contains("bind socket"), "unexpected gateway init error: {error}");
    assert_eq!(steps, shutdown());
}

#[test]
fn spawn_all_reports_scheduler_initialization_failure() {
    let (steps, message) = unwind_start(StartFailure::Scheduler, "load persisted crons");
    assert!(message.contains("initialize scheduler"));
    assert!(message.contains("load persisted crons"));
    assert_eq!(
        steps,
        vec![
            ShutdownStep::Stop {
                actor: Actor::ScopeStore
            },
            ShutdownStep::Stop {
                actor: Actor::ProcessMgr
            },
            ShutdownStep::Stop {
                actor: Actor::EventBus
            },
        ]
    );
}

#[test]
fn every_instance_has_an_id_of_its_own() {
    let first = new_instance_id();
    let second = new_instance_id();
    assert_eq!(first.len(), 36);
    assert_ne!(first, second);
    assert_eq!(daemon_generation(Some(&"target".to_string())), "target");
    for id in [first, second, daemon_generation(None)] {
        assert_eq!(id.len(), 36);
        for (place, c) in id.chars().enumerate() {
            match place {
                8 | 13 | 18 | 23 => assert_eq!(c, '-', "{id}"),
                14 => assert_eq!(c, '4', "{id}"),
                19 => assert!(matches!(c, '8' | '9' | 'a' | 'b'), "{id}"),
                _ => assert!(matches!(c, '0'..='9' | 'a'..='f'), "{id}"),
            }
        }
    }
}
