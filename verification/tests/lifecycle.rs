use cue_daemon::lifecycle::{
    arm_restart_record, cancel_matching_armed_restart, cancel_restart_intent_for_stop,
    clear_cancelled_restart_record, complete_matching_armed_restart,
    remove_matching_restart_record, restart_intent_matches_ticket, restart_intent_path,
    restart_record_for_ticket, restart_record_lock_path, rollback_armed_restart, DaemonLifecycle,
    LifecycleState, RecordWrite, RestartArm, RestartAttempt, RestartCompletion, RestartEvent,
    RestartOwnership, RestartPhase, RestartRecord, RestartRequest, RestartStep, RestartTicket,
    ShutdownFence,
};

const PROTOCOL: u32 = 3;

fn armed_record(restart_id: &str) -> RestartRecord {
    RestartRecord {
        restart_id: restart_id.into(),
        daemon_instance_id: "instance-a".into(),
        protocol_version: PROTOCOL,
        target_generation: "generation-a".into(),
        phase: RestartPhase::Armed,
        supervisor_restart: false,
    }
}

/// The durable record of one socket.
#[derive(Default)]
struct Disk {
    record: Option<RestartRecord>,
}

impl Disk {
    fn of(record: &RestartRecord) -> Self {
        Disk {
            record: Some(record.clone()),
        }
    }

    fn apply(&mut self, write: RecordWrite) {
        match write {
            RecordWrite::Keep => {}
            RecordWrite::Write(record) => self.record = Some(record),
            RecordWrite::Remove => self.record = None,
        }
    }

    fn remove(&mut self, restart_id: &str) {
        let write = remove_matching_restart_record(self.record.as_ref(), restart_id);
        self.apply(write);
    }

    fn stop(&mut self) {
        let record = cancel_restart_intent_for_stop(self.record.take(), PROTOCOL);
        self.record = Some(record);
    }

    fn complete(&mut self, expected: &RestartRecord) -> RestartCompletion {
        let (completion, write) = complete_matching_armed_restart(self.record.as_ref(), expected);
        self.apply(write);
        completion
    }

    fn clear_cancelled(&mut self) -> bool {
        let (cleared, write) = clear_cancelled_restart_record(self.record.as_ref());
        self.apply(write);
        cleared
    }

    fn phase(&self) -> RestartPhase {
        self.record.as_ref().expect("a record").phase
    }
}

/// How a helper behaves.
#[derive(Default)]
struct Helper {
    spawn_fails: bool,
    activation_fails: bool,
    stop_before_failure: bool,
    reap_fails: bool,
    launches: usize,
    events: Vec<&'static str>,
}

fn carry_out(attempt: &RestartAttempt, disk: &mut Disk, helper: &mut Helper) -> RestartEvent {
    match &attempt.step {
        RestartStep::ReadRecord => RestartEvent::RecordRead {
            cancelled: disk
                .record
                .as_ref()
                .is_some_and(|record| record.phase == RestartPhase::Cancelled),
        },
        RestartStep::SpawnHelper => {
            helper.launches += 1;
            if helper.spawn_fails {
                RestartEvent::Failed("watchdog spawn failed".into())
            } else {
                RestartEvent::HelperWaiting
            }
        }
        RestartStep::ArmRecord => {
            match arm_restart_record(
                disk.record.as_ref(),
                attempt.expected.as_ref(),
                &attempt.intent,
            ) {
                Ok((arm, write)) => {
                    disk.apply(write);
                    RestartEvent::RecordArmed(arm)
                }
                Err(message) => RestartEvent::Failed(message),
            }
        }
        RestartStep::ActivateHelper => {
            helper.events.push("activate");
            if helper.activation_fails {
                if helper.stop_before_failure {
                    disk.stop();
                }
                RestartEvent::Failed("ACTIVE acknowledgement failed".into())
            } else {
                RestartEvent::HelperActive
            }
        }
        RestartStep::ReapHelper(_) => {
            helper.events.push("reap");
            if helper.reap_fails {
                RestartEvent::Failed("helper could not be reaped".into())
            } else {
                RestartEvent::HelperReaped
            }
        }
        RestartStep::RollBackRecord(_) => {
            let (rollback, write) = rollback_armed_restart(
                disk.record.as_ref(),
                &attempt.intent,
                attempt.expected.as_ref(),
            );
            disk.apply(write);
            RestartEvent::RecordRolledBack(rollback)
        }
        RestartStep::CancelRecord(_, _) => {
            let write = cancel_matching_armed_restart(disk.record.as_ref(), &attempt.intent);
            disk.apply(write);
            RestartEvent::RecordCancelled
        }
        RestartStep::Done(_) => unreachable!("the attempt is over"),
    }
}

fn request_restart(
    lifecycle: &mut DaemonLifecycle,
    disk: &mut Disk,
    helper: &mut Helper,
    client_id: u64,
    request_id: u32,
) -> Result<RestartTicket, String> {
    let mut attempt = match lifecycle.request_restart(client_id, request_id, "instance-a", PROTOCOL)
    {
        RestartRequest::Refused(message) => return Err(message),
        RestartRequest::Known(ticket) => return Ok(ticket),
        RestartRequest::Prepare(attempt) => attempt,
    };
    loop {
        if let RestartStep::Done(result) = attempt.step {
            return result;
        }
        let event = carry_out(&attempt, disk, helper);
        attempt = lifecycle.advance_restart(attempt, event);
    }
}

fn lifecycle(ownership: RestartOwnership) -> DaemonLifecycle {
    DaemonLifecycle::new_with_startup(ownership, None)
}

#[test]
fn restart_intent_removal_is_fenced_by_restart_id() {
    let mut disk = Disk::of(&armed_record("restart-a"));

    disk.remove("restart-b");
    assert!(disk.record.is_some());

    disk.remove("restart-a");
    assert!(disk.record.is_none());
}

#[test]
fn stop_cancels_pending_intent_without_a_socket() {
    let mut disk = Disk::of(&armed_record("restart-stop"));

    disk.stop();
    assert_eq!(disk.phase(), RestartPhase::Cancelled);
    assert!(!restart_intent_matches_ticket(
        disk.record.clone(),
        "restart-stop",
        "instance-a",
        "generation-a",
        PROTOCOL,
    ));
    disk.stop();
    assert_eq!(disk.phase(), RestartPhase::Cancelled);
    assert!(disk.clear_cancelled());
    assert!(disk.record.is_none());
    assert!(!disk.clear_cancelled());
}

#[test]
fn exact_readiness_completion_cannot_remove_a_cancelled_tombstone() {
    let intent = armed_record("restart-ready");
    let mut disk = Disk::of(&intent);
    disk.stop();

    assert_eq!(
        disk.complete(&intent),
        RestartCompletion::CancelledOrReplaced
    );
    assert_eq!(disk.phase(), RestartPhase::Cancelled);

    let mut completed = Disk::of(&intent);
    assert_eq!(completed.complete(&intent), RestartCompletion::Completed);
    assert_eq!(
        completed.complete(&intent),
        RestartCompletion::AlreadyCompleted
    );
    assert_eq!(completed.phase(), RestartPhase::Completed);

    let mut missing = Disk::default();
    assert_eq!(
        missing.complete(&intent),
        RestartCompletion::CancelledOrReplaced
    );
}

#[test]
fn tickets_name_one_restart_exactly() {
    let record = armed_record("restart-a");
    assert!(restart_record_for_ticket(
        Some(record.clone()),
        "restart-a",
        "instance-a",
        "generation-a",
        PROTOCOL
    )
    .is_some());
    assert!(restart_record_for_ticket(
        Some(record.clone()),
        "restart-b",
        "instance-a",
        "generation-a",
        PROTOCOL
    )
    .is_none());
    assert!(!restart_intent_matches_ticket(
        Some(record),
        "restart-a",
        "instance-a",
        "generation-a",
        PROTOCOL + 1
    ));
}

#[test]
fn restart_response_gate_resolves_only_the_first_accepting_request() {
    let mut lifecycle = lifecycle(RestartOwnership::Standalone);
    lifecycle.state = LifecycleState::Draining;
    lifecycle.pending_response = Some((7, 42));

    lifecycle.mark_restart_response_complete(8, 9);
    assert!(!lifecycle.response_complete);
    lifecycle.mark_restart_response_complete(7, 43);
    assert!(!lifecycle.response_complete);

    lifecycle.resolve_restart_response_disconnect(8);
    assert!(!lifecycle.response_complete);

    lifecycle.resolve_restart_response_disconnect(7);
    assert!(lifecycle.response_complete);
}

#[test]
fn repeated_restart_requests_spawn_exactly_one_watchdog() {
    let mut lifecycle = lifecycle(RestartOwnership::Standalone);
    let mut disk = Disk::default();
    let mut helper = Helper::default();

    let first = request_restart(&mut lifecycle, &mut disk, &mut helper, 1, 10).unwrap();
    assert!(first.first_request);
    for request_id in 11..111 {
        let repeated =
            request_restart(&mut lifecycle, &mut disk, &mut helper, 2, request_id).unwrap();
        assert_eq!(repeated.restart_id, first.restart_id);
        assert!(!repeated.first_request);
    }

    assert_eq!(helper.launches, 1);
}

#[test]
fn begin_drain_ack_failure_is_cancelled_and_fail_stops() {
    let mut lifecycle = lifecycle(RestartOwnership::Standalone);
    let mut disk = Disk::default();
    let ticket =
        request_restart(&mut lifecycle, &mut disk, &mut Helper::default(), 1, 10).unwrap();

    match lifecycle.cancel_restart_fence() {
        ShutdownFence::WriteRecord(record) => disk.record = Some(record),
        ShutdownFence::CancelStored => disk.stop(),
    }
    lifecycle.fail_stop_restart();
    assert!(lifecycle.stop_requested);
    assert_eq!(lifecycle.state, LifecycleState::Draining);
    assert_eq!(disk.record.as_ref().unwrap().restart_id, ticket.restart_id);
    assert_eq!(disk.phase(), RestartPhase::Cancelled);
}

#[test]
fn supervisor_ownership_is_persisted_in_restart_record() {
    let mut lifecycle = lifecycle(RestartOwnership::Supervisor);
    let mut disk = Disk::default();
    let ticket =
        request_restart(&mut lifecycle, &mut disk, &mut Helper::default(), 1, 10).unwrap();

    let record = disk.record.expect("restart record");
    assert!(record.supervisor_restart);
    assert!(lifecycle.supervisor_restart_requested());
    assert_eq!(record.restart_id, ticket.restart_id);
    assert_eq!(record.restart_id.len(), 36);
    assert_ne!(record.restart_id, record.target_generation);
}

#[test]
fn unknown_ownership_rejects_restart_before_admission_or_durable_changes() {
    let mut lifecycle = lifecycle(RestartOwnership::Unknown);
    let mut disk = Disk::default();
    let mut helper = Helper::default();

    let error = request_restart(&mut lifecycle, &mut disk, &mut helper, 1, 10)
        .expect_err("ambiguous ownership must reject planned restart");

    assert!(error.contains("ownership is unknown"));
    assert_eq!(lifecycle.state, LifecycleState::Running);
    assert_eq!(helper.launches, 0);
    assert!(disk.record.is_none());
}

#[test]
fn watchdog_spawn_failure_leaves_running_state_without_an_armed_intent() {
    let mut lifecycle = lifecycle(RestartOwnership::Standalone);
    let mut disk = Disk::default();
    let mut helper = Helper {
        spawn_fails: true,
        ..Helper::default()
    };

    let error = request_restart(&mut lifecycle, &mut disk, &mut helper, 1, 10)
        .expect_err("a failed watchdog spawn must reject the restart");

    assert!(error.contains("watchdog spawn failed"), "{error}");
    assert_eq!(lifecycle.state, LifecycleState::Running);
    assert!(lifecycle.is_execution_ready());
    assert_eq!(helper.launches, 1);
    assert!(disk.record.is_none());
}

#[test]
fn active_failure_reaps_helper_before_exact_arm_rollback() {
    let mut lifecycle = lifecycle(RestartOwnership::Standalone);
    let mut disk = Disk::default();
    let mut helper = Helper {
        activation_fails: true,
        ..Helper::default()
    };

    let error = request_restart(&mut lifecycle, &mut disk, &mut helper, 1, 10)
        .expect_err("missing ACTIVE must reject restart");

    assert!(error.contains("rolled back"), "{error}");
    assert_eq!(helper.events, vec!["activate", "reap"]);
    assert_eq!(lifecycle.state, LifecycleState::Running);
    assert!(lifecycle.is_execution_ready());
    assert!(disk.record.is_none());
}

#[test]
fn stop_tombstone_wins_active_failure_rollback_race() {
    let mut lifecycle = lifecycle(RestartOwnership::Standalone);
    let mut disk = Disk::default();
    let mut helper = Helper {
        activation_fails: true,
        stop_before_failure: true,
        ..Helper::default()
    };

    let error = request_restart(&mut lifecycle, &mut disk, &mut helper, 1, 10)
        .expect_err("stop must cancel a handoff without ACTIVE");

    assert!(error.contains("explicit stop won"), "{error}");
    assert_eq!(helper.events, vec!["activate", "reap"]);
    assert_eq!(disk.phase(), RestartPhase::Cancelled);
}

#[test]
fn unreaped_active_failure_cancels_authority_and_fail_stops_closed_admission() {
    let mut lifecycle = lifecycle(RestartOwnership::Standalone);
    let mut disk = Disk::default();
    let mut helper = Helper {
        activation_fails: true,
        reap_fails: true,
        ..Helper::default()
    };

    let error = request_restart(&mut lifecycle, &mut disk, &mut helper, 1, 10)
        .expect_err("an unreaped helper must fail-stop the old daemon");

    assert!(error.contains("fail-stopping"), "{error}");
    assert_eq!(helper.events, vec!["activate", "reap"]);
    assert_eq!(lifecycle.state, LifecycleState::Draining);
    assert!(!lifecycle.is_execution_ready());
    assert!(lifecycle.stop_requested);
    assert_eq!(disk.phase(), RestartPhase::Cancelled);
}

#[test]
fn completed_successor_rejects_nested_restart_until_execution_is_ready() {
    let mut lifecycle = DaemonLifecycle::new_with_startup(
        RestartOwnership::Standalone,
        Some(armed_record("completed-not-ready")),
    );
    let mut disk = Disk::default();
    let mut helper = Helper::default();
    lifecycle.mark_startup_restart_completed();
    assert_eq!(lifecycle.state, LifecycleState::Running);
    assert!(!lifecycle.is_execution_ready());

    let error = request_restart(&mut lifecycle, &mut disk, &mut helper, 1, 10)
        .expect_err("a successor must not restart before execution activation");

    assert!(error.contains("still completing startup"));
    assert_eq!(helper.launches, 0);
    assert!(disk.record.is_none());

    lifecycle.mark_startup_execution_ready();
    assert!(lifecycle.is_execution_ready());
}

#[test]
fn stopping_a_ready_successor_cancels_its_completed_fence() {
    let mut completed = armed_record("completed-restart");
    completed.phase = RestartPhase::Completed;
    let mut disk = Disk::of(&completed);
    let mut lifecycle =
        DaemonLifecycle::new_with_startup(RestartOwnership::Standalone, Some(completed));

    match lifecycle.cancel_restart_fence() {
        ShutdownFence::WriteRecord(record) => disk.record = Some(record),
        ShutdownFence::CancelStored => disk.stop(),
    }
    lifecycle.cancel_restart_for_shutdown();

    assert_eq!(disk.phase(), RestartPhase::Cancelled);
    assert!(lifecycle.is_draining());
}

#[test]
fn stop_before_restart_arm_wins_without_admission_or_watchdog_side_effects() {
    let mut lifecycle = lifecycle(RestartOwnership::Standalone);
    let mut disk = Disk::default();
    let mut helper = Helper::default();

    disk.stop();
    let error = request_restart(&mut lifecycle, &mut disk, &mut helper, 1, 10)
        .expect_err("stop-first ordering must reject restart arm");

    assert!(error.contains("explicit stop already won"), "{error}");
    assert_eq!(lifecycle.state, LifecycleState::Running);
    assert_eq!(helper.launches, 0);
    let record = disk.record.as_ref().unwrap();
    assert!(record.restart_id.starts_with("stop-"));
    assert_eq!(record.phase, RestartPhase::Cancelled);
}

#[test]
fn restart_arm_before_stop_is_cancelled_without_rearming() {
    let mut lifecycle = lifecycle(RestartOwnership::Standalone);
    let mut disk = Disk::default();
    let mut helper = Helper::default();

    let ticket = request_restart(&mut lifecycle, &mut disk, &mut helper, 1, 10).unwrap();
    disk.stop();

    assert_eq!(lifecycle.state, LifecycleState::Draining);
    assert_eq!(helper.launches, 1);
    assert_eq!(disk.record.as_ref().unwrap().restart_id, ticket.restart_id);
    assert_eq!(disk.phase(), RestartPhase::Cancelled);
}

#[test]
fn handoff_waits_for_the_work_and_the_answer() {
    let mut lifecycle = lifecycle(RestartOwnership::Standalone);
    let mut disk = Disk::default();
    request_restart(&mut lifecycle, &mut disk, &mut Helper::default(), 1, 10).unwrap();
    assert!(!lifecycle.handoff_ready());
    lifecycle.mark_drained();
    assert!(!lifecycle.handoff_ready());
    lifecycle.mark_restart_response_complete(1, 10);
    assert!(lifecycle.handoff_ready());
}

#[test]
fn records_stand_beside_the_socket() {
    let socket = b"/tmp/cued.sock".to_vec();
    assert_eq!(
        restart_intent_path(&socket),
        b"/tmp/cued.sock.cued.restart.json".to_vec()
    );
    assert_eq!(
        restart_record_lock_path(&socket),
        b"/tmp/cued.sock.cued.restart.state.lock".to_vec()
    );
}

#[test]
fn arming_needs_the_record_that_was_seen() {
    let intent = armed_record("restart-a");
    let other = armed_record("restart-b");
    assert!(matches!(
        arm_restart_record(None, None, &intent),
        Ok((RestartArm::Armed, RecordWrite::Write(_)))
    ));
    assert!(arm_restart_record(Some(&other), None, &intent).is_err());
}
