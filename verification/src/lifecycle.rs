//! The life of the daemon: starting, running, draining for a restart, and the durable record by
//! which a stop and a restart are ordered.
use crate::identity;
use crate::identity::fresh_id;
use crate::text;
use crate::text::{join2, join3, join5, same};
use vstd::prelude::*;

verus! {

#[derive(Clone, Copy, PartialEq, Eq, Structural, Debug)]
pub enum LifecycleState {
    Starting,
    Running,
    Draining,
}

/// Who starts the daemon again after a restart.
#[derive(Clone, Copy, PartialEq, Eq, Structural, Debug)]
pub enum RestartOwnership {
    Supervisor,
    Standalone,
    Unknown,
}

/// What a successor found when it reported that it is ready.
#[derive(Clone, Copy, PartialEq, Eq, Structural, Debug)]
pub enum RestartCompletion {
    Completed,
    AlreadyCompleted,
    CancelledOrReplaced,
}

/// What became of an attempt to arm a restart.
#[derive(Clone, Copy, PartialEq, Eq, Structural, Debug)]
pub enum RestartArm {
    Armed,
    StopWon,
}

/// What became of an attempt to take an armed restart back.
#[derive(Clone, Copy, PartialEq, Eq, Structural, Debug)]
pub enum RestartArmRollback {
    Restored,
    StopWon,
    Replaced,
}

/// How far a restart has come.
#[derive(Clone, Copy, PartialEq, Eq, Structural, Debug)]
pub enum RestartPhase {
    Armed,
    Cancelled,
    Completed,
}

impl Default for RestartPhase {
    fn default() -> (phase: Self)
        ensures
            phase == RestartPhase::Armed,
    {
        RestartPhase::Armed
    }
}

/// The answer to a restart request.
#[derive(Clone, Debug)]
pub struct RestartTicket {
    pub restart_id: String,
    pub daemon_instance_id: String,
    pub target_generation: String,
    pub first_request: bool,
}

/// The durable record of a restart.
#[derive(Debug)]
pub struct RestartRecord {
    pub restart_id: String,
    pub daemon_instance_id: String,
    pub protocol_version: u32,
    pub target_generation: String,
    pub phase: RestartPhase,
    pub supervisor_restart: bool,
}

/// The contents of a restart record.
pub struct RecordView {
    pub restart_id: Seq<char>,
    pub daemon_instance_id: Seq<char>,
    pub protocol_version: u32,
    pub target_generation: Seq<char>,
    pub phase: RestartPhase,
    pub supervisor_restart: bool,
}

impl View for RestartRecord {
    type V = RecordView;

    open spec fn view(&self) -> RecordView {
        RecordView {
            restart_id: self.restart_id@,
            daemon_instance_id: self.daemon_instance_id@,
            protocol_version: self.protocol_version,
            target_generation: self.target_generation@,
            phase: self.phase,
            supervisor_restart: self.supervisor_restart,
        }
    }
}

impl Clone for RestartRecord {
    fn clone(&self) -> (copy: Self)
        ensures
            copy == *self,
    {
        RestartRecord {
            restart_id: self.restart_id.clone(),
            daemon_instance_id: self.daemon_instance_id.clone(),
            protocol_version: self.protocol_version,
            target_generation: self.target_generation.clone(),
            phase: self.phase,
            supervisor_restart: self.supervisor_restart,
        }
    }
}

/// The contents of a record that may be missing.
pub open spec fn stored(record: Option<RestartRecord>) -> Option<RecordView> {
    match record {
        Some(record) => Some(record@),
        None => None,
    }
}

/// The contents of a borrowed record that may be missing.
pub open spec fn stored_ref(record: Option<&RestartRecord>) -> Option<RecordView> {
    match record {
        Some(record) => Some(record@),
        None => None,
    }
}

/// Whether two records say the same.
pub fn same_record(a: &RestartRecord, b: &RestartRecord) -> (result: bool)
    ensures
        result == (a@ == b@),
{
    same(a.restart_id.as_str(), b.restart_id.as_str()) && same(
        a.daemon_instance_id.as_str(),
        b.daemon_instance_id.as_str(),
    ) && a.protocol_version == b.protocol_version && same(
        a.target_generation.as_str(),
        b.target_generation.as_str(),
    ) && a.phase == b.phase && a.supervisor_restart == b.supervisor_restart
}

fn same_optional(a: Option<&RestartRecord>, b: Option<&RestartRecord>) -> (result: bool)
    ensures
        result == (stored_ref(a) == stored_ref(b)),
{
    match (a, b) {
        (Some(a), Some(b)) => same_record(a, b),
        (None, None) => true,
        _ => false,
    }
}

/// An explicit stop is recorded.
pub open spec fn is_cancelled(record: Option<RecordView>) -> bool {
    match record {
        Some(record) => record.phase == RestartPhase::Cancelled,
        None => false,
    }
}

fn cancelled(record: Option<&RestartRecord>) -> (result: bool)
    ensures
        result == is_cancelled(stored_ref(record)),
{
    match record {
        Some(record) => record.phase == RestartPhase::Cancelled,
        None => false,
    }
}

/// What is done to the durable record while its lock is held.
#[derive(Debug)]
pub enum RecordWrite {
    /// The record stays as it is.
    Keep,
    /// The record is replaced.
    Write(RestartRecord),
    /// The record is removed.
    Remove,
}

/// The durable record after a write.
pub open spec fn written(current: Option<RecordView>, write: RecordWrite) -> Option<RecordView> {
    match write {
        RecordWrite::Keep => current,
        RecordWrite::Write(record) => Some(record@),
        RecordWrite::Remove => None,
    }
}

/// What an attempt to arm a restart comes to.
pub open spec fn is_arm_result(
    current: Option<RecordView>,
    expected: Option<RecordView>,
    armed: RecordView,
    result: Result<(RestartArm, RecordWrite), String>,
) -> bool {
    match result {
        Ok((RestartArm::StopWon, write)) => is_cancelled(current) && write is Keep,
        Ok((RestartArm::Armed, write)) => {
            &&& !is_cancelled(current)
            &&& current == expected
            &&& write is Write
            &&& written(current, write) == Some(armed)
        },
        Err(message) => {
            &&& !is_cancelled(current)
            &&& current != expected
            &&& message@ == "restart fence changed before arm; daemon remains running"@
        },
    }
}

/// Decides under the record's lock whether a restart is armed.
///
/// A recorded stop wins. A record that is not the expected one is left alone and reported.
pub fn arm_restart_record(
    current: Option<&RestartRecord>,
    expected: Option<&RestartRecord>,
    armed: &RestartRecord,
) -> (result: Result<(RestartArm, RecordWrite), String>)
    ensures
        is_arm_result(stored_ref(current), stored_ref(expected), armed@, result),
{
    if cancelled(current) {
        return Ok((RestartArm::StopWon, RecordWrite::Keep));
    }
    if !same_optional(current, expected) {
        return Err("restart fence changed before arm; daemon remains running".to_owned());
    }
    Ok((RestartArm::Armed, RecordWrite::Write(armed.clone())))
}

/// What an attempt to take an armed restart back comes to.
pub open spec fn is_rollback_result(
    current: Option<RecordView>,
    armed: RecordView,
    previous: Option<RecordView>,
    result: (RestartArmRollback, RecordWrite),
) -> bool {
    if is_cancelled(current) {
        result.0 == RestartArmRollback::StopWon && result.1 is Keep
    } else if current != Some(armed) {
        result.0 == RestartArmRollback::Replaced && result.1 is Keep
    } else {
        &&& result.0 == RestartArmRollback::Restored
        &&& !(result.1 is Keep)
        &&& written(current, result.1) == previous
    }
}

/// Decides under the record's lock how an armed restart is taken back.
///
/// A recorded stop wins, and a record that somebody else wrote stays.
pub fn rollback_armed_restart(
    current: Option<&RestartRecord>,
    armed: &RestartRecord,
    previous: Option<&RestartRecord>,
) -> (result: (RestartArmRollback, RecordWrite))
    ensures
        is_rollback_result(stored_ref(current), armed@, stored_ref(previous), result),
{
    if cancelled(current) {
        return (RestartArmRollback::StopWon, RecordWrite::Keep);
    }
    if !same_optional(current, Some(armed)) {
        return (RestartArmRollback::Replaced, RecordWrite::Keep);
    }
    match previous {
        Some(previous) => (RestartArmRollback::Restored, RecordWrite::Write(previous.clone())),
        None => (RestartArmRollback::Restored, RecordWrite::Remove),
    }
}

/// A record with another phase.
pub open spec fn in_phase(record: RecordView, phase: RestartPhase) -> RecordView {
    RecordView { phase, ..record }
}

/// What an attempt to cancel an armed restart does.
pub open spec fn is_cancel_write(
    current: Option<RecordView>,
    armed: RecordView,
    write: RecordWrite,
) -> bool {
    if current == Some(armed) && armed.phase != RestartPhase::Cancelled {
        write is Write && written(current, write) == Some(
            in_phase(armed, RestartPhase::Cancelled),
        )
    } else {
        write is Keep
    }
}

/// Decides under the record's lock whether an armed restart is cancelled: only where the record
/// is that very one.
pub fn cancel_matching_armed_restart(current: Option<&RestartRecord>, armed: &RestartRecord) -> (
    write: RecordWrite)
    ensures
        is_cancel_write(stored_ref(current), armed@, write),
{
    match current {
        Some(current) => {
            if current.phase == RestartPhase::Cancelled || !same_record(current, armed) {
                return RecordWrite::Keep;
            }
            let mut cancelled = current.clone();
            cancelled.phase = RestartPhase::Cancelled;
            RecordWrite::Write(cancelled)
        },
        None => RecordWrite::Keep,
    }
}

/// A record is the one of a ticket, and no stop is recorded in it.
pub open spec fn matches_ticket(
    record: RecordView,
    restart_id: Seq<char>,
    predecessor_instance_id: Seq<char>,
    target_generation: Seq<char>,
    protocol_version: u32,
) -> bool {
    &&& record.phase != RestartPhase::Cancelled
    &&& record.restart_id == restart_id
    &&& record.daemon_instance_id == predecessor_instance_id
    &&& record.target_generation == target_generation
    &&& record.protocol_version == protocol_version
}

/// Picks the record of a ticket, unless another one stands there or a stop is recorded.
pub fn restart_record_for_ticket(
    current: Option<RestartRecord>,
    restart_id: &str,
    predecessor_instance_id: &str,
    target_generation: &str,
    protocol_version: u32,
) -> (result: Option<RestartRecord>)
    ensures
        result == if current.is_some() && matches_ticket(
            current.unwrap()@,
            restart_id@,
            predecessor_instance_id@,
            target_generation@,
            protocol_version,
        ) {
            current
        } else {
            None
        },
{
    match current {
        Some(record) => {
            if record.phase != RestartPhase::Cancelled && same(
                record.restart_id.as_str(),
                restart_id,
            ) && same(record.daemon_instance_id.as_str(), predecessor_instance_id) && same(
                record.target_generation.as_str(),
                target_generation,
            ) && record.protocol_version == protocol_version {
                Some(record)
            } else {
                None
            }
        },
        None => None,
    }
}

/// Whether the record of a ticket stands there, without a stop recorded in it.
pub fn restart_intent_matches_ticket(
    current: Option<RestartRecord>,
    restart_id: &str,
    predecessor_instance_id: &str,
    target_generation: &str,
    protocol_version: u32,
) -> (result: bool)
    ensures
        result == (current.is_some() && matches_ticket(
            current.unwrap()@,
            restart_id@,
            predecessor_instance_id@,
            target_generation@,
            protocol_version,
        )),
{
    restart_record_for_ticket(
        current,
        restart_id,
        predecessor_instance_id,
        target_generation,
        protocol_version,
    ).is_some()
}

/// The record of a stop: the one that stands there, cancelled, or one of its own under a name that
/// says so.
pub open spec fn stop_record(
    current: Option<RecordView>,
    stop_id: Seq<char>,
    protocol_version: u32,
) -> RecordView {
    match current {
        Some(record) => in_phase(record, RestartPhase::Cancelled),
        None => RecordView {
            restart_id: "stop-"@ + stop_id,
            daemon_instance_id: Seq::empty(),
            protocol_version,
            target_generation: Seq::empty(),
            phase: RestartPhase::Cancelled,
            supervisor_restart: false,
        },
    }
}

/// Decides under the record's lock what a stop records, with a given name.
pub fn stop_record_named(current: Option<RestartRecord>, stop_id: &str, protocol_version: u32) -> (
    record: RestartRecord)
    ensures
        record@ == stop_record(stored(current), stop_id@, protocol_version),
{
    match current {
        Some(record) => {
            let mut record = record;
            record.phase = RestartPhase::Cancelled;
            record
        },
        None => {
            let record = RestartRecord {
                restart_id: join2("stop-", stop_id),
                daemon_instance_id: String::new(),
                protocol_version,
                target_generation: String::new(),
                phase: RestartPhase::Cancelled,
                supervisor_restart: false,
            };
            assert(record.daemon_instance_id@ =~= Seq::<char>::empty());
            record
        },
    }
}

/// Decides under the record's lock what a stop records.
pub fn cancel_restart_intent_for_stop(current: Option<RestartRecord>, protocol_version: u32) -> (
    record: RestartRecord)
    ensures
        record.phase == RestartPhase::Cancelled,
        current.is_some() ==> record@ == in_phase(current.unwrap()@, RestartPhase::Cancelled),
        current.is_none() ==> exists|stop_id: Seq<char>|
            identity::is_random_uuid(stop_id) && record@ == #[trigger] stop_record(
                None,
                stop_id,
                protocol_version,
            ),
{
    let stop_id = fresh_id();
    stop_record_named(current, stop_id.as_str(), protocol_version)
}

/// Decides under the record's lock whether a recorded stop is cleared; nothing else is.
pub fn clear_cancelled_restart_record(current: Option<&RestartRecord>) -> (result: (
    bool,
    RecordWrite,
))
    ensures
        result.0 == is_cancelled(stored_ref(current)),
        result.0 ==> result.1 is Remove,
        !result.0 ==> result.1 is Keep,
{
    if cancelled(current) {
        (true, RecordWrite::Remove)
    } else {
        (false, RecordWrite::Keep)
    }
}

/// A record is the one that a successor was started for.
pub open spec fn same_restart(record: RecordView, expected: RecordView) -> bool {
    &&& record.restart_id == expected.restart_id
    &&& record.daemon_instance_id == expected.daemon_instance_id
    &&& record.target_generation == expected.target_generation
    &&& record.protocol_version == expected.protocol_version
}

/// What the report of a successor that is ready comes to.
pub open spec fn is_completion_result(
    current: Option<RecordView>,
    expected: RecordView,
    result: (RestartCompletion, RecordWrite),
) -> bool {
    match current {
        Some(record) => if !same_restart(record, expected) {
            result.0 == RestartCompletion::CancelledOrReplaced && result.1 is Keep
        } else {
            match record.phase {
                RestartPhase::Armed => {
                    &&& result.0 == RestartCompletion::Completed
                    &&& result.1 is Write
                    &&& written(current, result.1) == Some(
                        in_phase(record, RestartPhase::Completed),
                    )
                },
                RestartPhase::Completed => result.0 == RestartCompletion::AlreadyCompleted
                    && result.1 is Keep,
                RestartPhase::Cancelled => result.0 == RestartCompletion::CancelledOrReplaced
                    && result.1 is Keep,
            }
        },
        None => result.0 == RestartCompletion::CancelledOrReplaced && result.1 is Keep,
    }
}

/// Decides under the record's lock whether a successor that is ready may take over.
pub fn complete_matching_armed_restart(
    current: Option<&RestartRecord>,
    expected: &RestartRecord,
) -> (result: (RestartCompletion, RecordWrite))
    ensures
        is_completion_result(stored_ref(current), expected@, result),
{
    match current {
        Some(record) => {
            if !same(record.restart_id.as_str(), expected.restart_id.as_str()) || !same(
                record.daemon_instance_id.as_str(),
                expected.daemon_instance_id.as_str(),
            ) || !same(record.target_generation.as_str(), expected.target_generation.as_str())
                || record.protocol_version != expected.protocol_version {
                return (RestartCompletion::CancelledOrReplaced, RecordWrite::Keep);
            }
            match record.phase {
                RestartPhase::Armed => {
                    let mut completed = record.clone();
                    completed.phase = RestartPhase::Completed;
                    (RestartCompletion::Completed, RecordWrite::Write(completed))
                },
                RestartPhase::Completed => (RestartCompletion::AlreadyCompleted, RecordWrite::Keep),
                RestartPhase::Cancelled => (
                    RestartCompletion::CancelledOrReplaced,
                    RecordWrite::Keep,
                ),
            }
        },
        None => (RestartCompletion::CancelledOrReplaced, RecordWrite::Keep),
    }
}

/// Decides under the record's lock whether the record of one restart is removed.
pub fn remove_matching_restart_record(current: Option<&RestartRecord>, restart_id: &str) -> (write:
    RecordWrite)
    ensures
        match stored_ref(current) {
            Some(record) => if record.restart_id == restart_id@ {
                write is Remove
            } else {
                write is Keep
            },
            None => write is Keep,
        },
{
    match current {
        Some(record) => if same(record.restart_id.as_str(), restart_id) {
            RecordWrite::Remove
        } else {
            RecordWrite::Keep
        },
        None => RecordWrite::Keep,
    }
}

/// The file that holds the restart record of a socket.
pub fn restart_intent_path(socket_path: &Vec<u8>) -> (path: Vec<u8>)
    ensures
        path@ == socket_path@ + text::utf8(".cued.restart.json"@),
{
    crate::dirs::with_suffix(socket_path, ".cued.restart.json")
}

/// The file whose lock guards the restart record of a socket.
pub fn restart_record_lock_path(socket_path: &Vec<u8>) -> (path: Vec<u8>)
    ensures
        path@ == socket_path@ + text::utf8(".cued.restart.state.lock"@),
{
    crate::dirs::with_suffix(socket_path, ".cued.restart.state.lock")
}

/// The daemon's own view of its life. The flags are what waiting tasks are woken by.
#[derive(Debug)]
pub struct DaemonLifecycle {
    pub state: LifecycleState,
    pub restart_ownership: RestartOwnership,
    /// The restart that this daemon has accepted.
    pub restart: Option<RestartRecord>,
    /// The restart that this daemon was started for.
    pub startup_restart: Option<RestartRecord>,
    pub execution_ready: bool,
    pub startup_activated: bool,
    pub restart_requested: bool,
    pub stop_requested: bool,
    pub drained: bool,
    pub response_complete: bool,
    /// The client and the request that were told of the restart first.
    pub pending_response: Option<(u64, u32)>,
}

/// A ticket for a restart.
pub open spec fn is_ticket_for(
    ticket: RestartTicket,
    record: RecordView,
    first_request: bool,
) -> bool {
    &&& ticket.restart_id@ == record.restart_id
    &&& ticket.daemon_instance_id@ == record.daemon_instance_id
    &&& ticket.target_generation@ == record.target_generation
    &&& ticket.first_request == first_request
}

fn ticket_for(record: &RestartRecord, first_request: bool) -> (ticket: RestartTicket)
    ensures
        is_ticket_for(ticket, record@, first_request),
{
    RestartTicket {
        restart_id: record.restart_id.clone(),
        daemon_instance_id: record.daemon_instance_id.clone(),
        target_generation: record.target_generation.clone(),
        first_request,
    }
}

/// Why a step of a restart has to stop the helper that waits to take over.
#[derive(Debug)]
pub enum ReapReason {
    /// The record could not be armed.
    ArmFailed(String),
    /// A stop was recorded first.
    StopWon,
    /// The helper did not confirm that it is active.
    ActivationFailed(String),
}

/// What has to be done next for a restart.
#[derive(Debug)]
pub enum RestartStep {
    /// Read the durable record.
    ReadRecord,
    /// Start the helper and wait until it waits.
    SpawnHelper,
    /// Arm the record under its lock.
    ArmRecord,
    /// Tell the helper to go on, and wait until it confirms.
    ActivateHelper,
    /// Stop the helper and wait for its end.
    ReapHelper(ReapReason),
    /// Take the armed record back under its lock.
    RollBackRecord(String),
    /// Cancel the armed record under its lock, with both errors at hand.
    CancelRecord(String, String),
    /// Nothing: the request is answered.
    Done(Result<RestartTicket, String>),
}

/// What came of the step that was asked for.
#[derive(Debug)]
pub enum RestartEvent {
    /// The record was read; whether a stop is recorded in it.
    RecordRead { cancelled: bool },
    /// The helper waits.
    HelperWaiting,
    /// The record was held against the armed one.
    RecordArmed(RestartArm),
    /// The helper is active; the daemon lets go of it.
    HelperActive,
    /// The helper is gone.
    HelperReaped,
    /// The record was taken back.
    RecordRolledBack(RestartArmRollback),
    /// The record was cancelled, if it was the armed one.
    RecordCancelled,
    /// The step failed.
    Failed(String),
}

/// A restart that is being prepared.
#[derive(Debug)]
pub struct RestartAttempt {
    pub client_id: u64,
    pub request_id: u32,
    /// The record that the restart arms.
    pub intent: RestartRecord,
    /// The record that has to stand there before.
    pub expected: Option<RestartRecord>,
    pub step: RestartStep,
}

/// What is said when a stop came first.
pub open spec fn stop_won_message() -> Seq<char> {
    "restart cancelled: an explicit stop already won"@
}

/// What a step is, with the messages that it carries.
pub enum StepView {
    ReadRecord,
    SpawnHelper,
    ArmRecord,
    ActivateHelper,
    ReapAfterArmFailure(Seq<char>),
    ReapAfterStop,
    ReapAfterActivationFailure(Seq<char>),
    RollBackRecord(Seq<char>),
    CancelRecord(Seq<char>, Seq<char>),
    Accepted,
    Refused(Seq<char>),
}

impl View for RestartStep {
    type V = StepView;

    open spec fn view(&self) -> StepView {
        match self {
            RestartStep::ReadRecord => StepView::ReadRecord,
            RestartStep::SpawnHelper => StepView::SpawnHelper,
            RestartStep::ArmRecord => StepView::ArmRecord,
            RestartStep::ActivateHelper => StepView::ActivateHelper,
            RestartStep::ReapHelper(ReapReason::ArmFailed(error)) => {
                StepView::ReapAfterArmFailure(error@)
            },
            RestartStep::ReapHelper(ReapReason::StopWon) => StepView::ReapAfterStop,
            RestartStep::ReapHelper(ReapReason::ActivationFailed(error)) => {
                StepView::ReapAfterActivationFailure(error@)
            },
            RestartStep::RollBackRecord(error) => StepView::RollBackRecord(error@),
            RestartStep::CancelRecord(activation, reap) => StepView::CancelRecord(
                activation@,
                reap@,
            ),
            RestartStep::Done(Ok(_)) => StepView::Accepted,
            RestartStep::Done(Err(error)) => StepView::Refused(error@),
        }
    }
}

/// The event can follow the step.
pub open spec fn answers(step: StepView, event: RestartEvent) -> bool {
    match event {
        RestartEvent::RecordRead { .. } => step is ReadRecord,
        RestartEvent::HelperWaiting => step is SpawnHelper,
        RestartEvent::RecordArmed(_) => step is ArmRecord,
        RestartEvent::HelperActive => step is ActivateHelper,
        RestartEvent::HelperReaped => step is ReapAfterArmFailure || step is ReapAfterStop
            || step is ReapAfterActivationFailure,
        RestartEvent::RecordRolledBack(_) => step is RollBackRecord,
        RestartEvent::RecordCancelled => step is CancelRecord,
        RestartEvent::Failed(_) => !(step is Accepted || step is Refused),
    }
}

/// The step that follows.
///
/// A recorded stop ends the restart, before a helper is started and again when the record is to
/// be armed. A helper that did not confirm is stopped before the record is taken back; where it
/// cannot be stopped, the record is cancelled instead.
pub open spec fn next_step(step: StepView, event: RestartEvent) -> StepView {
    match (step, event) {
        (StepView::ReadRecord, RestartEvent::RecordRead { cancelled }) => if cancelled {
            StepView::Refused(stop_won_message())
        } else {
            StepView::SpawnHelper
        },
        (StepView::ReadRecord, RestartEvent::Failed(error)) => StepView::Refused(error@),
        (StepView::SpawnHelper, RestartEvent::HelperWaiting) => StepView::ArmRecord,
        (StepView::SpawnHelper, RestartEvent::Failed(error)) => StepView::Refused(error@),
        (StepView::ArmRecord, RestartEvent::RecordArmed(RestartArm::Armed)) => {
            StepView::ActivateHelper
        },
        (StepView::ArmRecord, RestartEvent::RecordArmed(RestartArm::StopWon)) => {
            StepView::ReapAfterStop
        },
        (StepView::ArmRecord, RestartEvent::Failed(error)) => {
            StepView::ReapAfterArmFailure(error@)
        },
        (StepView::ReapAfterArmFailure(arm_error), RestartEvent::HelperReaped) => {
            StepView::Refused(arm_error)
        },
        (StepView::ReapAfterArmFailure(arm_error), RestartEvent::Failed(reap_error)) => {
            StepView::Refused(
                arm_error + "; successor helper could not be reaped after arm failure: "@
                    + reap_error@,
            )
        },
        (StepView::ReapAfterStop, RestartEvent::HelperReaped) => {
            StepView::Refused(stop_won_message())
        },
        (StepView::ReapAfterStop, RestartEvent::Failed(reap_error)) => StepView::Refused(
            stop_won_message() + "; successor helper could not be reaped: "@ + reap_error@,
        ),
        (StepView::ActivateHelper, RestartEvent::HelperActive) => StepView::Accepted,
        (StepView::ActivateHelper, RestartEvent::Failed(error)) => {
            StepView::ReapAfterActivationFailure(error@)
        },
        (StepView::ReapAfterActivationFailure(activation_error), RestartEvent::HelperReaped) => {
            StepView::RollBackRecord(activation_error)
        },
        (
            StepView::ReapAfterActivationFailure(activation_error),
            RestartEvent::Failed(reap_error),
        ) => StepView::CancelRecord(activation_error, reap_error@),
        (
            StepView::RollBackRecord(activation_error),
            RestartEvent::RecordRolledBack(RestartArmRollback::Restored),
        ) => StepView::Refused(
            "successor handoff failed; the Armed restart fence was rolled back"@ + ": "@
                + activation_error,
        ),
        (
            StepView::RollBackRecord(activation_error),
            RestartEvent::RecordRolledBack(RestartArmRollback::StopWon),
        ) => StepView::Refused(
            "successor handoff failed after an explicit stop won; cancellation was preserved"@
                + ": "@ + activation_error,
        ),
        (
            StepView::RollBackRecord(activation_error),
            RestartEvent::RecordRolledBack(RestartArmRollback::Replaced),
        ) => StepView::Refused(
            "successor handoff failed and the restart fence was concurrently replaced; no rollback was attempted"@
                + ": "@ + activation_error,
        ),
        (StepView::RollBackRecord(_), RestartEvent::Failed(error)) => StepView::Refused(error@),
        (
            StepView::CancelRecord(activation_error, reap_error),
            RestartEvent::RecordCancelled,
        ) => StepView::Refused(
            "successor handoff failed after restart arm: "@ + activation_error
                + "; helper could not be reaped, so its ticket was cancelled and the daemon is fail-stopping: "@
                + reap_error,
        ),
        (
            StepView::CancelRecord(activation_error, reap_error),
            RestartEvent::Failed(cancel_error),
        ) => StepView::Refused(
            "successor handoff failed after restart arm: "@ + activation_error
                + "; helper could not be reaped and its ticket could not be cancelled, so the daemon is fail-stopping with admission closed: "@
                + reap_error + "; cancellation error: "@ + cancel_error@,
        ),
        _ => step,
    }
}

/// What a request for a restart comes to before anything outside is touched.
#[derive(Debug)]
pub enum RestartRequest {
    /// The request is refused.
    Refused(String),
    /// A restart is under way, and this is its ticket.
    Known(RestartTicket),
    /// A restart is to be prepared.
    Prepare(RestartAttempt),
}

impl DaemonLifecycle {
    /// The life of a daemon from its start. One that was started for a restart is not ready before
    /// the restart is completed.
    pub fn new_with_startup(
        restart_ownership: RestartOwnership,
        startup_restart: Option<RestartRecord>,
    ) -> (lifecycle: Self)
        ensures
            lifecycle.state == if startup_restart.is_some() {
                LifecycleState::Starting
            } else {
                LifecycleState::Running
            },
            lifecycle.restart_ownership == restart_ownership,
            lifecycle.restart.is_none(),
            lifecycle.startup_restart == startup_restart,
            lifecycle.execution_ready == startup_restart.is_none(),
            !lifecycle.startup_activated,
            !lifecycle.restart_requested,
            !lifecycle.stop_requested,
            !lifecycle.drained,
            !lifecycle.response_complete,
            lifecycle.pending_response.is_none(),
    {
        let initially_ready = startup_restart.is_none();
        DaemonLifecycle {
            state: if initially_ready {
                LifecycleState::Running
            } else {
                LifecycleState::Starting
            },
            restart_ownership,
            restart: None,
            startup_restart,
            execution_ready: initially_ready,
            startup_activated: false,
            restart_requested: false,
            stop_requested: false,
            drained: false,
            response_complete: false,
            pending_response: None,
        }
    }

    /// New work is not accepted.
    pub open spec fn admission_closed(&self) -> bool {
        self.state != LifecycleState::Running || !self.execution_ready
    }

    pub fn is_starting(&self) -> (result: bool)
        ensures
            result == (self.state == LifecycleState::Starting),
    {
        self.state == LifecycleState::Starting
    }

    pub fn is_draining(&self) -> (result: bool)
        ensures
            result == (self.state == LifecycleState::Draining),
    {
        self.state == LifecycleState::Draining
    }

    pub fn execution_admission_closed(&self) -> (result: bool)
        ensures
            result == self.admission_closed(),
    {
        self.state != LifecycleState::Running || !self.execution_ready
    }

    pub fn is_execution_ready(&self) -> (result: bool)
        ensures
            result == self.execution_ready,
    {
        self.execution_ready
    }

    /// Why a request for a restart is refused.
    pub open spec fn restart_refusal(&self) -> Option<Seq<char>> {
        if self.restart_ownership == RestartOwnership::Unknown {
            Some(
                "cannot safely restart: service-manager ownership is unknown; daemon remains running"@,
            )
        } else if self.restart.is_none() && self.admission_closed() {
            Some("cannot restart while a successor is still completing startup"@)
        } else {
            None
        }
    }

    /// What a request for a restart comes to, with given names for the restart and its target.
    ///
    /// A daemon whose owner is not known refuses. A restart that is under way answers with its own
    /// ticket, and nothing else happens. One that has not completed its own start refuses.
    pub fn request_restart_named(
        &self,
        client_id: u64,
        request_id: u32,
        restart_id: String,
        daemon_instance_id: String,
        target_generation: String,
        protocol_version: u32,
    ) -> (request: RestartRequest)
        ensures
            match request {
                RestartRequest::Refused(message) => self.restart_refusal() == Some(message@),
                RestartRequest::Known(ticket) => self.restart_ownership
                    != RestartOwnership::Unknown && self.restart.is_some() && is_ticket_for(
                    ticket,
                    self.restart.unwrap()@,
                    false,
                ),
                RestartRequest::Prepare(attempt) => {
                    &&& self.restart_ownership != RestartOwnership::Unknown
                    &&& self.restart.is_none()
                    &&& !self.admission_closed()
                    &&& attempt.client_id == client_id
                    &&& attempt.request_id == request_id
                    &&& attempt.intent@ == (RecordView {
                        restart_id: restart_id@,
                        daemon_instance_id: daemon_instance_id@,
                        protocol_version,
                        target_generation: target_generation@,
                        phase: RestartPhase::Armed,
                        supervisor_restart: self.restart_ownership == RestartOwnership::Supervisor,
                    })
                    &&& stored(attempt.expected) == stored(self.startup_restart)
                    &&& attempt.step@ == StepView::ReadRecord
                },
            },
    {
        if self.restart_ownership == RestartOwnership::Unknown {
            return RestartRequest::Refused(
                "cannot safely restart: service-manager ownership is unknown; daemon remains running".to_owned(),
            );
        }
        if let Some(intent) = &self.restart {
            return RestartRequest::Known(ticket_for(intent, false));
        }
        if self.execution_admission_closed() {
            return RestartRequest::Refused(
                "cannot restart while a successor is still completing startup".to_owned(),
            );
        }
        let intent = RestartRecord {
            restart_id,
            daemon_instance_id,
            protocol_version,
            target_generation,
            phase: RestartPhase::Armed,
            supervisor_restart: self.restart_ownership == RestartOwnership::Supervisor,
        };
        let expected = match &self.startup_restart {
            Some(record) => Some(record.clone()),
            None => None,
        };
        RestartRequest::Prepare(
            RestartAttempt {
                client_id,
                request_id,
                intent,
                expected,
                step: RestartStep::ReadRecord,
            },
        )
    }

    /// What a request for a restart comes to, under fresh names.
    pub fn request_restart(
        &self,
        client_id: u64,
        request_id: u32,
        daemon_instance_id: &str,
        protocol_version: u32,
    ) -> (request: RestartRequest)
        ensures
            request is Refused <==> self.restart_ownership == RestartOwnership::Unknown
                || self.restart.is_none() && self.admission_closed(),
            request is Known <==> self.restart_ownership != RestartOwnership::Unknown
                && self.restart.is_some(),
            match request {
                RestartRequest::Refused(message) => self.restart_refusal() == Some(message@),
                RestartRequest::Known(ticket) => is_ticket_for(
                    ticket,
                    self.restart.unwrap()@,
                    false,
                ),
                RestartRequest::Prepare(attempt) => {
                    &&& attempt.client_id == client_id
                    &&& attempt.request_id == request_id
                    &&& identity::is_random_uuid(attempt.intent.restart_id@)
                    &&& identity::is_random_uuid(attempt.intent.target_generation@)
                    &&& attempt.intent.daemon_instance_id@ == daemon_instance_id@
                    &&& attempt.intent.protocol_version == protocol_version
                    &&& attempt.intent.phase == RestartPhase::Armed
                    &&& attempt.intent.supervisor_restart == (self.restart_ownership
                        == RestartOwnership::Supervisor)
                    &&& stored(attempt.expected) == stored(self.startup_restart)
                    &&& attempt.step@ == StepView::ReadRecord
                },
            },
    {
        let restart_id = fresh_id();
        let target_generation = fresh_id();
        self.request_restart_named(
            client_id,
            request_id,
            restart_id,
            daemon_instance_id.to_owned(),
            target_generation,
            protocol_version,
        )
    }

    /// The life after a step of a restart.
    ///
    /// Once the helper is active the daemon drains, and waits for its answer to be written. Where
    /// the helper could not be stopped, admission is closed at once, and the daemon stops as soon
    /// as the record was cancelled or could not be.
    pub open spec fn after_step(
        self,
        attempt: RestartAttempt,
        event: RestartEvent,
        after: Self,
    ) -> bool {
        &&& after.restart_ownership == self.restart_ownership
        &&& stored(after.startup_restart) == stored(self.startup_restart)
        &&& after.startup_activated == self.startup_activated
        &&& match (attempt.step@, event) {
            (StepView::ActivateHelper, RestartEvent::HelperActive) => {
                &&& after.state == LifecycleState::Draining
                &&& after.execution_ready == self.execution_ready
                &&& stored(after.restart) == Some(attempt.intent@)
                &&& after.restart_requested
                &&& after.stop_requested == self.stop_requested
                &&& !after.drained
                &&& !after.response_complete
                &&& after.pending_response == Some((attempt.client_id, attempt.request_id))
            },
            (StepView::ReapAfterActivationFailure(_), RestartEvent::Failed(_)) => {
                &&& after.state == LifecycleState::Draining
                &&& !after.execution_ready
                &&& stored(after.restart) == stored(self.restart)
                &&& after.restart_requested == self.restart_requested
                &&& after.stop_requested == self.stop_requested
                &&& after.drained == self.drained
                &&& after.response_complete == self.response_complete
                &&& after.pending_response == self.pending_response
            },
            (StepView::CancelRecord(_, _), _) => {
                &&& after.state == self.state
                &&& after.execution_ready == self.execution_ready
                &&& stored(after.restart) == stored(self.restart)
                &&& after.restart_requested == self.restart_requested
                &&& after.stop_requested
                &&& after.drained == self.drained
                &&& after.response_complete == self.response_complete
                &&& after.pending_response == self.pending_response
            },
            _ => after == self,
        }
    }

    /// Takes a restart one step further.
    pub fn advance_restart(&mut self, attempt: RestartAttempt, event: RestartEvent) -> (next:
        RestartAttempt)
        requires
            answers(attempt.step@, event),
        ensures
            next.client_id == attempt.client_id,
            next.request_id == attempt.request_id,
            next.intent == attempt.intent,
            next.expected == attempt.expected,
            next.step@ == next_step(attempt.step@, event),
            match next.step {
                RestartStep::Done(Ok(ticket)) => is_ticket_for(ticket, attempt.intent@, true),
                _ => true,
            },
            old(self).after_step(attempt, event, *final(self)),
    {
        let RestartAttempt { client_id, request_id, intent, expected, step } = attempt;
        let next = match (step, event) {
            (RestartStep::ReadRecord, RestartEvent::RecordRead { cancelled }) => if cancelled {
                RestartStep::Done(
                    Err("restart cancelled: an explicit stop already won".to_owned()),
                )
            } else {
                RestartStep::SpawnHelper
            },
            (RestartStep::ReadRecord, RestartEvent::Failed(error)) => RestartStep::Done(Err(error)),
            (RestartStep::SpawnHelper, RestartEvent::HelperWaiting) => RestartStep::ArmRecord,
            (RestartStep::SpawnHelper, RestartEvent::Failed(error)) => RestartStep::Done(
                Err(error),
            ),
            (RestartStep::ArmRecord, RestartEvent::RecordArmed(RestartArm::Armed)) => {
                RestartStep::ActivateHelper
            },
            (RestartStep::ArmRecord, RestartEvent::RecordArmed(RestartArm::StopWon)) => {
                RestartStep::ReapHelper(ReapReason::StopWon)
            },
            (RestartStep::ArmRecord, RestartEvent::Failed(error)) => {
                RestartStep::ReapHelper(ReapReason::ArmFailed(error))
            },
            (
                RestartStep::ReapHelper(ReapReason::ArmFailed(arm_error)),
                RestartEvent::HelperReaped,
            ) => RestartStep::Done(Err(arm_error)),
            (
                RestartStep::ReapHelper(ReapReason::ArmFailed(arm_error)),
                RestartEvent::Failed(reap_error),
            ) => RestartStep::Done(
                Err(
                    join3(
                        arm_error.as_str(),
                        "; successor helper could not be reaped after arm failure: ",
                        reap_error.as_str(),
                    ),
                ),
            ),
            (RestartStep::ReapHelper(ReapReason::StopWon), RestartEvent::HelperReaped) => {
                RestartStep::Done(
                    Err("restart cancelled: an explicit stop already won".to_owned()),
                )
            },
            (
                RestartStep::ReapHelper(ReapReason::StopWon),
                RestartEvent::Failed(reap_error),
            ) => RestartStep::Done(
                Err(
                    join3(
                        "restart cancelled: an explicit stop already won",
                        "; successor helper could not be reaped: ",
                        reap_error.as_str(),
                    ),
                ),
            ),
            (RestartStep::ActivateHelper, RestartEvent::HelperActive) => {
                self.state = LifecycleState::Draining;
                self.drained = false;
                self.response_complete = false;
                self.pending_response = Some((client_id, request_id));
                self.restart = Some(intent.clone());
                self.restart_requested = true;
                RestartStep::Done(Ok(ticket_for(&intent, true)))
            },
            (RestartStep::ActivateHelper, RestartEvent::Failed(error)) => {
                RestartStep::ReapHelper(ReapReason::ActivationFailed(error))
            },
            (
                RestartStep::ReapHelper(ReapReason::ActivationFailed(activation_error)),
                RestartEvent::HelperReaped,
            ) => RestartStep::RollBackRecord(activation_error),
            (
                RestartStep::ReapHelper(ReapReason::ActivationFailed(activation_error)),
                RestartEvent::Failed(reap_error),
            ) => {
                self.state = LifecycleState::Draining;
                self.execution_ready = false;
                RestartStep::CancelRecord(activation_error, reap_error)
            },
            (
                RestartStep::RollBackRecord(activation_error),
                RestartEvent::RecordRolledBack(RestartArmRollback::Restored),
            ) => RestartStep::Done(
                Err(
                    join3(
                        "successor handoff failed; the Armed restart fence was rolled back",
                        ": ",
                        activation_error.as_str(),
                    ),
                ),
            ),
            (
                RestartStep::RollBackRecord(activation_error),
                RestartEvent::RecordRolledBack(RestartArmRollback::StopWon),
            ) => RestartStep::Done(
                Err(
                    join3(
                        "successor handoff failed after an explicit stop won; cancellation was preserved",
                        ": ",
                        activation_error.as_str(),
                    ),
                ),
            ),
            (
                RestartStep::RollBackRecord(activation_error),
                RestartEvent::RecordRolledBack(RestartArmRollback::Replaced),
            ) => RestartStep::Done(
                Err(
                    join3(
                        "successor handoff failed and the restart fence was concurrently replaced; no rollback was attempted",
                        ": ",
                        activation_error.as_str(),
                    ),
                ),
            ),
            (RestartStep::RollBackRecord(_), RestartEvent::Failed(error)) => RestartStep::Done(
                Err(error),
            ),
            (
                RestartStep::CancelRecord(activation_error, reap_error),
                RestartEvent::RecordCancelled,
            ) => {
                self.stop_requested = true;
                let mut message = join3(
                    "successor handoff failed after restart arm: ",
                    activation_error.as_str(),
                    "; helper could not be reaped, so its ticket was cancelled and the daemon is fail-stopping: ",
                );
                message.append(reap_error.as_str());
                RestartStep::Done(Err(message))
            },
            (
                RestartStep::CancelRecord(activation_error, reap_error),
                RestartEvent::Failed(cancel_error),
            ) => {
                self.stop_requested = true;
                let mut message = join5(
                    "successor handoff failed after restart arm: ",
                    activation_error.as_str(),
                    "; helper could not be reaped and its ticket could not be cancelled, so the daemon is fail-stopping with admission closed: ",
                    reap_error.as_str(),
                    "; cancellation error: ",
                );
                message.append(cancel_error.as_str());
                RestartStep::Done(Err(message))
            },
            (step, _) => {
                assert(false);
                step
            },
        };
        RestartAttempt { client_id, request_id, intent, expected, step: next }
    }
}

/// How a shutdown makes its cancellation durable.
#[derive(Debug)]
pub enum ShutdownFence {
    /// Write this record over whatever stands there.
    WriteRecord(RestartRecord),
    /// Cancel whatever stands there, under the record's lock.
    CancelStored,
}

impl DaemonLifecycle {
    /// Starts a shutdown: the restart that was accepted, or else the one that the daemon was
    /// started for, is cancelled, and its record is to be written.
    pub fn cancel_restart_fence(&mut self) -> (fence: ShutdownFence)
        ensures
            match (old(self).restart, old(self).startup_restart) {
                (Some(record), startup) => {
                    &&& stored(final(self).restart) == Some(
                        in_phase(record@, RestartPhase::Cancelled),
                    )
                    &&& final(self).startup_restart == startup
                    &&& fence matches ShutdownFence::WriteRecord(written) && written@ == in_phase(
                        record@,
                        RestartPhase::Cancelled,
                    )
                },
                (None, Some(record)) => {
                    &&& final(self).restart.is_none()
                    &&& stored(final(self).startup_restart) == Some(
                        in_phase(record@, RestartPhase::Cancelled),
                    )
                    &&& fence matches ShutdownFence::WriteRecord(written) && written@ == in_phase(
                        record@,
                        RestartPhase::Cancelled,
                    )
                },
                (None, None) => {
                    &&& final(self).restart.is_none()
                    &&& final(self).startup_restart.is_none()
                    &&& fence is CancelStored
                },
            },
            final(self).state == old(self).state,
            final(self).restart_ownership == old(self).restart_ownership,
            final(self).execution_ready == old(self).execution_ready,
            final(self).startup_activated == old(self).startup_activated,
            final(self).restart_requested == old(self).restart_requested,
            final(self).stop_requested == old(self).stop_requested,
            final(self).drained == old(self).drained,
            final(self).response_complete == old(self).response_complete,
            final(self).pending_response == old(self).pending_response,
    {
        match self.restart.take() {
            Some(record) => {
                let mut record = record;
                record.phase = RestartPhase::Cancelled;
                let written = record.clone();
                self.restart = Some(record);
                ShutdownFence::WriteRecord(written)
            },
            None => match self.startup_restart.take() {
                Some(record) => {
                    let mut record = record;
                    record.phase = RestartPhase::Cancelled;
                    let written = record.clone();
                    self.startup_restart = Some(record);
                    ShutdownFence::WriteRecord(written)
                },
                None => ShutdownFence::CancelStored,
            },
        }
    }

    /// Goes on with a shutdown once its cancellation is durable: no restart is under way any more,
    /// and admission stays closed until the end.
    pub fn cancel_restart_for_shutdown(&mut self)
        ensures
            *final(self) == (DaemonLifecycle {
                state: LifecycleState::Draining,
                restart_requested: false,
                ..*old(self)
            }),
            final(self).admission_closed(),
    {
        self.restart_requested = false;
        self.state = LifecycleState::Draining;
    }

    /// Goes on with a shutdown, and asks the daemon to stop by itself.
    pub fn fail_stop_restart(&mut self)
        ensures
            *final(self) == (DaemonLifecycle {
                state: LifecycleState::Draining,
                restart_requested: false,
                stop_requested: true,
                ..*old(self)
            }),
            final(self).admission_closed(),
    {
        self.cancel_restart_for_shutdown();
        self.stop_requested = true;
    }

    /// The life once all accepted work is finished.
    pub open spec fn after_drain(self) -> Self {
        if self.state == LifecycleState::Draining {
            DaemonLifecycle { drained: true, ..self }
        } else {
            self
        }
    }

    /// The life once the answer to a restart request was written, or failed to be.
    pub open spec fn after_answer(self, client_id: u64, request_id: u32) -> Self {
        if self.state == LifecycleState::Draining && self.pending_response == Some(
            (client_id, request_id),
        ) {
            DaemonLifecycle { pending_response: None, response_complete: true, ..self }
        } else {
            self
        }
    }

    /// The life once a client is gone.
    pub open spec fn after_disconnect(self, client_id: u64) -> Self {
        match self.pending_response {
            Some((client, request_id)) => if client == client_id {
                self.after_answer(client_id, request_id)
            } else {
                self
            },
            None => self,
        }
    }

    /// All work is finished and the answer is out.
    pub open spec fn may_hand_over(self) -> bool {
        self.drained && self.response_complete
    }

    /// All accepted work is finished.
    pub fn mark_drained(&mut self)
        ensures
            *final(self) == old(self).after_drain(),
    {
        if self.is_draining() {
            self.drained = true;
        }
    }

    /// The answer to a restart request was written, or failed to be.
    pub fn mark_restart_response_complete(&mut self, client_id: u64, request_id: u32)
        ensures
            *final(self) == old(self).after_answer(client_id, request_id),
    {
        let is_pending = match self.pending_response {
            Some((client, request)) => client == client_id && request == request_id,
            None => false,
        };
        if self.is_draining() && is_pending {
            self.pending_response = None;
            self.response_complete = true;
        }
    }

    /// A client is gone: if the restart was to be answered to it, the answer is out of reach.
    pub fn resolve_restart_response_disconnect(&mut self, client_id: u64)
        ensures
            *final(self) == old(self).after_disconnect(client_id),
    {
        if let Some((pending_client, request_id)) = self.pending_response {
            if pending_client == client_id {
                self.mark_restart_response_complete(client_id, request_id);
            }
        }
    }

    /// Whether a supervisor is to start the daemon again.
    pub fn supervisor_restart_requested(&self) -> (result: bool)
        ensures
            result == match self.restart {
                Some(record) => record.phase == RestartPhase::Armed && record.supervisor_restart,
                None => false,
            },
    {
        match &self.restart {
            Some(record) => record.phase == RestartPhase::Armed && record.supervisor_restart,
            None => false,
        }
    }

    /// The restart that this daemon was started for is completed in the durable record.
    pub fn mark_startup_restart_completed(&mut self)
        ensures
            stored(final(self).startup_restart) == match stored(old(self).startup_restart) {
                Some(record) => Some(in_phase(record, RestartPhase::Completed)),
                None => None,
            },
            *final(self) == (DaemonLifecycle {
                state: LifecycleState::Running,
                startup_activated: true,
                startup_restart: final(self).startup_restart,
                ..*old(self)
            }),
    {
        if let Some(record) = self.startup_restart.take() {
            let mut record = record;
            record.phase = RestartPhase::Completed;
            self.startup_restart = Some(record);
        }
        self.state = LifecycleState::Running;
        self.startup_activated = true;
    }

    /// The scheduler accepts work.
    pub fn mark_startup_execution_ready(&mut self)
        ensures
            *final(self) == if old(self).state == LifecycleState::Running {
                DaemonLifecycle { execution_ready: true, ..*old(self) }
            } else {
                *old(self)
            },
    {
        if self.state == LifecycleState::Running {
            self.execution_ready = true;
        }
    }

    /// Whether the daemon may hand over: all work is finished and the answer is out.
    pub fn handoff_ready(&self) -> (result: bool)
        ensures
            result == self.may_hand_over(),
    {
        self.drained && self.response_complete
    }
}

/// A recorded stop outlives every attempt to arm a restart, to take one back, to cancel one and to
/// complete one: only an explicit start clears it.
pub proof fn recorded_stop_outlives_restarts(
    current: RecordView,
    expected: Option<RecordView>,
    armed: RecordView,
    arm: Result<(RestartArm, RecordWrite), String>,
    rollback: (RestartArmRollback, RecordWrite),
    cancel: RecordWrite,
    completion: (RestartCompletion, RecordWrite),
    stop_id: Seq<char>,
    protocol_version: u32,
)
    requires
        current.phase == RestartPhase::Cancelled,
        is_arm_result(Some(current), expected, armed, arm),
        is_rollback_result(Some(current), armed, expected, rollback),
        is_cancel_write(Some(current), armed, cancel),
        is_completion_result(Some(current), armed, completion),
    ensures
        arm matches Ok((RestartArm::StopWon, write)) && written(Some(current), write) == Some(
            current,
        ),
        rollback.0 == RestartArmRollback::StopWon,
        written(Some(current), rollback.1) == Some(current),
        written(Some(current), cancel) == Some(current),
        completion.0 == RestartCompletion::CancelledOrReplaced,
        written(Some(current), completion.1) == Some(current),
        stop_record(Some(current), stop_id, protocol_version) == current,
{
}

/// The record of a stop belongs to no ticket, so that no helper takes over on its strength.
pub proof fn stop_record_matches_no_ticket(
    current: Option<RecordView>,
    stop_id: Seq<char>,
    stop_protocol: u32,
    restart_id: Seq<char>,
    predecessor_instance_id: Seq<char>,
    target_generation: Seq<char>,
    protocol_version: u32,
)
    ensures
        !matches_ticket(
            stop_record(current, stop_id, stop_protocol),
            restart_id,
            predecessor_instance_id,
            target_generation,
            protocol_version,
        ),
{
}

/// Arming a restart and taking it back leaves the record as it was, unless somebody else wrote it
/// in between.
pub proof fn rollback_undoes_arming(
    before: Option<RecordView>,
    armed: RecordView,
    arm: RecordWrite,
    rollback: (RestartArmRollback, RecordWrite),
)
    requires
        armed.phase == RestartPhase::Armed,
        is_arm_result(before, before, armed, Ok((RestartArm::Armed, arm))),
        is_rollback_result(written(before, arm), armed, before, rollback),
    ensures
        rollback.0 == RestartArmRollback::Restored,
        written(written(before, arm), rollback.1) == before,
{
}

/// A successor completes a restart once; later reports change nothing.
pub proof fn completion_is_idempotent(
    current: RecordView,
    expected: RecordView,
    first: (RestartCompletion, RecordWrite),
    second: (RestartCompletion, RecordWrite),
)
    requires
        is_completion_result(Some(current), expected, first),
        first.0 == RestartCompletion::Completed,
        is_completion_result(written(Some(current), first.1), expected, second),
    ensures
        second.0 == RestartCompletion::AlreadyCompleted,
        written(written(Some(current), first.1), second.1) == Some(
            in_phase(current, RestartPhase::Completed),
        ),
{
}

/// The record is armed by one step alone, and from there every way that does not end in an active
/// helper first stops the helper: before the record is taken back, and before it is cancelled.
pub proof fn helper_is_reaped_before_rollback(step: StepView, event: RestartEvent)
    requires
        answers(step, event),
    ensures
        next_step(step, event) is RollBackRecord ==> step is ReapAfterActivationFailure
            && event is HelperReaped,
        next_step(step, event) is CancelRecord ==> step is ReapAfterActivationFailure
            && event is Failed,
        next_step(step, event) is Accepted ==> step is ActivateHelper && event is HelperActive,
        next_step(step, event) is ActivateHelper ==> step is ArmRecord,
        step is ArmRecord && event is RecordArmed && event->RecordArmed_0 == RestartArm::StopWon
            ==> next_step(step, event) is ReapAfterStop,
{
}

/// How many steps a restart may still take.
pub open spec fn steps_left(step: StepView) -> nat {
    match step {
        StepView::ReadRecord => 6,
        StepView::SpawnHelper => 5,
        StepView::ArmRecord => 4,
        StepView::ActivateHelper => 3,
        StepView::ReapAfterArmFailure(_) => 1,
        StepView::ReapAfterStop => 1,
        StepView::ReapAfterActivationFailure(_) => 2,
        StepView::RollBackRecord(_) => 1,
        StepView::CancelRecord(_, _) => 1,
        StepView::Accepted => 0,
        StepView::Refused(_) => 0,
    }
}

/// A restart request is answered after at most six steps.
pub proof fn restart_attempt_ends(step: StepView, event: RestartEvent)
    requires
        answers(step, event),
    ensures
        steps_left(next_step(step, event)) < steps_left(step),
        steps_left(step) == 0 <==> step is Accepted || step is Refused,
{
}

/// While a restart is refused step by step, the daemon stays as it was, unless a helper is loose: then
/// admission is closed.
pub proof fn refused_restart_keeps_daemon_running(
    before: DaemonLifecycle,
    attempt: RestartAttempt,
    event: RestartEvent,
    after: DaemonLifecycle,
)
    requires
        answers(attempt.step@, event),
        before.after_step(attempt, event, after),
    ensures
        !(next_step(attempt.step@, event) is Accepted) && !(next_step(
            attempt.step@,
            event,
        ) is CancelRecord) && !(attempt.step@ is CancelRecord) ==> after == before,
        next_step(attempt.step@, event) is CancelRecord ==> after.admission_closed(),
        next_step(attempt.step@, event) is Accepted ==> after.admission_closed(),
{
}

/// A daemon that has accepted a restart hands over once both the work is finished and the answer
/// is out, in either order, and not before: neither the end of the work alone, nor the answer
/// alone, nor an answer to another request or the loss of another client is enough. The loss of
/// the client that asked counts as an answer.
pub proof fn handoff_waits_for_drain_and_answer(
    before: DaemonLifecycle,
    attempt: RestartAttempt,
    event: RestartEvent,
    after: DaemonLifecycle,
    client_id: u64,
    request_id: u32,
)
    requires
        answers(attempt.step@, event),
        before.after_step(attempt, event, after),
        next_step(attempt.step@, event) is Accepted,
    ensures
        !after.may_hand_over(),
        !after.after_drain().may_hand_over(),
        !after.after_answer(client_id, request_id).may_hand_over(),
        !after.after_disconnect(client_id).may_hand_over(),
        after.after_drain().after_answer(client_id, request_id).may_hand_over() <==> client_id
            == attempt.client_id && request_id == attempt.request_id,
        after.after_drain().after_disconnect(client_id).may_hand_over() <==> client_id
            == attempt.client_id,
        after.after_answer(client_id, request_id).after_drain().may_hand_over() <==> client_id
            == attempt.client_id && request_id == attempt.request_id,
        after.after_disconnect(client_id).after_drain().may_hand_over() <==> client_id
            == attempt.client_id,
{
}

/// A daemon that was started for no restart takes work at once; one that was started for a restart
/// takes none before the restart is completed. Nothing has been asked of either.
pub proof fn successor_starts_without_work(
    restart_ownership: RestartOwnership,
    startup_restart: Option<RestartRecord>,
    lifecycle: DaemonLifecycle,
    closed: bool,
)
    requires
        call_ensures(
            DaemonLifecycle::new_with_startup,
            (restart_ownership, startup_restart),
            lifecycle,
        ),
        call_ensures(DaemonLifecycle::execution_admission_closed, (&lifecycle,), closed),
    ensures
        closed <==> startup_restart is Some,
        lifecycle.state == LifecycleState::Starting <==> startup_restart is Some,
        lifecycle.startup_restart == startup_restart,
        lifecycle.restart_ownership == restart_ownership,
        lifecycle.restart is None,
        !lifecycle.stop_requested,
        !lifecycle.restart_requested,
        !lifecycle.may_hand_over(),
{
}

/// Work is taken exactly while the daemon runs and its scheduler is ready.
pub proof fn work_is_taken_while_running_and_ready(
    lifecycle: &DaemonLifecycle,
    closed: bool,
    starting: bool,
    draining: bool,
    ready: bool,
)
    requires
        call_ensures(DaemonLifecycle::execution_admission_closed, (lifecycle,), closed),
        call_ensures(DaemonLifecycle::is_starting, (lifecycle,), starting),
        call_ensures(DaemonLifecycle::is_draining, (lifecycle,), draining),
        call_ensures(DaemonLifecycle::is_execution_ready, (lifecycle,), ready),
    ensures
        closed <==> starting || draining || !ready,
        !(starting && draining),
        !starting && !draining <==> lifecycle.state == LifecycleState::Running,
{
}

/// A successor takes work once its restart is completed and its scheduler is ready, in that order; a
/// scheduler that is ready before does not open the daemon.
pub proof fn completion_comes_before_work(first: &mut DaemonLifecycle, second: &mut DaemonLifecycle)
    requires
        call_ensures(DaemonLifecycle::mark_startup_restart_completed, (first,), ()),
        *old(second) == *final(first),
        call_ensures(DaemonLifecycle::mark_startup_execution_ready, (second,), ()),
    ensures
        final(first).state == LifecycleState::Running,
        final(first).startup_activated,
        final(first).execution_ready == old(first).execution_ready,
        old(first).startup_restart is Some ==> (final(first).startup_restart matches Some(record)
            && record.phase == RestartPhase::Completed && record.restart_id@ == old(first).startup_restart->0.restart_id@),
        final(second).execution_ready,
        !final(second).admission_closed(),
{
}

/// A scheduler that reports itself ready while the daemon starts or drains changes nothing.
pub proof fn scheduler_does_not_open_a_closed_daemon(lifecycle: &mut DaemonLifecycle)
    requires
        call_ensures(DaemonLifecycle::mark_startup_execution_ready, (lifecycle,), ()),
    ensures
        old(lifecycle).state != LifecycleState::Running ==> *final(lifecycle) == *old(lifecycle),
        old(lifecycle).state == LifecycleState::Running ==> final(lifecycle).execution_ready,
        final(lifecycle).state == old(lifecycle).state,
{
}

/// What a request for a restart comes to depends on three things: who starts the daemon again, whether
/// a restart is under way, and whether the daemon takes work. A restart is prepared only where that
/// is known, none is, and it does; it is then for the supervisor exactly where that starts the daemon
/// again.
pub proof fn restart_is_prepared_once(
    lifecycle: &DaemonLifecycle,
    client_id: u64,
    request_id: u32,
    daemon_instance_id: &str,
    protocol_version: u32,
    request: RestartRequest,
)
    requires
        call_ensures(
            DaemonLifecycle::request_restart,
            (lifecycle, client_id, request_id, daemon_instance_id, protocol_version),
            request,
        ),
    ensures
        request is Prepare <==> lifecycle.restart_ownership != RestartOwnership::Unknown
            && lifecycle.restart is None && lifecycle.state == LifecycleState::Running
            && lifecycle.execution_ready,
        request is Known <==> lifecycle.restart_ownership != RestartOwnership::Unknown
            && lifecycle.restart is Some,
        request matches RestartRequest::Known(ticket) ==> !ticket.first_request
            && ticket.restart_id@ == lifecycle.restart->0.restart_id@ && ticket.daemon_instance_id@
            == lifecycle.restart->0.daemon_instance_id@ && ticket.target_generation@
            == lifecycle.restart->0.target_generation@,
        request matches RestartRequest::Prepare(attempt) ==> {
            &&& attempt.step is ReadRecord
            &&& attempt.client_id == client_id
            &&& attempt.request_id == request_id
            &&& attempt.intent.phase == RestartPhase::Armed
            &&& attempt.intent.daemon_instance_id@ == daemon_instance_id@
            &&& attempt.intent.protocol_version == protocol_version
            &&& attempt.intent.supervisor_restart <==> lifecycle.restart_ownership
                == RestartOwnership::Supervisor
            &&& attempt.expected is Some <==> lifecycle.startup_restart is Some
        },
{
}

/// A restart is armed exactly where no stop is recorded and the record is the one that is expected;
/// then the armed record stands there, and otherwise the record stays.
pub proof fn arming_needs_the_expected_record(
    current: Option<&RestartRecord>,
    expected: Option<&RestartRecord>,
    armed: &RestartRecord,
    result: Result<(RestartArm, RecordWrite), String>,
)
    requires
        call_ensures(arm_restart_record, (current, expected, armed), result),
    ensures
        ({
            let stopped = current matches Some(record) && record.phase == RestartPhase::Cancelled;
            &&& (result matches Ok((arm, _)) && arm == RestartArm::StopWon) <==> stopped
            &&& (result matches Ok((arm, _)) && arm == RestartArm::Armed) <==> !stopped
                && stored_ref(current) == stored_ref(expected)
            &&& result matches Ok((RestartArm::Armed, write)) ==> (write matches RecordWrite::Write(
                record,
            ) && record@ == armed@)
            &&& result matches Ok((RestartArm::StopWon, write)) ==> write is Keep
        }),
{
}

/// An armed restart is taken back exactly where its own record stands there and was not stopped; then
/// what stood there before does again. The record of anybody else stays.
pub proof fn only_the_own_record_is_rolled_back(
    current: Option<&RestartRecord>,
    armed: &RestartRecord,
    previous: Option<&RestartRecord>,
    result: (RestartArmRollback, RecordWrite),
)
    requires
        armed.phase == RestartPhase::Armed,
        call_ensures(rollback_armed_restart, (current, armed, previous), result),
    ensures
        result.0 == RestartArmRollback::Restored <==> stored_ref(current) == Some(armed@),
        result.0 == RestartArmRollback::StopWon <==> (current matches Some(record) && record.phase
            == RestartPhase::Cancelled),
        result.0 != RestartArmRollback::Restored ==> result.1 is Keep,
        result.0 == RestartArmRollback::Restored && previous is None ==> result.1 is Remove,
        result.0 == RestartArmRollback::Restored && previous is Some ==> (result.1
            matches RecordWrite::Write(record) && record@ == previous->0@),
{
}

/// A restart is cancelled only in its own record, where nothing but the phase changes.
pub proof fn only_the_own_record_is_cancelled(
    current: Option<&RestartRecord>,
    armed: &RestartRecord,
    write: RecordWrite,
)
    requires
        armed.phase == RestartPhase::Armed,
        call_ensures(cancel_matching_armed_restart, (current, armed), write),
    ensures
        write is Write <==> stored_ref(current) == Some(armed@),
        !(write is Write) ==> write is Keep,
        write matches RecordWrite::Write(record) ==> record.phase == RestartPhase::Cancelled
            && record.restart_id@ == armed.restart_id@ && record.daemon_instance_id@
            == armed.daemon_instance_id@ && record.target_generation@ == armed.target_generation@
            && record.protocol_version == armed.protocol_version && record.supervisor_restart
            == armed.supervisor_restart,
{
}

/// A ticket picks a record only where all four of its parts are those of the record, and no stop is
/// recorded in it.
pub proof fn ticket_matches_in_every_part(
    current: Option<RestartRecord>,
    restart_id: &str,
    predecessor_instance_id: &str,
    target_generation: &str,
    protocol_version: u32,
    picked: Option<RestartRecord>,
    matching: bool,
)
    requires
        call_ensures(
            restart_record_for_ticket,
            (
                current,
                restart_id,
                predecessor_instance_id,
                target_generation,
                protocol_version,
            ),
            picked,
        ),
        call_ensures(
            restart_intent_matches_ticket,
            (
                current,
                restart_id,
                predecessor_instance_id,
                target_generation,
                protocol_version,
            ),
            matching,
        ),
    ensures
        matching <==> (current matches Some(record) && record.restart_id@ == restart_id@
            && record.daemon_instance_id@ == predecessor_instance_id@ && record.target_generation@
            == target_generation@ && record.protocol_version == protocol_version && record.phase
            != RestartPhase::Cancelled),
        picked is Some <==> matching,
        picked is Some ==> picked == current,
{
}

/// A stop is recorded as cancelled whatever stood there. What stood there keeps its name; where
/// nothing did, the record has a name that no restart has and names no daemon.
pub proof fn stop_is_recorded_as_cancelled(
    current: Option<RestartRecord>,
    stop_id: &str,
    protocol_version: u32,
    record: RestartRecord,
    at: int,
)
    requires
        call_ensures(stop_record_named, (current, stop_id, protocol_version), record),
        0 <= at < 5,
    ensures
        record.phase == RestartPhase::Cancelled,
        current matches Some(before) ==> record.restart_id@ == before.restart_id@
            && record.daemon_instance_id@ == before.daemon_instance_id@ && record.target_generation@
            == before.target_generation@ && record.protocol_version == before.protocol_version
            && record.supervisor_restart == before.supervisor_restart,
        current is None ==> record.restart_id@.skip(5) == stop_id@ && record.restart_id@[at]
            == seq!['s', 't', 'o', 'p', '-'][at] && record.daemon_instance_id@.len() == 0
            && record.target_generation@.len() == 0 && record.protocol_version == protocol_version
            && !record.supervisor_restart,
{
    reveal_strlit("stop-");
    if current is None {
        assert(record.restart_id@.skip(5) =~= stop_id@);
    }
}

/// Starting again clears a recorded stop and nothing else.
pub proof fn only_a_recorded_stop_is_cleared(
    current: Option<&RestartRecord>,
    result: (bool, RecordWrite),
)
    requires
        call_ensures(clear_cancelled_restart_record, (current,), result),
    ensures
        result.0 <==> (current matches Some(record) && record.phase == RestartPhase::Cancelled),
        result.0 <==> result.1 is Remove,
        !result.0 <==> result.1 is Keep,
{
}

/// A successor completes exactly the restart that it was started for, in every part of its name, and
/// once. It is told apart whether somebody completed it before or a stop or another restart came
/// between, and then the record stays.
pub proof fn only_the_own_restart_is_completed(
    current: Option<&RestartRecord>,
    expected: &RestartRecord,
    result: (RestartCompletion, RecordWrite),
)
    requires
        call_ensures(complete_matching_armed_restart, (current, expected), result),
    ensures
        ({
            let own = current matches Some(record) && record.restart_id@ == expected.restart_id@
                && record.daemon_instance_id@ == expected.daemon_instance_id@
                && record.target_generation@ == expected.target_generation@
                && record.protocol_version == expected.protocol_version;
            &&& result.0 == RestartCompletion::Completed <==> own && current->0.phase
                == RestartPhase::Armed
            &&& result.0 == RestartCompletion::AlreadyCompleted <==> own && current->0.phase
                == RestartPhase::Completed
            &&& result.0 == RestartCompletion::Completed <==> result.1 is Write
            &&& !(result.1 is Remove)
            &&& result.1 matches RecordWrite::Write(record) ==> record.phase
                == RestartPhase::Completed && record.restart_id@ == expected.restart_id@
                && record.supervisor_restart == current->0.supervisor_restart
        }),
{
}

/// The record of one restart is removed by its name alone, and no other is.
pub proof fn only_the_named_record_is_removed(
    current: Option<&RestartRecord>,
    restart_id: &str,
    write: RecordWrite,
)
    requires
        call_ensures(remove_matching_restart_record, (current, restart_id), write),
    ensures
        write is Remove <==> (current matches Some(record) && record.restart_id@ == restart_id@),
        write is Keep <==> !(write is Remove),
{
}

/// The record of a socket and its lock stand beside the socket, in two files, and the files of two
/// sockets are different ones.
pub proof fn record_and_lock_stand_beside_the_socket(
    socket_path: &Vec<u8>,
    other: &Vec<u8>,
    record: Vec<u8>,
    lock: Vec<u8>,
    other_record: Vec<u8>,
)
    requires
        call_ensures(restart_intent_path, (socket_path,), record),
        call_ensures(restart_record_lock_path, (socket_path,), lock),
        call_ensures(restart_intent_path, (other,), other_record),
    ensures
        socket_path@.is_prefix_of(record@),
        socket_path@.is_prefix_of(lock@),
        record@ == other_record@ ==> socket_path@ == other@,
{
    let n = socket_path@.len() as int;
    assert(record@.take(n) =~= socket_path@);
    assert(lock@.take(n) =~= socket_path@);
    if record@ == other_record@ {
        assert(other_record@.take(n) =~= other@);
    }
}

/// A restart goes its way when all goes well: the record is read, a helper waits, the record is armed,
/// the helper is active, and the request is accepted. A recorded stop ends it before a helper is
/// started, and after that with the end of the helper.
pub proof fn restart_goes_its_way(cancelled: bool)
    ensures
        next_step(StepView::ReadRecord, RestartEvent::RecordRead { cancelled: false })
            == StepView::SpawnHelper,
        next_step(StepView::ReadRecord, RestartEvent::RecordRead { cancelled }) is Refused
            <==> cancelled,
        next_step(StepView::SpawnHelper, RestartEvent::HelperWaiting) == StepView::ArmRecord,
        next_step(StepView::ArmRecord, RestartEvent::RecordArmed(RestartArm::Armed))
            == StepView::ActivateHelper,
        next_step(StepView::ArmRecord, RestartEvent::RecordArmed(RestartArm::StopWon))
            == StepView::ReapAfterStop,
        next_step(StepView::ReapAfterStop, RestartEvent::HelperReaped) is Refused,
        next_step(StepView::ActivateHelper, RestartEvent::HelperActive) == StepView::Accepted,
{
}

/// A step that fails never leads to acceptance. Before a helper waits the request is refused with the
/// very error; afterwards the helper is stopped first, and once the record is armed it is taken back
/// or cancelled before the request is refused.
pub proof fn failure_is_cleaned_up(step: StepView, error: String, rollback: RestartArmRollback)
    ensures
        step is ReadRecord || step is SpawnHelper || step is RollBackRecord ==> next_step(
            step,
            RestartEvent::Failed(error),
        ) == StepView::Refused(error@),
        step is ArmRecord ==> next_step(step, RestartEvent::Failed(error))
            == StepView::ReapAfterArmFailure(error@),
        step is ActivateHelper ==> next_step(step, RestartEvent::Failed(error))
            == StepView::ReapAfterActivationFailure(error@),
        step matches StepView::ReapAfterArmFailure(why) ==> next_step(
            step,
            RestartEvent::HelperReaped,
        ) == StepView::Refused(why),
        step matches StepView::ReapAfterActivationFailure(why) ==> next_step(
            step,
            RestartEvent::HelperReaped,
        ) == StepView::RollBackRecord(why),
        step matches StepView::ReapAfterActivationFailure(why) ==> next_step(
            step,
            RestartEvent::Failed(error),
        ) == StepView::CancelRecord(why, error@),
        step is RollBackRecord ==> next_step(step, RestartEvent::RecordRolledBack(rollback))
            is Refused,
        step is CancelRecord ==> next_step(step, RestartEvent::RecordCancelled) is Refused
            && next_step(step, RestartEvent::Failed(error)) is Refused,
        step is ReapAfterArmFailure || step is ReapAfterStop ==> next_step(
            step,
            RestartEvent::Failed(error),
        ) is Refused,
{
}

/// Once a restart is accepted the daemon drains for it and owes the answer to the request that asked.
/// Where a helper is loose no work is taken any more, and the daemon stops.
pub proof fn accepted_restart_drains_the_daemon(
    before: DaemonLifecycle,
    attempt: RestartAttempt,
    event: RestartEvent,
    after: DaemonLifecycle,
)
    requires
        answers(attempt.step@, event),
        before.after_step(attempt, event, after),
    ensures
        event is HelperActive ==> after.state == LifecycleState::Draining
            && after.restart_requested && !after.drained && !after.response_complete
            && after.pending_response == Some((attempt.client_id, attempt.request_id)) && (
        after.restart matches Some(record) && record@ == attempt.intent@) && after.execution_ready
            == before.execution_ready,
        attempt.step@ is ReapAfterActivationFailure && event is Failed ==> after.state
            == LifecycleState::Draining && !after.execution_ready && after.stop_requested
            == before.stop_requested,
        attempt.step@ is CancelRecord ==> after.stop_requested,
        !(event is HelperActive) && !(attempt.step@ is CancelRecord) ==> after.stop_requested
            == before.stop_requested && after.restart_requested == before.restart_requested,
{
}

/// The work of a daemon that does not drain is never over, and an answer counts only where it was
/// owed: to the very client and request, while the daemon drains.
pub proof fn only_the_owed_answer_counts(
    lifecycle: &mut DaemonLifecycle,
    answered: &mut DaemonLifecycle,
    left: &mut DaemonLifecycle,
    client_id: u64,
    request_id: u32,
)
    requires
        *old(answered) == *old(lifecycle),
        *old(left) == *old(lifecycle),
        call_ensures(DaemonLifecycle::mark_drained, (lifecycle,), ()),
        call_ensures(
            DaemonLifecycle::mark_restart_response_complete,
            (answered, client_id, request_id),
            (),
        ),
        call_ensures(DaemonLifecycle::resolve_restart_response_disconnect, (left, client_id), ()),
    ensures
        final(lifecycle).drained <==> old(lifecycle).drained || old(lifecycle).state
            == LifecycleState::Draining,
        final(lifecycle).response_complete == old(lifecycle).response_complete,
        final(answered).drained == old(lifecycle).drained,
        final(answered).response_complete <==> old(lifecycle).response_complete || old(lifecycle).state == LifecycleState::Draining && old(lifecycle).pending_response == Some(
            (client_id, request_id),
        ),
        final(left).response_complete <==> old(lifecycle).response_complete || old(lifecycle).state
            == LifecycleState::Draining && (old(lifecycle).pending_response matches Some((owed, _))
            && owed == client_id),
        final(answered).response_complete && !old(lifecycle).response_complete ==> final(answered).pending_response is None,
        final(left).state == old(lifecycle).state,
        final(answered).state == old(lifecycle).state,
{
}

/// The daemon hands over exactly when its work is over and its answer is out.
pub proof fn handover_needs_both(lifecycle: &DaemonLifecycle, ready: bool)
    requires
        call_ensures(DaemonLifecycle::handoff_ready, (lifecycle,), ready),
    ensures
        ready ==> lifecycle.drained,
        ready ==> lifecycle.response_complete,
        lifecycle.drained && lifecycle.response_complete ==> ready,
{
}

/// A supervisor starts the daemon again only for a restart that is armed and that it is to carry
/// out: neither for one that was cancelled nor without one.
pub proof fn supervisor_restarts_only_armed_restarts(lifecycle: &DaemonLifecycle, result: bool)
    requires
        call_ensures(DaemonLifecycle::supervisor_restart_requested, (lifecycle,), result),
    ensures
        result <==> (lifecycle.restart matches Some(record) && record.phase == RestartPhase::Armed
            && record.supervisor_restart),
{
}

/// A shutdown cancels the restart that was accepted, or else the one that the daemon was started for,
/// and writes that very record; where there is neither, it cancels what is stored. The other one
/// stays.
pub proof fn shutdown_cancels_the_latest_restart(
    lifecycle: &mut DaemonLifecycle,
    fence: ShutdownFence,
)
    requires
        call_ensures(DaemonLifecycle::cancel_restart_fence, (lifecycle,), fence),
    ensures
        fence is CancelStored <==> old(lifecycle).restart is None && old(lifecycle).startup_restart
            is None,
        fence matches ShutdownFence::WriteRecord(record) ==> record.phase
            == RestartPhase::Cancelled && record.restart_id@ == if old(lifecycle).restart is Some {
            old(lifecycle).restart->0.restart_id@
        } else {
            old(lifecycle).startup_restart->0.restart_id@
        },
        old(lifecycle).restart is Some ==> final(lifecycle).restart->0.phase
            == RestartPhase::Cancelled && final(lifecycle).startup_restart == old(lifecycle).startup_restart,
        old(lifecycle).restart is None && old(lifecycle).startup_restart is Some ==> final(lifecycle).startup_restart->0.phase == RestartPhase::Cancelled,
        final(lifecycle).state == old(lifecycle).state,
        final(lifecycle).stop_requested == old(lifecycle).stop_requested,
{
}

/// After a shutdown has begun no work is taken and no restart is under way; only a failed restart makes
/// the daemon ask itself to stop.
pub proof fn shutdown_closes_the_daemon(stopped: &mut DaemonLifecycle, failed: &mut DaemonLifecycle)
    requires
        call_ensures(DaemonLifecycle::cancel_restart_for_shutdown, (stopped,), ()),
        call_ensures(DaemonLifecycle::fail_stop_restart, (failed,), ()),
    ensures
        final(stopped).state == LifecycleState::Draining,
        !final(stopped).restart_requested,
        final(stopped).stop_requested == old(stopped).stop_requested,
        final(stopped).execution_ready == old(stopped).execution_ready,
        final(failed).state == LifecycleState::Draining,
        !final(failed).restart_requested,
        final(failed).stop_requested,
{
}

/// No step of a restart changes who owns the daemon or what it was started with. Only an active helper
/// drains the daemon, only one that could not be stopped closes it, and only a record that was to be
/// cancelled stops it: every other step leaves its life alone.
pub proof fn restart_steps_leave_the_rest_alone(
    life: &mut DaemonLifecycle,
    attempt: RestartAttempt,
    event: RestartEvent,
    next: RestartAttempt,
)
    requires
        call_ensures(DaemonLifecycle::advance_restart, (life, attempt, event), next),
    ensures
        final(life).restart_ownership == old(life).restart_ownership,
        final(life).startup_activated == old(life).startup_activated,
        stored(final(life).startup_restart) == stored(old(life).startup_restart),
        next.client_id == attempt.client_id,
        next.request_id == attempt.request_id,
        next.intent == attempt.intent,
        next.expected == attempt.expected,
        !(attempt.step@ is ActivateHelper && event is HelperActive) && !(attempt.step@
            is ReapAfterActivationFailure && event is Failed) && !(attempt.step@ is CancelRecord)
            ==> *final(life) == *old(life),
{
}

} // verus!
