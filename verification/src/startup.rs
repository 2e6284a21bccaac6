//! How the daemon is started, restarted and stopped from the command line.
use crate::instance::PidFileState;
use crate::lifecycle::{RecordWrite, RestartCompletion, RestartOwnership, RestartPhase, RestartRecord};
use crate::paths;
use crate::paths::same_path;
use crate::service::CurrentProcessOwnership;
use crate::text;
use crate::text::{decimal_text, join2, join3, join5};
use vstd::prelude::*;

verus! {

/// The exit code that makes a service manager start the daemon again.
pub const PLANNED_RESTART_EXIT_CODE: i32 = 75;

/// How long a stop waits for the daemon, in milliseconds.
pub const STOP_WAIT_TIMEOUT_MILLIS: u64 = 5000;

/// How long a stop waits between two looks, in milliseconds.
pub const STOP_POLL_INTERVAL_MILLIS: u64 = 50;

/// Why the daemon ends.
#[derive(Clone, Copy, PartialEq, Eq, Structural, Debug)]
pub enum DaemonExit {
    Stopped,
    PlannedRestart,
}

impl DaemonExit {
    /// The exit code of the process.
    pub fn code(self) -> (code: i32)
        ensures
            code == match self {
                DaemonExit::Stopped => 0i32,
                DaemonExit::PlannedRestart => PLANNED_RESTART_EXIT_CODE,
            },
    {
        match self {
            DaemonExit::Stopped => 0,
            DaemonExit::PlannedRestart => PLANNED_RESTART_EXIT_CODE,
        }
    }
}

/// Who restarts the daemon. A service manager restarts only the daemon on the default socket, and
/// only if it runs this very process.
pub fn restart_ownership(
    socket_path: &Vec<u8>,
    default_socket_path: &Vec<u8>,
    ownership: CurrentProcessOwnership,
) -> (result: RestartOwnership)
    ensures
        result == if !paths::names_same_path(socket_path@, default_socket_path@) {
            RestartOwnership::Standalone
        } else {
            match ownership {
                CurrentProcessOwnership::Managed => RestartOwnership::Supervisor,
                CurrentProcessOwnership::NotManaged => RestartOwnership::Standalone,
                CurrentProcessOwnership::Unknown => RestartOwnership::Unknown,
            }
        },
{
    if !same_path(socket_path, default_socket_path) {
        return RestartOwnership::Standalone;
    }
    match ownership {
        CurrentProcessOwnership::Managed => RestartOwnership::Supervisor,
        CurrentProcessOwnership::NotManaged => RestartOwnership::Standalone,
        CurrentProcessOwnership::Unknown => RestartOwnership::Unknown,
    }
}

/// How a daemon ends that has been drained for a restart.
pub open spec fn restart_exit(supervisor_restart: bool) -> DaemonExit {
    if supervisor_restart {
        DaemonExit::PlannedRestart
    } else {
        DaemonExit::Stopped
    }
}

/// How a daemon ends that has been drained for a restart: so that a service manager starts it
/// again, if one does that.
pub fn completed_restart_exit(supervisor_restart: bool) -> (exit: DaemonExit)
    ensures
        exit == restart_exit(supervisor_restart),
{
    if supervisor_restart {
        DaemonExit::PlannedRestart
    } else {
        DaemonExit::Stopped
    }
}

/// One step of `cued start`.
#[derive(Clone, Copy, PartialEq, Eq, Structural, Debug)]
pub enum StartStep {
    /// Stop the daemon as `cued stop` does.
    Stop,
    /// Wait for the daemon's lock and clear a cancelled restart under it.
    WaitAndClearCancelled,
    /// Have the service manager restart the daemon.
    RestartService,
    /// Stop the daemon by force.
    ForceStop,
    /// Refuse to go on while a daemon answers on the socket.
    RequireSilentSocket,
    /// Run in the foreground. A cancelled restart is cleared if `clear_cancelled`.
    RunForeground { clear_cancelled: bool },
    /// Clear a cancelled restart under the daemon's lock.
    ClearCancelled,
    /// Start a daemon in the background.
    RunBackground,
}

/// The steps of `cued start`.
pub open spec fn start_steps(
    fg: bool,
    force: bool,
    preserve_restart_fence: bool,
    has_socket_override: bool,
    restart_recorded: bool,
    service_installed: bool,
) -> Seq<StartStep> {
    let run = if fg {
        seq![StartStep::RunForeground { clear_cancelled: !preserve_restart_fence }]
    } else {
        seq![StartStep::ClearCancelled, StartStep::RunBackground]
    };
    if !force {
        seq![StartStep::RequireSilentSocket] + run
    } else {
        let stop = if restart_recorded {
            seq![StartStep::Stop]
        } else {
            Seq::empty()
        };
        if service_installed && !has_socket_override {
            stop + seq![StartStep::WaitAndClearCancelled, StartStep::RestartService]
        } else {
            stop + seq![StartStep::ForceStop] + run
        }
    }
}

/// The steps of `cued start`. With `force` a daemon that runs is ended first; where a service
/// manager has charge of the default daemon, that is left to it, so that the two do not fight.
/// `restart_recorded` says whether a restart is on record, `service_installed` whether the service
/// manager has charge of the daemon.
pub fn run_start(
    fg: bool,
    force: bool,
    preserve_restart_fence: bool,
    has_socket_override: bool,
    restart_recorded: bool,
    service_installed: bool,
) -> (steps: Vec<StartStep>)
    ensures
        steps@ == start_steps(
            fg,
            force,
            preserve_restart_fence,
            has_socket_override,
            restart_recorded,
            service_installed,
        ),
{
    let mut steps: Vec<StartStep> = Vec::new();
    if force {
        if restart_recorded {
            steps.push(StartStep::Stop);
        }
        if service_installed && !has_socket_override {
            steps.push(StartStep::WaitAndClearCancelled);
            steps.push(StartStep::RestartService);
            assert(steps@ =~= start_steps(
                fg,
                force,
                preserve_restart_fence,
                has_socket_override,
                restart_recorded,
                service_installed,
            ));
            return steps;
        }
        steps.push(StartStep::ForceStop);
    } else {
        steps.push(StartStep::RequireSilentSocket);
    }
    if fg {
        steps.push(StartStep::RunForeground { clear_cancelled: !preserve_restart_fence });
    } else {
        steps.push(StartStep::ClearCancelled);
        steps.push(StartStep::RunBackground);
    }
    assert(steps@ =~= start_steps(
        fg,
        force,
        preserve_restart_fence,
        has_socket_override,
        restart_recorded,
        service_installed,
    ));
    steps
}

/// A daemon is started only behind a step that makes sure that none runs: one that refuses to go
/// on while another answers, or one that ends it.
pub proof fn start_never_joins_a_running_daemon(
    fg: bool,
    force: bool,
    preserve_restart_fence: bool,
    has_socket_override: bool,
    restart_recorded: bool,
    service_installed: bool,
    i: int,
)
    requires
        0 <= i < start_steps(
            fg,
            force,
            preserve_restart_fence,
            has_socket_override,
            restart_recorded,
            service_installed,
        ).len(),
        ({
            let step = start_steps(
                fg,
                force,
                preserve_restart_fence,
                has_socket_override,
                restart_recorded,
                service_installed,
            )[i];
            step is RunForeground || step is RunBackground
        }),
    ensures
        exists|j: int|
            0 <= j < i && ({
                let step = #[trigger] start_steps(
                    fg,
                    force,
                    preserve_restart_fence,
                    has_socket_override,
                    restart_recorded,
                    service_installed,
                )[j];
                step is RequireSilentSocket || step is ForceStop
            }),
{
    let steps = start_steps(
        fg,
        force,
        preserve_restart_fence,
        has_socket_override,
        restart_recorded,
        service_installed,
    );
    let at: int = if force && restart_recorded {
        1
    } else {
        0
    };
    assert(steps[at] is RequireSilentSocket || steps[at] is ForceStop || steps[at]
        is WaitAndClearCancelled);
}

/// One step of `cued restart`.
#[derive(Clone, Copy, PartialEq, Eq, Structural, Debug)]
pub enum RestartCommandStep {
    /// Take the daemon's lock, clear a cancelled restart under it, and let it go.
    ClearCancelledUnderLock,
    /// Have the service manager restart the daemon.
    RestartService,
    /// Start a daemon in the background.
    RunBackground,
    /// Wait until a daemon is ready.
    WaitUntilReady,
    /// Ask the daemon to drain its work and restart.
    RequestGracefulRestart,
    /// Wait until its successor is ready.
    WaitForSuccessor,
}

/// The steps of `cued restart`.
pub open spec fn restart_steps(
    responding: bool,
    service_installed: bool,
    has_socket_override: bool,
    socket_is_default: bool,
    wait: bool,
) -> Seq<RestartCommandStep> {
    if responding {
        if wait {
            seq![
                RestartCommandStep::RequestGracefulRestart,
                RestartCommandStep::WaitForSuccessor,
            ]
        } else {
            seq![RestartCommandStep::RequestGracefulRestart]
        }
    } else {
        let start = if service_installed && !has_socket_override && socket_is_default {
            seq![RestartCommandStep::ClearCancelledUnderLock, RestartCommandStep::RestartService]
        } else {
            seq![RestartCommandStep::ClearCancelledUnderLock, RestartCommandStep::RunBackground]
        };
        if wait {
            start.push(RestartCommandStep::WaitUntilReady)
        } else {
            start
        }
    }
}

/// The steps of `cued restart`. A daemon that answers is asked to restart. Otherwise one is started,
/// unless the process of the PID file is alive: then nothing is done, since it may be busy.
pub fn run_restart(
    responding: bool,
    pid_state: PidFileState,
    service_installed: bool,
    has_socket_override: bool,
    socket_is_default: bool,
    wait: bool,
    socket: &str,
) -> (result: Result<Vec<RestartCommandStep>, String>)
    ensures
        match result {
            Ok(steps) => (responding || !(pid_state is Running)) && steps@ == restart_steps(
                responding,
                service_installed,
                has_socket_override,
                socket_is_default,
                wait,
            ),
            Err(message) => !responding && (pid_state matches PidFileState::Running(pid) && message@
                == "refusing restart: cued pid "@ + text::decimal(pid as nat) + " is alive but "@
                + socket@ + " is not ready; no force-stop was attempted"@),
        },
{
    let mut steps: Vec<RestartCommandStep> = Vec::new();
    if !responding {
        if let PidFileState::Running(pid) = pid_state {
            let id = decimal_text(pid as u64);
            return Err(
                join5(
                    "refusing restart: cued pid ",
                    id.as_str(),
                    " is alive but ",
                    socket,
                    " is not ready; no force-stop was attempted",
                ),
            );
        }
        steps.push(RestartCommandStep::ClearCancelledUnderLock);
        if service_installed && !has_socket_override && socket_is_default {
            steps.push(RestartCommandStep::RestartService);
        } else {
            steps.push(RestartCommandStep::RunBackground);
        }
        if wait {
            steps.push(RestartCommandStep::WaitUntilReady);
        }
    } else {
        steps.push(RestartCommandStep::RequestGracefulRestart);
        if wait {
            steps.push(RestartCommandStep::WaitForSuccessor);
        }
    }
    assert(steps@ =~= restart_steps(
        responding,
        service_installed,
        has_socket_override,
        socket_is_default,
        wait,
    ));
    Ok(steps)
}

/// What a daemon does that is started in the foreground.
#[derive(Clone, Debug)]
pub enum ForegroundStartup {
    /// It does not start: a restart was cancelled for good.
    SuppressedByCancellation,
    /// It starts, as the successor of a restart if there is one.
    Start(Option<RestartRecord>),
}

/// A restart on record was cancelled.
pub open spec fn is_cancelled(restart: Option<RestartRecord>) -> bool {
    restart matches Some(record) && record.phase == RestartPhase::Cancelled
}

/// Decides what a daemon does that is started in the foreground, by the restart that is on record,
/// and what becomes of the record. With `clear_cancelled` a cancelled restart is forgotten first.
pub fn prepare_foreground_startup(restart: Option<RestartRecord>, clear_cancelled: bool) -> (result:
    (ForegroundStartup, RecordWrite))
    ensures
        if !is_cancelled(restart) {
            result.0 == ForegroundStartup::Start(restart) && result.1 is Keep
        } else if clear_cancelled {
            result.0 == ForegroundStartup::Start(None) && result.1 is Remove
        } else {
            result.0 is SuppressedByCancellation && result.1 is Keep
        },
{
    let cancelled = match &restart {
        Some(record) => record.phase == RestartPhase::Cancelled,
        None => false,
    };
    if !cancelled {
        (ForegroundStartup::Start(restart), RecordWrite::Keep)
    } else if clear_cancelled {
        (ForegroundStartup::Start(None), RecordWrite::Remove)
    } else {
        (ForegroundStartup::SuppressedByCancellation, RecordWrite::Keep)
    }
}

/// What happens to a daemon that runs.
#[derive(Clone, Copy, PartialEq, Eq, Structural, Debug)]
pub enum ExitEvent {
    SigTerm,
    SigInt,
    /// A restart could not be prepared although new work is no longer taken.
    FailStop,
    /// A restart was accepted.
    RestartAccepted,
    /// All work that was taken is done, and the restart can be handed over.
    HandoffReady,
}

/// What a daemon does about an event.
#[derive(Clone, Copy, PartialEq, Eq, Debug)]
pub enum ExitStep {
    /// Wait for the work that was taken.
    Drain,
    /// Shut down for the given reason. A restart that is under way is cancelled first if
    /// `cancel_restart`.
    ShutDown { reason: &'static str, exit: DaemonExit, cancel_restart: bool },
    /// Nothing.
    Ignore,
}

/// What a daemon does about an event. A stop wins over a restart that is under way.
pub open spec fn exit_decision(draining: bool, event: ExitEvent, supervisor_restart: bool)
    -> ExitStep {
    match event {
        ExitEvent::SigTerm => ExitStep::ShutDown {
            reason: "SIGTERM",
            exit: DaemonExit::Stopped,
            cancel_restart: true,
        },
        ExitEvent::SigInt => ExitStep::ShutDown {
            reason: "SIGINT",
            exit: DaemonExit::Stopped,
            cancel_restart: true,
        },
        ExitEvent::FailStop => ExitStep::ShutDown {
            reason: "restart fail-stop",
            exit: DaemonExit::Stopped,
            cancel_restart: true,
        },
        ExitEvent::RestartAccepted => if draining {
            ExitStep::Ignore
        } else {
            ExitStep::Drain
        },
        ExitEvent::HandoffReady => if draining {
            ExitStep::ShutDown {
                reason: "restart",
                exit: restart_exit(supervisor_restart),
                cancel_restart: false,
            }
        } else {
            ExitStep::Ignore
        },
    }
}

/// Decides what a daemon does about an event. `draining` says whether it already waits for the work
/// that was taken, `supervisor_restart` whether a service manager restarts it.
pub fn exit_step(draining: bool, event: ExitEvent, supervisor_restart: bool) -> (step: ExitStep)
    ensures
        step == exit_decision(draining, event, supervisor_restart),
{
    match event {
        ExitEvent::SigTerm => ExitStep::ShutDown {
            reason: "SIGTERM",
            exit: DaemonExit::Stopped,
            cancel_restart: true,
        },
        ExitEvent::SigInt => ExitStep::ShutDown {
            reason: "SIGINT",
            exit: DaemonExit::Stopped,
            cancel_restart: true,
        },
        ExitEvent::FailStop => ExitStep::ShutDown {
            reason: "restart fail-stop",
            exit: DaemonExit::Stopped,
            cancel_restart: true,
        },
        ExitEvent::RestartAccepted => {
            if draining {
                ExitStep::Ignore
            } else {
                ExitStep::Drain
            }
        },
        ExitEvent::HandoffReady => {
            if draining {
                ExitStep::ShutDown {
                    reason: "restart",
                    exit: completed_restart_exit(supervisor_restart),
                    cancel_restart: false,
                }
            } else {
                ExitStep::Ignore
            }
        },
    }
}

/// The daemon ends so that a service manager starts it again only once its work is done, and only
/// for a restart that the service manager is to carry out.
pub proof fn planned_restart_is_drained(
    draining: bool,
    event: ExitEvent,
    supervisor_restart: bool,
)
    requires
        exit_decision(draining, event, supervisor_restart) matches ExitStep::ShutDown {
            exit,
            ..
        } && exit == DaemonExit::PlannedRestart,
    ensures
        draining,
        event == ExitEvent::HandoffReady,
        supervisor_restart,
{
}

/// How far a successor has come in taking over.
#[derive(Clone, Copy, PartialEq, Eq, Structural, Debug)]
pub enum TakeoverStage {
    /// It asks itself who it is.
    Probe,
    /// Its scheduler gets ready to run work.
    Activate,
    /// It records that the restart is complete.
    Commit,
    /// It waits until its scheduler runs work.
    AwaitExecution,
}

/// What came of a stage.
#[derive(Clone, Copy, PartialEq, Eq, Structural, Debug)]
pub enum TakeoverEvent {
    /// Whether the daemon that answered is the exact successor.
    Probed { exact: bool },
    /// Whether the scheduler is ready to run work.
    Activated { armed: bool },
    Committed { completion: RestartCompletion },
    /// Whether the scheduler runs work.
    Executing { ready: bool },
}

/// What a successor does next.
#[derive(Clone, Copy, PartialEq, Eq, Debug)]
pub enum TakeoverStep {
    Go { stage: TakeoverStage },
    /// Tell that the restart is complete, and wait until the scheduler runs work.
    MarkCompleted,
    /// It has taken over.
    Done,
    ShutDown { reason: &'static str, exit: DaemonExit },
    /// The event does not belong to the stage.
    Ignore,
}

/// What a successor does next.
pub open spec fn takeover_decision(
    stage: TakeoverStage,
    event: TakeoverEvent,
    supervisor_restart: bool,
) -> TakeoverStep {
    match (stage, event) {
        (TakeoverStage::Probe, TakeoverEvent::Probed { exact }) => if exact {
            TakeoverStep::Go { stage: TakeoverStage::Activate }
        } else {
            TakeoverStep::ShutDown {
                reason: "restart readiness failed",
                exit: restart_exit(supervisor_restart),
            }
        },
        (TakeoverStage::Activate, TakeoverEvent::Activated { armed }) => if armed {
            TakeoverStep::Go { stage: TakeoverStage::Commit }
        } else {
            TakeoverStep::ShutDown {
                reason: "restart activation arm failed",
                exit: restart_exit(supervisor_restart),
            }
        },
        (TakeoverStage::Commit, TakeoverEvent::Committed { completion }) => if completion
            == RestartCompletion::CancelledOrReplaced {
            TakeoverStep::ShutDown { reason: "restart cancelled", exit: DaemonExit::Stopped }
        } else {
            TakeoverStep::MarkCompleted
        },
        (TakeoverStage::AwaitExecution, TakeoverEvent::Executing { ready }) => if ready {
            TakeoverStep::Done
        } else {
            TakeoverStep::ShutDown {
                reason: "restart activation failed",
                exit: restart_exit(supervisor_restart),
            }
        },
        _ => TakeoverStep::Ignore,
    }
}

/// Decides what a successor does next. It takes work only after it has shown that it is the exact
/// successor, its scheduler is ready, and the completed restart is on record; `MarkCompleted` leads
/// to the last stage.
pub fn finalize_startup_restart(
    stage: TakeoverStage,
    event: TakeoverEvent,
    supervisor_restart: bool,
) -> (step: TakeoverStep)
    ensures
        step == takeover_decision(stage, event, supervisor_restart),
{
    match (stage, event) {
        (TakeoverStage::Probe, TakeoverEvent::Probed { exact }) => {
            if exact {
                TakeoverStep::Go { stage: TakeoverStage::Activate }
            } else {
                TakeoverStep::ShutDown {
                    reason: "restart readiness failed",
                    exit: completed_restart_exit(supervisor_restart),
                }
            }
        },
        (TakeoverStage::Activate, TakeoverEvent::Activated { armed }) => {
            if armed {
                TakeoverStep::Go { stage: TakeoverStage::Commit }
            } else {
                TakeoverStep::ShutDown {
                    reason: "restart activation arm failed",
                    exit: completed_restart_exit(supervisor_restart),
                }
            }
        },
        (TakeoverStage::Commit, TakeoverEvent::Committed { completion }) => {
            if completion == RestartCompletion::CancelledOrReplaced {
                TakeoverStep::ShutDown { reason: "restart cancelled", exit: DaemonExit::Stopped }
            } else {
                TakeoverStep::MarkCompleted
            }
        },
        (TakeoverStage::AwaitExecution, TakeoverEvent::Executing { ready }) => {
            if ready {
                TakeoverStep::Done
            } else {
                TakeoverStep::ShutDown {
                    reason: "restart activation failed",
                    exit: completed_restart_exit(supervisor_restart),
                }
            }
        },
        _ => TakeoverStep::Ignore,
    }
}

/// How a takeover ends, when all four stages give what they give.
pub open spec fn takeover(
    exact: bool,
    armed: bool,
    completion: RestartCompletion,
    ready: bool,
    supervisor_restart: bool,
) -> TakeoverStep {
    let probed = takeover_decision(
        TakeoverStage::Probe,
        TakeoverEvent::Probed { exact },
        supervisor_restart,
    );
    let activated = takeover_decision(
        TakeoverStage::Activate,
        TakeoverEvent::Activated { armed },
        supervisor_restart,
    );
    let committed = takeover_decision(
        TakeoverStage::Commit,
        TakeoverEvent::Committed { completion },
        supervisor_restart,
    );
    if !(probed is Go) {
        probed
    } else if !(activated is Go) {
        activated
    } else if !(committed is MarkCompleted) {
        committed
    } else {
        takeover_decision(
            TakeoverStage::AwaitExecution,
            TakeoverEvent::Executing { ready },
            supervisor_restart,
        )
    }
}

/// A successor takes work only if it is the exact one, its scheduler was ready, and the restart was
/// neither cancelled nor replaced; a restart that was cancelled ends it for good.
pub proof fn work_waits_for_the_whole_takeover(
    exact: bool,
    armed: bool,
    completion: RestartCompletion,
    ready: bool,
    supervisor_restart: bool,
)
    ensures
        takeover(exact, armed, completion, ready, supervisor_restart) is Done <==> exact && armed
            && completion != RestartCompletion::CancelledOrReplaced && ready,
        exact && armed && completion == RestartCompletion::CancelledOrReplaced ==> takeover(
            exact,
            armed,
            completion,
            ready,
            supervisor_restart,
        ) == (TakeoverStep::ShutDown {
            reason: "restart cancelled",
            exit: DaemonExit::Stopped,
        }),
{
}

/// A stop that waits for the daemon to let its lock go.
#[derive(Clone, PartialEq, Eq, Debug)]
pub struct StopWait {
    /// The daemon has been asked to stop.
    pub shutdown_requested: bool,
    /// Why it could not be asked, the last time.
    pub last_socket_error: Option<String>,
}

/// What a stop does next.
#[derive(Clone, PartialEq, Eq, Debug)]
pub enum StopStep {
    /// The daemon is gone.
    Stopped { told: &'static str },
    TimedOut { message: String },
    /// Ask the daemon to stop.
    RequestShutdown,
    /// Look again later.
    Sleep,
}

/// What came of asking the daemon to stop.
#[derive(Clone, PartialEq, Eq, Debug)]
pub enum ShutdownAttempt {
    Requested,
    Failed { error: String },
    TimedOut,
    NotConnected { error: String },
}

/// Why a stop gives up.
pub open spec fn stop_timeout(
    timeout_millis: u64,
    lock: Seq<char>,
    lock_error: Seq<char>,
    socket_error: Option<String>,
) -> Seq<char> {
    "cued stop timed out after "@ + text::decimal(timeout_millis as nat)
        + " ms: daemon ownership lock "@ + lock + " was not released; last lock result: "@
        + lock_error + "; last socket result: "@ + match socket_error {
        Some(error) => error@,
        None => "not attempted"@,
    }
}

impl StopWait {
    /// The daemon has not been asked yet.
    pub fn new() -> (wait: Self)
        ensures
            !wait.shutdown_requested,
            wait.last_socket_error is None,
    {
        StopWait { shutdown_requested: false, last_socket_error: None }
    }

    /// Decides what is done after an attempt to take the daemon's lock: success is told only once
    /// the lock is free. Times are in milliseconds.
    pub fn lock_tried(
        &self,
        lock_error: Option<&str>,
        now: u64,
        deadline: u64,
        timeout_millis: u64,
        lock: &str,
    ) -> (step: StopStep)
        ensures
            match lock_error {
                None => step == (StopStep::Stopped {
                    told: if self.shutdown_requested {
                        "cued: daemon stopped"
                    } else {
                        "cued: no active daemon; restart handoff durably cancelled"
                    },
                }),
                Some(error) => if now >= deadline {
                    step matches StopStep::TimedOut { message } && message@ == stop_timeout(
                        timeout_millis,
                        lock@,
                        error@,
                        self.last_socket_error,
                    )
                } else if self.shutdown_requested {
                    step == StopStep::Sleep
                } else {
                    step == StopStep::RequestShutdown
                },
            },
    {
        match lock_error {
            None => {
                if self.shutdown_requested {
                    StopStep::Stopped { told: "cued: daemon stopped" }
                } else {
                    StopStep::Stopped {
                        told: "cued: no active daemon; restart handoff durably cancelled",
                    }
                }
            },
            Some(error) => {
                if now >= deadline {
                    let millis = decimal_text(timeout_millis);
                    let mut message = join5(
                        "cued stop timed out after ",
                        millis.as_str(),
                        " ms: daemon ownership lock ",
                        lock,
                        " was not released; last lock result: ",
                    );
                    message.append(error);
                    message.append("; last socket result: ");
                    match &self.last_socket_error {
                        Some(error) => {
                            message.append(error.as_str());
                        },
                        None => {
                            message.append("not attempted");
                        },
                    }
                    StopStep::TimedOut { message }
                } else if self.shutdown_requested {
                    StopStep::Sleep
                } else {
                    StopStep::RequestShutdown
                }
            },
        }
    }

    /// Takes in what came of asking the daemon to stop. Once it has been asked it is not asked
    /// again.
    pub fn shutdown_tried(&mut self, attempt: ShutdownAttempt, socket: &str)
        ensures
            final(self).shutdown_requested == (old(self).shutdown_requested
                || attempt is Requested),
            match attempt {
                ShutdownAttempt::Requested => final(self).last_socket_error == old(self).last_socket_error,
                ShutdownAttempt::Failed { error } => final(self).last_socket_error == Some(error),
                ShutdownAttempt::TimedOut => final(self).last_socket_error matches Some(error)
                    && error@ == "shutdown request timed out"@,
                ShutdownAttempt::NotConnected { error } => final(self).last_socket_error matches Some(told) && told@ == "connect to "@ + socket@ + ": "@
                    + error@,
            },
    {
        match attempt {
            ShutdownAttempt::Requested => {
                self.shutdown_requested = true;
            },
            ShutdownAttempt::Failed { error } => {
                self.last_socket_error = Some(error);
            },
            ShutdownAttempt::TimedOut => {
                self.last_socket_error = Some("shutdown request timed out".to_owned());
            },
            ShutdownAttempt::NotConnected { error } => {
                let head = join3("connect to ", socket, ": ");
                self.last_socket_error = Some(join2(head.as_str(), error.as_str()));
            },
        }
    }
}

/// How long a stop waits before it looks again: never beyond its deadline. Times are in
/// milliseconds.
pub fn stop_poll_delay(now: u64, deadline: u64) -> (delay: u64)
    ensures
        delay == if now >= deadline {
            0
        } else if deadline - now < STOP_POLL_INTERVAL_MILLIS {
            (deadline - now) as u64
        } else {
            STOP_POLL_INTERVAL_MILLIS
        },
{
    if now >= deadline {
        0
    } else if deadline - now < STOP_POLL_INTERVAL_MILLIS {
        deadline - now
    } else {
        STOP_POLL_INTERVAL_MILLIS
    }
}

/// What is done in one round of a wait for the daemon's lock before a cancelled restart is cleared.
#[derive(Clone, PartialEq, Eq, Debug)]
pub enum ClearStep {
    /// Clear the cancelled restart under the lock, which is held.
    Clear,
    /// Look again later.
    Wait,
    GiveUp { message: String },
}

/// Decides on one round of the wait for the daemon's lock. Times are in milliseconds.
pub fn wait_and_clear_cancelled_restart(
    locked: bool,
    now: u64,
    deadline: u64,
    timeout_seconds: u64,
    lock: &str,
) -> (step: ClearStep)
    ensures
        if locked {
            step == ClearStep::Clear
        } else if now >= deadline {
            step matches ClearStep::GiveUp { message } && message@ == "daemon did not release "@
                + lock@ + " within "@ + text::decimal(timeout_seconds as nat) + " s"@
        } else {
            step == ClearStep::Wait
        },
{
    if locked {
        ClearStep::Clear
    } else if now >= deadline {
        let seconds = decimal_text(timeout_seconds);
        ClearStep::GiveUp {
            message: join5(
                "daemon did not release ",
                lock,
                " within ",
                seconds.as_str(),
                " s",
            ),
        }
    } else {
        ClearStep::Wait
    }
}

/// How often a daemon that was started in the background is looked at.
pub const BACKGROUND_POLLS: u32 = 20;

/// What is done in one round of the wait for a daemon that was started in the background.
#[derive(Clone, PartialEq, Eq, Debug)]
pub enum BackgroundStep {
    /// Look again later.
    Wait,
    /// The command is done and says this.
    Told { line: String },
    /// The command has failed.
    Failed { message: String },
}

/// A line that tells of a daemon and its socket.
pub open spec fn background_line(head: Seq<char>, pid: u32, socket: Seq<char>) -> Seq<char> {
    head + " in background (pid "@ + text::decimal(pid as nat) + ", socket "@ + socket + ")"@
}

fn told_of_background(head: &str, pid: u32, socket: &str) -> (line: String)
    ensures
        line@ == background_line(head@, pid, socket@),
{
    let id = decimal_text(pid as u64);
    let mut line = join5(head, " in background (pid ", id.as_str(), ", socket ", socket);
    line.append(")");
    line
}

/// Decides on one round of the wait for a daemon that was started in the background. `exited` is
/// the status with which it has ended, if it has. The command does not wait longer than for a
/// number of rounds, and does not fail where the daemon needs more time.
pub fn run_start_background(
    attempt: u32,
    exited: Option<&str>,
    ready: bool,
    pid: u32,
    socket: &str,
) -> (step: BackgroundStep)
    ensures
        if attempt >= BACKGROUND_POLLS {
            step matches BackgroundStep::Told { line } && line@ == background_line(
                "cued is starting"@,
                pid,
                socket@,
            )
        } else {
            match exited {
                Some(status) => step matches BackgroundStep::Failed { message } && message@
                    == "background cued exited early with status "@ + status@,
                None => if ready {
                    step matches BackgroundStep::Told { line } && line@ == background_line(
                        "cued started"@,
                        pid,
                        socket@,
                    )
                } else {
                    step == BackgroundStep::Wait
                },
            }
        },
{
    if attempt >= BACKGROUND_POLLS {
        return BackgroundStep::Told { line: told_of_background("cued is starting", pid, socket) };
    }
    match exited {
        Some(status) => BackgroundStep::Failed {
            message: join2("background cued exited early with status ", status),
        },
        None => if ready {
            BackgroundStep::Told { line: told_of_background("cued started", pid, socket) }
        } else {
            BackgroundStep::Wait
        },
    }
}

/// A step occurs exactly once.
pub open spec fn occurs_once(steps: Seq<RestartCommandStep>, step: RestartCommandStep) -> bool {
    exists|i: int|
        0 <= i < steps.len() && #[trigger] steps[i] == step && forall|j: int|
            0 <= j < steps.len() && #[trigger] steps[j] == step ==> j == i
}

/// A restart from the command line that is not refused brings exactly one daemon up again. One that
/// answers is asked once to restart itself, and none is started beside it. Otherwise exactly one is
/// started, after a cancelled restart was cleared: by the service manager where that has charge of
/// the default daemon, and in the background everywhere else.
pub proof fn restart_brings_one_daemon_up(
    responding: bool,
    pid_state: PidFileState,
    service_installed: bool,
    has_socket_override: bool,
    socket_is_default: bool,
    wait: bool,
    socket: &str,
    result: Result<Vec<RestartCommandStep>, String>,
)
    requires
        call_ensures(
            run_restart,
            (
                responding,
                pid_state,
                service_installed,
                has_socket_override,
                socket_is_default,
                wait,
                socket,
            ),
            result,
        ),
    ensures
        result is Err <==> !responding && pid_state is Running,
        result matches Ok(steps) ==> (responding ==> {
            &&& occurs_once(steps@, RestartCommandStep::RequestGracefulRestart)
            &&& !steps@.contains(RestartCommandStep::RestartService)
            &&& !steps@.contains(RestartCommandStep::RunBackground)
            &&& !steps@.contains(RestartCommandStep::ClearCancelledUnderLock)
        }),
        result matches Ok(steps) ==> (!responding ==> {
            let managed = service_installed && !has_socket_override && socket_is_default;
            &&& !steps@.contains(RestartCommandStep::RequestGracefulRestart)
            &&& steps@.first() == RestartCommandStep::ClearCancelledUnderLock
            &&& managed ==> occurs_once(steps@, RestartCommandStep::RestartService)
                && !steps@.contains(RestartCommandStep::RunBackground)
            &&& !managed ==> occurs_once(steps@, RestartCommandStep::RunBackground)
                && !steps@.contains(RestartCommandStep::RestartService)
        }),
{
    if let Ok(steps) = result {
        if responding {
            assert(steps@[0] == RestartCommandStep::RequestGracefulRestart);
        } else {
            assert(steps@[1] == RestartCommandStep::RestartService || steps@[1]
                == RestartCommandStep::RunBackground);
        }
    }
}

/// Waiting adds one step at the end and changes nothing else: the wait for the successor of the
/// daemon that was asked, or for the daemon that was started.
pub proof fn waiting_only_adds_a_wait(
    responding: bool,
    pid_state: PidFileState,
    service_installed: bool,
    has_socket_override: bool,
    socket_is_default: bool,
    socket: &str,
    plain: Result<Vec<RestartCommandStep>, String>,
    waiting: Result<Vec<RestartCommandStep>, String>,
)
    requires
        call_ensures(
            run_restart,
            (
                responding,
                pid_state,
                service_installed,
                has_socket_override,
                socket_is_default,
                false,
                socket,
            ),
            plain,
        ),
        call_ensures(
            run_restart,
            (
                responding,
                pid_state,
                service_installed,
                has_socket_override,
                socket_is_default,
                true,
                socket,
            ),
            waiting,
        ),
    ensures
        plain is Ok <==> waiting is Ok,
        plain is Ok ==> waiting->Ok_0@ == plain->Ok_0@.push(
            if responding {
                RestartCommandStep::WaitForSuccessor
            } else {
                RestartCommandStep::WaitUntilReady
            },
        ),
        plain is Ok ==> !plain->Ok_0@.contains(RestartCommandStep::WaitForSuccessor)
            && !plain->Ok_0@.contains(RestartCommandStep::WaitUntilReady),
{
    if plain is Ok {
        assert(waiting->Ok_0@ =~= plain->Ok_0@.push(
            if responding {
                RestartCommandStep::WaitForSuccessor
            } else {
                RestartCommandStep::WaitUntilReady
            },
        ));
    }
}

/// A start ends with the one step that brings the daemon up: in the foreground or in the background
/// as asked, or by the service manager where a forced start meets a daemon that it has charge of.
/// Without force nothing that runs is touched; with force a restart on record is stopped first, and
/// a running daemon does not make the command fail.
pub proof fn start_ends_with_one_daemon(
    fg: bool,
    force: bool,
    preserve_restart_fence: bool,
    has_socket_override: bool,
    restart_recorded: bool,
    service_installed: bool,
    steps: Vec<StartStep>,
    i: int,
)
    requires
        call_ensures(
            run_start,
            (
                fg,
                force,
                preserve_restart_fence,
                has_socket_override,
                restart_recorded,
                service_installed,
            ),
            steps,
        ),
        0 <= i < steps@.len() - 1,
    ensures
        ({
            let managed = force && service_installed && !has_socket_override;
            &&& managed ==> steps@.last() == StartStep::RestartService && steps@[steps@.len() - 2]
                == StartStep::WaitAndClearCancelled
            &&& !managed && fg ==> steps@.last() == (StartStep::RunForeground {
                clear_cancelled: !preserve_restart_fence,
            })
            &&& !managed && !fg ==> steps@.last() == StartStep::RunBackground
                && steps@[steps@.len() - 2] == StartStep::ClearCancelled
        }),
        !(steps@[i] is RestartService) && !(steps@[i] is RunForeground) && !(steps@[i]
            is RunBackground),
        !force ==> steps@[0] == StartStep::RequireSilentSocket,
        !force ==> !(steps@[i] is Stop) && !(steps@[i] is ForceStop) && !(steps@[i]
            is WaitAndClearCancelled),
        force ==> !(steps@[i] is RequireSilentSocket),
        force ==> (steps@[0] is Stop <==> restart_recorded),
        i > 0 ==> !(steps@[i] is Stop),
        force && !(service_installed && !has_socket_override) ==> steps@.contains(
            StartStep::ForceStop,
        ),
{
    let at: int = if restart_recorded {
        1
    } else {
        0
    };
    if force && !(service_installed && !has_socket_override) {
        assert(steps@[at] == StartStep::ForceStop);
    }
}

/// The service manager is counted on for a restart only where it runs this very process on the
/// default socket. On any other socket the daemon restarts itself, whatever is known of the service
/// manager; on the default one nothing is guessed.
pub proof fn only_the_managed_daemon_is_restarted_by_its_manager(
    socket_path: &Vec<u8>,
    default_socket_path: &Vec<u8>,
    ownership: CurrentProcessOwnership,
    result: RestartOwnership,
)
    requires
        call_ensures(restart_ownership, (socket_path, default_socket_path, ownership), result),
    ensures
        result == RestartOwnership::Supervisor <==> paths::names_same_path(
            socket_path@,
            default_socket_path@,
        ) && ownership == CurrentProcessOwnership::Managed,
        result == RestartOwnership::Unknown <==> paths::names_same_path(
            socket_path@,
            default_socket_path@,
        ) && ownership == CurrentProcessOwnership::Unknown,
{
}

/// A drained daemon ends with an exit code that makes its service manager start it again exactly
/// where that is to carry out the restart; every other end counts as a normal one.
pub proof fn exit_code_tells_a_planned_restart(
    supervisor_restart: bool,
    exit: DaemonExit,
    code: i32,
    stopped: i32,
)
    requires
        call_ensures(completed_restart_exit, (supervisor_restart,), exit),
        call_ensures(DaemonExit::code, (exit,), code),
        call_ensures(DaemonExit::code, (DaemonExit::Stopped,), stopped),
    ensures
        stopped == 0,
        code == 75 <==> supervisor_restart,
        code == 0 <==> !supervisor_restart,
{
}

/// A daemon in the foreground does not start exactly where a restart was cancelled and is not to be
/// forgotten. Otherwise it starts as the successor of the restart on record, if that was not
/// cancelled. The record is removed only where a cancelled restart is forgotten.
pub proof fn cancelled_restart_keeps_the_daemon_down(
    restart: Option<RestartRecord>,
    clear_cancelled: bool,
    result: (ForegroundStartup, RecordWrite),
)
    requires
        call_ensures(prepare_foreground_startup, (restart, clear_cancelled), result),
    ensures
        ({
            let cancelled = restart matches Some(record) && record.phase == RestartPhase::Cancelled;
            &&& result.0 is SuppressedByCancellation <==> cancelled && !clear_cancelled
            &&& result.1 is Remove <==> cancelled && clear_cancelled
            &&& !(result.1 is Write)
            &&& !cancelled ==> result.0 == ForegroundStartup::Start(restart)
            &&& cancelled && clear_cancelled ==> result.0 == ForegroundStartup::Start(None)
        }),
{
}

/// A daemon that is told to stop stops for good, at any time, and takes a restart that is under way
/// back. A restart makes it drain once, and ends it only when the work is done; that end leaves the
/// restart in force.
pub proof fn stop_wins_over_restart(
    draining: bool,
    event: ExitEvent,
    supervisor_restart: bool,
    step: ExitStep,
)
    requires
        call_ensures(exit_step, (draining, event, supervisor_restart), step),
    ensures
        event == ExitEvent::SigTerm || event == ExitEvent::SigInt || event == ExitEvent::FailStop
            ==> (step matches ExitStep::ShutDown { exit, cancel_restart, .. } && exit
            == DaemonExit::Stopped && cancel_restart),
        event == ExitEvent::RestartAccepted ==> (step is Drain <==> !draining) && (step is Ignore
            <==> draining),
        event == ExitEvent::HandoffReady ==> (step is ShutDown <==> draining) && (step is Ignore
            <==> !draining),
        event == ExitEvent::HandoffReady && draining ==> (step matches ExitStep::ShutDown {
            exit,
            cancel_restart,
            ..
        } && !cancel_restart && (exit == DaemonExit::PlannedRestart <==> supervisor_restart)),
        step matches ExitStep::ShutDown { reason, .. } ==> reason == match event {
            ExitEvent::SigTerm => "SIGTERM",
            ExitEvent::SigInt => "SIGINT",
            ExitEvent::FailStop => "restart fail-stop",
            _ => "restart",
        },
{
}

/// A successor goes through its stages in order, one at a time. Where a stage fails it ends so that
/// its service manager tries again, if that carries out the restart; where the restart was cancelled
/// it ends for good. What does not belong to a stage changes nothing.
pub proof fn takeover_goes_in_order(
    stage: TakeoverStage,
    event: TakeoverEvent,
    supervisor_restart: bool,
    step: TakeoverStep,
)
    requires
        call_ensures(finalize_startup_restart, (stage, event, supervisor_restart), step),
    ensures
        step matches TakeoverStep::Go { stage: next } ==> next == TakeoverStage::Activate && stage
            == TakeoverStage::Probe || next == TakeoverStage::Commit && stage
            == TakeoverStage::Activate,
        step is MarkCompleted ==> stage == TakeoverStage::Commit && event is Committed,
        step is Done ==> stage == TakeoverStage::AwaitExecution && event
            == (TakeoverEvent::Executing { ready: true }),
        step matches TakeoverStep::ShutDown { exit, .. } ==> (exit == DaemonExit::PlannedRestart
            <==> supervisor_restart && !(event is Committed)),
        step is Ignore <==> !(stage == TakeoverStage::Probe && event is Probed || stage
            == TakeoverStage::Activate && event is Activated || stage == TakeoverStage::Commit
            && event is Committed || stage == TakeoverStage::AwaitExecution && event is Executing),
        stage == TakeoverStage::Probe && event is Probed ==> (step is Go <==> event->exact),
        stage == TakeoverStage::Activate && event is Activated ==> (step is Go <==> event->armed),
        stage == TakeoverStage::AwaitExecution && event is Executing ==> (step is Done
            <==> event->ready),
        stage == TakeoverStage::Commit && event is Committed ==> (step is ShutDown
            <==> event->completion == RestartCompletion::CancelledOrReplaced),
{
}

/// A stop succeeds exactly when the daemon's lock is free, however late that is. It gives up exactly
/// at its deadline while the lock is held, and before that asks the daemon until it was asked.
pub proof fn stop_ends_with_the_lock(
    wait: &StopWait,
    lock_error: Option<&str>,
    now: u64,
    deadline: u64,
    timeout_millis: u64,
    lock: &str,
    step: StopStep,
)
    requires
        call_ensures(
            StopWait::lock_tried,
            (wait, lock_error, now, deadline, timeout_millis, lock),
            step,
        ),
    ensures
        step is Stopped <==> lock_error is None,
        step is TimedOut <==> lock_error is Some && now >= deadline,
        step is RequestShutdown <==> lock_error is Some && now < deadline
            && !wait.shutdown_requested,
        step is Sleep <==> lock_error is Some && now < deadline && wait.shutdown_requested,
        step matches StopStep::Stopped { told } ==> told == if wait.shutdown_requested {
            "cued: daemon stopped"
        } else {
            "cued: no active daemon; restart handoff durably cancelled"
        },
{
}

/// The daemon counts as asked from the first request that reached it on, and only from then on. A
/// failed attempt leaves a reason behind, and never takes a request back.
pub proof fn daemon_is_asked_until_it_was_reached(
    wait: &mut StopWait,
    attempt: ShutdownAttempt,
    socket: &str,
)
    requires
        call_ensures(StopWait::shutdown_tried, (wait, attempt, socket), ()),
    ensures
        old(wait).shutdown_requested ==> final(wait).shutdown_requested,
        final(wait).shutdown_requested && !old(wait).shutdown_requested ==> attempt is Requested,
        attempt is Requested ==> final(wait).shutdown_requested && final(wait).last_socket_error
            == old(wait).last_socket_error,
        !(attempt is Requested) ==> final(wait).last_socket_error is Some,
        attempt matches ShutdownAttempt::Failed { error } ==> final(wait).last_socket_error == Some(
            error,
        ),
{
}

/// A stop sleeps at most 50 milliseconds at a time, and never beyond its deadline: a shorter sleep
/// ends exactly there.
pub proof fn stop_never_sleeps_beyond_its_deadline(now: u64, deadline: u64, delay: u64)
    requires
        call_ensures(stop_poll_delay, (now, deadline), delay),
    ensures
        delay <= 50,
        now < deadline ==> 0 < delay && now + delay <= deadline,
        now >= deadline ==> delay == 0,
        now < deadline && delay < 50 ==> now + delay == deadline,
{
}

/// A cancelled restart is cleared exactly under the daemon's lock, and the command gives up exactly
/// where the lock is not free at the deadline.
pub proof fn cancelled_restart_is_cleared_under_the_lock(
    locked: bool,
    now: u64,
    deadline: u64,
    timeout_seconds: u64,
    lock: &str,
    step: ClearStep,
)
    requires
        call_ensures(
            wait_and_clear_cancelled_restart,
            (locked, now, deadline, timeout_seconds, lock),
            step,
        ),
    ensures
        step is Clear <==> locked,
        step is GiveUp <==> !locked && now >= deadline,
        step is Wait <==> !locked && now < deadline,
{
}

/// A start in the background waits while its daemon neither ended nor is ready, for twenty rounds
/// and no more. It fails exactly where the daemon ended within them; a daemon that ended is never
/// told of as started.
pub proof fn background_start_waits_twenty_rounds(
    attempt: u32,
    exited: Option<&str>,
    ready: bool,
    pid: u32,
    socket: &str,
    step: BackgroundStep,
)
    requires
        call_ensures(run_start_background, (attempt, exited, ready, pid, socket), step),
    ensures
        step is Wait <==> attempt < 20 && exited is None && !ready,
        step is Failed <==> attempt < 20 && exited is Some,
        step is Told <==> attempt >= 20 || exited is None && ready,
{
}

/// How long the commands wait.
pub proof fn stop_waits_five_seconds()
    ensures
        STOP_WAIT_TIMEOUT_MILLIS == 100 * STOP_POLL_INTERVAL_MILLIS,
        STOP_WAIT_TIMEOUT_MILLIS == 5 * 1000,
{
}

} // verus!
