//! How the daemon's actors are started and stopped together.
use crate::text::join2;
use vstd::prelude::*;

verus! {

/// How many messages an actor's queue holds.
pub const ACTOR_CHANNEL_CAP: usize = 256;

#[derive(Clone, Copy, PartialEq, Eq, Structural, Debug)]
pub enum Actor {
    Gateway,
    Scheduler,
    ProcessMgr,
    ScopeStore,
    EventBus,
}

/// One step of stopping the daemon.
#[derive(Clone, PartialEq, Eq, Debug)]
pub enum ShutdownStep {
    /// Tell the clients.
    Announce { reason: String },
    /// Tell an actor to stop.
    Stop { actor: Actor },
}

/// One step of stopping the daemon, as values.
pub enum ShutdownView {
    Announce { reason: Seq<char> },
    Stop { actor: Actor },
}

impl View for ShutdownStep {
    type V = ShutdownView;

    open spec fn view(&self) -> ShutdownView {
        match self {
            ShutdownStep::Announce { reason } => ShutdownView::Announce { reason: reason@ },
            ShutdownStep::Stop { actor } => ShutdownView::Stop { actor: *actor },
        }
    }
}

/// Steps, as values.
pub open spec fn step_views(steps: Seq<ShutdownStep>) -> Seq<ShutdownView> {
    steps.map_values(|step: ShutdownStep| step@)
}

/// Clients are told first; the event bus, which tells them, stops last.
pub open spec fn shutdown_steps(reason: Seq<char>) -> Seq<ShutdownView> {
    seq![
        ShutdownView::Announce { reason },
        ShutdownView::Stop { actor: Actor::Gateway },
        ShutdownView::Stop { actor: Actor::Scheduler },
        ShutdownView::Stop { actor: Actor::ProcessMgr },
        ShutdownView::Stop { actor: Actor::ScopeStore },
        ShutdownView::Stop { actor: Actor::EventBus },
    ]
}

/// The steps that stop the daemon.
pub fn shutdown_with_reason(reason: String) -> (steps: Vec<ShutdownStep>)
    ensures
        step_views(steps@) == shutdown_steps(reason@),
{
    let ghost told = reason@;
    let mut steps: Vec<ShutdownStep> = Vec::new();
    steps.push(ShutdownStep::Announce { reason });
    steps.push(ShutdownStep::Stop { actor: Actor::Gateway });
    steps.push(ShutdownStep::Stop { actor: Actor::Scheduler });
    steps.push(ShutdownStep::Stop { actor: Actor::ProcessMgr });
    steps.push(ShutdownStep::Stop { actor: Actor::ScopeStore });
    steps.push(ShutdownStep::Stop { actor: Actor::EventBus });
    assert(step_views(steps@) =~= shutdown_steps(told));
    steps
}

/// The steps that stop the daemon when no other reason is given.
pub fn shutdown() -> (steps: Vec<ShutdownStep>)
    ensures
        step_views(steps@) == shutdown_steps("shutdown requested"@),
{
    shutdown_with_reason("shutdown requested".to_owned())
}

/// The actor whose start failed.
#[derive(Clone, Copy, PartialEq, Eq, Structural, Debug)]
pub enum StartFailure {
    /// No other actor has started yet.
    ScopeStore,
    /// The scope store, the event bus and the process manager run.
    Scheduler,
    /// All others run.
    Gateway,
}

/// What is undone after a failed start.
pub open spec fn unwinding(failure: StartFailure) -> Seq<ShutdownView> {
    match failure {
        StartFailure::ScopeStore => Seq::empty(),
        StartFailure::Scheduler => seq![
            ShutdownView::Stop { actor: Actor::ScopeStore },
            ShutdownView::Stop { actor: Actor::ProcessMgr },
            ShutdownView::Stop { actor: Actor::EventBus },
        ],
        StartFailure::Gateway => shutdown_steps("shutdown requested"@),
    }
}

/// What is reported of a failed start.
pub open spec fn start_error(failure: StartFailure, error: Seq<char>) -> Seq<char> {
    match failure {
        StartFailure::Scheduler => "initialize scheduler: "@ + error,
        _ => error,
    }
}

/// What is undone after a failed start, and what is reported of it.
pub fn unwind_start(failure: StartFailure, error: &str) -> (result: (Vec<ShutdownStep>, String))
    ensures
        step_views(result.0@) == unwinding(failure),
        result.1@ == start_error(failure, error@),
{
    match failure {
        StartFailure::ScopeStore => {
            let steps: Vec<ShutdownStep> = Vec::new();
            assert(step_views(steps@) =~= Seq::<ShutdownView>::empty());
            (steps, error.to_owned())
        },
        StartFailure::Scheduler => {
            let mut steps: Vec<ShutdownStep> = Vec::new();
            steps.push(ShutdownStep::Stop { actor: Actor::ScopeStore });
            steps.push(ShutdownStep::Stop { actor: Actor::ProcessMgr });
            steps.push(ShutdownStep::Stop { actor: Actor::EventBus });
            assert(step_views(steps@) =~= unwinding(failure));
            (steps, join2("initialize scheduler: ", error))
        },
        StartFailure::Gateway => (shutdown(), error.to_owned()),
    }
}

/// Whoever is to be told hears of the end before the event bus, which tells them, stops.
pub proof fn clients_hear_of_the_end_first(reason: Seq<char>)
    ensures
        shutdown_steps(reason).first() == (ShutdownView::Announce { reason }),
        shutdown_steps(reason).last() == (ShutdownView::Stop { actor: Actor::EventBus }),
        shutdown_steps(reason).no_duplicates(),
{
}

/// Every actor is stopped exactly once, whatever the reason. What takes requests stops before what
/// carries them out, and the scheduler before the process manager and the scopes that it uses.
pub proof fn every_actor_is_stopped_in_order(reason: String, steps: Vec<ShutdownStep>, actor: Actor)
    requires
        call_ensures(shutdown_with_reason, (reason,), steps),
    ensures
        step_views(steps@).len() == 6,
        step_views(steps@).contains(ShutdownView::Stop { actor }),
        step_views(steps@).no_duplicates(),
        step_views(steps@)[0] == (ShutdownView::Announce { reason: reason@ }),
        forall|i: int, j: int|
            0 <= i < 6 && 0 <= j < 6 && #[trigger] step_views(steps@)[i] == (ShutdownView::Stop {
                actor: Actor::Gateway,
            }) && j != i && #[trigger] step_views(steps@)[j] is Stop ==> i < j,
        forall|i: int, j: int|
            0 <= i < 6 && 0 <= j < 6 && #[trigger] step_views(steps@)[i] == (ShutdownView::Stop {
                actor: Actor::Scheduler,
            }) && (#[trigger] step_views(steps@)[j] == (ShutdownView::Stop {
                actor: Actor::ProcessMgr,
            }) || step_views(steps@)[j] == (ShutdownView::Stop { actor: Actor::ScopeStore })) ==> i
                < j,
        forall|j: int|
            0 <= j < 6 && #[trigger] step_views(steps@)[j] == (ShutdownView::Stop {
                actor: Actor::EventBus,
            }) ==> j == 5,
{
    let views = step_views(steps@);
    assert(views[1] == (ShutdownView::Stop { actor: Actor::Gateway }));
    assert(views[2] == (ShutdownView::Stop { actor: Actor::Scheduler }));
    assert(views[3] == (ShutdownView::Stop { actor: Actor::ProcessMgr }));
    assert(views[4] == (ShutdownView::Stop { actor: Actor::ScopeStore }));
    assert(views[5] == (ShutdownView::Stop { actor: Actor::EventBus }));
}

/// A failed start stops exactly what had started: nothing before the scope store runs, everything but
/// the gateway and the scheduler where the scheduler failed, and all of it where the gateway did.
pub proof fn failed_start_leaves_nothing_running(
    failure: StartFailure,
    error: &str,
    result: (Vec<ShutdownStep>, String),
    actor: Actor,
)
    requires
        call_ensures(unwind_start, (failure, error), result),
    ensures
        step_views(result.0@).contains(ShutdownView::Stop { actor }) <==> match failure {
            StartFailure::ScopeStore => false,
            StartFailure::Scheduler => actor == Actor::ScopeStore || actor == Actor::ProcessMgr
                || actor == Actor::EventBus,
            StartFailure::Gateway => true,
        },
        error@.is_suffix_of(result.1@),
        failure != StartFailure::Scheduler ==> result.1@ == error@,
{
    let views = step_views(result.0@);
    if failure == StartFailure::Scheduler {
        assert(views[0] == (ShutdownView::Stop { actor: Actor::ScopeStore }));
        assert(views[1] == (ShutdownView::Stop { actor: Actor::ProcessMgr }));
        assert(views[2] == (ShutdownView::Stop { actor: Actor::EventBus }));
    } else if failure == StartFailure::Gateway {
        assert(views[1] == (ShutdownView::Stop { actor: Actor::Gateway }));
        assert(views[2] == (ShutdownView::Stop { actor: Actor::Scheduler }));
        assert(views[3] == (ShutdownView::Stop { actor: Actor::ProcessMgr }));
        assert(views[4] == (ShutdownView::Stop { actor: Actor::ScopeStore }));
        assert(views[5] == (ShutdownView::Stop { actor: Actor::EventBus }));
    }
    assert(result.1@.subrange(result.1@.len() - error@.len(), result.1@.len() as int) =~= error@);
}

} // verus!
