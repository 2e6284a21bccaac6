//! What the daemon does with a request.
use crate::client_events;
use crate::client_events::{
    begin_client_event_fence, begin_client_event_hold_fence, ClientEventFence,
    ClientEventFencePolicy, ClientEventState,
};
use crate::config;
use crate::config::AliasConfig;
use crate::digest;
use crate::digest::Digest;
use crate::ipc;
use crate::ipc::{ErrorCode, ForegroundRole, OkPayload, ResponsePayload};
use crate::lifecycle::{DaemonLifecycle, LifecycleState, RestartTicket};
use crate::operation_ledger;
use crate::operation_ledger::OperationLedger;
use crate::ordered_map::OrderedMap;
use crate::syntax_hints;
use crate::syntax_hints::syntax_error_message;
use crate::text;
use crate::text::join3;
use vstd::prelude::*;

verus! {

/// How an input is read, by the number that the protocol gives to the mode.
#[derive(Clone, Copy, PartialEq, Eq, Structural, Debug)]
pub struct Mode {
    pub number: u8,
}

/// A request of a client.
#[derive(Debug)]
#[allow(inconsistent_fields)]
pub enum RequestPayload {
    Handshake { session_id: String, cwd: String, env: OrderedMap<String>, refresh: bool },
    CreateSession { name: String },
    ListSessions,
    ListArchivedSessions,
    ListAllSessions,
    ArchiveSession { selector: String },
    RestoreSession { selector: String },
    AttachSession { selector: String, refresh: bool },
    SessionInfo { selector: Option<String> },
    Eval { input: String, mode: Mode },
    RunScript { path: String, input: String },
    ListJobs { limit: Option<u64> },
    ListCrons { limit: Option<u64> },
    ListScopes { limit: Option<u64> },
    ScriptInfo { id: String },
    ShowLog { id: String, limit: Option<u64>, tail_bytes: Option<u64> },
    JobOutput { id: String, stdout_bytes: u64, stderr_bytes: u64 },
    KillJob { id: String },
    CancelExecution { id: String },
    RemoveCron { id: String },
    ShowEnv { tail_bytes: Option<u64> },
    ShowConfig { tail_bytes: Option<u64> },
    Subscribe { channels: Vec<String> },
    Unsubscribe { channels: Vec<String> },
    FgAttach { id: String },
    FgWatch { id: String },
    FgClaimControl,
    FgReleaseControl,
    FgDetach,
    FgInput { data: Vec<u8> },
    FgResize { cols: u16, rows: u16 },
    Complete { input: String, cursor: usize },
    Highlight { input: String },
    Ping,
    Restart,
    Shutdown,
}

/// Where a script comes from.
#[derive(Debug)]
pub enum ScriptSource {
    Inline,
    File { path: String },
}

/// A command that the scheduler evaluates. What only the scheduler reads of it is kept under a
/// number.
#[derive(Debug)]
pub enum ResolvedCommand {
    Fg { id: String, role: ForegroundRole },
    Script { source: ScriptSource, items: Vec<ResolvedCommand>, plan: u64 },
    Run { plan: u64 },
    Cron { plan: u64 },
    Retry { plan: u64 },
    Resume { plan: u64 },
    ListJobs { limit: Option<u64> },
    ListCrons { limit: Option<u64> },
    ListScopes { limit: Option<u64> },
    ShowLog { id: String, limit: Option<u64>, tail_bytes: Option<u64> },
    JobOutput { id: String, stdout_bytes: u64, stderr_bytes: u64 },
    KillJob { id: String },
    CancelExecution { id: String },
    RemoveCron { id: String },
    ShowEnv { tail_bytes: Option<u64> },
    ShowConfig { tail_bytes: Option<u64> },
    Other { plan: u64 },
}

/// A command on named sessions.
#[derive(Debug)]
#[allow(inconsistent_fields)]
pub enum SessionCommand {
    Create { name: String },
    List,
    ListArchived,
    ListAll,
    Archive { selector: String },
    Restore { selector: String },
    Attach { selector: String, refresh: bool },
    Info { selector: Option<String> },
}

/// The request has effects beyond its connection, so that it may be given an identity.
pub open spec fn has_side_effect(payload: RequestPayload) -> bool {
    match payload {
        RequestPayload::Eval { .. } => true,
        RequestPayload::RunScript { .. } => true,
        RequestPayload::KillJob { .. } => true,
        RequestPayload::CancelExecution { .. } => true,
        RequestPayload::RemoveCron { .. } => true,
        RequestPayload::ArchiveSession { .. } => true,
        RequestPayload::RestoreSession { .. } => true,
        RequestPayload::Restart => true,
        RequestPayload::Shutdown => true,
        _ => false,
    }
}

/// Whether a request has effects beyond its connection.
pub fn is_side_effecting_request(payload: &RequestPayload) -> (result: bool)
    ensures
        result == has_side_effect(*payload),
{
    match payload {
        RequestPayload::Eval { .. } => true,
        RequestPayload::RunScript { .. } => true,
        RequestPayload::KillJob { .. } => true,
        RequestPayload::CancelExecution { .. } => true,
        RequestPayload::RemoveCron { .. } => true,
        RequestPayload::ArchiveSession { .. } => true,
        RequestPayload::RestoreSession { .. } => true,
        RequestPayload::Restart => true,
        RequestPayload::Shutdown => true,
        _ => false,
    }
}

/// The command starts work.
pub open spec fn starts_work(command: ResolvedCommand) -> bool {
    ||| command is Script
    ||| command is Run
    ||| command is Cron
    ||| command is Retry
    ||| command is Resume
}

/// Whether a command starts work.
pub fn command_starts_execution(command: &ResolvedCommand) -> (result: bool)
    ensures
        result == starts_work(*command),
{
    match command {
        ResolvedCommand::Script { .. } => true,
        ResolvedCommand::Run { .. } => true,
        ResolvedCommand::Cron { .. } => true,
        ResolvedCommand::Retry { .. } => true,
        ResolvedCommand::Resume { .. } => true,
        _ => false,
    }
}

/// The command attaches a connection to a job, by itself or somewhere in a script.
pub open spec fn has_foreground(command: ResolvedCommand) -> bool
    decreases command,
{
    match command {
        ResolvedCommand::Fg { .. } => true,
        ResolvedCommand::Script { items, .. } => exists|i: int|
            0 <= i < items@.len() && has_foreground(#[trigger] items@[i]),
        _ => false,
    }
}

/// Whether a command attaches a connection to a job, by itself or somewhere in a script.
pub fn command_contains_connection_local_foreground(command: &ResolvedCommand) -> (result: bool)
    ensures
        result == has_foreground(*command),
    decreases command,
{
    match command {
        ResolvedCommand::Fg { .. } => true,
        ResolvedCommand::Script { items, .. } => {
            for i in 0..items.len()
                invariant
                    forall|j: int| 0 <= j < i ==> !has_foreground(#[trigger] items@[j]),
                    command matches ResolvedCommand::Script { items: of_command, .. } && *items
                        == of_command,
            {
                if command_contains_connection_local_foreground(&items[i]) {
                    return true;
                }
            }
            false
        },
        _ => false,
    }
}

/// What is said while no work is accepted.
pub open spec fn is_draining_response(response: ResponsePayload) -> bool {
    ipc::refuses(
        response,
        ErrorCode::DaemonDraining,
        "daemon startup/restart handoff is in progress; new execution admission is closed"@,
    )
}

/// The reply while no work is accepted.
pub fn draining_response() -> (response: ResponsePayload)
    ensures
        is_draining_response(response),
{
    ResponsePayload::err(
        ErrorCode::DaemonDraining,
        "daemon startup/restart handoff is in progress; new execution admission is closed",
    )
}

/// What is said to a script that was typed in.
pub open spec fn is_inline_script_response(response: ResponsePayload) -> bool {
    ipc::refuses(
        response,
        ErrorCode::NotSupported,
        "interactive multiline script submissions have been removed; write the items to a .cue file and run `cue run path/to/file.cue`"@,
    )
}

/// The reply to a script that was typed in.
pub fn inline_script_disabled_response() -> (response: ResponsePayload)
    ensures
        is_inline_script_response(response),
{
    ResponsePayload::err(
        ErrorCode::NotSupported,
        "interactive multiline script submissions have been removed; write the items to a .cue file and run `cue run path/to/file.cue`",
    )
}

/// What has to be done next for a request.
#[derive(Debug)]
pub enum RouteStep {
    /// Send this reply.
    Respond(ResponsePayload),
    /// Bind the connection to a session; goes on with the scheduler's reply.
    Connect { session_id: String, cwd: String, env: OrderedMap<String>, refresh: bool },
    /// Hand a session command to the scheduler; goes on with its reply.
    Session(SessionCommand),
    /// Parse an input; goes on with the command.
    ParseCommand { input: String, mode: Mode },
    /// Parse a script; goes on with the command.
    ParseScript { path: String, input: String },
    /// Hand a command to the scheduler, which replies.
    Eval(ResolvedCommand),
    /// Ask the scheduler for a script, which replies.
    ScriptInfo { id: String },
    /// Parse the names of channels; goes on with the channels.
    ParseChannels { channels: Vec<String>, subscribe: bool },
    /// Ask for the control of the foreground; goes on with the process manager's reply.
    ClaimControl,
    /// Give up the control of the foreground; goes on with the process manager's reply.
    ReleaseControl,
    /// Detach the connection for the given reason, and then acknowledge.
    DetachForeground { reason: &'static str },
    /// Send input to the foreground; goes on with the process manager's reply.
    ForegroundInput { data: Vec<u8> },
    /// Resize the foreground; goes on with the process manager's reply.
    ForegroundResize { cols: u16, rows: u16 },
    /// Reply with completions.
    Complete { input: String, cursor: usize },
    /// Reply with highlights.
    Highlight { input: String },
    /// Reply with what the daemon is.
    Ping { ready: bool },
    /// Prepare a restart; goes on with its ticket.
    RequestRestart,
    /// Cancel any restart durably, acknowledge, and stop the daemon.
    Shutdown,
}

/// The request puts a reply before the events of its connection.
pub open spec fn holds_events(payload: RequestPayload) -> bool {
    ||| payload is FgAttach
    ||| payload is FgWatch
    ||| payload is FgClaimControl
    ||| payload is FgReleaseControl
}

/// The step that a request starts with.
pub open spec fn is_first_step(
    payload: RequestPayload,
    lifecycle: DaemonLifecycle,
    aliases: AliasConfig,
    step: RouteStep,
) -> bool {
    match payload {
        RequestPayload::Handshake { session_id, cwd, env, refresh } => step
            == RouteStep::Connect { session_id, cwd, env, refresh },
        RequestPayload::CreateSession { name } => step == RouteStep::Session(
            SessionCommand::Create { name },
        ),
        RequestPayload::ListSessions => step == RouteStep::Session(SessionCommand::List),
        RequestPayload::ListArchivedSessions => step == RouteStep::Session(
            SessionCommand::ListArchived,
        ),
        RequestPayload::ListAllSessions => step == RouteStep::Session(SessionCommand::ListAll),
        RequestPayload::ArchiveSession { selector } => step == RouteStep::Session(
            SessionCommand::Archive { selector },
        ),
        RequestPayload::RestoreSession { selector } => step == RouteStep::Session(
            SessionCommand::Restore { selector },
        ),
        RequestPayload::AttachSession { selector, refresh } => step == RouteStep::Session(
            SessionCommand::Attach { selector, refresh },
        ),
        RequestPayload::SessionInfo { selector } => step == RouteStep::Session(
            SessionCommand::Info { selector },
        ),
        RequestPayload::Eval { input, mode } => step matches RouteStep::ParseCommand {
            input: expanded,
            mode: kept,
        } && expanded@ == config::aliased(aliases.entries@, input@) && kept == mode,
        RequestPayload::RunScript { path, input } => if lifecycle.admission_closed() {
            step matches RouteStep::Respond(response) && is_draining_response(response)
        } else {
            step == RouteStep::ParseScript { path, input }
        },
        RequestPayload::ListJobs { limit } => step == RouteStep::Eval(
            ResolvedCommand::ListJobs { limit },
        ),
        RequestPayload::ListCrons { limit } => step == RouteStep::Eval(
            ResolvedCommand::ListCrons { limit },
        ),
        RequestPayload::ListScopes { limit } => step == RouteStep::Eval(
            ResolvedCommand::ListScopes { limit },
        ),
        RequestPayload::ScriptInfo { id } => step == RouteStep::ScriptInfo { id },
        RequestPayload::ShowLog { id, limit, tail_bytes } => step == RouteStep::Eval(
            ResolvedCommand::ShowLog { id, limit, tail_bytes },
        ),
        RequestPayload::JobOutput { id, stdout_bytes, stderr_bytes } => step == RouteStep::Eval(
            ResolvedCommand::JobOutput { id, stdout_bytes, stderr_bytes },
        ),
        RequestPayload::KillJob { id } => step == RouteStep::Eval(ResolvedCommand::KillJob { id }),
        RequestPayload::CancelExecution { id } => step == RouteStep::Eval(
            ResolvedCommand::CancelExecution { id },
        ),
        RequestPayload::RemoveCron { id } => step == RouteStep::Eval(
            ResolvedCommand::RemoveCron { id },
        ),
        RequestPayload::ShowEnv { tail_bytes } => step == RouteStep::Eval(
            ResolvedCommand::ShowEnv { tail_bytes },
        ),
        RequestPayload::ShowConfig { tail_bytes } => step == RouteStep::Eval(
            ResolvedCommand::ShowConfig { tail_bytes },
        ),
        RequestPayload::Subscribe { channels } => step == RouteStep::ParseChannels {
            channels,
            subscribe: true,
        },
        RequestPayload::Unsubscribe { channels } => step == RouteStep::ParseChannels {
            channels,
            subscribe: false,
        },
        RequestPayload::FgAttach { id } => step == RouteStep::Eval(
            ResolvedCommand::Fg { id, role: ForegroundRole::Controller },
        ),
        RequestPayload::FgWatch { id } => step == RouteStep::Eval(
            ResolvedCommand::Fg { id, role: ForegroundRole::Observer },
        ),
        RequestPayload::FgClaimControl => step is ClaimControl,
        RequestPayload::FgReleaseControl => step is ReleaseControl,
        RequestPayload::FgDetach => step == (RouteStep::DetachForeground { reason: "detached" }),
        RequestPayload::FgInput { data } => step == RouteStep::ForegroundInput { data },
        RequestPayload::FgResize { cols, rows } => step == RouteStep::ForegroundResize {
            cols,
            rows,
        },
        RequestPayload::Complete { input, cursor } => step == RouteStep::Complete { input, cursor },
        RequestPayload::Highlight { input } => step == RouteStep::Highlight { input },
        RequestPayload::Ping => step == RouteStep::Ping { ready: lifecycle.execution_ready },
        RequestPayload::Restart => if !lifecycle.execution_ready {
            step matches RouteStep::Respond(response) && is_draining_response(response)
        } else {
            step is RequestRestart
        },
        RequestPayload::Shutdown => step is Shutdown,
    }
}

/// Decides what a request starts with.
///
/// A request for the foreground holds the events of its connection back until its reply is
/// written. Scripts are refused while no work is accepted, and a restart while the daemon is not
/// ready itself.
pub fn route_request(
    payload: RequestPayload,
    request_id: u32,
    lifecycle: &DaemonLifecycle,
    aliases: &AliasConfig,
    events: &mut ClientEventState,
) -> (step: RouteStep)
    requires
        payload matches RequestPayload::Eval { input, .. } ==> config::alias_exempt(
            aliases.entries@,
            input@,
        ) || !config::reaches_wordless_alias(aliases.entries@, input@),
        holds_events(payload) ==> old(events).fence.is_none(),
    ensures
        is_first_step(payload, *lifecycle, *aliases, step),
        final(events).binding == old(events).binding,
        final(events).fence == if holds_events(payload) {
            Some(ClientEventFence { request_id, policy: ClientEventFencePolicy::HoldQueued })
        } else {
            old(events).fence
        },
{
    match payload {
        RequestPayload::Handshake { session_id, cwd, env, refresh } => RouteStep::Connect {
            session_id,
            cwd,
            env,
            refresh,
        },
        RequestPayload::CreateSession { name } => RouteStep::Session(
            SessionCommand::Create { name },
        ),
        RequestPayload::ListSessions => RouteStep::Session(SessionCommand::List),
        RequestPayload::ListArchivedSessions => RouteStep::Session(SessionCommand::ListArchived),
        RequestPayload::ListAllSessions => RouteStep::Session(SessionCommand::ListAll),
        RequestPayload::ArchiveSession { selector } => RouteStep::Session(
            SessionCommand::Archive { selector },
        ),
        RequestPayload::RestoreSession { selector } => RouteStep::Session(
            SessionCommand::Restore { selector },
        ),
        RequestPayload::AttachSession { selector, refresh } => RouteStep::Session(
            SessionCommand::Attach { selector, refresh },
        ),
        RequestPayload::SessionInfo { selector } => RouteStep::Session(
            SessionCommand::Info { selector },
        ),
        RequestPayload::Eval { input, mode } => RouteStep::ParseCommand {
            input: aliases.apply(input.as_str()),
            mode,
        },
        RequestPayload::RunScript { path, input } => if lifecycle.execution_admission_closed() {
            RouteStep::Respond(draining_response())
        } else {
            RouteStep::ParseScript { path, input }
        },
        RequestPayload::ListJobs { limit } => RouteStep::Eval(ResolvedCommand::ListJobs { limit }),
        RequestPayload::ListCrons { limit } => RouteStep::Eval(
            ResolvedCommand::ListCrons { limit },
        ),
        RequestPayload::ListScopes { limit } => RouteStep::Eval(
            ResolvedCommand::ListScopes { limit },
        ),
        RequestPayload::ScriptInfo { id } => RouteStep::ScriptInfo { id },
        RequestPayload::ShowLog { id, limit, tail_bytes } => RouteStep::Eval(
            ResolvedCommand::ShowLog { id, limit, tail_bytes },
        ),
        RequestPayload::JobOutput { id, stdout_bytes, stderr_bytes } => RouteStep::Eval(
            ResolvedCommand::JobOutput { id, stdout_bytes, stderr_bytes },
        ),
        RequestPayload::KillJob { id } => RouteStep::Eval(ResolvedCommand::KillJob { id }),
        RequestPayload::CancelExecution { id } => RouteStep::Eval(
            ResolvedCommand::CancelExecution { id },
        ),
        RequestPayload::RemoveCron { id } => RouteStep::Eval(ResolvedCommand::RemoveCron { id }),
        RequestPayload::ShowEnv { tail_bytes } => RouteStep::Eval(
            ResolvedCommand::ShowEnv { tail_bytes },
        ),
        RequestPayload::ShowConfig { tail_bytes } => RouteStep::Eval(
            ResolvedCommand::ShowConfig { tail_bytes },
        ),
        RequestPayload::Subscribe { channels } => RouteStep::ParseChannels {
            channels,
            subscribe: true,
        },
        RequestPayload::Unsubscribe { channels } => RouteStep::ParseChannels {
            channels,
            subscribe: false,
        },
        RequestPayload::FgAttach { id } => {
            begin_client_event_hold_fence(events, request_id);
            RouteStep::Eval(ResolvedCommand::Fg { id, role: ForegroundRole::Controller })
        },
        RequestPayload::FgWatch { id } => {
            begin_client_event_hold_fence(events, request_id);
            RouteStep::Eval(ResolvedCommand::Fg { id, role: ForegroundRole::Observer })
        },
        RequestPayload::FgClaimControl => {
            begin_client_event_hold_fence(events, request_id);
            RouteStep::ClaimControl
        },
        RequestPayload::FgReleaseControl => {
            begin_client_event_hold_fence(events, request_id);
            RouteStep::ReleaseControl
        },
        RequestPayload::FgDetach => RouteStep::DetachForeground { reason: "detached" },
        RequestPayload::FgInput { data } => RouteStep::ForegroundInput { data },
        RequestPayload::FgResize { cols, rows } => RouteStep::ForegroundResize { cols, rows },
        RequestPayload::Complete { input, cursor } => RouteStep::Complete { input, cursor },
        RequestPayload::Highlight { input } => RouteStep::Highlight { input },
        RequestPayload::Ping => RouteStep::Ping { ready: lifecycle.is_execution_ready() },
        RequestPayload::Restart => if !lifecycle.is_execution_ready() {
            RouteStep::Respond(draining_response())
        } else {
            RouteStep::RequestRestart
        },
        RequestPayload::Shutdown => RouteStep::Shutdown,
    }
}

/// A script that was typed in.
pub open spec fn is_inline_script(command: ResolvedCommand) -> bool {
    command matches ResolvedCommand::Script { source, .. } && source is Inline
}

/// The step that an input goes on with once it is parsed.
pub open spec fn is_command_step(
    parsed: Result<ResolvedCommand, String>,
    input: Seq<char>,
    lifecycle: DaemonLifecycle,
    step: RouteStep,
) -> bool {
    match parsed {
        Ok(command) => if lifecycle.admission_closed() && starts_work(command) {
            step matches RouteStep::Respond(response) && is_draining_response(response)
        } else if is_inline_script(command) {
            step matches RouteStep::Respond(response) && is_inline_script_response(response)
        } else {
            step == RouteStep::Eval(command)
        },
        Err(error) => step matches RouteStep::Respond(response) && ipc::refuses(
            response,
            ErrorCode::InvalidSyntax,
            syntax_hints::syntax_message(input, error@),
        ),
    }
}

/// Decides what becomes of an input once it is parsed.
///
/// Work is refused while none is accepted. A script that was typed in is refused. A command for the
/// foreground holds the events of its connection back until its reply is written.
pub fn route_command(
    parsed: Result<ResolvedCommand, String>,
    input: &str,
    request_id: u32,
    lifecycle: &DaemonLifecycle,
    events: &mut ClientEventState,
) -> (step: RouteStep)
    requires
        parsed matches Ok(command) && command is Fg ==> old(events).fence.is_none(),
    ensures
        is_command_step(parsed, input@, *lifecycle, step),
        final(events).binding == old(events).binding,
        final(events).fence == if parsed matches Ok(command) && command is Fg {
            Some(ClientEventFence { request_id, policy: ClientEventFencePolicy::HoldQueued })
        } else {
            old(events).fence
        },
{
    match parsed {
        Ok(command) => {
            if lifecycle.execution_admission_closed() && command_starts_execution(&command) {
                return RouteStep::Respond(draining_response());
            }
            if let ResolvedCommand::Script { source: ScriptSource::Inline, .. } = &command {
                return RouteStep::Respond(inline_script_disabled_response());
            }
            if let ResolvedCommand::Fg { .. } = &command {
                begin_client_event_hold_fence(events, request_id);
            }
            RouteStep::Eval(command)
        },
        Err(error) => {
            let message = syntax_error_message(input, error.as_str());
            RouteStep::Respond(ResponsePayload::err(ErrorCode::InvalidSyntax, message.as_str()))
        },
    }
}

/// A script with the file that it comes from.
pub open spec fn from_file(command: ResolvedCommand, path: String) -> ResolvedCommand {
    match command {
        ResolvedCommand::Script { source, items, plan } => ResolvedCommand::Script {
            source: ScriptSource::File { path },
            items,
            plan,
        },
        other => other,
    }
}

/// Decides what becomes of a file once it is parsed: nothing in it may attach the connection.
pub fn route_script(parsed: Result<ResolvedCommand, String>, path: String, input: &str) -> (step:
    RouteStep)
    ensures
        match parsed {
            Ok(command) => if has_foreground(command) {
                step matches RouteStep::Respond(response) && ipc::refuses(
                    response,
                    ErrorCode::NotSupported,
                    "file scripts cannot use connection-local :fg or :watch commands; attach to the job interactively instead"@,
                )
            } else {
                step == RouteStep::Eval(from_file(command, path))
            },
            Err(error) => step matches RouteStep::Respond(response) && ipc::refuses(
                response,
                ErrorCode::InvalidSyntax,
                syntax_hints::syntax_message(input@, error@),
            ),
        },
{
    match parsed {
        Ok(command) => {
            if command_contains_connection_local_foreground(&command) {
                return RouteStep::Respond(
                    ResponsePayload::err(
                        ErrorCode::NotSupported,
                        "file scripts cannot use connection-local :fg or :watch commands; attach to the job interactively instead",
                    ),
                );
            }
            match command {
                ResolvedCommand::Script { source: _, items, plan } => RouteStep::Eval(
                    ResolvedCommand::Script { source: ScriptSource::File { path }, items, plan },
                ),
                other => RouteStep::Eval(other),
            }
        },
        Err(error) => {
            let message = syntax_error_message(input, error.as_str());
            RouteStep::Respond(ResponsePayload::err(ErrorCode::InvalidSyntax, message.as_str()))
        },
    }
}

/// The session that a connection was bound to.
#[derive(Debug)]
pub struct SessionBinding {
    /// Named sessions use their durable name, so that all their connections share identities.
    pub session_id: String,
    /// The durable name that isolates events; an anonymous session has none.
    pub named_session_id: Option<String>,
    pub incarnation: u64,
}

/// What has to be done when a connection is bound: the event bus learns its session, and it leaves
/// the foreground if the session is another one.
#[derive(Debug)]
pub struct BindPlan {
    pub named_session_id: Option<String>,
    pub detach_foreground: bool,
}

/// What has to be done with the scheduler's reply: bind the connection, then send the reply.
/// Identities of later requests belong to the namespace.
#[derive(Debug)]
pub struct SessionReplyPlan {
    pub bind: Option<BindPlan>,
    pub response: ResponsePayload,
    pub namespace: Option<Digest>,
}

/// A connection is bound to a session: its own events are fenced, the plan says so, and the
/// namespace is the session's.
pub open spec fn binds(
    binding: SessionBinding,
    request_id: u32,
    before: ClientEventState,
    after: ClientEventState,
    plan: SessionReplyPlan,
) -> bool {
    &&& after.fence == Some(
        ClientEventFence { request_id, policy: ClientEventFencePolicy::DropQueued },
    )
    &&& client_events::binding_name(after.binding) == Some(
        client_events::session_name(binding.named_session_id),
    )
    &&& plan.bind matches Some(bind) && client_events::session_name(bind.named_session_id)
        == client_events::session_name(binding.named_session_id) && bind.detach_foreground == (
    client_events::binding_name(before.binding) != Some(
        client_events::session_name(binding.named_session_id),
    ))
    &&& plan.namespace matches Some(namespace) && namespace.bytes@ == digest::blake3_digest(
        operation_ledger::incarnation_bytes(text::utf8(binding.session_id@), binding.incarnation),
    )
}

fn prepare_client_binding(
    events: &mut ClientEventState,
    request_id: u32,
    binding: &SessionBinding,
    response: ResponsePayload,
) -> (plan: SessionReplyPlan)
    ensures
        binds(*binding, request_id, *old(events), *final(events), plan),
        plan.response == response,
{
    let changed = begin_client_event_fence(events, request_id, binding.named_session_id.clone());
    SessionReplyPlan {
        bind: Some(
            BindPlan {
                named_session_id: binding.named_session_id.clone(),
                detach_foreground: changed,
            },
        ),
        response,
        namespace: Some(
            OperationLedger::session_incarnation_namespace(
                binding.session_id.as_str(),
                binding.incarnation,
            ),
        ),
    }
}

/// The scheduler's reply to a handshake.
#[derive(Debug)]
pub enum ConnectReply {
    Bound(SessionBinding),
    Refused(String),
    /// The scheduler went away without a reply.
    Dropped,
}

/// Decides what becomes of a handshake.
pub fn handshake_reply(reply: ConnectReply, request_id: u32, events: &mut ClientEventState) -> (
    plan: SessionReplyPlan)
    ensures
        match reply {
            ConnectReply::Bound(binding) => {
                &&& binds(binding, request_id, *old(events), *final(events), plan)
                &&& plan.response == ResponsePayload::Success(OkPayload::Ack)
            },
            ConnectReply::Refused(error) => {
                &&& *final(events) == *old(events)
                &&& plan.bind.is_none()
                &&& plan.namespace.is_none()
                &&& ipc::refuses(plan.response, ErrorCode::Internal, error@)
            },
            ConnectReply::Dropped => {
                &&& *final(events) == *old(events)
                &&& plan.bind.is_none()
                &&& plan.namespace.is_none()
                &&& ipc::refuses(
                    plan.response,
                    ErrorCode::Internal,
                    "scheduler session reply dropped"@,
                )
            },
        },
{
    match reply {
        ConnectReply::Bound(binding) => prepare_client_binding(
            events,
            request_id,
            &binding,
            ResponsePayload::ack(),
        ),
        ConnectReply::Refused(error) => SessionReplyPlan {
            bind: None,
            response: ResponsePayload::err(ErrorCode::Internal, error.as_str()),
            namespace: None,
        },
        ConnectReply::Dropped => SessionReplyPlan {
            bind: None,
            response: ResponsePayload::err(
                ErrorCode::Internal,
                "scheduler session reply dropped",
            ),
            namespace: None,
        },
    }
}

/// Decides what becomes of a session command: the scheduler's reply is passed on, and where the
/// command changed the binding of the connection, that is done first.
pub fn session_command_reply(
    response: ResponsePayload,
    binding: Option<SessionBinding>,
    request_id: u32,
    events: &mut ClientEventState,
) -> (plan: SessionReplyPlan)
    ensures
        plan.response == response,
        match binding {
            Some(binding) => binds(binding, request_id, *old(events), *final(events), plan),
            None => {
                &&& *final(events) == *old(events)
                &&& plan.bind.is_none()
                &&& plan.namespace.is_none()
            },
        },
{
    match binding {
        Some(binding) => prepare_client_binding(events, request_id, &binding, response),
        None => SessionReplyPlan { bind: None, response, namespace: None },
    }
}

/// The reply to channels that are none.
pub fn invalid_event_channel_response(channel: &str, expected: &str) -> (response: ResponsePayload)
    ensures
        ipc::refuses(
            response,
            ErrorCode::InvalidRequest,
            "invalid event channel `"@ + channel@ + "`; expected "@ + expected@,
        ),
{
    let mut message = join3("invalid event channel `", channel, "`; expected ");
    message.append(expected);
    ResponsePayload::err(ErrorCode::InvalidRequest, message.as_str())
}

/// The channels to join or leave, in order, and the reply.
#[derive(Debug)]
pub struct ChannelPlan {
    pub channels: Vec<String>,
    pub response: ResponsePayload,
}

/// Decides what becomes of a subscription once its channels are parsed: all of them, or none where
/// one is not a channel.
pub fn channels_reply(parsed: Result<Vec<String>, String>, expected: &str) -> (plan: ChannelPlan)
    ensures
        match parsed {
            Ok(channels) => plan.channels == channels && plan.response == ResponsePayload::Success(
                OkPayload::Ack,
            ),
            Err(channel) => plan.channels@.len() == 0 && ipc::refuses(
                plan.response,
                ErrorCode::InvalidRequest,
                "invalid event channel `"@ + channel@ + "`; expected "@ + expected@,
            ),
        },
{
    match parsed {
        Ok(channels) => ChannelPlan { channels, response: ResponsePayload::ack() },
        Err(channel) => ChannelPlan {
            channels: Vec::new(),
            response: invalid_event_channel_response(channel.as_str(), expected),
        },
    }
}

/// A foreground attachment after its role changed.
#[derive(Debug)]
pub struct ForegroundRoleUpdate {
    pub id: String,
    pub attachment_id: u64,
    pub role: ForegroundRole,
    pub control_available: bool,
}

/// The process manager's reply.
#[derive(Debug)]
pub enum ProcessReply<T> {
    Done(T),
    Refused(String),
    /// The process manager went away; why there is no reply.
    Dropped(String),
}

/// The reply to a request for the control of the foreground.
pub fn foreground_role_response(reply: ProcessReply<ForegroundRoleUpdate>, operation: &str) -> (
    response: ResponsePayload)
    ensures
        match reply {
            ProcessReply::Done(update) => response == ResponsePayload::Success(
                OkPayload::FgRoleChanged {
                    id: update.id,
                    attachment_id: update.attachment_id,
                    role: update.role,
                    control_available: update.control_available,
                },
            ),
            ProcessReply::Refused(message) => ipc::refuses(
                response,
                ErrorCode::InvalidState,
                message@,
            ),
            ProcessReply::Dropped(error) => ipc::refuses(
                response,
                ErrorCode::Internal,
                "process manager dropped "@ + operation@ + " reply: "@ + error@,
            ),
        },
{
    match reply {
        ProcessReply::Done(update) => ResponsePayload::Success(
            OkPayload::FgRoleChanged {
                id: update.id,
                attachment_id: update.attachment_id,
                role: update.role,
                control_available: update.control_available,
            },
        ),
        ProcessReply::Refused(message) => ResponsePayload::err(
            ErrorCode::InvalidState,
            message.as_str(),
        ),
        ProcessReply::Dropped(error) => {
            let mut message = join3("process manager dropped ", operation, " reply: ");
            message.append(error.as_str());
            ResponsePayload::err(ErrorCode::Internal, message.as_str())
        },
    }
}

/// The reply to input for the foreground, and to its new size.
pub fn foreground_io_response(reply: ProcessReply<()>) -> (response: ResponsePayload)
    ensures
        match reply {
            ProcessReply::Done(()) => response == ResponsePayload::Success(OkPayload::Ack),
            ProcessReply::Refused(message) => ipc::refuses(
                response,
                ErrorCode::InvalidState,
                message@,
            ),
            ProcessReply::Dropped(_) => ipc::refuses(
                response,
                ErrorCode::Internal,
                "process_mgr unreachable"@,
            ),
        },
{
    match reply {
        ProcessReply::Done(()) => ResponsePayload::ack(),
        ProcessReply::Refused(message) => ResponsePayload::err(
            ErrorCode::InvalidState,
            message.as_str(),
        ),
        ProcessReply::Dropped(_) => ResponsePayload::err(
            ErrorCode::Internal,
            "process_mgr unreachable",
        ),
    }
}

/// The reply to a ping. The capabilities are those of the protocol, by their names.
pub fn pong(
    version: &str,
    instance_id: &str,
    generation_id: &str,
    ready: bool,
    protocol_version: u32,
    capabilities: Vec<String>,
) -> (response: ResponsePayload)
    ensures
        response matches ResponsePayload::Success(
            OkPayload::Pong {
                version: v,
                instance_id: i,
                generation_id: g,
                ready: r,
                protocol_version: p,
                capabilities: c,
            },
        ) && v@ == version@ && i@ == instance_id@ && g@ == generation_id@ && r == ready && p
            == protocol_version && c == capabilities,
{
    ResponsePayload::Success(
        OkPayload::Pong {
            version: version.to_owned(),
            instance_id: instance_id.to_owned(),
            generation_id: generation_id.to_owned(),
            ready,
            protocol_version,
            capabilities,
        },
    )
}

/// What has to be done with the ticket of a restart.
#[derive(Debug)]
pub enum RestartReplyStep {
    /// Have the scheduler drain first; goes on with whether it could.
    BeginDrain(RestartTicket),
    /// Send this reply.
    Respond(ResponsePayload),
}

/// The reply that hands out a ticket.
pub open spec fn is_accepted_restart(response: ResponsePayload, ticket: RestartTicket) -> bool {
    response == ResponsePayload::Success(
        OkPayload::RestartAccepted {
            restart_id: ticket.restart_id,
            daemon_instance_id: ticket.daemon_instance_id,
            target_generation: ticket.target_generation,
        },
    )
}

fn restart_accepted(ticket: RestartTicket) -> (response: ResponsePayload)
    ensures
        is_accepted_restart(response, ticket),
{
    ResponsePayload::Success(
        OkPayload::RestartAccepted {
            restart_id: ticket.restart_id,
            daemon_instance_id: ticket.daemon_instance_id,
            target_generation: ticket.target_generation,
        },
    )
}

/// Decides what becomes of the ticket of a restart: only the first one makes the scheduler drain.
pub fn restart_ticket_step(ticket: RestartTicket) -> (step: RestartReplyStep)
    ensures
        if ticket.first_request {
            step == RestartReplyStep::BeginDrain(ticket)
        } else {
            step matches RestartReplyStep::Respond(response) && is_accepted_restart(
                response,
                ticket,
            )
        },
{
    if ticket.first_request {
        RestartReplyStep::BeginDrain(ticket)
    } else {
        RestartReplyStep::Respond(restart_accepted(ticket))
    }
}

/// Decides the reply to a restart once the scheduler was told to drain. Where it could not be told,
/// the restart has been cancelled durably, and the daemon stops: the scheduler may have closed
/// its admission already.
pub fn drain_reply(
    ticket: RestartTicket,
    drain_acknowledged: bool,
    lifecycle: &mut DaemonLifecycle,
) -> (response: ResponsePayload)
    ensures
        if drain_acknowledged {
            *final(lifecycle) == *old(lifecycle) && is_accepted_restart(response, ticket)
        } else {
            &&& ipc::refuses(
                response,
                ErrorCode::Internal,
                "scheduler could not begin daemon drain"@,
            )
            &&& *final(lifecycle) == (DaemonLifecycle {
                state: LifecycleState::Draining,
                restart_requested: false,
                stop_requested: true,
                ..*old(lifecycle)
            })
        },
{
    if drain_acknowledged {
        restart_accepted(ticket)
    } else {
        lifecycle.fail_stop_restart();
        ResponsePayload::err(ErrorCode::Internal, "scheduler could not begin daemon drain")
    }
}

/// While no work is accepted, nothing that starts work reaches the scheduler: neither an input
/// nor a script.
pub proof fn no_work_while_admission_is_closed(
    lifecycle: DaemonLifecycle,
    aliases: AliasConfig,
    command: ResolvedCommand,
    input: Seq<char>,
    step: RouteStep,
    path: String,
    script: String,
    script_step: RouteStep,
)
    requires
        lifecycle.admission_closed(),
        starts_work(command),
        is_command_step(Ok(command), input, lifecycle, step),
        is_first_step(
            RequestPayload::RunScript { path, input: script },
            lifecycle,
            aliases,
            script_step,
        ),
    ensures
        step is Respond,
        script_step is Respond,
{
}

/// Every step that is not a reply goes back to the one request that asks for it, with all that the
/// request says. Attaching to a job asks for its control, watching it does not; joining channels
/// and leaving them are told apart.
pub proof fn step_goes_back_to_its_request(
    payload: RequestPayload,
    lifecycle: DaemonLifecycle,
    aliases: AliasConfig,
    step: RouteStep,
)
    requires
        is_first_step(payload, lifecycle, aliases, step),
    ensures
        match step {
            RouteStep::Respond(_) => payload is RunScript || payload is Restart,
            RouteStep::Connect { session_id, cwd, env, refresh } => payload
                == (RequestPayload::Handshake { session_id, cwd, env, refresh }),
            RouteStep::Session(SessionCommand::Create { name }) => payload
                == (RequestPayload::CreateSession { name }),
            RouteStep::Session(SessionCommand::List) => payload is ListSessions,
            RouteStep::Session(SessionCommand::ListArchived) => payload is ListArchivedSessions,
            RouteStep::Session(SessionCommand::ListAll) => payload is ListAllSessions,
            RouteStep::Session(SessionCommand::Archive { selector }) => payload
                == (RequestPayload::ArchiveSession { selector }),
            RouteStep::Session(SessionCommand::Restore { selector }) => payload
                == (RequestPayload::RestoreSession { selector }),
            RouteStep::Session(SessionCommand::Attach { selector, refresh }) => payload
                == (RequestPayload::AttachSession { selector, refresh }),
            RouteStep::Session(SessionCommand::Info { selector }) => payload
                == (RequestPayload::SessionInfo { selector }),
            RouteStep::ParseCommand { mode, .. } => payload matches RequestPayload::Eval {
                mode: asked,
                ..
            } && asked == mode,
            RouteStep::ParseScript { path, input } => payload == (RequestPayload::RunScript {
                path,
                input,
            }),
            RouteStep::Eval(ResolvedCommand::Fg { id, role: ForegroundRole::Controller }) => payload
                == (RequestPayload::FgAttach { id }),
            RouteStep::Eval(ResolvedCommand::Fg { id, role: ForegroundRole::Observer }) => payload
                == (RequestPayload::FgWatch { id }),
            RouteStep::Eval(ResolvedCommand::ListJobs { limit }) => payload
                == (RequestPayload::ListJobs { limit }),
            RouteStep::Eval(ResolvedCommand::ListCrons { limit }) => payload
                == (RequestPayload::ListCrons { limit }),
            RouteStep::Eval(ResolvedCommand::ListScopes { limit }) => payload
                == (RequestPayload::ListScopes { limit }),
            RouteStep::Eval(ResolvedCommand::ShowLog { id, limit, tail_bytes }) => payload
                == (RequestPayload::ShowLog { id, limit, tail_bytes }),
            RouteStep::Eval(ResolvedCommand::JobOutput { id, stdout_bytes, stderr_bytes }) => {
                payload == (RequestPayload::JobOutput { id, stdout_bytes, stderr_bytes })
            },
            RouteStep::Eval(ResolvedCommand::KillJob { id }) => payload
                == (RequestPayload::KillJob { id }),
            RouteStep::Eval(ResolvedCommand::CancelExecution { id }) => payload
                == (RequestPayload::CancelExecution { id }),
            RouteStep::Eval(ResolvedCommand::RemoveCron { id }) => payload
                == (RequestPayload::RemoveCron { id }),
            RouteStep::Eval(ResolvedCommand::ShowEnv { tail_bytes }) => payload
                == (RequestPayload::ShowEnv { tail_bytes }),
            RouteStep::Eval(ResolvedCommand::ShowConfig { tail_bytes }) => payload
                == (RequestPayload::ShowConfig { tail_bytes }),
            RouteStep::Eval(_) => false,
            RouteStep::ScriptInfo { id } => payload == (RequestPayload::ScriptInfo { id }),
            RouteStep::ParseChannels { channels, subscribe } => payload == if subscribe {
                RequestPayload::Subscribe { channels }
            } else {
                RequestPayload::Unsubscribe { channels }
            },
            RouteStep::ClaimControl => payload is FgClaimControl,
            RouteStep::ReleaseControl => payload is FgReleaseControl,
            RouteStep::DetachForeground { .. } => payload is FgDetach,
            RouteStep::ForegroundInput { data } => payload == (RequestPayload::FgInput { data }),
            RouteStep::ForegroundResize { cols, rows } => payload == (RequestPayload::FgResize {
                cols,
                rows,
            }),
            RouteStep::Complete { input, cursor } => payload == (RequestPayload::Complete {
                input,
                cursor,
            }),
            RouteStep::Highlight { input } => payload == (RequestPayload::Highlight { input }),
            RouteStep::Ping { .. } => payload is Ping,
            RouteStep::RequestRestart => payload is Restart,
            RouteStep::Shutdown => payload is Shutdown,
        },
{
}

/// Two requests that come to one step are the same request, unless they are inputs, which their
/// aliases may make equal, or are refused.
pub proof fn requests_are_told_apart(
    a: RequestPayload,
    b: RequestPayload,
    lifecycle: DaemonLifecycle,
    aliases: AliasConfig,
    step: RouteStep,
)
    requires
        is_first_step(a, lifecycle, aliases, step),
        is_first_step(b, lifecycle, aliases, step),
        !(step is Respond),
        !(step is ParseCommand),
    ensures
        a == b,
{
}

/// For one job, attaching and watching come to different steps: the one asks for control, and the
/// other only looks on.
pub proof fn attaching_is_not_watching(
    id: String,
    lifecycle: DaemonLifecycle,
    aliases: AliasConfig,
    attach: RouteStep,
    watch: RouteStep,
)
    requires
        is_first_step(RequestPayload::FgAttach { id }, lifecycle, aliases, attach),
        is_first_step(RequestPayload::FgWatch { id }, lifecycle, aliases, watch),
    ensures
        attach != watch,
        attach matches RouteStep::Eval(ResolvedCommand::Fg { id: asked, role }) && asked == id
            && role == ForegroundRole::Controller,
        watch matches RouteStep::Eval(ResolvedCommand::Fg { id: asked, role }) && asked == id
            && role == ForegroundRole::Observer,
{
    step_goes_back_to_its_request(RequestPayload::FgAttach { id }, lifecycle, aliases, attach);
    step_goes_back_to_its_request(RequestPayload::FgWatch { id }, lifecycle, aliases, watch);
}

/// Requests are refused at once for one reason only: the daemon takes no work (scripts) or is not
/// ready itself (restarts). In every other state both go on; a ping tells of the readiness.
pub proof fn only_work_waits_for_the_daemon(
    payload: RequestPayload,
    lifecycle: DaemonLifecycle,
    aliases: AliasConfig,
    step: RouteStep,
)
    requires
        is_first_step(payload, lifecycle, aliases, step),
    ensures
        step is Respond <==> payload is RunScript && (!lifecycle.execution_ready || lifecycle.state
            != LifecycleState::Running) || payload is Restart && !lifecycle.execution_ready,
        step matches RouteStep::Respond(response) ==> (response
            matches ResponsePayload::Failure { code, .. } && code == ErrorCode::DaemonDraining),
        step matches RouteStep::Ping { ready } ==> ready == lifecycle.execution_ready,
        step matches RouteStep::DetachForeground { reason } ==> reason == "detached",
{
}

/// An input that no alias touches is parsed as it was sent.
pub proof fn plain_input_is_parsed_as_sent(
    input: String,
    mode: Mode,
    lifecycle: DaemonLifecycle,
    aliases: AliasConfig,
    step: RouteStep,
)
    requires
        is_first_step(RequestPayload::Eval { input, mode }, lifecycle, aliases, step),
        aliases.entries@.len() == 0 || input@.len() > 0 && input@[0] == ':',
    ensures
        step matches RouteStep::ParseCommand { input: text, mode: kept } && text@ == input@ && kept
            == mode,
{
}

/// In a daemon that takes work, the requests that may be given an identity are exactly those whose
/// first step may lead to an effect beyond their connection: those that are parsed as commands or
/// scripts, that end work or remove it, that archive and restore sessions, and that end the daemon.
pub proof fn effects_take_an_identity(
    payload: RequestPayload,
    lifecycle: DaemonLifecycle,
    aliases: AliasConfig,
    step: RouteStep,
    accepts: bool,
)
    requires
        call_ensures(is_side_effecting_request, (&payload,), accepts),
        is_first_step(payload, lifecycle, aliases, step),
        lifecycle.execution_ready,
        lifecycle.state == LifecycleState::Running,
    ensures
        accepts <==> match step {
            RouteStep::ParseCommand { .. } => true,
            RouteStep::ParseScript { .. } => true,
            RouteStep::Eval(ResolvedCommand::KillJob { .. }) => true,
            RouteStep::Eval(ResolvedCommand::CancelExecution { .. }) => true,
            RouteStep::Eval(ResolvedCommand::RemoveCron { .. }) => true,
            RouteStep::Session(SessionCommand::Archive { .. }) => true,
            RouteStep::Session(SessionCommand::Restore { .. }) => true,
            RouteStep::RequestRestart => true,
            RouteStep::Shutdown => true,
            _ => false,
        },
{
}

/// A command is held back from the scheduler only where it would start work while none is taken, or
/// is a script that was typed in. Every other command reaches the scheduler as it was parsed, in
/// every state of the daemon.
pub proof fn parsed_command_reaches_the_scheduler(
    command: ResolvedCommand,
    input: Seq<char>,
    lifecycle: DaemonLifecycle,
    step: RouteStep,
)
    requires
        is_command_step(Ok(command), input, lifecycle, step),
    ensures
        ({
            let closed = !lifecycle.execution_ready || lifecycle.state != LifecycleState::Running;
            match command {
                ResolvedCommand::Script { source: ScriptSource::Inline, .. } => step
                    matches RouteStep::Respond(ResponsePayload::Failure { code, .. }) && code
                    == if closed {
                    ErrorCode::DaemonDraining
                } else {
                    ErrorCode::NotSupported
                },
                ResolvedCommand::Script { .. } | ResolvedCommand::Run { .. }
                | ResolvedCommand::Cron { .. } | ResolvedCommand::Retry { .. }
                | ResolvedCommand::Resume { .. } => if closed {
                    step matches RouteStep::Respond(ResponsePayload::Failure { code, .. }) && code
                        == ErrorCode::DaemonDraining
                } else {
                    step == RouteStep::Eval(command)
                },
                _ => step == RouteStep::Eval(command),
            }
        }),
{
}

/// An input that cannot be parsed never reaches the scheduler: it is refused for its syntax,
/// whatever the daemon does.
pub proof fn unparsable_input_is_refused(
    error: String,
    input: Seq<char>,
    lifecycle: DaemonLifecycle,
    step: RouteStep,
)
    requires
        is_command_step(Err(error), input, lifecycle, step),
    ensures
        step matches RouteStep::Respond(ResponsePayload::Failure { code, .. }) && code
            == ErrorCode::InvalidSyntax,
{
}

/// A command for the foreground is found wherever it stands: by itself, and in a script at any
/// place, however deep. Nothing else counts as one.
pub proof fn foreground_is_found_at_any_depth(
    command: ResolvedCommand,
    source: ScriptSource,
    items: Vec<ResolvedCommand>,
    plan: u64,
    found: bool,
    found_in_script: bool,
    at: int,
)
    requires
        0 <= at < items@.len(),
        items@[at] == command,
        call_ensures(command_contains_connection_local_foreground, (&command,), found),
        call_ensures(
            command_contains_connection_local_foreground,
            (&ResolvedCommand::Script { source, items, plan },),
            found_in_script,
        ),
    ensures
        command is Fg ==> found,
        found ==> found_in_script,
        !(command is Fg) && !(command is Script) ==> !found,
        found_in_script ==> exists|i: int|
            0 <= i < items@.len() && ((#[trigger] items@[i]) is Fg || items@[i] is Script),
{
    let script = ResolvedCommand::Script { source, items, plan };
    if found {
        let within = script->Script_items@;
        assert(has_foreground(within[at]));
        assert(exists|i: int| 0 <= i < within.len() && has_foreground(#[trigger] within[i]));
        assert(has_foreground(script));
    }
    if found_in_script {
        let i = choose|i: int| 0 <= i < items@.len() && has_foreground(#[trigger] items@[i]);
        assert(items@[i] is Fg || items@[i] is Script);
    }
}

/// A file is refused where one of its items is for the foreground. Without items that are, or that
/// are scripts themselves, it reaches the scheduler with all its items, under its path.
pub proof fn file_scripts_never_attach(
    source: ScriptSource,
    items: Vec<ResolvedCommand>,
    plan: u64,
    path: String,
    input: &str,
    step: RouteStep,
)
    requires
        call_ensures(
            route_script,
            (Ok(ResolvedCommand::Script { source, items, plan }), path, input),
            step,
        ),
    ensures
        (exists|i: int| 0 <= i < items@.len() && (#[trigger] items@[i]) is Fg) ==> (step
            matches RouteStep::Respond(ResponsePayload::Failure { code, .. }) && code
            == ErrorCode::NotSupported),
        (forall|i: int|
            0 <= i < items@.len() ==> !((#[trigger] items@[i]) is Fg) && !(items@[i] is Script))
            ==> step == RouteStep::Eval(
            ResolvedCommand::Script { source: ScriptSource::File { path }, items, plan },
        ),
{
    if exists|i: int| 0 <= i < items@.len() && (#[trigger] items@[i]) is Fg {
        let i = choose|i: int| 0 <= i < items@.len() && (#[trigger] items@[i]) is Fg;
        assert(has_foreground(items@[i]));
    }
    if forall|i: int|
        0 <= i < items@.len() ==> !((#[trigger] items@[i]) is Fg) && !(items@[i] is Script) {
        assert forall|i: int| 0 <= i < items@.len() implies !has_foreground(
            #[trigger] items@[i],
        ) by {}
    }
}

/// A file that is one command, and that cannot be parsed.
pub proof fn file_with_one_command_is_passed_on(
    command: ResolvedCommand,
    error: String,
    path: String,
    input: &str,
    step: RouteStep,
    refused: RouteStep,
)
    requires
        !(command is Script),
        call_ensures(route_script, (Ok(command), path, input), step),
        call_ensures(route_script, (Err(error), path, input), refused),
    ensures
        command is Fg <==> step is Respond,
        !(command is Fg) ==> step == RouteStep::Eval(command),
        refused matches RouteStep::Respond(ResponsePayload::Failure { code, .. }) && code
            == ErrorCode::InvalidSyntax,
{
}

/// Work that is handed to the process manager or to the scheduler holds the events of a connection
/// back exactly where the reply has to come first: around the foreground.
pub proof fn foreground_replies_come_before_events(
    payload: RequestPayload,
    request_id: u32,
    lifecycle: &DaemonLifecycle,
    aliases: &AliasConfig,
    events: &mut ClientEventState,
    step: RouteStep,
)
    requires
        call_ensures(route_request, (payload, request_id, lifecycle, aliases, events), step),
        old(events).fence is None,
    ensures
        final(events).fence is Some <==> step is ClaimControl || step is ReleaseControl || (step
            matches RouteStep::Eval(command) && command is Fg),
        final(events).fence matches Some(fence) ==> fence.request_id == request_id && fence.policy
            == ClientEventFencePolicy::HoldQueued,
        final(events).binding == old(events).binding,
{
}

/// A connection that is bound again to the session that it has stays in the foreground; one that
/// changes its session leaves it. Either way what is queued for it is dropped, and its identities
/// belong to the session.
pub proof fn changed_session_leaves_the_foreground(
    first: SessionBinding,
    second: SessionBinding,
    a: u32,
    b: u32,
    start: ClientEventState,
    between: ClientEventState,
    end: ClientEventState,
    first_plan: SessionReplyPlan,
    second_plan: SessionReplyPlan,
)
    requires
        binds(first, a, start, between, first_plan),
        binds(second, b, between, end, second_plan),
    ensures
        second_plan.bind matches Some(bind) && (bind.detach_foreground
            <==> client_events::session_name(first.named_session_id) != client_events::session_name(
            second.named_session_id,
        )),
        start.binding is None ==> (first_plan.bind matches Some(bind) && bind.detach_foreground),
        between.fence == Some(
            ClientEventFence { request_id: a, policy: ClientEventFencePolicy::DropQueued },
        ),
        first.session_id@ == second.session_id@ && first.incarnation == second.incarnation
            ==> first_plan.namespace->0.bytes@ == second_plan.namespace->0.bytes@,
{
}

/// A handshake that fails changes nothing of its connection and is answered as an internal error; one
/// that succeeds is acknowledged and gives the connection a namespace.
pub proof fn failed_handshake_changes_nothing(
    reply: ConnectReply,
    request_id: u32,
    events: &mut ClientEventState,
    plan: SessionReplyPlan,
)
    requires
        call_ensures(handshake_reply, (reply, request_id, events), plan),
    ensures
        plan.bind is Some <==> reply is Bound,
        plan.namespace is Some <==> reply is Bound,
        plan.response == ResponsePayload::Success(OkPayload::Ack) <==> reply is Bound,
        !(reply is Bound) ==> *final(events) == *old(events) && (plan.response
            matches ResponsePayload::Failure { code, .. } && code == ErrorCode::Internal),
        reply is Bound ==> (final(events).fence matches Some(fence) && fence.request_id
            == request_id && fence.policy == ClientEventFencePolicy::DropQueued),
{
}

/// The reply to a session command is passed on as it is; without a new binding the connection
/// stays as it was.
pub proof fn session_reply_is_passed_on(
    response: ResponsePayload,
    binding: Option<SessionBinding>,
    request_id: u32,
    events: &mut ClientEventState,
    plan: SessionReplyPlan,
)
    requires
        call_ensures(session_command_reply, (response, binding, request_id, events), plan),
    ensures
        plan.response == response,
        plan.bind is Some <==> binding is Some,
        plan.namespace is Some <==> binding is Some,
        binding is None ==> *final(events) == *old(events),
{
}

/// Channels are joined all together or not at all.
pub proof fn channels_are_all_or_none(
    parsed: Result<Vec<String>, String>,
    expected: &str,
    plan: ChannelPlan,
)
    requires
        call_ensures(channels_reply, (parsed, expected), plan),
    ensures
        plan.response is Success <==> parsed is Ok,
        parsed matches Ok(channels) ==> plan.channels@ == channels@,
        parsed is Err ==> plan.channels@.len() == 0 && (plan.response
            matches ResponsePayload::Failure { code, .. } && code == ErrorCode::InvalidRequest),
{
}

/// A request for the foreground succeeds exactly where the process manager did it, and says which
/// role came of it. What the process manager refuses is a matter of state, and that it is gone an
/// internal error.
pub proof fn process_manager_is_believed(
    reply: ProcessReply<ForegroundRoleUpdate>,
    operation: &str,
    response: ResponsePayload,
    io: ProcessReply<()>,
    io_response: ResponsePayload,
)
    requires
        call_ensures(foreground_role_response, (reply, operation), response),
        call_ensures(foreground_io_response, (io,), io_response),
    ensures
        response is Success <==> reply is Done,
        reply matches ProcessReply::Done(update) ==> (response matches ResponsePayload::Success(
            OkPayload::FgRoleChanged { id, attachment_id, role, control_available },
        ) && id == update.id && attachment_id == update.attachment_id && role == update.role
            && control_available == update.control_available),
        reply matches ProcessReply::Refused(why) ==> (response matches ResponsePayload::Failure {
            code,
            message,
        } && code == ErrorCode::InvalidState && message@ == why@),
        reply is Dropped ==> (response matches ResponsePayload::Failure { code, .. } && code
            == ErrorCode::Internal),
        io_response is Success <==> io is Done,
        io matches ProcessReply::Refused(why) ==> (io_response matches ResponsePayload::Failure {
            code,
            message,
        } && code == ErrorCode::InvalidState && message@ == why@),
        io is Dropped ==> (io_response matches ResponsePayload::Failure { code, .. } && code
            == ErrorCode::Internal),
{
}

/// A ping is answered with what the daemon is: nothing of it is left out or exchanged.
pub proof fn pong_tells_what_the_daemon_is(
    version: &str,
    instance_id: &str,
    generation_id: &str,
    ready: bool,
    protocol_version: u32,
    capabilities: Vec<String>,
    response: ResponsePayload,
)
    requires
        call_ensures(
            pong,
            (version, instance_id, generation_id, ready, protocol_version, capabilities),
            response,
        ),
    ensures
        response is Success,
        response->Success_0 is Pong,
        response->Success_0->ready == ready,
        response->Success_0->instance_id@ == instance_id@,
        response->Success_0->generation_id@ == generation_id@,
        response->Success_0->version@ == version@,
        response->Success_0->protocol_version == protocol_version,
        response->Success_0->capabilities == capabilities,
{
}

/// The first request for a restart makes the daemon drain, and is accepted once it does; a later one
/// is accepted at once, under the same ticket. A drain that cannot begin stops the daemon.
pub proof fn restart_is_drained_once(
    ticket: RestartTicket,
    drain_acknowledged: bool,
    step: RestartReplyStep,
    lifecycle: &mut DaemonLifecycle,
    response: ResponsePayload,
)
    requires
        call_ensures(restart_ticket_step, (ticket,), step),
        call_ensures(drain_reply, (ticket, drain_acknowledged, lifecycle), response),
    ensures
        step is BeginDrain <==> ticket.first_request,
        step matches RestartReplyStep::BeginDrain(drained) ==> drained == ticket,
        step matches RestartReplyStep::Respond(told) ==> (told matches ResponsePayload::Success(
            OkPayload::RestartAccepted { restart_id, daemon_instance_id, target_generation },
        ) && restart_id == ticket.restart_id && daemon_instance_id == ticket.daemon_instance_id
            && target_generation == ticket.target_generation),
        response is Success <==> drain_acknowledged,
        response matches ResponsePayload::Success(told) ==> (told matches OkPayload::RestartAccepted {
            restart_id,
            daemon_instance_id,
            target_generation,
        } && restart_id == ticket.restart_id && daemon_instance_id == ticket.daemon_instance_id
            && target_generation == ticket.target_generation),
        drain_acknowledged ==> *final(lifecycle) == *old(lifecycle),
        !drain_acknowledged ==> final(lifecycle).stop_requested
            && !final(lifecycle).restart_requested && final(lifecycle).state
            == LifecycleState::Draining,
{
}

/// Work that is not accepted is told so, and so is a script that was typed in and a channel that is none,
/// each by the code of its kind.
pub proof fn refusals_are_told_apart(
    draining: ResponsePayload,
    inline: ResponsePayload,
    channel: &str,
    expected: &str,
    unknown: ResponsePayload,
)
    requires
        call_ensures(draining_response, (), draining),
        call_ensures(inline_script_disabled_response, (), inline),
        call_ensures(invalid_event_channel_response, (channel, expected), unknown),
    ensures
        draining matches ResponsePayload::Failure { code, .. } && code == ErrorCode::DaemonDraining,
        inline matches ResponsePayload::Failure { code, .. } && code == ErrorCode::NotSupported,
        unknown matches ResponsePayload::Failure { code, message } && code
            == ErrorCode::InvalidRequest && message@ == "invalid event channel `"@ + channel@
            + "`; expected "@ + expected@,
{
}

/// Exactly scripts, runs, crons, retries and resumed crons are work.
pub proof fn work_is_told_from_questions(command: &ResolvedCommand, result: bool)
    requires
        call_ensures(command_starts_execution, (command,), result),
    ensures
        result <==> command is Script || command is Run || command is Cron || command is Retry
            || command is Resume,
{
}

} // verus!
