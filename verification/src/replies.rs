//! What the replies of a daemon mean to the command that asked for them.
use crate::handoff::{DaemonIdentity, RestartReply};
use crate::text::{join2, join3};
use vstd::prelude::*;

verus! {

/// A reply, as far as the commands tell replies apart.
#[derive(Clone, PartialEq, Eq, Debug)]
pub enum DaemonReply {
    /// The answer to a ping.
    Pong(DaemonIdentity),
    /// The daemon will hand over to a successor.
    RestartAccepted { restart_id: String, daemon_instance_id: String, target_generation: String },
    /// Another outcome of a request that succeeded.
    Success,
    /// The request was refused. The code is as it is shown.
    Failure { code: String, message: String },
}

/// A message that a daemon has sent.
#[derive(Clone, PartialEq, Eq, Debug)]
pub struct DaemonMessage {
    /// The number of a request and the reply to it, unless the message is another one.
    pub response: Option<(u32, DaemonReply)>,
    /// The message as it is shown where it was not expected.
    pub shown: String,
}

/// The number of a command's first request.
pub const FIRST_REQUEST: u32 = 0;

/// Who has answered a ping with which a command began.
pub open spec fn pong_of(message: DaemonMessage) -> Option<DaemonIdentity> {
    match message.response {
        Some((id, DaemonReply::Pong(identity))) => if id == FIRST_REQUEST {
            Some(identity)
        } else {
            None
        },
        _ => None,
    }
}

/// Reads the answer to a ping.
pub fn ping_daemon(message: DaemonMessage) -> (result: Result<DaemonIdentity, String>)
    ensures
        match result {
            Ok(identity) => pong_of(message) == Some(identity),
            Err(told) => pong_of(message) is None && told@
                == "daemon returned unexpected Ping response: "@ + message.shown@,
        },
{
    let DaemonMessage { response, shown } = message;
    match response {
        Some((FIRST_REQUEST, DaemonReply::Pong(identity))) => Ok(identity),
        _ => Err(join2("daemon returned unexpected Ping response: ", shown.as_str())),
    }
}

/// Whether a daemon has answered a ping, and whether it is ready. There is no message where none
/// could be had.
pub open spec fn readiness(message: Option<&DaemonMessage>) -> Option<bool> {
    match message {
        Some(message) => match pong_of(*message) {
            Some(identity) => Some(identity.ready),
            None => None,
        },
        None => None,
    }
}

/// Whether a daemon has answered a ping, and whether it is ready.
pub fn daemon_pong_ready(message: Option<&DaemonMessage>) -> (ready: Option<bool>)
    ensures
        ready == readiness(message),
{
    match message {
        Some(message) => match &message.response {
            Some((id, DaemonReply::Pong(identity))) => if *id == FIRST_REQUEST {
                Some(identity.ready)
            } else {
                None
            },
            _ => None,
        },
        None => None,
    }
}

/// Whether a daemon answers and is ready.
pub fn daemon_ready(message: Option<&DaemonMessage>) -> (result: bool)
    ensures
        result == (readiness(message) == Some(true)),
{
    match daemon_pong_ready(message) {
        Some(ready) => ready,
        None => false,
    }
}

/// Whether a daemon answers.
pub fn daemon_responding(message: Option<&DaemonMessage>) -> (result: bool)
    ensures
        result == readiness(message).is_some(),
{
    daemon_pong_ready(message).is_some()
}

/// Makes sure that it is a daemon which answers, before it is asked to stop.
pub fn request_confirmed_shutdown(message: &DaemonMessage, socket: &str) -> (result: Result<
    (),
    String,
>)
    ensures
        match result {
            Ok(()) => pong_of(*message) is Some,
            Err(told) => pong_of(*message) is None && told@ == "refusing --force: socket "@
                + socket@ + " did not return a cued Pong"@,
        },
{
    if daemon_responding(Some(message)) {
        Ok(())
    } else {
        Err(join3("refusing --force: socket ", socket, " did not return a cued Pong"))
    }
}

/// Reads the answer to a request for a restart. A refusal counts whatever request it is for.
pub fn restart_reply(message: DaemonMessage) -> (reply: RestartReply)
    ensures
        match message.response {
            Some((
                id,
                DaemonReply::RestartAccepted { restart_id, daemon_instance_id, target_generation },
            )) if id == FIRST_REQUEST => reply == (RestartReply::Accepted {
                restart_id,
                daemon_instance_id,
                target_generation,
            }),
            Some((_, DaemonReply::Failure { code, message: text })) => reply
                == (RestartReply::Rejected { code, message: text }),
            _ => reply == (RestartReply::Unexpected { shown: message.shown }),
        },
{
    let DaemonMessage { response, shown } = message;
    match response {
        Some((
            FIRST_REQUEST,
            DaemonReply::RestartAccepted { restart_id, daemon_instance_id, target_generation },
        )) => RestartReply::Accepted { restart_id, daemon_instance_id, target_generation },
        Some((_, DaemonReply::Failure { code, message })) => RestartReply::Rejected {
            code,
            message,
        },
        _ => RestartReply::Unexpected { shown },
    }
}

/// What a command tells of the answer to its request to stop.
#[derive(Clone, PartialEq, Eq, Debug)]
pub enum ShutdownTold {
    /// A line for the user.
    Line(String),
    /// The reason that the daemon gave, for the log.
    Refusal(String),
}

/// Reads the answer to a request to stop. There is no message but an error where the daemon closed
/// the connection, as one does that stops at once.
pub fn request_shutdown(received: Result<DaemonMessage, String>) -> (told: ShutdownTold)
    ensures
        match received {
            Ok(message) => match message.response {
                Some((_, DaemonReply::Failure { message: text, .. })) => told
                    == ShutdownTold::Refusal(text),
                Some(_) => told matches ShutdownTold::Line(line) && line@
                    == "cued: shutdown acknowledged"@,
                None => told matches ShutdownTold::Line(line) && line@
                    == "cued: unexpected response"@,
            },
            Err(error) => told matches ShutdownTold::Line(line) && line@
                == "cued: connection closed ("@ + error@ + ") — daemon likely stopped"@,
        },
{
    match received {
        Ok(message) => match message.response {
            Some((_, DaemonReply::Failure { message, .. })) => ShutdownTold::Refusal(message),
            Some(_) => ShutdownTold::Line("cued: shutdown acknowledged".to_owned()),
            None => ShutdownTold::Line("cued: unexpected response".to_owned()),
        },
        Err(error) => ShutdownTold::Line(
            join3("cued: connection closed (", error.as_str(), ") — daemon likely stopped"),
        ),
    }
}

/// A daemon counts as answering exactly where it sent a pong to the first request, and as ready
/// exactly where that pong says so: any other message, and none, count as no answer.
pub proof fn only_a_pong_is_an_answer(
    message: &DaemonMessage,
    responding: bool,
    ready: bool,
    confirmed: Result<(), String>,
    socket: &str,
    pinged: Result<DaemonIdentity, String>,
    silent: bool,
)
    requires
        call_ensures(daemon_responding, (Some(message),), responding),
        call_ensures(daemon_ready, (Some(message),), ready),
        call_ensures(request_confirmed_shutdown, (message, socket), confirmed),
        call_ensures(ping_daemon, (*message,), pinged),
        call_ensures(daemon_responding, (None::<&DaemonMessage>,), silent),
    ensures
        responding <==> (message.response matches Some((id, reply)) && id == 0 && reply is Pong),
        ready <==> (message.response matches Some((id, DaemonReply::Pong(identity))) && id == 0
            && identity.ready),
        confirmed is Ok <==> responding,
        pinged is Ok <==> responding,
        pinged matches Ok(identity) ==> message.response == Some(
            (0u32, DaemonReply::Pong(identity)),
        ),
        !silent,
{
}

/// A restart counts as accepted only by the reply to the first request; a refusal counts whatever
/// request it names, and everything else is unexpected.
pub proof fn restart_reply_is_read_as_sent(message: DaemonMessage, reply: RestartReply)
    requires
        call_ensures(restart_reply, (message,), reply),
    ensures
        reply is Accepted <==> (message.response matches Some((id, told)) && id == 0 && told
            is RestartAccepted),
        reply is Rejected <==> (message.response matches Some((_, told)) && told is Failure),
        reply matches RestartReply::Accepted { restart_id, daemon_instance_id, target_generation }
            ==> message.response == Some(
            (
                0u32,
                DaemonReply::RestartAccepted { restart_id, daemon_instance_id, target_generation },
            ),
        ),
        reply matches RestartReply::Rejected { code, message: why } ==> (message.response
            matches Some((_, DaemonReply::Failure { code: c, message: m })) && c == code && m
            == why),
        reply matches RestartReply::Unexpected { shown } ==> shown == message.shown,
{
}

/// A stop that the daemon refuses is told with the daemon's reason; any other reply to it counts as
/// its acknowledgement, and a connection that ends as the end of the daemon.
pub proof fn only_a_refusal_keeps_the_daemon(
    received: Result<DaemonMessage, String>,
    told: ShutdownTold,
)
    requires
        call_ensures(request_shutdown, (received,), told),
    ensures
        told is Refusal <==> (received matches Ok(message) && (message.response matches Some(
            (_, reply),
        ) && reply is Failure)),
        told matches ShutdownTold::Refusal(why) ==> (received matches Ok(message) && (
        message.response matches Some((_, DaemonReply::Failure { message: text, .. })) && text
            == why)),
{
}

} // verus!
