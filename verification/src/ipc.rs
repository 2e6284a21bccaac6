//! The replies of the daemon.
use vstd::prelude::*;

verus! {

/// Why a request was refused.
#[derive(Clone, Copy, PartialEq, Eq, Structural, Debug)]
pub enum ErrorCode {
    InvalidRequest,
    InvalidState,
    InvalidSyntax,
    NotSupported,
    DaemonDraining,
    Internal,
}

/// What a foreground attachment may do.
#[derive(Clone, Copy, PartialEq, Eq, Structural, Debug)]
pub enum ForegroundRole {
    Controller,
    Observer,
}

/// The outcome of a request that succeeded.
#[derive(Debug)]
pub enum OkPayload {
    /// Nothing but success.
    Ack,
    /// The answer to a ping.
    Pong {
        version: String,
        instance_id: String,
        generation_id: String,
        ready: bool,
        protocol_version: u32,
        capabilities: Vec<String>,
    },
    /// The daemon will hand over to a successor.
    RestartAccepted { restart_id: String, daemon_instance_id: String, target_generation: String },
    /// A foreground attachment has another role.
    FgRoleChanged {
        id: String,
        attachment_id: u64,
        role: ForegroundRole,
        control_available: bool,
    },
    /// An outcome of another part of the daemon, in its encoded form.
    Encoded(Vec<u8>),
}

/// The reply to a request.
#[derive(Debug)]
pub enum ResponsePayload {
    Success(OkPayload),
    Failure { code: ErrorCode, message: String },
}

/// A reply that refuses a request.
pub open spec fn refuses(
    response: ResponsePayload,
    code: ErrorCode,
    message: Seq<char>,
) -> bool {
    match response {
        ResponsePayload::Success(_) => false,
        ResponsePayload::Failure { code: actual, message: text } => actual == code && text@ == message,
    }
}

impl ResponsePayload {
    /// The reply that says nothing but success.
    pub fn ack() -> (response: Self)
        ensures
            response == ResponsePayload::Success(OkPayload::Ack),
    {
        ResponsePayload::Success(OkPayload::Ack)
    }

    /// A reply that refuses a request.
    pub fn err(code: ErrorCode, message: &str) -> (response: Self)
        ensures
            refuses(response, code, message@),
    {
        ResponsePayload::Failure { code, message: message.to_owned() }
    }
}

/// A refusal has the code and the message that it was given, and success is none.
pub proof fn refusal_is_told_as_given(
    code: ErrorCode,
    message: &str,
    refusal: ResponsePayload,
    success: ResponsePayload,
)
    requires
        call_ensures(ResponsePayload::err, (code, message), refusal),
        call_ensures(ResponsePayload::ack, (), success),
    ensures
        refusal matches ResponsePayload::Failure { code: told, message: text } && told == code
            && text@ == message@,
        success matches ResponsePayload::Success(OkPayload::Ack),
{
}

} // verus!
