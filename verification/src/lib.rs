use vstd::prelude::*;

pub mod actors;
pub mod assoc;
pub mod bytes;
pub mod cli_args;
pub mod client_events;
pub mod completion;
pub mod config;
pub mod digest;
pub mod dirs;
pub mod event_bus;
pub mod framing;
pub mod gateway;
pub mod handoff;
pub mod highlight;
pub mod identity;
pub mod instance;
pub mod ipc;
pub mod lifecycle;
pub mod numbering;
pub mod operation_ledger;
pub mod ordered_map;
pub mod paths;
pub mod replies;
pub mod routing;
pub mod scope_store;
pub mod service;
pub mod startup;
pub mod storage;
pub mod syntax_hints;
pub mod text;
pub mod words;

verus! {

/// The version of the daemon.
pub const VERSION: &'static str = "0.1.0";

/// The version of the daemon.
pub fn version() -> (version: &'static str)
    ensures
        version@ == VERSION@,
{
    VERSION
}

} // verus!
