//! Which events a connection may see, and how a reply holds them back.
use crate::text::same;
use std::collections::HashSet;
use vstd::prelude::*;

verus! {

/// Who may see an event.
#[derive(Clone, Debug)]
pub enum ClientEventAudience {
    /// Everybody: the event belongs to no resource.
    Global,
    /// Those who see the resources of a named session, or of an anonymous one where there is no
    /// name.
    Session(Option<String>),
}

/// An event on its way out, with the audience that it was authorized for.
///
/// The audience travels with the event, so that it can be checked again when the connection has
/// changed its session in between.
#[derive(Clone, Debug)]
pub struct ClientEvent<P> {
    pub payload: P,
    pub audience: ClientEventAudience,
}

impl<P> ClientEvent<P> {
    /// An event for everybody.
    pub fn global(payload: P) -> (event: Self)
        ensures
            event == (ClientEvent { payload, audience: ClientEventAudience::Global }),
    {
        ClientEvent { payload, audience: ClientEventAudience::Global }
    }

    /// An event of a resource.
    pub fn session(payload: P, session_id: Option<String>) -> (event: Self)
        ensures
            event == (ClientEvent { payload, audience: ClientEventAudience::Session(session_id) }),
    {
        ClientEvent { payload, audience: ClientEventAudience::Session(session_id) }
    }
}

/// What happens to events that are queued while a reply is outstanding.
#[derive(Clone, Copy, PartialEq, Eq, Structural, Debug)]
pub enum ClientEventFencePolicy {
    /// They belong to the session that the connection leaves, and are dropped.
    DropQueued,
    /// They came after the snapshot that the reply holds, and are kept behind it.
    HoldQueued,
}

/// A reply that has to be written before events flow again.
#[derive(Clone, Copy, PartialEq, Eq, Structural, Debug)]
pub struct ClientEventFence {
    pub request_id: u32,
    pub policy: ClientEventFencePolicy,
}

/// What a connection may see. It has no binding before its handshake; an anonymous one is bound to
/// no name.
#[derive(Debug)]
pub struct ClientEventState {
    pub binding: Option<Option<String>>,
    pub fence: Option<ClientEventFence>,
}

impl Default for ClientEventState {
    fn default() -> (state: Self)
        ensures
            state.binding.is_none(),
            state.fence.is_none(),
    {
        ClientEventState { binding: None, fence: None }
    }
}

/// The name of a session that may have none.
pub open spec fn session_name(name: Option<String>) -> Option<Seq<char>> {
    match name {
        Some(name) => Some(name@),
        None => None,
    }
}

/// The binding of a connection by names.
pub open spec fn binding_name(binding: Option<Option<String>>) -> Option<Option<Seq<char>>> {
    match binding {
        Some(name) => Some(session_name(name)),
        None => None,
    }
}

/// A connection may see an event: global ones always, those of a resource never before the
/// handshake, always where it is anonymous, and otherwise where it is attached to the owner.
pub open spec fn may_see(
    binding: Option<Option<Seq<char>>>,
    audience: ClientEventAudience,
) -> bool {
    match audience {
        ClientEventAudience::Global => true,
        ClientEventAudience::Session(owner) => match binding {
            None => false,
            Some(None) => true,
            Some(Some(attached)) => session_name(owner) == Some(attached),
        },
    }
}

fn same_session(a: &Option<String>, b: &Option<String>) -> (result: bool)
    ensures
        result == (session_name(*a) == session_name(*b)),
{
    match (a, b) {
        (Some(a), Some(b)) => same(a.as_str(), b.as_str()),
        (None, None) => true,
        _ => false,
    }
}

/// Whether a connection may see an event.
pub fn event_audience_matches(
    binding: &Option<Option<String>>,
    audience: &ClientEventAudience,
) -> (result: bool)
    ensures
        result == may_see(binding_name(*binding), *audience),
{
    match audience {
        ClientEventAudience::Global => true,
        ClientEventAudience::Session(owner) => match binding {
            None => false,
            Some(None) => true,
            Some(Some(attached)) => match owner {
                Some(owner) => same(owner.as_str(), attached.as_str()),
                None => false,
            },
        },
    }
}

/// Whether a reply holds events back.
pub fn client_event_fenced(state: &ClientEventState) -> (result: bool)
    ensures
        result == state.fence.is_some(),
{
    state.fence.is_some()
}

/// Whether an event may be written now.
pub fn client_event_is_deliverable(
    state: &ClientEventState,
    audience: &ClientEventAudience,
) -> (result: bool)
    ensures
        result == (state.fence.is_none() && may_see(binding_name(state.binding), *audience)),
{
    state.fence.is_none() && event_audience_matches(&state.binding, audience)
}

/// An event may be queued.
pub open spec fn may_enqueue(state: ClientEventState, audience: ClientEventAudience) -> bool {
    &&& may_see(binding_name(state.binding), audience)
    &&& !(state.fence matches Some(fence) && fence.policy == ClientEventFencePolicy::DropQueued)
}

/// Whether an event may be queued.
pub fn client_event_can_enqueue(
    state: &ClientEventState,
    audience: &ClientEventAudience,
) -> (result: bool)
    ensures
        result == may_enqueue(*state, *audience),
{
    let dropping = match state.fence {
        Some(fence) => fence.policy == ClientEventFencePolicy::DropQueued,
        None => false,
    };
    event_audience_matches(&state.binding, audience) && !dropping
}

/// A connection is bound to a session from now on, and its reply to `request_id` separates the
/// events of the two. Tells whether the binding is another one.
pub fn begin_client_event_fence(
    state: &mut ClientEventState,
    request_id: u32,
    named_session_id: Option<String>,
) -> (changed: bool)
    ensures
        changed == (binding_name(old(state).binding) != Some(session_name(named_session_id))),
        final(state).binding == Some(named_session_id),
        final(state).fence == Some(
            ClientEventFence { request_id, policy: ClientEventFencePolicy::DropQueued },
        ),
{
    let changed = match &state.binding {
        Some(bound) => !same_session(bound, &named_session_id),
        None => true,
    };
    state.binding = Some(named_session_id);
    state.fence = Some(
        ClientEventFence { request_id, policy: ClientEventFencePolicy::DropQueued },
    );
    changed
}

/// Events wait behind the reply to `request_id`, and are kept.
pub fn begin_client_event_hold_fence(state: &mut ClientEventState, request_id: u32)
    requires
        old(state).fence.is_none(),
    ensures
        final(state).binding == old(state).binding,
        final(state).fence == Some(
            ClientEventFence { request_id, policy: ClientEventFencePolicy::HoldQueued },
        ),
{
    state.fence = Some(
        ClientEventFence { request_id, policy: ClientEventFencePolicy::HoldQueued },
    );
}

/// The reply to a request was written: if events waited for it they flow again. Tells whether what
/// is queued has to be dropped first.
pub fn complete_client_event_fence(state: &mut ClientEventState, request_id: u32) -> (drop_queued:
    bool)
    ensures
        final(state).binding == old(state).binding,
        match old(state).fence {
            Some(fence) if fence.request_id == request_id => {
                &&& final(state).fence.is_none()
                &&& drop_queued == (fence.policy == ClientEventFencePolicy::DropQueued)
            },
            _ => final(state).fence == old(state).fence && !drop_queued,
        },
{
    match state.fence {
        Some(fence) => {
            if fence.request_id != request_id {
                return false;
            }
            state.fence = None;
            fence.policy == ClientEventFencePolicy::DropQueued
        },
        None => false,
    }
}

/// How many requests of one connection may be under way.
pub const MAX_INFLIGHT_REQUESTS_PER_CLIENT: usize = 1_024;

/// Reserves the number of a request until its reply is written. Fails for a number that is taken
/// and for one request too many.
pub fn reserve_request_id(inflight: &mut HashSet<u32>, request_id: u32) -> (reserved: bool)
    ensures
        reserved == (old(inflight)@.len() < MAX_INFLIGHT_REQUESTS_PER_CLIENT && !old(
            inflight,
        )@.contains(request_id)),
        reserved ==> final(inflight)@ == old(inflight)@.insert(request_id),
        !reserved ==> final(inflight)@ == old(inflight)@,
{
    broadcast use vstd::std_specs::hash::group_hash_axioms;

    if inflight.len() >= MAX_INFLIGHT_REQUESTS_PER_CLIENT {
        return false;
    }
    let inserted = inflight.insert(request_id);
    proof {
        if !inserted {
            assert(old(inflight)@.insert(request_id) =~= old(inflight)@);
        }
    }
    inserted
}

/// Releases the number of a request.
pub fn release_request_id(inflight: &mut HashSet<u32>, request_id: u32)
    ensures
        final(inflight)@ == old(inflight)@.remove(request_id),
{
    broadcast use vstd::std_specs::hash::group_hash_axioms;

    let _ = inflight.remove(&request_id);
}

/// A number cannot be used again before its reply is written, and can afterwards.
pub proof fn request_id_is_reserved_until_released(inflight: Set<u32>, request_id: u32)
    requires
        inflight.finite(),
        inflight.len() < MAX_INFLIGHT_REQUESTS_PER_CLIENT,
        !inflight.contains(request_id),
    ensures
        inflight.insert(request_id).contains(request_id),
        inflight.insert(request_id).remove(request_id) == inflight,
{
    assert(inflight.insert(request_id).remove(request_id) =~= inflight);
}

/// While a connection changes its session nothing can be queued for it, and nothing of the session
/// that it left can be written to it later.
pub proof fn session_switch_separates_events(
    state: ClientEventState,
    audience: ClientEventAudience,
    owner: String,
    attached: String,
)
    requires
        audience == ClientEventAudience::Session(Some(owner)),
        binding_name(state.binding) == Some(Some(attached@)),
        owner@ != attached@,
    ensures
        !may_enqueue(state, audience),
        !may_see(binding_name(state.binding), audience),
        state.fence matches Some(fence) && fence.policy == ClientEventFencePolicy::DropQueued
            ==> forall|other: ClientEventAudience| !may_enqueue(state, other),
{
}

/// Who sees an event: everybody what is for everybody; what belongs to a session those who are
/// attached to it and those who are anonymous; and nobody before a handshake. What has no owner is
/// not for those who are attached to a session.
pub proof fn events_reach_their_audience(
    binding: &Option<Option<String>>,
    audience: &ClientEventAudience,
    result: bool,
)
    requires
        call_ensures(event_audience_matches, (binding, audience), result),
    ensures
        *audience is Global ==> result,
        *audience is Session && *binding is None ==> !result,
        *audience is Session && (*binding matches Some(name) && name is None) ==> result,
        *audience matches ClientEventAudience::Session(Some(owner)) ==> (*binding matches Some(
            Some(attached),
        ) ==> (result <==> attached@ == owner@)),
        *audience matches ClientEventAudience::Session(None) ==> (*binding matches Some(Some(_))
            ==> !result),
{
}

/// An event is written now only where it may be queued, and where nothing holds it back. While a
/// reply holds events back, those that came after its snapshot are queued, and while the connection
/// changes its session none is.
pub proof fn held_events_are_queued(
    state: &ClientEventState,
    audience: &ClientEventAudience,
    sees: bool,
    deliverable: bool,
    queued: bool,
    fenced: bool,
)
    requires
        call_ensures(event_audience_matches, (&state.binding, audience), sees),
        call_ensures(client_event_is_deliverable, (state, audience), deliverable),
        call_ensures(client_event_can_enqueue, (state, audience), queued),
        call_ensures(client_event_fenced, (state,), fenced),
    ensures
        deliverable ==> queued && sees,
        deliverable <==> sees && !fenced,
        fenced <==> state.fence is Some,
        queued ==> sees,
        sees && !queued ==> (state.fence matches Some(fence) && fence.policy
            == ClientEventFencePolicy::DropQueued),
        (state.fence matches Some(fence) && fence.policy == ClientEventFencePolicy::DropQueued)
            ==> !queued,
        (state.fence matches Some(fence) && fence.policy == ClientEventFencePolicy::HoldQueued)
            ==> (queued <==> sees),
{
}

/// A reply that changes the session of a connection drops what is queued once it is written; one that
/// only holds events back does not. The reply to another request does neither, and events stay held.
pub proof fn fence_falls_with_its_reply(
    bound: &mut ClientEventState,
    held: &mut ClientEventState,
    after_bound: &mut ClientEventState,
    after_held: &mut ClientEventState,
    request_id: u32,
    written: u32,
    name: Option<String>,
    changed: bool,
    drop_bound: bool,
    drop_held: bool,
)
    requires
        call_ensures(begin_client_event_fence, (bound, request_id, name), changed),
        call_ensures(begin_client_event_hold_fence, (held, request_id), ()),
        *old(after_bound) == *final(bound),
        *old(after_held) == *final(held),
        call_ensures(complete_client_event_fence, (after_bound, written), drop_bound),
        call_ensures(complete_client_event_fence, (after_held, written), drop_held),
    ensures
        drop_bound <==> written == request_id,
        !drop_held,
        final(after_bound).fence is None <==> written == request_id,
        final(after_held).fence is None <==> written == request_id,
        binding_name(final(after_bound).binding) == Some(session_name(name)),
        final(after_held).binding == old(held).binding,
        changed <==> binding_name(old(bound).binding) != Some(session_name(name)),
{
}

/// The number of a request is free, and may be used, exactly where no reply to it is owed and fewer
/// than 1024 are; once it is released it is free again.
pub proof fn request_number_is_free_again(
    inflight: &mut HashSet<u32>,
    later: &mut HashSet<u32>,
    request_id: u32,
    reserved: bool,
)
    requires
        call_ensures(reserve_request_id, (inflight, request_id), reserved),
        final(inflight)@ == old(later)@,
        call_ensures(release_request_id, (later, request_id), ()),
    ensures
        reserved <==> !old(inflight)@.contains(request_id) && old(inflight)@.len() < 1024,
        reserved ==> final(inflight)@.contains(request_id),
        reserved ==> final(later)@ == old(inflight)@,
        !final(later)@.contains(request_id),
{
    if reserved {
        assert(final(later)@ =~= old(inflight)@);
    }
}

/// An event keeps its payload and is for those whom it was made for.
pub proof fn event_keeps_its_audience<P>(
    payload: P,
    session_id: Option<String>,
    global: ClientEvent<P>,
    session: ClientEvent<P>,
)
    requires
        call_ensures(ClientEvent::<P>::global, (payload,), global),
        call_ensures(ClientEvent::<P>::session, (payload, session_id), session),
    ensures
        global.audience is Global,
        session.audience == ClientEventAudience::Session(session_id),
        global.payload == payload,
        session.payload == payload,
{
}

} // verus!
