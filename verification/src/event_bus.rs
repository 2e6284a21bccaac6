//! Which client listens to which channel, and what becomes of it when an event is published.
use crate::assoc;
use crate::text::same;
use vstd::prelude::*;

verus! {

/// A client that listens to a channel, and the number of the queue through which it is reached.
#[derive(Debug)]
pub struct EventSubscription {
    pub channel: String,
    pub client_id: u64,
    pub sink: u64,
}

/// A channel and a client.
pub type Listener = (Seq<char>, u64);

pub open spec fn listeners(entries: Seq<EventSubscription>) -> Seq<(Listener, u64)> {
    entries.map_values(|entry: EventSubscription| ((entry.channel@, entry.client_id), entry.sink))
}

/// What became of an event for one client.
#[derive(Clone, Copy, PartialEq, Eq, Structural, Debug)]
pub enum Delivery {
    Delivered,
    /// The queue of the client is full.
    Lagging,
    /// The client is gone.
    Closed,
}

/// How many clients an event reached.
#[derive(Clone, Copy, PartialEq, Eq, Structural, Debug)]
pub struct PublishStats {
    pub delivered: usize,
    pub lagging: usize,
    pub closed: usize,
}

/// How often an outcome occurs.
pub open spec fn outcomes(results: Seq<(u64, Delivery)>, outcome: Delivery) -> nat
    decreases results.len(),
{
    if results.len() == 0 {
        0
    } else {
        outcomes(results.drop_last(), outcome) + if results.last().1 == outcome {
            1nat
        } else {
            0nat
        }
    }
}

/// A client lost the event.
pub open spec fn lost(results: Seq<(u64, Delivery)>, client_id: u64) -> bool {
    exists|i: int|
        0 <= i < results.len() && (#[trigger] results[i]).0 == client_id && results[i].1
            != Delivery::Delivered
}

/// An event on the channel goes to the client.
pub open spec fn is_target(
    subscriptions: Map<Listener, u64>,
    channel: Seq<char>,
    excluded_client_id: Option<u64>,
    client_id: u64,
) -> bool {
    subscriptions.contains_key((channel, client_id)) && Some(client_id) != excluded_client_id
}

/// The clients that an event on a channel goes to, each once and with its queue.
pub open spec fn lists_targets(
    subscriptions: Map<Listener, u64>,
    channel: Seq<char>,
    excluded_client_id: Option<u64>,
    targets: Seq<(u64, u64)>,
) -> bool {
    &&& forall|i: int|
        0 <= i < targets.len() ==> is_target(
            subscriptions,
            channel,
            excluded_client_id,
            (#[trigger] targets[i]).0,
        ) && subscriptions[(channel, targets[i].0)] == targets[i].1
    &&& forall|client: u64| #[trigger]
        is_target(subscriptions, channel, excluded_client_id, client) ==> assoc::has_key(
            targets,
            client,
        )
    &&& assoc::distinct(targets)
}

/// The subscriptions once an event was published: a client that lost it listens to nothing.
pub open spec fn published(
    subscriptions: Map<Listener, u64>,
    results: Seq<(u64, Delivery)>,
) -> Map<Listener, u64> {
    subscriptions.restrict(Set::new(|listener: Listener| !lost(results, listener.1)))
}

/// The clients of a daemon by the channels that they listen to.
#[derive(Debug)]
pub struct EventSubscriptions {
    entries: Vec<EventSubscription>,
}

impl View for EventSubscriptions {
    type V = Map<Listener, u64>;

    closed spec fn view(&self) -> Map<Listener, u64> {
        assoc::as_map(listeners(self.entries@))
    }
}

impl EventSubscriptions {
    #[verifier::type_invariant]
    spec fn listeners_are_distinct(&self) -> bool {
        assoc::distinct(listeners(self.entries@))
    }
}

/// Among the first `n` entries is one of the client for the channel.
spec fn listens_before(
    pairs: Seq<(Listener, u64)>,
    channel: Seq<char>,
    client_id: u64,
    n: int,
) -> bool {
    exists|j: int| 0 <= j < n && (#[trigger] pairs[j]).0 == (channel, client_id)
}

proof fn lemma_listener(entries: Seq<EventSubscription>, i: int)
    requires
        assoc::distinct(listeners(entries)),
        0 <= i < entries.len(),
    ensures
        assoc::as_map(listeners(entries)).contains_key((entries[i].channel@, entries[i].client_id)),
        assoc::as_map(listeners(entries))[(entries[i].channel@, entries[i].client_id)]
            == entries[i].sink,
{
    assoc::lemma_entry(listeners(entries), i);
    assert(listeners(entries)[i] == (
        (entries[i].channel@, entries[i].client_id),
        entries[i].sink,
    ));
}

impl EventSubscriptions {
    /// Nobody listens.
    pub fn new() -> (subscriptions: Self)
        ensures
            subscriptions@ == Map::<Listener, u64>::empty(),
    {
        let subscriptions = EventSubscriptions { entries: Vec::new() };
        assert(subscriptions@ =~= Map::<Listener, u64>::empty());
        subscriptions
    }

    fn find(&self, client_id: u64, channel: &str) -> (result: Option<usize>)
        ensures
            assoc::distinct(listeners(self.entries@)),
            match result {
                Some(i) => i < self.entries@.len() && self.entries@[i as int].channel@ == channel@
                    && self.entries@[i as int].client_id == client_id,
                None => !self@.contains_key((channel@, client_id)),
            },
    {
        proof {
            use_type_invariant(self);
        }
        for i in 0..self.entries.len()
            invariant
                assoc::distinct(listeners(self.entries@)),
                forall|k: int|
                    0 <= k < i ==> (#[trigger] listeners(self.entries@)[k]).0 != (
                        channel@,
                        client_id,
                    ),
        {
            let entry = &self.entries[i];
            assert(listeners(self.entries@)[i as int].0 == (entry.channel@, entry.client_id));
            if entry.client_id == client_id && same(entry.channel.as_str(), channel) {
                return Some(i);
            }
        }
        None
    }

    /// A client starts to listen to a channel, or is reached through another queue from now on.
    pub fn subscribe(&mut self, client_id: u64, channel: String, sink: u64)
        ensures
            final(self)@ == old(self)@.insert((channel@, client_id), sink),
    {
        let ghost name = channel@;
        match self.find(client_id, channel.as_str()) {
            Some(i) => {
                let mut entries: Vec<EventSubscription> = Vec::new();
                std::mem::swap(&mut entries, &mut self.entries);
                let ghost pairs = listeners(entries@);
                proof {
                    assoc::lemma_update(pairs, i as int, sink);
                }
                entries.set(i, EventSubscription { channel, client_id, sink });
                assert(listeners(entries@) =~= pairs.update(i as int, ((name, client_id), sink)));
                self.entries = entries;
            },
            None => {
                let mut entries: Vec<EventSubscription> = Vec::new();
                std::mem::swap(&mut entries, &mut self.entries);
                let ghost pairs = listeners(entries@);
                proof {
                    assoc::lemma_push(pairs, (name, client_id), sink);
                }
                entries.push(EventSubscription { channel, client_id, sink });
                assert(listeners(entries@) =~= pairs.push(((name, client_id), sink)));
                self.entries = entries;
            },
        }
    }

    /// A client stops to listen to a channel.
    pub fn unsubscribe(&mut self, client_id: u64, channel: &str)
        ensures
            final(self)@ == old(self)@.remove((channel@, client_id)),
    {
        match self.find(client_id, channel) {
            Some(i) => {
                self.remove_at(i);
            },
            None => {
                assert(self@.remove((channel@, client_id)) =~= self@);
            },
        }
    }

    fn remove_at(&mut self, i: usize)
        requires
            i < old(self).entries@.len(),
        ensures
            final(self).entries@ == old(self).entries@.remove(i as int),
            final(self)@ == old(self)@.remove(
                (
                    old(self).entries@[i as int].channel@,
                    old(self).entries@[i as int].client_id,
                ),
            ),
    {
        proof {
            use_type_invariant(&*self);
        }
        let mut entries: Vec<EventSubscription> = Vec::new();
        std::mem::swap(&mut entries, &mut self.entries);
        let ghost pairs = listeners(entries@);
        proof {
            assoc::lemma_remove(pairs, i as int);
        }
        let _ = entries.remove(i);
        assert(listeners(entries@) =~= pairs.remove(i as int));
        self.entries = entries;
    }

    /// A client stops to listen to anything.
    pub fn unsubscribe_all(&mut self, client_id: u64)
        ensures
            final(self)@ == old(self)@.restrict(
                Set::new(|listener: Listener| listener.1 != client_id),
            ),
    {
        let ghost all = self@;
        let mut i: usize = 0;
        while i < self.entries.len()
            invariant
                i <= self.entries@.len(),
                all == old(self)@,
                forall|l: Listener| #[trigger]
                    self@.contains_key(l) ==> all.contains_key(l) && self@[l] == all[l],
                forall|l: Listener|
                    all.contains_key(l) && !(#[trigger] self@.contains_key(l)) ==> l.1 == client_id,
                forall|k: int|
                    0 <= k < i ==> (#[trigger] self.entries@[k]).client_id != client_id,
            decreases self.entries@.len() - i,
        {
            if self.entries[i].client_id == client_id {
                let ghost entries = self.entries@;
                self.remove_at(i);
                assert(forall|k: int| 0 <= k < i ==> #[trigger] self.entries@[k] == entries[k]);
            } else {
                i = i + 1;
            }
        }
        proof {
            let rest = listeners(self.entries@);
            assert forall|l: Listener| #[trigger] self@.contains_key(l) implies l.1
                != client_id by {
                let k = assoc::place_of(rest, l);
                assert(rest[k].0 == l);
                assert(self.entries@[k].client_id == l.1);
            }
            assert(self@ =~= all.restrict(Set::new(|listener: Listener| listener.1 != client_id)));
        }
    }

    /// Whom an event on a channel goes to: the clients that listen to it but for one, each with its
    /// queue.
    pub fn deliveries(&self, channel: &str, excluded_client_id: Option<u64>) -> (targets: Vec<
        (u64, u64),
    >)
        ensures
            lists_targets(self@, channel@, excluded_client_id, targets@),
    {
        proof {
            use_type_invariant(self);
        }
        let ghost pairs = listeners(self.entries@);
        let mut targets: Vec<(u64, u64)> = Vec::new();
        for i in 0..self.entries.len()
            invariant
                pairs == listeners(self.entries@),
                assoc::distinct(pairs),
                forall|k: int|
                    0 <= k < targets@.len() ==> self@.contains_key(
                        (channel@, (#[trigger] targets@[k]).0),
                    ) && self@[(channel@, targets@[k].0)] == targets@[k].1 && Some(targets@[k].0)
                        != excluded_client_id,
                forall|k: int|
                    0 <= k < targets@.len() ==> listens_before(
                        pairs,
                        channel@,
                        (#[trigger] targets@[k]).0,
                        i as int,
                    ),
                forall|k: int|
                    0 <= k < i && (#[trigger] pairs[k]).0.0 == channel@ && Some(pairs[k].0.1)
                        != excluded_client_id ==> assoc::has_key(targets@, pairs[k].0.1),
                assoc::distinct(targets@),
        {
            let entry = &self.entries[i];
            proof {
                lemma_listener(self.entries@, i as int);
                assert(pairs[i as int] == ((entry.channel@, entry.client_id), entry.sink));
            }
            let ghost before = targets@;
            let excluded = match excluded_client_id {
                Some(client) => client == entry.client_id,
                None => false,
            };
            if !excluded && same(entry.channel.as_str(), channel) {
                targets.push((entry.client_id, entry.sink));
                proof {
                    assert(pairs[i as int].0 == (channel@, entry.client_id));
                    assert forall|a: int, b: int| 0 <= a < b < targets@.len() implies (
                    #[trigger] targets@[a]).0 != (#[trigger] targets@[b]).0 by {
                        if b == before.len() {
                            assert(targets@[a] == before[a]);
                            assert(listens_before(pairs, channel@, before[a].0, i as int));
                            let j = choose|j: int|
                                0 <= j < i && (#[trigger] pairs[j]).0 == (channel@, before[a].0);
                            assert(pairs[j].0 != pairs[i as int].0);
                        } else {
                            assert(targets@[a] == before[a]);
                            assert(targets@[b] == before[b]);
                        }
                    }
                    assert forall|k: int|
                        0 <= k < i + 1 && (#[trigger] pairs[k]).0.0 == channel@ && Some(
                            pairs[k].0.1,
                        ) != excluded_client_id implies assoc::has_key(
                        targets@,
                        pairs[k].0.1,
                    ) by {
                        if k < i {
                            let p = assoc::place_of(before, pairs[k].0.1);
                            assert(before[p].0 == pairs[k].0.1);
                            assert(targets@[p].0 == pairs[k].0.1);
                        } else {
                            assert(targets@[before.len() as int].0 == pairs[k].0.1);
                        }
                    }
                }
            }
            proof {
                assert forall|k: int| 0 <= k < targets@.len() implies listens_before(
                    pairs,
                    channel@,
                    (#[trigger] targets@[k]).0,
                    i + 1,
                ) by {
                    if k < before.len() {
                        assert(targets@[k] == before[k]);
                        assert(listens_before(pairs, channel@, before[k].0, i as int));
                        let j = choose|j: int|
                            0 <= j < i && (#[trigger] pairs[j]).0 == (channel@, before[k].0);
                        assert(pairs[j].0 == (channel@, targets@[k].0));
                    } else {
                        assert(pairs[i as int].0 == (channel@, targets@[k].0));
                    }
                }
            }
        }
        proof {
            assert forall|client: u64| #[trigger]
                self@.contains_key((channel@, client)) && Some(client)
                    != excluded_client_id implies assoc::has_key(targets@, client) by {
                let k = assoc::place_of(pairs, (channel@, client));
                assert(pairs[k].0 == (channel@, client));
            }
        }
        targets
    }

    /// Counts what became of an event. A client that lost it listens to nothing any more: its view
    /// of every channel is broken, and it has to connect again.
    pub fn finish_publish(&mut self, results: &Vec<(u64, Delivery)>) -> (stats: PublishStats)
        ensures
            stats.delivered == outcomes(results@, Delivery::Delivered),
            stats.lagging == outcomes(results@, Delivery::Lagging),
            stats.closed == outcomes(results@, Delivery::Closed),
            final(self)@ == published(old(self)@, results@),
    {
        let ghost all = self@;
        let mut stats = PublishStats { delivered: 0, lagging: 0, closed: 0 };
        assert(self@ =~= all.restrict(
            Set::new(|listener: Listener| !lost(results@.take(0), listener.1)),
        ));
        for i in 0..results.len()
            invariant
                all == old(self)@,
                stats.delivered == outcomes(results@.take(i as int), Delivery::Delivered),
                stats.lagging == outcomes(results@.take(i as int), Delivery::Lagging),
                stats.closed == outcomes(results@.take(i as int), Delivery::Closed),
                stats.delivered <= i,
                stats.lagging <= i,
                stats.closed <= i,
                self@ == all.restrict(
                    Set::new(|listener: Listener| !lost(results@.take(i as int), listener.1)),
                ),
        {
            let (client_id, outcome) = results[i];
            let ghost next = results@.take(i + 1);
            assert(next.drop_last() =~= results@.take(i as int));
            match outcome {
                Delivery::Delivered => {
                    stats.delivered = stats.delivered + 1;
                },
                Delivery::Lagging => {
                    stats.lagging = stats.lagging + 1;
                    self.unsubscribe_all(client_id);
                },
                Delivery::Closed => {
                    stats.closed = stats.closed + 1;
                    self.unsubscribe_all(client_id);
                },
            }
            proof {
                assert forall|c: u64| lost(next, c) == (lost(results@.take(i as int), c) || c
                    == client_id && outcome != Delivery::Delivered) by {
                    let prev = results@.take(i as int);
                    if lost(next, c) {
                        let k = choose|k: int|
                            0 <= k < next.len() && (#[trigger] next[k]).0 == c && next[k].1
                                != Delivery::Delivered;
                        if k < i {
                            assert(prev[k].0 == c);
                        }
                    }
                    if lost(prev, c) {
                        let k = choose|k: int|
                            0 <= k < prev.len() && (#[trigger] prev[k]).0 == c && prev[k].1
                                != Delivery::Delivered;
                        assert(next[k].0 == c);
                    }
                    if c == client_id && outcome != Delivery::Delivered {
                        assert(next[i as int].0 == c);
                    }
                }
                assert(self@ =~= all.restrict(
                    Set::new(|listener: Listener| !lost(next, listener.1)),
                ));
            }
        }
        assert(results@.take(results.len() as int) =~= results@);
        stats
    }

    /// How many clients listen to a channel.
    pub fn subscriber_count(&self, channel: &str) -> (count: usize)
        ensures
            count == self@.dom().filter(|listener: Listener| listener.0 == channel@).len(),
            self@.dom().finite(),
    {
        proof {
            use_type_invariant(self);
        }
        let ghost pairs = listeners(self.entries@);
        let ghost mut seen: Set<Listener> = Set::empty();
        let mut count: usize = 0;
        for i in 0..self.entries.len()
            invariant
                pairs == listeners(self.entries@),
                assoc::distinct(pairs),
                count <= i,
                seen.finite(),
                count == seen.len(),
                forall|l: Listener| #[trigger]
                    seen.contains(l) <==> l.0 == channel@ && exists|k: int|
                        0 <= k < i && (#[trigger] pairs[k]).0 == l,
        {
            let entry = &self.entries[i];
            assert(pairs[i as int] == ((entry.channel@, entry.client_id), entry.sink));
            let ghost before = seen;
            if same(entry.channel.as_str(), channel) {
                count = count + 1;
                proof {
                    let l = (entry.channel@, entry.client_id);
                    if before.contains(l) {
                        let k = choose|k: int| 0 <= k < i && (#[trigger] pairs[k]).0 == l;
                        assert(pairs[k].0 != pairs[i as int].0);
                    }
                    seen = seen.insert(l);
                }
            }
            proof {
                assert forall|l: Listener| #[trigger] seen.contains(l) <==> l.0 == channel@
                    && exists|k: int| 0 <= k < i + 1 && (#[trigger] pairs[k]).0 == l by {
                    if seen.contains(l) {
                        if before.contains(l) {
                            let k = choose|k: int| 0 <= k < i && (#[trigger] pairs[k]).0 == l;
                            assert(pairs[k].0 == l);
                        } else {
                            assert(pairs[i as int].0 == l);
                        }
                    }
                    if l.0 == channel@ && exists|k: int|
                        0 <= k < i + 1 && (#[trigger] pairs[k]).0 == l {
                        let k = choose|k: int| 0 <= k < i + 1 && (#[trigger] pairs[k]).0 == l;
                        if k < i {
                            assert(before.contains(l));
                        }
                    }
                }
            }
        }
        proof {
            assert(self@.dom().filter(|listener: Listener| listener.0 == channel@) =~= seen);
            lemma_finite(pairs);
        }
        count
    }
}

proof fn lemma_finite(pairs: Seq<(Listener, u64)>)
    ensures
        assoc::as_map(pairs).dom().finite(),
    decreases pairs.len(),
{
    if pairs.len() == 0 {
        assert(assoc::as_map(pairs).dom() =~= Set::<Listener>::empty());
    } else {
        let rest = pairs.drop_last();
        lemma_finite(rest);
        let last = pairs.last().0;
        let all = assoc::as_map(pairs).dom();
        assert(all =~= assoc::as_map(rest).dom().insert(last)) by {
            assert forall|l: Listener| all.contains(l) == assoc::as_map(rest).dom().insert(
                last,
            ).contains(l) by {
                if all.contains(l) {
                    let k = assoc::place_of(pairs, l);
                    if k < rest.len() {
                        assert(rest[k].0 == l);
                    }
                }
                if assoc::has_key(rest, l) {
                    let k = assoc::place_of(rest, l);
                    assert(pairs[k].0 == l);
                }
                if l == last {
                    assert(pairs[pairs.len() - 1].0 == l);
                }
            }
        }
    }
}

/// A client that lost an event listens to no channel at all afterwards; one that got it, or was not
/// addressed, listens to what it did before.
pub proof fn lossy_client_is_cut_off(
    before: Map<Listener, u64>,
    after: Map<Listener, u64>,
    results: Seq<(u64, Delivery)>,
    listener: Listener,
)
    requires
        after == published(before, results),
    ensures
        lost(results, listener.1) ==> !after.contains_key(listener),
        !lost(results, listener.1) ==> after.contains_key(listener) == before.contains_key(
            listener,
        ) && (before.contains_key(listener) ==> after[listener] == before[listener]),
{
}

/// Which clients are told to disconnect after an event was published: those that lost it, because
/// their queue was full or closed.
pub fn to_disconnect(results: &Vec<(u64, Delivery)>) -> (clients: Vec<u64>)
    ensures
        forall|client_id: u64| #[trigger]
            clients@.contains(client_id) <==> lost(results@, client_id),
        clients@.no_duplicates(),
{
    let mut clients: Vec<u64> = Vec::new();
    for i in 0..results.len()
        invariant
            clients@.no_duplicates(),
            forall|k: int| 0 <= k < clients@.len() ==> lost(results@, #[trigger] clients@[k]),
            forall|k: int|
                0 <= k < i && (#[trigger] results@[k]).1 != Delivery::Delivered
                    ==> clients@.contains(results@[k].0),
    {
        let (client_id, outcome) = results[i];
        if outcome != Delivery::Delivered {
            assert(results@[i as int].0 == client_id);
            let mut told = false;
            for j in 0..clients.len()
                invariant
                    told == exists|k: int| 0 <= k < j && #[trigger] clients@[k] == client_id,
            {
                if clients[j] == client_id {
                    told = true;
                }
            }
            if !told {
                let ghost before = clients@;
                clients.push(client_id);
                proof {
                    assert forall|k: int|
                        0 <= k < i && (#[trigger] results@[k]).1
                            != Delivery::Delivered implies clients@.contains(results@[k].0) by {
                        let p = before.index_of(results@[k].0);
                        assert(clients@[p] == results@[k].0);
                    }
                    assert(clients@[before.len() as int] == client_id);
                }
            }
        }
    }
    clients
}

/// How an event reached its targets: each is offered it once.
pub open spec fn answers_targets(
    targets: Seq<(u64, u64)>,
    results: Seq<(u64, Delivery)>,
) -> bool {
    &&& results.len() == targets.len()
    &&& forall|i: int| 0 <= i < targets.len() ==> (#[trigger] results[i]).0 == targets[i].0
}

proof fn lemma_outcomes_add_up(results: Seq<(u64, Delivery)>)
    ensures
        outcomes(results, Delivery::Delivered) + outcomes(results, Delivery::Lagging) + outcomes(
            results,
            Delivery::Closed,
        ) == results.len(),
    decreases results.len(),
{
    if results.len() > 0 {
        lemma_outcomes_add_up(results.drop_last());
    }
}

/// A published event is accounted for by every client that it goes to, and by no other: each is
/// counted once; one that lost the event listens to nothing any more; everybody else, the client
/// that was left out among them, listens as before.
pub proof fn publishing_accounts_for_every_target(
    subscriptions: Map<Listener, u64>,
    channel: Seq<char>,
    excluded_client_id: Option<u64>,
    targets: Seq<(u64, u64)>,
    results: Seq<(u64, Delivery)>,
    listener: Listener,
)
    requires
        lists_targets(subscriptions, channel, excluded_client_id, targets),
        answers_targets(targets, results),
    ensures
        outcomes(results, Delivery::Delivered) + outcomes(results, Delivery::Lagging) + outcomes(
            results,
            Delivery::Closed,
        ) == Set::new(
            |client: u64| is_target(subscriptions, channel, excluded_client_id, client),
        ).len(),
        lost(results, listener.1) ==> is_target(
            subscriptions,
            channel,
            excluded_client_id,
            listener.1,
        ) && !published(subscriptions, results).contains_key(listener),
        !lost(results, listener.1) ==> published(subscriptions, results).contains_key(listener)
            == subscriptions.contains_key(listener),
        published(subscriptions, results).contains_key(listener) ==> published(
            subscriptions,
            results,
        )[listener] == subscriptions[listener],
        excluded_client_id == Some(listener.1) ==> !lost(results, listener.1),
{
    lemma_outcomes_add_up(results);
    let clients = targets.map_values(|target: (u64, u64)| target.0);
    let reached = Set::new(
        |client: u64| is_target(subscriptions, channel, excluded_client_id, client),
    );
    assert(clients.no_duplicates()) by {
        assert forall|i: int, j: int|
            0 <= i < clients.len() && 0 <= j < clients.len() && i != j implies clients[i]
            != clients[j] by {
            assert(targets[i].0 == clients[i]);
            assert(targets[j].0 == clients[j]);
        }
    }
    clients.unique_seq_to_set();
    assert(clients.to_set() =~= reached) by {
        assert forall|client: u64| reached.contains(client) implies clients.contains(client) by {
            assert(is_target(subscriptions, channel, excluded_client_id, client));
            assert(assoc::has_key(targets, client));
            let i = assoc::place_of(targets, client);
            assert(targets[i].0 == client);
            assert(clients[i] == client);
        }
        assert forall|client: u64| clients.contains(client) implies reached.contains(client) by {
            let i = clients.index_of(client);
            assert(targets[i].0 == client);
        }
    }
    if lost(results, listener.1) {
        let i = choose|i: int|
            0 <= i < results.len() && (#[trigger] results[i]).0 == listener.1 && results[i].1
                != Delivery::Delivered;
        assert(targets[i].0 == listener.1);
    }
}

/// A client that listens to a channel is reached there through its queue, and stops to be when it
/// stops to listen. Neither touches another client or another channel.
pub proof fn listening_touches_one_channel_of_one_client(
    before: &mut EventSubscriptions,
    after: &mut EventSubscriptions,
    client_id: u64,
    channel: String,
    name: &str,
    sink: u64,
    other: Listener,
)
    requires
        name@ == channel@,
        call_ensures(EventSubscriptions::subscribe, (before, client_id, channel, sink), ()),
        old(after)@ == final(before)@,
        call_ensures(EventSubscriptions::unsubscribe, (after, client_id, name), ()),
    ensures
        final(before)@.contains_key((channel@, client_id)),
        final(before)@[(channel@, client_id)] == sink,
        !final(after)@.contains_key((channel@, client_id)),
        other != (channel@, client_id) ==> (final(before)@.contains_key(other) <==> old(before)@.contains_key(other)) && (final(after)@.contains_key(other) <==> old(before)@.contains_key(other)),
        other != (channel@, client_id) && old(before)@.contains_key(other) ==> final(before)@[other]
            == old(before)@[other] && final(after)@[other] == old(before)@[other],
{
}

/// A client that leaves listens to no channel, and every other one to what it did.
pub proof fn leaving_client_listens_to_nothing(
    subscriptions: &mut EventSubscriptions,
    client_id: u64,
    listener: Listener,
)
    requires
        call_ensures(EventSubscriptions::unsubscribe_all, (subscriptions, client_id), ()),
    ensures
        listener.1 == client_id ==> !final(subscriptions)@.contains_key(listener),
        listener.1 != client_id ==> (final(subscriptions)@.contains_key(listener) <==> old(subscriptions)@.contains_key(listener)),
        listener.1 != client_id && old(subscriptions)@.contains_key(listener) ==> final(subscriptions)@[listener] == old(subscriptions)@[listener],
{
}

/// An event goes to exactly those clients that listen to its channel, but for the one that is left
/// out, to each once and through its own queue.
pub proof fn event_goes_to_its_listeners(
    subscriptions: &EventSubscriptions,
    channel: &str,
    excluded_client_id: Option<u64>,
    targets: Vec<(u64, u64)>,
    client_id: u64,
    sink: u64,
    i: int,
    j: int,
)
    requires
        call_ensures(
            EventSubscriptions::deliveries,
            (subscriptions, channel, excluded_client_id),
            targets,
        ),
    ensures
        targets@.contains((client_id, sink)) <==> subscriptions@.contains_key((channel@, client_id))
            && subscriptions@[(channel@, client_id)] == sink && excluded_client_id != Some(
            client_id,
        ),
        0 <= i < j < targets@.len() ==> targets@[i].0 != targets@[j].0,
{
    if subscriptions@.contains_key((channel@, client_id)) && excluded_client_id != Some(client_id) {
        assert(is_target(subscriptions@, channel@, excluded_client_id, client_id));
        let k = assoc::place_of(targets@, client_id);
        assert(targets@[k].0 == client_id);
        assert(targets@[k].1 == subscriptions@[(channel@, client_id)]);
        if subscriptions@[(channel@, client_id)] == sink {
            assert(targets@[k] == (client_id, sink));
        }
    }
    if targets@.contains((client_id, sink)) {
        let k = targets@.index_of((client_id, sink));
        assert(targets@[k] == (client_id, sink));
    }
}

/// A client is told to leave exactly where it lost the event: it lagged behind, or was gone. One that
/// got it is not, and neither is one that the event did not go to.
pub proof fn only_those_who_lost_an_event_leave(
    results: &Vec<(u64, Delivery)>,
    clients: Vec<u64>,
    i: int,
    subscriptions: &mut EventSubscriptions,
    stats: PublishStats,
    listener: Listener,
)
    requires
        call_ensures(to_disconnect, (results,), clients),
        call_ensures(EventSubscriptions::finish_publish, (subscriptions, results), stats),
    ensures
        0 <= i < results@.len() && (results@[i].1 == Delivery::Lagging || results@[i].1
            == Delivery::Closed) ==> clients@.contains(results@[i].0),
        0 <= i < clients@.len() ==> exists|k: int|
            0 <= k < results@.len() && (#[trigger] results@[k]).0 == clients@[i] && results@[k].1
                != Delivery::Delivered,
        stats.delivered + stats.lagging + stats.closed == results@.len(),
        clients@.contains(listener.1) ==> !final(subscriptions)@.contains_key(listener),
        !clients@.contains(listener.1) ==> (final(subscriptions)@.contains_key(listener) <==> old(subscriptions)@.contains_key(listener)),
{
    lemma_outcomes_add_up(results@);
    if 0 <= i < results@.len() && results@[i].1 != Delivery::Delivered {
        assert(lost(results@, results@[i].0));
    }
    if 0 <= i < clients@.len() {
        assert(clients@.contains(clients@[i]));
        assert(lost(results@, clients@[i]));
    }
}

/// Outcomes are counted for what they are.
pub proof fn outcomes_are_counted_apart(
    subscriptions: &mut EventSubscriptions,
    results: &Vec<(u64, Delivery)>,
    stats: PublishStats,
    outcome: Delivery,
)
    requires
        call_ensures(EventSubscriptions::finish_publish, (subscriptions, results), stats),
        forall|i: int| 0 <= i < results@.len() ==> (#[trigger] results@[i]).1 == outcome,
    ensures
        stats.delivered == if outcome == Delivery::Delivered {
            results@.len()
        } else {
            0
        },
        stats.lagging == if outcome == Delivery::Lagging {
            results@.len()
        } else {
            0
        },
        stats.closed == if outcome == Delivery::Closed {
            results@.len()
        } else {
            0
        },
{
    lemma_same_outcome(results@, outcome, Delivery::Delivered);
    lemma_same_outcome(results@, outcome, Delivery::Lagging);
    lemma_same_outcome(results@, outcome, Delivery::Closed);
}

proof fn lemma_same_outcome(results: Seq<(u64, Delivery)>, outcome: Delivery, counted: Delivery)
    requires
        forall|i: int| 0 <= i < results.len() ==> (#[trigger] results[i]).1 == outcome,
    ensures
        outcomes(results, counted) == if outcome == counted {
            results.len()
        } else {
            0
        },
    decreases results.len(),
{
    if results.len() > 0 {
        assert(results.last().1 == outcome);
        lemma_same_outcome(results.drop_last(), outcome, counted);
    }
}

} // verus!
