//! The main event loop's decisions: the registry of per-server handlers, where
//! each received event goes, and the numbers logged at start-up.

use vstd::prelude::*;
use std::collections::HashMap;
use crate::model::ChannelType;
use crate::text::{decimal, decimal_digits};

verus! {

broadcast use vstd::std_specs::hash::group_hash_axioms;

/// The handlers of the servers the bot serves, one per server id.
pub struct ServerRegistry<T> {
    servers: HashMap<u64, T>,
}

impl<T> View for ServerRegistry<T> {
    type V = Map<u64, T>;

    closed spec fn view(&self) -> Map<u64, T> {
        self.servers@
    }
}

impl<T> ServerRegistry<T> {
    /// A registry with no server.
    pub fn new() -> (r: Self)
        ensures
            r@ == Map::<u64, T>::empty(),
    {
        ServerRegistry { servers: HashMap::new() }
    }

    /// The servers registered are finitely many.
    pub proof fn lemma_finite(&self)
        ensures
            self@.dom().finite(),
    {
    }

    /// The number of servers registered.
    pub fn len(&self) -> (n: usize)
        ensures
            n == self@.len(),
    {
        self.servers.len()
    }

    /// Registers `handler` for the server `id`, in place of any earlier one:
    /// one more server is registered unless `id` already was.
    pub fn add_server(&mut self, id: u64, handler: T)
        ensures
            final(self)@ == old(self)@.insert(id, handler),
            final(self)@.dom().finite(),
            final(self)@.len() == old(self)@.len() + (if old(self)@.contains_key(id) {
                0int
            } else {
                1int
            }),
    {
        proof {
            self.lemma_finite();
        }
        self.servers.insert(id, handler);
        proof {
            assert(self@.dom() =~= old(self)@.dom().insert(id));
        }
    }

    /// The handler of the server `id`, if it has one: where its events go.
    pub fn handler(&self, id: u64) -> (r: Option<&T>)
        ensures
            match r {
                Some(h) => self@.contains_key(id) && *h == self@[id],
                None => !self@.contains_key(id),
            },
    {
        self.servers.get(&id)
    }

    /// Unregisters the server `id` and hands back its handler, if it had one,
    /// so that the handler can be told to stop.
    pub fn remove_server(&mut self, id: u64) -> (r: Option<T>)
        ensures
            final(self)@ == old(self)@.remove(id),
            final(self)@.dom().finite(),
            final(self)@.len() == old(self)@.len() - (if old(self)@.contains_key(id) {
                1int
            } else {
                0int
            }),
            match r {
                Some(h) => old(self)@.contains_key(id) && h == old(self)@[id],
                None => !old(self)@.contains_key(id),
            },
    {
        proof {
            self.lemma_finite();
        }
        let r = self.servers.remove(&id);
        proof {
            assert(self@.dom() =~= old(self)@.dom().remove(id));
        }
        r
    }
}

/// Registering a server that was not registered and then removing it gives
/// back the registry as it was.
pub proof fn remove_undoes_add<T>(servers: Map<u64, T>, id: u64, handler: T)
    requires
        !servers.contains_key(id),
    ensures
        servers.insert(id, handler).remove(id) == servers,
        servers.insert(id, handler)[id] == handler,
{
    assert(servers.insert(id, handler).remove(id) =~= servers);
}

/// Registering or removing one server leaves the handlers of all others as
/// they were.
pub proof fn other_servers_untouched<T>(servers: Map<u64, T>, id: u64, other: u64, handler: T)
    requires
        id != other,
    ensures
        servers.insert(id, handler).contains_key(other) == servers.contains_key(other),
        servers.remove(id).contains_key(other) == servers.contains_key(other),
        servers.contains_key(other) ==> servers.insert(id, handler)[other] == servers[other]
            && servers.remove(id)[other] == servers[other],
{
}

/// What the main loop received: the connection closed, a receive error, or an
/// event, with what routing needs of it.
pub enum Received {
    Closed,
    Failed,
    ServerCreateOnline { server: u64 },
    ServerCreateOffline { server: u64 },
    ServerDelete { server: u64 },
    /// A new message; `public_server` is the server of its channel when the
    /// channel is a public channel of a server the bot knows.
    MessageCreate { public_server: Option<u64> },
    PresenceUpdate { in_server: Option<u64> },
    Unknown,
    Other,
}

/// What the main loop does with what it received.
pub enum IncomingAction {
    /// Stop the loop.
    Stop,
    /// Log the error and wait for the next event.
    Skip,
    /// Register a handler for the server and log that it came online.
    AddServer { server: u64 },
    /// Tell the server's handler to stop and unregister it.
    RemoveServer { server: u64 },
    /// Hand the event to the server's handler, if it has one.
    PassToServer { server: u64 },
    /// Log the message here.
    HandleHere,
    /// Log the event as unknown.
    LogUnknown,
    /// Log the event as one that is not handled.
    LogOther,
}

/// Where each thing the main loop receives goes.
pub open spec fn incoming_action(r: Received) -> IncomingAction {
    match r {
        Received::Closed => IncomingAction::Stop,
        Received::Failed => IncomingAction::Skip,
        Received::ServerCreateOnline { server } => IncomingAction::AddServer { server },
        Received::ServerCreateOffline { server } => IncomingAction::LogOther,
        Received::ServerDelete { server } => IncomingAction::RemoveServer { server },
        Received::MessageCreate { public_server } => match public_server {
            Some(server) => IncomingAction::PassToServer { server },
            None => IncomingAction::HandleHere,
        },
        Received::PresenceUpdate { in_server } => match in_server {
            Some(server) => IncomingAction::PassToServer { server },
            None => IncomingAction::LogOther,
        },
        Received::Unknown => IncomingAction::LogUnknown,
        Received::Other => IncomingAction::LogOther,
    }
}

/// Routes what the main loop received: a closed connection ends it, other
/// receive errors are skipped, servers coming online get a handler, deleted
/// servers lose theirs, messages in a server's public channels and presence
/// updates within a server go to that server's handler, other messages are
/// logged here.
pub fn route_incoming(r: &Received) -> (a: IncomingAction)
    ensures
        a == incoming_action(*r),
{
    match r {
        Received::Closed => IncomingAction::Stop,
        Received::Failed => IncomingAction::Skip,
        Received::ServerCreateOnline { server } => IncomingAction::AddServer { server: *server },
        Received::ServerCreateOffline { .. } => IncomingAction::LogOther,
        Received::ServerDelete { server } => IncomingAction::RemoveServer { server: *server },
        Received::MessageCreate { public_server } => match public_server {
            Some(server) => IncomingAction::PassToServer { server: *server },
            None => IncomingAction::HandleHere,
        },
        Received::PresenceUpdate { in_server } => match in_server {
            Some(server) => IncomingAction::PassToServer { server: *server },
            None => IncomingAction::LogOther,
        },
        Received::Unknown => IncomingAction::LogUnknown,
        Received::Other => IncomingAction::LogOther,
    }
}

/// Whether `r` is the server `id` coming online.
pub open spec fn creates(r: Received, id: u64) -> bool {
    r matches Received::ServerCreateOnline { server } && server == id
}

/// Whether `r` is the deletion of the server `id`.
pub open spec fn deletes(r: Received, id: u64) -> bool {
    r matches Received::ServerDelete { server } && server == id
}

/// The registry after an action of the main loop: a server coming online gets
/// `handler`, when there is one; a deleted server loses its handler; nothing
/// else changes the registry.
pub open spec fn after_action<T>(m: Map<u64, T>, a: IncomingAction, handler: Option<T>) -> Map<
    u64,
    T,
> {
    match a {
        IncomingAction::AddServer { server } => match handler {
            Some(h) => m.insert(server, h),
            None => m,
        },
        IncomingAction::RemoveServer { server } => m.remove(server),
        _ => m,
    }
}

impl<T> ServerRegistry<T> {
    /// One step of the main loop on the registry: routes what was received and
    /// applies the action to the registry, registering `handler` for a server
    /// that came online. Hands back the action, and the handler of a deleted
    /// server so that it can be told to stop.
    pub fn step(&mut self, r: &Received, handler: Option<T>) -> (res: (IncomingAction, Option<T>))
        ensures
            res.0 == incoming_action(*r),
            final(self)@ == after_action(old(self)@, res.0, handler),
            match res.0 {
                IncomingAction::RemoveServer { server } => match res.1 {
                    Some(h) => old(self)@.contains_key(server) && h == old(self)@[server],
                    None => !old(self)@.contains_key(server),
                },
                _ => res.1 is None,
            },
    {
        let action = route_incoming(r);
        match action {
            IncomingAction::AddServer { server } => {
                match handler {
                    Some(h) => self.add_server(server, h),
                    None => {},
                }
                (action, None)
            },
            IncomingAction::RemoveServer { server } => {
                let removed = self.remove_server(server);
                (action, removed)
            },
            _ => (action, None),
        }
    }
}

/// The registry after the main loop has taken each of `events` in turn,
/// starting from `m`, with `handlers[i]` the handler made for `events[i]`.
pub open spec fn after_events<T>(m: Map<u64, T>, events: Seq<Received>, handlers: Seq<T>) -> Map<
    u64,
    T,
>
    decreases events.len(),
{
    if events.len() == 0 {
        m
    } else {
        after_action(
            after_events(m, events.drop_last(), handlers.drop_last()),
            incoming_action(events.last()),
            Some(handlers.last()),
        )
    }
}

/// Whether, by `events`, the server `id` should be registered: the last of
/// the events that bring it online or delete it brings it online, or there is
/// none and it was registered at first (in `initial`).
pub open spec fn registered_by_events(initial: Set<u64>, events: Seq<Received>, id: u64) -> bool {
    ||| exists|i: int|
        0 <= i < events.len() && #[trigger] creates(events[i], id) && forall|j: int|
            i < j < events.len() ==> !creates(events[j], id) && !deletes(events[j], id)
    ||| (forall|j: int| 0 <= j < events.len() ==> !creates(events[j], id) && !deletes(events[j], id))
        && initial.contains(id)
}

/// The registry follows the events: after the main loop has taken a sequence
/// of events, a server has a handler exactly when the last event that brought
/// it online or deleted it brought it online, or there was none and it had a
/// handler at first. A server that comes online while offline adds nothing.
pub proof fn registry_follows_events<T>(
    m: Map<u64, T>,
    events: Seq<Received>,
    handlers: Seq<T>,
    id: u64,
)
    requires
        handlers.len() == events.len(),
    ensures
        after_events(m, events, handlers).contains_key(id) <==> registered_by_events(
            m.dom(),
            events,
            id,
        ),
    decreases events.len(),
{
    if events.len() > 0 {
        let init = events.drop_last();
        let last = events.len() - 1;
        let e = events.last();
        registry_follows_events(m, init, handlers.drop_last(), id);
        let before = after_events(m, init, handlers.drop_last());
        let after = after_events(m, events, handlers);
        assert(after == after_action(before, incoming_action(e), Some(handlers.last())));
        assert(forall|j: int| 0 <= j < init.len() ==> init[j] == events[j]);
        if creates(e, id) {
            assert(after.contains_key(id));
            assert(creates(events[last], id));
        } else if deletes(e, id) {
            assert(!after.contains_key(id));
            if registered_by_events(m.dom(), events, id) {
                if exists|i: int|
                    0 <= i < events.len() && #[trigger] creates(events[i], id) && forall|j: int|
                        i < j < events.len() ==> !creates(events[j], id) && !deletes(events[j], id) {
                    let i = choose|i: int|
                        0 <= i < events.len() && #[trigger] creates(events[i], id) && forall|j: int|
                            i < j < events.len() ==> !creates(events[j], id) && !deletes(
                                events[j],
                                id,
                            );
                    if i < last {
                        assert(deletes(events[last], id));
                    }
                } else {
                    assert(deletes(events[last], id));
                }
            }
        } else {
            assert(after.contains_key(id) == before.contains_key(id)) by {
                match e {
                    Received::ServerCreateOnline { server } => {},
                    Received::ServerDelete { server } => {},
                    _ => {},
                }
            }
            if registered_by_events(m.dom(), init, id) {
                if exists|i: int|
                    0 <= i < init.len() && #[trigger] creates(init[i], id) && forall|j: int|
                        i < j < init.len() ==> !creates(init[j], id) && !deletes(init[j], id) {
                    let i = choose|i: int|
                        0 <= i < init.len() && #[trigger] creates(init[i], id) && forall|j: int|
                            i < j < init.len() ==> !creates(init[j], id) && !deletes(init[j], id);
                    assert(creates(events[i], id));
                    assert forall|j: int| i < j < events.len() implies !creates(events[j], id)
                        && !deletes(events[j], id) by {
                        if j < last {
                            assert(events[j] == init[j]);
                        }
                    }
                } else {
                    assert forall|j: int| 0 <= j < events.len() implies !creates(events[j], id)
                        && !deletes(events[j], id) by {
                        if j < last {
                            assert(events[j] == init[j]);
                        }
                    }
                }
            }
            if registered_by_events(m.dom(), events, id) {
                if exists|i: int|
                    0 <= i < events.len() && #[trigger] creates(events[i], id) && forall|j: int|
                        i < j < events.len() ==> !creates(events[j], id) && !deletes(events[j], id) {
                    let i = choose|i: int|
                        0 <= i < events.len() && #[trigger] creates(events[i], id) && forall|j: int|
                            i < j < events.len() ==> !creates(events[j], id) && !deletes(
                                events[j],
                                id,
                            );
                    assert(i < last);
                    assert(creates(init[i], id));
                    assert forall|j: int| i < j < init.len() implies !creates(init[j], id)
                        && !deletes(init[j], id) by {
                        assert(events[j] == init[j]);
                    }
                } else {
                    assert forall|j: int| 0 <= j < init.len() implies !creates(init[j], id)
                        && !deletes(init[j], id) by {
                        assert(events[j] == init[j]);
                    }
                }
            }
        }
    }
}

/// Events reach the server they concern: a message in a public channel of
/// server `s`, or a presence update in `s`, is handed to the handler of `s`;
/// `s` coming online registers `s`, and its deletion unregisters `s`.
pub proof fn events_reach_their_server(s: u64)
    ensures
        incoming_action(Received::MessageCreate { public_server: Some(s) })
            == (IncomingAction::PassToServer { server: s }),
        incoming_action(Received::PresenceUpdate { in_server: Some(s) })
            == (IncomingAction::PassToServer { server: s }),
        incoming_action(Received::ServerCreateOnline { server: s }) == (IncomingAction::AddServer {
            server: s,
        }),
        incoming_action(Received::ServerDelete { server: s }) == (IncomingAction::RemoveServer {
            server: s,
        }),
{
}

/// Every server that an action of the main loop names is the server of the
/// event it came from.
pub proof fn incoming_actions_name_the_event_server(r: Received)
    ensures
        match incoming_action(r) {
            IncomingAction::AddServer { server } => r == (Received::ServerCreateOnline { server }),
            IncomingAction::RemoveServer { server } => r == (Received::ServerDelete { server }),
            IncomingAction::PassToServer { server } => r == (Received::MessageCreate {
                public_server: Some(server),
            }) || r == (Received::PresenceUpdate { in_server: Some(server) }),
            IncomingAction::HandleHere => r == (Received::MessageCreate { public_server: None }),
            _ => true,
        },
{
}

/// The number of text channels among `kinds`.
pub open spec fn text_channels_in(kinds: Seq<ChannelType>) -> nat
    decreases kinds.len(),
{
    if kinds.len() == 0 {
        0
    } else {
        text_channels_in(kinds.drop_last()) + match kinds.last() {
            ChannelType::Text => 1nat,
            _ => 0nat,
        }
    }
}

/// The number of text channels over all servers, each given by the kinds of
/// its channels.
pub open spec fn text_channel_total(servers: Seq<Vec<ChannelType>>) -> nat
    decreases servers.len(),
{
    if servers.len() == 0 {
        0
    } else {
        text_channel_total(servers.drop_last()) + text_channels_in(servers.last()@)
    }
}

/// The number of text channels of one server.
pub fn count_text_channels_of(kinds: &Vec<ChannelType>) -> (n: usize)
    ensures
        n == text_channels_in(kinds@),
{
    let len = kinds.len();
    let mut n: usize = 0;
    let mut i: usize = 0;
    while i < len
        invariant
            len == kinds@.len(),
            i <= len,
            n == text_channels_in(kinds@.take(i as int)),
            n <= i,
        decreases len - i,
    {
        assert(kinds@.take(i + 1).drop_last() =~= kinds@.take(i as int));
        match kinds[i] {
            ChannelType::Text => {
                n = n + 1;
            },
            _ => {},
        }
        i = i + 1;
    }
    assert(kinds@.take(len as int) =~= kinds@);
    n
}

/// A prefix of the servers has no more text channels than all of them.
proof fn text_channel_total_prefix(servers: Seq<Vec<ChannelType>>, i: int)
    requires
        0 <= i <= servers.len(),
    ensures
        text_channel_total(servers.take(i)) <= text_channel_total(servers),
    decreases servers.len(),
{
    if i < servers.len() {
        assert(servers.drop_last().take(i) =~= servers.take(i));
        text_channel_total_prefix(servers.drop_last(), i);
    } else {
        assert(servers.take(i) =~= servers);
    }
}

/// The number of text channels over all servers, each given by the kinds of
/// its channels (the count logged when the bot is ready).
pub fn count_text_channels(servers: &Vec<Vec<ChannelType>>) -> (n: usize)
    requires
        text_channel_total(servers@) <= usize::MAX,
    ensures
        n == text_channel_total(servers@),
{
    let len = servers.len();
    let mut n: usize = 0;
    let mut i: usize = 0;
    while i < len
        invariant
            len == servers@.len(),
            i <= len,
            n == text_channel_total(servers@.take(i as int)),
            text_channel_total(servers@) <= usize::MAX,
        decreases len - i,
    {
        assert(servers@.take(i + 1).drop_last() =~= servers@.take(i as int));
        proof {
            text_channel_total_prefix(servers@, i + 1);
        }
        let k = count_text_channels_of(&servers[i]);
        n = n + k;
        i = i + 1;
    }
    assert(servers@.take(len as int) =~= servers@);
    n
}

/// The log line written when the bot is ready.
pub fn ready_log_line(username: &str, servers: usize, text_channels: usize) -> (line: String)
    ensures
        line@ == "[Ready] "@ + username@ + " logging "@ + decimal_digits(servers as nat)
            + " servers with "@ + decimal_digits(text_channels as nat) + " text channels"@,
{
    let mut s = String::from_str("[Ready] ");
    s.append(username);
    s.append(" logging ");
    let a = decimal(servers as u64);
    s.append(a.as_str());
    s.append(" servers with ");
    let b = decimal(text_channels as u64);
    s.append(b.as_str());
    s.append(" text channels");
    s
}

} // verus!
