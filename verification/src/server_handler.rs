//! The decisions of the loop that serves one server: what it does with each
//! event handed to it, and the line it logs when it stops.

use vstd::prelude::*;
use crate::incoming::{IncomingAction, Received, incoming_action};
use crate::text::{decimal, decimal_digits};

verus! {

/// What the loop of one server received: a receive error, or an event, with
/// what routing needs of it.
pub enum ServerEvent {
    Failed,
    MessageCreate,
    ServerDelete,
    /// A presence update: whether the user is playing a game, the server it is
    /// about, and whether the update lists the user's roles.
    PresenceUpdate { playing: bool, server: Option<u64>, has_roles: bool },
    Unknown,
    Other,
}

/// What the loop of one server does with an event.
pub enum ServerAction {
    /// Log the error and wait for the next event.
    Skip,
    /// Log the message.
    HandleMessage,
    /// Log that the server was deleted and stop.
    Stop,
    /// The user started playing: greet it and give it the game's role.
    StartGame { server: u64 },
    /// The user stopped playing: take its game roles and delete unused ones.
    EndGame { server: u64 },
    /// Log the event as unknown.
    LogUnknown,
    /// Log the event as one that is not handled.
    LogOther,
}

/// What the loop of one server does with each event.
pub open spec fn server_action(e: ServerEvent) -> ServerAction {
    match e {
        ServerEvent::Failed => ServerAction::Skip,
        ServerEvent::MessageCreate => ServerAction::HandleMessage,
        ServerEvent::ServerDelete => ServerAction::Stop,
        ServerEvent::PresenceUpdate { playing, server, has_roles } => match server {
            Some(server) => if playing {
                ServerAction::StartGame { server }
            } else if has_roles {
                ServerAction::EndGame { server }
            } else {
                ServerAction::LogOther
            },
            None => ServerAction::LogOther,
        },
        ServerEvent::Unknown => ServerAction::LogUnknown,
        ServerEvent::Other => ServerAction::LogOther,
    }
}

/// Routes an event of one server: messages are logged, a deletion stops the
/// loop, a user starting a game in the server is greeted, a user no longer
/// playing whose roles are listed loses its game roles.
pub fn route_server_event(e: &ServerEvent) -> (a: ServerAction)
    ensures
        a == server_action(*e),
{
    match e {
        ServerEvent::Failed => ServerAction::Skip,
        ServerEvent::MessageCreate => ServerAction::HandleMessage,
        ServerEvent::ServerDelete => ServerAction::Stop,
        ServerEvent::PresenceUpdate { playing, server, has_roles } => match server {
            Some(server) => {
                if *playing {
                    ServerAction::StartGame { server: *server }
                } else if *has_roles {
                    ServerAction::EndGame { server: *server }
                } else {
                    ServerAction::LogOther
                }
            },
            None => ServerAction::LogOther,
        },
        ServerEvent::Unknown => ServerAction::LogUnknown,
        ServerEvent::Other => ServerAction::LogOther,
    }
}

/// The line logged when the loop of the server `id` stops.
pub fn server_delete_log_line(id: u64) -> (line: String)
    ensures
        line@ == "[ServerDelete] Server delete sent.  Closing thread "@ + decimal_digits(id as nat),
{
    let mut s = String::from_str("[ServerDelete] Server delete sent.  Closing thread ");
    let d = decimal(id);
    s.append(d.as_str());
    s
}

/// A deleted server's loop ends: the main loop unregisters the server and hands
/// its loop the deletion, on which that loop stops.
pub proof fn deleted_server_stops(server: u64)
    ensures
        incoming_action(Received::ServerDelete { server }) == (IncomingAction::RemoveServer {
            server,
        }),
        server_action(ServerEvent::ServerDelete) == ServerAction::Stop,
{
}

/// A presence update within a server reaches that server's loop, which greets
/// a user who started playing.
pub proof fn game_start_reaches_server(server: u64, has_roles: bool)
    ensures
        incoming_action(Received::PresenceUpdate { in_server: Some(server) }) == (
        IncomingAction::PassToServer { server }),
        server_action(ServerEvent::PresenceUpdate { playing: true, server: Some(server), has_roles })
            == (ServerAction::StartGame { server }),
{
}

/// Presence updates are acted on in the server they came from: a user who
/// stopped playing and whose roles are listed loses its game roles in that
/// very server, and a user who started playing is greeted in it.
pub proof fn presence_actions_keep_the_server(s: u64, has_roles: bool)
    ensures
        server_action(ServerEvent::PresenceUpdate { playing: false, server: Some(s), has_roles: true })
            == (ServerAction::EndGame { server: s }),
        server_action(ServerEvent::PresenceUpdate { playing: true, server: Some(s), has_roles })
            == (ServerAction::StartGame { server: s }),
{
}

/// Every server that an action of a server's loop names is the server of the
/// presence update it came from.
pub proof fn server_actions_name_the_event_server(e: ServerEvent)
    ensures
        match server_action(e) {
            ServerAction::StartGame { server } => e matches ServerEvent::PresenceUpdate {
                playing,
                server: Some(s),
                ..
            } && playing && s == server,
            ServerAction::EndGame { server } => e matches ServerEvent::PresenceUpdate {
                playing,
                server: Some(s),
                has_roles,
            } && !playing && has_roles && s == server,
            _ => true,
        },
{
}

} // verus!
