use gamebot::incoming::{
    count_text_channels, ready_log_line, route_incoming, IncomingAction, Received, ServerRegistry,
};
use gamebot::model::{ChannelType, Member, User};
use gamebot::server_config::{config_path, new, ServerSettings};
use gamebot::server_handler::{route_server_event, server_delete_log_line, ServerAction, ServerEvent};
use std::collections::HashMap;

#[test]
fn registry_add_find_remove() {
    let mut r: ServerRegistry<&str> = ServerRegistry::new();
    assert!(r.handler(1).is_none());
    assert_eq!(r.len(), 0);
    r.add_server(1, "one");
    r.add_server(2, "two");
    assert_eq!(r.len(), 2);
    r.add_server(2, "two");
    assert_eq!(r.len(), 2);
    assert_eq!(r.handler(1), Some(&"one"));
    assert_eq!(r.remove_server(1), Some("one"));
    assert!(r.handler(1).is_none());
    assert_eq!(r.remove_server(1), None);
    assert_eq!(r.len(), 1);
    assert_eq!(r.handler(2), Some(&"two"));
    r.add_server(2, "again");
    assert_eq!(r.handler(2), Some(&"again"));
}

#[test]
fn main_loop_routing() {
    assert!(matches!(route_incoming(&Received::Closed), IncomingAction::Stop));
    assert!(matches!(route_incoming(&Received::Failed), IncomingAction::Skip));
    assert!(matches!(route_incoming(&Received::ServerCreateOnline { server: 3 }), IncomingAction::AddServer { server: 3 }));
    assert!(matches!(route_incoming(&Received::ServerCreateOffline { server: 3 }), IncomingAction::LogOther));
    assert!(matches!(route_incoming(&Received::ServerDelete { server: 4 }), IncomingAction::RemoveServer { server: 4 }));
    assert!(matches!(route_incoming(&Received::MessageCreate { public_server: Some(5) }), IncomingAction::PassToServer { server: 5 }));
    assert!(matches!(route_incoming(&Received::MessageCreate { public_server: None }), IncomingAction::HandleHere));
    assert!(matches!(route_incoming(&Received::PresenceUpdate { in_server: Some(6) }), IncomingAction::PassToServer { server: 6 }));
    assert!(matches!(route_incoming(&Received::PresenceUpdate { in_server: None }), IncomingAction::LogOther));
    assert!(matches!(route_incoming(&Received::Unknown), IncomingAction::LogUnknown));
    assert!(matches!(route_incoming(&Received::Other), IncomingAction::LogOther));
}

#[test]
fn server_loop_routing() {
    assert!(matches!(route_server_event(&ServerEvent::Failed), ServerAction::Skip));
    assert!(matches!(route_server_event(&ServerEvent::MessageCreate), ServerAction::HandleMessage));
    assert!(matches!(route_server_event(&ServerEvent::ServerDelete), ServerAction::Stop));
    let start = ServerEvent::PresenceUpdate { playing: true, server: Some(7), has_roles: false };
    assert!(matches!(route_server_event(&start), ServerAction::StartGame { server: 7 }));
    let end = ServerEvent::PresenceUpdate { playing: false, server: Some(7), has_roles: true };
    assert!(matches!(route_server_event(&end), ServerAction::EndGame { server: 7 }));
    let bare = ServerEvent::PresenceUpdate { playing: false, server: Some(7), has_roles: false };
    assert!(matches!(route_server_event(&bare), ServerAction::LogOther));
    let nowhere = ServerEvent::PresenceUpdate { playing: true, server: None, has_roles: true };
    assert!(matches!(route_server_event(&nowhere), ServerAction::LogOther));
    assert!(matches!(route_server_event(&ServerEvent::Unknown), ServerAction::LogUnknown));
    assert!(matches!(route_server_event(&ServerEvent::Other), ServerAction::LogOther));
}

#[test]
fn deleted_server_is_removed_and_stops() {
    let mut r: ServerRegistry<u8> = ServerRegistry::new();
    r.add_server(4, 0);
    match route_incoming(&Received::ServerDelete { server: 4 }) {
        IncomingAction::RemoveServer { server } => assert_eq!(r.remove_server(server), Some(0)),
        _ => panic!("expected a removal"),
    }
    assert!(r.handler(4).is_none());
    assert!(matches!(route_server_event(&ServerEvent::ServerDelete), ServerAction::Stop));
}

#[test]
fn start_up_counts() {
    let servers = vec![
        vec![ChannelType::Text, ChannelType::Voice, ChannelType::Text],
        vec![],
        vec![ChannelType::Voice, ChannelType::Group, ChannelType::Private, ChannelType::Text],
    ];
    assert_eq!(count_text_channels(&servers), 3);
    assert_eq!(count_text_channels(&vec![]), 0);
    assert_eq!(ready_log_line("bot", 3, 12).as_str(), "[Ready] bot logging 3 servers with 12 text channels");
}

#[test]
fn log_lines_with_ids() {
    assert_eq!(server_delete_log_line(81384788765712384).as_str(), "[ServerDelete] Server delete sent.  Closing thread 81384788765712384");
}

#[test]
fn settings_and_paths() {
    let s = new(17);
    assert_eq!(s.id(), 17);
    assert!(s.game_messages.is_empty());
    assert_eq!(config_path(17).as_str(), "config/17.config");
    assert_ne!(config_path(1), config_path(11));
    let mut m = HashMap::new();
    m.insert("Doom".to_string(), vec!["$user fights".to_string()]);
    let t = ServerSettings::from_parts(3, m);
    assert_eq!(t.id(), 3);
    assert_eq!(t.id, 3);
    assert_eq!(t.game_messages.len(), 1);
}

#[test]
fn display_name_prefers_nickname() {
    let plain = Member { user: User { id: 1, name: "alice".to_string() }, roles: vec![], nick: None };
    assert_eq!(plain.display_name(), "alice");
    let nicked = Member { user: User { id: 1, name: "alice".to_string() }, roles: vec![], nick: Some("Al".to_string()) };
    assert_eq!(nicked.display_name(), "Al");
}

#[test]
fn registry_follows_the_events() {
    let mut r: ServerRegistry<u32> = ServerRegistry::new();
    r.add_server(1, 100);
    let (a, gone) = r.step(&Received::ServerCreateOnline { server: 2 }, Some(200));
    assert!(matches!(a, IncomingAction::AddServer { server: 2 }));
    assert!(gone.is_none());
    let (a, _) = r.step(&Received::ServerCreateOffline { server: 3 }, Some(300));
    assert!(matches!(a, IncomingAction::LogOther));
    assert!(r.handler(3).is_none());
    let (a, gone) = r.step(&Received::ServerDelete { server: 1 }, None);
    assert!(matches!(a, IncomingAction::RemoveServer { server: 1 }));
    assert_eq!(gone, Some(100));
    let (_, _) = r.step(&Received::MessageCreate { public_server: Some(2) }, None);
    let (_, gone) = r.step(&Received::ServerDelete { server: 2 }, None);
    assert_eq!(gone, Some(200));
    let (_, _) = r.step(&Received::ServerCreateOnline { server: 2 }, Some(201));
    assert!(r.handler(1).is_none());
    assert_eq!(r.handler(2), Some(&201));
    let (_, gone) = r.step(&Received::ServerDelete { server: 9 }, None);
    assert!(gone.is_none());
}
