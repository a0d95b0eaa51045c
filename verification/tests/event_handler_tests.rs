use gamebot::event_handler::{
    bot_role_present, find_member, find_role, game_role_color, game_role_name, game_roles_to_remove, handle_message_create,
    handle_server_create_online, reorder_single_rank, role_color, start_game_plan,
    unused_game_roles, StartGamePlan, MAX_COLOR,
};
use gamebot::model::{ChannelRef, Group, Member, Role, User};
use std::collections::hash_map::DefaultHasher;
use std::hash::{Hash, Hasher};

fn user(id: u64, name: &str) -> User {
    User { id, name: name.to_string() }
}

fn member(id: u64, name: &str, roles: Vec<u64>) -> Member {
    Member { user: user(id, name), roles, nick: None }
}

fn role(id: u64, name: &str, position: i64) -> Role {
    Role { id, name: name.to_string(), position }
}

#[test]
fn message_lines_per_channel_kind() {
    let alice = user(1, "alice");
    let public = Some(ChannelRef::Public {
        server_id: 9,
        server_name: "Guild".to_string(),
        channel_name: "general".to_string(),
    });
    assert_eq!(handle_message_create(&public, &alice, "hi").as_str(), "[Guild #general] alice: hi");
    let group = Some(ChannelRef::Group(Group { name: Some("pals".to_string()), recipients: vec![] }));
    assert_eq!(handle_message_create(&group, &alice, "yo").as_str(), "[Group pals] alice: yo");
    let unnamed = Some(ChannelRef::Group(Group {
        name: None,
        recipients: vec![user(2, "bob"), user(3, "carol")],
    }));
    assert_eq!(handle_message_create(&unnamed, &alice, "yo").as_str(), "[Group bob, carol] alice: yo");
    let mine = Some(ChannelRef::Private { recipient: user(1, "alice") });
    assert_eq!(handle_message_create(&mine, &alice, "x").as_str(), "[Private] alice: x");
    let theirs = Some(ChannelRef::Private { recipient: user(2, "bob") });
    assert_eq!(handle_message_create(&theirs, &alice, "x").as_str(), "[Private] To bob: x");
    assert_eq!(handle_message_create(&None, &alice, "x").as_str(), "[Unknown Channel] alice: x");
}

#[test]
fn server_create_line() {
    assert_eq!(handle_server_create_online("Guild").as_str(), "[ServerCreate] found online server: Guild");
}

#[test]
fn start_game_plan_cases() {
    match start_game_plan(&None) {
        StartGamePlan::Skip { log } => assert_eq!(log.as_str(), "[PresenceUpdate] Did something"),
        _ => panic!("expected a skip"),
    }
    match start_game_plan(&Some(vec![])) {
        StartGamePlan::Skip { log } => assert_eq!(log.as_str(), "[PresenceUpdate] missing channel to send on"),
        _ => panic!("expected a skip"),
    }
    match start_game_plan(&Some(vec![42, 7])) {
        StartGamePlan::Greet { channel } => assert_eq!(channel, 42),
        _ => panic!("expected a greeting"),
    }
}

#[test]
fn role_name_and_colour() {
    assert_eq!(game_role_name("TIS-100").as_str(), "__TIS-100");
    assert_eq!(role_color(16777216 + 5), 5);
    assert_eq!(role_color(123), 123);
    assert_eq!(MAX_COLOR, 16777216);
}

#[test]
fn role_colour_is_the_hash_of_the_name() {
    let name = "Factorio".to_string();
    let mut h = DefaultHasher::new();
    name.hash(&mut h);
    let expected = h.finish() % 16777216;
    assert_eq!(game_role_color(&name), expected);
    assert!(game_role_color(&name) < MAX_COLOR);
}

#[test]
fn reorder_finds_the_bot_position() {
    let members = vec![member(5, "someone", vec![70]), member(1, "bot", vec![20, 30]), member(1, "dup", vec![30])];
    let roles = vec![role(30, "b", 3), role(20, "a", 8), role(20, "a2", 1)];
    assert!(bot_role_present(&members, &roles, 1));
    assert_eq!(reorder_single_rank(&members, &roles, 1, 99), vec![(99, 8)]);
    assert_eq!(find_member(&members, 1), Some(1));
    assert_eq!(find_role(&roles, 20), Some(1));
}

#[test]
fn bot_role_missing_cases() {
    let roles = vec![role(30, "b", 3), role(20, "a", 8)];
    let members = vec![member(5, "someone", vec![30])];
    assert!(!bot_role_present(&members, &roles, 2));
    assert_eq!(find_member(&members, 2), None);
    let no_roles = vec![member(1, "bot", vec![]), member(1, "again", vec![30])];
    assert!(!bot_role_present(&no_roles, &roles, 1));
    let unknown_role = vec![member(1, "bot", vec![77])];
    assert!(!bot_role_present(&unknown_role, &roles, 1));
    assert_eq!(find_role(&roles, 77), None);
}

#[test]
fn end_game_roles() {
    let roles = vec![role(1, "__TIS-100", 1), role(2, "admin", 2), role(3, "__Doom", 3), role(4, "__Quake", 4)];
    let held = vec![3, 2, 1];
    let taken = game_roles_to_remove(&roles, &held);
    assert_eq!(taken, vec![1, 3]);
    let members = vec![member(8, "x", vec![3]), member(9, "y", vec![2])];
    assert_eq!(unused_game_roles(&taken, &members), vec![1]);
    assert_eq!(unused_game_roles(&vec![], &members), Vec::<u64>::new());
}

#[test]
fn role_made_at_start_is_taken_back_at_end() {
    let name = game_role_name("Doom");
    let roles = vec![role(11, name.as_str(), 1), role(12, "Doom", 2)];
    assert_eq!(game_roles_to_remove(&roles, &vec![12, 11]), vec![11]);
}
