use gamebot::game_message::{fill_template, game_templates, get_start_game_message};
use gamebot::model::{Game, Member, User};

fn member(name: &str, nick: Option<&str>) -> Member {
    Member { user: User { id: 1, name: name.to_string() }, roles: vec![], nick: nick.map(|n| n.to_string()) }
}

#[test]
fn default_announcement() {
    let game = Game { name: "Factorio".to_string() };
    assert_eq!(get_start_game_message(&member("alice", None), &game).as_str(), "alice is now playing Factorio");
}

#[test]
fn nickname_is_used() {
    let game = Game { name: "Doom".to_string() };
    assert_eq!(get_start_game_message(&member("alice", Some("Ally")), &game).as_str(), "Ally is now playing Doom");
}

#[test]
fn tis_100_announcements() {
    let game = Game { name: "TIS-100".to_string() };
    let a = "bob is having a brain melting time playing TIS-100";
    let b = "mov bob, TIS-100";
    let mut seen_a = false;
    let mut seen_b = false;
    for _ in 0..200 {
        let m = get_start_game_message(&member("bob", None), &game);
        assert!(m == a || m == b, "unexpected {}", m);
        seen_a |= m == a;
        seen_b |= m == b;
    }
    assert!(seen_a && seen_b);
}

#[test]
fn templates_and_filling() {
    assert_eq!(game_templates("TIS-100").map(|v| v.len()), Some(2));
    assert!(game_templates("TIS-10").is_none());
    assert_eq!(fill_template("$user plays $game; $user wins", "A", "G").as_str(), "A plays G; A wins");
    assert_eq!(fill_template("$user", "$game", "G").as_str(), "G");
}

#[test]
fn names_with_dollar_signs_are_kept() {
    let game = Game { name: "Doom".to_string() };
    assert_eq!(get_start_game_message(&member("$$cash$user", None), &game).as_str(), "$$cash$user is now playing Doom");
    let tis = Game { name: "TIS-100".to_string() };
    let m = get_start_game_message(&member("$ga", None), &tis);
    assert!(m == "$ga is having a brain melting time playing TIS-100" || m == "mov $ga, TIS-100", "unexpected {}", m);
}
