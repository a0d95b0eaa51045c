//! The announcement posted when a member starts playing a game: a template
//! chosen for the game, with `$user` and `$game` filled in.

use vstd::prelude::*;
use rand::Rng;
use crate::model::{Game, Member, display_name_of};
use crate::text::{
    contains_text, no_match_within_or_across, replace, replace_all, replace_all_at_pattern,
    replace_all_identity, replace_all_passes_over, replace_all_passes_over_unmatched, str_eq,
};

verus! {

/// The game that has its own announcements.
pub open spec fn tis_100() -> Seq<char> {
    "TIS-100"@
}

/// The announcement for any game without its own.
pub open spec fn default_template() -> Seq<char> {
    "$user is now playing $game"@
}

/// The announcements of games that have their own, in the order they are offered.
pub open spec fn templates_for(game: Seq<char>) -> Option<Seq<Seq<char>>> {
    if game == tis_100() {
        Some(
            seq![
                "$user is having a brain melting time playing $game"@,
                "mov $user, TIS-100"@,
            ],
        )
    } else {
        None
    }
}

/// A template with every `$user` replaced by the member's name, then every
/// `$game` replaced by the game's name.
pub open spec fn filled(template: Seq<char>, user: Seq<char>, game: Seq<char>) -> Seq<char> {
    replace_all(replace_all(template, "$user"@, user), "$game"@, game)
}

/// The announcements a game has of its own, or `None` when it takes the default.
pub fn game_templates(game_name: &str) -> (r: Option<Vec<&'static str>>)
    ensures
        match templates_for(game_name@) {
            Some(ts) => r is Some && r->0@.len() == ts.len() && forall|i: int|
                0 <= i < ts.len() ==> (#[trigger] r->0@[i])@ == ts[i],
            None => r is None,
        },
{
    if str_eq(game_name, "TIS-100") {
        let mut v: Vec<&'static str> = Vec::new();
        v.push("$user is having a brain melting time playing $game");
        v.push("mov $user, TIS-100");
        Some(v)
    } else {
        None
    }
}

/// `template` with every `$user` replaced by `user`, then every `$game`
/// replaced by `game`.
pub fn fill_template(template: &str, user: &str, game: &str) -> (out: String)
    ensures
        out@ == filled(template@, user@, game@),
{
    proof {
        reveal_strlit("$user");
        reveal_strlit("$game");
    }
    let with_user = replace(template, "$user", user);
    replace(with_user.as_str(), "$game", game)
}

/// Calls `rand::Rng::choose` on the thread-local generator of `rand::thread_rng`:
/// an element of `options` picked at random, or `None` when `options` is empty.
/// Which element comes back is left open.
#[verifier::external_body]
fn choose_at_random<'a>(options: &'a [&'static str]) -> (r: Option<&'a &'static str>)
    ensures
        match r {
            Some(t) => options@.contains(*t),
            None => options@.len() == 0,
        },
{
    rand::thread_rng().choose(options)
}

/// The announcement for `member` starting to play `game`: one of the game's own
/// templates picked at random, or the default one, filled with the member's
/// display name and the game's name.
pub fn get_start_game_message(member: &Member, game: &Game) -> (msg: String)
    ensures
        match templates_for(game.name@) {
            Some(ts) => exists|i: int|
                0 <= i < ts.len() && msg@ == #[trigger] filled(
                    ts[i],
                    display_name_of(*member),
                    game.name@,
                ),
            None => msg@ == filled(default_template(), display_name_of(*member), game.name@),
        },
{
    let ghost mut pick: int = 0;
    let template: &str = match game_templates(game.name.as_str()) {
        Some(options) => {
            match choose_at_random(options.as_slice()) {
                Some(t) => {
                    proof {
                        pick = choose|k: int| 0 <= k < options@.len() && options@[k] == *t;
                    }
                    *t
                },
                None => "$user is now playing $game",
            }
        },
        None => "$user is now playing $game",
    };
    let msg = fill_template(template, member.display_name(), game.name.as_str());
    proof {
        if let Some(ts) = templates_for(game.name@) {
            assert(msg@ == filled(ts[pick], display_name_of(*member), game.name@));
        }
    }
    msg
}

/// `"$game"` holds no `$user`: replacing `$user` leaves it as it is.
proof fn game_slot_survives_user_slot(user: Seq<char>)
    ensures
        replace_all("$game"@, "$user"@, user) == "$game"@,
{
    reveal_strlit("$game");
    reveal_strlit("$user");
    let g = "$game"@;
    let u = "$user"@;
    assert(!u.is_prefix_of(g)) by {
        assert(g.subrange(0, 5)[1] != u[1]);
    }
    assert(g.skip(1) =~= "game"@) by {
        reveal_strlit("game");
    }
    reveal_strlit("game");
    replace_all_identity("game"@, u, user);
}

/// The `$game` slot: no character of it but the first is one of those that
/// follow the member's name in the templates.
proof fn game_slot_chars()
    ensures
        forall|j: int| 1 <= j < "$game"@.len() ==> "$game"@[j] != ' ' && "$game"@[j] != ',',
{
    reveal_strlit("$game");
}

/// For a game without its own announcements, a member whose display name does
/// not contain `$game` is announced as `<name> is now playing <game>`.
pub proof fn default_announcement(user: Seq<char>, game: Seq<char>)
    requires
        !contains_text(user, "$game"@),
    ensures
        filled(default_template(), user, game) == user + " is now playing "@ + game,
{
    reveal_strlit("$user is now playing $game");
    reveal_strlit("$user");
    reveal_strlit("$game");
    reveal_strlit(" is now playing ");
    let u = "$user"@;
    let g = "$game"@;
    let mid = " is now playing "@;
    assert(default_template() =~= u + (mid + g));
    replace_all_at_pattern(u, mid + g, user);
    replace_all_passes_over(mid, g, u, user);
    game_slot_survives_user_slot(user);
    let step1 = replace_all(default_template(), u, user);
    assert(step1 =~= user + (mid + g));
    game_slot_chars();
    no_match_within_or_across(user, mid + g, g);
    replace_all_passes_over_unmatched(user, mid + g, g, game);
    replace_all_passes_over(mid, g + Seq::empty(), g, game);
    assert(g + Seq::<char>::empty() =~= g);
    replace_all_at_pattern(g, Seq::empty(), game);
    assert(filled(default_template(), user, game) =~= user + mid + game);
}

/// TIS-100 players whose display name does not contain `$game` are announced as
/// `<name> is having a brain melting time playing TIS-100` or as
/// `mov <name>, TIS-100`.
pub proof fn tis_100_announcements(user: Seq<char>)
    requires
        !contains_text(user, "$game"@),
    ensures
        templates_for(tis_100()) is Some,
        templates_for(tis_100())->0.len() == 2,
        filled(templates_for(tis_100())->0[0], user, tis_100()) == user
            + " is having a brain melting time playing TIS-100"@,
        filled(templates_for(tis_100())->0[1], user, tis_100()) == "mov "@ + user + ", TIS-100"@,
{
    reveal_strlit("$user is having a brain melting time playing $game");
    reveal_strlit("mov $user, TIS-100");
    reveal_strlit("$user");
    reveal_strlit("$game");
    reveal_strlit("TIS-100");
    reveal_strlit(" is having a brain melting time playing ");
    reveal_strlit(" is having a brain melting time playing TIS-100");
    reveal_strlit("mov ");
    reveal_strlit(", TIS-100");
    let u = "$user"@;
    let g = "$game"@;
    let t = tis_100();
    // The first template.
    let mid = " is having a brain melting time playing "@;
    assert("$user is having a brain melting time playing $game"@ =~= u + (mid + g));
    replace_all_at_pattern(u, mid + g, user);
    replace_all_passes_over(mid, g, u, user);
    game_slot_survives_user_slot(user);
    assert(replace_all("$user is having a brain melting time playing $game"@, u, user) =~= user
        + (mid + g));
    game_slot_chars();
    no_match_within_or_across(user, mid + g, g);
    replace_all_passes_over_unmatched(user, mid + g, g, t);
    replace_all_passes_over(mid, g + Seq::empty(), g, t);
    assert(g + Seq::<char>::empty() =~= g);
    replace_all_at_pattern(g, Seq::empty(), t);
    assert(mid + t =~= " is having a brain melting time playing TIS-100"@);
    assert(filled("$user is having a brain melting time playing $game"@, user, t) =~= user + (mid
        + t));
    // The second template.
    let pre = "mov "@;
    let post = ", TIS-100"@;
    assert("mov $user, TIS-100"@ =~= pre + (u + post));
    replace_all_passes_over(pre, u + post, u, user);
    replace_all_at_pattern(u, post, user);
    replace_all_identity(post, u, user);
    let step1 = pre + (user + post);
    assert(replace_all("mov $user, TIS-100"@, u, user) =~= step1);
    replace_all_passes_over(pre, user + post, g, t);
    no_match_within_or_across(user, post, g);
    replace_all_passes_over_unmatched(user, post, g, t);
    replace_all_identity(post, g, t);
    assert(filled("mov $user, TIS-100"@, user, t) =~= pre + user + post);
}

/// Only TIS-100 has announcements of its own: every other game name takes the
/// default one, and TIS-100 has its two.
pub proof fn only_tis_100_has_own_templates(game: Seq<char>)
    ensures
        game != "TIS-100"@ ==> templates_for(game) is None,
        game == "TIS-100"@ ==> templates_for(game) is Some && templates_for(game)->0.len() == 2,
{
}

} // verus!
