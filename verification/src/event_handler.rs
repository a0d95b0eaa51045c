//! What the bot does with a message, a server that comes online, and a member
//! who starts or stops playing a game: the log lines it writes, the channel it
//! greets in, the game role it creates (name and colour), where that role is
//! placed, and which game roles it takes away and deletes.

use vstd::prelude::*;
use std::collections::hash_map::DefaultHasher;
use std::hash::Hash;
use std::hash::Hasher;
use crate::model::{ChannelRef, Member, Role, User, group_name_of};
use crate::text::starts_with;
use vstd::std_specs::hash::DefaultHasherAdditionalSpecFns;

verus! {

/// Role colours are 24-bit `0xRRGGBB` values: every colour is below this.
pub const MAX_COLOR: u64 = 16777216;

/// The prefix that marks the roles the bot makes for games.
pub open spec fn identify_role() -> Seq<char> {
    "__"@
}

/// The log line for a message posted in `channel` (`None` when the channel is
/// not known) by `author`.
pub open spec fn message_log_line(
    channel: Option<ChannelRef>,
    author: Seq<char>,
    content: Seq<char>,
) -> Seq<char> {
    match channel {
        Some(ChannelRef::Public { server_id, server_name, channel_name }) => "["@ + server_name@
            + " #"@ + channel_name@ + "] "@ + author + ": "@ + content,
        Some(ChannelRef::Group(group)) => "[Group "@ + group_name_of(group) + "] "@ + author
            + ": "@ + content,
        Some(ChannelRef::Private { recipient }) => if author == recipient.name@ {
            "[Private] "@ + author + ": "@ + content
        } else {
            "[Private] To "@ + recipient.name@ + ": "@ + content
        },
        None => "[Unknown Channel] "@ + author + ": "@ + content,
    }
}

/// The log line for a message: where it was posted, who wrote it and what it
/// says. In a private channel the bot's own messages are shown as sent to the
/// other user.
pub fn handle_message_create(channel: &Option<ChannelRef>, author: &User, content: &str) -> (line:
    String)
    ensures
        line@ == message_log_line(*channel, author.name@, content@),
{
    let a = author.name.as_str();
    match channel {
        Some(ChannelRef::Public { server_id, server_name, channel_name }) => {
            let mut s = String::from_str("[");
            s.append(server_name.as_str());
            s.append(" #");
            s.append(channel_name.as_str());
            s.append("] ");
            s.append(a);
            s.append(": ");
            s.append(content);
            s
        },
        Some(ChannelRef::Group(group)) => {
            let mut s = String::from_str("[Group ");
            let name = group.name();
            s.append(name.as_str());
            s.append("] ");
            s.append(a);
            s.append(": ");
            s.append(content);
            s
        },
        Some(ChannelRef::Private { recipient }) => {
            if author.name == recipient.name {
                let mut s = String::from_str("[Private] ");
                s.append(a);
                s.append(": ");
                s.append(content);
                s
            } else {
                let mut s = String::from_str("[Private] To ");
                s.append(recipient.name.as_str());
                s.append(": ");
                s.append(content);
                s
            }
        },
        None => {
            let mut s = String::from_str("[Unknown Channel] ");
            s.append(a);
            s.append(": ");
            s.append(content);
            s
        },
    }
}

/// The log line for a server that comes online.
pub fn handle_server_create_online(server_name: &str) -> (line: String)
    ensures
        line@ == "[ServerCreate] found online server: "@ + server_name@,
{
    let mut s = String::from_str("[ServerCreate] found online server: ");
    s.append(server_name);
    s
}

/// The first step when a member starts a game: greet in a channel of the
/// server, or only log why not.
pub enum StartGamePlan {
    Greet { channel: u64 },
    Skip { log: String },
}

/// Given the channels of the server (`None` when they could not be fetched):
/// greet in the first channel; without channels, or without the list, only log.
pub fn start_game_plan(channels: &Option<Vec<u64>>) -> (plan: StartGamePlan)
    ensures
        match *channels {
            None => plan matches StartGamePlan::Skip { log } && log@
                == "[PresenceUpdate] Did something"@,
            Some(v) => if v@.len() == 0 {
                plan matches StartGamePlan::Skip { log } && log@
                    == "[PresenceUpdate] missing channel to send on"@
            } else {
                plan == StartGamePlan::Greet { channel: v@[0] }
            },
        },
{
    match channels {
        None => StartGamePlan::Skip { log: String::from_str("[PresenceUpdate] Did something") },
        Some(v) => {
            if v.len() == 0 {
                StartGamePlan::Skip {
                    log: String::from_str("[PresenceUpdate] missing channel to send on"),
                }
            } else {
                StartGamePlan::Greet { channel: v[0] }
            }
        },
    }
}

/// The name of the role the bot makes for a game: the marking prefix followed
/// by the game's name.
pub fn game_role_name(game_name: &str) -> (name: String)
    ensures
        name@ == identify_role() + game_name@,
{
    let mut s = String::from_str("__");
    s.append(game_name);
    s
}

/// The colour of a game role, from the hash of the game's name.
pub fn role_color(hash: u64) -> (color: u64)
    ensures
        color == hash % MAX_COLOR,
        color < MAX_COLOR,
{
    hash % MAX_COLOR
}

/// The writes that hashing the text `s` makes into a `DefaultHasher`, in the
/// model of a hasher's state as the sequence of byte strings written into it.
/// Which bytes these are is left unnamed; they depend on the text alone.
pub uninterp spec fn text_hash_writes(s: Seq<char>) -> Seq<Seq<u8>>;

/// Calls `<String as std::hash::Hash>::hash` on `name` with `state`: the
/// hasher receives the writes that hashing the text of `name` makes, after
/// those it had already received. Which bytes are written is left unsaid.
#[verifier::external_body]
fn feed_hasher(name: &String, state: &mut DefaultHasher)
    ensures
        final(state)@ == old(state)@ + text_hash_writes(name@),
{
    name.hash(state)
}

/// The colour of the role for the game `game_name`: the hash of its name under
/// a fresh `DefaultHasher`, reduced to a 24-bit colour.
pub fn game_role_color(game_name: &String) -> (color: u64)
    ensures
        color == DefaultHasher::spec_finish(text_hash_writes(game_name@)) % MAX_COLOR,
        color < MAX_COLOR,
{
    let mut hasher = DefaultHasher::new();
    feed_hasher(game_name, &mut hasher);
    assert(hasher@ =~= text_hash_writes(game_name@));
    let hash = hasher.finish();
    role_color(hash)
}

/// `i` is the first position in `members` of a member who is the user `user`.
pub open spec fn is_first_member(members: Seq<Member>, user: u64, i: int) -> bool {
    &&& 0 <= i < members.len()
    &&& members[i].user.id == user
    &&& forall|j: int| 0 <= j < i ==> members[j].user.id != user
}

/// `k` is the first position in `roles` of the role with id `id`.
pub open spec fn is_first_role(roles: Seq<Role>, id: u64, k: int) -> bool {
    &&& 0 <= k < roles.len()
    &&& roles[k].id == id
    &&& forall|j: int| 0 <= j < k ==> roles[j].id != id
}

/// The position of the first member who is the user `user`.
pub fn find_member(members: &Vec<Member>, user: u64) -> (r: Option<usize>)
    ensures
        match r {
            Some(i) => is_first_member(members@, user, i as int),
            None => forall|j: int| 0 <= j < members@.len() ==> members@[j].user.id != user,
        },
{
    let n = members.len();
    let mut i: usize = 0;
    while i < n
        invariant
            n == members@.len(),
            i <= n,
            forall|j: int| 0 <= j < i ==> members@[j].user.id != user,
        decreases n - i,
    {
        if members[i].user.id == user {
            return Some(i);
        }
        i = i + 1;
    }
    None
}

/// The position of the first role with id `id`.
pub fn find_role(roles: &Vec<Role>, id: u64) -> (r: Option<usize>)
    ensures
        match r {
            Some(k) => is_first_role(roles@, id, k as int),
            None => forall|j: int| 0 <= j < roles@.len() ==> roles@[j].id != id,
        },
{
    let n = roles.len();
    let mut k: usize = 0;
    while k < n
        invariant
            n == roles@.len(),
            k <= n,
            forall|j: int| 0 <= j < k ==> roles@[j].id != id,
        decreases n - k,
    {
        if roles[k].id == id {
            return Some(k);
        }
        k = k + 1;
    }
    None
}

/// Whether the bot (the user `current_user`) is among `members` and the first
/// role of its first member entry is among `roles`: the case in which its
/// position can be found.
pub open spec fn bot_role_found(members: Seq<Member>, roles: Seq<Role>, current_user: u64) -> bool {
    exists|i: int|
        #[trigger] is_first_member(members, current_user, i) && members[i].roles@.len() > 0
            && exists|k: int| 0 <= k < roles.len() && roles[k].id == members[i].roles@[0]
}

/// Whether the bot's position can be found: the test to make before
/// `reorder_single_rank`.
pub fn bot_role_present(members: &Vec<Member>, roles: &Vec<Role>, current_user: u64) -> (r: bool)
    ensures
        r == bot_role_found(members@, roles@, current_user),
{
    match find_member(members, current_user) {
        None => false,
        Some(i) => {
            assert(is_first_member(members@, current_user, i as int));
            if members[i].roles.len() == 0 {
                assert forall|j: int|
                    #[trigger] is_first_member(members@, current_user, j) implies j == i by {
                    if j < i {
                        assert(members@[j].user.id == current_user);
                    }
                    if i < j {
                        assert(members@[i as int].user.id == current_user);
                    }
                }
                return false;
            }
            match find_role(roles, members[i].roles[0]) {
                None => {
                    assert forall|j: int|
                        #[trigger] is_first_member(members@, current_user, j) implies j == i by {
                        if j < i {
                            assert(members@[j].user.id == current_user);
                        }
                        if i < j {
                            assert(members@[i as int].user.id == current_user);
                        }
                    }
                    false
                },
                Some(k) => {
                    assert(roles@[k as int].id == members@[i as int].roles@[0]);
                    true
                },
            }
        },
    }
}

/// The reordering that puts the role `rank` at the bot's own position: the
/// position of the first role of the bot's member entry (the bot being the user
/// `current_user`) among the server's roles. The bot must be among the members,
/// hold a role, and that role must be among the roles.
pub fn reorder_single_rank(
    members: &Vec<Member>,
    roles: &Vec<Role>,
    current_user: u64,
    rank: u64,
) -> (v: Vec<(u64, usize)>)
    requires
        bot_role_found(members@, roles@, current_user),
    ensures
        exists|i: int, k: int|
            #[trigger] is_first_member(members@, current_user, i) && members@[i].roles@.len() > 0
                && #[trigger] is_first_role(roles@, members@[i].roles@[0], k) && v@ == seq![
                (rank, roles@[k].position as usize),
            ],
{
    let ghost i0 = choose|i: int|
        #[trigger] is_first_member(members@, current_user, i) && members@[i].roles@.len() > 0
            && exists|k: int| 0 <= k < roles@.len() && roles@[k].id == members@[i].roles@[0];
    match find_member(members, current_user) {
        None => {
            assert(members@[i0].user.id == current_user);
            Vec::new()
        },
        Some(i) => {
            assert(i0 == i as int) by {
                if i0 < i {
                    assert(members@[i0].user.id == current_user);
                }
                if i < i0 {
                    assert(members@[i as int].user.id == current_user);
                }
            }
            let mine = members[i].roles[0];
            match find_role(roles, mine) {
                None => Vec::new(),
                Some(k) => {
                    let position = roles[k].position as usize;
                    let mut v: Vec<(u64, usize)> = Vec::new();
                    v.push((rank, position));
                    assert(is_first_member(members@, current_user, i as int));
                    assert(is_first_role(roles@, members@[i as int].roles@[0], k as int));
                    v
                },
            }
        },
    }
}

/// Whether `role` is one the bot made for a game and one that `held` holds.
pub open spec fn is_held_game_role(role: Role, held: Seq<u64>) -> bool {
    identify_role().is_prefix_of(role.name@) && held.contains(role.id)
}

/// The ids, in order, of the roles in `roles` that the bot made for games and
/// that `held` holds.
pub open spec fn held_game_roles(roles: Seq<Role>, held: Seq<u64>) -> Seq<u64>
    decreases roles.len(),
{
    if roles.len() == 0 {
        Seq::empty()
    } else {
        let before = held_game_roles(roles.drop_last(), held);
        if is_held_game_role(roles.last(), held) {
            before.push(roles.last().id)
        } else {
            before
        }
    }
}

/// Whether some member holds the role `id`.
pub open spec fn held_by_some(members: Seq<Member>, id: u64) -> bool {
    exists|j: int| 0 <= j < members.len() && #[trigger] members[j].roles@.contains(id)
}

/// The ids, in order, of the roles in `ids` that no member holds.
pub open spec fn unheld(ids: Seq<u64>, members: Seq<Member>) -> Seq<u64>
    decreases ids.len(),
{
    if ids.len() == 0 {
        Seq::empty()
    } else {
        let before = unheld(ids.drop_last(), members);
        if held_by_some(members, ids.last()) {
            before
        } else {
            before.push(ids.last())
        }
    }
}

/// Whether `id` is in `ids`.
pub fn contains_id(ids: &Vec<u64>, id: u64) -> (r: bool)
    ensures
        r == ids@.contains(id),
{
    let n = ids.len();
    let mut i: usize = 0;
    while i < n
        invariant
            n == ids@.len(),
            i <= n,
            forall|j: int| 0 <= j < i ==> ids@[j] != id,
        decreases n - i,
    {
        if ids[i] == id {
            assert(ids@[i as int] == id);
            return true;
        }
        i = i + 1;
    }
    false
}

/// When a member stops playing: the game roles, among the server's roles, that
/// the member holds, to be taken from it.
pub fn game_roles_to_remove(server_roles: &Vec<Role>, member_roles: &Vec<u64>) -> (ids: Vec<u64>)
    ensures
        ids@ == held_game_roles(server_roles@, member_roles@),
{
    let n = server_roles.len();
    let mut ids: Vec<u64> = Vec::new();
    let mut i: usize = 0;
    while i < n
        invariant
            n == server_roles@.len(),
            i <= n,
            ids@ == held_game_roles(server_roles@.take(i as int), member_roles@),
        decreases n - i,
    {
        let role = &server_roles[i];
        let ghost taken = server_roles@.take(i + 1);
        assert(taken.drop_last() =~= server_roles@.take(i as int));
        if starts_with(role.name.as_str(), "__") && contains_id(member_roles, role.id) {
            ids.push(role.id);
        }
        i = i + 1;
    }
    assert(server_roles@.take(n as int) =~= server_roles@);
    ids
}

/// Whether some member holds the role `id`.
pub fn held_by_any(members: &Vec<Member>, id: u64) -> (r: bool)
    ensures
        r == held_by_some(members@, id),
{
    let n = members.len();
    let mut j: usize = 0;
    while j < n
        invariant
            n == members@.len(),
            j <= n,
            forall|k: int| 0 <= k < j ==> !(#[trigger] members@[k].roles@.contains(id)),
        decreases n - j,
    {
        if contains_id(&members[j].roles, id) {
            return true;
        }
        j = j + 1;
    }
    false
}

/// After taking the game roles away: those that no member of the server holds
/// any more, to be deleted.
pub fn unused_game_roles(game_roles: &Vec<u64>, members: &Vec<Member>) -> (ids: Vec<u64>)
    ensures
        ids@ == unheld(game_roles@, members@),
{
    let n = game_roles.len();
    let mut ids: Vec<u64> = Vec::new();
    let mut i: usize = 0;
    while i < n
        invariant
            n == game_roles@.len(),
            i <= n,
            ids@ == unheld(game_roles@.take(i as int), members@),
        decreases n - i,
    {
        let id = game_roles[i];
        let ghost taken = game_roles@.take(i + 1);
        assert(taken.drop_last() =~= game_roles@.take(i as int));
        if !held_by_any(members, id) {
            ids.push(id);
        }
        i = i + 1;
    }
    assert(game_roles@.take(n as int) =~= game_roles@);
    ids
}

/// A role id is taken back exactly when some role of the server with that id is
/// a game role the member holds.
pub proof fn held_game_roles_membership(roles: Seq<Role>, held: Seq<u64>, x: u64)
    ensures
        held_game_roles(roles, held).contains(x) <==> exists|k: int|
            0 <= k < roles.len() && #[trigger] roles[k].id == x && is_held_game_role(roles[k], held),
    decreases roles.len(),
{
    if roles.len() > 0 {
        let init = roles.drop_last();
        held_game_roles_membership(init, held, x);
        let before = held_game_roles(init, held);
        let last = roles.len() - 1;
        if held_game_roles(roles, held).contains(x) {
            if before.contains(x) {
                let k = choose|k: int|
                    0 <= k < init.len() && #[trigger] init[k].id == x && is_held_game_role(
                        init[k],
                        held,
                    );
                assert(roles[k] == init[k]);
            } else {
                let j = choose|j: int| 0 <= j < before.push(roles.last().id).len() && before.push(
                    roles.last().id,
                )[j] == x;
                assert(j == before.len());
                assert(roles[last].id == x);
            }
        }
        if exists|k: int|
            0 <= k < roles.len() && #[trigger] roles[k].id == x && is_held_game_role(roles[k], held) {
            let k = choose|k: int|
                0 <= k < roles.len() && #[trigger] roles[k].id == x && is_held_game_role(roles[k], held);
            if k < last {
                assert(init[k] == roles[k]);
                let j = choose|j: int| 0 <= j < before.len() && before[j] == x;
                if is_held_game_role(roles.last(), held) {
                    assert(before.push(roles.last().id)[j] == x);
                }
            } else {
                assert(before.push(roles.last().id)[before.len() as int] == x);
            }
        }
    }
}

/// The role made for a game when a member starts playing it is taken back from
/// that member when it stops: a role named with the marking prefix and a game's
/// name, held by the member, is among the roles to remove.
pub proof fn game_role_is_taken_back(roles: Seq<Role>, held: Seq<u64>, game: Seq<char>, k: int)
    requires
        0 <= k < roles.len(),
        roles[k].name@ == identify_role() + game,
        held.contains(roles[k].id),
    ensures
        held_game_roles(roles, held).contains(roles[k].id),
{
    assert(identify_role().is_prefix_of(roles[k].name@)) by {
        assert((identify_role() + game).subrange(0, identify_role().len() as int) =~= identify_role());
    }
    held_game_roles_membership(roles, held, roles[k].id);
}

/// A game role is deleted exactly when it was among those taken back and no
/// member holds it: a role some member still holds is never deleted.
pub proof fn unheld_membership(ids: Seq<u64>, members: Seq<Member>, x: u64)
    ensures
        unheld(ids, members).contains(x) <==> (ids.contains(x) && !held_by_some(members, x)),
    decreases ids.len(),
{
    if ids.len() > 0 {
        let init = ids.drop_last();
        unheld_membership(init, members, x);
        let before = unheld(init, members);
        let last = ids.len() - 1;
        assert(ids =~= init.push(ids.last()));
        if unheld(ids, members).contains(x) {
            if before.contains(x) {
                let k = choose|k: int| 0 <= k < init.len() && init[k] == x;
                assert(ids[k] == x);
            } else {
                let j = choose|j: int| 0 <= j < before.push(ids.last()).len() && before.push(
                    ids.last(),
                )[j] == x;
                assert(j == before.len());
                assert(ids[last] == x);
            }
        }
        if ids.contains(x) && !held_by_some(members, x) {
            let k = choose|k: int| 0 <= k < ids.len() && ids[k] == x;
            if k < last {
                assert(init[k] == x);
                let j = choose|j: int| 0 <= j < before.len() && before[j] == x;
                if !held_by_some(members, ids.last()) {
                    assert(before.push(ids.last())[j] == x);
                }
            } else {
                assert(before.push(ids.last())[before.len() as int] == x);
            }
        }
    }
}

/// A role is deleted only if no member holds it anywhere in its list of roles:
/// when some member holds `id` at any position of its roles, `id` is not among
/// the roles to delete.
pub proof fn role_held_anywhere_is_kept(ids: Seq<u64>, members: Seq<Member>, id: u64, j: int, p: int)
    requires
        0 <= j < members.len(),
        0 <= p < members[j].roles@.len(),
        members[j].roles@[p] == id,
    ensures
        !unheld(ids, members).contains(id),
{
    assert(members[j].roles@.contains(id));
    unheld_membership(ids, members, id);
}

/// A taken-back role that no member holds at any position of its roles is
/// among the roles to delete.
pub proof fn role_held_nowhere_is_deleted(ids: Seq<u64>, members: Seq<Member>, id: u64)
    requires
        ids.contains(id),
        forall|j: int, p: int|
            0 <= j < members.len() && 0 <= p < members[j].roles@.len() ==> members[j].roles@[p]
                != id,
    ensures
        unheld(ids, members).contains(id),
{
    unheld_membership(ids, members, id);
    if held_by_some(members, id) {
        let j = choose|j: int| 0 <= j < members.len() && #[trigger] members[j].roles@.contains(id);
        let p = choose|p: int| 0 <= p < members[j].roles@.len() && members[j].roles@[p] == id;
        assert(members[j].roles@[p] != id);
    }
}

/// The roles taken back from a member are exactly the server's roles whose
/// names begin with two underscores and that the member holds.
pub proof fn game_roles_taken_back_exactly(roles: Seq<Role>, held: Seq<u64>, x: u64)
    ensures
        held_game_roles(roles, held).contains(x) <==> exists|k: int|
            0 <= k < roles.len() && #[trigger] roles[k].id == x && roles[k].name@.len() >= 2
                && roles[k].name@[0] == '_' && roles[k].name@[1] == '_' && held.contains(x),
{
    reveal_strlit("__");
    held_game_roles_membership(roles, held, x);
    assert forall|k: int| 0 <= k < roles.len() implies (is_held_game_role(roles[k], held) <==> (
    roles[k].name@.len() >= 2 && roles[k].name@[0] == '_' && roles[k].name@[1] == '_'
        && held.contains(roles[k].id))) by {
        let n = roles[k].name@;
        if n.len() >= 2 && n[0] == '_' && n[1] == '_' {
            assert(n.subrange(0, 2) =~= identify_role());
        }
        if identify_role().is_prefix_of(n) {
            assert(n[0] == n.subrange(0, 2)[0]);
            assert(n[1] == n.subrange(0, 2)[1]);
        }
    }
}

/// Every log line of a message ends with `": "` and the message's text, and a
/// line of a public channel begins with the server's name in brackets.
pub proof fn message_line_shape(channel: Option<ChannelRef>, author: Seq<char>, content: Seq<char>)
    ensures
        ({
            let line = message_log_line(channel, author, content);
            &&& line.len() >= content.len() + 2
            &&& line.subrange(line.len() - content.len() - 2, line.len() as int) == ": "@ + content
        }),
        channel matches Some(ChannelRef::Public { server_name, .. }) ==> ("["@
            + server_name@).is_prefix_of(message_log_line(channel, author, content)),
{
    reveal_strlit(": ");
    let line = message_log_line(channel, author, content);
    let tail = ": "@ + content;
    let head = line.subrange(0, line.len() - tail.len());
    assert(line =~= head + tail);
    assert(line.subrange(line.len() - content.len() - 2, line.len() as int) =~= tail);
    if let Some(ChannelRef::Public { server_name, .. }) = channel {
        let p = "["@ + server_name@;
        assert(line.subrange(0, p.len() as int) =~= p);
    }
}

/// In a private channel the line says who the message went to whenever the
/// author is not the other user, and shows the author only when it is.
pub proof fn private_line_names_the_other_user(
    recipient: User,
    author: Seq<char>,
    content: Seq<char>,
)
    ensures
        author != recipient.name@ ==> message_log_line(
            Some(ChannelRef::Private { recipient }),
            author,
            content,
        ) == "[Private] To "@ + recipient.name@ + ": "@ + content,
        author == recipient.name@ ==> message_log_line(
            Some(ChannelRef::Private { recipient }),
            author,
            content,
        ) == "[Private] "@ + author + ": "@ + content,
{
}

} // verus!
