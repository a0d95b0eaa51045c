//! The parts of Discord's users, members, channels, roles and games that the
//! bot's decisions read, held as plain values. Identifiers are the raw `u64`
//! snowflakes that Discord's id types wrap.

use vstd::prelude::*;

verus! {

/// A Discord user: its id and its account name.
pub struct User {
    pub id: u64,
    pub name: String,
}

/// A member of a server: the user, the ids of the roles it holds (in the order
/// Discord lists them) and its server nickname, if any.
pub struct Member {
    pub user: User,
    pub roles: Vec<u64>,
    pub nick: Option<String>,
}

/// The game a user is playing.
pub struct Game {
    pub name: String,
}

/// A role of a server.
pub struct Role {
    pub id: u64,
    pub name: String,
    pub position: i64,
}

/// A group channel separate from any server: its name if one was set, and the
/// users in it.
pub struct Group {
    pub name: Option<String>,
    pub recipients: Vec<User>,
}

/// The kinds of channel Discord knows.
pub enum ChannelType {
    Group,
    Private,
    Text,
    Voice,
}

/// Where a message was posted: a private channel with one other user, a group
/// channel, or a channel of a server.
pub enum ChannelRef {
    Private { recipient: User },
    Group(Group),
    Public { server_id: u64, server_name: String, channel_name: String },
}

/// The name under which a member is shown: the nickname if it has one, else
/// the user's name.
pub open spec fn display_name_of(member: Member) -> Seq<char> {
    match member.nick {
        Some(nick) => nick@,
        None => member.user.name@,
    }
}

/// The names of several users joined by `", "`.
pub open spec fn joined_names(users: Seq<User>) -> Seq<char>
    decreases users.len(),
{
    if users.len() == 0 {
        Seq::empty()
    } else if users.len() == 1 {
        users[0].name@
    } else {
        joined_names(users.drop_last()) + ", "@ + users.last().name@
    }
}

/// The name under which a group is shown: its own name if set, else the names
/// of its members joined by `", "`, or `Empty Group` when it has none.
pub open spec fn group_name_of(group: Group) -> Seq<char> {
    match group.name {
        Some(name) => name@,
        None => if group.recipients@.len() == 0 {
            "Empty Group"@
        } else {
            joined_names(group.recipients@)
        },
    }
}

impl Member {
    /// The name under which this member is shown.
    pub fn display_name(&self) -> (r: &str)
        ensures
            r@ == display_name_of(*self),
    {
        match &self.nick {
            Some(nick) => nick.as_str(),
            None => self.user.name.as_str(),
        }
    }
}

impl Group {
    /// The name under which this group is shown.
    pub fn name(&self) -> (r: String)
        ensures
            r@ == group_name_of(*self),
    {
        match &self.name {
            Some(name) => name.clone(),
            None => {
                let n = self.recipients.len();
                if n == 0 {
                    return String::from_str("Empty Group");
                }
                let mut result = self.recipients[0].name.clone();
                let mut i: usize = 1;
                assert(self.recipients@.take(1).drop_last() =~= Seq::<User>::empty());
                while i < n
                    invariant
                        n == self.recipients@.len(),
                        1 <= i <= n,
                        result@ == joined_names(self.recipients@.take(i as int)),
                    decreases n - i,
                {
                    result.append(", ");
                    result.append(self.recipients[i].name.as_str());
                    assert(self.recipients@.take(i + 1).drop_last() =~= self.recipients@.take(
                        i as int,
                    ));
                    i = i + 1;
                }
                assert(self.recipients@.take(n as int) =~= self.recipients@);
                result
            },
        }
    }
}

/// A member with a nickname is shown by it; one without is shown by its user's
/// name.
pub proof fn display_name_prefers_nickname(user: User, roles: Vec<u64>, nick: String)
    ensures
        display_name_of(Member { user, roles, nick: Some(nick) }) == nick@,
        display_name_of(Member { user, roles, nick: None }) == user.name@,
{
}

/// A group without a name of its own is shown by its members' names, in order,
/// separated by `", "`; one with a name is shown by it.
pub proof fn group_names(name: String, recipients: Vec<User>, a: User, b: User)
    ensures
        group_name_of(Group { name: Some(name), recipients }) == name@,
        joined_names(seq![a]) == a.name@,
        joined_names(seq![a, b]) == a.name@ + ", "@ + b.name@,
{
    assert(seq![a, b].drop_last() =~= seq![a]);
}

} // verus!
