//! Per-server settings and the file each server's settings are kept in.

use vstd::prelude::*;
use std::collections::HashMap;
use crate::text::{decimal, decimal_digits, decimal_injective};

verus! {

/// The settings of one server: announcement templates by game name, and the
/// server they belong to.
pub struct ServerSettings {
    pub game_messages: HashMap<String, Vec<String>>,
    pub id: u64,
}

impl ServerSettings {
    /// The server these settings belong to.
    pub fn id(&self) -> (r: u64)
        ensures
            r == self.id,
    {
        self.id
    }

    /// Settings of the server `id` with the given templates.
    pub fn from_parts(id: u64, game_messages: HashMap<String, Vec<String>>) -> (s: Self)
        ensures
            s.id == id,
            s.game_messages@ == game_messages@,
    {
        ServerSettings { game_messages, id }
    }
}

/// Fresh settings of the server `id`: no templates of its own.
pub fn new(id: u64) -> (s: ServerSettings)
    ensures
        s.id == id,
        s.game_messages@ == Map::<String, Vec<String>>::empty(),
{
    ServerSettings { game_messages: HashMap::new(), id }
}

/// The file holding the settings of the server `server`.
pub open spec fn config_path_of(server: nat) -> Seq<char> {
    "config/"@ + decimal_digits(server) + ".config"@
}

/// The file holding the settings of the server `server`: `config/<id>.config`.
pub fn config_path(server: u64) -> (path: String)
    ensures
        path@ == config_path_of(server as nat),
{
    let mut s = String::from_str("config/");
    let d = decimal(server);
    s.append(d.as_str());
    s.append(".config");
    s
}

/// Different servers keep their settings in different files.
pub proof fn config_paths_distinct(a: nat, b: nat)
    requires
        a != b,
    ensures
        config_path_of(a) != config_path_of(b),
{
    reveal_strlit("config/");
    reveal_strlit(".config");
    if config_path_of(a) == config_path_of(b) {
        let pa = config_path_of(a);
        let pb = config_path_of(b);
        let la = decimal_digits(a).len();
        let lb = decimal_digits(b).len();
        assert(pa.len() == 14 + la);
        assert(pb.len() == 14 + lb);
        assert(pa.subrange(7, 7 + la as int) =~= decimal_digits(a));
        assert(pb.subrange(7, 7 + lb as int) =~= decimal_digits(b));
        decimal_injective(a, b);
    }
}

} // verus!
