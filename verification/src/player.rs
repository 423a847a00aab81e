//! Players and their cumulative wins.

use vstd::prelude::*;
use vstd::string::*;
use crate::ids::fresh_id;
use crate::errors::AppError;
use crate::errors::ErrorKind;
use crate::text::{all_blank, has_visible_ends, trim_text, trimmed_of};

verus! {

/// How often a player has won on each side.
#[derive(Clone, Copy, Debug, PartialEq, Eq, Structural)]
pub struct PlayerWins {
    pub crew: u32,
    pub imposter: u32,
}

/// A member of a room.
#[derive(Debug, PartialEq, Eq)]
pub struct Player {
    pub id: u128,
    pub name: String,
    pub wins: PlayerWins,
}

/// What a player is, as mathematical values. A summary shows the same.
pub struct PlayerModel {
    pub id: u128,
    pub name: Seq<char>,
    pub crew_wins: u32,
    pub imposter_wins: u32,
}

impl DeepView for Player {
    type V = PlayerModel;

    open spec fn deep_view(&self) -> PlayerModel {
        PlayerModel {
            id: self.id,
            name: self.name@,
            crew_wins: self.wins.crew,
            imposter_wins: self.wins.imposter,
        }
    }
}

impl Clone for Player {
    fn clone(&self) -> (r: Self)
        ensures
            r.deep_view() == self.deep_view(),
    {
        Player { id: self.id, name: self.name.clone(), wins: self.wins }
    }
}

/// The public face of a player.
#[derive(Debug, PartialEq, Eq)]
pub struct PlayerSummary {
    pub id: u128,
    pub name: String,
    pub crew_wins: u32,
    pub imposter_wins: u32,
}

impl DeepView for PlayerSummary {
    type V = PlayerModel;

    open spec fn deep_view(&self) -> PlayerModel {
        PlayerModel {
            id: self.id,
            name: self.name@,
            crew_wins: self.crew_wins,
            imposter_wins: self.imposter_wins,
        }
    }
}

impl Clone for PlayerSummary {
    fn clone(&self) -> (r: Self)
        ensures
            r.deep_view() == self.deep_view(),
    {
        PlayerSummary {
            id: self.id,
            name: self.name.clone(),
            crew_wins: self.crew_wins,
            imposter_wins: self.imposter_wins,
        }
    }
}

impl Player {
    /// A player with the given id and an already trimmed name, with no
    /// wins. Fails as validation exactly when the name is empty.
    pub fn named(trimmed: String, id: u128) -> (r: Result<Player, AppError>)
        ensures
            r is Err <==> trimmed@.len() == 0,
            r matches Err(e) ==> e.kind() == ErrorKind::Validation && e.message()
                == "player name required"@,
            r matches Ok(p) ==> p.id == id && p.name == trimmed && p.wins == (PlayerWins {
                crew: 0,
                imposter: 0,
            }),
    {
        if trimmed.as_str().unicode_len() == 0 {
            return Err(AppError::bad_request("player name required"));
        }
        Ok(Player { id, name: trimmed, wins: PlayerWins { crew: 0, imposter: 0 } })
    }

    /// A new player under a fresh random id, named by the trimmed text,
    /// with no wins. Fails as validation exactly when nothing is left of
    /// the name after trimming: so for a name of spaces, tabs and line
    /// breaks only, and not for a name that begins and ends with a
    /// visible ASCII character, which is kept as it is.
    pub fn new(name: String) -> (r: Result<Player, AppError>)
        ensures
            r is Err <==> trimmed_of(name@).len() == 0,
            r matches Err(e) ==> e.kind() == ErrorKind::Validation,
            r matches Ok(p) ==> p.name@ == trimmed_of(name@) && p.wins == (PlayerWins {
                crew: 0,
                imposter: 0,
            }),
            all_blank(name@) ==> r is Err,
            has_visible_ends(name@) ==> (r matches Ok(p) && p.name@ == name@),
    {
        let trimmed = trim_text(name.as_str()).to_owned();
        Self::named(trimmed, fresh_id())
    }

    /// The public face of this player.
    pub fn summary(&self) -> (r: PlayerSummary)
        ensures
            r.deep_view() == self.deep_view(),
    {
        PlayerSummary {
            id: self.id,
            name: self.name.clone(),
            crew_wins: self.wins.crew,
            imposter_wins: self.wins.imposter,
        }
    }
}

/// The ids of a roster, in roster order.
pub open spec fn roster_ids(players: Seq<Player>) -> Seq<u128> {
    players.map_values(|p: Player| p.id)
}

/// The first place of an id in a list of ids, or the list's length.
pub open spec fn first_place_of(ids: Seq<u128>, id: u128) -> int
    decreases ids.len(),
{
    if ids.len() == 0 {
        0
    } else if ids[0] == id {
        0
    } else {
        1 + first_place_of(ids.drop_first(), id)
    }
}

/// A place that holds the id, with no earlier place holding it, is the
/// first place of the id.
pub proof fn lemma_first_place(ids: Seq<u128>, id: u128, place: int)
    requires
        0 <= place < ids.len(),
        ids[place] == id,
        forall|k: int| 0 <= k < place ==> ids[k] != id,
    ensures
        first_place_of(ids, id) == place,
    decreases place,
{
    if place > 0 {
        let rest = ids.drop_first();
        assert(rest[place - 1] == id);
        assert forall|k: int| 0 <= k < place - 1 implies rest[k] != id by {
            assert(rest[k] == ids[k + 1]);
        }
        lemma_first_place(rest, id, place - 1);
    }
}

/// The first place of a player in a roster, if the player is on it.
pub fn find_player(players: &Vec<Player>, id: u128) -> (r: Option<usize>)
    ensures
        r is None <==> !roster_ids(players@).contains(id),
        r matches Some(i) ==> i < players.len() && players[i as int].id == id && i
            == first_place_of(roster_ids(players@), id),
{
    let mut i: usize = 0;
    while i < players.len()
        invariant
            i <= players.len(),
            forall|k: int| 0 <= k < i ==> players[k].id != id,
        decreases players.len() - i,
    {
        if players[i].id == id {
            assert(roster_ids(players@)[i as int] == id);
            proof {
                lemma_first_place(roster_ids(players@), id, i as int);
            }
            return Some(i);
        }
        i += 1;
    }
    assert(forall|k: int|
        0 <= k < roster_ids(players@).len() ==> roster_ids(players@)[k] == players[k].id);
    None
}

} // verus!
