//! Changes to a room between rounds: joining, new rules, and aborts.

use vstd::prelude::*;
use vstd::string::*;
use crate::content::{GameContent, LocationModel};
use crate::errors::AppError;
use crate::errors::ErrorKind;
use crate::game::{
    lemma_member_ids, lobby_model, member_ids, pool_ids, AbortScope, Game, GameLobby, GameModel,
    GamePhase,
};
use crate::outcome::SummaryModel;
use crate::player::{find_player, first_place_of, roster_ids, Player, PlayerModel};
use crate::rules::{normal_form, GameRules};
use crate::text::{all_blank, has_visible_ends, trimmed_of};

verus! {

/// A roster after a player joined: the player takes the place of the
/// member with the same id, or the end of the list.
pub open spec fn enrolled(players: Seq<PlayerModel>, player: PlayerModel) -> Seq<PlayerModel> {
    if member_ids(players).contains(player.id) {
        players.update(first_place_of(member_ids(players), player.id), player)
    } else {
        players.push(player)
    }
}

/// A room after an abort of the given scope. Either scope takes the id of
/// the active round's location, if there is a round, out of the used
/// ones and drops the round. A round abort then waits for the next
/// round; a game abort returns to the lobby and forgets counters, pool,
/// used ids and history.
pub open spec fn after_abort(game: GameModel, scope: AbortScope, now_ms: u64) -> GameModel {
    let freed = match game.current_round {
        Some(round) => released(game.used_location_ids, round.location.id),
        None => game.used_location_ids,
    };
    match scope {
        AbortScope::Round => GameModel {
            used_location_ids: freed,
            current_round: None,
            phase: GamePhase::AwaitingNextRound,
            last_active_ms: now_ms,
            ..game
        },
        AbortScope::Game => GameModel {
            used_location_ids: Seq::empty(),
            current_round: None,
            phase: GamePhase::Lobby,
            last_round: None,
            round_counter: 0,
            location_pool: Seq::empty(),
            round_history: Seq::empty(),
            last_active_ms: now_ms,
            ..game
        },
    }
}

/// A list of ids without one id.
pub open spec fn released(ids: Seq<u32>, id: u32) -> Seq<u32>
    decreases ids.len(),
{
    if ids.len() == 0 {
        Seq::empty()
    } else {
        let rest = released(ids.drop_last(), id);
        if ids.last() == id {
            rest
        } else {
            rest.push(ids.last())
        }
    }
}

/// Takes an id out of a list of ids.
pub fn release(ids: &Vec<u32>, id: u32) -> (r: Vec<u32>)
    ensures
        r@ == released(ids@, id),
        !r@.contains(id),
        forall|x: u32| r@.contains(x) ==> ids@.contains(x),
        ids@.no_duplicates() ==> r@.no_duplicates(),
{
    let mut out: Vec<u32> = Vec::new();
    let mut i: usize = 0;
    while i < ids.len()
        invariant
            i <= ids.len(),
            out@ == released(ids@.take(i as int), id),
            forall|k: int| 0 <= k < out@.len() ==> #[trigger] out@[k] != id,
            forall|k: int|
                0 <= k < out@.len() ==> exists|m: int| 0 <= m < i && ids@[m] == #[trigger] out@[k],
            ids@.no_duplicates() ==> out@.no_duplicates(),
        decreases ids.len() - i,
    {
        proof {
            assert(ids@.take(i + 1).drop_last() =~= ids@.take(i as int));
            assert(ids@.take(i + 1).last() == ids@[i as int]);
        }
        if ids[i] != id {
            out.push(ids[i]);
        }
        i += 1;
    }
    assert(ids@.take(ids.len() as int) =~= ids@);
    assert forall|x: u32| out@.contains(x) implies ids@.contains(x) by {
        let k = choose|k: int| 0 <= k < out@.len() && out@[k] == x;
        let m = choose|m: int| 0 <= m < ids.len() && ids@[m] == out@[k];
    }
    out
}

/// Whether a list of ids holds an id.
pub fn holds_id(ids: &Vec<u32>, id: u32) -> (r: bool)
    ensures
        r == ids@.contains(id),
{
    let mut i: usize = 0;
    while i < ids.len()
        invariant
            i <= ids.len(),
            forall|k: int| 0 <= k < i ==> ids@[k] != id,
        decreases ids.len() - i,
    {
        if ids[i] == id {
            return true;
        }
        i += 1;
    }
    false
}

impl Game {
    /// Whether the room takes one more player: only in the lobby, and
    /// only below the configured maximum.
    pub open spec fn open_to_join(&self) -> bool {
        self.phase == GamePhase::Lobby && self.players.len() < self.rules.max_players
    }

    /// Passes where the room takes one more player; validation otherwise.
    pub fn ensure_joinable(&self) -> (r: Result<(), AppError>)
        ensures
            r is Ok <==> self.open_to_join(),
            r matches Err(e) ==> e.kind() == ErrorKind::Validation,
    {
        if self.phase != GamePhase::Lobby {
            return Err(AppError::bad_request("game already in progress"));
        }
        if self.players.len() >= self.rules.max_players as usize {
            return Err(AppError::bad_request("game is full"));
        }
        Ok(())
    }

    /// Puts a player on the roster and marks the room active. Succeeds
    /// exactly where the room is open to join; a failure is validation
    /// and changes nothing. A player under an id already on the roster
    /// takes that member's place.
    pub fn enroll(&mut self, player: Player, now_ms: u64) -> (r: Result<u128, AppError>)
        ensures
            r is Ok <==> old(self).open_to_join(),
            r matches Err(e) ==> e.kind() == ErrorKind::Validation && *final(self) == *old(self),
            r matches Ok(id) ==> id == player.id && final(self).deep_view() == (GameModel {
                players: enrolled(old(self).deep_view().players, player.deep_view()),
                last_active_ms: now_ms,
                ..old(self).deep_view()
            }),
            old(self).wf() ==> final(self).wf(),
    {
        match self.ensure_joinable() {
            Err(e) => {
                return Err(e);
            },
            Ok(_) => {},
        }
        let id = player.id;
        proof {
            lemma_member_ids(self.players);
        }
        let ghost before = self.players.deep_view();
        let ghost ids = roster_ids(self.players@);
        match find_player(&self.players, id) {
            Some(place) => {
                self.players.set(place, player);
                assert(self.players.deep_view() =~= before.update(place as int, player.deep_view()));
                assert(roster_ids(self.players@) =~= ids);
            },
            None => {
                self.players.push(player);
                assert(self.players.deep_view() =~= before.push(player.deep_view()));
                assert(roster_ids(self.players@) =~= ids.push(id));
            },
        }
        self.last_active_ms = now_ms;
        Ok(id)
    }

    /// Lets a player of the given name join, under a fresh random id.
    /// Succeeds exactly where the room is open to join and something is
    /// left of the name after trimming; a failure is validation and
    /// changes nothing.
    pub fn join(&mut self, name: String, now_ms: u64) -> (r: Result<u128, AppError>)
        ensures
            r is Ok <==> old(self).open_to_join() && trimmed_of(name@).len() > 0,
            r matches Err(e) ==> e.kind() == ErrorKind::Validation && *final(self) == *old(self),
            r matches Ok(id) ==> final(self).deep_view() == (GameModel {
                players: enrolled(
                    old(self).deep_view().players,
                    PlayerModel { id, name: trimmed_of(name@), crew_wins: 0, imposter_wins: 0 },
                ),
                last_active_ms: now_ms,
                ..old(self).deep_view()
            }),
            all_blank(name@) ==> r is Err,
            has_visible_ends(name@) ==> (r is Ok <==> old(self).open_to_join()),
            has_visible_ends(name@) && r is Ok ==> trimmed_of(name@) == name@,
            old(self).wf() ==> final(self).wf(),
    {
        match self.ensure_joinable() {
            Err(e) => {
                return Err(e);
            },
            Ok(_) => {},
        }
        let player = match Player::new(name) {
            Ok(player) => player,
            Err(e) => {
                return Err(e);
            },
        };
        self.enroll(player, now_ms)
    }

    /// Replaces the rules by the normal form of the given ones, on the
    /// host's behalf. Only a wrong token fails: it is forbidden and
    /// changes nothing.
    pub fn update_rules(&mut self, token: u128, rules: GameRules, content: &GameContent, now_ms: u64) -> (r:
        Result<GameLobby, AppError>)
        ensures
            r is Ok <==> token == old(self).host_token,
            r matches Err(e) ==> e.kind() == ErrorKind::Forbidden,
            r is Err ==> *final(self) == *old(self),
            r matches Ok(lobby) ==> final(self).deep_view() == (GameModel {
                rules: normal_form(rules.deep_view(), content),
                last_active_ms: now_ms,
                ..old(self).deep_view()
            }) && lobby.deep_view() == lobby_model(final(self).deep_view()),
            old(self).wf() ==> final(self).wf(),
    {
        match self.ensure_host(token) {
            Err(e) => {
                return Err(e);
            },
            Ok(_) => {},
        }
        let normal = match rules.normalize(content) {
            Ok(normal) => normal,
            Err(e) => {
                return Err(e);
            },
        };
        self.rules = normal;
        self.last_active_ms = now_ms;
        Ok(self.lobby_view())
    }

    /// Aborts the round or the whole game, as `after_abort` says. A
    /// round abort outside a round fails as validation and changes
    /// nothing; a game abort always succeeds.
    pub fn abort(&mut self, scope: AbortScope, now_ms: u64) -> (r: Result<GameLobby, AppError>)
        ensures
            r is Err <==> scope == AbortScope::Round && old(self).phase != GamePhase::InRound,
            r matches Err(e) ==> e.kind() == ErrorKind::Validation && *final(self) == *old(self),
            r matches Ok(lobby) ==> final(self).deep_view() == after_abort(
                old(self).deep_view(),
                scope,
                now_ms,
            ) && lobby.deep_view() == lobby_model(final(self).deep_view()),
            old(self).wf() ==> final(self).wf(),
    {
        match scope {
            AbortScope::Round => {
                if self.phase != GamePhase::InRound {
                    return Err(AppError::bad_request("no active round is currently running"));
                }
                let freed = match &self.current_round {
                    Some(current) => Some(release(&self.used_location_ids, current.location.id)),
                    None => None,
                };
                if let Some(ids) = freed {
                    proof {
                        let kept = old(self).used_location_ids@;
                        let pool = pool_ids(self.location_pool.deep_view());
                        if old(self).wf() {
                            assert forall|k: int| 0 <= k < ids@.len() implies pool.contains(
                                #[trigger] ids@[k],
                            ) by {
                                assert(ids@.contains(ids@[k]));
                                assert(kept.contains(ids@[k]));
                                let m = choose|m: int| 0 <= m < kept.len() && kept[m] == ids@[k];
                                assert(pool.contains(kept[m]));
                            }
                        }
                    }
                    self.used_location_ids = ids;
                }
                self.current_round = None;
                self.phase = GamePhase::AwaitingNextRound;
            },
            AbortScope::Game => {
                self.current_round = None;
                self.phase = GamePhase::Lobby;
                self.last_round = None;
                self.round_counter = 0;
                self.location_pool = Vec::new();
                self.used_location_ids = Vec::new();
                self.round_history = Vec::new();
                assert(self.location_pool.deep_view() =~= Seq::<LocationModel>::empty());
                assert(self.round_history.deep_view() =~= Seq::<SummaryModel>::empty());
            },
        }
        self.last_active_ms = now_ms;
        Ok(self.lobby_view())
    }
}

/// A room in the lobby takes a player with a name exactly while its
/// roster is below the configured maximum, and the roster of a room that
/// took one holds the player.
pub proof fn lemma_join_until_full(game: Game, player: PlayerModel)
    requires
        game.phase == GamePhase::Lobby,
    ensures
        game.open_to_join() <==> game.players.len() < game.rules.max_players,
        member_ids(enrolled(game.deep_view().players, player)).contains(player.id),
{
    let players = game.deep_view().players;
    let ids = member_ids(players);
    if ids.contains(player.id) {
        let k = choose|k: int| 0 <= k < ids.len() && ids[k] == player.id;
        lemma_first_place_bound(ids, player.id, k);
        let first = first_place_of(ids, player.id);
        assert(member_ids(players.update(first, player))[first] == player.id);
    } else {
        assert(member_ids(players.push(player))[players.len() as int] == player.id);
    }
}

/// The first place of an id that a list holds is a place of the list.
pub proof fn lemma_first_place_bound(ids: Seq<u128>, id: u128, place: int)
    requires
        0 <= place < ids.len(),
        ids[place] == id,
    ensures
        0 <= first_place_of(ids, id) <= place,
        ids[first_place_of(ids, id)] == id,
    decreases ids.len(),
{
    if ids[0] != id {
        lemma_first_place_bound(ids.drop_first(), id, place - 1);
    }
}

} // verus!
