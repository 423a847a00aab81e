//! The room aggregate: roster, rules, phase, the active round, and the
//! history and location pool that outlive single rounds. This file holds
//! the data, its consistency, and the views; the operations that change
//! a room stand beside it.

use vstd::prelude::*;
use vstd::string::*;
use crate::content::{LocationDefinition, LocationModel};
use crate::errors::AppError;
use crate::errors::ErrorKind;
use crate::outcome::{copy_history, copy_summary, RoundSummary, SummaryModel};
use crate::player::{find_player, roster_ids, Player, PlayerModel, PlayerSummary};
use crate::room_code::RoomCode;
use crate::round::{
    private_model, public_model, PlayerAssignmentView, PublicRoundModel, QuestionView, RoundModel,
    RoundPublicState, RoundState,
};
use crate::rules::{GameRules, RulesModel};

verus! {


/// Where a room stands in its life.
#[derive(Clone, Copy, Debug, PartialEq, Eq, Structural)]
pub enum GamePhase {
    Lobby,
    InRound,
    AwaitingNextRound,
}

/// How much an abort undoes.
#[derive(Clone, Copy, Debug, PartialEq, Eq, Structural)]
pub enum AbortScope {
    Round,
    Game,
}

impl Default for AbortScope {
    fn default() -> (r: Self)
        ensures
            r == AbortScope::Round,
    {
        AbortScope::Round
    }
}

/// A location as a client may list it.
#[derive(Debug, PartialEq, Eq)]
pub struct LocationOption {
    pub id: u32,
    pub name: String,
}

/// A listed location as mathematical values.
pub struct OptionModel {
    pub id: u32,
    pub name: Seq<char>,
}

impl DeepView for LocationOption {
    type V = OptionModel;

    open spec fn deep_view(&self) -> OptionModel {
        OptionModel { id: self.id, name: self.name@ }
    }
}

/// What every viewer may know of a room outside its round.
#[derive(Debug, PartialEq, Eq)]
pub struct GameLobby {
    pub code: RoomCode,
    pub leader_id: u128,
    pub rules: GameRules,
    pub players: Vec<PlayerSummary>,
    pub player_count: u32,
    pub created_at_ms: u64,
    pub phase: GamePhase,
    pub last_round: Option<RoundSummary>,
    pub round_history: Vec<RoundSummary>,
}

/// A lobby view as mathematical values.
pub struct LobbyModel {
    pub code: Seq<char>,
    pub leader_id: u128,
    pub rules: RulesModel,
    pub players: Seq<PlayerModel>,
    pub player_count: u32,
    pub created_at_ms: u64,
    pub phase: GamePhase,
    pub last_round: Option<SummaryModel>,
    pub round_history: Seq<SummaryModel>,
}

impl DeepView for GameLobby {
    type V = LobbyModel;

    open spec fn deep_view(&self) -> LobbyModel {
        LobbyModel {
            code: self.code@,
            leader_id: self.leader_id,
            rules: self.rules.deep_view(),
            players: self.players.deep_view(),
            player_count: self.player_count,
            created_at_ms: self.created_at_ms,
            phase: self.phase,
            last_round: self.last_round.deep_view(),
            round_history: self.round_history.deep_view(),
        }
    }
}

/// A room's lobby and round views at one moment.
#[derive(Debug, PartialEq, Eq)]
pub struct GameSnapshot {
    pub lobby: GameLobby,
    pub round: Option<RoundPublicState>,
}

/// A snapshot as mathematical values.
pub struct SnapshotModel {
    pub lobby: LobbyModel,
    pub round: Option<PublicRoundModel>,
}

impl DeepView for GameSnapshot {
    type V = SnapshotModel;

    open spec fn deep_view(&self) -> SnapshotModel {
        SnapshotModel { lobby: self.lobby.deep_view(), round: self.round.deep_view() }
    }
}

/// What a room tells its subscribers.
#[derive(Debug, PartialEq, Eq)]
pub enum GameEvent {
    Snapshot(GameSnapshot),
    Lobby { lobby: GameLobby },
    Round { round: Option<RoundPublicState> },
    Pong,
}

/// An event as mathematical values.
pub enum EventModel {
    Snapshot(SnapshotModel),
    Lobby { lobby: LobbyModel },
    Round { round: Option<PublicRoundModel> },
    Pong,
}

impl DeepView for GameEvent {
    type V = EventModel;

    open spec fn deep_view(&self) -> EventModel {
        match self {
            GameEvent::Snapshot(snapshot) => EventModel::Snapshot(snapshot.deep_view()),
            GameEvent::Lobby { lobby } => EventModel::Lobby { lobby: lobby.deep_view() },
            GameEvent::Round { round } => EventModel::Round { round: round.deep_view() },
            GameEvent::Pong => EventModel::Pong,
        }
    }
}

/// The answer to a successful draw of the next question.
#[derive(Debug, PartialEq, Eq)]
pub struct NextQuestionResponse {
    pub question: QuestionView,
    pub next_turn_player_id: u128,
    pub asked_total: usize,
}

/// One room.
#[derive(Debug)]
pub struct Game {
    pub code: RoomCode,
    pub host_token: u128,
    pub rules: GameRules,
    pub leader_id: u128,
    pub players: Vec<Player>,
    pub created_at_ms: u64,
    pub last_active_ms: u64,
    pub round_counter: u32,
    pub phase: GamePhase,
    pub current_round: Option<RoundState>,
    pub last_round: Option<RoundSummary>,
    pub round_history: Vec<RoundSummary>,
    pub location_pool: Vec<LocationDefinition>,
    pub used_location_ids: Vec<u32>,
}

/// A room as mathematical values.
pub struct GameModel {
    pub code: Seq<char>,
    pub host_token: u128,
    pub rules: RulesModel,
    pub leader_id: u128,
    pub players: Seq<PlayerModel>,
    pub created_at_ms: u64,
    pub last_active_ms: u64,
    pub round_counter: u32,
    pub phase: GamePhase,
    pub current_round: Option<RoundModel>,
    pub last_round: Option<SummaryModel>,
    pub round_history: Seq<SummaryModel>,
    pub location_pool: Seq<LocationModel>,
    pub used_location_ids: Seq<u32>,
}

impl DeepView for Game {
    type V = GameModel;

    open spec fn deep_view(&self) -> GameModel {
        GameModel {
            code: self.code@,
            host_token: self.host_token,
            rules: self.rules.deep_view(),
            leader_id: self.leader_id,
            players: self.players.deep_view(),
            created_at_ms: self.created_at_ms,
            last_active_ms: self.last_active_ms,
            round_counter: self.round_counter,
            phase: self.phase,
            current_round: self.current_round.deep_view(),
            last_round: self.last_round.deep_view(),
            round_history: self.round_history.deep_view(),
            location_pool: self.location_pool.deep_view(),
            used_location_ids: self.used_location_ids@,
        }
    }
}

/// The ids of a roster given as mathematical values.
pub open spec fn member_ids(players: Seq<PlayerModel>) -> Seq<u128> {
    players.map_values(|p: PlayerModel| p.id)
}

/// The ids of the locations of a pool, in pool order.
pub open spec fn pool_ids(pool: Seq<LocationModel>) -> Seq<u32> {
    pool.map_values(|l: LocationModel| l.id)
}

/// The lobby view of a room.
pub open spec fn lobby_model(game: GameModel) -> LobbyModel {
    LobbyModel {
        code: game.code,
        leader_id: game.leader_id,
        rules: game.rules,
        players: game.players,
        player_count: game.players.len() as u32,
        created_at_ms: game.created_at_ms,
        phase: game.phase,
        last_round: game.last_round,
        round_history: game.round_history,
    }
}

/// The round view of a room, absent without a round.
pub open spec fn round_view_model(game: GameModel) -> Option<PublicRoundModel> {
    match game.current_round {
        Some(round) => Some(public_model(round)),
        None => None,
    }
}

/// The snapshot of a room: its lobby view and its round view.
pub open spec fn snapshot_model(game: GameModel) -> SnapshotModel {
    SnapshotModel { lobby: lobby_model(game), round: round_view_model(game) }
}

/// Copies a roster into summaries.
pub fn summaries(players: &Vec<Player>) -> (r: Vec<PlayerSummary>)
    ensures
        r.deep_view() == players.deep_view(),
{
    let mut out: Vec<PlayerSummary> = Vec::new();
    let mut i: usize = 0;
    while i < players.len()
        invariant
            i <= players.len(),
            out.len() == i,
            forall|k: int| 0 <= k < i ==> out[k].deep_view() == players[k].deep_view(),
        decreases players.len() - i,
    {
        out.push(players[i].summary());
        i += 1;
    }
    assert(out.deep_view() =~= players.deep_view());
    out
}

/// The ids of a roster are the same read from the players or their models.
pub proof fn lemma_member_ids(players: Vec<Player>)
    ensures
        member_ids(players.deep_view()) == roster_ids(players@),
{
    assert(member_ids(players.deep_view()) =~= roster_ids(players@));
}

impl Game {
    /// Whether the room is consistent: a well-formed code; no id twice on
    /// the roster; no id twice among the used locations, and each of them
    /// the id of a pool location; no round in the lobby, an unresolved
    /// round while the phase is `InRound`, and at most a resolved one
    /// while the room waits; and the round itself consistent, at a
    /// location whose id is in the pool.
    pub open spec fn wf(&self) -> bool {
        &&& self.code.wf()
        &&& roster_ids(self.players@).no_duplicates()
        &&& self.used_location_ids@.no_duplicates()
        &&& forall|k: int|
            0 <= k < self.used_location_ids@.len() ==> pool_ids(
                self.location_pool.deep_view(),
            ).contains(#[trigger] self.used_location_ids@[k])
        &&& (self.phase == GamePhase::Lobby ==> self.current_round is None)
        &&& (self.phase == GamePhase::InRound ==> self.current_round is Some
            && self.current_round->0.resolution is None)
        &&& (self.phase == GamePhase::AwaitingNextRound && self.current_round is Some
            ==> self.current_round->0.resolution is Some)
        &&& (self.current_round matches Some(round) ==> round.wf() && pool_ids(
            self.location_pool.deep_view(),
        ).contains(round.location.id))
    }

    /// A fresh room in the lobby, with the host as its only player and
    /// leader, no rounds played and no location pool yet.
    pub fn create(code: RoomCode, host_token: u128, host: Player, rules: GameRules, now_ms: u64) -> (r:
        Game)
        requires
            code.wf(),
        ensures
            r.wf(),
            r.code == code,
            r.host_token == host_token,
            r.rules == rules,
            r.leader_id == host.id,
            r.players@ == seq![host],
            r.created_at_ms == now_ms,
            r.last_active_ms == now_ms,
            r.round_counter == 0,
            r.phase == GamePhase::Lobby,
            r.current_round is None,
            r.last_round is None,
            r.round_history@.len() == 0,
            r.location_pool@.len() == 0,
            r.used_location_ids@.len() == 0,
    {
        let leader_id = host.id;
        let mut players: Vec<Player> = Vec::new();
        players.push(host);
        assert(roster_ids(players@) =~= seq![host.id]);
        Game {
            code,
            host_token,
            rules,
            leader_id,
            players,
            created_at_ms: now_ms,
            last_active_ms: now_ms,
            round_counter: 0,
            phase: GamePhase::Lobby,
            current_round: None,
            last_round: None,
            round_history: Vec::new(),
            location_pool: Vec::new(),
            used_location_ids: Vec::new(),
        }
    }

    /// The lobby view of the room.
    pub fn lobby_view(&self) -> (r: GameLobby)
        ensures
            r.deep_view() == lobby_model(self.deep_view()),
    {
        GameLobby {
            code: self.code.clone(),
            leader_id: self.leader_id,
            rules: self.rules.clone(),
            players: summaries(&self.players),
            player_count: self.players.len() as u32,
            created_at_ms: self.created_at_ms,
            phase: self.phase,
            last_round: copy_summary(&self.last_round),
            round_history: copy_history(&self.round_history),
        }
    }

    /// The round view of the room, absent without a round.
    pub fn current_round_view(&self) -> (r: Option<RoundPublicState>)
        ensures
            r.deep_view() == round_view_model(self.deep_view()),
    {
        match &self.current_round {
            Some(round) => Some(round.public_state()),
            None => None,
        }
    }

    /// The lobby view and the round view together.
    pub fn snapshot(&self) -> (r: GameSnapshot)
        ensures
            r.deep_view() == snapshot_model(self.deep_view()),
    {
        GameSnapshot { lobby: self.lobby_view(), round: self.current_round_view() }
    }

    /// Passes only the host's token; any other is forbidden.
    pub fn ensure_host(&self, token: u128) -> (r: Result<(), AppError>)
        ensures
            r is Ok <==> token == self.host_token,
            r matches Err(e) ==> e.kind() == ErrorKind::Forbidden && e.message()
                == "host token invalid"@,
    {
        if self.host_token != token {
            return Err(AppError::forbidden("host token invalid"));
        }
        Ok(())
    }

    /// Passes only a member of the roster; anyone else is forbidden.
    pub fn ensure_player(&self, player_id: u128) -> (r: Result<(), AppError>)
        ensures
            r is Ok <==> member_ids(self.deep_view().players).contains(player_id),
            r matches Err(e) ==> e.kind() == ErrorKind::Forbidden && e.message()
                == "player not part of this game"@,
    {
        proof {
            lemma_member_ids(self.players);
        }
        if find_player(&self.players, player_id).is_none() {
            return Err(AppError::forbidden("player not part of this game"));
        }
        Ok(())
    }

    /// Marks the room as active at the given time.
    pub fn touch(&mut self, now_ms: u64)
        ensures
            *final(self) == (Game { last_active_ms: now_ms, ..*old(self) }),
    {
        self.last_active_ms = now_ms;
    }

    /// The locations of the room's pool, by id and name.
    pub fn location_options(&self) -> (r: Vec<LocationOption>)
        ensures
            r.deep_view() == self.location_pool.deep_view().map_values(
                |l: LocationModel| OptionModel { id: l.id, name: l.name },
            ),
    {
        let mut out: Vec<LocationOption> = Vec::new();
        let mut i: usize = 0;
        while i < self.location_pool.len()
            invariant
                i <= self.location_pool.len(),
                out.len() == i,
                forall|k: int|
                    0 <= k < i ==> out[k].id == self.location_pool[k].id && out[k].name@
                        == self.location_pool[k].name@,
            decreases self.location_pool.len() - i,
        {
            out.push(
                LocationOption {
                    id: self.location_pool[i].id,
                    name: self.location_pool[i].name.clone(),
                },
            );
            i += 1;
        }
        assert(out.deep_view() =~= self.location_pool.deep_view().map_values(
            |l: LocationModel| OptionModel { id: l.id, name: l.name },
        ));
        out
    }

    /// The active round; validation fails without one.
    pub fn round_state(&self) -> (r: Result<&RoundState, AppError>)
        ensures
            r is Ok <==> self.current_round is Some,
            r matches Ok(round) ==> Some(*round) == self.current_round,
            r matches Err(e) ==> e.kind() == ErrorKind::Validation && e.message()
                == "no active round"@,
    {
        match &self.current_round {
            Some(round) => Ok(round),
            None => Err(AppError::bad_request("no active round")),
        }
    }

    /// The round view; validation fails without a round.
    pub fn public_round_state(&self) -> (r: Result<RoundPublicState, AppError>)
        ensures
            r is Ok <==> self.current_round is Some,
            r matches Ok(view) ==> Some(view.deep_view()) == round_view_model(self.deep_view()),
            r matches Err(e) ==> e.kind() == ErrorKind::Validation && e.message()
                == "no active round"@,
    {
        match self.round_state() {
            Ok(round) => Ok(round.public_state()),
            Err(e) => Err(e),
        }
    }

    /// A player's private view of the round: forbidden to a stranger to
    /// the roster, validation without a round, not found for a member
    /// the round dealt nothing to.
    pub fn assignment_for(&self, player_id: u128) -> (r: Result<PlayerAssignmentView, AppError>)
        ensures
            !member_ids(self.deep_view().players).contains(player_id) ==> (r matches Err(e)
                && e.kind() == ErrorKind::Forbidden),
            member_ids(self.deep_view().players).contains(player_id) ==> match self.deep_view().current_round {
                None => r matches Err(e) && e.kind() == ErrorKind::Validation,
                Some(round) => match private_model(round, player_id) {
                    None => r matches Err(e) && e.kind() == ErrorKind::NotFound,
                    Some(view) => r matches Ok(v) && v.deep_view() == view,
                },
            },
    {
        match self.ensure_player(player_id) {
            Err(e) => {
                return Err(e);
            },
            Ok(_) => {},
        }
        let round = match self.round_state() {
            Ok(round) => round,
            Err(e) => {
                return Err(e);
            },
        };
        match round.assignment_for(player_id) {
            Some(view) => Ok(view),
            None => Err(AppError::not_found("assignment not found")),
        }
    }
}

} // verus!
