//! The operations a transport offers on rooms named by their code. Each
//! finds the room, runs the room's own operation, and hands back the
//! answer with the events to publish, in order.

use vstd::prelude::*;
use vstd::string::*;
use crate::ids::{parse_id, parsed_id};
use crate::content::{GameContent, LocationModel};
use crate::errors::AppError;
use crate::errors::ErrorKind;
use crate::game::{
    lobby_model, member_ids, round_view_model, snapshot_model, AbortScope, EventModel, Game,
    GameEvent, GameLobby, GameModel, GamePhase, GameSnapshot, LocationOption,
    NextQuestionResponse, OptionModel,
};
use crate::lobby::{after_abort, enrolled};
use crate::play::{after_guess, begin_failed, begun, can_begin, guess_verdict};
use crate::outcome::{GuessAction, RoundResolution};
use crate::player::PlayerModel;
use crate::registry::{codes_of, Registry};
use crate::room_code::{lemma_upper_twice, reads_as_code, upper, RoomCode};
use crate::round::{private_model, shown, PlayerAssignmentView, RoundPublicState};
use crate::turns::turn_taken;
use crate::rules::{normal_form, GameRules};
use crate::text::{all_blank, has_visible_ends, trimmed_of};

verus! {

/// The answer to a successful join.
#[derive(Debug, PartialEq, Eq)]
pub struct JoinGameResponse {
    pub player_id: u128,
    pub code: RoomCode,
}

/// The place of the room that a text names, or why there is none: a text
/// that does not read as a code is validation, an unknown code not found.
pub open spec fn named(games: Seq<Game>, code: Seq<char>) -> Result<int, ErrorKind> {
    if !reads_as_code(code) {
        Err(ErrorKind::Validation)
    } else if !codes_of(games).contains(upper(code)) {
        Err(ErrorKind::NotFound)
    } else {
        Ok(codes_of(games).index_of(upper(code)))
    }
}

/// Whether two lists of rooms differ at most at one place.
pub open spec fn others_kept(before: Seq<Game>, after: Seq<Game>, place: int) -> bool {
    &&& after.len() == before.len()
    &&& forall|j: int| 0 <= j < before.len() && j != place ==> #[trigger] after[j] == before[j]
}

/// The move that a guess request makes: exactly one of an accused player
/// and a guessed location.
pub open spec fn move_of(accused: Option<u128>, location: Option<u32>) -> Option<GuessAction> {
    match (accused, location) {
        (Some(accused_id), None) => Some(GuessAction::AccusePlayer { accused_id }),
        (None, Some(location_id)) => Some(GuessAction::GuessLocation { location_id }),
        _ => None,
    }
}

/// Reads a guess request. Both fields or neither fail as validation.
pub fn guess_action(accused: Option<u128>, location: Option<u32>) -> (r: Result<
    GuessAction,
    AppError,
>)
    ensures
        match move_of(accused, location) {
            Some(action) => r == Ok::<GuessAction, AppError>(action),
            None => r matches Err(e) && e.kind() == ErrorKind::Validation,
        },
{
    match (accused, location) {
        (Some(accused_id), None) => Ok(GuessAction::AccusePlayer { accused_id }),
        (None, Some(location_id)) => Ok(GuessAction::GuessLocation { location_id }),
        _ => Err(
            AppError::bad_request("provide an accused_player_id or location_id, but not both"),
        ),
    }
}

/// The two events after a change of round and lobby, lobby first.
pub fn lobby_then_round(game: &Game) -> (events: Vec<GameEvent>)
    ensures
        events.deep_view() == seq![
            EventModel::Lobby { lobby: lobby_model(game.deep_view()) },
            EventModel::Round { round: round_view_model(game.deep_view()) },
        ],
{
    let mut events: Vec<GameEvent> = Vec::new();
    events.push(GameEvent::Lobby { lobby: game.lobby_view() });
    events.push(GameEvent::Round { round: game.current_round_view() });
    assert(events.deep_view() =~= seq![
        EventModel::Lobby { lobby: lobby_model(game.deep_view()) },
        EventModel::Round { round: round_view_model(game.deep_view()) },
    ]);
    events
}

/// The one event after a change of the lobby.
pub fn lobby_only(game: &Game) -> (events: Vec<GameEvent>)
    ensures
        events.deep_view() == seq![EventModel::Lobby { lobby: lobby_model(game.deep_view()) }],
{
    let mut events: Vec<GameEvent> = Vec::new();
    events.push(GameEvent::Lobby { lobby: game.lobby_view() });
    assert(events.deep_view() =~= seq![
        EventModel::Lobby { lobby: lobby_model(game.deep_view()) },
    ]);
    events
}

/// The one event after a change of the round.
pub fn round_only(game: &Game) -> (events: Vec<GameEvent>)
    ensures
        events.deep_view() == seq![
            EventModel::Round { round: round_view_model(game.deep_view()) },
        ],
{
    let mut events: Vec<GameEvent> = Vec::new();
    events.push(GameEvent::Round { round: game.current_round_view() });
    assert(events.deep_view() =~= seq![
        EventModel::Round { round: round_view_model(game.deep_view()) },
    ]);
    events
}

/// The two events after a guess was accepted, round first.
pub fn round_then_lobby(game: &Game) -> (events: Vec<GameEvent>)
    ensures
        events.deep_view() == seq![
            EventModel::Round { round: round_view_model(game.deep_view()) },
            EventModel::Lobby { lobby: lobby_model(game.deep_view()) },
        ],
{
    let mut events: Vec<GameEvent> = Vec::new();
    events.push(GameEvent::Round { round: game.current_round_view() });
    events.push(GameEvent::Lobby { lobby: game.lobby_view() });
    assert(events.deep_view() =~= seq![
        EventModel::Round { round: round_view_model(game.deep_view()) },
        EventModel::Lobby { lobby: lobby_model(game.deep_view()) },
    ]);
    events
}

impl Registry {
    /// The place of the room that a text names, as `named` says.
    pub fn seek(&self, code: String) -> (r: Result<usize, AppError>)
        requires
            self.wf(),
        ensures
            match named(self.games@, code@) {
                Ok(place) => r matches Ok(found) && found == place,
                Err(kind) => r matches Err(e) && e.kind() == kind,
            },
            r matches Ok(found) ==> found < self.games@.len() && self.games@[found as int].code@
                == upper(code@),
    {
        let code = match RoomCode::new(code) {
            Ok(code) => code,
            Err(e) => {
                return Err(e);
            },
        };
        match self.find(&code) {
            Some(i) => {
                proof {
                    let codes = codes_of(self.games@);
                    assert(codes[i as int] == code@);
                    let j = codes.index_of(code@);
                    assert(0 <= j < codes.len() && codes[j] == code@);
                }
                Ok(i)
            },
            None => Err(AppError::not_found("game not found")),
        }
    }

    /// Lets a player join the room that a text names. On success the
    /// roster has the player, the room is marked active, and the lobby
    /// view is to be published.
    pub fn join_game(&mut self, code: String, player_name: String, now_ms: u64) -> (r: Result<
        (JoinGameResponse, Vec<GameEvent>),
        AppError,
    >)
        requires
            old(self).wf(),
        ensures
            final(self).wf(),
            match named(old(self).games@, code@) {
                Err(kind) => r matches Err(e) && e.kind() == kind && *final(self) == *old(self),
                Ok(place) => {
                    let before = old(self).games@[place];
                    let after = final(self).games@[place];
                    &&& others_kept(old(self).games@, final(self).games@, place)
                    &&& r is Ok <==> before.open_to_join() && trimmed_of(player_name@).len() > 0
                    &&& all_blank(player_name@) ==> r is Err
                    &&& has_visible_ends(player_name@) ==> (r is Ok <==> before.open_to_join())
                    &&& has_visible_ends(player_name@) && r is Ok ==> trimmed_of(player_name@)
                        == player_name@
                    &&& r matches Err(e) ==> e.kind() == ErrorKind::Validation && after == before
                    &&& r matches Ok((answer, events)) ==> {
                        &&& answer.code@ == before.code@
                        &&& after.deep_view() == (GameModel {
                            players: enrolled(
                                before.deep_view().players,
                                PlayerModel {
                                    id: answer.player_id,
                                    name: trimmed_of(player_name@),
                                    crew_wins: 0,
                                    imposter_wins: 0,
                                },
                            ),
                            last_active_ms: now_ms,
                            ..before.deep_view()
                        })
                        &&& events.deep_view() == seq![
                            EventModel::Lobby { lobby: lobby_model(after.deep_view()) },
                        ]
                    }
                },
            },
    {
        let place = match self.seek(code) {
            Ok(place) => place,
            Err(e) => {
                return Err(e);
            },
        };
        let ghost before = self.games@;
        let game = &mut self.games[place];
        let player_id = match game.join(player_name, now_ms) {
            Ok(id) => id,
            Err(e) => {
                assert(self.games@ =~= before);
                return Err(e);
            },
        };
        let answer = JoinGameResponse { player_id, code: self.games[place].code.clone() };
        let events = lobby_only(&self.games[place]);
        proof {
            self.lemma_one_changed(before, place as int);
        }
        Ok((answer, events))
    }

    /// A registry stays consistent when one room changed into a
    /// consistent room under the same code.
    pub proof fn lemma_one_changed(&self, before: Seq<Game>, place: int)
        requires
            0 <= place < before.len(),
            others_kept(before, self.games@, place),
            forall|k: int| 0 <= k < before.len() ==> (#[trigger] before[k]).wf(),
            codes_of(before).no_duplicates(),
            self.games@[place].wf(),
            self.games@[place].code@ == before[place].code@,
        ensures
            self.wf(),
    {
        assert(codes_of(self.games@) =~= codes_of(before));
        assert forall|k: int| 0 <= k < self.games@.len() implies (#[trigger] self.games@[k]).wf() by {
            if k != place {
                assert(self.games@[k] == before[k]);
            }
        }
    }
}

impl Registry {
    /// Begins a round in the room that a text names, on the host's
    /// behalf: a wrong token is forbidden and changes nothing; otherwise
    /// as `Game::begin_round` says, and on success the lobby view and the
    /// round view are to be published, in this order.
    pub fn start_game(&mut self, code: String, host_token: u128, content: &GameContent, now_ms: u64) -> (r:
        Result<(RoundPublicState, Vec<GameEvent>), AppError>)
        requires
            old(self).wf(),
        ensures
            final(self).wf(),
            match named(old(self).games@, code@) {
                Err(kind) => r matches Err(e) && e.kind() == kind && *final(self) == *old(self),
                Ok(place) => {
                    let before = old(self).games@[place];
                    let after = final(self).games@[place];
                    &&& others_kept(old(self).games@, final(self).games@, place)
                    &&& if host_token != before.host_token {
                        r matches Err(e) && e.kind() == ErrorKind::Forbidden && after == before
                    } else {
                        &&& r is Ok <==> can_begin(before.deep_view(), content)
                        &&& r matches Err(e) ==> e.kind() == ErrorKind::Validation
                            && begin_failed(before.deep_view(), content, after.deep_view())
                        &&& r matches Ok((view, events)) ==> {
                            &&& begun(before.deep_view(), content, now_ms, after.deep_view())
                            &&& Some(view.deep_view()) == round_view_model(after.deep_view())
                            &&& events.deep_view() == seq![
                                EventModel::Lobby { lobby: lobby_model(after.deep_view()) },
                                EventModel::Round { round: round_view_model(after.deep_view()) },
                            ]
                        }
                    }
                },
            },
    {
        let place = match self.seek(code) {
            Ok(place) => place,
            Err(e) => {
                return Err(e);
            },
        };
        let ghost before = self.games@;
        match self.games[place].ensure_host(host_token) {
            Err(e) => {
                return Err(e);
            },
            Ok(_) => {},
        }
        let game = &mut self.games[place];
        let outcome = game.begin_round(content, now_ms);
        proof {
            self.lemma_one_changed(before, place as int);
        }
        match outcome {
            Ok(view) => {
                let events = lobby_then_round(&self.games[place]);
                Ok((view, events))
            },
            Err(e) => Err(e),
        }
    }

    /// Begins the next round: the same as `start_game`.
    pub fn start_next_round(
        &mut self,
        code: String,
        host_token: u128,
        content: &GameContent,
        now_ms: u64,
    ) -> (r: Result<(RoundPublicState, Vec<GameEvent>), AppError>)
        requires
            old(self).wf(),
        ensures
            final(self).wf(),
            match named(old(self).games@, code@) {
                Err(kind) => r matches Err(e) && e.kind() == kind && *final(self) == *old(self),
                Ok(place) => {
                    let before = old(self).games@[place];
                    let after = final(self).games@[place];
                    &&& others_kept(old(self).games@, final(self).games@, place)
                    &&& if host_token != before.host_token {
                        r matches Err(e) && e.kind() == ErrorKind::Forbidden && after == before
                    } else {
                        &&& r is Ok <==> can_begin(before.deep_view(), content)
                        &&& r matches Err(e) ==> e.kind() == ErrorKind::Validation
                            && begin_failed(before.deep_view(), content, after.deep_view())
                        &&& r matches Ok((view, events)) ==> {
                            &&& begun(before.deep_view(), content, now_ms, after.deep_view())
                            &&& Some(view.deep_view()) == round_view_model(after.deep_view())
                            &&& events.deep_view() == seq![
                                EventModel::Lobby { lobby: lobby_model(after.deep_view()) },
                                EventModel::Round { round: round_view_model(after.deep_view()) },
                            ]
                        }
                    }
                },
            },
    {
        self.start_game(code, host_token, content, now_ms)
    }

    /// Replaces the rules of the room that a text names, as
    /// `Game::update_rules` says; on success the lobby view is the answer
    /// and is to be published.
    pub fn update_rules(
        &mut self,
        code: String,
        host_token: u128,
        rules: GameRules,
        content: &GameContent,
        now_ms: u64,
    ) -> (r: Result<(GameLobby, Vec<GameEvent>), AppError>)
        requires
            old(self).wf(),
        ensures
            final(self).wf(),
            match named(old(self).games@, code@) {
                Err(kind) => r matches Err(e) && e.kind() == kind && *final(self) == *old(self),
                Ok(place) => {
                    let before = old(self).games@[place];
                    let after = final(self).games@[place];
                    &&& others_kept(old(self).games@, final(self).games@, place)
                    &&& if host_token != before.host_token {
                        r matches Err(e) && e.kind() == ErrorKind::Forbidden && after == before
                    } else {
                        r matches Ok((lobby, events)) && after.deep_view() == (GameModel {
                            rules: normal_form(rules.deep_view(), content),
                            last_active_ms: now_ms,
                            ..before.deep_view()
                        }) && lobby.deep_view() == lobby_model(after.deep_view())
                            && events.deep_view() == seq![
                            EventModel::Lobby { lobby: lobby_model(after.deep_view()) },
                        ]
                    }
                },
            },
    {
        let place = match self.seek(code) {
            Ok(place) => place,
            Err(e) => {
                return Err(e);
            },
        };
        let ghost before = self.games@;
        let game = &mut self.games[place];
        let outcome = game.update_rules(host_token, rules, content, now_ms);
        match outcome {
            Ok(lobby) => {
                proof {
                    self.lemma_one_changed(before, place as int);
                }
                let events = lobby_only(&self.games[place]);
                Ok((lobby, events))
            },
            Err(e) => {
                assert(self.games@ =~= before);
                Err(e)
            },
        }
    }

    /// The lobby view of the room that a text names; the room is marked
    /// active.
    pub fn fetch_game_details(&mut self, code: String, now_ms: u64) -> (r: Result<GameLobby, AppError>)
        requires
            old(self).wf(),
        ensures
            final(self).wf(),
            match named(old(self).games@, code@) {
                Err(kind) => r matches Err(e) && e.kind() == kind && *final(self) == *old(self),
                Ok(place) => {
                    let before = old(self).games@[place];
                    let after = final(self).games@[place];
                    &&& others_kept(old(self).games@, final(self).games@, place)
                    &&& after == (Game { last_active_ms: now_ms, ..before })
                    &&& r matches Ok(lobby) && lobby.deep_view() == lobby_model(after.deep_view())
                },
            },
    {
        let place = match self.seek(code) {
            Ok(place) => place,
            Err(e) => {
                return Err(e);
            },
        };
        let ghost before = self.games@;
        let game = &mut self.games[place];
        game.touch(now_ms);
        proof {
            self.lemma_one_changed(before, place as int);
        }
        Ok(self.games[place].lobby_view())
    }

    /// The round view of the room that a text names. Without a round
    /// validation fails and nothing changes; else the room is marked active.
    pub fn get_round_state(&mut self, code: String, now_ms: u64) -> (r: Result<
        RoundPublicState,
        AppError,
    >)
        requires
            old(self).wf(),
        ensures
            final(self).wf(),
            match named(old(self).games@, code@) {
                Err(kind) => r matches Err(e) && e.kind() == kind && *final(self) == *old(self),
                Ok(place) => {
                    let before = old(self).games@[place];
                    let after = final(self).games@[place];
                    &&& others_kept(old(self).games@, final(self).games@, place)
                    &&& if before.current_round is None {
                        r matches Err(e) && e.kind() == ErrorKind::Validation && after == before
                    } else {
                        &&& after == (Game { last_active_ms: now_ms, ..before })
                        &&& r matches Ok(view) && Some(view.deep_view()) == round_view_model(
                            before.deep_view(),
                        )
                    }
                },
            },
    {
        let place = match self.seek(code) {
            Ok(place) => place,
            Err(e) => {
                return Err(e);
            },
        };
        let ghost before = self.games@;
        let view = match self.games[place].public_round_state() {
            Ok(view) => view,
            Err(e) => {
                return Err(e);
            },
        };
        let game = &mut self.games[place];
        game.touch(now_ms);
        proof {
            self.lemma_one_changed(before, place as int);
        }
        Ok(view)
    }

    /// Aborts in the room that a text names, on the host's behalf: a
    /// wrong token is forbidden and changes nothing; otherwise as
    /// `Game::abort` says, and on success the lobby view and the round
    /// view are to be published, in this order.
    pub fn abort_game(&mut self, code: String, host_token: u128, scope: AbortScope, now_ms: u64) -> (r:
        Result<(GameLobby, Vec<GameEvent>), AppError>)
        requires
            old(self).wf(),
        ensures
            final(self).wf(),
            match named(old(self).games@, code@) {
                Err(kind) => r matches Err(e) && e.kind() == kind && *final(self) == *old(self),
                Ok(place) => {
                    let before = old(self).games@[place];
                    let after = final(self).games@[place];
                    &&& others_kept(old(self).games@, final(self).games@, place)
                    &&& if host_token != before.host_token {
                        r matches Err(e) && e.kind() == ErrorKind::Forbidden && after == before
                    } else if scope == AbortScope::Round && before.phase != GamePhase::InRound {
                        r matches Err(e) && e.kind() == ErrorKind::Validation && after == before
                    } else {
                        r matches Ok((lobby, events)) && after.deep_view() == after_abort(
                            before.deep_view(),
                            scope,
                            now_ms,
                        ) && lobby.deep_view() == lobby_model(after.deep_view())
                            && events.deep_view() == seq![
                            EventModel::Lobby { lobby: lobby_model(after.deep_view()) },
                            EventModel::Round { round: round_view_model(after.deep_view()) },
                        ]
                    }
                },
            },
    {
        let place = match self.seek(code) {
            Ok(place) => place,
            Err(e) => {
                return Err(e);
            },
        };
        let ghost before = self.games@;
        match self.games[place].ensure_host(host_token) {
            Err(e) => {
                return Err(e);
            },
            Ok(_) => {},
        }
        let game = &mut self.games[place];
        let outcome = game.abort(scope, now_ms);
        match outcome {
            Ok(lobby) => {
                proof {
                    self.lemma_one_changed(before, place as int);
                }
                let events = lobby_then_round(&self.games[place]);
                Ok((lobby, events))
            },
            Err(e) => {
                assert(self.games@ =~= before);
                Err(e)
            },
        }
    }

    /// Takes a guess in the room that a text names. A request with both
    /// fields or neither fails as validation; otherwise as
    /// `Game::submit_guess` says. A failure changes nothing; on success
    /// the round view and the lobby view are to be published, in this order.
    pub fn submit_guess(
        &mut self,
        code: String,
        player_id: u128,
        accused_player_id: Option<u128>,
        location_id: Option<u32>,
        now_ms: u64,
    ) -> (r: Result<(RoundResolution, Vec<GameEvent>), AppError>)
        requires
            old(self).wf(),
        ensures
            final(self).wf(),
            match named(old(self).games@, code@) {
                Err(kind) => r matches Err(e) && e.kind() == kind && *final(self) == *old(self),
                Ok(place) => {
                    let before = old(self).games@[place];
                    let after = final(self).games@[place];
                    &&& others_kept(old(self).games@, final(self).games@, place)
                    &&& match move_of(accused_player_id, location_id) {
                        None => r matches Err(e) && e.kind() == ErrorKind::Validation && after
                            == before,
                        Some(action) => match guess_verdict(
                            before.deep_view(),
                            player_id,
                            action,
                            now_ms,
                        ) {
                            Err(kind) => r matches Err(e) && e.kind() == kind && after == before,
                            Ok(verdict) => r matches Ok((resolution, events))
                                && resolution.deep_view() == verdict && after.deep_view()
                                == after_guess(before.deep_view(), verdict, now_ms)
                                && events.deep_view() == seq![
                                EventModel::Round { round: round_view_model(after.deep_view()) },
                                EventModel::Lobby { lobby: lobby_model(after.deep_view()) },
                            ],
                        },
                    }
                },
            },
    {
        let place = match self.seek(code) {
            Ok(place) => place,
            Err(e) => {
                return Err(e);
            },
        };
        let action = match guess_action(accused_player_id, location_id) {
            Ok(action) => action,
            Err(e) => {
                return Err(e);
            },
        };
        let ghost before = self.games@;
        let game = &mut self.games[place];
        let outcome = game.submit_guess(player_id, action, now_ms);
        match outcome {
            Ok(resolution) => {
                proof {
                    self.lemma_one_changed(before, place as int);
                }
                let events = round_then_lobby(&self.games[place]);
                Ok((resolution, events))
            },
            Err(e) => {
                assert(self.games@ =~= before);
                Err(e)
            },
        }
    }

    /// Draws the next question in the room that a text names, as
    /// `Game::draw_next_question` says; on success the round view is to
    /// be published.
    pub fn draw_next_question(
        &mut self,
        code: String,
        player_id: u128,
        content: &GameContent,
        now_ms: u64,
    ) -> (r: Result<(NextQuestionResponse, Vec<GameEvent>), AppError>)
        requires
            old(self).wf(),
        ensures
            final(self).wf(),
            match named(old(self).games@, code@) {
                Err(kind) => r matches Err(e) && e.kind() == kind && *final(self) == *old(self),
                Ok(place) => {
                    let before = old(self).games@[place];
                    let after = final(self).games@[place];
                    &&& others_kept(old(self).games@, final(self).games@, place)
                    &&& if !member_ids(before.deep_view().players).contains(player_id) {
                        r matches Err(e) && e.kind() == ErrorKind::Forbidden && after == before
                    } else if before.current_round is None {
                        r matches Err(e) && e.kind() == ErrorKind::Validation && after == before
                    } else {
                        let round = before.deep_view().current_round->0;
                        &&& after.deep_view().current_round matches Some(next)
                            && after.deep_view() == (GameModel {
                            current_round: Some(next),
                            last_active_ms: if r is Ok {
                                now_ms
                            } else {
                                before.last_active_ms
                            },
                            ..before.deep_view()
                        }) && match r {
                            Err(e) => turn_taken(
                                round,
                                player_id,
                                before.deep_view().rules.question_categories,
                                before.rules.allow_repeated_questions,
                                content,
                                now_ms,
                                Err(e.kind()),
                                next,
                            ),
                            Ok((answer, events)) => next.current_question matches Some(question)
                                && turn_taken(
                                round,
                                player_id,
                                before.deep_view().rules.question_categories,
                                before.rules.allow_repeated_questions,
                                content,
                                now_ms,
                                Ok((question, answer.next_turn_player_id)),
                                next,
                            ) && answer.question.deep_view() == shown(question)
                                && answer.asked_total == next.asked_questions.len()
                                && events.deep_view() == seq![
                                EventModel::Round { round: round_view_model(after.deep_view()) },
                            ],
                        }
                    }
                },
            },
    {
        let place = match self.seek(code) {
            Ok(place) => place,
            Err(e) => {
                return Err(e);
            },
        };
        let ghost before = self.games@;
        let game = &mut self.games[place];
        let outcome = game.draw_next_question(player_id, content, now_ms);
        proof {
            self.lemma_one_changed(before, place as int);
        }
        match outcome {
            Ok(answer) => {
                let events = round_only(&self.games[place]);
                Ok((answer, events))
            },
            Err(e) => Err(e),
        }
    }

    /// A player's private view in the room that a text names. The code
    /// is read first, then the player's id, which fails as validation
    /// where it spells no id; then as `Game::assignment_for` says, and
    /// on success the room is marked active.
    pub fn get_assignment(&mut self, code: String, player_id: String, now_ms: u64) -> (r: Result<
        PlayerAssignmentView,
        AppError,
    >)
        requires
            old(self).wf(),
        ensures
            final(self).wf(),
            r is Err ==> *final(self) == *old(self),
            !reads_as_code(code@) || parsed_id(player_id@) is None ==> (r matches Err(e)
                && e.kind() == ErrorKind::Validation),
            reads_as_code(code@) && parsed_id(player_id@) is Some ==> match named(
                old(self).games@,
                code@,
            ) {
                Err(kind) => r matches Err(e) && e.kind() == kind,
                Ok(place) => {
                    let before = old(self).games@[place];
                    let after = final(self).games@[place];
                    let id = parsed_id(player_id@)->0;
                    &&& others_kept(old(self).games@, final(self).games@, place)
                    &&& if !member_ids(before.deep_view().players).contains(id) {
                        r matches Err(e) && e.kind() == ErrorKind::Forbidden
                    } else {
                        match before.deep_view().current_round {
                            None => r matches Err(e) && e.kind() == ErrorKind::Validation,
                            Some(round) => match private_model(round, id) {
                                None => r matches Err(e) && e.kind() == ErrorKind::NotFound,
                                Some(view) => r matches Ok(v) && v.deep_view() == view && after
                                    == (Game { last_active_ms: now_ms, ..before }),
                            },
                        }
                    }
                },
            },
    {
        let ghost text = code@;
        let room = match RoomCode::new(code) {
            Ok(room) => room,
            Err(e) => {
                return Err(e);
            },
        };
        let id = match parse_id(player_id.as_str()) {
            Some(id) => id,
            None => {
                return Err(AppError::bad_request("invalid player id"));
            },
        };
        let place = match self.seek(room.as_text()) {
            Ok(place) => place,
            Err(e) => {
                proof {
                    lemma_upper_twice(text);
                }
                return Err(e);
            },
        };
        proof {
            lemma_upper_twice(text);
        }
        let ghost before = self.games@;
        let view = match self.games[place].assignment_for(id) {
            Ok(view) => view,
            Err(e) => {
                return Err(e);
            },
        };
        let game = &mut self.games[place];
        game.touch(now_ms);
        proof {
            self.lemma_one_changed(before, place as int);
        }
        Ok(view)
    }

    /// The location options of the room that a text names. Before the
    /// pool was drawn validation fails and nothing changes; else the
    /// room is marked active.
    pub fn get_game_locations(&mut self, code: String, now_ms: u64) -> (r: Result<
        Vec<LocationOption>,
        AppError,
    >)
        requires
            old(self).wf(),
        ensures
            final(self).wf(),
            match named(old(self).games@, code@) {
                Err(kind) => r matches Err(e) && e.kind() == kind && *final(self) == *old(self),
                Ok(place) => {
                    let before = old(self).games@[place];
                    let after = final(self).games@[place];
                    &&& others_kept(old(self).games@, final(self).games@, place)
                    &&& if before.location_pool@.len() == 0 {
                        r matches Err(e) && e.kind() == ErrorKind::Validation && after == before
                    } else {
                        &&& after == (Game { last_active_ms: now_ms, ..before })
                        &&& r matches Ok(list) && list.deep_view()
                            == before.location_pool.deep_view().map_values(
                            |l: LocationModel| OptionModel { id: l.id, name: l.name },
                        )
                    }
                },
            },
    {
        let place = match self.seek(code) {
            Ok(place) => place,
            Err(e) => {
                return Err(e);
            },
        };
        let ghost before = self.games@;
        if self.games[place].location_pool.len() == 0 {
            return Err(AppError::bad_request("location pool has not been generated yet"));
        }
        let game = &mut self.games[place];
        game.touch(now_ms);
        proof {
            self.lemma_one_changed(before, place as int);
        }
        Ok(self.games[place].location_options())
    }

    /// The snapshot that opens a subscription to the room that a text names.
    pub fn stream_game(&self, code: String) -> (r: Result<GameSnapshot, AppError>)
        requires
            self.wf(),
        ensures
            match named(self.games@, code@) {
                Err(kind) => r matches Err(e) && e.kind() == kind,
                Ok(place) => r matches Ok(snapshot) && snapshot.deep_view() == snapshot_model(
                    self.games@[place].deep_view(),
                ),
            },
    {
        let place = match self.seek(code) {
            Ok(place) => place,
            Err(e) => {
                return Err(e);
            },
        };
        Ok(self.games[place].snapshot())
    }
}

/// Every category of the catalog.
pub fn get_question_categories(content: &GameContent) -> (r: Vec<String>)
    ensures
        r.deep_view() == content.categories.deep_view(),
{
    content.default_categories()
}

} // verus!
