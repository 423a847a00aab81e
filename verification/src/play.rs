//! Play in a room: beginning a round, drawing questions, and the guess
//! that ends a round.

use vstd::prelude::*;
use vstd::string::*;
use crate::chance::shuffle;
use crate::content::{
    distinct_seated, is_pool_of, seat_count, seated_places, seats, GameContent,
    LocationDefinition, LocationModel,
};
use crate::errors::AppError;
use crate::errors::ErrorKind;
use crate::game::{
    lemma_member_ids, member_ids, pool_ids, round_view_model, Game, GameModel, GamePhase,
    NextQuestionResponse,
};
use crate::lobby::holds_id;
use crate::outcome::{
    GuessAction, ResolutionModel, RoundResolution, RoundSummary, RoundWinner, SummaryModel,
};
use crate::perm::lemma_same_items;
use crate::player::{roster_ids, Player, PlayerModel, PlayerWins};
use crate::round::{
    dealt_ids, find_part, judged, lemma_one_impostor, part_of, roles_dealt, shown,
    sole_impostor, turn_holder, PlayerRoleAssignment, QuestionView, RoleModel, RoundModel,
    RoundPublicState, RoundState,
};
use crate::turns::{none_drawable, turn_taken};

verus! {

/// A win counter after one more win; it stays at its maximum.
pub open spec fn one_more(count: u32) -> u32 {
    if count == u32::MAX {
        count
    } else {
        (count + 1) as u32
    }
}

/// A player after a round was won: on a crew win every civilian of the
/// round has one more crew win, on an impostor win the impostor has one
/// more impostor win.
pub open spec fn rewarded(player: PlayerModel, round: RoundModel, winner: RoundWinner) -> PlayerModel {
    match winner {
        RoundWinner::Crew => if part_of(round.assignments, player.id) matches Some(
            RoleModel::Civilian { .. },
        ) {
            PlayerModel { crew_wins: one_more(player.crew_wins), ..player }
        } else {
            player
        },
        RoundWinner::Imposter => if player.id == round.imposter_id {
            PlayerModel { imposter_wins: one_more(player.imposter_wins), ..player }
        } else {
            player
        },
    }
}

/// The verdict on a guess put to a room: a stranger to the roster is
/// forbidden, a room without round is rejected as validation, and
/// otherwise the round judges.
pub open spec fn guess_verdict(game: GameModel, player_id: u128, action: GuessAction, now_ms: u64) -> Result<
    ResolutionModel,
    ErrorKind,
> {
    if !member_ids(game.players).contains(player_id) {
        Err(ErrorKind::Forbidden)
    } else {
        match game.current_round {
            None => Err(ErrorKind::Validation),
            Some(round) => judged(round, player_id, action, now_ms),
        }
    }
}

/// A room after a guess was accepted with the given resolution.
pub open spec fn after_guess(game: GameModel, verdict: ResolutionModel, now_ms: u64) -> GameModel {
    let round = game.current_round->0;
    let summary = SummaryModel { round_number: round.round_number, resolution: verdict };
    GameModel {
        players: game.players.map_values(|p: PlayerModel| rewarded(p, round, verdict.winner)),
        current_round: Some(RoundModel { resolution: Some(verdict), ..round }),
        last_round: Some(summary),
        round_history: game.round_history.push(summary),
        phase: GamePhase::AwaitingNextRound,
        last_active_ms: now_ms,
        ..game
    }
}

/// A win counter plus one, stopping at its maximum.
fn bump(count: u32) -> (r: u32)
    ensures
        r == one_more(count),
{
    if count == u32::MAX {
        count
    } else {
        count + 1
    }
}

impl Game {
    /// Resolves the round by a player's guess, as `guess_verdict` says.
    /// A rejected guess changes nothing. An accepted one is recorded in
    /// the round, rewards the winners, becomes the last round and the
    /// newest entry of the history, and the room waits for the next round.
    pub fn submit_guess(&mut self, player_id: u128, action: GuessAction, now_ms: u64) -> (r: Result<
        RoundResolution,
        AppError,
    >)
        ensures
            match guess_verdict(old(self).deep_view(), player_id, action, now_ms) {
                Err(kind) => r matches Err(e) && e.kind() == kind && *final(self) == *old(self),
                Ok(verdict) => r matches Ok(resolution) && resolution.deep_view() == verdict
                    && final(self).deep_view() == after_guess(
                    old(self).deep_view(),
                    verdict,
                    now_ms,
                ),
            },
            old(self).wf() ==> final(self).wf(),
    {
        match self.ensure_player(player_id) {
            Err(e) => {
                return Err(e);
            },
            Ok(_) => {},
        }
        let ghost before = self.deep_view();
        let resolution = match &mut self.current_round {
            None => {
                return Err(AppError::bad_request("no active round"));
            },
            Some(round) => match round.resolve_guess(player_id, action, now_ms) {
                Ok(resolution) => resolution,
                Err(e) => {
                    return Err(e);
                },
            },
        };
        let ghost verdict = resolution.deep_view();
        let ghost played = before.current_round->0;
        let mut round_number: u32 = 0;
        let mut updated: Vec<Player> = Vec::new();
        match &self.current_round {
            Some(round) => {
                round_number = round.round_number;
                let mut i: usize = 0;
                while i < self.players.len()
                    invariant
                        i <= self.players.len(),
                        updated.len() == i,
                        round.deep_view().assignments == played.assignments,
                        round.imposter_id == played.imposter_id,
                        resolution.winner == verdict.winner,
                        forall|k: int|
                            0 <= k < i ==> (#[trigger] updated[k]).deep_view() == rewarded(
                                self.players[k].deep_view(),
                                played,
                                verdict.winner,
                            ),
                    decreases self.players.len() - i,
                {
                    let player = &self.players[i];
                    let wins = match resolution.winner {
                        RoundWinner::Crew => {
                            let civilian = match find_part(&round.assignments, player.id) {
                                Some(place) => match &round.assignments[place].part {
                                    PlayerRoleAssignment::Civilian { .. } => true,
                                    PlayerRoleAssignment::Imposter => false,
                                },
                                None => false,
                            };
                            if civilian {
                                PlayerWins { crew: bump(player.wins.crew), imposter: player.wins.imposter }
                            } else {
                                player.wins
                            }
                        },
                        RoundWinner::Imposter => {
                            if player.id == round.imposter_id {
                                PlayerWins { crew: player.wins.crew, imposter: bump(player.wins.imposter) }
                            } else {
                                player.wins
                            }
                        },
                    };
                    updated.push(Player { id: player.id, name: player.name.clone(), wins });
                    i += 1;
                }
            },
            None => {},
        }
        proof {
            assert(updated.deep_view() =~= before.players.map_values(
                |p: PlayerModel| rewarded(p, played, verdict.winner),
            ));
            assert(roster_ids(updated@) =~= roster_ids(self.players@));
        }
        self.players = updated;
        let summary = RoundSummary { round_number, resolution: resolution.clone() };
        self.last_round = Some(summary.clone());
        let ghost history = self.round_history.deep_view();
        self.round_history.push(summary);
        assert(self.round_history.deep_view() =~= history.push(
            SummaryModel { round_number: played.round_number, resolution: verdict },
        ));
        self.phase = GamePhase::AwaitingNextRound;
        self.last_active_ms = now_ms;
        Ok(resolution)
    }

    /// Draws the next question on a player's behalf. A stranger to the
    /// roster is forbidden and a room without round rejected as
    /// validation, both without change. Otherwise the round takes the
    /// turn as `turn_taken` says; on success the room is marked active and
    /// the answer holds the question as shown, the next turn's holder
    /// and the length of the asked-log.
    pub fn draw_next_question(&mut self, player_id: u128, content: &GameContent, now_ms: u64) -> (r:
        Result<NextQuestionResponse, AppError>)
        ensures
            !member_ids(old(self).deep_view().players).contains(player_id) ==> (r matches Err(e)
                && e.kind() == ErrorKind::Forbidden && *final(self) == *old(self)),
            member_ids(old(self).deep_view().players).contains(player_id) && old(self).current_round is None ==> (r matches Err(e) && e.kind() == ErrorKind::Validation
                && *final(self) == *old(self)),
            member_ids(old(self).deep_view().players).contains(player_id) && old(self).current_round is Some ==> {
                let before = old(self).deep_view().current_round->0;
                &&& final(self).deep_view().current_round matches Some(after) && final(self).deep_view() == (GameModel {
                    current_round: Some(after),
                    last_active_ms: if r is Ok {
                        now_ms
                    } else {
                        old(self).last_active_ms
                    },
                    ..old(self).deep_view()
                }) && match r {
                    Err(e) => turn_taken(
                        before,
                        player_id,
                        old(self).deep_view().rules.question_categories,
                        old(self).rules.allow_repeated_questions,
                        content,
                        now_ms,
                        Err(e.kind()),
                        after,
                    ),
                    Ok(answer) => after.current_question matches Some(question) && turn_taken(
                        before,
                        player_id,
                        old(self).deep_view().rules.question_categories,
                        old(self).rules.allow_repeated_questions,
                        content,
                        now_ms,
                        Ok((question, answer.next_turn_player_id)),
                        after,
                    ) && answer.question.deep_view() == shown(question) && answer.asked_total
                        == after.asked_questions.len(),
                }
            },
            old(self).wf() ==> final(self).wf(),
    {
        match self.ensure_player(player_id) {
            Err(e) => {
                return Err(e);
            },
            Ok(_) => {},
        }
        let (question, next_player, asked_total) = match &mut self.current_round {
            None => {
                return Err(AppError::bad_request("no active round"));
            },
            Some(round) => match round.next_question(player_id, &self.rules, content, now_ms) {
                Ok((question, next_player)) => (question, next_player, round.asked_questions.len()),
                Err(e) => {
                    return Err(e);
                },
            },
        };
        self.last_active_ms = now_ms;
        Ok(
            NextQuestionResponse {
                question: QuestionView::from_prompt(&question),
                next_turn_player_id: next_player,
                asked_total,
            },
        )
    }
}

/// The size of the pool that a room's rules ask of a catalog.
pub open spec fn asked_pool_size(game: GameModel, content: &GameContent) -> int {
    vstd::math::min(game.rules.location_pool_size as int, content.locations.len() as int)
}

/// Whether a room can seat a round: it is not in a round, has at least
/// three players, and has a location that seats them, in its pool or,
/// with no pool yet, in the catalog and within the asked pool size.
pub open spec fn can_seat(game: GameModel, content: &GameContent) -> bool {
    let n = game.players.len() as int;
    &&& game.phase != GamePhase::InRound
    &&& n >= 3
    &&& if game.location_pool.len() == 0 {
        asked_pool_size(game, content) > 0 && seat_count(
            content.locations.deep_view(),
            n,
            content.locations.len() as int,
        ) > 0
    } else {
        seat_count(game.location_pool, n, game.location_pool.len() as int) > 0
    }
}

/// Whether a round can begin: the room can seat it, and a question may
/// be drawn under its rules. The used locations play no part.
pub open spec fn can_begin(game: GameModel, content: &GameContent) -> bool {
    &&& can_seat(game, content)
    &&& !none_drawable(
        content,
        game.rules.question_categories,
        game.rules.allow_repeated_questions,
        Seq::empty(),
    )
}

/// The used ids that a round's begin starts from: those of the room, or
/// none where the pool is drawn anew.
pub open spec fn used_so_far(game: GameModel) -> Seq<u32> {
    if game.location_pool.len() == 0 {
        Seq::empty()
    } else {
        game.used_location_ids
    }
}

/// Whether a pool is the one a room plays its next round with: the pool
/// it has, or, where it has none, one drawn from the catalog for its
/// roster and rules.
pub open spec fn pool_for(game: GameModel, content: &GameContent, pool: Seq<LocationModel>) -> bool {
    if game.location_pool.len() > 0 {
        pool == game.location_pool
    } else {
        is_pool_of(
            content.locations.deep_view(),
            game.players.len() as int,
            asked_pool_size(game, content),
            pool,
        )
    }
}

/// Whether a pool holds a location that seats so many players and whose
/// id is not among the used ones.
pub open spec fn has_unused(pool: Seq<LocationModel>, player_count: int, used: Seq<u32>) -> bool {
    exists|k: int|
        0 <= k < pool.len() && seats(#[trigger] pool[k], player_count) && !used.contains(
            pool[k].id,
        )
}

/// The law of a round's begin, for a room that could begin one: the pool
/// is the room's, or drawn now; the location is of the pool, seats the
/// roster, and is unused where the pool has an unused one, else the used
/// ids start over with it; the round counts one up, exactly one player
/// is its impostor, the others hold roles of the location, its turn order
/// is a rearrangement of the roster with the pointer at its start, and
/// nothing is asked or resolved yet; the room is in the round and marked
/// active.
pub open spec fn begun(before: GameModel, content: &GameContent, now_ms: u64, after: GameModel) -> bool {
    let n = before.players.len() as int;
    let used = used_so_far(before);
    &&& after.current_round matches Some(round) && {
        &&& after == (GameModel {
            round_counter: one_more(before.round_counter),
            phase: GamePhase::InRound,
            current_round: Some(round),
            last_round: None,
            last_active_ms: now_ms,
            location_pool: after.location_pool,
            used_location_ids: after.used_location_ids,
            ..before
        })
        &&& pool_for(before, content, after.location_pool)
        &&& after.location_pool.contains(round.location)
        &&& seats(round.location, n)
        &&& if has_unused(after.location_pool, n, used) {
            !used.contains(round.location.id) && after.used_location_ids == used.push(
                round.location.id,
            )
        } else {
            after.used_location_ids == seq![round.location.id]
        }
        &&& round.round_number == one_more(before.round_counter)
        &&& round.turn_order.len() == before.players.len()
        &&& round.turn_order.to_multiset() == member_ids(before.players).to_multiset()
        &&& dealt_ids(round.assignments).to_multiset() == member_ids(before.players).to_multiset()
        &&& sole_impostor(round)
        &&& roles_dealt(round.assignments, round.location.roles)
        &&& round.current_turn_index == 0
        &&& turn_holder(round) == Some(round.turn_order[0])
        &&& round.asked_questions.len() == 0
        &&& round.started_at_ms == now_ms
        &&& round.resolution is None
    }
}

/// What a failed begin leaves behind. Nothing changes where the room
/// cannot seat a round. Where only a question lacked, nothing changes but
/// the pool and the used ids: the pool is the one the round would have
/// been played with, and the used ids are forgotten if that pool has no
/// unused location left.
pub open spec fn begin_failed(before: GameModel, content: &GameContent, after: GameModel) -> bool {
    if can_seat(before, content) {
        &&& after == (GameModel {
            location_pool: after.location_pool,
            used_location_ids: after.used_location_ids,
            ..before
        })
        &&& pool_for(before, content, after.location_pool)
        &&& after.used_location_ids == if has_unused(
            after.location_pool,
            before.players.len() as int,
            used_so_far(before),
        ) {
            used_so_far(before)
        } else {
            Seq::empty()
        }
    } else {
        after == before
    }
}

/// Whether a round can begin does not depend on which locations were used:
/// a pool whose every location was used is played again.
pub proof fn lemma_begin_ignores_used(game: GameModel, content: &GameContent, used: Seq<u32>)
    ensures
        can_begin(GameModel { used_location_ids: used, ..game }, content) == can_begin(
            game,
            content,
        ),
{
}

/// The first of the candidate places whose location is not among the
/// used ones; nothing where every candidate's location was used.
pub fn first_unused(pool: &Vec<LocationDefinition>, candidates: &Vec<usize>, used: &Vec<u32>) -> (r:
    Option<usize>)
    requires
        forall|m: int| 0 <= m < candidates@.len() ==> #[trigger] candidates@[m] < pool.len(),
    ensures
        r is None <==> forall|m: int|
            0 <= m < candidates@.len() ==> used@.contains(
                pool[#[trigger] candidates@[m] as int].id,
            ),
        r matches Some(place) ==> exists|k: int|
            {
                &&& 0 <= k < candidates@.len()
                &&& #[trigger] candidates@[k] == place
                &&& !used@.contains(pool[place as int].id)
                &&& forall|m: int|
                    0 <= m < k ==> used@.contains(pool[#[trigger] candidates@[m] as int].id)
            },
{
    let mut k: usize = 0;
    while k < candidates.len()
        invariant
            k <= candidates.len(),
            forall|m: int| 0 <= m < candidates@.len() ==> #[trigger] candidates@[m] < pool.len(),
            forall|m: int|
                0 <= m < k ==> used@.contains(pool[#[trigger] candidates@[m] as int].id),
        decreases candidates.len() - k,
    {
        let place = candidates[k];
        if !holds_id(used, pool[place].id) {
            return Some(place);
        }
        k += 1;
    }
    None
}

impl Game {
    /// Begins a round at the given time. Succeeds exactly where
    /// `can_begin` holds, and then as `begun` says, with the round's
    /// public view as the answer and a consistent round in place. A
    /// failure is validation. It changes nothing where the room cannot
    /// seat a round. Where only a question lacked, the pool is the one
    /// the round would have been played with, and the used ids are
    /// forgotten if that pool has no unused location left.
    pub fn begin_round(&mut self, content: &GameContent, now_ms: u64) -> (r: Result<
        RoundPublicState,
        AppError,
    >)
        requires
            old(self).wf(),
        ensures
            r is Ok <==> can_begin(old(self).deep_view(), content),
            r matches Err(e) ==> e.kind() == ErrorKind::Validation && begin_failed(
                old(self).deep_view(),
                content,
                final(self).deep_view(),
            ),
            r matches Ok(view) ==> {
                &&& begun(old(self).deep_view(), content, now_ms, final(self).deep_view())
                &&& Some(view.deep_view()) == round_view_model(final(self).deep_view())
                &&& final(self).current_round->0.wf()
            },
            final(self).wf(),
    {
        let ghost before = self.deep_view();
        proof {
            lemma_member_ids(self.players);
        }
        let n = self.players.len();
        if self.phase == GamePhase::InRound {
            return Err(AppError::bad_request("round already in progress"));
        }
        if n < 3 {
            return Err(AppError::bad_request("at least three players are required to start"));
        }
        let rebuilt = self.location_pool.len() == 0;
        if rebuilt {
            let wanted: usize = self.rules.location_pool_size as usize;
            let limit: usize = content.max_location_pool();
            let pool_size: usize = if wanted < limit {
                wanted
            } else {
                limit
            };
            let pool = content.random_location_pool(pool_size, n);
            if pool.len() == 0 {
                return Err(
                    AppError::bad_request("no locations available for the current player count"),
                );
            }
            self.location_pool = pool;
            self.used_location_ids = Vec::new();
        }
        let ghost pool = self.location_pool.deep_view();
        let ghost used = self.used_location_ids@;
        let mut candidates = seated_places(&self.location_pool, n);
        proof {
            if rebuilt {
                let picks = choose|picks: Seq<usize>|
                    {
                        &&& #[trigger] distinct_seated(
                            content.locations.deep_view(),
                            n as int,
                            picks,
                        )
                        &&& picks.len() == pool.len()
                        &&& forall|k: int|
                            0 <= k < pool.len() ==> #[trigger] pool[k]
                                == content.locations.deep_view()[picks[k] as int]
                    };
                assert(pool[0] == content.locations.deep_view()[picks[0] as int]);
                assert(seats(pool[0], n as int));
                assert(candidates@.contains(0usize));
            }
        }
        if candidates.len() == 0 {
            return Err(AppError::bad_request("no locations support the current player count"));
        }
        let ghost ordered = candidates@;
        shuffle(&mut candidates);
        proof {
            lemma_same_items(ordered, candidates@);
            assert forall|k: int| 0 <= k < candidates@.len() implies 0 <= #[trigger] candidates@[k]
                < pool.len() && seats(pool[candidates@[k] as int], n as int) by {
                assert(candidates@.contains(candidates@[k]));
                let w = choose|w: int| 0 <= w < ordered.len() && ordered[w] == candidates@[k];
                assert(0 <= ordered[w] < pool.len());
            }
        }
        let chosen = first_unused(&self.location_pool, &candidates, &self.used_location_ids);
        let place = match chosen {
            Some(place) => place,
            None => {
                proof {
                    assert forall|i: int| 0 <= i < pool.len() && seats(#[trigger] pool[i], n as int)
                        implies used.contains(pool[i].id) by {
                        assert(ordered.contains(i as usize));
                        assert(candidates@.contains(i as usize));
                        let m = choose|m: int|
                            0 <= m < candidates@.len() && candidates@[m] == i as usize;
                        assert(used.contains(pool[candidates@[m] as int].id));
                    }
                    assert(!has_unused(pool, n as int, used));
                }
                self.used_location_ids = Vec::new();
                candidates[0]
            },
        };
        proof {
            assert(candidates@.contains(place));
            let w = choose|w: int| 0 <= w < candidates@.len() && candidates@[w] == place;
            assert(0 <= candidates@[w] < pool.len());
            assert(seats(pool[place as int], n as int));
            if chosen is Some {
                assert(!used.contains(pool[place as int].id));
                assert(has_unused(pool, n as int, used));
            }
        }
        let selected = self.location_pool[place].clone();
        let next_round_number = bump(self.round_counter);
        let selected_id = selected.id;
        let round = match RoundState::new(
            next_round_number,
            selected,
            &self.players,
            &self.rules,
            content,
            now_ms,
        ) {
            Ok(round) => round,
            Err(e) => {
                return Err(e);
            },
        };
        let view = round.public_state();
        proof {
            assert(round.location.deep_view() == pool[place as int]);
            assert(pool.contains(round.location.deep_view()));
            assert(pool_ids(pool)[place as int] == round.location.id);
            lemma_same_items(round.turn_order@, roster_ids(self.players@));
            lemma_one_impostor(round);
        }
        self.round_counter = next_round_number;
        self.phase = GamePhase::InRound;
        self.current_round = Some(round);
        let ghost kept = self.used_location_ids@;
        self.used_location_ids.push(selected_id);
        proof {
            let after = self.used_location_ids@;
            assert(after =~= kept.push(selected_id));
            assert forall|m: int| 0 <= m < after.len() implies pool_ids(pool).contains(
                #[trigger] after[m],
            ) by {
                if m < kept.len() {
                    assert(kept[m] == old(self).used_location_ids@[m]);
                }
            }
        }
        self.last_round = None;
        self.last_active_ms = now_ms;
        Ok(view)
    }
}

/// A room whose round is resolved rejects the guess of every member as
/// validation.
pub proof fn lemma_resolved_room_takes_no_guess(
    game: GameModel,
    player_id: u128,
    action: GuessAction,
    now_ms: u64,
)
    requires
        game.current_round is Some,
        game.current_round->0.resolution is Some,
        member_ids(game.players).contains(player_id),
    ensures
        guess_verdict(game, player_id, action, now_ms) == Err::<ResolutionModel, ErrorKind>(
            ErrorKind::Validation,
        ),
{
}

/// A round that began keeps the pool the room had: a used-up pool is
/// played again, not drawn anew and not emptied.
pub proof fn lemma_pool_is_kept(before: GameModel, content: &GameContent, now_ms: u64, after: GameModel)
    requires
        begun(before, content, now_ms, after),
        before.location_pool.len() > 0,
    ensures
        after.location_pool == before.location_pool,
        after.used_location_ids.len() > 0,
        after.used_location_ids.last() == after.current_round->0.location.id,
{
}

} // verus!
