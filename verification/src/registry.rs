//! The registry of live rooms: creation under a fresh code, lookup by
//! code, and the expiry of rooms that sat idle.

use vstd::prelude::*;
use vstd::string::*;
use crate::ids::fresh_id;
use crate::content::GameContent;
use crate::errors::AppError;
use crate::errors::ErrorKind;
use crate::game::{snapshot_model, Game, GamePhase, GameSnapshot};
use crate::player::{Player, PlayerWins};
use crate::room_code::{holds_a_code, RoomCode};
use crate::rules::{normal_form, GameRules, RulesModel};
use crate::text::{all_blank, has_visible_ends, trimmed_of};

verus! {

/// The answer to a successful creation.
#[derive(Debug, PartialEq, Eq)]
pub struct CreateGameResponse {
    pub code: RoomCode,
    pub host_token: u128,
    pub leader_id: u128,
    pub player_id: u128,
    pub rules: GameRules,
}

/// The rules of a room whose host chose none.
pub open spec fn default_rules() -> RulesModel {
    RulesModel {
        max_players: 8,
        round_time_seconds: 120,
        allow_repeated_questions: false,
        location_pool_size: 10,
        question_categories: Seq::empty(),
    }
}

/// The rules asked for at creation: the given ones, or the default.
pub open spec fn asked_rules(rules: Option<GameRules>) -> RulesModel {
    match rules {
        Some(rules) => rules.deep_view(),
        None => default_rules(),
    }
}

/// Whether a room may expire: it is in the lobby or waits for its next
/// round, a time-to-live is set, and it has been idle at least that long.
pub open spec fn expired(game: Game, ttl_ms: u64, now_ms: u64) -> bool {
    &&& ttl_ms > 0
    &&& game.phase != GamePhase::InRound
    &&& now_ms >= game.last_active_ms
    &&& now_ms - game.last_active_ms >= ttl_ms
}

/// The rooms that do not expire, in their order.
pub open spec fn survivors(games: Seq<Game>, ttl_ms: u64, now_ms: u64) -> Seq<Game>
    decreases games.len(),
{
    if games.len() == 0 {
        Seq::empty()
    } else {
        let rest = survivors(games.drop_last(), ttl_ms, now_ms);
        if expired(games.last(), ttl_ms, now_ms) {
            rest
        } else {
            rest.push(games.last())
        }
    }
}

/// The codes of a list of rooms, in order.
pub open spec fn codes_of(games: Seq<Game>) -> Seq<Seq<char>> {
    games.map_values(|g: Game| g.code@)
}

/// The survivors of a list of rooms are among its rooms, and as far as
/// the list has no code twice, neither have they.
pub proof fn lemma_survivors(games: Seq<Game>, ttl_ms: u64, now_ms: u64)
    ensures
        survivors(games, ttl_ms, now_ms).len() <= games.len(),
        forall|g: Game| #[trigger]
            survivors(games, ttl_ms, now_ms).contains(g) ==> games.contains(g) && !expired(
                g,
                ttl_ms,
                now_ms,
            ),
        forall|k: int|
            0 <= k < games.len() && !expired(#[trigger] games[k], ttl_ms, now_ms) ==> survivors(
                games,
                ttl_ms,
                now_ms,
            ).contains(games[k]),
        codes_of(games).no_duplicates() ==> codes_of(
            survivors(games, ttl_ms, now_ms),
        ).no_duplicates(),
    decreases games.len(),
{
    if games.len() > 0 {
        let front = games.drop_last();
        let last = games.last();
        lemma_survivors(front, ttl_ms, now_ms);
        let rest = survivors(front, ttl_ms, now_ms);
        let all = survivors(games, ttl_ms, now_ms);
        assert forall|g: Game| all.contains(g) implies games.contains(g) && !expired(
            g,
            ttl_ms,
            now_ms,
        ) by {
            let k = choose|k: int| 0 <= k < all.len() && all[k] == g;
            if k < rest.len() {
                assert(rest[k] == g);
                assert(rest.contains(g));
                assert(front.contains(g));
                let m = choose|m: int| 0 <= m < front.len() && front[m] == g;
                assert(games[m] == g);
            } else {
                assert(games[games.len() - 1] == g);
            }
        }
        assert forall|k: int|
            0 <= k < games.len() && !expired(#[trigger] games[k], ttl_ms, now_ms) implies all.contains(
            games[k],
        ) by {
            if k < front.len() {
                assert(front[k] == games[k]);
                assert(rest.contains(front[k]));
                let m = choose|m: int| 0 <= m < rest.len() && rest[m] == games[k];
                assert(all[m] == games[k]);
            } else {
                assert(all[all.len() - 1] == games[k]);
            }
        }
        if codes_of(games).no_duplicates() {
            assert(codes_of(front) =~= codes_of(games).drop_last());
            assert(codes_of(front).no_duplicates());
            if !expired(last, ttl_ms, now_ms) {
                assert forall|a: int, b: int|
                    0 <= a < all.len() && 0 <= b < all.len() && a != b implies codes_of(all)[a]
                    != codes_of(all)[b] by {
                    if a < rest.len() && b < rest.len() {
                        assert(codes_of(rest)[a] != codes_of(rest)[b]);
                    } else {
                        let inner = if a < rest.len() {
                            a
                        } else {
                            b
                        };
                        assert(rest.contains(rest[inner]));
                        assert(front.contains(rest[inner]));
                        let m = choose|m: int| 0 <= m < front.len() && front[m] == rest[inner];
                        assert(games[m] == rest[inner]);
                        assert(all[inner] == rest[inner]);
                        assert(all[all.len() - 1] == last);
                        assert(codes_of(games)[m] != codes_of(games)[games.len() - 1]);
                    }
                }
            }
        }
    }
}

/// Every room the process holds, each under its own code.
#[derive(Debug)]
pub struct Registry {
    pub games: Vec<Game>,
}

impl Registry {
    /// Whether the registry is consistent: every room is, and no code is
    /// held by two rooms.
    pub open spec fn wf(&self) -> bool {
        &&& forall|k: int| 0 <= k < self.games@.len() ==> (#[trigger] self.games@[k]).wf()
        &&& codes_of(self.games@).no_duplicates()
    }

    /// A registry without rooms.
    pub fn new() -> (r: Registry)
        ensures
            r.wf(),
            r.games@.len() == 0,
    {
        Registry { games: Vec::new() }
    }

    /// The number of live rooms.
    pub fn len(&self) -> (r: usize)
        ensures
            r == self.games@.len(),
    {
        self.games.len()
    }

    /// The place of the room under a code, if there is one.
    pub fn find(&self, code: &RoomCode) -> (r: Option<usize>)
        ensures
            r is None <==> !codes_of(self.games@).contains(code@),
            r matches Some(i) ==> i < self.games@.len() && self.games@[i as int].code@ == code@,
    {
        let mut i: usize = 0;
        while i < self.games.len()
            invariant
                i <= self.games.len(),
                forall|k: int| 0 <= k < i ==> self.games@[k].code@ != code@,
            decreases self.games.len() - i,
        {
            if self.games[i].code.same_as(code) {
                assert(codes_of(self.games@)[i as int] == code@);
                return Some(i);
            }
            i += 1;
        }
        assert(forall|k: int|
            0 <= k < codes_of(self.games@).len() ==> codes_of(self.games@)[k]
                == self.games@[k].code@);
        None
    }

    /// The codes of all rooms.
    pub fn codes(&self) -> (r: Vec<RoomCode>)
        ensures
            r.deep_view() == codes_of(self.games@),
    {
        let mut out: Vec<RoomCode> = Vec::new();
        let mut i: usize = 0;
        while i < self.games.len()
            invariant
                i <= self.games.len(),
                out.len() == i,
                forall|k: int| 0 <= k < i ==> out[k]@ == self.games@[k].code@,
            decreases self.games.len() - i,
        {
            out.push(self.games[i].code.clone());
            i += 1;
        }
        assert(out.deep_view() =~= codes_of(self.games@));
        out
    }

    /// Opens a room for a host. A name that is blank once trimmed fails
    /// as validation. Otherwise a code is drawn that no room holds. The
    /// draws are bounded: should every one be taken, the call fails as
    /// unexpected, which cannot happen while the registry is empty. A
    /// failure changes nothing. On success the new room stands last: in
    /// the lobby, under the drawn code, with the normal form of the asked
    /// rules, and with the host as its only player and its leader.
    pub fn create_game(
        &mut self,
        host_name: String,
        rules: Option<GameRules>,
        content: &GameContent,
        now_ms: u64,
    ) -> (r: Result<CreateGameResponse, AppError>)
        requires
            old(self).wf(),
        ensures
            trimmed_of(host_name@).len() == 0 ==> (r matches Err(e) && e.kind()
                == ErrorKind::Validation),
            trimmed_of(host_name@).len() > 0 && old(self).games@.len() == 0 ==> r is Ok,
            all_blank(host_name@) ==> (r matches Err(e) && e.kind() == ErrorKind::Validation),
            has_visible_ends(host_name@) && old(self).games@.len() == 0 ==> (r matches Ok(_)
                && final(self).games@.last().players@[0].name@ == host_name@),
            r matches Err(e) ==> (e.kind() == ErrorKind::Validation || e.kind()
                == ErrorKind::Unexpected) && *final(self) == *old(self),
            r matches Err(e) && e.kind() == ErrorKind::Validation ==> trimmed_of(host_name@).len()
                == 0,
            r matches Err(e) && e.kind() == ErrorKind::Unexpected ==> holds_a_code(
                codes_of(old(self).games@),
            ),
            r matches Ok(answer) ==> {
                let game = final(self).games@.last();
                &&& final(self).games@ == old(self).games@.push(game)
                &&& !codes_of(old(self).games@).contains(answer.code@)
                &&& answer.code.wf()
                &&& answer.code@ == game.code@
                &&& answer.host_token == game.host_token
                &&& answer.leader_id == game.leader_id
                &&& answer.player_id == game.leader_id
                &&& answer.rules.deep_view() == normal_form(asked_rules(rules), content)
                &&& game.rules.deep_view() == normal_form(asked_rules(rules), content)
                &&& game.players@.len() == 1
                &&& game.players@[0].id == game.leader_id
                &&& game.players@[0].name@ == trimmed_of(host_name@)
                &&& game.players@[0].wins == (PlayerWins { crew: 0, imposter: 0 })
                &&& game.phase == GamePhase::Lobby
                &&& game.round_counter == 0
                &&& game.current_round is None
                &&& game.last_round is None
                &&& game.round_history@.len() == 0
                &&& game.location_pool@.len() == 0
                &&& game.used_location_ids@.len() == 0
                &&& game.created_at_ms == now_ms
                &&& game.last_active_ms == now_ms
            },
            final(self).wf(),
    {
        let host = match Player::new(host_name) {
            Ok(host) => host,
            Err(e) => {
                return Err(e);
            },
        };
        let asked = match rules {
            Some(rules) => rules,
            None => {
                let rules = GameRules::default();
                assert(rules.deep_view().question_categories =~= Seq::<Seq<char>>::empty());
                rules
            },
        };
        let normal = match asked.normalize(content) {
            Ok(normal) => normal,
            Err(e) => {
                return Err(e);
            },
        };
        let host_token = fresh_id();
        let existing = self.codes();
        let code = match RoomCode::generate(&existing, u64::MAX) {
            Some(code) => code,
            None => {
                return Err(AppError::unexpected("no free room code"));
            },
        };
        let answer = CreateGameResponse {
            code: code.clone(),
            host_token,
            leader_id: host.id,
            player_id: host.id,
            rules: normal.clone(),
        };
        let game = Game::create(code, host_token, host, normal, now_ms);
        let ghost before = self.games@;
        self.games.push(game);
        proof {
            assert(codes_of(self.games@) =~= codes_of(before).push(game.code@));
            assert forall|k: int| 0 <= k < self.games@.len() implies (
            #[trigger] self.games@[k]).wf() by {
                if k < before.len() {
                    assert(self.games@[k] == before[k]);
                }
            }
        }
        Ok(answer)
    }

    /// Removes the rooms that expired by the given time and says how
    /// many they were. A time-to-live of zero removes none; a room in a
    /// round never expires.
    pub fn purge_expired_lobbies(&mut self, ttl_ms: u64, now_ms: u64) -> (removed: usize)
        ensures
            final(self).games@ == survivors(old(self).games@, ttl_ms, now_ms),
            removed == old(self).games@.len() - final(self).games@.len(),
            ttl_ms == 0 ==> *final(self) == *old(self),
            old(self).wf() ==> final(self).wf(),
    {
        let ghost all = self.games@;
        proof {
            lemma_survivors(all, ttl_ms, now_ms);
        }
        if ttl_ms == 0 {
            proof {
                lemma_all_survive(all, now_ms);
            }
            return 0;
        }
        let mut removed: usize = 0;
        let mut i: usize = 0;
        assert(all.len() == self.games.len());
        assert(all.take(0) =~= Seq::<Game>::empty());
        assert(all.skip(0) =~= all);
        while i < self.games.len()
            invariant
                ttl_ms > 0,
                all.len() <= usize::MAX,
                i <= self.games@.len(),
                i + removed <= all.len(),
                i == survivors(all.take(i + removed), ttl_ms, now_ms).len(),
                self.games@ == survivors(all.take(i + removed), ttl_ms, now_ms) + all.skip(
                    i + removed,
                ),
            decreases self.games@.len() - i,
        {
            let ghost done = i + removed;
            proof {
                assert(self.games@[i as int] == all[done]);
                assert(all.take(done + 1).drop_last() =~= all.take(done));
                assert(all.take(done + 1).last() == all[done]);
                assert(done < all.len());
            }
            let game = &self.games[i];
            let idle = game.phase != GamePhase::InRound && now_ms >= game.last_active_ms && now_ms
                - game.last_active_ms >= ttl_ms;
            if idle {
                self.games.remove(i);
                removed += 1;
                assert(self.games@ =~= survivors(all.take(done + 1), ttl_ms, now_ms) + all.skip(
                    done + 1,
                ));
            } else {
                i += 1;
                assert(self.games@ =~= survivors(all.take(done + 1), ttl_ms, now_ms) + all.skip(
                    done + 1,
                ));
            }
        }
        proof {
            assert(i + removed == all.len());
            assert(all.take(all.len() as int) =~= all);
            assert(self.games@ =~= survivors(all, ttl_ms, now_ms));
            if old(self).wf() {
                assert forall|k: int| 0 <= k < self.games@.len() implies (
                #[trigger] self.games@[k]).wf() by {
                    assert(survivors(all, ttl_ms, now_ms)[k] == self.games@[k]);
                    assert(survivors(all, ttl_ms, now_ms).contains(self.games@[k]));
                    assert(all.contains(self.games@[k]));
                    let m = choose|m: int| 0 <= m < all.len() && all[m] == self.games@[k];
                    assert(all[m].wf());
                }
            }
        }
        removed
    }

    /// The snapshot of the room under a code, as the room stands now;
    /// nothing for an unknown code.
    pub fn latest_snapshot(&self, code: &RoomCode) -> (r: Option<GameSnapshot>)
        ensures
            r is None <==> !codes_of(self.games@).contains(code@),
            r matches Some(snapshot) ==> exists|i: int|
                0 <= i < self.games@.len() && (#[trigger] self.games@[i]).code@ == code@
                    && snapshot.deep_view() == snapshot_model(self.games@[i].deep_view()),
    {
        match self.find(code) {
            Some(i) => Some(self.games[i].snapshot()),
            None => None,
        }
    }
}

/// Without a time-to-live every room survives.
pub proof fn lemma_all_survive(games: Seq<Game>, now_ms: u64)
    ensures
        survivors(games, 0, now_ms) == games,
    decreases games.len(),
{
    if games.len() > 0 {
        lemma_all_survive(games.drop_last(), now_ms);
        assert(games.drop_last().push(games.last()) =~= games);
    }
}

} // verus!
