//! The start of a round: dealing the parts, ordering the turns and
//! putting the first question on display.

use vstd::prelude::*;
use vstd::string::*;
use crate::chance::{pick_below, shuffle};
use crate::content::{GameContent, LocationDefinition};
use crate::errors::AppError;
use crate::errors::ErrorKind;
use crate::perm::{count_up, lemma_same_items};
use crate::player::{roster_ids, Player};
use crate::round::{
    dealt_ids, roles_dealt, Assignment, AssignmentModel, PlayerRoleAssignment, RoleModel,
    RoundState,
};
use crate::rules::GameRules;
use crate::turns::{draw, is_draw, none_drawable};

verus! {

/// The parts dealt to players in the given order: the player at the
/// impostor's place is the impostor, and the others take the roles at
/// the given places of the role list, in order.
pub open spec fn dealt(
    player_ids: Seq<u128>,
    imposter_place: int,
    roles: Seq<Seq<char>>,
    role_places: Seq<usize>,
) -> Seq<AssignmentModel> {
    Seq::new(
        player_ids.len(),
        |k: int|
            AssignmentModel {
                player_id: player_ids[k],
                part: if k == imposter_place {
                    RoleModel::Imposter
                } else {
                    RoleModel::Civilian {
                        role: roles[role_places[if k < imposter_place {
                            k
                        } else {
                            k - 1
                        }] as int],
                    }
                },
            },
    )
}

/// Deals the parts of a round, as `dealt` says.
pub fn deal_parts(
    player_ids: &Vec<u128>,
    imposter_place: usize,
    roles: &Vec<String>,
    role_places: &Vec<usize>,
) -> (r: Vec<Assignment>)
    requires
        player_ids@.no_duplicates(),
        imposter_place < player_ids.len(),
        player_ids.len() - 1 <= role_places.len(),
        forall|k: int| 0 <= k < role_places@.len() ==> #[trigger] role_places@[k] < roles.len(),
    ensures
        r.deep_view() == dealt(
            player_ids@,
            imposter_place as int,
            roles.deep_view(),
            role_places@,
        ),
{
    let n = player_ids.len();
    let imposter_id = player_ids[imposter_place];
    let ghost goal = dealt(player_ids@, imposter_place as int, roles.deep_view(), role_places@);
    let mut assignments: Vec<Assignment> = Vec::new();
    let mut handed: usize = 0;
    let mut i: usize = 0;
    while i < n
        invariant
            i <= n,
            n == player_ids@.len(),
            n - 1 <= role_places@.len(),
            imposter_place < n,
            imposter_id == player_ids@[imposter_place as int],
            player_ids@.no_duplicates(),
            forall|k: int|
                0 <= k < role_places@.len() ==> #[trigger] role_places@[k] < roles.len(),
            goal == dealt(player_ids@, imposter_place as int, roles.deep_view(), role_places@),
            assignments.len() == i,
            handed == if i > imposter_place {
                i - 1
            } else {
                i as int
            },
            forall|k: int| 0 <= k < i ==> (#[trigger] assignments[k]).deep_view() == goal[k],
        decreases n - i,
    {
        let player_id = player_ids[i];
        if player_id == imposter_id {
            assert(i == imposter_place);
            assignments.push(Assignment { player_id, part: PlayerRoleAssignment::Imposter });
        } else {
            assert(i != imposter_place);
            let role = roles[role_places[handed]].clone();
            assert(role@ == roles.deep_view()[role_places@[handed as int] as int]);
            assignments.push(Assignment { player_id, part: PlayerRoleAssignment::Civilian { role } });
            handed += 1;
        }
        i += 1;
    }
    assert(assignments.deep_view() =~= goal);
    assignments
}

impl RoundState {
    /// Starts a round for a roster at a location. Fails as validation
    /// with fewer than three players, with fewer roles than civilians, or
    /// when no question may be drawn under the rules. Otherwise one
    /// player drawn at random is the impostor, the others hold roles of
    /// the location, no two the same entry; the turn order is a random
    /// rearrangement of the roster with the pointer at its start; one
    /// drawable question is on display and counts as used.
    pub fn new(
        round_number: u32,
        location: LocationDefinition,
        players: &Vec<Player>,
        rules: &GameRules,
        content: &GameContent,
        now_ms: u64,
    ) -> (r: Result<RoundState, AppError>)
        requires
            roster_ids(players@).no_duplicates(),
        ensures
            r is Err <==> (players.len() < 3 || players.len() - 1 > location.roles.len()
                || none_drawable(
                content,
                rules.question_categories.deep_view(),
                rules.allow_repeated_questions,
                Seq::empty(),
            )),
            r matches Err(e) ==> e.kind() == ErrorKind::Validation,
            r matches Ok(round) ==> {
                &&& round.wf()
                &&& round.round_number == round_number
                &&& round.location == location
                &&& round.turn_order@.to_multiset() == roster_ids(players@).to_multiset()
                &&& dealt_ids(round.assignments.deep_view()).to_multiset() == roster_ids(
                    players@,
                ).to_multiset()
                &&& roles_dealt(round.assignments.deep_view(), location.roles.deep_view())
                &&& round.current_turn_index == 0
                &&& round.current_question matches Some(q) && is_draw(
                    content,
                    rules.question_categories.deep_view(),
                    rules.allow_repeated_questions,
                    Seq::empty(),
                    q.deep_view(),
                ) && round.used_question_ids.deep_view() == seq![q.id@]
                &&& round.asked_questions@.len() == 0
                &&& round.started_at_ms == now_ms
                &&& round.resolution is None
            },
    {
        let n = players.len();
        if n < 3 {
            return Err(
                AppError::bad_request("at least three players are required to start a round"),
            );
        }
        if n - 1 > location.roles.len() {
            return Err(
                AppError::bad_request("selected location does not support this many players"),
            );
        }
        let mut player_ids: Vec<u128> = Vec::new();
        let mut i: usize = 0;
        while i < n
            invariant
                i <= n,
                n == players.len(),
                player_ids@.len() == i,
                forall|k: int| 0 <= k < i ==> player_ids@[k] == players[k].id,
            decreases n - i,
        {
            player_ids.push(players[i].id);
            i += 1;
        }
        assert(player_ids@ =~= roster_ids(players@));
        shuffle(&mut player_ids);
        proof {
            lemma_same_items(roster_ids(players@), player_ids@);
        }
        let imposter_place = pick_below(player_ids.len());
        let imposter_id = player_ids[imposter_place];

        let mut role_places = count_up(location.roles.len());
        let ghost counted = role_places@;
        shuffle(&mut role_places);
        proof {
            lemma_same_items(counted, role_places@);
            assert forall|k: int| 0 <= k < role_places@.len() implies #[trigger] role_places@[k]
                < location.roles.len() by {
                assert(role_places@.contains(role_places@[k]));
                let w = choose|w: int| 0 <= w < counted.len() && counted[w] == role_places@[k];
            }
        }

        let assignments = deal_parts(&player_ids, imposter_place, &location.roles, &role_places);

        let mut turn_order: Vec<u128> = Vec::new();
        let mut i: usize = 0;
        while i < n
            invariant
                i <= n,
                n == player_ids@.len(),
                turn_order@.len() == i,
                forall|k: int| 0 <= k < i ==> turn_order@[k] == player_ids@[k],
            decreases n - i,
        {
            turn_order.push(player_ids[i]);
            i += 1;
        }
        assert(turn_order@ =~= player_ids@);
        shuffle(&mut turn_order);
        proof {
            lemma_same_items(player_ids@, turn_order@);
        }

        let mut used_question_ids: Vec<String> = Vec::new();
        assert(used_question_ids.deep_view() =~= Seq::<Seq<char>>::empty());
        let initial_question = match draw(content, rules, &used_question_ids) {
            Some(q) => q.clone(),
            None => {
                return Err(
                    AppError::bad_request("no questions available for selected categories"),
                );
            },
        };
        used_question_ids.push(initial_question.id.clone());
        assert(used_question_ids.deep_view() =~= seq![initial_question.id@]);

        let round = RoundState {
            round_number,
            location,
            imposter_id,
            assignments,
            turn_order,
            current_turn_index: 0,
            current_question: Some(initial_question),
            used_question_ids,
            asked_questions: Vec::new(),
            started_at_ms: now_ms,
            resolution: None,
        };
        proof {
            let model = round.deep_view();
            let roles = round.location.roles.deep_view();
            assert(model.assignments == dealt(
                player_ids@,
                imposter_place as int,
                roles,
                role_places@,
            ));
            assert(dealt_ids(model.assignments) =~= player_ids@);
            assert(dealt_ids(model.assignments).contains(player_ids@[imposter_place as int]));
            let seat = Seq::new(
                n as nat,
                |k: int|
                    if k == imposter_place {
                        0int
                    } else if k < imposter_place {
                        role_places@[k] as int
                    } else {
                        role_places@[k - 1] as int
                    },
            );
            assert(seat.len() == model.assignments.len());
            assert forall|k: int|
                0 <= k < model.assignments.len() && model.assignments[k].part
                    is Civilian implies 0 <= #[trigger] seat[k] < roles.len()
                && model.assignments[k].part->role == roles[seat[k]] by {
                assert(k != imposter_place);
            }
            assert forall|a: int, b: int|
                0 <= a < b < model.assignments.len() && model.assignments[a].part is Civilian
                    && model.assignments[b].part is Civilian implies #[trigger] seat[a]
                != #[trigger] seat[b] by {
                assert(a != imposter_place && b != imposter_place);
            }
            assert(roles_dealt(model.assignments, roles));
        }
        Ok(round)
    }
}

} // verus!
