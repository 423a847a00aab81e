//! The round engine's data: the parts dealt, the questions asked, the
//! views of a round, and the resolution of the guess that ends it.

use vstd::prelude::*;
use vstd::string::*;
use crate::content::{LocationDefinition, LocationModel, QuestionModel, QuestionPrompt};
use crate::errors::AppError;
use crate::errors::ErrorKind;
use crate::outcome::{
    copy_resolution, GuessAction, OutcomeModel, ResolutionModel, RoundOutcome, RoundResolution,
    RoundWinner,
};
use crate::text::{copy_texts, lower_texts, lowercase_all};

verus! {


/// The secret part a player holds in a round.
#[derive(Debug, PartialEq, Eq)]
pub enum PlayerRoleAssignment {
    Imposter,
    Civilian { role: String },
}

/// A part as mathematical values.
pub enum RoleModel {
    Imposter,
    Civilian { role: Seq<char> },
}

impl DeepView for PlayerRoleAssignment {
    type V = RoleModel;

    open spec fn deep_view(&self) -> RoleModel {
        match self {
            PlayerRoleAssignment::Imposter => RoleModel::Imposter,
            PlayerRoleAssignment::Civilian { role } => RoleModel::Civilian { role: role@ },
        }
    }
}

/// The part dealt to one player.
#[derive(Debug, PartialEq, Eq)]
pub struct Assignment {
    pub player_id: u128,
    pub part: PlayerRoleAssignment,
}

/// A dealt part as mathematical values.
pub struct AssignmentModel {
    pub player_id: u128,
    pub part: RoleModel,
}

impl DeepView for Assignment {
    type V = AssignmentModel;

    open spec fn deep_view(&self) -> AssignmentModel {
        AssignmentModel { player_id: self.player_id, part: self.part.deep_view() }
    }
}

/// A question that was on display, with who drew past it and when.
#[derive(Debug, PartialEq, Eq)]
pub struct AskedQuestion {
    pub id: String,
    pub text: String,
    pub categories: Vec<String>,
    pub asked_by: u128,
    pub asked_at_ms: u64,
}

/// An asked question as mathematical values.
pub struct AskedModel {
    pub id: Seq<char>,
    pub text: Seq<char>,
    pub categories: Seq<Seq<char>>,
    pub asked_by: u128,
    pub asked_at_ms: u64,
}

impl DeepView for AskedQuestion {
    type V = AskedModel;

    open spec fn deep_view(&self) -> AskedModel {
        AskedModel {
            id: self.id@,
            text: self.text@,
            categories: self.categories.deep_view(),
            asked_by: self.asked_by,
            asked_at_ms: self.asked_at_ms,
        }
    }
}

impl Clone for AskedQuestion {
    fn clone(&self) -> (r: Self)
        ensures
            r.deep_view() == self.deep_view(),
    {
        AskedQuestion {
            id: self.id.clone(),
            text: self.text.clone(),
            categories: copy_texts(&self.categories),
            asked_by: self.asked_by,
            asked_at_ms: self.asked_at_ms,
        }
    }
}

/// A question as every viewer sees it: its categories in lowercase.
#[derive(Debug, PartialEq, Eq)]
pub struct QuestionView {
    pub id: String,
    pub text: String,
    pub categories: Vec<String>,
}

impl DeepView for QuestionView {
    type V = QuestionModel;

    open spec fn deep_view(&self) -> QuestionModel {
        QuestionModel { id: self.id@, text: self.text@, categories: self.categories.deep_view() }
    }
}

impl Clone for QuestionView {
    fn clone(&self) -> (r: Self)
        ensures
            r.deep_view() == self.deep_view(),
    {
        QuestionView {
            id: self.id.clone(),
            text: self.text.clone(),
            categories: copy_texts(&self.categories),
        }
    }
}

/// A question with its categories in lowercase.
pub open spec fn shown(question: QuestionModel) -> QuestionModel {
    QuestionModel {
        id: question.id,
        text: question.text,
        categories: lowercase_all(question.categories),
    }
}

impl QuestionView {
    /// The view of a prompt: same id and text, categories in lowercase.
    pub fn from_prompt(value: &QuestionPrompt) -> (r: QuestionView)
        ensures
            r.deep_view() == shown(value.deep_view()),
    {
        QuestionView {
            id: value.id.clone(),
            text: value.text.clone(),
            categories: lower_texts(&value.categories),
        }
    }
}

/// What every viewer may know of a round.
#[derive(Debug, PartialEq, Eq)]
pub struct RoundPublicState {
    pub round_number: u32,
    pub turn_order: Vec<u128>,
    pub current_turn_player_id: Option<u128>,
    pub current_question: Option<QuestionView>,
    pub asked_questions: Vec<AskedQuestion>,
    pub started_at_ms: u64,
    pub resolution: Option<RoundResolution>,
}

/// The public state as mathematical values.
pub struct PublicRoundModel {
    pub round_number: u32,
    pub turn_order: Seq<u128>,
    pub current_turn_player_id: Option<u128>,
    pub current_question: Option<QuestionModel>,
    pub asked_questions: Seq<AskedModel>,
    pub started_at_ms: u64,
    pub resolution: Option<ResolutionModel>,
}

impl DeepView for RoundPublicState {
    type V = PublicRoundModel;

    open spec fn deep_view(&self) -> PublicRoundModel {
        PublicRoundModel {
            round_number: self.round_number,
            turn_order: self.turn_order@,
            current_turn_player_id: self.current_turn_player_id,
            current_question: self.current_question.deep_view(),
            asked_questions: self.asked_questions.deep_view(),
            started_at_ms: self.started_at_ms,
            resolution: self.resolution.deep_view(),
        }
    }
}

/// What one player may know of the own part.
#[derive(Debug, PartialEq, Eq)]
pub struct PlayerAssignmentView {
    pub round_number: u32,
    pub is_imposter: bool,
    pub location_id: Option<u32>,
    pub location_name: Option<String>,
    pub role: Option<String>,
}

/// A private view as mathematical values.
pub struct PrivateModel {
    pub round_number: u32,
    pub is_imposter: bool,
    pub location_id: Option<u32>,
    pub location_name: Option<Seq<char>>,
    pub role: Option<Seq<char>>,
}

impl DeepView for PlayerAssignmentView {
    type V = PrivateModel;

    open spec fn deep_view(&self) -> PrivateModel {
        PrivateModel {
            round_number: self.round_number,
            is_imposter: self.is_imposter,
            location_id: self.location_id,
            location_name: self.location_name.deep_view(),
            role: self.role.deep_view(),
        }
    }
}

/// The state of one round.
#[derive(Debug)]
pub struct RoundState {
    pub round_number: u32,
    pub location: LocationDefinition,
    pub imposter_id: u128,
    pub assignments: Vec<Assignment>,
    pub turn_order: Vec<u128>,
    pub current_turn_index: usize,
    pub current_question: Option<QuestionPrompt>,
    pub used_question_ids: Vec<String>,
    pub asked_questions: Vec<AskedQuestion>,
    pub started_at_ms: u64,
    pub resolution: Option<RoundResolution>,
}

/// A round as mathematical values.
pub struct RoundModel {
    pub round_number: u32,
    pub location: LocationModel,
    pub imposter_id: u128,
    pub assignments: Seq<AssignmentModel>,
    pub turn_order: Seq<u128>,
    pub current_turn_index: usize,
    pub current_question: Option<QuestionModel>,
    pub used_question_ids: Seq<Seq<char>>,
    pub asked_questions: Seq<AskedModel>,
    pub started_at_ms: u64,
    pub resolution: Option<ResolutionModel>,
}

impl DeepView for RoundState {
    type V = RoundModel;

    open spec fn deep_view(&self) -> RoundModel {
        RoundModel {
            round_number: self.round_number,
            location: self.location.deep_view(),
            imposter_id: self.imposter_id,
            assignments: self.assignments.deep_view(),
            turn_order: self.turn_order@,
            current_turn_index: self.current_turn_index,
            current_question: self.current_question.deep_view(),
            used_question_ids: self.used_question_ids.deep_view(),
            asked_questions: self.asked_questions.deep_view(),
            started_at_ms: self.started_at_ms,
            resolution: self.resolution.deep_view(),
        }
    }
}

/// The ids of the players that parts were dealt to, in dealing order.
pub open spec fn dealt_ids(assignments: Seq<AssignmentModel>) -> Seq<u128> {
    assignments.map_values(|a: AssignmentModel| a.player_id)
}

/// The part dealt to a player: that of the first entry under the id.
pub open spec fn part_of(assignments: Seq<AssignmentModel>, player_id: u128) -> Option<RoleModel>
    decreases assignments.len(),
{
    if assignments.len() == 0 {
        None
    } else if assignments[0].player_id == player_id {
        Some(assignments[0].part)
    } else {
        part_of(assignments.drop_first(), player_id)
    }
}

/// Whether the civilians hold roles of the location, no two of them the
/// same entry of its role list.
pub open spec fn roles_dealt(assignments: Seq<AssignmentModel>, roles: Seq<Seq<char>>) -> bool {
    exists|seat: Seq<int>|
        {
            &&& seat.len() == assignments.len()
            &&& forall|k: int|
                0 <= k < assignments.len() && assignments[k].part is Civilian ==> 0 <= #[trigger] seat[k]
                    < roles.len() && assignments[k].part->role == roles[seat[k]]
            &&& forall|a: int, b: int|
                0 <= a < b < assignments.len() && assignments[a].part is Civilian
                    && assignments[b].part is Civilian ==> #[trigger] seat[a] != #[trigger] seat[b]
        }
}

/// The player whose turn it is, if there is a turn order.
pub open spec fn turn_holder(round: RoundModel) -> Option<u128> {
    if round.turn_order.len() == 0 {
        None
    } else {
        Some(round.turn_order[(round.current_turn_index as int) % (round.turn_order.len() as int)])
    }
}

/// What every viewer may know of a round.
pub open spec fn public_model(round: RoundModel) -> PublicRoundModel {
    PublicRoundModel {
        round_number: round.round_number,
        turn_order: round.turn_order,
        current_turn_player_id: turn_holder(round),
        current_question: match round.current_question {
            Some(q) => Some(shown(q)),
            None => None,
        },
        asked_questions: round.asked_questions,
        started_at_ms: round.started_at_ms,
        resolution: round.resolution,
    }
}

/// What a player may know of the own part: an impostor only that, a
/// civilian also the location and the role. `None` for a stranger.
pub open spec fn private_model(round: RoundModel, player_id: u128) -> Option<PrivateModel> {
    match part_of(round.assignments, player_id) {
        None => None,
        Some(RoleModel::Imposter) => Some(
            PrivateModel {
                round_number: round.round_number,
                is_imposter: true,
                location_id: None,
                location_name: None,
                role: None,
            },
        ),
        Some(RoleModel::Civilian { role }) => Some(
            PrivateModel {
                round_number: round.round_number,
                is_imposter: false,
                location_id: Some(round.location.id),
                location_name: Some(round.location.name),
                role: Some(role),
            },
        ),
    }
}

/// The verdict on a guess: the resolution it gives, or the kind of error
/// that rejects it. A resolved round takes no guess; a stranger has no
/// say; the impostor names a location and wins when it is the round's; a
/// civilian accuses another player of the round and wins when that is
/// the impostor.
pub open spec fn judged(round: RoundModel, player_id: u128, action: GuessAction, now_ms: u64) -> Result<
    ResolutionModel,
    ErrorKind,
> {
    if round.resolution is Some {
        Err(ErrorKind::Validation)
    } else {
        match (part_of(round.assignments, player_id), action) {
            (None, _) => Err(ErrorKind::Validation),
            (Some(RoleModel::Imposter), GuessAction::GuessLocation { location_id }) => Ok(
                if location_id == round.location.id {
                    ResolutionModel {
                        winner: RoundWinner::Imposter,
                        outcome: OutcomeModel::ImposterIdentifiedLocation {
                            impostor: player_id,
                            location_id: round.location.id,
                            location_name: round.location.name,
                        },
                        ended_at_ms: now_ms,
                    }
                } else {
                    ResolutionModel {
                        winner: RoundWinner::Crew,
                        outcome: OutcomeModel::ImposterFailedLocationGuess {
                            impostor: player_id,
                            guessed_location_id: location_id,
                            actual_location_id: round.location.id,
                            actual_location_name: round.location.name,
                        },
                        ended_at_ms: now_ms,
                    }
                },
            ),
            (Some(RoleModel::Imposter), GuessAction::AccusePlayer { .. }) => Err(
                ErrorKind::Forbidden,
            ),
            (Some(RoleModel::Civilian { .. }), GuessAction::GuessLocation { .. }) => Err(
                ErrorKind::Forbidden,
            ),
            (Some(RoleModel::Civilian { .. }), GuessAction::AccusePlayer { accused_id }) => {
                if part_of(round.assignments, accused_id) is None || accused_id == player_id {
                    Err(ErrorKind::Validation)
                } else if accused_id == round.imposter_id {
                    Ok(
                        ResolutionModel {
                            winner: RoundWinner::Crew,
                            outcome: OutcomeModel::CrewIdentifiedImposter {
                                accuser: player_id,
                                impostor: round.imposter_id,
                            },
                            ended_at_ms: now_ms,
                        },
                    )
                } else {
                    Ok(
                        ResolutionModel {
                            winner: RoundWinner::Imposter,
                            outcome: OutcomeModel::CrewMisdirected {
                                accuser: player_id,
                                accused: accused_id,
                                impostor: round.imposter_id,
                            },
                            ended_at_ms: now_ms,
                        },
                    )
                }
            },
        }
    }
}

/// The place of the first part dealt under an id.
pub fn find_part(assignments: &Vec<Assignment>, player_id: u128) -> (r: Option<usize>)
    ensures
        r is None <==> part_of(assignments.deep_view(), player_id) is None,
        r is None <==> !dealt_ids(assignments.deep_view()).contains(player_id),
        r matches Some(i) ==> i < assignments.len() && assignments[i as int].player_id == player_id
            && part_of(assignments.deep_view(), player_id) == Some(
            assignments[i as int].part.deep_view(),
        ),
{
    let ghost all = assignments.deep_view();
    let mut i: usize = 0;
    assert(all.skip(0) =~= all);
    while i < assignments.len()
        invariant
            i <= assignments.len(),
            all == assignments.deep_view(),
            forall|k: int| 0 <= k < i ==> assignments[k].player_id != player_id,
            part_of(all, player_id) == part_of(all.skip(i as int), player_id),
        decreases assignments.len() - i,
    {
        assert(all.skip(i as int)[0] == assignments[i as int].deep_view());
        if assignments[i].player_id == player_id {
            assert(dealt_ids(all)[i as int] == player_id);
            return Some(i);
        }
        assert(all.skip(i as int).drop_first() =~= all.skip(i + 1));
        i += 1;
    }
    assert(all.skip(i as int).len() == 0);
    assert(forall|k: int| 0 <= k < all.len() ==> dealt_ids(all)[k] == assignments[k].player_id);
    None
}

impl RoundState {
    /// Whether the round is consistent: a turn pointer inside a turn
    /// order that is a rearrangement of the dealt ids, no id dealt twice,
    /// and the impostor's part held by the impostor alone.
    pub open spec fn wf(&self) -> bool {
        let round = self.deep_view();
        &&& round.current_turn_index < round.turn_order.len()
        &&& dealt_ids(round.assignments).no_duplicates()
        &&& round.turn_order.to_multiset() == dealt_ids(round.assignments).to_multiset()
        &&& dealt_ids(round.assignments).contains(round.imposter_id)
        &&& forall|k: int|
            0 <= k < round.assignments.len() ==> ((#[trigger] round.assignments[k]).part
                is Imposter <==> round.assignments[k].player_id == round.imposter_id)
    }

    /// The player whose turn it is.
    pub fn current_turn(&self) -> (r: Option<u128>)
        ensures
            r == turn_holder(self.deep_view()),
    {
        if self.turn_order.len() == 0 {
            return None;
        }
        let index = self.current_turn_index % self.turn_order.len();
        Some(self.turn_order[index])
    }

    /// Whether the round still waits for its guess.
    pub fn is_active(&self) -> (r: bool)
        ensures
            r == (self.resolution is None),
    {
        self.resolution.is_none()
    }

    /// Resolves the round by one player's guess, stamped with the given
    /// time. The verdict is `judged`; a rejected guess leaves the round
    /// as it was, an accepted one records its resolution and nothing else.
    pub fn resolve_guess(&mut self, player_id: u128, action: GuessAction, now_ms: u64) -> (r: Result<
        RoundResolution,
        AppError,
    >)
        ensures
            match judged(old(self).deep_view(), player_id, action, now_ms) {
                Ok(verdict) => {
                    &&& r matches Ok(resolution) && resolution.deep_view() == verdict
                    &&& final(self).deep_view() == (RoundModel {
                        resolution: Some(verdict),
                        ..old(self).deep_view()
                    })
                },
                Err(kind) => {
                    &&& r matches Err(e) && e.kind() == kind
                    &&& *final(self) == *old(self)
                },
            },
            old(self).wf() ==> final(self).wf(),
    {
        if !self.is_active() {
            return Err(AppError::bad_request("round already resolved"));
        }
        let place = match find_part(&self.assignments, player_id) {
            Some(place) => place,
            None => {
                return Err(AppError::bad_request("player not part of this round"));
            },
        };
        let resolution = match (&self.assignments[place].part, action) {
            (PlayerRoleAssignment::Imposter, GuessAction::GuessLocation { location_id }) => {
                if location_id == self.location.id {
                    RoundResolution {
                        winner: RoundWinner::Imposter,
                        outcome: RoundOutcome::ImposterIdentifiedLocation {
                            impostor: player_id,
                            location_id: self.location.id,
                            location_name: self.location.name.clone(),
                        },
                        ended_at_ms: now_ms,
                    }
                } else {
                    RoundResolution {
                        winner: RoundWinner::Crew,
                        outcome: RoundOutcome::ImposterFailedLocationGuess {
                            impostor: player_id,
                            guessed_location_id: location_id,
                            actual_location_id: self.location.id,
                            actual_location_name: self.location.name.clone(),
                        },
                        ended_at_ms: now_ms,
                    }
                }
            },
            (PlayerRoleAssignment::Imposter, GuessAction::AccusePlayer { .. }) => {
                return Err(AppError::forbidden("imposter must guess the location"));
            },
            (PlayerRoleAssignment::Civilian { .. }, GuessAction::AccusePlayer { accused_id }) => {
                if find_part(&self.assignments, accused_id).is_none() {
                    return Err(AppError::bad_request("accused player not found"));
                }
                if accused_id == player_id {
                    return Err(AppError::bad_request("you cannot accuse yourself"));
                }
                if accused_id == self.imposter_id {
                    RoundResolution {
                        winner: RoundWinner::Crew,
                        outcome: RoundOutcome::CrewIdentifiedImposter {
                            accuser: player_id,
                            impostor: self.imposter_id,
                        },
                        ended_at_ms: now_ms,
                    }
                } else {
                    RoundResolution {
                        winner: RoundWinner::Imposter,
                        outcome: RoundOutcome::CrewMisdirected {
                            accuser: player_id,
                            accused: accused_id,
                            impostor: self.imposter_id,
                        },
                        ended_at_ms: now_ms,
                    }
                }
            },
            (PlayerRoleAssignment::Civilian { .. }, GuessAction::GuessLocation { .. }) => {
                return Err(AppError::forbidden("crew members must accuse a player"));
            },
        };
        self.resolution = Some(resolution.clone());
        Ok(resolution)
    }

    /// What every viewer may know of this round.
    pub fn public_state(&self) -> (r: RoundPublicState)
        ensures
            r.deep_view() == public_model(self.deep_view()),
    {
        let mut asked: Vec<AskedQuestion> = Vec::new();
        let mut i: usize = 0;
        while i < self.asked_questions.len()
            invariant
                i <= self.asked_questions.len(),
                asked.len() == i,
                forall|k: int|
                    0 <= k < i ==> asked[k].deep_view() == self.asked_questions[k].deep_view(),
            decreases self.asked_questions.len() - i,
        {
            asked.push(self.asked_questions[i].clone());
            i += 1;
        }
        assert(asked.deep_view() =~= self.asked_questions.deep_view());
        RoundPublicState {
            round_number: self.round_number,
            turn_order: self.turn_order.clone(),
            current_turn_player_id: self.current_turn(),
            current_question: match &self.current_question {
                Some(q) => Some(QuestionView::from_prompt(q)),
                None => None,
            },
            asked_questions: asked,
            started_at_ms: self.started_at_ms,
            resolution: copy_resolution(&self.resolution),
        }
    }

    /// What one player may know of the own part in this round.
    pub fn assignment_for(&self, player_id: u128) -> (r: Option<PlayerAssignmentView>)
        ensures
            r.deep_view() == private_model(self.deep_view(), player_id),
    {
        let place = match find_part(&self.assignments, player_id) {
            Some(place) => place,
            None => {
                return None;
            },
        };
        match &self.assignments[place].part {
            PlayerRoleAssignment::Imposter => Some(
                PlayerAssignmentView {
                    round_number: self.round_number,
                    is_imposter: true,
                    location_id: None,
                    location_name: None,
                    role: None,
                },
            ),
            PlayerRoleAssignment::Civilian { role } => Some(
                PlayerAssignmentView {
                    round_number: self.round_number,
                    is_imposter: false,
                    location_id: Some(self.location.id),
                    location_name: Some(self.location.name.clone()),
                    role: Some(role.clone()),
                },
            ),
        }
    }
}

/// A resolved round rejects every further guess as validation.
pub proof fn lemma_resolved_once(round: RoundModel, player_id: u128, action: GuessAction, now_ms: u64)
    requires
        round.resolution is Some,
    ensures
        judged(round, player_id, action, now_ms) == Err::<ResolutionModel, ErrorKind>(
            ErrorKind::Validation,
        ),
{
}

/// A guess that is accepted resolves the round, so the next one is rejected.
pub proof fn lemma_second_guess_rejected(
    round: RoundModel,
    first_player: u128,
    first: GuessAction,
    first_ms: u64,
    second_player: u128,
    second: GuessAction,
    second_ms: u64,
)
    requires
        judged(round, first_player, first, first_ms) is Ok,
    ensures
        judged(
            RoundModel {
                resolution: Some(judged(round, first_player, first, first_ms)->Ok_0),
                ..round
            },
            second_player,
            second,
            second_ms,
        ) == Err::<ResolutionModel, ErrorKind>(ErrorKind::Validation),
{
}

/// Whether exactly one player of a round holds the impostor's part, and
/// that player is the round's impostor.
pub open spec fn sole_impostor(round: RoundModel) -> bool {
    exists|k: int|
        {
            &&& 0 <= k < round.assignments.len()
            &&& (#[trigger] round.assignments[k]).part is Imposter
            &&& round.assignments[k].player_id == round.imposter_id
            &&& forall|j: int|
                0 <= j < round.assignments.len() && (#[trigger] round.assignments[j]).part
                    is Imposter ==> j == k
        }
}

/// In a consistent round exactly one player holds the impostor's part.
pub proof fn lemma_one_impostor(round: RoundState)
    requires
        round.wf(),
    ensures
        sole_impostor(round.deep_view()),
{
    let model = round.deep_view();
    let ids = dealt_ids(model.assignments);
    let k = choose|k: int| 0 <= k < ids.len() && ids[k] == model.imposter_id;
    assert(model.assignments[k].player_id == model.imposter_id);
    assert forall|j: int|
        0 <= j < model.assignments.len() && (#[trigger] model.assignments[j]).part
            is Imposter implies j == k by {
        assert(ids[j] == model.imposter_id);
    }
}

} // verus!
