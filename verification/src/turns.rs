//! Question cycling: whose turn it is to draw, what may be drawn, and
//! what a draw leaves behind.

use vstd::prelude::*;
use vstd::string::*;
use crate::content::{drawable, GameContent, QuestionModel, QuestionPrompt};
use crate::errors::AppError;
use crate::errors::ErrorKind;
use crate::round::{turn_holder, AskedModel, AskedQuestion, RoundModel, RoundState};
use crate::rules::GameRules;
use crate::text::{has_text, lower_texts, lowercase_all};

verus! {

/// Whether the catalog holds no question that may be drawn.
pub open spec fn none_drawable(
    content: &GameContent,
    wanted: Seq<Seq<char>>,
    allow_repeats: bool,
    used: Seq<Seq<char>>,
) -> bool {
    forall|i: int|
        0 <= i < content.questions.len() ==> !drawable(
            wanted,
            allow_repeats,
            used,
            #[trigger] content.questions.deep_view()[i],
        )
}

/// Whether a question is one of the catalog that may be drawn.
pub open spec fn is_draw(
    content: &GameContent,
    wanted: Seq<Seq<char>>,
    allow_repeats: bool,
    used: Seq<Seq<char>>,
    question: QuestionModel,
) -> bool {
    exists|i: int|
        0 <= i < content.questions.len() && question
            == #[trigger] content.questions.deep_view()[i] && drawable(
            wanted,
            allow_repeats,
            used,
            question,
        )
}

/// A set of texts, kept as a list, after one more text was put in.
pub open spec fn with_text(used: Seq<Seq<char>>, id: Seq<char>) -> Seq<Seq<char>> {
    if used.contains(id) {
        used
    } else {
        used.push(id)
    }
}

/// The asked-log after the question on display, if any, was archived.
pub open spec fn archived(round: RoundModel, asker: u128, now_ms: u64) -> Seq<AskedModel> {
    match round.current_question {
        Some(q) => round.asked_questions.push(
            AskedModel {
                id: q.id,
                text: q.text,
                categories: lowercase_all(q.categories),
                asked_by: asker,
                asked_at_ms: now_ms,
            },
        ),
        None => round.asked_questions,
    }
}

/// The turn pointer after one step round the turn order.
pub open spec fn next_index(round: RoundModel) -> usize {
    if round.turn_order.len() == 0 {
        round.current_turn_index
    } else {
        ((round.current_turn_index as int + 1) % (round.turn_order.len() as int)) as usize
    }
}

/// Whether a call for the next question is turned away: the round has
/// no turn order, the turn is another player's, or the round is resolved.
pub open spec fn turn_refused(before: RoundModel, player_id: u128) -> bool {
    before.resolution is Some || turn_holder(before) != Some(player_id)
}

/// What a call for the next question gave, as mathematical values.
pub open spec fn turn_result(r: Result<(QuestionPrompt, u128), AppError>) -> Result<
    (QuestionModel, u128),
    ErrorKind,
> {
    match r {
        Ok((question, next)) => Ok((question.deep_view(), next)),
        Err(e) => Err(e.kind()),
    }
}

/// The law of a call for the next question.
///
/// A round without turn order rejects it as validation; a call by
/// anyone but the turn's holder is forbidden, resolved round or not; the
/// holder's call on a resolved round is rejected as validation; in each
/// case the round stays as it was. Otherwise the question on display is
/// archived, the turn moves on, and the used ids are forgotten where
/// repeats are not allowed and nothing may be drawn; then either nothing
/// may be drawn, the call fails as validation and nothing is on display,
/// or a drawable question is on display, counts as used, and comes back
/// with the next turn's holder.
pub open spec fn turn_taken(
    before: RoundModel,
    player_id: u128,
    wanted: Seq<Seq<char>>,
    allow: bool,
    content: &GameContent,
    now_ms: u64,
    r: Result<(QuestionModel, u128), ErrorKind>,
    after: RoundModel,
) -> bool {
    if turn_holder(before) is None {
        r == Err::<(QuestionModel, u128), ErrorKind>(ErrorKind::Validation) && after == before
    } else if turn_holder(before) != Some(player_id) {
        r == Err::<(QuestionModel, u128), ErrorKind>(ErrorKind::Forbidden) && after == before
    } else if before.resolution is Some {
        r == Err::<(QuestionModel, u128), ErrorKind>(ErrorKind::Validation) && after == before
    } else {
        let used = if !allow && none_drawable(content, wanted, allow, before.used_question_ids) {
            Seq::empty()
        } else {
            before.used_question_ids
        };
        match r {
            Err(kind) => {
                &&& kind == ErrorKind::Validation
                &&& none_drawable(content, wanted, allow, used)
                &&& after == (RoundModel {
                    asked_questions: archived(before, player_id, now_ms),
                    current_turn_index: next_index(before),
                    current_question: None,
                    used_question_ids: used,
                    ..before
                })
            },
            Ok((question, next)) => {
                &&& is_draw(content, wanted, allow, used, question)
                &&& next == before.turn_order[next_index(before) as int]
                &&& after == (RoundModel {
                    asked_questions: archived(before, player_id, now_ms),
                    current_turn_index: next_index(before),
                    current_question: Some(question),
                    used_question_ids: with_text(used, question.id),
                    ..before
                })
            },
        }
    }
}

/// Draws a question from the catalog under a room's rules.
pub(crate) fn draw<'a>(content: &'a GameContent, rules: &GameRules, used: &Vec<String>) -> (r: Option<
    &'a QuestionPrompt,
>)
    ensures
        r is None <==> none_drawable(
            content,
            rules.question_categories.deep_view(),
            rules.allow_repeated_questions,
            used.deep_view(),
        ),
        r matches Some(q) ==> is_draw(
            content,
            rules.question_categories.deep_view(),
            rules.allow_repeated_questions,
            used.deep_view(),
            q.deep_view(),
        ),
{
    let r = content.random_question(
        &rules.question_categories,
        rules.allow_repeated_questions,
        used,
    );
    proof {
        if let Some(q) = r {
            let i = choose|i: int|
                0 <= i < content.questions.len() && *q == #[trigger] content.questions[i]
                    && drawable(
                    rules.question_categories.deep_view(),
                    rules.allow_repeated_questions,
                    used.deep_view(),
                    content.questions.deep_view()[i],
                );
            assert(q.deep_view() == content.questions.deep_view()[i]);
        }
    }
    r
}

impl RoundState {
    /// Moves the round to its next question, on behalf of the player
    /// whose turn it is, at the given time, as `turn_taken` says. A call
    /// that is turned away leaves the round untouched.
    pub fn next_question(
        &mut self,
        player_id: u128,
        rules: &GameRules,
        content: &GameContent,
        now_ms: u64,
    ) -> (r: Result<(QuestionPrompt, u128), AppError>)
        ensures
            turn_taken(
                old(self).deep_view(),
                player_id,
                rules.question_categories.deep_view(),
                rules.allow_repeated_questions,
                content,
                now_ms,
                turn_result(r),
                final(self).deep_view(),
            ),
            turn_refused(old(self).deep_view(), player_id) ==> *final(self) == *old(self),
            old(self).wf() ==> final(self).wf(),
    {
        let expected_turn = match self.current_turn() {
            Some(id) => id,
            None => {
                return Err(AppError::bad_request("no turn available"));
            },
        };
        if expected_turn != player_id {
            return Err(AppError::forbidden("not your turn to draw"));
        }
        if !self.is_active() {
            return Err(AppError::bad_request("round already resolved"));
        }
        let ghost before = self.deep_view();
        let archived_question = match &self.current_question {
            Some(current) => Some(
                AskedQuestion {
                    id: current.id.clone(),
                    text: current.text.clone(),
                    categories: lower_texts(&current.categories),
                    asked_by: player_id,
                    asked_at_ms: now_ms,
                },
            ),
            None => None,
        };
        if let Some(entry) = archived_question {
            let ghost log = self.asked_questions.deep_view();
            let ghost model = entry.deep_view();
            self.asked_questions.push(entry);
            assert(self.asked_questions.deep_view() =~= log.push(model));
        }
        self.current_question = None;
        let len = self.turn_order.len();
        let index = self.current_turn_index % len;
        let advanced = (index + 1) % len;
        assert(advanced == next_index(before)) by {
            let a = before.current_turn_index as int;
            let m = len as int;
            assert(((a % m) + 1) % m == (a + 1) % m) by (nonlinear_arith)
                requires
                    m > 0,
                    a >= 0,
            ;
        }
        self.current_turn_index = advanced;

        let first = match draw(content, rules, &self.used_question_ids) {
            Some(q) => Some(q.clone()),
            None => None,
        };
        let question = if first.is_none() && !rules.allow_repeated_questions {
            self.used_question_ids.clear();
            assert(self.used_question_ids.deep_view() =~= Seq::<Seq<char>>::empty());
            match draw(content, rules, &self.used_question_ids) {
                Some(q) => Some(q.clone()),
                None => None,
            }
        } else {
            first
        };
        let question = match question {
            Some(q) => q,
            None => {
                return Err(AppError::bad_request("no further questions available"));
            },
        };
        if !has_text(&self.used_question_ids, &question.id) {
            let ghost ids = self.used_question_ids.deep_view();
            self.used_question_ids.push(question.id.clone());
            assert(self.used_question_ids.deep_view() =~= ids.push(question.id@));
        }
        let next_turn = self.turn_order[advanced];
        self.current_question = Some(question.clone());
        Ok((question, next_turn))
    }
}

/// A call for the next question by anyone but the turn's holder is
/// forbidden and leaves the round as it was, resolved or not.
pub proof fn lemma_out_of_turn_changes_nothing(
    before: RoundModel,
    player_id: u128,
    wanted: Seq<Seq<char>>,
    allow: bool,
    content: &GameContent,
    now_ms: u64,
    r: Result<(QuestionModel, u128), ErrorKind>,
    after: RoundModel,
)
    requires
        turn_taken(before, player_id, wanted, allow, content, now_ms, r, after),
        turn_holder(before) is Some,
        turn_holder(before) != Some(player_id),
    ensures
        r == Err::<(QuestionModel, u128), ErrorKind>(ErrorKind::Forbidden),
        after == before,
{
}

} // verus!
