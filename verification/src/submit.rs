//! Answer submissions: finding the question that a request refers to,
//! judging the chosen answer, and crediting the points it earns.

use vstd::prelude::*;

use crate::difficulty::{tier_named, Difficulty};
use crate::error::QuizError;
use crate::ledger::{after_credit, UserDb};
use crate::question::{Question, UIQuestion, UIQuestionView};
use crate::scoring::{award_named, StatsUi};

verus! {

/// A client's answer to one question.
#[derive(Clone, Default, Debug)]
pub struct ClientRequest {
    pub question_index: usize,
    pub difficulty: String,
    pub answer_index: usize,
    pub user_id: String,
}

/// The questions of the quiz, one collection per difficulty tier.
#[derive(Clone, Default, Debug)]
pub struct QuestionBank {
    pub easy: Vec<Question>,
    pub medium: Vec<Question>,
    pub hard: Vec<Question>,
    pub very_hard: Vec<Question>,
}

/// What a client is shown of each question of a sequence, in order.
pub open spec fn shown_of(questions: Seq<Question>) -> Seq<UIQuestionView> {
    Seq::new(questions.len(), |i: int| questions[i]@.shown())
}

/// What each client-facing question of a sequence says, in order.
pub open spec fn shown_views(questions: Seq<UIQuestion>) -> Seq<UIQuestionView> {
    Seq::new(questions.len(), |i: int| questions[i]@)
}

/// The number of correct answers that a verdict counts for.
pub open spec fn counted(correct: bool) -> nat {
    if correct {
        1
    } else {
        0
    }
}

impl QuestionBank {
    /// The questions of a tier.
    pub open spec fn tier(&self, tier: Difficulty) -> Seq<Question> {
        match tier {
            Difficulty::Easy => self.easy@,
            Difficulty::Medium => self.medium@,
            Difficulty::Hard => self.hard@,
            Difficulty::VeryHard => self.very_hard@,
        }
    }

    /// The verdict on a submission. The tier's name must select a tier, the
    /// question index must name a question of that tier, and the answer
    /// index must name one of its choices; the verdict then says whether
    /// the chosen index is the index of the correct answer of exactly that
    /// question.
    pub open spec fn verdict(
        &self,
        tier_name: Seq<char>,
        question_index: nat,
        answer_index: nat,
    ) -> Result<bool, QuizError> {
        match tier_named(tier_name) {
            None => Err(QuizError::InvalidDifficulty),
            Some(tier) => if question_index < self.tier(tier).len() {
                self.tier(tier)[question_index as int]@.verdict(answer_index)
            } else {
                Err(QuizError::IndexOutOfRange)
            },
        }
    }

    /// A bank with the given questions in its four tiers.
    pub fn new(
        easy: Vec<Question>,
        medium: Vec<Question>,
        hard: Vec<Question>,
        very_hard: Vec<Question>,
    ) -> (bank: QuestionBank)
        ensures
            bank.easy == easy,
            bank.medium == medium,
            bank.hard == hard,
            bank.very_hard == very_hard,
    {
        QuestionBank { easy, medium, hard, very_hard }
    }

    /// The questions of a tier.
    pub fn questions(&self, tier: Difficulty) -> (questions: &Vec<Question>)
        ensures
            questions@ == self.tier(tier),
    {
        match tier {
            Difficulty::Easy => &self.easy,
            Difficulty::Medium => &self.medium,
            Difficulty::Hard => &self.hard,
            Difficulty::VeryHard => &self.very_hard,
        }
    }

    /// The questions of the tier named `difficulty` as a client sees them:
    /// in the bank's order, each with its text and choices, none with the
    /// position of its correct answer.
    pub fn list_questions(&self, difficulty: &str) -> (listing: Result<Vec<UIQuestion>, QuizError>)
        ensures
            match tier_named(difficulty@) {
                Some(tier) => listing matches Ok(shown) && shown_views(shown@) == shown_of(
                    self.tier(tier),
                ),
                None => listing == Err::<Vec<UIQuestion>, QuizError>(QuizError::InvalidDifficulty),
            },
    {
        let tier = match Difficulty::parse(difficulty) {
            Some(tier) => tier,
            None => {
                return Err(QuizError::InvalidDifficulty);
            },
        };
        let questions = self.questions(tier);
        let mut shown: Vec<UIQuestion> = Vec::new();
        let mut i: usize = 0;
        while i < questions.len()
            invariant
                i <= questions@.len(),
                shown@.len() == i,
                forall|k: int| 0 <= k < i ==> (#[trigger] shown@[k])@ == questions@[k]@.shown(),
            decreases questions@.len() - i,
        {
            shown.push(questions[i].shown());
            i += 1;
        }
        assert(shown_views(shown@) =~= shown_of(questions@));
        Ok(shown)
    }

    /// Judges a submission and records who answered, at which difficulty,
    /// and whether the answer counts.
    pub fn grade(&self, request: &ClientRequest) -> (outcome: Result<StatsUi, QuizError>)
        ensures
            match self.verdict(
                request.difficulty@,
                request.question_index as nat,
                request.answer_index as nat,
            ) {
                Ok(correct) => outcome matches Ok(stats) && stats.user_id@ == request.user_id@
                    && stats.difficulty@ == request.difficulty@ && stats.correct_answers
                    == counted(correct),
                Err(error) => outcome matches Err(refusal) && refusal == error,
            },
    {
        let tier = match Difficulty::parse(request.difficulty.as_str()) {
            Some(tier) => tier,
            None => {
                return Err(QuizError::InvalidDifficulty);
            },
        };
        let questions = self.questions(tier);
        if request.question_index >= questions.len() {
            return Err(QuizError::IndexOutOfRange);
        }
        match questions[request.question_index].evaluate(request.answer_index) {
            Ok(correct) => {
                let count: u32 = if correct {
                    1
                } else {
                    0
                };
                Ok(StatsUi::new(count, request.difficulty.as_str(), request.user_id.as_str()))
            },
            Err(error) => Err(error),
        }
    }

    /// Handles one submission: judges the answer, credits the points it
    /// earns to the user's account, and returns the verdict.
    ///
    /// A submission is rejected, and the ledger left as it is, where the
    /// difficulty names no tier or an index is out of range. Otherwise the
    /// caller gets the verdict whether or not the ledger accepted the
    /// credit; the ledger itself applies a credit as a whole or not at all.
    pub fn submit_answer(&self, ledger: &mut UserDb, request: &ClientRequest) -> (outcome: Result<
        bool,
        QuizError,
    >)
        ensures
            outcome == self.verdict(
                request.difficulty@,
                request.question_index as nat,
                request.answer_index as nat,
            ),
            match tier_named(request.difficulty@) {
                Some(tier) => request.question_index < self.tier(tier).len() && request.answer_index
                    < self.tier(tier)[request.question_index as int].answers@.len() ==> outcome
                    == Ok::<bool, QuizError>(
                    request.answer_index == self.tier(
                        tier,
                    )[request.question_index as int].correct_index,
                ),
                None => outcome == Err::<bool, QuizError>(QuizError::InvalidDifficulty),
            },
            final(ledger)@ == match outcome {
                Ok(correct) => after_credit(
                    old(ledger)@,
                    request.user_id@,
                    award_named(request.difficulty@, counted(correct)),
                ),
                Err(_) => old(ledger)@,
            },
    {
        match self.grade(request) {
            Ok(stats) => {
                let _ = stats.update_points(ledger);
                Ok(stats.correct_answers == 1)
            },
            Err(error) => Err(error),
        }
    }
}

} // verus!
