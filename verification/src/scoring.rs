//! The point value of correct answers.
//!
//! A correct answer is worth ten base points times the multiplier of its
//! difficulty tier. The multipliers are held in hundredths, so that the
//! product is computed exactly and the fraction is cut off.

use vstd::prelude::*;

use crate::accounts::unique_ids;
use crate::difficulty::{tier_named, Difficulty};
use crate::error::QuizError;
use crate::ledger::{after_credit, credit_outcome, UserDb};

verus! {

/// Points for one correct answer before the tier's multiplier is applied.
pub const BASE_POINTS: u64 = 10;

/// The multiplier of a tier, in hundredths: 1.20, 1.40, 1.75 and 2.75.
pub open spec fn multiplier_percent(tier: Difficulty) -> int {
    match tier {
        Difficulty::Easy => 120,
        Difficulty::Medium => 140,
        Difficulty::Hard => 175,
        Difficulty::VeryHard => 275,
    }
}

/// The points awarded for `correct_count` correct answers of a tier: the
/// base points times the multiplier, rounded down to a whole number.
pub open spec fn award(tier: Difficulty, correct_count: nat) -> int {
    (correct_count * BASE_POINTS * multiplier_percent(tier)) / 100
}

/// The points awarded under a tier given by name. A name that selects no
/// tier earns nothing.
pub open spec fn award_named(tier_name: Seq<char>, correct_count: nat) -> int {
    match tier_named(tier_name) {
        Some(tier) => award(tier, correct_count),
        None => 0,
    }
}

/// The points awarded for `correct_count` correct answers of `tier`.
pub fn points_for(tier: Difficulty, correct_count: u32) -> (points: u64)
    ensures
        points == award(tier, correct_count as nat),
{
    let base: u64 = correct_count as u64 * BASE_POINTS;
    let scaled: u64 = match tier {
        Difficulty::Easy => base * 120,
        Difficulty::Medium => base * 140,
        Difficulty::Hard => base * 175,
        Difficulty::VeryHard => base * 275,
    };
    scaled / 100
}

/// The points awarded under the tier that `tier_name` selects, and none
/// where it selects no tier.
pub fn points_for_named(tier_name: &str, correct_count: u32) -> (points: u64)
    ensures
        points == award_named(tier_name@, correct_count as nat),
{
    match Difficulty::parse(tier_name) {
        Some(tier) => points_for(tier, correct_count),
        None => 0,
    }
}

/// The outcome of evaluating answers: who answered, at which difficulty, and
/// how many answers were correct.
#[derive(Clone, Debug)]
pub struct StatsUi {
    pub user_id: String,
    pub correct_answers: u32,
    pub difficulty: String,
}

impl StatsUi {
    /// An outcome of `correct_answers` correct answers at `difficulty` for
    /// the user `user_id`.
    pub fn new(correct_answers: u32, difficulty: &str, user_id: &str) -> (stats: StatsUi)
        ensures
            stats.user_id@ == user_id@,
            stats.correct_answers == correct_answers,
            stats.difficulty@ == difficulty@,
    {
        StatsUi {
            user_id: user_id.to_owned(),
            correct_answers,
            difficulty: difficulty.to_owned(),
        }
    }

    /// The points that this outcome is worth.
    pub open spec fn award(&self) -> int {
        award_named(self.difficulty@, self.correct_answers as nat)
    }

    /// The points that this outcome is worth, whatever their size.
    pub fn wide_points(&self) -> (points: u64)
        ensures
            points == self.award(),
    {
        points_for_named(self.difficulty.as_str(), self.correct_answers)
    }

    /// The points that this outcome is worth, where they fit 32 bits.
    pub fn get_points(&self) -> (points: u32)
        requires
            self.award() <= u32::MAX,
        ensures
            points == self.award(),
    {
        self.wide_points() as u32
    }

    /// Credits the points that this outcome is worth to its user's account.
    pub fn update_points(&self, ledger: &mut UserDb) -> (outcome: Result<(), QuizError>)
        ensures
            outcome == credit_outcome(old(ledger)@, self.user_id@, self.award()),
            final(ledger)@ == after_credit(old(ledger)@, self.user_id@, self.award()),
            unique_ids(final(ledger)@),
    {
        let points: u64 = self.wide_points();
        ledger.credit(self.user_id.as_str(), points as i64)
    }
}

/// One correct answer is worth 12, 14, 17 and 27 points in the four tiers,
/// and no correct answer is worth nothing in any of them.
pub proof fn lemma_award_table(tier: Difficulty)
    ensures
        award(tier, 0) == 0,
        award(Difficulty::Easy, 1) == 12,
        award(Difficulty::Medium, 1) == 14,
        award(Difficulty::Hard, 1) == 17,
        award(Difficulty::VeryHard, 1) == 27,
{
}

/// The award in closed form: twelve and fourteen points per correct answer
/// in the two lower tiers, and half of 35 and of 55 per correct answer,
/// rounded down, in the two upper ones.
pub proof fn lemma_award_closed_form(correct_count: nat)
    ensures
        award(Difficulty::Easy, correct_count) == 12 * correct_count,
        award(Difficulty::Medium, correct_count) == 14 * correct_count,
        award(Difficulty::Hard, correct_count) == (35 * correct_count) / 2,
        award(Difficulty::VeryHard, correct_count) == (55 * correct_count) / 2,
{
}

} // verus!
