//! The four difficulty tiers and the names by which requests select them.

use vstd::prelude::*;

use crate::text::same_text;

verus! {

/// A difficulty tier. It selects a partition of the question bank and the
/// multiplier applied to the base points of a correct answer.
#[derive(Clone, Copy, Debug, PartialEq, Eq, Structural)]
pub enum Difficulty {
    Easy,
    Medium,
    Hard,
    VeryHard,
}

/// The tier that a name selects, if it selects one.
pub open spec fn tier_named(name: Seq<char>) -> Option<Difficulty> {
    if name == "easy"@ {
        Some(Difficulty::Easy)
    } else if name == "medium"@ {
        Some(Difficulty::Medium)
    } else if name == "hard"@ {
        Some(Difficulty::Hard)
    } else if name == "very_hard"@ {
        Some(Difficulty::VeryHard)
    } else {
        None
    }
}

impl Difficulty {
    /// The tier named by `name`; `None` for any other text.
    pub fn parse(name: &str) -> (tier: Option<Difficulty>)
        ensures
            tier == tier_named(name@),
    {
        if same_text(name, "easy") {
            Some(Difficulty::Easy)
        } else if same_text(name, "medium") {
            Some(Difficulty::Medium)
        } else if same_text(name, "hard") {
            Some(Difficulty::Hard)
        } else if same_text(name, "very_hard") {
            Some(Difficulty::VeryHard)
        } else {
            None
        }
    }
}

} // verus!
