//! Scoring for a multiple-choice quiz.
//!
//! Questions are grouped into four difficulty tiers. A client submits the
//! index of the answer it chose for one question; the answer is judged by
//! its index alone, a correct answer is worth ten points times the
//! multiplier of its tier, and the points are credited to the user's
//! account in a ledger from which the leaderboard is drawn.
//!
//! - [`difficulty`]: the tiers and their names.
//! - [`question`]: questions, what a client sees of them, and the verdict
//!   on a chosen answer.
//! - [`scoring`]: the points that correct answers are worth.
//! - [`accounts`] and [`standings`]: the ledger and the leaderboard as
//!   mathematics, with the laws that hold of them.
//! - [`ledger`]: the ledger itself.
//! - [`submit`]: the question bank and the handling of a submission.
//! - [`store`]: decisions for a ledger kept in a durable store.
//! - [`reply`]: the text of the reply to a points query.

pub mod accounts;
pub mod difficulty;
pub mod error;
pub mod ledger;
pub mod question;
pub mod reply;
pub mod scoring;
pub mod standings;
pub mod store;
pub mod submit;
pub mod text;

pub use crate::difficulty::Difficulty;
pub use crate::error::QuizError;
pub use crate::ledger::{User, UserDb, UserLeaderBoard, UserU};
pub use crate::question::{Question, UIQuestion};
pub use crate::scoring::StatsUi;
pub use crate::submit::{ClientRequest, QuestionBank};
