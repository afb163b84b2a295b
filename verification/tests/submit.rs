use quiz_scoring::error::QuizError;
use quiz_scoring::ledger::{User, UserDb};
use quiz_scoring::question::{Question, UIQuestion};
use quiz_scoring::submit::{ClientRequest, QuestionBank};
use quiz_scoring::Difficulty;

fn bank() -> QuestionBank {
    QuestionBank::new(
        vec![
            Question::new("2 + 2?", vec!["3", "4", "5"], 1),
            Question::new("Capital of France?", vec!["Paris", "Rome"], 0),
        ],
        vec![Question::new("7 * 8?", vec!["54", "56", "58", "56"], 3)],
        vec![Question::new("Largest prime below 100?", vec!["91", "97", "99"], 1)],
        vec![Question::new("2^10?", vec!["512", "1000", "1024", "2048"], 2)],
    )
}

fn ledger_with(id: &str) -> UserDb {
    let mut ledger = UserDb::new();
    assert_eq!(
        ledger.save_user(User { user_id: id.to_string(), user_name: "Uma".to_string() }),
        Ok(())
    );
    ledger
}

fn request(difficulty: &str, question_index: usize, answer_index: usize, user_id: &str) -> ClientRequest {
    ClientRequest {
        question_index,
        difficulty: difficulty.to_string(),
        answer_index,
        user_id: user_id.to_string(),
    }
}

#[test]
fn the_bank_hands_out_each_tier() {
    let bank = bank();
    assert_eq!(bank.questions(Difficulty::Easy).len(), 2);
    assert_eq!(bank.questions(Difficulty::Medium)[0].question, "7 * 8?");
    assert_eq!(bank.questions(Difficulty::Hard)[0].correct_index, 1);
    assert_eq!(bank.questions(Difficulty::VeryHard)[0].answers.len(), 4);
}

#[test]
fn listing_shows_a_tier_in_order() {
    let listing = bank().list_questions("easy");
    assert_eq!(
        listing,
        Ok(vec![
            UIQuestion {
                question: "2 + 2?".to_string(),
                answers: vec!["3".to_string(), "4".to_string(), "5".to_string()],
            },
            UIQuestion {
                question: "Capital of France?".to_string(),
                answers: vec!["Paris".to_string(), "Rome".to_string()],
            },
        ])
    );
}

#[test]
fn listing_every_tier_by_name() {
    let bank = bank();
    assert_eq!(bank.list_questions("medium").map(|shown| shown.len()), Ok(1));
    assert_eq!(bank.list_questions("hard").map(|shown| shown.len()), Ok(1));
    assert_eq!(
        bank.list_questions("very_hard").map(|shown| shown[0].question.clone()),
        Ok("2^10?".to_string())
    );
}

#[test]
fn listing_an_unknown_tier_is_rejected() {
    assert_eq!(bank().list_questions("impossible"), Err(QuizError::InvalidDifficulty));
    assert_eq!(bank().list_questions(""), Err(QuizError::InvalidDifficulty));
}

#[test]
fn listing_an_empty_tier_shows_nothing() {
    let empty = QuestionBank::new(vec![], vec![], vec![], vec![]);
    assert_eq!(empty.list_questions("hard"), Ok(vec![]));
}

#[test]
fn a_correct_answer_is_confirmed_and_credited() {
    let bank = bank();
    let mut ledger = ledger_with("u");
    assert_eq!(bank.submit_answer(&mut ledger, &request("easy", 0, 1, "u")), Ok(true));
    assert_eq!(ledger.get_poits("u"), Ok(12));
    assert_eq!(bank.submit_answer(&mut ledger, &request("medium", 0, 3, "u")), Ok(true));
    assert_eq!(ledger.get_poits("u"), Ok(26));
    assert_eq!(bank.submit_answer(&mut ledger, &request("hard", 0, 1, "u")), Ok(true));
    assert_eq!(ledger.get_poits("u"), Ok(43));
    assert_eq!(bank.submit_answer(&mut ledger, &request("very_hard", 0, 2, "u")), Ok(true));
    assert_eq!(ledger.get_poits("u"), Ok(70));
}

#[test]
fn a_wrong_answer_is_denied_and_earns_nothing() {
    let bank = bank();
    let mut ledger = ledger_with("u");
    assert_eq!(bank.submit_answer(&mut ledger, &request("easy", 0, 0, "u")), Ok(false));
    assert_eq!(bank.submit_answer(&mut ledger, &request("easy", 0, 2, "u")), Ok(false));
    assert_eq!(ledger.get_poits("u"), Ok(0));
}

#[test]
fn the_answer_is_judged_against_the_question_that_was_asked() {
    let bank = bank();
    let mut ledger = ledger_with("u");
    assert_eq!(bank.submit_answer(&mut ledger, &request("easy", 1, 0, "u")), Ok(true));
    assert_eq!(bank.submit_answer(&mut ledger, &request("easy", 1, 1, "u")), Ok(false));
    assert_eq!(bank.submit_answer(&mut ledger, &request("easy", 0, 0, "u")), Ok(false));
    assert_eq!(ledger.get_poits("u"), Ok(12));
}

#[test]
fn a_choice_with_the_text_of_the_correct_one_is_still_wrong() {
    let bank = bank();
    let mut ledger = ledger_with("u");
    assert_eq!(bank.submit_answer(&mut ledger, &request("medium", 0, 1, "u")), Ok(false));
    assert_eq!(ledger.get_poits("u"), Ok(0));
    assert_eq!(bank.submit_answer(&mut ledger, &request("medium", 0, 3, "u")), Ok(true));
    assert_eq!(ledger.get_poits("u"), Ok(14));
}

#[test]
fn an_unknown_difficulty_is_rejected() {
    let bank = bank();
    let mut ledger = UserDb::new();
    assert_eq!(
        bank.submit_answer(&mut ledger, &request("impossible", 0, 0, "u")),
        Err(QuizError::InvalidDifficulty)
    );
    assert!(ledger.users().is_empty());
}

#[test]
fn a_question_index_out_of_range_is_rejected() {
    let bank = bank();
    let mut ledger = ledger_with("u");
    assert_eq!(
        bank.submit_answer(&mut ledger, &request("easy", 2, 0, "u")),
        Err(QuizError::IndexOutOfRange)
    );
    assert_eq!(
        bank.submit_answer(&mut ledger, &request("hard", usize::MAX, 0, "u")),
        Err(QuizError::IndexOutOfRange)
    );
    assert_eq!(ledger.get_poits("u"), Ok(0));
}

#[test]
fn an_answer_index_out_of_range_is_rejected() {
    let bank = bank();
    let mut ledger = ledger_with("u");
    assert_eq!(
        bank.submit_answer(&mut ledger, &request("easy", 0, 3, "u")),
        Err(QuizError::IndexOutOfRange)
    );
    assert_eq!(
        bank.submit_answer(&mut ledger, &request("easy", 1, 2, "u")),
        Err(QuizError::IndexOutOfRange)
    );
    assert_eq!(ledger.get_poits("u"), Ok(0));
}

#[test]
fn the_difficulty_is_checked_before_the_indices() {
    let bank = bank();
    let mut ledger = ledger_with("u");
    assert_eq!(
        bank.submit_answer(&mut ledger, &request("nightmare", 99, 99, "u")),
        Err(QuizError::InvalidDifficulty)
    );
}

#[test]
fn the_verdict_is_given_even_where_no_account_takes_the_points() {
    let bank = bank();
    let mut ledger = ledger_with("u");
    assert_eq!(bank.submit_answer(&mut ledger, &request("easy", 0, 1, "ghost")), Ok(true));
    assert_eq!(ledger.users().len(), 1);
    assert_eq!(ledger.get_poits("u"), Ok(0));
    assert_eq!(ledger.get_poits("ghost"), Err(QuizError::NotFound));
}

#[test]
fn the_verdict_is_given_even_where_the_column_is_full() {
    let bank = bank();
    let mut ledger = ledger_with("u");
    assert_eq!(ledger.add_points_to_user("u", i32::MAX - 5), Ok(()));
    assert_eq!(bank.submit_answer(&mut ledger, &request("easy", 0, 1, "u")), Ok(true));
    assert_eq!(ledger.get_poits("u"), Ok(i32::MAX - 5));
}

#[test]
fn grading_records_who_answered_and_whether_it_counts() {
    let bank = bank();
    let right = bank.grade(&request("hard", 0, 1, "u")).unwrap();
    assert_eq!(right.user_id, "u");
    assert_eq!(right.difficulty, "hard");
    assert_eq!(right.correct_answers, 1);
    assert_eq!(right.get_points(), 17);
    let wrong = bank.grade(&request("hard", 0, 0, "u")).unwrap();
    assert_eq!(wrong.correct_answers, 0);
    assert_eq!(wrong.get_points(), 0);
}

#[test]
fn grading_rejects_what_submitting_rejects() {
    let bank = bank();
    assert_eq!(
        bank.grade(&request("impossible", 0, 0, "u")).map(|stats| stats.correct_answers),
        Err(QuizError::InvalidDifficulty)
    );
    assert_eq!(
        bank.grade(&request("easy", 5, 0, "u")).map(|stats| stats.correct_answers),
        Err(QuizError::IndexOutOfRange)
    );
    assert_eq!(
        bank.grade(&request("easy", 0, 5, "u")).map(|stats| stats.correct_answers),
        Err(QuizError::IndexOutOfRange)
    );
}
