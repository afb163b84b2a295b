//! Questions, the form in which they are shown to a client, and the rule
//! that decides whether a chosen answer is the correct one.

use vstd::prelude::*;
use vstd::std_specs::convert::FromSpecImpl;

use crate::error::QuizError;

verus! {

/// A multiple-choice question as the bank stores it.
#[derive(Clone, Default, Debug)]
pub struct Question {
    pub question: String,
    pub answers: Vec<String>,
    pub correct_index: usize,
}

/// A question as a client sees it: the text and the choices, without the
/// position of the correct one.
#[derive(Clone, Default, Debug, PartialEq)]
pub struct UIQuestion {
    pub question: String,
    pub answers: Vec<String>,
}

/// What a question says, as plain mathematical values.
pub struct QuestionView {
    pub text: Seq<char>,
    pub answers: Seq<Seq<char>>,
    pub correct_index: nat,
}

/// What a client-facing question says, as plain mathematical values.
pub struct UIQuestionView {
    pub text: Seq<char>,
    pub answers: Seq<Seq<char>>,
}

/// The characters of each string of a sequence, in order.
pub open spec fn texts(strings: Seq<String>) -> Seq<Seq<char>> {
    Seq::new(strings.len(), |i: int| strings[i]@)
}

/// The characters of each string slice of a sequence, in order.
pub open spec fn slice_texts(slices: Seq<&str>) -> Seq<Seq<char>> {
    Seq::new(slices.len(), |i: int| slices[i]@)
}

impl View for Question {
    type V = QuestionView;

    open spec fn view(&self) -> QuestionView {
        QuestionView {
            text: self.question@,
            answers: texts(self.answers@),
            correct_index: self.correct_index as nat,
        }
    }
}

impl View for UIQuestion {
    type V = UIQuestionView;

    open spec fn view(&self) -> UIQuestionView {
        UIQuestionView { text: self.question@, answers: texts(self.answers@) }
    }
}

impl QuestionView {
    /// The correct answer is one of the choices.
    pub open spec fn well_formed(self) -> bool {
        self.correct_index < self.answers.len()
    }

    /// What a client is shown of this question.
    pub open spec fn shown(self) -> UIQuestionView {
        UIQuestionView { text: self.text, answers: self.answers }
    }

    /// The verdict on choosing the answer at `answer_index`: the choice is
    /// correct exactly when it is the position of the correct answer, and an
    /// index that names no choice is rejected. The texts of the answers play
    /// no part, so two choices with the same text stay distinct.
    pub open spec fn verdict(self, answer_index: nat) -> Result<bool, QuizError> {
        if answer_index < self.answers.len() {
            Ok(answer_index == self.correct_index)
        } else {
            Err(QuizError::IndexOutOfRange)
        }
    }
}

impl Question {
    /// A question with the given text, choices and position of the correct
    /// choice.
    pub fn new(question: &str, answers: Vec<&str>, correct: usize) -> (q: Question)
        ensures
            q@ == (QuestionView {
                text: question@,
                answers: slice_texts(answers@),
                correct_index: correct as nat,
            }),
            q@.well_formed() <==> correct < answers@.len(),
    {
        let mut owned: Vec<String> = Vec::new();
        let mut i: usize = 0;
        while i < answers.len()
            invariant
                i <= answers@.len(),
                owned@.len() == i,
                forall|k: int| 0 <= k < i ==> (#[trigger] owned@[k])@ == answers@[k]@,
            decreases answers@.len() - i,
        {
            owned.push(answers[i].to_owned());
            i += 1;
        }
        assert(texts(owned@) =~= slice_texts(answers@));
        Question { question: question.to_owned(), answers: owned, correct_index: correct }
    }

    /// Decides whether the answer at `answer_index` is the correct one.
    pub fn evaluate(&self, answer_index: usize) -> (verdict: Result<bool, QuizError>)
        ensures
            verdict == self@.verdict(answer_index as nat),
    {
        if answer_index < self.answers.len() {
            Ok(answer_index == self.correct_index)
        } else {
            Err(QuizError::IndexOutOfRange)
        }
    }

    /// This question as a client sees it.
    pub fn shown(&self) -> (shown: UIQuestion)
        ensures
            shown@ == self@.shown(),
    {
        let mut answers: Vec<String> = Vec::new();
        let mut i: usize = 0;
        while i < self.answers.len()
            invariant
                i <= self.answers@.len(),
                answers@.len() == i,
                forall|k: int| 0 <= k < i ==> (#[trigger] answers@[k])@ == self.answers@[k]@,
            decreases self.answers@.len() - i,
        {
            answers.push(self.answers[i].clone());
            i += 1;
        }
        assert(texts(answers@) =~= texts(self.answers@));
        UIQuestion { question: self.question.clone(), answers }
    }
}

impl From<Question> for UIQuestion {
    fn from(value: Question) -> (shown: UIQuestion) {
        UIQuestion { question: value.question, answers: value.answers }
    }
}

impl FromSpecImpl<Question> for UIQuestion {
    open spec fn obeys_from_spec() -> bool {
        true
    }

    open spec fn from_spec(value: Question) -> UIQuestion {
        UIQuestion { question: value.question, answers: value.answers }
    }
}

} // verus!
