//! Quiz data model: a question, its answer choices, and the correct-answer
//! key, together with the mathematical views the contracts are stated over.

use vstd::prelude::*;

verus! {

/// One answer choice: a short identifying letter, a display text, and an
/// optional path to an image shown in place of the text.
#[derive(Debug, Clone)]
pub struct Answer {
    pub letter: String,
    pub text: String,
    pub image: Option<String>,
}

/// A single question with its ordered answer choices.  `correct_answer` is
/// meant to match the `letter` of exactly one choice; a letter that matches
/// no choice is not rejected, it simply means no selection ever scores
/// correct for this question.
#[derive(Debug, Clone)]
pub struct Quiz {
    pub question: String,
    pub answers: Vec<Answer>,
    pub correct_answer: String,
}

/// The contents of one quiz file: an ordered list of questions.
#[derive(Debug)]
pub struct QuizFile {
    pub questions: Vec<Quiz>,
}

/// Model of an [`Answer`]: every string as its character sequence.
#[verifier::ext_equal]
pub struct AnswerV {
    pub letter: Seq<char>,
    pub text: Seq<char>,
    pub image: Option<Seq<char>>,
}

/// Model of a [`Quiz`].
#[verifier::ext_equal]
pub struct QuizV {
    pub question: Seq<char>,
    pub answers: Seq<AnswerV>,
    pub correct_answer: Seq<char>,
}

impl View for Answer {
    type V = AnswerV;

    open spec fn view(&self) -> AnswerV {
        AnswerV {
            letter: self.letter@,
            text: self.text@,
            image: match self.image {
                Some(p) => Some(p@),
                None => None,
            },
        }
    }
}

impl View for Quiz {
    type V = QuizV;

    open spec fn view(&self) -> QuizV {
        QuizV {
            question: self.question@,
            answers: self.answers@.map_values(|a: Answer| a@),
            correct_answer: self.correct_answer@,
        }
    }
}

impl View for QuizFile {
    type V = Seq<QuizV>;

    open spec fn view(&self) -> Seq<QuizV> {
        self.questions@.map_values(|q: Quiz| q@)
    }
}

/// The model of a list of questions.
pub open spec fn quizzes_view(qs: Seq<Quiz>) -> Seq<QuizV> {
    qs.map_values(|q: Quiz| q@)
}

/// The model of a per-question answer record: each slot holds the letter the
/// user last chose for that question, or nothing.
pub open spec fn answers_view(ans: Seq<Option<String>>) -> Seq<Option<Seq<char>>> {
    ans.map_values(
        |a: Option<String>|
            match a {
                Some(l) => Some(l@),
                None => None,
            },
    )
}

/// A recorded answer scores a point exactly when it is present and equals
/// the question's correct-answer letter; an empty slot never scores.
pub open spec fn answer_is_correct(q: QuizV, a: Option<Seq<char>>) -> bool {
    match a {
        Some(l) => l == q.correct_answer,
        None => false,
    }
}

/// The score of a quiz run: the count of indices whose recorded answer
/// letter equals the question's correct-answer letter.
pub open spec fn spec_score(qs: Seq<QuizV>, ans: Seq<Option<Seq<char>>>) -> nat
    decreases qs.len(),
{
    if qs.len() == 0 || ans.len() == 0 {
        0
    } else {
        spec_score(qs.drop_last(), ans.drop_last()) + (if answer_is_correct(
            qs.last(),
            ans.last(),
        ) {
            1nat
        } else {
            0nat
        })
    }
}

proof fn lemma_spec_score_step(qs: Seq<QuizV>, ans: Seq<Option<Seq<char>>>, i: int)
    requires
        qs.len() == ans.len(),
        0 <= i < qs.len(),
    ensures
        spec_score(qs.take(i + 1), ans.take(i + 1)) == spec_score(qs.take(i), ans.take(i)) + (
        if answer_is_correct(qs[i], ans[i]) {
            1nat
        } else {
            0nat
        }),
{
    assert(qs.take(i + 1).drop_last() =~= qs.take(i));
    assert(ans.take(i + 1).drop_last() =~= ans.take(i));
}

/// Unanswered slots contribute nothing: a run in which no answer was ever
/// recorded scores zero, however many questions there are.
pub proof fn lemma_score_all_unanswered(qs: Seq<QuizV>, ans: Seq<Option<Seq<char>>>)
    requires
        forall|i: int| 0 <= i < ans.len() ==> ans[i] is None,
    ensures
        spec_score(qs, ans) == 0,
    decreases qs.len(),
{
    if qs.len() > 0 && ans.len() > 0 {
        lemma_score_all_unanswered(qs.drop_last(), ans.drop_last());
    }
}

/// Counts the questions whose recorded answer is exactly the correct letter.
/// Unanswered slots contribute nothing.
pub fn compute_score(questions: &Vec<Quiz>, answers: &Vec<Option<String>>) -> (score: usize)
    requires
        questions@.len() == answers@.len(),
    ensures
        score == spec_score(quizzes_view(questions@), answers_view(answers@)),
        score <= questions@.len(),
{
    let ghost qs = quizzes_view(questions@);
    let ghost ans = answers_view(answers@);
    let mut score: usize = 0;
    let mut i: usize = 0;
    while i < questions.len()
        invariant
            questions@.len() == answers@.len(),
            i <= questions@.len(),
            qs == quizzes_view(questions@),
            ans == answers_view(answers@),
            score == spec_score(qs.take(i as int), ans.take(i as int)),
            score <= i,
        decreases questions@.len() - i,
    {
        let correct = match &answers[i] {
            Some(l) => *l == questions[i].correct_answer,
            None => false,
        };
        if correct {
            score = score + 1;
        }
        proof {
            lemma_spec_score_step(qs, ans, i as int);
        }
        i = i + 1;
    }
    proof {
        assert(qs.take(questions@.len() as int) =~= qs);
        assert(ans.take(answers@.len() as int) =~= ans);
    }
    score
}

} // verus!
