//! Application state: the active quiz, the current question, the user's
//! recorded answers, and the screen flags, together with the transitions the
//! interface triggers and the laws they obey.

use vstd::prelude::*;
use vstd::string::StringExecFns;
use crate::models::AnswerV;
use crate::models::Quiz;
use crate::models::QuizFile;
use crate::models::QuizV;
use crate::models::answer_is_correct;
use crate::models::compute_score;
use crate::models::spec_score;
use crate::quiz_loader::is_default_quiz;
use crate::quiz_loader::load_quizzes;
use crate::quiz_loader::names_view;

verus! {

/// Which screen the interface draws on the next frame.
#[derive(Clone, Copy, Debug, PartialEq, Eq, Structural)]
pub enum Screen {
    SelectingQuiz,
    AnsweringQuiz,
    ShowingResults,
}

/// The full application state.
pub struct MyApp {
    pub questions: Vec<Quiz>,
    pub current_question_index: usize,
    pub selected_answer: Option<usize>,
    pub user_answers: Vec<Option<String>>,
    pub show_results: bool,
    pub quiz_path: String,
    pub quiz_files: Vec<String>,
    pub show_quiz_selection: bool,
    pub quizzes_dir: String,
}

/// Model of [`MyApp`].
#[verifier::ext_equal]
pub struct AppV {
    pub questions: Seq<QuizV>,
    pub current_question_index: int,
    pub selected_answer: Option<int>,
    pub user_answers: Seq<Option<Seq<char>>>,
    pub show_results: bool,
    pub quiz_path: Seq<char>,
    pub quiz_files: Seq<Seq<char>>,
    pub show_quiz_selection: bool,
    pub quizzes_dir: Seq<char>,
}

impl View for MyApp {
    type V = AppV;

    open spec fn view(&self) -> AppV {
        AppV {
            questions: self.questions@.map_values(|q: Quiz| q@),
            current_question_index: self.current_question_index as int,
            selected_answer: match self.selected_answer {
                Some(i) => Some(i as int),
                None => None,
            },
            user_answers: self.user_answers@.map_values(
                |a: Option<String>|
                    match a {
                        Some(l) => Some(l@),
                        None => None,
                    },
            ),
            show_results: self.show_results,
            quiz_path: self.quiz_path@,
            quiz_files: self.quiz_files@.map_values(|s: String| s@),
            show_quiz_selection: self.show_quiz_selection,
            quizzes_dir: self.quizzes_dir@,
        }
    }
}

impl AppV {
    /// Well-formedness: one answer slot per question, and the current index
    /// stays inside the quiz (at zero while no quiz is loaded).
    pub open spec fn wf(self) -> bool {
        &&& self.user_answers.len() == self.questions.len()
        &&& self.questions.len() > 0 ==> 0 <= self.current_question_index
            < self.questions.len()
        &&& self.questions.len() == 0 ==> self.current_question_index == 0
    }

    /// The answer choices of the question currently on screen.
    pub open spec fn current_answers(self) -> Seq<AnswerV> {
        self.questions[self.current_question_index].answers
    }
}

/// No answer has been recorded for any question.
pub open spec fn all_unanswered(s: AppV) -> bool {
    &&& s.user_answers.len() == s.questions.len()
    &&& forall|i: int| 0 <= i < s.user_answers.len() ==> s.user_answers[i] is None
}

/// What a freshly loaded quiz's questions are: the parsed file's own when
/// parsing succeeded, the built-in default quiz otherwise.
pub open spec fn loaded_questions(parsed: Option<QuizFile>, qs: Seq<QuizV>) -> bool {
    match parsed {
        Some(f) => qs == f@,
        None => is_default_quiz(qs),
    }
}

/// Recording a click on answer `a` of the current question: the choice is
/// highlighted and its letter overwrites the slot of the current question.
pub open spec fn spec_select(s: AppV, a: int) -> AppV {
    AppV {
        selected_answer: Some(a),
        user_answers: s.user_answers.update(
            s.current_question_index,
            Some(s.current_answers()[a].letter),
        ),
        ..s
    }
}

/// Moving to the previous question clears the highlight; at the first
/// question it does nothing.
pub open spec fn spec_previous(s: AppV) -> AppV {
    if s.current_question_index > 0 {
        AppV {
            current_question_index: s.current_question_index - 1,
            selected_answer: None,
            ..s
        }
    } else {
        s
    }
}

/// The forward action: before the last question it moves on and clears the
/// highlight; at the last question it finishes and shows the results.
pub open spec fn spec_advance(s: AppV) -> AppV {
    if s.current_question_index + 1 < s.questions.len() {
        AppV {
            current_question_index: s.current_question_index + 1,
            selected_answer: None,
            ..s
        }
    } else {
        AppV { show_results: true, ..s }
    }
}

/// The first answer choice carrying the given letter, if any.
pub open spec fn find_letter(answers: Seq<AnswerV>, letter: Seq<char>) -> Option<int>
    decreases answers.len(),
{
    if answers.len() == 0 {
        None
    } else if answers[0].letter == letter {
        Some(0)
    } else {
        match find_letter(answers.drop_first(), letter) {
            Some(i) => Some(i + 1),
            None => None,
        }
    }
}

/// Re-entering a question restores the highlight: when nothing is
/// highlighted and the current question has a recorded letter, the first
/// choice with that letter becomes the highlighted selection.
pub open spec fn spec_restore(s: AppV) -> AppV {
    if s.selected_answer is None && s.questions.len() > 0 {
        match s.user_answers[s.current_question_index] {
            Some(l) => match find_letter(s.current_answers(), l) {
                Some(i) => AppV { selected_answer: Some(i), ..s },
                None => s,
            },
            None => s,
        }
    } else {
        s
    }
}

/// Leaving the results screen for the selection screen; the quiz list is kept.
pub open spec fn spec_choose_another(s: AppV) -> AppV {
    AppV { show_quiz_selection: true, show_results: false, ..s }
}

/// Which screen a state draws: the selection screen takes precedence, then
/// the results screen, else the question screen.
pub open spec fn spec_screen(s: AppV) -> Screen {
    if s.show_quiz_selection {
        Screen::SelectingQuiz
    } else if s.show_results {
        Screen::ShowingResults
    } else {
        Screen::AnsweringQuiz
    }
}

fn make_unanswered(n: usize) -> (v: Vec<Option<String>>)
    ensures
        v@.len() == n,
        forall|i: int| 0 <= i < n ==> v@[i] is None,
{
    let mut v: Vec<Option<String>> = Vec::new();
    let mut i: usize = 0;
    while i < n
        invariant
            i <= n,
            v@.len() == i,
            forall|k: int| 0 <= k < i ==> v@[k] is None,
        decreases n - i,
    {
        v.push(None);
        i = i + 1;
    }
    v
}

/// Joins a directory and a file name with a single separator.
pub fn join_path(dir: &str, name: &str) -> (r: String)
    ensures
        r@ == dir@ + "/"@ + name@,
{
    let mut r = dir.to_owned();
    r.append("/");
    r.append(name);
    r
}

/// The quiz file to load before anything is shown: with exactly one quiz
/// file on offer, that file; with several, none (the selection screen comes
/// first); with none at all, the configured quiz path itself.
pub fn initial_quiz_path(quiz_path: &str, quizzes_dir: &str, quiz_files: &Vec<String>) -> (r: Option<
    String,
>)
    ensures
        quiz_files@.len() == 1 ==> (r matches Some(p) && p@ == quizzes_dir@ + "/"@
            + quiz_files@[0]@),
        quiz_files@.len() > 1 ==> r is None,
        quiz_files@.len() == 0 ==> (r matches Some(p) && p@ == quiz_path@),
{
    if quiz_files.len() == 1 {
        Some(join_path(quizzes_dir, quiz_files[0].as_str()))
    } else if quiz_files.len() > 1 {
        None
    } else {
        Some(quiz_path.to_owned())
    }
}

impl MyApp {
    /// The starting state: with more than one quiz file on offer the
    /// selection screen is shown and no quiz is loaded; otherwise the quiz
    /// in `parsed` (or, failing that, the built-in default) is loaded, at
    /// its first question, with every slot unanswered.
    pub fn new(quiz_path: &str, quizzes_dir: &str, quiz_files: Vec<String>, parsed: Option<
        QuizFile,
    >) -> (app: MyApp)
        ensures
            app@.wf(),
            app@.current_question_index == 0,
            app@.selected_answer is None,
            app@.show_results == false,
            app@.show_quiz_selection == (quiz_files@.len() > 1),
            app@.quiz_path == quiz_path@,
            app@.quizzes_dir == quizzes_dir@,
            app@.quiz_files == names_view(quiz_files@),
            quiz_files@.len() > 1 ==> app@.questions.len() == 0,
            quiz_files@.len() <= 1 ==> loaded_questions(parsed, app@.questions),
            all_unanswered(app@),
    {
        let show_quiz_selection = quiz_files.len() > 1;
        let questions: Vec<Quiz> = if show_quiz_selection {
            Vec::new()
        } else {
            load_quizzes(parsed)
        };
        let user_answers = make_unanswered(questions.len());
        MyApp {
            questions,
            current_question_index: 0,
            selected_answer: None,
            user_answers,
            show_results: false,
            quiz_path: quiz_path.to_owned(),
            quiz_files,
            show_quiz_selection,
            quizzes_dir: quizzes_dir.to_owned(),
        }
    }

    /// Replaces the active quiz by the named file's: the new questions come
    /// in with every slot unanswered, the state returns to the first
    /// question of the question screen, and the path of the active quiz
    /// becomes the file's path under the quiz directory.
    pub fn load_selected_quiz(&mut self, filename: &str, parsed: Option<QuizFile>)
        ensures
            final(self)@.wf(),
            loaded_questions(parsed, final(self)@.questions),
            all_unanswered(final(self)@),
            final(self)@.current_question_index == 0,
            final(self)@.selected_answer is None,
            final(self)@.show_results == false,
            final(self)@.show_quiz_selection == false,
            final(self)@.quiz_path == old(self)@.quizzes_dir + "/"@ + filename@,
            final(self)@.quizzes_dir == old(self)@.quizzes_dir,
            final(self)@.quiz_files == old(self)@.quiz_files,
    {
        let path = join_path(self.quizzes_dir.as_str(), filename);
        self.questions = load_quizzes(parsed);
        self.user_answers = make_unanswered(self.questions.len());
        self.current_question_index = 0;
        self.selected_answer = None;
        self.show_results = false;
        self.show_quiz_selection = false;
        self.quiz_path = path;
    }

    /// Records a click on answer choice `answer_index` of the current
    /// question: last write wins, the slot keeps exactly this letter.
    pub fn select_answer(&mut self, answer_index: usize)
        requires
            old(self)@.wf(),
            old(self)@.questions.len() > 0,
            answer_index < old(self)@.current_answers().len(),
        ensures
            final(self)@ == spec_select(old(self)@, answer_index as int),
            final(self)@.wf(),
    {
        let idx = self.current_question_index;
        let letter = self.questions[idx].answers[answer_index].letter.clone();
        self.selected_answer = Some(answer_index);
        self.user_answers[idx] = Some(letter);
        proof {
            assert(self@.user_answers =~= spec_select(old(self)@, answer_index as int).user_answers);
            assert(self@ =~= spec_select(old(self)@, answer_index as int));
        }
    }

    /// Moves to the previous question and clears the highlight; at the
    /// first question this is a no-op, the index never goes below zero.
    pub fn go_previous(&mut self)
        requires
            old(self)@.wf(),
        ensures
            final(self)@ == spec_previous(old(self)@),
            final(self)@.wf(),
            old(self)@.current_question_index == 0 ==> final(self)@ == old(self)@,
    {
        if self.current_question_index > 0 {
            self.current_question_index = self.current_question_index - 1;
            self.selected_answer = None;
            proof {
                assert(self@ =~= spec_previous(old(self)@));
            }
        } else {
            proof {
                assert(self@ =~= spec_previous(old(self)@));
            }
        }
    }

    /// The forward action of the question screen: before the last question
    /// it moves to the next one; at the last question it finishes the quiz,
    /// never stepping past the end.
    pub fn advance(&mut self)
        requires
            old(self)@.wf(),
            old(self)@.questions.len() > 0,
        ensures
            final(self)@ == spec_advance(old(self)@),
            final(self)@.wf(),
            old(self)@.current_question_index == old(self)@.questions.len() - 1 ==> (
            final(self)@.show_results && final(self)@.current_question_index == old(
                self,
            )@.current_question_index),
    {
        let n = self.questions.len();
        proof {
            assert(self.questions@.len() == self@.questions.len());
        }
        if self.current_question_index + 1 < n {
            self.current_question_index = self.current_question_index + 1;
            self.selected_answer = None;
            proof {
                assert(self@ =~= spec_advance(old(self)@));
            }
        } else {
            self.show_results = true;
            proof {
                assert(self@ =~= spec_advance(old(self)@));
            }
        }
    }

    /// Restores the highlight on re-entering a question: when none is set
    /// and a letter is recorded for the current question, the first answer
    /// choice with that letter is highlighted; otherwise nothing changes.
    pub fn restore_selection(&mut self)
        requires
            old(self)@.wf(),
            old(self)@.questions.len() > 0,
        ensures
            final(self)@ == spec_restore(old(self)@),
            final(self)@.wf(),
    {
        if self.selected_answer.is_some() {
            return ;
        }
        let idx = self.current_question_index;
        let letter: String = match &self.user_answers[idx] {
            Some(l) => l.clone(),
            None => {
                return ;
            },
        };
        let ghost answers = old(self)@.current_answers();
        let n = self.questions[idx].answers.len();
        let mut i: usize = 0;
        while i < n
            invariant
                *self == *old(self),
                old(self)@.wf(),
                old(self)@.questions.len() > 0,
                idx == old(self)@.current_question_index,
                answers == old(self)@.current_answers(),
                n == answers.len(),
                i <= n,
                old(self)@.user_answers[idx as int] == Some(letter@),
                old(self)@.selected_answer is None,
                forall|k: int| 0 <= k < i ==> (#[trigger] answers[k]).letter != letter@,
            decreases n - i,
        {
            if self.questions[idx].answers[i].letter == letter {
                self.selected_answer = Some(i);
                proof {
                    lemma_find_letter_first(answers, letter@, i as int);
                    assert(self@ =~= spec_restore(old(self)@));
                }
                return ;
            }
            i = i + 1;
        }
        proof {
            lemma_find_letter_none(answers, letter@);
        }
    }

    /// Leaves the results screen for the quiz selection screen, keeping the
    /// list of quiz files and everything else as it is.
    pub fn choose_another_quiz(&mut self)
        ensures
            final(self)@ == spec_choose_another(old(self)@),
    {
        self.show_quiz_selection = true;
        self.show_results = false;
        proof {
            assert(self@ =~= spec_choose_another(old(self)@));
        }
    }

    /// The screen to draw for this state.
    pub fn current_screen(&self) -> (r: Screen)
        ensures
            r == spec_screen(self@),
    {
        if self.show_quiz_selection {
            Screen::SelectingQuiz
        } else if self.show_results {
            Screen::ShowingResults
        } else {
            Screen::AnsweringQuiz
        }
    }

    /// The score of the run: how many recorded letters equal the correct one.
    pub fn score(&self) -> (s: usize)
        requires
            self@.wf(),
        ensures
            s == spec_score(self@.questions, self@.user_answers),
            s <= self@.questions.len(),
    {
        compute_score(&self.questions, &self.user_answers)
    }

    /// Whether question `i` was answered with its correct letter.
    pub fn question_is_correct(&self, i: usize) -> (r: bool)
        requires
            self@.wf(),
            i < self@.questions.len(),
        ensures
            r == answer_is_correct(self@.questions[i as int], self@.user_answers[i as int]),
    {
        match &self.user_answers[i] {
            Some(l) => *l == self.questions[i].correct_answer,
            None => false,
        }
    }
}

proof fn lemma_find_letter_first(answers: Seq<AnswerV>, letter: Seq<char>, i: int)
    requires
        0 <= i < answers.len(),
        answers[i].letter == letter,
        forall|k: int| 0 <= k < i ==> (#[trigger] answers[k]).letter != letter,
    ensures
        find_letter(answers, letter) == Some(i),
    decreases i,
{
    if i > 0 {
        lemma_find_letter_first(answers.drop_first(), letter, i - 1);
    }
}

proof fn lemma_find_letter_none(answers: Seq<AnswerV>, letter: Seq<char>)
    requires
        forall|k: int| 0 <= k < answers.len() ==> (#[trigger] answers[k]).letter != letter,
    ensures
        find_letter(answers, letter) is None,
    decreases answers.len(),
{
    if answers.len() > 0 {
        lemma_find_letter_none(answers.drop_first(), letter);
    }
}

/// What [`find_letter`] finds: the first choice with the letter, if one exists.
pub proof fn lemma_find_letter_ensures(answers: Seq<AnswerV>, letter: Seq<char>)
    ensures
        match find_letter(answers, letter) {
            Some(r) => 0 <= r < answers.len() && answers[r].letter == letter && (forall|k: int|
                0 <= k < r ==> (#[trigger] answers[k]).letter != letter),
            None => forall|k: int|
                0 <= k < answers.len() ==> (#[trigger] answers[k]).letter != letter,
        },
    decreases answers.len(),
{
    if answers.len() > 0 {
        lemma_find_letter_ensures(answers.drop_first(), letter);
        if answers[0].letter != letter {
            match find_letter(answers.drop_first(), letter) {
                Some(r0) => {
                    assert forall|k: int| 0 <= k < r0 + 1 implies (#[trigger] answers[k]).letter
                        != letter by {
                        if k > 0 {
                            assert(answers.drop_first()[k - 1] == answers[k]);
                        }
                    }
                },
                None => {
                    assert forall|k: int|
                        0 <= k < answers.len() implies (#[trigger] answers[k]).letter != letter by {
                        if k > 0 {
                            assert(answers.drop_first()[k - 1] == answers[k]);
                        }
                    }
                },
            }
        }
    }
}

/// Last write wins: selecting answer `b` and then answer `c` for the same
/// question leaves the state exactly as selecting `c` alone would; only the
/// second letter stays recorded.
pub proof fn lemma_select_last_write_wins(s: AppV, b: int, c: int)
    requires
        s.wf(),
        s.questions.len() > 0,
        0 <= b < s.current_answers().len(),
        0 <= c < s.current_answers().len(),
    ensures
        spec_select(spec_select(s, b), c) == spec_select(s, c),
{
    assert(spec_select(spec_select(s, b), c).user_answers =~= spec_select(s, c).user_answers);
    assert(spec_select(spec_select(s, b), c) =~= spec_select(s, c));
}

/// A selection survives navigation: after selecting answer `a`, moving to
/// the next question and coming back, the restored highlight is a choice
/// with the very letter of `a`, and never an earlier one with it.
pub proof fn lemma_selection_restored(s: AppV, a: int)
    requires
        s.wf(),
        s.current_question_index + 1 < s.questions.len(),
        0 <= a < s.current_answers().len(),
    ensures
        ({
            let t = spec_restore(spec_previous(spec_advance(spec_select(s, a))));
            &&& t.current_question_index == s.current_question_index
            &&& match t.selected_answer {
                Some(r) => {
                    &&& 0 <= r <= a
                    &&& s.current_answers()[r].letter == s.current_answers()[a].letter
                },
                None => false,
            }
        }),
{
    let answers = s.current_answers();
    let letter = answers[a].letter;
    let t0 = spec_previous(spec_advance(spec_select(s, a)));
    assert(t0.current_question_index == s.current_question_index);
    assert(t0.user_answers[t0.current_question_index] == Some(letter));
    lemma_find_letter_ensures(answers, letter);
    match find_letter(answers, letter) {
        Some(r) => {
            assert(r <= a);
        },
        None => {
            assert(answers[a].letter == letter);
        },
    }
}

/// With pairwise-distinct answer letters the restored highlight is the very
/// answer that was selected before navigating away.
pub proof fn lemma_selection_restored_distinct(s: AppV, a: int)
    requires
        s.wf(),
        s.current_question_index + 1 < s.questions.len(),
        0 <= a < s.current_answers().len(),
        forall|i: int, j: int|
            0 <= i < j < s.current_answers().len() ==> (#[trigger] s.current_answers()[i]).letter
                != (#[trigger] s.current_answers()[j]).letter,
    ensures
        spec_restore(spec_previous(spec_advance(spec_select(s, a)))).selected_answer == Some(a),
{
    lemma_selection_restored(s, a);
    let t = spec_restore(spec_previous(spec_advance(spec_select(s, a))));
    match t.selected_answer {
        Some(r) => {
            if r < a {
                assert(s.current_answers()[r].letter != s.current_answers()[a].letter);
            }
        },
        None => {},
    }
}

} // verus!
