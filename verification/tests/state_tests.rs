use quiz_app::app::MyApp;
use quiz_app::app::Screen;
use quiz_app::app::initial_quiz_path;
use quiz_app::app::join_path;
use quiz_app::models::Answer;
use quiz_app::models::Quiz;
use quiz_app::models::QuizFile;

fn answer(letter: &str, text: &str) -> Answer {
    Answer { letter: letter.to_string(), text: text.to_string(), image: None }
}

fn question(prompt: &str, letters: &[&str], correct: &str) -> Quiz {
    Quiz {
        question: prompt.to_string(),
        answers: letters.iter().map(|l| answer(l, &format!("choice {}", l))).collect(),
        correct_answer: correct.to_string(),
    }
}

fn two_question_app() -> MyApp {
    let file = QuizFile {
        questions: vec![
            question("first?", &["A", "B", "C"], "B"),
            question("second?", &["A", "B"], "A"),
        ],
    };
    MyApp::new("Quizzes/two.yaml", "Quizzes", Vec::new(), Some(file))
}

#[test]
fn selection_restored_after_navigation() {
    let mut app = two_question_app();
    app.select_answer(1);
    app.advance();
    assert_eq!(app.current_question_index, 1);
    assert_eq!(app.selected_answer, None);
    app.go_previous();
    assert_eq!(app.current_question_index, 0);
    assert_eq!(app.selected_answer, None);
    app.restore_selection();
    assert_eq!(app.selected_answer, Some(1));
}

#[test]
fn last_write_wins_only_final_choice_recorded() {
    let mut app = two_question_app();
    app.select_answer(1);
    assert_eq!(app.user_answers[0].as_deref(), Some("B"));
    app.select_answer(2);
    assert_eq!(app.user_answers[0].as_deref(), Some("C"));
    assert!(app.user_answers.iter().flatten().all(|l| l.as_str() != "B"));
}

#[test]
fn previous_at_first_question_is_a_noop() {
    let mut app = two_question_app();
    app.go_previous();
    assert_eq!(app.current_question_index, 0);
    assert_eq!(app.current_screen(), Screen::AnsweringQuiz);
}

#[test]
fn advance_at_last_question_finishes() {
    let mut app = two_question_app();
    app.advance();
    assert_eq!(app.current_question_index, 1);
    app.advance();
    assert_eq!(app.current_question_index, 1);
    assert!(app.show_results);
    assert_eq!(app.current_screen(), Screen::ShowingResults);
}

#[test]
fn unanswered_single_question_scores_zero() {
    let file = QuizFile { questions: vec![question("only?", &["A", "B", "C", "D"], "A")] };
    let mut app = MyApp::new("Quizzes/one.yaml", "Quizzes", Vec::new(), Some(file));
    app.advance();
    assert_eq!(app.current_screen(), Screen::ShowingResults);
    let score = app.score();
    let total = app.questions.len();
    assert_eq!(score, 0);
    assert_eq!(total, 1);
    let percentage = (score as f32 / total as f32) * 100.0;
    assert_eq!(percentage, 0.0);
}

#[test]
fn score_counts_exact_matches() {
    let file = QuizFile {
        questions: vec![
            question("q1?", &["A", "B"], "A"),
            question("q2?", &["A", "B"], "B"),
            question("q3?", &["A", "B"], "A"),
        ],
    };
    let mut app = MyApp::new("Quizzes/three.yaml", "Quizzes", Vec::new(), Some(file));
    app.select_answer(0);
    app.advance();
    app.select_answer(0);
    app.advance();
    app.advance();
    assert!(app.show_results);
    assert_eq!(app.score(), 1);
    assert!(app.question_is_correct(0));
    assert!(!app.question_is_correct(1));
    assert!(!app.question_is_correct(2));
}

#[test]
fn mismatched_correct_letter_never_scores() {
    let file = QuizFile { questions: vec![question("odd?", &["A", "B"], "Z")] };
    let mut app = MyApp::new("Quizzes/odd.yaml", "Quizzes", Vec::new(), Some(file));
    app.select_answer(0);
    app.advance();
    assert_eq!(app.score(), 0);
}

#[test]
fn restore_without_recorded_answer_changes_nothing() {
    let mut app = two_question_app();
    app.restore_selection();
    assert_eq!(app.selected_answer, None);
}

#[test]
fn new_with_multiple_files_shows_selection_screen() {
    let files = vec!["a.yaml".to_string(), "b.yaml".to_string()];
    let app = MyApp::new("Quizzes", "Quizzes", files.clone(), None);
    assert!(app.show_quiz_selection);
    assert!(app.questions.is_empty());
    assert_eq!(app.quiz_files, files);
    assert_eq!(app.current_screen(), Screen::SelectingQuiz);
}

#[test]
fn load_selected_quiz_resets_state() {
    let mut app = two_question_app();
    app.select_answer(1);
    app.advance();
    app.advance();
    assert!(app.show_results);
    let replacement = QuizFile { questions: vec![question("fresh?", &["A"], "A")] };
    app.load_selected_quiz("fresh.yaml", Some(replacement));
    assert_eq!(app.questions.len(), 1);
    assert_eq!(app.questions[0].question, "fresh?");
    assert_eq!(app.user_answers, vec![None]);
    assert_eq!(app.current_question_index, 0);
    assert_eq!(app.selected_answer, None);
    assert!(!app.show_results);
    assert!(!app.show_quiz_selection);
    assert_eq!(app.quiz_path, "Quizzes/fresh.yaml");
}

#[test]
fn choose_another_quiz_returns_to_selection() {
    let mut app = two_question_app();
    app.advance();
    app.advance();
    assert_eq!(app.current_screen(), Screen::ShowingResults);
    app.choose_another_quiz();
    assert_eq!(app.current_screen(), Screen::SelectingQuiz);
    assert!(!app.show_results);
    assert_eq!(app.questions.len(), 2);
}

#[test]
fn initial_quiz_path_per_file_count() {
    let none: Vec<String> = Vec::new();
    assert_eq!(
        initial_quiz_path("Quizzes/solo.yaml", "Quizzes", &none).as_deref(),
        Some("Quizzes/solo.yaml")
    );
    let one = vec!["solo.yaml".to_string()];
    assert_eq!(
        initial_quiz_path("Quizzes", "Quizzes", &one).as_deref(),
        Some("Quizzes/solo.yaml")
    );
    let many = vec!["a.yaml".to_string(), "b.yaml".to_string()];
    assert_eq!(initial_quiz_path("Quizzes", "Quizzes", &many), None);
}

#[test]
fn join_path_inserts_separator() {
    assert_eq!(join_path("Quizzes", "a.yaml"), "Quizzes/a.yaml");
}
