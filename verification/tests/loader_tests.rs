use quiz_app::models::Answer;
use quiz_app::models::Quiz;
use quiz_app::models::QuizFile;
use quiz_app::models::compute_score;
use quiz_app::quiz_loader::default_questions;
use quiz_app::quiz_loader::display_name;
use quiz_app::quiz_loader::is_quiz_file_name;
use quiz_app::quiz_loader::load_quiz_list;
use quiz_app::quiz_loader::load_quizzes;
use quiz_app::text::str_ends_with;
use quiz_app::text::str_leq;
use quiz_app::text::strip_suffix_repeated;

fn names(list: &[&str]) -> Vec<String> {
    list.iter().map(|s| s.to_string()).collect()
}

#[test]
fn missing_quiz_file_falls_back_to_default() {
    let qs = load_quizzes(None);
    assert_eq!(qs.len(), 1);
    let q = &qs[0];
    assert_eq!(q.question, "Question par défaut ?");
    assert_eq!(q.correct_answer, "A");
    assert_eq!(q.answers.len(), 4);
    let letters: Vec<&str> = q.answers.iter().map(|a| a.letter.as_str()).collect();
    assert_eq!(letters, vec!["A", "B", "C", "D"]);
    let texts: Vec<&str> = q.answers.iter().map(|a| a.text.as_str()).collect();
    assert_eq!(texts, vec!["Réponse A", "Réponse B", "Réponse C", "Réponse D"]);
    assert!(q.answers.iter().all(|a| a.image.is_none()));
}

#[test]
fn default_questions_match_fallback() {
    let d = default_questions();
    let via_loader = load_quizzes(None);
    assert_eq!(d.len(), via_loader.len());
    assert_eq!(d[0].question, via_loader[0].question);
    assert_eq!(d[0].correct_answer, via_loader[0].correct_answer);
}

#[test]
fn parsed_file_is_taken_as_is() {
    let file = QuizFile {
        questions: vec![Quiz {
            question: "capital?".to_string(),
            answers: vec![Answer {
                letter: "A".to_string(),
                text: "Paris".to_string(),
                image: None,
            }],
            correct_answer: "A".to_string(),
        }],
    };
    let qs = load_quizzes(Some(file));
    assert_eq!(qs.len(), 1);
    assert_eq!(qs[0].question, "capital?");
}

#[test]
fn listing_is_sorted_and_filtered() {
    let listing = load_quiz_list(names(&["b.yaml", "a.txt", "c.yaml"]));
    assert_eq!(listing, names(&["a.txt", "b.yaml", "c.yaml"]));
}

#[test]
fn listing_drops_unrecognized_extensions() {
    let listing = load_quiz_list(names(&["notes.md", "z.yaml", "pic.png", "a.txt", "x"]));
    assert_eq!(listing, names(&["a.txt", "z.yaml"]));
}

#[test]
fn listing_orders_prefix_first() {
    let listing = load_quiz_list(names(&["abc.txt", "ab.txt", "abcd.txt"]));
    assert_eq!(listing, names(&["ab.txt", "abc.txt", "abcd.txt"]));
}

#[test]
fn quiz_file_name_recognition() {
    assert!(is_quiz_file_name("history.yaml"));
    assert!(is_quiz_file_name("history.txt"));
    assert!(!is_quiz_file_name("history.yml"));
    assert!(!is_quiz_file_name("history"));
}

#[test]
fn display_name_strips_extensions() {
    assert_eq!(display_name("history.yaml"), "history");
    assert_eq!(display_name("notes.txt"), "notes");
    assert_eq!(display_name("plain"), "plain");
    assert_eq!(display_name("double.txt.txt"), "double");
    assert_eq!(display_name("both.yaml.txt"), "both");
    assert_eq!(display_name("keep.txt.yaml"), "keep.txt");
}

#[test]
fn strip_suffix_removes_every_trailing_occurrence() {
    assert_eq!(strip_suffix_repeated("a.txt.txt", ".txt"), "a");
    assert_eq!(strip_suffix_repeated("a.txt.yaml", ".txt"), "a.txt.yaml");
}

#[test]
fn string_order_is_lexicographic() {
    assert!(str_leq("a", "b"));
    assert!(!str_leq("b", "a"));
    assert!(str_leq("ab", "abc"));
    assert!(str_leq("same", "same"));
}

#[test]
fn ends_with_checks_the_tail() {
    assert!(str_ends_with("quiz.yaml", ".yaml"));
    assert!(!str_ends_with("quiz.yaml", ".txt"));
    assert!(!str_ends_with("ml", ".yaml"));
}

#[test]
fn compute_score_counts_index_wise_matches() {
    let quiz = |correct: &str| Quiz {
        question: "q?".to_string(),
        answers: vec![
            Answer { letter: "A".to_string(), text: "a".to_string(), image: None },
            Answer { letter: "B".to_string(), text: "b".to_string(), image: None },
        ],
        correct_answer: correct.to_string(),
    };
    let questions = vec![quiz("A"), quiz("B"), quiz("A"), quiz("B")];
    let answers = vec![
        Some("A".to_string()),
        Some("A".to_string()),
        None,
        Some("B".to_string()),
    ];
    assert_eq!(compute_score(&questions, &answers), 2);
}
