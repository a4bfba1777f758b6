//! Quiz loading rules: the built-in fallback quiz that stands in for a
//! missing or malformed quiz file, and the filtering and ordering of a quiz
//! directory listing.

use vstd::prelude::*;
use vstd::string::StringExecFns;
use crate::models::Answer;
use crate::models::Quiz;
use crate::models::QuizFile;
use crate::models::QuizV;
use crate::models::quizzes_view;
use crate::text::ends_with;
use crate::text::lex_leq;
use crate::text::strip_all;
use crate::text::strip_suffix_repeated;
use crate::text::lemma_lex_leq_total;
use crate::text::lemma_lex_leq_transitive;
use crate::text::str_ends_with;
use crate::text::str_leq;

verus! {

/// The built-in default quiz: one question with four lettered answers, the
/// first of which is correct.  It is what the loader falls back to whenever
/// a quiz file cannot be read or parsed.
pub open spec fn is_default_quiz(qs: Seq<QuizV>) -> bool {
    &&& qs.len() == 1
    &&& qs[0].question == "Question par défaut ?"@
    &&& qs[0].correct_answer == "A"@
    &&& qs[0].answers.len() == 4
    &&& qs[0].answers[0].letter == "A"@
    &&& qs[0].answers[0].text == "Réponse A"@
    &&& qs[0].answers[0].image is None
    &&& qs[0].answers[1].letter == "B"@
    &&& qs[0].answers[1].text == "Réponse B"@
    &&& qs[0].answers[1].image is None
    &&& qs[0].answers[2].letter == "C"@
    &&& qs[0].answers[2].text == "Réponse C"@
    &&& qs[0].answers[2].image is None
    &&& qs[0].answers[3].letter == "D"@
    &&& qs[0].answers[3].text == "Réponse D"@
    &&& qs[0].answers[3].image is None
}

/// Builds the built-in default quiz.
pub fn default_questions() -> (qs: Vec<Quiz>)
    ensures
        is_default_quiz(quizzes_view(qs@)),
{
    let mut answers: Vec<Answer> = Vec::new();
    answers.push(
        Answer {
            letter: String::from_str("A"),
            text: String::from_str("Réponse A"),
            image: None,
        },
    );
    answers.push(
        Answer {
            letter: String::from_str("B"),
            text: String::from_str("Réponse B"),
            image: None,
        },
    );
    answers.push(
        Answer {
            letter: String::from_str("C"),
            text: String::from_str("Réponse C"),
            image: None,
        },
    );
    answers.push(
        Answer {
            letter: String::from_str("D"),
            text: String::from_str("Réponse D"),
            image: None,
        },
    );
    let quiz = Quiz {
        question: String::from_str("Question par défaut ?"),
        answers,
        correct_answer: String::from_str("A"),
    };
    let mut qs: Vec<Quiz> = Vec::new();
    qs.push(quiz);
    qs
}

/// The questions a quiz file yields: its own when it was read and parsed
/// (`parsed` holds it), the built-in default quiz otherwise.  A read or
/// parse failure is thus never surfaced; the caller always receives
/// renderable content.
pub fn load_quizzes(parsed: Option<QuizFile>) -> (qs: Vec<Quiz>)
    ensures
        parsed matches Some(f) ==> qs@ == f.questions@,
        parsed is None ==> is_default_quiz(quizzes_view(qs@)),
{
    match parsed {
        Some(f) => f.questions,
        None => default_questions(),
    }
}

/// A file name with one of the recognized quiz-file extensions.
pub open spec fn has_quiz_ext(name: Seq<char>) -> bool {
    ends_with(name, ".txt"@) || ends_with(name, ".yaml"@)
}

/// The predicate form of [`has_quiz_ext`], for use with `Seq::filter`.
pub open spec fn quiz_ext_pred() -> spec_fn(Seq<char>) -> bool {
    |name: Seq<char>| has_quiz_ext(name)
}

/// The character sequences of a list of strings.
pub open spec fn names_view(v: Seq<String>) -> Seq<Seq<char>> {
    v.map_values(|s: String| s@)
}

/// A list of names in lexicographic order.
pub open spec fn sorted_names(v: Seq<String>) -> bool {
    forall|i: int, j: int| 0 <= i < j < v.len() ==> lex_leq(#[trigger] v[i]@, #[trigger] v[j]@)
}

/// Tests whether a file name carries a recognized quiz-file extension.
pub fn is_quiz_file_name(name: &str) -> (r: bool)
    ensures
        r == has_quiz_ext(name@),
{
    str_ends_with(name, ".txt") || str_ends_with(name, ".yaml")
}

fn filter_quiz_files(names: &Vec<String>) -> (r: Vec<String>)
    ensures
        names_view(r@) == names_view(names@).filter(quiz_ext_pred()),
{
    let mut r: Vec<String> = Vec::new();
    let mut i: usize = 0;
    proof {
        assert(names_view(names@.take(0)).filter(quiz_ext_pred()) =~= names_view(r@)) by {
            reveal(Seq::filter);
            assert(names_view(names@.take(0)) =~= Seq::empty());
            assert(names_view(r@) =~= Seq::empty());
        }
    }
    while i < names.len()
        invariant
            i <= names@.len(),
            names_view(r@) == names_view(names@.take(i as int)).filter(quiz_ext_pred()),
        decreases names@.len() - i,
    {
        let ghost prefix = names_view(names@.take(i as int));
        let ghost elem = names@[i as int]@;
        proof {
            prefix.lemma_filter_push(elem, quiz_ext_pred());
            assert(names_view(names@.take(i + 1)) =~= prefix.push(elem));
        }
        let ghost r_before = r@;
        if is_quiz_file_name(names[i].as_str()) {
            r.push(names[i].clone());
            proof {
                assert(names_view(r@) =~= names_view(r_before).push(elem));
            }
        }
        i = i + 1;
    }
    proof {
        assert(names@.take(names@.len() as int) =~= names@);
    }
    r
}

/// Inserts `x` into the sorted list `r`, keeping it sorted; the insertion
/// point is the first position whose element does not order at or before `x`.
fn insert_sorted(r: &mut Vec<String>, x: String)
    requires
        sorted_names(old(r)@),
    ensures
        sorted_names(final(r)@),
        names_view(final(r)@).to_multiset() == names_view(old(r)@).to_multiset().insert(x@),
{
    let mut idx: usize = 0;
    while idx < r.len() && str_leq(r[idx].as_str(), x.as_str())
        invariant
            idx <= r@.len(),
            sorted_names(r@),
            r@ == old(r)@,
            forall|k: int| 0 <= k < idx ==> lex_leq(#[trigger] r@[k]@, x@),
        decreases r@.len() - idx,
    {
        idx = idx + 1;
    }
    proof {
        if idx < r@.len() {
            lemma_lex_leq_total(r@[idx as int]@, x@);
        }
        assert forall|j: int| idx <= j < r@.len() implies lex_leq(x@, #[trigger] r@[j]@) by {
            if idx < r@.len() {
                if j > idx {
                    lemma_lex_leq_transitive(x@, r@[idx as int]@, r@[j]@);
                }
            }
        }
    }
    let ghost before = r@;
    r.insert(idx, x);
    proof {
        assert(names_view(r@) =~= names_view(before).insert(idx as int, x@));
        vstd::seq_lib::to_multiset_insert(names_view(before), idx as int, x@);
        assert(sorted_names(r@)) by {
            assert forall|i: int, j: int| 0 <= i < j < r@.len() implies lex_leq(
                #[trigger] r@[i]@,
                #[trigger] r@[j]@,
            ) by {
                if j < idx {
                } else if i < idx && j == idx {
                } else if i < idx && j > idx {
                    assert(r@[j] == before[j - 1]);
                } else if i == idx {
                } else {
                    assert(r@[i] == before[i - 1] && r@[j] == before[j - 1]);
                }
            }
        }
    }
}

/// Sorts a list of names lexicographically; the result holds the same names.
fn sort_names(names: Vec<String>) -> (r: Vec<String>)
    ensures
        sorted_names(r@),
        names_view(r@).to_multiset() == names_view(names@).to_multiset(),
{
    let mut r: Vec<String> = Vec::new();
    let mut i: usize = 0;
    proof {
        assert(names_view(names@.take(0)) =~= Seq::empty());
        assert(names_view(r@) =~= Seq::empty());
        assert(names_view(r@).to_multiset() =~= names_view(names@.take(0)).to_multiset());
    }
    while i < names.len()
        invariant
            i <= names@.len(),
            sorted_names(r@),
            names_view(r@).to_multiset() == names_view(names@.take(i as int)).to_multiset(),
        decreases names@.len() - i,
    {
        let ghost prefix = names_view(names@.take(i as int));
        let x = names[i].clone();
        proof {
            assert(names_view(names@.take(i + 1)) =~= prefix.push(names@[i as int]@));
            vstd::seq_lib::to_multiset_build(prefix, names@[i as int]@);
        }
        insert_sorted(&mut r, x);
        i = i + 1;
    }
    proof {
        assert(names@.take(names@.len() as int) =~= names@);
    }
    r
}

/// The name a quiz file is shown under on the selection screen: its file
/// name with the trailing `.txt` occurrences removed, then the trailing
/// `.yaml` occurrences.
pub fn display_name(file: &str) -> (r: String)
    ensures
        r@ == strip_all(strip_all(file@, ".txt"@), ".yaml"@),
{
    proof {
        reveal_strlit(".txt");
        reveal_strlit(".yaml");
    }
    let step = strip_suffix_repeated(file, ".txt");
    strip_suffix_repeated(step.as_str(), ".yaml")
}

/// The quiz files offered on the selection screen: of the names handed in,
/// those with a recognized quiz-file extension, in lexicographic order.
pub fn load_quiz_list(names: Vec<String>) -> (r: Vec<String>)
    ensures
        sorted_names(r@),
        names_view(r@).to_multiset() == names_view(names@).filter(quiz_ext_pred()).to_multiset(),
        forall|i: int| 0 <= i < r@.len() ==> has_quiz_ext(#[trigger] r@[i]@),
{
    let filtered = filter_quiz_files(&names);
    let r = sort_names(filtered);
    proof {
        let rv = names_view(r@);
        let fv = names_view(names@).filter(quiz_ext_pred());
        assert forall|i: int| 0 <= i < r@.len() implies has_quiz_ext(#[trigger] r@[i]@) by {
            let x = rv[i];
            assert(rv.contains(x));
            vstd::seq_lib::to_multiset_contains(rv, x);
            vstd::seq_lib::to_multiset_contains(fv, x);
            let j = choose|j: int| 0 <= j < fv.len() && fv[j] == x;
            names_view(names@).lemma_filter_pred(quiz_ext_pred(), j);
        }
    }
    r
}

} // verus!
