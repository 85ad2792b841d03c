use marvin::recognition::{
    choose_best_candidate, extract_candidates, extract_complete_texts, score_candidates,
    score_terms, Alternative, Recognition, ScoredCandidate, SINGLE_CONFIDENCE,
};

fn guess(text: &str, confidence: f32) -> Alternative {
    Alternative {
        text: text.to_string(),
        confidence: confidence.to_bits(),
    }
}

fn scored(list: &[(&str, f32)]) -> Vec<ScoredCandidate> {
    list.iter()
        .map(|(text, score)| ScoredCandidate {
            text: text.to_string(),
            score: score.to_bits(),
        })
        .collect()
}

fn pairs(list: Vec<Alternative>) -> Vec<(String, f32)> {
    list.into_iter()
        .map(|a| (a.text, f32::from_bits(a.confidence)))
        .collect()
}

#[test]
fn a_single_guess_counts_half() {
    assert_eq!(f32::from_bits(SINGLE_CONFIDENCE), 0.5);
    assert_eq!(
        pairs(extract_candidates(Recognition::Single(
            "  wie spät ist es ".to_string()
        ))),
        vec![("wie spät ist es".to_string(), 0.5)]
    );
    assert!(extract_candidates(Recognition::Single(" \t".to_string())).is_empty());
}

#[test]
fn empty_guesses_are_dropped() {
    let result = Recognition::Multiple(vec![
        guess(" a ", 0.9),
        guess("  ", 1.0),
        guess("b", 0.25),
    ]);
    assert_eq!(
        pairs(extract_candidates(result)),
        vec![("a".to_string(), 0.9), ("b".to_string(), 0.25)]
    );
}

#[test]
fn complete_texts_are_taken_as_they_are() {
    assert_eq!(
        extract_complete_texts(Recognition::Single(" x ".to_string())),
        vec![" x "]
    );
    assert_eq!(
        extract_complete_texts(Recognition::Multiple(vec![guess("", 0.1), guess("y", 0.2)])),
        vec!["", "y"]
    );
}

#[test]
fn the_highest_score_wins() {
    let best = |list: &[(&str, f32)]| choose_best_candidate(&scored(list));
    assert_eq!(best(&[]), None);
    assert_eq!(best(&[("a", -3.0)]), Some("a".to_string()));
    assert_eq!(
        best(&[("a", 1.0), ("b", 7.5), ("c", 7.25)]),
        Some("b".to_string())
    );
    assert_eq!(
        best(&[("a", -1.0), ("b", -7.5), ("c", -7.25)]),
        Some("a".to_string())
    );
    assert_eq!(
        best(&[("a", 1e-40), ("b", 0.0), ("c", f32::INFINITY), ("d", 3e38)]),
        Some("c".to_string())
    );
}

#[test]
fn of_equal_scores_the_last_wins() {
    let best = |list: &[(&str, f32)]| choose_best_candidate(&scored(list));
    assert_eq!(
        best(&[("a", 2.0), ("b", 2.0), ("c", 1.0)]),
        Some("b".to_string())
    );
    assert_eq!(best(&[("a", 0.0), ("b", -0.0)]), Some("b".to_string()));
}

#[test]
fn what_is_not_a_number_compares_as_equal() {
    let choose = |scores: &[f32]| -> Option<usize> {
        let list: Vec<(String, f32)> = scores
            .iter()
            .enumerate()
            .map(|(i, s)| (i.to_string(), *s))
            .collect();
        list.iter()
            .max_by(|(_, a), (_, b)| a.partial_cmp(b).unwrap_or(std::cmp::Ordering::Equal))
            .map(|(t, _)| t.parse().unwrap())
    };
    for scores in [
        vec![1.0, f32::NAN, 0.5],
        vec![f32::NAN, 1.0, 0.5],
        vec![2.0, 1.0, -f32::NAN],
        vec![f32::NAN],
        vec![3.0, f32::NAN, 1.0, 2.0, 2.0],
        vec![f32::NEG_INFINITY, -0.0, 0.0, -1.0],
    ] {
        let list: Vec<ScoredCandidate> = scores
            .iter()
            .enumerate()
            .map(|(i, s)| ScoredCandidate {
                text: i.to_string(),
                score: s.to_bits(),
            })
            .collect();
        assert_eq!(
            choose_best_candidate(&list),
            choose(&scores).map(|i| i.to_string())
        );
    }
}

#[test]
fn terms_of_a_score() {
    let terms = score_terms("Wie spät ist es?");
    assert_eq!((terms.tokens, terms.question, terms.length), (4, true, 16));
    let terms = score_terms("guten  Morgen");
    assert_eq!((terms.tokens, terms.question, terms.length), (2, false, 12));
    let terms = score_terms(&"ab ".repeat(40));
    assert_eq!((terms.tokens, terms.question, terms.length), (40, false, 80));
    let terms = score_terms("");
    assert_eq!((terms.tokens, terms.question, terms.length), (0, false, 0));
}

#[test]
fn guesses_are_scored_one_by_one() {
    let guesses = vec![guess("a", 0.5), guess("b", 2.0)];
    let list = score_candidates(&guesses, |a: &Alternative| {
        (f32::from_bits(a.confidence) * 3.0).to_bits()
    });
    let got: Vec<(String, f32)> = list
        .into_iter()
        .map(|c| (c.text, f32::from_bits(c.score)))
        .collect();
    assert_eq!(got, vec![("a".to_string(), 1.5), ("b".to_string(), 6.0)]);
}
