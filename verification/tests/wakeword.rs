use marvin::wakeword::{detect_wake_word, parse_wake_variants};

fn method(text: &str, variants: &[String], distance: usize) -> Option<(String, &'static str)> {
    detect_wake_word(text, variants, distance).map(|m| (m.variant, m.method))
}

fn list(items: &[&str]) -> Vec<String> {
    items.iter().map(|s| s.to_string()).collect()
}

#[test]
fn variants_are_normalized_and_kept_once() {
    assert_eq!(
        parse_wake_variants("Marvin", "marwin, Marvyn ,, marvin,MARWIN,!?"),
        vec!["marvin", "marwin", "marvyn"]
    );
    assert_eq!(parse_wake_variants("marvin", ""), vec!["marvin"]);
    assert_eq!(parse_wake_variants("!", "a"), vec!["a"]);
    assert!(parse_wake_variants("", " , ").is_empty());
    assert_eq!(
        parse_wake_variants("Hey  Märvin", "ok marvin"),
        vec!["hey maervin", "ok marvin"]
    );
}

#[test]
fn configured_words_are_recognised() {
    let variants = parse_wake_variants("Märvin", "Hey Computer,jarvis");
    for distance in [0, 1, 7] {
        assert_eq!(
            method("Märvin", &variants, distance),
            Some(("maervin".to_string(), "contains"))
        );
        assert_eq!(
            method("also hey, computer! wie gehts", &variants, distance),
            Some(("hey computer".to_string(), "contains"))
        );
        assert_eq!(
            method("JARVIS", &variants, distance),
            Some(("jarvis".to_string(), "contains"))
        );
    }
}

#[test]
fn umlaut_and_plain_spelling_compare_robustly() {
    let variants = list(&["marvin"]);
    assert_eq!(
        method("Märvin", &variants, 1),
        Some(("marvin".to_string(), "fuzzy-token"))
    );
    assert_eq!(method("Märvin", &variants, 0), None);
}

#[test]
fn close_words_are_recognised() {
    let variants = list(&["marvin"]);
    assert_eq!(
        method("hallo marwin bitte", &variants, 1),
        Some(("marvin".to_string(), "fuzzy-token"))
    );
    assert_eq!(method("hallo merwin", &variants, 1), None);
    assert_eq!(
        method("hallo merwin", &variants, 2),
        Some(("marvin".to_string(), "fuzzy-token"))
    );
    assert_eq!(
        method("mavin", &variants, 1),
        Some(("marvin".to_string(), "fuzzy-token"))
    );
    assert_eq!(
        method("marvinn", &variants, 1),
        Some(("marvin".to_string(), "contains"))
    );
}

#[test]
fn close_phrases_are_recognised() {
    // Twelve bytes allow for one edit more.
    let variants = list(&["hey computer"]);
    assert_eq!(
        method("na hei komputer da", &variants, 1),
        Some(("hey computer".to_string(), "fuzzy-phrase"))
    );
    assert_eq!(method("na hei komputer da", &variants, 0), None);
    assert_eq!(
        method("hei computer", &variants, 0),
        Some(("hey computer".to_string(), "fuzzy-phrase"))
    );
    assert_eq!(method("computer", &variants, 3), None);
}

#[test]
fn contained_variants_win_over_close_ones() {
    let variants = list(&["marvin", "computer"]);
    assert_eq!(
        method("marwin computer", &variants, 1),
        Some(("computer".to_string(), "contains"))
    );
    assert_eq!(
        method("komputer marwin", &variants, 1),
        Some(("marvin".to_string(), "fuzzy-token"))
    );
}

#[test]
fn nothing_is_recognised_in_nothing() {
    let variants = list(&["marvin", ""]);
    assert_eq!(method("", &variants, 9), None);
    assert_eq!(method(" ?! ", &variants, 9), None);
    assert_eq!(
        method("x", &variants, 0),
        Some(("".to_string(), "contains"))
    );
    assert_eq!(method("hallo", &[], 9), None);
}

#[test]
fn larger_distances_lose_nothing() {
    let variants = list(&["marvin", "hey computer", "jarvis"]);
    for text in ["mar", "hey", "hei kompjuta", "jarwis", "etwas anderes"] {
        let mut found = false;
        for distance in 0..14 {
            let now = detect_wake_word(text, &variants, distance).is_some();
            assert!(now || !found);
            found = now;
        }
    }
}

#[test]
fn the_largest_distance_takes_any_word() {
    let variants = list(&["hey computer"]);
    assert_eq!(
        method("ganz anders", &variants, usize::MAX),
        Some(("hey computer".to_string(), "fuzzy-phrase"))
    );
}

#[test]
fn distance_counts_edits() {
    assert_eq!(strsim::levenshtein("kitten", "sitting"), 3);
    assert_eq!(strsim::levenshtein("sitting", "kitten"), 3);
    assert_eq!(strsim::levenshtein("", "drei"), 4);
    assert_eq!(strsim::levenshtein("drei", ""), 4);
    assert_eq!(strsim::levenshtein("für", "fuer"), 2);
    assert_eq!(strsim::levenshtein("gleich", "gleich"), 0);
    assert_eq!(strsim::levenshtein("maervin", "marvin"), 1);
}
