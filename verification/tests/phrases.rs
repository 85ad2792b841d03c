use marvin::phrases::{is_exit_phrase, is_short_ack, looks_like_question, token_count};

#[test]
fn words_are_counted_in_normal_form() {
    assert_eq!(token_count("Na, wie geht's?"), 4);
    assert_eq!(token_count("  "), 0);
    assert_eq!(token_count("ä-ö"), 2);
}

#[test]
fn short_acknowledgements() {
    for s in ["ja", "Okay!", "OK", "gut", " Alles klar. ", "Danke"] {
        assert!(is_short_ack(s), "{s}");
    }
    for s in ["", "ja ja", "danke schön", "allesklar", "nein"] {
        assert!(!is_short_ack(s), "{s}");
    }
}

#[test]
fn exit_phrases() {
    for s in [
        "Danke, das wars!",
        "so danke das war es für heute",
        "das wars, danke",
        "Danke, war's",
    ] {
        assert!(is_exit_phrase(s), "{s}");
    }
    for s in ["danke", "das wars", "danke das", ""] {
        assert!(!is_exit_phrase(s), "{s}");
    }
}

#[test]
fn questions_by_their_mark() {
    assert!(looks_like_question("marvin?"));
    assert!(looks_like_question("  marvin ? "));
    assert!(looks_like_question("?"));
    assert!(!looks_like_question("marvin?!"));
    assert!(!looks_like_question(""));
    assert!(!looks_like_question("  "));
    assert!(!looks_like_question("..."));
}

#[test]
fn questions_by_their_first_word() {
    for w in [
        "wer",
        "wie",
        "was",
        "wann",
        "wo",
        "warum",
        "wieso",
        "weshalb",
        "welche",
        "welcher",
        "welches",
        "kann",
        "kannst",
        "könntest",
        "ist",
        "sind",
        "gibt",
        "erkläre",
        "erklär",
    ] {
        assert!(looks_like_question(w), "{w}");
        assert!(looks_like_question(&format!("{w} das")), "{w}");
    }
    assert!(!looks_like_question("werden wir"));
    assert!(!looks_like_question("sag wie"));
}

#[test]
fn questions_by_what_they_ask() {
    assert!(looks_like_question("Marvin, kannst du das"));
    assert!(looks_like_question("sag mal weißt du das"));
    assert!(!looks_like_question("du kannst das"));
}
