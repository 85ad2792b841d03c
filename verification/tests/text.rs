use marvin::numbers::{decimal, parse_u64};
use marvin::text::{contains, is_white_space, join, normalize_text, same_text, trim, words};

#[test]
fn white_space_is_that_of_the_standard_library() {
    for n in 0..=0x10ffffu32 {
        if let Some(c) = char::from_u32(n) {
            assert_eq!(is_white_space(c), c.is_whitespace(), "{n:x}");
        }
    }
}

#[test]
fn trimming_is_that_of_the_standard_library() {
    for s in [
        "",
        " ",
        "\t a b \n",
        "a",
        "\u{a0}x\u{2003}y\u{3000}",
        "\u{200b}z\u{200b}",
        "ü ",
        " ?",
    ] {
        assert_eq!(trim(s), s.trim());
        assert_eq!(trim(&trim(s)), s.trim());
        let expected: Vec<String> = s.split_whitespace().map(|w| w.to_string()).collect();
        assert_eq!(words(s), expected);
    }
}

#[test]
fn substrings_are_found() {
    for (hay, needle) in [
        ("hallo marvin", "marvin"),
        ("hallo marvin", "hallo"),
        ("hallo marvin", "mervin"),
        ("aab", "ab"),
        ("ab", "abc"),
        ("", ""),
        ("x", ""),
        ("für", "ü"),
    ] {
        assert_eq!(contains(hay, needle), hay.contains(needle));
    }
    assert!(same_text("äb", "äb"));
    assert!(!same_text("äb", "ab"));
    assert!(!same_text("ab", "abc"));
}

#[test]
fn joining_and_splitting_undo_each_other() {
    let list = words("  eins zwei\tdrei ");
    assert_eq!(list, vec!["eins", "zwei", "drei"]);
    assert_eq!(join(&list, 0, 3), "eins zwei drei");
    assert_eq!(join(&list, 1, 2), "zwei");
    assert_eq!(join(&list, 2, 2), "");
    assert_eq!(words(&join(&list, 0, 3)), list);
}

#[test]
fn umlauts_are_spelled_out() {
    assert_eq!(normalize_text("Märvin"), "maervin");
    assert_eq!(normalize_text("ÄÖÜ äöü ß"), "aeoeue aeoeue ss");
    assert_eq!(normalize_text("Größe"), normalize_text("Groesse"));
}

#[test]
fn normal_form_has_small_letters_digits_and_single_spaces() {
    assert_eq!(normalize_text("  Hallo,   Welt!!  42 "), "hallo welt 42");
    assert_eq!(normalize_text("AZaz09"), "azaz09");
    assert_eq!(normalize_text("[`{@/:"), "");
    assert_eq!(normalize_text("a\u{2003}b\nc"), "a b c");
    assert_eq!(normalize_text(""), "");
    assert_eq!(normalize_text("é"), "");
}

#[test]
fn normalizing_twice_changes_nothing() {
    for s in ["  Ärger, im -- BÜRO? ", "marvin", "", "ß\tß"] {
        let once = normalize_text(s);
        assert_eq!(normalize_text(&once), once);
        assert_eq!(normalize_text(&trim(s)), once);
    }
}

#[test]
fn numbers_are_read_as_by_the_standard_library() {
    for s in [
        "",
        "0",
        "+0",
        "+",
        "-1",
        "-0",
        "007",
        "42",
        "+16000",
        " 1",
        "1 ",
        "1_000",
        "18446744073709551615",
        "18446744073709551616",
        "99999999999999999999999999",
        "99999999999999999999x",
        "\u{661}",
    ] {
        assert_eq!(parse_u64(s), s.parse::<u64>().ok(), "{s}");
    }
}

#[test]
fn digits_are_written_and_read_back() {
    for n in [0, 9, 10, 165, 16_000, 48_000, u64::MAX] {
        assert_eq!(decimal(n), n.to_string());
        assert_eq!(parse_u64(&decimal(n)), Some(n));
    }
}
