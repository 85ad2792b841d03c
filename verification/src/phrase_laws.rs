//! What holds of questions, acknowledgements and farewells.
use vstd::prelude::*;

use crate::phrases::{exit_phrase, question_like, question_word, short_ack, word_count};
use crate::text::{folded, join_words, normalized, split_words, trimmed, white_space};
use crate::text_laws::{
    law_normal_form_shape, law_part_of_a_text, law_single_word, law_trimming, law_trimming_uncovers,
    law_words_of_concat, law_words_of_normal_form, lemma_folded_concat,
};
use crate::wake_laws::stands_in;

verus! {

/// The words with which a question may begin.
pub open spec fn question_openers() -> Seq<Seq<char>> {
    seq![
        "was"@,
        "wer"@,
        "wie"@,
        "wo"@,
        "wann"@,
        "warum"@,
        "weshalb"@,
        "wieso"@,
        "welche"@,
        "welcher"@,
        "welches"@,
        "gibt"@,
        "ist"@,
        "sind"@,
        "kann"@,
        "kannst"@,
        "koenntest"@,
        "erklaer"@,
        "erklaere"@,
    ]
}

/// Whether a text is a word alone, or the word, a space and something more.
pub open spec fn opens_with(text: Seq<char>, word: Seq<char>) -> bool {
    ||| text == word
    ||| exists|rest: Seq<char>| text == #[trigger] (word + seq![' '] + rest)
}

proof fn lemma_opener(w: Seq<char>)
    ensures
        question_word(w) <==> question_openers().contains(w),
{
    let all = question_openers();
    assert(all[0] == "was"@ && all[1] == "wer"@ && all[2] == "wie"@ && all[3] == "wo"@);
    assert(all[4] == "wann"@ && all[5] == "warum"@ && all[6] == "weshalb"@ && all[7] == "wieso"@);
    assert(all[8] == "welche"@ && all[9] == "welcher"@ && all[10] == "welches"@);
    assert(all[11] == "gibt"@ && all[12] == "ist"@ && all[13] == "sind"@ && all[14] == "kann"@);
    assert(all[15] == "kannst"@ && all[16] == "koenntest"@ && all[17] == "erklaer"@);
    assert(all[18] == "erklaere"@);
}

proof fn lemma_openers_are_words()
    ensures
        forall|i: int, k: int|
            0 <= i < question_openers().len() && 0 <= k < question_openers()[i].len()
                ==> !white_space(#[trigger] question_openers()[i][k]),
        forall|i: int|
            0 <= i < question_openers().len() ==> (#[trigger] question_openers()[i]).len() > 0,
{
    reveal_strlit("was");
    reveal_strlit("wer");
    reveal_strlit("wie");
    reveal_strlit("wo");
    reveal_strlit("wann");
    reveal_strlit("warum");
    reveal_strlit("weshalb");
    reveal_strlit("wieso");
    reveal_strlit("welche");
    reveal_strlit("welcher");
    reveal_strlit("welches");
    reveal_strlit("gibt");
    reveal_strlit("ist");
    reveal_strlit("sind");
    reveal_strlit("kann");
    reveal_strlit("kannst");
    reveal_strlit("koenntest");
    reveal_strlit("erklaer");
    reveal_strlit("erklaere");
}

proof fn lemma_opens_with(text: Seq<char>, word: Seq<char>)
    requires
        word.len() > 0,
        forall|k: int| 0 <= k < word.len() ==> !white_space(#[trigger] word[k]),
    ensures
        opens_with(normalized(text), word) <==> split_words(normalized(text)).len() > 0
            && split_words(normalized(text))[0] == word,
{
    let norm = normalized(text);
    let words = split_words(norm);
    law_normal_form_shape(text);
    law_single_word(word);
    if exists|rest: Seq<char>| norm == #[trigger] (word + seq![' '] + rest) {
        let rest = choose|rest: Seq<char>| norm == #[trigger] (word + seq![' '] + rest);
        law_words_of_concat(word, ' ', rest);
        assert((seq![word] + split_words(rest))[0] == word);
    }
    if words.len() > 0 && words[0] == word {
        if words.len() == 1 {
            assert(join_words(words) == word);
        } else {
            let rest = join_words(words.drop_first());
            assert(norm == word + seq![' '] + rest);
        }
    }
}

proof fn lemma_said_words(text: Seq<char>, part: Seq<char>)
    requires
        stands_in(part, normalized(text)),
        part.len() > 0,
    ensures
        split_words(normalized(text)).len() > 0,
        trimmed(text).len() > 0,
{
    let norm = normalized(text);
    let (a, b) = choose|a: Seq<char>, b: Seq<char>| norm == #[trigger] (a + part + b);
    law_words_of_normal_form(text);
    law_trimming(text);
    lemma_blank_has_no_words(text);
}

proof fn lemma_blank_has_no_words(text: Seq<char>)
    ensures
        trimmed(text).len() == 0 ==> normalized(text).len() == 0,
{
    law_trimming(text);
    if trimmed(text).len() == 0 {
        assert(trimmed(text) =~= Seq::<char>::empty());
        assert(folded(trimmed(text)) =~= Seq::<char>::empty());
        assert(split_words(folded(trimmed(text))).len() == 0);
    }
}

/// A text is a question exactly when its last character, white space apart, is a question
/// mark, when its normal form opens with one of the question words, or when it says
/// "kannst du" or "weisst du" anywhere.
pub proof fn law_questions(text: Seq<char>)
    ensures
        question_like(text) <==> {
            ||| trimmed(text).len() > 0 && trimmed(text)[trimmed(text).len() - 1] == '?'
            ||| exists|i: int|
                0 <= i < question_openers().len() && opens_with(
                    normalized(text),
                    #[trigger] question_openers()[i],
                )
            ||| stands_in("kannst du"@, normalized(text))
            ||| stands_in("weisst du"@, normalized(text))
        },
{
    let norm = normalized(text);
    let words = split_words(norm);
    let all = question_openers();
    law_trimming(text);
    reveal_strlit("kannst du");
    reveal_strlit("weisst du");
    law_part_of_a_text("kannst du"@, norm);
    law_part_of_a_text("weisst du"@, norm);
    lemma_openers_are_words();
    lemma_blank_has_no_words(text);
    law_words_of_normal_form(text);
    if stands_in("kannst du"@, norm) {
        lemma_said_words(text, "kannst du"@);
    }
    if stands_in("weisst du"@, norm) {
        lemma_said_words(text, "weisst du"@);
    }
    assert forall|i: int| 0 <= i < all.len() implies opens_with(norm, #[trigger] all[i]) == (
    words.len() > 0 && words[0] == all[i]) by {
        lemma_opens_with(text, all[i]);
    }
    if words.len() > 0 {
        lemma_opener(words[0]);
        if question_word(words[0]) {
            let i = choose|i: int| 0 <= i < all.len() && all[i] == words[0];
            assert(opens_with(norm, all[i]));
        }
        if exists|i: int| 0 <= i < all.len() && opens_with(norm, #[trigger] all[i]) {
            let i = choose|i: int| 0 <= i < all.len() && opens_with(norm, #[trigger] all[i]);
            assert(all.contains(words[0]));
        }
    }
}

/// A question mark makes a question of any text before it.
pub proof fn law_question_mark(text: Seq<char>, space: Seq<char>)
    requires
        forall|i: int| 0 <= i < space.len() ==> white_space(#[trigger] space[i]),
        text.len() > 0 ==> !white_space(text[0]),
    ensures
        question_like(text + seq!['?'] + space),
{
    let middle = text + seq!['?'];
    let none = Seq::<char>::empty();
    assert(middle[middle.len() - 1] == '?');
    if text.len() > 0 {
        assert(middle[0] == text[0]);
    }
    law_trimming_uncovers(none, middle, space);
    assert(none + middle + space =~= text + seq!['?'] + space);
    law_questions(text + seq!['?'] + space);
}

/// A text is a short acknowledgement exactly when its normal form is one of these.
pub proof fn law_short_acknowledgements(text: Seq<char>)
    ensures
        short_ack(text) <==> (seq![
            "alles klar"@,
            "danke"@,
            "gut"@,
            "ja"@,
            "ok"@,
            "okay"@,
        ]).contains(normalized(text)),
{
    let all = seq!["alles klar"@, "danke"@, "gut"@, "ja"@, "ok"@, "okay"@];
    assert(all[0] == "alles klar"@ && all[1] == "danke"@ && all[2] == "gut"@);
    assert(all[3] == "ja"@ && all[4] == "ok"@ && all[5] == "okay"@);
}

/// A text is a farewell exactly when one of these stands anywhere in its normal form.
pub proof fn law_farewells(text: Seq<char>)
    ensures
        exit_phrase(text) <==> {
            ||| stands_in("das wars danke"@, normalized(text))
            ||| stands_in("danke das wars"@, normalized(text))
            ||| stands_in("danke das war es"@, normalized(text))
            ||| stands_in("danke war s"@, normalized(text))
        },
{
    law_part_of_a_text("das wars danke"@, normalized(text));
    law_part_of_a_text("danke das wars"@, normalized(text));
    law_part_of_a_text("danke das war es"@, normalized(text));
    law_part_of_a_text("danke war s"@, normalized(text));
}

/// The words of two texts with a space between them are counted together.
pub proof fn law_words_add_up(a: Seq<char>, b: Seq<char>)
    ensures
        word_count(a + seq![' '] + b) == word_count(a) + word_count(b),
        word_count(a) == split_words(normalized(a)).len(),
{
    law_words_of_normal_form(a);
    law_words_of_normal_form(b);
    law_words_of_normal_form(a + seq![' '] + b);
    lemma_folded_concat(a + seq![' '], b);
    lemma_folded_concat(a, seq![' ']);
    assert(seq![' '].drop_last() =~= Seq::<char>::empty());
    assert(folded(Seq::<char>::empty()) == Seq::<char>::empty());
    assert(folded(seq![' ']) =~= seq![' ']);
    law_words_of_concat(folded(a), ' ', folded(b));
}

} // verus!
