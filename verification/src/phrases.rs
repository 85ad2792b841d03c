//! What an utterance sounds like: a question, a short acknowledgement, the end of
//! a conversation.
use vstd::prelude::*;

use crate::text::{
    contains, normalize_text, normalized, occurs_in, same_text, split_words, texts, trim, trimmed,
    words,
};

verus! {

/// The words with which questions begin.
pub open spec fn question_word(w: Seq<char>) -> bool {
    ||| w == "wer"@
    ||| w == "wie"@
    ||| w == "was"@
    ||| w == "wann"@
    ||| w == "wo"@
    ||| w == "warum"@
    ||| w == "wieso"@
    ||| w == "weshalb"@
    ||| w == "welche"@
    ||| w == "welcher"@
    ||| w == "welches"@
    ||| w == "kann"@
    ||| w == "kannst"@
    ||| w == "koenntest"@
    ||| w == "ist"@
    ||| w == "sind"@
    ||| w == "gibt"@
    ||| w == "erklaere"@
    ||| w == "erklaer"@
}

/// Whether a text sounds like a question: it ends with a question mark, begins
/// with a question word, or asks whether somebody can or knows something.
pub open spec fn question_like(s: Seq<char>) -> bool {
    let raw = trimmed(s);
    let norm = normalized(raw);
    let tokens = split_words(norm);
    raw.len() > 0 && {
        ||| raw.last() == '?'
        ||| tokens.len() > 0 && {
            ||| question_word(tokens[0])
            ||| occurs_in("kannst du"@, norm)
            ||| occurs_in("weisst du"@, norm)
        }
    }
}

/// Whether a text is no more than a short acknowledgement.
pub open spec fn short_ack(s: Seq<char>) -> bool {
    let norm = normalized(s);
    ||| norm == "ja"@
    ||| norm == "okay"@
    ||| norm == "ok"@
    ||| norm == "gut"@
    ||| norm == "alles klar"@
    ||| norm == "danke"@
}

/// Whether a text ends a conversation.
pub open spec fn exit_phrase(s: Seq<char>) -> bool {
    let norm = normalized(s);
    ||| occurs_in("danke das wars"@, norm)
    ||| occurs_in("danke das war es"@, norm)
    ||| occurs_in("das wars danke"@, norm)
    ||| occurs_in("danke war s"@, norm)
}

/// How many words the normal form of a text has.
pub open spec fn word_count(s: Seq<char>) -> nat {
    split_words(normalized(s)).len()
}

/// How many words the normal form of a text has.
pub fn token_count(text: &str) -> (n: usize)
    ensures
        n == word_count(text@),
{
    let norm = normalize_text(text);
    let list = words(norm.as_str());
    assert(texts(list@).len() == list@.len());
    list.len()
}

/// Whether a text is no more than a short acknowledgement.
pub fn is_short_ack(text: &str) -> (r: bool)
    ensures
        r == short_ack(text@),
{
    let norm = normalize_text(text);
    let n = norm.as_str();
    same_text(n, "ja") || same_text(n, "okay") || same_text(n, "ok") || same_text(n, "gut")
        || same_text(n, "alles klar") || same_text(n, "danke")
}

/// Whether a text ends a conversation.
pub fn is_exit_phrase(text: &str) -> (r: bool)
    ensures
        r == exit_phrase(text@),
{
    let norm = normalize_text(text);
    let n = norm.as_str();
    contains(n, "danke das wars") || contains(n, "danke das war es") || contains(
        n,
        "das wars danke",
    ) || contains(n, "danke war s")
}

/// Whether questions begin with the word.
fn is_question_word(w: &str) -> (r: bool)
    ensures
        r == question_word(w@),
{
    same_text(w, "wer") || same_text(w, "wie") || same_text(w, "was") || same_text(w, "wann")
        || same_text(w, "wo") || same_text(w, "warum") || same_text(w, "wieso") || same_text(
        w,
        "weshalb",
    ) || same_text(w, "welche") || same_text(w, "welcher") || same_text(w, "welches") || same_text(
        w,
        "kann",
    ) || same_text(w, "kannst") || same_text(w, "koenntest") || same_text(w, "ist") || same_text(
        w,
        "sind",
    ) || same_text(w, "gibt") || same_text(w, "erklaere") || same_text(w, "erklaer")
}

/// Whether a text sounds like a question.
pub fn looks_like_question(text: &str) -> (r: bool)
    ensures
        r == question_like(text@),
{
    let raw = trim(text);
    let n: usize = raw.as_str().unicode_len();
    if n == 0 {
        return false;
    }
    if raw.as_str().get_char(n - 1) == '?' {
        return true;
    }
    let norm = normalize_text(raw.as_str());
    let tokens = words(norm.as_str());
    assert(texts(tokens@).len() == tokens@.len());
    if tokens.len() == 0 {
        return false;
    }
    assert(texts(tokens@)[0] == tokens@[0]@);
    is_question_word(tokens[0].as_str()) || contains(norm.as_str(), "kannst du") || contains(
        norm.as_str(),
        "weisst du",
    )
}

} // verus!
