//! What the speech recogniser heard, and which of its guesses to take.
use vstd::prelude::*;

use crate::phrases::{looks_like_question, question_like, token_count, word_count};
use crate::text::{normalize_text, normalized, texts, trim, trimmed};
use crate::text_laws::{law_normal_form_shape, lemma_plain_bytes};

verus! {

/// A guess of the recogniser.
#[derive(Debug)]
pub struct Alternative {
    /// What was heard.
    pub text: String,
    /// How sure the recogniser is, as the bits of an IEEE 754 single-precision
    /// number.
    pub confidence: u32,
}

/// What the recogniser heard in a finished utterance.
#[derive(Debug)]
pub enum Recognition {
    /// One guess, without a confidence.
    Single(String),
    /// Several guesses.
    Multiple(Vec<Alternative>),
}

/// A guess together with its score, as the bits of an IEEE 754 single-precision
/// number.
#[derive(Debug)]
pub struct ScoredCandidate {
    /// What was heard.
    pub text: String,
    /// How promising the guess is.
    pub score: u32,
}

/// The confidence of a guess that comes without one: one half.
pub const SINGLE_CONFIDENCE: u32 = 0x3f00_0000;

/// The texts and confidences of guesses.
pub open spec fn guesses(list: Seq<Alternative>) -> Seq<(Seq<char>, u32)> {
    list.map_values(|a: Alternative| (a.text@, a.confidence))
}

/// The texts and scores of guesses.
pub open spec fn scored(list: Seq<ScoredCandidate>) -> Seq<(Seq<char>, u32)> {
    list.map_values(|c: ScoredCandidate| (c.text@, c.score))
}

/// The guesses that are more than white space, without the white space around
/// them.
pub open spec fn kept_guesses(list: Seq<(Seq<char>, u32)>) -> Seq<(Seq<char>, u32)>
    decreases list.len(),
{
    if list.len() == 0 {
        Seq::empty()
    } else {
        let rest = kept_guesses(list.drop_last());
        let (text, confidence) = list.last();
        if trimmed(text).len() == 0 {
            rest
        } else {
            rest.push((trimmed(text), confidence))
        }
    }
}

/// The guesses of a recognition that are worth considering.
pub open spec fn candidates_of(result: Recognition) -> Seq<(Seq<char>, u32)> {
    match result {
        Recognition::Single(text) => kept_guesses(seq![(text@, SINGLE_CONFIDENCE)]),
        Recognition::Multiple(list) => kept_guesses(guesses(list@)),
    }
}

/// The guesses of a recognition that are more than white space, in order.
pub fn extract_candidates(result: Recognition) -> (out: Vec<Alternative>)
    ensures
        guesses(out@) == candidates_of(result),
{
    let mut out: Vec<Alternative> = Vec::new();
    match result {
        Recognition::Single(text) => {
            let kept = trim(text.as_str());
            proof {
                let one = seq![(text@, SINGLE_CONFIDENCE)];
                assert(one.drop_last() =~= Seq::empty());
                assert(kept_guesses(one.drop_last()) == Seq::<(Seq<char>, u32)>::empty());
                assert(guesses(out@) =~= Seq::empty());
            }
            if !kept.as_str().is_empty() {
                let ghost view = kept@;
                out.push(Alternative { text: kept, confidence: SINGLE_CONFIDENCE });
                assert(guesses(out@) =~= Seq::empty().push((view, SINGLE_CONFIDENCE)));
            }
        },
        Recognition::Multiple(list) => {
            let ghost all = guesses(list@);
            assert(guesses(out@) =~= kept_guesses(all.take(0)));
            for i in 0..list.len()
                invariant
                    all == guesses(list@),
                    guesses(out@) == kept_guesses(all.take(i as int)),
            {
                assert(all.take(i + 1).drop_last() =~= all.take(i as int));
                assert(all.take(i + 1).last() == all[i as int]);
                let kept = trim(list[i].text.as_str());
                if !kept.as_str().is_empty() {
                    let ghost before = out@;
                    let ghost view = kept@;
                    out.push(Alternative { text: kept, confidence: list[i].confidence });
                    assert(guesses(out@) =~= guesses(before).push(
                        (view, list@[i as int].confidence),
                    ));
                }
            }
            assert(all.take(list@.len() as int) =~= all);
        },
    }
    out
}

/// Whether `score` may give `bits` for a guess.
pub open spec fn may_score<F: Fn(&Alternative) -> u32>(
    score: F,
    guess: (Seq<char>, u32),
    bits: u32,
) -> bool {
    exists|a: Alternative|
        a.text@ == guess.0 && a.confidence == guess.1 && #[trigger] call_ensures(
            score,
            (&a,),
            bits,
        )
}

/// Whether `list` holds the guesses, in order, with scores that `score` may give.
pub open spec fn are_scores<F: Fn(&Alternative) -> u32>(
    score: F,
    candidates: Seq<(Seq<char>, u32)>,
    list: Seq<(Seq<char>, u32)>,
) -> bool {
    &&& list.len() == candidates.len()
    &&& forall|i: int|
        0 <= i < list.len() ==> (#[trigger] list[i]).0 == candidates[i].0 && may_score(
            score,
            candidates[i],
            list[i].1,
        )
}

/// Scores guesses one by one.
pub fn score_candidates<F: Fn(&Alternative) -> u32>(candidates: &Vec<Alternative>, score: F) -> (
list: Vec<ScoredCandidate>)
    requires
        forall|guess: Alternative|
            guesses(candidates@).contains((guess.text@, guess.confidence))
                ==> #[trigger] call_requires(score, (&guess,)),
    ensures
        are_scores(score, guesses(candidates@), scored(list@)),
{
    let mut list: Vec<ScoredCandidate> = Vec::new();
    let ghost all = guesses(candidates@);
    for i in 0..candidates.len()
        invariant
            all == guesses(candidates@),
            forall|guess: Alternative|
                all.contains((guess.text@, guess.confidence)) ==> #[trigger] call_requires(
                    score,
                    (&guess,),
                ),
            list@.len() == i,
            forall|k: int|
                0 <= k < i ==> (#[trigger] scored(list@)[k]).0 == all[k].0 && may_score(
                    score,
                    all[k],
                    scored(list@)[k].1,
                ),
    {
        assert(all[i as int] == (candidates@[i as int].text@, candidates@[i as int].confidence));
        let bits: u32 = score(&candidates[i]);
        assert(may_score(score, all[i as int], bits));
        let ghost before = list@;
        list.push(ScoredCandidate { text: candidates[i].text.clone(), score: bits });
        assert(scored(list@) =~= scored(before).push((all[i as int].0, bits)));
    }
    list
}

/// All texts of a recognition, in order.
pub open spec fn heard_texts(result: Recognition) -> Seq<Seq<char>> {
    match result {
        Recognition::Single(text) => seq![text@],
        Recognition::Multiple(list) => list@.map_values(|a: Alternative| a.text@),
    }
}

/// All texts of a recognition, in order.
pub fn extract_complete_texts(result: Recognition) -> (out: Vec<String>)
    ensures
        texts(out@) == heard_texts(result),
{
    let mut out: Vec<String> = Vec::new();
    match result {
        Recognition::Single(text) => {
            let ghost view = text@;
            out.push(text);
            assert(texts(out@) =~= seq![view]);
        },
        Recognition::Multiple(list) => {
            let ghost all = heard_texts(result);
            assert(texts(out@) =~= all.take(0));
            for i in 0..list.len()
                invariant
                    all == list@.map_values(|a: Alternative| a.text@),
                    texts(out@) == all.take(i as int),
            {
                let ghost before = out@;
                out.push(list[i].text.clone());
                assert(texts(out@) =~= texts(before).push(list@[i as int].text@));
                assert(all.take(i + 1) =~= all.take(i as int).push(all[i as int]));
            }
            assert(all.take(list@.len() as int) =~= all);
        },
    }
    out
}

/// What the text of a guess contributes to its score.
#[derive(Debug)]
pub struct ScoreTerms {
    /// How many words the normal form has.
    pub tokens: usize,
    /// Whether the text sounds like a question.
    pub question: bool,
    /// How long the normal form is; lengths beyond 80 count as 80.
    pub length: usize,
}

/// The length up to which longer guesses score higher.
pub const SCORED_LENGTH: usize = 80;

/// Whether these are the contributions of a text to its score.
pub open spec fn are_terms(text: Seq<char>, terms: ScoreTerms) -> bool {
    &&& terms.tokens == word_count(text)
    &&& terms.question == question_like(text)
    &&& terms.length == if normalized(text).len() < SCORED_LENGTH {
        normalized(text).len()
    } else {
        SCORED_LENGTH as nat
    }
}

/// What the text of a guess contributes to its score.
pub fn score_terms(text: &str) -> (terms: ScoreTerms)
    ensures
        are_terms(text@, terms),
{
    let norm = normalize_text(text);
    let bytes: usize = norm.as_str().as_bytes().len();
    proof {
        law_normal_form_shape(text@);
        lemma_plain_bytes(norm@);
    }
    let length: usize = if bytes < SCORED_LENGTH {
        bytes
    } else {
        SCORED_LENGTH
    };
    ScoreTerms { tokens: token_count(text), question: looks_like_question(text), length }
}

/// Where a single-precision number stands in the order of numbers, given its bits;
/// what is not a number has no place.
pub open spec fn float_rank(bits: u32) -> Option<int> {
    let magnitude = bits % 0x8000_0000;
    if magnitude > 0x7f80_0000 {
        None
    } else if bits >= 0x8000_0000 {
        Some(-(magnitude as int))
    } else {
        Some(magnitude as int)
    }
}

/// Whether the number with the bits `a` is greater than the one with the bits `b`.
pub open spec fn float_greater(a: u32, b: u32) -> bool {
    match (float_rank(a), float_rank(b)) {
        (Some(x), Some(y)) => x > y,
        _ => false,
    }
}

/// Which of the scores wins: going from the first to the last, a score holds its
/// place only against smaller ones.
pub open spec fn best_index(scores: Seq<u32>) -> int
    decreases scores.len(),
{
    if scores.len() <= 1 {
        0
    } else {
        let best = best_index(scores.drop_last());
        if float_greater(scores[best], scores.last()) {
            best
        } else {
            scores.len() - 1
        }
    }
}

/// The text of the winning guess, if there are any guesses.
pub open spec fn best_candidate(list: Seq<(Seq<char>, u32)>) -> Option<Seq<char>> {
    if list.len() == 0 {
        None
    } else {
        Some(list[best_index(list.map_values(|c: (Seq<char>, u32)| c.1))].0)
    }
}

/// The place of a single-precision number in the order of numbers.
fn rank_of(bits: u32) -> (rank: Option<i64>)
    ensures
        match rank {
            Some(r) => float_rank(bits) == Some(r as int),
            None => float_rank(bits) is None,
        },
{
    let negative = bits >= 0x8000_0000;
    let magnitude: u32 = if negative {
        bits - 0x8000_0000
    } else {
        bits
    };
    if magnitude > 0x7f80_0000 {
        None
    } else if negative {
        Some(-(magnitude as i64))
    } else {
        Some(magnitude as i64)
    }
}

/// Whether the number with the bits `a` is greater than the one with the bits `b`.
fn is_float_greater(a: u32, b: u32) -> (r: bool)
    ensures
        r == float_greater(a, b),
{
    match (rank_of(a), rank_of(b)) {
        (Some(x), Some(y)) => x > y,
        _ => false,
    }
}

/// The text of the guess with the highest score; of guesses with equal scores the
/// last one wins.
pub fn choose_best_candidate(candidates: &[ScoredCandidate]) -> (best: Option<String>)
    ensures
        match best {
            Some(text) => best_candidate(scored(candidates@)) == Some(text@),
            None => best_candidate(scored(candidates@)) is None,
        },
{
    if candidates.len() == 0 {
        return None;
    }
    let ghost scores = scored(candidates@).map_values(|c: (Seq<char>, u32)| c.1);
    let mut best: usize = 0;
    let mut i: usize = 1;
    while i < candidates.len()
        invariant
            scores == scored(candidates@).map_values(|c: (Seq<char>, u32)| c.1),
            best < i <= candidates@.len(),
            best == best_index(scores.take(i as int)),
        decreases candidates@.len() - i,
    {
        assert(scores.take(i + 1).drop_last() =~= scores.take(i as int));
        assert(scores.take(i + 1)[best as int] == candidates@[best as int].score);
        assert(scores.take(i + 1).last() == candidates@[i as int].score);
        if !is_float_greater(candidates[best].score, candidates[i].score) {
            best = i;
        }
        i += 1;
    }
    assert(scores.take(i as int) =~= scores);
    Some(candidates[best].text.clone())
}

} // verus!
