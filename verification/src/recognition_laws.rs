//! What holds of the guesses of the recogniser and of the choice among them.
use vstd::prelude::*;

use crate::phrases::question_like;
use crate::recognition::{
    are_scores, are_terms, best_candidate, best_index, candidates_of, float_greater, float_rank,
    guesses, heard_texts, kept_guesses, scored, Alternative, Recognition, ScoreTerms,
    ScoredCandidate,
};
use crate::text::{normalized, split_words, trimmed};

verus! {

/// The guesses that are more than white space.
pub open spec fn filled_guesses(list: Seq<Alternative>) -> Seq<Alternative> {
    list.filter(|a: Alternative| trimmed(a.text@).len() > 0)
}

proof fn lemma_kept_guesses(list: Seq<Alternative>)
    ensures
        kept_guesses(guesses(list)) == filled_guesses(list).map_values(
            |a: Alternative| (trimmed(a.text@), a.confidence),
        ),
    decreases list.len(),
{
    reveal(Seq::filter);
    let trim = |a: Alternative| (trimmed(a.text@), a.confidence);
    if list.len() == 0 {
        assert(guesses(list).len() == 0);
        assert(filled_guesses(list).map_values(trim) =~= Seq::empty());
    } else {
        let shorter = list.drop_last();
        lemma_kept_guesses(shorter);
        assert(guesses(list).drop_last() =~= guesses(shorter));
        assert(guesses(list).last() == (list.last().text@, list.last().confidence));
        if trimmed(list.last().text@).len() > 0 {
            assert(filled_guesses(list) =~= filled_guesses(shorter).push(list.last()));
        } else {
            assert(filled_guesses(list) =~= filled_guesses(shorter));
        }
        assert(kept_guesses(guesses(list)) =~= filled_guesses(list).map_values(trim));
    }
}

/// Of several guesses all that are more than white space are considered, in order, each
/// without the white space around it and with its own confidence; and nothing else is.
pub proof fn law_every_filled_guess_counts(list: Vec<Alternative>)
    ensures
        candidates_of(Recognition::Multiple(list)) == filled_guesses(list@).map_values(
            |a: Alternative| (trimmed(a.text@), a.confidence),
        ),
        candidates_of(Recognition::Multiple(list)).len() == filled_guesses(list@).len(),
        forall|i: int|
            0 <= i < list@.len() && trimmed((#[trigger] list@[i]).text@).len() > 0
                ==> candidates_of(Recognition::Multiple(list)).contains(
                (trimmed(list@[i].text@), list@[i].confidence),
            ),
{
    lemma_kept_guesses(list@);
    let filled = |a: Alternative| trimmed(a.text@).len() > 0;
    let kept = filled_guesses(list@);
    let all = candidates_of(Recognition::Multiple(list));
    assert forall|i: int|
        0 <= i < list@.len() && trimmed((#[trigger] list@[i]).text@).len() > 0 implies all.contains(
        (trimmed(list@[i].text@), list@[i].confidence),
    ) by {
        list@.lemma_filter_contains(filled, i);
        let j = choose|j: int| 0 <= j < kept.len() && kept[j] == list@[i];
        assert(all[j] == (trimmed(list@[i].text@), list@[i].confidence));
    }
}

/// One guess without a confidence is considered with a confidence of one half, unless it
/// is no more than white space.
pub proof fn law_single_guess(text: String)
    ensures
        candidates_of(Recognition::Single(text)) == if trimmed(text@).len() > 0 {
            seq![(trimmed(text@), 0x3f00_0000u32)]
        } else {
            Seq::empty()
        },
{
    let one = seq![(text@, 0x3f00_0000u32)];
    assert(one.drop_last() =~= Seq::empty());
    assert(kept_guesses(one.drop_last()) == Seq::<(Seq<char>, u32)>::empty());
    assert(candidates_of(Recognition::Single(text)) =~= if trimmed(text@).len() > 0 {
        seq![(trimmed(text@), 0x3f00_0000u32)]
    } else {
        Seq::empty()
    });
}

/// Everything that was heard is handed on, in order and as it is.
pub proof fn law_everything_heard(text: String, list: Vec<Alternative>)
    ensures
        heard_texts(Recognition::Single(text)) == seq![text@],
        heard_texts(Recognition::Multiple(list)).len() == list@.len(),
        forall|i: int|
            0 <= i < list@.len() ==> #[trigger] heard_texts(Recognition::Multiple(list))[i]
                == list@[i].text@,
{
}

/// Each guess is scored for itself: by its own text and confidence, and as many scores
/// come out as guesses go in, in the same order.
pub proof fn law_each_guess_is_scored<F: Fn(&Alternative) -> u32>(
    score: F,
    candidates: Seq<Alternative>,
    list: Seq<ScoredCandidate>,
    i: int,
)
    requires
        are_scores(score, guesses(candidates), scored(list)),
        0 <= i < candidates.len(),
    ensures
        list.len() == candidates.len(),
        list[i].text@ == candidates[i].text@,
        exists|a: Alternative|
            a.text@ == candidates[i].text@ && a.confidence == candidates[i].confidence
                && #[trigger] call_ensures(score, (&a,), list[i].score),
{
    assert(scored(list).len() == list.len());
    assert(guesses(candidates).len() == candidates.len());
    assert(scored(list)[i].0 == guesses(candidates)[i].0);
}

/// What a guess is scored by: the number of words of its normal form, whether it is a
/// question, and the length of its normal form up to eighty.
pub proof fn law_score_terms(text: Seq<char>, terms: ScoreTerms)
    requires
        are_terms(text, terms),
    ensures
        terms.tokens == split_words(normalized(text)).len(),
        terms.question == question_like(text),
        normalized(text).len() <= 80 ==> terms.length == normalized(text).len(),
        normalized(text).len() >= 80 ==> terms.length == 80,
{
}

/// The order of single-precision numbers by their bits. Positive ones grow with their
/// bits, negative ones shrink, the two zeros are equal, and what is not a number is not
/// greater or smaller than anything.
pub proof fn law_order_of_numbers(a: u32, b: u32)
    ensures
        a <= 0x7f80_0000 && b <= 0x7f80_0000 ==> (float_greater(a, b) <==> a > b),
        0x8000_0000 <= a <= 0xff80_0000 && 0x8000_0000 <= b <= 0xff80_0000 ==> (float_greater(
            a,
            b,
        ) <==> a < b),
        0 < a <= 0x7f80_0000 && 0x8000_0000 <= b <= 0xff80_0000 ==> float_greater(a, b),
        a <= 0x7f80_0000 && 0x8000_0000 <= b <= 0xff80_0000 ==> !float_greater(b, a),
        !float_greater(0, 0x8000_0000),
        0x8000_0000 < b <= 0xff80_0000 ==> float_greater(0, b),
        0x7f80_0000 < a < 0x8000_0000 || a > 0xff80_0000 ==> !float_greater(a, b)
            && !float_greater(b, a),
        float_rank(a) is None <==> 0x7f80_0000 < a < 0x8000_0000 || a > 0xff80_0000,
{
}

proof fn lemma_best_holds(scores: Seq<u32>)
    requires
        scores.len() > 0,
    ensures
        0 <= best_index(scores) < scores.len(),
        forall|j: int|
            best_index(scores) < j < scores.len() ==> float_greater(
                scores[best_index(scores)],
                #[trigger] scores[j],
            ),
        (forall|i: int| 0 <= i < scores.len() ==> float_rank(#[trigger] scores[i]) is Some) ==> (
        forall|i: int|
            0 <= i < scores.len() ==> !float_greater(
                #[trigger] scores[i],
                scores[best_index(scores)],
            )),
    decreases scores.len(),
{
    if scores.len() > 1 {
        let shorter = scores.drop_last();
        lemma_best_holds(shorter);
        let best = best_index(scores);
        let earlier = best_index(shorter);
        assert(shorter[earlier] == scores[earlier]);
        assert(scores.last() == scores[scores.len() - 1]);
        assert forall|j: int| best < j < scores.len() implies float_greater(
            scores[best],
            #[trigger] scores[j],
        ) by {
            if j < scores.len() - 1 {
                assert(shorter[j] == scores[j]);
            }
        }
        if forall|i: int| 0 <= i < scores.len() ==> float_rank(#[trigger] scores[i]) is Some {
            assert forall|i: int| 0 <= i < shorter.len() implies float_rank(
                #[trigger] shorter[i],
            ) is Some by {
                assert(shorter[i] == scores[i]);
            }
            assert forall|i: int| 0 <= i < scores.len() implies !float_greater(
                #[trigger] scores[i],
                scores[best],
            ) by {
                assert(float_rank(scores[best]) is Some);
                assert(float_rank(scores[earlier]) is Some);
                if i < shorter.len() {
                    assert(shorter[i] == scores[i]);
                    assert(!float_greater(shorter[i], shorter[earlier]));
                }
            }
        }
    }
}

/// One of the guesses is taken, if there are any. It beats every guess that comes after
/// it, and where all scores are numbers no guess has a higher score.
pub proof fn law_best_guess(list: Seq<(Seq<char>, u32)>)
    ensures
        match best_candidate(list) {
            None => list.len() == 0,
            Some(text) => exists|w: int|
                {
                    &&& 0 <= w < list.len()
                    &&& text == (#[trigger] list[w]).0
                    &&& forall|j: int|
                        w < j < list.len() ==> float_greater(list[w].1, (#[trigger] list[j]).1)
                    &&& (forall|i: int|
                        0 <= i < list.len() ==> float_rank((#[trigger] list[i]).1) is Some) ==> (
                    forall|i: int|
                        0 <= i < list.len() ==> !float_greater((#[trigger] list[i]).1, list[w].1))
                },
        },
{
    if list.len() > 0 {
        let scores = list.map_values(|c: (Seq<char>, u32)| c.1);
        lemma_best_holds(scores);
        let w = best_index(scores);
        assert(best_candidate(list) == Some(list[w].0));
        assert forall|j: int| w < j < list.len() implies float_greater(
            list[w].1,
            (#[trigger] list[j]).1,
        ) by {
            assert(scores[j] == list[j].1);
        }
        if forall|i: int| 0 <= i < list.len() ==> float_rank((#[trigger] list[i]).1) is Some {
            assert forall|i: int| 0 <= i < scores.len() implies float_rank(
                #[trigger] scores[i],
            ) is Some by {
                assert(scores[i] == list[i].1);
            }
            assert forall|i: int| 0 <= i < list.len() implies !float_greater(
                (#[trigger] list[i]).1,
                list[w].1,
            ) by {
                assert(scores[i] == list[i].1);
            }
        }
    }
}

/// A guess that is not beaten when it comes last is taken, whatever came before it: so is
/// one with the same score as the best before it, and one whose score is not a number.
pub proof fn law_last_guess(list: Seq<(Seq<char>, u32)>, last: (Seq<char>, u32))
    requires
        forall|i: int| 0 <= i < list.len() ==> !float_greater((#[trigger] list[i]).1, last.1),
    ensures
        best_candidate(list.push(last)) == Some(last.0),
{
    let all = list.push(last);
    let scores = all.map_values(|c: (Seq<char>, u32)| c.1);
    if list.len() > 0 {
        let shorter = scores.drop_last();
        lemma_best_holds(shorter);
        assert(shorter[best_index(shorter)] == list[best_index(shorter)].1);
        assert(scores.last() == last.1);
    }
}

} // verus!
